//! Playing cards, compared by rank alone, and the outcome of a round.
use std::cmp::Ordering;
use vstd::prelude::*;
use vstd::std_specs::cmp::{PartialEqSpec, PartialOrdSpec};
use vstd::std_specs::convert::TryFromSpec;

verus! {

/// Cards in one suit; a card's rank is its value modulo this.
pub const NUM_CARDS_IN_SUIT: u8 = 13;

/// Suits in a deck; a card's suit is its value divided by `NUM_CARDS_IN_SUIT`.
pub const NUM_SUITS: u8 = 4;

/// Distinct cards in a full deck.
pub const NUM_CARDS_TOTAL: u8 = NUM_CARDS_IN_SUIT * NUM_SUITS;

/// The ordering of two integers, as `Ord::cmp` gives it.
pub open spec fn ordering_of(a: int, b: int) -> Ordering {
    if a < b {
        Ordering::Less
    } else if a == b {
        Ordering::Equal
    } else {
        Ordering::Greater
    }
}

/// One of the 52 cards, identified by a value in `0..52`.
///
/// Equality and ordering look at the rank (`value % 13`) only: two cards of
/// the same rank and different suits are equal.
#[derive(Clone, Copy, Debug)]
pub struct Card(u8);

/// The error of building a card from a value that is not below 52.
#[derive(Clone, Copy, Debug)]
pub struct CardValueTooBig {
    value: u8,
}

impl View for Card {
    type V = u8;

    closed spec fn view(&self) -> u8 {
        self.0
    }
}

/// The rank of a card value.
pub open spec fn rank_of(v: u8) -> u8 {
    (v % 13) as u8
}

impl Card {
    #[verifier::type_invariant]
    spec fn in_range(self) -> bool {
        self.0 < NUM_CARDS_TOTAL
    }

    /// The card's rank, `value % 13`.
    pub open spec fn rank(self) -> u8 {
        rank_of(self@)
    }

    /// The card with value `value`, or an error when `value` is 52 or more.
    pub fn from_value(value: u8) -> (r: Result<Card, CardValueTooBig>)
        ensures
            r is Ok <==> value < 52,
            r matches Ok(c) ==> c@ == value,
            r matches Err(e) ==> e@ == value,
    {
        if value >= NUM_CARDS_TOTAL {
            Err(CardValueTooBig { value })
        } else {
            Ok(Card(value))
        }
    }

    /// The card with value `value`, which the caller knows to be below 52.
    pub(crate) fn from_valid_value(value: u8) -> (c: Card)
        requires
            value < 52,
        ensures
            c@ == value,
    {
        Card(value)
    }

    /// The card's value in `0..52`.
    pub fn value(&self) -> (r: u8)
        ensures
            r == self@,
            r < 52,
    {
        proof {
            use_type_invariant(self);
        }
        self.0
    }

    /// Compares the ranks of two cards; the suits play no part.
    pub fn cmp(&self, other: &Card) -> (r: Ordering)
        ensures
            r == ordering_of(self.rank() as int, other.rank() as int),
    {
        let self_rank = self.0 % NUM_CARDS_IN_SUIT;
        let other_rank = other.0 % NUM_CARDS_IN_SUIT;
        if self_rank < other_rank {
            Ordering::Less
        } else if self_rank == other_rank {
            Ordering::Equal
        } else {
            Ordering::Greater
        }
    }
}

/// Two cards with the same value are the same card.
pub proof fn lemma_card_view_injective(a: Card, b: Card)
    ensures
        a@ == b@ ==> a == b,
{
}

/// Cards compare by rank alone: equal exactly when their values agree
/// modulo 13, and less exactly when the first one's value modulo 13 is
/// smaller.
pub proof fn lemma_rank_only_comparison(a: Card, b: Card)
    ensures
        a.eq_spec(&b) <==> a@ % 13 == b@ % 13,
        a.partial_cmp_spec(&b) == Some(Ordering::Less) <==> a@ % 13 < b@ % 13,
        a.partial_cmp_spec(&b) == Some(Ordering::Greater) <==> a@ % 13 > b@ % 13,
{
}

impl View for CardValueTooBig {
    type V = u8;

    closed spec fn view(&self) -> u8 {
        self.value
    }
}

impl CardValueTooBig {
    /// The value that was refused.
    pub fn value(&self) -> (r: u8)
        ensures
            r == self@,
    {
        self.value
    }

    /// The largest value a card can have.
    pub fn max(&self) -> (r: u8)
        ensures
            r == 51,
    {
        NUM_CARDS_TOTAL - 1
    }
}

impl TryFrom<u8> for Card {
    type Error = CardValueTooBig;

    fn try_from(value: u8) -> (r: Result<Card, CardValueTooBig>) {
        Card::from_value(value)
    }
}

impl vstd::std_specs::convert::TryFromSpecImpl<u8> for Card {
    open spec fn obeys_try_from_spec() -> bool {
        true
    }

    closed spec fn try_from_spec(value: u8) -> Result<Card, CardValueTooBig> {
        if value < 52 {
            Ok(Card(value))
        } else {
            Err(CardValueTooBig { value })
        }
    }
}

/// `Card::try_from(value)` succeeds exactly when `value` is below 52; the card
/// then has that value, and otherwise the error carries it.
pub broadcast proof fn lemma_try_from_result(value: u8)
    ensures
        #![trigger <Card as TryFromSpec<u8>>::try_from_spec(value)]
        <Card as TryFromSpec<u8>>::try_from_spec(value) is Ok <==> value < 52,
        <Card as TryFromSpec<u8>>::try_from_spec(value) matches Ok(c) ==> c@ == value,
        <Card as TryFromSpec<u8>>::try_from_spec(value) matches Err(e) ==> e@ == value,
{
}

impl PartialEq for Card {
    fn eq(&self, other: &Card) -> (r: bool) {
        matches!(self.cmp(other), Ordering::Equal)
    }
}

impl vstd::std_specs::cmp::PartialEqSpecImpl for Card {
    open spec fn obeys_eq_spec() -> bool {
        true
    }

    open spec fn eq_spec(&self, other: &Card) -> bool {
        self.rank() == other.rank()
    }
}

impl Eq for Card {}

impl PartialOrd for Card {
    fn partial_cmp(&self, other: &Card) -> (r: Option<Ordering>) {
        Some(self.cmp(other))
    }
}

impl vstd::std_specs::cmp::PartialOrdSpecImpl for Card {
    open spec fn obeys_partial_cmp_spec() -> bool {
        true
    }

    open spec fn partial_cmp_spec(&self, other: &Card) -> Option<Ordering> {
        Some(ordering_of(self.rank() as int, other.rank() as int))
    }
}

/// The outcome of a round, told to the player who receives it.
#[derive(Clone, Copy, Debug, PartialEq, Eq, Structural)]
pub enum RoundResult {
    Win,
    Draw,
    Lose,
}

impl RoundResult {
    /// The wire code of a result: `Win` 0, `Draw` 1, `Lose` 2.
    pub open spec fn code_spec(self) -> u8 {
        match self {
            RoundResult::Win => 0,
            RoundResult::Draw => 1,
            RoundResult::Lose => 2,
        }
    }

    /// The result with wire code `code`, if there is one.
    pub open spec fn from_code_spec(code: u8) -> Option<RoundResult> {
        if code == 0 {
            Some(RoundResult::Win)
        } else if code == 1 {
            Some(RoundResult::Draw)
        } else if code == 2 {
            Some(RoundResult::Lose)
        } else {
            None
        }
    }

    /// The result for a player whose card compared to the other's as `o`.
    pub open spec fn from_ordering_spec(o: Ordering) -> RoundResult {
        match o {
            Ordering::Less => RoundResult::Lose,
            Ordering::Equal => RoundResult::Draw,
            Ordering::Greater => RoundResult::Win,
        }
    }

    /// The wire code of this result.
    pub fn code(&self) -> (r: u8)
        ensures
            r == self.code_spec(),
    {
        match self {
            RoundResult::Win => 0,
            RoundResult::Draw => 1,
            RoundResult::Lose => 2,
        }
    }

    /// The result with wire code `code`, or `None` for a code other than 0,
    /// 1 or 2.
    pub fn from_code(code: u8) -> (r: Option<RoundResult>)
        ensures
            r == RoundResult::from_code_spec(code),
    {
        if code == 0 {
            Some(RoundResult::Win)
        } else if code == 1 {
            Some(RoundResult::Draw)
        } else if code == 2 {
            Some(RoundResult::Lose)
        } else {
            None
        }
    }
}

impl From<Ordering> for RoundResult {
    /// The result for the player whose card was the left side of the
    /// comparison.
    fn from(value: Ordering) -> (r: RoundResult) {
        match value {
            Ordering::Less => RoundResult::Lose,
            Ordering::Equal => RoundResult::Draw,
            Ordering::Greater => RoundResult::Win,
        }
    }
}

impl vstd::std_specs::convert::FromSpecImpl<Ordering> for RoundResult {
    open spec fn obeys_from_spec() -> bool {
        true
    }

    open spec fn from_spec(value: Ordering) -> RoundResult {
        RoundResult::from_ordering_spec(value)
    }
}

} // verus!
