//! A full deck in random order, and the deal of its two halves.
use crate::card::{Card, NUM_CARDS_TOTAL};
use crate::message::{hand_values, Hand, HAND_SIZE};
use rand::rngs::StdRng;
use rand::seq::SliceRandom;
use vstd::prelude::*;
use vstd::seq_lib::to_multiset_contains;

verus! {

/// rand's `StdRng`, the seedable generator a deal draws its order from; its
/// state is opaque here.
#[verifier::external_type_specification]
#[verifier::external_body]
pub struct ExStdRng(StdRng);

/// The 52 card values in increasing order.
pub open spec fn full_deck() -> Seq<u8> {
    Seq::new(52, |i: int| i as u8)
}

/// `s` holds each of the 52 card values exactly once, in some order.
pub open spec fn is_shuffled_deck(s: Seq<u8>) -> bool {
    s.to_multiset() == full_deck().to_multiset()
}

/// The values of all 52 cards, in a random order, ready to be dealt.
pub struct Deck {
    values: Vec<u8>,
}

impl View for Deck {
    type V = Seq<u8>;

    closed spec fn view(&self) -> Seq<u8> {
        self.values@
    }
}

/// Relies on rand's `SliceRandom::shuffle`, which only swaps elements of the
/// slice: the result holds the same values, in some order.
#[verifier::external_body]
fn shuffle_values(values: &mut Vec<u8>, rng: &mut StdRng)
    ensures
        final(values)@.to_multiset() == old(values)@.to_multiset(),
{
    values.shuffle(rng);
}

/// Any order of the full deck holds each card value below 52 exactly once, so
/// its first 26 values and its last 26 values together make up the whole deck,
/// with no value twice.
pub proof fn lemma_deal_partitions_deck(s: Seq<u8>)
    requires
        is_shuffled_deck(s),
    ensures
        s.len() == 52,
        s.no_duplicates(),
        forall|i: int| 0 <= i < s.len() ==> #[trigger] s[i] < 52,
        s.take(HAND_SIZE as int).to_set().union(s.skip(HAND_SIZE as int).to_set()) == Set::new(
            |v: u8| v < 52,
        ),
        s.take(HAND_SIZE as int).to_set().disjoint(s.skip(HAND_SIZE as int).to_set()),
{
    broadcast use vstd::seq_lib::group_to_multiset_ensures;

    let f = full_deck();
    assert(f.no_duplicates());
    f.lemma_multiset_has_no_duplicates();
    s.lemma_multiset_has_no_duplicates_conv();
    assert(s.len() == f.len()) by {
        s.to_multiset_ensures();
        f.to_multiset_ensures();
    }
    assert forall|v: u8| s.contains(v) <==> v < 52 by {
        to_multiset_contains(s, v);
        to_multiset_contains(f, v);
        if v < 52 {
            assert(f[v as int] == v);
        }
    }
    assert forall|i: int| 0 <= i < s.len() implies #[trigger] s[i] < 52 by {
        assert(s.contains(s[i]));
    }
    let a = s.take(HAND_SIZE as int);
    let b = s.skip(HAND_SIZE as int);
    assert forall|v: u8| a.contains(v) || b.contains(v) <==> s.contains(v) by {
        if s.contains(v) {
            let i = choose|i: int| 0 <= i < s.len() && s[i] == v;
            if i < HAND_SIZE {
                assert(a[i] == v);
            } else {
                assert(b[i - HAND_SIZE] == v);
            }
        }
        if a.contains(v) {
            let i = choose|i: int| 0 <= i < a.len() && a[i] == v;
            assert(s[i] == v);
        }
        if b.contains(v) {
            let i = choose|i: int| 0 <= i < b.len() && b[i] == v;
            assert(s[i + HAND_SIZE] == v);
        }
    }
    assert(a.to_set().union(b.to_set()) =~= Set::new(|v: u8| v < 52));
    assert forall|v: u8| !(a.to_set().contains(v) && b.to_set().contains(v)) by {
        if a.contains(v) && b.contains(v) {
            let i = choose|i: int| 0 <= i < a.len() && a[i] == v;
            let j = choose|j: int| 0 <= j < b.len() && b[j] == v;
            assert(s[i] == s[j + HAND_SIZE]);
        }
    }
}

impl Deck {
    #[verifier::type_invariant]
    spec fn holds_full_deck(self) -> bool {
        is_shuffled_deck(self.values@)
    }

    /// A new deck: the 52 card values in an order drawn from `rng`.
    pub fn fresh_shuffled(rng: &mut StdRng) -> (d: Deck)
        ensures
            is_shuffled_deck(d@),
    {
        let mut values: Vec<u8> = Vec::with_capacity(52);
        let mut v: u8 = 0;
        while v < NUM_CARDS_TOTAL
            invariant
                v <= 52,
                values@ == full_deck().take(v as int),
            decreases 52 - v,
        {
            values.push(v);
            v += 1;
            assert(values@ =~= full_deck().take(v as int));
        }
        assert(values@ =~= full_deck());
        shuffle_values(&mut values, rng);
        Deck { values }
    }

    /// Splits the deck into two hands: its first 26 cards for player one and
    /// the other 26 for player two, each in deck order.
    pub fn deal_two(&self) -> (r: (Hand, Hand))
        ensures
            is_shuffled_deck(self@),
            hand_values(r.0) == self@.take(HAND_SIZE as int),
            hand_values(r.1) == self@.skip(HAND_SIZE as int),
    {
        proof {
            use_type_invariant(self);
            lemma_deal_partitions_deck(self.values@);
        }
        let one = hand_at(&self.values, 0);
        let two = hand_at(&self.values, HAND_SIZE);
        proof {
            assert(self.values@.subrange(HAND_SIZE as int, 2 * HAND_SIZE as int) =~= self@.skip(HAND_SIZE as int));
        }
        (one, two)
    }
}

/// The 26 cards whose values start at `start` in `values`.
fn hand_at(values: &Vec<u8>, start: usize) -> (h: Hand)
    requires
        start <= HAND_SIZE,
        start + HAND_SIZE <= values@.len(),
        forall|i: int| 0 <= i < values@.len() ==> #[trigger] values@[i] < 52,
    ensures
        hand_values(h) == values@.subrange(start as int, start + HAND_SIZE),
{
    let first = Card::from_valid_value(values[start]);
    let mut hand: Hand = [first;26];
    let mut i: usize = 1;
    while i < HAND_SIZE
        invariant
            1 <= i <= HAND_SIZE,
            start <= HAND_SIZE,
            start + HAND_SIZE <= values@.len(),
            forall|i: int| 0 <= i < values@.len() ==> #[trigger] values@[i] < 52,
            hand@[0]@ == values@[start as int],
            forall|j: int| 0 <= j < i ==> #[trigger] hand@[j]@ == values@[start + j],
        decreases HAND_SIZE - i,
    {
        hand[i] = Card::from_valid_value(values[start + i]);
        i += 1;
    }
    assert(hand_values(hand) =~= values@.subrange(start as int, start + HAND_SIZE));
    hand
}

} // verus!
