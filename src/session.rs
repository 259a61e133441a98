//! One game between two peers, as a state machine: each step takes what the
//! peers sent (or that reading from them failed) and gives the bytes to
//! write back, or that both connections are to be closed.
use crate::card::{ordering_of, rank_of, Card, RoundResult};
use crate::deck::{is_shuffled_deck, lemma_deal_partitions_deck, Deck};
use crate::message::{
    decodes, hand_values, Message, HAND_SIZE, TAG_GAME_START, TAG_PLAY_CARD, TAG_PLAY_RESULT,
};
use rand::rngs::StdRng;
use vstd::prelude::*;
use vstd::slice::{slice_subrange, slice_to_vec};

verus! {

/// Bytes read from each peer per step: a `WantGame` or a `PlayCard`.
pub const READ_LEN: usize = 2;

/// Where a session stands.
#[derive(Clone, Copy, Debug, PartialEq, Eq, Structural)]
pub enum Phase {
    /// Waiting for a `WantGame` from each peer.
    AwaitingReady,
    /// Hands are dealt; waiting for each peer's card of the current round.
    InRound,
    /// All rounds were played.
    Finished,
    /// A peer broke the protocol or could not be read from.
    Aborted,
}

/// What the peers did since the last step.
pub enum Event {
    /// The bytes read from player one and from player two.
    Received(Vec<u8>, Vec<u8>),
    /// Reading from or writing to a peer failed or timed out.
    Failed,
}

/// What to do with the connections after a step.
#[derive(Debug)]
pub enum Action {
    /// Write the first bytes to player one and the second to player two, then
    /// read the next message of each.
    Send(Vec<u8>, Vec<u8>),
    /// Write as `Send` does, then close both connections: the game is over.
    SendAndClose(Vec<u8>, Vec<u8>),
    /// Close both connections without writing anything.
    Close,
}

/// The abstract state of a session: its phase, the values of the two hands
/// dealt, and the number of rounds played.
pub struct SessionView {
    pub phase: Phase,
    pub hand_one: Seq<u8>,
    pub hand_two: Seq<u8>,
    pub round: nat,
}

/// An `Event` with its byte buffers seen as sequences.
pub enum EventView {
    Received(Seq<u8>, Seq<u8>),
    Failed,
}

/// An `Action` with its byte buffers seen as sequences.
pub enum ActionView {
    Send(Seq<u8>, Seq<u8>),
    SendAndClose(Seq<u8>, Seq<u8>),
    Close,
}

impl View for Event {
    type V = EventView;

    open spec fn view(&self) -> EventView {
        match self {
            Event::Received(one, two) => EventView::Received(one@, two@),
            Event::Failed => EventView::Failed,
        }
    }
}

impl View for Action {
    type V = ActionView;

    open spec fn view(&self) -> ActionView {
        match self {
            Action::Send(one, two) => ActionView::Send(one@, two@),
            Action::SendAndClose(one, two) => ActionView::SendAndClose(one@, two@),
            Action::Close => ActionView::Close,
        }
    }
}

/// The result for the player who played the card valued `mine` against the
/// card valued `theirs`: ranks alone decide.
pub open spec fn round_result(mine: u8, theirs: u8) -> RoundResult {
    RoundResult::from_ordering_spec(ordering_of(rank_of(mine) as int, rank_of(theirs) as int))
}

/// The bytes of `WantGame`.
pub open spec fn want_game_bytes() -> Seq<u8> {
    Message::WantGame.encoded()
}

/// The bytes of `PlayCard` with the card valued `v`.
pub open spec fn play_card_bytes(v: u8) -> Seq<u8> {
    seq![TAG_PLAY_CARD, v]
}

/// The bytes of `GameStart` with a hand of the given values.
pub open spec fn game_start_bytes(hand: Seq<u8>) -> Seq<u8> {
    seq![TAG_GAME_START] + hand
}

/// The bytes of `PlayResult` with result `r`.
pub open spec fn play_result_bytes(r: RoundResult) -> Seq<u8> {
    seq![TAG_PLAY_RESULT, r.code_spec()]
}

/// `s` with its phase set to `Aborted`.
pub open spec fn aborted(s: SessionView) -> SessionView {
    SessionView { phase: Phase::Aborted, ..s }
}

/// `s` is the state just after a deal: 26 cards each, together a full deck,
/// and no round played.
pub open spec fn freshly_dealt(s: SessionView) -> bool {
    &&& s.phase == Phase::InRound
    &&& s.round == 0
    &&& s.hand_one.len() == HAND_SIZE
    &&& s.hand_two.len() == HAND_SIZE
    &&& is_shuffled_deck(s.hand_one + s.hand_two)
}

/// A round of state `s` in which player one sent `one` and player two sent
/// `two`. Each must be the `PlayCard` of the next card of the sender's hand.
pub open spec fn round_step(s: SessionView, one: Seq<u8>, two: Seq<u8>) -> (SessionView, ActionView) {
    let i = s.round as int;
    if one == play_card_bytes(s.hand_one[i]) && two == play_card_bytes(s.hand_two[i]) {
        let last = s.round + 1 == HAND_SIZE;
        let next = SessionView {
            phase: if last {
                Phase::Finished
            } else {
                Phase::InRound
            },
            round: s.round + 1,
            ..s
        };
        let to_one = play_result_bytes(round_result(s.hand_one[i], s.hand_two[i]));
        let to_two = play_result_bytes(round_result(s.hand_two[i], s.hand_one[i]));
        if last {
            (next, ActionView::SendAndClose(to_one, to_two))
        } else {
            (next, ActionView::Send(to_one, to_two))
        }
    } else {
        (aborted(s), ActionView::Close)
    }
}

/// A step from `pre` on event `e` may lead to `post` with action `a`. Only the
/// deal is left open: the hands are any order of the full deck.
pub open spec fn step_spec(pre: SessionView, e: EventView, post: SessionView, a: ActionView) -> bool {
    match pre.phase {
        Phase::Finished | Phase::Aborted => post == pre && a == ActionView::Close,
        Phase::AwaitingReady => {
            if e == EventView::Received(want_game_bytes(), want_game_bytes()) {
                &&& freshly_dealt(post)
                &&& a == ActionView::Send(
                    game_start_bytes(post.hand_one),
                    game_start_bytes(post.hand_two),
                )
            } else {
                post == aborted(pre) && a == ActionView::Close
            }
        },
        Phase::InRound => match e {
            EventView::Received(one, two) => (post, a) == round_step(pre, one, two),
            EventView::Failed => post == aborted(pre) && a == ActionView::Close,
        },
    }
}

/// What both peers send in round `i` of a game whose hands are those of `s`
/// when both play validly: each its `i`-th card.
pub open spec fn valid_plays(s: SessionView, i: int) -> EventView {
    EventView::Received(play_card_bytes(s.hand_one[i]), play_card_bytes(s.hand_two[i]))
}

/// A round goes by rank: the higher rank wins and the other loses, and equal
/// ranks give both players a draw.
pub proof fn lemma_round_resolution(one: u8, two: u8)
    ensures
        rank_of(one) > rank_of(two) ==> round_result(one, two) == RoundResult::Win
            && round_result(two, one) == RoundResult::Lose,
        rank_of(one) < rank_of(two) ==> round_result(one, two) == RoundResult::Lose
            && round_result(two, one) == RoundResult::Win,
        rank_of(one) == rank_of(two) ==> round_result(one, two) == RoundResult::Draw
            && round_result(two, one) == RoundResult::Draw,
{
}

/// A handshake in which either peer sends anything but the exact `WantGame`
/// aborts the session, and nothing, no `GameStart` in particular, is sent.
pub proof fn lemma_bad_handshake_aborts(
    pre: SessionView,
    one: Seq<u8>,
    two: Seq<u8>,
    post: SessionView,
    a: ActionView,
)
    requires
        pre.phase == Phase::AwaitingReady,
        one != want_game_bytes() || two != want_game_bytes(),
        step_spec(pre, EventView::Received(one, two), post, a),
    ensures
        post.phase == Phase::Aborted,
        a == ActionView::Close,
{
}

/// A failed or timed-out read or write, before the game has ended, aborts the
/// whole session and closes both connections; a session that has ended stays
/// as it is.
pub proof fn lemma_failure_aborts(pre: SessionView, post: SessionView, a: ActionView)
    requires
        step_spec(pre, EventView::Failed, post, a),
    ensures
        a == ActionView::Close,
        pre.phase == Phase::AwaitingReady || pre.phase == Phase::InRound ==> post.phase
            == Phase::Aborted,
        pre.phase == Phase::Finished || pre.phase == Phase::Aborted ==> post == pre,
{
}

proof fn lemma_rounds_played(
    states: Seq<SessionView>,
    events: Seq<EventView>,
    actions: Seq<ActionView>,
    k: int,
)
    requires
        events.len() == HAND_SIZE + 1,
        states.len() == events.len() + 1,
        actions.len() == events.len(),
        states[0].phase == Phase::AwaitingReady,
        events[0] == EventView::Received(want_game_bytes(), want_game_bytes()),
        forall|i: int| 0 <= i < HAND_SIZE ==> events[i + 1] == valid_plays(states[1], i),
        forall|i: int|
            0 <= i < events.len() ==> step_spec(states[i], events[i], states[i + 1], actions[i]),
        0 <= k <= HAND_SIZE,
    ensures
        freshly_dealt(states[1]),
        states[k + 1].round == k,
        states[k + 1].hand_one == states[1].hand_one,
        states[k + 1].hand_two == states[1].hand_two,
        states[k + 1].phase == if k < HAND_SIZE {
            Phase::InRound
        } else {
            Phase::Finished
        },
        0 < k < HAND_SIZE ==> actions[k] is Send,
        k == HAND_SIZE ==> actions[k] is SendAndClose,
    decreases k,
{
    assert(step_spec(states[0], events[0], states[1], actions[0]));
    if k > 0 {
        lemma_rounds_played(states, events, actions, k - 1);
        assert(step_spec(states[k], events[k], states[k + 1], actions[k]));
        assert(events[k] == valid_plays(states[1], k - 1));
    }
}

/// A full game in which both peers send `WantGame` and then always play their
/// next card ends in exactly 26 rounds: after the deal each round plays the
/// next card of each hand, every round but the last one keeps the game going,
/// and the 26th round finishes it, having played every dealt card once.
pub proof fn lemma_full_game(
    states: Seq<SessionView>,
    events: Seq<EventView>,
    actions: Seq<ActionView>,
)
    requires
        events.len() == HAND_SIZE + 1,
        states.len() == events.len() + 1,
        actions.len() == events.len(),
        states[0].phase == Phase::AwaitingReady,
        events[0] == EventView::Received(want_game_bytes(), want_game_bytes()),
        forall|i: int| 0 <= i < HAND_SIZE ==> events[i + 1] == valid_plays(states[1], i),
        forall|i: int|
            0 <= i < events.len() ==> step_spec(states[i], events[i], states[i + 1], actions[i]),
    ensures
        freshly_dealt(states[1]),
        forall|k: int|
            1 <= k <= HAND_SIZE ==> (#[trigger] states[k]).phase == Phase::InRound
                && states[k].round == k - 1,
        forall|k: int| 1 <= k < HAND_SIZE ==> #[trigger] actions[k] is Send,
        states[HAND_SIZE + 1].phase == Phase::Finished,
        states[HAND_SIZE + 1].round == HAND_SIZE,
        states[HAND_SIZE + 1].hand_one == states[1].hand_one,
        states[HAND_SIZE + 1].hand_two == states[1].hand_two,
        actions[HAND_SIZE as int] is SendAndClose,
{
    assert forall|k: int| 1 <= k <= HAND_SIZE implies (#[trigger] states[k]).phase
        == Phase::InRound && states[k].round == k - 1 by {
        lemma_rounds_played(states, events, actions, k - 1);
    }
    assert forall|k: int| 1 <= k < HAND_SIZE implies #[trigger] actions[k] is Send by {
        lemma_rounds_played(states, events, actions, k);
    }
    lemma_rounds_played(states, events, actions, HAND_SIZE as int);
}

/// One game between player one and player two.
pub struct Session {
    phase: Phase,
    hand_one: Vec<Card>,
    hand_two: Vec<Card>,
    round: usize,
}

impl View for Session {
    type V = SessionView;

    closed spec fn view(&self) -> SessionView {
        SessionView {
            phase: self.phase,
            hand_one: self.hand_one@.map_values(|c: Card| c@),
            hand_two: self.hand_two@.map_values(|c: Card| c@),
            round: self.round as nat,
        }
    }
}

/// Both players' results of a round in which player one played `one` and
/// player two played `two`.
pub fn resolve_round(one: &Card, two: &Card) -> (r: (RoundResult, RoundResult))
    ensures
        r.0 == round_result(one@, two@),
        r.1 == round_result(two@, one@),
{
    (RoundResult::from(one.cmp(two)), RoundResult::from(two.cmp(one)))
}

/// `bytes` is exactly the encoding of `WantGame`.
fn is_want_game(bytes: &Vec<u8>) -> (r: bool)
    ensures
        r == (bytes@ == want_game_bytes()),
{
    if bytes.len() != READ_LEN {
        return false;
    }
    let r = Message::decode(bytes[0], slice_subrange(bytes.as_slice(), 1, READ_LEN));
    proof {
        if bytes@ == want_game_bytes() {
            assert(bytes@.subrange(1, 2)[0] == 0);
        }
        if r matches Ok(Message::WantGame) {
            assert(bytes@ =~= seq![bytes@[0], bytes@[1]]);
        }
    }
    matches!(r, Ok(Message::WantGame))
}

/// `bytes` is exactly the encoding of `PlayCard` with the very card `card`
/// (same value, not only same rank).
fn plays(bytes: &Vec<u8>, card: &Card) -> (r: bool)
    ensures
        r == (bytes@ == play_card_bytes(card@)),
{
    if bytes.len() != READ_LEN {
        return false;
    }
    let r = Message::decode(bytes[0], slice_subrange(bytes.as_slice(), 1, READ_LEN));
    let expected = card.value();
    proof {
        assert(bytes@.subrange(1, 2)[0] == bytes@[1]);
        assert(bytes@ =~= seq![bytes@[0], bytes@[1]]);
    }
    match r {
        Ok(Message::PlayCard(c)) => c.value() == expected,
        _ => false,
    }
}

impl Session {
    #[verifier::type_invariant]
    spec fn consistent(self) -> bool {
        &&& self.hand_one@.len() == self.hand_two@.len()
        &&& self.round <= self.hand_one@.len()
        &&& self.phase == Phase::AwaitingReady ==> self.hand_one@.len() == 0
        &&& self.phase == Phase::InRound ==> self.hand_one@.len() == HAND_SIZE && self.round
            < HAND_SIZE
        &&& self.phase == Phase::Finished ==> self.hand_one@.len() == HAND_SIZE
    }

    /// A session waiting for both peers' `WantGame`.
    pub fn new() -> (s: Session)
        ensures
            s@ == (SessionView {
                phase: Phase::AwaitingReady,
                hand_one: Seq::empty(),
                hand_two: Seq::empty(),
                round: 0,
            }),
    {
        let s = Session { phase: Phase::AwaitingReady, hand_one: Vec::new(), hand_two: Vec::new(), round: 0 };
        assert(s@.hand_one =~= Seq::empty());
        assert(s@.hand_two =~= Seq::empty());
        s
    }

    /// The phase the session is in.
    pub fn phase(&self) -> (r: Phase)
        ensures
            r == self@.phase,
    {
        self.phase
    }

    /// The number of rounds played.
    pub fn round(&self) -> (r: usize)
        ensures
            r == self@.round,
    {
        self.round
    }

    /// Advances the session on `event`. A deal draws its order from `rng`.
    pub fn step(&mut self, event: Event, rng: &mut StdRng) -> (a: Action)
        ensures
            step_spec(old(self)@, event@, final(self)@, a@),
    {
        match self.phase {
            Phase::Finished | Phase::Aborted => Action::Close,
            Phase::AwaitingReady => match event {
                Event::Received(one, two) => self.handshake(&one, &two, rng),
                Event::Failed => self.abort(),
            },
            Phase::InRound => match event {
                Event::Received(one, two) => self.play_round(&one, &two),
                Event::Failed => self.abort(),
            },
        }
    }

    fn abort(&mut self) -> (a: Action)
        requires
            old(self)@.phase == Phase::AwaitingReady || old(self)@.phase == Phase::InRound,
        ensures
            final(self)@ == aborted(old(self)@),
            a == Action::Close,
    {
        proof {
            use_type_invariant(&*self);
        }
        self.phase = Phase::Aborted;
        Action::Close
    }

    fn handshake(&mut self, one: &Vec<u8>, two: &Vec<u8>, rng: &mut StdRng) -> (a: Action)
        requires
            old(self)@.phase == Phase::AwaitingReady,
        ensures
            step_spec(old(self)@, EventView::Received(one@, two@), final(self)@, a@),
    {
        if !is_want_game(one) || !is_want_game(two) {
            return self.abort();
        }
        let deck = Deck::fresh_shuffled(rng);
        let (first, second) = deck.deal_two();
        let to_one = Message::GameStart(first).encode();
        let to_two = Message::GameStart(second).encode();
        let hand_one = slice_to_vec(first.as_slice());
        let hand_two = slice_to_vec(second.as_slice());
        *self = Session { phase: Phase::InRound, hand_one, hand_two, round: 0 };
        proof {
            assert(self@.hand_one =~= hand_values(first));
            assert(self@.hand_two =~= hand_values(second));
            lemma_deal_partitions_deck(deck@);
            assert(self@.hand_one + self@.hand_two =~= deck@);
        }
        Action::Send(to_one, to_two)
    }

    fn play_round(&mut self, one: &Vec<u8>, two: &Vec<u8>) -> (a: Action)
        requires
            old(self)@.phase == Phase::InRound,
        ensures
            (final(self)@, a@) == round_step(old(self)@, one@, two@),
    {
        proof {
            use_type_invariant(&*self);
        }
        let i = self.round;
        let card_one = self.hand_one[i];
        let card_two = self.hand_two[i];
        if !plays(one, &card_one) || !plays(two, &card_two) {
            return self.abort();
        }
        let (result_one, result_two) = resolve_round(&card_one, &card_two);
        let to_one = Message::PlayResult(result_one).encode();
        let to_two = Message::PlayResult(result_two).encode();
        if i + 1 == HAND_SIZE {
            self.phase = Phase::Finished;
            self.round = i + 1;
            Action::SendAndClose(to_one, to_two)
        } else {
            self.round = i + 1;
            Action::Send(to_one, to_two)
        }
    }
}

} // verus!
