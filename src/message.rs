//! The wire format: each message is a tag byte followed by a payload whose
//! length the tag alone decides.
use crate::card::{lemma_card_view_injective, Card, RoundResult};
use vstd::prelude::*;

verus! {

/// Cards dealt to each player.
pub const HAND_SIZE: usize = 26;

/// The cards dealt to one player, in the order they are played.
pub type Hand = [Card; 26];

/// Tag of `Message::WantGame`.
pub const TAG_WANT_GAME: u8 = 0;

/// Tag of `Message::GameStart`.
pub const TAG_GAME_START: u8 = 1;

/// Tag of `Message::PlayCard`.
pub const TAG_PLAY_CARD: u8 = 2;

/// Tag of `Message::PlayResult`.
pub const TAG_PLAY_RESULT: u8 = 3;

/// A message of the protocol.
#[derive(Clone, Copy, Debug)]
pub enum Message {
    /// A client is ready to play.
    WantGame,
    /// The server deals a hand to a client.
    GameStart(Hand),
    /// A client plays a card.
    PlayCard(Card),
    /// The server tells a client how a round ended for it.
    PlayResult(RoundResult),
}

/// Why a byte sequence is not a message.
#[derive(Clone, Copy, Debug, PartialEq, Eq, Structural)]
pub enum DecodeError {
    /// The tag is not one of 0, 1, 2, 3.
    UnknownTag(u8),
    /// Fewer bytes follow the tag than it requires.
    TruncatedInput,
    /// A card byte is 52 or more, or a result code is not 0, 1 or 2.
    ValueOutOfRange(u8),
    /// A `WantGame` whose second byte is not 0.
    MalformedWantGame(u8),
}

/// The values of the cards of a hand, in order.
pub open spec fn hand_values(h: Hand) -> Seq<u8> {
    h@.map_values(|c: Card| c@)
}

/// The number of payload bytes that follow a known tag.
pub open spec fn payload_len_spec(tag: u8) -> int {
    if tag == TAG_GAME_START {
        HAND_SIZE as int
    } else {
        1
    }
}

/// The index of the first byte of `s` that is no card value, if any.
pub open spec fn is_first_bad_card(s: Seq<u8>, i: int) -> bool {
    &&& 0 <= i < s.len()
    &&& s[i] >= 52
    &&& forall|j: int| 0 <= j < i ==> s[j] < 52
}

/// What decoding the tag `tag` followed by the bytes `rest` gives. Bytes after
/// the payload are not looked at.
pub open spec fn decodes(tag: u8, rest: Seq<u8>, r: Result<Message, DecodeError>) -> bool {
    if tag > TAG_PLAY_RESULT {
        r == Err::<Message, DecodeError>(DecodeError::UnknownTag(tag))
    } else if rest.len() < payload_len_spec(tag) {
        r == Err::<Message, DecodeError>(DecodeError::TruncatedInput)
    } else if tag == TAG_WANT_GAME {
        if rest[0] == 0 {
            r == Ok::<Message, DecodeError>(Message::WantGame)
        } else {
            r == Err::<Message, DecodeError>(DecodeError::MalformedWantGame(rest[0]))
        }
    } else if tag == TAG_GAME_START {
        if forall|j: int| 0 <= j < HAND_SIZE ==> rest[j] < 52 {
            r matches Ok(Message::GameStart(h)) && hand_values(h) == rest.take(HAND_SIZE as int)
        } else {
            exists|i: int|
                is_first_bad_card(rest.take(HAND_SIZE as int), i) && r == Err::<
                    Message,
                    DecodeError,
                >(DecodeError::ValueOutOfRange(rest[i]))
        }
    } else if tag == TAG_PLAY_CARD {
        if rest[0] < 52 {
            r matches Ok(Message::PlayCard(c)) && c@ == rest[0]
        } else {
            r == Err::<Message, DecodeError>(DecodeError::ValueOutOfRange(rest[0]))
        }
    } else {
        match RoundResult::from_code_spec(rest[0]) {
            Some(x) => r == Ok::<Message, DecodeError>(Message::PlayResult(x)),
            None => r == Err::<Message, DecodeError>(DecodeError::ValueOutOfRange(rest[0])),
        }
    }
}

impl Message {
    /// The bytes of the message on the wire.
    pub open spec fn encoded(self) -> Seq<u8> {
        match self {
            Message::WantGame => seq![TAG_WANT_GAME, 0u8],
            Message::GameStart(h) => seq![TAG_GAME_START] + hand_values(h),
            Message::PlayCard(c) => seq![TAG_PLAY_CARD, c@],
            Message::PlayResult(r) => seq![TAG_PLAY_RESULT, r.code_spec()],
        }
    }

    /// Every card in the message has a value below 52.
    pub open spec fn valid(self) -> bool {
        match self {
            Message::GameStart(h) => forall|i: int| 0 <= i < HAND_SIZE ==> #[trigger] h[i]@ < 52,
            Message::PlayCard(c) => c@ < 52,
            _ => true,
        }
    }

    /// Writes the message as its tag followed by its payload.
    pub fn encode(&self) -> (r: Vec<u8>)
        ensures
            r@ == self.encoded(),
    {
        match self {
            Message::WantGame => vec![TAG_WANT_GAME, 0u8],
            Message::GameStart(h) => {
                let mut out: Vec<u8> = Vec::with_capacity(HAND_SIZE + 1);
                out.push(TAG_GAME_START);
                let mut i: usize = 0;
                while i < HAND_SIZE
                    invariant
                        i <= HAND_SIZE,
                        out@ == seq![TAG_GAME_START] + hand_values(*h).take(i as int),
                    decreases HAND_SIZE - i,
                {
                    out.push(h[i].value());
                    i += 1;
                    proof {
                        assert(hand_values(*h).take(i as int) =~= hand_values(*h).take(
                            (i - 1) as int,
                        ).push(h[i - 1]@));
                    }
                }
                proof {
                    assert(hand_values(*h).take(HAND_SIZE as int) =~= hand_values(*h));
                }
                out
            },
            Message::PlayCard(c) => vec![TAG_PLAY_CARD, c.value()],
            Message::PlayResult(r) => vec![TAG_PLAY_RESULT, r.code()],
        }
    }

    /// The number of payload bytes that follow `tag`, or `None` for an
    /// unknown tag.
    pub fn payload_len(tag: u8) -> (r: Option<usize>)
        ensures
            tag <= TAG_PLAY_RESULT ==> r == Some(payload_len_spec(tag) as usize),
            tag > TAG_PLAY_RESULT ==> r is None,
    {
        if tag > TAG_PLAY_RESULT {
            None
        } else if tag == TAG_GAME_START {
            Some(HAND_SIZE)
        } else {
            Some(1)
        }
    }

    /// Reads the message with tag `tag` from the bytes that follow it.
    pub fn decode(tag: u8, rest: &[u8]) -> (r: Result<Message, DecodeError>)
        ensures
            decodes(tag, rest@, r),
    {
        if tag > TAG_PLAY_RESULT {
            return Err(DecodeError::UnknownTag(tag));
        }
        if tag == TAG_GAME_START {
            if rest.len() < HAND_SIZE {
                return Err(DecodeError::TruncatedInput);
            }
        } else if rest.len() < 1 {
            return Err(DecodeError::TruncatedInput);
        }
        if tag == TAG_WANT_GAME {
            if rest[0] == 0 {
                Ok(Message::WantGame)
            } else {
                Err(DecodeError::MalformedWantGame(rest[0]))
            }
        } else if tag == TAG_GAME_START {
            Self::decode_hand(rest)
        } else if tag == TAG_PLAY_CARD {
            match Card::from_value(rest[0]) {
                Ok(c) => Ok(Message::PlayCard(c)),
                Err(_) => Err(DecodeError::ValueOutOfRange(rest[0])),
            }
        } else {
            match RoundResult::from_code(rest[0]) {
                Some(x) => Ok(Message::PlayResult(x)),
                None => Err(DecodeError::ValueOutOfRange(rest[0])),
            }
        }
    }

    fn decode_hand(rest: &[u8]) -> (r: Result<Message, DecodeError>)
        requires
            rest@.len() >= HAND_SIZE,
        ensures
            decodes(TAG_GAME_START, rest@, r),
    {
        let ghost s = rest@.take(HAND_SIZE as int);
        let first = match Card::from_value(rest[0]) {
            Ok(c) => c,
            Err(_) => {
                assert(is_first_bad_card(s, 0));
                return Err(DecodeError::ValueOutOfRange(rest[0]));
            },
        };
        let mut hand: Hand = [first;26];
        let mut i: usize = 1;
        while i < HAND_SIZE
            invariant
                1 <= i <= HAND_SIZE,
                rest@.len() >= HAND_SIZE,
                s == rest@.take(HAND_SIZE as int),
                forall|j: int| 0 <= j < i ==> rest@[j] < 52,
                forall|j: int| 0 <= j < i ==> #[trigger] hand@[j]@ == rest@[j],
            decreases HAND_SIZE - i,
        {
            match Card::from_value(rest[i]) {
                Ok(c) => {
                    hand[i] = c;
                },
                Err(_) => {
                    assert(is_first_bad_card(s, i as int));
                    return Err(DecodeError::ValueOutOfRange(rest[i]));
                },
            }
            i += 1;
        }
        assert(hand_values(hand) =~= rest@.take(HAND_SIZE as int));
        Ok(Message::GameStart(hand))
    }
}

/// A `GameStart` takes 27 bytes: the tag 1, then the values of the hand's
/// cards in order.
pub proof fn lemma_game_start_layout(h: Hand)
    ensures
        Message::GameStart(h).encoded().len() == HAND_SIZE + 1,
        Message::GameStart(h).encoded()[0] == TAG_GAME_START,
        forall|i: int|
            0 <= i < HAND_SIZE ==> #[trigger] Message::GameStart(h).encoded()[i + 1] == h[i]@,
{
}

/// Decoding what `encode` wrote gives back the message: for every valid
/// message `m`, `decode(encode(m))` is `Ok(m)`.
pub proof fn lemma_decode_encode(m: Message, r: Result<Message, DecodeError>)
    requires
        m.valid(),
        decodes(m.encoded()[0], m.encoded().drop_first(), r),
    ensures
        r == Ok::<Message, DecodeError>(m),
{
    let b = m.encoded();
    match m {
        Message::WantGame => {},
        Message::GameStart(h) => {
            assert(b.drop_first() =~= hand_values(h));
            assert(b.drop_first().take(HAND_SIZE as int) =~= hand_values(h));
            assert(forall|j: int| 0 <= j < HAND_SIZE ==> b.drop_first()[j] == h[j]@);
            let h2 = r->Ok_0->GameStart_0;
            assert forall|j: int| 0 <= j < HAND_SIZE implies h2[j] == h[j] by {
                assert(hand_values(h2)[j] == hand_values(h)[j]);
                lemma_card_view_injective(h2[j], h[j]);
            }
            assert(h2 =~= h);
        },
        Message::PlayCard(c) => {
            let c2 = r->Ok_0->PlayCard_0;
            lemma_card_view_injective(c2, c);
        },
        Message::PlayResult(x) => {},
    }
}

} // verus!
