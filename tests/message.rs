use war_server::card::{Card, RoundResult};
use war_server::message::{DecodeError, Message};

fn card(v: u8) -> Card {
    Card::from_value(v).unwrap()
}

fn decode_all(bytes: &[u8]) -> Result<Message, DecodeError> {
    Message::decode(bytes[0], &bytes[1..])
}

#[test]
fn crazy_bit_casts() {
    assert_eq!(Message::WantGame.encode(), [0, 0]);
    assert_eq!(Message::GameStart([Card::try_from(0).unwrap(); 26]).encode(), {
        let mut buf = [0u8; 27];
        buf[0] = 1;
        buf
    });
    assert_eq!(
        Message::PlayCard(Card::try_from(20).unwrap()).encode(),
        [2, 20]
    );
    assert_eq!(Message::PlayResult(RoundResult::Lose).encode(), [3, 2]);
}

#[test]
fn want_game_is_two_zero_bytes() {
    assert_eq!(Message::WantGame.encode(), vec![0u8, 0u8]);
}

#[test]
fn game_start_layout() {
    let mut hand = [card(0); 26];
    for i in 0..26 {
        hand[i] = card((51 - 2 * i) as u8);
    }
    let bytes = Message::GameStart(hand).encode();
    assert_eq!(bytes.len(), 27);
    assert_eq!(bytes[0], 1);
    for i in 0..26 {
        assert_eq!(bytes[i + 1], (51 - 2 * i) as u8);
    }
}

#[test]
fn round_trip_every_small_message() {
    match decode_all(&Message::WantGame.encode()) {
        Ok(Message::WantGame) => {}
        other => panic!("{:?}", other),
    }
    for v in 0..52u8 {
        match decode_all(&Message::PlayCard(card(v)).encode()) {
            Ok(Message::PlayCard(c)) => assert_eq!(c.value(), v),
            other => panic!("{:?}", other),
        }
    }
    for r in [RoundResult::Win, RoundResult::Draw, RoundResult::Lose] {
        match decode_all(&Message::PlayResult(r).encode()) {
            Ok(Message::PlayResult(x)) => assert_eq!(x, r),
            other => panic!("{:?}", other),
        }
    }
    let mut hand = [card(0); 26];
    for i in 0..26 {
        hand[i] = card((i * 2 + 1) as u8);
    }
    match decode_all(&Message::GameStart(hand).encode()) {
        Ok(Message::GameStart(h)) => {
            for i in 0..26 {
                assert_eq!(h[i].value(), hand[i].value());
            }
        }
        other => panic!("{:?}", other),
    }
}

#[test]
fn decode_errors() {
    assert_eq!(
        Message::decode(4, &[0]).unwrap_err(),
        DecodeError::UnknownTag(4)
    );
    assert_eq!(
        Message::decode(2, &[]).unwrap_err(),
        DecodeError::TruncatedInput
    );
    assert_eq!(
        Message::decode(1, &[0; 25]).unwrap_err(),
        DecodeError::TruncatedInput
    );
    assert_eq!(
        Message::decode(2, &[52]).unwrap_err(),
        DecodeError::ValueOutOfRange(52)
    );
    assert_eq!(
        Message::decode(3, &[3]).unwrap_err(),
        DecodeError::ValueOutOfRange(3)
    );
    assert_eq!(
        Message::decode(0, &[1]).unwrap_err(),
        DecodeError::MalformedWantGame(1)
    );
    let mut payload = [7u8; 26];
    payload[5] = 60;
    payload[9] = 99;
    assert_eq!(
        Message::decode(1, &payload).unwrap_err(),
        DecodeError::ValueOutOfRange(60)
    );
}

#[test]
fn decode_ignores_bytes_after_the_payload() {
    match Message::decode(2, &[5, 200, 201]) {
        Ok(Message::PlayCard(c)) => assert_eq!(c.value(), 5),
        other => panic!("{:?}", other),
    }
    assert_eq!(Message::payload_len(1), Some(26));
    assert_eq!(Message::payload_len(0), Some(1));
    assert_eq!(Message::payload_len(9), None);
}
