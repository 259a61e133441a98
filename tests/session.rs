use rand::rngs::StdRng;
use rand::SeedableRng;
use war_server::card::{Card, RoundResult};
use war_server::deck::Deck;
use war_server::session::{resolve_round, Action, Event, Phase, Session};

fn card(v: u8) -> Card {
    Card::from_value(v).unwrap()
}

fn start(session: &mut Session, rng: &mut StdRng) -> (Vec<u8>, Vec<u8>) {
    match session.step(Event::Received(vec![0, 0], vec![0, 0]), rng) {
        Action::Send(one, two) => (one, two),
        other => panic!("{:?}", other),
    }
}

#[test]
fn deal_two_splits_a_full_deck() {
    for seed in 0..20u64 {
        let mut rng = StdRng::seed_from_u64(seed);
        let deck = Deck::fresh_shuffled(&mut rng);
        let (one, two) = deck.deal_two();
        let mut seen = [false; 52];
        for c in one.iter().chain(two.iter()) {
            let v = c.value() as usize;
            assert!(!seen[v]);
            seen[v] = true;
        }
        assert!(seen.iter().all(|s| *s));
    }
}

#[test]
fn resolve_round_by_rank() {
    assert_eq!(
        resolve_round(&card(12), &card(11)),
        (RoundResult::Win, RoundResult::Lose)
    );
    assert_eq!(
        resolve_round(&card(13), &card(40)),
        (RoundResult::Lose, RoundResult::Win)
    );
    assert_eq!(
        resolve_round(&card(0), &card(13)),
        (RoundResult::Draw, RoundResult::Draw)
    );
}

#[test]
fn bad_handshake_aborts_before_dealing() {
    let mut rng = StdRng::seed_from_u64(1);
    let mut session = Session::new();
    match session.step(Event::Received(vec![0, 0], vec![0, 1]), &mut rng) {
        Action::Close => {}
        other => panic!("{:?}", other),
    }
    assert_eq!(session.phase(), Phase::Aborted);
    match session.step(Event::Received(vec![0, 0], vec![0, 0]), &mut rng) {
        Action::Close => {}
        other => panic!("{:?}", other),
    }
    assert_eq!(session.phase(), Phase::Aborted);
}

#[test]
fn other_message_in_handshake_aborts() {
    let mut rng = StdRng::seed_from_u64(2);
    let mut session = Session::new();
    match session.step(Event::Received(vec![2, 5], vec![0, 0]), &mut rng) {
        Action::Close => {}
        other => panic!("{:?}", other),
    }
    assert_eq!(session.phase(), Phase::Aborted);
}

#[test]
fn full_game_takes_26_rounds() {
    let mut rng = StdRng::seed_from_u64(7);
    let mut session = Session::new();
    let (one, two) = start(&mut session, &mut rng);
    assert_eq!(one.len(), 27);
    assert_eq!(two.len(), 27);
    assert_eq!(one[0], 1);
    assert_eq!(two[0], 1);
    assert_eq!(session.phase(), Phase::InRound);
    for i in 0..26 {
        assert_eq!(session.round(), i);
        let (a, b) = (one[i + 1], two[i + 1]);
        let expected = resolve_round(&card(a), &card(b));
        let action = session.step(Event::Received(vec![2, a], vec![2, b]), &mut rng);
        let (to_one, to_two) = match action {
            Action::Send(x, y) if i < 25 => (x, y),
            Action::SendAndClose(x, y) if i == 25 => (x, y),
            other => panic!("round {}: {:?}", i, other),
        };
        assert_eq!(to_one, vec![3, expected.0.code()]);
        assert_eq!(to_two, vec![3, expected.1.code()]);
    }
    assert_eq!(session.round(), 26);
    assert_eq!(session.phase(), Phase::Finished);
}

#[test]
fn wrong_card_aborts() {
    let mut rng = StdRng::seed_from_u64(3);
    let mut session = Session::new();
    let (one, two) = start(&mut session, &mut rng);
    // The same rank in another suit is still the wrong card.
    let other_suit = (one[1] + 13) % 52;
    match session.step(Event::Received(vec![2, other_suit], vec![2, two[1]]), &mut rng) {
        Action::Close => {}
        other => panic!("{:?}", other),
    }
    assert_eq!(session.phase(), Phase::Aborted);
}

#[test]
fn read_failure_mid_game_aborts() {
    let mut rng = StdRng::seed_from_u64(4);
    let mut session = Session::new();
    let (one, two) = start(&mut session, &mut rng);
    match session.step(Event::Received(vec![2, one[1]], vec![2, two[1]]), &mut rng) {
        Action::Send(_, _) => {}
        other => panic!("{:?}", other),
    }
    match session.step(Event::Failed, &mut rng) {
        Action::Close => {}
        other => panic!("{:?}", other),
    }
    assert_eq!(session.phase(), Phase::Aborted);
    assert_eq!(session.round(), 1);
}
