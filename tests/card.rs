use std::cmp::Ordering;
use war_server::card::{Card, RoundResult, NUM_CARDS_IN_SUIT, NUM_CARDS_TOTAL, NUM_SUITS};

fn checked_card(value: u8) -> Card {
    assert!(value < NUM_CARDS_TOTAL);
    Card::try_from(value).unwrap()
}

#[test]
fn card_constants() {
    assert_eq!(NUM_CARDS_IN_SUIT, 13);
    assert_eq!(NUM_SUITS, 4);
    assert_eq!(NUM_CARDS_TOTAL, 52);
}

#[test]
fn card_format() {
    assert_eq!(std::mem::size_of::<Card>(), 1);
    assert_eq!(std::mem::align_of::<Card>(), 1);
    assert_eq!(
        Card::try_from(2 * NUM_CARDS_IN_SUIT + 10).unwrap(),
        checked_card(36)
    );
    assert_eq!(
        Card::try_from(2 * NUM_CARDS_IN_SUIT + 11).unwrap(),
        checked_card(37)
    );
    assert_eq!(
        Card::try_from(2 * NUM_CARDS_IN_SUIT + 12).unwrap(),
        checked_card(38)
    );
}

#[test]
fn card_comparison() {
    let two_of_clubs = checked_card(0);
    let three_of_clubs = checked_card(1);
    let four_of_clubs = checked_card(2);
    let king_of_clubs = checked_card(11);
    let ace_of_clubs = checked_card(12);
    let two_of_diamonds = checked_card(13);
    let three_of_diamonds = checked_card(14);
    let king_of_hearts = checked_card(37);
    let queen_of_spades = checked_card(49);
    let king_of_spades = checked_card(50);
    let ace_of_spades = checked_card(51);

    // Duality of PartialOrd
    assert!(two_of_clubs < three_of_clubs);
    assert!(three_of_clubs > two_of_clubs);

    assert!(two_of_clubs < four_of_clubs);
    assert!(four_of_clubs > two_of_clubs);

    assert!(three_of_clubs < four_of_clubs);
    assert!(four_of_clubs > three_of_clubs);

    assert!(three_of_diamonds < queen_of_spades);
    assert!(queen_of_spades > three_of_diamonds);

    // Reflexivity of equality
    assert_eq!(king_of_clubs, king_of_spades);
    assert_eq!(king_of_spades, king_of_clubs);

    assert_eq!(ace_of_clubs, ace_of_spades);
    assert_eq!(ace_of_spades, ace_of_clubs);

    assert_eq!(two_of_clubs, two_of_diamonds);
    assert_eq!(two_of_diamonds, two_of_clubs);

    // Transitivity of equality
    assert_eq!(king_of_clubs, king_of_hearts);
    assert_eq!(king_of_hearts, king_of_spades);
    assert_eq!(king_of_clubs, king_of_spades);
}

#[test]
fn from_value_accepts_exactly_values_below_52() {
    for v in 0..=255u8 {
        let r = Card::from_value(v);
        if v < 52 {
            assert_eq!(r.unwrap().value(), v);
        } else {
            let e = r.unwrap_err();
            assert_eq!(e.value(), v);
            assert_eq!(e.max(), 51);
        }
    }
    assert!(Card::try_from(52).is_err());
    assert!(Card::try_from(51).is_ok());
}

#[test]
fn comparison_is_by_rank_for_all_pairs() {
    for a in 0..52u8 {
        for b in 0..52u8 {
            let ca = checked_card(a);
            let cb = checked_card(b);
            assert_eq!(ca == cb, a % 13 == b % 13);
            assert_eq!(ca < cb, a % 13 < b % 13);
            assert_eq!(ca > cb, a % 13 > b % 13);
        }
    }
    assert_eq!(checked_card(0), checked_card(13));
    assert!(!(checked_card(0) < checked_card(13)));
    assert!(!(checked_card(13) < checked_card(0)));
}

#[test]
fn round_result_from_ordering_and_codes() {
    assert_eq!(RoundResult::from(Ordering::Greater), RoundResult::Win);
    assert_eq!(RoundResult::from(Ordering::Equal), RoundResult::Draw);
    assert_eq!(RoundResult::from(Ordering::Less), RoundResult::Lose);
    assert_eq!(RoundResult::Win.code(), 0);
    assert_eq!(RoundResult::Draw.code(), 1);
    assert_eq!(RoundResult::Lose.code(), 2);
    assert_eq!(RoundResult::from_code(2), Some(RoundResult::Lose));
    assert_eq!(RoundResult::from_code(3), None);
}
