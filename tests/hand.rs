use blackjack::card::{Card, Rank, Suit};
use blackjack::hand::Hand;

fn hand_of(ranks: &[Rank]) -> Hand {
    let mut h = Hand::new();
    for r in ranks {
        h.add_card(Card::new(Suit::SPADES, *r));
    }
    h
}

#[test]
fn test_add_card() {
    let mut h = Hand::new();
    let c = Card::new(Suit::SPADES, Rank::ACE);

    h.add_card(c);

    assert_eq!(h.cards.len(), 1);
    assert_eq!(h.cards[0], c);
}

#[test]
fn test_value_calculation() {
    let mut h = Hand::new();
    let jack = Card::new(Suit::CLUBS, Rank::JACK);
    let ace = Card::new(Suit::HEARTS, Rank::ACE);
    let six = Card::new(Suit::DIAMONDS, Rank::SIX);

    h.add_card(jack);
    h.add_card(ace);

    assert_eq!(h.value(), 21);
    assert_eq!(h.is_blackjack(), true);

    h.add_card(six);

    assert_eq!(h.value(), 17);

    h.add_card(ace);

    assert_eq!(h.value(), 18);
}

#[test]
fn value_without_aces_is_the_sum() {
    let h = hand_of(&[Rank::TWO, Rank::SEVEN, Rank::QUEEN]);
    assert_eq!(h.value(), 19);
    let h = hand_of(&[Rank::NINE, Rank::EIGHT, Rank::JACK, Rank::KING]);
    assert_eq!(h.value(), 37);
}

#[test]
fn ace_ten_is_blackjack() {
    let h = hand_of(&[Rank::ACE, Rank::TEN]);
    assert_eq!(h.value(), 21);
    assert!(h.is_blackjack());
}

#[test]
fn ace_ace_nine_is_twenty_one_not_blackjack() {
    let h = hand_of(&[Rank::ACE, Rank::ACE, Rank::NINE]);
    assert_eq!(h.value(), 21);
    assert!(!h.is_blackjack());
}

#[test]
fn ten_king_two_is_bust() {
    let h = hand_of(&[Rank::TEN, Rank::KING, Rank::TWO]);
    assert_eq!(h.value(), 22);
    assert!(h.is_bust());
}

#[test]
fn three_aces_and_nine_lowers_two_aces() {
    let h = hand_of(&[Rank::ACE, Rank::ACE, Rank::ACE, Rank::NINE]);
    assert_eq!(h.value(), 12);
}

#[test]
fn all_aces_lowered_when_still_bust() {
    let h = hand_of(&[Rank::ACE, Rank::KING, Rank::QUEEN, Rank::FIVE]);
    assert_eq!(h.value(), 26);
    assert!(h.is_bust());
}

#[test]
fn two_aces_alone() {
    let h = hand_of(&[Rank::ACE, Rank::ACE]);
    assert_eq!(h.value(), 12);
    assert!(!h.is_blackjack());
}

#[test]
fn empty_hand() {
    let h = Hand::new();
    assert_eq!(h.value(), 0);
    assert!(!h.is_blackjack());
    assert!(!h.is_bust());
}

#[test]
fn three_card_twenty_one_is_not_blackjack() {
    let h = hand_of(&[Rank::SEVEN, Rank::SEVEN, Rank::SEVEN]);
    assert_eq!(h.value(), 21);
    assert!(!h.is_blackjack());
}

#[test]
fn clear_empties_the_hand() {
    let mut h = hand_of(&[Rank::ACE, Rank::TEN]);
    h.clear();
    assert!(h.cards.is_empty());
    assert_eq!(h.value(), 0);
}

#[test]
fn largest_hand_value_that_fits() {
    let mut h = Hand::new();
    for _ in 0..23 {
        h.add_card(Card::new(Suit::HEARTS, Rank::KING));
    }
    assert_eq!(h.value(), 230);
}
