use blackjack::card::{Card, Rank, Suit};

#[test]
fn rank_values() {
    let expected: Vec<u8> = vec![2, 3, 4, 5, 6, 7, 8, 9, 10, 10, 10, 10, 11];
    let got: Vec<u8> = Rank::all().iter().map(|r| r.value()).collect();
    assert_eq!(got, expected);
}

#[test]
fn all_suits_in_order() {
    assert_eq!(Suit::all(), vec![Suit::HEARTS, Suit::DIAMONDS, Suit::CLUBS, Suit::SPADES]);
}

#[test]
fn all_ranks_in_order() {
    let ranks = Rank::all();
    assert_eq!(ranks.len(), 13);
    assert_eq!(ranks[0], Rank::TWO);
    assert_eq!(ranks[8], Rank::TEN);
    assert_eq!(ranks[12], Rank::ACE);
}

#[test]
fn card_parts_and_value() {
    let c = Card::new(Suit::CLUBS, Rank::QUEEN);
    assert_eq!(*c.suit(), Suit::CLUBS);
    assert_eq!(*c.rank(), Rank::QUEEN);
    assert_eq!(c.value(), 10);
    assert_eq!(Card::new(Suit::HEARTS, Rank::ACE).value(), 11);
    assert_eq!(Card::new(Suit::HEARTS, Rank::SEVEN).value(), 7);
}

#[test]
fn card_equality_is_by_suit_and_rank() {
    assert_eq!(Card::new(Suit::SPADES, Rank::ACE), Card::new(Suit::SPADES, Rank::ACE));
    assert_ne!(Card::new(Suit::SPADES, Rank::ACE), Card::new(Suit::HEARTS, Rank::ACE));
    assert_ne!(Card::new(Suit::SPADES, Rank::ACE), Card::new(Suit::SPADES, Rank::KING));
}
