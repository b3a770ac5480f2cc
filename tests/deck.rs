use blackjack::card::{Card, Rank, Suit};
use blackjack::deck::Deck;

#[test]
fn test_deck_initialization() {
    let d = Deck::new();
    assert_eq!(d.cards.len(), 52);
}

#[test]
fn test_deck_shuffle() {
    let mut d = Deck::new();
    for i in 0..52 {
        println!("Item {}: {:?}", i + 1, d.cards[i]);
    }
    println!();

    d.shuffle();

    for i in 0..52 {
        println!("Item {}: {:?}", i + 1, d.cards[i]);
    }
}

#[test]
fn test_deal() {
    let mut d = Deck::new();
    let card = d.cards[51];
    let return_card = d.deal();
    assert_eq!(card, return_card.unwrap())
}

fn count_of(cards: &[Card], c: Card) -> usize {
    cards.iter().filter(|x| **x == c).count()
}

#[test]
fn new_deck_is_in_building_order() {
    let d = Deck::new();
    let suits = Suit::all();
    let ranks = Rank::all();
    for (si, s) in suits.iter().enumerate() {
        for (ri, r) in ranks.iter().enumerate() {
            assert_eq!(d.cards[13 * si + ri], Card::new(*s, *r));
        }
    }
}

#[test]
fn shuffle_keeps_every_card_once() {
    let mut d = Deck::new();
    d.shuffle();
    assert_eq!(d.cards.len(), 52);
    for s in Suit::all() {
        for r in Rank::all() {
            assert_eq!(count_of(&d.cards, Card::new(s, r)), 1);
        }
    }
}

#[test]
fn shuffle_changes_the_order() {
    let fresh = Deck::new();
    let mut d = Deck::new();
    d.shuffle();
    assert_ne!(d.cards, fresh.cards);
}

#[test]
fn shuffle_with_given_draws() {
    let mut d = Deck {
        cards: vec![
            Card::new(Suit::HEARTS, Rank::TWO),
            Card::new(Suit::HEARTS, Rank::THREE),
            Card::new(Suit::HEARTS, Rank::FOUR),
            Card::new(Suit::HEARTS, Rank::FIVE),
        ],
    };
    // position 3 is exchanged with 0, position 2 stays, position 1 is exchanged with 0
    d.shuffle_with(&vec![0, 0, 2, 0]);
    assert_eq!(
        d.cards,
        vec![
            Card::new(Suit::HEARTS, Rank::THREE),
            Card::new(Suit::HEARTS, Rank::FIVE),
            Card::new(Suit::HEARTS, Rank::FOUR),
            Card::new(Suit::HEARTS, Rank::TWO),
        ]
    );
}

#[test]
fn shuffle_with_identity_draws_keeps_order() {
    let mut d = Deck::new();
    let picks: Vec<usize> = (0..52).collect();
    d.shuffle_with(&picks);
    assert_eq!(d.cards, Deck::new().cards);
}

#[test]
fn dealing_fresh_deck_reverses_building_order() {
    let fresh = Deck::new();
    let mut d = Deck::new();
    let mut dealt = Vec::new();
    for _ in 0..52 {
        dealt.push(d.deal().unwrap());
    }
    assert_eq!(d.deal(), None);
    for k in 0..52 {
        assert_eq!(dealt[k], fresh.cards[51 - k]);
    }
    for c in &fresh.cards {
        assert_eq!(count_of(&dealt, *c), 1);
    }
    assert_eq!(dealt[0], Card::new(Suit::SPADES, Rank::ACE));
    assert_eq!(dealt[51], Card::new(Suit::HEARTS, Rank::TWO));
}

#[test]
fn deal_from_empty_deck_is_none() {
    let mut d = Deck { cards: Vec::new() };
    assert_eq!(d.deal(), None);
    assert!(d.cards.is_empty());
}

#[test]
fn deal_removes_only_the_top() {
    let mut d = Deck::new();
    let before = d.cards.clone();
    d.deal();
    assert_eq!(d.cards.len(), 51);
    assert_eq!(d.cards[..], before[..51]);
}
