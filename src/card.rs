use vstd::prelude::*;

verus! {

/// The four suits of a standard deck.
#[derive(Clone, Copy, Debug, PartialEq, Eq, Structural)]
pub enum Suit {
    HEARTS,
    DIAMONDS,
    CLUBS,
    SPADES,
}

/// Every suit, in the order the deck is built.
pub open spec fn all_suits() -> Seq<Suit> {
    seq![Suit::HEARTS, Suit::DIAMONDS, Suit::CLUBS, Suit::SPADES]
}

/// Position of a suit in `all_suits()`.
pub open spec fn suit_index(s: Suit) -> int {
    match s {
        Suit::HEARTS => 0,
        Suit::DIAMONDS => 1,
        Suit::CLUBS => 2,
        Suit::SPADES => 3,
    }
}

impl Suit {
    pub fn all() -> (r: Vec<Suit>)
        ensures
            r@ == all_suits(),
    {
        let r = vec![Suit::HEARTS, Suit::DIAMONDS, Suit::CLUBS, Suit::SPADES];
        assert(r@ =~= all_suits());
        r
    }
}

/// The thirteen ranks of a standard deck.
#[derive(Clone, Copy, Debug, PartialEq, Eq, Structural)]
pub enum Rank {
    TWO,
    THREE,
    FOUR,
    FIVE,
    SIX,
    SEVEN,
    EIGHT,
    NINE,
    TEN,
    JACK,
    QUEEN,
    KING,
    ACE,
}

/// Every rank, in the order the deck is built.
pub open spec fn all_ranks() -> Seq<Rank> {
    seq![
        Rank::TWO, Rank::THREE, Rank::FOUR, Rank::FIVE, Rank::SIX, Rank::SEVEN, Rank::EIGHT,
        Rank::NINE, Rank::TEN, Rank::JACK, Rank::QUEEN, Rank::KING, Rank::ACE,
    ]
}

/// Position of a rank in `all_ranks()`.
pub open spec fn rank_index(r: Rank) -> int {
    match r {
        Rank::TWO => 0,
        Rank::THREE => 1,
        Rank::FOUR => 2,
        Rank::FIVE => 3,
        Rank::SIX => 4,
        Rank::SEVEN => 5,
        Rank::EIGHT => 6,
        Rank::NINE => 7,
        Rank::TEN => 8,
        Rank::JACK => 9,
        Rank::QUEEN => 10,
        Rank::KING => 11,
        Rank::ACE => 12,
    }
}

/// `suit_index` and `all_suits` are inverse to each other.
pub proof fn lemma_suit_index(s: Suit, i: int)
    ensures
        0 <= suit_index(s) < 4,
        all_suits()[suit_index(s)] == s,
        0 <= i < 4 ==> suit_index(all_suits()[i]) == i,
{
    if 0 <= i < 4 {
        assert(i == 0 || i == 1 || i == 2 || i == 3);
    }
}

/// `rank_index` and `all_ranks` are inverse to each other.
pub proof fn lemma_rank_index(r: Rank, i: int)
    ensures
        0 <= rank_index(r) < 13,
        all_ranks()[rank_index(r)] == r,
        0 <= i < 13 ==> rank_index(all_ranks()[i]) == i,
{
    if 0 <= i < 13 {
        assert(i == 0 || i == 1 || i == 2 || i == 3 || i == 4 || i == 5 || i == 6 || i == 7
            || i == 8 || i == 9 || i == 10 || i == 11 || i == 12);
    }
}

/// The base point value of a rank: numerals count their face, pictures ten,
/// the ace eleven (it is lowered to one only when a hand is valued).
pub open spec fn rank_value(r: Rank) -> nat {
    match r {
        Rank::TWO => 2,
        Rank::THREE => 3,
        Rank::FOUR => 4,
        Rank::FIVE => 5,
        Rank::SIX => 6,
        Rank::SEVEN => 7,
        Rank::EIGHT => 8,
        Rank::NINE => 9,
        Rank::TEN => 10,
        Rank::JACK => 10,
        Rank::QUEEN => 10,
        Rank::KING => 10,
        Rank::ACE => 11,
    }
}

impl Rank {
    pub fn value(&self) -> (r: u8)
        ensures
            r == rank_value(*self),
    {
        match self {
            Rank::TWO => 2,
            Rank::THREE => 3,
            Rank::FOUR => 4,
            Rank::FIVE => 5,
            Rank::SIX => 6,
            Rank::SEVEN => 7,
            Rank::EIGHT => 8,
            Rank::NINE => 9,
            Rank::TEN => 10,
            Rank::JACK => 10,
            Rank::QUEEN => 10,
            Rank::KING => 10,
            Rank::ACE => 11,
        }
    }

    pub fn all() -> (r: Vec<Rank>)
        ensures
            r@ == all_ranks(),
    {
        let r = vec![
            Rank::TWO,
            Rank::THREE,
            Rank::FOUR,
            Rank::FIVE,
            Rank::SIX,
            Rank::SEVEN,
            Rank::EIGHT,
            Rank::NINE,
            Rank::TEN,
            Rank::JACK,
            Rank::QUEEN,
            Rank::KING,
            Rank::ACE,
        ];
        assert(r@ =~= all_ranks());
        r
    }
}

/// A playing card: an immutable pair of suit and rank.
#[derive(Clone, Copy, Debug, PartialEq, Eq, Structural)]
pub struct Card {
    suit: Suit,
    rank: Rank,
}

impl View for Card {
    type V = (Suit, Rank);

    closed spec fn view(&self) -> (Suit, Rank) {
        (self.suit, self.rank)
    }
}

/// Two cards are the same card exactly when their suits and ranks agree.
pub proof fn lemma_card_view_injective(a: Card, b: Card)
    ensures
        (a == b) <==> (a@ == b@),
{
}

impl Card {
    pub fn new(suit: Suit, rank: Rank) -> (r: Card)
        ensures
            r@ == (suit, rank),
    {
        Card { suit, rank }
    }

    pub fn suit(&self) -> (r: &Suit)
        ensures
            *r == self@.0,
    {
        &self.suit
    }

    pub fn rank(&self) -> (r: &Rank)
        ensures
            *r == self@.1,
    {
        &self.rank
    }

    /// The base value of the card's rank.
    pub fn value(&self) -> (r: u8)
        ensures
            r == rank_value(self@.1),
    {
        self.rank.value()
    }
}

} // verus!
