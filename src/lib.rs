//! A single-deck round engine for the card game twenty-one: cards, a deck that
//! can be shuffled and dealt from, hands with soft-ace valuation, and the
//! decision cascade that settles a round.

pub mod card;
pub mod deck;
pub mod game;
pub mod hand;
