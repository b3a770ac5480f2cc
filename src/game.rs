use vstd::prelude::*;

use crate::card::Card;
use crate::deck::{lemma_standard_deck_complete, Deck};
use crate::hand::{hand_value, is_blackjack_hand, is_bust, Hand};

verus! {

/// The dealer draws while the hand is worth less than this.
pub const DEALER_STANDS: u8 = 17;

/// How a finished round came out.
#[derive(Clone, Copy, Debug, PartialEq, Eq, Structural)]
pub enum RoundResult {
    PlayerWin,
    PlayerBlackjack,
    DealerWin,
    Push,
}

/// The outcome of a round from the two finished hands, by a fixed priority:
/// a bust player loses; else a bust dealer loses; else two naturals push; else
/// a single natural wins (the player's at the bonus rate); else the higher
/// value wins and equal values push.
pub open spec fn round_outcome(player: Seq<Card>, dealer: Seq<Card>) -> RoundResult {
    if is_bust(player) {
        RoundResult::DealerWin
    } else if is_bust(dealer) {
        RoundResult::PlayerWin
    } else if is_blackjack_hand(player) && is_blackjack_hand(dealer) {
        RoundResult::Push
    } else if is_blackjack_hand(player) {
        RoundResult::PlayerBlackjack
    } else if is_blackjack_hand(dealer) {
        RoundResult::DealerWin
    } else if hand_value(player) > hand_value(dealer) {
        RoundResult::PlayerWin
    } else if hand_value(player) < hand_value(dealer) {
        RoundResult::DealerWin
    } else {
        RoundResult::Push
    }
}

/// Whether the dealer takes another card: the hand is under the standing
/// threshold, and neither bust nor a natural.
pub open spec fn dealer_draws(s: Seq<Card>) -> bool {
    hand_value(s) < 17 && !is_bust(s) && !is_blackjack_hand(s)
}

/// Settles a finished round between the two hands.
pub fn resolve_round(player: &Hand, dealer: &Hand) -> (r: RoundResult)
    requires
        hand_value(player.cards@) <= u8::MAX,
        hand_value(dealer.cards@) <= u8::MAX,
    ensures
        r == round_outcome(player.cards@, dealer.cards@),
{
    if player.is_bust() {
        return RoundResult::DealerWin;
    }
    if dealer.is_bust() {
        return RoundResult::PlayerWin;
    }
    let player_natural = player.is_blackjack();
    let dealer_natural = dealer.is_blackjack();
    if player_natural && dealer_natural {
        return RoundResult::Push;
    }
    if player_natural {
        return RoundResult::PlayerBlackjack;
    }
    if dealer_natural {
        return RoundResult::DealerWin;
    }
    let p = player.value();
    let d = dealer.value();
    if p > d {
        RoundResult::PlayerWin
    } else if p < d {
        RoundResult::DealerWin
    } else {
        RoundResult::Push
    }
}

/// The dealer's stopping rule.
pub fn should_dealer_draw(hand: &Hand) -> (r: bool)
    requires
        hand_value(hand.cards@) <= u8::MAX,
    ensures
        r == dealer_draws(hand.cards@),
{
    !hand.is_blackjack() && hand.value() < DEALER_STANDS
}

/// The bankroll after a round settled with `result` on a stake of `bet`: a
/// plain win pays the stake, a natural pays three to two, a loss costs the
/// stake, a push changes nothing.
pub open spec fn settled_bankroll(bankroll: int, bet: int, result: RoundResult) -> int {
    match result {
        RoundResult::PlayerWin => bankroll + bet,
        RoundResult::PlayerBlackjack => bankroll + bet * 3 / 2,
        RoundResult::DealerWin => bankroll - bet,
        RoundResult::Push => bankroll,
    }
}

/// The amount won or lost in a round settled with `result` on `bet`.
pub open spec fn settled_amount(bet: int, result: RoundResult) -> int {
    match result {
        RoundResult::PlayerWin => bet,
        RoundResult::PlayerBlackjack => bet * 3 / 2,
        RoundResult::DealerWin => bet,
        RoundResult::Push => 0,
    }
}

/// Whether a round settled with `result` leaves a bankroll that a `u32` holds.
pub fn settlement_fits(bankroll: u32, bet: u32, result: RoundResult) -> (r: bool)
    ensures
        r == (0 <= settled_bankroll(bankroll as int, bet as int, result) <= u32::MAX),
{
    let b = bankroll as u64;
    let s = bet as u64;
    match result {
        RoundResult::PlayerWin => b + s <= u32::MAX as u64,
        RoundResult::PlayerBlackjack => b + s * 3 / 2 <= u32::MAX as u64,
        RoundResult::DealerWin => s <= b,
        RoundResult::Push => true,
    }
}

/// One player's session at the table: the deck, both hands, and the money.
pub struct Game {
    pub deck: Deck,
    pub player_hand: Hand,
    pub dealer_hand: Hand,
    pub bankroll: u32,
    pub bet: u32,
    pub i: u16,
}

impl Game {
    /// A new session with a freshly shuffled deck and empty hands.
    pub fn new(starting_bankroll: u32) -> (r: Self)
        ensures
            r.deck.cards@.len() == 52,
            forall|c: Card| #[trigger] r.deck.cards@.to_multiset().count(c) == 1,
            r.player_hand.cards@ == Seq::<Card>::empty(),
            r.dealer_hand.cards@ == Seq::<Card>::empty(),
            r.bankroll == starting_bankroll,
            r.bet == 0,
            r.i == 0,
    {
        let mut deck = Deck::new();
        let ghost fresh = deck.cards@;
        proof {
            lemma_standard_deck_complete(fresh);
        }
        deck.shuffle();
        proof {
            fresh.to_multiset_ensures();
            deck.cards@.to_multiset_ensures();
        }
        let player_hand = Hand::new();
        let dealer_hand = Hand::new();
        Game { deck, player_hand, dealer_hand, bankroll: starting_bankroll, bet: 0, i: 0 }
    }

    /// Clears both hands and deals player, dealer, player from the top.
    pub fn initial_deal(&mut self)
        requires
            old(self).deck.cards@.len() >= 3,
        ensures
            ({
                let d = old(self).deck.cards@;
                let n = d.len() as int;
                &&& final(self).player_hand.cards@ == seq![d[n - 1], d[n - 3]]
                &&& final(self).dealer_hand.cards@ == seq![d[n - 2]]
                &&& final(self).deck.cards@ == d.take(n - 3)
            }),
            final(self).bankroll == old(self).bankroll,
            final(self).bet == old(self).bet,
            final(self).i == old(self).i,
    {
        self.player_hand.clear();
        self.dealer_hand.clear();
        self.player_hand.add_card(self.deck.deal().unwrap());
        self.dealer_hand.add_card(self.deck.deal().unwrap());
        self.player_hand.add_card(self.deck.deal().unwrap());
        proof {
            let d = old(self).deck.cards@;
            let n = d.len() as int;
            assert(self.player_hand.cards@ =~= seq![d[n - 1], d[n - 3]]);
            assert(self.dealer_hand.cards@ =~= seq![d[n - 2]]);
            assert(self.deck.cards@ =~= d.take(n - 3));
        }
    }

    /// Deals the top card to the player.
    pub fn deal_to_player(&mut self)
        requires
            old(self).deck.cards@.len() >= 1,
        ensures
            final(self).player_hand.cards@ == old(self).player_hand.cards@.push(
                old(self).deck.cards@.last(),
            ),
            final(self).dealer_hand == old(self).dealer_hand,
            final(self).deck.cards@ == old(self).deck.cards@.drop_last(),
            final(self).bankroll == old(self).bankroll,
            final(self).bet == old(self).bet,
            final(self).i == old(self).i,
    {
        self.player_hand.add_card(self.deck.deal().unwrap());
    }

    /// Deals the top card to the dealer.
    pub fn deal_to_dealer(&mut self)
        requires
            old(self).deck.cards@.len() >= 1,
        ensures
            final(self).dealer_hand.cards@ == old(self).dealer_hand.cards@.push(
                old(self).deck.cards@.last(),
            ),
            final(self).player_hand == old(self).player_hand,
            final(self).deck.cards@ == old(self).deck.cards@.drop_last(),
            final(self).bankroll == old(self).bankroll,
            final(self).bet == old(self).bet,
            final(self).i == old(self).i,
    {
        self.dealer_hand.add_card(self.deck.deal().unwrap());
    }

    pub fn player_bust(&self) -> (r: bool)
        requires
            hand_value(self.player_hand.cards@) <= u8::MAX,
        ensures
            r == is_bust(self.player_hand.cards@),
    {
        self.player_hand.is_bust()
    }

    pub fn dealer_bust(&self) -> (r: bool)
        requires
            hand_value(self.dealer_hand.cards@) <= u8::MAX,
        ensures
            r == is_bust(self.dealer_hand.cards@),
    {
        self.dealer_hand.is_bust()
    }

    /// The outcome of the finished round.
    pub fn determine_winner(&self) -> (r: RoundResult)
        requires
            hand_value(self.player_hand.cards@) <= u8::MAX,
            hand_value(self.dealer_hand.cards@) <= u8::MAX,
        ensures
            r == round_outcome(self.player_hand.cards@, self.dealer_hand.cards@),
    {
        resolve_round(&self.player_hand, &self.dealer_hand)
    }

    /// Pays out or collects the stake for a finished round and returns the
    /// amount won or lost.
    pub fn settle(&mut self, result: RoundResult) -> (amount: u32)
        requires
            0 <= settled_bankroll(old(self).bankroll as int, old(self).bet as int, result)
                <= u32::MAX,
        ensures
            final(self).bankroll == settled_bankroll(
                old(self).bankroll as int,
                old(self).bet as int,
                result,
            ),
            amount == settled_amount(old(self).bet as int, result),
            final(self).bet == old(self).bet,
            final(self).i == old(self).i,
            final(self).player_hand == old(self).player_hand,
            final(self).dealer_hand == old(self).dealer_hand,
            final(self).deck.cards@ == old(self).deck.cards@,
    {
        match result {
            RoundResult::PlayerWin => {
                self.bankroll = self.bankroll + self.bet;
                self.bet
            },
            RoundResult::PlayerBlackjack => {
                let payout = ((self.bet as u64) * 3 / 2) as u32;
                self.bankroll = self.bankroll + payout;
                payout
            },
            RoundResult::DealerWin => {
                self.bankroll = self.bankroll - self.bet;
                self.bet
            },
            RoundResult::Push => 0,
        }
    }
}

} // verus!
