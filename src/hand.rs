use vstd::prelude::*;

use crate::card::{rank_value, Card, Rank};

verus! {

/// The highest total a hand may have without being bust.
pub const LIMIT: u8 = 21;

/// Sum of the base values of the cards, every ace counted as eleven.
pub open spec fn base_total(s: Seq<Card>) -> nat
    decreases s.len(),
{
    if s.len() == 0 {
        0
    } else {
        base_total(s.drop_last()) + rank_value(s.last()@.1)
    }
}

/// Number of aces among the cards.
pub open spec fn ace_count(s: Seq<Card>) -> nat
    decreases s.len(),
{
    if s.len() == 0 {
        0
    } else {
        ace_count(s.drop_last()) + if s.last()@.1 == Rank::ACE {
            1nat
        } else {
            0nat
        }
    }
}

/// Lowers one ace at a time from eleven to one while the total is over the
/// limit and some ace is still counted high.
pub open spec fn lower_aces(total: int, aces: nat) -> int
    decreases aces,
{
    if total > 21 && aces > 0 {
        lower_aces(total - 10, (aces - 1) as nat)
    } else {
        total
    }
}

/// The point value of a hand after the soft-ace adjustment.
pub open spec fn hand_value(s: Seq<Card>) -> int {
    lower_aces(base_total(s) as int, ace_count(s))
}

/// A natural: exactly two cards worth twenty-one.
pub open spec fn is_blackjack_hand(s: Seq<Card>) -> bool {
    s.len() == 2 && hand_value(s) == 21
}

/// A hand over twenty-one after every possible ace adjustment.
pub open spec fn is_bust(s: Seq<Card>) -> bool {
    hand_value(s) > 21
}

proof fn lemma_lower_aces_bounds(total: int, aces: nat)
    ensures
        total - 10 * aces <= lower_aces(total, aces) <= total,
    decreases aces,
{
    if total > 21 && aces > 0 {
        lemma_lower_aces_bounds(total - 10, (aces - 1) as nat);
    }
}

proof fn lemma_base_total_bounds(s: Seq<Card>)
    ensures
        s.len() + 10 * ace_count(s) <= base_total(s) <= 11 * s.len(),
        ace_count(s) <= s.len(),
    decreases s.len(),
{
    if s.len() > 0 {
        lemma_base_total_bounds(s.drop_last());
    }
}

/// Every card adds at least one point and at most eleven to a hand's value.
pub proof fn lemma_value_bounds(s: Seq<Card>)
    ensures
        s.len() <= hand_value(s) <= 11 * s.len(),
{
    lemma_base_total_bounds(s);
    lemma_lower_aces_bounds(base_total(s) as int, ace_count(s));
}

/// A hand without aces is worth exactly the sum of its cards' base values.
pub proof fn lemma_value_without_aces(s: Seq<Card>)
    requires
        forall|i: int| 0 <= i < s.len() ==> s[i]@.1 != Rank::ACE,
    ensures
        hand_value(s) == base_total(s),
{
    lemma_no_aces_counted(s);
}

proof fn lemma_no_aces_counted(s: Seq<Card>)
    requires
        forall|i: int| 0 <= i < s.len() ==> s[i]@.1 != Rank::ACE,
    ensures
        ace_count(s) == 0,
    decreases s.len(),
{
    if s.len() > 0 {
        assert(s.last()@.1 != Rank::ACE);
        lemma_no_aces_counted(s.drop_last());
    }
}

proof fn lemma_lower_aces_best(total: int, aces: nat, k: nat) -> (j: nat)
    requires
        k <= aces,
    ensures
        j <= aces,
        lower_aces(total, aces) == total - 10 * j,
        lower_aces(total, aces) <= 21 && total - 10 * k <= 21 ==> total - 10 * k <= lower_aces(
            total,
            aces,
        ),
        lower_aces(total, aces) > 21 ==> j == aces,
    decreases aces,
{
    if total > 21 && aces > 0 {
        let k1: nat = if k > 0 {
            (k - 1) as nat
        } else {
            0
        };
        let j1 = lemma_lower_aces_best(total - 10, (aces - 1) as nat, k1);
        j1 + 1
    } else {
        0
    }
}

/// The total of a hand when `j` of its aces count one instead of eleven.
pub open spec fn count_with_low_aces(s: Seq<Card>, j: nat) -> int {
    base_total(s) - 10 * j
}

/// The value of a hand is the best way to count it: some number of its aces
/// counted as one instead of eleven; the highest such count not over the
/// limit when one exists, and otherwise every ace counted as one.
pub proof fn lemma_value_is_best_count(s: Seq<Card>, k: nat)
    requires
        k <= ace_count(s),
    ensures
        exists|j: nat| j <= ace_count(s) && hand_value(s) == #[trigger] count_with_low_aces(s, j),
        hand_value(s) <= 21 && count_with_low_aces(s, k) <= 21 ==> count_with_low_aces(s, k)
            <= hand_value(s),
        hand_value(s) > 21 ==> hand_value(s) == count_with_low_aces(s, ace_count(s)),
{
    let j = lemma_lower_aces_best(base_total(s) as int, ace_count(s), k);
    assert(hand_value(s) == count_with_low_aces(s, j));
}

/// The cards held by one party during a round.
pub struct Hand {
    pub cards: Vec<Card>,
}

impl Hand {
    pub fn new() -> (r: Self)
        ensures
            r.cards@ == Seq::<Card>::empty(),
    {
        let cards = Vec::new();
        Hand { cards }
    }

    pub fn add_card(&mut self, card: Card)
        ensures
            final(self).cards@ == old(self).cards@.push(card),
    {
        self.cards.push(card);
    }

    /// Empties the hand for the next round.
    pub fn clear(&mut self)
        ensures
            final(self).cards@ == Seq::<Card>::empty(),
    {
        self.cards.clear();
    }

    pub fn is_blackjack(&self) -> (r: bool)
        ensures
            r == is_blackjack_hand(self.cards@),
    {
        if self.cards.len() == 2 {
            proof {
                lemma_value_bounds(self.cards@);
            }
            if self.value() == LIMIT {
                return true;
            }
        }
        false
    }

    /// Whether the hand is over the limit.
    pub fn is_bust(&self) -> (r: bool)
        requires
            hand_value(self.cards@) <= u8::MAX,
        ensures
            r == is_bust(self.cards@),
    {
        self.value() > LIMIT
    }

    /// The hand's point value: the base values summed, then aces lowered
    /// from eleven to one, one at a time, while the total is over the limit.
    pub fn value(&self) -> (r: u8)
        requires
            hand_value(self.cards@) <= u8::MAX,
        ensures
            r == hand_value(self.cards@),
    {
        let ghost s = self.cards@;
        proof {
            lemma_value_bounds(s);
        }
        let mut total: u32 = 0;
        let mut aces: u32 = 0;
        let mut i: usize = 0;
        while i < self.cards.len()
            invariant
                s == self.cards@,
                s.len() <= 255,
                i <= s.len(),
                total == base_total(s.take(i as int)),
                aces == ace_count(s.take(i as int)),
            decreases s.len() - i,
        {
            let c = &self.cards[i];
            proof {
                assert(s.take(i + 1).drop_last() =~= s.take(i as int));
                lemma_base_total_bounds(s.take(i + 1));
            }
            total = total + c.value() as u32;
            if *c.rank() == Rank::ACE {
                aces = aces + 1;
            }
            i = i + 1;
        }
        assert(s.take(s.len() as int) =~= s);
        while total > 21 && aces > 0
            invariant
                lower_aces(total as int, aces as nat) == hand_value(s),
            decreases aces,
        {
            total = total - 10;
            aces = aces - 1;
        }
        total as u8
    }
}

} // verus!
