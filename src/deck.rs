use vstd::prelude::*;
use vstd::seq_lib::to_multiset_update;

use crate::card::{
    all_ranks, all_suits, lemma_card_view_injective, lemma_rank_index, lemma_suit_index,
    rank_index, suit_index, Card, Rank, Suit,
};

verus! {

/// Number of cards in a full deck.
pub const DECK_SIZE: usize = 52;

/// The suit and rank at position `k` of a freshly built deck: suits in the
/// outer order, ranks in the inner one.
pub open spec fn standard_card(k: int) -> (Suit, Rank) {
    (all_suits()[k / 13], all_ranks()[k % 13])
}

/// The cards are those of a freshly built deck, in building order.
pub open spec fn is_standard_order(s: Seq<Card>) -> bool {
    &&& s.len() == 52
    &&& forall|k: int| 0 <= k < 52 ==> #[trigger] s[k]@ == standard_card(k)
}

/// The cards in the order repeated dealing hands them out: the top card,
/// which is the last of the sequence, first.
pub open spec fn deal_sequence(s: Seq<Card>) -> Seq<Card>
    decreases s.len(),
{
    if s.len() == 0 {
        Seq::empty()
    } else {
        seq![s.last()] + deal_sequence(s.drop_last())
    }
}

/// `s` with the cards at `i` and `j` exchanged.
pub open spec fn swap_cards(s: Seq<Card>, i: int, j: int) -> Seq<Card> {
    s.update(i, s[j]).update(j, s[i])
}

/// Draws fit for a Fisher-Yates pass over `n` cards: one per position, each
/// at most its own position.
pub open spec fn valid_picks(picks: Seq<usize>, n: nat) -> bool {
    &&& picks.len() == n
    &&& forall|i: int| 0 <= i < n ==> #[trigger] picks[i] <= i
}

/// The Fisher-Yates passes over positions `n - 1` down to 1 of `s`: each
/// position's card is exchanged with the one at the position drawn for it.
pub open spec fn fisher_yates_from(s: Seq<Card>, picks: Seq<usize>, n: nat) -> Seq<Card>
    decreases n,
{
    if n <= 1 {
        s
    } else {
        fisher_yates_from(swap_cards(s, n - 1, picks[n - 1] as int), picks, (n - 1) as nat)
    }
}

/// The Fisher-Yates permutation of `s` under the draws `picks`.
pub open spec fn fisher_yates(s: Seq<Card>, picks: Seq<usize>) -> Seq<Card> {
    fisher_yates_from(s, picks, s.len())
}

proof fn lemma_swap_keeps_multiset(s: Seq<Card>, i: int, j: int)
    requires
        0 <= i < s.len(),
        0 <= j < s.len(),
    ensures
        swap_cards(s, i, j).to_multiset() == s.to_multiset(),
        swap_cards(s, i, j).len() == s.len(),
{
    broadcast use vstd::multiset::group_multiset_axioms;

    let a = s[i];
    let b = s[j];
    let s1 = s.update(i, b);
    to_multiset_update(s, i, b);
    to_multiset_update(s1, j, a);
    vstd::seq_lib::to_multiset_contains(s, a);
    vstd::seq_lib::to_multiset_contains(s, b);
    assert(s.contains(a));
    assert(s.contains(b));
    assert(s1.update(j, a).to_multiset() =~= s.to_multiset());
}

/// A Fisher-Yates pass only reorders the cards: every card is kept, none is
/// added or repeated.
pub proof fn lemma_fisher_yates_keeps_multiset(s: Seq<Card>, picks: Seq<usize>, n: nat)
    requires
        n <= s.len(),
        picks.len() >= n,
        forall|i: int| 0 <= i < n ==> #[trigger] picks[i] <= i,
    ensures
        fisher_yates_from(s, picks, n).to_multiset() == s.to_multiset(),
        fisher_yates_from(s, picks, n).len() == s.len(),
    decreases n,
{
    if n > 1 {
        lemma_swap_keeps_multiset(s, n - 1, picks[n - 1] as int);
        lemma_fisher_yates_keeps_multiset(swap_cards(s, n - 1, picks[n - 1] as int), picks, (n - 1) as nat);
    }
}

proof fn lemma_standard_position(s: Suit, r: Rank)
    ensures
        0 <= 13 * suit_index(s) + rank_index(r) < 52,
        standard_card(13 * suit_index(s) + rank_index(r)) == (s, r),
{
    lemma_suit_index(s, 0);
    lemma_rank_index(r, 0);
    let k = 13 * suit_index(s) + rank_index(r);
    assert(k / 13 == suit_index(s) && k % 13 == rank_index(r)) by (nonlinear_arith)
        requires
            k == 13 * suit_index(s) + rank_index(r),
            0 <= rank_index(r) < 13,
            0 <= suit_index(s) < 4,
    ;
}

proof fn lemma_standard_index(k: int)
    requires
        0 <= k < 52,
    ensures
        13 * suit_index(standard_card(k).0) + rank_index(standard_card(k).1) == k,
{
    lemma_suit_index(Suit::HEARTS, k / 13);
    lemma_rank_index(Rank::TWO, k % 13);
}

/// A freshly built deck holds every card of the 52 exactly once.
pub proof fn lemma_standard_deck_complete(s: Seq<Card>)
    requires
        is_standard_order(s),
    ensures
        s.no_duplicates(),
        forall|c: Card| #[trigger] s.to_multiset().count(c) == 1,
{
    assert forall|i: int, j: int| 0 <= i < s.len() && 0 <= j < s.len() && i != j implies s[i]
        != s[j] by {
        lemma_standard_index(i);
        lemma_standard_index(j);
        assert(s[i]@ == standard_card(i));
        assert(s[j]@ == standard_card(j));
    }
    assert forall|c: Card| #[trigger] s.to_multiset().count(c) == 1 by {
        let k = 13 * suit_index(c@.0) + rank_index(c@.1);
        lemma_standard_position(c@.0, c@.1);
        lemma_card_view_injective(s[k], c);
        assert(s.contains(c));
        s.lemma_multiset_has_no_duplicates();
        vstd::seq_lib::to_multiset_contains(s, c);
    }
}

proof fn lemma_deal_sequence_reverses(s: Seq<Card>)
    ensures
        deal_sequence(s) == s.reverse(),
    decreases s.len(),
{
    if s.len() > 0 {
        lemma_deal_sequence_reverses(s.drop_last());
        assert(deal_sequence(s) =~= s.reverse());
    }
}

/// Dealing a freshly built, unshuffled deck to the end hands out every card
/// of the 52 exactly once, in the reverse of building order.
pub proof fn lemma_fresh_deck_deal_order(s: Seq<Card>)
    requires
        is_standard_order(s),
    ensures
        deal_sequence(s).len() == 52,
        forall|k: int| 0 <= k < 52 ==> #[trigger] deal_sequence(s)[k]@ == standard_card(51 - k),
        forall|c: Card| #[trigger] deal_sequence(s).to_multiset().count(c) == 1,
{
    lemma_deal_sequence_reverses(s);
    lemma_standard_deck_complete(s);
    s.lemma_reverse_to_multiset();
    assert forall|k: int| 0 <= k < 52 implies #[trigger] deal_sequence(s)[k]@ == standard_card(
        51 - k,
    ) by {
        assert(s[51 - k]@ == standard_card(51 - k));
    }
}

/// Relies on rand::random_range: a number drawn from the thread's generator,
/// within the inclusive range it is handed.
#[verifier::external_body]
fn random_index(upper: usize) -> (r: usize)
    ensures
        r <= upper,
{
    rand::random_range(0..=upper)
}

/// The undealt cards; the top of the deck is the end of `cards`.
#[derive(Debug, Clone)]
pub struct Deck {
    pub cards: Vec<Card>,
}

impl Deck {
    /// A full deck of the 52 distinct cards, suit by suit, rank by rank.
    pub fn new() -> (r: Self)
        ensures
            is_standard_order(r.cards@),
    {
        let suits = Suit::all();
        let ranks = Rank::all();
        let mut cards: Vec<Card> = Vec::with_capacity(DECK_SIZE);
        let mut i: usize = 0;
        while i < suits.len()
            invariant
                suits@ == all_suits(),
                ranks@ == all_ranks(),
                i <= 4,
                cards@.len() == 13 * i,
                forall|k: int| 0 <= k < cards@.len() ==> #[trigger] cards@[k]@ == standard_card(k),
            decreases 4 - i,
        {
            let mut j: usize = 0;
            while j < ranks.len()
                invariant
                    suits@ == all_suits(),
                    ranks@ == all_ranks(),
                    i < 4,
                    j <= 13,
                    cards@.len() == 13 * i + j,
                    forall|k: int|
                        0 <= k < cards@.len() ==> #[trigger] cards@[k]@ == standard_card(k),
                decreases 13 - j,
            {
                let card = Card::new(suits[i], ranks[j]);
                proof {
                    let k = 13 * i + j;
                    assert(k / 13 == i && k % 13 == j) by (nonlinear_arith)
                        requires
                            k == 13 * i + j,
                            0 <= j < 13,
                    ;
                }
                cards.push(card);
                j = j + 1;
            }
            i = i + 1;
        }
        Deck { cards }
    }

    /// Puts the cards in a uniformly random order by Fisher-Yates.
    pub fn shuffle(&mut self)
        ensures
            exists|picks: Seq<usize>|
                valid_picks(picks, old(self).cards@.len())
                    && final(self).cards@ == #[trigger] fisher_yates(old(self).cards@, picks),
            final(self).cards@.to_multiset() == old(self).cards@.to_multiset(),
    {
        let mut picks: Vec<usize> = Vec::with_capacity(self.cards.len());
        let mut i: usize = 0;
        while i < self.cards.len()
            invariant
                picks@.len() == i,
                i <= self.cards@.len(),
                forall|k: int| 0 <= k < i ==> #[trigger] picks@[k] <= k,
            decreases self.cards@.len() - i,
        {
            picks.push(random_index(i));
            i = i + 1;
        }
        self.shuffle_with(&picks);
    }

    /// The Fisher-Yates pass under given draws: for each position from the
    /// last down to 1, its card is exchanged with the one at the position
    /// drawn for it.
    pub fn shuffle_with(&mut self, picks: &Vec<usize>)
        requires
            valid_picks(picks@, old(self).cards@.len()),
        ensures
            final(self).cards@ == fisher_yates(old(self).cards@, picks@),
            final(self).cards@.to_multiset() == old(self).cards@.to_multiset(),
    {
        let ghost start = self.cards@;
        proof {
            lemma_fisher_yates_keeps_multiset(start, picks@, start.len());
        }
        let mut i: usize = self.cards.len();
        while i > 1
            invariant
                i <= start.len(),
                self.cards@.len() == start.len(),
                valid_picks(picks@, start.len()),
                fisher_yates_from(self.cards@, picks@, i as nat) == fisher_yates(start, picks@),
            decreases i,
        {
            i = i - 1;
            let j = picks[i];
            let a = self.cards[i];
            let b = self.cards[j];
            self.cards[i] = b;
            self.cards[j] = a;
        }
    }

    /// Takes the top card, or `None` when the deck is empty.
    pub fn deal(&mut self) -> (r: Option<Card>)
        ensures
            old(self).cards@.len() == 0 ==> r is None && final(self).cards@ == old(self).cards@,
            old(self).cards@.len() > 0 ==> r == Some(old(self).cards@.last())
                && final(self).cards@ == old(self).cards@.drop_last(),
    {
        self.cards.pop()
    }
}

} // verus!
