//! Hand evaluation: the best blackjack total of an ordered sequence of
//! cards, soft-ace handling, and natural (blackjack) detection.

use vstd::prelude::*;
use vstd::seq_lib::commutative_foldr;
use vstd::seq_lib::lemma_fold_right_permutation;
use crate::card::PlayingCard;
use crate::card::all_real;

verus! {

/// One step of the scoring sum.
pub open spec fn score_step() -> spec_fn(PlayingCard, int) -> int {
    |c: PlayingCard, acc: int| acc + c.score()
}

/// One step of the ace count.
pub open spec fn ace_step() -> spec_fn(PlayingCard, int) -> int {
    |c: PlayingCard, acc: int| acc + if c.is_ace() { 1int } else { 0int }
}

/// Sum of the cards' scoring values with every ace counted as 1.
pub open spec fn base_value(s: Seq<PlayingCard>) -> int {
    s.fold_right(score_step(), 0)
}

/// Number of aces in the hand.
pub open spec fn ace_count(s: Seq<PlayingCard>) -> int {
    s.fold_right(ace_step(), 0)
}

/// Best blackjack total of a hand: the ace-low sum, with one ace promoted
/// to count 11 when the hand holds an ace, the sum is not already exactly
/// 21, and the promotion stays within 21. A second promotion can never
/// help: two aces already contribute 2 to the ace-low sum, so promoting
/// both would reach at least 22. The total of a bust hand exceeds 21; the
/// empty hand totals 0.
pub open spec fn hand_value_spec(s: Seq<PlayingCard>) -> int {
    if ace_count(s) > 0 && base_value(s) != 21 && base_value(s) + 10 <= 21 {
        base_value(s) + 10
    } else {
        base_value(s)
    }
}

/// The soft-ace promotion loop, step by step: while an unconsumed ace
/// remains and the running total is not exactly 21, promote it to 11 when
/// that keeps the total within 21, and consume it either way.
pub open spec fn promote_aces(total: int, aces: nat) -> int
    decreases aces,
{
    if aces > 0 && total != 21 {
        if total + 10 <= 21 {
            promote_aces(total + 10, (aces - 1) as nat)
        } else {
            promote_aces(total, (aces - 1) as nat)
        }
    } else {
        total
    }
}

/// Aces contribute 1 each to the ace-low sum and no card subtracts, so
/// the sum is at least the ace count.
proof fn lemma_base_at_least_aces(s: Seq<PlayingCard>)
    ensures
        base_value(s) >= ace_count(s),
        ace_count(s) >= 0,
    decreases s.len(),
{
    if s.len() > 0 {
        lemma_unfold_last(s);
        lemma_base_at_least_aces(s.drop_last());
    }
}

/// On a total that already counts each ace as 1, the promotion loop
/// promotes at most one ace: after one promotion the total sits at least
/// at the ace count plus 9, so a second promotion would pass 21.
proof fn lemma_promote_aces(total: int, aces: nat)
    requires
        total >= aces,
    ensures
        promote_aces(total, aces) == if aces > 0 && total != 21 && total + 10 <= 21 {
            total + 10
        } else {
            total
        },
    decreases aces,
{
    if aces > 0 && total != 21 {
        if total + 10 <= 21 {
            lemma_promote_aces(total + 10, (aces - 1) as nat);
        } else {
            lemma_promote_aces(total, (aces - 1) as nat);
        }
    }
}

/// Running the promotion loop of the evaluation procedure over a hand's
/// ace-low sum and ace count lands exactly on the hand's value: the
/// closed form `hand_value_spec` and the loop agree on every hand.
pub proof fn lemma_promotion_loop_matches(s: Seq<PlayingCard>)
    ensures
        promote_aces(base_value(s), ace_count(s) as nat) == hand_value_spec(s),
{
    lemma_base_at_least_aces(s);
    lemma_promote_aces(base_value(s), ace_count(s) as nat);
}

/// A natural for the hand's minimum dealt length: 2 cards for the player.
pub open spec fn is_natural_spec(s: Seq<PlayingCard>) -> bool {
    s.len() == 2 && hand_value_spec(s) == 21
}

/// The dealer's natural is recognized at length 3, because the face-down
/// hole-card marker permanently occupies one slot of the dealer's hand.
pub open spec fn is_dealer_natural_spec(s: Seq<PlayingCard>) -> bool {
    s.len() == 3 && hand_value_spec(s) == 21
}

proof fn lemma_score_step_commutative()
    ensures
        commutative_foldr(score_step()),
{
    assert forall|x: PlayingCard, y: PlayingCard, v: int|
        #[trigger] score_step()(x, score_step()(y, v)) == score_step()(y, score_step()(x, v)) by {
    }
}

proof fn lemma_ace_step_commutative()
    ensures
        commutative_foldr(ace_step()),
{
    assert forall|x: PlayingCard, y: PlayingCard, v: int|
        #[trigger] ace_step()(x, ace_step()(y, v)) == ace_step()(y, ace_step()(x, v)) by {
    }
}

/// Peeling the last card off a non-empty hand subtracts exactly its score
/// and its ace contribution.
proof fn lemma_unfold_last(s: Seq<PlayingCard>)
    requires
        s.len() > 0,
    ensures
        base_value(s) == base_value(s.drop_last()) + s.last().score(),
        ace_count(s) == ace_count(s.drop_last()) + if s.last().is_ace() { 1int } else { 0int },
{
    lemma_score_step_commutative();
    lemma_ace_step_commutative();
    s.drop_last().lemma_fold_right_commute_one(s.last(), score_step(), 0);
    s.drop_last().lemma_fold_right_commute_one(s.last(), ace_step(), 0);
}

/// The ace-low sum of a hand lies between 0 and 10 per card; the ace count
/// never exceeds the hand length.
pub proof fn lemma_value_bounds(s: Seq<PlayingCard>)
    ensures
        0 <= base_value(s) <= 10 * s.len(),
        0 <= ace_count(s) <= s.len(),
    decreases s.len(),
{
    if s.len() > 0 {
        lemma_unfold_last(s);
        lemma_value_bounds(s.drop_last());
    }
}

proof fn lemma_take_step(s: Seq<PlayingCard>, i: int)
    requires
        0 <= i < s.len(),
    ensures
        base_value(s.take(i + 1)) == base_value(s.take(i)) + s[i].score(),
        ace_count(s.take(i + 1)) == ace_count(s.take(i)) + if s[i].is_ace() { 1int } else { 0int },
{
    let t = s.take(i + 1);
    assert(t.drop_last() =~= s.take(i));
    lemma_unfold_last(t);
}

/// A hand's value does not depend on the order of its cards: any two hands
/// holding the same cards (as a multiset) have the same value.
pub proof fn lemma_hand_value_permutation(s1: Seq<PlayingCard>, s2: Seq<PlayingCard>)
    requires
        s1.to_multiset() == s2.to_multiset(),
    ensures
        hand_value_spec(s1) == hand_value_spec(s2),
{
    lemma_score_step_commutative();
    lemma_ace_step_commutative();
    lemma_fold_right_permutation(s1, s2, score_step(), 0);
    lemma_fold_right_permutation(s1, s2, ace_step(), 0);
}

/// The dealer's hand shape: the face-down hole-card marker sits exactly
/// in slot 1 (the dealer's second card); every other slot holds a real
/// card.
pub open spec fn dealer_shape(d: Seq<PlayingCard>) -> bool {
    forall|i: int| 0 <= i < d.len() ==> (if i == 1 {
        (#[trigger] d[i]).is_hole()
    } else {
        d[i].is_real()
    })
}

/// Number of real cards in the dealer's hand: the hole-card marker in
/// slot 1 does not count.
pub open spec fn dealer_real_count(d: Seq<PlayingCard>) -> int {
    if d.len() >= 2 {
        d.len() - 1
    } else {
        d.len() as int
    }
}

/// The dealer's real cards: the hand with the hole-card marker in slot 1
/// taken out.
pub open spec fn dealer_real_cards(d: Seq<PlayingCard>) -> Seq<PlayingCard> {
    if d.len() >= 2 {
        d.remove(1)
    } else {
        d
    }
}

/// Every real card scores at least 1, so a hand of real cards sums to at
/// least its length.
pub proof fn lemma_real_hand_min_base(s: Seq<PlayingCard>)
    requires
        all_real(s),
    ensures
        base_value(s) >= s.len(),
    decreases s.len(),
{
    if s.len() > 0 {
        lemma_unfold_last(s);
        assert(all_real(s.drop_last())) by {
            assert forall|i: int| 0 <= i < s.drop_last().len() implies (#[trigger] s.drop_last()[i]).is_real() by {
                assert(s.drop_last()[i] == s[i]);
            }
        }
        lemma_real_hand_min_base(s.drop_last());
    }
}

/// A dealer hand of the proper shape sums to at least the number of its
/// real cards: the hole marker contributes 0, every real card at least 1.
pub proof fn lemma_dealer_min_base(d: Seq<PlayingCard>)
    requires
        dealer_shape(d),
    ensures
        base_value(d) >= dealer_real_count(d),
    decreases d.len(),
{
    if d.len() > 0 {
        lemma_unfold_last(d);
        assert(dealer_shape(d.drop_last())) by {
            assert forall|i: int| 0 <= i < d.drop_last().len() implies (if i == 1 {
                (#[trigger] d.drop_last()[i]).is_hole()
            } else {
                d.drop_last()[i].is_real()
            }) by {
                assert(d.drop_last()[i] == d[i]);
            }
        }
        lemma_dealer_min_base(d.drop_last());
        lemma_value_bounds(d.drop_last());
    }
}

/// The best blackjack total of the hand. Total, deterministic, and
/// order-independent; a hand of any length is accepted as long as the
/// ace-low sum fits the result type.
pub fn hand_value(hand: &Vec<PlayingCard>) -> (v: u32)
    requires
        10 * hand@.len() + 10 <= u32::MAX,
    ensures
        v as int == hand_value_spec(hand@),
{
    let ghost s = hand@;
    let mut total: u32 = 0;
    let mut aces: u32 = 0;
    let mut idx: usize = 0;
    while idx < hand.len()
        invariant
            idx <= s.len(),
            s == hand@,
            10 * s.len() + 10 <= u32::MAX,
            total as int == base_value(s.take(idx as int)),
            aces as int == ace_count(s.take(idx as int)),
        decreases s.len() - idx,
    {
        let c = hand[idx];
        proof {
            lemma_take_step(s, idx as int);
            lemma_value_bounds(s.take(idx as int));
            lemma_value_bounds(s.take(idx as int + 1));
        }
        total = total + (if c.value > 10 { 10 } else { c.value as u32 });
        if c.value == 1 {
            aces = aces + 1;
        }
        idx = idx + 1;
    }
    proof {
        assert(s.take(s.len() as int) =~= s);
        lemma_value_bounds(s);
    }
    if aces > 0 && total != 21 && total + 10 <= 21 {
        total + 10
    } else {
        total
    }
}

/// What the presentation shows beside a hand: nothing while it is empty,
/// a blackjack marker for a natural at the hand's minimum dealt length
/// (2 for the player, 3 for the dealer), else the numeric total.
#[derive(Copy, Clone, Debug, PartialEq, Eq, Structural)]
pub enum HandLabel {
    Empty,
    Blackjack,
    Total(u32),
}

pub open spec fn value_label_spec(s: Seq<PlayingCard>, is_dealer: bool) -> HandLabel {
    if s.len() == 0 {
        HandLabel::Empty
    } else if hand_value_spec(s) == 21 && ((s.len() == 2 && !is_dealer) || (s.len() == 3
        && is_dealer)) {
        HandLabel::Blackjack
    } else {
        HandLabel::Total(hand_value_spec(s) as u32)
    }
}

/// The label the presentation shows for a hand's value.
pub fn value_label(hand: &Vec<PlayingCard>, is_dealer: bool) -> (l: HandLabel)
    requires
        10 * hand@.len() + 10 <= u32::MAX,
    ensures
        l == value_label_spec(hand@, is_dealer),
{
    if hand.len() == 0 {
        return HandLabel::Empty;
    }
    let v = hand_value(hand);
    if v == 21 && ((hand.len() == 2 && !is_dealer) || (hand.len() == 3 && is_dealer)) {
        HandLabel::Blackjack
    } else {
        HandLabel::Total(v)
    }
}

/// True iff the player's hand is a natural: exactly 2 cards totaling 21.
pub fn is_natural(hand: &Vec<PlayingCard>) -> (b: bool)
    ensures
        b == is_natural_spec(hand@),
{
    if hand.len() != 2 {
        return false;
    }
    hand_value(hand) == 21
}

/// True iff the dealer's hand is a natural: exactly 3 cards (the face-down
/// marker included) totaling 21.
pub fn is_dealer_natural(hand: &Vec<PlayingCard>) -> (b: bool)
    ensures
        b == is_dealer_natural_spec(hand@),
{
    if hand.len() != 3 {
        return false;
    }
    hand_value(hand) == 21
}

} // verus!
