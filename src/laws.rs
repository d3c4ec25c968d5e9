//! Properties that hold of every card code and every hand.
use std::cmp::Ordering;
use vstd::prelude::*;

use crate::card::{Card, Rank};
use crate::hand::Hand;
use crate::ranking::{kicker_order, Category};

verus! {

/// The opposite outcome of a comparison.
pub open spec fn reversed(o: Ordering) -> Ordering {
    match o {
        Ordering::Less => Ordering::Greater,
        Ordering::Equal => Ordering::Equal,
        Ordering::Greater => Ordering::Less,
    }
}

/// Reading a card code and writing the card back gives the same code.
pub proof fn lemma_code_round_trip(s: Seq<char>)
    requires
        Card::of_code(s) is Ok,
    ensures
        (Card::of_code(s)->Ok_0).code() == s,
{
    let c = Card::of_code(s)->Ok_0;
    assert(c.code() =~= s);
}

/// Writing a card's code and reading it back gives the same card.
pub proof fn lemma_card_round_trip(c: Card)
    ensures
        Card::of_code(c.code()) == Ok::<Card, crate::PokerError>(c),
{
}

/// Swapping the two sides of a kicker comparison reverses its outcome.
proof fn lemma_kicker_reversed(a: Seq<int>, b: Seq<int>, n: int)
    ensures
        kicker_order(b, a, n) == reversed(kicker_order(a, b, n)),
    decreases n,
{
    if n > 0 {
        lemma_kicker_reversed(a, b, n - 1);
    }
}

/// Kicker comparison is transitive.
proof fn lemma_kicker_transitive(a: Seq<int>, b: Seq<int>, c: Seq<int>, n: int)
    ensures
        kicker_order(a, b, n) != Ordering::Less && kicker_order(b, c, n) != Ordering::Less
            ==> kicker_order(a, c, n) != Ordering::Less,
        kicker_order(a, b, n) == Ordering::Greater && kicker_order(b, c, n) != Ordering::Less
            ==> kicker_order(a, c, n) == Ordering::Greater,
        kicker_order(a, b, n) != Ordering::Less && kicker_order(b, c, n) == Ordering::Greater
            ==> kicker_order(a, c, n) == Ordering::Greater,
        kicker_order(a, b, n) == Ordering::Equal && kicker_order(b, c, n) == Ordering::Equal
            ==> kicker_order(a, c, n) == Ordering::Equal,
    decreases n,
{
    if n > 0 {
        lemma_kicker_transitive(a, b, c, n - 1);
    }
}

/// Comparing `b` with `a` gives the opposite of comparing `a` with `b`:
/// `Greater` and `Less` trade places and `Equal` stays.
pub proof fn lemma_compare_antisymmetric(a: Hand, b: Hand)
    ensures
        b.ordering(a) == reversed(a.ordering(b)),
{
    lemma_kicker_reversed(a.sorted_levels(), b.sorted_levels(), 5);
}

/// The comparison of hands is transitive: at least as strong as a hand that
/// is at least as strong as a third is at least as strong as the third,
/// strictly so when either step is strict, and equal when both are equal.
pub proof fn lemma_compare_transitive(a: Hand, b: Hand, c: Hand)
    ensures
        a.ordering(b) != Ordering::Less && b.ordering(c) != Ordering::Less ==> a.ordering(c)
            != Ordering::Less,
        a.ordering(b) == Ordering::Greater && b.ordering(c) != Ordering::Less ==> a.ordering(c)
            == Ordering::Greater,
        a.ordering(b) != Ordering::Less && b.ordering(c) == Ordering::Greater ==> a.ordering(c)
            == Ordering::Greater,
        a.ordering(b) == Ordering::Equal && b.ordering(c) == Ordering::Equal ==> a.ordering(c)
            == Ordering::Equal,
        a.ordering(b) == Ordering::Less && b.ordering(c) == Ordering::Less ==> a.ordering(c)
            == Ordering::Less,
{
    lemma_kicker_transitive(a.sorted_levels(), b.sorted_levels(), c.sorted_levels(), 5);
    lemma_kicker_transitive(c.sorted_levels(), b.sorted_levels(), a.sorted_levels(), 5);
    lemma_compare_antisymmetric(a, b);
    lemma_compare_antisymmetric(b, c);
    lemma_compare_antisymmetric(a, c);
}

/// A hand of a stronger category beats a hand of a weaker one, whatever
/// their cards.
pub proof fn lemma_category_decides(a: Hand, b: Hand)
    requires
        a.classification().0.tier() > b.classification().0.tier(),
    ensures
        a.ordering(b) == Ordering::Greater,
{
}

/// Classification depends on the hand alone: the same hand is always given
/// the same category and defining rank.
pub proof fn lemma_classification_deterministic(a: Hand, b: Hand)
    requires
        a == b,
    ensures
        a.classification() == b.classification(),
{
}

/// The hand holds each of ten, jack, queen, king and ace exactly once.
pub open spec fn holds_ten_to_ace(h: Hand) -> bool {
    &&& h.count(10) == 1
    &&& h.count(11) == 1
    &&& h.count(12) == 1
    &&& h.count(13) == 1
    &&& h.count(14) == 1
}

/// A hand holding no rank more than once has no rank at least `x` times,
/// for `x` above one.
proof fn lemma_no_repeat_no_kind(h: Hand, x: int, v: int)
    requires
        x > 1,
        forall|w: int| #[trigger] h.count(w) <= 1,
    ensures
        h.best_through(x, v) is None,
    decreases v,
{
    if v > 0 {
        assert(h.count(v) <= 1);
        lemma_no_repeat_no_kind(h, x, v - 1);
    }
}

/// A hand holding no rank more than once has runs of length one only.
proof fn lemma_no_repeat_runs(h: Hand, v: int)
    requires
        forall|w: int| #[trigger] h.count(w) <= 1,
    ensures
        forall|k: int| 0 <= k < h.runs_through(v).len() ==> #[trigger] h.runs_through(v)[k] == 1,
    decreases v,
{
    if v > 0 {
        assert(h.count(v) <= 1);
        lemma_no_repeat_runs(h, v - 1);
        let prev = h.runs_through(v - 1);
        if h.count(v) > 0 {
            assert(h.runs_through(v) == prev.push(1u8));
            assert forall|k: int| 0 <= k < prev.len() + 1 implies #[trigger] prev.push(1u8)[k]
                == 1 by {
                if k < prev.len() {
                    assert(prev[k] == 1);
                }
            }
        }
    }
}

/// Ten to ace in one suit is a royal flush; in more than one suit it is a
/// straight up to the ace.
pub proof fn lemma_ten_to_ace(h: Hand)
    requires
        holds_ten_to_ace(h),
    ensures
        h.one_suit() ==> h.classification() == (Category::RoyalFlush, Rank::Ace),
        !h.one_suit() ==> h.classification() == (Category::Straight, Rank::Ace),
{
    h.zero.rank.lemma_level();
    h.one.rank.lemma_level();
    h.two.rank.lemma_level();
    h.three.rank.lemma_level();
    h.four.rank.lemma_level();
    assert(h.low() == 10);
    assert(h.high() == 14);
    assert forall|w: int| #[trigger] h.count(w) <= 1 by {}
    lemma_no_repeat_no_kind(h, 4, 14);
    lemma_no_repeat_no_kind(h, 3, 14);
    lemma_no_repeat_no_kind(h, 2, 14);
    lemma_no_repeat_runs(h, 14);
    let r = h.runs();
    if r.len() > 0 {
        assert(r[0] == 1);
    }
}

} // verus!
