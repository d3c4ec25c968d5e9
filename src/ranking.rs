//! Classifying a hand into its category, and the total order over hands.
use std::cmp::Ordering;
use vstd::prelude::*;

use crate::card::Rank;
use crate::hand::Hand;

verus! {

/// The ten categories of a hand, from weakest to strongest.
#[derive(PartialEq, Eq, Structural, Clone, Copy, Debug)]
pub enum Category {
    HighCard,
    OnePair,
    TwoPairs,
    ThreeOfAKind,
    Straight,
    Flush,
    FullHouse,
    FourOfAKind,
    StraightFlush,
    RoyalFlush,
}

impl Category {
    /// The category's strength: 0 for `HighCard` up to 9 for `RoyalFlush`.
    pub open spec fn tier(self) -> int {
        match self {
            Category::HighCard => 0,
            Category::OnePair => 1,
            Category::TwoPairs => 2,
            Category::ThreeOfAKind => 3,
            Category::Straight => 4,
            Category::Flush => 5,
            Category::FullHouse => 6,
            Category::FourOfAKind => 7,
            Category::StraightFlush => 8,
            Category::RoyalFlush => 9,
        }
    }

    pub fn strength(&self) -> (t: u8)
        ensures
            t == self.tier(),
    {
        match self {
            Category::HighCard => 0,
            Category::OnePair => 1,
            Category::TwoPairs => 2,
            Category::ThreeOfAKind => 3,
            Category::Straight => 4,
            Category::Flush => 5,
            Category::FullHouse => 6,
            Category::FourOfAKind => 7,
            Category::StraightFlush => 8,
            Category::RoyalFlush => 9,
        }
    }
}

/// Compares `a` and `b` at places `n - 1` down to 0: the first place where
/// they differ decides, and the higher value wins.
pub open spec fn kicker_order(a: Seq<int>, b: Seq<int>, n: int) -> Ordering
    decreases n,
{
    if n <= 0 {
        Ordering::Equal
    } else if a[n - 1] > b[n - 1] {
        Ordering::Greater
    } else if a[n - 1] < b[n - 1] {
        Ordering::Less
    } else {
        kicker_order(a, b, n - 1)
    }
}

impl Hand {
    /// The strongest category that the hand meets, with its defining rank.
    pub open spec fn classification(self) -> (Category, Rank) {
        if self.is_royal() {
            (Category::RoyalFlush, Rank::Ace)
        } else if self.straight_flush_rank() is Some {
            (Category::StraightFlush, self.straight_flush_rank()->0)
        } else if self.of_a_kind(4) is Some {
            (Category::FourOfAKind, self.of_a_kind(4)->0)
        } else if self.full_house_rank() is Some {
            (Category::FullHouse, self.full_house_rank()->0)
        } else if self.flush_rank() is Some {
            (Category::Flush, self.flush_rank()->0)
        } else if self.straight_rank() is Some {
            (Category::Straight, self.straight_rank()->0)
        } else if self.of_a_kind(3) is Some {
            (Category::ThreeOfAKind, self.of_a_kind(3)->0)
        } else if self.two_pair_rank() is Some {
            (Category::TwoPairs, self.two_pair_rank()->0)
        } else if self.of_a_kind(2) is Some {
            (Category::OnePair, self.of_a_kind(2)->0)
        } else {
            (Category::HighCard, Rank::at_level(self.high()))
        }
    }

    /// The levels of the hand's ranks at level `v` or below, in ascending
    /// order, each as often as the hand holds it.
    pub open spec fn sorted_through(self, v: int) -> Seq<int>
        decreases v,
    {
        if v <= 0 {
            Seq::empty()
        } else {
            self.sorted_through(v - 1) + Seq::new(self.count(v) as nat, |_i: int| v)
        }
    }

    /// The levels of the five ranks in ascending order.
    pub open spec fn sorted_levels(self) -> Seq<int> {
        self.sorted_through(14)
    }

    /// How the hand fares against `other`: by category, then by defining
    /// rank, then by the sorted ranks from the highest down.
    pub open spec fn ordering(self, other: Hand) -> Ordering {
        let (c, r) = self.classification();
        let (co, ro) = other.classification();
        if c.tier() > co.tier() {
            Ordering::Greater
        } else if c.tier() < co.tier() {
            Ordering::Less
        } else if r.level() > ro.level() {
            Ordering::Greater
        } else if r.level() < ro.level() {
            Ordering::Less
        } else {
            kicker_order(self.sorted_levels(), other.sorted_levels(), 5)
        }
    }

    /// As many levels stand in `sorted_through(v)` as cards of the hand have
    /// a rank at level `v` or below.
    pub proof fn lemma_sorted_len(self, v: int)
        requires
            v >= 0,
        ensures
            self.sorted_through(v).len() == self.count_through(v),
        decreases v,
    {
        self.zero.rank.lemma_level();
        self.one.rank.lemma_level();
        self.two.rank.lemma_level();
        self.three.rank.lemma_level();
        self.four.rank.lemma_level();
        if v > 0 {
            self.lemma_sorted_len(v - 1);
        }
    }

    /// The levels in `sorted_through(v)` ascend and lie between 1 and `v`.
    pub proof fn lemma_sorted_ascends(self, v: int)
        requires
            v >= 0,
        ensures
            forall|i: int, j: int|
                0 <= i <= j < self.sorted_through(v).len() ==> self.sorted_through(v)[i]
                    <= self.sorted_through(v)[j],
            forall|i: int|
                0 <= i < self.sorted_through(v).len() ==> 1 <= #[trigger] self.sorted_through(v)[i]
                    <= v,
        decreases v,
    {
        if v > 0 {
            self.lemma_sorted_ascends(v - 1);
            let prev = self.sorted_through(v - 1);
            let s = self.sorted_through(v);
            assert forall|i: int| 0 <= i < s.len() implies 1 <= #[trigger] s[i] <= v by {
                if i < prev.len() {
                    assert(s[i] == prev[i]);
                }
            }
            assert forall|i: int, j: int| 0 <= i <= j < s.len() implies s[i] <= s[j] by {
                if j < prev.len() {
                    assert(s[i] == prev[i] && s[j] == prev[j]);
                } else if i < prev.len() {
                    assert(s[i] == prev[i]);
                }
            }
        }
    }

    /// The sorted levels of a hand are five levels in ascending order.
    pub proof fn lemma_sorted_levels(self)
        ensures
            self.sorted_levels().len() == 5,
            forall|i: int, j: int|
                0 <= i <= j < 5 ==> self.sorted_levels()[i] <= self.sorted_levels()[j],
    {
        self.lemma_sorted_len(14);
        self.lemma_sorted_ascends(14);
        self.zero.rank.lemma_level();
        self.one.rank.lemma_level();
        self.two.rank.lemma_level();
        self.three.rank.lemma_level();
        self.four.rank.lemma_level();
    }

    /// The category of the hand and its defining rank.
    pub fn score(&self) -> (r: (Category, Rank))
        ensures
            r == self.classification(),
    {
        if self.is_royal_flush() {
            return (Category::RoyalFlush, Rank::Ace);
        }
        if let Some(r) = self.straight_flush() {
            return (Category::StraightFlush, r);
        }
        if let Some(r) = self.x_of_a_kind(4) {
            return (Category::FourOfAKind, r);
        }
        if let Some(r) = self.full_house() {
            return (Category::FullHouse, r);
        }
        if let Some(r) = self.flush() {
            return (Category::Flush, r);
        }
        if let Some(r) = self.straight() {
            return (Category::Straight, r);
        }
        if let Some(r) = self.x_of_a_kind(3) {
            return (Category::ThreeOfAKind, r);
        }
        if let Some(r) = self.two_pair() {
            return (Category::TwoPairs, r);
        }
        if let Some(r) = self.x_of_a_kind(2) {
            return (Category::OnePair, r);
        }
        (Category::HighCard, self.high_rank())
    }

    /// The levels of the five ranks in ascending order.
    pub fn sorted_ranks(&self) -> (r: Vec<u8>)
        ensures
            r@.len() == 5,
            self.sorted_levels().len() == 5,
            forall|i: int| 0 <= i < 5 ==> r@[i] == self.sorted_levels()[i],
            forall|i: int, j: int| 0 <= i <= j < 5 ==> r@[i] <= r@[j],
    {
        let mut r: Vec<u8> = Vec::new();
        let mut v: u8 = 1;
        while v <= 14
            invariant
                1 <= v <= 15,
                r@.len() == self.sorted_through(v - 1).len(),
                forall|i: int| 0 <= i < r@.len() ==> r@[i] == self.sorted_through(v - 1)[i],
            decreases 15 - v,
        {
            let n = self.count_at(v);
            let ghost base = r@;
            let mut j: u8 = 0;
            while j < n
                invariant
                    j <= n,
                    n == self.count(v as int),
                    r@.len() == base.len() + j,
                    forall|i: int| 0 <= i < base.len() ==> r@[i] == base[i],
                    forall|i: int| base.len() <= i < r@.len() ==> r@[i] == v,
                decreases n - j,
            {
                r.push(v);
                j += 1;
            }
            proof {
                let s = self.sorted_through(v as int);
                let prev = self.sorted_through(v - 1);
                assert(s == prev + Seq::new(self.count(v as int) as nat, |_i: int| v as int));
                assert forall|i: int| 0 <= i < r@.len() implies r@[i] == s[i] by {
                    if i < base.len() {
                        assert(s[i] == prev[i]);
                        assert(r@[i] == base[i]);
                    } else {
                        assert(s[i] == v as int);
                    }
                }
            }
            v += 1;
        }
        proof {
            self.lemma_sorted_levels();
        }
        r
    }

    /// Compares two hands: by category, then by defining rank, then by the
    /// ranks sorted from the highest down.
    pub fn cmp(&self, other: Self) -> (r: Ordering)
        ensures
            r == self.ordering(other),
    {
        let (score, rank) = self.score();
        let (score_other, rank_other) = other.score();
        let t = score.strength();
        let t_other = score_other.strength();
        if t > t_other {
            return Ordering::Greater;
        }
        if t < t_other {
            return Ordering::Less;
        }
        let l = rank.to_level();
        let l_other = rank_other.to_level();
        if l > l_other {
            return Ordering::Greater;
        }
        if l < l_other {
            return Ordering::Less;
        }
        let ranks = self.sorted_ranks();
        let other_ranks = other.sorted_ranks();
        let ghost a = self.sorted_levels();
        let ghost b = other.sorted_levels();
        let mut i: usize = 5;
        while i > 0
            invariant
                i <= 5,
                ranks@.len() == 5,
                other_ranks@.len() == 5,
                a.len() == 5,
                b.len() == 5,
                forall|k: int| 0 <= k < 5 ==> ranks@[k] == a[k],
                forall|k: int| 0 <= k < 5 ==> other_ranks@[k] == b[k],
                kicker_order(a, b, i as int) == kicker_order(a, b, 5),
                self.ordering(other) == kicker_order(a, b, 5),
            decreases i,
        {
            let j = i - 1;
            assert(ranks@[j as int] == a[j as int] && other_ranks@[j as int] == b[j as int]);
            if ranks[j] > other_ranks[j] {
                return Ordering::Greater;
            }
            if ranks[j] < other_ranks[j] {
                return Ordering::Less;
            }
            i = j;
        }
        Ordering::Equal
    }
}

} // verus!
