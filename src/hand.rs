//! A hand of five cards: parsing and the analysis of its ranks.
use vstd::prelude::*;

use crate::card::{Card, Rank};
use crate::text::{glyphs, glyphs_of};
use crate::PokerError;

verus! {

/// 1 when `b` holds, else 0.
pub open spec fn one_if(b: bool) -> int {
    if b {
        1
    } else {
        0
    }
}

pub open spec fn max2(a: int, b: int) -> int {
    if a >= b {
        a
    } else {
        b
    }
}

pub open spec fn min2(a: int, b: int) -> int {
    if a <= b {
        a
    } else {
        b
    }
}

/// Five cards in the order in which they were given. Two equal cards may
/// stand in one hand: no deck is checked.
#[derive(PartialEq, Eq, Structural, Clone, Copy, Debug)]
pub struct Hand {
    pub zero: Card,
    pub one: Card,
    pub two: Card,
    pub three: Card,
    pub four: Card,
}

/// The card that the codes at places `2k` and `2k + 1` of `g` denote.
pub open spec fn card_in(g: Seq<char>, k: int) -> Result<Card, PokerError> {
    Card::of_code(seq![g[2 * k], g[2 * k + 1]])
}

/// Rank run lengths that make two pairs: some order of 1, 2 and 2.
pub open spec fn two_pair_shape(c: Seq<u8>) -> bool {
    c == seq![1u8, 2, 2] || c == seq![2u8, 1, 2] || c == seq![2u8, 2, 1]
}

/// Rank run lengths that make a full house: some order of 2 and 3.
pub open spec fn full_house_shape(c: Seq<u8>) -> bool {
    c == seq![3u8, 2] || c == seq![2u8, 3]
}

impl Hand {
    /// The five cards, in hand order.
    pub open spec fn cards(self) -> Seq<Card> {
        seq![self.zero, self.one, self.two, self.three, self.four]
    }

    /// The five ranks, in hand order.
    pub open spec fn rank_seq(self) -> Seq<Rank> {
        seq![self.zero.rank, self.one.rank, self.two.rank, self.three.rank, self.four.rank]
    }

    /// How many of the five cards have the rank at level `v`.
    pub open spec fn count(self, v: int) -> int {
        one_if(self.zero.rank.level() == v) + one_if(self.one.rank.level() == v) + one_if(
            self.two.rank.level() == v,
        ) + one_if(self.three.rank.level() == v) + one_if(self.four.rank.level() == v)
    }

    /// How many of the five cards have a rank at level `v` or below.
    pub open spec fn count_through(self, v: int) -> int {
        one_if(self.zero.rank.level() <= v) + one_if(self.one.rank.level() <= v) + one_if(
            self.two.rank.level() <= v,
        ) + one_if(self.three.rank.level() <= v) + one_if(self.four.rank.level() <= v)
    }

    /// The level of the highest rank in the hand.
    pub open spec fn high(self) -> int {
        max2(
            max2(max2(max2(self.zero.rank.level(), self.one.rank.level()), self.two.rank.level()),
            self.three.rank.level()),
            self.four.rank.level(),
        )
    }

    /// The level of the lowest rank in the hand.
    pub open spec fn low(self) -> int {
        min2(
            min2(min2(min2(self.zero.rank.level(), self.one.rank.level()), self.two.rank.level()),
            self.three.rank.level()),
            self.four.rank.level(),
        )
    }

    /// The highest rank at level `v` or below that the hand holds at least
    /// `x` times (and at least once), if any.
    pub open spec fn best_through(self, x: int, v: int) -> Option<Rank>
        decreases v,
    {
        if v <= 0 {
            None
        } else if self.count(v) >= x && self.count(v) >= 1 {
            Some(Rank::at_level(v))
        } else {
            self.best_through(x, v - 1)
        }
    }

    /// The highest rank that the hand holds at least `x` times (and at least
    /// once), if any.
    pub open spec fn of_a_kind(self, x: int) -> Option<Rank> {
        self.best_through(x, 14)
    }

    /// How many cards share each rank at level `v` or below, one entry per
    /// rank that the hand holds, lowest rank first.
    pub open spec fn runs_through(self, v: int) -> Seq<u8>
        decreases v,
    {
        if v <= 0 {
            Seq::empty()
        } else if self.count(v) > 0 {
            self.runs_through(v - 1).push(self.count(v) as u8)
        } else {
            self.runs_through(v - 1)
        }
    }

    /// How many cards share each rank of the hand, lowest rank first.
    pub open spec fn runs(self) -> Seq<u8> {
        self.runs_through(14)
    }

    /// The ranks climb one by one from the lowest, four steps, without
    /// passing the ace.
    pub open spec fn is_run(self) -> bool {
        &&& self.low() + 4 <= 14
        &&& self.count(self.low() + 1) > 0
        &&& self.count(self.low() + 2) > 0
        &&& self.count(self.low() + 3) > 0
        &&& self.count(self.low() + 4) > 0
    }

    /// All five cards have one suit.
    pub open spec fn one_suit(self) -> bool {
        &&& self.one.suit == self.zero.suit
        &&& self.two.suit == self.zero.suit
        &&& self.three.suit == self.zero.suit
        &&& self.four.suit == self.zero.suit
    }

    pub open spec fn straight_rank(self) -> Option<Rank> {
        if self.is_run() {
            Some(Rank::at_level(self.high()))
        } else {
            None
        }
    }

    pub open spec fn flush_rank(self) -> Option<Rank> {
        if self.one_suit() {
            Some(Rank::at_level(self.high()))
        } else {
            None
        }
    }

    pub open spec fn straight_flush_rank(self) -> Option<Rank> {
        if self.one_suit() && self.is_run() {
            Some(Rank::at_level(self.high()))
        } else {
            None
        }
    }

    pub open spec fn is_royal(self) -> bool {
        self.straight_flush_rank() == Some(Rank::Ace)
    }

    pub open spec fn two_pair_rank(self) -> Option<Rank> {
        if two_pair_shape(self.runs()) {
            self.of_a_kind(2)
        } else {
            None
        }
    }

    pub open spec fn full_house_rank(self) -> Option<Rank> {
        if full_house_shape(self.runs()) {
            self.of_a_kind(3)
        } else {
            None
        }
    }

    /// What a hand text denotes. Its characters other than white space,
    /// taken two by two, must be exactly five card codes; otherwise the text
    /// is `InvalidHandFormat`.
    pub open spec fn of_text(s: Seq<char>) -> Result<Hand, PokerError> {
        let g = glyphs(s);
        if g.len() == 10 && card_in(g, 0) is Ok && card_in(g, 1) is Ok && card_in(g, 2) is Ok
            && card_in(g, 3) is Ok && card_in(g, 4) is Ok {
            Ok(
                Hand {
                    zero: card_in(g, 0)->Ok_0,
                    one: card_in(g, 1)->Ok_0,
                    two: card_in(g, 2)->Ok_0,
                    three: card_in(g, 3)->Ok_0,
                    four: card_in(g, 4)->Ok_0,
                },
            )
        } else {
            Err(PokerError::InvalidHandFormat)
        }
    }

    /// Reads a hand from five card codes; white space may stand anywhere
    /// between and around them, as in `"8C TS KC 9H 4S"`.
    pub fn from_str(s: &str) -> (r: Result<Hand, PokerError>)
        ensures
            r == Hand::of_text(s@),
    {
        let g = glyphs_of(s);
        if g.len() != 10 {
            return Err(PokerError::InvalidHandFormat);
        }
        let mut cards: [Option<Card>; 5] = [None, None, None, None, None];
        for k in 0..5
            invariant
                g@ == glyphs(s@),
                g@.len() == 10,
                forall|j: int|
                    0 <= j < k ==> #[trigger] card_in(g@, j) is Ok && cards@[j] == Some(
                        card_in(g@, j)->Ok_0,
                    ),
        {
            let c = match Card::from_symbols(g[2 * k], g[2 * k + 1]) {
                Ok(c) => c,
                Err(_) => return Err(PokerError::InvalidHandFormat),
            };
            assert(card_in(g@, k as int) == Ok::<Card, PokerError>(c));
            cards[k] = Some(c);
        }
        let h = Hand::from_cards(cards);
        assert(card_in(g@, 0) is Ok && card_in(g@, 4) is Ok);
        assert(h.cards()[0] == h.zero && h.cards()[4] == h.four);
        Ok(h)
    }

    /// Builds a hand from five cards that are all present.
    pub fn from_cards(cards: [Option<Card>; 5]) -> (h: Hand)
        requires
            forall|i: int| 0 <= i < 5 ==> cards@[i] is Some,
        ensures
            forall|i: int| 0 <= i < 5 ==> h.cards()[i] == cards@[i]->0,
    {
        Hand {
            zero: cards[0].unwrap(),
            one: cards[1].unwrap(),
            two: cards[2].unwrap(),
            three: cards[3].unwrap(),
            four: cards[4].unwrap(),
        }
    }

    /// The card at place `i` of the hand.
    pub fn index(&self, i: u8) -> (c: Card)
        requires
            i < 5,
        ensures
            c == self.cards()[i as int],
    {
        match i {
            0 => self.zero,
            1 => self.one,
            2 => self.two,
            3 => self.three,
            _ => self.four,
        }
    }

    /// How many of the five cards have the rank at level `v`.
    pub(crate) fn count_at(&self, v: u8) -> (n: u8)
        ensures
            n == self.count(v as int),
    {
        let mut n: u8 = 0;
        if self.zero.rank.to_level() == v {
            n += 1;
        }
        if self.one.rank.to_level() == v {
            n += 1;
        }
        if self.two.rank.to_level() == v {
            n += 1;
        }
        if self.three.rank.to_level() == v {
            n += 1;
        }
        if self.four.rank.to_level() == v {
            n += 1;
        }
        n
    }

    /// The highest rank in the hand.
    pub fn high_rank(&self) -> (r: Rank)
        ensures
            r == Rank::at_level(self.high()),
            r.level() == self.high(),
    {
        let mut highest = self.zero.rank;
        if self.one.rank.to_level() > highest.to_level() {
            highest = self.one.rank;
        }
        if self.two.rank.to_level() > highest.to_level() {
            highest = self.two.rank;
        }
        if self.three.rank.to_level() > highest.to_level() {
            highest = self.three.rank;
        }
        if self.four.rank.to_level() > highest.to_level() {
            highest = self.four.rank;
        }
        proof {
            highest.lemma_level();
        }
        highest
    }

    /// The lowest rank in the hand.
    fn low_rank(&self) -> (r: Rank)
        ensures
            r.level() == self.low(),
    {
        let mut lowest = self.zero.rank;
        if self.one.rank.to_level() < lowest.to_level() {
            lowest = self.one.rank;
        }
        if self.two.rank.to_level() < lowest.to_level() {
            lowest = self.two.rank;
        }
        if self.three.rank.to_level() < lowest.to_level() {
            lowest = self.three.rank;
        }
        if self.four.rank.to_level() < lowest.to_level() {
            lowest = self.four.rank;
        }
        lowest
    }

    /// Whether some card of the hand has the rank `other`.
    pub fn contains_rank(&self, other: &Rank) -> (r: bool)
        ensures
            r == (self.count(other.level()) > 0),
            r == self.rank_seq().contains(*other),
    {
        proof {
            let rs = self.rank_seq();
            if self.count(other.level()) > 0 {
                assert(rs[0] == *other || rs[1] == *other || rs[2] == *other || rs[3] == *other
                    || rs[4] == *other) by {
                    self.zero.rank.lemma_level();
                    self.one.rank.lemma_level();
                    self.two.rank.lemma_level();
                    self.three.rank.lemma_level();
                    self.four.rank.lemma_level();
                    other.lemma_level();
                }
            }
        }
        self.zero.rank == *other || self.one.rank == *other || self.two.rank == *other
            || self.three.rank == *other || self.four.rank == *other
    }

    /// How many cards share each rank of the hand, lowest rank first: the
    /// ranks 2, 2, 3, 3, 3 give `[2, 3]`.
    pub fn rank_counts(&self) -> (counts: Vec<u8>)
        ensures
            counts@ == self.runs(),
    {
        let mut counts: Vec<u8> = Vec::new();
        let mut v: u8 = 1;
        while v <= 14
            invariant
                1 <= v <= 15,
                counts@ == self.runs_through(v - 1),
            decreases 15 - v,
        {
            let n = self.count_at(v);
            if n > 0 {
                counts.push(n);
            }
            v += 1;
        }
        counts
    }

    /// The highest rank that at least `x` cards of the hand share (and at
    /// least one holds), if any.
    pub fn x_of_a_kind(&self, x: u8) -> (r: Option<Rank>)
        ensures
            r == self.of_a_kind(x as int),
    {
        let mut v: u8 = 14;
        while v > 0
            invariant
                v <= 14,
                self.best_through(x as int, v as int) == self.of_a_kind(x as int),
            decreases v,
        {
            let n = self.count_at(v);
            if n >= x && n >= 1 {
                return Some(Rank::from_level(v));
            }
            v -= 1;
        }
        None
    }

    pub fn is_x_of_a_kind(&self, x: u8) -> (r: bool)
        ensures
            r == self.of_a_kind(x as int) is Some,
    {
        self.x_of_a_kind(x).is_some()
    }

    /// Whether the ranks climb one by one from the lowest rank, four steps,
    /// without passing the ace.
    #[verifier::rlimit(40)]
    pub fn is_straight(&self) -> (r: bool)
        ensures
            r == self.is_run(),
    {
        let mut required = self.low_rank();
        let mut k: u8 = 1;
        while k < 5
            invariant
                1 <= k <= 5,
                required.level() == self.low() + k - 1,
                forall|w: int| self.low() < w < self.low() + k ==> #[trigger] self.count(w) > 0,
            decreases 5 - k,
        {
            match required.next() {
                Some(r) => {
                    if !self.contains_rank(&r) {
                        return false;
                    }
                    required = r;
                },
                None => return false,
            }
            k += 1;
        }
        proof {
            required.lemma_level();
            assert(self.count(self.low() + 1) > 0);
            assert(self.count(self.low() + 2) > 0);
            assert(self.count(self.low() + 3) > 0);
            assert(self.count(self.low() + 4) > 0);
        }
        true
    }

    /// The highest rank, when the hand is a straight.
    pub fn straight(&self) -> (r: Option<Rank>)
        ensures
            r == self.straight_rank(),
    {
        if self.is_straight() {
            Some(self.high_rank())
        } else {
            None
        }
    }

    /// The highest rank, when all five cards have one suit.
    pub fn flush(&self) -> (r: Option<Rank>)
        ensures
            r == self.flush_rank(),
    {
        let suit = self.zero.suit;
        if self.one.suit != suit || self.two.suit != suit || self.three.suit != suit
            || self.four.suit != suit {
            return None;
        }
        Some(self.high_rank())
    }

    pub fn is_flush(&self) -> (r: bool)
        ensures
            r == self.one_suit(),
    {
        self.flush().is_some()
    }

    /// The higher paired rank, when the hand holds two pairs and one odd card.
    pub fn two_pair(&self) -> (r: Option<Rank>)
        ensures
            r == self.two_pair_rank(),
    {
        let c = self.rank_counts();
        let shape = c.len() == 3 && ((c[0] == 1 && c[1] == 2 && c[2] == 2) || (c[0] == 2 && c[1]
            == 1 && c[2] == 2) || (c[0] == 2 && c[1] == 2 && c[2] == 1));
        proof {
            if shape {
                assert(c@ =~= seq![1u8, 2, 2] || c@ =~= seq![2u8, 1, 2] || c@ =~= seq![2u8, 2, 1]);
            }
        }
        if shape {
            self.x_of_a_kind(2)
        } else {
            None
        }
    }

    pub fn is_two_pair(&self) -> (r: bool)
        ensures
            r == self.two_pair_rank() is Some,
    {
        self.two_pair().is_some()
    }

    /// The highest rank, when the hand is both a flush and a straight.
    pub fn straight_flush(&self) -> (r: Option<Rank>)
        ensures
            r == self.straight_flush_rank(),
    {
        if self.is_flush() && self.is_straight() {
            Some(self.high_rank())
        } else {
            None
        }
    }

    pub fn is_straight_flush(&self) -> (r: bool)
        ensures
            r == self.straight_flush_rank() is Some,
    {
        self.straight_flush().is_some()
    }

    /// Whether the hand is a straight flush up to the ace.
    pub fn is_royal_flush(&self) -> (r: bool)
        ensures
            r == self.is_royal(),
    {
        match self.straight_flush() {
            Some(Rank::Ace) => true,
            _ => false,
        }
    }

    /// The rank held three times, when the hand is three of one rank and two
    /// of another.
    pub fn full_house(&self) -> (r: Option<Rank>)
        ensures
            r == self.full_house_rank(),
    {
        let c = self.rank_counts();
        let shape = c.len() == 2 && ((c[0] == 3 && c[1] == 2) || (c[0] == 2 && c[1] == 3));
        proof {
            if shape {
                assert(c@ =~= seq![3u8, 2] || c@ =~= seq![2u8, 3]);
            }
        }
        if shape {
            self.x_of_a_kind(3)
        } else {
            None
        }
    }

    pub fn is_full_house(&self) -> (r: bool)
        ensures
            r == self.full_house_rank() is Some,
    {
        self.full_house().is_some()
    }

    /// The five ranks, in hand order.
    pub fn ranks(&self) -> (r: Vec<Rank>)
        ensures
            r@ == self.rank_seq(),
    {
        let r = vec![self.zero.rank, self.one.rank, self.two.rank, self.three.rank, self.four.rank];
        assert(r@ =~= self.rank_seq());
        r
    }
}

} // verus!
