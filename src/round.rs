//! Rounds of two hands written on one line, and the tally over many rounds.
use std::cmp::Ordering;
use vstd::prelude::*;

use crate::hand::Hand;
use crate::PokerError;

verus! {

/// The width of the first hand's field in a round line: five codes, each
/// followed by one separator.
pub const HAND_WIDTH: usize = 14;

/// The two hand texts of a round line: the first `HAND_WIDTH` characters
/// (the whole line when it is shorter) and the rest.
pub open spec fn split_round(line: Seq<char>) -> (Seq<char>, Seq<char>) {
    if line.len() <= HAND_WIDTH {
        (line, Seq::empty())
    } else {
        (line.subrange(0, HAND_WIDTH as int), line.subrange(HAND_WIDTH as int, line.len() as int))
    }
}

/// The outcome of a round line for its first hand, or the error of the first
/// hand text that does not parse.
pub open spec fn round_outcome(line: Seq<char>) -> Result<Ordering, PokerError> {
    let (a, b) = split_round(line);
    match Hand::of_text(a) {
        Err(e) => Err(e),
        Ok(x) => match Hand::of_text(b) {
            Err(e) => Err(e),
            Ok(y) => Ok(x.ordering(y)),
        },
    }
}

/// Wins of the first hand, wins of the second hand and draws over `lines`,
/// or the error of the first line that cannot be read.
pub open spec fn tally_of(lines: Seq<Seq<char>>) -> Result<(int, int, int), PokerError>
    decreases lines.len(),
{
    if lines.len() == 0 {
        Ok((0, 0, 0))
    } else {
        match tally_of(lines.drop_last()) {
            Err(e) => Err(e),
            Ok((one, two, draws)) => match round_outcome(lines.last()) {
                Err(e) => Err(e),
                Ok(Ordering::Greater) => Ok((one + 1, two, draws)),
                Ok(Ordering::Less) => Ok((one, two + 1, draws)),
                Ok(Ordering::Equal) => Ok((one, two, draws + 1)),
            },
        }
    }
}

/// Plays the round written on `line`: the first hand against the second.
pub fn play_round(line: &str) -> (r: Result<Ordering, PokerError>)
    ensures
        r == round_outcome(line@),
{
    let n = line.unicode_len();
    let k = if n < HAND_WIDTH {
        n
    } else {
        HAND_WIDTH
    };
    let first = line.substring_char(0, k);
    let second = line.substring_char(k, n);
    proof {
        if n <= HAND_WIDTH {
            assert(first@ =~= line@);
            assert(second@ =~= Seq::<char>::empty());
        }
    }
    let one = match Hand::from_str(first) {
        Ok(h) => h,
        Err(e) => return Err(e),
    };
    let two = match Hand::from_str(second) {
        Ok(h) => h,
        Err(e) => return Err(e),
    };
    Ok(one.cmp(two))
}

/// Once a prefix of the lines fails, every longer run of them fails alike.
proof fn lemma_tally_error_stays(lines: Seq<Seq<char>>, i: int, e: PokerError)
    requires
        0 <= i <= lines.len(),
        tally_of(lines.take(i)) == Err::<(int, int, int), PokerError>(e),
    ensures
        tally_of(lines) == Err::<(int, int, int), PokerError>(e),
    decreases lines.len() - i,
{
    if i < lines.len() {
        let shorter = lines.drop_last();
        assert(shorter.take(i) =~= lines.take(i));
        lemma_tally_error_stays(shorter, i, e);
    } else {
        assert(lines.take(i) =~= lines);
    }
}

/// Counts, over round lines, the wins of the first hand, the wins of the
/// second hand and the draws.
pub fn tally(lines: &Vec<String>) -> (r: Result<(usize, usize, usize), PokerError>)
    ensures
        match r {
            Ok((one, two, draws)) => tally_of(lines@.map_values(|s: String| s@)) == Ok::<
                (int, int, int),
                PokerError,
            >((one as int, two as int, draws as int)),
            Err(e) => tally_of(lines@.map_values(|s: String| s@)) == Err::<
                (int, int, int),
                PokerError,
            >(e),
        },
{
    let ghost texts = lines@.map_values(|s: String| s@);
    let mut one: usize = 0;
    let mut two: usize = 0;
    let mut draws: usize = 0;
    let mut i: usize = 0;
    while i < lines.len()
        invariant
            texts == lines@.map_values(|s: String| s@),
            i <= lines.len(),
            one + two + draws == i,
            tally_of(texts.take(i as int)) == Ok::<(int, int, int), PokerError>(
                (one as int, two as int, draws as int),
            ),
        decreases lines.len() - i,
    {
        assert(texts.take(i + 1).drop_last() =~= texts.take(i as int));
        assert(texts.take(i + 1).last() == lines[i as int]@);
        match play_round(lines[i].as_str()) {
            Ok(Ordering::Greater) => one += 1,
            Ok(Ordering::Less) => two += 1,
            Ok(Ordering::Equal) => draws += 1,
            Err(e) => {
                proof {
                    lemma_tally_error_stays(texts, i + 1, e);
                }
                return Err(e);
            },
        }
        i += 1;
    }
    assert(texts.take(i as int) =~= texts);
    Ok((one, two, draws))
}

} // verus!
