//! Ranking of five-card poker hands: card and hand parsing, classification
//! into the ten standard categories, and a total order over hands.
use vstd::prelude::*;

pub mod card;
pub mod hand;
pub mod laws;
pub mod ranking;
pub mod round;
pub mod text;

pub use card::{Card, Rank, Suit};
pub use hand::Hand;
pub use ranking::Category;

verus! {

/// The two ways in which text can fail to describe a card or a hand.
#[derive(PartialEq, Eq, Structural, Clone, Copy, Debug)]
pub enum PokerError {
    /// A card code that is not one rank symbol followed by one suit symbol.
    InvalidCardCode,
    /// A hand text that does not hold exactly five valid card codes.
    InvalidHandFormat,
}

} // verus!
