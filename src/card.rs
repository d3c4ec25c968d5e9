//! Suits, ranks and single cards, with their two-character codes.
use std::cmp::Ordering;
use vstd::prelude::*;
use vstd::string::StringExecFns;

use crate::PokerError;

verus! {

/// A card's suit. Suits are never ordered; they only decide flushes.
#[derive(PartialEq, Eq, Structural, Clone, Copy, Debug)]
pub enum Suit {
    Hearts,
    Diamonds,
    Clubs,
    Spades,
}

/// A card's rank, from lowest to highest.
///
/// `One` sits below `Two`. It is no rank of the game: it exists only because
/// the code symbol `'1'` is accepted, and a hand that holds it is ranked as if
/// it were a card just under `Two`.
#[derive(PartialEq, Eq, Structural, Clone, Copy, Debug)]
pub enum Rank {
    One,
    Two,
    Three,
    Four,
    Five,
    Six,
    Seven,
    Eight,
    Nine,
    Ten,
    Jack,
    Queen,
    King,
    Ace,
}

impl Suit {
    /// The character that stands for the suit in a card code.
    pub open spec fn symbol(self) -> char {
        match self {
            Suit::Hearts => 'H',
            Suit::Diamonds => 'D',
            Suit::Clubs => 'C',
            Suit::Spades => 'S',
        }
    }

    /// The suit that a code character stands for, if any.
    pub open spec fn of_symbol(c: char) -> Option<Suit> {
        if c == 'H' {
            Some(Suit::Hearts)
        } else if c == 'D' {
            Some(Suit::Diamonds)
        } else if c == 'C' {
            Some(Suit::Clubs)
        } else if c == 'S' {
            Some(Suit::Spades)
        } else {
            None
        }
    }

    pub fn parse(c: char) -> (r: Option<Suit>)
        ensures
            r == Suit::of_symbol(c),
    {
        match c {
            'H' => Some(Suit::Hearts),
            'D' => Some(Suit::Diamonds),
            'C' => Some(Suit::Clubs),
            'S' => Some(Suit::Spades),
            _ => None,
        }
    }

    /// The suit's code as a one-character string.
    pub fn text(&self) -> (s: &'static str)
        ensures
            s@ == seq![self.symbol()],
    {
        match self {
            Suit::Hearts => {
                proof {
                    reveal_strlit("H");
                }
                "H"
            },
            Suit::Diamonds => {
                proof {
                    reveal_strlit("D");
                }
                "D"
            },
            Suit::Clubs => {
                proof {
                    reveal_strlit("C");
                }
                "C"
            },
            Suit::Spades => {
                proof {
                    reveal_strlit("S");
                }
                "S"
            },
        }
    }
}

impl Rank {
    /// The rank's place in the order: `One` is 1, `Two` is 2, ..., `Ten` is
    /// 10, `Jack` 11, `Queen` 12, `King` 13 and `Ace` 14.
    pub open spec fn level(self) -> int {
        match self {
            Rank::One => 1,
            Rank::Two => 2,
            Rank::Three => 3,
            Rank::Four => 4,
            Rank::Five => 5,
            Rank::Six => 6,
            Rank::Seven => 7,
            Rank::Eight => 8,
            Rank::Nine => 9,
            Rank::Ten => 10,
            Rank::Jack => 11,
            Rank::Queen => 12,
            Rank::King => 13,
            Rank::Ace => 14,
        }
    }

    /// The rank at a level from 1 to 14.
    pub open spec fn at_level(v: int) -> Rank {
        if v <= 1 {
            Rank::One
        } else if v == 2 {
            Rank::Two
        } else if v == 3 {
            Rank::Three
        } else if v == 4 {
            Rank::Four
        } else if v == 5 {
            Rank::Five
        } else if v == 6 {
            Rank::Six
        } else if v == 7 {
            Rank::Seven
        } else if v == 8 {
            Rank::Eight
        } else if v == 9 {
            Rank::Nine
        } else if v == 10 {
            Rank::Ten
        } else if v == 11 {
            Rank::Jack
        } else if v == 12 {
            Rank::Queen
        } else if v == 13 {
            Rank::King
        } else {
            Rank::Ace
        }
    }

    /// A rank is determined by its level, which lies between 1 and 14.
    pub proof fn lemma_level(self)
        ensures
            1 <= self.level() <= 14,
            Rank::at_level(self.level()) == self,
    {
    }

    pub fn to_level(&self) -> (v: u8)
        ensures
            v == self.level(),
    {
        match self {
            Rank::One => 1,
            Rank::Two => 2,
            Rank::Three => 3,
            Rank::Four => 4,
            Rank::Five => 5,
            Rank::Six => 6,
            Rank::Seven => 7,
            Rank::Eight => 8,
            Rank::Nine => 9,
            Rank::Ten => 10,
            Rank::Jack => 11,
            Rank::Queen => 12,
            Rank::King => 13,
            Rank::Ace => 14,
        }
    }

    pub fn from_level(v: u8) -> (r: Rank)
        requires
            1 <= v <= 14,
        ensures
            r == Rank::at_level(v as int),
            r.level() == v,
    {
        match v {
            1 => Rank::One,
            2 => Rank::Two,
            3 => Rank::Three,
            4 => Rank::Four,
            5 => Rank::Five,
            6 => Rank::Six,
            7 => Rank::Seven,
            8 => Rank::Eight,
            9 => Rank::Nine,
            10 => Rank::Ten,
            11 => Rank::Jack,
            12 => Rank::Queen,
            13 => Rank::King,
            _ => Rank::Ace,
        }
    }

    /// The next higher rank; the ace has none, so runs never wrap around.
    pub fn next(&self) -> (r: Option<Rank>)
        ensures
            r is None <==> self.level() == 14,
            r matches Some(n) ==> n.level() == self.level() + 1,
    {
        match self {
            Rank::One => Some(Rank::Two),
            Rank::Two => Some(Rank::Three),
            Rank::Three => Some(Rank::Four),
            Rank::Four => Some(Rank::Five),
            Rank::Five => Some(Rank::Six),
            Rank::Six => Some(Rank::Seven),
            Rank::Seven => Some(Rank::Eight),
            Rank::Eight => Some(Rank::Nine),
            Rank::Nine => Some(Rank::Ten),
            Rank::Ten => Some(Rank::Jack),
            Rank::Jack => Some(Rank::Queen),
            Rank::Queen => Some(Rank::King),
            Rank::King => Some(Rank::Ace),
            Rank::Ace => None,
        }
    }

    /// The character that stands for the rank in a card code.
    pub open spec fn symbol(self) -> char {
        match self {
            Rank::One => '1',
            Rank::Two => '2',
            Rank::Three => '3',
            Rank::Four => '4',
            Rank::Five => '5',
            Rank::Six => '6',
            Rank::Seven => '7',
            Rank::Eight => '8',
            Rank::Nine => '9',
            Rank::Ten => 'T',
            Rank::Jack => 'J',
            Rank::Queen => 'Q',
            Rank::King => 'K',
            Rank::Ace => 'A',
        }
    }

    /// The rank that a code character stands for, if any.
    pub open spec fn of_symbol(c: char) -> Option<Rank> {
        if '1' <= c <= '9' {
            Some(Rank::at_level(c as int - '0' as int))
        } else if c == 'T' {
            Some(Rank::Ten)
        } else if c == 'J' {
            Some(Rank::Jack)
        } else if c == 'Q' {
            Some(Rank::Queen)
        } else if c == 'K' {
            Some(Rank::King)
        } else if c == 'A' {
            Some(Rank::Ace)
        } else {
            None
        }
    }

    pub fn parse(c: char) -> (r: Option<Rank>)
        ensures
            r == Rank::of_symbol(c),
    {
        match c {
            '1' => Some(Rank::One),
            '2' => Some(Rank::Two),
            '3' => Some(Rank::Three),
            '4' => Some(Rank::Four),
            '5' => Some(Rank::Five),
            '6' => Some(Rank::Six),
            '7' => Some(Rank::Seven),
            '8' => Some(Rank::Eight),
            '9' => Some(Rank::Nine),
            'T' => Some(Rank::Ten),
            'J' => Some(Rank::Jack),
            'Q' => Some(Rank::Queen),
            'K' => Some(Rank::King),
            'A' => Some(Rank::Ace),
            _ => None,
        }
    }
    /// The rank's code as a one-character string.
    pub fn text(&self) -> (s: &'static str)
        ensures
            s@ == seq![self.symbol()],
    {
        match self {
            Rank::One => {
                proof {
                    reveal_strlit("1");
                }
                "1"
            },
            Rank::Two => {
                proof {
                    reveal_strlit("2");
                }
                "2"
            },
            Rank::Three => {
                proof {
                    reveal_strlit("3");
                }
                "3"
            },
            Rank::Four => {
                proof {
                    reveal_strlit("4");
                }
                "4"
            },
            Rank::Five => {
                proof {
                    reveal_strlit("5");
                }
                "5"
            },
            Rank::Six => {
                proof {
                    reveal_strlit("6");
                }
                "6"
            },
            Rank::Seven => {
                proof {
                    reveal_strlit("7");
                }
                "7"
            },
            Rank::Eight => {
                proof {
                    reveal_strlit("8");
                }
                "8"
            },
            Rank::Nine => {
                proof {
                    reveal_strlit("9");
                }
                "9"
            },
            Rank::Ten => {
                proof {
                    reveal_strlit("T");
                }
                "T"
            },
            Rank::Jack => {
                proof {
                    reveal_strlit("J");
                }
                "J"
            },
            Rank::Queen => {
                proof {
                    reveal_strlit("Q");
                }
                "Q"
            },
            Rank::King => {
                proof {
                    reveal_strlit("K");
                }
                "K"
            },
            Rank::Ace => {
                proof {
                    reveal_strlit("A");
                }
                "A"
            },
        }
    }
}

/// One playing card. Cards are ordered by rank alone.
#[derive(PartialEq, Eq, Structural, Clone, Copy, Debug)]
pub struct Card {
    pub rank: Rank,
    pub suit: Suit,
}

impl Card {
    /// The card's two-character code: rank symbol, then suit symbol.
    pub open spec fn code(self) -> Seq<char> {
        seq![self.rank.symbol(), self.suit.symbol()]
    }

    /// What a card code denotes: a card when it is exactly one rank symbol
    /// followed by one suit symbol, else `InvalidCardCode`.
    pub open spec fn of_code(s: Seq<char>) -> Result<Card, PokerError> {
        if s.len() == 2 && Rank::of_symbol(s[0]) is Some && Suit::of_symbol(s[1]) is Some {
            Ok(Card { rank: Rank::of_symbol(s[0])->0, suit: Suit::of_symbol(s[1])->0 })
        } else {
            Err(PokerError::InvalidCardCode)
        }
    }

    /// Reads a card from its rank and suit symbols.
    pub fn from_symbols(r: char, s: char) -> (c: Result<Card, PokerError>)
        ensures
            c == Card::of_code(seq![r, s]),
    {
        let rank = match Rank::parse(r) {
            Some(rank) => rank,
            None => return Err(PokerError::InvalidCardCode),
        };
        let suit = match Suit::parse(s) {
            Some(suit) => suit,
            None => return Err(PokerError::InvalidCardCode),
        };
        Ok(Card { rank, suit })
    }

    /// Reads a card from its two-character code, such as `"JH"` or `"TC"`.
    pub fn from_code(code: &str) -> (c: Result<Card, PokerError>)
        ensures
            c == Card::of_code(code@),
    {
        if code.unicode_len() != 2 {
            return Err(PokerError::InvalidCardCode);
        }
        let r = code.get_char(0);
        let s = code.get_char(1);
        assert(code@ =~= seq![r, s]);
        Card::from_symbols(r, s)
    }

    /// Writes the card's two-character code.
    pub fn to_code(&self) -> (s: String)
        ensures
            s@ == self.code(),
    {
        let mut s = String::from_str(self.rank.text());
        s.append(self.suit.text());
        assert(s@ =~= self.code());
        s
    }
}

impl PartialOrd for Card {
    fn partial_cmp(&self, other: &Card) -> (r: Option<Ordering>) {
        let a = self.rank.to_level();
        let b = other.rank.to_level();
        if a < b {
            Some(Ordering::Less)
        } else if a > b {
            Some(Ordering::Greater)
        } else {
            Some(Ordering::Equal)
        }
    }
}

impl vstd::std_specs::cmp::PartialOrdSpecImpl for Card {
    open spec fn obeys_partial_cmp_spec() -> bool {
        true
    }

    open spec fn partial_cmp_spec(&self, other: &Card) -> Option<Ordering> {
        if self.rank.level() < other.rank.level() {
            Some(Ordering::Less)
        } else if self.rank.level() > other.rank.level() {
            Some(Ordering::Greater)
        } else {
            Some(Ordering::Equal)
        }
    }
}

} // verus!
