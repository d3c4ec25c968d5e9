use poker::{Card, Category, Hand, Rank, Suit};
use std::cmp::Ordering;

fn hearts(ranks: [Rank; 5]) -> Hand {
    Hand {
        zero: Card { rank: ranks[0], suit: Suit::Hearts },
        one: Card { rank: ranks[1], suit: Suit::Hearts },
        two: Card { rank: ranks[2], suit: Suit::Hearts },
        three: Card { rank: ranks[3], suit: Suit::Hearts },
        four: Card { rank: ranks[4], suit: Suit::Hearts },
    }
}

#[test]
fn test_next() {
    assert_eq!(Rank::One.next(), Some(Rank::Two));
    assert_eq!(Rank::Ace.next(), None);
}

#[test]
fn test_card_from_code() {
    assert_eq!(
        Card::from_code("JH").unwrap(),
        Card { rank: Rank::Jack, suit: Suit::Hearts }
    );
}

#[test]
fn test_best_card() {
    assert!(
        Card { rank: Rank::Queen, suit: Suit::Hearts } > Card { rank: Rank::Jack, suit: Suit::Hearts }
    );
}

#[test]
fn test_hand_from_str() {
    let hand = Hand::from_str("1H 2C 3S 2H 2C").unwrap();

    assert_eq!(hand.zero, Card { rank: Rank::One, suit: Suit::Hearts });
    assert_eq!(hand.one, Card { rank: Rank::Two, suit: Suit::Clubs });
    assert_eq!(hand.two, Card { rank: Rank::Three, suit: Suit::Spades });
    assert_eq!(hand.three, Card { rank: Rank::Two, suit: Suit::Hearts });
    assert_eq!(hand.four, Card { rank: Rank::Two, suit: Suit::Clubs });
}

#[test]
fn test_x_of_a_kind() {
    let hand = hearts([Rank::One, Rank::Two, Rank::Three, Rank::Two, Rank::Two]);

    assert_eq!(hand.is_x_of_a_kind(3), true);
    assert_eq!(hand.x_of_a_kind(3), Some(Rank::Two));
    assert_eq!(hand.is_x_of_a_kind(4), false);
    assert_eq!(hand.x_of_a_kind(4), None);
}

#[test]
fn test_is_straight() {
    let a = hearts([Rank::Four, Rank::Five, Rank::Seven, Rank::Three, Rank::Six]);
    assert!(a.is_straight());

    let b = hearts([Rank::Four, Rank::Nine, Rank::Seven, Rank::Three, Rank::Six]);
    assert!(!b.is_straight());
}

#[test]
fn test_is_flush() {
    let a = hearts([Rank::One, Rank::Two, Rank::Three, Rank::Three, Rank::Six]);
    assert!(a.is_flush());

    let mut b = hearts([Rank::Four, Rank::Nine, Rank::Seven, Rank::Three, Rank::Six]);
    b.four.suit = Suit::Clubs;
    assert!(!b.is_flush());
}

#[test]
fn test_rank_counts() {
    let a = hearts([Rank::One, Rank::One, Rank::Two, Rank::Two, Rank::Three]);
    assert_eq!(a.rank_counts(), vec![2, 2, 1]);

    let mut b = hearts([Rank::One, Rank::Two, Rank::Three, Rank::Four, Rank::One]);
    b.four.suit = Suit::Clubs;
    assert_eq!(b.rank_counts(), [2, 1, 1, 1]);

    let mut c = hearts([Rank::One, Rank::One, Rank::One, Rank::One, Rank::One]);
    c.four.suit = Suit::Clubs;
    assert_eq!(c.rank_counts(), [5]);
}

#[test]
fn test_two_pair() {
    let a = hearts([Rank::One, Rank::Two, Rank::Three, Rank::Two, Rank::One]);
    assert_eq!(a.two_pair(), Some(Rank::Two));

    let b = hearts([Rank::One, Rank::One, Rank::One, Rank::Two, Rank::Three]);
    assert_eq!(b.two_pair(), None);
}

#[test]
fn test_is_full_house() {
    let a = hearts([Rank::One, Rank::One, Rank::One, Rank::Two, Rank::Two]);
    assert!(a.is_full_house());

    let b = hearts([Rank::One, Rank::One, Rank::One, Rank::Two, Rank::Three]);
    assert!(!b.is_full_house());
}

#[test]
fn test_score() {
    let a = Hand::from_str("8C 8S KC 9H 9S").unwrap();
    let b = Hand::from_str("7D 2S 5D 3S AC").unwrap();
    let c = Hand::from_str("5C AC 5C AC 9C").unwrap();

    assert_eq!(a.score(), (Category::TwoPairs, Rank::Nine));
    assert_eq!(b.score(), (Category::HighCard, Rank::Ace));
    assert_eq!(c.score(), (Category::Flush, Rank::Ace));
}

#[test]
fn test_cmp() {
    let a = Hand::from_str("5H 5C 6S 7S KD").unwrap();
    let b = Hand::from_str("2C 3S 8S 8D TD").unwrap();
    assert_eq!(a.cmp(b), Ordering::Less);

    let a = Hand::from_str("5D 8C 9S JS AC").unwrap();
    let b = Hand::from_str("2C 5C 7D 8S QH").unwrap();
    assert_eq!(a.cmp(b), Ordering::Greater);

    let a = Hand::from_str("2D 9C AS AH AC").unwrap();
    let b = Hand::from_str("3D 6D 7D TD QD").unwrap();
    assert_eq!(a.cmp(b), Ordering::Less);

    let a = Hand::from_str("4D 6S 9H QH QC").unwrap();
    let b = Hand::from_str("3D 6D 7H QD QS").unwrap();
    assert_eq!(a.cmp(b), Ordering::Greater);

    let a = Hand::from_str("2H 2D 4C 4D 4S").unwrap();
    let b = Hand::from_str("3C 3D 3S 9S 9D").unwrap();
    assert_eq!(a.cmp(b), Ordering::Greater);

    let a = Hand::from_str("6D 7C 5D 5H 3S").unwrap();
    let b = Hand::from_str("5C JC 2H 5S 3D").unwrap();
    assert_eq!(a.cmp(b), Ordering::Less);
}
