use poker::round::{play_round, tally};
use poker::{Card, Category, Hand, PokerError, Rank, Suit};
use std::cmp::Ordering;

fn hand(s: &str) -> Hand {
    Hand::from_str(s).unwrap()
}

#[test]
fn each_category_with_its_rank() {
    let cases = [
        ("TH JH QH KH AH", Category::RoyalFlush, Rank::Ace),
        ("9C TC JC QC KC", Category::StraightFlush, Rank::King),
        ("7S 7H 7D 7C 2H", Category::FourOfAKind, Rank::Seven),
        ("3S 3H 3D KC KH", Category::FullHouse, Rank::Three),
        ("2D 6D 9D JD KD", Category::Flush, Rank::King),
        ("4S 5H 6D 7C 8H", Category::Straight, Rank::Eight),
        ("QS QH QD 2C 5H", Category::ThreeOfAKind, Rank::Queen),
        ("8C 8S KC 9H 9S", Category::TwoPairs, Rank::Nine),
        ("JS JH 2D 5C 9H", Category::OnePair, Rank::Jack),
        ("7D 2S 5D 3S AC", Category::HighCard, Rank::Ace),
    ];
    for (text, category, rank) in cases {
        assert_eq!(hand(text).score(), (category, rank), "{}", text);
    }
}

#[test]
fn ten_to_ace_in_one_suit_is_royal() {
    assert_eq!(hand("AS KS TS QS JS").score(), (Category::RoyalFlush, Rank::Ace));
    assert!(hand("AS KS TS QS JS").is_royal_flush());
}

#[test]
fn ten_to_ace_in_mixed_suits_is_a_straight() {
    assert_eq!(hand("TH JD QC KS AH").score(), (Category::Straight, Rank::Ace));
    assert!(!hand("TH JD QC KS AH").is_royal_flush());
}

#[test]
fn ace_does_not_wrap_around() {
    let h = hand("AH 2D 3C 4S 5H");
    assert!(!h.is_straight());
    assert_eq!(h.score(), (Category::HighCard, Rank::Ace));
}

#[test]
fn classification_is_repeatable() {
    let h = hand("2H 2D 4C 4D 4S");
    assert_eq!(h.score(), h.score());
    assert_eq!(h.score(), (Category::FullHouse, Rank::Four));
}

#[test]
fn scenario_pairs_lose_to_higher_pairs() {
    assert_eq!(hand("5H 5C 6S 7S KD").cmp(hand("2C 3S 8S 8D TD")), Ordering::Less);
}

#[test]
fn scenario_flush_beats_three_of_a_kind() {
    assert_eq!(hand("2D 9C AS AH AC").cmp(hand("3D 6D 7D TD QD")), Ordering::Less);
}

#[test]
fn scenario_full_house_by_its_triple() {
    assert_eq!(hand("2H 2D 4C 4D 4S").cmp(hand("3C 3D 3S 9S 9D")), Ordering::Greater);
}

#[test]
fn swapped_comparison_is_reversed() {
    let hands = [
        "5H 5C 6S 7S KD",
        "2C 3S 8S 8D TD",
        "5D 8C 9S JS AC",
        "2C 5C 7D 8S QH",
        "2D 9C AS AH AC",
        "3D 6D 7D TD QD",
        "4D 6S 9H QH QC",
        "3D 6D 7H QD QS",
        "5D 6S 9C QH QC",
    ];
    for a in hands {
        for b in hands {
            assert_eq!(hand(a).cmp(hand(b)), hand(b).cmp(hand(a)).reverse(), "{} {}", a, b);
        }
    }
    for a in hands {
        for b in hands {
            for c in hands {
                let ab = hand(a).cmp(hand(b));
                let bc = hand(b).cmp(hand(c));
                if ab != Ordering::Less && bc != Ordering::Less {
                    assert_ne!(hand(a).cmp(hand(c)), Ordering::Less);
                }
            }
        }
    }
}

#[test]
fn stronger_category_always_wins() {
    // a straight of low cards against three aces
    assert_eq!(hand("2H 3D 4C 5S 6H").cmp(hand("AH AD AC KS QH")), Ordering::Greater);
    // the weakest flush against the strongest straight
    assert_eq!(hand("2H 3H 4H 5H 7H").cmp(hand("TH JD QC KS AH")), Ordering::Greater);
}

#[test]
fn kickers_decide_from_the_top() {
    assert_eq!(hand("QH QD 9C 5S 2H").cmp(hand("QS QC 9D 4H 3H")), Ordering::Greater);
    assert_eq!(hand("QH QD 9C 5S 2H").cmp(hand("QS QC TD 4H 3H")), Ordering::Less);
}

#[test]
fn same_ranks_in_other_suits_draw() {
    assert_eq!(hand("2H 5D 9C JS KH").cmp(hand("KD JH 9S 5C 2D")), Ordering::Equal);
}

#[test]
fn sorted_ranks_ascend() {
    assert_eq!(hand("KD 2H 9S 2C 5D").sorted_ranks(), vec![2, 2, 5, 9, 13]);
}

#[test]
fn rank_analysis_of_a_hand() {
    let h = hand("KD 2H 9S 2C 5D");
    assert_eq!(h.high_rank(), Rank::King);
    assert!(h.contains_rank(&Rank::Nine));
    assert!(!h.contains_rank(&Rank::Ten));
    assert_eq!(h.ranks(), vec![Rank::King, Rank::Two, Rank::Nine, Rank::Two, Rank::Five]);
    assert_eq!(h.rank_counts(), vec![2, 1, 1, 1]);
    assert_eq!(h.x_of_a_kind(2), Some(Rank::Two));
    assert_eq!(h.x_of_a_kind(1), Some(Rank::King));
    assert_eq!(h.x_of_a_kind(0), Some(Rank::King));
    assert_eq!(h.index(2), Card { rank: Rank::Nine, suit: Suit::Spades });
}

#[test]
fn higher_of_two_pairs_is_kept() {
    let h = hand("3H 3D JC JS 7H");
    assert_eq!(h.x_of_a_kind(2), Some(Rank::Jack));
    assert_eq!(h.two_pair(), Some(Rank::Jack));
    assert!(h.is_two_pair());
    assert_eq!(h.full_house(), None);
    assert_eq!(h.straight(), None);
    assert_eq!(h.flush(), None);
    assert_eq!(h.straight_flush(), None);
    assert!(!h.is_straight_flush());
}

#[test]
fn white_space_anywhere_around_codes() {
    let h = hand("  8C\tTS  KC\n9H 4S  ");
    assert_eq!(h, hand("8C TS KC 9H 4S"));
    assert_eq!(hand("8 C TS KC 9H 4S"), hand("8C TS KC 9H 4S"));
}

#[test]
fn malformed_hands_are_refused() {
    for text in [
        "",
        "8C TS KC 9H",
        "8C TS KC 9H 4S 2D",
        "8C TS KC 9H 4S 2",
        "8C TS KC 9H 4",
        "8C TS XC 9H 4S",
        "8C TS KC 9H 4Z",
    ] {
        assert_eq!(Hand::from_str(text), Err(PokerError::InvalidHandFormat), "{}", text);
    }
}

#[test]
fn from_cards_keeps_the_order() {
    let c = |r| Some(Card { rank: r, suit: Suit::Clubs });
    let h = Hand::from_cards([c(Rank::Two), c(Rank::Nine), c(Rank::Four), c(Rank::Ace), c(Rank::Six)]);
    assert_eq!(h.one.rank, Rank::Nine);
    assert_eq!(h.three.rank, Rank::Ace);
    assert!(h.is_flush());
}

#[test]
fn round_lines_are_split_after_the_first_hand() {
    assert_eq!(play_round("8C TS KC 9H 4S 7D 2S 5D 3S AC"), Ok(Ordering::Less));
    assert_eq!(play_round("5D 8C 9S JS AC 2C 5C 7D 8S QH"), Ok(Ordering::Greater));
    assert_eq!(play_round("2H 5D 9C JS KH KD JH 9S 5C 2D"), Ok(Ordering::Equal));
    assert_eq!(play_round("8C TS KC 9H 4S"), Err(PokerError::InvalidHandFormat));
    assert_eq!(play_round("8C TS"), Err(PokerError::InvalidHandFormat));
}

#[test]
fn tally_counts_each_outcome() {
    let lines: Vec<String> = [
        "8C TS KC 9H 4S 7D 2S 5D 3S AC",
        "5C AD 5D AC 9C 7C 5H 8D TD KS",
        "3H 7H 6S KC JS QH TD JC 2D 8S",
        "2H 5D 9C JS KH KD JH 9S 5C 2D",
    ]
    .iter()
    .map(|s| s.to_string())
    .collect();
    assert_eq!(tally(&lines), Ok((2, 1, 1)));
    assert_eq!(tally(&Vec::new()), Ok((0, 0, 0)));
    let mut bad = lines.clone();
    bad.push("not a round".to_string());
    assert_eq!(tally(&bad), Err(PokerError::InvalidHandFormat));
}
