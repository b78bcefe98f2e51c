use yaht::scoring::{compute_score, compute_score_joker, Category};

#[test]
fn test_ones() {
    assert_eq!(compute_score(Category::Ones, &[1, 1, 3, 4, 5]), 2);
    assert_eq!(compute_score(Category::Ones, &[2, 3, 4, 5, 6]), 0);
    assert_eq!(compute_score(Category::Ones, &[1, 1, 1, 1, 1]), 5);
}

#[test]
fn test_twos() {
    assert_eq!(compute_score(Category::Twos, &[2, 2, 3, 4, 5]), 4);
    assert_eq!(compute_score(Category::Twos, &[1, 3, 4, 5, 6]), 0);
}

#[test]
fn test_threes() {
    assert_eq!(compute_score(Category::Threes, &[3, 3, 3, 4, 5]), 9);
}

#[test]
fn test_fours() {
    assert_eq!(compute_score(Category::Fours, &[4, 4, 4, 4, 5]), 16);
}

#[test]
fn test_fives() {
    assert_eq!(compute_score(Category::Fives, &[5, 5, 5, 5, 5]), 25);
}

#[test]
fn test_sixes() {
    assert_eq!(compute_score(Category::Sixes, &[6, 6, 1, 2, 3]), 12);
}

#[test]
fn test_three_of_a_kind() {
    assert_eq!(compute_score(Category::ThreeOfAKind, &[3, 3, 3, 4, 5]), 18);
    assert_eq!(compute_score(Category::ThreeOfAKind, &[1, 2, 3, 4, 5]), 0);
    // Four of a kind also counts as three of a kind
    assert_eq!(compute_score(Category::ThreeOfAKind, &[3, 3, 3, 3, 5]), 17);
}

#[test]
fn test_four_of_a_kind() {
    assert_eq!(compute_score(Category::FourOfAKind, &[3, 3, 3, 3, 5]), 17);
    assert_eq!(compute_score(Category::FourOfAKind, &[3, 3, 3, 4, 5]), 0);
    // Five of a kind also counts
    assert_eq!(compute_score(Category::FourOfAKind, &[6, 6, 6, 6, 6]), 30);
}

#[test]
fn test_full_house() {
    assert_eq!(compute_score(Category::FullHouse, &[3, 3, 3, 5, 5]), 25);
    assert_eq!(compute_score(Category::FullHouse, &[1, 1, 2, 2, 3]), 0);
    // Five of a kind is NOT a full house (no pair distinct from triple)
    assert_eq!(compute_score(Category::FullHouse, &[3, 3, 3, 3, 3]), 0);
}

#[test]
fn test_small_straight() {
    assert_eq!(compute_score(Category::SmallStraight, &[1, 2, 3, 4, 6]), 30);
    assert_eq!(compute_score(Category::SmallStraight, &[2, 3, 4, 5, 1]), 30);
    assert_eq!(compute_score(Category::SmallStraight, &[3, 4, 5, 6, 1]), 30);
    assert_eq!(compute_score(Category::SmallStraight, &[1, 2, 3, 5, 6]), 0);
    // Large straight contains a small straight
    assert_eq!(compute_score(Category::SmallStraight, &[1, 2, 3, 4, 5]), 30);
    // Duplicate in small straight
    assert_eq!(compute_score(Category::SmallStraight, &[1, 2, 3, 4, 4]), 30);
}

#[test]
fn test_large_straight() {
    assert_eq!(compute_score(Category::LargeStraight, &[1, 2, 3, 4, 5]), 40);
    assert_eq!(compute_score(Category::LargeStraight, &[2, 3, 4, 5, 6]), 40);
    assert_eq!(compute_score(Category::LargeStraight, &[1, 2, 3, 4, 6]), 0);
}

#[test]
fn test_yahtzee() {
    assert_eq!(compute_score(Category::Yahtzee, &[5, 5, 5, 5, 5]), 50);
    assert_eq!(compute_score(Category::Yahtzee, &[1, 1, 1, 1, 1]), 50);
    assert_eq!(compute_score(Category::Yahtzee, &[5, 5, 5, 5, 4]), 0);
}

#[test]
fn test_chance() {
    assert_eq!(compute_score(Category::Chance, &[1, 2, 3, 4, 5]), 15);
    assert_eq!(compute_score(Category::Chance, &[6, 6, 6, 6, 6]), 30);
}

#[test]
fn test_category_is_upper() {
    assert!(Category::Ones.is_upper());
    assert!(Category::Sixes.is_upper());
    assert!(!Category::ThreeOfAKind.is_upper());
    assert!(!Category::Yahtzee.is_upper());
}

#[test]
fn test_joker_fixed_values() {
    // A repeat Yahtzee lets a full house and the straights score their
    // fixed value even though the dice are all one face.
    assert_eq!(compute_score_joker(Category::FullHouse, &[5, 5, 5, 5, 5], true), 25);
    assert_eq!(compute_score_joker(Category::SmallStraight, &[5, 5, 5, 5, 5], true), 30);
    assert_eq!(compute_score_joker(Category::LargeStraight, &[5, 5, 5, 5, 5], true), 40);
    // Upper and summing categories are unchanged by the joker table
    assert_eq!(compute_score_joker(Category::Fives, &[5, 5, 5, 5, 5], true), 25);
    assert_eq!(compute_score_joker(Category::Chance, &[5, 5, 5, 5, 5], true), 25);
    // Without the joker, the plain table applies
    assert_eq!(compute_score_joker(Category::FullHouse, &[5, 5, 5, 5, 5], false), 0);
}
