use yaht::ai::{choose_category, hold_for_straight, hold_matching, AiDifficulty};
use yaht::dice::{DiceSet, Die, FaceRng};
use yaht::player::Scorecard;
use yaht::scoring::Category;

fn make_dice(values: [u8; 5]) -> DiceSet {
    let mut ds = DiceSet::new();
    for (i, v) in values.iter().enumerate() {
        ds.dice[i] = Die { value: *v, held: false };
    }
    ds
}

#[test]
fn test_greedy_picks_yahtzee() {
    let dice = make_dice([5, 5, 5, 5, 5]);
    let sc = Scorecard::new();
    let mut rng = FaceRng::seed_from(42);
    let cat = choose_category(&dice, &sc, AiDifficulty::Medium, &mut rng);
    assert_eq!(cat, Category::Yahtzee);
}

#[test]
fn test_greedy_picks_large_straight() {
    let dice = make_dice([1, 2, 3, 4, 5]);
    let sc = Scorecard::new();
    let mut rng = FaceRng::seed_from(42);
    let cat = choose_category(&dice, &sc, AiDifficulty::Medium, &mut rng);
    assert_eq!(cat, Category::LargeStraight);
}

#[test]
fn test_hold_matching() {
    let result = hold_matching(&[3, 3, 1, 5, 3], 3);
    assert_eq!(result, [true, true, false, false, true]);
}

#[test]
fn test_hold_for_straight() {
    let result = hold_for_straight(&[1, 2, 3, 5, 6]);
    // Should hold sequential dice for the best run
    assert!(result.iter().filter(|&&h| h).count() >= 2);
}

#[test]
fn test_easy_random_category() {
    let dice = make_dice([1, 2, 3, 4, 5]);
    let sc = Scorecard::new();
    let mut rng = FaceRng::seed_from(42);
    let cat = choose_category(&dice, &sc, AiDifficulty::Easy, &mut rng);
    // Should return some valid available category
    assert!(sc.available_categories().contains(&cat));
}

#[test]
fn test_zero_score_sacrifices_ones() {
    let dice = make_dice([2, 3, 4, 5, 6]); // No ones
    let mut sc = Scorecard::new();
    // Fill all categories except Ones and Twos
    for cat in &[
        Category::Threes, Category::Fours, Category::Fives, Category::Sixes,
        Category::ThreeOfAKind, Category::FourOfAKind, Category::FullHouse,
        Category::SmallStraight, Category::LargeStraight, Category::Yahtzee, Category::Chance,
    ] {
        let _ = sc.record(*cat, 10);
    }
    let mut rng = FaceRng::seed_from(42);
    let cat = choose_category(&dice, &sc, AiDifficulty::Medium, &mut rng);
    // Should pick Twos (score 2) over Ones (score 0), or Twos which actually scores
    assert!(cat == Category::Ones || cat == Category::Twos);
}
