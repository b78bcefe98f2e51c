use yaht::player::Scorecard;
use yaht::scoring::Category;

#[test]
fn test_empty_scorecard() {
    let sc = Scorecard::new();
    assert_eq!(sc.grand_total(), 0);
    assert_eq!(sc.upper_subtotal(), 0);
    assert_eq!(sc.upper_bonus(), 0);
    assert!(!sc.is_complete());
    assert_eq!(sc.available_categories().len(), 13);
}

#[test]
fn test_record_and_total() {
    let mut sc = Scorecard::new();
    sc.record(Category::Ones, 3).unwrap();
    sc.record(Category::Twos, 6).unwrap();
    assert_eq!(sc.upper_subtotal(), 9);
    assert_eq!(sc.grand_total(), 9);
}

#[test]
fn test_duplicate_record() {
    let mut sc = Scorecard::new();
    sc.record(Category::Ones, 3).unwrap();
    assert!(sc.record(Category::Ones, 4).is_err());
}

#[test]
fn test_upper_bonus_not_reached() {
    let mut sc = Scorecard::new();
    sc.record(Category::Ones, 3).unwrap();
    sc.record(Category::Twos, 6).unwrap();
    sc.record(Category::Threes, 9).unwrap();
    sc.record(Category::Fours, 12).unwrap();
    sc.record(Category::Fives, 15).unwrap();
    sc.record(Category::Sixes, 12).unwrap(); // total = 57, below 63
    assert_eq!(sc.upper_bonus(), 0);
}

#[test]
fn test_upper_bonus_reached() {
    let mut sc = Scorecard::new();
    sc.record(Category::Ones, 3).unwrap();
    sc.record(Category::Twos, 6).unwrap();
    sc.record(Category::Threes, 9).unwrap();
    sc.record(Category::Fours, 12).unwrap();
    sc.record(Category::Fives, 15).unwrap();
    sc.record(Category::Sixes, 18).unwrap(); // total = 63, exactly threshold
    assert_eq!(sc.upper_bonus(), 35);
    assert_eq!(
        sc.grand_total(),
        63 + 35 // upper + bonus, no lower scores
    );
}

#[test]
fn test_yahtzee_bonus() {
    let mut sc = Scorecard::new();
    sc.record(Category::Yahtzee, 50).unwrap();
    sc.add_yahtzee_bonus();
    sc.add_yahtzee_bonus();
    assert_eq!(sc.yahtzee_bonus_total(), 200);
}

#[test]
fn test_complete_scorecard() {
    let mut sc = Scorecard::new();
    for cat in Category::all() {
        sc.record(cat, 10).unwrap();
    }
    assert!(sc.is_complete());
    assert_eq!(sc.available_categories().len(), 0);
}

#[test]
fn test_available_categories() {
    let mut sc = Scorecard::new();
    sc.record(Category::Ones, 3).unwrap();
    sc.record(Category::Yahtzee, 50).unwrap();
    let available = sc.available_categories();
    assert_eq!(available.len(), 11);
    assert!(!available.contains(&Category::Ones));
    assert!(!available.contains(&Category::Yahtzee));
}
