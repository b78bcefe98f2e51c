use yaht::dice::{DiceSet, Die, FaceRng};

#[test]
fn test_die_default_value() {
    let die = Die::new();
    assert_eq!(die.value, 1);
    assert!(!die.held);
}

#[test]
fn test_die_roll_changes_value() {
    let mut rng = FaceRng::seed_from(42);
    let mut die = Die::new();
    die.roll(&mut rng);
    assert!((1..=6).contains(&die.value));
}

#[test]
fn test_die_held_does_not_roll() {
    let mut rng = FaceRng::seed_from(42);
    let mut die = Die { value: 3, held: true };
    die.roll(&mut rng);
    assert_eq!(die.value, 3);
}

#[test]
fn test_dice_set_roll_all() {
    let mut rng = FaceRng::seed_from(42);
    let mut dice = DiceSet::new();
    dice.roll_unheld(&mut rng);
    for die in &dice.dice {
        assert!((1..=6).contains(&die.value));
    }
}

#[test]
fn test_dice_set_hold_and_roll() {
    let mut rng = FaceRng::seed_from(42);
    let mut dice = DiceSet::new();
    dice.roll_unheld(&mut rng);
    let first_values = dice.values();

    dice.set_held([true, true, false, false, false]);
    dice.roll_unheld(&mut rng);

    assert_eq!(dice.dice[0].value, first_values[0]);
    assert_eq!(dice.dice[1].value, first_values[1]);
}

#[test]
fn test_dice_set_release_all() {
    let mut dice = DiceSet::new();
    dice.set_held([true, true, true, true, true]);
    dice.release_all();
    for die in &dice.dice {
        assert!(!die.held);
    }
}

#[test]
fn test_sorted_values() {
    let mut dice = DiceSet::new();
    dice.dice[0].value = 5;
    dice.dice[1].value = 3;
    dice.dice[2].value = 1;
    dice.dice[3].value = 4;
    dice.dice[4].value = 2;
    assert_eq!(dice.sorted_values(), [1, 2, 3, 4, 5]);
}
