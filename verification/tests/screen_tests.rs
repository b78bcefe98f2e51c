use yaht::dice::{DiceSet, FaceRng};
use yaht::screen::{die_face, truncate_name, ConnectField, ConnectScreen, RollAnimation};

#[test]
fn test_connect_screen_editing() {
    let mut s = ConnectScreen::new();
    assert_eq!(s.active_field, ConnectField::Name);
    s.type_char('J');
    s.type_char('o');
    s.type_char('x');
    s.backspace();
    assert_eq!(s.name, "Jo");
    s.switch_field();
    assert_eq!(s.active_field, ConnectField::Host);
    s.backspace();
    assert_eq!(s.host, "127.0.0.1:987");
}

#[test]
fn test_roll_animation_settles() {
    let mut rng = FaceRng::seed_from(3);
    let mut dice = DiceSet::new();
    dice.roll_unheld(&mut rng);
    dice.set_held([true, false, false, false, true]);
    let held0 = dice.dice[0].value;
    let mut anim = RollAnimation::new(dice, 1000);
    assert!(!anim.is_done(1000));
    assert!(anim.tick(1100, &mut rng));
    let shown = anim.display_dice();
    assert_eq!(shown[0].value, held0);
    assert!(shown[0].held);
    assert!(anim.is_done(1600));
}

#[test]
fn test_die_face_rows() {
    let (top, mid, bot) = die_face(1);
    assert_eq!(top, "     ");
    assert_eq!(mid, "  *  ");
    assert_eq!(bot, "     ");
}

#[test]
fn test_truncate_name_shortens() {
    assert_eq!(truncate_name("Al", 10), "Al");
    assert_eq!(truncate_name("Alexandra", 5), "Alex.");
}
