use yaht::dice::FaceRng;
use yaht::game::{GameError, GamePhase, GameState, TurnPhase};
use yaht::player::Player;
use yaht::scoring::Category;

fn make_players(n: usize) -> Vec<Player> {
    (0..n).map(|i| Player::new(i as u64 + 1, format!("Player{}", i + 1))).collect()
}

#[test]
fn test_game_start_requires_min_players() {
    let mut game = GameState::new(vec![Player::new(7, "Solo".into())]);
    assert!(matches!(game.start(), Err(GameError::NotEnoughPlayers)));
}

#[test]
fn test_game_start_max_players() {
    let mut game = GameState::new(make_players(7));
    assert!(matches!(game.start(), Err(GameError::TooManyPlayers)));
}

#[test]
fn test_game_start_success() {
    let mut game = GameState::new(make_players(2));
    assert!(game.start().is_ok());
    assert_eq!(game.phase, GamePhase::Playing);
    assert_eq!(game.round, 1);
    assert!(game.turn.is_some());
}

#[test]
fn test_turn_roll_and_score() {
    let mut rng = FaceRng::seed_from(42);
    let players = make_players(2);
    let p1_id = players[0].id;
    let mut game = GameState::new(players);
    game.start().unwrap();

    // Player 1 rolls
    game.roll_dice(p1_id, &mut rng).unwrap();
    assert!(game.turn.as_ref().unwrap().can_score());

    // Player 1 scores Chance
    let score = game.score_category(p1_id, Category::Chance).unwrap();
    assert!(score > 0);

    // Now it should be player 2's turn
    assert_eq!(game.current_player_index, 1);
}

#[test]
fn test_wrong_player_cannot_act() {
    let mut rng = FaceRng::seed_from(42);
    let players = make_players(2);
    let p2_id = players[1].id;
    let mut game = GameState::new(players);
    game.start().unwrap();

    assert!(matches!(game.roll_dice(p2_id, &mut rng), Err(GameError::NotYourTurn)));
}

#[test]
fn test_cannot_score_before_rolling() {
    let players = make_players(2);
    let p1_id = players[0].id;
    let mut game = GameState::new(players);
    game.start().unwrap();

    assert!(matches!(
        game.score_category(p1_id, Category::Chance),
        Err(GameError::CannotScore)
    ));
}

#[test]
fn test_three_rolls_then_must_score() {
    let mut rng = FaceRng::seed_from(42);
    let players = make_players(2);
    let p1_id = players[0].id;
    let mut game = GameState::new(players);
    game.start().unwrap();

    game.roll_dice(p1_id, &mut rng).unwrap();
    game.roll_dice(p1_id, &mut rng).unwrap();
    game.roll_dice(p1_id, &mut rng).unwrap();

    // Fourth roll should fail
    assert!(matches!(game.roll_dice(p1_id, &mut rng), Err(GameError::CannotRoll)));

    // Must score
    assert_eq!(game.turn.as_ref().unwrap().phase, TurnPhase::MustScore);
}

#[test]
fn test_hold_before_roll_fails() {
    let players = make_players(2);
    let p1_id = players[0].id;
    let mut game = GameState::new(players);
    game.start().unwrap();

    assert!(matches!(
        game.hold_dice(p1_id, [true, false, false, false, false]),
        Err(GameError::CannotHold)
    ));
}

#[test]
fn test_full_game_two_players() {
    let mut rng = FaceRng::seed_from(123);
    let players = make_players(2);
    let ids: Vec<u64> = players.iter().map(|p| p.id).collect();
    let mut game = GameState::new(players);
    game.start().unwrap();

    let categories = Category::all();
    for round_idx in 0..13 {
        for player_idx in 0..2 {
            let pid = ids[player_idx];
            assert!(game.is_current_player(pid));

            // Roll once
            game.roll_dice(pid, &mut rng).unwrap();

            // Score a category (use the round_idx to pick one)
            let cat = categories[round_idx];
            game.score_category(pid, cat).unwrap();
        }
    }

    assert_eq!(game.phase, GamePhase::Finished);
    assert!(game.winner().is_some());
}

#[test]
fn test_solo_start_with_one_player() {
    let mut game = GameState::new(make_players(1));
    assert!(game.start_solo().is_ok());
    assert_eq!(game.phase, GamePhase::Playing);
}

#[test]
fn test_solo_start_with_multiple_players() {
    let mut game = GameState::new(make_players(3));
    assert!(game.start_solo().is_ok());
    assert_eq!(game.phase, GamePhase::Playing);
    assert_eq!(game.players.len(), 3);
}

#[test]
fn test_hold_dice_during_turn() {
    let mut rng = FaceRng::seed_from(42);
    let players = make_players(2);
    let p1_id = players[0].id;
    let mut game = GameState::new(players);
    game.start().unwrap();

    // Roll first
    game.roll_dice(p1_id, &mut rng).unwrap();

    // Hold dice 0 and 2
    game.hold_dice(p1_id, [true, false, true, false, false]).unwrap();
    let turn = game.turn.as_ref().unwrap();
    assert!(turn.dice.dice[0].held);
    assert!(!turn.dice.dice[1].held);
    assert!(turn.dice.dice[2].held);

    // Roll again - held dice should keep their values
    let held_val_0 = turn.dice.dice[0].value;
    let held_val_2 = turn.dice.dice[2].value;
    game.roll_dice(p1_id, &mut rng).unwrap();
    let turn = game.turn.as_ref().unwrap();
    assert_eq!(turn.dice.dice[0].value, held_val_0);
    assert_eq!(turn.dice.dice[2].value, held_val_2);
}

#[test]
fn test_category_already_scored() {
    let mut rng = FaceRng::seed_from(42);
    let players = make_players(2);
    let p1_id = players[0].id;
    let p2_id = players[1].id;
    let mut game = GameState::new(players);
    game.start().unwrap();

    // P1 rolls and scores Chance
    game.roll_dice(p1_id, &mut rng).unwrap();
    game.score_category(p1_id, Category::Chance).unwrap();

    // P2 rolls and scores Ones
    game.roll_dice(p2_id, &mut rng).unwrap();
    game.score_category(p2_id, Category::Ones).unwrap();

    // P1 tries to score Chance again - should fail
    game.roll_dice(p1_id, &mut rng).unwrap();
    assert!(matches!(
        game.score_category(p1_id, Category::Chance),
        Err(GameError::CategoryAlreadyScored)
    ));
}

#[test]
fn test_yahtzee_bonus_scoring() {
    let mut rng = FaceRng::seed_from(42);
    let players = make_players(2);
    let p1_id = players[0].id;
    let p2_id = players[1].id;
    let mut game = GameState::new(players);
    game.start().unwrap();

    // Manually set dice to all 5s for yahtzee
    game.roll_dice(p1_id, &mut rng).unwrap();
    let turn = game.turn.as_mut().unwrap();
    for die in &mut turn.dice.dice {
        die.value = 5;
    }

    // Score Yahtzee
    let score = game.score_category(p1_id, Category::Yahtzee).unwrap();
    assert_eq!(score, 50);

    // P2's turn
    game.roll_dice(p2_id, &mut rng).unwrap();
    game.score_category(p2_id, Category::Chance).unwrap();

    // P1 gets another Yahtzee
    game.roll_dice(p1_id, &mut rng).unwrap();
    let turn = game.turn.as_mut().unwrap();
    for die in &mut turn.dice.dice {
        die.value = 5;
    }

    // Score Fives (Yahtzee bonus should be triggered)
    game.score_category(p1_id, Category::Fives).unwrap();
    assert_eq!(game.players[0].scorecard.yahtzee_bonus_count, 1);
}

#[test]
fn test_full_game_six_players() {
    let mut rng = FaceRng::seed_from(777);
    let players = make_players(6);
    let ids: Vec<u64> = players.iter().map(|p| p.id).collect();
    let mut game = GameState::new(players);
    game.start().unwrap();

    let categories = Category::all();
    for round_idx in 0..13 {
        for player_idx in 0..6 {
            let pid = ids[player_idx];
            assert!(game.is_current_player(pid));
            game.roll_dice(pid, &mut rng).unwrap();
            let cat = categories[round_idx];
            game.score_category(pid, cat).unwrap();
        }
    }

    assert_eq!(game.phase, GamePhase::Finished);
    assert!(game.winner().is_some());
    // All players should have complete scorecards
    for player in &game.players {
        assert!(player.scorecard.is_complete());
    }
}

#[test]
fn test_game_not_started_actions_fail() {
    let mut rng = FaceRng::seed_from(42);
    let players = make_players(2);
    let p1_id = players[0].id;
    let game = GameState::new(players);

    // Game is in Lobby phase, should fail
    let mut game_clone = game.clone();
    assert!(matches!(
        game_clone.roll_dice(p1_id, &mut rng),
        Err(GameError::GameNotInProgress)
    ));
}

#[test]
fn test_joker_scores_fixed_straight() {
    // Bank 50 for Yahtzee, then a second Yahtzee fills the large straight
    // at its fixed 40 and grants one bonus credit.
    let mut rng = FaceRng::seed_from(42);
    let players = make_players(2);
    let p1_id = players[0].id;
    let p2_id = players[1].id;
    let mut game = GameState::new(players);
    game.start().unwrap();

    game.roll_dice(p1_id, &mut rng).unwrap();
    for die in &mut game.turn.as_mut().unwrap().dice.dice {
        die.value = 4;
    }
    assert_eq!(game.score_category(p1_id, Category::Yahtzee).unwrap(), 50);

    game.roll_dice(p2_id, &mut rng).unwrap();
    game.score_category(p2_id, Category::Chance).unwrap();

    game.roll_dice(p1_id, &mut rng).unwrap();
    for die in &mut game.turn.as_mut().unwrap().dice.dice {
        die.value = 4;
    }
    assert_eq!(game.score_category(p1_id, Category::LargeStraight).unwrap(), 40);
    assert_eq!(game.players[0].scorecard.yahtzee_bonus_count, 1);
}

#[test]
fn test_round_advances_after_both_act() {
    // Two players, seeded rolls: the first banks Chance on 3,4,2,6,5 for
    // 20, the second banks Ones on 1,1,5,3,2 for 2, and only then does the
    // round counter move on.
    let mut rng = FaceRng::seed_from(9);
    let players = make_players(2);
    let p1_id = players[0].id;
    let p2_id = players[1].id;
    let mut game = GameState::new(players);
    game.start().unwrap();

    game.roll_dice(p1_id, &mut rng).unwrap();
    {
        let dice = &mut game.turn.as_mut().unwrap().dice.dice;
        let faces = [3, 4, 2, 6, 5];
        for (die, v) in dice.iter_mut().zip(faces.iter()) {
            die.value = *v;
        }
    }
    assert_eq!(game.score_category(p1_id, Category::Chance).unwrap(), 20);
    assert_eq!(game.round, 1);

    game.roll_dice(p2_id, &mut rng).unwrap();
    {
        let dice = &mut game.turn.as_mut().unwrap().dice.dice;
        let faces = [1, 1, 5, 3, 2];
        for (die, v) in dice.iter_mut().zip(faces.iter()) {
            die.value = *v;
        }
    }
    assert_eq!(game.score_category(p2_id, Category::Ones).unwrap(), 2);
    assert_eq!(game.round, 2);
}
