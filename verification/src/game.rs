//! The per-turn and per-game state machines: roll counting, hold legality,
//! turn advance, round counting, win resolution, and snapshots.

use vstd::prelude::*;
use crate::dice::{DiceSet, FaceRng, MAX_ROLLS};
use crate::player::{Player, Scorecard};
use crate::scoring::{self, Category};

verus! {

/// The errors the game engine reports for illegal actions. Each is a caller
/// error, reported to the offending client and never a crash.
#[derive(Debug, Clone, Copy, PartialEq, Eq, Structural)]
pub enum GameError {
    CannotRoll,
    CannotHold,
    CannotScore,
    NoActiveTurn,
    CategoryAlreadyScored,
    NotEnoughPlayers,
    TooManyPlayers,
    NotYourTurn,
    GameNotInProgress,
}

impl GameError {
    /// The human-readable description of the error.
    pub fn message(&self) -> &'static str {
        match self {
            GameError::CannotRoll => "cannot roll now",
            GameError::CannotHold => "cannot hold dice now",
            GameError::CannotScore => "cannot score now",
            GameError::NoActiveTurn => "no active turn",
            GameError::CategoryAlreadyScored => "category already scored",
            GameError::NotEnoughPlayers => "not enough players (need 2-6)",
            GameError::TooManyPlayers => "too many players (max 6)",
            GameError::NotYourTurn => "not your turn",
            GameError::GameNotInProgress => "game not in progress",
        }
    }
}

/// The phase of one turn: waiting for the first roll, between rolls, out of
/// rolls, or discarded.
#[derive(Debug, Clone, Copy, PartialEq, Eq, Structural)]
pub enum TurnPhase {
    WaitingForRoll,
    Rolling { rolls_used: u8 },
    MustScore,
    Done,
}

/// The state of the current player's turn: their id, the dice, and how many
/// of the three rolls they have used.
#[derive(Debug, Clone, PartialEq, Eq)]
pub struct TurnState {
    pub player_id: u64,
    pub phase: TurnPhase,
    pub dice: DiceSet,
    pub rolls_used: u8,
}

impl TurnState {
    /// A turn is well formed when the dice are well formed and the phase
    /// agrees with the roll counter.
    pub open spec fn wf(&self) -> bool {
        &&& self.dice.wf()
        &&& self.rolls_used <= 3
        &&& (self.phase is WaitingForRoll ==> self.rolls_used == 0)
        &&& (self.phase matches TurnPhase::Rolling { rolls_used }
            ==> rolls_used == self.rolls_used && 1 <= self.rolls_used < 3)
        &&& (self.phase is MustScore ==> self.rolls_used == 3)
    }

    /// Rolling is legal while fewer than three rolls are used and the turn
    /// has not reached the scoring-only phase.
    pub open spec fn spec_can_roll(&self) -> bool {
        self.rolls_used < 3 && (self.phase is WaitingForRoll || self.phase is Rolling)
    }

    /// Holding is legal only between rolls.
    pub open spec fn spec_can_hold(&self) -> bool {
        self.phase is Rolling
    }

    /// Scoring is legal as soon as the player has rolled at least once.
    pub open spec fn spec_can_score(&self) -> bool {
        self.phase is Rolling || self.phase is MustScore
    }

    /// A fresh turn for the given player: no rolls used, five fresh dice.
    pub fn new(player_id: u64) -> (t: TurnState)
        ensures
            t.wf(),
            t.player_id == player_id,
            t.phase == TurnPhase::WaitingForRoll,
            t.rolls_used == 0,
            forall|i: int| 0 <= i < 5 ==> !(#[trigger] t.dice.dice@[i]).held,
    {
        TurnState {
            player_id,
            phase: TurnPhase::WaitingForRoll,
            dice: DiceSet::new(),
            rolls_used: 0,
        }
    }

    /// Whether a roll is legal now.
    pub fn can_roll(&self) -> (r: bool)
        ensures
            r == self.spec_can_roll(),
    {
        self.rolls_used < MAX_ROLLS
            && matches!(self.phase, TurnPhase::WaitingForRoll | TurnPhase::Rolling { .. })
    }

    /// Whether holding dice is legal now.
    pub fn can_hold(&self) -> (r: bool)
        ensures
            r == self.spec_can_hold(),
    {
        matches!(self.phase, TurnPhase::Rolling { .. })
    }

    /// Whether scoring is legal now.
    pub fn can_score(&self) -> (r: bool)
        ensures
            r == self.spec_can_score(),
    {
        matches!(self.phase, TurnPhase::Rolling { .. } | TurnPhase::MustScore)
    }

    /// Roll all unheld dice. Outside the legal phases — in particular after
    /// the third roll — this always fails and nothing changes. On the very
    /// first roll of a turn every hold is released first; on later rolls a
    /// held die keeps its value.
    pub fn roll(&mut self, rng: &mut FaceRng) -> (r: Result<(), GameError>)
        requires
            old(self).wf(),
        ensures
            final(self).wf(),
            !old(self).spec_can_roll() ==> r == Err::<(), GameError>(GameError::CannotRoll)
                && *final(self) == *old(self),
            old(self).spec_can_roll() ==> {
                &&& r == Ok::<(), GameError>(())
                &&& final(self).player_id == old(self).player_id
                &&& final(self).rolls_used == old(self).rolls_used + 1
                &&& final(self).phase == (if old(self).rolls_used + 1 >= 3 {
                    TurnPhase::MustScore
                } else {
                    TurnPhase::Rolling { rolls_used: (old(self).rolls_used + 1) as u8 }
                })
                &&& final(self).spec_can_score()
                &&& (old(self).rolls_used == 0 ==> forall|i: int|
                    0 <= i < 5 ==> !(#[trigger] final(self).dice.dice@[i]).held)
                &&& (old(self).rolls_used > 0 ==> forall|i: int|
                    0 <= i < 5 ==> (#[trigger] final(self).dice.dice@[i]).held
                        == old(self).dice.dice@[i].held)
                &&& (old(self).rolls_used > 0 ==> forall|i: int|
                    0 <= i < 5 && old(self).dice.dice@[i].held
                        ==> #[trigger] final(self).dice.dice@[i] == old(self).dice.dice@[i])
            },
    {
        if !self.can_roll() {
            return Err(GameError::CannotRoll);
        }
        if self.rolls_used == 0 {
            self.dice.release_all();
        }
        self.dice.roll_unheld(rng);
        self.rolls_used += 1;
        self.phase = if self.rolls_used >= MAX_ROLLS {
            TurnPhase::MustScore
        } else {
            TurnPhase::Rolling { rolls_used: self.rolls_used }
        };
        Ok(())
    }

    /// Set the hold mask. Outside the rolling phase — in particular before
    /// any roll — this always fails and nothing changes; otherwise the mask
    /// is copied onto the dice and no value changes.
    pub fn hold(&mut self, held: [bool; 5]) -> (r: Result<(), GameError>)
        requires
            old(self).wf(),
        ensures
            final(self).wf(),
            !old(self).spec_can_hold() ==> r == Err::<(), GameError>(GameError::CannotHold)
                && *final(self) == *old(self),
            old(self).spec_can_hold() ==> {
                &&& r == Ok::<(), GameError>(())
                &&& final(self).player_id == old(self).player_id
                &&& final(self).phase == old(self).phase
                &&& final(self).rolls_used == old(self).rolls_used
                &&& forall|i: int| 0 <= i < 5
                    ==> (#[trigger] final(self).dice.dice@[i]).value == old(self).dice.dice@[i].value
                &&& forall|i: int| 0 <= i < 5
                    ==> (#[trigger] final(self).dice.dice@[i]).held == held@[i]
            },
    {
        if !self.can_hold() {
            return Err(GameError::CannotHold);
        }
        self.dice.set_held(held);
        Ok(())
    }
}

/// The phase of one game.
#[derive(Debug, Clone, Copy, PartialEq, Eq, Structural)]
pub enum GamePhase {
    Lobby,
    Playing,
    Finished,
}

/// Every player's scorecard is well formed and holds no more bonus credits
/// than recorded categories.
pub open spec fn players_wf(players: Seq<Player>) -> bool {
    forall|i: int| 0 <= i < players.len() ==> {
        &&& (#[trigger] players[i]).scorecard.wf()
        &&& players[i].scorecard.yahtzee_bonus_count <= players[i].scorecard.filled()
    }
}

/// One game: its phase, the fixed player order, whose turn it is, the
/// current turn state, and the round counters.
#[derive(Debug, Clone)]
pub struct GameState {
    pub phase: GamePhase,
    pub players: Vec<Player>,
    pub current_player_index: usize,
    pub turn: Option<TurnState>,
    pub round: u8,
    pub total_rounds: u8,
}

impl GameState {
    /// The invariant a game keeps from start to finish. While playing there
    /// is a turn, it belongs to the current player, and each player has
    /// recorded exactly one category per completed turn; a finished game has
    /// no turn and every scorecard is complete.
    pub open spec fn wf(&self) -> bool {
        &&& players_wf(self.players@)
        &&& (self.phase is Lobby ==> self.turn is None)
        &&& (self.phase is Playing ==> {
            &&& 1 <= self.players@.len() <= 6
            &&& self.current_player_index < self.players@.len()
            &&& self.total_rounds == 13
            &&& 1 <= self.round <= 13
            &&& self.turn matches Some(t) && t.wf() && t.player_id == self.players@[
                self.current_player_index as int
            ].id
            &&& forall|i: int| 0 <= i < self.players@.len()
                ==> (#[trigger] self.players@[i]).scorecard.filled() == self.round - 1 + (
                if i < self.current_player_index { 1int } else { 0int })
        })
        &&& (self.phase is Finished ==> {
            &&& self.turn is None
            &&& self.players@.len() >= 1
            &&& self.current_player_index < self.players@.len()
            &&& forall|i: int| 0 <= i < self.players@.len()
                ==> (#[trigger] self.players@[i]).scorecard.filled() == 13
        })
    }

    /// A game in the lobby phase over the given players, not yet started.
    pub fn new(players: Vec<Player>) -> (g: GameState)
        ensures
            g.phase == GamePhase::Lobby,
            g.players@ == players@,
            g.current_player_index == 0,
            g.turn is None,
            g.round == 0,
            g.total_rounds == 13,
            players_wf(players@) ==> g.wf(),
    {
        GameState {
            phase: GamePhase::Lobby,
            players,
            current_player_index: 0,
            turn: None,
            round: 0,
            total_rounds: 13,
        }
    }

    /// Start the game: exactly 2 to 6 players; fewer or more always fails
    /// and nothing changes. On success round 1 begins with the first player
    /// on a fresh turn.
    pub fn start(&mut self) -> (r: Result<(), GameError>)
        requires
            old(self).phase is Lobby,
            old(self).total_rounds == 13,
            players_wf(old(self).players@),
            forall|i: int| 0 <= i < old(self).players@.len()
                ==> (#[trigger] old(self).players@[i]).scorecard.filled() == 0,
        ensures
            old(self).players@.len() < 2 ==> r == Err::<(), GameError>(GameError::NotEnoughPlayers)
                && *final(self) == *old(self),
            old(self).players@.len() > 6 ==> r == Err::<(), GameError>(GameError::TooManyPlayers)
                && *final(self) == *old(self),
            2 <= old(self).players@.len() <= 6 ==> {
                &&& r == Ok::<(), GameError>(())
                &&& final(self).wf()
                &&& final(self).phase == GamePhase::Playing
                &&& final(self).players@ == old(self).players@
                &&& final(self).round == 1
                &&& final(self).current_player_index == 0
                &&& final(self).turn matches Some(t) && t.player_id == old(self).players@[0].id
                    && t.rolls_used == 0 && t.phase == TurnPhase::WaitingForRoll
            },
    {
        if self.players.len() < 2 {
            return Err(GameError::NotEnoughPlayers);
        }
        if self.players.len() > 6 {
            return Err(GameError::TooManyPlayers);
        }
        self.phase = GamePhase::Playing;
        self.round = 1;
        self.current_player_index = 0;
        let id = self.players[0].id;
        self.turn = Some(TurnState::new(id));
        Ok(())
    }

    /// Start a game with one or more players, relaxing the minimum for solo
    /// sessions against machine opponents.
    pub fn start_solo(&mut self) -> (r: Result<(), GameError>)
        requires
            old(self).phase is Lobby,
            old(self).total_rounds == 13,
            players_wf(old(self).players@),
            forall|i: int| 0 <= i < old(self).players@.len()
                ==> (#[trigger] old(self).players@[i]).scorecard.filled() == 0,
        ensures
            old(self).players@.len() == 0 ==> r == Err::<(), GameError>(GameError::NotEnoughPlayers)
                && *final(self) == *old(self),
            old(self).players@.len() > 6 ==> r == Err::<(), GameError>(GameError::TooManyPlayers)
                && *final(self) == *old(self),
            1 <= old(self).players@.len() <= 6 ==> {
                &&& r == Ok::<(), GameError>(())
                &&& final(self).wf()
                &&& final(self).phase == GamePhase::Playing
                &&& final(self).players@ == old(self).players@
                &&& final(self).round == 1
                &&& final(self).current_player_index == 0
                &&& final(self).turn matches Some(t) && t.player_id == old(self).players@[0].id
                    && t.rolls_used == 0 && t.phase == TurnPhase::WaitingForRoll
            },
    {
        if self.players.is_empty() {
            return Err(GameError::NotEnoughPlayers);
        }
        if self.players.len() > 6 {
            return Err(GameError::TooManyPlayers);
        }
        self.phase = GamePhase::Playing;
        self.round = 1;
        self.current_player_index = 0;
        let id = self.players[0].id;
        self.turn = Some(TurnState::new(id));
        Ok(())
    }

    /// The player whose turn it is.
    pub fn current_player(&self) -> (p: &Player)
        requires
            self.current_player_index < self.players@.len(),
        ensures
            *p == self.players@[self.current_player_index as int],
    {
        &self.players[self.current_player_index]
    }

    /// A mutable borrow of the player whose turn it is.
    pub fn current_player_mut(&mut self) -> (p: &mut Player)
        requires
            old(self).current_player_index < old(self).players@.len(),
        ensures
            *p == old(self).players@[old(self).current_player_index as int],
            final(self).players@ == old(self).players@.update(
                old(self).current_player_index as int,
                *final(p),
            ),
            final(self).phase == old(self).phase,
            final(self).current_player_index == old(self).current_player_index,
            final(self).turn == old(self).turn,
            final(self).round == old(self).round,
            final(self).total_rounds == old(self).total_rounds,
    {
        &mut self.players[self.current_player_index]
    }

    /// Whether the given player is the one whose turn it is.
    pub fn is_current_player(&self, player_id: u64) -> (r: bool)
        requires
            self.current_player_index < self.players@.len(),
        ensures
            r == (self.players@[self.current_player_index as int].id == player_id),
    {
        self.players[self.current_player_index].id == player_id
    }

    /// Roll the current player's unheld dice. Fails, with nothing changed,
    /// when the game is not in progress, the caller is not the current
    /// player, or the turn allows no further roll.
    pub fn roll_dice(&mut self, player_id: u64, rng: &mut FaceRng) -> (r: Result<(), GameError>)
        requires
            old(self).wf(),
        ensures
            final(self).wf(),
            !(old(self).phase is Playing) ==> r == Err::<(), GameError>(
                GameError::GameNotInProgress,
            ) && *final(self) == *old(self),
            old(self).phase is Playing && old(self).players@[
                old(self).current_player_index as int
            ].id != player_id ==> r == Err::<(), GameError>(GameError::NotYourTurn)
                && *final(self) == *old(self),
            old(self).phase is Playing && old(self).players@[
                old(self).current_player_index as int
            ].id == player_id ==> {
                let t0 = old(self).turn->Some_0;
                &&& final(self).phase == old(self).phase
                &&& final(self).players@ == old(self).players@
                &&& final(self).current_player_index == old(self).current_player_index
                &&& final(self).round == old(self).round
                &&& (!t0.spec_can_roll() ==> r == Err::<(), GameError>(GameError::CannotRoll)
                    && *final(self) == *old(self))
                &&& (t0.spec_can_roll() ==> {
                    &&& r == Ok::<(), GameError>(())
                    &&& final(self).turn matches Some(t1)
                    &&& t1.player_id == t0.player_id
                    &&& t1.rolls_used == t0.rolls_used + 1
                    &&& t1.spec_can_score()
                    &&& (t0.rolls_used > 0 ==> forall|i: int|
                        0 <= i < 5 && t0.dice.dice@[i].held
                            ==> #[trigger] t1.dice.dice@[i] == t0.dice.dice@[i])
                })
            },
    {
        if self.phase != GamePhase::Playing {
            return Err(GameError::GameNotInProgress);
        }
        if !self.is_current_player(player_id) {
            return Err(GameError::NotYourTurn);
        }
        match &mut self.turn {
            Some(t) => t.roll(rng),
            None => Err(GameError::NoActiveTurn),
        }
    }

    /// Set the current player's hold mask. Fails, with nothing changed,
    /// when the game is not in progress, the caller is not the current
    /// player, or the turn is not between rolls.
    pub fn hold_dice(&mut self, player_id: u64, held: [bool; 5]) -> (r: Result<(), GameError>)
        requires
            old(self).wf(),
        ensures
            final(self).wf(),
            !(old(self).phase is Playing) ==> r == Err::<(), GameError>(
                GameError::GameNotInProgress,
            ) && *final(self) == *old(self),
            old(self).phase is Playing && old(self).players@[
                old(self).current_player_index as int
            ].id != player_id ==> r == Err::<(), GameError>(GameError::NotYourTurn)
                && *final(self) == *old(self),
            old(self).phase is Playing && old(self).players@[
                old(self).current_player_index as int
            ].id == player_id ==> {
                let t0 = old(self).turn->Some_0;
                &&& final(self).phase == old(self).phase
                &&& final(self).players@ == old(self).players@
                &&& final(self).current_player_index == old(self).current_player_index
                &&& final(self).round == old(self).round
                &&& (!t0.spec_can_hold() ==> r == Err::<(), GameError>(GameError::CannotHold)
                    && *final(self) == *old(self))
                &&& (t0.spec_can_hold() ==> {
                    &&& r == Ok::<(), GameError>(())
                    &&& final(self).turn matches Some(t1)
                    &&& t1.phase == t0.phase
                    &&& t1.rolls_used == t0.rolls_used
                    &&& forall|i: int| 0 <= i < 5
                        ==> (#[trigger] t1.dice.dice@[i]).value == t0.dice.dice@[i].value
                    &&& forall|i: int| 0 <= i < 5
                        ==> (#[trigger] t1.dice.dice@[i]).held == held@[i]
                })
            },
    {
        if self.phase != GamePhase::Playing {
            return Err(GameError::GameNotInProgress);
        }
        if !self.is_current_player(player_id) {
            return Err(GameError::NotYourTurn);
        }
        match &mut self.turn {
            Some(t) => t.hold(held),
            None => Err(GameError::NoActiveTurn),
        }
    }

    /// The joker condition: the dice are a literal Yahtzee and the player
    /// has already banked 50 in the Yahtzee category.
    pub open spec fn spec_joker_active(&self) -> bool {
        &&& scoring::yahtzee(self.turn->Some_0.dice.values_seq())
        &&& self.players@[self.current_player_index as int].scorecard.score_at(Category::Yahtzee)
            == Some(50u16)
    }

    /// Score a category for the current player and advance the turn.
    ///
    /// Fails, with nothing changed, when the game is not in progress, the
    /// caller is not the current player, the turn has not seen a roll, or
    /// the category is already recorded — the duplicate check comes before
    /// the joker credit, so a rejected call is a complete no-op.
    ///
    /// On success: when the roll is a repeat Yahtzee (the joker condition),
    /// one bonus credit is granted and the joker table applies; the score is
    /// recorded in the one chosen category; the turn passes to the next
    /// player, the round advancing on wrap-around; after the final round
    /// the game is finished and the turn is dropped.
    pub fn score_category(&mut self, player_id: u64, category: Category) -> (r: Result<
        u16,
        GameError,
    >)
        requires
            old(self).wf(),
        ensures
            final(self).wf(),
            !(old(self).phase is Playing) ==> r == Err::<u16, GameError>(
                GameError::GameNotInProgress,
            ) && *final(self) == *old(self),
            old(self).phase is Playing && old(self).players@[
                old(self).current_player_index as int
            ].id != player_id ==> r == Err::<u16, GameError>(GameError::NotYourTurn)
                && *final(self) == *old(self),
            old(self).phase is Playing && old(self).players@[
                old(self).current_player_index as int
            ].id == player_id && !old(self).turn->Some_0.spec_can_score() ==> r == Err::<
                u16,
                GameError,
            >(GameError::CannotScore) && *final(self) == *old(self),
            old(self).phase is Playing && old(self).players@[
                old(self).current_player_index as int
            ].id == player_id && old(self).turn->Some_0.spec_can_score() && old(self).players@[
                old(self).current_player_index as int
            ].scorecard.score_at(category) is Some ==> r == Err::<u16, GameError>(
                GameError::CategoryAlreadyScored,
            ) && *final(self) == *old(self),
            (old(self).phase is Playing && old(self).players@[
                old(self).current_player_index as int
            ].id == player_id && old(self).turn->Some_0.spec_can_score() && old(self).players@[
                old(self).current_player_index as int
            ].scorecard.score_at(category) is None) ==> {
                let idx = old(self).current_player_index as int;
                let cur0 = old(self).players@[idx];
                let vals = old(self).turn->Some_0.dice.values_seq();
                let joker = old(self).spec_joker_active();
                let score = scoring::spec_score_joker(category, vals, joker);
                let cur1 = final(self).players@[idx];
                &&& r == Ok::<u16, GameError>(score as u16)
                &&& 0 <= score <= 50
                &&& final(self).players@.len() == old(self).players@.len()
                &&& cur1.scorecard.scores@ == cur0.scorecard.scores@.update(
                    scoring::cat_index(category),
                    Some(score as u16),
                )
                &&& cur1.scorecard.yahtzee_bonus_count == cur0.scorecard.yahtzee_bonus_count + (
                if joker { 1int } else { 0int })
                &&& cur1.id == cur0.id && cur1.name == cur0.name
                &&& forall|i: int| 0 <= i < old(self).players@.len() && i != idx
                    ==> final(self).players@[i] == old(self).players@[i]
                &&& (idx + 1 < old(self).players@.len() ==> {
                    &&& final(self).phase == GamePhase::Playing
                    &&& final(self).current_player_index == idx + 1
                    &&& final(self).round == old(self).round
                    &&& final(self).turn matches Some(t) && t.player_id == old(self).players@[
                        idx + 1
                    ].id && t.rolls_used == 0 && t.phase == TurnPhase::WaitingForRoll
                })
                &&& (idx + 1 == old(self).players@.len() && old(self).round < 13 ==> {
                    &&& final(self).phase == GamePhase::Playing
                    &&& final(self).current_player_index == 0
                    &&& final(self).round == old(self).round + 1
                    &&& final(self).turn matches Some(t) && t.player_id == old(self).players@[
                        0
                    ].id && t.rolls_used == 0 && t.phase == TurnPhase::WaitingForRoll
                })
                &&& (idx + 1 == old(self).players@.len() && old(self).round == 13 ==> {
                    &&& final(self).phase == GamePhase::Finished
                    &&& final(self).turn is None
                })
            },
    {
        if self.phase != GamePhase::Playing {
            return Err(GameError::GameNotInProgress);
        }
        if !self.is_current_player(player_id) {
            return Err(GameError::NotYourTurn);
        }
        let (vals, can) = match &self.turn {
            Some(t) => (t.dice.values(), t.can_score()),
            None => {
                return Err(GameError::NoActiveTurn);
            }
        };
        if !can {
            return Err(GameError::CannotScore);
        }

        let idx = self.current_player_index;
        // Duplicate-category check first: a rejected call mutates nothing.
        if self.players[idx].scorecard.is_category_used(category) {
            return Err(GameError::CategoryAlreadyScored);
        }

        let is_yahtzee = scoring::compute_score(Category::Yahtzee, &vals) == 50;

        // Joker condition: a repeat Yahtzee after banking 50 for the
        // Yahtzee category grants one bonus credit and the joker table.
        let joker_active = is_yahtzee && {
            let prev = self.players[idx].scorecard.get_score(Category::Yahtzee);
            match prev {
                Some(s) => s == 50,
                None => false,
            }
        };

        if joker_active {
            self.players[idx].scorecard.add_yahtzee_bonus();
        }

        let score = scoring::compute_score_joker(category, &vals, joker_active);
        let rec = self.players[idx].scorecard.record(category, score);
        proof {
            assert(rec is Ok);
        }

        self.advance_turn();
        Ok(score)
    }

    /// Pass the turn to the next player, advancing the round on wrap-around
    /// and finishing the game after the last round.
    fn advance_turn(&mut self)
        requires
            old(self).phase is Playing,
            players_wf(old(self).players@),
            1 <= old(self).players@.len() <= 6,
            old(self).current_player_index < old(self).players@.len(),
            old(self).total_rounds == 13,
            1 <= old(self).round <= 13,
            forall|i: int| 0 <= i < old(self).players@.len()
                ==> (#[trigger] old(self).players@[i]).scorecard.filled() == old(self).round - 1 + (
                if i <= old(self).current_player_index { 1int } else { 0int }),
        ensures
            final(self).wf(),
            final(self).players@ == old(self).players@,
            final(self).total_rounds == old(self).total_rounds,
            old(self).current_player_index + 1 < old(self).players@.len() ==> {
                &&& final(self).phase == GamePhase::Playing
                &&& final(self).current_player_index == old(self).current_player_index + 1
                &&& final(self).round == old(self).round
                &&& final(self).turn matches Some(t) && t.player_id == old(self).players@[
                    old(self).current_player_index + 1
                ].id && t.rolls_used == 0 && t.phase == TurnPhase::WaitingForRoll
            },
            old(self).current_player_index + 1 == old(self).players@.len() && old(self).round < 13
                ==> {
                &&& final(self).phase == GamePhase::Playing
                &&& final(self).current_player_index == 0
                &&& final(self).round == old(self).round + 1
                &&& final(self).turn matches Some(t) && t.player_id == old(self).players@[0].id
                    && t.rolls_used == 0 && t.phase == TurnPhase::WaitingForRoll
            },
            old(self).current_player_index + 1 == old(self).players@.len() && old(self).round == 13
                ==> {
                &&& final(self).phase == GamePhase::Finished
                &&& final(self).turn is None
            },
    {
        self.current_player_index += 1;
        if self.current_player_index >= self.players.len() {
            self.current_player_index = 0;
            self.round += 1;
        }
        if self.round > self.total_rounds {
            self.phase = GamePhase::Finished;
            self.turn = None;
        } else {
            let id = self.players[self.current_player_index].id;
            self.turn = Some(TurnState::new(id));
        }
    }

    /// The winner of a finished game: the player with the maximum grand
    /// total. A game that is not finished has no winner. Among tied
    /// players the one earliest in seating order wins; the tie rule is
    /// otherwise unspecified, and this order is a deliberate choice.
    pub fn winner(&self) -> (r: Option<&Player>)
        requires
            self.wf(),
        ensures
            !(self.phase is Finished) ==> r is None,
            self.phase is Finished ==> (r matches Some(p) && exists|i: int| {
                &&& 0 <= i < self.players@.len()
                &&& *p == self.players@[i]
                &&& (forall|j: int| 0 <= j < self.players@.len()
                    ==> (#[trigger] self.players@[j]).scorecard.spec_grand_total()
                        <= self.players@[i].scorecard.spec_grand_total())
                &&& (forall|j: int| 0 <= j < i
                    ==> (#[trigger] self.players@[j]).scorecard.spec_grand_total()
                        < self.players@[i].scorecard.spec_grand_total())
            }),
    {
        if self.phase != GamePhase::Finished {
            return None;
        }
        let mut best: usize = 0;
        let mut best_total: u32 = self.players[0].scorecard.grand_total();
        let mut k: usize = 1;
        while k < self.players.len()
            invariant
                self.wf(),
                self.players@.len() >= 1,
                best < k <= self.players@.len(),
                best_total == self.players@[best as int].scorecard.spec_grand_total(),
                forall|j: int| 0 <= j < k
                    ==> (#[trigger] self.players@[j]).scorecard.spec_grand_total() <= best_total,
                forall|j: int| 0 <= j < best as int
                    ==> (#[trigger] self.players@[j]).scorecard.spec_grand_total() < best_total,
            decreases self.players@.len() - k,
        {
            let total = self.players[k].scorecard.grand_total();
            if total > best_total {
                best = k;
                best_total = total;
            }
            k += 1;
        }
        Some(&self.players[best])
    }

    /// A read-only projection of the game for clients: phase, players with
    /// their scorecards, whose turn it is, the visible dice and turn phase,
    /// and the round counters. It shares no state with the live game.
    pub fn snapshot(&self) -> (s: GameStateSnapshot)
        requires
            self.wf(),
        ensures
            s.phase == self.phase,
            s.current_player_index == self.current_player_index,
            s.round == self.round,
            s.total_rounds == self.total_rounds,
            s.players@.len() == self.players@.len(),
            forall|i: int| 0 <= i < self.players@.len() ==> {
                let p = #[trigger] self.players@[i];
                let q = s.players@[i];
                &&& q.id == p.id
                &&& q.name@ == p.name@
                &&& q.connected == p.connected
                &&& q.scorecard.scores@ == p.scorecard.scores@
                &&& q.scorecard.yahtzee_bonus_count == p.scorecard.yahtzee_bonus_count
            },
            self.turn matches Some(t) ==> {
                &&& s.dice matches Some(d) && d.dice@ == t.dice.dice@
                &&& s.turn_phase == Some(t.phase)
                &&& s.rolls_used == t.rolls_used
            },
            self.turn is None ==> s.dice is None && s.turn_phase is None && s.rolls_used == 0,
    {
        let mut players: Vec<PlayerSnapshot> = Vec::new();
        let mut k: usize = 0;
        let n = self.players.len();
        while k < n
            invariant
                k <= n,
                n == self.players@.len(),
                players_wf(self.players@),
                players@.len() == k,
                forall|i: int| 0 <= i < k ==> {
                    let p = #[trigger] self.players@[i];
                    let q = players@[i];
                    &&& q.id == p.id
                    &&& q.name@ == p.name@
                    &&& q.connected == p.connected
                    &&& q.scorecard.scores@ == p.scorecard.scores@
                    &&& q.scorecard.yahtzee_bonus_count == p.scorecard.yahtzee_bonus_count
                },
            decreases n - k,
        {
            let p = &self.players[k];
            players.push(PlayerSnapshot {
                id: p.id,
                name: p.name.clone(),
                scorecard: p.scorecard.duplicate(),
                connected: p.connected,
            });
            k += 1;
        }
        let (dice, turn_phase, rolls_used) = match &self.turn {
            Some(t) => (Some(t.dice.duplicate()), Some(t.phase), t.rolls_used),
            None => (None, None, 0),
        };
        GameStateSnapshot {
            phase: self.phase,
            players,
            current_player_index: self.current_player_index,
            dice,
            turn_phase,
            rolls_used,
            round: self.round,
            total_rounds: self.total_rounds,
        }
    }
}

/// A finished game leaves nothing half-done: it has at least one player and
/// every player's scorecard is complete, so a winner is defined.
pub proof fn lemma_finished_game_complete(g: GameState)
    requires
        g.wf(),
        g.phase is Finished,
    ensures
        g.players@.len() >= 1,
        forall|i: int| 0 <= i < g.players@.len()
            ==> (#[trigger] g.players@[i]).scorecard.filled() == 13,
        forall|i: int, c: Category| 0 <= i < g.players@.len()
            ==> (#[trigger] g.players@[i].scorecard.score_at(c)) is Some,
{
    assert forall|i: int, c: Category| 0 <= i < g.players@.len() implies (#[trigger] g.players@[
        i
    ].scorecard.score_at(c)) is Some by {
        crate::player::lemma_count_filled_full(g.players@[i].scorecard.scores@, 13);
        crate::scoring::lemma_cat_index_bijective(c);
    }
}

/// The per-player projection inside a game snapshot.
#[derive(Debug, Clone)]
pub struct PlayerSnapshot {
    pub id: u64,
    pub name: String,
    pub scorecard: Scorecard,
    pub connected: bool,
}

/// The read-only projection of a game that is sent to clients.
#[derive(Debug, Clone)]
pub struct GameStateSnapshot {
    pub phase: GamePhase,
    pub players: Vec<PlayerSnapshot>,
    pub current_player_index: usize,
    pub dice: Option<DiceSet>,
    pub turn_phase: Option<TurnPhase>,
    pub rolls_used: u8,
    pub round: u8,
    pub total_rounds: u8,
}

} // verus!
