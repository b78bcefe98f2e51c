//! Small pieces of client screen state that are pure data: the connect
//! form's fields, the dice-roll animation's state, the die faces, and name
//! shortening for the scoreboard. Drawing itself lives with the terminal.

use vstd::prelude::*;
use crate::dice::{Die, DiceSet, FaceRng};

verus! {

/// Relies on `String::push`: appends exactly one character.
#[verifier::external_body]
fn push_char(s: &mut String, c: char)
    ensures
        final(s)@ == old(s)@.push(c),
{
    s.push(c)
}

/// Relies on `String::pop`: removes and returns the last character, or
/// nothing from an empty string.
#[verifier::external_body]
fn pop_char(s: &mut String) -> (r: Option<char>)
    ensures
        old(s)@.len() == 0 ==> r is None && final(s)@ == old(s)@,
        old(s)@.len() > 0 ==> r == Some(old(s)@.last()) && final(s)@ == old(s)@.drop_last(),
{
    s.pop()
}

/// Which input box of the connect form is active.
#[derive(Debug, Clone, Copy, PartialEq, Eq, Structural)]
pub enum ConnectField {
    Host,
    Name,
}

/// The connect form: a server address, a display name, the active field,
/// and the connection status line.
#[derive(Debug, Clone)]
pub struct ConnectScreen {
    pub host: String,
    pub name: String,
    pub active_field: ConnectField,
    pub error_message: Option<String>,
    pub connecting: bool,
}

impl ConnectScreen {
    /// A fresh form: the default local address, an empty name, the name
    /// field active.
    pub fn new() -> (s: ConnectScreen)
        ensures
            s.host@ == "127.0.0.1:9876"@,
            s.name@.len() == 0,
            s.active_field == ConnectField::Name,
            s.error_message is None,
            !s.connecting,
    {
        ConnectScreen {
            host: String::from_str("127.0.0.1:9876"),
            name: String::new(),
            active_field: ConnectField::Name,
            error_message: None,
            connecting: false,
        }
    }

    /// Move focus to the other field.
    pub fn switch_field(&mut self)
        ensures
            final(self).active_field == (match old(self).active_field {
                ConnectField::Host => ConnectField::Name,
                ConnectField::Name => ConnectField::Host,
            }),
            final(self).host == old(self).host,
            final(self).name == old(self).name,
    {
        self.active_field = match self.active_field {
            ConnectField::Host => ConnectField::Name,
            ConnectField::Name => ConnectField::Host,
        };
    }

    /// Append one character to the active field.
    pub fn type_char(&mut self, c: char)
        ensures
            old(self).active_field is Host ==> final(self).host@ == old(self).host@.push(c)
                && final(self).name == old(self).name,
            old(self).active_field is Name ==> final(self).name@ == old(self).name@.push(c)
                && final(self).host == old(self).host,
            final(self).active_field == old(self).active_field,
    {
        match self.active_field {
            ConnectField::Host => push_char(&mut self.host, c),
            ConnectField::Name => push_char(&mut self.name, c),
        }
    }

    /// Delete the last character of the active field, if any.
    pub fn backspace(&mut self)
        ensures
            old(self).active_field is Host ==> final(self).host@ == (if old(self).host@.len()
                > 0 {
                old(self).host@.drop_last()
            } else {
                old(self).host@
            }) && final(self).name == old(self).name,
            old(self).active_field is Name ==> final(self).name@ == (if old(self).name@.len()
                > 0 {
                old(self).name@.drop_last()
            } else {
                old(self).name@
            }) && final(self).host == old(self).host,
    {
        match self.active_field {
            ConnectField::Host => {
                let _ = pop_char(&mut self.host);
            }
            ConnectField::Name => {
                let _ = pop_char(&mut self.name);
            }
        }
    }
}

/// How long a dice roll is animated, in milliseconds.
pub const ROLL_ANIM_DURATION_MS: u64 = 600;

/// How often the animation advances a frame, in milliseconds.
pub const ROLL_ANIM_FRAME_INTERVAL_MS: u64 = 60;

/// The dice-roll animation: the real dice under it, when it started and
/// last advanced (caller-supplied clock readings in milliseconds), and the
/// faces shown meanwhile.
#[derive(Debug, Clone)]
pub struct RollAnimation {
    pub final_dice: DiceSet,
    pub started_at_ms: u64,
    pub last_frame_ms: u64,
    pub current_display: [u8; 5],
}

impl RollAnimation {
    /// Start an animation over the rolled dice at the given clock reading.
    pub fn new(final_dice: DiceSet, now_ms: u64) -> (a: RollAnimation)
        requires
            final_dice.wf(),
        ensures
            a.final_dice == final_dice,
            a.started_at_ms == now_ms,
            a.last_frame_ms == now_ms,
            forall|i: int| 0 <= i < 5 ==> #[trigger] a.current_display@[i] == 1,
    {
        RollAnimation {
            final_dice,
            started_at_ms: now_ms,
            last_frame_ms: now_ms,
            current_display: [1, 1, 1, 1, 1],
        }
    }

    /// Whether the animation has run its course at the given clock reading.
    pub fn is_done(&self, now_ms: u64) -> (r: bool)
        ensures
            r == (now_ms >= self.started_at_ms + ROLL_ANIM_DURATION_MS),
    {
        now_ms >= self.started_at_ms && now_ms - self.started_at_ms >= ROLL_ANIM_DURATION_MS
    }

    /// Advance one animation frame: a held die shows its real face, an
    /// unheld one a fresh random face. Nothing changes while the animation
    /// is done or the frame interval has not elapsed; returns whether the
    /// display changed.
    pub fn tick(&mut self, now_ms: u64, rng: &mut FaceRng) -> (changed: bool)
        requires
            old(self).final_dice.wf(),
        ensures
            final(self).final_dice == old(self).final_dice,
            final(self).started_at_ms == old(self).started_at_ms,
            !changed ==> *final(self) == *old(self),
            changed ==> {
                &&& final(self).last_frame_ms == now_ms
                &&& forall|i: int| 0 <= i < 5 && old(self).final_dice.dice@[i].held
                    ==> #[trigger] final(self).current_display@[i] == old(
                    self,
                ).final_dice.dice@[i].value
                &&& forall|i: int| 0 <= i < 5 ==> 1 <= #[trigger] final(self).current_display@[
                    i
                ] <= 6
            },
    {
        if self.is_done(now_ms) {
            return false;
        }
        if !(now_ms >= self.last_frame_ms && now_ms - self.last_frame_ms
            >= ROLL_ANIM_FRAME_INTERVAL_MS) {
            return false;
        }
        self.last_frame_ms = now_ms;
        let mut i: usize = 0;
        while i < 5
            invariant
                i <= 5,
                self.final_dice.wf(),
                self.final_dice == old(self).final_dice,
                self.started_at_ms == old(self).started_at_ms,
                self.last_frame_ms == now_ms,
                self.current_display@.len() == 5,
                forall|a: int| 0 <= a < i && self.final_dice.dice@[a].held
                    ==> #[trigger] self.current_display@[a] == self.final_dice.dice@[a].value,
                forall|a: int| 0 <= a < i ==> 1 <= #[trigger] self.current_display@[a] <= 6,
                forall|a: int| i <= a < 5 ==> #[trigger] self.current_display@[a] == old(
                    self,
                ).current_display@[a],
            decreases 5 - i,
        {
            if !self.final_dice.dice[i].held {
                self.current_display[i] = rng.next_face();
            } else {
                self.current_display[i] = self.final_dice.dice[i].value;
            }
            i += 1;
        }
        true
    }

    /// The dice to draw mid-animation: the display faces, with the real
    /// hold flags.
    pub fn display_dice(&self) -> (d: [Die; 5])
        requires
            self.final_dice.wf(),
        ensures
            forall|i: int| 0 <= i < 5 ==> (#[trigger] d@[i]).value == self.current_display@[i]
                && d@[i].held == self.final_dice.dice@[i].held,
    {
        [
            Die { value: self.current_display[0], held: self.final_dice.dice[0].held },
            Die { value: self.current_display[1], held: self.final_dice.dice[1].held },
            Die { value: self.current_display[2], held: self.final_dice.dice[2].held },
            Die { value: self.current_display[3], held: self.final_dice.dice[3].held },
            Die { value: self.current_display[4], held: self.final_dice.dice[4].held },
        ]
    }
}

/// The three text rows of a die face's pip pattern.
pub fn die_face(value: u8) -> (r: (&'static str, &'static str, &'static str)) {
    match value {
        1 => ("     ", "  *  ", "     "),
        2 => ("    *", "     ", "*    "),
        3 => ("    *", "  *  ", "*    "),
        4 => ("*   *", "     ", "*   *"),
        5 => ("*   *", "  *  ", "*   *"),
        6 => ("*   *", "*   *", "*   *"),
        _ => ("     ", "  ?  ", "     "),
    }
}

/// Shorten a name to at most `max_len` characters, marking a cut with a
/// trailing dot.
pub fn truncate_name(name: &str, max_len: usize) -> (r: String)
    requires
        max_len >= 1,
    ensures
        name@.len() <= max_len ==> r@ == name@,
        name@.len() > max_len ==> r@ == name@.subrange(0, max_len - 1) + "."@,
{
    let n = name.unicode_len();
    if n <= max_len {
        String::from_str(name)
    } else {
        let prefix = name.substring_char(0, max_len - 1);
        String::from_str(prefix).concat(".")
    }
}

} // verus!
