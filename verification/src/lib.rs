//! An authoritative multiplayer dice-game engine: dice and category scoring,
//! per-turn and per-game state machines, room and lobby management, the
//! session message handlers, and the length-prefixed wire protocol.

pub mod dice;
pub mod ai;
pub mod codec;
pub mod connection;
pub mod game;
pub mod handler;
pub mod lobby;
pub mod protocol;
pub mod room;
pub mod screen;
pub mod player;
pub mod scoring;

pub use dice::Die;
pub use game::GameState;
pub use scoring::Category;
