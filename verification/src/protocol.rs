//! The wire protocol's message unions: everything a client may send, and
//! everything the server may answer or broadcast, together with the room
//! projections those messages carry.

use vstd::prelude::*;
use crate::dice::DiceSet;
use crate::game::GameStateSnapshot;
use crate::lobby::RoomInfo;
use crate::scoring::Category;

verus! {

/// Everything a client may send to the server.
#[derive(Debug, Clone)]
pub enum ClientMessage {
    Hello { player_name: String, version: String },
    CreateRoom { room_name: String, max_players: u8, password: Option<String> },
    JoinRoom { room_id: u64, password: Option<String> },
    LeaveRoom,
    ListRooms,
    StartGame,
    SpectateRoom { room_id: u64 },
    RollDice,
    HoldDice { held: [bool; 5] },
    ScoreCategory { category: Category },
    Chat { message: String },
    Ping,
    Disconnect,
}

/// Everything the server may send to a client.
#[derive(Debug, Clone)]
pub enum ServerMessage {
    Welcome { player_id: u64, server_version: String },
    HandshakeError { reason: String },
    RoomList { rooms: Vec<RoomInfo> },
    RoomJoined { room_id: u64, room_state: RoomSnapshot },
    RoomUpdate { room_state: RoomSnapshot },
    RoomLeft,
    GameStarted { game_state: GameStateSnapshot },
    GameState { game_state: GameStateSnapshot },
    TurnStarted { player_id: u64, player_name: String, turn_number: u8 },
    DiceRolled { dice: DiceSet, rolls_remaining: u8 },
    DiceHeld { dice: DiceSet },
    CategoryScored { player_id: u64, category: Category, score: u16 },
    TurnEnded { player_id: u64 },
    GameOver { final_scores: Vec<FinalScore>, winner_id: u64 },
    ChatMessage { sender_id: u64, sender_name: String, message: String, timestamp: i64 },
    SystemMessage { message: String },
    Error { code: ErrorCode, message: String },
    Pong,
    PlayerJoined { player_id: u64, player_name: String },
    PlayerLeft { player_id: u64, player_name: String },
    SpectatorJoined { player_name: String },
    SpectatorLeft { player_name: String },
}

/// One line of a finished game's final standing.
#[derive(Debug, Clone)]
pub struct FinalScore {
    pub player_id: u64,
    pub player_name: String,
    pub total: u32,
}

/// The closed set of error codes the server reports to clients.
#[derive(Debug, Clone, Copy, PartialEq, Eq, Structural)]
pub enum ErrorCode {
    RoomFull,
    RoomNotFound,
    WrongPassword,
    NotYourTurn,
    InvalidAction,
    CategoryAlreadyScored,
    GameAlreadyStarted,
    NotEnoughPlayers,
    NameTaken,
    InternalError,
}

/// The detailed projection of one room, sent only to its members.
#[derive(Debug, Clone)]
pub struct RoomSnapshot {
    pub room_id: u64,
    pub room_name: String,
    pub host_id: u64,
    pub players: Vec<PlayerInfo>,
    pub spectators: Vec<String>,
    pub state: RoomState,
    pub max_players: u8,
}

/// The status of a room as shown in its snapshot.
#[derive(Debug, Clone, Copy, PartialEq, Eq, Structural)]
pub enum RoomState {
    WaitingForPlayers,
    InGame,
    Finished,
}

/// One member's identity as shown in a room snapshot.
#[derive(Debug, Clone)]
pub struct PlayerInfo {
    pub id: u64,
    pub name: String,
    pub connected: bool,
}

} // verus!
