//! The wire encoding: a self-describing tagged-union byte layout for both
//! message families, little-endian integers, length-prefixed strings and
//! lists, and the length-prefixed frame around each payload. Every decoder
//! is the exact inverse of its encoder, stated and proved over the spec
//! encodings.

use vstd::prelude::*;
use vstd::utf8::{valid_utf8, decode_utf8, encode_utf8};
use crate::dice::{Die, DiceSet};
use crate::game::{GamePhase, GameStateSnapshot, TurnPhase};
use crate::lobby::{RoomInfo, RoomInfoState};
use crate::protocol::{
    ClientMessage, ErrorCode, FinalScore, PlayerInfo, RoomSnapshot, RoomState, ServerMessage,
};
use crate::scoring::{Category, cat_index, category_seq};

verus! {

// -- primitive encodings --

/// One byte.
pub open spec fn spec_enc_u8(x: u8) -> Seq<u8> {
    seq![x]
}

pub open spec fn spec_dec_u8(b: Seq<u8>) -> Option<(u8, Seq<u8>)> {
    if b.len() >= 1 {
        Some((b[0], b.drop_first()))
    } else {
        None
    }
}

pub proof fn lemma_dec_enc_u8(x: u8, rest: Seq<u8>)
    ensures
        spec_dec_u8(spec_enc_u8(x) + rest) == Some((x, rest)),
{
    assert((spec_enc_u8(x) + rest).drop_first() =~= rest);
}

/// Two bytes, little endian.
pub open spec fn spec_enc_u16(x: u16) -> Seq<u8> {
    seq![(x & 0xff) as u8, ((x >> 8) & 0xff) as u8]
}

pub open spec fn spec_dec_u16(b: Seq<u8>) -> Option<(u16, Seq<u8>)> {
    if b.len() >= 2 {
        Some(((b[0] as u16) | ((b[1] as u16) << 8), b.skip(2)))
    } else {
        None
    }
}

pub proof fn lemma_dec_enc_u16(x: u16, rest: Seq<u8>)
    ensures
        spec_dec_u16(spec_enc_u16(x) + rest) == Some((x, rest)),
{
    assert((spec_enc_u16(x) + rest).skip(2) =~= rest);
    assert((((x & 0xff) as u8) as u16) | (((((x >> 8) & 0xff) as u8) as u16) << 8) == x)
        by (bit_vector);
}

/// Four bytes, little endian: the low half-word then the high one.
pub open spec fn spec_enc_u32(x: u32) -> Seq<u8> {
    spec_enc_u16((x & 0xffff) as u16) + spec_enc_u16(((x >> 16) & 0xffff) as u16)
}

pub open spec fn spec_dec_u32(b: Seq<u8>) -> Option<(u32, Seq<u8>)> {
    match spec_dec_u16(b) {
        Some((lo, r1)) => match spec_dec_u16(r1) {
            Some((hi, r2)) => Some(((lo as u32) | ((hi as u32) << 16), r2)),
            None => None,
        },
        None => None,
    }
}

pub proof fn lemma_dec_enc_u32(x: u32, rest: Seq<u8>)
    ensures
        spec_dec_u32(spec_enc_u32(x) + rest) == Some((x, rest)),
{
    let lo = (x & 0xffff) as u16;
    let hi = ((x >> 16) & 0xffff) as u16;
    assert((spec_enc_u16(lo) + spec_enc_u16(hi)) + rest =~= spec_enc_u16(lo) + (spec_enc_u16(hi)
        + rest));
    lemma_dec_enc_u16(lo, spec_enc_u16(hi) + rest);
    lemma_dec_enc_u16(hi, rest);
    assert(((((x & 0xffff) as u16) as u32) | (((((x >> 16) & 0xffff) as u16) as u32) << 16)) == x)
        by (bit_vector);
}

/// Eight bytes, little endian: the low word then the high one.
pub open spec fn spec_enc_u64(x: u64) -> Seq<u8> {
    spec_enc_u32((x & 0xffffffff) as u32) + spec_enc_u32(((x >> 32) & 0xffffffff) as u32)
}

pub open spec fn spec_dec_u64(b: Seq<u8>) -> Option<(u64, Seq<u8>)> {
    match spec_dec_u32(b) {
        Some((lo, r1)) => match spec_dec_u32(r1) {
            Some((hi, r2)) => Some(((lo as u64) | ((hi as u64) << 32), r2)),
            None => None,
        },
        None => None,
    }
}

pub proof fn lemma_dec_enc_u64(x: u64, rest: Seq<u8>)
    ensures
        spec_dec_u64(spec_enc_u64(x) + rest) == Some((x, rest)),
{
    let lo = (x & 0xffffffff) as u32;
    let hi = ((x >> 32) & 0xffffffff) as u32;
    assert((spec_enc_u32(lo) + spec_enc_u32(hi)) + rest =~= spec_enc_u32(lo) + (spec_enc_u32(hi)
        + rest));
    lemma_dec_enc_u32(lo, spec_enc_u32(hi) + rest);
    lemma_dec_enc_u32(hi, rest);
    assert(((((x & 0xffffffff) as u32) as u64) | (((((x >> 32) & 0xffffffff) as u32) as u64)
        << 32)) == x) by (bit_vector);
}

/// A signed quadword rides on the unsigned encoding of its bit pattern.
pub open spec fn spec_enc_i64(x: i64) -> Seq<u8> {
    spec_enc_u64(x as u64)
}

pub open spec fn spec_dec_i64(b: Seq<u8>) -> Option<(i64, Seq<u8>)> {
    match spec_dec_u64(b) {
        Some((u, r)) => Some(((u as i64), r)),
        None => None,
    }
}

pub proof fn lemma_dec_enc_i64(x: i64, rest: Seq<u8>)
    ensures
        spec_dec_i64(spec_enc_i64(x) + rest) == Some((x, rest)),
{
    lemma_dec_enc_u64(x as u64, rest);
    assert((x as u64) as i64 == x) by (bit_vector);
}

/// One byte: 1 for true, 0 for false; anything else is rejected.
pub open spec fn spec_enc_bool(x: bool) -> Seq<u8> {
    seq![if x { 1u8 } else { 0u8 }]
}

pub open spec fn spec_dec_bool(b: Seq<u8>) -> Option<(bool, Seq<u8>)> {
    if b.len() >= 1 && (b[0] == 0 || b[0] == 1) {
        Some((b[0] == 1, b.drop_first()))
    } else {
        None
    }
}

pub proof fn lemma_dec_enc_bool(x: bool, rest: Seq<u8>)
    ensures
        spec_dec_bool(spec_enc_bool(x) + rest) == Some((x, rest)),
{
    assert((spec_enc_bool(x) + rest).drop_first() =~= rest);
}

/// A string: its UTF-8 byte length, then its UTF-8 bytes.
#[verifier::opaque]
pub open spec fn spec_enc_str(s: Seq<char>) -> Seq<u8> {
    spec_enc_u64(encode_utf8(s).len() as u64) + encode_utf8(s)
}

#[verifier::opaque]
pub open spec fn spec_dec_str(b: Seq<u8>) -> Option<(Seq<char>, Seq<u8>)> {
    match spec_dec_u64(b) {
        Some((n, r)) => if n <= r.len() && valid_utf8(r.take(n as int)) {
            Some((decode_utf8(r.take(n as int)), r.skip(n as int)))
        } else {
            None
        },
        None => None,
    }
}

pub proof fn lemma_dec_enc_str(s: Seq<char>, rest: Seq<u8>)
    requires
        encode_utf8(s).len() <= u64::MAX,
    ensures
        spec_dec_str(spec_enc_str(s) + rest) == Some((s, rest)),
{
    broadcast use vstd::utf8::encode_utf8_valid_utf8, vstd::utf8::encode_utf8_decode_utf8;

    reveal(spec_dec_str);
    reveal(spec_enc_str);
    let bytes = encode_utf8(s);
    let n = bytes.len() as u64;
    assert((spec_enc_u64(n) + bytes) + rest =~= spec_enc_u64(n) + (bytes + rest));
    lemma_dec_enc_u64(n, bytes + rest);
    assert((bytes + rest).take(n as int) =~= bytes);
    assert((bytes + rest).skip(n as int) =~= rest);
}

// -- generic lists and options --

/// Elements back to back, first element first.
pub open spec fn spec_enc_list<T>(s: Seq<T>, enc: spec_fn(T) -> Seq<u8>) -> Seq<u8>
    decreases s.len(),
{
    if s.len() == 0 {
        Seq::empty()
    } else {
        enc(s.first()) + spec_enc_list(s.drop_first(), enc)
    }
}

/// Appending one element appends its encoding.
pub proof fn lemma_enc_list_push<T>(s: Seq<T>, x: T, enc: spec_fn(T) -> Seq<u8>)
    ensures
        spec_enc_list(s.push(x), enc) == spec_enc_list(s, enc) + enc(x),
    decreases s.len(),
{
    if s.len() == 0 {
        assert(s.push(x).drop_first() =~= Seq::<T>::empty());
        assert(s.push(x).first() == x);
        assert(spec_enc_list(Seq::<T>::empty(), enc) == Seq::<u8>::empty());
        assert(spec_enc_list(s.push(x), enc) == enc(x) + Seq::<u8>::empty());
        assert(spec_enc_list(s, enc) == Seq::<u8>::empty());
        assert(enc(x) + Seq::<u8>::empty() =~= Seq::<u8>::empty() + enc(x));
    } else {
        assert(s.push(x).drop_first() =~= s.drop_first().push(x));
        assert(s.push(x).first() == s.first());
        lemma_enc_list_push(s.drop_first(), x, enc);
        assert(spec_enc_list(s.push(x), enc) == enc(s.first()) + (spec_enc_list(
            s.drop_first(),
            enc,
        ) + enc(x)));
        assert(enc(s.first()) + (spec_enc_list(s.drop_first(), enc) + enc(x)) =~= (enc(s.first())
            + spec_enc_list(s.drop_first(), enc)) + enc(x));
    }
}

/// Exactly `n` elements, decoded in order.
pub open spec fn spec_dec_list<T>(
    b: Seq<u8>,
    n: nat,
    dec: spec_fn(Seq<u8>) -> Option<(T, Seq<u8>)>,
) -> Option<(Seq<T>, Seq<u8>)>
    decreases n,
{
    if n == 0 {
        Some((Seq::empty(), b))
    } else {
        match dec(b) {
            Some((x, r1)) => match spec_dec_list(r1, (n - 1) as nat, dec) {
                Some((xs, r2)) => Some((seq![x] + xs, r2)),
                None => None,
            },
            None => None,
        }
    }
}

/// A list decodes back to itself when each element does.
pub proof fn lemma_dec_enc_list<T>(
    s: Seq<T>,
    rest: Seq<u8>,
    enc: spec_fn(T) -> Seq<u8>,
    dec: spec_fn(Seq<u8>) -> Option<(T, Seq<u8>)>,
)
    requires
        forall|x: T, r: Seq<u8>| s.contains(x) ==> #[trigger] dec(enc(x) + r) == Some((x, r)),
    ensures
        spec_dec_list(spec_enc_list(s, enc) + rest, s.len(), dec) == Some((s, rest)),
    decreases s.len(),
{
    if s.len() == 0 {
        assert(spec_enc_list(s, enc) + rest =~= rest);
    } else {
        let x = s.first();
        let tail = s.drop_first();
        assert((enc(x) + spec_enc_list(tail, enc)) + rest =~= enc(x) + (spec_enc_list(tail, enc)
            + rest));
        assert(s.contains(x)) by {
            assert(s[0] == x);
        }
        assert(dec(enc(x) + (spec_enc_list(tail, enc) + rest)) == Some((
            x,
            spec_enc_list(tail, enc) + rest,
        )));
        assert(forall|y: T, r: Seq<u8>| tail.contains(y) ==> #[trigger] dec(enc(y) + r) == Some(
            (y, r),
        )) by {
            assert forall|y: T| tail.contains(y) implies s.contains(y) by {
                let i = choose|i: int| 0 <= i < tail.len() && tail[i] == y;
                assert(s[i + 1] == y);
            }
        }
        lemma_dec_enc_list(tail, rest, enc, dec);
        assert(seq![x] + tail =~= s);
    }
}

/// A vector: its length, then its elements.
pub open spec fn spec_enc_vec<T>(s: Seq<T>, enc: spec_fn(T) -> Seq<u8>) -> Seq<u8> {
    spec_enc_u64(s.len() as u64) + spec_enc_list(s, enc)
}

pub open spec fn spec_dec_vec<T>(
    b: Seq<u8>,
    dec: spec_fn(Seq<u8>) -> Option<(T, Seq<u8>)>,
) -> Option<(Seq<T>, Seq<u8>)> {
    match spec_dec_u64(b) {
        Some((n, r)) => spec_dec_list(r, n as nat, dec),
        None => None,
    }
}

pub proof fn lemma_dec_enc_vec<T>(
    s: Seq<T>,
    rest: Seq<u8>,
    enc: spec_fn(T) -> Seq<u8>,
    dec: spec_fn(Seq<u8>) -> Option<(T, Seq<u8>)>,
)
    requires
        s.len() <= u64::MAX,
        forall|x: T, r: Seq<u8>| s.contains(x) ==> #[trigger] dec(enc(x) + r) == Some((x, r)),
    ensures
        spec_dec_vec(spec_enc_vec(s, enc) + rest, dec) == Some((s, rest)),
{
    assert((spec_enc_u64(s.len() as u64) + spec_enc_list(s, enc)) + rest =~= spec_enc_u64(
        s.len() as u64,
    ) + (spec_enc_list(s, enc) + rest));
    lemma_dec_enc_u64(s.len() as u64, spec_enc_list(s, enc) + rest);
    lemma_dec_enc_list(s, rest, enc, dec);
}

/// An option: a presence byte, then the value if present.
pub open spec fn spec_enc_opt<T>(o: Option<T>, enc: spec_fn(T) -> Seq<u8>) -> Seq<u8> {
    match o {
        None => seq![0u8],
        Some(x) => seq![1u8] + enc(x),
    }
}

pub open spec fn spec_dec_opt<T>(
    b: Seq<u8>,
    dec: spec_fn(Seq<u8>) -> Option<(T, Seq<u8>)>,
) -> Option<(Option<T>, Seq<u8>)> {
    if b.len() >= 1 && b[0] == 0 {
        Some((None, b.drop_first()))
    } else if b.len() >= 1 && b[0] == 1 {
        match dec(b.drop_first()) {
            Some((x, r)) => Some((Some(x), r)),
            None => None,
        }
    } else {
        None
    }
}

pub proof fn lemma_dec_enc_opt<T>(
    o: Option<T>,
    rest: Seq<u8>,
    enc: spec_fn(T) -> Seq<u8>,
    dec: spec_fn(Seq<u8>) -> Option<(T, Seq<u8>)>,
)
    requires
        forall|x: T, r: Seq<u8>| o == Some(x) ==> #[trigger] dec(enc(x) + r) == Some((x, r)),
    ensures
        spec_dec_opt(spec_enc_opt(o, enc) + rest, dec) == Some((o, rest)),
{
    match o {
        None => {
            assert((seq![0u8] + rest).drop_first() =~= rest);
        }
        Some(x) => {
            assert((seq![1u8] + enc(x) + rest).drop_first() =~= enc(x) + rest);
            assert(dec(enc(x) + rest) == Some((x, rest)));
        }
    }
}

// -- the wire model --
//
// Decoding cannot build exec strings in spec, so the codec's statements
// live over a spec-level model of each message: strings become character
// sequences and vectors become sequences; everything else carries over.

/// The spec model of a scorecard on the wire.
pub struct ScorecardV {
    pub scores: Seq<Option<u16>>,
    pub yahtzee_bonus_count: u8,
}

/// The spec model of one player line in a game snapshot.
pub struct PlayerSnapshotV {
    pub id: u64,
    pub name: Seq<char>,
    pub scorecard: ScorecardV,
    pub connected: bool,
}

/// The spec model of a game snapshot.
pub struct GameSnapshotV {
    pub phase: GamePhase,
    pub players: Seq<PlayerSnapshotV>,
    pub current_player_index: u64,
    pub dice: Option<Seq<Die>>,
    pub turn_phase: Option<TurnPhase>,
    pub rolls_used: u8,
    pub round: u8,
    pub total_rounds: u8,
}

/// The spec model of a browse-list line.
pub struct RoomInfoV {
    pub room_id: u64,
    pub room_name: Seq<char>,
    pub player_count: u8,
    pub max_players: u8,
    pub spectator_count: u8,
    pub state: RoomInfoState,
    pub has_password: bool,
}

/// The spec model of one member line in a room snapshot.
pub struct PlayerInfoV {
    pub id: u64,
    pub name: Seq<char>,
    pub connected: bool,
}

/// The spec model of a room snapshot.
pub struct RoomSnapshotV {
    pub room_id: u64,
    pub room_name: Seq<char>,
    pub host_id: u64,
    pub players: Seq<PlayerInfoV>,
    pub spectators: Seq<Seq<char>>,
    pub state: RoomState,
    pub max_players: u8,
}

/// The spec model of one final-standing line.
pub struct FinalScoreV {
    pub player_id: u64,
    pub player_name: Seq<char>,
    pub total: u32,
}

/// The spec model of a client message.
pub enum ClientMessageV {
    Hello { player_name: Seq<char>, version: Seq<char> },
    CreateRoom { room_name: Seq<char>, max_players: u8, password: Option<Seq<char>> },
    JoinRoom { room_id: u64, password: Option<Seq<char>> },
    LeaveRoom,
    ListRooms,
    StartGame,
    SpectateRoom { room_id: u64 },
    RollDice,
    HoldDice { held: Seq<bool> },
    ScoreCategory { category: Category },
    Chat { message: Seq<char> },
    Ping,
    Disconnect,
}

/// The spec model of a server message.
pub enum ServerMessageV {
    Welcome { player_id: u64, server_version: Seq<char> },
    HandshakeError { reason: Seq<char> },
    RoomList { rooms: Seq<RoomInfoV> },
    RoomJoined { room_id: u64, room_state: RoomSnapshotV },
    RoomUpdate { room_state: RoomSnapshotV },
    RoomLeft,
    GameStarted { game_state: GameSnapshotV },
    GameState { game_state: GameSnapshotV },
    TurnStarted { player_id: u64, player_name: Seq<char>, turn_number: u8 },
    DiceRolled { dice: Seq<Die>, rolls_remaining: u8 },
    DiceHeld { dice: Seq<Die> },
    CategoryScored { player_id: u64, category: Category, score: u16 },
    TurnEnded { player_id: u64 },
    GameOver { final_scores: Seq<FinalScoreV>, winner_id: u64 },
    ChatMessage { sender_id: u64, sender_name: Seq<char>, message: Seq<char>, timestamp: i64 },
    SystemMessage { message: Seq<char> },
    Error { code: ErrorCode, message: Seq<char> },
    Pong,
    PlayerJoined { player_id: u64, player_name: Seq<char> },
    PlayerLeft { player_id: u64, player_name: Seq<char> },
    SpectatorJoined { player_name: Seq<char> },
    SpectatorLeft { player_name: Seq<char> },
}

// -- views of the exec types --

pub open spec fn scorecard_v(s: crate::player::Scorecard) -> ScorecardV {
    ScorecardV { scores: s.scores@, yahtzee_bonus_count: s.yahtzee_bonus_count }
}

pub open spec fn player_snapshot_v(p: crate::game::PlayerSnapshot) -> PlayerSnapshotV {
    PlayerSnapshotV {
        id: p.id,
        name: p.name@,
        scorecard: scorecard_v(p.scorecard),
        connected: p.connected,
    }
}

pub open spec fn game_snapshot_v(g: GameStateSnapshot) -> GameSnapshotV {
    GameSnapshotV {
        phase: g.phase,
        players: g.players@.map_values(|p: crate::game::PlayerSnapshot| player_snapshot_v(p)),
        current_player_index: g.current_player_index as u64,
        dice: match g.dice {
            Some(d) => Some(d.dice@),
            None => None,
        },
        turn_phase: g.turn_phase,
        rolls_used: g.rolls_used,
        round: g.round,
        total_rounds: g.total_rounds,
    }
}

pub open spec fn room_info_v(r: RoomInfo) -> RoomInfoV {
    RoomInfoV {
        room_id: r.room_id,
        room_name: r.room_name@,
        player_count: r.player_count,
        max_players: r.max_players,
        spectator_count: r.spectator_count,
        state: r.state,
        has_password: r.has_password,
    }
}

pub open spec fn player_info_v(p: PlayerInfo) -> PlayerInfoV {
    PlayerInfoV { id: p.id, name: p.name@, connected: p.connected }
}

pub open spec fn room_snapshot_v(r: RoomSnapshot) -> RoomSnapshotV {
    RoomSnapshotV {
        room_id: r.room_id,
        room_name: r.room_name@,
        host_id: r.host_id,
        players: r.players@.map_values(|p: PlayerInfo| player_info_v(p)),
        spectators: r.spectators@.map_values(|s: String| s@),
        state: r.state,
        max_players: r.max_players,
    }
}

pub open spec fn final_score_v(f: FinalScore) -> FinalScoreV {
    FinalScoreV { player_id: f.player_id, player_name: f.player_name@, total: f.total }
}

pub open spec fn opt_str_v(o: Option<String>) -> Option<Seq<char>> {
    match o {
        Some(s) => Some(s@),
        None => None,
    }
}

/// The spec model of a client message.
pub open spec fn client_message_v(m: ClientMessage) -> ClientMessageV {
    match m {
        ClientMessage::Hello { player_name, version } => ClientMessageV::Hello {
            player_name: player_name@,
            version: version@,
        },
        ClientMessage::CreateRoom { room_name, max_players, password } =>
            ClientMessageV::CreateRoom {
            room_name: room_name@,
            max_players,
            password: opt_str_v(password),
        },
        ClientMessage::JoinRoom { room_id, password } => ClientMessageV::JoinRoom {
            room_id,
            password: opt_str_v(password),
        },
        ClientMessage::LeaveRoom => ClientMessageV::LeaveRoom,
        ClientMessage::ListRooms => ClientMessageV::ListRooms,
        ClientMessage::StartGame => ClientMessageV::StartGame,
        ClientMessage::SpectateRoom { room_id } => ClientMessageV::SpectateRoom { room_id },
        ClientMessage::RollDice => ClientMessageV::RollDice,
        ClientMessage::HoldDice { held } => ClientMessageV::HoldDice { held: held@ },
        ClientMessage::ScoreCategory { category } => ClientMessageV::ScoreCategory { category },
        ClientMessage::Chat { message } => ClientMessageV::Chat { message: message@ },
        ClientMessage::Ping => ClientMessageV::Ping,
        ClientMessage::Disconnect => ClientMessageV::Disconnect,
    }
}

/// The spec model of a server message.
pub open spec fn server_message_v(m: ServerMessage) -> ServerMessageV {
    match m {
        ServerMessage::Welcome { player_id, server_version } => ServerMessageV::Welcome {
            player_id,
            server_version: server_version@,
        },
        ServerMessage::HandshakeError { reason } => ServerMessageV::HandshakeError {
            reason: reason@,
        },
        ServerMessage::RoomList { rooms } => ServerMessageV::RoomList {
            rooms: rooms@.map_values(|r: RoomInfo| room_info_v(r)),
        },
        ServerMessage::RoomJoined { room_id, room_state } => ServerMessageV::RoomJoined {
            room_id,
            room_state: room_snapshot_v(room_state),
        },
        ServerMessage::RoomUpdate { room_state } => ServerMessageV::RoomUpdate {
            room_state: room_snapshot_v(room_state),
        },
        ServerMessage::RoomLeft => ServerMessageV::RoomLeft,
        ServerMessage::GameStarted { game_state } => ServerMessageV::GameStarted {
            game_state: game_snapshot_v(game_state),
        },
        ServerMessage::GameState { game_state } => ServerMessageV::GameState {
            game_state: game_snapshot_v(game_state),
        },
        ServerMessage::TurnStarted { player_id, player_name, turn_number } =>
            ServerMessageV::TurnStarted {
            player_id,
            player_name: player_name@,
            turn_number,
        },
        ServerMessage::DiceRolled { dice, rolls_remaining } => ServerMessageV::DiceRolled {
            dice: dice.dice@,
            rolls_remaining,
        },
        ServerMessage::DiceHeld { dice } => ServerMessageV::DiceHeld { dice: dice.dice@ },
        ServerMessage::CategoryScored { player_id, category, score } =>
            ServerMessageV::CategoryScored { player_id, category, score },
        ServerMessage::TurnEnded { player_id } => ServerMessageV::TurnEnded { player_id },
        ServerMessage::GameOver { final_scores, winner_id } => ServerMessageV::GameOver {
            final_scores: final_scores@.map_values(|f: FinalScore| final_score_v(f)),
            winner_id,
        },
        ServerMessage::ChatMessage { sender_id, sender_name, message, timestamp } =>
            ServerMessageV::ChatMessage {
            sender_id,
            sender_name: sender_name@,
            message: message@,
            timestamp,
        },
        ServerMessage::SystemMessage { message } => ServerMessageV::SystemMessage {
            message: message@,
        },
        ServerMessage::Error { code, message } => ServerMessageV::Error {
            code,
            message: message@,
        },
        ServerMessage::Pong => ServerMessageV::Pong,
        ServerMessage::PlayerJoined { player_id, player_name } => ServerMessageV::PlayerJoined {
            player_id,
            player_name: player_name@,
        },
        ServerMessage::PlayerLeft { player_id, player_name } => ServerMessageV::PlayerLeft {
            player_id,
            player_name: player_name@,
        },
        ServerMessage::SpectatorJoined { player_name } => ServerMessageV::SpectatorJoined {
            player_name: player_name@,
        },
        ServerMessage::SpectatorLeft { player_name } => ServerMessageV::SpectatorLeft {
            player_name: player_name@,
        },
    }
}

// -- enum tags --

/// A category's wire tag is its scorecard position.
pub open spec fn spec_enc_category(c: Category) -> Seq<u8> {
    seq![cat_index(c) as u8]
}

pub open spec fn cat_from_tag(t: u8) -> Option<Category> {
    if t < 13 {
        Some(category_seq()[t as int])
    } else {
        None
    }
}

#[verifier::opaque]
pub open spec fn spec_dec_category(b: Seq<u8>) -> Option<(Category, Seq<u8>)> {
    match spec_dec_u8(b) {
        Some((t, r)) => match cat_from_tag(t) {
            Some(c) => Some((c, r)),
            None => None,
        },
        None => None,
    }
}

pub proof fn lemma_dec_enc_category(c: Category, rest: Seq<u8>)
    ensures
        spec_dec_category(spec_enc_category(c) + rest) == Some((c, rest)),
{
    reveal(spec_dec_category);
    lemma_dec_enc_u8(cat_index(c) as u8, rest);
    crate::scoring::lemma_cat_index_bijective(c);
}

pub open spec fn spec_enc_turn_phase(p: TurnPhase) -> Seq<u8> {
    match p {
        TurnPhase::WaitingForRoll => seq![0u8],
        TurnPhase::Rolling { rolls_used } => seq![1u8] + spec_enc_u8(rolls_used),
        TurnPhase::MustScore => seq![2u8],
        TurnPhase::Done => seq![3u8],
    }
}

#[verifier::opaque]
pub open spec fn spec_dec_turn_phase(b: Seq<u8>) -> Option<(TurnPhase, Seq<u8>)> {
    match spec_dec_u8(b) {
        Some((t, r)) => {
            if t == 0 {
                Some((TurnPhase::WaitingForRoll, r))
            } else if t == 1 {
                match spec_dec_u8(r) {
                    Some((n, r2)) => Some((TurnPhase::Rolling { rolls_used: n }, r2)),
                    None => None,
                }
            } else if t == 2 {
                Some((TurnPhase::MustScore, r))
            } else if t == 3 {
                Some((TurnPhase::Done, r))
            } else {
                None
            }
        },
        None => None,
    }
}

pub proof fn lemma_dec_enc_turn_phase(p: TurnPhase, rest: Seq<u8>)
    ensures
        spec_dec_turn_phase(spec_enc_turn_phase(p) + rest) == Some((p, rest)),
{
    reveal(spec_dec_turn_phase);
    match p {
        TurnPhase::WaitingForRoll => {
            lemma_dec_enc_u8(0u8, rest);
        }
        TurnPhase::Rolling { rolls_used } => {
            assert((seq![1u8] + spec_enc_u8(rolls_used)) + rest =~= seq![1u8] + (spec_enc_u8(
                rolls_used,
            ) + rest));
            lemma_dec_enc_u8(1u8, spec_enc_u8(rolls_used) + rest);
            lemma_dec_enc_u8(rolls_used, rest);
        }
        TurnPhase::MustScore => {
            lemma_dec_enc_u8(2u8, rest);
        }
        TurnPhase::Done => {
            lemma_dec_enc_u8(3u8, rest);
        }
    }
}

pub open spec fn game_phase_tag(p: GamePhase) -> u8 {
    match p {
        GamePhase::Lobby => 0,
        GamePhase::Playing => 1,
        GamePhase::Finished => 2,
    }
}

pub open spec fn spec_enc_game_phase(p: GamePhase) -> Seq<u8> {
    seq![game_phase_tag(p)]
}

pub open spec fn spec_dec_game_phase(b: Seq<u8>) -> Option<(GamePhase, Seq<u8>)> {
    match spec_dec_u8(b) {
        Some((t, r)) => {
            if t == 0 {
                Some((GamePhase::Lobby, r))
            } else if t == 1 {
                Some((GamePhase::Playing, r))
            } else if t == 2 {
                Some((GamePhase::Finished, r))
            } else {
                None
            }
        },
        None => None,
    }
}

pub proof fn lemma_dec_enc_game_phase(p: GamePhase, rest: Seq<u8>)
    ensures
        spec_dec_game_phase(spec_enc_game_phase(p) + rest) == Some((p, rest)),
{
    lemma_dec_enc_u8(game_phase_tag(p), rest);
}

pub open spec fn room_state_tag(s: RoomState) -> u8 {
    match s {
        RoomState::WaitingForPlayers => 0,
        RoomState::InGame => 1,
        RoomState::Finished => 2,
    }
}

pub open spec fn spec_enc_room_state(s: RoomState) -> Seq<u8> {
    seq![room_state_tag(s)]
}

pub open spec fn spec_dec_room_state(b: Seq<u8>) -> Option<(RoomState, Seq<u8>)> {
    match spec_dec_u8(b) {
        Some((t, r)) => {
            if t == 0 {
                Some((RoomState::WaitingForPlayers, r))
            } else if t == 1 {
                Some((RoomState::InGame, r))
            } else if t == 2 {
                Some((RoomState::Finished, r))
            } else {
                None
            }
        },
        None => None,
    }
}

pub proof fn lemma_dec_enc_room_state(s: RoomState, rest: Seq<u8>)
    ensures
        spec_dec_room_state(spec_enc_room_state(s) + rest) == Some((s, rest)),
{
    lemma_dec_enc_u8(room_state_tag(s), rest);
}

pub open spec fn room_info_state_tag(s: RoomInfoState) -> u8 {
    match s {
        RoomInfoState::Waiting => 0,
        RoomInfoState::InProgress => 1,
        RoomInfoState::Finished => 2,
    }
}

pub open spec fn spec_enc_room_info_state(s: RoomInfoState) -> Seq<u8> {
    seq![room_info_state_tag(s)]
}

pub open spec fn spec_dec_room_info_state(b: Seq<u8>) -> Option<(RoomInfoState, Seq<u8>)> {
    match spec_dec_u8(b) {
        Some((t, r)) => {
            if t == 0 {
                Some((RoomInfoState::Waiting, r))
            } else if t == 1 {
                Some((RoomInfoState::InProgress, r))
            } else if t == 2 {
                Some((RoomInfoState::Finished, r))
            } else {
                None
            }
        },
        None => None,
    }
}

#[verifier::rlimit(100)]
pub proof fn lemma_dec_enc_room_info_state(s: RoomInfoState, rest: Seq<u8>)
    ensures
        spec_dec_room_info_state(spec_enc_room_info_state(s) + rest) == Some((s, rest)),
{
    lemma_dec_enc_u8(room_info_state_tag(s), rest);
}

pub open spec fn error_code_tag(c: ErrorCode) -> u8 {
    match c {
        ErrorCode::RoomFull => 0,
        ErrorCode::RoomNotFound => 1,
        ErrorCode::WrongPassword => 2,
        ErrorCode::NotYourTurn => 3,
        ErrorCode::InvalidAction => 4,
        ErrorCode::CategoryAlreadyScored => 5,
        ErrorCode::GameAlreadyStarted => 6,
        ErrorCode::NotEnoughPlayers => 7,
        ErrorCode::NameTaken => 8,
        ErrorCode::InternalError => 9,
    }
}

pub open spec fn error_code_from_tag(t: u8) -> Option<ErrorCode> {
    if t == 0 {
        Some(ErrorCode::RoomFull)
    } else if t == 1 {
        Some(ErrorCode::RoomNotFound)
    } else if t == 2 {
        Some(ErrorCode::WrongPassword)
    } else if t == 3 {
        Some(ErrorCode::NotYourTurn)
    } else if t == 4 {
        Some(ErrorCode::InvalidAction)
    } else if t == 5 {
        Some(ErrorCode::CategoryAlreadyScored)
    } else if t == 6 {
        Some(ErrorCode::GameAlreadyStarted)
    } else if t == 7 {
        Some(ErrorCode::NotEnoughPlayers)
    } else if t == 8 {
        Some(ErrorCode::NameTaken)
    } else if t == 9 {
        Some(ErrorCode::InternalError)
    } else {
        None
    }
}

pub open spec fn spec_enc_error_code(c: ErrorCode) -> Seq<u8> {
    seq![error_code_tag(c)]
}

pub open spec fn spec_dec_error_code(b: Seq<u8>) -> Option<(ErrorCode, Seq<u8>)> {
    match spec_dec_u8(b) {
        Some((t, r)) => match error_code_from_tag(t) {
            Some(c) => Some((c, r)),
            None => None,
        },
        None => None,
    }
}

pub proof fn lemma_dec_enc_error_code(c: ErrorCode, rest: Seq<u8>)
    ensures
        spec_dec_error_code(spec_enc_error_code(c) + rest) == Some((c, rest)),
{
    lemma_dec_enc_u8(error_code_tag(c), rest);
}

// -- structured payloads --

/// A die: its face, then its hold flag.
pub open spec fn spec_enc_die(d: Die) -> Seq<u8> {
    spec_enc_u8(d.value) + spec_enc_bool(d.held)
}

pub open spec fn spec_dec_die(b: Seq<u8>) -> Option<(Die, Seq<u8>)> {
    match spec_dec_u8(b) {
        Some((v, r1)) => match spec_dec_bool(r1) {
            Some((h, r2)) => Some((Die { value: v, held: h }, r2)),
            None => None,
        },
        None => None,
    }
}

pub proof fn lemma_dec_enc_die(d: Die, rest: Seq<u8>)
    ensures
        spec_dec_die(spec_enc_die(d) + rest) == Some((d, rest)),
{
    assert((spec_enc_u8(d.value) + spec_enc_bool(d.held)) + rest =~= spec_enc_u8(d.value) + (
    spec_enc_bool(d.held) + rest));
    lemma_dec_enc_u8(d.value, spec_enc_bool(d.held) + rest);
    lemma_dec_enc_bool(d.held, rest);
}

/// Dice travel as a plain list of dice.
pub open spec fn spec_enc_dice(dice: Seq<Die>) -> Seq<u8> {
    spec_enc_vec(dice, |d: Die| spec_enc_die(d))
}

#[verifier::opaque]
pub open spec fn spec_dec_dice(b: Seq<u8>) -> Option<(Seq<Die>, Seq<u8>)> {
    spec_dec_vec(b, |b2: Seq<u8>| spec_dec_die(b2))
}

pub proof fn lemma_dec_enc_dice(dice: Seq<Die>, rest: Seq<u8>)
    requires
        dice.len() <= u64::MAX,
    ensures
        spec_dec_dice(spec_enc_dice(dice) + rest) == Some((dice, rest)),
{
    reveal(spec_dec_dice);
    let enc = |d: Die| spec_enc_die(d);
    let dec = |b2: Seq<u8>| spec_dec_die(b2);
    assert forall|d: Die, r: Seq<u8>| dice.contains(d) implies #[trigger] dec(enc(d) + r) == Some(
        (d, r),
    ) by {
        lemma_dec_enc_die(d, r);
    }
    lemma_dec_enc_vec(dice, rest, enc, dec);
}

/// A recorded-or-empty score slot.
pub open spec fn spec_enc_opt_u16(o: Option<u16>) -> Seq<u8> {
    spec_enc_opt(o, |x: u16| spec_enc_u16(x))
}

#[verifier::opaque]
pub open spec fn spec_dec_opt_u16(b: Seq<u8>) -> Option<(Option<u16>, Seq<u8>)> {
    spec_dec_opt(b, |b2: Seq<u8>| spec_dec_u16(b2))
}

pub proof fn lemma_dec_enc_opt_u16(o: Option<u16>, rest: Seq<u8>)
    ensures
        spec_dec_opt_u16(spec_enc_opt_u16(o) + rest) == Some((o, rest)),
{
    reveal(spec_dec_opt_u16);
    let enc = |x: u16| spec_enc_u16(x);
    let dec = |b2: Seq<u8>| spec_dec_u16(b2);
    assert forall|x: u16, r: Seq<u8>| o == Some(x) implies #[trigger] dec(enc(x) + r) == Some(
        (x, r),
    ) by {
        lemma_dec_enc_u16(x, r);
    }
    lemma_dec_enc_opt(o, rest, enc, dec);
}

/// A scorecard: its slots, then the bonus counter.
pub open spec fn spec_enc_scorecard(s: ScorecardV) -> Seq<u8> {
    spec_enc_vec(s.scores, |o: Option<u16>| spec_enc_opt_u16(o)) + spec_enc_u8(
        s.yahtzee_bonus_count,
    )
}

#[verifier::opaque]
pub open spec fn spec_dec_scorecard(b: Seq<u8>) -> Option<(ScorecardV, Seq<u8>)> {
    match spec_dec_vec(b, |b2: Seq<u8>| spec_dec_opt_u16(b2)) {
        Some((scores, r1)) => match spec_dec_u8(r1) {
            Some((n, r2)) => Some((ScorecardV { scores, yahtzee_bonus_count: n }, r2)),
            None => None,
        },
        None => None,
    }
}

pub proof fn lemma_dec_enc_scorecard(s: ScorecardV, rest: Seq<u8>)
    requires
        s.scores.len() <= u64::MAX,
    ensures
        spec_dec_scorecard(spec_enc_scorecard(s) + rest) == Some((s, rest)),
{
    reveal(spec_dec_scorecard);
    let enc_slots = spec_enc_vec(s.scores, |o: Option<u16>| spec_enc_opt_u16(o));
    let tail = spec_enc_u8(s.yahtzee_bonus_count) + rest;
    assert((enc_slots + spec_enc_u8(s.yahtzee_bonus_count)) + rest =~= enc_slots + tail);
    let enc = |o: Option<u16>| spec_enc_opt_u16(o);
    let dec = |b2: Seq<u8>| spec_dec_opt_u16(b2);
    assert forall|o: Option<u16>, r: Seq<u8>| s.scores.contains(o) implies #[trigger] dec(
        enc(o) + r,
    ) == Some((o, r)) by {
        lemma_dec_enc_opt_u16(o, r);
    }
    lemma_dec_enc_vec(s.scores, tail, enc, dec);
    lemma_dec_enc_u8(s.yahtzee_bonus_count, rest);
}

/// A string whose UTF-8 length fits the wire's length field. Every string
/// built in executable code satisfies this.
pub open spec fn str_ok(s: Seq<char>) -> bool {
    encode_utf8(s).len() <= u64::MAX
}

pub open spec fn spec_enc_opt_str(o: Option<Seq<char>>) -> Seq<u8> {
    spec_enc_opt(o, |s: Seq<char>| spec_enc_str(s))
}

#[verifier::opaque]
pub open spec fn spec_dec_opt_str(b: Seq<u8>) -> Option<(Option<Seq<char>>, Seq<u8>)> {
    spec_dec_opt(b, |b2: Seq<u8>| spec_dec_str(b2))
}

pub open spec fn opt_str_ok(o: Option<Seq<char>>) -> bool {
    match o {
        Some(s) => str_ok(s),
        None => true,
    }
}

pub proof fn lemma_dec_enc_opt_str(o: Option<Seq<char>>, rest: Seq<u8>)
    requires
        opt_str_ok(o),
    ensures
        spec_dec_opt_str(spec_enc_opt_str(o) + rest) == Some((o, rest)),
{
    reveal(spec_dec_opt_str);
    let enc = |s: Seq<char>| spec_enc_str(s);
    let dec = |b2: Seq<u8>| spec_dec_str(b2);
    assert forall|s: Seq<char>, r: Seq<u8>| o == Some(s) implies #[trigger] dec(enc(s) + r)
        == Some((s, r)) by {
        lemma_dec_enc_str(s, r);
    }
    lemma_dec_enc_opt(o, rest, enc, dec);
}

/// One player line of a game snapshot.
pub open spec fn spec_enc_player_snapshot(p: PlayerSnapshotV) -> Seq<u8> {
    spec_enc_u64(p.id) + spec_enc_str(p.name) + spec_enc_scorecard(p.scorecard) + spec_enc_bool(
        p.connected,
    )
}

#[verifier::opaque]
pub open spec fn spec_dec_player_snapshot(b: Seq<u8>) -> Option<(PlayerSnapshotV, Seq<u8>)> {
    match spec_dec_u64(b) {
        Some((id, r1)) => match spec_dec_str(r1) {
            Some((name, r2)) => match spec_dec_scorecard(r2) {
                Some((scorecard, r3)) => match spec_dec_bool(r3) {
                    Some((connected, r4)) => Some(
                        (PlayerSnapshotV { id, name, scorecard, connected }, r4),
                    ),
                    None => None,
                },
                None => None,
            },
            None => None,
        },
        None => None,
    }
}

pub open spec fn player_snapshot_ok(p: PlayerSnapshotV) -> bool {
    str_ok(p.name) && p.scorecard.scores.len() <= u64::MAX
}

pub proof fn lemma_dec_enc_player_snapshot(p: PlayerSnapshotV, rest: Seq<u8>)
    requires
        player_snapshot_ok(p),
    ensures
        spec_dec_player_snapshot(spec_enc_player_snapshot(p) + rest) == Some((p, rest)),
{
    reveal(spec_dec_player_snapshot);
    let e1 = spec_enc_u64(p.id);
    let e2 = spec_enc_str(p.name);
    let e3 = spec_enc_scorecard(p.scorecard);
    let e4 = spec_enc_bool(p.connected);
    assert((e1 + e2 + e3 + e4) + rest =~= e1 + (e2 + (e3 + (e4 + rest))));
    lemma_dec_enc_u64(p.id, e2 + (e3 + (e4 + rest)));
    lemma_dec_enc_str(p.name, e3 + (e4 + rest));
    lemma_dec_enc_scorecard(p.scorecard, e4 + rest);
    lemma_dec_enc_bool(p.connected, rest);
}

/// A whole game snapshot, field by field.
/// The trailing fields of a game snapshot: whose turn, the visible dice and
/// turn phase, and the counters.
pub open spec fn spec_enc_game_snapshot_tail(g: GameSnapshotV) -> Seq<u8> {
    spec_enc_u64(g.current_player_index) + (spec_enc_opt(
        g.dice,
        |d: Seq<Die>| spec_enc_dice(d),
    ) + (spec_enc_opt(g.turn_phase, |t: TurnPhase| spec_enc_turn_phase(t)) + (spec_enc_u8(
        g.rolls_used,
    ) + (spec_enc_u8(g.round) + spec_enc_u8(g.total_rounds)))))
}

pub open spec fn spec_enc_game_snapshot(g: GameSnapshotV) -> Seq<u8> {
    spec_enc_game_phase(g.phase) + (spec_enc_vec(
        g.players,
        |p: PlayerSnapshotV| spec_enc_player_snapshot(p),
    ) + spec_enc_game_snapshot_tail(g))
}

/// The decoded trailing fields of a game snapshot.
#[verifier::opaque]
pub open spec fn spec_dec_game_snapshot_tail(b: Seq<u8>) -> Option<
    ((u64, Option<Seq<Die>>, Option<TurnPhase>, u8, u8, u8), Seq<u8>),
> {
    match spec_dec_u64(b) {
        Some((current_player_index, r3)) => match spec_dec_opt(
            r3,
            |b2: Seq<u8>| spec_dec_dice(b2),
        ) {
            Some((dice, r4)) => match spec_dec_opt(r4, |b2: Seq<u8>| spec_dec_turn_phase(b2)) {
                Some((turn_phase, r5)) => match spec_dec_u8(r5) {
                    Some((rolls_used, r6)) => match spec_dec_u8(r6) {
                        Some((round, r7)) => match spec_dec_u8(r7) {
                            Some((total_rounds, r8)) => Some(
                                (
                                    (
                                        current_player_index,
                                        dice,
                                        turn_phase,
                                        rolls_used,
                                        round,
                                        total_rounds,
                                    ),
                                    r8,
                                ),
                            ),
                            None => None,
                        },
                        None => None,
                    },
                    None => None,
                },
                None => None,
            },
            None => None,
        },
        None => None,
    }
}

#[verifier::opaque]
pub open spec fn spec_dec_game_snapshot(b: Seq<u8>) -> Option<(GameSnapshotV, Seq<u8>)> {
    match spec_dec_game_phase(b) {
        Some((phase, r1)) => match spec_dec_vec(
            r1,
            |b2: Seq<u8>| spec_dec_player_snapshot(b2),
        ) {
            Some((players, r2)) => match spec_dec_game_snapshot_tail(r2) {
                Some(((current_player_index, dice, turn_phase, rolls_used, round, total_rounds),
                    r8)) => Some(
                    (
                        GameSnapshotV {
                            phase,
                            players,
                            current_player_index,
                            dice,
                            turn_phase,
                            rolls_used,
                            round,
                            total_rounds,
                        },
                        r8,
                    ),
                ),
                None => None,
            },
            None => None,
        },
        None => None,
    }
}

pub open spec fn game_snapshot_ok(g: GameSnapshotV) -> bool {
    &&& g.players.len() <= u64::MAX
    &&& forall|i: int| 0 <= i < g.players.len() ==> player_snapshot_ok(#[trigger] g.players[i])
    &&& (g.dice matches Some(d) ==> d.len() <= u64::MAX)
}

#[verifier::rlimit(100)]
pub proof fn lemma_dec_enc_game_snapshot(g: GameSnapshotV, rest: Seq<u8>)
    requires
        game_snapshot_ok(g),
    ensures
        spec_dec_game_snapshot(spec_enc_game_snapshot(g) + rest) == Some((g, rest)),
{
    reveal(spec_dec_game_snapshot);
    let enc_ps = |p: PlayerSnapshotV| spec_enc_player_snapshot(p);
    let dec_ps = |b2: Seq<u8>| spec_dec_player_snapshot(b2);
    let e1 = spec_enc_game_phase(g.phase);
    let e2 = spec_enc_vec(g.players, enc_ps);
    let t3 = spec_enc_game_snapshot_tail(g);
    let t2 = e2 + t3;
    assert((e1 + t2) + rest =~= e1 + (t2 + rest));
    lemma_dec_enc_game_phase(g.phase, t2 + rest);
    assert(t2 + rest =~= e2 + (t3 + rest));
    assert forall|p: PlayerSnapshotV, r: Seq<u8>| g.players.contains(p) implies #[trigger] dec_ps(
        enc_ps(p) + r,
    ) == Some((p, r)) by {
        let i = choose|i: int| 0 <= i < g.players.len() && g.players[i] == p;
        lemma_dec_enc_player_snapshot(p, r);
    }
    lemma_dec_enc_vec(g.players, t3 + rest, enc_ps, dec_ps);
    lemma_dec_enc_game_snapshot_tail(g, rest);
}

#[verifier::rlimit(100)]
proof fn lemma_dec_enc_game_snapshot_tail(g: GameSnapshotV, rest: Seq<u8>)
    requires
        g.dice matches Some(d) ==> d.len() <= u64::MAX,
    ensures
        spec_dec_game_snapshot_tail(spec_enc_game_snapshot_tail(g) + rest) == Some((
            (g.current_player_index, g.dice, g.turn_phase, g.rolls_used, g.round, g.total_rounds),
            rest,
        )),
{
    reveal(spec_dec_game_snapshot_tail);
    let enc_d = |d: Seq<Die>| spec_enc_dice(d);
    let dec_d = |b2: Seq<u8>| spec_dec_dice(b2);
    let enc_t = |t: TurnPhase| spec_enc_turn_phase(t);
    let dec_t = |b2: Seq<u8>| spec_dec_turn_phase(b2);
    let e3 = spec_enc_u64(g.current_player_index);
    let e4 = spec_enc_opt(g.dice, enc_d);
    let e5 = spec_enc_opt(g.turn_phase, enc_t);
    let e6 = spec_enc_u8(g.rolls_used);
    let e7 = spec_enc_u8(g.round);
    let e8 = spec_enc_u8(g.total_rounds);
    let t7 = e7 + e8;
    let t6 = e6 + t7;
    let t5 = e5 + t6;
    let t4 = e4 + t5;
    assert((e3 + t4) + rest =~= e3 + (t4 + rest));
    lemma_dec_enc_u64(g.current_player_index, t4 + rest);
    assert(t4 + rest =~= e4 + (t5 + rest));
    assert forall|d: Seq<Die>, r: Seq<u8>| g.dice == Some(d) implies #[trigger] dec_d(
        enc_d(d) + r,
    ) == Some((d, r)) by {
        lemma_dec_enc_dice(d, r);
    }
    lemma_dec_enc_opt(g.dice, t5 + rest, enc_d, dec_d);
    assert(t5 + rest =~= e5 + (t6 + rest));
    assert forall|t: TurnPhase, r: Seq<u8>| g.turn_phase == Some(t) implies #[trigger] dec_t(
        enc_t(t) + r,
    ) == Some((t, r)) by {
        lemma_dec_enc_turn_phase(t, r);
    }
    lemma_dec_enc_opt(g.turn_phase, t6 + rest, enc_t, dec_t);
    assert(t6 + rest =~= e6 + (t7 + rest));
    lemma_dec_enc_u8(g.rolls_used, t7 + rest);
    assert(t7 + rest =~= e7 + (e8 + rest));
    lemma_dec_enc_u8(g.round, e8 + rest);
    lemma_dec_enc_u8(g.total_rounds, rest);
}

/// One browse-list line, field by field.
pub open spec fn spec_enc_room_info(r: RoomInfoV) -> Seq<u8> {
    spec_enc_u64(r.room_id) + spec_enc_str(r.room_name) + spec_enc_u8(r.player_count)
        + spec_enc_u8(r.max_players) + spec_enc_u8(r.spectator_count) + spec_enc_room_info_state(
        r.state,
    ) + spec_enc_bool(r.has_password)
}

#[verifier::opaque]
pub open spec fn spec_dec_room_info(b: Seq<u8>) -> Option<(RoomInfoV, Seq<u8>)> {
    match spec_dec_u64(b) {
        Some((room_id, r1)) => match spec_dec_str(r1) {
            Some((room_name, r2)) => match spec_dec_u8(r2) {
                Some((player_count, r3)) => match spec_dec_u8(r3) {
                    Some((max_players, r4)) => match spec_dec_u8(r4) {
                        Some((spectator_count, r5)) => match spec_dec_room_info_state(r5) {
                            Some((state, r6)) => match spec_dec_bool(r6) {
                                Some((has_password, r7)) => Some(
                                    (
                                        RoomInfoV {
                                            room_id,
                                            room_name,
                                            player_count,
                                            max_players,
                                            spectator_count,
                                            state,
                                            has_password,
                                        },
                                        r7,
                                    ),
                                ),
                                None => None,
                            },
                            None => None,
                        },
                        None => None,
                    },
                    None => None,
                },
                None => None,
            },
            None => None,
        },
        None => None,
    }
}

#[verifier::rlimit(100)]
pub proof fn lemma_dec_enc_room_info(r: RoomInfoV, rest: Seq<u8>)
    requires
        str_ok(r.room_name),
    ensures
        spec_dec_room_info(spec_enc_room_info(r) + rest) == Some((r, rest)),
{
    reveal(spec_dec_room_info);
    let e1 = spec_enc_u64(r.room_id);
    let e2 = spec_enc_str(r.room_name);
    let e3 = spec_enc_u8(r.player_count);
    let e4 = spec_enc_u8(r.max_players);
    let e5 = spec_enc_u8(r.spectator_count);
    let e6 = spec_enc_room_info_state(r.state);
    let e7 = spec_enc_bool(r.has_password);
    assert((e1 + e2 + e3 + e4 + e5 + e6 + e7) + rest =~= e1 + (e2 + (e3 + (e4 + (e5 + (e6 + (e7
        + rest)))))));
    lemma_dec_enc_u64(r.room_id, e2 + (e3 + (e4 + (e5 + (e6 + (e7 + rest))))));
    lemma_dec_enc_str(r.room_name, e3 + (e4 + (e5 + (e6 + (e7 + rest)))));
    lemma_dec_enc_u8(r.player_count, e4 + (e5 + (e6 + (e7 + rest))));
    lemma_dec_enc_u8(r.max_players, e5 + (e6 + (e7 + rest)));
    lemma_dec_enc_u8(r.spectator_count, e6 + (e7 + rest));
    lemma_dec_enc_room_info_state(r.state, e7 + rest);
    lemma_dec_enc_bool(r.has_password, rest);
}

/// One member line of a room snapshot.
pub open spec fn spec_enc_player_info(p: PlayerInfoV) -> Seq<u8> {
    spec_enc_u64(p.id) + spec_enc_str(p.name) + spec_enc_bool(p.connected)
}

#[verifier::opaque]
pub open spec fn spec_dec_player_info(b: Seq<u8>) -> Option<(PlayerInfoV, Seq<u8>)> {
    match spec_dec_u64(b) {
        Some((id, r1)) => match spec_dec_str(r1) {
            Some((name, r2)) => match spec_dec_bool(r2) {
                Some((connected, r3)) => Some((PlayerInfoV { id, name, connected }, r3)),
                None => None,
            },
            None => None,
        },
        None => None,
    }
}

pub proof fn lemma_dec_enc_player_info(p: PlayerInfoV, rest: Seq<u8>)
    requires
        str_ok(p.name),
    ensures
        spec_dec_player_info(spec_enc_player_info(p) + rest) == Some((p, rest)),
{
    reveal(spec_dec_player_info);
    let e1 = spec_enc_u64(p.id);
    let e2 = spec_enc_str(p.name);
    let e3 = spec_enc_bool(p.connected);
    assert((e1 + e2 + e3) + rest =~= e1 + (e2 + (e3 + rest)));
    lemma_dec_enc_u64(p.id, e2 + (e3 + rest));
    lemma_dec_enc_str(p.name, e3 + rest);
    lemma_dec_enc_bool(p.connected, rest);
}

/// A whole room snapshot, field by field.
/// The trailing fields of a room snapshot: membership, status, capacity.
pub open spec fn spec_enc_room_snapshot_tail(r: RoomSnapshotV) -> Seq<u8> {
    spec_enc_vec(r.players, |p: PlayerInfoV| spec_enc_player_info(p)) + (spec_enc_vec(
        r.spectators,
        |s: Seq<char>| spec_enc_str(s),
    ) + (spec_enc_room_state(r.state) + spec_enc_u8(r.max_players)))
}

pub open spec fn spec_enc_room_snapshot(r: RoomSnapshotV) -> Seq<u8> {
    spec_enc_u64(r.room_id) + (spec_enc_str(r.room_name) + (spec_enc_u64(r.host_id)
        + spec_enc_room_snapshot_tail(r)))
}

/// The decoded trailing fields of a room snapshot.
#[verifier::opaque]
pub open spec fn spec_dec_room_snapshot_tail(b: Seq<u8>) -> Option<
    ((Seq<PlayerInfoV>, Seq<Seq<char>>, RoomState, u8), Seq<u8>),
> {
    match spec_dec_vec(b, |b2: Seq<u8>| spec_dec_player_info(b2)) {
        Some((players, r4)) => match spec_dec_vec(r4, |b2: Seq<u8>| spec_dec_str(b2)) {
            Some((spectators, r5)) => match spec_dec_room_state(r5) {
                Some((state, r6)) => match spec_dec_u8(r6) {
                    Some((max_players, r7)) => Some(((players, spectators, state, max_players),
                        r7)),
                    None => None,
                },
                None => None,
            },
            None => None,
        },
        None => None,
    }
}

#[verifier::opaque]
pub open spec fn spec_dec_room_snapshot(b: Seq<u8>) -> Option<(RoomSnapshotV, Seq<u8>)> {
    match spec_dec_u64(b) {
        Some((room_id, r1)) => match spec_dec_str(r1) {
            Some((room_name, r2)) => match spec_dec_u64(r2) {
                Some((host_id, r3)) => match spec_dec_room_snapshot_tail(r3) {
                    Some(((players, spectators, state, max_players), r7)) => Some(
                        (
                            RoomSnapshotV {
                                room_id,
                                room_name,
                                host_id,
                                players,
                                spectators,
                                state,
                                max_players,
                            },
                            r7,
                        ),
                    ),
                    None => None,
                },
                None => None,
            },
            None => None,
        },
        None => None,
    }
}

pub open spec fn room_snapshot_ok(r: RoomSnapshotV) -> bool {
    &&& str_ok(r.room_name)
    &&& r.players.len() <= u64::MAX
    &&& forall|i: int| 0 <= i < r.players.len() ==> str_ok((#[trigger] r.players[i]).name)
    &&& r.spectators.len() <= u64::MAX
    &&& forall|i: int| 0 <= i < r.spectators.len() ==> str_ok(#[trigger] r.spectators[i])
}

#[verifier::rlimit(100)]
pub proof fn lemma_dec_enc_room_snapshot(r: RoomSnapshotV, rest: Seq<u8>)
    requires
        room_snapshot_ok(r),
    ensures
        spec_dec_room_snapshot(spec_enc_room_snapshot(r) + rest) == Some((r, rest)),
{
    reveal(spec_dec_room_snapshot);
    lemma_dec_enc_room_head(r.room_id, r.room_name, r.host_id, spec_enc_room_snapshot_tail(r),
        rest);
    lemma_dec_enc_room_snapshot_tail(r, rest);
}

/// Decoding the three leading fields of a room snapshot leaves exactly the
/// trailing bytes.
#[verifier::rlimit(100)]
#[verifier::spinoff_prover]
proof fn lemma_dec_enc_room_head(id: u64, name: Seq<char>, host: u64, tail: Seq<u8>, rest: Seq<u8>)
    requires
        str_ok(name),
    ensures
        ({
            let whole = (spec_enc_u64(id) + (spec_enc_str(name) + (spec_enc_u64(host) + tail)))
                + rest;
            &&& spec_dec_u64(whole) == Some((id, (spec_enc_str(name) + (spec_enc_u64(host)
                + tail)) + rest))
            &&& spec_dec_str((spec_enc_str(name) + (spec_enc_u64(host) + tail)) + rest) == Some(
                (name, (spec_enc_u64(host) + tail) + rest),
            )
            &&& spec_dec_u64((spec_enc_u64(host) + tail) + rest) == Some((host, tail + rest))
        }),
{
    let e1 = spec_enc_u64(id);
    let e2 = spec_enc_str(name);
    let e3 = spec_enc_u64(host);
    let t3 = e3 + tail;
    let t2 = e2 + t3;
    assert((e1 + t2) + rest =~= e1 + (t2 + rest));
    lemma_dec_enc_u64(id, t2 + rest);
    assert(t2 + rest =~= e2 + (t3 + rest));
    lemma_dec_enc_str(name, t3 + rest);
    assert(t3 + rest =~= e3 + (tail + rest));
    lemma_dec_enc_u64(host, tail + rest);
    assert((e2 + t3) + rest =~= t2 + rest);
    assert((e3 + tail) + rest =~= t3 + rest);
}

#[verifier::rlimit(100)]
proof fn lemma_dec_enc_room_snapshot_tail(r: RoomSnapshotV, rest: Seq<u8>)
    requires
        room_snapshot_ok(r),
    ensures
        spec_dec_room_snapshot_tail(spec_enc_room_snapshot_tail(r) + rest) == Some((
            (r.players, r.spectators, r.state, r.max_players),
            rest,
        )),
{
    reveal(spec_dec_room_snapshot_tail);
    let enc_p = |p: PlayerInfoV| spec_enc_player_info(p);
    let dec_p = |b2: Seq<u8>| spec_dec_player_info(b2);
    let enc_s = |s: Seq<char>| spec_enc_str(s);
    let dec_s = |b2: Seq<u8>| spec_dec_str(b2);
    let e4 = spec_enc_vec(r.players, enc_p);
    let e5 = spec_enc_vec(r.spectators, enc_s);
    let e6 = spec_enc_room_state(r.state);
    let e7 = spec_enc_u8(r.max_players);
    let t6 = e6 + e7;
    let t5 = e5 + t6;
    assert((e4 + t5) + rest =~= e4 + (t5 + rest));
    assert forall|p: PlayerInfoV, rr: Seq<u8>| r.players.contains(p) implies #[trigger] dec_p(
        enc_p(p) + rr,
    ) == Some((p, rr)) by {
        let i = choose|i: int| 0 <= i < r.players.len() && r.players[i] == p;
        lemma_dec_enc_player_info(p, rr);
    }
    lemma_dec_enc_vec(r.players, t5 + rest, enc_p, dec_p);
    assert(t5 + rest =~= e5 + (t6 + rest));
    assert forall|s: Seq<char>, rr: Seq<u8>| r.spectators.contains(s) implies #[trigger] dec_s(
        enc_s(s) + rr,
    ) == Some((s, rr)) by {
        let i = choose|i: int| 0 <= i < r.spectators.len() && r.spectators[i] == s;
        lemma_dec_enc_str(s, rr);
    }
    lemma_dec_enc_vec(r.spectators, t6 + rest, enc_s, dec_s);
    assert(t6 + rest =~= e6 + (e7 + rest));
    lemma_dec_enc_room_state(r.state, e7 + rest);
    lemma_dec_enc_u8(r.max_players, rest);
}

/// One final-standing line.
pub open spec fn spec_enc_final_score(f: FinalScoreV) -> Seq<u8> {
    spec_enc_u64(f.player_id) + spec_enc_str(f.player_name) + spec_enc_u32(f.total)
}

#[verifier::opaque]
pub open spec fn spec_dec_final_score(b: Seq<u8>) -> Option<(FinalScoreV, Seq<u8>)> {
    match spec_dec_u64(b) {
        Some((player_id, r1)) => match spec_dec_str(r1) {
            Some((player_name, r2)) => match spec_dec_u32(r2) {
                Some((total, r3)) => Some((FinalScoreV { player_id, player_name, total }, r3)),
                None => None,
            },
            None => None,
        },
        None => None,
    }
}

pub proof fn lemma_dec_enc_final_score(f: FinalScoreV, rest: Seq<u8>)
    requires
        str_ok(f.player_name),
    ensures
        spec_dec_final_score(spec_enc_final_score(f) + rest) == Some((f, rest)),
{
    reveal(spec_dec_final_score);
    let e1 = spec_enc_u64(f.player_id);
    let e2 = spec_enc_str(f.player_name);
    let e3 = spec_enc_u32(f.total);
    assert((e1 + e2 + e3) + rest =~= e1 + (e2 + (e3 + rest)));
    lemma_dec_enc_u64(f.player_id, e2 + (e3 + rest));
    lemma_dec_enc_str(f.player_name, e3 + rest);
    lemma_dec_enc_u32(f.total, rest);
}

// -- the message unions --

pub open spec fn spec_enc_bools(s: Seq<bool>) -> Seq<u8> {
    spec_enc_vec(s, |x: bool| spec_enc_bool(x))
}

#[verifier::opaque]
pub open spec fn spec_dec_bools(b: Seq<u8>) -> Option<(Seq<bool>, Seq<u8>)> {
    spec_dec_vec(b, |b2: Seq<u8>| spec_dec_bool(b2))
}

pub proof fn lemma_dec_enc_bools(s: Seq<bool>, rest: Seq<u8>)
    requires
        s.len() <= u64::MAX,
    ensures
        spec_dec_bools(spec_enc_bools(s) + rest) == Some((s, rest)),
{
    reveal(spec_dec_bools);
    let enc = |x: bool| spec_enc_bool(x);
    let dec = |b2: Seq<u8>| spec_dec_bool(b2);
    assert forall|x: bool, r: Seq<u8>| s.contains(x) implies #[trigger] dec(enc(x) + r) == Some(
        (x, r),
    ) by {
        lemma_dec_enc_bool(x, r);
    }
    lemma_dec_enc_vec(s, rest, enc, dec);
}

/// One tag byte, then the variant's fields in declaration order.
pub open spec fn spec_enc_client(m: ClientMessageV) -> Seq<u8> {
    match m {
        ClientMessageV::Hello { player_name, version } => seq![0u8] + (spec_enc_str(player_name)
            + spec_enc_str(version)),
        ClientMessageV::CreateRoom { room_name, max_players, password } => seq![1u8] + (
        spec_enc_str(room_name) + (spec_enc_u8(max_players) + spec_enc_opt_str(password))),
        ClientMessageV::JoinRoom { room_id, password } => seq![2u8] + (spec_enc_u64(room_id)
            + spec_enc_opt_str(password)),
        ClientMessageV::LeaveRoom => seq![3u8],
        ClientMessageV::ListRooms => seq![4u8],
        ClientMessageV::StartGame => seq![5u8],
        ClientMessageV::SpectateRoom { room_id } => seq![6u8] + spec_enc_u64(room_id),
        ClientMessageV::RollDice => seq![7u8],
        ClientMessageV::HoldDice { held } => seq![8u8] + spec_enc_bools(held),
        ClientMessageV::ScoreCategory { category } => seq![9u8] + spec_enc_category(category),
        ClientMessageV::Chat { message } => seq![10u8] + spec_enc_str(message),
        ClientMessageV::Ping => seq![11u8],
        ClientMessageV::Disconnect => seq![12u8],
    }
}

pub open spec fn spec_dec_client(b: Seq<u8>) -> Option<(ClientMessageV, Seq<u8>)> {
    match spec_dec_u8(b) {
        None => None,
        Some((tag, r)) => {
            if tag == 0 {
                match spec_dec_str(r) {
                    Some((player_name, r1)) => match spec_dec_str(r1) {
                        Some((version, r2)) => Some(
                            (ClientMessageV::Hello { player_name, version }, r2),
                        ),
                        None => None,
                    },
                    None => None,
                }
            } else if tag == 1 {
                match spec_dec_str(r) {
                    Some((room_name, r1)) => match spec_dec_u8(r1) {
                        Some((max_players, r2)) => match spec_dec_opt_str(r2) {
                            Some((password, r3)) => Some(
                                (
                                    ClientMessageV::CreateRoom {
                                        room_name,
                                        max_players,
                                        password,
                                    },
                                    r3,
                                ),
                            ),
                            None => None,
                        },
                        None => None,
                    },
                    None => None,
                }
            } else if tag == 2 {
                match spec_dec_u64(r) {
                    Some((room_id, r1)) => match spec_dec_opt_str(r1) {
                        Some((password, r2)) => Some(
                            (ClientMessageV::JoinRoom { room_id, password }, r2),
                        ),
                        None => None,
                    },
                    None => None,
                }
            } else if tag == 3 {
                Some((ClientMessageV::LeaveRoom, r))
            } else if tag == 4 {
                Some((ClientMessageV::ListRooms, r))
            } else if tag == 5 {
                Some((ClientMessageV::StartGame, r))
            } else if tag == 6 {
                match spec_dec_u64(r) {
                    Some((room_id, r1)) => Some((ClientMessageV::SpectateRoom { room_id }, r1)),
                    None => None,
                }
            } else if tag == 7 {
                Some((ClientMessageV::RollDice, r))
            } else if tag == 8 {
                match spec_dec_bools(r) {
                    Some((held, r1)) => if held.len() == 5 {
                        Some((ClientMessageV::HoldDice { held }, r1))
                    } else {
                        None
                    },
                    None => None,
                }
            } else if tag == 9 {
                match spec_dec_category(r) {
                    Some((category, r1)) => Some(
                        (ClientMessageV::ScoreCategory { category }, r1),
                    ),
                    None => None,
                }
            } else if tag == 10 {
                match spec_dec_str(r) {
                    Some((message, r1)) => Some((ClientMessageV::Chat { message }, r1)),
                    None => None,
                }
            } else if tag == 11 {
                Some((ClientMessageV::Ping, r))
            } else if tag == 12 {
                Some((ClientMessageV::Disconnect, r))
            } else {
                None
            }
        },
    }
}

/// Every length in the message fits its wire length field; true of every
/// message built in executable code.
pub open spec fn client_msg_ok(m: ClientMessageV) -> bool {
    match m {
        ClientMessageV::Hello { player_name, version } => str_ok(player_name) && str_ok(version),
        ClientMessageV::CreateRoom { room_name, password, .. } => str_ok(room_name) && opt_str_ok(
            password,
        ),
        ClientMessageV::JoinRoom { password, .. } => opt_str_ok(password),
        ClientMessageV::HoldDice { held } => held.len() == 5,
        ClientMessageV::Chat { message } => str_ok(message),
        _ => true,
    }
}

/// Decoding inverts encoding for every client message.
#[verifier::rlimit(100)]
#[verifier::spinoff_prover]
pub proof fn lemma_dec_enc_client(m: ClientMessageV, rest: Seq<u8>)
    requires
        client_msg_ok(m),
    ensures
        spec_dec_client(spec_enc_client(m) + rest) == Some((m, rest)),
{
    match m {
        ClientMessageV::Hello { player_name, version } => {
            let e1 = spec_enc_str(player_name);
            let e2 = spec_enc_str(version);
            assert((seq![0u8] + (e1 + e2)) + rest =~= seq![0u8] + ((e1 + e2) + rest));
            lemma_dec_enc_u8(0u8, (e1 + e2) + rest);
            assert((e1 + e2) + rest =~= e1 + (e2 + rest));
            lemma_dec_enc_str(player_name, e2 + rest);
            lemma_dec_enc_str(version, rest);
        }
        ClientMessageV::CreateRoom { room_name, max_players, password } => {
            let e1 = spec_enc_str(room_name);
            let e2 = spec_enc_u8(max_players);
            let e3 = spec_enc_opt_str(password);
            assert((seq![1u8] + (e1 + (e2 + e3))) + rest =~= seq![1u8] + ((e1 + (e2 + e3))
                + rest));
            lemma_dec_enc_u8(1u8, (e1 + (e2 + e3)) + rest);
            assert((e1 + (e2 + e3)) + rest =~= e1 + ((e2 + e3) + rest));
            lemma_dec_enc_str(room_name, (e2 + e3) + rest);
            assert((e2 + e3) + rest =~= e2 + (e3 + rest));
            lemma_dec_enc_u8(max_players, e3 + rest);
            lemma_dec_enc_opt_str(password, rest);
        }
        ClientMessageV::JoinRoom { room_id, password } => {
            let e1 = spec_enc_u64(room_id);
            let e2 = spec_enc_opt_str(password);
            assert((seq![2u8] + (e1 + e2)) + rest =~= seq![2u8] + ((e1 + e2) + rest));
            lemma_dec_enc_u8(2u8, (e1 + e2) + rest);
            assert((e1 + e2) + rest =~= e1 + (e2 + rest));
            lemma_dec_enc_u64(room_id, e2 + rest);
            lemma_dec_enc_opt_str(password, rest);
        }
        ClientMessageV::LeaveRoom => {
            lemma_dec_enc_u8(3u8, rest);
        }
        ClientMessageV::ListRooms => {
            lemma_dec_enc_u8(4u8, rest);
        }
        ClientMessageV::StartGame => {
            lemma_dec_enc_u8(5u8, rest);
        }
        ClientMessageV::SpectateRoom { room_id } => {
            let e1 = spec_enc_u64(room_id);
            assert((seq![6u8] + e1) + rest =~= seq![6u8] + (e1 + rest));
            lemma_dec_enc_u8(6u8, e1 + rest);
            lemma_dec_enc_u64(room_id, rest);
        }
        ClientMessageV::RollDice => {
            lemma_dec_enc_u8(7u8, rest);
        }
        ClientMessageV::HoldDice { held } => {
            let e1 = spec_enc_bools(held);
            assert((seq![8u8] + e1) + rest =~= seq![8u8] + (e1 + rest));
            lemma_dec_enc_u8(8u8, e1 + rest);
            lemma_dec_enc_bools(held, rest);
        }
        ClientMessageV::ScoreCategory { category } => {
            let e1 = spec_enc_category(category);
            assert((seq![9u8] + e1) + rest =~= seq![9u8] + (e1 + rest));
            lemma_dec_enc_u8(9u8, e1 + rest);
            lemma_dec_enc_category(category, rest);
        }
        ClientMessageV::Chat { message } => {
            let e1 = spec_enc_str(message);
            assert((seq![10u8] + e1) + rest =~= seq![10u8] + (e1 + rest));
            lemma_dec_enc_u8(10u8, e1 + rest);
            lemma_dec_enc_str(message, rest);
        }
        ClientMessageV::Ping => {
            lemma_dec_enc_u8(11u8, rest);
        }
        ClientMessageV::Disconnect => {
            lemma_dec_enc_u8(12u8, rest);
        }
    }
}

/// A whole-buffer decode: the one message the buffer holds, when it decodes
/// exactly and completely.
pub open spec fn spec_decode_client(b: Seq<u8>) -> Option<ClientMessageV> {
    match spec_dec_client(b) {
        Some((m, rest)) => if rest.len() == 0 {
            Some(m)
        } else {
            None
        },
        None => None,
    }
}

/// The round trip: every well-formed client message decodes back to itself.
pub proof fn lemma_client_round_trip(m: ClientMessageV)
    requires
        client_msg_ok(m),
    ensures
        spec_decode_client(spec_enc_client(m)) == Some(m),
{
    lemma_dec_enc_client(m, Seq::empty());
    assert(spec_enc_client(m) + Seq::<u8>::empty() =~= spec_enc_client(m));
}

pub open spec fn spec_enc_room_infos(s: Seq<RoomInfoV>) -> Seq<u8> {
    spec_enc_vec(s, |r: RoomInfoV| spec_enc_room_info(r))
}

#[verifier::opaque]
pub open spec fn spec_dec_room_infos(b: Seq<u8>) -> Option<(Seq<RoomInfoV>, Seq<u8>)> {
    spec_dec_vec(b, |b2: Seq<u8>| spec_dec_room_info(b2))
}

pub proof fn lemma_dec_enc_room_infos(s: Seq<RoomInfoV>, rest: Seq<u8>)
    requires
        s.len() <= u64::MAX,
        forall|i: int| 0 <= i < s.len() ==> str_ok((#[trigger] s[i]).room_name),
    ensures
        spec_dec_room_infos(spec_enc_room_infos(s) + rest) == Some((s, rest)),
{
    reveal(spec_dec_room_infos);
    let enc = |r: RoomInfoV| spec_enc_room_info(r);
    let dec = |b2: Seq<u8>| spec_dec_room_info(b2);
    assert forall|x: RoomInfoV, r: Seq<u8>| s.contains(x) implies #[trigger] dec(enc(x) + r)
        == Some((x, r)) by {
        let i = choose|i: int| 0 <= i < s.len() && s[i] == x;
        lemma_dec_enc_room_info(x, r);
    }
    lemma_dec_enc_vec(s, rest, enc, dec);
}

pub open spec fn spec_enc_final_scores(s: Seq<FinalScoreV>) -> Seq<u8> {
    spec_enc_vec(s, |f: FinalScoreV| spec_enc_final_score(f))
}

#[verifier::opaque]
pub open spec fn spec_dec_final_scores(b: Seq<u8>) -> Option<(Seq<FinalScoreV>, Seq<u8>)> {
    spec_dec_vec(b, |b2: Seq<u8>| spec_dec_final_score(b2))
}

pub proof fn lemma_dec_enc_final_scores(s: Seq<FinalScoreV>, rest: Seq<u8>)
    requires
        s.len() <= u64::MAX,
        forall|i: int| 0 <= i < s.len() ==> str_ok((#[trigger] s[i]).player_name),
    ensures
        spec_dec_final_scores(spec_enc_final_scores(s) + rest) == Some((s, rest)),
{
    reveal(spec_dec_final_scores);
    let enc = |f: FinalScoreV| spec_enc_final_score(f);
    let dec = |b2: Seq<u8>| spec_dec_final_score(b2);
    assert forall|x: FinalScoreV, r: Seq<u8>| s.contains(x) implies #[trigger] dec(enc(x) + r)
        == Some((x, r)) by {
        let i = choose|i: int| 0 <= i < s.len() && s[i] == x;
        lemma_dec_enc_final_score(x, r);
    }
    lemma_dec_enc_vec(s, rest, enc, dec);
}

/// One tag byte, then the variant's fields in declaration order.
pub open spec fn spec_enc_server(m: ServerMessageV) -> Seq<u8> {
    match m {
        ServerMessageV::Welcome { player_id, server_version } => seq![0u8] + (spec_enc_u64(
            player_id,
        ) + spec_enc_str(server_version)),
        ServerMessageV::HandshakeError { reason } => seq![1u8] + spec_enc_str(reason),
        ServerMessageV::RoomList { rooms } => seq![2u8] + spec_enc_room_infos(rooms),
        ServerMessageV::RoomJoined { room_id, room_state } => seq![3u8] + (spec_enc_u64(room_id)
            + spec_enc_room_snapshot(room_state)),
        ServerMessageV::RoomUpdate { room_state } => seq![4u8] + spec_enc_room_snapshot(
            room_state,
        ),
        ServerMessageV::RoomLeft => seq![5u8],
        ServerMessageV::GameStarted { game_state } => seq![6u8] + spec_enc_game_snapshot(
            game_state,
        ),
        ServerMessageV::GameState { game_state } => seq![7u8] + spec_enc_game_snapshot(
            game_state,
        ),
        ServerMessageV::TurnStarted { player_id, player_name, turn_number } => seq![8u8] + (
        spec_enc_u64(player_id) + (spec_enc_str(player_name) + spec_enc_u8(turn_number))),
        ServerMessageV::DiceRolled { dice, rolls_remaining } => seq![9u8] + (spec_enc_dice(dice)
            + spec_enc_u8(rolls_remaining)),
        ServerMessageV::DiceHeld { dice } => seq![10u8] + spec_enc_dice(dice),
        ServerMessageV::CategoryScored { player_id, category, score } => seq![11u8] + (
        spec_enc_u64(player_id) + (spec_enc_category(category) + spec_enc_u16(score))),
        ServerMessageV::TurnEnded { player_id } => seq![12u8] + spec_enc_u64(player_id),
        ServerMessageV::GameOver { final_scores, winner_id } => seq![13u8] + (
        spec_enc_final_scores(final_scores) + spec_enc_u64(winner_id)),
        ServerMessageV::ChatMessage { sender_id, sender_name, message, timestamp } => seq![14u8]
            + (spec_enc_u64(sender_id) + (spec_enc_str(sender_name) + (spec_enc_str(message)
            + spec_enc_i64(timestamp)))),
        ServerMessageV::SystemMessage { message } => seq![15u8] + spec_enc_str(message),
        ServerMessageV::Error { code, message } => seq![16u8] + (spec_enc_error_code(code)
            + spec_enc_str(message)),
        ServerMessageV::Pong => seq![17u8],
        ServerMessageV::PlayerJoined { player_id, player_name } => seq![18u8] + (spec_enc_u64(
            player_id,
        ) + spec_enc_str(player_name)),
        ServerMessageV::PlayerLeft { player_id, player_name } => seq![19u8] + (spec_enc_u64(
            player_id,
        ) + spec_enc_str(player_name)),
        ServerMessageV::SpectatorJoined { player_name } => seq![20u8] + spec_enc_str(player_name),
        ServerMessageV::SpectatorLeft { player_name } => seq![21u8] + spec_enc_str(player_name),
    }
}

/// The variants with tags below 11.
#[verifier::opaque]
pub open spec fn spec_dec_server_low(tag: u8, r: Seq<u8>) -> Option<(ServerMessageV, Seq<u8>)> {
    if tag == 0 {
        match spec_dec_u64(r) {
            Some((player_id, r1)) => match spec_dec_str(r1) {
                Some((server_version, r2)) => Some(
                    (ServerMessageV::Welcome { player_id, server_version }, r2),
                ),
                None => None,
            },
            None => None,
        }
    } else if tag == 1 {
        match spec_dec_str(r) {
            Some((reason, r1)) => Some((ServerMessageV::HandshakeError { reason }, r1)),
            None => None,
        }
    } else if tag == 2 {
        match spec_dec_room_infos(r) {
            Some((rooms, r1)) => Some((ServerMessageV::RoomList { rooms }, r1)),
            None => None,
        }
    } else if tag == 3 {
        match spec_dec_u64(r) {
            Some((room_id, r1)) => match spec_dec_room_snapshot(r1) {
                Some((room_state, r2)) => Some(
                    (ServerMessageV::RoomJoined { room_id, room_state }, r2),
                ),
                None => None,
            },
            None => None,
        }
    } else if tag == 4 {
        match spec_dec_room_snapshot(r) {
            Some((room_state, r1)) => Some((ServerMessageV::RoomUpdate { room_state }, r1)),
            None => None,
        }
    } else if tag == 5 {
        Some((ServerMessageV::RoomLeft, r))
    } else if tag == 6 {
        match spec_dec_game_snapshot(r) {
            Some((game_state, r1)) => Some((ServerMessageV::GameStarted { game_state }, r1)),
            None => None,
        }
    } else if tag == 7 {
        match spec_dec_game_snapshot(r) {
            Some((game_state, r1)) => Some((ServerMessageV::GameState { game_state }, r1)),
            None => None,
        }
    } else if tag == 8 {
        match spec_dec_u64(r) {
            Some((player_id, r1)) => match spec_dec_str(r1) {
                Some((player_name, r2)) => match spec_dec_u8(r2) {
                    Some((turn_number, r3)) => Some(
                        (ServerMessageV::TurnStarted { player_id, player_name, turn_number }, r3),
                    ),
                    None => None,
                },
                None => None,
            },
            None => None,
        }
    } else if tag == 9 {
        match spec_dec_dice(r) {
            Some((dice, r1)) => match spec_dec_u8(r1) {
                Some((rolls_remaining, r2)) => Some(
                    (ServerMessageV::DiceRolled { dice, rolls_remaining }, r2),
                ),
                None => None,
            },
            None => None,
        }
    } else {
        match spec_dec_dice(r) {
            Some((dice, r1)) => Some((ServerMessageV::DiceHeld { dice }, r1)),
            None => None,
        }
    }
}

/// The variants with tags 11 and above.
#[verifier::opaque]
pub open spec fn spec_dec_server_high(tag: u8, r: Seq<u8>) -> Option<(ServerMessageV, Seq<u8>)> {
    if tag == 11 {
        match spec_dec_u64(r) {
            Some((player_id, r1)) => match spec_dec_category(r1) {
                Some((category, r2)) => match spec_dec_u16(r2) {
                    Some((score, r3)) => Some(
                        (ServerMessageV::CategoryScored { player_id, category, score }, r3),
                    ),
                    None => None,
                },
                None => None,
            },
            None => None,
        }
    } else if tag == 12 {
        match spec_dec_u64(r) {
            Some((player_id, r1)) => Some((ServerMessageV::TurnEnded { player_id }, r1)),
            None => None,
        }
    } else if tag == 13 {
        match spec_dec_final_scores(r) {
            Some((final_scores, r1)) => match spec_dec_u64(r1) {
                Some((winner_id, r2)) => Some(
                    (ServerMessageV::GameOver { final_scores, winner_id }, r2),
                ),
                None => None,
            },
            None => None,
        }
    } else if tag == 14 {
        match spec_dec_u64(r) {
            Some((sender_id, r1)) => match spec_dec_str(r1) {
                Some((sender_name, r2)) => match spec_dec_str(r2) {
                    Some((message, r3)) => match spec_dec_i64(r3) {
                        Some((timestamp, r4)) => Some(
                            (
                                ServerMessageV::ChatMessage {
                                    sender_id,
                                    sender_name,
                                    message,
                                    timestamp,
                                },
                                r4,
                            ),
                        ),
                        None => None,
                    },
                    None => None,
                },
                None => None,
            },
            None => None,
        }
    } else if tag == 15 {
        match spec_dec_str(r) {
            Some((message, r1)) => Some((ServerMessageV::SystemMessage { message }, r1)),
            None => None,
        }
    } else if tag == 16 {
        match spec_dec_error_code(r) {
            Some((code, r1)) => match spec_dec_str(r1) {
                Some((message, r2)) => Some((ServerMessageV::Error { code, message }, r2)),
                None => None,
            },
            None => None,
        }
    } else if tag == 17 {
        Some((ServerMessageV::Pong, r))
    } else if tag == 18 {
        match spec_dec_u64(r) {
            Some((player_id, r1)) => match spec_dec_str(r1) {
                Some((player_name, r2)) => Some(
                    (ServerMessageV::PlayerJoined { player_id, player_name }, r2),
                ),
                None => None,
            },
            None => None,
        }
    } else if tag == 19 {
        match spec_dec_u64(r) {
            Some((player_id, r1)) => match spec_dec_str(r1) {
                Some((player_name, r2)) => Some(
                    (ServerMessageV::PlayerLeft { player_id, player_name }, r2),
                ),
                None => None,
            },
            None => None,
        }
    } else if tag == 20 {
        match spec_dec_str(r) {
            Some((player_name, r1)) => Some(
                (ServerMessageV::SpectatorJoined { player_name }, r1),
            ),
            None => None,
        }
    } else if tag == 21 {
        match spec_dec_str(r) {
            Some((player_name, r1)) => Some((ServerMessageV::SpectatorLeft { player_name }, r1)),
            None => None,
        }
    } else {
        None
    }
}

pub open spec fn spec_dec_server(b: Seq<u8>) -> Option<(ServerMessageV, Seq<u8>)> {
    match spec_dec_u8(b) {
        None => None,
        Some((tag, r)) => if tag <= 10 {
            spec_dec_server_low(tag, r)
        } else {
            spec_dec_server_high(tag, r)
        },
    }
}

/// Every length in the message fits its wire length field; true of every
/// message built in executable code.
pub open spec fn server_msg_ok(m: ServerMessageV) -> bool {
    match m {
        ServerMessageV::Welcome { server_version, .. } => str_ok(server_version),
        ServerMessageV::HandshakeError { reason } => str_ok(reason),
        ServerMessageV::RoomList { rooms } => rooms.len() <= u64::MAX && (forall|i: int|
            0 <= i < rooms.len() ==> str_ok((#[trigger] rooms[i]).room_name)),
        ServerMessageV::RoomJoined { room_state, .. } => room_snapshot_ok(room_state),
        ServerMessageV::RoomUpdate { room_state } => room_snapshot_ok(room_state),
        ServerMessageV::GameStarted { game_state } => game_snapshot_ok(game_state),
        ServerMessageV::GameState { game_state } => game_snapshot_ok(game_state),
        ServerMessageV::TurnStarted { player_name, .. } => str_ok(player_name),
        ServerMessageV::DiceRolled { dice, .. } => dice.len() <= u64::MAX,
        ServerMessageV::DiceHeld { dice } => dice.len() <= u64::MAX,
        ServerMessageV::GameOver { final_scores, .. } => final_scores.len() <= u64::MAX && (
        forall|i: int| 0 <= i < final_scores.len() ==> str_ok(
            (#[trigger] final_scores[i]).player_name,
        )),
        ServerMessageV::ChatMessage { sender_name, message, .. } => str_ok(sender_name) && str_ok(
            message,
        ),
        ServerMessageV::SystemMessage { message } => str_ok(message),
        ServerMessageV::Error { message, .. } => str_ok(message),
        ServerMessageV::PlayerJoined { player_name, .. } => str_ok(player_name),
        ServerMessageV::PlayerLeft { player_name, .. } => str_ok(player_name),
        ServerMessageV::SpectatorJoined { player_name } => str_ok(player_name),
        ServerMessageV::SpectatorLeft { player_name } => str_ok(player_name),
        _ => true,
    }
}

/// Decoding inverts encoding for every server message.
pub proof fn lemma_dec_enc_server(m: ServerMessageV, rest: Seq<u8>)
    requires
        server_msg_ok(m),
    ensures
        spec_dec_server(spec_enc_server(m) + rest) == Some((m, rest)),
{
    match m {
        ServerMessageV::Welcome { .. } | ServerMessageV::HandshakeError { .. }
            | ServerMessageV::RoomList { .. } | ServerMessageV::RoomJoined { .. }
            | ServerMessageV::RoomUpdate { .. } | ServerMessageV::RoomLeft
            | ServerMessageV::GameStarted { .. } => {
            match m {
                ServerMessageV::RoomJoined { .. } | ServerMessageV::RoomUpdate { .. }
                    | ServerMessageV::GameStarted { .. } => {
                    lemma_dec_enc_server_a2(m, rest);
                }
                _ => {
                    lemma_dec_enc_server_a1(m, rest);
                }
            }
        }
        ServerMessageV::GameState { .. } | ServerMessageV::TurnStarted { .. }
            | ServerMessageV::DiceRolled { .. } | ServerMessageV::DiceHeld { .. }
            | ServerMessageV::CategoryScored { .. } | ServerMessageV::TurnEnded { .. }
            | ServerMessageV::GameOver { .. } => {
            lemma_dec_enc_server_b(m, rest);
        }
        _ => {
            lemma_dec_enc_server_c(m, rest);
        }
    }
}

#[verifier::rlimit(100)]
#[verifier::spinoff_prover]
proof fn lemma_dec_enc_server_a1(m: ServerMessageV, rest: Seq<u8>)
    requires
        server_msg_ok(m),
        m is Welcome || m is HandshakeError || m is RoomList || m is RoomLeft,
    ensures
        spec_dec_server(spec_enc_server(m) + rest) == Some((m, rest)),
{
    reveal(spec_dec_server_low);
    match m {
        ServerMessageV::Welcome { player_id, server_version } => {
            let e1 = spec_enc_u64(player_id);
            let e2 = spec_enc_str(server_version);
            assert((seq![0u8] + (e1 + e2)) + rest =~= seq![0u8] + ((e1 + e2) + rest));
            lemma_dec_enc_u8(0u8, (e1 + e2) + rest);
            assert((e1 + e2) + rest =~= e1 + (e2 + rest));
            lemma_dec_enc_u64(player_id, e2 + rest);
            lemma_dec_enc_str(server_version, rest);
        }
        ServerMessageV::HandshakeError { reason } => {
            let e1 = spec_enc_str(reason);
            assert((seq![1u8] + e1) + rest =~= seq![1u8] + (e1 + rest));
            lemma_dec_enc_u8(1u8, e1 + rest);
            lemma_dec_enc_str(reason, rest);
        }
        ServerMessageV::RoomList { rooms } => {
            let e1 = spec_enc_room_infos(rooms);
            assert((seq![2u8] + e1) + rest =~= seq![2u8] + (e1 + rest));
            lemma_dec_enc_u8(2u8, e1 + rest);
            lemma_dec_enc_room_infos(rooms, rest);
        }
        ServerMessageV::RoomLeft => {
            lemma_dec_enc_u8(5u8, rest);
        }
        _ => {
            assert(false);
        }
    }
}

#[verifier::rlimit(100)]
#[verifier::spinoff_prover]
proof fn lemma_dec_enc_server_a2(m: ServerMessageV, rest: Seq<u8>)
    requires
        server_msg_ok(m),
        m is RoomJoined || m is RoomUpdate || m is GameStarted,
    ensures
        spec_dec_server(spec_enc_server(m) + rest) == Some((m, rest)),
{
    reveal(spec_dec_server_low);
    match m {
        ServerMessageV::RoomJoined { room_id, room_state } => {
            let e1 = spec_enc_u64(room_id);
            let e2 = spec_enc_room_snapshot(room_state);
            assert((seq![3u8] + (e1 + e2)) + rest =~= seq![3u8] + ((e1 + e2) + rest));
            lemma_dec_enc_u8(3u8, (e1 + e2) + rest);
            assert((e1 + e2) + rest =~= e1 + (e2 + rest));
            lemma_dec_enc_u64(room_id, e2 + rest);
            lemma_dec_enc_room_snapshot(room_state, rest);
        }
        ServerMessageV::RoomUpdate { room_state } => {
            let e1 = spec_enc_room_snapshot(room_state);
            assert((seq![4u8] + e1) + rest =~= seq![4u8] + (e1 + rest));
            lemma_dec_enc_u8(4u8, e1 + rest);
            lemma_dec_enc_room_snapshot(room_state, rest);
        }
        ServerMessageV::GameStarted { game_state } => {
            let e1 = spec_enc_game_snapshot(game_state);
            assert((seq![6u8] + e1) + rest =~= seq![6u8] + (e1 + rest));
            lemma_dec_enc_u8(6u8, e1 + rest);
            lemma_dec_enc_game_snapshot(game_state, rest);
        }

        _ => {
            assert(false);
        }
    }
}

#[verifier::rlimit(100)]
#[verifier::spinoff_prover]
proof fn lemma_dec_enc_server_b(m: ServerMessageV, rest: Seq<u8>)
    requires
        server_msg_ok(m),
        m is GameState || m is TurnStarted || m is DiceRolled || m is DiceHeld || m is CategoryScored || m is TurnEnded || m is GameOver,
    ensures
        spec_dec_server(spec_enc_server(m) + rest) == Some((m, rest)),
{
    reveal(spec_dec_server_low);
    reveal(spec_dec_server_high);
    match m {
        ServerMessageV::GameState { game_state } => {
            let e1 = spec_enc_game_snapshot(game_state);
            assert((seq![7u8] + e1) + rest =~= seq![7u8] + (e1 + rest));
            lemma_dec_enc_u8(7u8, e1 + rest);
            lemma_dec_enc_game_snapshot(game_state, rest);
        }
        ServerMessageV::TurnStarted { player_id, player_name, turn_number } => {
            let e1 = spec_enc_u64(player_id);
            let e2 = spec_enc_str(player_name);
            let e3 = spec_enc_u8(turn_number);
            assert((seq![8u8] + (e1 + (e2 + e3))) + rest =~= seq![8u8] + ((e1 + (e2 + e3))
                + rest));
            lemma_dec_enc_u8(8u8, (e1 + (e2 + e3)) + rest);
            assert((e1 + (e2 + e3)) + rest =~= e1 + ((e2 + e3) + rest));
            lemma_dec_enc_u64(player_id, (e2 + e3) + rest);
            assert((e2 + e3) + rest =~= e2 + (e3 + rest));
            lemma_dec_enc_str(player_name, e3 + rest);
            lemma_dec_enc_u8(turn_number, rest);
        }
        ServerMessageV::DiceRolled { dice, rolls_remaining } => {
            let e1 = spec_enc_dice(dice);
            let e2 = spec_enc_u8(rolls_remaining);
            assert((seq![9u8] + (e1 + e2)) + rest =~= seq![9u8] + ((e1 + e2) + rest));
            lemma_dec_enc_u8(9u8, (e1 + e2) + rest);
            assert((e1 + e2) + rest =~= e1 + (e2 + rest));
            lemma_dec_enc_dice(dice, e2 + rest);
            lemma_dec_enc_u8(rolls_remaining, rest);
        }
        ServerMessageV::DiceHeld { dice } => {
            let e1 = spec_enc_dice(dice);
            assert((seq![10u8] + e1) + rest =~= seq![10u8] + (e1 + rest));
            lemma_dec_enc_u8(10u8, e1 + rest);
            lemma_dec_enc_dice(dice, rest);
        }
        ServerMessageV::CategoryScored { player_id, category, score } => {
            let e1 = spec_enc_u64(player_id);
            let e2 = spec_enc_category(category);
            let e3 = spec_enc_u16(score);
            assert((seq![11u8] + (e1 + (e2 + e3))) + rest =~= seq![11u8] + ((e1 + (e2 + e3))
                + rest));
            lemma_dec_enc_u8(11u8, (e1 + (e2 + e3)) + rest);
            assert((e1 + (e2 + e3)) + rest =~= e1 + ((e2 + e3) + rest));
            lemma_dec_enc_u64(player_id, (e2 + e3) + rest);
            assert((e2 + e3) + rest =~= e2 + (e3 + rest));
            lemma_dec_enc_category(category, e3 + rest);
            lemma_dec_enc_u16(score, rest);
        }
        ServerMessageV::TurnEnded { player_id } => {
            let e1 = spec_enc_u64(player_id);
            assert((seq![12u8] + e1) + rest =~= seq![12u8] + (e1 + rest));
            lemma_dec_enc_u8(12u8, e1 + rest);
            lemma_dec_enc_u64(player_id, rest);
        }
        ServerMessageV::GameOver { final_scores, winner_id } => {
            let e1 = spec_enc_final_scores(final_scores);
            let e2 = spec_enc_u64(winner_id);
            assert((seq![13u8] + (e1 + e2)) + rest =~= seq![13u8] + ((e1 + e2) + rest));
            lemma_dec_enc_u8(13u8, (e1 + e2) + rest);
            assert((e1 + e2) + rest =~= e1 + (e2 + rest));
            lemma_dec_enc_final_scores(final_scores, e2 + rest);
            lemma_dec_enc_u64(winner_id, rest);
        }
        _ => {
            assert(false);
        }
    }
}

#[verifier::rlimit(100)]
#[verifier::spinoff_prover]
proof fn lemma_dec_enc_server_c(m: ServerMessageV, rest: Seq<u8>)
    requires
        server_msg_ok(m),
        m is ChatMessage || m is SystemMessage || m is Error || m is Pong || m is PlayerJoined || m is PlayerLeft || m is SpectatorJoined || m is SpectatorLeft,
    ensures
        spec_dec_server(spec_enc_server(m) + rest) == Some((m, rest)),
{
    reveal(spec_dec_server_low);
    reveal(spec_dec_server_high);
    match m {
        ServerMessageV::ChatMessage { sender_id, sender_name, message, timestamp } => {
            let e1 = spec_enc_u64(sender_id);
            let e2 = spec_enc_str(sender_name);
            let e3 = spec_enc_str(message);
            let e4 = spec_enc_i64(timestamp);
            assert((seq![14u8] + (e1 + (e2 + (e3 + e4)))) + rest =~= seq![14u8] + ((e1 + (e2 + (
            e3 + e4))) + rest));
            lemma_dec_enc_u8(14u8, (e1 + (e2 + (e3 + e4))) + rest);
            assert((e1 + (e2 + (e3 + e4))) + rest =~= e1 + ((e2 + (e3 + e4)) + rest));
            lemma_dec_enc_u64(sender_id, (e2 + (e3 + e4)) + rest);
            assert((e2 + (e3 + e4)) + rest =~= e2 + ((e3 + e4) + rest));
            lemma_dec_enc_str(sender_name, (e3 + e4) + rest);
            assert((e3 + e4) + rest =~= e3 + (e4 + rest));
            lemma_dec_enc_str(message, e4 + rest);
            lemma_dec_enc_i64(timestamp, rest);
        }
        ServerMessageV::SystemMessage { message } => {
            let e1 = spec_enc_str(message);
            assert((seq![15u8] + e1) + rest =~= seq![15u8] + (e1 + rest));
            lemma_dec_enc_u8(15u8, e1 + rest);
            lemma_dec_enc_str(message, rest);
        }
        ServerMessageV::Error { code, message } => {
            let e1 = spec_enc_error_code(code);
            let e2 = spec_enc_str(message);
            assert((seq![16u8] + (e1 + e2)) + rest =~= seq![16u8] + ((e1 + e2) + rest));
            lemma_dec_enc_u8(16u8, (e1 + e2) + rest);
            assert((e1 + e2) + rest =~= e1 + (e2 + rest));
            lemma_dec_enc_error_code(code, e2 + rest);
            lemma_dec_enc_str(message, rest);
        }
        ServerMessageV::Pong => {
            lemma_dec_enc_u8(17u8, rest);
        }
        ServerMessageV::PlayerJoined { player_id, player_name } => {
            let e1 = spec_enc_u64(player_id);
            let e2 = spec_enc_str(player_name);
            assert((seq![18u8] + (e1 + e2)) + rest =~= seq![18u8] + ((e1 + e2) + rest));
            lemma_dec_enc_u8(18u8, (e1 + e2) + rest);
            assert((e1 + e2) + rest =~= e1 + (e2 + rest));
            lemma_dec_enc_u64(player_id, e2 + rest);
            lemma_dec_enc_str(player_name, rest);
        }
        ServerMessageV::PlayerLeft { player_id, player_name } => {
            let e1 = spec_enc_u64(player_id);
            let e2 = spec_enc_str(player_name);
            assert((seq![19u8] + (e1 + e2)) + rest =~= seq![19u8] + ((e1 + e2) + rest));
            lemma_dec_enc_u8(19u8, (e1 + e2) + rest);
            assert((e1 + e2) + rest =~= e1 + (e2 + rest));
            lemma_dec_enc_u64(player_id, e2 + rest);
            lemma_dec_enc_str(player_name, rest);
        }
        ServerMessageV::SpectatorJoined { player_name } => {
            let e1 = spec_enc_str(player_name);
            assert((seq![20u8] + e1) + rest =~= seq![20u8] + (e1 + rest));
            lemma_dec_enc_u8(20u8, e1 + rest);
            lemma_dec_enc_str(player_name, rest);
        }
        ServerMessageV::SpectatorLeft { player_name } => {
            let e1 = spec_enc_str(player_name);
            assert((seq![21u8] + e1) + rest =~= seq![21u8] + (e1 + rest));
            lemma_dec_enc_u8(21u8, e1 + rest);
            lemma_dec_enc_str(player_name, rest);
        }

        _ => {
            assert(false);
        }
    }
}

/// A whole-buffer decode for server messages.
pub open spec fn spec_decode_server(b: Seq<u8>) -> Option<ServerMessageV> {
    match spec_dec_server(b) {
        Some((m, rest)) => if rest.len() == 0 {
            Some(m)
        } else {
            None
        },
        None => None,
    }
}

/// The round trip: every well-formed server message decodes back to itself.
pub proof fn lemma_server_round_trip(m: ServerMessageV)
    requires
        server_msg_ok(m),
    ensures
        spec_decode_server(spec_enc_server(m)) == Some(m),
{
    lemma_dec_enc_server(m, Seq::empty());
    assert(spec_enc_server(m) + Seq::<u8>::empty() =~= spec_enc_server(m));
}

// -- executable writers --

/// Relies on `String::from_utf8`: succeeds exactly on valid UTF-8 input,
/// and the resulting string's characters are the input's decoding.
#[verifier::external_body]
fn string_from_utf8(v: Vec<u8>) -> (r: Option<String>)
    ensures
        r is Some <==> valid_utf8(v@),
        r matches Some(s) ==> s@ == decode_utf8(v@),
{
    match String::from_utf8(v) {
        Ok(s) => Some(s),
        Err(_) => None,
    }
}

fn put_u8(out: &mut Vec<u8>, x: u8)
    ensures
        final(out)@ == old(out)@ + spec_enc_u8(x),
{
    out.push(x);
    proof {
        assert(out@ =~= old(out)@ + spec_enc_u8(x));
    }
}

fn put_u16(out: &mut Vec<u8>, x: u16)
    ensures
        final(out)@ == old(out)@ + spec_enc_u16(x),
{
    proof {
        assert((x & 0xff) < 256 && ((x >> 8) & 0xff) < 256) by (bit_vector);
    }
    out.push((x & 0xff) as u8);
    out.push(((x >> 8) & 0xff) as u8);
    proof {
        assert(out@ =~= old(out)@ + spec_enc_u16(x));
    }
}

fn put_u32(out: &mut Vec<u8>, x: u32)
    ensures
        final(out)@ == old(out)@ + spec_enc_u32(x),
{
    proof {
        assert((x & 0xffff) < 0x10000 && ((x >> 16) & 0xffff) < 0x10000) by (bit_vector);
    }
    put_u16(out, (x & 0xffff) as u16);
    put_u16(out, ((x >> 16) & 0xffff) as u16);
    proof {
        assert(out@ =~= old(out)@ + spec_enc_u32(x));
    }
}

fn put_u64(out: &mut Vec<u8>, x: u64)
    ensures
        final(out)@ == old(out)@ + spec_enc_u64(x),
{
    proof {
        assert((x & 0xffffffff) < 0x100000000 && ((x >> 32) & 0xffffffff) < 0x100000000)
            by (bit_vector);
    }
    put_u32(out, (x & 0xffffffff) as u32);
    put_u32(out, ((x >> 32) & 0xffffffff) as u32);
    proof {
        assert(out@ =~= old(out)@ + spec_enc_u64(x));
    }
}

fn put_i64(out: &mut Vec<u8>, x: i64)
    ensures
        final(out)@ == old(out)@ + spec_enc_i64(x),
{
    put_u64(out, #[verifier::truncate] (x as u64));
}

fn put_bool(out: &mut Vec<u8>, x: bool)
    ensures
        final(out)@ == old(out)@ + spec_enc_bool(x),
{
    out.push(if x {
        1
    } else {
        0
    });
    proof {
        assert(out@ =~= old(out)@ + spec_enc_bool(x));
    }
}

fn put_str(out: &mut Vec<u8>, s: &String)
    ensures
        final(out)@ == old(out)@ + spec_enc_str(s@),
{
    let bytes = s.as_str().as_bytes_vec();
    put_u64(out, bytes.len() as u64);
    let ghost mid = out@;
    let mut k: usize = 0;
    let n = bytes.len();
    while k < n
        invariant
            k <= n,
            n == bytes@.len(),
            out@ == mid + bytes@.take(k as int),
        decreases n - k,
    {
        out.push(bytes[k]);
        proof {
            assert(out@ =~= mid + bytes@.take(k as int + 1));
        }
        k += 1;
    }
    proof {
        reveal(spec_enc_str);
        assert(bytes@.take(n as int) =~= bytes@);
        assert(out@ =~= old(out)@ + spec_enc_str(s@));
    }
}

// -- executable readers --

fn get_u8(buf: &Vec<u8>, pos: usize) -> (r: Option<(u8, usize)>)
    requires
        pos <= buf@.len(),
    ensures
        r matches Some((x, p)) ==> pos < p <= buf@.len() && spec_dec_u8(buf@.skip(pos as int))
            == Some((x, buf@.skip(p as int))),
        r is None ==> spec_dec_u8(buf@.skip(pos as int)) is None,
{
    if pos < buf.len() {
        proof {
            assert(buf@.skip(pos as int)[0] == buf@[pos as int]);
            assert(buf@.skip(pos as int).drop_first() =~= buf@.skip(pos as int + 1));
        }
        Some((buf[pos], pos + 1))
    } else {
        None
    }
}

fn get_u16(buf: &Vec<u8>, pos: usize) -> (r: Option<(u16, usize)>)
    requires
        pos <= buf@.len(),
    ensures
        r matches Some((x, p)) ==> pos < p <= buf@.len() && spec_dec_u16(buf@.skip(pos as int))
            == Some((x, buf@.skip(p as int))),
        r is None ==> spec_dec_u16(buf@.skip(pos as int)) is None,
{
    if buf.len() - pos >= 2 {
        proof {
            assert(buf@.skip(pos as int)[0] == buf@[pos as int]);
            assert(buf@.skip(pos as int)[1] == buf@[pos as int + 1]);
            assert(buf@.skip(pos as int).skip(2) =~= buf@.skip(pos as int + 2));
        }
        let x = (buf[pos] as u16) | ((buf[pos + 1] as u16) << 8);
        Some((x, pos + 2))
    } else {
        None
    }
}

fn get_u32(buf: &Vec<u8>, pos: usize) -> (r: Option<(u32, usize)>)
    requires
        pos <= buf@.len(),
    ensures
        r matches Some((x, p)) ==> pos < p <= buf@.len() && spec_dec_u32(buf@.skip(pos as int))
            == Some((x, buf@.skip(p as int))),
        r is None ==> spec_dec_u32(buf@.skip(pos as int)) is None,
{
    match get_u16(buf, pos) {
        Some((lo, p1)) => match get_u16(buf, p1) {
            Some((hi, p2)) => Some(((lo as u32) | ((hi as u32) << 16), p2)),
            None => None,
        },
        None => None,
    }
}

fn get_u64(buf: &Vec<u8>, pos: usize) -> (r: Option<(u64, usize)>)
    requires
        pos <= buf@.len(),
    ensures
        r matches Some((x, p)) ==> pos < p <= buf@.len() && spec_dec_u64(buf@.skip(pos as int))
            == Some((x, buf@.skip(p as int))),
        r is None ==> spec_dec_u64(buf@.skip(pos as int)) is None,
{
    match get_u32(buf, pos) {
        Some((lo, p1)) => match get_u32(buf, p1) {
            Some((hi, p2)) => Some(((lo as u64) | ((hi as u64) << 32), p2)),
            None => None,
        },
        None => None,
    }
}

fn get_i64(buf: &Vec<u8>, pos: usize) -> (r: Option<(i64, usize)>)
    requires
        pos <= buf@.len(),
    ensures
        r matches Some((x, p)) ==> pos < p <= buf@.len() && spec_dec_i64(buf@.skip(pos as int))
            == Some((x, buf@.skip(p as int))),
        r is None ==> spec_dec_i64(buf@.skip(pos as int)) is None,
{
    match get_u64(buf, pos) {
        Some((u, p)) => Some((#[verifier::truncate] (u as i64), p)),
        None => None,
    }
}

fn get_bool(buf: &Vec<u8>, pos: usize) -> (r: Option<(bool, usize)>)
    requires
        pos <= buf@.len(),
    ensures
        r matches Some((x, p)) ==> pos < p <= buf@.len() && spec_dec_bool(buf@.skip(pos as int))
            == Some((x, buf@.skip(p as int))),
        r is None ==> spec_dec_bool(buf@.skip(pos as int)) is None,
{
    if pos < buf.len() {
        proof {
            assert(buf@.skip(pos as int)[0] == buf@[pos as int]);
            assert(buf@.skip(pos as int).drop_first() =~= buf@.skip(pos as int + 1));
        }
        let b = buf[pos];
        if b == 0 {
            Some((false, pos + 1))
        } else if b == 1 {
            Some((true, pos + 1))
        } else {
            None
        }
    } else {
        None
    }
}

fn get_str(buf: &Vec<u8>, pos: usize) -> (r: Option<(String, usize)>)
    requires
        pos <= buf@.len(),
    ensures
        r matches Some((s, p)) ==> pos < p <= buf@.len() && spec_dec_str(buf@.skip(pos as int))
            == Some((s@, buf@.skip(p as int))),
        r is None ==> spec_dec_str(buf@.skip(pos as int)) is None,
{
    proof {
        reveal(spec_dec_str);
    }
    match get_u64(buf, pos) {
        Some((n, p1)) => {
            if n > (buf.len() - p1) as u64 {
                return None;
            }
            let nn = n as usize;
            let bytes = vstd::slice::slice_to_vec(
                vstd::slice::slice_subrange(buf.as_slice(), p1, p1 + nn),
            );
            proof {
                assert(bytes@ =~= buf@.skip(p1 as int).take(n as int));
                assert(buf@.skip(p1 as int).skip(n as int) =~= buf@.skip(p1 as int + nn as int));
            }
            match string_from_utf8(bytes) {
                Some(s) => Some((s, p1 + nn)),
                None => None,
            }
        }
        None => None,
    }
}

// -- executable composite writers --

fn put_opt_str(out: &mut Vec<u8>, o: &Option<String>)
    ensures
        final(out)@ == old(out)@ + spec_enc_opt_str(opt_str_v(*o)),
{
    match o {
        None => {
            out.push(0);
            proof {
                assert(out@ =~= old(out)@ + spec_enc_opt_str(opt_str_v(*o)));
            }
        }
        Some(s) => {
            out.push(1);
            let ghost mid = out@;
            put_str(out, s);
            proof {
                assert(out@ =~= old(out)@ + spec_enc_opt_str(opt_str_v(*o)));
            }
        }
    }
}

fn put_category(out: &mut Vec<u8>, c: Category)
    ensures
        final(out)@ == old(out)@ + spec_enc_category(c),
{
    proof {
        crate::scoring::lemma_cat_index_bijective(c);
    }
    let t = c.index() as u8;
    out.push(t);
    proof {
        assert(out@ =~= old(out)@ + spec_enc_category(c));
    }
}

fn put_turn_phase(out: &mut Vec<u8>, p: TurnPhase)
    ensures
        final(out)@ == old(out)@ + spec_enc_turn_phase(p),
{
    match p {
        TurnPhase::WaitingForRoll => {
            out.push(0);
        }
        TurnPhase::Rolling { rolls_used } => {
            out.push(1);
            out.push(rolls_used);
        }
        TurnPhase::MustScore => {
            out.push(2);
        }
        TurnPhase::Done => {
            out.push(3);
        }
    }
    proof {
        assert(out@ =~= old(out)@ + spec_enc_turn_phase(p));
    }
}

fn put_game_phase(out: &mut Vec<u8>, p: GamePhase)
    ensures
        final(out)@ == old(out)@ + spec_enc_game_phase(p),
{
    let t: u8 = match p {
        GamePhase::Lobby => 0,
        GamePhase::Playing => 1,
        GamePhase::Finished => 2,
    };
    out.push(t);
    proof {
        assert(out@ =~= old(out)@ + spec_enc_game_phase(p));
    }
}

fn put_room_state(out: &mut Vec<u8>, s: RoomState)
    ensures
        final(out)@ == old(out)@ + spec_enc_room_state(s),
{
    let t: u8 = match s {
        RoomState::WaitingForPlayers => 0,
        RoomState::InGame => 1,
        RoomState::Finished => 2,
    };
    out.push(t);
    proof {
        assert(out@ =~= old(out)@ + spec_enc_room_state(s));
    }
}

fn put_room_info_state(out: &mut Vec<u8>, s: RoomInfoState)
    ensures
        final(out)@ == old(out)@ + spec_enc_room_info_state(s),
{
    let t: u8 = match s {
        RoomInfoState::Waiting => 0,
        RoomInfoState::InProgress => 1,
        RoomInfoState::Finished => 2,
    };
    out.push(t);
    proof {
        assert(out@ =~= old(out)@ + spec_enc_room_info_state(s));
    }
}

fn put_error_code(out: &mut Vec<u8>, c: ErrorCode)
    ensures
        final(out)@ == old(out)@ + spec_enc_error_code(c),
{
    let t: u8 = match c {
        ErrorCode::RoomFull => 0,
        ErrorCode::RoomNotFound => 1,
        ErrorCode::WrongPassword => 2,
        ErrorCode::NotYourTurn => 3,
        ErrorCode::InvalidAction => 4,
        ErrorCode::CategoryAlreadyScored => 5,
        ErrorCode::GameAlreadyStarted => 6,
        ErrorCode::NotEnoughPlayers => 7,
        ErrorCode::NameTaken => 8,
        ErrorCode::InternalError => 9,
    };
    out.push(t);
    proof {
        assert(out@ =~= old(out)@ + spec_enc_error_code(c));
    }
}

fn put_die(out: &mut Vec<u8>, d: Die)
    ensures
        final(out)@ == old(out)@ + spec_enc_die(d),
{
    out.push(d.value);
    put_bool(out, d.held);
    proof {
        assert(out@ =~= old(out)@ + spec_enc_die(d));
    }
}

fn put_dice(out: &mut Vec<u8>, dice: &Vec<Die>)
    ensures
        final(out)@ == old(out)@ + spec_enc_dice(dice@),
{
    put_u64(out, dice.len() as u64);
    let ghost mid = out@;
    let ghost enc = |d: Die| spec_enc_die(d);
    let mut k: usize = 0;
    let n = dice.len();
    while k < n
        invariant
            k <= n,
            n == dice@.len(),
            out@ == mid + spec_enc_list(dice@.take(k as int), enc),
            enc == (|d: Die| spec_enc_die(d)),
        decreases n - k,
    {
        put_die(out, dice[k]);
        proof {
            lemma_enc_list_push(dice@.take(k as int), dice@[k as int], enc);
            assert(dice@.take(k as int + 1) =~= dice@.take(k as int).push(dice@[k as int]));
            assert(out@ =~= mid + spec_enc_list(dice@.take(k as int + 1), enc));
        }
        k += 1;
    }
    proof {
        assert(dice@.take(n as int) =~= dice@);
        assert(out@ =~= old(out)@ + spec_enc_dice(dice@));
    }
}

fn put_scorecard(out: &mut Vec<u8>, sc: &crate::player::Scorecard)
    ensures
        final(out)@ == old(out)@ + spec_enc_scorecard(scorecard_v(*sc)),
{
    put_u64(out, sc.scores.len() as u64);
    let ghost mid = out@;
    let ghost enc = |o: Option<u16>| spec_enc_opt_u16(o);
    let mut k: usize = 0;
    let n = sc.scores.len();
    while k < n
        invariant
            k <= n,
            n == sc.scores@.len(),
            out@ == mid + spec_enc_list(sc.scores@.take(k as int), enc),
            enc == (|o: Option<u16>| spec_enc_opt_u16(o)),
        decreases n - k,
    {
        match sc.scores[k] {
            None => {
                out.push(0);
            }
            Some(x) => {
                out.push(1);
                put_u16(out, x);
            }
        }
        proof {
            lemma_enc_list_push(sc.scores@.take(k as int), sc.scores@[k as int], enc);
            assert(sc.scores@.take(k as int + 1) =~= sc.scores@.take(k as int).push(
                sc.scores@[k as int],
            ));
            assert(out@ =~= mid + spec_enc_list(sc.scores@.take(k as int + 1), enc));
        }
        k += 1;
    }
    put_u8(out, sc.yahtzee_bonus_count);
    proof {
        assert(sc.scores@.take(n as int) =~= sc.scores@);
        assert(out@ =~= old(out)@ + spec_enc_scorecard(scorecard_v(*sc)));
    }
}

fn put_player_snapshot(out: &mut Vec<u8>, p: &crate::game::PlayerSnapshot)
    ensures
        final(out)@ == old(out)@ + spec_enc_player_snapshot(player_snapshot_v(*p)),
{
    put_u64(out, p.id);
    put_str(out, &p.name);
    put_scorecard(out, &p.scorecard);
    put_bool(out, p.connected);
    proof {
        assert(out@ =~= old(out)@ + spec_enc_player_snapshot(player_snapshot_v(*p)));
    }
}

#[verifier::rlimit(100)]
#[verifier::spinoff_prover]
fn put_game_snapshot(out: &mut Vec<u8>, g: &GameStateSnapshot)
    ensures
        final(out)@ == old(out)@ + spec_enc_game_snapshot(game_snapshot_v(*g)),
{
    let ghost v = game_snapshot_v(*g);
    put_game_phase(out, g.phase);
    put_u64(out, g.players.len() as u64);
    let ghost mid = out@;
    let ghost enc = |p: PlayerSnapshotV| spec_enc_player_snapshot(p);
    let mut k: usize = 0;
    let n = g.players.len();
    while k < n
        invariant
            k <= n,
            n == g.players@.len(),
            v == game_snapshot_v(*g),
            out@ == mid + spec_enc_list(v.players.take(k as int), enc),
            enc == (|p: PlayerSnapshotV| spec_enc_player_snapshot(p)),
        decreases n - k,
    {
        put_player_snapshot(out, &g.players[k]);
        proof {
            lemma_enc_list_push(v.players.take(k as int), v.players[k as int], enc);
            assert(v.players.take(k as int + 1) =~= v.players.take(k as int).push(
                v.players[k as int],
            ));
            assert(v.players[k as int] == player_snapshot_v(g.players@[k as int]));
            assert(out@ =~= mid + spec_enc_list(v.players.take(k as int + 1), enc));
        }
        k += 1;
    }
    proof {
        assert(v.players.take(n as int) =~= v.players);
    }
    put_u64(out, g.current_player_index as u64);
    match &g.dice {
        None => {
            out.push(0);
        }
        Some(d) => {
            out.push(1);
            put_dice(out, &d.dice);
        }
    }
    match &g.turn_phase {
        None => {
            out.push(0);
        }
        Some(t) => {
            out.push(1);
            put_turn_phase(out, *t);
        }
    }
    put_u8(out, g.rolls_used);
    put_u8(out, g.round);
    put_u8(out, g.total_rounds);
    proof {
        assert(out@ =~= old(out)@ + spec_enc_game_snapshot(v));
    }
}

fn put_room_info(out: &mut Vec<u8>, r: &RoomInfo)
    ensures
        final(out)@ == old(out)@ + spec_enc_room_info(room_info_v(*r)),
{
    put_u64(out, r.room_id);
    put_str(out, &r.room_name);
    put_u8(out, r.player_count);
    put_u8(out, r.max_players);
    put_u8(out, r.spectator_count);
    put_room_info_state(out, r.state);
    put_bool(out, r.has_password);
    proof {
        assert(out@ =~= old(out)@ + spec_enc_room_info(room_info_v(*r)));
    }
}

fn put_player_info(out: &mut Vec<u8>, p: &PlayerInfo)
    ensures
        final(out)@ == old(out)@ + spec_enc_player_info(player_info_v(*p)),
{
    put_u64(out, p.id);
    put_str(out, &p.name);
    put_bool(out, p.connected);
    proof {
        assert(out@ =~= old(out)@ + spec_enc_player_info(player_info_v(*p)));
    }
}

fn put_room_snapshot(out: &mut Vec<u8>, r: &RoomSnapshot)
    ensures
        final(out)@ == old(out)@ + spec_enc_room_snapshot(room_snapshot_v(*r)),
{
    let ghost v = room_snapshot_v(*r);
    put_u64(out, r.room_id);
    put_str(out, &r.room_name);
    put_u64(out, r.host_id);
    put_u64(out, r.players.len() as u64);
    let ghost mid = out@;
    let ghost enc = |p: PlayerInfoV| spec_enc_player_info(p);
    let mut k: usize = 0;
    let n = r.players.len();
    while k < n
        invariant
            k <= n,
            n == r.players@.len(),
            v == room_snapshot_v(*r),
            out@ == mid + spec_enc_list(v.players.take(k as int), enc),
            enc == (|p: PlayerInfoV| spec_enc_player_info(p)),
        decreases n - k,
    {
        put_player_info(out, &r.players[k]);
        proof {
            lemma_enc_list_push(v.players.take(k as int), v.players[k as int], enc);
            assert(v.players.take(k as int + 1) =~= v.players.take(k as int).push(
                v.players[k as int],
            ));
            assert(v.players[k as int] == player_info_v(r.players@[k as int]));
            assert(out@ =~= mid + spec_enc_list(v.players.take(k as int + 1), enc));
        }
        k += 1;
    }
    proof {
        assert(v.players.take(n as int) =~= v.players);
    }
    put_u64(out, r.spectators.len() as u64);
    let ghost mid2 = out@;
    let ghost enc2 = |s: Seq<char>| spec_enc_str(s);
    let mut k2: usize = 0;
    let n2 = r.spectators.len();
    while k2 < n2
        invariant
            k2 <= n2,
            n2 == r.spectators@.len(),
            v == room_snapshot_v(*r),
            out@ == mid2 + spec_enc_list(v.spectators.take(k2 as int), enc2),
            enc2 == (|s: Seq<char>| spec_enc_str(s)),
        decreases n2 - k2,
    {
        put_str(out, &r.spectators[k2]);
        proof {
            lemma_enc_list_push(v.spectators.take(k2 as int), v.spectators[k2 as int], enc2);
            assert(v.spectators.take(k2 as int + 1) =~= v.spectators.take(k2 as int).push(
                v.spectators[k2 as int],
            ));
            assert(v.spectators[k2 as int] == r.spectators@[k2 as int]@);
            assert(out@ =~= mid2 + spec_enc_list(v.spectators.take(k2 as int + 1), enc2));
        }
        k2 += 1;
    }
    proof {
        assert(v.spectators.take(n2 as int) =~= v.spectators);
    }
    put_room_state(out, r.state);
    put_u8(out, r.max_players);
    proof {
        assert(out@ =~= old(out)@ + spec_enc_room_snapshot(v));
    }
}

fn put_final_score(out: &mut Vec<u8>, f: &FinalScore)
    ensures
        final(out)@ == old(out)@ + spec_enc_final_score(final_score_v(*f)),
{
    put_u64(out, f.player_id);
    put_str(out, &f.player_name);
    put_u32(out, f.total);
    proof {
        assert(out@ =~= old(out)@ + spec_enc_final_score(final_score_v(*f)));
    }
}

/// Encode a client message: its tag byte, then its fields.
pub fn serialize_client_message(m: &ClientMessage) -> (r: Vec<u8>)
    ensures
        r@ == spec_enc_client(client_message_v(*m)),
{
    let mut out: Vec<u8> = Vec::new();
    match m {
        ClientMessage::Hello { player_name, version } => {
            out.push(0);
            put_str(&mut out, player_name);
            put_str(&mut out, version);
        }
        ClientMessage::CreateRoom { room_name, max_players, password } => {
            out.push(1);
            put_str(&mut out, room_name);
            put_u8(&mut out, *max_players);
            put_opt_str(&mut out, password);
        }
        ClientMessage::JoinRoom { room_id, password } => {
            out.push(2);
            put_u64(&mut out, *room_id);
            put_opt_str(&mut out, password);
        }
        ClientMessage::LeaveRoom => {
            out.push(3);
        }
        ClientMessage::ListRooms => {
            out.push(4);
        }
        ClientMessage::StartGame => {
            out.push(5);
        }
        ClientMessage::SpectateRoom { room_id } => {
            out.push(6);
            put_u64(&mut out, *room_id);
        }
        ClientMessage::RollDice => {
            out.push(7);
        }
        ClientMessage::HoldDice { held } => {
            out.push(8);
            put_u64(&mut out, 5);
            let ghost mid = out@;
            let ghost enc = |x: bool| spec_enc_bool(x);
            let mut k: usize = 0;
            while k < 5
                invariant
                    k <= 5,
                    out@ == mid + spec_enc_list(held@.take(k as int), enc),
                    enc == (|x: bool| spec_enc_bool(x)),
                decreases 5 - k,
            {
                put_bool(&mut out, held[k]);
                proof {
                    lemma_enc_list_push(held@.take(k as int), held@[k as int], enc);
                    assert(held@.take(k as int + 1) =~= held@.take(k as int).push(
                        held@[k as int],
                    ));
                    assert(out@ =~= mid + spec_enc_list(held@.take(k as int + 1), enc));
                }
                k += 1;
            }
            proof {
                assert(held@.take(5) =~= held@);
            }
        }
        ClientMessage::ScoreCategory { category } => {
            out.push(9);
            put_category(&mut out, *category);
        }
        ClientMessage::Chat { message } => {
            out.push(10);
            put_str(&mut out, message);
        }
        ClientMessage::Ping => {
            out.push(11);
        }
        ClientMessage::Disconnect => {
            out.push(12);
        }
    }
    proof {
        assert(out@ =~= spec_enc_client(client_message_v(*m)));
    }
    out
}

/// Encode a server message: its tag byte, then its fields.
#[verifier::rlimit(100)]
#[verifier::spinoff_prover]
pub fn serialize_server_message(m: &ServerMessage) -> (r: Vec<u8>)
    ensures
        r@ == spec_enc_server(server_message_v(*m)),
{
    let mut out: Vec<u8> = Vec::new();
    match m {
        ServerMessage::Welcome { player_id, server_version } => {
            out.push(0);
            put_u64(&mut out, *player_id);
            put_str(&mut out, server_version);
        }
        ServerMessage::HandshakeError { reason } => {
            out.push(1);
            put_str(&mut out, reason);
        }
        ServerMessage::RoomList { rooms } => {
            out.push(2);
            put_u64(&mut out, rooms.len() as u64);
            let ghost v = server_message_v(*m);
            let ghost rv = rooms@.map_values(|r2: RoomInfo| room_info_v(r2));
            let ghost mid = out@;
            let ghost enc = |r2: RoomInfoV| spec_enc_room_info(r2);
            let mut k: usize = 0;
            let n = rooms.len();
            while k < n
                invariant
                    k <= n,
                    n == rooms@.len(),
                    rv == rooms@.map_values(|r2: RoomInfo| room_info_v(r2)),
                    out@ == mid + spec_enc_list(rv.take(k as int), enc),
                    enc == (|r2: RoomInfoV| spec_enc_room_info(r2)),
                decreases n - k,
            {
                put_room_info(&mut out, &rooms[k]);
                proof {
                    lemma_enc_list_push(rv.take(k as int), rv[k as int], enc);
                    assert(rv.take(k as int + 1) =~= rv.take(k as int).push(rv[k as int]));
                    assert(rv[k as int] == room_info_v(rooms@[k as int]));
                    assert(out@ =~= mid + spec_enc_list(rv.take(k as int + 1), enc));
                }
                k += 1;
            }
            proof {
                assert(rv.take(n as int) =~= rv);
            }
        }
        ServerMessage::RoomJoined { room_id, room_state } => {
            out.push(3);
            put_u64(&mut out, *room_id);
            put_room_snapshot(&mut out, room_state);
        }
        ServerMessage::RoomUpdate { room_state } => {
            out.push(4);
            put_room_snapshot(&mut out, room_state);
        }
        ServerMessage::RoomLeft => {
            out.push(5);
        }
        ServerMessage::GameStarted { game_state } => {
            out.push(6);
            put_game_snapshot(&mut out, game_state);
        }
        ServerMessage::GameState { game_state } => {
            out.push(7);
            put_game_snapshot(&mut out, game_state);
        }
        ServerMessage::TurnStarted { player_id, player_name, turn_number } => {
            out.push(8);
            put_u64(&mut out, *player_id);
            put_str(&mut out, player_name);
            put_u8(&mut out, *turn_number);
        }
        ServerMessage::DiceRolled { dice, rolls_remaining } => {
            out.push(9);
            put_dice(&mut out, &dice.dice);
            put_u8(&mut out, *rolls_remaining);
        }
        ServerMessage::DiceHeld { dice } => {
            out.push(10);
            put_dice(&mut out, &dice.dice);
        }
        ServerMessage::CategoryScored { player_id, category, score } => {
            out.push(11);
            put_u64(&mut out, *player_id);
            put_category(&mut out, *category);
            put_u16(&mut out, *score);
        }
        ServerMessage::TurnEnded { player_id } => {
            out.push(12);
            put_u64(&mut out, *player_id);
        }
        ServerMessage::GameOver { final_scores, winner_id } => {
            out.push(13);
            put_u64(&mut out, final_scores.len() as u64);
            let ghost fv = final_scores@.map_values(|f: FinalScore| final_score_v(f));
            let ghost mid = out@;
            let ghost enc = |f: FinalScoreV| spec_enc_final_score(f);
            let mut k: usize = 0;
            let n = final_scores.len();
            while k < n
                invariant
                    k <= n,
                    n == final_scores@.len(),
                    fv == final_scores@.map_values(|f: FinalScore| final_score_v(f)),
                    out@ == mid + spec_enc_list(fv.take(k as int), enc),
                    enc == (|f: FinalScoreV| spec_enc_final_score(f)),
                decreases n - k,
            {
                put_final_score(&mut out, &final_scores[k]);
                proof {
                    lemma_enc_list_push(fv.take(k as int), fv[k as int], enc);
                    assert(fv.take(k as int + 1) =~= fv.take(k as int).push(fv[k as int]));
                    assert(fv[k as int] == final_score_v(final_scores@[k as int]));
                    assert(out@ =~= mid + spec_enc_list(fv.take(k as int + 1), enc));
                }
                k += 1;
            }
            proof {
                assert(fv.take(n as int) =~= fv);
            }
            put_u64(&mut out, *winner_id);
        }
        ServerMessage::ChatMessage { sender_id, sender_name, message, timestamp } => {
            out.push(14);
            put_u64(&mut out, *sender_id);
            put_str(&mut out, sender_name);
            put_str(&mut out, message);
            put_i64(&mut out, *timestamp);
        }
        ServerMessage::SystemMessage { message } => {
            out.push(15);
            put_str(&mut out, message);
        }
        ServerMessage::Error { code, message } => {
            out.push(16);
            put_error_code(&mut out, *code);
            put_str(&mut out, message);
        }
        ServerMessage::Pong => {
            out.push(17);
        }
        ServerMessage::PlayerJoined { player_id, player_name } => {
            out.push(18);
            put_u64(&mut out, *player_id);
            put_str(&mut out, player_name);
        }
        ServerMessage::PlayerLeft { player_id, player_name } => {
            out.push(19);
            put_u64(&mut out, *player_id);
            put_str(&mut out, player_name);
        }
        ServerMessage::SpectatorJoined { player_name } => {
            out.push(20);
            put_str(&mut out, player_name);
        }
        ServerMessage::SpectatorLeft { player_name } => {
            out.push(21);
            put_str(&mut out, player_name);
        }
    }
    proof {
        assert(out@ =~= spec_enc_server(server_message_v(*m)));
    }
    out
}

fn get_category(buf: &Vec<u8>, pos: usize) -> (r: Option<(Category, usize)>)
    requires
        pos <= buf@.len(),
    ensures
        r matches Some((c, p)) ==> pos < p <= buf@.len() && spec_dec_category(
            buf@.skip(pos as int),
        ) == Some((c, buf@.skip(p as int))),
        r is None ==> spec_dec_category(buf@.skip(pos as int)) is None,
{
    proof {
        reveal(spec_dec_category);
    }
    match get_u8(buf, pos) {
        Some((t, p)) => {
            let c = match t {
                0 => Some(Category::Ones),
                1 => Some(Category::Twos),
                2 => Some(Category::Threes),
                3 => Some(Category::Fours),
                4 => Some(Category::Fives),
                5 => Some(Category::Sixes),
                6 => Some(Category::ThreeOfAKind),
                7 => Some(Category::FourOfAKind),
                8 => Some(Category::FullHouse),
                9 => Some(Category::SmallStraight),
                10 => Some(Category::LargeStraight),
                11 => Some(Category::Yahtzee),
                12 => Some(Category::Chance),
                _ => None,
            };
            match c {
                Some(c) => Some((c, p)),
                None => None,
            }
        }
        None => None,
    }
}

fn get_opt_str(buf: &Vec<u8>, pos: usize) -> (r: Option<(Option<String>, usize)>)
    requires
        pos <= buf@.len(),
    ensures
        r matches Some((o, p)) ==> pos < p <= buf@.len() && spec_dec_opt_str(
            buf@.skip(pos as int),
        ) == Some((opt_str_v(o), buf@.skip(p as int))),
        r is None ==> spec_dec_opt_str(buf@.skip(pos as int)) is None,
{
    proof {
        reveal(spec_dec_opt_str);
    }
    match get_u8(buf, pos) {
        Some((t, p)) => {
            proof {
                assert(buf@.skip(pos as int)[0] == buf@[pos as int]);
                assert(buf@.skip(pos as int).drop_first() =~= buf@.skip(p as int));
            }
            if t == 0 {
                Some((None, p))
            } else if t == 1 {
                match get_str(buf, p) {
                    Some((s, p2)) => Some((Some(s), p2)),
                    None => None,
                }
            } else {
                None
            }
        }
        None => None,
    }
}

/// Decode one client message from the whole buffer; anything but a single
/// complete, well-formed message is rejected.
#[verifier::rlimit(100)]
#[verifier::spinoff_prover]
pub fn deserialize_client_message(buf: &Vec<u8>) -> (r: Option<ClientMessage>)
    ensures
        r matches Some(m) ==> spec_decode_client(buf@) == Some(client_message_v(m)),
        r is None ==> spec_decode_client(buf@) is None,
{
    proof {
        assert(buf@.skip(0) =~= buf@);
    }
    let (m, pos) = match get_u8(buf, 0) {
        None => {
            return None;
        }
        Some((tag, p)) => {
            if tag == 0 {
                match get_str(buf, p) {
                    Some((player_name, p1)) => match get_str(buf, p1) {
                        Some((version, p2)) => (
                            ClientMessage::Hello { player_name, version },
                            p2,
                        ),
                        None => {
                            return None;
                        }
                    },
                    None => {
                        return None;
                    }
                }
            } else if tag == 1 {
                match get_str(buf, p) {
                    Some((room_name, p1)) => match get_u8(buf, p1) {
                        Some((max_players, p2)) => match get_opt_str(buf, p2) {
                            Some((password, p3)) => (
                                ClientMessage::CreateRoom { room_name, max_players, password },
                                p3,
                            ),
                            None => {
                                return None;
                            }
                        },
                        None => {
                            return None;
                        }
                    },
                    None => {
                        return None;
                    }
                }
            } else if tag == 2 {
                match get_u64(buf, p) {
                    Some((room_id, p1)) => match get_opt_str(buf, p1) {
                        Some((password, p2)) => (
                            ClientMessage::JoinRoom { room_id, password },
                            p2,
                        ),
                        None => {
                            return None;
                        }
                    },
                    None => {
                        return None;
                    }
                }
            } else if tag == 3 {
                (ClientMessage::LeaveRoom, p)
            } else if tag == 4 {
                (ClientMessage::ListRooms, p)
            } else if tag == 5 {
                (ClientMessage::StartGame, p)
            } else if tag == 6 {
                match get_u64(buf, p) {
                    Some((room_id, p1)) => (ClientMessage::SpectateRoom { room_id }, p1),
                    None => {
                        return None;
                    }
                }
            } else if tag == 7 {
                (ClientMessage::RollDice, p)
            } else if tag == 8 {
                match get_held(buf, p) {
                    Some((held, p1)) => (ClientMessage::HoldDice { held }, p1),
                    None => {
                        return None;
                    }
                }
            } else if tag == 9 {
                match get_category(buf, p) {
                    Some((category, p1)) => (ClientMessage::ScoreCategory { category }, p1),
                    None => {
                        return None;
                    }
                }
            } else if tag == 10 {
                match get_str(buf, p) {
                    Some((message, p1)) => (ClientMessage::Chat { message }, p1),
                    None => {
                        return None;
                    }
                }
            } else if tag == 11 {
                (ClientMessage::Ping, p)
            } else if tag == 12 {
                (ClientMessage::Disconnect, p)
            } else {
                return None;
            }
        }
    };
    if pos == buf.len() {
        proof {
            assert(buf@.skip(pos as int).len() == 0);
        }
        Some(m)
    } else {
        None
    }
}

/// Decode the five-die hold mask: exactly five flags.
fn get_held(buf: &Vec<u8>, pos: usize) -> (r: Option<([bool; 5], usize)>)
    requires
        pos <= buf@.len(),
    ensures
        r matches Some((held, p)) ==> pos < p <= buf@.len() && ({
            &&& spec_dec_bools(buf@.skip(pos as int)) matches Some((s, rest2))
            &&& s == held@
            &&& s.len() == 5
            &&& rest2 == buf@.skip(p as int)
        }),
        r is None ==> (spec_dec_bools(buf@.skip(pos as int)) matches Some((s, _)) ==> s.len()
            != 5),
{
    proof {
        reveal(spec_dec_bools);
    }
    match get_u64(buf, pos) {
        Some((n, p0)) => {
            if n != 5 {
                proof {
                    lemma_dec_list_len(buf@.skip(p0 as int), n as nat);
                }
                return None;
            }
            proof {
                reveal_with_fuel(spec_dec_list, 7);
            }
            let r0 = match get_bool(buf, p0) {
                Some(v) => v,
                None => {
                    return None;
                }
            };
            let r1 = match get_bool(buf, r0.1) {
                Some(v) => v,
                None => {
                    return None;
                }
            };
            let r2 = match get_bool(buf, r1.1) {
                Some(v) => v,
                None => {
                    return None;
                }
            };
            let r3 = match get_bool(buf, r2.1) {
                Some(v) => v,
                None => {
                    return None;
                }
            };
            let r4 = match get_bool(buf, r3.1) {
                Some(v) => v,
                None => {
                    return None;
                }
            };
            let held = [r0.0, r1.0, r2.0, r3.0, r4.0];
            proof {
                reveal_with_fuel(spec_dec_list, 7);
                assert(held@ =~= seq![r0.0] + (seq![r1.0] + (seq![r2.0] + (seq![r3.0] + (seq![
                    r4.0
                ] + Seq::<bool>::empty())))));
            }
            Some((held, r4.1))
        }
        None => None,
    }
}

/// When any step of a fixed-count decode fails, the whole list decode fails.
proof fn lemma_dec_list_len(b: Seq<u8>, n: nat)
    ensures
        spec_dec_list(b, n, |b2: Seq<u8>| spec_dec_bool(b2)) matches Some((s, _)) ==> s.len()
            == n,
    decreases n,
{
    let dec = |b2: Seq<u8>| spec_dec_bool(b2);
    if n > 0 {
        match dec(b) {
            Some((x, r1)) => {
                lemma_dec_list_len(r1, (n - 1) as nat);
            }
            None => {
            }
        }
    }
}

// -- framing --

/// The largest payload a frame may carry: 64 KiB.
pub const MAX_FRAME: usize = 65536;

/// A frame: the payload length as four big-endian bytes, then the payload.
pub open spec fn spec_enc_frame(payload: Seq<u8>) -> Seq<u8> {
    seq![
        ((payload.len() as u32 >> 24) & 0xff) as u8,
        ((payload.len() as u32 >> 16) & 0xff) as u8,
        ((payload.len() as u32 >> 8) & 0xff) as u8,
        (payload.len() as u32 & 0xff) as u8,
    ] + payload
}

/// The length field of a frame: its first four bytes, big endian.
pub open spec fn spec_frame_len(b: Seq<u8>) -> u32 {
    ((b[0] as u32) << 24) | ((b[1] as u32) << 16) | ((b[2] as u32) << 8) | (b[3] as u32)
}

/// Whether the buffer's frame must be refused outright: its length field
/// is already readable and exceeds the frame cap. Such a frame never
/// completes, so the caller should drop the connection rather than keep
/// buffering.
pub fn frame_refused(buf: &Vec<u8>) -> (r: bool)
    ensures
        r == (buf@.len() >= 4 && spec_frame_len(buf@) > 65536),
{
    if buf.len() < 4 {
        return false;
    }
    let n: u32 = ((buf[0] as u32) << 24) | ((buf[1] as u32) << 16) | ((buf[2] as u32) << 8) | (
    buf[3] as u32);
    n > MAX_FRAME as u32
}

/// Wrap a payload in a frame. Payloads over the frame cap are refused.
pub fn encode_frame(payload: &Vec<u8>) -> (r: Option<Vec<u8>>)
    ensures
        payload@.len() <= 65536 ==> (r matches Some(f) && f@ == spec_enc_frame(payload@)),
        payload@.len() > 65536 ==> r is None,
{
    if payload.len() > MAX_FRAME {
        return None;
    }
    let n = payload.len() as u32;
    let mut out: Vec<u8> = Vec::new();
    proof {
        assert(((n >> 24) & 0xff) < 256 && ((n >> 16) & 0xff) < 256 && ((n >> 8) & 0xff) < 256
            && (n & 0xff) < 256) by (bit_vector);
    }
    out.push(((n >> 24) & 0xff) as u8);
    out.push(((n >> 16) & 0xff) as u8);
    out.push(((n >> 8) & 0xff) as u8);
    out.push((n & 0xff) as u8);
    let ghost mid = out@;
    let mut k: usize = 0;
    let len = payload.len();
    while k < len
        invariant
            k <= len,
            len == payload@.len(),
            out@ == mid + payload@.take(k as int),
        decreases len - k,
    {
        out.push(payload[k]);
        proof {
            assert(out@ =~= mid + payload@.take(k as int + 1));
        }
        k += 1;
    }
    proof {
        assert(payload@.take(len as int) =~= payload@);
        assert(out@ =~= spec_enc_frame(payload@));
    }
    Some(out)
}

/// Read one frame from the front of the buffer: the payload and how many
/// bytes the frame used. Nothing is returned until the whole frame is
/// present; a length over the frame cap is rejected outright.
pub fn decode_frame(buf: &Vec<u8>) -> (r: Option<(Vec<u8>, usize)>)
    ensures
        r matches Some((payload, used)) ==> {
            &&& payload@.len() <= 65536
            &&& used == payload@.len() + 4 <= buf@.len()
            &&& buf@.take(used as int) == spec_enc_frame(payload@)
        },
        r is None ==> buf@.len() < 4 || spec_frame_len(buf@) > 65536 || buf@.len()
            < spec_frame_len(buf@) + 4,
{
    if buf.len() < 4 {
        return None;
    }
    let n: u32 = ((buf[0] as u32) << 24) | ((buf[1] as u32) << 16) | ((buf[2] as u32) << 8) | (
    buf[3] as u32);
    if n > MAX_FRAME as u32 {
        return None;
    }
    let nn = n as usize;
    if buf.len() - 4 < nn {
        return None;
    }
    let total = buf.len();
    let mut payload: Vec<u8> = Vec::new();
    let mut k: usize = 0;
    while k < nn
        invariant
            k <= nn,
            nn + 4 <= total,
            total == buf@.len(),
            payload@ == buf@.subrange(4, 4 + k as int),
        decreases nn - k,
    {
        payload.push(buf[4 + k]);
        proof {
            assert(payload@ =~= buf@.subrange(4, 4 + k as int + 1));
        }
        k += 1;
    }
    proof {
        let m = payload@.len() as u32;
        assert(m == n);
        let b0 = buf@[0];
        let b1 = buf@[1];
        let b2 = buf@[2];
        let b3 = buf@[3];
        assert(n == ((b0 as u32) << 24) | ((b1 as u32) << 16) | ((b2 as u32) << 8) | (
        b3 as u32));
        assert(b0 == ((n >> 24) & 0xff) as u8 && b1 == ((n >> 16) & 0xff) as u8 && b2 == ((n
            >> 8) & 0xff) as u8 && b3 == (n & 0xff) as u8) by (bit_vector)
            requires
                n == ((b0 as u32) << 24) | ((b1 as u32) << 16) | ((b2 as u32) << 8) | (
                b3 as u32),
                n <= 65536,
        {}
        assert(buf@.take(4 + payload@.len() as int) =~= spec_enc_frame(payload@));
    }
    Some((payload, nn + 4))
}

} // verus!
