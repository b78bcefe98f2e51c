//! The session layer's decision core: one registry of rooms and connections,
//! and one handler per inbound message. Each handler validates, mutates the
//! registry, and returns the messages to enqueue; all socket work stays with
//! the caller, so no handler ever blocks. A handler touches only the room
//! its caller is acting on: every other room comes out unchanged, so actions
//! against different rooms cannot interfere.

use vstd::prelude::*;
use crate::connection::ConnectionHandle;
use crate::dice::{FaceRng, MAX_ROLLS};
use crate::game::{GameError, GamePhase, GameState};
use crate::lobby::{LobbyManager, lemma_room_idx, room_idx};
use crate::player::Player;
use crate::protocol::{ClientMessage, ErrorCode, FinalScore, ServerMessage};
use crate::room::{Room, conn_idx, find_conn, lemma_conn_idx};
use crate::scoring::Category;

verus! {

/// The connection records of everyone but the given player, in order.
pub open spec fn without_conn(s: Seq<ConnectionHandle>, id: u64) -> Seq<ConnectionHandle> {
    s.filter(|c: ConnectionHandle| c.player_id != id)
}

/// One outbound message and the players it goes to. The caller enqueues the
/// message on each listed recipient's queue, skipping ids that have no
/// connection any more.
pub struct Delivery {
    pub to: Vec<u64>,
    pub msg: ServerMessage,
}

/// The recipients of a broadcast: every member except the excluded one.
pub open spec fn recipients_of(members: Seq<u64>, exclude: Option<u64>) -> Seq<u64> {
    match exclude {
        None => members,
        Some(x) => members.filter(|m: u64| m != x),
    }
}

/// The member list minus the excluded id, in order.
fn recipients(members: &Vec<u64>, exclude: Option<u64>) -> (r: Vec<u64>)
    ensures
        r@ == recipients_of(members@, exclude),
{
    match exclude {
        None => {
            let mut r: Vec<u64> = Vec::new();
            let mut k: usize = 0;
            let n = members.len();
            while k < n
                invariant
                    k <= n,
                    n == members@.len(),
                    r@ == members@.take(k as int),
                decreases n - k,
            {
                r.push(members[k]);
                proof {
                    assert(r@ =~= members@.take(k as int + 1));
                }
                k += 1;
            }
            proof {
                assert(members@.take(n as int) =~= members@);
            }
            r
        }
        Some(x) => {
            proof {
                reveal(Seq::filter);
            }
            let mut r: Vec<u64> = Vec::new();
            let mut k: usize = 0;
            let n = members.len();
            while k < n
                invariant
                    k <= n,
                    n == members@.len(),
                    r@ == members@.take(k as int).filter(|m: u64| m != x),
                decreases n - k,
            {
                proof {
                    reveal(Seq::filter);
                    assert(members@.take(k as int + 1).drop_last() =~= members@.take(k as int));
                    assert(members@.take(k as int + 1).last() == members@[k as int]);
                }
                let m = members[k];
                if m != x {
                    r.push(m);
                }
                k += 1;
            }
            proof {
                reveal(Seq::filter);
                assert(members@.take(n as int) =~= members@);
            }
            r
        }
    }
}

/// The registry the session layer works on: the lobby of rooms, the table
/// of live connections, and the id counter for fresh players.
pub struct ServerCore {
    pub lobby: LobbyManager,
    pub connections: Vec<ConnectionHandle>,
    pub next_player_id: u64,
    pub max_connections: usize,
}

impl ServerCore {
    /// The registry's invariant: the lobby is well formed, and connection
    /// ids are pairwise distinct and below the counter.
    pub open spec fn wf(&self) -> bool {
        &&& self.lobby.wf()
        &&& self.next_player_id >= 1
        &&& forall|i: int, j: int| 0 <= i < j < self.connections@.len()
            ==> (#[trigger] self.connections@[i]).player_id
                != (#[trigger] self.connections@[j]).player_id
        &&& forall|i: int| 0 <= i < self.connections@.len()
            ==> 1 <= (#[trigger] self.connections@[i]).player_id < self.next_player_id
    }

    /// An empty registry with the given connection cap.
    pub fn new(max_connections: usize) -> (c: ServerCore)
        ensures
            c.wf(),
            c.lobby.rooms@.len() == 0,
            c.connections@.len() == 0,
            c.max_connections == max_connections,
    {
        ServerCore {
            lobby: LobbyManager::new(),
            connections: Vec::new(),
            next_player_id: 1,
            max_connections,
        }
    }

    /// Whether a new connection may be accepted under the cap.
    pub fn can_accept(&self) -> (r: bool)
        ensures
            r == (self.connections@.len() < self.max_connections),
    {
        self.connections.len() < self.max_connections
    }

    /// Register a connection under a fresh player id. Returns nothing only
    /// when the id space is exhausted.
    pub fn register_connection(&mut self, player_name: String) -> (r: Option<u64>)
        requires
            old(self).wf(),
        ensures
            final(self).wf(),
            final(self).lobby == old(self).lobby,
            old(self).next_player_id == u64::MAX ==> r is None && *final(self) == *old(self),
            old(self).next_player_id < u64::MAX ==> {
                &&& r == Some(old(self).next_player_id)
                &&& final(self).connections@.len() == old(self).connections@.len() + 1
                &&& forall|i: int| 0 <= i < old(self).connections@.len()
                    ==> #[trigger] final(self).connections@[i] == old(self).connections@[i]
                &&& final(self).connections@.last().player_id == old(self).next_player_id
                &&& final(self).connections@.last().player_name@ == player_name@
                &&& final(self).connections@.last().room_id is None
                &&& !final(self).connections@.last().is_spectator
            },
    {
        if self.next_player_id == u64::MAX {
            return None;
        }
        let id = self.next_player_id;
        self.next_player_id = id + 1;
        self.connections.push(ConnectionHandle {
            player_id: id,
            player_name,
            room_id: None,
            is_spectator: false,
        });
        Some(id)
    }

    /// Drop the connection record of a player; every other record stays.
    pub fn remove_connection(&mut self, player_id: u64)
        requires
            old(self).wf(),
        ensures
            final(self).wf(),
            final(self).lobby == old(self).lobby,
            final(self).next_player_id == old(self).next_player_id,
            final(self).max_connections == old(self).max_connections,
            final(self).connections@ == without_conn(old(self).connections@, player_id),
    {
        proof {
            reveal(Seq::filter);
        }
        let mut out: Vec<ConnectionHandle> = Vec::new();
        let ghost orig = self.connections@;
        let ghost total = orig.len();
        let ghost mut k: int = 0;
        while self.connections.len() > 0
            invariant
                old(self).wf(),
                orig == old(self).connections@,
                0 <= k <= total,
                orig.len() == total,
                self.lobby == old(self).lobby,
                self.next_player_id == old(self).next_player_id,
                self.max_connections == old(self).max_connections,
                self.connections@ == orig.skip(k),
                out@ == without_conn(orig.take(k), player_id),
                forall|a: int| 0 <= a < out@.len() ==> exists|j: int|
                    0 <= j < k && #[trigger] out@[a] == orig[j],
                forall|a: int, b: int| 0 <= a < b < out@.len()
                    ==> (#[trigger] out@[a]).player_id != (#[trigger] out@[b]).player_id,
            decreases self.connections@.len(),
        {
            proof {
                reveal(Seq::filter);
                assert(orig.take(k + 1).drop_last() =~= orig.take(k));
                assert(orig.take(k + 1).last() == orig[k]);
                assert(orig.skip(k)[0] == orig[k]);
            }
            let c = self.connections.remove(0);
            proof {
                assert(self.connections@ =~= orig.skip(k + 1));
            }
            let ghost pre_out = out@;
            if c.player_id != player_id {
                out.push(c);
            }
            proof {
                assert forall|a: int| 0 <= a < out@.len() implies exists|j: int|
                    0 <= j < k + 1 && #[trigger] out@[a] == orig[j] by {
                    if a < pre_out.len() {
                        let j = choose|j: int| 0 <= j < k && #[trigger] pre_out[a] == orig[j];
                        assert(out@[a] == orig[j]);
                    } else {
                        assert(out@[a] == orig[k]);
                    }
                }
                assert forall|a: int, b: int| 0 <= a < b < out@.len() implies (#[trigger] out@[
                    a
                ]).player_id != (#[trigger] out@[b]).player_id by {
                    if b >= pre_out.len() {
                        assert(out@[b] == orig[k]);
                        let j = choose|j: int| 0 <= j < k && #[trigger] pre_out[a] == orig[j];
                        assert(out@[a] == orig[j]);
                        assert(orig[j].player_id != orig[k].player_id);
                    }
                }
                k = k + 1;
            }
        }
        proof {
            reveal(Seq::filter);
            assert(orig.take(total as int) =~= orig);
            assert(k == total);
        }
        self.connections = out;
    }

    /// Point a player's connection record at a room (or at none), with the
    /// given spectator flag. A player without a record is a no-op.
    pub fn set_conn_room(&mut self, player_id: u64, room: Option<u64>, is_spectator: bool)
        requires
            old(self).wf(),
        ensures
            final(self).wf(),
            final(self).lobby == old(self).lobby,
            final(self).next_player_id == old(self).next_player_id,
            final(self).max_connections == old(self).max_connections,
            final(self).connections@.len() == old(self).connections@.len(),
            forall|i: int| 0 <= i < old(self).connections@.len()
                && (#[trigger] old(self).connections@[i]).player_id != player_id
                ==> final(self).connections@[i] == old(self).connections@[i],
            forall|i: int| 0 <= i < old(self).connections@.len()
                && (#[trigger] old(self).connections@[i]).player_id == player_id ==> {
                let c = final(self).connections@[i];
                &&& c.player_id == player_id
                &&& c.player_name@ == old(self).connections@[i].player_name@
                &&& c.room_id == room
                &&& c.is_spectator == is_spectator
            },
    {
        let mut k: usize = 0;
        let n = self.connections.len();
        while k < n
            invariant
                k <= n,
                n == self.connections@.len(),
                n == old(self).connections@.len(),
                self.lobby == old(self).lobby,
                self.next_player_id == old(self).next_player_id,
                self.max_connections == old(self).max_connections,
                forall|i: int| k <= i < n
                    ==> #[trigger] self.connections@[i] == old(self).connections@[i],
                forall|i: int| 0 <= i < k
                    && (#[trigger] old(self).connections@[i]).player_id != player_id
                    ==> self.connections@[i] == old(self).connections@[i],
                forall|i: int| 0 <= i < k
                    && (#[trigger] old(self).connections@[i]).player_id == player_id ==> {
                    let c = self.connections@[i];
                    &&& c.player_id == player_id
                    &&& c.player_name@ == old(self).connections@[i].player_name@
                    &&& c.room_id == room
                    &&& c.is_spectator == is_spectator
                },
                forall|i: int| 0 <= i < n
                    ==> (#[trigger] self.connections@[i]).player_id == old(self).connections@[
                    i
                ].player_id,
            decreases n - k,
        {
            if self.connections[k].player_id == player_id {
                self.connections[k].room_id = room;
                self.connections[k].is_spectator = is_spectator;
            }
            k += 1;
        }
        proof {
            assert(old(self).wf());
        }
    }

    /// The display name on a player's connection record, empty when the
    /// player has none.
    pub fn conn_name(&self, player_id: u64) -> (r: String)
        ensures
            conn_idx(self.connections@, player_id) >= 0 ==> r@ == self.connections@[conn_idx(
                self.connections@,
                player_id,
            )].player_name@,
    {
        match find_conn(&self.connections, player_id) {
            Some(c) => c.player_name.clone(),
            None => String::new(),
        }
    }
}

/// The registry's observable state is exactly as before.
pub open spec fn core_unchanged(a: ServerCore, b: ServerCore) -> bool {
    &&& b.lobby.rooms@ == a.lobby.rooms@
    &&& b.lobby.next_room_id == a.lobby.next_room_id
    &&& b.connections@ == a.connections@
    &&& b.next_player_id == a.next_player_id
    &&& b.max_connections == a.max_connections
}

/// Every room but the one with the given id is unchanged, and the room ids
/// and count are as before.
pub open spec fn rooms_unchanged_except(old_rooms: Seq<Room>, new_rooms: Seq<Room>, id: u64)
    -> bool {
    &&& new_rooms.len() == old_rooms.len()
    &&& forall|i: int| 0 <= i < old_rooms.len()
        ==> (#[trigger] new_rooms[i]).id == old_rooms[i].id
    &&& forall|i: int| 0 <= i < old_rooms.len() && (#[trigger] old_rooms[i]).id != id
        ==> new_rooms[i] == old_rooms[i]
}

/// A one-recipient delivery.
fn deliver_to(pid: u64, msg: ServerMessage) -> (d: Delivery)
    ensures
        d.to@ == seq![pid],
        d.msg == msg,
{
    let mut to: Vec<u64> = Vec::new();
    to.push(pid);
    proof {
        assert(to@ =~= seq![pid]);
    }
    Delivery { to, msg }
}

/// A typed error delivery for the offending client.
fn error_to(pid: u64, code: ErrorCode, text: &str) -> (d: Delivery)
    ensures
        d.to@ == seq![pid],
        d.msg matches ServerMessage::Error { code: c, .. } && c == code,
{
    deliver_to(pid, ServerMessage::Error { code, message: String::from_str(text) })
}

/// Everything `handle_ping` guarantees of the returned deliveries.
pub open spec fn ping_post(pid: u64, out: Seq<Delivery>) -> bool {
    &&& out.len() == 1
    &&& out[0].to@ == seq![pid]
    &&& out[0].msg is Pong
}

/// Answer a ping: a pong to the caller and nothing else.
pub fn handle_ping(pid: u64) -> (out: Vec<Delivery>)
    ensures
        ping_post(pid, out@),
{
    let mut out: Vec<Delivery> = Vec::new();
    out.push(deliver_to(pid, ServerMessage::Pong));
    out
}

/// Everything `handle_list_rooms` guarantees: one browse list for the
/// caller, one line per room, and no state to change.
pub open spec fn list_rooms_post(core: ServerCore, pid: u64, out: Seq<Delivery>) -> bool {
    &&& out.len() == 1
    &&& out[0].to@ == seq![pid]
    &&& (out[0].msg matches ServerMessage::RoomList { rooms }
        && rooms@.len() == core.lobby.rooms@.len())
}

/// Answer a room-list request: the browse list, to the caller alone, and no
/// state change.
pub fn handle_list_rooms(core: &ServerCore, pid: u64) -> (out: Vec<Delivery>)
    requires
        core.wf(),
    ensures
        list_rooms_post(*core, pid, out@),
{
    let rooms = core.lobby.list_rooms();
    let mut out: Vec<Delivery> = Vec::new();
    out.push(deliver_to(pid, ServerMessage::RoomList { rooms }));
    out
}

/// Everything `handle_chat` guarantees: the line goes to every member of
/// the sender's room, carrying the sender's id, name and the given stamp;
/// a sender outside any room sends nothing; no state changes.
pub open spec fn chat_post(
    core: ServerCore,
    pid: u64,
    message: String,
    timestamp: i64,
    out: Seq<Delivery>,
) -> bool {
    let ci = conn_idx(core.connections@, pid);
    let in_room = ci >= 0 && core.connections@[ci].room_id is Some;
    &&& (!in_room ==> out.len() == 0)
    &&& (in_room && room_idx(
        core.lobby.rooms@,
        core.connections@[ci].room_id->Some_0,
    ) >= 0 ==> {
        let r = core.lobby.rooms@[room_idx(
            core.lobby.rooms@,
            core.connections@[ci].room_id->Some_0,
        )];
        &&& out.len() == 1
        &&& out[0].to@ == r.player_ids@ + r.spectator_ids@
        &&& out[0].msg matches ServerMessage::ChatMessage {
            sender_id,
            sender_name,
            message: m,
            timestamp: ts,
        } && sender_id == pid && sender_name@ == core.connections@[ci].player_name@ && m@
            == message@ && ts == timestamp
    })
}

/// Relay a chat line to every member of the sender's room, stamped with the
/// caller-supplied time. A sender outside any room is ignored. No state
/// changes.
pub fn handle_chat(core: &ServerCore, pid: u64, message: String, timestamp: i64) -> (out: Vec<
    Delivery,
>)
    requires
        core.wf(),
    ensures
        chat_post(*core, pid, message, timestamp, out@),
{
    let (room_id, player_name) = match find_conn(&core.connections, pid) {
        Some(c) => (c.room_id, c.player_name.clone()),
        None => {
            return Vec::new();
        }
    };
    let room_id = match room_id {
        Some(id) => id,
        None => {
            return Vec::new();
        }
    };
    match core.lobby.get_room(room_id) {
        Some(room) => {
            let members = room.all_member_ids();
            let mut out: Vec<Delivery> = Vec::new();
            out.push(Delivery {
                to: members,
                msg: ServerMessage::ChatMessage {
                    sender_id: pid,
                    sender_name: player_name,
                    message,
                    timestamp,
                },
            });
            out
        }
        None => Vec::new(),
    }
}

/// Everything `handle_create_room` guarantees of the registry before (`a`) and
/// after (`b`) the call, and of the returned deliveries.
pub open spec fn create_room_post(a: ServerCore, b: ServerCore, pid: u64, room_name: String, max_players: u8, password: Option<String>, out: Seq<Delivery>) -> bool {
    &&& (a.lobby.next_room_id == u64::MAX ==> {
            &&& b == a
            &&& out.len() == 1
            &&& out[0].to@ == seq![pid]
            &&& out[0].msg matches ServerMessage::Error { code, .. }
                && code == ErrorCode::InternalError
        })
    &&& (a.lobby.next_room_id < u64::MAX ==> {
            let id = a.lobby.next_room_id;
            &&& b.lobby.rooms@.len() == a.lobby.rooms@.len() + 1
            &&& forall|i: int| 0 <= i < a.lobby.rooms@.len()
                ==> #[trigger] b.lobby.rooms@[i] == a.lobby.rooms@[i]
            &&& b.lobby.rooms@.last().id == id
            &&& b.lobby.rooms@.last().name@ == room_name@
            &&& b.lobby.rooms@.last().max_players == (if max_players < 2 {
                2u8
            } else if max_players > 6 {
                6u8
            } else {
                max_players
            })
            &&& b.lobby.rooms@.last().host_id == pid
            &&& b.lobby.rooms@.last().player_ids@ == seq![pid]
            &&& b.lobby.rooms@.last().spectator_ids@.len() == 0
            &&& b.lobby.rooms@.last().game is None
            &&& b.lobby.rooms@.last().password == password
            &&& (forall|i: int| 0 <= i < a.connections@.len()
                && (#[trigger] a.connections@[i]).player_id == pid
                ==> b.connections@[i].room_id == Some(id)
                    && !b.connections@[i].is_spectator)
            &&& (forall|i: int| 0 <= i < a.connections@.len()
                && (#[trigger] a.connections@[i]).player_id != pid
                ==> b.connections@[i] == a.connections@[i])
            &&& out.len() == 1
            &&& out[0].to@ == seq![pid]
            &&& out[0].msg matches ServerMessage::RoomJoined { room_id, .. } && room_id == id
        })
}

/// Create a room: the caller becomes host and sole player of a fresh room,
/// joins it, and receives its snapshot. Every existing room is untouched.
pub fn handle_create_room(
    core: &mut ServerCore,
    pid: u64,
    room_name: String,
    max_players: u8,
    password: Option<String>,
) -> (out: Vec<Delivery>)
    requires
        old(core).wf(),
    ensures
        final(core).wf(),
        create_room_post(*old(core), *final(core), pid, room_name, max_players, password, out@),
{
    if core.lobby.next_room_id == u64::MAX {
        let mut out: Vec<Delivery> = Vec::new();
        out.push(error_to(pid, ErrorCode::InternalError, "room ids exhausted"));
        return out;
    }
    let room_id = core.lobby.create_room(room_name, max_players, pid, password);
    core.set_conn_room(pid, Some(room_id), false);
    let mut out: Vec<Delivery> = Vec::new();
    match core.lobby.get_room(room_id) {
        Some(room) => {
            let snapshot = room.snapshot(&core.connections);
            out.push(deliver_to(
                pid,
                ServerMessage::RoomJoined { room_id, room_state: snapshot },
            ));
        }
        None => {}
    }
    out
}

/// Everything `handle_join_room` guarantees of the registry before (`a`) and
/// after (`b`) the call, and of the returned deliveries.
pub open spec fn join_room_post(a: ServerCore, b: ServerCore, pid: u64, room_id: u64, password: Option<String>, out: Seq<Delivery>) -> bool {
    &&& (rooms_unchanged_except(a.lobby.rooms@, b.lobby.rooms@, room_id))
    &&& (({
            let li = room_idx(a.lobby.rooms@, room_id);
            &&& (li < 0 ==> core_unchanged(a, b) && out.len() == 1
                && out[0].to@ == seq![pid] && (out[0].msg matches ServerMessage::Error {
                code,
                ..
            } && code == ErrorCode::RoomNotFound))
            &&& (li >= 0 ==> {
                let r0 = a.lobby.rooms@[li];
                let pw_ok = match r0.password {
                    None => true,
                    Some(p) => password matches Some(q) && p@ == q@,
                };
                &&& (!pw_ok ==> core_unchanged(a, b) && out.len() == 1
                    && out[0].to@ == seq![pid] && (out[0].msg matches ServerMessage::Error {
                    code,
                    ..
                } && code == ErrorCode::WrongPassword))
                &&& (pw_ok && (r0.player_ids@.len() >= r0.max_players || r0.game is Some)
                    ==> core_unchanged(a, b) && out.len() == 1
                    && out[0].to@ == seq![pid] && (out[0].msg
                    matches ServerMessage::Error { code, .. } && code == ErrorCode::RoomFull))
                &&& (pw_ok && r0.player_ids@.len() < r0.max_players && r0.game is None ==> {
                    let r1 = b.lobby.rooms@[li];
                    &&& r1.player_ids@ == (if r0.player_ids@.contains(pid) {
                        r0.player_ids@
                    } else {
                        r0.player_ids@.push(pid)
                    })
                    &&& r1.spectator_ids@ == r0.spectator_ids@
                    &&& r1.host_id == (if r0.player_ids@.len() == 0 {
                        pid
                    } else {
                        r0.host_id
                    })
                    &&& r1.game == r0.game
                    &&& (forall|i: int| 0 <= i < a.connections@.len()
                        && (#[trigger] a.connections@[i]).player_id == pid
                        ==> b.connections@[i].room_id == Some(room_id)
                            && !b.connections@[i].is_spectator)
                    &&& (forall|i: int| 0 <= i < a.connections@.len()
                        && (#[trigger] a.connections@[i]).player_id != pid
                        ==> b.connections@[i] == a.connections@[i])
                    &&& out.len() == 2
                    &&& out[0].to@ == seq![pid]
                    &&& (out[0].msg matches ServerMessage::RoomJoined { room_id: rid, .. }
                        && rid == room_id)
                    &&& out[1].to@ == recipients_of(
                        r1.player_ids@ + r1.spectator_ids@,
                        Some(pid),
                    )
                    &&& (out[1].msg matches ServerMessage::PlayerJoined { player_id, .. }
                        && player_id == pid)
                })
            })
        }))
}

/// Join a room as a player. An unknown room id is answered `RoomNotFound`
/// and a failed password gate `WrongPassword`; a room at capacity or with a
/// game already running is answered `RoomFull` and its player list is left
/// exactly as it was. On success the caller is appended to the player list
/// (re-joining is idempotent), their connection points at the room, the
/// caller gets the room snapshot, and the other members learn who joined.
/// No other room is touched in any case.
pub fn handle_join_room(
    core: &mut ServerCore,
    pid: u64,
    room_id: u64,
    password: Option<String>,
) -> (out: Vec<Delivery>)
    requires
        old(core).wf(),
    ensures
        final(core).wf(),
        join_room_post(*old(core), *final(core), pid, room_id, password, out@),
{
    let n = core.lobby.rooms.len();
    let li = match core.lobby.room_position(room_id) {
        Some(li) => li,
        None => {
            let mut out: Vec<Delivery> = Vec::new();
            out.push(error_to(pid, ErrorCode::RoomNotFound, "Room not found"));
            return out;
        }
    };
    proof {
        lemma_room_idx(core.lobby.rooms@, room_id);
        assert(room_idx(core.lobby.rooms@, room_id) < n);
        assert(li as int == room_idx(core.lobby.rooms@, room_id));
    }

    if !core.lobby.rooms[li].check_password(&password) {
        let mut out: Vec<Delivery> = Vec::new();
        out.push(error_to(pid, ErrorCode::WrongPassword, "Wrong room password"));
        return out;
    }

    let added = core.lobby.rooms[li].add_player(pid);
    match added {
        Err(_) => {
            proof {
                assert(core.lobby.rooms@ =~= old(core).lobby.rooms@);
            }
            let mut out: Vec<Delivery> = Vec::new();
            out.push(error_to(pid, ErrorCode::RoomFull, "Room is full or game already started"));
            return out;
        }
        Ok(()) => {}
    }

    core.set_conn_room(pid, Some(room_id), false);

    let player_name = core.conn_name(pid);
    let room = &core.lobby.rooms[li];
    let snapshot = room.snapshot(&core.connections);
    let members = room.all_member_ids();

    let mut out: Vec<Delivery> = Vec::new();
    out.push(deliver_to(pid, ServerMessage::RoomJoined { room_id, room_state: snapshot }));
    out.push(Delivery {
        to: recipients(&members, Some(pid)),
        msg: ServerMessage::PlayerJoined { player_id: pid, player_name },
    });
    out
}

/// Everything `handle_spectate_room` guarantees of the registry before (`a`) and
/// after (`b`) the call, and of the returned deliveries.
pub open spec fn spectate_room_post(a: ServerCore, b: ServerCore, pid: u64, room_id: u64, out: Seq<Delivery>) -> bool {
    &&& (rooms_unchanged_except(a.lobby.rooms@, b.lobby.rooms@, room_id))
    &&& (({
            let li = room_idx(a.lobby.rooms@, room_id);
            &&& (li < 0 ==> core_unchanged(a, b) && out.len() == 1
                && out[0].to@ == seq![pid] && (out[0].msg matches ServerMessage::Error {
                code,
                ..
            } && code == ErrorCode::RoomNotFound))
            &&& (li >= 0 ==> {
                let r0 = a.lobby.rooms@[li];
                let r1 = b.lobby.rooms@[li];
                &&& r1.spectator_ids@ == (if r0.spectator_ids@.contains(pid) {
                    r0.spectator_ids@
                } else {
                    r0.spectator_ids@.push(pid)
                })
                &&& r1.player_ids@ == r0.player_ids@
                &&& r1.game == r0.game
                &&& (forall|i: int| 0 <= i < a.connections@.len()
                    && (#[trigger] a.connections@[i]).player_id == pid
                    ==> b.connections@[i].room_id == Some(room_id)
                        && b.connections@[i].is_spectator)
                &&& (forall|i: int| 0 <= i < a.connections@.len()
                    && (#[trigger] a.connections@[i]).player_id != pid
                    ==> b.connections@[i] == a.connections@[i])
                &&& out.len() == (if r0.game is Some { 3int } else { 2int })
                &&& out[0].to@ == seq![pid]
                &&& (out[0].msg matches ServerMessage::RoomJoined { room_id: rid, .. }
                    && rid == room_id)
                &&& (r0.game is Some ==> out[1].to@ == seq![pid]
                    && out[1].msg is GameState)
                &&& out.last().to@ == recipients_of(
                    r1.player_ids@ + r1.spectator_ids@,
                    Some(pid),
                )
                &&& out.last().msg is SpectatorJoined
            })
        }))
}

/// Join a room as a spectator. An unknown room id is answered
/// `RoomNotFound`. Otherwise the caller is appended to the spectator list
/// (re-joining is idempotent) with no capacity limit and no effect on the
/// turn order, gets the room snapshot — and the running game's state, if
/// one is in progress — and the other members learn who is watching. No
/// other room is touched.
pub fn handle_spectate_room(core: &mut ServerCore, pid: u64, room_id: u64) -> (out: Vec<Delivery>)
    requires
        old(core).wf(),
    ensures
        final(core).wf(),
        spectate_room_post(*old(core), *final(core), pid, room_id, out@),
{
    let n = core.lobby.rooms.len();
    let li = match core.lobby.room_position(room_id) {
        Some(li) => li,
        None => {
            let mut out: Vec<Delivery> = Vec::new();
            out.push(error_to(pid, ErrorCode::RoomNotFound, "Room not found"));
            return out;
        }
    };
    proof {
        lemma_room_idx(core.lobby.rooms@, room_id);
        assert(room_idx(core.lobby.rooms@, room_id) < n);
        assert(li as int == room_idx(core.lobby.rooms@, room_id));
    }

    core.lobby.rooms[li].add_spectator(pid);
    core.set_conn_room(pid, Some(room_id), true);

    let player_name = core.conn_name(pid);
    let room = &core.lobby.rooms[li];
    let snapshot = room.snapshot(&core.connections);
    let members = room.all_member_ids();

    let mut out: Vec<Delivery> = Vec::new();
    out.push(deliver_to(pid, ServerMessage::RoomJoined { room_id, room_state: snapshot }));
    match &room.game {
        Some(g) => {
            let gs = g.snapshot();
            out.push(deliver_to(pid, ServerMessage::GameState { game_state: gs }));
        }
        None => {}
    }
    out.push(Delivery {
        to: recipients(&members, Some(pid)),
        msg: ServerMessage::SpectatorJoined { player_name },
    });
    out
}

/// Everything `handle_leave_room` guarantees of the registry before (`a`) and
/// after (`b`) the call, and of the returned deliveries.
pub open spec fn leave_room_post(a: ServerCore, b: ServerCore, pid: u64, out: Seq<Delivery>) -> bool {
    &&& (b.next_player_id == a.next_player_id)
    &&& (b.connections@.len() == a.connections@.len())
    &&& (({
            let ci = conn_idx(a.connections@, pid);
            let no_room = ci < 0 || a.connections@[ci].room_id is None;
            &&& (no_room ==> core_unchanged(a, b) && out.len() == 0)
            &&& (!no_room ==> {
                let rid = a.connections@[ci].room_id->Some_0;
                let li = room_idx(a.lobby.rooms@, rid);
                &&& (forall|i: int| 0 <= i < a.connections@.len()
                    && (#[trigger] a.connections@[i]).player_id == pid
                    ==> b.connections@[i].room_id is None
                        && !b.connections@[i].is_spectator)
                &&& (forall|i: int| 0 <= i < a.connections@.len()
                    && (#[trigger] a.connections@[i]).player_id != pid
                    ==> b.connections@[i] == a.connections@[i])
                &&& (li < 0 ==> b.lobby.rooms@ == a.lobby.rooms@
                    && out.len() == 1 && out[0].to@ == seq![pid] && out[0].msg is RoomLeft)
                &&& (li >= 0 ==> {
                    let r0 = a.lobby.rooms@[li];
                    let kept_players = crate::room::without_id(r0.player_ids@, pid);
                    let kept_spectators = crate::room::without_id(r0.spectator_ids@, pid);
                    let new_host = if r0.host_id == pid {
                        if kept_players.len() > 0 {
                            kept_players[0]
                        } else {
                            crate::room::NO_HOST
                        }
                    } else {
                        r0.host_id
                    };
                    let now_empty = kept_players.len() == 0 && kept_spectators.len() == 0;
                    &&& (!now_empty ==> {
                        &&& b.lobby.rooms@.len() == a.lobby.rooms@.len()
                        &&& (forall|i: int| 0 <= i < a.lobby.rooms@.len() && i != li
                            ==> #[trigger] b.lobby.rooms@[i] == a.lobby.rooms@[i])
                        &&& b.lobby.rooms@[li].player_ids@ == kept_players
                        &&& b.lobby.rooms@[li].spectator_ids@ == kept_spectators
                        &&& b.lobby.rooms@[li].host_id == new_host
                        &&& b.lobby.rooms@[li].game == r0.game
                    })
                    &&& (now_empty ==> {
                        &&& b.lobby.rooms@.len() == a.lobby.rooms@.len() - 1
                        &&& forall|i: int| 0 <= i < b.lobby.rooms@.len()
                            ==> #[trigger] b.lobby.rooms@[i] == (if i < li {
                                a.lobby.rooms@[i]
                            } else {
                                a.lobby.rooms@[i + 1]
                            })
                    })
                    &&& out.len() == 2
                    &&& out[0].to@ == kept_players + kept_spectators
                    &&& (a.connections@[ci].is_spectator ==> out[0].msg
                        is SpectatorLeft)
                    &&& (!a.connections@[ci].is_spectator ==> (out[0].msg
                        matches ServerMessage::PlayerLeft { player_id, .. }
                        && player_id == pid))
                    &&& out[1].to@ == seq![pid]
                    &&& out[1].msg is RoomLeft
                })
            })
        }))
}

/// Leave the current room. A caller in no room is a no-op. Otherwise the
/// caller is removed from both member lists; when the departing player was
/// host, host status passes to the first remaining player; a room left with
/// no members at all is dropped from the lobby. The remaining members learn
/// who left, and the caller gets `RoomLeft`. No other room is touched.
#[verifier::rlimit(100)]
#[verifier::spinoff_prover]
pub fn handle_leave_room(core: &mut ServerCore, pid: u64) -> (out: Vec<Delivery>)
    requires
        old(core).wf(),
    ensures
        final(core).wf(),
        leave_room_post(*old(core), *final(core), pid, out@),
{
    let (rid, is_spectator, player_name) = match find_conn(&core.connections, pid) {
        Some(c) => {
            match c.room_id {
                Some(rid) => (rid, c.is_spectator, c.player_name.clone()),
                None => {
                    return Vec::new();
                }
            }
        }
        None => {
            return Vec::new();
        }
    };

    let n = core.lobby.rooms.len();
    let mut out: Vec<Delivery> = Vec::new();
    match core.lobby.room_position(rid) {
        Some(li) => {
            proof {
                lemma_room_idx(core.lobby.rooms@, rid);
                assert(room_idx(core.lobby.rooms@, rid) < n);
                assert(li as int == room_idx(core.lobby.rooms@, rid));
            }
            core.lobby.rooms[li].remove_player(pid);
            let members = core.lobby.rooms[li].all_member_ids();
            let now_empty = core.lobby.rooms[li].is_empty();

            if is_spectator {
                out.push(Delivery {
                    to: members,
                    msg: ServerMessage::SpectatorLeft { player_name },
                });
            } else {
                out.push(Delivery {
                    to: members,
                    msg: ServerMessage::PlayerLeft { player_id: pid, player_name },
                });
            }

            if now_empty {
                let ghost mid = core.lobby.rooms@;
                core.lobby.remove_room(rid);
                proof {
                    lemma_remove_by_id(mid, li as int, rid);
                }
            }
        }
        None => {}
    }

    core.set_conn_room(pid, None, false);
    out.push(deliver_to(pid, ServerMessage::RoomLeft));
    out
}

/// Removing by a unique id drops exactly the one room at its index.
proof fn lemma_remove_by_id(rooms: Seq<Room>, li: int, id: u64)
    requires
        0 <= li < rooms.len(),
        rooms[li].id == id,
        forall|i: int, j: int| 0 <= i < j < rooms.len()
            ==> (#[trigger] rooms[i]).id != (#[trigger] rooms[j]).id,
    ensures
        ({
            let kept = rooms.filter(|r: Room| r.id != id);
            &&& kept.len() == rooms.len() - 1
            &&& forall|i: int| 0 <= i < kept.len() ==> #[trigger] kept[i] == (if i < li {
                rooms[i]
            } else {
                rooms[i + 1]
            })
        }),
    decreases rooms.len(),
{
    reveal(Seq::filter);
    let kept = rooms.filter(|r: Room| r.id != id);
    if rooms.len() > 0 {
        let d = rooms.drop_last();
        if li == rooms.len() - 1 {
            lemma_filter_keeps_all(d, |r: Room| r.id != id);
        } else {
            lemma_remove_by_id(d, li, id);
        }
    }
}

/// A filter whose predicate holds everywhere keeps the list as it is.
proof fn lemma_filter_keeps_all(rooms: Seq<Room>, pred: spec_fn(Room) -> bool)
    requires
        forall|i: int| 0 <= i < rooms.len() ==> pred(#[trigger] rooms[i]),
    ensures
        rooms.filter(pred) == rooms,
    decreases rooms.len(),
{
    reveal(Seq::filter);
    if rooms.len() > 0 {
        lemma_filter_keeps_all(rooms.drop_last(), pred);
        assert(rooms.filter(pred) =~= rooms);
    } else {
        assert(rooms.filter(pred) =~= rooms);
    }
}

/// Everything `handle_disconnect` guarantees: the departure runs exactly
/// like an explicit leave of the joined room (membership, host transfer
/// and the leave notifications, witnessed by the intermediate registry
/// `mid`), then the connection record is dropped and every memberless room
/// is swept — all within the one call.
pub open spec fn disconnect_post(a: ServerCore, b: ServerCore, pid: u64, out: Seq<Delivery>)
    -> bool {
    &&& (forall|i: int| 0 <= i < b.connections@.len()
        ==> (#[trigger] b.connections@[i]).player_id != pid)
    &&& (forall|i: int| 0 <= i < b.lobby.rooms@.len()
        ==> !((#[trigger] b.lobby.rooms@[i]).player_ids@.len() == 0
            && b.lobby.rooms@[i].spectator_ids@.len() == 0))
    &&& exists|mid: ServerCore| {
        &&& #[trigger] leave_room_post(a, mid, pid, out)
        &&& b.connections@ == without_conn(mid.connections@, pid)
        &&& b.lobby.rooms@ == crate::lobby::live_rooms(mid.lobby.rooms@)
        &&& b.next_player_id == mid.next_player_id
        &&& b.lobby.next_room_id == mid.lobby.next_room_id
        &&& b.max_connections == mid.max_connections
    }
}

/// Disconnect cleanup: leave any joined room (with the same notifications
/// as an explicit leave), drop the connection record, and sweep every room
/// that is now empty.
pub fn handle_disconnect(core: &mut ServerCore, pid: u64) -> (out: Vec<Delivery>)
    requires
        old(core).wf(),
    ensures
        final(core).wf(),
        disconnect_post(*old(core), *final(core), pid, out@),
{
    let out = handle_leave_room(core, pid);
    let ghost mid = *core;
    core.remove_connection(pid);
    proof {
        broadcast use vstd::seq_lib::group_filter_ensures;
    }
    core.lobby.prune_empty_rooms();
    proof {
        assert(leave_room_post(*old(core), mid, pid, out@));
        assert(core.connections@ == without_conn(mid.connections@, pid));
        assert(core.lobby.rooms@ == crate::lobby::live_rooms(mid.lobby.rooms@));
    }
    out
}

/// Map an engine error to the protocol error code reported to the client.
pub fn game_error_to_protocol(e: &GameError) -> (r: (ErrorCode, String))
    ensures
        r.0 == (match e {
            GameError::NotYourTurn => ErrorCode::NotYourTurn,
            GameError::CategoryAlreadyScored => ErrorCode::CategoryAlreadyScored,
            _ => ErrorCode::InvalidAction,
        }),
{
    let code = match e {
        GameError::NotYourTurn => ErrorCode::NotYourTurn,
        GameError::CategoryAlreadyScored => ErrorCode::CategoryAlreadyScored,
        _ => ErrorCode::InvalidAction,
    };
    (code, String::from_str(e.message()))
}

/// The member ids that currently have a connection record, in order.
pub open spec fn connected_ids(ids: Seq<u64>, conns: Seq<ConnectionHandle>) -> Seq<u64> {
    ids.filter(|id: u64| conn_idx(conns, id) >= 0)
}

/// Build one fresh player per connected member id, in member order, each
/// named after its connection record.
fn build_players(ids: &Vec<u64>, conns: &Vec<ConnectionHandle>) -> (ps: Vec<Player>)
    ensures
        ps@.len() == connected_ids(ids@, conns@).len(),
        forall|k: int| 0 <= k < ps@.len()
            ==> (#[trigger] ps@[k]).id == connected_ids(ids@, conns@)[k],
        forall|k: int| 0 <= k < ps@.len() ==> {
            let p = #[trigger] ps@[k];
            &&& p.scorecard.wf()
            &&& p.scorecard.filled() == 0
            &&& p.scorecard.yahtzee_bonus_count == 0
            &&& conn_idx(conns@, p.id) >= 0
            &&& p.name@ == conns@[conn_idx(conns@, p.id)].player_name@
        },
        crate::game::players_wf(ps@),
{
    proof {
        reveal(Seq::filter);
    }
    let mut ps: Vec<Player> = Vec::new();
    let mut k: usize = 0;
    let n = ids.len();
    while k < n
        invariant
            k <= n,
            n == ids@.len(),
            ps@.map_values(|p: Player| p.id) == connected_ids(ids@.take(k as int), conns@),
            forall|a: int| 0 <= a < ps@.len() ==> {
                let p = #[trigger] ps@[a];
                &&& p.scorecard.wf()
                &&& p.scorecard.filled() == 0
                &&& p.scorecard.yahtzee_bonus_count == 0
                &&& conn_idx(conns@, p.id) >= 0
                &&& p.name@ == conns@[conn_idx(conns@, p.id)].player_name@
            },
        decreases n - k,
    {
        proof {
            reveal(Seq::filter);
            assert(ids@.take(k as int + 1).drop_last() =~= ids@.take(k as int));
            assert(ids@.take(k as int + 1).last() == ids@[k as int]);
        }
        let id = ids[k];
        let ghost pre = ps@;
        match find_conn(conns, id) {
            Some(c) => {
                proof {
                    lemma_conn_idx(conns@, id);
                }
                ps.push(Player::new(id, c.player_name.clone()));
                proof {
                    assert(ps@.map_values(|p: Player| p.id) =~= pre.map_values(
                        |p: Player| p.id,
                    ).push(id));
                }
            }
            None => {
                proof {
                    if conn_idx(conns@, id) >= 0 {
                        assert(false);
                    }
                }
            }
        }
        k += 1;
    }
    proof {
        reveal(Seq::filter);
        assert(ids@.take(n as int) =~= ids@);
        assert forall|a: int| 0 <= a < ps@.len() implies (#[trigger] ps@[a]).id == connected_ids(
            ids@,
            conns@,
        )[a] by {
            assert(ps@.map_values(|p: Player| p.id)[a] == ps@[a].id);
        }
    }
    ps
}

/// Everything `handle_start_game` guarantees of the registry before (`a`) and
/// after (`b`) the call, and of the returned deliveries.
pub open spec fn start_game_post(a: ServerCore, b: ServerCore, pid: u64, out: Seq<Delivery>) -> bool {
    &&& (b.connections@ == a.connections@)
    &&& (({
            let ci = conn_idx(a.connections@, pid);
            let no_room = ci < 0 || a.connections@[ci].room_id is None;
            &&& (no_room ==> core_unchanged(a, b) && out.len() == 0)
            &&& (!no_room ==> {
                let rid = a.connections@[ci].room_id->Some_0;
                let li = room_idx(a.lobby.rooms@, rid);
                &&& rooms_unchanged_except(
                    a.lobby.rooms@,
                    b.lobby.rooms@,
                    rid,
                )
                &&& (li < 0 ==> core_unchanged(a, b) && out.len() == 0)
                &&& (li >= 0 ==> {
                    let r0 = a.lobby.rooms@[li];
                    let ps = connected_ids(r0.player_ids@, a.connections@);
                    &&& (r0.host_id != pid ==> core_unchanged(a, b)
                        && out.len() == 1 && out[0].to@ == seq![pid] && (out[0].msg
                        matches ServerMessage::Error { code, .. }
                        && code == ErrorCode::InvalidAction))
                    &&& (r0.host_id == pid && r0.player_ids@.len() < 2 ==> core_unchanged(
                        a,
                        b,
                    ) && out.len() == 1 && out[0].to@ == seq![pid] && (out[0].msg
                        matches ServerMessage::Error { code, .. }
                        && code == ErrorCode::NotEnoughPlayers))
                    &&& (r0.host_id == pid && r0.player_ids@.len() >= 2 && !(2 <= ps.len()
                        <= 6) ==> core_unchanged(a, b) && out.len() == 1
                        && out[0].to@ == seq![pid] && (out[0].msg
                        matches ServerMessage::Error { code, .. }
                        && code == ErrorCode::InternalError))
                    &&& (r0.host_id == pid && r0.player_ids@.len() >= 2 && 2 <= ps.len() <= 6
                        ==> {
                        let r1 = b.lobby.rooms@[li];
                        &&& r1.game matches Some(g)
                        &&& g.wf()
                        &&& g.phase == GamePhase::Playing
                        &&& g.round == 1
                        &&& g.current_player_index == 0
                        &&& g.players@.len() == ps.len()
                        &&& (forall|k: int| 0 <= k < g.players@.len()
                            ==> (#[trigger] g.players@[k]).id == ps[k])
                        &&& r1.player_ids@ == r0.player_ids@
                        &&& r1.spectator_ids@ == r0.spectator_ids@
                        &&& out.len() == 1
                        &&& out[0].to@ == r0.player_ids@ + r0.spectator_ids@
                        &&& out[0].msg is GameStarted
                    })
                })
            })
        }))
}

/// Start the game in the caller's room. Only the host may start, and at
/// least two players must be listed; violations are answered with a typed
/// error and nothing changes. On success a fresh game over the room's
/// connected players begins with round 1 and the first player's turn, and
/// every member is told. No other room is touched.
pub fn handle_start_game(core: &mut ServerCore, pid: u64) -> (out: Vec<Delivery>)
    requires
        old(core).wf(),
    ensures
        final(core).wf(),
        start_game_post(*old(core), *final(core), pid, out@),
{
    let rid = match find_conn(&core.connections, pid) {
        Some(c) => match c.room_id {
            Some(rid) => rid,
            None => {
                return Vec::new();
            }
        },
        None => {
            return Vec::new();
        }
    };

    let n = core.lobby.rooms.len();
    let li = match core.lobby.room_position(rid) {
        Some(li) => li,
        None => {
            return Vec::new();
        }
    };
    proof {
        lemma_room_idx(core.lobby.rooms@, rid);
        assert(room_idx(core.lobby.rooms@, rid) < n);
        assert(li as int == room_idx(core.lobby.rooms@, rid));
    }

    if core.lobby.rooms[li].host_id != pid {
        let mut out: Vec<Delivery> = Vec::new();
        out.push(error_to(pid, ErrorCode::InvalidAction, "Only the host can start the game"));
        return out;
    }

    if core.lobby.rooms[li].player_ids.len() < 2 {
        let mut out: Vec<Delivery> = Vec::new();
        out.push(error_to(pid, ErrorCode::NotEnoughPlayers, "Need at least 2 players"));
        return out;
    }

    let players = build_players(&core.lobby.rooms[li].player_ids, &core.connections);
    let members = core.lobby.rooms[li].all_member_ids();

    let started = core.lobby.rooms[li].start_game(players);
    match started {
        Err(_) => {
            proof {
                assert(core.lobby.rooms@ =~= old(core).lobby.rooms@);
            }
            let mut out: Vec<Delivery> = Vec::new();
            out.push(error_to(pid, ErrorCode::InternalError, "Failed to start game"));
            return out;
        }
        Ok(()) => {}
    }

    let game_state = match &core.lobby.rooms[li].game {
        Some(g) => g.snapshot(),
        None => {
            proof {
                assert(false);
            }
            unreached()
        }
    };

    let mut out: Vec<Delivery> = Vec::new();
    out.push(Delivery { to: members, msg: ServerMessage::GameStarted { game_state } });
    out
}

/// Everything `handle_roll_dice` guarantees of the registry before (`a`) and
/// after (`b`) the call, and of the returned deliveries.
pub open spec fn roll_dice_post(a: ServerCore, b: ServerCore, pid: u64, out: Seq<Delivery>) -> bool {
    &&& (b.connections@ == a.connections@)
    &&& (({
            let ci = conn_idx(a.connections@, pid);
            let no_room = ci < 0 || a.connections@[ci].room_id is None;
            &&& (no_room ==> core_unchanged(a, b) && out.len() == 0)
            &&& (!no_room ==> {
                let rid = a.connections@[ci].room_id->Some_0;
                let li = room_idx(a.lobby.rooms@, rid);
                &&& rooms_unchanged_except(
                    a.lobby.rooms@,
                    b.lobby.rooms@,
                    rid,
                )
                &&& (a.connections@[ci].is_spectator ==> core_unchanged(
                    a,
                    b,
                ) && out.len() == 1 && out[0].to@ == seq![pid] && (out[0].msg
                    matches ServerMessage::Error { code, .. }
                    && code == ErrorCode::InvalidAction))
                &&& (!a.connections@[ci].is_spectator && (li < 0 || a.lobby.rooms@[li].game is None) ==> core_unchanged(a, b)
                    && out.len() == 0)
                &&& ((!a.connections@[ci].is_spectator && li >= 0 && a.lobby.rooms@[li].game is Some) ==> {
                    let r0 = a.lobby.rooms@[li];
                    let g0 = a.lobby.rooms@[li].game->Some_0;
                    let current = g0.phase is Playing && g0.players@[
                        g0.current_player_index as int
                    ].id == pid;
                    let can = current && g0.turn->Some_0.spec_can_roll();
                    &&& (!can ==> core_unchanged(a, b) && out.len() == 1
                        && out[0].to@ == seq![pid] && (out[0].msg
                        matches ServerMessage::Error { code, .. } && code == (
                        if g0.phase is Playing && g0.players@[
                            g0.current_player_index as int
                        ].id != pid {
                            ErrorCode::NotYourTurn
                        } else {
                            ErrorCode::InvalidAction
                        })))
                    &&& (can ==> {
                        let g1 = b.lobby.rooms@[li].game->Some_0;
                        let t0 = g0.turn->Some_0;
                        let t1 = g1.turn->Some_0;
                        &&& b.lobby.rooms@[li].game is Some
                        &&& g1.players@ == g0.players@
                        &&& g1.phase == g0.phase
                        &&& g1.round == g0.round
                        &&& g1.current_player_index == g0.current_player_index
                        &&& g1.turn is Some
                        &&& t1.rolls_used == t0.rolls_used + 1
                        &&& (t0.rolls_used > 0 ==> forall|i: int|
                            0 <= i < 5 && t0.dice.dice@[i].held
                                ==> #[trigger] t1.dice.dice@[i] == t0.dice.dice@[i])
                        &&& out.len() == 1
                        &&& out[0].to@ == r0.player_ids@ + r0.spectator_ids@
                        &&& (out[0].msg matches ServerMessage::DiceRolled {
                            dice,
                            rolls_remaining,
                        } && dice.dice@ == t1.dice.dice@ && rolls_remaining == 3
                            - t1.rolls_used)
                    })
                })
            })
        }))
}

/// Roll the caller's unheld dice in their room's game. Spectators and
/// callers outside their turn or out of rolls get a typed error and nothing
/// changes; on success every member sees the new dice and the rolls left.
/// No other room is touched.
pub fn handle_roll_dice(core: &mut ServerCore, pid: u64, rng: &mut FaceRng) -> (out: Vec<Delivery>)
    requires
        old(core).wf(),
    ensures
        final(core).wf(),
        roll_dice_post(*old(core), *final(core), pid, out@),
{
    let (rid, is_spectator) = match find_conn(&core.connections, pid) {
        Some(c) => match c.room_id {
            Some(rid) => (rid, c.is_spectator),
            None => {
                return Vec::new();
            }
        },
        None => {
            return Vec::new();
        }
    };

    if is_spectator {
        let mut out: Vec<Delivery> = Vec::new();
        out.push(error_to(pid, ErrorCode::InvalidAction, "Spectators cannot play"));
        return out;
    }

    let n = core.lobby.rooms.len();
    let li = match core.lobby.room_position(rid) {
        Some(li) => li,
        None => {
            return Vec::new();
        }
    };
    proof {
        lemma_room_idx(core.lobby.rooms@, rid);
        assert(room_idx(core.lobby.rooms@, rid) < n);
        assert(li as int == room_idx(core.lobby.rooms@, rid));
    }

    if core.lobby.rooms[li].game.is_none() {
        return Vec::new();
    }

    let rolled = match &mut core.lobby.rooms[li].game {
        Some(g) => g.roll_dice(pid, rng),
        None => Err(GameError::GameNotInProgress),
    };

    match rolled {
        Err(e) => {
            proof {
                assert(core.lobby.rooms@ =~= old(core).lobby.rooms@);
            }
            let (code, message) = game_error_to_protocol(&e);
            let mut out: Vec<Delivery> = Vec::new();
            out.push(deliver_to(pid, ServerMessage::Error { code, message }));
            return out;
        }
        Ok(()) => {}
    }

    let (dice, rolls_remaining) = match &core.lobby.rooms[li].game {
        Some(g) => match &g.turn {
            Some(t) => (t.dice.duplicate(), MAX_ROLLS - t.rolls_used),
            None => {
                proof {
                    assert(false);
                }
                unreached()
            }
        },
        None => {
            proof {
                assert(false);
            }
            unreached()
        }
    };
    let members = core.lobby.rooms[li].all_member_ids();

    let mut out: Vec<Delivery> = Vec::new();
    out.push(Delivery { to: members, msg: ServerMessage::DiceRolled { dice, rolls_remaining } });
    out
}

/// Everything `handle_hold_dice` guarantees of the registry before (`a`) and
/// after (`b`) the call, and of the returned deliveries.
pub open spec fn hold_dice_post(a: ServerCore, b: ServerCore, pid: u64, held: [bool; 5], out: Seq<Delivery>) -> bool {
    &&& (b.connections@ == a.connections@)
    &&& (({
            let ci = conn_idx(a.connections@, pid);
            let no_room = ci < 0 || a.connections@[ci].room_id is None;
            &&& (no_room ==> core_unchanged(a, b) && out.len() == 0)
            &&& (!no_room ==> {
                let rid = a.connections@[ci].room_id->Some_0;
                let li = room_idx(a.lobby.rooms@, rid);
                &&& rooms_unchanged_except(
                    a.lobby.rooms@,
                    b.lobby.rooms@,
                    rid,
                )
                &&& (li < 0 || a.lobby.rooms@[li].game is None ==> core_unchanged(
                    a,
                    b,
                ) && out.len() == 0)
                &&& ((li >= 0 && a.lobby.rooms@[li].game is Some) ==> {
                    let r0 = a.lobby.rooms@[li];
                    let g0 = a.lobby.rooms@[li].game->Some_0;
                    let current = g0.phase is Playing && g0.players@[
                        g0.current_player_index as int
                    ].id == pid;
                    let can = current && g0.turn->Some_0.spec_can_hold();
                    &&& (!can ==> core_unchanged(a, b) && out.len() == 1
                        && out[0].to@ == seq![pid] && (out[0].msg
                        matches ServerMessage::Error { code, .. } && code == (
                        if g0.phase is Playing && g0.players@[
                            g0.current_player_index as int
                        ].id != pid {
                            ErrorCode::NotYourTurn
                        } else {
                            ErrorCode::InvalidAction
                        })))
                    &&& (can ==> {
                        let g1 = b.lobby.rooms@[li].game->Some_0;
                        let t0 = g0.turn->Some_0;
                        let t1 = g1.turn->Some_0;
                        &&& b.lobby.rooms@[li].game is Some
                        &&& g1.players@ == g0.players@
                        &&& g1.phase == g0.phase
                        &&& g1.round == g0.round
                        &&& g1.current_player_index == g0.current_player_index
                        &&& g1.turn is Some
                        &&& t1.rolls_used == t0.rolls_used
                        &&& (forall|i: int| 0 <= i < 5
                            ==> (#[trigger] t1.dice.dice@[i]).value == t0.dice.dice@[i].value)
                        &&& (forall|i: int| 0 <= i < 5
                            ==> (#[trigger] t1.dice.dice@[i]).held == held@[i])
                        &&& out.len() == 1
                        &&& out[0].to@ == r0.player_ids@ + r0.spectator_ids@
                        &&& (out[0].msg matches ServerMessage::DiceHeld { dice }
                            && dice.dice@ == t1.dice.dice@)
                    })
                })
            })
        }))
}

/// Set the caller's hold mask in their room's game. Outside the caller's
/// turn or between-rolls phase this is answered with a typed error and
/// nothing changes; on success every member sees the updated dice. No
/// other room is touched.
pub fn handle_hold_dice(core: &mut ServerCore, pid: u64, held: [bool; 5]) -> (out: Vec<Delivery>)
    requires
        old(core).wf(),
    ensures
        final(core).wf(),
        hold_dice_post(*old(core), *final(core), pid, held, out@),
{
    let rid = match find_conn(&core.connections, pid) {
        Some(c) => match c.room_id {
            Some(rid) => rid,
            None => {
                return Vec::new();
            }
        },
        None => {
            return Vec::new();
        }
    };

    let n = core.lobby.rooms.len();
    let li = match core.lobby.room_position(rid) {
        Some(li) => li,
        None => {
            return Vec::new();
        }
    };
    proof {
        lemma_room_idx(core.lobby.rooms@, rid);
        assert(room_idx(core.lobby.rooms@, rid) < n);
        assert(li as int == room_idx(core.lobby.rooms@, rid));
    }

    if core.lobby.rooms[li].game.is_none() {
        return Vec::new();
    }

    let held_result = match &mut core.lobby.rooms[li].game {
        Some(g) => g.hold_dice(pid, held),
        None => Err(GameError::GameNotInProgress),
    };

    match held_result {
        Err(e) => {
            proof {
                assert(core.lobby.rooms@ =~= old(core).lobby.rooms@);
            }
            let (code, message) = game_error_to_protocol(&e);
            let mut out: Vec<Delivery> = Vec::new();
            out.push(deliver_to(pid, ServerMessage::Error { code, message }));
            return out;
        }
        Ok(()) => {}
    }

    let dice = match &core.lobby.rooms[li].game {
        Some(g) => match &g.turn {
            Some(t) => t.dice.duplicate(),
            None => {
                proof {
                    assert(false);
                }
                unreached()
            }
        },
        None => {
            proof {
                assert(false);
            }
            unreached()
        }
    };
    let members = core.lobby.rooms[li].all_member_ids();

    let mut out: Vec<Delivery> = Vec::new();
    out.push(Delivery { to: members, msg: ServerMessage::DiceHeld { dice } });
    out
}

/// One final-standing line per player, in seating order.
fn build_final_scores(g: &GameState) -> (r: Vec<FinalScore>)
    requires
        crate::game::players_wf(g.players@),
    ensures
        r@.len() == g.players@.len(),
        forall|k: int| 0 <= k < r@.len() ==> {
            let p = #[trigger] g.players@[k];
            &&& r@[k].player_id == p.id
            &&& r@[k].player_name@ == p.name@
            &&& r@[k].total == p.scorecard.spec_grand_total()
        },
{
    let mut r: Vec<FinalScore> = Vec::new();
    let mut k: usize = 0;
    let n = g.players.len();
    while k < n
        invariant
            k <= n,
            n == g.players@.len(),
            crate::game::players_wf(g.players@),
            r@.len() == k,
            forall|a: int| 0 <= a < k ==> {
                let p = #[trigger] g.players@[a];
                &&& r@[a].player_id == p.id
                &&& r@[a].player_name@ == p.name@
                &&& r@[a].total == p.scorecard.spec_grand_total()
            },
        decreases n - k,
    {
        let p = &g.players[k];
        let total = p.scorecard.grand_total();
        r.push(FinalScore { player_id: p.id, player_name: p.name.clone(), total });
        k += 1;
    }
    r
}

/// Everything `handle_score_category` guarantees of the registry before (`a`) and
/// after (`b`) the call, and of the returned deliveries.
pub open spec fn score_category_post(a: ServerCore, b: ServerCore, pid: u64, category: Category, out: Seq<Delivery>) -> bool {
    &&& (b.connections@ == a.connections@)
    &&& (({
            let ci = conn_idx(a.connections@, pid);
            let no_room = ci < 0 || a.connections@[ci].room_id is None;
            &&& (no_room ==> core_unchanged(a, b) && out.len() == 0)
            &&& (!no_room ==> {
                let rid = a.connections@[ci].room_id->Some_0;
                let li = room_idx(a.lobby.rooms@, rid);
                &&& rooms_unchanged_except(
                    a.lobby.rooms@,
                    b.lobby.rooms@,
                    rid,
                )
                &&& ((li < 0 || a.lobby.rooms@[li].game is None) ==> core_unchanged(
                    a,
                    b,
                ) && out.len() == 0)
                &&& ((li >= 0 && a.lobby.rooms@[li].game is Some) ==> {
                    let r0 = a.lobby.rooms@[li];
                    let g0 = a.lobby.rooms@[li].game->Some_0;
                    let idx = g0.current_player_index as int;
                    let cur0 = g0.players@[idx];
                    let current = cur0.id == pid;
                    &&& (!current ==> core_unchanged(a, b) && out.len()
                        == 1 && out[0].to@ == seq![pid] && (out[0].msg
                        matches ServerMessage::Error { code, .. }
                        && code == ErrorCode::NotYourTurn))
                    &&& ((current && !(g0.phase is Playing)) ==> core_unchanged(
                        a,
                        b,
                    ) && out.len() == 1 && out[0].to@ == seq![pid] && (out[0].msg
                        matches ServerMessage::Error { code, .. }
                        && code == ErrorCode::InvalidAction))
                    &&& ((current && g0.phase is Playing
                        && !g0.turn->Some_0.spec_can_score()) ==> core_unchanged(
                        a,
                        b,
                    ) && out.len() == 1 && out[0].to@ == seq![pid] && (out[0].msg
                        matches ServerMessage::Error { code, .. }
                        && code == ErrorCode::InvalidAction))
                    &&& ((current && g0.phase is Playing && g0.turn->Some_0.spec_can_score()
                        && cur0.scorecard.score_at(category) is Some) ==> core_unchanged(
                        a,
                        b,
                    ) && out.len() == 1 && out[0].to@ == seq![pid] && (out[0].msg
                        matches ServerMessage::Error { code, .. }
                        && code == ErrorCode::CategoryAlreadyScored))
                    &&& ((current && g0.phase is Playing && g0.turn->Some_0.spec_can_score()
                        && cur0.scorecard.score_at(category) is None) ==> {
                        let vals = g0.turn->Some_0.dice.values_seq();
                        let joker = crate::scoring::yahtzee(vals)
                            && cur0.scorecard.score_at(Category::Yahtzee) == Some(50u16);
                        let score = crate::scoring::spec_score_joker(category, vals, joker);
                        let g1 = b.lobby.rooms@[li].game->Some_0;
                        let cur1 = g1.players@[idx];
                        let members = r0.player_ids@ + r0.spectator_ids@;
                        let finished = idx + 1 == g0.players@.len() && g0.round == 13;
                        &&& b.lobby.rooms@[li].game is Some
                        &&& g1.players@.len() == g0.players@.len()
                        &&& cur1.scorecard.scores@ == cur0.scorecard.scores@.update(
                            crate::scoring::cat_index(category),
                            Some(score as u16),
                        )
                        &&& cur1.scorecard.yahtzee_bonus_count
                            == cur0.scorecard.yahtzee_bonus_count + (if joker {
                            1int
                        } else {
                            0int
                        })
                        &&& (forall|i: int| 0 <= i < g0.players@.len() && i != idx
                            ==> g1.players@[i] == g0.players@[i])
                        &&& (finished ==> g1.phase == GamePhase::Finished && g1.turn is None)
                        &&& (!finished ==> g1.phase == GamePhase::Playing
                            && g1.current_player_index as int == (if idx + 1
                            < g0.players@.len() {
                            idx + 1
                        } else {
                            0int
                        }) && g1.round == (if idx + 1 < g0.players@.len() {
                            g0.round as int
                        } else {
                            g0.round + 1
                        }))
                        &&& out.len() == 3
                        &&& out[0].to@ == members
                        &&& (out[0].msg matches ServerMessage::CategoryScored {
                            player_id,
                            category: cat,
                            score: s,
                        } && player_id == pid && cat == category && s == score)
                        &&& out[1].to@ == members
                        &&& (out[1].msg matches ServerMessage::TurnEnded { player_id }
                            && player_id == pid)
                        &&& out[2].to@ == members
                        &&& (!finished ==> (out[2].msg matches ServerMessage::TurnStarted {
                            player_id,
                            turn_number,
                            ..
                        } && player_id == g1.players@[g1.current_player_index as int].id
                            && turn_number == g1.round))
                        &&& (finished ==> (out[2].msg matches ServerMessage::GameOver {
                            final_scores,
                            winner_id,
                        } && final_scores@.len() == g1.players@.len() && (forall|k: int|
                            0 <= k < g1.players@.len() ==> {
                                let p = #[trigger] g1.players@[k];
                                &&& final_scores@[k].player_id == p.id
                                &&& final_scores@[k].total == p.scorecard.spec_grand_total()
                            }) && exists|w: int| {
                            &&& 0 <= w < g1.players@.len()
                            &&& winner_id == g1.players@[w].id
                            &&& forall|j: int| 0 <= j < g1.players@.len()
                                ==> (#[trigger] g1.players@[j]).scorecard.spec_grand_total()
                                    <= g1.players@[w].scorecard.spec_grand_total()
                        }))
                    })
                })
            })
        }))
}

/// Score a category for the caller in their room's game and advance the
/// turn. Callers outside their turn get `NotYourTurn`; a turn without a
/// roll, `InvalidAction`; a category already recorded,
/// `CategoryAlreadyScored` — each with nothing changed. On success every
/// member sees the score and the turn's end, then either the next turn's
/// start or, after the final round, the final standings with the winner.
/// No other room is touched.
pub fn handle_score_category(core: &mut ServerCore, pid: u64, category: Category) -> (out: Vec<
    Delivery,
>)
    requires
        old(core).wf(),
    ensures
        final(core).wf(),
        score_category_post(*old(core), *final(core), pid, category, out@),
{
    let rid = match find_conn(&core.connections, pid) {
        Some(c) => match c.room_id {
            Some(rid) => rid,
            None => {
                return Vec::new();
            }
        },
        None => {
            return Vec::new();
        }
    };

    let n = core.lobby.rooms.len();
    let li = match core.lobby.room_position(rid) {
        Some(li) => li,
        None => {
            return Vec::new();
        }
    };
    proof {
        lemma_room_idx(core.lobby.rooms@, rid);
        assert(room_idx(core.lobby.rooms@, rid) < n);
        assert(li as int == room_idx(core.lobby.rooms@, rid));
    }

    // Validate before any mutation: only the current player may score.
    match &core.lobby.rooms[li].game {
        Some(g) => {
            if !g.is_current_player(pid) {
                let (code, message) = game_error_to_protocol(&GameError::NotYourTurn);
                let mut out: Vec<Delivery> = Vec::new();
                out.push(deliver_to(pid, ServerMessage::Error { code, message }));
                return out;
            }
        }
        None => {
            return Vec::new();
        }
    }

    let scored = match &mut core.lobby.rooms[li].game {
        Some(g) => g.score_category(pid, category),
        None => Err(GameError::GameNotInProgress),
    };

    let score = match scored {
        Err(e) => {
            proof {
                assert(core.lobby.rooms@ =~= old(core).lobby.rooms@);
            }
            let (code, message) = game_error_to_protocol(&e);
            let mut out: Vec<Delivery> = Vec::new();
            out.push(deliver_to(pid, ServerMessage::Error { code, message }));
            return out;
        }
        Ok(s) => s,
    };

    let mut out: Vec<Delivery> = Vec::new();
    out.push(Delivery {
        to: core.lobby.rooms[li].all_member_ids(),
        msg: ServerMessage::CategoryScored { player_id: pid, category, score },
    });
    out.push(Delivery {
        to: core.lobby.rooms[li].all_member_ids(),
        msg: ServerMessage::TurnEnded { player_id: pid },
    });

    match &core.lobby.rooms[li].game {
        Some(g) => {
            if g.phase == GamePhase::Finished {
                let final_scores = build_final_scores(g);
                let winner_id = match g.winner() {
                    Some(w) => w.id,
                    None => pid,
                };
                out.push(Delivery {
                    to: core.lobby.rooms[li].all_member_ids(),
                    msg: ServerMessage::GameOver { final_scores, winner_id },
                });
            } else {
                let next = g.current_player();
                out.push(Delivery {
                    to: core.lobby.rooms[li].all_member_ids(),
                    msg: ServerMessage::TurnStarted {
                        player_id: next.id,
                        player_name: next.name.clone(),
                        turn_number: g.round,
                    },
                });
            }
        }
        None => {
            proof {
                assert(false);
            }
        }
    }

    out
}

/// Dispatch one inbound message, already past the handshake, to its
/// handler: lobby messages to the room registry, game actions to the
/// caller's room's game, chat to the caller's room, and connection upkeep
/// to the connection table. A `Hello` after the handshake is ignored. The
/// caller supplies the random source for rolls and the wall-clock stamp for
/// chat, and enqueues the returned deliveries.
pub fn handle_message(
    core: &mut ServerCore,
    pid: u64,
    msg: ClientMessage,
    rng: &mut FaceRng,
    timestamp: i64,
) -> (out: Vec<Delivery>)
    requires
        old(core).wf(),
    ensures
        final(core).wf(),
        msg is Hello ==> core_unchanged(*old(core), *final(core)) && out@.len() == 0,
        msg is Ping ==> core_unchanged(*old(core), *final(core)) && ping_post(pid, out@),
        msg is ListRooms ==> core_unchanged(*old(core), *final(core)) && list_rooms_post(
            *final(core),
            pid,
            out@,
        ),
        msg matches ClientMessage::CreateRoom { room_name, max_players, password }
            ==> create_room_post(
            *old(core),
            *final(core),
            pid,
            room_name,
            max_players,
            password,
            out@,
        ),
        msg matches ClientMessage::JoinRoom { room_id, password } ==> join_room_post(
            *old(core),
            *final(core),
            pid,
            room_id,
            password,
            out@,
        ),
        msg matches ClientMessage::SpectateRoom { room_id } ==> spectate_room_post(
            *old(core),
            *final(core),
            pid,
            room_id,
            out@,
        ),
        msg is LeaveRoom ==> leave_room_post(*old(core), *final(core), pid, out@),
        msg is StartGame ==> start_game_post(*old(core), *final(core), pid, out@),
        msg is RollDice ==> roll_dice_post(*old(core), *final(core), pid, out@),
        msg matches ClientMessage::HoldDice { held } ==> hold_dice_post(
            *old(core),
            *final(core),
            pid,
            held,
            out@,
        ),
        msg matches ClientMessage::ScoreCategory { category } ==> score_category_post(
            *old(core),
            *final(core),
            pid,
            category,
            out@,
        ),
        msg matches ClientMessage::Chat { message } ==> core_unchanged(
            *old(core),
            *final(core),
        ) && chat_post(*final(core), pid, message, timestamp, out@),
        msg is Disconnect ==> disconnect_post(*old(core), *final(core), pid, out@),
{
    match msg {
        ClientMessage::Hello { .. } => Vec::new(),
        ClientMessage::ListRooms => handle_list_rooms(core, pid),
        ClientMessage::CreateRoom { room_name, max_players, password } => handle_create_room(
            core,
            pid,
            room_name,
            max_players,
            password,
        ),
        ClientMessage::JoinRoom { room_id, password } => handle_join_room(
            core,
            pid,
            room_id,
            password,
        ),
        ClientMessage::SpectateRoom { room_id } => handle_spectate_room(core, pid, room_id),
        ClientMessage::LeaveRoom => handle_leave_room(core, pid),
        ClientMessage::StartGame => handle_start_game(core, pid),
        ClientMessage::RollDice => handle_roll_dice(core, pid, rng),
        ClientMessage::HoldDice { held } => handle_hold_dice(core, pid, held),
        ClientMessage::ScoreCategory { category } => handle_score_category(core, pid, category),
        ClientMessage::Chat { message } => handle_chat(core, pid, message, timestamp),
        ClientMessage::Ping => handle_ping(pid),
        ClientMessage::Disconnect => handle_disconnect(core, pid),
    }
}

/// The handshake decision: the very first frame must be `Hello`. On a
/// `Hello` the player is registered under a fresh id and welcomed; any
/// other first message is answered with a handshake error and no
/// registration.
pub fn handshake(core: &mut ServerCore, msg: &ClientMessage, server_version: String) -> (r: (
    Option<u64>,
    ServerMessage,
))
    requires
        old(core).wf(),
    ensures
        final(core).wf(),
        final(core).lobby == old(core).lobby,
        !(msg is Hello) ==> r.0 is None && r.1 is HandshakeError && *final(core) == *old(core),
        msg is Hello && old(core).next_player_id < u64::MAX ==> {
            &&& r.0 == Some(old(core).next_player_id)
            &&& r.1 matches ServerMessage::Welcome { player_id, .. }
                && player_id == old(core).next_player_id
            &&& final(core).connections@.len() == old(core).connections@.len() + 1
            &&& final(core).connections@.last().player_id == old(core).next_player_id
        },
        msg is Hello && old(core).next_player_id == u64::MAX ==> r.0 is None
            && r.1 is HandshakeError && *final(core) == *old(core),
{
    match msg {
        ClientMessage::Hello { player_name, version: _ } => {
            match core.register_connection(player_name.clone()) {
                Some(id) => (
                    Some(id),
                    ServerMessage::Welcome { player_id: id, server_version },
                ),
                None => (
                    None,
                    ServerMessage::HandshakeError {
                        reason: String::from_str("server cannot accept new players"),
                    },
                ),
            }
        }
        _ => (
            None,
            ServerMessage::HandshakeError { reason: String::from_str("Expected Hello message") },
        ),
    }
}

} // verus!
