//! The lobby: the capacity-and-counts projection shown in the room browse
//! list, and the registry of rooms with garbage collection of empty ones.

use vstd::prelude::*;
use crate::room::Room;

verus! {

/// The browse-list projection of one room.
#[derive(Debug, Clone)]
pub struct RoomInfo {
    pub room_id: u64,
    pub room_name: String,
    pub player_count: u8,
    pub max_players: u8,
    pub spectator_count: u8,
    pub state: RoomInfoState,
    pub has_password: bool,
}

/// The status of a room as shown in the browse list.
#[derive(Debug, Clone, Copy, PartialEq, Eq, Structural)]
pub enum RoomInfoState {
    Waiting,
    InProgress,
    Finished,
}

/// The rooms that still have a member: everything the sweep keeps.
pub open spec fn live_rooms(s: Seq<Room>) -> Seq<Room> {
    s.filter(|r: Room| !(r.player_ids@.len() == 0 && r.spectator_ids@.len() == 0))
}

/// The first index in `rooms` of the room with this id, or -1.
pub open spec fn room_idx(rooms: Seq<Room>, id: u64) -> int
    decreases rooms.len(),
{
    if rooms.len() == 0 {
        -1
    } else if rooms[0].id == id {
        0
    } else {
        let rest = room_idx(rooms.drop_first(), id);
        if rest < 0 {
            -1
        } else {
            rest + 1
        }
    }
}

/// `room_idx` finds a room exactly when one carries the id.
pub proof fn lemma_room_idx(rooms: Seq<Room>, id: u64)
    ensures
        room_idx(rooms, id) >= 0 ==> {
            &&& room_idx(rooms, id) < rooms.len()
            &&& rooms[room_idx(rooms, id)].id == id
        },
        room_idx(rooms, id) < 0 ==> forall|i: int|
            0 <= i < rooms.len() ==> (#[trigger] rooms[i]).id != id,
    decreases rooms.len(),
{
    if rooms.len() > 0 {
        lemma_room_idx(rooms.drop_first(), id);
        if room_idx(rooms, id) < 0 {
            assert forall|i: int| 0 <= i < rooms.len() implies (#[trigger] rooms[i]).id != id by {
                if i > 0 {
                    assert(rooms.drop_first()[i - 1] == rooms[i]);
                }
            }
        }
    }
}

/// When everything before `k` misses and `k` matches, `k` is the found index.
pub proof fn lemma_room_idx_first_match(rooms: Seq<Room>, id: u64, k: int)
    requires
        0 <= k < rooms.len(),
        rooms[k].id == id,
        forall|i: int| 0 <= i < k ==> (#[trigger] rooms[i]).id != id,
    ensures
        room_idx(rooms, id) == k,
    decreases k,
{
    if k > 0 {
        lemma_room_idx_first_match(rooms.drop_first(), id, k - 1);
    }
}

/// The root registry of rooms. Room ids come from a counter, so every room
/// holds a distinct id below `next_room_id`.
pub struct LobbyManager {
    pub rooms: Vec<Room>,
    pub next_room_id: u64,
}

impl LobbyManager {
    /// Every room is well formed, ids are unique, and every id is below the
    /// counter, so a fresh id collides with nothing.
    pub open spec fn wf(&self) -> bool {
        &&& forall|i: int| 0 <= i < self.rooms@.len() ==> (#[trigger] self.rooms@[i]).wf()
        &&& forall|i: int| 0 <= i < self.rooms@.len()
            ==> (#[trigger] self.rooms@[i]).id < self.next_room_id
        &&& forall|i: int, j: int| 0 <= i < j < self.rooms@.len()
            ==> (#[trigger] self.rooms@[i]).id != (#[trigger] self.rooms@[j]).id
    }

    /// An empty lobby.
    pub fn new() -> (m: LobbyManager)
        ensures
            m.wf(),
            m.rooms@.len() == 0,
            m.next_room_id == 1,
    {
        LobbyManager { rooms: Vec::new(), next_room_id: 1 }
    }

    /// Create a room with a fresh id, the creator as host and sole player,
    /// and return the id.
    pub fn create_room(
        &mut self,
        name: String,
        max_players: u8,
        host_id: u64,
        password: Option<String>,
    ) -> (id: u64)
        requires
            old(self).wf(),
            old(self).next_room_id < u64::MAX,
        ensures
            final(self).wf(),
            id == old(self).next_room_id,
            final(self).next_room_id == old(self).next_room_id + 1,
            final(self).rooms@.len() == old(self).rooms@.len() + 1,
            forall|i: int| 0 <= i < old(self).rooms@.len()
                ==> #[trigger] final(self).rooms@[i] == old(self).rooms@[i],
            final(self).rooms@.last().id == id,
            final(self).rooms@.last().name@ == name@,
            final(self).rooms@.last().max_players == (if max_players < 2 {
                2u8
            } else if max_players > 6 {
                6u8
            } else {
                max_players
            }),
            final(self).rooms@.last().host_id == host_id,
            final(self).rooms@.last().player_ids@ == seq![host_id],
            final(self).rooms@.last().spectator_ids@.len() == 0,
            final(self).rooms@.last().game is None,
            final(self).rooms@.last().password == password,
            room_idx(final(self).rooms@, id) == old(self).rooms@.len(),
    {
        let id = self.next_room_id;
        self.next_room_id = id + 1;
        let room = Room::new(id, name, max_players, host_id, password);
        self.rooms.push(room);
        proof {
            lemma_room_idx_first_match(self.rooms@, id, self.rooms@.len() - 1);
        }
        id
    }

    /// The browse list: one info line per room, in registry order.
    pub fn list_rooms(&self) -> (r: Vec<RoomInfo>)
        requires
            self.wf(),
        ensures
            r@.len() == self.rooms@.len(),
            forall|i: int| 0 <= i < r@.len() ==> {
                let room = #[trigger] self.rooms@[i];
                let info = r@[i];
                &&& info.room_id == room.id
                &&& info.player_count == room.player_ids@.len()
                &&& info.max_players == room.max_players
                &&& info.state == (if room.game is Some {
                    RoomInfoState::InProgress
                } else {
                    RoomInfoState::Waiting
                })
                &&& info.has_password == (room.password is Some)
            },
    {
        let mut r: Vec<RoomInfo> = Vec::new();
        let mut k: usize = 0;
        let n = self.rooms.len();
        while k < n
            invariant
                k <= n,
                n == self.rooms@.len(),
                self.wf(),
                r@.len() == k,
                forall|i: int| 0 <= i < k ==> {
                    let room = #[trigger] self.rooms@[i];
                    let info = r@[i];
                    &&& info.room_id == room.id
                    &&& info.player_count == room.player_ids@.len()
                    &&& info.max_players == room.max_players
                    &&& info.state == (if room.game is Some {
                        RoomInfoState::InProgress
                    } else {
                        RoomInfoState::Waiting
                    })
                    &&& info.has_password == (room.password is Some)
                },
            decreases n - k,
        {
            let info = self.rooms[k].info();
            r.push(info);
            k += 1;
        }
        r
    }

    /// The position of the room with this id in the registry, if present.
    pub fn room_position(&self, id: u64) -> (r: Option<usize>)
        ensures
            room_idx(self.rooms@, id) >= 0 ==> r == Some(room_idx(self.rooms@, id) as usize),
            room_idx(self.rooms@, id) < 0 ==> r is None,
    {
        let mut k: usize = 0;
        let n = self.rooms.len();
        while k < n
            invariant
                k <= n,
                n == self.rooms@.len(),
                forall|i: int| 0 <= i < k ==> (#[trigger] self.rooms@[i]).id != id,
            decreases n - k,
        {
            if self.rooms[k].id == id {
                proof {
                    lemma_room_idx_first_match(self.rooms@, id, k as int);
                }
                return Some(k);
            }
            k += 1;
        }
        proof {
            lemma_room_idx(self.rooms@, id);
            if room_idx(self.rooms@, id) >= 0 {
                assert(self.rooms@[room_idx(self.rooms@, id)].id == id);
            }
        }
        None
    }

    /// The room with this id, if present.
    pub fn get_room(&self, id: u64) -> (r: Option<&Room>)
        ensures
            room_idx(self.rooms@, id) >= 0 ==> (r matches Some(room) && *room == self.rooms@[
                room_idx(self.rooms@, id)
            ]),
            room_idx(self.rooms@, id) < 0 ==> r is None,
    {
        let n = self.rooms.len();
        match self.room_position(id) {
            Some(k) => {
                proof {
                    lemma_room_idx(self.rooms@, id);
                    assert(room_idx(self.rooms@, id) >= 0);
                    assert(room_idx(self.rooms@, id) < n);
                    assert(k as int == room_idx(self.rooms@, id));
                }
                Some(&self.rooms[k])
            }
            None => None,
        }
    }

    /// Drop the room with this id, if present; every other room stays.
    pub fn remove_room(&mut self, id: u64)
        requires
            old(self).wf(),
        ensures
            final(self).wf(),
            final(self).rooms@ == old(self).rooms@.filter(|r: Room| r.id != id),
            final(self).next_room_id == old(self).next_room_id,
    {
        proof {
            reveal(Seq::filter);
        }
        let mut out: Vec<Room> = Vec::new();
        let ghost orig = self.rooms@;
        let ghost total = orig.len();
        let ghost mut k: int = 0;
        while self.rooms.len() > 0
            invariant
                old(self).wf(),
                orig == old(self).rooms@,
                0 <= k <= total,
                orig.len() == total,
                self.next_room_id == old(self).next_room_id,
                self.rooms@ == orig.skip(k),
                out@ == orig.take(k).filter(|r: Room| r.id != id),
                forall|a: int| 0 <= a < out@.len() ==> exists|j: int|
                    0 <= j < k && #[trigger] out@[a] == orig[j],
                forall|a: int, b: int| 0 <= a < b < out@.len()
                    ==> (#[trigger] out@[a]).id != (#[trigger] out@[b]).id,
            decreases self.rooms@.len(),
        {
            proof {
                reveal(Seq::filter);
                assert(orig.take(k + 1).drop_last() =~= orig.take(k));
                assert(orig.take(k + 1).last() == orig[k]);
                assert(orig.skip(k)[0] == orig[k]);
            }
            let room = self.rooms.remove(0);
            proof {
                assert(self.rooms@ =~= orig.skip(k + 1));
            }
            let ghost pre_out = out@;
            if room.id != id {
                out.push(room);
            }
            proof {
                assert forall|a: int| 0 <= a < out@.len() implies exists|j: int|
                    0 <= j < k + 1 && #[trigger] out@[a] == orig[j] by {
                    if a < pre_out.len() {
                        let j = choose|j: int| 0 <= j < k && #[trigger] pre_out[a] == orig[j];
                        assert(out@[a] == orig[j]);
                    } else {
                        assert(out@[a] == orig[k]);
                    }
                }
                assert forall|a: int, b: int| 0 <= a < b < out@.len() implies (#[trigger] out@[
                    a
                ]).id != (#[trigger] out@[b]).id by {
                    if b >= pre_out.len() {
                        assert(out@[b] == orig[k]);
                        let j = choose|j: int| 0 <= j < k && #[trigger] pre_out[a] == orig[j];
                        assert(out@[a] == orig[j]);
                        assert(orig[j].id != orig[k].id);
                    }
                }
                k = k + 1;
            }
        }
        proof {
            reveal(Seq::filter);
            assert(orig.take(total as int) =~= orig);
            assert(k == total);
        }
        self.rooms = out;
    }

    /// Drop every room with no players and no spectators.
    pub fn prune_empty_rooms(&mut self)
        requires
            old(self).wf(),
        ensures
            final(self).wf(),
            final(self).rooms@ == live_rooms(old(self).rooms@),
            final(self).next_room_id == old(self).next_room_id,
    {
        proof {
            reveal(Seq::filter);
        }
        let mut out: Vec<Room> = Vec::new();
        let ghost orig = self.rooms@;
        let ghost total = orig.len();
        let ghost mut k: int = 0;
        while self.rooms.len() > 0
            invariant
                old(self).wf(),
                orig == old(self).rooms@,
                0 <= k <= total,
                orig.len() == total,
                self.next_room_id == old(self).next_room_id,
                self.rooms@ == orig.skip(k),
                out@ == live_rooms(orig.take(k)),
                forall|a: int| 0 <= a < out@.len() ==> exists|j: int|
                    0 <= j < k && #[trigger] out@[a] == orig[j],
                forall|a: int, b: int| 0 <= a < b < out@.len()
                    ==> (#[trigger] out@[a]).id != (#[trigger] out@[b]).id,
            decreases self.rooms@.len(),
        {
            proof {
                reveal(Seq::filter);
                assert(orig.take(k + 1).drop_last() =~= orig.take(k));
                assert(orig.take(k + 1).last() == orig[k]);
                assert(orig.skip(k)[0] == orig[k]);
            }
            let room = self.rooms.remove(0);
            proof {
                assert(self.rooms@ =~= orig.skip(k + 1));
            }
            let ghost pre_out = out@;
            if !room.is_empty() {
                out.push(room);
            }
            proof {
                assert forall|a: int| 0 <= a < out@.len() implies exists|j: int|
                    0 <= j < k + 1 && #[trigger] out@[a] == orig[j] by {
                    if a < pre_out.len() {
                        let j = choose|j: int| 0 <= j < k && #[trigger] pre_out[a] == orig[j];
                        assert(out@[a] == orig[j]);
                    } else {
                        assert(out@[a] == orig[k]);
                    }
                }
                assert forall|a: int, b: int| 0 <= a < b < out@.len() implies (#[trigger] out@[
                    a
                ]).id != (#[trigger] out@[b]).id by {
                    if b >= pre_out.len() {
                        assert(out@[b] == orig[k]);
                        let j = choose|j: int| 0 <= j < k && #[trigger] pre_out[a] == orig[j];
                        assert(out@[a] == orig[j]);
                        assert(orig[j].id != orig[k].id);
                    }
                }
                k = k + 1;
            }
        }
        proof {
            reveal(Seq::filter);
            assert(orig.take(total as int) =~= orig);
            assert(k == total);
        }
        self.rooms = out;
    }

    /// The room a player or spectator is in, if any: the first room whose
    /// member lists hold the id.
    pub fn find_player_room(&self, player_id: u64) -> (r: Option<u64>)
        ensures
            r matches Some(id) ==> exists|i: int| {
                &&& 0 <= i < self.rooms@.len()
                &&& (#[trigger] self.rooms@[i]).id == id
                &&& (self.rooms@[i].player_ids@.contains(player_id)
                    || self.rooms@[i].spectator_ids@.contains(player_id))
            },
            r is None ==> forall|i: int| 0 <= i < self.rooms@.len()
                ==> !(#[trigger] self.rooms@[i]).player_ids@.contains(player_id)
                    && !self.rooms@[i].spectator_ids@.contains(player_id),
    {
        let mut k: usize = 0;
        let n = self.rooms.len();
        while k < n
            invariant
                k <= n,
                n == self.rooms@.len(),
                forall|i: int| 0 <= i < k
                    ==> !(#[trigger] self.rooms@[i]).player_ids@.contains(player_id)
                        && !self.rooms@[i].spectator_ids@.contains(player_id),
            decreases n - k,
        {
            let in_room = crate::room::contains_id(&self.rooms[k].player_ids, player_id)
                || crate::room::contains_id(&self.rooms[k].spectator_ids, player_id);
            if in_room {
                return Some(self.rooms[k].id);
            }
            k += 1;
        }
        None
    }
}

} // verus!
