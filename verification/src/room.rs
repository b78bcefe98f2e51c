//! One room: membership of players and spectators, host election, password
//! gating, a capacity clamped to 2..6, and at most one owned game.

use vstd::prelude::*;
use crate::connection::ConnectionHandle;
use crate::game::{GameError, GameState};
use crate::lobby::{RoomInfo, RoomInfoState};
use crate::player::Player;
use crate::protocol::{PlayerInfo, RoomSnapshot, RoomState};

verus! {

/// The first index in `conns` whose record carries `id`, or -1.
pub open spec fn conn_idx(conns: Seq<ConnectionHandle>, id: u64) -> int
    decreases conns.len(),
{
    if conns.len() == 0 {
        -1
    } else if conns[0].player_id == id {
        0
    } else {
        let rest = conn_idx(conns.drop_first(), id);
        if rest < 0 {
            -1
        } else {
            rest + 1
        }
    }
}

/// `conn_idx` finds a record exactly when one carries the id.
pub proof fn lemma_conn_idx(conns: Seq<ConnectionHandle>, id: u64)
    ensures
        conn_idx(conns, id) >= 0 ==> {
            &&& conn_idx(conns, id) < conns.len()
            &&& conns[conn_idx(conns, id)].player_id == id
        },
        conn_idx(conns, id) < 0 ==> forall|i: int|
            0 <= i < conns.len() ==> (#[trigger] conns[i]).player_id != id,
    decreases conns.len(),
{
    if conns.len() > 0 {
        lemma_conn_idx(conns.drop_first(), id);
        if conn_idx(conns, id) < 0 {
            assert forall|i: int| 0 <= i < conns.len() implies (#[trigger] conns[i]).player_id
                != id by {
                if i > 0 {
                    assert(conns.drop_first()[i - 1] == conns[i]);
                }
            }
        }
    }
}

/// Look a connection up by player id: the record at the first matching
/// index, or nothing when no record carries the id.
pub fn find_conn(conns: &Vec<ConnectionHandle>, id: u64) -> (r: Option<&ConnectionHandle>)
    ensures
        conn_idx(conns@, id) >= 0 ==> (r matches Some(c) && *c == conns@[conn_idx(conns@, id)]),
        conn_idx(conns@, id) < 0 ==> r is None,
{
    let mut k: usize = 0;
    let n = conns.len();
    while k < n
        invariant
            k <= n,
            n == conns@.len(),
            forall|i: int| 0 <= i < k ==> (#[trigger] conns@[i]).player_id != id,
        decreases n - k,
    {
        if conns[k].player_id == id {
            proof {
                lemma_conn_idx_first_match(conns@, id, k as int);
            }
            return Some(&conns[k]);
        }
        k += 1;
    }
    proof {
        lemma_conn_idx(conns@, id);
        if conn_idx(conns@, id) >= 0 {
            assert(conns@[conn_idx(conns@, id)].player_id == id);
        }
    }
    None
}

/// When everything before `k` misses and `k` matches, `k` is the found index.
proof fn lemma_conn_idx_first_match(conns: Seq<ConnectionHandle>, id: u64, k: int)
    requires
        0 <= k < conns.len(),
        conns[k].player_id == id,
        forall|i: int| 0 <= i < k ==> (#[trigger] conns[i]).player_id != id,
    ensures
        conn_idx(conns, id) == k,
    decreases k,
{
    if k > 0 {
        lemma_conn_idx_first_match(conns.drop_first(), id, k - 1);
    }
}

/// The ids of `s` with every occurrence of `id` removed, in order.
pub open spec fn without_id(s: Seq<u64>, id: u64) -> Seq<u64> {
    s.filter(|x: u64| x != id)
}

/// The host id of a room that has no host: every player has left and only
/// spectators keep it alive until it is pruned. Real player ids are
/// allocated from 1 upward, so this value never names a player.
pub const NO_HOST: u64 = 0;

/// A room: identity, password gate, capacity, host, the ordered member
/// lists, and the owned game, if one is running. A `host_id` of `NO_HOST`
/// means the room is hostless.
pub struct Room {
    pub id: u64,
    pub name: String,
    pub max_players: u8,
    pub host_id: u64,
    pub player_ids: Vec<u64>,
    pub spectator_ids: Vec<u64>,
    pub game: Option<GameState>,
    pub password: Option<String>,
}

impl Room {
    /// A room is well formed when its capacity is clamped to 2..6, its
    /// member lists hold no duplicates, the player list fits the capacity,
    /// and its game (if any) is well formed.
    pub open spec fn wf(&self) -> bool {
        &&& 2 <= self.max_players <= 6
        &&& self.player_ids@.no_duplicates()
        &&& self.spectator_ids@.no_duplicates()
        &&& self.player_ids@.len() <= self.max_players
        &&& (self.game matches Some(g) ==> g.wf() && !(g.phase is Lobby))
    }

    /// A new room: capacity clamped into 2..6, the host as sole player, no
    /// spectators, no game.
    pub fn new(id: u64, name: String, max_players: u8, host_id: u64, password: Option<String>)
        -> (r: Room)
        ensures
            r.wf(),
            r.id == id,
            r.name@ == name@,
            r.max_players == (if max_players < 2 { 2u8 } else if max_players > 6 { 6u8 } else { max_players }),
            r.host_id == host_id,
            r.player_ids@ == seq![host_id],
            r.spectator_ids@.len() == 0,
            r.game is None,
            r.password == password,
    {
        let clamped: u8 = if max_players < 2 {
            2
        } else if max_players > 6 {
            6
        } else {
            max_players
        };
        let mut player_ids: Vec<u64> = Vec::new();
        player_ids.push(host_id);
        proof {
            assert(player_ids@ =~= seq![host_id]);
        }
        Room {
            id,
            name,
            max_players: clamped,
            host_id,
            player_ids,
            spectator_ids: Vec::new(),
            game: None,
            password,
        }
    }

    /// The password gate: a room without a password admits anyone; one with
    /// a password admits exactly a caller supplying that password.
    pub fn check_password(&self, provided: &Option<String>) -> (r: bool)
        ensures
            self.password is None ==> r,
            self.password matches Some(p) ==> r == (provided matches Some(q) && p@ == q@),
    {
        match &self.password {
            None => true,
            Some(pass) => match provided {
                Some(p) => *p == *pass,
                None => false,
            },
        }
    }

    /// Add a player. A room at capacity always rejects with
    /// `TooManyPlayers`; a room whose game is running rejects players (only
    /// spectators may still join). Both rejections change nothing. Adding
    /// an id already present changes nothing and succeeds. A player joining
    /// a hostless room (one kept alive by spectators alone) becomes its
    /// host.
    pub fn add_player(&mut self, player_id: u64) -> (r: Result<(), GameError>)
        requires
            old(self).wf(),
        ensures
            final(self).wf(),
            old(self).player_ids@.len() >= old(self).max_players ==> r == Err::<(), GameError>(
                GameError::TooManyPlayers,
            ) && *final(self) == *old(self),
            old(self).player_ids@.len() < old(self).max_players && old(self).game is Some
                ==> r == Err::<(), GameError>(GameError::GameNotInProgress)
                && *final(self) == *old(self),
            old(self).player_ids@.len() < old(self).max_players && old(self).game is None ==> {
                &&& r == Ok::<(), GameError>(())
                &&& final(self).player_ids@ == (if old(self).player_ids@.contains(player_id) {
                    old(self).player_ids@
                } else {
                    old(self).player_ids@.push(player_id)
                })
                &&& final(self).spectator_ids@ == old(self).spectator_ids@
                &&& final(self).host_id == (if old(self).player_ids@.len() == 0 {
                    player_id
                } else {
                    old(self).host_id
                })
                &&& final(self).game == old(self).game
                &&& final(self).id == old(self).id
                &&& final(self).name == old(self).name
                &&& final(self).max_players == old(self).max_players
                &&& final(self).password == old(self).password
            },
    {
        if self.player_ids.len() >= self.max_players as usize {
            return Err(GameError::TooManyPlayers);
        }
        if self.game.is_some() {
            return Err(GameError::GameNotInProgress);
        }
        if !contains_id(&self.player_ids, player_id) {
            if self.player_ids.len() == 0 {
                self.host_id = player_id;
            }
            self.player_ids.push(player_id);
        }
        Ok(())
    }

    /// Add a spectator; adding an id already present changes nothing.
    pub fn add_spectator(&mut self, spectator_id: u64)
        requires
            old(self).wf(),
        ensures
            final(self).wf(),
            final(self).spectator_ids@ == (if old(self).spectator_ids@.contains(spectator_id) {
                old(self).spectator_ids@
            } else {
                old(self).spectator_ids@.push(spectator_id)
            }),
            final(self).player_ids@ == old(self).player_ids@,
            final(self).host_id == old(self).host_id,
            final(self).game == old(self).game,
            final(self).id == old(self).id,
            final(self).name == old(self).name,
            final(self).max_players == old(self).max_players,
            final(self).password == old(self).password,
    {
        if !contains_id(&self.spectator_ids, spectator_id) {
            self.spectator_ids.push(spectator_id);
        }
    }

    /// Remove an id from both member lists. When the removed id was the
    /// host, host status passes to the first remaining player; a room left
    /// without players is hostless (`NO_HOST`) until a player joins or the
    /// room is pruned.
    pub fn remove_player(&mut self, player_id: u64)
        requires
            old(self).wf(),
        ensures
            final(self).wf(),
            final(self).player_ids@ == without_id(old(self).player_ids@, player_id),
            final(self).spectator_ids@ == without_id(old(self).spectator_ids@, player_id),
            final(self).host_id == (if old(self).host_id == player_id {
                if final(self).player_ids@.len() > 0 {
                    final(self).player_ids@[0]
                } else {
                    NO_HOST
                }
            } else {
                old(self).host_id
            }),
            final(self).game == old(self).game,
            final(self).id == old(self).id,
            final(self).name == old(self).name,
            final(self).max_players == old(self).max_players,
            final(self).password == old(self).password,
    {
        proof {
            lemma_without_id_props(self.player_ids@, player_id);
            lemma_without_id_props(self.spectator_ids@, player_id);
        }
        remove_id(&mut self.player_ids, player_id);
        remove_id(&mut self.spectator_ids, player_id);
        if self.host_id == player_id {
            if self.player_ids.len() > 0 {
                self.host_id = self.player_ids[0];
            } else {
                self.host_id = NO_HOST;
            }
        }
    }

    /// Whether both member lists are empty; such a room is garbage.
    pub fn is_empty(&self) -> (r: bool)
        ensures
            r == (self.player_ids@.len() == 0 && self.spectator_ids@.len() == 0),
    {
        self.player_ids.is_empty() && self.spectator_ids.is_empty()
    }

    /// The capacity-and-counts projection shown in the room browse list.
    pub fn info(&self) -> (r: RoomInfo)
        requires
            self.wf(),
        ensures
            r.room_id == self.id,
            r.room_name@ == self.name@,
            r.player_count == self.player_ids@.len(),
            r.max_players == self.max_players,
            r.spectator_count == (if self.spectator_ids@.len() < 255 {
                self.spectator_ids@.len() as int
            } else {
                255int
            }),
            r.state == (if self.game is Some {
                RoomInfoState::InProgress
            } else {
                RoomInfoState::Waiting
            }),
            r.has_password == (self.password is Some),
    {
        let sc = self.spectator_ids.len();
        RoomInfo {
            room_id: self.id,
            room_name: self.name.clone(),
            player_count: self.player_ids.len() as u8,
            max_players: self.max_players,
            spectator_count: if sc < 255 {
                sc as u8
            } else {
                255
            },
            state: if self.game.is_some() {
                RoomInfoState::InProgress
            } else {
                RoomInfoState::Waiting
            },
            has_password: self.password.is_some(),
        }
    }

    /// The detailed projection sent to this room's members: each member id
    /// resolved to its connection's display name; ids without a connection
    /// record are left out.
    pub fn snapshot(&self, connections: &Vec<ConnectionHandle>) -> (r: RoomSnapshot)
        requires
            self.wf(),
        ensures
            r.room_id == self.id,
            r.room_name@ == self.name@,
            r.host_id == self.host_id,
            r.max_players == self.max_players,
            r.state == (if self.game is Some {
                RoomState::InGame
            } else {
                RoomState::WaitingForPlayers
            }),
            r.players@.len() <= self.player_ids@.len(),
            forall|i: int| 0 <= i < r.players@.len() ==> {
                let c = conn_idx(connections@, (#[trigger] r.players@[i]).id);
                &&& self.player_ids@.contains(r.players@[i].id)
                &&& c >= 0
                &&& r.players@[i].name@ == connections@[c].player_name@
                &&& r.players@[i].connected
            },
            forall|i: int| 0 <= i < self.player_ids@.len()
                && conn_idx(connections@, #[trigger] self.player_ids@[i]) >= 0
                ==> exists|j: int| 0 <= j < r.players@.len()
                    && (#[trigger] r.players@[j]).id == self.player_ids@[i],
            r.spectators@.map_values(|s: String| s@) == self.spectator_ids@.filter(
                |id: u64| conn_idx(connections@, id) >= 0,
            ).map_values(|id: u64| connections@[conn_idx(connections@, id)].player_name@),
    {
        let mut players: Vec<PlayerInfo> = Vec::new();
        let mut k: usize = 0;
        let n = self.player_ids.len();
        while k < n
            invariant
                k <= n,
                n == self.player_ids@.len(),
                players@.len() <= k,
                forall|i: int| 0 <= i < players@.len() ==> {
                    let c = conn_idx(connections@, (#[trigger] players@[i]).id);
                    &&& self.player_ids@.contains(players@[i].id)
                    &&& c >= 0
                    &&& players@[i].name@ == connections@[c].player_name@
                    &&& players@[i].connected
                },
                forall|i: int| 0 <= i < k
                    && conn_idx(connections@, #[trigger] self.player_ids@[i]) >= 0
                    ==> exists|j: int| 0 <= j < players@.len()
                        && (#[trigger] players@[j]).id == self.player_ids@[i],
            decreases n - k,
        {
            let id = self.player_ids[k];
            let ghost pre = players@;
            match find_conn(connections, id) {
                Some(c) => {
                    proof {
                        lemma_conn_idx(connections@, id);
                    }
                    players.push(PlayerInfo {
                        id: c.player_id,
                        name: c.player_name.clone(),
                        connected: true,
                    });
                    proof {
                        assert(players@[players@.len() - 1].id == id);
                        assert forall|i: int| 0 <= i < k + 1 && conn_idx(
                            connections@,
                            #[trigger] self.player_ids@[i],
                        ) >= 0 implies exists|j: int| 0 <= j < players@.len()
                            && (#[trigger] players@[j]).id == self.player_ids@[i] by {
                            if i < k {
                                let j = choose|j: int| 0 <= j < pre.len() && (#[trigger] pre[
                                    j
                                ]).id == self.player_ids@[i];
                                assert(players@[j].id == self.player_ids@[i]);
                            } else {
                                assert(players@[players@.len() - 1].id == self.player_ids@[i]);
                            }
                        }
                    }
                }
                None => {
                    proof {
                        if conn_idx(connections@, id) >= 0 {
                            assert(false);
                        }
                    }
                }
            }
            k += 1;
        }

        proof {
            reveal(Seq::filter);
        }
        let ghost spred = |id: u64| conn_idx(connections@, id) >= 0;
        let ghost sname = |id: u64| connections@[conn_idx(connections@, id)].player_name@;
        let mut spectators: Vec<String> = Vec::new();
        let mut k2: usize = 0;
        let n2 = self.spectator_ids.len();
        while k2 < n2
            invariant
                k2 <= n2,
                n2 == self.spectator_ids@.len(),
                spred == (|id: u64| conn_idx(connections@, id) >= 0),
                sname == (|id: u64| connections@[conn_idx(connections@, id)].player_name@),
                spectators@.map_values(|s: String| s@) == self.spectator_ids@.take(
                    k2 as int,
                ).filter(spred).map_values(sname),
            decreases n2 - k2,
        {
            let id = self.spectator_ids[k2];
            proof {
                reveal(Seq::filter);
                assert(self.spectator_ids@.take(k2 as int + 1).drop_last()
                    =~= self.spectator_ids@.take(k2 as int));
                assert(self.spectator_ids@.take(k2 as int + 1).last()
                    == self.spectator_ids@[k2 as int]);
            }
            let ghost pre = spectators@;
            match find_conn(connections, id) {
                Some(c) => {
                    proof {
                        lemma_conn_idx(connections@, id);
                    }
                    spectators.push(c.player_name.clone());
                    proof {
                        assert(spectators@.map_values(|s: String| s@) =~= pre.map_values(
                            |s: String| s@,
                        ).push(c.player_name@));
                        assert(self.spectator_ids@.take(k2 as int + 1).filter(
                            spred,
                        ).map_values(sname) =~= self.spectator_ids@.take(k2 as int).filter(
                            spred,
                        ).map_values(sname).push(sname(id)));
                    }
                }
                None => {
                    proof {
                        if conn_idx(connections@, id) >= 0 {
                            assert(false);
                        }
                    }
                }
            }
            k2 += 1;
        }
        proof {
            assert(self.spectator_ids@.take(n2 as int) =~= self.spectator_ids@);
        }

        RoomSnapshot {
            room_id: self.id,
            room_name: self.name.clone(),
            host_id: self.host_id,
            players,
            spectators,
            state: if self.game.is_some() {
                RoomState::InGame
            } else {
                RoomState::WaitingForPlayers
            },
            max_players: self.max_players,
        }
    }

    /// Build a fresh game over the given players and start it. Fewer than 2
    /// or more than 6 players always fails and the room keeps its previous
    /// game state; on success the room owns the started game.
    pub fn start_game(&mut self, players: Vec<Player>) -> (r: Result<(), GameError>)
        requires
            old(self).wf(),
            crate::game::players_wf(players@),
            forall|i: int| 0 <= i < players@.len()
                ==> (#[trigger] players@[i]).scorecard.filled() == 0,
        ensures
            final(self).wf(),
            players@.len() < 2 ==> r == Err::<(), GameError>(GameError::NotEnoughPlayers)
                && *final(self) == *old(self),
            players@.len() > 6 ==> r == Err::<(), GameError>(GameError::TooManyPlayers)
                && *final(self) == *old(self),
            2 <= players@.len() <= 6 ==> {
                &&& r == Ok::<(), GameError>(())
                &&& final(self).game matches Some(g)
                &&& g.wf()
                &&& g.phase == crate::game::GamePhase::Playing
                &&& g.players@ == players@
                &&& g.round == 1
                &&& g.current_player_index == 0
                &&& final(self).player_ids@ == old(self).player_ids@
                &&& final(self).spectator_ids@ == old(self).spectator_ids@
                &&& final(self).host_id == old(self).host_id
                &&& final(self).id == old(self).id
                &&& final(self).name == old(self).name
                &&& final(self).max_players == old(self).max_players
                &&& final(self).password == old(self).password
            },
    {
        let mut game = GameState::new(players);
        match game.start() {
            Ok(()) => {
                self.game = Some(game);
                Ok(())
            }
            Err(e) => Err(e),
        }
    }

    /// Every player and spectator id, for broadcasting: the player list
    /// followed by the spectator list.
    pub fn all_member_ids(&self) -> (r: Vec<u64>)
        ensures
            r@ == self.player_ids@ + self.spectator_ids@,
    {
        let mut r: Vec<u64> = Vec::new();
        let mut k: usize = 0;
        let n = self.player_ids.len();
        while k < n
            invariant
                k <= n,
                n == self.player_ids@.len(),
                r@ == self.player_ids@.take(k as int),
            decreases n - k,
        {
            r.push(self.player_ids[k]);
            proof {
                assert(r@ =~= self.player_ids@.take(k as int + 1));
            }
            k += 1;
        }
        proof {
            assert(self.player_ids@.take(n as int) =~= self.player_ids@);
        }
        let mut k2: usize = 0;
        let n2 = self.spectator_ids.len();
        while k2 < n2
            invariant
                k2 <= n2,
                n2 == self.spectator_ids@.len(),
                r@ == self.player_ids@ + self.spectator_ids@.take(k2 as int),
            decreases n2 - k2,
        {
            r.push(self.spectator_ids[k2]);
            proof {
                assert(r@ =~= self.player_ids@ + self.spectator_ids@.take(k2 as int + 1));
            }
            k2 += 1;
        }
        proof {
            assert(self.player_ids@ + self.spectator_ids@.take(n2 as int) =~= self.player_ids@
                + self.spectator_ids@);
        }
        r
    }
}

/// Whether the list contains the id.
pub fn contains_id(ids: &Vec<u64>, id: u64) -> (r: bool)
    ensures
        r == ids@.contains(id),
{
    let mut k: usize = 0;
    let n = ids.len();
    while k < n
        invariant
            k <= n,
            n == ids@.len(),
            forall|i: int| 0 <= i < k ==> #[trigger] ids@[i] != id,
        decreases n - k,
    {
        if ids[k] == id {
            return true;
        }
        k += 1;
    }
    proof {
        if ids@.contains(id) {
            let i = choose|i: int| 0 <= i < ids@.len() && ids@[i] == id;
            assert(ids@[i] != id);
        }
    }
    false
}

/// Remove every occurrence of `id`, keeping the order of the rest.
fn remove_id(ids: &mut Vec<u64>, id: u64)
    ensures
        final(ids)@ == without_id(old(ids)@, id),
{
    proof {
        reveal(Seq::filter);
    }
    let mut out: Vec<u64> = Vec::new();
    let mut k: usize = 0;
    let n = ids.len();
    while k < n
        invariant
            k <= n,
            n == old(ids)@.len(),
            ids@ == old(ids)@,
            out@ == without_id(old(ids)@.take(k as int), id),
        decreases n - k,
    {
        proof {
            reveal(Seq::filter);
            assert(old(ids)@.take(k as int + 1).drop_last() =~= old(ids)@.take(k as int));
            assert(old(ids)@.take(k as int + 1).last() == old(ids)@[k as int]);
        }
        let x = ids[k];
        if x != id {
            out.push(x);
        }
        k += 1;
    }
    proof {
        assert(old(ids)@.take(n as int) =~= old(ids)@);
    }
    *ids = out;
}

/// Removing an id keeps no-duplicates, never grows the list, and keeps
/// only elements of the original.
proof fn lemma_without_id_props(s: Seq<u64>, id: u64)
    requires
        s.no_duplicates(),
    ensures
        without_id(s, id).no_duplicates(),
        without_id(s, id).len() <= s.len(),
        forall|x: u64| #[trigger] without_id(s, id).contains(x) ==> s.contains(x),
    decreases s.len(),
{
    reveal(Seq::filter);
    if s.len() > 0 {
        let d = s.drop_last();
        assert(d.no_duplicates());
        lemma_without_id_props(d, id);
        assert forall|x: u64| #[trigger] without_id(s, id).contains(x) implies s.contains(
            x,
        ) by {
            if without_id(d, id).contains(x) {
                let i = choose|i: int| 0 <= i < d.len() && d[i] == x;
                assert(s[i] == x);
            } else {
                assert(x == s.last());
            }
        }
        if s.last() != id {
            assert(without_id(s, id) == without_id(d, id).push(s.last()));
            assert forall|i: int| 0 <= i < without_id(d, id).len()
                implies without_id(d, id)[i] != s.last() by {
                if without_id(d, id)[i] == s.last() {
                    assert(without_id(d, id).contains(s.last()));
                    let j = choose|j: int| 0 <= j < d.len() && d[j] == s.last();
                    assert(s[j] == s[s.len() - 1]);
                }
            }
        }
    }
}

} // verus!
