//! The player registry: who is connected, where they stand and what they
//! carry.
use vstd::prelude::*;

use std::collections::HashMap;

use crate::geom::Position;
use vstd::std_specs::iter::IteratorSpec;

verus! {

broadcast use vstd::std_specs::hash::group_hash_axioms;

#[derive(Clone, Copy, Debug, PartialEq, Eq, Structural)]
pub enum Item {
    Key { id: u32 },
    Potion { health: u8 },
    Treasure { value: u32 },
}

/// Full health.
pub const MAX_HEALTH: u8 = 100;

#[derive(Clone, Debug, PartialEq, Eq)]
pub struct Player {
    pub id: u128,
    pub name: String,
    pub position: Position,
    /// The chunk the player belongs to.
    pub chunk: Position,
    pub health: u8,
    pub inventory: Vec<Item>,
}

pub struct PlayerView {
    pub id: u128,
    pub name: Seq<char>,
    pub position: Position,
    pub chunk: Position,
    pub health: u8,
    pub inventory: Seq<Item>,
}

impl View for Player {
    type V = PlayerView;

    open spec fn view(&self) -> PlayerView {
        PlayerView {
            id: self.id,
            name: self.name@,
            position: self.position,
            chunk: self.chunk,
            health: self.health,
            inventory: self.inventory@,
        }
    }
}

/// A player as created on joining: at the origin of chunk (0, 0), at full
/// health, carrying nothing.
pub open spec fn fresh_player(id: u128, name: Seq<char>) -> PlayerView {
    PlayerView {
        id,
        name,
        position: Position { x: 0, y: 0 },
        chunk: Position { x: 0, y: 0 },
        health: MAX_HEALTH,
        inventory: Seq::empty(),
    }
}

#[derive(Clone, Debug, PartialEq, Eq)]
pub enum GameEvent {
    PlayerJoined(Player),
    PlayerLeft(u128),
    PlayerMoved { id: u128, position: Position },
    PlayerInteracted { id: u128, item: Item },
    ChatMessage { id: u128, message: String },
}

#[verifier::external_type_specification]
#[verifier::external_body]
#[verifier::reject_recursive_types(T)]
pub struct ExUnboundedSender<T>(tokio::sync::mpsc::UnboundedSender<T>);

/// Relies on `tokio::sync::mpsc::UnboundedSender::send`: queues the event
/// without waiting. When every receiver is gone the event is dropped.
#[verifier::external_body]
fn emit(tx: &tokio::sync::mpsc::UnboundedSender<GameEvent>, event: GameEvent) {
    let _ = tx.send(event);
}

/// Relies on `uuid::Uuid::new_v4`: a random identity, as its 128-bit value.
#[verifier::external_body]
fn fresh_id() -> (r: u128) {
    uuid::Uuid::new_v4().as_u128()
}

/// `start + t`, wrapping around at `u128::MAX`.
pub open spec fn wrap_add(start: u128, t: int) -> u128 {
    if start + t > u128::MAX {
        (start + t - 0x1_0000_0000_0000_0000_0000_0000_0000_0000int) as u128
    } else {
        (start + t) as u128
    }
}

/// `c` consecutive identities (wrapping) that are all taken cannot
/// outnumber the taken identities.
proof fn lemma_taken_run_fits(taken: Set<u128>, start: u128, c: int)
    requires
        taken.finite(),
        0 <= c <= u64::MAX + 1,
        forall|t: int| 0 <= t < c ==> taken.contains(#[trigger] wrap_add(start, t)),
    ensures
        c <= taken.len(),
{
    let r = vstd::set_lib::set_int_range(0, c);
    vstd::set_lib::lemma_int_range(0, c);
    let f = |t: int| wrap_add(start, t);
    let y = r.map(f);
    assert(vstd::relations::injective_on(f, r)) by {
        assert forall|a: int, b: int| r.contains(a) && r.contains(b) && #[trigger] f(a) == #[trigger] f(b) implies a == b by {
        }
    }
    vstd::set_lib::lemma_map_size(r, y, f);
    assert(y.subset_of(taken)) by {
        assert forall|x: u128| y.contains(x) implies taken.contains(x) by {
            let t = choose|t: int| r.contains(t) && f(t) == x;
            assert(taken.contains(wrap_add(start, t)));
        }
    }
    vstd::set_lib::lemma_len_subset(y, taken);
}

impl Player {
    /// A copy of this player.
    pub fn copy_player(&self) -> (r: Player)
        ensures
            r@ == self@,
    {
        let mut inventory: Vec<Item> = Vec::new();
        let mut i: usize = 0;
        while i < self.inventory.len()
            invariant
                i <= self.inventory.len(),
                inventory@ == self.inventory@.subrange(0, i as int),
            decreases self.inventory.len() - i,
        {
            inventory.push(self.inventory[i]);
            i = i + 1;
            assert(inventory@ =~= self.inventory@.subrange(0, i as int));
        }
        assert(inventory@ =~= self.inventory@);
        Player {
            id: self.id,
            name: self.name.clone(),
            position: self.position,
            chunk: self.chunk,
            health: self.health,
            inventory,
        }
    }
}

/// The registry of connected players. Every state change is announced on
/// the event channel.
pub struct MultiplayerServer {
    players: HashMap<u128, Player>,
    event_tx: tokio::sync::mpsc::UnboundedSender<GameEvent>,
    emitted: Ghost<Seq<GameEvent>>,
}

impl MultiplayerServer {
    pub closed spec fn players(&self) -> Map<u128, PlayerView> {
        self.players@.map_values(|p: Player| p@)
    }

    /// Every event handed to the channel so far, oldest first.
    pub closed spec fn events(&self) -> Seq<GameEvent> {
        self.emitted@
    }

    fn announce(&mut self, event: GameEvent)
        ensures
            final(self).events() == old(self).events().push(event),
            final(self).players() == old(self).players(),
    {
        self.emitted = Ghost(self.emitted@.push(event));
        emit(&self.event_tx, event);
    }

    /// Each player is filed under its own identity.
    pub open spec fn wf(&self) -> bool {
        forall|id: u128| #[trigger] self.players().contains_key(id) ==> self.players()[id].id == id
    }

    pub fn new(event_tx: tokio::sync::mpsc::UnboundedSender<GameEvent>) -> (r: MultiplayerServer)
        ensures
            r.wf(),
            r.players() == Map::<u128, PlayerView>::empty(),
            r.events() == Seq::<GameEvent>::empty(),
    {
        let r = MultiplayerServer { players: HashMap::new(), event_tx, emitted: Ghost(Seq::empty()) };
        assert(r.players() =~= Map::<u128, PlayerView>::empty());
        r
    }

    /// Registers a new player under a fresh identity and announces it.
    pub fn add_player(&mut self, name: String) -> (r: Player)
        requires
            old(self).wf(),
        ensures
            final(self).wf(),
            r@ == fresh_player(r.id, name@),
            !old(self).players().contains_key(r.id),
            final(self).players() == old(self).players().insert(r.id, r@),
            final(self).events().drop_last() == old(self).events(),
            final(self).events().len() == old(self).events().len() + 1,
            final(self).events().last() is PlayerJoined,
            final(self).events().last()->PlayerJoined_0@ == r@,
    {
        let mut id = fresh_id();
        let ghost start = id;
        let ghost taken = self.players@.dom();
        let mut tried: usize = 0;
        let n = self.players.len();
        while self.players.contains_key(&id)
            invariant
                self.players@.dom() == taken,
                taken.len() == n,
                taken.finite(),
                tried <= taken.len(),
                id == wrap_add(start, tried as int),
                forall|t: int| 0 <= t < tried ==> taken.contains(#[trigger] wrap_add(start, t)),
            decreases taken.len() - tried,
        {
            proof {
                assert forall|t: int| 0 <= t < tried + 1 implies taken.contains(#[trigger] wrap_add(start, t)) by {
                    if t == tried as int {
                        assert(taken.contains(id));
                    }
                }
                lemma_taken_run_fits(taken, start, tried + 1);
            }
            id = id.wrapping_add(1);
            tried = tried + 1;
        }
        assert(!self.players@.dom().contains(id));
        let player = Player {
            id,
            name,
            position: Position { x: 0, y: 0 },
            chunk: Position { x: 0, y: 0 },
            health: MAX_HEALTH,
            inventory: Vec::new(),
        };
        assert(player.inventory@ =~= Seq::<Item>::empty());
        let ghost before = self.players();
        self.players.insert(player.id, player.copy_player());
        assert(self.players() =~= before.insert(player.id, player@));
        let ghost before_events = self.events();
        self.announce(GameEvent::PlayerJoined(player.copy_player()));
        assert(self.events().drop_last() =~= before_events);
        player
    }

    /// Removes the player and announces the departure; an unknown identity
    /// is a no-op.
    pub fn remove_player(&mut self, id: u128)
        requires
            old(self).wf(),
        ensures
            final(self).wf(),
            final(self).players() == old(self).players().remove(id),
            old(self).players().contains_key(id) ==> final(self).events() == old(self).events().push(
                GameEvent::PlayerLeft(id),
            ),
            !old(self).players().contains_key(id) ==> final(self).events() == old(self).events(),
    {
        let ghost before = self.players();
        match self.players.remove(&id) {
            Some(_) => {
                assert(self.players() =~= before.remove(id));
                self.announce(GameEvent::PlayerLeft(id));
            },
            None => {
                assert(self.players() =~= before.remove(id));
            },
        }
    }

    /// Moves a known player and announces it; an unknown identity is
    /// ignored.
    pub fn move_player(&mut self, id: u128, new_position: Position)
        requires
            old(self).wf(),
        ensures
            final(self).wf(),
            old(self).players().contains_key(id) ==> final(self).players() == old(
                self,
            ).players().insert(id, PlayerView { position: new_position, ..old(self).players()[id] }),
            !old(self).players().contains_key(id) ==> final(self).players() == old(self).players(),
            old(self).players().contains_key(id) ==> final(self).events() == old(self).events().push(
                GameEvent::PlayerMoved { id, position: new_position },
            ),
            !old(self).players().contains_key(id) ==> final(self).events() == old(self).events(),
    {
        let ghost before = self.players();
        match self.players.remove(&id) {
            Some(player) => {
                let Player { id: pid, name, position, chunk, health, inventory } = player;
                let moved = Player { id: pid, name, position: new_position, chunk, health, inventory };
                self.players.insert(id, moved);
                assert(self.players() =~= before.insert(
                    id,
                    PlayerView { position: new_position, ..before[id] },
                ));
                self.announce(GameEvent::PlayerMoved { id, position: new_position });
            },
            None => {
                assert(self.players() =~= before);
            },
        }
    }

    /// Adds an item to a known player's inventory and announces it; an
    /// unknown identity is ignored.
    pub fn interact(&mut self, id: u128, item: Item)
        requires
            old(self).wf(),
        ensures
            final(self).wf(),
            old(self).players().contains_key(id) ==> final(self).players() == old(
                self,
            ).players().insert(
                id,
                PlayerView {
                    inventory: old(self).players()[id].inventory.push(item),
                    ..old(self).players()[id]
                },
            ),
            !old(self).players().contains_key(id) ==> final(self).players() == old(self).players(),
            old(self).players().contains_key(id) ==> final(self).events() == old(self).events().push(
                GameEvent::PlayerInteracted { id, item },
            ),
            !old(self).players().contains_key(id) ==> final(self).events() == old(self).events(),
    {
        let ghost before = self.players();
        match self.players.remove(&id) {
            Some(player) => {
                let Player { id: pid, name, position, chunk, health, mut inventory } = player;
                inventory.push(item);
                let updated = Player { id: pid, name, position, chunk, health, inventory };
                self.players.insert(id, updated);
                assert(self.players() =~= before.insert(
                    id,
                    PlayerView { inventory: before[id].inventory.push(item), ..before[id] },
                ));
                self.announce(GameEvent::PlayerInteracted { id, item });
            },
            None => {
                assert(self.players() =~= before);
            },
        }
    }

    /// Announces a chat message; the registry is unchanged.
    pub fn send_chat(&mut self, id: u128, message: String)
        requires
            old(self).wf(),
        ensures
            final(self).wf(),
            final(self).players() == old(self).players(),
            final(self).events() == old(self).events().push(GameEvent::ChatMessage { id, message }),
    {
        self.announce(GameEvent::ChatMessage { id, message });
    }

    /// The registered player with this identity, if any.
    pub fn player(&self, id: u128) -> (r: Option<Player>)
        ensures
            match r {
                Some(p) => self.players().contains_key(id) && p@ == self.players()[id],
                None => !self.players().contains_key(id),
            },
    {
        match self.players.get(&id) {
            Some(p) => Some(p.copy_player()),
            None => None,
        }
    }

    /// A snapshot of every player's identity and position.
    pub fn positions(&self) -> (r: Vec<(u128, Position)>)
        requires
            self.wf(),
        ensures
            forall|j: int|
                0 <= j < r.len() ==> self.players().contains_key((#[trigger] r@[j]).0)
                    && self.players()[r@[j].0].position == r@[j].1,
            forall|k: u128|
                #[trigger] self.players().contains_key(k) ==> exists|j: int|
                    0 <= j < r.len() && (#[trigger] r@[j]) == (k, self.players()[k].position),
    {
        let m = &self.players;
        let mut out: Vec<(u128, Position)> = Vec::new();
        let ghost init = vstd::std_specs::hash::spec_values_iter(m).remaining();
        proof {
            assert forall|k: u128| m@.contains_key(k) implies exists|j: int|
                0 <= j < init.len() && *#[trigger] init[j] == m@[k] by {
                assert(m@.values().contains(m@[k]));
                assert(init.unref().to_set().contains(m@[k]));
                assert(init.unref().contains(m@[k]));
                let j = init.unref().index_of(m@[k]);
                assert(*init[j] == init.unref()[j]);
            }
        }
        for p in it: m.values()
            invariant
                self.wf(),
                m == &self.players,
                forall|j: int|
                    0 <= j < out.len() ==> m@.contains_key((#[trigger] out@[j]).0) && m@[out@[j].0].position
                        == out@[j].1,
                forall|k: u128|
                    m@.contains_key(k) ==> (exists|j: int|
                        0 <= j < out.len() && (#[trigger] out@[j]) == (k, m@[k].position)) || (exists|j: int|
                        it.index() <= j < it.seq().len() && *#[trigger] it.seq()[j] == m@[k]),
        {
            assert(*p == *it.seq()[it.index()]);
            let ghost out0 = out@;
            let ghost idx = it.index();
            proof {
                assert(m@.values().contains(*p));
                let k = choose|k: u128| m@.contains_key(k) && m@[k] == *p;
                assert(self.players().contains_key(k) && self.players()[k] == m@[k]@);
                assert(self.players()[k].id == k);
                assert(p.id == k);
            }
            out.push((p.id, p.position));
            proof {
                assert forall|k: u128| m@.contains_key(k) implies (exists|j: int|
                    0 <= j < out.len() && (#[trigger] out@[j]) == (k, m@[k].position)) || (exists|j: int|
                    idx + 1 <= j < it.seq().len() && *#[trigger] it.seq()[j] == m@[k]) by {
                    if exists|j: int| 0 <= j < out0.len() && (#[trigger] out0[j]) == (k, m@[k].position) {
                        let j = choose|j: int| 0 <= j < out0.len() && (#[trigger] out0[j]) == (k, m@[k].position);
                        assert(out@[j] == out0[j]);
                    } else {
                        let j = choose|j: int| idx <= j < it.seq().len() && *#[trigger] it.seq()[j] == m@[k];
                        if j == idx {
                            assert(self.players().contains_key(k) && self.players()[k] == m@[k]@);
                            assert(m@[k].id == k);
                            assert(out@[out.len() - 1] == (k, m@[k].position));
                        } else {
                            assert(idx + 1 <= j);
                        }
                    }
                }
                assert forall|j: int| 0 <= j < out.len() implies m@.contains_key((#[trigger] out@[j]).0)
                    && m@[out@[j].0].position == out@[j].1 by {
                    if j < out0.len() {
                        assert(out@[j] == out0[j]);
                    } else {
                        let k = choose|k: u128| m@.contains_key(k) && m@[k] == *p;
                        assert(self.players()[k] == m@[k]@);
                    }
                }
            }
        }
        proof {
            assert forall|k: u128| #[trigger] self.players().contains_key(k) implies exists|j: int|
                0 <= j < out.len() && (#[trigger] out@[j]) == (k, self.players()[k].position) by {
                assert(m@.contains_key(k));
                assert(self.players()[k] == m@[k]@);
            }
            assert forall|j: int| 0 <= j < out.len() implies self.players().contains_key(
                (#[trigger] out@[j]).0,
            ) && self.players()[out@[j].0].position == out@[j].1 by {
                assert(m@.contains_key(out@[j].0));
                assert(self.players()[out@[j].0] == m@[out@[j].0]@);
            }
        }
        out
    }

    /// A snapshot of the players in a chunk: each registered player in that
    /// chunk appears exactly once, and no other player appears.
    pub fn get_players_in_chunk(&self, chunk: Position) -> (r: Vec<Player>)
        requires
            self.wf(),
        ensures
            forall|j: int|
                0 <= j < r.len() ==> {
                    &&& (#[trigger] r@[j]).chunk == chunk
                    &&& self.players().contains_key(r@[j].id)
                    &&& self.players()[r@[j].id] == r@[j]@
                },
            forall|i: int, j: int| 0 <= i < j < r.len() ==> (#[trigger] r@[i]).id != (#[trigger] r@[j]).id,
            forall|k: u128|
                #[trigger] self.players().contains_key(k) && self.players()[k].chunk == chunk
                    ==> exists|j: int| 0 <= j < r.len() && (#[trigger] r@[j]).id == k,
    {
        let m = &self.players;
        let mut out: Vec<Player> = Vec::new();
        let ghost ks = vstd::std_specs::hash::spec_keys_iter(m).remaining();
        proof {
            assert forall|k: u128| m@.contains_key(k) implies exists|t: int|
                0 <= t < ks.len() && *#[trigger] ks[t] == k by {
                assert(ks.unref().to_set().contains(k));
                assert(ks.unref().contains(k));
                let t = ks.unref().index_of(k);
                assert(*ks[t] == ks.unref()[t]);
            }
        }
        for key in it: m.keys()
            invariant
                self.wf(),
                m == &self.players,
                it.seq() == ks,
                ks.no_duplicates(),
                forall|j: int|
                    0 <= j < out.len() ==> {
                        &&& (#[trigger] out@[j]).chunk == chunk
                        &&& m@.contains_key(out@[j].id)
                        &&& m@[out@[j].id]@ == out@[j]@
                        &&& exists|t: int| 0 <= t < it.index() && *ks[t] == out@[j].id
                    },
                forall|i: int, j: int| 0 <= i < j < out.len() ==> (#[trigger] out@[i]).id != (#[trigger] out@[j]).id,
                forall|k: u128|
                    m@.contains_key(k) && m@[k].chunk == chunk ==> (exists|j: int|
                        0 <= j < out.len() && (#[trigger] out@[j]).id == k) || (exists|t: int|
                        it.index() <= t < ks.len() && *#[trigger] ks[t] == k),
        {
            let ghost idx = it.index();
            let ghost out0 = out@;
            assert(*key == *ks[idx]);
            proof {
                assert(ks.unref().to_set().contains(*key)) by {
                    assert(ks.unref()[idx] == *key);
                }
            }
            match m.get(key) {
                Some(p) => {
                    if p.chunk == chunk {
                        proof {
                            assert(ks.unref().to_set() == m@.dom());
                            assert(m@.contains_key(*key));
                            assert(self.players().contains_key(*key));
                            assert(self.players()[*key] == m@[*key]@);
                            assert(p.id == *key);
                        }
                        out.push(p.copy_player());
                    }
                },
                None => {},
            }
            proof {
                assert forall|j: int| 0 <= j < out.len() implies exists|t: int|
                    0 <= t < idx + 1 && *ks[t] == (#[trigger] out@[j]).id by {
                    if j < out0.len() {
                        assert(out@[j] == out0[j]);
                        let t = choose|t: int| 0 <= t < idx && *ks[t] == out0[j].id;
                    } else {
                        assert(*ks[idx] == out@[j].id);
                    }
                }
                assert forall|i: int, j: int| 0 <= i < j < out.len() implies (#[trigger] out@[i]).id
                    != (#[trigger] out@[j]).id by {
                    if j < out0.len() {
                        assert(out@[i] == out0[i] && out@[j] == out0[j]);
                    } else {
                        assert(out@[i] == out0[i]);
                        let t = choose|t: int| 0 <= t < idx && *ks[t] == out0[i].id;
                        assert(ks[t] != ks[idx]);
                    }
                }
                assert forall|k: u128| m@.contains_key(k) && m@[k].chunk == chunk implies (exists|j: int|
                    0 <= j < out.len() && (#[trigger] out@[j]).id == k) || (exists|t: int|
                    idx + 1 <= t < ks.len() && *#[trigger] ks[t] == k) by {
                    if exists|j: int| 0 <= j < out0.len() && (#[trigger] out0[j]).id == k {
                        let j = choose|j: int| 0 <= j < out0.len() && (#[trigger] out0[j]).id == k;
                        assert(out@[j] == out0[j]);
                    } else {
                        let t = choose|t: int| idx <= t < ks.len() && *#[trigger] ks[t] == k;
                        if t == idx {
                            assert(out@[out.len() - 1].id == k);
                        } else {
                            assert(idx + 1 <= t);
                        }
                    }
                }
            }
        }
        proof {
            assert forall|j: int| 0 <= j < out.len() implies self.players().contains_key(
                (#[trigger] out@[j]).id,
            ) && self.players()[out@[j].id] == out@[j]@ by {
                assert(self.players()[out@[j].id] == m@[out@[j].id]@);
            }
            assert forall|k: u128| #[trigger]
                self.players().contains_key(k) && self.players()[k].chunk == chunk implies exists|j: int|
                0 <= j < out.len() && (#[trigger] out@[j]).id == k by {
                assert(m@.contains_key(k));
                assert(self.players()[k] == m@[k]@);
            }
        }
        out
    }
}

} // verus!
