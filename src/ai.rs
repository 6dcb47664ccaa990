//! Autonomous entity behaviour: patrol, guard and chase, advanced one step
//! per tick against a snapshot of the tracked targets.
use vstd::prelude::*;

use dashmap::DashMap;

use crate::geom::Position;

verus! {

#[derive(Clone, Debug, PartialEq, Eq)]
pub enum AIBehavior {
    /// Walks the waypoints in order, wrapping around; `current` is the
    /// waypoint reached last.
    Patrol { waypoints: Vec<Position>, current: usize },
    /// Watches the square of half-width `range` around `position`.
    Guard { position: Position, range: u32 },
    /// Pursues `target`; idle when there is none.
    Chase { target: Option<u128> },
}

/// A controlled entity: its identity, where it stands, and what it does.
#[derive(Clone, Debug, PartialEq, Eq)]
pub struct Agent {
    pub id: u128,
    pub position: Position,
    pub behavior: AIBehavior,
}

/// A tracked target: an identity and a position.
pub type Target = (u128, Position);

pub open spec fn abs_diff(a: int, b: int) -> int {
    if a >= b { a - b } else { b - a }
}

/// `p` lies in the square of half-width `range` centred on `anchor`.
pub open spec fn within(anchor: Position, range: u32, p: Position) -> bool {
    abs_diff(anchor.x as int, p.x as int) <= range && abs_diff(anchor.y as int, p.y as int) <= range
}

/// The first target, in list order, that lies within range of the anchor.
pub open spec fn first_within(t: Seq<Target>, anchor: Position, range: u32) -> Option<u128>
    decreases t.len(),
{
    if t.len() == 0 {
        None
    } else if within(anchor, range, t[0].1) {
        Some(t[0].0)
    } else {
        first_within(t.drop_first(), anchor, range)
    }
}

/// The position of the first target with identity `id`.
pub open spec fn position_of(t: Seq<Target>, id: u128) -> Option<Position>
    decreases t.len(),
{
    if t.len() == 0 {
        None
    } else if t[0].0 == id {
        Some(t[0].1)
    } else {
        position_of(t.drop_first(), id)
    }
}

pub open spec fn step_coord(from: i32, to: i32) -> i32 {
    if from < to {
        (from + 1) as i32
    } else if from > to {
        (from - 1) as i32
    } else {
        from
    }
}

/// One step from `from` toward `to`, one cell along each axis.
pub open spec fn step_toward(from: Position, to: Position) -> Position {
    Position { x: step_coord(from.x, to.x), y: step_coord(from.y, to.y) }
}

/// One tick of an agent's behaviour against a snapshot of the targets.
pub open spec fn step(a: Agent, targets: Seq<Target>) -> Agent {
    match a.behavior {
        AIBehavior::Patrol { waypoints, current } => {
            if waypoints.len() == 0 {
                a
            } else {
                let next = ((current % waypoints.len()) + 1) % (waypoints.len() as int);
                Agent {
                    id: a.id,
                    position: waypoints@[next],
                    behavior: AIBehavior::Patrol { waypoints, current: next as usize },
                }
            }
        },
        AIBehavior::Guard { position, range } => {
            match first_within(targets, position, range) {
                Some(t) => Agent { id: a.id, position: a.position, behavior: AIBehavior::Chase { target: Some(t) } },
                None => a,
            }
        },
        AIBehavior::Chase { target } => {
            match target {
                Some(t) => match position_of(targets, t) {
                    Some(p) => Agent { id: a.id, position: step_toward(a.position, p), behavior: a.behavior },
                    None => Agent { id: a.id, position: a.position, behavior: AIBehavior::Chase { target: None } },
                },
                None => a,
            }
        },
    }
}

fn step_coord_exec(from: i32, to: i32) -> (r: i32)
    ensures
        r == step_coord(from, to),
{
    if from < to {
        from + 1
    } else if from > to {
        from - 1
    } else {
        from
    }
}

fn abs_diff_exec(a: i32, b: i32) -> (r: u64)
    ensures
        r == abs_diff(a as int, b as int),
{
    if a >= b {
        (a as i64 - b as i64) as u64
    } else {
        (b as i64 - a as i64) as u64
    }
}

pub fn find_within(targets: &Vec<Target>, anchor: Position, range: u32) -> (r: Option<u128>)
    ensures
        r == first_within(targets@, anchor, range),
{
    let mut i: usize = 0;
    assert(targets@.subrange(0, targets.len() as int) =~= targets@);
    while i < targets.len()
        invariant
            i <= targets.len(),
            first_within(targets@.subrange(i as int, targets.len() as int), anchor, range)
                == first_within(targets@, anchor, range),
        decreases targets.len() - i,
    {
        let ghost rest = targets@.subrange(i as int, targets.len() as int);
        assert(rest.drop_first() =~= targets@.subrange(i + 1, targets.len() as int));
        let (id, p) = targets[i];
        if abs_diff_exec(anchor.x, p.x) <= range as u64 && abs_diff_exec(anchor.y, p.y) <= range as u64 {
            return Some(id);
        }
        i = i + 1;
    }
    None
}

pub fn find_position(targets: &Vec<Target>, id: u128) -> (r: Option<Position>)
    ensures
        r == position_of(targets@, id),
{
    let mut i: usize = 0;
    assert(targets@.subrange(0, targets.len() as int) =~= targets@);
    while i < targets.len()
        invariant
            i <= targets.len(),
            position_of(targets@.subrange(i as int, targets.len() as int), id) == position_of(
                targets@,
                id,
            ),
        decreases targets.len() - i,
    {
        let ghost rest = targets@.subrange(i as int, targets.len() as int);
        assert(rest.drop_first() =~= targets@.subrange(i + 1, targets.len() as int));
        if targets[i].0 == id {
            return Some(targets[i].1);
        }
        i = i + 1;
    }
    None
}

/// Advances one agent by one tick.
pub fn step_agent(a: Agent, targets: &Vec<Target>) -> (r: Agent)
    ensures
        r == step(a, targets@),
{
    let Agent { id, position, behavior } = a;
    match behavior {
        AIBehavior::Patrol { waypoints, current } => {
            if waypoints.len() == 0 {
                Agent { id, position, behavior: AIBehavior::Patrol { waypoints, current } }
            } else {
                let next = (current % waypoints.len() + 1) % waypoints.len();
                let p = waypoints[next];
                Agent { id, position: p, behavior: AIBehavior::Patrol { waypoints, current: next } }
            }
        },
        AIBehavior::Guard { position: anchor, range } => {
            match find_within(targets, anchor, range) {
                Some(t) => Agent { id, position, behavior: AIBehavior::Chase { target: Some(t) } },
                None => Agent { id, position, behavior: AIBehavior::Guard { position: anchor, range } },
            }
        },
        AIBehavior::Chase { target } => {
            match target {
                Some(t) => match find_position(targets, t) {
                    Some(p) => Agent {
                        id,
                        position: Position { x: step_coord_exec(position.x, p.x), y: step_coord_exec(position.y, p.y) },
                        behavior: AIBehavior::Chase { target: Some(t) },
                    },
                    None => Agent { id, position, behavior: AIBehavior::Chase { target: None } },
                },
                None => Agent { id, position, behavior: AIBehavior::Chase { target: None } },
            }
        },
    }
}

/// Where a newly registered agent stands: on its current waypoint when
/// patrolling, on its anchor when guarding, at the origin otherwise.
pub open spec fn start_position(b: AIBehavior) -> Position {
    match b {
        AIBehavior::Patrol { waypoints, current } => {
            if current < waypoints.len() {
                waypoints@[current as int]
            } else {
                Position { x: 0, y: 0 }
            }
        },
        AIBehavior::Guard { position, range } => position,
        AIBehavior::Chase { target } => Position { x: 0, y: 0 },
    }
}

fn start_position_exec(b: &AIBehavior) -> (r: Position)
    ensures
        r == start_position(*b),
{
    match b {
        AIBehavior::Patrol { waypoints, current } => {
            if *current < waypoints.len() {
                waypoints[*current]
            } else {
                Position { x: 0, y: 0 }
            }
        },
        AIBehavior::Guard { position, range } => *position,
        AIBehavior::Chase { target } => Position { x: 0, y: 0 },
    }
}

/// Contents of an agent table, by entity identity.
pub uninterp spec fn agent_table(m: DashMap<u128, Agent>) -> Map<u128, Agent>;

/// Relies on `dashmap::DashMap::new`: an empty map.
#[verifier::external_body]
fn new_agent_table() -> (r: DashMap<u128, Agent>)
    ensures
        agent_table(r).dom() == Set::<u128>::empty(),
{
    DashMap::new()
}

/// Relies on `dashmap::DashMap::get`: a copy of the agent under the key, if
/// any.
#[verifier::external_body]
fn agent_lookup(m: &DashMap<u128, Agent>, k: u128) -> (r: Option<Agent>)
    ensures
        agent_table(*m).contains_key(k) ==> r == Some(agent_table(*m)[k]),
        !agent_table(*m).contains_key(k) ==> r is None,
{
    m.get(&k).map(|a| a.clone())
}

/// Relies on `dashmap::DashMap::insert`: the key now maps to the agent.
#[verifier::external_body]
fn agent_store(m: &mut DashMap<u128, Agent>, k: u128, a: Agent)
    ensures
        agent_table(*final(m)) == agent_table(*old(m)).insert(k, a),
{
    m.insert(k, a);
}

/// Relies on `dashmap::DashMap::iter`: every key once, in an unspecified
/// order.
#[verifier::external_body]
fn agent_keys(m: &DashMap<u128, Agent>) -> (r: Vec<u128>)
    ensures
        r@.no_duplicates(),
        forall|k: u128| r@.contains(k) <==> agent_table(*m).contains_key(k),
{
    m.iter().map(|e| *e.key()).collect()
}

/// The behaviour table: one entry per controlled entity, in a sharded
/// concurrent map.
pub struct AISystem {
    behaviors: DashMap<u128, Agent>,
}

impl AISystem {
    pub closed spec fn agents(&self) -> Map<u128, Agent> {
        agent_table(self.behaviors)
    }

    /// Every agent is filed under its own identity.
    pub open spec fn wf(&self) -> bool {
        forall|k: u128| #[trigger] self.agents().contains_key(k) ==> self.agents()[k].id == k
    }

    pub fn new() -> (r: AISystem)
        ensures
            r.wf(),
            r.agents() == Map::<u128, Agent>::empty(),
    {
        let r = AISystem { behaviors: new_agent_table() };
        assert(r.agents() =~= Map::<u128, Agent>::empty());
        r
    }

    /// Registers or replaces the behaviour of `entity_id`. A known entity
    /// keeps its position; a new one starts at `start_position(behavior)`.
    pub fn set_behavior(&mut self, entity_id: u128, behavior: AIBehavior)
        requires
            old(self).wf(),
        ensures
            final(self).wf(),
            old(self).agents().contains_key(entity_id) ==> final(self).agents() == old(
                self,
            ).agents().insert(
                entity_id,
                Agent { id: entity_id, position: old(self).agents()[entity_id].position, behavior },
            ),
            !old(self).agents().contains_key(entity_id) ==> final(self).agents() == old(
                self,
            ).agents().insert(
                entity_id,
                Agent { id: entity_id, position: start_position(behavior), behavior },
            ),
    {
        let position = match agent_lookup(&self.behaviors, entity_id) {
            Some(a) => a.position,
            None => start_position_exec(&behavior),
        };
        agent_store(&mut self.behaviors, entity_id, Agent { id: entity_id, position, behavior });
    }

    /// Advances every agent by one step. Each agent sees only its own state
    /// from before the tick and the snapshot of targets, never another
    /// agent's update from the same tick.
    pub fn tick(&mut self, targets: &Vec<Target>)
        requires
            old(self).wf(),
        ensures
            final(self).wf(),
            final(self).agents() == old(self).agents().map_values(|a: Agent| step(a, targets@)),
    {
        let ghost before = self.agents();
        let keys = agent_keys(&self.behaviors);
        let mut i: usize = 0;
        while i < keys.len()
            invariant
                i <= keys.len(),
                keys@.no_duplicates(),
                forall|k: u128| keys@.contains(k) <==> before.contains_key(k),
                forall|k: u128| before.contains_key(k) ==> before[k].id == k,
                self.agents().dom() == before.dom(),
                forall|k: u128|
                    #[trigger] before.contains_key(k) ==> self.agents()[k] == (if keys@.subrange(
                        0,
                        i as int,
                    ).contains(k) {
                        step(before[k], targets@)
                    } else {
                        before[k]
                    }),
            decreases keys.len() - i,
        {
            let k = keys[i];
            proof {
                assert(keys@.contains(k));
                if keys@.subrange(0, i as int).contains(k) {
                    let t = keys@.subrange(0, i as int).index_of(k);
                    assert(keys@[t] == keys@[i as int]);
                }
            }
            match agent_lookup(&self.behaviors, k) {
                Some(a) => {
                    agent_store(&mut self.behaviors, k, step_agent(a, targets));
                },
                None => {},
            }
            proof {
                assert forall|c: u128| #[trigger] before.contains_key(c) implies self.agents()[c] == (
                if keys@.subrange(0, i + 1).contains(c) {
                    step(before[c], targets@)
                } else {
                    before[c]
                }) by {
                    if c != k {
                        if keys@.subrange(0, i + 1).contains(c) {
                            let t = keys@.subrange(0, i + 1).index_of(c);
                            assert(keys@.subrange(0, i as int)[t] == c);
                        }
                        if keys@.subrange(0, i as int).contains(c) {
                            let t = keys@.subrange(0, i as int).index_of(c);
                            assert(keys@.subrange(0, i + 1)[t] == c);
                        }
                    } else {
                        assert(keys@.subrange(0, i + 1)[i as int] == k);
                    }
                }
                assert(self.agents().dom() =~= before.dom());
            }
            i = i + 1;
        }
        proof {
            assert(keys@.subrange(0, keys.len() as int) =~= keys@);
            assert(self.agents() =~= before.map_values(|a: Agent| step(a, targets@)));
        }
    }

    /// The behaviour registered for `entity_id`, if any.
    pub fn behavior_of(&self, entity_id: u128) -> (r: Option<AIBehavior>)
        ensures
            self.agents().contains_key(entity_id) ==> r == Some(self.agents()[entity_id].behavior),
            !self.agents().contains_key(entity_id) ==> r is None,
    {
        match agent_lookup(&self.behaviors, entity_id) {
            Some(a) => Some(a.behavior),
            None => None,
        }
    }
}

} // verus!
