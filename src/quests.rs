//! Quests: one active quest per player, and each player's history of
//! completed quests.
use vstd::prelude::*;

use dashmap::DashMap;

verus! {

#[derive(Clone, Copy, Debug, PartialEq, Eq, Structural)]
pub enum Quest {
    CollectItems { item_id: u32, quantity: u32 },
    DefeatMonsters { monster_id: u32, count: u32 },
    ExploreArea { chunk_x: i32, chunk_y: i32, radius: u32 },
    DeliverItem { item_id: u32, npc_id: u128 },
}

/// A quest handed to a player, under the identity it was assigned with.
#[derive(Clone, Copy, Debug, PartialEq, Eq, Structural)]
pub struct AssignedQuest {
    pub id: u128,
    pub quest: Quest,
}

/// A player's completed quests, oldest first.
pub open spec fn history(completed: Map<u128, Seq<AssignedQuest>>, player: u128) -> Seq<AssignedQuest> {
    if completed.contains_key(player) {
        completed[player]
    } else {
        Seq::empty()
    }
}

/// The player's active quest has identity `quest_id`.
pub open spec fn holds(active: Map<u128, AssignedQuest>, player: u128, quest_id: u128) -> bool {
    active.contains_key(player) && active[player].id == quest_id
}

/// Quest state after completing quest `quest_id` for the player: when it is
/// the player's active quest it leaves the active set and is appended to the
/// history; otherwise nothing changes.
pub open spec fn completion(
    active: Map<u128, AssignedQuest>,
    completed: Map<u128, Seq<AssignedQuest>>,
    player: u128,
    quest_id: u128,
) -> (Map<u128, AssignedQuest>, Map<u128, Seq<AssignedQuest>>) {
    if holds(active, player, quest_id) {
        (
            active.remove(player),
            completed.insert(player, history(completed, player).push(active[player])),
        )
    } else {
        (active, completed)
    }
}

/// Completing a quest that is not the player's active quest changes
/// nothing: no quest moves, and no quest enters any history.
pub proof fn lemma_complete_unassigned_is_noop(
    active: Map<u128, AssignedQuest>,
    completed: Map<u128, Seq<AssignedQuest>>,
    player: u128,
    quest_id: u128,
)
    requires
        !holds(active, player, quest_id),
    ensures
        completion(active, completed, player, quest_id) == (active, completed),
        history(completion(active, completed, player, quest_id).1, player) == history(
            completed,
            player,
        ),
{
}

/// A completed quest is never still active: after completing the player's
/// active quest the player holds none, and the quest is the newest entry of
/// the history.
pub proof fn lemma_completion_moves_quest(
    active: Map<u128, AssignedQuest>,
    completed: Map<u128, Seq<AssignedQuest>>,
    player: u128,
    quest_id: u128,
)
    requires
        holds(active, player, quest_id),
    ensures
        !completion(active, completed, player, quest_id).0.contains_key(player),
        history(completion(active, completed, player, quest_id).1, player).last() == active[player],
        history(completion(active, completed, player, quest_id).1, player).last().id == quest_id,
        history(completion(active, completed, player, quest_id).1, player).len() == history(
            completed,
            player,
        ).len() + 1,
{
}

/// Contents of an active-quest table.
pub uninterp spec fn active_table(m: DashMap<u128, AssignedQuest>) -> Map<u128, AssignedQuest>;

/// Contents of a completed-quest table, each list as a sequence.
pub uninterp spec fn history_table(m: DashMap<u128, Vec<AssignedQuest>>) -> Map<u128, Seq<AssignedQuest>>;

/// Relies on `dashmap::DashMap::new`: an empty map.
#[verifier::external_body]
fn new_active_table() -> (r: DashMap<u128, AssignedQuest>)
    ensures
        active_table(r).dom() == Set::<u128>::empty(),
{
    DashMap::new()
}

/// Relies on `dashmap::DashMap::new`: an empty map.
#[verifier::external_body]
fn new_history_table() -> (r: DashMap<u128, Vec<AssignedQuest>>)
    ensures
        history_table(r).dom() == Set::<u128>::empty(),
{
    DashMap::new()
}

/// Relies on `dashmap::DashMap::insert`: the key now maps to the quest.
#[verifier::external_body]
fn active_store(m: &mut DashMap<u128, AssignedQuest>, k: u128, q: AssignedQuest)
    ensures
        active_table(*final(m)) == active_table(*old(m)).insert(k, q),
{
    m.insert(k, q);
}

/// Relies on `dashmap::DashMap::remove`: takes out the value under the key.
#[verifier::external_body]
fn active_take(m: &mut DashMap<u128, AssignedQuest>, k: u128) -> (r: Option<AssignedQuest>)
    ensures
        active_table(*final(m)) == active_table(*old(m)).remove(k),
        active_table(*old(m)).contains_key(k) ==> r == Some(active_table(*old(m))[k]),
        !active_table(*old(m)).contains_key(k) ==> r is None,
{
    m.remove(&k).map(|(_, q)| q)
}

/// Relies on `dashmap::DashMap::get`: the value under the key, if any.
#[verifier::external_body]
fn active_lookup(m: &DashMap<u128, AssignedQuest>, k: u128) -> (r: Option<AssignedQuest>)
    ensures
        active_table(*m).contains_key(k) ==> r == Some(active_table(*m)[k]),
        !active_table(*m).contains_key(k) ==> r is None,
{
    m.get(&k).map(|q| *q)
}

/// Relies on `dashmap::DashMap::insert`: the key now maps to the list.
#[verifier::external_body]
fn history_store(m: &mut DashMap<u128, Vec<AssignedQuest>>, k: u128, v: Vec<AssignedQuest>)
    ensures
        history_table(*final(m)) == history_table(*old(m)).insert(k, v@),
{
    m.insert(k, v);
}

/// Relies on `dashmap::DashMap::remove`: takes out the list under the key.
#[verifier::external_body]
fn history_take(m: &mut DashMap<u128, Vec<AssignedQuest>>, k: u128) -> (r: Option<Vec<AssignedQuest>>)
    ensures
        history_table(*final(m)) == history_table(*old(m)).remove(k),
        history_table(*old(m)).contains_key(k) ==> r is Some && r.unwrap()@ == history_table(
            *old(m),
        )[k],
        !history_table(*old(m)).contains_key(k) ==> r is None,
{
    m.remove(&k).map(|(_, v)| v)
}

/// Relies on `dashmap::DashMap::get`: a copy of the list under the key, if
/// any.
#[verifier::external_body]
fn history_lookup(m: &DashMap<u128, Vec<AssignedQuest>>, k: u128) -> (r: Option<Vec<AssignedQuest>>)
    ensures
        history_table(*m).contains_key(k) ==> r is Some && r.unwrap()@ == history_table(*m)[k],
        !history_table(*m).contains_key(k) ==> r is None,
{
    m.get(&k).map(|v| v.clone())
}

/// Active quests and completed histories, each in a sharded concurrent map.
pub struct QuestSystem {
    active_quests: DashMap<u128, AssignedQuest>,
    completed_quests: DashMap<u128, Vec<AssignedQuest>>,
}

impl QuestSystem {
    pub closed spec fn active(&self) -> Map<u128, AssignedQuest> {
        active_table(self.active_quests)
    }

    pub closed spec fn completed(&self) -> Map<u128, Seq<AssignedQuest>> {
        history_table(self.completed_quests)
    }

    pub fn new() -> (r: QuestSystem)
        ensures
            r.active() == Map::<u128, AssignedQuest>::empty(),
            r.completed() == Map::<u128, Seq<AssignedQuest>>::empty(),
    {
        let r = QuestSystem { active_quests: new_active_table(), completed_quests: new_history_table() };
        assert(r.active() =~= Map::<u128, AssignedQuest>::empty());
        assert(r.completed() =~= Map::<u128, Seq<AssignedQuest>>::empty());
        r
    }

    /// Makes `quest`, under identity `quest_id`, the player's active quest,
    /// replacing any other.
    pub fn assign_quest(&mut self, player_id: u128, quest_id: u128, quest: Quest)
        ensures
            final(self).active() == old(self).active().insert(
                player_id,
                AssignedQuest { id: quest_id, quest },
            ),
            final(self).completed() == old(self).completed(),
    {
        active_store(&mut self.active_quests, player_id, AssignedQuest { id: quest_id, quest });
    }

    /// Completes quest `quest_id` for the player when it is the player's
    /// active quest; any other call changes nothing.
    pub fn complete_quest(&mut self, player_id: u128, quest_id: u128)
        ensures
            (final(self).active(), final(self).completed()) == completion(
                old(self).active(),
                old(self).completed(),
                player_id,
                quest_id,
            ),
    {
        let ghost done0 = self.completed();
        match active_lookup(&self.active_quests, player_id) {
            Some(current) => {
                if current.id != quest_id {
                    return;
                }
            },
            None => {
                return;
            },
        }
        match active_take(&mut self.active_quests, player_id) {
            Some(quest) => {
                let mut done = match history_take(&mut self.completed_quests, player_id) {
                    Some(v) => v,
                    None => Vec::new(),
                };
                assert(done@ == history(done0, player_id));
                done.push(quest);
                history_store(&mut self.completed_quests, player_id, done);
                assert(self.completed() =~= done0.insert(
                    player_id,
                    history(done0, player_id).push(quest),
                ));
            },
            None => {},
        }
    }

    pub fn active_quest(&self, player_id: u128) -> (r: Option<AssignedQuest>)
        ensures
            r == (if self.active().contains_key(player_id) {
                Some(self.active()[player_id])
            } else {
                None
            }),
    {
        active_lookup(&self.active_quests, player_id)
    }

    pub fn completed_quests(&self, player_id: u128) -> (r: Vec<AssignedQuest>)
        ensures
            r@ == history(self.completed(), player_id),
    {
        match history_lookup(&self.completed_quests, player_id) {
            Some(v) => v,
            None => Vec::new(),
        }
    }
}

} // verus!
