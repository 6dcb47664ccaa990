//! The leaderboard: scores grouped by value, and each player's unlocked
//! achievements. Timestamps are milliseconds since the Unix epoch.
use vstd::prelude::*;

use std::collections::BTreeMap;
use std::collections::HashMap;

use vstd::std_specs::cmp::OrdSpec;
use vstd::std_specs::iter::IteratorSpec;

verus! {

broadcast use {
    vstd::std_specs::hash::group_hash_axioms,
    vstd::std_specs::btree::group_btree_axioms,
    vstd::laws_cmp::group_laws_cmp,
};

#[derive(Clone, Debug, PartialEq, Eq)]
pub struct ScoreEntry {
    pub player_id: u128,
    pub player_name: String,
    pub score: u32,
    pub timestamp: i64,
    pub game_mode: String,
}

#[derive(Clone, Copy, Debug, PartialEq, Eq, Structural)]
pub enum Achievement {
    FirstGame,
    Score1000,
    Score10000,
    PerfectGame,
    SpeedRun { time: u32 },
}

impl ScoreEntry {
    pub fn copy_entry(&self) -> (r: ScoreEntry)
        ensures
            r == *self,
    {
        ScoreEntry {
            player_id: self.player_id,
            player_name: self.player_name.clone(),
            score: self.score,
            timestamp: self.timestamp,
            game_mode: self.game_mode.clone(),
        }
    }
}

/// The entries filed under one score, oldest first.
pub open spec fn group(m: Map<u32, Seq<ScoreEntry>>, score: u32) -> Seq<ScoreEntry> {
    if m.contains_key(score) {
        m[score]
    } else {
        Seq::empty()
    }
}

/// `kvs` lists the groups of `m` by strictly increasing score.
pub open spec fn ordered_groups(m: Map<u32, Seq<ScoreEntry>>, kvs: Seq<(u32, Seq<ScoreEntry>)>) -> bool {
    &&& kvs.len() == m.dom().len()
    &&& forall|i: int, j: int| 0 <= i < j < kvs.len() ==> (#[trigger] kvs[i]).0 < (#[trigger] kvs[j]).0
    &&& forall|i: int| 0 <= i < kvs.len() ==> m.contains_key((#[trigger] kvs[i]).0) && m[kvs[i].0] == kvs[i].1
}

/// Entries from the highest score group down, each group oldest first.
pub open spec fn flat_desc(kvs: Seq<(u32, Seq<ScoreEntry>)>) -> Seq<ScoreEntry>
    decreases kvs.len(),
{
    if kvs.len() == 0 {
        Seq::empty()
    } else {
        flat_desc(kvs.drop_first()) + kvs.first().1
    }
}

/// At most the first `limit` elements.
pub open spec fn capped(s: Seq<ScoreEntry>, limit: nat) -> Seq<ScoreEntry> {
    if s.len() <= limit {
        s
    } else {
        s.take(limit as int)
    }
}

proof fn lemma_capped_push(s: Seq<ScoreEntry>, e: ScoreEntry, limit: nat)
    ensures
        capped(s.push(e), limit) == if capped(s, limit).len() < limit {
            capped(s, limit).push(e)
        } else {
            capped(s, limit)
        },
{
    if s.len() < limit {
    } else if s.len() == limit {
        assert(s.push(e).take(limit as int) =~= s);
    } else {
        assert(s.push(e).take(limit as int) =~= s.take(limit as int));
    }
}

pub struct Leaderboard {
    scores: BTreeMap<u32, Vec<ScoreEntry>>,
    achievements: HashMap<u128, Vec<Achievement>>,
}

impl Leaderboard {
    pub closed spec fn groups(&self) -> Map<u32, Seq<ScoreEntry>> {
        self.scores@.map_values(|v: Vec<ScoreEntry>| v@)
    }

    pub closed spec fn unlocked(&self) -> Map<u128, Seq<Achievement>> {
        self.achievements@.map_values(|v: Vec<Achievement>| v@)
    }

    pub fn new() -> (r: Leaderboard)
        ensures
            r.groups() == Map::<u32, Seq<ScoreEntry>>::empty(),
            r.unlocked() == Map::<u128, Seq<Achievement>>::empty(),
    {
        let r = Leaderboard { scores: BTreeMap::new(), achievements: HashMap::new() };
        assert(r.groups() =~= Map::<u32, Seq<ScoreEntry>>::empty());
        assert(r.unlocked() =~= Map::<u128, Seq<Achievement>>::empty());
        r
    }

    /// Files the entry after the earlier entries with the same score.
    pub fn add_score(&mut self, entry: ScoreEntry)
        ensures
            final(self).groups() == old(self).groups().insert(
                entry.score,
                group(old(self).groups(), entry.score).push(entry),
            ),
            final(self).unlocked() == old(self).unlocked(),
    {
        let ghost before = self.groups();
        let score = entry.score;
        let mut entries = match self.scores.remove(&score) {
            Some(v) => v,
            None => Vec::new(),
        };
        assert(entries@ == group(before, score));
        entries.push(entry);
        self.scores.insert(score, entries);
        assert(self.groups() =~= before.insert(score, group(before, score).push(entry)));
    }

    /// The best `limit` entries: highest score first, equal scores in the
    /// order they were added.
    pub fn get_top_scores(&self, limit: usize) -> (r: Vec<ScoreEntry>)
        ensures
            exists|kvs: Seq<(u32, Seq<ScoreEntry>)>|
                ordered_groups(self.groups(), kvs) && r@ == capped(flat_desc(kvs), limit as nat),
    {
        let m = &self.scores;
        let ghost kvs0 = vstd::std_specs::btree::spec_btree_map_iter(m).remaining();
        let ghost kvs = kvs0.map_values(|kv: (&u32, &Vec<ScoreEntry>)| (*kv.0, kv.1@));
        let mut groups: Vec<&Vec<ScoreEntry>> = Vec::new();
        for kv in it: m.iter()
            invariant
                it.seq() == kvs0,
                groups.len() == it.index(),
                forall|j: int| 0 <= j < it.index() ==> #[trigger] groups@[j] == kvs0[j].1,
        {
            groups.push(kv.1);
        }
        proof {
            assert(groups.len() == kvs.len());
            let keys = kvs0.map_values(|kv: (&u32, &Vec<ScoreEntry>)| *kv.0);
            assert(vstd::std_specs::btree::increasing_seq(keys));
            assert forall|i: int, j: int| 0 <= i < j < kvs.len() implies (#[trigger] kvs[i]).0 < (
            #[trigger] kvs[j]).0 by {
                assert(keys[i] == kvs[i].0 && keys[j] == kvs[j].0);
                assert(keys[i].cmp_spec(&keys[j]) is Less);
            }
            assert(kvs.len() == m@.dom().len());
            assert(self.groups().dom() =~= m@.dom());
            assert forall|i: int| 0 <= i < kvs.len() implies self.groups().contains_key(
                (#[trigger] kvs[i]).0,
            ) && self.groups()[kvs[i].0] == kvs[i].1 by {
                assert(m@.contains_key(*kvs0[i].0) && m@[*kvs0[i].0] == *kvs0[i].1);
            }
            assert(ordered_groups(self.groups(), kvs));
        }
        let n = groups.len();
        let mut out: Vec<ScoreEntry> = Vec::new();
        let mut j: usize = n;
        while j > 0
            invariant
                j <= n,
                n == groups.len(),
                n == kvs.len(),
                forall|t: int| 0 <= t < n ==> (#[trigger] groups@[t])@ == kvs[t].1,
                out@ == capped(flat_desc(kvs.subrange(j as int, n as int)), limit as nat),
            decreases j,
        {
            let g = groups[j - 1];
            let ghost prev = flat_desc(kvs.subrange(j as int, n as int));
            proof {
                let s = kvs.subrange(j - 1, n as int);
                assert(s.drop_first() =~= kvs.subrange(j as int, n as int));
                assert(s.first() == kvs[j - 1]);
            }
            let mut i: usize = 0;
            while i < g.len()
                invariant
                    i <= g.len(),
                    out@ == capped(prev + g@.subrange(0, i as int), limit as nat),
                decreases g.len() - i,
            {
                proof {
                    lemma_capped_push(prev + g@.subrange(0, i as int), g@[i as int], limit as nat);
                    assert((prev + g@.subrange(0, i as int)).push(g@[i as int]) =~= prev + g@.subrange(
                        0,
                        i + 1,
                    ));
                }
                if out.len() < limit {
                    out.push(g[i].copy_entry());
                }
                i = i + 1;
            }
            assert(g@.subrange(0, g.len() as int) =~= g@);
            j = j - 1;
        }
        assert(kvs.subrange(0, n as int) =~= kvs);
        out
    }

    pub fn unlock_achievement(&mut self, player_id: u128, achievement: Achievement)
        ensures
            final(self).groups() == old(self).groups(),
            final(self).unlocked() == old(self).unlocked().insert(
                player_id,
                (if old(self).unlocked().contains_key(player_id) {
                    old(self).unlocked()[player_id]
                } else {
                    Seq::empty()
                }).push(achievement),
            ),
    {
        let ghost before = self.unlocked();
        let mut list = match self.achievements.remove(&player_id) {
            Some(v) => v,
            None => Vec::new(),
        };
        list.push(achievement);
        self.achievements.insert(player_id, list);
        assert(self.unlocked() =~= before.insert(
            player_id,
            (if before.contains_key(player_id) {
                before[player_id]
            } else {
                Seq::empty()
            }).push(achievement),
        ));
    }

    pub fn get_achievements(&self, player_id: u128) -> (r: Vec<Achievement>)
        ensures
            self.unlocked().contains_key(player_id) ==> r@ == self.unlocked()[player_id],
            !self.unlocked().contains_key(player_id) ==> r@ == Seq::<Achievement>::empty(),
    {
        let mut out: Vec<Achievement> = Vec::new();
        match self.achievements.get(&player_id) {
            Some(v) => {
                let mut i: usize = 0;
                while i < v.len()
                    invariant
                        i <= v.len(),
                        out@ == v@.subrange(0, i as int),
                    decreases v.len() - i,
                {
                    out.push(v[i]);
                    i = i + 1;
                    assert(out@ =~= v@.subrange(0, i as int));
                }
                assert(out@ =~= v@);
            },
            None => {},
        }
        out
    }
}

} // verus!
