//! Game analytics: a log of game events and the report folded from it.
//! Times are milliseconds since the Unix epoch; durations are milliseconds.
use vstd::prelude::*;

use std::collections::HashMap;

verus! {

broadcast use vstd::std_specs::hash::group_hash_axioms;

/// Events buffered by `OptimizedAnalytics` before a flush.
pub const BUFFER_LIMIT: usize = 1000;

#[derive(Clone, Debug, PartialEq, Eq)]
pub enum GameEvent {
    GameStart { player_id: u128, timestamp: i64 },
    GameEnd { player_id: u128, score: u32, duration: i64 },
    AchievementUnlocked { player_id: u128, achievement: String },
    PlayerAction { player_id: u128, action: String, timestamp: i64 },
}

#[derive(Clone, Copy, Debug, PartialEq, Eq, Structural)]
pub struct PlayerStats {
    pub total_play_time: i64,
    pub games_played: u32,
    pub highest_score: u32,
    pub achievements_unlocked: u32,
    pub last_played: i64,
}

#[derive(Clone, Copy, Debug, PartialEq, Eq, Structural)]
pub struct AnalyticsReport {
    pub total_games: u32,
    pub total_play_time: i64,
    pub highest_score: u32,
    pub total_achievements: u32,
    pub active_players: u32,
}

pub open spec fn empty_report() -> AnalyticsReport {
    AnalyticsReport {
        total_games: 0,
        total_play_time: 0,
        highest_score: 0,
        total_achievements: 0,
        active_players: 0,
    }
}

pub open spec fn sat_inc(a: u32) -> u32 {
    if a == u32::MAX {
        a
    } else {
        (a + 1) as u32
    }
}

pub open spec fn sat_add_i64(a: i64, b: i64) -> i64 {
    if a + b > i64::MAX {
        i64::MAX
    } else if a + b < i64::MIN {
        i64::MIN
    } else {
        (a + b) as i64
    }
}

/// The report after one more event: a start counts a game, an end adds its
/// duration and may raise the highest score, an achievement is counted.
/// Counters saturate.
pub open spec fn report_step(r: AnalyticsReport, e: GameEvent) -> AnalyticsReport {
    match e {
        GameEvent::GameStart { .. } => AnalyticsReport { total_games: sat_inc(r.total_games), ..r },
        GameEvent::GameEnd { score, duration, .. } => AnalyticsReport {
            total_play_time: sat_add_i64(r.total_play_time, duration),
            highest_score: if score > r.highest_score { score } else { r.highest_score },
            ..r
        },
        GameEvent::AchievementUnlocked { .. } => AnalyticsReport {
            total_achievements: sat_inc(r.total_achievements),
            ..r
        },
        GameEvent::PlayerAction { .. } => r,
    }
}

/// `start` with the events folded in, oldest first.
pub open spec fn report_fold(start: AnalyticsReport, events: Seq<GameEvent>) -> AnalyticsReport
    decreases events.len(),
{
    if events.len() == 0 {
        start
    } else {
        report_step(report_fold(start, events.drop_last()), events.last())
    }
}

/// The report folded from a log of events, oldest first.
pub open spec fn report_of(events: Seq<GameEvent>) -> AnalyticsReport {
    report_fold(empty_report(), events)
}

impl AnalyticsReport {
    pub fn new() -> (r: AnalyticsReport)
        ensures
            r == empty_report(),
    {
        AnalyticsReport {
            total_games: 0,
            total_play_time: 0,
            highest_score: 0,
            total_achievements: 0,
            active_players: 0,
        }
    }
}

fn add_saturating(a: i64, b: i64) -> (r: i64)
    ensures
        r == sat_add_i64(a, b),
{
    let s = a as i128 + b as i128;
    if s > i64::MAX as i128 {
        i64::MAX
    } else if s < i64::MIN as i128 {
        i64::MIN
    } else {
        s as i64
    }
}

fn step_report(r: AnalyticsReport, e: &GameEvent) -> (out: AnalyticsReport)
    ensures
        out == report_step(r, *e),
{
    match e {
        GameEvent::GameStart { .. } => AnalyticsReport { total_games: r.total_games.saturating_add(1), ..r },
        GameEvent::GameEnd { score, duration, .. } => AnalyticsReport {
            total_play_time: add_saturating(r.total_play_time, *duration),
            highest_score: if *score > r.highest_score { *score } else { r.highest_score },
            ..r
        },
        GameEvent::AchievementUnlocked { .. } => AnalyticsReport {
            total_achievements: r.total_achievements.saturating_add(1),
            ..r
        },
        GameEvent::PlayerAction { .. } => r,
    }
}

pub struct GameAnalytics {
    player_stats: HashMap<u128, PlayerStats>,
    game_events: Vec<GameEvent>,
}

impl GameAnalytics {
    pub closed spec fn events(&self) -> Seq<GameEvent> {
        self.game_events@
    }

    pub closed spec fn stats(&self) -> Map<u128, PlayerStats> {
        self.player_stats@
    }

    pub fn new() -> (r: GameAnalytics)
        ensures
            r.events() == Seq::<GameEvent>::empty(),
            r.stats() == Map::<u128, PlayerStats>::empty(),
    {
        GameAnalytics { player_stats: HashMap::new(), game_events: Vec::new() }
    }

    pub fn record_event(&mut self, event: GameEvent)
        ensures
            final(self).events() == old(self).events().push(event),
            final(self).stats() == old(self).stats(),
    {
        self.game_events.push(event);
    }

    pub fn get_player_stats(&self, player_id: u128) -> (r: Option<&PlayerStats>)
        ensures
            match r {
                Some(s) => self.stats().contains_key(player_id) && *s == self.stats()[player_id],
                None => !self.stats().contains_key(player_id),
            },
    {
        self.player_stats.get(&player_id)
    }

    pub fn generate_report(&self) -> (r: AnalyticsReport)
        ensures
            r == report_of(self.events()),
    {
        let mut report = AnalyticsReport::new();
        let mut i: usize = 0;
        while i < self.game_events.len()
            invariant
                i <= self.game_events.len(),
                report == report_of(self.game_events@.subrange(0, i as int)),
            decreases self.game_events.len() - i,
        {
            proof {
                let next = self.game_events@.subrange(0, i + 1);
                assert(next.drop_last() =~= self.game_events@.subrange(0, i as int));
            }
            report = step_report(report, &self.game_events[i]);
            i = i + 1;
        }
        assert(self.game_events@.subrange(0, i as int) =~= self.game_events@);
        report
    }
}

/// Analytics that buffer events and flush them in batches. A flush folds
/// the buffered events into the cached report and empties the buffer.
pub struct OptimizedAnalytics {
    stats: HashMap<u128, PlayerStats>,
    event_buffer: Vec<GameEvent>,
    report_cache: AnalyticsReport,
}

impl OptimizedAnalytics {
    pub closed spec fn buffered(&self) -> Seq<GameEvent> {
        self.event_buffer@
    }

    pub closed spec fn cached_report(&self) -> AnalyticsReport {
        self.report_cache
    }

    pub fn new() -> (r: OptimizedAnalytics)
        ensures
            r.buffered() == Seq::<GameEvent>::empty(),
            r.cached_report() == empty_report(),
    {
        OptimizedAnalytics {
            stats: HashMap::new(),
            event_buffer: Vec::new(),
            report_cache: AnalyticsReport::new(),
        }
    }

    /// Buffers the event; a buffer that reaches `BUFFER_LIMIT` is flushed.
    pub fn record_event(&mut self, event: GameEvent)
        ensures
            old(self).buffered().len() + 1 >= BUFFER_LIMIT ==> final(self).buffered() == Seq::<
                GameEvent,
            >::empty(),
            old(self).buffered().len() + 1 >= BUFFER_LIMIT ==> final(self).cached_report()
                == report_fold(old(self).cached_report(), old(self).buffered().push(event)),
            old(self).buffered().len() + 1 < BUFFER_LIMIT ==> final(self).buffered() == old(
                self,
            ).buffered().push(event),
            old(self).buffered().len() + 1 < BUFFER_LIMIT ==> final(self).cached_report() == old(
                self,
            ).cached_report(),
    {
        self.event_buffer.push(event);
        if self.event_buffer.len() >= BUFFER_LIMIT {
            self.process_buffer();
        }
    }

    fn process_buffer(&mut self)
        ensures
            final(self).buffered() == Seq::<GameEvent>::empty(),
            final(self).cached_report() == report_fold(old(self).cached_report(), old(self).buffered()),
    {
        let mut report = self.report_cache;
        let mut i: usize = 0;
        while i < self.event_buffer.len()
            invariant
                i <= self.event_buffer.len(),
                report == report_fold(self.report_cache, self.event_buffer@.subrange(0, i as int)),
            decreases self.event_buffer.len() - i,
        {
            proof {
                let next = self.event_buffer@.subrange(0, i + 1);
                assert(next.drop_last() =~= self.event_buffer@.subrange(0, i as int));
            }
            report = step_report(report, &self.event_buffer[i]);
            i = i + 1;
        }
        assert(self.event_buffer@.subrange(0, i as int) =~= self.event_buffer@);
        self.report_cache = report;
        self.event_buffer.clear();
    }

    pub fn get_report(&self) -> (r: AnalyticsReport)
        ensures
            r == self.cached_report(),
    {
        self.report_cache
    }
}

} // verus!
