use maze_world::ai::{step_agent, AIBehavior, AISystem, Agent};
use maze_world::analytics::{AnalyticsReport, GameAnalytics, GameEvent, OptimizedAnalytics, BUFFER_LIMIT};
use maze_world::geom::Position;
use maze_world::grid::ByteGrid;
use maze_world::leaderboard::{Achievement, Leaderboard, ScoreEntry};
use maze_world::wfc::WaveFunctionCollapse;

fn p(x: i32, y: i32) -> Position {
    Position { x, y }
}

#[test]
fn patrol_wraps_around() {
    let a = Agent { id: 1, position: p(0, 0), behavior: AIBehavior::Patrol { waypoints: vec![p(1, 1), p(2, 2)], current: 0 } };
    let a = step_agent(a, &vec![]);
    assert_eq!(a.position, p(2, 2));
    let a = step_agent(a, &vec![]);
    assert_eq!(a.position, p(1, 1));
    assert_eq!(a.behavior, AIBehavior::Patrol { waypoints: vec![p(1, 1), p(2, 2)], current: 0 });
}

#[test]
fn guard_starts_chasing_target_in_range() {
    let g = Agent { id: 1, position: p(0, 0), behavior: AIBehavior::Guard { position: p(0, 0), range: 3 } };
    let far = step_agent(g.clone(), &vec![(9, p(4, 0))]);
    assert_eq!(far.behavior, AIBehavior::Guard { position: p(0, 0), range: 3 });
    let near = step_agent(g, &vec![(9, p(4, 0)), (8, p(-3, 3))]);
    assert_eq!(near.behavior, AIBehavior::Chase { target: Some(8) });
}

#[test]
fn chase_steps_toward_target_or_goes_idle() {
    let c = Agent { id: 1, position: p(0, 0), behavior: AIBehavior::Chase { target: Some(5) } };
    let moved = step_agent(c.clone(), &vec![(5, p(3, -2))]);
    assert_eq!(moved.position, p(1, -1));
    let lost = step_agent(c, &vec![(6, p(3, -2))]);
    assert_eq!(lost.behavior, AIBehavior::Chase { target: None });
    assert_eq!(lost.position, p(0, 0));
}

#[test]
fn tick_advances_every_agent_from_snapshot() {
    let mut ai = AISystem::new();
    ai.set_behavior(1, AIBehavior::Guard { position: p(10, 10), range: 1 });
    ai.set_behavior(2, AIBehavior::Chase { target: Some(77) });
    ai.set_behavior(3, AIBehavior::Patrol { waypoints: vec![p(0, 1), p(0, 2), p(0, 3)], current: 0 });
    ai.tick(&vec![(77, p(2, 2)), (78, p(11, 9))]);
    assert_eq!(ai.behavior_of(1), Some(AIBehavior::Chase { target: Some(78) }));
    assert_eq!(ai.behavior_of(3), Some(AIBehavior::Patrol { waypoints: vec![p(0, 1), p(0, 2), p(0, 3)], current: 1 }));
    ai.set_behavior(2, AIBehavior::Chase { target: None });
    assert_eq!(ai.behavior_of(2), Some(AIBehavior::Chase { target: None }));
    assert_eq!(ai.behavior_of(4), None);
}

#[test]
fn wfc_keeps_border_and_uses_patterns() {
    let mut wfc = WaveFunctionCollapse::new(7);
    let noise: Vec<i32> = (0..256).map(|i| if i % 3 == 0 { 500 } else { -200 }).collect();
    let grid = wfc.generate_chunk(&noise);
    for i in 0..256usize {
        let (x, y) = (i % 16, i / 16);
        let base = if noise[i] > 300 { 1 } else { 0 };
        if x == 0 || y == 0 || x == 15 || y == 15 {
            assert_eq!(grid.get(y, x), base);
        } else {
            assert_eq!(grid.get(y, x), 1);
        }
    }
}

#[test]
fn wfc_is_reproducible_for_a_seed() {
    let noise: Vec<i32> = (0..256).map(|i| (i * 97 % 2001) - 1000).collect();
    let a = WaveFunctionCollapse::new(3).generate_chunk(&noise);
    let b = WaveFunctionCollapse::new(3).generate_chunk(&noise);
    for y in 0..16 {
        for x in 0..16 {
            assert_eq!(a.get(y, x), b.get(y, x));
        }
    }
}

#[test]
fn wfc_pattern_fitting() {
    let wfc = WaveFunctionCollapse::new(1);
    let zeros = ByteGrid::from_rows(3, 3, vec![0; 9]);
    assert_eq!(wfc.get_possible_patterns(&zeros).len(), 2);
    let ones = ByteGrid::from_rows(3, 3, vec![1; 9]);
    assert_eq!(wfc.get_possible_patterns(&ones).len(), 3);
    let grid = ByteGrid::from_rows(16, 16, (0..=255).collect());
    let n = wfc.get_neighborhood(&grid, 1, 1);
    let cells: Vec<u8> = (0..9).map(|i| n.get(i / 3, i % 3)).collect();
    assert_eq!(cells, vec![0, 1, 2, 16, 17, 18, 32, 33, 34]);
    let edge = ByteGrid::from_rows(2, 2, vec![0, 1, 1, 1]);
    assert!(wfc.pattern_fits(&edge, &zeros));
    assert!(wfc.pattern_fits(&edge, &ones));
    let open = ByteGrid::from_rows(2, 2, vec![1, 1, 1, 1]);
    assert!(!wfc.pattern_fits(&open, &zeros));
}

fn entry(id: u128, score: u32) -> ScoreEntry {
    ScoreEntry { player_id: id, player_name: format!("p{}", id), score, timestamp: 0, game_mode: "classic".to_string() }
}

#[test]
fn top_scores_highest_first() {
    let mut lb = Leaderboard::new();
    lb.add_score(entry(1, 50));
    lb.add_score(entry(2, 90));
    lb.add_score(entry(3, 50));
    lb.add_score(entry(4, 10));
    let top: Vec<u128> = lb.get_top_scores(3).iter().map(|e| e.player_id).collect();
    assert_eq!(top, vec![2, 1, 3]);
    assert_eq!(lb.get_top_scores(10).len(), 4);
    assert!(lb.get_top_scores(0).is_empty());
}

#[test]
fn achievements_accumulate() {
    let mut lb = Leaderboard::new();
    lb.unlock_achievement(1, Achievement::FirstGame);
    lb.unlock_achievement(1, Achievement::SpeedRun { time: 30 });
    assert_eq!(lb.get_achievements(1), vec![Achievement::FirstGame, Achievement::SpeedRun { time: 30 }]);
    assert!(lb.get_achievements(2).is_empty());
}

#[test]
fn report_folds_events() {
    let mut a = GameAnalytics::new();
    a.record_event(GameEvent::GameStart { player_id: 1, timestamp: 5 });
    a.record_event(GameEvent::GameEnd { player_id: 1, score: 300, duration: 1000 });
    a.record_event(GameEvent::GameStart { player_id: 2, timestamp: 6 });
    a.record_event(GameEvent::GameEnd { player_id: 2, score: 200, duration: 500 });
    a.record_event(GameEvent::AchievementUnlocked { player_id: 2, achievement: "x".to_string() });
    a.record_event(GameEvent::PlayerAction { player_id: 2, action: "jump".to_string(), timestamp: 7 });
    let r = a.generate_report();
    assert_eq!(
        r,
        AnalyticsReport { total_games: 2, total_play_time: 1500, highest_score: 300, total_achievements: 1, active_players: 0 }
    );
    assert!(a.get_player_stats(1).is_none());
}

#[test]
fn buffered_analytics_flush() {
    let mut a = OptimizedAnalytics::new();
    for i in 0..BUFFER_LIMIT {
        a.record_event(GameEvent::GameStart { player_id: i as u128, timestamp: 0 });
    }
    let report = a.get_report();
    assert_eq!(report.total_games, BUFFER_LIMIT as u32);
    assert_eq!(report.total_achievements, 0);
}

#[test]
fn buffered_analytics_wait_for_a_full_buffer() {
    let mut a = OptimizedAnalytics::new();
    a.record_event(GameEvent::GameEnd { player_id: 1, score: 40, duration: 5 });
    assert_eq!(a.get_report(), AnalyticsReport::new());
}
