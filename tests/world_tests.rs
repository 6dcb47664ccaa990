use maze_world::economy::{EconomyError, EconomySystem, MarketItem};
use maze_world::gate::ConnectionGate;
use maze_world::geom::Position;
use maze_world::players::{GameEvent, Item, MultiplayerServer, MAX_HEALTH};
use maze_world::quests::{AssignedQuest, Quest, QuestSystem};
use maze_world::terrain::{generate_chunk, CellSample, CHUNK_CELLS, CHUNK_SIZE};

fn market_item(id: u32, price: u32) -> MarketItem {
    MarketItem { id, name: format!("item{}", id), price, quantity: 1 }
}

#[test]
fn end_to_end_scenario() {
    let samples: Vec<CellSample> = (0..CHUNK_CELLS as u32)
        .map(|i| CellSample { height: (i * 42) % 1001, moisture: (i * 7) % 1001, temperature: 500, feature: (i * 13) % 1001 })
        .collect();
    let first = generate_chunk(&samples, 920, (6, 1));
    let second = generate_chunk(&samples, 920, (6, 1));
    for y in 0..CHUNK_SIZE {
        for x in 0..CHUNK_SIZE {
            assert_eq!(first.cell(y, x), second.cell(y, x));
        }
    }

    let (tx, mut rx) = tokio::sync::mpsc::unbounded_channel();
    let mut server = MultiplayerServer::new(tx);
    let alice = server.add_player("alice".to_string());
    assert_eq!(alice.position, Position { x: 0, y: 0 });
    assert_eq!(alice.health, MAX_HEALTH);
    assert!(alice.inventory.is_empty());
    server.move_player(alice.id, Position { x: 5, y: 5 });
    let here = server.get_players_in_chunk(alice.chunk);
    assert_eq!(here.len(), 1);
    assert_eq!(here[0].id, alice.id);
    assert_eq!(here[0].position, Position { x: 5, y: 5 });
    server.remove_player(alice.id);
    assert!(server.get_players_in_chunk(alice.chunk).is_empty());
    assert!(matches!(rx.try_recv(), Ok(GameEvent::PlayerJoined(_))));
    assert!(matches!(rx.try_recv(), Ok(GameEvent::PlayerMoved { .. })));
    assert!(matches!(rx.try_recv(), Ok(GameEvent::PlayerLeft(_))));

    let bob_id: u128 = 7;
    let mut economy = EconomySystem::new();
    economy.add_market_item(market_item(1, 100));
    economy.add_currency(bob_id, 100);
    assert_eq!(economy.buy_item(bob_id, 1), Ok(()));
    assert_eq!(economy.balance(bob_id), 0);
    assert_eq!(economy.buy_item(bob_id, 1), Err(EconomyError::InsufficientFunds));
}

#[test]
fn players_in_other_chunks_are_not_listed() {
    let (tx, _rx) = tokio::sync::mpsc::unbounded_channel();
    let mut server = MultiplayerServer::new(tx);
    let a = server.add_player("a".to_string());
    let b = server.add_player("b".to_string());
    assert_ne!(a.id, b.id);
    assert_eq!(server.get_players_in_chunk(Position { x: 0, y: 0 }).len(), 2);
    assert!(server.get_players_in_chunk(Position { x: 1, y: 0 }).is_empty());
}

#[test]
fn unknown_players_are_ignored() {
    let (tx, _rx) = tokio::sync::mpsc::unbounded_channel();
    let mut server = MultiplayerServer::new(tx);
    let a = server.add_player("a".to_string());
    server.move_player(a.id.wrapping_add(1), Position { x: 9, y: 9 });
    server.interact(a.id.wrapping_add(1), Item::Key { id: 1 });
    server.remove_player(a.id.wrapping_add(1));
    let p = server.player(a.id).unwrap();
    assert_eq!(p.position, Position { x: 0, y: 0 });
    assert!(p.inventory.is_empty());
}

#[test]
fn interact_appends_to_inventory() {
    let (tx, mut rx) = tokio::sync::mpsc::unbounded_channel();
    let mut server = MultiplayerServer::new(tx);
    let a = server.add_player("a".to_string());
    server.interact(a.id, Item::Potion { health: 5 });
    server.interact(a.id, Item::Treasure { value: 9 });
    server.send_chat(a.id, "hi".to_string());
    assert_eq!(server.player(a.id).unwrap().inventory, vec![Item::Potion { health: 5 }, Item::Treasure { value: 9 }]);
    let mut n = 0;
    while rx.try_recv().is_ok() {
        n += 1;
    }
    assert_eq!(n, 4);
}

#[test]
fn events_are_dropped_without_a_receiver() {
    let (tx, rx) = tokio::sync::mpsc::unbounded_channel();
    drop(rx);
    let mut server = MultiplayerServer::new(tx);
    let a = server.add_player("a".to_string());
    server.remove_player(a.id);
    assert!(server.player(a.id).is_none());
}

#[test]
fn buying_errors() {
    let mut economy = EconomySystem::new();
    assert_eq!(economy.buy_item(1, 9), Err(EconomyError::ItemNotFound));
    economy.add_market_item(market_item(9, 50));
    assert_eq!(economy.buy_item(1, 9), Err(EconomyError::InsufficientFunds));
    economy.add_currency(1, 70);
    assert_eq!(economy.buy_item(1, 9), Ok(()));
    assert_eq!(economy.balance(1), 20);
    assert_eq!(economy.buy_item(1, 9), Err(EconomyError::InsufficientFunds));
    assert_eq!(economy.balance(1), 20);
}

#[test]
fn currency_saturates() {
    let mut economy = EconomySystem::new();
    economy.add_currency(3, u32::MAX - 1);
    economy.add_currency(3, 10);
    assert_eq!(economy.balance(3), u32::MAX);
    assert_eq!(economy.balance(4), 0);
}

#[test]
fn free_item_for_unknown_player() {
    let mut economy = EconomySystem::new();
    economy.add_market_item(market_item(2, 0));
    assert_eq!(economy.buy_item(11, 2), Ok(()));
    assert_eq!(economy.balance(11), 0);
}

#[test]
fn quest_lifecycle() {
    let mut quests = QuestSystem::new();
    let q = Quest::DefeatMonsters { monster_id: 3, count: 2 };
    quests.assign_quest(1, 10, q);
    assert_eq!(quests.active_quest(1), Some(AssignedQuest { id: 10, quest: q }));
    quests.complete_quest(1, 10);
    assert_eq!(quests.active_quest(1), None);
    assert_eq!(quests.completed_quests(1), vec![AssignedQuest { id: 10, quest: q }]);
}

#[test]
fn completing_unassigned_quest_is_noop() {
    let mut quests = QuestSystem::new();
    quests.complete_quest(5, 1);
    assert!(quests.completed_quests(5).is_empty());
    assert_eq!(quests.active_quest(5), None);
    let q = Quest::CollectItems { item_id: 1, quantity: 2 };
    quests.assign_quest(5, 7, q);
    quests.complete_quest(5, 8);
    assert!(quests.completed_quests(5).is_empty());
    assert_eq!(quests.active_quest(5), Some(AssignedQuest { id: 7, quest: q }));
    quests.complete_quest(6, 7);
    assert!(quests.completed_quests(6).is_empty());
}

#[test]
fn assign_overwrites_active_quest() {
    let mut quests = QuestSystem::new();
    quests.assign_quest(1, 1, Quest::CollectItems { item_id: 1, quantity: 2 });
    let second = Quest::ExploreArea { chunk_x: 1, chunk_y: -1, radius: 3 };
    quests.assign_quest(1, 2, second);
    quests.complete_quest(1, 1);
    assert!(quests.completed_quests(1).is_empty());
    quests.complete_quest(1, 2);
    assert_eq!(quests.completed_quests(1), vec![AssignedQuest { id: 2, quest: second }]);
}

#[test]
fn gate_bounds_live_connections() {
    let mut gate = ConnectionGate::new(2);
    assert!(gate.try_acquire());
    assert!(gate.try_acquire());
    assert!(!gate.try_acquire());
    assert_eq!(gate.live_connections(), 2);
    gate.release();
    assert_eq!(gate.live_connections(), 1);
    assert!(gate.try_acquire());
    assert!(!gate.try_acquire());
    assert_eq!(gate.max_connections(), 2);
}

#[test]
fn positions_list_every_player() {
    let (tx, _rx) = tokio::sync::mpsc::unbounded_channel();
    let mut server = MultiplayerServer::new(tx);
    let a = server.add_player("a".to_string());
    let b = server.add_player("b".to_string());
    server.move_player(b.id, Position { x: -4, y: 2 });
    let mut got = server.positions();
    got.sort_by_key(|t| t.0);
    let mut want = vec![(a.id, Position { x: 0, y: 0 }), (b.id, Position { x: -4, y: 2 })];
    want.sort_by_key(|t| t.0);
    assert_eq!(got, want);
}

#[test]
fn removing_an_unknown_player_announces_nothing() {
    let (tx, mut rx) = tokio::sync::mpsc::unbounded_channel();
    let mut server = MultiplayerServer::new(tx);
    server.remove_player(12345);
    assert!(rx.try_recv().is_err());
}
