use globed_game_server::data::PlayerData;
use globed_game_server::managers::PlayerManager;

#[test]
fn fresh_registry_reports_nothing() {
    let manager = PlayerManager::new();
    assert_eq!(manager.get_player_count_on_level(7).unwrap_or(0), 0);
    assert!(manager.get_player_data(42).is_none());
}

#[test]
fn add_then_count_then_iterate_then_remove() {
    let mut manager = PlayerManager::new();
    manager.add_to_level(5, 42);
    assert_eq!(manager.get_player_count_on_level(5), Some(1));

    // Iterating the level visits the one member exactly once.
    let (visited, seen) = manager.for_each_player_on_level(
        5,
        |a, _d, mut s: Vec<i32>| {
            s.push(a);
            (true, s)
        },
        Vec::new(),
    );
    assert_eq!(visited, 1);
    assert_eq!(seen, vec![42]);

    manager.remove_from_level(5, 42);
    assert_eq!(manager.get_player_count_on_level(5), Some(0));
    let (visited2, seen2) = manager.for_each_player_on_level(
        5,
        |a, _d, mut s: Vec<i32>| {
            s.push(a);
            (true, s)
        },
        Vec::new(),
    );
    assert_eq!(visited2, 0);
    assert!(seen2.is_empty());
}

#[test]
fn adding_twice_is_idempotent() {
    let mut manager = PlayerManager::new();
    manager.add_to_level(3, 7);
    manager.add_to_level(3, 7);
    assert_eq!(manager.get_player_count_on_level(3), Some(1));
}

#[test]
fn removing_a_non_member_is_a_no_op() {
    let mut manager = PlayerManager::new();
    manager.add_to_level(3, 7);
    manager.remove_from_level(3, 8);
    manager.remove_from_level(4, 7);
    assert_eq!(manager.get_player_count_on_level(3), Some(1));
}

#[test]
fn levels_are_isolated_from_each_other() {
    let mut manager = PlayerManager::new();
    manager.add_to_level(1, 10);
    manager.add_to_level(2, 20);
    manager.add_to_level(2, 21);
    assert_eq!(manager.get_player_count_on_level(1), Some(1));
    assert_eq!(manager.get_player_count_on_level(2), Some(2));

    manager.add_to_level(1, 11);
    assert_eq!(manager.get_player_count_on_level(2), Some(2));
    manager.remove_from_level(1, 10);
    assert_eq!(manager.get_player_count_on_level(2), Some(2));
    manager.remove_from_level(1, 11);
    manager.remove_player(10);
    manager.remove_player(11);
    assert_eq!(manager.get_player_count_on_level(2), Some(2));
    assert_eq!(manager.get_player_count_on_level(1), Some(0));
}

#[test]
fn set_player_data_creates_and_overwrites_without_membership() {
    let mut manager = PlayerManager::new();
    manager.set_player_data(99, &PlayerData { percentage: 10, attempts: 1 });
    assert_eq!(manager.get_player_count_on_level(0).unwrap_or(0), 0);
    let d = manager.get_player_data(99).unwrap();
    assert_eq!(d.percentage, 10);
    manager.set_player_data(99, &PlayerData { percentage: 55, attempts: 2 });
    let d2 = manager.get_player_data(99).unwrap();
    assert_eq!(d2.percentage, 55);
    assert_eq!(d2.attempts, 2);
}

#[test]
fn visitor_can_stop_early() {
    let mut manager = PlayerManager::new();
    for a in 0..5 {
        manager.add_to_level(1, a);
    }
    let (visited, count) = manager.for_each_player_on_level(
        1,
        |_a, _d, s: u64| (s + 1 < 2, s + 1),
        0u64,
    );
    assert_eq!(visited, 2);
    assert_eq!(count, 2);
}

#[test]
fn hundred_levels_ten_players_each() {
    let mut manager = PlayerManager::new();

    for level_id in 0..100 {
        for account_id in 0..10 {
            manager.add_to_level(level_id, level_id * 10 + account_id);
            manager.set_player_data(
                level_id * 10 + account_id,
                &PlayerData { percentage: 0, attempts: 0 },
            );
        }
    }

    let mut total_players: u64 = 0;
    for i in 0..100 {
        let count = manager.get_player_count_on_level(i).unwrap_or(0);
        assert_eq!(count, 10);

        let (total, new_state) = manager.for_each_player_on_level(
            i,
            |_a, _d, s: u64| (true, s + 1),
            total_players,
        );
        total_players = new_state;

        assert_eq!(total, count);
    }

    assert_eq!(total_players, 1000);

    for level_id in 0..100 {
        for account_id in 0..10 {
            manager.remove_from_level(level_id, level_id * 10 + account_id);
            manager.remove_player(level_id * 10 + account_id);
        }
    }
    for i in 0..100 {
        assert_eq!(manager.get_player_count_on_level(i), Some(0));
        assert!(manager.get_player_data(i * 10).is_none());
    }
}
