use guess_engine::ladder::next_attempts_after_win;
use guess_engine::maps::StrMap;
use guess_engine::persist::{
    load_counts, load_timestamps, reload_counts, reload_timestamps, save_counts, save_timestamps,
};

#[test]
fn seen_welcome_ttl_renewal() {
    let key = "123:456".to_string();
    // a fixed "now", and a timestamp older than ttl (120s ago)
    let now: u64 = 1_000_000;
    let old_ts = now.saturating_sub(120);
    let mut m = StrMap::new();
    m.insert(key.clone(), old_ts);
    // save and load
    let snapshot = save_timestamps(&m);
    let loaded = load_timestamps(Some(snapshot.as_str()));
    assert_eq!(loaded.get(&key).unwrap(), old_ts);

    // simulate ttl = 60s -> should be considered expired and renewed
    let ttl = 60u64;
    let mut renewed = loaded;
    if now.saturating_sub(old_ts) > ttl {
        renewed.insert(key.clone(), now);
    }
    let snapshot2 = save_timestamps(&renewed);

    let reloaded = load_timestamps(Some(snapshot2.as_str()));
    let renewed_ts = reloaded.get(&key).unwrap();
    // renewed_ts should be >= now
    assert!(renewed_ts >= now);
}

#[test]
fn simulate_start_quickwin_restart_cycle() {
    let composite = "123:456".to_string();

    // config defaults for the test
    let config_attempts = 10i32;
    let restart_threshold = 3i32;

    // Step 1: no persisted value -> start uses config_attempts
    let loaded = load_counts(None);
    assert!(loaded.get(&composite).is_none());
    let start_attempts = loaded.get(&composite).unwrap_or(config_attempts);
    assert_eq!(start_attempts, config_attempts);

    // Step 2: simulate starting a game and persist the start attempts
    let mut map = loaded;
    map.insert(composite.clone(), start_attempts);
    let snapshot = save_counts(&map);
    let reloaded = load_counts(Some(snapshot.as_str()));
    assert_eq!(reloaded.get(&composite).unwrap(), config_attempts);

    // Step 3: simulate a quick win (used 1 attempt)
    let previous_start = config_attempts;
    let remaining_after_guess = previous_start - 1; // e.g., guessed on first try
    let next = next_attempts_after_win(previous_start, remaining_after_guess, restart_threshold);
    assert_eq!(next, previous_start - 1);
    // persist the new start attempts
    let mut updated = reloaded;
    updated.insert(composite.clone(), next);
    let snapshot2 = save_counts(&updated);

    // Step 4: simulate restart -> load persisted map and check the decrement
    let final_map = load_counts(Some(snapshot2.as_str()));
    assert_eq!(final_map.get(&composite).unwrap(), previous_start - 1);
}

#[test]
fn simulate_consecutive_losses_reset() {
    let composite = "123:456".to_string();

    let config_attempts = 10i32;
    let restart_threshold = 3i32;

    // start with a decremented value (e.g., 9)
    let mut starts = StrMap::new();
    starts.insert(composite.clone(), config_attempts - 1);
    let starts_snapshot = save_counts(&starts);
    let mut misses = StrMap::new();
    misses.insert(composite.clone(), 0);
    let misses_snapshot = save_counts(&misses);

    // simulate three consecutive runs where the user fails to guess
    let mut loaded_starts = load_counts(Some(starts_snapshot.as_str()));
    let mut loaded_misses = load_counts(Some(misses_snapshot.as_str()));
    for _ in 0..restart_threshold {
        // user runs out -> increment miss
        let streak = loaded_misses.get(&composite).unwrap_or(0) + 1;
        loaded_misses.insert(composite.clone(), streak);
        if streak >= restart_threshold {
            loaded_starts.insert(composite.clone(), config_attempts);
            loaded_misses.insert(composite.clone(), 0);
        }
    }
    // persist and reload
    let final_snapshot = save_counts(&loaded_starts);
    let final_starts = load_counts(Some(final_snapshot.as_str()));
    assert_eq!(final_starts.get(&composite).unwrap(), config_attempts);
}

#[test]
fn simulate_two_quick_wins_decrement_twice() {
    let composite = "123:456".to_string();

    let config_attempts = 10i32;
    let restart_threshold = 3i32;

    // Step 1: initial save as full attempts
    let mut map = StrMap::new();
    map.insert(composite.clone(), config_attempts);

    // Simulate first quick win: used 1 attempt -> next should be 9
    let previous = config_attempts;
    let remaining_after_guess = previous - 1;
    let next1 = next_attempts_after_win(previous, remaining_after_guess, restart_threshold);
    assert_eq!(next1, previous - 1);
    map.insert(composite.clone(), next1);

    // Simulate second quick win: used 1 attempt on 9 -> next should be 8
    let previous2 = next1;
    let remaining_after_guess2 = previous2 - 1;
    let next2 = next_attempts_after_win(previous2, remaining_after_guess2, restart_threshold);
    assert_eq!(next2, previous2 - 1);
    map.insert(composite.clone(), next2);
    let snapshot = save_counts(&map);

    // Reload and check the final value is 8
    let final_map = load_counts(Some(snapshot.as_str()));
    assert_eq!(final_map.get(&composite).unwrap(), config_attempts - 2);
}

#[test]
fn saving_then_loading_restores_counter_maps() {
    let mut m = StrMap::new();
    m.insert("1:2".to_string(), 7);
    m.insert("-3:4".to_string(), 10);
    m.insert("5:6".to_string(), -1);
    let r = reload_counts(&m);
    assert_eq!(r.get(&"1:2".to_string()), Some(7));
    assert_eq!(r.get(&"-3:4".to_string()), Some(10));
    assert_eq!(r.get(&"5:6".to_string()), Some(-1));
    assert_eq!(r.get(&"7:8".to_string()), None);
}

#[test]
fn saving_then_loading_restores_timestamp_maps() {
    let mut m = StrMap::new();
    m.insert("123:456".to_string(), 1_700_000_000);
    m.insert("-9:1".to_string(), 0);
    let r = reload_timestamps(&m);
    assert_eq!(r.get(&"123:456".to_string()), Some(1_700_000_000));
    assert_eq!(r.get(&"-9:1".to_string()), Some(0));
    assert_eq!(r.get(&"1:1".to_string()), None);
}

#[test]
fn snapshots_parse_real_json() {
    // a snapshot written by hand parses into the expected entries, so the
    // decoder really reads JSON rather than echoing its input
    let m = load_counts(Some("{\n  \"123:456\": 7\n}"));
    assert_eq!(m.get(&"123:456".to_string()), Some(7));
    let t = load_timestamps(Some("{\"9:9\": 1700000000}"));
    assert_eq!(t.get(&"9:9".to_string()), Some(1_700_000_000));
}

#[test]
fn malformed_snapshots_load_as_empty() {
    let m = load_counts(Some("this is not json"));
    assert!(m.get(&"123:456".to_string()).is_none());
    let t = load_timestamps(Some("{\"x\": -5}"));
    assert!(t.get(&"x".to_string()).is_none());
    let missing = load_counts(None);
    assert!(missing.get(&"123:456".to_string()).is_none());
}
