use guess_engine::config::{Config, ConfigError};
use guess_engine::keys::SessionKey;
use guess_engine::lang::Lang;
use guess_engine::outcome::{Event, Outcome};
use guess_engine::persist::{save_counts, save_timestamps};
use guess_engine::store::AppState;

fn test_config() -> Config {
    Config {
        min: 1,
        max: 100,
        attempts: 10,
        restart_threshold: 3,
        lang: Lang::En,
        ttl_seconds: 60 * 60 * 24,
        bot_owner_id: None,
        reset_user_starts: Vec::new(),
    }
}

fn test_key() -> SessionKey {
    SessionKey {
        chat_id: 123,
        user_id: 456,
    }
}

/// The snapshots of every map of the store, for before/after comparison.
fn snapshots(state: &AppState) -> (String, String, String) {
    (
        save_timestamps(&state.seen_welcome),
        save_counts(&state.user_start_attempts),
        save_counts(&state.user_miss_streaks),
    )
}

#[test]
fn guessing_scenario_with_win_and_streak_reset() {
    // default attempts = 10, threshold = 3, target = 42
    let config = test_config();
    let key = test_key();
    let mut state = AppState::new();

    let game = state.start_session_with_target(key, &config, 42);
    assert_eq!(game.attempts_left, 10);
    assert_eq!(game.start_attempts, 10);

    // Guess 50 -> TooHigh { remaining: 9 }
    let o = state.submit_guess_with_next_target(key, 50, &config, 7);
    assert_eq!(o, Outcome::TooHigh { remaining: 9 });

    // Guess 42 -> Won { next_attempts: 9 }; new session starts with 9
    let o = state.submit_guess_with_next_target(key, 42, &config, 7);
    assert_eq!(
        o,
        Outcome::Won {
            next_attempts: 9,
            threshold: 3
        }
    );
    let new_game = state.by_user.get(key).unwrap();
    assert_eq!(new_game.start_attempts, 9);
    assert_eq!(new_game.attempts_left, 9);
    let composite = "123:456".to_string();
    assert_eq!(state.user_start_attempts.get(&composite), Some(9));
    assert_eq!(state.user_miss_streaks.get(&composite), Some(0));

    // Exhaust three sessions in a row without winning ->
    // user_start_attempts resets to the default 10
    for round in 0..3 {
        let game = state.start_session_with_target(key, &config, 42);
        let budget = game.attempts_left;
        for _ in 0..budget - 1 {
            let o = state.submit_guess_with_next_target(key, 1, &config, 50);
            assert!(matches!(o, Outcome::TooLow { .. }));
        }
        let o = state.submit_guess_with_next_target(key, 1, &config, 50);
        match o {
            Outcome::Exhausted {
                target,
                remaining_before_reset,
            } => {
                assert_eq!(target, 42);
                // streak after this loss is round + 1; the reset fires at 3
                let expected = if round < 2 { 2 - round } else { 0 };
                assert_eq!(remaining_before_reset, expected);
            }
            other => panic!("expected Exhausted, got {:?}", other),
        }
    }
    assert_eq!(state.user_start_attempts.get(&composite), Some(10));
    assert_eq!(state.user_miss_streaks.get(&composite), Some(0));
}

#[test]
fn exhausted_session_absorbs_guesses() {
    let config = test_config();
    let key = test_key();
    let mut state = AppState::new();
    state.start_session_with_target(key, &config, 42);
    // burn all ten attempts without hitting the target
    for _ in 0..10 {
        state.submit_guess_with_next_target(key, 99, &config, 50);
    }
    assert_eq!(state.by_user.get(key).unwrap().attempts_left, 0);
    let before = snapshots(&state);
    // a further guess is absorbed: Exhausted, no mutation, no negative count
    let o = state.submit_guess_with_next_target(key, 99, &config, 50);
    assert!(matches!(o, Outcome::Exhausted { target: 42, .. }));
    assert_eq!(state.by_user.get(key).unwrap().attempts_left, 0);
    let after = snapshots(&state);
    assert_eq!(before, after);
}

#[test]
fn guess_without_session_mutates_nothing() {
    let config = test_config();
    let key = test_key();
    let mut state = AppState::new();
    // give the other maps some content so the comparison is meaningful
    let other = SessionKey {
        chat_id: 1,
        user_id: 2,
    };
    state.start_session_with_target(other, &config, 30);
    state.note_welcome_shown(other, 1_000, &config);

    let before = snapshots(&state);
    let o = state.submit_guess_with_next_target(key, 42, &config, 50);
    assert_eq!(o, Outcome::NoActiveSession);
    let after = snapshots(&state);
    assert_eq!(before, after);
    assert!(state.by_user.get(key).is_none());
    assert!(state.by_user.get(other).is_some());
}

#[test]
fn win_at_streak_two_resets_streak_without_touching_default() {
    let config = test_config();
    let key = test_key();
    let composite = "123:456".to_string();
    let mut state = AppState::new();

    // two losses to exhaustion with a budget of 1 each: streak reaches 2
    state.user_start_attempts.insert(composite.clone(), 1);
    for _ in 0..2 {
        state.start_session_with_target(key, &config, 42);
        state.submit_guess_with_next_target(key, 1, &config, 50);
    }
    assert_eq!(state.user_miss_streaks.get(&composite), Some(2));

    // a win resets the streak to 0; the budget follows the ladder (1 stays
    // at the floor of 1), not the configured default of 10
    state.start_session_with_target(key, &config, 42);
    let o = state.submit_guess_with_next_target(key, 42, &config, 50);
    assert_eq!(
        o,
        Outcome::Won {
            next_attempts: 1,
            threshold: 3
        }
    );
    assert_eq!(state.user_miss_streaks.get(&composite), Some(0));
    assert_eq!(state.user_start_attempts.get(&composite), Some(1));
}

#[test]
fn third_loss_resets_budget_to_default() {
    let config = test_config();
    let key = test_key();
    let composite = "123:456".to_string();
    let mut state = AppState::new();

    state.user_start_attempts.insert(composite.clone(), 1);
    for round in 0..3 {
        state.start_session_with_target(key, &config, 42);
        let o = state.submit_guess_with_next_target(key, 1, &config, 50);
        match o {
            Outcome::Exhausted {
                remaining_before_reset,
                ..
            } => {
                // 2 losses remain after the first, 1 after the second, 0 at reset
                assert_eq!(remaining_before_reset, 2 - round);
            }
            other => panic!("expected Exhausted, got {:?}", other),
        }
    }
    assert_eq!(state.user_start_attempts.get(&composite), Some(10));
    assert_eq!(state.user_miss_streaks.get(&composite), Some(0));
}

#[test]
fn welcome_prompt_respects_ttl() {
    let config = test_config(); // ttl = 86_400 s
    let key = test_key();
    let mut state = AppState::new();

    // never shown: due
    assert!(state.note_welcome_shown(key, 1_000_000, &config));
    // shown just now: suppressed
    assert!(!state.note_welcome_shown(key, 1_000_100, &config));
    // shown within the window: still suppressed
    assert!(!state.note_welcome_shown(key, 1_000_000 + 86_400, &config));
    // window passed: due again
    assert!(state.note_welcome_shown(key, 1_000_000 + 86_401, &config));
    // and stamped afresh
    assert!(!state.note_welcome_shown(key, 1_000_000 + 86_402, &config));
}

#[test]
fn reset_requires_authorization() {
    let key = test_key();
    let composite = "123:456".to_string();

    // nobody configured: not authorized, nothing cleared
    let config = test_config();
    let mut state = AppState::new();
    state.user_start_attempts.insert(composite.clone(), 4);
    let o = state.reset_all_start_attempts(key, &config);
    assert_eq!(o, Outcome::NotAuthorized);
    assert_eq!(state.user_start_attempts.get(&composite), Some(4));

    // the configured owner may clear
    let mut owner_config = test_config();
    owner_config.bot_owner_id = Some(456);
    let o = state.reset_all_start_attempts(key, &owner_config);
    assert_eq!(o, Outcome::StartAttemptsCleared);
    assert_eq!(state.user_start_attempts.get(&composite), None);

    // an allow-listed composite key may clear
    let mut listed_config = test_config();
    listed_config.reset_user_starts = vec!["123:456".to_string()];
    state.user_start_attempts.insert(composite.clone(), 4);
    let o = state.reset_all_start_attempts(key, &listed_config);
    assert_eq!(o, Outcome::StartAttemptsCleared);
    assert_eq!(state.user_start_attempts.get(&composite), None);

    // a different caller stays locked out
    let stranger = SessionKey {
        chat_id: 123,
        user_id: 999,
    };
    state.user_start_attempts.insert(composite.clone(), 4);
    let o = state.reset_all_start_attempts(stranger, &listed_config);
    assert_eq!(o, Outcome::NotAuthorized);
    assert_eq!(state.user_start_attempts.get(&composite), Some(4));
}

#[test]
fn events_dispatch_to_the_store() {
    let config = test_config();
    let key = test_key();
    let mut state = AppState::new();
    let o = state.handle_event(key, Event::Guess(5), &config);
    assert_eq!(o, Outcome::NoActiveSession);
    let o = state.handle_event(key, Event::StartGame, &config);
    assert_eq!(o, Outcome::GameStarted { attempts_left: 10 });
    let o = state.handle_event(key, Event::ResetStarts, &config);
    assert_eq!(o, Outcome::NotAuthorized);
}

#[test]
fn configuration_errors_are_reported() {
    let good = test_config();
    assert!(good.validate().is_ok());

    let mut bad_range = test_config();
    bad_range.min = 100;
    bad_range.max = 100;
    assert_eq!(bad_range.validate(), Err(ConfigError::InvalidRange));

    let mut bad_attempts = test_config();
    bad_attempts.attempts = 0;
    assert_eq!(
        bad_attempts.validate(),
        Err(ConfigError::NonPositiveAttempts)
    );

    let mut bad_threshold = test_config();
    bad_threshold.restart_threshold = -1;
    assert_eq!(
        bad_threshold.validate(),
        Err(ConfigError::NegativeThreshold)
    );
}

#[test]
fn canonical_keys_use_the_composite_form() {
    let key = test_key();
    assert_eq!(key.canonical(), "123:456");
    let negative = SessionKey {
        chat_id: -1001234,
        user_id: 0,
    };
    assert_eq!(negative.canonical(), "-1001234:0");
}

#[test]
fn stored_budget_is_used_for_new_sessions() {
    let config = test_config();
    let key = test_key();
    let composite = "123:456".to_string();
    let mut state = AppState::new();
    state.user_start_attempts.insert(composite.clone(), 6);
    let game = state.start_session_with_target(key, &config, 42);
    assert_eq!(game.attempts_left, 6);
    assert_eq!(game.start_attempts, 6);
    // a stored value that allows no guess falls back to the default
    state.user_start_attempts.insert(composite.clone(), 0);
    let game = state.start_session_with_target(key, &config, 42);
    assert_eq!(game.attempts_left, 10);
}
