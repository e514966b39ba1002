use guess_engine::keys::SessionKey;
use guess_engine::lang::{lang_tag, parse_lang, Lang};
use guess_engine::rng::rand_in_range;
use guess_engine::store::{effective_lang_from_parts, AppState};

#[test]
fn detects_language_from_message_language_code() {
    let state = AppState::new();
    let detected = effective_lang_from_parts(&state, Some("it"), Some(200), 100, Lang::En);
    assert_eq!(detected, Lang::It);
}

#[test]
fn detects_language_from_message_language_code_prefix() {
    let state = AppState::new();
    // simulate a locale-style language_code like "en-US"; the code should accept the prefix
    let detected = effective_lang_from_parts(&state, Some("en-US"), Some(300), 101, Lang::It);
    assert_eq!(detected, Lang::En);
}

#[test]
fn integration_test_lang_and_rand() {
    // test parse_lang
    assert_eq!(parse_lang("en"), Some(Lang::En));
    assert_eq!(parse_lang("it"), Some(Lang::It));
    assert_eq!(parse_lang("xx"), None);

    // test rand_in_range bounds
    for _ in 0..1_000 {
        let v = rand_in_range(-5, 5);
        assert!(v >= -5 && v <= 5);
    }

    // test updating AppState user_langs directly
    let mut state = AppState::new();
    state.set_user_language(
        SessionKey {
            chat_id: 1,
            user_id: 1,
        },
        Lang::En,
    );
    assert_eq!(
        state.user_langs.get(SessionKey {
            chat_id: 1,
            user_id: 1,
        }),
        Some(Lang::En)
    );
}

#[test]
fn stored_preferences_beat_language_code() {
    let mut state = AppState::new();
    let key = SessionKey {
        chat_id: 100,
        user_id: 200,
    };
    state.set_chat_language(100, Lang::Ru);
    // chat preference wins over the language code
    assert_eq!(
        effective_lang_from_parts(&state, Some("it"), Some(200), 100, Lang::En),
        Lang::Ru
    );
    state.set_user_language(key, Lang::Zh);
    // user preference wins over everything
    assert_eq!(
        effective_lang_from_parts(&state, Some("it"), Some(200), 100, Lang::En),
        Lang::Zh
    );
    // an unknown code falls back to the default
    assert_eq!(
        effective_lang_from_parts(&state, Some("xq-XQ"), Some(999), 999, Lang::En),
        Lang::En
    );
    // no code at all falls back to the default
    assert_eq!(
        effective_lang_from_parts(&state, None, None, 999, Lang::It),
        Lang::It
    );
}

#[test]
fn tags_round_trip_through_parse() {
    for lang in [Lang::En, Lang::It, Lang::Ar, Lang::Ru, Lang::Zh] {
        let tag = lang_tag(&lang);
        assert_eq!(parse_lang(tag), Some(lang));
    }
    assert_eq!(parse_lang("EN"), Some(Lang::En));
    assert_eq!(parse_lang("It"), Some(Lang::It));
    assert_eq!(parse_lang(""), None);
    assert_eq!(parse_lang("eng"), None);
}
