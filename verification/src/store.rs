//! The session store: single source of truth for all mutable per-user
//! state, with the transactional update rules that keep the live games and
//! the adaptive maps consistent.
//!
//! Every operation is specified as a transition predicate relating the
//! store before and after the call, so the whole lifecycle
//! (absent, active, won, exhausted) is pinned down exactly. The caller is
//! expected to hold exclusive access to the store for the duration of one
//! operation, including the follow-on persistence write.

use vstd::prelude::*;

verus! {

use crate::config::{Config, spec_may_reset};
use crate::game::GameState;
use crate::keys::SessionKey;
use crate::ladder::{next_attempts_after_win, next_budget};
use crate::lang::{Lang, parse_lang, parse_lang_spec};
use crate::maps::{ChatMap, PairMap, StrMap};
use crate::outcome::{Event, Outcome};
use crate::rng::rand_in_range;

/// Shared application state: the live games and the adaptive maps.
pub struct AppState {
    /// Active game per (chat, user). A key is present exactly while that
    /// user has a game; removal from the map is the terminal state.
    pub by_user: PairMap<GameState>,
    /// Per-user language preference; in memory only, reset on restart.
    pub user_langs: PairMap<Lang>,
    /// Per-chat language preference; in memory only, reset on restart.
    pub chat_langs: ChatMap<Lang>,
    /// When a first-contact prompt was last shown, by canonical key;
    /// persisted.
    pub seen_welcome: StrMap<u64>,
    /// Next session's starting budget, by canonical key; persisted.
    pub user_start_attempts: StrMap<i32>,
    /// Consecutive losses to exhaustion, by canonical key; persisted.
    pub user_miss_streaks: StrMap<i32>,
}

/// The starting budget for a new session: the persisted one when present
/// and positive, otherwise the configured default.
pub open spec fn start_budget_of(starts: Map<Seq<char>, i32>, c: Seq<char>, default: i32) -> i32 {
    if starts.contains_key(c) && starts[c] >= 1 {
        starts[c]
    } else {
        default
    }
}

/// The current loss streak of a user: the stored count when present and
/// non-negative, otherwise zero.
pub open spec fn streak_of(misses: Map<Seq<char>, i32>, c: Seq<char>) -> i32 {
    if misses.contains_key(c) && misses[c] >= 0 {
        misses[c]
    } else {
        0
    }
}

/// One more consecutive loss, held at the counter's ceiling.
pub open spec fn bumped_streak(prev: i32) -> i32 {
    if prev >= i32::MAX {
        i32::MAX
    } else {
        (prev + 1) as i32
    }
}

/// How many further losses remain until the starting budget is reset.
pub open spec fn remaining_before_reset(threshold: i32, streak: i32) -> i32 {
    if streak >= threshold {
        0
    } else {
        (threshold - streak) as i32
    }
}

/// What installing a fresh session does to the store: the game map and the
/// persisted budget are updated, everything else is untouched.
pub open spec fn start_transition(
    pre: AppState,
    post: AppState,
    key: SessionKey,
    target: i32,
    config: Config,
    g: GameState,
) -> bool {
    let c = key.composite();
    let budget = start_budget_of(pre.user_start_attempts@, c, config.attempts);
    &&& g == (GameState { target, attempts_left: budget, start_attempts: budget })
    &&& post.by_user@ == pre.by_user@.insert(key, g)
    &&& post.user_start_attempts@ == pre.user_start_attempts@.insert(c, budget)
    &&& post.user_miss_streaks == pre.user_miss_streaks
    &&& post.seen_welcome == pre.seen_welcome
    &&& post.user_langs == pre.user_langs
    &&& post.chat_langs == pre.chat_langs
}

/// What one guess does to the store, given the target a replacement
/// session would receive. Every case of the session lifecycle is listed:
/// no session, already exhausted, win, losing the last attempt, and an
/// ordinary miss.
pub open spec fn guess_transition(
    pre: AppState,
    post: AppState,
    key: SessionKey,
    guess: i32,
    new_target: i32,
    config: Config,
    o: Outcome,
) -> bool {
    let c = key.composite();
    let games = pre.by_user@;
    &&& post.user_langs == pre.user_langs
    &&& post.chat_langs == pre.chat_langs
    &&& post.seen_welcome == pre.seen_welcome
    &&& if !games.contains_key(key) {
        &&& o == Outcome::NoActiveSession
        &&& post.by_user == pre.by_user
        &&& post.user_start_attempts == pre.user_start_attempts
        &&& post.user_miss_streaks == pre.user_miss_streaks
    } else {
        let g = games[key];
        if g.attempts_left == 0 {
            // Guard against a negative countdown: a spent session absorbs
            // further guesses without any mutation.
            &&& o == (Outcome::Exhausted {
                target: g.target,
                remaining_before_reset: remaining_before_reset(
                    config.restart_threshold,
                    streak_of(pre.user_miss_streaks@, c),
                ),
            })
            &&& post.by_user == pre.by_user
            &&& post.user_start_attempts == pre.user_start_attempts
            &&& post.user_miss_streaks == pre.user_miss_streaks
        } else if guess == g.target {
            // A win replaces the session wholesale with a tightened budget
            // and resets the loss streak.
            let nb = next_budget(g.start_attempts as int) as i32;
            &&& o == (Outcome::Won { next_attempts: nb, threshold: config.restart_threshold })
            &&& post.by_user@ == games.insert(
                key,
                (GameState { target: new_target, attempts_left: nb, start_attempts: nb }),
            )
            &&& post.user_start_attempts@ == pre.user_start_attempts@.insert(c, nb)
            &&& post.user_miss_streaks@ == pre.user_miss_streaks@.insert(c, 0)
        } else if g.attempts_left == 1 {
            // The losing guess consumed the last attempt: the spent session
            // stays in place and the loss streak grows, resetting the
            // budget to the default once it reaches the threshold.
            let s1 = bumped_streak(streak_of(pre.user_miss_streaks@, c));
            &&& o == (Outcome::Exhausted {
                target: g.target,
                remaining_before_reset: remaining_before_reset(config.restart_threshold, s1),
            })
            &&& post.by_user@ == games.insert(key, (GameState { attempts_left: 0, ..g }))
            &&& if s1 >= config.restart_threshold {
                &&& post.user_start_attempts@ == pre.user_start_attempts@.insert(
                    c,
                    config.attempts,
                )
                &&& post.user_miss_streaks@ == pre.user_miss_streaks@.insert(c, 0)
            } else {
                &&& post.user_start_attempts == pre.user_start_attempts
                &&& post.user_miss_streaks@ == pre.user_miss_streaks@.insert(c, s1)
            }
        } else {
            // An ordinary miss: only the countdown moves.
            let rem = (g.attempts_left - 1) as i32;
            &&& o == (if guess < g.target {
                Outcome::TooLow { remaining: rem }
            } else {
                Outcome::TooHigh { remaining: rem }
            })
            &&& post.by_user@ == games.insert(key, (GameState { attempts_left: rem, ..g }))
            &&& post.user_start_attempts == pre.user_start_attempts
            &&& post.user_miss_streaks == pre.user_miss_streaks
        }
    }
}

/// Whether a first-contact prompt is due: never shown, or shown longer ago
/// than the suppression window.
pub open spec fn welcome_due(seen: Map<Seq<char>, u64>, c: Seq<char>, now: u64, ttl: u64) -> bool {
    let ts = if seen.contains_key(c) {
        seen[c]
    } else {
        0
    };
    ts == 0 || (if now >= ts {
        now - ts
    } else {
        0
    }) > ttl
}

impl AppState {
    /// All maps well-formed and every stored game valid.
    pub open spec fn wf(&self) -> bool {
        &&& self.by_user.wf()
        &&& self.user_langs.wf()
        &&& self.chat_langs.wf()
        &&& self.seen_welcome.wf()
        &&& self.user_start_attempts.wf()
        &&& self.user_miss_streaks.wf()
        &&& forall|k: SessionKey|
            self.by_user@.contains_key(k) ==> (#[trigger] self.by_user@[k]).wf()
    }

    /// A store with nothing in it.
    pub fn new() -> (s: AppState)
        ensures
            s.wf(),
            s.by_user@ == Map::<SessionKey, GameState>::empty(),
            s.user_langs@ == Map::<SessionKey, Lang>::empty(),
            s.chat_langs@ == Map::<i64, Lang>::empty(),
            s.seen_welcome@ == Map::<Seq<char>, u64>::empty(),
            s.user_start_attempts@ == Map::<Seq<char>, i32>::empty(),
            s.user_miss_streaks@ == Map::<Seq<char>, i32>::empty(),
    {
        AppState {
            by_user: PairMap::new(),
            user_langs: PairMap::new(),
            chat_langs: ChatMap::new(),
            seen_welcome: StrMap::new(),
            user_start_attempts: StrMap::new(),
            user_miss_streaks: StrMap::new(),
        }
    }

    /// A store seeded with the three maps loaded from their persisted
    /// snapshots at process start.
    pub fn with_persisted(
        seen_welcome: StrMap<u64>,
        user_start_attempts: StrMap<i32>,
        user_miss_streaks: StrMap<i32>,
    ) -> (s: AppState)
        requires
            seen_welcome.wf(),
            user_start_attempts.wf(),
            user_miss_streaks.wf(),
        ensures
            s.wf(),
            s.by_user@ == Map::<SessionKey, GameState>::empty(),
            s.user_langs@ == Map::<SessionKey, Lang>::empty(),
            s.chat_langs@ == Map::<i64, Lang>::empty(),
            s.seen_welcome == seen_welcome,
            s.user_start_attempts == user_start_attempts,
            s.user_miss_streaks == user_miss_streaks,
    {
        AppState {
            by_user: PairMap::new(),
            user_langs: PairMap::new(),
            chat_langs: ChatMap::new(),
            seen_welcome,
            user_start_attempts,
            user_miss_streaks,
        }
    }

    /// Install a fresh session with the given target. The budget comes
    /// from the persisted per-user value, or from the configured default;
    /// either way it is written back so future restarts see it. Any
    /// existing session for the key is overwritten unconditionally.
    pub fn start_session_with_target(
        &mut self,
        key: SessionKey,
        config: &Config,
        target: i32,
    ) -> (g: GameState)
        requires
            old(self).wf(),
            config.wf(),
            config.min <= target <= config.max,
        ensures
            final(self).wf(),
            start_transition(*old(self), *final(self), key, target, *config, g),
    {
        let composite = key.canonical();
        let start_attempts = match self.user_start_attempts.get(&composite) {
            Some(v) => if v >= 1 {
                v
            } else {
                config.attempts
            },
            None => config.attempts,
        };
        let g = GameState { target, attempts_left: start_attempts, start_attempts };
        self.by_user.insert(key, g);
        self.user_start_attempts.insert(composite, start_attempts);
        proof {
            assert forall|k2: SessionKey| self.by_user@.contains_key(k2) implies (
            #[trigger] self.by_user@[k2]).wf() by {
                if k2 != key {
                    assert(old(self).by_user@.contains_key(k2));
                }
            }
        }
        g
    }

    /// Install a fresh session with a target drawn uniformly from the
    /// configured range.
    pub fn start_session(&mut self, key: SessionKey, config: &Config) -> (g: GameState)
        requires
            old(self).wf(),
            config.wf(),
        ensures
            final(self).wf(),
            config.min <= g.target <= config.max,
            start_transition(*old(self), *final(self), key, g.target, *config, g),
    {
        let target = rand_in_range(config.min, config.max);
        self.start_session_with_target(key, config, target)
    }

    /// Whether a first-contact prompt should be shown now; if so, the
    /// current time is stamped so the prompt is suppressed for the
    /// configured window.
    pub fn note_welcome_shown(&mut self, key: SessionKey, now: u64, config: &Config) -> (shown:
        bool)
        requires
            old(self).wf(),
        ensures
            final(self).wf(),
            shown == welcome_due(old(self).seen_welcome@, key.composite(), now, config.ttl_seconds),
            shown ==> final(self).seen_welcome@ == old(self).seen_welcome@.insert(
                key.composite(),
                now,
            ),
            !shown ==> final(self).seen_welcome == old(self).seen_welcome,
            final(self).by_user == old(self).by_user,
            final(self).user_langs == old(self).user_langs,
            final(self).chat_langs == old(self).chat_langs,
            final(self).user_start_attempts == old(self).user_start_attempts,
            final(self).user_miss_streaks == old(self).user_miss_streaks,
    {
        let composite = key.canonical();
        let seen_ts = match self.seen_welcome.get(&composite) {
            Some(ts) => ts,
            None => 0,
        };
        let elapsed = if now >= seen_ts {
            now - seen_ts
        } else {
            0
        };
        if seen_ts == 0 || elapsed > config.ttl_seconds {
            self.seen_welcome.insert(composite, now);
            true
        } else {
            false
        }
    }

    /// Record a user's language preference; in memory only.
    pub fn set_user_language(&mut self, key: SessionKey, lang: Lang)
        requires
            old(self).wf(),
        ensures
            final(self).wf(),
            final(self).user_langs@ == old(self).user_langs@.insert(key, lang),
            final(self).by_user == old(self).by_user,
            final(self).chat_langs == old(self).chat_langs,
            final(self).seen_welcome == old(self).seen_welcome,
            final(self).user_start_attempts == old(self).user_start_attempts,
            final(self).user_miss_streaks == old(self).user_miss_streaks,
    {
        self.user_langs.insert(key, lang);
    }

    /// Record a chat-wide language preference; in memory only.
    pub fn set_chat_language(&mut self, chat_id: i64, lang: Lang)
        requires
            old(self).wf(),
        ensures
            final(self).wf(),
            final(self).chat_langs@ == old(self).chat_langs@.insert(chat_id, lang),
            final(self).by_user == old(self).by_user,
            final(self).user_langs == old(self).user_langs,
            final(self).seen_welcome == old(self).seen_welcome,
            final(self).user_start_attempts == old(self).user_start_attempts,
            final(self).user_miss_streaks == old(self).user_miss_streaks,
    {
        self.chat_langs.insert(chat_id, lang);
    }

    /// Apply one guess against the caller's session, handing in the target
    /// a replacement session would receive on a win. Deterministic: every
    /// field of the outcome and of the new store follows from the
    /// arguments.
    pub fn submit_guess_with_next_target(
        &mut self,
        key: SessionKey,
        guess: i32,
        config: &Config,
        next_target: i32,
    ) -> (o: Outcome)
        requires
            old(self).wf(),
            config.wf(),
            config.min <= next_target <= config.max,
        ensures
            final(self).wf(),
            guess_transition(*old(self), *final(self), key, guess, next_target, *config, o),
    {
        let game = match self.by_user.get(key) {
            None => {
                return Outcome::NoActiveSession;
            },
            Some(g) => g,
        };
        let composite = key.canonical();
        if game.attempts_left == 0 {
            let streak = match self.user_miss_streaks.get(&composite) {
                Some(v) => if v >= 0 {
                    v
                } else {
                    0
                },
                None => 0,
            };
            let remaining = if streak >= config.restart_threshold {
                0
            } else {
                config.restart_threshold - streak
            };
            return Outcome::Exhausted { target: game.target, remaining_before_reset: remaining };
        }
        let attempts_left = game.attempts_left - 1;
        if guess == game.target {
            let next_attempts = next_attempts_after_win(
                game.start_attempts,
                attempts_left,
                config.restart_threshold,
            );
            let new_game = GameState {
                target: next_target,
                attempts_left: next_attempts,
                start_attempts: next_attempts,
            };
            self.by_user.insert(key, new_game);
            self.user_miss_streaks.insert(composite.clone(), 0);
            self.user_start_attempts.insert(composite, next_attempts);
            proof {
                assert forall|k2: SessionKey| self.by_user@.contains_key(k2) implies (
                #[trigger] self.by_user@[k2]).wf() by {
                    if k2 != key {
                        assert(old(self).by_user@.contains_key(k2));
                    }
                }
            }
            Outcome::Won { next_attempts, threshold: config.restart_threshold }
        } else if attempts_left == 0 {
            let prev_streak = match self.user_miss_streaks.get(&composite) {
                Some(v) => if v >= 0 {
                    v
                } else {
                    0
                },
                None => 0,
            };
            let streak = if prev_streak == i32::MAX {
                i32::MAX
            } else {
                prev_streak + 1
            };
            let remaining: i32;
            if streak >= config.restart_threshold {
                self.user_start_attempts.insert(composite.clone(), config.attempts);
                self.user_miss_streaks.insert(composite, 0);
                remaining = 0;
            } else {
                self.user_miss_streaks.insert(composite, streak);
                remaining = config.restart_threshold - streak;
            }
            self.by_user.insert(key, GameState { attempts_left: 0, ..game });
            proof {
                assert forall|k2: SessionKey| self.by_user@.contains_key(k2) implies (
                #[trigger] self.by_user@[k2]).wf() by {
                    if k2 != key {
                        assert(old(self).by_user@.contains_key(k2));
                    }
                }
            }
            Outcome::Exhausted { target: game.target, remaining_before_reset: remaining }
        } else {
            self.by_user.insert(key, GameState { attempts_left, ..game });
            proof {
                assert forall|k2: SessionKey| self.by_user@.contains_key(k2) implies (
                #[trigger] self.by_user@[k2]).wf() by {
                    if k2 != key {
                        assert(old(self).by_user@.contains_key(k2));
                    }
                }
            }
            if guess < game.target {
                Outcome::TooLow { remaining: attempts_left }
            } else {
                Outcome::TooHigh { remaining: attempts_left }
            }
        }
    }

    /// Apply one guess against the caller's session. On a win the
    /// replacement session's target is drawn uniformly from the configured
    /// range; everything else is deterministic, as the transition
    /// predicate states.
    pub fn submit_guess(&mut self, key: SessionKey, guess: i32, config: &Config) -> (o: Outcome)
        requires
            old(self).wf(),
            config.wf(),
        ensures
            final(self).wf(),
            exists|t: i32|
                #![trigger guess_transition(*old(self), *final(self), key, guess, t, *config, o)]
                config.min <= t <= config.max && guess_transition(
                    *old(self),
                    *final(self),
                    key,
                    guess,
                    t,
                    *config,
                    o,
                ),
    {
        let next_target = rand_in_range(config.min, config.max);
        let o = self.submit_guess_with_next_target(key, guess, config, next_target);
        proof {
            assert(guess_transition(
                *old(self),
                *self,
                key,
                guess,
                next_target,
                *config,
                o,
            ));
        }
        o
    }

    /// Clear every persisted starting budget, if the caller is allowed to.
    /// Unauthorized callers get `NotAuthorized` and no mutation occurs.
    pub fn reset_all_start_attempts(&mut self, key: SessionKey, config: &Config) -> (o: Outcome)
        requires
            old(self).wf(),
        ensures
            final(self).wf(),
            spec_may_reset(*config, key) ==> o == Outcome::StartAttemptsCleared
                && final(self).user_start_attempts@ == Map::<Seq<char>, i32>::empty(),
            !spec_may_reset(*config, key) ==> o == Outcome::NotAuthorized
                && final(self).user_start_attempts == old(self).user_start_attempts,
            final(self).by_user == old(self).by_user,
            final(self).user_langs == old(self).user_langs,
            final(self).chat_langs == old(self).chat_langs,
            final(self).seen_welcome == old(self).seen_welcome,
            final(self).user_miss_streaks == old(self).user_miss_streaks,
    {
        if !config.may_reset(key) {
            return Outcome::NotAuthorized;
        }
        self.user_start_attempts.clear();
        Outcome::StartAttemptsCleared
    }

    /// Interpret one parsed game event against the store: the dispatch
    /// step between the transport and the operations above.
    pub fn handle_event(&mut self, key: SessionKey, event: Event, config: &Config) -> (o: Outcome)
        requires
            old(self).wf(),
            config.wf(),
        ensures
            final(self).wf(),
            match event {
                Event::StartGame => exists|g: GameState|
                    #![trigger start_transition(*old(self), *final(self), key, g.target, *config, g)]
                    {
                        &&& config.min <= g.target <= config.max
                        &&& start_transition(*old(self), *final(self), key, g.target, *config, g)
                        &&& o == (Outcome::GameStarted { attempts_left: g.attempts_left })
                    },
                Event::Guess(v) => exists|t: i32|
                    #![trigger guess_transition(*old(self), *final(self), key, v, t, *config, o)]
                    config.min <= t <= config.max && guess_transition(
                        *old(self),
                        *final(self),
                        key,
                        v,
                        t,
                        *config,
                        o,
                    ),
                Event::ResetStarts => {
                    &&& spec_may_reset(*config, key) ==> o == Outcome::StartAttemptsCleared
                        && final(self).user_start_attempts@ == Map::<Seq<char>, i32>::empty()
                    &&& !spec_may_reset(*config, key) ==> o == Outcome::NotAuthorized
                        && final(self).user_start_attempts == old(self).user_start_attempts
                    &&& final(self).by_user == old(self).by_user
                    &&& final(self).user_langs == old(self).user_langs
                    &&& final(self).chat_langs == old(self).chat_langs
                    &&& final(self).seen_welcome == old(self).seen_welcome
                    &&& final(self).user_miss_streaks == old(self).user_miss_streaks
                },
            },
    {
        match event {
            Event::StartGame => {
                let g = self.start_session(key, config);
                proof {
                    assert(start_transition(*old(self), *self, key, g.target, *config, g));
                }
                Outcome::GameStarted { attempts_left: g.attempts_left }
            },
            Event::Guess(v) => self.submit_guess(key, v, config),
            Event::ResetStarts => self.reset_all_start_attempts(key, config),
        }
    }
}

/// A language parsed from a transport language code: the whole code if it
/// is a known tag, else its first two characters, else the default.
pub open spec fn lang_from_code(code: Seq<char>, default: Lang) -> Lang {
    match parse_lang_spec(code) {
        Some(l) => l,
        None => if code.len() >= 2 {
            match parse_lang_spec(code.subrange(0, 2)) {
                Some(l) => l,
                None => default,
            }
        } else {
            default
        },
    }
}

/// The language to use for one message: the user's stored preference,
/// else the chat's, else one parsed from the transport's language code,
/// else the default.
pub open spec fn effective_lang_spec(
    user_langs: Map<SessionKey, Lang>,
    chat_langs: Map<i64, Lang>,
    code: Option<Seq<char>>,
    user_id: Option<u64>,
    chat_id: i64,
    default: Lang,
) -> Lang {
    let by_user = match user_id {
        Some(uid) => if user_langs.contains_key((SessionKey { chat_id, user_id: uid })) {
            Some(user_langs[(SessionKey { chat_id, user_id: uid })])
        } else {
            None
        },
        None => None,
    };
    match by_user {
        Some(l) => l,
        None => if chat_langs.contains_key(chat_id) {
            chat_langs[chat_id]
        } else {
            match code {
                Some(cs) => lang_from_code(cs, default),
                None => default,
            }
        },
    }
}

/// Determine the effective language for a message from its parts: the
/// sender, the chat, and the language code the transport reported.
pub fn effective_lang_from_parts(
    state: &AppState,
    user_language_code: Option<&str>,
    user_id: Option<u64>,
    chat_id: i64,
    default: Lang,
) -> (l: Lang)
    requires
        state.wf(),
    ensures
        l == effective_lang_spec(
            state.user_langs@,
            state.chat_langs@,
            match user_language_code {
                Some(code) => Some(code@),
                None => None::<Seq<char>>,
            },
            user_id,
            chat_id,
            default,
        ),
{
    if let Some(uid) = user_id {
        let key = SessionKey { chat_id, user_id: uid };
        if let Some(l) = state.user_langs.get(key) {
            return l;
        }
    }
    if let Some(l) = state.chat_langs.get(chat_id) {
        return l;
    }
    if let Some(code) = user_language_code {
        if let Some(l) = parse_lang(code) {
            return l;
        }
        if code.unicode_len() >= 2 {
            let prefix = code.substring_char(0, 2);
            if let Some(l) = parse_lang(prefix) {
                return l;
            }
        }
    }
    default
}

/// Law: a guess for a key with no session answers `NoActiveSession` and
/// performs no mutation: every map of the store is unchanged.
pub proof fn lemma_guess_without_session_mutates_nothing(
    pre: AppState,
    post: AppState,
    key: SessionKey,
    guess: i32,
    new_target: i32,
    config: Config,
    o: Outcome,
)
    requires
        guess_transition(pre, post, key, guess, new_target, config, o),
        !pre.by_user@.contains_key(key),
    ensures
        o == Outcome::NoActiveSession,
        post.by_user@ == pre.by_user@,
        post.user_start_attempts@ == pre.user_start_attempts@,
        post.user_miss_streaks@ == pre.user_miss_streaks@,
        post.seen_welcome@ == pre.seen_welcome@,
        post.user_langs@ == pre.user_langs@,
        post.chat_langs@ == pre.chat_langs@,
{
}

/// Law: a session that is already out of attempts absorbs a further guess:
/// the outcome is `Exhausted`, nothing mutates, and the countdown stays at
/// zero instead of going negative.
pub proof fn lemma_guess_when_exhausted_is_noop(
    pre: AppState,
    post: AppState,
    key: SessionKey,
    guess: i32,
    new_target: i32,
    config: Config,
    o: Outcome,
)
    requires
        guess_transition(pre, post, key, guess, new_target, config, o),
        pre.by_user@.contains_key(key),
        pre.by_user@[key].attempts_left == 0,
    ensures
        o == (Outcome::Exhausted {
            target: pre.by_user@[key].target,
            remaining_before_reset: remaining_before_reset(
                config.restart_threshold,
                streak_of(pre.user_miss_streaks@, key.composite()),
            ),
        }),
        post.by_user@ == pre.by_user@,
        post.user_start_attempts@ == pre.user_start_attempts@,
        post.user_miss_streaks@ == pre.user_miss_streaks@,
        post.by_user@[key].attempts_left == 0,
{
}

/// Law: when the loss that exhausts a session brings the streak up to the
/// configured threshold, the user's starting budget is reset to the
/// configured default (not the ladder's floor) and the streak to zero.
pub proof fn lemma_streak_reaching_threshold_resets_budget(
    pre: AppState,
    post: AppState,
    key: SessionKey,
    guess: i32,
    new_target: i32,
    config: Config,
    o: Outcome,
)
    requires
        guess_transition(pre, post, key, guess, new_target, config, o),
        pre.by_user@.contains_key(key),
        pre.by_user@[key].attempts_left == 1,
        guess != pre.by_user@[key].target,
        bumped_streak(streak_of(pre.user_miss_streaks@, key.composite()))
            >= config.restart_threshold,
    ensures
        post.user_start_attempts@ == pre.user_start_attempts@.insert(
            key.composite(),
            config.attempts,
        ),
        post.user_miss_streaks@ == pre.user_miss_streaks@.insert(key.composite(), 0),
{
}

/// Law: a win resets the loss streak to zero and touches the starting
/// budget only through the difficulty ladder, never the configured
/// default.
pub proof fn lemma_win_resets_streak_only(
    pre: AppState,
    post: AppState,
    key: SessionKey,
    guess: i32,
    new_target: i32,
    config: Config,
    o: Outcome,
)
    requires
        guess_transition(pre, post, key, guess, new_target, config, o),
        pre.by_user@.contains_key(key),
        pre.by_user@[key].attempts_left >= 1,
        guess == pre.by_user@[key].target,
    ensures
        post.user_miss_streaks@ == pre.user_miss_streaks@.insert(key.composite(), 0),
        post.user_start_attempts@ == pre.user_start_attempts@.insert(
            key.composite(),
            next_budget(pre.by_user@[key].start_attempts as int) as i32,
        ),
        o == (Outcome::Won {
            next_attempts: next_budget(pre.by_user@[key].start_attempts as int) as i32,
            threshold: config.restart_threshold,
        }),
{
}

} // verus!
