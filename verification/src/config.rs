//! Runtime configuration of the game engine, and its startup validation.

use vstd::prelude::*;

verus! {

use crate::keys::SessionKey;
use crate::lang::Lang;

/// Configuration of the game engine. Message templates and transport
/// settings live with the transport, outside the engine.
#[derive(Clone, Debug)]
pub struct Config {
    /// Smallest value the secret target may take.
    pub min: i32,
    /// Largest value the secret target may take.
    pub max: i32,
    /// Default starting attempts budget for users without a persisted one.
    pub attempts: i32,
    /// Consecutive losses to exhaustion after which a user's starting
    /// budget is reset to the default.
    pub restart_threshold: i32,
    /// Default language when neither user nor chat chose one.
    pub lang: Lang,
    /// How long a welcome prompt suppresses the next one, in seconds.
    pub ttl_seconds: u64,
    /// Identity allowed to clear the persisted starting budgets.
    pub bot_owner_id: Option<u64>,
    /// Canonical `"chat_id:user_id"` strings also allowed to clear them.
    pub reset_user_starts: Vec<String>,
}

/// A configuration the process must refuse to run with.
#[derive(Clone, Copy, Debug, PartialEq, Eq, Structural)]
pub enum ConfigError {
    /// The minimum of the target range is not below its maximum.
    InvalidRange,
    /// The default attempts budget allows no guess at all.
    NonPositiveAttempts,
    /// The loss-streak threshold is negative.
    NegativeThreshold,
}

/// Whether the allow-list holds the given canonical key.
pub open spec fn allow_list_contains(list: Seq<String>, c: Seq<char>) -> bool {
    exists|i: int| 0 <= i < list.len() && list[i]@ == c
}

/// Whether this caller may clear the persisted starting budgets: either
/// the configured owner, or a key on the allow-list.
pub open spec fn spec_may_reset(config: Config, key: SessionKey) -> bool {
    config.bot_owner_id == Some(key.user_id) || allow_list_contains(
        config.reset_user_starts@,
        key.composite(),
    )
}

impl Config {
    /// A configuration the engine's operations accept.
    pub open spec fn wf(&self) -> bool {
        &&& self.min < self.max
        &&& self.attempts >= 1
        &&& self.restart_threshold >= 0
    }

    /// Startup validation. A configuration error is fatal: the caller must
    /// refuse to run rather than continue with a broken setup.
    pub fn validate(&self) -> (r: Result<(), ConfigError>)
        ensures
            r is Ok <==> self.wf(),
            self.min >= self.max ==> r == Err::<(), ConfigError>(ConfigError::InvalidRange),
            self.min < self.max && self.attempts <= 0 ==> r == Err::<(), ConfigError>(
                ConfigError::NonPositiveAttempts,
            ),
            self.min < self.max && self.attempts >= 1 && self.restart_threshold < 0 ==> r
                == Err::<(), ConfigError>(ConfigError::NegativeThreshold),
    {
        if self.min >= self.max {
            Err(ConfigError::InvalidRange)
        } else if self.attempts <= 0 {
            Err(ConfigError::NonPositiveAttempts)
        } else if self.restart_threshold < 0 {
            Err(ConfigError::NegativeThreshold)
        } else {
            Ok(())
        }
    }

    /// The single authorization check of the engine: who may clear the
    /// persisted starting budgets.
    pub fn may_reset(&self, key: SessionKey) -> (r: bool)
        ensures
            r == spec_may_reset(*self, key),
    {
        let is_owner = match self.bot_owner_id {
            Some(owner) => owner == key.user_id,
            None => false,
        };
        if is_owner {
            return true;
        }
        let composite = key.canonical();
        let n = self.reset_user_starts.len();
        let mut i: usize = 0;
        while i < n
            invariant
                n == self.reset_user_starts.len(),
                i <= n,
                composite@ == key.composite(),
                forall|t: int| 0 <= t < i ==> self.reset_user_starts@[t]@ != key.composite(),
            decreases n - i,
        {
            if self.reset_user_starts[i] == composite {
                return true;
            }
            i += 1;
        }
        false
    }
}

} // verus!
