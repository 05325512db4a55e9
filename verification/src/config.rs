//! The settings the service starts with.

use vstd::prelude::*;
use crate::ingest::CYCLE_PERIOD_SECS;
use crate::storage::CACHE_TTL_SECS;

verus! {

/// Address of the cache where none is given.
pub const DEFAULT_REDIS_URL: &'static str = "redis://127.0.0.1/";

/// Address of the upstream feed where none is given.
pub const DEFAULT_RPC_URL: &'static str = "https://api.devnet.solana.com";

/// Why the service cannot start.
#[derive(Clone, Copy, Debug, PartialEq, Eq, Structural)]
pub enum ConfigError {
    /// The address of the data store is not set.
    MissingDatabaseUrl,
}

/// What the service runs with.
#[derive(Debug)]
pub struct Settings {
    /// Address of the data store that keeps the history.
    pub database_url: String,
    /// Address of the cache.
    pub redis_url: String,
    /// Address of the upstream feed.
    pub rpc_url: String,
    /// Seconds between two ingestion cycles.
    pub period_secs: u64,
    /// Seconds a cache entry lives.
    pub cache_ttl_secs: u64,
}

/// Settings as mathematics.
pub struct SettingsView {
    pub database_url: Seq<char>,
    pub redis_url: Seq<char>,
    pub rpc_url: Seq<char>,
    pub period_secs: int,
    pub cache_ttl_secs: int,
}

impl View for Settings {
    type V = SettingsView;

    open spec fn view(&self) -> SettingsView {
        SettingsView {
            database_url: self.database_url@,
            redis_url: self.redis_url@,
            rpc_url: self.rpc_url@,
            period_secs: self.period_secs as int,
            cache_ttl_secs: self.cache_ttl_secs as int,
        }
    }
}

/// A text that was given, or the one that stands in for it.
pub open spec fn text_or(given: Option<String>, fallback: Seq<char>) -> Seq<char> {
    match given {
        Some(text) => text@,
        None => fallback,
    }
}

/// A number that was given, or the one that stands in for it.
pub open spec fn number_or(given: Option<u64>, fallback: u64) -> int {
    match given {
        Some(n) => n as int,
        None => fallback as int,
    }
}

impl Settings {
    /// The settings for what the surroundings supply. The address of the
    /// data store must be there; everything else has a default.
    pub fn resolve(
        database_url: Option<String>,
        redis_url: Option<String>,
        rpc_url: Option<String>,
        period_secs: Option<u64>,
        cache_ttl_secs: Option<u64>,
    ) -> (r: Result<Settings, ConfigError>)
        ensures
            match database_url {
                None => r matches Err(e) && e == ConfigError::MissingDatabaseUrl,
                Some(url) => r matches Ok(s) && s@ == (SettingsView {
                    database_url: url@,
                    redis_url: text_or(redis_url, DEFAULT_REDIS_URL@),
                    rpc_url: text_or(rpc_url, DEFAULT_RPC_URL@),
                    period_secs: number_or(period_secs, CYCLE_PERIOD_SECS),
                    cache_ttl_secs: number_or(cache_ttl_secs, CACHE_TTL_SECS),
                }),
            },
    {
        match database_url {
            None => Err(ConfigError::MissingDatabaseUrl),
            Some(url) => Ok(
                Settings {
                    database_url: url,
                    redis_url: match redis_url {
                        Some(text) => text,
                        None => String::from_str(DEFAULT_REDIS_URL),
                    },
                    rpc_url: match rpc_url {
                        Some(text) => text,
                        None => String::from_str(DEFAULT_RPC_URL),
                    },
                    period_secs: match period_secs {
                        Some(n) => n,
                        None => CYCLE_PERIOD_SECS,
                    },
                    cache_ttl_secs: match cache_ttl_secs {
                        Some(n) => n,
                        None => CACHE_TTL_SECS,
                    },
                },
            ),
        }
    }
}

} // verus!
