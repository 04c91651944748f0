//! Configuration and accounting for the market-data layer: cache limits,
//! hit statistics, and expiry on integer timestamps. The fetching itself,
//! and the concurrent cache runtime that holds fetched data, live with
//! the market-data collaborator outside this library; only their
//! decisions (limits, freshness, accounting) are modeled here.

use vstd::prelude::*;

verus! {

/// Limits for the in-memory market-data cache.
#[derive(Debug, Clone, Copy, PartialEq, Eq, Structural)]
pub struct CacheConfig {
    /// How long a quote stays fresh, in seconds.
    pub quote_ttl_seconds: u64,
    /// How long a historical series stays fresh, in seconds.
    pub historical_ttl_seconds: u64,
    /// Largest number of cached entries.
    pub max_entries: usize,
    /// Whether caching is on at all.
    pub enabled: bool,
}

impl Default for CacheConfig {
    /// One second for quotes, five minutes for history, a thousand
    /// entries, caching on.
    fn default() -> (r: CacheConfig)
        ensures
            r.quote_ttl_seconds == 1,
            r.historical_ttl_seconds == 300,
            r.max_entries == 1000,
            r.enabled,
    {
        CacheConfig {
            quote_ttl_seconds: 1,
            historical_ttl_seconds: 300,
            max_entries: 1000,
            enabled: true,
        }
    }
}

/// True exactly when an entry written to expire at `expires_at` is stale
/// at `now` (both in seconds since the Unix epoch).
pub open spec fn spec_cache_expired(now: int, expires_at: int) -> bool {
    now > expires_at
}

/// Whether a cache entry has expired.
pub fn cache_entry_expired(now: u64, expires_at: u64) -> (r: bool)
    ensures
        r == spec_cache_expired(now as int, expires_at as int),
{
    now > expires_at
}

/// Hit-and-miss counters for the market-data cache.
#[derive(Debug, Clone, Copy, PartialEq, Eq, Structural)]
pub struct CacheStats {
    pub quote_hits: u64,
    pub quote_misses: u64,
    pub historical_hits: u64,
    pub historical_misses: u64,
    pub evictions: u64,
}

impl Default for CacheStats {
    /// All counters at zero.
    fn default() -> (r: CacheStats)
        ensures
            r.quote_hits == 0,
            r.quote_misses == 0,
            r.historical_hits == 0,
            r.historical_misses == 0,
            r.evictions == 0,
    {
        CacheStats {
            quote_hits: 0,
            quote_misses: 0,
            historical_hits: 0,
            historical_misses: 0,
            evictions: 0,
        }
    }
}

impl CacheStats {
    /// The quote hit rate in basis points; zero before any lookup.
    pub fn quote_hit_rate_bps(&self) -> (r: u32)
        requires
            self.quote_hits + self.quote_misses <= u64::MAX,
        ensures
            r == (if self.quote_hits + self.quote_misses == 0 {
                0int
            } else {
                self.quote_hits * 10000 / (self.quote_hits + self.quote_misses)
            }),
    {
        let total = self.quote_hits + self.quote_misses;
        if total == 0 {
            return 0;
        }
        proof {
            crate::math::lemma_ratio_bps_bounded(self.quote_hits as int, total as int);
        }
        ((self.quote_hits as u128 * 10000) / (total as u128)) as u32
    }

    /// The historical hit rate in basis points; zero before any lookup.
    pub fn historical_hit_rate_bps(&self) -> (r: u32)
        requires
            self.historical_hits + self.historical_misses <= u64::MAX,
        ensures
            r == (if self.historical_hits + self.historical_misses == 0 {
                0int
            } else {
                self.historical_hits * 10000 / (self.historical_hits + self.historical_misses)
            }),
    {
        let total = self.historical_hits + self.historical_misses;
        if total == 0 {
            return 0;
        }
        proof {
            crate::math::lemma_ratio_bps_bounded(self.historical_hits as int, total as int);
        }
        ((self.historical_hits as u128 * 10000) / (total as u128)) as u32
    }
}

/// Limits for a market-data provider.
#[derive(Debug, Clone, Copy, PartialEq, Eq, Structural)]
pub struct DataProviderConfig {
    /// How long fetched data stays cached, in seconds.
    pub cache_ttl_seconds: u64,
    /// How often a failed fetch is retried.
    pub retry_attempts: u32,
    /// How long one fetch may take, in seconds.
    pub timeout_seconds: u64,
}

impl Default for DataProviderConfig {
    /// A minute of caching, three retries, ten-second timeout.
    fn default() -> (r: DataProviderConfig)
        ensures
            r.cache_ttl_seconds == 60,
            r.retry_attempts == 3,
            r.timeout_seconds == 10,
    {
        DataProviderConfig { cache_ttl_seconds: 60, retry_attempts: 3, timeout_seconds: 10 }
    }
}

} // verus!
