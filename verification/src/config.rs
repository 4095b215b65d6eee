//! The settings that the proxy is started with. They never change.

use crate::health::HealthRound;
use crate::rate_limit::RateLimiter;
use crate::upstream::{addresses_of, UpstreamSet};
use vstd::prelude::*;

verus! {

/// Why a set of settings is refused.
#[derive(Clone, Copy, Debug, PartialEq, Eq, Structural)]
pub enum ConfigError {
    /// No upstream was named.
    NoUpstream,
}

/// Seconds between two clearings of the rate limiter's table.
pub const RATE_LIMIT_WINDOW_SECS: u64 = 60;

pub struct ProxyConfig {
    bind: String,
    upstreams: Vec<String>,
    health_check_interval: usize,
    health_check_path: String,
    max_requests_per_minute: usize,
}

impl ProxyConfig {
    #[verifier::type_invariant]
    spec fn well_formed(self) -> bool {
        self.upstreams@.len() > 0
    }

    /// The configured upstream addresses, in the order given.
    pub closed spec fn upstream_list(&self) -> Seq<String> {
        self.upstreams@
    }

    pub closed spec fn bind_address(&self) -> Seq<char> {
        self.bind@
    }

    pub closed spec fn probe_path(&self) -> Seq<char> {
        self.health_check_path@
    }

    pub closed spec fn probe_interval(&self) -> nat {
        self.health_check_interval as nat
    }

    pub closed spec fn rate_limit(&self) -> nat {
        self.max_requests_per_minute as nat
    }

    /// Accepts the settings if and only if at least one upstream is named.
    pub fn new(
        bind: String,
        upstreams: Vec<String>,
        health_check_interval: usize,
        health_check_path: String,
        max_requests_per_minute: usize,
    ) -> (config: Result<ProxyConfig, ConfigError>)
        ensures
            upstreams@.len() == 0 ==> config == Err::<ProxyConfig, ConfigError>(
                ConfigError::NoUpstream,
            ),
            upstreams@.len() > 0 ==> config.is_ok() && config.unwrap().upstream_list() == upstreams@
                && config.unwrap().bind_address() == bind@ && config.unwrap().probe_path()
                == health_check_path@ && config.unwrap().probe_interval() == health_check_interval
                && config.unwrap().rate_limit() == max_requests_per_minute,
    {
        if upstreams.len() == 0 {
            return Err(ConfigError::NoUpstream);
        }
        Ok(
            ProxyConfig {
                bind,
                upstreams,
                health_check_interval,
                health_check_path,
                max_requests_per_minute,
            },
        )
    }

    pub fn bind(&self) -> (bind: &String)
        ensures
            bind@ == self.bind_address(),
    {
        &self.bind
    }

    /// The configured upstreams; there is at least one.
    pub fn upstreams(&self) -> (upstreams: &Vec<String>)
        ensures
            upstreams@ == self.upstream_list(),
            upstreams@.len() > 0,
    {
        proof {
            use_type_invariant(self);
        }
        &self.upstreams
    }

    pub fn health_check_interval(&self) -> (seconds: usize)
        ensures
            seconds == self.probe_interval(),
    {
        self.health_check_interval
    }

    pub fn health_check_path(&self) -> (path: &String)
        ensures
            path@ == self.probe_path(),
    {
        &self.health_check_path
    }

    pub fn max_requests_per_minute(&self) -> (threshold: usize)
        ensures
            threshold == self.rate_limit(),
    {
        self.max_requests_per_minute
    }

    /// The set that the proxy starts with: every configured upstream.
    pub fn initial_upstreams(&self) -> (set: UpstreamSet)
        ensures
            set@ == addresses_of(self.upstream_list()),
            set.configured() == addresses_of(self.upstream_list()),
    {
        UpstreamSet::from_addresses(&self.upstreams)
    }

    /// A health round over every configured upstream, alive or not.
    pub fn begin_round(&self) -> (round: HealthRound)
        ensures
            round.targets() == self.upstream_list(),
            round.outcomes() == Seq::<crate::health::ProbeOutcome>::empty(),
    {
        HealthRound::begin(&self.upstreams)
    }

    /// A rate limiter with the configured threshold and an empty table.
    pub fn new_limiter(&self) -> (limiter: RateLimiter)
        ensures
            limiter.limit() == self.rate_limit(),
            limiter.counts() == Map::<u128, u32>::empty(),
    {
        RateLimiter::new(self.max_requests_per_minute)
    }
}

} // verus!
