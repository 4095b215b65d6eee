//! A fixed-window request counter per client.
//!
//! Each client is known by a number (its IP address as an integer). Every
//! request of a client raises its counter; once the counter is above the
//! threshold the request is rejected. Clearing the table starts a new
//! window. A threshold of zero switches the limiter off.

use std::collections::HashMap;
use vstd::prelude::*;

verus! {

broadcast use vstd::std_specs::hash::group_hash_axioms;

/// What the limiter says of one request.
#[derive(Clone, Copy, Debug, PartialEq, Eq, Structural)]
pub enum Admission {
    Admitted,
    Rejected,
}

/// The counter of `client` in `table`: zero where it has no entry.
pub open spec fn count_of(table: Map<u128, u32>, client: u128) -> nat {
    if table.contains_key(client) {
        table[client] as nat
    } else {
        0
    }
}

/// A counter after one more request. It stops at the largest value that it
/// can hold.
pub open spec fn bumped(count: nat) -> nat {
    if count < u32::MAX {
        count + 1
    } else {
        count
    }
}

/// The table after one request of `client`.
pub open spec fn after_request(table: Map<u128, u32>, client: u128, threshold: nat) -> Map<
    u128,
    u32,
> {
    if threshold == 0 {
        table
    } else {
        table.insert(client, bumped(count_of(table, client)) as u32)
    }
}

/// What a request of `client` is answered with when it meets `table`.
pub open spec fn verdict(table: Map<u128, u32>, client: u128, threshold: nat) -> Admission {
    if threshold > 0 && bumped(count_of(table, client)) > threshold {
        Admission::Rejected
    } else {
        Admission::Admitted
    }
}

/// The table after the requests of `trace`, one client each, in order.
pub open spec fn after_trace(table: Map<u128, u32>, trace: Seq<u128>, threshold: nat) -> Map<
    u128,
    u32,
>
    decreases trace.len(),
{
    if trace.len() == 0 {
        table
    } else {
        after_request(after_trace(table, trace.drop_last(), threshold), trace.last(), threshold)
    }
}

/// How many requests of `trace` came from `client`.
pub open spec fn requests_of(trace: Seq<u128>, client: u128) -> nat
    decreases trace.len(),
{
    if trace.len() == 0 {
        0
    } else {
        requests_of(trace.drop_last(), client) + if trace.last() == client {
            1nat
        } else {
            0nat
        }
    }
}

/// With the limiter on, a client's counter holds the number of requests that
/// it made since the table was last cleared, as far as the counter can
/// count.
pub proof fn lemma_counter_counts_window(trace: Seq<u128>, client: u128, threshold: nat)
    requires
        threshold > 0,
    ensures
        count_of(after_trace(Map::empty(), trace, threshold), client) == if requests_of(
            trace,
            client,
        ) < u32::MAX {
            requests_of(trace, client)
        } else {
            u32::MAX as nat
        },
    decreases trace.len(),
{
    if trace.len() > 0 {
        lemma_counter_counts_window(trace.drop_last(), client, threshold);
    }
}

/// In one window a client's requests are admitted up to the threshold and
/// rejected from there on, whatever other clients do in between.
pub proof fn lemma_window_admits_up_to_threshold(trace: Seq<u128>, client: u128, threshold: nat)
    requires
        0 < threshold < u32::MAX,
    ensures
        verdict(after_trace(Map::empty(), trace, threshold), client, threshold) == if requests_of(
            trace,
            client,
        ) < threshold {
            Admission::Admitted
        } else {
            Admission::Rejected
        },
{
    lemma_counter_counts_window(trace, client, threshold);
}

/// The first request of any client in a new window is admitted.
pub proof fn lemma_first_request_admitted(client: u128, threshold: nat)
    ensures
        verdict(Map::empty(), client, threshold) == Admission::Admitted,
{
}

/// A limiter that is switched off admits every request and counts nothing.
pub proof fn lemma_disabled_admits(table: Map<u128, u32>, client: u128)
    ensures
        verdict(table, client, 0) == Admission::Admitted,
        after_request(table, client, 0) == table,
{
}

pub struct RateLimiter {
    threshold: usize,
    table: HashMap<u128, u32>,
}

impl RateLimiter {
    /// The most requests that a client may make in one window; zero for no
    /// limit.
    pub closed spec fn limit(&self) -> nat {
        self.threshold as nat
    }

    /// The counters of the current window.
    pub closed spec fn counts(&self) -> Map<u128, u32> {
        self.table@
    }

    pub fn new(threshold: usize) -> (limiter: RateLimiter)
        ensures
            limiter.limit() == threshold,
            limiter.counts() == Map::<u128, u32>::empty(),
    {
        RateLimiter { threshold, table: HashMap::new() }
    }

    pub fn threshold(&self) -> (threshold: usize)
        ensures
            threshold == self.limit(),
    {
        self.threshold
    }

    /// The counter of `client` in the current window.
    pub fn count(&self, client: u128) -> (count: u32)
        ensures
            count == count_of(self.counts(), client),
    {
        match self.table.get(&client) {
            Some(count) => *count,
            None => 0,
        }
    }

    /// Counts one request of `client` and says whether it is admitted. A
    /// rejected request is counted too.
    pub fn check_and_increment(&mut self, client: u128) -> (admission: Admission)
        ensures
            final(self).limit() == old(self).limit(),
            final(self).counts() == after_request(old(self).counts(), client, old(self).limit()),
            admission == verdict(old(self).counts(), client, old(self).limit()),
    {
        if self.threshold == 0 {
            return Admission::Admitted;
        }
        let current: u32 = self.count(client);
        let next: u32 = if current < u32::MAX {
            current + 1
        } else {
            current
        };
        self.table.insert(client, next);
        if next as u128 > self.threshold as u128 {
            Admission::Rejected
        } else {
            Admission::Admitted
        }
    }

    /// Starts a new window: every counter is forgotten.
    pub fn clear(&mut self)
        ensures
            final(self).limit() == old(self).limit(),
            final(self).counts() == Map::<u128, u32>::empty(),
    {
        self.table.clear();
    }
}

} // verus!
