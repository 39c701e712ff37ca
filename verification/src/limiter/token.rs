//! Concurrency tokens.

use vstd::prelude::*;

verus! {

/// A concurrency token, required to run a job.
///
/// Release the token back to the limiter it was acquired from after the job
/// is complete. The token carries the job's latency, set by the embedder
/// (production paths measure it with a monotonic clock and record it with
/// [`Token::set_latency`] just before release).
///
/// A token only returns its permit through a `release` call (with `None` as
/// the outcome for a job to be ignored); a token merely dropped strands its
/// permit and its in-flight count.
#[derive(Debug)]
pub struct Token {
    latency_ns: u64,
    partition: Option<usize>,
}

impl Token {
    /// The latency that will be reported when the token is released.
    pub closed spec fn latency_spec(&self) -> u64 {
        self.latency_ns
    }

    /// The partition the token was issued against, if any.
    pub closed spec fn partition_spec(&self) -> Option<usize> {
        self.partition
    }

    pub(crate) fn new() -> (t: Token)
        ensures
            t.latency_spec() == 0,
            t.partition_spec() is None,
    {
        Token { latency_ns: 0, partition: None }
    }

    /// Tie the token to a partition: its release must return to the same
    /// partition's gate.
    pub(crate) fn for_partition(self, index: usize) -> (t: Token)
        ensures
            t.latency_spec() == self.latency_spec(),
            t.partition_spec() == Some(index),
    {
        Token { partition: Some(index), ..self }
    }

    /// Record the job's latency, to be reported on release.
    pub fn set_latency(&mut self, latency_ns: u64)
        ensures
            final(self).latency_spec() == latency_ns,
            final(self).partition_spec() == old(self).partition_spec(),
    {
        self.latency_ns = latency_ns;
    }

    /// The recorded latency.
    pub fn latency(&self) -> (r: u64)
        ensures
            r == self.latency_spec(),
    {
        self.latency_ns
    }

    /// The partition index the token was issued against, if any.
    pub fn partition(&self) -> (r: Option<usize>)
        ensures
            r == self.partition_spec(),
    {
        self.partition
    }
}

} // verus!
