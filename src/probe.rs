//! The outcome of one timed connection attempt.

use vstd::prelude::*;

verus! {

/// What a single probe observed: the handshake completed after a latency,
/// or the attempt failed for a described cause.
#[derive(Clone, Debug, PartialEq, Eq)]
pub enum ProbeOutcome {
    /// The handshake completed; the latency in nanoseconds.
    Reply(u64),
    /// The attempt failed (refused, timed out, unreachable, ...).
    Failure(String),
}

/// The number of nanoseconds in a second.
pub const NANOS_PER_SEC: u64 = 1_000_000_000;

/// An elapsed time of `secs` seconds and `subsec_nanos` nanoseconds, in
/// nanoseconds, as a mathematical integer.
pub open spec fn elapsed_ns(secs: u64, subsec_nanos: u32) -> int {
    secs * NANOS_PER_SEC + subsec_nanos
}

impl ProbeOutcome {
    /// Whether the probe completed its handshake.
    pub fn is_reply(&self) -> (r: bool)
        ensures
            r == (self is Reply),
    {
        match self {
            ProbeOutcome::Reply(_) => true,
            ProbeOutcome::Failure(_) => false,
        }
    }

    /// The latency of a completed probe in nanoseconds, `None` for a failure.
    pub fn latency_ns(&self) -> (r: Option<u64>)
        ensures
            match *self {
                ProbeOutcome::Reply(ns) => r == Some(ns),
                ProbeOutcome::Failure(_) => r is None,
            },
    {
        match self {
            ProbeOutcome::Reply(ns) => Some(*ns),
            ProbeOutcome::Failure(_) => None,
        }
    }
}

/// The latency of an attempt that took `secs` seconds and `subsec_nanos`
/// nanoseconds, in nanoseconds; an elapsed time too long for a `u64` gives
/// `u64::MAX`.
pub fn latency_from_parts(secs: u64, subsec_nanos: u32) -> (r: u64)
    ensures
        elapsed_ns(secs, subsec_nanos) <= u64::MAX ==> r == elapsed_ns(secs, subsec_nanos),
        elapsed_ns(secs, subsec_nanos) > u64::MAX ==> r == u64::MAX,
{
    assert(secs * 1_000_000_000 <= u64::MAX * 1_000_000_000) by (nonlinear_arith);
    let whole: u128 = secs as u128 * NANOS_PER_SEC as u128;
    let all: u128 = whole + subsec_nanos as u128;
    if all > u64::MAX as u128 {
        u64::MAX
    } else {
        all as u64
    }
}

} // verus!
