//! Reduction of a probe history to its summary statistics.

use vstd::prelude::*;
use crate::aggregates::{avg, max, min, sum, sum_of};
use crate::probe::ProbeOutcome;

verus! {

/// Latency figures over the probes that completed, in nanoseconds.
#[derive(Clone, Copy, Debug, PartialEq, Eq, Structural)]
pub struct LatencyStats {
    /// The smallest latency.
    pub min_ns: u64,
    /// The largest latency.
    pub max_ns: u64,
    /// The mean latency, rounded down.
    pub avg_ns: u64,
    /// The sum of all latencies; with `received` it gives the exact mean.
    pub total_ns: u128,
}

/// Aggregate statistics of a probe history.
#[derive(Clone, Copy, Debug, PartialEq, Eq, Structural)]
pub struct Summary {
    /// The number of probes in the history.
    pub sent: usize,
    /// The number of probes that completed their handshake.
    pub received: usize,
    /// `received * 100 / sent`, rounded down; 0 when nothing was sent.
    pub received_percent: usize,
    /// Present exactly when at least one probe completed.
    pub latency: Option<LatencyStats>,
}

/// The latencies of the completed probes of `h`, in order.
pub open spec fn latencies(h: Seq<ProbeOutcome>) -> Seq<u64>
    decreases h.len(),
{
    if h.len() == 0 {
        Seq::empty()
    } else {
        let rest = latencies(h.drop_last());
        match h.last() {
            ProbeOutcome::Reply(ns) => rest.push(ns),
            ProbeOutcome::Failure(_) => rest,
        }
    }
}

/// `x` is the smallest value of `s`.
pub open spec fn is_least(x: u64, s: Seq<u64>) -> bool {
    &&& s.contains(x)
    &&& forall|j: int| 0 <= j < s.len() ==> x <= #[trigger] s[j]
}

/// `x` is the largest value of `s`.
pub open spec fn is_greatest(x: u64, s: Seq<u64>) -> bool {
    &&& s.contains(x)
    &&& forall|j: int| 0 <= j < s.len() ==> #[trigger] s[j] <= x
}

/// The share of `received` in `sent`, in whole percent rounded down.
pub open spec fn percent_of(received: int, sent: int) -> int {
    if sent == 0 {
        0
    } else {
        received * 100 / sent
    }
}

/// The latency figures of a non-empty list of latencies `s`.
pub open spec fn stats_of(st: LatencyStats, s: Seq<u64>) -> bool {
    &&& is_least(st.min_ns, s)
    &&& is_greatest(st.max_ns, s)
    &&& st.total_ns == sum_of(s)
    &&& st.avg_ns == sum_of(s) / (s.len() as int)
}

/// `r` is the summary of the history `h`.
pub open spec fn summarizes(r: Summary, h: Seq<ProbeOutcome>) -> bool {
    &&& r.sent == h.len()
    &&& r.received == latencies(h).len()
    &&& r.received_percent == percent_of(r.received as int, r.sent as int)
    &&& (r.latency is None <==> r.received == 0)
    &&& (r.latency matches Some(st) ==> stats_of(st, latencies(h)))
}

/// A history never holds more completed probes than probes.
pub proof fn lemma_latencies_len(h: Seq<ProbeOutcome>)
    ensures
        latencies(h).len() <= h.len(),
    decreases h.len(),
{
    if h.len() > 0 {
        lemma_latencies_len(h.drop_last());
    }
}

/// `received * 100 / sent` rounded down, and 0 when `sent` is 0.
pub fn received_percent(received: usize, sent: usize) -> (r: usize)
    requires
        received <= sent,
    ensures
        r == percent_of(received as int, sent as int),
        r <= 100,
{
    if sent == 0 {
        return 0;
    }
    let scaled: u128 = received as u128 * 100;
    let p: u128 = scaled / sent as u128;
    proof {
        let a: int = received as int;
        let b: int = sent as int;
        assert(a * 100 / b <= 100) by (nonlinear_arith)
            requires
                0 <= a <= b,
                b > 0,
        ;
    }
    p as usize
}

/// The latencies of the completed probes of `history`, in order.
pub fn reply_latencies(history: &[ProbeOutcome]) -> (r: Vec<u64>)
    ensures
        r@ == latencies(history@),
{
    let mut out: Vec<u64> = Vec::new();
    let mut i: usize = 0;
    while i < history.len()
        invariant
            i <= history@.len(),
            out@ == latencies(history@.take(i as int)),
        decreases history@.len() - i,
    {
        assert(history@.take(i + 1).drop_last() == history@.take(i as int));
        match &history[i] {
            ProbeOutcome::Reply(ns) => out.push(*ns),
            ProbeOutcome::Failure(_) => {},
        }
        i = i + 1;
    }
    assert(history@.take(history@.len() as int) == history@);
    out
}

/// The summary statistics of a probe history: how many probes were sent and
/// received, the received share in percent, and minimum, maximum and mean
/// latency over the completed probes, absent when none completed.
pub fn summarize(history: &[ProbeOutcome]) -> (r: Summary)
    ensures
        summarizes(r, history@),
        r.sent == history@.len(),
        r.received <= r.sent,
        r.received_percent <= 100,
        r.sent == 0 ==> r.received == 0 && r.latency is None,
{
    broadcast use vstd::laws_cmp::group_laws_cmp;

    let replies: Vec<u64> = reply_latencies(history);
    proof {
        lemma_latencies_len(history@);
        assert(vstd::laws_cmp::obeys_cmp::<u64>());
    }
    let sent: usize = history.len();
    let received: usize = replies.len();
    let percent: usize = received_percent(received, sent);
    let latency: Option<LatencyStats> = match (min(replies.as_slice()), max(replies.as_slice()), avg(replies.as_slice())) {
        (Some(lo), Some(hi), Some(mean)) => Some(LatencyStats {
            min_ns: *lo,
            max_ns: *hi,
            avg_ns: mean,
            total_ns: sum(replies.as_slice()),
        }),
        _ => None,
    };
    Summary { sent, received, received_percent: percent, latency }
}

} // verus!
