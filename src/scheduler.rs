//! The probe scheduler: one warmup probe, then probes at a fixed interval,
//! a fixed number of them or until cancelled.
//!
//! The scheduler decides; its driver acts. The driver asks `next_action`,
//! performs it (waits the interval and probes, or stops), and hands the
//! outcome back with `record`, or reports an interrupt with `cancel`.

use vstd::prelude::*;
use crate::probe::ProbeOutcome;
use crate::summary::{summarize, summarizes, Summary};

verus! {

/// How many probes follow the warmup.
#[derive(Clone, Copy, Debug, PartialEq, Eq, Structural)]
pub enum Mode {
    /// Exactly this many probes.
    Count(u64),
    /// Probes until the run is cancelled.
    Continuous,
}

impl Mode {
    /// Whether the run goes on until cancelled; such a run shows the time of
    /// day beside each probe.
    pub fn is_continuous(&self) -> (r: bool)
        ensures
            r == (*self is Continuous),
    {
        match self {
            Mode::Continuous => true,
            Mode::Count(_) => false,
        }
    }
}

/// Where a run stands.
#[derive(Clone, Copy, Debug, PartialEq, Eq, Structural)]
pub enum Phase {
    /// The warmup probe has not been recorded yet.
    Warmup,
    /// Measured probes are being issued.
    Looping,
    /// A counted run has issued all its probes.
    Done,
    /// The run was cancelled from outside.
    Cancelled,
}

/// What the driver does next.
#[derive(Clone, Copy, Debug, PartialEq, Eq, Structural)]
pub enum Action {
    /// Issue the warmup probe, with no wait before it.
    Warmup,
    /// Wait the interval, then issue one measured probe.
    Probe,
    /// Issue nothing more; the run is over.
    Stop,
}

/// The run's default number of measured probes.
pub const DEFAULT_COUNT: u64 = 4;
/// The run's default delay before each measured probe, in milliseconds.
pub const DEFAULT_INTERVAL_MS: u64 = 1_000;
/// The timeout of each connection attempt, in seconds.
pub const TIMEOUT_SECS: u64 = 4;

/// The parameters of one run.
#[derive(Clone, Copy, Debug, PartialEq, Eq, Structural)]
pub struct RunConfig {
    /// How many probes follow the warmup.
    pub mode: Mode,
    /// The delay before each measured probe, in milliseconds.
    pub interval_ms: u64,
    /// The timeout of each connection attempt, in seconds.
    pub timeout_secs: u64,
}

impl RunConfig {
    /// The configuration for the given options, with the defaults for those
    /// not given; `continuous` takes precedence over a count.
    pub fn new(continuous: bool, count: Option<u64>, interval_ms: Option<u64>) -> (r: RunConfig)
        ensures
            continuous ==> r.mode == Mode::Continuous,
            !continuous && count is None ==> r.mode == Mode::Count(DEFAULT_COUNT),
            !continuous ==> (count matches Some(n) ==> r.mode == Mode::Count(n)),
            interval_ms is None ==> r.interval_ms == DEFAULT_INTERVAL_MS,
            interval_ms matches Some(i) ==> r.interval_ms == i,
            r.timeout_secs == TIMEOUT_SECS,
    {
        let mode: Mode = if continuous {
            Mode::Continuous
        } else {
            match count {
                Some(n) => Mode::Count(n),
                None => Mode::Count(DEFAULT_COUNT),
            }
        };
        let interval: u64 = match interval_ms {
            Some(i) => i,
            None => DEFAULT_INTERVAL_MS,
        };
        RunConfig { mode, interval_ms: interval, timeout_secs: TIMEOUT_SECS }
    }
}

/// The abstract state of a run.
pub ghost struct RunState {
    pub mode: Mode,
    pub phase: Phase,
    /// The outcomes of the measured probes, oldest first.
    pub history: Seq<ProbeOutcome>,
}

/// The state of a run that has not started.
pub open spec fn initial(mode: Mode) -> RunState {
    RunState { mode, phase: Phase::Warmup, history: Seq::empty() }
}

/// The states that a run can reach.
pub open spec fn reachable(s: RunState) -> bool {
    &&& (s.phase is Warmup ==> s.history.len() == 0)
    &&& (s.phase is Done ==> (s.mode matches Mode::Count(n) && s.history.len() == n))
    &&& (s.phase is Looping ==> (s.mode matches Mode::Count(n) ==> s.history.len() < n))
    &&& (s.mode matches Mode::Count(n) ==> s.history.len() <= n)
}

/// What the driver is asked to do in state `s`.
pub open spec fn action_of(s: RunState) -> Action {
    match s.phase {
        Phase::Warmup => Action::Warmup,
        Phase::Looping => Action::Probe,
        Phase::Done | Phase::Cancelled => Action::Stop,
    }
}

/// The state after the outcome `o` of the probe asked for in `s` arrives.
/// The warmup's outcome is not kept; a measured probe's is appended, and a
/// counted run is done once it holds its count. A finished run ignores it.
pub open spec fn after_record(s: RunState, o: ProbeOutcome) -> RunState {
    match s.phase {
        Phase::Warmup => RunState {
            phase: if s.mode == Mode::Count(0) {
                Phase::Done
            } else {
                Phase::Looping
            },
            ..s
        },
        Phase::Looping => {
            let history = s.history.push(o);
            RunState {
                history,
                phase: if s.mode matches Mode::Count(n) && history.len() == n {
                    Phase::Done
                } else {
                    Phase::Looping
                },
                ..s
            }
        },
        Phase::Done | Phase::Cancelled => s,
    }
}

/// The state after an interrupt in `s`: a run that is still going is
/// cancelled, with the history it holds; a finished run is unchanged.
pub open spec fn after_cancel(s: RunState) -> RunState {
    match s.phase {
        Phase::Warmup | Phase::Looping => RunState { phase: Phase::Cancelled, ..s },
        Phase::Done | Phase::Cancelled => s,
    }
}

/// The state reached from `s` when the outcomes `os` arrive in order.
pub open spec fn run_from(s: RunState, os: Seq<ProbeOutcome>) -> RunState
    decreases os.len(),
{
    if os.len() == 0 {
        s
    } else {
        after_record(run_from(s, os.drop_last()), os.last())
    }
}

/// A run of the probe scheduler: its mode, its phase and the history of its
/// measured probes.
pub struct Scheduler {
    mode: Mode,
    phase: Phase,
    history: Vec<ProbeOutcome>,
}

impl View for Scheduler {
    type V = RunState;

    closed spec fn view(&self) -> RunState {
        RunState { mode: self.mode, phase: self.phase, history: self.history@ }
    }
}

impl Scheduler {
    /// A run in the given mode that has not issued its warmup yet.
    pub fn new(mode: Mode) -> (r: Scheduler)
        ensures
            r@ == initial(mode),
            reachable(r@),
    {
        Scheduler { mode, phase: Phase::Warmup, history: Vec::new() }
    }

    /// The mode of the run.
    pub fn mode(&self) -> (r: Mode)
        ensures
            r == self@.mode,
    {
        self.mode
    }

    /// Where the run stands.
    pub fn phase(&self) -> (r: Phase)
        ensures
            r == self@.phase,
    {
        self.phase
    }

    /// The outcomes of the measured probes so far, oldest first.
    pub fn history(&self) -> (r: &Vec<ProbeOutcome>)
        ensures
            r@ == self@.history,
    {
        &self.history
    }

    /// What the driver does next.
    pub fn next_action(&self) -> (r: Action)
        ensures
            r == action_of(self@),
    {
        match self.phase {
            Phase::Warmup => Action::Warmup,
            Phase::Looping => Action::Probe,
            Phase::Done | Phase::Cancelled => Action::Stop,
        }
    }

    /// Takes the outcome of the probe that `next_action` asked for.
    pub fn record(&mut self, outcome: ProbeOutcome)
        requires
            reachable(old(self)@),
        ensures
            final(self)@ == after_record(old(self)@, outcome),
            reachable(final(self)@),
    {
        match self.phase {
            Phase::Warmup => {
                self.phase = match self.mode {
                    Mode::Count(0) => Phase::Done,
                    _ => Phase::Looping,
                };
            },
            Phase::Looping => {
                self.history.push(outcome);
                let full: bool = match self.mode {
                    Mode::Count(n) => self.history.len() as u64 == n,
                    Mode::Continuous => false,
                };
                if full {
                    self.phase = Phase::Done;
                }
            },
            Phase::Done | Phase::Cancelled => {},
        }
    }

    /// Takes an interrupt: the run stops, keeping the history it holds.
    pub fn cancel(&mut self)
        requires
            reachable(old(self)@),
        ensures
            final(self)@ == after_cancel(old(self)@),
            final(self)@.history == old(self)@.history,
            action_of(final(self)@) == Action::Stop,
            reachable(final(self)@),
    {
        match self.phase {
            Phase::Warmup | Phase::Looping => {
                self.phase = Phase::Cancelled;
            },
            Phase::Done | Phase::Cancelled => {},
        }
    }

    /// The summary to report at the end of the run: none when no measured
    /// probe was issued, else the summary of the history.
    pub fn summary(&self) -> (r: Option<Summary>)
        ensures
            r is None <==> self@.history.len() == 0,
            r matches Some(s) ==> summarizes(s, self@.history),
    {
        if self.history.len() == 0 {
            None
        } else {
            Some(summarize(self.history.as_slice()))
        }
    }
}

/// Where a run in `mode` stands after the warmup outcome and then the
/// measured outcomes of `os.drop_first()` arrive: a continuous run keeps
/// probing and holds them all; a counted run holds the first `n` of them and
/// is done once it has `n`.
proof fn lemma_run_from_initial(mode: Mode, os: Seq<ProbeOutcome>)
    requires
        os.len() >= 1,
    ensures
        mode is Continuous ==> run_from(initial(mode), os).phase == Phase::Looping
            && run_from(initial(mode), os).history == os.drop_first(),
        mode matches Mode::Count(n) ==> {
            let s = run_from(initial(mode), os);
            &&& os.len() <= n ==> s.phase == Phase::Looping && s.history == os.drop_first()
            &&& os.len() > n ==> s.phase == Phase::Done && s.history == os.subrange(1, n + 1)
        },
        run_from(initial(mode), os).mode == mode,
    decreases os.len(),
{
    let prev = os.drop_last();
    if os.len() == 1 {
        assert(prev.len() == 0);
        assert(os.drop_first().len() == 0);
        assert(os.drop_first() == Seq::<ProbeOutcome>::empty());
        assert(os.subrange(1, 1) == Seq::<ProbeOutcome>::empty());
    } else {
        lemma_run_from_initial(mode, prev);
        assert(os.drop_first() == prev.drop_first().push(os.last()));
        if let Mode::Count(n) = mode {
            if os.len() == n + 1 {
                assert(os.subrange(1, n + 1) == os.drop_first());
            } else if os.len() > n + 1 {
                assert(os.subrange(1, n + 1) == prev.subrange(1, n + 1));
            }
        }
    }
}

/// A counted run of `n` probes is done exactly after its warmup and `n`
/// measured probes, and then holds those `n` outcomes in order.
pub proof fn lemma_count_run_ends(n: u64, os: Seq<ProbeOutcome>)
    requires
        os.len() >= 1,
    ensures
        run_from(initial(Mode::Count(n)), os).phase == Phase::Done <==> os.len() >= n + 1,
        os.len() == n + 1 ==> run_from(initial(Mode::Count(n)), os).history == os.drop_first(),
        run_from(initial(Mode::Count(n)), os).history.len() == if os.len() <= n {
            os.len() - 1
        } else {
            n as int
        },
{
    lemma_run_from_initial(Mode::Count(n), os);
}

/// A counted run of no probes asks for nothing after its warmup, holds an
/// empty history and so has no summary to report.
pub proof fn lemma_count_zero_run(warmup: ProbeOutcome)
    ensures
        action_of(after_record(initial(Mode::Count(0)), warmup)) == Action::Stop,
        after_record(initial(Mode::Count(0)), warmup).history.len() == 0,
{
}

/// A continuous run never stops on its own: after its warmup and any number
/// of measured probes it asks for another, and holds every measured outcome.
pub proof fn lemma_continuous_run_goes_on(os: Seq<ProbeOutcome>)
    requires
        os.len() >= 1,
    ensures
        action_of(run_from(initial(Mode::Continuous), os)) == Action::Probe,
        run_from(initial(Mode::Continuous), os).history == os.drop_first(),
{
    lemma_run_from_initial(Mode::Continuous, os);
}

/// Cancelling a continuous run after its warmup and `k` completed measured
/// probes stops it with exactly those `k` outcomes, so that its summary
/// counts `k` probes sent.
pub proof fn lemma_cancel_keeps_completed(os: Seq<ProbeOutcome>, r: Summary)
    requires
        os.len() >= 1,
        summarizes(r, after_cancel(run_from(initial(Mode::Continuous), os)).history),
    ensures
        after_cancel(run_from(initial(Mode::Continuous), os)).phase == Phase::Cancelled,
        after_cancel(run_from(initial(Mode::Continuous), os)).history == os.drop_first(),
        r.sent == os.len() - 1,
{
    lemma_run_from_initial(Mode::Continuous, os);
}

} // verus!
