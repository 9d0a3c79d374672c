use tcping::probe::ProbeOutcome;
use tcping::scheduler::{Action, Mode, Phase, RunConfig, Scheduler, DEFAULT_COUNT, DEFAULT_INTERVAL_MS, TIMEOUT_SECS};
use tcping::summary::Summary;

const MS: u64 = 1_000_000;

fn failure() -> ProbeOutcome {
    ProbeOutcome::Failure(String::from("Connection timed out."))
}

#[test]
fn count_zero_runs_only_warmup() {
    let mut s = Scheduler::new(Mode::Count(0));
    assert_eq!(s.next_action(), Action::Warmup);
    s.record(ProbeOutcome::Reply(MS));
    assert_eq!(s.next_action(), Action::Stop);
    assert_eq!(s.phase(), Phase::Done);
    assert!(s.history().is_empty());
    assert_eq!(s.summary(), None);
}

#[test]
fn count_four_all_failing() {
    let mut s = Scheduler::new(Mode::Count(4));
    assert_eq!(s.next_action(), Action::Warmup);
    s.record(failure());
    let mut probes = 0;
    while s.next_action() == Action::Probe {
        s.record(failure());
        probes += 1;
    }
    assert_eq!(probes, 4);
    assert_eq!(s.phase(), Phase::Done);
    assert_eq!(
        s.summary(),
        Some(Summary { sent: 4, received: 0, received_percent: 0, latency: None })
    );
}

#[test]
fn warmup_is_not_counted() {
    let mut s = Scheduler::new(Mode::Count(2));
    s.record(ProbeOutcome::Reply(100 * MS));
    s.record(ProbeOutcome::Reply(2 * MS));
    s.record(ProbeOutcome::Reply(4 * MS));
    assert_eq!(s.history(), &vec![ProbeOutcome::Reply(2 * MS), ProbeOutcome::Reply(4 * MS)]);
    let summary = s.summary().unwrap();
    assert_eq!(summary.sent, 2);
    assert_eq!(summary.latency.unwrap().max_ns, 4 * MS);
}

#[test]
fn done_run_ignores_more_outcomes() {
    let mut s = Scheduler::new(Mode::Count(1));
    s.record(failure());
    s.record(ProbeOutcome::Reply(MS));
    s.record(ProbeOutcome::Reply(2 * MS));
    assert_eq!(s.history(), &vec![ProbeOutcome::Reply(MS)]);
    s.cancel();
    assert_eq!(s.phase(), Phase::Done);
}

#[test]
fn continuous_cancelled_after_two() {
    let mut s = Scheduler::new(Mode::Continuous);
    s.record(ProbeOutcome::Reply(MS));
    s.record(ProbeOutcome::Reply(3 * MS));
    s.record(ProbeOutcome::Reply(5 * MS));
    assert_eq!(s.next_action(), Action::Probe);
    s.cancel();
    assert_eq!(s.phase(), Phase::Cancelled);
    assert_eq!(s.next_action(), Action::Stop);
    s.record(ProbeOutcome::Reply(7 * MS));
    let summary = s.summary().unwrap();
    assert_eq!(summary.sent, 2);
    assert_eq!(summary.received, 2);
}

#[test]
fn continuous_keeps_asking() {
    let mut s = Scheduler::new(Mode::Continuous);
    s.record(failure());
    for _ in 0..100 {
        assert_eq!(s.next_action(), Action::Probe);
        s.record(failure());
    }
    assert_eq!(s.history().len(), 100);
    assert_eq!(s.phase(), Phase::Looping);
}

#[test]
fn cancel_during_warmup() {
    let mut s = Scheduler::new(Mode::Count(4));
    s.cancel();
    assert_eq!(s.next_action(), Action::Stop);
    assert_eq!(s.summary(), None);
}

#[test]
fn config_defaults() {
    let c = RunConfig::new(false, None, None);
    assert_eq!(c.mode, Mode::Count(DEFAULT_COUNT));
    assert_eq!(c.mode, Mode::Count(4));
    assert_eq!(c.interval_ms, DEFAULT_INTERVAL_MS);
    assert_eq!(c.interval_ms, 1000);
    assert_eq!(c.timeout_secs, TIMEOUT_SECS);
    assert_eq!(c.timeout_secs, 4);
    assert!(!c.mode.is_continuous());
}

#[test]
fn config_given_values() {
    let c = RunConfig::new(false, Some(9), Some(250));
    assert_eq!(c.mode, Mode::Count(9));
    assert_eq!(c.interval_ms, 250);
    let d = RunConfig::new(true, Some(9), None);
    assert_eq!(d.mode, Mode::Continuous);
    assert!(d.mode.is_continuous());
}
