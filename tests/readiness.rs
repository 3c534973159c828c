use linkerd_await::readiness::{next_poll, probe_ready, PollStep, Probe, PROBE_TIMEOUT_MILLIS};
use linkerd_await::Duration;

#[test]
fn only_success_statuses_show_readiness() {
    assert!(probe_ready(Probe::Status(200)));
    assert!(probe_ready(Probe::Status(204)));
    assert!(probe_ready(Probe::Status(299)));
    assert!(!probe_ready(Probe::Status(199)));
    assert!(!probe_ready(Probe::Status(300)));
    assert!(!probe_ready(Probe::Status(404)));
    assert!(!probe_ready(Probe::Status(503)));
    assert!(!probe_ready(Probe::Status(0)));
    assert!(!probe_ready(Probe::Status(1000)));
    assert!(!probe_ready(Probe::Failed));
}

#[test]
fn failures_retry_after_the_constant_backoff() {
    let backoff = Duration::from_millis(1500);
    assert_eq!(next_poll(Probe::Status(200), backoff), PollStep::Ready);
    assert_eq!(
        next_poll(Probe::Status(503), backoff),
        PollStep::Retry { after: backoff }
    );
    assert_eq!(next_poll(Probe::Failed, backoff), PollStep::Retry { after: backoff });
    assert_eq!(PROBE_TIMEOUT_MILLIS, 5_000);
}

#[test]
fn ready_after_failures_takes_one_request_more() {
    let backoff = Duration::from_millis(250);
    let n = 4;
    let mut outcomes = vec![Probe::Status(503), Probe::Failed, Probe::Status(404), Probe::Failed];
    outcomes.push(Probe::Status(200));
    outcomes.push(Probe::Status(200));
    let mut requests = 0u64;
    let mut slept = 0u64;
    for outcome in outcomes {
        requests += 1;
        match next_poll(outcome, backoff) {
            PollStep::Ready => break,
            PollStep::Retry { after } => slept += after.as_millis(),
        }
    }
    assert_eq!(requests, n + 1);
    assert_eq!(slept, n * 250);
}
