use vstd::prelude::*;

use crate::duration::Duration;

verus! {

/// Each readiness request is abandoned after this many milliseconds.
pub const PROBE_TIMEOUT_MILLIS: u64 = 5_000;

/// What one readiness request came to.
#[derive(Clone, Copy, Debug, PartialEq, Eq, Structural)]
pub enum Probe {
    /// The endpoint answered with this HTTP status code.
    Status(u16),
    /// The request failed to connect or did not finish in time.
    Failed,
}

/// What the poller does after a request.
#[derive(Clone, Copy, Debug, PartialEq, Eq, Structural)]
pub enum PollStep {
    /// The proxy is ready: stop polling.
    Ready,
    /// Sleep for `after`, then send the next request.
    Retry { after: Duration },
}

/// A status code in the success class, `200..300`.
pub open spec fn is_success(code: u16) -> bool {
    200 <= code < 300
}

/// A request shows readiness exactly when it got a success status.
pub open spec fn is_ready(p: Probe) -> bool {
    match p {
        Probe::Status(code) => is_success(code),
        Probe::Failed => false,
    }
}

/// The poller's answer to the outcome `p` of a request.
pub open spec fn poll_step(p: Probe, backoff: Duration) -> PollStep {
    if is_ready(p) {
        PollStep::Ready
    } else {
        PollStep::Retry { after: backoff }
    }
}

/// Relies on `http::StatusCode::from_u16`, which accepts exactly the codes
/// `100..=999`, and on `http::StatusCode::is_success`, which holds exactly
/// for the codes `200..300`.
#[verifier::external_body]
fn status_is_success(code: u16) -> (r: bool)
    ensures
        r == is_success(code),
{
    match http::StatusCode::from_u16(code) {
        Ok(status) => status.is_success(),
        Err(_) => false,
    }
}

/// Whether the outcome of a readiness request shows the proxy ready.
pub fn probe_ready(p: Probe) -> (r: bool)
    ensures
        r == is_ready(p),
{
    match p {
        Probe::Status(code) => status_is_success(code),
        Probe::Failed => false,
    }
}

/// Decides what follows a readiness request: stop when it succeeded, else
/// sleep for the constant `backoff` and try again, without bound.
pub fn next_poll(p: Probe, backoff: Duration) -> (r: PollStep)
    ensures
        r == poll_step(p, backoff),
{
    if probe_ready(p) {
        PollStep::Ready
    } else {
        PollStep::Retry { after: backoff }
    }
}

/// The number of requests that polling sends against the outcomes
/// `outcomes`, in order, until one shows readiness (all of them where none
/// does).
pub open spec fn requests_sent(outcomes: Seq<Probe>, backoff: Duration) -> nat
    decreases outcomes.len(),
{
    if outcomes.len() == 0 {
        0
    } else {
        match poll_step(outcomes[0], backoff) {
            PollStep::Ready => 1,
            PollStep::Retry { .. } => 1 + requests_sent(outcomes.drop_first(), backoff),
        }
    }
}

/// The milliseconds that polling sleeps against the outcomes `outcomes`
/// before it stops.
pub open spec fn time_slept(outcomes: Seq<Probe>, backoff: Duration) -> nat
    decreases outcomes.len(),
{
    if outcomes.len() == 0 {
        0
    } else {
        match poll_step(outcomes[0], backoff) {
            PollStep::Ready => 0,
            PollStep::Retry { after } => after.millis as nat + time_slept(outcomes.drop_first(), backoff),
        }
    }
}

/// Against an endpoint that fails the first `n` requests and then
/// succeeds, polling sends exactly `n + 1` requests and sleeps `n` times
/// the backoff before it returns.
pub proof fn lemma_ready_after_failures(outcomes: Seq<Probe>, n: nat, backoff: Duration)
    requires
        n < outcomes.len(),
        forall|i: int| 0 <= i < n ==> !is_ready(#[trigger] outcomes[i]),
        is_ready(outcomes[n as int]),
    ensures
        requests_sent(outcomes, backoff) == n + 1,
        time_slept(outcomes, backoff) == n * backoff.millis,
    decreases n,
{
    if n > 0 {
        let rest = outcomes.drop_first();
        assert(forall|i: int| 0 <= i < n - 1 ==> rest[i] == outcomes[i + 1]);
        assert(!is_ready(outcomes[0]));
        lemma_ready_after_failures(rest, (n - 1) as nat, backoff);
        assert(n * backoff.millis == backoff.millis + (n - 1) * backoff.millis) by (nonlinear_arith);
    }
}

} // verus!
