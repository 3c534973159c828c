use vstd::prelude::*;

use crate::duration::Duration;

verus! {

/// Exit code for an operating-system error: a command that could not be
/// started, or a child whose exit code is unknown.
pub const EX_OSERR: i32 = 71;

/// Exit code for a proxy that did not become ready in time.
pub const EX_UNAVAILABLE: i32 = 69;

/// The shutdown request is abandoned after this many milliseconds, so that
/// it never holds up the exit.
pub const SHUTDOWN_TIMEOUT_MILLIS: u64 = 5_000;

/// The options of one invocation.
pub struct Config {
    /// Port of the proxy's administrative server.
    pub port: u16,
    /// Pause after a failed readiness request.
    pub backoff: Duration,
    /// Overall bound on waiting for readiness; absent or zero means none.
    pub timeout: Option<Duration>,
    /// Whether an elapsed timeout ends the invocation.
    pub timeout_fatal: bool,
    /// Whether to run the command as a supervised child and ask the proxy
    /// to shut down once it exits.
    pub shutdown: bool,
    /// Whether to report a skipped readiness check.
    pub verbose: bool,
    /// The command to run once the proxy is ready.
    pub cmd: Option<String>,
    /// The command's arguments.
    pub args: Vec<String>,
}

impl Config {
    /// Supervision needs a command.
    pub open spec fn wf(&self) -> bool {
        self.shutdown ==> self.cmd is Some
    }

    pub fn is_valid(&self) -> (r: bool)
        ensures
            r == self.wf(),
    {
        !self.shutdown || self.cmd.is_some()
    }
}

/// A setting that holds some non-empty text.
pub open spec fn is_set(v: Option<String>) -> bool {
    v is Some && v->0@.len() > 0
}

fn set(v: &Option<String>) -> (r: bool)
    ensures
        r == is_set(*v),
{
    match v {
        Some(s) => !s.as_str().is_empty(),
        None => false,
    }
}

/// Why the readiness check is disabled, if it is: the first of the primary
/// and the legacy disable settings that holds non-empty text.
pub fn linkerd_disabled_reason(primary: Option<String>, legacy: Option<String>) -> (r: Option<
    String,
>)
    ensures
        is_set(primary) ==> r == primary,
        !is_set(primary) && is_set(legacy) ==> r == legacy,
        !is_set(primary) && !is_set(legacy) ==> r is None,
{
    if set(&primary) {
        primary
    } else if set(&legacy) {
        legacy
    } else {
        None
    }
}

/// The diagnostic for a skipped readiness check.
pub open spec fn skip_notice_text(reason: Seq<char>) -> Seq<char> {
    "Linkerd readiness check skipped: "@ + reason
}

/// The diagnostic to print for a disabled readiness check: only where one
/// was asked for with `verbose`.
pub fn skip_notice(disabled: &Option<String>, verbose: bool) -> (r: Option<String>)
    ensures
        r is Some <==> (verbose && disabled is Some),
        r is Some ==> r->0@ == skip_notice_text(disabled->0@),
{
    match disabled {
        Some(reason) => if verbose {
            let mut text = String::from_str("Linkerd readiness check skipped: ");
            text.append(reason.as_str());
            Some(text)
        } else {
            None
        },
        None => None,
    }
}

/// The exit code for a child's outcome: its own code where it has one,
/// else the operating-system error code.
pub open spec fn exit_code_of(code: Option<i32>) -> i32 {
    match code {
        Some(c) => c,
        None => EX_OSERR,
    }
}

pub fn exit_code(code: Option<i32>) -> (r: i32)
    ensures
        r == exit_code_of(code),
{
    match code {
        Some(c) => c,
        None => EX_OSERR,
    }
}

/// The deadline that readiness is raced against: the timeout, unless it is
/// absent or zero.
pub open spec fn deadline_of(timeout: Option<Duration>) -> Option<Duration> {
    match timeout {
        Some(t) => if t.millis > 0 {
            Some(t)
        } else {
            None
        },
        None => None,
    }
}

pub fn deadline(timeout: Option<Duration>) -> (r: Option<Duration>)
    ensures
        r == deadline_of(timeout),
{
    match timeout {
        Some(t) => if t.is_zero() {
            None
        } else {
            Some(t)
        },
        None => None,
    }
}

/// Where the invocation stands.
#[derive(Clone, Copy, Debug, PartialEq, Eq, Structural)]
pub enum Phase {
    /// Waiting for readiness, raced against the deadline.
    Gate,
    /// The child is being spawned.
    Launching,
    /// This process is being replaced by the command.
    Replacing,
    /// The child runs; its exit is raced against a termination signal.
    Supervising,
    /// A termination signal was handled; waiting for the child alone.
    Draining,
    /// The child is done; the proxy's shutdown request is outstanding.
    Notifying { code: i32 },
    /// The invocation ends with `code`.
    Done { code: i32 },
}

/// What the surrounding program observed.
#[derive(Clone, Copy, Debug, PartialEq, Eq, Structural)]
pub enum Event {
    /// The readiness poller returned.
    Ready,
    /// The deadline fired before readiness.
    DeadlineElapsed,
    /// The child was spawned.
    Spawned,
    /// The child could not be spawned.
    SpawnFailed,
    /// This process could not be replaced by the command.
    ExecFailed,
    /// A termination signal arrived; `child` is the child's process id,
    /// where it is still known.
    TermSignal { child: Option<u32> },
    /// The child exited, with its exit code where it has one.
    ChildExited { code: Option<i32> },
    /// The shutdown request finished, whatever came of it.
    ShutdownNotified,
}

/// What the surrounding program is to do next.
#[derive(Clone, Copy, Debug, PartialEq, Eq, Structural)]
pub enum Action {
    /// Poll for readiness, racing the deadline where there is one.
    AwaitReady { deadline: Option<Duration> },
    /// Spawn the command as a child.
    Spawn,
    /// Replace this process by the command.
    Exec,
    /// Wait for the child to exit or for a termination signal.
    WaitChildOrSignal,
    /// Deliver the termination signal to the process `pid`, then wait for
    /// the child alone.
    ForwardSignal { pid: i32 },
    /// Wait for the child alone.
    WaitChild,
    /// Send the proxy its shutdown request, once, ignoring the outcome.
    NotifyShutdown,
    /// End the invocation with `code`.
    Exit { code: i32 },
}

/// The decisions of one invocation, from the readiness gate through the
/// child's supervision to the exit code.
#[derive(Clone, Copy, Debug, PartialEq, Eq, Structural)]
pub struct Supervisor {
    pub phase: Phase,
    /// Run the command as a supervised child.
    pub supervise: bool,
    /// A command was given.
    pub has_cmd: bool,
    /// An elapsed deadline ends the invocation.
    pub timeout_fatal: bool,
    /// The deadline of the readiness gate.
    pub deadline: Option<Duration>,
}

/// The action that a phase waits on.
pub open spec fn pending(s: Supervisor) -> Action {
    match s.phase {
        Phase::Gate => Action::AwaitReady { deadline: s.deadline },
        Phase::Launching => Action::Spawn,
        Phase::Replacing => Action::Exec,
        Phase::Supervising => Action::WaitChildOrSignal,
        Phase::Draining => Action::WaitChild,
        Phase::Notifying { .. } => Action::NotifyShutdown,
        Phase::Done { code } => Action::Exit { code },
    }
}

/// Past the readiness gate: supervise a child, replace this process by the
/// command, or end, where there is no command.
pub open spec fn past_gate(s: Supervisor) -> (Supervisor, Action) {
    if s.supervise {
        (Supervisor { phase: Phase::Launching, ..s }, Action::Spawn)
    } else if s.has_cmd {
        (Supervisor { phase: Phase::Replacing, ..s }, Action::Exec)
    } else {
        (Supervisor { phase: Phase::Done { code: 0 }, ..s }, Action::Exit { code: 0 })
    }
}

/// The state and the first action of an invocation. Where readiness
/// polling is disabled, it begins with what follows readiness.
pub open spec fn initial(cfg: &Config, disabled: bool) -> (Supervisor, Action) {
    let s = Supervisor {
        phase: Phase::Gate,
        supervise: cfg.shutdown,
        has_cmd: cfg.cmd is Some,
        timeout_fatal: cfg.timeout_fatal,
        deadline: deadline_of(cfg.timeout),
    };
    if disabled {
        past_gate(s)
    } else {
        (s, Action::AwaitReady { deadline: s.deadline })
    }
}

/// The next state and action after `e`. An event that the phase does not
/// wait for changes nothing, and the phase's action is repeated.
pub open spec fn step(s: Supervisor, e: Event) -> (Supervisor, Action) {
    match (s.phase, e) {
        (Phase::Gate, Event::Ready) => past_gate(s),
        (Phase::Gate, Event::DeadlineElapsed) => if s.timeout_fatal {
            (
                Supervisor { phase: Phase::Done { code: EX_UNAVAILABLE }, ..s },
                Action::Exit { code: EX_UNAVAILABLE },
            )
        } else {
            past_gate(s)
        },
        (Phase::Launching, Event::Spawned) => (
            Supervisor { phase: Phase::Supervising, ..s },
            Action::WaitChildOrSignal,
        ),
        (Phase::Launching, Event::SpawnFailed) => (
            Supervisor { phase: Phase::Notifying { code: EX_OSERR }, ..s },
            Action::NotifyShutdown,
        ),
        (Phase::Replacing, Event::ExecFailed) => (
            Supervisor { phase: Phase::Done { code: EX_OSERR }, ..s },
            Action::Exit { code: EX_OSERR },
        ),
        (Phase::Supervising, Event::TermSignal { child }) => match child {
            Some(id) => if id <= i32::MAX {
                (Supervisor { phase: Phase::Draining, ..s }, Action::ForwardSignal { pid: id as i32 })
            } else {
                (Supervisor { phase: Phase::Draining, ..s }, Action::WaitChild)
            },
            None => (Supervisor { phase: Phase::Draining, ..s }, Action::WaitChild),
        },
        (Phase::Supervising, Event::ChildExited { code }) => (
            Supervisor { phase: Phase::Notifying { code: exit_code_of(code) }, ..s },
            Action::NotifyShutdown,
        ),
        (Phase::Draining, Event::ChildExited { code }) => (
            Supervisor { phase: Phase::Notifying { code: exit_code_of(code) }, ..s },
            Action::NotifyShutdown,
        ),
        (Phase::Notifying { code }, Event::ShutdownNotified) => (
            Supervisor { phase: Phase::Done { code }, ..s },
            Action::Exit { code },
        ),
        _ => (s, pending(s)),
    }
}

/// The actions that answer the events `events`, one each, from `s`.
pub open spec fn run(s: Supervisor, events: Seq<Event>) -> Seq<Action>
    decreases events.len(),
{
    if events.len() == 0 {
        Seq::empty()
    } else {
        let (next, a) = step(s, events[0]);
        seq![a] + run(next, events.drop_first())
    }
}

impl Supervisor {
    fn past_gate(self) -> (r: (Supervisor, Action))
        ensures
            r == past_gate(self),
    {
        if self.supervise {
            (Supervisor { phase: Phase::Launching, ..self }, Action::Spawn)
        } else if self.has_cmd {
            (Supervisor { phase: Phase::Replacing, ..self }, Action::Exec)
        } else {
            (Supervisor { phase: Phase::Done { code: 0 }, ..self }, Action::Exit { code: 0 })
        }
    }

    /// The action that the current phase waits on.
    pub fn pending(&self) -> (r: Action)
        ensures
            r == pending(*self),
    {
        match self.phase {
            Phase::Gate => Action::AwaitReady { deadline: self.deadline },
            Phase::Launching => Action::Spawn,
            Phase::Replacing => Action::Exec,
            Phase::Supervising => Action::WaitChildOrSignal,
            Phase::Draining => Action::WaitChild,
            Phase::Notifying { .. } => Action::NotifyShutdown,
            Phase::Done { code } => Action::Exit { code },
        }
    }

    /// Begins an invocation; `disabled` is the reason why the readiness
    /// check is disabled, if it is.
    pub fn start(cfg: &Config, disabled: &Option<String>) -> (r: (Supervisor, Action))
        ensures
            r == initial(cfg, disabled is Some),
    {
        let s = Supervisor {
            phase: Phase::Gate,
            supervise: cfg.shutdown,
            has_cmd: cfg.cmd.is_some(),
            timeout_fatal: cfg.timeout_fatal,
            deadline: deadline(cfg.timeout),
        };
        if disabled.is_some() {
            s.past_gate()
        } else {
            (s, Action::AwaitReady { deadline: s.deadline })
        }
    }

    /// Takes in what was observed and says what to do next.
    pub fn on_event(&mut self, e: Event) -> (r: Action)
        ensures
            (*final(self), r) == step(*old(self), e),
    {
        let s = *self;
        let (next, a) = match (s.phase, e) {
            (Phase::Gate, Event::Ready) => s.past_gate(),
            (Phase::Gate, Event::DeadlineElapsed) => if s.timeout_fatal {
                (
                    Supervisor { phase: Phase::Done { code: EX_UNAVAILABLE }, ..s },
                    Action::Exit { code: EX_UNAVAILABLE },
                )
            } else {
                s.past_gate()
            },
            (Phase::Launching, Event::Spawned) => (
                Supervisor { phase: Phase::Supervising, ..s },
                Action::WaitChildOrSignal,
            ),
            (Phase::Launching, Event::SpawnFailed) => (
                Supervisor { phase: Phase::Notifying { code: EX_OSERR }, ..s },
                Action::NotifyShutdown,
            ),
            (Phase::Replacing, Event::ExecFailed) => (
                Supervisor { phase: Phase::Done { code: EX_OSERR }, ..s },
                Action::Exit { code: EX_OSERR },
            ),
            (Phase::Supervising, Event::TermSignal { child }) => match child {
                Some(id) => if id <= i32::MAX as u32 {
                    (
                        Supervisor { phase: Phase::Draining, ..s },
                        Action::ForwardSignal { pid: id as i32 },
                    )
                } else {
                    (Supervisor { phase: Phase::Draining, ..s }, Action::WaitChild)
                },
                None => (Supervisor { phase: Phase::Draining, ..s }, Action::WaitChild),
            },
            (Phase::Supervising, Event::ChildExited { code }) => (
                Supervisor { phase: Phase::Notifying { code: exit_code(code) }, ..s },
                Action::NotifyShutdown,
            ),
            (Phase::Draining, Event::ChildExited { code }) => (
                Supervisor { phase: Phase::Notifying { code: exit_code(code) }, ..s },
                Action::NotifyShutdown,
            ),
            (Phase::Notifying { code }, Event::ShutdownNotified) => (
                Supervisor { phase: Phase::Done { code }, ..s },
                Action::Exit { code },
            ),
            _ => (s, s.pending()),
        };
        *self = next;
        a
    }
}

/// With a non-zero timeout and the readiness check enabled, readiness is
/// raced against a deadline of exactly that timeout. Where the deadline
/// fires first, a fatal timeout ends the invocation with `EX_UNAVAILABLE`,
/// and a non-fatal one goes on exactly as readiness would have.
pub proof fn lemma_deadline(cfg: &Config, t: Duration)
    requires
        cfg.timeout == Some(t),
        t.millis > 0,
    ensures
        initial(cfg, false).1 == (Action::AwaitReady { deadline: Some(t) }),
        cfg.timeout_fatal ==> step(initial(cfg, false).0, Event::DeadlineElapsed).1 == (
        Action::Exit { code: EX_UNAVAILABLE }),
        !cfg.timeout_fatal ==> step(initial(cfg, false).0, Event::DeadlineElapsed) == step(
            initial(cfg, false).0,
            Event::Ready,
        ),
        !cfg.timeout_fatal ==> step(initial(cfg, false).0, Event::DeadlineElapsed).1 != (
        Action::Exit { code: EX_UNAVAILABLE }),
{
}

/// `run` over an event followed by more events.
proof fn lemma_run_cons(s: Supervisor, e: Event, rest: Seq<Event>)
    ensures
        run(s, seq![e] + rest) == seq![step(s, e).1] + run(step(s, e).0, rest),
{
    assert((seq![e] + rest).drop_first() =~= rest);
}

/// `run` over two events.
proof fn lemma_run_two(s: Supervisor, e0: Event, e1: Event)
    ensures
        run(s, seq![e0, e1]) == seq![step(s, e0).1, step(step(s, e0).0, e1).1],
{
    let s1 = step(s, e0).0;
    lemma_run_cons(s1, e1, Seq::empty());
    assert(seq![e1] + Seq::<Event>::empty() =~= seq![e1]);
    assert(run(step(s1, e1).0, Seq::<Event>::empty()) =~= Seq::<Action>::empty());
    lemma_run_cons(s, e0, seq![e1]);
    assert(seq![e0] + seq![e1] =~= seq![e0, e1]);
    assert(run(s, seq![e0, e1]) =~= seq![step(s, e0).1, step(s1, e1).1]);
}

/// `run` over three events.
proof fn lemma_run_three(s: Supervisor, e0: Event, e1: Event, e2: Event)
    ensures
        run(s, seq![e0, e1, e2]) == seq![
            step(s, e0).1,
            step(step(s, e0).0, e1).1,
            step(step(step(s, e0).0, e1).0, e2).1,
        ],
{
    lemma_run_two(step(s, e0).0, e1, e2);
    lemma_run_cons(s, e0, seq![e1, e2]);
    assert(seq![e0] + seq![e1, e2] =~= seq![e0, e1, e2]);
    assert(run(s, seq![e0, e1, e2]) =~= seq![step(s, e0).1] + run(step(s, e0).0, seq![e1, e2]));
}

/// Where a set of phases is closed under every step and no step from it
/// yields a `bad` action, no run from it yields one.
proof fn lemma_run_avoids(
    s: Supervisor,
    events: Seq<Event>,
    closed: spec_fn(Phase) -> bool,
    bad: spec_fn(Action) -> bool,
)
    requires
        closed(s.phase),
        forall|t: Supervisor, e: Event|
            closed(t.phase) ==> closed(#[trigger] step(t, e).0.phase) && !bad(step(t, e).1),
    ensures
        forall|i: int| 0 <= i < run(s, events).len() ==> !bad(#[trigger] run(s, events)[i]),
    decreases events.len(),
{
    if events.len() > 0 {
        let (next, a) = step(s, events[0]);
        lemma_run_avoids(next, events.drop_first(), closed, bad);
        let acts = run(s, events);
        assert(acts == seq![a] + run(next, events.drop_first()));
        assert forall|i: int| 0 <= i < acts.len() implies !bad(#[trigger] acts[i]) by {
            if i > 0 {
                assert(acts[i] == run(next, events.drop_first())[i - 1]);
            }
        }
    }
}

/// A disabled readiness check sends no readiness request, whatever
/// happens after; and a supervised child is still followed by the proxy's
/// shutdown request, and its exit code by the invocation's.
pub proof fn lemma_disabled_skips_readiness(cfg: &Config, events: Seq<Event>, code: Option<i32>)
    ensures
        !(initial(cfg, true).1 is AwaitReady),
        forall|i: int|
            0 <= i < run(initial(cfg, true).0, events).len() ==> !(#[trigger] run(
                initial(cfg, true).0,
                events,
            )[i] is AwaitReady),
        cfg.shutdown ==> initial(cfg, true).1 == Action::Spawn,
        cfg.shutdown ==> run(
            initial(cfg, true).0,
            seq![Event::Spawned, Event::ChildExited { code }, Event::ShutdownNotified],
        ) == seq![
            Action::WaitChildOrSignal,
            Action::NotifyShutdown,
            Action::Exit { code: exit_code_of(code) },
        ],
{
    let s = initial(cfg, true).0;
    let closed = |p: Phase| p != Phase::Gate;
    let bad = |a: Action| a is AwaitReady;
    lemma_run_avoids(s, events, closed, bad);
    lemma_run_three(s, Event::Spawned, Event::ChildExited { code }, Event::ShutdownNotified);
}

/// Phases after a handled termination signal.
pub open spec fn past_signal(p: Phase) -> bool {
    p is Draining || p is Notifying || p is Done
}

/// A termination signal that reaches a supervised child's supervisor is
/// forwarded to the child exactly once, whatever follows; and the
/// invocation then exits with the child's code.
pub proof fn lemma_signal_forwarded_once(
    s: Supervisor,
    pid: u32,
    events: Seq<Event>,
    code: Option<i32>,
)
    requires
        s.phase == Phase::Supervising,
        pid <= i32::MAX,
    ensures
        run(s, seq![Event::TermSignal { child: Some(pid) }] + events)[0] == (Action::ForwardSignal {
            pid: pid as i32,
        }),
        forall|i: int|
            1 <= i < run(s, seq![Event::TermSignal { child: Some(pid) }] + events).len() ==> !(
            #[trigger] run(s, seq![Event::TermSignal { child: Some(pid) }] + events)[i] is ForwardSignal),
        run(
            s,
            seq![
                Event::TermSignal { child: Some(pid) },
                Event::ChildExited { code },
                Event::ShutdownNotified,
            ],
        ) == seq![
            Action::ForwardSignal { pid: pid as i32 },
            Action::NotifyShutdown,
            Action::Exit { code: exit_code_of(code) },
        ],
{
    let signal = Event::TermSignal { child: Some(pid) };
    let s1 = step(s, signal).0;
    let closed = |p: Phase| past_signal(p);
    let bad = |a: Action| a is ForwardSignal;
    lemma_run_avoids(s1, events, closed, bad);
    lemma_run_cons(s, signal, events);
    let acts = run(s, seq![signal] + events);
    assert forall|i: int| 1 <= i < acts.len() implies !(#[trigger] acts[i] is ForwardSignal) by {
        assert(acts[i] == run(s1, events)[i - 1]);
    }
    lemma_run_three(s, signal, Event::ChildExited { code }, Event::ShutdownNotified);
}

/// A supervised child's exit code becomes the invocation's; a child
/// without one (killed by a signal) gives `EX_OSERR`. The proxy's shutdown
/// request comes first.
pub proof fn lemma_exit_code_propagates(s: Supervisor, code: Option<i32>)
    requires
        s.phase == Phase::Supervising,
    ensures
        run(s, seq![Event::ChildExited { code }, Event::ShutdownNotified]) == seq![
            Action::NotifyShutdown,
            Action::Exit {
                code: match code {
                    Some(c) => c,
                    None => EX_OSERR,
                },
            },
        ],
{
    lemma_run_two(s, Event::ChildExited { code }, Event::ShutdownNotified);
}

} // verus!
