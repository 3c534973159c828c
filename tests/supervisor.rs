use linkerd_await::supervisor::{
    deadline, exit_code, linkerd_disabled_reason, skip_notice, Action, Config, Event, Phase,
    Supervisor, EX_OSERR, EX_UNAVAILABLE,
};
use linkerd_await::Duration;

fn config(shutdown: bool, cmd: Option<&str>, timeout: Option<Duration>, fatal: bool) -> Config {
    Config {
        port: 4191,
        backoff: Duration::from_secs(1),
        timeout,
        timeout_fatal: fatal,
        shutdown,
        verbose: false,
        cmd: cmd.map(|c| c.to_string()),
        args: vec!["--flag".to_string()],
    }
}

fn drive(s: &mut Supervisor, events: &[Event]) -> Vec<Action> {
    events.iter().map(|e| s.on_event(*e)).collect()
}

#[test]
fn first_nonempty_disable_setting_wins() {
    let some = |v: &str| Some(v.to_string());
    assert_eq!(linkerd_disabled_reason(some("a"), some("b")), some("a"));
    assert_eq!(linkerd_disabled_reason(some(""), some("b")), some("b"));
    assert_eq!(linkerd_disabled_reason(None, some("b")), some("b"));
    assert_eq!(linkerd_disabled_reason(some(""), some("")), None);
    assert_eq!(linkerd_disabled_reason(None, None), None);
    assert_eq!(linkerd_disabled_reason(some("a"), None), some("a"));
}

#[test]
fn skip_notice_only_when_verbose() {
    let reason = Some("sidecar off".to_string());
    assert_eq!(
        skip_notice(&reason, true),
        Some("Linkerd readiness check skipped: sidecar off".to_string())
    );
    assert_eq!(skip_notice(&reason, false), None);
    assert_eq!(skip_notice(&None, true), None);
}

#[test]
fn exit_codes() {
    assert_eq!(exit_code(Some(7)), 7);
    assert_eq!(exit_code(Some(0)), 0);
    assert_eq!(exit_code(None), 71);
    assert_eq!(EX_OSERR, 71);
    assert_eq!(EX_UNAVAILABLE, 69);
}

#[test]
fn zero_or_absent_timeout_sets_no_deadline() {
    assert_eq!(deadline(None), None);
    assert_eq!(deadline(Some(Duration::from_millis(0))), None);
    let t = Duration::from_secs(3);
    assert_eq!(deadline(Some(t)), Some(t));
}

#[test]
fn config_validity() {
    assert!(config(true, Some("app"), None, true).is_valid());
    assert!(!config(true, None, None, true).is_valid());
    assert!(config(false, None, None, true).is_valid());
}

#[test]
fn fatal_deadline_exits_unavailable() {
    let t = Duration::from_secs(2);
    let cfg = config(true, Some("app"), Some(t), true);
    let (mut s, a) = Supervisor::start(&cfg, &None);
    assert_eq!(a, Action::AwaitReady { deadline: Some(t) });
    assert_eq!(s.on_event(Event::DeadlineElapsed), Action::Exit { code: EX_UNAVAILABLE });
    assert_eq!(s.phase, Phase::Done { code: EX_UNAVAILABLE });
}

#[test]
fn non_fatal_deadline_proceeds_as_if_ready() {
    let t = Duration::from_secs(2);
    let cfg = config(true, Some("app"), Some(t), false);
    let (mut s, _) = Supervisor::start(&cfg, &None);
    assert_eq!(s.on_event(Event::DeadlineElapsed), Action::Spawn);
    let cfg = config(false, Some("app"), Some(t), false);
    let (mut s, _) = Supervisor::start(&cfg, &None);
    assert_eq!(s.on_event(Event::DeadlineElapsed), Action::Exec);
    let cfg = config(false, None, Some(t), false);
    let (mut s, _) = Supervisor::start(&cfg, &None);
    assert_eq!(s.on_event(Event::DeadlineElapsed), Action::Exit { code: 0 });
}

#[test]
fn zero_timeout_waits_without_deadline() {
    let cfg = config(false, Some("app"), Some(Duration::from_millis(0)), true);
    let (mut s, a) = Supervisor::start(&cfg, &None);
    assert_eq!(a, Action::AwaitReady { deadline: None });
    assert_eq!(s.on_event(Event::Ready), Action::Exec);
    assert_eq!(s.on_event(Event::ExecFailed), Action::Exit { code: EX_OSERR });
}

#[test]
fn disabled_check_still_notifies_shutdown() {
    let cfg = config(true, Some("app"), Some(Duration::from_secs(1)), true);
    let (mut s, a) = Supervisor::start(&cfg, &Some("off".to_string()));
    assert_eq!(a, Action::Spawn);
    let actions = drive(
        &mut s,
        &[Event::Spawned, Event::ChildExited { code: Some(3) }, Event::ShutdownNotified],
    );
    assert_eq!(
        actions,
        vec![Action::WaitChildOrSignal, Action::NotifyShutdown, Action::Exit { code: 3 }]
    );
    assert!(!actions.iter().any(|a| matches!(a, Action::AwaitReady { .. })));
}

#[test]
fn disabled_check_without_supervision_execs() {
    let cfg = config(false, Some("app"), None, true);
    let (_, a) = Supervisor::start(&cfg, &Some("off".to_string()));
    assert_eq!(a, Action::Exec);
}

#[test]
fn termination_signal_is_forwarded_once() {
    let cfg = config(true, Some("app"), None, true);
    let (mut s, _) = Supervisor::start(&cfg, &None);
    let actions = drive(
        &mut s,
        &[
            Event::Ready,
            Event::Spawned,
            Event::TermSignal { child: Some(4242) },
            Event::TermSignal { child: Some(4242) },
            Event::ChildExited { code: Some(143) },
            Event::ShutdownNotified,
        ],
    );
    assert_eq!(
        actions,
        vec![
            Action::Spawn,
            Action::WaitChildOrSignal,
            Action::ForwardSignal { pid: 4242 },
            Action::WaitChild,
            Action::NotifyShutdown,
            Action::Exit { code: 143 },
        ]
    );
}

#[test]
fn signal_without_child_id_is_not_forwarded() {
    let cfg = config(true, Some("app"), None, true);
    let (mut s, _) = Supervisor::start(&cfg, &Some("x".to_string()));
    let actions = drive(
        &mut s,
        &[
            Event::Spawned,
            Event::TermSignal { child: None },
            Event::ChildExited { code: None },
            Event::ShutdownNotified,
        ],
    );
    assert_eq!(
        actions,
        vec![
            Action::WaitChildOrSignal,
            Action::WaitChild,
            Action::NotifyShutdown,
            Action::Exit { code: EX_OSERR },
        ]
    );
}

#[test]
fn child_exit_code_propagates() {
    let cfg = config(true, Some("app"), None, true);
    let (mut s, _) = Supervisor::start(&cfg, &None);
    let actions = drive(
        &mut s,
        &[Event::Ready, Event::Spawned, Event::ChildExited { code: Some(7) }, Event::ShutdownNotified],
    );
    assert_eq!(actions[3], Action::Exit { code: 7 });
    let (mut s, _) = Supervisor::start(&cfg, &None);
    let actions = drive(
        &mut s,
        &[Event::Ready, Event::Spawned, Event::ChildExited { code: None }, Event::ShutdownNotified],
    );
    assert_eq!(actions[3], Action::Exit { code: EX_OSERR });
}

#[test]
fn spawn_failure_still_notifies_shutdown() {
    let cfg = config(true, Some("missing"), None, true);
    let (mut s, _) = Supervisor::start(&cfg, &None);
    let actions = drive(&mut s, &[Event::Ready, Event::SpawnFailed, Event::ShutdownNotified]);
    assert_eq!(
        actions,
        vec![Action::Spawn, Action::NotifyShutdown, Action::Exit { code: EX_OSERR }]
    );
}

#[test]
fn unexpected_events_repeat_the_pending_action() {
    let cfg = config(true, Some("app"), None, true);
    let (mut s, _) = Supervisor::start(&cfg, &None);
    assert_eq!(s.on_event(Event::Spawned), Action::AwaitReady { deadline: None });
    assert_eq!(s.phase, Phase::Gate);
    assert_eq!(s.pending(), Action::AwaitReady { deadline: None });
}

#[test]
fn shutdown_request_is_bounded() {
    assert_eq!(linkerd_await::supervisor::SHUTDOWN_TIMEOUT_MILLIS, 5_000);
}
