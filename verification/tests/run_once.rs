use facts::config::AutoUpdate;
use facts::server::run_once::{RunAction, RunEvent, RunOnce, RunPhase, UnexpectedEvent, POLL_MILLIS};
use facts::server_process::message::FromServer;
use facts::server_process::RunningServer;
use facts::version::{ResolvedVersionReq, Version};

fn update() -> ResolvedVersionReq {
    ResolvedVersionReq { version: Version(1, 2, 3), stability_hint: Some(true) }
}

fn snapshot(players: &[&str]) -> FromServer {
    let mut server = RunningServer::new();
    for player in players {
        server.new_line(&format!("2020-01-01 12:00:00 [JOIN] {} joined the game", player)).unwrap();
    }
    FromServer::State(server)
}

/// A run that has been brought to the check for an update.
fn at_check(policy: AutoUpdate) -> RunOnce {
    let (mut run, first) = RunOnce::start(policy, 0);
    assert_eq!(first, RunAction::Receive);
    let action = run.step(RunEvent::Message(FromServer::StartupComplete)).unwrap();
    assert_eq!(action, RunAction::CheckUpdate);
    run
}

#[test]
fn enabled_policy_waits_for_the_players_to_leave() {
    let mut run = at_check(AutoUpdate::Enabled);
    assert_eq!(run.step(RunEvent::Update(Some(update()))), Ok(RunAction::Query));
    let action = run.step(RunEvent::Message(snapshot(&["Alice"]))).unwrap();
    assert_eq!(action, RunAction::CheckUpdate);
    assert_eq!(run.phase, RunPhase::Checking);

    assert_eq!(run.step(RunEvent::Update(Some(update()))), Ok(RunAction::Query));
    let action = run.step(RunEvent::Message(snapshot(&[]))).unwrap();
    assert_eq!(action, RunAction::Stop { shutdown: true, pending: Some(update()) });
    assert_eq!(run.phase, RunPhase::Stopped { pending: Some(update()) });
}

#[test]
fn forced_policy_stops_whoever_is_online() {
    let mut run = at_check(AutoUpdate::Forced);
    let action = run.step(RunEvent::Update(Some(update()))).unwrap();
    assert_eq!(action, RunAction::Stop { shutdown: true, pending: Some(update()) });
    assert_eq!(run.phase, RunPhase::Stopped { pending: Some(update()) });
}

#[test]
fn interrupt_ends_the_run_with_nothing_pending() {
    let (mut run, _) = RunOnce::start(AutoUpdate::Enabled, 1);
    assert_eq!(
        run.step(RunEvent::Message(FromServer::StartupComplete)),
        Ok(RunAction::PollInterrupt)
    );
    assert_eq!(run.step(RunEvent::Interrupt(false)), Ok(RunAction::Sleep(POLL_MILLIS)));
    assert_eq!(run.step(RunEvent::Slept), Ok(RunAction::PollInterrupt));
    let action = run.step(RunEvent::Interrupt(true)).unwrap();
    assert_eq!(action, RunAction::Stop { shutdown: true, pending: None });
    assert_eq!(run.phase, RunPhase::Stopped { pending: None });
}

#[test]
fn policy_that_is_not_live_only_waits() {
    for policy in [AutoUpdate::Startup, AutoUpdate::Disabled] {
        let (mut run, first) = RunOnce::start(policy, 60);
        assert_eq!(first, RunAction::Receive);
        let action = run.step(RunEvent::Message(FromServer::StartupComplete)).unwrap();
        assert_eq!(action, RunAction::Stop { shutdown: false, pending: None });
    }
}

#[test]
fn one_minute_is_twelve_hundred_sleeps() {
    assert_eq!(POLL_MILLIS, 50);
    let (mut run, _) = RunOnce::start(AutoUpdate::Forced, 1);
    assert_eq!(run.ticks, 1200);
    let mut action = run.step(RunEvent::Message(FromServer::StartupComplete)).unwrap();
    let mut sleeps = 0;
    let mut polls = 0;
    loop {
        action = match action {
            RunAction::PollInterrupt => {
                polls += 1;
                run.step(RunEvent::Interrupt(false)).unwrap()
            },
            RunAction::Sleep(millis) => {
                assert_eq!(millis, 50);
                sleeps += 1;
                run.step(RunEvent::Slept).unwrap()
            },
            other => {
                assert_eq!(other, RunAction::CheckUpdate);
                break;
            },
        };
    }
    assert_eq!(sleeps, 1200);
    assert_eq!(polls, 1200);
    // Without an update the next round begins.
    assert_eq!(run.step(RunEvent::Update(None)), Ok(RunAction::PollInterrupt));
    assert_eq!(run.phase, RunPhase::Polling { ticks_left: 1200 });
}

#[test]
fn time_between_checks_is_counted_in_ticks() {
    assert_eq!(RunOnce::start(AutoUpdate::Enabled, 60).0.ticks, 72000);
    assert_eq!(RunOnce::start(AutoUpdate::Enabled, 0).0.ticks, 0);
    assert!(RunOnce::can_count(u64::MAX / 1200));
    assert!(!RunOnce::can_count(u64::MAX / 1200 + 1));
    assert!(!RunOnce::can_count(u64::MAX));
}

#[test]
fn unexpected_events_leave_the_run_as_it_is() {
    let (mut run, _) = RunOnce::start(AutoUpdate::Enabled, 1);
    let before = run;
    assert_eq!(run.step(RunEvent::Slept), Err(UnexpectedEvent));
    assert_eq!(run.step(RunEvent::Interrupt(true)), Err(UnexpectedEvent));
    assert_eq!(run.step(RunEvent::Update(Some(update()))), Err(UnexpectedEvent));
    assert_eq!(run.step(RunEvent::Message(snapshot(&[]))), Err(UnexpectedEvent));
    assert_eq!(run, before);

    let mut run = at_check(AutoUpdate::Enabled);
    assert_eq!(run.step(RunEvent::Message(FromServer::StartupComplete)), Err(UnexpectedEvent));
    assert_eq!(run.step(RunEvent::Update(Some(update()))), Ok(RunAction::Query));
    assert_eq!(run.step(RunEvent::Message(FromServer::StartupComplete)), Err(UnexpectedEvent));
    assert_eq!(run.phase, RunPhase::Querying { update: update() });

    let mut stopped = at_check(AutoUpdate::Forced);
    stopped.step(RunEvent::Update(Some(update()))).unwrap();
    assert_eq!(stopped.step(RunEvent::Update(None)), Err(UnexpectedEvent));
    assert_eq!(stopped.step(RunEvent::Interrupt(true)), Err(UnexpectedEvent));

    let mut odd = RunOnce { policy: AutoUpdate::Startup, ticks: 0, phase: RunPhase::Checking };
    assert_eq!(odd.step(RunEvent::Update(Some(update()))), Err(UnexpectedEvent));
}
