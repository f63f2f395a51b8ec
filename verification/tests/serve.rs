use facts::config::AutoUpdate;
use facts::server::run_once::UnexpectedEvent;
use facts::server::serve::{Serve, ServeAction, ServeEvent, ServePhase};
use facts::version::{ResolvedVersionReq, Version};

fn update(patch: u32) -> ResolvedVersionReq {
    ResolvedVersionReq { version: Version(0, 17, patch), stability_hint: Some(true) }
}

/// What is done in a serving with the given answer to the first question
/// for an update and the given ends of the runs.
fn actions(
    policy: AutoUpdate,
    available: Option<ResolvedVersionReq>,
    runs: &[Option<ResolvedVersionReq>],
) -> Vec<ServeAction> {
    let (mut serve, mut action) = Serve::start(policy);
    let mut done = vec![action];
    let mut runs = runs.iter();
    while action != ServeAction::Finish {
        let event = match action {
            ServeAction::CheckUpdate => ServeEvent::Update(available),
            ServeAction::Update(_) => ServeEvent::Updated,
            ServeAction::UpdateMods => ServeEvent::ModsUpdated,
            ServeAction::RunOnce => ServeEvent::RunEnded(*runs.next().unwrap()),
            ServeAction::Finish => unreachable!(),
        };
        action = serve.step(event).unwrap();
        done.push(action);
    }
    assert!(runs.next().is_none());
    assert_eq!(serve.phase, ServePhase::Finished);
    done
}

#[test]
fn update_and_mods_come_before_the_first_run() {
    for policy in [AutoUpdate::Forced, AutoUpdate::Enabled, AutoUpdate::Startup] {
        assert_eq!(
            actions(policy, Some(update(80)), &[None]),
            vec![
                ServeAction::CheckUpdate,
                ServeAction::Update(update(80)),
                ServeAction::UpdateMods,
                ServeAction::RunOnce,
                ServeAction::Finish,
            ]
        );
        assert_eq!(
            actions(policy, None, &[None]),
            vec![
                ServeAction::CheckUpdate,
                ServeAction::UpdateMods,
                ServeAction::RunOnce,
                ServeAction::Finish,
            ]
        );
    }
}

#[test]
fn disabled_policy_runs_at_once() {
    assert_eq!(
        actions(AutoUpdate::Disabled, Some(update(80)), &[None]),
        vec![ServeAction::RunOnce, ServeAction::Finish]
    );
    assert_eq!(Serve::start(AutoUpdate::Disabled).0.phase, ServePhase::Running);
}

#[test]
fn server_runs_again_after_each_pending_update() {
    assert_eq!(
        actions(AutoUpdate::Disabled, None, &[Some(update(80)), Some(update(81)), None]),
        vec![
            ServeAction::RunOnce,
            ServeAction::Update(update(80)),
            ServeAction::UpdateMods,
            ServeAction::RunOnce,
            ServeAction::Update(update(81)),
            ServeAction::UpdateMods,
            ServeAction::RunOnce,
            ServeAction::Finish,
        ]
    );
    let done = actions(AutoUpdate::Enabled, None, &[Some(update(80)), None]);
    assert_eq!(done.iter().filter(|a| **a == ServeAction::RunOnce).count(), 2);
    assert_eq!(done.iter().filter(|a| **a == ServeAction::UpdateMods).count(), 2);
}

#[test]
fn failure_ends_the_serving() {
    for events in [
        vec![],
        vec![ServeEvent::Update(Some(update(80)))],
        vec![ServeEvent::Update(None)],
        vec![ServeEvent::Update(None), ServeEvent::ModsUpdated],
    ] {
        let (mut serve, _) = Serve::start(AutoUpdate::Enabled);
        for event in events {
            serve.step(event).unwrap();
        }
        assert_eq!(serve.step(ServeEvent::Failed), Ok(ServeAction::Finish));
        assert_eq!(serve.phase, ServePhase::Finished);
        assert_eq!(serve.step(ServeEvent::ModsUpdated), Err(UnexpectedEvent));
        assert_eq!(serve.step(ServeEvent::RunEnded(Some(update(80)))), Err(UnexpectedEvent));
        assert_eq!(serve.step(ServeEvent::Failed), Err(UnexpectedEvent));
        assert_eq!(serve.phase, ServePhase::Finished);
    }
}

#[test]
fn events_out_of_turn_leave_the_serving_as_it_is() {
    let (mut serve, _) = Serve::start(AutoUpdate::Enabled);
    assert_eq!(serve.step(ServeEvent::Updated), Err(UnexpectedEvent));
    assert_eq!(serve.step(ServeEvent::ModsUpdated), Err(UnexpectedEvent));
    assert_eq!(serve.step(ServeEvent::RunEnded(None)), Err(UnexpectedEvent));
    assert_eq!(serve.phase, ServePhase::Checking);
    serve.step(ServeEvent::Update(Some(update(80)))).unwrap();
    assert_eq!(serve.step(ServeEvent::ModsUpdated), Err(UnexpectedEvent));
    assert_eq!(serve.step(ServeEvent::Update(None)), Err(UnexpectedEvent));
    assert_eq!(serve.phase, ServePhase::Updating);
    let (mut running, _) = Serve::start(AutoUpdate::Disabled);
    assert_eq!(running.step(ServeEvent::Update(None)), Err(UnexpectedEvent));
    assert_eq!(running.step(ServeEvent::Updated), Err(UnexpectedEvent));
    assert_eq!(running.phase, ServePhase::Running);
}
