//! Serving: the runs of a server one after the other, with the updates
//! before the first run and between two runs.
//!
//! Serving itself fetches nothing and starts nothing: whoever drives it
//! carries out each action and hands back what came of it.

use vstd::prelude::*;
use crate::config::AutoUpdate;
use crate::server::run_once::UnexpectedEvent;
use crate::version::ResolvedVersionReq;

verus! {

/// What the driver of the serving is to do next.
#[derive(Debug, Clone, Copy, PartialEq, Eq, Structural)]
pub enum ServeAction {
    /// Find out whether a newer version is available, and hand it back.
    CheckUpdate,
    /// Bring the server to this version, and say so.
    Update(ResolvedVersionReq),
    /// Fetch the server's mods anew, and say so.
    UpdateMods,
    /// Run the server once, and hand back the update that the run ended
    /// for, if it ended for one.
    RunOnce,
    /// Serving is over.
    Finish,
}

/// What came of an action.
#[derive(Debug, Clone, Copy, PartialEq, Eq, Structural)]
pub enum ServeEvent {
    /// The newer version that is available, if there is one.
    Update(Option<ResolvedVersionReq>),
    /// The server has been brought to the version.
    Updated,
    /// The mods have been fetched anew.
    ModsUpdated,
    /// A run has ended, for this update if for one.
    RunEnded(Option<ResolvedVersionReq>),
    /// The action failed.
    Failed,
}

/// Where the serving stands: what it waits for.
#[derive(Debug, Clone, Copy, PartialEq, Eq, Structural)]
pub enum ServePhase {
    /// For the answer whether an update is available.
    Checking,
    /// For the server to be brought to a version.
    Updating,
    /// For the mods to be fetched anew.
    UpdatingMods,
    /// For a run to end.
    Running,
    /// For nothing: serving is over.
    Finished,
}

/// The serving of a server.
#[derive(Debug, Clone, Copy, PartialEq, Eq, Structural)]
pub struct Serve {
    /// Where the serving stands.
    pub phase: ServePhase,
}

impl Serve {
    /// The serving at its start, and the first thing to do: unless the
    /// policy is never to update, to look for an update; else to run the
    /// server.
    pub open spec fn spec_start(policy: AutoUpdate) -> (Serve, ServeAction) {
        if policy.spec_on_start() {
            (Serve { phase: ServePhase::Checking }, ServeAction::CheckUpdate)
        } else {
            (Serve { phase: ServePhase::Running }, ServeAction::RunOnce)
        }
    }

    /// What an event makes of the serving, and what to do next.
    ///
    /// An update that is available before the first run, or that a run
    /// ended for, is applied; then the mods are fetched anew, and then the
    /// server runs. Where no update is available before the first run, the
    /// mods are fetched anew all the same. A run that ended for no update
    /// ends the serving, and so does an action that failed: no run follows.
    ///
    /// Any other event is not expected, and leaves the serving as it is.
    pub open spec fn spec_step(self, event: ServeEvent) -> (
        Serve,
        Result<ServeAction, UnexpectedEvent>,
    ) {
        match (self.phase, event) {
            (ServePhase::Finished, _) => (self, Err(UnexpectedEvent)),
            (_, ServeEvent::Failed) => (
                Serve { phase: ServePhase::Finished },
                Ok(ServeAction::Finish),
            ),
            (ServePhase::Checking, ServeEvent::Update(Some(update))) => (
                Serve { phase: ServePhase::Updating },
                Ok(ServeAction::Update(update)),
            ),
            (ServePhase::Checking, ServeEvent::Update(None)) => (
                Serve { phase: ServePhase::UpdatingMods },
                Ok(ServeAction::UpdateMods),
            ),
            (ServePhase::Updating, ServeEvent::Updated) => (
                Serve { phase: ServePhase::UpdatingMods },
                Ok(ServeAction::UpdateMods),
            ),
            (ServePhase::UpdatingMods, ServeEvent::ModsUpdated) => (
                Serve { phase: ServePhase::Running },
                Ok(ServeAction::RunOnce),
            ),
            (ServePhase::Running, ServeEvent::RunEnded(Some(update))) => (
                Serve { phase: ServePhase::Updating },
                Ok(ServeAction::Update(update)),
            ),
            (ServePhase::Running, ServeEvent::RunEnded(None)) => (
                Serve { phase: ServePhase::Finished },
                Ok(ServeAction::Finish),
            ),
            _ => (self, Err(UnexpectedEvent)),
        }
    }

    /// The serving after a series of events, from its start.
    pub open spec fn after(policy: AutoUpdate, events: Seq<ServeEvent>) -> Serve
        decreases events.len(),
    {
        if events.len() == 0 {
            Serve::spec_start(policy).0
        } else {
            Serve::after(policy, events.drop_last()).spec_step(events.last()).0
        }
    }

    /// What is to be done after a series of events, from the start: the
    /// first action where there is no event yet, and what the last event is
    /// answered with else.
    pub open spec fn action_after(policy: AutoUpdate, events: Seq<ServeEvent>) -> Result<
        ServeAction,
        UnexpectedEvent,
    > {
        if events.len() == 0 {
            Ok(Serve::spec_start(policy).1)
        } else {
            Serve::after(policy, events.drop_last()).spec_step(events.last()).1
        }
    }

    /// The events of a serving in which nothing fails: the answer
    /// `available` to the question for an update, where it is asked, and
    /// the runs that end as `runs` says, each with what follows it.
    pub open spec fn events_of(
        policy: AutoUpdate,
        available: Option<ResolvedVersionReq>,
        runs: Seq<Option<ResolvedVersionReq>>,
    ) -> Seq<ServeEvent> {
        Serve::preparation(policy, available) + Serve::events_of_runs(runs)
    }

    /// The events before the first run in a serving in which nothing
    /// fails.
    pub open spec fn preparation(
        policy: AutoUpdate,
        available: Option<ResolvedVersionReq>,
    ) -> Seq<ServeEvent> {
        if !policy.spec_on_start() {
            Seq::empty()
        } else if available is Some {
            seq![ServeEvent::Update(available), ServeEvent::Updated, ServeEvent::ModsUpdated]
        } else {
            seq![ServeEvent::Update(available), ServeEvent::ModsUpdated]
        }
    }

    /// The events of runs that end as `runs` says, in a serving in which
    /// nothing fails: after a run that ends for an update, the update and
    /// the mods.
    pub open spec fn events_of_runs(runs: Seq<Option<ResolvedVersionReq>>) -> Seq<ServeEvent>
        decreases runs.len(),
    {
        if runs.len() == 0 {
            Seq::empty()
        } else if runs.last() is Some {
            Serve::events_of_runs(runs.drop_last()) + seq![
                ServeEvent::RunEnded(runs.last()),
                ServeEvent::Updated,
                ServeEvent::ModsUpdated,
            ]
        } else {
            Serve::events_of_runs(runs.drop_last()) + seq![ServeEvent::RunEnded(runs.last())]
        }
    }

    /// Begins the serving of a server with the given update policy.
    pub fn start(policy: AutoUpdate) -> (r: (Serve, ServeAction))
        ensures
            r == Self::spec_start(policy),
    {
        if policy.on_start() {
            (Serve { phase: ServePhase::Checking }, ServeAction::CheckUpdate)
        } else {
            (Serve { phase: ServePhase::Running }, ServeAction::RunOnce)
        }
    }

    /// Takes what came of the last action and says what to do next.
    pub fn step(&mut self, event: ServeEvent) -> (r: Result<ServeAction, UnexpectedEvent>)
        ensures
            (*final(self), r) == old(self).spec_step(event),
    {
        match (self.phase, event) {
            (ServePhase::Finished, _) => Err(UnexpectedEvent),
            (_, ServeEvent::Failed) => {
                self.phase = ServePhase::Finished;
                Ok(ServeAction::Finish)
            },
            (ServePhase::Checking, ServeEvent::Update(Some(update))) => {
                self.phase = ServePhase::Updating;
                Ok(ServeAction::Update(update))
            },
            (ServePhase::Checking, ServeEvent::Update(None)) => {
                self.phase = ServePhase::UpdatingMods;
                Ok(ServeAction::UpdateMods)
            },
            (ServePhase::Updating, ServeEvent::Updated) => {
                self.phase = ServePhase::UpdatingMods;
                Ok(ServeAction::UpdateMods)
            },
            (ServePhase::UpdatingMods, ServeEvent::ModsUpdated) => {
                self.phase = ServePhase::Running;
                Ok(ServeAction::RunOnce)
            },
            (ServePhase::Running, ServeEvent::RunEnded(Some(update))) => {
                self.phase = ServePhase::Updating;
                Ok(ServeAction::Update(update))
            },
            (ServePhase::Running, ServeEvent::RunEnded(None)) => {
                self.phase = ServePhase::Finished;
                Ok(ServeAction::Finish)
            },
            _ => Err(UnexpectedEvent),
        }
    }
}

/// Before the first run, unless the policy is never to update, an update
/// that is available is applied and the mods are fetched anew, once; then
/// the server runs. Under the policy never to update the server runs at
/// once.
pub proof fn lemma_first_run(policy: AutoUpdate, available: Option<ResolvedVersionReq>)
    ensures
        ({
            let (start, first) = Serve::spec_start(policy);
            if !policy.spec_on_start() {
                first == ServeAction::RunOnce && start.phase == ServePhase::Running
            } else {
                let (asked, second) = start.spec_step(ServeEvent::Update(available));
                &&& first == ServeAction::CheckUpdate
                &&& match available {
                    Some(update) => {
                        let (updated, third) = asked.spec_step(ServeEvent::Updated);
                        let (ready, fourth) = updated.spec_step(ServeEvent::ModsUpdated);
                        &&& second == Ok::<ServeAction, UnexpectedEvent>(
                            ServeAction::Update(update),
                        )
                        &&& third == Ok::<ServeAction, UnexpectedEvent>(ServeAction::UpdateMods)
                        &&& fourth == Ok::<ServeAction, UnexpectedEvent>(ServeAction::RunOnce)
                        &&& ready.phase == ServePhase::Running
                    },
                    None => {
                        let (ready, third) = asked.spec_step(ServeEvent::ModsUpdated);
                        &&& second == Ok::<ServeAction, UnexpectedEvent>(ServeAction::UpdateMods)
                        &&& third == Ok::<ServeAction, UnexpectedEvent>(ServeAction::RunOnce)
                        &&& ready.phase == ServePhase::Running
                    },
                }
            }
        }),
{
}

/// After a run that ended for an update, the update is applied, the mods
/// are fetched anew, and the server runs again.
pub proof fn lemma_runs_again(serve: Serve, update: ResolvedVersionReq)
    requires
        serve.phase == ServePhase::Running,
    ensures
        ({
            let (ended, first) = serve.spec_step(ServeEvent::RunEnded(Some(update)));
            let (updated, second) = ended.spec_step(ServeEvent::Updated);
            let (ready, third) = updated.spec_step(ServeEvent::ModsUpdated);
            &&& first == Ok::<ServeAction, UnexpectedEvent>(ServeAction::Update(update))
            &&& second == Ok::<ServeAction, UnexpectedEvent>(ServeAction::UpdateMods)
            &&& third == Ok::<ServeAction, UnexpectedEvent>(ServeAction::RunOnce)
            &&& ready == serve
        }),
{
}

/// A run that ended for no update ends the serving, and so does an action
/// that failed. Once the serving is over no event is taken: nothing runs,
/// and nothing is updated.
pub proof fn lemma_finish_is_final(serve: Serve, event: ServeEvent)
    ensures
        serve.phase == ServePhase::Running ==> serve.spec_step(ServeEvent::RunEnded(None)) == (
            Serve { phase: ServePhase::Finished },
            Ok::<ServeAction, UnexpectedEvent>(ServeAction::Finish),
        ),
        serve.phase != ServePhase::Finished ==> serve.spec_step(ServeEvent::Failed) == (
            Serve { phase: ServePhase::Finished },
            Ok::<ServeAction, UnexpectedEvent>(ServeAction::Finish),
        ),
        serve.phase == ServePhase::Finished ==> serve.spec_step(event) == (
            serve,
            Err::<ServeAction, UnexpectedEvent>(UnexpectedEvent),
        ),
{
}

/// The server runs only at the start of a serving that does not update, or
/// when the mods have been fetched anew; and it is brought to a version
/// only when that version was found available or a run ended for it.
pub proof fn lemma_what_comes_before(serve: Serve, event: ServeEvent)
    ensures
        serve.spec_step(event).1 == Ok::<ServeAction, UnexpectedEvent>(ServeAction::RunOnce) ==> {
            &&& serve.phase == ServePhase::UpdatingMods
            &&& event == ServeEvent::ModsUpdated
        },
        forall|update: ResolvedVersionReq|
            serve.spec_step(event).1 == Ok::<ServeAction, UnexpectedEvent>(
                ServeAction::Update(update),
            ) ==> {
                ||| serve.phase == ServePhase::Checking && event == ServeEvent::Update(
                    Some(update),
                )
                ||| serve.phase == ServePhase::Running && event == ServeEvent::RunEnded(
                    Some(update),
                )
            },
{
}

/// One more event of a serving is one more step.
proof fn lemma_after_push(policy: AutoUpdate, events: Seq<ServeEvent>, event: ServeEvent)
    ensures
        Serve::after(policy, events.push(event)) == Serve::after(policy, events).spec_step(
            event,
        ).0,
        Serve::action_after(policy, events.push(event)) == Serve::after(policy, events).spec_step(
            event,
        ).1,
{
    assert(events.push(event).drop_last() =~= events);
}

/// Where nothing fails and every run but the last ends for an update, the
/// serving stands at a run after the events of all runs but the last, and
/// is over after the last run, which ends for no update: the server has
/// run as often as `runs` is long, and no event is taken after that.
pub proof fn lemma_serving_runs(
    policy: AutoUpdate,
    available: Option<ResolvedVersionReq>,
    runs: Seq<Option<ResolvedVersionReq>>,
)
    requires
        forall|i: int| 0 <= i < runs.len() ==> (#[trigger] runs[i]) is Some,
    ensures
        Serve::after(policy, Serve::events_of(policy, available, runs)).phase
            == ServePhase::Running,
        Serve::action_after(policy, Serve::events_of(policy, available, runs)) == Ok::<
            ServeAction,
            UnexpectedEvent,
        >(ServeAction::RunOnce),
        Serve::after(policy, Serve::events_of(policy, available, runs.push(None))).phase
            == ServePhase::Finished,
        Serve::action_after(policy, Serve::events_of(policy, available, runs.push(None)))
            == Ok::<ServeAction, UnexpectedEvent>(ServeAction::Finish),
    decreases runs.len(),
{
    let before = Serve::preparation(policy, available);
    if runs.len() == 0 {
        assert(Serve::events_of_runs(runs) =~= Seq::empty());
        assert(Serve::events_of(policy, available, runs) =~= before);
        lemma_first_run(policy, available);
        if policy.spec_on_start() {
            let e0 = Seq::<ServeEvent>::empty();
            let e1 = e0.push(ServeEvent::Update(available));
            lemma_after_push(policy, e0, ServeEvent::Update(available));
            if available is Some {
                let e2 = e1.push(ServeEvent::Updated);
                lemma_after_push(policy, e1, ServeEvent::Updated);
                lemma_after_push(policy, e2, ServeEvent::ModsUpdated);
                assert(before =~= e2.push(ServeEvent::ModsUpdated));
            } else {
                lemma_after_push(policy, e1, ServeEvent::ModsUpdated);
                assert(before =~= e1.push(ServeEvent::ModsUpdated));
            }
        }
    } else {
        let earlier = runs.drop_last();
        lemma_serving_runs(policy, available, earlier);
        let e0 = Serve::events_of(policy, available, earlier);
        let ended = ServeEvent::RunEnded(runs.last());
        let e1 = e0.push(ended);
        let e2 = e1.push(ServeEvent::Updated);
        lemma_after_push(policy, e0, ended);
        lemma_after_push(policy, e1, ServeEvent::Updated);
        lemma_after_push(policy, e2, ServeEvent::ModsUpdated);
        assert(Serve::events_of(policy, available, runs) =~= e2.push(ServeEvent::ModsUpdated));
    }
    let so_far = Serve::events_of(policy, available, runs);
    let all = runs.push(None);
    assert(all.drop_last() =~= runs);
    assert(Serve::events_of(policy, available, all) =~= so_far.push(ServeEvent::RunEnded(None)));
    lemma_after_push(policy, so_far, ServeEvent::RunEnded(None));
}

} // verus!
