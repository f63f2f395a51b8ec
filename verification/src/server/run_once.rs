//! One run of the server, from its startup to the decision to stop it: the
//! owner's side of the supervision, with the checks for updates.
//!
//! The run itself neither waits nor sends: whoever drives it carries out
//! each action and hands back what came of it.

use vstd::prelude::*;
use crate::config::AutoUpdate;
use crate::server_process::message::{FromServer, FromServerView};
use crate::version::ResolvedVersionReq;

verus! {

/// The time to sleep between two looks at the interrupt flag, in
/// milliseconds.
pub const POLL_MILLIS: u64 = 50;

/// The number of sleeps in one minute.
pub const TICKS_PER_MINUTE: u64 = 1200;

/// Where a run stands.
#[derive(Debug, Clone, Copy, PartialEq, Eq, Structural)]
pub enum RunPhase {
    /// The server is starting.
    AwaitingStartup,
    /// Between two checks, about to look at the interrupt flag; so many
    /// sleeps are left until the next check.
    Polling { ticks_left: u64 },
    /// Between two checks, asleep.
    Sleeping { ticks_left: u64 },
    /// Asking whether an update is available.
    Checking,
    /// An update is available, and the server has been asked who is online.
    Querying { update: ResolvedVersionReq },
    /// The run is over, with this update to apply before the next.
    Stopped { pending: Option<ResolvedVersionReq> },
}

/// What the driver of a run is to do next.
#[derive(Debug, Clone, Copy, PartialEq, Eq, Structural)]
pub enum RunAction {
    /// Wait for the next message of the supervisor, and hand it back.
    Receive,
    /// Read the interrupt flag, and hand it back.
    PollInterrupt,
    /// Sleep for so many milliseconds, and say so.
    Sleep(u64),
    /// Find out whether a newer version is available, and hand it back.
    CheckUpdate,
    /// Send `GetState` to the supervisor, wait for its answer and hand it
    /// back.
    Query,
    /// End the run: send `Shutdown` to the supervisor if `shutdown` says so,
    /// wait until the supervisor has finished, and apply `pending` before
    /// the next run if there is one.
    Stop { shutdown: bool, pending: Option<ResolvedVersionReq> },
}

/// What came of an action.
#[derive(Debug, Clone)]
pub enum RunEvent {
    /// A message of the supervisor.
    Message(FromServer),
    /// The interrupt flag: whether an interrupt has arrived.
    Interrupt(bool),
    /// The sleep is over.
    Slept,
    /// The newer version that is available, if there is one.
    Update(Option<ResolvedVersionReq>),
}

/// What came of an action, over the model of the server.
pub enum RunEventView {
    Message(FromServerView),
    Interrupt(bool),
    Slept,
    Update(Option<ResolvedVersionReq>),
}

impl View for RunEvent {
    type V = RunEventView;

    open spec fn view(&self) -> RunEventView {
        match self {
            RunEvent::Message(m) => RunEventView::Message(m@),
            RunEvent::Interrupt(b) => RunEventView::Interrupt(*b),
            RunEvent::Slept => RunEventView::Slept,
            RunEvent::Update(u) => RunEventView::Update(*u),
        }
    }
}

/// An event that the run does not expect where it stands.
#[derive(Debug, Clone, Copy, PartialEq, Eq, Structural)]
pub struct UnexpectedEvent;

/// One run of the server.
#[derive(Debug, Clone, Copy, PartialEq, Eq, Structural)]
pub struct RunOnce {
    /// The update policy of the server.
    pub policy: AutoUpdate,
    /// The number of sleeps between two checks for an update.
    pub ticks: u64,
    /// Where the run stands.
    pub phase: RunPhase,
}

impl RunOnce {
    /// A run at its start, and the first thing to do: wait for the
    /// supervisor's first message.
    pub open spec fn spec_start(policy: AutoUpdate, interval_minutes: u64) -> (RunOnce, RunAction) {
        (
            RunOnce {
                policy,
                ticks: (interval_minutes * TICKS_PER_MINUTE) as u64,
                phase: RunPhase::AwaitingStartup,
            },
            RunAction::Receive,
        )
    }

    /// The run at the start of the time between two checks, and what to do
    /// then.
    pub open spec fn next_cycle(self) -> (RunOnce, RunAction) {
        if self.ticks == 0 {
            (RunOnce { phase: RunPhase::Checking, ..self }, RunAction::CheckUpdate)
        } else {
            (
                RunOnce { phase: RunPhase::Polling { ticks_left: self.ticks }, ..self },
                RunAction::PollInterrupt,
            )
        }
    }

    /// The run at its end, and the action that ends it.
    pub open spec fn stop(self, shutdown: bool, pending: Option<ResolvedVersionReq>) -> (
        RunOnce,
        RunAction,
    ) {
        (
            RunOnce { phase: RunPhase::Stopped { pending }, ..self },
            RunAction::Stop { shutdown, pending },
        )
    }

    /// What an event makes of the run, and what to do next.
    ///
    /// Once the startup is complete, a run whose policy is not live only
    /// waits for the server to end. A live run sleeps through the time
    /// between two checks in short sleeps; before each of them it looks at
    /// the interrupt flag, and an interrupt ends the run with `Shutdown` and
    /// nothing pending. After the last sleep it asks for an update. Where
    /// there is none, the next round begins. Where there is one, a forced
    /// policy ends the run with `Shutdown` and the update pending; an enabled
    /// policy first asks the server who is online, and ends the run in the
    /// same way if nobody is, else begins the next round.
    ///
    /// Any other event is not expected, and leaves the run as it is.
    pub open spec fn spec_step(self, event: RunEventView) -> (
        RunOnce,
        Result<RunAction, UnexpectedEvent>,
    ) {
        match (self.phase, event) {
            (RunPhase::AwaitingStartup, RunEventView::Message(FromServerView::StartupComplete)) => {
                let (next, action) = if self.policy.spec_live() {
                    self.next_cycle()
                } else {
                    self.stop(false, None)
                };
                (next, Ok(action))
            },
            (RunPhase::Polling { ticks_left }, RunEventView::Interrupt(interrupted)) => {
                if interrupted {
                    let (next, action) = self.stop(true, None);
                    (next, Ok(action))
                } else {
                    (
                        RunOnce { phase: RunPhase::Sleeping { ticks_left }, ..self },
                        Ok(RunAction::Sleep(POLL_MILLIS)),
                    )
                }
            },
            (RunPhase::Sleeping { ticks_left }, RunEventView::Slept) => {
                if ticks_left <= 1 {
                    (RunOnce { phase: RunPhase::Checking, ..self }, Ok(RunAction::CheckUpdate))
                } else {
                    (
                        RunOnce {
                            phase: RunPhase::Polling { ticks_left: (ticks_left - 1) as u64 },
                            ..self
                        },
                        Ok(RunAction::PollInterrupt),
                    )
                }
            },
            (RunPhase::Checking, RunEventView::Update(None)) => {
                let (next, action) = self.next_cycle();
                (next, Ok(action))
            },
            (RunPhase::Checking, RunEventView::Update(Some(update))) => {
                match self.policy {
                    AutoUpdate::Forced => {
                        let (next, action) = self.stop(true, Some(update));
                        (next, Ok(action))
                    },
                    AutoUpdate::Enabled => (
                        RunOnce { phase: RunPhase::Querying { update }, ..self },
                        Ok(RunAction::Query),
                    ),
                    _ => (self, Err(UnexpectedEvent)),
                }
            },
            (RunPhase::Querying { update }, RunEventView::Message(FromServerView::State(server))) => {
                let (next, action) = if server.players_online == Set::<Seq<char>>::empty() {
                    self.stop(true, Some(update))
                } else {
                    self.next_cycle()
                };
                (next, Ok(action))
            },
            _ => (self, Err(UnexpectedEvent)),
        }
    }

    /// The run after so many rounds of a look at the interrupt flag, which
    /// is not set, and a sleep.
    pub open spec fn slept(self, rounds: nat) -> RunOnce
        decreases rounds,
    {
        if rounds == 0 {
            self
        } else {
            self.spec_step(RunEventView::Interrupt(false)).0.spec_step(
                RunEventView::Slept,
            ).0.slept((rounds - 1) as nat)
        }
    }

    /// The run after a series of events, from its start.
    pub open spec fn after(
        policy: AutoUpdate,
        interval_minutes: u64,
        events: Seq<RunEventView>,
    ) -> RunOnce
        decreases events.len(),
    {
        if events.len() == 0 {
            RunOnce::spec_start(policy, interval_minutes).0
        } else {
            RunOnce::after(policy, interval_minutes, events.drop_last()).spec_step(
                events.last(),
            ).0
        }
    }

    /// Between two checks the run sleeps as often as it has ticks, as long
    /// as no interrupt arrives: each round takes one tick, and after the
    /// last one the run asks for an update.
    pub proof fn lemma_sleeps_between_checks(self, ticks_left: u64, rounds: nat)
        requires
            self.phase == (RunPhase::Polling { ticks_left }),
            1 <= rounds <= ticks_left,
        ensures
            self.slept(rounds) == (RunOnce {
                phase: if rounds == ticks_left {
                    RunPhase::Checking
                } else {
                    RunPhase::Polling { ticks_left: (ticks_left - rounds) as u64 }
                },
                ..self
            }),
            self.spec_step(RunEventView::Interrupt(false)).1 == Ok::<RunAction, UnexpectedEvent>(
                RunAction::Sleep(POLL_MILLIS),
            ),
        decreases rounds,
    {
        let next = self.spec_step(RunEventView::Interrupt(false)).0.spec_step(
            RunEventView::Slept,
        ).0;
        if rounds > 1 {
            next.lemma_sleeps_between_checks((ticks_left - 1) as u64, (rounds - 1) as nat);
        } else {
            assert(next.slept(0) == next);
        }
    }

    /// A run leaves its start only when the supervisor has told it that the
    /// startup is complete: whatever the run does after that, and so every
    /// question to the server, comes after this message.
    pub proof fn lemma_startup_comes_first(
        policy: AutoUpdate,
        interval_minutes: u64,
        events: Seq<RunEventView>,
    )
        requires
            RunOnce::after(policy, interval_minutes, events).phase != RunPhase::AwaitingStartup,
        ensures
            exists|k: int|
                0 <= k < events.len() && #[trigger] events[k] == RunEventView::Message(
                    FromServerView::StartupComplete,
                ),
        decreases events.len(),
    {
        if events.len() > 0 {
            let before = RunOnce::after(policy, interval_minutes, events.drop_last());
            if before.phase != RunPhase::AwaitingStartup {
                RunOnce::lemma_startup_comes_first(policy, interval_minutes, events.drop_last());
                let k = choose|k: int|
                    0 <= k < events.drop_last().len() && #[trigger] events.drop_last()[k]
                        == RunEventView::Message(FromServerView::StartupComplete);
                assert(events[k] == events.drop_last()[k]);
            } else {
                assert(events[events.len() - 1] == RunEventView::Message(
                    FromServerView::StartupComplete,
                ));
            }
        }
    }

    /// The server is asked who is online only in a run that has left its
    /// start.
    pub proof fn lemma_query_after_start(self, event: RunEventView)
        requires
            self.spec_step(event).1 == Ok::<RunAction, UnexpectedEvent>(RunAction::Query),
        ensures
            self.phase == RunPhase::Checking,
            self.policy == AutoUpdate::Enabled,
            event matches RunEventView::Update(Some(_)),
    {
    }

    /// Under the enabled policy an update does not stop a server that has
    /// players online: the next round begins. It stops a server that has
    /// none, with `Shutdown` and the update pending.
    pub proof fn lemma_enabled_waits_for_players(
        self,
        update: ResolvedVersionReq,
        server: crate::server_process::RunningServerView,
    )
        requires
            self.policy == AutoUpdate::Enabled,
            self.phase == RunPhase::Checking,
        ensures
            ({
                let (asked, query) = self.spec_step(RunEventView::Update(Some(update)));
                let (answered, action) = asked.spec_step(
                    RunEventView::Message(FromServerView::State(server)),
                );
                &&& query == Ok::<RunAction, UnexpectedEvent>(RunAction::Query)
                &&& if server.players_online == Set::<Seq<char>>::empty() {
                    action == Ok::<RunAction, UnexpectedEvent>(
                        RunAction::Stop { shutdown: true, pending: Some(update) },
                    )
                } else {
                    (answered, action) == (self.next_cycle().0, Ok::<RunAction, UnexpectedEvent>(
                        self.next_cycle().1,
                    )) && !(action matches Ok(RunAction::Stop { .. }))
                }
            }),
    {
    }

    /// Under the forced policy an update stops the server at once, with
    /// `Shutdown` and the update pending, whoever is online.
    pub proof fn lemma_forced_stops(self, update: ResolvedVersionReq)
        requires
            self.policy == AutoUpdate::Forced,
            self.phase == RunPhase::Checking,
        ensures
            self.spec_step(RunEventView::Update(Some(update))).1 == Ok::<
                RunAction,
                UnexpectedEvent,
            >(RunAction::Stop { shutdown: true, pending: Some(update) }),
    {
    }

    /// An interrupt between two checks ends the run with nothing pending.
    pub proof fn lemma_interrupt_stops(self, ticks_left: u64)
        requires
            self.phase == (RunPhase::Polling { ticks_left }),
        ensures
            self.spec_step(RunEventView::Interrupt(true)) == (
                RunOnce { phase: RunPhase::Stopped { pending: None }, ..self },
                Ok::<RunAction, UnexpectedEvent>(RunAction::Stop { shutdown: true, pending: None }),
            ),
    {
    }

    /// Begins a run of a server with the given update policy and time
    /// between two checks.
    pub fn start(policy: AutoUpdate, interval_minutes: u64) -> (r: (RunOnce, RunAction))
        requires
            interval_minutes * TICKS_PER_MINUTE <= u64::MAX,
        ensures
            r == Self::spec_start(policy, interval_minutes),
    {
        (
            RunOnce {
                policy,
                ticks: interval_minutes * TICKS_PER_MINUTE,
                phase: RunPhase::AwaitingStartup,
            },
            RunAction::Receive,
        )
    }

    /// Whether a run can count the sleeps of a time between two checks of so
    /// many minutes.
    pub fn can_count(interval_minutes: u64) -> (r: bool)
        ensures
            r == (interval_minutes * TICKS_PER_MINUTE <= u64::MAX),
    {
        interval_minutes <= u64::MAX / TICKS_PER_MINUTE
    }

    /// Begins the time between two checks.
    fn begin_cycle(&mut self) -> (r: RunAction)
        ensures
            (*final(self), r) == old(self).next_cycle(),
    {
        if self.ticks == 0 {
            self.phase = RunPhase::Checking;
            RunAction::CheckUpdate
        } else {
            self.phase = RunPhase::Polling { ticks_left: self.ticks };
            RunAction::PollInterrupt
        }
    }

    /// Ends the run.
    fn end(&mut self, shutdown: bool, pending: Option<ResolvedVersionReq>) -> (r: RunAction)
        ensures
            (*final(self), r) == old(self).stop(shutdown, pending),
    {
        self.phase = RunPhase::Stopped { pending };
        RunAction::Stop { shutdown, pending }
    }

    /// Takes what came of the last action and says what to do next.
    pub fn step(&mut self, event: RunEvent) -> (r: Result<RunAction, UnexpectedEvent>)
        ensures
            (*final(self), r) == old(self).spec_step(event@),
    {
        match (self.phase, event) {
            (RunPhase::AwaitingStartup, RunEvent::Message(FromServer::StartupComplete)) => {
                if self.policy.live() {
                    Ok(self.begin_cycle())
                } else {
                    Ok(self.end(false, None))
                }
            },
            (RunPhase::Polling { ticks_left }, RunEvent::Interrupt(interrupted)) => {
                if interrupted {
                    Ok(self.end(true, None))
                } else {
                    self.phase = RunPhase::Sleeping { ticks_left };
                    Ok(RunAction::Sleep(POLL_MILLIS))
                }
            },
            (RunPhase::Sleeping { ticks_left }, RunEvent::Slept) => {
                if ticks_left <= 1 {
                    self.phase = RunPhase::Checking;
                    Ok(RunAction::CheckUpdate)
                } else {
                    self.phase = RunPhase::Polling { ticks_left: ticks_left - 1 };
                    Ok(RunAction::PollInterrupt)
                }
            },
            (RunPhase::Checking, RunEvent::Update(None)) => Ok(self.begin_cycle()),
            (RunPhase::Checking, RunEvent::Update(Some(update))) => {
                match self.policy {
                    AutoUpdate::Forced => Ok(self.end(true, Some(update))),
                    AutoUpdate::Enabled => {
                        self.phase = RunPhase::Querying { update };
                        Ok(RunAction::Query)
                    },
                    _ => Err(UnexpectedEvent),
                }
            },
            (RunPhase::Querying { update }, RunEvent::Message(FromServer::State(server))) => {
                if server.is_empty() {
                    Ok(self.end(true, Some(update)))
                } else {
                    Ok(self.begin_cycle())
                }
            },
            _ => Err(UnexpectedEvent),
        }
    }
}

} // verus!
