//! The supervisor of one run of the server: what it does with each command
//! of its owner and each line of the server's output.
//!
//! The supervisor itself neither reads nor writes: whoever runs it hands it
//! one event at a time and carries out the reaction.

use vstd::prelude::*;
use crate::error::{ServerError, ServerErrorView};
use crate::log_line::classify;
use crate::server_process::message::{FromServer, FromServerView, ToServer};
use crate::server_process::{RunningServer, RunningServerState, RunningServerView};

verus! {

/// What reaches the supervisor.
#[derive(Debug, Clone)]
pub enum SupervisorEvent {
    /// A command of the owner.
    Command(ToServer),
    /// A line of the server's output.
    Line(String),
    /// The server's output has ended.
    EndOfOutput,
}

/// What reaches the supervisor, over sequences of characters.
pub enum SupervisorEventView {
    Command(ToServer),
    Line(Seq<char>),
    EndOfOutput,
}

impl View for SupervisorEvent {
    type V = SupervisorEventView;

    open spec fn view(&self) -> SupervisorEventView {
        match self {
            SupervisorEvent::Command(c) => SupervisorEventView::Command(*c),
            SupervisorEvent::Line(l) => SupervisorEventView::Line(l@),
            SupervisorEvent::EndOfOutput => SupervisorEventView::EndOfOutput,
        }
    }
}

/// What the supervisor does in answer to an event.
#[derive(Debug, Clone)]
pub struct Reaction {
    /// Send the server process an interrupt, so that it saves and quits.
    pub interrupt_child: bool,
    /// Tell the owner this.
    pub message: Option<FromServer>,
    /// Take no more events: drain the output, and wait for the process.
    pub finished: bool,
}

/// What the supervisor does in answer to an event, over the model.
pub struct ReactionView {
    pub interrupt_child: bool,
    pub message: Option<FromServerView>,
    pub finished: bool,
}

impl View for Reaction {
    type V = ReactionView;

    open spec fn view(&self) -> ReactionView {
        ReactionView {
            interrupt_child: self.interrupt_child,
            message: match self.message {
                Some(m) => Some(m@),
                None => None,
            },
            finished: self.finished,
        }
    }
}

impl ReactionView {
    /// The reaction to an event that is not taken: nothing is done.
    pub open spec fn ignored() -> ReactionView {
        ReactionView { interrupt_child: false, message: None, finished: true }
    }
}

/// The view of a reaction that may be a fault instead.
pub open spec fn reaction_view(r: Result<Reaction, ServerError>) -> Result<
    ReactionView,
    ServerErrorView,
> {
    match r {
        Ok(reaction) => Ok(reaction@),
        Err(e) => Err(e@),
    }
}

/// The state of a supervisor.
pub struct SupervisorView {
    /// What is known of the server.
    pub server: RunningServerView,
    /// Whether the owner has been told that startup is complete.
    pub startup_complete: bool,
    /// Whether the supervisor has stopped taking events.
    pub finished: bool,
}

impl SupervisorView {
    /// The supervisor of a server that has just been started.
    pub open spec fn initial() -> SupervisorView {
        SupervisorView {
            server: RunningServerView::initial(),
            startup_complete: false,
            finished: false,
        }
    }

    /// What an event makes of the supervisor, and the reaction to it.
    ///
    /// `Shutdown` has the process interrupted and ends the supervisor's work.
    /// `GetState` is answered with the server as it is. A line is applied to
    /// the server; a fault ends the work and is handed on. The first line
    /// that brings the server into the game is answered with
    /// `StartupComplete`, and a line that brings it to `Closed` ends the
    /// work, as does the end of the output. No other state ends it: a
    /// server that reports `Failed` or `InitializationFailed` is supervised
    /// on, until it closes or its output ends. Once the work has ended, no
    /// event is taken.
    pub open spec fn step(self, event: SupervisorEventView) -> (
        SupervisorView,
        Result<ReactionView, ServerErrorView>,
    ) {
        if self.finished {
            (self, Ok(ReactionView::ignored()))
        } else {
            match event {
                SupervisorEventView::Command(ToServer::Shutdown) => (
                    SupervisorView { finished: true, ..self },
                    Ok(ReactionView { interrupt_child: true, message: None, finished: true }),
                ),
                SupervisorEventView::Command(ToServer::GetState) => (
                    self,
                    Ok(
                        ReactionView {
                            interrupt_child: false,
                            message: Some(FromServerView::State(self.server)),
                            finished: false,
                        },
                    ),
                ),
                SupervisorEventView::EndOfOutput => (
                    SupervisorView { finished: true, ..self },
                    Ok(ReactionView { interrupt_child: false, message: None, finished: true }),
                ),
                SupervisorEventView::Line(line) => {
                    let (server, outcome) = self.server.apply(classify(line));
                    match outcome {
                        Err(e) => (SupervisorView { finished: true, ..self }, Err(e)),
                        Ok(()) => {
                            let startup = !self.startup_complete && server.state
                                == RunningServerState::InGame;
                            let closed = server.state == RunningServerState::Closed;
                            (
                                SupervisorView {
                                    server,
                                    startup_complete: self.startup_complete || startup,
                                    finished: closed,
                                },
                                Ok(
                                    ReactionView {
                                        interrupt_child: false,
                                        message: if startup {
                                            Some(FromServerView::StartupComplete)
                                        } else {
                                            None
                                        },
                                        finished: closed,
                                    },
                                ),
                            )
                        },
                    }
                },
            }
        }
    }

    /// What holds of a supervisor at any time of a run: once the server has
    /// been in the game the owner has been told, and once the server is
    /// closed the work has ended.
    pub open spec fn consistent(self) -> bool {
        &&& self.server.state == RunningServerState::InGame ==> self.startup_complete
        &&& self.server.state == RunningServerState::Closed ==> self.finished
    }

    /// The supervisor after a run of events, from the start.
    pub open spec fn after(events: Seq<SupervisorEventView>) -> SupervisorView
        decreases events.len(),
    {
        if events.len() == 0 {
            SupervisorView::initial()
        } else {
            SupervisorView::after(events.drop_last()).step(events.last()).0
        }
    }

    /// The reaction to the event at position `k` of a run.
    pub open spec fn reaction(events: Seq<SupervisorEventView>, k: int) -> Result<
        ReactionView,
        ServerErrorView,
    > {
        SupervisorView::after(events.take(k)).step(events[k]).1
    }

    /// Whether the event at position `k` of a run is answered with
    /// `StartupComplete`.
    pub open spec fn announces_startup(events: Seq<SupervisorEventView>, k: int) -> bool {
        match SupervisorView::reaction(events, k) {
            Ok(r) => r.message == Some(FromServerView::StartupComplete),
            Err(_) => false,
        }
    }

    /// The state of the server after the first `k` events of a run.
    pub open spec fn state_after(events: Seq<SupervisorEventView>, k: int) -> RunningServerState {
        SupervisorView::after(events.take(k)).server.state
    }
}

/// One more event of a run is one more step.
pub proof fn lemma_after_next(events: Seq<SupervisorEventView>, k: int)
    requires
        0 <= k < events.len(),
    ensures
        SupervisorView::after(events.take(k + 1)) == SupervisorView::after(events.take(k)).step(
            events[k],
        ).0,
{
    assert(events.take(k + 1).drop_last() =~= events.take(k));
    assert(events.take(k + 1).last() == events[k]);
}

/// At any time of a run the supervisor is consistent, and the owner has
/// been told of the startup if and only if the server has been in the game.
pub proof fn lemma_run_consistent(events: Seq<SupervisorEventView>, k: int)
    requires
        0 <= k <= events.len(),
    ensures
        SupervisorView::after(events.take(k)).consistent(),
        SupervisorView::after(events.take(k)).startup_complete <==> exists|m: int|
            0 <= m <= k && #[trigger] SupervisorView::state_after(events, m)
                == RunningServerState::InGame,
    decreases k,
{
    if k == 0 {
        assert(events.take(0).len() == 0);
        assert forall|m: int| 0 <= m <= 0 implies #[trigger] SupervisorView::state_after(events, m)
            != RunningServerState::InGame by {
            assert(events.take(m).len() == 0);
        }
    } else {
        lemma_run_consistent(events, k - 1);
        lemma_after_next(events, k - 1);
        let before = SupervisorView::after(events.take(k - 1));
        let now = SupervisorView::after(events.take(k));
        assert(SupervisorView::state_after(events, k) == now.server.state);
        assert(SupervisorView::state_after(events, k - 1) == before.server.state);
        if now.startup_complete {
            if before.startup_complete {
                let m = choose|m: int|
                    0 <= m <= k - 1 && #[trigger] SupervisorView::state_after(events, m)
                        == RunningServerState::InGame;
                assert(0 <= m <= k);
            } else {
                assert(SupervisorView::state_after(events, k) == RunningServerState::InGame);
            }
        }
        if exists|m: int|
            0 <= m <= k && #[trigger] SupervisorView::state_after(events, m)
                == RunningServerState::InGame {
            let m = choose|m: int|
                0 <= m <= k && #[trigger] SupervisorView::state_after(events, m)
                    == RunningServerState::InGame;
            if m < k {
                assert(before.startup_complete);
            }
            assert(now.startup_complete);
        }
    }
}

/// The owner is told that startup is complete by the event that brings the
/// server into the game for the first time, and by no other.
pub proof fn lemma_startup_on_first_entry(events: Seq<SupervisorEventView>, k: int)
    requires
        0 <= k < events.len(),
    ensures
        SupervisorView::announces_startup(events, k) <==> {
            &&& SupervisorView::state_after(events, k + 1) == RunningServerState::InGame
            &&& forall|m: int|
                0 <= m <= k ==> #[trigger] SupervisorView::state_after(events, m)
                    != RunningServerState::InGame
        },
{
    lemma_run_consistent(events, k);
    lemma_after_next(events, k);
}

/// The owner is told at most once in a run that startup is complete.
pub proof fn lemma_startup_at_most_once(events: Seq<SupervisorEventView>, i: int, j: int)
    requires
        0 <= i < j < events.len(),
    ensures
        !(SupervisorView::announces_startup(events, i) && SupervisorView::announces_startup(
            events,
            j,
        )),
{
    lemma_startup_on_first_entry(events, i);
    lemma_startup_on_first_entry(events, j);
    if SupervisorView::announces_startup(events, i) && SupervisorView::announces_startup(
        events,
        j,
    ) {
        assert(SupervisorView::state_after(events, i + 1) == RunningServerState::InGame);
    }
}

/// A line ends the supervisor's work only if it brings the server to
/// `Closed` or reports a fault.
pub proof fn lemma_only_closed_ends(supervisor: SupervisorView, line: Seq<char>)
    requires
        !supervisor.finished,
    ensures
        ({
            let (next, reaction) = supervisor.step(SupervisorEventView::Line(line));
            next.finished <==> (reaction is Err || next.server.state
                == RunningServerState::Closed)
        }),
{
}

/// Once the server is closed nothing more happens: every later event is
/// ignored and leaves the supervisor as it is.
pub proof fn lemma_closed_halts(events: Seq<SupervisorEventView>, k: int, later: int)
    requires
        0 <= k <= later < events.len(),
        SupervisorView::state_after(events, k) == RunningServerState::Closed,
    ensures
        SupervisorView::after(events.take(later + 1)) == SupervisorView::after(events.take(k)),
        SupervisorView::reaction(events, later) == Ok::<ReactionView, ServerErrorView>(
            ReactionView::ignored(),
        ),
    decreases later - k,
{
    lemma_run_consistent(events, k);
    lemma_after_next(events, later);
    if later > k {
        lemma_closed_halts(events, k, later - 1);
    }
}

/// The supervisor of one run of the server.
#[derive(Debug)]
pub struct Supervisor {
    server: RunningServer,
    startup_complete: bool,
    finished: bool,
}

impl View for Supervisor {
    type V = SupervisorView;

    closed spec fn view(&self) -> SupervisorView {
        SupervisorView {
            server: self.server@,
            startup_complete: self.startup_complete,
            finished: self.finished,
        }
    }
}

impl Supervisor {
    /// The supervisor of a server that has just been started.
    pub fn new() -> (r: Supervisor)
        ensures
            r@ == SupervisorView::initial(),
    {
        Supervisor { server: RunningServer::new(), startup_complete: false, finished: false }
    }

    /// Whether the supervisor has stopped taking events.
    pub fn is_finished(&self) -> (r: bool)
        ensures
            r == self@.finished,
    {
        self.finished
    }

    /// What is known of the server.
    pub fn server(&self) -> (r: &RunningServer)
        ensures
            r@ == self@.server,
    {
        &self.server
    }

    /// Takes one event and says what is to be done.
    pub fn step(&mut self, event: SupervisorEvent) -> (r: Result<Reaction, ServerError>)
        ensures
            (final(self)@, reaction_view(r)) == old(self)@.step(event@),
    {
        if self.finished {
            return Ok(Reaction { interrupt_child: false, message: None, finished: true });
        }
        match event {
            SupervisorEvent::Command(ToServer::Shutdown) => {
                self.finished = true;
                Ok(Reaction { interrupt_child: true, message: None, finished: true })
            },
            SupervisorEvent::Command(ToServer::GetState) => {
                let snapshot = self.server.clone();
                Ok(
                    Reaction {
                        interrupt_child: false,
                        message: Some(FromServer::State(snapshot)),
                        finished: false,
                    },
                )
            },
            SupervisorEvent::EndOfOutput => {
                self.finished = true;
                Ok(Reaction { interrupt_child: false, message: None, finished: true })
            },
            SupervisorEvent::Line(line) => {
                match self.server.new_line(line.as_str()) {
                    Err(e) => {
                        self.finished = true;
                        Err(e)
                    },
                    Ok(()) => {
                        let state = self.server.state();
                        let startup = !self.startup_complete && state
                            == RunningServerState::InGame;
                        let closed = state == RunningServerState::Closed;
                        if startup {
                            self.startup_complete = true;
                        }
                        self.finished = closed;
                        Ok(
                            Reaction {
                                interrupt_child: false,
                                message: if startup {
                                    Some(FromServer::StartupComplete)
                                } else {
                                    None
                                },
                                finished: closed,
                            },
                        )
                    },
                }
            },
        }
    }
}

} // verus!
