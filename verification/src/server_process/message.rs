//! The messages between the supervisor of a run and its owner.

use vstd::prelude::*;
use crate::server_process::{RunningServer, RunningServerView};

verus! {

/// What the owner asks of the supervisor.
#[derive(Debug, Clone, Copy, PartialEq, Eq, Structural)]
pub enum ToServer {
    /// Stop the server gracefully.
    Shutdown,
    /// Report the server's state.
    GetState,
}

/// What the supervisor tells its owner.
#[derive(Debug, Clone)]
pub enum FromServer {
    /// The server has entered the game for the first time.
    StartupComplete,
    /// The answer to `GetState`.
    State(RunningServer),
}

/// What the supervisor tells its owner, over the model of the server.
pub enum FromServerView {
    StartupComplete,
    State(RunningServerView),
}

impl View for FromServer {
    type V = FromServerView;

    open spec fn view(&self) -> FromServerView {
        match self {
            FromServer::StartupComplete => FromServerView::StartupComplete,
            FromServer::State(s) => FromServerView::State(s@),
        }
    }
}

} // verus!
