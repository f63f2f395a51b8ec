//! The faults that the library reports.

use vstd::prelude::*;
use vstd::string::StringExecFns;
use crate::text::{debug_string, debug_text};
use crate::version::{Version, VersionReq};

verus! {

/// A text that was read as a version number and is none.
#[derive(Debug, Clone)]
pub enum InvalidVersionNumber {
    /// The text is no `major.minor.patch`.
    Version(String),
    /// The text is no `major.minor`.
    Version2(String),
}

impl InvalidVersionNumber {
    /// The fault in words: the rejected text, quoted, and the form that was
    /// asked for.
    pub open spec fn message_text(self) -> Seq<char> {
        match self {
            InvalidVersionNumber::Version(s) => "Invalid version number: "@ + debug_text(s@)
                + " (required major.minor.patch)"@,
            InvalidVersionNumber::Version2(s) => "Invalid version number: "@ + debug_text(s@)
                + " (required major.minor)"@,
        }
    }

    /// The fault in words.
    pub fn message(&self) -> (r: String)
        ensures
            r@ == self.message_text(),
    {
        let mut out = "Invalid version number: ".to_owned();
        match self {
            InvalidVersionNumber::Version(s) => {
                out.append(debug_string(s.as_str()).as_str());
                out.append(" (required major.minor.patch)");
            },
            InvalidVersionNumber::Version2(s) => {
                out.append(debug_string(s.as_str()).as_str());
                out.append(" (required major.minor)");
            },
        }
        out
    }
}

/// No download is offered for a version.
#[derive(Debug, Clone, Copy, PartialEq, Eq, Structural)]
#[must_use]
pub struct NoDownloadAvailable(pub Version);

impl NoDownloadAvailable {
    /// The fault in words.
    pub fn message(&self) -> (r: String)
        ensures
            r@ == "No download link available for version "@ + self.0.debug_text(),
    {
        let mut out = "No download link available for version ".to_owned();
        out.append(self.0.debug_string().as_str());
        out
    }
}

/// A world of that name exists already.
#[derive(Debug, Clone)]
#[must_use]
pub struct WorldAlreadyExists(pub String);

impl WorldAlreadyExists {
    /// The fault in words.
    pub fn message(&self) -> (r: String)
        ensures
            r@ == "World "@ + self.0@ + " already exists"@,
    {
        let mut out = "World ".to_owned();
        out.append(self.0.as_str());
        out.append(" already exists");
        out
    }
}

/// There is no world of that name.
#[derive(Debug, Clone)]
#[must_use]
pub struct NoSuchWorld(pub String);

impl NoSuchWorld {
    /// The fault in words.
    pub fn message(&self) -> (r: String)
        ensures
            r@ == "World "@ + self.0@ + " does not exist"@,
    {
        let mut out = "World ".to_owned();
        out.append(self.0.as_str());
        out.append(" does not exist");
        out
    }
}

/// There is no mod of that name.
#[derive(Debug, Clone)]
#[must_use]
pub struct NoSuchMod(pub String);

impl NoSuchMod {
    /// The fault in words.
    pub fn message(&self) -> (r: String)
        ensures
            r@ == "No mod named "@ + debug_text(self.0@),
    {
        let mut out = "No mod named ".to_owned();
        out.append(debug_string(self.0.as_str()).as_str());
        out
    }
}

/// No release of a mod supports a version of the game.
#[derive(Debug, Clone)]
#[must_use]
pub struct NoMatchingModVersions(pub String, pub Version);

impl NoMatchingModVersions {
    /// The fault in words.
    pub fn message(&self) -> (r: String)
        ensures
            r@ == "No supported versions of mod "@ + debug_text(self.0@)
                + " for Factorio version "@ + self.1.debug_text(),
    {
        let mut out = "No supported versions of mod ".to_owned();
        out.append(debug_string(self.0.as_str()).as_str());
        out.append(" for Factorio version ");
        out.append(self.1.debug_string().as_str());
        out
    }
}

/// The version that is asked for is older than the one in use.
#[derive(Debug, Clone)]
#[must_use]
pub struct DowngradingNotAllowed {
    pub current: Version,
    pub requested: VersionReq,
}

impl DowngradingNotAllowed {
    /// The fault in words.
    pub fn message(&self) -> (r: String)
        ensures
            r@ == "Current server version ("@ + self.current.text()
                + ") is newer than the requested one ("@ + self.requested.display_text() + ")"@,
    {
        let mut out = "Current server version (".to_owned();
        out.append(self.current.to_string().as_str());
        out.append(") is newer than the requested one (");
        out.append(self.requested.to_string().as_str());
        out.append(")");
        out
    }
}

/// Data that the program keeps for itself is not what it wrote.
#[derive(Debug, Clone)]
pub struct InternalDataModified(pub String);

impl InternalDataModified {
    /// The fault in words.
    pub fn message(&self) -> (r: String)
        ensures
            r@ == "Internal data was modified incorrectly: "@ + self.0@,
    {
        let mut out = "Internal data was modified incorrectly: ".to_owned();
        out.append(self.0.as_str());
        out
    }
}

/// The mod portal was asked without credentials.
#[derive(Debug, Clone, Copy, PartialEq, Eq, Structural)]
pub struct NotLoggedIn;

impl NotLoggedIn {
    /// The fault in words.
    pub fn message(&self) -> (r: String)
        ensures
            r@ == "Log in first with `facts login USERNAME PASSWORD`"@,
    {
        "Log in first with `facts login USERNAME PASSWORD`".to_owned()
    }
}

/// The mod portal refused the credentials, with this reason.
#[derive(Debug, Clone)]
pub struct LoginFailed(pub String);

impl LoginFailed {
    /// The fault in words.
    pub fn message(&self) -> (r: String)
        ensures
            r@ == "Login failed: "@ + self.0@,
    {
        let mut out = "Login failed: ".to_owned();
        out.append(self.0.as_str());
        out
    }
}

/// A fault that ends a supervised run.
#[derive(Debug, Clone)]
pub enum ServerError {
    /// The server could not bind its port: another server is using it.
    PortUnavailable,
    /// The server reported a fatal error that is not known; holds its message.
    UnknownError(String),
    /// The server changed to a lifecycle state that is not known; holds its name.
    UnknownState(String),
    /// The server reported that a player joined or left, and named nobody.
    MissingPlayerName,
}

/// A fault that ends a supervised run, over sequences of characters.
pub enum ServerErrorView {
    PortUnavailable,
    UnknownError(Seq<char>),
    UnknownState(Seq<char>),
    MissingPlayerName,
}

impl View for ServerError {
    type V = ServerErrorView;

    open spec fn view(&self) -> ServerErrorView {
        match self {
            ServerError::PortUnavailable => ServerErrorView::PortUnavailable,
            ServerError::UnknownError(m) => ServerErrorView::UnknownError(m@),
            ServerError::UnknownState(n) => ServerErrorView::UnknownState(n@),
            ServerError::MissingPlayerName => ServerErrorView::MissingPlayerName,
        }
    }
}

impl ServerError {
    /// The fault in words.
    pub open spec fn message_text(self) -> Seq<char> {
        match self {
            ServerError::PortUnavailable =>
                "UDP port already in use. Is there another server running?"@,
            ServerError::UnknownError(m) => "Unknown Factorio server error: "@ + debug_text(m@),
            ServerError::UnknownState(n) => "Unknown state "@ + n@,
            ServerError::MissingPlayerName => "Event names no player"@,
        }
    }

    /// The fault in words.
    pub fn message(&self) -> (r: String)
        ensures
            r@ == self.message_text(),
    {
        match self {
            ServerError::PortUnavailable => {
                "UDP port already in use. Is there another server running?".to_owned()
            },
            ServerError::UnknownError(m) => {
                let mut out = "Unknown Factorio server error: ".to_owned();
                out.append(debug_string(m.as_str()).as_str());
                out
            },
            ServerError::UnknownState(n) => {
                let mut out = "Unknown state ".to_owned();
                out.append(n.as_str());
                out
            },
            ServerError::MissingPlayerName => "Event names no player".to_owned(),
        }
    }

    /// Whether the run can be started again once the operator has removed the
    /// cause. The other faults mean that the server's log is not understood.
    pub fn is_recoverable(&self) -> (r: bool)
        ensures
            r == (self@ is PortUnavailable),
    {
        match self {
            ServerError::PortUnavailable => true,
            _ => false,
        }
    }
}

} // verus!
