//! The configuration that is kept for each server.

use vstd::prelude::*;
use crate::text::{chars_of, equals};
use crate::version::VersionReq;

verus! {

/// When the server may be restarted to apply an update.
#[derive(Debug, Clone, Copy, PartialEq, Eq, Structural)]
pub enum AutoUpdate {
    /// Kicks players out to update whenever possible.
    Forced,
    /// Restarts the server when no players are connected.
    Enabled,
    /// Only updates on startup.
    Startup,
    /// Never updates.
    Disabled,
}

impl AutoUpdate {
    /// Whether this policy takes part in update checks while the server runs.
    pub open spec fn spec_live(self) -> bool {
        self == AutoUpdate::Forced || self == AutoUpdate::Enabled
    }

    /// Whether this policy takes part in update checks while the server runs.
    #[verifier::when_used_as_spec(spec_live)]
    pub fn live(self) -> (r: bool)
        ensures
            r == self.spec_live(),
    {
        match self {
            AutoUpdate::Forced => true,
            AutoUpdate::Enabled => true,
            AutoUpdate::Startup => false,
            AutoUpdate::Disabled => false,
        }
    }

    /// Whether this policy has the server updated before it is started.
    pub open spec fn spec_on_start(self) -> bool {
        self != AutoUpdate::Disabled
    }

    /// Whether this policy has the server updated before it is started.
    #[verifier::when_used_as_spec(spec_on_start)]
    pub fn on_start(self) -> (r: bool)
        ensures
            r == self.spec_on_start(),
    {
        match self {
            AutoUpdate::Disabled => false,
            _ => true,
        }
    }

    /// The policy with the given name, if there is one.
    pub open spec fn named(name: Seq<char>) -> Option<AutoUpdate> {
        if name == "forced"@ {
            Some(AutoUpdate::Forced)
        } else if name == "enabled"@ {
            Some(AutoUpdate::Enabled)
        } else if name == "startup"@ {
            Some(AutoUpdate::Startup)
        } else if name == "disabled"@ {
            Some(AutoUpdate::Disabled)
        } else {
            None
        }
    }

    /// The policy with the given name: `forced`, `enabled`, `startup` or
    /// `disabled`.
    pub fn from_name(name: &str) -> (r: Option<AutoUpdate>)
        ensures
            r == Self::named(name@),
    {
        let v = chars_of(name);
        if equals(&v, "forced") {
            Some(AutoUpdate::Forced)
        } else if equals(&v, "enabled") {
            Some(AutoUpdate::Enabled)
        } else if equals(&v, "startup") {
            Some(AutoUpdate::Startup)
        } else if equals(&v, "disabled") {
            Some(AutoUpdate::Disabled)
        } else {
            None
        }
    }
}

/// The configuration that is kept for a server.
#[derive(Debug, Clone, PartialEq, Eq)]
pub struct MetaConfig {
    /// The version of the game to use.
    pub factorio: VersionReq,
    /// When updates are applied.
    pub autoupdate: AutoUpdate,
    /// The time between two checks for an update, in minutes.
    pub autoupdate_interval_minutes: u64,
}

/// A change to the configuration of a server: the fields to set.
#[derive(Debug, Clone, PartialEq, Eq)]
pub struct MetaConfigUpdate {
    pub factorio: Option<VersionReq>,
    pub autoupdate: Option<AutoUpdate>,
    pub autoupdate_interval_minutes: Option<u64>,
}

impl MetaConfig {
    /// Sets the fields that `update` holds, and leaves the others.
    pub fn apply_update(&mut self, update: MetaConfigUpdate)
        ensures
            final(self).factorio == (match update.factorio {
                Some(v) => v,
                None => old(self).factorio,
            }),
            final(self).autoupdate == (match update.autoupdate {
                Some(v) => v,
                None => old(self).autoupdate,
            }),
            final(self).autoupdate_interval_minutes == (match update.autoupdate_interval_minutes {
                Some(v) => v,
                None => old(self).autoupdate_interval_minutes,
            }),
    {
        if let Some(v) = update.factorio {
            self.factorio = v;
        }
        if let Some(v) = update.autoupdate {
            self.autoupdate = v;
        }
        if let Some(v) = update.autoupdate_interval_minutes {
            self.autoupdate_interval_minutes = v;
        }
    }
}

} // verus!
