//! The service-manager state model: the three state enums decoded from
//! the manager's strings, unit descriptions, and the reshaping of journal
//! entries into log messages.

use vstd::prelude::*;
use vstd::string::*;

use crate::errors::Error;
use crate::template::lookup;
use crate::template::pairs_view;
use crate::text::parse_unsigned_spec;
use crate::text::str_eq;

verus! {

/// How the manager has the unit loaded.
#[derive(Debug, Clone, Copy, PartialEq, Eq)]
pub enum LoadState {
    Loaded,
    Unloaded,
    Inactive,
}

/// What was last asked of the unit.
#[derive(Debug, Clone, Copy, PartialEq, Eq)]
pub enum RuntimeState {
    Started,
    Stopped,
    Restarted,
    Reloaded,
}

/// What the unit's last run amounted to.
#[derive(Debug, Clone, Copy, PartialEq, Eq)]
pub enum LastRunState {
    Failed,
    Dead,
    Mounted,
    Running,
    Listening,
    Plugged,
    Exited,
    Active,
    Waiting,
}

/// Whether the unit is enabled.
#[derive(Debug, Clone, Copy, PartialEq, Eq)]
pub enum EnabledState {
    Enabled,
    Disabled,
    Failed,
}

/// What the load string decodes to, if anything.
pub open spec fn parse_load_state_spec(s: Seq<char>) -> Option<LoadState> {
    if s == "loaded"@ || s == "auto-restart"@ || s == "auto-restart-queued"@ {
        Some(LoadState::Loaded)
    } else if s == "not-found"@ {
        Some(LoadState::Unloaded)
    } else if s == "inactive"@ {
        Some(LoadState::Inactive)
    } else {
        None
    }
}

/// What the active string decodes to, if anything.
pub open spec fn parse_runtime_state_spec(s: Seq<char>) -> Option<RuntimeState> {
    if s == "started"@ || s == "running"@ || s == "mounted"@ || s == "listening"@ || s
        == "plugged"@ || s == "active"@ || s == "activating"@ {
        Some(RuntimeState::Started)
    } else if s == "stopped"@ || s == "inactive"@ || s == "dead"@ || s == "failed"@ || s
        == "exited"@ || s == "waiting"@ || s == "deactivating"@ || s == "maintenance"@ {
        Some(RuntimeState::Stopped)
    } else if s == "restarted"@ {
        Some(RuntimeState::Restarted)
    } else if s == "reloaded"@ {
        Some(RuntimeState::Reloaded)
    } else {
        None
    }
}

/// What the sub string decodes to, if anything.
pub open spec fn parse_last_run_state_spec(s: Seq<char>) -> Option<LastRunState> {
    if s == "failed"@ {
        Some(LastRunState::Failed)
    } else if s == "dead"@ {
        Some(LastRunState::Dead)
    } else if s == "mounted"@ {
        Some(LastRunState::Mounted)
    } else if s == "running"@ {
        Some(LastRunState::Running)
    } else if s == "listening"@ {
        Some(LastRunState::Listening)
    } else if s == "plugged"@ {
        Some(LastRunState::Plugged)
    } else if s == "exited"@ {
        Some(LastRunState::Exited)
    } else if s == "active"@ || s == "auto-restart"@ || s == "auto-restart-queued"@ {
        Some(LastRunState::Active)
    } else if s == "waiting"@ {
        Some(LastRunState::Waiting)
    } else {
        None
    }
}

/// What the enablement string decodes to, if anything.
pub open spec fn parse_enabled_state_spec(s: Seq<char>) -> Option<EnabledState> {
    if s == "enabled"@ || s == "active"@ {
        Some(EnabledState::Enabled)
    } else if s == "disabled"@ || s == "inactive"@ {
        Some(EnabledState::Disabled)
    } else if s == "failed"@ {
        Some(EnabledState::Failed)
    } else {
        None
    }
}

impl LoadState {
    /// Decodes the manager's load string.
    pub fn from_str(s: &str) -> (r: Result<Self, Error>)
        ensures
            match r {
                Ok(v) => parse_load_state_spec(s@) == Some(v),
                Err(e) => parse_load_state_spec(s@) is None && (e matches Error::UnknownState(u)
                    && u@ == s@),
            },
    {
        if str_eq(s, "loaded") || str_eq(s, "auto-restart") || str_eq(s, "auto-restart-queued") {
            Ok(LoadState::Loaded)
        } else if str_eq(s, "not-found") {
            Ok(LoadState::Unloaded)
        } else if str_eq(s, "inactive") {
            Ok(LoadState::Inactive)
        } else {
            Err(Error::UnknownState(String::from_str(s)))
        }
    }

    /// The string the state renders as.
    pub fn as_str(&self) -> (r: &'static str)
        ensures
            match *self {
                LoadState::Loaded => r@ == "loaded"@,
                LoadState::Unloaded => r@ == "not-found"@,
                LoadState::Inactive => r@ == "inactive"@,
            },
    {
        match self {
            LoadState::Loaded => "loaded",
            LoadState::Unloaded => "not-found",
            LoadState::Inactive => "inactive",
        }
    }
}

impl RuntimeState {
    /// Decodes the manager's active string.
    pub fn from_str(s: &str) -> (r: Result<Self, Error>)
        ensures
            match r {
                Ok(v) => parse_runtime_state_spec(s@) == Some(v),
                Err(e) => parse_runtime_state_spec(s@) is None && (e matches Error::UnknownState(u)
                    && u@ == s@),
            },
    {
        if str_eq(s, "started") || str_eq(s, "running") || str_eq(s, "mounted") || str_eq(
            s,
            "listening",
        ) || str_eq(s, "plugged") || str_eq(s, "active") || str_eq(s, "activating") {
            Ok(RuntimeState::Started)
        } else if str_eq(s, "stopped") || str_eq(s, "inactive") || str_eq(s, "dead") || str_eq(
            s,
            "failed",
        ) || str_eq(s, "exited") || str_eq(s, "waiting") || str_eq(s, "deactivating") || str_eq(
            s,
            "maintenance",
        ) {
            Ok(RuntimeState::Stopped)
        } else if str_eq(s, "restarted") {
            Ok(RuntimeState::Restarted)
        } else if str_eq(s, "reloaded") {
            Ok(RuntimeState::Reloaded)
        } else {
            Err(Error::UnknownState(String::from_str(s)))
        }
    }

    /// The string the state renders as.
    pub fn as_str(&self) -> (r: &'static str)
        ensures
            match *self {
                RuntimeState::Started => r@ == "started"@,
                RuntimeState::Stopped => r@ == "stopped"@,
                RuntimeState::Restarted => r@ == "restarted"@,
                RuntimeState::Reloaded => r@ == "reloaded"@,
            },
    {
        match self {
            RuntimeState::Started => "started",
            RuntimeState::Stopped => "stopped",
            RuntimeState::Restarted => "restarted",
            RuntimeState::Reloaded => "reloaded",
        }
    }
}

impl LastRunState {
    /// Decodes the manager's sub string.
    pub fn from_str(s: &str) -> (r: Result<Self, Error>)
        ensures
            match r {
                Ok(v) => parse_last_run_state_spec(s@) == Some(v),
                Err(e) => parse_last_run_state_spec(s@) is None && (e matches Error::UnknownState(
                    u,
                ) && u@ == s@),
            },
    {
        if str_eq(s, "failed") {
            Ok(LastRunState::Failed)
        } else if str_eq(s, "dead") {
            Ok(LastRunState::Dead)
        } else if str_eq(s, "mounted") {
            Ok(LastRunState::Mounted)
        } else if str_eq(s, "running") {
            Ok(LastRunState::Running)
        } else if str_eq(s, "listening") {
            Ok(LastRunState::Listening)
        } else if str_eq(s, "plugged") {
            Ok(LastRunState::Plugged)
        } else if str_eq(s, "exited") {
            Ok(LastRunState::Exited)
        } else if str_eq(s, "active") || str_eq(s, "auto-restart") || str_eq(
            s,
            "auto-restart-queued",
        ) {
            Ok(LastRunState::Active)
        } else if str_eq(s, "waiting") {
            Ok(LastRunState::Waiting)
        } else {
            Err(Error::UnknownState(String::from_str(s)))
        }
    }

    /// The string the state renders as.
    pub fn as_str(&self) -> (r: &'static str)
        ensures
            match *self {
                LastRunState::Failed => r@ == "failed"@,
                LastRunState::Dead => r@ == "dead"@,
                LastRunState::Mounted => r@ == "mounted"@,
                LastRunState::Running => r@ == "running"@,
                LastRunState::Listening => r@ == "listening"@,
                LastRunState::Plugged => r@ == "plugged"@,
                LastRunState::Exited => r@ == "exited"@,
                LastRunState::Active => r@ == "active"@,
                LastRunState::Waiting => r@ == "waiting"@,
            },
    {
        match self {
            LastRunState::Failed => "failed",
            LastRunState::Dead => "dead",
            LastRunState::Mounted => "mounted",
            LastRunState::Running => "running",
            LastRunState::Listening => "listening",
            LastRunState::Plugged => "plugged",
            LastRunState::Exited => "exited",
            LastRunState::Active => "active",
            LastRunState::Waiting => "waiting",
        }
    }

    /// Whether a unit in this state has come to rest, as the uninstall
    /// path waits for.
    pub fn is_settled(&self) -> (r: bool)
        ensures
            r == (*self == LastRunState::Dead || *self == LastRunState::Failed || *self
                == LastRunState::Exited),
    {
        match self {
            LastRunState::Dead => true,
            LastRunState::Failed => true,
            LastRunState::Exited => true,
            _ => false,
        }
    }
}

impl EnabledState {
    /// Decodes the manager's enablement string.
    pub fn from_str(s: &str) -> (r: Result<Self, Error>)
        ensures
            match r {
                Ok(v) => parse_enabled_state_spec(s@) == Some(v),
                Err(e) => parse_enabled_state_spec(s@) is None && (e matches Error::UnknownState(u)
                    && u@ == s@),
            },
    {
        if str_eq(s, "enabled") || str_eq(s, "active") {
            Ok(EnabledState::Enabled)
        } else if str_eq(s, "disabled") || str_eq(s, "inactive") {
            Ok(EnabledState::Disabled)
        } else if str_eq(s, "failed") {
            Ok(EnabledState::Failed)
        } else {
            Err(Error::UnknownState(String::from_str(s)))
        }
    }

    /// The string the state renders as.
    pub fn as_str(&self) -> (r: &'static str)
        ensures
            match *self {
                EnabledState::Enabled => r@ == "enabled"@,
                EnabledState::Disabled => r@ == "disabled"@,
                EnabledState::Failed => r@ == "failed"@,
            },
    {
        match self {
            EnabledState::Enabled => "enabled",
            EnabledState::Disabled => "disabled",
            EnabledState::Failed => "failed",
        }
    }
}

/// The three derived states of one unit.
#[derive(Debug, Clone, Copy, PartialEq, Eq)]
pub struct Status {
    pub load_state: LoadState,
    pub runtime_state: RuntimeState,
    pub last_run_state: LastRunState,
}

/// Derives a unit's status from the manager's three strings.
pub fn status_from_strings(load: &str, active: &str, sub: &str) -> (r: Result<Status, Error>)
    ensures
        match r {
            Ok(st) => parse_load_state_spec(load@) == Some(st.load_state)
                && parse_runtime_state_spec(active@) == Some(st.runtime_state)
                && parse_last_run_state_spec(sub@) == Some(st.last_run_state),
            Err(_) => parse_load_state_spec(load@) is None || parse_runtime_state_spec(active@)
                is None || parse_last_run_state_spec(sub@) is None,
        },
{
    let load_state = LoadState::from_str(load)?;
    let runtime_state = RuntimeState::from_str(active)?;
    let last_run_state = LastRunState::from_str(sub)?;
    Ok(Status { load_state, runtime_state, last_run_state })
}

/// One listed unit.
#[derive(Debug, Clone, PartialEq, Eq)]
pub struct Unit {
    pub name: String,
    pub description: String,
    pub enabled_state: EnabledState,
    pub object_path: String,
    pub status: Status,
}

/// A request to put a unit into a state.
#[derive(Debug, Clone, PartialEq, Eq)]
pub struct UnitSettings {
    pub name: String,
    pub enabled_state: EnabledState,
    pub runtime_state: RuntimeState,
}

/// Which way the journal is walked.
#[derive(Debug, Clone, Copy, PartialEq, Eq)]
pub enum LogDirection {
    Forward,
    Backward,
}

/// One reshaped journal entry. The time is seconds since the epoch.
#[derive(Debug, Clone, PartialEq, Eq)]
pub struct LogMessage {
    pub message: String,
    pub time: u64,
    pub service_name: String,
    pub pid: u64,
    pub cursor: String,
}

/// Whether a package is installed, and if so how its unit stands.
#[derive(Debug, Clone, PartialEq, Eq)]
pub enum InstallStatus {
    Installed(Status),
    NotInstalled,
}

/// Reshapes one journal entry into a log message: the entry must carry a
/// source timestamp, a message, a pid, and the cursor added by the journal
/// walker; a malformed entry is surfaced as an error rather than ending
/// the stream.
pub fn log_message_from_entry(unit: &str, entry: &Vec<(String, String)>) -> (r: Result<
    LogMessage,
    Error,
>)
    ensures
        ({
            let pv = pairs_view(entry@);
            match r {
                Ok(m) => {
                    &&& m.service_name@ == unit@
                    &&& lookup(pv, "MESSAGE"@) == Some(m.message@)
                    &&& lookup(pv, "CURSOR"@) == Some(m.cursor@)
                    &&& (lookup(pv, "_SOURCE_REALTIME_TIMESTAMP"@) matches Some(t)
                        && parse_unsigned_spec(t, u64::MAX as nat) == Some(m.time as nat))
                    &&& (lookup(pv, "_PID"@) matches Some(p) && parse_unsigned_spec(
                        p,
                        u64::MAX as nat,
                    ) == Some(m.pid as nat))
                },
                Err(_) => {
                    ||| lookup(pv, "MESSAGE"@) is None
                    ||| lookup(pv, "CURSOR"@) is None
                    ||| (match lookup(pv, "_SOURCE_REALTIME_TIMESTAMP"@) {
                        Some(t) => parse_unsigned_spec(t, u64::MAX as nat) is None,
                        None => true,
                    })
                    ||| (match lookup(pv, "_PID"@) {
                        Some(p) => parse_unsigned_spec(p, u64::MAX as nat) is None,
                        None => true,
                    })
                },
            }
        }),
{
    let message = match crate::template::lookup_value(entry, "MESSAGE") {
        Some(m) => m,
        None => {
            return Err(Error::MissingLogField(String::from_str("MESSAGE")));
        },
    };
    let cursor = match crate::template::lookup_value(entry, "CURSOR") {
        Some(c) => c,
        None => {
            return Err(Error::MissingLogField(String::from_str("CURSOR")));
        },
    };
    let time_raw = match crate::template::lookup_value(entry, "_SOURCE_REALTIME_TIMESTAMP") {
        Some(t) => t,
        None => {
            return Err(Error::MissingLogField(String::from_str("_SOURCE_REALTIME_TIMESTAMP")));
        },
    };
    let time = match crate::text::parse_u64(time_raw.as_str()) {
        Some(t) => t,
        None => {
            return Err(Error::MissingLogField(String::from_str("_SOURCE_REALTIME_TIMESTAMP")));
        },
    };
    let pid_raw = match crate::template::lookup_value(entry, "_PID") {
        Some(p) => p,
        None => {
            return Err(Error::MissingLogField(String::from_str("_PID")));
        },
    };
    let pid = match crate::text::parse_u64(pid_raw.as_str()) {
        Some(p) => p,
        None => {
            return Err(Error::MissingLogField(String::from_str("_PID")));
        },
    };
    Ok(LogMessage { message, time, service_name: String::from_str(unit), pid, cursor })
}

} // verus!
