//! Box lifecycle status and its legal transitions.

use vstd::prelude::*;

verus! {

/// Lifecycle state of a box.
///
/// Legal transitions: `Configured -> Running -> Stopping -> Stopped`,
/// `Stopped -> Running` (restart), and any state to `Unknown` on corrupt
/// state only.
#[derive(Debug, Clone, Copy, PartialEq, Eq, Structural)]
pub enum BoxStatus {
    Unknown,
    Configured,
    Running,
    Stopping,
    Stopped,
}

impl BoxStatus {
    /// A box is running exactly in the `Running` state.
    pub fn is_running(&self) -> (r: bool)
        ensures
            r == (*self is Running),
    {
        match self {
            BoxStatus::Running => true,
            _ => false,
        }
    }

    /// The lowercase name of the status, as stored and shown to users.
    pub open spec fn spec_as_str(&self) -> Seq<char> {
        match self {
            BoxStatus::Unknown => "unknown"@,
            BoxStatus::Configured => "configured"@,
            BoxStatus::Running => "running"@,
            BoxStatus::Stopping => "stopping"@,
            BoxStatus::Stopped => "stopped"@,
        }
    }

    /// Render the status name.
    pub fn as_str(&self) -> (r: &'static str)
        ensures
            r@ == self.spec_as_str(),
    {
        match self {
            BoxStatus::Unknown => "unknown",
            BoxStatus::Configured => "configured",
            BoxStatus::Running => "running",
            BoxStatus::Stopping => "stopping",
            BoxStatus::Stopped => "stopped",
        }
    }
}

/// Whether moving from `from` to `to` is a legal lifecycle transition.
pub open spec fn spec_transition_allowed(from: BoxStatus, to: BoxStatus) -> bool {
    ||| (from is Configured && to is Running)
    ||| (from is Running && to is Stopping)
    ||| (from is Running && to is Stopped)
    ||| (from is Stopping && to is Stopped)
    ||| (from is Stopped && to is Running)
    ||| (to is Unknown)
}

/// Check a lifecycle transition.
pub fn transition_allowed(from: BoxStatus, to: BoxStatus) -> (r: bool)
    ensures
        r == spec_transition_allowed(from, to),
{
    match (from, to) {
        (_, BoxStatus::Unknown) => true,
        (BoxStatus::Configured, BoxStatus::Running) => true,
        (BoxStatus::Running, BoxStatus::Stopping) => true,
        (BoxStatus::Running, BoxStatus::Stopped) => true,
        (BoxStatus::Stopping, BoxStatus::Stopped) => true,
        (BoxStatus::Stopped, BoxStatus::Running) => true,
        _ => false,
    }
}

/// Convert a status to its string representation, as the C API hands it out.
pub fn status_to_string(status: BoxStatus) -> (r: &'static str)
    ensures
        r@ == status.spec_as_str(),
{
    status.as_str()
}

} // verus!
