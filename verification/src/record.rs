use vstd::prelude::*;

use crate::activity::Activity;

verus! {

/// The hierarchy edge of a substate: the registry position of its parent
/// level and the parent value that activates the substate.
#[derive(Clone, Copy, Debug, PartialEq, Eq, Structural)]
pub struct ParentLink {
    /// Position of the parent record in the registry.  Parents are always
    /// registered before their children, so this is smaller than the
    /// child's own position.
    pub index: usize,
    /// The parent value the substate is keyed to.
    pub value: u64,
}

/// Per-level state of one machine in the registry.
#[derive(Clone, Copy, Debug)]
pub struct MachineRecord {
    /// Host-chosen stable identifier of this level.
    pub id: u64,
    /// `None` for a root level, the hierarchy edge for a substate.
    pub parent: Option<ParentLink>,
    /// The value this level takes when activated without an explicit request.
    pub default_value: u64,
    /// The authoritative, observed activity of this level.
    pub current: Activity,
    /// The queued internal transition, consumed by the next tick.
    pub pending: Option<Activity>,
    /// The user-facing request, folded into `pending` only while the level
    /// is, or is about to become, active.
    pub user_pending: Option<u64>,
    /// Whether this level's forced initial activation has run (roots only).
    pub started: bool,
}

/// One lifecycle callback the host must run, identified by the level's id.
///
/// Within a tick the batch for one level is ordered `Exit`, `Transition`,
/// `Enter`, and a parent's batch comes before any of its children's.
#[derive(Clone, Copy, Debug, PartialEq, Eq, Structural)]
pub enum Callback {
    /// The level left `Active(value)`.
    Exit { level: u64, value: u64 },
    /// The level moved directly from `Active(from)` to `Active(to)`.
    Transition { level: u64, from: u64, to: u64 },
    /// The level reached `Active(value)`.
    Enter { level: u64, value: u64 },
}

/// A wiring-time configuration error.
#[derive(Clone, Copy, Debug, PartialEq, Eq, Structural)]
pub enum ConfigError {
    /// The level identifier is already registered.
    DuplicateRegistration,
    /// The declared parent level was never registered.
    UnknownParent,
}

/// A request-time error.
#[derive(Clone, Copy, Debug, PartialEq, Eq, Structural)]
pub enum RequestError {
    /// The level identifier is not registered.
    UnknownLevel,
}

} // verus!
