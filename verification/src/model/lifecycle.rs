use vstd::prelude::*;

verus! {

/// Whether a staircase is in use or archived.
#[derive(Debug, Clone, Copy, PartialEq, Eq, Structural)]
pub enum LifecycleState {
    Active,
    Archived,
}

impl Default for LifecycleState {
    fn default() -> (s: Self)
        ensures
            s == LifecycleState::Active,
    {
        LifecycleState::Active
    }
}

impl LifecycleState {
    /// The lower-case name of the state.
    pub fn as_str(&self) -> (s: &'static str)
        ensures
            s@ == (match self {
                LifecycleState::Active => "active"@,
                LifecycleState::Archived => "archived"@,
            }),
    {
        match self {
            LifecycleState::Active => "active",
            LifecycleState::Archived => "archived",
        }
    }
}

/// One entry of a staircase's lifecycle history. `details` holds JSON text.
#[derive(Debug, Clone, PartialEq, Eq)]
pub struct LifecycleEvent {
    pub event_id: String,
    pub kind: String,
    pub timestamp: String,
    pub actor: Option<String>,
    pub record_oid_before: Option<String>,
    pub record_oid_after: Option<String>,
    pub canonical_name: Option<String>,
    pub reason: Option<String>,
    pub details: String,
}

/// The lifecycle of a staircase: its state, why it was archived, whether its
/// name stays reserved, and its history.
#[derive(Debug, Clone, PartialEq, Eq)]
pub struct StaircaseLifecycle {
    pub state: LifecycleState,
    pub archive_reason: Option<String>,
    pub name_reserved: bool,
    pub events: Vec<LifecycleEvent>,
}

impl Default for StaircaseLifecycle {
    /// An active lifecycle with its name reserved and no history.
    fn default() -> (l: Self)
        ensures
            l.state == LifecycleState::Active,
            l.archive_reason is None,
            l.name_reserved,
            l.events@.len() == 0,
    {
        StaircaseLifecycle {
            state: LifecycleState::Active,
            archive_reason: None,
            name_reserved: true,
            events: Vec::new(),
        }
    }
}

} // verus!
