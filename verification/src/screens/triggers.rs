//! Triggers screen state: the listed trigger shape and the actions the
//! screen can request.

use vstd::prelude::*;

verus! {

/// One listed trigger.
#[derive(Clone, Debug)]
pub struct TriggerInfo {
    pub id: String,
    pub agent_id: String,
    pub pattern: String,
    pub fires: u64,
    pub enabled: bool,
}

/// Which part of the triggers screen is showing.
#[derive(Clone, Copy, PartialEq, Eq, Structural, Debug)]
pub enum TriggerSubScreen {
    List,
    Create,
}

/// What the triggers screen asks its driver to do next.
#[derive(Debug)]
pub enum TriggerAction {
    Continue,
    Refresh,
    CreateTrigger {
        agent_id: String,
        pattern_type: String,
        pattern_param: String,
        prompt: String,
        max_fires: u64,
    },
    DeleteTrigger(String),
}

} // verus!
