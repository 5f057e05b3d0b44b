//! Hands screen state: marketplace definitions, active instances, and the
//! actions the screen can request.

use vstd::prelude::*;

verus! {

/// One marketplace definition.
#[derive(Clone, Debug)]
pub struct HandInfo {
    pub id: String,
    pub name: String,
    pub description: String,
    pub category: String,
    pub icon: String,
    pub requirements_met: bool,
}

/// One running instance of a definition.
#[derive(Clone, Debug)]
pub struct HandInstanceInfo {
    pub instance_id: String,
    pub hand_id: String,
    pub status: String,
    pub agent_name: String,
    pub agent_id: String,
    pub activated_at: String,
}

/// Which tab of the hands screen is showing.
#[derive(Clone, Copy, PartialEq, Eq, Structural, Debug)]
pub enum HandsSub {
    Marketplace,
    Active,
}

/// What the hands screen asks its driver to do next.
#[derive(Debug)]
pub enum HandsAction {
    Continue,
    RefreshDefinitions,
    RefreshActive,
    ActivateHand(String),
    DeactivateHand(String),
    PauseHand(String),
    ResumeHand(String),
}

} // verus!
