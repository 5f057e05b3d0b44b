//! Extensions screen state: catalogue entries, health reports, and the
//! actions the screen can request.

use vstd::prelude::*;

verus! {

/// One catalogue entry of the extension browser.
#[derive(Clone, Debug)]
pub struct ExtensionInfo {
    pub id: String,
    pub name: String,
    pub description: String,
    pub category: String,
    pub icon: String,
    pub installed: bool,
    pub status: String,
    pub tags: Vec<String>,
    pub has_oauth: bool,
}

/// One installed extension's health report.
#[derive(Clone, Debug)]
pub struct ExtensionHealthInfo {
    pub id: String,
    pub status: String,
    pub tool_count: usize,
    pub last_ok: String,
    pub last_error: String,
    pub consecutive_failures: u32,
    pub reconnecting: bool,
    pub connected_since: String,
}

/// Which tab of the extensions screen is showing.
#[derive(Clone, Copy, PartialEq, Eq, Structural, Debug)]
pub enum ExtSub {
    Browse,
    Installed,
    Health,
}

/// What the extensions screen asks its driver to do next.
#[derive(Debug)]
pub enum ExtensionsAction {
    Continue,
    RefreshAll,
    RefreshHealth,
    Install(String),
    Remove(String),
    Reconnect(String),
}

} // verus!
