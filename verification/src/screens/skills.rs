//! Skills screen state: installed skills, marketplace results, server
//! status, and the sort order of the marketplace tab.

use vstd::prelude::*;

verus! {

/// One installed skill.
#[derive(Clone, Debug)]
pub struct SkillInfo {
    pub name: String,
    pub runtime: String,
    pub source: String,
    pub description: String,
}

/// One marketplace search result.
#[derive(Clone, Debug)]
pub struct ClawHubResult {
    pub name: String,
    pub slug: String,
    pub description: String,
    pub downloads: u64,
    pub runtime: String,
}

/// One connected tool server.
#[derive(Clone, Debug)]
pub struct McpServerInfo {
    pub name: String,
    pub connected: bool,
    pub tool_count: usize,
}

/// Which tab of the skills screen is showing.
#[derive(Clone, Copy, PartialEq, Eq, Structural, Debug)]
pub enum SkillsSub {
    Installed,
    ClawHub,
    Mcp,
}

/// The marketplace tab's sort order.
#[derive(Clone, Copy, PartialEq, Eq, Structural, Debug)]
pub enum ClawHubSort {
    Trending,
    Popular,
    Recent,
}

impl ClawHubSort {
    /// The sort order's display label.
    pub fn label(self) -> (r: &'static str)
        ensures
            self is Trending ==> r@ == "Trending"@,
            self is Popular ==> r@ == "Popular"@,
            self is Recent ==> r@ == "Recent"@,
    {
        match self {
            ClawHubSort::Trending => "Trending",
            ClawHubSort::Popular => "Popular",
            ClawHubSort::Recent => "Recent",
        }
    }

    /// The next sort order in the cycle the sort key steps through.
    pub fn next(self) -> (r: ClawHubSort)
        ensures
            r == match self {
                ClawHubSort::Trending => ClawHubSort::Popular,
                ClawHubSort::Popular => ClawHubSort::Recent,
                ClawHubSort::Recent => ClawHubSort::Trending,
            },
    {
        match self {
            ClawHubSort::Trending => ClawHubSort::Popular,
            ClawHubSort::Popular => ClawHubSort::Recent,
            ClawHubSort::Recent => ClawHubSort::Trending,
        }
    }
}

/// What the skills screen asks its driver to do next.
#[derive(Debug)]
pub enum SkillsAction {
    Continue,
    RefreshInstalled,
    SearchClawHub(String),
    BrowseClawHub(String),
    InstallSkill(String),
    UninstallSkill(String),
    RefreshMcp,
}

} // verus!
