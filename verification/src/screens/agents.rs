//! Agents screen state: the list and detail shapes of live agents and the
//! actions the screen can request.

use vstd::prelude::*;

verus! {

/// Which part of the agents screen is showing.
#[derive(Clone, Copy, PartialEq, Eq, Structural, Debug)]
pub enum AgentSubScreen {
    AgentList,
    AgentDetail,
    CreateMethod,
    TemplatePicker,
    CustomName,
    CustomDesc,
    CustomPrompt,
    CustomTools,
    CustomSkills,
    CustomMcpServers,
    EditSkills,
    EditMcpServers,
    Spawning,
}

/// A row of the agent list as reported over the wire.
#[derive(Clone, Debug)]
pub struct DaemonAgent {
    pub id: String,
    pub name: String,
    pub state: String,
    pub provider: String,
    pub model: String,
}

/// A row of the agent list when the control plane runs in this process.
#[derive(Clone, Debug)]
pub struct InProcessAgent {
    pub id: u64,
    pub name: String,
    pub state: String,
    pub provider: String,
    pub model: String,
}

/// The expanded detail of one agent.
#[derive(Clone, Debug)]
pub struct AgentDetail {
    pub id: String,
    pub name: String,
    pub state: String,
    pub model: String,
    pub provider: String,
    pub created: String,
    pub last_active: String,
    pub tags: Vec<String>,
    pub capabilities: Vec<String>,
    pub parent: Option<String>,
    pub children: Vec<String>,
    pub skills: Vec<String>,
    pub skills_mode: String,
    pub mcp_servers: Vec<String>,
    pub mcp_servers_mode: String,
}

/// What the agents screen asks its driver to do next.
#[derive(Debug)]
pub enum AgentAction {
    Continue,
    CreatedManifest(String),
    Back,
    ChatWithAgent { id: String, name: String },
    KillAgent(String),
    UpdateSkills { id: String, skills: Vec<String> },
    UpdateMcpServers { id: String, servers: Vec<String> },
    FetchAgentSkills(String),
    FetchAgentMcpServers(String),
}

} // verus!
