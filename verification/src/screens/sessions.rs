//! Sessions screen state: the stored-conversation shapes and the actions
//! the screen can request.

use vstd::prelude::*;

verus! {

/// One stored conversation.
#[derive(Clone, Debug)]
pub struct SessionInfo {
    pub id: String,
    pub agent_name: String,
    pub agent_id: String,
    pub message_count: u64,
    pub created: String,
}

/// What the sessions screen asks its driver to do next.
#[derive(Debug)]
pub enum SessionsAction {
    Continue,
    Refresh,
    OpenInChat { agent_id: String, agent_name: String },
    DeleteSession(String),
}

} // verus!
