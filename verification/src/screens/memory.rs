//! Memory screen state: the key/value browser's shapes and the actions the
//! screen can request.

use vstd::prelude::*;

verus! {

/// One stored key/value pair.
#[derive(Clone, Debug)]
pub struct KvPair {
    pub key: String,
    pub value: String,
}

/// One selectable agent of the browser.
#[derive(Clone, Debug)]
pub struct AgentEntry {
    pub id: String,
    pub name: String,
}

/// Which part of the memory screen is showing.
#[derive(Clone, Copy, PartialEq, Eq, Structural, Debug)]
pub enum MemorySub {
    AgentSelect,
    KvBrowser,
    EditKey,
    AddKey,
}

/// Which field of the editor has focus.
#[derive(Clone, Copy, PartialEq, Eq, Structural, Debug)]
pub enum EditField {
    Key,
    Value,
}

/// What the memory screen asks its driver to do next.
#[derive(Debug)]
pub enum MemoryAction {
    Continue,
    LoadAgents,
    LoadKv(String),
    SaveKv { agent_id: String, key: String, value: String },
    DeleteKv { agent_id: String, key: String },
}

} // verus!
