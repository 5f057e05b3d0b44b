//! Peers screen state: the reported shape of each connected node.

use vstd::prelude::*;

verus! {

/// One connected peer node.
#[derive(Clone, Debug)]
pub struct PeerInfo {
    pub node_id: String,
    pub node_name: String,
    pub address: String,
    pub state: String,
    pub agent_count: u64,
    pub protocol_version: String,
}

/// What the peers screen asks its driver to do next.
#[derive(Clone, Copy, PartialEq, Eq, Structural, Debug)]
pub enum PeersAction {
    Continue,
    Refresh,
}

} // verus!
