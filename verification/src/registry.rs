//! The agent registry: the arena of agent entries, their lifecycle state
//! machine, parent/child links, and the spawn/kill/get/list operations.
//!
//! Entries are held in an arena indexed by agent id; ids are assigned
//! serially and never reused, and a killed entry stays in the arena (out of
//! the live set) so that later operations against its id fail with
//! `NotFound` instead of touching a recycled slot.

use vstd::prelude::*;
use crate::manifest::AgentManifest;

verus! {

/// An agent's lifecycle state. `Killed` is terminal.
#[derive(Clone, Copy, PartialEq, Eq, Structural, Debug)]
pub enum AgentState {
    Spawning,
    Running,
    Paused,
    Killed,
    Errored,
}

/// The lifecycle transitions the registry accepts.
pub open spec fn can_transition(from: AgentState, to: AgentState) -> bool {
    match (from, to) {
        (AgentState::Spawning, AgentState::Running) => true,
        (AgentState::Spawning, AgentState::Killed) => true,
        (AgentState::Running, AgentState::Paused) => true,
        (AgentState::Running, AgentState::Errored) => true,
        (AgentState::Running, AgentState::Killed) => true,
        (AgentState::Paused, AgentState::Running) => true,
        (AgentState::Paused, AgentState::Killed) => true,
        (AgentState::Errored, AgentState::Running) => true,
        (AgentState::Errored, AgentState::Killed) => true,
        _ => false,
    }
}

/// One live or historical agent: its id, name, owned manifest, state,
/// parent link, spawn-ordered child ids, and timestamps.
#[derive(Debug)]
#[verifier::ext_equal]
pub struct AgentEntry {
    pub id: u64,
    pub name: String,
    pub manifest: AgentManifest,
    pub state: AgentState,
    pub parent: Option<u64>,
    pub children: Vec<u64>,
    pub created: u64,
    pub last_active: u64,
}

/// Why a spawn was refused.
#[derive(Clone, Copy, PartialEq, Eq, Structural, Debug)]
pub enum SpawnError {
    /// The manifest fails validation.
    InvalidManifest,
    /// The given parent id does not resolve to a live agent.
    ParentNotFound,
}

/// Why a kill was refused: the id is unknown or the agent is already
/// killed.
#[derive(Clone, Copy, PartialEq, Eq, Structural, Debug)]
pub enum KillError {
    NotFound,
}

/// Why a state transition was refused.
#[derive(Clone, Copy, PartialEq, Eq, Structural, Debug)]
pub enum TransitionError {
    NotFound,
    InvalidTransition,
}

/// An entry is live while it has not been killed.
pub open spec fn live(e: AgentEntry) -> bool {
    e.state != AgentState::Killed
}

/// The set of live agents, their lifecycle states, and their links.
#[derive(Debug)]
#[verifier::ext_equal]
pub struct AgentRegistry {
    pub agents: Vec<AgentEntry>,
}

/// The registry invariant: every entry sits in the arena slot of its own id.
pub open spec fn registry_wf(r: AgentRegistry) -> bool {
    forall|i: int| 0 <= i < r.agents@.len() ==> (#[trigger] r.agents@[i]).id == i
}

/// Whether `id` resolves to a live agent.
pub open spec fn is_live(agents: Seq<AgentEntry>, id: u64) -> bool {
    id < agents.len() && live(agents[id as int])
}

/// The arena after a kill of `id`: the entry is marked killed and every
/// entry whose parent was `id` is orphaned; everything else is untouched.
pub open spec fn kill_result(agents: Seq<AgentEntry>, id: u64) -> Seq<AgentEntry> {
    Seq::new(
        agents.len(),
        |j: int|
            if j == id {
                AgentEntry { state: AgentState::Killed, ..agents[j] }
            } else if agents[j].parent == Some(id) {
                AgentEntry { parent: None, ..agents[j] }
            } else {
                agents[j]
            },
    )
}

/// The kill operation as a function of the arena: the new arena and whether
/// the kill was accepted.
pub open spec fn spec_kill(agents: Seq<AgentEntry>, id: u64) -> (Seq<AgentEntry>, bool) {
    if is_live(agents, id) {
        (kill_result(agents, id), true)
    } else {
        (agents, false)
    }
}

/// Law: a kill is idempotent. Once a kill of `id` has been accepted, a
/// second kill of the same id is refused with no change to the arena: the
/// entry is never transitioned twice.
pub proof fn lemma_kill_idempotent(agents: Seq<AgentEntry>, id: u64)
    requires
        is_live(agents, id),
    ensures
        !is_live(spec_kill(agents, id).0, id),
        spec_kill(spec_kill(agents, id).0, id) == (spec_kill(agents, id).0, false),
{
    let after = spec_kill(agents, id).0;
    assert(after[id as int].state == AgentState::Killed);
}

impl AgentRegistry {
    /// An empty registry.
    pub fn new() -> (r: AgentRegistry)
        ensures
            r.agents@ == Seq::<AgentEntry>::empty(),
            registry_wf(r),
    {
        let r = AgentRegistry { agents: Vec::new() };
        proof {
            assert(r.agents@ =~= Seq::<AgentEntry>::empty());
        }
        r
    }

    /// Allocates a fresh id, inserts the entry in `Spawning` state, links it
    /// under its parent, transitions it to `Running`, and returns the id.
    /// Refuses an invalid manifest and a parent that is not live.
    pub fn spawn(&mut self, manifest: AgentManifest, parent: Option<u64>, now: u64) -> (r: Result<
        u64,
        SpawnError,
    >)
        requires
            registry_wf(*old(self)),
            old(self).agents@.len() < u64::MAX,
        ensures
            registry_wf(*final(self)),
            r is Ok <==> crate::manifest::manifest_valid(manifest) && (parent matches Some(p)
                ==> is_live(old(self).agents@, p)),
            !crate::manifest::manifest_valid(manifest) ==> r == Err::<u64, SpawnError>(
                SpawnError::InvalidManifest,
            ) && *final(self) == *old(self),
            crate::manifest::manifest_valid(manifest) && (parent matches Some(p) && !is_live(
                old(self).agents@,
                p,
            )) ==> r == Err::<u64, SpawnError>(SpawnError::ParentNotFound) && *final(self) == *old(
                self,
            ),
            r matches Ok(id) ==> {
                &&& crate::manifest::manifest_valid(manifest)
                &&& (parent matches Some(p) ==> is_live(old(self).agents@, p))
                &&& id == old(self).agents@.len()
                &&& final(self).agents@.len() == old(self).agents@.len() + 1
                &&& final(self).agents@[id as int].id == id
                &&& final(self).agents@[id as int].name == manifest.name
                &&& final(self).agents@[id as int].manifest == manifest
                &&& final(self).agents@[id as int].state == AgentState::Running
                &&& final(self).agents@[id as int].parent == parent
                &&& final(self).agents@[id as int].children@ == Seq::<u64>::empty()
                &&& final(self).agents@[id as int].created == now
                &&& final(self).agents@[id as int].last_active == now
                &&& forall|j: int|
                    0 <= j < old(self).agents@.len() ==> #[trigger] final(self).agents@[j] == (
                    if parent == Some(j as u64) {
                        (AgentEntry {
                            children: final(self).agents@[j].children,
                            ..old(self).agents@[j]
                        })
                    } else {
                        old(self).agents@[j]
                    })
                &&& parent matches Some(p) ==> final(self).agents@[p as int].children@ == old(
                    self,
                ).agents@[p as int].children@.push(id)
                &&& parent is None ==> final(self).agents@ =~= old(self).agents@.push(
                    final(self).agents@[id as int],
                )
            },
    {
        if !crate::manifest::validate_manifest(&manifest) {
            return Err(SpawnError::InvalidManifest);
        }
        let id: u64 = self.agents.len() as u64;
        match parent {
            Some(p) => {
                let pu = p as usize;
                if p >= id || self.agents[pu].state == AgentState::Killed {
                    return Err(SpawnError::ParentNotFound);
                }
            },
            None => {},
        }
        let name = manifest.name.clone();
        let entry = AgentEntry {
            id,
            name,
            manifest,
            state: AgentState::Spawning,
            parent,
            children: Vec::new(),
            created: now,
            last_active: now,
        };
        self.agents.push(entry);
        let idu = id as usize;
        self.agents[idu].state = AgentState::Running;
        match parent {
            Some(p) => {
                let pu = p as usize;
                self.agents[pu].children.push(id);
            },
            None => {},
        }
        proof {
            assert(final(self).agents@[id as int].children@ =~= Seq::<u64>::empty());
        }
        Ok(id)
    }

    /// Marks the agent killed and orphans its children (their parent becomes
    /// `None`; they are not killed themselves). Refuses an unknown or
    /// already-killed id with `NotFound`, changing nothing.
    pub fn kill(&mut self, id: u64) -> (r: Result<(), KillError>)
        requires
            registry_wf(*old(self)),
        ensures
            registry_wf(*final(self)),
            final(self).agents@ == spec_kill(old(self).agents@, id).0,
            r is Ok <==> spec_kill(old(self).agents@, id).1,
            r is Err ==> r == Err::<(), KillError>(KillError::NotFound) && *final(self) == *old(
                self,
            ),
    {
        let n = self.agents.len();
        if id >= n as u64 {
            proof {
                assert(spec_kill(old(self).agents@, id).0 =~= old(self).agents@);
            }
            return Err(KillError::NotFound);
        }
        let idu = id as usize;
        if self.agents[idu].state == AgentState::Killed {
            proof {
                assert(spec_kill(old(self).agents@, id).0 =~= old(self).agents@);
            }
            return Err(KillError::NotFound);
        }
        self.agents[idu].state = AgentState::Killed;
        let mut j: usize = 0;
        while j < n
            invariant
                n == self.agents@.len(),
                j <= n,
                id < n as u64,
                forall|t: int|
                    0 <= t < n ==> #[trigger] self.agents@[t] == (
                    if t == id {
                        (AgentEntry { state: AgentState::Killed, ..old(self).agents@[t] })
                    } else if t < j && old(self).agents@[t].parent == Some(id) {
                        (AgentEntry { parent: None, ..old(self).agents@[t] })
                    } else {
                        old(self).agents@[t]
                    }),
            decreases n - j,
        {
            if j != idu {
                let is_child = match self.agents[j].parent {
                    Some(p) => p == id,
                    None => false,
                };
                if is_child {
                    self.agents[j].parent = None;
                }
            }
            j = j + 1;
        }
        proof {
            assert(final(self).agents@ =~= kill_result(old(self).agents@, id));
        }
        Ok(())
    }

    /// Resolves a live agent's entry; an unknown or killed id yields `None`.
    pub fn get(&self, id: u64) -> (r: Option<&AgentEntry>)
        ensures
            r is Some <==> is_live(self.agents@, id),
            r matches Some(e) ==> *e == self.agents@[id as int],
    {
        let n = self.agents.len();
        if id >= n as u64 {
            return None;
        }
        let idu = id as usize;
        if self.agents[idu].state == AgentState::Killed {
            return None;
        }
        Some(&self.agents[idu])
    }

    /// The ids of the live agents, in spawn order.
    pub fn list(&self) -> (r: Vec<u64>)
        ensures
            r@ == live_ids(self.agents@),
    {
        let mut r: Vec<u64> = Vec::new();
        let mut i: usize = 0;
        let n = self.agents.len();
        while i < n
            invariant
                i <= n,
                n == self.agents@.len(),
                r@ == live_ids(self.agents@.take(i as int)),
            decreases n - i,
        {
            proof {
                assert(self.agents@.take(i as int + 1).drop_last() =~= self.agents@.take(i as int));
                assert(self.agents@.take(i as int + 1).last() == self.agents@[i as int]);
            }
            if !(self.agents[i].state == AgentState::Killed) {
                r.push(self.agents[i].id);
            }
            i = i + 1;
        }
        proof {
            assert(self.agents@.take(n as int) =~= self.agents@);
        }
        r
    }

    /// How many agents are live.
    pub fn count(&self) -> (n: usize)
        ensures
            n == live_ids(self.agents@).len(),
    {
        let ids = self.list();
        ids.len()
    }

    /// Applies one lifecycle transition to a live agent; refuses unknown or
    /// killed ids and transitions the state machine does not allow.
    pub fn set_state(&mut self, id: u64, to: AgentState) -> (r: Result<(), TransitionError>)
        requires
            registry_wf(*old(self)),
        ensures
            registry_wf(*final(self)),
            r is Ok <==> is_live(old(self).agents@, id) && can_transition(
                old(self).agents@[id as int].state,
                to,
            ),
            r is Ok ==> final(self).agents@ == old(self).agents@.update(
                id as int,
                (AgentEntry { state: to, ..old(self).agents@[id as int] }),
            ),
            r is Err ==> *final(self) == *old(self),
            !is_live(old(self).agents@, id) ==> r == Err::<(), TransitionError>(
                TransitionError::NotFound,
            ),
            is_live(old(self).agents@, id) && !can_transition(
                old(self).agents@[id as int].state,
                to,
            ) ==> r == Err::<(), TransitionError>(TransitionError::InvalidTransition),
    {
        let n = self.agents.len();
        if id >= n as u64 {
            return Err(TransitionError::NotFound);
        }
        let idu = id as usize;
        if self.agents[idu].state == AgentState::Killed {
            return Err(TransitionError::NotFound);
        }
        if !can_transition_exec(self.agents[idu].state, to) {
            return Err(TransitionError::InvalidTransition);
        }
        self.agents[idu].state = to;
        Ok(())
    }
}

/// The ids of the live entries, in arena order.
pub open spec fn live_ids(agents: Seq<AgentEntry>) -> Seq<u64>
    decreases agents.len(),
{
    if agents.len() == 0 {
        Seq::empty()
    } else if live(agents.last()) {
        live_ids(agents.drop_last()).push(agents.last().id)
    } else {
        live_ids(agents.drop_last())
    }
}

fn can_transition_exec(from: AgentState, to: AgentState) -> (r: bool)
    ensures
        r == can_transition(from, to),
{
    match (from, to) {
        (AgentState::Spawning, AgentState::Running) => true,
        (AgentState::Spawning, AgentState::Killed) => true,
        (AgentState::Running, AgentState::Paused) => true,
        (AgentState::Running, AgentState::Errored) => true,
        (AgentState::Running, AgentState::Killed) => true,
        (AgentState::Paused, AgentState::Running) => true,
        (AgentState::Paused, AgentState::Killed) => true,
        (AgentState::Errored, AgentState::Running) => true,
        (AgentState::Errored, AgentState::Killed) => true,
        _ => false,
    }
}

} // verus!
