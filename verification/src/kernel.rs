//! The control-plane pipeline tying the components together: a spawn passes
//! manifest verification, then the registry, then the audit ledger; a tool
//! call passes the capability guard, then the quota meter, then the ledger;
//! a trigger firing is recorded in the ledger before its action is handed
//! back.
//!
//! Every accepted mutation appends its audit record in the same call, after
//! the owning component's state has changed; denials that the design calls
//! audited (capability and quota) are appended before the error returns.

use vstd::prelude::*;
use crate::capability;
use crate::capability::CapabilityDenied;
use crate::ledger::AuditAction;
use crate::ledger::AuditLedger;
use crate::ledger::chain_ok;
use crate::manifest::AgentManifest;
use crate::manifest::ManifestError;
use crate::manifest::SignedEnvelope;
use crate::quota::QuotaMeter;
use crate::quota::meter_wf;
use crate::registry::AgentRegistry;
use crate::registry::AgentState;
use crate::registry::KillError;
use crate::registry::is_live;
use crate::registry::registry_wf;
use crate::registry::spec_kill;
use crate::trigger::Event;
use crate::trigger::FiredAction;
use crate::trigger::RegisterError;
use crate::trigger::TriggerDefinition;
use crate::trigger::TriggerScheduler;
use crate::trigger::fired_actions;
use crate::trigger::scheduler_wf;
use crate::strutil::dec_digits;

verus! {

/// Why the kernel refused to spawn an agent.
#[derive(Clone, Copy, PartialEq, Eq, Structural, Debug)]
pub enum KernelSpawnError {
    /// The manifest was rejected before any state was touched.
    Manifest(ManifestError),
    /// The named parent does not resolve to a live agent.
    ParentNotFound,
}

/// Why the kernel refused a tool call or a token grant.
#[derive(Clone, Copy, PartialEq, Eq, Structural, Debug)]
pub enum InvokeError {
    /// The agent id does not resolve to a live agent.
    NotFound,
    /// The tool is not in the agent's capability set; audited.
    Capability(CapabilityDenied),
    /// The quota refused the request; audited and retryable.
    Quota,
}

/// The assembled control plane. `meters[i]` is the quota state of agent
/// `i`, parallel to the registry arena.
#[derive(Debug)]
#[verifier::ext_equal]
pub struct Kernel {
    pub registry: AgentRegistry,
    pub ledger: AuditLedger,
    pub meters: Vec<QuotaMeter>,
    pub scheduler: TriggerScheduler,
}

/// The kernel invariant: the components are well formed, each agent has a
/// meter carrying its declared limits, and the chain invariant holds.
pub open spec fn kernel_wf(k: Kernel) -> bool {
    &&& registry_wf(k.registry)
    &&& chain_ok(k.ledger@)
    &&& scheduler_wf(k.scheduler)
    &&& k.meters@.len() == k.registry.agents@.len()
    &&& forall|i: int| 0 <= i < k.meters@.len() ==> meter_wf(#[trigger] k.meters@[i])
    &&& forall|i: int|
        0 <= i < k.meters@.len() ==> (#[trigger] k.meters@[i]).max_llm_tokens_per_hour
            == k.registry.agents@[i].manifest.resources.max_llm_tokens_per_hour
            && k.meters@[i].max_concurrent_tools
            == k.registry.agents@[i].manifest.resources.max_concurrent_tools
}

impl Kernel {
    /// An empty control plane: no agents, no triggers, an empty chain.
    pub fn new() -> (r: Kernel)
        ensures
            kernel_wf(r),
            r.registry.agents@.len() == 0,
            r.ledger@.len() == 0,
            r.scheduler.triggers@.len() == 0,
    {
        let r = Kernel {
            registry: AgentRegistry::new(),
            ledger: AuditLedger::new(),
            meters: Vec::new(),
            scheduler: TriggerScheduler::new(),
        };
        r
    }

    /// The spawn pipeline: verifies the manifest (and its envelope when one
    /// is presented), creates the running entry under the parent, gives the
    /// agent a fresh meter with its declared limits, and appends the
    /// `AgentSpawn` record carrying the agent's name.
    pub fn spawn_agent(
        &mut self,
        manifest_toml: &str,
        envelope: Option<&SignedEnvelope>,
        parent: Option<u64>,
        now: u64,
    ) -> (r: Result<u64, KernelSpawnError>)
        requires
            kernel_wf(*old(self)),
            old(self).registry.agents@.len() < u64::MAX,
            old(self).ledger@.len() < u64::MAX,
        ensures
            kernel_wf(*final(self)),
            r matches Err(KernelSpawnError::Manifest(me)) ==> !(crate::manifest::manifest_parses(
                manifest_toml@,
            ) && crate::manifest::manifest_validates(manifest_toml@) && (envelope matches Some(env)
                ==> crate::manifest::envelope_accepts(*env, manifest_toml@))) && *final(self)
                == *old(self),
            r == Err::<u64, KernelSpawnError>(KernelSpawnError::ParentNotFound) ==> (
            parent matches Some(p) && !is_live(old(self).registry.agents@, p)) && *final(self)
                == *old(self),
            r matches Ok(id) ==> {
                &&& id == old(self).registry.agents@.len()
                &&& final(self).registry.agents@.len() == old(self).registry.agents@.len() + 1
                &&& final(self).registry.agents@[id as int].state == AgentState::Running
                &&& final(self).registry.agents@[id as int].parent == parent
                &&& final(self).meters@.len() == old(self).meters@.len() + 1
                &&& final(self).meters@[id as int].in_flight == 0
                &&& final(self).meters@[id as int].window@.len() == 0
                &&& final(self).ledger@.len() == old(self).ledger@.len() + 1
                &&& final(self).ledger@.last().action == AuditAction::AgentSpawn
                &&& final(self).ledger@.last().agent == id
                &&& final(self).ledger@.last().timestamp == now
                &&& final(self).ledger@.last().detail
                    == final(self).registry.agents@[id as int].name@
                &&& final(self).ledger@ == old(self).ledger@.push(final(self).ledger@.last())
            },
    {
        let m = match crate::manifest::verify(manifest_toml, envelope) {
            Ok(m) => m,
            Err(e) => {
                return Err(KernelSpawnError::Manifest(e));
            },
        };
        let tokens = m.resources.max_llm_tokens_per_hour;
        let tools = m.resources.max_concurrent_tools;
        let name = m.name.clone();
        let id = match self.registry.spawn(m, parent, now) {
            Ok(id) => id,
            Err(_) => {
                return Err(KernelSpawnError::ParentNotFound);
            },
        };
        self.meters.push(QuotaMeter::new(tokens, tools));
        self.ledger.append(AuditAction::AgentSpawn, id, name, now);
        Ok(id)
    }

    /// The kill pipeline: marks the agent killed, orphans its children,
    /// drops every tool slot the agent still held, and appends the
    /// `AgentKill` record. A second kill of the same id returns `NotFound`
    /// and changes nothing: the state never transitions twice and the held
    /// slots are never released twice.
    pub fn kill_agent(&mut self, id: u64, now: u64) -> (r: Result<(), KillError>)
        requires
            kernel_wf(*old(self)),
            old(self).ledger@.len() < u64::MAX,
        ensures
            kernel_wf(*final(self)),
            r is Ok <==> is_live(old(self).registry.agents@, id),
            r is Err ==> r == Err::<(), KillError>(KillError::NotFound) && *final(self) == *old(
                self,
            ),
            r is Ok ==> {
                &&& final(self).registry.agents@ == spec_kill(old(self).registry.agents@, id).0
                &&& final(self).meters@ == old(self).meters@.update(
                    id as int,
                    (QuotaMeter { in_flight: 0, ..old(self).meters@[id as int] }),
                )
                &&& final(self).ledger@.len() == old(self).ledger@.len() + 1
                &&& final(self).ledger@.last().action == AuditAction::AgentKill
                &&& final(self).ledger@.last().agent == id
                &&& final(self).ledger@ == old(self).ledger@.push(final(self).ledger@.last())
            },
    {
        match self.registry.kill(id) {
            Ok(u) => u,
            Err(e) => {
                return Err(e);
            },
        };
        let nm = self.meters.len();
        proof {
            assert(id < nm as u64);
        }
        let idu = id as usize;
        let meter = &mut self.meters[idu];
        meter.release_all_slots();
        proof {
            assert(self.meters@[idu as int] =~= (QuotaMeter {
                in_flight: 0,
                ..old(self).meters@[id as int]
            }));
            assert(self.meters@ =~= old(self).meters@.update(
                id as int,
                (QuotaMeter { in_flight: 0, ..old(self).meters@[id as int] }),
            ));
        }
        self.ledger.append(AuditAction::AgentKill, id, String::new(), now);
        proof {
            assert(self.ledger@ =~= old(self).ledger@.push(self.ledger@.last()));
            assert forall|i: int| 0 <= i < self.meters@.len() implies meter_wf(
                #[trigger] self.meters@[i],
            ) && self.meters@[i].max_llm_tokens_per_hour
                == self.registry.agents@[i].manifest.resources.max_llm_tokens_per_hour
                && self.meters@[i].max_concurrent_tools
                == self.registry.agents@[i].manifest.resources.max_concurrent_tools by {
                assert(meter_wf(old(self).meters@[i]));
                assert(self.registry.agents@[i].manifest == old(self).registry.agents@[i].manifest);
            }
        }
        Ok(())
    }

    /// The tool pipeline: the capability guard first, the quota meter
    /// second, the ledger last. A capability denial is appended with the
    /// attempted tool name as its detail and returned to the caller; a
    /// quota denial is appended and returned; an admitted call holds one
    /// tool slot and appends its `ToolInvoke` record. The caller must pair
    /// an admitted call with `finish_tool` on every exit path.
    pub fn invoke_tool(&mut self, id: u64, tool: &str, now: u64) -> (r: Result<(), InvokeError>)
        requires
            kernel_wf(*old(self)),
            old(self).ledger@.len() < u64::MAX,
        ensures
            kernel_wf(*final(self)),
            r == Err::<(), InvokeError>(InvokeError::NotFound) <==> !is_live(
                old(self).registry.agents@,
                id,
            ),
            r is Err && !(r == Err::<(), InvokeError>(InvokeError::NotFound))
                ==> final(self).registry == old(self).registry,
            r == Err::<(), InvokeError>(InvokeError::NotFound) ==> *final(self) == *old(self),
            r matches Err(InvokeError::Capability(d)) ==> {
                &&& !capability::tool_allowed(
                    capability::char_views(
                        old(self).registry.agents@[id as int].manifest.capabilities.tools@,
                    ),
                    tool@,
                )
                &&& final(self).ledger@.len() == old(self).ledger@.len() + 1
                &&& final(self).ledger@.last().action == AuditAction::CapabilityDenied
                &&& final(self).ledger@.last().agent == id
                &&& final(self).ledger@.last().detail == tool@
                &&& final(self).meters@ == old(self).meters@
            },
            r == Err::<(), InvokeError>(InvokeError::Quota) ==> {
                &&& is_live(old(self).registry.agents@, id)
                &&& capability::tool_allowed(
                    capability::char_views(
                        old(self).registry.agents@[id as int].manifest.capabilities.tools@,
                    ),
                    tool@,
                )
                &&& old(self).meters@[id as int].in_flight
                    >= old(self).meters@[id as int].max_concurrent_tools
                &&& final(self).meters@ == old(self).meters@
                &&& final(self).ledger@.len() == old(self).ledger@.len() + 1
                &&& final(self).ledger@.last().action == AuditAction::QuotaDenied
                &&& final(self).ledger@.last().agent == id
            },
            r is Ok ==> {
                &&& is_live(old(self).registry.agents@, id)
                &&& capability::tool_allowed(
                    capability::char_views(
                        old(self).registry.agents@[id as int].manifest.capabilities.tools@,
                    ),
                    tool@,
                )
                &&& old(self).meters@[id as int].in_flight
                    < old(self).meters@[id as int].max_concurrent_tools
                &&& final(self).meters@ == old(self).meters@.update(
                    id as int,
                    (QuotaMeter {
                        in_flight: (old(self).meters@[id as int].in_flight + 1) as u32,
                        ..old(self).meters@[id as int]
                    }),
                )
                &&& final(self).ledger@.len() == old(self).ledger@.len() + 1
                &&& final(self).ledger@.last().action == AuditAction::ToolInvoke
                &&& final(self).ledger@.last().agent == id
                &&& final(self).ledger@.last().detail == tool@
            },
    {
        let entry = match self.registry.get(id) {
            Some(e) => e,
            None => {
                return Err(InvokeError::NotFound);
            },
        };
        match capability::check_tool(&entry.manifest, tool) {
            Ok(u) => u,
            Err(d) => {
                let detail = tool.to_owned();
                self.ledger.append(AuditAction::CapabilityDenied, id, detail, now);
                return Err(InvokeError::Capability(d));
            },
        };
        let nm = self.meters.len();
        proof {
            assert(id < nm as u64);
        }
        let idu = id as usize;
        let admitted = {
            let meter = &mut self.meters[idu];
            meter.try_acquire_tool_slot()
        };
        match admitted {
            Ok(u) => u,
            Err(_) => {
                proof {
                    assert(self.meters@[idu as int] =~= old(self).meters@[idu as int]);
                    assert(self.meters@ =~= old(self).meters@);
                }
                self.ledger.append(AuditAction::QuotaDenied, id, String::new(), now);
                return Err(InvokeError::Quota);
            },
        };
        proof {
            assert(self.meters@[idu as int] =~= (QuotaMeter {
                in_flight: (old(self).meters@[id as int].in_flight + 1) as u32,
                ..old(self).meters@[id as int]
            }));
            assert(self.meters@ =~= old(self).meters@.update(
                id as int,
                (QuotaMeter {
                    in_flight: (old(self).meters@[id as int].in_flight + 1) as u32,
                    ..old(self).meters@[id as int]
                }),
            ));
            assert forall|i: int| 0 <= i < self.meters@.len() implies meter_wf(
                #[trigger] self.meters@[i],
            ) by {
                assert(meter_wf(old(self).meters@[i]));
            }
        }
        let detail = tool.to_owned();
        self.ledger.append(AuditAction::ToolInvoke, id, detail, now);
        Ok(())
    }

    /// Returns the tool slot an admitted `invoke_tool` held; release is the
    /// caller's duty on success, failure, timeout and cancellation alike.
    pub fn finish_tool(&mut self, id: u64)
        requires
            kernel_wf(*old(self)),
        ensures
            kernel_wf(*final(self)),
            final(self).registry == old(self).registry,
            final(self).ledger == old(self).ledger,
            id < old(self).meters@.len() ==> final(self).meters@ == old(self).meters@.update(
                id as int,
                (QuotaMeter {
                    in_flight: if old(self).meters@[id as int].in_flight > 0 {
                        (old(self).meters@[id as int].in_flight - 1) as u32
                    } else {
                        0
                    },
                    ..old(self).meters@[id as int]
                }),
            ),
            id >= old(self).meters@.len() ==> *final(self) == *old(self),
    {
        let n = self.meters.len();
        if id < n as u64 {
            let idu = id as usize;
            let meter = &mut self.meters[idu];
            meter.release_tool_slot();
            proof {
                assert(self.meters@[idu as int] =~= (QuotaMeter {
                    in_flight: if old(self).meters@[id as int].in_flight > 0 {
                        (old(self).meters@[id as int].in_flight - 1) as u32
                    } else {
                        0
                    },
                    ..old(self).meters@[id as int]
                }));
                assert(self.meters@ =~= old(self).meters@.update(
                    id as int,
                    (QuotaMeter {
                        in_flight: if old(self).meters@[id as int].in_flight > 0 {
                            (old(self).meters@[id as int].in_flight - 1) as u32
                        } else {
                            0
                        },
                        ..old(self).meters@[id as int]
                    }),
                ));
                assert forall|i: int| 0 <= i < self.meters@.len() implies meter_wf(
                    #[trigger] self.meters@[i],
                ) by {
                    assert(meter_wf(old(self).meters@[i]));
                }
            }
        }
    }

    /// Admits `n` tokens against the agent's rolling hourly window; a
    /// denial is appended to the ledger and retryable once the window
    /// rolls.
    pub fn consume_tokens(&mut self, id: u64, n: u64, now: u64) -> (r: Result<(), InvokeError>)
        requires
            kernel_wf(*old(self)),
            old(self).ledger@.len() < u64::MAX,
        ensures
            kernel_wf(*final(self)),
            r == Err::<(), InvokeError>(InvokeError::NotFound) <==> !is_live(
                old(self).registry.agents@,
                id,
            ),
            r == Err::<(), InvokeError>(InvokeError::NotFound) ==> *final(self) == *old(self),
            r is Ok <==> is_live(old(self).registry.agents@, id) && crate::quota::sum_amounts(
                crate::quota::kept(old(self).meters@[id as int].window@, now),
            ) + n <= old(self).meters@[id as int].max_llm_tokens_per_hour,
            r == Err::<(), InvokeError>(InvokeError::Quota) <==> is_live(
                old(self).registry.agents@,
                id,
            ) && crate::quota::sum_amounts(
                crate::quota::kept(old(self).meters@[id as int].window@, now),
            ) + n > old(self).meters@[id as int].max_llm_tokens_per_hour,
            r is Ok ==> final(self).meters@ == old(self).meters@.update(
                id as int,
                (QuotaMeter {
                    window: final(self).meters@[id as int].window,
                    ..old(self).meters@[id as int]
                }),
            ) && final(self).meters@[id as int].window@ == crate::quota::kept(
                old(self).meters@[id as int].window@,
                now,
            ).push((now, n)) && final(self).ledger@ == old(self).ledger@,
            r == Err::<(), InvokeError>(InvokeError::Quota) ==> {
                &&& final(self).meters@[id as int].window@ == crate::quota::kept(
                    old(self).meters@[id as int].window@,
                    now,
                )
                &&& final(self).ledger@.len() == old(self).ledger@.len() + 1
                &&& final(self).ledger@.last().action == AuditAction::QuotaDenied
                &&& final(self).ledger@.last().agent == id
            },
    {
        let alive = {
            match self.registry.get(id) {
                Some(e) => true,
                None => false,
            }
        };
        if !alive {
            return Err(InvokeError::NotFound);
        }
        let nm = self.meters.len();
        proof {
            assert(id < nm as u64);
        }
        let idu = id as usize;
        let admitted = {
            let meter = &mut self.meters[idu];
            meter.try_consume_tokens(n, now)
        };
        proof {
            assert(self.meters@ =~= old(self).meters@.update(
                id as int,
                self.meters@[id as int],
            ));
            assert forall|i: int| 0 <= i < self.meters@.len() implies meter_wf(
                #[trigger] self.meters@[i],
            ) by {
                if i != id {
                    assert(self.meters@[i] == old(self).meters@[i]);
                    assert(meter_wf(old(self).meters@[i]));
                }
            }
        }
        match admitted {
            Ok(u) => Ok(u),
            Err(_) => {
                self.ledger.append(AuditAction::QuotaDenied, id, String::new(), now);
                Err(InvokeError::Quota)
            },
        }
    }

    /// Registers a trigger definition under a fresh id; a pattern that does
    /// not compile is refused synchronously.
    pub fn register_trigger(&mut self, def: TriggerDefinition) -> (r: Result<u64, RegisterError>)
        requires
            kernel_wf(*old(self)),
            old(self).scheduler.next_id < u64::MAX,
        ensures
            kernel_wf(*final(self)),
            r is Ok <==> crate::trigger::pattern_wf(def.pattern),
            final(self).registry == old(self).registry,
            final(self).ledger == old(self).ledger,
            final(self).meters == old(self).meters,
            r is Err ==> *final(self) == *old(self) && r == Err::<u64, RegisterError>(
                RegisterError::InvalidPattern,
            ),
            r matches Ok(tid) ==> final(self).scheduler.triggers@
                == old(self).scheduler.triggers@.push((TriggerDefinition { id: tid, ..def })),
    {
        self.scheduler.register(def)
    }

    /// Feeds one event to every standing trigger: each firing is appended
    /// to the ledger as a `TriggerFired` record naming its trigger id
    /// before the actions are handed back for execution, where they pass
    /// the same capability and quota checks as any other action.
    pub fn handle_event(&mut self, e: &Event, now: u64) -> (r: Vec<FiredAction>)
        requires
            kernel_wf(*old(self)),
            old(self).ledger@.len() + old(self).scheduler.triggers@.len() < u64::MAX,
        ensures
            kernel_wf(*final(self)),
            r@ == fired_actions(old(self).scheduler.triggers@, *e),
            final(self).registry == old(self).registry,
            final(self).meters == old(self).meters,
            final(self).scheduler.next_id == old(self).scheduler.next_id,
            final(self).scheduler.triggers@.len() == old(self).scheduler.triggers@.len(),
            forall|i: int|
                0 <= i < old(self).scheduler.triggers@.len()
                    ==> #[trigger] final(self).scheduler.triggers@[i] == (
                    if crate::trigger::fires(old(self).scheduler.triggers@[i], *e) {
                        crate::trigger::fired_update(old(self).scheduler.triggers@[i], *e)
                    } else {
                        old(self).scheduler.triggers@[i]
                    }),
            final(self).ledger@.len() == old(self).ledger@.len() + r@.len(),
            forall|i: int|
                0 <= i < r@.len() ==> {
                    &&& (#[trigger] final(self).ledger@[old(self).ledger@.len() + i]).action
                        == AuditAction::TriggerFired
                    &&& final(self).ledger@[old(self).ledger@.len() + i].agent == r@[i].agent_id
                    &&& final(self).ledger@[old(self).ledger@.len() + i].detail == dec_digits(
                        r@[i].trigger_id as nat,
                    )
                },
            forall|i: int|
                0 <= i < old(self).ledger@.len()
                    ==> #[trigger] final(self).ledger@[i] == old(self).ledger@[i],
    {
        proof {
            crate::trigger::lemma_fired_actions_len(old(self).scheduler.triggers@, *e);
        }
        let actions = self.scheduler.on_event(e);
        let ghost post_sched = self.scheduler;
        let mut i: usize = 0;
        let n = actions.len();
        while i < n
            invariant
                i <= n,
                n == actions@.len(),
                kernel_wf(*self),
                self.registry == old(self).registry,
                self.meters == old(self).meters,
                self.scheduler == post_sched,
                actions@ == fired_actions(old(self).scheduler.triggers@, *e),
                self.ledger@.len() == old(self).ledger@.len() + i,
                forall|j: int|
                    0 <= j < i ==> {
                        &&& (#[trigger] self.ledger@[old(self).ledger@.len() + j]).action
                            == AuditAction::TriggerFired
                        &&& self.ledger@[old(self).ledger@.len() + j].agent == actions@[j].agent_id
                        &&& self.ledger@[old(self).ledger@.len() + j].detail == dec_digits(
                            actions@[j].trigger_id as nat,
                        )
                    },
                forall|j: int|
                    0 <= j < old(self).ledger@.len()
                        ==> #[trigger] self.ledger@[j] == old(self).ledger@[j],
            decreases n - i,
        {
            let agent = actions[i].agent_id;
            let detail = crate::strutil::u64_string(actions[i].trigger_id);
            self.ledger.append(AuditAction::TriggerFired, agent, detail, now);
            i = i + 1;
        }
        actions
    }

    /// Whether the stored chain still verifies; the first broken sequence
    /// number is reported otherwise.
    pub fn verify_chain(&self) -> (r: Result<(), crate::ledger::ChainBroken>)
        ensures
            r is Ok <==> chain_ok(self.ledger@),
    {
        self.ledger.verify_chain()
    }
}

} // verus!
