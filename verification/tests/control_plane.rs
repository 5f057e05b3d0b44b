//! Tests of the control plane: manifest verification, capability checks,
//! quotas, the registry, the audit chain, triggers, and the kernel
//! pipeline.

use ed25519_dalek::Signer;
use openfang_core::capability::{check_memory, check_tool, glob_matches, ReadOrWrite};
use openfang_core::kernel::{InvokeError, Kernel};
use openfang_core::ledger::{AuditAction, AuditLedger, AuditQuery};
use openfang_core::manifest::{
    verify, AgentManifest, CapabilitySet, ManifestError, ModelConfig, ResourceLimits,
    SignedEnvelope,
};
use openfang_core::quota::QuotaMeter;
use openfang_core::registry::{AgentRegistry, AgentState, KillError, TransitionError};
use openfang_core::trigger::{
    Event, RegisterError, TriggerDefinition, TriggerPattern, TriggerScheduler, UnregisterError,
};

fn manifest_with_tools(tools: &[&str]) -> AgentManifest {
    AgentManifest {
        name: "tester".to_string(),
        version: "0.1.0".to_string(),
        description: String::new(),
        author: String::new(),
        module: String::new(),
        tags: Vec::new(),
        skills: Vec::new(),
        mcp_servers: Vec::new(),
        model: ModelConfig {
            provider: String::new(),
            model: String::new(),
            max_tokens: 0,
            temperature: None,
            system_prompt: String::new(),
        },
        resources: ResourceLimits {
            max_llm_tokens_per_hour: 1000,
            max_concurrent_tools: 3,
        },
        capabilities: CapabilitySet {
            tools: tools.iter().map(|t| t.to_string()).collect(),
            memory_read: vec!["notes/*".to_string()],
            memory_write: vec!["notes/private".to_string()],
        },
    }
}

const MANIFEST_TOML: &str = r#"
name = "scout"
version = "1.2.0"
description = "fetches pages"
author = "ops"
module = "scout_main"
tags = ["web"]
skills = []
mcp_servers = []

[model]
provider = "local"
model = "small"
max_tokens = 2048
temperature = 0.5
system_prompt = "be brief"

[resources]
max_llm_tokens_per_hour = 1000
max_concurrent_tools = 3

[capabilities]
tools = ["web_fetch"]
memory_read = ["notes/*"]
memory_write = []
"#;

#[test]
fn tool_allowlist_exact() {
    let m = manifest_with_tools(&["a", "b"]);
    assert!(check_tool(&m, "a").is_ok());
    assert!(check_tool(&m, "b").is_ok());
    assert!(check_tool(&m, "c").is_err());
}

#[test]
fn tool_wildcard_allows_everything() {
    let m = manifest_with_tools(&["*"]);
    assert!(check_tool(&m, "anything").is_ok());
    let empty = manifest_with_tools(&[]);
    assert!(check_tool(&empty, "anything").is_err());
}

#[test]
fn memory_globs() {
    let m = manifest_with_tools(&["a"]);
    assert!(check_memory(&m, ReadOrWrite::Read, "notes/today").is_ok());
    assert!(check_memory(&m, ReadOrWrite::Read, "secrets/key").is_err());
    assert!(check_memory(&m, ReadOrWrite::Write, "notes/private").is_ok());
    assert!(check_memory(&m, ReadOrWrite::Write, "notes/other").is_err());
    assert!(glob_matches("a/*/c", "a/b/c"));
    assert!(!glob_matches("a/*/c", "a/b/d"));
    assert!(!glob_matches("a/*", "a/b/c"));
    assert!(glob_matches("", ""));
}

#[test]
fn manifest_parses_and_validates() {
    let m = verify(MANIFEST_TOML, None).expect("manifest should verify");
    assert_eq!(m.name, "scout");
    assert_eq!(m.version, "1.2.0");
    assert_eq!(m.module, "scout_main");
    assert_eq!(m.tags, vec!["web".to_string()]);
    assert_eq!(m.model.provider, "local");
    assert_eq!(m.model.max_tokens, 2048);
    assert_eq!(m.model.temperature, Some("0.5".to_string()));
    assert_eq!(m.resources.max_llm_tokens_per_hour, 1000);
    assert_eq!(m.resources.max_concurrent_tools, 3);
    assert_eq!(m.capabilities.tools, vec!["web_fetch".to_string()]);
}

#[test]
fn manifest_error_variants() {
    assert_eq!(verify("not [valid toml", None).unwrap_err(), ManifestError::ParseError);
    assert_eq!(verify("version = \"1\"", None).unwrap_err(), ManifestError::ParseError);
    let no_resources = "name = \"x\"\n";
    assert_eq!(verify(no_resources, None).unwrap_err(), ManifestError::ParseError);
    let zero = MANIFEST_TOML.replace(
        "max_llm_tokens_per_hour = 1000",
        "max_llm_tokens_per_hour = 0",
    );
    assert_eq!(verify(&zero, None).unwrap_err(), ManifestError::ValidationError);
    let negative = MANIFEST_TOML.replace("max_concurrent_tools = 3", "max_concurrent_tools = -2");
    assert_eq!(verify(&negative, None).unwrap_err(), ManifestError::ValidationError);
    let bad_glob = MANIFEST_TOML.replace("memory_read = [\"notes/*\"]", "memory_read = [\"a*b\"]");
    assert_eq!(verify(&bad_glob, None).unwrap_err(), ManifestError::ValidationError);
}

#[test]
fn signed_manifest_round_trip_and_tamper() {
    let signing = ed25519_dalek::SigningKey::from_bytes(&[7u8; 32]);
    let signature = signing.sign(MANIFEST_TOML.as_bytes());
    let envelope = SignedEnvelope {
        public_key: signing.verifying_key().to_bytes().to_vec(),
        signature: signature.to_bytes().to_vec(),
    };
    assert!(verify(MANIFEST_TOML, Some(&envelope)).is_ok());

    // Mutating a single byte of the manifest text invalidates verification.
    let tampered = MANIFEST_TOML.replace("scout", "scoot");
    assert_eq!(
        verify(&tampered, Some(&envelope)).unwrap_err(),
        ManifestError::SignatureInvalid
    );

    // A wrong-size key or signature never validates.
    let short = SignedEnvelope {
        public_key: vec![0u8; 31],
        signature: signature.to_bytes().to_vec(),
    };
    assert_eq!(
        verify(MANIFEST_TOML, Some(&short)).unwrap_err(),
        ManifestError::SignatureInvalid
    );
}

#[test]
fn chain_of_appends_verifies() {
    let mut ledger = AuditLedger::new();
    assert!(ledger.verify_chain().is_ok());
    ledger.append(AuditAction::AgentSpawn, 0, "scout".to_string(), 10);
    ledger.append(AuditAction::ToolInvoke, 0, "web_fetch".to_string(), 11);
    ledger.append(AuditAction::AgentKill, 0, String::new(), 12);
    assert!(ledger.verify_chain().is_ok());
    assert_eq!(ledger.len(), 3);
}

#[test]
fn chain_tamper_reports_first_broken_sequence() {
    let mut ledger = AuditLedger::new();
    for i in 0..4u64 {
        ledger.append(AuditAction::ToolInvoke, i, format!("call {i}"), 100 + i);
    }
    // Altering a stored entry breaks the chain exactly at its sequence.
    ledger.entries[2].detail = "forged".to_string();
    let err = ledger.verify_chain().unwrap_err();
    assert_eq!(err.at_sequence, 2);
    // Inserting an entry breaks the chain at the insertion point.
    let mut ledger2 = AuditLedger::new();
    ledger2.append(AuditAction::ToolInvoke, 1, "one".to_string(), 1);
    ledger2.append(AuditAction::ToolInvoke, 2, "two".to_string(), 2);
    let stray = openfang_core::ledger::AuditEntry {
        sequence: 1,
        timestamp: 9,
        action: AuditAction::ConfigChange,
        agent: 9,
        detail: "inserted".to_string(),
        tip_hash: vec![0u8; 32],
    };
    ledger2.entries.insert(1, stray);
    let err = ledger2.verify_chain().unwrap_err();
    assert_eq!(err.at_sequence, 1);
}

#[test]
fn query_filters_by_agent_and_action() {
    let mut ledger = AuditLedger::new();
    ledger.append(AuditAction::AgentSpawn, 1, "a".to_string(), 1);
    ledger.append(AuditAction::ToolInvoke, 1, "b".to_string(), 2);
    ledger.append(AuditAction::ToolInvoke, 2, "c".to_string(), 3);
    let all = ledger.query(&AuditQuery { agent: None, action: None });
    assert_eq!(all.len(), 3);
    assert!(all.windows(2).all(|w| w[0].sequence < w[1].sequence));
    let one = ledger.query(&AuditQuery { agent: Some(1), action: None });
    assert_eq!(one.len(), 2);
    let tools = ledger.query(&AuditQuery {
        agent: Some(1),
        action: Some(AuditAction::ToolInvoke),
    });
    assert_eq!(tools.len(), 1);
    assert_eq!(tools[0].detail, "b");
}

#[test]
fn quota_window_of_one_hour() {
    let mut meter = QuotaMeter::new(1000, 3);
    for _ in 0..9 {
        assert!(meter.try_consume_tokens(100, 0).is_ok());
    }
    // The tenth call reaches exactly the limit and still succeeds.
    assert!(meter.try_consume_tokens(100, 0).is_ok());
    // The eleventh is over the limit.
    assert!(meter.try_consume_tokens(100, 0).is_err());
    // Once the oldest consumption ages out of the window, an equivalent
    // amount becomes consumable again.
    assert!(meter.try_consume_tokens(100, 3600).is_ok());
    let mut late = QuotaMeter::new(1000, 3);
    assert!(late.try_consume_tokens(1000, 0).is_ok());
    assert!(late.try_consume_tokens(1, 3599).is_err());
    assert!(late.try_consume_tokens(1000, 3600).is_ok());
}

#[test]
fn tool_slots_admit_exactly_the_limit() {
    let mut meter = QuotaMeter::new(1000, 3);
    let mut admitted = 0;
    for _ in 0..5 {
        if meter.try_acquire_tool_slot().is_ok() {
            admitted += 1;
        }
    }
    assert_eq!(admitted, 3);
    // Denied until a release occurs.
    assert!(meter.try_acquire_tool_slot().is_err());
    meter.release_tool_slot();
    assert!(meter.try_acquire_tool_slot().is_ok());
}

#[test]
fn registry_spawn_get_list_count() {
    let mut reg = AgentRegistry::new();
    let parent = reg.spawn(manifest_with_tools(&["a"]), None, 5).unwrap();
    let child = reg.spawn(manifest_with_tools(&["b"]), Some(parent), 6).unwrap();
    assert_eq!(reg.count(), 2);
    assert_eq!(reg.list(), vec![parent, child]);
    let entry = reg.get(child).unwrap();
    assert_eq!(entry.parent, Some(parent));
    assert_eq!(entry.state, AgentState::Running);
    assert!(reg.get(99).is_none());
    // A child under a dead or unknown parent is refused.
    assert!(reg.spawn(manifest_with_tools(&["a"]), Some(99), 7).is_err());
    // An invalid manifest is refused.
    let mut bad = manifest_with_tools(&["a"]);
    bad.resources.max_llm_tokens_per_hour = 0;
    assert!(reg.spawn(bad, None, 8).is_err());
}

#[test]
fn kill_is_idempotent_and_orphans_children() {
    let mut reg = AgentRegistry::new();
    let parent = reg.spawn(manifest_with_tools(&["a"]), None, 5).unwrap();
    let child = reg.spawn(manifest_with_tools(&["b"]), Some(parent), 6).unwrap();
    assert!(reg.kill(parent).is_ok());
    // The child is orphaned, not killed.
    let entry = reg.get(child).unwrap();
    assert_eq!(entry.parent, None);
    assert_eq!(entry.state, AgentState::Running);
    // Killing an already-killed id reports NotFound, twice.
    assert_eq!(reg.kill(parent), Err(KillError::NotFound));
    assert_eq!(reg.kill(parent), Err(KillError::NotFound));
    assert_eq!(reg.kill(42), Err(KillError::NotFound));
}

#[test]
fn lifecycle_transitions() {
    let mut reg = AgentRegistry::new();
    let id = reg.spawn(manifest_with_tools(&["a"]), None, 5).unwrap();
    assert!(reg.set_state(id, AgentState::Paused).is_ok());
    assert_eq!(
        reg.set_state(id, AgentState::Errored),
        Err(TransitionError::InvalidTransition)
    );
    assert!(reg.set_state(id, AgentState::Running).is_ok());
    assert!(reg.set_state(id, AgentState::Errored).is_ok());
    assert!(reg.set_state(id, AgentState::Killed).is_ok());
    assert_eq!(reg.set_state(id, AgentState::Running), Err(TransitionError::NotFound));
}

fn content_trigger(pattern: &str, max_fires: u64) -> TriggerDefinition {
    TriggerDefinition {
        id: 0,
        agent_id: 0,
        pattern: TriggerPattern::ContentMatch(pattern.to_string()),
        prompt: "look into it".to_string(),
        max_fires,
        fire_count: 0,
        enabled: true,
        last_boundary: 0,
    }
}

fn message(text: &str) -> Event {
    Event::ChannelMessage {
        channel: "webchat".to_string(),
        text: text.to_string(),
    }
}

#[test]
fn content_trigger_fires_once_with_budget_one() {
    let mut sched = TriggerScheduler::new();
    let id = sched.register(content_trigger("error", 1)).unwrap();
    let first = sched.on_event(&message("an error occurred"));
    assert_eq!(first.len(), 1);
    assert_eq!(first[0].trigger_id, id);
    assert_eq!(first[0].prompt, "look into it");
    assert_eq!(sched.triggers[0].fire_count, 1);
    let second = sched.on_event(&message("another error occurred"));
    assert!(second.is_empty());
    assert_eq!(sched.triggers[0].fire_count, 1);
}

#[test]
fn trigger_patterns_and_registration() {
    let mut sched = TriggerScheduler::new();
    // A regex that does not compile is refused synchronously.
    assert_eq!(
        sched.register(content_trigger("(unclosed", 0)),
        Err(RegisterError::InvalidPattern)
    );
    // A real alternation exercises the engine, not plain substring search.
    let id = sched.register(content_trigger("fail|crash", 0)).unwrap();
    assert_eq!(sched.on_event(&message("it crashed hard")).len(), 1);
    assert_eq!(sched.on_event(&message("all fine")).len(), 0);
    assert!(sched.unregister(id).is_ok());
    assert_eq!(sched.unregister(id), Err(UnregisterError::NotFound));
}

#[test]
fn schedule_trigger_fires_once_per_boundary() {
    let mut sched = TriggerScheduler::new();
    let mut def = content_trigger("x", 0);
    def.pattern = TriggerPattern::Schedule("60".to_string());
    sched.register(def).unwrap();
    // A bad period is refused.
    let mut bad = content_trigger("x", 0);
    bad.pattern = TriggerPattern::Schedule("every minute".to_string());
    assert_eq!(sched.register(bad), Err(RegisterError::InvalidPattern));
    // Crossing one boundary fires once; the same boundary never refires,
    // and several missed boundaries fire once on the next tick.
    assert_eq!(sched.on_event(&Event::Tick { now: 61 }).len(), 1);
    assert_eq!(sched.on_event(&Event::Tick { now: 90 }).len(), 0);
    assert_eq!(sched.on_event(&Event::Tick { now: 400 }).len(), 1);
}

#[test]
fn lifecycle_webhook_and_channel_patterns() {
    let mut sched = TriggerScheduler::new();
    let mut lifecycle = content_trigger("x", 0);
    lifecycle.pattern = TriggerPattern::Lifecycle;
    sched.register(lifecycle).unwrap();
    let mut hook = content_trigger("x", 0);
    hook.pattern = TriggerPattern::Webhook("SECRET-REDACTED".to_string());
    sched.register(hook).unwrap();
    let mut chan = content_trigger("x", 0);
    chan.pattern = TriggerPattern::ChannelMessage("webchat".to_string());
    sched.register(chan).unwrap();

    let fired = sched.on_event(&Event::Lifecycle {
        agent: 1,
        phase: "paused".to_string(),
    });
    assert_eq!(fired.len(), 1);
    let fired = sched.on_event(&Event::Webhook {
        token: "SECRET-REDACTED".to_string(),
    });
    assert_eq!(fired.len(), 1);
    let fired = sched.on_event(&Event::Webhook {
        token: "other".to_string(),
    });
    assert_eq!(fired.len(), 0);
    let fired = sched.on_event(&message("hello"));
    assert_eq!(fired.len(), 1);
    let fired = sched.on_event(&Event::ChannelMessage {
        channel: "mail".to_string(),
        text: "hello".to_string(),
    });
    assert_eq!(fired.len(), 0);
}

#[test]
fn kernel_denies_unlisted_tool_and_audits_it() {
    let mut kernel = Kernel::new();
    let id = kernel.spawn_agent(MANIFEST_TOML, None, None, 50).unwrap();
    // The manifest only lists web_fetch.
    let denied = kernel.invoke_tool(id, "shell_exec", 51);
    assert!(matches!(denied, Err(InvokeError::Capability(_))));
    let last = kernel.ledger.entries.last().unwrap();
    assert_eq!(last.action, AuditAction::CapabilityDenied);
    assert_eq!(last.agent, id);
    assert!(last.detail.contains("shell_exec"));
    assert!(kernel.verify_chain().is_ok());
}

#[test]
fn kernel_pipeline_spawn_invoke_kill() {
    let mut kernel = Kernel::new();
    let id = kernel.spawn_agent(MANIFEST_TOML, None, None, 50).unwrap();
    assert_eq!(kernel.ledger.entries[0].action, AuditAction::AgentSpawn);
    assert_eq!(kernel.ledger.entries[0].detail, "scout");

    // Three slots admit three concurrent calls, then deny.
    assert!(kernel.invoke_tool(id, "web_fetch", 51).is_ok());
    assert!(kernel.invoke_tool(id, "web_fetch", 52).is_ok());
    assert!(kernel.invoke_tool(id, "web_fetch", 53).is_ok());
    assert_eq!(kernel.invoke_tool(id, "web_fetch", 54), Err(InvokeError::Quota));
    kernel.finish_tool(id);
    assert!(kernel.invoke_tool(id, "web_fetch", 55).is_ok());

    // Token grants pass through the same pipeline.
    assert!(kernel.consume_tokens(id, 900, 56).is_ok());
    assert_eq!(kernel.consume_tokens(id, 200, 57), Err(InvokeError::Quota));

    assert!(kernel.kill_agent(id, 58).is_ok());
    assert_eq!(kernel.kill_agent(id, 59), Err(KillError::NotFound));
    assert_eq!(kernel.invoke_tool(id, "web_fetch", 60), Err(InvokeError::NotFound));
    assert_eq!(
        kernel.ledger.entries.last().unwrap().action,
        AuditAction::AgentKill
    );
    assert!(kernel.verify_chain().is_ok());
}

#[test]
fn kernel_records_trigger_firings() {
    let mut kernel = Kernel::new();
    let def = content_trigger("error", 1);
    let tid = kernel.register_trigger(def).unwrap();
    let fired = kernel.handle_event(&message("error in step 3"), 70);
    assert_eq!(fired.len(), 1);
    assert_eq!(fired[0].trigger_id, tid);
    let last = kernel.ledger.entries.last().unwrap();
    assert_eq!(last.action, AuditAction::TriggerFired);
    let fired = kernel.handle_event(&message("error again"), 71);
    assert!(fired.is_empty());
    assert!(kernel.verify_chain().is_ok());
}
