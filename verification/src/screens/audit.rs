//! Audit screen state: the viewer's row shape, the action filter, and the
//! friendly names of raw action labels.

use vstd::prelude::*;
use vstd::string::StringSliceAdditionalSpecFns;
use crate::strutil::contains_bytes;
use crate::strutil::contains_sub;

verus! {

/// One displayed audit row, every field already rendered as text.
#[derive(Clone, Debug)]
pub struct AuditEntry {
    pub timestamp: String,
    pub action: String,
    pub agent: String,
    pub detail: String,
    pub tip_hash: String,
}

/// The audit viewer's action filter.
#[derive(Clone, Copy, PartialEq, Eq, Structural, Debug)]
pub enum AuditFilter {
    All,
    AgentSpawn,
    AgentKill,
    ToolInvoke,
    NetworkAccess,
    ShellExec,
}

/// What the audit screen asks its driver to do next.
#[derive(Clone, Copy, PartialEq, Eq, Structural, Debug)]
pub enum AuditAction {
    Continue,
    Refresh,
    VerifyChain,
}

/// Whether an action label falls under the filter: a keyword of the
/// filter's family occurs in the label.
pub open spec fn filter_matches(f: AuditFilter, action: Seq<u8>) -> bool {
    match f {
        AuditFilter::All => true,
        AuditFilter::AgentSpawn => contains_bytes(action, vstd::utf8::encode_utf8("Spawn"@))
            || contains_bytes(action, vstd::utf8::encode_utf8("spawn"@)) || contains_bytes(
            action,
            vstd::utf8::encode_utf8("Create"@),
        ) || contains_bytes(action, vstd::utf8::encode_utf8("create"@)),
        AuditFilter::AgentKill => contains_bytes(action, vstd::utf8::encode_utf8("Kill"@))
            || contains_bytes(action, vstd::utf8::encode_utf8("kill"@)) || contains_bytes(
            action,
            vstd::utf8::encode_utf8("Stop"@),
        ) || contains_bytes(action, vstd::utf8::encode_utf8("stop"@)),
        AuditFilter::ToolInvoke => contains_bytes(action, vstd::utf8::encode_utf8("Tool"@))
            || contains_bytes(action, vstd::utf8::encode_utf8("tool"@)) || contains_bytes(
            action,
            vstd::utf8::encode_utf8("Invoke"@),
        ) || contains_bytes(action, vstd::utf8::encode_utf8("invoke"@)),
        AuditFilter::NetworkAccess => contains_bytes(action, vstd::utf8::encode_utf8("Net"@))
            || contains_bytes(action, vstd::utf8::encode_utf8("net"@)) || contains_bytes(
            action,
            vstd::utf8::encode_utf8("Fetch"@),
        ) || contains_bytes(action, vstd::utf8::encode_utf8("fetch"@)) || contains_bytes(
            action,
            vstd::utf8::encode_utf8("Http"@),
        ) || contains_bytes(action, vstd::utf8::encode_utf8("http"@)),
        AuditFilter::ShellExec => contains_bytes(action, vstd::utf8::encode_utf8("Shell"@))
            || contains_bytes(action, vstd::utf8::encode_utf8("shell"@)) || contains_bytes(
            action,
            vstd::utf8::encode_utf8("Exec"@),
        ) || contains_bytes(action, vstd::utf8::encode_utf8("exec"@)) || contains_bytes(
            action,
            vstd::utf8::encode_utf8("Process"@),
        ) || contains_bytes(action, vstd::utf8::encode_utf8("process"@)),
    }
}

fn kw(hay: &str, needle: &str) -> (r: bool)
    ensures
        r == contains_bytes(vstd::utf8::encode_utf8(hay@), vstd::utf8::encode_utf8(needle@)),
{
    contains_sub(hay.as_bytes(), needle.as_bytes())
}

impl AuditFilter {
    /// The filter's display label.
    pub fn label(self) -> (r: &'static str)
        ensures
            self is All ==> r@ == "All"@,
            self is AgentSpawn ==> r@ == "Agent Created"@,
            self is AgentKill ==> r@ == "Agent Killed"@,
            self is ToolInvoke ==> r@ == "Tool Used"@,
            self is NetworkAccess ==> r@ == "Network"@,
            self is ShellExec ==> r@ == "Shell Exec"@,
    {
        match self {
            AuditFilter::All => "All",
            AuditFilter::AgentSpawn => "Agent Created",
            AuditFilter::AgentKill => "Agent Killed",
            AuditFilter::ToolInvoke => "Tool Used",
            AuditFilter::NetworkAccess => "Network",
            AuditFilter::ShellExec => "Shell Exec",
        }
    }

    /// The next filter in the cycle the filter key steps through.
    pub fn next(self) -> (r: AuditFilter)
        ensures
            r == match self {
                AuditFilter::All => AuditFilter::AgentSpawn,
                AuditFilter::AgentSpawn => AuditFilter::AgentKill,
                AuditFilter::AgentKill => AuditFilter::ToolInvoke,
                AuditFilter::ToolInvoke => AuditFilter::NetworkAccess,
                AuditFilter::NetworkAccess => AuditFilter::ShellExec,
                AuditFilter::ShellExec => AuditFilter::All,
            },
    {
        match self {
            AuditFilter::All => AuditFilter::AgentSpawn,
            AuditFilter::AgentSpawn => AuditFilter::AgentKill,
            AuditFilter::AgentKill => AuditFilter::ToolInvoke,
            AuditFilter::ToolInvoke => AuditFilter::NetworkAccess,
            AuditFilter::NetworkAccess => AuditFilter::ShellExec,
            AuditFilter::ShellExec => AuditFilter::All,
        }
    }

    /// Whether an action label falls under this filter.
    pub fn matches(self, action: &str) -> (r: bool)
        ensures
            r == filter_matches(self, vstd::utf8::encode_utf8(action@)),
    {
        match self {
            AuditFilter::All => true,
            AuditFilter::AgentSpawn => kw(action, "Spawn") || kw(action, "spawn") || kw(
                action,
                "Create",
            ) || kw(action, "create"),
            AuditFilter::AgentKill => kw(action, "Kill") || kw(action, "kill") || kw(action, "Stop")
                || kw(action, "stop"),
            AuditFilter::ToolInvoke => kw(action, "Tool") || kw(action, "tool") || kw(
                action,
                "Invoke",
            ) || kw(action, "invoke"),
            AuditFilter::NetworkAccess => kw(action, "Net") || kw(action, "net") || kw(
                action,
                "Fetch",
            ) || kw(action, "fetch") || kw(action, "Http") || kw(action, "http"),
            AuditFilter::ShellExec => kw(action, "Shell") || kw(action, "shell") || kw(
                action,
                "Exec",
            ) || kw(action, "exec") || kw(action, "Process") || kw(action, "process"),
        }
    }
}

/// Maps a raw action name to its friendly display name; an unknown name is
/// shown as it is.
pub fn friendly_action<'a>(action: &'a str) -> (r: &'a str)
    ensures
        r@ == (if action@ == "AgentSpawn"@ || action@ == "AgentSpawned"@ {
            "Agent Created"@
        } else if action@ == "AgentKill"@ || action@ == "AgentKilled"@ {
            "Agent Killed"@
        } else if action@ == "ToolInvoke"@ || action@ == "ToolInvocation"@ {
            "Tool Used"@
        } else if action@ == "NetworkAccess"@ || action@ == "NetFetch"@ {
            "Network Access"@
        } else if action@ == "ShellExec"@ || action@ == "ShellCommand"@ {
            "Shell Exec"@
        } else if action@ == "CapabilityDenied"@ {
            "Access Denied"@
        } else if action@ == "ConfigChange"@ {
            "Config Changed"@
        } else {
            action@
        }),
{
    if crate::strutil::str_eq(action, "AgentSpawn") || crate::strutil::str_eq(
        action,
        "AgentSpawned",
    ) {
        "Agent Created"
    } else if crate::strutil::str_eq(action, "AgentKill") || crate::strutil::str_eq(
        action,
        "AgentKilled",
    ) {
        "Agent Killed"
    } else if crate::strutil::str_eq(action, "ToolInvoke") || crate::strutil::str_eq(
        action,
        "ToolInvocation",
    ) {
        "Tool Used"
    } else if crate::strutil::str_eq(action, "NetworkAccess") || crate::strutil::str_eq(
        action,
        "NetFetch",
    ) {
        "Network Access"
    } else if crate::strutil::str_eq(action, "ShellExec") || crate::strutil::str_eq(
        action,
        "ShellCommand",
    ) {
        "Shell Exec"
    } else if crate::strutil::str_eq(action, "CapabilityDenied") {
        "Access Denied"
    } else if crate::strutil::str_eq(action, "ConfigChange") {
        "Config Changed"
    } else {
        action
    }
}

} // verus!
