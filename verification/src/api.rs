//! Request and response shapes of the control plane's wire surface; the
//! outer server deserializes into copies of these and converts.

use vstd::prelude::*;

verus! {

/// Request to spawn an agent from a TOML manifest string; when a signed
/// envelope is present, the signature is verified before spawning.
#[derive(Clone, Debug)]
pub struct SpawnRequest {
    pub manifest_toml: String,
    pub signed_manifest: Option<String>,
}

/// Response after spawning an agent.
#[derive(Clone, Debug)]
pub struct SpawnResponse {
    pub agent_id: String,
    pub name: String,
}

/// A file attachment reference from a prior upload.
#[derive(Clone, Debug)]
pub struct AttachmentRef {
    pub file_id: String,
    pub filename: String,
    pub content_type: String,
}

/// Request to send a message to an agent.
#[derive(Clone, Debug)]
pub struct MessageRequest {
    pub message: String,
    pub attachments: Vec<AttachmentRef>,
}

/// Request to install a skill from the marketplace.
#[derive(Clone, Debug)]
pub struct SkillInstallRequest {
    pub name: String,
}

/// Request to uninstall a skill.
#[derive(Clone, Debug)]
pub struct SkillUninstallRequest {
    pub name: String,
}

/// Request to update an agent's manifest.
#[derive(Clone, Debug)]
pub struct AgentUpdateRequest {
    pub manifest_toml: String,
}

/// Request to run a migration.
#[derive(Clone, Debug)]
pub struct MigrateRequest {
    pub source: String,
    pub source_dir: String,
    pub target_dir: String,
    pub dry_run: bool,
}

/// Request to scan a directory for migration.
#[derive(Clone, Debug)]
pub struct MigrateScanRequest {
    pub path: String,
}

/// Request to install a skill by its marketplace slug.
#[derive(Clone, Debug)]
pub struct ClawHubInstallRequest {
    pub slug: String,
}

} // verus!
