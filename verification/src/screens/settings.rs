//! Settings screen state: provider, tool and probe shapes and the actions
//! the screen can request.

use vstd::prelude::*;

verus! {

/// One configurable model provider.
#[derive(Clone, Debug)]
pub struct ProviderInfo {
    pub name: String,
    pub configured: bool,
    pub env_var: String,
    pub is_local: bool,
    pub reachable: Option<bool>,
    pub latency_ms: Option<u64>,
}

/// One built-in tool shown on the tools tab.
#[derive(Clone, Debug)]
pub struct ToolInfo {
    pub name: String,
    pub description: String,
}

/// The outcome of probing a provider.
#[derive(Clone, Debug)]
pub struct TestResult {
    pub provider: String,
    pub success: bool,
    pub latency_ms: u64,
    pub message: String,
}

/// Which tab of the settings screen is showing.
#[derive(Clone, Copy, PartialEq, Eq, Structural, Debug)]
pub enum SettingsSub {
    Providers,
    Models,
    Tools,
}

/// What the settings screen asks its driver to do next.
#[derive(Debug)]
pub enum SettingsAction {
    Continue,
    RefreshProviders,
    RefreshModels,
    RefreshTools,
    SaveProviderKey { name: String, key: String },
    DeleteProviderKey(String),
    TestProvider(String),
}

} // verus!
