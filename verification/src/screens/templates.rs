//! Templates screen state: ready-made agent templates and provider
//! credentials.

use vstd::prelude::*;

verus! {

/// One ready-made agent template.
#[derive(Clone, Debug)]
pub struct TemplateInfo {
    pub name: String,
    pub description: String,
    pub category: String,
    pub provider: String,
    pub model: String,
}

/// Whether a provider has credentials configured.
#[derive(Clone, Debug)]
pub struct ProviderAuth {
    pub name: String,
    pub configured: bool,
}

/// What the templates screen asks its driver to do next.
#[derive(Debug)]
pub enum TemplatesAction {
    Continue,
    Refresh,
    SpawnTemplate(String),
}

} // verus!
