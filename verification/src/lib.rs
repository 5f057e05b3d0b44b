#![verifier::loop_isolation(false)]
//! Control plane of an agent operating system: manifest verification,
//! capability checks, resource quotas, the agent registry, a hash-chained
//! audit ledger, and event triggers, together with the plain data types and
//! text helpers that front ends consume.

pub mod api;
pub mod capability;
pub mod channel;
pub mod kernel;
pub mod ledger;
pub mod manifest;
pub mod quota;
pub mod registry;
pub mod screens;
pub mod strutil;
pub mod text;
pub mod trigger;
