//! The state and action types behind each front-end screen: plain data a
//! renderer reads and the pure helpers that filter and label it. Drawing
//! and key handling live with the front end; nothing here touches a
//! terminal.

pub mod agents;
pub mod audit;
pub mod chat;
pub mod dashboard;
pub mod extensions;
pub mod hands;
pub mod logs;
pub mod memory;
pub mod peers;
pub mod sessions;
pub mod settings;
pub mod skills;
pub mod templates;
pub mod triggers;
pub mod usage;
pub mod workflows;
