//! The ingress fabric of a multi-channel chat bot: which Slack and Mattermost
//! events reach the agent, per-thread wake/sleep and activity state, mention
//! detection, inactivity timers, webhook signature checks, and safe rendering
//! of vendor alert payloads.

pub mod activity;
pub mod alerts;
pub mod channel;
pub mod json;
pub mod linear;
pub mod mattermost;
pub mod mention;
pub mod modes;
pub mod prompt;
pub mod slack;
pub mod slack_ops;
pub mod text;
pub mod thread_table;
pub mod thread_state;
pub mod tools;
pub mod wake_sleep;
pub mod webhook;
