//! Solace Platform input and output connectors.

pub mod acks;
pub mod basic;
pub mod config;
pub mod dedup;
pub mod events;
pub mod input;
pub mod message;
pub mod output;
pub mod routing;
pub mod throttle;
pub mod topic;
pub mod topic_map;
pub mod window;
