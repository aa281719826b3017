//! A signalling relay for peer-to-peer chat: who is online, who is in which
//! channel, and where each message goes.

mod collections;
pub mod config;
pub mod ids;
pub mod laws;
pub mod messages;
pub mod model;
pub mod promises;
pub mod publish;
pub mod relay;
