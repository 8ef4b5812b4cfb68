//! The verified core of a Discord moderation bot: its cache of Discord
//! state, permissions, command tree, configuration, encrypted message
//! storage and the computations behind its commands.
use vstd::prelude::*;

pub mod access;
pub mod audit;
pub mod cache;
pub mod cached;
pub mod guild;
pub mod changes;
pub mod channel;
pub mod cold;
pub mod commands;
pub mod config;
pub mod context;
pub mod crypto;
pub mod events;
pub mod keys;
pub mod logging;
pub mod messages;
pub mod model;
pub mod nodes;
pub mod perms;
pub mod prefix;
pub mod shards;
pub mod stats;
pub mod text;

verus! {

} // verus!
