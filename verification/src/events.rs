//! The gateway events the cache follows, and what the cache asks the bot to do
//! in answer.
use vstd::prelude::*;

use crate::guild::{GuildData, PartialGuildData};
use crate::model::{ChannelData, MemberData, MemberUpdateData, RoleData, UserData};

verus! {

/// A chunk of members of one guild, as the gateway sends it after a member
/// request. The last chunk of a request has `chunk_index == chunk_count - 1`;
/// the `nonce` tells chunks that the bot asked for by itself.
pub struct MemberChunkData {
    pub guild_id: u64,
    pub members: Vec<MemberData>,
    pub chunk_index: u32,
    pub chunk_count: u32,
    pub nonce: Option<String>,
}

/// A gateway event, as far as the cache reads it.
pub enum CacheEvent {
    /// A shard is ready; these are the guilds it will send.
    Ready { guilds: Vec<u64> },
    GuildCreate(GuildData),
    GuildUpdate(PartialGuildData),
    GuildEmojisUpdate,
    GuildDelete { id: u64, unavailable: bool },
    MemberChunk(MemberChunkData),
    ChannelCreate(ChannelData),
    ChannelUpdate(ChannelData),
    ChannelDelete(ChannelData),
    MemberAdd { guild_id: u64, member: MemberData },
    MemberUpdate(MemberUpdateData),
    MemberRemove { guild_id: u64, user: UserData },
    RoleCreate { guild_id: u64, role: RoleData },
    RoleUpdate { guild_id: u64, role: RoleData },
    RoleDelete { guild_id: u64, role_id: u64 },
    /// Any other event; the cache ignores it.
    Other,
}

/// What the cache asks the bot to do after an event.
#[derive(Clone, Copy, Debug, PartialEq, Eq, Structural)]
pub enum CacheAction {
    /// Every guild of the shard is fully cached: show the shard as online.
    SetShardOnline { shard_id: u64 },
    /// A member update came for a member the complete guild lacks: ask the
    /// gateway for that one member.
    RequestMember { guild_id: u64, user_id: u64, shard_id: u64 },
}

} // verus!
