//! The data the gateway hands the bot, and the cached forms the bot keeps of it.
//!
//! Snowflake ids (guilds, channels, users, roles, emoji, messages) are plain
//! `u64` values; permission sets are `u64` bit masks (see `perms`).
use vstd::prelude::*;

verus! {

// ---------------------------------------------------------------------------
// Copy helpers with exact contracts.
// ---------------------------------------------------------------------------
/// A copy of an optional string.
pub fn copy_opt_string(s: &Option<String>) -> (r: Option<String>)
    ensures
        r == *s,
{
    match s {
        Some(v) => Some(v.clone()),
        None => None,
    }
}

/// A copy of a list of ids.
pub fn copy_ids(v: &Vec<u64>) -> (r: Vec<u64>)
    ensures
        r@ == v@,
{
    let mut out: Vec<u64> = Vec::new();
    let mut i: usize = 0;
    while i < v.len()
        invariant
            i <= v.len(),
            out@ == v@.subrange(0, i as int),
        decreases v.len() - i,
    {
        out.push(v[i]);
        i = i + 1;
        assert(out@ == v@.subrange(0, i as int));
    }
    assert(v@.subrange(0, v.len() as int) == v@);
    out
}

/// A copy of a list of strings.
pub fn copy_strings(v: &Vec<String>) -> (r: Vec<String>)
    ensures
        r@ == v@,
{
    let mut out: Vec<String> = Vec::new();
    let mut i: usize = 0;
    while i < v.len()
        invariant
            i <= v.len(),
            out@ == v@.subrange(0, i as int),
        decreases v.len() - i,
    {
        out.push(v[i].clone());
        i = i + 1;
        assert(out@ == v@.subrange(0, i as int));
    }
    assert(v@.subrange(0, v.len() as int) == v@);
    out
}

/// Whether two optional strings hold the same text (or are both absent).
pub fn opt_string_eq(a: &Option<String>, b: &Option<String>) -> (r: bool)
    ensures
        r == (opt_string_view(*a) == opt_string_view(*b)),
{
    match (a, b) {
        (Some(x), Some(y)) => *x == *y,
        (None, None) => true,
        _ => false,
    }
}

/// The text of an optional string.
pub open spec fn opt_string_view(s: Option<String>) -> Option<Seq<char>> {
    match s {
        Some(v) => Some(v@),
        None => None,
    }
}

// ---------------------------------------------------------------------------
// Permission overwrites.
// ---------------------------------------------------------------------------
/// Whom a channel permission overwrite applies to.
#[derive(Clone, Copy, Debug, PartialEq, Eq, Structural)]
pub enum OverwriteTarget {
    Member(u64),
    Role(u64),
}

/// A channel permission overwrite: the flags it allows and the flags it denies.
#[derive(Clone, Copy, Debug, PartialEq, Eq, Structural)]
pub struct PermissionOverwrite {
    pub kind: OverwriteTarget,
    pub allow: u64,
    pub deny: u64,
}

/// A copy of a list of permission overwrites.
pub fn copy_overwrites(v: &Vec<PermissionOverwrite>) -> (r: Vec<PermissionOverwrite>)
    ensures
        r@ == v@,
{
    let mut out: Vec<PermissionOverwrite> = Vec::new();
    let mut i: usize = 0;
    while i < v.len()
        invariant
            i <= v.len(),
            out@ == v@.subrange(0, i as int),
        decreases v.len() - i,
    {
        out.push(v[i]);
        i = i + 1;
        assert(out@ == v@.subrange(0, i as int));
    }
    assert(v@.subrange(0, v.len() as int) == v@);
    out
}

// ---------------------------------------------------------------------------
// Gateway data.
// ---------------------------------------------------------------------------
/// A Discord user as the gateway sends it.
pub struct UserData {
    pub id: u64,
    pub name: String,
    pub discriminator: String,
    pub avatar: Option<String>,
    pub bot: bool,
    pub system: Option<bool>,
    pub public_flags: Option<u64>,
}

/// A guild member as the gateway sends it.
pub struct MemberData {
    pub user: UserData,
    pub nick: Option<String>,
    pub roles: Vec<u64>,
    pub joined_at: Option<String>,
    pub premium_since: Option<String>,
    pub deaf: bool,
    pub mute: bool,
}

/// A member update as the gateway sends it.
pub struct MemberUpdateData {
    pub guild_id: u64,
    pub user: UserData,
    pub nick: Option<String>,
    pub roles: Vec<u64>,
    pub premium_since: Option<String>,
}

/// A role as the gateway sends it.
pub struct RoleData {
    pub id: u64,
    pub name: String,
    pub color: u32,
    pub hoist: bool,
    pub position: i64,
    pub permissions: u64,
    pub managed: bool,
    pub mentionable: bool,
}

/// A custom emoji as the gateway sends it; `user` is the id of its creator.
pub struct EmojiData {
    pub id: u64,
    pub name: String,
    pub roles: Vec<u64>,
    pub user: Option<u64>,
    pub require_colons: bool,
    pub managed: bool,
    pub animated: bool,
    pub available: bool,
}

/// The type of a channel.
#[derive(Clone, Copy, Debug, PartialEq, Eq, Structural)]
pub enum ChannelType {
    GuildText,
    Private,
    GuildVoice,
    Group,
    GuildCategory,
    GuildNews,
    GuildStore,
}

/// A channel category as the gateway sends it.
pub struct CategoryChannelData {
    pub kind: ChannelType,
    pub id: u64,
    pub guild_id: Option<u64>,
    pub position: i64,
    pub permission_overwrites: Vec<PermissionOverwrite>,
    pub name: String,
}

/// A text channel as the gateway sends it.
pub struct TextChannelData {
    pub kind: ChannelType,
    pub id: u64,
    pub guild_id: Option<u64>,
    pub position: i64,
    pub permission_overwrites: Vec<PermissionOverwrite>,
    pub name: String,
    pub topic: Option<String>,
    pub nsfw: bool,
    pub rate_limit_per_user: Option<u64>,
    pub parent_id: Option<u64>,
}

/// A voice channel as the gateway sends it.
pub struct VoiceChannelData {
    pub kind: ChannelType,
    pub id: u64,
    pub guild_id: Option<u64>,
    pub position: i64,
    pub permission_overwrites: Vec<PermissionOverwrite>,
    pub name: String,
    pub parent_id: Option<u64>,
    pub bitrate: u64,
    pub user_limit: Option<u64>,
}

/// A channel that belongs to a guild.
pub enum GuildChannelData {
    Category(CategoryChannelData),
    Text(TextChannelData),
    Voice(VoiceChannelData),
}

impl GuildChannelData {
    pub open spec fn spec_guild_id(&self) -> Option<u64> {
        match self {
            GuildChannelData::Category(c) => c.guild_id,
            GuildChannelData::Text(c) => c.guild_id,
            GuildChannelData::Voice(c) => c.guild_id,
        }
    }

    pub open spec fn spec_id(&self) -> u64 {
        match self {
            GuildChannelData::Category(c) => c.id,
            GuildChannelData::Text(c) => c.id,
            GuildChannelData::Voice(c) => c.id,
        }
    }

    pub open spec fn spec_kind(&self) -> ChannelType {
        match self {
            GuildChannelData::Category(c) => c.kind,
            GuildChannelData::Text(c) => c.kind,
            GuildChannelData::Voice(c) => c.kind,
        }
    }

    /// The guild the channel belongs to, if the gateway named one.
    pub fn guild_id(&self) -> (r: Option<u64>)
        ensures
            r == self.spec_guild_id(),
    {
        match self {
            GuildChannelData::Category(c) => c.guild_id,
            GuildChannelData::Text(c) => c.guild_id,
            GuildChannelData::Voice(c) => c.guild_id,
        }
    }

    /// The channel's id.
    pub fn id(&self) -> (r: u64)
        ensures
            r == self.spec_id(),
    {
        match self {
            GuildChannelData::Category(c) => c.id,
            GuildChannelData::Text(c) => c.id,
            GuildChannelData::Voice(c) => c.id,
        }
    }
}

/// A direct message or group channel as the gateway sends it.
pub struct PrivateChannelData {
    pub id: u64,
    pub recipients: Vec<u64>,
}

/// A channel of any kind.
pub enum ChannelData {
    Group,
    Guild(GuildChannelData),
    Private(PrivateChannelData),
}

} // verus!
