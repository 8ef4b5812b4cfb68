//! Cached channels.
use vstd::prelude::*;

use crate::model::{
    copy_opt_string, copy_overwrites, ChannelType, GuildChannelData, PermissionOverwrite,
    PrivateChannelData,
};

verus! {

/// A channel as the cache keeps it.
pub enum CachedChannel {
    TextChannel {
        id: u64,
        guild_id: u64,
        position: i64,
        permission_overrides: Vec<PermissionOverwrite>,
        name: String,
        topic: Option<String>,
        nsfw: bool,
        slowmode: Option<u64>,
        parent_id: Option<u64>,
    },
    DM { id: u64, receiver: Option<u64> },
    VoiceChannel {
        id: u64,
        guild_id: u64,
        position: i64,
        permission_overrides: Vec<PermissionOverwrite>,
        name: String,
        bitrate: u64,
        user_limit: Option<u64>,
        parent_id: Option<u64>,
    },
    GroupDM { id: u64 },
    Category {
        id: u64,
        guild_id: u64,
        position: i64,
        permission_overrides: Vec<PermissionOverwrite>,
        name: String,
    },
    AnnouncementsChannel {
        id: u64,
        guild_id: u64,
        position: i64,
        permission_overrides: Vec<PermissionOverwrite>,
        name: String,
        parent_id: Option<u64>,
    },
    StoreChannel {
        id: u64,
        guild_id: u64,
        position: i64,
        name: String,
        parent_id: Option<u64>,
        permission_overrides: Vec<PermissionOverwrite>,
    },
}

impl CachedChannel {
    pub open spec fn spec_id(&self) -> u64 {
        match self {
            CachedChannel::TextChannel { id, .. } => *id,
            CachedChannel::DM { id, .. } => *id,
            CachedChannel::VoiceChannel { id, .. } => *id,
            CachedChannel::GroupDM { id } => *id,
            CachedChannel::Category { id, .. } => *id,
            CachedChannel::AnnouncementsChannel { id, .. } => *id,
            CachedChannel::StoreChannel { id, .. } => *id,
        }
    }

    pub open spec fn spec_guild_id(&self) -> Option<u64> {
        match self {
            CachedChannel::TextChannel { guild_id, .. } => Some(*guild_id),
            CachedChannel::DM { .. } => None,
            CachedChannel::VoiceChannel { guild_id, .. } => Some(*guild_id),
            CachedChannel::GroupDM { .. } => None,
            CachedChannel::Category { guild_id, .. } => Some(*guild_id),
            CachedChannel::AnnouncementsChannel { guild_id, .. } => Some(*guild_id),
            CachedChannel::StoreChannel { guild_id, .. } => Some(*guild_id),
        }
    }

    pub open spec fn spec_position(&self) -> i64 {
        match self {
            CachedChannel::TextChannel { position, .. } => *position,
            CachedChannel::DM { .. } => 0,
            CachedChannel::VoiceChannel { position, .. } => *position,
            CachedChannel::GroupDM { .. } => 0,
            CachedChannel::Category { position, .. } => *position,
            CachedChannel::AnnouncementsChannel { position, .. } => *position,
            CachedChannel::StoreChannel { position, .. } => *position,
        }
    }

    pub open spec fn spec_name(&self) -> Seq<char> {
        match self {
            CachedChannel::TextChannel { name, .. } => name@,
            CachedChannel::DM { .. } => Seq::empty(),
            CachedChannel::VoiceChannel { name, .. } => name@,
            CachedChannel::GroupDM { .. } => Seq::empty(),
            CachedChannel::Category { name, .. } => name@,
            CachedChannel::AnnouncementsChannel { name, .. } => name@,
            CachedChannel::StoreChannel { name, .. } => name@,
        }
    }

    pub open spec fn spec_overrides(&self) -> Seq<PermissionOverwrite> {
        match self {
            CachedChannel::TextChannel { permission_overrides, .. } => permission_overrides@,
            CachedChannel::DM { .. } => Seq::empty(),
            CachedChannel::VoiceChannel { permission_overrides, .. } => permission_overrides@,
            CachedChannel::GroupDM { .. } => Seq::empty(),
            CachedChannel::Category { permission_overrides, .. } => permission_overrides@,
            CachedChannel::AnnouncementsChannel { permission_overrides, .. } => permission_overrides@,
            CachedChannel::StoreChannel { permission_overrides, .. } => permission_overrides@,
        }
    }

    pub open spec fn spec_is_dm(&self) -> bool {
        self is DM || self is GroupDM
    }

    /// The channel id (for a DM this is not the id of the user on the other
    /// end).
    pub fn get_id(&self) -> (r: u64)
        ensures
            r == self.spec_id(),
    {
        match self {
            CachedChannel::TextChannel { id, .. } => *id,
            CachedChannel::DM { id, .. } => *id,
            CachedChannel::VoiceChannel { id, .. } => *id,
            CachedChannel::GroupDM { id } => *id,
            CachedChannel::Category { id, .. } => *id,
            CachedChannel::AnnouncementsChannel { id, .. } => *id,
            CachedChannel::StoreChannel { id, .. } => *id,
        }
    }

    /// The guild of a guild channel; `None` for direct message channels.
    pub fn get_guild_id(&self) -> (r: Option<u64>)
        ensures
            r == self.spec_guild_id(),
    {
        match self {
            CachedChannel::TextChannel { guild_id, .. } => Some(*guild_id),
            CachedChannel::DM { .. } => None,
            CachedChannel::VoiceChannel { guild_id, .. } => Some(*guild_id),
            CachedChannel::GroupDM { .. } => None,
            CachedChannel::Category { guild_id, .. } => Some(*guild_id),
            CachedChannel::AnnouncementsChannel { guild_id, .. } => Some(*guild_id),
            CachedChannel::StoreChannel { guild_id, .. } => Some(*guild_id),
        }
    }

    /// The position of the channel; 0 for direct message channels.
    pub fn get_position(&self) -> (r: i64)
        ensures
            r == self.spec_position(),
    {
        match self {
            CachedChannel::TextChannel { position, .. } => *position,
            CachedChannel::DM { .. } => 0,
            CachedChannel::VoiceChannel { position, .. } => *position,
            CachedChannel::GroupDM { .. } => 0,
            CachedChannel::Category { position, .. } => *position,
            CachedChannel::AnnouncementsChannel { position, .. } => *position,
            CachedChannel::StoreChannel { position, .. } => *position,
        }
    }

    /// The name of the channel; empty for direct message channels.
    pub fn get_name(&self) -> (r: String)
        ensures
            r@ == self.spec_name(),
    {
        match self {
            CachedChannel::TextChannel { name, .. } => name.clone(),
            CachedChannel::DM { .. } => String::new(),
            CachedChannel::VoiceChannel { name, .. } => name.clone(),
            CachedChannel::GroupDM { .. } => String::new(),
            CachedChannel::Category { name, .. } => name.clone(),
            CachedChannel::AnnouncementsChannel { name, .. } => name.clone(),
            CachedChannel::StoreChannel { name, .. } => name.clone(),
        }
    }

    /// The topic of a text channel; `None` for every other kind.
    pub fn get_topic(&self) -> (r: Option<String>)
        ensures
            r == (match self {
                CachedChannel::TextChannel { topic, .. } => *topic,
                _ => None,
            }),
    {
        match self {
            CachedChannel::TextChannel { topic, .. } => copy_opt_string(topic),
            _ => None,
        }
    }

    /// The permission overwrites of the channel; none for direct message
    /// channels.
    pub fn get_permission_overrides(&self) -> (r: Vec<PermissionOverwrite>)
        ensures
            r@ == self.spec_overrides(),
    {
        match self {
            CachedChannel::TextChannel { permission_overrides, .. } => copy_overwrites(
                permission_overrides,
            ),
            CachedChannel::DM { .. } => Vec::new(),
            CachedChannel::VoiceChannel { permission_overrides, .. } => copy_overwrites(
                permission_overrides,
            ),
            CachedChannel::GroupDM { .. } => Vec::new(),
            CachedChannel::Category { permission_overrides, .. } => copy_overwrites(
                permission_overrides,
            ),
            CachedChannel::AnnouncementsChannel { permission_overrides, .. } => copy_overwrites(
                permission_overrides,
            ),
            CachedChannel::StoreChannel { permission_overrides, .. } => copy_overwrites(
                permission_overrides,
            ),
        }
    }

    /// Whether a text channel is marked NSFW; false for every other kind.
    pub fn is_nsfw(&self) -> (r: bool)
        ensures
            r == (match self {
                CachedChannel::TextChannel { nsfw, .. } => *nsfw,
                _ => false,
            }),
    {
        match self {
            CachedChannel::TextChannel { nsfw, .. } => *nsfw,
            _ => false,
        }
    }

    /// Whether this is a direct message channel (one-to-one or group).
    pub fn is_dm(&self) -> (r: bool)
        ensures
            r == self.spec_is_dm(),
    {
        match self {
            CachedChannel::DM { .. } => true,
            CachedChannel::GroupDM { .. } => true,
            _ => false,
        }
    }

    /// An exact copy.
    pub fn duplicate(&self) -> (r: CachedChannel)
        ensures
            same_channel(r, *self),
    {
        match self {
            CachedChannel::TextChannel {
                id,
                guild_id,
                position,
                permission_overrides,
                name,
                topic,
                nsfw,
                slowmode,
                parent_id,
            } => CachedChannel::TextChannel {
                id: *id,
                guild_id: *guild_id,
                position: *position,
                permission_overrides: copy_overwrites(permission_overrides),
                name: name.clone(),
                topic: copy_opt_string(topic),
                nsfw: *nsfw,
                slowmode: *slowmode,
                parent_id: *parent_id,
            },
            CachedChannel::DM { id, receiver } => CachedChannel::DM { id: *id, receiver: *receiver },
            CachedChannel::VoiceChannel {
                id,
                guild_id,
                position,
                permission_overrides,
                name,
                bitrate,
                user_limit,
                parent_id,
            } => CachedChannel::VoiceChannel {
                id: *id,
                guild_id: *guild_id,
                position: *position,
                permission_overrides: copy_overwrites(permission_overrides),
                name: name.clone(),
                bitrate: *bitrate,
                user_limit: *user_limit,
                parent_id: *parent_id,
            },
            CachedChannel::GroupDM { id } => CachedChannel::GroupDM { id: *id },
            CachedChannel::Category { id, guild_id, position, permission_overrides, name } =>
                CachedChannel::Category {
                id: *id,
                guild_id: *guild_id,
                position: *position,
                permission_overrides: copy_overwrites(permission_overrides),
                name: name.clone(),
            },
            CachedChannel::AnnouncementsChannel {
                id,
                guild_id,
                position,
                permission_overrides,
                name,
                parent_id,
            } => CachedChannel::AnnouncementsChannel {
                id: *id,
                guild_id: *guild_id,
                position: *position,
                permission_overrides: copy_overwrites(permission_overrides),
                name: name.clone(),
                parent_id: *parent_id,
            },
            CachedChannel::StoreChannel {
                id,
                guild_id,
                position,
                name,
                parent_id,
                permission_overrides,
            } => CachedChannel::StoreChannel {
                id: *id,
                guild_id: *guild_id,
                position: *position,
                name: name.clone(),
                parent_id: *parent_id,
                permission_overrides: copy_overwrites(permission_overrides),
            },
        }
    }

    /// The cached form of a guild channel. The variant follows the channel's
    /// type; a guild kind needs the guild id, which the gateway channel's own
    /// field does not decide.
    pub fn from(channel: &GuildChannelData, guild_id: Option<u64>) -> (r: CachedChannel)
        requires
            kind_needs_guild(channel.spec_kind()) ==> guild_id is Some,
        ensures
            channel_from_data(r, *channel, guild_id),
            r.spec_id() == channel.spec_id(),
            r.spec_guild_id() == (if kind_needs_guild(channel.spec_kind()) {
                guild_id
            } else {
                None
            }),
            variant_of(r) == channel.spec_kind(),
            !kind_needs_guild(channel.spec_kind()) ==> r.spec_overrides() == Seq::<
                PermissionOverwrite,
            >::empty(),
            kind_needs_guild(channel.spec_kind()) ==> r.spec_overrides() == data_overwrites(
                *channel,
            ) && r.spec_name() == data_name(*channel) && r.spec_position() == data_position(
                *channel,
            ),
    {
        let (kind, id, position, permission_overrides, name, topic, nsfw, slowmode, parent_id, bitrate, user_limit) =
            match channel {
            GuildChannelData::Category(category) => (
                category.kind,
                category.id,
                category.position,
                copy_overwrites(&category.permission_overwrites),
                category.name.clone(),
                None,
                false,
                None,
                None,
                0,
                None,
            ),
            GuildChannelData::Text(text) => (
                text.kind,
                text.id,
                text.position,
                copy_overwrites(&text.permission_overwrites),
                text.name.clone(),
                copy_opt_string(&text.topic),
                text.nsfw,
                text.rate_limit_per_user,
                text.parent_id,
                0,
                None,
            ),
            GuildChannelData::Voice(voice) => (
                voice.kind,
                voice.id,
                voice.position,
                copy_overwrites(&voice.permission_overwrites),
                voice.name.clone(),
                None,
                false,
                None,
                voice.parent_id,
                voice.bitrate,
                voice.user_limit,
            ),
        };
        match kind {
            ChannelType::GuildText => CachedChannel::TextChannel {
                id,
                guild_id: guild_id.unwrap(),
                position,
                permission_overrides,
                name,
                topic,
                nsfw,
                slowmode,
                parent_id,
            },
            ChannelType::Private => CachedChannel::DM { id, receiver: None },
            ChannelType::GuildVoice => CachedChannel::VoiceChannel {
                id,
                guild_id: guild_id.unwrap(),
                position,
                permission_overrides,
                name,
                bitrate,
                user_limit,
                parent_id,
            },
            ChannelType::Group => CachedChannel::GroupDM { id },
            ChannelType::GuildCategory => CachedChannel::Category {
                id,
                guild_id: guild_id.unwrap(),
                position,
                permission_overrides,
                name,
            },
            ChannelType::GuildNews => CachedChannel::AnnouncementsChannel {
                id,
                guild_id: guild_id.unwrap(),
                position,
                permission_overrides,
                name,
                parent_id,
            },
            ChannelType::GuildStore => CachedChannel::StoreChannel {
                id,
                guild_id: guild_id.unwrap(),
                position,
                name,
                parent_id,
                permission_overrides,
            },
        }
    }

    /// The cached form of a guild channel of a known guild.
    pub fn from_guild_channel(channel: &GuildChannelData, guild_id: u64) -> (r: CachedChannel)
        ensures
            channel_from_data(r, *channel, Some(guild_id)),
            r.spec_id() == channel.spec_id(),
            r.spec_guild_id() == (if kind_needs_guild(channel.spec_kind()) {
                Some(guild_id)
            } else {
                None
            }),
            variant_of(r) == channel.spec_kind(),
    {
        CachedChannel::from(channel, Some(guild_id))
    }

    /// The cached form of a private channel: a one-to-one DM when it has a
    /// single recipient, a group DM otherwise.
    pub fn from_private(channel: &PrivateChannelData) -> (r: CachedChannel)
        ensures
            r == spec_private_channel(*channel),
    {
        if channel.recipients.len() == 1 {
            CachedChannel::DM { id: channel.id, receiver: Some(channel.recipients[0]) }
        } else {
            CachedChannel::GroupDM { id: channel.id }
        }
    }
}

/// The cached form of a private channel: a one-to-one DM when it has a single
/// recipient, a group DM otherwise.
pub open spec fn spec_private_channel(channel: PrivateChannelData) -> CachedChannel {
    if channel.recipients@.len() == 1 {
        CachedChannel::DM { id: channel.id, receiver: Some(channel.recipients@[0]) }
    } else {
        CachedChannel::GroupDM { id: channel.id }
    }
}

/// Two channels hold the same data.
pub open spec fn same_channel(a: CachedChannel, b: CachedChannel) -> bool {
    match (a, b) {
        (
            CachedChannel::TextChannel {
                id: i1,
                guild_id: g1,
                position: p1,
                permission_overrides: o1,
                name: n1,
                topic: t1,
                nsfw: f1,
                slowmode: s1,
                parent_id: q1,
            },
            CachedChannel::TextChannel {
                id: i2,
                guild_id: g2,
                position: p2,
                permission_overrides: o2,
                name: n2,
                topic: t2,
                nsfw: f2,
                slowmode: s2,
                parent_id: q2,
            },
        ) => i1 == i2 && g1 == g2 && p1 == p2 && o1@ == o2@ && n1 == n2 && t1 == t2 && f1 == f2
            && s1 == s2 && q1 == q2,
        (CachedChannel::DM { id: i1, receiver: r1 }, CachedChannel::DM { id: i2, receiver: r2 }) =>
            i1 == i2 && r1 == r2,
        (
            CachedChannel::VoiceChannel {
                id: i1,
                guild_id: g1,
                position: p1,
                permission_overrides: o1,
                name: n1,
                bitrate: b1,
                user_limit: u1,
                parent_id: q1,
            },
            CachedChannel::VoiceChannel {
                id: i2,
                guild_id: g2,
                position: p2,
                permission_overrides: o2,
                name: n2,
                bitrate: b2,
                user_limit: u2,
                parent_id: q2,
            },
        ) => i1 == i2 && g1 == g2 && p1 == p2 && o1@ == o2@ && n1 == n2 && b1 == b2 && u1 == u2
            && q1 == q2,
        (CachedChannel::GroupDM { id: i1 }, CachedChannel::GroupDM { id: i2 }) => i1 == i2,
        (
            CachedChannel::Category {
                id: i1,
                guild_id: g1,
                position: p1,
                permission_overrides: o1,
                name: n1,
            },
            CachedChannel::Category {
                id: i2,
                guild_id: g2,
                position: p2,
                permission_overrides: o2,
                name: n2,
            },
        ) => i1 == i2 && g1 == g2 && p1 == p2 && o1@ == o2@ && n1 == n2,
        (
            CachedChannel::AnnouncementsChannel {
                id: i1,
                guild_id: g1,
                position: p1,
                permission_overrides: o1,
                name: n1,
                parent_id: q1,
            },
            CachedChannel::AnnouncementsChannel {
                id: i2,
                guild_id: g2,
                position: p2,
                permission_overrides: o2,
                name: n2,
                parent_id: q2,
            },
        ) => i1 == i2 && g1 == g2 && p1 == p2 && o1@ == o2@ && n1 == n2 && q1 == q2,
        (
            CachedChannel::StoreChannel {
                id: i1,
                guild_id: g1,
                position: p1,
                name: n1,
                parent_id: q1,
                permission_overrides: o1,
            },
            CachedChannel::StoreChannel {
                id: i2,
                guild_id: g2,
                position: p2,
                name: n2,
                parent_id: q2,
                permission_overrides: o2,
            },
        ) => i1 == i2 && g1 == g2 && p1 == p2 && o1@ == o2@ && n1 == n2 && q1 == q2,
        _ => false,
    }
}

/// The cached channel is what the gateway channel `d` turns into, given the
/// guild id the cache attached to it.
pub open spec fn channel_from_data(c: CachedChannel, d: GuildChannelData, guild_id: Option<u64>) -> bool {
    let (kind, id, position, overwrites, name, topic, nsfw, slowmode, parent, bitrate, limit) =
        match d {
        GuildChannelData::Category(x) => (
            x.kind,
            x.id,
            x.position,
            x.permission_overwrites@,
            x.name,
            None::<String>,
            false,
            None::<u64>,
            None::<u64>,
            0u64,
            None::<u64>,
        ),
        GuildChannelData::Text(x) => (
            x.kind,
            x.id,
            x.position,
            x.permission_overwrites@,
            x.name,
            x.topic,
            x.nsfw,
            x.rate_limit_per_user,
            x.parent_id,
            0u64,
            None::<u64>,
        ),
        GuildChannelData::Voice(x) => (
            x.kind,
            x.id,
            x.position,
            x.permission_overwrites@,
            x.name,
            None::<String>,
            false,
            None::<u64>,
            x.parent_id,
            x.bitrate,
            x.user_limit,
        ),
    };
    match c {
        CachedChannel::TextChannel {
            id: i,
            guild_id: g,
            position: p,
            permission_overrides: o,
            name: n,
            topic: t,
            nsfw: f,
            slowmode: w,
            parent_id: q,
        } => kind == ChannelType::GuildText && i == id && guild_id == Some(g) && p == position
            && o@ == overwrites && n == name && t == topic && f == nsfw && w == slowmode && q
            == parent,
        CachedChannel::DM { id: i, receiver } => kind == ChannelType::Private && i == id
            && receiver is None,
        CachedChannel::VoiceChannel {
            id: i,
            guild_id: g,
            position: p,
            permission_overrides: o,
            name: n,
            bitrate: b,
            user_limit: l,
            parent_id: q,
        } => kind == ChannelType::GuildVoice && i == id && guild_id == Some(g) && p == position
            && o@ == overwrites && n == name && b == bitrate && l == limit && q == parent,
        CachedChannel::GroupDM { id: i } => kind == ChannelType::Group && i == id,
        CachedChannel::Category {
            id: i,
            guild_id: g,
            position: p,
            permission_overrides: o,
            name: n,
        } => kind == ChannelType::GuildCategory && i == id && guild_id == Some(g) && p == position
            && o@ == overwrites && n == name,
        CachedChannel::AnnouncementsChannel {
            id: i,
            guild_id: g,
            position: p,
            permission_overrides: o,
            name: n,
            parent_id: q,
        } => kind == ChannelType::GuildNews && i == id && guild_id == Some(g) && p == position
            && o@ == overwrites && n == name && q == parent,
        CachedChannel::StoreChannel {
            id: i,
            guild_id: g,
            position: p,
            name: n,
            parent_id: q,
            permission_overrides: o,
        } => kind == ChannelType::GuildStore && i == id && guild_id == Some(g) && p == position
            && o@ == overwrites && n == name && q == parent,
    }
}

/// Channels that hold the same data have the same id.
pub proof fn lemma_same_channel_id(a: CachedChannel, b: CachedChannel)
    requires
        same_channel(a, b),
    ensures
        a.spec_id() == b.spec_id(),
{
}

/// Holding the same data is transitive.
pub proof fn lemma_same_channel_trans(a: CachedChannel, b: CachedChannel, c: CachedChannel)
    requires
        same_channel(a, b),
        same_channel(b, c),
    ensures
        same_channel(a, c),
{
}

/// Channel types that only exist inside a guild.
pub open spec fn kind_needs_guild(kind: ChannelType) -> bool {
    !(kind is Private || kind is Group)
}

/// The channel type a cached channel stands for.
pub open spec fn variant_of(c: CachedChannel) -> ChannelType {
    match c {
        CachedChannel::TextChannel { .. } => ChannelType::GuildText,
        CachedChannel::DM { .. } => ChannelType::Private,
        CachedChannel::VoiceChannel { .. } => ChannelType::GuildVoice,
        CachedChannel::GroupDM { .. } => ChannelType::Group,
        CachedChannel::Category { .. } => ChannelType::GuildCategory,
        CachedChannel::AnnouncementsChannel { .. } => ChannelType::GuildNews,
        CachedChannel::StoreChannel { .. } => ChannelType::GuildStore,
    }
}

pub open spec fn data_overwrites(c: GuildChannelData) -> Seq<PermissionOverwrite> {
    match c {
        GuildChannelData::Category(x) => x.permission_overwrites@,
        GuildChannelData::Text(x) => x.permission_overwrites@,
        GuildChannelData::Voice(x) => x.permission_overwrites@,
    }
}

pub open spec fn data_name(c: GuildChannelData) -> Seq<char> {
    match c {
        GuildChannelData::Category(x) => x.name@,
        GuildChannelData::Text(x) => x.name@,
        GuildChannelData::Voice(x) => x.name@,
    }
}

pub open spec fn data_position(c: GuildChannelData) -> i64 {
    match c {
        GuildChannelData::Category(x) => x.position,
        GuildChannelData::Text(x) => x.position,
        GuildChannelData::Voice(x) => x.position,
    }
}

} // verus!
