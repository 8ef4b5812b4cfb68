//! Cached guilds and their cold storage form.
use std::collections::HashMap;
use vstd::prelude::*;

use crate::cached::{
    emoji_matches, same_emoji, same_member, spec_role_from, CachedEmoji, CachedMember, CachedRole,
    CachedUser,
};
use crate::channel::{
    channel_from_data, lemma_same_channel_id, lemma_same_channel_trans, same_channel, CachedChannel,
};
use crate::keys::map_keys;
use crate::model::{
    copy_opt_string, copy_strings, EmojiData, GuildChannelData, RoleData,
};

verus! {

broadcast use vstd::std_specs::hash::group_hash_axioms;

/// How strict a guild's verification requirement is.
#[derive(Clone, Copy, Debug, PartialEq, Eq, Structural)]
pub enum VerificationLevel {
    NoRequirement,
    Low,
    Medium,
    High,
    VeryHigh,
}

/// Which messages notify members by default.
#[derive(Clone, Copy, Debug, PartialEq, Eq, Structural)]
pub enum DefaultMessageNotificationLevel {
    All,
    OnlyMentions,
}

/// A guild's boost level.
#[derive(Clone, Copy, Debug, PartialEq, Eq, Structural)]
pub enum PremiumTier {
    NoTier,
    Tier1,
    Tier2,
    Tier3,
}

/// A full guild as the gateway sends it when the bot joins it or it becomes
/// available.
pub struct GuildData {
    pub id: u64,
    pub name: String,
    pub icon: Option<String>,
    pub splash: Option<String>,
    pub discovery_splash: Option<String>,
    pub owner_id: u64,
    pub region: String,
    pub afk_channel_id: Option<u64>,
    pub afk_timeout: u64,
    pub verification_level: VerificationLevel,
    pub default_message_notifications: DefaultMessageNotificationLevel,
    pub roles: Vec<RoleData>,
    pub emojis: Vec<EmojiData>,
    pub features: Vec<String>,
    pub channels: Vec<GuildChannelData>,
    pub max_presences: Option<u64>,
    pub max_members: Option<u64>,
    pub description: Option<String>,
    pub banner: Option<String>,
    pub premium_tier: PremiumTier,
    pub premium_subscription_count: Option<u64>,
    pub preferred_locale: String,
}

/// A guild update as the gateway sends it.
pub struct PartialGuildData {
    pub id: u64,
    pub name: String,
    pub icon: Option<String>,
    pub splash: Option<String>,
    pub discovery_splash: Option<String>,
    pub owner_id: u64,
    pub region: String,
    pub afk_channel_id: Option<u64>,
    pub afk_timeout: u64,
    pub verification_level: VerificationLevel,
    pub default_message_notifications: DefaultMessageNotificationLevel,
    pub roles: Vec<RoleData>,
    pub features: Vec<String>,
    pub max_presences: Option<u64>,
    pub max_members: Option<u64>,
    pub description: Option<String>,
    pub banner: Option<String>,
    pub premium_tier: PremiumTier,
    pub premium_subscription_count: Option<u64>,
    pub preferred_locale: String,
}

/// A guild as the cache keeps it. `complete` tells whether every member chunk
/// has arrived; `member_count` counts the members that joined since.
pub struct CachedGuild {
    pub id: u64,
    pub name: String,
    pub icon: Option<String>,
    pub splash: Option<String>,
    pub discovery_splash: Option<String>,
    pub owner_id: u64,
    pub region: String,
    pub afk_channel_id: Option<u64>,
    pub afk_timeout: u64,
    pub verification_level: VerificationLevel,
    pub default_message_notifications: DefaultMessageNotificationLevel,
    pub roles: HashMap<u64, CachedRole>,
    pub emoji: Vec<CachedEmoji>,
    pub features: Vec<String>,
    pub unavailable: bool,
    pub members: HashMap<u64, CachedMember>,
    pub channels: HashMap<u64, CachedChannel>,
    pub max_presences: Option<u64>,
    pub max_members: Option<u64>,
    pub description: Option<String>,
    pub banner: Option<String>,
    pub premium_tier: PremiumTier,
    pub premium_subscription_count: u64,
    pub preferred_locale: String,
    pub complete: bool,
    pub member_count: u64,
}

/// The map of roles that a list of gateway roles gives, a later role with the
/// same id replacing an earlier one.
pub open spec fn roles_map(roles: Seq<RoleData>) -> Map<u64, CachedRole>
    decreases roles.len(),
{
    if roles.len() == 0 {
        Map::empty()
    } else {
        roles_map(roles.drop_last()).insert(roles.last().id, spec_role_from(roles.last()))
    }
}

/// The roles built from gateway roles are each under their own id.
pub proof fn lemma_roles_map_keyed(roles: Seq<RoleData>)
    ensures
        forall|k: u64| #[trigger] roles_map(roles).contains_key(k) ==> roles_map(roles)[k].id == k,
    decreases roles.len(),
{
    if roles.len() > 0 {
        let p = roles.drop_last();
        lemma_roles_map_keyed(p);
        assert forall|k: u64| #[trigger] roles_map(roles).contains_key(k) implies roles_map(roles)[k].id
            == k by {
            if k != roles.last().id {
                assert(roles_map(p).contains_key(k));
            }
        }
    }
}

/// The ids of a list of gateway channels.
pub open spec fn channel_ids(channels: Seq<GuildChannelData>) -> Set<u64> {
    Set::new(|id: u64| exists|i: int| 0 <= i < channels.len() && #[trigger] channels[i].spec_id() == id)
}

/// The map of cached roles built from gateway roles.
pub fn build_roles(roles: &Vec<RoleData>) -> (r: HashMap<u64, CachedRole>)
    ensures
        r@ == roles_map(roles@),
{
    let mut map: HashMap<u64, CachedRole> = HashMap::new();
    let mut i: usize = 0;
    while i < roles.len()
        invariant
            i <= roles.len(),
            map@ == roles_map(roles@.subrange(0, i as int)),
        decreases roles.len() - i,
    {
        let role = CachedRole::from_role(&roles[i]);
        map.insert(roles[i].id, role);
        assert(roles@.subrange(0, i + 1).drop_last() == roles@.subrange(0, i as int));
        i = i + 1;
    }
    assert(roles@.subrange(0, roles.len() as int) == roles@);
    map
}

/// The last channel of the list with this id.
pub open spec fn last_channel_with_id(s: Seq<GuildChannelData>, id: u64) -> GuildChannelData
    decreases s.len(),
{
    if s.len() == 0 {
        vstd::pervasive::arbitrary()
    } else if s.last().spec_id() == id {
        s.last()
    } else {
        last_channel_with_id(s.drop_last(), id)
    }
}

/// The map of cached channels of guild `guild_id` built from gateway
/// channels, a later channel with the same id replacing an earlier one.
pub fn build_channels(channels: &Vec<GuildChannelData>, guild_id: u64) -> (r: HashMap<
    u64,
    CachedChannel,
>)
    ensures
        r@.dom() == channel_ids(channels@),
        forall|k: u64| #[trigger]
            r@.contains_key(k) ==> r@[k].spec_id() == k && channel_from_data(
                r@[k],
                last_channel_with_id(channels@, k),
                Some(guild_id),
            ),
{
    let mut map: HashMap<u64, CachedChannel> = HashMap::new();
    let mut i: usize = 0;
    while i < channels.len()
        invariant
            i <= channels.len(),
            map@.dom() == channel_ids(channels@.subrange(0, i as int)),
            forall|k: u64| #[trigger]
                map@.contains_key(k) ==> map@[k].spec_id() == k && channel_from_data(
                    map@[k],
                    last_channel_with_id(channels@.subrange(0, i as int), k),
                    Some(guild_id),
                ),
        decreases channels.len() - i,
    {
        let ch = CachedChannel::from_guild_channel(&channels[i], guild_id);
        let id = channels[i].id();
        map.insert(id, ch);
        proof {
            let s = channels@.subrange(0, i + 1);
            let p = channels@.subrange(0, i as int);
            assert(s.drop_last() == p);
            assert forall|k: u64| channel_ids(s).contains(k) <==> channel_ids(p).insert(id).contains(
                k,
            ) by {
                if channel_ids(p).contains(k) {
                    let j = choose|j: int| 0 <= j < p.len() && #[trigger] p[j].spec_id() == k;
                    assert(s[j].spec_id() == k);
                }
                if k == id {
                    assert(s[i as int].spec_id() == k);
                }
                if channel_ids(s).contains(k) {
                    let j = choose|j: int| 0 <= j < s.len() && #[trigger] s[j].spec_id() == k;
                    if j < i {
                        assert(p[j].spec_id() == k);
                    }
                }
            }
            assert(channel_ids(s) == channel_ids(p).insert(id));
            assert forall|k: u64| #[trigger] map@.contains_key(k) implies map@[k].spec_id() == k
                && channel_from_data(map@[k], last_channel_with_id(s, k), Some(guild_id)) by {
                if k != id {
                    assert(last_channel_with_id(s, k) == last_channel_with_id(p, k));
                }
            }
        }
        i = i + 1;
    }
    assert(channels@.subrange(0, channels.len() as int) == channels@);
    map
}

/// The cached emoji of a list of gateway emoji, in order.
pub fn build_emoji(emojis: &Vec<EmojiData>) -> (r: Vec<CachedEmoji>)
    ensures
        r@.len() == emojis@.len(),
        forall|i: int| 0 <= i < r@.len() ==> emoji_matches(#[trigger] r@[i], emojis@[i]),
{
    let mut out: Vec<CachedEmoji> = Vec::new();
    let mut i: usize = 0;
    while i < emojis.len()
        invariant
            i <= emojis.len(),
            out@.len() == i,
            forall|j: int| 0 <= j < i ==> emoji_matches(#[trigger] out@[j], emojis@[j]),
        decreases emojis.len() - i,
    {
        out.push(CachedEmoji::from_emoji(&emojis[i]));
        i = i + 1;
    }
    out
}

/// A copy of a list of cached emoji.
pub fn copy_emoji(v: &Vec<CachedEmoji>) -> (r: Vec<CachedEmoji>)
    ensures
        r@.len() == v@.len(),
        forall|i: int| 0 <= i < r@.len() ==> same_emoji(#[trigger] r@[i], v@[i]),
{
    let mut out: Vec<CachedEmoji> = Vec::new();
    let mut i: usize = 0;
    while i < v.len()
        invariant
            i <= v.len(),
            out@.len() == i,
            forall|j: int| 0 <= j < i ==> same_emoji(#[trigger] out@[j], v@[j]),
        decreases v.len() - i,
    {
        out.push(v[i].duplicate());
        i = i + 1;
    }
    out
}

/// The cached guild is what the gateway guild turns into: its fields, its
/// roles, channels and emoji, no members yet, not complete.
pub open spec fn guild_matches(c: CachedGuild, g: GuildData) -> bool {
    &&& c.id == g.id
    &&& c.name == g.name
    &&& c.icon == g.icon
    &&& c.splash == g.splash
    &&& c.discovery_splash == g.discovery_splash
    &&& c.owner_id == g.owner_id
    &&& c.region == g.region
    &&& c.afk_channel_id == g.afk_channel_id
    &&& c.afk_timeout == g.afk_timeout
    &&& c.verification_level == g.verification_level
    &&& c.default_message_notifications == g.default_message_notifications
    &&& c.roles@ == roles_map(g.roles@)
    &&& c.emoji@.len() == g.emojis@.len()
    &&& forall|i: int| 0 <= i < c.emoji@.len() ==> emoji_matches(#[trigger] c.emoji@[i], g.emojis@[i])
    &&& c.features@ == g.features@
    &&& !c.unavailable
    &&& c.members@ == Map::<u64, CachedMember>::empty()
    &&& c.channels@.dom() == channel_ids(g.channels@)
    &&& forall|k: u64| #[trigger]
        c.channels@.contains_key(k) ==> c.channels@[k].spec_id() == k && channel_from_data(
            c.channels@[k],
            last_channel_with_id(g.channels@, k),
            Some(g.id),
        )
    &&& c.max_presences == g.max_presences
    &&& c.max_members == g.max_members
    &&& c.description == g.description
    &&& c.banner == g.banner
    &&& c.premium_tier == g.premium_tier
    &&& c.premium_subscription_count == (match g.premium_subscription_count {
        Some(n) => n,
        None => 0,
    })
    &&& c.preferred_locale == g.preferred_locale
    &&& !c.complete
    &&& c.member_count == 0
}

/// The guild `c` is guild `old` after the update `u`: the fields and roles of
/// the update, the emoji, members and channels of `old`, the same
/// completeness and member count.
pub open spec fn guild_updated(c: CachedGuild, old: CachedGuild, u: PartialGuildData) -> bool {
    &&& c.id == u.id
    &&& c.name == u.name
    &&& c.icon == u.icon
    &&& c.splash == u.splash
    &&& c.discovery_splash == u.discovery_splash
    &&& c.owner_id == u.owner_id
    &&& c.region == u.region
    &&& c.afk_channel_id == u.afk_channel_id
    &&& c.afk_timeout == u.afk_timeout
    &&& c.verification_level == u.verification_level
    &&& c.default_message_notifications == u.default_message_notifications
    &&& c.roles@ == roles_map(u.roles@)
    &&& c.emoji@.len() == old.emoji@.len()
    &&& forall|i: int| 0 <= i < c.emoji@.len() ==> same_emoji(#[trigger] c.emoji@[i], old.emoji@[i])
    &&& c.features@ == u.features@
    &&& !c.unavailable
    &&& c.members@.dom() == old.members@.dom()
    &&& forall|k: u64| #[trigger] c.members@.contains_key(k) ==> same_member(c.members@[k], old.members@[k])
    &&& c.channels@.dom() == old.channels@.dom()
    &&& forall|k: u64| #[trigger] c.channels@.contains_key(k) ==> same_channel(c.channels@[k], old.channels@[k])
    &&& c.max_presences == u.max_presences
    &&& c.max_members == u.max_members
    &&& c.description == u.description
    &&& c.banner == u.banner
    &&& c.premium_tier == u.premium_tier
    &&& c.premium_subscription_count == (match u.premium_subscription_count {
        Some(n) => n,
        None => 0,
    })
    &&& c.preferred_locale == u.preferred_locale
    &&& c.complete == old.complete
    &&& c.member_count == old.member_count
}

impl CachedGuild {
    /// The cached form of a guild the gateway just sent: its roles, channels
    /// and emoji, no members yet, not complete.
    pub fn from_guild(guild: &GuildData) -> (r: CachedGuild)
        ensures
            guild_matches(r, *guild),
    {
        CachedGuild {
            id: guild.id,
            name: guild.name.clone(),
            icon: copy_opt_string(&guild.icon),
            splash: copy_opt_string(&guild.splash),
            discovery_splash: copy_opt_string(&guild.discovery_splash),
            owner_id: guild.owner_id,
            region: guild.region.clone(),
            afk_channel_id: guild.afk_channel_id,
            afk_timeout: guild.afk_timeout,
            verification_level: guild.verification_level,
            default_message_notifications: guild.default_message_notifications,
            roles: build_roles(&guild.roles),
            emoji: build_emoji(&guild.emojis),
            features: copy_strings(&guild.features),
            unavailable: false,
            members: HashMap::new(),
            channels: build_channels(&guild.channels, guild.id),
            max_presences: guild.max_presences,
            max_members: guild.max_members,
            description: copy_opt_string(&guild.description),
            banner: copy_opt_string(&guild.banner),
            premium_tier: guild.premium_tier,
            premium_subscription_count: match guild.premium_subscription_count {
                Some(c) => c,
                None => 0,
            },
            preferred_locale: guild.preferred_locale.clone(),
            complete: false,
            member_count: 0,
        }
    }

    /// The guild after a guild update: the fields and roles of the update, the
    /// emoji, members and channels of this guild, and the same completeness
    /// and member count.
    pub fn update(&self, other: &PartialGuildData) -> (r: CachedGuild)
        ensures
            guild_updated(r, *self, *other),
    {
        CachedGuild {
            id: other.id,
            name: other.name.clone(),
            icon: copy_opt_string(&other.icon),
            splash: copy_opt_string(&other.splash),
            discovery_splash: copy_opt_string(&other.discovery_splash),
            owner_id: other.owner_id,
            region: other.region.clone(),
            afk_channel_id: other.afk_channel_id,
            afk_timeout: other.afk_timeout,
            verification_level: other.verification_level,
            default_message_notifications: other.default_message_notifications,
            roles: build_roles(&other.roles),
            emoji: copy_emoji(&self.emoji),
            features: copy_strings(&other.features),
            unavailable: false,
            members: copy_members(&self.members),
            channels: copy_channels(&self.channels),
            max_presences: other.max_presences,
            max_members: other.max_members,
            description: copy_opt_string(&other.description),
            banner: copy_opt_string(&other.banner),
            premium_tier: other.premium_tier,
            premium_subscription_count: match other.premium_subscription_count {
                Some(c) => c,
                None => 0,
            },
            preferred_locale: other.preferred_locale.clone(),
            complete: self.complete,
            member_count: self.member_count,
        }
    }

    /// The cached role with the given id.
    pub fn get_role(&self, role_id: u64) -> (r: Option<&CachedRole>)
        ensures
            match r {
                Some(role) => self.roles@.contains_key(role_id) && *role == self.roles@[role_id],
                None => !self.roles@.contains_key(role_id),
            },
    {
        self.roles.get(&role_id)
    }
}

/// A copy of a member map, every member under the same key.
pub fn copy_members(m: &HashMap<u64, CachedMember>) -> (r: HashMap<u64, CachedMember>)
    ensures
        r@.dom() == m@.dom(),
        forall|k: u64| #[trigger] r@.contains_key(k) ==> same_member(r@[k], m@[k]),
{
    let keys = map_keys(m);
    let mut out: HashMap<u64, CachedMember> = HashMap::new();
    let mut i: usize = 0;
    while i < keys.len()
        invariant
            i <= keys.len(),
            keys@.to_set() == m@.dom(),
            out@.dom() == keys@.subrange(0, i as int).to_set(),
            forall|x: u64| #[trigger] out@.contains_key(x) ==> same_member(out@[x], m@[x]),
        decreases keys.len() - i,
    {
        let k = keys[i];
        assert(keys@.to_set().contains(keys@[i as int]));
        let mem = m.get(&k).unwrap().duplicate();
        out.insert(k, mem);
        assert(keys@.subrange(0, i + 1) == keys@.subrange(0, i as int).push(k));
        assert(keys@.subrange(0, i + 1).to_set() == keys@.subrange(0, i as int).to_set().insert(k))
            by {
            keys@.subrange(0, i as int).lemma_push_to_set_commute(k);
        }
        i = i + 1;
    }
    assert(keys@.subrange(0, keys.len() as int) == keys@);
    out
}

/// A copy of a channel map, every channel under the same key.
pub fn copy_channels(m: &HashMap<u64, CachedChannel>) -> (r: HashMap<u64, CachedChannel>)
    ensures
        r@.dom() == m@.dom(),
        forall|k: u64| #[trigger] r@.contains_key(k) ==> same_channel(r@[k], m@[k]),
{
    let keys = map_keys(m);
    let mut out: HashMap<u64, CachedChannel> = HashMap::new();
    let mut i: usize = 0;
    while i < keys.len()
        invariant
            i <= keys.len(),
            keys@.to_set() == m@.dom(),
            out@.dom() == keys@.subrange(0, i as int).to_set(),
            forall|x: u64| #[trigger] out@.contains_key(x) ==> same_channel(out@[x], m@[x]),
        decreases keys.len() - i,
    {
        let k = keys[i];
        assert(keys@.to_set().contains(keys@[i as int]));
        let ch = m.get(&k).unwrap().duplicate();
        out.insert(k, ch);
        assert(keys@.subrange(0, i + 1) == keys@.subrange(0, i as int).push(k));
        assert(keys@.subrange(0, i + 1).to_set() == keys@.subrange(0, i as int).to_set().insert(k))
            by {
            keys@.subrange(0, i as int).lemma_push_to_set_commute(k);
        }
        i = i + 1;
    }
    assert(keys@.subrange(0, keys.len() as int) == keys@);
    out
}

/// A guild as it is frozen for a cold resume: its maps turned into lists.
pub struct ColdStorageGuild {
    pub id: u64,
    pub name: String,
    pub icon: Option<String>,
    pub splash: Option<String>,
    pub discovery_splash: Option<String>,
    pub owner_id: u64,
    pub region: String,
    pub afk_channel_id: Option<u64>,
    pub afk_timeout: u64,
    pub verification_level: VerificationLevel,
    pub default_message_notifications: DefaultMessageNotificationLevel,
    pub roles: Vec<CachedRole>,
    pub emoji: Vec<CachedEmoji>,
    pub features: Vec<String>,
    pub members: Vec<CachedMember>,
    pub channels: Vec<CachedChannel>,
    pub max_presences: Option<u64>,
    pub max_members: Option<u64>,
    pub description: Option<String>,
    pub banner: Option<String>,
    pub premium_tier: PremiumTier,
    pub premium_subscription_count: u64,
    pub preferred_locale: String,
}

/// The roles and channels of the guild sit under their ids, as the cache
/// always puts them.
pub open spec fn keyed_by_id(g: CachedGuild) -> bool {
    &&& forall|k: u64| #[trigger] g.roles@.contains_key(k) ==> g.roles@[k].id == k
    &&& forall|k: u64| #[trigger] g.channels@.contains_key(k) ==> g.channels@[k].spec_id() == k
    &&& forall|k: u64| #[trigger] g.members@.contains_key(k) ==> g.members@[k].user_id == k
}

/// The list holds the map's values, each once, in the order of `keys`.
pub open spec fn lists_values<V>(list: Seq<V>, m: Map<u64, V>, keys: Seq<u64>) -> bool {
    &&& keys.to_set() == m.dom()
    &&& keys.no_duplicates()
    &&& keys.len() == list.len()
    &&& forall|i: int| 0 <= i < list.len() ==> #[trigger] list[i] == m[keys[i]]
}

/// The frozen guild `f` holds what the cached guild `g` holds: the same
/// fields, the roles, members and channels of its maps (as copies, in some
/// order), the emoji and features in order.
pub open spec fn guild_frozen(f: ColdStorageGuild, g: CachedGuild) -> bool {
    &&& f.id == g.id
    &&& f.name == g.name
    &&& f.icon == g.icon
    &&& f.splash == g.splash
    &&& f.discovery_splash == g.discovery_splash
    &&& f.owner_id == g.owner_id
    &&& f.region == g.region
    &&& f.afk_channel_id == g.afk_channel_id
    &&& f.afk_timeout == g.afk_timeout
    &&& f.verification_level == g.verification_level
    &&& f.default_message_notifications == g.default_message_notifications
    &&& exists|keys: Seq<u64>| #[trigger] lists_values(f.roles@, g.roles@, keys)
    &&& f.emoji@.len() == g.emoji@.len()
    &&& forall|i: int| 0 <= i < f.emoji@.len() ==> same_emoji(#[trigger] f.emoji@[i], g.emoji@[i])
    &&& f.features@ == g.features@
    &&& exists|keys: Seq<u64>|
        #[trigger] keys.to_set() == g.members@.dom() && keys.no_duplicates() && keys.len()
            == f.members@.len() && forall|i: int|
            0 <= i < f.members@.len() ==> same_member(#[trigger] f.members@[i], g.members@[keys[i]])
    &&& exists|keys: Seq<u64>|
        #[trigger] keys.to_set() == g.channels@.dom() && keys.no_duplicates() && keys.len()
            == f.channels@.len() && forall|i: int|
            0 <= i < f.channels@.len() ==> same_channel(#[trigger] f.channels@[i], g.channels@[keys[i]])
    &&& f.max_presences == g.max_presences
    &&& f.max_members == g.max_members
    &&& f.description == g.description
    &&& f.banner == g.banner
    &&& f.premium_tier == g.premium_tier
    &&& f.premium_subscription_count == g.premium_subscription_count
    &&& f.preferred_locale == g.preferred_locale
}

impl ColdStorageGuild {
    /// Freezes a cached guild: the frozen guild takes its roles and members,
    /// which leave the guild (its roles and members are empty afterwards);
    /// the rest of the guild stays as it was.
    pub fn from(guild: &mut CachedGuild) -> (r: ColdStorageGuild)
        ensures
            guild_frozen(r, *old(guild)),
            final(guild).roles@ == Map::<u64, CachedRole>::empty(),
            final(guild).members@ == Map::<u64, CachedMember>::empty(),
            *final(guild) == (CachedGuild {
                roles: final(guild).roles,
                members: final(guild).members,
                ..*old(guild)
            }),
    {
        broadcast use vstd::std_specs::hash::group_hash_axioms;

        let r = Self::freeze(guild);
        guild.roles.clear();
        guild.members.clear();
        r
    }

    /// The frozen form of a cached guild, which stays as it is.
    pub(crate) fn freeze(guild: &CachedGuild) -> (r: ColdStorageGuild)
        ensures
            guild_frozen(r, *guild),
    {
        let role_keys = map_keys(&guild.roles);
        let mut roles: Vec<CachedRole> = Vec::new();
        let mut i: usize = 0;
        while i < role_keys.len()
            invariant
                i <= role_keys.len(),
                role_keys@.to_set() == guild.roles@.dom(),
                roles@.len() == i,
                forall|j: int| 0 <= j < i ==> #[trigger] roles@[j] == guild.roles@[role_keys@[j]],
            decreases role_keys.len() - i,
        {
            assert(role_keys@.to_set().contains(role_keys@[i as int]));
            roles.push(guild.roles.get(&role_keys[i]).unwrap().duplicate());
            i = i + 1;
        }
        let member_keys = map_keys(&guild.members);
        let mut members: Vec<CachedMember> = Vec::new();
        let mut i: usize = 0;
        while i < member_keys.len()
            invariant
                i <= member_keys.len(),
                member_keys@.to_set() == guild.members@.dom(),
                members@.len() == i,
                forall|j: int|
                    0 <= j < i ==> same_member(#[trigger] members@[j], guild.members@[member_keys@[j]]),
            decreases member_keys.len() - i,
        {
            assert(member_keys@.to_set().contains(member_keys@[i as int]));
            members.push(guild.members.get(&member_keys[i]).unwrap().duplicate());
            i = i + 1;
        }
        let channel_keys = map_keys(&guild.channels);
        let mut channels: Vec<CachedChannel> = Vec::new();
        let mut i: usize = 0;
        while i < channel_keys.len()
            invariant
                i <= channel_keys.len(),
                channel_keys@.to_set() == guild.channels@.dom(),
                channels@.len() == i,
                forall|j: int|
                    0 <= j < i ==> same_channel(
                        #[trigger] channels@[j],
                        guild.channels@[channel_keys@[j]],
                    ),
            decreases channel_keys.len() - i,
        {
            assert(channel_keys@.to_set().contains(channel_keys@[i as int]));
            channels.push(guild.channels.get(&channel_keys[i]).unwrap().duplicate());
            i = i + 1;
        }
        let r = ColdStorageGuild {
            id: guild.id,
            name: guild.name.clone(),
            icon: copy_opt_string(&guild.icon),
            splash: copy_opt_string(&guild.splash),
            discovery_splash: copy_opt_string(&guild.discovery_splash),
            owner_id: guild.owner_id,
            region: guild.region.clone(),
            afk_channel_id: guild.afk_channel_id,
            afk_timeout: guild.afk_timeout,
            verification_level: guild.verification_level,
            default_message_notifications: guild.default_message_notifications,
            roles,
            emoji: copy_emoji(&guild.emoji),
            features: copy_strings(&guild.features),
            members,
            channels,
            max_presences: guild.max_presences,
            max_members: guild.max_members,
            description: copy_opt_string(&guild.description),
            banner: copy_opt_string(&guild.banner),
            premium_tier: guild.premium_tier,
            premium_subscription_count: guild.premium_subscription_count,
            preferred_locale: guild.preferred_locale.clone(),
        };
        proof {
            assert(lists_values(r.roles@, guild.roles@, role_keys@));
            assert(member_keys@.to_set() == guild.members@.dom() && member_keys@.no_duplicates()
                && member_keys@.len() == r.members@.len());
            assert(channel_keys@.to_set() == guild.channels@.dom() && channel_keys@.no_duplicates()
                && channel_keys@.len() == r.channels@.len());
        }
        r
    }
}

/// The values of a list by key, a later value with the same key replacing an
/// earlier one.
pub open spec fn index_by<V>(list: Seq<V>, key: spec_fn(V) -> u64) -> Map<u64, V>
    decreases list.len(),
{
    if list.len() == 0 {
        Map::empty()
    } else {
        index_by(list.drop_last(), key).insert(key(list.last()), list.last())
    }
}

/// Indexing a list whose keys are all different finds each value under its
/// key.
pub proof fn lemma_index_by_distinct<V>(list: Seq<V>, key: spec_fn(V) -> u64, keys: Seq<u64>)
    requires
        keys.no_duplicates(),
        keys.len() == list.len(),
        forall|i: int| 0 <= i < list.len() ==> key(#[trigger] list[i]) == keys[i],
    ensures
        index_by(list, key).dom() == keys.to_set(),
        forall|i: int| 0 <= i < list.len() ==> index_by(list, key)[#[trigger] keys[i]] == list[i],
    decreases list.len(),
{
    if list.len() == 0 {
        assert(keys.to_set() =~= Set::<u64>::empty());
    } else {
        let n = list.len() - 1;
        let p = list.drop_last();
        let pk = keys.drop_last();
        assert forall|i: int| 0 <= i < p.len() implies key(#[trigger] p[i]) == pk[i] by {
            assert(p[i] == list[i]);
        }
        assert(pk.no_duplicates()) by {
            assert forall|i: int, j: int| 0 <= i < pk.len() && 0 <= j < pk.len() && i != j implies pk[i] != pk[j] by {
                assert(pk[i] == keys[i] && pk[j] == keys[j]);
            }
        }
        lemma_index_by_distinct(p, key, pk);
        assert(keys == pk.push(keys[n]));
        pk.lemma_push_to_set_commute(keys[n]);
        assert forall|i: int| 0 <= i < list.len() implies index_by(list, key)[#[trigger] keys[i]] == list[i] by {
            if i < n {
                assert(keys[i] != keys[n]);
                assert(pk[i] == keys[i]);
                assert(p[i] == list[i]);
            }
        }
        assert(index_by(list, key).dom() =~= keys.to_set());
    }
}

/// The cached guild `c` is what defrosting the frozen guild `f` gives: the
/// same fields, its roles, members and channels back under their ids, its
/// emoji in order, no features, complete, and counting its members.
pub open spec fn guild_defrosted(c: CachedGuild, f: ColdStorageGuild) -> bool {
    let members = index_by(f.members@, |m: CachedMember| m.user_id);
    let channels = index_by(f.channels@, |ch: CachedChannel| ch.spec_id());
    &&& c.id == f.id
    &&& c.name == f.name
    &&& c.icon == f.icon
    &&& c.splash == f.splash
    &&& c.discovery_splash == f.discovery_splash
    &&& c.owner_id == f.owner_id
    &&& c.region == f.region
    &&& c.afk_channel_id == f.afk_channel_id
    &&& c.afk_timeout == f.afk_timeout
    &&& c.verification_level == f.verification_level
    &&& c.default_message_notifications == f.default_message_notifications
    &&& c.roles@ == index_by(f.roles@, |r: CachedRole| r.id)
    &&& c.emoji@.len() == f.emoji@.len()
    &&& forall|i: int| 0 <= i < c.emoji@.len() ==> same_emoji(#[trigger] c.emoji@[i], f.emoji@[i])
    &&& c.features@ == Seq::<String>::empty()
    &&& !c.unavailable
    &&& c.members@.dom() == members.dom()
    &&& forall|k: u64| #[trigger] c.members@.contains_key(k) ==> same_member(c.members@[k], members[k])
    &&& c.channels@.dom() == channels.dom()
    &&& forall|k: u64| #[trigger] c.channels@.contains_key(k) ==> same_channel(c.channels@[k], channels[k])
    &&& c.max_presences == f.max_presences
    &&& c.max_members == f.max_members
    &&& c.description == f.description
    &&& c.banner == f.banner
    &&& c.premium_tier == f.premium_tier
    &&& c.premium_subscription_count == f.premium_subscription_count
    &&& c.preferred_locale == f.preferred_locale
    &&& c.complete
    &&& c.member_count == f.members@.len()
}

/// How many members of the list have this user id.
pub open spec fn member_occurrences(members: Seq<CachedMember>, u: u64) -> nat
    decreases members.len(),
{
    if members.len() == 0 {
        0
    } else {
        member_occurrences(members.drop_last(), u) + if members.last().user_id == u {
            1nat
        } else {
            0nat
        }
    }
}

/// A counter raised by one `k` times, wrapping around as the bot's counters
/// do.
pub open spec fn bumped(x: u64, k: nat) -> u64
    decreases k,
{
    if k == 0 {
        x
    } else {
        bumped(x, (k - 1) as nat).wrapping_add(1)
    }
}

/// The users after each member of the list counted one more mutual server:
/// a user counts one more for each member with its id.
pub open spec fn mutuals_bumped(
    after: Map<u64, CachedUser>,
    before: Map<u64, CachedUser>,
    members: Seq<CachedMember>,
) -> bool {
    &&& after.dom() == before.dom()
    &&& forall|u: u64| #[trigger]
        after.contains_key(u) ==> after[u] == (CachedUser {
            mutual_servers: bumped(before[u].mutual_servers, member_occurrences(members, u)),
            ..before[u]
        })
}

/// Each member's user, which must be cached, counts one more mutual server.
fn bump_mutuals(users: &mut HashMap<u64, CachedUser>, members: &Vec<CachedMember>)
    requires
        forall|i: int| 0 <= i < members@.len() ==> old(users)@.contains_key(#[trigger] members@[i].user_id),
    ensures
        mutuals_bumped(final(users)@, old(users)@, members@),
{
    let mut i: usize = 0;
    while i < members.len()
        invariant
            i <= members.len(),
            forall|j: int| 0 <= j < members@.len() ==> old(users)@.contains_key(#[trigger] members@[j].user_id),
            mutuals_bumped(users@, old(users)@, members@.subrange(0, i as int)),
        decreases members.len() - i,
    {
        let id = members[i].user_id;
        assert(old(users)@.contains_key(members@[i as int].user_id));
        let ghost prev = users@;
        let mut user = users.remove(&id).unwrap();
        user.mutual_servers = user.mutual_servers.wrapping_add(1);
        users.insert(id, user);
        proof {
            let p = members@.subrange(0, i as int);
            let q = members@.subrange(0, i + 1);
            assert(q.drop_last() == p);
            assert(q.last().user_id == id);
            assert(users@.dom() =~= old(users)@.dom());
        }
        i = i + 1;
    }
    proof {
        assert(members@.subrange(0, members.len() as int) == members@);
    }
}

impl CachedGuild {
    /// Brings a frozen guild back: complete, counting the members it holds,
    /// its features not kept. Each member's user, which must be cached,
    /// counts one more mutual server.
    pub fn defrost(users: &mut HashMap<u64, CachedUser>, cold: &ColdStorageGuild) -> (r: CachedGuild)
        requires
            forall|i: int|
                0 <= i < cold.members@.len() ==> old(users)@.contains_key(#[trigger] cold.members@[i].user_id),
        ensures
            guild_defrosted(r, *cold),
            mutuals_bumped(final(users)@, old(users)@, cold.members@),
    {
        bump_mutuals(users, &cold.members);
        let ghost rk = |x: CachedRole| x.id;
        let ghost mk = |m: CachedMember| m.user_id;
        let ghost ck = |ch: CachedChannel| ch.spec_id();
        let mut roles: HashMap<u64, CachedRole> = HashMap::new();
        let mut i: usize = 0;
        while i < cold.roles.len()
            invariant
                i <= cold.roles.len(),
                rk == (|x: CachedRole| x.id),
                roles@ == index_by(cold.roles@.subrange(0, i as int), rk),
            decreases cold.roles.len() - i,
        {
            let role = cold.roles[i].duplicate();
            roles.insert(role.id, role);
            assert(cold.roles@.subrange(0, i + 1).drop_last() == cold.roles@.subrange(0, i as int));
            i = i + 1;
        }
        assert(cold.roles@.subrange(0, cold.roles.len() as int) == cold.roles@);
        let mut members: HashMap<u64, CachedMember> = HashMap::new();
        let mut i: usize = 0;
        while i < cold.members.len()
            invariant
                i <= cold.members.len(),
                mk == (|m: CachedMember| m.user_id),
                members@.dom() == index_by(cold.members@.subrange(0, i as int), mk).dom(),
                forall|k: u64| #[trigger]
                    members@.contains_key(k) ==> same_member(
                        members@[k],
                        index_by(cold.members@.subrange(0, i as int), mk)[k],
                    ),
            decreases cold.members.len() - i,
        {
            let member = cold.members[i].duplicate();
            let id = cold.members[i].user_id;
            members.insert(id, member);
            assert(cold.members@.subrange(0, i + 1).drop_last() == cold.members@.subrange(
                0,
                i as int,
            ));
            i = i + 1;
        }
        assert(cold.members@.subrange(0, cold.members.len() as int) == cold.members@);
        let mut channels: HashMap<u64, CachedChannel> = HashMap::new();
        let mut i: usize = 0;
        while i < cold.channels.len()
            invariant
                i <= cold.channels.len(),
                ck == (|ch: CachedChannel| ch.spec_id()),
                channels@.dom() == index_by(cold.channels@.subrange(0, i as int), ck).dom(),
                forall|k: u64| #[trigger]
                    channels@.contains_key(k) ==> same_channel(
                        channels@[k],
                        index_by(cold.channels@.subrange(0, i as int), ck)[k],
                    ),
            decreases cold.channels.len() - i,
        {
            let channel = cold.channels[i].duplicate();
            let id = cold.channels[i].get_id();
            channels.insert(id, channel);
            assert(cold.channels@.subrange(0, i + 1).drop_last() == cold.channels@.subrange(
                0,
                i as int,
            ));
            i = i + 1;
        }
        assert(cold.channels@.subrange(0, cold.channels.len() as int) == cold.channels@);
        CachedGuild {
            id: cold.id,
            name: cold.name.clone(),
            icon: copy_opt_string(&cold.icon),
            splash: copy_opt_string(&cold.splash),
            discovery_splash: copy_opt_string(&cold.discovery_splash),
            owner_id: cold.owner_id,
            region: cold.region.clone(),
            afk_channel_id: cold.afk_channel_id,
            afk_timeout: cold.afk_timeout,
            verification_level: cold.verification_level,
            default_message_notifications: cold.default_message_notifications,
            roles,
            emoji: copy_emoji(&cold.emoji),
            features: Vec::new(),
            unavailable: false,
            members,
            channels,
            max_presences: cold.max_presences,
            max_members: cold.max_members,
            description: copy_opt_string(&cold.description),
            banner: copy_opt_string(&cold.banner),
            premium_tier: cold.premium_tier,
            premium_subscription_count: cold.premium_subscription_count,
            preferred_locale: cold.preferred_locale.clone(),
            complete: true,
            member_count: cold.members.len() as u64,
        }
    }
}

/// The guild `c` is the guild `g` back: the same fields, roles, members,
/// channels and emoji; only the features are lost, and it is complete,
/// counting the members it holds.
pub open spec fn guild_restored(c: CachedGuild, g: CachedGuild) -> bool {
    &&& c.id == g.id
    &&& c.name == g.name
    &&& c.icon == g.icon
    &&& c.splash == g.splash
    &&& c.discovery_splash == g.discovery_splash
    &&& c.owner_id == g.owner_id
    &&& c.region == g.region
    &&& c.afk_channel_id == g.afk_channel_id
    &&& c.afk_timeout == g.afk_timeout
    &&& c.verification_level == g.verification_level
    &&& c.default_message_notifications == g.default_message_notifications
    &&& c.roles@ == g.roles@
    &&& c.members@.dom() == g.members@.dom()
    &&& forall|k: u64| #[trigger] c.members@.contains_key(k) ==> same_member(c.members@[k], g.members@[k])
    &&& c.channels@.dom() == g.channels@.dom()
    &&& forall|k: u64| #[trigger] c.channels@.contains_key(k) ==> same_channel(c.channels@[k], g.channels@[k])
    &&& c.emoji@.len() == g.emoji@.len()
    &&& forall|i: int| 0 <= i < c.emoji@.len() ==> same_emoji(#[trigger] c.emoji@[i], g.emoji@[i])
    &&& c.features@.len() == 0
    &&& !c.unavailable
    &&& c.max_presences == g.max_presences
    &&& c.max_members == g.max_members
    &&& c.description == g.description
    &&& c.banner == g.banner
    &&& c.premium_tier == g.premium_tier
    &&& c.premium_subscription_count == g.premium_subscription_count
    &&& c.preferred_locale == g.preferred_locale
    &&& c.complete
    &&& c.member_count == g.members@.len()
}

/// Freezing a cached guild and defrosting it again gives the guild back: the
/// same fields, roles, members, channels and emoji. Only its features are
/// lost, and it comes back complete, counting the members it holds.
pub proof fn lemma_freeze_defrost(g: CachedGuild, f: ColdStorageGuild, c: CachedGuild)
    requires
        keyed_by_id(g),
        guild_frozen(f, g),
        guild_defrosted(c, f),
    ensures
        guild_restored(c, g),
{
    let rk = |x: CachedRole| x.id;
    let mk = |m: CachedMember| m.user_id;
    let ck = |ch: CachedChannel| ch.spec_id();
    let roles_keys = choose|keys: Seq<u64>| #[trigger] lists_values(f.roles@, g.roles@, keys);
    assert forall|i: int| 0 <= i < f.roles@.len() implies rk(#[trigger] f.roles@[i]) == roles_keys[i] by {
        assert(roles_keys.to_set().contains(roles_keys[i]));
    }
    lemma_index_by_distinct(f.roles@, rk, roles_keys);
    assert forall|k: u64| #[trigger] c.roles@.contains_key(k) <==> g.roles@.contains_key(k) by {}
    assert forall|k: u64| #[trigger] c.roles@.contains_key(k) implies c.roles@[k] == g.roles@[k] by {
        assert(roles_keys.to_set().contains(k));
        let i = choose|i: int| 0 <= i < roles_keys.len() && roles_keys[i] == k;
        assert(index_by(f.roles@, rk)[roles_keys[i]] == f.roles@[i]);
    }
    assert(c.roles@ =~= g.roles@);
    let member_keys = choose|keys: Seq<u64>|
        #[trigger] keys.to_set() == g.members@.dom() && keys.no_duplicates() && keys.len()
            == f.members@.len() && forall|i: int|
            0 <= i < f.members@.len() ==> same_member(#[trigger] f.members@[i], g.members@[keys[i]]);
    assert forall|i: int| 0 <= i < f.members@.len() implies mk(#[trigger] f.members@[i]) == member_keys[i] by {
        assert(member_keys.to_set().contains(member_keys[i]));
    }
    lemma_index_by_distinct(f.members@, mk, member_keys);
    assert forall|k: u64| #[trigger] c.members@.contains_key(k) implies same_member(c.members@[k], g.members@[k]) by {
        assert(member_keys.to_set().contains(k));
        let i = choose|i: int| 0 <= i < member_keys.len() && member_keys[i] == k;
        assert(index_by(f.members@, mk)[member_keys[i]] == f.members@[i]);
    }
    member_keys.unique_seq_to_set();
    let channel_keys = choose|keys: Seq<u64>|
        #[trigger] keys.to_set() == g.channels@.dom() && keys.no_duplicates() && keys.len()
            == f.channels@.len() && forall|i: int|
            0 <= i < f.channels@.len() ==> same_channel(#[trigger] f.channels@[i], g.channels@[keys[i]]);
    assert forall|i: int| 0 <= i < f.channels@.len() implies ck(#[trigger] f.channels@[i]) == channel_keys[i] by {
        assert(channel_keys.to_set().contains(channel_keys[i]));
        assert(same_channel(f.channels@[i], g.channels@[channel_keys[i]]));
        lemma_same_channel_id(f.channels@[i], g.channels@[channel_keys[i]]);
    }
    lemma_index_by_distinct(f.channels@, ck, channel_keys);
    assert forall|k: u64| #[trigger] c.channels@.contains_key(k) implies same_channel(c.channels@[k], g.channels@[k]) by {
        assert(channel_keys.to_set().contains(k));
        let i = choose|i: int| 0 <= i < channel_keys.len() && channel_keys[i] == k;
        assert(index_by(f.channels@, ck)[channel_keys[i]] == f.channels@[i]);
        lemma_same_channel_trans(c.channels@[k], f.channels@[i], g.channels@[k]);
    }
}

} // verus!
