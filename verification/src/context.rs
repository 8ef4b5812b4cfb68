//! What a command runs with: the message that invoked it, the guild it came
//! from, and the permission questions a command asks of the cache.
use vstd::prelude::*;

use crate::access::{
    channel_permissions, get_channel_permissions_for, get_guild_permissions_for, guild_permissions,
    roles_union,
};
use crate::config::contains_id;
use crate::model::{OverwriteTarget, PermissionOverwrite};
use crate::cache::Cache;
use crate::cached::{CachedMember, CachedRole, CachedUser};
use crate::channel::CachedChannel;
use crate::config::{ConfigStore, GuildConfig};
use crate::guild::CachedGuild;
use crate::perms::{contains, has_all};

verus! {

/// The message a command was invoked by, with its author and channel as the
/// cache knew them.
pub struct CommandMessage {
    pub id: u64,
    pub content: String,
    pub author: CachedUser,
    pub author_as_member: Option<CachedMember>,
    pub channel: CachedChannel,
    pub mention_everyone: bool,
    pub tts: bool,
}

/// Why a command could not be run where it was invoked.
#[derive(Clone, Copy, Debug, PartialEq, Eq, Structural)]
pub enum CommandError {
    /// The command needs a guild and was invoked in a direct message.
    NoDM,
}

impl CommandMessage {
    /// The author as a member of the guild the message was sent in; an error
    /// in a direct message.
    pub fn get_author_as_member(&self) -> (r: Result<&CachedMember, CommandError>)
        ensures
            match self.author_as_member {
                Some(m) => r == Ok::<&CachedMember, CommandError>(&m),
                None => r == Err::<&CachedMember, CommandError>(CommandError::NoDM),
            },
    {
        match &self.author_as_member {
            Some(m) => Ok(m),
            None => Err(CommandError::NoDM),
        }
    }
}

/// A command's context: its message, the guild it was sent in (none in a
/// direct message) with that guild's configuration, the shard that received
/// it and the bot's own user id.
pub struct CommandContext {
    pub message: CommandMessage,
    pub guild: Option<CachedGuild>,
    pub config: GuildConfig,
    pub shard: u64,
    pub bot_user_id: u64,
}

impl CommandContext {
    /// The guild the command was invoked in; an error in a direct message.
    pub fn get_guild(&self) -> (r: Result<&CachedGuild, CommandError>)
        ensures
            match self.guild {
                Some(g) => r == Ok::<&CachedGuild, CommandError>(&g),
                None => r == Err::<&CachedGuild, CommandError>(CommandError::NoDM),
            },
    {
        match &self.guild {
            Some(g) => Ok(g),
            None => Err(CommandError::NoDM),
        }
    }

    /// The configuration of the command's guild; an error when the command
    /// came from a direct message channel.
    pub fn get_config(&self) -> (r: Result<&GuildConfig, CommandError>)
        ensures
            if self.message.channel.spec_is_dm() {
                r == Err::<&GuildConfig, CommandError>(CommandError::NoDM)
            } else {
                r == Ok::<&GuildConfig, CommandError>(&self.config)
            },
    {
        if self.message.channel.is_dm() {
            Err(CommandError::NoDM)
        } else {
            Ok(&self.config)
        }
    }

    /// Sets the configuration of the command's guild in the store; an error,
    /// and the store unchanged, in a direct message.
    pub fn set_config(&self, store: &mut ConfigStore, new_config: GuildConfig) -> (r: Result<
        (),
        CommandError,
    >)
        ensures
            match self.guild {
                Some(g) => r is Ok && final(store).configs@ == old(store).configs@.insert(
                    g.id,
                    new_config,
                ),
                None => r == Err::<(), CommandError>(CommandError::NoDM) && final(store).configs@
                    == old(store).configs@,
            },
    {
        match &self.guild {
            Some(g) => {
                store.set_config(g.id, new_config);
                Ok(())
            },
            None => Err(CommandError::NoDM),
        }
    }

    /// The member of the command's guild with this user id, as cached.
    pub open spec fn member_of(&self, cache: Cache, user_id: u64) -> Option<CachedMember> {
        match self.guild {
            Some(g) => if cache.guilds@.contains_key(g.id) && cache.guilds@[g.id].members@.contains_key(
                user_id,
            ) {
                Some(cache.guilds@[g.id].members@[user_id])
            } else {
                None
            },
            None => None,
        }
    }

    /// The cached channel with this id.
    pub open spec fn channel_of(cache: Cache, channel_id: u64) -> Option<CachedChannel> {
        if cache.guild_channels@.contains_key(channel_id) {
            Some(cache.guild_channels@[channel_id])
        } else if cache.private_channels@.contains_key(channel_id) {
            Some(cache.private_channels@[channel_id])
        } else {
            None
        }
    }

    /// A user's guild permissions: none outside a guild or for a user that
    /// is not a cached member of it.
    pub open spec fn guild_perms(&self, cache: Cache, user_id: u64) -> u64 {
        match self.guild {
            Some(g) => match self.member_of(cache, user_id) {
                Some(m) => guild_permissions(m, g),
                None => 0,
            },
            None => 0,
        }
    }

    /// A user's permissions in a channel: none for a channel that is not
    /// cached. The overwrites of roles are taken for the roles of the
    /// command's author, whoever the user is.
    pub open spec fn channel_perms(&self, cache: Cache, user_id: u64, channel_id: u64) -> u64 {
        match Self::channel_of(cache, channel_id) {
            Some(c) => channel_permissions(
                c,
                self.guild_perms(cache, user_id),
                user_id,
                match self.message.author_as_member {
                    Some(m) => Some(m.roles@),
                    None => None,
                },
            ),
            None => 0,
        }
    }

    /// The cached member of the command's guild with this user id.
    pub fn get_member<'a>(&self, cache: &'a Cache, user_id: u64) -> (r: Option<&'a CachedMember>)
        ensures
            match r {
                Some(m) => self.member_of(*cache, user_id) == Some(*m),
                None => self.member_of(*cache, user_id) is None,
            },
    {
        match &self.guild {
            Some(g) => cache.get_member(g.id, user_id),
            None => None,
        }
    }

    /// The cached channel with this id.
    pub fn get_channel<'a>(&self, cache: &'a Cache, channel_id: u64) -> (r: Option<&'a CachedChannel>)
        ensures
            match r {
                Some(c) => Self::channel_of(*cache, channel_id) == Some(*c),
                None => Self::channel_of(*cache, channel_id) is None,
            },
    {
        cache.get_channel(channel_id)
    }

    /// The role of the command's guild with this id.
    pub fn get_role(&self, role_id: u64) -> (r: Option<&CachedRole>)
        ensures
            match r {
                Some(role) => self.guild matches Some(g) && g.roles@.contains_key(role_id)
                    && *role == g.roles@[role_id],
                None => !(self.guild matches Some(g) && g.roles@.contains_key(role_id)),
            },
    {
        match &self.guild {
            Some(g) => g.get_role(role_id),
            None => None,
        }
    }

    /// A user's Discord permissions in the command's guild.
    pub fn get_guild_permissions_for(&self, cache: &Cache, user_id: u64) -> (r: u64)
        ensures
            r == self.guild_perms(*cache, user_id),
    {
        match &self.guild {
            Some(guild) => match self.get_member(cache, user_id) {
                Some(member) => get_guild_permissions_for(member, guild),
                None => 0,
            },
            None => 0,
        }
    }

    /// A user's Discord permissions in a channel.
    pub fn get_channel_permissions_for(&self, cache: &Cache, user_id: u64, channel_id: u64) -> (r:
        u64)
        ensures
            r == self.channel_perms(*cache, user_id, channel_id),
    {
        match self.get_channel(cache, channel_id) {
            Some(channel) => {
                let guild_perms = self.get_guild_permissions_for(cache, user_id);
                let roles = match &self.message.author_as_member {
                    Some(m) => Some(&m.roles),
                    None => None,
                };
                get_channel_permissions_for(channel, guild_perms, user_id, roles)
            },
            None => 0,
        }
    }

    /// The bot's Discord permissions in the command's guild.
    pub fn get_bot_guild_permissions(&self, cache: &Cache) -> (r: u64)
        ensures
            r == self.guild_perms(*cache, self.bot_user_id),
    {
        self.get_guild_permissions_for(cache, self.bot_user_id)
    }

    /// Whether the bot has all these permissions in the command's guild.
    pub fn bot_has_guild_permissions(&self, cache: &Cache, permissions: u64) -> (r: bool)
        ensures
            r == has_all(self.guild_perms(*cache, self.bot_user_id), permissions),
    {
        contains(self.get_bot_guild_permissions(cache), permissions)
    }

    /// The bot's Discord permissions in a channel.
    pub fn get_bot_permissions_for_channel(&self, cache: &Cache, channel_id: u64) -> (r: u64)
        ensures
            r == self.channel_perms(*cache, self.bot_user_id, channel_id),
    {
        self.get_channel_permissions_for(cache, self.bot_user_id, channel_id)
    }

    /// The bot's Discord permissions in the channel the command came from.
    pub fn get_bot_channel_permissions(&self, cache: &Cache) -> (r: u64)
        ensures
            r == self.channel_perms(*cache, self.bot_user_id, self.message.channel.spec_id()),
    {
        self.get_bot_permissions_for_channel(cache, self.message.channel.get_id())
    }

    /// Whether a user has all these permissions in a channel.
    pub fn has_channel_permissions(
        &self,
        cache: &Cache,
        user_id: u64,
        channel_id: u64,
        permissions: u64,
    ) -> (r: bool)
        ensures
            r == has_all(self.channel_perms(*cache, user_id, channel_id), permissions),
    {
        contains(self.get_channel_permissions_for(cache, user_id, channel_id), permissions)
    }

    /// Whether the bot has all these permissions in a channel.
    pub fn bot_has_permissions_in_channel(&self, cache: &Cache, channel_id: u64, permissions: u64) -> (r:
        bool)
        ensures
            r == has_all(self.channel_perms(*cache, self.bot_user_id, channel_id), permissions),
    {
        contains(self.get_bot_permissions_for_channel(cache, channel_id), permissions)
    }

    /// Whether the bot has all these permissions in the command's channel.
    pub fn bot_has_channel_permissions(&self, cache: &Cache, permissions: u64) -> (r: bool)
        ensures
            r == has_all(
                self.channel_perms(*cache, self.bot_user_id, self.message.channel.spec_id()),
                permissions,
            ),
    {
        self.bot_has_permissions_in_channel(cache, self.message.channel.get_id(), permissions)
    }

    /// The author's Discord permissions in the command's channel.
    pub fn get_author_channel_permissions(&self, cache: &Cache) -> (r: u64)
        ensures
            r == self.channel_perms(*cache, self.message.author.id, self.message.channel.spec_id()),
    {
        self.get_channel_permissions_for(cache, self.message.author.id, self.message.channel.get_id())
    }

    /// The author's Discord permissions in the command's guild.
    pub fn get_author_guild_permissions(&self, cache: &Cache) -> (r: u64)
        ensures
            r == self.guild_perms(*cache, self.message.author.id),
    {
        self.get_guild_permissions_for(cache, self.message.author.id)
    }

    /// Whether the author has all these permissions in the command's channel.
    pub fn author_has_channel_permissions(&self, cache: &Cache, permissions: u64) -> (r: bool)
        ensures
            r == has_all(
                self.channel_perms(*cache, self.message.author.id, self.message.channel.spec_id()),
                permissions,
            ),
    {
        contains(self.get_author_channel_permissions(cache), permissions)
    }

    /// Whether the author has all these permissions in the command's guild.
    pub fn author_has_guild_permissions(&self, cache: &Cache, permissions: u64) -> (r: bool)
        ensures
            r == has_all(self.guild_perms(*cache, self.message.author.id), permissions),
    {
        contains(self.get_author_guild_permissions(cache), permissions)
    }
}

/// The allows and denies of a channel's overwrites for roles the member has
/// and for the user, without an everyone overwrite of its own.
pub open spec fn member_overwrite_sums(
    overwrites: Seq<PermissionOverwrite>,
    user_id: u64,
    roles: Seq<u64>,
) -> (u64, u64, u64, u64)
    decreases overwrites.len(),
{
    if overwrites.len() == 0 {
        (0, 0, 0, 0)
    } else {
        let (ra, rd, ua, ud) = member_overwrite_sums(overwrites.drop_last(), user_id, roles);
        let o = overwrites.last();
        match o.kind {
            OverwriteTarget::Member(id) => if id == user_id {
                (ra, rd, ua | o.allow, ud | o.deny)
            } else {
                (ra, rd, ua, ud)
            },
            OverwriteTarget::Role(id) => if roles.contains(id) {
                (ra | o.allow, rd | o.deny, ua, ud)
            } else {
                (ra, rd, ua, ud)
            },
        }
    }
}

/// Permissions with a member's role and user overwrites applied: the role
/// denies leave and the role allows join, then the same for the user's.
pub open spec fn member_overwritten(
    perms: u64,
    overwrites: Seq<PermissionOverwrite>,
    user_id: u64,
    roles: Seq<u64>,
) -> u64 {
    let (ra, rd, ua, ud) = member_overwrite_sums(overwrites, user_id, roles);
    (((perms & !rd) | ra) & !ud) | ua
}

/// Permissions with the channel's role and user overwrites for a member.
fn apply_member_overwrites(
    perms: u64,
    overwrites: &Vec<PermissionOverwrite>,
    user_id: u64,
    roles: &Vec<u64>,
) -> (r: u64)
    ensures
        r == member_overwritten(perms, overwrites@, user_id, roles@),
{
    let mut ra: u64 = 0;
    let mut rd: u64 = 0;
    let mut ua: u64 = 0;
    let mut ud: u64 = 0;
    let mut i: usize = 0;
    while i < overwrites.len()
        invariant
            i <= overwrites.len(),
            (ra, rd, ua, ud) == member_overwrite_sums(overwrites@.take(i as int), user_id, roles@),
        decreases overwrites.len() - i,
    {
        let o = overwrites[i];
        match o.kind {
            OverwriteTarget::Member(id) => {
                if id == user_id {
                    ua = ua | o.allow;
                    ud = ud | o.deny;
                }
            },
            OverwriteTarget::Role(id) => {
                if contains_id(roles, id) {
                    ra = ra | o.allow;
                    rd = rd | o.deny;
                }
            },
        }
        proof {
            assert(overwrites@.take(i + 1).drop_last() == overwrites@.take(i as int));
            assert(overwrites@.take(i + 1).last() == o);
        }
        i = i + 1;
    }
    proof {
        assert(overwrites@.take(overwrites.len() as int) == overwrites@);
    }
    (((perms & !rd) | ra) & !ud) | ua
}

/// What the roles of the list that the guild has grant together.
fn roles_permissions(roles: &Vec<u64>, guild: &CachedGuild) -> (r: u64)
    ensures
        r == roles_union(roles@, guild.roles@),
{
    let mut permissions: u64 = 0;
    let mut i: usize = 0;
    while i < roles.len()
        invariant
            i <= roles.len(),
            permissions == roles_union(roles@.take(i as int), guild.roles@),
        decreases roles.len() - i,
    {
        match guild.get_role(roles[i]) {
            Some(role) => {
                permissions = permissions | role.permissions;
            },
            None => {},
        }
        proof {
            assert(roles@.take(i + 1).drop_last() == roles@.take(i as int));
        }
        i = i + 1;
    }
    proof {
        assert(roles@.take(roles.len() as int) == roles@);
    }
    permissions
}

/// Work done for one guild, with the bot's own user id: permission questions
/// answered from the cache by roles and overwrites alone.
pub struct GuildContext {
    pub id: u64,
    pub bot_user_id: u64,
}

impl GuildContext {
    /// The cached member of this guild with this user id.
    pub open spec fn member_in(&self, cache: Cache, user_id: u64) -> Option<CachedMember> {
        if cache.guilds@.contains_key(self.id) && cache.guilds@[self.id].members@.contains_key(user_id) {
            Some(cache.guilds@[self.id].members@[user_id])
        } else {
            None
        }
    }

    /// What a user's roles in this guild grant together: nothing for a user
    /// that is not a cached member.
    pub open spec fn roles_perms(&self, cache: Cache, user_id: u64) -> u64 {
        match self.member_in(cache, user_id) {
            Some(m) => roles_union(m.roles@, cache.guilds@[self.id].roles@),
            None => 0,
        }
    }

    /// A user's permissions in a guild channel: nothing for a channel that is
    /// not cached; else the role permissions, with the channel's role and user
    /// overwrites applied when the user is a cached member.
    pub open spec fn channel_perms(&self, cache: Cache, user_id: u64, channel_id: u64) -> u64 {
        if cache.guild_channels@.contains_key(channel_id) {
            match self.member_in(cache, user_id) {
                Some(m) => member_overwritten(
                    self.roles_perms(cache, user_id),
                    cache.guild_channels@[channel_id].spec_overrides(),
                    user_id,
                    m.roles@,
                ),
                None => self.roles_perms(cache, user_id),
            }
        } else {
            0
        }
    }

    /// This guild's configuration in the store, if loaded.
    pub fn get_config<'a>(&self, store: &'a ConfigStore) -> (r: Option<&'a GuildConfig>)
        ensures
            match r {
                Some(config) => store.configs@.contains_key(self.id) && *config
                    == store.configs@[self.id],
                None => !store.configs@.contains_key(self.id),
            },
    {
        store.get_config(self.id)
    }

    /// Puts this guild's configuration in the store.
    pub fn set_config(&self, store: &mut ConfigStore, new_config: GuildConfig)
        ensures
            final(store).configs@ == old(store).configs@.insert(self.id, new_config),
    {
        store.set_config(self.id, new_config);
    }

    /// The cached member of this guild with this user id.
    pub fn get_cached_member<'a>(&self, cache: &'a Cache, user_id: u64) -> (r: Option<&'a CachedMember>)
        ensures
            match r {
                Some(m) => self.member_in(*cache, user_id) == Some(*m),
                None => self.member_in(*cache, user_id) is None,
            },
    {
        cache.get_member(self.id, user_id)
    }

    /// The cached guild channel with this id.
    pub fn get_cached_guild_channel<'a>(&self, cache: &'a Cache, channel_id: u64) -> (r: Option<
        &'a CachedChannel,
    >)
        ensures
            match r {
                Some(c) => cache.guild_channels@.contains_key(channel_id) && *c
                    == cache.guild_channels@[channel_id],
                None => !cache.guild_channels@.contains_key(channel_id),
            },
    {
        broadcast use vstd::std_specs::hash::group_hash_axioms;

        cache.guild_channels.get(&channel_id)
    }

    /// The cached role of this guild with this id.
    pub fn get_cached_role<'a>(&self, cache: &'a Cache, role_id: u64) -> (r: Option<&'a CachedRole>)
        ensures
            match r {
                Some(role) => cache.guilds@.contains_key(self.id) && cache.guilds@[self.id].roles@.contains_key(
                    role_id,
                ) && *role == cache.guilds@[self.id].roles@[role_id],
                None => !(cache.guilds@.contains_key(self.id) && cache.guilds@[self.id].roles@.contains_key(
                    role_id,
                )),
            },
    {
        match cache.get_guild(self.id) {
            Some(g) => g.get_role(role_id),
            None => None,
        }
    }

    /// What a user's roles in this guild grant together.
    pub fn get_guild_permissions_for(&self, cache: &Cache, user_id: u64) -> (r: u64)
        ensures
            r == self.roles_perms(*cache, user_id),
    {
        match cache.get_guild(self.id) {
            Some(g) => match g.members.get(&user_id) {
                Some(m) => roles_permissions(&m.roles, g),
                None => 0,
            },
            None => 0,
        }
    }

    /// What the bot's roles in this guild grant together.
    pub fn get_bot_guild_permissions(&self, cache: &Cache) -> (r: u64)
        ensures
            r == self.roles_perms(*cache, self.bot_user_id),
    {
        self.get_guild_permissions_for(cache, self.bot_user_id)
    }

    /// Whether the bot's roles in this guild grant all these permissions.
    pub fn bot_has_guild_permissions(&self, cache: &Cache, permissions: u64) -> (r: bool)
        ensures
            r == has_all(self.roles_perms(*cache, self.bot_user_id), permissions),
    {
        contains(self.get_bot_guild_permissions(cache), permissions)
    }

    /// A user's permissions in a guild channel.
    pub fn get_channel_permissions_for(&self, cache: &Cache, user_id: u64, channel_id: u64) -> (r:
        u64)
        ensures
            r == self.channel_perms(*cache, user_id, channel_id),
    {
        match self.get_cached_guild_channel(cache, channel_id) {
            Some(channel) => {
                let perms = self.get_guild_permissions_for(cache, user_id);
                match self.get_cached_member(cache, user_id) {
                    Some(member) => apply_member_overwrites(
                        perms,
                        &channel.get_permission_overrides(),
                        user_id,
                        &member.roles,
                    ),
                    None => perms,
                }
            },
            None => 0,
        }
    }

    /// The bot's permissions in a guild channel.
    pub fn get_bot_channel_permissions(&self, cache: &Cache, channel_id: u64) -> (r: u64)
        ensures
            r == self.channel_perms(*cache, self.bot_user_id, channel_id),
    {
        self.get_channel_permissions_for(cache, self.bot_user_id, channel_id)
    }

    /// Whether a user has all these permissions in a guild channel.
    pub fn has_channel_permissions(
        &self,
        cache: &Cache,
        user_id: u64,
        channel_id: u64,
        permissions: u64,
    ) -> (r: bool)
        ensures
            r == has_all(self.channel_perms(*cache, user_id, channel_id), permissions),
    {
        contains(self.get_channel_permissions_for(cache, user_id, channel_id), permissions)
    }

    /// Whether the bot has all these permissions in a guild channel.
    pub fn bot_has_channel_permissions(&self, cache: &Cache, channel_id: u64, permissions: u64) -> (r:
        bool)
        ensures
            r == has_all(self.channel_perms(*cache, self.bot_user_id, channel_id), permissions),
    {
        contains(self.get_bot_channel_permissions(cache, channel_id), permissions)
    }
}

} // verus!
