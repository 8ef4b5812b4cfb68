//! The cached forms of users, members, roles, emoji and channels.
use vstd::prelude::*;
use vstd::std_specs::cmp::PartialEqSpec;
use vstd::string::{StrSliceExecFns, StringExecFns};

use crate::text::{decimal, parse_u16, parse_u16_spec, u64_to_string};
use crate::model::{
    copy_ids, copy_opt_string, opt_string_eq, opt_string_view, EmojiData, MemberData, MemberUpdateData,
    RoleData, UserData,
};

verus! {

// ---------------------------------------------------------------------------
// Users.
// ---------------------------------------------------------------------------
/// A user as the cache keeps it. `mutual_servers` counts the cached guilds
/// that have this user as a member.
pub struct CachedUser {
    pub id: u64,
    pub username: String,
    pub discriminator: String,
    pub avatar: Option<String>,
    pub bot_user: bool,
    pub system_user: bool,
    pub public_flags: Option<u64>,
    pub mutual_servers: u64,
}

/// The cached form of a gateway user, in no mutual server yet.
pub open spec fn spec_user_from(user: UserData) -> CachedUser {
    CachedUser {
        id: user.id,
        username: user.name,
        discriminator: user.discriminator,
        avatar: user.avatar,
        bot_user: user.bot,
        system_user: match user.system {
            Some(b) => b,
            None => false,
        },
        public_flags: user.public_flags,
        mutual_servers: 0,
    }
}

impl CachedUser {
    /// The cached form of a gateway user, in no mutual server yet.
    pub fn from_user(user: &UserData) -> (r: CachedUser)
        ensures
            r == spec_user_from(*user),
    {
        CachedUser {
            id: user.id,
            username: user.name.clone(),
            discriminator: user.discriminator.clone(),
            avatar: copy_opt_string(&user.avatar),
            bot_user: user.bot,
            system_user: match user.system {
                Some(b) => b,
                None => false,
            },
            public_flags: user.public_flags,
            mutual_servers: 0,
        }
    }

    /// An exact copy, mutual server count included.
    pub fn duplicate(&self) -> (r: CachedUser)
        ensures
            r == *self,
    {
        CachedUser {
            id: self.id,
            username: self.username.clone(),
            discriminator: self.discriminator.clone(),
            avatar: copy_opt_string(&self.avatar),
            bot_user: self.bot_user,
            system_user: self.system_user,
            public_flags: self.public_flags,
            mutual_servers: self.mutual_servers,
        }
    }

    /// A copy with the mutual server count reset to zero, as a fresh value
    /// that no guild counts yet.
    pub fn fresh_copy(&self) -> (r: CachedUser)
        ensures
            r == (CachedUser { mutual_servers: 0, ..*self }),
    {
        let mut c = self.duplicate();
        c.mutual_servers = 0;
        c
    }

    pub open spec fn spec_is_same_as(&self, user: UserData) -> bool {
        let other = spec_user_from(user);
        &&& self.id == other.id
        &&& self.username@ == other.username@
        &&& self.discriminator@ == other.discriminator@
        &&& opt_string_view(self.avatar) == opt_string_view(other.avatar)
        &&& self.bot_user == other.bot_user
        &&& self.system_user == other.system_user
        &&& self.public_flags == other.public_flags
    }

    /// Whether the cached user holds exactly what the gateway user says.
    pub fn is_same_as(&self, user: &UserData) -> (r: bool)
        ensures
            r == self.spec_is_same_as(*user),
    {
        let system = match user.system {
            Some(b) => b,
            None => false,
        };
        self.id == user.id && self.username == user.name && self.discriminator
            == user.discriminator && opt_string_eq(&self.avatar, &user.avatar) && self.bot_user
            == user.bot && self.system_user == system && self.public_flags == user.public_flags
    }
}

/// The avatar hash names an animated avatar.
pub open spec fn is_animated_hash(hash: Seq<char>) -> bool {
    hash.len() >= 2 && hash[0] == 'a' && hash[1] == '_'
}

/// Whether the avatar hash names an animated avatar (it starts with `a_`).
pub fn animated_hash(hash: &str) -> (r: bool)
    ensures
        r == is_animated_hash(hash@),
{
    let len = hash.unicode_len();
    len >= 2 && hash.get_char(0) == 'a' && hash.get_char(1) == '_'
}

impl CachedUser {
    /// `name#discriminator`.
    pub fn full_name(&self) -> (r: String)
        ensures
            r@ == self.username@ + "#"@ + self.discriminator@,
    {
        let s = self.username.clone();
        let s = s.concat("#");
        s.concat(self.discriminator.as_str())
    }

    /// `name#discriminator (id)`.
    pub fn full_name_with_id(&self) -> (r: String)
        ensures
            r@ == self.username@ + "#"@ + self.discriminator@ + " ("@ + decimal(self.id as nat)
                + ")"@,
    {
        let s = self.full_name();
        let s = s.concat(" (");
        let id = u64_to_string(self.id);
        let s = s.concat(id.as_str());
        s.concat(")")
    }

    /// The link to the user's profile.
    pub fn profile_link(&self) -> (r: String)
        ensures
            r@ == "https://discord.com/users/"@ + decimal(self.id as nat),
    {
        let id = u64_to_string(self.id);
        String::from_str("https://discord.com/users/").concat(id.as_str())
    }

    /// The link to the user's avatar: the uploaded one (a gif when animated,
    /// a png otherwise), or else the default avatar that the discriminator
    /// picks.
    pub fn avatar_url(&self) -> (r: String)
        requires
            self.avatar is None ==> parse_u16_spec(self.discriminator@) is Some,
        ensures
            r@ == match self.avatar {
                Some(hash) => "https://cdn.discordapp.com/avatars/"@ + decimal(self.id as nat) + "/"@
                    + hash@ + "."@ + (if is_animated_hash(hash@) {
                    "gif"@
                } else {
                    "png"@
                }),
                None => "https://cdn.discordapp.com/embed/avatar/"@ + decimal(
                    (parse_u16_spec(self.discriminator@)->0 % 5) as nat,
                ) + ".png"@,
            },
    {
        match &self.avatar {
            Some(hash) => {
                let id = u64_to_string(self.id);
                let ext = if animated_hash(hash.as_str()) {
                    "gif"
                } else {
                    "png"
                };
                let s = String::from_str("https://cdn.discordapp.com/avatars/").concat(id.as_str());
                let s = s.concat("/");
                let s = s.concat(hash.as_str());
                let s = s.concat(".");
                s.concat(ext)
            },
            None => {
                let number = match parse_u16(self.discriminator.as_str()) {
                    Some(n) => n,
                    None => 0,
                };
                let index = u64_to_string((number % 5) as u64);
                let s = String::from_str("https://cdn.discordapp.com/embed/avatar/").concat(
                    index.as_str(),
                );
                s.concat(".png")
            },
        }
    }
}

/// The user `old` with the data of `new`; public flags that `new` does not
/// carry are kept from `old`, and so is the mutual server count.
pub open spec fn spec_update_user_with_user(old: CachedUser, new: CachedUser) -> CachedUser {
    CachedUser {
        id: old.id,
        username: new.username,
        discriminator: new.discriminator,
        avatar: new.avatar,
        bot_user: new.bot_user,
        system_user: new.system_user,
        public_flags: match new.public_flags {
            Some(f) => Some(f),
            None => old.public_flags,
        },
        mutual_servers: old.mutual_servers,
    }
}

/// Merging fresh data into a cached user takes the fresh profile (name,
/// discriminator, avatar, bot and system flags) and the fresh public flags
/// when there are any; the cached id, mutual server count and, when the
/// fresh data has none, public flags stay. Merging the same data again
/// changes nothing more.
pub proof fn lemma_update_user_takes_fresh_profile(old: CachedUser, new: CachedUser)
    ensures
        ({
            let r = spec_update_user_with_user(old, new);
            &&& r.username == new.username
            &&& r.discriminator == new.discriminator
            &&& r.avatar == new.avatar
            &&& r.bot_user == new.bot_user
            &&& r.system_user == new.system_user
            &&& r.id == old.id
            &&& r.mutual_servers == old.mutual_servers
            &&& (new.public_flags is Some ==> r.public_flags == new.public_flags)
            &&& (new.public_flags is None ==> r.public_flags == old.public_flags)
            &&& spec_update_user_with_user(r, new) == r
        }),
{
}

/// Merges a freshly fetched user into the cached one.
pub fn update_user_with_user(old: &CachedUser, new: &CachedUser) -> (r: CachedUser)
    ensures
        r == spec_update_user_with_user(*old, *new),
{
    let public_flags = match new.public_flags {
        Some(flags) => Some(flags),
        None => old.public_flags,
    };
    CachedUser {
        id: old.id,
        username: new.username.clone(),
        discriminator: new.discriminator.clone(),
        avatar: copy_opt_string(&new.avatar),
        bot_user: new.bot_user,
        system_user: new.system_user,
        public_flags,
        mutual_servers: old.mutual_servers,
    }
}

// ---------------------------------------------------------------------------
// Members.
// ---------------------------------------------------------------------------
/// A guild member as the cache keeps it.
pub struct CachedMember {
    pub user_id: u64,
    pub nickname: Option<String>,
    pub roles: Vec<u64>,
    pub joined_at: Option<String>,
    pub boosting_since: Option<String>,
    pub server_deafened: bool,
    pub server_muted: bool,
}

/// A member as cold storage keeps it: the cached form already refers to its
/// user by id.
pub type ColdStorageMember = CachedMember;

/// The cached form of a member the gateway sent.
pub open spec fn spec_member_from(member: MemberData) -> CachedMember {
    CachedMember {
        user_id: member.user.id,
        nickname: member.nick,
        roles: member.roles,
        joined_at: member.joined_at,
        boosting_since: member.premium_since,
        server_deafened: member.deaf,
        server_muted: member.mute,
    }
}

/// The member `m` is member `old` after the update `u`: nickname, roles and
/// boost date come from the update, the rest stays.
pub open spec fn member_updated(m: CachedMember, old: CachedMember, u: MemberUpdateData) -> bool {
    &&& m.user_id == u.user.id
    &&& m.nickname == u.nick
    &&& m.roles@ == u.roles@
    &&& m.joined_at == old.joined_at
    &&& m.boosting_since == u.premium_since
    &&& m.server_deafened == old.server_deafened
    &&& m.server_muted == old.server_muted
}

/// Two cached members hold the same data.
pub open spec fn same_member(a: CachedMember, b: CachedMember) -> bool {
    &&& a.user_id == b.user_id
    &&& a.nickname == b.nickname
    &&& a.roles@ == b.roles@
    &&& a.joined_at == b.joined_at
    &&& a.boosting_since == b.boosting_since
    &&& a.server_deafened == b.server_deafened
    &&& a.server_muted == b.server_muted
}

impl CachedMember {
    /// The cached form of a gateway member.
    pub fn from_member(member: &MemberData) -> (r: CachedMember)
        ensures
            same_member(r, spec_member_from(*member)),
    {
        CachedMember {
            user_id: member.user.id,
            nickname: copy_opt_string(&member.nick),
            roles: copy_ids(&member.roles),
            joined_at: copy_opt_string(&member.joined_at),
            boosting_since: copy_opt_string(&member.premium_since),
            server_deafened: member.deaf,
            server_muted: member.mute,
        }
    }

    /// The member after a member update: nickname, roles and boost date come
    /// from the update, the rest stays.
    pub fn update(&self, member: &MemberUpdateData) -> (r: CachedMember)
        ensures
            member_updated(r, *self, *member),
    {
        CachedMember {
            user_id: member.user.id,
            nickname: copy_opt_string(&member.nick),
            roles: copy_ids(&member.roles),
            joined_at: copy_opt_string(&self.joined_at),
            boosting_since: copy_opt_string(&member.premium_since),
            server_deafened: self.server_deafened,
            server_muted: self.server_muted,
        }
    }

    /// An exact copy.
    pub fn duplicate(&self) -> (r: CachedMember)
        ensures
            same_member(r, *self),
    {
        CachedMember {
            user_id: self.user_id,
            nickname: copy_opt_string(&self.nickname),
            roles: copy_ids(&self.roles),
            joined_at: copy_opt_string(&self.joined_at),
            boosting_since: copy_opt_string(&self.boosting_since),
            server_deafened: self.server_deafened,
            server_muted: self.server_muted,
        }
    }
}

// ---------------------------------------------------------------------------
// Roles.
// ---------------------------------------------------------------------------
/// A role as the cache keeps it.
pub struct CachedRole {
    pub id: u64,
    pub name: String,
    pub color: u32,
    pub hoisted: bool,
    pub position: i64,
    pub permissions: u64,
    pub managed: bool,
    pub mentionable: bool,
}

pub open spec fn spec_role_from(role: RoleData) -> CachedRole {
    CachedRole {
        id: role.id,
        name: role.name,
        color: role.color,
        hoisted: role.hoist,
        position: role.position,
        permissions: role.permissions,
        managed: role.managed,
        mentionable: role.mentionable,
    }
}

impl CachedRole {
    /// The cached form of a gateway role.
    pub fn from_role(role: &RoleData) -> (r: CachedRole)
        ensures
            r == spec_role_from(*role),
    {
        CachedRole {
            id: role.id,
            name: role.name.clone(),
            color: role.color,
            hoisted: role.hoist,
            position: role.position,
            permissions: role.permissions,
            managed: role.managed,
            mentionable: role.mentionable,
        }
    }

    /// An exact copy.
    pub fn duplicate(&self) -> (r: CachedRole)
        ensures
            r == *self,
    {
        CachedRole {
            id: self.id,
            name: self.name.clone(),
            color: self.color,
            hoisted: self.hoisted,
            position: self.position,
            permissions: self.permissions,
            managed: self.managed,
            mentionable: self.mentionable,
        }
    }
}

// ---------------------------------------------------------------------------
// Emoji.
// ---------------------------------------------------------------------------
/// A custom emoji as the cache keeps it.
pub struct CachedEmoji {
    pub id: u64,
    pub name: String,
    pub roles: Vec<u64>,
    pub created_by: Option<u64>,
    pub requires_colons: bool,
    pub managed: bool,
    pub animated: bool,
    pub available: bool,
}

/// The cached emoji holds what the gateway emoji says.
pub open spec fn emoji_matches(c: CachedEmoji, e: EmojiData) -> bool {
    &&& c.id == e.id
    &&& c.name == e.name
    &&& c.roles@ == e.roles@
    &&& c.created_by == e.user
    &&& c.requires_colons == e.require_colons
    &&& c.managed == e.managed
    &&& c.animated == e.animated
    &&& c.available == e.available
}

/// Two cached emoji hold the same data.
pub open spec fn same_emoji(a: CachedEmoji, b: CachedEmoji) -> bool {
    &&& a.id == b.id
    &&& a.name == b.name
    &&& a.roles@ == b.roles@
    &&& a.created_by == b.created_by
    &&& a.requires_colons == b.requires_colons
    &&& a.managed == b.managed
    &&& a.animated == b.animated
    &&& a.available == b.available
}

impl CachedEmoji {
    /// The cached form of a gateway emoji.
    pub fn from_emoji(emoji: &EmojiData) -> (r: CachedEmoji)
        ensures
            emoji_matches(r, *emoji),
    {
        CachedEmoji {
            id: emoji.id,
            name: emoji.name.clone(),
            roles: copy_ids(&emoji.roles),
            created_by: emoji.user,
            requires_colons: emoji.require_colons,
            managed: emoji.managed,
            animated: emoji.animated,
            available: emoji.available,
        }
    }

    /// The link to the emoji's image: a gif when animated, a png otherwise.
    pub fn get_url(&self) -> (r: String)
        ensures
            r@ == "https://cdn.discordapp.com/emojis/"@ + decimal(self.id as nat) + "."@ + (if self.animated {
                "gif"@
            } else {
                "png"@
            }),
    {
        let id = u64_to_string(self.id);
        let s = String::from_str("https://cdn.discordapp.com/emojis/").concat(id.as_str());
        let s = s.concat(".");
        s.concat(if self.animated {
            "gif"
        } else {
            "png"
        })
    }

    /// An exact copy.
    pub fn duplicate(&self) -> (r: CachedEmoji)
        ensures
            same_emoji(r, *self),
    {
        CachedEmoji {
            id: self.id,
            name: self.name.clone(),
            roles: copy_ids(&self.roles),
            created_by: self.created_by,
            requires_colons: self.requires_colons,
            managed: self.managed,
            animated: self.animated,
            available: self.available,
        }
    }
}

/// Whether the value is its type's default value (fields holding it are left
/// out when the cache is frozen).
pub fn is_default<T: Default + PartialEq>(t: &T) -> (r: bool)
    ensures
        T::obeys_eq_spec() ==> exists|d: T| call_ensures(T::default, (), d) && r == t.eq_spec(&d),
{
    let d = T::default();
    *t == d
}

/// The test that decides whether a flag that defaults to true is left out
/// when frozen: it answers the flag negated, so an unset flag is left out
/// (and comes back set when thawed).
pub fn is_true(t: &bool) -> (r: bool)
    ensures
        r == !*t,
{
    !*t
}

/// The value a flag left out of a frozen record gets back: true.
pub fn get_true() -> (r: bool)
    ensures
        r,
{
    true
}

} // verus!
