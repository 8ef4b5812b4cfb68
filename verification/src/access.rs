//! Who may do what: Discord permissions in a guild and in a channel, and the
//! bot's own command permissions that a guild's permission groups grant.
use vstd::prelude::*;

use crate::cached::CachedMember;
use crate::channel::CachedChannel;
use crate::config::{contains_id, GuildConfig, PermissionGroup};
use crate::guild::CachedGuild;
use crate::model::{OverwriteTarget, PermissionOverwrite};
use crate::nodes::{cascade_groups, cascade_groups_result, RootNode};
use crate::perms::{
    all_discord_permissions, has_all, ADD_REACTIONS, ADMINISTRATOR, ALL_DISCORD_PERMISSIONS,
    ATTACH_FILES, BOT_ADMIN, EMBED_LINKS, READ_MESSAGE_HISTORY, SEND_MESSAGES, USE_EXTERNAL_EMOJIS,
};

verus! {

broadcast use vstd::std_specs::hash::group_hash_axioms;

/// The permissions of the listed roles that the guild has, together.
pub open spec fn roles_union(roles: Seq<u64>, guild_roles: Map<u64, crate::cached::CachedRole>) -> u64
    decreases roles.len(),
{
    if roles.len() == 0 {
        0
    } else {
        let rest = roles_union(roles.drop_last(), guild_roles);
        if guild_roles.contains_key(roles.last()) {
            rest | guild_roles[roles.last()].permissions
        } else {
            rest
        }
    }
}

/// A member's Discord permissions in a guild: everything for the owner and
/// for administrators, else what the member's roles grant together.
pub open spec fn guild_permissions(member: CachedMember, guild: CachedGuild) -> u64 {
    if guild.owner_id == member.user_id {
        ALL_DISCORD_PERMISSIONS
    } else if has_all(roles_union(member.roles@, guild.roles@), ADMINISTRATOR) {
        ALL_DISCORD_PERMISSIONS
    } else {
        roles_union(member.roles@, guild.roles@)
    }
}

/// A member's Discord permissions in a guild.
pub fn get_guild_permissions_for(member: &CachedMember, guild: &CachedGuild) -> (r: u64)
    ensures
        r == guild_permissions(*member, *guild),
{
    if guild.owner_id == member.user_id {
        return all_discord_permissions();
    }
    let mut permissions: u64 = 0;
    let mut i: usize = 0;
    while i < member.roles.len()
        invariant
            i <= member.roles.len(),
            permissions == roles_union(member.roles@.take(i as int), guild.roles@),
        decreases member.roles.len() - i,
    {
        match guild.get_role(member.roles[i]) {
            Some(role) => {
                permissions = permissions | role.permissions;
            },
            None => {},
        }
        proof {
            assert(member.roles@.take(i + 1).drop_last() == member.roles@.take(i as int));
        }
        i = i + 1;
    }
    proof {
        assert(member.roles@.take(member.roles.len() as int) == member.roles@);
    }
    if permissions & ADMINISTRATOR == ADMINISTRATOR {
        all_discord_permissions()
    } else {
        permissions
    }
}

/// What a user may do in a direct message channel.
pub open spec fn dm_permissions() -> u64 {
    SEND_MESSAGES | EMBED_LINKS | ATTACH_FILES | USE_EXTERNAL_EMOJIS | ADD_REACTIONS
        | READ_MESSAGE_HISTORY
}

/// The allows and denies of a channel's overwrites that apply: those for the
/// everyone role (whose id is the guild's), those for roles the member has,
/// and those for the user.
pub open spec fn overwrite_sums(
    overwrites: Seq<PermissionOverwrite>,
    guild_id: u64,
    user_id: u64,
    roles: Seq<u64>,
) -> (u64, u64, u64, u64, u64, u64)
    decreases overwrites.len(),
{
    if overwrites.len() == 0 {
        (0, 0, 0, 0, 0, 0)
    } else {
        let (ea, ed, ra, rd, ua, ud) = overwrite_sums(
            overwrites.drop_last(),
            guild_id,
            user_id,
            roles,
        );
        let o = overwrites.last();
        match o.kind {
            OverwriteTarget::Member(id) => if id == user_id {
                (ea, ed, ra, rd, ua | o.allow, ud | o.deny)
            } else {
                (ea, ed, ra, rd, ua, ud)
            },
            OverwriteTarget::Role(id) => if id == guild_id {
                (ea | o.allow, ed | o.deny, ra, rd, ua, ud)
            } else if roles.contains(id) {
                (ea, ed, ra | o.allow, rd | o.deny, ua, ud)
            } else {
                (ea, ed, ra, rd, ua, ud)
            },
        }
    }
}

/// A user's Discord permissions in a channel: fixed ones in a direct message;
/// everything for administrators; else the guild permissions with the
/// channel's overwrites applied (everyone's, then the member's roles', then
/// the user's own), when the member is known.
pub open spec fn channel_permissions(
    channel: CachedChannel,
    guild_perms: u64,
    user_id: u64,
    member_roles: Option<Seq<u64>>,
) -> u64 {
    if channel.spec_is_dm() {
        dm_permissions()
    } else if has_all(guild_perms, ADMINISTRATOR) {
        ALL_DISCORD_PERMISSIONS
    } else {
        match member_roles {
            None => guild_perms,
            Some(roles) => {
                let gid = match channel.spec_guild_id() {
                    Some(g) => g,
                    None => 0,
                };
                let (ea, ed, ra, rd, ua, ud) = overwrite_sums(
                    channel.spec_overrides(),
                    gid,
                    user_id,
                    roles,
                );
                ((((((guild_perms & !ed) | ea) & !rd) | ra) & !ud) | ua)
            },
        }
    }
}

/// A user's Discord permissions in a channel, given the user's guild
/// permissions and, when the user is a known member, the member's roles.
pub fn get_channel_permissions_for(
    channel: &CachedChannel,
    guild_perms: u64,
    user_id: u64,
    member_roles: Option<&Vec<u64>>,
) -> (r: u64)
    ensures
        r == channel_permissions(
            *channel,
            guild_perms,
            user_id,
            match member_roles {
                Some(v) => Some(v@),
                None => None,
            },
        ),
{
    if channel.is_dm() {
        return SEND_MESSAGES | EMBED_LINKS | ATTACH_FILES | USE_EXTERNAL_EMOJIS | ADD_REACTIONS
            | READ_MESSAGE_HISTORY;
    }
    if guild_perms & ADMINISTRATOR == ADMINISTRATOR {
        return all_discord_permissions();
    }
    let roles = match member_roles {
        Some(roles) => roles,
        None => {
            return guild_perms;
        },
    };
    let gid = match channel.get_guild_id() {
        Some(g) => g,
        None => 0,
    };
    let overrides = channel.get_permission_overrides();
    let mut ea: u64 = 0;
    let mut ed: u64 = 0;
    let mut ra: u64 = 0;
    let mut rd: u64 = 0;
    let mut ua: u64 = 0;
    let mut ud: u64 = 0;
    let mut i: usize = 0;
    while i < overrides.len()
        invariant
            i <= overrides.len(),
            (ea, ed, ra, rd, ua, ud) == overwrite_sums(overrides@.take(i as int), gid, user_id, roles@),
        decreases overrides.len() - i,
    {
        let o = overrides[i];
        match o.kind {
            OverwriteTarget::Member(id) => {
                if id == user_id {
                    ua = ua | o.allow;
                    ud = ud | o.deny;
                }
            },
            OverwriteTarget::Role(id) => {
                if id == gid {
                    ea = ea | o.allow;
                    ed = ed | o.deny;
                } else if contains_id(roles, id) {
                    ra = ra | o.allow;
                    rd = rd | o.deny;
                }
            },
        }
        proof {
            assert(overrides@.take(i + 1).drop_last() == overrides@.take(i as int));
            assert(overrides@.take(i + 1).last() == o);
        }
        i = i + 1;
    }
    proof {
        assert(overrides@.take(overrides.len() as int) == overrides@);
    }
    let mut permissions = guild_perms;
    permissions = permissions & !ed;
    permissions = permissions | ea;
    permissions = permissions & !rd;
    permissions = permissions | ra;
    permissions = permissions & !ud;
    permissions = permissions | ua;
    permissions
}

/// A user's Discord permissions in a channel that may not be cached: none
/// when it is not.
pub fn get_channel_permissions_in(
    channel: Option<&CachedChannel>,
    guild_perms: u64,
    user_id: u64,
    member_roles: Option<&Vec<u64>>,
) -> (r: u64)
    ensures
        r == match channel {
            Some(c) => channel_permissions(
                *c,
                guild_perms,
                user_id,
                match member_roles {
                    Some(v) => Some(v@),
                    None => None,
                },
            ),
            None => 0,
        },
{
    match channel {
        Some(c) => get_channel_permissions_for(c, guild_perms, user_id, member_roles),
        None => 0,
    }
}

/// Applying a permission group: its denies leave the permissions and its
/// grants join them; its grants negate earlier denies and its denies join
/// the denies.
pub open spec fn apply_group(state: (u64, u64), group: PermissionGroup) -> (u64, u64) {
    (
        (state.0 & !group.denied_perms) | group.granted_perms,
        (state.1 & !group.granted_perms) | group.denied_perms,
    )
}

/// Every role of the list is among the member's roles.
pub open spec fn all_roles_in(roles: Seq<u64>, member_roles: Seq<u64>) -> bool {
    forall|i: int| 0 <= i < roles.len() ==> member_roles.contains(#[trigger] roles[i])
}

/// Some role of the list is among the member's roles.
pub open spec fn any_role_in(roles: Seq<u64>, member_roles: Seq<u64>) -> bool {
    exists|i: int| 0 <= i < roles.len() && member_roles.contains(#[trigger] roles[i])
}

/// The group applies to the member: by the member's Discord permissions, by
/// the member's roles (all of them or any, after `needs_all`), or by user id.
pub open spec fn group_applies(
    group: PermissionGroup,
    discord: u64,
    user_id: u64,
    member_roles: Seq<u64>,
) -> bool {
    ||| (match group.discord_perms {
        Some(p) => has_all(discord, p),
        None => false,
    })
    ||| (group.needs_all && all_roles_in(group.roles@, member_roles))
    ||| (!group.needs_all && any_role_in(group.roles@, member_roles))
    ||| group.users@.contains(user_id)
}

/// The permissions and the denies no grant negated, after the groups that
/// apply, in order.
pub open spec fn groups_state(
    groups: Seq<PermissionGroup>,
    discord: u64,
    user_id: u64,
    member_roles: Seq<u64>,
) -> (u64, u64)
    decreases groups.len(),
{
    if groups.len() == 0 {
        (0, 0)
    } else {
        let s = groups_state(groups.drop_last(), discord, user_id, member_roles);
        if group_applies(groups.last(), discord, user_id, member_roles) {
            apply_group(s, groups.last())
        } else {
            s
        }
    }
}

proof fn lemma_apply_idempotent(state: (u64, u64), group: PermissionGroup)
    ensures
        apply_group(apply_group(state, group), group) == apply_group(state, group),
{
    let p = state.0;
    let d = state.1;
    let g = group.granted_perms;
    let n = group.denied_perms;
    assert((((p & !n) | g) & !n) | g == (p & !n) | g) by (bit_vector);
    assert((((d & !g) | n) & !g) | n == (d & !g) | n) by (bit_vector);
}

/// Applies a permission group.
fn apply(permissions: &mut u64, not_negated_denies: &mut u64, group: &PermissionGroup)
    ensures
        (*final(permissions), *final(not_negated_denies)) == apply_group(
            (*old(permissions), *old(not_negated_denies)),
            *group,
        ),
{
    *permissions = *permissions & !group.denied_perms;
    *permissions = *permissions | group.granted_perms;
    *not_negated_denies = *not_negated_denies & !group.granted_perms;
    *not_negated_denies = *not_negated_denies | group.denied_perms;
}

/// Whether every listed role is among the member's roles.
fn all_roles(roles: &Vec<u64>, member_roles: &Vec<u64>) -> (r: bool)
    ensures
        r == all_roles_in(roles@, member_roles@),
{
    let mut i: usize = 0;
    while i < roles.len()
        invariant
            i <= roles.len(),
            forall|j: int| 0 <= j < i ==> member_roles@.contains(#[trigger] roles@[j]),
        decreases roles.len() - i,
    {
        if !contains_id(member_roles, roles[i]) {
            return false;
        }
        i = i + 1;
    }
    true
}

/// Whether some listed role is among the member's roles.
fn any_role(roles: &Vec<u64>, member_roles: &Vec<u64>) -> (r: bool)
    ensures
        r == any_role_in(roles@, member_roles@),
{
    let mut i: usize = 0;
    while i < roles.len()
        invariant
            i <= roles.len(),
            forall|j: int| 0 <= j < i ==> !member_roles@.contains(#[trigger] roles@[j]),
        decreases roles.len() - i,
    {
        if contains_id(member_roles, roles[i]) {
            return true;
        }
        i = i + 1;
    }
    false
}

/// The bot's own administrators hold the bot admin permission; nobody else
/// does, whatever a guild granted.
pub open spec fn admin_applied(perms: u64, user_id: u64, global_admins: Seq<u64>) -> u64 {
    if global_admins.contains(user_id) {
        perms | BOT_ADMIN
    } else {
        perms & !BOT_ADMIN
    }
}

/// Gives the bot admin permission to the bot's administrators and takes it
/// from everyone else.
pub fn apply_admin_perms(user_id: u64, global_admins: &Vec<u64>, permissions: &mut u64)
    ensures
        *final(permissions) == admin_applied(*old(permissions), user_id, global_admins@),
        has_all(*final(permissions), BOT_ADMIN) == global_admins@.contains(user_id),
{
    let before = *permissions;
    if contains_id(global_admins, user_id) {
        *permissions = before | BOT_ADMIN;
        assert((before | 1u64) & 1u64 == 1u64) by (bit_vector);
    } else {
        *permissions = before & !BOT_ADMIN;
        assert((before & !1u64) & 1u64 != 1u64) by (bit_vector);
    }
}

/// A member's command permissions in a guild: the permission groups of the
/// guild's configuration that apply, in order; then the grants cascade down
/// the command tree; then the bot admin permission follows the bot's
/// administrators.
pub open spec fn member_permissions(
    guild: CachedGuild,
    member: CachedMember,
    config: GuildConfig,
    root: RootNode,
    global_admins: Seq<u64>,
) -> u64 {
    let state = groups_state(
        config.permission_groups@,
        guild_permissions(member, guild),
        member.user_id,
        member.roles@,
    );
    admin_applied(
        cascade_groups_result(state.0, state.1, root.command_list@, root.by_group@),
        member.user_id,
        global_admins,
    )
}

/// A member's command permissions in a guild.
pub fn get_permissions_for(
    guild: &CachedGuild,
    member: &CachedMember,
    config: &GuildConfig,
    root: &RootNode,
    global_admins: &Vec<u64>,
) -> (r: u64)
    requires
        forall|k: int, j: int|
            0 <= k < root.by_group@.len() && 0 <= j < root.by_group@[k].indices@.len()
                ==> #[trigger] root.by_group@[k].indices@[j] < root.command_list@.len(),
    ensures
        r == member_permissions(*guild, *member, *config, *root, global_admins@),
        has_all(r, BOT_ADMIN) == global_admins@.contains(member.user_id),
{
    let mut permissions: u64 = 0;
    let mut not_negated_denies: u64 = 0;
    let discord = get_guild_permissions_for(member, guild);
    let groups = &config.permission_groups;
    let mut i: usize = 0;
    while i < groups.len()
        invariant
            i <= groups.len(),
            discord == guild_permissions(*member, *guild),
            (permissions, not_negated_denies) == groups_state(
                groups@.take(i as int),
                discord,
                member.user_id,
                member.roles@,
            ),
        decreases groups.len() - i,
    {
        let group = &groups[i];
        let ghost before = (permissions, not_negated_denies);
        let mut applied = false;
        match group.discord_perms {
            Some(p) => {
                if discord & p == p {
                    apply(&mut permissions, &mut not_negated_denies, group);
                    applied = true;
                }
            },
            None => {},
        }
        if group.needs_all {
            if all_roles(&group.roles, &member.roles) {
                proof {
                    if applied {
                        lemma_apply_idempotent(before, *group);
                    }
                }
                apply(&mut permissions, &mut not_negated_denies, group);
                applied = true;
            }
        } else if any_role(&group.roles, &member.roles) {
            proof {
                if applied {
                    lemma_apply_idempotent(before, *group);
                }
            }
            apply(&mut permissions, &mut not_negated_denies, group);
            applied = true;
        }
        if contains_id(&group.users, member.user_id) {
            proof {
                if applied {
                    lemma_apply_idempotent(before, *group);
                }
            }
            apply(&mut permissions, &mut not_negated_denies, group);
            applied = true;
        }
        proof {
            assert(groups@.take(i + 1).drop_last() == groups@.take(i as int));
            assert(groups@.take(i + 1).last() == *group);
            assert(applied == group_applies(*group, discord, member.user_id, member.roles@));
            if applied {
                assert((permissions, not_negated_denies) == apply_group(before, *group));
            } else {
                assert((permissions, not_negated_denies) == before);
            }
        }
        i = i + 1;
    }
    proof {
        assert(groups@.take(groups.len() as int) == groups@);
    }
    cascade_groups(&mut permissions, not_negated_denies, root);
    apply_admin_perms(member.user_id, global_admins, &mut permissions);
    permissions
}

/// The overwrite is the everyone overwrite: that of the role whose id is the
/// guild's.
pub open spec fn everyone_overwrite(o: PermissionOverwrite, guild_id: u64) -> bool {
    o.kind == OverwriteTarget::Role(guild_id)
}

/// The overwrite is that of one of the member's roles, other than everyone.
pub open spec fn member_role_overwrite(o: PermissionOverwrite, guild_id: u64, roles: Seq<u64>) -> bool {
    match o.kind {
        OverwriteTarget::Role(id) => id != guild_id && roles.contains(id),
        OverwriteTarget::Member(_) => false,
    }
}

/// The overwrite is that of the user.
pub open spec fn user_overwrite(o: PermissionOverwrite, user_id: u64) -> bool {
    o.kind == OverwriteTarget::Member(user_id)
}

/// Each sum of overwrites holds the flags of every overwrite it gathers, and
/// no flag that none of them holds.
proof fn lemma_overwrite_sums_bounds(
    ov: Seq<PermissionOverwrite>,
    gid: u64,
    uid: u64,
    roles: Seq<u64>,
    f: u64,
)
    ensures
        ({
            let (ea, ed, ra, rd, ua, ud) = overwrite_sums(ov, gid, uid, roles);
            &&& forall|i: int|
                0 <= i < ov.len() && everyone_overwrite(#[trigger] ov[i], gid) ==> ea & ov[i].allow
                    == ov[i].allow && ed & ov[i].deny == ov[i].deny
            &&& forall|i: int|
                0 <= i < ov.len() && member_role_overwrite(#[trigger] ov[i], gid, roles) ==> ra
                    & ov[i].allow == ov[i].allow && rd & ov[i].deny == ov[i].deny
            &&& forall|i: int|
                0 <= i < ov.len() && user_overwrite(#[trigger] ov[i], uid) ==> ua & ov[i].allow
                    == ov[i].allow && ud & ov[i].deny == ov[i].deny
            &&& (forall|i: int|
                0 <= i < ov.len() && everyone_overwrite(#[trigger] ov[i], gid) ==> ov[i].allow & f
                    == 0) ==> ea & f == 0
            &&& (forall|i: int|
                0 <= i < ov.len() && member_role_overwrite(#[trigger] ov[i], gid, roles) ==> ov[i].allow
                    & f == 0) ==> ra & f == 0
            &&& (forall|i: int|
                0 <= i < ov.len() && user_overwrite(#[trigger] ov[i], uid) ==> ov[i].allow & f == 0)
                ==> ua & f == 0
            &&& (forall|i: int|
                0 <= i < ov.len() && user_overwrite(#[trigger] ov[i], uid) ==> ov[i].deny & f == 0)
                ==> ud & f == 0
        }),
    decreases ov.len(),
{
    if ov.len() == 0 {
        assert(0u64 & f == 0) by (bit_vector);
    } else {
        let p = ov.drop_last();
        let o = ov.last();
        let n = ov.len() - 1;
        lemma_overwrite_sums_bounds(p, gid, uid, roles, f);
        let (ea, ed, ra, rd, ua, ud) = overwrite_sums(p, gid, uid, roles);
        let (ea2, ed2, ra2, rd2, ua2, ud2) = overwrite_sums(ov, gid, uid, roles);
        assert(ov[n] == o);
        assert forall|i: int| 0 <= i < n implies ov[i] == #[trigger] p[i] by {}
        // what the last overwrite adds to each sum
        let (xa, xd) = (o.allow, o.deny);
        let ev = everyone_overwrite(o, gid);
        let ro = member_role_overwrite(o, gid, roles);
        let us = user_overwrite(o, uid);
        assert(ea2 == if ev { ea | xa } else { ea });
        assert(ed2 == if ev { ed | xd } else { ed });
        assert(ra2 == if ro { ra | xa } else { ra });
        assert(rd2 == if ro { rd | xd } else { rd });
        assert(ua2 == if us { ua | xa } else { ua });
        assert(ud2 == if us { ud | xd } else { ud });
        assert forall|i: int|
            0 <= i < ov.len() && everyone_overwrite(#[trigger] ov[i], gid) implies ea2 & ov[i].allow
                == ov[i].allow && ed2 & ov[i].deny == ov[i].deny by {
            if i < n {
                assert(everyone_overwrite(p[i], gid));
                lemma_or_keeps(ea, xa, ov[i].allow);
                lemma_or_keeps(ed, xd, ov[i].deny);
            } else {
                lemma_or_has(ea, xa);
                lemma_or_has(ed, xd);
            }
        }
        assert forall|i: int|
            0 <= i < ov.len() && member_role_overwrite(#[trigger] ov[i], gid, roles) implies ra2
                & ov[i].allow == ov[i].allow && rd2 & ov[i].deny == ov[i].deny by {
            if i < n {
                assert(member_role_overwrite(p[i], gid, roles));
                lemma_or_keeps(ra, xa, ov[i].allow);
                lemma_or_keeps(rd, xd, ov[i].deny);
            } else {
                lemma_or_has(ra, xa);
                lemma_or_has(rd, xd);
            }
        }
        assert forall|i: int|
            0 <= i < ov.len() && user_overwrite(#[trigger] ov[i], uid) implies ua2 & ov[i].allow
                == ov[i].allow && ud2 & ov[i].deny == ov[i].deny by {
            if i < n {
                assert(user_overwrite(p[i], uid));
                lemma_or_keeps(ua, xa, ov[i].allow);
                lemma_or_keeps(ud, xd, ov[i].deny);
            } else {
                lemma_or_has(ua, xa);
                lemma_or_has(ud, xd);
            }
        }
        if forall|i: int| 0 <= i < ov.len() && everyone_overwrite(#[trigger] ov[i], gid) ==> ov[i].allow & f == 0 {
            assert forall|i: int| 0 <= i < p.len() && everyone_overwrite(#[trigger] p[i], gid) implies p[i].allow & f == 0 by {
                assert(everyone_overwrite(ov[i], gid));
            }
            if ev {
                assert(everyone_overwrite(ov[n], gid));
                lemma_or_clean(ea, xa, f);
            }
        }
        if forall|i: int| 0 <= i < ov.len() && member_role_overwrite(#[trigger] ov[i], gid, roles) ==> ov[i].allow & f == 0 {
            assert forall|i: int| 0 <= i < p.len() && member_role_overwrite(#[trigger] p[i], gid, roles) implies p[i].allow & f == 0 by {
                assert(member_role_overwrite(ov[i], gid, roles));
            }
            if ro {
                assert(member_role_overwrite(ov[n], gid, roles));
                lemma_or_clean(ra, xa, f);
            }
        }
        if forall|i: int| 0 <= i < ov.len() && user_overwrite(#[trigger] ov[i], uid) ==> ov[i].allow & f == 0 {
            assert forall|i: int| 0 <= i < p.len() && user_overwrite(#[trigger] p[i], uid) implies p[i].allow & f == 0 by {
                assert(user_overwrite(ov[i], uid));
            }
            if us {
                assert(user_overwrite(ov[n], uid));
                lemma_or_clean(ua, xa, f);
            }
        }
        if forall|i: int| 0 <= i < ov.len() && user_overwrite(#[trigger] ov[i], uid) ==> ov[i].deny & f == 0 {
            assert forall|i: int| 0 <= i < p.len() && user_overwrite(#[trigger] p[i], uid) implies p[i].deny & f == 0 by {
                assert(user_overwrite(ov[i], uid));
            }
            if us {
                assert(user_overwrite(ov[n], uid));
                lemma_or_clean(ud, xd, f);
            }
        }
    }
}

proof fn lemma_or_keeps(x: u64, y: u64, z: u64)
    requires
        x & z == z,
    ensures
        (x | y) & z == z,
{
    assert(x & z == z ==> (x | y) & z == z) by (bit_vector);
}

proof fn lemma_or_has(x: u64, y: u64)
    ensures
        (x | y) & y == y,
{
    assert((x | y) & y == y) by (bit_vector);
}

proof fn lemma_or_clean(x: u64, y: u64, z: u64)
    requires
        x & z == 0,
        y & z == 0,
    ensures
        (x | y) & z == 0,
{
    assert((x & z == 0 && y & z == 0) ==> (x | y) & z == 0) by (bit_vector);
}

/// A user's permissions in a guild channel, when the user is not an
/// administrator and the member's roles are known, follow the overwrites in
/// order: everyone's, then the member's roles', then the user's own.
///
/// - A flag the user's own overwrite allows is held.
/// - A flag an overwrite of one of the member's roles allows, and no
///   overwrite of the user denies, is held, whatever everyone's overwrite
///   denies.
/// - A flag an overwrite of one of the member's roles denies, and no
///   overwrite of the member's roles or of the user allows, is not held,
///   whatever everyone's overwrite allows.
/// - A flag everyone's overwrite denies, and no overwrite of everyone, the
///   member's roles or the user allows, is not held.
/// - A flag of the guild permissions that no overwrite denies is held.
pub proof fn lemma_channel_overwrite_order(
    channel: CachedChannel,
    guild_perms: u64,
    user_id: u64,
    roles: Seq<u64>,
    gid: u64,
    f: u64,
)
    requires
        !channel.spec_is_dm(),
        channel.spec_guild_id() == Some(gid),
        !has_all(guild_perms, ADMINISTRATOR),
    ensures
        ({
            let ov = channel.spec_overrides();
            let r = channel_permissions(channel, guild_perms, user_id, Some(roles));
            &&& (exists|i: int| 0 <= i < ov.len() && user_overwrite(ov[i], user_id) && has_all(#[trigger] ov[i].allow, f))
                ==> has_all(r, f)
            &&& ((exists|i: int|
                0 <= i < ov.len() && member_role_overwrite(ov[i], gid, roles) && has_all(
                    #[trigger] ov[i].allow,
                    f,
                )) && (forall|i: int|
                0 <= i < ov.len() && user_overwrite(#[trigger] ov[i], user_id) ==> ov[i].deny & f == 0))
                ==> has_all(r, f)
            &&& ((exists|i: int|
                0 <= i < ov.len() && member_role_overwrite(ov[i], gid, roles) && has_all(
                    #[trigger] ov[i].deny,
                    f,
                )) && (forall|i: int|
                0 <= i < ov.len() && (member_role_overwrite(#[trigger] ov[i], gid, roles)
                    || user_overwrite(ov[i], user_id)) ==> ov[i].allow & f == 0)) ==> r & f == 0
            &&& ((exists|i: int|
                0 <= i < ov.len() && everyone_overwrite(ov[i], gid) && has_all(#[trigger] ov[i].deny, f))
                && (forall|i: int| 0 <= i < ov.len() ==> (#[trigger] ov[i]).allow & f == 0 || !(
                everyone_overwrite(ov[i], gid) || member_role_overwrite(ov[i], gid, roles)
                    || user_overwrite(ov[i], user_id)))) ==> r & f == 0
            &&& (has_all(guild_perms, f) && forall|i: int| 0 <= i < ov.len() ==> (#[trigger] ov[i]).deny
                & f == 0) ==> has_all(r, f)
        }),
{
    let ov = channel.spec_overrides();
    lemma_overwrite_sums_bounds(ov, gid, user_id, roles, f);
    let (ea, ed, ra, rd, ua, ud) = overwrite_sums(ov, gid, user_id, roles);
    let r = channel_permissions(channel, guild_perms, user_id, Some(roles));
    assert(r == ((((((guild_perms & !ed) | ea) & !rd) | ra) & !ud) | ua));
    let g = guild_perms;
    if exists|i: int| 0 <= i < ov.len() && user_overwrite(ov[i], user_id) && has_all(#[trigger] ov[i].allow, f) {
        let i = choose|i: int| 0 <= i < ov.len() && user_overwrite(ov[i], user_id) && has_all(#[trigger] ov[i].allow, f);
        let a = ov[i].allow;
        assert(ua & a == a);
        assert((ua & a == a && a & f == f) ==> ((((((g & !ed) | ea) & !rd) | ra) & !ud) | ua) & f == f) by (bit_vector);
    }
    if (exists|i: int|
        0 <= i < ov.len() && member_role_overwrite(ov[i], gid, roles) && has_all(#[trigger] ov[i].allow, f))
        && (forall|i: int| 0 <= i < ov.len() && user_overwrite(#[trigger] ov[i], user_id) ==> ov[i].deny & f == 0) {
        let i = choose|i: int|
            0 <= i < ov.len() && member_role_overwrite(ov[i], gid, roles) && has_all(#[trigger] ov[i].allow, f);
        let a = ov[i].allow;
        assert(ra & a == a);
        assert(ud & f == 0);
        assert((ra & a == a && a & f == f && ud & f == 0) ==> ((((((g & !ed) | ea) & !rd) | ra) & !ud) | ua)
            & f == f) by (bit_vector);
    }
    if (exists|i: int|
        0 <= i < ov.len() && member_role_overwrite(ov[i], gid, roles) && has_all(#[trigger] ov[i].deny, f))
        && (forall|i: int|
        0 <= i < ov.len() && (member_role_overwrite(#[trigger] ov[i], gid, roles) || user_overwrite(
            ov[i],
            user_id,
        )) ==> ov[i].allow & f == 0) {
        let i = choose|i: int|
            0 <= i < ov.len() && member_role_overwrite(ov[i], gid, roles) && has_all(#[trigger] ov[i].deny, f);
        let d = ov[i].deny;
        assert(rd & d == d);
        assert(forall|j: int| 0 <= j < ov.len() && member_role_overwrite(#[trigger] ov[j], gid, roles) ==> ov[j].allow & f == 0);
        assert(forall|j: int| 0 <= j < ov.len() && user_overwrite(#[trigger] ov[j], user_id) ==> ov[j].allow & f == 0);
        assert(ra & f == 0);
        assert(ua & f == 0);
        assert((rd & d == d && d & f == f && ra & f == 0 && ua & f == 0) ==> ((((((g & !ed) | ea) & !rd) | ra)
            & !ud) | ua) & f == 0) by (bit_vector);
    }
    if (exists|i: int| 0 <= i < ov.len() && everyone_overwrite(ov[i], gid) && has_all(#[trigger] ov[i].deny, f))
        && (forall|i: int| 0 <= i < ov.len() ==> (#[trigger] ov[i]).allow & f == 0 || !(everyone_overwrite(
        ov[i],
        gid,
    ) || member_role_overwrite(ov[i], gid, roles) || user_overwrite(ov[i], user_id))) {
        let i = choose|i: int|
            0 <= i < ov.len() && everyone_overwrite(ov[i], gid) && has_all(#[trigger] ov[i].deny, f);
        let d = ov[i].deny;
        assert(ed & d == d);
        assert(forall|j: int| 0 <= j < ov.len() && everyone_overwrite(#[trigger] ov[j], gid) ==> ov[j].allow & f == 0);
        assert(forall|j: int| 0 <= j < ov.len() && member_role_overwrite(#[trigger] ov[j], gid, roles) ==> ov[j].allow & f == 0);
        assert(forall|j: int| 0 <= j < ov.len() && user_overwrite(#[trigger] ov[j], user_id) ==> ov[j].allow & f == 0);
        assert(ea & f == 0 && ra & f == 0 && ua & f == 0);
        assert((ed & d == d && d & f == f && ea & f == 0 && ra & f == 0 && ua & f == 0) ==> ((((((g & !ed) | ea)
            & !rd) | ra) & !ud) | ua) & f == 0) by (bit_vector);
    }
    if has_all(guild_perms, f) && forall|i: int| 0 <= i < ov.len() ==> (#[trigger] ov[i]).deny & f == 0 {
        lemma_deny_sums_clean(ov, gid, user_id, roles, f);
        assert((g & f == f && ed & f == 0 && rd & f == 0 && ud & f == 0) ==> ((((((g & !ed) | ea) & !rd) | ra)
            & !ud) | ua) & f == f) by (bit_vector);
    }
}

/// When no overwrite denies any flag of `f`, no deny sum does.
proof fn lemma_deny_sums_clean(ov: Seq<PermissionOverwrite>, gid: u64, uid: u64, roles: Seq<u64>, f: u64)
    requires
        forall|i: int| 0 <= i < ov.len() ==> (#[trigger] ov[i]).deny & f == 0,
    ensures
        ({
            let (ea, ed, ra, rd, ua, ud) = overwrite_sums(ov, gid, uid, roles);
            ed & f == 0 && rd & f == 0 && ud & f == 0
        }),
    decreases ov.len(),
{
    if ov.len() == 0 {
        assert(0u64 & f == 0) by (bit_vector);
    } else {
        let p = ov.drop_last();
        assert forall|i: int| 0 <= i < p.len() implies (#[trigger] p[i]).deny & f == 0 by {
            assert(p[i] == ov[i]);
        }
        lemma_deny_sums_clean(p, gid, uid, roles, f);
        let o = ov.last();
        assert(o.deny & f == 0);
        let (ea, ed, ra, rd, ua, ud) = overwrite_sums(p, gid, uid, roles);
        lemma_or_clean(ed, o.deny, f);
        lemma_or_clean(rd, o.deny, f);
        lemma_or_clean(ud, o.deny, f);
    }
}

/// A permission group that needs only one of its roles applies to a member
/// holding one of them: after the groups are applied in order, the
/// permissions hold every flag the group grants that no later group denies.
pub proof fn lemma_role_group_grants(
    groups: Seq<PermissionGroup>,
    discord: u64,
    user_id: u64,
    member_roles: Seq<u64>,
    i: int,
    k: int,
    f: u64,
)
    requires
        0 <= i < groups.len(),
        !groups[i].needs_all,
        0 <= k < groups[i].roles@.len(),
        member_roles.contains(groups[i].roles@[k]),
        has_all(groups[i].granted_perms, f),
        forall|j: int| i < j < groups.len() ==> (#[trigger] groups[j]).denied_perms & f == 0,
    ensures
        has_all(groups_state(groups, discord, user_id, member_roles).0, f),
    decreases groups.len(),
{
    let n = groups.len() - 1;
    let p = groups.drop_last();
    let s = groups_state(p, discord, user_id, member_roles).0;
    let g = groups[n];
    let gd = g.denied_perms;
    let gg = g.granted_perms;
    if i == n {
        assert(any_role_in(g.roles@, member_roles));
        assert(group_applies(g, discord, user_id, member_roles));
        assert(gg & f == f ==> ((s & !gd) | gg) & f == f) by (bit_vector);
    } else {
        assert forall|j: int| i < j < p.len() implies (#[trigger] p[j]).denied_perms & f == 0 by {
            assert(p[j] == groups[j]);
        }
        assert(p[i] == groups[i]);
        lemma_role_group_grants(p, discord, user_id, member_roles, i, k, f);
        assert(gd & f == 0);
        assert((s & f == f && gd & f == 0) ==> ((s & !gd) | gg) & f == f) by (bit_vector);
    }
}

/// A member holding one of the roles of a permission group that needs only
/// one of them gets the command permissions the group grants, bar those a
/// later group denies and the bot admin permission (which follows the bot's
/// administrators alone).
pub proof fn lemma_role_group_member_permissions(
    guild: CachedGuild,
    member: CachedMember,
    config: GuildConfig,
    root: RootNode,
    global_admins: Seq<u64>,
    i: int,
    k: int,
    f: u64,
)
    requires
        0 <= i < config.permission_groups@.len(),
        !config.permission_groups@[i].needs_all,
        0 <= k < config.permission_groups@[i].roles@.len(),
        member.roles@.contains(config.permission_groups@[i].roles@[k]),
        has_all(config.permission_groups@[i].granted_perms, f),
        forall|j: int|
            i < j < config.permission_groups@.len() ==> (#[trigger] config.permission_groups@[j]).denied_perms
                & f == 0,
    ensures
        has_all(member_permissions(guild, member, config, root, global_admins), f & !BOT_ADMIN),
{
    let state = groups_state(
        config.permission_groups@,
        guild_permissions(member, guild),
        member.user_id,
        member.roles@,
    );
    lemma_role_group_grants(
        config.permission_groups@,
        guild_permissions(member, guild),
        member.user_id,
        member.roles@,
        i,
        k,
        f,
    );
    crate::nodes::lemma_cascade_never_removes(state.0, state.1, root.command_list@, root.by_group@);
    let c = cascade_groups_result(state.0, state.1, root.command_list@, root.by_group@);
    let s = state.0;
    assert((s & f == f && c & s == s) ==> ((c | 1u64) & (f & !1u64) == (f & !1u64) && (c & !1u64) & (f
        & !1u64) == (f & !1u64))) by (bit_vector);
}

/// In a direct message anyone may send messages, embed links, attach files,
/// use external emoji, add reactions and read the history, and nothing else;
/// in a guild channel an administrator holds every Discord permission,
/// whatever the overwrites say.
pub proof fn lemma_dm_and_administrator(
    channel: CachedChannel,
    guild_perms: u64,
    user_id: u64,
    roles: Option<Seq<u64>>,
)
    ensures
        channel.spec_is_dm() ==> channel_permissions(channel, guild_perms, user_id, roles) == 0x800u64
            | 0x4000 | 0x8000 | 0x4_0000 | 0x40 | 0x1_0000,
        !channel.spec_is_dm() && guild_perms & 0x8 == 0x8 ==> channel_permissions(
            channel,
            guild_perms,
            user_id,
            roles,
        ) == 0x001E_7FFF_FFFF_FFFFu64,
{
}

} // verus!
