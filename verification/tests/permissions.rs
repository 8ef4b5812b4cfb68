use std::collections::HashMap;

use gearbot::access::{
    apply_admin_perms, get_channel_permissions_for, get_channel_permissions_in,
    get_guild_permissions_for, get_permissions_for,
};
use gearbot::cached::{CachedMember, CachedRole};
use gearbot::channel::CachedChannel;
use gearbot::config::{GuildConfig, PermissionGroup};
use gearbot::guild::{CachedGuild, DefaultMessageNotificationLevel, PremiumTier, VerificationLevel};
use gearbot::model::{OverwriteTarget, PermissionOverwrite};
use gearbot::nodes::{cascade_groups, cascade_node, default_commands, CommandGroup, CommandNode, RootNode};
use gearbot::perms::{
    all_discord_permissions, contains, gearbot_from_bits_truncate, insert, remove, ADMINISTRATOR,
    ALL_DISCORD_PERMISSIONS, BAN_MEMBERS, BASIC_GROUP, BOT_ADMIN, CONFIG_COMMAND, EMBED_LINKS,
    EMOJI_COMMAND, EMOJI_LIST_COMMAND, GUILD_ADMIN_GROUP, MISC_GROUP, MODERATION_GROUP,
    READ_CONFIG, SEND_MESSAGES, USERINFO_COMMAND, VIEW_CHANNEL, WRITE_CONFIG,
};

fn cached_role(id: u64, permissions: u64) -> CachedRole {
    CachedRole {
        id,
        name: format!("r{}", id),
        color: 0,
        hoisted: false,
        position: 0,
        permissions,
        managed: false,
        mentionable: false,
    }
}

fn test_guild(owner: u64, roles: Vec<CachedRole>) -> CachedGuild {
    let mut map = HashMap::new();
    for r in roles {
        map.insert(r.id, r);
    }
    CachedGuild {
        id: 50,
        name: "g".to_string(),
        icon: None,
        splash: None,
        discovery_splash: None,
        owner_id: owner,
        region: String::new(),
        afk_channel_id: None,
        afk_timeout: 0,
        verification_level: VerificationLevel::NoRequirement,
        default_message_notifications: DefaultMessageNotificationLevel::All,
        roles: map,
        emoji: vec![],
        features: vec![],
        unavailable: false,
        members: HashMap::new(),
        channels: HashMap::new(),
        max_presences: None,
        max_members: None,
        description: None,
        banner: None,
        premium_tier: PremiumTier::NoTier,
        premium_subscription_count: 0,
        preferred_locale: String::new(),
        complete: true,
        member_count: 0,
    }
}

fn test_member(id: u64, roles: Vec<u64>) -> CachedMember {
    CachedMember {
        user_id: id,
        nickname: None,
        roles,
        joined_at: None,
        boosting_since: None,
        server_deafened: false,
        server_muted: false,
    }
}

#[test]
fn owner_has_every_permission() {
    let g = test_guild(7, vec![]);
    assert_eq!(get_guild_permissions_for(&test_member(7, vec![]), &g), ALL_DISCORD_PERMISSIONS);
}

#[test]
fn roles_add_up_and_missing_roles_are_skipped() {
    let g = test_guild(1, vec![cached_role(2, SEND_MESSAGES), cached_role(3, EMBED_LINKS)]);
    let p = get_guild_permissions_for(&test_member(9, vec![2, 3, 4]), &g);
    assert_eq!(p, SEND_MESSAGES | EMBED_LINKS);
}

#[test]
fn administrator_role_gives_everything() {
    let g = test_guild(1, vec![cached_role(2, ADMINISTRATOR)]);
    assert_eq!(get_guild_permissions_for(&test_member(9, vec![2]), &g), ALL_DISCORD_PERMISSIONS);
}

#[test]
fn all_discord_permissions_matches_the_model() {
    assert_eq!(all_discord_permissions(), 0x001E_7FFF_FFFF_FFFF);
}

#[test]
fn dm_channel_has_fixed_permissions() {
    let dm = CachedChannel::DM { id: 1, receiver: Some(2) };
    let p = get_channel_permissions_for(&dm, 0, 2, None);
    assert!(contains(p, SEND_MESSAGES | EMBED_LINKS));
    assert!(!contains(p, ADMINISTRATOR));
    assert_eq!(get_channel_permissions_in(None, SEND_MESSAGES, 2, None), 0);
}

#[test]
fn overwrites_apply_everyone_then_roles_then_user() {
    let channel = CachedChannel::TextChannel {
        id: 5,
        guild_id: 50,
        position: 0,
        permission_overrides: vec![
            PermissionOverwrite { kind: OverwriteTarget::Role(50), allow: 0, deny: SEND_MESSAGES | VIEW_CHANNEL },
            PermissionOverwrite { kind: OverwriteTarget::Role(3), allow: VIEW_CHANNEL, deny: 0 },
            PermissionOverwrite { kind: OverwriteTarget::Member(9), allow: SEND_MESSAGES, deny: 0 },
            PermissionOverwrite { kind: OverwriteTarget::Member(10), allow: ADMINISTRATOR, deny: 0 },
        ],
        name: "c".to_string(),
        topic: None,
        nsfw: false,
        slowmode: None,
        parent_id: None,
    };
    let roles = vec![3];
    let p = get_channel_permissions_for(&channel, SEND_MESSAGES | VIEW_CHANNEL | EMBED_LINKS, 9, Some(&roles));
    assert_eq!(p, SEND_MESSAGES | VIEW_CHANNEL | EMBED_LINKS);
    let none: Vec<u64> = vec![];
    let q = get_channel_permissions_for(&channel, SEND_MESSAGES | VIEW_CHANNEL, 11, Some(&none));
    assert_eq!(q, 0);
    let unknown = get_channel_permissions_for(&channel, SEND_MESSAGES, 11, None);
    assert_eq!(unknown, SEND_MESSAGES);
    let admin = get_channel_permissions_for(&channel, ADMINISTRATOR, 11, Some(&none));
    assert_eq!(admin, ALL_DISCORD_PERMISSIONS);
}

#[test]
fn bot_admin_follows_global_admins() {
    let mut p = BOT_ADMIN | BASIC_GROUP;
    apply_admin_perms(5, &vec![1, 2], &mut p);
    assert_eq!(p, BASIC_GROUP);
    apply_admin_perms(2, &vec![1, 2], &mut p);
    assert_eq!(p, BASIC_GROUP | BOT_ADMIN);
}

#[test]
fn default_config_gives_members_basic_commands() {
    let config = GuildConfig::default();
    let root = RootNode::new(default_commands());
    let g = test_guild(1, vec![]);
    let p = get_permissions_for(&g, &test_member(9, vec![]), &config, &root, &vec![]);
    assert!(contains(p, BASIC_GROUP | EMOJI_LIST_COMMAND));
    assert!(contains(p, gearbot::perms::ABOUT_COMMAND | gearbot::perms::PING_COMMAND));
    assert!(!contains(p, MODERATION_GROUP));
    assert!(!contains(p, USERINFO_COMMAND));
    assert!(!contains(p, BOT_ADMIN));
    // the emoji command only shows help, and one of its subcommands is granted
    assert!(contains(p, EMOJI_COMMAND));
}

#[test]
fn default_config_gives_moderators_and_admins_more() {
    let config = GuildConfig::default();
    let root = RootNode::new(default_commands());
    let g = test_guild(1, vec![cached_role(2, BAN_MEMBERS), cached_role(3, ADMINISTRATOR)]);
    let moderator = get_permissions_for(&g, &test_member(9, vec![2]), &config, &root, &vec![]);
    assert!(contains(moderator, MODERATION_GROUP | USERINFO_COMMAND | READ_CONFIG));
    assert!(!contains(moderator, WRITE_CONFIG));
    assert!(contains(moderator, CONFIG_COMMAND));
    let admin = get_permissions_for(&g, &test_member(8, vec![3]), &config, &root, &vec![8]);
    assert!(contains(admin, GUILD_ADMIN_GROUP | MISC_GROUP | WRITE_CONFIG | CONFIG_COMMAND));
    assert!(contains(admin, BOT_ADMIN));
}

#[test]
fn explicit_deny_is_not_cascaded_over() {
    let mut config = GuildConfig::default();
    config.permission_groups.push(PermissionGroup {
        priority: 60,
        name: "no ping".to_string(),
        granted_perms: 0,
        denied_perms: gearbot::perms::PING_COMMAND,
        discord_perms: None,
        roles: vec![],
        needs_all: false,
        users: vec![9],
    });
    let root = RootNode::new(default_commands());
    let g = test_guild(1, vec![]);
    let p = get_permissions_for(&g, &test_member(9, vec![]), &config, &root, &vec![]);
    assert!(contains(p, BASIC_GROUP));
    assert!(!contains(p, gearbot::perms::PING_COMMAND));
    assert!(contains(p, gearbot::perms::COINFLIP_COMMAND));
}

#[test]
fn needs_all_group_without_roles_applies_to_everyone() {
    let mut config = GuildConfig::default();
    config.permission_groups = vec![PermissionGroup {
        priority: 0,
        name: "all".to_string(),
        granted_perms: MISC_GROUP,
        denied_perms: 0,
        discord_perms: None,
        roles: vec![],
        needs_all: true,
        users: vec![],
    }];
    let root = RootNode::new(default_commands());
    let g = test_guild(1, vec![]);
    let p = get_permissions_for(&g, &test_member(9, vec![]), &config, &root, &vec![]);
    assert!(contains(p, MISC_GROUP | EMOJI_COMMAND | EMOJI_LIST_COMMAND));
}

#[test]
fn cascade_grants_subcommands_of_granted_group() {
    let root = RootNode::new(default_commands());
    let mut p = GUILD_ADMIN_GROUP;
    cascade_groups(&mut p, 0, &root);
    assert!(contains(p, CONFIG_COMMAND | READ_CONFIG | WRITE_CONFIG));
    let mut q = GUILD_ADMIN_GROUP;
    cascade_groups(&mut q, WRITE_CONFIG, &root);
    assert!(contains(q, CONFIG_COMMAND | READ_CONFIG));
    assert!(!contains(q, WRITE_CONFIG));
}

#[test]
fn denied_command_without_handler_still_shows_help() {
    let sub = CommandNode {
        name: "list".to_string(),
        has_handler: true,
        node_list: vec![],
        bot_permissions: 0,
        command_permission: EMOJI_LIST_COMMAND,
        group: CommandGroup::Misc,
        aliases: vec![],
    };
    let top = CommandNode {
        name: "emoji".to_string(),
        has_handler: false,
        node_list: vec![sub],
        bot_permissions: 0,
        command_permission: EMOJI_COMMAND,
        group: CommandGroup::Misc,
        aliases: vec![],
    };
    let mut p = EMOJI_LIST_COMMAND;
    cascade_node(&mut p, 0, &top, false);
    assert_eq!(p, EMOJI_LIST_COMMAND | EMOJI_COMMAND);
    let mut q = 0;
    cascade_node(&mut q, 0, &top, false);
    assert_eq!(q, 0);
}

#[test]
fn permission_bits_helpers() {
    assert!(contains(BASIC_GROUP | BOT_ADMIN, BOT_ADMIN));
    assert_eq!(insert(BASIC_GROUP, BOT_ADMIN), BASIC_GROUP | BOT_ADMIN);
    assert_eq!(remove(BASIC_GROUP | BOT_ADMIN, BOT_ADMIN), BASIC_GROUP);
    assert_eq!(gearbot_from_bits_truncate(0xFFFF_FFFF), 0x1_FFFF);
}

#[test]
fn cascade_keeps_grants_and_never_grants_denied() {
    let root = RootNode::new(default_commands());
    let start = BASIC_GROUP | MISC_GROUP;
    let denies = gearbot::perms::COINFLIP_COMMAND | EMOJI_LIST_COMMAND;
    let mut perms = start;
    cascade_groups(&mut perms, denies, &root);
    assert!(contains(perms, start));
    assert_eq!(perms & denies, start & denies);
    assert!(contains(perms, gearbot::perms::PING_COMMAND | EMOJI_COMMAND));
}
