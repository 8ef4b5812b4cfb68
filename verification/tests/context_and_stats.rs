use gearbot::cache::Cache;
use gearbot::changes::{member_changes, role_display};
use gearbot::prefix::{command_prefix, find_prefix, text_starts_with, user_mention, user_nickname_mention};
use gearbot::cached::{CachedMember, CachedUser};
use gearbot::channel::CachedChannel;
use gearbot::commands::MessageKind;
use gearbot::config::{ConfigStore, GuildConfig};
use gearbot::context::{CommandContext, CommandError, CommandMessage, GuildContext};
use gearbot::crypto::{encrypt_bytes, generate_guild_key, guild_key_from};
use gearbot::events::{CacheEvent, MemberChunkData};
use gearbot::guild::{DefaultMessageNotificationLevel, GuildData, PremiumTier, VerificationLevel};
use gearbot::messages::{
    encrypt_message_content, fetch_user_message, insert_user_message, user_message_from, StoredMessage,
};
use gearbot::model::{
    ChannelType, GuildChannelData, MemberData, OverwriteTarget, PermissionOverwrite, RoleData,
    TextChannelData, UserData,
};
use gearbot::perms::{
    ADD_REACTIONS, ADMINISTRATOR, ALL_DISCORD_PERMISSIONS, ATTACH_FILES, EMBED_LINKS, SEND_MESSAGES,
    VIEW_CHANNEL,
};
use gearbot::shards::ShardState;
use gearbot::stats::{BotStats, EventStats, GatewayEvent};

fn user_data(id: u64) -> UserData {
    UserData {
        id,
        name: format!("user{}", id),
        discriminator: "0001".to_string(),
        avatar: None,
        bot: false,
        system: None,
        public_flags: None,
    }
}

fn member_data(id: u64, roles: Vec<u64>) -> MemberData {
    MemberData {
        user: user_data(id),
        nick: None,
        roles,
        joined_at: None,
        premium_since: None,
        deaf: false,
        mute: false,
    }
}

fn role(id: u64, permissions: u64) -> RoleData {
    RoleData {
        id,
        name: format!("role{}", id),
        color: 0,
        hoist: false,
        position: 0,
        permissions,
        managed: false,
        mentionable: false,
    }
}

fn overwrite(kind: OverwriteTarget, allow: u64, deny: u64) -> PermissionOverwrite {
    PermissionOverwrite { kind, allow, deny }
}

/// Guild 10 owned by user 1: the everyone role (10) may send and view, role
/// 20 may embed, role 30 is administrator. Channel 100 denies sending to
/// everyone, lets role 20 attach files and user 5 react.
fn guild_data() -> GuildData {
    GuildData {
        id: 10,
        name: "gears".to_string(),
        icon: None,
        splash: None,
        discovery_splash: None,
        owner_id: 1,
        region: "europe".to_string(),
        afk_channel_id: None,
        afk_timeout: 300,
        verification_level: VerificationLevel::Low,
        default_message_notifications: DefaultMessageNotificationLevel::OnlyMentions,
        roles: vec![
            role(10, SEND_MESSAGES | VIEW_CHANNEL),
            role(20, EMBED_LINKS),
            role(30, ADMINISTRATOR),
        ],
        emojis: vec![],
        features: vec![],
        channels: vec![GuildChannelData::Text(TextChannelData {
            kind: ChannelType::GuildText,
            id: 100,
            guild_id: Some(10),
            position: 0,
            permission_overwrites: vec![
                overwrite(OverwriteTarget::Role(10), 0, SEND_MESSAGES),
                overwrite(OverwriteTarget::Role(20), ATTACH_FILES, 0),
                overwrite(OverwriteTarget::Member(5), ADD_REACTIONS, 0),
            ],
            name: "general".to_string(),
            topic: None,
            nsfw: false,
            rate_limit_per_user: None,
            parent_id: None,
        })],
        max_presences: None,
        max_members: None,
        description: None,
        banner: None,
        premium_tier: PremiumTier::NoTier,
        premium_subscription_count: None,
        preferred_locale: "en-US".to_string(),
    }
}

fn loaded_cache() -> Cache {
    let shards = vec![ShardState::Ready];
    let mut cache = Cache::new(0);
    cache.update(0, &CacheEvent::GuildCreate(guild_data()), &shards);
    cache.update(
        0,
        &CacheEvent::MemberChunk(MemberChunkData {
            guild_id: 10,
            members: vec![member_data(5, vec![20]), member_data(6, vec![]), member_data(7, vec![30])],
            chunk_index: 0,
            chunk_count: 1,
            nonce: None,
        }),
        &shards,
    );
    cache
}

fn cached_user(id: u64) -> CachedUser {
    CachedUser {
        id,
        username: format!("user{}", id),
        discriminator: "0001".to_string(),
        avatar: None,
        bot_user: false,
        system_user: false,
        public_flags: None,
        mutual_servers: 1,
    }
}

fn cached_member(id: u64, roles: Vec<u64>) -> CachedMember {
    CachedMember {
        user_id: id,
        nickname: None,
        roles,
        joined_at: None,
        boosting_since: None,
        server_deafened: false,
        server_muted: false,
    }
}

fn guild_context(_cache: &Cache, author: u64, author_roles: Vec<u64>) -> CommandContext {
    let mut snapshot = loaded_cache();
    CommandContext {
        message: CommandMessage {
            id: 999,
            content: "!perms".to_string(),
            author: cached_user(author),
            author_as_member: Some(cached_member(author, author_roles)),
            channel: snapshot.guild_channels.remove(&100).unwrap(),
            mention_everyone: false,
            tts: false,
        },
        guild: Some(snapshot.guilds.remove(&10).unwrap()),
        config: GuildConfig::default(),
        shard: 0,
        bot_user_id: 6,
    }
}

fn dm_context() -> CommandContext {
    CommandContext {
        message: CommandMessage {
            id: 998,
            content: "!perms".to_string(),
            author: cached_user(5),
            author_as_member: None,
            channel: CachedChannel::DM { id: 300, receiver: Some(5) },
            mention_everyone: false,
            tts: false,
        },
        guild: None,
        config: GuildConfig::default(),
        shard: 0,
        bot_user_id: 6,
    }
}

#[test]
fn guild_permissions_come_from_roles() {
    let cache = loaded_cache();
    let ctx = guild_context(&cache, 5, vec![20]);
    assert_eq!(ctx.get_author_guild_permissions(&cache), EMBED_LINKS);
    assert_eq!(ctx.get_bot_guild_permissions(&cache), 0);
    assert!(ctx.author_has_guild_permissions(&cache, EMBED_LINKS));
    assert!(!ctx.bot_has_guild_permissions(&cache, EMBED_LINKS));
    assert!(ctx.bot_has_guild_permissions(&cache, 0));
    assert_eq!(ctx.get_guild_permissions_for(&cache, 7), ALL_DISCORD_PERMISSIONS);
    assert_eq!(ctx.get_guild_permissions_for(&cache, 1), 0);
}

#[test]
fn channel_overwrites_apply_to_the_author() {
    let cache = loaded_cache();
    let ctx = guild_context(&cache, 5, vec![20]);
    let expected = EMBED_LINKS | ATTACH_FILES | ADD_REACTIONS;
    assert_eq!(ctx.get_author_channel_permissions(&cache), expected);
    assert!(ctx.author_has_channel_permissions(&cache, ATTACH_FILES | ADD_REACTIONS));
    assert!(!ctx.author_has_channel_permissions(&cache, SEND_MESSAGES));
    assert!(ctx.has_channel_permissions(&cache, 5, 100, EMBED_LINKS));
    assert_eq!(ctx.get_channel_permissions_for(&cache, 7, 100), ALL_DISCORD_PERMISSIONS);
    assert_eq!(ctx.get_channel_permissions_for(&cache, 5, 404), 0);
}

#[test]
fn bot_channel_permissions_use_the_author_roles() {
    let cache = loaded_cache();
    let ctx = guild_context(&cache, 5, vec![20]);
    assert_eq!(ctx.get_bot_channel_permissions(&cache), ATTACH_FILES);
    assert_eq!(ctx.get_bot_permissions_for_channel(&cache, 100), ATTACH_FILES);
    assert!(ctx.bot_has_channel_permissions(&cache, ATTACH_FILES));
    assert!(!ctx.bot_has_permissions_in_channel(&cache, 100, SEND_MESSAGES));
    let other = guild_context(&cache, 1, vec![]);
    assert_eq!(other.get_bot_channel_permissions(&cache), 0);
}

#[test]
fn lookups_through_the_context() {
    let cache = loaded_cache();
    let ctx = guild_context(&cache, 5, vec![20]);
    assert_eq!(ctx.get_member(&cache, 5).map(|m| m.roles.clone()), Some(vec![20]));
    assert!(ctx.get_member(&cache, 8).is_none());
    assert!(ctx.get_channel(&cache, 100).is_some());
    assert_eq!(ctx.get_role(30).map(|r| r.permissions), Some(ADMINISTRATOR));
    assert!(ctx.get_role(31).is_none());
    assert_eq!(ctx.get_guild().map(|g| g.id), Ok(10));
    assert!(ctx.get_config().is_ok());
    assert_eq!(ctx.message.get_author_as_member().map(|m| m.user_id), Ok(5));
}

#[test]
fn direct_messages_have_no_guild() {
    let cache = loaded_cache();
    let ctx = dm_context();
    assert_eq!(ctx.get_guild().err(), Some(CommandError::NoDM));
    assert_eq!(ctx.get_config().err(), Some(CommandError::NoDM));
    assert_eq!(ctx.message.get_author_as_member().err(), Some(CommandError::NoDM));
    assert_eq!(ctx.get_author_guild_permissions(&cache), 0);
    assert!(ctx.get_member(&cache, 5).is_none());
    assert!(ctx.get_role(20).is_none());
    let mut store = ConfigStore::new();
    assert_eq!(ctx.set_config(&mut store, GuildConfig::default()), Err(CommandError::NoDM));
    assert!(store.configs.is_empty());
}

#[test]
fn config_store_reads_what_was_set() {
    let cache = loaded_cache();
    let ctx = guild_context(&cache, 5, vec![20]);
    let mut store = ConfigStore::new();
    assert!(store.get_config(10).is_none());
    let mut config = GuildConfig::default();
    config.prefix = "?".to_string();
    assert_eq!(ctx.set_config(&mut store, config), Ok(()));
    assert_eq!(store.get_config(10).map(|c| c.prefix.clone()), Some("?".to_string()));
    store.set_config(11, GuildConfig::default());
    assert_eq!(store.get_config(10).map(|c| c.prefix.clone()), Some("?".to_string()));
    assert_eq!(store.get_config(11).map(|c| c.prefix.clone()), Some("!".to_string()));
}

#[test]
fn gateway_events_are_counted_by_kind() {
    let mut events = EventStats::new();
    events.receive_event(GatewayEvent::MessageCreate);
    events.receive_event(GatewayEvent::MessageCreate);
    events.receive_event(GatewayEvent::GuildCreate);
    let before = events;
    events.receive_event(GatewayEvent::Other);
    assert_eq!(events, before);
    assert_eq!(events.message_create, 2);
    assert_eq!(events.guild_create, 1);
    assert_eq!(events.ban_add, 0);
    events.webhooks_update = u64::MAX;
    events.receive_event(GatewayEvent::WebhooksUpdate);
    assert_eq!(events.webhooks_update, 0);
}

#[test]
fn bot_stats_counters() {
    let mut stats = BotStats::new(3);
    assert_eq!(stats.cluster_id, 3);
    stats.receive_event(GatewayEvent::RoleDelete);
    assert_eq!(stats.event_counts.role_delete, 1);
    stats.new_message(false, false, false);
    stats.new_message(true, true, false);
    stats.new_message(true, false, true);
    stats.new_message(true, false, false);
    assert_eq!(stats.message_counts.user_messages, 1);
    assert_eq!(stats.message_counts.own_messages, 1);
    assert_eq!(stats.message_counts.webhook_messages, 1);
    assert_eq!(stats.message_counts.other_bot_messages, 1);
    stats.had_error();
    stats.command_used(false);
    stats.command_used(true);
    stats.command_used(true);
    assert_eq!((stats.error_count, stats.commands_ran, stats.custom_commands_ran), (1, 1, 2));
    stats.left_guild();
    assert_eq!(stats.guilds, u64::MAX);
    stats.new_guild();
    stats.new_guild();
    assert_eq!(stats.guilds, 1);
}

fn stored(id: i64, content: Vec<u8>, msg_type: i16) -> StoredMessage {
    StoredMessage { id, content, author: 5, channel: 100, guild: 10, msg_type, pinned: true }
}

#[test]
fn stored_message_reads_back() {
    let key = [3u8; 32];
    let content = "héllo ⚙ gears";
    let ciphertext = encrypt_message_content(content, &key, 4242);
    assert_eq!(ciphertext.len(), content.len() + 16);
    let row = stored(4242, ciphertext, 7);
    let msg = fetch_user_message(&row, &key).unwrap();
    assert_eq!(msg.content, content);
    assert_eq!((msg.author, msg.channel, msg.guild, msg.pinned), (5, 100, 10, true));
    assert_eq!(msg.msg_type, MessageKind::GuildMemberJoin);
    assert_eq!(user_message_from(&row, &key).content, content);
}

#[test]
fn unreadable_rows_give_nothing() {
    let key = [3u8; 32];
    let ciphertext = encrypt_message_content("hi", &key, 1);
    assert!(fetch_user_message(&stored(1, ciphertext.clone(), 13), &key).is_none());
    assert!(fetch_user_message(&stored(2, ciphertext.clone(), 0), &key).is_none());
    assert!(fetch_user_message(&stored(1, ciphertext, 0), &[4u8; 32]).is_none());
}

#[test]
fn invalid_utf8_is_replaced() {
    let key = [3u8; 32];
    let ciphertext = encrypt_bytes(&[b'a', 0xff, b'b'], &key, 9);
    let msg = fetch_user_message(&stored(9, ciphertext, 0), &key).unwrap();
    assert_eq!(msg.content, "a\u{fffd}b");
    assert_eq!(msg.msg_type, MessageKind::Regular);
}

#[test]
fn guild_keys_read_back_from_storage() {
    let master = [1u8; 32];
    let stored_key = generate_guild_key(&master, 77);
    let key = guild_key_from(&stored_key, &master, 77).unwrap();
    assert_eq!(key.len(), 32);
    assert!(guild_key_from(&stored_key, &master, 78).is_none());
    let short = encrypt_bytes(&[1, 2, 3], &master, 77);
    assert!(guild_key_from(&short, &master, 77).is_none());
}

#[test]
fn prefixes_and_mentions() {
    assert_eq!(user_mention(42), "<@42>");
    assert_eq!(user_nickname_mention(42), "<@!42>");
    assert!(text_starts_with("!ping", "!"));
    assert!(!text_starts_with("!", "!ping"));
    assert_eq!(find_prefix("?help me", "?", 42), Some("?".to_string()));
    assert_eq!(find_prefix("<@42> help", "?", 42), Some("<@42>".to_string()));
    assert_eq!(find_prefix("<@!42> help", "?", 42), Some("<@!42>".to_string()));
    assert_eq!(find_prefix("<@43> help", "?", 42), None);
    assert_eq!(find_prefix("hello", "?", 42), None);
}

#[test]
fn command_prefix_needs_a_complete_guild() {
    let cache = loaded_cache();
    assert_eq!(command_prefix(&cache, false, None, "?", "!ping", 6), Some("!".to_string()));
    assert_eq!(command_prefix(&cache, false, None, "?", "?ping", 6), None);
    assert_eq!(command_prefix(&cache, true, None, "?", "!ping", 6), None);
    assert_eq!(command_prefix(&cache, false, Some(10), "?", "?ping", 6), Some("?".to_string()));
    assert_eq!(command_prefix(&cache, false, Some(10), "?", "<@6> ping", 6), Some("<@6>".to_string()));
    assert_eq!(command_prefix(&cache, false, Some(11), "?", "?ping", 6), None);
    let mut partial = Cache::new(0);
    partial.update(0, &CacheEvent::GuildCreate(guild_data()), &vec![ShardState::Ready]);
    assert_eq!(command_prefix(&partial, false, Some(10), "?", "?ping", 6), None);
}

#[test]
fn member_update_changes() {
    let c = member_changes(
        &vec![1, 2, 3],
        &Some("old".to_string()),
        &"alice".to_string(),
        &vec![3, 4],
        &Some("new".to_string()),
        &"alicia".to_string(),
    );
    assert_eq!(c.roles_lost, vec![1, 2]);
    assert_eq!(c.roles_gained, vec![4]);
    assert_eq!(c.username_change, Some(("alicia".to_string(), "alice".to_string())));
    assert_eq!(c.nickname_change, Some(("old".to_string(), "new".to_string())));
    let same = member_changes(&vec![1], &None, &"bob".to_string(), &vec![1], &Some("b".to_string()), &"bob".to_string());
    assert!(same.roles_lost.is_empty() && same.roles_gained.is_empty());
    assert_eq!(same.username_change, None);
    assert_eq!(same.nickname_change, None);
    let cache = loaded_cache();
    let roles = &cache.get_guild(10).unwrap().roles;
    assert_eq!(role_display(&vec![20, 99, 30], roles), "role20, role30, ");
    assert_eq!(role_display(&vec![], roles), "");
}

#[test]
fn guild_context_uses_roles_and_overwrites_only() {
    let cache = loaded_cache();
    let ctx = GuildContext { id: 10, bot_user_id: 6 };
    assert_eq!(ctx.get_guild_permissions_for(&cache, 5), EMBED_LINKS);
    assert_eq!(ctx.get_guild_permissions_for(&cache, 7), ADMINISTRATOR);
    assert_eq!(ctx.get_guild_permissions_for(&cache, 1), 0);
    assert_eq!(ctx.get_channel_permissions_for(&cache, 5, 100), EMBED_LINKS | ATTACH_FILES | ADD_REACTIONS);
    assert_eq!(ctx.get_channel_permissions_for(&cache, 7, 100), ADMINISTRATOR);
    assert_eq!(ctx.get_channel_permissions_for(&cache, 5, 404), 0);
    assert_eq!(ctx.get_bot_channel_permissions(&cache, 100), 0);
    assert!(ctx.has_channel_permissions(&cache, 5, 100, ADD_REACTIONS));
    assert!(!ctx.bot_has_channel_permissions(&cache, 100, SEND_MESSAGES));
    assert!(!ctx.bot_has_guild_permissions(&cache, EMBED_LINKS));
    assert_eq!(ctx.get_bot_guild_permissions(&cache), 0);
    assert_eq!(ctx.get_cached_role(&cache, 30).map(|r| r.permissions), Some(ADMINISTRATOR));
    assert!(ctx.get_cached_member(&cache, 5).is_some());
    assert!(ctx.get_cached_guild_channel(&cache, 100).is_some());
    assert!(ctx.get_cached_guild_channel(&cache, 404).is_none());
    let mut store = ConfigStore::new();
    assert!(ctx.get_config(&store).is_none());
    ctx.set_config(&mut store, GuildConfig::default());
    assert_eq!(ctx.get_config(&store).map(|c| c.prefix.clone()), Some("!".to_string()));
}

#[test]
fn inserted_row_reads_back() {
    let key = [9u8; 32];
    let row = insert_user_message(u64::MAX - 1, "gear \u{2699}", 1 << 63, 100, 10, 6, false, &key);
    assert_eq!(row.id, (u64::MAX - 1) as i64);
    assert_eq!(row.author, i64::MIN);
    let msg = fetch_user_message(&row, &key).unwrap();
    assert_eq!(msg.content, "gear \u{2699}");
    assert_eq!((msg.author, msg.channel, msg.guild, msg.pinned), (1 << 63, 100, 10, false));
    assert_eq!(msg.msg_type, MessageKind::ChannelMessagePinned);
}
