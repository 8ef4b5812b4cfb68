use std::collections::{HashMap, VecDeque};

use gearbot::cached::{animated_hash, get_true, is_default, is_true, CachedEmoji, CachedUser};
use gearbot::channel::CachedChannel;
use gearbot::commands::{
    average_latency, badges, channel_counts, coinflip_answer, coinflip_subject, flip_coin,
    message_kind, message_sender, role_mentions, Badge, CoinflipAnswer, MessageCounters, MessageKind,
    MessageSender, EARLY_SUPPORTER, HOUSE_BALANCE, STAFF,
};
use gearbot::config::{
    GuildConfig, LogCategory, LogChannelConfig, LogStyle, MessageLogs, StartupError, WebhookComponents,
};
use gearbot::crypto::{decrypt_bytes, encrypt_bytes, nonce_for, try_decrypt_bytes};
use gearbot::guild::{CachedGuild, DefaultMessageNotificationLevel, PremiumTier, VerificationLevel};
use gearbot::logging::{get_emoji, requeue, take_log_batch, LogEmoji, LogLevel};
use gearbot::nodes::{
    answers, default_commands, find_conflict, str_eq, CommandGroup, CommandNode, RootNode,
};
use gearbot::shards::{cluster_shards, shards_all_ready, LoadingState, ShardState};
use gearbot::text::{i64_to_string, parse_u16, u64_to_string};

fn user(avatar: Option<&str>, discriminator: &str) -> CachedUser {
    CachedUser {
        id: 123,
        username: "gear".to_string(),
        discriminator: discriminator.to_string(),
        avatar: avatar.map(|s| s.to_string()),
        bot_user: false,
        system_user: false,
        public_flags: None,
        mutual_servers: 0,
    }
}

#[test]
fn decimal_text_of_numbers() {
    assert_eq!(u64_to_string(0), "0");
    assert_eq!(u64_to_string(1234567890), "1234567890");
    assert_eq!(u64_to_string(u64::MAX), "18446744073709551615");
    assert_eq!(i64_to_string(-42), "-42");
    assert_eq!(i64_to_string(i64::MIN), "-9223372036854775808");
}

#[test]
fn parse_u16_like_std() {
    for s in ["0", "42", "+7", "65535", "65536", "", "+", "-1", "12a", "0001"] {
        assert_eq!(parse_u16(s), s.parse::<u16>().ok(), "{}", s);
    }
}

#[test]
fn user_names_and_links() {
    let u = user(None, "0042");
    assert_eq!(u.full_name(), "gear#0042");
    assert_eq!(u.full_name_with_id(), "gear#0042 (123)");
    assert_eq!(u.profile_link(), "https://discord.com/users/123");
    assert_eq!(u.avatar_url(), "https://cdn.discordapp.com/embed/avatar/2.png");
    assert_eq!(
        user(Some("a_abc"), "1").avatar_url(),
        "https://cdn.discordapp.com/avatars/123/a_abc.gif"
    );
    assert_eq!(user(Some("abc"), "1").avatar_url(), "https://cdn.discordapp.com/avatars/123/abc.png");
    assert!(animated_hash("a_x"));
    assert!(!animated_hash("a"));
}

#[test]
fn emoji_link_by_animation() {
    let mut e = CachedEmoji {
        id: 77,
        name: "gear".to_string(),
        roles: vec![],
        created_by: None,
        requires_colons: true,
        managed: false,
        animated: true,
        available: true,
    };
    assert_eq!(e.get_url(), "https://cdn.discordapp.com/emojis/77.gif");
    e.animated = false;
    assert_eq!(e.get_url(), "https://cdn.discordapp.com/emojis/77.png");
}

#[test]
fn frozen_flag_helpers() {
    assert!(is_default(&0u64));
    assert!(!is_default(&5u64));
    assert!(is_default(&None::<String>));
    assert!(is_true(&false));
    assert!(!is_true(&true));
    assert!(get_true());
}

#[test]
fn role_mentions_stop_after_four() {
    assert_eq!(role_mentions(&vec![]), "");
    assert_eq!(role_mentions(&vec![1]), "<@&1>");
    assert_eq!(role_mentions(&vec![1, 2, 3]), "<@&1>, <@&2>, <@&3>");
    assert_eq!(role_mentions(&vec![1, 2, 3, 4]), "<@&1>, <@&2>, <@&3>, <@&4> and 1 more");
    assert_eq!(role_mentions(&vec![1, 2, 3, 4, 5, 6]), "<@&1>, <@&2>, <@&3>, <@&4> and 3 more");
}

#[test]
fn badges_in_order() {
    assert_eq!(badges(0), vec![]);
    assert_eq!(badges(STAFF | EARLY_SUPPORTER | HOUSE_BALANCE), vec![Badge::Staff, Badge::Balance, Badge::EarlySupporter]);
}

#[test]
fn channel_kinds_are_counted() {
    let mut channels = HashMap::new();
    channels.insert(1, CachedChannel::Category { id: 1, guild_id: 5, position: 0, permission_overrides: vec![], name: "c".to_string() });
    channels.insert(2, CachedChannel::TextChannel { id: 2, guild_id: 5, position: 0, permission_overrides: vec![], name: "t".to_string(), topic: None, nsfw: false, slowmode: None, parent_id: None });
    channels.insert(3, CachedChannel::TextChannel { id: 3, guild_id: 5, position: 0, permission_overrides: vec![], name: "t".to_string(), topic: None, nsfw: false, slowmode: None, parent_id: None });
    channels.insert(4, CachedChannel::VoiceChannel { id: 4, guild_id: 5, position: 0, permission_overrides: vec![], name: "v".to_string(), bitrate: 64000, user_limit: None, parent_id: None });
    channels.insert(5, CachedChannel::AnnouncementsChannel { id: 5, guild_id: 5, position: 0, permission_overrides: vec![], name: "a".to_string(), parent_id: None });
    let g = CachedGuild {
        id: 5,
        name: "g".to_string(),
        icon: None,
        splash: None,
        discovery_splash: None,
        owner_id: 1,
        region: String::new(),
        afk_channel_id: None,
        afk_timeout: 0,
        verification_level: VerificationLevel::Medium,
        default_message_notifications: DefaultMessageNotificationLevel::All,
        roles: HashMap::new(),
        emoji: vec![],
        features: vec![],
        unavailable: false,
        members: HashMap::new(),
        channels,
        max_presences: None,
        max_members: None,
        description: None,
        banner: None,
        premium_tier: PremiumTier::Tier2,
        premium_subscription_count: 0,
        preferred_locale: String::new(),
        complete: true,
        member_count: 0,
    };
    let counts = channel_counts(&g);
    assert_eq!((counts.categories, counts.text, counts.voice), (1, 2, 1));
}

#[test]
fn coinflip_words_and_sides() {
    let parts = vec!["coinflip".to_string(), "eat".to_string(), "cake".to_string()];
    assert_eq!(coinflip_subject(&parts), "eat cake ");
    assert_eq!(coinflip_subject(&vec!["coinflip".to_string()]), "");
    assert_eq!(coinflip_answer(true), CoinflipAnswer::Yes);
    assert_eq!(coinflip_answer(false), CoinflipAnswer::No);
    let _ = flip_coin();
}

#[test]
fn latency_average_and_message_kinds() {
    assert_eq!(average_latency(&vec![10, 20, 31], 2), 30);
    assert_eq!(average_latency(&vec![], 4), 0);
    assert_eq!(message_kind(0), MessageKind::Regular);
    assert_eq!(message_kind(12), MessageKind::ChannelFollowAdd);
    assert_eq!(message_kind(15), MessageKind::GuildDiscoveryRequalified);
    assert_eq!(message_kind(256), MessageKind::Regular);
}

#[test]
fn message_senders_are_counted() {
    assert_eq!(message_sender(true, true, true), MessageSender::Own);
    assert_eq!(message_sender(true, false, true), MessageSender::Webhook);
    assert_eq!(message_sender(true, false, false), MessageSender::OtherBot);
    assert_eq!(message_sender(false, true, true), MessageSender::User);
    let mut c = MessageCounters { user_messages: 0, other_bot_messages: 0, own_messages: 0, webhook_messages: u64::MAX };
    c.new_message(false, false, false);
    c.new_message(true, false, true);
    assert_eq!(c.user_messages, 1);
    assert_eq!(c.webhook_messages, 0);
}

#[test]
fn log_emoji_by_level() {
    assert_eq!(get_emoji(LogLevel::Error), LogEmoji::No);
    assert_eq!(get_emoji(LogLevel::Warn), LogEmoji::Warn);
    assert_eq!(get_emoji(LogLevel::Info), LogEmoji::Info);
    assert_eq!(get_emoji(LogLevel::Trace), LogEmoji::Info);
}

#[test]
fn log_batch_stops_before_the_limit_and_drops_the_rest() {
    let mut q: VecDeque<String> = VecDeque::new();
    q.push_back("a".repeat(1000));
    q.push_back("b".repeat(998));
    q.push_back("c".repeat(5));
    q.push_back("d".to_string());
    let batch = take_log_batch(&mut q);
    assert_eq!(batch, format!("{}\n{}", "a".repeat(1000), "b".repeat(998)));
    assert!(q.is_empty());
    q.push_back("x".to_string());
    q.push_back("y".to_string());
    assert_eq!(take_log_batch(&mut q), "x\ny");
    assert_eq!(take_log_batch(&mut q), "");
    q.push_back("later".to_string());
    requeue(&mut q, "first".to_string());
    assert_eq!(q.front().unwrap(), "first");
    let mut big: VecDeque<String> = VecDeque::new();
    big.push_back("z".repeat(2000));
    assert_eq!(take_log_batch(&mut big), "");
}

#[test]
fn default_guild_config() {
    let c = GuildConfig::default();
    assert_eq!(c.prefix, "!");
    assert_eq!(c.log_style, LogStyle::Text);
    assert_eq!(c.language, "en_US");
    assert_eq!(c.permission_groups.len(), 3);
    assert_eq!(c.permission_groups[1].name, "Moderators");
    assert_eq!(c.permission_groups[2].priority, 50);
    assert!(!c.message_logs.enabled && c.message_logs.ignore_bots);
    let channel = LogChannelConfig { categories: vec![LogCategory::TEST], disabled_keys: vec![], style: LogStyle::Embed, filters: vec![] };
    assert_eq!(channel.categories.len(), 1);
}

#[test]
fn message_logging_decision() {
    let logs = MessageLogs { enabled: true, ignored_users: vec![5], ignored_channels: vec![], ignore_bots: true };
    assert!(logs.should_log(1, false));
    assert!(!logs.should_log(5, false));
    assert!(!logs.should_log(1, true));
    let off = MessageLogs { enabled: false, ignored_users: vec![], ignored_channels: vec![], ignore_bots: false };
    assert!(!off.should_log(1, false));
}

#[test]
fn webhook_components_need_a_token() {
    let ok = WebhookComponents::from_parts(Some((42, Some("tok".to_string())))).unwrap();
    assert_eq!((ok.id, ok.token.as_str()), (42, "tok"));
    assert_eq!(WebhookComponents::from_parts(Some((42, None))).err(), Some(StartupError::InvalidConfig));
    assert_eq!(WebhookComponents::from_parts(None).err(), Some(StartupError::InvalidConfig));
    let parsed = WebhookComponents::try_from("https://discord.com/api/webhooks/123/abc").unwrap();
    assert_eq!((parsed.id, parsed.token.as_str()), (123, "abc"));
    assert!(WebhookComponents::try_from("https://discord.com/api/webhooks/123").is_err());
    assert!(WebhookComponents::try_from("not a link").is_err());
}

#[test]
fn encryption_round_trip() {
    let key = [7u8; 32];
    let ciphertext = encrypt_bytes(b"hello gears", &key, 987654321);
    assert_eq!(ciphertext.len(), 11 + 16);
    assert_ne!(&ciphertext[..11], b"hello gears");
    assert_eq!(decrypt_bytes(&ciphertext, &key, 987654321), b"hello gears".to_vec());
    assert_eq!(try_decrypt_bytes(&ciphertext, &key, 987654322), None);
    assert_eq!(try_decrypt_bytes(&ciphertext, &[8u8; 32], 987654321), None);
    assert_eq!(nonce_for(0x0102), vec![2, 1, 0, 0, 0, 0, 0, 0, 0, 0, 0, 0]);
    let guild_key = gearbot::crypto::generate_guild_key(&key, 55);
    assert_eq!(decrypt_bytes(&guild_key, &key, 55).len(), 32);
}

#[test]
fn group_names_and_permissions() {
    assert_eq!(CommandGroup::Basic.get_name(), "basic");
    assert_eq!(CommandGroup::GuildAdmin.get_name(), "guild_admin");
    assert_eq!(CommandGroup::BotAdmin.get_permission(), gearbot::perms::BOT_ADMIN);
    assert_eq!(CommandGroup::Misc.get_permission(), gearbot::perms::MISC_GROUP);
}

#[test]
fn command_tree_is_sorted_and_indexed() {
    let commands = default_commands();
    assert_eq!(find_conflict(&commands), None);
    let root = RootNode::new(commands);
    let names: Vec<&str> = root.command_list.iter().map(|c| c.name.as_str()).collect();
    assert_eq!(names, vec!["about", "check", "coinflip", "config", "emoji", "perms", "ping", "quote", "redis_test", "test", "uid", "userinfo"]);
    assert_eq!(root.by_group.len(), 5);
    assert_eq!(root.by_group[0].group, CommandGroup::Basic);
    assert_eq!(root.by_group[0].indices, vec![0, 2, 6, 7, 10]);
    assert_eq!(root.find_command("c").unwrap().name, "config");
    assert!(root.find_command("nothing").is_none());
    assert!(answers(root.find_command("config").unwrap(), "c"));
    assert!(str_eq("abc", "abc") && !str_eq("abc", "abd"));
}

#[test]
fn duplicate_names_are_found() {
    let mut commands = default_commands();
    commands.push(CommandNode {
        name: "c".to_string(),
        has_handler: true,
        node_list: vec![],
        bot_permissions: 0,
        command_permission: 0,
        group: CommandGroup::Basic,
        aliases: vec![],
    });
    assert_eq!(find_conflict(&commands), Some("c".to_string()));
}

#[test]
fn shard_helpers() {
    assert_eq!(cluster_shards(2, 3), vec![6, 7, 8]);
    assert!(shards_all_ready(&vec![ShardState::Ready, ShardState::Ready]));
    assert!(!shards_all_ready(&vec![ShardState::Ready, ShardState::Resuming]));
    assert!(shards_all_ready(&vec![]));
    let l = LoadingState { to_load: 3, loaded: 1 };
    assert_eq!(l.to_load - l.loaded, 2);
}
