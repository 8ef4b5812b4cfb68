use gearbot::audit::CacheAudit;
use gearbot::cache::Cache;
use gearbot::cached::CachedUser;
use gearbot::channel::CachedChannel;
use gearbot::events::{CacheAction, CacheEvent, MemberChunkData};
use gearbot::guild::{
    ColdStorageGuild, DefaultMessageNotificationLevel, GuildData, PartialGuildData, PremiumTier,
    VerificationLevel,
};
use gearbot::model::{
    ChannelData, ChannelType, EmojiData, GuildChannelData, MemberData, MemberUpdateData,
    PrivateChannelData, RoleData, TextChannelData, UserData,
};
use gearbot::shards::ShardState;

fn user(id: u64, name: &str) -> UserData {
    UserData {
        id,
        name: name.to_string(),
        discriminator: "0001".to_string(),
        avatar: None,
        bot: false,
        system: None,
        public_flags: None,
    }
}

fn member(id: u64) -> MemberData {
    MemberData {
        user: user(id, "someone"),
        nick: None,
        roles: vec![],
        joined_at: None,
        premium_since: None,
        deaf: false,
        mute: false,
    }
}

fn role(id: u64, permissions: u64) -> RoleData {
    RoleData {
        id,
        name: format!("role{}", id),
        color: 0,
        hoist: false,
        position: 0,
        permissions,
        managed: false,
        mentionable: false,
    }
}

fn text_channel(id: u64, guild_id: u64) -> GuildChannelData {
    GuildChannelData::Text(TextChannelData {
        kind: ChannelType::GuildText,
        id,
        guild_id: Some(guild_id),
        position: 0,
        permission_overwrites: vec![],
        name: format!("channel{}", id),
        topic: None,
        nsfw: false,
        rate_limit_per_user: None,
        parent_id: None,
    })
}

fn emoji(id: u64) -> EmojiData {
    EmojiData {
        id,
        name: format!("emoji{}", id),
        roles: vec![],
        user: None,
        require_colons: true,
        managed: false,
        animated: false,
        available: true,
    }
}

fn guild(id: u64, channels: Vec<u64>, roles: Vec<u64>, emojis: Vec<u64>) -> GuildData {
    GuildData {
        id,
        name: format!("guild{}", id),
        icon: None,
        splash: None,
        discovery_splash: None,
        owner_id: 1,
        region: "europe".to_string(),
        afk_channel_id: None,
        afk_timeout: 300,
        verification_level: VerificationLevel::Low,
        default_message_notifications: DefaultMessageNotificationLevel::OnlyMentions,
        roles: roles.into_iter().map(|r| role(r, 0)).collect(),
        emojis: emojis.into_iter().map(emoji).collect(),
        features: vec![],
        channels: channels.into_iter().map(|c| text_channel(c, id)).collect(),
        max_presences: None,
        max_members: None,
        description: None,
        banner: None,
        premium_tier: PremiumTier::NoTier,
        premium_subscription_count: None,
        preferred_locale: "en-US".to_string(),
    }
}

fn chunk(guild_id: u64, members: Vec<u64>, index: u32, count: u32) -> CacheEvent {
    CacheEvent::MemberChunk(MemberChunkData {
        guild_id,
        members: members.into_iter().map(member).collect(),
        chunk_index: index,
        chunk_count: count,
        nonce: None,
    })
}

fn mutual(cache: &Cache, user_id: u64) -> Option<u64> {
    cache.users.get(&user_id).map(|u| u.mutual_servers)
}

fn clean(audit: &CacheAudit) -> bool {
    audit.mismatches.is_empty() && audit.members_without_users == 0
}

fn ready(shard_id: u64) -> Vec<ShardState> {
    let _ = shard_id;
    vec![ShardState::Ready]
}

#[test]
fn guild_create_caches_guild_channels_and_emoji() {
    let mut cache = Cache::new(0);
    cache.update(0, &CacheEvent::GuildCreate(guild(10, vec![100, 101], vec![10, 20], vec![7])), &ready(0));
    assert!(cache.guilds.contains_key(&10));
    assert_eq!(cache.guild_channels.len(), 2);
    assert!(cache.get_channel(100).is_some());
    assert!(cache.emoji.contains_key(&7));
    assert_eq!(cache.stats.channel_count, 2);
    assert_eq!(cache.stats.role_count, 2);
    assert_eq!(cache.stats.emoji_count, 1);
    assert_eq!(cache.stats.guilds_partial, 1);
    assert!(!cache.guilds.get(&10).unwrap().complete);
}

#[test]
fn member_chunk_counts_mutual_servers() {
    let mut cache = Cache::new(0);
    cache.register_shards(&vec![0]);
    cache.update(0, &CacheEvent::Ready { guilds: vec![10, 11] }, &ready(0));
    cache.update(0, &CacheEvent::GuildCreate(guild(10, vec![], vec![], vec![])), &ready(0));
    cache.update(0, &CacheEvent::GuildCreate(guild(11, vec![], vec![], vec![])), &ready(0));
    let a = cache.update(0, &chunk(10, vec![1, 2], 0, 1), &ready(0));
    assert_eq!(a, None);
    assert_eq!(cache.missing_per_shard.get(&0), Some(&1));
    let b = cache.update(0, &chunk(11, vec![2, 3], 0, 1), &ready(0));
    assert_eq!(b, Some(CacheAction::SetShardOnline { shard_id: 0 }));
    assert_eq!(mutual(&cache, 1), Some(1));
    assert_eq!(mutual(&cache, 2), Some(2));
    assert_eq!(mutual(&cache, 3), Some(1));
    assert_eq!(cache.stats.users_unique, 3);
    assert_eq!(cache.stats.users_total, 4);
    assert_eq!(cache.stats.guilds_loaded, 2);
    assert_eq!(cache.stats.guilds_partial, 0);
    assert!(!cache.filling);
    assert!(cache.guilds.get(&10).unwrap().complete);
    assert!(cache.shard_cached(0));
    assert!(clean(&cache.audit()));
}

#[test]
fn partial_chunk_keeps_guild_incomplete() {
    let mut cache = Cache::new(0);
    cache.register_shards(&vec![0]);
    cache.update(0, &CacheEvent::GuildCreate(guild(10, vec![], vec![], vec![])), &ready(0));
    let r = cache.update(0, &chunk(10, vec![1, 1, 2], 0, 2), &ready(0));
    assert_eq!(r, None);
    assert!(!cache.guilds.get(&10).unwrap().complete);
    assert_eq!(cache.guilds.get(&10).unwrap().members.len(), 2);
    assert_eq!(mutual(&cache, 1), Some(1));
    assert!(cache.filling);
}

#[test]
fn member_remove_purges_user_without_mutuals() {
    let mut cache = Cache::new(0);
    cache.update(0, &CacheEvent::GuildCreate(guild(10, vec![], vec![], vec![])), &ready(0));
    cache.update(0, &CacheEvent::GuildCreate(guild(11, vec![], vec![], vec![])), &ready(0));
    cache.update(0, &CacheEvent::MemberAdd { guild_id: 10, member: member(5) }, &ready(0));
    cache.update(0, &CacheEvent::MemberAdd { guild_id: 11, member: member(5) }, &ready(0));
    assert_eq!(mutual(&cache, 5), Some(2));
    assert_eq!(cache.guilds.get(&10).unwrap().member_count, 1);
    cache.update(0, &CacheEvent::MemberRemove { guild_id: 10, user: user(5, "x") }, &ready(0));
    assert_eq!(mutual(&cache, 5), Some(1));
    cache.update(0, &CacheEvent::MemberRemove { guild_id: 11, user: user(5, "x") }, &ready(0));
    assert_eq!(mutual(&cache, 5), None);
    assert_eq!(cache.stats.users_unique, 0);
    assert_eq!(cache.stats.users_total, 0);
    assert!(clean(&cache.audit()));
}

#[test]
fn member_add_twice_counts_once() {
    let mut cache = Cache::new(0);
    cache.update(0, &CacheEvent::GuildCreate(guild(10, vec![], vec![], vec![])), &ready(0));
    cache.update(0, &CacheEvent::MemberAdd { guild_id: 10, member: member(5) }, &ready(0));
    cache.update(0, &CacheEvent::MemberAdd { guild_id: 10, member: member(5) }, &ready(0));
    assert_eq!(mutual(&cache, 5), Some(1));
    assert_eq!(cache.stats.users_total, 1);
    assert_eq!(cache.guilds.get(&10).unwrap().member_count, 1);
}

#[test]
fn guild_delete_nukes_and_marks_outage() {
    let mut cache = Cache::new(0);
    cache.update(0, &CacheEvent::GuildCreate(guild(10, vec![100], vec![1], vec![7])), &ready(0));
    cache.update(0, &CacheEvent::MemberAdd { guild_id: 10, member: member(5) }, &ready(0));
    cache.update(0, &CacheEvent::GuildDelete { id: 10, unavailable: true }, &ready(0));
    assert!(cache.guilds.is_empty());
    assert!(cache.guild_channels.is_empty());
    assert!(cache.emoji.is_empty());
    assert!(cache.users.is_empty());
    assert_eq!(cache.unavailable_guilds, vec![10]);
    assert_eq!(cache.stats.guilds_outage, 1);
    assert_eq!(cache.stats.channel_count, 0);
    assert_eq!(cache.stats.role_count, 0);
    assert_eq!(cache.stats.emoji_count, 0);
    assert_eq!(cache.stats.guilds_partial, 0);
    cache.update(0, &CacheEvent::GuildCreate(guild(10, vec![], vec![], vec![])), &ready(0));
    assert!(cache.unavailable_guilds.is_empty());
}

#[test]
fn guild_created_again_after_delete_holds_new_content() {
    let mut cache = Cache::new(0);
    cache.update(0, &CacheEvent::GuildCreate(guild(10, vec![100], vec![], vec![])), &ready(0));
    cache.update(0, &CacheEvent::MemberAdd { guild_id: 10, member: member(5) }, &ready(0));
    cache.update(0, &CacheEvent::GuildDelete { id: 10, unavailable: false }, &ready(0));
    cache.update(0, &CacheEvent::GuildCreate(guild(10, vec![101], vec![], vec![])), &ready(0));
    assert!(cache.users.is_empty());
    assert!(cache.get_channel(100).is_none());
    assert!(cache.get_channel(101).is_some());
    assert_eq!(cache.stats.channel_count, 1);
    assert_eq!(cache.stats.guilds_partial, 1);
}

#[test]
fn ready_clears_cached_guilds_and_counts_missing() {
    let mut cache = Cache::new(0);
    cache.update(0, &CacheEvent::GuildCreate(guild(10, vec![], vec![], vec![])), &ready(0));
    cache.update(0, &CacheEvent::Ready { guilds: vec![10, 12] }, &ready(0));
    assert!(cache.guilds.is_empty());
    assert_eq!(cache.missing_per_shard.get(&0), Some(&2));
    assert!(!cache.shard_cached(0));
    assert!(cache.shard_cached(5));
}

#[test]
fn guild_update_moves_role_count_only() {
    let mut cache = Cache::new(0);
    cache.update(0, &CacheEvent::GuildCreate(guild(10, vec![], vec![1, 2], vec![])), &ready(0));
    let update = PartialGuildData {
        id: 10,
        name: "renamed".to_string(),
        icon: None,
        splash: None,
        discovery_splash: None,
        owner_id: 1,
        region: "europe".to_string(),
        afk_channel_id: None,
        afk_timeout: 300,
        verification_level: VerificationLevel::Low,
        default_message_notifications: DefaultMessageNotificationLevel::All,
        roles: vec![role(1, 0), role(2, 0), role(3, 0)],
        features: vec![],
        max_presences: None,
        max_members: None,
        description: None,
        banner: None,
        premium_tier: PremiumTier::Tier1,
        premium_subscription_count: Some(2),
        preferred_locale: "en-US".to_string(),
    };
    cache.update(0, &CacheEvent::GuildUpdate(update), &ready(0));
    assert_eq!(cache.stats.role_count, 3);
    assert_eq!(cache.guilds.get(&10).unwrap().name, "guild10");
}

#[test]
fn role_events_change_guild_roles() {
    let mut cache = Cache::new(0);
    cache.update(0, &CacheEvent::GuildCreate(guild(10, vec![], vec![], vec![])), &ready(0));
    cache.update(0, &CacheEvent::RoleCreate { guild_id: 10, role: role(3, 8) }, &ready(0));
    assert_eq!(cache.guilds.get(&10).unwrap().roles.get(&3).unwrap().permissions, 8);
    cache.update(0, &CacheEvent::RoleUpdate { guild_id: 10, role: role(3, 4) }, &ready(0));
    assert_eq!(cache.guilds.get(&10).unwrap().roles.get(&3).unwrap().permissions, 4);
    assert_eq!(cache.stats.role_count, 1);
    cache.update(0, &CacheEvent::RoleDelete { guild_id: 10, role_id: 3 }, &ready(0));
    assert!(cache.guilds.get(&10).unwrap().roles.is_empty());
    assert_eq!(cache.stats.role_count, 0);
    cache.update(0, &CacheEvent::RoleDelete { guild_id: 99, role_id: 3 }, &ready(0));
    assert_eq!(cache.stats.role_count, 0);
}

#[test]
fn channel_events_follow_guild_and_private_channels() {
    let mut cache = Cache::new(0);
    cache.update(0, &CacheEvent::GuildCreate(guild(10, vec![], vec![], vec![])), &ready(0));
    cache.update(0, &CacheEvent::ChannelCreate(ChannelData::Guild(text_channel(100, 10))), &ready(0));
    assert_eq!(cache.stats.channel_count, 1);
    assert!(cache.guilds.get(&10).unwrap().channels.contains_key(&100));
    cache.update(0, &CacheEvent::ChannelUpdate(ChannelData::Guild(text_channel(100, 10))), &ready(0));
    assert_eq!(cache.stats.channel_count, 1);
    cache.update(0, &CacheEvent::ChannelDelete(ChannelData::Guild(text_channel(100, 10))), &ready(0));
    assert_eq!(cache.stats.channel_count, 0);
    assert!(cache.get_channel(100).is_none());
    let dm = PrivateChannelData { id: 500, recipients: vec![42] };
    cache.update(0, &CacheEvent::ChannelCreate(ChannelData::Private(dm)), &ready(0));
    assert!(matches!(cache.get_dm_channel_for(42), Some(CachedChannel::DM { id: 500, .. })));
    assert!(cache.get_channel(500).unwrap().is_dm());
    let dm = PrivateChannelData { id: 500, recipients: vec![42] };
    cache.update(0, &CacheEvent::ChannelDelete(ChannelData::Private(dm)), &ready(0));
    assert!(cache.get_dm_channel_for(42).is_none());
    assert!(cache.get_channel(500).is_none());
}

#[test]
fn member_update_asks_for_unknown_member_of_complete_guild() {
    let mut cache = Cache::new(0);
    cache.register_shards(&vec![3]);
    cache.update(3, &CacheEvent::GuildCreate(guild(10, vec![], vec![], vec![])), &ready(3));
    cache.update(3, &chunk(10, vec![1], 0, 1), &ready(3));
    let e = MemberUpdateData {
        guild_id: 10,
        user: user(9, "new"),
        nick: Some("nick".to_string()),
        roles: vec![],
        premium_since: None,
    };
    let r = cache.update(3, &CacheEvent::MemberUpdate(e), &ready(3));
    assert_eq!(r, Some(CacheAction::RequestMember { guild_id: 10, user_id: 9, shard_id: 3 }));
    assert_eq!(mutual(&cache, 9), Some(0));
    let e = MemberUpdateData {
        guild_id: 10,
        user: user(1, "renamed"),
        nick: Some("nick".to_string()),
        roles: vec![4],
        premium_since: None,
    };
    let r = cache.update(3, &CacheEvent::MemberUpdate(e), &ready(3));
    assert_eq!(r, None);
    assert_eq!(cache.users.get(&1).unwrap().username, "renamed");
    assert_eq!(mutual(&cache, 1), Some(1));
    let m = cache.get_member(10, 1).unwrap();
    assert_eq!(m.nickname, Some("nick".to_string()));
    assert_eq!(m.roles, vec![4]);
    assert!(clean(&cache.audit()));
}

#[test]
fn audit_reports_a_wrong_count() {
    let mut cache = Cache::new(0);
    cache.update(0, &CacheEvent::GuildCreate(guild(10, vec![], vec![], vec![])), &ready(0));
    cache.update(0, &CacheEvent::MemberAdd { guild_id: 10, member: member(5) }, &ready(0));
    cache.users.get_mut(&5).unwrap().mutual_servers = 3;
    let audit = cache.audit();
    assert_eq!(audit.mismatches.len(), 1);
    assert_eq!(audit.mismatches[0].user_id, 5);
    assert_eq!(audit.mismatches[0].actual, 1);
    assert_eq!(audit.mismatches[0].counted, 3);
    assert_eq!(audit.report(), "\n 5 is in 1 mutual but thinks they are in 3)");
    assert_eq!(audit.unique_in_cache, 1);
    assert_eq!(audit.total_in_cache, 1);
}

#[test]
fn audit_of_clean_cache_says_all_correct() {
    let mut cache = Cache::new(0);
    cache.update(0, &CacheEvent::GuildCreate(guild(10, vec![], vec![], vec![])), &ready(0));
    cache.update(0, &CacheEvent::MemberAdd { guild_id: 10, member: member(5) }, &ready(0));
    let audit = cache.audit();
    assert_eq!(audit.report(), "All user mutual counts are correct");
    assert_eq!(audit.think_no_servers, 0);
    assert_eq!(audit.no_servers, 0);
}

#[test]
fn cold_resume_round_trip_restores_counts() {
    let mut cache = Cache::new(0);
    cache.update(0, &CacheEvent::GuildCreate(guild(10, vec![100], vec![1], vec![7])), &ready(0));
    cache.update(0, &CacheEvent::GuildCreate(guild(11, vec![101], vec![], vec![])), &ready(0));
    cache.update(0, &chunk(10, vec![1, 2], 0, 1), &ready(0));
    cache.update(0, &chunk(11, vec![2], 0, 1), &ready(0));
    let (guilds, users) = cache.prepare_cold_resume();
    assert_eq!(guilds.len(), 1);
    assert_eq!(guilds[0].len(), 2);
    assert_eq!(users.len(), 1);
    assert_eq!(users[0].len(), 2);
    assert!(users[0].iter().all(|u: &CachedUser| u.mutual_servers == 0));
    assert!(cache.guilds.is_empty() && cache.users.is_empty());

    let mut fresh = Cache::new(0);
    fresh.restore_cold_resume(&users, &guilds);
    assert!(!fresh.filling);
    assert_eq!(mutual(&fresh, 1), Some(1));
    assert_eq!(mutual(&fresh, 2), Some(2));
    assert!(fresh.guilds.get(&10).unwrap().complete);
    assert_eq!(fresh.guilds.get(&10).unwrap().member_count, 2);
    assert_eq!(fresh.stats.users_unique, 2);
    assert_eq!(fresh.stats.users_total, 3);
    assert_eq!(fresh.stats.guilds_loaded, 2);
    assert!(fresh.emoji.contains_key(&7));
    assert!(clean(&fresh.audit()));
}

#[test]
fn frozen_guild_defrosts_to_same_content() {
    let mut cache = Cache::new(0);
    cache.update(0, &CacheEvent::GuildCreate(guild(10, vec![100, 101], vec![1, 2], vec![7, 8])), &ready(0));
    cache.update(0, &CacheEvent::MemberAdd { guild_id: 10, member: member(5) }, &ready(0));
    let g = cache.guilds.get_mut(&10).unwrap();
    let frozen = ColdStorageGuild::from(g);
    assert_eq!(frozen.roles.len(), 2);
    assert_eq!(frozen.channels.len(), 2);
    assert_eq!(frozen.members.len(), 1);
    let emptied = cache.guilds.get(&10).unwrap();
    assert!(emptied.roles.is_empty() && emptied.members.is_empty());
    assert_eq!(emptied.channels.len(), 2);
    let mut users = std::collections::HashMap::new();
    users.insert(5, CachedUser::from_user(&user(5, "someone")));
    users.get_mut(&5).unwrap().mutual_servers = 4;
    let back = gearbot::guild::CachedGuild::defrost(&mut users, &frozen);
    assert_eq!(users.get(&5).unwrap().mutual_servers, 5);
    assert_eq!(back.id, 10);
    assert_eq!(back.roles.len(), 2);
    assert_eq!(back.channels.len(), 2);
    assert_eq!(back.members.len(), 1);
    assert_eq!(back.emoji.len(), 2);
    assert_eq!(back.member_count, 1);
    assert!(back.complete);
}

#[test]
fn reset_empties_the_cache() {
    let mut cache = Cache::new(0);
    cache.update(0, &CacheEvent::GuildCreate(guild(10, vec![100], vec![], vec![])), &ready(0));
    cache.update(0, &CacheEvent::MemberAdd { guild_id: 10, member: member(5) }, &ready(0));
    cache.reset();
    assert!(cache.guilds.is_empty() && cache.users.is_empty() && cache.guild_channels.is_empty());
    assert!(cache.filling);
}
