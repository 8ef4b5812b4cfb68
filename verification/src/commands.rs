//! What the bot's commands work out before they answer: badges and roles for
//! user info, channel counts for server info, the coin flip, latencies, and
//! the kinds of stored messages and of message senders.
use vstd::prelude::*;
use vstd::string::StringExecFns;

use crate::channel::{variant_of, CachedChannel};
use crate::guild::CachedGuild;
use crate::keys::map_keys;
use crate::model::ChannelType;
use crate::text::{decimal, u64_to_string};

verus! {

broadcast use {vstd::std_specs::hash::group_hash_axioms, vstd::seq_lib::seq_to_set_is_finite};

// Discord user flags.
pub const STAFF: u64 = 1;

pub const PARTNER: u64 = 0x2;

pub const HYPESQUAD: u64 = 0x4;

pub const BUG_HUNTER_LEVEL_1: u64 = 0x8;

pub const HOUSE_BRAVERY: u64 = 0x40;

pub const HOUSE_BRILLIANCE: u64 = 0x80;

pub const HOUSE_BALANCE: u64 = 0x100;

pub const EARLY_SUPPORTER: u64 = 0x200;

pub const BUG_HUNTER_LEVEL_2: u64 = 0x4000;

pub const VERIFIED_DEVELOPER: u64 = 0x2_0000;

/// A badge shown in user info.
#[derive(Clone, Copy, Debug, PartialEq, Eq, Structural)]
pub enum Badge {
    Staff,
    Partner,
    HypesquadEvents,
    BugHunter,
    Bravery,
    Brilliance,
    Balance,
    BugHunterLevel2,
    VerifiedBotDeveloper,
    EarlySupporter,
}

/// The flag that earns a badge.
pub open spec fn badge_flag(b: Badge) -> u64 {
    match b {
        Badge::Staff => STAFF,
        Badge::Partner => PARTNER,
        Badge::HypesquadEvents => HYPESQUAD,
        Badge::BugHunter => BUG_HUNTER_LEVEL_1,
        Badge::Bravery => HOUSE_BRAVERY,
        Badge::Brilliance => HOUSE_BRILLIANCE,
        Badge::Balance => HOUSE_BALANCE,
        Badge::BugHunterLevel2 => BUG_HUNTER_LEVEL_2,
        Badge::VerifiedBotDeveloper => VERIFIED_DEVELOPER,
        Badge::EarlySupporter => EARLY_SUPPORTER,
    }
}

/// Every badge, in the order user info shows them.
pub open spec fn badge_order() -> Seq<Badge> {
    seq![
        Badge::Staff,
        Badge::Partner,
        Badge::HypesquadEvents,
        Badge::BugHunter,
        Badge::Bravery,
        Badge::Brilliance,
        Badge::Balance,
        Badge::BugHunterLevel2,
        Badge::VerifiedBotDeveloper,
        Badge::EarlySupporter,
    ]
}

/// The badges of a user with these flags, in order.
pub open spec fn user_badges(flags: u64) -> Seq<Badge> {
    badge_order().filter(|b: Badge| flags & badge_flag(b) == badge_flag(b))
}

/// A badge shows among a user's badges exactly when the user's public flags
/// hold its Discord flag: staff 1 << 0, partner 1 << 1, HypeSquad events
/// 1 << 2, bug hunter 1 << 3, Bravery 1 << 6, Brilliance 1 << 7, Balance
/// 1 << 8, early supporter 1 << 9, bug hunter level 2 1 << 14 and verified
/// bot developer 1 << 17.
pub proof fn lemma_badges_follow_flags(flags: u64)
    ensures
        user_badges(flags).contains(Badge::Staff) <==> flags & 0x1 == 0x1,
        user_badges(flags).contains(Badge::Partner) <==> flags & 0x2 == 0x2,
        user_badges(flags).contains(Badge::HypesquadEvents) <==> flags & 0x4 == 0x4,
        user_badges(flags).contains(Badge::BugHunter) <==> flags & 0x8 == 0x8,
        user_badges(flags).contains(Badge::Bravery) <==> flags & 0x40 == 0x40,
        user_badges(flags).contains(Badge::Brilliance) <==> flags & 0x80 == 0x80,
        user_badges(flags).contains(Badge::Balance) <==> flags & 0x100 == 0x100,
        user_badges(flags).contains(Badge::BugHunterLevel2) <==> flags & 0x4000 == 0x4000,
        user_badges(flags).contains(Badge::VerifiedBotDeveloper) <==> flags & 0x2_0000 == 0x2_0000,
        user_badges(flags).contains(Badge::EarlySupporter) <==> flags & 0x200 == 0x200,
{
    lemma_badge_shown(flags, 0);
    lemma_badge_shown(flags, 1);
    lemma_badge_shown(flags, 2);
    lemma_badge_shown(flags, 3);
    lemma_badge_shown(flags, 4);
    lemma_badge_shown(flags, 5);
    lemma_badge_shown(flags, 6);
    lemma_badge_shown(flags, 7);
    lemma_badge_shown(flags, 8);
    lemma_badge_shown(flags, 9);
}

/// The badge at place `i` of the order shows exactly when the flags hold its
/// flag.
proof fn lemma_badge_shown(flags: u64, i: int)
    requires
        0 <= i < 10,
    ensures
        user_badges(flags).contains(badge_order()[i]) <==> flags & badge_flag(badge_order()[i])
            == badge_flag(badge_order()[i]),
{
    let pred = |b: Badge| flags & badge_flag(b) == badge_flag(b);
    let s = badge_order();
    let b = s[i];
    if pred(b) {
        s.lemma_filter_contains(pred, i);
    }
    if s.filter(pred).contains(b) {
        let j = choose|j: int| 0 <= j < s.filter(pred).len() && s.filter(pred)[j] == b;
        s.lemma_filter_pred(pred, j);
    }
}

/// The badges of a user with these flags, in the order user info shows them.
pub fn badges(flags: u64) -> (r: Vec<Badge>)
    ensures
        r@ == user_badges(flags),
{
    let order: Vec<Badge> = vec![
        Badge::Staff,
        Badge::Partner,
        Badge::HypesquadEvents,
        Badge::BugHunter,
        Badge::Bravery,
        Badge::Brilliance,
        Badge::Balance,
        Badge::BugHunterLevel2,
        Badge::VerifiedBotDeveloper,
        Badge::EarlySupporter,
    ];
    assert(order@ == badge_order());
    let mut out: Vec<Badge> = Vec::new();
    let mut i: usize = 0;
    while i < order.len()
        invariant
            i <= order.len(),
            order@ == badge_order(),
            out@ == badge_order().take(i as int).filter(
                |b: Badge| flags & badge_flag(b) == badge_flag(b),
            ),
        decreases order.len() - i,
    {
        let b = order[i];
        let f = flag_of(b);
        if flags & f == f {
            out.push(b);
        }
        proof {
            let p = badge_order().take(i as int);
            assert(badge_order().take(i + 1) == p.push(b));
            p.lemma_filter_push(b, |x: Badge| flags & badge_flag(x) == badge_flag(x));
        }
        i = i + 1;
    }
    proof {
        assert(badge_order().take(10) == badge_order());
    }
    out
}

/// The flag that earns a badge.
pub fn flag_of(b: Badge) -> (r: u64)
    ensures
        r == badge_flag(b),
{
    match b {
        Badge::Staff => STAFF,
        Badge::Partner => PARTNER,
        Badge::HypesquadEvents => HYPESQUAD,
        Badge::BugHunter => BUG_HUNTER_LEVEL_1,
        Badge::Bravery => HOUSE_BRAVERY,
        Badge::Brilliance => HOUSE_BRILLIANCE,
        Badge::Balance => HOUSE_BALANCE,
        Badge::BugHunterLevel2 => BUG_HUNTER_LEVEL_2,
        Badge::VerifiedBotDeveloper => VERIFIED_DEVELOPER,
        Badge::EarlySupporter => EARLY_SUPPORTER,
    }
}

/// The mention of a role.
pub open spec fn role_mention(id: u64) -> Seq<char> {
    "<@&"@ + decimal(id as nat) + ">"@
}

/// The mentions of the listed roles joined by ", ".
pub open spec fn mentions_joined(roles: Seq<u64>) -> Seq<char>
    decreases roles.len(),
{
    if roles.len() == 0 {
        Seq::empty()
    } else if roles.len() == 1 {
        role_mention(roles[0])
    } else {
        mentions_joined(roles.drop_last()) + ", "@ + role_mention(roles.last())
    }
}

/// The roles line of user info: the first four roles mentioned, and when
/// there are four or more, how many there are beyond the first three.
pub open spec fn roles_line(roles: Seq<u64>) -> Seq<char> {
    if roles.len() < 4 {
        mentions_joined(roles)
    } else {
        mentions_joined(roles.take(4)) + " and "@ + decimal((roles.len() - 3) as nat) + " more"@
    }
}

/// The roles line of user info.
pub fn role_mentions(roles: &Vec<u64>) -> (r: String)
    ensures
        r@ == roles_line(roles@),
{
    let mut out = String::from_str("");
    proof {
        reveal_strlit("");
    }
    let mut count: usize = 0;
    while count < roles.len()
        invariant
            count <= roles.len(),
            count <= 3,
            out@ == mentions_joined(roles@.take(count as int)),
        decreases roles.len() - count,
    {
        if count > 0 {
            out = out.concat(", ");
        }
        let id = u64_to_string(roles[count]);
        let out2 = out.concat("<@&");
        let out2 = out2.concat(id.as_str());
        out = out2.concat(">");
        proof {
            assert(roles@.take(count + 1).drop_last() == roles@.take(count as int));
            assert(roles@.take(count + 1).last() == roles@[count as int]);
            if count == 0 {
                assert(roles@.take(1)[0] == roles@[0]);
            }
        }
        if count == 3 {
            assert(roles@.take(4) == roles@.take(count + 1));
            let more = u64_to_string((roles.len() - 3) as u64);
            let out2 = out.concat(" and ");
            let out2 = out2.concat(more.as_str());
            return out2.concat(" more");
        }
        count = count + 1;
    }
    proof {
        assert(roles@.take(count as int) == roles@);
    }
    out
}

/// How many channels of each kind a guild has.
#[derive(Clone, Copy, Debug, PartialEq, Eq, Structural)]
pub struct ChannelCounts {
    pub categories: u64,
    pub text: u64,
    pub voice: u64,
}

/// The channels of the guild of one kind.
pub open spec fn channels_of_kind(g: CachedGuild, kind: ChannelType) -> Set<u64> {
    g.channels@.dom().filter(|k: u64| variant_of(g.channels@[k]) == kind)
}

/// How many categories, text channels and voice channels a guild has.
pub fn channel_counts(guild: &CachedGuild) -> (r: ChannelCounts)
    ensures
        r.categories == channels_of_kind(*guild, ChannelType::GuildCategory).len(),
        r.text == channels_of_kind(*guild, ChannelType::GuildText).len(),
        r.voice == channels_of_kind(*guild, ChannelType::GuildVoice).len(),
{
    let keys = map_keys(&guild.channels);
    let ghost fc = |k: u64| variant_of(guild.channels@[k]) == ChannelType::GuildCategory;
    let ghost ft = |k: u64| variant_of(guild.channels@[k]) == ChannelType::GuildText;
    let ghost fv = |k: u64| variant_of(guild.channels@[k]) == ChannelType::GuildVoice;
    let mut categories: u64 = 0;
    let mut text: u64 = 0;
    let mut voice: u64 = 0;
    let mut i: usize = 0;
    proof {
        assert(keys@.take(0).to_set().filter(fc) =~= Set::<u64>::empty());
        assert(keys@.take(0).to_set().filter(ft) =~= Set::<u64>::empty());
        assert(keys@.take(0).to_set().filter(fv) =~= Set::<u64>::empty());
    }
    while i < keys.len()
        invariant
            i <= keys.len(),
            keys@.to_set() == guild.channels@.dom(),
            keys@.no_duplicates(),
            fc == (|k: u64| variant_of(guild.channels@[k]) == ChannelType::GuildCategory),
            ft == (|k: u64| variant_of(guild.channels@[k]) == ChannelType::GuildText),
            fv == (|k: u64| variant_of(guild.channels@[k]) == ChannelType::GuildVoice),
            categories == keys@.take(i as int).to_set().filter(fc).len(),
            text == keys@.take(i as int).to_set().filter(ft).len(),
            voice == keys@.take(i as int).to_set().filter(fv).len(),
            categories + text + voice <= i,
        decreases keys.len() - i,
    {
        let k = keys[i];
        proof {
            assert(keys@.to_set().contains(keys@[i as int]));
            let p = keys@.take(i as int);
            assert(keys@.take(i + 1) == p.push(k));
            assert(!p.contains(k)) by {
                if p.contains(k) {
                    let j = choose|j: int| 0 <= j < p.len() && p[j] == k;
                    assert(keys@[j] == keys@[i as int]);
                }
            }
            p.lemma_push_to_set_commute(k);
            if fc(k) {
                assert(p.push(k).to_set().filter(fc) =~= p.to_set().filter(fc).insert(k));
            } else {
                assert(p.push(k).to_set().filter(fc) =~= p.to_set().filter(fc));
            }
            if ft(k) {
                assert(p.push(k).to_set().filter(ft) =~= p.to_set().filter(ft).insert(k));
            } else {
                assert(p.push(k).to_set().filter(ft) =~= p.to_set().filter(ft));
            }
            if fv(k) {
                assert(p.push(k).to_set().filter(fv) =~= p.to_set().filter(fv).insert(k));
            } else {
                assert(p.push(k).to_set().filter(fv) =~= p.to_set().filter(fv));
            }
        }
        match guild.channels.get(&k).unwrap() {
            CachedChannel::VoiceChannel { .. } => {
                voice = voice + 1;
            },
            CachedChannel::Category { .. } => {
                categories = categories + 1;
            },
            CachedChannel::TextChannel { .. } => {
                text = text + 1;
            },
            _ => {},
        }
        i = i + 1;
    }
    proof {
        assert(keys@.take(keys.len() as int) == keys@);
    }
    ChannelCounts { categories, text, voice }
}

/// What the coin says.
#[derive(Clone, Copy, Debug, PartialEq, Eq, Structural)]
pub enum CoinflipAnswer {
    Yes,
    No,
}

/// The words after the command, each followed by a space.
pub open spec fn words_after(parts: Seq<String>, i: int) -> Seq<char>
    decreases parts.len() - i,
{
    if i >= parts.len() {
        Seq::empty()
    } else {
        parts[i]@ + " "@ + words_after(parts, i + 1)
    }
}

/// What the coin flip is about: the words after the command, each followed
/// by a space (nothing when there are none).
pub fn coinflip_subject(parts: &Vec<String>) -> (r: String)
    ensures
        r@ == words_after(parts@, 1),
{
    let mut out = String::from_str("");
    proof {
        reveal_strlit("");
    }
    let mut i: usize = 1;
    if parts.len() == 0 {
        return out;
    }
    while i < parts.len()
        invariant
            1 <= i <= parts.len(),
            out@ + words_after(parts@, i as int) == words_after(parts@, 1),
        decreases parts.len() - i,
    {
        let out2 = out.concat(parts[i].as_str());
        out = out2.concat(" ");
        proof {
            assert(out@ + words_after(parts@, i + 1) =~= words_after(parts@, 1));
        }
        i = i + 1;
    }
    out
}

/// The answer the coin gives for a side.
pub fn coinflip_answer(heads: bool) -> (r: CoinflipAnswer)
    ensures
        r == if heads {
            CoinflipAnswer::Yes
        } else {
            CoinflipAnswer::No
        },
{
    if heads {
        CoinflipAnswer::Yes
    } else {
        CoinflipAnswer::No
    }
}

/// Calls `rand::random::<bool>()`: a random side of the coin.
#[verifier::external_body]
fn random_side() -> (r: bool) {
    rand::random::<bool>()
}

/// Flips the coin: yes or no, at random.
pub fn flip_coin() -> (r: CoinflipAnswer)
    ensures
        r == CoinflipAnswer::Yes || r == CoinflipAnswer::No,
{
    coinflip_answer(random_side())
}

/// The sum of the latencies.
pub open spec fn latency_sum(latencies: Seq<u64>) -> nat
    decreases latencies.len(),
{
    if latencies.len() == 0 {
        0
    } else {
        latency_sum(latencies.drop_last()) + (latencies.last() as nat)
    }
}

/// The average latency of the cluster: the shards' latencies added up and
/// divided by the number of shards the cluster runs.
pub fn average_latency(latencies: &Vec<u64>, shards_per_cluster: u64) -> (r: u128)
    requires
        shards_per_cluster > 0,
    ensures
        r == latency_sum(latencies@) / (shards_per_cluster as nat),
{
    let mut sum: u128 = 0;
    let mut i: usize = 0;
    while i < latencies.len()
        invariant
            i <= latencies.len(),
            sum == latency_sum(latencies@.take(i as int)),
            sum <= i * 0xffff_ffff_ffff_ffffu128,
        decreases latencies.len() - i,
    {
        proof {
            assert(latencies@.take(i + 1).drop_last() == latencies@.take(i as int));
            assert((i + 1) * 0xffff_ffff_ffff_ffffu128 == i * 0xffff_ffff_ffff_ffffu128
                + 0xffff_ffff_ffff_ffffu128) by (nonlinear_arith);
            assert(i * 0xffff_ffff_ffff_ffffu128 <= 0xffff_ffff_ffff_ffffu128 * 0xffff_ffff_ffff_ffffu128)
                by (nonlinear_arith)
                requires
                    i <= 0xffff_ffff_ffff_ffffu128,
            ;
        }
        sum = sum + latencies[i] as u128;
        i = i + 1;
    }
    proof {
        assert(latencies@.take(latencies.len() as int) == latencies@);
    }
    sum / (shards_per_cluster as u128)
}

/// The kind of a stored message.
#[derive(Clone, Copy, Debug, PartialEq, Eq, Structural)]
pub enum MessageKind {
    Regular,
    RecipientAdd,
    RecipientRemove,
    Call,
    ChannelNameChange,
    ChannelIconChange,
    ChannelMessagePinned,
    GuildMemberJoin,
    UserPremiumSub,
    UserPremiumSubTier1,
    UserPremiumSubTier2,
    UserPremiumSubTier3,
    ChannelFollowAdd,
    GuildDiscoveryDisqualified,
    GuildDiscoveryRequalified,
}

/// The stored number names a known message kind.
pub open spec fn known_kind(n: u8) -> bool {
    n <= 12 || n == 14 || n == 15
}

/// The message kind a stored number names.
pub open spec fn kind_of(n: u8) -> MessageKind {
    if n == 0 {
        MessageKind::Regular
    } else if n == 1 {
        MessageKind::RecipientAdd
    } else if n == 2 {
        MessageKind::RecipientRemove
    } else if n == 3 {
        MessageKind::Call
    } else if n == 4 {
        MessageKind::ChannelNameChange
    } else if n == 5 {
        MessageKind::ChannelIconChange
    } else if n == 6 {
        MessageKind::ChannelMessagePinned
    } else if n == 7 {
        MessageKind::GuildMemberJoin
    } else if n == 8 {
        MessageKind::UserPremiumSub
    } else if n == 9 {
        MessageKind::UserPremiumSubTier1
    } else if n == 10 {
        MessageKind::UserPremiumSubTier2
    } else if n == 11 {
        MessageKind::UserPremiumSubTier3
    } else if n == 12 {
        MessageKind::ChannelFollowAdd
    } else if n == 14 {
        MessageKind::GuildDiscoveryDisqualified
    } else {
        MessageKind::GuildDiscoveryRequalified
    }
}

/// The low byte of a stored number, which is what names the kind.
pub open spec fn low_byte(raw: i16) -> u8 {
    (raw as int % 256) as u8
}

/// The kind of a stored message, read from the number stored with it (its
/// low byte names the kind).
pub fn message_kind(raw: i16) -> (r: MessageKind)
    requires
        known_kind(low_byte(raw)),
    ensures
        r == kind_of(low_byte(raw)),
{
    let n = low_byte_of(raw);
    if n == 0 {
        MessageKind::Regular
    } else if n == 1 {
        MessageKind::RecipientAdd
    } else if n == 2 {
        MessageKind::RecipientRemove
    } else if n == 3 {
        MessageKind::Call
    } else if n == 4 {
        MessageKind::ChannelNameChange
    } else if n == 5 {
        MessageKind::ChannelIconChange
    } else if n == 6 {
        MessageKind::ChannelMessagePinned
    } else if n == 7 {
        MessageKind::GuildMemberJoin
    } else if n == 8 {
        MessageKind::UserPremiumSub
    } else if n == 9 {
        MessageKind::UserPremiumSubTier1
    } else if n == 10 {
        MessageKind::UserPremiumSubTier2
    } else if n == 11 {
        MessageKind::UserPremiumSubTier3
    } else if n == 12 {
        MessageKind::ChannelFollowAdd
    } else if n == 14 {
        MessageKind::GuildDiscoveryDisqualified
    } else {
        MessageKind::GuildDiscoveryRequalified
    }
}

/// Whether the number stored with a message names a known kind.
pub fn is_known_kind(raw: i16) -> (r: bool)
    ensures
        r == known_kind(low_byte(raw)),
{
    let n = low_byte_of(raw);
    n <= 12 || n == 14 || n == 15
}

/// The low byte of a stored number.
fn low_byte_of(raw: i16) -> (r: u8)
    ensures
        r == low_byte(raw),
{
    let wide: i32 = raw as i32;
    let m: i32 = if wide < 0 {
        wide % 256 + 256
    } else {
        wide % 256
    };
    let m: i32 = if m == 256 {
        0
    } else {
        m
    };
    m as u8
}

/// Who sent a message, as the bot counts messages.
#[derive(Clone, Copy, Debug, PartialEq, Eq, Structural)]
pub enum MessageSender {
    Own,
    Webhook,
    OtherBot,
    User,
}

/// Who sent a message: a bot author is the bot itself, a webhook, or another
/// bot; any other author is a user.
pub open spec fn sender_of(author_is_bot: bool, is_own: bool, has_webhook: bool) -> MessageSender {
    if author_is_bot {
        if is_own {
            MessageSender::Own
        } else if has_webhook {
            MessageSender::Webhook
        } else {
            MessageSender::OtherBot
        }
    } else {
        MessageSender::User
    }
}

/// Who sent a message.
pub fn message_sender(author_is_bot: bool, is_own: bool, has_webhook: bool) -> (r: MessageSender)
    ensures
        r == sender_of(author_is_bot, is_own, has_webhook),
{
    if author_is_bot {
        if is_own {
            MessageSender::Own
        } else if has_webhook {
            MessageSender::Webhook
        } else {
            MessageSender::OtherBot
        }
    } else {
        MessageSender::User
    }
}

/// The message counters, one per kind of sender. They wrap around as the
/// bot's metric counters do.
#[derive(Clone, Copy, Debug, PartialEq, Eq, Structural)]
pub struct MessageCounters {
    pub user_messages: u64,
    pub other_bot_messages: u64,
    pub own_messages: u64,
    pub webhook_messages: u64,
}

/// The counters after one more message from this sender.
pub open spec fn message_counted(counters: MessageCounters, sender: MessageSender) -> MessageCounters {
    match sender {
        MessageSender::Own => MessageCounters {
            own_messages: counters.own_messages.wrapping_add(1),
            ..counters
        },
        MessageSender::Webhook => MessageCounters {
            webhook_messages: counters.webhook_messages.wrapping_add(1),
            ..counters
        },
        MessageSender::OtherBot => MessageCounters {
            other_bot_messages: counters.other_bot_messages.wrapping_add(1),
            ..counters
        },
        MessageSender::User => MessageCounters {
            user_messages: counters.user_messages.wrapping_add(1),
            ..counters
        },
    }
}

impl MessageCounters {
    /// Counts a new message by its sender.
    pub fn new_message(&mut self, author_is_bot: bool, is_own: bool, has_webhook: bool)
        ensures
            *final(self) == message_counted(*old(self), sender_of(author_is_bot, is_own, has_webhook)),
    {
        match message_sender(author_is_bot, is_own, has_webhook) {
            MessageSender::Own => {
                self.own_messages = self.own_messages.wrapping_add(1);
            },
            MessageSender::Webhook => {
                self.webhook_messages = self.webhook_messages.wrapping_add(1);
            },
            MessageSender::OtherBot => {
                self.other_bot_messages = self.other_bot_messages.wrapping_add(1);
            },
            MessageSender::User => {
                self.user_messages = self.user_messages.wrapping_add(1);
            },
        }
    }
}

} // verus!
