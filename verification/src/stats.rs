//! The bot's counters: gateway events by kind, messages by sender, and the
//! usage counters of commands, errors and guilds.
use vstd::prelude::*;

use crate::commands::{message_counted, sender_of, MessageCounters};

verus! {

/// The kinds of gateway event the bot counts; every other kind is `Other`.
#[derive(Clone, Copy, Debug, PartialEq, Eq, Structural)]
pub enum GatewayEvent {
    BanAdd,
    BanRemove,
    ChannelCreate,
    ChannelDelete,
    GatewayReconnect,
    ChannelPinsUpdate,
    GuildCreate,
    GuildDelete,
    GuildEmojisUpdate,
    GuildIntegrationsUpdate,
    GuildUpdate,
    InviteCreate,
    InviteDelete,
    MemberAdd,
    MemberRemove,
    MemberUpdate,
    MemberChunk,
    MessageCreate,
    MessageDelete,
    MessageDeleteBulk,
    MessageUpdate,
    PresenceUpdate,
    PresencesReplace,
    ReactionAdd,
    ReactionRemove,
    ReactionRemoveAll,
    ReactionRemoveEmoji,
    RoleCreate,
    RoleDelete,
    RoleUpdate,
    TypingStart,
    UnavailableGuild,
    UserUpdate,
    VoiceServerUpdate,
    VoiceStateUpdate,
    WebhooksUpdate,
    Other,
}

/// One counter per kind of gateway event. They wrap around as the bot's
/// metric counters do.
#[derive(Clone, Copy, Debug, PartialEq, Eq, Structural)]
pub struct EventStats {
    pub ban_add: u64,
    pub ban_remove: u64,
    pub channel_create: u64,
    pub channel_delete: u64,
    pub gateway_reconnect: u64,
    pub channel_pins_update: u64,
    pub guild_create: u64,
    pub guild_delete: u64,
    pub guild_emojis_update: u64,
    pub guild_integrations_update: u64,
    pub guild_update: u64,
    pub invite_create: u64,
    pub invite_delete: u64,
    pub member_add: u64,
    pub member_remove: u64,
    pub member_update: u64,
    pub member_chunk: u64,
    pub message_create: u64,
    pub message_delete: u64,
    pub message_delete_bulk: u64,
    pub message_update: u64,
    pub presence_update: u64,
    pub presences_replace: u64,
    pub reaction_add: u64,
    pub reaction_remove: u64,
    pub reaction_remove_all: u64,
    pub reaction_remove_emoji: u64,
    pub role_create: u64,
    pub role_delete: u64,
    pub role_update: u64,
    pub typing_start: u64,
    pub unavailable_guild: u64,
    pub user_update: u64,
    pub voice_server_update: u64,
    pub voice_state_update: u64,
    pub webhooks_update: u64,
}

impl EventStats {
    /// The counter of this kind of event (none for `Other`).
    pub open spec fn counter(self, event: GatewayEvent) -> Option<u64> {
        match event {
            GatewayEvent::BanAdd => Some(self.ban_add),
            GatewayEvent::BanRemove => Some(self.ban_remove),
            GatewayEvent::ChannelCreate => Some(self.channel_create),
            GatewayEvent::ChannelDelete => Some(self.channel_delete),
            GatewayEvent::GatewayReconnect => Some(self.gateway_reconnect),
            GatewayEvent::ChannelPinsUpdate => Some(self.channel_pins_update),
            GatewayEvent::GuildCreate => Some(self.guild_create),
            GatewayEvent::GuildDelete => Some(self.guild_delete),
            GatewayEvent::GuildEmojisUpdate => Some(self.guild_emojis_update),
            GatewayEvent::GuildIntegrationsUpdate => Some(self.guild_integrations_update),
            GatewayEvent::GuildUpdate => Some(self.guild_update),
            GatewayEvent::InviteCreate => Some(self.invite_create),
            GatewayEvent::InviteDelete => Some(self.invite_delete),
            GatewayEvent::MemberAdd => Some(self.member_add),
            GatewayEvent::MemberRemove => Some(self.member_remove),
            GatewayEvent::MemberUpdate => Some(self.member_update),
            GatewayEvent::MemberChunk => Some(self.member_chunk),
            GatewayEvent::MessageCreate => Some(self.message_create),
            GatewayEvent::MessageDelete => Some(self.message_delete),
            GatewayEvent::MessageDeleteBulk => Some(self.message_delete_bulk),
            GatewayEvent::MessageUpdate => Some(self.message_update),
            GatewayEvent::PresenceUpdate => Some(self.presence_update),
            GatewayEvent::PresencesReplace => Some(self.presences_replace),
            GatewayEvent::ReactionAdd => Some(self.reaction_add),
            GatewayEvent::ReactionRemove => Some(self.reaction_remove),
            GatewayEvent::ReactionRemoveAll => Some(self.reaction_remove_all),
            GatewayEvent::ReactionRemoveEmoji => Some(self.reaction_remove_emoji),
            GatewayEvent::RoleCreate => Some(self.role_create),
            GatewayEvent::RoleDelete => Some(self.role_delete),
            GatewayEvent::RoleUpdate => Some(self.role_update),
            GatewayEvent::TypingStart => Some(self.typing_start),
            GatewayEvent::UnavailableGuild => Some(self.unavailable_guild),
            GatewayEvent::UserUpdate => Some(self.user_update),
            GatewayEvent::VoiceServerUpdate => Some(self.voice_server_update),
            GatewayEvent::VoiceStateUpdate => Some(self.voice_state_update),
            GatewayEvent::WebhooksUpdate => Some(self.webhooks_update),
            GatewayEvent::Other => None,
        }
    }

    /// All counters at zero.
    pub fn new() -> (r: EventStats)
        ensures
            forall|e: GatewayEvent| e != GatewayEvent::Other ==> r.counter(e) == Some(0u64),
    {
        EventStats {
            ban_add: 0,
            ban_remove: 0,
            channel_create: 0,
            channel_delete: 0,
            gateway_reconnect: 0,
            channel_pins_update: 0,
            guild_create: 0,
            guild_delete: 0,
            guild_emojis_update: 0,
            guild_integrations_update: 0,
            guild_update: 0,
            invite_create: 0,
            invite_delete: 0,
            member_add: 0,
            member_remove: 0,
            member_update: 0,
            member_chunk: 0,
            message_create: 0,
            message_delete: 0,
            message_delete_bulk: 0,
            message_update: 0,
            presence_update: 0,
            presences_replace: 0,
            reaction_add: 0,
            reaction_remove: 0,
            reaction_remove_all: 0,
            reaction_remove_emoji: 0,
            role_create: 0,
            role_delete: 0,
            role_update: 0,
            typing_start: 0,
            unavailable_guild: 0,
            user_update: 0,
            voice_server_update: 0,
            voice_state_update: 0,
            webhooks_update: 0,
        }
    }

    /// Counts an event: its kind's counter goes up by one, every other
    /// counter stays; an event of another kind changes nothing.
    pub fn receive_event(&mut self, event: GatewayEvent)
        ensures
            final(self).ban_add == if event == GatewayEvent::BanAdd {
                old(self).ban_add.wrapping_add(1)
            } else {
                old(self).ban_add
            },
            final(self).ban_remove == if event == GatewayEvent::BanRemove {
                old(self).ban_remove.wrapping_add(1)
            } else {
                old(self).ban_remove
            },
            final(self).channel_create == if event == GatewayEvent::ChannelCreate {
                old(self).channel_create.wrapping_add(1)
            } else {
                old(self).channel_create
            },
            final(self).channel_delete == if event == GatewayEvent::ChannelDelete {
                old(self).channel_delete.wrapping_add(1)
            } else {
                old(self).channel_delete
            },
            final(self).gateway_reconnect == if event == GatewayEvent::GatewayReconnect {
                old(self).gateway_reconnect.wrapping_add(1)
            } else {
                old(self).gateway_reconnect
            },
            final(self).channel_pins_update == if event == GatewayEvent::ChannelPinsUpdate {
                old(self).channel_pins_update.wrapping_add(1)
            } else {
                old(self).channel_pins_update
            },
            final(self).guild_create == if event == GatewayEvent::GuildCreate {
                old(self).guild_create.wrapping_add(1)
            } else {
                old(self).guild_create
            },
            final(self).guild_delete == if event == GatewayEvent::GuildDelete {
                old(self).guild_delete.wrapping_add(1)
            } else {
                old(self).guild_delete
            },
            final(self).guild_emojis_update == if event == GatewayEvent::GuildEmojisUpdate {
                old(self).guild_emojis_update.wrapping_add(1)
            } else {
                old(self).guild_emojis_update
            },
            final(self).guild_integrations_update == if event == GatewayEvent::GuildIntegrationsUpdate {
                old(self).guild_integrations_update.wrapping_add(1)
            } else {
                old(self).guild_integrations_update
            },
            final(self).guild_update == if event == GatewayEvent::GuildUpdate {
                old(self).guild_update.wrapping_add(1)
            } else {
                old(self).guild_update
            },
            final(self).invite_create == if event == GatewayEvent::InviteCreate {
                old(self).invite_create.wrapping_add(1)
            } else {
                old(self).invite_create
            },
            final(self).invite_delete == if event == GatewayEvent::InviteDelete {
                old(self).invite_delete.wrapping_add(1)
            } else {
                old(self).invite_delete
            },
            final(self).member_add == if event == GatewayEvent::MemberAdd {
                old(self).member_add.wrapping_add(1)
            } else {
                old(self).member_add
            },
            final(self).member_remove == if event == GatewayEvent::MemberRemove {
                old(self).member_remove.wrapping_add(1)
            } else {
                old(self).member_remove
            },
            final(self).member_update == if event == GatewayEvent::MemberUpdate {
                old(self).member_update.wrapping_add(1)
            } else {
                old(self).member_update
            },
            final(self).member_chunk == if event == GatewayEvent::MemberChunk {
                old(self).member_chunk.wrapping_add(1)
            } else {
                old(self).member_chunk
            },
            final(self).message_create == if event == GatewayEvent::MessageCreate {
                old(self).message_create.wrapping_add(1)
            } else {
                old(self).message_create
            },
            final(self).message_delete == if event == GatewayEvent::MessageDelete {
                old(self).message_delete.wrapping_add(1)
            } else {
                old(self).message_delete
            },
            final(self).message_delete_bulk == if event == GatewayEvent::MessageDeleteBulk {
                old(self).message_delete_bulk.wrapping_add(1)
            } else {
                old(self).message_delete_bulk
            },
            final(self).message_update == if event == GatewayEvent::MessageUpdate {
                old(self).message_update.wrapping_add(1)
            } else {
                old(self).message_update
            },
            final(self).presence_update == if event == GatewayEvent::PresenceUpdate {
                old(self).presence_update.wrapping_add(1)
            } else {
                old(self).presence_update
            },
            final(self).presences_replace == if event == GatewayEvent::PresencesReplace {
                old(self).presences_replace.wrapping_add(1)
            } else {
                old(self).presences_replace
            },
            final(self).reaction_add == if event == GatewayEvent::ReactionAdd {
                old(self).reaction_add.wrapping_add(1)
            } else {
                old(self).reaction_add
            },
            final(self).reaction_remove == if event == GatewayEvent::ReactionRemove {
                old(self).reaction_remove.wrapping_add(1)
            } else {
                old(self).reaction_remove
            },
            final(self).reaction_remove_all == if event == GatewayEvent::ReactionRemoveAll {
                old(self).reaction_remove_all.wrapping_add(1)
            } else {
                old(self).reaction_remove_all
            },
            final(self).reaction_remove_emoji == if event == GatewayEvent::ReactionRemoveEmoji {
                old(self).reaction_remove_emoji.wrapping_add(1)
            } else {
                old(self).reaction_remove_emoji
            },
            final(self).role_create == if event == GatewayEvent::RoleCreate {
                old(self).role_create.wrapping_add(1)
            } else {
                old(self).role_create
            },
            final(self).role_delete == if event == GatewayEvent::RoleDelete {
                old(self).role_delete.wrapping_add(1)
            } else {
                old(self).role_delete
            },
            final(self).role_update == if event == GatewayEvent::RoleUpdate {
                old(self).role_update.wrapping_add(1)
            } else {
                old(self).role_update
            },
            final(self).typing_start == if event == GatewayEvent::TypingStart {
                old(self).typing_start.wrapping_add(1)
            } else {
                old(self).typing_start
            },
            final(self).unavailable_guild == if event == GatewayEvent::UnavailableGuild {
                old(self).unavailable_guild.wrapping_add(1)
            } else {
                old(self).unavailable_guild
            },
            final(self).user_update == if event == GatewayEvent::UserUpdate {
                old(self).user_update.wrapping_add(1)
            } else {
                old(self).user_update
            },
            final(self).voice_server_update == if event == GatewayEvent::VoiceServerUpdate {
                old(self).voice_server_update.wrapping_add(1)
            } else {
                old(self).voice_server_update
            },
            final(self).voice_state_update == if event == GatewayEvent::VoiceStateUpdate {
                old(self).voice_state_update.wrapping_add(1)
            } else {
                old(self).voice_state_update
            },
            final(self).webhooks_update == if event == GatewayEvent::WebhooksUpdate {
                old(self).webhooks_update.wrapping_add(1)
            } else {
                old(self).webhooks_update
            },
            forall|e: GatewayEvent|
                e != event ==> #[trigger] final(self).counter(e) == old(self).counter(e),
            match old(self).counter(event) {
                Some(c) => final(self).counter(event) == Some(c.wrapping_add(1)),
                None => *final(self) == *old(self),
            },
    {
        match event {
            GatewayEvent::BanAdd => {
                self.ban_add = self.ban_add.wrapping_add(1);
            },
            GatewayEvent::BanRemove => {
                self.ban_remove = self.ban_remove.wrapping_add(1);
            },
            GatewayEvent::ChannelCreate => {
                self.channel_create = self.channel_create.wrapping_add(1);
            },
            GatewayEvent::ChannelDelete => {
                self.channel_delete = self.channel_delete.wrapping_add(1);
            },
            GatewayEvent::GatewayReconnect => {
                self.gateway_reconnect = self.gateway_reconnect.wrapping_add(1);
            },
            GatewayEvent::ChannelPinsUpdate => {
                self.channel_pins_update = self.channel_pins_update.wrapping_add(1);
            },
            GatewayEvent::GuildCreate => {
                self.guild_create = self.guild_create.wrapping_add(1);
            },
            GatewayEvent::GuildDelete => {
                self.guild_delete = self.guild_delete.wrapping_add(1);
            },
            GatewayEvent::GuildEmojisUpdate => {
                self.guild_emojis_update = self.guild_emojis_update.wrapping_add(1);
            },
            GatewayEvent::GuildIntegrationsUpdate => {
                self.guild_integrations_update = self.guild_integrations_update.wrapping_add(1);
            },
            GatewayEvent::GuildUpdate => {
                self.guild_update = self.guild_update.wrapping_add(1);
            },
            GatewayEvent::InviteCreate => {
                self.invite_create = self.invite_create.wrapping_add(1);
            },
            GatewayEvent::InviteDelete => {
                self.invite_delete = self.invite_delete.wrapping_add(1);
            },
            GatewayEvent::MemberAdd => {
                self.member_add = self.member_add.wrapping_add(1);
            },
            GatewayEvent::MemberRemove => {
                self.member_remove = self.member_remove.wrapping_add(1);
            },
            GatewayEvent::MemberUpdate => {
                self.member_update = self.member_update.wrapping_add(1);
            },
            GatewayEvent::MemberChunk => {
                self.member_chunk = self.member_chunk.wrapping_add(1);
            },
            GatewayEvent::MessageCreate => {
                self.message_create = self.message_create.wrapping_add(1);
            },
            GatewayEvent::MessageDelete => {
                self.message_delete = self.message_delete.wrapping_add(1);
            },
            GatewayEvent::MessageDeleteBulk => {
                self.message_delete_bulk = self.message_delete_bulk.wrapping_add(1);
            },
            GatewayEvent::MessageUpdate => {
                self.message_update = self.message_update.wrapping_add(1);
            },
            GatewayEvent::PresenceUpdate => {
                self.presence_update = self.presence_update.wrapping_add(1);
            },
            GatewayEvent::PresencesReplace => {
                self.presences_replace = self.presences_replace.wrapping_add(1);
            },
            GatewayEvent::ReactionAdd => {
                self.reaction_add = self.reaction_add.wrapping_add(1);
            },
            GatewayEvent::ReactionRemove => {
                self.reaction_remove = self.reaction_remove.wrapping_add(1);
            },
            GatewayEvent::ReactionRemoveAll => {
                self.reaction_remove_all = self.reaction_remove_all.wrapping_add(1);
            },
            GatewayEvent::ReactionRemoveEmoji => {
                self.reaction_remove_emoji = self.reaction_remove_emoji.wrapping_add(1);
            },
            GatewayEvent::RoleCreate => {
                self.role_create = self.role_create.wrapping_add(1);
            },
            GatewayEvent::RoleDelete => {
                self.role_delete = self.role_delete.wrapping_add(1);
            },
            GatewayEvent::RoleUpdate => {
                self.role_update = self.role_update.wrapping_add(1);
            },
            GatewayEvent::TypingStart => {
                self.typing_start = self.typing_start.wrapping_add(1);
            },
            GatewayEvent::UnavailableGuild => {
                self.unavailable_guild = self.unavailable_guild.wrapping_add(1);
            },
            GatewayEvent::UserUpdate => {
                self.user_update = self.user_update.wrapping_add(1);
            },
            GatewayEvent::VoiceServerUpdate => {
                self.voice_server_update = self.voice_server_update.wrapping_add(1);
            },
            GatewayEvent::VoiceStateUpdate => {
                self.voice_state_update = self.voice_state_update.wrapping_add(1);
            },
            GatewayEvent::WebhooksUpdate => {
                self.webhooks_update = self.webhooks_update.wrapping_add(1);
            },
            GatewayEvent::Other => {},
        }
    }
}

/// The counter of each kind of gateway event is the field named after it,
/// and events of any other kind have none.
pub proof fn lemma_event_counter_is_named_field(s: EventStats)
    ensures
        s.counter(GatewayEvent::BanAdd) == Some(s.ban_add),
        s.counter(GatewayEvent::BanRemove) == Some(s.ban_remove),
        s.counter(GatewayEvent::ChannelCreate) == Some(s.channel_create),
        s.counter(GatewayEvent::ChannelDelete) == Some(s.channel_delete),
        s.counter(GatewayEvent::GatewayReconnect) == Some(s.gateway_reconnect),
        s.counter(GatewayEvent::ChannelPinsUpdate) == Some(s.channel_pins_update),
        s.counter(GatewayEvent::GuildCreate) == Some(s.guild_create),
        s.counter(GatewayEvent::GuildDelete) == Some(s.guild_delete),
        s.counter(GatewayEvent::GuildEmojisUpdate) == Some(s.guild_emojis_update),
        s.counter(GatewayEvent::GuildIntegrationsUpdate) == Some(s.guild_integrations_update),
        s.counter(GatewayEvent::GuildUpdate) == Some(s.guild_update),
        s.counter(GatewayEvent::InviteCreate) == Some(s.invite_create),
        s.counter(GatewayEvent::InviteDelete) == Some(s.invite_delete),
        s.counter(GatewayEvent::MemberAdd) == Some(s.member_add),
        s.counter(GatewayEvent::MemberRemove) == Some(s.member_remove),
        s.counter(GatewayEvent::MemberUpdate) == Some(s.member_update),
        s.counter(GatewayEvent::MemberChunk) == Some(s.member_chunk),
        s.counter(GatewayEvent::MessageCreate) == Some(s.message_create),
        s.counter(GatewayEvent::MessageDelete) == Some(s.message_delete),
        s.counter(GatewayEvent::MessageDeleteBulk) == Some(s.message_delete_bulk),
        s.counter(GatewayEvent::MessageUpdate) == Some(s.message_update),
        s.counter(GatewayEvent::PresenceUpdate) == Some(s.presence_update),
        s.counter(GatewayEvent::PresencesReplace) == Some(s.presences_replace),
        s.counter(GatewayEvent::ReactionAdd) == Some(s.reaction_add),
        s.counter(GatewayEvent::ReactionRemove) == Some(s.reaction_remove),
        s.counter(GatewayEvent::ReactionRemoveAll) == Some(s.reaction_remove_all),
        s.counter(GatewayEvent::ReactionRemoveEmoji) == Some(s.reaction_remove_emoji),
        s.counter(GatewayEvent::RoleCreate) == Some(s.role_create),
        s.counter(GatewayEvent::RoleDelete) == Some(s.role_delete),
        s.counter(GatewayEvent::RoleUpdate) == Some(s.role_update),
        s.counter(GatewayEvent::TypingStart) == Some(s.typing_start),
        s.counter(GatewayEvent::UnavailableGuild) == Some(s.unavailable_guild),
        s.counter(GatewayEvent::UserUpdate) == Some(s.user_update),
        s.counter(GatewayEvent::VoiceServerUpdate) == Some(s.voice_server_update),
        s.counter(GatewayEvent::VoiceStateUpdate) == Some(s.voice_state_update),
        s.counter(GatewayEvent::WebhooksUpdate) == Some(s.webhooks_update),
        s.counter(GatewayEvent::Other) is None,
{
}

/// The bot's statistics: gateway events by kind, messages by sender, and
/// counts of errors, commands run and guilds. Every counter wraps around as
/// the bot's metric counters do.
pub struct BotStats {
    pub cluster_id: u64,
    pub event_counts: EventStats,
    pub message_counts: MessageCounters,
    pub error_count: u64,
    pub commands_ran: u64,
    pub custom_commands_ran: u64,
    pub guilds: u64,
}

impl BotStats {
    /// Statistics of a cluster with every counter at zero.
    pub fn new(cluster_id: u64) -> (r: BotStats)
        ensures
            r.cluster_id == cluster_id,
            forall|e: GatewayEvent|
                e != GatewayEvent::Other ==> r.event_counts.counter(e) == Some(0u64),
            r.message_counts == (MessageCounters {
                user_messages: 0,
                other_bot_messages: 0,
                own_messages: 0,
                webhook_messages: 0,
            }),
            r.error_count == 0,
            r.commands_ran == 0,
            r.custom_commands_ran == 0,
            r.guilds == 0,
    {
        BotStats {
            cluster_id,
            event_counts: EventStats::new(),
            message_counts: MessageCounters {
                user_messages: 0,
                other_bot_messages: 0,
                own_messages: 0,
                webhook_messages: 0,
            },
            error_count: 0,
            commands_ran: 0,
            custom_commands_ran: 0,
            guilds: 0,
        }
    }

    /// Counts a gateway event by its kind; every other counter stays.
    pub fn receive_event(&mut self, event: GatewayEvent)
        ensures
            *final(self) == (BotStats { event_counts: final(self).event_counts, ..*old(self) }),
            forall|e: GatewayEvent|
                e != event ==> #[trigger] final(self).event_counts.counter(e) == old(
                    self,
                ).event_counts.counter(e),
            match old(self).event_counts.counter(event) {
                Some(c) => final(self).event_counts.counter(event) == Some(c.wrapping_add(1)),
                None => final(self).event_counts == old(self).event_counts,
            },
    {
        self.event_counts.receive_event(event);
    }

    /// Counts a new message by its sender; nothing else changes.
    pub fn new_message(&mut self, author_is_bot: bool, is_own: bool, has_webhook: bool)
        ensures
            *final(self) == (BotStats {
                message_counts: message_counted(
                    old(self).message_counts,
                    sender_of(author_is_bot, is_own, has_webhook),
                ),
                ..*old(self)
            }),
    {
        self.message_counts.new_message(author_is_bot, is_own, has_webhook);
    }

    /// Counts an error.
    pub fn had_error(&mut self)
        ensures
            *final(self) == (BotStats { error_count: old(self).error_count.wrapping_add(1), ..*old(self) }),
    {
        self.error_count = self.error_count.wrapping_add(1);
    }

    /// Counts a guild the bot joined.
    pub fn new_guild(&mut self)
        ensures
            *final(self) == (BotStats { guilds: old(self).guilds.wrapping_add(1), ..*old(self) }),
    {
        self.guilds = self.guilds.wrapping_add(1);
    }

    /// Counts a guild the bot left.
    pub fn left_guild(&mut self)
        ensures
            *final(self) == (BotStats { guilds: old(self).guilds.wrapping_sub(1), ..*old(self) }),
    {
        self.guilds = self.guilds.wrapping_sub(1);
    }

    /// Counts a command run: a custom command or a built-in one.
    pub fn command_used(&mut self, is_custom: bool)
        ensures
            *final(self) == if is_custom {
                (BotStats {
                    custom_commands_ran: old(self).custom_commands_ran.wrapping_add(1),
                    ..*old(self)
                })
            } else {
                (BotStats { commands_ran: old(self).commands_ran.wrapping_add(1), ..*old(self) })
            },
    {
        if !is_custom {
            self.commands_ran = self.commands_ran.wrapping_add(1);
        } else {
            self.custom_commands_ran = self.custom_commands_ran.wrapping_add(1);
        }
    }
}

} // verus!
