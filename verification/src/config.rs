//! Guild configuration and the bot's own configuration.
use std::collections::HashMap;
use vstd::prelude::*;
use vstd::string::StringExecFns;

use crate::model::opt_string_view;
use crate::perms::{
    ADMINISTRATOR, BAN_MEMBERS, BASIC_GROUP, EMOJI_LIST_COMMAND, GUILD_ADMIN_GROUP, MISC_GROUP,
    MODERATION_GROUP, READ_CONFIG,
};

verus! {

/// A group of members that the guild grants and denies command permissions:
/// members with the Discord permissions, the roles (all of them, or any,
/// after `needs_all`), or listed by id.
pub struct PermissionGroup {
    pub priority: u8,
    pub name: String,
    pub granted_perms: u64,
    pub denied_perms: u64,
    pub discord_perms: Option<u64>,
    pub roles: Vec<u64>,
    pub needs_all: bool,
    pub users: Vec<u64>,
}

/// Which messages the guild logs.
pub struct MessageLogs {
    pub enabled: bool,
    pub ignored_users: Vec<u64>,
    pub ignored_channels: Vec<u64>,
    pub ignore_bots: bool,
}

/// How logs are written.
#[derive(Clone, Copy, Debug, PartialEq, Eq, Structural)]
pub enum LogStyle {
    Text,
    Embed,
}

/// The categories of logs.
#[derive(Clone, Copy, Debug, PartialEq, Eq, Structural)]
pub enum LogCategory {
    TEST,
}

/// What one log channel receives: the categories, the log keys it turns
/// off, how it writes them and what it filters out.
pub struct LogChannelConfig {
    pub categories: Vec<LogCategory>,
    pub disabled_keys: Vec<String>,
    pub style: LogStyle,
    pub filters: Vec<String>,
}

/// A guild's configuration. `language` is the language tag of the guild's
/// translations.
pub struct GuildConfig {
    pub prefix: String,
    pub log_style: LogStyle,
    pub message_logs: MessageLogs,
    pub language: String,
    pub permission_groups: Vec<PermissionGroup>,
    pub log_channels: Vec<(u64, LogChannelConfig)>,
}

/// The language a guild starts with.
pub open spec fn default_language() -> Seq<char> {
    "en_US"@
}

/// A permission group of the default configuration: no roles, no users,
/// nothing denied, matched by the Discord permissions only.
pub open spec fn is_default_group(
    g: PermissionGroup,
    priority: u8,
    name: Seq<char>,
    granted: u64,
    discord: u64,
) -> bool {
    &&& g.priority == priority
    &&& g.name@ == name
    &&& g.granted_perms == granted
    &&& g.denied_perms == 0
    &&& g.discord_perms == Some(discord)
    &&& g.roles@.len() == 0
    &&& !g.needs_all
    &&& g.users@.len() == 0
}

/// The configuration a guild starts with: prefix `!`, text logs, message
/// logs off (ignoring bots), and three permission groups: all members,
/// moderators (those who can ban) and administrators.
pub open spec fn is_default_config(c: GuildConfig) -> bool {
    &&& c.prefix@ == "!"@
    &&& c.log_style == LogStyle::Text
    &&& !c.message_logs.enabled
    &&& c.message_logs.ignored_users@.len() == 0
    &&& c.message_logs.ignored_channels@.len() == 0
    &&& c.message_logs.ignore_bots
    &&& c.language@ == default_language()
    &&& c.permission_groups@.len() == 3
    &&& is_default_group(
        c.permission_groups@[0],
        0,
        "All members"@,
        BASIC_GROUP | EMOJI_LIST_COMMAND,
        0,
    )
    &&& is_default_group(
        c.permission_groups@[1],
        25,
        "Moderators"@,
        BASIC_GROUP | EMOJI_LIST_COMMAND | MODERATION_GROUP | READ_CONFIG,
        BAN_MEMBERS,
    )
    &&& is_default_group(
        c.permission_groups@[2],
        50,
        "Administrators"@,
        BASIC_GROUP | MODERATION_GROUP | MISC_GROUP | GUILD_ADMIN_GROUP,
        ADMINISTRATOR,
    )
    &&& c.log_channels@.len() == 0
}

fn default_group(priority: u8, name: &str, granted: u64, discord: u64) -> (r: PermissionGroup)
    ensures
        is_default_group(r, priority, name@, granted, discord),
{
    PermissionGroup {
        priority,
        name: String::from_str(name),
        granted_perms: granted,
        denied_perms: 0,
        discord_perms: Some(discord),
        roles: Vec::new(),
        needs_all: false,
        users: Vec::new(),
    }
}

impl Default for GuildConfig {
    fn default() -> (r: GuildConfig)
        ensures
            is_default_config(r),
    {
        let mut groups: Vec<PermissionGroup> = Vec::new();
        groups.push(default_group(0, "All members", BASIC_GROUP | EMOJI_LIST_COMMAND, 0));
        groups.push(
            default_group(
                25,
                "Moderators",
                BASIC_GROUP | EMOJI_LIST_COMMAND | MODERATION_GROUP | READ_CONFIG,
                BAN_MEMBERS,
            ),
        );
        groups.push(
            default_group(
                50,
                "Administrators",
                BASIC_GROUP | MODERATION_GROUP | MISC_GROUP | GUILD_ADMIN_GROUP,
                ADMINISTRATOR,
            ),
        );
        GuildConfig {
            prefix: String::from_str("!"),
            log_style: LogStyle::Text,
            message_logs: MessageLogs {
                enabled: false,
                ignored_users: Vec::new(),
                ignored_channels: Vec::new(),
                ignore_bots: true,
            },
            language: String::from_str("en_US"),
            permission_groups: groups,
            log_channels: Vec::new(),
        }
    }
}

/// Whether the list holds the id.
pub fn contains_id(ids: &Vec<u64>, id: u64) -> (r: bool)
    ensures
        r == ids@.contains(id),
{
    let mut i: usize = 0;
    while i < ids.len()
        invariant
            i <= ids.len(),
            forall|j: int| 0 <= j < i ==> ids@[j] != id,
        decreases ids.len() - i,
    {
        if ids[i] == id {
            assert(ids@[i as int] == id);
            return true;
        }
        i = i + 1;
    }
    false
}

impl MessageLogs {
    /// A message by this author is logged when message logs are on, the
    /// author is not ignored, and it is not a bot while bots are ignored.
    pub fn should_log(&self, author_id: u64, author_is_bot: bool) -> (r: bool)
        ensures
            r == (self.enabled && !self.ignored_users@.contains(author_id) && !(self.ignore_bots
                && author_is_bot)),
    {
        self.enabled && !contains_id(&self.ignored_users, author_id) && !(self.ignore_bots
            && author_is_bot)
    }
}

/// The bot's tokens.
pub struct Tokens {
    pub discord: String,
}

/// Where the bot's databases are.
pub struct Database {
    pub postgres: String,
    pub redis: String,
}

/// The webhooks the bot logs to: one for important events, one for the rest.
pub struct Logging {
    pub important_logs: WebhookComponents,
    pub info_logs: WebhookComponents,
}

/// The bot's configuration: the key that encrypts guild keys, its token,
/// where it logs, its databases, emoji overrides by name, the users who
/// administer the bot everywhere, and the proxy it talks to Discord through.
pub struct BotConfig {
    pub main_encryption_key: Vec<u8>,
    pub tokens: Tokens,
    pub logging: Logging,
    pub database: Database,
    pub emoji: Vec<(String, String)>,
    pub global_admins: Vec<u64>,
    pub proxy_url: Option<String>,
}

/// The id and token of a webhook the bot logs to.
pub struct WebhookComponents {
    pub id: u64,
    pub token: String,
}

/// Why the bot could not start.
#[derive(Clone, Copy, Debug, PartialEq, Eq, Structural)]
pub enum StartupError {
    NoConfig,
    InvalidConfig,
    NoLoggingSpec,
}

/// What the webhook link parser reads out of a link: the webhook's id and,
/// when the link has one, its token; nothing when the link is no webhook
/// link.
pub uninterp spec fn webhook_link_parts(url: Seq<char>) -> Option<(u64, Option<Seq<char>>)>;

/// The view of what the webhook link parser returns.
pub open spec fn parts_view(parts: Option<(u64, Option<String>)>) -> Option<(u64, Option<Seq<char>>)> {
    match parts {
        Some((id, token)) => Some((id, opt_string_view(token))),
        None => None,
    }
}

/// Calls `twilight_util::link::webhook::parse` on the link and hands back the
/// webhook id and the token, if any, or nothing when the parser fails. The
/// contract names the result, which depends on the link alone, and claims
/// what the parser's source shows of every success: the id parsed as a
/// nonzero number, and an empty token segment taken as no token.
#[verifier::external_body]
fn parse_webhook_link(url: &str) -> (r: Option<(u64, Option<String>)>)
    ensures
        parts_view(r) == webhook_link_parts(url@),
        r matches Some((id, token)) ==> id != 0 && (token matches Some(t) ==> t@.len() > 0),
{
    match twilight_util::link::webhook::parse(url) {
        Ok((id, token)) => Some((id.get(), token.map(|t| t.to_string()))),
        Err(_) => None,
    }
}

impl WebhookComponents {
    /// The webhook of parsed link parts: the link must parse and carry a
    /// token.
    pub fn from_parts(parts: Option<(u64, Option<String>)>) -> (r: Result<WebhookComponents, StartupError>)
        ensures
            match parts {
                Some((id, Some(token))) => r matches Ok(w) && w.id == id && w.token == token,
                _ => r == Err::<WebhookComponents, StartupError>(StartupError::InvalidConfig),
            },
    {
        match parts {
            Some((id, Some(token))) => Ok(WebhookComponents { id, token }),
            _ => Err(StartupError::InvalidConfig),
        }
    }

    /// The webhook of a webhook link; a link that does not parse or has no
    /// token is an invalid configuration.
    pub fn try_from(url: &str) -> (r: Result<WebhookComponents, StartupError>)
        ensures
            match webhook_link_parts(url@) {
                Some((id, Some(token))) => r matches Ok(w) && w.id == id && w.token@ == token,
                _ => r == Err::<WebhookComponents, StartupError>(StartupError::InvalidConfig),
            },
            r matches Ok(w) ==> w.id != 0 && w.token@.len() > 0,
    {
        let parts = parse_webhook_link(url);
        WebhookComponents::from_parts(parts)
    }
}

/// The guild configurations the bot has loaded, by guild id.
pub struct ConfigStore {
    pub configs: HashMap<u64, GuildConfig>,
}

impl ConfigStore {
    /// A store with no configuration loaded.
    pub fn new() -> (r: ConfigStore)
        ensures
            r.configs@ == Map::<u64, GuildConfig>::empty(),
    {
        ConfigStore { configs: HashMap::new() }
    }

    /// The loaded configuration of a guild, if any.
    pub fn get_config(&self, guild_id: u64) -> (r: Option<&GuildConfig>)
        ensures
            match r {
                Some(config) => self.configs@.contains_key(guild_id) && *config
                    == self.configs@[guild_id],
                None => !self.configs@.contains_key(guild_id),
            },
    {
        broadcast use vstd::std_specs::hash::group_hash_axioms;

        self.configs.get(&guild_id)
    }

    /// Puts a guild's configuration in place of the one it had.
    pub fn set_config(&mut self, guild_id: u64, config: GuildConfig)
        ensures
            final(self).configs@ == old(self).configs@.insert(guild_id, config),
    {
        broadcast use vstd::std_specs::hash::group_hash_axioms;

        self.configs.insert(guild_id, config);
    }
}

/// After a guild's configuration is set, reading it gives the configuration
/// set, and every other guild's configuration is what it was.
pub proof fn lemma_config_read_after_write(
    before: Map<u64, GuildConfig>,
    after: Map<u64, GuildConfig>,
    guild_id: u64,
    config: GuildConfig,
    other: u64,
)
    requires
        after == before.insert(guild_id, config),
    ensures
        after.contains_key(guild_id) && after[guild_id] == config,
        other != guild_id ==> (after.contains_key(other) == before.contains_key(other) && (
        before.contains_key(other) ==> after[other] == before[other])),
{
}

} // verus!
