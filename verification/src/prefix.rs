//! Which messages are commands: a message from a user, in a direct message
//! or in a guild the cache holds completely, that starts with the guild's
//! prefix ("!" in direct messages) or with a mention of the bot.
use vstd::prelude::*;
use vstd::string::{StrSliceExecFns, StringExecFns};

use crate::cache::Cache;
use crate::text::{decimal, u64_to_string};

verus! {

/// The text starts with the prefix.
pub open spec fn starts_with(text: Seq<char>, prefix: Seq<char>) -> bool {
    prefix.len() <= text.len() && text.subrange(0, prefix.len() as int) == prefix
}

/// Whether the text starts with the prefix.
pub fn text_starts_with(text: &str, prefix: &str) -> (r: bool)
    ensures
        r == starts_with(text@, prefix@),
{
    let n = prefix.unicode_len();
    let len = text.unicode_len();
    if n > len {
        return false;
    }
    let mut i: usize = 0;
    while i < n
        invariant
            i <= n,
            n == prefix@.len(),
            len == text@.len(),
            n <= len,
            forall|j: int| 0 <= j < i ==> text@[j] == prefix@[j],
        decreases n - i,
    {
        if text.get_char(i) != prefix.get_char(i) {
            proof {
                assert(text@.subrange(0, n as int)[i as int] != prefix@[i as int]);
            }
            return false;
        }
        i = i + 1;
    }
    proof {
        assert(text@.subrange(0, n as int) =~= prefix@);
    }
    true
}

/// The mention of a user: `<@` and its id.
pub open spec fn mention(id: u64) -> Seq<char> {
    "<@"@ + decimal(id as nat) + ">"@
}

/// The mention of a user by nickname: `<@!` and its id.
pub open spec fn nickname_mention(id: u64) -> Seq<char> {
    "<@!"@ + decimal(id as nat) + ">"@
}

/// The mention of a user.
pub fn user_mention(id: u64) -> (r: String)
    ensures
        r@ == mention(id),
{
    let digits = u64_to_string(id);
    String::from_str("<@").concat(digits.as_str()).concat(">")
}

/// The mention of a user by nickname.
pub fn user_nickname_mention(id: u64) -> (r: String)
    ensures
        r@ == nickname_mention(id),
{
    let digits = u64_to_string(id);
    String::from_str("<@!").concat(digits.as_str()).concat(">")
}

/// The prefix a message uses: the given prefix when the message starts with
/// it, else a mention of the bot, else none.
pub open spec fn prefix_used(content: Seq<char>, prefix: Seq<char>, bot_id: u64) -> Option<Seq<char>> {
    if starts_with(content, prefix) {
        Some(prefix)
    } else if starts_with(content, mention(bot_id)) {
        Some(mention(bot_id))
    } else if starts_with(content, nickname_mention(bot_id)) {
        Some(nickname_mention(bot_id))
    } else {
        None
    }
}

/// The prefix a message uses, if any.
pub fn find_prefix(content: &str, prefix: &str, bot_id: u64) -> (r: Option<String>)
    ensures
        match r {
            Some(p) => prefix_used(content@, prefix@, bot_id) == Some(p@),
            None => prefix_used(content@, prefix@, bot_id) is None,
        },
{
    if text_starts_with(content, prefix) {
        return Some(String::from_str(prefix));
    }
    let m1 = user_mention(bot_id);
    if text_starts_with(content, m1.as_str()) {
        return Some(m1);
    }
    let m2 = user_nickname_mention(bot_id);
    if text_starts_with(content, m2.as_str()) {
        return Some(m2);
    }
    None
}

/// Commands are taken from direct messages, and from guilds the cache holds
/// completely.
pub open spec fn takes_commands(cache: Cache, guild_id: Option<u64>) -> bool {
    match guild_id {
        Some(g) => cache.guilds@.contains_key(g) && cache.guilds@[g].complete,
        None => true,
    }
}

/// Whether commands are taken from a message in this guild (none for a
/// direct message).
pub fn accepts_commands(cache: &Cache, guild_id: Option<u64>) -> (r: bool)
    ensures
        r == takes_commands(*cache, guild_id),
{
    match guild_id {
        Some(g) => match cache.get_guild(g) {
            Some(guild) => guild.complete,
            None => false,
        },
        None => true,
    }
}

/// The prefix of a command message: none for a bot's message or one the
/// cache cannot take commands from; else the prefix it uses, where the
/// prefix of a guild message is the guild's and that of a direct message
/// is "!".
pub fn command_prefix(
    cache: &Cache,
    author_is_bot: bool,
    guild_id: Option<u64>,
    guild_prefix: &str,
    content: &str,
    bot_id: u64,
) -> (r: Option<String>)
    ensures
        author_is_bot || !takes_commands(*cache, guild_id) ==> r is None,
        !author_is_bot && takes_commands(*cache, guild_id) ==> match r {
            Some(p) => prefix_used(
                content@,
                if guild_id is Some {
                    guild_prefix@
                } else {
                    "!"@
                },
                bot_id,
            ) == Some(p@),
            None => prefix_used(
                content@,
                if guild_id is Some {
                    guild_prefix@
                } else {
                    "!"@
                },
                bot_id,
            ) is None,
        },
{
    if author_is_bot || !accepts_commands(cache, guild_id) {
        return None;
    }
    match guild_id {
        Some(_) => find_prefix(content, guild_prefix, bot_id),
        None => find_prefix(content, "!", bot_id),
    }
}

} // verus!
