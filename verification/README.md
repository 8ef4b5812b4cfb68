# gearbot

The core of a Discord moderation bot, written in Verus: every function in
`src/` carries a contract that the verifier proves, except the seven
`#[verifier::external_body]` wrappers around outside calls (AES-GCM
encryption and decryption, random bytes and the random coin side, the
webhook link parser, `Permissions::all` and `String::from_utf8_lossy`),
whose contracts are trusted and stated in their doc comments.

- `cache`, `guild`, `channel`, `cached`, `model`, `events`, `keys`: the bot's
  own cache of guilds, channels, members, users and emoji, updated event by
  event. Every event keeps the cache's invariant (guilds under their ids,
  members under their user ids with their users cached, each user counting
  the guilds it shares with the bot).
- `cold`: freezing the cache into chunks before a restart and restoring it;
  a restore of what a freeze handed out gives the same guilds and users.
- `audit`: the consistency report of the cache.
- `access`, `context`, `perms`, `nodes`: Discord permissions in guilds and
  channels, the bot's own command permissions granted by permission groups,
  and the command tree.
- `config`, `crypto`, `messages`: guild configurations, AES-256-GCM
  encryption of stored messages and guild keys.
- `commands`, `prefix`, `changes`, `logging`, `stats`, `shards`, `text`:
  what the commands compute, which messages are commands, member update
  diffs, log batching, counters, shard state and number formatting.

`app/` holds the process around the library: reading the TOML configuration
file, building the command tree, and the JSON form of frozen users.
`tests/` runs the library on concrete values.
