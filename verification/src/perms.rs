//! Permission bit sets.
//!
//! Discord permissions and GearBot's own command permissions are both sets of
//! flags packed into a `u64`. A set contains a group of flags when every bit
//! of the group is set.
use vstd::prelude::*;

verus! {

// Discord permission flags (the bit positions Discord's API assigns).
pub const BAN_MEMBERS: u64 = 0x4;

pub const ADMINISTRATOR: u64 = 0x8;

pub const ADD_REACTIONS: u64 = 0x40;

pub const VIEW_CHANNEL: u64 = 0x400;

pub const SEND_MESSAGES: u64 = 0x800;

pub const EMBED_LINKS: u64 = 0x4000;

pub const ATTACH_FILES: u64 = 0x8000;

pub const READ_MESSAGE_HISTORY: u64 = 0x1_0000;

pub const USE_EXTERNAL_EMOJIS: u64 = 0x4_0000;

/// Every Discord permission flag that the Discord model knows of.
pub const ALL_DISCORD_PERMISSIONS: u64 = 0x001E_7FFF_FFFF_FFFF;

// GearBot's own permission flags.
pub const BOT_ADMIN: u64 = 0x000_001;

pub const BASIC_GROUP: u64 = 0x000_002;

pub const ABOUT_COMMAND: u64 = 0x000_004;

pub const COINFLIP_COMMAND: u64 = 0x000_008;

pub const PING_COMMAND: u64 = 0x000_010;

pub const QUOTE_COMMAND: u64 = 0x000_020;

pub const UID_COMMAND: u64 = 0x000_040;

pub const GUILD_ADMIN_GROUP: u64 = 0x000_080;

pub const CONFIG_COMMAND: u64 = 0x000_100;

pub const READ_CONFIG: u64 = 0x000_200;

pub const WRITE_CONFIG: u64 = 0x000_400;

pub const MODERATION_GROUP: u64 = 0x000_800;

pub const USERINFO_COMMAND: u64 = 0x001_000;

pub const HELP_COMMAND: u64 = 0x002_000;

pub const MISC_GROUP: u64 = 0x004_000;

pub const EMOJI_COMMAND: u64 = 0x008_000;

pub const EMOJI_LIST_COMMAND: u64 = 0x010_000;

/// Every GearBot permission flag.
pub const ALL_GEARBOT_PERMISSIONS: u64 = 0x01F_FFF;

/// `set` holds every flag of `flags`.
pub open spec fn has_all(set: u64, flags: u64) -> bool {
    set & flags == flags
}

/// Whether every flag of `flags` is set in `set`.
pub fn contains(set: u64, flags: u64) -> (r: bool)
    ensures
        r == has_all(set, flags),
{
    set & flags == flags
}

/// The flags of `set` together with those of `flags`.
pub fn insert(set: u64, flags: u64) -> (r: u64)
    ensures
        r == set | flags,
{
    set | flags
}

/// The flags of `set` without those of `flags`.
pub fn remove(set: u64, flags: u64) -> (r: u64)
    ensures
        r == set & !flags,
{
    set & !flags
}

/// Keeps the bits of `bits` that name a GearBot permission, dropping the others
/// (this is how stored permission sets are read back).
pub fn gearbot_from_bits_truncate(bits: u64) -> (r: u64)
    ensures
        r == bits & ALL_GEARBOT_PERMISSIONS,
{
    bits & ALL_GEARBOT_PERMISSIONS
}

/// Every Discord permission, as the Discord model defines them.
pub fn all_discord_permissions() -> (r: u64)
    ensures
        r == ALL_DISCORD_PERMISSIONS,
{
    discord_all_bits()
}

/// Calls `twilight_model::guild::Permissions::all()` and returns its bits.
/// The contract claims the value that the bitflags declaration of that type
/// in twilight-model 0.18 gives: bits 0 to 46 and bits 49 to 52.
#[verifier::external_body]
fn discord_all_bits() -> (r: u64)
    ensures
        r == ALL_DISCORD_PERMISSIONS,
{
    twilight_model::guild::Permissions::all().bits()
}

/// Inserting flags makes them contained.
pub proof fn lemma_insert_contains(set: u64, flags: u64)
    ensures
        has_all(set | flags, flags),
        forall|other: u64| has_all(set, other) ==> has_all(set | flags, other),
{
    assert(((set | flags) & flags) == flags) by (bit_vector);
    assert forall|other: u64| has_all(set, other) implies has_all(set | flags, other) by {
        assert((set & other) == other ==> ((set | flags) & other) == other) by (bit_vector);
    }
}

/// Every Discord permission set is contained in the full set of flags, once
/// restricted to the known flags.
pub proof fn lemma_all_contains_known(flags: u64)
    ensures
        has_all(ALL_DISCORD_PERMISSIONS, flags & ALL_DISCORD_PERMISSIONS),
{
    assert((0x001E_7FFF_FFFF_FFFFu64 & (flags & 0x001E_7FFF_FFFF_FFFFu64)) == (flags
        & 0x001E_7FFF_FFFF_FFFFu64)) by (bit_vector);
}

} // verus!
