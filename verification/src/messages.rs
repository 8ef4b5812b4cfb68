//! Stored user messages: their content is kept encrypted with the guild's
//! key, the message id giving the nonce, and read back from the stored row.
use vstd::prelude::*;

use crate::commands::{is_known_kind, kind_of, known_kind, low_byte, message_kind, MessageKind};
use crate::crypto::{
    aes256_gcm_open, aes256_gcm_seal, decrypt_bytes, encrypt_bytes, nonce_bytes, try_decrypt_bytes,
    PLAINTEXT_MAX,
};
use vstd::utf8::{decode_utf8, encode_utf8, valid_utf8};

verus! {

broadcast use vstd::utf8::group_utf8_lib;

/// What `String::from_utf8_lossy` makes of these bytes.
pub uninterp spec fn utf8_lossy(bytes: Seq<u8>) -> Seq<char>;

/// Calls `String::from_utf8_lossy` and takes the owned string. Its
/// documentation says that valid UTF-8 comes back as the string it encodes;
/// what it makes of invalid sequences (each replaced by U+FFFD) is only named.
#[verifier::external_body]
fn string_from_utf8_lossy(bytes: &[u8]) -> (r: String)
    ensures
        r@ == utf8_lossy(bytes@),
        valid_utf8(bytes@) ==> r@ == decode_utf8(bytes@),
{
    String::from_utf8_lossy(bytes).into_owned()
}

/// A stored message row as the database holds it.
pub struct StoredMessage {
    pub id: i64,
    pub content: Vec<u8>,
    pub author: i64,
    pub channel: i64,
    pub guild: i64,
    pub msg_type: i16,
    pub pinned: bool,
}

/// A user message read back from storage, its content decrypted.
pub struct UserMessage {
    pub content: String,
    pub author: u64,
    pub channel: u64,
    pub guild: u64,
    pub msg_type: MessageKind,
    pub pinned: bool,
}

/// The plaintext of a stored row's content under the guild key, if it
/// decrypts.
pub open spec fn stored_plaintext(stored: StoredMessage, guild_key: Seq<u8>) -> Option<Seq<u8>> {
    aes256_gcm_open(guild_key, nonce_bytes(stored.id as u64), stored.content@)
}

/// Whether a stored row can be read back: its kind is known and its content
/// decrypts with the guild key.
pub open spec fn readable(stored: StoredMessage, guild_key: Seq<u8>) -> bool {
    known_kind(low_byte(stored.msg_type)) && stored_plaintext(stored, guild_key) is Some
}

/// The message read back from a readable row, but for its content.
pub open spec fn read_back(stored: StoredMessage, m: UserMessage) -> bool {
    &&& m.author == stored.author as u64
    &&& m.channel == stored.channel as u64
    &&& m.guild == stored.guild as u64
    &&& m.msg_type == kind_of(low_byte(stored.msg_type))
    &&& m.pinned == stored.pinned
}

/// The stored form of a message's content: its UTF-8 bytes encrypted with
/// the guild key, the message id giving the nonce.
pub fn encrypt_message_content(content: &str, guild_key: &[u8], message_id: u64) -> (r: Vec<u8>)
    requires
        guild_key@.len() == 32,
        encode_utf8(content@).len() <= PLAINTEXT_MAX,
    ensures
        r@ == aes256_gcm_seal(guild_key@, nonce_bytes(message_id), encode_utf8(content@)),
        r@.len() == encode_utf8(content@).len() + 16,
        aes256_gcm_open(guild_key@, nonce_bytes(message_id), r@) == Some(encode_utf8(content@)),
{
    encrypt_bytes(content.as_bytes(), guild_key, message_id)
}

/// The row a user message is stored as: its content encrypted with the guild
/// key (the message id giving the nonce), its ids as the database's signed
/// numbers, and its kind's number.
pub fn insert_user_message(
    id: u64,
    content: &str,
    author: u64,
    channel: u64,
    guild: u64,
    msg_type: i16,
    pinned: bool,
    guild_key: &[u8],
) -> (r: StoredMessage)
    requires
        guild_key@.len() == 32,
        encode_utf8(content@).len() <= PLAINTEXT_MAX,
    ensures
        r.id == id as i64,
        r.content@ == aes256_gcm_seal(guild_key@, nonce_bytes(id), encode_utf8(content@)),
        aes256_gcm_open(guild_key@, nonce_bytes(id), r.content@) == Some(encode_utf8(content@)),
        r.author == author as i64,
        r.channel == channel as i64,
        r.guild == guild as i64,
        r.msg_type == msg_type,
        r.pinned == pinned,
{
    StoredMessage {
        id: id as i64,
        content: encrypt_message_content(content, guild_key, id),
        author: author as i64,
        channel: channel as i64,
        guild: guild as i64,
        msg_type,
        pinned,
    }
}

/// Reads a message back from its stored row: its content decrypted with the
/// guild key and read as UTF-8 (invalid sequences replaced), its ids and
/// kind from the row.
pub fn user_message_from(stored: &StoredMessage, guild_key: &[u8]) -> (r: UserMessage)
    requires
        guild_key@.len() == 32,
        readable(*stored, guild_key@),
    ensures
        read_back(*stored, r),
        r.content@ == utf8_lossy(stored_plaintext(*stored, guild_key@)->0),
        valid_utf8(stored_plaintext(*stored, guild_key@)->0) ==> r.content@ == decode_utf8(
            stored_plaintext(*stored, guild_key@)->0,
        ),
{
    let plaintext = decrypt_bytes(stored.content.as_slice(), guild_key, stored.id as u64);
    UserMessage {
        content: string_from_utf8_lossy(plaintext.as_slice()),
        author: stored.author as u64,
        channel: stored.channel as u64,
        guild: stored.guild as u64,
        msg_type: message_kind(stored.msg_type),
        pinned: stored.pinned,
    }
}

/// Reads a message back from its stored row, or nothing when its kind is
/// unknown or its content does not decrypt with the guild key.
pub fn fetch_user_message(stored: &StoredMessage, guild_key: &[u8]) -> (r: Option<UserMessage>)
    requires
        guild_key@.len() == 32,
    ensures
        r is Some <==> readable(*stored, guild_key@),
        r matches Some(m) ==> read_back(*stored, m) && m.content@ == utf8_lossy(
            stored_plaintext(*stored, guild_key@)->0,
        ) && (valid_utf8(stored_plaintext(*stored, guild_key@)->0) ==> m.content@ == decode_utf8(
            stored_plaintext(*stored, guild_key@)->0,
        )),
{
    if !is_known_kind(stored.msg_type) {
        return None;
    }
    match try_decrypt_bytes(stored.content.as_slice(), guild_key, stored.id as u64) {
        Some(_) => Some(user_message_from(stored, guild_key)),
        None => None,
    }
}

/// A number stored as the database's signed number reads back as itself.
proof fn lemma_signed_round_trip(x: u64)
    ensures
        (x as i64) as u64 == x,
{
    assert((x as i64) as u64 == x) by (bit_vector);
}

/// A user message stored with a known kind and read back with the same guild
/// key comes back as it was stored: the same content, ids, kind and pin.
pub proof fn lemma_stored_message_reads_back(
    row: StoredMessage,
    guild_key: Seq<u8>,
    id: u64,
    content: Seq<char>,
    author: u64,
    channel: u64,
    guild: u64,
    msg_type: i16,
    pinned: bool,
    read: UserMessage,
)
    requires
        row.id == id as i64,
        aes256_gcm_open(guild_key, nonce_bytes(id), row.content@) == Some(encode_utf8(content)),
        row.author == author as i64,
        row.channel == channel as i64,
        row.guild == guild as i64,
        row.msg_type == msg_type,
        row.pinned == pinned,
        known_kind(low_byte(msg_type)),
        read_back(row, read),
        valid_utf8(stored_plaintext(row, guild_key)->0) ==> read.content@ == decode_utf8(
            stored_plaintext(row, guild_key)->0,
        ),
    ensures
        readable(row, guild_key),
        read.content@ == content,
        read.author == author,
        read.channel == channel,
        read.guild == guild,
        read.msg_type == kind_of(low_byte(msg_type)),
        read.pinned == pinned,
{
    lemma_signed_round_trip(id);
    lemma_signed_round_trip(author);
    lemma_signed_round_trip(channel);
    lemma_signed_round_trip(guild);
}

} // verus!
