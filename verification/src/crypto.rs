//! Encryption of stored messages and of guild keys with AES-256-GCM. The nonce
//! of a message is its id: Discord ids never repeat, so nonces never do.
use aes_gcm::aead::generic_array::GenericArray;
use aes_gcm::aead::{Aead, NewAead};
use rand::RngCore;
use vstd::prelude::*;

verus! {

/// The longest plaintext AES-GCM encrypts: 2^36 bytes.
pub const PLAINTEXT_MAX: u64 = 0x10_0000_0000;

/// What AES-256-GCM encryption with this key and nonce makes of the
/// plaintext (no associated data).
pub uninterp spec fn aes256_gcm_seal(key: Seq<u8>, nonce: Seq<u8>, plaintext: Seq<u8>) -> Seq<u8>;

/// What AES-256-GCM decryption with this key and nonce makes of the
/// ciphertext (no associated data): nothing when it does not authenticate.
pub uninterp spec fn aes256_gcm_open(key: Seq<u8>, nonce: Seq<u8>, ciphertext: Seq<u8>) -> Option<
    Seq<u8>,
>;

/// The view of an optional byte list.
pub open spec fn opt_bytes(v: Option<Vec<u8>>) -> Option<Seq<u8>> {
    match v {
        Some(b) => Some(b@),
        None => None,
    }
}

/// Calls `encrypt` of `aes_gcm::Aes256Gcm` (made with `NewAead::new` from the
/// key) with the nonce and the plaintext. aes-gcm refuses only a plaintext
/// longer than 2^36 bytes; the ciphertext is the plaintext's length plus a
/// 16-byte tag, and decrypting it with the same key and nonce gives the
/// plaintext back (counter mode applies the same key stream both ways, and
/// the tag is computed over the same ciphertext).
#[verifier::external_body]
fn aes_seal(key: &[u8], nonce: &[u8], plaintext: &[u8]) -> (r: Option<Vec<u8>>)
    requires
        key@.len() == 32,
        nonce@.len() == 12,
    ensures
        r is Some <==> plaintext@.len() <= PLAINTEXT_MAX,
        r matches Some(c) ==> c@ == aes256_gcm_seal(key@, nonce@, plaintext@),
        r matches Some(c) ==> c@.len() == plaintext@.len() + 16,
        r matches Some(c) ==> aes256_gcm_open(key@, nonce@, c@) == Some(plaintext@),
{
    let cipher = aes_gcm::Aes256Gcm::new(GenericArray::from_slice(key));
    match cipher.encrypt(GenericArray::from_slice(nonce), plaintext) {
        Ok(c) => Some(c),
        Err(_) => None,
    }
}

/// Calls `decrypt` of `aes_gcm::Aes256Gcm` (made with `NewAead::new` from the
/// key) with the nonce and the ciphertext; nothing when it fails.
#[verifier::external_body]
fn aes_open(key: &[u8], nonce: &[u8], ciphertext: &[u8]) -> (r: Option<Vec<u8>>)
    requires
        key@.len() == 32,
        nonce@.len() == 12,
    ensures
        opt_bytes(r) == aes256_gcm_open(key@, nonce@, ciphertext@),
{
    let cipher = aes_gcm::Aes256Gcm::new(GenericArray::from_slice(key));
    match cipher.decrypt(GenericArray::from_slice(nonce), ciphertext) {
        Ok(p) => Some(p),
        Err(_) => None,
    }
}

/// Fills a 32-byte key from `rand::thread_rng()` (with `RngCore::fill_bytes`).
/// The bytes are random: only their number is claimed.
#[verifier::external_body]
fn random_key() -> (r: Vec<u8>)
    ensures
        r@.len() == 32,
{
    let mut key = [0u8; 32];
    rand::thread_rng().fill_bytes(&mut key);
    key.to_vec()
}

/// Byte `k` of the number, least significant first.
pub open spec fn le_byte(id: u64, k: nat) -> u8 {
    ((id >> (8 * k)) & 0xff) as u8
}

/// The nonce of an id: its eight bytes, least significant first, then four
/// zero bytes.
pub open spec fn nonce_bytes(id: u64) -> Seq<u8> {
    Seq::new(12, |i: int| if i < 8 { le_byte(id, i as nat) } else { 0u8 })
}

/// The nonce of an id.
pub fn nonce_for(id: u64) -> (r: Vec<u8>)
    ensures
        r@ == nonce_bytes(id),
{
    let mut out: Vec<u8> = Vec::new();
    let mut k: u64 = 0;
    while k < 8
        invariant
            k <= 8,
            out@.len() == k,
            forall|i: int| 0 <= i < k ==> out@[i] == le_byte(id, i as nat),
        decreases 8 - k,
    {
        out.push(((id >> (8 * k)) & 0xff) as u8);
        k = k + 1;
    }
    while k < 12
        invariant
            8 <= k <= 12,
            out@.len() == k,
            forall|i: int| 0 <= i < 8 ==> out@[i] == le_byte(id, i as nat),
            forall|i: int| 8 <= i < k ==> out@[i] == 0u8,
        decreases 12 - k,
    {
        out.push(0u8);
        k = k + 1;
    }
    assert(out@ =~= nonce_bytes(id));
    out
}

/// Encrypts bytes with the key, the id giving the nonce. The ciphertext
/// decrypts back to the plaintext with the same key and id.
pub fn encrypt_bytes(plaintext: &[u8], key: &[u8], id: u64) -> (r: Vec<u8>)
    requires
        key@.len() == 32,
        plaintext@.len() <= PLAINTEXT_MAX,
    ensures
        r@ == aes256_gcm_seal(key@, nonce_bytes(id), plaintext@),
        r@.len() == plaintext@.len() + 16,
        aes256_gcm_open(key@, nonce_bytes(id), r@) == Some(plaintext@),
{
    let nonce = nonce_for(id);
    match aes_seal(key, nonce.as_slice(), plaintext) {
        Some(c) => c,
        None => Vec::new(),
    }
}

/// Decrypts bytes that encryption with the key and id made.
pub fn decrypt_bytes(ciphertext: &[u8], key: &[u8], id: u64) -> (r: Vec<u8>)
    requires
        key@.len() == 32,
        aes256_gcm_open(key@, nonce_bytes(id), ciphertext@) is Some,
    ensures
        Some(r@) == aes256_gcm_open(key@, nonce_bytes(id), ciphertext@),
{
    let nonce = nonce_for(id);
    match aes_open(key, nonce.as_slice(), ciphertext) {
        Some(p) => p,
        None => Vec::new(),
    }
}

/// Decrypts bytes, or tells that they do not decrypt with this key and id.
pub fn try_decrypt_bytes(ciphertext: &[u8], key: &[u8], id: u64) -> (r: Option<Vec<u8>>)
    requires
        key@.len() == 32,
    ensures
        opt_bytes(r) == aes256_gcm_open(key@, nonce_bytes(id), ciphertext@),
{
    let nonce = nonce_for(id);
    aes_open(key, nonce.as_slice(), ciphertext)
}

/// A new guild key, encrypted with the master key and the guild's id: 32
/// random bytes that decrypt back from the result.
pub fn generate_guild_key(master_key: &[u8], guild_id: u64) -> (r: Vec<u8>)
    requires
        master_key@.len() == 32,
    ensures
        exists|key: Seq<u8>|
            key.len() == 32 && r@ == aes256_gcm_seal(master_key@, nonce_bytes(guild_id), key)
                && #[trigger] aes256_gcm_open(master_key@, nonce_bytes(guild_id), r@) == Some(key),
{
    let key = random_key();
    let r = encrypt_bytes(key.as_slice(), master_key, guild_id);
    assert(key@.len() == 32);
    r
}

/// A guild's key from its stored form: the stored bytes decrypted with the
/// master key and the guild's id; nothing when they do not decrypt or are
/// not a 32-byte key.
pub fn guild_key_from(encrypted: &[u8], master_key: &[u8], guild_id: u64) -> (r: Option<Vec<u8>>)
    requires
        master_key@.len() == 32,
    ensures
        match aes256_gcm_open(master_key@, nonce_bytes(guild_id), encrypted@) {
            Some(key) => if key.len() == 32 {
                r matches Some(k) && k@ == key
            } else {
                r is None
            },
            None => r is None,
        },
{
    match try_decrypt_bytes(encrypted, master_key, guild_id) {
        Some(key) => if key.len() == 32 {
            Some(key)
        } else {
            None
        },
        None => None,
    }
}

/// What `generate_guild_key` stores is always read back by `guild_key_from`
/// with the same master key and guild: it decrypts to a 32-byte key.
pub proof fn lemma_generated_key_reads_back(master_key: Seq<u8>, guild_id: u64, stored: Seq<u8>)
    requires
        exists|key: Seq<u8>|
            key.len() == 32 && stored == aes256_gcm_seal(master_key, nonce_bytes(guild_id), key)
                && #[trigger] aes256_gcm_open(master_key, nonce_bytes(guild_id), stored) == Some(key),
    ensures
        aes256_gcm_open(master_key, nonce_bytes(guild_id), stored) matches Some(k) && k.len() == 32,
{
}

} // verus!
