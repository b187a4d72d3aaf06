//! Key derivation, the key holder, and the sealing and opening of blobs.
//!
//! A sealed blob is `nonce || ciphertext || tag`: twelve random bytes, then
//! what AES-256-GCM makes of the plaintext under the key and that nonce.

use aes_gcm::aead::rand_core::RngCore;
use aes_gcm::aead::{Aead, KeyInit, OsRng};
use aes_gcm::Aes256Gcm;
use argon2::Argon2;
use rand::{thread_rng, Rng};
use vstd::prelude::*;
use vstd::slice::slice_subrange;
use vstd::string::StringSliceAdditionalSpecFns;
use vstd::utf8::{decode_utf8, encode_utf8, valid_utf8};

use crate::error::{Failure, TasksError, ENCRYPTED_DATA_TOO_SHORT};

verus! {

pub const SALT_SIZE: usize = 16;

pub const ENCRYPTION_KEY_SIZE: usize = 32;

pub const NONCE_SIZE: usize = 12;

/// Length of the authentication tag that ends every sealed blob.
pub const TAG_SIZE: usize = 16;

/// The longest plaintext, in bytes, that AES-GCM seals.
pub const MAX_PLAINTEXT_SIZE: u64 = 0x10_0000_0000;

/// The longest password, in bytes, that Argon2 takes.
pub const MAX_PASSWORD_SIZE: u64 = 0xFFFF_FFFF;

pub type Salt = [u8; SALT_SIZE];

// ---------------------------------------------------------------------
// What the outside crates compute
// ---------------------------------------------------------------------

/// The 32 bytes that Argon2id (version 0x13, 19 MiB, two passes, one lane,
/// no secret, no associated data) derives from a password and a salt.
pub uninterp spec fn argon2id_hash(password: Seq<u8>, salt: Seq<u8>) -> Seq<u8>;

/// Ciphertext and tag that AES-256-GCM makes of a plaintext under a key and
/// a 96-bit nonce, with no associated data.
pub uninterp spec fn aes_256_gcm_seal(key: Seq<u8>, nonce: Seq<u8>, plaintext: Seq<u8>) -> Seq<u8>;

/// What AES-256-GCM recovers from ciphertext and tag under a key and a
/// 96-bit nonce, with no associated data: the plaintext, or nothing where
/// the tag does not fit.
pub uninterp spec fn aes_256_gcm_open(key: Seq<u8>, nonce: Seq<u8>, sealed: Seq<u8>) -> Option<
    Seq<u8>,
>;

/// `Argon2::default().hash_password_into` of the `argon2` crate, on a salt
/// of 16 bytes and an output of 32. With these lengths the crate refuses
/// only a password of more than `MAX_PASSWORD_SIZE` bytes, and it checks
/// that before it writes: on refusal `out` is as it was. On success `out`
/// holds the hash, which depends on password and salt alone.
#[verifier::external_body]
fn argon2id_hash_into(
    password: &[u8],
    salt: &[u8; SALT_SIZE],
    out: &mut [u8; ENCRYPTION_KEY_SIZE],
) -> (res: Result<(), argon2::Error>)
    ensures
        res is Ok <==> password@.len() <= MAX_PASSWORD_SIZE,
        res is Ok ==> final(out)@ == argon2id_hash(password@, salt@),
        res is Err ==> *final(out) == *old(out),
{
    Argon2::default().hash_password_into(password, salt, out)
}

/// `Aead::encrypt` of `Aes256Gcm`, from the `aes_gcm` crate. It refuses only
/// a plaintext of more than `MAX_PLAINTEXT_SIZE` bytes. What it returns is
/// the ciphertext, as long as the plaintext, followed by the tag; and
/// `Aead::decrypt` under the same key and nonce gives the plaintext back.
#[verifier::external_body]
fn aes_256_gcm_encrypt(
    key: &[u8; ENCRYPTION_KEY_SIZE],
    nonce: &[u8; NONCE_SIZE],
    plaintext: &[u8],
) -> (res: Result<Vec<u8>, aes_gcm::Error>)
    ensures
        res is Ok <==> plaintext@.len() <= MAX_PLAINTEXT_SIZE,
        res matches Ok(sealed) ==> {
            &&& sealed@ == aes_256_gcm_seal(key@, nonce@, plaintext@)
            &&& sealed@.len() == plaintext@.len() + TAG_SIZE
            &&& aes_256_gcm_open(key@, nonce@, sealed@) == Some(plaintext@)
        },
{
    Aes256Gcm::new(key.into()).encrypt(nonce.into(), plaintext)
}

/// `Aead::decrypt` of `Aes256Gcm`, from the `aes_gcm` crate. Whether it
/// accepts, and what it then returns, depends on key, nonce and sealed
/// bytes alone. A nonce of another length than twelve would make the
/// conversion panic.
#[verifier::external_body]
fn aes_256_gcm_decrypt(
    key: &[u8; ENCRYPTION_KEY_SIZE],
    nonce: &[u8],
    sealed: &[u8],
) -> (res: Result<Vec<u8>, aes_gcm::Error>)
    requires
        nonce@.len() == NONCE_SIZE,
    ensures
        match aes_256_gcm_open(key@, nonce@, sealed@) {
            Some(plaintext) => res matches Ok(opened) && opened@ == plaintext,
            None => res is Err,
        },
{
    Aes256Gcm::new(key.into()).decrypt(nonce.into(), sealed)
}

/// `RngCore::fill_bytes` of `OsRng`: twelve bytes from the operating
/// system's generator. Nothing is known of them.
#[verifier::external_body]
fn fresh_nonce() -> (nonce: [u8; NONCE_SIZE]) {
    let mut nonce = [0u8; NONCE_SIZE];
    OsRng.fill_bytes(&mut nonce);
    nonce
}

/// `String::from_utf8` of std: the text, where the bytes are UTF-8.
#[verifier::external_body]
fn string_from_utf8(bytes: Vec<u8>) -> (res: Result<String, std::string::FromUtf8Error>)
    ensures
        res is Ok <==> valid_utf8(bytes@),
        res matches Ok(text) ==> text@ == decode_utf8(bytes@),
{
    String::from_utf8(bytes)
}

/// Fills `buf` with bytes from `rand::thread_rng`. Its length stays;
/// nothing is known of the bytes.
#[verifier::external_body]
pub fn generate_random_bytes(buf: &mut [u8])
    ensures
        final(buf)@.len() == old(buf)@.len(),
{
    let mut rng = thread_rng();
    rng.fill(buf);
}

// ---------------------------------------------------------------------
// Key derivation
// ---------------------------------------------------------------------

/// Whether a key can be derived from this password.
pub open spec fn derivable(password: Seq<char>) -> bool {
    encode_utf8(password).len() <= MAX_PASSWORD_SIZE
}

/// The key that belongs to a password and a salt.
pub open spec fn derived_key(password: Seq<char>, salt: Seq<u8>) -> Seq<u8> {
    argon2id_hash(encode_utf8(password), salt)
}

/// Derives the key of `password` and `salt` into `encryption_key`.
///
/// There is no wrong password here: every password that is not too long
/// has a key. On failure `encryption_key` is untouched.
pub fn derive_key(
    password: &str,
    salt: &[u8; SALT_SIZE],
    encryption_key: &mut [u8; ENCRYPTION_KEY_SIZE],
) -> (res: Result<(), TasksError>)
    ensures
        res is Ok <==> derivable(password@),
        res is Ok ==> final(encryption_key)@ == derived_key(password@, salt@),
        res matches Err(e) ==> e.reports(Failure::PasswordTooLong) && *final(encryption_key)
            == *old(encryption_key),
{
    match argon2id_hash_into(password.as_bytes(), salt, encryption_key) {
        Ok(()) => Ok(()),
        Err(e) => Err(TasksError::Argon2Error(e)),
    }
}

/// Equal passwords and equal salts have equal keys.
pub proof fn derive_key_is_deterministic(
    password_a: Seq<char>,
    salt_a: Seq<u8>,
    password_b: Seq<char>,
    salt_b: Seq<u8>,
)
    requires
        password_a == password_b,
        salt_a == salt_b,
    ensures
        derivable(password_a) == derivable(password_b),
        derived_key(password_a, salt_a) == derived_key(password_b, salt_b),
{
}

// ---------------------------------------------------------------------
// The key holder
// ---------------------------------------------------------------------

/// The one key of a session. It is never written anywhere; a locked
/// session holds zeros, which nothing tells apart from a key of zeros, so
/// the caller keeps track of whether the session is unlocked.
pub struct EncryptionKey {
    bytes: [u8; ENCRYPTION_KEY_SIZE],
}

impl View for EncryptionKey {
    type V = Seq<u8>;

    closed spec fn view(&self) -> Seq<u8> {
        self.bytes@
    }
}

/// The key of a locked session.
pub open spec fn zero_key() -> Seq<u8> {
    Seq::new(ENCRYPTION_KEY_SIZE as nat, |i: int| 0u8)
}

impl EncryptionKey {
    /// A holder without a key.
    pub fn new() -> (holder: Self)
        ensures
            holder@ == zero_key(),
    {
        let holder = EncryptionKey { bytes: [0u8; ENCRYPTION_KEY_SIZE] };
        proof {
            assert(holder@ =~= zero_key());
        }
        holder
    }

    /// Every held key has `ENCRYPTION_KEY_SIZE` bytes.
    pub proof fn has_key_size(&self)
        ensures
            self@.len() == ENCRYPTION_KEY_SIZE,
    {
    }

    /// Replaces the held key.
    pub fn set(&mut self, derived_key: &[u8; ENCRYPTION_KEY_SIZE])
        ensures
            final(self)@ == derived_key@,
    {
        self.bytes = *derived_key;
    }

    /// Derives the key of `password` and `salt` in place. On failure the
    /// held key stays.
    pub fn derive(&mut self, password: &str, salt: &[u8; SALT_SIZE]) -> (res: Result<
        (),
        TasksError,
    >)
        ensures
            res is Ok <==> derivable(password@),
            res is Ok ==> final(self)@ == derived_key(password@, salt@),
            res matches Err(e) ==> e.reports(Failure::PasswordTooLong) && final(self)@ == old(
                self,
            )@,
    {
        derive_key(password, salt, &mut self.bytes)
    }

    /// The held key as an array.
    pub closed spec fn held(&self) -> [u8; ENCRYPTION_KEY_SIZE] {
        self.bytes
    }

    /// The view of a holder is the view of the array it holds.
    pub proof fn view_is_held(&self)
        ensures
            self@ == self.held()@,
    {
    }

    /// Lends the key to `f` for one operation.
    pub fn with_key<R, F: FnOnce(&[u8; ENCRYPTION_KEY_SIZE]) -> R>(&self, f: F) -> (result: R)
        requires
            f.requires((&self.held(),)),
        ensures
            f.ensures((&self.held(),), result),
    {
        f(&self.bytes)
    }

    /// The held key, for the operations of this crate.
    pub(crate) fn bytes(&self) -> (key: &[u8; ENCRYPTION_KEY_SIZE])
        ensures
            key@ == self@,
    {
        &self.bytes
    }

    /// Whether `candidate` is the held key, byte for byte.
    pub fn matches(&self, candidate: &[u8; ENCRYPTION_KEY_SIZE]) -> (same: bool)
        ensures
            same == (candidate@ == self@),
    {
        let mut i: usize = 0;
        while i < ENCRYPTION_KEY_SIZE
            invariant
                i <= ENCRYPTION_KEY_SIZE,
                forall|j: int| 0 <= j < i ==> candidate@[j] == self.bytes@[j],
            decreases ENCRYPTION_KEY_SIZE - i,
        {
            if candidate[i] != self.bytes[i] {
                return false;
            }
            i += 1;
        }
        proof {
            assert(candidate@ =~= self@);
        }
        true
    }

    /// Overwrites every byte of the key with zero.
    pub fn zeroize(&mut self)
        ensures
            final(self)@ == zero_key(),
    {
        let mut i: usize = 0;
        while i < ENCRYPTION_KEY_SIZE
            invariant
                i <= ENCRYPTION_KEY_SIZE,
                forall|j: int| 0 <= j < i ==> self.bytes@[j] == 0u8,
            decreases ENCRYPTION_KEY_SIZE - i,
        {
            self.bytes[i] = 0;
            i += 1;
        }
        proof {
            assert(self@ =~= zero_key());
        }
    }
}

impl Default for EncryptionKey {
    fn default() -> (holder: Self)
        ensures
            holder@ == zero_key(),
    {
        EncryptionKey::new()
    }
}

// ---------------------------------------------------------------------
// Sealing and opening
// ---------------------------------------------------------------------

/// The nonce of a blob: its first twelve bytes.
pub open spec fn nonce_of(blob: Seq<u8>) -> Seq<u8> {
    blob.subrange(0, NONCE_SIZE as int)
}

/// What follows the nonce: ciphertext and tag.
pub open spec fn sealed_part_of(blob: Seq<u8>) -> Seq<u8> {
    blob.subrange(NONCE_SIZE as int, blob.len() as int)
}

/// The blob that seals `data` under `key` with `nonce`.
pub open spec fn sealed_blob(data: Seq<u8>, key: Seq<u8>, nonce: Seq<u8>) -> Seq<u8> {
    nonce + aes_256_gcm_seal(key, nonce, data)
}

/// `blob` is a sealing of `data` under `key`: a nonce, then what the cipher
/// makes of `data` under that nonce, which the cipher opens again.
pub open spec fn seals(blob: Seq<u8>, key: Seq<u8>, data: Seq<u8>) -> bool {
    &&& blob.len() == NONCE_SIZE + data.len() + TAG_SIZE
    &&& blob == sealed_blob(data, key, nonce_of(blob))
    &&& aes_256_gcm_open(key, nonce_of(blob), sealed_part_of(blob)) == Some(data)
}

/// What `decrypt` makes of `blob` under `key`: the text, or why there is
/// none.
pub open spec fn open_blob(blob: Seq<u8>, key: Seq<u8>) -> Result<Seq<char>, Failure> {
    if blob.len() < NONCE_SIZE {
        Err(Failure::BlobTooShort)
    } else {
        match aes_256_gcm_open(key, nonce_of(blob), sealed_part_of(blob)) {
            None => Err(Failure::CipherRejected),
            Some(plaintext) => if valid_utf8(plaintext) {
                Ok(decode_utf8(plaintext))
            } else {
                Err(Failure::PlaintextNotText)
            },
        }
    }
}

/// Seals `data` under `key` with the given nonce.
///
/// The nonce must never repeat under one key: `encrypt` draws a fresh one
/// for every call and is the function to use.
pub fn encrypt_with_nonce(
    data: &[u8],
    key: &[u8; ENCRYPTION_KEY_SIZE],
    nonce: &[u8; NONCE_SIZE],
) -> (res: Result<Vec<u8>, TasksError>)
    ensures
        res is Ok <==> data@.len() <= MAX_PLAINTEXT_SIZE,
        res matches Ok(blob) ==> blob@ == sealed_blob(data@, key@, nonce@) && seals(
            blob@,
            key@,
            data@,
        ),
        res matches Err(e) ==> e.reports(Failure::PlaintextTooLong),
{
    match aes_256_gcm_encrypt(key, nonce, data) {
        Err(e) => Err(TasksError::AesGcmError(e)),
        Ok(sealed) => {
            let mut buffer: Vec<u8> = Vec::new();
            buffer.extend_from_slice(nonce.as_slice());
            buffer.extend_from_slice(sealed.as_slice());
            proof {
                assert(nonce_of(buffer@) =~= nonce@);
                assert(sealed_part_of(buffer@) =~= sealed@);
            }
            Ok(buffer)
        },
    }
}

/// Seals `data` under `key` with a fresh random nonce.
pub fn encrypt(data: &[u8], key: &[u8; ENCRYPTION_KEY_SIZE]) -> (res: Result<Vec<u8>, TasksError>)
    ensures
        res is Ok <==> data@.len() <= MAX_PLAINTEXT_SIZE,
        res matches Ok(blob) ==> seals(blob@, key@, data@),
        res matches Err(e) ==> e.reports(Failure::PlaintextTooLong),
{
    let nonce = fresh_nonce();
    encrypt_with_nonce(data, key, &nonce)
}

/// Opens a sealed blob and reads its plaintext as text.
///
/// Fails where the blob is shorter than a nonce, where the cipher rejects
/// it (a wrong key and a changed blob look the same), and where the
/// plaintext is not UTF-8.
pub fn decrypt(encrypted_data: &[u8], key: &[u8; ENCRYPTION_KEY_SIZE]) -> (res: Result<
    String,
    TasksError,
>)
    ensures
        match open_blob(encrypted_data@, key@) {
            Ok(text) => res matches Ok(opened) && opened@ == text,
            Err(failure) => res matches Err(e) && e.reports(failure),
        },
        res matches Err(e) ==> e.is_integrity(),
{
    if encrypted_data.len() < NONCE_SIZE {
        return Err(TasksError::CryptoError(ENCRYPTED_DATA_TOO_SHORT.to_owned()));
    }
    let nonce = slice_subrange(encrypted_data, 0, NONCE_SIZE);
    let sealed = slice_subrange(encrypted_data, NONCE_SIZE, encrypted_data.len());
    match aes_256_gcm_decrypt(key, nonce, sealed) {
        Err(e) => Err(TasksError::AesGcmError(e)),
        Ok(plaintext) => match string_from_utf8(plaintext) {
            Err(e) => Err(TasksError::Utf8Error(e)),
            Ok(text) => Ok(text),
        },
    }
}

/// Opening gives back what was sealed: whatever blob `encrypt` returned
/// for `data` and `key`, `decrypt` under `key` finds `data` in it, and
/// returns it where it is text.
pub proof fn decrypt_inverts_encrypt(data: Seq<u8>, key: Seq<u8>, blob: Seq<u8>)
    requires
        seals(blob, key, data),
    ensures
        valid_utf8(data) ==> open_blob(blob, key) == Ok::<Seq<char>, Failure>(decode_utf8(data)),
        valid_utf8(data) ==> encode_utf8(decode_utf8(data)) == data,
        !valid_utf8(data) ==> open_blob(blob, key) == Err::<Seq<char>, Failure>(
            Failure::PlaintextNotText,
        ),
{
    if valid_utf8(data) {
        vstd::utf8::decode_utf8_encode_utf8(data);
    }
}

} // verus!
