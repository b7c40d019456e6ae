//! The cryptographic core: stretching secrets into keys, hashing and
//! checking the master password, and sealing and opening entry secrets.
//!
//! Every function is a pure function of its arguments, except that
//! [`encrypt_password`] draws a fresh nonce. The contracts speak of the
//! primitives through the names in [`crate::primitives`].

use crate::error::VaultError;
use crate::primitives::{
    aead_open, aead_plaintext_limit, aead_seal, base64_bytes, base64_decode, base64_encode,
    base64_len, base64_text, chacha20poly1305_opened, chacha20poly1305_sealed,
    digest_input_limit, fresh_nonce, pbkdf2_derive, pbkdf2_hmac_sha256, pbkdf2_verify, sha256,
    sha256_digest,
};
use vstd::prelude::*;
use vstd::slice::{slice_subrange, slice_to_vec};
use vstd::utf8::{
    decode_utf8, encode_utf8, encode_utf8_decode_utf8, encode_utf8_valid_utf8, is_ascii_chars,
    is_ascii_chars_encode_utf8, valid_utf8,
};

verus! {

/// Bytes in a nonce of the cipher.
pub const NONCE_SIZE: usize = 12;

/// Bytes in the authentication tag that the cipher appends.
pub const TAG_SIZE: usize = 16;

/// Bytes in a derived key, and in the master password's hash.
pub const CREDENTIAL_LEN: usize = 32;

/// Bytes of the username's digest that salt an entry's key.
pub const SALT_LEN: usize = 16;

/// Rounds of the key derivation.
pub const PBKDF2_ITERATIONS: u32 = 100_000;

/// The salt of the master password's hash where none is configured.
pub const DEFAULT_HASH_SALT: &'static str = "default_salt_value";

/// A text short enough to be hashed or stretched.
pub open spec fn digestible(text: Seq<char>) -> bool {
    encode_utf8(text).len() < digest_input_limit()
}

/// A salt short enough for the key derivation.
pub open spec fn usable_salt(salt: Seq<u8>) -> bool {
    salt.len() + 68 < digest_input_limit()
}

/// The salt of an entry's key: the first 16 bytes of the SHA-256 digest of
/// the username. Two entries with one username share it.
pub open spec fn username_salt(username: Seq<char>) -> Seq<u8> {
    sha256_digest(encode_utf8(username)).subrange(0, SALT_LEN as int)
}

/// The 32-byte key stretched from `secret` with `salt`.
pub open spec fn stretched_key(secret: Seq<char>, salt: Seq<u8>) -> Seq<u8> {
    pbkdf2_hmac_sha256(PBKDF2_ITERATIONS, salt, encode_utf8(secret), CREDENTIAL_LEN as nat)
}

/// The key under which the secret of `username` is sealed.
pub open spec fn entry_key(username: Seq<char>, master_password: Seq<char>) -> Seq<u8> {
    stretched_key(master_password, username_salt(username))
}

/// Tells whether `text` is short enough to be hashed or stretched.
pub fn is_digestible(text: &str) -> (res: bool)
    ensures
        res == digestible(text@),
{
    (text.as_bytes().len() as u64) < 0x2000_0000_0000_0000u64
}

/// Tells whether `salt` is short enough for the key derivation.
pub fn is_usable_salt(salt: &[u8]) -> (res: bool)
    ensures
        res == usable_salt(salt@),
{
    (salt.len() as u64) < 0x2000_0000_0000_0000u64 - 68
}

/// The salt of the master password's hash: the configured text, or
/// [`DEFAULT_HASH_SALT`] where none is configured.
pub fn hash_salt(configured: Option<String>) -> (salt: Vec<u8>)
    ensures
        salt@ == match configured {
            Some(text) => encode_utf8(text@),
            None => encode_utf8(DEFAULT_HASH_SALT@),
        },
{
    match configured {
        Some(text) => slice_to_vec(text.as_str().as_bytes()),
        None => slice_to_vec(DEFAULT_HASH_SALT.as_bytes()),
    }
}

/// The leading [`SALT_LEN`] bytes of a digest.
pub fn salt_from_digest(digest: &[u8]) -> (salt: Vec<u8>)
    requires
        digest@.len() >= SALT_LEN,
    ensures
        salt@ == digest@.subrange(0, SALT_LEN as int),
{
    slice_to_vec(slice_subrange(digest, 0, SALT_LEN))
}

/// The default salt of the master password's hash is 18 bytes long.
pub proof fn lemma_default_hash_salt_len()
    ensures
        encode_utf8(DEFAULT_HASH_SALT@).len() == 18,
{
    reveal_strlit("default_salt_value");
    is_ascii_chars_encode_utf8(DEFAULT_HASH_SALT@);
}

/// The salt of the key of `username`'s entry. It is never the default
/// salt of the master password's hash, which has another length.
pub fn generate_salt(username: &str) -> (salt: Vec<u8>)
    requires
        digestible(username@),
    ensures
        salt@ == username_salt(username@),
        salt@.len() == SALT_LEN,
        salt@ != encode_utf8(DEFAULT_HASH_SALT@),
{
    proof {
        lemma_default_hash_salt_len();
    }
    let digest = sha256(username.as_bytes());
    salt_from_digest(digest.as_slice())
}

/// Stretches `master_password` with `salt` into a key of
/// [`CREDENTIAL_LEN`] bytes. The same inputs always give the same key.
pub fn derive_key(master_password: &str, salt: &[u8]) -> (key: Vec<u8>)
    requires
        digestible(master_password@),
        usable_salt(salt@),
    ensures
        key@ == stretched_key(master_password@, salt@),
        key@.len() == CREDENTIAL_LEN,
{
    pbkdf2_derive(PBKDF2_ITERATIONS, salt, master_password.as_bytes(), CREDENTIAL_LEN)
}

/// `text` has the shape of the unpadded base64 text of `len` bytes: four
/// ASCII characters for every three bytes, two or three for a rest of one
/// or two, and no `=`.
pub open spec fn is_unpadded_text(text: Seq<char>, len: nat) -> bool {
    &&& encode_utf8(text).len() == base64_len(len)
    &&& text.len() == base64_len(len)
    &&& is_ascii_chars(text)
    &&& !text.contains('=')
}

/// `hash` is the stored hash of `password` under `salt`: the base64 text
/// of the stretched key, 43 characters long, which decodes back to that
/// key.
pub open spec fn is_master_hash(hash: Seq<char>, password: Seq<char>, salt: Seq<u8>) -> bool {
    let key = stretched_key(password, salt);
    &&& digestible(password)
    &&& usable_salt(salt)
    &&& key.len() == CREDENTIAL_LEN
    &&& hash == base64_text(key)
    &&& base64_bytes(hash) == Some(key)
    &&& is_unpadded_text(hash, CREDENTIAL_LEN as nat)
}

/// `stored_key` is exactly the key that stretching `candidate` with
/// `salt` gives: all [`CREDENTIAL_LEN`] bytes of it and no others. Inputs
/// too long to be stretched match nothing.
pub open spec fn derived_key_matches(
    stored_key: Seq<u8>,
    candidate: Seq<char>,
    salt: Seq<u8>,
) -> bool {
    &&& digestible(candidate)
    &&& usable_salt(salt)
    &&& stored_key.len() == CREDENTIAL_LEN
    &&& stretched_key(candidate, salt) == stored_key
}

/// `candidate` is accepted against `stored_hash`: the hash decodes, and
/// the decoded key matches. A hash that does not decode matches nothing.
pub open spec fn master_hash_matches(
    stored_hash: Seq<char>,
    candidate: Seq<char>,
    salt: Seq<u8>,
) -> bool {
    match base64_bytes(stored_hash) {
        Some(stored_key) => derived_key_matches(stored_key, candidate, salt),
        None => false,
    }
}

/// Hashes the master password for storage: the key stretched from
/// `password` with `salt`, as unpadded base64.
pub fn hash_password(password: &str, salt: &[u8]) -> (hash: String)
    requires
        digestible(password@),
        usable_salt(salt@),
    ensures
        is_master_hash(hash@, password@, salt@),
{
    let key = derive_key(password, salt);
    let hash = base64_encode(key.as_slice());
    proof {
        is_ascii_chars_encode_utf8(hash@);
    }
    hash
}

/// Checks `input_password` against the decoded bytes of a stored hash.
/// A stored key of any other length than [`CREDENTIAL_LEN`] matches
/// nothing, and neither do inputs too long for the derivation.
pub fn key_matches(stored_key: &[u8], input_password: &str, salt: &[u8]) -> (res: bool)
    ensures
        res == derived_key_matches(stored_key@, input_password@, salt@),
{
    if stored_key.len() != CREDENTIAL_LEN {
        return false;
    }
    if !is_digestible(input_password) || !is_usable_salt(salt) {
        return false;
    }
    pbkdf2_verify(PBKDF2_ITERATIONS, salt, input_password.as_bytes(), stored_key)
}

/// Checks `input_password` against `stored_hash`: `true` only where the
/// hash decodes to exactly the key stretched from the password. It fails
/// closed: a hash that does not decode, or any mismatch, gives `false`.
pub fn verify_master_password(stored_hash: &str, input_password: &str, salt: &[u8]) -> (res: bool)
    ensures
        res == master_hash_matches(stored_hash@, input_password@, salt@),
{
    match base64_decode(stored_hash) {
        Ok(stored_key) => key_matches(stored_key.as_slice(), input_password, salt),
        Err(_) => false,
    }
}

/// A plaintext of `len` bytes is one the cipher seals under one nonce.
pub open spec fn sealable_len(len: nat) -> bool {
    len <= aead_plaintext_limit()
}

/// The stored text of the sealed `password` has a length that fits in
/// `usize`: nonce, ciphertext and tag together, as base64.
pub open spec fn blob_fits(password: Seq<char>) -> bool {
    base64_len(encode_utf8(password).len() + NONCE_SIZE as nat + TAG_SIZE as nat) <= usize::MAX
}

/// `password` can be encrypted for `username` under `master_password`:
/// username and master password can be hashed and stretched, and the
/// cipher and the machine take the password.
pub open spec fn can_encrypt(
    password: Seq<char>,
    username: Seq<char>,
    master_password: Seq<char>,
) -> bool {
    &&& digestible(username)
    &&& digestible(master_password)
    &&& blob_fits(password)
    &&& sealable_len(encode_utf8(password).len())
}

/// `blob` is the stored text of `plaintext` sealed under `key` with
/// `nonce`: the base64 text of the nonce followed by ciphertext and tag.
/// It has the length of that text, it decodes back to those bytes, and the
/// cipher opens them again.
pub open spec fn sealed_blob(
    blob: Seq<char>,
    key: Seq<u8>,
    nonce: Seq<u8>,
    plaintext: Seq<u8>,
) -> bool {
    let sealed = chacha20poly1305_sealed(key, nonce, plaintext);
    &&& nonce.len() == NONCE_SIZE
    &&& sealable_len(plaintext.len())
    &&& sealed.len() == plaintext.len() + TAG_SIZE
    &&& chacha20poly1305_opened(key, nonce, sealed) == Some(plaintext)
    &&& blob == base64_text(nonce + sealed)
    &&& base64_bytes(blob) == Some(nonce + sealed)
    &&& encode_utf8(blob).len() == base64_len((nonce + sealed).len())
    &&& is_unpadded_text(blob, (nonce + sealed).len())
}

/// `blob` is an encryption of `password` for `username` under
/// `master_password`, with some nonce: the unpadded text of nonce,
/// ciphertext and tag, 28 bytes more than the password.
pub open spec fn encrypts(
    blob: Seq<char>,
    password: Seq<char>,
    username: Seq<char>,
    master_password: Seq<char>,
) -> bool {
    &&& digestible(username)
    &&& digestible(master_password)
    &&& is_unpadded_text(
        blob,
        encode_utf8(password).len() + NONCE_SIZE as nat + TAG_SIZE as nat,
    )
    &&& exists|nonce: Seq<u8>| #[trigger]
        sealed_blob(blob, entry_key(username, master_password), nonce, encode_utf8(password))
}

/// What opening the decoded bytes of a stored secret under `key` gives:
/// the first [`NONCE_SIZE`] bytes are the nonce, the rest ciphertext and
/// tag. More bytes than the cipher can have sealed fail authentication.
pub open spec fn blob_opening(blob: Seq<u8>, key: Seq<u8>) -> Result<Seq<char>, VaultError> {
    if blob.len() < NONCE_SIZE {
        Err(VaultError::InvalidEncoding)
    } else if blob.len() > NONCE_SIZE + aead_plaintext_limit() + TAG_SIZE {
        Err(VaultError::AuthenticationFailure)
    } else {
        match chacha20poly1305_opened(
            key,
            blob.subrange(0, NONCE_SIZE as int),
            blob.subrange(NONCE_SIZE as int, blob.len() as int),
        ) {
            None => Err(VaultError::AuthenticationFailure),
            Some(plaintext) => if valid_utf8(plaintext) {
                Ok(decode_utf8(plaintext))
            } else {
                Err(VaultError::EncodingError)
            },
        }
    }
}

/// What decrypting the stored text `blob` for `username` under
/// `master_password` gives. The text is decoded and measured first; a
/// username or master password too long to make a key opens nothing.
pub open spec fn decryption_of(
    blob: Seq<char>,
    username: Seq<char>,
    master_password: Seq<char>,
) -> Result<Seq<char>, VaultError> {
    match base64_bytes(blob) {
        None => Err(VaultError::InvalidEncoding),
        Some(bytes) => if bytes.len() < NONCE_SIZE {
            Err(VaultError::InvalidEncoding)
        } else if !digestible(username) || !digestible(master_password) {
            Err(VaultError::AuthenticationFailure)
        } else {
            blob_opening(bytes, entry_key(username, master_password))
        },
    }
}

/// A result with its text taken by its view.
pub open spec fn text_result(res: Result<String, VaultError>) -> Result<Seq<char>, VaultError> {
    match res {
        Ok(text) => Ok(text@),
        Err(e) => Err(e),
    }
}

/// Tells whether the stored text of the sealed `password` has a length
/// that fits in `usize`.
pub fn is_blob_fitting(password: &str) -> (res: bool)
    ensures
        res == blob_fits(password@),
{
    let len = password.as_bytes().len();
    if len > usize::MAX - (NONCE_SIZE + TAG_SIZE) {
        return false;
    }
    let framed = len + (NONCE_SIZE + TAG_SIZE);
    let groups = framed / 3;
    let rest = framed % 3;
    if groups > usize::MAX / 4 {
        return false;
    }
    if rest == 0 {
        true
    } else {
        groups * 4 <= usize::MAX - (rest + 1)
    }
}

/// Nonce, then ciphertext and tag: the bytes that are stored as text.
pub fn frame_blob(nonce: &[u8], sealed: &[u8]) -> (blob: Vec<u8>)
    ensures
        blob@ == nonce@ + sealed@,
{
    let mut blob = slice_to_vec(nonce);
    blob.extend_from_slice(sealed);
    blob
}

/// Splits the decoded bytes of a stored secret into nonce and the rest.
/// Fewer bytes than a nonce are an invalid encoding.
pub fn split_blob(blob: &[u8]) -> (res: Result<(Vec<u8>, Vec<u8>), VaultError>)
    ensures
        match res {
            Ok((nonce, sealed)) => {
                &&& blob@.len() >= NONCE_SIZE
                &&& nonce@ == blob@.subrange(0, NONCE_SIZE as int)
                &&& sealed@ == blob@.subrange(NONCE_SIZE as int, blob@.len() as int)
            },
            Err(e) => e == VaultError::InvalidEncoding && blob@.len() < NONCE_SIZE,
        },
{
    if blob.len() < NONCE_SIZE {
        return Err(VaultError::InvalidEncoding);
    }
    let nonce = slice_to_vec(slice_subrange(blob, 0, NONCE_SIZE));
    let sealed = slice_to_vec(slice_subrange(blob, NONCE_SIZE, blob.len()));
    Ok((nonce, sealed))
}

/// Reads opened bytes as text. Bytes that are not valid UTF-8 are an
/// encoding error.
pub fn text_from_bytes(bytes: Vec<u8>) -> (res: Result<String, VaultError>)
    ensures
        text_result(res) == if valid_utf8(bytes@) {
            Ok::<Seq<char>, VaultError>(decode_utf8(bytes@))
        } else {
            Err::<Seq<char>, VaultError>(VaultError::EncodingError)
        },
{
    match String::from_utf8(bytes) {
        Ok(text) => {
            proof {
                encode_utf8_decode_utf8(text@);
            }
            Ok(text)
        },
        Err(_) => Err(VaultError::EncodingError),
    }
}

/// Seals `password` under `key` with the given nonce and gives the text
/// to store. The result is a function of the three arguments. A password
/// longer than the cipher seals, or whose stored text would not fit in
/// memory, is refused before the cipher is asked.
pub fn seal_with_nonce(password: &str, key: &[u8], nonce: &[u8]) -> (res: Result<
    String,
    VaultError,
>)
    requires
        key@.len() == CREDENTIAL_LEN,
        nonce@.len() == NONCE_SIZE,
    ensures
        match res {
            Ok(blob) => {
                &&& blob_fits(password@)
                &&& sealed_blob(blob@, key@, nonce@, encode_utf8(password@))
            },
            Err(e) => e == VaultError::EncryptionFailure && !(blob_fits(password@) && sealable_len(
                encode_utf8(password@).len(),
            )),
        },
{
    if !is_blob_fitting(password) {
        return Err(VaultError::EncryptionFailure);
    }
    let plaintext = password.as_bytes();
    if plaintext.len() as u64 > 0x3f_ffff_ff80u64 {
        return Err(VaultError::EncryptionFailure);
    }
    match aead_seal(key, nonce, plaintext) {
        Ok(sealed) => {
            let framed = frame_blob(nonce, sealed.as_slice());
            let blob = base64_encode(framed.as_slice());
            proof {
                is_ascii_chars_encode_utf8(blob@);
            }
            Ok(blob)
        },
        Err(_) => Err(VaultError::EncryptionFailure),
    }
}

/// Opens the decoded bytes of a stored secret under `key`. More bytes than
/// the cipher can have sealed are rejected before the cipher is asked.
pub fn open_blob(blob: &[u8], key: &[u8]) -> (res: Result<String, VaultError>)
    requires
        key@.len() == CREDENTIAL_LEN,
    ensures
        text_result(res) == blob_opening(blob@, key@),
{
    match split_blob(blob) {
        Err(e) => Err(e),
        Ok((nonce, sealed)) => {
            if sealed.len() as u64 > 0x3f_ffff_ff90u64 {
                return Err(VaultError::AuthenticationFailure);
            }
            match aead_open(key, nonce.as_slice(), sealed.as_slice()) {
                Ok(plaintext) => text_from_bytes(plaintext),
                Err(_) => Err(VaultError::AuthenticationFailure),
            }
        },
    }
}

/// Encrypts `password` for the entry of `username` under
/// `master_password`, with a fresh random nonce, and gives the text to
/// store. It fails exactly where the inputs cannot be encrypted.
///
/// The key depends on the username alone besides the master password:
/// entries with one username share their key, and an entry whose username
/// is changed without encrypting again can no longer be decrypted.
pub fn encrypt_password(password: &str, username: &str, master_password: &str) -> (res: Result<
    String,
    VaultError,
>)
    ensures
        match res {
            Ok(blob) => {
                &&& can_encrypt(password@, username@, master_password@)
                &&& encrypts(blob@, password@, username@, master_password@)
                &&& decryption_of(blob@, username@, master_password@) == Ok::<
                    Seq<char>,
                    VaultError,
                >(password@)
                &&& blob@ != password@
            },
            Err(e) => e == VaultError::EncryptionFailure && !can_encrypt(
                password@,
                username@,
                master_password@,
            ),
        },
{
    if !is_digestible(username) || !is_digestible(master_password) {
        return Err(VaultError::EncryptionFailure);
    }
    let salt = generate_salt(username);
    let key = derive_key(master_password, salt.as_slice());
    let nonce = fresh_nonce();
    let res = seal_with_nonce(password, key.as_slice(), nonce.as_slice());
    proof {
        if let Ok(blob) = &res {
            let plaintext = encode_utf8(password@);
            assert(key@ == entry_key(username@, master_password@));
            lemma_sealed_blob_splits(blob@, key@, nonce@, plaintext);
            lemma_sealed_text_is_longer(blob@, key@, nonce@, plaintext);
            encode_utf8_valid_utf8(password@);
            encode_utf8_decode_utf8(password@);
        }
    }
    res
}

/// Decrypts the stored text `encrypted_data` of the entry of `username`
/// under `master_password`.
///
/// It fails with `InvalidEncoding` where the text is not base64 or holds
/// fewer bytes than a nonce, with `AuthenticationFailure` where the cipher
/// rejects it, and with `EncodingError` where the plaintext is not UTF-8.
pub fn decrypt_password(encrypted_data: &str, username: &str, master_password: &str) -> (res:
    Result<String, VaultError>)
    ensures
        text_result(res) == decryption_of(encrypted_data@, username@, master_password@),
{
    let blob = match base64_decode(encrypted_data) {
        Ok(blob) => blob,
        Err(_) => {
            return Err(VaultError::InvalidEncoding);
        },
    };
    if blob.len() < NONCE_SIZE {
        return Err(VaultError::InvalidEncoding);
    }
    if !is_digestible(username) || !is_digestible(master_password) {
        return Err(VaultError::AuthenticationFailure);
    }
    let salt = generate_salt(username);
    let key = derive_key(master_password, salt.as_slice());
    open_blob(blob.as_slice(), key.as_slice())
}

/// The bytes of a sealed blob are the nonce followed by what the cipher
/// sealed, and fall apart into the two again.
pub proof fn lemma_sealed_blob_splits(
    blob: Seq<char>,
    key: Seq<u8>,
    nonce: Seq<u8>,
    plaintext: Seq<u8>,
)
    requires
        sealed_blob(blob, key, nonce, plaintext),
    ensures
        base64_bytes(blob) == Some(nonce + chacha20poly1305_sealed(key, nonce, plaintext)),
        base64_bytes(blob)->0.len() == NONCE_SIZE + plaintext.len() + TAG_SIZE,
        base64_bytes(blob)->0.subrange(0, NONCE_SIZE as int) == nonce,
        base64_bytes(blob)->0.subrange(NONCE_SIZE as int, base64_bytes(blob)->0.len() as int)
            == chacha20poly1305_sealed(key, nonce, plaintext),
        blob_opening(base64_bytes(blob)->0, key) == if valid_utf8(plaintext) {
            Ok::<Seq<char>, VaultError>(decode_utf8(plaintext))
        } else {
            Err::<Seq<char>, VaultError>(VaultError::EncodingError)
        },
{
    let sealed = chacha20poly1305_sealed(key, nonce, plaintext);
    let bytes = nonce + sealed;
    assert(bytes.subrange(0, NONCE_SIZE as int) =~= nonce);
    assert(bytes.subrange(NONCE_SIZE as int, bytes.len() as int) =~= sealed);
}

/// The stored text of a sealed plaintext takes more bytes than the
/// plaintext: four for every three of nonce, ciphertext and tag.
pub proof fn lemma_sealed_text_is_longer(
    blob: Seq<char>,
    key: Seq<u8>,
    nonce: Seq<u8>,
    plaintext: Seq<u8>,
)
    requires
        sealed_blob(blob, key, nonce, plaintext),
    ensures
        encode_utf8(blob).len() == base64_len(
            plaintext.len() + NONCE_SIZE as nat + TAG_SIZE as nat,
        ),
        blob.len() == base64_len(plaintext.len() + NONCE_SIZE as nat + TAG_SIZE as nat),
        encode_utf8(blob).len() > plaintext.len(),
        encode_utf8(blob) != plaintext,
{
    let sealed = chacha20poly1305_sealed(key, nonce, plaintext);
    assert((nonce + sealed).len() == plaintext.len() + NONCE_SIZE + TAG_SIZE);
}

} // verus!
