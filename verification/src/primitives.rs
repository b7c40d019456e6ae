//! The outside primitives the vault is built on, each behind one trusted
//! item. Nothing in this file is proved: every contract restates what the
//! primitive's documentation or source says of it, and the rest of the
//! crate is verified against these contracts.

use base64::Engine;
use chacha20poly1305::aead::generic_array::GenericArray;
use chacha20poly1305::aead::{Aead, AeadCore, KeyInit, OsRng};
use chacha20poly1305::ChaCha20Poly1305;
use std::num::NonZeroU32;
use std::string::FromUtf8Error;
use vstd::prelude::*;
use vstd::utf8::{encode_utf8, is_ascii_chars, valid_utf8};

verus! {

/// `base64::DecodeError`, carried through unread.
#[verifier::external_type_specification]
#[verifier::external_body]
pub struct ExDecodeError(base64::DecodeError);

/// `aead::Error`, the cipher's deliberately opaque failure.
#[verifier::external_type_specification]
#[verifier::external_body]
pub struct ExAeadError(chacha20poly1305::aead::Error);

/// `std::string::FromUtf8Error`, carried through unread.
#[verifier::external_type_specification]
#[verifier::external_body]
pub struct ExFromUtf8Error(std::string::FromUtf8Error);

/// The SHA-256 digest of `data`.
pub uninterp spec fn sha256_digest(data: Seq<u8>) -> Seq<u8>;

/// The first `len` bytes of the PBKDF2 output with HMAC-SHA-256 as the
/// pseudorandom function, for the given iteration count, salt and secret.
pub uninterp spec fn pbkdf2_hmac_sha256(
    iterations: u32,
    salt: Seq<u8>,
    secret: Seq<u8>,
    len: nat,
) -> Seq<u8>;

/// The unpadded standard base64 text of `bytes`.
pub uninterp spec fn base64_text(bytes: Seq<u8>) -> Seq<char>;

/// The bytes that `text` stands for as unpadded standard base64, or `None`
/// where it is not such a text.
pub uninterp spec fn base64_bytes(text: Seq<char>) -> Option<Seq<u8>>;

/// The ChaCha20-Poly1305 ciphertext of `plaintext` under `key` and `nonce`
/// with no associated data, followed by its 16-byte authentication tag.
pub uninterp spec fn chacha20poly1305_sealed(
    key: Seq<u8>,
    nonce: Seq<u8>,
    plaintext: Seq<u8>,
) -> Seq<u8>;

/// The plaintext that ChaCha20-Poly1305 recovers from `sealed` under `key`
/// and `nonce` with no associated data, or `None` where it rejects it.
pub uninterp spec fn chacha20poly1305_opened(
    key: Seq<u8>,
    nonce: Seq<u8>,
    sealed: Seq<u8>,
) -> Option<Seq<u8>>;

/// The first input length, in bytes, that SHA-256 as implemented by `ring`
/// does not take: the length in bits must fit in 64 bits.
pub open spec fn digest_input_limit() -> int {
    0x2000_0000_0000_0000
}

/// The longest PBKDF2 output with a 32-byte block: `32 * (2^32 - 1)` bytes.
pub open spec fn pbkdf2_output_limit() -> int {
    0x1f_ffff_ffe0
}

/// How many characters the unpadded base64 text of `n` bytes has.
pub open spec fn base64_len(n: nat) -> nat {
    if n % 3 == 0 {
        n / 3 * 4
    } else {
        n / 3 * 4 + n % 3 + 1
    }
}

/// `ring::digest::digest` with `SHA256`.
///
/// The result is the 32-byte digest of `data`. The call panics once the
/// length of `data` in bits no longer fits in 64 bits, so such inputs are
/// left out.
#[verifier::external_body]
pub(crate) fn sha256(data: &[u8]) -> (digest: Vec<u8>)
    requires
        data@.len() < digest_input_limit(),
    ensures
        digest@ == sha256_digest(data@),
        digest@.len() == 32,
{
    ring::digest::digest(&ring::digest::SHA256, data).as_ref().to_vec()
}

/// `ring::pbkdf2::derive` with `PBKDF2_HMAC_SHA256`.
///
/// The call fills a buffer of `len` bytes with the derived key. It panics
/// on a zero iteration count, on more output than PBKDF2 defines, and on a
/// salt or secret too long for the digest. HMAC hashes the 64-byte key
/// block, the salt and a 4-byte block counter together, which is where the
/// 68 comes from.
#[verifier::external_body]
pub(crate) fn pbkdf2_derive(iterations: u32, salt: &[u8], secret: &[u8], len: usize) -> (out: Vec<
    u8,
>)
    requires
        iterations > 0,
        salt@.len() + 68 < digest_input_limit(),
        secret@.len() < digest_input_limit(),
        len <= pbkdf2_output_limit(),
    ensures
        out@ == pbkdf2_hmac_sha256(iterations, salt@, secret@, len as nat),
        out@.len() == len,
{
    let mut out = vec![0u8; len];
    ring::pbkdf2::derive(
        ring::pbkdf2::PBKDF2_HMAC_SHA256,
        NonZeroU32::new(iterations).unwrap(),
        salt,
        secret,
        &mut out,
    );
    out
}

/// `ring::pbkdf2::verify` with `PBKDF2_HMAC_SHA256`.
///
/// `ring` documents it as comparing `previously_derived`, in constant time,
/// with what `derive` yields for the same inputs and the same length, and
/// as failing on an empty `previously_derived`. The bounds are those of
/// the derivation.
#[verifier::external_body]
pub(crate) fn pbkdf2_verify(
    iterations: u32,
    salt: &[u8],
    secret: &[u8],
    previously_derived: &[u8],
) -> (matches: bool)
    requires
        iterations > 0,
        salt@.len() + 68 < digest_input_limit(),
        secret@.len() < digest_input_limit(),
        previously_derived@.len() <= pbkdf2_output_limit(),
    ensures
        matches == (previously_derived@.len() > 0 && pbkdf2_hmac_sha256(
            iterations,
            salt@,
            secret@,
            previously_derived@.len(),
        ) == previously_derived@),
{
    ring::pbkdf2::verify(
        ring::pbkdf2::PBKDF2_HMAC_SHA256,
        NonZeroU32::new(iterations).unwrap(),
        salt,
        secret,
        previously_derived,
    ).is_ok()
}

/// `Engine::encode` of `base64::engine::general_purpose::STANDARD_NO_PAD`.
///
/// The result is the unpadded text of `bytes`, and decoding that text with
/// the same engine gives `bytes` back. The engine sizes the text's buffer
/// beforehand, four bytes for every three and two or three for a rest of
/// one or two, and panics where that size does not fit in `usize`. It
/// fills the buffer from the standard alphabet, which is ASCII, and this
/// engine appends no `=`.
#[verifier::external_body]
pub(crate) fn base64_encode(bytes: &[u8]) -> (text: String)
    requires
        base64_len(bytes@.len()) <= usize::MAX,
    ensures
        text@ == base64_text(bytes@),
        base64_bytes(text@) == Some(bytes@),
        encode_utf8(text@).len() == base64_len(bytes@.len()),
        is_ascii_chars(text@),
        !text@.contains('='),
{
    base64::engine::general_purpose::STANDARD_NO_PAD.encode(bytes)
}

/// `Engine::decode` of `base64::engine::general_purpose::STANDARD_NO_PAD`.
///
/// The result is `Ok` with the decoded bytes exactly where `text` is
/// unpadded standard base64.
#[verifier::external_body]
pub(crate) fn base64_decode(text: &str) -> (res: Result<Vec<u8>, base64::DecodeError>)
    ensures
        match res {
            Ok(bytes) => base64_bytes(text@) == Some(bytes@),
            Err(_) => base64_bytes(text@) is None,
        },
{
    base64::engine::general_purpose::STANDARD_NO_PAD.decode(text)
}

/// `AeadCore::generate_nonce` of `ChaCha20Poly1305` with `OsRng`.
///
/// The result is 12 bytes from the operating system's random source;
/// nothing else is known of it, and two calls need not agree. The call
/// panics where that source fails.
#[verifier::external_body]
pub(crate) fn fresh_nonce() -> (nonce: Vec<u8>)
    ensures
        nonce@.len() == 12,
{
    ChaCha20Poly1305::generate_nonce(&mut OsRng).to_vec()
}

/// The longest plaintext, in bytes, that the cipher seals under one nonce.
///
/// The cipher's block counter has 32 bits and the first block makes the
/// authenticator's key, so `2^32 - 2` blocks of 64 bytes are left for the
/// message.
pub open spec fn aead_plaintext_limit() -> int {
    0x3f_ffff_ff80
}

/// `Aead::encrypt` of `ChaCha20Poly1305`, with no associated data.
///
/// Up to the limit the cipher seals every plaintext. What it returns is
/// the ciphertext with the 16-byte tag appended, and opening that under
/// the same key and nonce recovers the plaintext. Longer plaintexts are
/// left out: on the next 63 lengths the keystream runs out and the call
/// panics, beyond them it fails. Key and nonce must have the cipher's
/// sizes: the conversion panics otherwise.
#[verifier::external_body]
pub(crate) fn aead_seal(key: &[u8], nonce: &[u8], plaintext: &[u8]) -> (res: Result<
    Vec<u8>,
    chacha20poly1305::aead::Error,
>)
    requires
        key@.len() == 32,
        nonce@.len() == 12,
        plaintext@.len() <= aead_plaintext_limit(),
        plaintext@.len() + 16 <= usize::MAX,
    ensures
        res is Ok,
        res matches Ok(sealed) ==> {
            &&& sealed@ == chacha20poly1305_sealed(key@, nonce@, plaintext@)
            &&& sealed@.len() == plaintext@.len() + 16
            &&& chacha20poly1305_opened(key@, nonce@, sealed@) == Some(plaintext@)
        },
{
    let cipher = ChaCha20Poly1305::new(GenericArray::from_slice(key));
    cipher.encrypt(GenericArray::from_slice(nonce), plaintext)
}

/// `Aead::decrypt` of `ChaCha20Poly1305`, with no associated data.
///
/// The result is `Ok` with the plaintext exactly where the cipher accepts
/// `sealed` under `key` and `nonce`; it accepts nothing shorter than a
/// tag. Input longer than a sealed plaintext of the limit is left out: the
/// call can panic on it. Key and nonce must have the cipher's sizes: the
/// conversion panics otherwise.
#[verifier::external_body]
pub(crate) fn aead_open(key: &[u8], nonce: &[u8], sealed: &[u8]) -> (res: Result<
    Vec<u8>,
    chacha20poly1305::aead::Error,
>)
    requires
        key@.len() == 32,
        nonce@.len() == 12,
        sealed@.len() <= aead_plaintext_limit() + 16,
    ensures
        match res {
            Ok(plaintext) => chacha20poly1305_opened(key@, nonce@, sealed@) == Some(plaintext@),
            Err(_) => chacha20poly1305_opened(key@, nonce@, sealed@) is None,
        },
        sealed@.len() < 16 ==> res is Err,
{
    let cipher = ChaCha20Poly1305::new(GenericArray::from_slice(key));
    cipher.decrypt(GenericArray::from_slice(nonce), sealed)
}

/// `String::from_utf8`: `Ok` exactly on valid UTF-8, and then the string
/// whose bytes are `vec`.
pub assume_specification[ String::from_utf8 ](vec: Vec<u8>) -> (res: Result<String, FromUtf8Error>)
    ensures
        res is Ok <==> valid_utf8(vec@),
        res matches Ok(text) ==> encode_utf8(text@) == vec@,
;

} // verus!
