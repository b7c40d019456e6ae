//! What holds of the cryptographic core as a whole, proved from the
//! contracts of its functions.
//!
//! The statements are over the spec functions of [`crate::encryption`]:
//! `encrypts` is what [`crate::encryption::encrypt_password`] ensures of
//! its result, `decryption_of` is what
//! [`crate::encryption::decrypt_password`] returns, `is_master_hash` is
//! what [`crate::encryption::hash_password`] ensures and
//! `master_hash_matches` is what
//! [`crate::encryption::verify_master_password`] returns.
//!
//! The last statements are of the vault: `lookup` is what
//! [`crate::manager::get_password_entry`] returns.
//!
//! Where a statement depends on the cipher or the key derivation telling
//! two inputs apart, that is a hypothesis: no deterministic function with a
//! fixed-size output tells all inputs apart. In particular the key
//! derivation pads a short secret with zero bytes, so a master password
//! and the same password followed by U+0000 stretch to one key.

use crate::encryption::{
    decryption_of, digestible, encrypts, entry_key, is_master_hash, lemma_sealed_blob_splits,
    lemma_sealed_text_is_longer, master_hash_matches, sealed_blob, stretched_key, NONCE_SIZE,
};
use crate::error::VaultError;
use crate::manager::{lookup, VaultView};
use crate::primitives::{base64_bytes, chacha20poly1305_opened, chacha20poly1305_sealed};
use vstd::prelude::*;
use vstd::utf8::{
    decode_utf8_encode_utf8, encode_utf8, encode_utf8_decode_utf8, encode_utf8_valid_utf8,
};

verus! {

/// Decrypting what was encrypted, for the same username and under the same
/// master password, gives the plaintext back. This holds of the empty
/// plaintext too.
pub proof fn decrypt_inverts_encrypt(
    blob: Seq<char>,
    password: Seq<char>,
    username: Seq<char>,
    master_password: Seq<char>,
)
    requires
        encrypts(blob, password, username, master_password),
    ensures
        decryption_of(blob, username, master_password) == Ok::<Seq<char>, VaultError>(password),
{
    let key = entry_key(username, master_password);
    let nonce = choose|nonce: Seq<u8>| #[trigger]
        sealed_blob(blob, key, nonce, encode_utf8(password));
    lemma_sealed_blob_splits(blob, key, nonce, encode_utf8(password));
    encode_utf8_valid_utf8(password);
    encode_utf8_decode_utf8(password);
}

/// The stored text of an encryption is never the password itself: it takes
/// more bytes, four for every three of nonce, ciphertext and tag.
pub proof fn stored_text_is_not_the_password(
    blob: Seq<char>,
    password: Seq<char>,
    username: Seq<char>,
    master_password: Seq<char>,
)
    requires
        encrypts(blob, password, username, master_password),
    ensures
        encode_utf8(blob).len() > encode_utf8(password).len(),
        blob != password,
{
    let key = entry_key(username, master_password);
    let nonce = choose|nonce: Seq<u8>| #[trigger]
        sealed_blob(blob, key, nonce, encode_utf8(password));
    lemma_sealed_text_is_longer(blob, key, nonce, encode_utf8(password));
}

/// Two nonces that differ give two stored texts that differ, whatever is
/// sealed and under whatever keys, and the texts decode to bytes that
/// differ within the first twelve.
pub proof fn different_nonces_give_different_texts(
    first: Seq<char>,
    second: Seq<char>,
    first_key: Seq<u8>,
    second_key: Seq<u8>,
    first_nonce: Seq<u8>,
    second_nonce: Seq<u8>,
    first_plaintext: Seq<u8>,
    second_plaintext: Seq<u8>,
)
    requires
        sealed_blob(first, first_key, first_nonce, first_plaintext),
        sealed_blob(second, second_key, second_nonce, second_plaintext),
        first_nonce != second_nonce,
    ensures
        first != second,
        base64_bytes(first)->0.subrange(0, NONCE_SIZE as int) != base64_bytes(second)->0.subrange(
            0,
            NONCE_SIZE as int,
        ),
{
    lemma_sealed_blob_splits(first, first_key, first_nonce, first_plaintext);
    lemma_sealed_blob_splits(second, second_key, second_nonce, second_plaintext);
}

/// Two encryptions of one plaintext, whatever their nonces, both decrypt
/// to it.
pub proof fn every_encryption_decrypts(
    first: Seq<char>,
    second: Seq<char>,
    password: Seq<char>,
    username: Seq<char>,
    master_password: Seq<char>,
)
    requires
        encrypts(first, password, username, master_password),
        encrypts(second, password, username, master_password),
    ensures
        decryption_of(first, username, master_password) == Ok::<Seq<char>, VaultError>(password),
        decryption_of(second, username, master_password) == Ok::<Seq<char>, VaultError>(password),
{
    decrypt_inverts_encrypt(first, password, username, master_password);
    decrypt_inverts_encrypt(second, password, username, master_password);
}

/// Two derivations from the same secret and salt give the same key.
pub proof fn derivation_is_deterministic(
    first: Seq<u8>,
    second: Seq<u8>,
    secret: Seq<char>,
    salt: Seq<u8>,
)
    requires
        first == stretched_key(secret, salt),
        second == stretched_key(secret, salt),
    ensures
        first == second,
{
}

/// A stored text whose bytes the cipher rejects is never decrypted: the
/// result is `AuthenticationFailure`, whatever was altered.
pub proof fn rejected_blob_fails_authentication(
    altered: Seq<char>,
    username: Seq<char>,
    master_password: Seq<char>,
)
    requires
        base64_bytes(altered) is Some,
        base64_bytes(altered)->0.len() >= NONCE_SIZE,
        chacha20poly1305_opened(
            entry_key(username, master_password),
            base64_bytes(altered)->0.subrange(0, NONCE_SIZE as int),
            base64_bytes(altered)->0.subrange(
                NONCE_SIZE as int,
                base64_bytes(altered)->0.len() as int,
            ),
        ) is None,
    ensures
        decryption_of(altered, username, master_password) == Err::<Seq<char>, VaultError>(
            VaultError::AuthenticationFailure,
        ),
{
}

/// Decryption never hands out text that the cipher did not authenticate:
/// where it succeeds, the stored text holds a nonce and a sealed part that
/// the cipher opens, under the entry's key, to the bytes of that text.
pub proof fn decrypted_text_is_authenticated(
    blob: Seq<char>,
    username: Seq<char>,
    master_password: Seq<char>,
)
    ensures
        decryption_of(blob, username, master_password) matches Ok(text) ==> {
            &&& base64_bytes(blob) is Some
            &&& base64_bytes(blob)->0.len() >= NONCE_SIZE
            &&& chacha20poly1305_opened(
                entry_key(username, master_password),
                base64_bytes(blob)->0.subrange(0, NONCE_SIZE as int),
                base64_bytes(blob)->0.subrange(
                    NONCE_SIZE as int,
                    base64_bytes(blob)->0.len() as int,
                ),
            ) == Some(encode_utf8(text))
        },
{
    if let Ok(text) = decryption_of(blob, username, master_password) {
        let bytes = base64_bytes(blob)->0;
        let opened = chacha20poly1305_opened(
            entry_key(username, master_password),
            bytes.subrange(0, NONCE_SIZE as int),
            bytes.subrange(NONCE_SIZE as int, bytes.len() as int),
        );
        decode_utf8_encode_utf8(opened->0);
    }
}

/// An entry encrypted under one master password does not decrypt under
/// another whose key the cipher rejects: the result is
/// `AuthenticationFailure`.
pub proof fn other_master_password_fails(
    blob: Seq<char>,
    nonce: Seq<u8>,
    password: Seq<char>,
    username: Seq<char>,
    master_password: Seq<char>,
    other: Seq<char>,
)
    requires
        sealed_blob(blob, entry_key(username, master_password), nonce, encode_utf8(password)),
        chacha20poly1305_opened(
            entry_key(username, other),
            nonce,
            chacha20poly1305_sealed(
                entry_key(username, master_password),
                nonce,
                encode_utf8(password),
            ),
        ) is None,
    ensures
        decryption_of(blob, username, other) == Err::<Seq<char>, VaultError>(
            VaultError::AuthenticationFailure,
        ),
{
    lemma_sealed_blob_splits(
        blob,
        entry_key(username, master_password),
        nonce,
        encode_utf8(password),
    );
}

/// An entry encrypted for one username does not decrypt for another whose
/// key the cipher rejects: the result is `AuthenticationFailure`. The
/// username is bound to the secret through the salt of the key.
pub proof fn other_username_fails(
    blob: Seq<char>,
    nonce: Seq<u8>,
    password: Seq<char>,
    username: Seq<char>,
    other: Seq<char>,
    master_password: Seq<char>,
)
    requires
        sealed_blob(blob, entry_key(username, master_password), nonce, encode_utf8(password)),
        chacha20poly1305_opened(
            entry_key(other, master_password),
            nonce,
            chacha20poly1305_sealed(
                entry_key(username, master_password),
                nonce,
                encode_utf8(password),
            ),
        ) is None,
    ensures
        decryption_of(blob, other, master_password) == Err::<Seq<char>, VaultError>(
            VaultError::AuthenticationFailure,
        ),
{
    lemma_sealed_blob_splits(
        blob,
        entry_key(username, master_password),
        nonce,
        encode_utf8(password),
    );
}

/// The password that was hashed is accepted against its hash.
pub proof fn hashed_password_verifies(hash: Seq<char>, password: Seq<char>, salt: Seq<u8>)
    requires
        is_master_hash(hash, password, salt),
    ensures
        master_hash_matches(hash, password, salt),
{
}

/// Another candidate is accepted against a hash exactly where it stretches
/// to the key of the password that was hashed.
pub proof fn candidate_verifies_iff_keys_agree(
    hash: Seq<char>,
    password: Seq<char>,
    candidate: Seq<char>,
    salt: Seq<u8>,
)
    requires
        is_master_hash(hash, password, salt),
    ensures
        master_hash_matches(hash, candidate, salt) <==> (digestible(candidate) && stretched_key(
            candidate,
            salt,
        ) == stretched_key(password, salt)),
{
}

/// A candidate that stretches to another key than the password that was
/// hashed is rejected.
pub proof fn other_password_is_rejected(
    hash: Seq<char>,
    password: Seq<char>,
    candidate: Seq<char>,
    salt: Seq<u8>,
)
    requires
        is_master_hash(hash, password, salt),
        stretched_key(candidate, salt) != stretched_key(password, salt),
    ensures
        !master_hash_matches(hash, candidate, salt),
{
    candidate_verifies_iff_keys_agree(hash, password, candidate, salt);
}

/// An entry that was sealed under the master password and stored is read
/// back with that master password: the lookup gives the username and the
/// password that went in.
pub proof fn stored_entry_is_read_back(
    before: VaultView,
    after: VaultView,
    service: Seq<char>,
    username: Seq<char>,
    password: Seq<char>,
    candidate: Seq<char>,
    salt: Seq<u8>,
)
    requires
        after.master_password_hash == before.master_password_hash,
        after.entries == before.entries.insert(service, (username, after.entries[service].1)),
        encrypts(after.entries[service].1, password, username, candidate),
        master_hash_matches(before.master_password_hash, candidate, salt),
    ensures
        lookup(after, service, candidate, salt) == Ok::<(Seq<char>, Seq<char>), VaultError>(
            (username, password),
        ),
{
    decrypt_inverts_encrypt(after.entries[service].1, password, username, candidate);
}

/// Storing an entry for one service leaves the lookup of every other
/// service as it was.
pub proof fn other_entries_are_untouched(
    before: VaultView,
    after: VaultView,
    service: Seq<char>,
    entry: (Seq<char>, Seq<char>),
    other: Seq<char>,
    candidate: Seq<char>,
    salt: Seq<u8>,
)
    requires
        after.master_password_hash == before.master_password_hash,
        after.entries == before.entries.insert(service, entry),
        other != service,
    ensures
        lookup(after, other, candidate, salt) == lookup(before, other, candidate, salt),
{
}

/// Without the master password nothing is read: a candidate that the
/// stored hash does not accept gets a mismatch for every service that the
/// vault holds.
pub proof fn rejected_candidate_reads_nothing(
    vault: VaultView,
    service: Seq<char>,
    candidate: Seq<char>,
    salt: Seq<u8>,
)
    requires
        vault.entries.contains_key(service),
        !master_hash_matches(vault.master_password_hash, candidate, salt),
    ensures
        lookup(vault, service, candidate, salt) == Err::<(Seq<char>, Seq<char>), VaultError>(
            VaultError::MasterPasswordMismatch,
        ),
{
}

} // verus!
