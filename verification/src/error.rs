//! The ways in which a vault operation can fail.

use vstd::prelude::*;

verus! {

/// The reason a vault operation did not produce its result.
///
/// The three decryption failures of the authenticated cipher (wrong key,
/// wrong username, altered ciphertext) are deliberately one variant: the
/// cipher does not tell them apart, and callers must not either.
#[derive(Debug, Clone, Copy, PartialEq, Eq, Structural)]
pub enum VaultError {
    /// A sealed secret is not unpadded standard base64, or decodes to fewer
    /// bytes than a nonce. (A stored hash that does not decode matches no
    /// candidate: that is a `MasterPasswordMismatch`.)
    InvalidEncoding,
    /// The authentication tag did not verify, or no key or sealed secret
    /// of such a length can exist.
    AuthenticationFailure,
    /// The opened bytes are not valid UTF-8.
    EncodingError,
    /// The candidate master password does not match the stored hash.
    MasterPasswordMismatch,
    /// The secret cannot be sealed: the plaintext is longer than the cipher
    /// seals under one nonce or than a stored text can hold, or username
    /// or master password are too long to make a key.
    EncryptionFailure,
    /// The vault holds no entry for the service.
    EntryNotFound,
}

impl VaultError {
    /// A short description for the user.
    pub fn message(&self) -> (text: &'static str)
        ensures
            text@ == self.spec_message(),
    {
        match self {
            VaultError::InvalidEncoding => "invalid encoding",
            VaultError::AuthenticationFailure => "decryption error",
            VaultError::EncodingError => "utf-8 conversion error",
            VaultError::MasterPasswordMismatch => "invalid master password",
            VaultError::EncryptionFailure => "encryption error",
            VaultError::EntryNotFound => "no entry found",
        }
    }

    /// The text that [`VaultError::message`] returns.
    pub open spec fn spec_message(&self) -> Seq<char> {
        match self {
            VaultError::InvalidEncoding => "invalid encoding"@,
            VaultError::AuthenticationFailure => "decryption error"@,
            VaultError::EncodingError => "utf-8 conversion error"@,
            VaultError::MasterPasswordMismatch => "invalid master password"@,
            VaultError::EncryptionFailure => "encryption error"@,
            VaultError::EntryNotFound => "no entry found"@,
        }
    }
}

} // verus!
