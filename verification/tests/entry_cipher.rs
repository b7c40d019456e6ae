use base64::Engine;
use passm::encryption::{
    decrypt_password, derive_key, encrypt_password, frame_blob, generate_salt, is_blob_fitting,
    open_blob, seal_with_nonce, split_blob, text_from_bytes, NONCE_SIZE, TAG_SIZE,
};
use passm::error::VaultError;

fn decode(text: &str) -> Vec<u8> {
    base64::engine::general_purpose::STANDARD_NO_PAD.decode(text).unwrap()
}

fn encode(bytes: &[u8]) -> String {
    base64::engine::general_purpose::STANDARD_NO_PAD.encode(bytes)
}

fn counting_key() -> Vec<u8> {
    (0u8..32).collect()
}

fn counting_nonce() -> Vec<u8> {
    (0u8..12).collect()
}

#[test]
fn sizes_are_those_of_the_cipher() {
    assert_eq!(NONCE_SIZE, 12);
    assert_eq!(TAG_SIZE, 16);
}

#[test]
fn frame_blob_puts_the_nonce_first() {
    assert_eq!(frame_blob(&[1, 2, 3], &[4, 5]), vec![1, 2, 3, 4, 5]);
    assert_eq!(frame_blob(&[], &[9]), vec![9]);
    assert_eq!(frame_blob(&[7], &[]), vec![7]);
}

#[test]
fn split_blob_cuts_after_twelve_bytes() {
    let blob: Vec<u8> = (0u8..20).collect();
    let (nonce, sealed) = split_blob(&blob).unwrap();
    assert_eq!(nonce, (0u8..12).collect::<Vec<u8>>());
    assert_eq!(sealed, (12u8..20).collect::<Vec<u8>>());
}

#[test]
fn split_blob_accepts_a_bare_nonce() {
    let blob: Vec<u8> = (0u8..12).collect();
    let (nonce, sealed) = split_blob(&blob).unwrap();
    assert_eq!(nonce, blob);
    assert!(sealed.is_empty());
}

#[test]
fn split_blob_rejects_fewer_bytes_than_a_nonce() {
    assert_eq!(split_blob(&[]), Err(VaultError::InvalidEncoding));
    assert_eq!(split_blob(&[0u8; 11]), Err(VaultError::InvalidEncoding));
}

#[test]
fn split_blob_undoes_frame_blob() {
    let nonce = counting_nonce();
    let sealed = vec![0xaa, 0xbb, 0xcc];
    let (n, s) = split_blob(&frame_blob(&nonce, &sealed)).unwrap();
    assert_eq!(n, nonce);
    assert_eq!(s, sealed);
}

#[test]
fn text_from_bytes_reads_utf8() {
    assert_eq!(text_from_bytes(b"s3cr3t!".to_vec()), Ok("s3cr3t!".to_string()));
    assert_eq!(
        text_from_bytes("pässwörd€".as_bytes().to_vec()),
        Ok("pässwörd€".to_string())
    );
    assert_eq!(text_from_bytes(Vec::new()), Ok(String::new()));
}

#[test]
fn text_from_bytes_rejects_what_is_not_utf8() {
    assert_eq!(text_from_bytes(vec![0xff, 0xfe]), Err(VaultError::EncodingError));
    assert_eq!(text_from_bytes(vec![0x61, 0x80]), Err(VaultError::EncodingError));
    assert_eq!(text_from_bytes(vec![0xed, 0xa0, 0x80]), Err(VaultError::EncodingError));
}

#[test]
fn seal_with_nonce_gives_the_known_blob() {
    assert_eq!(
        seal_with_nonce("s3cr3t!", &counting_key(), &counting_nonce()),
        Ok("AAECAwQFBgcICQoL+shrchpjhFL8x73PfkM8U+Y1jCNAQC8".to_string())
    );
    assert_eq!(
        seal_with_nonce("pässwörd€", &counting_key(), &counting_nonce()),
        Ok("AAECAwQFBgcICQoL+Tisc1pgZvbF591xNG4vRtoinZ8Gz7HFBR1bExU".to_string())
    );
}

#[test]
fn seal_with_nonce_seals_the_empty_password() {
    assert_eq!(
        seal_with_nonce("", &counting_key(), &counting_nonce()),
        Ok("AAECAwQFBgcICQoLKVpJi4hBocX1XU1gb3MRWQ".to_string())
    );
}

#[test]
fn seal_with_nonce_is_a_function_of_its_arguments() {
    let first = seal_with_nonce("s3cr3t!", &counting_key(), &counting_nonce());
    let second = seal_with_nonce("s3cr3t!", &counting_key(), &counting_nonce());
    assert_eq!(first, second);
    let other_nonce = vec![9u8; 12];
    assert_ne!(first, seal_with_nonce("s3cr3t!", &counting_key(), &other_nonce));
}

#[test]
fn sealed_blob_holds_nonce_ciphertext_and_tag() {
    let blob = seal_with_nonce("s3cr3t!", &counting_key(), &counting_nonce()).unwrap();
    let bytes = decode(&blob);
    assert_eq!(bytes.len(), 12 + 7 + 16);
    assert_eq!(&bytes[..12], counting_nonce().as_slice());
    assert_ne!(&bytes[12..19], b"s3cr3t!");
}

#[test]
fn open_blob_undoes_seal_with_nonce() {
    for password in ["s3cr3t!", "", "pässwörd€", "a"] {
        let blob = seal_with_nonce(password, &counting_key(), &counting_nonce()).unwrap();
        assert_eq!(open_blob(&decode(&blob), &counting_key()), Ok(password.to_string()));
    }
}

#[test]
fn open_blob_rejects_fewer_bytes_than_a_nonce() {
    assert_eq!(open_blob(&[0u8; 11], &counting_key()), Err(VaultError::InvalidEncoding));
    assert_eq!(open_blob(&[], &counting_key()), Err(VaultError::InvalidEncoding));
}

#[test]
fn open_blob_rejects_a_missing_or_short_tag() {
    assert_eq!(open_blob(&[0u8; 12], &counting_key()), Err(VaultError::AuthenticationFailure));
    assert_eq!(open_blob(&[0u8; 27], &counting_key()), Err(VaultError::AuthenticationFailure));
    assert_eq!(open_blob(&[0u8; 28], &counting_key()), Err(VaultError::AuthenticationFailure));
}

#[test]
fn open_blob_rejects_another_key() {
    let blob = decode(&seal_with_nonce("s3cr3t!", &counting_key(), &counting_nonce()).unwrap());
    let mut other = counting_key();
    other[0] ^= 1;
    assert_eq!(open_blob(&blob, &other), Err(VaultError::AuthenticationFailure));
}

#[test]
fn open_blob_rejects_every_flipped_bit() {
    let key = counting_key();
    let blob = decode(&seal_with_nonce("s3cr3t!", &key, &counting_nonce()).unwrap());
    assert_eq!(open_blob(&blob, &key), Ok("s3cr3t!".to_string()));
    for at in 0..blob.len() {
        for bit in 0..8 {
            let mut altered = blob.clone();
            altered[at] ^= 1 << bit;
            assert_eq!(open_blob(&altered, &key), Err(VaultError::AuthenticationFailure));
        }
    }
}

#[test]
fn open_blob_rejects_a_cut_or_lengthened_blob() {
    let key = counting_key();
    let blob = decode(&seal_with_nonce("s3cr3t!", &key, &counting_nonce()).unwrap());
    let cut = &blob[..blob.len() - 1];
    assert_eq!(open_blob(cut, &key), Err(VaultError::AuthenticationFailure));
    let mut longer = blob.clone();
    longer.push(0);
    assert_eq!(open_blob(&longer, &key), Err(VaultError::AuthenticationFailure));
}

#[test]
fn open_blob_reports_plaintext_that_is_not_utf8() {
    let blob = decode("AAECAwQFBgcICQoLdgX92O//cyJdg31BJgCOhHhA");
    assert_eq!(open_blob(&blob, &counting_key()), Err(VaultError::EncodingError));
}

#[test]
fn encrypt_then_decrypt_gives_the_secret_back() {
    let blob = encrypt_password("s3cr3t!", "alice", "masterpw").unwrap();
    assert_eq!(decrypt_password(&blob, "alice", "masterpw"), Ok("s3cr3t!".to_string()));
}

#[test]
fn round_trip_holds_for_several_inputs() {
    let cases = [
        ("p", "u", "m"),
        ("", "alice", "masterpw"),
        ("pässwörd€", "älice", "mästerpw"),
        ("a password with spaces", "", ""),
        ("line\nbreak\tand\0nul", "bob", "correct-horse"),
    ];
    for (password, username, master) in cases {
        let blob = encrypt_password(password, username, master).unwrap();
        assert_eq!(decrypt_password(&blob, username, master), Ok(password.to_string()));
    }
}

#[test]
fn round_trip_holds_for_a_long_password() {
    let password = "x".repeat(10_000);
    let blob = encrypt_password(&password, "alice", "masterpw").unwrap();
    assert_eq!(decrypt_password(&blob, "alice", "masterpw"), Ok(password));
}

#[test]
fn encrypted_blob_is_unpadded_base64_of_nonce_ciphertext_and_tag() {
    let blob = encrypt_password("s3cr3t!", "alice", "masterpw").unwrap();
    assert_eq!(blob.len(), 47);
    assert!(!blob.contains('='));
    assert_eq!(decode(&blob).len(), 12 + 7 + 16);
}

#[test]
fn encrypted_empty_secret_holds_nonce_and_tag_only() {
    let blob = encrypt_password("", "alice", "masterpw").unwrap();
    assert_eq!(blob.len(), 38);
    assert_eq!(decode(&blob).len(), 12 + 16);
    assert_eq!(decrypt_password(&blob, "alice", "masterpw"), Ok(String::new()));
}

#[test]
fn encrypted_blob_is_longer_than_the_password() {
    for password in ["", "a", "s3cr3t!", "pässwörd€"] {
        let blob = encrypt_password(password, "alice", "masterpw").unwrap();
        assert_ne!(blob, password);
        let framed = password.len() + 28;
        assert_eq!(blob.len(), framed / 3 * 4 + [0, 2, 3][framed % 3]);
    }
    let long = "x".repeat(1000);
    assert_eq!(encrypt_password(&long, "alice", "masterpw").unwrap().len(), 1371);
}

#[test]
fn texts_sealed_with_different_nonces_differ_in_the_first_twelve_bytes() {
    let first = seal_with_nonce("s3cr3t!", &counting_key(), &counting_nonce()).unwrap();
    let second = seal_with_nonce("s3cr3t!", &counting_key(), &[7u8; 12]).unwrap();
    assert_ne!(first, second);
    assert_ne!(decode(&first)[..12], decode(&second)[..12]);
}

#[test]
fn encrypt_uses_the_key_of_username_and_master_password() {
    let blob = encrypt_password("s3cr3t!", "alice", "masterpw").unwrap();
    let key = derive_key("masterpw", &generate_salt("alice"));
    assert_eq!(open_blob(&decode(&blob), &key), Ok("s3cr3t!".to_string()));
}

#[test]
fn decrypt_opens_the_known_blob() {
    assert_eq!(
        decrypt_password("AAECAwQFBgcICQoLZ3qs84767DWyRLxfpK3xPx9KYx2iW+A", "alice", "masterpw"),
        Ok("s3cr3t!".to_string())
    );
}

#[test]
fn two_encryptions_differ_and_both_decrypt() {
    let first = encrypt_password("s3cr3t!", "alice", "masterpw").unwrap();
    let second = encrypt_password("s3cr3t!", "alice", "masterpw").unwrap();
    assert_ne!(first, second);
    assert_ne!(decode(&first)[..12], decode(&second)[..12]);
    assert_eq!(decrypt_password(&first, "alice", "masterpw"), Ok("s3cr3t!".to_string()));
    assert_eq!(decrypt_password(&second, "alice", "masterpw"), Ok("s3cr3t!".to_string()));
}

#[test]
fn decrypt_fails_under_another_master_password() {
    let blob = encrypt_password("s3cr3t!", "alice", "masterpw").unwrap();
    assert_eq!(
        decrypt_password(&blob, "alice", "masterpW"),
        Err(VaultError::AuthenticationFailure)
    );
    assert_eq!(decrypt_password(&blob, "alice", ""), Err(VaultError::AuthenticationFailure));
}

#[test]
fn decrypt_fails_for_another_username() {
    let blob = encrypt_password("s3cr3t!", "alice", "masterpw").unwrap();
    assert_eq!(decrypt_password(&blob, "bob", "masterpw"), Err(VaultError::AuthenticationFailure));
    assert_eq!(
        decrypt_password(&blob, "Alice", "masterpw"),
        Err(VaultError::AuthenticationFailure)
    );
}

#[test]
fn decrypt_fails_on_an_altered_blob() {
    let blob = encrypt_password("s3cr3t!", "alice", "masterpw").unwrap();
    let bytes = decode(&blob);
    for at in [0, 5, 11, 12, 15, 18, 19, 26, bytes.len() - 1] {
        let mut altered = bytes.clone();
        altered[at] ^= 0x01;
        assert_eq!(
            decrypt_password(&encode(&altered), "alice", "masterpw"),
            Err(VaultError::AuthenticationFailure)
        );
    }
}

#[test]
fn decrypt_rejects_text_that_is_not_base64() {
    assert_eq!(
        decrypt_password("this is not base64!", "alice", "masterpw"),
        Err(VaultError::InvalidEncoding)
    );
    assert_eq!(
        decrypt_password("AAECAwQFBgcICQoLZ3qs84767DWyRLxfpK3xPx9KYx2iW+A=", "alice", "masterpw"),
        Err(VaultError::InvalidEncoding)
    );
}

#[test]
fn decrypt_rejects_a_blob_shorter_than_a_nonce() {
    assert_eq!(decrypt_password("", "alice", "masterpw"), Err(VaultError::InvalidEncoding));
    assert_eq!(
        decrypt_password("AAAAAAAAAAAAAAA", "alice", "masterpw"),
        Err(VaultError::InvalidEncoding)
    );
}

#[test]
fn decrypt_of_a_bare_nonce_fails_authentication() {
    assert_eq!(
        decrypt_password("AAAAAAAAAAAAAAAA", "alice", "masterpw"),
        Err(VaultError::AuthenticationFailure)
    );
}

#[test]
fn decrypt_reports_plaintext_that_is_not_utf8() {
    assert_eq!(
        decrypt_password("AAECAwQFBgcICQoL67c/hIAR6WH29OpTuFc6eMdq", "alice", "masterpw"),
        Err(VaultError::EncodingError)
    );
}

#[test]
fn entries_with_one_username_share_their_key() {
    let first = encrypt_password("one", "alice", "masterpw").unwrap();
    let second = encrypt_password("two", "alice", "masterpw").unwrap();
    let key = derive_key("masterpw", &generate_salt("alice"));
    assert_eq!(open_blob(&decode(&first), &key), Ok("one".to_string()));
    assert_eq!(open_blob(&decode(&second), &key), Ok("two".to_string()));
}

#[test]
fn ordinary_passwords_fit() {
    assert!(is_blob_fitting(""));
    assert!(is_blob_fitting("s3cr3t!"));
    assert!(is_blob_fitting(&"x".repeat(4096)));
}
