use dotfiles::crypto::{CryptoError, FileEncryptor, KeyError};

fn test_key() -> Vec<u8> {
    (0u8..32u8).collect()
}

const PHRASE: &str =
    "abandon abandon abandon abandon abandon abandon abandon abandon abandon abandon abandon about";

#[test]
fn round_trip_returns_plaintext() {
    let key = test_key();
    let plain: Vec<u8> = b"set nu\n".to_vec();
    let blob = FileEncryptor::encrypt_data(&plain, &key);
    let back = FileEncryptor::decrypt_data(&blob, &key).unwrap();
    assert_eq!(back, plain);
}

#[test]
fn round_trip_empty_plaintext() {
    let key = test_key();
    let plain: Vec<u8> = Vec::new();
    let blob = FileEncryptor::encrypt_data(&plain, &key);
    assert_eq!(blob.len(), 28);
    let back = FileEncryptor::decrypt_data(&blob, &key).unwrap();
    assert_eq!(back, plain);
}

#[test]
fn encrypt_then_decrypt_helper() {
    let key = test_key();
    let plain: Vec<u8> = b"alias ll='ls -l'\n".to_vec();
    assert_eq!(FileEncryptor::encrypt_then_decrypt(&plain, &key), plain);
}

#[test]
fn blob_layout_has_nonce_and_tag_overhead() {
    let key = test_key();
    let plain: Vec<u8> = b"abc".to_vec();
    let blob = FileEncryptor::encrypt_data(&plain, &key);
    assert_eq!(blob.len(), plain.len() + 12 + 16);
}

#[test]
fn tampering_any_ciphertext_byte_fails() {
    let key = test_key();
    let plain: Vec<u8> = b"secret config".to_vec();
    let blob = FileEncryptor::encrypt_data(&plain, &key);
    for i in 12..blob.len() {
        let mut bad = blob.clone();
        bad[i] ^= 0x01;
        assert!(FileEncryptor::decrypt_data(&bad, &key).is_err());
    }
}

#[test]
fn wrong_key_fails_closed() {
    let key = test_key();
    let mut other = test_key();
    other[0] ^= 0xFF;
    let plain: Vec<u8> = b"secret".to_vec();
    let blob = FileEncryptor::encrypt_data(&plain, &key);
    assert!(FileEncryptor::decrypt_data(&blob, &other).is_err());
}

#[test]
fn short_blob_is_rejected() {
    let key = test_key();
    let blob: Vec<u8> = vec![1, 2, 3];
    assert_eq!(
        FileEncryptor::decrypt_data(&blob, &key),
        Err(CryptoError::TooShort)
    );
}

#[test]
fn nonce_uniqueness_gives_different_blobs() {
    let key = test_key();
    let plain: Vec<u8> = b"same plaintext".to_vec();
    let one = FileEncryptor::encrypt_data(&plain, &key);
    let two = FileEncryptor::encrypt_data(&plain, &key);
    assert_ne!(one, two);
    assert_ne!(&one[..12], &two[..12]);
}

#[test]
fn key_derivation_is_deterministic() {
    let k1 = FileEncryptor::derive_key_from_mnemonic(PHRASE).unwrap();
    let k2 = FileEncryptor::derive_key_from_mnemonic(PHRASE).unwrap();
    assert_eq!(k1, k2);
    assert_eq!(k1.len(), 32);
}

#[test]
fn derive_rejects_wrong_word_count() {
    assert_eq!(
        FileEncryptor::derive_key_from_mnemonic("abandon abandon abandon"),
        Err(KeyError::WrongWordCount)
    );
}

#[test]
fn derive_rejects_bad_checksum() {
    let twelve =
        "abandon abandon abandon abandon abandon abandon abandon abandon abandon abandon abandon abandon";
    assert_eq!(
        FileEncryptor::derive_key_from_mnemonic(twelve),
        Err(KeyError::InvalidPhrase)
    );
}

#[test]
fn derive_rejects_unknown_words() {
    let twelve = "zzz zzz zzz zzz zzz zzz zzz zzz zzz zzz zzz zzz";
    assert_eq!(
        FileEncryptor::derive_key_from_mnemonic(twelve),
        Err(KeyError::InvalidPhrase)
    );
}

#[test]
fn generated_mnemonic_has_twelve_words_and_derives() {
    let phrase = FileEncryptor::generate_mnemonic();
    assert_eq!(phrase.split(' ').count(), 12);
    let key = FileEncryptor::derive_key_from_mnemonic(&phrase).unwrap();
    assert_eq!(key.len(), 32);
}

#[test]
fn key_file_round_trip() {
    let key = test_key();
    let text = FileEncryptor::encode_key(&key);
    assert_eq!(FileEncryptor::decode_key(&text), Ok(key.clone()));
    assert_eq!(FileEncryptor::encode_then_decode_key(&key), key);
}

#[test]
fn key_file_wrong_length_is_rejected() {
    // "YWJj" is the base64 of the three bytes of "abc".
    assert_eq!(
        FileEncryptor::decode_key("YWJj"),
        Err(KeyError::WrongKeyLength)
    );
}

#[test]
fn key_file_bad_encoding_is_rejected() {
    assert_eq!(
        FileEncryptor::decode_key("!!! not base64 !!!"),
        Err(KeyError::BadEncoding)
    );
}

#[test]
fn count_words_handles_whitespace_runs() {
    assert_eq!(dotfiles::crypto::count_words("  one   two\tthree\n"), 3);
    assert_eq!(dotfiles::crypto::count_words(""), 0);
    assert_eq!(dotfiles::crypto::count_words("   "), 0);
}
