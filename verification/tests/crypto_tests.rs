use shushing_face::crypto::{
    decrypt, derive_key, encrypt, encrypt_with_nonce, generate_random_bytes, EncryptionKey,
    ENCRYPTION_KEY_SIZE, MAX_PASSWORD_SIZE, MAX_PLAINTEXT_SIZE, NONCE_SIZE, SALT_SIZE, TAG_SIZE,
};
use shushing_face::error::TasksError;

fn unhex(text: &str) -> Vec<u8> {
    let digits: Vec<u8> = text
        .bytes()
        .map(|b| match b {
            b'0'..=b'9' => b - b'0',
            b'a'..=b'f' => b - b'a' + 10,
            _ => panic!("not a hex digit"),
        })
        .collect();
    digits.chunks(2).map(|pair| pair[0] * 16 + pair[1]).collect()
}

fn key_from(text: &str) -> [u8; ENCRYPTION_KEY_SIZE] {
    let mut key = [0u8; ENCRYPTION_KEY_SIZE];
    key.copy_from_slice(&unhex(text));
    key
}

fn nonce_from(text: &str) -> [u8; NONCE_SIZE] {
    let mut nonce = [0u8; NONCE_SIZE];
    nonce.copy_from_slice(&unhex(text));
    nonce
}

fn derived(password: &str, salt: &[u8; SALT_SIZE]) -> [u8; ENCRYPTION_KEY_SIZE] {
    let mut key = [0u8; ENCRYPTION_KEY_SIZE];
    derive_key(password, salt, &mut key).expect("Key derivation should succeed.");
    key
}

#[test]
fn test_generate_random_bytes() {
    let mut buffer = [0u8; SALT_SIZE];
    generate_random_bytes(&mut buffer);
    assert_ne!(buffer, [0u8; SALT_SIZE], "Buffer should not be all zeroes.");
}

#[test]
fn test_derive_key() {
    let password = "strong_password";
    let mut salt = [0u8; SALT_SIZE];
    let mut encryption_key = [0u8; ENCRYPTION_KEY_SIZE];
    generate_random_bytes(&mut salt);
    derive_key(password, &salt, &mut encryption_key).expect("Key derivation should succeed.");
    assert_ne!(
        encryption_key, [0u8; ENCRYPTION_KEY_SIZE],
        "Encryption key should not be all zeroes."
    );
}

#[test]
fn test_encrypt_decrypt() {
    let password = "strong_password";
    let mut salt = [0u8; SALT_SIZE];
    let mut encryption_key = [0u8; ENCRYPTION_KEY_SIZE];
    generate_random_bytes(&mut salt);
    derive_key(password, &salt, &mut encryption_key).expect("Key derivation should succeed.");

    let data = "Data to encrypt".as_bytes();
    let encrypted_data = encrypt(data, &encryption_key).expect("Encryption should succeed.");
    assert_ne!(
        encrypted_data, data,
        "Encrypted data should not match original."
    );

    let decrypted_data =
        decrypt(&encrypted_data, &encryption_key).expect("Decryption should succeed.");
    assert_eq!(
        decrypted_data,
        String::from_utf8_lossy(data),
        "Decrypted data should match original."
    );
}

#[test]
fn test_decrypt_with_invalid_data() {
    let encryption_key = [0u8; ENCRYPTION_KEY_SIZE];
    let invalid_data = [0u8; 5]; // Less than NONCE_SIZE
    assert!(
        decrypt(&invalid_data, &encryption_key).is_err(),
        "Decryption should fail with invalid data."
    );
}

#[test]
fn sizes_are_those_of_the_file_format() {
    assert_eq!(SALT_SIZE, 16);
    assert_eq!(ENCRYPTION_KEY_SIZE, 32);
    assert_eq!(NONCE_SIZE, 12);
    assert_eq!(TAG_SIZE, 16);
    assert_eq!(MAX_PLAINTEXT_SIZE, 1u64 << 36);
    assert_eq!(MAX_PASSWORD_SIZE, u32::MAX as u64);
}

#[test]
fn derive_key_is_the_argon2_default_hash() {
    let salt = [7u8; SALT_SIZE];
    let mut expected = [0u8; ENCRYPTION_KEY_SIZE];
    argon2::Argon2::default()
        .hash_password_into("correct horse".as_bytes(), &salt, &mut expected)
        .unwrap();
    assert_eq!(derived("correct horse", &salt), expected);
    assert_ne!(expected, [0u8; ENCRYPTION_KEY_SIZE]);
}

#[test]
fn derive_key_gives_the_same_key_for_the_same_input() {
    let salt = [3u8; SALT_SIZE];
    assert_eq!(derived("pw1", &salt), derived("pw1", &salt));
}

#[test]
fn derive_key_depends_on_salt_and_password() {
    let salt_a = [1u8; SALT_SIZE];
    let mut salt_b = [1u8; SALT_SIZE];
    salt_b[15] = 2;
    assert_ne!(derived("pw1", &salt_a), derived("pw1", &salt_b));
    assert_ne!(derived("pw1", &salt_a), derived("pw2", &salt_a));
}

#[test]
fn derive_key_takes_the_empty_password_and_text_beyond_ascii() {
    let salt = [9u8; SALT_SIZE];
    let empty = derived("", &salt);
    let accented = derived("pässwörd", &salt);
    assert_ne!(empty, accented);
    let mut expected = [0u8; ENCRYPTION_KEY_SIZE];
    argon2::Argon2::default()
        .hash_password_into("pässwörd".as_bytes(), &salt, &mut expected)
        .unwrap();
    assert_eq!(accented, expected);
}

#[test]
fn encrypt_with_nonce_matches_a_published_vector() {
    let key = key_from("31bdadd96698c204aa9ce1448ea94ae1fb4a9a0b3c9d773b51bb1822666b8f22");
    let nonce = nonce_from("0d18e06c7c725ac9e362e1ce");
    let plaintext = unhex("2db5168e932556f8089a0622981d017d");
    let blob = encrypt_with_nonce(&plaintext, &key, &nonce).unwrap();
    let mut expected = unhex("0d18e06c7c725ac9e362e1ce");
    expected.extend(unhex("fa4362189661d163fcd6a56d8bf0405a"));
    expected.extend(unhex("d636ac1bbedd5cc3ee727dc2ab4a9489"));
    assert_eq!(blob, expected);
}

#[test]
fn encrypt_with_nonce_of_nothing_is_nonce_and_tag() {
    let key = key_from("b52c505a37d78eda5dd34f20c22540ea1b58963cf8e5bf8ffa85f9f2492505b4");
    let nonce = nonce_from("516c33929df5a3284ff463d7");
    let blob = encrypt_with_nonce(&[], &key, &nonce).unwrap();
    let mut expected = unhex("516c33929df5a3284ff463d7");
    expected.extend(unhex("bdc1ac884d332457a1d2664f168c76f0"));
    assert_eq!(blob, expected);
    assert_eq!(decrypt(&blob, &key).unwrap(), "");
}

#[test]
fn decrypt_of_a_published_vector_that_is_not_text_fails_as_utf8() {
    let key = key_from("31bdadd96698c204aa9ce1448ea94ae1fb4a9a0b3c9d773b51bb1822666b8f22");
    let mut blob = unhex("0d18e06c7c725ac9e362e1ce");
    blob.extend(unhex("fa4362189661d163fcd6a56d8bf0405a"));
    blob.extend(unhex("d636ac1bbedd5cc3ee727dc2ab4a9489"));
    assert!(matches!(decrypt(&blob, &key), Err(TasksError::Utf8Error(_))));
}

#[test]
fn blob_is_nonce_then_ciphertext_then_tag() {
    let key = [5u8; ENCRYPTION_KEY_SIZE];
    for len in [0usize, 1, 15, 16, 17, 1000] {
        let data = vec![b'a'; len];
        let blob = encrypt(&data, &key).unwrap();
        assert_eq!(blob.len(), NONCE_SIZE + len + TAG_SIZE);
        let nonce = nonce_from_slice(&blob[..NONCE_SIZE]);
        assert_eq!(encrypt_with_nonce(&data, &key, &nonce).unwrap(), blob);
    }
}

fn nonce_from_slice(bytes: &[u8]) -> [u8; NONCE_SIZE] {
    let mut nonce = [0u8; NONCE_SIZE];
    nonce.copy_from_slice(bytes);
    nonce
}

#[test]
fn decrypt_gives_back_what_encrypt_took() {
    let key = [0x42u8; ENCRYPTION_KEY_SIZE];
    for text in [
        "",
        "a",
        "Data to encrypt",
        "{\"version\":\"1\",\"events\":[]}",
        "žluťoučký kůň 🤫",
    ] {
        let blob = encrypt(text.as_bytes(), &key).unwrap();
        assert_eq!(decrypt(&blob, &key).unwrap(), text);
    }
}

#[test]
fn encrypt_draws_a_new_nonce_for_every_call() {
    let key = [1u8; ENCRYPTION_KEY_SIZE];
    let first = encrypt(b"same", &key).unwrap();
    let second = encrypt(b"same", &key).unwrap();
    assert_ne!(first[..NONCE_SIZE], second[..NONCE_SIZE]);
    assert_ne!(first, second);
    assert_eq!(decrypt(&first, &key).unwrap(), "same");
    assert_eq!(decrypt(&second, &key).unwrap(), "same");
}

#[test]
fn decrypt_detects_every_flipped_bit() {
    let key = [0x11u8; ENCRYPTION_KEY_SIZE];
    let blob = encrypt(b"tasks", &key).unwrap();
    for byte in 0..blob.len() {
        for bit in 0..8 {
            let mut tampered = blob.clone();
            tampered[byte] ^= 1 << bit;
            match decrypt(&tampered, &key) {
                Err(TasksError::AesGcmError(_)) => {}
                other => panic!("byte {} bit {}: {:?}", byte, bit, other),
            }
        }
    }
}

#[test]
fn decrypt_under_another_key_fails_like_a_damaged_blob() {
    let key = [0x11u8; ENCRYPTION_KEY_SIZE];
    let mut other = key;
    other[0] ^= 1;
    let blob = encrypt(b"tasks", &key).unwrap();
    assert!(matches!(decrypt(&blob, &other), Err(TasksError::AesGcmError(_))));
}

#[test]
fn decrypt_of_a_truncated_blob_fails() {
    let key = [0x11u8; ENCRYPTION_KEY_SIZE];
    let blob = encrypt(b"tasks", &key).unwrap();
    for len in 0..blob.len() {
        let result = decrypt(&blob[..len], &key);
        if len < NONCE_SIZE {
            match result {
                Err(TasksError::CryptoError(text)) => {
                    assert_eq!(text, "Encrypted data is too short")
                }
                other => panic!("length {}: {:?}", len, other),
            }
        } else {
            assert!(matches!(result, Err(TasksError::AesGcmError(_))), "length {}", len);
        }
    }
}

#[test]
fn decrypt_of_exactly_a_nonce_is_rejected_by_the_cipher() {
    let key = [0u8; ENCRYPTION_KEY_SIZE];
    assert!(matches!(
        decrypt(&[0u8; NONCE_SIZE], &key),
        Err(TasksError::AesGcmError(_))
    ));
}

#[test]
fn new_key_holder_holds_zeros() {
    let holder = EncryptionKey::new();
    assert!(holder.matches(&[0u8; ENCRYPTION_KEY_SIZE]));
    assert!(EncryptionKey::default().matches(&[0u8; ENCRYPTION_KEY_SIZE]));
}

#[test]
fn key_holder_set_compare_and_zeroize() {
    let mut holder = EncryptionKey::new();
    let key = [0xabu8; ENCRYPTION_KEY_SIZE];
    holder.set(&key);
    assert!(holder.matches(&key));
    let mut nearly = key;
    nearly[31] ^= 0x80;
    assert!(!holder.matches(&nearly));
    assert!(!holder.matches(&[0u8; ENCRYPTION_KEY_SIZE]));
    holder.zeroize();
    assert!(holder.matches(&[0u8; ENCRYPTION_KEY_SIZE]));
    assert!(!holder.matches(&key));
}

#[test]
fn key_holder_derives_in_place() {
    let salt = [4u8; SALT_SIZE];
    let mut holder = EncryptionKey::new();
    holder.derive("pw1", &salt).unwrap();
    assert!(holder.matches(&derived("pw1", &salt)));
}

#[test]
fn key_holder_lends_the_key_for_one_operation() {
    let mut holder = EncryptionKey::new();
    let key = [0x5au8; ENCRYPTION_KEY_SIZE];
    holder.set(&key);
    let blob = holder.with_key(|held| encrypt(b"lent", held)).unwrap();
    assert_eq!(decrypt(&blob, &key).unwrap(), "lent");
    let copy = holder.with_key(|held| *held);
    assert_eq!(copy, key);
}
