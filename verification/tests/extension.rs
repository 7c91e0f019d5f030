use myki::extension::commands::PasswordOptions;
use myki::extension::crypto::{
    decrypt, encrypt, generate_password, generate_password_from, hash, verify_password, CryptoError,
    MasterKey,
};
use myki::extension::vault::{
    decrypt_row, encrypt_fields, extract_domain, hash_from_blob, new_credential, new_vault_config,
    salt_from_blob, search_credentials, unlock_with_password, url_like_patterns, Credential,
    EncryptedRow, Vault,
};

#[test]
fn crypto_test_encrypt_decrypt() {
    let key = MasterKey::derive("test_password", None).unwrap();
    let plaintext = b"Hello, World!";
    let ciphertext = encrypt(plaintext, &key.as_bytes()).unwrap();
    let decrypted = decrypt(&ciphertext, &key.as_bytes()).unwrap();
    assert_eq!(plaintext.to_vec(), decrypted);
}

#[test]
fn test_generate_password() {
    let password = generate_password(16, true, true, true, true);
    assert_eq!(password.len(), 16);
}

#[test]
fn blob_layout_and_failures() {
    let key = [3u8; 32];
    let blob = encrypt(b"abc", &key).unwrap();
    assert_eq!(blob.len(), 12 + 3 + 16);
    assert!(matches!(decrypt(&blob[..11], &key), Err(CryptoError::InvalidData)));
    assert!(matches!(decrypt(&blob, &[4u8; 32]), Err(CryptoError::DecryptionFailed)));
    let mut tampered = blob.clone();
    tampered[20] ^= 0x80;
    assert!(matches!(decrypt(&tampered, &key), Err(CryptoError::DecryptionFailed)));
    assert_eq!(CryptoError::InvalidData.message(), "Invalid data");
}

#[test]
fn sha256_known_value() {
    let h = hash(b"abc");
    assert_eq!(&h[..4], &[0xba, 0x78, 0x16, 0xbf]);
    assert_eq!(h[31], 0xad);
}

#[test]
fn derivation_is_deterministic_for_a_salt() {
    let a = MasterKey::derive("pw", Some([1u8; 16])).unwrap();
    let b = MasterKey::derive("pw", Some([1u8; 16])).unwrap();
    let c = MasterKey::derive("other", Some([1u8; 16])).unwrap();
    assert_eq!(a.as_bytes(), b.as_bytes());
    assert_ne!(a.as_bytes(), c.as_bytes());
    assert_eq!(a.salt(), [1u8; 16]);
    let d = MasterKey::from_existing([9u8; 32], [8u8; 16]);
    assert_eq!(d.as_bytes(), [9u8; 32]);
    assert_eq!(d.salt(), [8u8; 16]);
}

#[test]
fn password_generation_from_given_bytes() {
    let random: Vec<u8> = (0u8..64).collect();
    assert_eq!(generate_password_from(&random, 5, false, true, false, false), "abcde");
    // Nothing selected falls back to lower case; indices wrap around the charset.
    assert_eq!(generate_password_from(&[25, 26, 27], 3, false, false, false, false), "zab");
    assert_eq!(generate_password_from(&[0, 10, 35], 3, false, false, true, false), "005");
    // At most one character per random byte.
    assert_eq!(generate_password_from(&[0, 1], 10, true, false, false, false), "AB");
    assert_eq!(generate_password(100, true, true, true, true).len(), 100);
    let lower = generate_password(100, false, true, false, false);
    assert!(lower.chars().count() == 100 && lower.chars().all(|c| c.is_ascii_lowercase()));
    let defaults = PasswordOptions::default();
    assert_eq!(defaults.length, 20);
    assert!(defaults.include_symbols);
}

#[test]
fn verify_password_accepts_only_the_right_password() {
    let key = MasterKey::derive("hunter2", Some([5u8; 16])).unwrap();
    let stored = hash(&key.as_bytes());
    assert!(verify_password("hunter2", &[5u8; 16], &stored));
    assert!(!verify_password("hunter3", &[5u8; 16], &stored));
    assert!(!verify_password("hunter2", &[6u8; 16], &stored));
}

#[test]
fn created_config_unlocks_with_its_password() {
    let (salt, stored) = new_vault_config("open sesame").unwrap();
    let key = unlock_with_password("open sesame", salt, stored).unwrap();
    assert_eq!(key.salt(), salt);
    assert_eq!(hash(&key.as_bytes()), stored);
    assert_eq!(unlock_with_password("open says me", salt, stored).err(), Some("Invalid password".to_string()));
}

#[test]
fn stored_blobs_with_wrong_sizes_read_as_zeros() {
    assert_eq!(salt_from_blob(&vec![1u8; 16]), [1u8; 16]);
    assert_eq!(salt_from_blob(&vec![1u8; 15]), [0u8; 16]);
    assert_eq!(hash_from_blob(&vec![2u8; 32]), [2u8; 32]);
    assert_eq!(hash_from_blob(&vec![2u8; 33]), [0u8; 32]);
}

#[test]
fn domains_and_like_patterns() {
    assert_eq!(extract_domain("https://accounts.example.com/login?x=1"), "accounts.example.com");
    assert_eq!(extract_domain("not a url"), "not a url");
    let (a, b) = url_like_patterns("https://example.org/path");
    assert_eq!(a, "%example.org%");
    assert_eq!(b, "%https://example.org/path%");
}

#[test]
fn fields_roundtrip_through_a_row() {
    let key = MasterKey::from_existing([7u8; 32], [0u8; 16]);
    let f = encrypt_fields(&key, "Title", "user", "pa\u{df}", Some("notes"), None).unwrap();
    let row = EncryptedRow {
        id: "id-1".into(),
        title_encrypted: f.title,
        username_encrypted: f.username,
        password_encrypted: f.password,
        url_pattern: Some("example.org".into()),
        notes_encrypted: f.notes,
        totp_secret_encrypted: f.totp_secret,
        folder_id: None,
        favorite: 2,
        created_at: 10,
        updated_at: 11,
        use_count: 3,
    };
    let c = decrypt_row(row, &key);
    assert_eq!(c.id, "id-1");
    assert_eq!(c.title, "Title");
    assert_eq!(c.username, "user");
    assert_eq!(c.password, "pa\u{df}");
    assert_eq!(c.notes.as_deref(), Some("notes"));
    assert!(c.totp_secret.is_none());
    assert!(c.favorite);
    assert_eq!((c.created_at, c.updated_at, c.use_count), (10, 11, 3));
}

#[test]
fn undecryptable_fields_read_as_empty_or_absent() {
    let key = MasterKey::from_existing([7u8; 32], [0u8; 16]);
    let row = EncryptedRow {
        id: "x".into(),
        title_encrypted: vec![1, 2, 3],
        username_encrypted: vec![0; 40],
        password_encrypted: vec![],
        url_pattern: None,
        notes_encrypted: Some(vec![9; 30]),
        totp_secret_encrypted: None,
        folder_id: Some("f".into()),
        favorite: 0,
        created_at: 0,
        updated_at: 0,
        use_count: 0,
    };
    let c = decrypt_row(row, &key);
    assert_eq!(c.title, "");
    assert_eq!(c.username, "");
    assert_eq!(c.password, "");
    assert!(c.notes.is_none());
    assert!(!c.favorite);
    assert_eq!(c.folder_id.as_deref(), Some("f"));
}

fn ext_cred(title: &str, username: &str, url: Option<&str>) -> Credential {
    Credential {
        id: title.to_lowercase(),
        title: title.into(),
        username: username.into(),
        password: "p".into(),
        url_pattern: url.map(|u| u.to_string()),
        notes: None,
        totp_secret: None,
        folder_id: None,
        favorite: false,
        created_at: 0,
        updated_at: 0,
        use_count: 0,
    }
}

#[test]
fn extension_search_matches_title_username_or_url() {
    let all = vec![
        ext_cred("Shop", "me", Some("shop.EXAMPLE.com")),
        ext_cred("Mail", "Example-User", None),
        ext_cred("Other", "x", None),
    ];
    let found = search_credentials(all, "example");
    let ids: Vec<&str> = found.iter().map(|c| c.id.as_str()).collect();
    assert_eq!(ids, vec!["shop", "mail"]);
}

#[test]
fn new_credential_is_fresh_and_encrypted() {
    let key = MasterKey::from_existing([7u8; 32], [0u8; 16]);
    let (fields, c) = new_credential(&key, "T", "U", "P", Some("u.example"), None, Some("JBSW")).unwrap();
    assert_eq!(c.id.len(), 36);
    assert_eq!(c.url_pattern.as_deref(), Some("u.example"));
    assert_eq!(c.totp_secret.as_deref(), Some("JBSW"));
    assert!(c.notes.is_none() && c.folder_id.is_none());
    assert_eq!(c.use_count, 0);
    assert_eq!(c.created_at, c.updated_at);
    assert_eq!(decrypt(&fields.password, &key.as_bytes()).unwrap(), b"P".to_vec());
    assert!(fields.notes.is_none());
    assert_eq!(decrypt(fields.totp_secret.as_ref().unwrap(), &key.as_bytes()).unwrap(), b"JBSW".to_vec());
}

#[test]
fn vault_session_gates_commands() {
    let mut v = Vault::new();
    assert_eq!(v.unlocked_parts().err(), Some("Vault is locked".to_string()));
    v.is_unlocked = true;
    assert_eq!(v.unlocked_parts().err(), Some("No connection".to_string()));
    v.connection = Some(rusqlite::Connection::open_in_memory().unwrap());
    assert_eq!(v.unlocked_parts().err(), Some("No master key".to_string()));
    v.lock();
    let conn = rusqlite::Connection::open_in_memory().unwrap();
    v.unlock(conn, MasterKey::from_existing([1u8; 32], [2u8; 16]));
    let (_, key) = v.unlocked_parts().unwrap();
    assert_eq!(key.as_bytes(), [1u8; 32]);
    v.lock();
    assert!(!v.is_unlocked && v.connection.is_none() && v.master_key.is_none());
}

#[test]
fn counters_need_only_an_unlocked_connection() {
    let mut v = Vault::new();
    assert_eq!(v.unlocked_connection().err(), Some("Vault is locked".to_string()));
    v.is_unlocked = true;
    assert_eq!(v.unlocked_connection().err(), Some("No connection".to_string()));
    v.connection = Some(rusqlite::Connection::open_in_memory().unwrap());
    assert!(v.unlocked_connection().is_ok());
    assert_eq!(v.unlocked_parts().err(), Some("No master key".to_string()));
}

#[test]
fn short_fields_always_encrypt() {
    let key = MasterKey::from_existing([7u8; 32], [0u8; 16]);
    assert!(encrypt_fields(&key, "", "", "", None, Some("")).is_ok());
    assert!(new_credential(&key, "t", "u", "p", None, Some("n"), None).is_ok());
}
