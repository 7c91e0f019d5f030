use myki::crypto::decode_base64;
use myki::vault::{
    canary_record, check_canary, credential_metas, new_vault, open_credential_json,
    open_credential_jsons, open_record, search_credential_metas, search_credentials,
    seal_credential_json, seal_record, vault_meta_records, VaultError,
};
use myki::{derive_key, Aes256Gcm, Argon2Config, Credential, MasterKey, VaultKey};

fn cipher(byte: u8) -> Aes256Gcm {
    Aes256Gcm::new(&VaultKey::from_bytes([byte; 32]))
}

fn cred(title: &str, username: &str, url: Option<&str>) -> Credential {
    let mut c = Credential::new(title.to_string(), username.to_string(), "pw".to_string());
    c.url = url.map(|u| u.to_string());
    c
}

#[test]
fn sealed_credential_reads_back() {
    let c = cipher(3);
    let json = "{\"title\":\"GitHub\",\"note\":\"caf\u{e9}\"}";
    let stored = seal_credential_json(&c, json).unwrap();
    assert_eq!(open_credential_json(&c, &stored).unwrap(), json);
}

#[test]
fn sealed_record_needs_the_same_key() {
    let stored = seal_credential_json(&cipher(3), "{}").unwrap();
    assert!(matches!(open_credential_json(&cipher(4), &stored), Err(VaultError::Decryption(_))));
    assert!(matches!(open_credential_json(&cipher(3), "garbage"), Err(VaultError::Decryption(_))));
}

#[test]
fn raw_records_roundtrip() {
    let c = cipher(9);
    let stored = seal_record(&c, &[0xff, 0x00, 0x10]).unwrap();
    assert_eq!(open_record(&c, &stored).unwrap(), vec![0xff, 0x00, 0x10]);
    // Not UTF-8: the raw record opens, the JSON reader refuses it.
    assert!(matches!(open_credential_json(&c, &stored), Err(VaultError::Decryption(_))));
}

#[test]
fn records_with_a_short_nonce_are_refused() {
    let c = cipher(9);
    assert!(open_record(&c, "AQID:BAUGBw==").is_err());
    assert!(open_credential_json(&c, "AQID:BAUGBw==").is_err());
}

#[test]
fn records_open_in_order() {
    let c = cipher(5);
    let a = seal_credential_json(&c, "first").unwrap();
    let d = seal_credential_json(&c, "third").unwrap();
    assert_eq!(open_credential_jsons(&c, &vec![a, d]).unwrap(), vec!["first".to_string(), "third".to_string()]);
    assert!(open_credential_jsons(&c, &vec![]).unwrap().is_empty());
}

#[test]
fn an_unreadable_record_fails_the_listing() {
    let c = cipher(5);
    let a = seal_credential_json(&c, "first").unwrap();
    let foreign = seal_credential_json(&cipher(6), "foreign").unwrap();
    assert!(matches!(open_credential_jsons(&c, &vec![a.clone(), foreign]), Err(VaultError::Decryption(_))));
    assert!(matches!(open_credential_jsons(&c, &vec![a, "junk".to_string()]), Err(VaultError::Decryption(_))));
}

#[test]
fn canary_accepts_its_key_only() {
    let c = cipher(1);
    let stored = canary_record(&c).unwrap();
    assert!(check_canary(&c, Some(&stored)).is_ok());
    assert!(check_canary(&c, None).is_ok());
    match check_canary(&cipher(2), Some(&stored)) {
        Err(VaultError::Decryption(m)) => assert_eq!(m, "Wrong password or corrupted vault"),
        _ => panic!("wrong key accepted"),
    }
    match check_canary(&c, Some("nonsense")) {
        Err(VaultError::Decryption(m)) => assert_eq!(m, "Corrupted vault canary"),
        _ => panic!("corrupt canary accepted"),
    }
}

#[test]
fn canary_with_other_plaintext_is_refused() {
    let c = cipher(1);
    let stored = seal_record(&c, b"not the canary").unwrap();
    assert!(check_canary(&c, Some(&stored)).is_err());
}

#[test]
fn meta_records_store_the_given_salt() {
    let key = MasterKey::from_derived([4u8; 64]);
    let (salt_b64, canary) = vault_meta_records(&key, Some([9u8; 32])).unwrap();
    assert_eq!(decode_base64(&salt_b64).unwrap(), vec![9u8; 32]);
    assert!(check_canary(&Aes256Gcm::new(&key.vault_key), Some(&canary)).is_ok());
    let (fresh, _) = vault_meta_records(&key, None).unwrap();
    assert_eq!(decode_base64(&fresh).unwrap().len(), 32);
}

#[test]
fn created_vault_reopens_with_its_password() {
    let v = new_vault("correct horse").unwrap();
    let salt = decode_base64(&v.salt_b64).unwrap();
    assert_eq!(salt.len(), 32);
    let key = derive_key("correct horse", &salt, &Argon2Config::default()).unwrap();
    assert_eq!(key.vault_key.as_bytes(), v.master_key.vault_key.as_bytes());
    assert!(check_canary(&Aes256Gcm::new(&key.vault_key), Some(&v.canary)).is_ok());
    let wrong = derive_key("wrong horse", &salt, &Argon2Config::default()).unwrap();
    assert!(check_canary(&Aes256Gcm::new(&wrong.vault_key), Some(&v.canary)).is_err());
}

#[test]
fn search_is_case_insensitive_and_ordered() {
    let all = vec![
        cred("GitHub", "alice", None),
        cred("Bank", "bob", Some("https://mybank.example")),
        cred("Mail", "GITHUB-bot", None),
        cred("Other", "carol", None),
    ];
    let found = search_credentials(all.clone(), "github");
    let titles: Vec<&str> = found.iter().map(|c| c.title.as_str()).collect();
    assert_eq!(titles, vec!["GitHub", "Mail"]);
    let by_url = search_credentials(all.clone(), "MYBANK");
    assert_eq!(by_url.len(), 1);
    assert_eq!(by_url[0].title, "Bank");
    assert!(search_credentials(all.clone(), "zzz").is_empty());
    assert_eq!(search_credentials(all, "").len(), 4);
}

#[test]
fn metas_drop_secrets_and_keep_order() {
    let mut a = cred("A", "u1", Some("https://a.example"));
    a.favorite = true;
    a.notes = Some("secret note".to_string());
    let b = cred("B", "u2", None);
    let metas = credential_metas(&vec![a.clone(), b.clone()]);
    assert_eq!(metas.len(), 2);
    assert_eq!(metas[0].id, a.id);
    assert_eq!(metas[0].title, "A");
    assert_eq!(metas[0].url.as_deref(), Some("https://a.example"));
    assert!(metas[0].favorite);
    assert_eq!(metas[1].username, "u2");
    let found = search_credential_metas(vec![a, b], "u2");
    assert_eq!(found.len(), 1);
    assert_eq!(found[0].title, "B");
}

#[test]
fn vault_error_messages() {
    assert_eq!(VaultError::NotFound("x".into()).message(), "Not found: x");
    assert_eq!(VaultError::Database("y".into()).message(), "Database error: y");
    assert_eq!(VaultError::Decryption("z".into()).message(), "Decryption error: z");
}

#[test]
fn empty_query_keeps_everything() {
    let all = vec![cred("A", "x", None), cred("B", "y", Some("u"))];
    assert_eq!(search_credentials(all.clone(), "").len(), 2);
    assert_eq!(search_credential_metas(all, "").len(), 2);
}
