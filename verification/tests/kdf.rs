use myki::{derive_key, Argon2Config};

#[test]
fn test_derive_key() {
    let password = "test_password";
    let salt = [0u8; 32];
    let config = Argon2Config::default();
    let result = derive_key(password, &salt, &config);
    assert!(result.is_ok());
    let master_key = result.unwrap();
    assert_eq!(master_key.vault_key.as_bytes().len(), 32);
    assert_eq!(master_key.mac_key.as_bytes().len(), 32);
}

#[test]
fn test_derive_key_consistency() {
    let password = "test-password";
    let salt = [0u8; 16];
    let config = Argon2Config::default();
    let key1 = derive_key(password, &salt, &config).unwrap();
    let key2 = derive_key(password, &salt, &config).unwrap();
    assert_eq!(key1.vault_key.as_bytes(), key2.vault_key.as_bytes());
    assert_eq!(key1.mac_key.as_bytes(), key2.mac_key.as_bytes());
}

#[test]
fn test_derive_key_different_password() {
    let salt = [0u8; 16];
    let config = Argon2Config::default();
    let key1 = derive_key("pwd1", &salt, &config).unwrap();
    let key2 = derive_key("pwd2", &salt, &config).unwrap();
    assert_ne!(key1.vault_key.as_bytes(), key2.vault_key.as_bytes());
}

#[test]
fn too_short_salt_is_a_key_derivation_error() {
    let config = Argon2Config::default();
    assert!(matches!(derive_key("pw", &[], &config), Err(myki::CryptoError::KeyDerivation(_))));
    assert!(matches!(derive_key("pw", &[1, 2], &config), Err(myki::CryptoError::KeyDerivation(_))));
}
