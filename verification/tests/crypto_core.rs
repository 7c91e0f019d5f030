use myki::crypto::{decode_base64, encode_base64, CryptoError, EncryptedData};
use myki::{generate_salt, AeadCipher, Aes256Gcm, MasterKey, VaultKey};

#[test]
fn base64_known_value_and_roundtrip() {
    assert_eq!(encode_base64(b"hello"), "aGVsbG8=");
    assert_eq!(decode_base64("aGVsbG8=").unwrap(), b"hello".to_vec());
    let data: Vec<u8> = (0u8..=255).collect();
    assert_eq!(decode_base64(&encode_base64(&data)).unwrap(), data);
    assert_eq!(encode_base64(&[]), "");
}

#[test]
fn base64_rejects_malformed_text() {
    assert!(matches!(decode_base64("not base64!"), Err(CryptoError::Decryption(_))));
}

#[test]
fn encrypted_data_text_form_roundtrip() {
    let data = EncryptedData::new(vec![1, 2, 3], vec![4, 5, 6, 7]);
    let text = data.to_base64();
    assert_eq!(text, "AQID:BAUGBw==");
    let back = EncryptedData::from_base64(&text).unwrap();
    assert_eq!(back.nonce, vec![1, 2, 3]);
    assert_eq!(back.ciphertext, vec![4, 5, 6, 7]);
}

#[test]
fn encrypted_data_rejects_wrong_shapes() {
    assert!(matches!(EncryptedData::from_base64("AQID"), Err(CryptoError::Decryption(_))));
    assert!(matches!(EncryptedData::from_base64("AQID:BAUG:Bw=="), Err(CryptoError::Decryption(_))));
    assert!(matches!(EncryptedData::from_base64("!!:BAUGBw=="), Err(CryptoError::Decryption(_))));
    assert!(matches!(EncryptedData::from_base64("AQID:??"), Err(CryptoError::Decryption(_))));
}

#[test]
fn crypto_error_messages() {
    let e = CryptoError::Decryption("bad".to_string());
    assert_eq!(e.message(), "Decryption failed: bad");
    assert_eq!(e.debug_text(), "Decryption(\"bad\")");
    assert_eq!(CryptoError::KeyDerivation("x".to_string()).message(), "Key derivation failed: x");
}

#[test]
fn aes_gcm_ciphertext_carries_a_tag() {
    let cipher = Aes256Gcm::new(&VaultKey::from_bytes([7u8; 32]));
    let enc = cipher.encrypt(b"abc", None).unwrap();
    assert_eq!(enc.nonce.len(), 12);
    assert_eq!(enc.ciphertext.len(), 3 + 16);
}

#[test]
fn aes_gcm_rejects_tampering_and_wrong_key() {
    let cipher = Aes256Gcm::new(&VaultKey::from_bytes([7u8; 32]));
    let mut enc = cipher.encrypt(b"secret", None).unwrap();
    let other = Aes256Gcm::new(&VaultKey::from_bytes([8u8; 32]));
    assert!(matches!(other.decrypt(&enc, None), Err(CryptoError::Decryption(_))));
    enc.ciphertext[0] ^= 1;
    assert!(cipher.decrypt(&enc, None).is_err());
}

#[test]
fn aead_trait_roundtrip() {
    let cipher = Aes256Gcm::new(&VaultKey::from_bytes([1u8; 32]));
    let enc = AeadCipher::encrypt(&cipher, b"trait", Some(b"ctx")).unwrap();
    assert_eq!(AeadCipher::decrypt(&cipher, &enc, Some(b"ctx")).unwrap(), b"trait".to_vec());
}

#[test]
fn keys_split_derived_bytes() {
    let mut derived = [0u8; 64];
    for (i, b) in derived.iter_mut().enumerate() {
        *b = i as u8;
    }
    let key = MasterKey::from_derived(derived);
    assert_eq!(key.vault_key.as_bytes()[0], 0);
    assert_eq!(key.vault_key.as_bytes()[31], 31);
    assert_eq!(key.mac_key.as_bytes()[0], 32);
    assert_eq!(key.mac_key.as_bytes()[31], 63);
}

#[test]
fn generated_salts_differ() {
    let a = generate_salt();
    let b = generate_salt();
    assert_eq!(a.len(), 32);
    assert_ne!(a, b);
    let k = myki::keys::generate_random_key();
    assert_ne!(k.vault_key.as_bytes(), k.mac_key.as_bytes());
}

#[test]
fn short_nonce_is_a_decryption_error() {
    let cipher = Aes256Gcm::new(&VaultKey::from_bytes([7u8; 32]));
    let data = EncryptedData::new(vec![0u8; 3], vec![0u8; 16]);
    assert!(matches!(cipher.decrypt(&data, None), Err(CryptoError::Decryption(_))));
}
