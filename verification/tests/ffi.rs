use myki::crypto::encode_base64;
use myki::ffi::{decrypt_b64, derive_key_b64, encrypt_b64, generate_totp_now, is_valid_base32};
use myki::FfiError;

fn key_b64(byte: u8) -> String {
    encode_base64(&[byte; 32])
}

#[test]
fn encrypt_then_decrypt_gives_the_text_back() {
    let k = key_b64(5);
    let enc = encrypt_b64("hello w\u{f6}rld", &k).unwrap();
    assert_eq!(enc.matches(':').count(), 1);
    assert_eq!(decrypt_b64(&enc, &k).unwrap(), "hello w\u{f6}rld");
}

#[test]
fn wrong_key_or_garbage_fails_decryption() {
    let enc = encrypt_b64("hello", &key_b64(5)).unwrap();
    assert_eq!(decrypt_b64(&enc, &key_b64(6)), Err(FfiError::DecryptionFailed));
    assert_eq!(decrypt_b64("garbage", &key_b64(5)), Err(FfiError::DecryptionFailed));
    assert_eq!(decrypt_b64("AQID:BAUGBw==", &key_b64(5)), Err(FfiError::DecryptionFailed));
}

#[test]
fn keys_must_be_32_bytes_of_base64() {
    assert_eq!(encrypt_b64("x", "not base64!"), Err(FfiError::InvalidKey));
    assert_eq!(encrypt_b64("x", &encode_base64(&[1u8; 16])), Err(FfiError::InvalidKey));
    assert_eq!(decrypt_b64("AQID:BAUGBw==", &encode_base64(&[1u8; 31])), Err(FfiError::InvalidKey));
}

#[test]
fn derive_key_needs_base64_salt() {
    assert_eq!(derive_key_b64("pw", "%%%"), Err(FfiError::InvalidString));
}

#[test]
fn derive_key_is_deterministic() {
    let salt = encode_base64(&[0u8; 32]);
    let a = derive_key_b64("pw", &salt).unwrap();
    let b = derive_key_b64("pw", &salt).unwrap();
    assert_eq!(a, b);
    assert_eq!(myki::crypto::decode_base64(&a).unwrap().len(), 32);
}

#[test]
fn totp_now_and_base32_check() {
    let code = generate_totp_now("JBSWY3DPEHPK3PXP").unwrap();
    assert_eq!(code.len(), 6);
    assert!(code.chars().all(|c| c.is_ascii_digit()));
    assert_eq!(generate_totp_now("!!"), Err(FfiError::DerivationFailed));
    assert!(is_valid_base32("jbsw y3dp ehpk 3pxp"));
    assert!(is_valid_base32("MZXW6==="));
    assert!(!is_valid_base32("not-base32"));
}

#[test]
fn error_codes() {
    assert_eq!(FfiError::Success.code(), 0);
    assert_eq!(FfiError::InvalidString.code(), 1);
    assert_eq!(FfiError::DerivationFailed.code(), 2);
    assert_eq!(FfiError::EncryptionFailed.code(), 3);
    assert_eq!(FfiError::DecryptionFailed.code(), 4);
    assert_eq!(FfiError::InvalidKey.code(), 5);
}

#[test]
fn secrets_that_clean_to_nothing_are_invalid() {
    assert!(!is_valid_base32(""));
    assert!(!is_valid_base32("   "));
    assert!(!is_valid_base32("=="));
}

#[test]
fn too_short_salt_fails_derivation() {
    assert_eq!(derive_key_b64("pw", &encode_base64(&[1u8; 2])), Err(FfiError::DerivationFailed));
    assert_eq!(derive_key_b64("pw", &encode_base64(&[1u8; 4])), Err(FfiError::DerivationFailed));
}
