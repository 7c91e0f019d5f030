use myki::totp::Totp;
use myki::TotpConfig;

#[test]
fn test_totp_default() {
    let secret = "GEZDGNBVGY3TQOJQ";
    let config = TotpConfig::default();
    let code = Totp::now(secret, &config);
    assert!(code.is_ok());
    assert_eq!(code.unwrap().len(), 6);
}

#[test]
fn test_totp_deterministic() {
    let secret = "SECRET";
    let config = TotpConfig::default();
    let code1 = Totp::generate(secret, &config, 1609459200).unwrap();
    let code2 = Totp::generate(secret, &config, 1609459200).unwrap();
    assert_eq!(code1, code2);
}

#[test]
fn test_verify_correct_code() {
    let secret = "SECRET";
    let config = TotpConfig::default();
    let code = Totp::now(secret, &config).unwrap();
    assert!(Totp::verify(secret, &config, &code, 1));
}

#[test]
fn test_verify_incorrect_code() {
    let secret = "SECRET";
    let config = TotpConfig::default();
    assert!(!Totp::verify(secret, &config, "000000", 1));
}
