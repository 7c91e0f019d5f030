use myki::totp::Totp;
use myki::{Algorithm, TotpConfig, TotpError};

const RFC_SHA1_SECRET: &str = "GEZDGNBVGY3TQOJQGEZDGNBVGY3TQOJQ";

#[test]
fn hotp_sha1_matches_rfc4226_vectors() {
    let key = b"12345678901234567890";
    let expected = [
        "755224", "287082", "359152", "969429", "338314", "254676", "287922", "162583", "399871",
        "520489",
    ];
    for (counter, code) in expected.iter().enumerate() {
        assert_eq!(Totp::hotp_sha1(key, counter as u64, 6).unwrap(), *code);
    }
}

#[test]
fn totp_sha1_matches_rfc6238_vectors() {
    let config = TotpConfig { algorithm: Algorithm::SHA1, digits: 8, period: 30 };
    assert_eq!(Totp::generate(RFC_SHA1_SECRET, &config, 59).unwrap(), "94287082");
    assert_eq!(Totp::generate(RFC_SHA1_SECRET, &config, 1111111109).unwrap(), "07081804");
    assert_eq!(Totp::generate(RFC_SHA1_SECRET, &config, 1234567890).unwrap(), "89005924");
}

#[test]
fn totp_sha256_and_sha512_match_rfc6238_vectors() {
    let sha256 = TotpConfig { algorithm: Algorithm::SHA256, digits: 8, period: 30 };
    let secret256 = "GEZDGNBVGY3TQOJQGEZDGNBVGY3TQOJQGEZDGNBVGY3TQOJQGEZA====";
    assert_eq!(Totp::generate(secret256, &sha256, 59).unwrap(), "46119246");
    let sha512 = TotpConfig { algorithm: Algorithm::SHA512, digits: 8, period: 30 };
    let secret512 = "GEZDGNBVGY3TQOJQGEZDGNBVGY3TQOJQGEZDGNBVGY3TQOJQGEZDGNBVGY3TQOJQGEZDGNBVGY3TQOJQGEZDGNBVGY3TQOJQGEZDGNA=";
    assert_eq!(Totp::generate(secret512, &sha512, 59).unwrap(), "90693936");
}

#[test]
fn same_window_gives_same_code() {
    let config = TotpConfig::default();
    let a = Totp::generate(RFC_SHA1_SECRET, &config, 60).unwrap();
    let b = Totp::generate(RFC_SHA1_SECRET, &config, 89).unwrap();
    assert_eq!(a, b);
    assert_eq!(a.len(), 6);
}

#[test]
fn secret_is_case_and_space_insensitive() {
    let config = TotpConfig::default();
    let a = Totp::generate(RFC_SHA1_SECRET, &config, 1000).unwrap();
    let b = Totp::generate("gezd gnbv gy3t qojq gezd gnbv gy3t qojq", &config, 1000).unwrap();
    assert_eq!(a, b);
}

#[test]
fn invalid_secret_is_rejected() {
    let config = TotpConfig::default();
    let r = Totp::generate("not base32 at all!", &config, 1000);
    assert!(matches!(r, Err(TotpError::InvalidSecret(_))));
    assert!(Totp::decode_base32("1189").is_err());
}

#[test]
fn decode_base32_exact_bytes() {
    assert_eq!(Totp::decode_base32("MZXW6===").unwrap(), b"foo".to_vec());
    assert_eq!(Totp::decode_base32(RFC_SHA1_SECRET).unwrap(), b"12345678901234567890".to_vec());
}

#[test]
fn counter_bytes_are_big_endian() {
    assert_eq!(Totp::counter_bytes(1), vec![0, 0, 0, 0, 0, 0, 0, 1]);
    assert_eq!(Totp::counter_bytes(0x0102030405060708), vec![1, 2, 3, 4, 5, 6, 7, 8]);
}

#[test]
fn dynamic_truncate_matches_rfc4226_example() {
    let hash: [u8; 20] = [
        0x1f, 0x86, 0x98, 0x69, 0x0e, 0x02, 0xca, 0x16, 0x61, 0x85, 0x50, 0xef, 0x7f, 0x19, 0xda,
        0x8e, 0x94, 0x5b, 0x55, 0x5a,
    ];
    assert_eq!(Totp::dynamic_truncate(&hash, 6).unwrap(), "872921");
}

#[test]
fn dynamic_truncate_rejects_short_hash() {
    let hash: [u8; 4] = [0xff, 0xff, 0xff, 0x0f];
    assert!(matches!(Totp::dynamic_truncate(&hash, 6), Err(TotpError::Generation(_))));
    assert!(Totp::dynamic_truncate(&[], 6).is_err());
}

#[test]
fn remaining_seconds_at_counts_down() {
    let config = TotpConfig::default();
    assert_eq!(Totp::remaining_seconds_at(&config, 0), 30);
    assert_eq!(Totp::remaining_seconds_at(&config, 59), 1);
    assert_eq!(Totp::remaining_seconds_at(&config, 60), 30);
    let r = Totp::remaining_seconds(&config);
    assert!(r >= 1 && r <= 30);
}

#[test]
fn verify_at_accepts_neighbouring_windows_only() {
    let config = TotpConfig::default();
    let now: i64 = 1_000_000;
    let previous = Totp::generate(RFC_SHA1_SECRET, &config, now - 30).unwrap();
    let current = Totp::generate(RFC_SHA1_SECRET, &config, now).unwrap();
    let far = Totp::generate(RFC_SHA1_SECRET, &config, now - 300).unwrap();
    assert!(Totp::verify_at(RFC_SHA1_SECRET, &config, &current, 0, now));
    assert!(Totp::verify_at(RFC_SHA1_SECRET, &config, &previous, 1, now));
    if far != current && far != previous {
        assert!(!Totp::verify_at(RFC_SHA1_SECRET, &config, &far, 1, now));
    }
    assert!(!Totp::verify_at("!!", &config, &current, 1, now));
}

#[test]
fn now_reports_an_invalid_secret() {
    let r = Totp::now("not base32 at all!", &TotpConfig::default());
    assert!(matches!(r, Err(TotpError::InvalidSecret(_))));
}

#[test]
fn verify_accepts_a_code_from_a_neighbouring_window() {
    let config = TotpConfig::default();
    let now: i64 = 1_000_000;
    let earlier = Totp::generate(RFC_SHA1_SECRET, &config, now - 45).unwrap();
    assert!(Totp::verify_at(RFC_SHA1_SECRET, &config, &earlier, 2, now));
}
