//! What the C interface computes, on plain strings: key derivation from a Base64
//! salt, Base64 encryption and decryption under a Base64 key, the current TOTP
//! code, and Base32 validation. Pointers and C strings are handled by the caller.

use vstd::prelude::*;
use vstd::string::StringSliceAdditionalSpecFns;
use vstd::utf8::{decode_utf8, valid_utf8};
use crate::crypto::{b64_decode, b64_encode, base64_decoded, base64_encoded, parsed_encrypted, EncryptedData};
use crate::kdf::{argon2id_output, derive_key, Argon2Config};
use crate::keys::VaultKey;
use crate::symmetric::{aes256gcm_opened, aes256gcm_sealed, gcm_max_len, Aes256Gcm};
use crate::text::{chars_of, is_whitespace, string_from_utf8, to_uppercase, uppercase_of};
use crate::totp::{
    base32_decode, base32_decoded, base32_input_limit, strip_secret, strip_secret_chars,
    totp_code, Algorithm, Totp, TotpConfig,
};

verus! {

/// Outcome codes of the C interface.
#[derive(Debug, Clone, Copy, PartialEq, Eq, Structural)]
pub enum FfiError {
    Success,
    InvalidString,
    DerivationFailed,
    EncryptionFailed,
    DecryptionFailed,
    InvalidKey,
}

impl FfiError {
    /// The numeric code shared with the Dart side.
    pub fn code(&self) -> (r: i32)
        ensures
            r == match *self {
                FfiError::Success => 0i32,
                FfiError::InvalidString => 1,
                FfiError::DerivationFailed => 2,
                FfiError::EncryptionFailed => 3,
                FfiError::DecryptionFailed => 4,
                FfiError::InvalidKey => 5,
            },
    {
        match *self {
            FfiError::Success => 0,
            FfiError::InvalidString => 1,
            FfiError::DerivationFailed => 2,
            FfiError::EncryptionFailed => 3,
            FfiError::DecryptionFailed => 4,
            FfiError::InvalidKey => 5,
        }
    }
}

/// Copies a 32-byte vector into an array.
fn array_32(v: &Vec<u8>) -> (r: [u8; 32])
    requires
        v@.len() == 32,
    ensures
        r@ == v@,
{
    let mut out = [0u8; 32];
    let mut i: usize = 0;
    while i < 32
        invariant
            i <= 32,
            v@.len() == 32,
            out@.len() == 32,
            forall|k: int| 0 <= k < i ==> out@[k] == v@[k],
        decreases 32 - i,
    {
        out[i] = v[i];
        i = i + 1;
    }
    assert(out@ =~= v@);
    out
}

/// Vault key, as Base64, derived with the default Argon2 settings from a password
/// and a Base64 salt. A salt that is not Base64 is an invalid string; a salt of
/// fewer than three bytes, which the Argon2 salt string cannot hold, fails the
/// derivation. A salt of 8 to 48 bytes and a password of at most `u32::MAX` bytes
/// give a key.
pub fn derive_key_b64(password: &str, salt_b64: &str) -> (r: Result<String, FfiError>)
    ensures
        match base64_decoded(salt_b64@) {
            None => r == Err::<String, FfiError>(FfiError::InvalidString),
            Some(salt) => if salt.len() < 3 {
                r == Err::<String, FfiError>(FfiError::DerivationFailed)
            } else {
                match argon2id_output(password.spec_bytes(), salt, 65536, 3, 4, 64) {
                    None => r == Err::<String, FfiError>(FfiError::DerivationFailed),
                    Some(h) => r matches Ok(s) && s@ == base64_encoded(h.subrange(0, 32)),
                }
            },
        },
        base64_decoded(salt_b64@) matches Some(salt) && 8 <= salt.len() <= 48
            && password.spec_bytes().len() <= 0xFFFF_FFFF ==> r is Ok,
{
    let salt_bytes = match b64_decode(salt_b64) {
        Ok(b) => b,
        Err(_) => {
            return Err(FfiError::InvalidString);
        },
    };
    if salt_bytes.len() < 3 {
        return Err(FfiError::DerivationFailed);
    }
    let config = Argon2Config::default();
    match derive_key(password, salt_bytes.as_slice(), &config) {
        Ok(master_key) => {
            let key_bytes = master_key.vault_key.as_bytes();
            Ok(b64_encode(key_bytes.as_slice()))
        },
        Err(_) => Err(FfiError::DerivationFailed),
    }
}

/// Decodes a Base64 key that must be 32 bytes long.
fn key_from_b64(key_b64: &str) -> (r: Result<[u8; 32], FfiError>)
    ensures
        match base64_decoded(key_b64@) {
            Some(k) if k.len() == 32 => r matches Ok(a) && a@ == k,
            _ => r == Err::<[u8; 32], FfiError>(FfiError::InvalidKey),
        },
{
    let key_bytes = match b64_decode(key_b64) {
        Ok(b) => b,
        Err(_) => {
            return Err(FfiError::InvalidKey);
        },
    };
    if key_bytes.len() != 32 {
        return Err(FfiError::InvalidKey);
    }
    Ok(array_32(&key_bytes))
}

/// Encrypts the UTF-8 bytes of `plaintext` under a Base64 32-byte key, without
/// additional data, and returns `base64(nonce):base64(ciphertext)`.
pub fn encrypt_b64(plaintext: &str, key_b64: &str) -> (r: Result<String, FfiError>)
    ensures
        match base64_decoded(key_b64@) {
            Some(k) if k.len() == 32 => match r {
                Ok(s) => exists|n: Seq<u8>|
                    n.len() == 12 && parsed_encrypted(s@) == Some(
                        (n, aes256gcm_sealed(k, n, Seq::empty(), plaintext.spec_bytes())),
                    ) && aes256gcm_opened(
                        k,
                        n,
                        Seq::empty(),
                        aes256gcm_sealed(k, n, Seq::empty(), plaintext.spec_bytes()),
                    ) == Some(plaintext.spec_bytes()) && b64_record_text(k, s@) == Some(plaintext@),
                Err(e) => e == FfiError::EncryptionFailed,
            },
            _ => r == Err::<String, FfiError>(FfiError::InvalidKey),
        },
        base64_decoded(key_b64@) matches Some(k) && k.len() == 32 ==> (r is Ok <==> plaintext.spec_bytes().len()
            <= gcm_max_len()),
{
    let key_array = key_from_b64(key_b64)?;
    let vault_key = VaultKey::from_bytes(key_array);
    let cipher = Aes256Gcm::new(&vault_key);
    let bytes = plaintext.as_bytes();
    match cipher.encrypt(bytes, None) {
        Ok(data) => {
            let encoded = data.to_base64();
            assert(parsed_encrypted(encoded@) == Some((data.nonce@, data.ciphertext@)));
            proof {
                vstd::utf8::encode_utf8_valid_utf8(plaintext@);
                vstd::utf8::encode_utf8_decode_utf8(plaintext@);
            }
            Ok(encoded)
        },
        Err(_) => Err(FfiError::EncryptionFailed),
    }
}

/// The text that a `base64(nonce):base64(ciphertext)` string holds under a key: it
/// parses, its nonce is 12 bytes, its tag verifies without additional data and the
/// plaintext is UTF-8.
pub open spec fn b64_record_text(key: Seq<u8>, encrypted: Seq<char>) -> Option<Seq<char>> {
    match parsed_encrypted(encrypted) {
        Some(p) if p.0.len() == 12 => match aes256gcm_opened(key, p.0, Seq::empty(), p.1) {
            Some(m) if valid_utf8(m) => Some(decode_utf8(m)),
            _ => None,
        },
        _ => None,
    }
}

/// Decrypts `base64(nonce):base64(ciphertext)` under a Base64 32-byte key and reads
/// the plaintext as UTF-8. Malformed text, a nonce that is not 12 bytes (on which
/// the original's nonce conversion panics), a failed tag check or plaintext that is
/// not UTF-8 all give `DecryptionFailed`.
pub fn decrypt_b64(encrypted_b64: &str, key_b64: &str) -> (r: Result<String, FfiError>)
    ensures
        match base64_decoded(key_b64@) {
            Some(k) if k.len() == 32 => match b64_record_text(k, encrypted_b64@) {
                Some(t) => r matches Ok(s) && s@ == t,
                None => r == Err::<String, FfiError>(FfiError::DecryptionFailed),
            },
            _ => r == Err::<String, FfiError>(FfiError::InvalidKey),
        },
{
    let key_array = key_from_b64(key_b64)?;
    let vault_key = VaultKey::from_bytes(key_array);
    let cipher = Aes256Gcm::new(&vault_key);
    let encrypted_data = match EncryptedData::from_base64(encrypted_b64) {
        Ok(d) => d,
        Err(_) => {
            return Err(FfiError::DecryptionFailed);
        },
    };
    if encrypted_data.nonce.len() != 12 {
        return Err(FfiError::DecryptionFailed);
    }
    match cipher.decrypt(&encrypted_data, None) {
        Ok(plaintext_bytes) => match string_from_utf8(plaintext_bytes) {
            Ok(s) => Ok(s),
            Err(_) => Err(FfiError::DecryptionFailed),
        },
        Err(_) => Err(FfiError::DecryptionFailed),
    }
}

/// The current TOTP code with the default settings; any failure is reported as
/// `DerivationFailed`.
pub fn generate_totp_now(secret: &str) -> (r: Result<String, FfiError>)
    ensures
        r matches Ok(s) ==> exists|t: i64| totp_code(secret@, (TotpConfig { algorithm: Algorithm::SHA1, digits: 6, period: 30 }), t) == Some(s@),
        r matches Err(e) ==> e == FfiError::DerivationFailed,
{
    let config = TotpConfig::default();
    match Totp::now(secret, &config) {
        Ok(code) => Ok(code),
        Err(_) => Err(FfiError::DerivationFailed),
    }
}

/// Whether `secret`, upper-cased and stripped of whitespace and `=`, is non-empty
/// and decodes as unpadded Base32.
pub fn is_valid_base32(secret: &str) -> (r: bool)
    ensures
        r == (0 < strip_secret(uppercase_of(secret@)).len() <= base32_input_limit()
            && base32_decoded(false, strip_secret(uppercase_of(secret@))) is Some),
        secret@.len() == 0 ==> !r,
{
    let upper = to_uppercase(secret);
    let cleaned = strip_secret_chars(&chars_of(upper.as_str()));
    if cleaned.len() == 0 {
        return false;
    }
    if cleaned.len() > usize::MAX / 20 {
        return false;
    }
    base32_decode(false, cleaned.as_slice()).is_some()
}

} // verus!
