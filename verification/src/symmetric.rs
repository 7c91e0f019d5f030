//! AES-256-GCM with a fresh random 12-byte nonce per message and optional
//! additional authenticated data.

use vstd::prelude::*;
use aes_gcm::aead::{Aead, KeyInit};
use crate::crypto::{CryptoError, EncryptedData};
use crate::keys::{os_random_bytes, VaultKey};
use crate::text::owned;

verus! {

/// Largest plaintext and additional data `aes-gcm` accepts (`P_MAX`, `A_MAX`): 2^36 bytes.
pub open spec fn gcm_max_len() -> int {
    0x10_0000_0000
}

/// What `aes_gcm::Aes256Gcm::encrypt` returns for key, nonce, additional data and
/// plaintext (ciphertext followed by the 16-byte tag).
pub uninterp spec fn aes256gcm_sealed(key: Seq<u8>, nonce: Seq<u8>, aad: Seq<u8>, plaintext: Seq<
    u8,
>) -> Seq<u8>;

/// What `aes_gcm::Aes256Gcm::decrypt` returns: `None` where the tag does not verify
/// or the input is out of range.
pub uninterp spec fn aes256gcm_opened(key: Seq<u8>, nonce: Seq<u8>, aad: Seq<u8>, ciphertext: Seq<
    u8,
>) -> Option<Seq<u8>>;

/// Calls `Aes256Gcm::new_from_slice` (which accepts any 32-byte key) and `encrypt`.
/// `encrypt` refuses a plaintext or additional data longer than 2^36 bytes and
/// otherwise returns the plaintext length plus 16 bytes; decrypting that output
/// under the same key, nonce and additional data gives the plaintext back (the
/// defining property of the AEAD). The ciphertext itself is only named.
#[verifier::external_body]
pub(crate) fn gcm_seal(key: &[u8; 32], nonce: &[u8], aad: &[u8], plaintext: &[u8]) -> (r: Option<Vec<u8>>)
    requires
        nonce@.len() == 12,
    ensures
        r is Some <==> (plaintext@.len() <= gcm_max_len() && aad@.len() <= gcm_max_len()),
        r matches Some(c) ==> c@ == aes256gcm_sealed(key@, nonce@, aad@, plaintext@),
        r matches Some(c) ==> c@.len() == plaintext@.len() + 16,
        r matches Some(c) ==> aes256gcm_opened(key@, nonce@, aad@, c@) == Some(plaintext@),
{
    let cipher = aes_gcm::Aes256Gcm::new_from_slice(key).ok()?;
    let payload = aes_gcm::aead::Payload { msg: plaintext, aad };
    cipher.encrypt(aes_gcm::Nonce::from_slice(nonce), payload).ok()
}

/// Calls `Aes256Gcm::new_from_slice` and `decrypt`; the outcome is only named.
#[verifier::external_body]
pub(crate) fn gcm_open(key: &[u8; 32], nonce: &[u8], aad: &[u8], ciphertext: &[u8]) -> (r: Option<Vec<u8>>)
    requires
        nonce@.len() == 12,
    ensures
        r is Some <==> aes256gcm_opened(key@, nonce@, aad@, ciphertext@) is Some,
        r matches Some(p) ==> aes256gcm_opened(key@, nonce@, aad@, ciphertext@) == Some(p@),
{
    let cipher = aes_gcm::Aes256Gcm::new_from_slice(key).ok()?;
    let payload = aes_gcm::aead::Payload { msg: ciphertext, aad };
    cipher.decrypt(aes_gcm::Nonce::from_slice(nonce), payload).ok()
}

/// The additional data an `Option` stands for (none is the empty string).
pub open spec fn aad_bytes(aad: Option<&[u8]>) -> Seq<u8> {
    match aad {
        Some(a) => a@,
        None => Seq::empty(),
    }
}

/// Plaintext of an encrypted record under a key, if its nonce is 12 bytes and it
/// authenticates.
pub open spec fn decryption_of(key: Seq<u8>, data: EncryptedData, aad: Seq<u8>) -> Option<Seq<u8>> {
    if data.nonce@.len() == 12 {
        aes256gcm_opened(key, data.nonce@, aad, data.ciphertext@)
    } else {
        None
    }
}

/// AES-256-GCM under one key.
pub struct Aes256Gcm {
    key: [u8; 32],
}

impl View for Aes256Gcm {
    type V = Seq<u8>;

    /// The key bytes.
    closed spec fn view(&self) -> Seq<u8> {
        self.key@
    }
}

impl Aes256Gcm {
    pub fn new(key: &VaultKey) -> (r: Self)
        ensures
            r@ == key@,
    {
        let bytes = key.as_bytes();
        Aes256Gcm { key: *bytes }
    }

    /// Encrypts under a fresh random nonce. Decrypting the result with the same
    /// key and additional data gives the plaintext back.
    pub fn encrypt(&self, plaintext: &[u8], aad: Option<&[u8]>) -> (r: Result<
        EncryptedData,
        CryptoError,
    >)
        ensures
            r is Ok <==> (plaintext@.len() <= gcm_max_len() && aad_bytes(aad).len()
                <= gcm_max_len()),
            r matches Ok(d) ==> d.nonce@.len() == 12,
            r matches Ok(d) ==> d.ciphertext@ == aes256gcm_sealed(
                self@,
                d.nonce@,
                aad_bytes(aad),
                plaintext@,
            ),
            r matches Ok(d) ==> d.ciphertext@.len() == plaintext@.len() + 16,
            r matches Ok(d) ==> decryption_of(self@, d, aad_bytes(aad)) == Some(plaintext@),
            r matches Err(e) ==> e is Encryption,
    {
        let nonce = os_random_bytes(12);
        let empty: [u8; 0] = [];
        let aad_data: &[u8] = match aad {
            Some(a) => a,
            None => empty.as_slice(),
        };
        assert(aad_data@ == aad_bytes(aad));
        match gcm_seal(&self.key, nonce.as_slice(), aad_data, plaintext) {
            Some(c) => Ok(EncryptedData::new(nonce, c)),
            None => Err(CryptoError::Encryption(owned("Encryption failed: aead::Error"))),
        }
    }

    /// Verifies and decrypts. A nonce that is not 12 bytes, like a tag that does not
    /// verify, is a `Decryption` error.
    pub fn decrypt(&self, encrypted: &EncryptedData, aad: Option<&[u8]>) -> (r: Result<
        Vec<u8>,
        CryptoError,
    >)
        ensures
            match decryption_of(self@, *encrypted, aad_bytes(aad)) {
                Some(p) => r matches Ok(v) && v@ == p,
                None => r matches Err(CryptoError::Decryption(_)),
            },
    {
        if encrypted.nonce.len() != 12 {
            return Err(CryptoError::Decryption(owned("Invalid nonce length: expected 12 bytes")));
        }
        let empty: [u8; 0] = [];
        let aad_data: &[u8] = match aad {
            Some(a) => a,
            None => empty.as_slice(),
        };
        assert(aad_data@ == aad_bytes(aad));
        match gcm_open(&self.key, encrypted.nonce.as_slice(), aad_data, encrypted.ciphertext.as_slice()) {
            Some(p) => Ok(p),
            None => Err(
                CryptoError::Decryption(owned("Decryption or verification failed: aead::Error")),
            ),
        }
    }
}

/// Authenticated encryption with associated data.
pub trait AeadCipher {
    fn encrypt(&self, plaintext: &[u8], aad: Option<&[u8]>) -> Result<EncryptedData, CryptoError>;

    fn decrypt(&self, encrypted: &EncryptedData, aad: Option<&[u8]>) -> Result<
        Vec<u8>,
        CryptoError,
    >;
}

impl AeadCipher for Aes256Gcm {
    fn encrypt(&self, plaintext: &[u8], aad: Option<&[u8]>) -> (r: Result<
        EncryptedData,
        CryptoError,
    >)
        ensures
            r is Ok <==> (plaintext@.len() <= gcm_max_len() && aad_bytes(aad).len()
                <= gcm_max_len()),
            r matches Ok(d) ==> d.nonce@.len() == 12,
            r matches Ok(d) ==> d.ciphertext@ == aes256gcm_sealed(
                self@,
                d.nonce@,
                aad_bytes(aad),
                plaintext@,
            ),
            r matches Ok(d) ==> d.ciphertext@.len() == plaintext@.len() + 16,
            r matches Ok(d) ==> decryption_of(self@, d, aad_bytes(aad)) == Some(plaintext@),
            r matches Err(e) ==> e is Encryption,
    {
        Aes256Gcm::encrypt(self, plaintext, aad)
    }

    fn decrypt(&self, encrypted: &EncryptedData, aad: Option<&[u8]>) -> (r: Result<
        Vec<u8>,
        CryptoError,
    >)
        ensures
            match decryption_of(self@, *encrypted, aad_bytes(aad)) {
                Some(p) => r matches Ok(v) && v@ == p,
                None => r matches Err(CryptoError::Decryption(_)),
            },
    {
        Aes256Gcm::decrypt(self, encrypted, aad)
    }
}

} // verus!
