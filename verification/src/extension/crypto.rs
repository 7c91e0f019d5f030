//! Key derivation (Argon2id with the crate's default parameters and a 16-byte
//! salt), `nonce || ciphertext` encryption with AES-256-GCM, SHA-256 password
//! verification, and random password generation.

use vstd::prelude::*;
use argon2::PasswordHasher;
use sha2::Digest;
use vstd::string::StringSliceAdditionalSpecFns;
use crate::keys::os_random_bytes;
use crate::symmetric::{aes256gcm_opened, aes256gcm_sealed, gcm_max_len, gcm_open, gcm_seal};
use crate::text::{chars_of, owned, string_from_chars};

verus! {

/// Why an extension cryptographic operation failed.
#[derive(Debug, Clone, Copy, PartialEq, Eq, Structural)]
pub enum CryptoError {
    EncryptionFailed,
    DecryptionFailed,
    KeyDerivationFailed,
    InvalidKey,
    InvalidData,
}

impl CryptoError {
    /// The error as the user reads it.
    pub fn message(&self) -> (r: String)
        ensures
            r@ == match *self {
                CryptoError::EncryptionFailed => "Encryption failed"@,
                CryptoError::DecryptionFailed => "Decryption failed"@,
                CryptoError::KeyDerivationFailed => "Key derivation failed"@,
                CryptoError::InvalidKey => "Invalid key"@,
                CryptoError::InvalidData => "Invalid data"@,
            },
    {
        match self {
            CryptoError::EncryptionFailed => owned("Encryption failed"),
            CryptoError::DecryptionFailed => owned("Decryption failed"),
            CryptoError::KeyDerivationFailed => owned("Key derivation failed"),
            CryptoError::InvalidKey => owned("Invalid key"),
            CryptoError::InvalidData => owned("Invalid data"),
        }
    }
}

/// What `sha2::Sha256` produces for some bytes.
pub uninterp spec fn sha256_digest(data: Seq<u8>) -> Seq<u8>;

/// Calls `Sha256::new`, `update` and `finalize`; the digest is only named.
#[verifier::external_body]
fn sha256(data: &[u8]) -> (r: [u8; 32])
    ensures
        r@ == sha256_digest(data@),
{
    let mut hasher = sha2::Sha256::new();
    hasher.update(data);
    hasher.finalize().into()
}

/// The hash bytes that `Argon2::default()` (Argon2id, v0x13, 19 MiB, two passes,
/// one lane) produces through `hash_password` with the salt encoded by
/// `SaltString::encode_b64`; `None` where a step reports an error.
pub uninterp spec fn argon2_default_output(password: Seq<u8>, salt: Seq<u8>) -> Option<Seq<u8>>;

/// Calls `SaltString::encode_b64`, `Argon2::default()` and `hash_password`. A salt of
/// fewer than three bytes makes the salt conversion panic and is kept out. With the
/// default parameters, a salt of 8 to 48 bytes and a password of at most `u32::MAX`
/// bytes are accepted by every step; the hash is 32 bytes, and the bytes themselves
/// are only named.
#[verifier::external_body]
fn argon2_default_hash(password: &[u8], salt: &[u8]) -> (r: Option<Vec<u8>>)
    requires
        salt@.len() >= 3,
    ensures
        password@.len() <= 0xFFFF_FFFF && 8 <= salt@.len() <= 48 ==> r is Some,
        r is Some <==> argon2_default_output(password@, salt@) is Some,
        r matches Some(h) ==> argon2_default_output(password@, salt@) == Some(h@),
        r matches Some(h) ==> h@.len() == 32,
{
    let salt_string = argon2::password_hash::SaltString::encode_b64(salt).ok()?;
    let hash = argon2::Argon2::default().hash_password(password, &salt_string).ok()?;
    Some(hash.hash?.as_bytes().to_vec())
}

/// The key derived from a password and salt.
pub struct MasterKey {
    key: [u8; 32],
    salt: [u8; 16],
}

impl View for MasterKey {
    /// Key bytes and salt bytes.
    type V = (Seq<u8>, Seq<u8>);

    closed spec fn view(&self) -> (Seq<u8>, Seq<u8>) {
        (self.key@, self.salt@)
    }
}

fn array_16(v: &Vec<u8>) -> (r: [u8; 16])
    requires
        v@.len() == 16,
    ensures
        r@ == v@,
{
    let mut out = [0u8; 16];
    let mut i: usize = 0;
    while i < 16
        invariant
            i <= 16,
            v@.len() == 16,
            out@.len() == 16,
            forall|k: int| 0 <= k < i ==> out@[k] == v@[k],
        decreases 16 - i,
    {
        out[i] = v[i];
        i = i + 1;
    }
    assert(out@ =~= v@);
    out
}

fn array_32_prefix(v: &Vec<u8>) -> (r: [u8; 32])
    requires
        v@.len() >= 32,
    ensures
        r@ == v@.subrange(0, 32),
{
    let mut out = [0u8; 32];
    let mut i: usize = 0;
    while i < 32
        invariant
            i <= 32,
            v@.len() >= 32,
            out@.len() == 32,
            forall|k: int| 0 <= k < i ==> out@[k] == v@[k],
        decreases 32 - i,
    {
        out[i] = v[i];
        i = i + 1;
    }
    assert(out@ =~= v@.subrange(0, 32));
    out
}

impl MasterKey {
    /// Derives the key from a password; without a salt, a random 16-byte salt is made.
    pub fn derive(password: &str, salt: Option<[u8; 16]>) -> (r: Result<Self, CryptoError>)
        ensures
            salt matches Some(s) ==> match argon2_default_output(password.spec_bytes(), s@) {
                Some(h) => r matches Ok(k) && k@.0 == h.subrange(0, 32) && k@.1 == s@,
                None => r == Err::<Self, CryptoError>(CryptoError::KeyDerivationFailed),
            },
            r matches Ok(k) ==> argon2_default_output(password.spec_bytes(), k@.1) matches Some(h)
                && k@.0 == h.subrange(0, 32),
            r matches Err(e) ==> e == CryptoError::KeyDerivationFailed,
            password.spec_bytes().len() <= 0xFFFF_FFFF ==> r is Ok,
            r is Err ==> exists|s: Seq<u8>|
                s.len() == 16 && argon2_default_output(password.spec_bytes(), s) is None,
    {
        let salt: [u8; 16] = match salt {
            Some(s) => s,
            None => {
                let fresh = os_random_bytes(16);
                array_16(&fresh)
            },
        };
        let hash_bytes = match argon2_default_hash(password.as_bytes(), salt.as_slice()) {
            Some(h) => h,
            None => {
                assert(salt@.len() == 16 && argon2_default_output(password.spec_bytes(), salt@) is None);
                return Err(CryptoError::KeyDerivationFailed);
            },
        };
        let key = array_32_prefix(&hash_bytes);
        Ok(MasterKey { key, salt })
    }

    pub fn as_bytes(&self) -> (r: [u8; 32])
        ensures
            r@ == self@.0,
    {
        self.key
    }

    pub fn salt(&self) -> (r: [u8; 16])
        ensures
            r@ == self@.1,
    {
        self.salt
    }

    pub fn from_existing(key: [u8; 32], salt: [u8; 16]) -> (r: Self)
        ensures
            r@ == (key@, salt@),
    {
        MasterKey { key, salt }
    }
}

/// Plaintext of `nonce || ciphertext` under a key: `None` when shorter than the
/// 12-byte nonce or when the tag does not verify.
pub open spec fn blob_decryption(key: Seq<u8>, blob: Seq<u8>) -> Option<Seq<u8>> {
    if blob.len() < 12 {
        None
    } else {
        aes256gcm_opened(key, blob.subrange(0, 12), Seq::empty(), blob.subrange(12, blob.len() as int))
    }
}

/// Bytes `from..to` of a slice.
fn byte_range(v: &[u8], from: usize, to: usize) -> (r: Vec<u8>)
    requires
        from <= to <= v@.len(),
    ensures
        r@ == v@.subrange(from as int, to as int),
{
    let mut out: Vec<u8> = Vec::new();
    let mut i: usize = from;
    while i < to
        invariant
            from <= i <= to <= v@.len(),
            out@ == v@.subrange(from as int, i as int),
        decreases to - i,
    {
        out.push(v[i]);
        i = i + 1;
        assert(out@ =~= v@.subrange(from as int, i as int));
    }
    out
}

/// Encrypts under a fresh random nonce and returns `nonce || ciphertext`.
/// Decrypting the result with the same key gives the plaintext back.
pub fn encrypt(plaintext: &[u8], key: &[u8; 32]) -> (r: Result<Vec<u8>, CryptoError>)
    ensures
        r is Ok <==> plaintext@.len() <= gcm_max_len(),
        r matches Ok(b) ==> b@.len() == plaintext@.len() + 28,
        r matches Ok(b) ==> b@.subrange(12, b@.len() as int) == aes256gcm_sealed(
            key@,
            b@.subrange(0, 12),
            Seq::empty(),
            plaintext@,
        ),
        r matches Ok(b) ==> blob_decryption(key@, b@) == Some(plaintext@),
        r matches Err(e) ==> e == CryptoError::EncryptionFailed,
{
    let nonce = os_random_bytes(12);
    let empty: [u8; 0] = [];
    let no_aad = empty.as_slice();
    assert(no_aad@ =~= Seq::<u8>::empty());
    let ciphertext = match gcm_seal(key, nonce.as_slice(), no_aad, plaintext) {
        Some(c) => c,
        None => {
            return Err(CryptoError::EncryptionFailed);
        },
    };
    let mut result = nonce;
    let ghost n = result@;
    let mut i: usize = 0;
    while i < ciphertext.len()
        invariant
            n.len() == 12,
            i <= ciphertext@.len(),
            result@ == n + ciphertext@.take(i as int),
        decreases ciphertext@.len() - i,
    {
        result.push(ciphertext[i]);
        i = i + 1;
        assert(result@ =~= n + ciphertext@.take(i as int));
    }
    assert(ciphertext@.take(ciphertext@.len() as int) =~= ciphertext@);
    assert(result@.subrange(0, 12) =~= n);
    assert(result@.subrange(12, result@.len() as int) =~= ciphertext@);
    Ok(result)
}

/// Decrypts `nonce || ciphertext`.
pub fn decrypt(ciphertext: &[u8], key: &[u8; 32]) -> (r: Result<Vec<u8>, CryptoError>)
    ensures
        ciphertext@.len() < 12 ==> r == Err::<Vec<u8>, CryptoError>(CryptoError::InvalidData),
        ciphertext@.len() >= 12 ==> match blob_decryption(key@, ciphertext@) {
            Some(p) => r matches Ok(v) && v@ == p,
            None => r == Err::<Vec<u8>, CryptoError>(CryptoError::DecryptionFailed),
        },
{
    if ciphertext.len() < 12 {
        return Err(CryptoError::InvalidData);
    }
    let nonce = byte_range(ciphertext, 0, 12);
    let encrypted = byte_range(ciphertext, 12, ciphertext.len());
    let empty: [u8; 0] = [];
    let no_aad = empty.as_slice();
    assert(no_aad@ =~= Seq::<u8>::empty());
    match gcm_open(key, nonce.as_slice(), no_aad, encrypted.as_slice()) {
        Some(p) => Ok(p),
        None => Err(CryptoError::DecryptionFailed),
    }
}

/// SHA-256 of the input.
pub fn hash(data: &[u8]) -> (r: [u8; 32])
    ensures
        r@ == sha256_digest(data@),
{
    sha256(data)
}

pub open spec fn lowercase_letters() -> Seq<char> {
    "abcdefghijklmnopqrstuvwxyz"@
}

pub open spec fn uppercase_letters() -> Seq<char> {
    "ABCDEFGHIJKLMNOPQRSTUVWXYZ"@
}

pub open spec fn decimal_digits() -> Seq<char> {
    "0123456789"@
}

pub open spec fn symbol_chars() -> Seq<char> {
    "!@#$%^&*()_+-=[]{}|;:,.<>?"@
}

/// Characters a generated password draws from: lower case, upper case, digits and
/// symbols as selected, in that order; lower case when nothing is selected.
pub open spec fn password_charset(upper: bool, lower: bool, numbers: bool, symbols: bool) -> Seq<char> {
    let s = (if lower { lowercase_letters() } else { Seq::empty() }) + (if upper {
        uppercase_letters()
    } else {
        Seq::empty()
    }) + (if numbers { decimal_digits() } else { Seq::empty() }) + (if symbols {
        symbol_chars()
    } else {
        Seq::empty()
    });
    if s.len() == 0 {
        lowercase_letters()
    } else {
        s
    }
}

proof fn lemma_concat_contains(a: Seq<char>, b: Seq<char>)
    ensures
        forall|c: char| #[trigger] (a + b).contains(c) <==> a.contains(c) || b.contains(c),
{
    assert forall|c: char| #[trigger] (a + b).contains(c) <==> a.contains(c) || b.contains(c) by {
        if (a + b).contains(c) {
            let k = choose|k: int| 0 <= k < (a + b).len() && (a + b)[k] == c;
            if k < a.len() {
                assert(a[k] == c);
            } else {
                assert(b[k - a.len()] == c);
            }
        }
        if a.contains(c) {
            let k = choose|k: int| 0 <= k < a.len() && a[k] == c;
            assert((a + b)[k] == c);
        }
        if b.contains(c) {
            let k = choose|k: int| 0 <= k < b.len() && b[k] == c;
            assert((a + b)[k + a.len()] == c);
        }
    }
}

/// The characters a generated password draws from are exactly those of the
/// selected classes: the 26 lower-case letters, the 26 upper-case letters, the 10
/// digits and the 26 symbols `!@#$%^&*()_+-=[]{}|;:,.<>?`, each class present
/// exactly when it is selected, so the charset has 26, 26, 10 and 26 characters per
/// selected class; with nothing selected it is the lower-case letters.
pub proof fn lemma_charset_classes(upper: bool, lower: bool, numbers: bool, symbols: bool)
    ensures
        (upper || lower || numbers || symbols) ==> password_charset(upper, lower, numbers, symbols).len()
            == (if lower { 26int } else { 0 }) + (if upper { 26int } else { 0 }) + (if numbers {
            10int
        } else {
            0
        }) + (if symbols { 26int } else { 0 }),
        !(upper || lower || numbers || symbols) ==> password_charset(upper, lower, numbers, symbols)
            == "abcdefghijklmnopqrstuvwxyz"@,
        forall|c: char|
            #[trigger] password_charset(upper, lower, numbers, symbols).contains(c) <==> {
                ||| (lower || !(upper || numbers || symbols)) && "abcdefghijklmnopqrstuvwxyz"@.contains(c)
                ||| upper && "ABCDEFGHIJKLMNOPQRSTUVWXYZ"@.contains(c)
                ||| numbers && "0123456789"@.contains(c)
                ||| symbols && "!@#$%^&*()_+-=[]{}|;:,.<>?"@.contains(c)
            },
{
    reveal_strlit("abcdefghijklmnopqrstuvwxyz");
    reveal_strlit("ABCDEFGHIJKLMNOPQRSTUVWXYZ");
    reveal_strlit("0123456789");
    reveal_strlit("!@#$%^&*()_+-=[]{}|;:,.<>?");
    let lo = if lower { lowercase_letters() } else { Seq::<char>::empty() };
    let up = if upper { uppercase_letters() } else { Seq::<char>::empty() };
    let nu = if numbers { decimal_digits() } else { Seq::<char>::empty() };
    let sy = if symbols { symbol_chars() } else { Seq::<char>::empty() };
    lemma_concat_contains(lo, up);
    lemma_concat_contains(lo + up, nu);
    lemma_concat_contains(lo + up + nu, sy);
    assert forall|c: char| !Seq::<char>::empty().contains(c) by {}
}

pub open spec fn min_nat(a: nat, b: nat) -> nat {
    if a <= b {
        a
    } else {
        b
    }
}

/// Each random byte, reduced modulo the charset size, picks a character; at most
/// as many characters as there are random bytes.
pub open spec fn password_from_random(random: Seq<u8>, charset: Seq<char>, length: nat) -> Seq<char> {
    Seq::new(
        min_nat(length, random.len()),
        |i: int| charset[(random[i] as int) % (charset.len() as int)],
    )
}

/// A password made from random bytes has one character per byte (up to the asked
/// length), and each character is drawn from a selected class (lower case when
/// nothing is selected).
pub proof fn lemma_password_chars(
    random: Seq<u8>,
    length: nat,
    upper: bool,
    lower: bool,
    numbers: bool,
    symbols: bool,
)
    ensures
        password_from_random(random, password_charset(upper, lower, numbers, symbols), length).len()
            == min_nat(length, random.len()),
        forall|i: int|
            0 <= i < min_nat(length, random.len()) ==> {
                let c = #[trigger] password_from_random(
                    random,
                    password_charset(upper, lower, numbers, symbols),
                    length,
                )[i];
                ||| (lower || !(upper || numbers || symbols)) && "abcdefghijklmnopqrstuvwxyz"@.contains(c)
                ||| upper && "ABCDEFGHIJKLMNOPQRSTUVWXYZ"@.contains(c)
                ||| numbers && "0123456789"@.contains(c)
                ||| symbols && "!@#$%^&*()_+-=[]{}|;:,.<>?"@.contains(c)
            },
{
    let cs = password_charset(upper, lower, numbers, symbols);
    lemma_charset_classes(upper, lower, numbers, symbols);
    reveal_strlit("abcdefghijklmnopqrstuvwxyz");
    assert(cs.len() > 0);
    assert forall|i: int| 0 <= i < min_nat(length, random.len()) implies cs.contains(
        #[trigger] password_from_random(random, cs, length)[i],
    ) by {
        let k = (random[i] as int) % (cs.len() as int);
        assert(0 <= k < cs.len());
        assert(cs[k] == password_from_random(random, cs, length)[i]);
    }
}

fn append_chars(v: &mut Vec<char>, s: &str)
    ensures
        final(v)@ == old(v)@ + s@,
{
    let w = chars_of(s);
    let ghost start = v@;
    let mut i: usize = 0;
    while i < w.len()
        invariant
            i <= w@.len(),
            w@ == s@,
            v@ == start + w@.take(i as int),
        decreases w@.len() - i,
    {
        v.push(w[i]);
        i = i + 1;
        assert(v@ =~= start + w@.take(i as int));
    }
    assert(w@.take(w@.len() as int) =~= w@);
}

/// The password that the given random bytes select.
pub fn generate_password_from(
    random: &[u8],
    length: usize,
    include_uppercase: bool,
    include_lowercase: bool,
    include_numbers: bool,
    include_symbols: bool,
) -> (r: String)
    ensures
        r@ == password_from_random(
            random@,
            password_charset(include_uppercase, include_lowercase, include_numbers, include_symbols),
            length as nat,
        ),
{
    let mut charset: Vec<char> = Vec::new();
    if include_lowercase {
        append_chars(&mut charset, "abcdefghijklmnopqrstuvwxyz");
    }
    if include_uppercase {
        append_chars(&mut charset, "ABCDEFGHIJKLMNOPQRSTUVWXYZ");
    }
    if include_numbers {
        append_chars(&mut charset, "0123456789");
    }
    if include_symbols {
        append_chars(&mut charset, "!@#$%^&*()_+-=[]{}|;:,.<>?");
    }
    assert(charset@ =~= (if include_lowercase { lowercase_letters() } else { Seq::empty() }) + (
    if include_uppercase {
        uppercase_letters()
    } else {
        Seq::empty()
    }) + (if include_numbers { decimal_digits() } else { Seq::empty() }) + (if include_symbols {
        symbol_chars()
    } else {
        Seq::empty()
    }));
    if charset.len() == 0 {
        charset = chars_of("abcdefghijklmnopqrstuvwxyz");
        proof {
            reveal_strlit("abcdefghijklmnopqrstuvwxyz");
        }
    }
    let ghost cs = password_charset(
        include_uppercase,
        include_lowercase,
        include_numbers,
        include_symbols,
    );
    assert(charset@ == cs);
    let n = charset.len();
    let count: usize = if length <= random.len() {
        length
    } else {
        random.len()
    };
    let mut password: Vec<char> = Vec::new();
    let mut i: usize = 0;
    while i < count
        invariant
            n == charset@.len(),
            n > 0,
            charset@ == cs,
            count <= random@.len(),
            i <= count,
            password@.len() == i,
            forall|k: int|
                0 <= k < i ==> password@[k] == cs[(random@[k] as int) % (cs.len() as int)],
        decreases count - i,
    {
        let idx: usize = (random[i] as usize) % n;
        password.push(charset[idx]);
        i = i + 1;
    }
    assert(password@ =~= password_from_random(random@, cs, length as nat));
    string_from_chars(password.as_slice())
}

/// A password of `length` characters drawn from the selected classes, one random
/// byte from the operating system per character.
pub fn generate_password(
    length: usize,
    include_uppercase: bool,
    include_lowercase: bool,
    include_numbers: bool,
    include_symbols: bool,
) -> (r: String)
    ensures
        r@.len() == length,
        exists|random: Seq<u8>|
            random.len() == length && r@ == password_from_random(
                random,
                password_charset(include_uppercase, include_lowercase, include_numbers, include_symbols),
                length as nat,
            ),
{
    let random_bytes = os_random_bytes(length);
    generate_password_from(
        random_bytes.as_slice(),
        length,
        include_uppercase,
        include_lowercase,
        include_numbers,
        include_symbols,
    )
}

/// The password, with this salt, derives a key whose SHA-256 is `stored`.
pub open spec fn password_verifies(password: Seq<u8>, salt: Seq<u8>, stored: Seq<u8>) -> bool {
    match argon2_default_output(password, salt) {
        Some(h) => sha256_digest(h.subrange(0, 32)) == stored,
        None => false,
    }
}

pub(crate) fn bytes32_equal(a: &[u8; 32], b: &[u8; 32]) -> (r: bool)
    ensures
        r == (a@ == b@),
{
    let mut i: usize = 0;
    while i < 32
        invariant
            i <= 32,
            a@.len() == 32,
            b@.len() == 32,
            forall|k: int| 0 <= k < i ==> a@[k] == b@[k],
        decreases 32 - i,
    {
        if a[i] != b[i] {
            return false;
        }
        i = i + 1;
    }
    assert(a@ =~= b@);
    true
}

/// Re-derives the key with the salt and compares its SHA-256 with the stored hash.
pub fn verify_password(password: &str, salt: &[u8; 16], stored_hash: &[u8; 32]) -> (r: bool)
    ensures
        r == password_verifies(password.spec_bytes(), salt@, stored_hash@),
{
    match MasterKey::derive(password, Some(*salt)) {
        Ok(key) => {
            let computed_hash = hash(key.as_bytes().as_slice());
            bytes32_equal(&computed_hash, stored_hash)
        },
        Err(_) => false,
    }
}

/// The hash stored for a key is accepted for the password and salt the key was
/// derived from.
pub proof fn lemma_verify_accepts_derivation(password: Seq<u8>, salt: Seq<u8>, h: Seq<u8>)
    requires
        argon2_default_output(password, salt) == Some(h),
    ensures
        password_verifies(password, salt, sha256_digest(h.subrange(0, 32))),
{
}

} // verus!
