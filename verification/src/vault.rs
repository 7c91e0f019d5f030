//! What the encrypted vault database computes around its SQL: sealing and
//! opening stored records, the key-check canary, credential search and the
//! list view. The database connection itself lives with the caller.

use vstd::prelude::*;
use vstd::utf8::{decode_utf8, valid_utf8};
use crate::crypto::{
    base64_decoded, concat_strs, encode_base64, parsed_encrypted, CryptoError, EncryptedData,
};
use crate::kdf::{argon2id_output, derive_key, Argon2Config};
use crate::keys::{generate_salt, MasterKey};
use crate::models::{meta_of, Credential, CredentialMeta};
use crate::symmetric::{aes256gcm_opened, decryption_of, Aes256Gcm};
use crate::text::{
    chars_of, contains_chars, contains_seq, lowercase_of, owned, string_from_chars, to_lowercase,
};

verus! {

/// Why a vault operation failed; the text says more.
#[derive(Debug)]
pub enum VaultError {
    Database(String),
    Encryption(String),
    Decryption(String),
    NotFound(String),
    InvalidOperation(String),
}

impl VaultError {
    /// The error as the user reads it (`"Database error: ..."` and so on).
    pub fn message(&self) -> (r: String)
        ensures
            r@ == match self {
                VaultError::Database(m) => "Database error: "@ + m@,
                VaultError::Encryption(m) => "Encryption error: "@ + m@,
                VaultError::Decryption(m) => "Decryption error: "@ + m@,
                VaultError::NotFound(m) => "Not found: "@ + m@,
                VaultError::InvalidOperation(m) => "Invalid operation: "@ + m@,
            },
    {
        match self {
            VaultError::Database(m) => concat_strs("Database error: ", m.as_str()),
            VaultError::Encryption(m) => concat_strs("Encryption error: ", m.as_str()),
            VaultError::Decryption(m) => concat_strs("Decryption error: ", m.as_str()),
            VaultError::NotFound(m) => concat_strs("Not found: ", m.as_str()),
            VaultError::InvalidOperation(m) => concat_strs("Invalid operation: ", m.as_str()),
        }
    }
}

/// Metadata key under which the canary is stored.
pub const CANARY_KEY: &'static str = "_canary";

/// The bytes `myki_vault_canary_v1`, encrypted under the vault key when a vault
/// is created and checked when it is opened.
pub open spec fn canary_plaintext() -> Seq<u8> {
    seq![
        109u8, 121, 107, 105, 95, 118, 97, 117, 108, 116, 95, 99, 97, 110, 97, 114, 121, 95, 118,
        49,
    ]
}

fn canary_bytes() -> (r: Vec<u8>)
    ensures
        r@ == canary_plaintext(),
{
    let r: Vec<u8> = vec![
        109u8, 121, 107, 105, 95, 118, 97, 117, 108, 116, 95, 99, 97, 110, 97, 114, 121, 95, 118,
        49,
    ];
    assert(r@ =~= canary_plaintext());
    r
}

/// A stored record opens under `key` to `plaintext`: it parses, has a 12-byte
/// nonce, and authenticates without additional data.
pub open spec fn record_opens_to(key: Seq<u8>, stored: Seq<char>, plaintext: Seq<u8>) -> bool {
    match parsed_encrypted(stored) {
        Some(p) => p.0.len() == 12 && aes256gcm_opened(key, p.0, Seq::empty(), p.1) == Some(
            plaintext,
        ),
        None => false,
    }
}

/// The plaintext of a stored record, if it parses, has a 12-byte nonce and authenticates.
pub open spec fn record_plaintext(key: Seq<u8>, stored: Seq<char>) -> Option<Seq<u8>> {
    match parsed_encrypted(stored) {
        Some(p) => if p.0.len() == 12 {
            aes256gcm_opened(key, p.0, Seq::empty(), p.1)
        } else {
            None
        },
        None => None,
    }
}

/// Encrypts bytes without additional data and writes the record's text form.
pub fn seal_record(cipher: &Aes256Gcm, plaintext: &[u8]) -> (r: Result<String, CryptoError>)
    ensures
        r matches Ok(s) ==> record_opens_to(cipher@, s@, plaintext@),
        r matches Ok(s) ==> record_plaintext(cipher@, s@) == Some(plaintext@),
        r is Ok <==> plaintext@.len() <= crate::symmetric::gcm_max_len(),
{
    let data = cipher.encrypt(plaintext, None)?;
    let text = data.to_base64();
    proof {
        assert(decryption_of(cipher@, data, Seq::empty()) == Some(plaintext@));
    }
    Ok(text)
}

/// Parses and decrypts a stored record (a nonce that is not 12 bytes is refused
/// as corrupted: the original's nonce conversion panics there).
pub fn open_record(cipher: &Aes256Gcm, stored: &str) -> (r: Result<Vec<u8>, CryptoError>)
    ensures
        match record_plaintext(cipher@, stored@) {
            Some(p) => r matches Ok(v) && v@ == p,
            None => r matches Err(CryptoError::Decryption(_)),
        },
{
    let data = EncryptedData::from_base64(stored)?;
    if data.nonce.len() != 12 {
        return Err(CryptoError::Decryption(owned("nonce must be 12 bytes")));
    }
    cipher.decrypt(&data, None)
}

/// The canary record written into a new vault.
pub fn canary_record(cipher: &Aes256Gcm) -> (r: Result<String, VaultError>)
    ensures
        r matches Ok(s) ==> record_opens_to(cipher@, s@, canary_plaintext()),
        r matches Ok(s) ==> canary_accepted(cipher@, Some(s@)),
        r is Ok,
{
    let plain = canary_bytes();
    match seal_record(cipher, plain.as_slice()) {
        Ok(s) => Ok(s),
        Err(e) => Err(
            VaultError::Encryption(concat_strs("Failed to create canary: ", e.message().as_str())),
        ),
    }
}

/// Whether a vault with this stored canary opens under `key` (no canary: a vault
/// from before canaries, accepted).
pub open spec fn canary_accepted(key: Seq<u8>, stored: Option<Seq<char>>) -> bool {
    match stored {
        None => true,
        Some(s) => record_plaintext(key, s) == Some(canary_plaintext()),
    }
}

fn bytes_equal(a: &Vec<u8>, b: &Vec<u8>) -> (r: bool)
    ensures
        r == (a@ == b@),
{
    if a.len() != b.len() {
        return false;
    }
    let mut i: usize = 0;
    while i < a.len()
        invariant
            a@.len() == b@.len(),
            i <= a@.len(),
            forall|k: int| 0 <= k < i ==> a@[k] == b@[k],
        decreases a@.len() - i,
    {
        if a[i] != b[i] {
            return false;
        }
        i = i + 1;
    }
    assert(a@ =~= b@);
    true
}

/// Checks the key against the stored canary when a vault is opened.
pub fn check_canary(cipher: &Aes256Gcm, stored: Option<&str>) -> (r: Result<(), VaultError>)
    ensures
        r is Ok <==> canary_accepted(
            cipher@,
            match stored {
                Some(s) => Some(s@),
                None => None,
            },
        ),
        r matches Err(e) ==> e is Decryption,
{
    let b64 = match stored {
        None => {
            return Ok(());
        },
        Some(s) => s,
    };
    let encrypted = match EncryptedData::from_base64(b64) {
        Ok(d) => d,
        Err(_) => {
            return Err(VaultError::Decryption(owned("Corrupted vault canary")));
        },
    };
    if encrypted.nonce.len() != 12 {
        return Err(VaultError::Decryption(owned("Corrupted vault canary")));
    }
    let decrypted = match cipher.decrypt(&encrypted, None) {
        Ok(p) => p,
        Err(_) => {
            return Err(VaultError::Decryption(owned("Wrong password or corrupted vault")));
        },
    };
    let expected = canary_bytes();
    if !bytes_equal(&decrypted, &expected) {
        return Err(VaultError::Decryption(owned("Wrong password or corrupted vault")));
    }
    Ok(())
}

/// The metadata a new vault stores besides its tables: the salt in Base64 (a fresh
/// random one when none is given) and the canary sealed under the vault key.
pub fn vault_meta_records(master_key: &MasterKey, salt: Option<[u8; 32]>) -> (r: Result<
    (String, String),
    VaultError,
>)
    ensures
        r is Ok,
        r matches Ok((salt_b64, canary)) ==> (base64_decoded(salt_b64@) matches Some(b) && b.len()
            == 32),
        r matches Ok((salt_b64, canary)) ==> (salt matches Some(given) ==> base64_decoded(salt_b64@)
            == Some(given@)),
        r matches Ok((salt_b64, canary)) ==> record_opens_to(master_key.vault_key@, canary@, canary_plaintext()),
{
    let cipher = Aes256Gcm::new(&master_key.vault_key);
    let actual_salt: [u8; 32] = match salt {
        Some(s) => s,
        None => generate_salt(),
    };
    let salt_b64 = encode_base64(actual_salt.as_slice());
    let canary = canary_record(&cipher)?;
    Ok((salt_b64, canary))
}

/// What a new vault stores and the key it is protected with.
pub struct NewVault {
    pub salt_b64: String,
    pub canary: String,
    pub master_key: MasterKey,
}

/// A vault made with `password`: its stored salt decodes to a salt from which
/// the default Argon2id settings derive `vault_key`, and its canary is sealed
/// under that key.
pub open spec fn vault_created_with(
    password: Seq<u8>,
    salt_b64: Seq<char>,
    canary: Seq<char>,
    vault_key: Seq<u8>,
) -> bool {
    &&& base64_decoded(salt_b64) matches Some(salt)
    &&& argon2id_output(password, salt, 65536, 3, 4, 64) matches Some(h)
    &&& vault_key == h.subrange(0, 32)
    &&& record_opens_to(vault_key, canary, canary_plaintext())
}

/// A new vault for a password: a fresh 32-byte salt, the key derived from it with
/// the default Argon2id settings, and the metadata to store.
pub fn new_vault(password: &str) -> (r: Result<NewVault, VaultError>)
    ensures
        r matches Ok(v) ==> vault_created_with(
            vstd::string::StringSliceAdditionalSpecFns::spec_bytes(password),
            v.salt_b64@,
            v.canary@,
            v.master_key.vault_key@,
        ),
        r matches Ok(v) ==> (base64_decoded(v.salt_b64@) matches Some(b) && b.len() == 32),
        r matches Err(e) ==> e is Encryption,
        vstd::string::StringSliceAdditionalSpecFns::spec_bytes(password).len() <= 0xFFFF_FFFF
            ==> r is Ok,
{
    let salt = generate_salt();
    let config = Argon2Config::default();
    let master_key = match derive_key(password, salt.as_slice(), &config) {
        Ok(k) => k,
        Err(e) => {
            return Err(VaultError::Encryption(e.message()));
        },
    };
    let (salt_b64, canary) = vault_meta_records(&master_key, Some(salt))?;
    Ok(NewVault { salt_b64, canary, master_key })
}

/// A vault created with a password opens with it: the stored salt decodes to the
/// salt it was made with, deriving from it gives the same vault key, and the
/// canary check accepts that key.
pub proof fn lemma_created_vault_reopens(
    password: Seq<u8>,
    salt_b64: Seq<char>,
    canary: Seq<char>,
    vault_key: Seq<u8>,
)
    requires
        vault_created_with(password, salt_b64, canary, vault_key),
    ensures
        base64_decoded(salt_b64) matches Some(salt) && argon2id_output(
            password,
            salt,
            65536,
            3,
            4,
            64,
        ) matches Some(h) && h.subrange(0, 32) == vault_key && canary_accepted(vault_key, Some(canary)),
{
}

/// A vault's canary, written with a key, is accepted when opening with that key.
pub proof fn lemma_canary_roundtrip(key: Seq<u8>, stored: Seq<char>)
    requires
        record_opens_to(key, stored, canary_plaintext()),
    ensures
        canary_accepted(key, Some(stored)),
{
}

/// The text a stored record holds under `key`: it opens and its plaintext is UTF-8.
pub open spec fn stored_text(key: Seq<u8>, stored: Seq<char>) -> Option<Seq<char>> {
    match record_plaintext(key, stored) {
        Some(p) if valid_utf8(p) => Some(decode_utf8(p)),
        _ => None,
    }
}

/// Encrypts the serialized form of a credential for storage; the record reads
/// back, under the same key, as that same text.
pub fn seal_credential_json(cipher: &Aes256Gcm, json: &str) -> (r: Result<String, VaultError>)
    ensures
        r matches Ok(s) ==> record_opens_to(cipher@, s@, vstd::string::StringSliceAdditionalSpecFns::spec_bytes(json)),
        r matches Ok(s) ==> stored_text(cipher@, s@) == Some(json@),
        r is Ok <==> vstd::string::StringSliceAdditionalSpecFns::spec_bytes(json).len() <= crate::symmetric::gcm_max_len(),
        r matches Err(e) ==> e is Encryption,
{
    match seal_record(cipher, json.as_bytes()) {
        Ok(s) => {
            proof {
                vstd::utf8::encode_utf8_valid_utf8(json@);
                vstd::utf8::encode_utf8_decode_utf8(json@);
            }
            Ok(s)
        },
        Err(e) => Err(VaultError::Encryption(concat_strs("Encryption failed: ", e.message().as_str()))),
    }
}

/// Decrypts a stored credential back to its serialized text.
pub fn open_credential_json(cipher: &Aes256Gcm, stored: &str) -> (r: Result<String, VaultError>)
    ensures
        match stored_text(cipher@, stored@) {
            Some(t) => r matches Ok(s) && s@ == t,
            None => r matches Err(VaultError::Decryption(_)),
        },
{
    let data = match EncryptedData::from_base64(stored) {
        Ok(d) => d,
        Err(e) => {
            return Err(
                VaultError::Decryption(concat_strs("Invalid encrypted data: ", e.debug_text().as_str())),
            );
        },
    };
    if data.nonce.len() != 12 {
        return Err(VaultError::Decryption(owned("Invalid encrypted data: nonce must be 12 bytes")));
    }
    let decrypted = match cipher.decrypt(&data, None) {
        Ok(p) => p,
        Err(e) => {
            return Err(
                VaultError::Decryption(concat_strs("Decryption failed: ", e.debug_text().as_str())),
            );
        },
    };
    match crate::text::string_from_utf8(decrypted) {
        Ok(s) => Ok(s),
        Err(m) => Err(VaultError::Decryption(concat_strs("Invalid UTF-8: ", m.as_str()))),
    }
}

/// Serialized texts of the stored records, in order, when every one of them opens;
/// `None` when some record does not.
pub open spec fn opened_texts(key: Seq<u8>, stored: Seq<Seq<char>>) -> Option<Seq<Seq<char>>>
    decreases stored.len(),
{
    if stored.len() == 0 {
        Some(Seq::empty())
    } else {
        match (opened_texts(key, stored.drop_last()), stored_text(key, stored.last())) {
            (Some(rest), Some(t)) => Some(rest.push(t)),
            _ => None,
        }
    }
}

pub open spec fn string_views(v: Seq<String>) -> Seq<Seq<char>> {
    Seq::new(v.len(), |i: int| v[i]@)
}

/// Once a prefix of the records fails to open, every longer prefix does.
proof fn lemma_opened_prefix(key: Seq<u8>, s: Seq<Seq<char>>, i: int, j: int)
    requires
        0 <= i <= j <= s.len(),
        opened_texts(key, s.take(i)) is None,
    ensures
        opened_texts(key, s.take(j)) is None,
    decreases j - i,
{
    if j > i {
        lemma_opened_prefix(key, s, i, j - 1);
        assert(s.take(j).drop_last() =~= s.take(j - 1));
    }
}

/// Decrypts every stored credential, in order. A record that does not parse,
/// decrypt or read as UTF-8 makes the whole listing fail with that record's
/// `Decryption` error.
pub fn open_credential_jsons(cipher: &Aes256Gcm, stored: &Vec<String>) -> (r: Result<
    Vec<String>,
    VaultError,
>)
    ensures
        match opened_texts(cipher@, string_views(stored@)) {
            Some(texts) => r matches Ok(v) && string_views(v@) == texts,
            None => r matches Err(VaultError::Decryption(_)),
        },
{
    let mut out: Vec<String> = Vec::new();
    let mut i: usize = 0;
    let ghost all = string_views(stored@);
    while i < stored.len()
        invariant
            i <= stored@.len(),
            all == string_views(stored@),
            opened_texts(cipher@, all.take(i as int)) == Some(string_views(out@)),
        decreases stored@.len() - i,
    {
        assert(all.take(i + 1).drop_last() =~= all.take(i as int));
        assert(all.take(i + 1).last() == stored@[i as int]@);
        let ghost before = out@;
        match open_credential_json(cipher, stored[i].as_str()) {
            Ok(s) => {
                out.push(s);
                assert(string_views(out@) =~= string_views(before).push(s@));
            },
            Err(e) => {
                proof {
                    lemma_opened_prefix(cipher@, all, i + 1, all.len() as int);
                    assert(all.take(all.len() as int) =~= all);
                }
                return Err(e);
            },
        }
        i = i + 1;
    }
    assert(all.take(all.len() as int) =~= all);
    Ok(out)
}

// ---------------------------------------------------------------------------
// Search and list views
// ---------------------------------------------------------------------------

/// `text`, lower-cased, contains `query_lower`.
pub open spec fn lower_contains(text: Seq<char>, query_lower: Seq<char>) -> bool {
    contains_seq(lowercase_of(text), query_lower)
}

/// Case-insensitive substring test used by every search.
pub fn text_contains_lower(text: &str, query_lower: &Vec<char>) -> (r: bool)
    ensures
        r == lower_contains(text@, query_lower@),
{
    let lower = to_lowercase(text);
    contains_chars(&chars_of(lower.as_str()), query_lower)
}

/// Title, username or URL matches the lower-cased query.
pub open spec fn fields_match(title: Seq<char>, username: Seq<char>, url: Option<Seq<char>>, query_lower: Seq<char>) -> bool {
    lower_contains(title, query_lower) || lower_contains(username, query_lower) || match url {
        Some(u) => lower_contains(u, query_lower),
        None => false,
    }
}

pub open spec fn opt_view(s: Option<String>) -> Option<Seq<char>> {
    match s {
        Some(x) => Some(x@),
        None => None,
    }
}

pub open spec fn credential_matches(c: Credential, query_lower: Seq<char>) -> bool {
    fields_match(c.title@, c.username@, opt_view(c.url), query_lower)
}

/// The credentials of `s` that match, in order.
pub open spec fn matching_credentials(s: Seq<Credential>, query_lower: Seq<char>) -> Seq<Credential>
    decreases s.len(),
{
    if s.len() == 0 {
        Seq::empty()
    } else {
        let rest = matching_credentials(s.drop_last(), query_lower);
        if credential_matches(s.last(), query_lower) {
            rest.push(s.last())
        } else {
            rest
        }
    }
}

/// A search matches a credential exactly when the lower-cased query occurs, at any
/// position, in the lower-cased title, in the lower-cased username, or in the
/// lower-cased URL when there is one.
pub proof fn lemma_search_matches_substrings(c: Credential, q: Seq<char>)
    ensures
        credential_matches(c, q) <==> {
            ||| exists|i: int|
                0 <= i && i + q.len() <= lowercase_of(c.title@).len() && #[trigger] lowercase_of(
                    c.title@,
                ).subrange(i, i + q.len()) == q
            ||| exists|i: int|
                0 <= i && i + q.len() <= lowercase_of(c.username@).len() && #[trigger] lowercase_of(
                    c.username@,
                ).subrange(i, i + q.len()) == q
            ||| match c.url {
                Some(u) => exists|i: int|
                    0 <= i && i + q.len() <= lowercase_of(u@).len() && #[trigger] lowercase_of(
                        u@,
                    ).subrange(i, i + q.len()) == q,
                None => false,
            }
        },
{
}

/// A search keeps exactly the credentials that match: a credential is in the
/// result if and only if it is one of the given credentials and it matches.
pub proof fn lemma_search_keeps_exactly_matches(s: Seq<Credential>, q: Seq<char>)
    ensures
        forall|c: Credential|
            #[trigger] matching_credentials(s, q).contains(c) <==> s.contains(c)
                && credential_matches(c, q),
    decreases s.len(),
{
    if s.len() > 0 {
        let rest = s.drop_last();
        lemma_search_keeps_exactly_matches(rest, q);
        let m = matching_credentials(s, q);
        let mr = matching_credentials(rest, q);
        assert forall|c: Credential| #[trigger] m.contains(c) <==> s.contains(c) && credential_matches(
            c,
            q,
        ) by {
            if m.contains(c) {
                let k = choose|k: int| 0 <= k < m.len() && m[k] == c;
                if credential_matches(s.last(), q) {
                    assert(m == mr.push(s.last()));
                } else {
                    assert(m == mr);
                }
                if k < mr.len() {
                    assert(mr[k] == c);
                    assert(mr.contains(c));
                    let j = choose|j: int| 0 <= j < rest.len() && rest[j] == c;
                    assert(s[j] == c);
                } else {
                    assert(c == s.last());
                    assert(s[s.len() - 1] == c);
                }
            }
            if s.contains(c) && credential_matches(c, q) {
                let j = choose|j: int| 0 <= j < s.len() && s[j] == c;
                if j < s.len() - 1 {
                    assert(rest[j] == c);
                    assert(rest.contains(c));
                    assert(mr.contains(c));
                    let k = choose|k: int| 0 <= k < mr.len() && mr[k] == c;
                    if credential_matches(s.last(), q) {
                        assert(m == mr.push(s.last()));
                        assert(m[k] == c);
                    } else {
                        assert(m == mr);
                        assert(m[k] == c);
                    }
                } else {
                    assert(m[m.len() - 1] == c);
                }
            }
        }
    }
}

pub fn fields_match_exec(title: &str, username: &str, url: &Option<String>, query_lower: &Vec<char>) -> (r: bool)
    ensures
        r == fields_match(title@, username@, opt_view(*url), query_lower@),
{
    if text_contains_lower(title, query_lower) {
        return true;
    }
    if text_contains_lower(username, query_lower) {
        return true;
    }
    match url {
        Some(u) => text_contains_lower(u.as_str(), query_lower),
        None => false,
    }
}

/// The credentials whose title, username or URL contains the query, ignoring
/// case, in their original order.
pub fn search_credentials(all: Vec<Credential>, query: &str) -> (r: Vec<Credential>)
    ensures
        r@ == matching_credentials(all@, lowercase_of(query@)),
        query@.len() == 0 ==> r@ == all@,
{
    let lowered = to_lowercase(query);
    proof {
        if query@.len() == 0 {
            lemma_empty_query_matches_all(all@, lowercase_of(query@));
        }
    }
    let query_lower = chars_of(lowered.as_str());
    let mut out: Vec<Credential> = Vec::new();
    let ghost all_view = all@;
    for c in it: all.into_iter()
        invariant
            it.seq() == all_view,
            out@ == matching_credentials(all_view.take(it.index() as int), query_lower@),
    {
        let ghost k = it.index();
        assert(all_view.take(k + 1).drop_last() =~= all_view.take(k as int));
        if fields_match_exec(c.title.as_str(), c.username.as_str(), &c.url, &query_lower) {
            out.push(c);
        }
    }
    assert(all_view.take(all_view.len() as int) =~= all_view);
    out
}

/// The empty query matches every credential.
pub proof fn lemma_empty_query_matches_all(s: Seq<Credential>, query_lower: Seq<char>)
    requires
        query_lower.len() == 0,
    ensures
        matching_credentials(s, query_lower) == s,
    decreases s.len(),
{
    if s.len() > 0 {
        lemma_empty_query_matches_all(s.drop_last(), query_lower);
        crate::text::lemma_contains_empty(lowercase_of(s.last().title@), query_lower);
        assert(s.drop_last().push(s.last()) =~= s);
    }
}

pub open spec fn metas_of(s: Seq<Credential>) -> Seq<CredentialMeta> {
    Seq::new(s.len(), |i: int| meta_of(s[i]))
}

/// The list view of credentials.
pub fn credential_metas(all: &Vec<Credential>) -> (r: Vec<CredentialMeta>)
    ensures
        r@ == metas_of(all@),
{
    let mut out: Vec<CredentialMeta> = Vec::new();
    let mut i: usize = 0;
    while i < all.len()
        invariant
            i <= all@.len(),
            out@ == metas_of(all@.take(i as int)),
        decreases all@.len() - i,
    {
        out.push(CredentialMeta::from(&all[i]));
        i = i + 1;
        assert(out@ =~= metas_of(all@.take(i as int)));
    }
    assert(all@.take(all@.len() as int) =~= all@);
    out
}

/// The list view of the credentials that match the query.
pub fn search_credential_metas(all: Vec<Credential>, query: &str) -> (r: Vec<CredentialMeta>)
    ensures
        r@ == metas_of(matching_credentials(all@, lowercase_of(query@))),
        query@.len() == 0 ==> r@ == metas_of(all@),
{
    let found = search_credentials(all, query);
    credential_metas(&found)
}

} // verus!
