//! The extension's credential rows: every text field but the URL pattern is
//! stored encrypted (`nonce || ciphertext`) under the master key. This module
//! holds what happens around the SQL: encrypting fields for a write, decrypting
//! a row for a read, search, URL matching and the unlock check.

use vstd::prelude::*;
use vstd::string::StringSliceAdditionalSpecFns;
use vstd::utf8::{decode_utf8, valid_utf8};
use crate::extension::crypto::{
    argon2_default_output, blob_decryption, bytes32_equal, decrypt, encrypt, hash, password_verifies, sha256_digest, CryptoError,
    MasterKey,
};
use crate::symmetric::gcm_max_len;
use crate::text::{chars_of, lowercase_of, owned, string_from_chars, string_from_utf8_lossy, to_lowercase, utf8_lossy};
use crate::vault::{fields_match, fields_match_exec, opt_view};

verus! {

#[verifier::external_type_specification]
#[verifier::external_body]
pub struct ExConnection(rusqlite::Connection);

/// The extension's vault session: whether it is unlocked, the open database and
/// the master key.
pub struct Vault {
    pub is_unlocked: bool,
    pub connection: Option<rusqlite::Connection>,
    pub master_key: Option<MasterKey>,
}

impl Vault {
    /// A locked vault with nothing open.
    pub fn new() -> (r: Self)
        ensures
            !r.is_unlocked,
            r.connection is None,
            r.master_key is None,
    {
        Vault { is_unlocked: false, connection: None, master_key: None }
    }

    /// What a command that reads the vault needs: an unlocked vault with its
    /// connection and master key. The errors are, in this order of checking,
    /// `Vault is locked`, `No connection` and `No master key`.
    pub fn unlocked_parts(&self) -> (r: Result<(&rusqlite::Connection, &MasterKey), String>)
        ensures
            !self.is_unlocked ==> (r matches Err(m) && m@ == "Vault is locked"@),
            self.is_unlocked && self.connection is None ==> (r matches Err(m) && m@
                == "No connection"@),
            self.is_unlocked && self.connection is Some && self.master_key is None ==> (r matches Err(
                m,
            ) && m@ == "No master key"@),
            r is Ok <==> self.is_unlocked && self.connection is Some && self.master_key is Some,
            r matches Ok((c, k)) ==> self.connection == Some(*c) && self.master_key == Some(*k),
    {
        if !self.is_unlocked {
            return Err(owned("Vault is locked"));
        }
        let conn = match &self.connection {
            Some(c) => c,
            None => {
                return Err(owned("No connection"));
            },
        };
        let key = match &self.master_key {
            Some(k) => k,
            None => {
                return Err(owned("No master key"));
            },
        };
        Ok((conn, key))
    }

    /// What a command that only writes counters needs: an unlocked vault with its
    /// connection (`Vault is locked`, then `No connection`, otherwise).
    pub fn unlocked_connection(&self) -> (r: Result<&rusqlite::Connection, String>)
        ensures
            !self.is_unlocked ==> (r matches Err(m) && m@ == "Vault is locked"@),
            self.is_unlocked && self.connection is None ==> (r matches Err(m) && m@
                == "No connection"@),
            r is Ok <==> self.is_unlocked && self.connection is Some,
            r matches Ok(c) ==> self.connection == Some(*c),
    {
        if !self.is_unlocked {
            return Err(owned("Vault is locked"));
        }
        match &self.connection {
            Some(c) => Ok(c),
            None => Err(owned("No connection")),
        }
    }

    /// Unlocks with an open connection and the key.
    pub fn unlock(&mut self, connection: rusqlite::Connection, master_key: MasterKey)
        ensures
            final(self).is_unlocked,
            final(self).connection == Some(connection),
            final(self).master_key == Some(master_key),
    {
        self.is_unlocked = true;
        self.connection = Some(connection);
        self.master_key = Some(master_key);
    }

    /// Locks: forgets the connection and the key.
    pub fn lock(&mut self)
        ensures
            !final(self).is_unlocked,
            final(self).connection is None,
            final(self).master_key is None,
    {
        self.is_unlocked = false;
        self.connection = None;
        self.master_key = None;
    }
}

/// A decrypted credential row.
#[derive(Debug, Clone)]
pub struct Credential {
    pub id: String,
    pub title: String,
    pub username: String,
    pub password: String,
    pub url_pattern: Option<String>,
    pub notes: Option<String>,
    pub totp_secret: Option<String>,
    pub folder_id: Option<String>,
    pub favorite: bool,
    pub created_at: i64,
    pub updated_at: i64,
    pub use_count: i32,
}

/// Whether a vault exists, whether it is unlocked, and how many credentials it holds.
#[derive(Debug, Clone)]
pub struct VaultStatus {
    pub exists: bool,
    pub is_unlocked: bool,
    pub credential_count: i32,
}

/// Milliseconds since the epoch from `SystemTime::now()`, or `None` before the
/// epoch. Nothing is stated about the value: it is the time.
#[verifier::external_body]
fn unix_time_millis() -> (r: Option<u128>) {
    match std::time::SystemTime::now().duration_since(std::time::UNIX_EPOCH) {
        Ok(d) => Some(d.as_millis()),
        Err(_) => None,
    }
}

/// The current time in milliseconds (0 for a clock before the epoch).
pub fn chrono_now() -> (r: i64) {
    match unix_time_millis() {
        Some(ms) => ms as i64,
        None => 0,
    }
}

/// The host of a URL as `url::Url` parses it (`None` when it does not parse or has
/// no host).
pub uninterp spec fn url_host_of(url: Seq<char>) -> Option<Seq<char>>;

/// Calls `str::parse::<url::Url>` and `Url::host_str`; the host is only named.
#[verifier::external_body]
fn url_host(url: &str) -> (r: Option<String>)
    ensures
        match url_host_of(url@) {
            Some(h) => r matches Some(s) && s@ == h,
            None => r is None,
        },
{
    url.parse::<url::Url>().ok().and_then(|u| u.host_str().map(|h| h.to_string()))
}

/// The domain a URL belongs to: its host, or the text itself when it has none.
pub open spec fn domain_of(url: Seq<char>) -> Seq<char> {
    match url_host_of(url) {
        Some(h) => h,
        None => url,
    }
}

pub fn extract_domain(url: &str) -> (r: String)
    ensures
        r@ == domain_of(url@),
{
    match url_host(url) {
        Some(h) => h,
        None => owned(url),
    }
}

fn wrap_percent(s: &str) -> (r: String)
    ensures
        r@ == seq!['%'] + s@ + seq!['%'],
{
    let mut v: Vec<char> = Vec::new();
    v.push('%');
    let w = chars_of(s);
    let mut i: usize = 0;
    while i < w.len()
        invariant
            i <= w@.len(),
            w@ == s@,
            v@ == seq!['%'] + w@.take(i as int),
        decreases w@.len() - i,
    {
        v.push(w[i]);
        i = i + 1;
        assert(v@ =~= seq!['%'] + w@.take(i as int));
    }
    v.push('%');
    assert(w@.take(w@.len() as int) =~= w@);
    assert(v@ =~= seq!['%'] + s@ + seq!['%']);
    string_from_chars(v.as_slice())
}

/// The two SQL `LIKE` patterns a page URL is looked up with: its domain and the
/// whole URL, each between `%` signs.
pub fn url_like_patterns(url: &str) -> (r: (String, String))
    ensures
        r.0@ == seq!['%'] + domain_of(url@) + seq!['%'],
        r.1@ == seq!['%'] + url@ + seq!['%'],
{
    let domain = extract_domain(url);
    (wrap_percent(domain.as_str()), wrap_percent(url))
}

/// The encrypted fields of a credential, as stored.
#[derive(Debug, Clone)]
pub struct EncryptedFields {
    pub title: Vec<u8>,
    pub username: Vec<u8>,
    pub password: Vec<u8>,
    pub notes: Option<Vec<u8>>,
    pub totp_secret: Option<Vec<u8>>,
}

pub open spec fn opt_bytes(s: Option<&str>) -> Option<Seq<u8>> {
    match s {
        Some(x) => Some(x.spec_bytes()),
        None => None,
    }
}

/// An optional encrypted field opens to the optional text's bytes.
pub open spec fn opt_blob_opens_to(key: Seq<u8>, blob: Option<Vec<u8>>, text: Option<Seq<u8>>) -> bool {
    match (blob, text) {
        (Some(b), Some(t)) => blob_decryption(key, b@) == Some(t),
        (None, None) => true,
        _ => false,
    }
}

/// An optional text is short enough for AES-GCM (or absent).
pub open spec fn opt_fits(s: Option<&str>) -> bool {
    match s {
        Some(x) => x.spec_bytes().len() <= gcm_max_len(),
        None => true,
    }
}

/// Every given field is short enough for AES-GCM.
pub open spec fn fields_fit(
    title: &str,
    username: &str,
    password: &str,
    notes: Option<&str>,
    totp_secret: Option<&str>,
) -> bool {
    &&& title.spec_bytes().len() <= gcm_max_len()
    &&& username.spec_bytes().len() <= gcm_max_len()
    &&& password.spec_bytes().len() <= gcm_max_len()
    &&& opt_fits(notes)
    &&& opt_fits(totp_secret)
}

fn encrypt_opt(text: Option<&str>, key: &[u8; 32]) -> (r: Result<Option<Vec<u8>>, CryptoError>)
    ensures
        r is Ok <==> opt_fits(text),
        r matches Ok(b) ==> opt_blob_opens_to(key@, b, opt_bytes(text)),
        r matches Err(e) ==> e == CryptoError::EncryptionFailed,
{
    match text {
        Some(t) => {
            let b = encrypt(t.as_bytes(), key)?;
            Ok(Some(b))
        },
        None => Ok(None),
    }
}

/// Encrypts the fields of a credential under the master key; each one decrypts
/// back to the bytes it was made from. It succeeds exactly when every field is
/// short enough for AES-GCM.
pub fn encrypt_fields(
    master_key: &MasterKey,
    title: &str,
    username: &str,
    password: &str,
    notes: Option<&str>,
    totp_secret: Option<&str>,
) -> (r: Result<EncryptedFields, CryptoError>)
    ensures
        r is Ok <==> fields_fit(title, username, password, notes, totp_secret),
        r matches Ok(f) ==> {
            &&& blob_decryption(master_key@.0, f.title@) == Some(title.spec_bytes())
            &&& blob_decryption(master_key@.0, f.username@) == Some(username.spec_bytes())
            &&& blob_decryption(master_key@.0, f.password@) == Some(password.spec_bytes())
            &&& opt_blob_opens_to(master_key@.0, f.notes, opt_bytes(notes))
            &&& opt_blob_opens_to(master_key@.0, f.totp_secret, opt_bytes(totp_secret))
        },
        r matches Err(e) ==> e == CryptoError::EncryptionFailed,
{
    let key = master_key.as_bytes();
    let title_encrypted = encrypt(title.as_bytes(), &key)?;
    let username_encrypted = encrypt(username.as_bytes(), &key)?;
    let password_encrypted = encrypt(password.as_bytes(), &key)?;
    let notes_encrypted = encrypt_opt(notes, &key)?;
    let totp_encrypted = encrypt_opt(totp_secret, &key)?;
    Ok(
        EncryptedFields {
            title: title_encrypted,
            username: username_encrypted,
            password: password_encrypted,
            notes: notes_encrypted,
            totp_secret: totp_encrypted,
        },
    )
}

/// A credential row as read from the database, before decryption.
#[derive(Debug, Clone)]
pub struct EncryptedRow {
    pub id: String,
    pub title_encrypted: Vec<u8>,
    pub username_encrypted: Vec<u8>,
    pub password_encrypted: Vec<u8>,
    pub url_pattern: Option<String>,
    pub notes_encrypted: Option<Vec<u8>>,
    pub totp_secret_encrypted: Option<Vec<u8>>,
    pub folder_id: Option<String>,
    pub favorite: i32,
    pub created_at: i64,
    pub updated_at: i64,
    pub use_count: i32,
}

/// A required field: its decrypted text, read leniently as UTF-8, or empty when it
/// does not decrypt.
pub open spec fn field_text(key: Seq<u8>, blob: Seq<u8>) -> Seq<char> {
    match blob_decryption(key, blob) {
        Some(p) => utf8_lossy(p),
        None => Seq::empty(),
    }
}

/// An optional field: absent when missing or when it does not decrypt.
pub open spec fn opt_field_text(key: Seq<u8>, blob: Option<Vec<u8>>) -> Option<Seq<char>> {
    match blob {
        Some(b) => match blob_decryption(key, b@) {
            Some(p) => Some(utf8_lossy(p)),
            None => None,
        },
        None => None,
    }
}

/// A field that decrypts to well-formed UTF-8 reads back as exactly that text.
pub open spec fn reads_back(key: Seq<u8>, blob: Seq<u8>, text: Seq<char>) -> bool {
    match blob_decryption(key, blob) {
        Some(p) => valid_utf8(p) ==> text == decode_utf8(p),
        None => true,
    }
}

fn decrypt_field(blob: &[u8], key: &[u8; 32]) -> (r: String)
    ensures
        r@ == field_text(key@, blob@),
        reads_back(key@, blob@, r@),
{
    match decrypt(blob, key) {
        Ok(b) => string_from_utf8_lossy(b.as_slice()),
        Err(_) => String::new(),
    }
}

fn decrypt_opt_field(blob: &Option<Vec<u8>>, key: &[u8; 32]) -> (r: Option<String>)
    ensures
        opt_view(r) == opt_field_text(key@, *blob),
        blob matches Some(b) ==> r matches Some(s) ==> reads_back(key@, b@, s@),
{
    match blob {
        Some(b) => match decrypt(b.as_slice(), key) {
            Ok(p) => Some(string_from_utf8_lossy(p.as_slice())),
            Err(_) => None,
        },
        None => None,
    }
}

/// Decrypts a row. Fields that do not decrypt read as empty (required fields) or
/// absent (optional ones); `favorite` is any non-zero value.
pub fn decrypt_row(row: EncryptedRow, master_key: &MasterKey) -> (r: Credential)
    ensures
        r.id == row.id,
        r.title@ == field_text(master_key@.0, row.title_encrypted@),
        r.username@ == field_text(master_key@.0, row.username_encrypted@),
        r.password@ == field_text(master_key@.0, row.password_encrypted@),
        reads_back(master_key@.0, row.title_encrypted@, r.title@),
        reads_back(master_key@.0, row.username_encrypted@, r.username@),
        reads_back(master_key@.0, row.password_encrypted@, r.password@),
        opt_view(r.notes) == opt_field_text(master_key@.0, row.notes_encrypted),
        opt_view(r.totp_secret) == opt_field_text(master_key@.0, row.totp_secret_encrypted),
        r.url_pattern == row.url_pattern,
        r.folder_id == row.folder_id,
        r.favorite == (row.favorite != 0),
        r.created_at == row.created_at,
        r.updated_at == row.updated_at,
        r.use_count == row.use_count,
{
    let key = master_key.as_bytes();
    let title = decrypt_field(row.title_encrypted.as_slice(), &key);
    let username = decrypt_field(row.username_encrypted.as_slice(), &key);
    let password = decrypt_field(row.password_encrypted.as_slice(), &key);
    let notes = decrypt_opt_field(&row.notes_encrypted, &key);
    let totp_secret = decrypt_opt_field(&row.totp_secret_encrypted, &key);
    Credential {
        id: row.id,
        title,
        username,
        password,
        url_pattern: row.url_pattern,
        notes,
        totp_secret,
        folder_id: row.folder_id,
        favorite: row.favorite != 0,
        created_at: row.created_at,
        updated_at: row.updated_at,
        use_count: row.use_count,
    }
}

/// What a write stores, a read gives back: a field encrypted from a text decrypts
/// to that same text.
pub proof fn lemma_field_roundtrip(key: Seq<u8>, blob: Seq<u8>, text: Seq<char>, read: Seq<char>)
    requires
        blob_decryption(key, blob) == Some(vstd::utf8::encode_utf8(text)),
        reads_back(key, blob, read),
    ensures
        read == text,
{
    vstd::utf8::encode_utf8_valid_utf8(text);
    vstd::utf8::encode_utf8_decode_utf8(text);
}

pub open spec fn ext_credential_matches(c: Credential, query_lower: Seq<char>) -> bool {
    fields_match(c.title@, c.username@, opt_view(c.url_pattern), query_lower)
}

/// The credentials of `s` that match, in order.
pub open spec fn matching_ext_credentials(s: Seq<Credential>, query_lower: Seq<char>) -> Seq<Credential>
    decreases s.len(),
{
    if s.len() == 0 {
        Seq::empty()
    } else {
        let rest = matching_ext_credentials(s.drop_last(), query_lower);
        if ext_credential_matches(s.last(), query_lower) {
            rest.push(s.last())
        } else {
            rest
        }
    }
}

/// A search matches a credential exactly when the lower-cased query occurs, at any
/// position, in the lower-cased title, in the lower-cased username, or in the
/// lower-cased URL pattern when there is one.
pub proof fn lemma_ext_search_matches_substrings(c: Credential, q: Seq<char>)
    ensures
        ext_credential_matches(c, q) <==> {
            ||| exists|i: int|
                0 <= i && i + q.len() <= lowercase_of(c.title@).len() && #[trigger] lowercase_of(
                    c.title@,
                ).subrange(i, i + q.len()) == q
            ||| exists|i: int|
                0 <= i && i + q.len() <= lowercase_of(c.username@).len() && #[trigger] lowercase_of(
                    c.username@,
                ).subrange(i, i + q.len()) == q
            ||| match c.url_pattern {
                Some(u) => exists|i: int|
                    0 <= i && i + q.len() <= lowercase_of(u@).len() && #[trigger] lowercase_of(
                        u@,
                    ).subrange(i, i + q.len()) == q,
                None => false,
            }
        },
{
}

/// A search keeps exactly the credentials that match: a credential is in the
/// result if and only if it is one of the given credentials and it matches.
pub proof fn lemma_ext_search_keeps_exactly_matches(s: Seq<Credential>, q: Seq<char>)
    ensures
        forall|c: Credential|
            #[trigger] matching_ext_credentials(s, q).contains(c) <==> s.contains(c)
                && ext_credential_matches(c, q),
    decreases s.len(),
{
    if s.len() > 0 {
        let rest = s.drop_last();
        lemma_ext_search_keeps_exactly_matches(rest, q);
        let m = matching_ext_credentials(s, q);
        let mr = matching_ext_credentials(rest, q);
        assert forall|c: Credential| #[trigger] m.contains(c) <==> s.contains(c) && ext_credential_matches(
            c,
            q,
        ) by {
            if m.contains(c) {
                let k = choose|k: int| 0 <= k < m.len() && m[k] == c;
                if ext_credential_matches(s.last(), q) {
                    assert(m == mr.push(s.last()));
                } else {
                    assert(m == mr);
                }
                if k < mr.len() {
                    assert(mr[k] == c);
                    assert(mr.contains(c));
                    let j = choose|j: int| 0 <= j < rest.len() && rest[j] == c;
                    assert(s[j] == c);
                } else {
                    assert(c == s.last());
                    assert(s[s.len() - 1] == c);
                }
            }
            if s.contains(c) && ext_credential_matches(c, q) {
                let j = choose|j: int| 0 <= j < s.len() && s[j] == c;
                if j < s.len() - 1 {
                    assert(rest[j] == c);
                    assert(rest.contains(c));
                    assert(mr.contains(c));
                    let k = choose|k: int| 0 <= k < mr.len() && mr[k] == c;
                    if ext_credential_matches(s.last(), q) {
                        assert(m == mr.push(s.last()));
                        assert(m[k] == c);
                    } else {
                        assert(m == mr);
                        assert(m[k] == c);
                    }
                } else {
                    assert(m[m.len() - 1] == c);
                }
            }
        }
    }
}

/// The empty query matches every credential.
pub proof fn lemma_empty_query_matches_all_ext(s: Seq<Credential>, query_lower: Seq<char>)
    requires
        query_lower.len() == 0,
    ensures
        matching_ext_credentials(s, query_lower) == s,
    decreases s.len(),
{
    if s.len() > 0 {
        lemma_empty_query_matches_all_ext(s.drop_last(), query_lower);
        crate::text::lemma_contains_empty(lowercase_of(s.last().title@), query_lower);
        assert(s.drop_last().push(s.last()) =~= s);
    }
}

/// The credentials whose title, username or URL pattern contains the query,
/// ignoring case, in their original order.
pub fn search_credentials(all: Vec<Credential>, query: &str) -> (r: Vec<Credential>)
    ensures
        r@ == matching_ext_credentials(all@, lowercase_of(query@)),
        query@.len() == 0 ==> r@ == all@,
{
    let lowered = to_lowercase(query);
    proof {
        if query@.len() == 0 {
            lemma_empty_query_matches_all_ext(all@, lowercase_of(query@));
        }
    }
    let query_lower = chars_of(lowered.as_str());
    let mut out: Vec<Credential> = Vec::new();
    let ghost all_view = all@;
    for c in it: all.into_iter()
        invariant
            it.seq() == all_view,
            out@ == matching_ext_credentials(all_view.take(it.index() as int), query_lower@),
    {
        let ghost k = it.index();
        assert(all_view.take(k + 1).drop_last() =~= all_view.take(k as int));
        if fields_match_exec(c.title.as_str(), c.username.as_str(), &c.url_pattern, &query_lower) {
            out.push(c);
        }
    }
    assert(all_view.take(all_view.len() as int) =~= all_view);
    out
}

/// A stored salt: the blob when it is 16 bytes, otherwise zeros.
pub fn salt_from_blob(blob: &Vec<u8>) -> (r: [u8; 16])
    ensures
        blob@.len() == 16 ==> r@ == blob@,
        blob@.len() != 16 ==> r@ == Seq::new(16, |i: int| 0u8),
{
    let mut out = [0u8; 16];
    if blob.len() != 16 {
        assert(out@ =~= Seq::new(16, |i: int| 0u8));
        return out;
    }
    let mut i: usize = 0;
    while i < 16
        invariant
            i <= 16,
            blob@.len() == 16,
            out@.len() == 16,
            forall|k: int| 0 <= k < i ==> out@[k] == blob@[k],
        decreases 16 - i,
    {
        out[i] = blob[i];
        i = i + 1;
    }
    assert(out@ =~= blob@);
    out
}

/// A stored password hash: the blob when it is 32 bytes, otherwise zeros.
pub fn hash_from_blob(blob: &Vec<u8>) -> (r: [u8; 32])
    ensures
        blob@.len() == 32 ==> r@ == blob@,
        blob@.len() != 32 ==> r@ == Seq::new(32, |i: int| 0u8),
{
    let mut out = [0u8; 32];
    if blob.len() != 32 {
        assert(out@ =~= Seq::new(32, |i: int| 0u8));
        return out;
    }
    let mut i: usize = 0;
    while i < 32
        invariant
            i <= 32,
            blob@.len() == 32,
            out@.len() == 32,
            forall|k: int| 0 <= k < i ==> out@[k] == blob@[k],
        decreases 32 - i,
    {
        out[i] = blob[i];
        i = i + 1;
    }
    assert(out@ =~= blob@);
    out
}

/// Unlocking: re-derive the key with the stored salt and compare its SHA-256
/// with the stored hash.
pub fn unlock_with_password(password: &str, salt: [u8; 16], stored_hash: [u8; 32]) -> (r: Result<
    MasterKey,
    String,
>)
    ensures
        r is Ok <==> password_verifies(password.spec_bytes(), salt@, stored_hash@),
        r matches Ok(k) ==> k@.1 == salt@ && sha256_digest(k@.0) == stored_hash@,
{
    let master_key = match MasterKey::derive(password, Some(salt)) {
        Ok(k) => k,
        Err(e) => {
            return Err(e.message());
        },
    };
    let computed_hash = hash(master_key.as_bytes().as_slice());
    if !bytes32_equal(&computed_hash, &stored_hash) {
        return Err(owned("Invalid password"));
    }
    Ok(master_key)
}

/// The configuration row of a new vault: a fresh random salt and the SHA-256 of
/// the key derived from the password with it. The password then unlocks it.
pub fn new_vault_config(password: &str) -> (r: Result<([u8; 16], [u8; 32]), CryptoError>)
    ensures
        r matches Ok((salt, stored)) ==> argon2_default_output(password.spec_bytes(), salt@) matches Some(
            h,
        ) && stored@ == sha256_digest(h.subrange(0, 32)),
        r matches Ok((salt, stored)) ==> password_verifies(password.spec_bytes(), salt@, stored@),
        r matches Err(e) ==> e == CryptoError::KeyDerivationFailed,
        password.spec_bytes().len() <= 0xFFFF_FFFF ==> r is Ok,
{
    let master_key = MasterKey::derive(password, None)?;
    let password_hash = hash(master_key.as_bytes().as_slice());
    Ok((master_key.salt(), password_hash))
}

/// A vault created with a password unlocks with that password: the stored hash
/// of a key derived with a salt is accepted for the same password and salt.
pub proof fn lemma_created_vault_unlocks(password: Seq<u8>, salt: Seq<u8>, stored: Seq<u8>)
    requires
        argon2_default_output(password, salt) matches Some(h) && stored == sha256_digest(
            h.subrange(0, 32),
        ),
    ensures
        password_verifies(password, salt, stored),
{
}

pub open spec fn opt_str_view(s: Option<&str>) -> Option<Seq<char>> {
    match s {
        Some(x) => Some(x@),
        None => None,
    }
}

/// A new credential: a fresh id, the current time, its fields encrypted for the
/// row, and the entry as the caller gets it back (not a favorite, never used, in
/// no folder). It succeeds exactly when every field is short enough for AES-GCM.
pub fn new_credential(
    master_key: &MasterKey,
    title: &str,
    username: &str,
    password: &str,
    url_pattern: Option<&str>,
    notes: Option<&str>,
    totp_secret: Option<&str>,
) -> (r: Result<(EncryptedFields, Credential), CryptoError>)
    ensures
        r is Ok <==> fields_fit(title, username, password, notes, totp_secret),
        r matches Ok((f, c)) ==> {
            &&& blob_decryption(master_key@.0, f.title@) == Some(title.spec_bytes())
            &&& blob_decryption(master_key@.0, f.username@) == Some(username.spec_bytes())
            &&& blob_decryption(master_key@.0, f.password@) == Some(password.spec_bytes())
            &&& opt_blob_opens_to(master_key@.0, f.notes, opt_bytes(notes))
            &&& opt_blob_opens_to(master_key@.0, f.totp_secret, opt_bytes(totp_secret))
            &&& c.id@.len() == 36
            &&& c.title@ == title@
            &&& c.username@ == username@
            &&& c.password@ == password@
            &&& opt_view(c.url_pattern) == opt_str_view(url_pattern)
            &&& opt_view(c.notes) == opt_str_view(notes)
            &&& opt_view(c.totp_secret) == opt_str_view(totp_secret)
            &&& c.folder_id is None
            &&& !c.favorite
            &&& c.created_at == c.updated_at
            &&& c.use_count == 0
        },
        r matches Err(e) ==> e == CryptoError::EncryptionFailed,
{
    let id = crate::models::new_uuid_v4();
    let now = chrono_now();
    let fields = encrypt_fields(master_key, title, username, password, notes, totp_secret)?;
    let credential = Credential {
        id,
        title: owned(title),
        username: owned(username),
        password: owned(password),
        url_pattern: opt_owned(url_pattern),
        notes: opt_owned(notes),
        totp_secret: opt_owned(totp_secret),
        folder_id: None,
        favorite: false,
        created_at: now,
        updated_at: now,
        use_count: 0,
    };
    Ok((fields, credential))
}

fn opt_owned(s: Option<&str>) -> (r: Option<String>)
    ensures
        opt_view(r) == opt_str_view(s),
{
    match s {
        Some(x) => Some(owned(x)),
        None => None,
    }
}

} // verus!
