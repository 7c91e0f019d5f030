//! Vault items: credentials, identities, secure notes, folders and TOTP secrets.
//! New items get a random UUID v4 and the current time (seconds since the epoch).

use vstd::prelude::*;
use crate::text::owned;
use crate::totp::unix_time_secs;

verus! {

/// A random UUID v4 in its hyphenated form (`Uuid::new_v4().to_string()`), which
/// is 36 characters long. Only the length is stated: the value is random.
#[verifier::external_body]
pub(crate) fn new_uuid_v4() -> (r: String)
    ensures
        r@.len() == 36,
{
    uuid::Uuid::new_v4().to_string()
}

/// Seconds since the epoch by the system clock; a clock before the epoch reads as 0.
pub fn now_secs() -> (r: i64) {
    match unix_time_secs() {
        Some(s) => s as i64,
        None => 0,
    }
}

/// A username/password entry.
#[derive(Debug, Clone)]
pub struct Credential {
    pub id: String,
    pub title: String,
    pub username: String,
    pub password: String,
    pub url: Option<String>,
    pub notes: Option<String>,
    pub folder_id: Option<String>,
    pub tags: Vec<String>,
    pub favorite: bool,
    pub created_at: i64,
    pub updated_at: i64,
    pub last_used_at: Option<i64>,
    pub use_count: i64,
    pub attachments: Option<Vec<String>>,
}

/// A fresh entry: the given texts, a new id, equal creation and update times,
/// and every optional field empty.
pub open spec fn fresh_credential(c: Credential, title: Seq<char>, username: Seq<char>, password: Seq<
    char,
>) -> bool {
    &&& c.id@.len() == 36
    &&& c.title@ == title
    &&& c.username@ == username
    &&& c.password@ == password
    &&& c.url is None
    &&& c.notes is None
    &&& c.folder_id is None
    &&& c.tags@.len() == 0
    &&& !c.favorite
    &&& c.created_at == c.updated_at
    &&& c.last_used_at is None
    &&& c.use_count == 0
    &&& c.attachments is None
}

impl Credential {
    pub fn new(title: String, username: String, password: String) -> (r: Self)
        ensures
            fresh_credential(r, title@, username@, password@),
    {
        let now = now_secs();
        Credential {
            id: new_uuid_v4(),
            title,
            username,
            password,
            url: None,
            notes: None,
            folder_id: None,
            tags: Vec::new(),
            favorite: false,
            created_at: now,
            updated_at: now,
            last_used_at: None,
            use_count: 0,
            attachments: None,
        }
    }

    /// Like `new`, with the URL and notes set.
    pub fn new_full(
        title: String,
        username: String,
        password: String,
        url: Option<String>,
        notes: Option<String>,
    ) -> (r: Self)
        ensures
            fresh_credential(
                (Credential { url: None, notes: None, ..r }),
                title@,
                username@,
                password@,
            ),
            r.url == url,
            r.notes == notes,
    {
        let mut cred = Self::new(title, username, password);
        cred.url = url;
        cred.notes = notes;
        cred
    }

    /// A credential from a creation request: missing tags are empty, a missing
    /// favourite flag is false.
    pub fn from_new(new: CredentialNew) -> (r: Self)
        ensures
            r.id@.len() == 36,
            r.title@ == new.title@,
            r.username@ == new.username@,
            r.password@ == new.password@,
            r.url == new.url,
            r.notes == new.notes,
            r.folder_id == new.folder_id,
            r.tags@ == match new.tags {
                Some(t) => t@,
                None => Seq::empty(),
            },
            r.favorite == match new.favorite {
                Some(f) => f,
                None => false,
            },
            r.attachments == new.attachments,
            r.created_at == r.updated_at,
            r.last_used_at is None,
            r.use_count == 0,
    {
        let mut cred = Credential::new(new.title, new.username, new.password);
        cred.url = new.url;
        cred.notes = new.notes;
        cred.folder_id = new.folder_id;
        cred.tags = match new.tags {
            Some(t) => t,
            None => Vec::new(),
        };
        cred.favorite = match new.favorite {
            Some(f) => f,
            None => false,
        };
        cred.attachments = new.attachments;
        cred
    }
}

/// A request to create a credential; only the three texts are required.
#[derive(Debug, Clone)]
pub struct CredentialNew {
    pub title: String,
    pub username: String,
    pub password: String,
    pub url: Option<String>,
    pub notes: Option<String>,
    pub folder_id: Option<String>,
    pub tags: Option<Vec<String>>,
    pub favorite: Option<bool>,
    pub attachments: Option<Vec<String>>,
}

/// What lists and searches show of a credential: no password, no notes.
#[derive(Debug, Clone)]
pub struct CredentialMeta {
    pub id: String,
    pub title: String,
    pub username: String,
    pub url: Option<String>,
    pub favorite: bool,
}

pub open spec fn meta_of(c: Credential) -> CredentialMeta {
    CredentialMeta { id: c.id, title: c.title, username: c.username, url: c.url, favorite: c.favorite }
}

fn clone_string(s: &String) -> (r: String)
    ensures
        r == s,
{
    s.clone()
}

fn clone_opt_string(s: &Option<String>) -> (r: Option<String>)
    ensures
        r == s,
{
    match s {
        Some(x) => Some(x.clone()),
        None => None,
    }
}

impl From<&Credential> for CredentialMeta {
    fn from(c: &Credential) -> (r: Self) {
        CredentialMeta {
            id: clone_string(&c.id),
            title: clone_string(&c.title),
            username: clone_string(&c.username),
            url: clone_opt_string(&c.url),
            favorite: c.favorite,
        }
    }
}

impl vstd::std_specs::convert::FromSpecImpl<&Credential> for CredentialMeta {
    open spec fn obeys_from_spec() -> bool {
        true
    }

    /// Id, title, username, URL and favourite flag, as is.
    open spec fn from_spec(c: &Credential) -> Self {
        meta_of(*c)
    }
}

/// Personal information.
#[derive(Debug, Clone)]
pub struct Identity {
    pub id: String,
    pub title: String,
    pub first_name: Option<String>,
    pub last_name: Option<String>,
    pub email: Option<String>,
    pub phone: Option<String>,
    pub address: Option<String>,
    pub created_at: i64,
    pub updated_at: i64,
}

impl Identity {
    pub fn new(title: String) -> (r: Self)
        ensures
            r.id@.len() == 36,
            r.title == title,
            r.first_name is None && r.last_name is None && r.email is None,
            r.phone is None && r.address is None,
            r.created_at == r.updated_at,
    {
        let now = now_secs();
        Identity {
            id: new_uuid_v4(),
            title,
            first_name: None,
            last_name: None,
            email: None,
            phone: None,
            address: None,
            created_at: now,
            updated_at: now,
        }
    }
}

/// A free-form text note.
#[derive(Debug, Clone)]
pub struct SecureNote {
    pub id: String,
    pub title: String,
    pub content: String,
    pub folder_id: Option<String>,
    pub created_at: i64,
    pub updated_at: i64,
}

impl SecureNote {
    pub fn new(title: String, content: String) -> (r: Self)
        ensures
            r.id@.len() == 36,
            r.title == title,
            r.content == content,
            r.folder_id is None,
            r.created_at == r.updated_at,
    {
        let now = now_secs();
        SecureNote { id: new_uuid_v4(), title, content, folder_id: None, created_at: now, updated_at: now }
    }
}

/// A container for other items; `parent_id` is `None` at the root.
#[derive(Debug, Clone)]
pub struct Folder {
    pub id: String,
    pub name: String,
    pub parent_id: Option<String>,
    pub created_at: i64,
    pub updated_at: i64,
}

impl Folder {
    pub fn new(name: String) -> (r: Self)
        ensures
            r.id@.len() == 36,
            r.name == name,
            r.parent_id is None,
            r.created_at == r.updated_at,
    {
        let now = now_secs();
        Folder { id: new_uuid_v4(), name, parent_id: None, created_at: now, updated_at: now }
    }
}

/// A TOTP secret with its settings.
#[derive(Debug, Clone)]
pub struct TotpSecret {
    pub id: String,
    pub credential_id: Option<String>,
    pub secret: String,
    pub algorithm: String,
    pub digits: u8,
    pub period: u64,
    pub issuer: Option<String>,
    pub created_at: i64,
    pub updated_at: i64,
}

impl TotpSecret {
    /// SHA1, six digits, thirty seconds.
    pub fn new(secret: String) -> (r: Self)
        ensures
            r.id@.len() == 36,
            r.credential_id is None,
            r.secret == secret,
            r.algorithm@ == "SHA1"@,
            r.digits == 6,
            r.period == 30,
            r.issuer is None,
            r.created_at == r.updated_at,
    {
        let now = now_secs();
        TotpSecret {
            id: new_uuid_v4(),
            credential_id: None,
            secret,
            algorithm: owned("SHA1"),
            digits: 6,
            period: 30,
            issuer: None,
            created_at: now,
            updated_at: now,
        }
    }
}

} // verus!
