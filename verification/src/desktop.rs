//! What the desktop application hands its front end: credential transfer
//! objects, and generated passwords.

use vstd::prelude::*;
use crate::models::{Credential, CredentialMeta};
use crate::text::string_from_chars;
use rand::Rng;

verus! {

/// A credential as the front end receives it.
#[derive(Debug, Clone)]
pub struct CredentialDto {
    pub id: String,
    pub title: String,
    pub username: String,
    pub password: String,
    pub url: Option<String>,
    pub notes: Option<String>,
    pub favorite: bool,
}

impl From<Credential> for CredentialDto {
    fn from(c: Credential) -> (r: Self) {
        CredentialDto {
            id: c.id,
            title: c.title,
            username: c.username,
            password: c.password,
            url: c.url,
            notes: c.notes,
            favorite: c.favorite,
        }
    }
}

impl vstd::std_specs::convert::FromSpecImpl<Credential> for CredentialDto {
    open spec fn obeys_from_spec() -> bool {
        true
    }

    /// Every field but the folder, tags, times, use count and attachments, as is.
    open spec fn from_spec(c: Credential) -> Self {
        CredentialDto {
            id: c.id,
            title: c.title,
            username: c.username,
            password: c.password,
            url: c.url,
            notes: c.notes,
            favorite: c.favorite,
        }
    }
}

/// The list view of a credential as the front end receives it.
#[derive(Debug, Clone)]
pub struct CredentialMetaDto {
    pub id: String,
    pub title: String,
    pub username: String,
    pub url: Option<String>,
    pub favorite: bool,
}

impl From<CredentialMeta> for CredentialMetaDto {
    fn from(m: CredentialMeta) -> (r: Self) {
        CredentialMetaDto { id: m.id, title: m.title, username: m.username, url: m.url, favorite: m.favorite }
    }
}

impl vstd::std_specs::convert::FromSpecImpl<CredentialMeta> for CredentialMetaDto {
    open spec fn obeys_from_spec() -> bool {
        true
    }

    open spec fn from_spec(m: CredentialMeta) -> Self {
        CredentialMetaDto { id: m.id, title: m.title, username: m.username, url: m.url, favorite: m.favorite }
    }
}

/// Letters, digits and `!@#$%^&*()`, in that order (72 characters).
pub open spec fn desktop_charset() -> Seq<char> {
    "abcdefghijklmnopqrstuvwxyzABCDEFGHIJKLMNOPQRSTUVWXYZ0123456789!@#$%^&*()"@
}

/// An index drawn uniformly from `0..n` (`rand::thread_rng().gen_range(0..n)`,
/// which panics on an empty range). Only the range is stated.
#[verifier::external_body]
fn random_below(n: usize) -> (r: usize)
    requires
        n > 0,
    ensures
        r < n,
{
    rand::thread_rng().gen_range(0..n)
}

/// The password the given indices into the charset spell.
pub fn password_from_indices(indices: &Vec<usize>) -> (r: String)
    requires
        forall|i: int| 0 <= i < indices@.len() ==> indices@[i] < 72,
    ensures
        r@ == Seq::new(indices@.len(), |i: int| desktop_charset()[indices@[i] as int]),
{
    let charset = crate::text::chars_of(
        "abcdefghijklmnopqrstuvwxyzABCDEFGHIJKLMNOPQRSTUVWXYZ0123456789!@#$%^&*()",
    );
    proof {
        reveal_strlit("abcdefghijklmnopqrstuvwxyzABCDEFGHIJKLMNOPQRSTUVWXYZ0123456789!@#$%^&*()");
    }
    assert(charset@.len() == 72);
    let mut out: Vec<char> = Vec::new();
    let mut i: usize = 0;
    while i < indices.len()
        invariant
            charset@ == desktop_charset(),
            charset@.len() == 72,
            forall|k: int| 0 <= k < indices@.len() ==> indices@[k] < 72,
            i <= indices@.len(),
            out@.len() == i,
            forall|k: int| 0 <= k < i ==> out@[k] == desktop_charset()[indices@[k] as int],
        decreases indices@.len() - i,
    {
        out.push(charset[indices[i]]);
        i = i + 1;
    }
    assert(out@ =~= Seq::new(indices@.len(), |i: int| desktop_charset()[indices@[i] as int]));
    string_from_chars(out.as_slice())
}

/// A password of `length` characters, each drawn uniformly from the charset.
pub fn generate_password(length: usize) -> (r: String)
    ensures
        r@.len() == length,
        forall|i: int| 0 <= i < r@.len() ==> desktop_charset().contains(#[trigger] r@[i]),
{
    let mut indices: Vec<usize> = Vec::new();
    let mut i: usize = 0;
    while i < length
        invariant
            i <= length,
            indices@.len() == i,
            forall|k: int| 0 <= k < indices@.len() ==> indices@[k] < 72,
        decreases length - i,
    {
        indices.push(random_below(72));
        i = i + 1;
    }
    let r = password_from_indices(&indices);
    assert forall|i: int| 0 <= i < r@.len() implies desktop_charset().contains(#[trigger] r@[i]) by {
        reveal_strlit("abcdefghijklmnopqrstuvwxyzABCDEFGHIJKLMNOPQRSTUVWXYZ0123456789!@#$%^&*()");
        assert(desktop_charset()[indices@[i] as int] == r@[i]);
    }
    r
}

} // verus!
