use myki::{Credential, CredentialMeta, CredentialNew, Folder, Identity, SecureNote, TotpSecret};

#[test]
fn new_credential_defaults() {
    let c = Credential::new("GitHub".into(), "alice".into(), "s3cret".into());
    assert_eq!(c.id.len(), 36);
    assert_eq!(c.title, "GitHub");
    assert_eq!(c.username, "alice");
    assert_eq!(c.password, "s3cret");
    assert!(c.url.is_none() && c.notes.is_none() && c.folder_id.is_none());
    assert!(c.tags.is_empty());
    assert!(!c.favorite);
    assert_eq!(c.created_at, c.updated_at);
    assert!(c.created_at > 0);
    assert!(c.last_used_at.is_none());
    assert_eq!(c.use_count, 0);
    assert!(c.attachments.is_none());
}

#[test]
fn new_credentials_get_distinct_ids() {
    let a = Credential::new("a".into(), "u".into(), "p".into());
    let b = Credential::new("a".into(), "u".into(), "p".into());
    assert_ne!(a.id, b.id);
}

#[test]
fn new_full_sets_url_and_notes() {
    let c = Credential::new_full(
        "Bank".into(),
        "bob".into(),
        "pw".into(),
        Some("https://bank.example".into()),
        Some("note".into()),
    );
    assert_eq!(c.url.as_deref(), Some("https://bank.example"));
    assert_eq!(c.notes.as_deref(), Some("note"));
    assert_eq!(c.title, "Bank");
}

#[test]
fn credential_from_creation_request() {
    let req = CredentialNew {
        title: "T".into(),
        username: "U".into(),
        password: "P".into(),
        url: None,
        notes: Some("n".into()),
        folder_id: Some("f".into()),
        tags: None,
        favorite: None,
        attachments: None,
    };
    let c = Credential::from_new(req);
    assert!(c.tags.is_empty());
    assert!(!c.favorite);
    assert_eq!(c.folder_id.as_deref(), Some("f"));
    assert_eq!(c.notes.as_deref(), Some("n"));
    let req2 = CredentialNew {
        title: "T".into(),
        username: "U".into(),
        password: "P".into(),
        url: None,
        notes: None,
        folder_id: None,
        tags: Some(vec!["work".into()]),
        favorite: Some(true),
        attachments: Some(vec!["a".into()]),
    };
    let c2 = Credential::from_new(req2);
    assert_eq!(c2.tags, vec!["work".to_string()]);
    assert!(c2.favorite);
    assert_eq!(c2.attachments, Some(vec!["a".to_string()]));
}

#[test]
fn meta_keeps_public_fields() {
    let mut c = Credential::new("GitHub".into(), "alice".into(), "pw".into());
    c.url = Some("https://github.com".into());
    c.favorite = true;
    let m = CredentialMeta::from(&c);
    assert_eq!(m.id, c.id);
    assert_eq!(m.title, "GitHub");
    assert_eq!(m.username, "alice");
    assert_eq!(m.url.as_deref(), Some("https://github.com"));
    assert!(m.favorite);
}

#[test]
fn other_items_defaults() {
    let i = Identity::new("Me".into());
    assert_eq!(i.id.len(), 36);
    assert!(i.email.is_none() && i.first_name.is_none());
    let n = SecureNote::new("N".into(), "body".into());
    assert_eq!(n.content, "body");
    assert!(n.folder_id.is_none());
    let f = Folder::new("Work".into());
    assert_eq!(f.name, "Work");
    assert!(f.parent_id.is_none());
    let t = TotpSecret::new("JBSWY3DPEHPK3PXP".into());
    assert_eq!(t.algorithm, "SHA1");
    assert_eq!(t.digits, 6);
    assert_eq!(t.period, 30);
    assert!(t.issuer.is_none() && t.credential_id.is_none());
}
