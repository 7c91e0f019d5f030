use myki::desktop::{generate_password, password_from_indices, CredentialDto, CredentialMetaDto};
use myki::{Credential, CredentialMeta};

const CHARSET: &str = "abcdefghijklmnopqrstuvwxyzABCDEFGHIJKLMNOPQRSTUVWXYZ0123456789!@#$%^&*()";

#[test]
fn dto_conversions_copy_fields() {
    let mut c = Credential::new("T".into(), "U".into(), "P".into());
    c.url = Some("https://x.example".into());
    c.notes = Some("n".into());
    c.favorite = true;
    let id = c.id.clone();
    let meta = CredentialMeta::from(&c);
    let dto = CredentialDto::from(c);
    assert_eq!(dto.id, id);
    assert_eq!(dto.password, "P");
    assert_eq!(dto.notes.as_deref(), Some("n"));
    assert!(dto.favorite);
    let mdto = CredentialMetaDto::from(meta);
    assert_eq!(mdto.id, id);
    assert_eq!(mdto.url.as_deref(), Some("https://x.example"));
    assert!(mdto.favorite);
}

#[test]
fn passwords_come_from_the_charset() {
    let p = generate_password(32);
    assert_eq!(p.chars().count(), 32);
    assert!(p.chars().all(|c| CHARSET.contains(c)));
    assert_eq!(generate_password(0), "");
}

#[test]
fn indices_spell_the_password() {
    assert_eq!(password_from_indices(&vec![0, 26, 52, 71]), "aA0)");
}
