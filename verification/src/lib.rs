//! Core of a local-first password manager: key derivation, authenticated
//! encryption of vault records, TOTP codes, and the pure logic of the
//! vault, extension, native-host and signaling front ends.

pub mod crypto;
pub mod kdf;
pub mod keys;
pub mod symmetric;
pub mod text;
pub mod totp;

pub use crypto::{decode_base64, encode_base64, CryptoError, EncryptedData};
pub use kdf::{derive_key, Argon2Config, KdfConfig};
pub use keys::{generate_salt, MacKey, MasterKey, VaultKey};
pub use symmetric::{AeadCipher, Aes256Gcm};
pub use totp::{Algorithm, Totp, TotpConfig, TotpError};
pub mod ffi;
pub use ffi::FfiError;
pub mod models;
pub mod vault;
pub use models::{Credential, CredentialMeta, CredentialNew, Folder, Identity, SecureNote, TotpSecret};
pub use vault::VaultError;
pub mod extension;
pub mod desktop;
pub mod native_host;
pub mod signaling;
