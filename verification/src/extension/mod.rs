//! The browser-extension back end: its own key derivation and field-level
//! encryption, the credential rows it stores, and its command options.

pub mod commands;
pub mod crypto;
pub mod vault;
