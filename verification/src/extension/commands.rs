//! Options of the extension's password generator.

use vstd::prelude::*;

verus! {

/// Length and character classes of a generated password.
#[derive(Debug, Clone, Copy)]
pub struct PasswordOptions {
    pub length: usize,
    pub include_uppercase: bool,
    pub include_lowercase: bool,
    pub include_numbers: bool,
    pub include_symbols: bool,
}

impl Default for PasswordOptions {
    /// Twenty characters, every class.
    fn default() -> (r: Self)
        ensures
            r.length == 20,
            r.include_uppercase && r.include_lowercase && r.include_numbers && r.include_symbols,
    {
        PasswordOptions {
            length: 20,
            include_uppercase: true,
            include_lowercase: true,
            include_numbers: true,
            include_symbols: true,
        }
    }
}

} // verus!
