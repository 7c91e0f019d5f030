//! Key types: the 256-bit vault (encryption) key, the 256-bit MAC key, and the
//! master key that holds both, split from 64 bytes of derived material.

use vstd::prelude::*;
use rand::RngCore;

verus! {

/// 32-byte key for AES-256-GCM.
pub struct VaultKey([u8; 32]);

/// 32-byte key reserved for message authentication.
pub struct MacKey([u8; 32]);

impl View for VaultKey {
    type V = Seq<u8>;

    closed spec fn view(&self) -> Seq<u8> {
        self.0@
    }
}

impl View for MacKey {
    type V = Seq<u8>;

    closed spec fn view(&self) -> Seq<u8> {
        self.0@
    }
}

impl VaultKey {
    pub fn from_bytes(bytes: [u8; 32]) -> (r: Self)
        ensures
            r@ == bytes@,
    {
        VaultKey(bytes)
    }

    pub fn as_bytes(&self) -> (r: &[u8; 32])
        ensures
            r@ == self@,
            r@.len() == 32,
    {
        &self.0
    }
}

impl MacKey {
    pub fn from_bytes(bytes: [u8; 32]) -> (r: Self)
        ensures
            r@ == bytes@,
    {
        MacKey(bytes)
    }

    pub fn as_bytes(&self) -> (r: &[u8; 32])
        ensures
            r@ == self@,
            r@.len() == 32,
    {
        &self.0
    }
}

/// The root key: the first half of the derived material encrypts, the second
/// half authenticates.
pub struct MasterKey {
    pub vault_key: VaultKey,
    pub mac_key: MacKey,
}

/// Bytes `from..from + 32` of `source` as an array.
fn take_32(source: &[u8], from: usize) -> (r: [u8; 32])
    requires
        from + 32 <= source@.len(),
    ensures
        r@ == source@.subrange(from as int, from + 32),
{
    let sl = source.len();
    let mut out = [0u8; 32];
    let mut i: usize = 0;
    while i < 32
        invariant
            sl == source@.len(),
            i <= 32,
            from + 32 <= source@.len(),
            out@.len() == 32,
            forall|k: int| 0 <= k < i ==> out@[k] == source@[from + k],
        decreases 32 - i,
    {
        out[i] = source[from + i];
        i = i + 1;
    }
    assert(out@ =~= source@.subrange(from as int, from + 32));
    out
}

impl MasterKey {
    /// Splits 64 bytes of derived material: bytes 0..32 become the vault key,
    /// bytes 32..64 the MAC key.
    pub fn from_derived(derived: [u8; 64]) -> (r: Self)
        ensures
            r.vault_key@ == derived@.subrange(0, 32),
            r.mac_key@ == derived@.subrange(32, 64),
    {
        let vault_bytes = take_32(derived.as_slice(), 0);
        let mac_bytes = take_32(derived.as_slice(), 32);
        MasterKey {
            vault_key: VaultKey::from_bytes(vault_bytes),
            mac_key: MacKey::from_bytes(mac_bytes),
        }
    }
}

/// `n` bytes from the operating system's random number generator (`OsRng::fill_bytes`).
/// Only the length is stated: the bytes are random.
#[verifier::external_body]
pub(crate) fn os_random_bytes(n: usize) -> (r: Vec<u8>)
    ensures
        r@.len() == n,
{
    let mut v = vec![0u8; n];
    rand::rngs::OsRng.fill_bytes(&mut v);
    v
}

/// A fresh random 32-byte salt.
pub fn generate_salt() -> (r: [u8; 32]) {
    let bytes = os_random_bytes(32);
    take_32(bytes.as_slice(), 0)
}

/// A master key of random bytes, not derived from any password (for tests).
pub fn generate_random_key() -> (r: MasterKey) {
    let vault_bytes = os_random_bytes(32);
    let mac_bytes = os_random_bytes(32);
    MasterKey {
        vault_key: VaultKey::from_bytes(take_32(vault_bytes.as_slice(), 0)),
        mac_key: MacKey::from_bytes(take_32(mac_bytes.as_slice(), 0)),
    }
}

} // verus!
