//! Password-based key derivation with Argon2id (version 0x13).

use vstd::prelude::*;
use argon2::PasswordHasher;
use vstd::string::StringSliceAdditionalSpecFns;
use crate::crypto::CryptoError;
use crate::keys::MasterKey;
use crate::crypto::concat_strs;

verus! {

/// Argon2id parameters: memory in KiB, passes, lanes, output bytes.
#[derive(Debug, Clone)]
pub struct Argon2Config {
    pub memory: u32,
    pub iterations: u32,
    pub parallelism: u32,
    pub output_len: usize,
}

impl Default for Argon2Config {
    /// 64 MiB, three passes, four lanes, 64 bytes of output.
    fn default() -> (r: Self)
        ensures
            r.memory == 65536,
            r.iterations == 3,
            r.parallelism == 4,
            r.output_len == 64,
    {
        Argon2Config { memory: 65536, iterations: 3, parallelism: 4, output_len: 64 }
    }
}

/// Key-derivation settings (currently only Argon2).
pub struct KdfConfig(pub Argon2Config);

impl KdfConfig {
    pub fn new(config: Argon2Config) -> (r: Self)
        ensures
            r.0 == config,
    {
        KdfConfig(config)
    }
}

impl Default for KdfConfig {
    fn default() -> (r: Self)
        ensures
            r.0.memory == 65536,
            r.0.iterations == 3,
            r.0.parallelism == 4,
            r.0.output_len == 64,
    {
        KdfConfig(Argon2Config::default())
    }
}

/// The step of the Argon2 pipeline that refused its input, with the crate's message.
#[derive(Debug)]
pub enum Argon2Failure {
    Salt(String),
    Params(String),
    Hashing(String),
    NoOutput,
}

/// The hash bytes that Argon2id (v0x13), run through `PasswordHasher::hash_password`
/// with the salt encoded by `SaltString::encode_b64`, produces; `None` where one of
/// those steps reports an error.
pub uninterp spec fn argon2id_output(
    password: Seq<u8>,
    salt: Seq<u8>,
    memory: u32,
    iterations: u32,
    parallelism: u32,
    output_len: usize,
) -> Option<Seq<u8>>;

/// The checks of `argon2::Params::new`.
pub open spec fn argon2_params_valid(
    memory: u32,
    iterations: u32,
    parallelism: u32,
    output_len: usize,
) -> bool {
    &&& memory >= 8
    &&& memory >= parallelism * 8
    &&& iterations >= 1
    &&& 1 <= parallelism <= 0xFF_FFFF
    &&& 4 <= output_len <= 0xFFFF_FFFF
}

/// Inputs that every step accepts: valid parameters, an output that the
/// password-hash output type can hold (10 to 64 bytes), a salt that Argon2 accepts
/// and whose Base64 form fits the 64-character salt string (8 to 48 bytes), and a
/// password of at most `u32::MAX` bytes.
pub open spec fn argon2_inputs_accepted(
    password_len: nat,
    salt_len: nat,
    memory: u32,
    iterations: u32,
    parallelism: u32,
    output_len: usize,
) -> bool {
    &&& argon2_params_valid(memory, iterations, parallelism, output_len)
    &&& 10 <= output_len <= 64
    &&& 8 <= salt_len <= 48
    &&& password_len <= 0xFFFF_FFFF
}

/// Runs `SaltString::encode_b64`, `Params::new`, `Argon2::new(Argon2id, V0x13, ..)`
/// and `hash_password`. `Params::new` computes `parallelism * 8` after checking
/// `memory >= 8`, which overflows for large `parallelism`; the precondition keeps
/// out those inputs. A salt of fewer than three bytes encodes to fewer than four
/// characters, which the conversion of the salt string into a `Salt` rejects with a
/// panic; those salts are kept out too. Invalid parameters are refused, inputs that
/// every step accepts give a hash, a hash has exactly `output_len` bytes, and the
/// password-hash output type holds 10 to 64 bytes. The hash bytes themselves are
/// only named.
#[verifier::external_body]
fn argon2id_hash(password: &[u8], salt: &[u8], m: u32, t: u32, p: u32, len: usize) -> (r: Result<
    Vec<u8>,
    Argon2Failure,
>)
    requires
        m < 8 || p <= 0x1FFF_FFFF,
        salt@.len() >= 3,
    ensures
        argon2_inputs_accepted(password@.len(), salt@.len(), m, t, p, len) ==> r is Ok,
        r is Ok <==> argon2id_output(password@, salt@, m, t, p, len) is Some,
        r matches Ok(h) ==> argon2id_output(password@, salt@, m, t, p, len) == Some(h@),
        r matches Ok(h) ==> h@.len() == len && 10 <= len <= 64,
        !argon2_params_valid(m, t, p, len) ==> r is Err,
{
    let s = argon2::password_hash::SaltString::encode_b64(salt).map_err(|e| Argon2Failure::Salt(e.to_string()))?;
    let params = argon2::Params::new(m, t, p, Some(len)).map_err(|e| Argon2Failure::Params(e.to_string()))?;
    let a = argon2::Argon2::new(argon2::Algorithm::Argon2id, argon2::Version::V0x13, params);
    let hash = a.hash_password(password, &s).map_err(|e| Argon2Failure::Hashing(e.to_string()))?;
    Ok(hash.hash.ok_or(Argon2Failure::NoOutput)?.as_bytes().to_vec())
}

/// Copies the first 64 bytes of `h` into an array.
fn first_64(h: &Vec<u8>) -> (r: [u8; 64])
    requires
        h@.len() >= 64,
    ensures
        r@ == h@.subrange(0, 64),
{
    let mut out = [0u8; 64];
    let mut i: usize = 0;
    while i < 64
        invariant
            i <= 64,
            h@.len() >= 64,
            out@.len() == 64,
            forall|k: int| 0 <= k < i ==> out@[k] == h@[k],
        decreases 64 - i,
    {
        out[i] = h[i];
        i = i + 1;
    }
    assert(out@ =~= h@.subrange(0, 64));
    out
}

/// Derives the master key from a password and salt with Argon2id: the 64 output
/// bytes are split into the vault key (first half) and the MAC key (second half).
/// The original copies exactly 64 bytes out of the hash, which fails for an
/// output length from 10 to 63; those lengths are excluded. A salt shorter than
/// three bytes, which the Argon2 salt string cannot hold, is a `KeyDerivation`
/// error. With valid settings, a 64-byte output, a salt of 8 to 48 bytes and a
/// password of at most `u32::MAX` bytes, derivation succeeds.
pub fn derive_key(password: &str, salt: &[u8], config: &Argon2Config) -> (r: Result<
    MasterKey,
    CryptoError,
>)
    requires
        config.memory < 8 || config.parallelism <= 0x1FFF_FFFF,
        config.output_len < 10 || config.output_len >= 64,
    ensures
        argon2_inputs_accepted(
            password.spec_bytes().len(),
            salt@.len(),
            config.memory,
            config.iterations,
            config.parallelism,
            config.output_len,
        ) ==> r is Ok,
        salt@.len() < 3 ==> r matches Err(CryptoError::KeyDerivation(_)),
        salt@.len() >= 3 ==> match argon2id_output(
            password.spec_bytes(),
            salt@,
            config.memory,
            config.iterations,
            config.parallelism,
            config.output_len,
        ) {
            Some(h) => r matches Ok(k) && k.vault_key@ == h.subrange(0, 32) && k.mac_key@
                == h.subrange(32, 64),
            None => r matches Err(CryptoError::KeyDerivation(_)),
        },
        r matches Ok(k) ==> argon2id_output(
            password.spec_bytes(),
            salt@,
            config.memory,
            config.iterations,
            config.parallelism,
            config.output_len,
        ) matches Some(h) && config.output_len == 64 && h.len() == 64 && k.vault_key@ + k.mac_key@
            == h,
{
    if salt.len() < 3 {
        return Err(
            CryptoError::KeyDerivation(crate::text::owned("Salt encoding failed: salt is too short")),
        );
    }
    let hashed = argon2id_hash(
        password.as_bytes(),
        salt,
        config.memory,
        config.iterations,
        config.parallelism,
        config.output_len,
    );
    let hash_bytes = match hashed {
        Ok(h) => h,
        Err(Argon2Failure::Salt(m)) => {
            return Err(CryptoError::KeyDerivation(concat_strs("Salt encoding failed: ", m.as_str())));
        },
        Err(Argon2Failure::Params(m)) => {
            return Err(CryptoError::KeyDerivation(concat_strs("Invalid parameters: ", m.as_str())));
        },
        Err(Argon2Failure::Hashing(m)) => {
            return Err(CryptoError::KeyDerivation(concat_strs("Hashing failed: ", m.as_str())));
        },
        Err(Argon2Failure::NoOutput) => {
            return Err(CryptoError::KeyDerivation(crate::text::owned("No hash output produced")));
        },
    };
    let derived = first_64(&hash_bytes);
    let key = MasterKey::from_derived(derived);
    assert(derived@.subrange(0, 32) =~= hash_bytes@.subrange(0, 32));
    assert(derived@.subrange(32, 64) =~= hash_bytes@.subrange(32, 64));
    assert(key.vault_key@ + key.mac_key@ =~= hash_bytes@);
    Ok(key)
}

} // verus!
