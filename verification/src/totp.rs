//! Time-based one-time passwords (RFC 6238) on top of HOTP (RFC 4226).
//!
//! A code is computed from a Base32 secret and a Unix timestamp: the timestamp
//! is divided by the period to give a counter, the counter is encoded as eight
//! big-endian bytes and authenticated with HMAC under the decoded secret, and
//! dynamic truncation turns the tag into a zero-padded decimal code.

use vstd::prelude::*;
use hmac::Mac;
use crate::text::{
    chars_of, is_unicode_whitespace, is_whitespace, owned, string_from_chars, to_uppercase,
    uppercase_of,
};

verus! {

// ---------------------------------------------------------------------------
// Configuration and errors
// ---------------------------------------------------------------------------

/// Hash function used inside the HMAC.
#[derive(Debug, Clone, Copy, PartialEq, Eq, Structural)]
pub enum Algorithm {
    SHA1,
    SHA256,
    SHA512,
}

impl Default for Algorithm {
    fn default() -> (r: Self)
        ensures
            r == Algorithm::SHA1,
    {
        Algorithm::SHA1
    }
}

/// Algorithm, number of digits and period (in seconds) of the codes.
#[derive(Debug, Clone)]
pub struct TotpConfig {
    pub algorithm: Algorithm,
    pub digits: u8,
    pub period: u64,
}

impl Default for TotpConfig {
    /// SHA1, six digits, thirty seconds.
    fn default() -> (r: Self)
        ensures
            r.algorithm == Algorithm::SHA1,
            r.digits == 6,
            r.period == 30,
    {
        TotpConfig { algorithm: Algorithm::SHA1, digits: 6, period: 30 }
    }
}

/// Why no code could be produced.
#[derive(Debug)]
pub enum TotpError {
    /// The secret is not Base32.
    InvalidSecret(String),
    /// The HMAC or truncation step failed.
    Generation(String),
}

impl TotpError {
    /// The error as the user reads it (`Invalid secret: ...`, `Generation failed: ...`).
    pub fn message(&self) -> (r: String)
        ensures
            r@ == match self {
                TotpError::InvalidSecret(m) => "Invalid secret: "@ + m@,
                TotpError::Generation(m) => "Generation failed: "@ + m@,
            },
    {
        match self {
            TotpError::InvalidSecret(m) => crate::crypto::concat_strs("Invalid secret: ", m.as_str()),
            TotpError::Generation(m) => crate::crypto::concat_strs("Generation failed: ", m.as_str()),
        }
    }
}

/// Stateless generator; all inputs are arguments.
pub struct Totp;

// ---------------------------------------------------------------------------
// Mathematical model
// ---------------------------------------------------------------------------

pub open spec fn abs(x: int) -> int {
    if x < 0 {
        -x
    } else {
        x
    }
}

/// Integer division rounding toward zero, as Rust's `/` on signed integers does.
pub open spec fn trunc_div(a: int, b: int) -> int {
    let q = abs(a) / abs(b);
    if (a < 0) != (b < 0) {
        -q
    } else {
        q
    }
}

/// The moving factor: `(timestamp / (period as i64)) as u64`.
pub open spec fn totp_counter(timestamp: i64, period: u64) -> u64 {
    trunc_div(timestamp as int, (period as i64) as int) as u64
}

/// The division in `totp_counter` is defined (no division by zero, no overflow).
pub open spec fn counter_defined(timestamp: i64, period: u64) -> bool {
    &&& (period as i64) != 0
    &&& !(timestamp == i64::MIN && (period as i64) == -1)
}

/// The counter as eight bytes, most significant first.
pub open spec fn spec_counter_bytes(counter: u64) -> Seq<u8> {
    Seq::new(8, |i: int| ((counter >> ((7 - i) * 8) as u64) & 0xffu64) as u8)
}

/// Offset chosen by the low nibble of the last byte.
pub open spec fn truncation_offset(hash: Seq<u8>) -> int {
    (hash.last() & 0x0fu8) as int
}

/// The 31-bit big-endian number read at the truncation offset.
pub open spec fn truncated_value(hash: Seq<u8>) -> int {
    let o = truncation_offset(hash);
    (hash[o] & 0x7fu8) as int * 0x1000000 + hash[o + 1] as int * 0x10000 + hash[o + 2] as int
        * 0x100 + hash[o + 3] as int
}

pub open spec fn pow10(n: nat) -> nat
    decreases n,
{
    if n == 0 {
        1
    } else {
        10 * pow10((n - 1) as nat)
    }
}

/// The ASCII digit for `d` in `0..10`.
pub open spec fn digit_char(d: int) -> char {
    ((d + 48) as u8) as char
}

/// `n` written in decimal with exactly `width` digits (leading zeros); for
/// `width == 0` the only possible value is 0, written `"0"`.
pub open spec fn zero_padded(n: nat, width: nat) -> Seq<char> {
    if width == 0 {
        seq!['0']
    } else {
        Seq::new(width, |i: int| digit_char((n / pow10((width - 1 - i) as nat)) as int % 10))
    }
}

/// The code that dynamic truncation extracts from an HMAC tag.
pub open spec fn otp_code(hash: Seq<u8>, digits: nat) -> Seq<char> {
    zero_padded((truncated_value(hash) % pow10(digits) as int) as nat, digits)
}

/// What `hmac::Hmac<sha1::Sha1>` computes for a key and message.
pub uninterp spec fn hmac_sha1_tag(key: Seq<u8>, message: Seq<u8>) -> Seq<u8>;

/// What `hmac::Hmac<sha2::Sha256>` computes for a key and message.
pub uninterp spec fn hmac_sha256_tag(key: Seq<u8>, message: Seq<u8>) -> Seq<u8>;

/// What `hmac::Hmac<sha2::Sha512>` computes for a key and message.
pub uninterp spec fn hmac_sha512_tag(key: Seq<u8>, message: Seq<u8>) -> Seq<u8>;

pub open spec fn hmac_tag(algorithm: Algorithm, key: Seq<u8>, message: Seq<u8>) -> Seq<u8> {
    match algorithm {
        Algorithm::SHA1 => hmac_sha1_tag(key, message),
        Algorithm::SHA256 => hmac_sha256_tag(key, message),
        Algorithm::SHA512 => hmac_sha512_tag(key, message),
    }
}

/// HOTP value for a key and counter.
pub open spec fn hotp_code(algorithm: Algorithm, key: Seq<u8>, counter: u64, digits: nat) -> Seq<
    char,
> {
    otp_code(hmac_tag(algorithm, key, spec_counter_bytes(counter)), digits)
}

/// What `base32::decode(base32::Alphabet::Rfc4648 { padding }, data)` returns.
pub uninterp spec fn base32_decoded(padding: bool, data: Seq<char>) -> Option<Seq<u8>>;

/// Longest input (in characters) handed to the Base32 decoder: its length
/// arithmetic multiplies the byte length by five.
pub open spec fn base32_input_limit() -> int {
    (usize::MAX / 20) as int
}

/// Characters kept when a secret is normalised: no whitespace, no padding.
pub open spec fn kept_in_secret(c: char) -> bool {
    !is_unicode_whitespace(c) && c != '='
}

pub open spec fn strip_secret(s: Seq<char>) -> Seq<char>
    decreases s.len(),
{
    if s.len() == 0 {
        Seq::empty()
    } else {
        let rest = strip_secret(s.drop_last());
        if kept_in_secret(s.last()) {
            rest.push(s.last())
        } else {
            rest
        }
    }
}

/// Secret bytes: the upper-cased, stripped text decoded without padding, or else
/// the text as given decoded with padding.
pub open spec fn secret_bytes(secret: Seq<char>) -> Option<Seq<u8>> {
    let cleaned = strip_secret(uppercase_of(secret));
    let first = if cleaned.len() <= base32_input_limit() {
        base32_decoded(false, cleaned)
    } else {
        None
    };
    match first {
        Some(b) => Some(b),
        None => if secret.len() <= base32_input_limit() {
            base32_decoded(true, secret)
        } else {
            None
        },
    }
}

/// The code for a secret, configuration and time, or `None` when the secret is not Base32.
pub open spec fn totp_code(secret: Seq<char>, config: TotpConfig, timestamp: i64) -> Option<
    Seq<char>,
> {
    match secret_bytes(secret) {
        Some(key) => Some(
            hotp_code(
                config.algorithm,
                key,
                totp_counter(timestamp, config.period),
                config.digits as nat,
            ),
        ),
        None => None,
    }
}

/// Timestamp checked by `verify` for a given offset.
pub open spec fn window_time(now: i64, period: u64, offset: int) -> int {
    now as int + (period as i64) as int * offset
}

/// The timestamp at `offset` is an `i64` at which the counter is defined.
pub open spec fn window_point_ok(now: i64, period: u64, offset: int) -> bool {
    &&& i64::MIN <= (period as i64) as int * offset <= i64::MAX
    &&& i64::MIN <= window_time(now, period, offset) <= i64::MAX
    &&& counter_defined(window_time(now, period, offset) as i64, period)
}

/// Every timestamp in the verification window is an `i64` at which the counter is defined.
pub open spec fn window_fits(now: i64, period: u64, tolerance: u64) -> bool {
    let t = (tolerance as i64) as int;
    &&& (tolerance as i64) != i64::MIN
    &&& forall|offset: int| -t <= offset <= t ==> #[trigger] window_point_ok(now, period, offset)
}

/// Some timestamp of the window yields `code`.
pub open spec fn accepted_in_window(
    secret: Seq<char>,
    config: TotpConfig,
    code: Seq<char>,
    tolerance: u64,
    now: i64,
) -> bool {
    let t = (tolerance as i64) as int;
    exists|offset: int|
        -t <= offset <= t && totp_code(secret, config, window_time(now, config.period, offset) as i64)
            == Some(code)
}

// ---------------------------------------------------------------------------
// Outside calls
// ---------------------------------------------------------------------------

/// Calls `Hmac::<Sha1>::new_from_slice`, `update` and `finalize`. HMAC accepts keys
/// of every length (the key setup in `hmac` has no failing path), and the tag is
/// SHA-1's 20 bytes; the tag itself is only named.
#[verifier::external_body]
fn hmac_sha1(key: &[u8], message: &[u8]) -> (tag: Option<Vec<u8>>)
    ensures
        tag is Some,
        tag.unwrap()@ == hmac_sha1_tag(key@, message@),
        tag.unwrap()@.len() == 20,
{
    let mut mac = hmac::Hmac::<sha1::Sha1>::new_from_slice(key).ok()?;
    mac.update(message);
    Some(mac.finalize().into_bytes().to_vec())
}

/// Calls `Hmac::<Sha256>::new_from_slice`, `update` and `finalize`: never fails,
/// 32-byte tag, only named.
#[verifier::external_body]
fn hmac_sha256(key: &[u8], message: &[u8]) -> (tag: Option<Vec<u8>>)
    ensures
        tag is Some,
        tag.unwrap()@ == hmac_sha256_tag(key@, message@),
        tag.unwrap()@.len() == 32,
{
    let mut mac = hmac::Hmac::<sha2::Sha256>::new_from_slice(key).ok()?;
    mac.update(message);
    Some(mac.finalize().into_bytes().to_vec())
}

/// Calls `Hmac::<Sha512>::new_from_slice`, `update` and `finalize`: never fails,
/// 64-byte tag, only named.
#[verifier::external_body]
fn hmac_sha512(key: &[u8], message: &[u8]) -> (tag: Option<Vec<u8>>)
    ensures
        tag is Some,
        tag.unwrap()@ == hmac_sha512_tag(key@, message@),
        tag.unwrap()@.len() == 64,
{
    let mut mac = hmac::Hmac::<sha2::Sha512>::new_from_slice(key).ok()?;
    mac.update(message);
    Some(mac.finalize().into_bytes().to_vec())
}

/// Calls `base32::decode` with the RFC 4648 alphabet. The decoder multiplies the
/// byte length of its input by five, so the input is kept short enough for that
/// product to fit in `usize`; the result is only named.
#[verifier::external_body]
pub(crate) fn base32_decode(padding: bool, data: &[char]) -> (r: Option<Vec<u8>>)
    requires
        data@.len() <= base32_input_limit(),
    ensures
        r matches Some(b) ==> base32_decoded(padding, data@) == Some(b@),
        r is None ==> base32_decoded(padding, data@) is None,
{
    let text = String::from_iter(data.iter());
    base32::decode(base32::Alphabet::Rfc4648 { padding }, &text)
}

/// Seconds since the Unix epoch from `SystemTime::now()`, or `None` when the clock
/// reads earlier than the epoch. Nothing is stated about the value: it is the time.
#[verifier::external_body]
pub(crate) fn unix_time_secs() -> (r: Option<u64>) {
    match std::time::SystemTime::now().duration_since(std::time::UNIX_EPOCH) {
        Ok(d) => Some(d.as_secs()),
        Err(_) => None,
    }
}

// ---------------------------------------------------------------------------
// Helpers with exact contracts
// ---------------------------------------------------------------------------

fn pow10_u32(n: u8) -> (r: u32)
    requires
        n <= 9,
    ensures
        r as nat == pow10(n as nat),
{
    let mut r: u32 = 1;
    let mut i: u8 = 0;
    while i < n
        invariant
            i <= n <= 9,
            r as nat == pow10(i as nat),
        decreases n - i,
    {
        proof {
            lemma_pow10_small(i as nat);
        }
        r = r * 10;
        i = i + 1;
    }
    r
}

proof fn lemma_pow10_small(n: nat)
    requires
        n <= 8,
    ensures
        pow10(n) <= 100_000_000,
{
    reveal_with_fuel(pow10, 10);
    if n == 0 {
    } else if n == 1 {
    } else if n == 2 {
    } else if n == 3 {
    } else if n == 4 {
    } else if n == 5 {
    } else if n == 6 {
    } else if n == 7 {
    } else {
    }
}

proof fn lemma_pow10_positive(n: nat)
    ensures
        pow10(n) >= 1,
    decreases n,
{
    if n > 0 {
        lemma_pow10_positive((n - 1) as nat);
    }
}

/// Writes `n` with exactly `width` decimal digits.
fn zero_padded_digits(n: u32, width: u8) -> (r: Vec<char>)
    requires
        width <= 9,
        n < pow10(width as nat),
    ensures
        r@ == zero_padded(n as nat, width as nat),
{
    let mut out: Vec<char> = Vec::new();
    if width == 0 {
        out.push('0');
        assert(out@ =~= zero_padded(n as nat, width as nat));
        return out;
    }
    let mut p: u32 = pow10_u32(width - 1);
    let mut i: u8 = 0;
    while i < width
        invariant
            0 < width <= 9,
            i <= width,
            i < width ==> p as nat == pow10((width - 1 - i) as nat),
            out@.len() == i,
            forall|k: int|
                0 <= k < i ==> out@[k] == digit_char(
                    (n as nat / pow10((width - 1 - k) as nat)) as int % 10,
                ),
        decreases width - i,
    {
        proof {
            lemma_pow10_positive((width - 1 - i) as nat);
        }
        let d: u32 = (n / p) % 10;
        out.push(((d as u8) + 48) as char);
        proof {
            let k = (width - 1 - i) as nat;
            if k > 0 {
                assert(pow10(k) == 10 * pow10((k - 1) as nat));
                let q = pow10((k - 1) as nat);
                assert((10 * q) / 10 == q) by (nonlinear_arith);
            }
        }
        p = p / 10;
        i = i + 1;
    }
    assert(out@ =~= zero_padded(n as nat, width as nat));
    out
}

/// Absolute value of an `i128` that came from an `i64`.
fn abs_small(x: i128) -> (r: u128)
    requires
        i64::MIN <= x <= i64::MAX,
    ensures
        r as int == abs(x as int),
{
    if x < 0 {
        (0 - x) as u128
    } else {
        x as u128
    }
}

/// `(timestamp / (period as i64)) as u64`, computed without signed division.
fn counter_at(timestamp: i64, period: u64) -> (c: u64)
    requires
        counter_defined(timestamp, period),
    ensures
        c == totp_counter(timestamp, period),
{
    let p: i64 = period as i64;
    let a: i128 = timestamp as i128;
    let b: i128 = p as i128;
    let ua = abs_small(a);
    let ub = abs_small(b);
    let q: u128 = ua / ub;
    assert(ua / ub <= ua) by (nonlinear_arith)
        requires
            ub >= 1,
    ;
    proof {
        if q == 0x8000_0000_0000_0000 && !((a < 0) != (b < 0)) {
            if ub >= 2 {
                assert(ua / ub <= ua / 2) by (nonlinear_arith)
                    requires
                        ub >= 2,
                ;
                assert(false);
            }
            assert(ua == q);
            assert(false);
        }
    }
    let signed: i128 = if (a < 0) != (b < 0) {
        0 - (q as i128)
    } else {
        q as i128
    };
    let s64: i64 = signed as i64;
    s64 as u64
}

impl Totp {
    /// Generates the code for `secret` at `timestamp` (seconds since the epoch).
    pub fn generate(secret: &str, config: &TotpConfig, timestamp: i64) -> (r: Result<
        String,
        TotpError,
    >)
        requires
            config.digits <= 9,
            counter_defined(timestamp, config.period),
        ensures
            match totp_code(secret@, *config, timestamp) {
                Some(code) => r matches Ok(s) && s@ == code,
                None => r matches Err(TotpError::InvalidSecret(_)),
            },
    {
        let secret_bytes = Self::decode_base32(secret)?;
        let counter = counter_at(timestamp, config.period);
        let code = match config.algorithm {
            Algorithm::SHA1 => Self::hotp_sha1(&secret_bytes, counter, config.digits)?,
            Algorithm::SHA256 => Self::hotp_sha256(&secret_bytes, counter, config.digits)?,
            Algorithm::SHA512 => Self::hotp_sha512(&secret_bytes, counter, config.digits)?,
        };
        Ok(code)
    }

    /// Generates the code for the current system time. A secret that does not
    /// decode gives `InvalidSecret`; otherwise a clock that reads before the epoch,
    /// or a period that makes the counter division overflow, gives a `Generation`
    /// error.
    pub fn now(secret: &str, config: &TotpConfig) -> (r: Result<String, TotpError>)
        requires
            config.digits <= 9,
            config.period != 0,
        ensures
            r matches Ok(s) ==> exists|t: i64| totp_code(secret@, *config, t) == Some(s@),
            totp_code_never(secret@, *config) ==> r matches Err(TotpError::InvalidSecret(_)),
            !totp_code_never(secret@, *config) ==> (r is Ok || r matches Err(TotpError::Generation(_))),
    {
        Self::decode_base32(secret)?;
        let secs = match unix_time_secs() {
            Some(s) => s,
            None => {
                return Err(TotpError::Generation(owned("system clock is before the Unix epoch")));
            },
        };
        let timestamp: i64 = secs as i64;
        let period = config.period;
        assert(period != 0u64 ==> (period as i64) != 0i64) by (bit_vector);
        if timestamp == i64::MIN && (config.period as i64) == -1 {
            return Err(TotpError::Generation(owned("counter division overflows")));
        }
        Self::generate(secret, config, timestamp)
    }

    /// Seconds left in the period that contains `now`: `period - now % period`.
    pub fn remaining_seconds_at(config: &TotpConfig, now: u64) -> (r: u64)
        requires
            config.period != 0,
        ensures
            r == config.period - now % config.period,
            1 <= r <= config.period,
    {
        config.period - (now % config.period)
    }

    /// Seconds left in the current period, by the system clock (a clock before the
    /// epoch counts as the epoch).
    pub fn remaining_seconds(config: &TotpConfig) -> (r: u64)
        requires
            config.period != 0,
        ensures
            1 <= r <= config.period,
    {
        let now = match unix_time_secs() {
            Some(s) => s,
            None => 0,
        };
        Self::remaining_seconds_at(config, now)
    }

    /// Whether `code` is the code of some period within `tolerance` periods of `now`.
    pub fn verify_at(secret: &str, config: &TotpConfig, code: &str, tolerance: u64, now: i64) -> (r:
        bool)
        requires
            config.digits <= 9,
            window_fits(now, config.period, tolerance),
        ensures
            r == accepted_in_window(secret@, *config, code@, tolerance, now),
    {
        let t: i64 = tolerance as i64;
        let p: i64 = config.period as i64;
        if t < 0 {
            // The window -t..=t is empty.
            return false;
        }
        let mut offset: i64 = -t;
        loop
            invariant
                config.digits <= 9,
                window_fits(now, config.period, tolerance),
                t == tolerance as i64,
                t >= 0,
                p == config.period as i64,
                -t <= offset <= t,
                forall|o: int|
                    -t <= o < offset ==> totp_code(
                        secret@,
                        *config,
                        #[trigger] window_time(now, config.period, o) as i64,
                    ) != Some(code@),
            decreases t - offset,
        {
            assert(window_point_ok(now, config.period, offset as int));
            let ts: i64 = now + p * offset;
            match Self::generate(secret, config, ts) {
                Ok(generated) => {
                    let g = chars_of(generated.as_str());
                    let c = chars_of(code);
                    if chars_equal(&g, &c) {
                        return true;
                    }
                },
                Err(_) => {},
            }
            if offset == t {
                return false;
            }
            offset = offset + 1;
        }
    }

    /// Whether `code` is valid now, allowing `tolerance` periods of clock drift either
    /// way. A clock before the epoch, or a window that does not fit in `i64`, rejects.
    pub fn verify(secret: &str, config: &TotpConfig, code: &str, tolerance: u64) -> (r: bool)
        requires
            config.digits <= 9,
            config.period != 0,
        ensures
            r ==> exists|now: i64| accepted_in_window(secret@, *config, code@, tolerance, now),
    {
        let secs = match unix_time_secs() {
            Some(s) => s,
            None => {
                return false;
            },
        };
        let now: i64 = secs as i64;
        if !window_fits_exec(now, config.period, tolerance) {
            return false;
        }
        Self::verify_at(secret, config, code, tolerance, now)
    }

    /// HOTP with HMAC-SHA1.
    pub fn hotp_sha1(secret: &[u8], counter: u64, digits: u8) -> (r: Result<String, TotpError>)
        requires
            digits <= 9,
        ensures
            r matches Ok(s) && s@ == hotp_code(Algorithm::SHA1, secret@, counter, digits as nat),
    {
        let counter_bytes = Self::counter_bytes(counter);
        let tag = match hmac_sha1(secret, counter_bytes.as_slice()) {
            Some(t) => t,
            None => {
                return Err(TotpError::Generation(owned("HMAC key rejected")));
            },
        };
        Self::dynamic_truncate(tag.as_slice(), digits)
    }

    /// HOTP with HMAC-SHA256.
    pub fn hotp_sha256(secret: &[u8], counter: u64, digits: u8) -> (r: Result<String, TotpError>)
        requires
            digits <= 9,
        ensures
            r matches Ok(s) && s@ == hotp_code(Algorithm::SHA256, secret@, counter, digits as nat),
    {
        let counter_bytes = Self::counter_bytes(counter);
        let tag = match hmac_sha256(secret, counter_bytes.as_slice()) {
            Some(t) => t,
            None => {
                return Err(TotpError::Generation(owned("HMAC key rejected")));
            },
        };
        Self::dynamic_truncate(tag.as_slice(), digits)
    }

    /// HOTP with HMAC-SHA512.
    pub fn hotp_sha512(secret: &[u8], counter: u64, digits: u8) -> (r: Result<String, TotpError>)
        requires
            digits <= 9,
        ensures
            r matches Ok(s) && s@ == hotp_code(Algorithm::SHA512, secret@, counter, digits as nat),
    {
        let counter_bytes = Self::counter_bytes(counter);
        let tag = match hmac_sha512(secret, counter_bytes.as_slice()) {
            Some(t) => t,
            None => {
                return Err(TotpError::Generation(owned("HMAC key rejected")));
            },
        };
        Self::dynamic_truncate(tag.as_slice(), digits)
    }

    /// The counter as eight big-endian bytes.
    pub fn counter_bytes(counter: u64) -> (r: Vec<u8>)
        ensures
            r@ == spec_counter_bytes(counter),
    {
        let mut out: Vec<u8> = Vec::new();
        let mut i: u64 = 0;
        while i < 8
            invariant
                i <= 8,
                out@.len() == i,
                forall|k: int| 0 <= k < i ==> out@[k] == spec_counter_bytes(counter)[k],
            decreases 8 - i,
        {
            let shift: u64 = (7 - i) * 8;
            out.push(((counter >> shift) & 0xff) as u8);
            i = i + 1;
        }
        assert(out@ =~= spec_counter_bytes(counter));
        out
    }

    /// RFC 4226 dynamic truncation of an HMAC tag to `digits` decimal digits.
    pub fn dynamic_truncate(hash: &[u8], digits: u8) -> (r: Result<String, TotpError>)
        requires
            digits <= 9,
        ensures
            hash@.len() < 19 ==> r matches Err(TotpError::Generation(_)),
            hash@.len() >= 19 ==> (r matches Ok(s) && s@ == otp_code(hash@, digits as nat)),
    {
        if hash.len() < 19 {
            return Err(TotpError::Generation(owned("Hash too short for truncation")));
        }
        let last = hash[hash.len() - 1];
        let offset: usize = (last & 0x0f) as usize;
        assert(last & 0x0fu8 <= 15u8) by (bit_vector);
        let first = hash[offset];
        let b0 = first & 0x7f;
        assert(first & 0x7fu8 <= 127u8) by (bit_vector);
        let binary: u32 = (b0 as u32) * 0x1000000 + (hash[offset + 1] as u32) * 0x10000 + (hash[offset
            + 2] as u32) * 0x100 + (hash[offset + 3] as u32);
        let modulo = pow10_u32(digits);
        proof {
            lemma_pow10_positive(digits as nat);
        }
        let code: u32 = binary % modulo;
        let chars = zero_padded_digits(code, digits);
        Ok(string_from_chars(chars.as_slice()))
    }

    /// Decodes a Base32 secret: upper-cases it, drops whitespace and `=`, and decodes
    /// without padding; failing that, decodes the text as given with padding.
    pub fn decode_base32(input: &str) -> (r: Result<Vec<u8>, TotpError>)
        ensures
            match secret_bytes(input@) {
                Some(b) => r matches Ok(v) && v@ == b,
                None => r matches Err(TotpError::InvalidSecret(_)),
            },
    {
        let upper = to_uppercase(input);
        let cleaned = strip_secret_chars(&chars_of(upper.as_str()));
        if cleaned.len() <= usize::MAX / 20 {
            if let Some(bytes) = base32_decode(false, cleaned.as_slice()) {
                return Ok(bytes);
            }
        }
        let original = chars_of(input);
        if original.len() <= usize::MAX / 20 {
            if let Some(bytes) = base32_decode(true, original.as_slice()) {
                return Ok(bytes);
            }
        }
        Err(TotpError::InvalidSecret(owned("Invalid base32 encoding")))
    }
}


// ---------------------------------------------------------------------------
// Laws
// ---------------------------------------------------------------------------

/// A code is the same for every timestamp of one period window: two
/// non-negative timestamps with the same quotient by the period give the same
/// code (or both no code).
pub proof fn lemma_same_window_same_code(
    secret: Seq<char>,
    config: TotpConfig,
    t1: i64,
    t2: i64,
)
    requires
        0 <= t1,
        0 <= t2,
        1 <= config.period <= i64::MAX,
        t1 as int / config.period as int == t2 as int / config.period as int,
    ensures
        totp_code(secret, config, t1) == totp_code(secret, config, t2),
{
    assert((config.period as i64) as int == config.period as int);
    assert(totp_counter(t1, config.period) == totp_counter(t2, config.period));
}

pub open spec fn is_ascii_digit(c: char) -> bool {
    48 <= c as u32 <= 57
}

/// With one to nine digits, every code has exactly that many characters, each an
/// ASCII digit.
pub proof fn lemma_code_shape(secret: Seq<char>, config: TotpConfig, t: i64, code: Seq<char>)
    requires
        1 <= config.digits <= 9,
        totp_code(secret, config, t) == Some(code),
    ensures
        code.len() == config.digits,
        forall|i: int| 0 <= i < code.len() ==> is_ascii_digit(#[trigger] code[i]),
{
    assert forall|i: int| 0 <= i < code.len() implies is_ascii_digit(#[trigger] code[i]) by {
        let w = config.digits as nat;
        let key = secret_bytes(secret)->0;
        let hash = hmac_tag(config.algorithm, key, spec_counter_bytes(totp_counter(t, config.period)));
        let n = (truncated_value(hash) % pow10(w) as int) as nat;
        let d = (n / pow10((w - 1 - i) as nat)) as int % 10;
        assert(0 <= d < 10);
        assert(code[i] == digit_char(d));
        let b = (d + 48) as u8;
        assert(48 <= b <= 57);
        assert(b as char as u32 == b as u32);
    }
}

/// The code of the current period is accepted by verification at the same time,
/// for every tolerance that keeps the window in range.
pub proof fn lemma_verify_accepts_current(
    secret: Seq<char>,
    config: TotpConfig,
    tolerance: u64,
    now: i64,
    code: Seq<char>,
)
    requires
        totp_code(secret, config, now) == Some(code),
        0 <= (tolerance as i64),
    ensures
        accepted_in_window(secret, config, code, tolerance, now),
{
    assert(window_time(now, config.period, 0) == now as int);
    assert(window_time(now, config.period, 0) as i64 == now);
}

/// A code made at a time whose period is within `tolerance` periods of `now` is
/// accepted by verification at `now` (non-negative times, a window that fits).
pub proof fn lemma_verify_accepts_nearby(
    secret: Seq<char>,
    config: TotpConfig,
    tolerance: u64,
    now: i64,
    t0: i64,
    code: Seq<char>,
)
    requires
        totp_code(secret, config, t0) == Some(code),
        0 <= t0,
        0 <= now,
        1 <= config.period <= i64::MAX,
        window_fits(now, config.period, tolerance),
        abs(now as int / config.period as int - t0 as int / config.period as int) <= (
        tolerance as i64) as int,
    ensures
        accepted_in_window(secret, config, code, tolerance, now),
{
    let p = config.period as int;
    assert((config.period as i64) as int == p);
    let q0 = t0 as int / p;
    let qn = now as int / p;
    let r = now as int % p;
    let o = q0 - qn;
    vstd::arithmetic::div_mod::lemma_fundamental_div_mod(now as int, p);
    assert(0 <= r < p) by {
        vstd::arithmetic::div_mod::lemma_mod_bound(now as int, p);
    }
    assert(window_point_ok(now, config.period, o));
    let wt = window_time(now, config.period, o);
    assert(wt == q0 * p + r) by (nonlinear_arith)
        requires
            wt == now as int + p * o,
            o == q0 - qn,
            now as int == p * qn + r,
    ;
    vstd::arithmetic::div_mod::lemma_fundamental_div_mod_converse(wt, p, q0, r);
    assert(q0 >= 0) by {
        vstd::arithmetic::div_mod::lemma_div_pos_is_pos(t0 as int, p);
    }
    assert(wt >= 0) by (nonlinear_arith)
        requires
            wt == q0 * p + r,
            q0 >= 0,
            p >= 1,
            r >= 0,
    ;
    let t1 = wt as i64;
    assert(t1 as int == wt);
    lemma_same_window_same_code(secret, config, t0, t1);
    assert(-((tolerance as i64) as int) <= o <= (tolerance as i64) as int);
    assert(totp_code(secret, config, window_time(now, config.period, o) as i64) == Some(code));
}

/// Secrets that agree once upper-cased and stripped of whitespace and `=` decode to
/// the same bytes, whenever that normalised text is valid unpadded Base32.
pub proof fn lemma_secret_normalisation(s: Seq<char>, t: Seq<char>)
    requires
        strip_secret(uppercase_of(s)) == strip_secret(uppercase_of(t)),
        strip_secret(uppercase_of(s)).len() <= base32_input_limit(),
        base32_decoded(false, strip_secret(uppercase_of(s))) is Some,
    ensures
        secret_bytes(s) == secret_bytes(t),
        secret_bytes(s) == base32_decoded(false, strip_secret(uppercase_of(s))),
{
}

/// The counter bytes, read back as a big-endian number, give the counter.
pub open spec fn big_endian_value(b: Seq<u8>) -> int {
    b[0] as int * 0x100000000000000 + b[1] as int * 0x1000000000000 + b[2] as int * 0x10000000000
        + b[3] as int * 0x100000000 + b[4] as int * 0x1000000 + b[5] as int * 0x10000 + b[6] as int
        * 0x100 + b[7] as int
}

pub proof fn lemma_counter_bytes_big_endian(counter: u64)
    ensures
        spec_counter_bytes(counter).len() == 8,
        big_endian_value(spec_counter_bytes(counter)) == counter,
{
    let b = spec_counter_bytes(counter);
    let c = counter;
    assert(b[0] == ((c >> 56u64) & 0xffu64) as u8);
    assert(b[7] == ((c >> 0u64) & 0xffu64) as u8);
    assert(((c >> 56u64) & 0xffu64) as u8 as u64 == (c >> 56u64) & 0xffu64) by (bit_vector);
    assert(((c >> 48u64) & 0xffu64) as u8 as u64 == (c >> 48u64) & 0xffu64) by (bit_vector);
    assert(((c >> 40u64) & 0xffu64) as u8 as u64 == (c >> 40u64) & 0xffu64) by (bit_vector);
    assert(((c >> 32u64) & 0xffu64) as u8 as u64 == (c >> 32u64) & 0xffu64) by (bit_vector);
    assert(((c >> 24u64) & 0xffu64) as u8 as u64 == (c >> 24u64) & 0xffu64) by (bit_vector);
    assert(((c >> 16u64) & 0xffu64) as u8 as u64 == (c >> 16u64) & 0xffu64) by (bit_vector);
    assert(((c >> 8u64) & 0xffu64) as u8 as u64 == (c >> 8u64) & 0xffu64) by (bit_vector);
    assert(((c >> 0u64) & 0xffu64) as u8 as u64 == (c >> 0u64) & 0xffu64) by (bit_vector);
    assert(((c >> 56u64) & 0xffu64) * 0x100000000000000 + ((c >> 48u64) & 0xffu64) * 0x1000000000000
        + ((c >> 40u64) & 0xffu64) * 0x10000000000 + ((c >> 32u64) & 0xffu64) * 0x100000000 + ((c
        >> 24u64) & 0xffu64) * 0x1000000 + ((c >> 16u64) & 0xffu64) * 0x10000 + ((c >> 8u64)
        & 0xffu64) * 0x100 + ((c >> 0u64) & 0xffu64) == c) by (bit_vector);
}

/// No timestamp gives a code (the secret is not Base32).
pub open spec fn totp_code_never(secret: Seq<char>, config: TotpConfig) -> bool {
    secret_bytes(secret) is None
}

/// Equality of two character sequences.
fn chars_equal(a: &Vec<char>, b: &Vec<char>) -> (r: bool)
    ensures
        r == (a@ == b@),
{
    if a.len() != b.len() {
        return false;
    }
    let mut i: usize = 0;
    while i < a.len()
        invariant
            a@.len() == b@.len(),
            i <= a@.len(),
            forall|k: int| 0 <= k < i ==> a@[k] == b@[k],
        decreases a@.len() - i,
    {
        if a[i] != b[i] {
            return false;
        }
        i = i + 1;
    }
    assert(a@ =~= b@);
    true
}

/// Drops whitespace and `=` from a secret.
pub fn strip_secret_chars(s: &Vec<char>) -> (r: Vec<char>)
    ensures
        r@ == strip_secret(s@),
{
    let mut out: Vec<char> = Vec::new();
    let mut i: usize = 0;
    while i < s.len()
        invariant
            i <= s@.len(),
            out@ == strip_secret(s@.take(i as int)),
        decreases s@.len() - i,
    {
        let c = s[i];
        assert(s@.take(i + 1).drop_last() =~= s@.take(i as int));
        if !is_whitespace(c) && c != '=' {
            out.push(c);
        }
        i = i + 1;
    }
    assert(s@.take(s@.len() as int) =~= s@);
    out
}

/// Decides `window_fits` by checking the two ends of the window (the timestamps
/// are monotone in the offset).
fn window_fits_exec(now: i64, period: u64, tolerance: u64) -> (r: bool)
    ensures
        r == window_fits(now, period, tolerance),
{
    let t: i64 = tolerance as i64;
    if t == i64::MIN {
        return false;
    }
    let p: i128 = (period as i64) as i128;
    let tt: i128 = t as i128;
    let n: i128 = now as i128;
    if tt < 0 {
        // Empty window.
        return true;
    }
    // |p| <= 2^63 and tt < 2^63, so p * tt fits in i128.
    assert(-0x8000_0000_0000_0000 <= p <= 0x7fff_ffff_ffff_ffff);
    assert(0 <= tt <= 0x7fff_ffff_ffff_ffff);
    assert(-0x4000_0000_0000_0000_0000_0000_0000_0000 <= p * tt
        <= 0x4000_0000_0000_0000_0000_0000_0000_0000) by (nonlinear_arith)
        requires
            -0x8000_0000_0000_0000 <= p <= 0x7fff_ffff_ffff_ffff,
            0 <= tt <= 0x7fff_ffff_ffff_ffff,
    ;
    let span: i128 = p * tt;
    let mag: i128 = if span < 0 { 0 - span } else { span };
    // The offset whose timestamp is the low end of the window, and the one whose
    // timestamp is the high end.
    let ghost low_end: int = if span < 0 { tt as int } else { -(tt as int) };
    let ghost high_end: int = -low_end;
    proof {
        assert(tt == (tolerance as i64) as int);
        assert(p == (period as i64) as int);
        assert(p * low_end == -mag) by (nonlinear_arith)
            requires
                span == p * tt,
                mag == (if span < 0 { -span } else { span as int }),
                low_end == (if span < 0 { tt as int } else { -(tt as int) }),
        ;
        assert(p * high_end == mag) by (nonlinear_arith)
            requires
                p * low_end == -mag,
                high_end == -low_end,
        ;
    }
    if mag > 0x7fff_ffff_ffff_ffff {
        proof {
            assert(!window_point_ok(now, period, high_end));
        }
        return false;
    }
    let lo: i128 = n - mag;
    let hi: i128 = n + mag;
    if lo < -0x8000_0000_0000_0000 || hi > 0x7fff_ffff_ffff_ffff {
        proof {
            assert(window_time(now, period, low_end) == lo);
            assert(window_time(now, period, high_end) == hi);
            if lo < -0x8000_0000_0000_0000 {
                assert(!window_point_ok(now, period, low_end));
            } else {
                assert(!window_point_ok(now, period, high_end));
            }
        }
        return false;
    }
    if p == -1 && lo == -0x8000_0000_0000_0000 {
        proof {
            assert(window_time(now, period, low_end) == lo);
            assert(!counter_defined(window_time(now, period, low_end) as i64, period));
            assert(!window_point_ok(now, period, low_end));
        }
        return false;
    }
    if p == 0 {
        proof {
            assert(!window_point_ok(now, period, 0));
        }
        return false;
    }
    proof {
        assert forall|offset: int|
            -((tolerance as i64) as int) <= offset <= (tolerance as i64) as int implies #[trigger] window_point_ok(now, period, offset) by {
            lemma_window_product(p as int, tt as int, offset);
            assert(abs(p * tt) == mag);
        }
        assert(tt == (tolerance as i64) as int);
        assert((tolerance as i64) != i64::MIN);
        assert(window_fits(now, period, tolerance));
    }
    true
}

proof fn lemma_window_product(p: int, t: int, offset: int)
    requires
        t >= 0,
        -t <= offset <= t,
    ensures
        abs(p * offset) <= abs(p * t),
{
    if p >= 0 {
        if offset >= 0 {
            assert(p * offset <= p * t) by (nonlinear_arith)
                requires
                    p >= 0,
                    0 <= offset <= t,
            ;
            assert(p * offset >= 0) by (nonlinear_arith)
                requires
                    p >= 0,
                    offset >= 0,
            ;
        } else {
            assert(-(p * offset) <= p * t) by (nonlinear_arith)
                requires
                    p >= 0,
                    -t <= offset < 0,
            ;
            assert(p * offset <= 0) by (nonlinear_arith)
                requires
                    p >= 0,
                    offset < 0,
            ;
        }
        assert(p * t >= 0) by (nonlinear_arith)
            requires
                p >= 0,
                t >= 0,
        ;
    } else {
        if offset >= 0 {
            assert(-(p * offset) <= -(p * t)) by (nonlinear_arith)
                requires
                    p < 0,
                    0 <= offset <= t,
            ;
            assert(p * offset <= 0) by (nonlinear_arith)
                requires
                    p < 0,
                    offset >= 0,
            ;
        } else {
            assert(p * offset <= -(p * t)) by (nonlinear_arith)
                requires
                    p < 0,
                    -t <= offset < 0,
            ;
            assert(p * offset > 0) by (nonlinear_arith)
                requires
                    p < 0,
                    offset < 0,
            ;
        }
        assert(p * t <= 0) by (nonlinear_arith)
            requires
                p < 0,
                t >= 0,
        ;
    }
}

} // verus!
