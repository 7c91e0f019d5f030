//! Errors, encrypted records and Base64 framing shared by the cryptographic code.
//!
//! An encrypted record is a 12-byte nonce and the AES-GCM ciphertext (tag
//! included); its text form is `base64(nonce) ':' base64(ciphertext)`.

use vstd::prelude::*;
use crate::text::{chars_of, string_from_chars};
use base64::Engine as _;

verus! {

/// What went wrong in a cryptographic operation; the text says why.
#[derive(Debug)]
pub enum CryptoError {
    KeyDerivation(String),
    Encryption(String),
    Decryption(String),
    InvalidKey(String),
    RandomError(String),
}

impl CryptoError {
    /// The error as the user reads it (`"Key derivation failed: ..."` and so on).
    pub fn message(&self) -> (r: String)
        ensures
            r@ == match self {
                CryptoError::KeyDerivation(m) => "Key derivation failed: "@ + m@,
                CryptoError::Encryption(m) => "Encryption failed: "@ + m@,
                CryptoError::Decryption(m) => "Decryption failed: "@ + m@,
                CryptoError::InvalidKey(m) => "Invalid key: "@ + m@,
                CryptoError::RandomError(m) => "Random number generation failed: "@ + m@,
            },
    {
        match self {
            CryptoError::KeyDerivation(m) => concat_strs("Key derivation failed: ", m.as_str()),
            CryptoError::Encryption(m) => concat_strs("Encryption failed: ", m.as_str()),
            CryptoError::Decryption(m) => concat_strs("Decryption failed: ", m.as_str()),
            CryptoError::InvalidKey(m) => concat_strs("Invalid key: ", m.as_str()),
            CryptoError::RandomError(m) => concat_strs(
                "Random number generation failed: ",
                m.as_str(),
            ),
        }
    }

    /// The error in `Debug` form, such as `Decryption("...")`.
    pub fn debug_text(&self) -> (r: String)
        ensures
            r@ == match self {
                CryptoError::KeyDerivation(m) => "KeyDerivation("@ + crate::text::debug_quoted(m@) + ")"@,
                CryptoError::Encryption(m) => "Encryption("@ + crate::text::debug_quoted(m@) + ")"@,
                CryptoError::Decryption(m) => "Decryption("@ + crate::text::debug_quoted(m@) + ")"@,
                CryptoError::InvalidKey(m) => "InvalidKey("@ + crate::text::debug_quoted(m@) + ")"@,
                CryptoError::RandomError(m) => "RandomError("@ + crate::text::debug_quoted(m@) + ")"@,
            },
    {
        let (name, m) = match self {
            CryptoError::KeyDerivation(m) => ("KeyDerivation(", m),
            CryptoError::Encryption(m) => ("Encryption(", m),
            CryptoError::Decryption(m) => ("Decryption(", m),
            CryptoError::InvalidKey(m) => ("InvalidKey(", m),
            CryptoError::RandomError(m) => ("RandomError(", m),
        };
        let quoted = crate::text::debug_string(m.as_str());
        let head = concat_strs(name, quoted.as_str());
        concat_strs(head.as_str(), ")")
    }
}

/// A nonce and the ciphertext (with its authentication tag) it was produced with.
#[derive(Debug, Clone)]
pub struct EncryptedData {
    pub nonce: Vec<u8>,
    pub ciphertext: Vec<u8>,
}

// ---------------------------------------------------------------------------
// Base64 (standard alphabet, padded)
// ---------------------------------------------------------------------------

/// What `base64::engine::general_purpose::STANDARD.encode` produces for some bytes.
pub uninterp spec fn base64_encoded(data: Seq<u8>) -> Seq<char>;

/// What `base64::engine::general_purpose::STANDARD.decode` produces for some text:
/// `None` where it reports an error.
pub uninterp spec fn base64_decoded(text: Seq<char>) -> Option<Seq<u8>>;

/// Calls `STANDARD.encode`. The output uses the alphabet `A-Z a-z 0-9 + /` and `=`
/// padding, so it holds no `':'`, and `STANDARD.decode` gives the input back.
/// The text itself is only named.
#[verifier::external_body]
pub(crate) fn b64_encode(data: &[u8]) -> (r: String)
    ensures
        r@ == base64_encoded(data@),
        forall|i: int| 0 <= i < r@.len() ==> r@[i] != ':',
        base64_decoded(r@) == Some(data@),
{
    base64::engine::general_purpose::STANDARD.encode(data)
}

/// Calls `STANDARD.decode`; an error comes back as its message.
#[verifier::external_body]
pub(crate) fn b64_decode(text: &str) -> (r: Result<Vec<u8>, String>)
    ensures
        r is Ok <==> base64_decoded(text@) is Some,
        r matches Ok(b) ==> base64_decoded(text@) == Some(b@),
{
    base64::engine::general_purpose::STANDARD.decode(text).map_err(|e| e.to_string())
}

/// Encodes bytes as padded standard Base64.
pub fn encode_base64(data: &[u8]) -> (r: String)
    ensures
        r@ == base64_encoded(data@),
        base64_decoded(r@) == Some(data@),
{
    b64_encode(data)
}

/// Decodes padded standard Base64; a malformed input gives a `Decryption` error
/// carrying the decoder's message.
pub fn decode_base64(encoded: &str) -> (r: Result<Vec<u8>, CryptoError>)
    ensures
        match base64_decoded(encoded@) {
            Some(b) => r matches Ok(v) && v@ == b,
            None => r matches Err(CryptoError::Decryption(_)),
        },
{
    match b64_decode(encoded) {
        Ok(b) => Ok(b),
        Err(m) => Err(CryptoError::Decryption(m)),
    }
}

/// `a` followed by `b`.
pub fn concat_strs(a: &str, b: &str) -> (r: String)
    ensures
        r@ == a@ + b@,
{
    let mut v = chars_of(a);
    let w = chars_of(b);
    let mut i: usize = 0;
    while i < w.len()
        invariant
            i <= w@.len(),
            v@ == a@ + w@.take(i as int),
            w@ == b@,
        decreases w@.len() - i,
    {
        v.push(w[i]);
        i = i + 1;
        assert(v@ =~= a@ + w@.take(i as int));
    }
    assert(w@.take(w@.len() as int) =~= w@);
    string_from_chars(v.as_slice())
}

// ---------------------------------------------------------------------------
// The `nonce:ciphertext` text form
// ---------------------------------------------------------------------------

pub open spec fn count_colons(s: Seq<char>) -> nat
    decreases s.len(),
{
    if s.len() == 0 {
        0
    } else {
        count_colons(s.drop_last()) + if s.last() == ':' {
            1nat
        } else {
            0nat
        }
    }
}

/// Index of the first `':'`, if any.
pub open spec fn first_colon(s: Seq<char>) -> Option<int>
    decreases s.len(),
{
    if s.len() == 0 {
        None
    } else {
        match first_colon(s.drop_last()) {
            Some(i) => Some(i),
            None => if s.last() == ':' {
                Some(s.len() - 1)
            } else {
                None
            },
        }
    }
}

/// The text before and after the colon, when there is exactly one.
pub open spec fn encoded_parts(s: Seq<char>) -> Option<(Seq<char>, Seq<char>)> {
    if count_colons(s) == 1 && first_colon(s) is Some {
        let i = first_colon(s)->0;
        Some((s.take(i), s.skip(i + 1)))
    } else {
        None
    }
}

/// Nonce and ciphertext that a text form stands for.
pub open spec fn parsed_encrypted(s: Seq<char>) -> Option<(Seq<u8>, Seq<u8>)> {
    match encoded_parts(s) {
        Some(parts) => match (base64_decoded(parts.0), base64_decoded(parts.1)) {
            (Some(n), Some(c)) => Some((n, c)),
            _ => None,
        },
        None => None,
    }
}

pub open spec fn colon_free(s: Seq<char>) -> bool {
    forall|i: int| 0 <= i < s.len() ==> s[i] != ':'
}

proof fn lemma_count_concat(a: Seq<char>, b: Seq<char>)
    ensures
        count_colons(a + b) == count_colons(a) + count_colons(b),
    decreases b.len(),
{
    if b.len() == 0 {
        assert(a + b =~= a);
    } else {
        assert((a + b).drop_last() =~= a + b.drop_last());
        lemma_count_concat(a, b.drop_last());
    }
}

proof fn lemma_colon_free(s: Seq<char>)
    requires
        colon_free(s),
    ensures
        count_colons(s) == 0,
        first_colon(s) is None,
    decreases s.len(),
{
    if s.len() > 0 {
        lemma_colon_free(s.drop_last());
    }
}

proof fn lemma_first_colon_concat(a: Seq<char>, b: Seq<char>)
    requires
        first_colon(a) is None,
    ensures
        first_colon(a + b) == match first_colon(b) {
            Some(i) => Some(i + a.len()),
            None => None::<int>,
        },
    decreases b.len(),
{
    if b.len() == 0 {
        assert(a + b =~= a);
    } else {
        assert((a + b).drop_last() =~= a + b.drop_last());
        lemma_first_colon_concat(a, b.drop_last());
    }
}

/// The text form of a record parses back to the same nonce and ciphertext.
pub proof fn lemma_text_form_parses(n: Seq<u8>, c: Seq<u8>)
    requires
        colon_free(base64_encoded(n)),
        colon_free(base64_encoded(c)),
        base64_decoded(base64_encoded(n)) == Some(n),
        base64_decoded(base64_encoded(c)) == Some(c),
    ensures
        parsed_encrypted(base64_encoded(n) + seq![':'] + base64_encoded(c)) == Some((n, c)),
{
    let a = base64_encoded(n);
    let b = base64_encoded(c);
    let s = a + seq![':'] + b;
    lemma_colon_free(a);
    lemma_colon_free(b);
    lemma_count_concat(a + seq![':'], b);
    lemma_count_concat(a, seq![':']);
    let one = seq![':'];
    assert(one.len() == 1 && one.last() == ':');
    assert(one.drop_last() =~= Seq::<char>::empty());
    assert(count_colons(Seq::<char>::empty()) == 0);
    assert(first_colon(Seq::<char>::empty()) is None);
    assert(count_colons(one) == 1);
    assert(first_colon(one) == Some(0int));
    lemma_first_colon_concat(a, seq![':']);
    assert(first_colon(a + seq![':']) == Some(a.len() as int));
    // the first colon of s is the one after a
    lemma_first_colon_prefix(a + seq![':'], b);
    assert(s.take(a.len() as int) =~= a);
    assert(s.skip(a.len() as int + 1) =~= b);
}

proof fn lemma_first_colon_prefix(a: Seq<char>, b: Seq<char>)
    requires
        first_colon(a) is Some,
    ensures
        first_colon(a + b) == first_colon(a),
    decreases b.len(),
{
    if b.len() == 0 {
        assert(a + b =~= a);
    } else {
        assert((a + b).drop_last() =~= a + b.drop_last());
        lemma_first_colon_prefix(a, b.drop_last());
    }
}

/// Characters `from..to` of `v`.
fn slice_chars(v: &Vec<char>, from: usize, to: usize) -> (r: Vec<char>)
    requires
        from <= to <= v@.len(),
    ensures
        r@ == v@.subrange(from as int, to as int),
{
    let mut out: Vec<char> = Vec::new();
    let mut i: usize = from;
    while i < to
        invariant
            from <= i <= to <= v@.len(),
            out@ == v@.subrange(from as int, i as int),
        decreases to - i,
    {
        out.push(v[i]);
        i = i + 1;
        assert(out@ =~= v@.subrange(from as int, i as int));
    }
    out
}

impl EncryptedData {
    pub fn new(nonce: Vec<u8>, ciphertext: Vec<u8>) -> (r: Self)
        ensures
            r.nonce == nonce,
            r.ciphertext == ciphertext,
    {
        EncryptedData { nonce, ciphertext }
    }

    /// `base64(nonce) ':' base64(ciphertext)`; `from_base64` reads it back.
    pub fn to_base64(&self) -> (r: String)
        ensures
            r@ == base64_encoded(self.nonce@) + seq![':'] + base64_encoded(self.ciphertext@),
            parsed_encrypted(r@) == Some((self.nonce@, self.ciphertext@)),
    {
        let nonce_b64 = b64_encode(self.nonce.as_slice());
        let ciphertext_b64 = b64_encode(self.ciphertext.as_slice());
        let mut v = chars_of(nonce_b64.as_str());
        v.push(':');
        let w = chars_of(ciphertext_b64.as_str());
        let mut i: usize = 0;
        let ghost head = v@;
        while i < w.len()
            invariant
                i <= w@.len(),
                v@ == head + w@.take(i as int),
            decreases w@.len() - i,
        {
            v.push(w[i]);
            i = i + 1;
            assert(v@ =~= head + w@.take(i as int));
        }
        assert(w@.take(w@.len() as int) =~= w@);
        proof {
            lemma_text_form_parses(self.nonce@, self.ciphertext@);
        }
        string_from_chars(v.as_slice())
    }

    /// Parses `base64(nonce) ':' base64(ciphertext)`. Anything but exactly one colon,
    /// or a part that is not Base64, gives a `Decryption` error.
    pub fn from_base64(encoded: &str) -> (r: Result<Self, CryptoError>)
        ensures
            match parsed_encrypted(encoded@) {
                Some(p) => r matches Ok(d) && d.nonce@ == p.0 && d.ciphertext@ == p.1,
                None => r matches Err(CryptoError::Decryption(_)),
            },
    {
        let chars = chars_of(encoded);
        let mut count: usize = 0;
        let mut first: usize = 0;
        let mut i: usize = 0;
        while i < chars.len()
            invariant
                i <= chars@.len(),
                count <= i,
                count == count_colons(chars@.take(i as int)),
                count > 0 ==> first < i,
                count > 0 ==> first_colon(chars@.take(i as int)) == Some(first as int),
                count == 0 ==> first_colon(chars@.take(i as int)) is None,
            decreases chars@.len() - i,
        {
            assert(chars@.take(i + 1).drop_last() =~= chars@.take(i as int));
            if chars[i] == ':' {
                if count == 0 {
                    first = i;
                }
                count = count + 1;
            }
            i = i + 1;
        }
        assert(chars@.take(chars@.len() as int) =~= chars@);
        if count != 1 {
            return Err(
                CryptoError::Decryption(
                    crate::text::owned("Invalid format: expected 'nonce:ciphertext'"),
                ),
            );
        }
        let head = slice_chars(&chars, 0, first);
        let tail = slice_chars(&chars, first + 1, chars.len());
        assert(head@ =~= chars@.take(first as int));
        assert(tail@ =~= chars@.skip(first + 1));
        let head_text = string_from_chars(head.as_slice());
        let tail_text = string_from_chars(tail.as_slice());
        let nonce = match b64_decode(head_text.as_str()) {
            Ok(b) => b,
            Err(m) => {
                return Err(
                    CryptoError::Decryption(concat_strs("Invalid nonce base64: ", m.as_str())),
                );
            },
        };
        let ciphertext = match b64_decode(tail_text.as_str()) {
            Ok(b) => b,
            Err(m) => {
                return Err(
                    CryptoError::Decryption(
                        concat_strs("Invalid ciphertext base64: ", m.as_str()),
                    ),
                );
            },
        };
        Ok(EncryptedData::new(nonce, ciphertext))
    }
}

} // verus!
