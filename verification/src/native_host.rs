//! The native-messaging host's decisions: which command a request names, how a
//! vault's stored salt is read, and the length-prefixed message framing
//! (four bytes of little-endian length, then the JSON text).

use vstd::prelude::*;
use crate::crypto::{b64_decode, base64_decoded, concat_strs};
use crate::text::{owned, str_eq};

verus! {

/// A request's command.
#[derive(Debug, Clone, Copy, PartialEq, Eq, Structural)]
pub enum NativeCommand {
    Unlock,
    Lock,
    List,
    Search,
    GetPassword,
    GeneratePassword,
    Ping,
    Unknown,
}

pub open spec fn command_of(name: Seq<char>) -> NativeCommand {
    if name == "unlock"@ {
        NativeCommand::Unlock
    } else if name == "lock"@ {
        NativeCommand::Lock
    } else if name == "list"@ {
        NativeCommand::List
    } else if name == "search"@ {
        NativeCommand::Search
    } else if name == "get_password"@ {
        NativeCommand::GetPassword
    } else if name == "generate_password"@ {
        NativeCommand::GeneratePassword
    } else if name == "ping"@ {
        NativeCommand::Ping
    } else {
        NativeCommand::Unknown
    }
}

/// The command a request's `command` field names.
pub fn parse_command(name: &str) -> (r: NativeCommand)
    ensures
        r == command_of(name@),
{
    if str_eq(name, "unlock") {
        NativeCommand::Unlock
    } else if str_eq(name, "lock") {
        NativeCommand::Lock
    } else if str_eq(name, "list") {
        NativeCommand::List
    } else if str_eq(name, "search") {
        NativeCommand::Search
    } else if str_eq(name, "get_password") {
        NativeCommand::GetPassword
    } else if str_eq(name, "generate_password") {
        NativeCommand::GeneratePassword
    } else if str_eq(name, "ping") {
        NativeCommand::Ping
    } else {
        NativeCommand::Unknown
    }
}

/// The error text for a command that is not known.
pub fn unknown_command_message(name: &str) -> (r: String)
    ensures
        r@ == "Unknown command: "@ + name@,
{
    concat_strs("Unknown command: ", name)
}

/// Why a vault's stored salt could not be used.
#[derive(Debug)]
pub enum SaltError {
    /// Not Base64; the decoder's message.
    Encoding(String),
    /// Decoded to this many bytes instead of 32.
    Length(usize),
}

/// Decodes the Base64 salt stored in a vault, which must be 32 bytes.
pub fn decode_salt_32(salt_b64: &str) -> (r: Result<[u8; 32], SaltError>)
    ensures
        match base64_decoded(salt_b64@) {
            Some(b) => if b.len() == 32 {
                r matches Ok(a) && a@ == b
            } else {
                r matches Err(SaltError::Length(n)) && n == b.len()
            },
            None => r matches Err(SaltError::Encoding(_)),
        },
{
    let bytes = match b64_decode(salt_b64) {
        Ok(b) => b,
        Err(m) => {
            return Err(SaltError::Encoding(m));
        },
    };
    if bytes.len() != 32 {
        return Err(SaltError::Length(bytes.len()));
    }
    let mut out = [0u8; 32];
    let mut i: usize = 0;
    while i < 32
        invariant
            i <= 32,
            bytes@.len() == 32,
            out@.len() == 32,
            forall|k: int| 0 <= k < i ==> out@[k] == bytes@[k],
        decreases 32 - i,
    {
        out[i] = bytes[i];
        i = i + 1;
    }
    assert(out@ =~= bytes@);
    Ok(out)
}

/// The native host's error text for a salt that cannot be used.
pub fn salt_error_text(e: &SaltError) -> (r: String)
    ensures
        e is Encoding ==> r@ == "Invalid salt"@,
        e is Length ==> r@ == "Invalid salt length"@,
{
    match e {
        SaltError::Encoding(_) => owned("Invalid salt"),
        SaltError::Length(_) => owned("Invalid salt length"),
    }
}

/// A `get_password` request needs a credential id.
pub fn check_credential_id(id: &str) -> (r: Result<(), String>)
    ensures
        r is Ok <==> id@.len() > 0,
        r matches Err(m) ==> m@ == "Missing credential id"@,
{
    if id.is_empty() {
        Err(owned("Missing credential id"))
    } else {
        Ok(())
    }
}

/// The four little-endian bytes of `x`.
pub open spec fn le_bytes(x: u32) -> Seq<u8> {
    seq![(x % 256) as u8, (x / 256 % 256) as u8, (x / 65536 % 256) as u8, (x / 16777216) as u8]
}

/// The number four little-endian bytes stand for.
pub open spec fn le_value(b: Seq<u8>) -> int {
    b[0] as int + b[1] as int * 256 + b[2] as int * 65536 + b[3] as int * 16777216
}

/// A message frame: the payload length (reduced to 32 bits) in little-endian
/// order, then the payload.
pub fn frame_message(payload: &[u8]) -> (r: Vec<u8>)
    ensures
        r@ == le_bytes(payload@.len() as u32) + payload@,
{
    let len: u32 = payload.len() as u32;
    let mut out: Vec<u8> = Vec::new();
    out.push((len % 256) as u8);
    out.push((len / 256 % 256) as u8);
    out.push((len / 65536 % 256) as u8);
    out.push((len / 16777216) as u8);
    let ghost head = out@;
    assert(head =~= le_bytes(len));
    let mut i: usize = 0;
    while i < payload.len()
        invariant
            i <= payload@.len(),
            out@ == head + payload@.take(i as int),
        decreases payload@.len() - i,
    {
        out.push(payload[i]);
        i = i + 1;
        assert(out@ =~= head + payload@.take(i as int));
    }
    assert(payload@.take(payload@.len() as int) =~= payload@);
    out
}

/// The payload length a frame header announces.
pub fn frame_length(header: [u8; 4]) -> (r: usize)
    ensures
        r as int == le_value(header@),
{
    let v: u32 = (header[0] as u32) + (header[1] as u32) * 256 + (header[2] as u32) * 65536 + (
    header[3] as u32) * 16777216;
    v as usize
}

/// The header of a frame announces the length of its payload (for payloads
/// shorter than 2^32 bytes).
pub proof fn lemma_frame_length(len: u32)
    ensures
        le_value(le_bytes(len)) == len,
{
}

} // verus!
