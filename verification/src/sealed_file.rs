//! The layout of encrypted state files, and the checks around them.

use vstd::prelude::*;
use crate::bytes::{part, put, same, text_bytes};
use crate::fields::{either, unless};
use crate::json::{as_unsigned, unsigned_in, Value};
use crate::paths::{absolute, file_is, is_absolute, is_safe_relative, last_part, safe_relative};

verus! {

/// The bytes of salt in a state file.
pub const SALT_BYTES: usize = 16;

/// The bytes of nonce in a state file.
pub const NONCE_BYTES: usize = 12;

/// The bytes of the authentication tag that every ciphertext ends with.
pub const TAG_BYTES: usize = 16;

/// The longest state file of a proof party.
pub const MAX_PROOF_STATE_BYTES: usize = 33554432;

/// The shortest passphrase.
pub const MIN_PASSPHRASE_BYTES: usize = 12;

/// What is in a state file behind its magic.
#[derive(Debug)]
pub struct Sealed {
    pub salt: Vec<u8>,
    pub nonce: Vec<u8>,
    pub ciphertext: Vec<u8>,
}

/// The bytes of a state file.
pub open spec fn sealed_bytes(magic: Seq<char>, salt: Seq<u8>, nonce: Seq<u8>, ciphertext: Seq<u8>) -> Seq<u8> {
    text_bytes(magic) + salt + nonce + ciphertext
}

/// The bytes of a state file.
pub fn seal_file(magic: &str, salt: &[u8; 16], nonce: &[u8; 12], ciphertext: &[u8]) -> (raw: Vec<u8>)
    ensures
        raw@ == sealed_bytes(magic@, salt@, nonce@, ciphertext@),
{
    let mut raw: Vec<u8> = Vec::new();
    put(&mut raw, magic.as_bytes());
    put(&mut raw, salt.as_slice());
    put(&mut raw, nonce.as_slice());
    put(&mut raw, ciphertext);
    assert(raw@ =~= sealed_bytes(magic@, salt@, nonce@, ciphertext@));
    raw
}

/// Whether bytes are a state file of a magic: they start with it, and are long
/// enough for a salt, a nonce and a tag.
pub open spec fn is_sealed(magic: Seq<char>, raw: Seq<u8>) -> bool {
    let m = text_bytes(magic);
    &&& raw.len() >= m.len() + SALT_BYTES + NONCE_BYTES + TAG_BYTES
    &&& raw.take(m.len() as int) == m
}

/// Takes a state file of a magic apart.
pub fn open_file(magic: &str, raw: &[u8]) -> (r: Option<Sealed>)
    ensures
        match r {
            Some(sealed) => {
                &&& is_sealed(magic@, raw@)
                &&& sealed.salt@.len() == SALT_BYTES
                &&& sealed.nonce@.len() == NONCE_BYTES
                &&& raw@ == sealed_bytes(magic@, sealed.salt@, sealed.nonce@, sealed.ciphertext@)
            },
            None => !is_sealed(magic@, raw@),
        },
{
    let head = magic.as_bytes();
    if raw.len() < SALT_BYTES + NONCE_BYTES + TAG_BYTES || raw.len() - (SALT_BYTES + NONCE_BYTES + TAG_BYTES)
        < head.len() {
        return None;
    }
    let start = part(raw, 0, head.len());
    assert(start@ =~= raw@.take(head@.len() as int));
    if !same(start.as_slice(), head) {
        return None;
    }
    let at: usize = head.len();
    let salt = part(raw, at, at + SALT_BYTES);
    let nonce = part(raw, at + SALT_BYTES, at + SALT_BYTES + NONCE_BYTES);
    let ciphertext = part(raw, at + SALT_BYTES + NONCE_BYTES, raw.len());
    assert(raw@ =~= sealed_bytes(magic@, salt@, nonce@, ciphertext@));
    Some(Sealed { salt, nonce, ciphertext })
}

/// A state file that was put together comes apart into the same parts.
pub proof fn sealed_round_trip(
    magic: Seq<char>,
    salt: Seq<u8>,
    nonce: Seq<u8>,
    ciphertext: Seq<u8>,
    read: Sealed,
)
    requires
        salt.len() == SALT_BYTES,
        nonce.len() == NONCE_BYTES,
        ciphertext.len() >= TAG_BYTES,
        read.salt@.len() == SALT_BYTES,
        read.nonce@.len() == NONCE_BYTES,
        sealed_bytes(magic, salt, nonce, ciphertext) == sealed_bytes(
            magic,
            read.salt@,
            read.nonce@,
            read.ciphertext@,
        ),
    ensures
        is_sealed(magic, sealed_bytes(magic, salt, nonce, ciphertext)),
        read.salt@ == salt,
        read.nonce@ == nonce,
        read.ciphertext@ == ciphertext,
{
    let m = text_bytes(magic);
    let a = sealed_bytes(magic, salt, nonce, ciphertext);
    let b = sealed_bytes(magic, read.salt@, read.nonce@, read.ciphertext@);
    let n = m.len() as int;
    assert(a.take(n) =~= m);
    assert(a.subrange(n, n + 16) =~= salt);
    assert(b.subrange(n, n + 16) =~= read.salt@);
    assert(a.subrange(n + 16, n + 28) =~= nonce);
    assert(b.subrange(n + 16, n + 28) =~= read.nonce@);
    assert(a.skip(n + 28) =~= ciphertext);
    assert(b.skip(n + 28) =~= read.ciphertext@);
}

/// Why bytes are not the state file of a proof party.
pub open spec fn proof_state_refusal(raw: Seq<u8>) -> Option<Seq<char>> {
    either(
        unless(raw.len() <= MAX_PROOF_STATE_BYTES, "proof-party state exceeds its fixed bound"@),
        unless(is_sealed("QOMMPS01"@, raw), "not an encrypted QOMM proof-party state"@),
    )
}

/// Takes the state file of a proof party apart.
pub fn open_proof_state(raw: &[u8]) -> (r: Result<Sealed, String>)
    ensures
        match r {
            Ok(sealed) => {
                &&& proof_state_refusal(raw@) is None
                &&& sealed.salt@.len() == SALT_BYTES
                &&& sealed.nonce@.len() == NONCE_BYTES
                &&& raw@ == sealed_bytes("QOMMPS01"@, sealed.salt@, sealed.nonce@, sealed.ciphertext@)
            },
            Err(e) => proof_state_refusal(raw@) == Some(e@),
        },
{
    if raw.len() > MAX_PROOF_STATE_BYTES {
        return Err("proof-party state exceeds its fixed bound".to_owned());
    }
    match open_file("QOMMPS01", raw) {
        None => Err("not an encrypted QOMM proof-party state".to_owned()),
        Some(sealed) => Ok(sealed),
    }
}

/// Refuses a clear state whose file would pass its bound.
pub fn check_proof_state_room(clear: usize) -> (r: Result<(), String>)
    ensures
        match r {
            Ok(_) => clear + 8 + SALT_BYTES + NONCE_BYTES + TAG_BYTES <= MAX_PROOF_STATE_BYTES,
            Err(e) => {
                &&& clear + 8 + SALT_BYTES + NONCE_BYTES + TAG_BYTES > MAX_PROOF_STATE_BYTES
                &&& e@ == "proof-party state exceeds its fixed bound"@
            },
        },
{
    if clear > MAX_PROOF_STATE_BYTES - (8 + SALT_BYTES + NONCE_BYTES + TAG_BYTES) {
        Err("proof-party state exceeds its fixed bound".to_owned())
    } else {
        Ok(())
    }
}

/// Refuses a state of another version.
pub fn check_state_version(state: &Value) -> (r: Result<(), String>)
    ensures
        match r {
            Ok(_) => unsigned_in(state@.field("version"@)) == Some(6nat),
            Err(e) => {
                &&& unsigned_in(state@.field("version"@)) != Some(6nat)
                &&& e@ == "proof state requires explicit hybrid-key migration; legacy state was preserved"@
            },
        },
{
    match as_unsigned(state.get("version")) {
        Some(6) => Ok(()),
        _ => Err("proof state requires explicit hybrid-key migration; legacy state was preserved".to_owned()),
    }
}

/// Takes the state file of a resident node apart.
pub fn open_mpc_state(raw: &[u8]) -> (r: Result<Sealed, String>)
    ensures
        match r {
            Ok(sealed) => {
                &&& is_sealed("QOMMMPC1"@, raw@)
                &&& sealed.salt@.len() == SALT_BYTES
                &&& sealed.nonce@.len() == NONCE_BYTES
                &&& raw@ == sealed_bytes("QOMMMPC1"@, sealed.salt@, sealed.nonce@, sealed.ciphertext@)
            },
            Err(e) => !is_sealed("QOMMMPC1"@, raw@) && e@ == "not a QOMM encrypted MPC state"@,
        },
{
    match open_file("QOMMMPC1", raw) {
        None => Err("not a QOMM encrypted MPC state".to_owned()),
        Some(sealed) => Ok(sealed),
    }
}

/// Why the path of a proof party's state file is refused.
pub open spec fn state_path_refusal(path: Seq<char>) -> Option<Seq<char>> {
    let bytes = text_bytes(path);
    let name = last_part(bytes);
    either(
        unless(
            name != text_bytes(""@) && name != text_bytes("."@) && name != text_bytes(".."@),
            "proof-party state path has no file name"@,
        ),
        unless(
            is_absolute(bytes) || is_safe_relative(bytes),
            "proof-party state path must be a normalized file below its root"@,
        ),
    )
}

/// Checks the path of a proof party's state file.
pub fn check_state_path(path: &str) -> (r: Result<(), String>)
    ensures
        match r {
            Ok(_) => state_path_refusal(path@) is None,
            Err(e) => state_path_refusal(path@) == Some(e@),
        },
{
    if file_is(path, "") || file_is(path, ".") || file_is(path, "..") {
        return Err("proof-party state path has no file name".to_owned());
    }
    if !absolute(path) && !safe_relative(path) {
        return Err("proof-party state path must be a normalized file below its root".to_owned());
    }
    Ok(())
}

/// Whether a byte ends a line.
pub open spec fn ends_line(byte: u8) -> bool {
    byte == 10 || byte == 13
}

/// A byte string without the line ends at its end.
pub open spec fn trimmed(bytes: Seq<u8>) -> Seq<u8>
    decreases bytes.len(),
{
    if bytes.len() > 0 && ends_line(bytes.last()) {
        trimmed(bytes.drop_last())
    } else {
        bytes
    }
}

/// The passphrase in a file: its contents without the line ends at its end.
pub fn private_secret(raw: Vec<u8>) -> (r: Result<Vec<u8>, String>)
    ensures
        match r {
            Ok(secret) => secret@ == trimmed(raw@) && secret@.len() >= MIN_PASSPHRASE_BYTES,
            Err(e) => {
                &&& trimmed(raw@).len() < MIN_PASSPHRASE_BYTES
                &&& e@ == "MPC-state passphrase file is empty or too short"@
            },
        },
{
    let mut value = raw;
    while value.len() > 0 && (value[value.len() - 1] == 10 || value[value.len() - 1] == 13)
        invariant
            trimmed(value@) == trimmed(raw@),
        decreases value@.len(),
    {
        let _ = value.pop();
    }
    if value.len() < MIN_PASSPHRASE_BYTES {
        return Err("MPC-state passphrase file is empty or too short".to_owned());
    }
    Ok(value)
}

} // verus!
