//! SHA-256 and HMAC-SHA-256.

use vstd::prelude::*;
use crate::bytes::{put, put_be, be_bytes};

verus! {

/// The SHA-256 digest of a byte string.
pub uninterp spec fn sha256(message: Seq<u8>) -> Seq<u8>;

/// `sha2::Sha256::digest`: the digest is a function of the message alone and
/// has thirty-two bytes.
#[verifier::external_body]
pub(crate) fn hash(message: &[u8]) -> (digest: [u8; 32])
    ensures
        digest@ == sha256(message@),
{
    <sha2::Sha256 as sha2::Digest>::digest(message).into()
}

/// Every part preceded by the low four bytes of its length, big-endian.
pub open spec fn framed(parts: Seq<Seq<u8>>) -> Seq<u8>
    decreases parts.len(),
{
    if parts.len() == 0 {
        Seq::empty()
    } else {
        framed(parts.drop_last()) + be_bytes(parts.last().len(), 4) + parts.last()
    }
}

/// The key block of HMAC-SHA-256: the key, or its digest where the key is
/// longer than a block, padded with zeros to sixty-four bytes.
pub open spec fn hmac_block(key: Seq<u8>) -> Seq<u8> {
    let start = if key.len() > 64 { sha256(key) } else { key };
    Seq::new(64, |i: int| if i < start.len() { start[i] } else { 0u8 })
}

/// HMAC-SHA-256.
pub open spec fn hmac_sha256(key: Seq<u8>, body: Seq<u8>) -> Seq<u8> {
    let block = hmac_block(key);
    let inner = Seq::new(64, |i: int| 0x36u8 ^ block[i]);
    let outer = Seq::new(64, |i: int| 0x5cu8 ^ block[i]);
    sha256(outer + sha256(inner + body))
}

/// The digest of two parts, each preceded by its length.
pub fn digest_pair(first: &Vec<u8>, second: &Vec<u8>) -> (digest: [u8; 32])
    ensures
        digest@ == sha256(framed(seq![first@, second@])),
{
    let mut message: Vec<u8> = Vec::new();
    put_be(&mut message, first.len() as u64, 4);
    put(&mut message, first.as_slice());
    put_be(&mut message, second.len() as u64, 4);
    put(&mut message, second.as_slice());
    proof {
        let parts = seq![first@, second@];
        assert(parts.drop_last() =~= seq![first@]);
        assert(parts.drop_last().drop_last() =~= Seq::<Seq<u8>>::empty());
        reveal_with_fuel(framed, 3);
        assert(message@ =~= framed(parts));
    }
    hash(message.as_slice())
}

/// HMAC-SHA-256 of `body` under `key`.
pub fn hmac(key: &[u8], body: &[u8]) -> (tag: [u8; 32])
    ensures
        tag@ == hmac_sha256(key@, body@),
{
    let mut start: Vec<u8> = Vec::new();
    if key.len() > 64 {
        let digest = hash(key);
        put(&mut start, digest.as_slice());
    } else {
        put(&mut start, key);
    }
    let ghost chosen = if key@.len() > 64 { sha256(key@) } else { key@ };
    assert(start@ =~= chosen);
    let ghost block = hmac_block(key@);
    let mut inner: Vec<u8> = Vec::new();
    let mut outer: Vec<u8> = Vec::new();
    let mut i: usize = 0;
    while i < 64
        invariant
            i <= 64,
            start@ == chosen,
            block == Seq::new(64, |j: int| if j < chosen.len() { chosen[j] } else { 0u8 }),
            inner@ == Seq::new(i as nat, |j: int| 0x36u8 ^ block[j]),
            outer@ == Seq::new(i as nat, |j: int| 0x5cu8 ^ block[j]),
        decreases 64 - i,
    {
        let byte: u8 = if i < start.len() { start[i] } else { 0 };
        assert(byte == block[i as int]);
        inner.push(0x36u8 ^ byte);
        outer.push(0x5cu8 ^ byte);
        i = i + 1;
        assert(inner@ =~= Seq::new(i as nat, |j: int| 0x36u8 ^ block[j]));
        assert(outer@ =~= Seq::new(i as nat, |j: int| 0x5cu8 ^ block[j]));
    }
    put(&mut inner, body);
    let digest = hash(inner.as_slice());
    put(&mut outer, digest.as_slice());
    hash(outer.as_slice())
}

} // verus!
