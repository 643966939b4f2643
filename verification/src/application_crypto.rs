//! Signatures and keys as plain values.
//!
//! A hybrid signature envelope is carried as its bytes and a key as its
//! fingerprint. Making and checking a signature belongs to the key store of
//! the process; the protocol logic takes those two operations as functions and
//! fixes the bytes that it hands to them.

use vstd::prelude::*;
use crate::bytes::copied;

verus! {

/// A signature envelope.
#[derive(Clone, Debug)]
pub struct Signature {
    pub bytes: Vec<u8>,
}

impl View for Signature {
    type V = Seq<u8>;

    open spec fn view(&self) -> Seq<u8> {
        self.bytes@
    }
}

impl Signature {
    /// An envelope of the given bytes.
    pub fn from_bytes(bytes: &[u8]) -> (signature: Signature)
        ensures
            signature@ == bytes@,
    {
        Signature { bytes: copied(bytes) }
    }

    /// The bytes of the envelope.
    pub fn to_bytes(&self) -> (bytes: Vec<u8>)
        ensures
            bytes@ == self@,
    {
        copied(self.bytes.as_slice())
    }

    /// A copy.
    pub fn copy(&self) -> (signature: Signature)
        ensures
            signature@ == self@,
    {
        Signature { bytes: copied(self.bytes.as_slice()) }
    }
}

/// The fingerprint of a public key.
#[derive(Clone, Copy, Debug, PartialEq, Eq)]
pub struct VerifyingKey {
    pub bytes: [u8; 32],
}

/// A signing key: where its secret is kept, and its public half.
#[derive(Clone, Copy, Debug)]
pub struct SigningKey {
    pub handle: u64,
    pub public: VerifyingKey,
}

impl SigningKey {
    /// The public half.
    pub fn verifying_key(&self) -> (key: VerifyingKey)
        ensures
            key == self.public,
    {
        self.public
    }
}

/// Whether `verify` may answer `verdict` for these bytes under this key.
pub open spec fn answers<V: Fn(&VerifyingKey, &Vec<u8>, &Signature) -> bool>(
    verify: V,
    key: VerifyingKey,
    body: Seq<u8>,
    signature: Seq<u8>,
    verdict: bool,
) -> bool {
    exists|k: VerifyingKey, b: Vec<u8>, s: Signature|
        k == key && b@ == body && s@ == signature && #[trigger] call_ensures(verify, (&k, &b, &s), verdict)
}

/// Whether `verify` can be asked of every key, body and signature.
pub open spec fn can_verify<V: Fn(&VerifyingKey, &Vec<u8>, &Signature) -> bool>(verify: V) -> bool {
    forall|k: &VerifyingKey, b: &Vec<u8>, s: &Signature| call_requires(verify, (k, b, s))
}

/// Whether `sign` may give `outcome` for these bytes under this key.
pub open spec fn signs<S: Fn(&SigningKey, &Vec<u8>) -> Result<Signature, String>>(
    sign: S,
    key: SigningKey,
    body: Seq<u8>,
    outcome: Result<Seq<u8>, Seq<char>>,
) -> bool {
    exists|k: SigningKey, b: Vec<u8>, o: Result<Signature, String>|
        k == key && b@ == body && #[trigger] call_ensures(sign, (&k, &b), o) && match o {
            Ok(s) => outcome == Ok::<Seq<u8>, Seq<char>>(s@),
            Err(e) => outcome == Err::<Seq<u8>, Seq<char>>(e@),
        }
}

/// Whether `sign` can be asked of every key and body.
pub open spec fn can_sign<S: Fn(&SigningKey, &Vec<u8>) -> Result<Signature, String>>(sign: S) -> bool {
    forall|k: &SigningKey, b: &Vec<u8>| call_requires(sign, (k, b))
}

/// Whether every signature that `sign` makes is authentic to `verify`.
pub open spec fn signatures_hold<
    S: Fn(&SigningKey, &Vec<u8>) -> Result<Signature, String>,
    V: Fn(&VerifyingKey, &Vec<u8>, &Signature) -> bool,
>(sign: S, verify: V) -> bool {
    forall|key: SigningKey, body: Seq<u8>, made: Seq<u8>| #[trigger]
        signs(sign, key, body, Ok(made)) ==> !answers(verify, key.public, body, made, false)
}

/// Whether `verify` gives one answer of every key, body and signature.
pub open spec fn one_answer<V: Fn(&VerifyingKey, &Vec<u8>, &Signature) -> bool>(verify: V) -> bool {
    forall|key: VerifyingKey, body: Seq<u8>, signature: Seq<u8>| #[trigger]
        answers(verify, key, body, signature, true) ==> !answers(verify, key, body, signature, false)
}

/// Asks whether a signature over `body` is authentic under `key`.
pub fn check_signature<V: Fn(&VerifyingKey, &Vec<u8>, &Signature) -> bool>(
    verify: &V,
    key: &VerifyingKey,
    body: &Vec<u8>,
    signature: &Signature,
) -> (verdict: bool)
    requires
        can_verify(*verify),
    ensures
        answers(*verify, *key, body@, signature@, verdict),
{
    verify(key, body, signature)
}

/// Asks for a signature over `body` under `key`.
pub fn make_signature<S: Fn(&SigningKey, &Vec<u8>) -> Result<Signature, String>>(
    sign: &S,
    key: &SigningKey,
    body: &Vec<u8>,
) -> (outcome: Result<Signature, String>)
    requires
        can_sign(*sign),
    ensures
        outcome matches Ok(s) ==> signs(*sign, *key, body@, Ok(s@)),
        outcome matches Err(e) ==> signs(*sign, *key, body@, Err(e@)),
{
    sign(key, body)
}

} // verus!
