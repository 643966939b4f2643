//! The configuration of a proof party.

use vstd::prelude::*;
use crate::bytes::{be_bytes, is_zero32, joined, joined_step, put, put_be, same32, text_bytes, zero32};
use crate::digest::{hash, sha256};

verus! {

/// Whether thirty-two bytes are an Ed25519 public key.
pub uninterp spec fn is_ed25519_key(bytes: Seq<u8>) -> bool;

/// `ed25519_dalek::VerifyingKey::from_bytes`: whether the bytes are a public
/// key is a function of the bytes alone.
#[verifier::external_body]
pub(crate) fn decodes_to_ed25519_key(bytes: &[u8; 32]) -> (valid: bool)
    ensures
        valid == is_ed25519_key(bytes@),
{
    ed25519_dalek::VerifyingKey::from_bytes(bytes).is_ok()
}

/// Operator-enrolled recipient key. It never comes from the claim request.
#[derive(Debug)]
pub struct RecipientOpeningKey {
    pub view: [u8; 32],
    pub public: Vec<u8>,
}

/// The configuration of a proof party.
#[derive(Debug)]
pub struct ProofPartyConfig {
    pub recipient_opening_keys: Vec<RecipientOpeningKey>,
    pub node: u16,
    pub allowed_root: String,
    /// Encrypted node-local state. It must never be shared with the coordinator.
    pub state_file: String,
    /// Loaded from a node-local secret file by the process entry point. It is
    /// never represented in the request protocol.
    pub state_passphrase: Vec<u8>,
    pub n_mm: usize,
    /// Fixed committee population. A proof node refuses a selected maker-handle
    /// transcript that omits any configured participant.
    pub n_parties: usize,
    pub threshold: usize,
    pub amount_bits: usize,
    pub price_bits: usize,
    pub remainder_bits: usize,
    pub complete_quote_proof: bool,
    pub quote_eligibility_bits: usize,
    pub quote_span_bits: usize,
    /// Pinned receipt key of the settlement ledger. Without it a node can prove
    /// a quote, but it cannot authorise a typed settlement against untrusted
    /// reservation identifiers.
    pub trusted_defmi_receipt_public: Option<[u8; 32]>,
    /// Acceptance-only health signatures are domain-separated probes. Production
    /// endpoints keep this false.
    pub allow_health_signing: bool,
}

/// Whether every enrolled recipient is well formed and named once.
pub open spec fn recipients_ok(recipients: Seq<RecipientOpeningKey>, public_bytes: nat) -> bool {
    &&& forall|i: int|
        0 <= i < recipients.len() ==> (#[trigger] recipients[i]).public@.len() == public_bytes && recipients[i].view@
            != zero32()
    &&& forall|i: int, j: int|
        0 <= i < j < recipients.len() ==> (#[trigger] recipients[i]).view@ != (#[trigger] recipients[j]).view@
}

fn check_recipients(recipients: &Vec<RecipientOpeningKey>, public_bytes: usize) -> (r: bool)
    ensures
        r == recipients_ok(recipients@, public_bytes as nat),
{
    let mut i: usize = 0;
    while i < recipients.len()
        invariant
            i <= recipients@.len(),
            forall|k: int|
                0 <= k < i ==> (#[trigger] recipients@[k]).public@.len() == public_bytes && recipients@[k].view@
                    != zero32(),
            forall|a: int, b: int|
                0 <= a < b < i ==> (#[trigger] recipients@[a]).view@ != (#[trigger] recipients@[b]).view@,
        decreases recipients@.len() - i,
    {
        if recipients[i].public.len() != public_bytes || is_zero32(&recipients[i].view) {
            assert(!(recipients@[i as int].public@.len() == public_bytes && recipients@[i as int].view@ != zero32()));
            return false;
        }
        let mut j: usize = 0;
        while j < i
            invariant
                j <= i < recipients@.len(),
                forall|a: int| 0 <= a < j ==> (#[trigger] recipients@[a]).view@ != recipients@[i as int].view@,
            decreases i - j,
        {
            if same32(&recipients[j].view, &recipients[i].view) {
                return false;
            }
            j = j + 1;
        }
        i = i + 1;
    }
    true
}

/// The hashed text of one recipient.
pub open spec fn recipient_bytes(recipients: Seq<RecipientOpeningKey>) -> Seq<Seq<u8>> {
    recipients.map_values(|r: RecipientOpeningKey| r.view@ + r.public@)
}

/// One byte that says yes or no.
pub open spec fn flag(value: bool) -> Seq<u8> {
    seq![if value {
        1u8
    } else {
        0u8
    }]
}

fn put_flag(out: &mut Vec<u8>, value: bool)
    ensures
        final(out)@ == old(out)@ + flag(value),
{
    out.push(if value {
        1
    } else {
        0
    });
    assert(out@ =~= old(out)@ + flag(value));
}

impl ProofPartyConfig {
    /// Every number is within its fixed bounds.
    pub open spec fn bounded(self) -> bool {
        &&& self.node < 64
        &&& 0 < self.n_mm <= 4096
        &&& 2 <= self.n_parties <= 64
        &&& self.node < self.n_parties
        &&& 0 < self.threshold < self.n_parties
        &&& 1 <= self.amount_bits <= 64
        &&& 1 <= self.price_bits <= 64
        &&& 1 <= self.remainder_bits <= 64
        &&& 1 <= self.quote_eligibility_bits <= 64
        &&& 1 <= self.quote_span_bits <= 64
        &&& self.state_passphrase@.len() >= 16
    }

    /// The pinned receipt key, where there is one, is a key.
    pub open spec fn receipt_key_ok(self) -> bool {
        self.trusted_defmi_receipt_public matches Some(key) ==> is_ed25519_key(key@)
    }

    /// The configuration is one that a party can run with.
    pub open spec fn valid(self, public_bytes: nat) -> bool {
        &&& recipients_ok(self.recipient_opening_keys@, public_bytes)
        &&& self.bounded()
        &&& self.complete_quote_proof ==> self.quote_eligibility_bits >= 3
        &&& self.receipt_key_ok()
    }

    /// Checks the configuration. An enrolled recipient key has `public_bytes` bytes.
    pub fn validate(&self, public_bytes: usize) -> (r: Result<(), String>)
        ensures
            r is Ok <==> self.valid(public_bytes as nat),
            r matches Err(e) ==> e@ == if !recipients_ok(self.recipient_opening_keys@, public_bytes as nat) {
                "recipient opening directory is malformed or repeats an identity"@
            } else if !self.bounded() {
                "proof-party configuration is outside its fixed bounds"@
            } else if self.complete_quote_proof && self.quote_eligibility_bits < 3 {
                "complete quote proofs need at least three eligibility witness bits"@
            } else {
                "proof-party DeFMI receipt key is malformed"@
            },
    {
        if !check_recipients(&self.recipient_opening_keys, public_bytes) {
            return Err("recipient opening directory is malformed or repeats an identity".to_owned());
        }
        if self.node >= 64 || self.n_mm == 0 || self.n_mm > 4096 || self.n_parties < 2 || self.n_parties > 64
            || self.node as usize >= self.n_parties || self.threshold == 0 || self.threshold >= self.n_parties
            || self.amount_bits < 1 || self.amount_bits > 64 || self.price_bits < 1 || self.price_bits > 64
            || self.remainder_bits < 1 || self.remainder_bits > 64 || self.quote_eligibility_bits < 1
            || self.quote_eligibility_bits > 64 || self.quote_span_bits < 1 || self.quote_span_bits > 64
            || self.state_passphrase.len() < 16 {
            return Err("proof-party configuration is outside its fixed bounds".to_owned());
        }
        if self.complete_quote_proof && self.quote_eligibility_bits < 3 {
            return Err("complete quote proofs need at least three eligibility witness bits".to_owned());
        }
        match &self.trusted_defmi_receipt_public {
            Some(key) => {
                if !decodes_to_ed25519_key(key) {
                    return Err("proof-party DeFMI receipt key is malformed".to_owned());
                }
            },
            None => {},
        }
        Ok(())
    }

    /// The hashed text of every setting that the proofs depend on.
    pub open spec fn security_message(self) -> Seq<u8> {
        text_bytes("QOMM:PROOF-PARTY:SECURITY-CONFIG:v2"@) + be_bytes(self.node as nat, 2) + be_bytes(
            self.n_mm as nat,
            8,
        ) + be_bytes(self.n_parties as nat, 8) + be_bytes(self.threshold as nat, 8) + be_bytes(
            self.amount_bits as nat,
            8,
        ) + be_bytes(self.price_bits as nat, 8) + be_bytes(self.remainder_bits as nat, 8) + flag(
            self.complete_quote_proof,
        ) + be_bytes(self.quote_eligibility_bits as nat, 8) + be_bytes(self.quote_span_bits as nat, 8) + flag(
            self.allow_health_signing,
        ) + (match self.trusted_defmi_receipt_public {
            Some(key) => flag(true) + key@,
            None => flag(false),
        }) + be_bytes(self.recipient_opening_keys@.len(), 8) + joined(recipient_bytes(self.recipient_opening_keys@))
    }

    /// The digest of every setting that the proofs depend on.
    pub fn security_digest(&self) -> (digest: [u8; 32])
        ensures
            digest@ == sha256(self.security_message()),
    {
        let mut message: Vec<u8> = Vec::new();
        put(&mut message, "QOMM:PROOF-PARTY:SECURITY-CONFIG:v2".as_bytes());
        put_be(&mut message, self.node as u64, 2);
        put_be(&mut message, self.n_mm as u64, 8);
        put_be(&mut message, self.n_parties as u64, 8);
        put_be(&mut message, self.threshold as u64, 8);
        put_be(&mut message, self.amount_bits as u64, 8);
        put_be(&mut message, self.price_bits as u64, 8);
        put_be(&mut message, self.remainder_bits as u64, 8);
        put_flag(&mut message, self.complete_quote_proof);
        put_be(&mut message, self.quote_eligibility_bits as u64, 8);
        put_be(&mut message, self.quote_span_bits as u64, 8);
        put_flag(&mut message, self.allow_health_signing);
        let ghost settings = message@;
        match &self.trusted_defmi_receipt_public {
            Some(key) => {
                put_flag(&mut message, true);
                put(&mut message, key.as_slice());
                assert(message@ =~= settings + (flag(true) + key@));
            },
            None => {
                put_flag(&mut message, false);
            },
        }
        put_be(&mut message, self.recipient_opening_keys.len() as u64, 8);
        let ghost head = message@;
        let ghost parts = recipient_bytes(self.recipient_opening_keys@);
        let mut i: usize = 0;
        assert(head =~= head + joined(parts.take(0)));
        while i < self.recipient_opening_keys.len()
            invariant
                i <= self.recipient_opening_keys@.len(),
                parts == recipient_bytes(self.recipient_opening_keys@),
                message@ == head + joined(parts.take(i as int)),
            decreases self.recipient_opening_keys@.len() - i,
        {
            put(&mut message, self.recipient_opening_keys[i].view.as_slice());
            put(&mut message, self.recipient_opening_keys[i].public.as_slice());
            proof {
                joined_step(parts, i as int);
                assert(message@ =~= head + joined(parts.take(i as int + 1)));
            }
            i = i + 1;
        }
        assert(parts.take(i as int) =~= parts);
        assert(message@ =~= self.security_message());
        hash(message.as_slice())
    }
}

} // verus!
