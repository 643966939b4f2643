//! The certified admissions and the settlement verifier of a pre-trade authority,
//! and their exchanged forms.

use vstd::prelude::*;
use crate::application_crypto::{can_verify, Signature, VerifyingKey};
use crate::authority_parts::{raw_refusal, read_raw};
use crate::bytes::{copied, is_zero32, same, zero32};
use crate::fields::{either, first, first_at, unless};
use crate::oracle::{ask, decides, judges, objected, yes};
use crate::order::{
    admission_lane, admissions, admissions_authentic, admissions_by_node, admissions_refused, verify_admission_lane,
    Admission, AdmissionLane, CertifiedAdmissionLane, NodeAdmissionAttestation, COMMITTEE_NODES,
};
use crate::pretrade::MAX_AUTHORITIES;
use crate::pretrade_wire::{hex_text_refusal, parse32, parse_signature, signature_refusal};
use crate::text::{hex_bytes, hex_encode, hex_text, is_hex};

verus! {

/// The version of the exchanged form of a bundle.
pub const AUTHORITY_VERSION: u8 = 6;

/// The most bytes of an exchanged file.
pub const MAX_FILE: u64 = 33554432;

/// The most bytes of a group's public package.
pub const MAX_PACKAGE: usize = 65536;

/// Whether a file may be exchanged: a regular file of the owner alone, bounded.
pub fn check_exchange_file(is_file: bool, mode: u32, length: u64) -> (r: Result<(), String>)
    ensures
        match r {
            Ok(_) => is_file && mode & 0o077 == 0 && length <= MAX_FILE,
            Err(e) => {
                &&& !(is_file && mode & 0o077 == 0 && length <= MAX_FILE)
                &&& e@ == "pre-trade exchange must be a bounded private regular file"@
            },
        },
{
    if !is_file || mode & 0o077 != 0 || length > MAX_FILE {
        return Err("pre-trade exchange must be a bounded private regular file".to_owned());
    }
    Ok(())
}

/// The verifier that settlements are held to, fixed before quotes are evaluated.
#[derive(Debug)]
pub struct PretradeSettlementVerifier {
    pub epoch: u64,
    pub quote_registry_digest: [u8; 32],
    pub quote_eligibility_bits: u16,
    pub quote_span_bits: u16,
    pub amount_bits: u16,
    pub price_bits: u16,
    pub max_horizon: u64,
    /// The public package of the group, in its own form.
    pub frost_public: Vec<u8>,
    /// The policy of the post-quantum committee, in its own form.
    pub pq_committee: Vec<u8>,
    pub valid_from: u64,
    pub valid_until: u64,
}

/// The exchanged form of a settlement verifier.
#[derive(Debug)]
pub struct WireSettlementVerifier {
    pub epoch: u64,
    pub quote_registry_digest: String,
    pub quote_eligibility_bits: u16,
    pub quote_span_bits: u16,
    pub amount_bits: u16,
    pub price_bits: u16,
    pub max_horizon: u64,
    pub frost_public: String,
    pub pq_committee: Vec<u8>,
    pub valid_from: u64,
    pub valid_until: u64,
}

impl PretradeSettlementVerifier {
    /// Whether the verifier is within its bounds.
    pub open spec fn bounded(self) -> bool {
        &&& self.epoch > 0
        &&& self.quote_registry_digest@ != zero32()
        &&& 1 <= self.quote_eligibility_bits <= 62
        &&& 1 <= self.quote_span_bits <= 64
        &&& 1 <= self.amount_bits <= 64
        &&& 1 <= self.price_bits <= 64
        &&& self.max_horizon > 0
        &&& 0 < self.valid_from <= self.valid_until
    }

    /// Why the verifier is refused, before its committee is looked at.
    pub open spec fn refusal(self) -> Option<Seq<char>> {
        either(
            unless(self.bounded(), "pre-trade settlement verifier is outside its bounds"@),
            unless(
                0 < self.frost_public@.len() <= MAX_PACKAGE,
                "pre-trade FROST public package is outside its bound"@,
            ),
        )
    }

    fn check(&self) -> (r: Result<(), String>)
        ensures
            match r {
                Ok(_) => self.refusal() is None,
                Err(e) => self.refusal() == Some(e@),
            },
    {
        if self.epoch == 0 || is_zero32(&self.quote_registry_digest) || self.quote_eligibility_bits == 0
            || self.quote_eligibility_bits > 62 || self.quote_span_bits == 0 || self.quote_span_bits > 64
            || self.amount_bits == 0 || self.amount_bits > 64 || self.price_bits == 0 || self.price_bits > 64
            || self.max_horizon == 0 || self.valid_from == 0 || self.valid_until < self.valid_from {
            return Err("pre-trade settlement verifier is outside its bounds".to_owned());
        }
        if self.frost_public.len() == 0 || self.frost_public.len() > MAX_PACKAGE {
            return Err("pre-trade FROST public package is outside its bound".to_owned());
        }
        Ok(())
    }
}

/// Whether a committee may be judged so against a group's package.
pub open spec fn committee_told<C: Fn(&Vec<u8>, &Vec<u8>) -> Result<(), String>>(
    validates: C,
    committee: Seq<u8>,
    package: Seq<u8>,
    objection: Option<Seq<char>>,
) -> bool {
    exists|c: Vec<u8>, p: Vec<u8>, outcome: Result<(), String>|
        c@ == committee && p@ == package && objected(outcome) == objection && #[trigger] call_ensures(
            validates,
            (&c, &p),
            outcome,
        )
}

/// Whether any committee can be judged.
pub open spec fn can_validate<C: Fn(&Vec<u8>, &Vec<u8>) -> Result<(), String>>(validates: C) -> bool {
    forall|c: &Vec<u8>, p: &Vec<u8>| call_requires(validates, (c, p))
}

impl WireSettlementVerifier {
    /// Whether this is the exchanged form of a verifier.
    pub open spec fn writes(self, value: PretradeSettlementVerifier) -> bool {
        &&& self.numbers(value)
        &&& self.quote_registry_digest@ == hex_text(value.quote_registry_digest@)
        &&& self.frost_public@ == hex_text(value.frost_public@)
        &&& self.pq_committee@ == value.pq_committee@
    }

    /// Whether a verifier is the one that is exchanged.
    pub open spec fn says(self, value: PretradeSettlementVerifier) -> bool {
        &&& self.numbers(value)
        &&& value.quote_registry_digest@ == hex_bytes(self.quote_registry_digest@)
        &&& value.pq_committee@ == self.pq_committee@
    }

    /// Whether the numbers are those of a verifier.
    pub open spec fn numbers(self, value: PretradeSettlementVerifier) -> bool {
        &&& self.epoch == value.epoch
        &&& self.quote_eligibility_bits == value.quote_eligibility_bits
        &&& self.quote_span_bits == value.quote_span_bits
        &&& self.amount_bits == value.amount_bits
        &&& self.price_bits == value.price_bits
        &&& self.max_horizon == value.max_horizon
        &&& self.valid_from == value.valid_from
        &&& self.valid_until == value.valid_until
    }
}

/// Whether a verifier is written: it is within its bounds and its committee fits its group.
pub open spec fn verifier_written<C: Fn(&Vec<u8>, &Vec<u8>) -> Result<(), String>>(
    value: PretradeSettlementVerifier,
    validates: C,
) -> bool {
    value.refusal() is None && committee_told(validates, value.pq_committee@, value.frost_public@, None)
}

/// Whether a verifier is refused in these words.
pub open spec fn verifier_refused<C: Fn(&Vec<u8>, &Vec<u8>) -> Result<(), String>>(
    value: PretradeSettlementVerifier,
    validates: C,
    e: Seq<char>,
) -> bool {
    ||| value.refusal() == Some(e)
    ||| value.refusal() is None && committee_told(validates, value.pq_committee@, value.frost_public@, Some(e))
}

/// The exchanged form of a settlement verifier. `validates` judges a committee
/// against the package of a group.
pub fn settlement_verifier_wire<C: Fn(&Vec<u8>, &Vec<u8>) -> Result<(), String>>(
    value: &PretradeSettlementVerifier,
    validates: &C,
) -> (r: Result<WireSettlementVerifier, String>)
    requires
        can_validate(*validates),
    ensures
        match r {
            Ok(wire) => verifier_written(*value, *validates) && wire.writes(*value),
            Err(e) => verifier_refused(*value, *validates, e@),
        },
{
    if let Err(e) = value.check() {
        return Err(e);
    }
    let outcome = validates(&value.pq_committee, &value.frost_public);
    assert(committee_told(*validates, value.pq_committee@, value.frost_public@, objected(outcome)));
    if let Err(e) = outcome {
        return Err(e);
    }
    Ok(
        WireSettlementVerifier {
            epoch: value.epoch,
            quote_registry_digest: hex_encode(value.quote_registry_digest.as_slice()),
            quote_eligibility_bits: value.quote_eligibility_bits,
            quote_span_bits: value.quote_span_bits,
            amount_bits: value.amount_bits,
            price_bits: value.price_bits,
            max_horizon: value.max_horizon,
            frost_public: hex_encode(value.frost_public.as_slice()),
            pq_committee: copied(value.pq_committee.as_slice()),
            valid_from: value.valid_from,
            valid_until: value.valid_until,
        },
    )
}

/// Whether bytes may be read as a group's package, whose own form is `canonical`.
pub open spec fn package_told<P: Fn(&Vec<u8>) -> Option<Vec<u8>>>(
    package: P,
    raw: Seq<u8>,
    canonical: Option<Seq<u8>>,
) -> bool {
    exists|b: Vec<u8>, outcome: Option<Vec<u8>>|
        b@ == raw && #[trigger] call_ensures(package, (&b,), outcome) && canonical == match outcome {
            None => None,
            Some(bytes) => Some(bytes@),
        }
}

/// Whether any bytes can be read as a package.
pub open spec fn can_package<P: Fn(&Vec<u8>) -> Option<Vec<u8>>>(package: P) -> bool {
    forall|b: &Vec<u8>| call_requires(package, (b,))
}

/// Whether an exchanged verifier is read as this one: its package is in its own form.
pub open spec fn verifier_read<P: Fn(&Vec<u8>) -> Option<Vec<u8>>, C: Fn(&Vec<u8>, &Vec<u8>) -> Result<(), String>>(
    wire: WireSettlementVerifier,
    value: PretradeSettlementVerifier,
    package: P,
    validates: C,
) -> bool {
    &&& is_hex(wire.frost_public@)
    &&& hex_text_refusal(wire.quote_registry_digest@, "quote registry digest"@) is None
    &&& package_told(package, hex_bytes(wire.frost_public@), Some(hex_bytes(wire.frost_public@)))
    &&& wire.says(value)
    &&& value.frost_public@ == hex_bytes(wire.frost_public@)
    &&& verifier_written(value, validates)
}

/// Why the texts of an exchanged verifier cannot be read.
pub open spec fn verifier_text_refusal(wire: WireSettlementVerifier) -> Option<Seq<char>> {
    either(
        raw_refusal(wire.frost_public@, "pre-trade FROST public package is not hexadecimal"@),
        hex_text_refusal(wire.quote_registry_digest@, "quote registry digest"@),
    )
}

/// Whether a verifier with the package in its own form is refused in these words.
pub open spec fn verifier_not_kept<C: Fn(&Vec<u8>, &Vec<u8>) -> Result<(), String>>(
    wire: WireSettlementVerifier,
    value: PretradeSettlementVerifier,
    validates: C,
    e: Seq<char>,
) -> bool {
    &&& wire.says(value)
    &&& {
        ||| verifier_refused(value, validates, e)
        ||| {
            &&& verifier_written(value, validates)
            &&& value.frost_public@ != hex_bytes(wire.frost_public@)
            &&& e == "pre-trade FROST public package is not canonical"@
        }
    }
}

/// Whether an exchanged verifier is refused in these words.
pub open spec fn verifier_unread<P: Fn(&Vec<u8>) -> Option<Vec<u8>>, C: Fn(&Vec<u8>, &Vec<u8>) -> Result<(), String>>(
    wire: WireSettlementVerifier,
    package: P,
    validates: C,
    e: Seq<char>,
) -> bool {
    ||| verifier_text_refusal(wire) == Some(e)
    ||| {
        &&& verifier_text_refusal(wire) is None
        &&& package_told(package, hex_bytes(wire.frost_public@), None)
        &&& e == "pre-trade FROST public package is invalid"@
    }
    ||| {
        &&& verifier_text_refusal(wire) is None
        &&& exists|value: PretradeSettlementVerifier|
            package_told(package, hex_bytes(wire.frost_public@), Some(value.frost_public@)) && #[trigger]
            verifier_not_kept(wire, value, validates, e)
    }
}

/// Reads an exchanged settlement verifier. `package` reads the package of a group
/// and gives its own form.
pub fn settlement_verifier_from_wire<
    P: Fn(&Vec<u8>) -> Option<Vec<u8>>,
    C: Fn(&Vec<u8>, &Vec<u8>) -> Result<(), String>,
>(wire: &WireSettlementVerifier, package: &P, validates: &C) -> (r: Result<PretradeSettlementVerifier, String>)
    requires
        can_package(*package),
        can_validate(*validates),
    ensures
        match r {
            Ok(value) => verifier_read(*wire, value, *package, *validates),
            Err(e) => verifier_unread(*wire, *package, *validates, e@),
        },
{
    let raw = match read_raw(wire.frost_public.as_str(), "pre-trade FROST public package is not hexadecimal") {
        Err(e) => {
            return Err(e);
        },
        Ok(v) => v,
    };
    let quote_registry_digest = match parse32(wire.quote_registry_digest.as_str(), "quote registry digest") {
        Err(e) => {
            return Err(e);
        },
        Ok(v) => v,
    };
    let outcome = package(&raw);
    let frost_public = match outcome {
        None => {
            assert(package_told(*package, raw@, None));
            return Err("pre-trade FROST public package is invalid".to_owned());
        },
        Some(bytes) => bytes,
    };
    assert(package_told(*package, raw@, Some(frost_public@)));
    let value = PretradeSettlementVerifier {
        epoch: wire.epoch,
        quote_registry_digest,
        quote_eligibility_bits: wire.quote_eligibility_bits,
        quote_span_bits: wire.quote_span_bits,
        amount_bits: wire.amount_bits,
        price_bits: wire.price_bits,
        max_horizon: wire.max_horizon,
        frost_public,
        pq_committee: copied(wire.pq_committee.as_slice()),
        valid_from: wire.valid_from,
        valid_until: wire.valid_until,
    };
    if let Err(e) = settlement_verifier_wire(&value, validates) {
        assert(verifier_not_kept(*wire, value, *validates, e@));
        return Err(e);
    }
    if !same(value.frost_public.as_slice(), raw.as_slice()) {
        assert(verifier_not_kept(
            *wire,
            value,
            *validates,
            "pre-trade FROST public package is not canonical"@,
        ));
        return Err("pre-trade FROST public package is not canonical".to_owned());
    }
    Ok(value)
}

/// The certified admissions of a slot.
#[derive(Debug)]
pub struct PretradeAdmission {
    pub epoch: u64,
    pub node_keys: Vec<[u8; 32]>,
    pub lanes: Vec<Vec<NodeAdmissionAttestation>>,
}

/// The exchanged form of an admission attestation.
#[derive(Debug)]
pub struct WireAdmissionAttestation {
    pub node: u16,
    pub slot: u64,
    pub sequence: u64,
    pub principal_digest: String,
    pub ticket_id: String,
    pub claim_digest: String,
    pub batch_digest: String,
    pub order_digest: String,
    pub signature: String,
}

/// The exchanged form of the admissions of a slot.
#[derive(Debug)]
pub struct WireAdmission {
    pub epoch: u64,
    pub node_keys: Vec<String>,
    pub lanes: Vec<Vec<WireAdmissionAttestation>>,
}

impl WireAdmissionAttestation {
    /// Why an exchanged attestation is refused.
    pub open spec fn refusal<J: Fn(&Vec<u8>) -> Result<(), String>>(self, width: nat, accepts: J) -> Option<Seq<char>> {
        either(
            hex_text_refusal(self.principal_digest@, "admission principal"@),
            either(
                hex_text_refusal(self.ticket_id@, "admission ticket"@),
                either(
                    hex_text_refusal(self.claim_digest@, "admission claim"@),
                    either(
                        hex_text_refusal(self.batch_digest@, "admission batch"@),
                        either(
                            hex_text_refusal(self.order_digest@, "admission order"@),
                            either(
                                signature_refusal(self.signature@, "admission signature"@, width, accepts),
                                unless(self.admission().complete(), "node admission attestation is incomplete"@),
                            ),
                        ),
                    ),
                ),
            ),
        )
    }

    /// What an exchanged attestation says.
    pub open spec fn admission(self) -> Admission {
        Admission {
            node: self.node as nat,
            slot: self.slot as nat,
            sequence: self.sequence as nat,
            principal_digest: hex_bytes(self.principal_digest@),
            ticket_id: hex_bytes(self.ticket_id@),
            claim_digest: hex_bytes(self.claim_digest@),
            batch_digest: hex_bytes(self.batch_digest@),
            order_digest: hex_bytes(self.order_digest@),
            signature: hex_bytes(self.signature@),
        }
    }

    /// Whether this is the exchanged form of an attestation.
    pub open spec fn writes(self, value: Admission) -> bool {
        &&& self.node == value.node
        &&& self.slot == value.slot
        &&& self.sequence == value.sequence
        &&& self.principal_digest@ == hex_text(value.principal_digest)
        &&& self.ticket_id@ == hex_text(value.ticket_id)
        &&& self.claim_digest@ == hex_text(value.claim_digest)
        &&& self.batch_digest@ == hex_text(value.batch_digest)
        &&& self.order_digest@ == hex_text(value.order_digest)
        &&& self.signature@ == hex_text(value.signature)
    }

    fn from_value(value: &NodeAdmissionAttestation) -> (wire: WireAdmissionAttestation)
        ensures
            wire.writes(value@),
    {
        WireAdmissionAttestation {
            node: value.node,
            slot: value.slot,
            sequence: value.sequence,
            principal_digest: hex_encode(value.principal_digest.as_slice()),
            ticket_id: hex_encode(value.ticket_id.as_slice()),
            claim_digest: hex_encode(value.claim_digest.as_slice()),
            batch_digest: hex_encode(value.batch_digest.as_slice()),
            order_digest: hex_encode(value.order_digest.as_slice()),
            signature: hex_encode(value.signature.bytes.as_slice()),
        }
    }

    fn into_value<J: Fn(&Vec<u8>) -> Result<(), String>>(&self, width: usize, accepts: &J) -> (r: Result<
        NodeAdmissionAttestation,
        String,
    >)
        requires
            judges(*accepts),
        ensures
            match r {
                Ok(value) => self.refusal(width as nat, *accepts) is None && value@ == self.admission(),
                Err(e) => self.refusal(width as nat, *accepts) == Some(e@),
            },
    {
        let principal_digest = match parse32(self.principal_digest.as_str(), "admission principal") {
            Err(e) => {
                return Err(e);
            },
            Ok(v) => v,
        };
        let ticket_id = match parse32(self.ticket_id.as_str(), "admission ticket") {
            Err(e) => {
                return Err(e);
            },
            Ok(v) => v,
        };
        let claim_digest = match parse32(self.claim_digest.as_str(), "admission claim") {
            Err(e) => {
                return Err(e);
            },
            Ok(v) => v,
        };
        let batch_digest = match parse32(self.batch_digest.as_str(), "admission batch") {
            Err(e) => {
                return Err(e);
            },
            Ok(v) => v,
        };
        let order_digest = match parse32(self.order_digest.as_str(), "admission order") {
            Err(e) => {
                return Err(e);
            },
            Ok(v) => v,
        };
        let raw = match parse_signature(self.signature.as_str(), "admission signature", width, accepts) {
            Err(e) => {
                return Err(e);
            },
            Ok(v) => v,
        };
        let value = NodeAdmissionAttestation {
            node: self.node,
            slot: self.slot,
            sequence: self.sequence,
            principal_digest,
            ticket_id,
            claim_digest,
            batch_digest,
            order_digest,
            signature: Signature { bytes: raw },
        };
        match value.unsigned() {
            Err(e) => Err(e),
            Ok(_) => Ok(value),
        }
    }
}

/// Whether a lane is certified as this one.
pub open spec fn lane_certified<V: Fn(&VerifyingKey, &Vec<u8>, &Signature) -> bool>(
    verify: V,
    lane: Seq<NodeAdmissionAttestation>,
    keys: Seq<VerifyingKey>,
    certified: AdmissionLane,
) -> bool {
    let sorted = admissions_by_node(admissions(lane));
    &&& lane.len() == COMMITTEE_NODES
    &&& keys.len() == COMMITTEE_NODES
    &&& admissions_authentic(verify, sorted, keys)
    &&& admission_lane(sorted) == Ok::<AdmissionLane, Seq<char>>(certified)
}

/// Whether a lane is refused in these words.
pub open spec fn lane_not_certified<V: Fn(&VerifyingKey, &Vec<u8>, &Signature) -> bool>(
    verify: V,
    lane: Seq<NodeAdmissionAttestation>,
    keys: Seq<VerifyingKey>,
    e: Seq<char>,
) -> bool {
    let sorted = admissions_by_node(admissions(lane));
    if lane.len() != COMMITTEE_NODES || keys.len() != COMMITTEE_NODES {
        e == "admission lane needs exactly seven attestations and trusted keys"@
    } else {
        ||| admissions_refused(verify, sorted, keys) && e
            == "admission lane contains an unknown, duplicate, or invalid node"@
        ||| admissions_authentic(verify, sorted, keys) && admission_lane(sorted) == Err::<AdmissionLane, Seq<char>>(e)
    }
}

/// Whether lanes are numbered from one on, without a gap and each once.
pub open spec fn complete_sequences(lanes: Seq<AdmissionLane>) -> bool {
    &&& forall|i: int| 0 <= i < lanes.len() ==> 1 <= (#[trigger] lanes[i]).sequence <= lanes.len()
    &&& forall|i: int, j: int|
        0 <= i < j < lanes.len() ==> (#[trigger] lanes[i]).sequence != (#[trigger] lanes[j]).sequence
}

/// What certified lanes say.
pub open spec fn certified_said(lanes: Seq<CertifiedAdmissionLane>) -> Seq<AdmissionLane> {
    lanes.map_values(|l: CertifiedAdmissionLane| l@)
}

/// Whether the first lanes are certified so.
pub open spec fn lanes_certified<V: Fn(&VerifyingKey, &Vec<u8>, &Signature) -> bool>(
    verify: V,
    lanes: Seq<Vec<NodeAdmissionAttestation>>,
    keys: Seq<VerifyingKey>,
    certified: Seq<AdmissionLane>,
) -> bool {
    &&& certified.len() <= lanes.len()
    &&& forall|i: int| 0 <= i < certified.len() ==> lane_certified(verify, lanes[i]@, keys, #[trigger] certified[i])
}

/// The keys of the nodes.
pub open spec fn keys_of(raw: Seq<[u8; 32]>) -> Seq<VerifyingKey> {
    raw.map_values(|bytes: [u8; 32]| VerifyingKey { bytes })
}

impl PretradeAdmission {
    /// Why the admissions are refused, before their lanes are looked at, where
    /// `known` tells the keys that exist.
    pub open spec fn refusal<K: Fn(&Vec<u8>) -> bool>(self, known: K) -> Option<Seq<char>> {
        either(
            unless(
                self.epoch > 0 && self.node_keys@.len() == COMMITTEE_NODES && 0 < self.lanes@.len() <= MAX_AUTHORITIES,
                "pre-trade admission population is invalid"@,
            ),
            unless(
                forall|i: int| 0 <= i < self.node_keys@.len() ==> yes(known, (#[trigger] self.node_keys@[i])@),
                "pre-trade admission key is malformed"@,
            ),
        )
    }

    /// Whether the admissions are whole: every lane is certified, and they are
    /// numbered from one on.
    pub open spec fn whole<K: Fn(&Vec<u8>) -> bool, V: Fn(&VerifyingKey, &Vec<u8>, &Signature) -> bool>(
        self,
        known: K,
        verify: V,
    ) -> bool {
        &&& self.refusal(known) is None
        &&& exists|certified: Seq<AdmissionLane>| #[trigger]
            lanes_certified(verify, self.lanes@, keys_of(self.node_keys@), certified) && certified.len()
                == self.lanes@.len() && complete_sequences(certified)
    }

    /// Whether the admissions are refused in these words.
    pub open spec fn refused<K: Fn(&Vec<u8>) -> bool, V: Fn(&VerifyingKey, &Vec<u8>, &Signature) -> bool>(
        self,
        known: K,
        verify: V,
        e: Seq<char>,
    ) -> bool {
        ||| self.refusal(known) == Some(e)
        ||| {
            &&& self.refusal(known) is None
            &&& exists|certified: Seq<AdmissionLane>| #[trigger]
                lanes_certified(verify, self.lanes@, keys_of(self.node_keys@), certified) && if certified.len()
                    < self.lanes@.len() {
                    lane_not_certified(verify, self.lanes@[certified.len() as int]@, keys_of(self.node_keys@), e)
                } else {
                    !complete_sequences(certified) && e == "pre-trade admission lanes are incomplete or reordered"@
                }
        }
    }
}

fn check_sequences(lanes: &Vec<CertifiedAdmissionLane>) -> (r: bool)
    ensures
        r == complete_sequences(certified_said(lanes@)),
{
    let ghost all = certified_said(lanes@);
    let mut i: usize = 0;
    while i < lanes.len()
        invariant
            i <= lanes@.len(),
            all == certified_said(lanes@),
            forall|k: int| 0 <= k < i ==> 1 <= (#[trigger] all[k]).sequence <= all.len(),
            forall|k: int, m: int| 0 <= k < m < i ==> (#[trigger] all[k]).sequence != (#[trigger] all[m]).sequence,
        decreases lanes@.len() - i,
    {
        let sequence: u64 = lanes[i].sequence;
        assert(all[i as int].sequence == sequence);
        if sequence == 0 || sequence > lanes.len() as u64 {
            assert(!complete_sequences(all));
            return false;
        }
        let mut j: usize = 0;
        while j < i
            invariant
                j <= i < lanes@.len(),
                all == certified_said(lanes@),
                all[i as int].sequence == sequence,
                forall|k: int| 0 <= k < j ==> (#[trigger] all[k]).sequence != sequence,
            decreases i - j,
        {
            assert(all[j as int].sequence == lanes@[j as int].sequence);
            if lanes[j].sequence == sequence {
                assert(!complete_sequences(all));
                return false;
            }
            j = j + 1;
        }
        i = i + 1;
    }
    true
}

/// Certifies the admissions of a slot: every lane holds, and the lanes are
/// numbered from one on without a gap.
#[verifier::loop_isolation(false)]
pub fn check_admission<K: Fn(&Vec<u8>) -> bool, V: Fn(&VerifyingKey, &Vec<u8>, &Signature) -> bool>(
    value: &PretradeAdmission,
    known: &K,
    verify: &V,
) -> (r: Result<(), String>)
    requires
        decides(*known),
        can_verify(*verify),
    ensures
        match r {
            Ok(_) => value.whole(*known, *verify),
            Err(e) => value.refused(*known, *verify, e@),
        },
{
    if value.epoch == 0 || value.node_keys.len() != COMMITTEE_NODES || value.lanes.len() == 0 || value.lanes.len()
        > MAX_AUTHORITIES {
        return Err("pre-trade admission population is invalid".to_owned());
    }
    let mut keys: Vec<VerifyingKey> = Vec::new();
    let mut i: usize = 0;
    while i < value.node_keys.len()
        invariant
            i <= value.node_keys@.len(),
            keys@.len() == i,
            forall|j: int| 0 <= j < i ==> #[trigger] keys@[j] == (VerifyingKey { bytes: value.node_keys@[j] }),
            forall|j: int| 0 <= j < i ==> yes(*known, (#[trigger] value.node_keys@[j])@),
        decreases value.node_keys@.len() - i,
    {
        let raw = copied(value.node_keys[i].as_slice());
        if !ask(known, &raw) {
            assert(!yes(*known, value.node_keys@[i as int]@));
            return Err("pre-trade admission key is malformed".to_owned());
        }
        keys.push(VerifyingKey { bytes: value.node_keys[i] });
        i = i + 1;
    }
    let ghost nodes = keys_of(value.node_keys@);
    assert(keys@ =~= nodes);
    let mut certified: Vec<CertifiedAdmissionLane> = Vec::new();
    let mut k: usize = 0;
    while k < value.lanes.len()
        invariant
            k <= value.lanes@.len(),
            certified@.len() == k,
            keys@ == nodes,
            forall|j: int|
                #![trigger certified@[j]]
                0 <= j < k ==> lane_certified(*verify, value.lanes@[j]@, nodes, certified@[j]@),
        decreases value.lanes@.len() - k,
    {
        let lane = &value.lanes[k];
        match verify_admission_lane(lane.as_slice(), keys.as_slice(), verify) {
            Err(e) => {
                proof {
                    let done = certified_said(certified@);
                    assert forall|j: int| 0 <= j < done.len() implies lane_certified(
                        *verify,
                        value.lanes@[j]@,
                        nodes,
                        #[trigger] done[j],
                    ) by {
                        assert(done[j] == certified@[j]@);
                    }
                    assert(lanes_certified(*verify, value.lanes@, nodes, done));
                    assert(lane_not_certified(*verify, value.lanes@[done.len() as int]@, nodes, e@));
                }
                return Err(e);
            },
            Ok(done) => {
                certified.push(done);
            },
        }
        k = k + 1;
    }
    proof {
        let done = certified_said(certified@);
        assert forall|j: int| 0 <= j < done.len() implies lane_certified(
            *verify,
            value.lanes@[j]@,
            nodes,
            #[trigger] done[j],
        ) by {
            assert(done[j] == certified@[j]@);
        }
        assert(lanes_certified(*verify, value.lanes@, nodes, done));
    }
    if !check_sequences(&certified) {
        return Err("pre-trade admission lanes are incomplete or reordered".to_owned());
    }
    Ok(())
}

impl WireAdmission {
    /// Whether this is the exchanged form of the admissions of a slot.
    pub open spec fn writes(self, value: PretradeAdmission) -> bool {
        &&& self.epoch == value.epoch
        &&& self.node_keys@.len() == value.node_keys@.len()
        &&& forall|i: int|
            0 <= i < self.node_keys@.len() ==> (#[trigger] self.node_keys@[i])@ == hex_text(value.node_keys@[i]@)
        &&& self.lanes@.len() == value.lanes@.len()
        &&& forall|i: int| 0 <= i < self.lanes@.len() ==> lane_writes(#[trigger] self.lanes@[i]@, value.lanes@[i]@)
    }

    /// Whether admissions of a slot are those that are exchanged.
    pub open spec fn says(self, value: PretradeAdmission) -> bool {
        &&& self.epoch == value.epoch
        &&& self.node_keys@.len() == value.node_keys@.len()
        &&& forall|i: int|
            0 <= i < value.node_keys@.len() ==> (#[trigger] value.node_keys@[i])@ == hex_bytes(self.node_keys@[i]@)
        &&& self.lanes@.len() == value.lanes@.len()
        &&& forall|i: int| 0 <= i < value.lanes@.len() ==> lane_says(self.lanes@[i]@, #[trigger] value.lanes@[i]@)
    }

    /// Why the texts of exchanged admissions are refused.
    pub open spec fn refusal<J: Fn(&Vec<u8>) -> Result<(), String>>(self, width: nat, accepts: J) -> Option<Seq<char>> {
        either(
            first(self.node_keys@, |t: String| hex_text_refusal(t@, "admission node key"@)),
            first(self.lanes@, |lane: Vec<WireAdmissionAttestation>| lane_refusal(lane@, width, accepts)),
        )
    }
}

/// Why the texts of a lane are refused.
pub open spec fn lane_refusal<J: Fn(&Vec<u8>) -> Result<(), String>>(
    lane: Seq<WireAdmissionAttestation>,
    width: nat,
    accepts: J,
) -> Option<Seq<char>> {
    first(lane, |entry: WireAdmissionAttestation| entry.refusal(width, accepts))
}

/// Whether a lane is written so.
pub open spec fn lane_writes(wire: Seq<WireAdmissionAttestation>, lane: Seq<NodeAdmissionAttestation>) -> bool {
    &&& wire.len() == lane.len()
    &&& forall|i: int| 0 <= i < wire.len() ==> (#[trigger] wire[i]).writes(lane[i]@)
}

/// Whether a lane is the one that is exchanged.
pub open spec fn lane_says(wire: Seq<WireAdmissionAttestation>, lane: Seq<NodeAdmissionAttestation>) -> bool {
    &&& wire.len() == lane.len()
    &&& forall|i: int| 0 <= i < lane.len() ==> (#[trigger] lane[i])@ == wire[i].admission()
}

fn write_lane(lane: &Vec<NodeAdmissionAttestation>) -> (wire: Vec<WireAdmissionAttestation>)
    ensures
        lane_writes(wire@, lane@),
{
    let mut wire: Vec<WireAdmissionAttestation> = Vec::new();
    let mut i: usize = 0;
    while i < lane.len()
        invariant
            i <= lane@.len(),
            wire@.len() == i,
            forall|j: int| 0 <= j < i ==> (#[trigger] wire@[j]).writes(lane@[j]@),
        decreases lane@.len() - i,
    {
        wire.push(WireAdmissionAttestation::from_value(&lane[i]));
        i = i + 1;
    }
    wire
}

#[verifier::loop_isolation(false)]
fn read_lane<J: Fn(&Vec<u8>) -> Result<(), String>>(
    wire: &Vec<WireAdmissionAttestation>,
    width: usize,
    accepts: &J,
) -> (r: Result<Vec<NodeAdmissionAttestation>, String>)
    requires
        judges(*accepts),
    ensures
        match r {
            Ok(lane) => lane_refusal(wire@, width as nat, *accepts) is None && lane_says(wire@, lane@),
            Err(e) => lane_refusal(wire@, width as nat, *accepts) == Some(e@),
        },
{
    let ghost check = |entry: WireAdmissionAttestation| entry.refusal(width as nat, *accepts);
    let mut lane: Vec<NodeAdmissionAttestation> = Vec::new();
    let mut i: usize = 0;
    while i < wire.len()
        invariant
            i <= wire@.len(),
            lane@.len() == i,
            first(wire@.take(i as int), check) is None,
            forall|j: int| 0 <= j < i ==> (#[trigger] lane@[j])@ == wire@[j].admission(),
        decreases wire@.len() - i,
    {
        proof {
            first_at(wire@, check, i as int);
        }
        match wire[i].into_value(width, accepts) {
            Err(e) => {
                return Err(e);
            },
            Ok(value) => {
                lane.push(value);
            },
        }
        i = i + 1;
    }
    assert(wire@.take(i as int) =~= wire@);
    Ok(lane)
}

/// The exchanged form of the admissions of a slot.
#[verifier::loop_isolation(false)]
pub fn admission_wire<K: Fn(&Vec<u8>) -> bool, V: Fn(&VerifyingKey, &Vec<u8>, &Signature) -> bool>(
    value: &PretradeAdmission,
    known: &K,
    verify: &V,
) -> (r: Result<WireAdmission, String>)
    requires
        decides(*known),
        can_verify(*verify),
    ensures
        match r {
            Ok(wire) => value.whole(*known, *verify) && wire.writes(*value),
            Err(e) => value.refused(*known, *verify, e@),
        },
{
    if let Err(e) = check_admission(value, known, verify) {
        return Err(e);
    }
    let mut node_keys: Vec<String> = Vec::new();
    let mut i: usize = 0;
    while i < value.node_keys.len()
        invariant
            i <= value.node_keys@.len(),
            node_keys@.len() == i,
            forall|j: int| 0 <= j < i ==> (#[trigger] node_keys@[j])@ == hex_text(value.node_keys@[j]@),
        decreases value.node_keys@.len() - i,
    {
        node_keys.push(hex_encode(value.node_keys[i].as_slice()));
        i = i + 1;
    }
    let mut lanes: Vec<Vec<WireAdmissionAttestation>> = Vec::new();
    let mut k: usize = 0;
    while k < value.lanes.len()
        invariant
            k <= value.lanes@.len(),
            lanes@.len() == k,
            forall|j: int| 0 <= j < k ==> lane_writes(#[trigger] lanes@[j]@, value.lanes@[j]@),
        decreases value.lanes@.len() - k,
    {
        lanes.push(write_lane(&value.lanes[k]));
        k = k + 1;
    }
    Ok(WireAdmission { epoch: value.epoch, node_keys, lanes })
}

/// Whether exchanged admissions are read as these.
pub open spec fn admission_read<
    J: Fn(&Vec<u8>) -> Result<(), String>,
    K: Fn(&Vec<u8>) -> bool,
    V: Fn(&VerifyingKey, &Vec<u8>, &Signature) -> bool,
>(wire: WireAdmission, value: PretradeAdmission, width: nat, accepts: J, known: K, verify: V) -> bool {
    wire.refusal(width, accepts) is None && wire.says(value) && value.whole(known, verify)
}

/// Whether exchanged admissions are refused in these words.
pub open spec fn admission_unread<
    J: Fn(&Vec<u8>) -> Result<(), String>,
    K: Fn(&Vec<u8>) -> bool,
    V: Fn(&VerifyingKey, &Vec<u8>, &Signature) -> bool,
>(wire: WireAdmission, width: nat, accepts: J, known: K, verify: V, e: Seq<char>) -> bool {
    ||| wire.refusal(width, accepts) == Some(e)
    ||| {
        &&& wire.refusal(width, accepts) is None
        &&& exists|value: PretradeAdmission| #[trigger] wire.says(value) && value.refused(known, verify, e)
    }
}

/// Reads the exchanged admissions of a slot. Signature envelopes are `width` bytes.
#[verifier::loop_isolation(false)]
pub fn admission_from_wire<
    J: Fn(&Vec<u8>) -> Result<(), String>,
    K: Fn(&Vec<u8>) -> bool,
    V: Fn(&VerifyingKey, &Vec<u8>, &Signature) -> bool,
>(wire: &WireAdmission, width: usize, accepts: &J, known: &K, verify: &V) -> (r: Result<PretradeAdmission, String>)
    requires
        judges(*accepts),
        decides(*known),
        can_verify(*verify),
    ensures
        match r {
            Ok(value) => admission_read(*wire, value, width as nat, *accepts, *known, *verify),
            Err(e) => admission_unread(*wire, width as nat, *accepts, *known, *verify, e@),
        },
{
    let ghost check = |t: String| hex_text_refusal(t@, "admission node key"@);
    let mut node_keys: Vec<[u8; 32]> = Vec::new();
    let mut i: usize = 0;
    while i < wire.node_keys.len()
        invariant
            i <= wire.node_keys@.len(),
            node_keys@.len() == i,
            first(wire.node_keys@.take(i as int), check) is None,
            forall|j: int| 0 <= j < i ==> (#[trigger] node_keys@[j])@ == hex_bytes(wire.node_keys@[j]@),
        decreases wire.node_keys@.len() - i,
    {
        proof {
            first_at(wire.node_keys@, check, i as int);
        }
        match parse32(wire.node_keys[i].as_str(), "admission node key") {
            Err(e) => {
                return Err(e);
            },
            Ok(bytes) => {
                node_keys.push(bytes);
            },
        }
        i = i + 1;
    }
    assert(wire.node_keys@.take(i as int) =~= wire.node_keys@);
    let ghost lane_check = |lane: Vec<WireAdmissionAttestation>| lane_refusal(lane@, width as nat, *accepts);
    let mut lanes: Vec<Vec<NodeAdmissionAttestation>> = Vec::new();
    let mut k: usize = 0;
    while k < wire.lanes.len()
        invariant
            k <= wire.lanes@.len(),
            lanes@.len() == k,
            first(wire.lanes@.take(k as int), lane_check) is None,
            forall|j: int| 0 <= j < k ==> lane_says(wire.lanes@[j]@, #[trigger] lanes@[j]@),
        decreases wire.lanes@.len() - k,
    {
        proof {
            first_at(wire.lanes@, lane_check, k as int);
        }
        match read_lane(&wire.lanes[k], width, accepts) {
            Err(e) => {
                return Err(e);
            },
            Ok(lane) => {
                lanes.push(lane);
            },
        }
        k = k + 1;
    }
    assert(wire.lanes@.take(k as int) =~= wire.lanes@);
    let value = PretradeAdmission { epoch: wire.epoch, node_keys, lanes };
    assert(wire.says(value));
    match check_admission(&value, known, verify) {
        Err(e) => Err(e),
        Ok(_) => Ok(value),
    }
}

} // verus!
