//! Content-independent admission and ordering for one fixed market slot.

use vstd::prelude::*;
use crate::application_crypto::{
    answers, can_sign, can_verify, check_signature, make_signature, signs, Signature, SigningKey, VerifyingKey,
};
use crate::bytes::{
    array32, ascii_width, be_bytes, be_bytes_of_be_value, be_bytes_width, be_value, be_value_of_be_bytes, be_widths,
    is_zero32, joined, joined_layout, joined_of_split, joined_step, part, part_of_part, put, put_be, read_be, same,
    same32, split, text_bytes, zero32,
};
use crate::digest::{hash, sha256};
use crate::sorting::{
    identity_order, is_permutation, is_stable_order, order_of, permutation_covers, rearranged,
    sorted_ignores_list_order, stable_order, stable_order_exists,
};
use vstd::arithmetic::power::pow;

verus! {

/// How many resident nodes make a committee.
pub const COMMITTEE_NODES: usize = 7;

/// The largest number that the durable record can hold.
pub const DURABLE_MAX: u64 = 0x7fff_ffff_ffff_ffff;

/// The signed text of a quote-proof identifier.
pub open spec fn quote_proof_job_message(cluster_digest: Seq<u8>, lane: nat) -> Seq<u8> {
    text_bytes("QOMM:LIVE-QUOTE-PROOF:v1"@) + cluster_digest + be_bytes(lane, 8)
}

/// Canonical quote-proof identifier for a lane in one seven-node batch.
pub fn quote_proof_job_digest(cluster_digest: [u8; 32], lane: usize) -> (r: Result<[u8; 32], String>)
    ensures
        r is Ok <==> cluster_digest@ != zero32() && lane <= 4095,
        r matches Ok(digest) ==> digest@ == sha256(quote_proof_job_message(cluster_digest@, lane as nat)),
        r matches Err(e) ==> e@ == "quote proof job is outside its cluster or lane bound"@,
{
    if is_zero32(&cluster_digest) || lane > 4095 {
        return Err("quote proof job is outside its cluster or lane bound".to_owned());
    }
    let mut message: Vec<u8> = Vec::new();
    put(&mut message, "QOMM:LIVE-QUOTE-PROOF:v1".as_bytes());
    put(&mut message, cluster_digest.as_slice());
    put_be(&mut message, lane as u64, 8);
    assert(message@ =~= quote_proof_job_message(cluster_digest@, lane as nat));
    Ok(hash(message.as_slice()))
}

/// The signed text of a proof-party job identifier.
pub open spec fn live_proof_job_message(slot: nat, lane: nat, quote_digest: Seq<u8>) -> Seq<u8> {
    text_bytes("QOMM:LIVE-PROOF-JOB:v1"@) + be_bytes(slot, 4) + be_bytes(lane, 8) + quote_digest
}

/// Identifier persisted independently by each proof party. It binds the
/// proof transcript to the closed slot, its lane, and the quote proof digest.
pub fn live_proof_job_id(slot: u32, lane: usize, quote_digest: [u8; 32]) -> (r: Result<[u8; 32], String>)
    ensures
        r is Ok <==> quote_digest@ != zero32() && lane <= 4095,
        r matches Ok(id) ==> id@ == sha256(live_proof_job_message(slot as nat, lane as nat, quote_digest@)),
        r matches Err(e) ==> e@ == "live proof job is outside its quote or lane bound"@,
{
    if is_zero32(&quote_digest) || lane > 4095 {
        return Err("live proof job is outside its quote or lane bound".to_owned());
    }
    let mut message: Vec<u8> = Vec::new();
    put(&mut message, "QOMM:LIVE-PROOF-JOB:v1".as_bytes());
    put_be(&mut message, slot as u64, 4);
    put_be(&mut message, lane as u64, 8);
    put(&mut message, quote_digest.as_slice());
    assert(message@ =~= live_proof_job_message(slot as nat, lane as nat, quote_digest@));
    Ok(hash(message.as_slice()))
}

/// The hashed text of a complete-quote transcript context.
pub open spec fn complete_quote_message(job_id: Seq<u8>, request_context: Seq<u8>) -> Seq<u8> {
    text_bytes("QOMM:LIVE:COMPLETE-QUOTE-CONTEXT:v1"@) + job_id + request_context
}

/// Public transcript context recomputed by both proof nodes and validators
/// after the signed execution-receipt lane has been verified.
pub fn complete_quote_context(job_id: [u8; 32], request_context: [u8; 32]) -> (context: [u8; 32])
    ensures
        context@ == sha256(complete_quote_message(job_id@, request_context@)),
{
    let mut message: Vec<u8> = Vec::new();
    put(&mut message, "QOMM:LIVE:COMPLETE-QUOTE-CONTEXT:v1".as_bytes());
    put(&mut message, job_id.as_slice());
    put(&mut message, request_context.as_slice());
    assert(message@ =~= complete_quote_message(job_id@, request_context@));
    hash(message.as_slice())
}

/// One resident node's signed statement that a legal-entity principal
/// submitted a particular pre-trade mandate commitment in a fixed slot.
///
/// `claim_digest` is opaque to the node. For a real request it is the digest of
/// the taker's already-signed execution mandate; cover traffic uses an equally
/// sized random digest. The statement is produced only after the slot closes,
/// so a coordinator cannot replace the mandate after seeing the quote.
#[derive(Clone, Debug)]
pub struct NodeAdmissionAttestation {
    pub node: u16,
    pub slot: u64,
    pub sequence: u64,
    pub principal_digest: [u8; 32],
    pub ticket_id: [u8; 32],
    pub claim_digest: [u8; 32],
    pub batch_digest: [u8; 32],
    pub order_digest: [u8; 32],
    pub signature: Signature,
}

/// What a node admission attestation says.
pub ghost struct Admission {
    pub node: nat,
    pub slot: nat,
    pub sequence: nat,
    pub principal_digest: Seq<u8>,
    pub ticket_id: Seq<u8>,
    pub claim_digest: Seq<u8>,
    pub batch_digest: Seq<u8>,
    pub order_digest: Seq<u8>,
    pub signature: Seq<u8>,
}

impl View for NodeAdmissionAttestation {
    type V = Admission;

    open spec fn view(&self) -> Admission {
        Admission {
            node: self.node as nat,
            slot: self.slot as nat,
            sequence: self.sequence as nat,
            principal_digest: self.principal_digest@,
            ticket_id: self.ticket_id@,
            claim_digest: self.claim_digest@,
            batch_digest: self.batch_digest@,
            order_digest: self.order_digest@,
            signature: self.signature@,
        }
    }
}

impl Admission {
    /// Every digest is present and every number in range.
    pub open spec fn complete(self) -> bool {
        &&& self.node < COMMITTEE_NODES
        &&& 0 < self.sequence <= DURABLE_MAX
        &&& self.slot <= DURABLE_MAX
        &&& self.principal_digest != zero32()
        &&& self.ticket_id != zero32()
        &&& self.claim_digest != zero32()
        &&& self.batch_digest != zero32()
        &&& self.order_digest != zero32()
    }

    /// The five digests one after the other.
    pub open spec fn digests(self) -> Seq<u8> {
        self.principal_digest + self.ticket_id + self.claim_digest + self.batch_digest + self.order_digest
    }

    /// The fixed-width fields one after the other, without the signature.
    pub open spec fn fields(self) -> Seq<u8> {
        be_bytes(self.node, 2) + be_bytes(self.slot, 8) + be_bytes(self.sequence, 8) + self.principal_digest
            + self.ticket_id + self.claim_digest + self.batch_digest + self.order_digest
    }

    /// The signed text.
    pub open spec fn body(self) -> Seq<u8> {
        text_bytes("QOMM:ORDER:NODE-ADMISSION:v2"@) + self.fields()
    }

    /// The wire record.
    pub open spec fn record(self) -> Seq<u8> {
        self.fields() + self.signature
    }

    /// The fields have the widths that the wire gives them.
    pub open spec fn sized(self, signature_bytes: nat) -> bool {
        &&& self.node <= u16::MAX
        &&& self.slot <= u64::MAX
        &&& self.sequence <= u64::MAX
        &&& self.principal_digest.len() == 32
        &&& self.ticket_id.len() == 32
        &&& self.claim_digest.len() == 32
        &&& self.batch_digest.len() == 32
        &&& self.order_digest.len() == 32
        &&& self.signature.len() == signature_bytes
    }

    /// What a wire record says.
    pub open spec fn read(record: Seq<u8>) -> Admission {
        Admission {
            node: be_value(record.subrange(0, 2)),
            slot: be_value(record.subrange(2, 10)),
            sequence: be_value(record.subrange(10, 18)),
            principal_digest: record.subrange(18, 50),
            ticket_id: record.subrange(50, 82),
            claim_digest: record.subrange(82, 114),
            batch_digest: record.subrange(114, 146),
            order_digest: record.subrange(146, 178),
            signature: record.subrange(178, record.len() as int),
        }
    }
}

impl NodeAdmissionAttestation {
    /// The text that the node signs.
    pub fn unsigned(&self) -> (r: Result<Vec<u8>, String>)
        ensures
            r is Ok <==> self@.complete(),
            r matches Ok(body) ==> body@ == self@.body(),
            r matches Err(e) ==> e@ == "node admission attestation is incomplete"@,
    {
        if self.node as usize >= COMMITTEE_NODES || self.sequence == 0 || self.sequence > DURABLE_MAX || self.slot
            > DURABLE_MAX || is_zero32(&self.principal_digest) || is_zero32(&self.ticket_id) || is_zero32(
            &self.claim_digest,
        ) || is_zero32(&self.batch_digest) || is_zero32(&self.order_digest) {
            return Err("node admission attestation is incomplete".to_owned());
        }
        let mut body: Vec<u8> = Vec::new();
        put(&mut body, "QOMM:ORDER:NODE-ADMISSION:v2".as_bytes());
        self.put_fields(&mut body);
        assert(body@ =~= self@.body());
        Ok(body)
    }

    fn put_fields(&self, out: &mut Vec<u8>)
        ensures
            final(out)@ == old(out)@ + self@.fields(),
    {
        put_be(out, self.node as u64, 2);
        put_be(out, self.slot, 8);
        put_be(out, self.sequence, 8);
        put(out, self.principal_digest.as_slice());
        put(out, self.ticket_id.as_slice());
        put(out, self.claim_digest.as_slice());
        put(out, self.batch_digest.as_slice());
        put(out, self.order_digest.as_slice());
        assert(out@ =~= old(out)@ + self@.fields());
    }

    /// Signs the attestation.
    pub fn sign<S: Fn(&SigningKey, &Vec<u8>) -> Result<Signature, String>>(
        self,
        key: &SigningKey,
        sign: &S,
    ) -> (r: Result<NodeAdmissionAttestation, String>)
        requires
            can_sign(*sign),
        ensures
            !self@.complete() ==> (r matches Err(e) && e@ == "node admission attestation is incomplete"@),
            self@.complete() ==> match r {
                Ok(signed) => {
                    &&& signed@ == Admission { signature: signed.signature@, ..self@ }
                    &&& signs(*sign, *key, self@.body(), Ok(signed.signature@))
                },
                Err(e) => signs(*sign, *key, self@.body(), Err(e@)),
            },
    {
        match self.unsigned() {
            Err(e) => Err(e),
            Ok(body) => match make_signature(sign, key, &body) {
                Err(e) => Err(e),
                Ok(signature) => Ok(NodeAdmissionAttestation { signature, ..self }),
            },
        }
    }

    /// Whether the attestation is complete and its signature authentic.
    pub fn verify<V: Fn(&VerifyingKey, &Vec<u8>, &Signature) -> bool>(
        &self,
        key: &VerifyingKey,
        verify: &V,
    ) -> (r: bool)
        requires
            can_verify(*verify),
        ensures
            r ==> self@.complete() && answers(*verify, *key, self@.body(), self.signature@, true),
            !r ==> !self@.complete() || answers(*verify, *key, self@.body(), self.signature@, false),
    {
        match self.unsigned() {
            Err(_) => false,
            Ok(body) => check_signature(verify, key, &body, &self.signature),
        }
    }
}

/// The wire records of a list.
pub open spec fn admission_records(values: Seq<Admission>) -> Seq<Seq<u8>> {
    values.map_values(|v: Admission| v.record())
}

/// The canonical wire of a list of admission attestations.
pub open spec fn admission_wire(values: Seq<Admission>) -> Seq<u8> {
    text_bytes("QOMM:ADMISSION-ATTESTATIONS:v2"@) + be_bytes(values.len(), 2) + joined(admission_records(values))
}

/// What a list of attestations says.
pub open spec fn admissions(values: Seq<NodeAdmissionAttestation>) -> Seq<Admission> {
    values.map_values(|v: NodeAdmissionAttestation| v@)
}

/// The node numbers of a list of attestations.
pub open spec fn admission_nodes(values: Seq<Admission>) -> Seq<int> {
    values.map_values(|v: Admission| v.node as int)
}

/// A list in increasing order of node.
pub open spec fn admissions_by_node(values: Seq<Admission>) -> Seq<Admission> {
    rearranged(values, order_of(admission_nodes(values)))
}

fn admission_order(values: &[NodeAdmissionAttestation]) -> (order: Vec<usize>)
    ensures
        is_stable_order(admission_nodes(admissions(values@)), order@),
        order@ == order_of(admission_nodes(admissions(values@))),
{
    let mut keys: Vec<u64> = Vec::new();
    let mut i: usize = 0;
    while i < values.len()
        invariant
            i <= values@.len(),
            keys@.len() == i,
            forall|j: int| 0 <= j < i ==> keys@[j] == values@[j].node,
        decreases values@.len() - i,
    {
        keys.push(values[i].node as u64);
        i = i + 1;
    }
    assert(keys@.map_values(|k: u64| k as int) =~= admission_nodes(admissions(values@)));
    stable_order(&keys)
}

/// Canonical fixed-width wire used to carry one complete seven-node admission
/// lane. It contains only digests and node signatures; the legal-entity
/// identifier and request fields are not serialized.
pub fn encode_admission_attestations(attestations: &[NodeAdmissionAttestation]) -> (r: Result<Vec<u8>, String>)
    ensures
        match r {
            Ok(out) => {
                &&& attestations@.len() == COMMITTEE_NODES
                &&& forall|i: int| 0 <= i < attestations@.len() ==> (#[trigger] attestations@[i])@.complete()
                &&& out@ == admission_wire(admissions_by_node(admissions(attestations@)))
            },
            Err(e) => if attestations@.len() != COMMITTEE_NODES {
                e@ == "admission attestation wire needs exactly seven nodes"@
            } else {
                &&& e@ == "node admission attestation is incomplete"@
                &&& exists|i: int| 0 <= i < attestations@.len() && !(#[trigger] attestations@[i])@.complete()
            },
        },
{
    if attestations.len() != COMMITTEE_NODES {
        return Err("admission attestation wire needs exactly seven nodes".to_owned());
    }
    let order = admission_order(attestations);
    let ghost all = admissions(attestations@);
    let ghost sorted = rearranged(all, order@);
    let mut out: Vec<u8> = Vec::new();
    put(&mut out, "QOMM:ADMISSION-ATTESTATIONS:v2".as_bytes());
    put_be(&mut out, attestations.len() as u64, 2);
    let ghost head = text_bytes("QOMM:ADMISSION-ATTESTATIONS:v2"@) + be_bytes(7, 2);
    let ghost records = admission_records(sorted);
    assert(out@ =~= head + joined(records.take(0)));
    let mut i: usize = 0;
    while i < order.len()
        invariant
            i <= order@.len(),
            order@.len() == attestations@.len(),
            attestations@.len() == COMMITTEE_NODES,
            all == admissions(attestations@),
            is_stable_order(admission_nodes(all), order@),
            sorted == rearranged(all, order@),
            records == admission_records(sorted),
            out@ == head + joined(records.take(i as int)),
            forall|j: int| 0 <= j < i ==> (#[trigger] sorted[j]).complete(),
        decreases order@.len() - i,
    {
        let value = &attestations[order[i]];
        match value.unsigned() {
            Err(e) => {
                assert(!attestations@[order@[i as int] as int]@.complete());
                return Err(e);
            },
            Ok(_) => {},
        }
        value.put_fields(&mut out);
        put(&mut out, value.signature.bytes.as_slice());
        proof {
            assert(sorted[i as int] == value@);
            joined_step(records, i as int);
            assert(out@ =~= head + joined(records.take(i as int + 1)));
        }
        i = i + 1;
    }
    proof {
        assert(records.take(i as int) =~= records);
        assert forall|k: int| 0 <= k < attestations@.len() implies (#[trigger] attestations@[k])@.complete() by {
            permutation_covers(order@, attestations@.len(), k);
            let p = choose|p: int| 0 <= p < attestations@.len() && order@[p] == k;
            assert(sorted[p] == all[k]);
        }
        assert(out@ =~= admission_wire(sorted));
    }
    Ok(out)
}


/// The width of an admission record.
pub open spec fn admission_record_bytes(signature_bytes: nat) -> nat {
    178 + signature_bytes
}

/// The record at a place of an admission wire.
pub open spec fn admission_at(raw: Seq<u8>, i: int, signature_bytes: nat) -> Admission {
    let width = admission_record_bytes(signature_bytes);
    Admission::read(raw.subrange(32 + i * width, 32 + (i + 1) * width))
}

/// What an admission wire says, or why it is refused.
pub open spec fn read_admissions(raw: Seq<u8>, signature_bytes: nat) -> Result<Seq<Admission>, Seq<char>> {
    let values = Seq::new(COMMITTEE_NODES as nat, |i: int| admission_at(raw, i, signature_bytes));
    if raw.len() < 32 || raw.subrange(0, 30) != text_bytes("QOMM:ADMISSION-ATTESTATIONS:v2"@) {
        Err("admission attestation wire has an invalid header"@)
    } else if be_value(raw.subrange(30, 32)) != COMMITTEE_NODES || raw.len() != 32 + COMMITTEE_NODES
        * admission_record_bytes(signature_bytes) {
        Err("admission attestation wire has the wrong population or length"@)
    } else if exists|i: int| 0 <= i < COMMITTEE_NODES && !(#[trigger] values[i]).complete() {
        Err("node admission attestation is incomplete"@)
    } else if exists|i: int| 0 <= i < COMMITTEE_NODES && (#[trigger] values[i]).node != i {
        Err("admission attestation wire is not in canonical node order"@)
    } else {
        Ok(values)
    }
}

proof fn admission_magic_width()
    ensures
        text_bytes("QOMM:ADMISSION-ATTESTATIONS:v2"@).len() == 30,
{
    reveal_strlit("QOMM:ADMISSION-ATTESTATIONS:v2");
    ascii_width("QOMM:ADMISSION-ATTESTATIONS:v2"@);
}

fn read_admission(raw: &[u8], at: usize, signature_bytes: usize) -> (value: NodeAdmissionAttestation)
    requires
        at + admission_record_bytes(signature_bytes as nat) <= raw@.len(),
    ensures
        value@ == Admission::read(raw@.subrange(at as int, at + admission_record_bytes(signature_bytes as nat))),
{
    let total: usize = raw.len();
    let ghost end = at + 178 + signature_bytes;
    proof {
        be_widths();
        be_bytes_of_be_value(raw@.subrange(at as int, at + 2));
        part_of_part(raw@, at as int, end, 0, 2);
        part_of_part(raw@, at as int, end, 2, 10);
        part_of_part(raw@, at as int, end, 10, 18);
        part_of_part(raw@, at as int, end, 18, 50);
        part_of_part(raw@, at as int, end, 50, 82);
        part_of_part(raw@, at as int, end, 82, 114);
        part_of_part(raw@, at as int, end, 114, 146);
        part_of_part(raw@, at as int, end, 146, 178);
        part_of_part(raw@, at as int, end, 178, 178 + signature_bytes);
    }
    NodeAdmissionAttestation {
        node: read_be(raw, at, 2) as u16,
        slot: read_be(raw, at + 2, 8),
        sequence: read_be(raw, at + 10, 8),
        principal_digest: array32(raw, at + 18),
        ticket_id: array32(raw, at + 50),
        claim_digest: array32(raw, at + 82),
        batch_digest: array32(raw, at + 114),
        order_digest: array32(raw, at + 146),
        signature: Signature { bytes: part(raw, at + 178, at + 178 + signature_bytes) },
    }
}

/// Reads one complete seven-node admission lane whose signature envelopes have
/// `signature_bytes` bytes each.
pub fn decode_admission_attestations(raw: &[u8], signature_bytes: usize) -> (r: Result<
    Vec<NodeAdmissionAttestation>,
    String,
>)
    ensures
        match r {
            Ok(values) => read_admissions(raw@, signature_bytes as nat) == Ok::<Seq<Admission>, Seq<char>>(
                admissions(values@),
            ),
            Err(e) => read_admissions(raw@, signature_bytes as nat) == Err::<Seq<Admission>, Seq<char>>(e@),
        },
{
    proof {
        admission_magic_width();
    }
    if raw.len() < 32 || !same(&raw[0..30], "QOMM:ADMISSION-ATTESTATIONS:v2".as_bytes()) {
        return Err("admission attestation wire has an invalid header".to_owned());
    }
    let count = read_be(raw, 30, 2);
    if count != COMMITTEE_NODES as u64 || (raw.len() - 32) % COMMITTEE_NODES != 0 || (raw.len() - 32) / COMMITTEE_NODES
        < 178 || (raw.len() - 32) / COMMITTEE_NODES - 178 != signature_bytes {
        return Err("admission attestation wire has the wrong population or length".to_owned());
    }
    let ghost width = admission_record_bytes(signature_bytes as nat);
    let ghost all = Seq::new(COMMITTEE_NODES as nat, |i: int| admission_at(raw@, i, signature_bytes as nat));
    let mut values: Vec<NodeAdmissionAttestation> = Vec::new();
    let total: usize = raw.len();
    let mut at: usize = 32;
    let mut i: usize = 0;
    while i < COMMITTEE_NODES
        invariant
            i <= COMMITTEE_NODES,
            total == raw@.len(),
            width == 178 + signature_bytes,
            width == admission_record_bytes(signature_bytes as nat),
            raw@.len() == 32 + 7 * width,
            at == 32 + i * width,
            all == Seq::new(COMMITTEE_NODES as nat, |i: int| admission_at(raw@, i, signature_bytes as nat)),
            values@.len() == i,
            forall|j: int| 0 <= j < i ==> (#[trigger] values@[j])@ == all[j],
            forall|j: int| 0 <= j < i ==> (#[trigger] all[j]).complete(),
            raw@.len() >= 32 && raw@.subrange(0, 30) == text_bytes("QOMM:ADMISSION-ATTESTATIONS:v2"@),
            be_value(raw@.subrange(30, 32)) == COMMITTEE_NODES,
        decreases COMMITTEE_NODES - i,
    {
        assert((i + 1) * width == i * width + width) by (nonlinear_arith);
        assert((i + 1) * width <= 7 * width) by (nonlinear_arith)
            requires
                i < 7,
        ;
        let value = read_admission(raw, at, signature_bytes);
        assert(value@ == all[i as int]);
        match value.unsigned() {
            Err(e) => {
                return Err(e);
            },
            Ok(_) => {},
        }
        values.push(value);
        at = at + (178 + signature_bytes);
        i = i + 1;
    }
    assert(admissions(values@) =~= all);
    let mut k: usize = 0;
    while k < COMMITTEE_NODES
        invariant
            k <= COMMITTEE_NODES,
            raw@.len() == 32 + 7 * admission_record_bytes(signature_bytes as nat),
            values@.len() == COMMITTEE_NODES,
            all == Seq::new(COMMITTEE_NODES as nat, |i: int| admission_at(raw@, i, signature_bytes as nat)),
            forall|j: int| 0 <= j < COMMITTEE_NODES ==> (#[trigger] values@[j])@ == all[j],
            forall|j: int| 0 <= j < COMMITTEE_NODES ==> (#[trigger] all[j]).complete(),
            forall|j: int| 0 <= j < k ==> (#[trigger] all[j]).node == j,
            raw@.len() >= 32 && raw@.subrange(0, 30) == text_bytes("QOMM:ADMISSION-ATTESTATIONS:v2"@),
            be_value(raw@.subrange(30, 32)) == COMMITTEE_NODES,
        decreases COMMITTEE_NODES - k,
    {
        if values[k].node as usize != k {
            assert(all[k as int].node != k);
            return Err("admission attestation wire is not in canonical node order".to_owned());
        }
        k = k + 1;
    }
    Ok(values)
}

/// A record read back is what was written.
proof fn admission_record_round_trip(value: Admission, signature_bytes: nat)
    requires
        value.sized(signature_bytes),
    ensures
        value.record().len() == admission_record_bytes(signature_bytes),
        Admission::read(value.record()) == value,
{
    be_widths();
    be_bytes_width(value.node, 2);
    be_bytes_width(value.slot, 8);
    be_bytes_width(value.sequence, 8);
    be_value_of_be_bytes(value.node, 2);
    be_value_of_be_bytes(value.slot, 8);
    be_value_of_be_bytes(value.sequence, 8);
    let record = value.record();
    assert(record.subrange(0, 2) =~= be_bytes(value.node, 2));
    assert(record.subrange(2, 10) =~= be_bytes(value.slot, 8));
    assert(record.subrange(10, 18) =~= be_bytes(value.sequence, 8));
    assert(record.subrange(18, 50) =~= value.principal_digest);
    assert(record.subrange(50, 82) =~= value.ticket_id);
    assert(record.subrange(82, 114) =~= value.claim_digest);
    assert(record.subrange(114, 146) =~= value.batch_digest);
    assert(record.subrange(146, 178) =~= value.order_digest);
    assert(record.subrange(178, record.len() as int) =~= value.signature);
}

/// Every record of an admission wire stands in its place.
pub proof fn admission_wire_layout(values: Seq<Admission>, signature_bytes: nat)
    requires
        values.len() == COMMITTEE_NODES,
        forall|i: int| 0 <= i < values.len() ==> (#[trigger] values[i]).sized(signature_bytes),
    ensures
        admission_wire(values).len() == 32 + COMMITTEE_NODES * admission_record_bytes(signature_bytes),
        admission_wire(values).subrange(0, 30) == text_bytes("QOMM:ADMISSION-ATTESTATIONS:v2"@),
        be_value(admission_wire(values).subrange(30, 32)) == COMMITTEE_NODES,
        forall|i: int|
            0 <= i < COMMITTEE_NODES ==> admission_at(admission_wire(values), i, signature_bytes)
                == #[trigger] values[i],
{
    let raw = admission_wire(values);
    let width = admission_record_bytes(signature_bytes);
    let records = admission_records(values);
    admission_magic_width();
    be_widths();
    be_bytes_width(7, 2);
    be_value_of_be_bytes(7, 2);
    assert forall|i: int| 0 <= i < 7 implies (#[trigger] records[i]).len() == width by {
        assert(records[i] == values[i].record());
        admission_record_round_trip(values[i], signature_bytes);
    }
    joined_layout(records, width);
    assert(raw.subrange(0, 30) =~= text_bytes("QOMM:ADMISSION-ATTESTATIONS:v2"@));
    assert(raw.subrange(30, 32) =~= be_bytes(7, 2));
    assert forall|i: int| 0 <= i < COMMITTEE_NODES implies admission_at(raw, i, signature_bytes)
        == #[trigger] values[i] by {
        assert(0 <= i * width && (i + 1) * width == i * width + width && (i + 1) * width <= 7 * width)
            by (nonlinear_arith)
            requires
                0 <= i < 7,
        ;
        assert(raw.subrange(32 + i * width, 32 + (i + 1) * width) =~= joined(records).subrange(
            i * width,
            (i + 1) * width,
        ));
        assert(records[i] == values[i].record());
        admission_record_round_trip(values[i], signature_bytes);
    }
}

/// Reading the wire of a complete lane in node order gives the lane back.
pub proof fn admission_wire_round_trip(values: Seq<Admission>, signature_bytes: nat)
    requires
        values.len() == COMMITTEE_NODES,
        forall|i: int|
            0 <= i < values.len() ==> (#[trigger] values[i]).sized(signature_bytes) && values[i].complete()
                && values[i].node == i,
    ensures
        read_admissions(admission_wire(values), signature_bytes) == Ok::<Seq<Admission>, Seq<char>>(values),
{
    let raw = admission_wire(values);
    admission_wire_layout(values, signature_bytes);
    let read = Seq::new(COMMITTEE_NODES as nat, |i: int| admission_at(raw, i, signature_bytes));
    assert(read =~= values);
}

/// A record that was read is written back the same.
proof fn admission_record_is_canonical(record: Seq<u8>, signature_bytes: nat)
    requires
        record.len() == admission_record_bytes(signature_bytes),
    ensures
        Admission::read(record).record() == record,
        Admission::read(record).sized(signature_bytes),
{
    be_widths();
    be_bytes_of_be_value(record.subrange(0, 2));
    be_bytes_of_be_value(record.subrange(2, 10));
    be_bytes_of_be_value(record.subrange(10, 18));
    assert(Admission::read(record).record() =~= record);
}

/// A wire that is accepted is the only one that says what it says.
pub proof fn admission_wire_is_canonical(raw: Seq<u8>, signature_bytes: nat)
    requires
        read_admissions(raw, signature_bytes) is Ok,
    ensures
        admission_wire(read_admissions(raw, signature_bytes)->Ok_0) == raw,
{
    let values = read_admissions(raw, signature_bytes)->Ok_0;
    let width = admission_record_bytes(signature_bytes);
    let tail = raw.subrange(32, raw.len() as int);
    admission_magic_width();
    be_bytes_of_be_value(raw.subrange(30, 32));
    joined_of_split(tail, width, 7);
    assert forall|i: int| 0 <= i < 7 implies admission_records(values)[i] == #[trigger] split(tail, width, 7)[i] by {
        assert(0 <= i * width && (i + 1) * width == i * width + width && (i + 1) * width <= 7 * width)
            by (nonlinear_arith)
            requires
                0 <= i < 7,
        ;
        admission_record_is_canonical(raw.subrange(32 + i * width, 32 + (i + 1) * width), signature_bytes);
        part_of_part(raw, 32, raw.len() as int, i * width, (i + 1) * width);
    }
    assert(admission_records(values) =~= split(tail, width, 7));
    assert(admission_wire(values) =~= raw);
}

/// One resident node's signed public receipt for an approved computation run.
/// Digests bind the node-local stdout, stderr and proof persistence bytes;
/// secret shares, local paths and clear quote values never enter this record.
#[derive(Clone, Debug)]
pub struct NodeExecutionAttestation {
    pub node: u16,
    pub slot: u64,
    pub lane: u64,
    pub batch_digest: [u8; 32],
    pub source_digest: [u8; 32],
    pub state_generation: u64,
    pub frame_count: u64,
    pub input_count: u64,
    pub stdout_digest: [u8; 32],
    pub stderr_digest: [u8; 32],
    pub persistence_digest: [u8; 32],
    pub receipt_digest: [u8; 32],
    pub signature: Signature,
}

/// What a node execution attestation says.
pub ghost struct Execution {
    pub node: nat,
    pub slot: nat,
    pub lane: nat,
    pub batch_digest: Seq<u8>,
    pub source_digest: Seq<u8>,
    pub state_generation: nat,
    pub frame_count: nat,
    pub input_count: nat,
    pub stdout_digest: Seq<u8>,
    pub stderr_digest: Seq<u8>,
    pub persistence_digest: Seq<u8>,
    pub receipt_digest: Seq<u8>,
    pub signature: Seq<u8>,
}

impl View for NodeExecutionAttestation {
    type V = Execution;

    open spec fn view(&self) -> Execution {
        Execution {
            node: self.node as nat,
            slot: self.slot as nat,
            lane: self.lane as nat,
            batch_digest: self.batch_digest@,
            source_digest: self.source_digest@,
            state_generation: self.state_generation as nat,
            frame_count: self.frame_count as nat,
            input_count: self.input_count as nat,
            stdout_digest: self.stdout_digest@,
            stderr_digest: self.stderr_digest@,
            persistence_digest: self.persistence_digest@,
            receipt_digest: self.receipt_digest@,
            signature: self.signature@,
        }
    }
}

impl Execution {
    /// The hashed text of the receipt.
    pub open spec fn receipt_message(self) -> Seq<u8> {
        text_bytes("QOMM:MPC:EXECUTION-RECEIPT:v1"@) + be_bytes(self.node, 2) + be_bytes(self.slot, 4) + be_bytes(
            self.lane,
            8,
        ) + self.batch_digest + self.source_digest + be_bytes(self.state_generation, 8) + be_bytes(
            self.frame_count,
            8,
        ) + be_bytes(self.input_count, 8) + self.stdout_digest + self.stderr_digest + self.persistence_digest
    }

    /// Every number is in range and every digest present.
    pub open spec fn in_range(self) -> bool {
        &&& self.node < COMMITTEE_NODES
        &&& self.lane <= 4095
        &&& self.state_generation != 0
        &&& 1 <= self.frame_count <= 4096
        &&& 0 < self.input_count <= 1_000_000
        &&& self.batch_digest != zero32()
        &&& self.source_digest != zero32()
        &&& self.stdout_digest != zero32()
        &&& self.stderr_digest != zero32()
        &&& self.persistence_digest != zero32()
        &&& self.receipt_digest != zero32()
    }

    /// In range, with a slot that a computation can run in, and a receipt
    /// digest that is the digest of the receipt.
    pub open spec fn complete(self) -> bool {
        &&& self.in_range()
        &&& self.slot <= u32::MAX
        &&& self.receipt_digest == sha256(self.receipt_message())
    }

    /// Why an attestation that is not complete is refused.
    pub open spec fn refusal(self) -> Seq<char> {
        if self.in_range() && self.slot > u32::MAX {
            "execution receipt slot is outside the MPC range"@
        } else {
            "node execution attestation is incomplete or inconsistent"@
        }
    }

    /// The signed text.
    pub open spec fn body(self) -> Seq<u8> {
        text_bytes("QOMM:ORDER:NODE-EXECUTION:v2"@) + be_bytes(self.node, 2) + be_bytes(self.slot, 8) + be_bytes(
            self.lane,
            8,
        ) + self.batch_digest + self.source_digest + be_bytes(self.state_generation, 8) + be_bytes(
            self.frame_count,
            8,
        ) + be_bytes(self.input_count, 8) + self.stdout_digest + self.stderr_digest + self.persistence_digest
            + self.receipt_digest
    }

    /// The wire record.
    pub open spec fn record(self) -> Seq<u8> {
        be_bytes(self.node, 2) + be_bytes(self.slot, 8) + be_bytes(self.lane, 8) + self.batch_digest
            + self.source_digest + self.stdout_digest + self.stderr_digest + self.persistence_digest
            + self.receipt_digest + be_bytes(self.state_generation, 8) + be_bytes(self.frame_count, 8) + be_bytes(
            self.input_count,
            8,
        ) + self.signature
    }

    /// The fields have the widths that the wire gives them.
    pub open spec fn sized(self, signature_bytes: nat) -> bool {
        &&& self.node <= u16::MAX
        &&& self.slot <= u64::MAX
        &&& self.lane <= u64::MAX
        &&& self.state_generation <= u64::MAX
        &&& self.frame_count <= u64::MAX
        &&& self.input_count <= u64::MAX
        &&& self.batch_digest.len() == 32
        &&& self.source_digest.len() == 32
        &&& self.stdout_digest.len() == 32
        &&& self.stderr_digest.len() == 32
        &&& self.persistence_digest.len() == 32
        &&& self.receipt_digest.len() == 32
        &&& self.signature.len() == signature_bytes
    }

    /// What a wire record says.
    pub open spec fn read(record: Seq<u8>) -> Execution {
        Execution {
            node: be_value(record.subrange(0, 2)),
            slot: be_value(record.subrange(2, 10)),
            lane: be_value(record.subrange(10, 18)),
            batch_digest: record.subrange(18, 50),
            source_digest: record.subrange(50, 82),
            stdout_digest: record.subrange(82, 114),
            stderr_digest: record.subrange(114, 146),
            persistence_digest: record.subrange(146, 178),
            receipt_digest: record.subrange(178, 210),
            state_generation: be_value(record.subrange(210, 218)),
            frame_count: be_value(record.subrange(218, 226)),
            input_count: be_value(record.subrange(226, 234)),
            signature: record.subrange(234, record.len() as int),
        }
    }
}

impl NodeExecutionAttestation {
    /// The digest of the receipt that the other fields describe.
    pub fn recompute_receipt_digest(&self) -> (r: Result<[u8; 32], String>)
        ensures
            r is Ok <==> self.slot <= u32::MAX,
            r matches Ok(digest) ==> digest@ == sha256(self@.receipt_message()),
            r matches Err(e) ==> e@ == "execution receipt slot is outside the MPC range"@,
    {
        if self.slot > 0xffff_ffff {
            return Err("execution receipt slot is outside the MPC range".to_owned());
        }
        let mut message: Vec<u8> = Vec::new();
        put(&mut message, "QOMM:MPC:EXECUTION-RECEIPT:v1".as_bytes());
        put_be(&mut message, self.node as u64, 2);
        put_be(&mut message, self.slot, 4);
        put_be(&mut message, self.lane, 8);
        put(&mut message, self.batch_digest.as_slice());
        put(&mut message, self.source_digest.as_slice());
        put_be(&mut message, self.state_generation, 8);
        put_be(&mut message, self.frame_count, 8);
        put_be(&mut message, self.input_count, 8);
        put(&mut message, self.stdout_digest.as_slice());
        put(&mut message, self.stderr_digest.as_slice());
        put(&mut message, self.persistence_digest.as_slice());
        assert(message@ =~= self@.receipt_message());
        Ok(hash(message.as_slice()))
    }

    /// The text that the node signs.
    pub fn unsigned(&self) -> (r: Result<Vec<u8>, String>)
        ensures
            r is Ok <==> self@.complete(),
            r matches Ok(body) ==> body@ == self@.body(),
            r matches Err(e) ==> e@ == self@.refusal(),
    {
        if self.node as usize >= COMMITTEE_NODES || self.lane > 4095 || self.state_generation == 0 || self.frame_count
            < 1 || self.frame_count > 4096 || self.input_count == 0 || self.input_count > 1_000_000 || is_zero32(
            &self.batch_digest,
        ) || is_zero32(&self.source_digest) || is_zero32(&self.stdout_digest) || is_zero32(&self.stderr_digest)
            || is_zero32(&self.persistence_digest) || is_zero32(&self.receipt_digest) {
            return Err("node execution attestation is incomplete or inconsistent".to_owned());
        }
        match self.recompute_receipt_digest() {
            Err(e) => {
                return Err(e);
            },
            Ok(digest) => {
                if !same32(&digest, &self.receipt_digest) {
                    return Err("node execution attestation is incomplete or inconsistent".to_owned());
                }
            },
        }
        let mut body: Vec<u8> = Vec::new();
        put(&mut body, "QOMM:ORDER:NODE-EXECUTION:v2".as_bytes());
        put_be(&mut body, self.node as u64, 2);
        put_be(&mut body, self.slot, 8);
        put_be(&mut body, self.lane, 8);
        put(&mut body, self.batch_digest.as_slice());
        put(&mut body, self.source_digest.as_slice());
        put_be(&mut body, self.state_generation, 8);
        put_be(&mut body, self.frame_count, 8);
        put_be(&mut body, self.input_count, 8);
        put(&mut body, self.stdout_digest.as_slice());
        put(&mut body, self.stderr_digest.as_slice());
        put(&mut body, self.persistence_digest.as_slice());
        put(&mut body, self.receipt_digest.as_slice());
        assert(body@ =~= self@.body());
        Ok(body)
    }

    fn put_record(&self, out: &mut Vec<u8>)
        ensures
            final(out)@ == old(out)@ + self@.record(),
    {
        put_be(out, self.node as u64, 2);
        put_be(out, self.slot, 8);
        put_be(out, self.lane, 8);
        put(out, self.batch_digest.as_slice());
        put(out, self.source_digest.as_slice());
        put(out, self.stdout_digest.as_slice());
        put(out, self.stderr_digest.as_slice());
        put(out, self.persistence_digest.as_slice());
        put(out, self.receipt_digest.as_slice());
        put_be(out, self.state_generation, 8);
        put_be(out, self.frame_count, 8);
        put_be(out, self.input_count, 8);
        put(out, self.signature.bytes.as_slice());
        assert(out@ =~= old(out)@ + self@.record());
    }

    /// Signs the attestation.
    pub fn sign<S: Fn(&SigningKey, &Vec<u8>) -> Result<Signature, String>>(
        self,
        key: &SigningKey,
        sign: &S,
    ) -> (r: Result<NodeExecutionAttestation, String>)
        requires
            can_sign(*sign),
        ensures
            !self@.complete() ==> (r matches Err(e) && e@ == self@.refusal()),
            self@.complete() ==> match r {
                Ok(signed) => {
                    &&& signed@ == Execution { signature: signed.signature@, ..self@ }
                    &&& signs(*sign, *key, self@.body(), Ok(signed.signature@))
                },
                Err(e) => signs(*sign, *key, self@.body(), Err(e@)),
            },
    {
        match self.unsigned() {
            Err(e) => Err(e),
            Ok(body) => match make_signature(sign, key, &body) {
                Err(e) => Err(e),
                Ok(signature) => Ok(NodeExecutionAttestation { signature, ..self }),
            },
        }
    }

    /// Whether the attestation is complete and its signature authentic.
    pub fn verify<V: Fn(&VerifyingKey, &Vec<u8>, &Signature) -> bool>(
        &self,
        key: &VerifyingKey,
        verify: &V,
    ) -> (r: bool)
        requires
            can_verify(*verify),
        ensures
            r ==> self@.complete() && answers(*verify, *key, self@.body(), self.signature@, true),
            !r ==> !self@.complete() || answers(*verify, *key, self@.body(), self.signature@, false),
    {
        match self.unsigned() {
            Err(_) => false,
            Ok(body) => check_signature(verify, key, &body, &self.signature),
        }
    }
}

/// What a list of attestations says.
pub open spec fn executions(values: Seq<NodeExecutionAttestation>) -> Seq<Execution> {
    values.map_values(|v: NodeExecutionAttestation| v@)
}

/// The node numbers of a list of attestations.
pub open spec fn execution_nodes(values: Seq<Execution>) -> Seq<int> {
    values.map_values(|v: Execution| v.node as int)
}

/// The wire records of a list.
pub open spec fn execution_records(values: Seq<Execution>) -> Seq<Seq<u8>> {
    values.map_values(|v: Execution| v.record())
}

/// The canonical wire of a list of execution attestations.
pub open spec fn execution_wire(values: Seq<Execution>) -> Seq<u8> {
    text_bytes("QOMM:EXECUTION-ATTESTATIONS:v2"@) + be_bytes(values.len(), 2) + joined(execution_records(values))
}

fn execution_order(values: &[NodeExecutionAttestation]) -> (order: Vec<usize>)
    ensures
        is_stable_order(execution_nodes(executions(values@)), order@),
        order@ == order_of(execution_nodes(executions(values@))),
{
    let mut keys: Vec<u64> = Vec::new();
    let mut i: usize = 0;
    while i < values.len()
        invariant
            i <= values@.len(),
            keys@.len() == i,
            forall|j: int| 0 <= j < i ==> keys@[j] == values@[j].node,
        decreases values@.len() - i,
    {
        keys.push(values[i].node as u64);
        i = i + 1;
    }
    assert(keys@.map_values(|k: u64| k as int) =~= execution_nodes(executions(values@)));
    stable_order(&keys)
}

/// A list in increasing order of node.
pub open spec fn executions_by_node(values: Seq<Execution>) -> Seq<Execution> {
    rearranged(values, order_of(execution_nodes(values)))
}

/// Why the first attestation of a list that is not complete is refused.
pub open spec fn first_refusal(values: Seq<Execution>) -> Option<Seq<char>>
    decreases values.len(),
{
    if values.len() == 0 {
        None
    } else if first_refusal(values.drop_last()) is Some {
        first_refusal(values.drop_last())
    } else if values.last().complete() {
        None
    } else {
        Some(values.last().refusal())
    }
}

/// The wire of a list in node order, or why it is refused.
pub open spec fn encoded_executions(values: Seq<Execution>) -> Result<Seq<u8>, Seq<char>> {
    let sorted = executions_by_node(values);
    match first_refusal(sorted) {
        Some(e) => Err(e),
        None => Ok(execution_wire(sorted)),
    }
}

/// What holds of a list up to a place decides the first refusal.
proof fn first_refusal_at(values: Seq<Execution>, at: int)
    requires
        0 <= at <= values.len(),
        first_refusal(values.take(at)) is None,
    ensures
        at < values.len() && !values[at].complete() ==> first_refusal(values) == Some(values[at].refusal()),
        at < values.len() && values[at].complete() ==> first_refusal(values.take(at + 1)) is None,
    decreases values.len(),
{
    if at < values.len() {
        assert(values.take(at + 1).drop_last() =~= values.take(at));
        if at < values.len() - 1 {
            assert(values.drop_last().take(at) =~= values.take(at));
            first_refusal_at(values.drop_last(), at);
        } else {
            assert(values.take(at) =~= values.drop_last());
        }
    }
}

/// A list has no refusal exactly when all of it is complete.
proof fn no_refusal(values: Seq<Execution>)
    ensures
        first_refusal(values) is None <==> forall|i: int| 0 <= i < values.len() ==> (#[trigger] values[i]).complete(),
    decreases values.len(),
{
    if values.len() > 0 {
        no_refusal(values.drop_last());
        assert forall|i: int| 0 <= i < values.len() - 1 implies values.drop_last()[i] == values[i] by {
        }
        if first_refusal(values) is None {
            assert forall|i: int| 0 <= i < values.len() implies (#[trigger] values[i]).complete() by {
                if i < values.len() - 1 {
                    assert(values.drop_last()[i].complete());
                }
            }
        }
    }
}

fn encode_execution_attestation_wire(attestations: &[NodeExecutionAttestation]) -> (r: Result<Vec<u8>, String>)
    requires
        attestations@.len() < 0x1_0000,
    ensures
        r matches Ok(out) ==> encoded_executions(executions(attestations@)) == Ok::<Seq<u8>, Seq<char>>(out@),
        r matches Err(e) ==> encoded_executions(executions(attestations@)) == Err::<Seq<u8>, Seq<char>>(e@),
{
    let order = execution_order(attestations);
    let ghost all = executions(attestations@);
    let ghost sorted = rearranged(all, order@);
    let mut out: Vec<u8> = Vec::new();
    put(&mut out, "QOMM:EXECUTION-ATTESTATIONS:v2".as_bytes());
    put_be(&mut out, attestations.len() as u64, 2);
    let ghost head = text_bytes("QOMM:EXECUTION-ATTESTATIONS:v2"@) + be_bytes(attestations@.len(), 2);
    let ghost records = execution_records(sorted);
    assert(out@ =~= head + joined(records.take(0)));
    let mut i: usize = 0;
    while i < order.len()
        invariant
            i <= order@.len(),
            order@.len() == attestations@.len(),
            all == executions(attestations@),
            is_stable_order(execution_nodes(all), order@),
            order@ == order_of(execution_nodes(all)),
            sorted == rearranged(all, order@),
            records == execution_records(sorted),
            out@ == head + joined(records.take(i as int)),
            first_refusal(sorted.take(i as int)) is None,
        decreases order@.len() - i,
    {
        let value = &attestations[order[i]];
        proof {
            assert(sorted[i as int] == value@);
            first_refusal_at(sorted, i as int);
        }
        match value.unsigned() {
            Err(e) => {
                return Err(e);
            },
            Ok(_) => {},
        }
        value.put_record(&mut out);
        proof {
            joined_step(records, i as int);
            assert(out@ =~= head + joined(records.take(i as int + 1)));
        }
        i = i + 1;
    }
    proof {
        assert(records.take(i as int) =~= records);
        assert(sorted.take(i as int) =~= sorted);
        assert(out@ =~= execution_wire(sorted));
    }
    Ok(out)
}

/// Encodes one complete seven-node execution lane in node order.
pub fn encode_execution_attestations(attestations: &[NodeExecutionAttestation]) -> (r: Result<Vec<u8>, String>)
    ensures
        attestations@.len() != COMMITTEE_NODES ==> (r matches Err(e) && e@
            == "execution attestation wire needs exactly seven nodes"@),
        attestations@.len() == COMMITTEE_NODES ==> match r {
            Ok(out) => encoded_executions(executions(attestations@)) == Ok::<Seq<u8>, Seq<char>>(out@),
            Err(e) => encoded_executions(executions(attestations@)) == Err::<Seq<u8>, Seq<char>>(e@),
        },
{
    if attestations.len() != COMMITTEE_NODES {
        return Err("execution attestation wire needs exactly seven nodes".to_owned());
    }
    encode_execution_attestation_wire(attestations)
}

/// Encodes one node-local execution attestation. This is deliberately distinct
/// from the canonical seven-node bundle.
pub fn encode_node_execution_attestation(attestation: &NodeExecutionAttestation) -> (r: Result<Vec<u8>, String>)
    ensures
        r is Ok <==> attestation@.complete(),
        r matches Ok(out) ==> out@ == execution_wire(seq![attestation@]),
        r matches Err(e) ==> e@ == attestation@.refusal(),
{
    match attestation.unsigned() {
        Err(e) => {
            return Err(e);
        },
        Ok(_) => {},
    }
    let mut out: Vec<u8> = Vec::new();
    put(&mut out, "QOMM:EXECUTION-ATTESTATIONS:v2".as_bytes());
    put_be(&mut out, 1, 2);
    attestation.put_record(&mut out);
    proof {
        let records = execution_records(seq![attestation@]);
        assert(records =~= seq![attestation@.record()]);
        assert(records.drop_last() =~= Seq::<Seq<u8>>::empty());
        reveal_with_fuel(joined, 2);
        assert(out@ =~= execution_wire(seq![attestation@]));
    }
    Ok(out)
}

/// The width of an execution record.
pub open spec fn execution_record_bytes(signature_bytes: nat) -> nat {
    234 + signature_bytes
}

/// The record at a place of an execution wire.
pub open spec fn execution_at(raw: Seq<u8>, i: int, signature_bytes: nat) -> Execution {
    let width = execution_record_bytes(signature_bytes);
    Execution::read(raw.subrange(32 + i * width, 32 + (i + 1) * width))
}

/// The records of an execution wire of `count` nodes.
pub open spec fn executions_in(raw: Seq<u8>, count: nat, signature_bytes: nat) -> Seq<Execution> {
    Seq::new(count, |i: int| execution_at(raw, i, signature_bytes))
}

/// What an execution wire of `count` nodes says, or why it is refused.
pub open spec fn read_executions(raw: Seq<u8>, count: nat, signature_bytes: nat) -> Result<
    Seq<Execution>,
    Seq<char>,
> {
    let values = executions_in(raw, count, signature_bytes);
    if raw.len() < 32 || raw.subrange(0, 30) != text_bytes("QOMM:EXECUTION-ATTESTATIONS:v2"@) {
        Err("execution attestation wire has an invalid header"@)
    } else if be_value(raw.subrange(30, 32)) != count || raw.len() != 32 + count * execution_record_bytes(
        signature_bytes,
    ) {
        Err("execution attestation wire has the wrong population or length"@)
    } else {
        match first_refusal(values) {
            Some(e) => Err(e),
            None => Ok(values),
        }
    }
}

proof fn execution_magic_width()
    ensures
        text_bytes("QOMM:EXECUTION-ATTESTATIONS:v2"@).len() == 30,
{
    reveal_strlit("QOMM:EXECUTION-ATTESTATIONS:v2");
    ascii_width("QOMM:EXECUTION-ATTESTATIONS:v2"@);
}

fn read_execution(raw: &[u8], at: usize, signature_bytes: usize) -> (value: NodeExecutionAttestation)
    requires
        at + execution_record_bytes(signature_bytes as nat) <= raw@.len(),
    ensures
        value@ == Execution::read(raw@.subrange(at as int, at + execution_record_bytes(signature_bytes as nat))),
{
    let total: usize = raw.len();
    let ghost end = at + 234 + signature_bytes;
    proof {
        be_widths();
        be_bytes_of_be_value(raw@.subrange(at as int, at + 2));
        part_of_part(raw@, at as int, end, 0, 2);
        part_of_part(raw@, at as int, end, 2, 10);
        part_of_part(raw@, at as int, end, 10, 18);
        part_of_part(raw@, at as int, end, 18, 50);
        part_of_part(raw@, at as int, end, 50, 82);
        part_of_part(raw@, at as int, end, 82, 114);
        part_of_part(raw@, at as int, end, 114, 146);
        part_of_part(raw@, at as int, end, 146, 178);
        part_of_part(raw@, at as int, end, 178, 210);
        part_of_part(raw@, at as int, end, 210, 218);
        part_of_part(raw@, at as int, end, 218, 226);
        part_of_part(raw@, at as int, end, 226, 234);
        part_of_part(raw@, at as int, end, 234, 234 + signature_bytes);
    }
    NodeExecutionAttestation {
        node: read_be(raw, at, 2) as u16,
        slot: read_be(raw, at + 2, 8),
        lane: read_be(raw, at + 10, 8),
        batch_digest: array32(raw, at + 18),
        source_digest: array32(raw, at + 50),
        stdout_digest: array32(raw, at + 82),
        stderr_digest: array32(raw, at + 114),
        persistence_digest: array32(raw, at + 146),
        receipt_digest: array32(raw, at + 178),
        state_generation: read_be(raw, at + 210, 8),
        frame_count: read_be(raw, at + 218, 8),
        input_count: read_be(raw, at + 226, 8),
        signature: Signature { bytes: part(raw, at + 234, at + 234 + signature_bytes) },
    }
}

fn decode_execution_attestation_wire(raw: &[u8], expected_count: usize, signature_bytes: usize) -> (r: Result<
    Vec<NodeExecutionAttestation>,
    String,
>)
    requires
        0 < expected_count <= COMMITTEE_NODES,
    ensures
        match r {
            Ok(values) => read_executions(raw@, expected_count as nat, signature_bytes as nat) == Ok::<
                Seq<Execution>,
                Seq<char>,
            >(executions(values@)),
            Err(e) => read_executions(raw@, expected_count as nat, signature_bytes as nat) == Err::<
                Seq<Execution>,
                Seq<char>,
            >(e@),
        },
{
    proof {
        execution_magic_width();
    }
    if raw.len() < 32 || !same(&raw[0..30], "QOMM:EXECUTION-ATTESTATIONS:v2".as_bytes()) {
        return Err("execution attestation wire has an invalid header".to_owned());
    }
    let count = read_be(raw, 30, 2);
    let total: usize = raw.len();
    let ghost width = execution_record_bytes(signature_bytes as nat);
    let body: usize = total - 32;
    if count != expected_count as u64 || body % expected_count != 0 || body / expected_count < 234 || body
        / expected_count - 234 != signature_bytes {
        proof {
            if raw@.len() == 32 + expected_count * width {
                assert(body as int % expected_count as int == 0 && body as int / expected_count as int == width)
                    by (nonlinear_arith)
                    requires
                        body == expected_count * width,
                        expected_count > 0,
                ;
            }
        }
        return Err("execution attestation wire has the wrong population or length".to_owned());
    }
    assert(body == expected_count * width) by (nonlinear_arith)
        requires
            body as int % expected_count as int == 0,
            body as int / expected_count as int == width,
            expected_count > 0,
    ;
    let ghost all = executions_in(raw@, expected_count as nat, signature_bytes as nat);
    let mut values: Vec<NodeExecutionAttestation> = Vec::new();
    let mut at: usize = 32;
    let mut i: usize = 0;
    assert(all.take(0) =~= Seq::<Execution>::empty());
    while i < expected_count
        invariant
            i <= expected_count,
            0 < expected_count <= COMMITTEE_NODES,
            total == raw@.len(),
            width == 234 + signature_bytes,
            width == execution_record_bytes(signature_bytes as nat),
            raw@.len() == 32 + expected_count * width,
            at == 32 + i * width,
            all == executions_in(raw@, expected_count as nat, signature_bytes as nat),
            values@.len() == i,
            forall|j: int| 0 <= j < i ==> (#[trigger] values@[j])@ == all[j],
            first_refusal(all.take(i as int)) is None,
            raw@.len() >= 32 && raw@.subrange(0, 30) == text_bytes("QOMM:EXECUTION-ATTESTATIONS:v2"@),
            be_value(raw@.subrange(30, 32)) == expected_count,
        decreases expected_count - i,
    {
        assert((i + 1) * width == i * width + width && (i + 1) * width <= expected_count * width) by (nonlinear_arith)
            requires
                i < expected_count,
        ;
        let value = read_execution(raw, at, signature_bytes);
        proof {
            assert(value@ == all[i as int]);
            first_refusal_at(all, i as int);
        }
        match value.unsigned() {
            Err(e) => {
                return Err(e);
            },
            Ok(_) => {},
        }
        values.push(value);
        at = at + (234 + signature_bytes);
        i = i + 1;
    }
    assert(all.take(i as int) =~= all);
    assert(executions(values@) =~= all);
    Ok(values)
}

/// What a canonical seven-node execution wire says, or why it is refused.
pub open spec fn read_execution_bundle(raw: Seq<u8>, signature_bytes: nat) -> Result<Seq<Execution>, Seq<char>> {
    match read_executions(raw, COMMITTEE_NODES as nat, signature_bytes) {
        Err(e) => Err(e),
        Ok(values) => if exists|i: int| 0 <= i < COMMITTEE_NODES && (#[trigger] values[i]).node != i {
            Err("execution attestation wire is not in canonical node order"@)
        } else {
            Ok(values)
        },
    }
}

/// Reads one complete seven-node execution lane in node order.
pub fn decode_execution_attestations(raw: &[u8], signature_bytes: usize) -> (r: Result<
    Vec<NodeExecutionAttestation>,
    String,
>)
    ensures
        match r {
            Ok(values) => read_execution_bundle(raw@, signature_bytes as nat) == Ok::<Seq<Execution>, Seq<char>>(
                executions(values@),
            ),
            Err(e) => read_execution_bundle(raw@, signature_bytes as nat) == Err::<Seq<Execution>, Seq<char>>(e@),
        },
{
    let values = match decode_execution_attestation_wire(raw, COMMITTEE_NODES, signature_bytes) {
        Err(e) => {
            return Err(e);
        },
        Ok(values) => values,
    };
    let ghost all = executions(values@);
    let mut k: usize = 0;
    while k < COMMITTEE_NODES
        invariant
            k <= COMMITTEE_NODES,
            values@.len() == COMMITTEE_NODES,
            all == executions(values@),
            read_executions(raw@, COMMITTEE_NODES as nat, signature_bytes as nat) == Ok::<Seq<Execution>, Seq<char>>(
                all,
            ),
            forall|j: int| 0 <= j < k ==> (#[trigger] all[j]).node == j,
        decreases COMMITTEE_NODES - k,
    {
        if values[k].node as usize != k {
            assert(all[k as int].node != k);
            return Err("execution attestation wire is not in canonical node order".to_owned());
        }
        k = k + 1;
    }
    Ok(values)
}

/// Reads exactly one node-local response. The caller still verifies that the
/// returned node is the party it contacted before assembling the seven-node
/// canonical bundle.
pub fn decode_node_execution_attestation(raw: &[u8], signature_bytes: usize) -> (r: Result<
    NodeExecutionAttestation,
    String,
>)
    ensures
        match r {
            Ok(value) => read_executions(raw@, 1, signature_bytes as nat) == Ok::<Seq<Execution>, Seq<char>>(
                seq![value@],
            ),
            Err(e) => read_executions(raw@, 1, signature_bytes as nat) == Err::<Seq<Execution>, Seq<char>>(e@),
        },
{
    match decode_execution_attestation_wire(raw, 1, signature_bytes) {
        Err(e) => Err(e),
        Ok(values) => {
            let mut values = values;
            assert(executions(values@) =~= seq![values@[0]@]);
            let value = values.swap_remove(0);
            Ok(value)
        },
    }
}

/// A record read back is what was written.
proof fn execution_record_round_trip(value: Execution, signature_bytes: nat)
    requires
        value.sized(signature_bytes),
    ensures
        value.record().len() == execution_record_bytes(signature_bytes),
        Execution::read(value.record()) == value,
{
    be_widths();
    be_bytes_width(value.node, 2);
    be_bytes_width(value.slot, 8);
    be_bytes_width(value.lane, 8);
    be_bytes_width(value.state_generation, 8);
    be_bytes_width(value.frame_count, 8);
    be_bytes_width(value.input_count, 8);
    be_value_of_be_bytes(value.node, 2);
    be_value_of_be_bytes(value.slot, 8);
    be_value_of_be_bytes(value.lane, 8);
    be_value_of_be_bytes(value.state_generation, 8);
    be_value_of_be_bytes(value.frame_count, 8);
    be_value_of_be_bytes(value.input_count, 8);
    let record = value.record();
    assert(record.subrange(0, 2) =~= be_bytes(value.node, 2));
    assert(record.subrange(2, 10) =~= be_bytes(value.slot, 8));
    assert(record.subrange(10, 18) =~= be_bytes(value.lane, 8));
    assert(record.subrange(18, 50) =~= value.batch_digest);
    assert(record.subrange(50, 82) =~= value.source_digest);
    assert(record.subrange(82, 114) =~= value.stdout_digest);
    assert(record.subrange(114, 146) =~= value.stderr_digest);
    assert(record.subrange(146, 178) =~= value.persistence_digest);
    assert(record.subrange(178, 210) =~= value.receipt_digest);
    assert(record.subrange(210, 218) =~= be_bytes(value.state_generation, 8));
    assert(record.subrange(218, 226) =~= be_bytes(value.frame_count, 8));
    assert(record.subrange(226, 234) =~= be_bytes(value.input_count, 8));
    assert(record.subrange(234, record.len() as int) =~= value.signature);
}

/// Every record of an execution wire stands in its place.
pub proof fn execution_wire_layout(values: Seq<Execution>, signature_bytes: nat)
    requires
        0 < values.len() <= COMMITTEE_NODES,
        forall|i: int| 0 <= i < values.len() ==> (#[trigger] values[i]).sized(signature_bytes),
    ensures
        execution_wire(values).len() == 32 + values.len() * execution_record_bytes(signature_bytes),
        execution_wire(values).subrange(0, 30) == text_bytes("QOMM:EXECUTION-ATTESTATIONS:v2"@),
        be_value(execution_wire(values).subrange(30, 32)) == values.len(),
        executions_in(execution_wire(values), values.len(), signature_bytes) == values,
{
    let n = values.len();
    let raw = execution_wire(values);
    let width = execution_record_bytes(signature_bytes);
    let records = execution_records(values);
    execution_magic_width();
    be_widths();
    be_bytes_width(n, 2);
    be_value_of_be_bytes(n, 2);
    assert forall|i: int| 0 <= i < n implies (#[trigger] records[i]).len() == width by {
        assert(records[i] == values[i].record());
        execution_record_round_trip(values[i], signature_bytes);
    }
    joined_layout(records, width);
    assert(raw.subrange(0, 30) =~= text_bytes("QOMM:EXECUTION-ATTESTATIONS:v2"@));
    assert(raw.subrange(30, 32) =~= be_bytes(n, 2));
    assert forall|i: int| 0 <= i < n implies execution_at(raw, i, signature_bytes) == #[trigger] values[i] by {
        assert(0 <= i * width && (i + 1) * width == i * width + width && (i + 1) * width <= n * width)
            by (nonlinear_arith)
            requires
                0 <= i < n,
        ;
        assert(raw.subrange(32 + i * width, 32 + (i + 1) * width) =~= joined(records).subrange(
            i * width,
            (i + 1) * width,
        ));
        assert(records[i] == values[i].record());
        execution_record_round_trip(values[i], signature_bytes);
    }
    assert(executions_in(raw, n, signature_bytes) =~= values);
}

/// Reading the wire of complete attestations gives them back.
pub proof fn execution_wire_round_trip(values: Seq<Execution>, signature_bytes: nat)
    requires
        0 < values.len() <= COMMITTEE_NODES,
        forall|i: int|
            0 <= i < values.len() ==> (#[trigger] values[i]).sized(signature_bytes) && values[i].complete(),
    ensures
        read_executions(execution_wire(values), values.len(), signature_bytes) == Ok::<Seq<Execution>, Seq<char>>(
            values,
        ),
{
    execution_wire_layout(values, signature_bytes);
    no_refusal(values);
}

/// The bundle of a complete lane in node order reads back as the lane.
pub proof fn execution_bundle_round_trip(values: Seq<Execution>, signature_bytes: nat)
    requires
        values.len() == COMMITTEE_NODES,
        forall|i: int|
            0 <= i < values.len() ==> (#[trigger] values[i]).sized(signature_bytes) && values[i].complete()
                && values[i].node == i,
    ensures
        encoded_executions(values) == Ok::<Seq<u8>, Seq<char>>(execution_wire(values)),
        read_execution_bundle(execution_wire(values), signature_bytes) == Ok::<Seq<Execution>, Seq<char>>(values),
{
    execution_wire_round_trip(values, signature_bytes);
    identity_order(execution_nodes(values));
    assert(executions_by_node(values) =~= values);
    no_refusal(values);
}

/// A node's batch digest.
pub ghost struct NodeBatch {
    pub node: nat,
    pub digest: Seq<u8>,
}

/// What a list of node batches says.
pub open spec fn batches(values: Seq<(u16, [u8; 32])>) -> Seq<NodeBatch> {
    values.map_values(|v: (u16, [u8; 32])| NodeBatch { node: v.0 as nat, digest: v.1@ })
}

/// A list in increasing order of node.
pub open spec fn batches_by_node(values: Seq<NodeBatch>) -> Seq<NodeBatch> {
    rearranged(values, order_of(values.map_values(|v: NodeBatch| v.node as int)))
}

/// The hashed text of one node's batch.
pub open spec fn batch_record(batch: NodeBatch) -> Seq<u8> {
    be_bytes(batch.node, 2) + batch.digest
}

/// The hashed text of a cluster's batches.
pub open spec fn cluster_message(slot: nat, order_digest: Seq<u8>, sorted: Seq<NodeBatch>) -> Seq<u8> {
    text_bytes("QOMM:ORDER:CLUSTER-BATCH:v1"@) + be_bytes(slot, 4) + order_digest + joined(
        sorted.map_values(|b: NodeBatch| batch_record(b)),
    )
}

/// The digest of a cluster's batches, or why there is none.
pub open spec fn cluster_batch(slot: nat, order_digest: Seq<u8>, values: Seq<NodeBatch>) -> Result<
    Seq<u8>,
    Seq<char>,
> {
    let sorted = batches_by_node(values);
    if order_digest == zero32() || values.len() != COMMITTEE_NODES {
        Err("cluster batch needs a non-zero order and exactly seven nodes"@)
    } else if exists|i: int|
        0 <= i < COMMITTEE_NODES && ((#[trigger] sorted[i]).node != i || sorted[i].digest == zero32()) {
        Err("cluster batch nodes must be exactly 0..6 with non-zero digests"@)
    } else {
        Ok(sha256(cluster_message(slot, order_digest, sorted)))
    }
}

/// Bind the common principal order to every node's distinct share-frame
/// batch. A coordinator cannot substitute one node's view or omit a node while
/// constructing the ordered admission.
pub fn cluster_batch_digest(slot: u32, order_digest: [u8; 32], node_batches: &[(u16, [u8; 32])]) -> (r: Result<
    [u8; 32],
    String,
>)
    ensures
        match r {
            Ok(digest) => cluster_batch(slot as nat, order_digest@, batches(node_batches@)) == Ok::<
                Seq<u8>,
                Seq<char>,
            >(digest@),
            Err(e) => cluster_batch(slot as nat, order_digest@, batches(node_batches@)) == Err::<Seq<u8>, Seq<char>>(
                e@,
            ),
        },
{
    if is_zero32(&order_digest) || node_batches.len() != COMMITTEE_NODES {
        return Err("cluster batch needs a non-zero order and exactly seven nodes".to_owned());
    }
    let ghost all = batches(node_batches@);
    let mut keys: Vec<u64> = Vec::new();
    let mut k: usize = 0;
    while k < node_batches.len()
        invariant
            k <= node_batches@.len(),
            keys@.len() == k,
            forall|j: int| 0 <= j < k ==> keys@[j] == node_batches@[j].0,
        decreases node_batches@.len() - k,
    {
        keys.push(node_batches[k].0 as u64);
        k = k + 1;
    }
    assert(keys@.map_values(|k: u64| k as int) =~= all.map_values(|v: NodeBatch| v.node as int));
    let order = stable_order(&keys);
    let ghost sorted = batches_by_node(all);
    let ghost records = sorted.map_values(|b: NodeBatch| batch_record(b));
    let mut message: Vec<u8> = Vec::new();
    put(&mut message, "QOMM:ORDER:CLUSTER-BATCH:v1".as_bytes());
    put_be(&mut message, slot as u64, 4);
    put(&mut message, order_digest.as_slice());
    let ghost head = text_bytes("QOMM:ORDER:CLUSTER-BATCH:v1"@) + be_bytes(slot as nat, 4) + order_digest@;
    assert(message@ =~= head + joined(records.take(0)));
    let mut i: usize = 0;
    while i < COMMITTEE_NODES
        invariant
            i <= COMMITTEE_NODES,
            node_batches@.len() == COMMITTEE_NODES,
            order@.len() == COMMITTEE_NODES,
            order_digest@ != zero32(),
            all == batches(node_batches@),
            is_stable_order(all.map_values(|v: NodeBatch| v.node as int), order@),
            sorted == rearranged(all, order@),
            sorted == batches_by_node(all),
            records == sorted.map_values(|b: NodeBatch| batch_record(b)),
            message@ == head + joined(records.take(i as int)),
            forall|j: int| 0 <= j < i ==> (#[trigger] sorted[j]).node == j && sorted[j].digest != zero32(),
        decreases COMMITTEE_NODES - i,
    {
        let entry = &node_batches[order[i]];
        assert(sorted[i as int] == NodeBatch { node: entry.0 as nat, digest: entry.1@ });
        if entry.0 as usize != i || is_zero32(&entry.1) {
            return Err("cluster batch nodes must be exactly 0..6 with non-zero digests".to_owned());
        }
        put_be(&mut message, entry.0 as u64, 2);
        put(&mut message, entry.1.as_slice());
        proof {
            joined_step(records, i as int);
            assert(records[i as int] == batch_record(sorted[i as int]));
            assert(message@ =~= head + joined(records.take(i as int + 1)));
        }
        i = i + 1;
    }
    assert(records.take(i as int) =~= records);
    assert(message@ =~= cluster_message(slot as nat, order_digest@, sorted));
    Ok(hash(message.as_slice()))
}

/// A committee-verified public execution lane.
#[derive(Clone, Copy, Debug, PartialEq, Eq)]
pub struct CertifiedExecutionLane {
    pub slot: u64,
    pub lane: u64,
    pub cluster_digest: [u8; 32],
    pub source_digest: [u8; 32],
    pub digest: [u8; 32],
}

/// What a certified execution lane says.
pub ghost struct ExecutionLane {
    pub slot: nat,
    pub lane: nat,
    pub cluster_digest: Seq<u8>,
    pub source_digest: Seq<u8>,
    pub digest: Seq<u8>,
}

impl View for CertifiedExecutionLane {
    type V = ExecutionLane;

    open spec fn view(&self) -> ExecutionLane {
        ExecutionLane {
            slot: self.slot as nat,
            lane: self.lane as nat,
            cluster_digest: self.cluster_digest@,
            source_digest: self.source_digest@,
            digest: self.digest@,
        }
    }
}

/// The batches of a list of executions.
pub open spec fn execution_batches(values: Seq<Execution>) -> Seq<NodeBatch> {
    values.map_values(|v: Execution| NodeBatch { node: v.node, digest: v.batch_digest })
}

/// Whether two nodes agree on the slot, the source and the shape of a run.
pub open spec fn same_run(a: Execution, b: Execution) -> bool {
    &&& a.slot == b.slot
    &&& a.lane == b.lane
    &&& a.source_digest == b.source_digest
    &&& a.state_generation == b.state_generation
    &&& a.frame_count == b.frame_count
    &&& a.input_count == b.input_count
}

/// The hashed text of an execution lane in node order.
pub open spec fn execution_lane_message(sorted: Seq<Execution>, cluster_digest: Seq<u8>) -> Seq<u8> {
    let first = sorted[0];
    text_bytes("QOMM:ORDER:EXECUTION-LANE:v1"@) + be_bytes(first.slot, 8) + be_bytes(first.lane, 8) + cluster_digest
        + first.source_digest + be_bytes(first.state_generation, 8) + be_bytes(first.frame_count, 8) + be_bytes(
        first.input_count,
        8,
    ) + joined(sorted.map_values(|v: Execution| be_bytes(v.node, 2) + v.receipt_digest))
}

/// The lane that seven execution receipts make, or why they make none.
pub open spec fn execution_lane(values: Seq<Execution>, order_digest: Seq<u8>) -> Result<ExecutionLane, Seq<char>> {
    let sorted = executions_by_node(values);
    if values.len() != COMMITTEE_NODES {
        Err("execution lane needs exactly seven receipt statements"@)
    } else if exists|i: int| 0 <= i < COMMITTEE_NODES && ((#[trigger] sorted[i]).node != i || !sorted[i].complete()) {
        Err("execution lane contains an incomplete or duplicate receipt"@)
    } else if exists|i: int| 0 <= i < COMMITTEE_NODES && !same_run(#[trigger] sorted[i], sorted[0]) {
        Err("resident nodes disagree on the execution slot, source, or shape"@)
    } else {
        match cluster_batch(sorted[0].slot, order_digest, execution_batches(sorted)) {
            Err(e) => Err(e),
            Ok(cluster_digest) => Ok(
                ExecutionLane {
                    slot: sorted[0].slot,
                    lane: sorted[0].lane,
                    cluster_digest,
                    source_digest: sorted[0].source_digest,
                    digest: sha256(execution_lane_message(sorted, cluster_digest)),
                },
            ),
        }
    }
}

/// Derive the public execution-lane digest from deterministic receipt fields
/// before proof parties sign them. This is a transcript construction, not a
/// certification: callers must still use [`verify_execution_lane`] on the
/// signed receipts before accepting an execution.
pub fn derive_execution_lane(attestations: &[NodeExecutionAttestation], order_digest: [u8; 32]) -> (r: Result<
    CertifiedExecutionLane,
    String,
>)
    ensures
        match r {
            Ok(lane) => execution_lane(executions(attestations@), order_digest@) == Ok::<ExecutionLane, Seq<char>>(
                lane@,
            ),
            Err(e) => execution_lane(executions(attestations@), order_digest@) == Err::<ExecutionLane, Seq<char>>(e@),
        },
{
    if attestations.len() != COMMITTEE_NODES {
        return Err("execution lane needs exactly seven receipt statements".to_owned());
    }
    let ghost all = executions(attestations@);
    let order = execution_order(attestations);
    let ghost sorted = executions_by_node(all);
    let mut i: usize = 0;
    while i < COMMITTEE_NODES
        invariant
            i <= COMMITTEE_NODES,
            attestations@.len() == COMMITTEE_NODES,
            order@.len() == COMMITTEE_NODES,
            all == executions(attestations@),
            is_stable_order(execution_nodes(all), order@),
            sorted == rearranged(all, order@),
            sorted == executions_by_node(all),
            forall|j: int| 0 <= j < i ==> (#[trigger] sorted[j]).node == j && sorted[j].complete(),
        decreases COMMITTEE_NODES - i,
    {
        let value = &attestations[order[i]];
        assert(sorted[i as int] == value@);
        if value.node as usize != i || value.unsigned().is_err() {
            return Err("execution lane contains an incomplete or duplicate receipt".to_owned());
        }
        i = i + 1;
    }
    let first = &attestations[order[0]];
    assert(sorted[0] == first@);
    let ghost pairs = execution_batches(sorted);
    let mut node_batches: Vec<(u16, [u8; 32])> = Vec::new();
    let mut k: usize = 0;
    while k < COMMITTEE_NODES
        invariant
            k <= COMMITTEE_NODES,
            attestations@.len() == COMMITTEE_NODES,
            order@.len() == COMMITTEE_NODES,
            all == executions(attestations@),
            is_stable_order(execution_nodes(all), order@),
            sorted == rearranged(all, order@),
            sorted == executions_by_node(all),
            first@ == sorted[0],
            forall|j: int|
                0 <= j < COMMITTEE_NODES ==> (#[trigger] sorted[j]).node == j && sorted[j].complete(),
            forall|j: int| 0 <= j < k ==> same_run(#[trigger] sorted[j], sorted[0]),
            node_batches@.len() == k,
            pairs == execution_batches(sorted),
            forall|j: int| 0 <= j < k ==> batches(node_batches@)[j] == #[trigger] pairs[j],
        decreases COMMITTEE_NODES - k,
    {
        let value = &attestations[order[k]];
        assert(sorted[k as int] == value@);
        if value.slot != first.slot || value.lane != first.lane || !same32(&value.source_digest, &first.source_digest)
            || value.state_generation != first.state_generation || value.frame_count != first.frame_count
            || value.input_count != first.input_count {
            assert(!same_run(sorted[k as int], sorted[0]));
            return Err("resident nodes disagree on the execution slot, source, or shape".to_owned());
        }
        let ghost before = node_batches@;
        node_batches.push((value.node, value.batch_digest));
        proof {
            assert forall|j: int| 0 <= j < k + 1 implies batches(node_batches@)[j] == #[trigger] pairs[j] by {
                if j < k {
                    assert(batches(before)[j] == pairs[j]);
                }
            }
        }
        k = k + 1;
    }
    assert(batches(node_batches@) =~= pairs);
    assert(sorted[0].complete());
    let cluster_digest = match cluster_batch_digest(first.slot as u32, order_digest, node_batches.as_slice()) {
        Err(e) => {
            return Err(e);
        },
        Ok(digest) => digest,
    };
    let ghost records = sorted.map_values(|v: Execution| be_bytes(v.node, 2) + v.receipt_digest);
    let mut message: Vec<u8> = Vec::new();
    put(&mut message, "QOMM:ORDER:EXECUTION-LANE:v1".as_bytes());
    put_be(&mut message, first.slot, 8);
    put_be(&mut message, first.lane, 8);
    put(&mut message, cluster_digest.as_slice());
    put(&mut message, first.source_digest.as_slice());
    put_be(&mut message, first.state_generation, 8);
    put_be(&mut message, first.frame_count, 8);
    put_be(&mut message, first.input_count, 8);
    let ghost head = message@;
    assert(head =~= head + joined(records.take(0)));
    let mut m: usize = 0;
    while m < COMMITTEE_NODES
        invariant
            m <= COMMITTEE_NODES,
            attestations@.len() == COMMITTEE_NODES,
            order@.len() == COMMITTEE_NODES,
            all == executions(attestations@),
            is_stable_order(execution_nodes(all), order@),
            sorted == rearranged(all, order@),
            records == sorted.map_values(|v: Execution| be_bytes(v.node, 2) + v.receipt_digest),
            message@ == head + joined(records.take(m as int)),
        decreases COMMITTEE_NODES - m,
    {
        let value = &attestations[order[m]];
        put_be(&mut message, value.node as u64, 2);
        put(&mut message, value.receipt_digest.as_slice());
        proof {
            assert(sorted[m as int] == value@);
            joined_step(records, m as int);
            assert(message@ =~= head + joined(records.take(m as int + 1)));
        }
        m = m + 1;
    }
    assert(records.take(m as int) =~= records);
    assert(message@ =~= execution_lane_message(sorted, cluster_digest@));
    Ok(
        CertifiedExecutionLane {
            slot: first.slot,
            lane: first.lane,
            cluster_digest,
            source_digest: first.source_digest,
            digest: hash(message.as_slice()),
        },
    )
}

/// Whether every attestation of a lane is of its node, complete and authentic.
pub open spec fn lane_authentic<V: Fn(&VerifyingKey, &Vec<u8>, &Signature) -> bool>(
    verify: V,
    sorted: Seq<Execution>,
    keys: Seq<VerifyingKey>,
) -> bool {
    forall|i: int|
        0 <= i < COMMITTEE_NODES ==> (#[trigger] sorted[i]).node == i && sorted[i].complete() && answers(
            verify,
            keys[i],
            sorted[i].body(),
            sorted[i].signature,
            true,
        )
}

/// Whether an attestation of a lane is of another node, not complete, or not authentic.
pub open spec fn lane_refused<V: Fn(&VerifyingKey, &Vec<u8>, &Signature) -> bool>(
    verify: V,
    sorted: Seq<Execution>,
    keys: Seq<VerifyingKey>,
) -> bool {
    exists|i: int|
        0 <= i < COMMITTEE_NODES && ((#[trigger] sorted[i]).node != i || !sorted[i].complete() || answers(
            verify,
            keys[i],
            sorted[i].body(),
            sorted[i].signature,
            false,
        ))
}

/// What verifying the receipts of a lane comes to.
pub open spec fn lane_verified<V: Fn(&VerifyingKey, &Vec<u8>, &Signature) -> bool>(
    verify: V,
    values: Seq<Execution>,
    keys: Seq<VerifyingKey>,
    order_digest: Seq<u8>,
    r: Result<ExecutionLane, Seq<char>>,
) -> bool {
    let sorted = executions_by_node(values);
    if values.len() != COMMITTEE_NODES || keys.len() != COMMITTEE_NODES {
        r == Err::<ExecutionLane, Seq<char>>("execution lane needs exactly seven attestations and trusted keys"@)
    } else {
        match r {
            Ok(lane) => {
                &&& lane_authentic(verify, sorted, keys)
                &&& execution_lane(values, order_digest) == Ok::<ExecutionLane, Seq<char>>(lane)
            },
            Err(e) => {
                ||| lane_refused(verify, sorted, keys) && e
                    == "execution lane contains an unknown, duplicate, or invalid node"@
                ||| lane_authentic(verify, sorted, keys) && execution_lane(values, order_digest) == Err::<
                    ExecutionLane,
                    Seq<char>,
                >(e)
            },
        }
    }
}

/// Verify exactly one signed receipt per resident node and bind the proof
/// persistence files to the same sealed batch that was admitted for the slot.
/// What is certified is what [`derive_execution_lane`] derives.
pub fn verify_execution_lane<V: Fn(&VerifyingKey, &Vec<u8>, &Signature) -> bool>(
    attestations: &[NodeExecutionAttestation],
    trusted_node_keys: &[VerifyingKey],
    order_digest: [u8; 32],
    verify: &V,
) -> (r: Result<CertifiedExecutionLane, String>)
    requires
        can_verify(*verify),
    ensures
        lane_verified(
            *verify,
            executions(attestations@),
            trusted_node_keys@,
            order_digest@,
            match r {
                Ok(lane) => Ok(lane@),
                Err(e) => Err(e@),
            },
        ),
{
    if attestations.len() != COMMITTEE_NODES || trusted_node_keys.len() != COMMITTEE_NODES {
        return Err("execution lane needs exactly seven attestations and trusted keys".to_owned());
    }
    let ghost all = executions(attestations@);
    let order = execution_order(attestations);
    let ghost sorted = executions_by_node(all);
    let mut i: usize = 0;
    while i < COMMITTEE_NODES
        invariant
            i <= COMMITTEE_NODES,
            can_verify(*verify),
            attestations@.len() == COMMITTEE_NODES,
            trusted_node_keys@.len() == COMMITTEE_NODES,
            order@.len() == COMMITTEE_NODES,
            all == executions(attestations@),
            is_stable_order(execution_nodes(all), order@),
            sorted == rearranged(all, order@),
            sorted == executions_by_node(all),
            forall|j: int|
                0 <= j < i ==> (#[trigger] sorted[j]).node == j && sorted[j].complete() && answers(
                    *verify,
                    trusted_node_keys@[j],
                    sorted[j].body(),
                    sorted[j].signature,
                    true,
                ),
        decreases COMMITTEE_NODES - i,
    {
        let value = &attestations[order[i]];
        assert(sorted[i as int] == value@);
        if value.node as usize != i || !value.verify(&trusted_node_keys[i], verify) {
            assert(lane_refused(*verify, sorted, trusted_node_keys@));
            return Err("execution lane contains an unknown, duplicate, or invalid node".to_owned());
        }
        i = i + 1;
    }
    derive_execution_lane(attestations, order_digest)
}

/// Seven receipts of distinct nodes make the same lane in whatever order they are listed.
pub proof fn execution_lane_ignores_list_order(values: Seq<Execution>, order_digest: Seq<u8>, shuffle: Seq<usize>)
    requires
        values.len() == COMMITTEE_NODES,
        is_permutation(shuffle, values.len()),
        forall|i: int, j: int| 0 <= i < j < values.len() ==> (#[trigger] values[i]).node != (#[trigger] values[j]).node,
    ensures
        execution_lane(rearranged(values, shuffle), order_digest) == execution_lane(values, order_digest),
{
    let key = |v: Execution| v.node as int;
    let shuffled = rearranged(values, shuffle);
    stable_order_exists(shuffled.map_values(key));
    sorted_ignores_list_order(values, key, shuffle);
    assert(shuffled.map_values(key) =~= execution_nodes(shuffled));
    assert(values.map_values(key) =~= execution_nodes(values));
}

/// Committee-verified public binding for one fixed-population lane. It
/// contains no request amount, direction, price limit, or real/cover bit.
#[derive(Clone, Copy, Debug, PartialEq, Eq)]
pub struct CertifiedAdmissionLane {
    pub slot: u64,
    pub sequence: u64,
    pub principal_digest: [u8; 32],
    pub ticket_id: [u8; 32],
    pub claim_digest: [u8; 32],
    pub cluster_digest: [u8; 32],
    pub order_digest: [u8; 32],
}

/// What a certified admission lane says.
pub ghost struct AdmissionLane {
    pub slot: nat,
    pub sequence: nat,
    pub principal_digest: Seq<u8>,
    pub ticket_id: Seq<u8>,
    pub claim_digest: Seq<u8>,
    pub cluster_digest: Seq<u8>,
    pub order_digest: Seq<u8>,
}

impl View for CertifiedAdmissionLane {
    type V = AdmissionLane;

    open spec fn view(&self) -> AdmissionLane {
        AdmissionLane {
            slot: self.slot as nat,
            sequence: self.sequence as nat,
            principal_digest: self.principal_digest@,
            ticket_id: self.ticket_id@,
            claim_digest: self.claim_digest@,
            cluster_digest: self.cluster_digest@,
            order_digest: self.order_digest@,
        }
    }
}

impl AdmissionLane {
    /// The hashed text of the lane at a venue and epoch.
    pub open spec fn message(self, venue_id: Seq<u8>, epoch: nat) -> Seq<u8> {
        text_bytes("QOMM:ORDER:CERTIFIED-ADMISSION:v1"@) + venue_id + be_bytes(epoch, 8) + be_bytes(self.slot, 8)
            + be_bytes(self.sequence, 8) + self.ticket_id + self.claim_digest + self.cluster_digest
            + self.order_digest
    }
}

impl CertifiedAdmissionLane {
    /// Digest stored in a fixed-population batch. A real taker later proves
    /// that `claim_digest` is its signed mandate digest; covers advance the
    /// same opaque digest without an observable type flag.
    pub fn digest(&self, venue_id: [u8; 32], epoch: u64) -> (r: Result<[u8; 32], String>)
        ensures
            r is Ok <==> venue_id@ != zero32() && epoch != 0,
            r matches Ok(digest) ==> digest@ == sha256(self@.message(venue_id@, epoch as nat)),
            r matches Err(e) ==> e@ == "certified admission needs a venue and non-zero epoch"@,
    {
        if is_zero32(&venue_id) || epoch == 0 {
            return Err("certified admission needs a venue and non-zero epoch".to_owned());
        }
        let mut message: Vec<u8> = Vec::new();
        put(&mut message, "QOMM:ORDER:CERTIFIED-ADMISSION:v1".as_bytes());
        put(&mut message, venue_id.as_slice());
        put_be(&mut message, epoch, 8);
        put_be(&mut message, self.slot, 8);
        put_be(&mut message, self.sequence, 8);
        put(&mut message, self.ticket_id.as_slice());
        put(&mut message, self.claim_digest.as_slice());
        put(&mut message, self.cluster_digest.as_slice());
        put(&mut message, self.order_digest.as_slice());
        assert(message@ =~= self@.message(venue_id@, epoch as nat));
        Ok(hash(message.as_slice()))
    }
}

/// The batches of a list of admissions.
pub open spec fn admission_batches(values: Seq<Admission>) -> Seq<NodeBatch> {
    values.map_values(|v: Admission| NodeBatch { node: v.node, digest: v.batch_digest })
}

/// Whether two nodes agree on the admitted principal, claim and order.
pub open spec fn same_admission(a: Admission, b: Admission) -> bool {
    &&& a.slot == b.slot
    &&& a.sequence == b.sequence
    &&& a.principal_digest == b.principal_digest
    &&& a.ticket_id == b.ticket_id
    &&& a.claim_digest == b.claim_digest
    &&& a.order_digest == b.order_digest
}

/// The lane that seven authentic admissions in node order make, or why they make none.
pub open spec fn admission_lane(sorted: Seq<Admission>) -> Result<AdmissionLane, Seq<char>> {
    let first = sorted[0];
    if exists|i: int| 0 <= i < COMMITTEE_NODES && !same_admission(#[trigger] sorted[i], first) {
        Err("resident nodes disagree on the admitted principal, claim, or order"@)
    } else if first.slot > u32::MAX {
        Err("admission slot is outside the resident-node range"@)
    } else {
        match cluster_batch(first.slot, first.order_digest, admission_batches(sorted)) {
            Err(e) => Err(e),
            Ok(cluster_digest) => Ok(
                AdmissionLane {
                    slot: first.slot,
                    sequence: first.sequence,
                    principal_digest: first.principal_digest,
                    ticket_id: first.ticket_id,
                    claim_digest: first.claim_digest,
                    cluster_digest,
                    order_digest: first.order_digest,
                },
            ),
        }
    }
}

/// Whether every admission of a lane is of its node, complete and authentic.
pub open spec fn admissions_authentic<V: Fn(&VerifyingKey, &Vec<u8>, &Signature) -> bool>(
    verify: V,
    sorted: Seq<Admission>,
    keys: Seq<VerifyingKey>,
) -> bool {
    forall|i: int|
        0 <= i < COMMITTEE_NODES ==> (#[trigger] sorted[i]).node == i && sorted[i].complete() && answers(
            verify,
            keys[i],
            sorted[i].body(),
            sorted[i].signature,
            true,
        )
}

/// Whether an admission of a lane is of another node, not complete, or not authentic.
pub open spec fn admissions_refused<V: Fn(&VerifyingKey, &Vec<u8>, &Signature) -> bool>(
    verify: V,
    sorted: Seq<Admission>,
    keys: Seq<VerifyingKey>,
) -> bool {
    exists|i: int|
        0 <= i < COMMITTEE_NODES && ((#[trigger] sorted[i]).node != i || !sorted[i].complete() || answers(
            verify,
            keys[i],
            sorted[i].body(),
            sorted[i].signature,
            false,
        ))
}

/// Verify exactly seven resident-node attestations and collapse them to one
/// committee-wide lane. Each node may have a different share-frame batch
/// digest, while every content-independent ordering field must agree.
pub fn verify_admission_lane<V: Fn(&VerifyingKey, &Vec<u8>, &Signature) -> bool>(
    attestations: &[NodeAdmissionAttestation],
    trusted_node_keys: &[VerifyingKey],
    verify: &V,
) -> (r: Result<CertifiedAdmissionLane, String>)
    requires
        can_verify(*verify),
    ensures
        ({
            let sorted = admissions_by_node(admissions(attestations@));
            if attestations@.len() != COMMITTEE_NODES || trusted_node_keys@.len() != COMMITTEE_NODES {
                r matches Err(e) && e@ == "admission lane needs exactly seven attestations and trusted keys"@
            } else {
                match r {
                    Ok(lane) => {
                        &&& admissions_authentic(*verify, sorted, trusted_node_keys@)
                        &&& admission_lane(sorted) == Ok::<AdmissionLane, Seq<char>>(lane@)
                    },
                    Err(e) => {
                        ||| admissions_refused(*verify, sorted, trusted_node_keys@) && e@
                            == "admission lane contains an unknown, duplicate, or invalid node"@
                        ||| admissions_authentic(*verify, sorted, trusted_node_keys@)
                            && admission_lane(sorted) == Err::<
                            AdmissionLane,
                            Seq<char>,
                        >(e@)
                    },
                }
            }
        }),
{
    if attestations.len() != COMMITTEE_NODES || trusted_node_keys.len() != COMMITTEE_NODES {
        return Err("admission lane needs exactly seven attestations and trusted keys".to_owned());
    }
    let ghost all = admissions(attestations@);
    let order = admission_order(attestations);
    let ghost sorted = admissions_by_node(all);
    let mut i: usize = 0;
    while i < COMMITTEE_NODES
        invariant
            i <= COMMITTEE_NODES,
            can_verify(*verify),
            attestations@.len() == COMMITTEE_NODES,
            trusted_node_keys@.len() == COMMITTEE_NODES,
            order@.len() == COMMITTEE_NODES,
            all == admissions(attestations@),
            is_stable_order(admission_nodes(all), order@),
            sorted == rearranged(all, order@),
            sorted == admissions_by_node(all),
            forall|j: int|
                0 <= j < i ==> (#[trigger] sorted[j]).node == j && sorted[j].complete() && answers(
                    *verify,
                    trusted_node_keys@[j],
                    sorted[j].body(),
                    sorted[j].signature,
                    true,
                ),
        decreases COMMITTEE_NODES - i,
    {
        let value = &attestations[order[i]];
        assert(sorted[i as int] == value@);
        if value.node as usize != i || !value.verify(&trusted_node_keys[i], verify) {
            assert(admissions_refused(*verify, sorted, trusted_node_keys@));
            return Err("admission lane contains an unknown, duplicate, or invalid node".to_owned());
        }
        i = i + 1;
    }
    assert(admissions_authentic(*verify, sorted, trusted_node_keys@));
    let first = &attestations[order[0]];
    assert(sorted[0] == first@);
    let ghost pairs = admission_batches(sorted);
    let mut node_batches: Vec<(u16, [u8; 32])> = Vec::new();
    let mut k: usize = 0;
    while k < COMMITTEE_NODES
        invariant
            k <= COMMITTEE_NODES,
            attestations@.len() == COMMITTEE_NODES,
            trusted_node_keys@.len() == COMMITTEE_NODES,
            order@.len() == COMMITTEE_NODES,
            all == admissions(attestations@),
            is_stable_order(admission_nodes(all), order@),
            sorted == rearranged(all, order@),
            sorted == admissions_by_node(all),
            admissions_authentic(*verify, sorted, trusted_node_keys@),
            first@ == sorted[0],
            forall|j: int| 0 <= j < k ==> same_admission(#[trigger] sorted[j], sorted[0]),
            node_batches@.len() == k,
            pairs == admission_batches(sorted),
            forall|j: int| 0 <= j < k ==> batches(node_batches@)[j] == #[trigger] pairs[j],
        decreases COMMITTEE_NODES - k,
    {
        let value = &attestations[order[k]];
        assert(sorted[k as int] == value@);
        if value.slot != first.slot || value.sequence != first.sequence || !same32(
            &value.principal_digest,
            &first.principal_digest,
        ) || !same32(&value.ticket_id, &first.ticket_id) || !same32(&value.claim_digest, &first.claim_digest)
            || !same32(&value.order_digest, &first.order_digest) {
            assert(!same_admission(sorted[k as int], sorted[0]));
            return Err("resident nodes disagree on the admitted principal, claim, or order".to_owned());
        }
        let ghost before = node_batches@;
        node_batches.push((value.node, value.batch_digest));
        proof {
            assert forall|j: int| 0 <= j < k + 1 implies batches(node_batches@)[j] == #[trigger] pairs[j] by {
                if j < k {
                    assert(batches(before)[j] == pairs[j]);
                }
            }
        }
        k = k + 1;
    }
    assert(batches(node_batches@) =~= pairs);
    if first.slot > 0xffff_ffff {
        return Err("admission slot is outside the resident-node range".to_owned());
    }
    match cluster_batch_digest(first.slot as u32, first.order_digest, node_batches.as_slice()) {
        Err(e) => Err(e),
        Ok(cluster_digest) => Ok(
            CertifiedAdmissionLane {
                slot: first.slot,
                sequence: first.sequence,
                principal_digest: first.principal_digest,
                ticket_id: first.ticket_id,
                claim_digest: first.claim_digest,
                cluster_digest,
                order_digest: first.order_digest,
            },
        ),
    }
}

/// Seven admissions of distinct nodes make the same lane in whatever order they are listed.
pub proof fn admission_lane_ignores_list_order(values: Seq<Admission>, shuffle: Seq<usize>)
    requires
        values.len() == COMMITTEE_NODES,
        is_permutation(shuffle, values.len()),
        forall|i: int, j: int| 0 <= i < j < values.len() ==> (#[trigger] values[i]).node != (#[trigger] values[j]).node,
    ensures
        admission_lane(admissions_by_node(rearranged(values, shuffle))) == admission_lane(admissions_by_node(values)),
{
    let key = |v: Admission| v.node as int;
    let shuffled = rearranged(values, shuffle);
    stable_order_exists(shuffled.map_values(key));
    sorted_ignores_list_order(values, key, shuffle);
    assert(shuffled.map_values(key) =~= admission_nodes(shuffled));
    assert(values.map_values(key) =~= admission_nodes(values));
}

/// Whether a principal's name has an admissible length.
pub open spec fn admissible_principal(principal: Seq<char>) -> bool {
    0 < text_bytes(principal).len() <= 512
}

/// The hashed text of a principal's ticket for a slot.
pub open spec fn principal_ticket_message(slot: nat, principal: Seq<char>) -> Seq<u8> {
    text_bytes("QOMM:NODE:PRINCIPAL-TICKET:v1"@) + be_bytes(slot, 4) + be_bytes(text_bytes(principal).len(), 8)
        + text_bytes(principal)
}

/// Identifier the authenticated taker can bind into its mandate before it
/// submits the opaque frame. Every committee node derives the same value from
/// the authenticated principal and slot; no post-quote signature is needed.
pub fn principal_ticket_id(slot: u32, principal: &str) -> (r: Result<[u8; 32], String>)
    ensures
        r is Ok <==> admissible_principal(principal@),
        r matches Ok(id) ==> id@ == sha256(principal_ticket_message(slot as nat, principal@)),
        r matches Err(e) ==> e@ == "admission principal must contain 1..512 bytes"@,
{
    let name = principal.as_bytes();
    if name.len() == 0 || name.len() > 512 {
        return Err("admission principal must contain 1..512 bytes".to_owned());
    }
    let mut message: Vec<u8> = Vec::new();
    put(&mut message, "QOMM:NODE:PRINCIPAL-TICKET:v1".as_bytes());
    put_be(&mut message, slot as u64, 4);
    put_be(&mut message, name.len() as u64, 8);
    put(&mut message, name);
    assert(message@ =~= principal_ticket_message(slot as nat, principal@));
    Ok(hash(message.as_slice()))
}

/// The hashed text of a principal.
pub open spec fn principal_message(principal: Seq<char>) -> Seq<u8> {
    text_bytes("QOMM:ORDER:PRINCIPAL:v1"@) + be_bytes(text_bytes(principal).len(), 8) + text_bytes(principal)
}

/// The digest that stands for a principal.
pub fn admission_principal_digest(principal: &str) -> (r: Result<[u8; 32], String>)
    ensures
        r is Ok <==> admissible_principal(principal@),
        r matches Ok(digest) ==> digest@ == sha256(principal_message(principal@)),
        r matches Err(e) ==> e@ == "admission principal must contain 1..512 bytes"@,
{
    let name = principal.as_bytes();
    if name.len() == 0 || name.len() > 512 {
        return Err("admission principal must contain 1..512 bytes".to_owned());
    }
    let mut message: Vec<u8> = Vec::new();
    put(&mut message, "QOMM:ORDER:PRINCIPAL:v1".as_bytes());
    put_be(&mut message, name.len() as u64, 8);
    put(&mut message, name);
    assert(message@ =~= principal_message(principal@));
    Ok(hash(message.as_slice()))
}

/// Committee-visible result of ordering one opaque request frame.
///
/// The taker can sign its mandate before submitting because it commits only to
/// `ticket_id` and `slot`. The slot-derived `sequence`, batch digest, and this
/// receipt are created later by the committee, before any quote is disclosed.
/// A reserve approval signs [`OrderedAdmission::digest`], closing the otherwise
/// circular dependency in which a request contained the digest of its own
/// post-submission receipt.
#[derive(Clone, Copy, Debug, PartialEq, Eq)]
pub struct OrderedAdmission {
    pub venue_id: [u8; 32],
    pub epoch: u64,
    pub slot: u64,
    /// One-based position in the beacon-shuffled fixed-population slot.
    pub sequence: u64,
    pub ticket_id: [u8; 32],
    pub batch_digest: [u8; 32],
    pub order_digest: [u8; 32],
    pub rfq_nullifier: [u8; 32],
    pub taker_entity_commitment: [u8; 32],
    pub taker_mandate_digest: [u8; 32],
    pub expires_at: u64,
}

impl OrderedAdmission {
    /// Every digest is present and every number in the durable range.
    pub open spec fn complete(self) -> bool {
        &&& 0 < self.epoch <= DURABLE_MAX
        &&& self.slot <= DURABLE_MAX
        &&& 0 < self.sequence <= DURABLE_MAX
        &&& 0 < self.expires_at <= DURABLE_MAX
        &&& self.venue_id@ != zero32()
        &&& self.ticket_id@ != zero32()
        &&& self.batch_digest@ != zero32()
        &&& self.order_digest@ != zero32()
        &&& self.rfq_nullifier@ != zero32()
        &&& self.taker_entity_commitment@ != zero32()
        &&& self.taker_mandate_digest@ != zero32()
    }

    /// The signed text.
    pub open spec fn body(self) -> Seq<u8> {
        text_bytes("QOMM:ORDER:ADMISSION:v1"@) + self.venue_id@ + be_bytes(self.epoch as nat, 8) + be_bytes(
            self.slot as nat,
            8,
        ) + be_bytes(self.sequence as nat, 8) + self.ticket_id@ + self.batch_digest@ + self.order_digest@
            + self.rfq_nullifier@ + self.taker_entity_commitment@ + self.taker_mandate_digest@ + be_bytes(
            self.expires_at as nat,
            8,
        )
    }

    /// The lane that the admission belongs to.
    pub open spec fn lane(self) -> AdmissionLane {
        AdmissionLane {
            slot: self.slot as nat,
            sequence: self.sequence as nat,
            principal_digest: zero32(),
            ticket_id: self.ticket_id@,
            claim_digest: self.taker_mandate_digest@,
            cluster_digest: self.batch_digest@,
            order_digest: self.order_digest@,
        }
    }

    /// The text that is signed and hashed.
    pub fn unsigned(&self) -> (r: Result<Vec<u8>, String>)
        ensures
            r is Ok <==> self.complete(),
            r matches Ok(body) ==> body@ == self.body(),
            r matches Err(e) ==> e@ == "ordered admission is incomplete or outside the durable range"@,
    {
        if self.epoch == 0 || self.sequence == 0 || self.expires_at == 0 || self.epoch > DURABLE_MAX || self.slot
            > DURABLE_MAX || self.sequence > DURABLE_MAX || self.expires_at > DURABLE_MAX || is_zero32(&self.venue_id)
            || is_zero32(&self.ticket_id) || is_zero32(&self.batch_digest) || is_zero32(&self.order_digest)
            || is_zero32(&self.rfq_nullifier) || is_zero32(&self.taker_entity_commitment) || is_zero32(
            &self.taker_mandate_digest,
        ) {
            return Err("ordered admission is incomplete or outside the durable range".to_owned());
        }
        let mut body: Vec<u8> = Vec::new();
        put(&mut body, "QOMM:ORDER:ADMISSION:v1".as_bytes());
        put(&mut body, self.venue_id.as_slice());
        put_be(&mut body, self.epoch, 8);
        put_be(&mut body, self.slot, 8);
        put_be(&mut body, self.sequence, 8);
        put(&mut body, self.ticket_id.as_slice());
        put(&mut body, self.batch_digest.as_slice());
        put(&mut body, self.order_digest.as_slice());
        put(&mut body, self.rfq_nullifier.as_slice());
        put(&mut body, self.taker_entity_commitment.as_slice());
        put(&mut body, self.taker_mandate_digest.as_slice());
        put_be(&mut body, self.expires_at, 8);
        assert(body@ =~= self.body());
        Ok(body)
    }

    /// The digest of the signed text.
    pub fn digest(&self) -> (r: Result<[u8; 32], String>)
        ensures
            r is Ok <==> self.complete(),
            r matches Ok(digest) ==> digest@ == sha256(self.body()),
            r matches Err(e) ==> e@ == "ordered admission is incomplete or outside the durable range"@,
    {
        match self.unsigned() {
            Err(e) => Err(e),
            Ok(body) => Ok(hash(body.as_slice())),
        }
    }

    /// The opaque lane digest registered before any lane can reserve a legal
    /// entity's facility. The complete admission remains separately bound to
    /// the signed mandate by [`OrderedAdmission::digest`].
    pub fn certified_digest(&self) -> (r: Result<[u8; 32], String>)
        ensures
            r is Ok <==> self.venue_id@ != zero32() && self.epoch != 0,
            r matches Ok(digest) ==> digest@ == sha256(self.lane().message(self.venue_id@, self.epoch as nat)),
            r matches Err(e) ==> e@ == "certified admission needs a venue and non-zero epoch"@,
    {
        let lane = CertifiedAdmissionLane {
            slot: self.slot,
            sequence: self.sequence,
            principal_digest: [0u8; 32],
            ticket_id: self.ticket_id,
            claim_digest: self.taker_mandate_digest,
            cluster_digest: self.batch_digest,
            order_digest: self.order_digest,
        };
        assert(lane.principal_digest@ =~= zero32());
        lane.digest(self.venue_id, self.epoch)
    }
}

} // verus!
