//! The execution that a settlement proof is about, and its seven signed receipts.

use vstd::prelude::*;
use vstd::string::StrSliceExecFns;
use crate::application_crypto::{can_verify, answers, Signature, VerifyingKey};
use crate::bytes::{is_zero32, same32, zero32};
use crate::coordinator::{answered, ask_one, told, Call, ProofPartyRpc, COMMITTEE_SIZE};
use crate::fields::{either, hex_json, unless};
use crate::json::{as_text, text_in, Json, Value};
use crate::oracle::{ask, decides, yes};
use crate::order::{
    decode_node_execution_attestation, derive_execution_lane, execution_batches, execution_lane, execution_nodes,
    executions, executions_by_node, lane_authentic, lane_refused, live_proof_job_id, live_proof_job_message,
    read_executions, same_run, verify_execution_lane, Execution, ExecutionLane, NodeExecutionAttestation,
    COMMITTEE_NODES,
};
use crate::digest::sha256;
use crate::quote_messages::{entries_said, hex_value, object, object_json};
use crate::sorting::rearranged;
use crate::text::{about, base64_bytes, base64_decode, decimal, decimal_text, hex_bytes, hex_decode, is_hex};

verus! {

/// What one node ran, as the coordinator knows it.
#[derive(Clone, Copy, Debug, PartialEq, Eq)]
pub struct ExecutionAttestationInput {
    pub batch_digest: [u8; 32],
    pub source_digest: [u8; 32],
    pub stdout_digest: [u8; 32],
    pub stderr_digest: [u8; 32],
    pub persistence_digest: [u8; 32],
}

impl ExecutionAttestationInput {
    /// Whether no digest is missing.
    pub open spec fn whole(self) -> bool {
        &&& self.batch_digest@ != zero32()
        &&& self.source_digest@ != zero32()
        &&& self.stdout_digest@ != zero32()
        &&& self.stderr_digest@ != zero32()
        &&& self.persistence_digest@ != zero32()
    }

    fn is_whole(&self) -> (r: bool)
        ensures
            r == self.whole(),
    {
        !is_zero32(&self.batch_digest) && !is_zero32(&self.source_digest) && !is_zero32(&self.stdout_digest)
            && !is_zero32(&self.stderr_digest) && !is_zero32(&self.persistence_digest)
    }
}

/// The public fields of one execution by seven nodes. The proof job's identifier
/// is derived from them before any proof is made, and checked again against all
/// seven signed attestations.
#[derive(Debug)]
pub struct ProductExecutionRequest {
    pub lane: usize,
    pub slot: u64,
    pub generation: u64,
    pub frame_count: u64,
    pub input_count: u64,
    pub order_digest: [u8; 32],
    pub nodes: Vec<ExecutionAttestationInput>,
}

impl ProductExecutionRequest {
    /// Whether the fields are within their bounds and there are seven nodes.
    pub open spec fn bounded(self) -> bool {
        &&& self.lane <= 4095
        &&& self.slot <= u32::MAX
        &&& self.generation != 0
        &&& self.frame_count != 0
        &&& self.input_count != 0
        &&& self.order_digest@ != zero32()
        &&& self.nodes@.len() == COMMITTEE_SIZE
        &&& forall|i: int| 0 <= i < self.nodes@.len() ==> (#[trigger] self.nodes@[i]).whole()
    }

    /// The receipt of a node before its digest is known.
    pub open spec fn blank(self, node: int) -> Execution {
        let input = self.nodes@[node];
        Execution {
            node: node as nat,
            slot: self.slot as nat,
            lane: self.lane as nat,
            batch_digest: input.batch_digest@,
            source_digest: input.source_digest@,
            state_generation: self.generation as nat,
            frame_count: self.frame_count as nat,
            input_count: self.input_count as nat,
            stdout_digest: input.stdout_digest@,
            stderr_digest: input.stderr_digest@,
            persistence_digest: input.persistence_digest@,
            receipt_digest: zero32(),
            signature: Seq::empty(),
        }
    }

    /// The receipt of a node.
    pub open spec fn receipt(self, node: int) -> Execution {
        Execution { receipt_digest: sha256(self.blank(node).receipt_message()), ..self.blank(node) }
    }

    /// The receipts of all nodes.
    pub open spec fn receipts(self) -> Seq<Execution> {
        Seq::new(COMMITTEE_SIZE as nat, |i: int| self.receipt(i))
    }

    /// The receipts that the nodes are expected to sign.
    #[verifier::loop_isolation(false)]
    pub fn receipt_statements(&self) -> (r: Result<Vec<NodeExecutionAttestation>, String>)
        ensures
            match r {
                Ok(values) => self.bounded() && executions(values@) == self.receipts(),
                Err(e) => !self.bounded() && e@ == "product execution request is outside its fixed bounds"@,
            },
    {
        let mut whole = true;
        let mut i: usize = 0;
        while i < self.nodes.len()
            invariant
                i <= self.nodes@.len(),
                whole == forall|j: int| 0 <= j < i ==> (#[trigger] self.nodes@[j]).whole(),
            decreases self.nodes@.len() - i,
        {
            if !self.nodes[i].is_whole() {
                whole = false;
            }
            i = i + 1;
        }
        if self.lane > 4095 || self.slot > 0xffff_ffff || self.generation == 0 || self.frame_count == 0
            || self.input_count == 0 || is_zero32(&self.order_digest) || self.nodes.len() != COMMITTEE_SIZE || !whole {
            return Err("product execution request is outside its fixed bounds".to_owned());
        }
        let zero: [u8; 32] = [0u8; 32];
        let mut values: Vec<NodeExecutionAttestation> = Vec::new();
        i = 0;
        while i < COMMITTEE_SIZE
            invariant
                i <= COMMITTEE_SIZE,
                values@.len() == i,
                forall|j: int| 0 <= j < i ==> (#[trigger] values@[j])@ == self.receipt(j),
            decreases COMMITTEE_SIZE - i,
        {
            let input = self.nodes[i];
            let mut statement = NodeExecutionAttestation {
                node: i as u16,
                slot: self.slot,
                lane: self.lane as u64,
                batch_digest: input.batch_digest,
                source_digest: input.source_digest,
                state_generation: self.generation,
                frame_count: self.frame_count,
                input_count: self.input_count,
                stdout_digest: input.stdout_digest,
                stderr_digest: input.stderr_digest,
                persistence_digest: input.persistence_digest,
                receipt_digest: zero,
                signature: Signature { bytes: Vec::new() },
            };
            proof {
                assert(zero@ =~= zero32());
                assert(statement@.signature =~= Seq::empty());
                assert(statement@ == self.blank(i as int));
            }
            match statement.recompute_receipt_digest() {
                Err(e) => {
                    return Err(e);
                },
                Ok(digest) => {
                    statement.receipt_digest = digest;
                },
            }
            assert(statement@ == self.receipt(i as int));
            values.push(statement);
            i = i + 1;
        }
        assert(executions(values@) =~= self.receipts());
        Ok(values)
    }

    /// The identifier of the proof job of this execution, or why there is none.
    pub open spec fn planned(self) -> Result<Seq<u8>, Seq<char>> {
        if !self.bounded() {
            Err("product execution request is outside its fixed bounds"@)
        } else {
            job_of_lane(execution_lane(self.receipts(), self.order_digest@))
        }
    }

    /// The identifier of the proof job that proof parties and the ledger's
    /// verifier expect for this exact execution lane.
    pub fn job_id(&self) -> (r: Result<[u8; 32], String>)
        ensures
            match r {
                Ok(id) => self.planned() == Ok::<Seq<u8>, Seq<char>>(id@),
                Err(e) => self.planned() == Err::<Seq<u8>, Seq<char>>(e@),
            },
    {
        let values = match self.receipt_statements() {
            Err(e) => {
                return Err(e);
            },
            Ok(values) => values,
        };
        let lane = match derive_execution_lane(values.as_slice(), self.order_digest) {
            Err(e) => {
                return Err(e);
            },
            Ok(lane) => lane,
        };
        lane_job(lane.slot, lane.lane, lane.digest)
    }
}

/// The proof job of an execution lane, or why there is none.
pub open spec fn job_of_lane(lane: Result<ExecutionLane, Seq<char>>) -> Result<Seq<u8>, Seq<char>> {
    match lane {
        Err(e) => Err(e),
        Ok(lane) => if lane.slot > u32::MAX {
            Err("execution receipt slot is outside the MPC range"@)
        } else if lane.lane > usize::MAX {
            Err("execution receipt lane exceeds usize"@)
        } else if lane.digest == zero32() || lane.lane > 4095 {
            Err("live proof job is outside its quote or lane bound"@)
        } else {
            Ok(sha256(live_proof_job_message(lane.slot, lane.lane, lane.digest)))
        },
    }
}

fn lane_job(slot: u64, lane: u64, digest: [u8; 32]) -> (r: Result<[u8; 32], String>)
    ensures
        ({
            let of = ExecutionLane {
                slot: slot as nat,
                lane: lane as nat,
                cluster_digest: Seq::empty(),
                source_digest: Seq::empty(),
                digest: digest@,
            };
            match r {
                Ok(id) => job_of_lane(Ok(of)) == Ok::<Seq<u8>, Seq<char>>(id@),
                Err(e) => job_of_lane(Ok(of)) == Err::<Seq<u8>, Seq<char>>(e@),
            }
        }),
{
    if slot > 0xffff_ffff {
        return Err("execution receipt slot is outside the MPC range".to_owned());
    }
    if lane > usize::MAX as u64 {
        return Err("execution receipt lane exceeds usize".to_owned());
    }
    live_proof_job_id(slot as u32, lane as usize, digest)
}

/// The proof job that signed receipts certify.
pub fn certified_job<V: Fn(&VerifyingKey, &Vec<u8>, &Signature) -> bool>(
    attestations: &Vec<NodeExecutionAttestation>,
    keys: &Vec<VerifyingKey>,
    order_digest: [u8; 32],
    verify: &V,
) -> (r: Result<[u8; 32], String>)
    requires
        can_verify(*verify),
    ensures
        ({
            let values = executions(attestations@);
            let sorted = executions_by_node(values);
            if attestations@.len() != COMMITTEE_NODES || keys@.len() != COMMITTEE_NODES {
                r matches Err(e) && e@ == "execution lane needs exactly seven attestations and trusted keys"@
            } else {
                match r {
                    Ok(id) => {
                        &&& lane_authentic(*verify, sorted, keys@)
                        &&& job_of_lane(execution_lane(values, order_digest@)) == Ok::<Seq<u8>, Seq<char>>(id@)
                    },
                    Err(e) => {
                        ||| lane_refused(*verify, sorted, keys@) && e@
                            == "execution lane contains an unknown, duplicate, or invalid node"@
                        ||| lane_authentic(*verify, sorted, keys@) && job_of_lane(
                            execution_lane(values, order_digest@),
                        ) == Err::<Seq<u8>, Seq<char>>(e@)
                    },
                }
            }
        }),
{
    match verify_execution_lane(attestations.as_slice(), keys.as_slice(), order_digest, verify) {
        Err(e) => Err(e),
        Ok(lane) => lane_job(lane.slot, lane.lane, lane.digest),
    }
}

/// Receipts without their signatures.
pub open spec fn unsigned_receipts(values: Seq<Execution>) -> Seq<Execution> {
    values.map_values(|v: Execution| Execution { signature: Seq::empty(), ..v })
}

/// The lane of receipts does not depend on their signatures.
proof fn lane_ignores_signatures(values: Seq<Execution>, order_digest: Seq<u8>)
    requires
        values.len() == COMMITTEE_NODES,
    ensures
        execution_lane(unsigned_receipts(values), order_digest) == execution_lane(values, order_digest),
{
    let plain = unsigned_receipts(values);
    assert(execution_nodes(plain) =~= execution_nodes(values));
    let a = executions_by_node(plain);
    let b = executions_by_node(values);
    let order = crate::sorting::order_of(execution_nodes(values));
    crate::sorting::stable_order_exists(execution_nodes(values));
    assert(crate::sorting::is_stable_order(execution_nodes(values), order));
    assert forall|i: int| 0 <= i < COMMITTEE_NODES implies {
        &&& #[trigger] a[i] == (Execution { signature: Seq::<u8>::empty(), ..b[i] })
        &&& a[i].complete() == b[i].complete()
        &&& same_run(a[i], a[0]) == same_run(b[i], b[0])
    } by {
        assert(0 <= order[i] < values.len());
        assert(0 <= order[0] < values.len());
        assert(a[i].receipt_message() =~= b[i].receipt_message());
    }
    assert(a.len() == COMMITTEE_NODES && b.len() == COMMITTEE_NODES);
    assert(execution_batches(a) =~= execution_batches(b));
    assert(a.map_values(|v: Execution| crate::bytes::be_bytes(v.node, 2) + v.receipt_digest) =~= b.map_values(
        |v: Execution| crate::bytes::be_bytes(v.node, 2) + v.receipt_digest,
    ));
    assert forall|i: int| 0 <= i < COMMITTEE_NODES implies {
        &&& (#[trigger] b[i]).node == a[i].node
        &&& b[i].complete() == a[i].complete()
        &&& same_run(b[i], b[0]) == same_run(a[i], a[0])
    } by {
        assert(a[i] == (Execution { signature: Seq::<u8>::empty(), ..b[i] }));
    }
}

/// The proof job that is planned from an execution's public fields is the one
/// that its seven signed receipts certify, whatever order they are listed in.
pub proof fn planned_job_is_certified(
    request: ProductExecutionRequest,
    signed: Seq<Execution>,
    shuffle: Seq<usize>,
)
    requires
        request.bounded(),
        signed.len() == COMMITTEE_NODES,
        crate::sorting::is_permutation(shuffle, signed.len()),
        unsigned_receipts(signed) == rearranged(request.receipts(), shuffle),
    ensures
        job_of_lane(execution_lane(signed, request.order_digest@)) == request.planned(),
{
    lane_ignores_signatures(signed, request.order_digest@);
    let receipts = request.receipts();
    assert forall|i: int, j: int| 0 <= i < j < receipts.len() implies (#[trigger] receipts[i]).node != (
    #[trigger] receipts[j]).node by {
    }
    crate::order::execution_lane_ignores_list_order(receipts, request.order_digest@, shuffle);
}

/// A list with one more name, where a condition holds.
pub open spec fn noted(names: Seq<char>, differs: bool, name: Seq<char>) -> Seq<char> {
    if !differs {
        names
    } else if names.len() == 0 {
        name
    } else {
        names + ", "@ + name
    }
}

fn note(names: String, differs: bool, name: &str) -> (r: String)
    ensures
        r@ == noted(names@, differs, name@),
{
    if !differs {
        names
    } else if names.as_str().unicode_len() == 0 {
        name.to_owned()
    } else {
        let more = about(names.as_str(), ", ");
        about(more.as_str(), name)
    }
}

/// The names of the fields in which an attestation differs from what a node was
/// expected to attest.
pub open spec fn mismatches(
    attested: Execution,
    request: ProductExecutionRequest,
    node: int,
    authentic: bool,
) -> Seq<char> {
    let input = request.nodes@[node];
    let names = Seq::<char>::empty();
    let names = noted(names, attested.node != node, "node"@);
    let names = noted(names, attested.slot != request.slot, "slot"@);
    let names = noted(names, attested.lane != request.lane, "lane"@);
    let names = noted(names, attested.state_generation != request.generation, "generation"@);
    let names = noted(names, attested.frame_count != request.frame_count, "frame_count"@);
    let names = noted(names, attested.input_count != request.input_count, "input_count"@);
    let names = noted(names, attested.batch_digest != input.batch_digest@, "batch_digest"@);
    let names = noted(names, attested.source_digest != input.source_digest@, "source_digest"@);
    let names = noted(names, attested.stdout_digest != input.stdout_digest@, "stdout_digest"@);
    let names = noted(names, attested.stderr_digest != input.stderr_digest@, "stderr_digest"@);
    let names = noted(names, attested.persistence_digest != input.persistence_digest@, "persistence_digest"@);
    let names = noted(names, !authentic, "signature"@);
    names
}

fn list_mismatches(
    decoded: &NodeExecutionAttestation,
    request: &ProductExecutionRequest,
    node: usize,
    authentic: bool,
) -> (names: String)
    requires
        node < request.nodes@.len(),
    ensures
        names@ == mismatches(decoded@, *request, node as int, authentic),
{
    let input = request.nodes[node];
    let names = String::new();
    assert(names@ =~= Seq::<char>::empty());
    let names = note(names, decoded.node as usize != node, "node");
    let names = note(names, decoded.slot != request.slot, "slot");
    let names = note(names, decoded.lane != request.lane as u64, "lane");
    let names = note(names, decoded.state_generation != request.generation, "generation");
    let names = note(names, decoded.frame_count != request.frame_count, "frame_count");
    let names = note(names, decoded.input_count != request.input_count, "input_count");
    let names = note(names, !same32(&decoded.batch_digest, &input.batch_digest), "batch_digest");
    let names = note(names, !same32(&decoded.source_digest, &input.source_digest), "source_digest");
    let names = note(names, !same32(&decoded.stdout_digest, &input.stdout_digest), "stdout_digest");
    let names = note(names, !same32(&decoded.stderr_digest, &input.stderr_digest), "stderr_digest");
    let names = note(names, !same32(&decoded.persistence_digest, &input.persistence_digest), "persistence_digest");
    let names = note(names, !authentic, "signature");
    names
}

/// What a node is asked to attest.
pub open spec fn execution_json(request: ProductExecutionRequest, job_id: Seq<u8>, node: int) -> Json {
    let input = request.nodes@[node];
    object_json(
        seq![
            ("job_id"@, hex_json(job_id)),
            ("slot"@, Json::Integer(request.slot as int)),
            ("lane"@, Json::Integer(request.lane as int)),
            ("state_generation"@, Json::Integer(request.generation as int)),
            ("frame_count"@, Json::Integer(request.frame_count as int)),
            ("input_count"@, Json::Integer(request.input_count as int)),
            ("batch_digest"@, hex_json(input.batch_digest@)),
            ("source_digest"@, hex_json(input.source_digest@)),
            ("stdout_digest"@, hex_json(input.stdout_digest@)),
            ("stderr_digest"@, hex_json(input.stderr_digest@)),
        ],
    )
}

/// What a node is asked to attest.
pub fn execution_params(request: &ProductExecutionRequest, job_id: &[u8; 32], node: usize) -> (params: Value)
    requires
        node < request.nodes@.len(),
    ensures
        params@ == execution_json(*request, job_id@, node as int),
{
    let input = request.nodes[node];
    let entries: Vec<(String, Value)> = vec![
        ("job_id".to_owned(), hex_value(job_id)),
        ("slot".to_owned(), Value::Integer(request.slot as i128)),
        ("lane".to_owned(), Value::Integer(request.lane as i128)),
        ("state_generation".to_owned(), Value::Integer(request.generation as i128)),
        ("frame_count".to_owned(), Value::Integer(request.frame_count as i128)),
        ("input_count".to_owned(), Value::Integer(request.input_count as i128)),
        ("batch_digest".to_owned(), hex_value(&input.batch_digest)),
        ("source_digest".to_owned(), hex_value(&input.source_digest)),
        ("stdout_digest".to_owned(), hex_value(&input.stdout_digest)),
        ("stderr_digest".to_owned(), hex_value(&input.stderr_digest)),
    ];
    assert(entries_said(entries@) =~= seq![
        ("job_id"@, hex_json(job_id@)),
        ("slot"@, Json::Integer(request.slot as int)),
        ("lane"@, Json::Integer(request.lane as int)),
        ("state_generation"@, Json::Integer(request.generation as int)),
        ("frame_count"@, Json::Integer(request.frame_count as int)),
        ("input_count"@, Json::Integer(request.input_count as int)),
        ("batch_digest"@, hex_json(input.batch_digest@)),
        ("source_digest"@, hex_json(input.source_digest@)),
        ("stdout_digest"@, hex_json(input.stdout_digest@)),
        ("stderr_digest"@, hex_json(input.stderr_digest@)),
    ]);
    object(entries)
}

/// A node's attestation, and the key it is under.
#[derive(Debug)]
pub struct AttestedExecution {
    pub attestation: NodeExecutionAttestation,
    pub key: [u8; 32],
}

/// Why an answer carries no attestation that can be read.
pub open spec fn attestation_refusal<K: Fn(&Vec<u8>) -> bool>(
    value: Json,
    known: K,
    signature_bytes: nat,
) -> Option<Seq<char>> {
    let identity = text_in(value.field("identity_public"@));
    let wire = text_in(value.field("wire"@));
    let raw = base64_bytes(wire->0);
    either(unless(identity is Some, "proof party omitted its execution identity"@),
    either(unless(is_hex(identity->0), "proof-party execution identity is not hexadecimal"@),
    either(unless(hex_bytes(identity->0).len() == 32, "proof-party execution identity is not 32 bytes"@),
    either(unless(yes(known, hex_bytes(identity->0)), "proof-party execution identity is not Ed25519"@),
    either(unless(wire is Some, "proof party omitted its execution attestation"@),
    either(unless(raw is Some, "proof-party execution attestation is not base64"@),
    match read_executions(raw->0, 1, signature_bytes) { Ok(_) => None, Err(e) => Some(e) }))))))
}

/// Whether an attestation and its key are those of an answer.
pub open spec fn attestation_said(value: Json, signature_bytes: nat, read: AttestedExecution) -> bool {
    &&& read.key@ == hex_bytes(text_in(value.field("identity_public"@))->0)
    &&& read_executions(base64_bytes(text_in(value.field("wire"@))->0)->0, 1, signature_bytes) == Ok::<
        Seq<Execution>,
        Seq<char>,
    >(seq![read.attestation@])
}

fn read_attestation<K: Fn(&Vec<u8>) -> bool>(value: &Value, known: &K, signature_bytes: usize) -> (r: Result<
    AttestedExecution,
    String,
>)
    requires
        decides(*known),
    ensures
        match r {
            Ok(read) => attestation_refusal(value@, *known, signature_bytes as nat) is None && attestation_said(
                value@,
                signature_bytes as nat,
                read,
            ),
            Err(e) => attestation_refusal(value@, *known, signature_bytes as nat) == Some(e@),
        },
{
    let identity = match as_text(value.get("identity_public")) {
        None => {
            return Err("proof party omitted its execution identity".to_owned());
        },
        Some(value) => value,
    };
    let bytes = match hex_decode(identity) {
        None => {
            return Err("proof-party execution identity is not hexadecimal".to_owned());
        },
        Some(value) => value,
    };
    if bytes.len() != 32 {
        return Err("proof-party execution identity is not 32 bytes".to_owned());
    }
    if !ask(known, &bytes) {
        return Err("proof-party execution identity is not Ed25519".to_owned());
    }
    assert(bytes@.subrange(0, 32) =~= bytes@);
    let key = crate::bytes::array32(bytes.as_slice(), 0);
    let text = match as_text(value.get("wire")) {
        None => {
            return Err("proof party omitted its execution attestation".to_owned());
        },
        Some(value) => value,
    };
    let raw = match base64_decode(text) {
        None => {
            return Err("proof-party execution attestation is not base64".to_owned());
        },
        Some(value) => value,
    };
    match decode_node_execution_attestation(raw.as_slice(), signature_bytes) {
        Err(e) => Err(e),
        Ok(attestation) => Ok(AttestedExecution { attestation, key }),
    }
}

/// The error of a node whose attestation differs from what was expected.
pub open spec fn mismatch_error(node: nat, names: Seq<char>) -> Seq<char> {
    "proof party "@ + decimal(node) + " returned an execution attestation with mismatched fields: "@ + names
}

/// Whether a node's answer is the attestation that was expected of it: it can be
/// read, differs in nothing, and is authentic; or what is said instead.
pub open spec fn attests<K: Fn(&Vec<u8>) -> bool, V: Fn(&VerifyingKey, &Vec<u8>, &Signature) -> bool>(
    outcome: Result<Json, Seq<char>>,
    request: ProductExecutionRequest,
    node: int,
    known: K,
    verify: V,
    signature_bytes: nat,
    read: Result<AttestedExecution, Seq<char>>,
) -> bool {
    match outcome {
        Err(e) => read == Err::<AttestedExecution, Seq<char>>(e),
        Ok(value) => match attestation_refusal(value, known, signature_bytes) {
            Some(e) => read == Err::<AttestedExecution, Seq<char>>(e),
            None => match read {
                Ok(found) => {
                    &&& attestation_said(value, signature_bytes, found)
                    &&& mismatches(found.attestation@, request, node, true).len() == 0
                    &&& found.attestation@.complete()
                    &&& answers(
                        verify,
                        (VerifyingKey { bytes: found.key }),
                        found.attestation@.body(),
                        found.attestation@.signature,
                        true,
                    )
                },
                Err(e) => exists|found: AttestedExecution, authentic: bool|
                    #![trigger mismatches(found.attestation@, request, node, authentic)]
                    attestation_said(value, signature_bytes, found) && mismatches(
                        found.attestation@,
                        request,
                        node,
                        authentic,
                    ).len() > 0 && e == mismatch_error(
                        node as nat,
                        mismatches(found.attestation@, request, node, authentic),
                    ) && (!authentic ==> !found.attestation@.complete() || answers(
                        verify,
                        (VerifyingKey { bytes: found.key }),
                        found.attestation@.body(),
                        found.attestation@.signature,
                        false,
                    )),
            },
        },
    }
}

/// Reads what a node answered and holds it against what was expected of it.
pub fn check_attestation<K: Fn(&Vec<u8>) -> bool, V: Fn(&VerifyingKey, &Vec<u8>, &Signature) -> bool>(
    value: &Value,
    request: &ProductExecutionRequest,
    node: usize,
    known: &K,
    verify: &V,
    signature_bytes: usize,
) -> (r: Result<AttestedExecution, String>)
    requires
        node < request.nodes@.len(),
        decides(*known),
        can_verify(*verify),
    ensures
        attests(
            Ok(value@),
            *request,
            node as int,
            *known,
            *verify,
            signature_bytes as nat,
            match r {
                Ok(found) => Ok(found),
                Err(e) => Err(e@),
            },
        ),
{
    let read = match read_attestation(value, known, signature_bytes) {
        Err(e) => {
            return Err(e);
        },
        Ok(read) => read,
    };
    let key = VerifyingKey { bytes: read.key };
    let authentic = read.attestation.verify(&key, verify);
    let names = list_mismatches(&read.attestation, request, node, authentic);
    if names.as_str().unicode_len() > 0 {
        let ghost listed = mismatches(read.attestation@, *request, node as int, authentic);
        let number = decimal_text(node as u64);
        let head = about("proof party ", number.as_str());
        let middle = about(head.as_str(), " returned an execution attestation with mismatched fields: ");
        let message = about(middle.as_str(), names.as_str());
        assert(message@ =~= mismatch_error(node as nat, listed));
        return Err(message);
    }
    proof {
        if !authentic {
            assert(noted(Seq::<char>::empty(), true, "signature"@) == "signature"@);
            reveal_strlit("signature");
            reveal_strlit(", ");
        }
    }
    Ok(read)
}

/// The calls after asking the first `count` nodes for their attestations.
pub open spec fn executions_asked(
    before: Seq<Seq<Call>>,
    request: ProductExecutionRequest,
    job_id: Seq<u8>,
    outcomes: Seq<Result<Json, Seq<char>>>,
    count: nat,
) -> Seq<Seq<Call>> {
    Seq::new(
        before.len(),
        |i: int|
            if i < count {
                before[i].push(
                    Call {
                        method: "sign_execution_attestation"@,
                        params: execution_json(request, job_id, i),
                        outcome: outcomes[i],
                    },
                )
            } else {
                before[i]
            },
    )
}

/// Whether the first attestations are those of the answers.
pub open spec fn all_attest<K: Fn(&Vec<u8>) -> bool, V: Fn(&VerifyingKey, &Vec<u8>, &Signature) -> bool>(
    outcomes: Seq<Result<Json, Seq<char>>>,
    request: ProductExecutionRequest,
    known: K,
    verify: V,
    signature_bytes: nat,
    found: Seq<AttestedExecution>,
) -> bool {
    forall|i: int|
        #![trigger found[i]]
        0 <= i < found.len() ==> attests(
            outcomes[i],
            request,
            i,
            known,
            verify,
            signature_bytes,
            Ok(found[i]),
        )
}

/// Asks the seven nodes in turn for the attestation of the execution, up to the
/// first that does not give the expected one.
#[verifier::loop_isolation(false)]
pub fn collect_executions<
    T: ProofPartyRpc,
    K: Fn(&Vec<u8>) -> bool,
    V: Fn(&VerifyingKey, &Vec<u8>, &Signature) -> bool,
>(
    parties: &mut Vec<T>,
    request: &ProductExecutionRequest,
    job_id: &[u8; 32],
    known: &K,
    verify: &V,
    signature_bytes: usize,
) -> (r: Result<Vec<AttestedExecution>, String>)
    requires
        old(parties)@.len() == COMMITTEE_SIZE,
        request.nodes@.len() == COMMITTEE_SIZE,
        decides(*known),
        can_verify(*verify),
    ensures
        final(parties)@.len() == COMMITTEE_SIZE,
        exists|outcomes: Seq<Result<Json, Seq<char>>>|
            #![trigger executions_asked(told(old(parties)@), *request, job_id@, outcomes, outcomes.len())]
            told(final(parties)@) == executions_asked(told(old(parties)@), *request, job_id@, outcomes, outcomes.len())
                && match r {
                Ok(found) => {
                    &&& outcomes.len() == COMMITTEE_SIZE
                    &&& found@.len() == COMMITTEE_SIZE
                    &&& all_attest(outcomes, *request, *known, *verify, signature_bytes as nat, found@)
                },
                Err(e) => {
                    &&& 0 < outcomes.len() <= COMMITTEE_SIZE
                    &&& attests(
                        outcomes.last(),
                        *request,
                        outcomes.len() - 1,
                        *known,
                        *verify,
                        signature_bytes as nat,
                        Err(e@),
                    )
                },
            },
{
    let ghost start = told(parties@);
    let ghost mut outcomes: Seq<Result<Json, Seq<char>>> = Seq::empty();
    let mut found: Vec<AttestedExecution> = Vec::new();
    assert(start =~= executions_asked(start, *request, job_id@, outcomes, 0));
    let mut i: usize = 0;
    while i < COMMITTEE_SIZE
        invariant
            i <= COMMITTEE_SIZE,
            parties@.len() == COMMITTEE_SIZE,
            start.len() == COMMITTEE_SIZE,
            outcomes.len() == i,
            found@.len() == i,
            told(parties@) == executions_asked(start, *request, job_id@, outcomes, i as nat),
            all_attest(outcomes, *request, *known, *verify, signature_bytes as nat, found@),
        decreases COMMITTEE_SIZE - i,
    {
        let params = execution_params(request, job_id, i);
        let answer = ask_one(parties, i, "sign_execution_attestation", &params);
        let ghost before = outcomes;
        proof {
            let more = outcomes.push(answered(answer));
            assert(told(parties@) =~= executions_asked(start, *request, job_id@, more, (i + 1) as nat));
            outcomes = more;
            assert(told(parties@) == executions_asked(start, *request, job_id@, outcomes, outcomes.len()));
            assert(outcomes.last() == answered(answer));
        }
        match answer {
            Err(e) => {
                return Err(e);
            },
            Ok(value) => match check_attestation(&value, request, i, known, verify, signature_bytes) {
                Err(e) => {
                    return Err(e);
                },
                Ok(read) => {
                    let ghost kept = found@;
                    found.push(read);
                    proof {
                        assert forall|j: int|
                            #![trigger found@[j]]
                            0 <= j < found@.len() implies attests(
                            outcomes[j],
                            *request,
                            j,
                            *known,
                            *verify,
                            signature_bytes as nat,
                            Ok(found@[j]),
                        ) by {
                            if j < i {
                                assert(found@[j] == kept[j]);
                                assert(outcomes[j] == before[j]);
                            }
                        }
                    }
                },
            },
        }
        i = i + 1;
    }
    Ok(found)
}

} // verus!
