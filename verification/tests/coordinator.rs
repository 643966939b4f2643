//! The coordinator of the proof committee.

use qomm_transport::application_crypto::{Signature, SigningKey, VerifyingKey};
use qomm_transport::coordinator::{complete_product_proof, ProofPartyRpc, COMMITTEE_SIZE};
use qomm_transport::json::Value;
use qomm_transport::order::{live_proof_job_id, verify_execution_lane, NodeExecutionAttestation};
use qomm_transport::product_execution::{certified_job, ExecutionAttestationInput, ProductExecutionRequest};

const SIGNING_QUORUM: [usize; 3] = [1, 4, 7];

#[derive(Default)]
struct RecordingParty {
    operations: Vec<String>,
    refuses: bool,
}

fn yes(name: &str) -> Value {
    Value::Object(vec![(name.to_string(), Value::Bool(true))])
}

impl ProofPartyRpc for RecordingParty {
    fn call(&mut self, method: &str, _params: Value) -> Result<Value, String> {
        self.operations.push(method.to_string());
        if self.refuses {
            return Ok(Value::Object(Vec::new()));
        }
        match method {
            "complete" => Ok(yes("completed")),
            "complete_observer" => Ok(yes("observer_completed")),
            _ => Err(format!("unexpected operation {method}")),
        }
    }
}

fn parties() -> Vec<RecordingParty> {
    (0..COMMITTEE_SIZE).map(|_| RecordingParty::default()).collect()
}

#[test]
fn completion_consumes_proofs_only_on_the_configured_three_of_seven_quorum() {
    let mut parties = parties();
    complete_product_proof(&mut parties, [9; 32]).unwrap();
    for (index, party) in parties.iter().enumerate() {
        let expected = if SIGNING_QUORUM.contains(&(index + 1)) {
            "complete"
        } else {
            "complete_observer"
        };
        assert_eq!(party.operations, [expected]);
    }
}

#[test]
fn completion_stops_at_the_first_party_that_does_not_close() {
    let mut parties = parties();
    parties[1].refuses = true;
    assert_eq!(
        complete_product_proof(&mut parties, [9; 32]).unwrap_err(),
        "observer proof party did not durably close the product proof"
    );
    assert_eq!(parties[0].operations, ["complete"]);
    assert_eq!(parties[1].operations, ["complete_observer"]);
    assert!(parties[2].operations.is_empty());
    let mut first = self::parties();
    first[0].refuses = true;
    assert_eq!(
        complete_product_proof(&mut first, [9; 32]).unwrap_err(),
        "signing proof party did not durably complete the product proof"
    );
    let mut six = self::parties();
    six.pop();
    assert_eq!(
        complete_product_proof(&mut six, [9; 32]).unwrap_err(),
        "product proof completion requires exactly seven parties"
    );
}

fn execution(source: u8, order: u8, lane: usize, slot: u64, generation: u64, input_count: u64) -> ProductExecutionRequest {
    ProductExecutionRequest {
        lane,
        slot,
        generation,
        frame_count: 1,
        input_count,
        order_digest: [order; 32],
        nodes: (0..COMMITTEE_SIZE)
            .map(|node| ExecutionAttestationInput {
                batch_digest: [u8::try_from(node + 1).unwrap(); 32],
                source_digest: [source; 32],
                stdout_digest: [u8::try_from(node + 11).unwrap(); 32],
                stderr_digest: [u8::try_from(node + 21).unwrap(); 32],
                persistence_digest: [u8::try_from(node + 31).unwrap(); 32],
            })
            .collect(),
    }
}

fn signing_keys() -> Vec<SigningKey> {
    (0..COMMITTEE_SIZE)
        .map(|node| SigningKey {
            handle: node as u64,
            public: VerifyingKey { bytes: [u8::try_from(node + 1).unwrap(); 32] },
        })
        .collect()
}

fn mark(key: &VerifyingKey, body: &Vec<u8>) -> Vec<u8> {
    let mut bytes = key.bytes.to_vec();
    bytes.extend_from_slice(body);
    bytes
}

fn sign(key: &SigningKey, body: &Vec<u8>) -> Result<Signature, String> {
    Ok(Signature { bytes: mark(&key.public, body) })
}

fn verify(key: &VerifyingKey, body: &Vec<u8>, signature: &Signature) -> bool {
    signature.bytes == mark(key, body)
}

fn signed(execution: &ProductExecutionRequest) -> (Vec<NodeExecutionAttestation>, Vec<VerifyingKey>) {
    let signing = signing_keys();
    let signed = execution
        .receipt_statements()
        .unwrap()
        .into_iter()
        .zip(&signing)
        .map(|(statement, key)| statement.sign(key, &sign).unwrap())
        .collect::<Vec<_>>();
    let trusted = signing.iter().map(SigningKey::verifying_key).collect::<Vec<_>>();
    (signed, trusted)
}

#[test]
fn planned_job_id_matches_the_seven_signed_execution_receipts() {
    let execution = execution(73, 91, 3, 17, 2, 49);
    let planned = execution.job_id().unwrap();
    let (signed, trusted) = signed(&execution);
    let certified = verify_execution_lane(&signed, &trusted, execution.order_digest, &verify).unwrap();
    let certified_job_id = live_proof_job_id(
        u32::try_from(certified.slot).unwrap(),
        usize::try_from(certified.lane).unwrap(),
        certified.digest,
    )
    .unwrap();
    assert_eq!(planned, certified_job_id);
    assert_eq!(certified_job(&signed, &trusted, execution.order_digest, &verify).unwrap(), planned);
}

#[test]
fn a_receipt_under_another_key_is_no_part_of_a_lane() {
    let execution = execution(73, 91, 3, 17, 2, 49);
    let (signed, mut trusted) = signed(&execution);
    trusted.swap(0, 1);
    assert_eq!(
        certified_job(&signed, &trusted, execution.order_digest, &verify).unwrap_err(),
        "execution lane contains an unknown, duplicate, or invalid node"
    );
}

#[test]
fn a_lane_ignores_the_order_of_its_receipts() {
    let execution = execution(73, 91, 3, 17, 2, 49);
    let (mut signed, trusted) = signed(&execution);
    let first = certified_job(&signed, &trusted, execution.order_digest, &verify).unwrap();
    signed.reverse();
    assert_eq!(certified_job(&signed, &trusted, execution.order_digest, &verify).unwrap(), first);
}

#[test]
fn job_id_changes_when_one_persistence_receipt_changes() {
    let mut execution = execution(71, 81, 0, 1, 1, 7);
    let before = execution.job_id().unwrap();
    execution.nodes[4].persistence_digest[0] ^= 1;
    assert_ne!(before, execution.job_id().unwrap());
}
