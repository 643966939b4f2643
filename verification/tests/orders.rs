//! Attestations, lanes, and the slots that order them.

use qomm_transport::application_crypto::{Signature, SigningKey, VerifyingKey};
use qomm_transport::order::{
    admission_principal_digest, cluster_batch_digest, complete_quote_context, decode_admission_attestations,
    decode_execution_attestations, derive_execution_lane, encode_admission_attestations,
    encode_execution_attestations, live_proof_job_id, principal_ticket_id, quote_proof_job_digest,
    verify_admission_lane, NodeAdmissionAttestation, NodeExecutionAttestation, OrderedAdmission,
};
use qomm_transport::sealer::FixedSlotSealer;
use qomm_transport::slot::{prove_omission, AdmissionAuthority, RandomnessBeacon};
use qomm_transport::wire::Frame;
use sha2::{Digest, Sha256};

fn mark(key: &VerifyingKey, body: &Vec<u8>) -> Vec<u8> {
    let mut hash = Sha256::new();
    hash.update(key.bytes);
    hash.update(body);
    hash.finalize().to_vec()
}

fn sign(key: &SigningKey, body: &Vec<u8>) -> Result<Signature, String> {
    Ok(Signature { bytes: mark(&key.public, body) })
}

fn verify(key: &VerifyingKey, body: &Vec<u8>, signature: &Signature) -> bool {
    signature.bytes == mark(key, body)
}

fn key(number: u8) -> SigningKey {
    SigningKey { handle: number as u64, public: VerifyingKey { bytes: [number; 32] } }
}

#[test]
fn job_digests_are_hashes_of_their_bound_fields() {
    let hashed = |parts: &[&[u8]]| -> [u8; 32] { Sha256::digest(parts.concat()).into() };
    let digest = quote_proof_job_digest([5; 32], 7).unwrap();
    assert_eq!(digest, hashed(&[b"QOMM:LIVE-QUOTE-PROOF:v1", &[5; 32], &7_u64.to_be_bytes()]));
    assert_eq!(
        live_proof_job_id(3, 2, [1; 32]).unwrap(),
        hashed(&[b"QOMM:LIVE-PROOF-JOB:v1", &3_u32.to_be_bytes(), &2_u64.to_be_bytes(), &[1; 32]])
    );
    assert_eq!(
        complete_quote_context([1; 32], [2; 32]),
        hashed(&[b"QOMM:LIVE:COMPLETE-QUOTE-CONTEXT:v1", &[1; 32], &[2; 32]])
    );
    assert_ne!(digest, quote_proof_job_digest([5; 32], 8).unwrap());
    assert_eq!(
        quote_proof_job_digest([0; 32], 7).unwrap_err(),
        "quote proof job is outside its cluster or lane bound"
    );
    assert_eq!(
        live_proof_job_id(1, 4096, [1; 32]).unwrap_err(),
        "live proof job is outside its quote or lane bound"
    );
    assert_ne!(live_proof_job_id(1, 2, [1; 32]).unwrap(), live_proof_job_id(2, 1, [1; 32]).unwrap());
    assert_ne!(complete_quote_context([1; 32], [2; 32]), complete_quote_context([2; 32], [1; 32]));
}

#[test]
fn a_principal_has_one_ticket_for_a_slot() {
    assert_eq!(principal_ticket_id(3, "maker").unwrap(), principal_ticket_id(3, "maker").unwrap());
    assert_ne!(principal_ticket_id(3, "maker").unwrap(), principal_ticket_id(4, "maker").unwrap());
    assert_ne!(admission_principal_digest("a").unwrap(), admission_principal_digest("b").unwrap());
    assert_eq!(
        principal_ticket_id(3, "").unwrap_err(),
        "admission principal must contain 1..512 bytes"
    );
    assert!(admission_principal_digest(&"x".repeat(513)).is_err());
}

fn admission(node: u16) -> NodeAdmissionAttestation {
    NodeAdmissionAttestation {
        node,
        slot: 9,
        sequence: 1,
        principal_digest: [1; 32],
        ticket_id: [2; 32],
        claim_digest: [3; 32],
        batch_digest: [10 + node as u8; 32],
        order_digest: [4; 32],
        signature: Signature { bytes: Vec::new() },
    }
    .sign(&key(node as u8 + 1), &sign)
    .unwrap()
}

fn trusted() -> Vec<VerifyingKey> {
    (1..=7).map(|number| key(number).public).collect()
}

#[test]
fn seven_admissions_make_one_lane_in_any_order() {
    let mut values = (0..7).map(admission).collect::<Vec<_>>();
    let lane = verify_admission_lane(&values, &trusted(), &verify).unwrap();
    assert_eq!(lane.sequence, 1);
    assert_eq!(lane.claim_digest, [3; 32]);
    values.swap(0, 5);
    assert_eq!(verify_admission_lane(&values, &trusted(), &verify).unwrap(), lane);
    values[2].claim_digest = [9; 32];
    assert_eq!(
        verify_admission_lane(&values, &trusted(), &verify).unwrap_err(),
        "admission lane contains an unknown, duplicate, or invalid node"
    );
    assert_eq!(
        verify_admission_lane(&values[..6], &trusted(), &verify).unwrap_err(),
        "admission lane needs exactly seven attestations and trusted keys"
    );
    assert_eq!(
        lane.digest([0; 32], 1).unwrap_err(),
        "certified admission needs a venue and non-zero epoch"
    );
    assert_ne!(lane.digest([1; 32], 1).unwrap(), lane.digest([1; 32], 2).unwrap());
}

#[test]
fn an_admission_wire_is_read_back_in_node_order() {
    let mut values = (0..7).map(admission).collect::<Vec<_>>();
    let raw = encode_admission_attestations(&values).unwrap();
    values.reverse();
    assert_eq!(encode_admission_attestations(&values).unwrap(), raw);
    let read = decode_admission_attestations(&raw, 32).unwrap();
    assert_eq!(read.iter().map(|value| value.node).collect::<Vec<_>>(), vec![0, 1, 2, 3, 4, 5, 6]);
    assert_eq!(encode_admission_attestations(&read).unwrap(), raw);
    assert_eq!(
        decode_admission_attestations(&raw[1..], 32).unwrap_err(),
        "admission attestation wire has an invalid header"
    );
    assert_eq!(
        decode_admission_attestations(&raw[..raw.len() - 1], 32).unwrap_err(),
        "admission attestation wire has the wrong population or length"
    );
    assert_eq!(
        encode_admission_attestations(&values[1..]).unwrap_err(),
        "admission attestation wire needs exactly seven nodes"
    );
}

fn execution(node: u16) -> NodeExecutionAttestation {
    let mut value = NodeExecutionAttestation {
        node,
        slot: 9,
        lane: 2,
        batch_digest: [10 + node as u8; 32],
        source_digest: [1; 32],
        state_generation: 3,
        frame_count: 4,
        input_count: 5,
        stdout_digest: [2; 32],
        stderr_digest: [3; 32],
        persistence_digest: [4; 32],
        receipt_digest: [0; 32],
        signature: Signature { bytes: Vec::new() },
    };
    value.receipt_digest = value.recompute_receipt_digest().unwrap();
    value.sign(&key(node as u8 + 1), &sign).unwrap()
}

#[test]
fn an_execution_wire_is_read_back_in_node_order() {
    let mut values = (0..7).map(execution).collect::<Vec<_>>();
    let raw = encode_execution_attestations(&values).unwrap();
    values.swap(1, 4);
    assert_eq!(encode_execution_attestations(&values).unwrap(), raw);
    let read = decode_execution_attestations(&raw, 32).unwrap();
    assert_eq!(encode_execution_attestations(&read).unwrap(), raw);
    let lane = derive_execution_lane(&values, [8; 32]).unwrap();
    assert_eq!(derive_execution_lane(&read, [8; 32]).unwrap(), lane);
    let mut changed = read;
    changed[3].stdout_digest[0] ^= 1;
    assert_eq!(
        changed[3].unsigned().unwrap_err(),
        "node execution attestation is incomplete or inconsistent"
    );
    assert_eq!(
        derive_execution_lane(&changed, [8; 32]).unwrap_err(),
        "execution lane contains an incomplete or duplicate receipt"
    );
}

#[test]
fn a_cluster_batch_is_of_exactly_seven_nodes() {
    let batches = (0..7_u16).map(|node| (node, [node as u8 + 1; 32])).collect::<Vec<_>>();
    let digest = cluster_batch_digest(4, [1; 32], &batches).unwrap();
    let mut turned = batches.clone();
    turned.reverse();
    assert_eq!(cluster_batch_digest(4, [1; 32], &turned).unwrap(), digest);
    assert_ne!(cluster_batch_digest(5, [1; 32], &batches).unwrap(), digest);
    assert_eq!(
        cluster_batch_digest(4, [0; 32], &batches).unwrap_err(),
        "cluster batch needs a non-zero order and exactly seven nodes"
    );
    turned[0].0 = 0;
    assert_eq!(
        cluster_batch_digest(4, [1; 32], &turned).unwrap_err(),
        "cluster batch nodes must be exactly 0..6 with non-zero digests"
    );
}

#[test]
fn an_ordered_admission_needs_all_its_fields() {
    let mut value = OrderedAdmission {
        venue_id: [1; 32],
        epoch: 1,
        slot: 2,
        sequence: 3,
        ticket_id: [4; 32],
        batch_digest: [5; 32],
        order_digest: [6; 32],
        rfq_nullifier: [7; 32],
        taker_entity_commitment: [8; 32],
        taker_mandate_digest: [9; 32],
        expires_at: 10,
    };
    assert_ne!(value.digest().unwrap(), value.certified_digest().unwrap());
    value.ticket_id = [0; 32];
    assert_eq!(
        value.unsigned().unwrap_err(),
        "ordered admission is incomplete or outside the durable range"
    );
}

#[test]
fn an_entity_gets_one_ticket_for_a_slot() {
    assert!(AdmissionAuthority::new(key(1), vec![1; 31]).is_err());
    let mut authority = AdmissionAuthority::new(key(1), vec![1; 32]).unwrap();
    let first = authority.issue(b"maker", 5, Some(100), 50, Some([7; 32]), 0, [9; 32], &sign).unwrap();
    assert_eq!(first.ticket_id, [7; 32]);
    assert_eq!(first.expires_at, 150);
    assert!(first.verify(&key(1).public, 120, &verify));
    assert!(!first.verify(&key(1).public, 151, &verify));
    assert!(!first.verify(&key(2).public, 120, &verify));
    assert_eq!(
        authority.issue(b"maker", 5, Some(101), 50, None, 0, [8; 32], &sign).unwrap_err(),
        "this legal entity already has a ticket for the slot"
    );
    let other = authority.issue(b"taker", 5, None, 50, None, 77, [8; 32], &sign).unwrap();
    assert_eq!((other.ticket_id, other.issued_at), ([8; 32], 77));
    assert_eq!(
        authority.issue(b"maker", 6, None, 0, None, 1, [8; 32], &sign).unwrap_err(),
        "ticket lifetime must be positive"
    );
    assert_eq!(
        authority.issue(b"", 6, None, 1, None, 1, [8; 32], &sign).unwrap_err(),
        "an empty legal-entity identifier is not admissible"
    );
    assert_eq!(
        authority.issue(b"maker", 6, Some(u64::MAX), 1, None, 1, [8; 32], &sign).unwrap_err(),
        "ticket expiry overflow"
    );
}

fn frame(number: u8, slot: u32) -> Frame {
    Frame { slot, node: 3, payload: vec![number; 4], encoded: vec![number; 4] }
}

#[test]
fn a_slot_is_sealed_in_the_order_of_its_beacon() {
    let mut authority = AdmissionAuthority::new(key(1), vec![1; 32]).unwrap();
    let tickets = [b"a", b"b", b"c"]
        .iter()
        .enumerate()
        .map(|(i, name)| {
            authority
                .issue(name.as_slice(), 5, Some(0), u64::MAX / 2, Some([i as u8 + 1; 32]), 0, [0; 32], &sign)
                .unwrap()
        })
        .collect::<Vec<_>>();
    let mut sealer =
        FixedSlotSealer::new(5, 3, 1_000, tickets.clone(), key(1).public, key(2).public, key(3), [0; 32]).unwrap();
    let early = RandomnessBeacon::sign(5, [7; 32], &key(2), &sign).unwrap();
    let beacon = RandomnessBeacon::sign(6, [7; 32], &key(2), &sign).unwrap();
    let receipts = tickets
        .iter()
        .enumerate()
        .map(|(i, ticket)| sealer.admit_frame(ticket, frame(i as u8, 5), 900, &verify, &sign).unwrap())
        .collect::<Vec<_>>();
    assert_eq!(
        sealer.admit_frame(&tickets[0], frame(9, 5), 900, &verify, &sign).unwrap_err(),
        "one ticket attempted to replace its admitted frame"
    );
    assert_eq!(
        sealer.admit_frame(&tickets[0], frame(0, 5), 1_001, &verify, &sign).unwrap_err(),
        "the frame arrived after the sealed deadline"
    );
    assert_eq!(
        sealer.close(&beacon, 900, &verify, &sign).unwrap_err(),
        "the batch cannot close before its deadline"
    );
    assert_eq!(
        sealer.close(&early, 1_001, &verify, &sign).unwrap_err(),
        "ordering randomness must be generated after the slot"
    );
    let (frames, manifest) = sealer.close(&beacon, 1_001, &verify, &sign).unwrap();
    assert_eq!(frames.len(), 3);
    assert!(manifest.verify(&key(3).public, &verify));
    for receipt in &receipts {
        assert!(receipt.verify(&key(3).public, &verify));
        assert!(manifest.includes(receipt));
        assert!(!prove_omission(receipt, &manifest, &key(3).public, &verify));
    }
    let mut shown = frames.iter().map(|frame| frame.payload[0]).collect::<Vec<_>>();
    shown.sort();
    assert_eq!(shown, vec![0, 1, 2]);
    assert_eq!(
        sealer.close(&beacon, 1_002, &verify, &sign).unwrap_err(),
        "the slot is already closed"
    );
    assert!(sealer.admitted.iter().all(|kept| kept.receipt.verify(&key(3).public, &verify)));
    let mut shortened = manifest;
    let dropped = shortened.ordered_ticket_digests.pop().unwrap();
    shortened.ordered_frame_digests.pop();
    shortened.signature = sign(&key(3), &shortened.unsigned().unwrap()).unwrap();
    for kept in &sealer.admitted {
        assert_eq!(
            prove_omission(&kept.receipt, &shortened, &key(3).public, &verify),
            kept.receipt.ticket_digest == dropped
        );
    }
}

#[test]
fn a_slot_with_a_missing_frame_does_not_close() {
    let mut authority = AdmissionAuthority::new(key(1), vec![1; 32]).unwrap();
    let ticket = authority.issue(b"a", 5, Some(0), u64::MAX / 2, Some([1; 32]), 0, [0; 32], &sign).unwrap();
    assert_eq!(
        FixedSlotSealer::new(6, 3, 10, vec![ticket.clone()], key(1).public, key(2).public, key(3), [0; 32])
            .err()
            .unwrap(),
        "a ticket belongs to another slot"
    );
    assert_eq!(
        FixedSlotSealer::new(
            5,
            3,
            10,
            vec![ticket.clone(), ticket.clone()],
            key(1).public,
            key(2).public,
            key(3),
            [0; 32]
        )
        .err()
        .unwrap(),
        "the expected ticket list contains a duplicate"
    );
    let mut sealer =
        FixedSlotSealer::new(5, 3, 10, vec![ticket.clone()], key(1).public, key(2).public, key(3), [0; 32]).unwrap();
    assert_eq!(
        sealer.admit_frame(&ticket, frame(0, 6), 5, &verify, &sign).unwrap_err(),
        "the frame belongs to another slot or node"
    );
    let beacon = RandomnessBeacon::sign(6, [7; 32], &key(2), &sign).unwrap();
    assert!(sealer
        .close(&beacon, 11, &verify, &sign)
        .unwrap_err()
        .starts_with("fixed population incomplete: 1"));
}

#[test]
fn a_sealed_order_does_not_depend_on_the_arrival() {
    let mut authority = AdmissionAuthority::new(key(1), vec![1; 32]).unwrap();
    let tickets = [b"a", b"b", b"c"]
        .iter()
        .enumerate()
        .map(|(i, name)| {
            authority
                .issue(name.as_slice(), 5, Some(0), u64::MAX / 2, Some([i as u8 + 1; 32]), 0, [0; 32], &sign)
                .unwrap()
        })
        .collect::<Vec<_>>();
    let beacon = RandomnessBeacon::sign(6, [7; 32], &key(2), &sign).unwrap();
    let shown = [vec![0_usize, 1, 2], vec![2, 0, 1]].map(|arrival| {
        let mut sealer =
            FixedSlotSealer::new(5, 3, 1_000, tickets.clone(), key(1).public, key(2).public, key(3), [0; 32]).unwrap();
        for i in arrival {
            sealer.admit_frame(&tickets[i], frame(i as u8, 5), 900, &verify, &sign).unwrap();
        }
        let (frames, _) = sealer.close(&beacon, 1_001, &verify, &sign).unwrap();
        frames.iter().map(|frame| frame.payload[0]).collect::<Vec<_>>()
    });
    assert_eq!(shown[0], shown[1]);
}
