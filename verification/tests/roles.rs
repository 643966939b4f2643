//! Dealing shares, and relaying their frames.

use qomm_transport::application_crypto::{Signature, SigningKey, VerifyingKey};
use qomm_transport::group::Scalar;
use qomm_transport::proof_mandate::Direction;
use qomm_transport::relay::{Incoming, NodeInbox, RelayState};
use qomm_transport::rfq_frame::{
    ResidentRfqCatalogBinding, ResidentRfqInput, ResidentRfqOpenings, RfqCommitments, RfqMandate, RESIDENT_RFQ_FIELDS,
};
use qomm_transport::roles::{
    audit_node, check_field_width, lagrange_at_zero, magnitude_bits, pow_mod, shamir_split, split, ComputingNode,
    InputParty, RoleError,
};
use qomm_transport::wire::{FieldElement, Frame};

const PRIME: u128 = 1_000_003;

fn sign(key: &SigningKey, body: &Vec<u8>) -> Result<Signature, String> {
    let mut bytes = key.public.bytes.to_vec();
    bytes.extend_from_slice(body);
    Ok(Signature { bytes })
}

fn verify(key: &VerifyingKey, body: &Vec<u8>, signature: &Signature) -> bool {
    signature.bytes == [key.bytes.as_slice(), body.as_slice()].concat()
}

#[test]
fn shares_sum_to_the_value() {
    let drawn = (1..=12).map(|i| i * 0x1234_5678_9abc_def1_u64 % 0xffff_ffff_ffff).collect::<Vec<_>>();
    for value in [-77_i128, 0, 77] {
        let shares = split(value, 7, 16, &drawn).unwrap();
        assert_eq!(shares.len(), 7);
        assert_eq!(shares.iter().sum::<i128>(), value);
        assert!(shares[..6].iter().all(|share| *share >= 0 && *share < 1 << 56));
    }
    assert_eq!(split(1, 1, 16, &drawn), Err(RoleError::NodeCount));
    assert_eq!(split(256, 7, 8, &drawn), Err(RoleError::ValueWidth { actual: 9, declared: 8 }));
    assert_eq!(split(1, 7, 86, &drawn), Err(RoleError::ShareWidth));
    assert_eq!(magnitude_bits(-8), 4);
}

#[test]
fn a_field_holds_the_shares_or_says_what_it_lacks() {
    assert!(check_field_width(7, 16, 128).is_ok());
    let error = check_field_width(7, 86, 128).unwrap_err();
    assert!(error.message().starts_with("a 128-bit field cannot hold 7 shares of a 86-bit value: "));
}

#[test]
fn shamir_shares_meet_at_zero() {
    let drawn = vec![5, 0, 9, 1];
    let shares = shamir_split(4_900, 7, 2, PRIME, &drawn).unwrap();
    let coefficients = lagrange_at_zero(7, PRIME).unwrap();
    let sum = shares.iter().zip(&coefficients).fold(0, |sum, (s, c)| (sum + s * c) % PRIME);
    assert_eq!(sum, 4_900);
    assert_eq!(lagrange_at_zero(7, 7), Err(RoleError::Modulus));
    assert_eq!(pow_mod(3, PRIME - 1, PRIME), 1);
}

#[test]
fn a_node_that_changes_a_share_is_found() {
    let party = InputParty {
        name: "maker".to_string(),
        n_nodes: 3,
        value_bits: 16,
        signing_key: Some(SigningKey { handle: 1, public: VerifyingKey { bytes: [4; 32] } }),
    };
    let mut nodes = (0..3).map(ComputingNode::new).collect::<Vec<_>>();
    let drawn = vec![vec![3, 0, 5, 0], vec![7, 0, 11, 0]];
    party.deal(&[40, -2], &mut nodes, &drawn, &sign).unwrap();
    assert_eq!((0..3).map(|i| nodes[i].inputs[0]).sum::<i128>(), 40);
    assert_eq!((0..3).map(|i| nodes[i].inputs[1]).sum::<i128>(), -2);
    let key = party.verifying_key().unwrap();
    let honest = nodes[1].inputs.clone();
    assert!(audit_node(&nodes[1], "maker", &key, &honest, &verify).is_empty());
    let mut claimed = honest.clone();
    claimed[1] += 1;
    assert_eq!(audit_node(&nodes[1], "maker", &key, &claimed, &verify), vec![1]);
    assert_eq!(
        party.deal(&[1], &mut nodes[..2].iter().map(|n| ComputingNode::new(n.index)).collect(), &drawn, &sign),
        Err(RoleError::NodeShape)
    );
}

fn frame(slot: u32, number: u8) -> Frame {
    Frame { slot, node: 2, payload: vec![number], encoded: vec![number] }
}

#[test]
fn a_relay_keeps_only_authentic_frames_of_its_node() {
    let mut relay = RelayState::new(2, 1, true);
    relay.connected();
    relay.receive(Incoming::Decoded { frame: frame(5, 1), authentic: true }, 10);
    relay.receive(Incoming::Decoded { frame: frame(5, 2), authentic: true }, 10);
    relay.receive(Incoming::Decoded { frame: frame(5, 3), authentic: false }, 10);
    relay.receive(Incoming::Malformed, 10);
    assert_eq!(relay.pending_frames(5), 2);
    assert_eq!(relay.pending_frames(6), 0);
    let batch = relay.close_slot(5, &vec![1, 0]);
    assert_eq!(batch.iter().map(|frame| frame.payload[0]).collect::<Vec<_>>(), vec![2, 1]);
    assert_eq!(relay.pending_frames(5), 0);
    let mut inbox = NodeInbox::new(2);
    inbox.accept(5, batch, 77, 20);
    assert_eq!(inbox.frames.count(5), 2);
    assert_eq!((inbox.arrivals[0].slot, inbox.arrivals[0].received_at), (5, 77));
}

fn scalar(value: u64) -> Scalar {
    Scalar { bytes: curve25519_dalek::Scalar::from(value).to_bytes() }
}

fn mandate() -> RfqMandate {
    RfqMandate {
        authentic: Ok(()),
        admission_slot: 9,
        allow_partial: false,
        asset_id: [1; 32],
        reserve_asset_id: [2; 32],
        direction: Direction::TakerBuys,
        quantity_commitment: [3; 32],
        limit_price_commitment: [4; 32],
        maximum_amount_commitment: [5; 32],
        fill_mask_commitment: [6; 32],
    }
}

fn openings() -> ResidentRfqOpenings {
    ResidentRfqOpenings {
        quantity: 10,
        quantity_blinding: scalar(11),
        executable_limit: 12,
        limit_blinding: scalar(13),
        reserve_amount: 14,
        reserve_blinding: scalar(15),
        response_mask: scalar(16),
        fill_mask: scalar(17),
    }
}

fn catalog() -> ResidentRfqCatalogBinding {
    ResidentRfqCatalogBinding {
        asset_index: 0,
        asset_count: 1,
        traded_asset_id: [1; 32],
        cash_asset_id: [2; 32],
        entity_slot: 8,
    }
}

fn commitments() -> RfqCommitments {
    RfqCommitments { quantity: [3; 32], limit: [4; 32], reserve: [5; 32], fill_mask: [6; 32] }
}

#[test]
fn a_request_shares_the_openings_that_the_taker_signed() {
    let input =
        ResidentRfqInput::from_signed_mandate(&mandate(), &catalog(), &openings(), &commitments(), 9).unwrap();
    assert_eq!(input.values().len(), RESIDENT_RFQ_FIELDS);
    let shared = input.share(7, |values: &Vec<FieldElement>, nodes: usize| Ok(vec![values.len(); nodes])).unwrap();
    assert_eq!(shared, vec![RESIDENT_RFQ_FIELDS; 7]);
    let refusal = |mandate: &RfqMandate, openings: &ResidentRfqOpenings, slot: u32| {
        ResidentRfqInput::from_signed_mandate(mandate, &catalog(), openings, &commitments(), slot).unwrap_err()
    };
    assert_eq!(refusal(&mandate(), &openings(), 10), "Taker mandate belongs to another admission slot");
    let mut partial = mandate();
    partial.allow_partial = true;
    assert_eq!(
        refusal(&partial, &openings(), 9),
        "resident RFQ circuit does not yet accept partial-fill mandates"
    );
    let mut other = mandate();
    other.quantity_commitment = [9; 32];
    assert_eq!(refusal(&other, &openings(), 9), "RFQ openings do not match the signed Taker mandate");
    let mut forged = mandate();
    forged.authentic = Err("mandate signature is invalid".to_string());
    assert_eq!(refusal(&forged, &openings(), 9), "mandate signature is invalid");
    let mut none = openings();
    none.quantity = 0;
    assert_eq!(refusal(&mandate(), &none, 9), "Taker quantity and reserve must be positive");
}

#[test]
fn cover_has_the_width_of_a_request() {
    let cover = ResidentRfqInput::cover(scalar(1), scalar(2));
    assert_eq!(cover.values().len(), RESIDENT_RFQ_FIELDS);
}

#[test]
fn dealt_shares_are_the_drawn_ones() {
    let mut party = InputParty { name: "taker".to_string(), n_nodes: 3, value_bits: 16, signing_key: None };
    let mut nodes = (0..3).map(ComputingNode::new).collect::<Vec<_>>();
    party.deal(&[40], &mut nodes, &vec![vec![3, 0, 5, 0]], &sign).unwrap();
    assert_eq!(nodes.iter().map(|node| node.inputs[0]).collect::<Vec<_>>(), vec![3, 5, 32]);
    assert!(nodes.iter().all(|node| node.receipts[0].is_none()));
    party.signing_key = Some(SigningKey { handle: 1, public: VerifyingKey { bytes: [4; 32] } });
    let failing = |_: &SigningKey, body: &Vec<u8>| {
        if body.last() == Some(&5) {
            Err("key is locked".to_string())
        } else {
            Ok(Signature { bytes: body.clone() })
        }
    };
    assert_eq!(
        party.deal(&[40], &mut nodes, &vec![vec![3, 0, 5, 0]], &failing),
        Err(RoleError::Signing("key is locked".to_string()))
    );
    assert_eq!(nodes[0].inputs.len(), 1);
}

#[test]
fn a_batch_without_frames_makes_its_slot_known() {
    let mut inbox = NodeInbox::new(2);
    inbox.accept(8, Vec::new(), 77, 20);
    inbox.accept(5, vec![frame(5, 1)], 78, 20);
    assert_eq!(inbox.frames.slots.iter().map(|slot| (slot.slot, slot.frames.len())).collect::<Vec<_>>(), vec![(5, 1), (8, 0)]);
    assert_eq!(inbox.arrivals.len(), 1);
}
