//! Pre-trade authorities and their acknowledgement.

use qomm_transport::application_crypto::{Signature, SigningKey, VerifyingKey};
use qomm_transport::authority_admission::{
    admission_from_wire, admission_wire, check_exchange_file, settlement_verifier_from_wire, settlement_verifier_wire,
    PretradeAdmission, PretradeSettlementVerifier,
};
use qomm_transport::authority_bundle::{
    authority_from_wire, authority_wire, AcceptanceOpening, AuthorityJudges, MakerPretradeAuthority,
    PretradeAuthorityBundle, TakerPretradeAuthority,
};
use qomm_transport::authority_parts::{KybPresentation, SignedCohortRegistry, SignedMakerMandate, SignedTakerMandate};
use qomm_transport::coordinator::{ProofPartyRpc, COMMITTEE_SIZE};
use qomm_transport::group::{Point, Scalar};
use qomm_transport::json::Value;
use qomm_transport::order::NodeAdmissionAttestation;
use qomm_transport::pretrade::{PretradeAcknowledgement, PretradeReservationBinding, ReservationParty};
use qomm_transport::pretrade_wire::{ack_from_wire, ack_wire, parse32, point, scalar};
use qomm_transport::product_execution::ProductExecutionRequest;
use qomm_transport::proof_codec::{DvpProofs, OpeningProof, ProductProof, ThresholdRangeProof};
use qomm_transport::proof_mandate::{AuthorizationScope, Direction, ExecutionContext, OperationKind};
use qomm_transport::proof_state::signing_job;
use qomm_transport::quote_codec::{MinimalityProof, QuoteProof, QuotePublic, QuoteVerificationBundle};
use qomm_transport::settlement::{PriceLimitDirection, ProductSettlementRequest};
use qomm_transport::settlement_handoff::{
    finalize_product_settlement, settlement_handoff, HybridSignature, PaymentPart, ProofPart,
    SettlementHandoff, SignedInstruction, TypedWires,
};

const WIDTH: usize = 4;

fn sign(key: &SigningKey, body: &Vec<u8>) -> Result<Signature, String> {
    let sum = body.iter().fold(key.public.bytes[0] as u32, |sum, byte| sum.wrapping_mul(31).wrapping_add(*byte as u32));
    Ok(Signature { bytes: sum.to_be_bytes().to_vec() })
}

fn verify(key: &VerifyingKey, body: &Vec<u8>, signature: &Signature) -> bool {
    sign(&SigningKey { handle: 0, public: *key }, body).unwrap().bytes == signature.bytes
}

fn known(bytes: &Vec<u8>) -> bool {
    bytes.len() == 32 && bytes[0] != 0xee
}

fn accepts(bytes: &Vec<u8>) -> Result<(), String> {
    if bytes.first() == Some(&0xdd) {
        Err("envelope is unknown".to_string())
    } else {
        Ok(())
    }
}

fn key(number: u8) -> SigningKey {
    SigningKey { handle: number as u64, public: VerifyingKey { bytes: [number; 32] } }
}

fn handle() -> [u8; 32] {
    curve25519_dalek::constants::RISTRETTO_BASEPOINT_COMPRESSED.to_bytes()
}

fn binding(party: ReservationParty, owner_index: u16, direction: Direction) -> PretradeReservationBinding {
    PretradeReservationBinding {
        party,
        owner_index,
        direction,
        owner_handle: handle(),
        facility_id: [2; 32],
        reserve_id: [3; 32],
        mandate_digest: [4; 32],
        policy_digest: match party {
            ReservationParty::Maker => [5; 32],
            ReservationParty::Taker => [0; 32],
        },
        amount_commitment: [6; 32],
        reserve_receipt_digest: [7; 32],
    }
}

fn acknowledgement() -> PretradeAcknowledgement {
    PretradeAcknowledgement {
        authority_digest: [1; 32],
        defmi_id: [2; 32],
        after_state_root: [3; 32],
        bindings: vec![
            binding(ReservationParty::Taker, 0, Direction::TakerBuys),
            binding(ReservationParty::Maker, 1, Direction::TakerSells),
            binding(ReservationParty::Maker, 0, Direction::TakerBuys),
        ],
        signer_public: [9; 32],
        signature: Signature { bytes: Vec::new() },
    }
}

#[test]
fn an_acknowledgement_is_signed_in_one_order() {
    let first = acknowledgement();
    let mut turned = acknowledgement();
    turned.bindings.reverse();
    assert_eq!(first.unsigned(&known).unwrap(), turned.unsigned(&known).unwrap());
    let signed = first.sign(&key(9), &known, &sign).unwrap();
    assert!(signed.verify(&key(9).public, &known, &verify).is_ok());
    assert_eq!(
        signed.verify(&key(8).public, &known, &verify).unwrap_err(),
        "pre-trade acknowledgement is not from the pinned DeFMI"
    );
    let mut changed = signed;
    changed.after_state_root = [8; 32];
    assert_eq!(
        changed.verify(&key(9).public, &known, &verify).unwrap_err(),
        "pre-trade acknowledgement signature is invalid"
    );
    assert!(changed.binding_for(ReservationParty::Maker, &handle(), Direction::TakerBuys).is_ok());
    assert!(changed.binding_for(ReservationParty::Maker, &[8; 32], Direction::TakerBuys).is_err());
    changed.bindings.push(binding(ReservationParty::Maker, 0, Direction::TakerBuys));
    assert!(changed.unsigned(&known).is_err());
}

#[test]
fn an_exchanged_acknowledgement_is_read_back() {
    let signed = acknowledgement().sign(&key(9), &known, &sign).unwrap();
    let wire = ack_wire(&signed, &known).unwrap();
    assert_eq!(wire.defmi_id, "02".repeat(32));
    assert_eq!(wire.bindings[0].party, 1);
    let read = ack_from_wire(&wire, WIDTH, &known, &accepts).unwrap();
    assert!(read.verify(&key(9).public, &known, &verify).is_ok());
    assert_eq!(read.digest(&known).unwrap(), signed.digest(&known).unwrap());
    let mut other = ack_wire(&signed, &known).unwrap();
    other.version = 3;
    assert_eq!(
        ack_from_wire(&other, WIDTH, &known, &accepts).unwrap_err(),
        "pre-trade acknowledgement header is invalid"
    );
    let mut short = ack_wire(&signed, &known).unwrap();
    short.signature.pop();
    assert_eq!(
        ack_from_wire(&short, WIDTH, &known, &accepts).unwrap_err(),
        "acknowledgement signature requires a v2 hybrid envelope"
    );
    let mut strange = ack_wire(&signed, &known).unwrap();
    strange.signature = "dd000000".to_string();
    assert_eq!(
        ack_from_wire(&strange, WIDTH, &known, &accepts).unwrap_err(),
        "acknowledgement signature: envelope is unknown"
    );
}

#[test]
fn texts_name_what_they_fail_to_be() {
    assert_eq!(parse32(&"0A".repeat(32), "id").unwrap(), [10; 32]);
    assert_eq!(parse32("0g", "id").unwrap_err(), "id is not hexadecimal");
    assert_eq!(parse32("00", "id").unwrap_err(), "id is not 32 bytes");
    assert_eq!(point(&"ff".repeat(32), "p").unwrap_err(), "p is not a canonical Ristretto point");
    assert_eq!(scalar(&"ff".repeat(32), "s").unwrap_err(), "s is not a canonical scalar");
    assert!(point(&"00".repeat(32), "p").is_ok());
    assert!(check_exchange_file(true, 0o100600, 10).is_ok());
    assert!(check_exchange_file(true, 0o100644, 10).is_err());
    assert!(check_exchange_file(true, 0o100600, (32 << 20) + 1).is_err());
}

fn admission(sequences: &[u64]) -> PretradeAdmission {
    PretradeAdmission {
        epoch: 1,
        node_keys: (1..=7).map(|number| [number; 32]).collect(),
        lanes: sequences
            .iter()
            .map(|sequence| {
                (0..7)
                    .map(|node| {
                        NodeAdmissionAttestation {
                            node,
                            slot: 9,
                            sequence: *sequence,
                            principal_digest: [1; 32],
                            ticket_id: [2; 32],
                            claim_digest: [3; 32],
                            batch_digest: [10 + node as u8; 32],
                            order_digest: [4; 32],
                            signature: Signature { bytes: Vec::new() },
                        }
                        .sign(&key(node as u8 + 1), &sign)
                        .unwrap()
                    })
                    .collect()
            })
            .collect(),
    }
}

#[test]
fn admission_lanes_are_numbered_without_a_gap() {
    let wire = admission_wire(&admission(&[2, 1, 3]), &known, &verify).unwrap();
    let read = admission_from_wire(&wire, WIDTH, &accepts, &known, &verify).unwrap();
    assert_eq!(read.lanes[0][6].sequence, 2);
    for gap in [vec![1, 3], vec![1, 1], vec![2]] {
        assert_eq!(
            admission_wire(&admission(&gap), &known, &verify).unwrap_err(),
            "pre-trade admission lanes are incomplete or reordered"
        );
    }
    assert_eq!(
        admission_wire(&admission(&[]), &known, &verify).unwrap_err(),
        "pre-trade admission population is invalid"
    );
    let mut unknown = admission(&[1]);
    unknown.node_keys[0] = [0xee; 32];
    assert_eq!(
        admission_wire(&unknown, &known, &verify).unwrap_err(),
        "pre-trade admission key is malformed"
    );
    let mut forged = admission(&[1]);
    forged.lanes[0][3].claim_digest = [8; 32];
    assert_eq!(
        admission_wire(&forged, &known, &verify).unwrap_err(),
        "admission lane contains an unknown, duplicate, or invalid node"
    );
}

fn settlement_verifier() -> PretradeSettlementVerifier {
    PretradeSettlementVerifier {
        epoch: 1,
        quote_registry_digest: [1; 32],
        quote_eligibility_bits: 62,
        quote_span_bits: 64,
        amount_bits: 64,
        price_bits: 64,
        max_horizon: 1,
        frost_public: vec![1, 2, 3],
        pq_committee: vec![4],
        valid_from: 1,
        valid_until: 1,
    }
}

fn validates(committee: &Vec<u8>, _package: &Vec<u8>) -> Result<(), String> {
    if committee == &[4] {
        Ok(())
    } else {
        Err("committee is unknown".to_string())
    }
}

fn package(bytes: &Vec<u8>) -> Option<Vec<u8>> {
    match bytes.first() {
        Some(1) => Some(bytes.clone()),
        Some(2) => Some(vec![1]),
        _ => None,
    }
}

#[test]
fn a_settlement_verifier_is_bounded_and_canonical() {
    let wire = settlement_verifier_wire(&settlement_verifier(), &validates).unwrap();
    assert_eq!(wire.frost_public, "010203");
    assert!(settlement_verifier_from_wire(&wire, &package, &validates).is_ok());
    let mut wide = settlement_verifier();
    wide.quote_eligibility_bits = 63;
    assert_eq!(
        settlement_verifier_wire(&wide, &validates).unwrap_err(),
        "pre-trade settlement verifier is outside its bounds"
    );
    let mut empty = settlement_verifier();
    empty.frost_public.clear();
    assert_eq!(
        settlement_verifier_wire(&empty, &validates).unwrap_err(),
        "pre-trade FROST public package is outside its bound"
    );
    let mut other = settlement_verifier();
    other.pq_committee = vec![5];
    assert_eq!(settlement_verifier_wire(&other, &validates).unwrap_err(), "committee is unknown");
    let refusal = |text: &str| {
        let mut wire = settlement_verifier_wire(&settlement_verifier(), &validates).unwrap();
        wire.frost_public = text.to_string();
        settlement_verifier_from_wire(&wire, &package, &validates).unwrap_err()
    };
    assert_eq!(refusal("zz"), "pre-trade FROST public package is not hexadecimal");
    assert_eq!(refusal("03"), "pre-trade FROST public package is invalid");
    assert_eq!(refusal("0202"), "pre-trade FROST public package is not canonical");
}

fn one() -> Scalar {
    Scalar { bytes: curve25519_dalek::Scalar::ONE.to_bytes() }
}

fn presentation() -> KybPresentation {
    KybPresentation {
        cohort: "makers".to_string(),
        registry_id: [1; 32],
        scope: vec![1, 2],
        context_hash: [2; 32],
        nullifier: Point { bytes: [0; 32] },
        challenges: vec![one()],
        responses: vec![one()],
    }
}

fn maker(index: u16, direction: Direction) -> MakerPretradeAuthority {
    MakerPretradeAuthority {
        maker_index: index,
        mandate: SignedMakerMandate {
            venue_id: [1; 32],
            defmi_id: [2; 32],
            policy_digest: [3; 32],
            policy_version: 1,
            asset_id: [4; 32],
            direction,
            reserve_id: [5; 32],
            maximum_amount_commitment: [6; 32],
            maker_handle: [7; 32],
            entity_commitment: [8; 32],
            kyb_presentation_digest: [9; 32],
            valid_from: 1,
            valid_until: 2,
            auto_execute: true,
            maker_public: [10; 32],
            signature: Signature { bytes: vec![1; WIDTH] },
        },
        identity_context: vec![3],
        presentation: presentation(),
        acceptance_opening: AcceptanceOpening { amount: 5, blinding: one() },
    }
}

fn taker(index: u16) -> TakerPretradeAuthority {
    TakerPretradeAuthority {
        client_index: index,
        mandate: SignedTakerMandate {
            venue_id: [1; 32],
            defmi_id: [2; 32],
            rfq_nullifier: [3; 32],
            asset_id: [4; 32],
            reserve_asset_id: [5; 32],
            direction: Direction::TakerSells,
            quantity_commitment: [6; 32],
            limit_price_commitment: [7; 32],
            maximum_fee_commitment: [8; 32],
            maximum_amount_commitment: [9; 32],
            reserve_id: [10; 32],
            taker_handle: [11; 32],
            entity_commitment: [12; 32],
            kyb_presentation_digest: [13; 32],
            admission_ticket_id: [14; 32],
            admission_slot: 1,
            fill_mask_commitment: [15; 32],
            deadline: 2,
            allow_partial: false,
            auto_settle: true,
            taker_public: [16; 32],
            signature: Signature { bytes: vec![2; WIDTH] },
        },
        identity_context: vec![4],
        presentation: presentation(),
        acceptance_opening: AcceptanceOpening { amount: 6, blinding: one() },
    }
}

fn bundle() -> PretradeAuthorityBundle {
    PretradeAuthorityBundle {
        created_at: 1,
        venue_id: [1; 32],
        defmi_id: [2; 32],
        traded_asset_id: [3; 32],
        cash_asset_id: [4; 32],
        identity_scope: vec![5],
        required_cohort: "makers".to_string(),
        identity_provider: "provider".to_string(),
        identity_evidence_digest: [6; 32],
        registry: SignedCohortRegistry {
            cohort: "makers".to_string(),
            registry_epoch: 1,
            expires_at: 2,
            points: vec![Point { bytes: [0; 32] }],
            issuer: vec![7; 32],
            registry_id: [8; 32],
            signature: vec![9],
        },
        admission: Some(admission(&[1])),
        settlement_verifier: settlement_verifier(),
        makers: vec![maker(0, Direction::TakerBuys), maker(0, Direction::TakerSells)],
        takers: vec![taker(0)],
    }
}

fn mandated(mandate: &SignedMakerMandate) -> Result<(), String> {
    if mandate.valid_until < mandate.valid_from {
        Err("Maker mandate has no lifetime".to_string())
    } else {
        Ok(())
    }
}

fn tasked(_: &SignedTakerMandate) -> Result<(), String> {
    Ok(())
}

fn read(wire: &qomm_transport::authority_bundle::WireAuthorityBundle) -> Result<PretradeAuthorityBundle, String> {
    authority_from_wire(
        wire,
        WIDTH,
        &AuthorityJudges {
            accepts,
            maker: mandated,
            taker: tasked,
            issuers: known,
            known,
            verify,
            package,
            validates,
        },
    )
}

#[test]
fn an_exchanged_bundle_is_read_back() {
    let wire = authority_wire(&bundle(), &known, &verify, &validates).unwrap();
    let read_back = read(&wire).unwrap();
    assert_eq!(read_back.cash_asset_id, [4; 32]);
    assert_eq!(read_back.makers[1].mandate.direction, Direction::TakerSells);
    assert_eq!(read_back.makers[0].mandate.maker_public, [10; 32]);
    assert_eq!(read_back.takers[0].mandate.fill_mask_commitment, [15; 32]);
    assert_eq!(read_back.takers[0].acceptance_opening.amount, 6);
    assert_eq!(read_back.registry.issuer, vec![7; 32]);
    assert_eq!(read_back.settlement_verifier.frost_public, vec![1, 2, 3]);
}

#[test]
fn a_bundle_names_what_is_wrong_with_it() {
    let wire = || authority_wire(&bundle(), &known, &verify, &validates).unwrap();
    let mut header = wire();
    header.acceptance_only_openings = false;
    assert_eq!(read(&header).unwrap_err(), "pre-trade authority header is invalid");
    let mut twice = wire();
    twice.makers[1].mandate.direction = 1;
    assert_eq!(read(&twice).unwrap_err(), "pre-trade authority repeats a Maker direction");
    let mut sideways = wire();
    sideways.makers[1].mandate.direction = 3;
    assert_eq!(read(&sideways).unwrap_err(), "pre-trade direction is invalid");
    let mut judged = wire();
    judged.makers[0].mandate.valid_until = 0;
    assert_eq!(read(&judged).unwrap_err(), "Maker mandate has no lifetime");
    let mut context = wire();
    context.takers[0].identity_context = "x".to_string();
    assert_eq!(read(&context).unwrap_err(), "Taker identity context is malformed");
    let mut proof = wire();
    proof.makers[0].presentation.responses.clear();
    assert_eq!(read(&proof).unwrap_err(), "membership proof response population is invalid");
    let mut challenge = wire();
    challenge.makers[0].presentation.challenges[0] = "ff".repeat(32);
    assert_eq!(read(&challenge).unwrap_err(), "membership challenge 0 is not a canonical scalar");
    let mut registry = wire();
    registry.registry.points[0] = "ff".repeat(32);
    assert_eq!(read(&registry).unwrap_err(), "registry point 0 is not a canonical Ristretto point");
    let mut issuer = wire();
    issuer.registry.issuer = "ee".repeat(32);
    assert_eq!(read(&issuer).unwrap_err(), "registry issuer is malformed");
    let mut undated = wire();
    undated.created_at = 0;
    assert_eq!(read(&undated).unwrap_err(), "pre-trade authority population or metadata is invalid");
    let mut nowhere = wire();
    nowhere.venue_id = "00".repeat(32);
    assert_eq!(read(&nowhere).unwrap_err(), "venue cannot be zero");
    let mut clients = bundle();
    clients.takers.push(taker(0));
    let repeated = authority_wire(&clients, &known, &verify, &validates).unwrap();
    assert_eq!(read(&repeated).unwrap_err(), "pre-trade authority repeats a Taker client");
    let mut none = bundle();
    none.makers.clear();
    assert_eq!(
        authority_wire(&none, &known, &verify, &validates).unwrap_err(),
        "pre-trade authority population or metadata is invalid"
    );
}

struct Signer {
    authorizes: bool,
    calls: Vec<(String, Value)>,
}

impl ProofPartyRpc for Signer {
    fn call(&mut self, method: &str, params: Value) -> Result<Value, String> {
        self.calls.push((method.to_string(), params));
        Ok(Value::Object(vec![("authorized".to_string(), Value::Bool(self.authorizes))]))
    }
}

fn signers() -> Vec<Signer> {
    (0..COMMITTEE_SIZE).map(|_| Signer { authorizes: true, calls: Vec::new() }).collect()
}

fn wires() -> Result<TypedWires, String> {
    Ok(TypedWires { message: vec![2; 64], payment: vec![3], context: vec![4], pretrade_ack: vec![5] })
}

fn p(number: u64) -> Point {
    let point = curve25519_dalek::RistrettoPoint::mul_base(&curve25519_dalek::Scalar::from(number));
    Point { bytes: point.compress().to_bytes() }
}

fn s(number: u64) -> Scalar {
    Scalar { bytes: curve25519_dalek::Scalar::from(number).to_bytes() }
}

fn range() -> ThresholdRangeProof {
    ThresholdRangeProof {
        bits: 0,
        bit_commitments: Vec::new(),
        bit_proofs: Vec::new(),
        linkage: OpeningProof { t: p(1), z_value: s(1), z_blinding: s(1) },
    }
}

fn product() -> ProductProof {
    ProductProof { t_factor: p(1), t_product: p(2), z_b: s(1), z_rb: s(2), z_s: s(3) }
}

fn handoff() -> SettlementHandoff {
    let request = ProductSettlementRequest {
        job_id: [1; 32],
        admission_sequence: 2,
        admission_ticket_id: [3; 32],
        quote_verification: QuoteVerificationBundle {
            eligibility_bits: 1,
            span_bits: 1,
            context: [0; 32],
            public: QuotePublic {
                qty_commitment: p(1),
                now: 0,
                sentinel: 0,
                n_slots: 0,
                direction: 0,
                asset: 0,
                reference_price: 0,
                registry: Vec::new(),
                registry_digest: [0; 32],
                market_digest: [0; 32],
                slot: 0,
            },
            proof: QuoteProof {
                winner_index: 0,
                winner_value: 0,
                maker_proofs: Vec::new(),
                winner_opening: OpeningProof { t: p(1), z_value: s(1), z_blinding: s(1) },
                minimality: MinimalityProof::Bulletproof,
                key_commitments: Vec::new(),
            },
        },
        limit_direction: PriceLimitDirection::MaximumBuyPrice,
        limit_commitment: p(1),
        limit_context: [4; 32],
        taker_handle: p(2),
        asset_id: [5; 32],
        deadline: 6,
        now: 7,
        execution: ProductExecutionRequest {
            lane: 8,
            slot: 9,
            generation: 10,
            frame_count: 11,
            input_count: 12,
            order_digest: [13; 32],
            nodes: Vec::new(),
        },
    };
    let payment = PaymentPart {
        instruction: SignedInstruction {
            amount_commitment: p(30),
            price_commitment: p(2),
            payer_handle: p(3),
            payee_handle: p(4),
            wire: vec![1],
        },
        frost_public: vec![14],
        pq_committee: vec![15],
        quote_digest: [16; 32],
        asset_blinding: s(17),
    };
    let proofs = ProofPart {
        price_limit_proof: range(),
        dvp_proofs: DvpProofs { product: product(), securities_remainder: range(), cash_remainder: range() },
        cash_commitment: p(40),
        securities_remainder: p(5),
        cash_remainder: p(6),
        maker_pool_remainder: p(7),
        maker_pool_remainder_proof: range(),
    };
    settlement_handoff(request, payment, proofs, (0..4).map(|_| Vec::new()).collect())
}

fn execution_context() -> ExecutionContext {
    ExecutionContext {
        operation: OperationKind::Settle,
        scope: AuthorizationScope::Joint,
        direction: Direction::TakerBuys,
        venue_id: [1; 32],
        defmi_id: [2; 32],
        before_state_root: [3; 32],
        quote_proof_digest: [4; 32],
        rfq_nullifier: [5; 32],
        maker_handle: [6; 32],
        maker_reservation_id: [7; 32],
        maker_policy_digest: [8; 32],
        maker_mandate_digest: [9; 32],
        maker_reserve_receipt_digest: [10; 32],
        taker_handle: [11; 32],
        taker_reservation_id: [12; 32],
        taker_mandate_digest: [13; 32],
        taker_reserve_receipt_digest: [14; 32],
    }
}

fn committee_sign(
    parties: &mut Vec<Signer>,
    message: &Vec<u8>,
    public: &Vec<u8>,
    committee: &Vec<u8>,
) -> Result<HybridSignature, String> {
    if parties[6].calls.is_empty() {
        return Err("the quorum did not authorize".to_string());
    }
    Ok(HybridSignature { classical: vec![message[0], public[0]], pq: vec![message[0], committee[0]] })
}

fn finalize(parties: &mut Vec<Signer>, handoff: &mut SettlementHandoff, trusted: u8, valid: bool) -> Result<(), String> {
    let signed = acknowledgement().sign(&key(9), &known, &sign).unwrap();
    finalize_product_settlement(
        parties,
        handoff,
        execution_context(),
        &signed,
        &key(trusted).public,
        &known,
        &verify,
        &|handoff: &SettlementHandoff, context: &ExecutionContext, ack: &PretradeAcknowledgement| {
            assert_eq!((handoff.instruction.wire.as_slice(), context.defmi_id), ([1].as_slice(), [2; 32]));
            assert_eq!(ack.signer_public, key(9).public.bytes);
            wires()
        },
        &committee_sign,
        &|public: &Vec<u8>, message: &Vec<u8>, signature: &Vec<u8>| valid && *signature == vec![message[0], public[0]],
        &|handoff: &SettlementHandoff| {
            if handoff.typed_authorization.is_some() {
                Ok(())
            } else {
                Err("authorization is absent".to_string())
            }
        },
    )
}

#[test]
fn a_handoff_reserves_what_is_delivered_and_what_remains() {
    let handoff = handoff();
    assert_eq!(handoff.securities_reserve.bytes, p(35).bytes);
    assert_eq!(handoff.cash_reserve.bytes, p(46).bytes);
    assert_eq!((handoff.job_id, handoff.lane, handoff.quote_digest), ([1; 32], 8, [16; 32]));
    assert!(handoff.execution_context.is_none() && handoff.typed_authorization.is_none());
}

#[test]
fn a_settlement_is_authorized_once_by_the_quorum() {
    let mut parties = signers();
    let mut settled = handoff();
    finalize(&mut parties, &mut settled, 9, true).unwrap();
    for (index, party) in parties.iter().enumerate() {
        assert_eq!(party.calls.len(), usize::from([0, 3, 6].contains(&index)));
    }
    let (method, params) = &parties[3].calls[0];
    assert_eq!(method, "authorize_typed");
    assert!(matches!(params.get("signing_job_id"), Some(Value::Text(text)) if *text == hex::encode(signing_job(&[2; 64]))));
    assert!(matches!(params.get("pretrade_ack"), Some(Value::Text(text)) if text == "BQ=="));
    assert!(matches!(params.get("job_id"), Some(Value::Text(text)) if *text == "01".repeat(32)));
    assert_eq!(settled.typed_authorization, Some(vec![2, 14]));
    assert_eq!(settled.typed_pq_authorization, Some(vec![2, 15]));
    assert!(settled.execution_context.is_some());
    assert_eq!(
        finalize(&mut parties, &mut settled, 9, true).unwrap_err(),
        "product settlement handoff was already finalized"
    );
    let mut open = handoff();
    assert_eq!(
        finalize(&mut parties, &mut open, 8, true).unwrap_err(),
        "pre-trade acknowledgement is not from the pinned DeFMI"
    );
    assert_eq!(parties[0].calls.len(), 1);
    assert_eq!(
        finalize(&mut parties, &mut open, 9, false).unwrap_err(),
        "typed product settlement signature is invalid"
    );
    assert!(open.execution_context.is_none() && open.typed_authorization.is_none());
    let mut alone = handoff();
    alone.pq_committee = None;
    assert_eq!(
        finalize(&mut parties, &mut alone, 9, true).unwrap_err(),
        "typed settlement requires its PQ committee"
    );
    parties[3].authorizes = false;
    assert_eq!(
        finalize(&mut parties, &mut open, 9, true).unwrap_err(),
        "proof party did not authorize the typed settlement"
    );
    assert_eq!((parties[0].calls.len(), parties[6].calls.len()), (4, 3));
    parties.pop();
    assert_eq!(
        finalize(&mut parties, &mut open, 9, true).unwrap_err(),
        "typed product settlement requires exactly seven parties"
    );
}
