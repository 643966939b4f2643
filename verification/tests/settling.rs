//! A settlement from its request to its authorization.

use base64::Engine;
use qomm_transport::application_crypto::{Signature, SigningKey, VerifyingKey};
use qomm_transport::committee_proof::Arithmetic;
use qomm_transport::coordinator::{FirstRound, ProofPartyRpc, COMMITTEE_SIZE};
use qomm_transport::digest_map::DigestMap;
use qomm_transport::group::{Point, Scalar};
use qomm_transport::json::Value;
use qomm_transport::pretrade::{PretradeAcknowledgement, PretradeReservationBinding, ReservationParty};
use qomm_transport::product_execution::{ExecutionAttestationInput, ProductExecutionRequest};
use qomm_transport::product_settlement::{OpeningContexts, PaymentDraft, PaymentRanges, SettlementInstruction};
use qomm_transport::proof_answers::{execution_answer, wire_answer};
use qomm_transport::proof_codec::{DvpProofs, OpeningProof, ProductProof, ThresholdRangeProof};
use qomm_transport::proof_config::ProofPartyConfig;
use qomm_transport::proof_dkg::QuorumPolicy;
use qomm_transport::proof_mandate::{AuthorizationScope, Direction, ExecutionContext, OperationKind, Payment};
use qomm_transport::proof_params::one_wire;
use qomm_transport::proof_rounds::{DvpCommitments, HandleEvaluation, OpenedWire};
use qomm_transport::proof_evidence::{VenueBounds, VenueTools, WireTools};
use qomm_transport::proof_state::{signing_job, CompletedProof, FrostKey, OpeningShares, ProofParty};
use qomm_transport::quote_codec::{
    MinimalityProof, QuoteProof, QuotePublic, QuoteVerificationBundle, RegisteredPolicy,
};
use qomm_transport::settlement::{PriceLimitDirection, ProductSettlementRequest};
use qomm_transport::settlement_handoff::{HybridSignature, ProductSettlementProof, SignedInstruction};
use qomm_transport::settlement_run::{
    prove_product_settlement, DeliveryTools, EvidenceTools, PaymentTools, SigningTools, VerifiedProof,
};

fn p(number: u64) -> Point {
    let point = curve25519_dalek::RistrettoPoint::mul_base(&curve25519_dalek::Scalar::from(number));
    Point { bytes: point.compress().to_bytes() }
}

fn s(number: u64) -> Scalar {
    Scalar { bytes: curve25519_dalek::Scalar::from(number).to_bytes() }
}

fn text(value: &str) -> Value {
    Value::Text(value.to_string())
}

fn wire(bytes: &[u8]) -> Value {
    Value::Text(base64::engine::general_purpose::STANDARD.encode(bytes))
}

fn object(fields: Vec<(&str, Value)>) -> Value {
    Value::Object(fields.into_iter().map(|(name, value)| (name.to_string(), value)).collect())
}

fn sign(key: &SigningKey, body: &Vec<u8>) -> Result<Signature, String> {
    let sum = body.iter().fold(key.public.bytes[0] as u32, |sum, byte| sum.wrapping_mul(31).wrapping_add(*byte as u32));
    Ok(Signature { bytes: sum.to_be_bytes().to_vec() })
}

fn verify(key: &VerifyingKey, body: &Vec<u8>, signature: &Signature) -> bool {
    sign(&SigningKey { handle: 0, public: *key }, body).unwrap().bytes == signature.bytes
}

fn known(bytes: &Vec<u8>) -> bool {
    bytes.len() == 32 && bytes[0] != 0xee
}

fn key(number: u8) -> SigningKey {
    SigningKey { handle: number as u64, public: VerifyingKey { bytes: [number; 32] } }
}

fn opening() -> OpeningProof {
    OpeningProof { t: p(1), z_value: s(1), z_blinding: s(1) }
}

fn product() -> ProductProof {
    ProductProof { t_factor: p(1), t_product: p(2), z_b: s(1), z_rb: s(2), z_s: s(3) }
}

fn range() -> ThresholdRangeProof {
    ThresholdRangeProof { bits: 1, bit_commitments: vec![p(1)], bit_proofs: vec![product()], linkage: opening() }
}

fn delivery_proofs() -> DvpProofs {
    DvpProofs { product: product(), securities_remainder: range(), cash_remainder: range() }
}

fn payment_ranges() -> PaymentRanges {
    PaymentRanges { amount: range(), price: range() }
}

fn policy() -> RegisteredPolicy {
    RegisteredPolicy {
        maker_asset: 0,
        ask_level: p(1),
        spread: p(2),
        slope: p(3),
        invcoef: p(4),
        inv: p(5),
        maxqty: p(6),
        expiry: p(7),
        active: p(8),
        use_ref: p(9),
    }
}

fn execution() -> ProductExecutionRequest {
    ProductExecutionRequest {
        lane: 3,
        slot: 17,
        generation: 2,
        frame_count: 1,
        input_count: 49,
        order_digest: [91; 32],
        nodes: (0..COMMITTEE_SIZE)
            .map(|node| ExecutionAttestationInput {
                batch_digest: [u8::try_from(node + 1).unwrap(); 32],
                source_digest: [73; 32],
                stdout_digest: [u8::try_from(node + 11).unwrap(); 32],
                stderr_digest: [u8::try_from(node + 21).unwrap(); 32],
                persistence_digest: [u8::try_from(node + 31).unwrap(); 32],
            })
            .collect(),
    }
}

fn request() -> ProductSettlementRequest {
    ProductSettlementRequest {
        job_id: execution().job_id().unwrap(),
        admission_sequence: 2,
        admission_ticket_id: [3; 32],
        quote_verification: QuoteVerificationBundle {
            eligibility_bits: 1,
            span_bits: 1,
            context: [0; 32],
            public: QuotePublic {
                qty_commitment: p(1),
                now: 0,
                sentinel: 0,
                n_slots: 0,
                direction: 0,
                asset: 0,
                reference_price: 0,
                registry: vec![policy()],
                registry_digest: [0; 32],
                market_digest: [0; 32],
                slot: 0,
            },
            proof: QuoteProof {
                winner_index: 0,
                winner_value: 0,
                maker_proofs: Vec::new(),
                winner_opening: opening(),
                minimality: MinimalityProof::Bulletproof,
                key_commitments: Vec::new(),
            },
        },
        limit_direction: PriceLimitDirection::MaximumBuyPrice,
        limit_commitment: p(20),
        limit_context: [4; 32],
        taker_handle: p(2),
        asset_id: [5; 32],
        deadline: 1_100,
        now: 1_000,
        execution: execution(),
    }
}

struct Node {
    index: usize,
    signer: usize,
    methods: Vec<String>,
    payment: Option<Value>,
}

impl ProofPartyRpc for Node {
    fn call(&mut self, method: &str, params: Value) -> Result<Value, String> {
        self.methods.push(method.to_string());
        let mark = self.index as u8 + 1;
        Ok(match method {
            "maker_handle_evaluation" => object(vec![
                ("party", Value::Integer(mark as i128)),
                ("point", text(&hex::encode(p(mark as u64 + 9).bytes))),
            ]),
            "authorize_zkpi" => {
                self.payment = Some(params);
                Value::Null
            }
            "claim_opening_share" => {
                let (leg, recipient) = match params.get("leg") {
                    Some(Value::Text(leg)) if leg == "securities_delivery" => (1, p(2)),
                    Some(Value::Text(leg)) if leg == "securities_refund" => (2, p(10)),
                    Some(Value::Text(leg)) if leg == "cash_delivery" => (3, p(10)),
                    _ => (4, p(2)),
                };
                object(vec![
                    ("party", Value::Integer(mark as i128)),
                    ("context", text(&hex::encode([leg; 32]))),
                    ("recipient_view", text(&hex::encode(recipient.bytes))),
                    ("recipient_public", Value::Null),
                    ("sealed", Value::Null),
                ])
            }
            "sign_execution_attestation" => receipt(self.signer),
            _ if method.ends_with("_evaluations") => wire(&[1, mark]),
            _ if method.ends_with("_bind") => wire(&[2, mark]),
            _ if method.ends_with("_round1") => object(vec![("seal", wire(&[3, mark])), ("round", wire(&[4, mark]))]),
            _ if method.ends_with("_round2") => wire(&[5, mark]),
            _ => return Err(format!("unexpected operation {method}")),
        })
    }
}

fn committee() -> Vec<Node> {
    (0..COMMITTEE_SIZE)
        .map(|index| Node { index, signer: index, methods: Vec::new(), payment: None })
        .collect()
}

fn receipt(node: usize) -> Value {
    let key = key(node as u8 + 1);
    let statement = execution().receipt_statements().unwrap().swap_remove(node);
    execution_answer(&key.public.bytes, &statement.sign(&key, &sign).unwrap()).unwrap()
}

fn open(kind: u8) -> impl Fn(&Vec<u8>) -> Result<OpenedWire, String> {
    move |raw: &Vec<u8>| Ok(OpenedWire { job_id: execution().job_id().unwrap(), expected: raw[0] == kind })
}

#[allow(clippy::type_complexity)]
fn arithmetic<Pr>(
    commitment: Point,
    make: fn() -> Pr,
) -> Arithmetic<
    impl Fn(&Vec<u8>) -> Result<OpenedWire, String>,
    impl Fn(&Vec<u8>) -> Result<OpenedWire, String>,
    impl Fn(&Vec<u8>) -> Result<OpenedWire, String>,
    impl Fn(&Vec<u8>) -> Result<OpenedWire, String>,
    impl Fn(&Vec<u8>) -> Result<OpenedWire, String>,
    impl Fn(&Vec<Vec<u8>>) -> Result<usize, String>,
    impl Fn(&usize) -> Point,
    impl Fn(&usize, &Vec<Vec<u8>>) -> Result<usize, String>,
    impl Fn(&usize, &usize, &Vec<FirstRound>) -> Result<Vec<u8>, String>,
    impl Fn(&usize, &usize, &Vec<FirstRound>, &Vec<Vec<u8>>) -> Result<Pr, String>,
> {
    Arithmetic {
        evaluation: open(1),
        relation: open(2),
        seal: open(3),
        round: open(4),
        response: open(5),
        statement: |evaluations: &Vec<Vec<u8>>| Ok(evaluations.len()),
        commitment: move |_: &usize| commitment,
        relations: |_: &usize, relations: &Vec<Vec<u8>>| Ok(relations.len()),
        challenge: |_: &usize, _: &usize, rounds: &Vec<FirstRound>| {
            Ok(rounds.iter().map(|round| round.seal[1]).collect())
        },
        assemble: move |_: &usize, _: &usize, rounds: &Vec<FirstRound>, responses: &Vec<Vec<u8>>| {
            assert_eq!((rounds.len(), responses.len()), (3, 3));
            Ok(make())
        },
    }
}

#[derive(Clone, Copy)]
struct Case {
    quote: bool,
    accepted: bool,
    difference: u64,
    delivered: bool,
}

const GOOD: Case = Case { quote: true, accepted: true, difference: 18, delivered: true };

fn settle(parties: &mut Vec<Node>, request: ProductSettlementRequest, case: Case) -> Result<ProductSettlementProof, String> {
    let pay = PaymentTools {
        ranges: arithmetic(p(1), payment_ranges),
        check: move |_: &QuoteVerificationBundle| {
            if case.quote {
                Ok([16; 32])
            } else {
                Err("quote is torn".to_string())
            }
        },
        ladder: |points: &Vec<HandleEvaluation>| Ok(points[0].point),
        build: |statement: &usize,
                _: &PaymentRanges,
                _: &ProductSettlementRequest,
                endpoints: &(Point, Point),
                quote_digest: &[u8; 32]| {
            assert_eq!((*statement, *quote_digest), (7, [16; 32]));
            assert_eq!((endpoints.0.bytes, endpoints.1.bytes), (p(2).bytes, p(10).bytes));
            Ok(PaymentDraft {
                digest: [44; 64],
                amount_commitment: p(30),
                price_commitment: p(2),
                asset_commitment: p(12),
                asset_blinding: s(17),
            })
        },
    };
    let seal = SigningTools {
        read: |_: &mut Vec<Node>, public: &Vec<u8>| Ok(vec![public[0] + 1]),
        sign: |parties: &mut Vec<Node>, message: &Vec<u8>, public: &Vec<u8>, committee: &Vec<u8>| {
            assert!(parties[0].payment.is_some() && parties[3].payment.is_some() && parties[6].payment.is_some());
            assert_eq!(*message, vec![44; 64]);
            Ok(HybridSignature { classical: vec![public[0]], pq: vec![committee[0]] })
        },
        seal: |instruction: &SettlementInstruction<usize>, signature: &HybridSignature| {
            vec![instruction.payment.digest[0], signature.classical[0], signature.pq[0]]
        },
        accept: move |payment: &SignedInstruction, _: &Vec<u8>, committee: &Vec<u8>, now: u64| {
            assert_eq!((payment.wire.as_slice(), committee.as_slice(), now), ([44, 14, 15].as_slice(), [15].as_slice(), 1_000));
            if case.accepted {
                Ok(())
            } else {
                Err("venue refuses the payment".to_string())
            }
        },
    };
    let deliver = DeliveryTools {
        context: |request: &ProductSettlementRequest, price: &Point| {
            assert_eq!((request.limit_context, price.bytes), ([4; 32], p(2).bytes));
            [8; 32]
        },
        limit: move |payment: &SignedInstruction| {
            assert_eq!(payment.price_commitment.bytes, p(2).bytes);
            VerifiedProof {
                by: arithmetic(p(case.difference), range),
                verify: |_: &usize, _: &ThresholdRangeProof| Ok(()),
            }
        },
        delivery: move |_: &SignedInstruction| VerifiedProof {
            by: arithmetic(p(1), delivery_proofs),
            verify: move |_: &usize, _: &DvpProofs| case.delivered,
        },
        commitments: |_: &usize| DvpCommitments { cash: p(40), securities_remainder: p(5), cash_remainder: p(6) },
        pool: VerifiedProof { by: arithmetic(p(7), range), verify: |_: &usize, _: &ThresholdRangeProof| true },
    };
    let evidence = EvidenceTools {
        contexts: OpeningContexts {
            securities_delivery: [1; 32],
            securities_refund: [2; 32],
            cash_delivery: [3; 32],
            cash_refund: [4; 32],
        },
        valid: |_: &Value| Ok(()),
        known,
        verify,
        width: 4,
    };
    prove_product_settlement(parties, vec![14], request, &pay, &seal, &deliver, &evidence)
}

#[test]
fn a_settlement_is_proved_and_signed_by_the_committee() {
    let mut parties = committee();
    let proved = settle(&mut parties, request(), GOOD).unwrap();
    let handoff = proved.handoff;
    assert_eq!(handoff.job_id, execution().job_id().unwrap());
    assert_eq!((handoff.lane, handoff.quote_digest), (3, [16; 32]));
    assert_eq!(handoff.instruction.wire, vec![44, 14, 15]);
    assert_eq!((handoff.instruction.payer_handle.bytes, handoff.instruction.payee_handle.bytes), (p(2).bytes, p(10).bytes));
    assert_eq!((handoff.frost_public, handoff.pq_committee), (vec![14], Some(vec![15])));
    assert_eq!(handoff.securities_reserve.bytes, p(35).bytes);
    assert_eq!(handoff.cash_reserve.bytes, p(46).bytes);
    assert_eq!(handoff.maker_pool_remainder.bytes, p(7).bytes);
    assert_eq!(handoff.openings.iter().map(Vec::len).collect::<Vec<_>>(), vec![3; 4]);
    assert!(handoff.execution_context.is_none() && handoff.typed_authorization.is_none());
    assert_eq!(proved.execution_node_keys, (1..=7).map(|node| [node; 32]).collect::<Vec<_>>());
    let everyone = vec![
        "maker_handle_evaluation",
        "zkpi_evaluations",
        "zkpi_bind",
        "limit_evaluations",
        "limit_bind",
        "dvp_evaluations",
        "dvp_bind",
        "pool_remainder_evaluations",
        "pool_remainder_bind",
        "sign_execution_attestation",
    ];
    assert_eq!(parties[1].methods, everyone);
    assert_eq!(parties[3].methods.len(), everyone.len() + 8 + 1 + 4);
    match parties[6].payment.as_ref().and_then(|payment| payment.get("nonce")) {
        Some(Value::Text(nonce)) => assert_eq!(*nonce, hex::encode(execution().job_id().unwrap())),
        _ => panic!("a payment has a nonce"),
    }
}

#[test]
fn a_settlement_stops_at_the_step_that_fails() {
    let mut six = committee();
    six.pop();
    assert_eq!(
        settle(&mut six, request(), GOOD).map(|_| ()).unwrap_err(),
        "product settlement proof requires exactly seven parties"
    );
    let mut parties = committee();
    let mut other = request();
    other.job_id = [1; 32];
    assert_eq!(
        settle(&mut parties, other, GOOD).map(|_| ()).unwrap_err(),
        "product settlement request is outside its fixed bounds"
    );
    assert_eq!(
        settle(&mut parties, request(), Case { quote: false, ..GOOD }).map(|_| ()).unwrap_err(),
        "quote is torn"
    );
    assert!(parties.iter().all(|party| party.methods.is_empty()));
    assert_eq!(
        settle(&mut parties, request(), Case { accepted: false, ..GOOD }).map(|_| ()).unwrap_err(),
        "venue refuses the payment"
    );
    assert!(!parties[0].methods.contains(&"limit_evaluations".to_string()));
    let mut limited = committee();
    assert_eq!(
        settle(&mut limited, request(), Case { difference: 19, ..GOOD }).map(|_| ()).unwrap_err(),
        "MPC hidden-limit witness does not match quote and signed limit"
    );
    assert!(!limited[0].methods.contains(&"limit_bind".to_string()));
    let mut undelivered = committee();
    assert_eq!(
        settle(&mut undelivered, request(), Case { delivered: false, ..GOOD }).map(|_| ()).unwrap_err(),
        "public DvP verifier rejected the node-local MPC handoff"
    );
    assert!(!undelivered[0].methods.contains(&"pool_remainder_evaluations".to_string()));
    let mut swapped = committee();
    swapped[2].signer = 1;
    assert!(settle(&mut swapped, request(), GOOD)
        .map(|_| ())
        .unwrap_err()
        .starts_with("proof party 2 returned an execution attestation with mismatched fields: node"));
}

#[test]
fn a_wire_is_the_one_base64_text_of_its_bytes() {
    let params = |wire: &str| object(vec![("challenge", text(wire))]);
    assert_eq!(one_wire(&params("+/8="), "challenge").unwrap(), vec![251, 255]);
    assert_eq!(one_wire(&params("TWFu"), "challenge").unwrap(), b"Man".to_vec());
    for torn in ["+/9=", "+/8", "+_8=", "+/8==", "TWF"] {
        assert!(one_wire(&params(torn), "challenge").is_err());
    }
    for (bytes, expected) in [(vec![251, 255], "+/8="), (b"Man".to_vec(), "TWFu"), (vec![0], "AA==")] {
        assert!(matches!(wire_answer(&bytes), Value::Text(written) if written == expected));
    }
}

type Party = ProofParty<u8, u8, u8>;

fn reservation(party: ReservationParty, owner: u64, amount: u64) -> PretradeReservationBinding {
    let maker = party == ReservationParty::Maker;
    PretradeReservationBinding {
        party,
        owner_index: 0,
        direction: Direction::TakerBuys,
        owner_handle: p(owner).bytes,
        facility_id: [2; 32],
        reserve_id: if maker { [7; 32] } else { [12; 32] },
        mandate_digest: if maker { [9; 32] } else { [13; 32] },
        policy_digest: if maker { [8; 32] } else { [0; 32] },
        amount_commitment: p(amount).bytes,
        reserve_receipt_digest: if maker { [10; 32] } else { [14; 32] },
    }
}

fn acknowledgement() -> PretradeAcknowledgement {
    PretradeAcknowledgement {
        authority_digest: [1; 32],
        defmi_id: [2; 32],
        after_state_root: [3; 32],
        bindings: vec![reservation(ReservationParty::Taker, 2, 46), reservation(ReservationParty::Maker, 10, 35)],
        signer_public: [9; 32],
        signature: Signature { bytes: Vec::new() },
    }
}

fn settlement_context() -> ExecutionContext {
    ExecutionContext {
        operation: OperationKind::Settle,
        scope: AuthorizationScope::Joint,
        direction: Direction::TakerBuys,
        venue_id: [1; 32],
        defmi_id: [2; 32],
        before_state_root: [3; 32],
        quote_proof_digest: [16; 32],
        rfq_nullifier: [5; 32],
        maker_handle: p(10).bytes,
        maker_reservation_id: [7; 32],
        maker_policy_digest: [8; 32],
        maker_mandate_digest: [9; 32],
        maker_reserve_receipt_digest: [10; 32],
        taker_handle: p(2).bytes,
        taker_reservation_id: [12; 32],
        taker_mandate_digest: [13; 32],
        taker_reserve_receipt_digest: [14; 32],
    }
}

fn settling_party() -> Party {
    let mut completed = DigestMap::new();
    completed.insert([1; 32], ());
    let mut completed_evidence = DigestMap::new();
    completed_evidence.insert(
        [1; 32],
        CompletedProof {
            payment_digest: [44; 64],
            quote_digest: [16; 32],
            winning_policy_digest: Some([8; 32]),
            typed_message_digest: None,
            maker_handle: Some(p(10).bytes),
            taker_handle: Some(p(2).bytes),
            maker_is_payer: Some(false),
            securities_reserve: Some(p(35).bytes),
            cash_reserve: Some(p(46).bytes),
            opening_shares: OpeningShares {
                securities_delivery: None,
                securities_refund: None,
                cash_delivery: None,
                cash_refund: None,
            },
            application_action_digest: None,
        },
    );
    ProofParty {
        config: ProofPartyConfig {
            recipient_opening_keys: Vec::new(),
            node: 0,
            allowed_root: "/root".to_string(),
            state_file: "state".to_string(),
            state_passphrase: b"a long passphrase".to_vec(),
            n_mm: 2,
            n_parties: 3,
            threshold: 1,
            amount_bits: 32,
            price_bits: 32,
            remainder_bits: 32,
            complete_quote_proof: false,
            quote_eligibility_bits: 16,
            quote_span_bits: 16,
            trusted_defmi_receipt_public: Some([9; 32]),
            allow_health_signing: false,
        },
        application_identity: key(7),
        identity_public: [8; 32],
        jobs: DigestMap::new(),
        reserved: DigestMap::new(),
        completed,
        completed_evidence,
        application_controls: DigestMap::new(),
        frost_key: Some(FrostKey {
            session: [1; 32],
            key_package: vec![1],
            public_package: vec![2],
            finalize_digest: None,
        }),
        pq_committee: Some(QuorumPolicy {
            epoch: 1,
            context: Vec::new(),
            classical_binding: [0; 32],
            threshold: 2,
            members: Vec::new(),
        }),
        pq_identity_cache: DigestMap::new(),
        pending_peers: None,
        peers: None,
        dkg_round1: None,
        dkg_round2: None,
        frost_nonces: DigestMap::new(),
        frost_reserved: DigestMap::new(),
        frost_consumed: DigestMap::new(),
        frost_authorized: DigestMap::new(),
        publication_consumed: DigestMap::new(),
        state_generation: 1,
        state_healthy: true,
    }
}

fn written(_: &Party, _: u64) -> Result<(), String> {
    Ok(())
}

fn read_payment(wire: &Vec<u8>) -> Option<Payment> {
    assert_eq!(*wire, vec![3]);
    Some(Payment {
        digest: [44; 64],
        amount_commitment: p(30).bytes,
        price_commitment: p(2).bytes,
        payer_handle: p(2).bytes,
        payee_handle: p(10).bytes,
        deadline: 1_100,
        quote_proof_digest: Some([16; 32]),
        signature: vec![21],
        pq_approval: Some(vec![22]),
    })
}

fn read_context(wire: &Vec<u8>, payment: &Vec<u8>) -> Option<ExecutionContext> {
    assert_eq!((wire.as_slice(), payment.as_slice()), ([4].as_slice(), [3].as_slice()));
    Some(settlement_context())
}

fn context_digest(payment: &Vec<u8>, context: &Vec<u8>) -> Result<Vec<u8>, String> {
    assert_eq!((payment.as_slice(), context.as_slice()), ([3].as_slice(), [4].as_slice()));
    Ok(vec![2; 64])
}

fn committee_fits(public: &Vec<u8>, committee: &QuorumPolicy) -> Result<(), String> {
    assert_eq!((public.as_slice(), committee.threshold), ([2].as_slice(), 2));
    Ok(())
}

fn payment_holds(
    wire: &Vec<u8>,
    public: &Vec<u8>,
    committee: &QuorumPolicy,
    bounds: VenueBounds,
    now: u64,
) -> Result<(), String> {
    assert_eq!((wire.as_slice(), public.as_slice(), committee.epoch), ([3].as_slice(), [2].as_slice(), 1));
    assert_eq!(bounds, VenueBounds { amount_bits: 32, price_bits: 32, max_horizon: 3_600 });
    if now <= 1_100 {
        Ok(())
    } else {
        Err("payment expired".to_string())
    }
}

fn typed_params(message: u8) -> Value {
    object(vec![
        ("job_id", text(&hex::encode([1; 32]))),
        ("signing_job_id", text(&hex::encode(signing_job(&[message; 64])))),
        ("message", wire(&[message; 64])),
        ("payment", wire(&[3])),
        ("context", wire(&[4])),
        ("pretrade_ack", wire(&[5, 5])),
    ])
}

fn authorize(party: &mut Party, ack: &dyn Fn() -> PretradeAcknowledgement, message: u8) -> Result<&'static str, String> {
    authorize_at(party, ack, message, 1_000)
}

fn authorize_at(
    party: &mut Party,
    ack: &dyn Fn() -> PretradeAcknowledgement,
    message: u8,
    now: u64,
) -> Result<&'static str, String> {
    let wires = WireTools { payment: read_payment, context: read_context, digest: context_digest };
    let venue = VenueTools { accept: committee_fits, verify: payment_holds };
    let decode = |raw: &Vec<u8>| {
        if *raw == vec![5, 5] {
            Ok(ack())
        } else {
            Err("acknowledgement is torn".to_string())
        }
    };
    party.authorize_typed(&typed_params(message), Some(now), &wires, &venue, &decode, &known, &verify, &written)
}

#[test]
fn a_settlement_is_authorized_only_under_the_pinned_signer() {
    let good = || acknowledgement().sign(&key(9), &known, &sign).unwrap();
    let mut party = settling_party();
    let foreign = || {
        let mut other = acknowledgement();
        other.signer_public = [8; 32];
        other.sign(&key(8), &known, &sign).unwrap()
    };
    assert_eq!(
        authorize(&mut party, &foreign, 2).unwrap_err(),
        "pre-trade acknowledgement is not from the pinned DeFMI"
    );
    let changed = || {
        let mut other = good();
        other.after_state_root = [4; 32];
        other
    };
    assert_eq!(authorize(&mut party, &changed, 2).unwrap_err(), "pre-trade acknowledgement signature is invalid");
    let elsewhere = || {
        let mut other = acknowledgement();
        other.after_state_root = [4; 32];
        other.sign(&key(9), &known, &sign).unwrap()
    };
    assert_eq!(
        authorize(&mut party, &elsewhere, 2).unwrap_err(),
        "typed settlement is not based on the acknowledged DeFMI state"
    );
    let smaller = || {
        let mut other = acknowledgement();
        other.bindings[0].amount_commitment = p(45).bytes;
        other.sign(&key(9), &known, &sign).unwrap()
    };
    assert_eq!(
        authorize(&mut party, &smaller, 2).unwrap_err(),
        "typed settlement differs from the acknowledged pre-trade reserves"
    );
    assert!(!party.frost_authorized.contains(&signing_job(&[2; 64])));
    assert_eq!(
        authorize(&mut party, &good, 3).unwrap_err(),
        "typed FROST message does not encode this execution context"
    );
    assert_eq!(
        authorize_at(&mut party, &good, 2, 1_101).unwrap_err(),
        "typed authorization payment failed: payment expired"
    );
    assert_eq!(authorize(&mut party, &good, 2).unwrap(), "typed-mpc-zkpi");
    assert!(party.frost_authorized.contains(&signing_job(&[2; 64])));
    assert!(party.completed_evidence.get(&[1; 32]).unwrap().typed_message_digest.is_some());
    let mut unpinned = settling_party();
    unpinned.config.trusted_defmi_receipt_public = None;
    assert_eq!(
        authorize(&mut unpinned, &good, 2).unwrap_err(),
        "proof node has no pinned DeFMI reservation receipt key"
    );
    let mut malformed = settling_party();
    malformed.config.trusted_defmi_receipt_public = Some([0xee; 32]);
    assert_eq!(
        authorize(&mut malformed, &good, 2).unwrap_err(),
        "pinned DeFMI reservation receipt key is malformed"
    );
}
