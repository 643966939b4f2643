//! Proofs with the whole committee.

use base64::Engine;
use curve25519_dalek::ristretto::RistrettoPoint;
use qomm_transport::committee_proof::Arithmetic;
use qomm_transport::complete_quote::{
    complete_quote_request, CompleteQuotePublicInput, CompleteQuoteRequest, RegisteredPolicyOpening,
};
use qomm_transport::coordinator::{FirstRound, ProofPartyRpc, COMMITTEE_SIZE};
use qomm_transport::group::{Point, Scalar};
use qomm_transport::json::Value;
use qomm_transport::product_settlement::{collect_openings, find_maker, OpeningContexts};
use qomm_transport::proof_codec::{OpeningProof, ProductProof, ThresholdRangeProof};
use qomm_transport::proof_rounds::{HandleEvaluation, OpenedWire};
use qomm_transport::quote_codec::{
    decode_quote_verification, encode_quote_verification, BitValidityProof, EligibilityProof, Gate, MakerCommitments,
    MakerProof, MinimalityProof, QuoteProof, QuotePublic, QuoteVerificationBundle, RegisteredPolicy,
};
use qomm_transport::quote_committee::{prove_complete_quote, QuoteArithmetic, QuoteRounds};
use qomm_transport::quote_issuer::{MakerHandoff, MpcQuoteNode, NamedShares, QuoteHandoff};
use qomm_transport::quote_messages::{
    encode, Envelope, Message, OpeningChallenge, OpeningRound1, OpeningRound1Seal, OpeningRound2, QuoteChallenges,
    QuoteNodeEvaluations, QuoteRelationEvaluations, QuoteRound1, QuoteRound1Seals, QuoteRound2, RangeChallenge,
    RangeEvaluations, RangeRelationEvaluations, RangeRound1, RangeRound1Seal, RangeRound2, WireEvaluation,
    ProductChallenge, ProductEvaluations, ProductRound1, ProductRound1Seal, ProductRound2,
};
use qomm_transport::settlement_proofs::prove_standing_pool_remainder;
use qomm_transport::wire::FieldElement;

const JOB: [u8; 32] = [9; 32];

fn p(value: u64) -> Point {
    Point { bytes: RistrettoPoint::mul_base(&curve25519_dalek::Scalar::from(value)).compress().to_bytes() }
}

fn s(value: u64) -> Scalar {
    Scalar { bytes: curve25519_dalek::Scalar::from(value).to_bytes() }
}

fn wire(bytes: &[u8]) -> Value {
    Value::Text(base64::engine::general_purpose::STANDARD.encode(bytes))
}

fn pair(seal: Value, round: Value) -> Value {
    Value::Object(vec![("seal".to_string(), seal), ("round".to_string(), round)])
}

type Answers = fn(usize, &str) -> Result<Value, String>;

struct Party {
    index: usize,
    answers: Answers,
    methods: Vec<String>,
    params: Vec<Value>,
}

impl ProofPartyRpc for Party {
    fn call(&mut self, method: &str, params: Value) -> Result<Value, String> {
        self.methods.push(method.to_string());
        self.params.push(params);
        (self.answers)(self.index, method)
    }
}

fn committee(answers: Answers) -> Vec<Party> {
    (0..COMMITTEE_SIZE)
        .map(|index| Party { index, answers, methods: Vec::new(), params: Vec::new() })
        .collect()
}

fn pool_answers(index: usize, method: &str) -> Result<Value, String> {
    let mark = index as u8 + 1;
    Ok(match method {
        "pool_remainder_evaluations" => wire(&[1, mark]),
        "pool_remainder_bind" => wire(&[2, mark]),
        "pool_remainder_round1" => pair(wire(&[3, mark]), wire(&[4, mark])),
        "pool_remainder_round2" => wire(&[5, mark]),
        _ => return Err(format!("unexpected operation {method}")),
    })
}

fn open(kind: u8) -> impl Fn(&Vec<u8>) -> Result<OpenedWire, String> {
    move |raw: &Vec<u8>| Ok(OpenedWire { job_id: JOB, expected: raw[0] == kind })
}

fn prove_pool(parties: &mut Vec<Party>, accept: bool) -> Result<(usize, Vec<u8>), String> {
    prove_standing_pool_remainder(
        parties,
        &JOB,
        &Arithmetic {
            evaluation: open(1),
            relation: open(2),
            seal: open(3),
            round: open(4),
            response: open(5),
            statement: |evaluations: &Vec<Vec<u8>>| Ok(evaluations.len()),
            commitment: |_: &usize| p(1),
            relations: |_: &usize, relations: &Vec<Vec<u8>>| Ok(relations.len()),
            challenge: |_: &usize, _: &usize, rounds: &Vec<FirstRound>| {
                Ok(rounds.iter().map(|round| round.seal[1]).collect())
            },
            assemble: |_: &usize, _: &usize, rounds: &Vec<FirstRound>, responses: &Vec<Vec<u8>>| {
                Ok(rounds.iter().zip(responses).map(|(round, answer)| round.round[1] + answer[1]).collect::<Vec<u8>>())
            },
        },
        &|statement: &usize, _: &Vec<u8>| accept && *statement == 7,
    )
}

#[test]
fn a_pool_remainder_is_proved_by_the_quorum() {
    let mut parties = committee(pool_answers);
    assert_eq!(prove_pool(&mut parties, true).unwrap(), (7, vec![2, 8, 14]));
    for (index, party) in parties.iter().enumerate() {
        let mut expected = vec!["pool_remainder_evaluations", "pool_remainder_bind"];
        if [0, 3, 6].contains(&index) {
            expected.extend(["pool_remainder_round1", "pool_remainder_round2"]);
        }
        assert_eq!(party.methods, expected);
    }
    match &parties[0].params[3] {
        Value::Object(fields) => {
            assert_eq!(fields[0].0, "job_id");
            assert!(matches!(&fields[1].1, Value::Text(text) if text == "AQQH"));
        }
        _ => panic!("the parameters of a call are an object"),
    }
    let mut again = committee(pool_answers);
    assert_eq!(
        prove_pool(&mut again, false).unwrap_err(),
        "public verifier rejected the standing-pool remainder proof"
    );
}

#[test]
fn a_party_with_another_message_stops_the_proof() {
    let mut parties = committee(|index, method| {
        if index == 3 && method == "pool_remainder_bind" {
            return Ok(wire(&[1, 1]));
        }
        pool_answers(index, method)
    });
    assert_eq!(
        prove_pool(&mut parties, true).unwrap_err(),
        "standing-pool proof party returned another relation type"
    );
    assert_eq!(parties[3].methods.len(), 2);
    assert_eq!(parties[4].methods, ["pool_remainder_evaluations"]);
    let mut silent = committee(|index, method| {
        if index == 3 && method == "pool_remainder_round1" {
            return Ok(Value::Object(Vec::new()));
        }
        pool_answers(index, method)
    });
    assert_eq!(
        prove_pool(&mut silent, true).unwrap_err(),
        "proof party omitted standing-pool remainder seal"
    );
    let mut garbled = committee(|index, method| {
        if index == 6 && method == "pool_remainder_evaluations" {
            return Ok(Value::Text("!".to_string()));
        }
        pool_answers(index, method)
    });
    assert_eq!(
        prove_pool(&mut garbled, true).unwrap_err(),
        "proof-party standing-pool remainder evaluation is not valid base64"
    );
}

fn sealed(message: Message) -> Value {
    wire(&encode(&Envelope { job_id: JOB, message }).unwrap())
}

fn quote_answers(index: usize, method: &str) -> Result<Value, String> {
    let party = index + 1;
    Ok(match method {
        "quote_evaluations" => sealed(Message::Evaluations(QuoteNodeEvaluations {
            party,
            wires: vec![WireEvaluation { party, point: p(1) }],
            ranges: vec![RangeEvaluations { party, value: p(2), bits: vec![p(3)] }],
        })),
        "quote_bind" => sealed(Message::RelationEvaluations(QuoteRelationEvaluations {
            party,
            products: vec![ProductEvaluations { party, factor: p(4), relation: p(5) }],
            ranges: vec![RangeRelationEvaluations { party, bits: vec![p(6)] }],
        })),
        "quote_relation_bind" => Value::Object(vec![("bound".to_string(), Value::Bool(true))]),
        "quote_round1" => pair(
            sealed(Message::Round1Seal(QuoteRound1Seals {
                party,
                products: vec![ProductRound1Seal { party, digest: [1; 32] }],
                ranges: vec![RangeRound1Seal { party, digest: [2; 32] }],
                winner: OpeningRound1Seal { party, digest: [3; 32] },
            })),
            sealed(Message::Round1(QuoteRound1 {
                party,
                products: vec![ProductRound1 { party, context_digest: [4; 32], factor: p(7), product: p(8) }],
                ranges: vec![RangeRound1 {
                    party,
                    context_digest: [5; 32],
                    bit_factor: vec![p(9)],
                    bit_product: vec![p(10)],
                    linkage: p(11),
                }],
                winner: OpeningRound1 { party, context_digest: [6; 32], nonce_commitment: p(12) },
            })),
        ),
        "quote_round2" => sealed(Message::Round2(QuoteRound2 {
            party,
            products: vec![ProductRound2 {
                party,
                factor_answer: s(23),
                factor_blinding_answer: s(24),
                relation_answer: s(25),
            }],
            ranges: vec![RangeRound2 {
                party,
                bit_answers: vec![(s(26), s(27), s(28))],
                linkage_answer: (s(29), s(30)),
            }],
            winner: OpeningRound2 { party, value_answer: s(31), blinding_answer: s(32) },
        })),
        "quote_finalize" => Value::Object(vec![(
            "quote_digest".to_string(),
            Value::Text(hex::encode([5; 32])),
        )]),
        _ => return Err(format!("unexpected operation {method}")),
    })
}

fn challenge() -> Message {
    let quorum = vec![1, 4, 7];
    Message::Challenge(QuoteChallenges {
        products: vec![ProductChallenge {
            quorum: quorum.clone(),
            context_digest: [7; 32],
            factor: p(13),
            product: p(14),
            challenge: s(15),
        }],
        ranges: vec![RangeChallenge {
            quorum: quorum.clone(),
            context_digest: [8; 32],
            bit_factor: vec![p(16)],
            bit_product: vec![p(17)],
            bit_challenges: vec![s(18)],
            linkage: p(19),
            linkage_challenge: s(20),
        }],
        winner: OpeningChallenge { quorum, context_digest: [9; 32], nonce_commitment: p(21), challenge: s(22) },
    })
}

fn policy() -> RegisteredPolicy {
    RegisteredPolicy {
        maker_asset: 0,
        ask_level: p(1),
        spread: p(2),
        slope: p(3),
        invcoef: p(4),
        inv: p(5),
        maxqty: p(6),
        expiry: p(7),
        active: p(8),
        use_ref: p(9),
    }
}

fn public() -> QuotePublic {
    QuotePublic {
        qty_commitment: p(30),
        now: 5,
        sentinel: 1_000,
        n_slots: 1,
        direction: 0,
        asset: 0,
        reference_price: 100,
        registry: vec![policy()],
        registry_digest: [1; 32],
        market_digest: [2; 32],
        slot: 3,
    }
}

fn product() -> ProductProof {
    ProductProof { t_factor: p(1), t_product: p(2), z_b: s(3), z_rb: s(4), z_s: s(5) }
}

fn range(bits: usize) -> ThresholdRangeProof {
    ThresholdRangeProof {
        bit_commitments: vec![p(1); bits],
        bit_proofs: vec![product(); bits],
        linkage: OpeningProof { t: p(6), z_value: s(7), z_blinding: s(8) },
        bits,
    }
}

fn gate() -> Gate {
    Gate {
        commitment: p(1),
        bit_proof: BitValidityProof::Square(product()),
        product: product(),
        product_commitment: p(2),
        witness_commitment: p(3),
    }
}

fn quote_proof() -> QuoteProof {
    QuoteProof {
        winner_index: 0,
        winner_value: 42,
        maker_proofs: vec![MakerProof {
            depth: product(),
            skew: product(),
            gate_cost: product(),
            eligibility: EligibilityProof::Threshold { fits: range(2), fresh: range(2) },
            active_bit: BitValidityProof::Square(product()),
            reference_bit: BitValidityProof::Square(product()),
            fits_gate: gate(),
            fresh_gate: gate(),
            conjunction: (product(), product()),
            commitments: MakerCommitments {
                slope: p(1),
                invcoef: p(2),
                inv: p(3),
                depth: p(4),
                skew: p(5),
                fits: p(6),
                fresh: p(7),
                active: p(8),
                ok: p(9),
                fresh_strict: p(10),
                both: p(11),
                cost: p(12),
                gated: p(13),
                shifted_cost: p(14),
            },
        }],
        winner_opening: OpeningProof { t: p(1), z_value: s(2), z_blinding: s(3) },
        minimality: MinimalityProof::Threshold(vec![range(2)]),
        key_commitments: vec![p(4)],
    }
}

fn request() -> CompleteQuoteRequest {
    CompleteQuoteRequest {
        job_id: JOB,
        request_context: [3; 32],
        public: public(),
        winner_index: 0,
        winner_value: 42,
        eligibility_bits: 4,
        span_bits: 2,
    }
}

fn prove_quote(parties: &mut Vec<Party>, digest: [u8; 32]) -> Result<QuoteVerificationBundle, String> {
    prove_complete_quote(
        parties,
        request(),
        &|request: &CompleteQuoteRequest| {
            assert_eq!((request.eligibility_bits, request.span_bits), (4, 2));
            Ok(())
        },
        &QuoteArithmetic {
            statement: |_: &CompleteQuoteRequest, evaluations: &Vec<Envelope>| Ok(evaluations.len()),
            relations: |_: &usize, _: &CompleteQuoteRequest, relations: &Vec<Envelope>| Ok(relations.len()),
            challenge: |_: &usize, _: &usize, _: &CompleteQuoteRequest, _: &[u8; 32], rounds: &QuoteRounds| {
                assert_eq!((rounds.seals.len(), rounds.rounds.len()), (3, 3));
                Ok(challenge())
            },
            assemble: |_: &usize,
                       _: &usize,
                       _: &CompleteQuoteRequest,
                       _: &[u8; 32],
                       _: &QuoteRounds,
                       responses: &Vec<Envelope>| {
                assert_eq!(responses.len(), 3);
                Ok(quote_proof())
            },
            check: |_: &QuoteVerificationBundle| Ok(digest),
        },
    )
}

#[test]
fn a_complete_quote_is_taken_by_every_party() {
    let mut parties = committee(quote_answers);
    let bundle = prove_quote(&mut parties, [5; 32]).unwrap();
    assert_eq!((bundle.eligibility_bits, bundle.span_bits), (2, 2));
    for (index, party) in parties.iter().enumerate() {
        let mut expected = vec!["quote_evaluations", "quote_bind", "quote_relation_bind"];
        if [0, 3, 6].contains(&index) {
            expected.extend(["quote_round1", "quote_round2"]);
        }
        expected.push("quote_finalize");
        assert_eq!(party.methods, expected);
    }
    let mut other = committee(quote_answers);
    assert_eq!(
        prove_quote(&mut other, [6; 32]).unwrap_err(),
        "proof parties finalized different complete quote proofs"
    );
    let mut unbound = committee(|index, method| {
        if index == 5 && method == "quote_relation_bind" {
            return Ok(Value::Object(Vec::new()));
        }
        quote_answers(index, method)
    });
    assert_eq!(
        prove_quote(&mut unbound, [5; 32]).unwrap_err(),
        "quote proof party did not bind its relation statement"
    );
    assert!(unbound[6].methods.len() == 2);
    let mut mixed = committee(|index, method| match method {
        "quote_round2" => quote_answers(index, "quote_bind"),
        _ => quote_answers(index, method),
    });
    assert_eq!(
        prove_quote(&mut mixed, [5; 32]).unwrap_err(),
        "quote proof party returned another response type"
    );
    let mut six = committee(quote_answers);
    six.pop();
    assert_eq!(
        prove_quote(&mut six, [5; 32]).unwrap_err(),
        "complete quote proof requires exactly seven parties"
    );
}

#[test]
fn a_quote_bundle_is_read_back() {
    let bundle = QuoteVerificationBundle {
        context: [1; 32],
        eligibility_bits: 2,
        span_bits: 2,
        public: public(),
        proof: quote_proof(),
    };
    let check = |_: &QuoteVerificationBundle| Ok([5; 32]);
    let raw = encode_quote_verification(&bundle, &check).unwrap();
    let read = decode_quote_verification(&raw, &check).unwrap();
    assert_eq!(encode_quote_verification(&read, &check).unwrap(), raw);
    assert_eq!(read.proof.winner_value, 42);
    assert!(decode_quote_verification(&raw[..raw.len() - 1], &check).is_err());
    let mut longer = raw;
    longer.push(0);
    assert!(decode_quote_verification(&longer, &check).is_err());
    let refuse = |_: &QuoteVerificationBundle| Err::<[u8; 32], String>("the proof does not hold".to_string());
    assert_eq!(
        encode_quote_verification(&bundle, &refuse).unwrap_err(),
        "the proof does not hold"
    );
}

#[test]
fn registered_policies_are_committed_in_their_order() {
    let opening = |active: i64| RegisteredPolicyOpening {
        maker_asset: 0,
        values: [1, 2, 3, 4, -5, 6, 7, active, 0],
        blindings: [11, 12, 13, 14, 15, 16, 17, 18, 19],
    };
    let input = |active: i64, context: u8| CompleteQuotePublicInput {
        job_id: JOB,
        request_context: [context; 32],
        quantity: 10,
        quantity_blinding: 20,
        now: 1,
        sentinel: 2,
        direction: 0,
        asset: 0,
        reference_price: 3,
        policies: vec![opening(active)],
        market_digest: [4; 32],
        slot: 5,
        winner_index: 0,
        winner_value: 6,
        eligibility_bits: 4,
        span_bits: 2,
    };
    let commit = |value: &Scalar, blinding: &Scalar| {
        let curve = |scalar: &Scalar| curve25519_dalek::Scalar::from_canonical_bytes(scalar.bytes).unwrap();
        let sum = curve(value) + curve(blinding) * curve25519_dalek::Scalar::from(1_000_u64);
        Point { bytes: RistrettoPoint::mul_base(&sum).compress().to_bytes() }
    };
    let digest = |registry: &Vec<RegisteredPolicy>| [registry.len() as u8; 32];
    let request = complete_quote_request(input(1, 1), &commit, &digest).unwrap();
    assert_eq!(request.public.qty_commitment, p(10 + 20 * 1_000));
    assert_eq!(request.public.registry[0].spread, p(2 + 12 * 1_000));
    assert_eq!(request.public.registry[0].inv, p(15 * 1_000 - 5));
    assert_eq!(request.public.registry_digest, [1; 32]);
    assert_eq!(
        complete_quote_request(input(2, 1), &commit, &digest).unwrap_err(),
        "quote registration openings are outside their fixed bounds"
    );
    assert_eq!(
        complete_quote_request(input(1, 0), &commit, &digest).unwrap_err(),
        "complete quote request is outside its fixed bounds"
    );
}

fn shares(names: &[&str], first: u64) -> NamedShares {
    NamedShares {
        entries: names
            .iter()
            .enumerate()
            .map(|(i, name)| (name.to_string(), FieldElement::from_u64(first + i as u64)))
            .collect(),
    }
}

fn handoff() -> QuoteHandoff {
    let mut prime = [0; 32];
    prime.copy_from_slice(
        &hex::decode("edd3f55c1a631258d69cf7a2def9de1400000000000000000000000000000010").unwrap(),
    );
    let policy = ["ask_level", "spread", "slope", "invcoef", "inv", "maxqty", "expiry", "active"];
    let derived = ["fits_bit", "fits_product", "fresh_bit", "fresh_product", "depth", "skew", "both", "ok", "gated", "cost"];
    let core = [
        "fits_margin", "fits", "fits_product", "fresh_margin", "fresh_bit", "fresh_product", "depth", "skew", "both",
        "ok", "gated", "cost", "key",
    ];
    let cross = [
        "fits_bit", "fits_product", "fresh_bit", "fresh_product", "depth", "skew", "active", "reference", "both", "ok",
        "gated",
    ];
    QuoteHandoff {
        prime,
        party: 2,
        qty_share: FieldElement::from_u64(1),
        qty_blinding_share: FieldElement::from_u64(2),
        makers: vec![MakerHandoff {
            core: shares(&[policy.as_slice(), core.as_slice()].concat(), 100),
            policy_blinding: shares(&[policy.as_slice(), ["use_ref"].as_slice()].concat(), 200),
            derived_blinding: shares(&derived, 300),
            cross: shares(&cross, 400),
            use_ref_share: FieldElement::from_u64(500),
            key_blinding_share: FieldElement::from_u64(501),
        }],
    }
}

#[test]
fn the_shares_of_a_node_are_read_by_their_names() {
    let node = MpcQuoteNode::from_handoff(&handoff()).unwrap();
    assert_eq!(node.party(), 3);
    assert_eq!(node.qty().blinding, s(2));
    let maker = &node.makers()[0];
    assert_eq!((maker.fields.spread.value, maker.fields.spread.blinding), (s(101), s(201)));
    assert_eq!((maker.fields.use_ref.value, maker.fields.use_ref.blinding), (s(500), s(208)));
    assert_eq!((maker.fits.value.value, maker.fits.value.blinding), (s(108), s(205 - 2)));
    assert_eq!(maker.fresh.value.blinding, s(206));
    assert_eq!(maker.fits.holds.blinding, s(300));
    assert_eq!(maker.reference_cross, s(407));
    assert_eq!((maker.packed.value, maker.packed.blinding), (s(120), s(501)));
}

#[test]
fn a_handoff_names_the_share_that_it_omits() {
    let mut missing = handoff();
    missing.makers[0].derived_blinding.entries.retain(|entry| entry.0 != "skew");
    assert_eq!(MpcQuoteNode::from_handoff(&missing).unwrap_err(), "quote handoff omitted skew");
    let mut other = handoff();
    other.prime[0] ^= 1;
    assert_eq!(
        MpcQuoteNode::from_handoff(&other).unwrap_err(),
        "MPC and quote commitments use different scalar fields"
    );
    let mut last = handoff();
    last.party = u16::MAX;
    assert_eq!(MpcQuoteNode::from_handoff(&last).unwrap_err(), "MPC party identifier overflow");
}

fn handle_answers(index: usize, method: &str) -> Result<Value, String> {
    if method != "maker_handle_evaluation" {
        return Err(format!("unexpected operation {method}"));
    }
    Ok(Value::Object(vec![
        ("party".to_string(), Value::Integer(index as i128 + 1)),
        ("point".to_string(), Value::Text(hex::encode(p(index as u64 + 10).bytes))),
    ]))
}

#[test]
fn the_winning_maker_is_found_by_the_whole_committee() {
    let first = |points: &Vec<HandleEvaluation>| {
        assert_eq!(points.iter().map(|value| value.party).collect::<Vec<_>>(), (1..=7).collect::<Vec<_>>());
        Ok(points[0].point)
    };
    let mut parties = committee(handle_answers);
    let (maker, answers) = find_maker(&mut parties, &JOB, &p(1), &first).unwrap();
    assert_eq!((maker.bytes, answers.len()), (p(10).bytes, 7));
    let distinct = "winning Maker and Taker handles must be distinct non-identity points";
    assert_eq!(find_maker(&mut parties, &JOB, &p(10), &first).unwrap_err(), distinct);
    assert_eq!(
        find_maker(&mut parties, &JOB, &p(1), &|_: &Vec<HandleEvaluation>| Ok(p(0))).unwrap_err(),
        distinct
    );
    let mut twice = committee(|index, method| handle_answers(index / 2, method));
    assert_eq!(
        find_maker(&mut twice, &JOB, &p(1), &first).unwrap_err(),
        "winning Maker handle evaluation duplicated a committee party"
    );
}

fn leg_context(leg: u8) -> [u8; 32] {
    [leg; 32]
}

fn opening_answers(index: usize, recipient: &Point, context: u8) -> Value {
    Value::Object(vec![
        ("party".to_string(), Value::Integer(index as i128 + 1)),
        ("context".to_string(), Value::Text(hex::encode(leg_context(context)))),
        ("recipient_view".to_string(), Value::Text(hex::encode(recipient.bytes))),
        ("recipient_public".to_string(), Value::Null),
        ("sealed".to_string(), Value::Null),
    ])
}

struct Opener {
    index: usize,
    asked: usize,
}

impl ProofPartyRpc for Opener {
    fn call(&mut self, method: &str, params: Value) -> Result<Value, String> {
        assert_eq!(method, "claim_opening_share");
        self.asked += 1;
        let (leg, recipient) = match params.get("leg") {
            Some(Value::Text(leg)) if leg == "securities_delivery" => (1, p(1)),
            Some(Value::Text(leg)) if leg == "securities_refund" => (2, p(2)),
            Some(Value::Text(leg)) if leg == "cash_delivery" => (3, p(2)),
            _ => (4, p(1)),
        };
        Ok(opening_answers(self.index, &recipient, leg))
    }
}

#[test]
fn an_opening_goes_to_the_side_that_its_leg_goes_to() {
    let contexts = OpeningContexts {
        securities_delivery: leg_context(1),
        securities_refund: leg_context(2),
        cash_delivery: leg_context(3),
        cash_refund: leg_context(4),
    };
    let mut openers = (0..COMMITTEE_SIZE).map(|index| Opener { index, asked: 0 }).collect::<Vec<_>>();
    let accept = |_: &Value| Ok(());
    let openings = collect_openings(&mut openers, &JOB, &p(1), &p(2), &contexts, &accept).unwrap();
    assert_eq!(openings.iter().map(Vec::len).collect::<Vec<_>>(), vec![3; 4]);
    assert_eq!(openers.iter().map(|opener| opener.asked).collect::<Vec<_>>(), vec![4, 0, 0, 4, 0, 0, 4]);
    assert_eq!(
        collect_openings(&mut openers, &JOB, &p(2), &p(1), &contexts, &accept).unwrap_err(),
        "proof party changed a claim-opening context or recipient"
    );
    assert_eq!(
        collect_openings(&mut openers, &JOB, &p(1), &p(2), &contexts, &|_: &Value| Err("share is torn".to_string()))
            .unwrap_err(),
        "share is torn"
    );
}
