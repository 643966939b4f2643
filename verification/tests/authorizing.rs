//! What a node signs: reserves, pool allocations and publications.

use base64::Engine;
use qomm_transport::application_crypto::{SigningKey, VerifyingKey};
use qomm_transport::digest_map::DigestMap;
use qomm_transport::group::{Point, Scalar};
use qomm_transport::json::Value;
use qomm_transport::proof_authorize::StandingPoolAllocationBinding;
use qomm_transport::proof_codec::{
    encode_dvp_proofs, encode_threshold_range, DvpProofs, OpeningProof, ProductProof, ThresholdRangeProof,
};
use qomm_transport::proof_config::ProofPartyConfig;
use qomm_transport::proof_dkg::{PendingDkgRound2, QuorumPolicy};
use qomm_transport::proof_evidence::{PoolTools, Remainder, WireTools};
use qomm_transport::proof_keygen::{DirectedPackage, SecondTools};
use qomm_transport::proof_lifecycle::{JobNodes, PartyNode};
use qomm_transport::proof_mandate::{
    AuthorizationScope, Direction, ExecutionContext, MakerPolicyMandate, MandateTools, OperationKind, Payment,
    TakerExecutionMandate,
};
use qomm_transport::proof_params::QuoteStatement;
use qomm_transport::proof_peers::Broadcast;
use qomm_transport::proof_quote_rounds::QuoteFinalizeRequest;
use qomm_transport::proof_settle::PublicationTerms;
use qomm_transport::proof_state::{signing_job, FrostKey, ProofJob, ProofParty};
use qomm_transport::quote_codec::QuotePublic;
use qomm_transport::quote_messages::{
    encode, Envelope, Message, ProductEvaluations, QuoteRelationEvaluations, RangeRelationEvaluations,
};

type Party = ProofParty<u8, u8, u8>;

fn p(value: u64) -> Point {
    let point = curve25519_dalek::RistrettoPoint::mul_base(&curve25519_dalek::Scalar::from(value));
    Point { bytes: point.compress().to_bytes() }
}

fn s(value: u64) -> Scalar {
    Scalar { bytes: curve25519_dalek::Scalar::from(value).to_bytes() }
}

fn text(value: &str) -> Value {
    Value::Text(value.to_string())
}

fn wire(bytes: &[u8]) -> Value {
    Value::Text(base64::engine::general_purpose::STANDARD.encode(bytes))
}

fn object(fields: Vec<(&str, Value)>) -> Value {
    Value::Object(fields.into_iter().map(|(name, value)| (name.to_string(), value)).collect())
}

fn without(params: &mut Value, name: &str) {
    if let Value::Object(fields) = params {
        fields.retain(|(key, _)| key != name);
    }
}

fn written(_: &Party, _: u64) -> Result<(), String> {
    Ok(())
}

fn node(value: u8) -> PartyNode<u8> {
    PartyNode { party: 1, node: value }
}

/// A party with a key, a committee and one job.
fn party() -> Party {
    let mut party = ProofParty {
        config: ProofPartyConfig {
            recipient_opening_keys: Vec::new(),
            node: 0,
            allowed_root: "/root".to_string(),
            state_file: "state".to_string(),
            state_passphrase: b"a long passphrase".to_vec(),
            n_mm: 2,
            n_parties: 3,
            threshold: 1,
            amount_bits: 32,
            price_bits: 32,
            remainder_bits: 32,
            complete_quote_proof: false,
            quote_eligibility_bits: 16,
            quote_span_bits: 16,
            trusted_defmi_receipt_public: None,
            allow_health_signing: false,
        },
        application_identity: SigningKey { handle: 1, public: VerifyingKey { bytes: [7; 32] } },
        identity_public: [8; 32],
        jobs: DigestMap::new(),
        reserved: DigestMap::new(),
        completed: DigestMap::new(),
        completed_evidence: DigestMap::new(),
        application_controls: DigestMap::new(),
        frost_key: Some(FrostKey {
            session: [1; 32],
            key_package: vec![1],
            public_package: vec![2],
            finalize_digest: None,
        }),
        pq_committee: Some(QuorumPolicy {
            epoch: 1,
            context: Vec::new(),
            classical_binding: [0; 32],
            threshold: 2,
            members: Vec::new(),
        }),
        pq_identity_cache: DigestMap::new(),
        pending_peers: None,
        peers: None,
        dkg_round1: None,
        dkg_round2: None,
        frost_nonces: DigestMap::new(),
        frost_reserved: DigestMap::new(),
        frost_consumed: DigestMap::new(),
        frost_authorized: DigestMap::new(),
        publication_consumed: DigestMap::new(),
        state_generation: 1,
        state_healthy: true,
    };
    let params = object(vec![
        ("job_id", text(&hex::encode([1; 32]))),
        ("quote_digest", text(&hex::encode([16; 32]))),
        ("persistence", text("Transactions-P0.data")),
    ]);
    let take = |_: &ProofPartyConfig, _: &str, _: &Vec<u8>| {
        Ok(JobNodes {
            zkpi: node(1),
            limit: node(2),
            pool_remainder: node(3),
            dvp: node(4),
            quote: None,
            maker_handle_share: s(5),
        })
    };
    party.load(&params, |_: &str| Ok(vec![1]), take, &written).unwrap();
    party
}

fn payment(wire: &Vec<u8>) -> Option<Payment> {
    if *wire != vec![3] {
        return None;
    }
    Some(Payment {
        digest: [44; 64],
        amount_commitment: p(30).bytes,
        price_commitment: p(2).bytes,
        payer_handle: p(10).bytes,
        payee_handle: p(11).bytes,
        deadline: 1_100,
        quote_proof_digest: Some([16; 32]),
        signature: vec![21],
        pq_approval: Some(vec![22]),
    })
}

fn signed(public: &Vec<u8>, digest: &[u8; 64], signature: &Vec<u8>) -> bool {
    *public == vec![2] && *digest == [44; 64] && *signature == vec![21]
}

fn envelope(_: &Vec<u8>) -> Result<(), String> {
    Ok(())
}

fn maker(unsigned: &Vec<u8>, signature: &Vec<u8>, now: Option<u64>) -> Result<MakerPolicyMandate, String> {
    assert_eq!((unsigned.as_slice(), signature.as_slice()), ([6].as_slice(), [7].as_slice()));
    Ok(MakerPolicyMandate {
        venue_id: [1; 32],
        defmi_id: [2; 32],
        entity_commitment: [3; 32],
        asset_id: [4; 32],
        direction: Direction::TakerSells,
        maker_handle: p(10).bytes,
        reserve_id: [5; 32],
        policy_digest: [8; 32],
        policy_version: 9,
        maximum_amount_commitment: p(30).bytes,
        valid_until: 5_000,
        digest: Ok([6; 32]),
        authentic: if now == Some(1_000) { Ok(()) } else { Err("mandate expired".to_string()) },
    })
}

fn taker(_: &Vec<u8>, _: &Vec<u8>, _: Option<u64>) -> Result<TakerExecutionMandate, String> {
    Err("no Taker mandate".to_string())
}

fn context(wire: &Vec<u8>, payment: &Vec<u8>) -> Option<ExecutionContext> {
    assert_eq!((wire.as_slice(), payment.as_slice()), ([4].as_slice(), [3].as_slice()));
    Some(ExecutionContext {
        operation: OperationKind::Reserve,
        scope: AuthorizationScope::Maker,
        direction: Direction::TakerSells,
        venue_id: [1; 32],
        defmi_id: [2; 32],
        before_state_root: [0; 32],
        quote_proof_digest: [0; 32],
        rfq_nullifier: [0; 32],
        maker_handle: p(10).bytes,
        maker_reservation_id: [5; 32],
        maker_policy_digest: [8; 32],
        maker_mandate_digest: [6; 32],
        maker_reserve_receipt_digest: [0; 32],
        taker_handle: p(11).bytes,
        taker_reservation_id: [0; 32],
        taker_mandate_digest: [0; 32],
        taker_reserve_receipt_digest: [0; 32],
    })
}

fn digest(payment: &Vec<u8>, context: &Vec<u8>) -> Result<Vec<u8>, String> {
    Ok([vec![payment[0]; 32], vec![context[0]; 32]].concat())
}

fn mandate_fields(role: &str) -> Vec<(&'static str, Value)> {
    vec![("role", text(role)), ("mandate_unsigned", wire(&[6])), ("mandate_signature", text("07"))]
}

fn reserve(message: &[u8]) -> Value {
    let mut fields = vec![
        ("signing_job_id", text(&hex::encode(signing_job(message)))),
        ("message", wire(message)),
        ("payment", wire(&[3])),
        ("context", wire(&[4])),
    ];
    fields.extend(mandate_fields("maker"));
    object(fields)
}

#[test]
fn a_reserve_context_is_signed_only_for_its_payment_and_mandate() {
    let mandates = MandateTools { envelope, maker, taker };
    let wires = WireTools { payment, context, digest };
    let message = [[3; 32], [4; 32]].concat();
    let mut party = party();
    let foreign = |_: &Vec<u8>, _: &[u8; 64], _: &Vec<u8>| false;
    assert_eq!(
        party
            .authorize_reserve_typed(&reserve(&message), Some(1_000), &mandates, &wires, &foreign, &written)
            .unwrap_err(),
        "reserve payment lacks this committee's signature"
    );
    let mut ask = |params: &Value, now: Option<u64>| {
        party.authorize_reserve_typed(params, now, &mandates, &wires, &signed, &written)
    };
    let mut torn = reserve(&message);
    without(&mut torn, "payment");
    if let Value::Object(fields) = &mut torn {
        fields.push(("payment".to_string(), wire(&[9])));
    }
    assert_eq!(ask(&torn, Some(1_000)).unwrap_err(), "reserve payment wire is invalid");
    assert_eq!(ask(&reserve(&message), None).unwrap_err(), "system clock is before the Unix epoch");
    assert_eq!(ask(&reserve(&message), Some(6_000)).unwrap_err(), "mandate expired");
    assert_eq!(
        ask(&reserve(&[9; 64]), Some(1_000)).unwrap_err(),
        "typed reserve signing request changed its context"
    );
    assert_eq!(ask(&reserve(&message), Some(1_000)).unwrap(), "pretrade-reserve-context");
    assert!(party.frost_authorized.contains(&signing_job(&message)));
}

fn product() -> ProductProof {
    ProductProof { t_factor: p(1), t_product: p(2), z_b: s(1), z_rb: s(2), z_s: s(3) }
}

fn range(point: u64) -> ThresholdRangeProof {
    ThresholdRangeProof {
        bits: 1,
        bit_commitments: vec![p(point)],
        bit_proofs: vec![product()],
        linkage: OpeningProof { t: p(1), z_value: s(1), z_blinding: s(1) },
    }
}

fn allocation(body: &Value) -> Result<StandingPoolAllocationBinding, String> {
    assert!(matches!(body, Value::Text(_)));
    Ok(StandingPoolAllocationBinding {
        proof_job_id: [1; 32],
        pool_id: [51; 32],
        delegation_digest: [52; 32],
        committee_epoch: 6,
        expected_pool_sequence: 0,
        previous_amount_commitment: p(30).bytes,
        entity_commitment: [3; 32],
        asset_id: [4; 32],
        direction: 2,
        policy_digest: [8; 32],
        mandate_digest: [6; 32],
        policy_version: 9,
        quote_proof_digest: [16; 32],
        dvp_proof_digest: [53; 32],
        escrow_commitment: p(46).bytes,
        remainder_commitment: p(47).bytes,
        remainder_range_proof_digest: [54; 32],
        signing_message: Ok(vec![5; 64]),
    })
}

fn pool_id(maker: &MakerPolicyMandate, digest: &[u8; 32]) -> Result<[u8; 32], String> {
    assert_eq!((maker.entity_commitment, *digest), ([3; 32], [6; 32]));
    Ok([51; 32])
}

fn delegation(pool: &[u8; 32], maker: &MakerPolicyMandate, epoch: u64) -> Result<[u8; 32], String> {
    assert_eq!((*pool, maker.valid_until, epoch), ([51; 32], 5_000, 6));
    Ok([52; 32])
}

fn approve(committee: &QuorumPolicy, approval: &Vec<u8>, digest: &[u8; 64], now: u64) -> Result<(), String> {
    assert_eq!((approval.as_slice(), *digest, now), ([22].as_slice(), [44; 64], 1_000));
    if committee.threshold == 2 {
        Ok(())
    } else {
        Err("too few".to_string())
    }
}

fn product_holds(quantity: &Point, price: &[u8; 32], cash: &Point, proof: &ProductProof) -> bool {
    (quantity.bytes, *price, cash.bytes) == (p(30).bytes, p(2).bytes, p(60).bytes)
        && proof.z_b.bytes == s(1).bytes
}

fn range_holds(remainder: Remainder, commitment: &Point, proof: &ThresholdRangeProof) -> bool {
    let (point, bit) = match remainder {
        Remainder::Securities => (p(41), p(71)),
        Remainder::Cash => (p(42), p(72)),
        Remainder::Pool => (p(47), p(73)),
    };
    commitment.bytes == point.bytes && proof.bit_commitments[0].bytes == bit.bytes
}

fn package(payment: &Vec<u8>, cash: &Point, securities: &Point, rest: &Point, proofs: &DvpProofs) -> [u8; 32] {
    assert_eq!((payment.as_slice(), securities.bytes, rest.bytes), ([3].as_slice(), p(41).bytes, p(42).bytes));
    assert!(cash.bytes == p(60).bytes || cash.bytes == p(61).bytes);
    assert_eq!(proofs.cash_remainder.bit_commitments[0].bytes, p(72).bytes);
    [53; 32]
}

fn range_digest(proof: &ThresholdRangeProof) -> [u8; 32] {
    assert_eq!(proof.bit_commitments[0].bytes, p(73).bytes);
    [54; 32]
}

fn proved(party: &mut Party) {
    let job = party.jobs.get_mut(&[1; 32]).unwrap();
    job.quote_verified = true;
    job.dvp_response_issued = true;
    job.pool_remainder_response_issued = true;
    job.winning_policy_digest = Some([8; 32]);
    job.selected_maker_handle = Some(p(10));
    job.authorized_payment_digest = Some([44; 64]);
    job.maker_is_payer = Some(true);
    job.quantity_commitment = Some(p(30));
    job.cash_commitment = Some(p(60));
    job.securities_remainder = Some(p(41));
    job.cash_remainder = Some(p(42));
    job.securities_reserve = Some(p(45));
    job.cash_reserve = Some(p(46));
    job.pool_remainder_commitment = Some(p(47));
}

fn allocate(party: &mut Party, role: &str, securities: u64, pool: u64) -> Result<&'static str, String> {
    let proofs = DvpProofs { product: product(), securities_remainder: range(securities), cash_remainder: range(72) };
    let mut fields = vec![
        ("job_id", text(&hex::encode([1; 32]))),
        ("signing_job_id", text(&hex::encode(signing_job(&[5; 64])))),
        ("message", wire(&[5; 64])),
        ("allocation_binding", text("allocation")),
        ("payment", wire(&[3])),
        ("dvp_proofs", wire(&encode_dvp_proofs(&proofs).unwrap())),
        ("pool_remainder_range", wire(&encode_threshold_range(&range(pool)).unwrap())),
    ];
    fields.extend(mandate_fields(role));
    let by = PoolTools {
        binding: allocation,
        pool_id,
        delegation,
        approve,
        product: product_holds,
        range: range_holds,
        package,
        range_digest: |proof: &ThresholdRangeProof| if pool == 73 { range_digest(proof) } else { [54; 32] },
    };
    let mandates = MandateTools { envelope, maker, taker };
    party.authorize_standing_pool_allocation(&object(fields), Some(1_000), &mandates, &payment, &signed, &by, &written)
}

#[test]
fn a_pool_is_allocated_only_as_the_job_proved() {
    let mut node = party();
    assert_eq!(
        allocate(&mut node, "maker", 71, 73).unwrap_err(),
        "standing pool cannot be allocated before quote, DvP, and pool-remainder proofs"
    );
    proved(&mut node);
    assert_eq!(allocate(&mut node, "taker", 71, 73).unwrap_err(), "no Taker mandate");
    assert_eq!(
        allocate(&mut node, "maker", 74, 73).unwrap_err(),
        "standing pool received an invalid public DvP proof"
    );
    assert_eq!(
        allocate(&mut node, "maker", 71, 74).unwrap_err(),
        "standing pool split differs from the proved Maker reserve or remainder"
    );
    node.pq_committee.as_mut().unwrap().threshold = 1;
    assert_eq!(
        allocate(&mut node, "maker", 71, 73).unwrap_err(),
        "standing pool payment PQ approval is invalid: too few"
    );
    node.pq_committee.as_mut().unwrap().threshold = 2;
    assert_eq!(allocate(&mut node, "maker", 71, 73).unwrap(), "standing-pool-allocation");
    assert!(node.frost_authorized.contains(&signing_job(&[5; 64])));
    let mut elsewhere = party();
    proved(&mut elsewhere);
    elsewhere.jobs.get_mut(&[1; 32]).unwrap().cash_commitment = Some(p(61));
    assert_eq!(
        allocate(&mut elsewhere, "maker", 71, 73).unwrap_err(),
        "standing pool received an invalid public DvP proof"
    );
}

#[test]
fn a_publication_is_read_with_its_noise() {
    let params = object(vec![
        ("statement", Value::Integer(40)),
        ("sensitivity", Value::Integer(3)),
        ("support", Value::Integer(9)),
        ("evidence_path", text("dp-publication-P0.json")),
    ]);
    let read = |statement: &Value| match statement {
        Value::Integer(40) => Some(PublicationTerms { operation_id: [4; 32], statement: 40_u64 }),
        _ => None,
    };
    let mechanism = |statement: &u64, sensitivity: u64, support: u16| {
        if (*statement, sensitivity, support) == (40, 3, 9) {
            Ok(())
        } else {
            Err("noise cannot be drawn".to_string())
        }
    };
    let mut party = party();
    let request = party.publication_request(&params, &read, &mechanism).unwrap();
    assert_eq!((request.operation_id, request.statement, request.support), ([4; 32], 40, 9));
    let narrow = |_: &u64, _: u64, _: u16| Err("noise cannot be drawn".to_string());
    assert_eq!(party.publication_request(&params, &read, &narrow).unwrap_err(), "noise cannot be drawn");
    let nothing = |_: &Value| None::<PublicationTerms<u64>>;
    assert_eq!(
        party.publication_request(&params, &nothing, &mechanism).unwrap_err(),
        "publication statement is malformed"
    );
    party.sign_publication(&request, &written).unwrap();
    assert_eq!(
        party.publication_request(&params, &read, &mechanism).unwrap_err(),
        "publication operation was already signed by this node"
    );
}

fn quote_statement() -> QuoteStatement {
    QuoteStatement {
        public: QuotePublic {
            qty_commitment: p(1),
            now: 0,
            sentinel: 0,
            n_slots: 0,
            direction: 0,
            asset: 0,
            reference_price: 0,
            registry: Vec::new(),
            registry_digest: [0; 32],
            market_digest: [0; 32],
            slot: 0,
        },
        winner_index: 0,
        winner_value: 12,
        context: vec![1],
    }
}

#[test]
fn a_quote_is_final_only_with_its_statements() {
    let mut party = party();
    let circuit = |_: &ProofPartyConfig| Ok(());
    let relations = Envelope {
        job_id: [1; 32],
        message: Message::RelationEvaluations(QuoteRelationEvaluations {
            party: 1,
            products: vec![ProductEvaluations { party: 1, factor: p(4), relation: p(5) }],
            ranges: vec![RangeRelationEvaluations { party: 1, bits: vec![p(6)] }],
        }),
    };
    let params = object(vec![
        ("job_id", text(&hex::encode([1; 32]))),
        ("evaluations", Value::Array(vec![wire(&encode(&relations).unwrap())])),
    ]);
    let relate = |job: &ProofJob<u8, u8, u8>, evaluations: &Vec<Envelope>| {
        assert!(matches!(evaluations[0].message, Message::RelationEvaluations(_)));
        assert_eq!(job.quote_public.as_ref().map(|public| public.winner_value), Some(12));
        Ok(job.quote.bound.unwrap_or(0) + evaluations.len() as u8)
    };
    let request = QuoteFinalizeRequest {
        id: [1; 32],
        rounds: Vec::new(),
        seals: Vec::new(),
        responses: Vec::new(),
        quorum: vec![1, 2, 3],
    };
    let assemble = |job: &ProofJob<u8, u8, u8>, request: &QuoteFinalizeRequest| {
        assert_eq!((job.quote.bound, job.quote_relations, request.quorum.len()), (Some(30), Some(31), 3));
        Ok([77; 32])
    };
    party.jobs.get_mut(&[1; 32]).unwrap().quote_verified = false;
    assert_eq!(
        party.quote_relation_bind(&params, &circuit, &relate).unwrap_err(),
        "quote base statement is not bound"
    );
    assert_eq!(
        party.quote_finalize(&request, &circuit, &assemble).unwrap_err(),
        "quote public statement is absent"
    );
    party.jobs.get_mut(&[1; 32]).unwrap().quote_public = Some(quote_statement());
    assert_eq!(
        party.quote_finalize(&request, &circuit, &assemble).unwrap_err(),
        "quote base statement is absent"
    );
    party.jobs.get_mut(&[1; 32]).unwrap().quote.bound = Some(30);
    assert_eq!(
        party.quote_finalize(&request, &circuit, &assemble).unwrap_err(),
        "quote relation statement is absent"
    );
    party.quote_relation_bind(&params, &circuit, &relate).unwrap();
    assert_eq!(party.jobs.get(&[1; 32]).unwrap().quote_relations, Some(31));
    assert_eq!(party.quote_finalize(&request, &circuit, &assemble).unwrap(), [77; 32]);
    let job = party.jobs.get(&[1; 32]).unwrap();
    assert_eq!((job.quote_verified, job.expected_quote_digest), (true, [77; 32]));
    assert_eq!(
        party.quote_finalize(&request, &circuit, &assemble).unwrap_err(),
        "quote proof was already finalized"
    );
}

#[test]
fn a_document_with_a_fraction_is_digested_as_it_arrived() {
    let mut party = party();
    party.frost_key = None;
    let params = |note: Value| object(vec![("broadcasts", Value::Array(vec![note]))]);
    let decodes = |_: &Vec<u8>| true;
    let by = SecondTools {
        encode: |broadcast: &Broadcast| Ok(broadcast.raw.clone()),
        make: |_: &Vec<u8>, _: &Vec<Broadcast>| Ok((Vec::new(), 0_u8)),
        package: |_: &u8, _: u16| Ok(Vec::new()),
        seal: |_: &DirectedPackage| Ok(Vec::new()),
    };
    let digest = |text: &[u8]| {
        let mut body = b"QOMM:FROST:DKG-BROADCASTS:v1".to_vec();
        body.extend(text);
        <[u8; 32]>::from(<sha2::Sha256 as sha2::Digest>::digest(&body))
    };
    party.dkg_round2 = Some(PendingDkgRound2 {
        secret: vec![1],
        round1_package: vec![2],
        broadcasts_digest: digest(b"[1.5]"),
        encrypted: Vec::new(),
    });
    let print = |text: &'static [u8]| move |_: &Value| text.to_vec();
    assert!(party
        .frost_dkg_round2(&params(Value::Fraction), &decodes, &print(b"[1.5]"), &by, &written)
        .is_ok());
    assert_eq!(
        party
            .frost_dkg_round2(&params(Value::Fraction), &decodes, &print(b"[2.5]"), &by, &written)
            .unwrap_err(),
        "FROST DKG round two was already persisted for another transcript"
    );
}
