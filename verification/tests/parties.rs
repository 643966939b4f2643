//! One proof party: its jobs, its signing jobs and its peers.

use ed25519_dalek::Signer;
use qomm_transport::application_crypto::{SigningKey, VerifyingKey};
use qomm_transport::digest_map::DigestMap;
use qomm_transport::group::{Point, Scalar};
use qomm_transport::json::Value;
use qomm_transport::local_files::{check_evidence, check_evidence_path, check_persistence, LocalFile};
use qomm_transport::paths::{one_component, safe_below, safe_relative};
use qomm_transport::proof_authorize::{reserve_payment, ReservePayment};
use qomm_transport::proof_config::{ProofPartyConfig, RecipientOpeningKey};
use qomm_transport::proof_dkg::QuorumPolicy;
use qomm_transport::proof_frost::FrostPackage;
use qomm_transport::proof_keygen::{DirectedPackage, FinalTools, IncomingEnvelope, SecondTools};
use qomm_transport::proof_lifecycle::{JobNodes, PartyNode};
use qomm_transport::proof_mandate::{
    Direction, MakerPolicyMandate, MandateTools, ReserveMandate, TakerExecutionMandate,
};
use qomm_transport::proof_peers::{
    confirmation_body, identity_body, manifest, verify_peer_confirmations, Broadcast, FrostPeerEntry, OwnKeys,
    PeerFacts, PendingPeers, ProposedPeer,
};
use qomm_transport::proof_quote_rounds::{Leg, OpeningClaim};
use qomm_transport::proof_rounds::{DvpCommitments, OpenedWire};
use qomm_transport::proof_service::{accept_response, check_method, CallCounter, Operation, ProofResponse};
use qomm_transport::proof_state::{signing_job, FrostKey, ProofParty};
use qomm_transport::sealed_file::{check_state_path, open_mpc_state, open_proof_state, private_secret, seal_file};

type Party = ProofParty<u8, u8, u8>;

fn config() -> ProofPartyConfig {
    ProofPartyConfig {
        recipient_opening_keys: Vec::new(),
        node: 0,
        allowed_root: "/root".to_string(),
        state_file: "state".to_string(),
        state_passphrase: b"a long passphrase".to_vec(),
        n_mm: 2,
        n_parties: 3,
        threshold: 1,
        amount_bits: 32,
        price_bits: 32,
        remainder_bits: 32,
        complete_quote_proof: false,
        quote_eligibility_bits: 16,
        quote_span_bits: 16,
        trusted_defmi_receipt_public: None,
        allow_health_signing: false,
    }
}

fn party() -> Party {
    ProofParty {
        config: config(),
        application_identity: SigningKey { handle: 1, public: VerifyingKey { bytes: [7; 32] } },
        identity_public: [8; 32],
        jobs: DigestMap::new(),
        reserved: DigestMap::new(),
        completed: DigestMap::new(),
        completed_evidence: DigestMap::new(),
        application_controls: DigestMap::new(),
        frost_key: None,
        pq_committee: None,
        pq_identity_cache: DigestMap::new(),
        pending_peers: None,
        peers: None,
        dkg_round1: None,
        dkg_round2: None,
        frost_nonces: DigestMap::new(),
        frost_reserved: DigestMap::new(),
        frost_consumed: DigestMap::new(),
        frost_authorized: DigestMap::new(),
        publication_consumed: DigestMap::new(),
        state_generation: 1,
        state_healthy: true,
    }
}

fn written(_: &Party, _: u64) -> Result<(), String> {
    Ok(())
}

fn text(value: &str) -> Value {
    Value::Text(value.to_string())
}

fn object(fields: Vec<(&str, Value)>) -> Value {
    Value::Object(fields.into_iter().map(|(name, value)| (name.to_string(), value)).collect())
}

fn job(id: u8) -> Value {
    object(vec![
        ("job_id", text(&hex::encode([id; 32]))),
        ("quote_digest", text(&hex::encode([9; 32]))),
        ("persistence", text("run/Transactions-P0.data")),
    ])
}

fn nodes(party: usize) -> JobNodes<u8> {
    let of = |node: u8| PartyNode { party, node };
    JobNodes {
        zkpi: of(1),
        limit: of(2),
        pool_remainder: of(3),
        dvp: of(4),
        quote: None,
        maker_handle_share: Scalar { bytes: curve25519_dalek::Scalar::from(5_u64).to_bytes() },
    }
}

fn read(path: &str) -> Result<Vec<u8>, String> {
    assert_eq!(path, "run/Transactions-P0.data");
    Ok(b"shares".to_vec())
}

fn take(_: &ProofPartyConfig, path: &str, raw: &Vec<u8>) -> Result<JobNodes<u8>, String> {
    assert_eq!((path, raw.as_slice()), ("run/Transactions-P0.data", b"shares".as_slice()));
    Ok(nodes(1))
}

#[test]
fn a_job_is_loaded_once() {
    let mut party = party();
    party.load(&job(1), read, take, &written).unwrap();
    assert_eq!(party.state_generation, 2);
    assert!(party.reserved.contains(&[1; 32]));
    assert_eq!(
        party.load(&job(1), read, take, &written).unwrap_err(),
        "proof job identifier was already used on this node"
    );
    let elsewhere = |_: &ProofPartyConfig, _: &str, _: &Vec<u8>| Ok(nodes(2));
    let torn = |_: &ProofPartyConfig, _: &str, _: &Vec<u8>| {
        let mut nodes = nodes(1);
        nodes.dvp.party = 2;
        Ok(nodes)
    };
    let quoted = |_: &ProofPartyConfig, _: &str, _: &Vec<u8>| {
        let mut nodes = nodes(1);
        nodes.quote = Some(PartyNode { party: 1, node: 5 });
        Ok(nodes)
    };
    let other = "persistence handoff belongs to another proof party";
    assert_eq!(party.load(&job(2), read, elsewhere, &written).unwrap_err(), other);
    assert_eq!(party.load(&job(2), read, torn, &written).unwrap_err(), other);
    assert_eq!(party.load(&job(2), read, quoted, &written).unwrap_err(), other);
    party.config.complete_quote_proof = true;
    assert_eq!(party.load(&job(2), read, take, &written).unwrap_err(), other);
    party.load(&job(2), read, quoted, &written).unwrap();
    party.config.complete_quote_proof = false;
    let large = |_: &str| Ok(vec![0; 67_108_865]);
    let never = |_: &ProofPartyConfig, _: &str, _: &Vec<u8>| -> Result<JobNodes<u8>, String> {
        panic!("a file above the bound is not taken apart")
    };
    assert_eq!(
        party.load(&job(5), large, never, &written).unwrap_err(),
        "node-local persistence exceeds its proof bound"
    );
    assert_eq!(
        party.complete(&job(1), &written).unwrap_err(),
        "proof job cannot complete before zkPI, DvP, and standing-pool remainder proofs"
    );
    assert_eq!(party.complete(&job(3), &written).unwrap_err(), "proof job is not active");
    let mut climbing = job(4);
    if let Value::Object(fields) = &mut climbing {
        fields[2].1 = text("../Transactions-P0.data");
    }
    assert_eq!(
        party.load(&climbing, read, take, &written).unwrap_err(),
        "persistence path must be a safe relative path"
    );
}

#[test]
fn a_failed_write_closes_the_node() {
    let mut party = party();
    let failing = |_: &Party, _: u64| Err("disk is full".to_string());
    assert_eq!(
        party.load(&job(1), read, take, &failing).unwrap_err(),
        "proof-party durable state failed; node is fail-closed: disk is full"
    );
    assert!(!party.state_healthy);
    assert_eq!(
        party.dispatch("health").unwrap_err(),
        "proof-party durable state is unavailable; node is fail-closed"
    );
}

#[test]
fn a_round_is_made_once() {
    let mut party = party();
    party.load(&job(1), read, take, &written).unwrap();
    let opened = |raw: &Vec<u8>| Ok(OpenedWire { job_id: [1; 32], expected: raw.len() == 3 });
    let other = |_: &Vec<u8>| Ok(OpenedWire { job_id: [2; 32], expected: true });
    let made = |wires: &Vec<Vec<u8>>, threshold: usize| {
        assert_eq!((wires.as_slice(), threshold), ([vec![0; 3]].as_slice(), 1));
        Ok(wires.len())
    };
    let mut params = job(1);
    if let Value::Object(fields) = &mut params {
        fields.push(("evaluations".to_string(), Value::Array(vec![text("AAAA")])));
        fields.push(("challenge".to_string(), text("AAAA")));
    }
    let (_, node) = party.limit_evaluations(&params).unwrap();
    assert_eq!(*node, 2);
    assert_eq!(
        party.limit_bind(&params, &other, &made, |node: u8, _: &usize| Ok((node, ()))).unwrap_err(),
        "hidden-limit bind received another job or message type"
    );
    let torn = |_: &Vec<Vec<u8>>, _: usize| Err::<usize, _>("evaluations are torn".to_string());
    assert_eq!(
        party.limit_bind(&params, &opened, &torn, |node: u8, _: &usize| Ok((node, ()))).unwrap_err(),
        "evaluations are torn"
    );
    let bound = party
        .limit_bind(&params, &opened, &made, |node: u8, statement: &usize| {
            assert_eq!((node, *statement), (2, 1));
            Ok((node + 10, "bound"))
        })
        .unwrap();
    assert_eq!(bound, "bound");
    assert!(party.limit_evaluations(&params).is_err());
    assert_eq!(
        party.limit_bind(&params, &opened, &made, |node: u8, _: &usize| Ok((node, ()))).unwrap_err(),
        "hidden-limit node was already bound"
    );
    assert_eq!(
        party.limit_round2(&params, &opened, |_: &u8, _: u8, _: &Vec<u8>| Ok(())).unwrap_err(),
        "hidden-limit first-round secret is absent or already consumed"
    );
    assert_eq!(
        party.limit_round2(&params, &other, |_: &u8, _: u8, _: &Vec<u8>| Ok(())).unwrap_err(),
        "hidden-limit response received another job or message type"
    );
    if let Value::Object(fields) = &mut params {
        fields.push(("context".to_string(), text(&hex::encode([6; 32]))));
    }
    let seal = party.limit_round1(&params, |bound: &u8, context: &[u8; 32]| Ok((*bound + 1, context[0])));
    assert_eq!(seal.unwrap(), 6);
    let answer = party.limit_round2(&params, &opened, |bound: &u8, secret: u8, challenge: &Vec<u8>| {
        Ok((*bound, secret, challenge.len()))
    });
    assert_eq!(answer.unwrap(), (12, 13, 3));
    assert_eq!(
        party.limit_round2(&params, &opened, |_: &u8, _: u8, _: &Vec<u8>| Ok(())).unwrap_err(),
        "hidden-limit first-round secret is absent or already consumed"
    );
    let base = Point {
        bytes: curve25519_dalek::constants::RISTRETTO_BASEPOINT_COMPRESSED.to_bytes(),
    };
    let handle = party.maker_handle_evaluation(&params, &base).unwrap();
    let expected = curve25519_dalek::RistrettoPoint::mul_base(&curve25519_dalek::Scalar::from(5_u64));
    assert_eq!(handle.bytes, expected.compress().to_bytes());
    assert_eq!(
        party.maker_handle_evaluation(&job(2), &base).unwrap_err(),
        "proof job is not loaded on this node"
    );
}

#[test]
fn a_delivery_is_bound_to_the_statement_about_its_payment() {
    let mut party = party();
    party.load(&job(1), read, take, &written).unwrap();
    let mut params = job(1);
    if let Value::Object(fields) = &mut params {
        fields.push(("evaluations".to_string(), Value::Array(vec![text("AAAA")])));
    }
    let point = |number: u64| Point { bytes: group_point(number) };
    let opened = |_: &Vec<u8>| Ok(OpenedWire { job_id: [1; 32], expected: true });
    let make = |_: &Vec<Vec<u8>>, _: usize| {
        Ok(DvpCommitments { cash: point(6), securities_remainder: point(2), cash_remainder: point(4) })
    };
    let state = |payment: &(Point, Point), made: &DvpCommitments, wires: &Vec<Vec<u8>>, threshold: usize| {
        assert_eq!((payment.0.bytes, payment.1.bytes), (group_point(3), group_point(2)));
        assert_eq!((made.cash.bytes, wires.len(), threshold), (group_point(6), 1, 1));
        Ok("delivery of three at two".to_string())
    };
    let act = |node: u8, statement: &String| {
        assert_eq!(statement, "delivery of three at two");
        Ok((node + 40, "relation"))
    };
    assert_eq!(
        party.dvp_bind(&params, &opened, &make, &state, act).unwrap_err(),
        "zkPI statements are not ready"
    );
    party.jobs.get_mut(&[1; 32]).unwrap().zkpi_statements = Some((point(3), point(2)));
    let refused = |_: &(Point, Point), _: &DvpCommitments, _: &Vec<Vec<u8>>, _: usize| {
        Err::<String, _>("no product".to_string())
    };
    assert_eq!(party.dvp_bind(&params, &opened, &make, &refused, act).unwrap_err(), "no product");
    assert_eq!(party.dvp_bind(&params, &opened, &make, &state, act).unwrap(), "relation");
    let job = party.jobs.get(&[1; 32]).unwrap();
    assert_eq!((job.dvp.bound, job.dvp.node), (Some(44), None));
    assert_eq!(job.securities_reserve.map(|p| p.bytes), Some(group_point(5)));
    assert_eq!(job.cash_reserve.map(|p| p.bytes), Some(group_point(10)));
    let seen = party.dvp_round1(&params, |bound: &u8, quantity: &Option<Point>| {
        Ok((*bound + 1, quantity.map(|p| p.bytes)))
    });
    assert_eq!(seen.unwrap(), Some(group_point(3)));
    assert_eq!(party.jobs.get(&[1; 32]).unwrap().dvp.secret, Some(45));
}

#[test]
fn a_claim_is_answered_with_the_share_of_its_bound_witness_and_once() {
    let mut party = party();
    party.load(&job(1), read, take, &written).unwrap();
    party.config.recipient_opening_keys = vec![RecipientOpeningKey { view: group_point(8), public: vec![3; 4] }];
    let point = |number: u64| Point { bytes: group_point(number) };
    let kept = party.jobs.get_mut(&[1; 32]).unwrap();
    kept.authorized_payment_digest = Some([4; 64]);
    kept.dvp_response_issued = true;
    kept.pool_remainder_response_issued = true;
    kept.selected_maker_handle = Some(point(7));
    kept.authorized_taker_handle = Some(point(8));
    kept.maker_is_payer = Some(true);
    kept.zkpi.bound = Some(60);
    let params = |leg: &str, view: u64| {
        object(vec![
            ("job_id", text(&hex::encode([1; 32]))),
            ("leg", text(leg)),
            ("recipient_view", text(&hex::encode(group_point(view)))),
        ])
    };
    let open = |bound: &u8, leg: Leg| {
        assert!(matches!((bound, leg), (60, Leg::SecuritiesDelivery) | (70, Leg::CashDelivery)));
        Ok(*bound as u32 + 1)
    };
    let seal = |claim: &OpeningClaim<u32>| {
        assert_eq!((claim.id, claim.party, claim.recipient_public.as_slice()), ([1; 32], 1, [3; 4].as_slice()));
        assert_eq!(claim.recipient_view.bytes, group_point(8));
        Ok(vec![claim.share as u8])
    };
    assert_eq!(
        party.claim_opening_share(&params("cash_delivery", 7), &open, &seal).unwrap_err(),
        "proof node refuses to encrypt a claim opening for another recipient"
    );
    assert_eq!(
        party.claim_opening_share(&params("cash_delivery", 8), &open, &seal).unwrap_err(),
        "DvP node is not bound"
    );
    assert_eq!(
        party.claim_opening_share(&params("securities_delivery", 7), &open, &seal).unwrap_err(),
        "claim recipient has no independently enrolled hybrid opening key"
    );
    party.jobs.get_mut(&[1; 32]).unwrap().dvp.bound = Some(70);
    assert_eq!(party.claim_opening_share(&params("cash_delivery", 8), &open, &seal).unwrap(), vec![71]);
    let gone = |_: &OpeningClaim<u32>| Err("sealed twice".to_string());
    assert_eq!(party.claim_opening_share(&params("cash_delivery", 8), &open, &gone).unwrap(), vec![71]);
}

#[test]
fn only_an_authorized_message_is_signed_and_once() {
    let mut party = party();
    let message = b"settle".to_vec();
    let id = signing_job(&message);
    let params = object(vec![("job_id", text(&hex::encode(id))), ("message", text("c2V0dGxl"))]);
    let commit = |key: &FrostKey| (90, key.key_package.clone());
    assert_eq!(
        party.frost_commit(&params, commit, &written).unwrap_err(),
        "FROST node will sign only a locally authorized proof output"
    );
    assert_eq!(
        party.authorize_frost([1; 32], &message, &written).unwrap_err(),
        "FROST authorization names an invalid or used signing job"
    );
    party.authorize_frost(id, &message, &written).unwrap();
    assert_eq!(party.frost_commit(&params, commit, &written).unwrap_err(), "FROST DKG is not complete");
    party.frost_key = Some(FrostKey {
        session: [1; 32],
        key_package: vec![1],
        public_package: vec![2],
        finalize_digest: None,
    });
    assert_eq!(party.frost_commit(&params, commit, &written).unwrap(), vec![1]);
    assert_eq!(party.frost_nonces.get(&id).map(|kept| kept.nonces), Some(90));
    assert_eq!(
        party.frost_commit(&params, commit, &written).unwrap_err(),
        "FROST signing job identifier was already used"
    );
    let mut signing = params;
    if let Value::Object(fields) = &mut signing {
        fields.push((
            "commitments".to_string(),
            Value::Array(vec![
                object(vec![("party", Value::Integer(1)), ("commitments", text("AQ=="))]),
                object(vec![("party", Value::Integer(2)), ("commitments", text("Ag=="))]),
            ]),
        ));
    }
    party.pq_committee = Some(QuorumPolicy {
        epoch: 1,
        context: Vec::new(),
        classical_binding: [0; 32],
        threshold: 2,
        members: Vec::new(),
    });
    let share = |nonces: u8, package: &FrostPackage, key: &FrostKey| {
        let named = package.commitments.iter().map(|c| (c.party, c.raw.clone())).collect::<Vec<_>>();
        assert_eq!(named, vec![(1, vec![1]), (2, vec![2])]);
        assert_eq!((package.message.as_slice(), key.public_package.as_slice()), (b"settle".as_slice(), [2].as_slice()));
        Ok(nonces + 1)
    };
    let approve = |committee: &QuorumPolicy, message: &Vec<u8>| Ok((committee.threshold, message.len()));
    let decodes = |_: &Vec<u8>| true;
    assert_eq!(party.frost_sign(&signing, &decodes, share, approve, &written).unwrap(), (91, (2, 6)));
    assert_eq!(
        party.frost_sign(&signing, &decodes, share, approve, &written).unwrap_err(),
        "FROST nonce is absent or already consumed"
    );
    assert!(party.frost_consumed.contains(&id));
}

#[test]
fn every_operation_has_a_name() {
    let party = party();
    assert_eq!(party.dispatch("load").unwrap(), Operation::Load);
    assert_eq!(party.dispatch("complete_observer").unwrap(), Operation::CompleteObserver);
    assert_eq!(party.dispatch("reboot").unwrap_err(), "unknown proof-party operation");
    let health = party.health();
    assert_eq!((health.active_jobs, health.state_generation, health.frost_ready), (0, 1, false));
}

#[test]
fn a_response_answers_its_request() {
    assert!(check_method("load").is_ok());
    assert_eq!(check_method("").unwrap_err(), "proof-party method is outside its fixed bound");
    let mut counter = CallCounter::new();
    let first = counter.take().unwrap();
    assert!(counter.take().unwrap() > first);
    let answer = |id: u64, ok: bool, result: Option<Value>, error: Option<&str>| ProofResponse {
        id,
        ok,
        result,
        error: error.map(str::to_string),
    };
    assert!(accept_response(1, answer(1, true, Some(Value::Null), None)).is_ok());
    assert_eq!(
        accept_response(1, answer(2, true, Some(Value::Null), None)).unwrap_err(),
        "proof-party response identifier does not match"
    );
    assert_eq!(accept_response(1, answer(1, false, None, Some("no"))).unwrap_err(), "no");
    assert_eq!(accept_response(1, answer(1, false, None, None)).unwrap_err(), "proof-party rejected the request");
    assert_eq!(
        accept_response(1, answer(1, true, None, None)).unwrap_err(),
        "proof-party success response has no result"
    );
}

#[test]
fn a_configuration_is_within_its_bounds() {
    assert!(config().validate(32).is_ok());
    let mut wide = config();
    wide.threshold = 9;
    assert_eq!(wide.validate(32).unwrap_err(), "proof-party configuration is outside its fixed bounds");
    let mut receipt = config();
    let mut off_curve = [0; 32];
    while ed25519_dalek::VerifyingKey::from_bytes(&off_curve).is_ok() {
        off_curve[0] += 1;
    }
    receipt.trusted_defmi_receipt_public = Some(off_curve);
    assert_eq!(receipt.validate(32).unwrap_err(), "proof-party DeFMI receipt key is malformed");
    let key = ed25519_dalek::SigningKey::from_bytes(&[3; 32]);
    receipt.trusted_defmi_receipt_public = Some(key.verifying_key().to_bytes());
    assert!(receipt.validate(32).is_ok());
    assert_ne!(config().security_digest(), receipt.security_digest());
}

fn peer(number: u16, session: &[u8; 32]) -> (ed25519_dalek::SigningKey, FrostPeerEntry) {
    let key = ed25519_dalek::SigningKey::from_bytes(&[number as u8; 32]);
    let identity = key.verifying_key().to_bytes();
    let exchange = vec![number as u8; 4];
    let body = identity_body(session, number, &identity, b"suite", &exchange, b"pq");
    let entry = FrostPeerEntry {
        party: number,
        identity_public: hex::encode(identity),
        exchange_suite: b"suite".to_vec(),
        exchange_public: hex::encode(&exchange),
        self_signature: hex::encode(key.sign(&body).to_bytes()),
        pq_key: b"pq".to_vec(),
        pq_self_signature: "AAAA".to_string(),
    };
    (key, entry)
}

fn proposed(session: &[u8; 32]) -> Vec<ProposedPeer> {
    (1..=3)
        .map(|number| ProposedPeer {
            entry: peer(number, session).1,
            facts: PeerFacts { exchange: Ok(()), pq_valid: Ok(()), pq_settlement: true },
        })
        .collect()
}

fn pq_signed(key: &Vec<u8>, _: &Vec<u8>, signature: &Vec<u8>) -> bool {
    *key == b"pq".to_vec() && *signature == vec![0; 3]
}

fn identity_of(number: u8) -> [u8; 32] {
    ed25519_dalek::SigningKey::from_bytes(&[number; 32]).verifying_key().to_bytes()
}

fn own() -> (OwnKeys, [u8; 32]) {
    let keys = OwnKeys { suite: b"suite".to_vec(), exchange_public: Ok(vec![1; 4]), pq_key: b"pq".to_vec() };
    (keys, ed25519_dalek::SigningKey::from_bytes(&[1; 32]).verifying_key().to_bytes())
}

#[test]
fn peers_sign_their_own_entries() {
    let session = [4; 32];
    let (keys, identity) = own();
    let peers = manifest(&config(), &identity, &keys, session, &proposed(&session), &pq_signed).unwrap();
    assert_eq!(peers.entries.len(), 3);
    let second = peer(2, &session).1;
    let body = identity_body(&session, 2, &identity_of(2), b"suite", &[2; 4], b"pq");
    let disowned = |key: &Vec<u8>, text: &Vec<u8>, signature: &Vec<u8>| {
        pq_signed(key, text, signature) && *text != body
    };
    assert_eq!(second.party, 2);
    assert_eq!(
        manifest(&config(), &identity, &keys, session, &proposed(&session), &disowned).unwrap_err(),
        "PQ peer self-signature is invalid"
    );
    let mut changed = proposed(&session);
    changed[1].entry.exchange_public = hex::encode([9; 4]);
    assert!(manifest(&config(), &identity, &keys, session, &changed, &pq_signed)
        .unwrap_err()
        .starts_with("FROST exchange key lacks its node identity sig"));
    let mut short = proposed(&session);
    short.pop();
    assert!(manifest(&config(), &identity, &keys, session, &short, &pq_signed)
        .unwrap_err()
        .starts_with("FROST peer manifest is outside its participant boun"));
    assert_eq!(
        manifest(&config(), &[5; 32], &keys, session, &proposed(&session), &pq_signed).unwrap_err(),
        "FROST manifest substituted this node's identity or exchange key"
    );
}

fn confirmations(peers: &PendingPeers) -> Vec<Value> {
    (1..=3)
        .map(|number| {
            let signature = peer(number, &peers.session).0.sign(&confirmation_body(peers));
            object(vec![
                ("party", Value::Integer(number as i128)),
                ("confirmation", text(&hex::encode(signature.to_bytes()))),
                ("pq_confirmation", text("AAAA")),
            ])
        })
        .collect()
}

#[test]
fn every_peer_confirms_the_same_manifest() {
    let session = [4; 32];
    let (keys, identity) = own();
    let peers = manifest(&config(), &identity, &keys, session, &proposed(&session), &pq_signed).unwrap();
    let given = |values: Vec<Value>| object(vec![("confirmations", Value::Array(values))]);
    let body = confirmation_body(&peers);
    let confirmed = |key: &Vec<u8>, text: &Vec<u8>, signature: &Vec<u8>| {
        pq_signed(key, text, signature) && *text == body
    };
    assert!(verify_peer_confirmations(&peers, &given(confirmations(&peers)), &confirmed).is_ok());
    assert_eq!(
        verify_peer_confirmations(&peers, &given(confirmations(&peers)), &|_: &Vec<u8>, _: &Vec<u8>, _: &Vec<u8>| false)
            .unwrap_err(),
        "PQ peer confirmation is invalid"
    );
    let mut twice = confirmations(&peers);
    twice[2] = object(vec![("party", Value::Integer(1)), ("confirmation", text("00"))]);
    assert_eq!(
        verify_peer_confirmations(&peers, &given(twice), &confirmed).unwrap_err(),
        "FROST confirmation party is duplicated"
    );
    assert_eq!(
        verify_peer_confirmations(&peers, &given(Vec::new()), &confirmed).unwrap_err(),
        "FROST peer confirmation set is incomplete"
    );
    let mut node = party();
    node.identity_public = identity;
    let told = |pending: &PendingPeers| Ok(pending.entries.len());
    assert_eq!(
        node.confirm_peers(&given(confirmations(&peers)), &confirmed, &written).unwrap_err(),
        "FROST peer manifest is not pending"
    );
    assert_eq!(node.configure_peers(session, &proposed(&session), &keys, &pq_signed, &told).unwrap(), 3);
    assert!(node.pending_peers.is_some() && node.peers.is_none());
    node.confirm_peers(&given(confirmations(&peers)), &confirmed, &written).unwrap();
    assert!(node.pending_peers.is_none() && node.peers.is_some());
    assert_eq!(
        node.configure_peers([5; 32], &proposed(&[5; 32]), &keys, &pq_signed, &told).unwrap_err(),
        "FROST peer manifest was already configured differently"
    );
}

#[test]
fn a_key_is_generated_once_for_one_transcript() {
    let session = [4; 32];
    let (keys, identity) = own();
    let mut node = party();
    node.identity_public = identity;
    let peers = manifest(&config(), &identity, &keys, session, &proposed(&session), &pq_signed).unwrap();
    node.peers = Some(peers);
    let package = |own: u16, participants: u16, signers: u16| {
        assert_eq!((own, participants, signers), (1, 3, 2));
        Ok((vec![70], vec![1, 1]))
    };
    assert_eq!(node.frost_dkg_round1(package, &written).unwrap(), vec![1, 1]);
    let broadcasts = (1..=3)
        .map(|number| object(vec![("party", Value::Integer(number)), ("package", encoded(&[number as u8, 1]))]))
        .collect();
    let incoming = (2..=3)
        .map(|number| {
            object(vec![
                ("sender", Value::Integer(number)),
                ("recipient", Value::Integer(1)),
                ("envelope", encoded(&[number as u8])),
            ])
        })
        .collect();
    let params = object(vec![("broadcasts", Value::Array(broadcasts)), ("incoming", Value::Array(incoming))]);
    let decodes = |raw: &Vec<u8>| raw.len() == 2;
    let print = |_: &Value| -> Vec<u8> { panic!("a document without fractions has its own text") };
    let second = |own: &[u8], sealed: bool| {
        let own = own.to_vec();
        SecondTools {
            encode: move |broadcast: &Broadcast| {
                assert_eq!(broadcast.party, 1);
                Ok(own.clone())
            },
            make: |secret: &Vec<u8>, others: &Vec<Broadcast>| {
                assert_eq!((secret.as_slice(), others.len()), ([70].as_slice(), 2));
                assert_eq!(others.iter().map(|one| one.raw[0]).collect::<Vec<_>>(), vec![2, 3]);
                Ok((vec![71], 100_u8))
            },
            package: |packages: &u8, party: u16| Ok(vec![*packages, party as u8]),
            seal: move |package: &DirectedPackage| {
                assert_eq!((package.sender, package.peer.party), (1, package.recipient));
                assert_eq!(package.package, vec![100, package.recipient as u8]);
                if sealed || package.recipient == 2 {
                    Ok(package.aad.clone())
                } else {
                    Err("peer key is torn".to_string())
                }
            },
        }
    };
    assert_eq!(
        node.frost_dkg_round2(&params, &decodes, &print, &second(&[2, 2], true), &written).unwrap_err(),
        "FROST DKG broadcasts substituted this node's round one"
    );
    assert_eq!(
        node.frost_dkg_round2(&params, &decodes, &print, &second(&[1, 1], false), &written).unwrap_err(),
        "peer key is torn"
    );
    assert!(node.dkg_round2.is_none());
    node.frost_dkg_round2(&params, &decodes, &print, &second(&[1, 1], true), &written).unwrap();
    assert!(node.dkg_round1.is_none());
    let kept = node.dkg_round2.as_ref().unwrap();
    assert_eq!(kept.encrypted.iter().map(|one| (one.sender, one.recipient)).collect::<Vec<_>>(), vec![(1, 2), (1, 3)]);
    assert_ne!(kept.encrypted[0].envelope, kept.encrypted[1].envelope);
    node.frost_dkg_round2(&params, &decodes, &print, &second(&[2, 2], true), &written).unwrap();
    let by = |opened: bool, public: u8| FinalTools {
        decode: |raw: &Vec<u8>| Ok(raw[0]),
        open: move |incoming: &IncomingEnvelope<u8>| {
            assert_eq!((incoming.sender, incoming.recipient), (incoming.envelope as u16, 1));
            assert_eq!(incoming.peer.party, incoming.sender);
            Ok(if opened { Some(vec![incoming.envelope, 8]) } else { None })
        },
        holds: |clear: &Vec<u8>| clear.len() == 2,
        make: move |secret: &Vec<u8>, others: &Vec<Broadcast>, packages: &Vec<Broadcast>| {
            assert_eq!((secret.as_slice(), others.len()), ([71].as_slice(), 2));
            let received = packages.iter().map(|one| (one.party, one.raw.clone())).collect::<Vec<_>>();
            assert_eq!(received, vec![(2, vec![2, 8]), (3, vec![3, 8])]);
            Ok((vec![72], vec![public]))
        },
        valid: |committee: &QuorumPolicy| {
            assert_eq!(committee.members.len(), 3);
            if committee.classical_binding == <[u8; 32]>::from(<sha2::Sha256 as sha2::Digest>::digest([73])) {
                Ok(())
            } else {
                Err("committee is torn".to_string())
            }
        },
    };
    assert!(node.frost_dkg_finalize(&params, &decodes, &print, &by(false, 73), &written).is_err());
    assert!(node.frost_key.is_none());
    assert_eq!(
        node.frost_dkg_finalize(&params, &decodes, &print, &by(true, 74), &written).unwrap_err(),
        "committee is torn"
    );
    assert_eq!(node.frost_dkg_finalize(&params, &decodes, &print, &by(true, 73), &written).unwrap(), vec![73]);
    let key = node.frost_key.as_ref().unwrap();
    assert_eq!((key.key_package.clone(), key.public_package.clone(), key.session), (vec![72], vec![73], session));
    assert!(node.peers.is_none() && node.dkg_round2.is_none());
    assert_eq!(node.pq_committee.as_ref().map(|policy| (policy.threshold, policy.members.len())), Some((2, 3)));
    assert_eq!(node.frost_dkg_finalize(&params, &decodes, &print, &by(true, 74), &written).unwrap(), vec![73]);
}

#[test]
fn an_identity_attestation_is_made_once() {
    let mut node = party();
    let body = b"identity".to_vec();
    let failing = |_: &Vec<u8>| Err("signer is gone".to_string());
    assert_eq!(node.pq_identity_signature(&body, &failing, &written).unwrap_err(), "signer is gone");
    let sign = |body: &Vec<u8>| Ok(vec![body[0], 1]);
    assert_eq!(node.pq_identity_signature(&body, &sign, &written).unwrap(), vec![b'i', 1]);
    assert_eq!(node.pq_identity_signature(&body, &failing, &written).unwrap(), vec![b'i', 1]);
}

#[test]
fn a_sealed_file_is_taken_apart_as_it_was_made() {
    let raw = seal_file("QOMMMPC1", &[1; 16], &[2; 12], &[3; 40]);
    let sealed = open_mpc_state(&raw).unwrap();
    assert_eq!((sealed.salt, sealed.nonce, sealed.ciphertext), (vec![1; 16], vec![2; 12], vec![3; 40]));
    assert_eq!(open_mpc_state(&raw[1..]).unwrap_err(), "not a QOMM encrypted MPC state");
    assert!(open_proof_state(&raw).is_err());
    assert_eq!(private_secret(b"a passphrase\r\n".to_vec()).unwrap(), b"a passphrase");
    assert_eq!(
        private_secret(b"short\n".to_vec()).unwrap_err(),
        "MPC-state passphrase file is empty or too short"
    );
}

#[test]
fn a_node_opens_only_its_own_private_files() {
    let file = |name: &str, mode: u32, length: u64| LocalFile {
        below_root: true,
        name: Some(name.to_string()),
        is_file: true,
        length,
        mode,
    };
    assert!(check_persistence(2, &file("Transactions-P2.data", 0o100600, 5)).is_ok());
    assert_eq!(
        check_persistence(2, &file("Transactions-P3.data", 0o100600, 5)).unwrap_err(),
        "proof party may open only its own MP-SPDZ persistence file"
    );
    assert_eq!(
        check_persistence(2, &file("Transactions-P2.data", 0o100640, 5)).unwrap_err(),
        "node-local persistence must be a non-empty private file"
    );
    assert!(check_evidence(2, &file("dp-publication-P2.json", 0o100600, 65_536)).is_ok());
    assert_eq!(
        check_evidence(2, &file("dp-publication-P2.json", 0o100600, 65_537)).unwrap_err(),
        "node-local publication evidence must be a bounded private file"
    );
    assert!(check_evidence_path("a/b.json").is_ok());
    assert!(check_evidence_path("/a/b.json").is_err());
    assert!(safe_relative("a/./b") && !safe_relative("./a") && !safe_relative("a/../b"));
    assert!(safe_below("./a") && !safe_below("") && !safe_below(".."));
    assert!(one_component("a") && !one_component("a/b"));
    assert!(check_state_path("state/proof.bin").is_ok());
    assert_eq!(
        check_state_path("../proof.bin").unwrap_err(),
        "proof-party state path must be a normalized file below its root"
    );
}

fn encoded(bytes: &[u8]) -> Value {
    Value::Text(base64::Engine::encode(&base64::engine::general_purpose::STANDARD, bytes))
}

fn group_point(number: u64) -> [u8; 32] {
    curve25519_dalek::RistrettoPoint::mul_base(&curve25519_dalek::Scalar::from(number)).compress().to_bytes()
}

fn taker_mandate(authentic: Result<(), String>) -> Result<ReserveMandate, String> {
    Ok(ReserveMandate::Taker(TakerExecutionMandate {
        venue_id: [1; 32],
        defmi_id: [2; 32],
        direction: Direction::TakerBuys,
        taker_handle: group_point(4),
        reserve_id: [3; 32],
        rfq_nullifier: [4; 32],
        maximum_amount_commitment: group_point(1),
        deadline: 5_000,
        digest: Ok([5; 32]),
        authentic,
    }))
}

fn reserve(deadline: i128, payer: u64) -> Value {
    let message = [7; 64];
    object(vec![
        ("signing_job_id", text(&hex::encode(signing_job(&message)))),
        ("message", encoded(&message)),
        ("amount_commitment", text(&hex::encode(group_point(1)))),
        ("price_commitment", text(&hex::encode(group_point(2)))),
        ("asset_commitment", text(&hex::encode(group_point(3)))),
        ("payer_handle", text(&hex::encode(group_point(payer)))),
        ("payee_handle", text(&hex::encode(group_point(5)))),
        ("deadline", Value::Integer(deadline)),
        ("nonce", text(&hex::encode([6; 32]))),
        ("quote_kind", text("legacy")),
        ("quote_key", Value::Integer(9)),
        ("role", text("taker")),
        ("mandate_unsigned", encoded(b"mandate")),
        ("mandate_signature", text("0a0b")),
    ])
}

fn read_taker(unsigned: &Vec<u8>, signature: &Vec<u8>, now: Option<u64>) -> Result<TakerExecutionMandate, String> {
    assert_eq!((unsigned.as_slice(), signature.as_slice()), (b"mandate".as_slice(), [10, 11].as_slice()));
    let authentic = if now == Some(1_000) { Ok(()) } else { Err("signature is torn".to_string()) };
    match taker_mandate(authentic) {
        Ok(ReserveMandate::Taker(mandate)) => Ok(mandate),
        _ => Err("no mandate".to_string()),
    }
}

fn read_maker(_: &Vec<u8>, _: &Vec<u8>, _: Option<u64>) -> Result<MakerPolicyMandate, String> {
    Err("Maker mandate is torn".to_string())
}

fn envelope(raw: &Vec<u8>) -> Result<(), String> {
    if raw.len() == 2 {
        Ok(())
    } else {
        Err("signature envelope is torn".to_string())
    }
}

#[test]
fn a_mandate_is_read_in_the_role_that_the_request_names() {
    let by = MandateTools { envelope, maker: read_maker, taker: read_taker };
    let changed = |name: &str, value: Option<Value>| {
        let mut params = reserve(2_000, 4);
        if let Value::Object(fields) = &mut params {
            fields.retain(|(key, _)| key != name);
            if let Some(value) = value {
                fields.push((name.to_string(), value));
            }
        }
        by.read(&params, Some(1_000))
    };
    assert!(matches!(changed("absent", None), Ok(ReserveMandate::Taker(mandate)) if mandate.deadline == 5_000));
    assert_eq!(changed("role", Some(text("maker"))).unwrap_err(), "Maker mandate is torn");
    assert_eq!(
        changed("role", Some(text("venue"))).unwrap_err(),
        "reserve signing role must be maker or taker"
    );
    assert_eq!(
        changed("mandate_signature", None).unwrap_err(),
        "mandate_signature must be a hybrid envelope"
    );
    assert_eq!(
        changed("mandate_signature", Some(text("xy"))).unwrap_err(),
        "mandate_signature is not hexadecimal"
    );
    assert_eq!(
        changed("mandate_signature", Some(text("0a"))).unwrap_err(),
        "signature envelope is torn"
    );
}

#[test]
fn a_reserve_is_paid_only_as_its_mandate_says() {
    let refused = |params: &Value, now: Option<u64>| reserve_payment(params, &taker_mandate(Ok(())), now).unwrap_err();
    let payment = reserve_payment(&reserve(2_000, 4), &taker_mandate(Ok(())), Some(1_000)).unwrap();
    assert_eq!((payment.deadline, payment.payer_handle.bytes), (2_000, group_point(4)));
    let mut party = party();
    let mandates = MandateTools { envelope, maker: read_maker, taker: read_taker };
    let digest = |byte: u8| {
        move |payment: &ReservePayment| {
            assert_eq!(payment.nonce, [6; 32]);
            vec![byte; 64]
        }
    };
    assert_eq!(
        party
            .authorize_reserve_payment(&reserve(2_000, 4), Some(1_000), &mandates, &digest(8), &written)
            .unwrap_err(),
        "reserve payment signing request changed a signed field"
    );
    assert_eq!(
        party
            .authorize_reserve_payment(&reserve(2_000, 4), Some(1_000), &mandates, &digest(7), &written)
            .unwrap(),
        "pretrade-reserve-payment"
    );
    assert!(party.frost_authorized.contains(&signing_job(&[7; 64])));
    assert_eq!(refused(&reserve(2_000, 5), Some(1_000)), "reserve payment cannot pay its owner handle");
    assert_eq!(refused(&reserve(2_000, 4), Some(2_001)), "reserve deadline is outside the signer horizon");
    assert_eq!(refused(&reserve(90_000, 4), Some(1_000)), "reserve deadline is outside the signer horizon");
    assert_eq!(refused(&reserve(2_000, 4), None), "system clock is before the Unix epoch");
    assert_eq!(refused(&reserve(6_000, 4), Some(1_000)), "reserve payment differs from the signed Taker mandate");
    assert_eq!(refused(&reserve(2_000, 6), Some(1_000)), "reserve payment differs from the signed Taker mandate");
    assert_eq!(
        reserve_payment(&reserve(2_000, 4), &taker_mandate(Err("signature is torn".to_string())), Some(1_000))
            .unwrap_err(),
        "signature is torn"
    );
}

#[test]
fn a_health_check_is_signed_only_in_its_domain() {
    let mut party = party();
    let mut body = b"QOMM:FROST:HEALTH:v1".to_vec();
    body.extend([1; 32]);
    body.push(1);
    body.extend([2; 32]);
    let message = <sha2::Sha256 as sha2::Digest>::digest(&body).to_vec();
    let params = |stage: &str| {
        object(vec![
            ("signing_job_id", text(&hex::encode(signing_job(&message)))),
            ("message", encoded(&message)),
            ("cluster_digest", text(&hex::encode([2; 32]))),
            ("stage", text(stage)),
        ])
    };
    assert_eq!(
        party.authorize_health(&params("pre-restart"), &written).unwrap_err(),
        "health signing is disabled on this proof node"
    );
    party.config.allow_health_signing = true;
    assert_eq!(party.authorize_health(&params("pre-restart"), &written).unwrap_err(), "FROST DKG is not complete");
    party.frost_key =
        Some(FrostKey { session: [1; 32], key_package: vec![1], public_package: vec![2], finalize_digest: None });
    assert_eq!(party.authorize_health(&params("later"), &written).unwrap_err(), "health signing stage is invalid");
    assert_eq!(
        party.authorize_health(&params("post-restart"), &written).unwrap_err(),
        "health signing message is not domain-separated"
    );
    assert_eq!(party.authorize_health(&params("pre-restart"), &written).unwrap(), "health");
}
