//! What a party keeps, tells and computes with.

use curve25519_dalek::Scalar as Element;
use qomm_transport::application_crypto::{SigningKey, VerifyingKey};
use qomm_transport::decimal::{decimal_to_scalar, is_decimal, scalar_to_decimal};
use qomm_transport::digest_map::DigestMap;
use qomm_transport::group::Scalar;
use qomm_transport::json::{check_plain, Value};
use qomm_transport::proof_answers::{
    confirmation_answer, identity_answer, observed_answer, public_package_answer, wire_answer, IdentityKeys,
};
use qomm_transport::proof_config::ProofPartyConfig;
use qomm_transport::proof_dkg::{FrostStage, PendingDkgRound1, PqFacts};
use qomm_transport::proof_peers::OwnKeys;
use qomm_transport::proof_restore::{DurableProofState, RestoreFacts, Seeds};
use qomm_transport::proof_settle::{
    ApplicationControlAuthorization, ApplicationControlVerifier, ApplicationStatementAuthorization,
    ApplicationStatementVerifier, CompletedApplicationProof,
};
use qomm_transport::proof_start::first_state;
use qomm_transport::proof_state::{signing_job, CompletedProof, FrostKey, OpeningShares, ProofParty};
use qomm_transport::resident_config::{
    protected_file, valid_program_name, verify_digest_file, Artifact, DeploymentFacts, FileFacts, ResidentMpcConfig,
};

type Party = ProofParty<u8, u8, u8>;

fn config() -> ProofPartyConfig {
    ProofPartyConfig {
        recipient_opening_keys: Vec::new(),
        node: 1,
        allowed_root: "/root".to_string(),
        state_file: "state".to_string(),
        state_passphrase: b"a long passphrase".to_vec(),
        n_mm: 2,
        n_parties: 3,
        threshold: 1,
        amount_bits: 32,
        price_bits: 32,
        remainder_bits: 32,
        complete_quote_proof: false,
        quote_eligibility_bits: 16,
        quote_span_bits: 16,
        trusted_defmi_receipt_public: Some([3; 32]),
        allow_health_signing: false,
    }
}

fn set(ids: &[u8]) -> DigestMap<()> {
    let mut found = DigestMap::new();
    for id in ids {
        found.insert([*id; 32], ());
    }
    found
}

fn party() -> Party {
    let mut completed_evidence = DigestMap::new();
    completed_evidence.insert(
        [2; 32],
        CompletedProof {
            payment_digest: [4; 64],
            quote_digest: [5; 32],
            winning_policy_digest: Some([6; 32]),
            typed_message_digest: None,
            maker_handle: None,
            taker_handle: None,
            maker_is_payer: Some(true),
            securities_reserve: None,
            cash_reserve: None,
            opening_shares: OpeningShares {
                securities_delivery: Some(vec![1]),
                securities_refund: None,
                cash_delivery: None,
                cash_refund: None,
            },
            application_action_digest: None,
        },
    );
    let mut application_controls = DigestMap::new();
    application_controls.insert([8; 32], [9; 32]);
    let mut frost_authorized = DigestMap::new();
    frost_authorized.insert([14; 32], [15; 32]);
    ProofParty {
        config: config(),
        application_identity: SigningKey { handle: 1, public: VerifyingKey { bytes: [7; 32] } },
        identity_public: [8; 32],
        jobs: DigestMap::new(),
        reserved: set(&[1]),
        completed: set(&[2, 3]),
        completed_evidence,
        application_controls,
        frost_key: None,
        pq_committee: None,
        pq_identity_cache: DigestMap::new(),
        pending_peers: None,
        peers: None,
        dkg_round1: None,
        dkg_round2: None,
        frost_nonces: DigestMap::new(),
        frost_reserved: set(&[12]),
        frost_consumed: set(&[13]),
        frost_authorized,
        publication_consumed: set(&[16]),
        state_generation: 4,
        state_healthy: true,
    }
}

fn seeds() -> Seeds {
    Seeds { identity: vec![1; 32], application: vec![2; 64], exchange: vec![3; 96], pq: vec![4; 32] }
}

fn facts() -> RestoreFacts {
    RestoreFacts {
        round1_secret: true,
        round1_broadcast: true,
        round2_secret: true,
        round2_broadcast: true,
        envelopes: vec![true; 2],
        key_package: true,
        public_package: true,
        peers: Vec::new(),
        keys: OwnKeys { suite: vec![1], exchange_public: Ok(vec![2]), pq_key: vec![3] },
        identity_public: [8; 32],
        application_identity: SigningKey { handle: 1, public: VerifyingKey { bytes: [7; 32] } },
        pq: PqFacts { key: Ok(()), own: true, record: vec![3], committee: Ok(()) },
    }
}

fn kept() -> DurableProofState {
    party().durable_state(5, &seeds(), &vec![3]).unwrap()
}

fn unsigned(_: &Vec<u8>, _: &Vec<u8>, _: &Vec<u8>) -> bool {
    false
}

fn examined(_: &ProofPartyConfig, _: &DurableProofState) -> RestoreFacts {
    facts()
}

fn refused(state: &DurableProofState, facts: &dyn Fn() -> RestoreFacts) -> String {
    let examine = |_: &ProofPartyConfig, _: &DurableProofState| facts();
    Party::restore(config(), state, &examine, &unsigned).map(|_| ()).unwrap_err()
}

#[test]
fn a_party_starts_again_from_what_it_kept() {
    let state = kept();
    assert_eq!(state.version, 6);
    assert_eq!(state.proof_reserved, vec![hex::encode([1_u8; 32])]);
    let (restored, found): (Party, Seeds) = Party::restore(config(), &state, &examined, &unsigned).unwrap();
    assert_eq!(restored.state_generation, 5);
    assert!(restored.state_healthy);
    assert!(restored.reserved.contains(&[1; 32]) && !restored.reserved.contains(&[2; 32]));
    assert!(restored.completed.contains(&[2; 32]) && restored.completed.contains(&[3; 32]));
    assert!(restored.frost_reserved.contains(&[12; 32]) && restored.frost_consumed.contains(&[13; 32]));
    assert_eq!(restored.frost_authorized.get(&[14; 32]), Some(&[15; 32]));
    assert_eq!(restored.application_controls.get(&[8; 32]), Some(&[9; 32]));
    assert!(restored.publication_consumed.contains(&[16; 32]));
    let evidence = restored.completed_evidence.get(&[2; 32]).unwrap();
    assert_eq!((evidence.payment_digest, evidence.quote_digest), ([4; 64], [5; 32]));
    assert_eq!((evidence.winning_policy_digest, evidence.maker_is_payer), (Some([6; 32]), Some(true)));
    assert_eq!(evidence.opening_shares.securities_delivery, Some(vec![1]));
    assert_eq!((found.identity, found.pq), (vec![1; 32], vec![4; 32]));
    assert_eq!((found.application, found.exchange), (vec![2; 64], vec![3; 96]));
}

#[test]
fn a_party_starts_for_the_first_time() {
    let state = first_state(&config(), &seeds(), &vec![3]);
    assert_eq!((state.version, state.generation, state.node), (6, 0, config().node));
    assert_eq!(state.proof_configuration_digest, hex::encode(config().security_digest()));
    assert!(state.proof_reserved.is_empty() && state.frost_consumed.is_empty() && state.frost_key_package.is_none());
    let (fresh, found): (Party, Seeds) = Party::restore(config(), &state, &examined, &unsigned).unwrap();
    assert_eq!(fresh.state_generation, 0);
    assert!(fresh.state_healthy && fresh.frost_key.is_none() && fresh.peers.is_none());
    assert!(!fresh.reserved.contains(&[1; 32]) && !fresh.completed.contains(&[2; 32]));
    assert_eq!((found.identity, found.application), (vec![1; 32], vec![2; 64]));
    let foreign = || {
        let mut found = facts();
        found.pq.key = Err("record is expired".to_string());
        found
    };
    assert_eq!(refused(&state, &foreign), "record is expired");
    let short = Seeds { identity: vec![1; 31], ..seeds() };
    assert_eq!(refused(&first_state(&config(), &short, &vec![3]), &facts), "stored FROST identity is malformed");
}

#[test]
fn a_stored_state_names_what_is_wrong_with_it() {
    let mut state = kept();
    state.threshold = 2;
    assert_eq!(refused(&state, &facts), "proof-party state belongs to another node or security configuration");
    let mut state = kept();
    state.trusted_defmi_receipt_public = Some("zz".to_string());
    assert_eq!(refused(&state, &facts), "stored DeFMI receipt key is malformed");
    let mut state = kept();
    state.proof_completed.push(hex::encode([1_u8; 32]));
    assert_eq!(refused(&state, &facts), "proof-party state contains contradictory lifecycle sets");
    let mut state = kept();
    state.frost_key_package = Some("AAAA".to_string());
    assert_eq!(refused(&state, &facts), "stored FROST state is incomplete");
    let mut state = kept();
    state.application_controls[0].value = hex::encode([0_u8; 32]);
    assert_eq!(refused(&state, &facts), "stored control binding is empty");
    let mut state = kept();
    state.exchange_private = state.pq_private.clone();
    assert_eq!(refused(&state, &facts), "stored hybrid exchange seed must be 96 bytes");
    let found = || {
        let mut found = facts();
        found.pq.own = false;
        found
    };
    assert_eq!(refused(&kept(), &found), "stored PQ identity or committee is inconsistent");
    let mut unfinished = party();
    unfinished.dkg_round1 = Some(PendingDkgRound1 { secret: vec![1], broadcast_package: vec![2] });
    let state = unfinished.durable_state(5, &seeds(), &vec![3]).unwrap();
    assert_eq!(refused(&state, &facts), "stored FROST DKG state has no peer manifest");
}

fn scalar(value: Element) -> Scalar {
    Scalar { bytes: value.to_bytes() }
}

#[test]
fn a_scalar_is_written_and_read_in_decimal() {
    for value in [Element::ZERO, Element::ONE, Element::from(1_234_567_890_u64), -Element::ONE] {
        let text = scalar_to_decimal(&scalar(value));
        assert_eq!(decimal_to_scalar(&text).unwrap().bytes, value.to_bytes());
    }
    assert_eq!(
        scalar_to_decimal(&scalar(-Element::ONE)),
        "7237005577332262213973186563042994240857116359379907606001950938285454250988"
    );
    assert_eq!(decimal_to_scalar("-1").unwrap().bytes, (-Element::ONE).to_bytes());
    assert_eq!(
        decimal_to_scalar("7237005577332262213973186563042994240857116359379907606001950938285454250990")
            .unwrap()
            .bytes,
        Element::ONE.to_bytes()
    );
    for text in ["", "-", "-0", "00", "01", "+1", "1 ", "0x1", &"9".repeat(81)] {
        assert!(!is_decimal(text));
        assert_eq!(decimal_to_scalar(text).unwrap_err(), "field element is not a canonical decimal");
    }
    assert!(is_decimal(&"9".repeat(80)));
}

fn member<'a>(answer: &'a Value, name: &str) -> &'a Value {
    answer.get(name).unwrap()
}

fn said(value: &Value, expected: &str) -> bool {
    matches!(value, Value::Text(text) if text == expected)
}

fn numbered(value: &Value, expected: i128) -> bool {
    matches!(value, Value::Integer(number) if *number == expected)
}

#[test]
fn a_party_tells_of_itself() {
    let party = party();
    let health = party.health_answer();
    assert!(numbered(member(&health, "node"), 1));
    assert!(numbered(member(&health, "reserved_jobs"), 1));
    assert!(numbered(member(&health, "completed_jobs"), 2));
    assert!(numbered(member(&health, "state_generation"), 4));
    assert!(said(member(&health, "security_configuration_digest"), &hex::encode(party.config.security_digest())));
    assert!(matches!(member(&health, "frost_session"), Value::Null));
    assert!(matches!(member(&health, "frost_ready"), Value::Bool(false)));
    assert_eq!(party.frost_status(), FrostStage::Fresh);
    let status = party.status_answer(&Value::Null);
    assert!(numbered(member(&status, "party"), 2));
    assert!(said(member(&status, "stage"), "fresh"));
    assert!(matches!(member(&status, "public_package"), Value::Null));
}

#[test]
fn answers_carry_bytes_as_text() {
    assert!(said(&wire_answer(&b"wire".to_vec()), "d2lyZQ=="));
    assert!(said(member(&public_package_answer(&vec![255, 0]), "public_package"), "/wA="));
    let confirmation = confirmation_answer(3, &[1; 32], &vec![2, 3], &vec![4]);
    assert!(numbered(member(&confirmation, "party"), 3));
    assert!(said(member(&confirmation, "manifest_digest"), &hex::encode([1_u8; 32])));
    assert!(said(member(&confirmation, "confirmation"), "0203"));
    assert!(said(member(&confirmation, "pq_confirmation"), "BA=="));
    let keys = IdentityKeys {
        identity: [1; 32],
        publication: vec![2],
        suite: Value::Text("suite".to_string()),
        exchange: vec![3],
        pq_key: Value::Null,
    };
    let identity = identity_answer(1, &keys, &vec![5], &vec![6]);
    assert!(said(member(&identity, "identity_public"), &hex::encode([1_u8; 32])));
    assert!(said(member(&identity, "exchange_suite"), "suite"));
    assert!(said(member(&identity, "self_signature"), "05"));
    assert!(said(member(&identity, "pq_self_signature"), "Bg=="));
    let observed = observed_answer(true);
    assert!(matches!(member(&observed, "observer_completed"), Value::Bool(true)));
}

const EMPTY_SHA256: &str = "e3b0c44298fc1c149afbf4c8996fb92427ae41e4649b934ca495991b7852b855";

fn file(mode: u32) -> FileFacts {
    FileFacts { metadata: Ok((true, mode)), contents: Ok(Vec::new()) }
}

fn artifact(name: &str) -> Artifact {
    Artifact { name: name.to_string(), sha256: EMPTY_SHA256.to_string() }
}

fn deployment() -> (ResidentMpcConfig, DeploymentFacts) {
    let program_artifacts = vec![
        artifact("Programs/Bytecode/quote-0.bc"),
        artifact("Programs/Schedules/quote.sch"),
        artifact("Programs/Source/quote.mpc"),
    ];
    let mut player_data_artifacts = Vec::new();
    for party in 0..7 {
        player_data_artifacts.push(artifact(&format!("{party:08x}.0")));
    }
    player_data_artifacts.push(artifact("P0.key"));
    for party in 0..7 {
        player_data_artifacts.push(artifact(&format!("P{party}.pem")));
    }
    player_data_artifacts.sort_by(|a, b| a.name.cmp(&b.name));
    let facts = DeploymentFacts {
        timeout_in_range: true,
        engine_policy: Ok(()),
        binary_is_engine: Ok(true),
        library_is_engine: Ok(true),
        host_file: file(0o600),
        party_binary: file(0o700),
        library: file(0o600),
        passphrase_file: Ok((true, 0o600)),
        state_store: Ok((true, 0o600)),
        programs: program_artifacts.iter().map(|_| file(0o600)).collect(),
        players: player_data_artifacts.iter().map(|_| file(0o600)).collect(),
    };
    let config = ResidentMpcConfig {
        version: 1,
        node: 0,
        n_parties: 7,
        threshold: 2,
        n_mm: 4,
        mp_spdz_root: "/engine".to_string(),
        player_data_root: "/players".to_string(),
        run_root: "/run".to_string(),
        program: "quote".to_string(),
        source_sha256: EMPTY_SHA256.to_string(),
        host_file: "/hosts".to_string(),
        host_file_sha256: EMPTY_SHA256.to_string(),
        party_binary: "/engine/party".to_string(),
        party_binary_sha256: EMPTY_SHA256.to_string(),
        library: "/engine/library".to_string(),
        library_sha256: EMPTY_SHA256.to_string(),
        player_data_artifacts,
        program_artifacts,
        state_store: "/state".to_string(),
        passphrase_file: "/passphrase".to_string(),
        prime: "7237005577332262213973186563042994240857116359379907606001950938285454250989".to_string(),
    };
    (config, facts)
}

#[test]
fn a_deployment_runs_only_what_was_approved() {
    let (config, facts) = deployment();
    assert_eq!(config.verify(EMPTY_SHA256, &facts), Ok(()));
    assert_eq!(
        config.verify(&EMPTY_SHA256.replace('e', "f"), &facts).unwrap_err(),
        "resident MPC configuration has an unsupported circuit or quorum"
    );
    let (mut config, facts) = deployment();
    config.threshold = 3;
    assert_eq!(
        config.verify(EMPTY_SHA256, &facts).unwrap_err(),
        "resident MPC configuration has an unsupported circuit or quorum"
    );
    let (mut config, facts) = deployment();
    config.run_root = "run".to_string();
    assert_eq!(config.verify(EMPTY_SHA256, &facts).unwrap_err(), "resident MPC path must be absolute: run");
    let (config, mut facts) = deployment();
    facts.library_is_engine = Ok(false);
    assert_eq!(
        config.verify(EMPTY_SHA256, &facts).unwrap_err(),
        "resident MPC must execute the receipt-bound hybrid engine"
    );
    let (mut config, mut facts) = deployment();
    config.program_artifacts.remove(1);
    facts.programs.remove(1);
    assert_eq!(
        config.verify(EMPTY_SHA256, &facts).unwrap_err(),
        "resident MPC manifest omits source, schedule, or bytecode"
    );
    let (mut config, facts) = deployment();
    config.node = 1;
    assert_eq!(
        config.verify(EMPTY_SHA256, &facts).unwrap_err(),
        "resident MPC TLS manifest must contain only this node's private key"
    );
}

#[test]
fn a_file_of_a_deployment_has_its_digest_and_mode() {
    assert_eq!(verify_digest_file("/hosts", EMPTY_SHA256, false, &file(0o600)), Ok(()));
    assert!(verify_digest_file("/party", EMPTY_SHA256, true, &file(0o600)).is_err());
    let changed = FileFacts { metadata: Ok((true, 0o600)), contents: Ok(vec![1]) };
    assert!(verify_digest_file("/hosts", EMPTY_SHA256, false, &changed).is_err());
    assert_eq!(protected_file("/secret", "secret", &Ok((true, 0o600))), Ok(()));
    assert!(protected_file("/secret", "secret", &Ok((true, 0o640))).is_err());
    assert!(valid_program_name("quote-4") && !valid_program_name("../quote") && !valid_program_name(""));
}

#[test]
fn a_printable_document_is_shallow_and_whole() {
    assert!(check_plain(&Value::Integer(i128::from(u64::MAX)), 1));
    assert!(check_plain(&Value::Integer(i128::from(i64::MIN)), 1));
    assert!(!check_plain(&Value::Integer(i128::from(u64::MAX) + 1), 1));
    assert!(!check_plain(&Value::Integer(i128::from(i64::MIN) - 1), 1));
    assert!(!check_plain(&Value::Null, 0) && !check_plain(&Value::Fraction, 9));
    let nested = || Value::Array(vec![Value::Null, Value::Array(vec![Value::Bool(true)])]);
    assert!(check_plain(&nested(), 3) && !check_plain(&nested(), 2));
    let members = |names: [&str; 2]| {
        Value::Object(vec![
            (names[0].to_string(), Value::Fraction),
            (names[1].to_string(), Value::Text("kept".to_string())),
        ])
    };
    assert!(!check_plain(&members(["a", "b"]), 2));
    assert!(check_plain(&members(["a", "a"]), 2));
}

struct Judge {
    verdict: Result<u8, String>,
}

impl ApplicationStatementVerifier for Judge {
    fn verify(&self, evidence: &CompletedApplicationProof<'_>) -> Result<ApplicationStatementAuthorization, String> {
        assert_eq!((evidence.job_id, evidence.payment_digest, evidence.quote_digest), ([2; 32], [4; 64], [5; 32]));
        assert_eq!((evidence.maker_handle, evidence.taker_handle, evidence.maker_is_payer), ([21; 32], [22; 32], true));
        assert_eq!((evidence.securities_reserve, evidence.cash_reserve), ([23; 32], [24; 32]));
        assert_eq!(evidence.committee_public, &vec![9]);
        let mark = self.verdict.clone()?;
        Ok(ApplicationStatementAuthorization { message: [mark; 32], action_digest: [31; 32] })
    }
}

impl ApplicationControlVerifier for Judge {
    fn verify(&self, committee_public: &Vec<u8>) -> Result<ApplicationControlAuthorization, String> {
        assert_eq!(committee_public, &vec![9]);
        let mark = self.verdict.clone()?;
        Ok(ApplicationControlAuthorization { control_id: [40; 32], message: [mark; 32], action_digest: [41; 32] })
    }
}

fn written(_: &Party, _: u64) -> Result<(), String> {
    Ok(())
}

#[test]
fn an_application_signs_only_what_its_verifier_allows() {
    let mut party = party();
    let refusing = Judge { verdict: Err("order is unknown".to_string()) };
    let allowing = Judge { verdict: Ok(30) };
    assert_eq!(
        party.authorize_application_statement([9; 32], &allowing, &written).unwrap_err(),
        "application signing requires a healthy completed local proof"
    );
    assert_eq!(
        party.authorize_application_statement([2; 32], &allowing, &written).unwrap_err(),
        "application signing requires the node's four encrypted openings and key"
    );
    party.frost_key =
        Some(FrostKey { session: [1; 32], key_package: vec![1], public_package: vec![9], finalize_digest: None });
    let kept = party.completed_evidence.get_mut(&[2; 32]).unwrap();
    kept.opening_shares.securities_refund = Some(vec![2]);
    kept.opening_shares.cash_delivery = Some(vec![3]);
    kept.opening_shares.cash_refund = Some(vec![4]);
    kept.maker_handle = Some([21; 32]);
    kept.taker_handle = Some([22; 32]);
    kept.securities_reserve = Some([23; 32]);
    kept.cash_reserve = Some([24; 32]);
    assert_eq!(
        party.authorize_application_statement([2; 32], &refusing, &written).unwrap_err(),
        "order is unknown"
    );
    assert!(!party.frost_authorized.contains(&signing_job(&[30; 32])));
    assert_eq!(party.authorize_application_statement([2; 32], &allowing, &written).unwrap(), [30; 32]);
    assert!(party.frost_authorized.contains(&signing_job(&[30; 32])));
    assert_eq!(party.authorize_application_control(&refusing, &written).unwrap_err(), "order is unknown");
    let controlling = Judge { verdict: Ok(42) };
    assert_eq!(party.authorize_application_control(&controlling, &written).unwrap(), [42; 32]);
    assert_eq!(party.application_controls.get(&[40; 32]), Some(&[41; 32]));
}
