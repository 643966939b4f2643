//! The resident state of a node and its circuit inputs.

use curve25519_dalek::ristretto::RistrettoPoint;
use curve25519_dalek::Scalar as Curve;
use qomm_transport::decimal::{decimal_to_scalar, is_decimal, scalar_to_decimal};
use qomm_transport::group::{Point, Scalar};
use qomm_transport::resident_mpc::{assemble_party_input, ResidentExecutionReceipt, REQUEST_VALUES};
use qomm_transport::resident_state::{MpcSecretState, StandingPoolBinding};
use qomm_transport::resident_store::{
    rebind_standing_pool, splice_standing_maker_shares, EncryptedMpcStateStore, STANDING_SHARES_OFFSET,
};
use qomm_transport::sharing::{
    combine_partial_commitments, commit, node_lagrange_coefficient, resident_share_from_evaluation, InputSharing,
};
use qomm_transport::wire::FieldElement;

fn texts(values: std::ops::Range<u64>) -> Vec<String> {
    values.map(|value| value.to_string()).collect()
}

fn same(a: &MpcSecretState, b: &MpcSecretState) -> bool {
    a.version == b.version
        && a.node == b.node
        && a.generation == b.generation
        && a.source_sha256 == b.source_sha256
        && a.dvp_input_shares == b.dvp_input_shares
        && a.policy_input_shares == b.policy_input_shares
        && a.quote_policy_blinding_input_shares == b.quote_policy_blinding_input_shares
        && a.standing_pool_bindings == b.standing_pool_bindings
}

#[test]
fn per_rfq_taker_reserves_precede_standing_maker_reserves() {
    let request = (0_u64..REQUEST_VALUES as u64).map(FieldElement::from_u64).collect::<Vec<_>>();
    let state = MpcSecretState {
        version: 1,
        node: 0,
        generation: 1,
        source_sha256: "00".repeat(32),
        dvp_input_shares: texts(100..105),
        policy_input_shares: texts(200..210),
        quote_policy_blinding_input_shares: Vec::new(),
        standing_pool_bindings: Vec::new(),
    };
    let assembled = assemble_party_input(&request, &state, 1).unwrap();
    let expected = [
        0, 1, 2, 3, 4, 5, // request prefix
        10, 11, 12, 13, // reserve rails of the taker, for this request
        100, 101, 102, 103, 104, // standing reserve rails and handle of the maker
        6, 7, 8, 9, // limit and commitment fields of the taker
        200, 201, 202, 203, 204, 205, 206, 207, 208, 209, // policy of the maker
    ]
    .map(|value: u64| value.to_string())
    .to_vec();
    assert_eq!(assembled, expected);
    assert!(assemble_party_input(&request[1..], &state, 1).is_err());
    assert!(assemble_party_input(&request, &state, 2).is_err());
}

#[test]
fn secret_state_compare_and_swap_rejects_a_second_same_generation_rfq() {
    let mut store = EncryptedMpcStateStore::new("state.qms", b"test-passphrase").unwrap();
    let initial = MpcSecretState {
        version: 1,
        node: 0,
        generation: 7,
        source_sha256: "11".repeat(32),
        dvp_input_shares: texts(100..105),
        policy_input_shares: texts(200..210),
        quote_policy_blinding_input_shares: texts(300..309),
        standing_pool_bindings: Vec::new(),
    };
    store.initialize(&initial).unwrap();
    let mut winner = initial.copy();
    winner.generation = 8;
    winner.dvp_input_shares[0] = "91".into();
    winner.dvp_input_shares[1] = "92".into();
    store.compare_and_swap(7, &winner).unwrap();
    assert!(same(&store.load().unwrap(), &winner));

    let mut stale = initial.copy();
    stale.generation = 8;
    stale.dvp_input_shares[0] = "81".into();
    assert_eq!(
        store.compare_and_swap(7, &stale),
        Err("MPC secret-state generation changed before commit".into())
    );
    assert!(same(&store.load().unwrap(), &winner));
}

fn of(scalar: &Curve) -> Scalar {
    Scalar { bytes: scalar.to_bytes() }
}

fn curve(scalar: &Scalar) -> Curve {
    Curve::from_canonical_bytes(scalar.bytes).unwrap()
}

#[test]
fn additive_resident_shares_reconstruct_a_shamir_dealt_secret() {
    let secret = Curve::from(4_900_u64);
    let (a1, a2) = (Curve::from(31_u64), Curve::from(77_u64));
    let evaluations = (1..=7_u64)
        .map(|x| {
            let x = Curve::from(x);
            secret + a1 * x + a2 * x * x
        })
        .collect::<Vec<_>>();
    let mut additive_sum = Curve::ZERO;
    let mut shamir_sum = Curve::ZERO;
    for (node, evaluation) in evaluations.iter().enumerate() {
        let element = scalar_to_decimal(&of(evaluation));
        let additive =
            resident_share_from_evaluation(node as u16, 7, InputSharing::Additive, &element).unwrap();
        let shamir = resident_share_from_evaluation(node as u16, 7, InputSharing::Shamir, &element).unwrap();
        assert!(is_decimal(&additive) && is_decimal(&shamir));
        additive_sum += curve(&decimal_to_scalar(&additive).unwrap());
        shamir_sum += curve(&node_lagrange_coefficient(node as u16, 7).unwrap())
            * curve(&decimal_to_scalar(&shamir).unwrap());
    }
    assert_eq!(additive_sum, secret);
    assert_eq!(shamir_sum, secret);
    assert_eq!(curve(&decimal_to_scalar("-1").unwrap()), -Curve::ONE);
    assert_eq!(scalar_to_decimal(&of(&Curve::from(10_u64))), "10");
}

#[test]
fn partial_commitments_combine_to_the_reconstructed_opening() {
    let second = Curve::from(1_000_003_u64);
    let g = Point { bytes: RistrettoPoint::mul_base(&Curve::ONE).compress().to_bytes() };
    let h = Point { bytes: RistrettoPoint::mul_base(&second).compress().to_bytes() };
    let value = Curve::from(4_900_u64);
    let blinding = Curve::from(123_456_789_u64);
    let mut value_shares = (0..6).map(|i| Curve::from(1_000 + i as u64)).collect::<Vec<_>>();
    let mut blinding_shares = (0..6).map(|i| Curve::from(2_000 + i as u64)).collect::<Vec<_>>();
    value_shares.push(value - value_shares.iter().sum::<Curve>());
    blinding_shares.push(blinding - blinding_shares.iter().sum::<Curve>());
    let partials = value_shares
        .iter()
        .zip(&blinding_shares)
        .enumerate()
        .map(|(node, (v, r))| {
            let mut shares = vec!["0".to_string(); 10];
            shares[5] = scalar_to_decimal(&of(v));
            shares[6] = scalar_to_decimal(&of(r));
            let state = MpcSecretState {
                version: 1,
                node: node as u16,
                generation: 1,
                source_sha256: "22".repeat(32),
                dvp_input_shares: shares,
                policy_input_shares: Vec::new(),
                quote_policy_blinding_input_shares: Vec::new(),
                standing_pool_bindings: vec![StandingPoolBinding {
                    maker: 1,
                    direction: 0,
                    pool_id: [9; 32],
                    pool_sequence: 3,
                }],
            };
            state.verify(node as u16, &"22".repeat(32), 2).unwrap();
            state.standing_pool_partial_commitment(1, 0, &g, &h).unwrap()
        })
        .collect::<Vec<_>>();
    let combined = combine_partial_commitments(&partials, InputSharing::Additive, 7).unwrap();
    let expected = RistrettoPoint::mul_base(&value) + RistrettoPoint::mul_base(&second) * blinding;
    assert_eq!(combined, expected.compress().to_bytes());
    assert!(combine_partial_commitments(&partials[..6], InputSharing::Additive, 7).is_err());
}

#[test]
fn shamir_partial_commitments_combine_by_their_weights() {
    let g = Point { bytes: RistrettoPoint::mul_base(&Curve::from(3_u64)).compress().to_bytes() };
    let h = Point { bytes: RistrettoPoint::mul_base(&Curve::from(1_000_003_u64)).compress().to_bytes() };
    let (value, blinding) = (Curve::from(4_900_u64), Curve::from(77_u64));
    let partials = (1..=7_u64)
        .map(|x| {
            let x = Curve::from(x);
            let v = of(&(value + Curve::from(31_u64) * x + Curve::from(5_u64) * x * x));
            let r = of(&(blinding + Curve::from(19_u64) * x));
            commit(&g, &h, &v, &r).bytes
        })
        .collect::<Vec<_>>();
    let combined = combine_partial_commitments(&partials, InputSharing::Shamir, 7).unwrap();
    assert_eq!(combined, commit(&g, &h, &of(&value), &of(&blinding)).bytes);
    let direct = RistrettoPoint::mul_base(&(Curve::from(3_u64) * value + Curve::from(1_000_003_u64) * blinding));
    assert_eq!(combined, direct.compress().to_bytes());
    let mut torn = partials;
    torn[3] = [0xff; 32];
    assert_eq!(
        combine_partial_commitments(&torn, InputSharing::Shamir, 7).unwrap_err(),
        "MPC node 3 returned a non-canonical partial commitment"
    );
}

#[test]
fn splice_replaces_only_the_standing_maker_segment() {
    let n_mm = 2;
    let mut inputs = texts(0..40);
    let state = MpcSecretState {
        version: 1,
        node: 3,
        generation: 4,
        source_sha256: "33".repeat(32),
        dvp_input_shares: texts(500..510),
        policy_input_shares: Vec::new(),
        quote_policy_blinding_input_shares: Vec::new(),
        standing_pool_bindings: Vec::new(),
    };
    splice_standing_maker_shares(&mut inputs, &state, n_mm).unwrap();
    for (index, value) in inputs.iter().enumerate() {
        let expected = if (STANDING_SHARES_OFFSET..STANDING_SHARES_OFFSET + 10).contains(&index) {
            (500 + index - STANDING_SHARES_OFFSET).to_string()
        } else {
            index.to_string()
        };
        assert_eq!(*value, expected, "index {index}");
    }
    let mut short = inputs[..12].to_vec();
    assert!(splice_standing_maker_shares(&mut short, &state, n_mm).is_err());
}

#[test]
fn rebind_is_limited_to_fresh_pools_and_advances_the_generation() {
    let mut store = EncryptedMpcStateStore::new("state.qms", b"test-passphrase").unwrap();
    assert!(!store.is_present());
    let source = "44".repeat(32);
    store
        .initialize(&MpcSecretState {
            version: 1,
            node: 2,
            generation: 1,
            source_sha256: source.clone(),
            dvp_input_shares: vec!["0".into(); 5],
            policy_input_shares: Vec::new(),
            quote_policy_blinding_input_shares: Vec::new(),
            standing_pool_bindings: Vec::new(),
        })
        .unwrap();
    assert!(store.is_present());
    let binding = StandingPoolBinding { maker: 0, direction: 1, pool_id: [7; 32], pool_sequence: 0 };
    let next = rebind_standing_pool(&mut store, 2, 1, &source, 1, binding.clone(), "12", "34").unwrap();
    assert_eq!(next.generation, 2);
    assert_eq!(next.dvp_input_shares, vec!["0", "0", "12", "34", "0"]);
    assert_eq!(next.standing_pool_binding(0, 1), Some(&binding));
    assert!(same(&store.load().unwrap(), &next));
    let mut consumed = binding.clone();
    consumed.pool_sequence = 1;
    assert!(rebind_standing_pool(&mut store, 2, 1, &source, 2, consumed, "1", "2").is_err());
    assert!(rebind_standing_pool(&mut store, 2, 1, &source, 1, binding, "1", "2").is_err());
}

#[test]
fn public_execution_receipt_excludes_local_path_but_binds_persistence() {
    let receipt = |path: &str, first: u8| ResidentExecutionReceipt {
        node: 2,
        slot: 9,
        lane: 1,
        batch_digest: [3; 32],
        source_digest: "04".repeat(32),
        state_generation: 1,
        frame_count: 7,
        input_count: 32,
        elapsed_ns: 99,
        stdout_digest: [5; 32],
        stderr_digest: [6; 32],
        persistence_path: path.to_string(),
        persistence_digest: {
            let mut digest = [7; 32];
            digest[0] = first;
            digest
        },
    };
    let original = receipt("/private/a/Transactions-P2.data", 7);
    original.validate_against(2, 9, 1, [3; 32], &"04".repeat(32)).unwrap();
    let digest = original.public_digest().unwrap();
    let moved = receipt("/private/b/Transactions-P2.data", 7);
    assert_eq!(moved.public_digest().unwrap(), digest);
    let changed = receipt("/private/b/Transactions-P2.data", 7 ^ 1);
    assert_ne!(changed.public_digest().unwrap(), digest);
    assert!(original.validate_against(3, 9, 1, [3; 32], &"04".repeat(32)).is_err());
}
