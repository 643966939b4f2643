//! Requests to the resident quote service.

use qomm_transport::json::Value;
use qomm_transport::resident_circuit::{
    host_file, plan_circuit, run_within_range, tail, unpack_key, value_bits, verify_run, DelayedLink,
};
use qomm_transport::resident_quote::{
    approval_entry, approvals_from_text, read_approvals, request_from_text, Approval, CompileRefusal, Disclosure, LineError, Mode, ProgramDefaults, Request,
};

fn defaults() -> ProgramDefaults {
    ProgramDefaults {
        n_mm: 8,
        n_parties: 7,
        mode: Mode::Rfq,
        rfs_steps: 4,
        disclose: Disclosure::Nothing,
        argmin_arity: 2,
        n_assets: 1,
        n_requests: 1,
        edabit: true,
        audit_gates: false,
        public_maker_assets: true,
        ref_mid: 100_000,
    }
}

fn object(fields: Vec<(&str, Value)>) -> Value {
    Value::Object(fields.into_iter().map(|(name, value)| (name.to_string(), value)).collect())
}

fn num(value: i128) -> Value {
    Value::Integer(value)
}

fn text(value: &str) -> Value {
    Value::Text(value.to_string())
}

fn read(fields: Vec<(&str, Value)>) -> Result<Request, String> {
    Request::from_value(&object(fields), &defaults())
}

fn same(a: &Value, b: &Value) -> bool {
    match (a, b) {
        (Value::Null, Value::Null) | (Value::Fraction, Value::Fraction) => true,
        (Value::Bool(x), Value::Bool(y)) => x == y,
        (Value::Integer(x), Value::Integer(y)) => x == y,
        (Value::Text(x), Value::Text(y)) => x == y,
        (Value::Array(x), Value::Array(y)) => x.len() == y.len() && x.iter().zip(y).all(|(a, b)| same(a, b)),
        (Value::Object(x), Value::Object(y)) => {
            x.len() == y.len() && x.iter().zip(y).all(|(a, b)| a.0 == b.0 && same(&a.1, &b.1))
        }
        _ => false,
    }
}

fn pairs(shape: &Value) -> &Vec<Value> {
    match shape {
        Value::Array(pairs) => pairs,
        _ => panic!("a shape is a list"),
    }
}

#[test]
fn defaults_read_program_config_for_shape_fields() {
    let request = read(Vec::new()).unwrap();
    let defaults = defaults();
    assert_eq!(request.n_mm, defaults.n_mm);
    assert_eq!(request.n_parties, defaults.n_parties);
    assert_eq!(request.rfs_steps, defaults.rfs_steps);
    assert_eq!(request.argmin_arity, defaults.argmin_arity);
    assert_eq!(request.n_assets, defaults.n_assets);
    assert_eq!(request.n_requests, defaults.n_requests);
    assert!(request.input_check);
    assert!(pairs(&request.shape())
        .iter()
        .any(|pair| same(pair, &Value::Array(vec![text("input_check"), Value::Bool(true)]))));
}

#[test]
fn resident_service_refuses_unchecked_inputs() {
    let error = read(vec![("input_check", Value::Bool(false))]).unwrap_err();
    assert!(error.contains("refuses unchecked MPC inputs"), "{error}");
}

#[test]
fn shape_excludes_input_only_fields() {
    let a = read(vec![("user_qty", num(100)), ("seed", num(7))]).unwrap();
    let b = read(vec![("user_qty", num(999)), ("seed", num(9))]).unwrap();
    assert!(same(&a.shape(), &b.shape()));
}

#[test]
fn an_approved_file_loads_back_the_shape_it_was_written_from() {
    let request = read(vec![("n_mm", num(1)), ("n_parties", num(3)), ("threshold", num(1))]).expect("request");
    let shape = request.shape();
    assert!(pairs(&shape).iter().all(|pair| pairs(pair).len() == 2));
    let entries = Value::Array(vec![approval_entry(0, "deadbeef", &shape)]);
    let loaded = read_approvals(&entries).expect("load");
    assert_eq!(loaded.len(), 1);
    assert!(same(&loaded[0].shape, &shape));
    assert_eq!(loaded[0].name, "shape0");
    assert_eq!(loaded[0].program_digest, "deadbeef");
}

#[test]
fn every_field_of_a_request_is_read() {
    let request = read(vec![
        ("n_mm", num(3)),
        ("mode", text("rfs")),
        ("disclose", text("threshold")),
        ("bit_length", num(20)),
        ("edabit", Value::Bool(false)),
        ("user_dir", text("-1")),
        ("user_asset", num(2)),
        ("delay_ms", Value::Fraction),
        ("policies", Value::Array(Vec::new())),
        ("ref_table", Value::Array(vec![num(5), text("+6")])),
    ])
    .unwrap();
    assert_eq!(request.n_mm, 3);
    assert_eq!(request.mode, Mode::Rfs);
    assert_eq!(request.disclose, Disclosure::Threshold);
    assert_eq!(request.bit_length, 20);
    assert!(!request.edabit);
    assert_eq!(request.user_qty, 100);
    assert_eq!(request.user_dir, -1);
    assert_eq!(request.user_asset, 2);
    assert_eq!(request.seed, 7);
    assert_eq!(request.is_real, 1);
    assert_eq!(request.threshold, 2);
    assert!(request.policies.is_some());
    assert_eq!(request.ref_table, Some(vec![5, 6]));
    let plain = read(vec![("policies", Value::Null), ("ref_table", Value::Null)]).unwrap();
    assert!(plain.policies.is_none() && plain.ref_table.is_none());
    assert_eq!(plain.bit_length, 31);
}

#[test]
fn a_request_names_the_field_that_is_wrong() {
    let refusal = |name: &str, value: Value| read(vec![(name, value)]).unwrap_err();
    assert_eq!(
        Request::from_value(&Value::Null, &defaults()).unwrap_err(),
        "request must be a JSON object"
    );
    assert_eq!(refusal("mode", num(1)), "mode must be a string");
    assert_eq!(refusal("mode", text("rfx")), "mode must be rfq, rfm, or rfs");
    assert_eq!(refusal("disclose", text("all")), "disclose must be none or threshold");
    assert_eq!(refusal("n_mm", num(-1)), "n_mm must be a non-negative integer");
    assert_eq!(refusal("bit_length", num(1 << 32)), "bit_length must be a non-negative 32-bit integer");
    assert_eq!(refusal("seed", text("1 ")), "seed must be an integer");
    assert_eq!(refusal("edabit", num(1)), "edabit must be a boolean");
    assert_eq!(refusal("delay_ms", text("1")), "delay_ms must be a finite number");
    assert_eq!(refusal("ref_table", num(1)), "ref_table must be an array or null");
    assert_eq!(
        refusal("ref_table", Value::Array(vec![Value::Fraction])),
        "ref_table values must be integers"
    );
}

#[test]
fn only_an_approved_program_is_compiled() {
    let request = read(vec![("n_mm", num(2))]).unwrap();
    let other = read(vec![("n_mm", num(4))]).unwrap();
    let approvals = vec![Approval {
        name: "two".to_string(),
        program_digest: "aa".to_string(),
        shape: request.shape(),
    }];
    assert!(request.check_approved(None, "bb").is_ok());
    assert!(request.check_approved(Some(&approvals), "aa").is_ok());
    assert!(matches!(
        request.check_approved(Some(&approvals), "bb"),
        Err(CompileRefusal::Mismatch { name, approved }) if name == "two" && approved == "aa"
    ));
    assert!(matches!(
        other.check_approved(Some(&approvals), "aa"),
        Err(CompileRefusal::NotApproved)
    ));
    let shapes = vec![other.shape(), request.shape()];
    assert_eq!(request.resident_at(&shapes), Some(1));
    assert_eq!(read(vec![("n_mm", num(5))]).unwrap().resident_at(&shapes), None);
}

#[test]
fn an_approval_has_a_name_a_digest_and_a_shape() {
    assert_eq!(read_approvals(&Value::Null).unwrap_err(), "approved file must contain a JSON array");
    let refusal = |value: Value| read_approvals(&Value::Array(vec![value])).unwrap_err();
    assert_eq!(refusal(Value::Null), "each approved circuit must be an object");
    assert_eq!(refusal(object(Vec::new())), "name must be a string");
    assert_eq!(refusal(object(vec![("name", text("a"))])), "program_digest must be a string");
    assert_eq!(
        refusal(object(vec![("name", text("a")), ("program_digest", text("b"))])),
        "approved circuit is missing shape"
    );
}

#[test]
fn a_circuit_is_planned_for_a_request() {
    let request = read(vec![("n_mm", num(3)), ("n_assets", num(2)), ("user_asset", num(1)), ("argmin_arity", num(0))])
        .unwrap();
    let plan = plan_circuit(&request, Ok(4), 100_000).unwrap();
    assert_eq!(plan.padded, 4);
    assert_eq!(plan.ref_table, vec![100_000, 105_000]);
    assert_eq!(plan.max_ref, 105_000);
    assert_eq!(plan.maker_assets, vec![0, 1, 0, 1]);
    assert_eq!(plan.argmin_arity, 4);
    assert_eq!(plan.shamir_threshold, 3);
    assert_eq!(value_bits(&request, None).unwrap(), 32);
    assert_eq!(value_bits(&request, Some(Ok(3))).unwrap(), 32);
    assert_eq!(value_bits(&request, Some(Ok(2))).unwrap_err(), "policies has fewer than 3 entries");
    assert_eq!(plan_circuit(&request, Err("too many".to_string()), 0).unwrap_err(), "too many");
    let none = read(vec![("n_assets", num(0))]).unwrap();
    assert_eq!(plan_circuit(&none, Ok(8), 0).unwrap_err(), "n_assets must be positive");
    let far = read(vec![("user_asset", num(1))]).unwrap();
    assert_eq!(plan_circuit(&far, Ok(8), 0).unwrap_err(), "user_asset must be below n_assets");
    let short = read(vec![("n_assets", num(2)), ("ref_table", Value::Array(vec![num(1)]))]).unwrap();
    assert_eq!(plan_circuit(&short, Ok(8), 0).unwrap_err(), "ref_table has 1 entries for 2 assets");
    let wide = read(vec![("bit_length", num(0xffff_ffff))]).unwrap();
    assert_eq!(value_bits(&wide, None).unwrap_err(), "value bit width overflow");
}

#[test]
fn a_key_is_taken_apart_by_its_padding() {
    assert_eq!(unpack_key(43, 8), (5, 3));
    assert_eq!(unpack_key(-3, 8), (-1, 5));
    assert_eq!(unpack_key(-16, 8), (-2, 0));
    assert_eq!(unpack_key(5, -8), (0, 5));
    assert_eq!(unpack_key(-3, -8), (1, 5));
}

#[test]
fn a_run_is_held_against_its_reference() {
    let reference = object(vec![
        ("padded_mm", num(8)),
        ("mask", num(100)),
        ("best_cost", num(5)),
        ("best_mm", num(3)),
        ("best_ask", num(5)),
        ("best_ask_mm", num(3)),
        ("best_bid", num(2)),
        ("best_bid_mm", num(1)),
    ]);
    let (ok, detail) = verify_run(Mode::Rfq, "noise\nQOMM_MASKED_KEY= 143 \r\n", &reference).unwrap();
    assert!(ok);
    assert_eq!(detail, "got=(5, 3) want=(5, 3)");
    let (ok, detail) = verify_run(Mode::Rfq, "QOMM_MASKED_KEY=144", &reference).unwrap();
    assert!(!ok);
    assert_eq!(detail, "got=(5, 4) want=(5, 3)");
    let (ok, detail) = verify_run(Mode::Rfq, "QOMM_MASKED_KEY=x", &reference).unwrap();
    assert!(!ok);
    assert_eq!(detail, "no masked quote in log");
    let (ok, detail) =
        verify_run(Mode::Rfm, "QOMM_MASKED_ASK=143\nQOMM_MASKED_BID=85\n", &reference).unwrap();
    assert!(ok);
    assert_eq!(detail, "got=((5, 3), (-2, 1)) want=((5, 3), (-2, 1))");
    assert_eq!(
        verify_run(Mode::Rfm, "QOMM_MASKED_ASK=143\n", &reference).unwrap(),
        (false, "no two-sided quote in log".to_string())
    );
    let stream = "QOMM_RFS_STEP_2_KEY=1\nQOMM_RFS_STEP_1_KEY=43\nQOMM_RFS_STEP_1_KEY=44\nQOMM_RFS_STEP_x_KEY=1\n";
    assert_eq!(
        verify_run(Mode::Rfs, stream, &reference).unwrap(),
        (true, "steps=3 first=(5, 3) want=(5, 3)".to_string())
    );
    assert_eq!(
        verify_run(Mode::Rfs, "", &reference).unwrap(),
        (false, "no RFS price series in log".to_string())
    );
    assert_eq!(
        verify_run(Mode::Rfq, "", &object(Vec::new())).unwrap_err(),
        "reference has no integer padded_mm"
    );
    assert_eq!(
        verify_run(Mode::Rfq, "QOMM_MASKED_KEY=143", &object(vec![("padded_mm", text("8"))])).unwrap_err(),
        "reference has no integer best_cost"
    );
}

#[test]
fn the_parties_reach_each_other_directly_or_through_a_delay() {
    let (direct, links) = host_file(1, 3, 21_000, 21_004, false);
    assert_eq!(direct, "127.0.0.1:21000\n127.0.0.1:21001\n127.0.0.1:21002\n");
    assert!(links.is_empty());
    let (delayed, links) = host_file(1, 3, 21_000, 21_004, true);
    assert_eq!(delayed, "127.0.0.1:21007\n127.0.0.1:21001\n127.0.0.1:21009\n");
    let shown = links
        .iter()
        .map(|link: &DelayedLink| (link.source, link.target, link.listen_port, link.target_port))
        .collect::<Vec<_>>();
    assert_eq!(shown, vec![(1, 0, 21_007, 21_000), (1, 2, 21_009, 21_002)]);
}

#[test]
fn the_tail_of_a_text_is_its_last_characters() {
    assert_eq!(tail("abc", 5), "abc");
    assert_eq!(tail("a\u{e9}bc", 3), "\u{e9}bc");
    assert_eq!(tail("abc", 0), "");
}

#[test]
fn an_approved_file_is_read_from_its_text() {
    let text = br#"[{"name": "shape0", "program_digest": "deadbeef", "shape": [["n_mm", 1]]}]"#;
    let loaded = approvals_from_text(text).unwrap();
    assert_eq!((loaded.len(), loaded[0].name.as_str(), loaded[0].program_digest.as_str()), (1, "shape0", "deadbeef"));
    assert_eq!(approvals_from_text(b"[").unwrap_err(), "approved file is not JSON");
    assert_eq!(approvals_from_text(b"{}").unwrap_err(), "approved file must contain a JSON array");
}

#[test]
fn a_line_is_a_request_or_says_why_not() {
    let request = request_from_text(br#"{"n_mm": 3, "user_qty": 5}"#, &defaults()).unwrap();
    assert_eq!((request.n_mm, request.n_parties), (3, defaults().n_parties));
    assert!(matches!(request_from_text(b"{", &defaults()), Err(LineError::Syntax)));
    assert!(matches!(
        request_from_text(b"[]", &defaults()),
        Err(LineError::Refused(error)) if error == "request must be a JSON object"
    ));
}

#[test]
fn a_run_is_read_only_within_its_range() {
    let reference = |padded: i128, mask: i128| object(vec![("padded_mm", num(padded)), ("mask", num(mask))]);
    let least = format!("QOMM_MASKED_KEY={}", i128::MIN);
    assert!(run_within_range(Mode::Rfq, "QOMM_MASKED_KEY=143", &reference(8, 100)));
    assert!(!run_within_range(Mode::Rfq, "QOMM_MASKED_KEY=143", &reference(0, 100)));
    assert!(run_within_range(Mode::Rfq, "", &reference(0, 100)));
    assert!(run_within_range(Mode::Rfq, &least, &reference(8, 0)));
    assert!(!run_within_range(Mode::Rfq, &least, &reference(8, 1)));
    assert!(!run_within_range(Mode::Rfq, &least, &reference(7, 0)));
    assert!(!run_within_range(Mode::Rfq, &least, &reference(-1, 0)));
    assert!(run_within_range(Mode::Rfq, &least, &object(Vec::new())));
    assert!(run_within_range(Mode::Rfs, "QOMM_RFS_STEP_1_KEY=43", &reference(8, 0)));
    assert!(!run_within_range(Mode::Rfs, "QOMM_RFS_STEP_1_KEY=43", &reference(0, 0)));
    let sides = "QOMM_MASKED_ASK=1\nQOMM_MASKED_BID=2\n";
    assert!(run_within_range(Mode::Rfm, sides, &reference(8, 0)));
    assert!(!run_within_range(Mode::Rfm, sides, &reference(0, 0)));
    assert!(run_within_range(Mode::Rfm, "QOMM_MASKED_ASK=1\n", &reference(0, 0)));
}
