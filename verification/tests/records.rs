//! Bounded records and public proofs.

use curve25519_dalek::ristretto::RistrettoPoint;
use curve25519_dalek::traits::Identity;
use qomm_transport::group::{Point, Scalar};
use qomm_transport::json::Value;
use qomm_transport::lines::{
    read_bounded_line, read_bounded_request_line, BufferedInput, MAX_REQUEST_BYTES, MAX_RESPONSE_BYTES,
};
use qomm_transport::proof_codec::{
    decode_dvp_proofs, decode_threshold_range, encode_dvp_proofs, encode_threshold_range, DvpProofs, OpeningProof,
    ProductProof, ThresholdRangeProof,
};
use qomm_transport::proof_service::{encode_bounded_response, ProofResponse};

#[test]
fn bounded_line_reader_requires_a_complete_bounded_record() {
    let mut valid = BufferedInput::with_capacity(8192, b"{\"ok\":true}\ntrailing".to_vec());
    assert_eq!(read_bounded_line(&mut valid).unwrap(), b"{\"ok\":true}\n");
    let mut closed = BufferedInput::with_capacity(8192, b"unterminated".to_vec());
    assert!(read_bounded_line(&mut closed).unwrap_err().contains("closed"));
    let mut oversized = BufferedInput::with_capacity(8192, vec![b'x'; MAX_RESPONSE_BYTES + 1]);
    assert!(read_bounded_line(&mut oversized).unwrap_err().contains("fixed bound"));
}

#[test]
fn request_reader_never_buffers_past_its_fixed_limit() {
    let mut valid = BufferedInput::with_capacity(3, b"{}\nnext".to_vec());
    assert_eq!(read_bounded_request_line(&mut valid).unwrap().unwrap(), b"{}\n");
    let mut partial = BufferedInput::with_capacity(8192, b"{}".to_vec());
    assert!(read_bounded_request_line(&mut partial).unwrap_err().contains("newline"));
    let mut oversized = BufferedInput::with_capacity(1024, vec![b'x'; MAX_REQUEST_BYTES + 1]);
    assert!(read_bounded_request_line(&mut oversized).unwrap_err().contains("fixed bound"));
}

#[test]
fn an_ended_input_has_no_request() {
    let mut ended = BufferedInput::with_capacity(16, Vec::new());
    assert!(read_bounded_request_line(&mut ended).unwrap().is_none());
}

#[test]
fn response_encoder_rejects_an_oversized_record_before_writing() {
    let response = ProofResponse {
        id: 1,
        ok: true,
        result: Some(Value::Text("x".repeat(MAX_RESPONSE_BYTES))),
        error: None,
    };
    assert!(encode_bounded_response(&response).unwrap_err().contains("fixed bound"));
}

#[test]
fn a_response_is_one_line() {
    let response = ProofResponse {
        id: 12,
        ok: true,
        result: Some(Value::Object(vec![
            ("b".to_string(), Value::Integer(-3)),
            ("a".to_string(), Value::Array(vec![Value::Null, Value::Bool(false)])),
        ])),
        error: None,
    };
    let line = encode_bounded_response(&response).unwrap();
    assert_eq!(
        String::from_utf8(line).unwrap(),
        "{\"id\":12,\"ok\":true,\"result\":{\"a\":[null,false],\"b\":-3}}"
    );
}

fn identity() -> Point {
    Point { bytes: RistrettoPoint::identity().compress().to_bytes() }
}

fn number(value: u64) -> Scalar {
    Scalar { bytes: curve25519_dalek::Scalar::from(value).to_bytes() }
}

fn product(value: u64) -> ProductProof {
    ProductProof {
        t_factor: identity(),
        t_product: identity(),
        z_b: number(value),
        z_rb: number(value + 1),
        z_s: number(value + 2),
    }
}

fn range() -> ThresholdRangeProof {
    ThresholdRangeProof {
        bit_commitments: vec![identity(); 2],
        bit_proofs: vec![product(1), product(4)],
        linkage: OpeningProof { t: identity(), z_value: number(7), z_blinding: number(8) },
        bits: 2,
    }
}

#[test]
fn final_public_proofs_round_trip_and_reject_trailing_bytes() {
    let proofs = DvpProofs { product: product(9), securities_remainder: range(), cash_remainder: range() };
    let raw = encode_dvp_proofs(&proofs).unwrap();
    let decoded = decode_dvp_proofs(&raw).unwrap();
    assert_eq!(decoded.product.z_b, proofs.product.z_b);
    assert_eq!(decoded.cash_remainder.bits, 2);
    let mut trailing = raw;
    trailing.push(0);
    assert!(decode_dvp_proofs(&trailing).is_err());
}

#[test]
fn a_range_proof_of_another_shape_has_no_wire() {
    let mut proof = range();
    proof.bits = 3;
    assert_eq!(
        encode_threshold_range(&proof).unwrap_err(),
        "threshold range proof shape is outside the wire bound"
    );
    let raw = encode_threshold_range(&range()).unwrap();
    assert_eq!(&raw[..10], b"QOMMRPF1\x00\x02");
    assert_eq!(raw.len(), 10 + 2 * 32 + 2 * 160 + 96);
    let mut broken = raw.clone();
    broken[10] = 0xff;
    assert!(decode_threshold_range(&broken).is_err());
    assert!(decode_threshold_range(&raw[..raw.len() - 1]).is_err());
}

#[test]
fn a_refused_request_consumes_no_more_than_its_bound() {
    let mut oversized = BufferedInput::with_capacity(1024, vec![b'x'; MAX_REQUEST_BYTES + 5_000]);
    assert!(read_bounded_request_line(&mut oversized).is_err());
    assert!(oversized.at <= MAX_REQUEST_BYTES);
    let mut unfinished = BufferedInput::with_capacity(3, b"abcdefg".to_vec());
    assert!(read_bounded_request_line(&mut unfinished).is_err());
    assert_eq!(unfinished.at, 7);
}

#[test]
fn only_the_members_that_count_are_printed() {
    let mut deep = Value::Null;
    for _ in 0..200 {
        deep = Value::Array(vec![deep]);
    }
    let response = ProofResponse {
        id: 3,
        ok: true,
        result: Some(Value::Object(vec![
            ("a".to_string(), deep),
            ("b".to_string(), Value::Fraction),
            ("b".to_string(), Value::Integer(2)),
            ("a".to_string(), Value::Bool(true)),
        ])),
        error: None,
    };
    assert_eq!(encode_bounded_response(&response).unwrap(), b"{\"id\":3,\"ok\":true,\"result\":{\"a\":true,\"b\":2}}");
}

#[test]
fn a_response_nests_as_deep_as_it_can_be_read() {
    let mut deep = Value::Array(Vec::new());
    for _ in 1..qomm_transport::json::MAX_NESTING {
        deep = Value::Array(vec![deep]);
    }
    assert!(qomm_transport::json::check_plain(&deep, qomm_transport::json::MAX_NESTING));
    let response = ProofResponse { id: 3, ok: true, result: Some(deep), error: None };
    let line = encode_bounded_response(&response).unwrap();
    assert_eq!(line.iter().filter(|byte| **byte == b'[').count(), 127);
}
