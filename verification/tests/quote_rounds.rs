//! The public rounds of a quote's proof.

use curve25519_dalek::ristretto::RistrettoPoint;
use qomm_transport::group::{Point, Scalar};
use qomm_transport::quote_messages::{
    encode, Envelope, Message, OpeningChallenge, OpeningRound1, OpeningRound1Seal, OpeningRound2, ProductChallenge,
    ProductEvaluations, ProductRound1, ProductRound1Seal, ProductRound2, QuoteChallenges, QuoteNodeEvaluations,
    QuoteRelationEvaluations, QuoteRound1, QuoteRound1Seals, QuoteRound2, RangeChallenge, RangeEvaluations,
    RangeRelationEvaluations, RangeRound1, RangeRound1Seal, RangeRound2, WireEvaluation,
};
use qomm_transport::quote_wire::decode;

fn p(value: u64) -> Point {
    Point { bytes: RistrettoPoint::mul_base(&curve25519_dalek::Scalar::from(value)).compress().to_bytes() }
}

fn s(value: u64) -> Scalar {
    Scalar { bytes: curve25519_dalek::Scalar::from(value).to_bytes() }
}

fn round_trip(message: Message) {
    let envelope = Envelope { job_id: [9; 32], message };
    let first = encode(&envelope).unwrap();
    let decoded = decode(&first).unwrap();
    let second = encode(&decoded).unwrap();
    assert_eq!(first, second);
}

#[test]
fn every_public_quote_round_has_a_canonical_round_trip() {
    round_trip(Message::Evaluations(QuoteNodeEvaluations {
        party: 1,
        wires: vec![WireEvaluation { party: 1, point: p(1) }],
        ranges: vec![RangeEvaluations { party: 1, value: p(2), bits: vec![p(3)] }],
    }));
    round_trip(Message::RelationEvaluations(QuoteRelationEvaluations {
        party: 1,
        products: vec![ProductEvaluations { party: 1, factor: p(4), relation: p(5) }],
        ranges: vec![RangeRelationEvaluations { party: 1, bits: vec![p(6)] }],
    }));
    round_trip(Message::Round1Seal(QuoteRound1Seals {
        party: 1,
        products: vec![ProductRound1Seal { party: 1, digest: [1; 32] }],
        ranges: vec![RangeRound1Seal { party: 1, digest: [2; 32] }],
        winner: OpeningRound1Seal { party: 1, digest: [3; 32] },
    }));
    round_trip(Message::Round1(QuoteRound1 {
        party: 1,
        products: vec![ProductRound1 { party: 1, context_digest: [4; 32], factor: p(7), product: p(8) }],
        ranges: vec![RangeRound1 {
            party: 1,
            context_digest: [5; 32],
            bit_factor: vec![p(9)],
            bit_product: vec![p(10)],
            linkage: p(11),
        }],
        winner: OpeningRound1 { party: 1, context_digest: [6; 32], nonce_commitment: p(12) },
    }));
    let quorum = vec![1, 2, 3];
    round_trip(Message::Challenge(QuoteChallenges {
        products: vec![ProductChallenge {
            quorum: quorum.clone(),
            context_digest: [7; 32],
            factor: p(13),
            product: p(14),
            challenge: s(15),
        }],
        ranges: vec![RangeChallenge {
            quorum: quorum.clone(),
            context_digest: [8; 32],
            bit_factor: vec![p(16)],
            bit_product: vec![p(17)],
            bit_challenges: vec![s(18)],
            linkage: p(19),
            linkage_challenge: s(20),
        }],
        winner: OpeningChallenge { quorum, context_digest: [9; 32], nonce_commitment: p(21), challenge: s(22) },
    }));
    round_trip(Message::Round2(QuoteRound2 {
        party: 1,
        products: vec![ProductRound2 {
            party: 1,
            factor_answer: s(23),
            factor_blinding_answer: s(24),
            relation_answer: s(25),
        }],
        ranges: vec![RangeRound2 {
            party: 1,
            bit_answers: vec![(s(26), s(27), s(28))],
            linkage_answer: (s(29), s(30)),
        }],
        winner: OpeningRound2 { party: 1, value_answer: s(31), blinding_answer: s(32) },
    }));
}

#[test]
fn a_round_that_is_cut_or_of_another_kind_is_refused() {
    let envelope = Envelope {
        job_id: [9; 32],
        message: Message::Evaluations(QuoteNodeEvaluations {
            party: 1,
            wires: vec![WireEvaluation { party: 1, point: p(1) }],
            ranges: vec![RangeEvaluations { party: 1, value: p(2), bits: vec![p(3)] }],
        }),
    };
    let raw = encode(&envelope).unwrap();
    assert!(decode(&raw[..raw.len() - 1]).is_err());
    let text = String::from_utf8(raw).unwrap();
    let renamed = text.replace("\"evaluations\"", "\"round1\"");
    assert!(decode(renamed.as_bytes()).is_err());
}
