//! The public rounds of the complete quote proof as JSON documents.
//!
//! Only canonical points and scalars, hashes, party identifiers, and public
//! proof messages have encodings; private shares and nonce secrets intentionally
//! have none.

use vstd::prelude::*;
use crate::fields::{bounded, either, hex_json, length_refusal};
use crate::group::{Point, Scalar};
use crate::json::{elements, elements_at, json_document, json_text, members, print_document, Json, Value, MAX_NESTING};
use crate::text::hex_encode;

verus! {

/// The version of the format.
pub const VERSION: u64 = 1;

/// The largest quorum.
pub const MAX_PARTIES: usize = 64;

/// The most wires that an evaluation message can carry.
pub const MAX_WIRE_POINTS: usize = 90113;

/// The most products that a message can carry.
pub const MAX_PRODUCTS: usize = 45056;

/// The most ranges that a message can carry.
pub const MAX_RANGES: usize = 12288;

/// The widest range.
pub const MAX_RANGE_BITS: usize = 64;

/// A node's committed factor and relation of one product.
#[derive(Debug)]
pub struct ProductEvaluations {
    pub party: usize,
    pub factor: Point,
    pub relation: Point,
}

/// A node's first-round commitments for one product.
#[derive(Debug)]
pub struct ProductRound1 {
    pub party: usize,
    pub context_digest: [u8; 32],
    pub factor: Point,
    pub product: Point,
}

/// The challenge for one product.
#[derive(Debug)]
pub struct ProductChallenge {
    pub quorum: Vec<usize>,
    pub context_digest: [u8; 32],
    pub factor: Point,
    pub product: Point,
    pub challenge: Scalar,
}

/// A node's committed value and bits of one range.
#[derive(Debug)]
pub struct RangeEvaluations {
    pub party: usize,
    pub value: Point,
    pub bits: Vec<Point>,
}

/// A node's first-round commitments for one range.
#[derive(Debug)]
pub struct RangeRound1 {
    pub party: usize,
    pub context_digest: [u8; 32],
    pub bit_factor: Vec<Point>,
    pub bit_product: Vec<Point>,
    pub linkage: Point,
}

/// The challenge for one range.
#[derive(Debug)]
pub struct RangeChallenge {
    pub quorum: Vec<usize>,
    pub context_digest: [u8; 32],
    pub bit_factor: Vec<Point>,
    pub bit_product: Vec<Point>,
    pub bit_challenges: Vec<Scalar>,
    pub linkage: Point,
    pub linkage_challenge: Scalar,
}

/// A node's first-round commitment for the winner's opening.
#[derive(Debug)]
pub struct OpeningRound1 {
    pub party: usize,
    pub context_digest: [u8; 32],
    pub nonce_commitment: Point,
}

/// The challenge for the winner's opening.
#[derive(Debug)]
pub struct OpeningChallenge {
    pub quorum: Vec<usize>,
    pub context_digest: [u8; 32],
    pub nonce_commitment: Point,
    pub challenge: Scalar,
}

/// A node's committed wire.
#[derive(Clone, Copy, Debug)]
pub struct WireEvaluation {
    pub party: usize,
    pub point: Point,
}

/// A node's committed relations of the bits of one range.
#[derive(Debug)]
pub struct RangeRelationEvaluations {
    pub party: usize,
    pub bits: Vec<Point>,
}

/// A node's seal of its first round for one product.
#[derive(Clone, Copy, Debug)]
pub struct ProductRound1Seal {
    pub party: usize,
    pub digest: [u8; 32],
}

/// A node's seal of its first round for one range.
#[derive(Clone, Copy, Debug)]
pub struct RangeRound1Seal {
    pub party: usize,
    pub digest: [u8; 32],
}

/// A node's seal of its first round for the winner's opening.
#[derive(Clone, Copy, Debug)]
pub struct OpeningRound1Seal {
    pub party: usize,
    pub digest: [u8; 32],
}

/// A node's answers for one product.
#[derive(Clone, Copy, Debug)]
pub struct ProductRound2 {
    pub party: usize,
    pub factor_answer: Scalar,
    pub factor_blinding_answer: Scalar,
    pub relation_answer: Scalar,
}

/// A node's answers for one range.
#[derive(Debug)]
pub struct RangeRound2 {
    pub party: usize,
    pub bit_answers: Vec<(Scalar, Scalar, Scalar)>,
    pub linkage_answer: (Scalar, Scalar),
}

/// A node's answers for the winner's opening.
#[derive(Clone, Copy, Debug)]
pub struct OpeningRound2 {
    pub party: usize,
    pub value_answer: Scalar,
    pub blinding_answer: Scalar,
}

/// A node's committed wires and ranges.
#[derive(Debug)]
pub struct QuoteNodeEvaluations {
    pub party: usize,
    pub wires: Vec<WireEvaluation>,
    pub ranges: Vec<RangeEvaluations>,
}

/// A node's committed relations.
#[derive(Debug)]
pub struct QuoteRelationEvaluations {
    pub party: usize,
    pub products: Vec<ProductEvaluations>,
    pub ranges: Vec<RangeRelationEvaluations>,
}

/// A node's seals of its first round.
#[derive(Debug)]
pub struct QuoteRound1Seals {
    pub party: usize,
    pub products: Vec<ProductRound1Seal>,
    pub ranges: Vec<RangeRound1Seal>,
    pub winner: OpeningRound1Seal,
}

/// A node's first round.
#[derive(Debug)]
pub struct QuoteRound1 {
    pub party: usize,
    pub products: Vec<ProductRound1>,
    pub ranges: Vec<RangeRound1>,
    pub winner: OpeningRound1,
}

/// The challenges to a quorum.
#[derive(Debug)]
pub struct QuoteChallenges {
    pub products: Vec<ProductChallenge>,
    pub ranges: Vec<RangeChallenge>,
    pub winner: OpeningChallenge,
}

/// A node's second round.
#[derive(Debug)]
pub struct QuoteRound2 {
    pub party: usize,
    pub products: Vec<ProductRound2>,
    pub ranges: Vec<RangeRound2>,
    pub winner: OpeningRound2,
}

/// A public round of the quote proof.
#[derive(Debug)]
pub enum Message {
    Evaluations(QuoteNodeEvaluations),
    RelationEvaluations(QuoteRelationEvaluations),
    Round1Seal(QuoteRound1Seals),
    Round1(QuoteRound1),
    Challenge(QuoteChallenges),
    Round2(QuoteRound2),
}

/// A public round of one job.
#[derive(Debug)]
pub struct Envelope {
    pub job_id: [u8; 32],
    pub message: Message,
}

/// An object of given members; of two members of one name the later counts.
pub open spec fn object_json(fields: Seq<(Seq<char>, Json)>) -> Json {
    Json::Object(object_map(fields))
}

/// The members of an object.
pub open spec fn object_map(fields: Seq<(Seq<char>, Json)>) -> Map<Seq<char>, Json>
    decreases fields.len(),
{
    if fields.len() == 0 {
        Map::empty()
    } else {
        object_map(fields.drop_last()).insert(fields.last().0, fields.last().1)
    }
}

/// What a list of members says.
pub open spec fn entries_said(entries: Seq<(String, Value)>) -> Seq<(Seq<char>, Json)> {
    entries.map_values(|e: (String, Value)| (e.0@, e.1@))
}

proof fn members_said(entries: Vec<(String, Value)>, count: nat)
    requires
        count <= entries@.len(),
    ensures
        members(entries, count) == object_map(entries_said(entries@).take(count as int)),
    decreases count,
{
    let all = entries_said(entries@);
    if count > 0 {
        members_said(entries, (count - 1) as nat);
        assert(all.take(count as int).drop_last() =~= all.take(count - 1));
    }
}

/// An object of given members.
pub fn object(entries: Vec<(String, Value)>) -> (value: Value)
    ensures
        value@ == object_json(entries_said(entries@)),
{
    proof {
        members_said(entries, entries@.len());
        assert(entries_said(entries@).take(entries@.len() as int) =~= entries_said(entries@));
    }
    Value::Object(entries)
}

/// A list of documents.
pub fn array(values: Vec<Value>) -> (value: Value)
    ensures
        value@ == Json::Array(values@.map_values(|v: Value| v@)),
{
    proof {
        elements_at(values, values@.len());
        assert(elements(values, values@.len()) =~= values@.map_values(|v: Value| v@));
    }
    Value::Array(values)
}

/// The hexadecimal text of thirty-two bytes.
pub fn hex_value(bytes: &[u8; 32]) -> (value: Value)
    ensures
        value@ == hex_json(bytes@),
{
    Value::Text(hex_encode(bytes.as_slice()))
}

/// A list of points.
pub open spec fn points_json(points: Seq<Point>) -> Json {
    Json::Array(points.map_values(|p: Point| hex_json(p@)))
}

/// A list of scalars.
pub open spec fn scalars_json(scalars: Seq<Scalar>) -> Json {
    Json::Array(scalars.map_values(|s: Scalar| hex_json(s@)))
}

fn points_value(values: &Vec<Point>) -> (value: Value)
    ensures
        value@ == points_json(values@),
{
    let mut documents: Vec<Value> = Vec::new();
    let mut i: usize = 0;
    while i < values.len()
        invariant
            i <= values@.len(),
            documents@.len() == i,
            forall|j: int| 0 <= j < i ==> (#[trigger] documents@[j])@ == hex_json(values@[j]@),
        decreases values@.len() - i,
    {
        documents.push(hex_value(&values[i].bytes));
        i = i + 1;
    }
    let value = array(documents);
    assert(documents@.map_values(|v: Value| v@) =~= (points_json(values@))->Array_0);
    value
}

fn scalars_value(values: &Vec<Scalar>) -> (value: Value)
    ensures
        value@ == scalars_json(values@),
{
    let mut documents: Vec<Value> = Vec::new();
    let mut i: usize = 0;
    while i < values.len()
        invariant
            i <= values@.len(),
            documents@.len() == i,
            forall|j: int| 0 <= j < i ==> (#[trigger] documents@[j])@ == hex_json(values@[j]@),
        decreases values@.len() - i,
    {
        documents.push(hex_value(&values[i].bytes));
        i = i + 1;
    }
    let value = array(documents);
    assert(documents@.map_values(|v: Value| v@) =~= (scalars_json(values@))->Array_0);
    value
}

/// The document of one product evaluations.
pub open spec fn product_evaluations_json(value: ProductEvaluations) -> Json {
    object_json(seq![("f"@, hex_json(value.factor@)), ("r"@, hex_json(value.relation@))])
}

fn product_evaluations_value(value: &ProductEvaluations) -> (document: Value)
    ensures
        document@ == product_evaluations_json(*value),
{
    let entries = vec![
        ("f".to_owned(), hex_value(&value.factor.bytes)),
        ("r".to_owned(), hex_value(&value.relation.bytes)),
    ];
    assert(entries_said(entries@) =~= seq![("f"@, hex_json(value.factor@)), ("r"@, hex_json(value.relation@))]);
    object(entries)
}

/// The document of one product round1.
pub open spec fn product_round1_json(value: ProductRound1) -> Json {
    object_json(seq![("c"@, hex_json(value.context_digest@)), ("f"@, hex_json(value.factor@)), ("p"@,
        hex_json(value.product@))])
}

fn product_round1_value(value: &ProductRound1) -> (document: Value)
    ensures
        document@ == product_round1_json(*value),
{
    let entries = vec![
        ("c".to_owned(), hex_value(&value.context_digest)),
        ("f".to_owned(), hex_value(&value.factor.bytes)),
        ("p".to_owned(), hex_value(&value.product.bytes)),
    ];
    assert(entries_said(entries@) =~= seq![("c"@, hex_json(value.context_digest@)), ("f"@, hex_json(value.factor@)),
        ("p"@, hex_json(value.product@))]);
    object(entries)
}

/// The document of one product challenge.
pub open spec fn product_challenge_json(value: ProductChallenge) -> Json {
    object_json(seq![("c"@, hex_json(value.context_digest@)), ("f"@, hex_json(value.factor@)), ("p"@,
        hex_json(value.product@)), ("x"@, hex_json(value.challenge@))])
}

fn product_challenge_value(value: &ProductChallenge) -> (document: Value)
    ensures
        document@ == product_challenge_json(*value),
{
    let entries = vec![
        ("c".to_owned(), hex_value(&value.context_digest)),
        ("f".to_owned(), hex_value(&value.factor.bytes)),
        ("p".to_owned(), hex_value(&value.product.bytes)),
        ("x".to_owned(), hex_value(&value.challenge.bytes)),
    ];
    assert(entries_said(entries@) =~= seq![("c"@, hex_json(value.context_digest@)), ("f"@, hex_json(value.factor@)),
        ("p"@, hex_json(value.product@)), ("x"@, hex_json(value.challenge@))]);
    object(entries)
}

/// The document of one range evaluations.
pub open spec fn range_evaluations_json(value: RangeEvaluations) -> Json {
    object_json(seq![("b"@, points_json(value.bits@)), ("v"@, hex_json(value.value@))])
}

fn range_evaluations_value(value: &RangeEvaluations) -> (document: Value)
    ensures
        document@ == range_evaluations_json(*value),
{
    let entries = vec![
        ("b".to_owned(), points_value(&value.bits)),
        ("v".to_owned(), hex_value(&value.value.bytes)),
    ];
    assert(entries_said(entries@) =~= seq![("b"@, points_json(value.bits@)), ("v"@, hex_json(value.value@))]);
    object(entries)
}

/// The document of one range round1.
pub open spec fn range_round1_json(value: RangeRound1) -> Json {
    object_json(seq![("c"@, hex_json(value.context_digest@)), ("f"@, points_json(value.bit_factor@)), ("l"@,
        hex_json(value.linkage@)), ("p"@, points_json(value.bit_product@))])
}

fn range_round1_value(value: &RangeRound1) -> (document: Value)
    ensures
        document@ == range_round1_json(*value),
{
    let entries = vec![
        ("c".to_owned(), hex_value(&value.context_digest)),
        ("f".to_owned(), points_value(&value.bit_factor)),
        ("l".to_owned(), hex_value(&value.linkage.bytes)),
        ("p".to_owned(), points_value(&value.bit_product)),
    ];
    assert(entries_said(entries@) =~= seq![("c"@, hex_json(value.context_digest@)), ("f"@,
        points_json(value.bit_factor@)), ("l"@, hex_json(value.linkage@)), ("p"@, points_json(value.bit_product@))]);
    object(entries)
}

/// The document of one range challenge.
pub open spec fn range_challenge_json(value: RangeChallenge) -> Json {
    object_json(seq![("c"@, hex_json(value.context_digest@)), ("f"@, points_json(value.bit_factor@)), ("l"@,
        hex_json(value.linkage@)), ("lx"@, hex_json(value.linkage_challenge@)), ("p"@,
        points_json(value.bit_product@)), ("x"@, scalars_json(value.bit_challenges@))])
}

fn range_challenge_value(value: &RangeChallenge) -> (document: Value)
    ensures
        document@ == range_challenge_json(*value),
{
    let entries = vec![
        ("c".to_owned(), hex_value(&value.context_digest)),
        ("f".to_owned(), points_value(&value.bit_factor)),
        ("l".to_owned(), hex_value(&value.linkage.bytes)),
        ("lx".to_owned(), hex_value(&value.linkage_challenge.bytes)),
        ("p".to_owned(), points_value(&value.bit_product)),
        ("x".to_owned(), scalars_value(&value.bit_challenges)),
    ];
    assert(entries_said(entries@) =~= seq![("c"@, hex_json(value.context_digest@)), ("f"@,
        points_json(value.bit_factor@)), ("l"@, hex_json(value.linkage@)), ("lx"@,
        hex_json(value.linkage_challenge@)), ("p"@, points_json(value.bit_product@)), ("x"@,
        scalars_json(value.bit_challenges@))]);
    object(entries)
}

/// The document of one opening round1.
pub open spec fn opening_round1_json(value: OpeningRound1) -> Json {
    object_json(seq![("c"@, hex_json(value.context_digest@)), ("n"@, hex_json(value.nonce_commitment@))])
}

fn opening_round1_value(value: &OpeningRound1) -> (document: Value)
    ensures
        document@ == opening_round1_json(*value),
{
    let entries = vec![
        ("c".to_owned(), hex_value(&value.context_digest)),
        ("n".to_owned(), hex_value(&value.nonce_commitment.bytes)),
    ];
    assert(entries_said(entries@) =~= seq![("c"@, hex_json(value.context_digest@)), ("n"@,
        hex_json(value.nonce_commitment@))]);
    object(entries)
}

/// The document of one opening challenge.
pub open spec fn opening_challenge_json(value: OpeningChallenge) -> Json {
    object_json(seq![("c"@, hex_json(value.context_digest@)), ("n"@, hex_json(value.nonce_commitment@)), ("x"@,
        hex_json(value.challenge@))])
}

fn opening_challenge_value(value: &OpeningChallenge) -> (document: Value)
    ensures
        document@ == opening_challenge_json(*value),
{
    let entries = vec![
        ("c".to_owned(), hex_value(&value.context_digest)),
        ("n".to_owned(), hex_value(&value.nonce_commitment.bytes)),
        ("x".to_owned(), hex_value(&value.challenge.bytes)),
    ];
    assert(entries_said(entries@) =~= seq![("c"@, hex_json(value.context_digest@)), ("n"@,
        hex_json(value.nonce_commitment@)), ("x"@, hex_json(value.challenge@))]);
    object(entries)
}

/// The document of the committed relations of one range.
pub open spec fn range_relation_json(value: RangeRelationEvaluations) -> Json {
    points_json(value.bits@)
}

/// The document of three scalars.
pub open spec fn triple_json(value: (Scalar, Scalar, Scalar)) -> Json {
    scalars_json(seq![value.0, value.1, value.2])
}

/// The document of two scalars.
pub open spec fn pair_json(value: (Scalar, Scalar)) -> Json {
    scalars_json(seq![value.0, value.1])
}

fn triple_value(value: (Scalar, Scalar, Scalar)) -> (document: Value)
    ensures
        document@ == triple_json(value),
{
    let scalars = vec![value.0, value.1, value.2];
    assert(scalars@ =~= seq![value.0, value.1, value.2]);
    scalars_value(&scalars)
}

fn pair_value(value: (Scalar, Scalar)) -> (document: Value)
    ensures
        document@ == pair_json(value),
{
    let scalars = vec![value.0, value.1];
    assert(scalars@ =~= seq![value.0, value.1]);
    scalars_value(&scalars)
}

/// The document of a node's answers for one product.
pub open spec fn product_round2_json(value: ProductRound2) -> Json {
    triple_json((value.factor_answer, value.factor_blinding_answer, value.relation_answer))
}

/// The document of a node's answers for one range.
pub open spec fn range_round2_json(value: RangeRound2) -> Json {
    object_json(
        seq![
            ("b"@, Json::Array(value.bit_answers@.map_values(|t: (Scalar, Scalar, Scalar)| triple_json(t)))),
            ("l"@, pair_json(value.linkage_answer)),
        ],
    )
}

fn triples_value(values: &Vec<(Scalar, Scalar, Scalar)>) -> (value: Value)
    ensures
        value@ == Json::Array(values@.map_values(|t: (Scalar, Scalar, Scalar)| triple_json(t))),
{
    let mut documents: Vec<Value> = Vec::new();
    let mut i: usize = 0;
    while i < values.len()
        invariant
            i <= values@.len(),
            documents@.len() == i,
            forall|j: int| 0 <= j < i ==> (#[trigger] documents@[j])@ == triple_json(values@[j]),
        decreases values@.len() - i,
    {
        documents.push(triple_value((values[i].0, values[i].1, values[i].2)));
        i = i + 1;
    }
    let value = array(documents);
    assert(documents@.map_values(|v: Value| v@) =~= (Json::Array(values@.map_values(|t: (Scalar, Scalar,
        Scalar)| triple_json(t))))->Array_0);
    value
}

fn range_round2_value(value: &RangeRound2) -> (document: Value)
    ensures
        document@ == range_round2_json(*value),
{
    let entries = vec![
        ("b".to_owned(), triples_value(&value.bit_answers)),
        ("l".to_owned(), pair_value((value.linkage_answer.0, value.linkage_answer.1))),
    ];
    assert(entries_said(entries@) =~= seq![
        ("b"@, Json::Array(value.bit_answers@.map_values(|t: (Scalar, Scalar, Scalar)| triple_json(t)))),
        ("l"@, pair_json(value.linkage_answer)),
    ]);
    object(entries)
}

/// The document of a list.
pub open spec fn wires_json(values: Seq<WireEvaluation>) -> Json {
    Json::Array(values.map_values(|v: WireEvaluation| hex_json(v.point@)))
}

fn wires_value(values: &Vec<WireEvaluation>) -> (value: Value)
    ensures
        value@ == wires_json(values@),
{
    let mut documents: Vec<Value> = Vec::new();
    let mut i: usize = 0;
    while i < values.len()
        invariant
            i <= values@.len(),
            documents@.len() == i,
            forall|j: int| 0 <= j < i ==> (#[trigger] documents@[j])@ == hex_json(values@[j].point@),
        decreases values@.len() - i,
    {
        documents.push(hex_value(&values[i].point.bytes));
        i = i + 1;
    }
    let value = array(documents);
    assert(documents@.map_values(|v: Value| v@) =~= (wires_json(values@))->Array_0);
    value
}

/// The document of a list.
pub open spec fn range_evaluations_list_json(values: Seq<RangeEvaluations>) -> Json {
    Json::Array(values.map_values(|v: RangeEvaluations| range_evaluations_json(v)))
}

fn range_evaluations_list_value(values: &Vec<RangeEvaluations>) -> (value: Value)
    ensures
        value@ == range_evaluations_list_json(values@),
{
    let mut documents: Vec<Value> = Vec::new();
    let mut i: usize = 0;
    while i < values.len()
        invariant
            i <= values@.len(),
            documents@.len() == i,
            forall|j: int| 0 <= j < i ==> (#[trigger] documents@[j])@ == range_evaluations_json(values@[j]),
        decreases values@.len() - i,
    {
        documents.push(range_evaluations_value(&values[i]));
        i = i + 1;
    }
    let value = array(documents);
    assert(documents@.map_values(|v: Value| v@) =~= (range_evaluations_list_json(values@))->Array_0);
    value
}

/// The document of a list.
pub open spec fn product_evaluations_list_json(values: Seq<ProductEvaluations>) -> Json {
    Json::Array(values.map_values(|v: ProductEvaluations| product_evaluations_json(v)))
}

fn product_evaluations_list_value(values: &Vec<ProductEvaluations>) -> (value: Value)
    ensures
        value@ == product_evaluations_list_json(values@),
{
    let mut documents: Vec<Value> = Vec::new();
    let mut i: usize = 0;
    while i < values.len()
        invariant
            i <= values@.len(),
            documents@.len() == i,
            forall|j: int| 0 <= j < i ==> (#[trigger] documents@[j])@ == product_evaluations_json(values@[j]),
        decreases values@.len() - i,
    {
        documents.push(product_evaluations_value(&values[i]));
        i = i + 1;
    }
    let value = array(documents);
    assert(documents@.map_values(|v: Value| v@) =~= (product_evaluations_list_json(values@))->Array_0);
    value
}

/// The document of a list.
pub open spec fn range_relations_list_json(values: Seq<RangeRelationEvaluations>) -> Json {
    Json::Array(values.map_values(|v: RangeRelationEvaluations| range_relation_json(v)))
}

fn range_relations_list_value(values: &Vec<RangeRelationEvaluations>) -> (value: Value)
    ensures
        value@ == range_relations_list_json(values@),
{
    let mut documents: Vec<Value> = Vec::new();
    let mut i: usize = 0;
    while i < values.len()
        invariant
            i <= values@.len(),
            documents@.len() == i,
            forall|j: int| 0 <= j < i ==> (#[trigger] documents@[j])@ == range_relation_json(values@[j]),
        decreases values@.len() - i,
    {
        documents.push(points_value(&values[i].bits));
        i = i + 1;
    }
    let value = array(documents);
    assert(documents@.map_values(|v: Value| v@) =~= (range_relations_list_json(values@))->Array_0);
    value
}

/// The document of a list.
pub open spec fn product_seals_list_json(values: Seq<ProductRound1Seal>) -> Json {
    Json::Array(values.map_values(|v: ProductRound1Seal| hex_json(v.digest@)))
}

fn product_seals_list_value(values: &Vec<ProductRound1Seal>) -> (value: Value)
    ensures
        value@ == product_seals_list_json(values@),
{
    let mut documents: Vec<Value> = Vec::new();
    let mut i: usize = 0;
    while i < values.len()
        invariant
            i <= values@.len(),
            documents@.len() == i,
            forall|j: int| 0 <= j < i ==> (#[trigger] documents@[j])@ == hex_json(values@[j].digest@),
        decreases values@.len() - i,
    {
        documents.push(hex_value(&values[i].digest));
        i = i + 1;
    }
    let value = array(documents);
    assert(documents@.map_values(|v: Value| v@) =~= (product_seals_list_json(values@))->Array_0);
    value
}

/// The document of a list.
pub open spec fn range_seals_list_json(values: Seq<RangeRound1Seal>) -> Json {
    Json::Array(values.map_values(|v: RangeRound1Seal| hex_json(v.digest@)))
}

fn range_seals_list_value(values: &Vec<RangeRound1Seal>) -> (value: Value)
    ensures
        value@ == range_seals_list_json(values@),
{
    let mut documents: Vec<Value> = Vec::new();
    let mut i: usize = 0;
    while i < values.len()
        invariant
            i <= values@.len(),
            documents@.len() == i,
            forall|j: int| 0 <= j < i ==> (#[trigger] documents@[j])@ == hex_json(values@[j].digest@),
        decreases values@.len() - i,
    {
        documents.push(hex_value(&values[i].digest));
        i = i + 1;
    }
    let value = array(documents);
    assert(documents@.map_values(|v: Value| v@) =~= (range_seals_list_json(values@))->Array_0);
    value
}

/// The document of a list.
pub open spec fn product_round1_list_json(values: Seq<ProductRound1>) -> Json {
    Json::Array(values.map_values(|v: ProductRound1| product_round1_json(v)))
}

fn product_round1_list_value(values: &Vec<ProductRound1>) -> (value: Value)
    ensures
        value@ == product_round1_list_json(values@),
{
    let mut documents: Vec<Value> = Vec::new();
    let mut i: usize = 0;
    while i < values.len()
        invariant
            i <= values@.len(),
            documents@.len() == i,
            forall|j: int| 0 <= j < i ==> (#[trigger] documents@[j])@ == product_round1_json(values@[j]),
        decreases values@.len() - i,
    {
        documents.push(product_round1_value(&values[i]));
        i = i + 1;
    }
    let value = array(documents);
    assert(documents@.map_values(|v: Value| v@) =~= (product_round1_list_json(values@))->Array_0);
    value
}

/// The document of a list.
pub open spec fn range_round1_list_json(values: Seq<RangeRound1>) -> Json {
    Json::Array(values.map_values(|v: RangeRound1| range_round1_json(v)))
}

fn range_round1_list_value(values: &Vec<RangeRound1>) -> (value: Value)
    ensures
        value@ == range_round1_list_json(values@),
{
    let mut documents: Vec<Value> = Vec::new();
    let mut i: usize = 0;
    while i < values.len()
        invariant
            i <= values@.len(),
            documents@.len() == i,
            forall|j: int| 0 <= j < i ==> (#[trigger] documents@[j])@ == range_round1_json(values@[j]),
        decreases values@.len() - i,
    {
        documents.push(range_round1_value(&values[i]));
        i = i + 1;
    }
    let value = array(documents);
    assert(documents@.map_values(|v: Value| v@) =~= (range_round1_list_json(values@))->Array_0);
    value
}

/// The document of a list.
pub open spec fn product_challenge_list_json(values: Seq<ProductChallenge>) -> Json {
    Json::Array(values.map_values(|v: ProductChallenge| product_challenge_json(v)))
}

fn product_challenge_list_value(values: &Vec<ProductChallenge>) -> (value: Value)
    ensures
        value@ == product_challenge_list_json(values@),
{
    let mut documents: Vec<Value> = Vec::new();
    let mut i: usize = 0;
    while i < values.len()
        invariant
            i <= values@.len(),
            documents@.len() == i,
            forall|j: int| 0 <= j < i ==> (#[trigger] documents@[j])@ == product_challenge_json(values@[j]),
        decreases values@.len() - i,
    {
        documents.push(product_challenge_value(&values[i]));
        i = i + 1;
    }
    let value = array(documents);
    assert(documents@.map_values(|v: Value| v@) =~= (product_challenge_list_json(values@))->Array_0);
    value
}

/// The document of a list.
pub open spec fn range_challenge_list_json(values: Seq<RangeChallenge>) -> Json {
    Json::Array(values.map_values(|v: RangeChallenge| range_challenge_json(v)))
}

fn range_challenge_list_value(values: &Vec<RangeChallenge>) -> (value: Value)
    ensures
        value@ == range_challenge_list_json(values@),
{
    let mut documents: Vec<Value> = Vec::new();
    let mut i: usize = 0;
    while i < values.len()
        invariant
            i <= values@.len(),
            documents@.len() == i,
            forall|j: int| 0 <= j < i ==> (#[trigger] documents@[j])@ == range_challenge_json(values@[j]),
        decreases values@.len() - i,
    {
        documents.push(range_challenge_value(&values[i]));
        i = i + 1;
    }
    let value = array(documents);
    assert(documents@.map_values(|v: Value| v@) =~= (range_challenge_list_json(values@))->Array_0);
    value
}

/// The document of a list.
pub open spec fn product_round2_list_json(values: Seq<ProductRound2>) -> Json {
    Json::Array(values.map_values(|v: ProductRound2| product_round2_json(v)))
}

fn product_round2_list_value(values: &Vec<ProductRound2>) -> (value: Value)
    ensures
        value@ == product_round2_list_json(values@),
{
    let mut documents: Vec<Value> = Vec::new();
    let mut i: usize = 0;
    while i < values.len()
        invariant
            i <= values@.len(),
            documents@.len() == i,
            forall|j: int| 0 <= j < i ==> (#[trigger] documents@[j])@ == product_round2_json(values@[j]),
        decreases values@.len() - i,
    {
        documents.push(triple_value((values[i].factor_answer, values[i].factor_blinding_answer,
            values[i].relation_answer)));
        i = i + 1;
    }
    let value = array(documents);
    assert(documents@.map_values(|v: Value| v@) =~= (product_round2_list_json(values@))->Array_0);
    value
}

/// The document of a list.
pub open spec fn range_round2_list_json(values: Seq<RangeRound2>) -> Json {
    Json::Array(values.map_values(|v: RangeRound2| range_round2_json(v)))
}

fn range_round2_list_value(values: &Vec<RangeRound2>) -> (value: Value)
    ensures
        value@ == range_round2_list_json(values@),
{
    let mut documents: Vec<Value> = Vec::new();
    let mut i: usize = 0;
    while i < values.len()
        invariant
            i <= values@.len(),
            documents@.len() == i,
            forall|j: int| 0 <= j < i ==> (#[trigger] documents@[j])@ == range_round2_json(values@[j]),
        decreases values@.len() - i,
    {
        documents.push(range_round2_value(&values[i]));
        i = i + 1;
    }
    let value = array(documents);
    assert(documents@.map_values(|v: Value| v@) =~= (range_round2_list_json(values@))->Array_0);
    value
}

/// The document of a quorum.
pub open spec fn quorum_json(quorum: Seq<usize>) -> Json {
    Json::Array(quorum.map_values(|p: usize| Json::Integer(p as int)))
}

fn quorum_value(values: &Vec<usize>) -> (value: Value)
    ensures
        value@ == quorum_json(values@),
{
    let mut documents: Vec<Value> = Vec::new();
    let mut i: usize = 0;
    while i < values.len()
        invariant
            i <= values@.len(),
            documents@.len() == i,
            forall|j: int| 0 <= j < i ==> (#[trigger] documents@[j])@ == Json::Integer(values@[j] as int),
        decreases values@.len() - i,
    {
        documents.push(Value::Integer(values[i] as i128));
        i = i + 1;
    }
    let value = array(documents);
    assert(documents@.map_values(|v: Value| v@) =~= (quorum_json(values@))->Array_0);
    value
}

/// Why a party has no place on the wire.
pub open spec fn party_unfit(party: nat) -> Option<Seq<char>> {
    if party == 0 || party > u16::MAX {
        Some("quote wire party is outside its canonical range"@)
    } else {
        None
    }
}

fn check_party(party: usize) -> (r: Result<(), String>)
    ensures
        match r {
            Ok(_) => party_unfit(party as nat) is None,
            Err(e) => party_unfit(party as nat) == Some(e@),
        },
{
    if party == 0 || party > 0xffff {
        return Err("quote wire party is outside its canonical range".to_owned());
    }
    Ok(())
}

/// Why the first party of a list has no place on the wire.
pub open spec fn parties_unfit(parties: Seq<usize>) -> Option<Seq<char>> {
    if exists|i: int| 0 <= i < parties.len() && party_unfit((#[trigger] parties[i]) as nat) is Some {
        Some("quote wire party is outside its canonical range"@)
    } else {
        None
    }
}

/// Whether a list names a party twice.
pub open spec fn repeats(parties: Seq<usize>) -> bool {
    exists|i: int, j: int| 0 <= i < j < parties.len() && #[trigger] parties[i] == #[trigger] parties[j]
}

/// Whether a list names a party twice.
pub fn has_repeat(parties: &Vec<usize>) -> (r: bool)
    ensures
        r == repeats(parties@),
{
    let mut i: usize = 0;
    while i < parties.len()
        invariant
            i <= parties@.len(),
            forall|a: int, b: int| 0 <= a < b < i ==> #[trigger] parties@[a] != #[trigger] parties@[b],
        decreases parties@.len() - i,
    {
        let mut j: usize = 0;
        while j < i
            invariant
                j <= i < parties@.len(),
                forall|a: int| 0 <= a < j ==> #[trigger] parties@[a] != parties@[i as int],
            decreases i - j,
        {
            if parties[j] == parties[i] {
                return true;
            }
            j = j + 1;
        }
        i = i + 1;
    }
    false
}

/// Why a quorum has no place on the wire.
pub open spec fn quorum_unfit(quorum: Seq<usize>) -> Option<Seq<char>> {
    either(
        length_refusal(quorum.len(), 1, MAX_PARTIES as nat, "quote quorum"@),
        if repeats(quorum) {
            Some("quote quorum contains a duplicate party"@)
        } else {
            parties_unfit(quorum)
        },
    )
}

fn check_quorum(quorum: &Vec<usize>) -> (r: Result<(), String>)
    ensures
        match r {
            Ok(_) => quorum_unfit(quorum@) is None,
            Err(e) => quorum_unfit(quorum@) == Some(e@),
        },
{
    match bounded(quorum.len(), 1, MAX_PARTIES, "quote quorum") {
        Err(e) => {
            return Err(e);
        },
        Ok(_) => {},
    }
    if has_repeat(quorum) {
        return Err("quote quorum contains a duplicate party".to_owned());
    }
    let mut i: usize = 0;
    while i < quorum.len()
        invariant
            i <= quorum@.len(),
            length_refusal(quorum@.len(), 1, MAX_PARTIES as nat, "quote quorum"@) is None,
            !repeats(quorum@),
            forall|j: int| 0 <= j < i ==> party_unfit((#[trigger] quorum@[j]) as nat) is None,
        decreases quorum@.len() - i,
    {
        match check_party(quorum[i]) {
            Err(e) => {
                assert(party_unfit(quorum@[i as int] as nat) is Some);
                return Err(e);
            },
            Ok(_) => {},
        }
        i = i + 1;
    }
    Ok(())
}

/// Whether two quorums are the same list.
pub fn same_quorum(a: &Vec<usize>, b: &Vec<usize>) -> (r: bool)
    ensures
        r == (a@ == b@),
{
    if a.len() != b.len() {
        return false;
    }
    let mut i: usize = 0;
    while i < a.len()
        invariant
            i <= a@.len(),
            a@.len() == b@.len(),
            forall|j: int| 0 <= j < i ==> a@[j] == b@[j],
        decreases a@.len() - i,
    {
        if a[i] != b[i] {
            return false;
        }
        i = i + 1;
    }
    assert(a@ =~= b@);
    true
}

/// Why one entry has no place on the wire.
pub open spec fn range_evaluations_unfit(value: RangeEvaluations) -> Option<Seq<char>> {
    length_refusal(value.bits@.len(), 1, MAX_RANGE_BITS as nat, "range bits"@)
}

/// Why the first entry of a list that has no place on the wire has none.
pub open spec fn range_evaluations_list_unfit(values: Seq<RangeEvaluations>) -> Option<Seq<char>>
    decreases values.len(),
{
    if values.len() == 0 {
        None
    } else {
        either(range_evaluations_list_unfit(values.drop_last()), range_evaluations_unfit(values.last()))
    }
}

proof fn range_evaluations_unfit_at(values: Seq<RangeEvaluations>, at: int)
    requires
        0 <= at < values.len(),
        range_evaluations_list_unfit(values.take(at)) is None,
    ensures
        range_evaluations_unfit(values[at]) is Some ==> range_evaluations_list_unfit(values)
            == range_evaluations_unfit(values[at]),
        range_evaluations_list_unfit(values.take(at + 1)) == range_evaluations_unfit(values[at]),
    decreases values.len(),
{
    assert(values.take(at + 1).drop_last() =~= values.take(at));
    if at < values.len() - 1 {
        assert(values.drop_last().take(at) =~= values.take(at));
        range_evaluations_unfit_at(values.drop_last(), at);
    } else {
        assert(values.take(at) =~= values.drop_last());
    }
}

/// Every entry of a list that has a place on the wire has one.
pub proof fn range_evaluations_all_fit(values: Seq<RangeEvaluations>)
    requires
        range_evaluations_list_unfit(values) is None,
    ensures
        forall|i: int| 0 <= i < values.len() ==> range_evaluations_unfit(#[trigger] values[i]) is None,
    decreases values.len(),
{
    if values.len() > 0 {
        range_evaluations_all_fit(values.drop_last());
        assert forall|i: int| 0 <= i < values.len() implies range_evaluations_unfit(#[trigger] values[i]) is None by {
            if i < values.len() - 1 {
                assert(values.drop_last()[i] == values[i]);
            }
        }
    }
}

fn check_range_evaluations(value: &RangeEvaluations) -> (r: Result<(), String>)
    ensures
        match r {
            Ok(_) => range_evaluations_unfit(*value) is None,
            Err(e) => range_evaluations_unfit(*value) == Some(e@),
        },
{
    bounded(value.bits.len(), 1, MAX_RANGE_BITS, "range bits")
}

fn check_range_evaluations_list(values: &Vec<RangeEvaluations>) -> (r: Result<(), String>)
    ensures
        match r {
            Ok(_) => range_evaluations_list_unfit(values@) is None,
            Err(e) => range_evaluations_list_unfit(values@) == Some(e@),
        },
{
    let mut i: usize = 0;
    while i < values.len()
        invariant
            i <= values@.len(),
            range_evaluations_list_unfit(values@.take(i as int)) is None,
        decreases values@.len() - i,
    {
        proof {
            range_evaluations_unfit_at(values@, i as int);
        }
        match check_range_evaluations(&values[i]) {
            Err(e) => {
                return Err(e);
            },
            Ok(_) => {},
        }
        i = i + 1;
    }
    assert(values@.take(i as int) =~= values@);
    Ok(())
}

/// Why one entry has no place on the wire.
pub open spec fn range_relation_unfit(value: RangeRelationEvaluations) -> Option<Seq<char>> {
    length_refusal(value.bits@.len(), 1, MAX_RANGE_BITS as nat, "range relations"@)
}

/// Why the first entry of a list that has no place on the wire has none.
pub open spec fn range_relation_list_unfit(values: Seq<RangeRelationEvaluations>) -> Option<Seq<char>>
    decreases values.len(),
{
    if values.len() == 0 {
        None
    } else {
        either(range_relation_list_unfit(values.drop_last()), range_relation_unfit(values.last()))
    }
}

proof fn range_relation_unfit_at(values: Seq<RangeRelationEvaluations>, at: int)
    requires
        0 <= at < values.len(),
        range_relation_list_unfit(values.take(at)) is None,
    ensures
        range_relation_unfit(values[at]) is Some ==> range_relation_list_unfit(values)
            == range_relation_unfit(values[at]),
        range_relation_list_unfit(values.take(at + 1)) == range_relation_unfit(values[at]),
    decreases values.len(),
{
    assert(values.take(at + 1).drop_last() =~= values.take(at));
    if at < values.len() - 1 {
        assert(values.drop_last().take(at) =~= values.take(at));
        range_relation_unfit_at(values.drop_last(), at);
    } else {
        assert(values.take(at) =~= values.drop_last());
    }
}

/// Every entry of a list that has a place on the wire has one.
pub proof fn range_relation_all_fit(values: Seq<RangeRelationEvaluations>)
    requires
        range_relation_list_unfit(values) is None,
    ensures
        forall|i: int| 0 <= i < values.len() ==> range_relation_unfit(#[trigger] values[i]) is None,
    decreases values.len(),
{
    if values.len() > 0 {
        range_relation_all_fit(values.drop_last());
        assert forall|i: int| 0 <= i < values.len() implies range_relation_unfit(#[trigger] values[i]) is None by {
            if i < values.len() - 1 {
                assert(values.drop_last()[i] == values[i]);
            }
        }
    }
}

fn check_range_relation(value: &RangeRelationEvaluations) -> (r: Result<(), String>)
    ensures
        match r {
            Ok(_) => range_relation_unfit(*value) is None,
            Err(e) => range_relation_unfit(*value) == Some(e@),
        },
{
    bounded(value.bits.len(), 1, MAX_RANGE_BITS, "range relations")
}

fn check_range_relation_list(values: &Vec<RangeRelationEvaluations>) -> (r: Result<(), String>)
    ensures
        match r {
            Ok(_) => range_relation_list_unfit(values@) is None,
            Err(e) => range_relation_list_unfit(values@) == Some(e@),
        },
{
    let mut i: usize = 0;
    while i < values.len()
        invariant
            i <= values@.len(),
            range_relation_list_unfit(values@.take(i as int)) is None,
        decreases values@.len() - i,
    {
        proof {
            range_relation_unfit_at(values@, i as int);
        }
        match check_range_relation(&values[i]) {
            Err(e) => {
                return Err(e);
            },
            Ok(_) => {},
        }
        i = i + 1;
    }
    assert(values@.take(i as int) =~= values@);
    Ok(())
}

/// Why one entry has no place on the wire.
pub open spec fn range_round1_unfit(value: RangeRound1) -> Option<Seq<char>> {
    if value.bit_factor@.len() != value.bit_product@.len() {
        Some("range round one has different factor/product lengths"@)
    } else {
        length_refusal(value.bit_factor@.len(), 1, MAX_RANGE_BITS as nat, "range round-one bits"@)
    }
}

/// Why the first entry of a list that has no place on the wire has none.
pub open spec fn range_round1_list_unfit(values: Seq<RangeRound1>) -> Option<Seq<char>>
    decreases values.len(),
{
    if values.len() == 0 {
        None
    } else {
        either(range_round1_list_unfit(values.drop_last()), range_round1_unfit(values.last()))
    }
}

proof fn range_round1_unfit_at(values: Seq<RangeRound1>, at: int)
    requires
        0 <= at < values.len(),
        range_round1_list_unfit(values.take(at)) is None,
    ensures
        range_round1_unfit(values[at]) is Some ==> range_round1_list_unfit(values) == range_round1_unfit(values[at]),
        range_round1_list_unfit(values.take(at + 1)) == range_round1_unfit(values[at]),
    decreases values.len(),
{
    assert(values.take(at + 1).drop_last() =~= values.take(at));
    if at < values.len() - 1 {
        assert(values.drop_last().take(at) =~= values.take(at));
        range_round1_unfit_at(values.drop_last(), at);
    } else {
        assert(values.take(at) =~= values.drop_last());
    }
}

/// Every entry of a list that has a place on the wire has one.
pub proof fn range_round1_all_fit(values: Seq<RangeRound1>)
    requires
        range_round1_list_unfit(values) is None,
    ensures
        forall|i: int| 0 <= i < values.len() ==> range_round1_unfit(#[trigger] values[i]) is None,
    decreases values.len(),
{
    if values.len() > 0 {
        range_round1_all_fit(values.drop_last());
        assert forall|i: int| 0 <= i < values.len() implies range_round1_unfit(#[trigger] values[i]) is None by {
            if i < values.len() - 1 {
                assert(values.drop_last()[i] == values[i]);
            }
        }
    }
}

fn check_range_round1(value: &RangeRound1) -> (r: Result<(), String>)
    ensures
        match r {
            Ok(_) => range_round1_unfit(*value) is None,
            Err(e) => range_round1_unfit(*value) == Some(e@),
        },
{
    if value.bit_factor.len() != value.bit_product.len() {
        Err("range round one has different factor/product lengths".to_owned())
    } else {
        bounded(value.bit_factor.len(), 1, MAX_RANGE_BITS, "range round-one bits")
    }
}

fn check_range_round1_list(values: &Vec<RangeRound1>) -> (r: Result<(), String>)
    ensures
        match r {
            Ok(_) => range_round1_list_unfit(values@) is None,
            Err(e) => range_round1_list_unfit(values@) == Some(e@),
        },
{
    let mut i: usize = 0;
    while i < values.len()
        invariant
            i <= values@.len(),
            range_round1_list_unfit(values@.take(i as int)) is None,
        decreases values@.len() - i,
    {
        proof {
            range_round1_unfit_at(values@, i as int);
        }
        match check_range_round1(&values[i]) {
            Err(e) => {
                return Err(e);
            },
            Ok(_) => {},
        }
        i = i + 1;
    }
    assert(values@.take(i as int) =~= values@);
    Ok(())
}

/// Why one entry has no place on the wire.
pub open spec fn range_challenge_unfit(value: RangeChallenge) -> Option<Seq<char>> {
    if value.bit_factor@.len() != value.bit_product@.len() || value.bit_factor@.len() != value.bit_challenges@.len() {
        Some("range challenge has different component lengths"@)
    } else {
        length_refusal(value.bit_factor@.len(), 1, MAX_RANGE_BITS as nat, "range challenge bits"@)
    }
}

/// Why the first entry of a list that has no place on the wire has none.
pub open spec fn range_challenge_list_unfit(values: Seq<RangeChallenge>) -> Option<Seq<char>>
    decreases values.len(),
{
    if values.len() == 0 {
        None
    } else {
        either(range_challenge_list_unfit(values.drop_last()), range_challenge_unfit(values.last()))
    }
}

proof fn range_challenge_unfit_at(values: Seq<RangeChallenge>, at: int)
    requires
        0 <= at < values.len(),
        range_challenge_list_unfit(values.take(at)) is None,
    ensures
        range_challenge_unfit(values[at]) is Some ==> range_challenge_list_unfit(values)
            == range_challenge_unfit(values[at]),
        range_challenge_list_unfit(values.take(at + 1)) == range_challenge_unfit(values[at]),
    decreases values.len(),
{
    assert(values.take(at + 1).drop_last() =~= values.take(at));
    if at < values.len() - 1 {
        assert(values.drop_last().take(at) =~= values.take(at));
        range_challenge_unfit_at(values.drop_last(), at);
    } else {
        assert(values.take(at) =~= values.drop_last());
    }
}

/// Every entry of a list that has a place on the wire has one.
pub proof fn range_challenge_all_fit(values: Seq<RangeChallenge>)
    requires
        range_challenge_list_unfit(values) is None,
    ensures
        forall|i: int| 0 <= i < values.len() ==> range_challenge_unfit(#[trigger] values[i]) is None,
    decreases values.len(),
{
    if values.len() > 0 {
        range_challenge_all_fit(values.drop_last());
        assert forall|i: int| 0 <= i < values.len() implies range_challenge_unfit(#[trigger] values[i]) is None by {
            if i < values.len() - 1 {
                assert(values.drop_last()[i] == values[i]);
            }
        }
    }
}

fn check_range_challenge(value: &RangeChallenge) -> (r: Result<(), String>)
    ensures
        match r {
            Ok(_) => range_challenge_unfit(*value) is None,
            Err(e) => range_challenge_unfit(*value) == Some(e@),
        },
{
    if value.bit_factor.len() != value.bit_product.len() || value.bit_factor.len() != value.bit_challenges.len() {
        Err("range challenge has different component lengths".to_owned())
    } else {
        bounded(value.bit_factor.len(), 1, MAX_RANGE_BITS, "range challenge bits")
    }
}

fn check_range_challenge_list(values: &Vec<RangeChallenge>) -> (r: Result<(), String>)
    ensures
        match r {
            Ok(_) => range_challenge_list_unfit(values@) is None,
            Err(e) => range_challenge_list_unfit(values@) == Some(e@),
        },
{
    let mut i: usize = 0;
    while i < values.len()
        invariant
            i <= values@.len(),
            range_challenge_list_unfit(values@.take(i as int)) is None,
        decreases values@.len() - i,
    {
        proof {
            range_challenge_unfit_at(values@, i as int);
        }
        match check_range_challenge(&values[i]) {
            Err(e) => {
                return Err(e);
            },
            Ok(_) => {},
        }
        i = i + 1;
    }
    assert(values@.take(i as int) =~= values@);
    Ok(())
}

/// Why one entry has no place on the wire.
pub open spec fn range_round2_unfit(value: RangeRound2) -> Option<Seq<char>> {
    length_refusal(value.bit_answers@.len(), 1, MAX_RANGE_BITS as nat, "range responses"@)
}

/// Why the first entry of a list that has no place on the wire has none.
pub open spec fn range_round2_list_unfit(values: Seq<RangeRound2>) -> Option<Seq<char>>
    decreases values.len(),
{
    if values.len() == 0 {
        None
    } else {
        either(range_round2_list_unfit(values.drop_last()), range_round2_unfit(values.last()))
    }
}

proof fn range_round2_unfit_at(values: Seq<RangeRound2>, at: int)
    requires
        0 <= at < values.len(),
        range_round2_list_unfit(values.take(at)) is None,
    ensures
        range_round2_unfit(values[at]) is Some ==> range_round2_list_unfit(values) == range_round2_unfit(values[at]),
        range_round2_list_unfit(values.take(at + 1)) == range_round2_unfit(values[at]),
    decreases values.len(),
{
    assert(values.take(at + 1).drop_last() =~= values.take(at));
    if at < values.len() - 1 {
        assert(values.drop_last().take(at) =~= values.take(at));
        range_round2_unfit_at(values.drop_last(), at);
    } else {
        assert(values.take(at) =~= values.drop_last());
    }
}

/// Every entry of a list that has a place on the wire has one.
pub proof fn range_round2_all_fit(values: Seq<RangeRound2>)
    requires
        range_round2_list_unfit(values) is None,
    ensures
        forall|i: int| 0 <= i < values.len() ==> range_round2_unfit(#[trigger] values[i]) is None,
    decreases values.len(),
{
    if values.len() > 0 {
        range_round2_all_fit(values.drop_last());
        assert forall|i: int| 0 <= i < values.len() implies range_round2_unfit(#[trigger] values[i]) is None by {
            if i < values.len() - 1 {
                assert(values.drop_last()[i] == values[i]);
            }
        }
    }
}

fn check_range_round2(value: &RangeRound2) -> (r: Result<(), String>)
    ensures
        match r {
            Ok(_) => range_round2_unfit(*value) is None,
            Err(e) => range_round2_unfit(*value) == Some(e@),
        },
{
    bounded(value.bit_answers.len(), 1, MAX_RANGE_BITS, "range responses")
}

fn check_range_round2_list(values: &Vec<RangeRound2>) -> (r: Result<(), String>)
    ensures
        match r {
            Ok(_) => range_round2_list_unfit(values@) is None,
            Err(e) => range_round2_list_unfit(values@) == Some(e@),
        },
{
    let mut i: usize = 0;
    while i < values.len()
        invariant
            i <= values@.len(),
            range_round2_list_unfit(values@.take(i as int)) is None,
        decreases values@.len() - i,
    {
        proof {
            range_round2_unfit_at(values@, i as int);
        }
        match check_range_round2(&values[i]) {
            Err(e) => {
                return Err(e);
            },
            Ok(_) => {},
        }
        i = i + 1;
    }
    assert(values@.take(i as int) =~= values@);
    Ok(())
}

/// The document of the body of a message.
pub open spec fn evaluations_json(value: QuoteNodeEvaluations) -> Json {
    object_json(seq![("party"@, Json::Integer(value.party as int)), ("wires"@, wires_json(value.wires@)), ("ranges"@,
        range_evaluations_list_json(value.ranges@))])
}

fn evaluations_value(value: &QuoteNodeEvaluations) -> (document: Value)
    ensures
        document@ == evaluations_json(*value),
{
    let entries = vec![
        ("party".to_owned(), Value::Integer(value.party as i128)),
        ("wires".to_owned(), wires_value(&value.wires)),
        ("ranges".to_owned(), range_evaluations_list_value(&value.ranges)),
    ];
    assert(entries_said(entries@) =~= seq![("party"@, Json::Integer(value.party as int)), ("wires"@,
        wires_json(value.wires@)), ("ranges"@, range_evaluations_list_json(value.ranges@))]);
    object(entries)
}

/// Why a message has no place on the wire.
pub open spec fn evaluations_unfit(value: QuoteNodeEvaluations) -> Option<Seq<char>> {
    either(
        length_refusal(value.wires@.len(), 1, MAX_WIRE_POINTS as nat, "quote wires"@),
        either(
            length_refusal(value.ranges@.len(), 1, MAX_RANGES as nat, "quote ranges"@),
            either(party_unfit(value.party as nat), range_evaluations_list_unfit(value.ranges@)),
        ),
    )
}

fn check_evaluations(value: &QuoteNodeEvaluations) -> (r: Result<(), String>)
    ensures
        match r {
            Ok(_) => evaluations_unfit(*value) is None,
            Err(e) => evaluations_unfit(*value) == Some(e@),
        },
{
    match bounded(value.wires.len(), 1, MAX_WIRE_POINTS, "quote wires") {
        Err(e) => {
            return Err(e);
        },
        Ok(_) => {},
    }
    match bounded(value.ranges.len(), 1, MAX_RANGES, "quote ranges") {
        Err(e) => {
            return Err(e);
        },
        Ok(_) => {},
    }
    match check_party(value.party) {
        Err(e) => {
            return Err(e);
        },
        Ok(_) => {},
    }
    check_range_evaluations_list(&value.ranges)
}

/// The document of the body of a message.
pub open spec fn relations_json(value: QuoteRelationEvaluations) -> Json {
    object_json(seq![("party"@, Json::Integer(value.party as int)), ("products"@,
        product_evaluations_list_json(value.products@)), ("ranges"@, range_relations_list_json(value.ranges@))])
}

fn relations_value(value: &QuoteRelationEvaluations) -> (document: Value)
    ensures
        document@ == relations_json(*value),
{
    let entries = vec![
        ("party".to_owned(), Value::Integer(value.party as i128)),
        ("products".to_owned(), product_evaluations_list_value(&value.products)),
        ("ranges".to_owned(), range_relations_list_value(&value.ranges)),
    ];
    assert(entries_said(entries@) =~= seq![("party"@, Json::Integer(value.party as int)), ("products"@,
        product_evaluations_list_json(value.products@)), ("ranges"@, range_relations_list_json(value.ranges@))]);
    object(entries)
}

/// Why a message has no place on the wire.
pub open spec fn relations_unfit(value: QuoteRelationEvaluations) -> Option<Seq<char>> {
    either(
        length_refusal(value.products@.len(), 1, MAX_PRODUCTS as nat, "quote products"@),
        either(
            length_refusal(value.ranges@.len(), 1, MAX_RANGES as nat, "quote ranges"@),
            either(party_unfit(value.party as nat), range_relation_list_unfit(value.ranges@)),
        ),
    )
}

fn check_relations(value: &QuoteRelationEvaluations) -> (r: Result<(), String>)
    ensures
        match r {
            Ok(_) => relations_unfit(*value) is None,
            Err(e) => relations_unfit(*value) == Some(e@),
        },
{
    match bounded(value.products.len(), 1, MAX_PRODUCTS, "quote products") {
        Err(e) => {
            return Err(e);
        },
        Ok(_) => {},
    }
    match bounded(value.ranges.len(), 1, MAX_RANGES, "quote ranges") {
        Err(e) => {
            return Err(e);
        },
        Ok(_) => {},
    }
    match check_party(value.party) {
        Err(e) => {
            return Err(e);
        },
        Ok(_) => {},
    }
    check_range_relation_list(&value.ranges)
}

/// The document of the body of a message.
pub open spec fn seals_json(value: QuoteRound1Seals) -> Json {
    object_json(seq![("party"@, Json::Integer(value.party as int)), ("products"@,
        product_seals_list_json(value.products@)), ("ranges"@, range_seals_list_json(value.ranges@)), ("winner"@,
        hex_json(value.winner.digest@))])
}

fn seals_value(value: &QuoteRound1Seals) -> (document: Value)
    ensures
        document@ == seals_json(*value),
{
    let entries = vec![
        ("party".to_owned(), Value::Integer(value.party as i128)),
        ("products".to_owned(), product_seals_list_value(&value.products)),
        ("ranges".to_owned(), range_seals_list_value(&value.ranges)),
        ("winner".to_owned(), hex_value(&value.winner.digest)),
    ];
    assert(entries_said(entries@) =~= seq![("party"@, Json::Integer(value.party as int)), ("products"@,
        product_seals_list_json(value.products@)), ("ranges"@, range_seals_list_json(value.ranges@)), ("winner"@,
        hex_json(value.winner.digest@))]);
    object(entries)
}

/// Why a message has no place on the wire.
pub open spec fn seals_unfit(value: QuoteRound1Seals) -> Option<Seq<char>> {
    either(
        length_refusal(value.products@.len(), 1, MAX_PRODUCTS as nat, "quote product seals"@),
        either(
            length_refusal(value.ranges@.len(), 1, MAX_RANGES as nat, "quote range seals"@),
            either(party_unfit(value.party as nat), None),
        ),
    )
}

fn check_seals(value: &QuoteRound1Seals) -> (r: Result<(), String>)
    ensures
        match r {
            Ok(_) => seals_unfit(*value) is None,
            Err(e) => seals_unfit(*value) == Some(e@),
        },
{
    match bounded(value.products.len(), 1, MAX_PRODUCTS, "quote product seals") {
        Err(e) => {
            return Err(e);
        },
        Ok(_) => {},
    }
    match bounded(value.ranges.len(), 1, MAX_RANGES, "quote range seals") {
        Err(e) => {
            return Err(e);
        },
        Ok(_) => {},
    }
    match check_party(value.party) {
        Err(e) => {
            return Err(e);
        },
        Ok(_) => {},
    }
    Ok(())
}

/// The document of the body of a message.
pub open spec fn round1_json(value: QuoteRound1) -> Json {
    object_json(seq![("party"@, Json::Integer(value.party as int)), ("products"@,
        product_round1_list_json(value.products@)), ("ranges"@, range_round1_list_json(value.ranges@)), ("winner"@,
        opening_round1_json(value.winner))])
}

fn round1_value(value: &QuoteRound1) -> (document: Value)
    ensures
        document@ == round1_json(*value),
{
    let entries = vec![
        ("party".to_owned(), Value::Integer(value.party as i128)),
        ("products".to_owned(), product_round1_list_value(&value.products)),
        ("ranges".to_owned(), range_round1_list_value(&value.ranges)),
        ("winner".to_owned(), opening_round1_value(&value.winner)),
    ];
    assert(entries_said(entries@) =~= seq![("party"@, Json::Integer(value.party as int)), ("products"@,
        product_round1_list_json(value.products@)), ("ranges"@, range_round1_list_json(value.ranges@)), ("winner"@,
        opening_round1_json(value.winner))]);
    object(entries)
}

/// Why a message has no place on the wire.
pub open spec fn round1_unfit(value: QuoteRound1) -> Option<Seq<char>> {
    either(
        length_refusal(value.products@.len(), 1, MAX_PRODUCTS as nat, "quote product rounds"@),
        either(
            length_refusal(value.ranges@.len(), 1, MAX_RANGES as nat, "quote range rounds"@),
            either(party_unfit(value.party as nat), range_round1_list_unfit(value.ranges@)),
        ),
    )
}

fn check_round1(value: &QuoteRound1) -> (r: Result<(), String>)
    ensures
        match r {
            Ok(_) => round1_unfit(*value) is None,
            Err(e) => round1_unfit(*value) == Some(e@),
        },
{
    match bounded(value.products.len(), 1, MAX_PRODUCTS, "quote product rounds") {
        Err(e) => {
            return Err(e);
        },
        Ok(_) => {},
    }
    match bounded(value.ranges.len(), 1, MAX_RANGES, "quote range rounds") {
        Err(e) => {
            return Err(e);
        },
        Ok(_) => {},
    }
    match check_party(value.party) {
        Err(e) => {
            return Err(e);
        },
        Ok(_) => {},
    }
    check_range_round1_list(&value.ranges)
}

/// The document of the body of a message.
pub open spec fn challenge_json(value: QuoteChallenges) -> Json {
    object_json(seq![("quorum"@, quorum_json(value.winner.quorum@)), ("products"@,
        product_challenge_list_json(value.products@)), ("ranges"@, range_challenge_list_json(value.ranges@)),
        ("winner"@, opening_challenge_json(value.winner))])
}

fn challenge_value(value: &QuoteChallenges) -> (document: Value)
    ensures
        document@ == challenge_json(*value),
{
    let entries = vec![
        ("quorum".to_owned(), quorum_value(&value.winner.quorum)),
        ("products".to_owned(), product_challenge_list_value(&value.products)),
        ("ranges".to_owned(), range_challenge_list_value(&value.ranges)),
        ("winner".to_owned(), opening_challenge_value(&value.winner)),
    ];
    assert(entries_said(entries@) =~= seq![("quorum"@, quorum_json(value.winner.quorum@)), ("products"@,
        product_challenge_list_json(value.products@)), ("ranges"@, range_challenge_list_json(value.ranges@)),
        ("winner"@, opening_challenge_json(value.winner))]);
    object(entries)
}

/// Whether the challenges name different quorums.
pub open spec fn challenges_differ(value: QuoteChallenges) -> bool {
    ||| exists|i: int|
        0 <= i < value.products@.len() && (#[trigger] value.products@[i]).quorum@ != value.winner.quorum@
    ||| exists|i: int| 0 <= i < value.ranges@.len() && (#[trigger] value.ranges@[i]).quorum@ != value.winner.quorum@
}

fn differ(value: &QuoteChallenges) -> (r: bool)
    ensures
        r == challenges_differ(*value),
{
    let mut i: usize = 0;
    while i < value.products.len()
        invariant
            i <= value.products@.len(),
            forall|j: int|
                0 <= j < i ==> (#[trigger] value.products@[j]).quorum@ == value.winner.quorum@,
        decreases value.products@.len() - i,
    {
        if !same_quorum(&value.products[i].quorum, &value.winner.quorum) {
            return true;
        }
        i = i + 1;
    }
    let mut k: usize = 0;
    while k < value.ranges.len()
        invariant
            k <= value.ranges@.len(),
            forall|j: int|
                0 <= j < value.products@.len() ==> (#[trigger] value.products@[j]).quorum@ == value.winner.quorum@,
            forall|j: int| 0 <= j < k ==> (#[trigger] value.ranges@[j]).quorum@ == value.winner.quorum@,
        decreases value.ranges@.len() - k,
    {
        if !same_quorum(&value.ranges[k].quorum, &value.winner.quorum) {
            return true;
        }
        k = k + 1;
    }
    false
}

/// Why a message has no place on the wire.
pub open spec fn challenge_unfit(value: QuoteChallenges) -> Option<Seq<char>> {
    either(
        length_refusal(value.products@.len(), 1, MAX_PRODUCTS as nat, "quote product challenges"@),
        either(
            length_refusal(value.ranges@.len(), 1, MAX_RANGES as nat, "quote range challenges"@),
            either(
                quorum_unfit(value.winner.quorum@),
                if challenges_differ(value) {
                    Some("quote challenges name different quorums"@)
                } else {
                    range_challenge_list_unfit(value.ranges@)
                },
            ),
        ),
    )
}

fn check_challenge(value: &QuoteChallenges) -> (r: Result<(), String>)
    ensures
        match r {
            Ok(_) => challenge_unfit(*value) is None,
            Err(e) => challenge_unfit(*value) == Some(e@),
        },
{
    match bounded(value.products.len(), 1, MAX_PRODUCTS, "quote product challenges") {
        Err(e) => {
            return Err(e);
        },
        Ok(_) => {},
    }
    match bounded(value.ranges.len(), 1, MAX_RANGES, "quote range challenges") {
        Err(e) => {
            return Err(e);
        },
        Ok(_) => {},
    }
    match check_quorum(&value.winner.quorum) {
        Err(e) => {
            return Err(e);
        },
        Ok(_) => {},
    }
    if differ(value) {
        return Err("quote challenges name different quorums".to_owned());
    }
    check_range_challenge_list(&value.ranges)
}

/// The document of the body of a message.
pub open spec fn round2_json(value: QuoteRound2) -> Json {
    object_json(seq![("party"@, Json::Integer(value.party as int)), ("products"@,
        product_round2_list_json(value.products@)), ("ranges"@, range_round2_list_json(value.ranges@)), ("winner"@,
        pair_json((value.winner.value_answer, value.winner.blinding_answer)))])
}

fn round2_value(value: &QuoteRound2) -> (document: Value)
    ensures
        document@ == round2_json(*value),
{
    let entries = vec![
        ("party".to_owned(), Value::Integer(value.party as i128)),
        ("products".to_owned(), product_round2_list_value(&value.products)),
        ("ranges".to_owned(), range_round2_list_value(&value.ranges)),
        ("winner".to_owned(), pair_value((value.winner.value_answer, value.winner.blinding_answer))),
    ];
    assert(entries_said(entries@) =~= seq![("party"@, Json::Integer(value.party as int)), ("products"@,
        product_round2_list_json(value.products@)), ("ranges"@, range_round2_list_json(value.ranges@)), ("winner"@,
        pair_json((value.winner.value_answer, value.winner.blinding_answer)))]);
    object(entries)
}

/// Why a message has no place on the wire.
pub open spec fn round2_unfit(value: QuoteRound2) -> Option<Seq<char>> {
    either(
        length_refusal(value.products@.len(), 1, MAX_PRODUCTS as nat, "quote product responses"@),
        either(
            length_refusal(value.ranges@.len(), 1, MAX_RANGES as nat, "quote range responses"@),
            either(party_unfit(value.party as nat), range_round2_list_unfit(value.ranges@)),
        ),
    )
}

fn check_round2(value: &QuoteRound2) -> (r: Result<(), String>)
    ensures
        match r {
            Ok(_) => round2_unfit(*value) is None,
            Err(e) => round2_unfit(*value) == Some(e@),
        },
{
    match bounded(value.products.len(), 1, MAX_PRODUCTS, "quote product responses") {
        Err(e) => {
            return Err(e);
        },
        Ok(_) => {},
    }
    match bounded(value.ranges.len(), 1, MAX_RANGES, "quote range responses") {
        Err(e) => {
            return Err(e);
        },
        Ok(_) => {},
    }
    match check_party(value.party) {
        Err(e) => {
            return Err(e);
        },
        Ok(_) => {},
    }
    check_range_round2_list(&value.ranges)
}

/// Why an envelope has no place on the wire.
pub open spec fn unfit(message: Message) -> Option<Seq<char>> {
    match message {
        Message::Evaluations(value) => evaluations_unfit(value),
        Message::RelationEvaluations(value) => relations_unfit(value),
        Message::Round1Seal(value) => seals_unfit(value),
        Message::Round1(value) => round1_unfit(value),
        Message::Challenge(value) => challenge_unfit(value),
        Message::Round2(value) => round2_unfit(value),
    }
}

/// The name of the kind of a message.
pub open spec fn kind_of(message: Message) -> Seq<char> {
    match message {
        Message::Evaluations(_) => "evaluations"@,
        Message::RelationEvaluations(_) => "relations"@,
        Message::Round1Seal(_) => "round1-seal"@,
        Message::Round1(_) => "round1"@,
        Message::Challenge(_) => "challenge"@,
        Message::Round2(_) => "round2"@,
    }
}

/// The document of the body of a message.
pub open spec fn body_json(message: Message) -> Json {
    match message {
        Message::Evaluations(value) => evaluations_json(value),
        Message::RelationEvaluations(value) => relations_json(value),
        Message::Round1Seal(value) => seals_json(value),
        Message::Round1(value) => round1_json(value),
        Message::Challenge(value) => challenge_json(value),
        Message::Round2(value) => round2_json(value),
    }
}

/// The document of an envelope.
pub open spec fn envelope_json(envelope: Envelope) -> Json {
    object_json(
        seq![
            ("body"@, body_json(envelope.message)),
            ("job"@, hex_json(envelope.job_id@)),
            ("kind"@, Json::Text(kind_of(envelope.message))),
            ("version"@, Json::Integer(1)),
        ],
    )
}

/// A member of a plain object is plain.
pub proof fn field_plain(fields: Map<Seq<char>, Json>, name: Seq<char>, levels: nat)
    requires
        Json::Object(fields).plain(levels + 1),
        fields.dom().contains(name),
    ensures
        fields[name].plain(levels),
{
    let document = Json::Object(fields);
    assert(document.plain(levels + 1));
    assert(document->Object_0.dom().contains(name));
    assert(document->Object_0[name].plain((levels + 1 - 1) as nat));
}

/// An object whose members are plain is plain.
pub proof fn object_plain(fields: Seq<(Seq<char>, Json)>, levels: nat)
    requires
        forall|i: int| 0 <= i < fields.len() ==> (#[trigger] fields[i]).1.plain(levels),
    ensures
        object_json(fields).plain(levels + 1),
    decreases fields.len(),
{
    reveal_with_fuel(Json::plain, 2);
    if fields.len() > 0 {
        let rest = fields.drop_last();
        assert forall|i: int| 0 <= i < rest.len() implies (#[trigger] rest[i]).1.plain(levels) by {
            assert(fields[i].1.plain(levels));
        }
        object_plain(rest, levels);
        let all = object_map(fields);
        assert forall|name: Seq<char>| #[trigger] all.dom().contains(name) implies all[name].plain(levels) by {
            if name != fields.last().0 {
                let inner = object_map(rest);
                assert(Json::Object(inner).plain(levels + 1));
                field_plain(inner, name, levels);
            } else {
                assert(fields[fields.len() - 1].1.plain(levels));
            }
        }
    }
}

proof fn points_plain(points: Seq<Point>, levels: nat)
    requires
        levels > 0,
    ensures
        points_json(points).plain(levels + 1),
{
    reveal_with_fuel(Json::plain, 2);
}

proof fn scalars_plain(scalars: Seq<Scalar>, levels: nat)
    requires
        levels > 0,
    ensures
        scalars_json(scalars).plain(levels + 1),
{
    reveal_with_fuel(Json::plain, 2);
}

proof fn product_evaluations_plain(value: ProductEvaluations, levels: nat)
    requires
        levels > 0,
    ensures
        product_evaluations_json(value).plain(levels + 2),
{
    object_plain(seq![("f"@, hex_json(value.factor@)), ("r"@, hex_json(value.relation@))], levels + 1);
}

proof fn product_round1_plain(value: ProductRound1, levels: nat)
    requires
        levels > 0,
    ensures
        product_round1_json(value).plain(levels + 2),
{
    object_plain(seq![("c"@, hex_json(value.context_digest@)), ("f"@, hex_json(value.factor@)), ("p"@,
        hex_json(value.product@))], levels + 1);
}

proof fn product_challenge_plain(value: ProductChallenge, levels: nat)
    requires
        levels > 0,
    ensures
        product_challenge_json(value).plain(levels + 2),
{
    object_plain(seq![("c"@, hex_json(value.context_digest@)), ("f"@, hex_json(value.factor@)), ("p"@,
        hex_json(value.product@)), ("x"@, hex_json(value.challenge@))], levels + 1);
}

proof fn range_evaluations_plain(value: RangeEvaluations, levels: nat)
    requires
        levels > 0,
    ensures
        range_evaluations_json(value).plain(levels + 2),
{
    points_plain(value.bits@, levels);
    object_plain(seq![("b"@, points_json(value.bits@)), ("v"@, hex_json(value.value@))], levels + 1);
}

proof fn range_round1_plain(value: RangeRound1, levels: nat)
    requires
        levels > 0,
    ensures
        range_round1_json(value).plain(levels + 2),
{
    points_plain(value.bit_factor@, levels);
    points_plain(value.bit_product@, levels);
    object_plain(seq![("c"@, hex_json(value.context_digest@)), ("f"@, points_json(value.bit_factor@)), ("l"@,
        hex_json(value.linkage@)), ("p"@, points_json(value.bit_product@))], levels + 1);
}

proof fn range_challenge_plain(value: RangeChallenge, levels: nat)
    requires
        levels > 0,
    ensures
        range_challenge_json(value).plain(levels + 2),
{
    points_plain(value.bit_factor@, levels);
    points_plain(value.bit_product@, levels);
    scalars_plain(value.bit_challenges@, levels);
    object_plain(seq![("c"@, hex_json(value.context_digest@)), ("f"@, points_json(value.bit_factor@)), ("l"@,
        hex_json(value.linkage@)), ("lx"@, hex_json(value.linkage_challenge@)), ("p"@,
        points_json(value.bit_product@)), ("x"@, scalars_json(value.bit_challenges@))], levels + 1);
}

proof fn opening_round1_plain(value: OpeningRound1, levels: nat)
    requires
        levels > 0,
    ensures
        opening_round1_json(value).plain(levels + 2),
{
    object_plain(seq![("c"@, hex_json(value.context_digest@)), ("n"@, hex_json(value.nonce_commitment@))], levels + 1);
}

proof fn opening_challenge_plain(value: OpeningChallenge, levels: nat)
    requires
        levels > 0,
    ensures
        opening_challenge_json(value).plain(levels + 2),
{
    object_plain(seq![("c"@, hex_json(value.context_digest@)), ("n"@, hex_json(value.nonce_commitment@)), ("x"@,
        hex_json(value.challenge@))], levels + 1);
}

proof fn range_round2_plain(value: RangeRound2, levels: nat)
    requires
        levels > 0,
    ensures
        range_round2_json(value).plain(levels + 3),
{
    let triples = value.bit_answers@.map_values(|t: (Scalar, Scalar, Scalar)| triple_json(t));
    assert forall|i: int| 0 <= i < triples.len() implies (#[trigger] triples[i]).plain(levels + 1) by {
        let t = value.bit_answers@[i];
        scalars_plain(seq![t.0, t.1, t.2], levels);
    }
    scalars_plain(seq![value.linkage_answer.0, value.linkage_answer.1], levels + 1);
    object_plain(seq![("b"@, Json::Array(triples)), ("l"@, pair_json(value.linkage_answer))], levels + 2);
}

proof fn wires_plain(values: Seq<WireEvaluation>)
    ensures
        wires_json(values).plain(6),
{
    let all = wires_json(values)->Array_0;
    assert forall|i: int| 0 <= i < all.len() implies (#[trigger] all[i]).plain(5) by {
        let value = values[i];
    }
}

proof fn range_evaluations_list_plain(values: Seq<RangeEvaluations>)
    ensures
        range_evaluations_list_json(values).plain(6),
{
    let all = range_evaluations_list_json(values)->Array_0;
    assert forall|i: int| 0 <= i < all.len() implies (#[trigger] all[i]).plain(5) by {
        let value = values[i];
        range_evaluations_plain(value, 3);
    }
}

proof fn product_evaluations_list_plain(values: Seq<ProductEvaluations>)
    ensures
        product_evaluations_list_json(values).plain(6),
{
    let all = product_evaluations_list_json(values)->Array_0;
    assert forall|i: int| 0 <= i < all.len() implies (#[trigger] all[i]).plain(5) by {
        let value = values[i];
        product_evaluations_plain(value, 3);
    }
}

proof fn range_relations_list_plain(values: Seq<RangeRelationEvaluations>)
    ensures
        range_relations_list_json(values).plain(6),
{
    let all = range_relations_list_json(values)->Array_0;
    assert forall|i: int| 0 <= i < all.len() implies (#[trigger] all[i]).plain(5) by {
        let value = values[i];
        points_plain(value.bits@, 4);
    }
}

proof fn product_seals_list_plain(values: Seq<ProductRound1Seal>)
    ensures
        product_seals_list_json(values).plain(6),
{
    let all = product_seals_list_json(values)->Array_0;
    assert forall|i: int| 0 <= i < all.len() implies (#[trigger] all[i]).plain(5) by {
        let value = values[i];
    }
}

proof fn range_seals_list_plain(values: Seq<RangeRound1Seal>)
    ensures
        range_seals_list_json(values).plain(6),
{
    let all = range_seals_list_json(values)->Array_0;
    assert forall|i: int| 0 <= i < all.len() implies (#[trigger] all[i]).plain(5) by {
        let value = values[i];
    }
}

proof fn product_round1_list_plain(values: Seq<ProductRound1>)
    ensures
        product_round1_list_json(values).plain(6),
{
    let all = product_round1_list_json(values)->Array_0;
    assert forall|i: int| 0 <= i < all.len() implies (#[trigger] all[i]).plain(5) by {
        let value = values[i];
        product_round1_plain(value, 3);
    }
}

proof fn range_round1_list_plain(values: Seq<RangeRound1>)
    ensures
        range_round1_list_json(values).plain(6),
{
    let all = range_round1_list_json(values)->Array_0;
    assert forall|i: int| 0 <= i < all.len() implies (#[trigger] all[i]).plain(5) by {
        let value = values[i];
        range_round1_plain(value, 3);
    }
}

proof fn product_challenge_list_plain(values: Seq<ProductChallenge>)
    ensures
        product_challenge_list_json(values).plain(6),
{
    let all = product_challenge_list_json(values)->Array_0;
    assert forall|i: int| 0 <= i < all.len() implies (#[trigger] all[i]).plain(5) by {
        let value = values[i];
        product_challenge_plain(value, 3);
    }
}

proof fn range_challenge_list_plain(values: Seq<RangeChallenge>)
    ensures
        range_challenge_list_json(values).plain(6),
{
    let all = range_challenge_list_json(values)->Array_0;
    assert forall|i: int| 0 <= i < all.len() implies (#[trigger] all[i]).plain(5) by {
        let value = values[i];
        range_challenge_plain(value, 3);
    }
}

proof fn product_round2_list_plain(values: Seq<ProductRound2>)
    ensures
        product_round2_list_json(values).plain(6),
{
    let all = product_round2_list_json(values)->Array_0;
    assert forall|i: int| 0 <= i < all.len() implies (#[trigger] all[i]).plain(5) by {
        let value = values[i];
        scalars_plain(seq![value.factor_answer, value.factor_blinding_answer, value.relation_answer], 4);
    }
}

proof fn range_round2_list_plain(values: Seq<RangeRound2>)
    ensures
        range_round2_list_json(values).plain(6),
{
    let all = range_round2_list_json(values)->Array_0;
    assert forall|i: int| 0 <= i < all.len() implies (#[trigger] all[i]).plain(5) by {
        let value = values[i];
        range_round2_plain(value, 2);
    }
}

proof fn quorum_plain(quorum: Seq<usize>)
    ensures
        quorum_json(quorum).plain(6),
{
    reveal_with_fuel(Json::plain, 2);
}

proof fn evaluations_plain(value: QuoteNodeEvaluations)
    ensures
        evaluations_json(value).plain(7),
{
    wires_plain(value.wires@);
    range_evaluations_list_plain(value.ranges@);
    object_plain(seq![("party"@, Json::Integer(value.party as int)), ("wires"@, wires_json(value.wires@)), ("ranges"@,
        range_evaluations_list_json(value.ranges@))], 6);
}

proof fn relations_plain(value: QuoteRelationEvaluations)
    ensures
        relations_json(value).plain(7),
{
    product_evaluations_list_plain(value.products@);
    range_relations_list_plain(value.ranges@);
    object_plain(seq![("party"@, Json::Integer(value.party as int)), ("products"@,
        product_evaluations_list_json(value.products@)), ("ranges"@, range_relations_list_json(value.ranges@))], 6);
}

proof fn seals_plain(value: QuoteRound1Seals)
    ensures
        seals_json(value).plain(7),
{
    product_seals_list_plain(value.products@);
    range_seals_list_plain(value.ranges@);
    object_plain(seq![("party"@, Json::Integer(value.party as int)), ("products"@,
        product_seals_list_json(value.products@)), ("ranges"@, range_seals_list_json(value.ranges@)), ("winner"@,
        hex_json(value.winner.digest@))], 6);
}

proof fn round1_plain(value: QuoteRound1)
    ensures
        round1_json(value).plain(7),
{
    product_round1_list_plain(value.products@);
    range_round1_list_plain(value.ranges@);
    opening_round1_plain(value.winner, 4);
    object_plain(seq![("party"@, Json::Integer(value.party as int)), ("products"@,
        product_round1_list_json(value.products@)), ("ranges"@, range_round1_list_json(value.ranges@)), ("winner"@,
        opening_round1_json(value.winner))], 6);
}

proof fn challenge_plain(value: QuoteChallenges)
    ensures
        challenge_json(value).plain(7),
{
    quorum_plain(value.winner.quorum@);
    product_challenge_list_plain(value.products@);
    range_challenge_list_plain(value.ranges@);
    opening_challenge_plain(value.winner, 4);
    object_plain(seq![("quorum"@, quorum_json(value.winner.quorum@)), ("products"@,
        product_challenge_list_json(value.products@)), ("ranges"@, range_challenge_list_json(value.ranges@)),
        ("winner"@, opening_challenge_json(value.winner))], 6);
}

proof fn round2_plain(value: QuoteRound2)
    ensures
        round2_json(value).plain(7),
{
    product_round2_list_plain(value.products@);
    range_round2_list_plain(value.ranges@);
    scalars_plain(seq![value.winner.value_answer, value.winner.blinding_answer], 5);
    object_plain(seq![("party"@, Json::Integer(value.party as int)), ("products"@,
        product_round2_list_json(value.products@)), ("ranges"@, range_round2_list_json(value.ranges@)), ("winner"@,
        pair_json((value.winner.value_answer, value.winner.blinding_answer)))], 6);
}

/// A plain document is plain under a higher bound.
pub proof fn plain_grows(value: Json, low: nat, high: nat)
    requires
        value.plain(low),
        low <= high,
    ensures
        value.plain(high),
    decreases low,
{
    match value {
        Json::Array(values) => {
            assert forall|i: int| 0 <= i < values.len() implies (#[trigger] values[i]).plain((high - 1) as nat) by {
                plain_grows(values[i], (low - 1) as nat, (high - 1) as nat);
            }
        },
        Json::Object(fields) => {
            assert forall|name: Seq<char>| #[trigger] fields.dom().contains(name) implies fields[name].plain(
                (high - 1) as nat,
            ) by {
                plain_grows(fields[name], (low - 1) as nat, (high - 1) as nat);
            }
        },
        _ => {},
    }
}

proof fn envelope_plain(envelope: Envelope)
    ensures
        envelope_json(envelope).plain(MAX_NESTING as nat),
{
    match envelope.message {
        Message::Evaluations(value) => {
            evaluations_plain(value);
        },
        Message::RelationEvaluations(value) => {
            relations_plain(value);
        },
        Message::Round1Seal(value) => {
            seals_plain(value);
        },
        Message::Round1(value) => {
            round1_plain(value);
        },
        Message::Challenge(value) => {
            challenge_plain(value);
        },
        Message::Round2(value) => {
            round2_plain(value);
        },
    }
    object_plain(
        seq![
            ("body"@, body_json(envelope.message)),
            ("job"@, hex_json(envelope.job_id@)),
            ("kind"@, Json::Text(kind_of(envelope.message))),
            ("version"@, Json::Integer(1)),
        ],
        7,
    );
    plain_grows(envelope_json(envelope), 8, MAX_NESTING as nat);
}

/// Encodes a public round.
pub fn encode(envelope: &Envelope) -> (r: Result<Vec<u8>, String>)
    ensures
        match r {
            Ok(raw) => {
                &&& unfit(envelope.message) is None
                &&& raw@ == json_text(envelope_json(*envelope))
                &&& json_document(raw@) == Some(envelope_json(*envelope))
            },
            Err(e) => unfit(envelope.message) == Some(e@),
        },
{
    let (kind, body) = match &envelope.message {
        Message::Evaluations(value) => {
            match check_evaluations(value) {
                Err(e) => {
                    return Err(e);
                },
                Ok(_) => {},
            }
            ("evaluations".to_owned(), evaluations_value(value))
        },
        Message::RelationEvaluations(value) => {
            match check_relations(value) {
                Err(e) => {
                    return Err(e);
                },
                Ok(_) => {},
            }
            ("relations".to_owned(), relations_value(value))
        },
        Message::Round1Seal(value) => {
            match check_seals(value) {
                Err(e) => {
                    return Err(e);
                },
                Ok(_) => {},
            }
            ("round1-seal".to_owned(), seals_value(value))
        },
        Message::Round1(value) => {
            match check_round1(value) {
                Err(e) => {
                    return Err(e);
                },
                Ok(_) => {},
            }
            ("round1".to_owned(), round1_value(value))
        },
        Message::Challenge(value) => {
            match check_challenge(value) {
                Err(e) => {
                    return Err(e);
                },
                Ok(_) => {},
            }
            ("challenge".to_owned(), challenge_value(value))
        },
        Message::Round2(value) => {
            match check_round2(value) {
                Err(e) => {
                    return Err(e);
                },
                Ok(_) => {},
            }
            ("round2".to_owned(), round2_value(value))
        },
    };
    let entries = vec![
        ("body".to_owned(), body),
        ("job".to_owned(), hex_value(&envelope.job_id)),
        ("kind".to_owned(), Value::Text(kind)),
        ("version".to_owned(), Value::Integer(1)),
    ];
    proof {
        assert(entries_said(entries@) =~= seq![
            ("body"@, body_json(envelope.message)),
            ("job"@, hex_json(envelope.job_id@)),
            ("kind"@, Json::Text(kind_of(envelope.message))),
            ("version"@, Json::Integer(1)),
        ]);
        envelope_plain(*envelope);
    }
    let document = object(entries);
    Ok(print_document(&document))
}

} // verus!
