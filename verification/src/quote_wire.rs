//! Reading the public rounds of the complete quote proof off the wire.

use vstd::prelude::*;
use crate::fields::{
    array_refusal, check_object, either, first, first_at, hex_in, hex_refusal, items, object_refusal, parse_array,
    parse_hex, parse_point, parse_points, parse_scalar, parse_scalars, point_refusal, points_refusal, points_said,
    scalar_refusal, scalars_refusal, scalars_said,
};
use crate::group::{is_point, is_scalar, Scalar};
use crate::json::{as_text, as_unsigned, json_document, parse_json, said, text_in, unsigned_in, Json, Value};
use crate::quote_messages::{
    has_repeat, kind_of, repeats, Envelope, Message, OpeningChallenge, OpeningRound1, OpeningRound1Seal,
    OpeningRound2, ProductChallenge, ProductEvaluations, ProductRound1, ProductRound1Seal, ProductRound2,
    QuoteChallenges, QuoteNodeEvaluations, QuoteRelationEvaluations, QuoteRound1, QuoteRound1Seals, QuoteRound2,
    RangeChallenge, RangeEvaluations, RangeRelationEvaluations, RangeRound1, RangeRound1Seal, RangeRound2,
    WireEvaluation, MAX_PARTIES, MAX_PRODUCTS, MAX_RANGES, MAX_RANGE_BITS, MAX_WIRE_POINTS, VERSION,
};
use crate::text::same_text;

verus! {

/// Why a document is not a party.
pub open spec fn party_refusal(value: Option<Json>) -> Option<Seq<char>> {
    match unsigned_in(value) {
        Some(n) => if 0 < n <= u16::MAX {
            None
        } else {
            Some("quote wire party is invalid"@)
        },
        None => Some("quote wire party is invalid"@),
    }
}

fn parse_party(value: Option<&Value>) -> (r: Result<usize, String>)
    ensures
        match r {
            Ok(party) => party_refusal(said(value)) is None && unsigned_in(said(value)) == Some(party as nat),
            Err(e) => party_refusal(said(value)) == Some(e@),
        },
{
    match as_unsigned(value) {
        Some(n) => if 0 < n && n <= 0xffff {
            Ok(n as usize)
        } else {
            Err("quote wire party is invalid".to_owned())
        },
        None => Err("quote wire party is invalid".to_owned()),
    }
}

/// The check that an element is a party.
pub open spec fn party_check() -> spec_fn(Json) -> Option<Seq<char>> {
    |element: Json| party_refusal(Some(element))
}

/// The parties that a list names.
pub open spec fn parties_in(value: Option<Json>) -> Seq<usize> {
    items(value).map_values(|element: Json| unsigned_in(Some(element))->0 as usize)
}

/// Why a document is not a quorum.
pub open spec fn quorum_refusal(value: Option<Json>) -> Option<Seq<char>> {
    either(
        array_refusal(value, "quote quorum"@, MAX_PARTIES as nat),
        either(
            first(items(value), party_check()),
            if repeats(parties_in(value)) {
                Some("quote quorum contains a duplicate party"@)
            } else {
                None
            },
        ),
    )
}

fn parse_quorum(value: Option<&Value>) -> (r: Result<Vec<usize>, String>)
    ensures
        match r {
            Ok(quorum) => quorum_refusal(said(value)) is None && quorum@ == parties_in(said(value)),
            Err(e) => quorum_refusal(said(value)) == Some(e@),
        },
{
    let values = match parse_array(value, "quote quorum", MAX_PARTIES) {
        Err(e) => {
            return Err(e);
        },
        Ok(values) => values,
    };
    let ghost all = items(said(value));
    let ghost check = party_check();
    let mut quorum: Vec<usize> = Vec::new();
    let mut i: usize = 0;
    #[verifier::loop_isolation(false)]
    while i < values.len()
        invariant
            i <= values@.len(),
            quorum@.len() == i,
            first(all.take(i as int), check) is None,
            forall|j: int| 0 <= j < i ==> (#[trigger] quorum@[j]) == parties_in(said(value))[j],
        decreases values@.len() - i,
    {
        proof {
            first_at(all, check, i as int);
            assert(all[i as int] == values@[i as int]@);
        }
        match parse_party(Some(&values[i])) {
            Err(e) => {
                return Err(e);
            },
            Ok(party) => {
                quorum.push(party);
            },
        }
        i = i + 1;
    }
    assert(all.take(i as int) =~= all);
    assert(quorum@ =~= parties_in(said(value)));
    if has_repeat(&quorum) {
        return Err("quote quorum contains a duplicate party".to_owned());
    }
    Ok(quorum)
}

fn copy_quorum(quorum: &Vec<usize>) -> (copy: Vec<usize>)
    ensures
        copy@ == quorum@,
{
    let mut copy: Vec<usize> = Vec::new();
    copy.extend_from_slice(quorum.as_slice());
    assert(copy@ =~= quorum@);
    copy
}

/// Why a document is not three scalars.
pub open spec fn triple_refusal(
    value: Option<Json>,
    name: Seq<char>,
    otherwise: Seq<char>,
    a: Seq<char>,
    b: Seq<char>,
    c: Seq<char>,
) -> Option<Seq<char>> {
    either(
        array_refusal(value, name, 3),
        if items(value).len() != 3 {
            Some(otherwise)
        } else {
            either(
                scalar_refusal(Some(items(value)[0]), a),
                either(scalar_refusal(Some(items(value)[1]), b), scalar_refusal(Some(items(value)[2]), c)),
            )
        },
    )
}

/// Whether three scalars are those that a document writes.
pub open spec fn triple_said(value: Option<Json>, scalars: (Scalar, Scalar, Scalar)) -> bool {
    &&& items(value).len() == 3
    &&& scalars.0@ == hex_in(Some(items(value)[0])) && is_scalar(scalars.0@)
    &&& scalars.1@ == hex_in(Some(items(value)[1])) && is_scalar(scalars.1@)
    &&& scalars.2@ == hex_in(Some(items(value)[2])) && is_scalar(scalars.2@)
}

fn parse_triple(value: Option<&Value>, name: &str, otherwise: &str, a: &str, b: &str, c: &str) -> (r: Result<
    (Scalar, Scalar, Scalar),
    String,
>)
    ensures
        match r {
            Ok(scalars) => triple_refusal(said(value), name@, otherwise@, a@, b@, c@) is None && triple_said(
                said(value),
                scalars,
            ),
            Err(e) => triple_refusal(said(value), name@, otherwise@, a@, b@, c@) == Some(e@),
        },
{
    let values = match parse_array(value, name, 3) {
        Err(e) => {
            return Err(e);
        },
        Ok(values) => values,
    };
    if values.len() != 3 {
        return Err(otherwise.to_owned());
    }
    let ghost all = items(said(value));
    assert(all[0] == values@[0]@ && all[1] == values@[1]@ && all[2] == values@[2]@);
    let first_scalar = match parse_scalar(Some(&values[0]), a) {
        Err(e) => {
            return Err(e);
        },
        Ok(s) => s,
    };
    let second_scalar = match parse_scalar(Some(&values[1]), b) {
        Err(e) => {
            return Err(e);
        },
        Ok(s) => s,
    };
    match parse_scalar(Some(&values[2]), c) {
        Err(e) => Err(e),
        Ok(s) => Ok((first_scalar, second_scalar, s)),
    }
}

/// Why a document is not two scalars.
pub open spec fn pair_refusal(
    value: Option<Json>,
    name: Seq<char>,
    otherwise: Seq<char>,
    a: Seq<char>,
    b: Seq<char>,
) -> Option<Seq<char>> {
    either(
        array_refusal(value, name, 2),
        if items(value).len() != 2 {
            Some(otherwise)
        } else {
            either(scalar_refusal(Some(items(value)[0]), a), scalar_refusal(Some(items(value)[1]), b))
        },
    )
}

/// Whether two scalars are those that a document writes.
pub open spec fn pair_said(value: Option<Json>, scalars: (Scalar, Scalar)) -> bool {
    &&& items(value).len() == 2
    &&& scalars.0@ == hex_in(Some(items(value)[0])) && is_scalar(scalars.0@)
    &&& scalars.1@ == hex_in(Some(items(value)[1])) && is_scalar(scalars.1@)
}

fn parse_pair(value: Option<&Value>, name: &str, otherwise: &str, a: &str, b: &str) -> (r: Result<
    (Scalar, Scalar),
    String,
>)
    ensures
        match r {
            Ok(scalars) => pair_refusal(said(value), name@, otherwise@, a@, b@) is None && pair_said(
                said(value),
                scalars,
            ),
            Err(e) => pair_refusal(said(value), name@, otherwise@, a@, b@) == Some(e@),
        },
{
    let values = match parse_array(value, name, 2) {
        Err(e) => {
            return Err(e);
        },
        Ok(values) => values,
    };
    if values.len() != 2 {
        return Err(otherwise.to_owned());
    }
    let ghost all = items(said(value));
    assert(all[0] == values@[0]@ && all[1] == values@[1]@);
    let first_scalar = match parse_scalar(Some(&values[0]), a) {
        Err(e) => {
            return Err(e);
        },
        Ok(s) => s,
    };
    match parse_scalar(Some(&values[1]), b) {
        Err(e) => Err(e),
        Ok(s) => Ok((first_scalar, s)),
    }
}

/// Why a document is not one entry.
pub open spec fn product_evaluations_refusal(value: Json) -> Option<Seq<char>> {
either(
object_refusal(value, "quote product evaluation"@),
either(
point_refusal(value.field("f"@), "product factor"@),
point_refusal(value.field("r"@), "product relation"@)))
}

/// Whether an entry is the one that a document writes.
pub open spec fn product_evaluations_said(value: Json, record: ProductEvaluations) -> bool {
    &&& record.factor@ == hex_in(value.field("f"@)) && is_point(record.factor@)
    &&& record.relation@ == hex_in(value.field("r"@)) && is_point(record.relation@)
}

fn parse_product_evaluations(document: &Value, party: usize) -> (r: Result<ProductEvaluations, String>)
    ensures
        match r {
            Ok(record) => product_evaluations_refusal(document@) is None
                && product_evaluations_said(document@, record) && record.party == party,
            Err(e) => product_evaluations_refusal(document@) == Some(e@),
        },
{
    match check_object(document, "quote product evaluation") {
        Err(e) => {
            return Err(e);
        },
        Ok(_) => {},
    }
    let factor = match parse_point(document.get("f"), "product factor") {
        Err(e) => {
            return Err(e);
        },
        Ok(read) => read,
    };
    let relation = match parse_point(document.get("r"), "product relation") {
        Err(e) => {
            return Err(e);
        },
        Ok(read) => read,
    };
    Ok(ProductEvaluations { party, factor, relation })
}

/// Why a document is not one entry.
pub open spec fn product_round1_refusal(value: Json) -> Option<Seq<char>> {
either(
object_refusal(value, "product round"@),
either(
hex_refusal(value.field("c"@), "product context"@),
either(
point_refusal(value.field("f"@), "product nonce"@),
point_refusal(value.field("p"@), "product relation nonce"@))))
}

/// Whether an entry is the one that a document writes.
pub open spec fn product_round1_said(value: Json, record: ProductRound1) -> bool {
    &&& record.context_digest@ == hex_in(value.field("c"@))
    &&& record.factor@ == hex_in(value.field("f"@)) && is_point(record.factor@)
    &&& record.product@ == hex_in(value.field("p"@)) && is_point(record.product@)
}

fn parse_product_round1(document: &Value, party: usize) -> (r: Result<ProductRound1, String>)
    ensures
        match r {
            Ok(record) => product_round1_refusal(document@) is None && product_round1_said(document@, record)
                && record.party == party,
            Err(e) => product_round1_refusal(document@) == Some(e@),
        },
{
    match check_object(document, "product round") {
        Err(e) => {
            return Err(e);
        },
        Ok(_) => {},
    }
    let context_digest = match parse_hex(document.get("c"), "product context") {
        Err(e) => {
            return Err(e);
        },
        Ok(read) => read,
    };
    let factor = match parse_point(document.get("f"), "product nonce") {
        Err(e) => {
            return Err(e);
        },
        Ok(read) => read,
    };
    let product = match parse_point(document.get("p"), "product relation nonce") {
        Err(e) => {
            return Err(e);
        },
        Ok(read) => read,
    };
    Ok(ProductRound1 { party, context_digest, factor, product })
}

/// Why a document is not one entry.
pub open spec fn product_challenge_refusal(value: Json) -> Option<Seq<char>> {
either(
object_refusal(value, "product challenge"@),
either(
hex_refusal(value.field("c"@), "product context"@),
either(
point_refusal(value.field("f"@), "product nonce"@),
either(
point_refusal(value.field("p"@), "product relation nonce"@),
scalar_refusal(value.field("x"@), "product challenge"@)))))
}

/// Whether an entry is the one that a document writes.
pub open spec fn product_challenge_said(value: Json, record: ProductChallenge) -> bool {
    &&& record.context_digest@ == hex_in(value.field("c"@))
    &&& record.factor@ == hex_in(value.field("f"@)) && is_point(record.factor@)
    &&& record.product@ == hex_in(value.field("p"@)) && is_point(record.product@)
    &&& record.challenge@ == hex_in(value.field("x"@)) && is_scalar(record.challenge@)
}

fn parse_product_challenge(document: &Value, quorum: &Vec<usize>) -> (r: Result<ProductChallenge, String>)
    ensures
        match r {
            Ok(record) => product_challenge_refusal(document@) is None && product_challenge_said(document@, record)
                && record.quorum@ == quorum@,
            Err(e) => product_challenge_refusal(document@) == Some(e@),
        },
{
    match check_object(document, "product challenge") {
        Err(e) => {
            return Err(e);
        },
        Ok(_) => {},
    }
    let context_digest = match parse_hex(document.get("c"), "product context") {
        Err(e) => {
            return Err(e);
        },
        Ok(read) => read,
    };
    let factor = match parse_point(document.get("f"), "product nonce") {
        Err(e) => {
            return Err(e);
        },
        Ok(read) => read,
    };
    let product = match parse_point(document.get("p"), "product relation nonce") {
        Err(e) => {
            return Err(e);
        },
        Ok(read) => read,
    };
    let challenge = match parse_scalar(document.get("x"), "product challenge") {
        Err(e) => {
            return Err(e);
        },
        Ok(read) => read,
    };
    Ok(ProductChallenge { quorum: copy_quorum(quorum), context_digest, factor, product, challenge })
}

/// Why a document is not one entry.
pub open spec fn range_evaluations_refusal(value: Json) -> Option<Seq<char>> {
either(
object_refusal(value, "range evaluation"@),
either(
point_refusal(value.field("v"@), "range value"@),
points_refusal(value.field("b"@), "range bits"@, MAX_RANGE_BITS as nat)))
}

/// Whether an entry is the one that a document writes.
pub open spec fn range_evaluations_said(value: Json, record: RangeEvaluations) -> bool {
    &&& record.value@ == hex_in(value.field("v"@)) && is_point(record.value@)
    &&& points_said(value.field("b"@), record.bits@)
}

fn parse_range_evaluations(document: &Value, party: usize) -> (r: Result<RangeEvaluations, String>)
    ensures
        match r {
            Ok(record) => range_evaluations_refusal(document@) is None && range_evaluations_said(document@, record)
                && record.party == party,
            Err(e) => range_evaluations_refusal(document@) == Some(e@),
        },
{
    match check_object(document, "range evaluation") {
        Err(e) => {
            return Err(e);
        },
        Ok(_) => {},
    }
    let value = match parse_point(document.get("v"), "range value") {
        Err(e) => {
            return Err(e);
        },
        Ok(read) => read,
    };
    let bits = match parse_points(document.get("b"), "range bits", MAX_RANGE_BITS) {
        Err(e) => {
            return Err(e);
        },
        Ok(read) => read,
    };
    Ok(RangeEvaluations { party, value, bits })
}

/// Why a document is not one entry.
pub open spec fn range_round1_refusal(value: Json) -> Option<Seq<char>> {
either(
object_refusal(value, "range round one"@),
either(
points_refusal(value.field("f"@), "range factors"@, MAX_RANGE_BITS as nat),
either(
points_refusal(value.field("p"@), "range products"@, MAX_RANGE_BITS as nat),
either(
if items(value.field("f"@)).len() != items(value.field("p"@)).len() {
    Some("range round-one lengths differ"@)
} else {
    None
},
either(
hex_refusal(value.field("c"@), "range context"@),
point_refusal(value.field("l"@), "range linkage"@))))))
}

/// Whether an entry is the one that a document writes.
pub open spec fn range_round1_said(value: Json, record: RangeRound1) -> bool {
    &&& points_said(value.field("f"@), record.bit_factor@)
    &&& points_said(value.field("p"@), record.bit_product@)
    &&& record.bit_factor@.len() == record.bit_product@.len()
    &&& record.context_digest@ == hex_in(value.field("c"@))
    &&& record.linkage@ == hex_in(value.field("l"@)) && is_point(record.linkage@)
}

fn parse_range_round1(document: &Value, party: usize) -> (r: Result<RangeRound1, String>)
    ensures
        match r {
            Ok(record) => range_round1_refusal(document@) is None && range_round1_said(document@, record)
                && record.party == party,
            Err(e) => range_round1_refusal(document@) == Some(e@),
        },
{
    match check_object(document, "range round one") {
        Err(e) => {
            return Err(e);
        },
        Ok(_) => {},
    }
    let bit_factor = match parse_points(document.get("f"), "range factors", MAX_RANGE_BITS) {
        Err(e) => {
            return Err(e);
        },
        Ok(read) => read,
    };
    let bit_product = match parse_points(document.get("p"), "range products", MAX_RANGE_BITS) {
        Err(e) => {
            return Err(e);
        },
        Ok(read) => read,
    };
    if bit_factor.len() != bit_product.len() {
        return Err("range round-one lengths differ".to_owned());
    }
    let context_digest = match parse_hex(document.get("c"), "range context") {
        Err(e) => {
            return Err(e);
        },
        Ok(read) => read,
    };
    let linkage = match parse_point(document.get("l"), "range linkage") {
        Err(e) => {
            return Err(e);
        },
        Ok(read) => read,
    };
    Ok(RangeRound1 { party, bit_factor, bit_product, context_digest, linkage })
}

/// Why a document is not one entry.
pub open spec fn range_challenge_refusal(value: Json) -> Option<Seq<char>> {
either(
object_refusal(value, "range challenge"@),
either(
points_refusal(value.field("f"@), "range challenge factors"@, MAX_RANGE_BITS as nat),
either(
points_refusal(value.field("p"@), "range challenge products"@, MAX_RANGE_BITS as nat),
either(
scalars_refusal(value.field("x"@), "range bit challenges"@, MAX_RANGE_BITS as nat),
either(
if items(value.field("f"@)).len() != items(value.field("p"@)).len()
    || items(value.field("f"@)).len() != items(value.field("x"@)).len() {
    Some("range challenge lengths differ"@)
} else {
    None
},
either(
hex_refusal(value.field("c"@), "range context"@),
either(
point_refusal(value.field("l"@), "range linkage"@),
scalar_refusal(value.field("lx"@), "range linkage challenge"@))))))))
}

/// Whether an entry is the one that a document writes.
pub open spec fn range_challenge_said(value: Json, record: RangeChallenge) -> bool {
    &&& points_said(value.field("f"@), record.bit_factor@)
    &&& points_said(value.field("p"@), record.bit_product@)
    &&& scalars_said(value.field("x"@), record.bit_challenges@)
    &&& record.bit_factor@.len() == record.bit_product@.len()
    &&& record.bit_factor@.len() == record.bit_challenges@.len()
    &&& record.context_digest@ == hex_in(value.field("c"@))
    &&& record.linkage@ == hex_in(value.field("l"@)) && is_point(record.linkage@)
    &&& record.linkage_challenge@ == hex_in(value.field("lx"@)) && is_scalar(record.linkage_challenge@)
}

fn parse_range_challenge(document: &Value, quorum: &Vec<usize>) -> (r: Result<RangeChallenge, String>)
    ensures
        match r {
            Ok(record) => range_challenge_refusal(document@) is None && range_challenge_said(document@, record)
                && record.quorum@ == quorum@,
            Err(e) => range_challenge_refusal(document@) == Some(e@),
        },
{
    match check_object(document, "range challenge") {
        Err(e) => {
            return Err(e);
        },
        Ok(_) => {},
    }
    let bit_factor = match parse_points(document.get("f"), "range challenge factors", MAX_RANGE_BITS) {
        Err(e) => {
            return Err(e);
        },
        Ok(read) => read,
    };
    let bit_product = match parse_points(document.get("p"), "range challenge products", MAX_RANGE_BITS) {
        Err(e) => {
            return Err(e);
        },
        Ok(read) => read,
    };
    let bit_challenges = match parse_scalars(document.get("x"), "range bit challenges", MAX_RANGE_BITS) {
        Err(e) => {
            return Err(e);
        },
        Ok(read) => read,
    };
    if bit_factor.len() != bit_product.len() || bit_factor.len() != bit_challenges.len() {
        return Err("range challenge lengths differ".to_owned());
    }
    let context_digest = match parse_hex(document.get("c"), "range context") {
        Err(e) => {
            return Err(e);
        },
        Ok(read) => read,
    };
    let linkage = match parse_point(document.get("l"), "range linkage") {
        Err(e) => {
            return Err(e);
        },
        Ok(read) => read,
    };
    let linkage_challenge = match parse_scalar(document.get("lx"), "range linkage challenge") {
        Err(e) => {
            return Err(e);
        },
        Ok(read) => read,
    };
    Ok(RangeChallenge { quorum: copy_quorum(quorum), bit_factor, bit_product, bit_challenges, context_digest, linkage,
        linkage_challenge })
}

/// Why a document is not one entry.
pub open spec fn opening_round1_refusal(value: Json) -> Option<Seq<char>> {
either(
object_refusal(value, "winner round"@),
either(
hex_refusal(value.field("c"@), "winner context"@),
point_refusal(value.field("n"@), "winner nonce"@)))
}

/// Whether an entry is the one that a document writes.
pub open spec fn opening_round1_said(value: Json, record: OpeningRound1) -> bool {
    &&& record.context_digest@ == hex_in(value.field("c"@))
    &&& record.nonce_commitment@ == hex_in(value.field("n"@)) && is_point(record.nonce_commitment@)
}

fn parse_opening_round1(document: &Value, party: usize) -> (r: Result<OpeningRound1, String>)
    ensures
        match r {
            Ok(record) => opening_round1_refusal(document@) is None && opening_round1_said(document@, record)
                && record.party == party,
            Err(e) => opening_round1_refusal(document@) == Some(e@),
        },
{
    match check_object(document, "winner round") {
        Err(e) => {
            return Err(e);
        },
        Ok(_) => {},
    }
    let context_digest = match parse_hex(document.get("c"), "winner context") {
        Err(e) => {
            return Err(e);
        },
        Ok(read) => read,
    };
    let nonce_commitment = match parse_point(document.get("n"), "winner nonce") {
        Err(e) => {
            return Err(e);
        },
        Ok(read) => read,
    };
    Ok(OpeningRound1 { party, context_digest, nonce_commitment })
}

/// Why a document is not one entry.
pub open spec fn opening_challenge_refusal(value: Json) -> Option<Seq<char>> {
either(
object_refusal(value, "winner challenge"@),
either(
hex_refusal(value.field("c"@), "winner context"@),
either(
point_refusal(value.field("n"@), "winner nonce"@),
scalar_refusal(value.field("x"@), "winner challenge"@))))
}

/// Whether an entry is the one that a document writes.
pub open spec fn opening_challenge_said(value: Json, record: OpeningChallenge) -> bool {
    &&& record.context_digest@ == hex_in(value.field("c"@))
    &&& record.nonce_commitment@ == hex_in(value.field("n"@)) && is_point(record.nonce_commitment@)
    &&& record.challenge@ == hex_in(value.field("x"@)) && is_scalar(record.challenge@)
}

fn parse_opening_challenge(document: &Value, quorum: &Vec<usize>) -> (r: Result<OpeningChallenge, String>)
    ensures
        match r {
            Ok(record) => opening_challenge_refusal(document@) is None && opening_challenge_said(document@, record)
                && record.quorum@ == quorum@,
            Err(e) => opening_challenge_refusal(document@) == Some(e@),
        },
{
    match check_object(document, "winner challenge") {
        Err(e) => {
            return Err(e);
        },
        Ok(_) => {},
    }
    let context_digest = match parse_hex(document.get("c"), "winner context") {
        Err(e) => {
            return Err(e);
        },
        Ok(read) => read,
    };
    let nonce_commitment = match parse_point(document.get("n"), "winner nonce") {
        Err(e) => {
            return Err(e);
        },
        Ok(read) => read,
    };
    let challenge = match parse_scalar(document.get("x"), "winner challenge") {
        Err(e) => {
            return Err(e);
        },
        Ok(read) => read,
    };
    Ok(OpeningChallenge { quorum: copy_quorum(quorum), context_digest, nonce_commitment, challenge })
}

/// Why a document is not the committed relations of one range.
pub open spec fn range_relation_refusal(value: Json) -> Option<Seq<char>> {
    points_refusal(Some(value), "range relations"@, MAX_RANGE_BITS as nat)
}

/// Whether an entry is the one that a document writes.
pub open spec fn range_relation_said(value: Json, record: RangeRelationEvaluations) -> bool {
    points_said(Some(value), record.bits@)
}

fn parse_range_relation(value: &Value, party: usize) -> (r: Result<RangeRelationEvaluations, String>)
    ensures
        match r {
            Ok(record) => range_relation_refusal(value@) is None && range_relation_said(value@, record) && record.party
                == party,
            Err(e) => range_relation_refusal(value@) == Some(e@),
        },
{
    match parse_points(Some(value), "range relations", MAX_RANGE_BITS) {
        Err(e) => Err(e),
        Ok(bits) => Ok(RangeRelationEvaluations { party, bits }),
    }
}

/// Why a document is not a node's answers for one product.
pub open spec fn product_round2_refusal(value: Json) -> Option<Seq<char>> {
    triple_refusal(
        Some(value),
        "product response"@,
        "product response must contain three scalars"@,
        "factor answer"@,
        "factor blinding answer"@,
        "relation answer"@,
    )
}

/// Whether an entry is the one that a document writes.
pub open spec fn product_round2_said(value: Json, record: ProductRound2) -> bool {
    triple_said(Some(value), (record.factor_answer, record.factor_blinding_answer, record.relation_answer))
}

fn parse_product_round2(value: &Value, party: usize) -> (r: Result<ProductRound2, String>)
    ensures
        match r {
            Ok(record) => product_round2_refusal(value@) is None && product_round2_said(value@, record) && record.party
                == party,
            Err(e) => product_round2_refusal(value@) == Some(e@),
        },
{
    match parse_triple(
        Some(value),
        "product response",
        "product response must contain three scalars",
        "factor answer",
        "factor blinding answer",
        "relation answer",
    ) {
        Err(e) => Err(e),
        Ok((factor_answer, factor_blinding_answer, relation_answer)) => Ok(
            ProductRound2 { party, factor_answer, factor_blinding_answer, relation_answer },
        ),
    }
}

/// Why a document is not a node's answers for one bit.
pub open spec fn bit_answer_refusal(value: Json) -> Option<Seq<char>> {
    triple_refusal(
        Some(value),
        "range bit response"@,
        "range bit response must contain three scalars"@,
        "range value answer"@,
        "range blinding answer"@,
        "range relation answer"@,
    )
}

/// The check that an element is a node's answers for one bit.
pub open spec fn bit_answer_check() -> spec_fn(Json) -> Option<Seq<char>> {
    |element: Json| bit_answer_refusal(element)
}

/// Why a document is not a node's answers for one range.
pub open spec fn range_round2_refusal(value: Json) -> Option<Seq<char>> {
    either(
        object_refusal(value, "range response"@),
        either(
            array_refusal(value.field("b"@), "range bit responses"@, MAX_RANGE_BITS as nat),
            either(
                first(items(value.field("b"@)), bit_answer_check()),
                pair_refusal(
                    value.field("l"@),
                    "range linkage response"@,
                    "range linkage response must contain two scalars"@,
                    "linkage value answer"@,
                    "linkage blinding answer"@,
                ),
            ),
        ),
    )
}

/// Whether an entry is the one that a document writes.
pub open spec fn range_round2_said(value: Json, record: RangeRound2) -> bool {
    &&& record.bit_answers@.len() == items(value.field("b"@)).len()
    &&& forall|i: int|
        0 <= i < record.bit_answers@.len() ==> triple_said(
            Some(items(value.field("b"@))[i]),
            #[trigger] record.bit_answers@[i],
        )
    &&& pair_said(value.field("l"@), record.linkage_answer)
}

fn parse_range_round2(value: &Value, party: usize) -> (r: Result<RangeRound2, String>)
    ensures
        match r {
            Ok(record) => range_round2_refusal(value@) is None && range_round2_said(value@, record) && record.party
                == party,
            Err(e) => range_round2_refusal(value@) == Some(e@),
        },
{
    match check_object(value, "range response") {
        Err(e) => {
            return Err(e);
        },
        Ok(_) => {},
    }
    let listed = value.get("b");
    let values = match parse_array(listed, "range bit responses", MAX_RANGE_BITS) {
        Err(e) => {
            return Err(e);
        },
        Ok(values) => values,
    };
    let ghost all = items(said(listed));
    let ghost check = bit_answer_check();
    let mut bit_answers: Vec<(Scalar, Scalar, Scalar)> = Vec::new();
    let mut i: usize = 0;
    #[verifier::loop_isolation(false)]
    while i < values.len()
        invariant
            i <= values@.len(),
            bit_answers@.len() == i,
            first(all.take(i as int), check) is None,
            forall|j: int| 0 <= j < i ==> triple_said(Some(all[j]), #[trigger] bit_answers@[j]),
        decreases values@.len() - i,
    {
        proof {
            first_at(all, check, i as int);
            assert(all[i as int] == values@[i as int]@);
        }
        match parse_triple(
            Some(&values[i]),
            "range bit response",
            "range bit response must contain three scalars",
            "range value answer",
            "range blinding answer",
            "range relation answer",
        ) {
            Err(e) => {
                return Err(e);
            },
            Ok(answers) => {
                bit_answers.push(answers);
            },
        }
        i = i + 1;
    }
    assert(all.take(i as int) =~= all);
    match parse_pair(
        value.get("l"),
        "range linkage response",
        "range linkage response must contain two scalars",
        "linkage value answer",
        "linkage blinding answer",
    ) {
        Err(e) => Err(e),
        Ok(linkage_answer) => Ok(RangeRound2 { party, bit_answers, linkage_answer }),
    }
}

/// Why a document is not a product seal.
pub open spec fn product_seal_refusal(value: Json) -> Option<Seq<char>> {
    hex_refusal(Some(value), "product seal"@)
}

/// Whether a seal is the one that a document writes.
pub open spec fn product_seal_said(value: Json, record: ProductRound1Seal) -> bool {
    record.digest@ == hex_in(Some(value))
}

fn parse_product_seal(value: &Value, party: usize) -> (r: Result<ProductRound1Seal, String>)
    ensures
        match r {
            Ok(record) => product_seal_refusal(value@) is None && product_seal_said(value@, record) && record.party
                == party,
            Err(e) => product_seal_refusal(value@) == Some(e@),
        },
{
    match parse_hex(Some(value), "product seal") {
        Err(e) => Err(e),
        Ok(digest) => Ok(ProductRound1Seal { party, digest }),
    }
}

/// Why a document is not a range seal.
pub open spec fn range_seal_refusal(value: Json) -> Option<Seq<char>> {
    hex_refusal(Some(value), "range seal"@)
}

/// Whether a seal is the one that a document writes.
pub open spec fn range_seal_said(value: Json, record: RangeRound1Seal) -> bool {
    record.digest@ == hex_in(Some(value))
}

fn parse_range_seal(value: &Value, party: usize) -> (r: Result<RangeRound1Seal, String>)
    ensures
        match r {
            Ok(record) => range_seal_refusal(value@) is None && range_seal_said(value@, record) && record.party
                == party,
            Err(e) => range_seal_refusal(value@) == Some(e@),
        },
{
    match parse_hex(Some(value), "range seal") {
        Err(e) => Err(e),
        Ok(digest) => Ok(RangeRound1Seal { party, digest }),
    }
}

/// The check of one entry of a list.
pub open spec fn range_evaluations_check() -> spec_fn(Json) -> Option<Seq<char>> {
    |element: Json| range_evaluations_refusal(element)
}

/// Why a document is not a list of entries.
pub open spec fn range_evaluations_list_refusal(
    value: Option<Json>,
    name: Seq<char>,
    maximum: nat,
) -> Option<Seq<char>> {
    either(array_refusal(value, name, maximum), first(items(value), range_evaluations_check()))
}

/// Whether entries are those that a document writes.
pub open spec fn range_evaluations_list_said(
    value: Option<Json>,
    records: Seq<RangeEvaluations>,
    party: usize,
) -> bool {
    &&& records.len() == items(value).len()
    &&& forall|i: int| 0 <= i < records.len() ==> (#[trigger] records[i]).party == party
        && range_evaluations_said(items(value)[i], records[i])
}

fn parse_range_evaluations_list(
    value: Option<&Value>,
    name: &str,
    maximum: usize,
    party: usize,
) -> (r: Result<Vec<RangeEvaluations>, String>)
    ensures
        match r {
            Ok(records) => range_evaluations_list_refusal(said(value), name@, maximum as nat) is None
                && range_evaluations_list_said(
                said(value),
                records@,
                party,
            ),
            Err(e) => range_evaluations_list_refusal(said(value), name@, maximum as nat) == Some(e@),
        },
{
    let values = match parse_array(value, name, maximum) {
        Err(e) => {
            return Err(e);
        },
        Ok(values) => values,
    };
    let ghost all = items(said(value));
    let ghost check = range_evaluations_check();
    let mut records: Vec<RangeEvaluations> = Vec::new();
    let mut i: usize = 0;
    #[verifier::loop_isolation(false)]
    while i < values.len()
        invariant
            i <= values@.len(),
            records@.len() == i,
            first(all.take(i as int), check) is None,
            forall|j: int| 0 <= j < i ==> (#[trigger] records@[j]).party == party
                && range_evaluations_said(all[j], records@[j]),
        decreases values@.len() - i,
    {
        proof {
            first_at(all, check, i as int);
            assert(all[i as int] == values@[i as int]@);
        }
        match parse_range_evaluations(&values[i], party) {
            Err(e) => {
                return Err(e);
            },
            Ok(record) => {
                records.push(record);
            },
        }
        i = i + 1;
    }
    assert(all.take(i as int) =~= all);
    Ok(records)
}

/// The check of one entry of a list.
pub open spec fn product_evaluations_check() -> spec_fn(Json) -> Option<Seq<char>> {
    |element: Json| product_evaluations_refusal(element)
}

/// Why a document is not a list of entries.
pub open spec fn product_evaluations_list_refusal(
    value: Option<Json>,
    name: Seq<char>,
    maximum: nat,
) -> Option<Seq<char>> {
    either(array_refusal(value, name, maximum), first(items(value), product_evaluations_check()))
}

/// Whether entries are those that a document writes.
pub open spec fn product_evaluations_list_said(
    value: Option<Json>,
    records: Seq<ProductEvaluations>,
    party: usize,
) -> bool {
    &&& records.len() == items(value).len()
    &&& forall|i: int| 0 <= i < records.len() ==> (#[trigger] records[i]).party == party
        && product_evaluations_said(items(value)[i], records[i])
}

fn parse_product_evaluations_list(
    value: Option<&Value>,
    name: &str,
    maximum: usize,
    party: usize,
) -> (r: Result<Vec<ProductEvaluations>, String>)
    ensures
        match r {
            Ok(records) => product_evaluations_list_refusal(said(value), name@, maximum as nat) is None
                && product_evaluations_list_said(
                said(value),
                records@,
                party,
            ),
            Err(e) => product_evaluations_list_refusal(said(value), name@, maximum as nat) == Some(e@),
        },
{
    let values = match parse_array(value, name, maximum) {
        Err(e) => {
            return Err(e);
        },
        Ok(values) => values,
    };
    let ghost all = items(said(value));
    let ghost check = product_evaluations_check();
    let mut records: Vec<ProductEvaluations> = Vec::new();
    let mut i: usize = 0;
    #[verifier::loop_isolation(false)]
    while i < values.len()
        invariant
            i <= values@.len(),
            records@.len() == i,
            first(all.take(i as int), check) is None,
            forall|j: int| 0 <= j < i ==> (#[trigger] records@[j]).party == party
                && product_evaluations_said(all[j], records@[j]),
        decreases values@.len() - i,
    {
        proof {
            first_at(all, check, i as int);
            assert(all[i as int] == values@[i as int]@);
        }
        match parse_product_evaluations(&values[i], party) {
            Err(e) => {
                return Err(e);
            },
            Ok(record) => {
                records.push(record);
            },
        }
        i = i + 1;
    }
    assert(all.take(i as int) =~= all);
    Ok(records)
}

/// The check of one entry of a list.
pub open spec fn range_relation_check() -> spec_fn(Json) -> Option<Seq<char>> {
    |element: Json| range_relation_refusal(element)
}

/// Why a document is not a list of entries.
pub open spec fn range_relation_list_refusal(value: Option<Json>, name: Seq<char>, maximum: nat) -> Option<Seq<char>> {
    either(array_refusal(value, name, maximum), first(items(value), range_relation_check()))
}

/// Whether entries are those that a document writes.
pub open spec fn range_relation_list_said(
    value: Option<Json>,
    records: Seq<RangeRelationEvaluations>,
    party: usize,
) -> bool {
    &&& records.len() == items(value).len()
    &&& forall|i: int| 0 <= i < records.len() ==> (#[trigger] records[i]).party == party
        && range_relation_said(items(value)[i], records[i])
}

fn parse_range_relation_list(
    value: Option<&Value>,
    name: &str,
    maximum: usize,
    party: usize,
) -> (r: Result<Vec<RangeRelationEvaluations>, String>)
    ensures
        match r {
            Ok(records) => range_relation_list_refusal(said(value), name@, maximum as nat) is None
                && range_relation_list_said(
                said(value),
                records@,
                party,
            ),
            Err(e) => range_relation_list_refusal(said(value), name@, maximum as nat) == Some(e@),
        },
{
    let values = match parse_array(value, name, maximum) {
        Err(e) => {
            return Err(e);
        },
        Ok(values) => values,
    };
    let ghost all = items(said(value));
    let ghost check = range_relation_check();
    let mut records: Vec<RangeRelationEvaluations> = Vec::new();
    let mut i: usize = 0;
    #[verifier::loop_isolation(false)]
    while i < values.len()
        invariant
            i <= values@.len(),
            records@.len() == i,
            first(all.take(i as int), check) is None,
            forall|j: int| 0 <= j < i ==> (#[trigger] records@[j]).party == party
                && range_relation_said(all[j], records@[j]),
        decreases values@.len() - i,
    {
        proof {
            first_at(all, check, i as int);
            assert(all[i as int] == values@[i as int]@);
        }
        match parse_range_relation(&values[i], party) {
            Err(e) => {
                return Err(e);
            },
            Ok(record) => {
                records.push(record);
            },
        }
        i = i + 1;
    }
    assert(all.take(i as int) =~= all);
    Ok(records)
}

/// The check of one entry of a list.
pub open spec fn product_seal_check() -> spec_fn(Json) -> Option<Seq<char>> {
    |element: Json| product_seal_refusal(element)
}

/// Why a document is not a list of entries.
pub open spec fn product_seal_list_refusal(value: Option<Json>, name: Seq<char>, maximum: nat) -> Option<Seq<char>> {
    either(array_refusal(value, name, maximum), first(items(value), product_seal_check()))
}

/// Whether entries are those that a document writes.
pub open spec fn product_seal_list_said(value: Option<Json>, records: Seq<ProductRound1Seal>, party: usize) -> bool {
    &&& records.len() == items(value).len()
    &&& forall|i: int| 0 <= i < records.len() ==> (#[trigger] records[i]).party == party
        && product_seal_said(items(value)[i], records[i])
}

fn parse_product_seal_list(
    value: Option<&Value>,
    name: &str,
    maximum: usize,
    party: usize,
) -> (r: Result<Vec<ProductRound1Seal>, String>)
    ensures
        match r {
            Ok(records) => product_seal_list_refusal(said(value), name@, maximum as nat) is None
                && product_seal_list_said(
                said(value),
                records@,
                party,
            ),
            Err(e) => product_seal_list_refusal(said(value), name@, maximum as nat) == Some(e@),
        },
{
    let values = match parse_array(value, name, maximum) {
        Err(e) => {
            return Err(e);
        },
        Ok(values) => values,
    };
    let ghost all = items(said(value));
    let ghost check = product_seal_check();
    let mut records: Vec<ProductRound1Seal> = Vec::new();
    let mut i: usize = 0;
    #[verifier::loop_isolation(false)]
    while i < values.len()
        invariant
            i <= values@.len(),
            records@.len() == i,
            first(all.take(i as int), check) is None,
            forall|j: int| 0 <= j < i ==> (#[trigger] records@[j]).party == party
                && product_seal_said(all[j], records@[j]),
        decreases values@.len() - i,
    {
        proof {
            first_at(all, check, i as int);
            assert(all[i as int] == values@[i as int]@);
        }
        match parse_product_seal(&values[i], party) {
            Err(e) => {
                return Err(e);
            },
            Ok(record) => {
                records.push(record);
            },
        }
        i = i + 1;
    }
    assert(all.take(i as int) =~= all);
    Ok(records)
}

/// The check of one entry of a list.
pub open spec fn range_seal_check() -> spec_fn(Json) -> Option<Seq<char>> {
    |element: Json| range_seal_refusal(element)
}

/// Why a document is not a list of entries.
pub open spec fn range_seal_list_refusal(value: Option<Json>, name: Seq<char>, maximum: nat) -> Option<Seq<char>> {
    either(array_refusal(value, name, maximum), first(items(value), range_seal_check()))
}

/// Whether entries are those that a document writes.
pub open spec fn range_seal_list_said(value: Option<Json>, records: Seq<RangeRound1Seal>, party: usize) -> bool {
    &&& records.len() == items(value).len()
    &&& forall|i: int| 0 <= i < records.len() ==> (#[trigger] records[i]).party == party
        && range_seal_said(items(value)[i], records[i])
}

fn parse_range_seal_list(
    value: Option<&Value>,
    name: &str,
    maximum: usize,
    party: usize,
) -> (r: Result<Vec<RangeRound1Seal>, String>)
    ensures
        match r {
            Ok(records) => range_seal_list_refusal(said(value), name@, maximum as nat) is None && range_seal_list_said(
                said(value),
                records@,
                party,
            ),
            Err(e) => range_seal_list_refusal(said(value), name@, maximum as nat) == Some(e@),
        },
{
    let values = match parse_array(value, name, maximum) {
        Err(e) => {
            return Err(e);
        },
        Ok(values) => values,
    };
    let ghost all = items(said(value));
    let ghost check = range_seal_check();
    let mut records: Vec<RangeRound1Seal> = Vec::new();
    let mut i: usize = 0;
    #[verifier::loop_isolation(false)]
    while i < values.len()
        invariant
            i <= values@.len(),
            records@.len() == i,
            first(all.take(i as int), check) is None,
            forall|j: int| 0 <= j < i ==> (#[trigger] records@[j]).party == party
                && range_seal_said(all[j], records@[j]),
        decreases values@.len() - i,
    {
        proof {
            first_at(all, check, i as int);
            assert(all[i as int] == values@[i as int]@);
        }
        match parse_range_seal(&values[i], party) {
            Err(e) => {
                return Err(e);
            },
            Ok(record) => {
                records.push(record);
            },
        }
        i = i + 1;
    }
    assert(all.take(i as int) =~= all);
    Ok(records)
}

/// The check of one entry of a list.
pub open spec fn product_round1_check() -> spec_fn(Json) -> Option<Seq<char>> {
    |element: Json| product_round1_refusal(element)
}

/// Why a document is not a list of entries.
pub open spec fn product_round1_list_refusal(value: Option<Json>, name: Seq<char>, maximum: nat) -> Option<Seq<char>> {
    either(array_refusal(value, name, maximum), first(items(value), product_round1_check()))
}

/// Whether entries are those that a document writes.
pub open spec fn product_round1_list_said(value: Option<Json>, records: Seq<ProductRound1>, party: usize) -> bool {
    &&& records.len() == items(value).len()
    &&& forall|i: int| 0 <= i < records.len() ==> (#[trigger] records[i]).party == party
        && product_round1_said(items(value)[i], records[i])
}

fn parse_product_round1_list(
    value: Option<&Value>,
    name: &str,
    maximum: usize,
    party: usize,
) -> (r: Result<Vec<ProductRound1>, String>)
    ensures
        match r {
            Ok(records) => product_round1_list_refusal(said(value), name@, maximum as nat) is None
                && product_round1_list_said(
                said(value),
                records@,
                party,
            ),
            Err(e) => product_round1_list_refusal(said(value), name@, maximum as nat) == Some(e@),
        },
{
    let values = match parse_array(value, name, maximum) {
        Err(e) => {
            return Err(e);
        },
        Ok(values) => values,
    };
    let ghost all = items(said(value));
    let ghost check = product_round1_check();
    let mut records: Vec<ProductRound1> = Vec::new();
    let mut i: usize = 0;
    #[verifier::loop_isolation(false)]
    while i < values.len()
        invariant
            i <= values@.len(),
            records@.len() == i,
            first(all.take(i as int), check) is None,
            forall|j: int| 0 <= j < i ==> (#[trigger] records@[j]).party == party
                && product_round1_said(all[j], records@[j]),
        decreases values@.len() - i,
    {
        proof {
            first_at(all, check, i as int);
            assert(all[i as int] == values@[i as int]@);
        }
        match parse_product_round1(&values[i], party) {
            Err(e) => {
                return Err(e);
            },
            Ok(record) => {
                records.push(record);
            },
        }
        i = i + 1;
    }
    assert(all.take(i as int) =~= all);
    Ok(records)
}

/// The check of one entry of a list.
pub open spec fn range_round1_check() -> spec_fn(Json) -> Option<Seq<char>> {
    |element: Json| range_round1_refusal(element)
}

/// Why a document is not a list of entries.
pub open spec fn range_round1_list_refusal(value: Option<Json>, name: Seq<char>, maximum: nat) -> Option<Seq<char>> {
    either(array_refusal(value, name, maximum), first(items(value), range_round1_check()))
}

/// Whether entries are those that a document writes.
pub open spec fn range_round1_list_said(value: Option<Json>, records: Seq<RangeRound1>, party: usize) -> bool {
    &&& records.len() == items(value).len()
    &&& forall|i: int| 0 <= i < records.len() ==> (#[trigger] records[i]).party == party
        && range_round1_said(items(value)[i], records[i])
}

fn parse_range_round1_list(
    value: Option<&Value>,
    name: &str,
    maximum: usize,
    party: usize,
) -> (r: Result<Vec<RangeRound1>, String>)
    ensures
        match r {
            Ok(records) => range_round1_list_refusal(said(value), name@, maximum as nat) is None
                && range_round1_list_said(
                said(value),
                records@,
                party,
            ),
            Err(e) => range_round1_list_refusal(said(value), name@, maximum as nat) == Some(e@),
        },
{
    let values = match parse_array(value, name, maximum) {
        Err(e) => {
            return Err(e);
        },
        Ok(values) => values,
    };
    let ghost all = items(said(value));
    let ghost check = range_round1_check();
    let mut records: Vec<RangeRound1> = Vec::new();
    let mut i: usize = 0;
    #[verifier::loop_isolation(false)]
    while i < values.len()
        invariant
            i <= values@.len(),
            records@.len() == i,
            first(all.take(i as int), check) is None,
            forall|j: int| 0 <= j < i ==> (#[trigger] records@[j]).party == party
                && range_round1_said(all[j], records@[j]),
        decreases values@.len() - i,
    {
        proof {
            first_at(all, check, i as int);
            assert(all[i as int] == values@[i as int]@);
        }
        match parse_range_round1(&values[i], party) {
            Err(e) => {
                return Err(e);
            },
            Ok(record) => {
                records.push(record);
            },
        }
        i = i + 1;
    }
    assert(all.take(i as int) =~= all);
    Ok(records)
}

/// The check of one entry of a list.
pub open spec fn product_challenge_check() -> spec_fn(Json) -> Option<Seq<char>> {
    |element: Json| product_challenge_refusal(element)
}

/// Why a document is not a list of entries.
pub open spec fn product_challenge_list_refusal(
    value: Option<Json>,
    name: Seq<char>,
    maximum: nat,
) -> Option<Seq<char>> {
    either(array_refusal(value, name, maximum), first(items(value), product_challenge_check()))
}

/// Whether entries are those that a document writes.
pub open spec fn product_challenge_list_said(
    value: Option<Json>,
    records: Seq<ProductChallenge>,
    quorum: Seq<usize>,
) -> bool {
    &&& records.len() == items(value).len()
    &&& forall|i: int| 0 <= i < records.len() ==> (#[trigger] records[i]).quorum@ == quorum
        && product_challenge_said(items(value)[i], records[i])
}

fn parse_product_challenge_list(
    value: Option<&Value>,
    name: &str,
    maximum: usize,
    quorum: &Vec<usize>,
) -> (r: Result<Vec<ProductChallenge>, String>)
    ensures
        match r {
            Ok(records) => product_challenge_list_refusal(said(value), name@, maximum as nat) is None
                && product_challenge_list_said(
                said(value),
                records@,
                quorum@,
            ),
            Err(e) => product_challenge_list_refusal(said(value), name@, maximum as nat) == Some(e@),
        },
{
    let values = match parse_array(value, name, maximum) {
        Err(e) => {
            return Err(e);
        },
        Ok(values) => values,
    };
    let ghost all = items(said(value));
    let ghost check = product_challenge_check();
    let mut records: Vec<ProductChallenge> = Vec::new();
    let mut i: usize = 0;
    #[verifier::loop_isolation(false)]
    while i < values.len()
        invariant
            i <= values@.len(),
            records@.len() == i,
            first(all.take(i as int), check) is None,
            forall|j: int| 0 <= j < i ==> (#[trigger] records@[j]).quorum@ == quorum@
                && product_challenge_said(all[j], records@[j]),
        decreases values@.len() - i,
    {
        proof {
            first_at(all, check, i as int);
            assert(all[i as int] == values@[i as int]@);
        }
        match parse_product_challenge(&values[i], quorum) {
            Err(e) => {
                return Err(e);
            },
            Ok(record) => {
                records.push(record);
            },
        }
        i = i + 1;
    }
    assert(all.take(i as int) =~= all);
    Ok(records)
}

/// The check of one entry of a list.
pub open spec fn range_challenge_check() -> spec_fn(Json) -> Option<Seq<char>> {
    |element: Json| range_challenge_refusal(element)
}

/// Why a document is not a list of entries.
pub open spec fn range_challenge_list_refusal(value: Option<Json>, name: Seq<char>, maximum: nat) -> Option<Seq<char>> {
    either(array_refusal(value, name, maximum), first(items(value), range_challenge_check()))
}

/// Whether entries are those that a document writes.
pub open spec fn range_challenge_list_said(
    value: Option<Json>,
    records: Seq<RangeChallenge>,
    quorum: Seq<usize>,
) -> bool {
    &&& records.len() == items(value).len()
    &&& forall|i: int| 0 <= i < records.len() ==> (#[trigger] records[i]).quorum@ == quorum
        && range_challenge_said(items(value)[i], records[i])
}

fn parse_range_challenge_list(
    value: Option<&Value>,
    name: &str,
    maximum: usize,
    quorum: &Vec<usize>,
) -> (r: Result<Vec<RangeChallenge>, String>)
    ensures
        match r {
            Ok(records) => range_challenge_list_refusal(said(value), name@, maximum as nat) is None
                && range_challenge_list_said(
                said(value),
                records@,
                quorum@,
            ),
            Err(e) => range_challenge_list_refusal(said(value), name@, maximum as nat) == Some(e@),
        },
{
    let values = match parse_array(value, name, maximum) {
        Err(e) => {
            return Err(e);
        },
        Ok(values) => values,
    };
    let ghost all = items(said(value));
    let ghost check = range_challenge_check();
    let mut records: Vec<RangeChallenge> = Vec::new();
    let mut i: usize = 0;
    #[verifier::loop_isolation(false)]
    while i < values.len()
        invariant
            i <= values@.len(),
            records@.len() == i,
            first(all.take(i as int), check) is None,
            forall|j: int| 0 <= j < i ==> (#[trigger] records@[j]).quorum@ == quorum@
                && range_challenge_said(all[j], records@[j]),
        decreases values@.len() - i,
    {
        proof {
            first_at(all, check, i as int);
            assert(all[i as int] == values@[i as int]@);
        }
        match parse_range_challenge(&values[i], quorum) {
            Err(e) => {
                return Err(e);
            },
            Ok(record) => {
                records.push(record);
            },
        }
        i = i + 1;
    }
    assert(all.take(i as int) =~= all);
    Ok(records)
}

/// The check of one entry of a list.
pub open spec fn product_round2_check() -> spec_fn(Json) -> Option<Seq<char>> {
    |element: Json| product_round2_refusal(element)
}

/// Why a document is not a list of entries.
pub open spec fn product_round2_list_refusal(value: Option<Json>, name: Seq<char>, maximum: nat) -> Option<Seq<char>> {
    either(array_refusal(value, name, maximum), first(items(value), product_round2_check()))
}

/// Whether entries are those that a document writes.
pub open spec fn product_round2_list_said(value: Option<Json>, records: Seq<ProductRound2>, party: usize) -> bool {
    &&& records.len() == items(value).len()
    &&& forall|i: int| 0 <= i < records.len() ==> (#[trigger] records[i]).party == party
        && product_round2_said(items(value)[i], records[i])
}

fn parse_product_round2_list(
    value: Option<&Value>,
    name: &str,
    maximum: usize,
    party: usize,
) -> (r: Result<Vec<ProductRound2>, String>)
    ensures
        match r {
            Ok(records) => product_round2_list_refusal(said(value), name@, maximum as nat) is None
                && product_round2_list_said(
                said(value),
                records@,
                party,
            ),
            Err(e) => product_round2_list_refusal(said(value), name@, maximum as nat) == Some(e@),
        },
{
    let values = match parse_array(value, name, maximum) {
        Err(e) => {
            return Err(e);
        },
        Ok(values) => values,
    };
    let ghost all = items(said(value));
    let ghost check = product_round2_check();
    let mut records: Vec<ProductRound2> = Vec::new();
    let mut i: usize = 0;
    #[verifier::loop_isolation(false)]
    while i < values.len()
        invariant
            i <= values@.len(),
            records@.len() == i,
            first(all.take(i as int), check) is None,
            forall|j: int| 0 <= j < i ==> (#[trigger] records@[j]).party == party
                && product_round2_said(all[j], records@[j]),
        decreases values@.len() - i,
    {
        proof {
            first_at(all, check, i as int);
            assert(all[i as int] == values@[i as int]@);
        }
        match parse_product_round2(&values[i], party) {
            Err(e) => {
                return Err(e);
            },
            Ok(record) => {
                records.push(record);
            },
        }
        i = i + 1;
    }
    assert(all.take(i as int) =~= all);
    Ok(records)
}

/// The check of one entry of a list.
pub open spec fn range_round2_check() -> spec_fn(Json) -> Option<Seq<char>> {
    |element: Json| range_round2_refusal(element)
}

/// Why a document is not a list of entries.
pub open spec fn range_round2_list_refusal(value: Option<Json>, name: Seq<char>, maximum: nat) -> Option<Seq<char>> {
    either(array_refusal(value, name, maximum), first(items(value), range_round2_check()))
}

/// Whether entries are those that a document writes.
pub open spec fn range_round2_list_said(value: Option<Json>, records: Seq<RangeRound2>, party: usize) -> bool {
    &&& records.len() == items(value).len()
    &&& forall|i: int| 0 <= i < records.len() ==> (#[trigger] records[i]).party == party
        && range_round2_said(items(value)[i], records[i])
}

fn parse_range_round2_list(
    value: Option<&Value>,
    name: &str,
    maximum: usize,
    party: usize,
) -> (r: Result<Vec<RangeRound2>, String>)
    ensures
        match r {
            Ok(records) => range_round2_list_refusal(said(value), name@, maximum as nat) is None
                && range_round2_list_said(
                said(value),
                records@,
                party,
            ),
            Err(e) => range_round2_list_refusal(said(value), name@, maximum as nat) == Some(e@),
        },
{
    let values = match parse_array(value, name, maximum) {
        Err(e) => {
            return Err(e);
        },
        Ok(values) => values,
    };
    let ghost all = items(said(value));
    let ghost check = range_round2_check();
    let mut records: Vec<RangeRound2> = Vec::new();
    let mut i: usize = 0;
    #[verifier::loop_isolation(false)]
    while i < values.len()
        invariant
            i <= values@.len(),
            records@.len() == i,
            first(all.take(i as int), check) is None,
            forall|j: int| 0 <= j < i ==> (#[trigger] records@[j]).party == party
                && range_round2_said(all[j], records@[j]),
        decreases values@.len() - i,
    {
        proof {
            first_at(all, check, i as int);
            assert(all[i as int] == values@[i as int]@);
        }
        match parse_range_round2(&values[i], party) {
            Err(e) => {
                return Err(e);
            },
            Ok(record) => {
                records.push(record);
            },
        }
        i = i + 1;
    }
    assert(all.take(i as int) =~= all);
    Ok(records)
}

/// Whether wires are those that a document writes.
pub open spec fn wires_said(value: Option<Json>, wires: Seq<WireEvaluation>, party: usize) -> bool {
    &&& wires.len() == items(value).len()
    &&& forall|i: int|
        0 <= i < wires.len() ==> (#[trigger] wires[i]).party == party && wires[i].point@ == hex_in(
            Some(items(value)[i]),
        ) && is_point(wires[i].point@)
}

fn parse_wires(value: Option<&Value>, party: usize) -> (r: Result<Vec<WireEvaluation>, String>)
    ensures
        match r {
            Ok(wires) => points_refusal(said(value), "quote wires"@, MAX_WIRE_POINTS as nat) is None && wires_said(
                said(value),
                wires@,
                party,
            ),
            Err(e) => points_refusal(said(value), "quote wires"@, MAX_WIRE_POINTS as nat) == Some(e@),
        },
{
    let points = match parse_points(value, "quote wires", MAX_WIRE_POINTS) {
        Err(e) => {
            return Err(e);
        },
        Ok(points) => points,
    };
    let mut wires: Vec<WireEvaluation> = Vec::new();
    let mut i: usize = 0;
    while i < points.len()
        invariant
            i <= points@.len(),
            wires@.len() == i,
            forall|j: int| 0 <= j < i ==> (#[trigger] wires@[j]).party == party && wires@[j].point == points@[j],
        decreases points@.len() - i,
    {
        wires.push(WireEvaluation { party, point: points[i] });
        i = i + 1;
    }
    Ok(wires)
}

/// Why a document is not the winner of a first round.
pub open spec fn opening_round1_member_refusal(value: Option<Json>) -> Option<Seq<char>> {
    match value {
        None => Some("winner round is absent"@),
        Some(winner) => opening_round1_refusal(winner),
    }
}

/// Why a document is not the winner of a challenge.
pub open spec fn opening_challenge_member_refusal(value: Option<Json>) -> Option<Seq<char>> {
    match value {
        None => Some("winner challenge is absent"@),
        Some(winner) => opening_challenge_refusal(winner),
    }
}

fn parse_opening_round1_member(value: Option<&Value>, party: usize) -> (r: Result<OpeningRound1, String>)
    ensures
        match r {
            Ok(record) => opening_round1_member_refusal(said(value)) is None && opening_round1_said(
                said(value)->0,
                record,
            ) && record.party == party,
            Err(e) => opening_round1_member_refusal(said(value)) == Some(e@),
        },
{
    match value {
        None => Err("winner round is absent".to_owned()),
        Some(winner) => parse_opening_round1(winner, party),
    }
}

fn parse_opening_challenge_member(value: Option<&Value>, quorum: &Vec<usize>) -> (r: Result<OpeningChallenge, String>)
    ensures
        match r {
            Ok(record) => opening_challenge_member_refusal(said(value)) is None && opening_challenge_said(
                said(value)->0,
                record,
            ) && record.quorum@ == quorum@,
            Err(e) => opening_challenge_member_refusal(said(value)) == Some(e@),
        },
{
    match value {
        None => Err("winner challenge is absent".to_owned()),
        Some(winner) => parse_opening_challenge(winner, quorum),
    }
}

/// Why a document is not the body of such a message.
pub open spec fn evaluations_refusal(body: Json) -> Option<Seq<char>> {
either(
party_refusal(body.field("party"@)),
either(
points_refusal(body.field("wires"@), "quote wires"@, MAX_WIRE_POINTS as nat),
range_evaluations_list_refusal(body.field("ranges"@), "quote ranges"@, MAX_RANGES as nat)))
}

/// Whether a message is the one that a body writes.
pub open spec fn evaluations_said(body: Json, message: QuoteNodeEvaluations) -> bool {
    &&& unsigned_in(body.field("party"@)) == Some(message.party as nat)
    &&& wires_said(body.field("wires"@), message.wires@, message.party)
    &&& range_evaluations_list_said(body.field("ranges"@), message.ranges@, message.party)
}

fn parse_evaluations_body(body: &Value) -> (r: Result<QuoteNodeEvaluations, String>)
    ensures
        match r {
            Ok(message) => evaluations_refusal(body@) is None && evaluations_said(body@, message),
            Err(e) => evaluations_refusal(body@) == Some(e@),
        },
{
    let party = match parse_party(body.get("party")) {
        Err(e) => {
            return Err(e);
        },
        Ok(read) => read,
    };
    let wires = match parse_wires(body.get("wires"), party) {
        Err(e) => {
            return Err(e);
        },
        Ok(read) => read,
    };
    let ranges = match parse_range_evaluations_list(body.get("ranges"), "quote ranges", MAX_RANGES, party) {
        Err(e) => {
            return Err(e);
        },
        Ok(read) => read,
    };
    Ok(QuoteNodeEvaluations { party, wires, ranges })
}

/// Why a document is not the body of such a message.
pub open spec fn relations_refusal(body: Json) -> Option<Seq<char>> {
either(
party_refusal(body.field("party"@)),
either(
product_evaluations_list_refusal(body.field("products"@), "quote products"@, MAX_PRODUCTS as nat),
range_relation_list_refusal(body.field("ranges"@), "quote ranges"@, MAX_RANGES as nat)))
}

/// Whether a message is the one that a body writes.
pub open spec fn relations_said(body: Json, message: QuoteRelationEvaluations) -> bool {
    &&& unsigned_in(body.field("party"@)) == Some(message.party as nat)
    &&& product_evaluations_list_said(body.field("products"@), message.products@, message.party)
    &&& range_relation_list_said(body.field("ranges"@), message.ranges@, message.party)
}

fn parse_relations_body(body: &Value) -> (r: Result<QuoteRelationEvaluations, String>)
    ensures
        match r {
            Ok(message) => relations_refusal(body@) is None && relations_said(body@, message),
            Err(e) => relations_refusal(body@) == Some(e@),
        },
{
    let party = match parse_party(body.get("party")) {
        Err(e) => {
            return Err(e);
        },
        Ok(read) => read,
    };
    let products = match parse_product_evaluations_list(body.get("products"), "quote products", MAX_PRODUCTS, party) {
        Err(e) => {
            return Err(e);
        },
        Ok(read) => read,
    };
    let ranges = match parse_range_relation_list(body.get("ranges"), "quote ranges", MAX_RANGES, party) {
        Err(e) => {
            return Err(e);
        },
        Ok(read) => read,
    };
    Ok(QuoteRelationEvaluations { party, products, ranges })
}

/// Why a document is not the body of such a message.
pub open spec fn seals_refusal(body: Json) -> Option<Seq<char>> {
either(
party_refusal(body.field("party"@)),
either(
product_seal_list_refusal(body.field("products"@), "product seals"@, MAX_PRODUCTS as nat),
either(
range_seal_list_refusal(body.field("ranges"@), "range seals"@, MAX_RANGES as nat),
hex_refusal(body.field("winner"@), "winner seal"@))))
}

/// Whether a message is the one that a body writes.
pub open spec fn seals_said(body: Json, message: QuoteRound1Seals) -> bool {
    &&& unsigned_in(body.field("party"@)) == Some(message.party as nat)
    &&& product_seal_list_said(body.field("products"@), message.products@, message.party)
    &&& range_seal_list_said(body.field("ranges"@), message.ranges@, message.party)
    &&& message.winner.digest@ == hex_in(body.field("winner"@)) && message.winner.party == message.party
}

fn parse_seals_body(body: &Value) -> (r: Result<QuoteRound1Seals, String>)
    ensures
        match r {
            Ok(message) => seals_refusal(body@) is None && seals_said(body@, message),
            Err(e) => seals_refusal(body@) == Some(e@),
        },
{
    let party = match parse_party(body.get("party")) {
        Err(e) => {
            return Err(e);
        },
        Ok(read) => read,
    };
    let products = match parse_product_seal_list(body.get("products"), "product seals", MAX_PRODUCTS, party) {
        Err(e) => {
            return Err(e);
        },
        Ok(read) => read,
    };
    let ranges = match parse_range_seal_list(body.get("ranges"), "range seals", MAX_RANGES, party) {
        Err(e) => {
            return Err(e);
        },
        Ok(read) => read,
    };
    let digest = match parse_hex(body.get("winner"), "winner seal") {
        Err(e) => {
            return Err(e);
        },
        Ok(read) => read,
    };
    Ok(QuoteRound1Seals { party, products, ranges, winner: OpeningRound1Seal { party, digest } })
}

/// Why a document is not the body of such a message.
pub open spec fn round1_refusal(body: Json) -> Option<Seq<char>> {
either(
party_refusal(body.field("party"@)),
either(
product_round1_list_refusal(body.field("products"@), "product rounds"@, MAX_PRODUCTS as nat),
either(
range_round1_list_refusal(body.field("ranges"@), "range rounds"@, MAX_RANGES as nat),
opening_round1_member_refusal(body.field("winner"@)))))
}

/// Whether a message is the one that a body writes.
pub open spec fn round1_said(body: Json, message: QuoteRound1) -> bool {
    &&& unsigned_in(body.field("party"@)) == Some(message.party as nat)
    &&& product_round1_list_said(body.field("products"@), message.products@, message.party)
    &&& range_round1_list_said(body.field("ranges"@), message.ranges@, message.party)
    &&& opening_round1_said(body.field("winner"@)->0, message.winner) && message.winner.party == message.party
}

fn parse_round1_body(body: &Value) -> (r: Result<QuoteRound1, String>)
    ensures
        match r {
            Ok(message) => round1_refusal(body@) is None && round1_said(body@, message),
            Err(e) => round1_refusal(body@) == Some(e@),
        },
{
    let party = match parse_party(body.get("party")) {
        Err(e) => {
            return Err(e);
        },
        Ok(read) => read,
    };
    let products = match parse_product_round1_list(body.get("products"), "product rounds", MAX_PRODUCTS, party) {
        Err(e) => {
            return Err(e);
        },
        Ok(read) => read,
    };
    let ranges = match parse_range_round1_list(body.get("ranges"), "range rounds", MAX_RANGES, party) {
        Err(e) => {
            return Err(e);
        },
        Ok(read) => read,
    };
    let winner = match parse_opening_round1_member(body.get("winner"), party) {
        Err(e) => {
            return Err(e);
        },
        Ok(read) => read,
    };
    Ok(QuoteRound1 { party, products, ranges, winner })
}

/// Why a document is not the body of such a message.
pub open spec fn challenge_refusal(body: Json) -> Option<Seq<char>> {
either(
quorum_refusal(body.field("quorum"@)),
either(
product_challenge_list_refusal(body.field("products"@), "product challenges"@, MAX_PRODUCTS as nat),
either(
range_challenge_list_refusal(body.field("ranges"@), "range challenges"@, MAX_RANGES as nat),
opening_challenge_member_refusal(body.field("winner"@)))))
}

/// Whether a message is the one that a body writes.
pub open spec fn challenge_said(body: Json, message: QuoteChallenges) -> bool {
    &&& message.winner.quorum@ == parties_in(body.field("quorum"@))
    &&& product_challenge_list_said(body.field("products"@), message.products@, message.winner.quorum@)
    &&& range_challenge_list_said(body.field("ranges"@), message.ranges@, message.winner.quorum@)
    &&& opening_challenge_said(body.field("winner"@)->0, message.winner)
}

fn parse_challenge_body(body: &Value) -> (r: Result<QuoteChallenges, String>)
    ensures
        match r {
            Ok(message) => challenge_refusal(body@) is None && challenge_said(body@, message),
            Err(e) => challenge_refusal(body@) == Some(e@),
        },
{
    let quorum = match parse_quorum(body.get("quorum")) {
        Err(e) => {
            return Err(e);
        },
        Ok(read) => read,
    };
    let products = match parse_product_challenge_list(body.get("products"), "product challenges", MAX_PRODUCTS,
        &quorum) {
        Err(e) => {
            return Err(e);
        },
        Ok(read) => read,
    };
    let ranges = match parse_range_challenge_list(body.get("ranges"), "range challenges", MAX_RANGES, &quorum) {
        Err(e) => {
            return Err(e);
        },
        Ok(read) => read,
    };
    let winner = match parse_opening_challenge_member(body.get("winner"), &quorum) {
        Err(e) => {
            return Err(e);
        },
        Ok(read) => read,
    };
    Ok(QuoteChallenges { products, ranges, winner })
}

/// Why a document is not the body of such a message.
pub open spec fn round2_refusal(body: Json) -> Option<Seq<char>> {
either(
party_refusal(body.field("party"@)),
either(
product_round2_list_refusal(body.field("products"@), "product responses"@, MAX_PRODUCTS as nat),
either(
range_round2_list_refusal(body.field("ranges"@), "range responses"@, MAX_RANGES as nat),
pair_refusal(
    body.field("winner"@),
    "winner response"@,
    "winner response must contain two scalars"@,
    "winner value answer"@,
    "winner blinding answer"@,
))))
}

/// Whether a message is the one that a body writes.
pub open spec fn round2_said(body: Json, message: QuoteRound2) -> bool {
    &&& unsigned_in(body.field("party"@)) == Some(message.party as nat)
    &&& product_round2_list_said(body.field("products"@), message.products@, message.party)
    &&& range_round2_list_said(body.field("ranges"@), message.ranges@, message.party)
    &&& pair_said(body.field("winner"@), (message.winner.value_answer, message.winner.blinding_answer))
        && message.winner.party == message.party
}

fn parse_round2_body(body: &Value) -> (r: Result<QuoteRound2, String>)
    ensures
        match r {
            Ok(message) => round2_refusal(body@) is None && round2_said(body@, message),
            Err(e) => round2_refusal(body@) == Some(e@),
        },
{
    let party = match parse_party(body.get("party")) {
        Err(e) => {
            return Err(e);
        },
        Ok(read) => read,
    };
    let products = match parse_product_round2_list(body.get("products"), "product responses", MAX_PRODUCTS, party) {
        Err(e) => {
            return Err(e);
        },
        Ok(read) => read,
    };
    let ranges = match parse_range_round2_list(body.get("ranges"), "range responses", MAX_RANGES, party) {
        Err(e) => {
            return Err(e);
        },
        Ok(read) => read,
    };
    let answers = match parse_pair(body.get("winner"), "winner response", "winner response must contain two scalars",
        "winner value answer", "winner blinding answer") {
        Err(e) => {
            return Err(e);
        },
        Ok(read) => read,
    };
    Ok(QuoteRound2 { party, products, ranges, winner: OpeningRound2 { party, value_answer: answers.0,
        blinding_answer: answers.1 } })
}

/// Why a document is not the body of a message of a kind.
pub open spec fn body_refusal(kind: Seq<char>, body: Json) -> Option<Seq<char>> {
    if kind == "evaluations"@ {
        evaluations_refusal(body)
    } else if kind == "relations"@ {
        relations_refusal(body)
    } else if kind == "round1-seal"@ {
        seals_refusal(body)
    } else if kind == "round1"@ {
        round1_refusal(body)
    } else if kind == "challenge"@ {
        challenge_refusal(body)
    } else if kind == "round2"@ {
        round2_refusal(body)
    } else {
        Some("unknown quote wire message type"@)
    }
}

/// Whether a message is the one that a body of a kind writes.
pub open spec fn message_said(kind: Seq<char>, body: Json, message: Message) -> bool {
    &&& kind == kind_of(message)
    &&& match message {
        Message::Evaluations(value) => evaluations_said(body, value),
        Message::RelationEvaluations(value) => relations_said(body, value),
        Message::Round1Seal(value) => seals_said(body, value),
        Message::Round1(value) => round1_said(body, value),
        Message::Challenge(value) => challenge_said(body, value),
        Message::Round2(value) => round2_said(body, value),
    }
}

/// Why a document is not a public round.
pub open spec fn envelope_refusal(document: Json) -> Option<Seq<char>> {
    either(
        object_refusal(document, "quote envelope"@),
        either(
            if unsigned_in(document.field("version"@)) == Some(1nat) {
                None
            } else {
                Some("unsupported quote wire version"@)
            },
            either(
                hex_refusal(document.field("job"@), "quote job"@),
                either(
                    if text_in(document.field("kind"@)) is Some {
                        None
                    } else {
                        Some("quote wire kind is absent"@)
                    },
                    match document.field("body"@) {
                        None => Some("quote wire body is absent"@),
                        Some(body) => either(
                            object_refusal(body, "quote body"@),
                            body_refusal(text_in(document.field("kind"@))->0, body),
                        ),
                    },
                ),
            ),
        ),
    )
}

/// Whether a public round is the one that a document writes.
pub open spec fn envelope_said(document: Json, envelope: Envelope) -> bool {
    &&& envelope.job_id@ == hex_in(document.field("job"@))
    &&& text_in(document.field("kind"@)) is Some
    &&& document.field("body"@) is Some
    &&& message_said(text_in(document.field("kind"@))->0, document.field("body"@)->0, envelope.message)
}

/// Why a byte string is not a public round.
pub open spec fn decode_refusal(raw: Seq<u8>) -> Option<Seq<char>> {
    match json_document(raw) {
        None => Some("quote wire is not JSON"@),
        Some(document) => envelope_refusal(document),
    }
}

/// Reads a public round.
pub fn decode(raw: &[u8]) -> (r: Result<Envelope, String>)
    ensures
        match r {
            Ok(envelope) => decode_refusal(raw@) is None && envelope_said(json_document(raw@)->0, envelope),
            Err(e) => decode_refusal(raw@) == Some(e@),
        },
{
    match parse_json(raw) {
        None => Err("quote wire is not JSON".to_owned()),
        Some(document) => read_envelope(&document),
    }
}

/// Reads a public round out of a document.
pub fn read_envelope(document: &Value) -> (r: Result<Envelope, String>)
    ensures
        match r {
            Ok(envelope) => envelope_refusal(document@) is None && envelope_said(document@, envelope),
            Err(e) => envelope_refusal(document@) == Some(e@),
        },
{
    match check_object(document, "quote envelope") {
        Err(e) => {
            return Err(e);
        },
        Ok(_) => {},
    }
    match as_unsigned(document.get("version")) {
        Some(version) => {
            if version != VERSION {
                return Err("unsupported quote wire version".to_owned());
            }
        },
        None => {
            return Err("unsupported quote wire version".to_owned());
        },
    }
    let job_id = match parse_hex(document.get("job"), "quote job") {
        Err(e) => {
            return Err(e);
        },
        Ok(id) => id,
    };
    let kind = match as_text(document.get("kind")) {
        None => {
            return Err("quote wire kind is absent".to_owned());
        },
        Some(kind) => kind,
    };
    let body = match document.get("body") {
        None => {
            return Err("quote wire body is absent".to_owned());
        },
        Some(body) => body,
    };
    match check_object(body, "quote body") {
        Err(e) => {
            return Err(e);
        },
        Ok(_) => {},
    }
    match read_message(kind, body) {
        Err(e) => Err(e),
        Ok(message) => Ok(Envelope { job_id, message }),
    }
}

fn read_message(kind: &str, body: &Value) -> (r: Result<Message, String>)
    ensures
        match r {
            Ok(message) => body_refusal(kind@, body@) is None && message_said(kind@, body@, message),
            Err(e) => body_refusal(kind@, body@) == Some(e@),
        },
{
    if same_text(kind, "evaluations") {
        match parse_evaluations_body(body) {
            Err(e) => Err(e),
            Ok(value) => Ok(Message::Evaluations(value)),
        }
    } else if same_text(kind, "relations") {
        match parse_relations_body(body) {
            Err(e) => Err(e),
            Ok(value) => Ok(Message::RelationEvaluations(value)),
        }
    } else if same_text(kind, "round1-seal") {
        match parse_seals_body(body) {
            Err(e) => Err(e),
            Ok(value) => Ok(Message::Round1Seal(value)),
        }
    } else if same_text(kind, "round1") {
        match parse_round1_body(body) {
            Err(e) => Err(e),
            Ok(value) => Ok(Message::Round1(value)),
        }
    } else if same_text(kind, "challenge") {
        match parse_challenge_body(body) {
            Err(e) => Err(e),
            Ok(value) => Ok(Message::Challenge(value)),
        }
    } else if same_text(kind, "round2") {
        match parse_round2_body(body) {
            Err(e) => Err(e),
            Ok(value) => Ok(Message::Round2(value)),
        }
    } else {
        Err("unknown quote wire message type".to_owned())
    }
}


} // verus!
