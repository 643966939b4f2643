//! What is written of a public round is what is read back.

use vstd::prelude::*;
use crate::fields::{
    first_none, hex_in, hex_json, hex_json_read, items, point_check, points_refusal, points_said, scalar_check,
    scalars_refusal, scalars_said,
};
use crate::group::{all_points, all_scalars, is_point, is_scalar, Point, Scalar};
use crate::json::{json_text, Json};
use crate::quote_messages::{
    body_json, challenge_json, challenges_differ, envelope_json, evaluations_json, kind_of, object_json,
    opening_challenge_json, opening_round1_json, pair_json, party_unfit, points_json, product_challenge_json,
    product_challenge_list_json, product_evaluations_json, product_evaluations_list_json, product_round1_json,
    product_round1_list_json, product_round2_json, product_round2_list_json, product_seals_list_json, quorum_json,
    quorum_unfit, range_challenge_all_fit, range_challenge_json, range_challenge_list_json,
    range_challenge_list_unfit, range_challenge_unfit, range_evaluations_list_unfit, range_relation_list_unfit,
    range_round1_list_unfit, range_round2_list_unfit, range_evaluations_all_fit, range_evaluations_json,
    range_evaluations_list_json, range_evaluations_unfit, range_relation_all_fit, range_relation_json,
    range_relation_unfit, range_relations_list_json, range_round1_all_fit, range_round1_json, range_round1_list_json,
    range_round1_unfit, range_round2_all_fit, range_round2_json, range_round2_list_json, range_round2_unfit,
    range_seals_list_json, relations_json, round1_json, round2_json, scalars_json, seals_json, triple_json, unfit,
    wires_json, Envelope, Message, OpeningChallenge, OpeningRound1, ProductChallenge, ProductEvaluations,
    ProductRound1, ProductRound1Seal, ProductRound2, QuoteChallenges, QuoteNodeEvaluations, QuoteRelationEvaluations,
    QuoteRound1, QuoteRound1Seals, QuoteRound2, RangeChallenge, RangeEvaluations, RangeRelationEvaluations,
    RangeRound1, RangeRound1Seal, RangeRound2, WireEvaluation, MAX_PRODUCTS, MAX_RANGES, MAX_RANGE_BITS,
    MAX_WIRE_POINTS,
};
use crate::quote_wire::{
    bit_answer_check, challenge_refusal, challenge_said, envelope_refusal, envelope_said, evaluations_refusal,
    evaluations_said, opening_challenge_refusal, opening_challenge_said, opening_round1_refusal, opening_round1_said,
    pair_refusal, pair_said, parties_in, party_check, product_challenge_check, product_challenge_list_refusal,
    product_challenge_list_said, product_challenge_refusal, product_challenge_said, product_evaluations_check,
    product_evaluations_list_refusal, product_evaluations_list_said, product_evaluations_refusal,
    product_evaluations_said, product_round1_check, product_round1_list_refusal, product_round1_list_said,
    product_round1_refusal, product_round1_said, product_round2_check, product_round2_list_refusal,
    product_round2_list_said, product_round2_refusal, product_round2_said, product_seal_check,
    product_seal_list_refusal, product_seal_list_said, product_seal_refusal, product_seal_said, quorum_refusal,
    range_challenge_check, range_challenge_list_refusal, range_challenge_list_said, range_challenge_refusal,
    range_challenge_said, range_evaluations_check, range_evaluations_list_refusal, range_evaluations_list_said,
    range_evaluations_refusal, range_evaluations_said, range_relation_check, range_relation_list_refusal,
    range_relation_list_said, range_relation_refusal, range_relation_said, range_round1_check,
    range_round1_list_refusal, range_round1_list_said, range_round1_refusal, range_round1_said, range_round2_check,
    range_round2_list_refusal, range_round2_list_said, range_round2_refusal, range_round2_said, range_seal_check,
    range_seal_list_refusal, range_seal_list_said, range_seal_refusal, range_seal_said, relations_refusal,
    relations_said, round1_refusal, round1_said, round2_refusal, round2_said, seals_refusal, seals_said,
    triple_refusal, triple_said, wires_said,
};

verus! {

/// The names of members and kinds differ.
proof fn names_differ()
    ensures
        "b"@ != "l"@,
        "b"@ != "v"@,
        "body"@ != "job"@,
        "body"@ != "kind"@,
        "body"@ != "version"@,
        "c"@ != "f"@,
        "c"@ != "l"@,
        "c"@ != "lx"@,
        "c"@ != "n"@,
        "c"@ != "p"@,
        "c"@ != "x"@,
        "challenge"@ != "evaluations"@,
        "challenge"@ != "relations"@,
        "challenge"@ != "round1"@,
        "challenge"@ != "round1-seal"@,
        "challenge"@ != "round2"@,
        "evaluations"@ != "relations"@,
        "evaluations"@ != "round1"@,
        "evaluations"@ != "round1-seal"@,
        "evaluations"@ != "round2"@,
        "f"@ != "l"@,
        "f"@ != "lx"@,
        "f"@ != "p"@,
        "f"@ != "r"@,
        "f"@ != "x"@,
        "job"@ != "kind"@,
        "job"@ != "version"@,
        "kind"@ != "version"@,
        "l"@ != "lx"@,
        "l"@ != "p"@,
        "l"@ != "x"@,
        "lx"@ != "p"@,
        "lx"@ != "x"@,
        "n"@ != "x"@,
        "p"@ != "x"@,
        "party"@ != "products"@,
        "party"@ != "ranges"@,
        "party"@ != "winner"@,
        "party"@ != "wires"@,
        "products"@ != "quorum"@,
        "products"@ != "ranges"@,
        "products"@ != "winner"@,
        "quorum"@ != "ranges"@,
        "quorum"@ != "winner"@,
        "ranges"@ != "winner"@,
        "ranges"@ != "wires"@,
        "relations"@ != "round1"@,
        "relations"@ != "round1-seal"@,
        "relations"@ != "round2"@,
        "round1"@ != "round1-seal"@,
        "round1"@ != "round2"@,
        "round1-seal"@ != "round2"@,
{
    reveal_strlit("b");
    reveal_strlit("body");
    reveal_strlit("c");
    reveal_strlit("challenge");
    reveal_strlit("evaluations");
    reveal_strlit("f");
    reveal_strlit("job");
    reveal_strlit("kind");
    reveal_strlit("l");
    reveal_strlit("lx");
    reveal_strlit("n");
    reveal_strlit("p");
    reveal_strlit("party");
    reveal_strlit("products");
    reveal_strlit("quorum");
    reveal_strlit("r");
    reveal_strlit("ranges");
    reveal_strlit("relations");
    reveal_strlit("round1");
    reveal_strlit("round1-seal");
    reveal_strlit("round2");
    reveal_strlit("v");
    reveal_strlit("version");
    reveal_strlit("winner");
    reveal_strlit("wires");
    reveal_strlit("x");
    assert("b"@[0] != "l"@[0]);
    assert("b"@[0] != "v"@[0]);
    assert("body"@.len() != "job"@.len());
    assert("body"@[0] != "kind"@[0]);
    assert("body"@.len() != "version"@.len());
    assert("c"@[0] != "f"@[0]);
    assert("c"@[0] != "l"@[0]);
    assert("c"@.len() != "lx"@.len());
    assert("c"@[0] != "n"@[0]);
    assert("c"@[0] != "p"@[0]);
    assert("c"@[0] != "x"@[0]);
    assert("challenge"@.len() != "evaluations"@.len());
    assert("challenge"@[0] != "relations"@[0]);
    assert("challenge"@.len() != "round1"@.len());
    assert("challenge"@.len() != "round1-seal"@.len());
    assert("challenge"@.len() != "round2"@.len());
    assert("evaluations"@.len() != "relations"@.len());
    assert("evaluations"@.len() != "round1"@.len());
    assert("evaluations"@[0] != "round1-seal"@[0]);
    assert("evaluations"@.len() != "round2"@.len());
    assert("f"@[0] != "l"@[0]);
    assert("f"@.len() != "lx"@.len());
    assert("f"@[0] != "p"@[0]);
    assert("f"@[0] != "r"@[0]);
    assert("f"@[0] != "x"@[0]);
    assert("job"@.len() != "kind"@.len());
    assert("job"@.len() != "version"@.len());
    assert("kind"@.len() != "version"@.len());
    assert("l"@.len() != "lx"@.len());
    assert("l"@[0] != "p"@[0]);
    assert("l"@[0] != "x"@[0]);
    assert("lx"@.len() != "p"@.len());
    assert("lx"@.len() != "x"@.len());
    assert("n"@[0] != "x"@[0]);
    assert("p"@[0] != "x"@[0]);
    assert("party"@.len() != "products"@.len());
    assert("party"@.len() != "ranges"@.len());
    assert("party"@.len() != "winner"@.len());
    assert("party"@[0] != "wires"@[0]);
    assert("products"@.len() != "quorum"@.len());
    assert("products"@.len() != "ranges"@.len());
    assert("products"@.len() != "winner"@.len());
    assert("quorum"@[0] != "ranges"@[0]);
    assert("quorum"@[0] != "winner"@[0]);
    assert("ranges"@[0] != "winner"@[0]);
    assert("ranges"@.len() != "wires"@.len());
    assert("relations"@.len() != "round1"@.len());
    assert("relations"@.len() != "round1-seal"@.len());
    assert("relations"@.len() != "round2"@.len());
    assert("round1"@.len() != "round1-seal"@.len());
    assert("round1"@[5] != "round2"@[5]);
    assert("round1-seal"@.len() != "round2"@.len());
}

/// A member whose name no later member has is found.
pub(crate) proof fn lookup(fields: Seq<(Seq<char>, Json)>, at: int)
    requires
        0 <= at < fields.len(),
        forall|j: int| at < j < fields.len() ==> (#[trigger] fields[j]).0 != fields[at].0,
    ensures
        object_json(fields).field(fields[at].0) == Some(fields[at].1),
    decreases fields.len(),
{
    if at < fields.len() - 1 {
        let rest = fields.drop_last();
        assert(rest[at] == fields[at]);
        assert forall|j: int| at < j < rest.len() implies (#[trigger] rest[j]).0 != rest[at].0 by {
            assert(fields[j].0 != fields[at].0);
        }
        lookup(rest, at);
        assert(fields[fields.len() - 1].0 != fields[at].0);
    }
}

proof fn points_read(points: Seq<Point>, name: Seq<char>, maximum: nat)
    requires
        all_points(points),
        1 <= points.len() <= maximum,
    ensures
        points_refusal(Some(points_json(points)), name, maximum) is None,
{
    let value = Some(points_json(points));
    assert forall|i: int| 0 <= i < items(value).len() implies (point_check(name))(#[trigger] items(value)[i]) is None by {
        assert(is_point(points[i]@));
        hex_json_read(points[i]@, name);
    }
    first_none(items(value), point_check(name));
}

proof fn points_same(points: Seq<Point>, others: Seq<Point>)
    requires
        points_said(Some(points_json(points)), others),
    ensures
        points_json(others) == points_json(points),
        others.len() == points.len(),
{
    assert forall|i: int| 0 <= i < points.len() implies hex_json(others[i]@) == hex_json(#[trigger] points[i]@) by {
        hex_json_read(points[i]@, Seq::empty());
        assert(others[i]@ == hex_in(Some(items(Some(points_json(points)))[i])));
    }
    assert(points_json(others)->Array_0 =~= points_json(points)->Array_0);
}

proof fn scalars_read(scalars: Seq<Scalar>, name: Seq<char>, maximum: nat)
    requires
        all_scalars(scalars),
        1 <= scalars.len() <= maximum,
    ensures
        scalars_refusal(Some(scalars_json(scalars)), name, maximum) is None,
{
    let value = Some(scalars_json(scalars));
    assert forall|i: int| 0 <= i < items(value).len() implies (scalar_check(name))(#[trigger] items(value)[i]) is None by {
        assert(is_scalar(scalars[i]@));
        hex_json_read(scalars[i]@, name);
    }
    first_none(items(value), scalar_check(name));
}

proof fn scalars_same(scalars: Seq<Scalar>, others: Seq<Scalar>)
    requires
        scalars_said(Some(scalars_json(scalars)), others),
    ensures
        scalars_json(others) == scalars_json(scalars),
        others.len() == scalars.len(),
{
    assert forall|i: int| 0 <= i < scalars.len() implies hex_json(others[i]@) == hex_json(#[trigger] scalars[i]@) by {
        hex_json_read(scalars[i]@, Seq::empty());
        assert(others[i]@ == hex_in(Some(items(Some(scalars_json(scalars)))[i])));
    }
    assert(scalars_json(others)->Array_0 =~= scalars_json(scalars)->Array_0);
}

proof fn triple_read(
    value: (Scalar, Scalar, Scalar),
    name: Seq<char>,
    otherwise: Seq<char>,
    a: Seq<char>,
    b: Seq<char>,
    c: Seq<char>,
)
    requires
        is_scalar(value.0@),
        is_scalar(value.1@),
        is_scalar(value.2@),
    ensures
        triple_refusal(Some(triple_json(value)), name, otherwise, a, b, c) is None,
{
    hex_json_read(value.0@, a);
    hex_json_read(value.1@, b);
    hex_json_read(value.2@, c);
    let all = items(Some(triple_json(value)));
    assert(all.len() == 3);
    assert(all[0] == hex_json(value.0@) && all[1] == hex_json(value.1@) && all[2] == hex_json(value.2@));
}

proof fn triple_same(value: (Scalar, Scalar, Scalar), other: (Scalar, Scalar, Scalar))
    requires
        triple_said(Some(triple_json(value)), other),
    ensures
        triple_json(other) == triple_json(value),
{
    hex_json_read(value.0@, Seq::empty());
    hex_json_read(value.1@, Seq::empty());
    hex_json_read(value.2@, Seq::empty());
    let all = items(Some(triple_json(value)));
    assert(all[0] == hex_json(value.0@) && all[1] == hex_json(value.1@) && all[2] == hex_json(value.2@));
    assert(triple_json(other)->Array_0 =~= triple_json(value)->Array_0);
}

proof fn pair_read(value: (Scalar, Scalar), name: Seq<char>, otherwise: Seq<char>, a: Seq<char>, b: Seq<char>)
    requires
        is_scalar(value.0@),
        is_scalar(value.1@),
    ensures
        pair_refusal(Some(pair_json(value)), name, otherwise, a, b) is None,
{
    hex_json_read(value.0@, a);
    hex_json_read(value.1@, b);
    let all = items(Some(pair_json(value)));
    assert(all.len() == 2);
    assert(all[0] == hex_json(value.0@) && all[1] == hex_json(value.1@));
}

proof fn pair_same(value: (Scalar, Scalar), other: (Scalar, Scalar))
    requires
        pair_said(Some(pair_json(value)), other),
    ensures
        pair_json(other) == pair_json(value),
{
    hex_json_read(value.0@, Seq::empty());
    hex_json_read(value.1@, Seq::empty());
    let all = items(Some(pair_json(value)));
    assert(all[0] == hex_json(value.0@) && all[1] == hex_json(value.1@));
    assert(pair_json(other)->Array_0 =~= pair_json(value)->Array_0);
}

/// Every part is a point's or a scalar's encoding.
pub open spec fn product_evaluations_canonical(value: ProductEvaluations) -> bool {
    &&& is_point(value.factor@)
    &&& is_point(value.relation@)
}

proof fn product_evaluations_fields(value: ProductEvaluations)
    ensures
        product_evaluations_json(value).field("f"@) == Some(hex_json(value.factor@)),
        product_evaluations_json(value).field("r"@) == Some(hex_json(value.relation@)),
{
    names_differ();
    let fields = seq![("f"@, hex_json(value.factor@)), ("r"@, hex_json(value.relation@))];
    lookup(fields, 0);
    lookup(fields, 1);
}

proof fn product_evaluations_read(value: ProductEvaluations)
    requires
        product_evaluations_canonical(value),
    ensures
        product_evaluations_refusal(product_evaluations_json(value)) is None,
{
    product_evaluations_fields(value);
    hex_json_read(value.factor@, "product factor"@);
    hex_json_read(value.relation@, "product relation"@);
}

proof fn product_evaluations_same(value: ProductEvaluations, other: ProductEvaluations)
    requires
        product_evaluations_said(product_evaluations_json(value), other),
    ensures
        product_evaluations_json(other) == product_evaluations_json(value),
{
    product_evaluations_fields(value);
    hex_json_read(value.factor@, Seq::empty());
    hex_json_read(value.relation@, Seq::empty());
    assert(seq![("f"@, hex_json(other.factor@)), ("r"@, hex_json(other.relation@))] =~= seq![("f"@,
        hex_json(value.factor@)), ("r"@, hex_json(value.relation@))]);
}

/// Every part is a point's or a scalar's encoding.
pub open spec fn product_round1_canonical(value: ProductRound1) -> bool {
    &&& is_point(value.factor@)
    &&& is_point(value.product@)
}

proof fn product_round1_fields(value: ProductRound1)
    ensures
        product_round1_json(value).field("c"@) == Some(hex_json(value.context_digest@)),
        product_round1_json(value).field("f"@) == Some(hex_json(value.factor@)),
        product_round1_json(value).field("p"@) == Some(hex_json(value.product@)),
{
    names_differ();
    let fields = seq![("c"@, hex_json(value.context_digest@)), ("f"@, hex_json(value.factor@)), ("p"@,
        hex_json(value.product@))];
    lookup(fields, 0);
    lookup(fields, 1);
    lookup(fields, 2);
}

proof fn product_round1_read(value: ProductRound1)
    requires
        product_round1_canonical(value),
    ensures
        product_round1_refusal(product_round1_json(value)) is None,
{
    product_round1_fields(value);
    hex_json_read(value.context_digest@, "product context"@);
    hex_json_read(value.factor@, "product nonce"@);
    hex_json_read(value.product@, "product relation nonce"@);
}

proof fn product_round1_same(value: ProductRound1, other: ProductRound1)
    requires
        product_round1_said(product_round1_json(value), other),
    ensures
        product_round1_json(other) == product_round1_json(value),
{
    product_round1_fields(value);
    hex_json_read(value.context_digest@, Seq::empty());
    hex_json_read(value.factor@, Seq::empty());
    hex_json_read(value.product@, Seq::empty());
    assert(seq![("c"@, hex_json(other.context_digest@)), ("f"@, hex_json(other.factor@)), ("p"@,
        hex_json(other.product@))] =~= seq![("c"@, hex_json(value.context_digest@)), ("f"@, hex_json(value.factor@)),
        ("p"@, hex_json(value.product@))]);
}

/// Every part is a point's or a scalar's encoding.
pub open spec fn product_challenge_canonical(value: ProductChallenge) -> bool {
    &&& is_point(value.factor@)
    &&& is_point(value.product@)
    &&& is_scalar(value.challenge@)
}

proof fn product_challenge_fields(value: ProductChallenge)
    ensures
        product_challenge_json(value).field("c"@) == Some(hex_json(value.context_digest@)),
        product_challenge_json(value).field("f"@) == Some(hex_json(value.factor@)),
        product_challenge_json(value).field("p"@) == Some(hex_json(value.product@)),
        product_challenge_json(value).field("x"@) == Some(hex_json(value.challenge@)),
{
    names_differ();
    let fields = seq![("c"@, hex_json(value.context_digest@)), ("f"@, hex_json(value.factor@)), ("p"@,
        hex_json(value.product@)), ("x"@, hex_json(value.challenge@))];
    lookup(fields, 0);
    lookup(fields, 1);
    lookup(fields, 2);
    lookup(fields, 3);
}

proof fn product_challenge_read(value: ProductChallenge)
    requires
        product_challenge_canonical(value),
    ensures
        product_challenge_refusal(product_challenge_json(value)) is None,
{
    product_challenge_fields(value);
    hex_json_read(value.context_digest@, "product context"@);
    hex_json_read(value.factor@, "product nonce"@);
    hex_json_read(value.product@, "product relation nonce"@);
    hex_json_read(value.challenge@, "product challenge"@);
}

proof fn product_challenge_same(value: ProductChallenge, other: ProductChallenge)
    requires
        product_challenge_said(product_challenge_json(value), other),
    ensures
        product_challenge_json(other) == product_challenge_json(value),
{
    product_challenge_fields(value);
    hex_json_read(value.context_digest@, Seq::empty());
    hex_json_read(value.factor@, Seq::empty());
    hex_json_read(value.product@, Seq::empty());
    hex_json_read(value.challenge@, Seq::empty());
    assert(seq![("c"@, hex_json(other.context_digest@)), ("f"@, hex_json(other.factor@)), ("p"@,
        hex_json(other.product@)), ("x"@, hex_json(other.challenge@))] =~= seq![("c"@,
        hex_json(value.context_digest@)), ("f"@, hex_json(value.factor@)), ("p"@, hex_json(value.product@)), ("x"@,
        hex_json(value.challenge@))]);
}

/// Every part is a point's or a scalar's encoding.
pub open spec fn range_evaluations_canonical(value: RangeEvaluations) -> bool {
    &&& all_points(value.bits@)
    &&& is_point(value.value@)
}

proof fn range_evaluations_fields(value: RangeEvaluations)
    ensures
        range_evaluations_json(value).field("b"@) == Some(points_json(value.bits@)),
        range_evaluations_json(value).field("v"@) == Some(hex_json(value.value@)),
{
    names_differ();
    let fields = seq![("b"@, points_json(value.bits@)), ("v"@, hex_json(value.value@))];
    lookup(fields, 0);
    lookup(fields, 1);
}

proof fn range_evaluations_read(value: RangeEvaluations)
    requires
        range_evaluations_canonical(value),
        range_evaluations_unfit(value) is None,
    ensures
        range_evaluations_refusal(range_evaluations_json(value)) is None,
{
    range_evaluations_fields(value);
    hex_json_read(value.value@, "range value"@);
    points_read(value.bits@, "range bits"@, MAX_RANGE_BITS as nat);
}

proof fn range_evaluations_same(value: RangeEvaluations, other: RangeEvaluations)
    requires
        range_evaluations_said(range_evaluations_json(value), other),
    ensures
        range_evaluations_json(other) == range_evaluations_json(value),
        range_evaluations_unfit(other) == range_evaluations_unfit(value) || range_evaluations_unfit(value) is Some,
{
    range_evaluations_fields(value);
    hex_json_read(value.value@, Seq::empty());
    points_same(value.bits@, other.bits@);
    assert(seq![("b"@, points_json(other.bits@)), ("v"@, hex_json(other.value@))] =~= seq![("b"@,
        points_json(value.bits@)), ("v"@, hex_json(value.value@))]);
}

/// Every part is a point's or a scalar's encoding.
pub open spec fn range_round1_canonical(value: RangeRound1) -> bool {
    &&& all_points(value.bit_factor@)
    &&& is_point(value.linkage@)
    &&& all_points(value.bit_product@)
}

proof fn range_round1_fields(value: RangeRound1)
    ensures
        range_round1_json(value).field("c"@) == Some(hex_json(value.context_digest@)),
        range_round1_json(value).field("f"@) == Some(points_json(value.bit_factor@)),
        range_round1_json(value).field("l"@) == Some(hex_json(value.linkage@)),
        range_round1_json(value).field("p"@) == Some(points_json(value.bit_product@)),
{
    names_differ();
    let fields = seq![("c"@, hex_json(value.context_digest@)), ("f"@, points_json(value.bit_factor@)), ("l"@,
        hex_json(value.linkage@)), ("p"@, points_json(value.bit_product@))];
    lookup(fields, 0);
    lookup(fields, 1);
    lookup(fields, 2);
    lookup(fields, 3);
}

proof fn range_round1_read(value: RangeRound1)
    requires
        range_round1_canonical(value),
        range_round1_unfit(value) is None,
    ensures
        range_round1_refusal(range_round1_json(value)) is None,
{
    range_round1_fields(value);
    points_read(value.bit_factor@, "range factors"@, MAX_RANGE_BITS as nat);
    points_read(value.bit_product@, "range products"@, MAX_RANGE_BITS as nat);
    hex_json_read(value.context_digest@, "range context"@);
    hex_json_read(value.linkage@, "range linkage"@);
}

proof fn range_round1_same(value: RangeRound1, other: RangeRound1)
    requires
        range_round1_said(range_round1_json(value), other),
    ensures
        range_round1_json(other) == range_round1_json(value),
        range_round1_unfit(other) == range_round1_unfit(value) || range_round1_unfit(value) is Some,
{
    range_round1_fields(value);
    points_same(value.bit_factor@, other.bit_factor@);
    points_same(value.bit_product@, other.bit_product@);
    hex_json_read(value.context_digest@, Seq::empty());
    hex_json_read(value.linkage@, Seq::empty());
    assert(seq![("c"@, hex_json(other.context_digest@)), ("f"@, points_json(other.bit_factor@)), ("l"@,
        hex_json(other.linkage@)), ("p"@, points_json(other.bit_product@))] =~= seq![("c"@,
        hex_json(value.context_digest@)), ("f"@, points_json(value.bit_factor@)), ("l"@, hex_json(value.linkage@)),
        ("p"@, points_json(value.bit_product@))]);
}

/// Every part is a point's or a scalar's encoding.
pub open spec fn range_challenge_canonical(value: RangeChallenge) -> bool {
    &&& all_points(value.bit_factor@)
    &&& is_point(value.linkage@)
    &&& is_scalar(value.linkage_challenge@)
    &&& all_points(value.bit_product@)
    &&& all_scalars(value.bit_challenges@)
}

proof fn range_challenge_fields(value: RangeChallenge)
    ensures
        range_challenge_json(value).field("c"@) == Some(hex_json(value.context_digest@)),
        range_challenge_json(value).field("f"@) == Some(points_json(value.bit_factor@)),
        range_challenge_json(value).field("l"@) == Some(hex_json(value.linkage@)),
        range_challenge_json(value).field("lx"@) == Some(hex_json(value.linkage_challenge@)),
        range_challenge_json(value).field("p"@) == Some(points_json(value.bit_product@)),
        range_challenge_json(value).field("x"@) == Some(scalars_json(value.bit_challenges@)),
{
    names_differ();
    let fields = seq![("c"@, hex_json(value.context_digest@)), ("f"@, points_json(value.bit_factor@)), ("l"@,
        hex_json(value.linkage@)), ("lx"@, hex_json(value.linkage_challenge@)), ("p"@,
        points_json(value.bit_product@)), ("x"@, scalars_json(value.bit_challenges@))];
    lookup(fields, 0);
    lookup(fields, 1);
    lookup(fields, 2);
    lookup(fields, 3);
    lookup(fields, 4);
    lookup(fields, 5);
}

proof fn range_challenge_read(value: RangeChallenge)
    requires
        range_challenge_canonical(value),
        range_challenge_unfit(value) is None,
    ensures
        range_challenge_refusal(range_challenge_json(value)) is None,
{
    range_challenge_fields(value);
    points_read(value.bit_factor@, "range challenge factors"@, MAX_RANGE_BITS as nat);
    points_read(value.bit_product@, "range challenge products"@, MAX_RANGE_BITS as nat);
    scalars_read(value.bit_challenges@, "range bit challenges"@, MAX_RANGE_BITS as nat);
    hex_json_read(value.context_digest@, "range context"@);
    hex_json_read(value.linkage@, "range linkage"@);
    hex_json_read(value.linkage_challenge@, "range linkage challenge"@);
}

proof fn range_challenge_same(value: RangeChallenge, other: RangeChallenge)
    requires
        range_challenge_said(range_challenge_json(value), other),
    ensures
        range_challenge_json(other) == range_challenge_json(value),
        range_challenge_unfit(other) == range_challenge_unfit(value) || range_challenge_unfit(value) is Some,
{
    range_challenge_fields(value);
    points_same(value.bit_factor@, other.bit_factor@);
    points_same(value.bit_product@, other.bit_product@);
    scalars_same(value.bit_challenges@, other.bit_challenges@);
    hex_json_read(value.context_digest@, Seq::empty());
    hex_json_read(value.linkage@, Seq::empty());
    hex_json_read(value.linkage_challenge@, Seq::empty());
    assert(seq![("c"@, hex_json(other.context_digest@)), ("f"@, points_json(other.bit_factor@)), ("l"@,
        hex_json(other.linkage@)), ("lx"@, hex_json(other.linkage_challenge@)), ("p"@,
        points_json(other.bit_product@)), ("x"@, scalars_json(other.bit_challenges@))] =~= seq![("c"@,
        hex_json(value.context_digest@)), ("f"@, points_json(value.bit_factor@)), ("l"@, hex_json(value.linkage@)),
        ("lx"@, hex_json(value.linkage_challenge@)), ("p"@, points_json(value.bit_product@)), ("x"@,
        scalars_json(value.bit_challenges@))]);
}

/// Every part is a point's or a scalar's encoding.
pub open spec fn opening_round1_canonical(value: OpeningRound1) -> bool {
    &&& is_point(value.nonce_commitment@)
}

proof fn opening_round1_fields(value: OpeningRound1)
    ensures
        opening_round1_json(value).field("c"@) == Some(hex_json(value.context_digest@)),
        opening_round1_json(value).field("n"@) == Some(hex_json(value.nonce_commitment@)),
{
    names_differ();
    let fields = seq![("c"@, hex_json(value.context_digest@)), ("n"@, hex_json(value.nonce_commitment@))];
    lookup(fields, 0);
    lookup(fields, 1);
}

proof fn opening_round1_read(value: OpeningRound1)
    requires
        opening_round1_canonical(value),
    ensures
        opening_round1_refusal(opening_round1_json(value)) is None,
{
    opening_round1_fields(value);
    hex_json_read(value.context_digest@, "winner context"@);
    hex_json_read(value.nonce_commitment@, "winner nonce"@);
}

proof fn opening_round1_same(value: OpeningRound1, other: OpeningRound1)
    requires
        opening_round1_said(opening_round1_json(value), other),
    ensures
        opening_round1_json(other) == opening_round1_json(value),
{
    opening_round1_fields(value);
    hex_json_read(value.context_digest@, Seq::empty());
    hex_json_read(value.nonce_commitment@, Seq::empty());
    assert(seq![("c"@, hex_json(other.context_digest@)), ("n"@, hex_json(other.nonce_commitment@))] =~= seq![("c"@,
        hex_json(value.context_digest@)), ("n"@, hex_json(value.nonce_commitment@))]);
}

/// Every part is a point's or a scalar's encoding.
pub open spec fn opening_challenge_canonical(value: OpeningChallenge) -> bool {
    &&& is_point(value.nonce_commitment@)
    &&& is_scalar(value.challenge@)
}

proof fn opening_challenge_fields(value: OpeningChallenge)
    ensures
        opening_challenge_json(value).field("c"@) == Some(hex_json(value.context_digest@)),
        opening_challenge_json(value).field("n"@) == Some(hex_json(value.nonce_commitment@)),
        opening_challenge_json(value).field("x"@) == Some(hex_json(value.challenge@)),
{
    names_differ();
    let fields = seq![("c"@, hex_json(value.context_digest@)), ("n"@, hex_json(value.nonce_commitment@)), ("x"@,
        hex_json(value.challenge@))];
    lookup(fields, 0);
    lookup(fields, 1);
    lookup(fields, 2);
}

proof fn opening_challenge_read(value: OpeningChallenge)
    requires
        opening_challenge_canonical(value),
    ensures
        opening_challenge_refusal(opening_challenge_json(value)) is None,
{
    opening_challenge_fields(value);
    hex_json_read(value.context_digest@, "winner context"@);
    hex_json_read(value.nonce_commitment@, "winner nonce"@);
    hex_json_read(value.challenge@, "winner challenge"@);
}

proof fn opening_challenge_same(value: OpeningChallenge, other: OpeningChallenge)
    requires
        opening_challenge_said(opening_challenge_json(value), other),
    ensures
        opening_challenge_json(other) == opening_challenge_json(value),
{
    opening_challenge_fields(value);
    hex_json_read(value.context_digest@, Seq::empty());
    hex_json_read(value.nonce_commitment@, Seq::empty());
    hex_json_read(value.challenge@, Seq::empty());
    assert(seq![("c"@, hex_json(other.context_digest@)), ("n"@, hex_json(other.nonce_commitment@)), ("x"@,
        hex_json(other.challenge@))] =~= seq![("c"@, hex_json(value.context_digest@)), ("n"@,
        hex_json(value.nonce_commitment@)), ("x"@, hex_json(value.challenge@))]);
}

/// Every part is a point's encoding.
pub open spec fn range_relation_canonical(value: RangeRelationEvaluations) -> bool {
    all_points(value.bits@)
}

proof fn range_relation_read(value: RangeRelationEvaluations)
    requires
        range_relation_canonical(value),
        range_relation_unfit(value) is None,
    ensures
        range_relation_refusal(range_relation_json(value)) is None,
{
    points_read(value.bits@, "range relations"@, MAX_RANGE_BITS as nat);
}

proof fn range_relation_same(value: RangeRelationEvaluations, other: RangeRelationEvaluations)
    requires
        range_relation_said(range_relation_json(value), other),
    ensures
        range_relation_json(other) == range_relation_json(value),
        range_relation_unfit(other) == range_relation_unfit(value) || range_relation_unfit(value) is Some,
{
    points_same(value.bits@, other.bits@);
}

/// Every part is a scalar's encoding.
pub open spec fn product_round2_canonical(value: ProductRound2) -> bool {
    &&& is_scalar(value.factor_answer@)
    &&& is_scalar(value.factor_blinding_answer@)
    &&& is_scalar(value.relation_answer@)
}

proof fn product_round2_read(value: ProductRound2)
    requires
        product_round2_canonical(value),
    ensures
        product_round2_refusal(product_round2_json(value)) is None,
{
    triple_read(
        (value.factor_answer, value.factor_blinding_answer, value.relation_answer),
        "product response"@,
        "product response must contain three scalars"@,
        "factor answer"@,
        "factor blinding answer"@,
        "relation answer"@,
    );
}

proof fn product_round2_same(value: ProductRound2, other: ProductRound2)
    requires
        product_round2_said(product_round2_json(value), other),
    ensures
        product_round2_json(other) == product_round2_json(value),
{
    triple_same(
        (value.factor_answer, value.factor_blinding_answer, value.relation_answer),
        (other.factor_answer, other.factor_blinding_answer, other.relation_answer),
    );
}

/// Every part is a scalar's encoding.
pub open spec fn range_round2_canonical(value: RangeRound2) -> bool {
    &&& forall|i: int|
        0 <= i < value.bit_answers@.len() ==> is_scalar((#[trigger] value.bit_answers@[i]).0@) && is_scalar(
            value.bit_answers@[i].1@,
        ) && is_scalar(value.bit_answers@[i].2@)
    &&& is_scalar(value.linkage_answer.0@)
    &&& is_scalar(value.linkage_answer.1@)
}

proof fn range_round2_fields(value: RangeRound2)
    ensures
        range_round2_json(value).field("b"@) == Some(
            Json::Array(value.bit_answers@.map_values(|t: (Scalar, Scalar, Scalar)| triple_json(t))),
        ),
        range_round2_json(value).field("l"@) == Some(pair_json(value.linkage_answer)),
{
    names_differ();
    let fields = seq![
        ("b"@, Json::Array(value.bit_answers@.map_values(|t: (Scalar, Scalar, Scalar)| triple_json(t)))),
        ("l"@, pair_json(value.linkage_answer)),
    ];
    lookup(fields, 0);
    lookup(fields, 1);
}

proof fn range_round2_read(value: RangeRound2)
    requires
        range_round2_canonical(value),
        range_round2_unfit(value) is None,
    ensures
        range_round2_refusal(range_round2_json(value)) is None,
{
    range_round2_fields(value);
    let all = items(range_round2_json(value).field("b"@));
    assert forall|i: int| 0 <= i < all.len() implies (bit_answer_check())(#[trigger] all[i]) is None by {
        let t = value.bit_answers@[i];
        assert(all[i] == triple_json(t));
        triple_read(
            t,
            "range bit response"@,
            "range bit response must contain three scalars"@,
            "range value answer"@,
            "range blinding answer"@,
            "range relation answer"@,
        );
    }
    first_none(all, bit_answer_check());
    pair_read(
        value.linkage_answer,
        "range linkage response"@,
        "range linkage response must contain two scalars"@,
        "linkage value answer"@,
        "linkage blinding answer"@,
    );
}

proof fn range_round2_same(value: RangeRound2, other: RangeRound2)
    requires
        range_round2_said(range_round2_json(value), other),
    ensures
        range_round2_json(other) == range_round2_json(value),
        range_round2_unfit(other) == range_round2_unfit(value) || range_round2_unfit(value) is Some,
{
    range_round2_fields(value);
    let all = items(range_round2_json(value).field("b"@));
    assert forall|i: int| 0 <= i < all.len() implies triple_json(other.bit_answers@[i]) == #[trigger] all[i] by {
        assert(all[i] == triple_json(value.bit_answers@[i]));
        assert(triple_said(Some(all[i]), other.bit_answers@[i]));
        triple_same(value.bit_answers@[i], other.bit_answers@[i]);
    }
    pair_same(value.linkage_answer, other.linkage_answer);
    assert(other.bit_answers@.map_values(|t: (Scalar, Scalar, Scalar)| triple_json(t)) =~= all);
}

/// A seal is any digest.
pub open spec fn product_seal_canonical(value: ProductRound1Seal) -> bool {
    true
}

proof fn product_seal_read(value: ProductRound1Seal)
    ensures
        product_seal_refusal(hex_json(value.digest@)) is None,
{
    hex_json_read(value.digest@, "product seal"@);
}

proof fn product_seal_same(value: ProductRound1Seal, other: ProductRound1Seal)
    requires
        product_seal_said(hex_json(value.digest@), other),
    ensures
        hex_json(other.digest@) == hex_json(value.digest@),
{
    hex_json_read(value.digest@, Seq::empty());
}

/// A seal is any digest.
pub open spec fn range_seal_canonical(value: RangeRound1Seal) -> bool {
    true
}

proof fn range_seal_read(value: RangeRound1Seal)
    ensures
        range_seal_refusal(hex_json(value.digest@)) is None,
{
    hex_json_read(value.digest@, "range seal"@);
}

proof fn range_seal_same(value: RangeRound1Seal, other: RangeRound1Seal)
    requires
        range_seal_said(hex_json(value.digest@), other),
    ensures
        hex_json(other.digest@) == hex_json(value.digest@),
{
    hex_json_read(value.digest@, Seq::empty());
}

/// Every entry is canonical.
pub open spec fn range_evaluations_list_canonical(values: Seq<RangeEvaluations>) -> bool {
    forall|i: int| 0 <= i < values.len() ==> range_evaluations_canonical(#[trigger] values[i])
}

proof fn range_evaluations_list_read(values: Seq<RangeEvaluations>, name: Seq<char>, maximum: nat)
    requires
        range_evaluations_list_canonical(values),
        range_evaluations_list_unfit(values) is None,
        1 <= values.len() <= maximum,
    ensures
        range_evaluations_list_refusal(Some(range_evaluations_list_json(values)), name, maximum) is None,
{
    let all = items(Some(range_evaluations_list_json(values)));
    range_evaluations_all_fit(values);
    assert forall|i: int| 0 <= i < all.len() implies (range_evaluations_check())(#[trigger] all[i]) is None by {
        assert(range_evaluations_canonical(values[i]));
        range_evaluations_read(values[i]);
    }
    first_none(all, range_evaluations_check());
}

/// A list whose entries all have a place on the wire has one.
proof fn range_evaluations_list_fits(values: Seq<RangeEvaluations>)
    requires
        forall|i: int| 0 <= i < values.len() ==> range_evaluations_unfit(#[trigger] values[i]) is None,
    ensures
        range_evaluations_list_unfit(values) is None,
    decreases values.len(),
{
    if values.len() > 0 {
        assert forall|i: int| 0 <= i < values.len() - 1 implies range_evaluations_unfit(#[trigger] values.drop_last()[i]) is None by {
            assert(range_evaluations_unfit(values[i]) is None);
        }
        range_evaluations_list_fits(values.drop_last());
        assert(range_evaluations_unfit(values[values.len() - 1]) is None);
    }
}

proof fn range_evaluations_list_same(values: Seq<RangeEvaluations>, others: Seq<RangeEvaluations>, party: usize)
    requires
        range_evaluations_list_said(Some(range_evaluations_list_json(values)), others, party),
    ensures
        range_evaluations_list_json(others) == range_evaluations_list_json(values),
        others.len() == values.len(),
        range_evaluations_list_unfit(values) is None ==> range_evaluations_list_unfit(others) is None,
{
    let all = items(Some(range_evaluations_list_json(values)));
    let again = range_evaluations_list_json(others)->Array_0;
    assert forall|i: int| 0 <= i < all.len() implies again[i] == #[trigger] all[i] by {
        let other = others[i];
        assert(range_evaluations_said(all[i], other));
        range_evaluations_same(values[i], other);
    }
    assert(again =~= all);
    if range_evaluations_list_unfit(values) is None {
        range_evaluations_all_fit(values);
        assert forall|i: int| 0 <= i < others.len() implies range_evaluations_unfit(#[trigger] others[i]) is None by {
            assert(range_evaluations_unfit(values[i]) is None);
            assert(range_evaluations_said(all[i], others[i]));
            range_evaluations_same(values[i], others[i]);
        }
        range_evaluations_list_fits(others);
    }
}

/// Every entry is canonical.
pub open spec fn product_evaluations_list_canonical(values: Seq<ProductEvaluations>) -> bool {
    forall|i: int| 0 <= i < values.len() ==> product_evaluations_canonical(#[trigger] values[i])
}

proof fn product_evaluations_list_read(values: Seq<ProductEvaluations>, name: Seq<char>, maximum: nat)
    requires
        product_evaluations_list_canonical(values),
        1 <= values.len() <= maximum,
    ensures
        product_evaluations_list_refusal(Some(product_evaluations_list_json(values)), name, maximum) is None,
{
    let all = items(Some(product_evaluations_list_json(values)));
    assert forall|i: int| 0 <= i < all.len() implies (product_evaluations_check())(#[trigger] all[i]) is None by {
        assert(product_evaluations_canonical(values[i]));
        product_evaluations_read(values[i]);
    }
    first_none(all, product_evaluations_check());
}

proof fn product_evaluations_list_same(values: Seq<ProductEvaluations>, others: Seq<ProductEvaluations>, party: usize)
    requires
        product_evaluations_list_said(Some(product_evaluations_list_json(values)), others, party),
    ensures
        product_evaluations_list_json(others) == product_evaluations_list_json(values),
        others.len() == values.len(),
{
    let all = items(Some(product_evaluations_list_json(values)));
    let again = product_evaluations_list_json(others)->Array_0;
    assert forall|i: int| 0 <= i < all.len() implies again[i] == #[trigger] all[i] by {
        let other = others[i];
        assert(product_evaluations_said(all[i], other));
        product_evaluations_same(values[i], other);
    }
    assert(again =~= all);
}

/// Every entry is canonical.
pub open spec fn range_relation_list_canonical(values: Seq<RangeRelationEvaluations>) -> bool {
    forall|i: int| 0 <= i < values.len() ==> range_relation_canonical(#[trigger] values[i])
}

proof fn range_relation_list_read(values: Seq<RangeRelationEvaluations>, name: Seq<char>, maximum: nat)
    requires
        range_relation_list_canonical(values),
        range_relation_list_unfit(values) is None,
        1 <= values.len() <= maximum,
    ensures
        range_relation_list_refusal(Some(range_relations_list_json(values)), name, maximum) is None,
{
    let all = items(Some(range_relations_list_json(values)));
    range_relation_all_fit(values);
    assert forall|i: int| 0 <= i < all.len() implies (range_relation_check())(#[trigger] all[i]) is None by {
        assert(range_relation_canonical(values[i]));
        range_relation_read(values[i]);
    }
    first_none(all, range_relation_check());
}

/// A list whose entries all have a place on the wire has one.
proof fn range_relation_list_fits(values: Seq<RangeRelationEvaluations>)
    requires
        forall|i: int| 0 <= i < values.len() ==> range_relation_unfit(#[trigger] values[i]) is None,
    ensures
        range_relation_list_unfit(values) is None,
    decreases values.len(),
{
    if values.len() > 0 {
        assert forall|i: int| 0 <= i < values.len() - 1 implies range_relation_unfit(#[trigger] values.drop_last()[i]) is None by {
            assert(range_relation_unfit(values[i]) is None);
        }
        range_relation_list_fits(values.drop_last());
        assert(range_relation_unfit(values[values.len() - 1]) is None);
    }
}

proof fn range_relation_list_same(
    values: Seq<RangeRelationEvaluations>,
    others: Seq<RangeRelationEvaluations>,
    party: usize,
)
    requires
        range_relation_list_said(Some(range_relations_list_json(values)), others, party),
    ensures
        range_relations_list_json(others) == range_relations_list_json(values),
        others.len() == values.len(),
        range_relation_list_unfit(values) is None ==> range_relation_list_unfit(others) is None,
{
    let all = items(Some(range_relations_list_json(values)));
    let again = range_relations_list_json(others)->Array_0;
    assert forall|i: int| 0 <= i < all.len() implies again[i] == #[trigger] all[i] by {
        let other = others[i];
        assert(range_relation_said(all[i], other));
        range_relation_same(values[i], other);
    }
    assert(again =~= all);
    if range_relation_list_unfit(values) is None {
        range_relation_all_fit(values);
        assert forall|i: int| 0 <= i < others.len() implies range_relation_unfit(#[trigger] others[i]) is None by {
            assert(range_relation_unfit(values[i]) is None);
            assert(range_relation_said(all[i], others[i]));
            range_relation_same(values[i], others[i]);
        }
        range_relation_list_fits(others);
    }
}

/// Every entry is canonical.
pub open spec fn product_seal_list_canonical(values: Seq<ProductRound1Seal>) -> bool {
    forall|i: int| 0 <= i < values.len() ==> product_seal_canonical(#[trigger] values[i])
}

proof fn product_seal_list_read(values: Seq<ProductRound1Seal>, name: Seq<char>, maximum: nat)
    requires
        product_seal_list_canonical(values),
        1 <= values.len() <= maximum,
    ensures
        product_seal_list_refusal(Some(product_seals_list_json(values)), name, maximum) is None,
{
    let all = items(Some(product_seals_list_json(values)));
    assert forall|i: int| 0 <= i < all.len() implies (product_seal_check())(#[trigger] all[i]) is None by {
        assert(product_seal_canonical(values[i]));
        product_seal_read(values[i]);
    }
    first_none(all, product_seal_check());
}

proof fn product_seal_list_same(values: Seq<ProductRound1Seal>, others: Seq<ProductRound1Seal>, party: usize)
    requires
        product_seal_list_said(Some(product_seals_list_json(values)), others, party),
    ensures
        product_seals_list_json(others) == product_seals_list_json(values),
        others.len() == values.len(),
{
    let all = items(Some(product_seals_list_json(values)));
    let again = product_seals_list_json(others)->Array_0;
    assert forall|i: int| 0 <= i < all.len() implies again[i] == #[trigger] all[i] by {
        let other = others[i];
        assert(product_seal_said(all[i], other));
        product_seal_same(values[i], other);
    }
    assert(again =~= all);
}

/// Every entry is canonical.
pub open spec fn range_seal_list_canonical(values: Seq<RangeRound1Seal>) -> bool {
    forall|i: int| 0 <= i < values.len() ==> range_seal_canonical(#[trigger] values[i])
}

proof fn range_seal_list_read(values: Seq<RangeRound1Seal>, name: Seq<char>, maximum: nat)
    requires
        range_seal_list_canonical(values),
        1 <= values.len() <= maximum,
    ensures
        range_seal_list_refusal(Some(range_seals_list_json(values)), name, maximum) is None,
{
    let all = items(Some(range_seals_list_json(values)));
    assert forall|i: int| 0 <= i < all.len() implies (range_seal_check())(#[trigger] all[i]) is None by {
        assert(range_seal_canonical(values[i]));
        range_seal_read(values[i]);
    }
    first_none(all, range_seal_check());
}

proof fn range_seal_list_same(values: Seq<RangeRound1Seal>, others: Seq<RangeRound1Seal>, party: usize)
    requires
        range_seal_list_said(Some(range_seals_list_json(values)), others, party),
    ensures
        range_seals_list_json(others) == range_seals_list_json(values),
        others.len() == values.len(),
{
    let all = items(Some(range_seals_list_json(values)));
    let again = range_seals_list_json(others)->Array_0;
    assert forall|i: int| 0 <= i < all.len() implies again[i] == #[trigger] all[i] by {
        let other = others[i];
        assert(range_seal_said(all[i], other));
        range_seal_same(values[i], other);
    }
    assert(again =~= all);
}

/// Every entry is canonical.
pub open spec fn product_round1_list_canonical(values: Seq<ProductRound1>) -> bool {
    forall|i: int| 0 <= i < values.len() ==> product_round1_canonical(#[trigger] values[i])
}

proof fn product_round1_list_read(values: Seq<ProductRound1>, name: Seq<char>, maximum: nat)
    requires
        product_round1_list_canonical(values),
        1 <= values.len() <= maximum,
    ensures
        product_round1_list_refusal(Some(product_round1_list_json(values)), name, maximum) is None,
{
    let all = items(Some(product_round1_list_json(values)));
    assert forall|i: int| 0 <= i < all.len() implies (product_round1_check())(#[trigger] all[i]) is None by {
        assert(product_round1_canonical(values[i]));
        product_round1_read(values[i]);
    }
    first_none(all, product_round1_check());
}

proof fn product_round1_list_same(values: Seq<ProductRound1>, others: Seq<ProductRound1>, party: usize)
    requires
        product_round1_list_said(Some(product_round1_list_json(values)), others, party),
    ensures
        product_round1_list_json(others) == product_round1_list_json(values),
        others.len() == values.len(),
{
    let all = items(Some(product_round1_list_json(values)));
    let again = product_round1_list_json(others)->Array_0;
    assert forall|i: int| 0 <= i < all.len() implies again[i] == #[trigger] all[i] by {
        let other = others[i];
        assert(product_round1_said(all[i], other));
        product_round1_same(values[i], other);
    }
    assert(again =~= all);
}

/// Every entry is canonical.
pub open spec fn range_round1_list_canonical(values: Seq<RangeRound1>) -> bool {
    forall|i: int| 0 <= i < values.len() ==> range_round1_canonical(#[trigger] values[i])
}

proof fn range_round1_list_read(values: Seq<RangeRound1>, name: Seq<char>, maximum: nat)
    requires
        range_round1_list_canonical(values),
        range_round1_list_unfit(values) is None,
        1 <= values.len() <= maximum,
    ensures
        range_round1_list_refusal(Some(range_round1_list_json(values)), name, maximum) is None,
{
    let all = items(Some(range_round1_list_json(values)));
    range_round1_all_fit(values);
    assert forall|i: int| 0 <= i < all.len() implies (range_round1_check())(#[trigger] all[i]) is None by {
        assert(range_round1_canonical(values[i]));
        range_round1_read(values[i]);
    }
    first_none(all, range_round1_check());
}

/// A list whose entries all have a place on the wire has one.
proof fn range_round1_list_fits(values: Seq<RangeRound1>)
    requires
        forall|i: int| 0 <= i < values.len() ==> range_round1_unfit(#[trigger] values[i]) is None,
    ensures
        range_round1_list_unfit(values) is None,
    decreases values.len(),
{
    if values.len() > 0 {
        assert forall|i: int| 0 <= i < values.len() - 1 implies range_round1_unfit(#[trigger] values.drop_last()[i]) is None by {
            assert(range_round1_unfit(values[i]) is None);
        }
        range_round1_list_fits(values.drop_last());
        assert(range_round1_unfit(values[values.len() - 1]) is None);
    }
}

proof fn range_round1_list_same(values: Seq<RangeRound1>, others: Seq<RangeRound1>, party: usize)
    requires
        range_round1_list_said(Some(range_round1_list_json(values)), others, party),
    ensures
        range_round1_list_json(others) == range_round1_list_json(values),
        others.len() == values.len(),
        range_round1_list_unfit(values) is None ==> range_round1_list_unfit(others) is None,
{
    let all = items(Some(range_round1_list_json(values)));
    let again = range_round1_list_json(others)->Array_0;
    assert forall|i: int| 0 <= i < all.len() implies again[i] == #[trigger] all[i] by {
        let other = others[i];
        assert(range_round1_said(all[i], other));
        range_round1_same(values[i], other);
    }
    assert(again =~= all);
    if range_round1_list_unfit(values) is None {
        range_round1_all_fit(values);
        assert forall|i: int| 0 <= i < others.len() implies range_round1_unfit(#[trigger] others[i]) is None by {
            assert(range_round1_unfit(values[i]) is None);
            assert(range_round1_said(all[i], others[i]));
            range_round1_same(values[i], others[i]);
        }
        range_round1_list_fits(others);
    }
}

/// Every entry is canonical.
pub open spec fn product_challenge_list_canonical(values: Seq<ProductChallenge>) -> bool {
    forall|i: int| 0 <= i < values.len() ==> product_challenge_canonical(#[trigger] values[i])
}

proof fn product_challenge_list_read(values: Seq<ProductChallenge>, name: Seq<char>, maximum: nat)
    requires
        product_challenge_list_canonical(values),
        1 <= values.len() <= maximum,
    ensures
        product_challenge_list_refusal(Some(product_challenge_list_json(values)), name, maximum) is None,
{
    let all = items(Some(product_challenge_list_json(values)));
    assert forall|i: int| 0 <= i < all.len() implies (product_challenge_check())(#[trigger] all[i]) is None by {
        assert(product_challenge_canonical(values[i]));
        product_challenge_read(values[i]);
    }
    first_none(all, product_challenge_check());
}

proof fn product_challenge_list_same(values: Seq<ProductChallenge>, others: Seq<ProductChallenge>, quorum: Seq<usize>)
    requires
        product_challenge_list_said(Some(product_challenge_list_json(values)), others, quorum),
    ensures
        product_challenge_list_json(others) == product_challenge_list_json(values),
        others.len() == values.len(),
{
    let all = items(Some(product_challenge_list_json(values)));
    let again = product_challenge_list_json(others)->Array_0;
    assert forall|i: int| 0 <= i < all.len() implies again[i] == #[trigger] all[i] by {
        let other = others[i];
        assert(product_challenge_said(all[i], other));
        product_challenge_same(values[i], other);
    }
    assert(again =~= all);
}

/// Every entry is canonical.
pub open spec fn range_challenge_list_canonical(values: Seq<RangeChallenge>) -> bool {
    forall|i: int| 0 <= i < values.len() ==> range_challenge_canonical(#[trigger] values[i])
}

proof fn range_challenge_list_read(values: Seq<RangeChallenge>, name: Seq<char>, maximum: nat)
    requires
        range_challenge_list_canonical(values),
        range_challenge_list_unfit(values) is None,
        1 <= values.len() <= maximum,
    ensures
        range_challenge_list_refusal(Some(range_challenge_list_json(values)), name, maximum) is None,
{
    let all = items(Some(range_challenge_list_json(values)));
    range_challenge_all_fit(values);
    assert forall|i: int| 0 <= i < all.len() implies (range_challenge_check())(#[trigger] all[i]) is None by {
        assert(range_challenge_canonical(values[i]));
        range_challenge_read(values[i]);
    }
    first_none(all, range_challenge_check());
}

/// A list whose entries all have a place on the wire has one.
proof fn range_challenge_list_fits(values: Seq<RangeChallenge>)
    requires
        forall|i: int| 0 <= i < values.len() ==> range_challenge_unfit(#[trigger] values[i]) is None,
    ensures
        range_challenge_list_unfit(values) is None,
    decreases values.len(),
{
    if values.len() > 0 {
        assert forall|i: int| 0 <= i < values.len() - 1 implies range_challenge_unfit(#[trigger] values.drop_last()[i]) is None by {
            assert(range_challenge_unfit(values[i]) is None);
        }
        range_challenge_list_fits(values.drop_last());
        assert(range_challenge_unfit(values[values.len() - 1]) is None);
    }
}

proof fn range_challenge_list_same(values: Seq<RangeChallenge>, others: Seq<RangeChallenge>, quorum: Seq<usize>)
    requires
        range_challenge_list_said(Some(range_challenge_list_json(values)), others, quorum),
    ensures
        range_challenge_list_json(others) == range_challenge_list_json(values),
        others.len() == values.len(),
        range_challenge_list_unfit(values) is None ==> range_challenge_list_unfit(others) is None,
{
    let all = items(Some(range_challenge_list_json(values)));
    let again = range_challenge_list_json(others)->Array_0;
    assert forall|i: int| 0 <= i < all.len() implies again[i] == #[trigger] all[i] by {
        let other = others[i];
        assert(range_challenge_said(all[i], other));
        range_challenge_same(values[i], other);
    }
    assert(again =~= all);
    if range_challenge_list_unfit(values) is None {
        range_challenge_all_fit(values);
        assert forall|i: int| 0 <= i < others.len() implies range_challenge_unfit(#[trigger] others[i]) is None by {
            assert(range_challenge_unfit(values[i]) is None);
            assert(range_challenge_said(all[i], others[i]));
            range_challenge_same(values[i], others[i]);
        }
        range_challenge_list_fits(others);
    }
}

/// Every entry is canonical.
pub open spec fn product_round2_list_canonical(values: Seq<ProductRound2>) -> bool {
    forall|i: int| 0 <= i < values.len() ==> product_round2_canonical(#[trigger] values[i])
}

proof fn product_round2_list_read(values: Seq<ProductRound2>, name: Seq<char>, maximum: nat)
    requires
        product_round2_list_canonical(values),
        1 <= values.len() <= maximum,
    ensures
        product_round2_list_refusal(Some(product_round2_list_json(values)), name, maximum) is None,
{
    let all = items(Some(product_round2_list_json(values)));
    assert forall|i: int| 0 <= i < all.len() implies (product_round2_check())(#[trigger] all[i]) is None by {
        assert(product_round2_canonical(values[i]));
        product_round2_read(values[i]);
    }
    first_none(all, product_round2_check());
}

proof fn product_round2_list_same(values: Seq<ProductRound2>, others: Seq<ProductRound2>, party: usize)
    requires
        product_round2_list_said(Some(product_round2_list_json(values)), others, party),
    ensures
        product_round2_list_json(others) == product_round2_list_json(values),
        others.len() == values.len(),
{
    let all = items(Some(product_round2_list_json(values)));
    let again = product_round2_list_json(others)->Array_0;
    assert forall|i: int| 0 <= i < all.len() implies again[i] == #[trigger] all[i] by {
        let other = others[i];
        assert(product_round2_said(all[i], other));
        product_round2_same(values[i], other);
    }
    assert(again =~= all);
}

/// Every entry is canonical.
pub open spec fn range_round2_list_canonical(values: Seq<RangeRound2>) -> bool {
    forall|i: int| 0 <= i < values.len() ==> range_round2_canonical(#[trigger] values[i])
}

proof fn range_round2_list_read(values: Seq<RangeRound2>, name: Seq<char>, maximum: nat)
    requires
        range_round2_list_canonical(values),
        range_round2_list_unfit(values) is None,
        1 <= values.len() <= maximum,
    ensures
        range_round2_list_refusal(Some(range_round2_list_json(values)), name, maximum) is None,
{
    let all = items(Some(range_round2_list_json(values)));
    range_round2_all_fit(values);
    assert forall|i: int| 0 <= i < all.len() implies (range_round2_check())(#[trigger] all[i]) is None by {
        assert(range_round2_canonical(values[i]));
        range_round2_read(values[i]);
    }
    first_none(all, range_round2_check());
}

/// A list whose entries all have a place on the wire has one.
proof fn range_round2_list_fits(values: Seq<RangeRound2>)
    requires
        forall|i: int| 0 <= i < values.len() ==> range_round2_unfit(#[trigger] values[i]) is None,
    ensures
        range_round2_list_unfit(values) is None,
    decreases values.len(),
{
    if values.len() > 0 {
        assert forall|i: int| 0 <= i < values.len() - 1 implies range_round2_unfit(#[trigger] values.drop_last()[i]) is None by {
            assert(range_round2_unfit(values[i]) is None);
        }
        range_round2_list_fits(values.drop_last());
        assert(range_round2_unfit(values[values.len() - 1]) is None);
    }
}

proof fn range_round2_list_same(values: Seq<RangeRound2>, others: Seq<RangeRound2>, party: usize)
    requires
        range_round2_list_said(Some(range_round2_list_json(values)), others, party),
    ensures
        range_round2_list_json(others) == range_round2_list_json(values),
        others.len() == values.len(),
        range_round2_list_unfit(values) is None ==> range_round2_list_unfit(others) is None,
{
    let all = items(Some(range_round2_list_json(values)));
    let again = range_round2_list_json(others)->Array_0;
    assert forall|i: int| 0 <= i < all.len() implies again[i] == #[trigger] all[i] by {
        let other = others[i];
        assert(range_round2_said(all[i], other));
        range_round2_same(values[i], other);
    }
    assert(again =~= all);
    if range_round2_list_unfit(values) is None {
        range_round2_all_fit(values);
        assert forall|i: int| 0 <= i < others.len() implies range_round2_unfit(#[trigger] others[i]) is None by {
            assert(range_round2_unfit(values[i]) is None);
            assert(range_round2_said(all[i], others[i]));
            range_round2_same(values[i], others[i]);
        }
        range_round2_list_fits(others);
    }
}

/// Every wire is a point's encoding.
pub open spec fn wires_canonical(values: Seq<WireEvaluation>) -> bool {
    forall|i: int| 0 <= i < values.len() ==> is_point((#[trigger] values[i]).point@)
}

proof fn wires_read(values: Seq<WireEvaluation>)
    requires
        wires_canonical(values),
        1 <= values.len() <= MAX_WIRE_POINTS,
    ensures
        points_refusal(Some(wires_json(values)), "quote wires"@, MAX_WIRE_POINTS as nat) is None,
{
    let points = values.map_values(|v: WireEvaluation| v.point);
    assert forall|i: int| 0 <= i < points.len() implies is_point((#[trigger] points[i])@) by {
        assert(is_point(values[i].point@));
    }
    points_read(points, "quote wires"@, MAX_WIRE_POINTS as nat);
    assert(points_json(points)->Array_0 =~= wires_json(values)->Array_0);
}

proof fn wires_same(values: Seq<WireEvaluation>, others: Seq<WireEvaluation>, party: usize)
    requires
        wires_said(Some(wires_json(values)), others, party),
    ensures
        wires_json(others) == wires_json(values),
        others.len() == values.len(),
{
    let all = items(Some(wires_json(values)));
    let again = wires_json(others)->Array_0;
    assert forall|i: int| 0 <= i < all.len() implies again[i] == #[trigger] all[i] by {
        hex_json_read(values[i].point@, Seq::empty());
        assert(all[i] == hex_json(values[i].point@));
        assert(others[i].point@ == hex_in(Some(all[i])));
    }
    assert(again =~= all);
}

proof fn quorum_read(quorum: Seq<usize>)
    requires
        quorum_unfit(quorum) is None,
    ensures
        quorum_refusal(Some(quorum_json(quorum))) is None,
        parties_in(Some(quorum_json(quorum))) == quorum,
{
    let value = Some(quorum_json(quorum));
    assert forall|i: int| 0 <= i < items(value).len() implies (party_check())(#[trigger] items(value)[i]) is None by {
        assert(party_unfit(quorum[i] as nat) is None);
    }
    first_none(items(value), party_check());
    assert(parties_in(value) =~= quorum);
}

/// Every part is canonical.
pub open spec fn evaluations_canonical(value: QuoteNodeEvaluations) -> bool {
    &&& wires_canonical(value.wires@)
    &&& range_evaluations_list_canonical(value.ranges@)
}

proof fn evaluations_fields(value: QuoteNodeEvaluations)
    ensures
        evaluations_json(value).field("party"@) == Some(Json::Integer(value.party as int)),
        evaluations_json(value).field("wires"@) == Some(wires_json(value.wires@)),
        evaluations_json(value).field("ranges"@) == Some(range_evaluations_list_json(value.ranges@)),
{
    names_differ();
    let fields = seq![("party"@, Json::Integer(value.party as int)), ("wires"@, wires_json(value.wires@)), ("ranges"@,
        range_evaluations_list_json(value.ranges@))];
    lookup(fields, 0);
    lookup(fields, 1);
    lookup(fields, 2);
}

proof fn evaluations_read(value: QuoteNodeEvaluations)
    requires
        evaluations_canonical(value),
        unfit(Message::Evaluations(value)) is None,
    ensures
        evaluations_refusal(evaluations_json(value)) is None,
{
    evaluations_fields(value);
    wires_read(value.wires@);
    range_evaluations_list_read(value.ranges@, "quote ranges"@, MAX_RANGES as nat);
}

proof fn evaluations_same(value: QuoteNodeEvaluations, other: QuoteNodeEvaluations)
    requires
        unfit(Message::Evaluations(value)) is None,
        evaluations_said(evaluations_json(value), other),
    ensures
        evaluations_json(other) == evaluations_json(value),
        unfit(Message::Evaluations(other)) is None,
{
    evaluations_fields(value);
    wires_same(value.wires@, other.wires@, other.party);
    range_evaluations_list_same(value.ranges@, other.ranges@, other.party);
    assert(seq![("party"@, Json::Integer(other.party as int)), ("wires"@, wires_json(other.wires@)), ("ranges"@,
        range_evaluations_list_json(other.ranges@))] =~= seq![("party"@, Json::Integer(value.party as int)),
        ("wires"@, wires_json(value.wires@)), ("ranges"@, range_evaluations_list_json(value.ranges@))]);
}

/// Every part is canonical.
pub open spec fn relations_canonical(value: QuoteRelationEvaluations) -> bool {
    &&& product_evaluations_list_canonical(value.products@)
    &&& range_relation_list_canonical(value.ranges@)
}

proof fn relations_fields(value: QuoteRelationEvaluations)
    ensures
        relations_json(value).field("party"@) == Some(Json::Integer(value.party as int)),
        relations_json(value).field("products"@) == Some(product_evaluations_list_json(value.products@)),
        relations_json(value).field("ranges"@) == Some(range_relations_list_json(value.ranges@)),
{
    names_differ();
    let fields = seq![("party"@, Json::Integer(value.party as int)), ("products"@,
        product_evaluations_list_json(value.products@)), ("ranges"@, range_relations_list_json(value.ranges@))];
    lookup(fields, 0);
    lookup(fields, 1);
    lookup(fields, 2);
}

proof fn relations_read(value: QuoteRelationEvaluations)
    requires
        relations_canonical(value),
        unfit(Message::RelationEvaluations(value)) is None,
    ensures
        relations_refusal(relations_json(value)) is None,
{
    relations_fields(value);
    product_evaluations_list_read(value.products@, "quote products"@, MAX_PRODUCTS as nat);
    range_relation_list_read(value.ranges@, "quote ranges"@, MAX_RANGES as nat);
}

proof fn relations_same(value: QuoteRelationEvaluations, other: QuoteRelationEvaluations)
    requires
        unfit(Message::RelationEvaluations(value)) is None,
        relations_said(relations_json(value), other),
    ensures
        relations_json(other) == relations_json(value),
        unfit(Message::RelationEvaluations(other)) is None,
{
    relations_fields(value);
    product_evaluations_list_same(value.products@, other.products@, other.party);
    range_relation_list_same(value.ranges@, other.ranges@, other.party);
    assert(seq![("party"@, Json::Integer(other.party as int)), ("products"@,
        product_evaluations_list_json(other.products@)), ("ranges"@,
        range_relations_list_json(other.ranges@))] =~= seq![("party"@, Json::Integer(value.party as int)),
        ("products"@, product_evaluations_list_json(value.products@)), ("ranges"@,
        range_relations_list_json(value.ranges@))]);
}

/// Every part is canonical.
pub open spec fn seals_canonical(value: QuoteRound1Seals) -> bool {
    &&& product_seal_list_canonical(value.products@)
    &&& range_seal_list_canonical(value.ranges@)
}

proof fn seals_fields(value: QuoteRound1Seals)
    ensures
        seals_json(value).field("party"@) == Some(Json::Integer(value.party as int)),
        seals_json(value).field("products"@) == Some(product_seals_list_json(value.products@)),
        seals_json(value).field("ranges"@) == Some(range_seals_list_json(value.ranges@)),
        seals_json(value).field("winner"@) == Some(hex_json(value.winner.digest@)),
{
    names_differ();
    let fields = seq![("party"@, Json::Integer(value.party as int)), ("products"@,
        product_seals_list_json(value.products@)), ("ranges"@, range_seals_list_json(value.ranges@)), ("winner"@,
        hex_json(value.winner.digest@))];
    lookup(fields, 0);
    lookup(fields, 1);
    lookup(fields, 2);
    lookup(fields, 3);
}

proof fn seals_read(value: QuoteRound1Seals)
    requires
        seals_canonical(value),
        unfit(Message::Round1Seal(value)) is None,
    ensures
        seals_refusal(seals_json(value)) is None,
{
    seals_fields(value);
    product_seal_list_read(value.products@, "product seals"@, MAX_PRODUCTS as nat);
    range_seal_list_read(value.ranges@, "range seals"@, MAX_RANGES as nat);
    hex_json_read(value.winner.digest@, "winner seal"@);
}

proof fn seals_same(value: QuoteRound1Seals, other: QuoteRound1Seals)
    requires
        unfit(Message::Round1Seal(value)) is None,
        seals_said(seals_json(value), other),
    ensures
        seals_json(other) == seals_json(value),
        unfit(Message::Round1Seal(other)) is None,
{
    seals_fields(value);
    product_seal_list_same(value.products@, other.products@, other.party);
    range_seal_list_same(value.ranges@, other.ranges@, other.party);
    hex_json_read(value.winner.digest@, Seq::empty());
    assert(seq![("party"@, Json::Integer(other.party as int)), ("products"@,
        product_seals_list_json(other.products@)), ("ranges"@, range_seals_list_json(other.ranges@)), ("winner"@,
        hex_json(other.winner.digest@))] =~= seq![("party"@, Json::Integer(value.party as int)), ("products"@,
        product_seals_list_json(value.products@)), ("ranges"@, range_seals_list_json(value.ranges@)), ("winner"@,
        hex_json(value.winner.digest@))]);
}

/// Every part is canonical.
pub open spec fn round1_canonical(value: QuoteRound1) -> bool {
    &&& product_round1_list_canonical(value.products@)
    &&& range_round1_list_canonical(value.ranges@)
    &&& opening_round1_canonical(value.winner)
}

proof fn round1_fields(value: QuoteRound1)
    ensures
        round1_json(value).field("party"@) == Some(Json::Integer(value.party as int)),
        round1_json(value).field("products"@) == Some(product_round1_list_json(value.products@)),
        round1_json(value).field("ranges"@) == Some(range_round1_list_json(value.ranges@)),
        round1_json(value).field("winner"@) == Some(opening_round1_json(value.winner)),
{
    names_differ();
    let fields = seq![("party"@, Json::Integer(value.party as int)), ("products"@,
        product_round1_list_json(value.products@)), ("ranges"@, range_round1_list_json(value.ranges@)), ("winner"@,
        opening_round1_json(value.winner))];
    lookup(fields, 0);
    lookup(fields, 1);
    lookup(fields, 2);
    lookup(fields, 3);
}

proof fn round1_read(value: QuoteRound1)
    requires
        round1_canonical(value),
        unfit(Message::Round1(value)) is None,
    ensures
        round1_refusal(round1_json(value)) is None,
{
    round1_fields(value);
    product_round1_list_read(value.products@, "product rounds"@, MAX_PRODUCTS as nat);
    range_round1_list_read(value.ranges@, "range rounds"@, MAX_RANGES as nat);
    opening_round1_read(value.winner);
}

proof fn round1_same(value: QuoteRound1, other: QuoteRound1)
    requires
        unfit(Message::Round1(value)) is None,
        round1_said(round1_json(value), other),
    ensures
        round1_json(other) == round1_json(value),
        unfit(Message::Round1(other)) is None,
{
    round1_fields(value);
    product_round1_list_same(value.products@, other.products@, other.party);
    range_round1_list_same(value.ranges@, other.ranges@, other.party);
    opening_round1_same(value.winner, other.winner);
    assert(seq![("party"@, Json::Integer(other.party as int)), ("products"@,
        product_round1_list_json(other.products@)), ("ranges"@, range_round1_list_json(other.ranges@)), ("winner"@,
        opening_round1_json(other.winner))] =~= seq![("party"@, Json::Integer(value.party as int)), ("products"@,
        product_round1_list_json(value.products@)), ("ranges"@, range_round1_list_json(value.ranges@)), ("winner"@,
        opening_round1_json(value.winner))]);
}

/// Every part is canonical.
pub open spec fn challenge_canonical(value: QuoteChallenges) -> bool {
    &&& product_challenge_list_canonical(value.products@)
    &&& range_challenge_list_canonical(value.ranges@)
    &&& opening_challenge_canonical(value.winner)
}

proof fn challenge_fields(value: QuoteChallenges)
    ensures
        challenge_json(value).field("quorum"@) == Some(quorum_json(value.winner.quorum@)),
        challenge_json(value).field("products"@) == Some(product_challenge_list_json(value.products@)),
        challenge_json(value).field("ranges"@) == Some(range_challenge_list_json(value.ranges@)),
        challenge_json(value).field("winner"@) == Some(opening_challenge_json(value.winner)),
{
    names_differ();
    let fields = seq![("quorum"@, quorum_json(value.winner.quorum@)), ("products"@,
        product_challenge_list_json(value.products@)), ("ranges"@, range_challenge_list_json(value.ranges@)),
        ("winner"@, opening_challenge_json(value.winner))];
    lookup(fields, 0);
    lookup(fields, 1);
    lookup(fields, 2);
    lookup(fields, 3);
}

proof fn challenge_read(value: QuoteChallenges)
    requires
        challenge_canonical(value),
        unfit(Message::Challenge(value)) is None,
    ensures
        challenge_refusal(challenge_json(value)) is None,
{
    challenge_fields(value);
    quorum_read(value.winner.quorum@);
    product_challenge_list_read(value.products@, "product challenges"@, MAX_PRODUCTS as nat);
    range_challenge_list_read(value.ranges@, "range challenges"@, MAX_RANGES as nat);
    opening_challenge_read(value.winner);
}

proof fn challenge_same(value: QuoteChallenges, other: QuoteChallenges)
    requires
        unfit(Message::Challenge(value)) is None,
        challenge_said(challenge_json(value), other),
    ensures
        challenge_json(other) == challenge_json(value),
        unfit(Message::Challenge(other)) is None,
{
    challenge_fields(value);
    quorum_read(value.winner.quorum@);
    assert(!challenges_differ(other)) by {
        assert forall|i: int| 0 <= i < other.products@.len() implies (#[trigger] other.products@[i]).quorum@
            == other.winner.quorum@ by {
        }
    }
    product_challenge_list_same(value.products@, other.products@, other.winner.quorum@);
    range_challenge_list_same(value.ranges@, other.ranges@, other.winner.quorum@);
    opening_challenge_same(value.winner, other.winner);
    assert(seq![("quorum"@, quorum_json(other.winner.quorum@)), ("products"@,
        product_challenge_list_json(other.products@)), ("ranges"@, range_challenge_list_json(other.ranges@)),
        ("winner"@, opening_challenge_json(other.winner))] =~= seq![("quorum"@, quorum_json(value.winner.quorum@)),
        ("products"@, product_challenge_list_json(value.products@)), ("ranges"@,
        range_challenge_list_json(value.ranges@)), ("winner"@, opening_challenge_json(value.winner))]);
}

/// Every part is canonical.
pub open spec fn round2_canonical(value: QuoteRound2) -> bool {
    &&& product_round2_list_canonical(value.products@)
    &&& range_round2_list_canonical(value.ranges@)
    &&& is_scalar(value.winner.value_answer@)
    &&& is_scalar(value.winner.blinding_answer@)
}

proof fn round2_fields(value: QuoteRound2)
    ensures
        round2_json(value).field("party"@) == Some(Json::Integer(value.party as int)),
        round2_json(value).field("products"@) == Some(product_round2_list_json(value.products@)),
        round2_json(value).field("ranges"@) == Some(range_round2_list_json(value.ranges@)),
        round2_json(value).field("winner"@) == Some(pair_json((value.winner.value_answer,
            value.winner.blinding_answer))),
{
    names_differ();
    let fields = seq![("party"@, Json::Integer(value.party as int)), ("products"@,
        product_round2_list_json(value.products@)), ("ranges"@, range_round2_list_json(value.ranges@)), ("winner"@,
        pair_json((value.winner.value_answer, value.winner.blinding_answer)))];
    lookup(fields, 0);
    lookup(fields, 1);
    lookup(fields, 2);
    lookup(fields, 3);
}

proof fn round2_read(value: QuoteRound2)
    requires
        round2_canonical(value),
        unfit(Message::Round2(value)) is None,
    ensures
        round2_refusal(round2_json(value)) is None,
{
    round2_fields(value);
    product_round2_list_read(value.products@, "product responses"@, MAX_PRODUCTS as nat);
    range_round2_list_read(value.ranges@, "range responses"@, MAX_RANGES as nat);
    pair_read(
        (value.winner.value_answer, value.winner.blinding_answer),
        "winner response"@,
        "winner response must contain two scalars"@,
        "winner value answer"@,
        "winner blinding answer"@,
    );
}

proof fn round2_same(value: QuoteRound2, other: QuoteRound2)
    requires
        unfit(Message::Round2(value)) is None,
        round2_said(round2_json(value), other),
    ensures
        round2_json(other) == round2_json(value),
        unfit(Message::Round2(other)) is None,
{
    round2_fields(value);
    product_round2_list_same(value.products@, other.products@, other.party);
    range_round2_list_same(value.ranges@, other.ranges@, other.party);
    pair_same((value.winner.value_answer, value.winner.blinding_answer), (other.winner.value_answer,
        other.winner.blinding_answer));
    assert(seq![("party"@, Json::Integer(other.party as int)), ("products"@,
        product_round2_list_json(other.products@)), ("ranges"@, range_round2_list_json(other.ranges@)), ("winner"@,
        pair_json((other.winner.value_answer, other.winner.blinding_answer)))] =~= seq![("party"@,
        Json::Integer(value.party as int)), ("products"@, product_round2_list_json(value.products@)), ("ranges"@,
        range_round2_list_json(value.ranges@)), ("winner"@, pair_json((value.winner.value_answer,
        value.winner.blinding_answer)))]);
}

/// Every point and scalar of a message is canonical.
pub open spec fn message_canonical(message: Message) -> bool {
    match message {
        Message::Evaluations(value) => evaluations_canonical(value),
        Message::RelationEvaluations(value) => relations_canonical(value),
        Message::Round1Seal(value) => seals_canonical(value),
        Message::Round1(value) => round1_canonical(value),
        Message::Challenge(value) => challenge_canonical(value),
        Message::Round2(value) => round2_canonical(value),
    }
}

/// The members of a public round.
pub proof fn envelope_fields(envelope: Envelope)
    ensures
        envelope_json(envelope).field("body"@) == Some(body_json(envelope.message)),
        envelope_json(envelope).field("job"@) == Some(hex_json(envelope.job_id@)),
        envelope_json(envelope).field("kind"@) == Some(Json::Text(kind_of(envelope.message))),
        envelope_json(envelope).field("version"@) == Some(Json::Integer(1)),
{
    names_differ();
    let fields = seq![
        ("body"@, body_json(envelope.message)),
        ("job"@, hex_json(envelope.job_id@)),
        ("kind"@, Json::Text(kind_of(envelope.message))),
        ("version"@, Json::Integer(1)),
    ];
    lookup(fields, 0);
    lookup(fields, 1);
    lookup(fields, 2);
    lookup(fields, 3);
}

/// Every public round of canonical points and scalars that can be written is
/// accepted when it is read.
pub proof fn quote_round_accepted(envelope: Envelope)
    requires
        unfit(envelope.message) is None,
        message_canonical(envelope.message),
    ensures
        envelope_refusal(envelope_json(envelope)) is None,
{
    envelope_fields(envelope);
    names_differ();
    hex_json_read(envelope.job_id@, "quote job"@);
    match envelope.message {
        Message::Evaluations(value) => {
            evaluations_read(value);
        },
        Message::RelationEvaluations(value) => {
            relations_read(value);
        },
        Message::Round1Seal(value) => {
            seals_read(value);
        },
        Message::Round1(value) => {
            round1_read(value);
        },
        Message::Challenge(value) => {
            challenge_read(value);
        },
        Message::Round2(value) => {
            round2_read(value);
        },
    }
}

/// What is read of a public round that was written is of the same job and kind, and
/// is written again as the same document: it fits the wire, and its text is the one
/// that was read.
pub proof fn quote_round_trip(envelope: Envelope, read: Envelope)
    requires
        unfit(envelope.message) is None,
        envelope_said(envelope_json(envelope), read),
    ensures
        read.job_id@ == envelope.job_id@,
        kind_of(read.message) == kind_of(envelope.message),
        unfit(read.message) is None,
        envelope_json(read) == envelope_json(envelope),
        json_text(envelope_json(read)) == json_text(envelope_json(envelope)),
{
    envelope_fields(envelope);
    names_differ();
    hex_json_read(envelope.job_id@, Seq::empty());
    match (envelope.message, read.message) {
        (Message::Evaluations(value), Message::Evaluations(other)) => {
            evaluations_same(value, other);
        },
        (Message::RelationEvaluations(value), Message::RelationEvaluations(other)) => {
            relations_same(value, other);
        },
        (Message::Round1Seal(value), Message::Round1Seal(other)) => {
            seals_same(value, other);
        },
        (Message::Round1(value), Message::Round1(other)) => {
            round1_same(value, other);
        },
        (Message::Challenge(value), Message::Challenge(other)) => {
            challenge_same(value, other);
        },
        (Message::Round2(value), Message::Round2(other)) => {
            round2_same(value, other);
        },
        _ => {
            assert(kind_of(read.message) == kind_of(envelope.message));
            assert(false);
        },
    }
    assert(envelope_json(read) == envelope_json(envelope));
}

} // verus!
