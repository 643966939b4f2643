//! What the messages of a quote's proof and the records of approvals hold, member by member.

use vstd::prelude::*;
use crate::fields::hex_json;
use crate::group::Scalar;
use crate::json::Json;
use crate::quote_laws::lookup;
use crate::quote_messages::{
    body_json, challenge_json, envelope_json, evaluations_json, kind_of, object_json, opening_challenge_json,
    opening_round1_json, pair_json, points_json, product_challenge_json, product_challenge_list_json,
    product_evaluations_json, product_evaluations_list_json, product_round1_json, product_round1_list_json,
    product_round2_list_json, product_seals_list_json, quorum_json, range_challenge_json, range_challenge_list_json,
    range_evaluations_json, range_evaluations_list_json, range_relations_list_json, range_round1_json,
    range_round1_list_json, range_round2_json, range_round2_list_json, range_seals_list_json, relations_json,
    round1_json, round2_json, scalars_json, seals_json, triple_json, wires_json, Envelope, OpeningChallenge,
    OpeningRound1, ProductChallenge, ProductEvaluations, ProductRound1, QuoteChallenges, QuoteNodeEvaluations,
    QuoteRelationEvaluations, QuoteRound1, QuoteRound1Seals, QuoteRound2, RangeChallenge, RangeEvaluations,
    RangeRound1, RangeRound2,
};
use crate::request_laws::{says, says_hex};
use crate::resident_quote::approval_json;
use crate::text::hex_round_trip;

verus! {

/// Every member of the record of an approval stands under its name.
pub proof fn approval_members(name: Seq<char>, program_digest: Seq<char>, shape: Json)
    ensures
        ({
            let it = approval_json(name, program_digest, shape);
            &&& says(it, "name"@, Json::Text(name))
            &&& says(it, "program_digest"@, Json::Text(program_digest))
            &&& says(it, "shape"@, shape)
        }),
{
    let it = approval_json(name, program_digest, shape);
    reveal_strlit("name");
    reveal_strlit("program_digest");
    reveal_strlit("shape");
    assert("name"@.len() == 4);
    assert("program_digest"@.len() == 14);
    assert("shape"@.len() == 5);
    let fields = seq![
        ("name"@, Json::Text(name)),
        ("program_digest"@, Json::Text(program_digest)),
        ("shape"@, shape),
    ];
    assert(it == object_json(fields));
    lookup(fields, 0);
    lookup(fields, 1);
    lookup(fields, 2);
}

/// Every member of the record of a product's evaluations stands under its name.
pub proof fn product_evaluations_members(value: ProductEvaluations)
    ensures
        ({
            let it = product_evaluations_json(value);
            &&& says_hex(it, "f"@, value.factor@)
            &&& says_hex(it, "r"@, value.relation@)
        }),
{
    let it = product_evaluations_json(value);
    reveal_strlit("f");
    reveal_strlit("r");
    assert("f"@.len() == 1);
    assert("r"@.len() == 1);
    assert("f"@[0] != "r"@[0]);
    let fields = seq![
        ("f"@, hex_json(value.factor@)),
        ("r"@, hex_json(value.relation@)),
    ];
    assert(it == object_json(fields));
    lookup(fields, 0);
    lookup(fields, 1);
    hex_round_trip(value.factor@);
    hex_round_trip(value.relation@);
}

/// Every member of the record of a product's first round stands under its name.
pub proof fn product_round1_members(value: ProductRound1)
    ensures
        ({
            let it = product_round1_json(value);
            &&& says_hex(it, "c"@, value.context_digest@)
            &&& says_hex(it, "f"@, value.factor@)
            &&& says_hex(it, "p"@, value.product@)
        }),
{
    let it = product_round1_json(value);
    reveal_strlit("c");
    reveal_strlit("f");
    reveal_strlit("p");
    assert("c"@.len() == 1);
    assert("f"@.len() == 1);
    assert("p"@.len() == 1);
    assert("c"@[0] != "f"@[0]);
    assert("c"@[0] != "p"@[0]);
    assert("f"@[0] != "p"@[0]);
    let fields = seq![
        ("c"@, hex_json(value.context_digest@)),
        ("f"@, hex_json(value.factor@)),
        ("p"@, hex_json(value.product@)),
    ];
    assert(it == object_json(fields));
    lookup(fields, 0);
    lookup(fields, 1);
    lookup(fields, 2);
    hex_round_trip(value.context_digest@);
    hex_round_trip(value.factor@);
    hex_round_trip(value.product@);
}

/// Every member of the record of a product's challenge stands under its name.
pub proof fn product_challenge_members(value: ProductChallenge)
    ensures
        ({
            let it = product_challenge_json(value);
            &&& says_hex(it, "c"@, value.context_digest@)
            &&& says_hex(it, "f"@, value.factor@)
            &&& says_hex(it, "p"@, value.product@)
            &&& says_hex(it, "x"@, value.challenge@)
        }),
{
    let it = product_challenge_json(value);
    reveal_strlit("c");
    reveal_strlit("f");
    reveal_strlit("p");
    reveal_strlit("x");
    assert("c"@.len() == 1);
    assert("f"@.len() == 1);
    assert("p"@.len() == 1);
    assert("x"@.len() == 1);
    assert("c"@[0] != "f"@[0]);
    assert("c"@[0] != "p"@[0]);
    assert("c"@[0] != "x"@[0]);
    assert("f"@[0] != "p"@[0]);
    assert("f"@[0] != "x"@[0]);
    assert("p"@[0] != "x"@[0]);
    let fields = seq![
        ("c"@, hex_json(value.context_digest@)),
        ("f"@, hex_json(value.factor@)),
        ("p"@, hex_json(value.product@)),
        ("x"@, hex_json(value.challenge@)),
    ];
    assert(it == object_json(fields));
    lookup(fields, 0);
    lookup(fields, 1);
    lookup(fields, 2);
    lookup(fields, 3);
    hex_round_trip(value.context_digest@);
    hex_round_trip(value.factor@);
    hex_round_trip(value.product@);
    hex_round_trip(value.challenge@);
}

/// Every member of the record of a range's evaluations stands under its name.
pub proof fn range_evaluations_members(value: RangeEvaluations)
    ensures
        ({
            let it = range_evaluations_json(value);
            &&& says(it, "b"@, points_json(value.bits@))
            &&& says_hex(it, "v"@, value.value@)
        }),
{
    let it = range_evaluations_json(value);
    reveal_strlit("b");
    reveal_strlit("v");
    assert("b"@.len() == 1);
    assert("v"@.len() == 1);
    assert("b"@[0] != "v"@[0]);
    let fields = seq![
        ("b"@, points_json(value.bits@)),
        ("v"@, hex_json(value.value@)),
    ];
    assert(it == object_json(fields));
    lookup(fields, 0);
    lookup(fields, 1);
    hex_round_trip(value.value@);
}

/// Every member of the record of a range's first round stands under its name.
pub proof fn range_round1_members(value: RangeRound1)
    ensures
        ({
            let it = range_round1_json(value);
            &&& says_hex(it, "c"@, value.context_digest@)
            &&& says(it, "f"@, points_json(value.bit_factor@))
            &&& says_hex(it, "l"@, value.linkage@)
            &&& says(it, "p"@, points_json(value.bit_product@))
        }),
{
    let it = range_round1_json(value);
    reveal_strlit("c");
    reveal_strlit("f");
    reveal_strlit("l");
    reveal_strlit("p");
    assert("c"@.len() == 1);
    assert("f"@.len() == 1);
    assert("l"@.len() == 1);
    assert("p"@.len() == 1);
    assert("c"@[0] != "f"@[0]);
    assert("c"@[0] != "l"@[0]);
    assert("c"@[0] != "p"@[0]);
    assert("f"@[0] != "l"@[0]);
    assert("f"@[0] != "p"@[0]);
    assert("l"@[0] != "p"@[0]);
    let fields = seq![
        ("c"@, hex_json(value.context_digest@)),
        ("f"@, points_json(value.bit_factor@)),
        ("l"@, hex_json(value.linkage@)),
        ("p"@, points_json(value.bit_product@)),
    ];
    assert(it == object_json(fields));
    lookup(fields, 0);
    lookup(fields, 1);
    lookup(fields, 2);
    lookup(fields, 3);
    hex_round_trip(value.context_digest@);
    hex_round_trip(value.linkage@);
}

/// Every member of the record of a range's challenge stands under its name.
pub proof fn range_challenge_members(value: RangeChallenge)
    ensures
        ({
            let it = range_challenge_json(value);
            &&& says_hex(it, "c"@, value.context_digest@)
            &&& says(it, "f"@, points_json(value.bit_factor@))
            &&& says_hex(it, "l"@, value.linkage@)
            &&& says_hex(it, "lx"@, value.linkage_challenge@)
            &&& says(it, "p"@, points_json(value.bit_product@))
            &&& says(it, "x"@, scalars_json(value.bit_challenges@))
        }),
{
    let it = range_challenge_json(value);
    reveal_strlit("c");
    reveal_strlit("f");
    reveal_strlit("l");
    reveal_strlit("lx");
    reveal_strlit("p");
    reveal_strlit("x");
    assert("c"@.len() == 1);
    assert("f"@.len() == 1);
    assert("l"@.len() == 1);
    assert("lx"@.len() == 2);
    assert("p"@.len() == 1);
    assert("x"@.len() == 1);
    assert("c"@[0] != "f"@[0]);
    assert("c"@[0] != "l"@[0]);
    assert("c"@[0] != "p"@[0]);
    assert("c"@[0] != "x"@[0]);
    assert("f"@[0] != "l"@[0]);
    assert("f"@[0] != "p"@[0]);
    assert("f"@[0] != "x"@[0]);
    assert("l"@[0] != "p"@[0]);
    assert("l"@[0] != "x"@[0]);
    assert("p"@[0] != "x"@[0]);
    let fields = seq![
        ("c"@, hex_json(value.context_digest@)),
        ("f"@, points_json(value.bit_factor@)),
        ("l"@, hex_json(value.linkage@)),
        ("lx"@, hex_json(value.linkage_challenge@)),
        ("p"@, points_json(value.bit_product@)),
        ("x"@, scalars_json(value.bit_challenges@)),
    ];
    assert(it == object_json(fields));
    lookup(fields, 0);
    lookup(fields, 1);
    lookup(fields, 2);
    lookup(fields, 3);
    lookup(fields, 4);
    lookup(fields, 5);
    hex_round_trip(value.context_digest@);
    hex_round_trip(value.linkage@);
    hex_round_trip(value.linkage_challenge@);
}

/// Every member of the record of an opening's first round stands under its name.
pub proof fn opening_round1_members(value: OpeningRound1)
    ensures
        ({
            let it = opening_round1_json(value);
            &&& says_hex(it, "c"@, value.context_digest@)
            &&& says_hex(it, "n"@, value.nonce_commitment@)
        }),
{
    let it = opening_round1_json(value);
    reveal_strlit("c");
    reveal_strlit("n");
    assert("c"@.len() == 1);
    assert("n"@.len() == 1);
    assert("c"@[0] != "n"@[0]);
    let fields = seq![
        ("c"@, hex_json(value.context_digest@)),
        ("n"@, hex_json(value.nonce_commitment@)),
    ];
    assert(it == object_json(fields));
    lookup(fields, 0);
    lookup(fields, 1);
    hex_round_trip(value.context_digest@);
    hex_round_trip(value.nonce_commitment@);
}

/// Every member of the record of an opening's challenge stands under its name.
pub proof fn opening_challenge_members(value: OpeningChallenge)
    ensures
        ({
            let it = opening_challenge_json(value);
            &&& says_hex(it, "c"@, value.context_digest@)
            &&& says_hex(it, "n"@, value.nonce_commitment@)
            &&& says_hex(it, "x"@, value.challenge@)
        }),
{
    let it = opening_challenge_json(value);
    reveal_strlit("c");
    reveal_strlit("n");
    reveal_strlit("x");
    assert("c"@.len() == 1);
    assert("n"@.len() == 1);
    assert("x"@.len() == 1);
    assert("c"@[0] != "n"@[0]);
    assert("c"@[0] != "x"@[0]);
    assert("n"@[0] != "x"@[0]);
    let fields = seq![
        ("c"@, hex_json(value.context_digest@)),
        ("n"@, hex_json(value.nonce_commitment@)),
        ("x"@, hex_json(value.challenge@)),
    ];
    assert(it == object_json(fields));
    lookup(fields, 0);
    lookup(fields, 1);
    lookup(fields, 2);
    hex_round_trip(value.context_digest@);
    hex_round_trip(value.nonce_commitment@);
    hex_round_trip(value.challenge@);
}

/// Every member of the record of a range's second round stands under its name.
pub proof fn range_round2_members(value: RangeRound2)
    ensures
        ({
            let it = range_round2_json(value);
            &&& says(
                it,
                "b"@,
                Json::Array(value.bit_answers@.map_values(|t: (Scalar, Scalar, Scalar)| triple_json(t))),
            )
            &&& says(it, "l"@, pair_json(value.linkage_answer))
        }),
{
    let it = range_round2_json(value);
    reveal_strlit("b");
    reveal_strlit("l");
    assert("b"@.len() == 1);
    assert("l"@.len() == 1);
    assert("b"@[0] != "l"@[0]);
    let fields = seq![
        ("b"@, Json::Array(value.bit_answers@.map_values(|t: (Scalar, Scalar, Scalar)| triple_json(t)))),
        ("l"@, pair_json(value.linkage_answer)),
    ];
    assert(it == object_json(fields));
    lookup(fields, 0);
    lookup(fields, 1);
}

/// Every member of the record of a list of evaluations stands under its name.
pub proof fn evaluations_members(value: QuoteNodeEvaluations)
    ensures
        ({
            let it = evaluations_json(value);
            &&& says(it, "party"@, Json::Integer(value.party as int))
            &&& says(it, "wires"@, wires_json(value.wires@))
            &&& says(it, "ranges"@, range_evaluations_list_json(value.ranges@))
        }),
{
    let it = evaluations_json(value);
    reveal_strlit("party");
    reveal_strlit("wires");
    reveal_strlit("ranges");
    assert("party"@.len() == 5);
    assert("wires"@.len() == 5);
    assert("ranges"@.len() == 6);
    assert("party"@[0] != "wires"@[0]);
    let fields = seq![
        ("party"@, Json::Integer(value.party as int)),
        ("wires"@, wires_json(value.wires@)),
        ("ranges"@, range_evaluations_list_json(value.ranges@)),
    ];
    assert(it == object_json(fields));
    lookup(fields, 0);
    lookup(fields, 1);
    lookup(fields, 2);
}

/// Every member of the record of a list of relations stands under its name.
pub proof fn relations_members(value: QuoteRelationEvaluations)
    ensures
        ({
            let it = relations_json(value);
            &&& says(it, "party"@, Json::Integer(value.party as int))
            &&& says(it, "products"@, product_evaluations_list_json(value.products@))
            &&& says(it, "ranges"@, range_relations_list_json(value.ranges@))
        }),
{
    let it = relations_json(value);
    reveal_strlit("party");
    reveal_strlit("products");
    reveal_strlit("ranges");
    assert("party"@.len() == 5);
    assert("products"@.len() == 8);
    assert("ranges"@.len() == 6);
    let fields = seq![
        ("party"@, Json::Integer(value.party as int)),
        ("products"@, product_evaluations_list_json(value.products@)),
        ("ranges"@, range_relations_list_json(value.ranges@)),
    ];
    assert(it == object_json(fields));
    lookup(fields, 0);
    lookup(fields, 1);
    lookup(fields, 2);
}

/// Every member of the record of a list of seals stands under its name.
pub proof fn seals_members(value: QuoteRound1Seals)
    ensures
        ({
            let it = seals_json(value);
            &&& says(it, "party"@, Json::Integer(value.party as int))
            &&& says(it, "products"@, product_seals_list_json(value.products@))
            &&& says(it, "ranges"@, range_seals_list_json(value.ranges@))
            &&& says_hex(it, "winner"@, value.winner.digest@)
        }),
{
    let it = seals_json(value);
    reveal_strlit("party");
    reveal_strlit("products");
    reveal_strlit("ranges");
    reveal_strlit("winner");
    assert("party"@.len() == 5);
    assert("products"@.len() == 8);
    assert("ranges"@.len() == 6);
    assert("winner"@.len() == 6);
    assert("ranges"@[0] != "winner"@[0]);
    let fields = seq![
        ("party"@, Json::Integer(value.party as int)),
        ("products"@, product_seals_list_json(value.products@)),
        ("ranges"@, range_seals_list_json(value.ranges@)),
        ("winner"@, hex_json(value.winner.digest@)),
    ];
    assert(it == object_json(fields));
    lookup(fields, 0);
    lookup(fields, 1);
    lookup(fields, 2);
    lookup(fields, 3);
    hex_round_trip(value.winner.digest@);
}

/// Every member of the record of a first round stands under its name.
pub proof fn round1_members(value: QuoteRound1)
    ensures
        ({
            let it = round1_json(value);
            &&& says(it, "party"@, Json::Integer(value.party as int))
            &&& says(it, "products"@, product_round1_list_json(value.products@))
            &&& says(it, "ranges"@, range_round1_list_json(value.ranges@))
            &&& says(it, "winner"@, opening_round1_json(value.winner))
        }),
{
    let it = round1_json(value);
    reveal_strlit("party");
    reveal_strlit("products");
    reveal_strlit("ranges");
    reveal_strlit("winner");
    assert("party"@.len() == 5);
    assert("products"@.len() == 8);
    assert("ranges"@.len() == 6);
    assert("winner"@.len() == 6);
    assert("ranges"@[0] != "winner"@[0]);
    let fields = seq![
        ("party"@, Json::Integer(value.party as int)),
        ("products"@, product_round1_list_json(value.products@)),
        ("ranges"@, range_round1_list_json(value.ranges@)),
        ("winner"@, opening_round1_json(value.winner)),
    ];
    assert(it == object_json(fields));
    lookup(fields, 0);
    lookup(fields, 1);
    lookup(fields, 2);
    lookup(fields, 3);
}

/// Every member of the record of a challenge stands under its name.
pub proof fn challenge_members(value: QuoteChallenges)
    ensures
        ({
            let it = challenge_json(value);
            &&& says(it, "quorum"@, quorum_json(value.winner.quorum@))
            &&& says(it, "products"@, product_challenge_list_json(value.products@))
            &&& says(it, "ranges"@, range_challenge_list_json(value.ranges@))
            &&& says(it, "winner"@, opening_challenge_json(value.winner))
        }),
{
    let it = challenge_json(value);
    reveal_strlit("quorum");
    reveal_strlit("products");
    reveal_strlit("ranges");
    reveal_strlit("winner");
    assert("quorum"@.len() == 6);
    assert("products"@.len() == 8);
    assert("ranges"@.len() == 6);
    assert("winner"@.len() == 6);
    assert("quorum"@[0] != "ranges"@[0]);
    assert("quorum"@[0] != "winner"@[0]);
    assert("ranges"@[0] != "winner"@[0]);
    let fields = seq![
        ("quorum"@, quorum_json(value.winner.quorum@)),
        ("products"@, product_challenge_list_json(value.products@)),
        ("ranges"@, range_challenge_list_json(value.ranges@)),
        ("winner"@, opening_challenge_json(value.winner)),
    ];
    assert(it == object_json(fields));
    lookup(fields, 0);
    lookup(fields, 1);
    lookup(fields, 2);
    lookup(fields, 3);
}

/// Every member of the record of a second round stands under its name.
pub proof fn round2_members(value: QuoteRound2)
    ensures
        ({
            let it = round2_json(value);
            &&& says(it, "party"@, Json::Integer(value.party as int))
            &&& says(it, "products"@, product_round2_list_json(value.products@))
            &&& says(it, "ranges"@, range_round2_list_json(value.ranges@))
            &&& says(it, "winner"@, pair_json((value.winner.value_answer, value.winner.blinding_answer)))
        }),
{
    let it = round2_json(value);
    reveal_strlit("party");
    reveal_strlit("products");
    reveal_strlit("ranges");
    reveal_strlit("winner");
    assert("party"@.len() == 5);
    assert("products"@.len() == 8);
    assert("ranges"@.len() == 6);
    assert("winner"@.len() == 6);
    assert("ranges"@[0] != "winner"@[0]);
    let fields = seq![
        ("party"@, Json::Integer(value.party as int)),
        ("products"@, product_round2_list_json(value.products@)),
        ("ranges"@, range_round2_list_json(value.ranges@)),
        ("winner"@, pair_json((value.winner.value_answer, value.winner.blinding_answer))),
    ];
    assert(it == object_json(fields));
    lookup(fields, 0);
    lookup(fields, 1);
    lookup(fields, 2);
    lookup(fields, 3);
}

/// Every member of the record of an envelope stands under its name.
pub proof fn envelope_members(envelope: Envelope)
    ensures
        ({
            let it = envelope_json(envelope);
            &&& says(it, "body"@, body_json(envelope.message))
            &&& says_hex(it, "job"@, envelope.job_id@)
            &&& says(it, "kind"@, Json::Text(kind_of(envelope.message)))
            &&& says(it, "version"@, Json::Integer(1))
        }),
{
    let it = envelope_json(envelope);
    reveal_strlit("body");
    reveal_strlit("job");
    reveal_strlit("kind");
    reveal_strlit("version");
    assert("body"@.len() == 4);
    assert("job"@.len() == 3);
    assert("kind"@.len() == 4);
    assert("version"@.len() == 7);
    assert("body"@[0] != "kind"@[0]);
    let fields = seq![
        ("body"@, body_json(envelope.message)),
        ("job"@, hex_json(envelope.job_id@)),
        ("kind"@, Json::Text(kind_of(envelope.message))),
        ("version"@, Json::Integer(1)),
    ];
    assert(it == object_json(fields));
    lookup(fields, 0);
    lookup(fields, 1);
    lookup(fields, 2);
    lookup(fields, 3);
    hex_round_trip(envelope.job_id@);
}

} // verus!
