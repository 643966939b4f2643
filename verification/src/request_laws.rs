//! What is asked of a party, member by member: a party reads what the coordinator wrote.

use vstd::prelude::*;
use crate::complete_quote::{policies_json, policy_json, public_json, quote_bind_json, CompleteQuoteRequest};
use crate::coordinator::{job_json, wires_json};
use crate::fields::hex_json;
use crate::json::{text_in, Json};
use crate::proof_params::one_wire_refusal;
use crate::quote_codec::RegisteredPolicy;
use crate::quote_laws::lookup;
use crate::quote_messages::object_json;
use crate::settlement::{
    allocation_json, challenge_json, claim_json, evaluations_json, finalize_json, limit_round_json, quorum_json,
    typed_json, zkpi_bind_json, zkpi_json, PartialPayment, PoolAllocation, TypedSettlement,
};
use crate::text::{base64_bytes, base64_round_trip, base64_text, hex_bytes, hex_round_trip, hex_text, is_hex};

verus! {

/// Whether a document holds a value under a name.
pub open spec fn says(document: Json, name: Seq<char>, value: Json) -> bool {
    document.field(name) == Some(value)
}

/// Whether a document holds bytes in hexadecimal under a name.
pub open spec fn says_hex(document: Json, name: Seq<char>, bytes: Seq<u8>) -> bool {
    let text = text_in(document.field(name));
    text is Some && is_hex(text->0) && hex_bytes(text->0) == bytes
}

/// Whether a document holds bytes in base64 under a name, and a party takes them as a wire
/// where they are within its bound.
pub open spec fn says_wire(document: Json, name: Seq<char>, bytes: Seq<u8>) -> bool {
    let text = text_in(document.field(name));
    &&& text is Some && base64_bytes(text->0) == Some(bytes)
    &&& 0 < bytes.len() <= 0x10_0000 ==> one_wire_refusal(document, name) is None
}

/// Every member of a request with a list of evaluations is read as it was written.
pub proof fn evaluations_members(job_id: Seq<u8>, wires: Seq<Vec<u8>>)
    ensures
        ({
            let it = evaluations_json(job_id, wires);
            &&& says_hex(it, "job_id"@, job_id)
            &&& says(it, "evaluations"@, wires_json(wires))
        }),
{
    let it = evaluations_json(job_id, wires);
    reveal_strlit("job_id");
    reveal_strlit("evaluations");
    assert("job_id"@.len() == 6);
    assert("evaluations"@.len() == 11);
    let fields = seq![
        ("job_id"@, hex_json(job_id)),
        ("evaluations"@, wires_json(wires)),
    ];
    assert(it == object_json(fields));
    lookup(fields, 0);
    lookup(fields, 1);
    hex_round_trip(job_id);
}

/// Every member of a request with a challenge is read as it was written.
pub proof fn challenge_members(job_id: Seq<u8>, wire: Seq<u8>)
    ensures
        ({
            let it = challenge_json(job_id, wire);
            &&& says_hex(it, "job_id"@, job_id)
            &&& says_wire(it, "challenge"@, wire)
        }),
{
    let it = challenge_json(job_id, wire);
    reveal_strlit("job_id");
    reveal_strlit("challenge");
    assert("job_id"@.len() == 6);
    assert("challenge"@.len() == 9);
    let fields = seq![
        ("job_id"@, hex_json(job_id)),
        ("challenge"@, Json::Text(base64_text(wire))),
    ];
    assert(it == object_json(fields));
    lookup(fields, 0);
    lookup(fields, 1);
    hex_round_trip(job_id);
    base64_round_trip(wire);
}

/// Every member of a request with a first round of a limit is read as it was written.
pub proof fn limit_round_members(job_id: Seq<u8>, context: Seq<u8>)
    ensures
        ({
            let it = limit_round_json(job_id, context);
            &&& says_hex(it, "job_id"@, job_id)
            &&& says_hex(it, "context"@, context)
        }),
{
    let it = limit_round_json(job_id, context);
    reveal_strlit("job_id");
    reveal_strlit("context");
    assert("job_id"@.len() == 6);
    assert("context"@.len() == 7);
    let fields = seq![
        ("job_id"@, hex_json(job_id)),
        ("context"@, hex_json(context)),
    ];
    assert(it == object_json(fields));
    lookup(fields, 0);
    lookup(fields, 1);
    hex_round_trip(job_id);
    hex_round_trip(context);
}

/// Every member of a request with a zkPI binding is read as it was written.
pub proof fn zkpi_bind_members(job_id: Seq<u8>, wires: Seq<Vec<u8>>, handles: Seq<Json>)
    ensures
        ({
            let it = zkpi_bind_json(job_id, wires, handles);
            &&& says_hex(it, "job_id"@, job_id)
            &&& says(it, "evaluations"@, wires_json(wires))
            &&& says(it, "maker_handle_evaluations"@, Json::Array(handles))
        }),
{
    let it = zkpi_bind_json(job_id, wires, handles);
    reveal_strlit("job_id");
    reveal_strlit("evaluations");
    reveal_strlit("maker_handle_evaluations");
    assert("job_id"@.len() == 6);
    assert("evaluations"@.len() == 11);
    assert("maker_handle_evaluations"@.len() == 24);
    let fields = seq![
        ("job_id"@, hex_json(job_id)),
        ("evaluations"@, wires_json(wires)),
        ("maker_handle_evaluations"@, Json::Array(handles)),
    ];
    assert(it == object_json(fields));
    lookup(fields, 0);
    lookup(fields, 1);
    lookup(fields, 2);
    hex_round_trip(job_id);
}

/// Every member of a request with a quote finalization is read as it was written.
pub proof fn finalize_members(job_id: Seq<u8>, rounds: Seq<Vec<u8>>, seals: Seq<Vec<u8>>, responses: Seq<Vec<u8>>)
    ensures
        ({
            let it = finalize_json(job_id, rounds, seals, responses);
            &&& says_hex(it, "job_id"@, job_id)
            &&& says(it, "rounds"@, wires_json(rounds))
            &&& says(it, "seals"@, wires_json(seals))
            &&& says(it, "responses"@, wires_json(responses))
            &&& says(it, "quorum"@, quorum_json())
        }),
{
    let it = finalize_json(job_id, rounds, seals, responses);
    reveal_strlit("job_id");
    reveal_strlit("rounds");
    reveal_strlit("seals");
    reveal_strlit("responses");
    reveal_strlit("quorum");
    assert("job_id"@.len() == 6);
    assert("rounds"@.len() == 6);
    assert("seals"@.len() == 5);
    assert("responses"@.len() == 9);
    assert("quorum"@.len() == 6);
    assert("job_id"@[0] != "rounds"@[0]);
    assert("job_id"@[0] != "quorum"@[0]);
    assert("rounds"@[0] != "quorum"@[0]);
    let fields = seq![
        ("job_id"@, hex_json(job_id)),
        ("rounds"@, wires_json(rounds)),
        ("seals"@, wires_json(seals)),
        ("responses"@, wires_json(responses)),
        ("quorum"@, quorum_json()),
    ];
    assert(it == object_json(fields));
    lookup(fields, 0);
    lookup(fields, 1);
    lookup(fields, 2);
    lookup(fields, 3);
    lookup(fields, 4);
    hex_round_trip(job_id);
}

/// Every member of a request with a zkPI payment is read as it was written.
pub proof fn zkpi_members(
    job_id: Seq<u8>,
    payment: PartialPayment,
    signing_job: Seq<u8>,
    quote_digest: Seq<u8>,
    amount_range: Seq<u8>,
    price_range: Seq<u8>,
)
    ensures
        ({
            let it = zkpi_json(job_id, payment, signing_job, quote_digest, amount_range, price_range);
            &&& says_hex(it, "job_id"@, job_id)
            &&& says_hex(it, "signing_job_id"@, signing_job)
            &&& says_wire(it, "message"@, payment.digest@)
            &&& says_wire(it, "amount_range"@, amount_range)
            &&& says_wire(it, "price_range"@, price_range)
            &&& says_hex(it, "asset_commitment"@, payment.asset_commitment@)
            &&& says_hex(it, "payer_handle"@, payment.payer_handle@)
            &&& says_hex(it, "payee_handle"@, payment.payee_handle@)
            &&& says(it, "deadline"@, Json::Integer(payment.deadline as int))
            &&& says_hex(it, "nonce"@, payment.nonce@)
            &&& says_hex(it, "quote_digest"@, quote_digest)
        }),
{
    let it = zkpi_json(job_id, payment, signing_job, quote_digest, amount_range, price_range);
    reveal_strlit("job_id");
    reveal_strlit("signing_job_id");
    reveal_strlit("message");
    reveal_strlit("amount_range");
    reveal_strlit("price_range");
    reveal_strlit("asset_commitment");
    reveal_strlit("payer_handle");
    reveal_strlit("payee_handle");
    reveal_strlit("deadline");
    reveal_strlit("nonce");
    reveal_strlit("quote_digest");
    assert("job_id"@.len() == 6);
    assert("signing_job_id"@.len() == 14);
    assert("message"@.len() == 7);
    assert("amount_range"@.len() == 12);
    assert("price_range"@.len() == 11);
    assert("asset_commitment"@.len() == 16);
    assert("payer_handle"@.len() == 12);
    assert("payee_handle"@.len() == 12);
    assert("deadline"@.len() == 8);
    assert("nonce"@.len() == 5);
    assert("quote_digest"@.len() == 12);
    assert("amount_range"@[0] != "payer_handle"@[0]);
    assert("amount_range"@[0] != "payee_handle"@[0]);
    assert("amount_range"@[0] != "quote_digest"@[0]);
    assert("payer_handle"@[4] != "payee_handle"@[4]);
    assert("payer_handle"@[0] != "quote_digest"@[0]);
    assert("payee_handle"@[0] != "quote_digest"@[0]);
    let fields = seq![
        ("job_id"@, hex_json(job_id)),
        ("signing_job_id"@, hex_json(signing_job)),
        ("message"@, Json::Text(base64_text(payment.digest@))),
        ("amount_range"@, Json::Text(base64_text(amount_range))),
        ("price_range"@, Json::Text(base64_text(price_range))),
        ("asset_commitment"@, hex_json(payment.asset_commitment@)),
        ("payer_handle"@, hex_json(payment.payer_handle@)),
        ("payee_handle"@, hex_json(payment.payee_handle@)),
        ("deadline"@, Json::Integer(payment.deadline as int)),
        ("nonce"@, hex_json(payment.nonce@)),
        ("quote_digest"@, hex_json(quote_digest)),
    ];
    assert(it == object_json(fields));
    lookup(fields, 0);
    lookup(fields, 1);
    lookup(fields, 2);
    lookup(fields, 3);
    lookup(fields, 4);
    lookup(fields, 5);
    lookup(fields, 6);
    lookup(fields, 7);
    lookup(fields, 8);
    lookup(fields, 9);
    lookup(fields, 10);
    hex_round_trip(job_id);
    hex_round_trip(signing_job);
    base64_round_trip(payment.digest@);
    base64_round_trip(amount_range);
    base64_round_trip(price_range);
    hex_round_trip(payment.asset_commitment@);
    hex_round_trip(payment.payer_handle@);
    hex_round_trip(payment.payee_handle@);
    hex_round_trip(payment.nonce@);
    hex_round_trip(quote_digest);
}

/// Every member of a request with a typed settlement is read as it was written.
pub proof fn typed_members(settlement: TypedSettlement, signing_job: Seq<u8>)
    ensures
        ({
            let it = typed_json(settlement, signing_job);
            &&& says_hex(it, "job_id"@, settlement.job_id@)
            &&& says_hex(it, "signing_job_id"@, signing_job)
            &&& says_wire(it, "message"@, settlement.message@)
            &&& says_wire(it, "payment"@, settlement.payment@)
            &&& says_wire(it, "context"@, settlement.context@)
            &&& says_wire(it, "pretrade_ack"@, settlement.pretrade_ack@)
        }),
{
    let it = typed_json(settlement, signing_job);
    reveal_strlit("job_id");
    reveal_strlit("signing_job_id");
    reveal_strlit("message");
    reveal_strlit("payment");
    reveal_strlit("context");
    reveal_strlit("pretrade_ack");
    assert("job_id"@.len() == 6);
    assert("signing_job_id"@.len() == 14);
    assert("message"@.len() == 7);
    assert("payment"@.len() == 7);
    assert("context"@.len() == 7);
    assert("pretrade_ack"@.len() == 12);
    assert("message"@[0] != "payment"@[0]);
    assert("message"@[0] != "context"@[0]);
    assert("payment"@[0] != "context"@[0]);
    let fields = seq![
        ("job_id"@, hex_json(settlement.job_id@)),
        ("signing_job_id"@, hex_json(signing_job)),
        ("message"@, Json::Text(base64_text(settlement.message@))),
        ("payment"@, Json::Text(base64_text(settlement.payment@))),
        ("context"@, Json::Text(base64_text(settlement.context@))),
        ("pretrade_ack"@, Json::Text(base64_text(settlement.pretrade_ack@))),
    ];
    assert(it == object_json(fields));
    lookup(fields, 0);
    lookup(fields, 1);
    lookup(fields, 2);
    lookup(fields, 3);
    lookup(fields, 4);
    lookup(fields, 5);
    hex_round_trip(settlement.job_id@);
    hex_round_trip(signing_job);
    base64_round_trip(settlement.message@);
    base64_round_trip(settlement.payment@);
    base64_round_trip(settlement.context@);
    base64_round_trip(settlement.pretrade_ack@);
}

/// Every member of a request with a pool allocation is read as it was written.
pub proof fn allocation_members(allocation: PoolAllocation, signing_job: Seq<u8>)
    ensures
        ({
            let it = allocation_json(allocation, signing_job);
            &&& says_hex(it, "job_id"@, allocation.job_id@)
            &&& says_hex(it, "signing_job_id"@, signing_job)
            &&& says_wire(it, "message"@, allocation.message@)
            &&& says(it, "allocation_binding"@, allocation.allocation_binding@)
            &&& says_wire(it, "payment"@, allocation.payment@)
            &&& says_wire(it, "dvp_proofs"@, allocation.dvp_proofs@)
            &&& says_wire(it, "pool_remainder_range"@, allocation.pool_remainder_range@)
            &&& says(it, "role"@, Json::Text("maker"@))
            &&& says_wire(it, "mandate_unsigned"@, allocation.mandate_unsigned@)
            &&& says_hex(it, "mandate_signature"@, allocation.mandate_signature@)
        }),
{
    let it = allocation_json(allocation, signing_job);
    reveal_strlit("job_id");
    reveal_strlit("signing_job_id");
    reveal_strlit("message");
    reveal_strlit("allocation_binding");
    reveal_strlit("payment");
    reveal_strlit("dvp_proofs");
    reveal_strlit("pool_remainder_range");
    reveal_strlit("role");
    reveal_strlit("mandate_unsigned");
    reveal_strlit("mandate_signature");
    assert("job_id"@.len() == 6);
    assert("signing_job_id"@.len() == 14);
    assert("message"@.len() == 7);
    assert("allocation_binding"@.len() == 18);
    assert("payment"@.len() == 7);
    assert("dvp_proofs"@.len() == 10);
    assert("pool_remainder_range"@.len() == 20);
    assert("role"@.len() == 4);
    assert("mandate_unsigned"@.len() == 16);
    assert("mandate_signature"@.len() == 17);
    assert("message"@[0] != "payment"@[0]);
    let fields = seq![
        ("job_id"@, hex_json(allocation.job_id@)),
        ("signing_job_id"@, hex_json(signing_job)),
        ("message"@, Json::Text(base64_text(allocation.message@))),
        ("allocation_binding"@, allocation.allocation_binding@),
        ("payment"@, Json::Text(base64_text(allocation.payment@))),
        ("dvp_proofs"@, Json::Text(base64_text(allocation.dvp_proofs@))),
        ("pool_remainder_range"@, Json::Text(base64_text(allocation.pool_remainder_range@))),
        ("role"@, Json::Text("maker"@)),
        ("mandate_unsigned"@, Json::Text(base64_text(allocation.mandate_unsigned@))),
        ("mandate_signature"@, Json::Text(hex_text(allocation.mandate_signature@))),
    ];
    assert(it == object_json(fields));
    lookup(fields, 0);
    lookup(fields, 1);
    lookup(fields, 2);
    lookup(fields, 3);
    lookup(fields, 4);
    lookup(fields, 5);
    lookup(fields, 6);
    lookup(fields, 7);
    lookup(fields, 8);
    lookup(fields, 9);
    hex_round_trip(allocation.job_id@);
    hex_round_trip(signing_job);
    base64_round_trip(allocation.message@);
    base64_round_trip(allocation.payment@);
    base64_round_trip(allocation.dvp_proofs@);
    base64_round_trip(allocation.pool_remainder_range@);
    base64_round_trip(allocation.mandate_unsigned@);
    hex_round_trip(allocation.mandate_signature@);
}

/// Every member of a request with a claim to an opening is read as it was written.
pub proof fn claim_members(job_id: Seq<u8>, leg: Seq<char>, recipient: Seq<u8>)
    ensures
        ({
            let it = claim_json(job_id, leg, recipient);
            &&& says_hex(it, "job_id"@, job_id)
            &&& says(it, "leg"@, Json::Text(leg))
            &&& says_hex(it, "recipient_view"@, recipient)
        }),
{
    let it = claim_json(job_id, leg, recipient);
    reveal_strlit("job_id");
    reveal_strlit("leg");
    reveal_strlit("recipient_view");
    assert("job_id"@.len() == 6);
    assert("leg"@.len() == 3);
    assert("recipient_view"@.len() == 14);
    let fields = seq![
        ("job_id"@, hex_json(job_id)),
        ("leg"@, Json::Text(leg)),
        ("recipient_view"@, hex_json(recipient)),
    ];
    assert(it == object_json(fields));
    lookup(fields, 0);
    lookup(fields, 1);
    lookup(fields, 2);
    hex_round_trip(job_id);
    hex_round_trip(recipient);
}

/// Every member of a request with a job is read as it was written.
pub proof fn job_members(job_id: Seq<u8>)
    ensures
        ({
            let it = job_json(job_id);
            &&& says_hex(it, "job_id"@, job_id)
        }),
{
    let it = job_json(job_id);
    reveal_strlit("job_id");
    let fields = seq![
        ("job_id"@, hex_json(job_id)),
    ];
    assert(it == object_json(fields));
    lookup(fields, 0);
    hex_round_trip(job_id);
}

/// Every member of a request with a registered policy is read as it was written.
pub proof fn policy_members(policy: RegisteredPolicy)
    ensures
        ({
            let it = policy_json(policy);
            &&& says(it, "maker_asset"@, Json::Integer(policy.maker_asset as int))
            &&& says_hex(it, "ask_level"@, policy.ask_level@)
            &&& says_hex(it, "spread"@, policy.spread@)
            &&& says_hex(it, "slope"@, policy.slope@)
            &&& says_hex(it, "invcoef"@, policy.invcoef@)
            &&& says_hex(it, "inv"@, policy.inv@)
            &&& says_hex(it, "maxqty"@, policy.maxqty@)
            &&& says_hex(it, "expiry"@, policy.expiry@)
            &&& says_hex(it, "active"@, policy.active@)
            &&& says_hex(it, "use_ref"@, policy.use_ref@)
        }),
{
    let it = policy_json(policy);
    reveal_strlit("maker_asset");
    reveal_strlit("ask_level");
    reveal_strlit("spread");
    reveal_strlit("slope");
    reveal_strlit("invcoef");
    reveal_strlit("inv");
    reveal_strlit("maxqty");
    reveal_strlit("expiry");
    reveal_strlit("active");
    reveal_strlit("use_ref");
    assert("maker_asset"@.len() == 11);
    assert("ask_level"@.len() == 9);
    assert("spread"@.len() == 6);
    assert("slope"@.len() == 5);
    assert("invcoef"@.len() == 7);
    assert("inv"@.len() == 3);
    assert("maxqty"@.len() == 6);
    assert("expiry"@.len() == 6);
    assert("active"@.len() == 6);
    assert("use_ref"@.len() == 7);
    assert("spread"@[0] != "maxqty"@[0]);
    assert("spread"@[0] != "expiry"@[0]);
    assert("spread"@[0] != "active"@[0]);
    assert("invcoef"@[0] != "use_ref"@[0]);
    assert("maxqty"@[0] != "expiry"@[0]);
    assert("maxqty"@[0] != "active"@[0]);
    assert("expiry"@[0] != "active"@[0]);
    let fields = seq![
        ("maker_asset"@, Json::Integer(policy.maker_asset as int)),
        ("ask_level"@, hex_json(policy.ask_level@)),
        ("spread"@, hex_json(policy.spread@)),
        ("slope"@, hex_json(policy.slope@)),
        ("invcoef"@, hex_json(policy.invcoef@)),
        ("inv"@, hex_json(policy.inv@)),
        ("maxqty"@, hex_json(policy.maxqty@)),
        ("expiry"@, hex_json(policy.expiry@)),
        ("active"@, hex_json(policy.active@)),
        ("use_ref"@, hex_json(policy.use_ref@)),
    ];
    assert(it == object_json(fields));
    lookup(fields, 0);
    lookup(fields, 1);
    lookup(fields, 2);
    lookup(fields, 3);
    lookup(fields, 4);
    lookup(fields, 5);
    lookup(fields, 6);
    lookup(fields, 7);
    lookup(fields, 8);
    lookup(fields, 9);
    hex_round_trip(policy.ask_level@);
    hex_round_trip(policy.spread@);
    hex_round_trip(policy.slope@);
    hex_round_trip(policy.invcoef@);
    hex_round_trip(policy.inv@);
    hex_round_trip(policy.maxqty@);
    hex_round_trip(policy.expiry@);
    hex_round_trip(policy.active@);
    hex_round_trip(policy.use_ref@);
}

/// Every member of a request with a public statement is read as it was written.
pub proof fn public_members(request: CompleteQuoteRequest)
    ensures
        ({
            let it = public_json(request);
            &&& says_hex(it, "qty_commitment"@, request.public.qty_commitment@)
            &&& says(it, "now"@, Json::Integer(request.public.now as int))
            &&& says(it, "sentinel"@, Json::Integer(request.public.sentinel as int))
            &&& says(it, "n_slots"@, Json::Integer(request.public.n_slots as int))
            &&& says(it, "direction"@, Json::Integer(request.public.direction as int))
            &&& says(it, "asset"@, Json::Integer(request.public.asset as int))
            &&& says(it, "reference_price"@, Json::Integer(request.public.reference_price as int))
            &&& says(it, "registry"@, policies_json(request.public.registry@))
            &&& says_hex(it, "registry_digest"@, request.public.registry_digest@)
            &&& says_hex(it, "market_digest"@, request.public.market_digest@)
            &&& says(it, "slot"@, Json::Integer(request.public.slot as int))
            &&& says(it, "winner_index"@, Json::Integer(request.winner_index as int))
            &&& says(it, "winner_value"@, Json::Integer(request.winner_value as int))
        }),
{
    let it = public_json(request);
    reveal_strlit("qty_commitment");
    reveal_strlit("now");
    reveal_strlit("sentinel");
    reveal_strlit("n_slots");
    reveal_strlit("direction");
    reveal_strlit("asset");
    reveal_strlit("reference_price");
    reveal_strlit("registry");
    reveal_strlit("registry_digest");
    reveal_strlit("market_digest");
    reveal_strlit("slot");
    reveal_strlit("winner_index");
    reveal_strlit("winner_value");
    assert("qty_commitment"@.len() == 14);
    assert("now"@.len() == 3);
    assert("sentinel"@.len() == 8);
    assert("n_slots"@.len() == 7);
    assert("direction"@.len() == 9);
    assert("asset"@.len() == 5);
    assert("reference_price"@.len() == 15);
    assert("registry"@.len() == 8);
    assert("registry_digest"@.len() == 15);
    assert("market_digest"@.len() == 13);
    assert("slot"@.len() == 4);
    assert("winner_index"@.len() == 12);
    assert("winner_value"@.len() == 12);
    assert("sentinel"@[0] != "registry"@[0]);
    assert("reference_price"@[2] != "registry_digest"@[2]);
    assert("winner_index"@[7] != "winner_value"@[7]);
    let fields = seq![
        ("qty_commitment"@, hex_json(request.public.qty_commitment@)),
        ("now"@, Json::Integer(request.public.now as int)),
        ("sentinel"@, Json::Integer(request.public.sentinel as int)),
        ("n_slots"@, Json::Integer(request.public.n_slots as int)),
        ("direction"@, Json::Integer(request.public.direction as int)),
        ("asset"@, Json::Integer(request.public.asset as int)),
        ("reference_price"@, Json::Integer(request.public.reference_price as int)),
        ("registry"@, policies_json(request.public.registry@)),
        ("registry_digest"@, hex_json(request.public.registry_digest@)),
        ("market_digest"@, hex_json(request.public.market_digest@)),
        ("slot"@, Json::Integer(request.public.slot as int)),
        ("winner_index"@, Json::Integer(request.winner_index as int)),
        ("winner_value"@, Json::Integer(request.winner_value as int)),
    ];
    assert(it == object_json(fields));
    lookup(fields, 0);
    lookup(fields, 1);
    lookup(fields, 2);
    lookup(fields, 3);
    lookup(fields, 4);
    lookup(fields, 5);
    lookup(fields, 6);
    lookup(fields, 7);
    lookup(fields, 8);
    lookup(fields, 9);
    lookup(fields, 10);
    lookup(fields, 11);
    lookup(fields, 12);
    hex_round_trip(request.public.qty_commitment@);
    hex_round_trip(request.public.registry_digest@);
    hex_round_trip(request.public.market_digest@);
}

/// Every member of a request with a quote binding is read as it was written.
pub proof fn quote_bind_members(request: CompleteQuoteRequest, evaluations: Seq<Vec<u8>>, context: Seq<u8>)
    ensures
        ({
            let it = quote_bind_json(request, evaluations, context);
            &&& says_hex(it, "job_id"@, request.job_id@)
            &&& says(it, "evaluations"@, wires_json(evaluations))
            &&& says(it, "public"@, public_json(request))
            &&& says_wire(it, "quote_context"@, context)
        }),
{
    let it = quote_bind_json(request, evaluations, context);
    reveal_strlit("job_id");
    reveal_strlit("evaluations");
    reveal_strlit("public");
    reveal_strlit("quote_context");
    assert("job_id"@.len() == 6);
    assert("evaluations"@.len() == 11);
    assert("public"@.len() == 6);
    assert("quote_context"@.len() == 13);
    assert("job_id"@[0] != "public"@[0]);
    let fields = seq![
        ("job_id"@, hex_json(request.job_id@)),
        ("evaluations"@, wires_json(evaluations)),
        ("public"@, public_json(request)),
        ("quote_context"@, Json::Text(base64_text(context))),
    ];
    assert(it == object_json(fields));
    lookup(fields, 0);
    lookup(fields, 1);
    lookup(fields, 2);
    lookup(fields, 3);
    hex_round_trip(request.job_id@);
    base64_round_trip(context);
}

} // verus!
