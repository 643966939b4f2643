//! What a party answers, member by member: a coordinator reads what the party wrote.

use vstd::prelude::*;
use crate::coordinator::committee;
use crate::digest::sha256;
use crate::fields::hex_json;
use crate::json::Json;
use crate::order::Admission;
use crate::proof_answers::{
    admission_json, authorized_json, bound_json, commitment_json, completed_json, confirmation_json, confirmed_json,
    encrypted_json, envelope_json, execution_answer_json, first_round_json, handle_json, identity_json, loaded_json,
    observed_json, opening_json, option_hex, package_json, public_package_json, publication_json, quote_digest_json,
    share_json, IdentityKeys,
};
use crate::proof_state::ProofParty;
use crate::quote_laws::lookup;
use crate::quote_messages::object_json;
use crate::request_laws::{says, says_hex, says_wire};
use crate::text::{base64_round_trip, base64_text, hex_round_trip, hex_text};

verus! {

/// Every member of the answer with an authorization is read as it was written.
pub proof fn authorized_answer_members(kind: Seq<char>)
    ensures
        ({
            let it = authorized_json(kind);
            &&& says(it, "authorized"@, Json::Bool(true))
            &&& says(it, "kind"@, Json::Text(kind))
        }),
{
    let it = authorized_json(kind);
    reveal_strlit("authorized");
    reveal_strlit("kind");
    assert("authorized"@.len() == 10);
    assert("kind"@.len() == 4);
    let fields = seq![
        ("authorized"@, Json::Bool(true)),
        ("kind"@, Json::Text(kind)),
    ];
    assert(it == object_json(fields));
    lookup(fields, 0);
    lookup(fields, 1);
}

/// Every member of the answer with a confirmed manifest is read as it was written.
pub proof fn confirmed_answer_members()
    ensures
        ({
            let it = confirmed_json();
            &&& says(it, "confirmed"@, Json::Bool(true))
        }),
{
    let it = confirmed_json();
    reveal_strlit("confirmed");
    let fields = seq![
        ("confirmed"@, Json::Bool(true)),
    ];
    assert(it == object_json(fields));
    lookup(fields, 0);
}

/// Every member of the answer with a loaded job is read as it was written.
pub proof fn loaded_answer_members(party: nat)
    ensures
        ({
            let it = loaded_json(party);
            &&& says(it, "party"@, Json::Integer(party as int))
        }),
{
    let it = loaded_json(party);
    reveal_strlit("party");
    let fields = seq![
        ("party"@, Json::Integer(party as int)),
    ];
    assert(it == object_json(fields));
    lookup(fields, 0);
}

/// Every member of the answer with a broadcast package is read as it was written.
pub proof fn package_answer_members(party: nat, package: Seq<u8>)
    ensures
        ({
            let it = package_json(party, package);
            &&& says(it, "party"@, Json::Integer(party as int))
            &&& says_wire(it, "package"@, package)
        }),
{
    let it = package_json(party, package);
    reveal_strlit("party");
    reveal_strlit("package");
    assert("party"@.len() == 5);
    assert("package"@.len() == 7);
    let fields = seq![
        ("party"@, Json::Integer(party as int)),
        ("package"@, Json::Text(base64_text(package))),
    ];
    assert(it == object_json(fields));
    lookup(fields, 0);
    lookup(fields, 1);
    base64_round_trip(package);
}

/// Every member of the answer with an envelope is read as it was written.
pub proof fn envelope_answer_members(sender: nat, recipient: nat, envelope: Seq<u8>)
    ensures
        ({
            let it = envelope_json(sender, recipient, envelope);
            &&& says(it, "sender"@, Json::Integer(sender as int))
            &&& says(it, "recipient"@, Json::Integer(recipient as int))
            &&& says_wire(it, "envelope"@, envelope)
        }),
{
    let it = envelope_json(sender, recipient, envelope);
    reveal_strlit("sender");
    reveal_strlit("recipient");
    reveal_strlit("envelope");
    assert("sender"@.len() == 6);
    assert("recipient"@.len() == 9);
    assert("envelope"@.len() == 8);
    let fields = seq![
        ("sender"@, Json::Integer(sender as int)),
        ("recipient"@, Json::Integer(recipient as int)),
        ("envelope"@, Json::Text(base64_text(envelope))),
    ];
    assert(it == object_json(fields));
    lookup(fields, 0);
    lookup(fields, 1);
    lookup(fields, 2);
    base64_round_trip(envelope);
}

/// Every member of the answer with a public package is read as it was written.
pub proof fn public_package_answer_members(package: Seq<u8>)
    ensures
        ({
            let it = public_package_json(package);
            &&& says_wire(it, "public_package"@, package)
        }),
{
    let it = public_package_json(package);
    reveal_strlit("public_package");
    let fields = seq![
        ("public_package"@, Json::Text(base64_text(package))),
    ];
    assert(it == object_json(fields));
    lookup(fields, 0);
    base64_round_trip(package);
}

/// Every member of the answer with a confirmation is read as it was written.
pub proof fn confirmation_answer_members(party: nat, digest: Seq<u8>, signature: Seq<u8>, pq_signature: Seq<u8>)
    ensures
        ({
            let it = confirmation_json(party, digest, signature, pq_signature);
            &&& says(it, "party"@, Json::Integer(party as int))
            &&& says_hex(it, "manifest_digest"@, digest)
            &&& says_hex(it, "confirmation"@, signature)
            &&& says_wire(it, "pq_confirmation"@, pq_signature)
        }),
{
    let it = confirmation_json(party, digest, signature, pq_signature);
    reveal_strlit("party");
    reveal_strlit("manifest_digest");
    reveal_strlit("confirmation");
    reveal_strlit("pq_confirmation");
    assert("party"@.len() == 5);
    assert("manifest_digest"@.len() == 15);
    assert("confirmation"@.len() == 12);
    assert("pq_confirmation"@.len() == 15);
    assert("manifest_digest"@[0] != "pq_confirmation"@[0]);
    let fields = seq![
        ("party"@, Json::Integer(party as int)),
        ("manifest_digest"@, Json::Text(hex_text(digest))),
        ("confirmation"@, Json::Text(hex_text(signature))),
        ("pq_confirmation"@, Json::Text(base64_text(pq_signature))),
    ];
    assert(it == object_json(fields));
    lookup(fields, 0);
    lookup(fields, 1);
    lookup(fields, 2);
    lookup(fields, 3);
    hex_round_trip(digest);
    hex_round_trip(signature);
    base64_round_trip(pq_signature);
}

/// Every member of the answer with a node's identity is read as it was written.
pub proof fn identity_answer_members(party: nat, keys: IdentityKeys, signature: Seq<u8>, pq_signature: Seq<u8>)
    ensures
        ({
            let it = identity_json(party, keys, signature, pq_signature);
            &&& says(it, "party"@, Json::Integer(party as int))
            &&& says_hex(it, "identity_public"@, keys.identity@)
            &&& says_hex(it, "publication_public"@, keys.publication@)
            &&& says(it, "exchange_suite"@, keys.suite@)
            &&& says_hex(it, "exchange_public"@, keys.exchange@)
            &&& says_hex(it, "self_signature"@, signature)
            &&& says(it, "pq_key"@, keys.pq_key@)
            &&& says_wire(it, "pq_self_signature"@, pq_signature)
        }),
{
    let it = identity_json(party, keys, signature, pq_signature);
    reveal_strlit("party");
    reveal_strlit("identity_public");
    reveal_strlit("publication_public");
    reveal_strlit("exchange_suite");
    reveal_strlit("exchange_public");
    reveal_strlit("self_signature");
    reveal_strlit("pq_key");
    reveal_strlit("pq_self_signature");
    assert("party"@.len() == 5);
    assert("identity_public"@.len() == 15);
    assert("publication_public"@.len() == 18);
    assert("exchange_suite"@.len() == 14);
    assert("exchange_public"@.len() == 15);
    assert("self_signature"@.len() == 14);
    assert("pq_key"@.len() == 6);
    assert("pq_self_signature"@.len() == 17);
    assert("identity_public"@[0] != "exchange_public"@[0]);
    assert("exchange_suite"@[0] != "self_signature"@[0]);
    let fields = seq![
        ("party"@, Json::Integer(party as int)),
        ("identity_public"@, Json::Text(hex_text(keys.identity@))),
        ("publication_public"@, Json::Text(hex_text(keys.publication@))),
        ("exchange_suite"@, keys.suite@),
        ("exchange_public"@, Json::Text(hex_text(keys.exchange@))),
        ("self_signature"@, Json::Text(hex_text(signature))),
        ("pq_key"@, keys.pq_key@),
        ("pq_self_signature"@, Json::Text(base64_text(pq_signature))),
    ];
    assert(it == object_json(fields));
    lookup(fields, 0);
    lookup(fields, 1);
    lookup(fields, 2);
    lookup(fields, 3);
    lookup(fields, 4);
    lookup(fields, 5);
    lookup(fields, 6);
    lookup(fields, 7);
    hex_round_trip(keys.identity@);
    hex_round_trip(keys.publication@);
    hex_round_trip(keys.exchange@);
    hex_round_trip(signature);
    base64_round_trip(pq_signature);
}

/// Every member of the answer with a publication is read as it was written.
pub proof fn publication_answer_members(
    node_id: Seq<char>,
    public: Seq<u8>,
    signature: Seq<u8>,
    operation_id: Seq<u8>,
)
    ensures
        ({
            let it = publication_json(node_id, public, signature, operation_id);
            &&& says(it, "node_id"@, Json::Text(node_id))
            &&& says_hex(it, "publication_public"@, public)
            &&& says_hex(it, "signature"@, signature)
            &&& says_hex(it, "operation_id"@, operation_id)
        }),
{
    let it = publication_json(node_id, public, signature, operation_id);
    reveal_strlit("node_id");
    reveal_strlit("publication_public");
    reveal_strlit("signature");
    reveal_strlit("operation_id");
    assert("node_id"@.len() == 7);
    assert("publication_public"@.len() == 18);
    assert("signature"@.len() == 9);
    assert("operation_id"@.len() == 12);
    let fields = seq![
        ("node_id"@, Json::Text(node_id)),
        ("publication_public"@, Json::Text(hex_text(public))),
        ("signature"@, Json::Text(hex_text(signature))),
        ("operation_id"@, Json::Text(hex_text(operation_id))),
    ];
    assert(it == object_json(fields));
    lookup(fields, 0);
    lookup(fields, 1);
    lookup(fields, 2);
    lookup(fields, 3);
    hex_round_trip(public);
    hex_round_trip(signature);
    hex_round_trip(operation_id);
}

/// Every member of the answer with a signing commitment is read as it was written.
pub proof fn commitment_answer_members(party: nat, commitments: Seq<u8>)
    ensures
        ({
            let it = commitment_json(party, commitments);
            &&& says(it, "party"@, Json::Integer(party as int))
            &&& says_wire(it, "commitments"@, commitments)
        }),
{
    let it = commitment_json(party, commitments);
    reveal_strlit("party");
    reveal_strlit("commitments");
    assert("party"@.len() == 5);
    assert("commitments"@.len() == 11);
    let fields = seq![
        ("party"@, Json::Integer(party as int)),
        ("commitments"@, Json::Text(base64_text(commitments))),
    ];
    assert(it == object_json(fields));
    lookup(fields, 0);
    lookup(fields, 1);
    base64_round_trip(commitments);
}

/// Every member of the answer with a signature share is read as it was written.
pub proof fn share_answer_members(party: nat, share: Seq<u8>, approval: Json, committee: Seq<u8>)
    ensures
        ({
            let it = share_json(party, share, approval, committee);
            &&& says(it, "party"@, Json::Integer(party as int))
            &&& says_wire(it, "share"@, share)
            &&& says(it, "pq_approval"@, approval)
            &&& says_hex(it, "pq_committee"@, committee)
        }),
{
    let it = share_json(party, share, approval, committee);
    reveal_strlit("party");
    reveal_strlit("share");
    reveal_strlit("pq_approval");
    reveal_strlit("pq_committee");
    assert("party"@.len() == 5);
    assert("share"@.len() == 5);
    assert("pq_approval"@.len() == 11);
    assert("pq_committee"@.len() == 12);
    assert("party"@[0] != "share"@[0]);
    let fields = seq![
        ("party"@, Json::Integer(party as int)),
        ("share"@, Json::Text(base64_text(share))),
        ("pq_approval"@, approval),
        ("pq_committee"@, Json::Text(hex_text(committee))),
    ];
    assert(it == object_json(fields));
    lookup(fields, 0);
    lookup(fields, 1);
    lookup(fields, 2);
    lookup(fields, 3);
    base64_round_trip(share);
    hex_round_trip(committee);
}

/// Every member of the answer with a handle evaluation is read as it was written.
pub proof fn handle_answer_members(party: nat, point: Seq<u8>)
    ensures
        ({
            let it = handle_json(party, point);
            &&& says(it, "party"@, Json::Integer(party as int))
            &&& says_hex(it, "point"@, point)
        }),
{
    let it = handle_json(party, point);
    reveal_strlit("party");
    reveal_strlit("point");
    assert("party"@.len() == 5);
    assert("point"@.len() == 5);
    assert("party"@[1] != "point"@[1]);
    let fields = seq![
        ("party"@, Json::Integer(party as int)),
        ("point"@, Json::Text(hex_text(point))),
    ];
    assert(it == object_json(fields));
    lookup(fields, 0);
    lookup(fields, 1);
    hex_round_trip(point);
}

/// Every member of the answer with a first round is read as it was written.
pub proof fn first_round_answer_members(seal: Seq<u8>, round: Seq<u8>)
    ensures
        ({
            let it = first_round_json(seal, round);
            &&& says_wire(it, "seal"@, seal)
            &&& says_wire(it, "round"@, round)
        }),
{
    let it = first_round_json(seal, round);
    reveal_strlit("seal");
    reveal_strlit("round");
    assert("seal"@.len() == 4);
    assert("round"@.len() == 5);
    let fields = seq![
        ("seal"@, Json::Text(base64_text(seal))),
        ("round"@, Json::Text(base64_text(round))),
    ];
    assert(it == object_json(fields));
    lookup(fields, 0);
    lookup(fields, 1);
    base64_round_trip(seal);
    base64_round_trip(round);
}

/// Every member of the answer with a bound witness is read as it was written.
pub proof fn bound_answer_members(party: nat)
    ensures
        ({
            let it = bound_json(party);
            &&& says(it, "party"@, Json::Integer(party as int))
            &&& says(it, "bound"@, Json::Bool(true))
        }),
{
    let it = bound_json(party);
    reveal_strlit("party");
    reveal_strlit("bound");
    assert("party"@.len() == 5);
    assert("bound"@.len() == 5);
    assert("party"@[0] != "bound"@[0]);
    let fields = seq![
        ("party"@, Json::Integer(party as int)),
        ("bound"@, Json::Bool(true)),
    ];
    assert(it == object_json(fields));
    lookup(fields, 0);
    lookup(fields, 1);
}

/// Every member of the answer with a quote digest is read as it was written.
pub proof fn quote_digest_answer_members(party: nat, digest: Seq<u8>)
    ensures
        ({
            let it = quote_digest_json(party, digest);
            &&& says(it, "party"@, Json::Integer(party as int))
            &&& says_hex(it, "quote_digest"@, digest)
        }),
{
    let it = quote_digest_json(party, digest);
    reveal_strlit("party");
    reveal_strlit("quote_digest");
    assert("party"@.len() == 5);
    assert("quote_digest"@.len() == 12);
    let fields = seq![
        ("party"@, Json::Integer(party as int)),
        ("quote_digest"@, Json::Text(hex_text(digest))),
    ];
    assert(it == object_json(fields));
    lookup(fields, 0);
    lookup(fields, 1);
    hex_round_trip(digest);
}

/// Every member of the answer with a claimed opening is read as it was written.
pub proof fn opening_answer_members(
    party: nat,
    context: Seq<u8>,
    recipient: Seq<u8>,
    recipient_public: Json,
    encrypted: Json,
)
    ensures
        ({
            let it = opening_json(party, context, recipient, recipient_public, encrypted);
            &&& says(it, "party"@, Json::Integer(party as int))
            &&& says_hex(it, "context"@, context)
            &&& says_hex(it, "recipient_view"@, recipient)
            &&& says(it, "recipient_public"@, recipient_public)
            &&& says(it, "sealed"@, encrypted)
        }),
{
    let it = opening_json(party, context, recipient, recipient_public, encrypted);
    reveal_strlit("party");
    reveal_strlit("context");
    reveal_strlit("recipient_view");
    reveal_strlit("recipient_public");
    reveal_strlit("sealed");
    assert("party"@.len() == 5);
    assert("context"@.len() == 7);
    assert("recipient_view"@.len() == 14);
    assert("recipient_public"@.len() == 16);
    assert("sealed"@.len() == 6);
    let fields = seq![
        ("party"@, Json::Integer(party as int)),
        ("context"@, Json::Text(hex_text(context))),
        ("recipient_view"@, Json::Text(hex_text(recipient))),
        ("recipient_public"@, recipient_public),
        ("sealed"@, encrypted),
    ];
    assert(it == object_json(fields));
    lookup(fields, 0);
    lookup(fields, 1);
    lookup(fields, 2);
    lookup(fields, 3);
    lookup(fields, 4);
    hex_round_trip(context);
    hex_round_trip(recipient);
}

/// Every member of the answer with a completed job is read as it was written.
pub proof fn completed_answer_members()
    ensures
        ({
            let it = completed_json();
            &&& says(it, "completed"@, Json::Bool(true))
        }),
{
    let it = completed_json();
    reveal_strlit("completed");
    let fields = seq![
        ("completed"@, Json::Bool(true)),
    ];
    assert(it == object_json(fields));
    lookup(fields, 0);
}

/// Every member of the answer with an observed job is read as it was written.
pub proof fn observed_answer_members(already: bool)
    ensures
        ({
            let it = observed_json(already);
            &&& says(it, "observer_completed"@, Json::Bool(true))
            &&& says(it, "already_completed"@, Json::Bool(already))
        }),
{
    let it = observed_json(already);
    reveal_strlit("observer_completed");
    reveal_strlit("already_completed");
    assert("observer_completed"@.len() == 18);
    assert("already_completed"@.len() == 17);
    let fields = seq![
        ("observer_completed"@, Json::Bool(true)),
        ("already_completed"@, Json::Bool(already)),
    ];
    assert(it == object_json(fields));
    lookup(fields, 0);
    lookup(fields, 1);
}

/// Every member of the answer with a list of envelopes is read as it was written.
pub proof fn encrypted_answer_members(envelopes: Seq<Json>)
    ensures
        ({
            let it = encrypted_json(envelopes);
            &&& says(it, "encrypted"@, Json::Array(envelopes))
        }),
{
    let it = encrypted_json(envelopes);
    reveal_strlit("encrypted");
    let fields = seq![
        ("encrypted"@, Json::Array(envelopes)),
    ];
    assert(it == object_json(fields));
    lookup(fields, 0);
}

/// Every member of the answer with an admission is read as it was written.
pub proof fn admission_answer_members(value: Admission, identity: Seq<u8>)
    ensures
        ({
            let it = admission_json(value, identity);
            &&& says(it, "node"@, Json::Integer(value.node as int))
            &&& says(it, "slot"@, Json::Integer(value.slot as int))
            &&& says(it, "sequence"@, Json::Integer(value.sequence as int))
            &&& says_hex(it, "principal_digest"@, value.principal_digest)
            &&& says_hex(it, "ticket_id"@, value.ticket_id)
            &&& says_hex(it, "claim_digest"@, value.claim_digest)
            &&& says_hex(it, "batch_digest"@, value.batch_digest)
            &&& says_hex(it, "order_digest"@, value.order_digest)
            &&& says_hex(it, "identity_public"@, identity)
            &&& says_hex(it, "signature"@, value.signature)
        }),
{
    let it = admission_json(value, identity);
    reveal_strlit("node");
    reveal_strlit("slot");
    reveal_strlit("sequence");
    reveal_strlit("principal_digest");
    reveal_strlit("ticket_id");
    reveal_strlit("claim_digest");
    reveal_strlit("batch_digest");
    reveal_strlit("order_digest");
    reveal_strlit("identity_public");
    reveal_strlit("signature");
    assert("node"@.len() == 4);
    assert("slot"@.len() == 4);
    assert("sequence"@.len() == 8);
    assert("principal_digest"@.len() == 16);
    assert("ticket_id"@.len() == 9);
    assert("claim_digest"@.len() == 12);
    assert("batch_digest"@.len() == 12);
    assert("order_digest"@.len() == 12);
    assert("identity_public"@.len() == 15);
    assert("signature"@.len() == 9);
    assert("node"@[0] != "slot"@[0]);
    assert("ticket_id"@[0] != "signature"@[0]);
    assert("claim_digest"@[0] != "batch_digest"@[0]);
    assert("claim_digest"@[0] != "order_digest"@[0]);
    assert("batch_digest"@[0] != "order_digest"@[0]);
    let fields = seq![
        ("node"@, Json::Integer(value.node as int)),
        ("slot"@, Json::Integer(value.slot as int)),
        ("sequence"@, Json::Integer(value.sequence as int)),
        ("principal_digest"@, Json::Text(hex_text(value.principal_digest))),
        ("ticket_id"@, Json::Text(hex_text(value.ticket_id))),
        ("claim_digest"@, Json::Text(hex_text(value.claim_digest))),
        ("batch_digest"@, Json::Text(hex_text(value.batch_digest))),
        ("order_digest"@, Json::Text(hex_text(value.order_digest))),
        ("identity_public"@, Json::Text(hex_text(identity))),
        ("signature"@, Json::Text(hex_text(value.signature))),
    ];
    assert(it == object_json(fields));
    lookup(fields, 0);
    lookup(fields, 1);
    lookup(fields, 2);
    lookup(fields, 3);
    lookup(fields, 4);
    lookup(fields, 5);
    lookup(fields, 6);
    lookup(fields, 7);
    lookup(fields, 8);
    lookup(fields, 9);
    hex_round_trip(value.principal_digest);
    hex_round_trip(value.ticket_id);
    hex_round_trip(value.claim_digest);
    hex_round_trip(value.batch_digest);
    hex_round_trip(value.order_digest);
    hex_round_trip(identity);
    hex_round_trip(value.signature);
}

/// Every member of the answer with an execution is read as it was written.
pub proof fn execution_answer_members(identity: Seq<u8>, wire: Seq<u8>)
    ensures
        ({
            let it = execution_answer_json(identity, wire);
            &&& says_hex(it, "identity_public"@, identity)
            &&& says_wire(it, "wire"@, wire)
        }),
{
    let it = execution_answer_json(identity, wire);
    reveal_strlit("identity_public");
    reveal_strlit("wire");
    assert("identity_public"@.len() == 15);
    assert("wire"@.len() == 4);
    let fields = seq![
        ("identity_public"@, hex_json(identity)),
        ("wire"@, Json::Text(base64_text(wire))),
    ];
    assert(it == object_json(fields));
    lookup(fields, 0);
    lookup(fields, 1);
    hex_round_trip(identity);
    base64_round_trip(wire);
}

/// Every member of the answer of a node on its health is read as it was written.
pub proof fn health_answer_members<N, B, S>(state: ProofParty<N, B, S>)
    ensures
        ({
            let it = state.health_json();
            &&& says(it, "node"@, Json::Integer(state.config.node as int))
            &&& says_hex(it, "instance_id"@, state.instance())
            &&& says_hex(it, "security_configuration_digest"@, sha256(state.config.security_message()))
            &&& says(it, "protocol_version"@, Json::Integer(1))
            &&& says(it, "n_mm"@, Json::Integer(state.config.n_mm as int))
            &&& says(it, "n_parties"@, Json::Integer(state.config.n_parties as int))
            &&& says(it, "threshold"@, Json::Integer(state.config.threshold as int))
            &&& says(it, "amount_bits"@, Json::Integer(state.config.amount_bits as int))
            &&& says(it, "price_bits"@, Json::Integer(state.config.price_bits as int))
            &&& says(it, "remainder_bits"@, Json::Integer(state.config.remainder_bits as int))
            &&& says(it, "complete_quote_proof"@, Json::Bool(state.config.complete_quote_proof))
            &&& says(it, "quote_eligibility_bits"@, Json::Integer(state.config.quote_eligibility_bits as int))
            &&& says(it, "quote_span_bits"@, Json::Integer(state.config.quote_span_bits as int))
            &&& says(it, "active_jobs"@, Json::Integer(state.jobs.count() as int))
            &&& says(it, "reserved_jobs"@, Json::Integer(state.reserved.count() as int))
            &&& says(it, "completed_jobs"@, Json::Integer(state.completed.count() as int))
            &&& says(it, "frost_ready"@, Json::Bool(state.frost_key is Some))
            &&& says(it, "frost_session"@, option_hex(state.active_session()))
            &&& says(it, "frost_peer_manifest_persisted"@, Json::Bool(state.peers is Some))
            &&& says(it, "frost_dkg_round1_persisted"@, Json::Bool(state.dkg_round1 is Some))
            &&& says(it, "frost_dkg_round2_persisted"@, Json::Bool(state.dkg_round2 is Some))
            &&& says(it, "frost_public_package_sha256"@, state.package_digest_json())
            &&& says(it, "frost_reserved_jobs"@, Json::Integer(state.frost_reserved.count() as int))
            &&& says(it, "frost_consumed_jobs"@, Json::Integer(state.frost_consumed.count() as int))
            &&& says(it, "frost_authorized_jobs"@, Json::Integer(state.frost_authorized.count() as int))
            &&& says(it, "state_generation"@, Json::Integer(state.state_generation as int))
        }),
{
    let it = state.health_json();
    reveal_strlit("node");
    reveal_strlit("instance_id");
    reveal_strlit("security_configuration_digest");
    reveal_strlit("protocol_version");
    reveal_strlit("n_mm");
    reveal_strlit("n_parties");
    reveal_strlit("threshold");
    reveal_strlit("amount_bits");
    reveal_strlit("price_bits");
    reveal_strlit("remainder_bits");
    reveal_strlit("complete_quote_proof");
    reveal_strlit("quote_eligibility_bits");
    reveal_strlit("quote_span_bits");
    reveal_strlit("active_jobs");
    reveal_strlit("reserved_jobs");
    reveal_strlit("completed_jobs");
    reveal_strlit("frost_ready");
    reveal_strlit("frost_session");
    reveal_strlit("frost_peer_manifest_persisted");
    reveal_strlit("frost_dkg_round1_persisted");
    reveal_strlit("frost_dkg_round2_persisted");
    reveal_strlit("frost_public_package_sha256");
    reveal_strlit("frost_reserved_jobs");
    reveal_strlit("frost_consumed_jobs");
    reveal_strlit("frost_authorized_jobs");
    reveal_strlit("state_generation");
    assert("node"@.len() == 4);
    assert("instance_id"@.len() == 11);
    assert("security_configuration_digest"@.len() == 29);
    assert("protocol_version"@.len() == 16);
    assert("n_mm"@.len() == 4);
    assert("n_parties"@.len() == 9);
    assert("threshold"@.len() == 9);
    assert("amount_bits"@.len() == 11);
    assert("price_bits"@.len() == 10);
    assert("remainder_bits"@.len() == 14);
    assert("complete_quote_proof"@.len() == 20);
    assert("quote_eligibility_bits"@.len() == 22);
    assert("quote_span_bits"@.len() == 15);
    assert("active_jobs"@.len() == 11);
    assert("reserved_jobs"@.len() == 13);
    assert("completed_jobs"@.len() == 14);
    assert("frost_ready"@.len() == 11);
    assert("frost_session"@.len() == 13);
    assert("frost_peer_manifest_persisted"@.len() == 29);
    assert("frost_dkg_round1_persisted"@.len() == 26);
    assert("frost_dkg_round2_persisted"@.len() == 26);
    assert("frost_public_package_sha256"@.len() == 27);
    assert("frost_reserved_jobs"@.len() == 19);
    assert("frost_consumed_jobs"@.len() == 19);
    assert("frost_authorized_jobs"@.len() == 21);
    assert("state_generation"@.len() == 16);
    assert("node"@[1] != "n_mm"@[1]);
    assert("instance_id"@[0] != "amount_bits"@[0]);
    assert("instance_id"@[0] != "active_jobs"@[0]);
    assert("instance_id"@[0] != "frost_ready"@[0]);
    assert("security_configuration_digest"@[0] != "frost_peer_manifest_persisted"@[0]);
    assert("protocol_version"@[0] != "state_generation"@[0]);
    assert("n_parties"@[0] != "threshold"@[0]);
    assert("amount_bits"@[1] != "active_jobs"@[1]);
    assert("amount_bits"@[0] != "frost_ready"@[0]);
    assert("remainder_bits"@[0] != "completed_jobs"@[0]);
    assert("active_jobs"@[0] != "frost_ready"@[0]);
    assert("reserved_jobs"@[0] != "frost_session"@[0]);
    assert("frost_dkg_round1_persisted"@[15] != "frost_dkg_round2_persisted"@[15]);
    assert("frost_reserved_jobs"@[6] != "frost_consumed_jobs"@[6]);
    let fields = seq![
        ("node"@, Json::Integer(state.config.node as int)),
        ("instance_id"@, hex_json(state.instance())),
        ("security_configuration_digest"@, hex_json(sha256(state.config.security_message()))),
        ("protocol_version"@, Json::Integer(1)),
        ("n_mm"@, Json::Integer(state.config.n_mm as int)),
        ("n_parties"@, Json::Integer(state.config.n_parties as int)),
        ("threshold"@, Json::Integer(state.config.threshold as int)),
        ("amount_bits"@, Json::Integer(state.config.amount_bits as int)),
        ("price_bits"@, Json::Integer(state.config.price_bits as int)),
        ("remainder_bits"@, Json::Integer(state.config.remainder_bits as int)),
        ("complete_quote_proof"@, Json::Bool(state.config.complete_quote_proof)),
        ("quote_eligibility_bits"@, Json::Integer(state.config.quote_eligibility_bits as int)),
        ("quote_span_bits"@, Json::Integer(state.config.quote_span_bits as int)),
        ("active_jobs"@, Json::Integer(state.jobs.count() as int)),
        ("reserved_jobs"@, Json::Integer(state.reserved.count() as int)),
        ("completed_jobs"@, Json::Integer(state.completed.count() as int)),
        ("frost_ready"@, Json::Bool(state.frost_key is Some)),
        ("frost_session"@, option_hex(state.active_session())),
        ("frost_peer_manifest_persisted"@, Json::Bool(state.peers is Some)),
        ("frost_dkg_round1_persisted"@, Json::Bool(state.dkg_round1 is Some)),
        ("frost_dkg_round2_persisted"@, Json::Bool(state.dkg_round2 is Some)),
        ("frost_public_package_sha256"@, state.package_digest_json()),
        ("frost_reserved_jobs"@, Json::Integer(state.frost_reserved.count() as int)),
        ("frost_consumed_jobs"@, Json::Integer(state.frost_consumed.count() as int)),
        ("frost_authorized_jobs"@, Json::Integer(state.frost_authorized.count() as int)),
        ("state_generation"@, Json::Integer(state.state_generation as int)),
    ];
    assert(it == object_json(fields));
    lookup(fields, 0);
    lookup(fields, 1);
    lookup(fields, 2);
    lookup(fields, 3);
    lookup(fields, 4);
    lookup(fields, 5);
    lookup(fields, 6);
    lookup(fields, 7);
    lookup(fields, 8);
    lookup(fields, 9);
    lookup(fields, 10);
    lookup(fields, 11);
    lookup(fields, 12);
    lookup(fields, 13);
    lookup(fields, 14);
    lookup(fields, 15);
    lookup(fields, 16);
    lookup(fields, 17);
    lookup(fields, 18);
    lookup(fields, 19);
    lookup(fields, 20);
    lookup(fields, 21);
    lookup(fields, 22);
    lookup(fields, 23);
    lookup(fields, 24);
    lookup(fields, 25);
    hex_round_trip(state.instance());
    hex_round_trip(sha256(state.config.security_message()));
}

/// Every member of the answer of a node on its group key is read as it was written.
pub proof fn status_answer_members<N, B, S>(state: ProofParty<N, B, S>, committee: Json)
    ensures
        ({
            let it = state.status_json(committee);
            &&& says(it, "party"@, Json::Integer(state.config.node + 1))
            &&& says(it, "ready"@, Json::Bool(state.frost_key is Some))
            &&& says(it, "session"@, option_hex(state.active_session()))
            &&& says(it, "stage"@, Json::Text(state.stage().name()))
            &&& says(it, "public_package"@, state.package_json())
            &&& says(it, "pq_committee"@, committee)
            &&& says(it, "state_generation"@, Json::Integer(state.state_generation as int))
        }),
{
    let it = state.status_json(committee);
    reveal_strlit("party");
    reveal_strlit("ready");
    reveal_strlit("session");
    reveal_strlit("stage");
    reveal_strlit("public_package");
    reveal_strlit("pq_committee");
    reveal_strlit("state_generation");
    assert("party"@.len() == 5);
    assert("ready"@.len() == 5);
    assert("session"@.len() == 7);
    assert("stage"@.len() == 5);
    assert("public_package"@.len() == 14);
    assert("pq_committee"@.len() == 12);
    assert("state_generation"@.len() == 16);
    assert("party"@[0] != "ready"@[0]);
    assert("party"@[0] != "stage"@[0]);
    assert("ready"@[0] != "stage"@[0]);
    let fields = seq![
        ("party"@, Json::Integer(state.config.node + 1)),
        ("ready"@, Json::Bool(state.frost_key is Some)),
        ("session"@, option_hex(state.active_session())),
        ("stage"@, Json::Text(state.stage().name())),
        ("public_package"@, state.package_json()),
        ("pq_committee"@, committee),
        ("state_generation"@, Json::Integer(state.state_generation as int)),
    ];
    assert(it == object_json(fields));
    lookup(fields, 0);
    lookup(fields, 1);
    lookup(fields, 2);
    lookup(fields, 3);
    lookup(fields, 4);
    lookup(fields, 5);
    lookup(fields, 6);
}

} // verus!
