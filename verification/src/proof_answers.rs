//! What a proof party answers: the documents that its operations give.

use vstd::prelude::*;
use crate::coordinator::{
    completion_refusal, demand_refusal, signs_at, wire_of, wire_refusal, Demand, MAX_PUBLIC_WIRE_BYTES,
};
use crate::fields::hex_json;
use crate::json::{Json, Value};
use crate::order::{
    encode_node_execution_attestation, execution_wire, Admission, NodeAdmissionAttestation, NodeExecutionAttestation,
};
use crate::proof_dkg::FrostStage;
use crate::proof_state::ProofParty;
use crate::quote_messages::{array, entries_said, hex_value, object, object_json, object_map};
use crate::text::{base64_encode, base64_text, hex_encode, hex_text};

verus! {

/// A digest in hexadecimal, where there is one.
pub open spec fn option_hex(digest: Option<[u8; 32]>) -> Json {
    match digest {
        None => Json::Null,
        Some(bytes) => hex_json(bytes@),
    }
}

fn option_hex_value(digest: Option<[u8; 32]>) -> (value: Value)
    ensures
        value@ == option_hex(digest),
{
    match digest {
        None => Value::Null,
        Some(bytes) => hex_value(&bytes),
    }
}

/// The answer that carries a public wire.
pub fn wire_answer(raw: &Vec<u8>) -> (answer: Value)
    ensures
        answer@ == Json::Text(base64_text(raw@)),
        wire_of(Some(answer@)) == raw@,
        forall|name: Seq<char>| 0 < raw@.len() <= MAX_PUBLIC_WIRE_BYTES ==> #[trigger] wire_refusal(Some(answer@),
            name) is None,
{
    Value::Text(base64_encode(raw.as_slice()))
}

/// The answer to an authorization of a kind.
pub open spec fn authorized_json(kind: Seq<char>) -> Json {
    object_json(
        seq![
            ("authorized"@, Json::Bool(true)),
            ("kind"@, Json::Text(kind)),
        ],
    )
}

/// The answer to an authorization of a kind.
pub fn authorized_answer(kind: &str) -> (answer: Value)
    ensures
        answer@ == authorized_json(kind@),
{
    let entries: Vec<(String, Value)> = vec![
        ("authorized".to_owned(), Value::Bool(true)),
        ("kind".to_owned(), Value::Text(kind.to_owned())),
    ];
    assert(entries_said(entries@) =~= seq![
        ("authorized"@, Json::Bool(true)),
        ("kind"@, Json::Text(kind@)),
    ]);
    object(entries)
}

/// The answer to confirmed peers.
pub open spec fn confirmed_json() -> Json {
    object_json(
        seq![
            ("confirmed"@, Json::Bool(true)),
        ],
    )
}

/// The answer to confirmed peers.
pub fn confirmed_answer() -> (answer: Value)
    ensures
        answer@ == confirmed_json(),
{
    let entries: Vec<(String, Value)> = vec![
        ("confirmed".to_owned(), Value::Bool(true)),
    ];
    assert(entries_said(entries@) =~= seq![
        ("confirmed"@, Json::Bool(true)),
    ]);
    object(entries)
}

/// The answer to a loaded job.
pub open spec fn loaded_json(party: nat) -> Json {
    object_json(
        seq![
            ("party"@, Json::Integer(party as int)),
        ],
    )
}

/// The answer to a loaded job.
pub fn loaded_answer(party: u32) -> (answer: Value)
    ensures
        answer@ == loaded_json(party as nat),
{
    let entries: Vec<(String, Value)> = vec![
        ("party".to_owned(), Value::Integer(party as i128)),
    ];
    assert(entries_said(entries@) =~= seq![
        ("party"@, Json::Integer(party as nat as int)),
    ]);
    object(entries)
}

/// The answer that carries the first package of a party.
pub open spec fn package_json(party: nat, package: Seq<u8>) -> Json {
    object_json(
        seq![
            ("party"@, Json::Integer(party as int)),
            ("package"@, Json::Text(base64_text(package))),
        ],
    )
}

/// The answer that carries the first package of a party.
pub fn package_answer(party: u32, package: &Vec<u8>) -> (answer: Value)
    ensures
        answer@ == package_json(party as nat, package@),
{
    let entries: Vec<(String, Value)> = vec![
        ("party".to_owned(), Value::Integer(party as i128)),
        ("package".to_owned(), Value::Text(base64_encode(package.as_slice()))),
    ];
    assert(entries_said(entries@) =~= seq![
        ("party"@, Json::Integer(party as nat as int)),
        ("package"@, Json::Text(base64_text(package@))),
    ]);
    object(entries)
}

/// One encrypted package, from a party to another.
pub open spec fn envelope_json(sender: nat, recipient: nat, envelope: Seq<u8>) -> Json {
    object_json(
        seq![
            ("sender"@, Json::Integer(sender as int)),
            ("recipient"@, Json::Integer(recipient as int)),
            ("envelope"@, Json::Text(base64_text(envelope))),
        ],
    )
}

/// One encrypted package, from a party to another.
pub fn envelope_answer(sender: u16, recipient: u16, envelope: &Vec<u8>) -> (answer: Value)
    ensures
        answer@ == envelope_json(sender as nat, recipient as nat, envelope@),
{
    let entries: Vec<(String, Value)> = vec![
        ("sender".to_owned(), Value::Integer(sender as i128)),
        ("recipient".to_owned(), Value::Integer(recipient as i128)),
        ("envelope".to_owned(), Value::Text(base64_encode(envelope.as_slice()))),
    ];
    assert(entries_said(entries@) =~= seq![
        ("sender"@, Json::Integer(sender as nat as int)),
        ("recipient"@, Json::Integer(recipient as nat as int)),
        ("envelope"@, Json::Text(base64_text(envelope@))),
    ]);
    object(entries)
}

/// The answer that carries the public package of a group.
pub open spec fn public_package_json(package: Seq<u8>) -> Json {
    object_json(
        seq![
            ("public_package"@, Json::Text(base64_text(package))),
        ],
    )
}

/// The answer that carries the public package of a group.
pub fn public_package_answer(package: &Vec<u8>) -> (answer: Value)
    ensures
        answer@ == public_package_json(package@),
{
    let entries: Vec<(String, Value)> = vec![
        ("public_package".to_owned(), Value::Text(base64_encode(package.as_slice()))),
    ];
    assert(entries_said(entries@) =~= seq![
        ("public_package"@, Json::Text(base64_text(package@))),
    ]);
    object(entries)
}

/// The answer of a party that confirms a manifest.
pub open spec fn confirmation_json(party: nat, digest: Seq<u8>, signature: Seq<u8>, pq_signature: Seq<u8>) -> Json {
    object_json(
        seq![
            ("party"@, Json::Integer(party as int)),
            ("manifest_digest"@, Json::Text(hex_text(digest))),
            ("confirmation"@, Json::Text(hex_text(signature))),
            ("pq_confirmation"@, Json::Text(base64_text(pq_signature))),
        ],
    )
}

/// The answer of a party that confirms a manifest.
pub fn confirmation_answer(
    party: u32,
    digest: &[u8; 32],
    signature: &Vec<u8>,
    pq_signature: &Vec<u8>,
) -> (answer: Value)
    ensures
        answer@ == confirmation_json(party as nat, digest@, signature@, pq_signature@),
{
    let entries: Vec<(String, Value)> = vec![
        ("party".to_owned(), Value::Integer(party as i128)),
        ("manifest_digest".to_owned(), Value::Text(hex_encode(digest.as_slice()))),
        ("confirmation".to_owned(), Value::Text(hex_encode(signature.as_slice()))),
        ("pq_confirmation".to_owned(), Value::Text(base64_encode(pq_signature.as_slice()))),
    ];
    assert(entries_said(entries@) =~= seq![
        ("party"@, Json::Integer(party as nat as int)),
        ("manifest_digest"@, Json::Text(hex_text(digest@))),
        ("confirmation"@, Json::Text(hex_text(signature@))),
        ("pq_confirmation"@, Json::Text(base64_text(pq_signature@))),
    ]);
    object(entries)
}

/// The keys that a party enters a committee with.
#[derive(Debug)]
pub struct IdentityKeys {
    pub identity: [u8; 32],
    pub publication: Vec<u8>,
    /// The document that names the exchange's suite.
    pub suite: Value,
    pub exchange: Vec<u8>,
    /// The document of the post-quantum key.
    pub pq_key: Value,
}

/// The answer of a party that attests its keys.
pub open spec fn identity_json(party: nat, keys: IdentityKeys, signature: Seq<u8>, pq_signature: Seq<u8>) -> Json {
    object_json(
        seq![
            ("party"@, Json::Integer(party as int)),
            ("identity_public"@, Json::Text(hex_text(keys.identity@))),
            ("publication_public"@, Json::Text(hex_text(keys.publication@))),
            ("exchange_suite"@, keys.suite@),
            ("exchange_public"@, Json::Text(hex_text(keys.exchange@))),
            ("self_signature"@, Json::Text(hex_text(signature))),
            ("pq_key"@, keys.pq_key@),
            ("pq_self_signature"@, Json::Text(base64_text(pq_signature))),
        ],
    )
}

/// The answer of a party that attests its keys.
pub fn identity_answer(party: u32, keys: &IdentityKeys, signature: &Vec<u8>, pq_signature: &Vec<u8>) -> (answer: Value)
    ensures
        answer@ == identity_json(party as nat, *keys, signature@, pq_signature@),
{
    let entries: Vec<(String, Value)> = vec![
        ("party".to_owned(), Value::Integer(party as i128)),
        ("identity_public".to_owned(), Value::Text(hex_encode(keys.identity.as_slice()))),
        ("publication_public".to_owned(), Value::Text(hex_encode(keys.publication.as_slice()))),
        ("exchange_suite".to_owned(), keys.suite.copy()),
        ("exchange_public".to_owned(), Value::Text(hex_encode(keys.exchange.as_slice()))),
        ("self_signature".to_owned(), Value::Text(hex_encode(signature.as_slice()))),
        ("pq_key".to_owned(), keys.pq_key.copy()),
        ("pq_self_signature".to_owned(), Value::Text(base64_encode(pq_signature.as_slice()))),
    ];
    assert(entries_said(entries@) =~= seq![
        ("party"@, Json::Integer(party as nat as int)),
        ("identity_public"@, Json::Text(hex_text(keys.identity@))),
        ("publication_public"@, Json::Text(hex_text(keys.publication@))),
        ("exchange_suite"@, keys.suite@),
        ("exchange_public"@, Json::Text(hex_text(keys.exchange@))),
        ("self_signature"@, Json::Text(hex_text(signature@))),
        ("pq_key"@, keys.pq_key@),
        ("pq_self_signature"@, Json::Text(base64_text(pq_signature@))),
    ]);
    object(entries)
}

/// The answer that carries a signed publication.
pub open spec fn publication_json(
    node_id: Seq<char>,
    public: Seq<u8>,
    signature: Seq<u8>,
    operation_id: Seq<u8>,
) -> Json {
    object_json(
        seq![
            ("node_id"@, Json::Text(node_id)),
            ("publication_public"@, Json::Text(hex_text(public))),
            ("signature"@, Json::Text(hex_text(signature))),
            ("operation_id"@, Json::Text(hex_text(operation_id))),
        ],
    )
}

/// The answer that carries a signed publication.
pub fn publication_answer(
    node_id: &str,
    public: &Vec<u8>,
    signature: &Vec<u8>,
    operation_id: &[u8; 32],
) -> (answer: Value)
    ensures
        answer@ == publication_json(node_id@, public@, signature@, operation_id@),
{
    let entries: Vec<(String, Value)> = vec![
        ("node_id".to_owned(), Value::Text(node_id.to_owned())),
        ("publication_public".to_owned(), Value::Text(hex_encode(public.as_slice()))),
        ("signature".to_owned(), Value::Text(hex_encode(signature.as_slice()))),
        ("operation_id".to_owned(), Value::Text(hex_encode(operation_id.as_slice()))),
    ];
    assert(entries_said(entries@) =~= seq![
        ("node_id"@, Json::Text(node_id@)),
        ("publication_public"@, Json::Text(hex_text(public@))),
        ("signature"@, Json::Text(hex_text(signature@))),
        ("operation_id"@, Json::Text(hex_text(operation_id@))),
    ]);
    object(entries)
}

/// The answer that carries a nonce commitment.
pub open spec fn commitment_json(party: nat, commitments: Seq<u8>) -> Json {
    object_json(
        seq![
            ("party"@, Json::Integer(party as int)),
            ("commitments"@, Json::Text(base64_text(commitments))),
        ],
    )
}

/// The answer that carries a nonce commitment.
pub fn commitment_answer(party: u32, commitments: &Vec<u8>) -> (answer: Value)
    ensures
        answer@ == commitment_json(party as nat, commitments@),
{
    let entries: Vec<(String, Value)> = vec![
        ("party".to_owned(), Value::Integer(party as i128)),
        ("commitments".to_owned(), Value::Text(base64_encode(commitments.as_slice()))),
    ];
    assert(entries_said(entries@) =~= seq![
        ("party"@, Json::Integer(party as nat as int)),
        ("commitments"@, Json::Text(base64_text(commitments@))),
    ]);
    object(entries)
}

/// The answer that carries a signature share and its post-quantum approval.
pub open spec fn share_json(party: nat, share: Seq<u8>, approval: Json, committee: Seq<u8>) -> Json {
    object_json(
        seq![
            ("party"@, Json::Integer(party as int)),
            ("share"@, Json::Text(base64_text(share))),
            ("pq_approval"@, approval),
            ("pq_committee"@, Json::Text(hex_text(committee))),
        ],
    )
}

/// The answer that carries a signature share and its post-quantum approval.
pub fn share_answer(party: u32, share: &Vec<u8>, approval: &Value, committee: &[u8; 32]) -> (answer: Value)
    ensures
        answer@ == share_json(party as nat, share@, approval@, committee@),
{
    let entries: Vec<(String, Value)> = vec![
        ("party".to_owned(), Value::Integer(party as i128)),
        ("share".to_owned(), Value::Text(base64_encode(share.as_slice()))),
        ("pq_approval".to_owned(), approval.copy()),
        ("pq_committee".to_owned(), Value::Text(hex_encode(committee.as_slice()))),
    ];
    assert(entries_said(entries@) =~= seq![
        ("party"@, Json::Integer(party as nat as int)),
        ("share"@, Json::Text(base64_text(share@))),
        ("pq_approval"@, approval@),
        ("pq_committee"@, Json::Text(hex_text(committee@))),
    ]);
    object(entries)
}

/// The answer that carries the evaluation of a handle.
pub open spec fn handle_json(party: nat, point: Seq<u8>) -> Json {
    object_json(
        seq![
            ("party"@, Json::Integer(party as int)),
            ("point"@, Json::Text(hex_text(point))),
        ],
    )
}

/// The answer that carries the evaluation of a handle.
pub fn handle_answer(party: u32, point: &[u8; 32]) -> (answer: Value)
    ensures
        answer@ == handle_json(party as nat, point@),
{
    let entries: Vec<(String, Value)> = vec![
        ("party".to_owned(), Value::Integer(party as i128)),
        ("point".to_owned(), Value::Text(hex_encode(point.as_slice()))),
    ];
    assert(entries_said(entries@) =~= seq![
        ("party"@, Json::Integer(party as nat as int)),
        ("point"@, Json::Text(hex_text(point@))),
    ]);
    object(entries)
}

/// The answer that carries a sealed first round.
pub open spec fn first_round_json(seal: Seq<u8>, round: Seq<u8>) -> Json {
    object_json(
        seq![
            ("seal"@, Json::Text(base64_text(seal))),
            ("round"@, Json::Text(base64_text(round))),
        ],
    )
}

/// The answer that carries a sealed first round.
pub fn first_round_answer(seal: &Vec<u8>, round: &Vec<u8>) -> (answer: Value)
    ensures
        answer@ == first_round_json(seal@, round@),
        wire_of(answer@.field("seal"@)) == seal@,
        wire_of(answer@.field("round"@)) == round@,
{
    let seal_text = base64_encode(seal.as_slice());
    let round_text = base64_encode(round.as_slice());
    let entries: Vec<(String, Value)> = vec![
        ("seal".to_owned(), Value::Text(seal_text)),
        ("round".to_owned(), Value::Text(round_text)),
    ];
    proof {
        assert(entries_said(entries@) =~= seq![
            ("seal"@, Json::Text(base64_text(seal@))),
            ("round"@, Json::Text(base64_text(round@))),
        ]);
        reveal_with_fuel(object_map, 4);
        reveal_strlit("seal");
        reveal_strlit("round");
        assert("seal"@.len() != "round"@.len());
    }
    object(entries)
}

/// The answer of a party that bound its relations.
pub open spec fn bound_json(party: nat) -> Json {
    object_json(
        seq![
            ("party"@, Json::Integer(party as int)),
            ("bound"@, Json::Bool(true)),
        ],
    )
}

/// The answer of a party that bound its relations.
pub fn bound_answer(party: u32) -> (answer: Value)
    ensures
        answer@ == bound_json(party as nat),
{
    let entries: Vec<(String, Value)> = vec![
        ("party".to_owned(), Value::Integer(party as i128)),
        ("bound".to_owned(), Value::Bool(true)),
    ];
    assert(entries_said(entries@) =~= seq![
        ("party"@, Json::Integer(party as nat as int)),
        ("bound"@, Json::Bool(true)),
    ]);
    object(entries)
}

/// The answer of a party that took the proof of a quote.
pub open spec fn quote_digest_json(party: nat, digest: Seq<u8>) -> Json {
    object_json(
        seq![
            ("party"@, Json::Integer(party as int)),
            ("quote_digest"@, Json::Text(hex_text(digest))),
        ],
    )
}

/// The answer of a party that took the proof of a quote.
pub fn quote_digest_answer(party: u32, digest: &[u8; 32]) -> (answer: Value)
    ensures
        answer@ == quote_digest_json(party as nat, digest@),
{
    let entries: Vec<(String, Value)> = vec![
        ("party".to_owned(), Value::Integer(party as i128)),
        ("quote_digest".to_owned(), Value::Text(hex_encode(digest.as_slice()))),
    ];
    assert(entries_said(entries@) =~= seq![
        ("party"@, Json::Integer(party as nat as int)),
        ("quote_digest"@, Json::Text(hex_text(digest@))),
    ]);
    object(entries)
}

/// The answer that carries a share of an opening.
pub open spec fn opening_json(
    party: nat,
    context: Seq<u8>,
    recipient: Seq<u8>,
    recipient_public: Json,
    encrypted: Json,
) -> Json {
    object_json(
        seq![
            ("party"@, Json::Integer(party as int)),
            ("context"@, Json::Text(hex_text(context))),
            ("recipient_view"@, Json::Text(hex_text(recipient))),
            ("recipient_public"@, recipient_public),
            ("sealed"@, encrypted),
        ],
    )
}

/// The answer that carries a share of an opening.
pub fn opening_answer(
    party: u32,
    context: &[u8; 32],
    recipient: &[u8; 32],
    recipient_public: &Value,
    encrypted: &Value,
) -> (answer: Value)
    ensures
        answer@ == opening_json(party as nat, context@, recipient@, recipient_public@, encrypted@),
{
    let entries: Vec<(String, Value)> = vec![
        ("party".to_owned(), Value::Integer(party as i128)),
        ("context".to_owned(), Value::Text(hex_encode(context.as_slice()))),
        ("recipient_view".to_owned(), Value::Text(hex_encode(recipient.as_slice()))),
        ("recipient_public".to_owned(), recipient_public.copy()),
        ("sealed".to_owned(), encrypted.copy()),
    ];
    assert(entries_said(entries@) =~= seq![
        ("party"@, Json::Integer(party as nat as int)),
        ("context"@, Json::Text(hex_text(context@))),
        ("recipient_view"@, Json::Text(hex_text(recipient@))),
        ("recipient_public"@, recipient_public@),
        ("sealed"@, encrypted@),
    ]);
    object(entries)
}

/// The answer of a signing party that completed a job.
pub open spec fn completed_json() -> Json {
    object_json(
        seq![
            ("completed"@, Json::Bool(true)),
        ],
    )
}

/// The answer of a signing party that completed a job.
pub fn completed_answer() -> (answer: Value)
    ensures
        answer@ == completed_json(),
{
    let entries: Vec<(String, Value)> = vec![
        ("completed".to_owned(), Value::Bool(true)),
    ];
    assert(entries_said(entries@) =~= seq![
        ("completed"@, Json::Bool(true)),
    ]);
    object(entries)
}

/// The answer of an observer that closed a job.
pub open spec fn observed_json(already: bool) -> Json {
    object_json(
        seq![
            ("observer_completed"@, Json::Bool(true)),
            ("already_completed"@, Json::Bool(already)),
        ],
    )
}

/// The answer of an observer that closed a job.
pub fn observed_answer(already: bool) -> (answer: Value)
    ensures
        answer@ == observed_json(already),
{
    let entries: Vec<(String, Value)> = vec![
        ("observer_completed".to_owned(), Value::Bool(true)),
        ("already_completed".to_owned(), Value::Bool(already)),
    ];
    assert(entries_said(entries@) =~= seq![
        ("observer_completed"@, Json::Bool(true)),
        ("already_completed"@, Json::Bool(already)),
    ]);
    object(entries)
}

/// The answer that carries encrypted packages.
pub open spec fn encrypted_json(envelopes: Seq<Json>) -> Json {
    object_json(seq![("encrypted"@, Json::Array(envelopes))])
}

/// The answer that carries encrypted packages.
pub fn encrypted_answer(envelopes: Vec<Value>) -> (answer: Value)
    ensures
        answer@ == encrypted_json(envelopes@.map_values(|v: Value| v@)),
{
    let ghost given = envelopes@.map_values(|v: Value| v@);
    let entries: Vec<(String, Value)> = vec![("encrypted".to_owned(), array(envelopes))];
    assert(entries_said(entries@) =~= seq![("encrypted"@, Json::Array(given))]);
    object(entries)
}

/// The answer that carries the attestation of an admission.
pub open spec fn admission_json(value: Admission, identity: Seq<u8>) -> Json {
    object_json(
        seq![
            ("node"@, Json::Integer(value.node as int)),
            ("slot"@, Json::Integer(value.slot as int)),
            ("sequence"@, Json::Integer(value.sequence as int)),
            ("principal_digest"@, Json::Text(hex_text(value.principal_digest))),
            ("ticket_id"@, Json::Text(hex_text(value.ticket_id))),
            ("claim_digest"@, Json::Text(hex_text(value.claim_digest))),
            ("batch_digest"@, Json::Text(hex_text(value.batch_digest))),
            ("order_digest"@, Json::Text(hex_text(value.order_digest))),
            ("identity_public"@, Json::Text(hex_text(identity))),
            ("signature"@, Json::Text(hex_text(value.signature))),
        ],
    )
}

/// The answer that carries the attestation of an admission.
pub fn admission_answer(value: &NodeAdmissionAttestation, identity: &[u8; 32]) -> (answer: Value)
    ensures
        answer@ == admission_json(value@, identity@),
{
    let entries: Vec<(String, Value)> = vec![
        ("node".to_owned(), Value::Integer(value.node as i128)),
        ("slot".to_owned(), Value::Integer(value.slot as i128)),
        ("sequence".to_owned(), Value::Integer(value.sequence as i128)),
        ("principal_digest".to_owned(), hex_value(&value.principal_digest)),
        ("ticket_id".to_owned(), hex_value(&value.ticket_id)),
        ("claim_digest".to_owned(), hex_value(&value.claim_digest)),
        ("batch_digest".to_owned(), hex_value(&value.batch_digest)),
        ("order_digest".to_owned(), hex_value(&value.order_digest)),
        ("identity_public".to_owned(), hex_value(identity)),
        ("signature".to_owned(), Value::Text(hex_encode(value.signature.bytes.as_slice()))),
    ];
    assert(entries_said(entries@) =~= seq![
        ("node"@, Json::Integer(value@.node as int)),
        ("slot"@, Json::Integer(value@.slot as int)),
        ("sequence"@, Json::Integer(value@.sequence as int)),
        ("principal_digest"@, Json::Text(hex_text(value@.principal_digest))),
        ("ticket_id"@, Json::Text(hex_text(value@.ticket_id))),
        ("claim_digest"@, Json::Text(hex_text(value@.claim_digest))),
        ("batch_digest"@, Json::Text(hex_text(value@.batch_digest))),
        ("order_digest"@, Json::Text(hex_text(value@.order_digest))),
        ("identity_public"@, Json::Text(hex_text(identity@))),
        ("signature"@, Json::Text(hex_text(value@.signature))),
    ]);
    object(entries)
}

/// The answer that carries the attestation of an execution.
pub open spec fn execution_answer_json(identity: Seq<u8>, wire: Seq<u8>) -> Json {
    object_json(seq![("identity_public"@, hex_json(identity)), ("wire"@, Json::Text(base64_text(wire)))])
}

/// The answer that carries the attestation of an execution.
pub fn execution_answer(identity: &[u8; 32], value: &NodeExecutionAttestation) -> (r: Result<Value, String>)
    ensures
        match r {
            Ok(answer) => value@.complete() && answer@ == execution_answer_json(identity@,
                execution_wire(seq![value@])),
            Err(e) => !value@.complete() && e@ == value@.refusal(),
        },
{
    let wire = match encode_node_execution_attestation(value) {
        Err(e) => {
            return Err(e);
        },
        Ok(wire) => wire,
    };
    let entries: Vec<(String, Value)> = vec![
        ("identity_public".to_owned(), hex_value(identity)),
        ("wire".to_owned(), Value::Text(base64_encode(wire.as_slice()))),
    ];
    assert(entries_said(entries@) =~= seq![
        ("identity_public"@, hex_json(identity@)),
        ("wire"@, Json::Text(base64_text(wire@))),
    ]);
    Ok(object(entries))
}

impl FrostStage {
    /// The name of a stage.
    pub open spec fn name(self) -> Seq<char> {
        match self {
            FrostStage::Ready => "ready"@,
            FrostStage::Round2 => "round2"@,
            FrostStage::Round1 => "round1"@,
            FrostStage::PeersConfirmed => "peers-confirmed"@,
            FrostStage::PeersProposed => "peers-proposed"@,
            FrostStage::Fresh => "fresh"@,
        }
    }

    /// The name of a stage.
    pub fn as_str(&self) -> (text: &'static str)
        ensures
            text@ == self.name(),
    {
        match self {
            FrostStage::Ready => "ready",
            FrostStage::Round2 => "round2",
            FrostStage::Round1 => "round1",
            FrostStage::PeersConfirmed => "peers-confirmed",
            FrostStage::PeersProposed => "peers-proposed",
            FrostStage::Fresh => "fresh",
        }
    }
}

impl<N, B, S> ProofParty<N, B, S> {
    /// The digest of the public package, where there is one.
    pub open spec fn package_digest_json(self) -> Json {
        match self.frost_key {
            None => Json::Null,
            Some(key) => hex_json(crate::digest::sha256(key.public_package@)),
        }
    }

    /// What a node tells of itself.
    pub open spec fn health_json(self) -> Json {
        object_json(
            seq![
                ("node"@, Json::Integer(self.config.node as int)),
                ("instance_id"@, hex_json(self.instance())),
                ("security_configuration_digest"@, hex_json(crate::digest::sha256(self.config.security_message()))),
                ("protocol_version"@, Json::Integer(1)),
                ("n_mm"@, Json::Integer(self.config.n_mm as int)),
                ("n_parties"@, Json::Integer(self.config.n_parties as int)),
                ("threshold"@, Json::Integer(self.config.threshold as int)),
                ("amount_bits"@, Json::Integer(self.config.amount_bits as int)),
                ("price_bits"@, Json::Integer(self.config.price_bits as int)),
                ("remainder_bits"@, Json::Integer(self.config.remainder_bits as int)),
                ("complete_quote_proof"@, Json::Bool(self.config.complete_quote_proof)),
                ("quote_eligibility_bits"@, Json::Integer(self.config.quote_eligibility_bits as int)),
                ("quote_span_bits"@, Json::Integer(self.config.quote_span_bits as int)),
                ("active_jobs"@, Json::Integer(self.jobs.count() as int)),
                ("reserved_jobs"@, Json::Integer(self.reserved.count() as int)),
                ("completed_jobs"@, Json::Integer(self.completed.count() as int)),
                ("frost_ready"@, Json::Bool(self.frost_key is Some)),
                ("frost_session"@, option_hex(self.active_session())),
                ("frost_peer_manifest_persisted"@, Json::Bool(self.peers is Some)),
                ("frost_dkg_round1_persisted"@, Json::Bool(self.dkg_round1 is Some)),
                ("frost_dkg_round2_persisted"@, Json::Bool(self.dkg_round2 is Some)),
                ("frost_public_package_sha256"@, self.package_digest_json()),
                ("frost_reserved_jobs"@, Json::Integer(self.frost_reserved.count() as int)),
                ("frost_consumed_jobs"@, Json::Integer(self.frost_consumed.count() as int)),
                ("frost_authorized_jobs"@, Json::Integer(self.frost_authorized.count() as int)),
                ("state_generation"@, Json::Integer(self.state_generation as int)),
            ],
        )
    }

    /// What a node tells of itself.
    pub fn health_answer(&self) -> (answer: Value)
        ensures
            answer@ == self.health_json(),
    {
        let package = match &self.frost_key {
            None => Value::Null,
            Some(key) => hex_value(&crate::digest::hash(key.public_package.as_slice())),
        };
        let entries: Vec<(String, Value)> = vec![
            ("node".to_owned(), Value::Integer(self.config.node as i128)),
            ("instance_id".to_owned(), hex_value(&self.instance_id())),
            ("security_configuration_digest".to_owned(), hex_value(&self.config.security_digest())),
            ("protocol_version".to_owned(), Value::Integer(1)),
            ("n_mm".to_owned(), Value::Integer(self.config.n_mm as i128)),
            ("n_parties".to_owned(), Value::Integer(self.config.n_parties as i128)),
            ("threshold".to_owned(), Value::Integer(self.config.threshold as i128)),
            ("amount_bits".to_owned(), Value::Integer(self.config.amount_bits as i128)),
            ("price_bits".to_owned(), Value::Integer(self.config.price_bits as i128)),
            ("remainder_bits".to_owned(), Value::Integer(self.config.remainder_bits as i128)),
            ("complete_quote_proof".to_owned(), Value::Bool(self.config.complete_quote_proof)),
            ("quote_eligibility_bits".to_owned(), Value::Integer(self.config.quote_eligibility_bits as i128)),
            ("quote_span_bits".to_owned(), Value::Integer(self.config.quote_span_bits as i128)),
            ("active_jobs".to_owned(), Value::Integer(self.jobs.len() as i128)),
            ("reserved_jobs".to_owned(), Value::Integer(self.reserved.len() as i128)),
            ("completed_jobs".to_owned(), Value::Integer(self.completed.len() as i128)),
            ("frost_ready".to_owned(), Value::Bool(self.frost_key.is_some())),
            ("frost_session".to_owned(), option_hex_value(self.active_frost_session())),
            ("frost_peer_manifest_persisted".to_owned(), Value::Bool(self.peers.is_some())),
            ("frost_dkg_round1_persisted".to_owned(), Value::Bool(self.dkg_round1.is_some())),
            ("frost_dkg_round2_persisted".to_owned(), Value::Bool(self.dkg_round2.is_some())),
            ("frost_public_package_sha256".to_owned(), package),
            ("frost_reserved_jobs".to_owned(), Value::Integer(self.frost_reserved.len() as i128)),
            ("frost_consumed_jobs".to_owned(), Value::Integer(self.frost_consumed.len() as i128)),
            ("frost_authorized_jobs".to_owned(), Value::Integer(self.frost_authorized.len() as i128)),
            ("state_generation".to_owned(), Value::Integer(self.state_generation as i128)),
        ];
        assert(entries_said(entries@) =~= seq![
            ("node"@, Json::Integer(self.config.node as int)),
            ("instance_id"@, hex_json(self.instance())),
            ("security_configuration_digest"@, hex_json(crate::digest::sha256(self.config.security_message()))),
            ("protocol_version"@, Json::Integer(1)),
            ("n_mm"@, Json::Integer(self.config.n_mm as int)),
            ("n_parties"@, Json::Integer(self.config.n_parties as int)),
            ("threshold"@, Json::Integer(self.config.threshold as int)),
            ("amount_bits"@, Json::Integer(self.config.amount_bits as int)),
            ("price_bits"@, Json::Integer(self.config.price_bits as int)),
            ("remainder_bits"@, Json::Integer(self.config.remainder_bits as int)),
            ("complete_quote_proof"@, Json::Bool(self.config.complete_quote_proof)),
            ("quote_eligibility_bits"@, Json::Integer(self.config.quote_eligibility_bits as int)),
            ("quote_span_bits"@, Json::Integer(self.config.quote_span_bits as int)),
            ("active_jobs"@, Json::Integer(self.jobs.count() as int)),
            ("reserved_jobs"@, Json::Integer(self.reserved.count() as int)),
            ("completed_jobs"@, Json::Integer(self.completed.count() as int)),
            ("frost_ready"@, Json::Bool(self.frost_key is Some)),
            ("frost_session"@, option_hex(self.active_session())),
            ("frost_peer_manifest_persisted"@, Json::Bool(self.peers is Some)),
            ("frost_dkg_round1_persisted"@, Json::Bool(self.dkg_round1 is Some)),
            ("frost_dkg_round2_persisted"@, Json::Bool(self.dkg_round2 is Some)),
            ("frost_public_package_sha256"@, self.package_digest_json()),
            ("frost_reserved_jobs"@, Json::Integer(self.frost_reserved.count() as int)),
            ("frost_consumed_jobs"@, Json::Integer(self.frost_consumed.count() as int)),
            ("frost_authorized_jobs"@, Json::Integer(self.frost_authorized.count() as int)),
            ("state_generation"@, Json::Integer(self.state_generation as int)),
        ]);
        object(entries)
    }

    /// How far the group key of a node has come, as it is told.
    pub open spec fn status_json(self, committee: Json) -> Json {
        object_json(
            seq![
                ("party"@, Json::Integer(self.config.node + 1)),
                ("ready"@, Json::Bool(self.frost_key is Some)),
                ("session"@, option_hex(self.active_session())),
                ("stage"@, Json::Text(self.stage().name())),
                ("public_package"@, self.package_json()),
                ("pq_committee"@, committee),
                ("state_generation"@, Json::Integer(self.state_generation as int)),
            ],
        )
    }

    /// The public package, where there is one.
    pub open spec fn package_json(self) -> Json {
        match self.frost_key {
            None => Json::Null,
            Some(key) => Json::Text(base64_text(key.public_package@)),
        }
    }

    /// How far the group key of a node has come, as it is told. `committee` is the
    /// document of the post-quantum committee, or null.
    pub fn status_answer(&self, committee: &Value) -> (answer: Value)
        ensures
            answer@ == self.status_json(committee@),
    {
        let package = match &self.frost_key {
            None => Value::Null,
            Some(key) => Value::Text(base64_encode(key.public_package.as_slice())),
        };
        let entries: Vec<(String, Value)> = vec![
            ("party".to_owned(), Value::Integer(self.config.node as i128 + 1)),
            ("ready".to_owned(), Value::Bool(self.frost_key.is_some())),
            ("session".to_owned(), option_hex_value(self.active_frost_session())),
            ("stage".to_owned(), Value::Text(self.frost_status().as_str().to_owned())),
            ("public_package".to_owned(), package),
            ("pq_committee".to_owned(), committee.copy()),
            ("state_generation".to_owned(), Value::Integer(self.state_generation as i128)),
        ];
        assert(entries_said(entries@) =~= seq![
            ("party"@, Json::Integer(self.config.node + 1)),
            ("ready"@, Json::Bool(self.frost_key is Some)),
            ("session"@, option_hex(self.active_session())),
            ("stage"@, Json::Text(self.stage().name())),
            ("public_package"@, self.package_json()),
            ("pq_committee"@, committee@),
            ("state_generation"@, Json::Integer(self.state_generation as int)),
        ]);
        object(entries)
    }
}

/// A coordinator accepts what a party answers: a completed job of a signing party
/// and of an observer, whether it was closed before or not.
pub proof fn completion_is_accepted(at: int, already: bool)
    ensures
        signs_at(at) ==> completion_refusal(at, Ok(completed_json())) is None,
        !signs_at(at) ==> completion_refusal(at, Ok(observed_json(already))) is None,
{
    reveal_with_fuel(object_map, 4);
    reveal_strlit("observer_completed");
    reveal_strlit("already_completed");
    assert("observer_completed"@.len() != "already_completed"@.len());
}

/// A coordinator accepts what a party answers: an authorization of any kind, a
/// bound relation, and the digest of the proof that it took.
pub proof fn demands_are_met(kind: Seq<char>, party: nat, digest: Seq<u8>, expected: &str, complaint: Seq<char>)
    requires
        expected@ == hex_text(digest),
    ensures
        demand_refusal(Ok(authorized_json(kind)), Demand::True("authorized"), complaint) is None,
        demand_refusal(Ok(bound_json(party)), Demand::True("bound"), complaint) is None,
        demand_refusal(Ok(quote_digest_json(party, digest)), Demand::Text("quote_digest", expected), complaint) is None,
{
    reveal_with_fuel(object_map, 4);
    reveal_strlit("authorized");
    reveal_strlit("kind");
    reveal_strlit("party");
    reveal_strlit("bound");
    reveal_strlit("quote_digest");
    assert("authorized"@.len() == 10 && "kind"@.len() == 4);
    assert("party"@[0] == 'p' && "bound"@[0] == 'b');
    assert("quote_digest"@.len() == 12 && "party"@.len() == 5);
}

} // verus!
