//! Public inputs and requests of a complete-quote proof.

use vstd::prelude::*;
use crate::bytes::{is_zero32, same32, zero32};
use crate::coordinator::{wire_array, wires_json};
use crate::decimal::{negate, scalar_value};
use crate::fields::hex_json;
use crate::group::{group_order, is_scalar, Point, Scalar};
use crate::json::{Json, Value};
use crate::quote_codec::{QuotePublic, RegisteredPolicy};
use crate::quote_laws::{envelope_fields, message_canonical, quote_round_accepted};
use crate::quote_messages::{
    array, encode, entries_said, envelope_json, hex_value, object, object_json, unfit, Envelope, Message,
};
use crate::quote_wire::{decode, decode_refusal, envelope_said};
use crate::sharing::small_scalar;
use crate::text::{base64_encode, base64_text};

verus! {

/// The most registered policies.
pub const MAX_POLICIES: usize = 4096;

/// The opening of a registered policy: ask level, spread, slope, inventory
/// coefficient, inventory, maximum quantity, expiry, active flag and
/// reference-price flag.
#[derive(Clone, Copy, Debug)]
pub struct RegisteredPolicyOpening {
    pub maker_asset: u32,
    pub values: [i64; 9],
    pub blindings: [u64; 9],
}

/// The inputs that a complete quote is proved for.
#[derive(Debug)]
pub struct CompleteQuotePublicInput {
    pub job_id: [u8; 32],
    pub request_context: [u8; 32],
    pub quantity: i64,
    pub quantity_blinding: u64,
    pub now: i64,
    pub sentinel: i64,
    pub direction: u8,
    pub asset: u32,
    pub reference_price: i64,
    pub policies: Vec<RegisteredPolicyOpening>,
    pub market_digest: [u8; 32],
    pub slot: u64,
    pub winner_index: usize,
    pub winner_value: u64,
    pub eligibility_bits: usize,
    pub span_bits: usize,
}

/// The public inputs for the proof that the selected quote is complete and
/// minimal among all eligible registered policies.
#[derive(Debug)]
pub struct CompleteQuoteRequest {
    pub job_id: [u8; 32],
    pub request_context: [u8; 32],
    pub public: QuotePublic,
    pub winner_index: usize,
    pub winner_value: u64,
    /// Two bits are reserved for the gates; the others constrain the signed cost.
    pub eligibility_bits: usize,
    pub span_bits: usize,
}

impl CompleteQuoteRequest {
    /// Whether the request is within its bounds.
    pub open spec fn bounded(self) -> bool {
        &&& self.job_id@ != zero32()
        &&& self.request_context@ != zero32()
        &&& 0 < self.public.registry@.len() <= MAX_POLICIES
        &&& self.public.n_slots == self.public.registry@.len()
        &&& self.winner_index < self.public.registry@.len()
        &&& 3 <= self.eligibility_bits <= 64
        &&& 1 <= self.span_bits <= 64
    }

    /// Refuses a request outside its bounds.
    pub fn validate(&self) -> (r: Result<(), String>)
        ensures
            match r {
                Ok(_) => self.bounded(),
                Err(e) => !self.bounded() && e@ == "complete quote request is outside its fixed bounds"@,
            },
    {
        if is_zero32(&self.job_id) || is_zero32(&self.request_context) || self.public.registry.len() == 0
            || self.public.registry.len() > MAX_POLICIES || self.public.n_slots < 0 || self.public.n_slots as u64
            != self.public.registry.len() as u64 || self.winner_index >= self.public.registry.len()
            || self.eligibility_bits < 3 || self.eligibility_bits > 64 || self.span_bits < 1 || self.span_bits > 64 {
            return Err("complete quote request is outside its fixed bounds".to_owned());
        }
        Ok(())
    }
}

/// The residue that stands for a signed number.
pub open spec fn signed_residue(value: int) -> nat {
    if value < 0 {
        (group_order() + value) as nat
    } else {
        value as nat
    }
}

/// The scalar that stands for a signed number.
pub fn signed_scalar(value: i64) -> (scalar: Scalar)
    ensures
        is_scalar(scalar@),
        scalar_value(scalar@) == signed_residue(value as int),
{
    proof {
        vstd::arithmetic::power2::lemma_pow2_pos(252);
        assert(group_order() > 0x1_0000_0000_0000_0000);
    }
    if value < 0 {
        let magnitude: u64 = (-(value as i128)) as u64;
        let positive = small_scalar(magnitude);
        let scalar = negate(&positive);
        proof {
            let l = group_order() as int;
            assert(0 < l - magnitude < l);
            vstd::arithmetic::div_mod::lemma_small_mod((l - magnitude) as nat, l as nat);
        }
        scalar
    } else {
        small_scalar(value as u64)
    }
}

/// Whether `commit` may give a point for a number and a blinding.
pub open spec fn commits<C: Fn(&Scalar, &Scalar) -> Point>(commit: C, value: nat, blinding: nat, point: Point) -> bool {
    exists|v: Scalar, b: Scalar|
        scalar_value(v@) == value && scalar_value(b@) == blinding && is_scalar(v@) && is_scalar(b@)
            && #[trigger] call_ensures(commit, (&v, &b), point)
}

fn commit_to<C: Fn(&Scalar, &Scalar) -> Point>(commit: &C, value: i64, blinding: u64) -> (point: Point)
    requires
        forall|v: &Scalar, b: &Scalar| call_requires(*commit, (v, b)),
    ensures
        commits(*commit, signed_residue(value as int), blinding as nat, point),
{
    let v = signed_scalar(value);
    let b = small_scalar(blinding);
    let point = commit(&v, &b);
    assert(call_ensures(*commit, (&v, &b), point));
    point
}

/// Whether a policy's commitments are those of its opening.
pub open spec fn commits_policy<C: Fn(&Scalar, &Scalar) -> Point>(
    commit: C,
    opening: RegisteredPolicyOpening,
    policy: RegisteredPolicy,
) -> bool {
    &&& policy.maker_asset == opening.maker_asset
    &&& commits(commit, signed_residue(opening.values@[0] as int), opening.blindings@[0] as nat, policy.ask_level)
    &&& commits(commit, signed_residue(opening.values@[1] as int), opening.blindings@[1] as nat, policy.spread)
    &&& commits(commit, signed_residue(opening.values@[2] as int), opening.blindings@[2] as nat, policy.slope)
    &&& commits(commit, signed_residue(opening.values@[3] as int), opening.blindings@[3] as nat, policy.invcoef)
    &&& commits(commit, signed_residue(opening.values@[4] as int), opening.blindings@[4] as nat, policy.inv)
    &&& commits(commit, signed_residue(opening.values@[5] as int), opening.blindings@[5] as nat, policy.maxqty)
    &&& commits(commit, signed_residue(opening.values@[6] as int), opening.blindings@[6] as nat, policy.expiry)
    &&& commits(commit, signed_residue(opening.values@[7] as int), opening.blindings@[7] as nat, policy.active)
    &&& commits(commit, signed_residue(opening.values@[8] as int), opening.blindings@[8] as nat, policy.use_ref)
}

/// Whether the openings are within their bounds.
pub open spec fn openings_bounded(input: CompleteQuotePublicInput) -> bool {
    &&& 0 < input.policies@.len() <= MAX_POLICIES
    &&& input.direction <= 1
    &&& input.winner_index < input.policies@.len()
    &&& forall|i: int| 0 <= i < input.policies@.len() ==> flags_ok(#[trigger] input.policies@[i])
}

/// Whether the two flags of an opening are flags.
pub open spec fn flags_ok(opening: RegisteredPolicyOpening) -> bool {
    &&& opening.values@[7] == 0 || opening.values@[7] == 1
    &&& opening.values@[8] == 0 || opening.values@[8] == 1
}

/// Whether a request is the one of the given inputs.
pub open spec fn request_of<C: Fn(&Scalar, &Scalar) -> Point, D: Fn(&Vec<RegisteredPolicy>) -> [u8; 32]>(
    input: CompleteQuotePublicInput,
    commit: C,
    digest: D,
    request: CompleteQuoteRequest,
) -> bool {
    let public = request.public;
    &&& request.job_id == input.job_id
    &&& request.request_context == input.request_context
    &&& request.winner_index == input.winner_index
    &&& request.winner_value == input.winner_value
    &&& request.eligibility_bits == input.eligibility_bits
    &&& request.span_bits == input.span_bits
    &&& commits(commit, signed_residue(input.quantity as int), input.quantity_blinding as nat, public.qty_commitment)
    &&& public.now == input.now
    &&& public.sentinel == input.sentinel
    &&& public.n_slots == input.policies@.len()
    &&& public.direction == input.direction
    &&& public.asset == input.asset
    &&& public.reference_price == input.reference_price
    &&& public.market_digest == input.market_digest
    &&& public.slot == input.slot
    &&& call_ensures(digest, (&public.registry,), public.registry_digest)
    &&& public.registry@.len() == input.policies@.len()
    &&& forall|i: int|
        #![trigger public.registry@[i]]
        0 <= i < public.registry@.len() ==> commits_policy(commit, input.policies@[i], public.registry@[i])
}

/// Commits clear registration inputs, of which the coordinator keeps no opening.
pub fn complete_quote_request<C: Fn(&Scalar, &Scalar) -> Point, D: Fn(&Vec<RegisteredPolicy>) -> [u8; 32]>(
    input: CompleteQuotePublicInput,
    commit: &C,
    digest: &D,
) -> (r: Result<CompleteQuoteRequest, String>)
    requires
        forall|v: &Scalar, b: &Scalar| call_requires(*commit, (v, b)),
        forall|registry: &Vec<RegisteredPolicy>| call_requires(*digest, (registry,)),
    ensures
        match r {
            Ok(request) => openings_bounded(input) && request_of(input, *commit, *digest, request) && request.bounded(),
            Err(e) => if !openings_bounded(input) {
                e@ == "quote registration openings are outside their fixed bounds"@
            } else {
                &&& e@ == "complete quote request is outside its fixed bounds"@
                &&& input.job_id@ == zero32() || input.request_context@ == zero32() || input.eligibility_bits < 3
                    || input.eligibility_bits > 64 || input.span_bits < 1 || input.span_bits > 64
            },
        },
{
    let mut flags = true;
    let mut i: usize = 0;
    while i < input.policies.len()
        invariant
            i <= input.policies@.len(),
            flags == forall|j: int| 0 <= j < i ==> flags_ok(#[trigger] input.policies@[j]),
        decreases input.policies@.len() - i,
    {
        let active: i64 = input.policies[i].values[7];
        let reference: i64 = input.policies[i].values[8];
        if (active != 0 && active != 1) || (reference != 0 && reference != 1) {
            flags = false;
        }
        i = i + 1;
    }
    if input.policies.len() == 0 || input.policies.len() > MAX_POLICIES || input.direction > 1 || input.winner_index
        >= input.policies.len() || !flags {
        return Err("quote registration openings are outside their fixed bounds".to_owned());
    }
    let mut registry: Vec<RegisteredPolicy> = Vec::new();
    i = 0;
    while i < input.policies.len()
        invariant
            i <= input.policies@.len(),
            registry@.len() == i,
            forall|v: &Scalar, b: &Scalar| call_requires(*commit, (v, b)),
            forall|j: int|
                #![trigger registry@[j]]
                0 <= j < i ==> commits_policy(*commit, input.policies@[j], registry@[j]),
        decreases input.policies@.len() - i,
    {
        let opening = input.policies[i];
        registry.push(
            RegisteredPolicy {
                maker_asset: opening.maker_asset,
                ask_level: commit_to(commit, opening.values[0], opening.blindings[0]),
                spread: commit_to(commit, opening.values[1], opening.blindings[1]),
                slope: commit_to(commit, opening.values[2], opening.blindings[2]),
                invcoef: commit_to(commit, opening.values[3], opening.blindings[3]),
                inv: commit_to(commit, opening.values[4], opening.blindings[4]),
                maxqty: commit_to(commit, opening.values[5], opening.blindings[5]),
                expiry: commit_to(commit, opening.values[6], opening.blindings[6]),
                active: commit_to(commit, opening.values[7], opening.blindings[7]),
                use_ref: commit_to(commit, opening.values[8], opening.blindings[8]),
            },
        );
        i = i + 1;
    }
    let qty_commitment = commit_to(commit, input.quantity, input.quantity_blinding);
    let registry_digest = digest(&registry);
    let request = CompleteQuoteRequest {
        job_id: input.job_id,
        request_context: input.request_context,
        public: QuotePublic {
            qty_commitment,
            now: input.now,
            sentinel: input.sentinel,
            n_slots: registry.len() as i64,
            direction: input.direction,
            asset: input.asset,
            reference_price: input.reference_price,
            registry,
            registry_digest,
            market_digest: input.market_digest,
            slot: input.slot,
        },
        winner_index: input.winner_index,
        winner_value: input.winner_value,
        eligibility_bits: input.eligibility_bits,
        span_bits: input.span_bits,
    };
    match request.validate() {
        Err(e) => Err(e),
        Ok(_) => Ok(request),
    }
}

/// A registered policy as proof parties read it.
pub open spec fn policy_json(policy: RegisteredPolicy) -> Json {
    object_json(
        seq![
            ("maker_asset"@, Json::Integer(policy.maker_asset as int)),
            ("ask_level"@, hex_json(policy.ask_level@)),
            ("spread"@, hex_json(policy.spread@)),
            ("slope"@, hex_json(policy.slope@)),
            ("invcoef"@, hex_json(policy.invcoef@)),
            ("inv"@, hex_json(policy.inv@)),
            ("maxqty"@, hex_json(policy.maxqty@)),
            ("expiry"@, hex_json(policy.expiry@)),
            ("active"@, hex_json(policy.active@)),
            ("use_ref"@, hex_json(policy.use_ref@)),
        ],
    )
}

/// A registered policy as proof parties read it.
pub fn policy_params(policy: &RegisteredPolicy) -> (params: Value)
    ensures
        params@ == policy_json(*policy),
{
    let entries: Vec<(String, Value)> = vec![
        ("maker_asset".to_owned(), Value::Integer(policy.maker_asset as i128)),
        ("ask_level".to_owned(), hex_value(&policy.ask_level.bytes)),
        ("spread".to_owned(), hex_value(&policy.spread.bytes)),
        ("slope".to_owned(), hex_value(&policy.slope.bytes)),
        ("invcoef".to_owned(), hex_value(&policy.invcoef.bytes)),
        ("inv".to_owned(), hex_value(&policy.inv.bytes)),
        ("maxqty".to_owned(), hex_value(&policy.maxqty.bytes)),
        ("expiry".to_owned(), hex_value(&policy.expiry.bytes)),
        ("active".to_owned(), hex_value(&policy.active.bytes)),
        ("use_ref".to_owned(), hex_value(&policy.use_ref.bytes)),
    ];
    assert(Json::Object(crate::quote_messages::object_map(entries_said(entries@))) == policy_json(*policy)) by {
        assert(entries_said(entries@) =~= seq![
            ("maker_asset"@, Json::Integer(policy.maker_asset as int)),
            ("ask_level"@, hex_json(policy.ask_level@)),
            ("spread"@, hex_json(policy.spread@)),
            ("slope"@, hex_json(policy.slope@)),
            ("invcoef"@, hex_json(policy.invcoef@)),
            ("inv"@, hex_json(policy.inv@)),
            ("maxqty"@, hex_json(policy.maxqty@)),
            ("expiry"@, hex_json(policy.expiry@)),
            ("active"@, hex_json(policy.active@)),
            ("use_ref"@, hex_json(policy.use_ref@)),
        ]);
    }
    object(entries)
}

/// A list of registered policies.
pub open spec fn policies_json(registry: Seq<RegisteredPolicy>) -> Json {
    Json::Array(registry.map_values(|p: RegisteredPolicy| policy_json(p)))
}

fn policies_value(registry: &Vec<RegisteredPolicy>) -> (value: Value)
    ensures
        value@ == policies_json(registry@),
{
    let mut values: Vec<Value> = Vec::new();
    let mut i: usize = 0;
    while i < registry.len()
        invariant
            i <= registry@.len(),
            values@.len() == i,
            forall|j: int| 0 <= j < i ==> (#[trigger] values@[j])@ == policy_json(registry@[j]),
        decreases registry@.len() - i,
    {
        values.push(policy_params(&registry[i]));
        i = i + 1;
    }
    assert(values@.map_values(|v: Value| v@) =~= policies_json(registry@)->Array_0);
    array(values)
}

/// The public statement of a quote as proof parties read it.
pub open spec fn public_json(request: CompleteQuoteRequest) -> Json {
    object_json(
        seq![
            ("qty_commitment"@, hex_json(request.public.qty_commitment@)),
            ("now"@, Json::Integer(request.public.now as int)),
            ("sentinel"@, Json::Integer(request.public.sentinel as int)),
            ("n_slots"@, Json::Integer(request.public.n_slots as int)),
            ("direction"@, Json::Integer(request.public.direction as int)),
            ("asset"@, Json::Integer(request.public.asset as int)),
            ("reference_price"@, Json::Integer(request.public.reference_price as int)),
            ("registry"@, policies_json(request.public.registry@)),
            ("registry_digest"@, hex_json(request.public.registry_digest@)),
            ("market_digest"@, hex_json(request.public.market_digest@)),
            ("slot"@, Json::Integer(request.public.slot as int)),
            ("winner_index"@, Json::Integer(request.winner_index as int)),
            ("winner_value"@, Json::Integer(request.winner_value as int)),
        ],
    )
}

/// The public statement of a quote as proof parties read it.
pub fn public_json_value(request: &CompleteQuoteRequest) -> (params: Value)
    ensures
        params@ == public_json(*request),
{
    let entries: Vec<(String, Value)> = vec![
        ("qty_commitment".to_owned(), hex_value(&request.public.qty_commitment.bytes)),
        ("now".to_owned(), Value::Integer(request.public.now as i128)),
        ("sentinel".to_owned(), Value::Integer(request.public.sentinel as i128)),
        ("n_slots".to_owned(), Value::Integer(request.public.n_slots as i128)),
        ("direction".to_owned(), Value::Integer(request.public.direction as i128)),
        ("asset".to_owned(), Value::Integer(request.public.asset as i128)),
        ("reference_price".to_owned(), Value::Integer(request.public.reference_price as i128)),
        ("registry".to_owned(), policies_value(&request.public.registry)),
        ("registry_digest".to_owned(), hex_value(&request.public.registry_digest)),
        ("market_digest".to_owned(), hex_value(&request.public.market_digest)),
        ("slot".to_owned(), Value::Integer(request.public.slot as i128)),
        ("winner_index".to_owned(), Value::Integer(request.winner_index as i128)),
        ("winner_value".to_owned(), Value::Integer(request.winner_value as i128)),
    ];
    assert(Json::Object(crate::quote_messages::object_map(entries_said(entries@))) == public_json(*request)) by {
        assert(entries_said(entries@) =~= seq![
            ("qty_commitment"@, hex_json(request.public.qty_commitment@)),
            ("now"@, Json::Integer(request.public.now as int)),
            ("sentinel"@, Json::Integer(request.public.sentinel as int)),
            ("n_slots"@, Json::Integer(request.public.n_slots as int)),
            ("direction"@, Json::Integer(request.public.direction as int)),
            ("asset"@, Json::Integer(request.public.asset as int)),
            ("reference_price"@, Json::Integer(request.public.reference_price as int)),
            ("registry"@, policies_json(request.public.registry@)),
            ("registry_digest"@, hex_json(request.public.registry_digest@)),
            ("market_digest"@, hex_json(request.public.market_digest@)),
            ("slot"@, Json::Integer(request.public.slot as int)),
            ("winner_index"@, Json::Integer(request.winner_index as int)),
            ("winner_value"@, Json::Integer(request.winner_value as int)),
        ]);
    }
    object(entries)
}

/// What every party is asked to bind its quote witness to.
pub open spec fn quote_bind_json(request: CompleteQuoteRequest, evaluations: Seq<Vec<u8>>, context: Seq<u8>) -> Json {
    object_json(
        seq![
            ("job_id"@, hex_json(request.job_id@)),
            ("evaluations"@, wires_json(evaluations)),
            ("public"@, public_json(request)),
            ("quote_context"@, Json::Text(base64_text(context))),
        ],
    )
}

/// What every party is asked to bind its quote witness to.
pub fn quote_bind_params(
    request: &CompleteQuoteRequest,
    evaluations: &Vec<Vec<u8>>,
    context: &[u8; 32],
) -> (params: Value)
    ensures
        params@ == quote_bind_json(*request, evaluations@, context@),
{
    let entries: Vec<(String, Value)> = vec![
        ("job_id".to_owned(), hex_value(&request.job_id)),
        ("evaluations".to_owned(), wire_array(evaluations)),
        ("public".to_owned(), public_json_value(request)),
        ("quote_context".to_owned(), Value::Text(base64_encode(context.as_slice()))),
    ];
    assert(Json::Object(crate::quote_messages::object_map(entries_said(entries@))) == quote_bind_json(*request,
        evaluations@, context@)) by {
        assert(entries_said(entries@) =~= seq![
            ("job_id"@, hex_json(request.job_id@)),
            ("evaluations"@, wires_json(evaluations@)),
            ("public"@, public_json(*request)),
            ("quote_context"@, Json::Text(base64_text(context@))),
        ]);
    }
    object(entries)
}

/// Sends a public message through its wire and back: the message that the other
/// side reads, of the same job.
pub fn cross_quote(job_id: [u8; 32], message: Message) -> (r: Result<Message, String>)
    requires
        message_canonical(message),
    ensures
        match r {
            Ok(read) => {
                &&& unfit(message) is None
                &&& envelope_said(
                    envelope_json((Envelope { job_id, message })),
                    (Envelope { job_id, message: read }),
                )
            },
            Err(e) => unfit(message) == Some(e@),
        },
{
    let sent = Envelope { job_id, message };
    let raw = match encode(&sent) {
        Err(e) => {
            return Err(e);
        },
        Ok(raw) => raw,
    };
    proof {
        quote_round_accepted(sent);
        assert(decode_refusal(raw@) is None);
    }
    match decode(raw.as_slice()) {
        Err(e) => Err(e),
        Ok(decoded) => {
            proof {
                envelope_fields(sent);
                crate::fields::hex_json_read(job_id@, Seq::empty());
                assert(decoded.job_id@ =~= job_id@);
                assert(decoded.job_id =~= job_id);
            }
            if !same32(&decoded.job_id, &job_id) {
                return Err("quote public message crossed into another job".to_owned());
            }
            Ok(decoded.message)
        },
    }
}

} // verus!
