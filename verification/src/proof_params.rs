//! Reading the parameters of a proof-party request.

use vstd::prelude::*;
use crate::bytes::array32;
use crate::fields::{either, first, first_at, hex_in};
use crate::group::{decodes_to_point, is_point, Point};
use crate::json::{
    array_in, as_array, as_signed, as_text, as_unsigned, said, signed_in, text_in, unsigned_in, Json, Value,
};
use crate::quote_codec::{QuotePublic, RegisteredPolicy};
use crate::text::{about, base64_bytes, base64_decode, hex_bytes, hex_decode, is_hex};
use vstd::string::StringExecFns;

verus! {

/// The most wires that a list may carry.
pub const MAX_WIRES: usize = 64;

/// The most bytes that a wire may have.
pub const MAX_WIRE_BYTES: usize = 1048576;

/// Whether a text is thirty-two bytes in hexadecimal.
pub open spec fn is_hex32(value: Option<Json>) -> bool {
    &&& text_in(value) is Some
    &&& is_hex(text_in(value)->0)
    &&& hex_bytes(text_in(value)->0).len() == 32
}

fn read_hex32(value: Option<&Value>) -> (r: Option<[u8; 32]>)
    ensures
        r is Some <==> is_hex32(said(value)),
        r matches Some(bytes) ==> bytes@ == hex_in(said(value)),
{
    match as_text(value) {
        None => None,
        Some(text) => match hex_decode(text) {
            None => None,
            Some(bytes) => if bytes.len() == 32 {
                let array = array32(bytes.as_slice(), 0);
                assert(array@ =~= bytes@);
                Some(array)
            } else {
                None
            },
        },
    }
}

/// Why a document is not thirty-two bytes in hexadecimal.
pub open spec fn hex32_refusal(value: Option<Json>, name: Seq<char>) -> Option<Seq<char>> {
    if is_hex32(value) {
        None
    } else {
        Some(name + " must be a 32-byte hexadecimal value"@)
    }
}

/// Reads thirty-two bytes in hexadecimal.
pub fn hex32(value: Option<&Value>, name: &str) -> (r: Result<[u8; 32], String>)
    ensures
        match r {
            Ok(bytes) => hex32_refusal(said(value), name@) is None && bytes@ == hex_in(said(value)),
            Err(e) => hex32_refusal(said(value), name@) == Some(e@),
        },
{
    match read_hex32(value) {
        Some(bytes) => Ok(bytes),
        None => Err(about(name, " must be a 32-byte hexadecimal value")),
    }
}

/// Why a request names no job.
pub open spec fn job_id_refusal(params: Json) -> Option<Seq<char>> {
    if is_hex32(params.field("job_id"@)) {
        None
    } else {
        Some("job_id must be a 32-byte hexadecimal digest"@)
    }
}

/// The job that a request names.
pub fn job_id(params: &Value) -> (r: Result<[u8; 32], String>)
    ensures
        match r {
            Ok(id) => job_id_refusal(params@) is None && id@ == hex_in(params@.field("job_id"@)),
            Err(e) => job_id_refusal(params@) == Some(e@),
        },
{
    match read_hex32(params.get("job_id")) {
        Some(id) => Ok(id),
        None => Err("job_id must be a 32-byte hexadecimal digest".to_owned()),
    }
}

/// Why a document is not a point.
pub open spec fn canonical_point_refusal(value: Option<Json>, name: Seq<char>) -> Option<Seq<char>> {
    either(
        hex32_refusal(value, name),
        if is_point(hex_in(value)) {
            None
        } else {
            Some(name + " must be a canonical Ristretto point"@)
        },
    )
}

/// Reads a point.
pub fn point(value: Option<&Value>, name: &str) -> (r: Result<Point, String>)
    ensures
        match r {
            Ok(p) => canonical_point_refusal(said(value), name@) is None && p@ == hex_in(said(value)) && is_point(p@),
            Err(e) => canonical_point_refusal(said(value), name@) == Some(e@),
        },
{
    match hex32(value, name) {
        Err(e) => Err(e),
        Ok(bytes) => if decodes_to_point(&bytes) {
            Ok(Point { bytes })
        } else {
            Err(about(name, " must be a canonical Ristretto point"))
        },
    }
}

/// The bytes of a wire.
pub open spec fn wire_in(value: Option<Json>) -> Seq<u8> {
    base64_bytes(text_in(value)->0)->0
}

/// Why a request carries no wire under a name.
pub open spec fn one_wire_refusal(params: Json, name: Seq<char>) -> Option<Seq<char>> {
    match text_in(params.field(name)) {
        None => Some(name + " must be a public-wire string"@),
        Some(text) => match base64_bytes(text) {
            None => Some(name + " contains invalid base64"@),
            Some(bytes) => if bytes.len() == 0 || bytes.len() > MAX_WIRE_BYTES {
                Some(name + " is outside the public-wire bound"@)
            } else {
                None
            },
        },
    }
}

/// Reads the wire of a name.
pub fn one_wire(params: &Value, name: &str) -> (r: Result<Vec<u8>, String>)
    ensures
        match r {
            Ok(raw) => one_wire_refusal(params@, name@) is None && raw@ == wire_in(params@.field(name@))
                && 0 < raw@.len()
                <= MAX_WIRE_BYTES,
            Err(e) => one_wire_refusal(params@, name@) == Some(e@),
        },
{
    match as_text(params.get(name)) {
        None => Err(about(name, " must be a public-wire string")),
        Some(text) => match base64_decode(text) {
            None => Err(about(name, " contains invalid base64")),
            Some(raw) => if raw.len() == 0 || raw.len() > MAX_WIRE_BYTES {
                Err(about(name, " is outside the public-wire bound"))
            } else {
                Ok(raw)
            },
        },
    }
}

/// Why an element is not a wire.
pub open spec fn element_refusal(element: Json, name: Seq<char>) -> Option<Seq<char>> {
    match text_in(Some(element)) {
        None => Some(name + " contains a non-string wire"@),
        Some(text) => match base64_bytes(text) {
            None => Some(name + " contains invalid base64"@),
            Some(bytes) => if bytes.len() == 0 || bytes.len() > MAX_WIRE_BYTES {
                Some(name + " contains an oversized wire"@)
            } else {
                None
            },
        },
    }
}

/// The check that an element is a wire.
pub open spec fn element_check(name: Seq<char>) -> spec_fn(Json) -> Option<Seq<char>> {
    |element: Json| element_refusal(element, name)
}

/// Why a request carries no list of wires under a name.
pub open spec fn wires_refusal(params: Json, name: Seq<char>) -> Option<Seq<char>> {
    match array_in(params.field(name)) {
        None => Some(name + " must be a bounded public-wire array"@),
        Some(values) => if values.len() == 0 || values.len() > MAX_WIRES {
            Some(name + " is outside the public-wire bound"@)
        } else {
            first(values, element_check(name))
        },
    }
}

/// Reads the list of wires of a name.
pub fn decode_wires(params: &Value, name: &str) -> (r: Result<Vec<Vec<u8>>, String>)
    ensures
        match r {
            Ok(wires) => {
                &&& wires_refusal(params@, name@) is None
                &&& wires@.len() == array_in(params@.field(name@))->0.len()
                &&& forall|i: int|
                    0 <= i < wires@.len() ==> (#[trigger] wires@[i])@ == wire_in(
                        Some(array_in(params@.field(name@))->0[i]),
                    )
            },
            Err(e) => wires_refusal(params@, name@) == Some(e@),
        },
{
    let listed = params.get(name);
    let values = match as_array(listed) {
        None => {
            return Err(about(name, " must be a bounded public-wire array"));
        },
        Some(values) => values,
    };
    if values.len() == 0 || values.len() > MAX_WIRES {
        return Err(about(name, " is outside the public-wire bound"));
    }
    let ghost all = array_in(params@.field(name@))->0;
    let ghost check = element_check(name@);
    let mut wires: Vec<Vec<u8>> = Vec::new();
    let mut i: usize = 0;
    #[verifier::loop_isolation(false)]
    while i < values.len()
        invariant
            i <= values@.len(),
            wires@.len() == i,
            first(all.take(i as int), check) is None,
            forall|j: int| 0 <= j < i ==> (#[trigger] wires@[j])@ == wire_in(Some(all[j])),
        decreases values@.len() - i,
    {
        proof {
            first_at(all, check, i as int);
            assert(all[i as int] == values@[i as int]@);
        }
        match as_text(Some(&values[i])) {
            None => {
                return Err(about(name, " contains a non-string wire"));
            },
            Some(text) => match base64_decode(text) {
                None => {
                    return Err(about(name, " contains invalid base64"));
                },
                Some(raw) => {
                    if raw.len() == 0 || raw.len() > MAX_WIRE_BYTES {
                        return Err(about(name, " contains an oversized wire"));
                    }
                    wires.push(raw);
                },
            },
        }
        i = i + 1;
    }
    assert(all.take(i as int) =~= all);
    Ok(wires)
}

/// Why a document is not an unsigned member of a quote.
pub open spec fn unsigned_refusal(body: Json, name: Seq<char>) -> Option<Seq<char>> {
    if unsigned_in(body.field(name)) is Some {
        None
    } else {
        Some("quote "@ + name + " must be an unsigned 64-bit integer"@)
    }
}

/// Why a document is not a signed member of a quote.
pub open spec fn signed_refusal(body: Json, name: Seq<char>) -> Option<Seq<char>> {
    if signed_in(body.field(name)) is Some {
        None
    } else {
        Some("quote "@ + name + " must be a signed 64-bit integer"@)
    }
}

fn unsigned(body: &Value, name: &str) -> (r: Result<u64, String>)
    ensures
        match r {
            Ok(n) => unsigned_refusal(body@, name@) is None && unsigned_in(body@.field(name@)) == Some(n as nat),
            Err(e) => unsigned_refusal(body@, name@) == Some(e@),
        },
{
    match as_unsigned(body.get(name)) {
        Some(n) => Ok(n),
        None => Err(about("quote ", name).concat(" must be an unsigned 64-bit integer")),
    }
}

fn signed(body: &Value, name: &str) -> (r: Result<i64, String>)
    ensures
        match r {
            Ok(n) => signed_refusal(body@, name@) is None && signed_in(body@.field(name@)) == Some(n as int),
            Err(e) => signed_refusal(body@, name@) == Some(e@),
        },
{
    match as_signed(body.get(name)) {
        Some(n) => Ok(n),
        None => Err(about("quote ", name).concat(" must be a signed 64-bit integer")),
    }
}

/// Why a document is not a registered policy.
pub open spec fn policy_refusal(entry: Json) -> Option<Seq<char>> {
    if !(entry is Object) {
        Some("quote registry entry must be an object"@)
    } else if unsigned_in(entry.field("maker_asset"@)) is None
        || unsigned_in(entry.field("maker_asset"@))->0 > u32::MAX {
        Some("quote Maker asset is outside u32"@)
    } else {
either(
canonical_point_refusal(entry.field("ask_level"@), "registered ask level"@),
either(
canonical_point_refusal(entry.field("spread"@), "registered spread"@),
either(
canonical_point_refusal(entry.field("slope"@), "registered slope"@),
either(
canonical_point_refusal(entry.field("invcoef"@), "registered inventory coefficient"@),
either(
canonical_point_refusal(entry.field("inv"@), "registered inventory"@),
either(
canonical_point_refusal(entry.field("maxqty"@), "registered maximum quantity"@),
either(
canonical_point_refusal(entry.field("expiry"@), "registered expiry"@),
either(
canonical_point_refusal(entry.field("active"@), "registered active flag"@),
canonical_point_refusal(entry.field("use_ref"@), "registered reference flag"@)))))))))
    }
}

/// Whether a policy is the one that a document writes.
pub open spec fn policy_said(entry: Json, policy: RegisteredPolicy) -> bool {
    &&& unsigned_in(entry.field("maker_asset"@)) == Some(policy.maker_asset as nat)
    &&& policy.ask_level@ == hex_in(entry.field("ask_level"@)) && is_point(policy.ask_level@)
    &&& policy.spread@ == hex_in(entry.field("spread"@)) && is_point(policy.spread@)
    &&& policy.slope@ == hex_in(entry.field("slope"@)) && is_point(policy.slope@)
    &&& policy.invcoef@ == hex_in(entry.field("invcoef"@)) && is_point(policy.invcoef@)
    &&& policy.inv@ == hex_in(entry.field("inv"@)) && is_point(policy.inv@)
    &&& policy.maxqty@ == hex_in(entry.field("maxqty"@)) && is_point(policy.maxqty@)
    &&& policy.expiry@ == hex_in(entry.field("expiry"@)) && is_point(policy.expiry@)
    &&& policy.active@ == hex_in(entry.field("active"@)) && is_point(policy.active@)
    &&& policy.use_ref@ == hex_in(entry.field("use_ref"@)) && is_point(policy.use_ref@)
}

/// The check that an element is a registered policy.
pub open spec fn policy_check() -> spec_fn(Json) -> Option<Seq<char>> {
    |entry: Json| policy_refusal(entry)
}

fn read_policy(entry: &Value) -> (r: Result<RegisteredPolicy, String>)
    ensures
        match r {
            Ok(policy) => policy_refusal(entry@) is None && policy_said(entry@, policy),
            Err(e) => policy_refusal(entry@) == Some(e@),
        },
{
    match entry {
        Value::Object(_) => {},
        _ => {
            return Err("quote registry entry must be an object".to_owned());
        },
    }
    let maker_asset: u32 = match as_unsigned(entry.get("maker_asset")) {
        Some(n) => {
            if n > 0xffff_ffff {
                return Err("quote Maker asset is outside u32".to_owned());
            }
            n as u32
        },
        None => {
            return Err("quote Maker asset is outside u32".to_owned());
        },
    };
    let ask_level = match point(entry.get("ask_level"), "registered ask level") {
        Err(e) => {
            return Err(e);
        },
        Ok(p) => p,
    };
    let spread = match point(entry.get("spread"), "registered spread") {
        Err(e) => {
            return Err(e);
        },
        Ok(p) => p,
    };
    let slope = match point(entry.get("slope"), "registered slope") {
        Err(e) => {
            return Err(e);
        },
        Ok(p) => p,
    };
    let invcoef = match point(entry.get("invcoef"), "registered inventory coefficient") {
        Err(e) => {
            return Err(e);
        },
        Ok(p) => p,
    };
    let inv = match point(entry.get("inv"), "registered inventory") {
        Err(e) => {
            return Err(e);
        },
        Ok(p) => p,
    };
    let maxqty = match point(entry.get("maxqty"), "registered maximum quantity") {
        Err(e) => {
            return Err(e);
        },
        Ok(p) => p,
    };
    let expiry = match point(entry.get("expiry"), "registered expiry") {
        Err(e) => {
            return Err(e);
        },
        Ok(p) => p,
    };
    let active = match point(entry.get("active"), "registered active flag") {
        Err(e) => {
            return Err(e);
        },
        Ok(p) => p,
    };
    let use_ref = match point(entry.get("use_ref"), "registered reference flag") {
        Err(e) => {
            return Err(e);
        },
        Ok(p) => p,
    };
    Ok(RegisteredPolicy { maker_asset, ask_level, spread, slope, invcoef, inv, maxqty, expiry, active, use_ref })
}

/// Why the registry of a quote is refused.
pub open spec fn registry_refusal(body: Json) -> Option<Seq<char>> {
    match array_in(body.field("registry"@)) {
        None => Some("quote registry is empty or exceeds 4096 Makers"@),
        Some(values) => if values.len() == 0 || values.len() > 4096 {
            Some("quote registry is empty or exceeds 4096 Makers"@)
        } else {
            first(values, policy_check())
        },
    }
}

/// Why the direction of a quote is refused.
pub open spec fn direction_refusal(body: Json) -> Option<Seq<char>> {
    either(
        unsigned_refusal(body, "direction"@),
        if unsigned_in(body.field("direction"@))->0 > u8::MAX {
            Some("quote direction exceeds u8"@)
        } else {
            None
        },
    )
}

/// Why the asset of a quote is refused.
pub open spec fn asset_refusal(body: Json) -> Option<Seq<char>> {
    either(
        unsigned_refusal(body, "asset"@),
        if unsigned_in(body.field("asset"@))->0 > u32::MAX {
            Some("quote asset exceeds u32"@)
        } else {
            None
        },
    )
}

/// Why the fixed members of a quote are refused.
pub open spec fn members_refusal(body: Json) -> Option<Seq<char>> {
either(
canonical_point_refusal(body.field("qty_commitment"@), "quote quantity commitment"@),
either(
signed_refusal(body, "now"@),
either(
signed_refusal(body, "sentinel"@),
either(
signed_refusal(body, "n_slots"@),
either(
signed_refusal(body, "reference_price"@),
either(
hex32_refusal(body.field("registry_digest"@), "quote registry digest"@),
either(
hex32_refusal(body.field("market_digest"@), "quote market digest"@),
unsigned_refusal(body, "slot"@))))))))
}

/// Why the winner of a quote is refused.
pub open spec fn winner_refusal(body: Json) -> Option<Seq<char>> {
    either(
        unsigned_refusal(body, "winner_index"@),
        either(
            if unsigned_in(body.field("winner_index"@))->0 > usize::MAX {
                Some("winner index is invalid"@)
            } else {
                None
            },
            unsigned_refusal(body, "winner_value"@),
        ),
    )
}

/// Why the transcript context of a quote is refused.
pub open spec fn context_refusal(params: Json) -> Option<Seq<char>> {
    either(
        one_wire_refusal(params, "quote_context"@),
        if wire_in(params.field("quote_context"@)).len() > 4096 {
            Some("quote context exceeds 4096 bytes"@)
        } else {
            None
        },
    )
}

/// Why the public statement of a quote is refused.
pub open spec fn quote_public_refusal(params: Json) -> Option<Seq<char>> {
    match params.field("public"@) {
        Some(Json::Object(fields)) => {
            let body = Json::Object(fields);
            either(
                registry_refusal(body),
                either(
                    direction_refusal(body),
                    either(
                        asset_refusal(body),
                        either(members_refusal(body), either(winner_refusal(body), context_refusal(params))),
                    ),
                ),
            )
        },
        _ => Some("quote public statement must be an object"@),
    }
}

/// The public statement of a quote with its winner and transcript context.
#[derive(Debug)]
pub struct QuoteStatement {
    pub public: QuotePublic,
    pub winner_index: usize,
    pub winner_value: u64,
    pub context: Vec<u8>,
}

/// Whether policies are those that a list writes.
pub open spec fn registry_said(values: Seq<Json>, registry: Seq<RegisteredPolicy>) -> bool {
    &&& registry.len() == values.len()
    &&& forall|i: int| 0 <= i < registry.len() ==> policy_said(values[i], #[trigger] registry[i])
}

/// Whether a statement is the one that a request writes.
pub open spec fn statement_said(params: Json, statement: QuoteStatement) -> bool {
    let body = params.field("public"@)->0;
    let public = statement.public;
    &&& registry_said(array_in(body.field("registry"@))->0, public.registry@)
    &&& unsigned_in(body.field("direction"@)) == Some(public.direction as nat)
    &&& unsigned_in(body.field("asset"@)) == Some(public.asset as nat)
    &&& public.qty_commitment@ == hex_in(body.field("qty_commitment"@)) && is_point(public.qty_commitment@)
    &&& signed_in(body.field("now"@)) == Some(public.now as int)
    &&& signed_in(body.field("sentinel"@)) == Some(public.sentinel as int)
    &&& signed_in(body.field("n_slots"@)) == Some(public.n_slots as int)
    &&& signed_in(body.field("reference_price"@)) == Some(public.reference_price as int)
    &&& public.registry_digest@ == hex_in(body.field("registry_digest"@))
    &&& public.market_digest@ == hex_in(body.field("market_digest"@))
    &&& unsigned_in(body.field("slot"@)) == Some(public.slot as nat)
    &&& unsigned_in(body.field("winner_index"@)) == Some(statement.winner_index as nat)
    &&& unsigned_in(body.field("winner_value"@)) == Some(statement.winner_value as nat)
    &&& statement.context@ == wire_in(params.field("quote_context"@))
    &&& 0 < statement.context@.len() <= 4096
}

fn read_registry(body: &Value) -> (r: Result<Vec<RegisteredPolicy>, String>)
    ensures
        match r {
            Ok(registry) => registry_refusal(body@) is None && registry_said(
                array_in(body@.field("registry"@))->0,
                registry@,
            ),
            Err(e) => registry_refusal(body@) == Some(e@),
        },
{
    let values = match as_array(body.get("registry")) {
        None => {
            return Err("quote registry is empty or exceeds 4096 Makers".to_owned());
        },
        Some(values) => values,
    };
    if values.len() == 0 || values.len() > 4096 {
        return Err("quote registry is empty or exceeds 4096 Makers".to_owned());
    }
    let ghost all = array_in(body@.field("registry"@))->0;
    let ghost check = policy_check();
    let mut registry: Vec<RegisteredPolicy> = Vec::new();
    let mut i: usize = 0;
    #[verifier::loop_isolation(false)]
    while i < values.len()
        invariant
            i <= values@.len(),
            registry@.len() == i,
            first(all.take(i as int), check) is None,
            forall|j: int| 0 <= j < i ==> policy_said(all[j], #[trigger] registry@[j]),
        decreases values@.len() - i,
    {
        proof {
            first_at(all, check, i as int);
            assert(all[i as int] == values@[i as int]@);
        }
        match read_policy(&values[i]) {
            Err(e) => {
                return Err(e);
            },
            Ok(policy) => {
                registry.push(policy);
            },
        }
        i = i + 1;
    }
    assert(all.take(i as int) =~= all);
    Ok(registry)
}

/// Reads the public statement of a quote.
pub fn quote_public(params: &Value) -> (r: Result<QuoteStatement, String>)
    ensures
        match r {
            Ok(statement) => quote_public_refusal(params@) is None && statement_said(params@, statement),
            Err(e) => quote_public_refusal(params@) == Some(e@),
        },
{
    let body = match params.get("public") {
        Some(body) => body,
        None => {
            return Err("quote public statement must be an object".to_owned());
        },
    };
    match body {
        Value::Object(_) => {},
        _ => {
            return Err("quote public statement must be an object".to_owned());
        },
    }
    let registry = match read_registry(body) {
        Err(e) => {
            return Err(e);
        },
        Ok(registry) => registry,
    };
    let direction = match unsigned(body, "direction") {
        Err(e) => {
            return Err(e);
        },
        Ok(n) => n,
    };
    if direction > 0xff {
        return Err("quote direction exceeds u8".to_owned());
    }
    let asset = match unsigned(body, "asset") {
        Err(e) => {
            return Err(e);
        },
        Ok(n) => n,
    };
    if asset > 0xffff_ffff {
        return Err("quote asset exceeds u32".to_owned());
    }

    let qty_commitment = match point(body.get("qty_commitment"), "quote quantity commitment") {
        Err(e) => {
            return Err(e);
        },
        Ok(read) => read,
    };
    let now = match signed(body, "now") {
        Err(e) => {
            return Err(e);
        },
        Ok(read) => read,
    };
    let sentinel = match signed(body, "sentinel") {
        Err(e) => {
            return Err(e);
        },
        Ok(read) => read,
    };
    let n_slots = match signed(body, "n_slots") {
        Err(e) => {
            return Err(e);
        },
        Ok(read) => read,
    };
    let reference_price = match signed(body, "reference_price") {
        Err(e) => {
            return Err(e);
        },
        Ok(read) => read,
    };
    let registry_digest = match hex32(body.get("registry_digest"), "quote registry digest") {
        Err(e) => {
            return Err(e);
        },
        Ok(read) => read,
    };
    let market_digest = match hex32(body.get("market_digest"), "quote market digest") {
        Err(e) => {
            return Err(e);
        },
        Ok(read) => read,
    };
    let slot = match unsigned(body, "slot") {
        Err(e) => {
            return Err(e);
        },
        Ok(read) => read,
    };
    let winner_index = match unsigned(body, "winner_index") {
        Err(e) => {
            return Err(e);
        },
        Ok(n) => n,
    };
    if winner_index > usize::MAX as u64 {
        return Err("winner index is invalid".to_owned());
    }
    let winner_value = match unsigned(body, "winner_value") {
        Err(e) => {
            return Err(e);
        },
        Ok(n) => n,
    };
    let context = match one_wire(params, "quote_context") {
        Err(e) => {
            return Err(e);
        },
        Ok(context) => context,
    };
    if context.len() > 4096 {
        return Err("quote context exceeds 4096 bytes".to_owned());
    }
    let public = QuotePublic {
        qty_commitment,
        now,
        sentinel,
        n_slots,
        direction: direction as u8,
        asset: asset as u32,
        reference_price,
        registry,
        registry_digest,
        market_digest,
        slot,
    };
    Ok(QuoteStatement { public, winner_index: winner_index as usize, winner_value, context })
}

} // verus!
