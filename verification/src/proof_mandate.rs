//! Signed mandates, and the payments and settlement contexts they allow.

use vstd::prelude::*;
use crate::bytes::{is_zero32, same32, zero32};
use crate::fields::either;
use crate::json::{as_text, text_in, Json, Value};
use crate::oracle::{judge, judges, objection};
use crate::proof_params::{one_wire, one_wire_refusal, wire_in};
use crate::text::{hex_bytes, hex_decode, is_hex, same_text};

verus! {

/// Which way a trade goes, seen from the Taker.
#[derive(Clone, Copy, Debug, PartialEq, Eq, Structural)]
pub enum Direction {
    TakerBuys,
    TakerSells,
}

impl Direction {
    /// The byte that stands for a direction.
    pub open spec fn code(self) -> u8 {
        match self {
            Direction::TakerBuys => 1,
            Direction::TakerSells => 2,
        }
    }

    /// The byte that stands for a direction.
    pub fn to_byte(self) -> (byte: u8)
        ensures
            byte == self.code(),
    {
        match self {
            Direction::TakerBuys => 1,
            Direction::TakerSells => 2,
        }
    }
}

/// The mandate of a Maker, with what its signature and digest came to.
#[derive(Debug)]
pub struct MakerPolicyMandate {
    pub venue_id: [u8; 32],
    pub defmi_id: [u8; 32],
    pub entity_commitment: [u8; 32],
    pub asset_id: [u8; 32],
    pub direction: Direction,
    pub maker_handle: [u8; 32],
    pub reserve_id: [u8; 32],
    pub policy_digest: [u8; 32],
    pub policy_version: u64,
    pub maximum_amount_commitment: [u8; 32],
    pub valid_until: u64,
    /// The digest of the signed text.
    pub digest: Result<[u8; 32], String>,
    /// Whether the signature holds at the time of the request.
    pub authentic: Result<(), String>,
}

/// The mandate of a Taker, with what its signature and digest came to.
#[derive(Debug)]
pub struct TakerExecutionMandate {
    pub venue_id: [u8; 32],
    pub defmi_id: [u8; 32],
    pub direction: Direction,
    pub taker_handle: [u8; 32],
    pub reserve_id: [u8; 32],
    pub rfq_nullifier: [u8; 32],
    pub maximum_amount_commitment: [u8; 32],
    pub deadline: u64,
    /// The digest of the signed text.
    pub digest: Result<[u8; 32], String>,
    /// Whether the signature holds at the time of the request.
    pub authentic: Result<(), String>,
}

/// The mandate that allows a reserve.
#[derive(Debug)]
pub enum ReserveMandate {
    Maker(MakerPolicyMandate),
    Taker(TakerExecutionMandate),
}

/// Whose mandate a request carries.
#[derive(Clone, Copy, Debug, PartialEq, Eq, Structural)]
pub enum MandateRole {
    Maker,
    Taker,
}

/// A payment instruction as far as a node reads it.
#[derive(Debug)]
pub struct Payment {
    pub digest: [u8; 64],
    pub amount_commitment: [u8; 32],
    pub price_commitment: [u8; 32],
    pub payer_handle: [u8; 32],
    pub payee_handle: [u8; 32],
    pub deadline: u64,
    pub quote_proof_digest: Option<[u8; 32]>,
    /// The committee's signature over the digest.
    pub signature: Vec<u8>,
    /// The committee's post-quantum approval of the digest, where it has one.
    pub pq_approval: Option<Vec<u8>>,
}

/// What an execution context asks for.
#[derive(Clone, Copy, Debug, PartialEq, Eq, Structural)]
pub enum OperationKind {
    Reserve,
    Consume,
    Settle,
    Other,
}

/// On whose behalf an execution context is signed.
#[derive(Clone, Copy, Debug, PartialEq, Eq, Structural)]
pub enum AuthorizationScope {
    Maker,
    Taker,
    Joint,
}

/// An execution context as far as a node reads it.
#[derive(Debug)]
pub struct ExecutionContext {
    pub operation: OperationKind,
    pub scope: AuthorizationScope,
    pub direction: Direction,
    pub venue_id: [u8; 32],
    pub defmi_id: [u8; 32],
    pub before_state_root: [u8; 32],
    pub quote_proof_digest: [u8; 32],
    pub rfq_nullifier: [u8; 32],
    pub maker_handle: [u8; 32],
    pub maker_reservation_id: [u8; 32],
    pub maker_policy_digest: [u8; 32],
    pub maker_mandate_digest: [u8; 32],
    pub maker_reserve_receipt_digest: [u8; 32],
    pub taker_handle: [u8; 32],
    pub taker_reservation_id: [u8; 32],
    pub taker_mandate_digest: [u8; 32],
    pub taker_reserve_receipt_digest: [u8; 32],
}

/// Why a request carries no signed mandate.
pub open spec fn mandate_refusal(params: Json) -> Option<Seq<char>> {
    either(
        one_wire_refusal(params, "mandate_unsigned"@),
        match text_in(params.field("mandate_signature"@)) {
            None => Some("mandate_signature must be a hybrid envelope"@),
            Some(text) => if is_hex(text) {
                None
            } else {
                Some("mandate_signature is not hexadecimal"@)
            },
        },
    )
}

/// Why a request names no role.
pub open spec fn role_refusal(params: Json) -> Option<Seq<char>> {
    if text_in(params.field("role"@)) == Some("maker"@) || text_in(params.field("role"@)) == Some("taker"@) {
        None
    } else {
        Some("reserve signing role must be maker or taker"@)
    }
}

/// The signed text of a mandate and its signature.
pub fn mandate_wire(params: &Value) -> (r: Result<(Vec<u8>, Vec<u8>), String>)
    ensures
        match r {
            Ok((unsigned, signature)) => {
                &&& mandate_refusal(params@) is None
                &&& unsigned@ == wire_in(params@.field("mandate_unsigned"@))
                &&& signature@ == hex_bytes(text_in(params@.field("mandate_signature"@))->0)
            },
            Err(e) => mandate_refusal(params@) == Some(e@),
        },
{
    let unsigned = match one_wire(params, "mandate_unsigned") {
        Err(e) => {
            return Err(e);
        },
        Ok(unsigned) => unsigned,
    };
    let text = match as_text(params.get("mandate_signature")) {
        None => {
            return Err("mandate_signature must be a hybrid envelope".to_owned());
        },
        Some(text) => text,
    };
    match hex_decode(text) {
        None => Err("mandate_signature is not hexadecimal".to_owned()),
        Some(signature) => Ok((unsigned, signature)),
    }
}

/// The role that a request names.
pub fn mandate_role(params: &Value) -> (r: Result<MandateRole, String>)
    ensures
        match r {
            Ok(MandateRole::Maker) => text_in(params@.field("role"@)) == Some("maker"@),
            Ok(MandateRole::Taker) => text_in(params@.field("role"@)) == Some("taker"@) && text_in(
                params@.field("role"@),
            ) != Some("maker"@),
            Err(e) => role_refusal(params@) == Some(e@),
        },
{
    match as_text(params.get("role")) {
        None => Err("reserve signing role must be maker or taker".to_owned()),
        Some(role) => if same_text(role, "maker") {
            Ok(MandateRole::Maker)
        } else if same_text(role, "taker") {
            Ok(MandateRole::Taker)
        } else {
            Err("reserve signing role must be maker or taker".to_owned())
        },
    }
}

/// What reads a signed mandate.
pub struct MandateTools<G, M, T> {
    /// Says whether bytes are the envelope of a hybrid signature.
    pub envelope: G,
    /// Reads a Maker's mandate from its text and signature, which it holds against
    /// a time that may be unknown.
    pub maker: M,
    /// Reads a Taker's mandate in the same way.
    pub taker: T,
}

/// Whether a mandate may be read from a text and its signature so.
pub open spec fn mandate_from<X, M: Fn(&Vec<u8>, &Vec<u8>, Option<u64>) -> Result<X, String>>(
    read: M,
    unsigned: Seq<u8>,
    signature: Seq<u8>,
    now: Option<u64>,
    outcome: Result<X, String>,
) -> bool {
    exists|u: &Vec<u8>, s: &Vec<u8>|
        u@ == unsigned && s@ == signature && #[trigger] call_ensures(read, (u, s, now), outcome)
}

impl<
    G: Fn(&Vec<u8>) -> Result<(), String>,
    M: Fn(&Vec<u8>, &Vec<u8>, Option<u64>) -> Result<MakerPolicyMandate, String>,
    T: Fn(&Vec<u8>, &Vec<u8>, Option<u64>) -> Result<TakerExecutionMandate, String>,
> MandateTools<G, M, T> {
    /// Whether any mandate can be read.
    pub open spec fn ready(self) -> bool {
        &&& judges(self.envelope)
        &&& forall|u: &Vec<u8>, s: &Vec<u8>, now: Option<u64>| call_requires(self.maker, (u, s, now))
        &&& forall|u: &Vec<u8>, s: &Vec<u8>, now: Option<u64>| call_requires(self.taker, (u, s, now))
    }

    /// Whether this is what comes of reading the mandate that a request carries.
    pub open spec fn reads(self, params: Json, now: Option<u64>, outcome: Result<ReserveMandate, String>) -> bool {
        let unsigned = wire_in(params.field("mandate_unsigned"@));
        let signature = hex_bytes(text_in(params.field("mandate_signature"@))->0);
        if mandate_refusal(params) is Some {
            refused(outcome) == mandate_refusal(params)
        } else if objection(self.envelope, signature) is Some {
            refused(outcome) == objection(self.envelope, signature)
        } else if text_in(params.field("role"@)) == Some("maker"@) {
            match outcome {
                Ok(ReserveMandate::Maker(mandate)) => mandate_from(self.maker, unsigned, signature, now, Ok(mandate)),
                Ok(ReserveMandate::Taker(_)) => false,
                Err(e) => mandate_from(self.maker, unsigned, signature, now, Err(e)),
            }
        } else if text_in(params.field("role"@)) == Some("taker"@) {
            match outcome {
                Ok(ReserveMandate::Maker(_)) => false,
                Ok(ReserveMandate::Taker(mandate)) => mandate_from(self.taker, unsigned, signature, now, Ok(mandate)),
                Err(e) => mandate_from(self.taker, unsigned, signature, now, Err(e)),
            }
        } else {
            refused(outcome) == role_refusal(params)
        }
    }

    /// Reads the mandate that a request carries, as one of the role that it names.
    pub fn read(&self, params: &Value, now: Option<u64>) -> (r: Result<ReserveMandate, String>)
        requires
            self.ready(),
        ensures
            self.reads(params@, now, r),
    {
        let (unsigned, signature) = match mandate_wire(params) {
            Err(e) => {
                return Err(e);
            },
            Ok(found) => found,
        };
        if let Err(e) = judge(&self.envelope, &signature) {
            return Err(e);
        }
        match mandate_role(params) {
            Err(e) => Err(e),
            Ok(MandateRole::Maker) => {
                let read = (self.maker)(&unsigned, &signature, now);
                assert(call_ensures(self.maker, (&unsigned, &signature, now), read));
                match read {
                    Err(e) => Err(e),
                    Ok(mandate) => Ok(ReserveMandate::Maker(mandate)),
                }
            },
            Ok(MandateRole::Taker) => {
                let read = (self.taker)(&unsigned, &signature, now);
                assert(call_ensures(self.taker, (&unsigned, &signature, now), read));
                match read {
                    Err(e) => Err(e),
                    Ok(mandate) => Ok(ReserveMandate::Taker(mandate)),
                }
            },
        }
    }
}

/// The text of a refusal that may be absent.
pub open spec fn refused<T>(outcome: Result<T, String>) -> Option<Seq<char>> {
    match outcome {
        Ok(_) => None,
        Err(e) => Some(e@),
    }
}

/// A copy of a refusal's text.
pub fn told(text: &String) -> (copy: String)
    ensures
        copy@ == text@,
{
    text.as_str().to_owned()
}

impl ReserveMandate {
    /// Why a payment is not one that the mandate allows.
    pub open spec fn payment_refusal(self, amount: Seq<u8>, payer: Seq<u8>, deadline: u64) -> Option<Seq<char>> {
        match self {
            ReserveMandate::Maker(mandate) => either(
                refused(mandate.authentic),
                if mandate.maximum_amount_commitment@ != amount || mandate.maker_handle@ != payer || deadline
                    > mandate.valid_until {
                    Some("reserve payment differs from the signed Maker mandate"@)
                } else {
                    None
                },
            ),
            ReserveMandate::Taker(mandate) => either(
                refused(mandate.authentic),
                if mandate.maximum_amount_commitment@ != amount || mandate.taker_handle@ != payer || deadline
                    > mandate.deadline {
                    Some("reserve payment differs from the signed Taker mandate"@)
                } else {
                    None
                },
            ),
        }
    }

    /// Allows a payment of exactly the signed amount, from the signed handle,
    /// while the mandate lasts.
    pub fn verify_payment(&self, amount_commitment: &[u8; 32], payer_handle: &[u8; 32], deadline: u64) -> (r: Result<
        (),
        String,
    >)
        ensures
            match r {
                Ok(_) => self.payment_refusal(amount_commitment@, payer_handle@, deadline) is None,
                Err(e) => self.payment_refusal(amount_commitment@, payer_handle@, deadline) == Some(e@),
            },
    {
        match self {
            ReserveMandate::Maker(mandate) => {
                if let Err(e) = &mandate.authentic {
                    return Err(told(e));
                }
                if !same32(&mandate.maximum_amount_commitment, amount_commitment) || !same32(
                    &mandate.maker_handle,
                    payer_handle,
                ) || deadline > mandate.valid_until {
                    return Err("reserve payment differs from the signed Maker mandate".to_owned());
                }
            },
            ReserveMandate::Taker(mandate) => {
                if let Err(e) = &mandate.authentic {
                    return Err(told(e));
                }
                if !same32(&mandate.maximum_amount_commitment, amount_commitment) || !same32(
                    &mandate.taker_handle,
                    payer_handle,
                ) || deadline > mandate.deadline {
                    return Err("reserve payment differs from the signed Taker mandate".to_owned());
                }
            },
        }
        Ok(())
    }

    /// Whether a context repeats what the mandate says up to its digest.
    pub open spec fn context_matches(self, context: ExecutionContext) -> bool {
        match self {
            ReserveMandate::Maker(mandate) => {
                &&& context.scope == AuthorizationScope::Maker
                &&& context.direction == mandate.direction
                &&& context.venue_id@ == mandate.venue_id@
                &&& context.defmi_id@ == mandate.defmi_id@
                &&& context.maker_handle@ == mandate.maker_handle@
                &&& context.maker_reservation_id@ == mandate.reserve_id@
                &&& context.maker_policy_digest@ == mandate.policy_digest@
            },
            ReserveMandate::Taker(mandate) => {
                &&& context.scope == AuthorizationScope::Taker
                &&& context.direction == mandate.direction
                &&& context.venue_id@ == mandate.venue_id@
                &&& context.defmi_id@ == mandate.defmi_id@
                &&& context.taker_handle@ == mandate.taker_handle@
                &&& context.taker_reservation_id@ == mandate.reserve_id@
            },
        }
    }

    /// Why a payment and its context are not what the mandate allows.
    pub open spec fn context_refusal(self, payment: Payment, context: ExecutionContext) -> Option<Seq<char>> {
        either(
            self.payment_refusal(payment.amount_commitment@, payment.payer_handle@, payment.deadline),
            match self {
                ReserveMandate::Maker(mandate) => if !self.context_matches(context) {
                    Some("typed reserve differs from the signed Maker mandate"@)
                } else {
                    match mandate.digest {
                        Err(e) => Some(e@),
                        Ok(digest) => if context.maker_mandate_digest@ != digest@ || context.rfq_nullifier@
                            != zero32() {
                            Some("typed reserve differs from the signed Maker mandate"@)
                        } else {
                            None
                        },
                    }
                },
                ReserveMandate::Taker(mandate) => if !self.context_matches(context) {
                    Some("typed reserve differs from the signed Taker mandate"@)
                } else {
                    match mandate.digest {
                        Err(e) => Some(e@),
                        Ok(digest) => if context.taker_mandate_digest@ != digest@ || context.rfq_nullifier@
                            != mandate.rfq_nullifier@ {
                            Some("typed reserve differs from the signed Taker mandate"@)
                        } else {
                            None
                        },
                    }
                },
            },
        )
    }

    /// Allows a payment together with the context in which it is reserved.
    pub fn verify_context(&self, payment: &Payment, context: &ExecutionContext) -> (r: Result<(), String>)
        ensures
            match r {
                Ok(_) => self.context_refusal(*payment, *context) is None,
                Err(e) => self.context_refusal(*payment, *context) == Some(e@),
            },
    {
        if let Err(e) = self.verify_payment(&payment.amount_commitment, &payment.payer_handle, payment.deadline) {
            return Err(e);
        }
        match self {
            ReserveMandate::Maker(mandate) => {
                if context.scope != AuthorizationScope::Maker || context.direction != mandate.direction || !same32(
                    &context.venue_id,
                    &mandate.venue_id,
                ) || !same32(&context.defmi_id, &mandate.defmi_id) || !same32(
                    &context.maker_handle,
                    &mandate.maker_handle,
                ) || !same32(&context.maker_reservation_id, &mandate.reserve_id) || !same32(
                    &context.maker_policy_digest,
                    &mandate.policy_digest,
                ) {
                    return Err("typed reserve differs from the signed Maker mandate".to_owned());
                }
                match &mandate.digest {
                    Err(e) => {
                        return Err(told(e));
                    },
                    Ok(digest) => {
                        if !same32(&context.maker_mandate_digest, digest) || !is_zero32(&context.rfq_nullifier) {
                            return Err("typed reserve differs from the signed Maker mandate".to_owned());
                        }
                    },
                }
            },
            ReserveMandate::Taker(mandate) => {
                if context.scope != AuthorizationScope::Taker || context.direction != mandate.direction || !same32(
                    &context.venue_id,
                    &mandate.venue_id,
                ) || !same32(&context.defmi_id, &mandate.defmi_id) || !same32(
                    &context.taker_handle,
                    &mandate.taker_handle,
                ) || !same32(&context.taker_reservation_id, &mandate.reserve_id) {
                    return Err("typed reserve differs from the signed Taker mandate".to_owned());
                }
                match &mandate.digest {
                    Err(e) => {
                        return Err(told(e));
                    },
                    Ok(digest) => {
                        if !same32(&context.taker_mandate_digest, digest) || !same32(
                            &context.rfq_nullifier,
                            &mandate.rfq_nullifier,
                        ) {
                            return Err("typed reserve differs from the signed Taker mandate".to_owned());
                        }
                    },
                }
            },
        }
        Ok(())
    }
}

} // verus!
