//! Requests to a proof party and their answers, and what the node attests.

use vstd::prelude::*;
use crate::application_crypto::{can_sign, signs, Signature, SigningKey, VerifyingKey};
use crate::bytes::{put, same32, text_bytes};
use crate::digest::{hash, sha256};
use crate::fields::{either, hex_in, unless};
use crate::json::{as_text, as_unsigned, json_text, print_document, text_in, unsigned_in, Json, Value, MAX_NESTING};
use crate::lines::{MAX_REQUEST_BYTES, MAX_RESPONSE_BYTES};
use crate::order::{
    admissible_principal, admission_principal_digest, principal_message, principal_ticket_id,
    principal_ticket_message, Admission, Execution, NodeAdmissionAttestation, NodeExecutionAttestation,
};
use crate::proof_params::{hex32, hex32_refusal, job_id, job_id_refusal};
use crate::proof_state::ProofParty;
use crate::text::{decimal, decimal_text, same_text};
use vstd::string::StrSliceExecFns;

verus! {

/// The longest error in an answer, in characters.
pub const MAX_ERROR_CHARS: usize = 512;

/// The longest name of an operation, in bytes.
pub const MAX_METHOD_BYTES: usize = 128;

/// A request.
#[derive(Debug)]
pub struct ProofRequest {
    pub id: u64,
    pub method: String,
    pub params: Value,
}

/// The answer to a request.
#[derive(Debug)]
pub struct ProofResponse {
    pub id: u64,
    pub ok: bool,
    pub result: Option<Value>,
    pub error: Option<String>,
}

/// An error as it is answered: its first characters.
pub open spec fn shortened(error: Seq<char>) -> Seq<char> {
    if error.len() <= MAX_ERROR_CHARS {
        error
    } else {
        error.take(MAX_ERROR_CHARS as int)
    }
}

impl ProofResponse {
    /// The answer to a request of an outcome.
    pub fn of(id: u64, outcome: Result<Value, String>) -> (response: ProofResponse)
        ensures
            response.id == id,
            response.ok == (outcome is Ok),
            match outcome {
                Ok(value) => response.result == Some(value) && response.error is None,
                Err(e) => response.result is None && response.error is Some && (response.error->0)@ == shortened(e@),
            },
    {
        match outcome {
            Ok(value) => ProofResponse { id, ok: true, result: Some(value), error: None },
            Err(e) => {
                let text = e.as_str();
                let shown = if text.unicode_len() <= MAX_ERROR_CHARS {
                    text.to_owned()
                } else {
                    let head = text.substring_char(0, MAX_ERROR_CHARS);
                    assert(head@ =~= e@.take(MAX_ERROR_CHARS as int));
                    head.to_owned()
                };
                ProofResponse { id, ok: false, result: None, error: Some(shown) }
            },
        }
    }

    /// Whether the answer can be written: its result nests within bounds.
    pub open spec fn printable(self) -> bool {
        self.result matches Some(value) ==> value@.plain(MAX_NESTING as nat)
    }

    /// The line of an answer, without its newline.
    pub open spec fn line(self) -> Seq<u8> {
        text_bytes("{\"id\":"@) + text_bytes(decimal(self.id as nat)) + text_bytes(
            if self.ok { ",\"ok\":true"@ } else { ",\"ok\":false"@ },
        ) + match self.result {
            Some(value) => text_bytes(",\"result\":"@) + json_text(value@),
            None => Seq::empty(),
        } + match self.error {
            Some(error) => text_bytes(",\"error\":"@) + json_text(Json::Text(error@)),
            None => Seq::empty(),
        } + text_bytes("}"@)
    }
}

/// The line of an answer, without its newline.
pub fn encode_bounded_response(response: &ProofResponse) -> (r: Result<Vec<u8>, String>)
    requires
        response.printable(),
    ensures
        match r {
            Ok(line) => line@ == response.line() && line@.len() < MAX_RESPONSE_BYTES,
            Err(e) => {
                &&& response.line().len() + 1 > MAX_RESPONSE_BYTES
                &&& e@ == "proof-party response exceeds its fixed bound"@
            },
        },
{
    let mut line: Vec<u8> = Vec::new();
    put(&mut line, "{\"id\":".as_bytes());
    let id = decimal_text(response.id);
    put(&mut line, id.as_str().as_bytes());
    if response.ok {
        put(&mut line, ",\"ok\":true".as_bytes());
    } else {
        put(&mut line, ",\"ok\":false".as_bytes());
    }
    if let Some(value) = &response.result {
        let text = print_document(value);
        put(&mut line, ",\"result\":".as_bytes());
        put(&mut line, text.as_slice());
    }
    if let Some(error) = &response.error {
        let shown = Value::Text(error.as_str().to_owned());
        let text = print_document(&shown);
        put(&mut line, ",\"error\":".as_bytes());
        put(&mut line, text.as_slice());
    }
    put(&mut line, "}".as_bytes());
    assert(line@ =~= response.line());
    if line.len() >= MAX_RESPONSE_BYTES {
        return Err("proof-party response exceeds its fixed bound".to_owned());
    }
    Ok(line)
}

impl ProofRequest {
    /// The line of a request, without its newline.
    pub open spec fn line(self) -> Seq<u8> {
        text_bytes("{\"id\":"@) + text_bytes(decimal(self.id as nat)) + text_bytes(",\"method\":"@) + json_text(
            Json::Text(self.method@),
        ) + text_bytes(",\"params\":"@) + json_text(self.params@) + text_bytes("}"@)
    }

    /// The line of a request, without its newline.
    pub fn encode(&self) -> (r: Result<Vec<u8>, String>)
        requires
            self.params@.plain(MAX_NESTING as nat),
        ensures
            match r {
                Ok(line) => line@ == self.line() && line@.len() < MAX_REQUEST_BYTES,
                Err(e) => {
                    &&& self.line().len() + 1 > MAX_REQUEST_BYTES
                    &&& e@ == "proof-party request exceeds its fixed bound"@
                },
            },
    {
        let mut line: Vec<u8> = Vec::new();
        put(&mut line, "{\"id\":".as_bytes());
        let id = decimal_text(self.id);
        put(&mut line, id.as_str().as_bytes());
        put(&mut line, ",\"method\":".as_bytes());
        let named = Value::Text(self.method.as_str().to_owned());
        let method = print_document(&named);
        put(&mut line, method.as_slice());
        put(&mut line, ",\"params\":".as_bytes());
        let params = print_document(&self.params);
        put(&mut line, params.as_slice());
        put(&mut line, "}".as_bytes());
        assert(line@ =~= self.line());
        if line.len() >= MAX_REQUEST_BYTES {
            return Err("proof-party request exceeds its fixed bound".to_owned());
        }
        Ok(line)
    }
}

/// Why the name of an operation is not sent.
pub open spec fn method_refusal(method: Seq<char>) -> Option<Seq<char>> {
    unless(
        0 < text_bytes(method).len() <= MAX_METHOD_BYTES,
        "proof-party method is outside its fixed bound"@,
    )
}

/// Refuses a name that is empty or too long.
pub fn check_method(method: &str) -> (r: Result<(), String>)
    ensures
        match r {
            Ok(_) => method_refusal(method@) is None,
            Err(e) => method_refusal(method@) == Some(e@),
        },
{
    let length = method.as_bytes().len();
    if length == 0 || length > MAX_METHOD_BYTES {
        Err("proof-party method is outside its fixed bound".to_owned())
    } else {
        Ok(())
    }
}

/// The numbering of the requests of one client. A number is never used twice.
#[derive(Debug)]
pub struct CallCounter {
    pub next_id: u64,
}

impl CallCounter {
    /// No request made yet.
    pub fn new() -> (counter: CallCounter)
        ensures
            counter.next_id == 1,
    {
        CallCounter { next_id: 1 }
    }

    /// The number of the next request.
    pub fn take(&mut self) -> (r: Result<u64, String>)
        ensures
            match r {
                Ok(id) => id == old(self).next_id && final(self).next_id == id + 1,
                Err(e) => {
                    &&& old(self).next_id == u64::MAX
                    &&& e@ == "proof-party request identifier is exhausted"@
                    &&& *final(self) == *old(self)
                },
            },
    {
        if self.next_id == 0xffff_ffff_ffff_ffff {
            return Err("proof-party request identifier is exhausted".to_owned());
        }
        let id: u64 = self.next_id;
        self.next_id = id + 1;
        Ok(id)
    }
}

/// Why the answer to a request is no result.
pub open spec fn response_refusal(id: u64, response: ProofResponse) -> Option<Seq<char>> {
    if response.id != id {
        Some("proof-party response identifier does not match"@)
    } else if !response.ok {
        match response.error {
            Some(e) => Some(e@),
            None => Some("proof-party rejected the request"@),
        }
    } else {
        unless(response.result is Some, "proof-party success response has no result"@)
    }
}

/// The result of the answer to a request.
pub fn accept_response(id: u64, response: ProofResponse) -> (r: Result<Value, String>)
    ensures
        match r {
            Ok(value) => response_refusal(id, response) is None && response.result == Some(value),
            Err(e) => response_refusal(id, response) == Some(e@),
        },
{
    if response.id != id {
        return Err("proof-party response identifier does not match".to_owned());
    }
    if !response.ok {
        return match response.error {
            Some(e) => Err(e),
            None => Err("proof-party rejected the request".to_owned()),
        };
    }
    match response.result {
        Some(value) => Ok(value),
        None => Err("proof-party success response has no result".to_owned()),
    }
}

/// An operation of a proof party.
#[derive(Clone, Copy, Debug, PartialEq, Eq, Structural)]
pub enum Operation {
    FrostStatus,
    FrostIdentity,
    FrostConfigurePeers,
    FrostConfirmPeers,
    FrostDkgRound1,
    FrostDkgRound2,
    FrostDkgFinalize,
    AuthorizeReservePayment,
    AuthorizeReserveTyped,
    AuthorizeStandingPoolAllocation,
    AuthorizeZkpi,
    AuthorizeTyped,
    SignPublication,
    AuthorizeHealth,
    FrostCommit,
    FrostSign,
    Load,
    MakerHandleEvaluation,
    QuoteEvaluations,
    QuoteBind,
    QuoteRelationBind,
    QuoteRound1,
    QuoteRound2,
    QuoteFinalize,
    ZkpiEvaluations,
    ZkpiBind,
    ZkpiRound1,
    ZkpiRound2,
    LimitEvaluations,
    LimitBind,
    LimitRound1,
    LimitRound2,
    PoolRemainderEvaluations,
    PoolRemainderBind,
    PoolRemainderRound1,
    PoolRemainderRound2,
    DvpEvaluations,
    DvpBind,
    DvpRound1,
    DvpRound2,
    ClaimOpeningShare,
    SignAdmissionAttestation,
    SignExecutionAttestation,
    Complete,
    CompleteObserver,
    Health,
}

impl Operation {
    /// The name of an operation.
    pub open spec fn name(self) -> Seq<char> {
        match self {
            Operation::FrostStatus => "frost_status"@,
            Operation::FrostIdentity => "frost_identity"@,
            Operation::FrostConfigurePeers => "frost_configure_peers"@,
            Operation::FrostConfirmPeers => "frost_confirm_peers"@,
            Operation::FrostDkgRound1 => "frost_dkg_round1"@,
            Operation::FrostDkgRound2 => "frost_dkg_round2"@,
            Operation::FrostDkgFinalize => "frost_dkg_finalize"@,
            Operation::AuthorizeReservePayment => "authorize_reserve_payment"@,
            Operation::AuthorizeReserveTyped => "authorize_reserve_typed"@,
            Operation::AuthorizeStandingPoolAllocation => "authorize_standing_pool_allocation"@,
            Operation::AuthorizeZkpi => "authorize_zkpi"@,
            Operation::AuthorizeTyped => "authorize_typed"@,
            Operation::SignPublication => "sign_publication"@,
            Operation::AuthorizeHealth => "authorize_health"@,
            Operation::FrostCommit => "frost_commit"@,
            Operation::FrostSign => "frost_sign"@,
            Operation::Load => "load"@,
            Operation::MakerHandleEvaluation => "maker_handle_evaluation"@,
            Operation::QuoteEvaluations => "quote_evaluations"@,
            Operation::QuoteBind => "quote_bind"@,
            Operation::QuoteRelationBind => "quote_relation_bind"@,
            Operation::QuoteRound1 => "quote_round1"@,
            Operation::QuoteRound2 => "quote_round2"@,
            Operation::QuoteFinalize => "quote_finalize"@,
            Operation::ZkpiEvaluations => "zkpi_evaluations"@,
            Operation::ZkpiBind => "zkpi_bind"@,
            Operation::ZkpiRound1 => "zkpi_round1"@,
            Operation::ZkpiRound2 => "zkpi_round2"@,
            Operation::LimitEvaluations => "limit_evaluations"@,
            Operation::LimitBind => "limit_bind"@,
            Operation::LimitRound1 => "limit_round1"@,
            Operation::LimitRound2 => "limit_round2"@,
            Operation::PoolRemainderEvaluations => "pool_remainder_evaluations"@,
            Operation::PoolRemainderBind => "pool_remainder_bind"@,
            Operation::PoolRemainderRound1 => "pool_remainder_round1"@,
            Operation::PoolRemainderRound2 => "pool_remainder_round2"@,
            Operation::DvpEvaluations => "dvp_evaluations"@,
            Operation::DvpBind => "dvp_bind"@,
            Operation::DvpRound1 => "dvp_round1"@,
            Operation::DvpRound2 => "dvp_round2"@,
            Operation::ClaimOpeningShare => "claim_opening_share"@,
            Operation::SignAdmissionAttestation => "sign_admission_attestation"@,
            Operation::SignExecutionAttestation => "sign_execution_attestation"@,
            Operation::Complete => "complete"@,
            Operation::CompleteObserver => "complete_observer"@,
            Operation::Health => "health"@,
        }
    }

    /// Whether a name is that of an operation.
    pub open spec fn known(method: Seq<char>) -> bool {
        exists|operation: Operation| #[trigger] operation.name() == method
    }

    /// The operation of a name.
    pub fn read(method: &str) -> (r: Option<Operation>)
        ensures
            match r {
                Some(operation) => operation.name() == method@,
                None => !Operation::known(method@),
            },
    {
        if same_text(method, "frost_status") {
            return Some(Operation::FrostStatus);
        }
        if same_text(method, "frost_identity") {
            return Some(Operation::FrostIdentity);
        }
        if same_text(method, "frost_configure_peers") {
            return Some(Operation::FrostConfigurePeers);
        }
        if same_text(method, "frost_confirm_peers") {
            return Some(Operation::FrostConfirmPeers);
        }
        if same_text(method, "frost_dkg_round1") {
            return Some(Operation::FrostDkgRound1);
        }
        if same_text(method, "frost_dkg_round2") {
            return Some(Operation::FrostDkgRound2);
        }
        if same_text(method, "frost_dkg_finalize") {
            return Some(Operation::FrostDkgFinalize);
        }
        if same_text(method, "authorize_reserve_payment") {
            return Some(Operation::AuthorizeReservePayment);
        }
        if same_text(method, "authorize_reserve_typed") {
            return Some(Operation::AuthorizeReserveTyped);
        }
        if same_text(method, "authorize_standing_pool_allocation") {
            return Some(Operation::AuthorizeStandingPoolAllocation);
        }
        if same_text(method, "authorize_zkpi") {
            return Some(Operation::AuthorizeZkpi);
        }
        if same_text(method, "authorize_typed") {
            return Some(Operation::AuthorizeTyped);
        }
        if same_text(method, "sign_publication") {
            return Some(Operation::SignPublication);
        }
        if same_text(method, "authorize_health") {
            return Some(Operation::AuthorizeHealth);
        }
        if same_text(method, "frost_commit") {
            return Some(Operation::FrostCommit);
        }
        if same_text(method, "frost_sign") {
            return Some(Operation::FrostSign);
        }
        if same_text(method, "load") {
            return Some(Operation::Load);
        }
        if same_text(method, "maker_handle_evaluation") {
            return Some(Operation::MakerHandleEvaluation);
        }
        if same_text(method, "quote_evaluations") {
            return Some(Operation::QuoteEvaluations);
        }
        if same_text(method, "quote_bind") {
            return Some(Operation::QuoteBind);
        }
        if same_text(method, "quote_relation_bind") {
            return Some(Operation::QuoteRelationBind);
        }
        if same_text(method, "quote_round1") {
            return Some(Operation::QuoteRound1);
        }
        if same_text(method, "quote_round2") {
            return Some(Operation::QuoteRound2);
        }
        if same_text(method, "quote_finalize") {
            return Some(Operation::QuoteFinalize);
        }
        if same_text(method, "zkpi_evaluations") {
            return Some(Operation::ZkpiEvaluations);
        }
        if same_text(method, "zkpi_bind") {
            return Some(Operation::ZkpiBind);
        }
        if same_text(method, "zkpi_round1") {
            return Some(Operation::ZkpiRound1);
        }
        if same_text(method, "zkpi_round2") {
            return Some(Operation::ZkpiRound2);
        }
        if same_text(method, "limit_evaluations") {
            return Some(Operation::LimitEvaluations);
        }
        if same_text(method, "limit_bind") {
            return Some(Operation::LimitBind);
        }
        if same_text(method, "limit_round1") {
            return Some(Operation::LimitRound1);
        }
        if same_text(method, "limit_round2") {
            return Some(Operation::LimitRound2);
        }
        if same_text(method, "pool_remainder_evaluations") {
            return Some(Operation::PoolRemainderEvaluations);
        }
        if same_text(method, "pool_remainder_bind") {
            return Some(Operation::PoolRemainderBind);
        }
        if same_text(method, "pool_remainder_round1") {
            return Some(Operation::PoolRemainderRound1);
        }
        if same_text(method, "pool_remainder_round2") {
            return Some(Operation::PoolRemainderRound2);
        }
        if same_text(method, "dvp_evaluations") {
            return Some(Operation::DvpEvaluations);
        }
        if same_text(method, "dvp_bind") {
            return Some(Operation::DvpBind);
        }
        if same_text(method, "dvp_round1") {
            return Some(Operation::DvpRound1);
        }
        if same_text(method, "dvp_round2") {
            return Some(Operation::DvpRound2);
        }
        if same_text(method, "claim_opening_share") {
            return Some(Operation::ClaimOpeningShare);
        }
        if same_text(method, "sign_admission_attestation") {
            return Some(Operation::SignAdmissionAttestation);
        }
        if same_text(method, "sign_execution_attestation") {
            return Some(Operation::SignExecutionAttestation);
        }
        if same_text(method, "complete") {
            return Some(Operation::Complete);
        }
        if same_text(method, "complete_observer") {
            return Some(Operation::CompleteObserver);
        }
        if same_text(method, "health") {
            return Some(Operation::Health);
        }
        assert forall|operation: Operation| #[trigger] operation.name() != method@ by {
        }
        None
    }
}

/// Why a request for an admission attestation cannot be read.
pub open spec fn admission_request_refusal(params: Json) -> Option<Seq<char>> {
    either(unless(unsigned_in(params.field("slot"@)) is Some, "admission slot must be an unsigned integer"@),
    either(unless(unsigned_in(params.field("sequence"@)) is Some, "admission sequence must be an unsigned integer"@),
    either(unless(text_in(params.field("principal"@)) is Some, "admission principal must be a string"@),
    either(hex32_refusal(params.field("ticket_id"@), "ticket_id"@),
    either(hex32_refusal(params.field("claim_digest"@), "claim_digest"@),
    either(hex32_refusal(params.field("batch_digest"@), "batch_digest"@),
    hex32_refusal(params.field("order_digest"@), "order_digest"@)))))))
}

/// What a node is asked to attest of an admitted order.
#[derive(Debug)]
pub struct AdmissionRequest {
    pub slot: u64,
    pub sequence: u64,
    pub principal: String,
    pub ticket_id: [u8; 32],
    pub claim_digest: [u8; 32],
    pub batch_digest: [u8; 32],
    pub order_digest: [u8; 32],
}

/// Reads a request for an admission attestation.
pub fn admission_request(params: &Value) -> (r: Result<AdmissionRequest, String>)
    ensures
        match r {
            Ok(request) => {
                &&& admission_request_refusal(params@) is None
                &&& unsigned_in(params@.field("slot"@)) == Some(request.slot as nat)
                &&& unsigned_in(params@.field("sequence"@)) == Some(request.sequence as nat)
                &&& text_in(params@.field("principal"@)) == Some(request.principal@)
                &&& request.ticket_id@ == hex_in(params@.field("ticket_id"@))
                &&& request.claim_digest@ == hex_in(params@.field("claim_digest"@))
                &&& request.batch_digest@ == hex_in(params@.field("batch_digest"@))
                &&& request.order_digest@ == hex_in(params@.field("order_digest"@))
            },
            Err(e) => admission_request_refusal(params@) == Some(e@),
        },
{
    let slot = match as_unsigned(params.get("slot")) {
        None => {
            return Err("admission slot must be an unsigned integer".to_owned());
        },
        Some(value) => value,
    };
    let sequence = match as_unsigned(params.get("sequence")) {
        None => {
            return Err("admission sequence must be an unsigned integer".to_owned());
        },
        Some(value) => value,
    };
    let principal = match as_text(params.get("principal")) {
        None => {
            return Err("admission principal must be a string".to_owned());
        },
        Some(value) => value,
    };
    let ticket_id = match hex32(params.get("ticket_id"), "ticket_id") {
        Err(e) => {
            return Err(e);
        },
        Ok(value) => value,
    };
    let claim_digest = match hex32(params.get("claim_digest"), "claim_digest") {
        Err(e) => {
            return Err(e);
        },
        Ok(value) => value,
    };
    let batch_digest = match hex32(params.get("batch_digest"), "batch_digest") {
        Err(e) => {
            return Err(e);
        },
        Ok(value) => value,
    };
    let order_digest = match hex32(params.get("order_digest"), "order_digest") {
        Err(e) => {
            return Err(e);
        },
        Ok(value) => value,
    };
    Ok(
        AdmissionRequest {
            slot,
            sequence,
            principal: principal.to_owned(),
            ticket_id,
            claim_digest,
            batch_digest,
            order_digest,
        },
    )
}

/// What a node tells of itself.
#[derive(Debug)]
pub struct Health {
    pub node: u16,
    pub instance_id: [u8; 32],
    pub security_configuration_digest: [u8; 32],
    pub active_jobs: usize,
    pub reserved_jobs: usize,
    pub completed_jobs: usize,
    pub frost_ready: bool,
    pub frost_public_package_sha256: Option<[u8; 32]>,
    pub frost_reserved_jobs: usize,
    pub frost_consumed_jobs: usize,
    pub frost_authorized_jobs: usize,
    pub state_generation: u64,
}

impl<N, B, S> ProofParty<N, B, S> {
    /// Why a request is not dispatched.
    pub open spec fn dispatch_refusal(self, method: Seq<char>) -> Option<Seq<char>> {
        either(
            unless(self.state_healthy, "proof-party durable state is unavailable; node is fail-closed"@),
            unless(Operation::known(method), "unknown proof-party operation"@),
        )
    }

    /// The operation that a request asks for. A node whose state could not be
    /// written refuses every one.
    pub fn dispatch(&self, method: &str) -> (r: Result<Operation, String>)
        ensures
            match r {
                Ok(operation) => self.dispatch_refusal(method@) is None && operation.name() == method@,
                Err(e) => self.dispatch_refusal(method@) == Some(e@),
            },
    {
        if !self.state_healthy {
            return Err("proof-party durable state is unavailable; node is fail-closed".to_owned());
        }
        match Operation::read(method) {
            None => Err("unknown proof-party operation".to_owned()),
            Some(operation) => Ok(operation),
        }
    }

    /// The digest that names this node, its keys and its configuration.
    pub open spec fn instance(self) -> Seq<u8> {
        sha256(
            text_bytes("QOMM:PROOF-PARTY:INSTANCE:v3"@) + self.application_identity.public.bytes@ + sha256(
                self.config.security_message(),
            ) + self.identity_public@,
        )
    }

    /// The digest that names this node, its keys and its configuration.
    pub fn instance_id(&self) -> (id: [u8; 32])
        ensures
            id@ == self.instance(),
    {
        let mut text: Vec<u8> = Vec::new();
        put(&mut text, "QOMM:PROOF-PARTY:INSTANCE:v3".as_bytes());
        put(&mut text, self.application_identity.public.bytes.as_slice());
        let digest = self.config.security_digest();
        put(&mut text, digest.as_slice());
        put(&mut text, self.identity_public.as_slice());
        assert(text@ =~= text_bytes("QOMM:PROOF-PARTY:INSTANCE:v3"@) + self.application_identity.public.bytes@ + digest@
            + self.identity_public@);
        hash(text.as_slice())
    }

    /// The fingerprint of the application identity.
    pub fn application_verifying_key(&self) -> (key: VerifyingKey)
        ensures
            key == self.application_identity.public,
    {
        self.application_identity.verifying_key()
    }

    /// Why a node attests no admission.
    pub open spec fn admission_refusal(self, slot: u64, principal: Seq<char>, ticket_id: Seq<u8>) -> Option<Seq<char>> {
        either(unless(self.state_healthy, "proof-party durable state is unavailable; node is fail-closed"@),
        either(unless(slot <= u32::MAX, "admission slot is outside the resident-node range"@),
        either(unless(admissible_principal(principal), "admission principal must contain 1..512 bytes"@),
        unless(sha256(principal_ticket_message(slot as nat, principal)) == ticket_id,
            "admission ticket does not match the authenticated principal and slot"@))))
    }

    /// The attestation of an admission before it is signed.
    pub open spec fn admission_of(self, request: AdmissionRequest) -> Admission {
        Admission {
            node: self.config.node as nat,
            slot: request.slot as nat,
            sequence: request.sequence as nat,
            principal_digest: sha256(principal_message(request.principal@)),
            ticket_id: request.ticket_id@,
            claim_digest: request.claim_digest@,
            batch_digest: request.batch_digest@,
            order_digest: request.order_digest@,
            signature: Seq::empty(),
        }
    }

    /// Signs the exact legal-entity claim and node-local share batch admitted at
    /// the execution boundary. The node recomputes the slot-bound ticket and the
    /// principal's digest, so nobody can replace the claim or make up an order
    /// afterwards.
    pub fn sign_admission_attestation<G: Fn(&SigningKey, &Vec<u8>) -> Result<Signature, String>>(
        &self,
        request: &AdmissionRequest,
        sign: &G,
    ) -> (r: Result<(NodeAdmissionAttestation, [u8; 32]), String>)
        requires
            can_sign(*sign),
        ensures
            match self.admission_refusal(request.slot, request.principal@, request.ticket_id@) {
                Some(e) => r matches Err(f) && f@ == e,
                None => {
                    let unsigned = self.admission_of(*request);
                    if !unsigned.complete() {
                        r matches Err(e) && e@ == "node admission attestation is incomplete"@
                    } else {
                        match r {
                            Ok((signed, key)) => {
                                &&& signed@ == (Admission { signature: signed.signature@, ..unsigned })
                                &&& signs(*sign, self.application_identity, unsigned.body(), Ok(signed.signature@))
                                &&& key@ == self.application_identity.public.bytes@
                            },
                            Err(e) => signs(*sign, self.application_identity, unsigned.body(), Err(e@)),
                        }
                    }
                },
            },
    {
        if !self.state_healthy {
            return Err("proof-party durable state is unavailable; node is fail-closed".to_owned());
        }
        if request.slot > 0xffff_ffff {
            return Err("admission slot is outside the resident-node range".to_owned());
        }
        let slot: u32 = request.slot as u32;
        let expected = match principal_ticket_id(slot, request.principal.as_str()) {
            Err(e) => {
                return Err(e);
            },
            Ok(value) => value,
        };
        if !same32(&expected, &request.ticket_id) {
            return Err("admission ticket does not match the authenticated principal and slot".to_owned());
        }
        let principal_digest = match admission_principal_digest(request.principal.as_str()) {
            Err(e) => {
                return Err(e);
            },
            Ok(value) => value,
        };
        let attestation = NodeAdmissionAttestation {
            node: self.config.node,
            slot: request.slot,
            sequence: request.sequence,
            principal_digest,
            ticket_id: request.ticket_id,
            claim_digest: request.claim_digest,
            batch_digest: request.batch_digest,
            order_digest: request.order_digest,
            signature: Signature { bytes: Vec::new() },
        };
        assert(attestation@.signature =~= Seq::empty());
        match attestation.sign(&self.application_identity, sign) {
            Err(e) => Err(e),
            Ok(signed) => Ok((signed, self.application_identity.public.bytes)),
        }
    }

    /// Has this node's masked public result signed by `sign`, and by no other node's.
    pub fn sign_public_result_attestation<A, G: FnOnce(&SigningKey) -> Result<A, String>>(
        &self,
        node: u16,
        sign: G,
    ) -> (r: Result<(A, [u8; 32]), String>)
        requires
            forall|key: &SigningKey| call_requires(sign, (key,)),
        ensures
            if !self.state_healthy {
                r matches Err(e) && e@ == "proof-party durable state is unavailable; node is fail-closed"@
            } else if node != self.config.node {
                r matches Err(e) && e@ == "public MPC result was routed to another resident node"@
            } else {
                match r {
                    Ok((signed, key)) => {
                        &&& call_ensures(sign, (&self.application_identity,), Ok::<A, String>(signed))
                        &&& key@ == self.application_identity.public.bytes@
                    },
                    Err(e) => call_ensures(sign, (&self.application_identity,), Err::<A, String>(e)),
                }
            },
    {
        if !self.state_healthy {
            return Err("proof-party durable state is unavailable; node is fail-closed".to_owned());
        }
        if node != self.config.node {
            return Err("public MPC result was routed to another resident node".to_owned());
        }
        match sign(&self.application_identity) {
            Err(e) => Err(e),
            Ok(signed) => Ok((signed, self.application_identity.public.bytes)),
        }
    }

    /// Why a request for an execution attestation is refused.
    pub open spec fn execution_refusal(self, params: Json) -> Option<Seq<char>> {
        let generation = unsigned_in(params.field("state_generation"@));
        either(job_id_refusal(params),
        either(hex32_refusal(params.field("batch_digest"@), "batch_digest"@),
        either(hex32_refusal(params.field("source_digest"@), "source_digest"@),
        either(hex32_refusal(params.field("stdout_digest"@), "stdout_digest"@),
        either(hex32_refusal(params.field("stderr_digest"@), "stderr_digest"@),
        either(unless(unsigned_in(params.field("slot"@)) is Some, "execution slot must be an unsigned integer"@),
        either(unless(unsigned_in(params.field("lane"@)) is Some, "execution lane must be an unsigned integer"@),
        either(unless(generation is Some && generation->0 != 0, "execution generation must be positive"@),
        either(unless(unsigned_in(params.field("frame_count"@)) is Some, "execution frame count must be unsigned"@),
        either(unless(unsigned_in(params.field("input_count"@)) is Some, "execution input count must be unsigned"@),
        either(unless(self.jobs.has(hex_in(params.field("job_id"@))), "execution attestation proof job is not active"@),
        unless(unsigned_in(params.field("slot"@))->0 <= u32::MAX,
            "execution receipt slot is outside the MPC range"@))))))))))))
    }

    /// Whether an execution is the one that a request asks to attest, over the
    /// persistence that this node loaded.
    pub open spec fn execution_said(self, params: Json, attested: Execution) -> bool {
        &&& attested.node == self.config.node
        &&& unsigned_in(params.field("slot"@)) == Some(attested.slot as nat)
        &&& unsigned_in(params.field("lane"@)) == Some(attested.lane as nat)
        &&& attested.batch_digest == hex_in(params.field("batch_digest"@))
        &&& attested.source_digest == hex_in(params.field("source_digest"@))
        &&& unsigned_in(params.field("state_generation"@)) == Some(attested.state_generation as nat)
        &&& unsigned_in(params.field("frame_count"@)) == Some(attested.frame_count as nat)
        &&& unsigned_in(params.field("input_count"@)) == Some(attested.input_count as nat)
        &&& attested.stdout_digest == hex_in(params.field("stdout_digest"@))
        &&& attested.stderr_digest == hex_in(params.field("stderr_digest"@))
        &&& attested.persistence_digest == self.jobs.at(hex_in(params.field("job_id"@))).persistence_digest@
        &&& attested.receipt_digest == sha256(attested.receipt_message())
        &&& attested.signature == Seq::<u8>::empty()
    }

    /// Signs the receipt of a job's execution over the persistence that this node
    /// loaded itself.
    pub fn sign_execution_attestation<G: Fn(&SigningKey, &Vec<u8>) -> Result<Signature, String>>(
        &self,
        params: &Value,
        sign: &G,
    ) -> (r: Result<NodeExecutionAttestation, String>)
        requires
            self.ordered(),
            can_sign(*sign),
        ensures
            match self.execution_refusal(params@) {
                Some(e) => r matches Err(f) && f@ == e,
                None => exists|unsigned: Execution| #[trigger]
                    self.execution_said(params@, unsigned) && if !unsigned.complete() {
                        r matches Err(e) && e@ == unsigned.refusal()
                    } else {
                        match r {
                            Ok(signed) => {
                                &&& signed@ == (Execution { signature: signed.signature@, ..unsigned })
                                &&& signs(*sign, self.application_identity, unsigned.body(), Ok(signed.signature@))
                            },
                            Err(e) => signs(*sign, self.application_identity, unsigned.body(), Err(e@)),
                        }
                    },
            },
    {
        let id = match job_id(params) {
            Err(e) => {
                return Err(e);
            },
            Ok(value) => value,
        };
        let batch_digest = match hex32(params.get("batch_digest"), "batch_digest") {
            Err(e) => {
                return Err(e);
            },
            Ok(value) => value,
        };
        let source_digest = match hex32(params.get("source_digest"), "source_digest") {
            Err(e) => {
                return Err(e);
            },
            Ok(value) => value,
        };
        let stdout_digest = match hex32(params.get("stdout_digest"), "stdout_digest") {
            Err(e) => {
                return Err(e);
            },
            Ok(value) => value,
        };
        let stderr_digest = match hex32(params.get("stderr_digest"), "stderr_digest") {
            Err(e) => {
                return Err(e);
            },
            Ok(value) => value,
        };
        let slot = match as_unsigned(params.get("slot")) {
            None => {
                return Err("execution slot must be an unsigned integer".to_owned());
            },
            Some(value) => value,
        };
        let lane = match as_unsigned(params.get("lane")) {
            None => {
                return Err("execution lane must be an unsigned integer".to_owned());
            },
            Some(value) => value,
        };
        let state_generation = match as_unsigned(params.get("state_generation")) {
            None => {
                return Err("execution generation must be positive".to_owned());
            },
            Some(value) => value,
        };
        if state_generation == 0 {
            return Err("execution generation must be positive".to_owned());
        }
        let frame_count = match as_unsigned(params.get("frame_count")) {
            None => {
                return Err("execution frame count must be unsigned".to_owned());
            },
            Some(value) => value,
        };
        let input_count = match as_unsigned(params.get("input_count")) {
            None => {
                return Err("execution input count must be unsigned".to_owned());
            },
            Some(value) => value,
        };
        let persistence_digest = match self.jobs.get(&id) {
            None => {
                return Err("execution attestation proof job is not active".to_owned());
            },
            Some(job) => job.persistence_digest,
        };
        let zero: [u8; 32] = [0u8; 32];
        let mut attestation = NodeExecutionAttestation {
            node: self.config.node,
            slot,
            lane,
            batch_digest,
            source_digest,
            state_generation,
            frame_count,
            input_count,
            stdout_digest,
            stderr_digest,
            persistence_digest,
            receipt_digest: zero,
            signature: Signature { bytes: Vec::new() },
        };
        let ghost message = attestation@.receipt_message();
        match attestation.recompute_receipt_digest() {
            Err(e) => {
                return Err(e);
            },
            Ok(digest) => {
                attestation.receipt_digest = digest;
            },
        }
        let ghost unsigned = attestation@;
        proof {
            assert(unsigned.receipt_message() =~= message);
            assert(unsigned.signature =~= Seq::empty());
            assert(self.execution_said(params@, unsigned));
        }
        attestation.sign(&self.application_identity, sign)
    }

    /// What a node tells of itself.
    pub fn health(&self) -> (health: Health)
        ensures
            health.node == self.config.node,
            health.instance_id@ == self.instance(),
            health.security_configuration_digest@ == sha256(self.config.security_message()),
            health.active_jobs == self.jobs.count(),
            health.reserved_jobs == self.reserved.count(),
            health.completed_jobs == self.completed.count(),
            health.frost_ready == (self.frost_key is Some),
            match self.frost_key {
                None => health.frost_public_package_sha256 is None,
                Some(key) => {
                    &&& health.frost_public_package_sha256 is Some
                    &&& (health.frost_public_package_sha256->0)@ == sha256(key.public_package@)
                },
            },
            health.frost_reserved_jobs == self.frost_reserved.count(),
            health.frost_consumed_jobs == self.frost_consumed.count(),
            health.frost_authorized_jobs == self.frost_authorized.count(),
            health.state_generation == self.state_generation,
    {
        let package = match &self.frost_key {
            None => None,
            Some(key) => Some(hash(key.public_package.as_slice())),
        };
        Health {
            node: self.config.node,
            instance_id: self.instance_id(),
            security_configuration_digest: self.config.security_digest(),
            active_jobs: self.jobs.len(),
            reserved_jobs: self.reserved.len(),
            completed_jobs: self.completed.len(),
            frost_ready: self.frost_key.is_some(),
            frost_public_package_sha256: package,
            frost_reserved_jobs: self.frost_reserved.len(),
            frost_consumed_jobs: self.frost_consumed.len(),
            frost_authorized_jobs: self.frost_authorized.len(),
            state_generation: self.state_generation,
        }
    }
}

} // verus!
