//! The rounds of a complete quote proof on one node, and the openings that
//! follow a settlement proof.

use vstd::prelude::*;
use crate::bytes::{copied, same32};
use crate::fields::{either, first, first_at, hex_in, unless};
use crate::group::Point;
use crate::json::{array_in, as_array, as_text, as_unsigned, json_document, text_in, unsigned_in, Json, Value};
use crate::proof_config::{ProofPartyConfig, RecipientOpeningKey};
use crate::oracle::{attempt, fault, tries};
use crate::proof_mandate::refused;
use crate::proof_params::{
    canonical_point_refusal, decode_wires, job_id, job_id_refusal, one_wire, one_wire_refusal, point, quote_public,
    quote_public_refusal, statement_said, wire_in, wires_refusal, QuoteStatement,
};
use crate::proof_settle::job_change_keeps_lifecycle;
use crate::proof_state::{OpeningShares, ProofJob, ProofParty};
use crate::quote_messages::{kind_of, Envelope, Message};
use crate::quote_wire::{decode, decode_refusal, envelope_said};
use crate::rounds::{bind_done, round1_done, round2_done};
use crate::text::{about, same_text};

verus! {

/// The kind of a message.
pub fn message_kind(message: &Message) -> (kind: &'static str)
    ensures
        kind@ == kind_of(*message),
{
    match message {
        Message::Evaluations(_) => "evaluations",
        Message::RelationEvaluations(_) => "relations",
        Message::Round1Seal(_) => "round1-seal",
        Message::Round1(_) => "round1",
        Message::Challenge(_) => "challenge",
        Message::Round2(_) => "round2",
    }
}

/// Why a wire is not a message of a job, and of a kind where one is asked for.
pub open spec fn quote_wire_refusal(
    raw: Seq<u8>,
    job: Seq<u8>,
    kind: Option<Seq<char>>,
    complaint: Seq<char>,
) -> Option<Seq<char>> {
    let document = json_document(raw)->0;
    either(
        decode_refusal(raw),
        unless(
            hex_in(document.field("job"@)) == job && (kind is None || text_in(document.field("kind"@)) == kind),
            complaint,
        ),
    )
}

/// The check of one wire.
pub open spec fn quote_wire_check(
    job: Seq<u8>,
    kind: Option<Seq<char>>,
    complaint: Seq<char>,
) -> spec_fn(Seq<u8>) -> Option<Seq<char>> {
    |raw: Seq<u8>| quote_wire_refusal(raw, job, kind, complaint)
}

/// The wires that a request carries under a name.
pub open spec fn wires_in(params: Json, name: Seq<char>) -> Seq<Seq<u8>> {
    let values = array_in(params.field(name))->0;
    Seq::new(values.len(), |i: int| wire_in(Some(values[i])))
}

/// Why a request carries no messages of a job under a name.
pub open spec fn quote_wires_refusal(
    params: Json,
    name: Seq<char>,
    job: Seq<u8>,
    kind: Option<Seq<char>>,
    complaint: Seq<char>,
) -> Option<Seq<char>> {
    either(wires_refusal(params, name), first(wires_in(params, name), quote_wire_check(job, kind, complaint)))
}

/// Whether envelopes are those of wires, in their order.
pub open spec fn envelopes_said(wires: Seq<Seq<u8>>, envelopes: Seq<Envelope>) -> bool {
    &&& envelopes.len() == wires.len()
    &&& forall|i: int|
        #![trigger envelopes[i]]
        0 <= i < envelopes.len() ==> envelope_said(json_document(wires[i])->0, envelopes[i])
}

/// The text of a kind that may be left open.
pub open spec fn kind_text(kind: Option<&str>) -> Option<Seq<char>> {
    match kind {
        Some(text) => Some(text@),
        None => None,
    }
}

/// Reads one message of a job.
pub fn read_quote_wire(raw: &Vec<u8>, job: &[u8; 32], kind: Option<&str>, complaint: &str) -> (r: Result<Envelope,
    String>)
    ensures
        match r {
            Ok(envelope) => {
                &&& quote_wire_refusal(raw@, job@, kind_text(kind), complaint@) is None
                &&& envelope_said(json_document(raw@)->0, envelope)
            },
            Err(e) => quote_wire_refusal(raw@, job@, kind_text(kind), complaint@) == Some(e@),
        },
{
    let envelope = match decode(raw.as_slice()) {
        Err(e) => {
            return Err(e);
        },
        Ok(envelope) => envelope,
    };
    let right_kind = match kind {
        None => true,
        Some(text) => same_text(message_kind(&envelope.message), text),
    };
    if same32(&envelope.job_id, job) && right_kind {
        Ok(envelope)
    } else {
        Err(complaint.to_owned())
    }
}

/// Reads the messages of a job under a name.
#[verifier::loop_isolation(false)]
pub fn quote_wires(params: &Value, name: &str, job: &[u8; 32], kind: Option<&str>, complaint: &str) -> (r: Result<
    Vec<Envelope>,
    String,
>)
    ensures
        match r {
            Ok(envelopes) => {
                &&& quote_wires_refusal(params@, name@, job@, kind_text(kind), complaint@) is None
                &&& envelopes_said(wires_in(params@, name@), envelopes@)
            },
            Err(e) => quote_wires_refusal(params@, name@, job@, kind_text(kind), complaint@) == Some(e@),
        },
{
    let wires = match decode_wires(params, name) {
        Err(e) => {
            return Err(e);
        },
        Ok(wires) => wires,
    };
    let ghost all = wires_in(params@, name@);
    let ghost check = quote_wire_check(job@, kind_text(kind), complaint@);
    let mut envelopes: Vec<Envelope> = Vec::new();
    let mut i: usize = 0;
    assert(all.take(0) =~= Seq::empty());
    while i < wires.len()
        invariant
            i <= wires@.len(),
            envelopes@.len() == i,
            first(all.take(i as int), check) is None,
            forall|j: int|
                #![trigger envelopes@[j]]
                0 <= j < i ==> envelope_said(json_document(all[j])->0, envelopes@[j]),
        decreases wires@.len() - i,
    {
        proof {
            first_at(all, check, i as int);
            assert(wires@[i as int]@ == all[i as int]);
        }
        match read_quote_wire(&wires[i], job, kind, complaint) {
            Err(e) => {
                return Err(e);
            },
            Ok(envelope) => {
                envelopes.push(envelope);
            },
        }
        i = i + 1;
    }
    assert(all.take(i as int) =~= all);
    Ok(envelopes)
}

/// Why messages are not all of a kind.
pub open spec fn kinds_refusal(envelopes: Seq<Envelope>, kind: Seq<char>, complaint: Seq<char>) -> Option<Seq<char>> {
    unless(
        forall|i: int| 0 <= i < envelopes.len() ==> kind_of((#[trigger] envelopes[i]).message) == kind,
        complaint,
    )
}

fn check_kinds(envelopes: &Vec<Envelope>, kind: &str, complaint: &str) -> (r: Result<(), String>)
    ensures
        match r {
            Ok(_) => kinds_refusal(envelopes@, kind@, complaint@) is None,
            Err(e) => kinds_refusal(envelopes@, kind@, complaint@) == Some(e@),
        },
{
    let mut i: usize = 0;
    while i < envelopes.len()
        invariant
            i <= envelopes@.len(),
            forall|j: int| 0 <= j < i ==> kind_of((#[trigger] envelopes@[j]).message) == kind@,
        decreases envelopes@.len() - i,
    {
        if !same_text(message_kind(&envelopes[i].message), kind) {
            return Err(complaint.to_owned());
        }
        i = i + 1;
    }
    Ok(())
}

/// The evaluations and the statement that a quote is bound to.
#[derive(Debug)]
pub struct QuoteBindRequest {
    pub id: [u8; 32],
    pub evaluations: Vec<Envelope>,
    pub statement: QuoteStatement,
}

/// A statement that was made of a request to bind a quote.
#[derive(Debug)]
pub struct StatedQuote<St> {
    pub statement: St,
    pub request: QuoteBindRequest,
}

/// The challenge of a quote, with the public statement that it is answered for.
#[derive(Debug)]
pub struct QuoteChallenge {
    pub public: Option<QuoteStatement>,
    pub challenge: Envelope,
}

/// Why a request to bind a quote is refused before its statement is made.
pub open spec fn quote_bind_request_refusal(params: Json) -> Option<Seq<char>> {
    let id = hex_in(params.field("job_id"@));
    either(job_id_refusal(params),
    either(quote_wires_refusal(params, "evaluations"@, id, Some("evaluations"@),
        "quote bind received another job or message type"@),
    quote_public_refusal(params)))
}

/// Reads the evaluations and the public statement that a quote is bound to.
pub fn quote_bind_request(params: &Value) -> (r: Result<QuoteBindRequest, String>)
    ensures
        match r {
            Ok(request) => {
                &&& quote_bind_request_refusal(params@) is None
                &&& request.id@ == hex_in(params@.field("job_id"@))
                &&& envelopes_said(wires_in(params@, "evaluations"@), request.evaluations@)
                &&& statement_said(params@, request.statement)
            },
            Err(e) => quote_bind_request_refusal(params@) == Some(e@),
        },
{
    let id = match job_id(params) {
        Err(e) => {
            return Err(e);
        },
        Ok(value) => value,
    };
    let evaluations = match quote_wires(params, "evaluations", &id, Some("evaluations"),
        "quote bind received another job or message type") {
        Err(e) => {
            return Err(e);
        },
        Ok(value) => value,
    };
    let statement = match quote_public(params) {
        Err(e) => {
            return Err(e);
        },
        Ok(value) => value,
    };
    Ok(QuoteBindRequest { id, evaluations, statement })
}

/// The messages that a quote proof is assembled from.
#[derive(Debug)]
pub struct QuoteFinalizeRequest {
    pub id: [u8; 32],
    pub rounds: Vec<Envelope>,
    pub seals: Vec<Envelope>,
    pub responses: Vec<Envelope>,
    pub quorum: Vec<usize>,
}

/// Whether a document names a party of the committee.
pub open spec fn is_member(value: Json, parties: nat) -> bool {
    &&& unsigned_in(Some(value)) is Some
    &&& 1 <= unsigned_in(Some(value))->0 <= parties
}

/// Why a request names no quorum.
pub open spec fn members_refusal(params: Json, parties: nat) -> Option<Seq<char>> {
    match array_in(params.field("quorum"@)) {
        None => Some("quote quorum must be an array"@),
        Some(values) => unless(
            forall|i: int| 0 <= i < values.len() ==> is_member(#[trigger] values[i], parties),
            "quote quorum party is invalid"@,
        ),
    }
}

/// Whether a quorum is the one that a request names.
pub open spec fn members_said(values: Seq<Json>, quorum: Seq<usize>) -> bool {
    &&& quorum.len() == values.len()
    &&& forall|i: int| 0 <= i < quorum.len() ==> unsigned_in(Some(values[i])) == Some(#[trigger] quorum[i] as nat)
}

#[verifier::loop_isolation(false)]
fn read_quorum(params: &Value, parties: usize) -> (r: Result<Vec<usize>, String>)
    ensures
        match r {
            Ok(quorum) => {
                &&& members_refusal(params@, parties as nat) is None
                &&& members_said(array_in(params@.field("quorum"@))->0, quorum@)
            },
            Err(e) => members_refusal(params@, parties as nat) == Some(e@),
        },
{
    let values = match as_array(params.get("quorum")) {
        None => {
            return Err("quote quorum must be an array".to_owned());
        },
        Some(value) => value,
    };
    let ghost all = array_in(params@.field("quorum"@))->0;
    let mut quorum: Vec<usize> = Vec::new();
    let mut i: usize = 0;
    while i < values.len()
        invariant
            i <= values@.len(),
            quorum@.len() == i,
            forall|j: int| 0 <= j < i ==> is_member(#[trigger] all[j], parties as nat),
            forall|j: int| 0 <= j < i ==> unsigned_in(Some(all[j])) == Some(#[trigger] quorum@[j] as nat),
        decreases values@.len() - i,
    {
        assert(all[i as int] == values@[i as int]@);
        match as_unsigned(Some(&values[i])) {
            None => {
                assert(!is_member(all[i as int], parties as nat));
                return Err("quote quorum party is invalid".to_owned());
            },
            Some(party) => {
                if party < 1 || party > parties as u64 {
                    assert(!is_member(all[i as int], parties as nat));
                    return Err("quote quorum party is invalid".to_owned());
                }
                quorum.push(party as usize);
            },
        }
        i = i + 1;
    }
    Ok(quorum)
}

/// Whether the messages of a name are all of a kind, by what their wires say.
pub open spec fn kinds_said(params: Json, name: Seq<char>, kind: Seq<char>) -> bool {
    let wires = wires_in(params, name);
    forall|i: int|
        0 <= i < wires.len() ==> text_in((json_document(#[trigger] wires[i])->0).field("kind"@)) == Some(kind)
}

/// A leg of a settlement whose opening is claimed.
#[derive(Clone, Copy, Debug, PartialEq, Eq, Structural)]
pub enum Leg {
    SecuritiesDelivery,
    SecuritiesRefund,
    CashDelivery,
    CashRefund,
}

impl Leg {
    /// The name of a leg.
    pub open spec fn name(self) -> Seq<char> {
        match self {
            Leg::SecuritiesDelivery => "securities_delivery"@,
            Leg::SecuritiesRefund => "securities_refund"@,
            Leg::CashDelivery => "cash_delivery"@,
            Leg::CashRefund => "cash_refund"@,
        }
    }

    /// The leg of a name.
    pub open spec fn named(text: Seq<char>) -> Option<Leg> {
        if text == "securities_delivery"@ {
            Some(Leg::SecuritiesDelivery)
        } else if text == "securities_refund"@ {
            Some(Leg::SecuritiesRefund)
        } else if text == "cash_delivery"@ {
            Some(Leg::CashDelivery)
        } else if text == "cash_refund"@ {
            Some(Leg::CashRefund)
        } else {
            None
        }
    }

    fn read(text: &str) -> (leg: Option<Leg>)
        ensures
            leg == Leg::named(text@),
    {
        if same_text(text, "securities_delivery") {
            Some(Leg::SecuritiesDelivery)
        } else if same_text(text, "securities_refund") {
            Some(Leg::SecuritiesRefund)
        } else if same_text(text, "cash_delivery") {
            Some(Leg::CashDelivery)
        } else if same_text(text, "cash_refund") {
            Some(Leg::CashRefund)
        } else {
            None
        }
    }

    /// Whether the opening of a leg goes to the Maker: the payer of securities
    /// has them delivered to the payee of cash, and each side has what remains
    /// of its own reserve.
    pub open spec fn for_maker(self, maker_is_payer: bool) -> bool {
        match self {
            Leg::SecuritiesDelivery => maker_is_payer,
            Leg::SecuritiesRefund => !maker_is_payer,
            Leg::CashDelivery => !maker_is_payer,
            Leg::CashRefund => maker_is_payer,
        }
    }

    fn goes_to_maker(self, maker_is_payer: bool) -> (r: bool)
        ensures
            r == self.for_maker(maker_is_payer),
    {
        match self {
            Leg::SecuritiesDelivery => maker_is_payer,
            Leg::SecuritiesRefund => !maker_is_payer,
            Leg::CashDelivery => !maker_is_payer,
            Leg::CashRefund => maker_is_payer,
        }
    }
}

/// What was given out for a leg.
pub open spec fn share_of(shares: OpeningShares, leg: Leg) -> Option<Vec<u8>> {
    match leg {
        Leg::SecuritiesDelivery => shares.securities_delivery,
        Leg::SecuritiesRefund => shares.securities_refund,
        Leg::CashDelivery => shares.cash_delivery,
        Leg::CashRefund => shares.cash_refund,
    }
}

/// The shares with one more leg given out.
pub open spec fn with_share(shares: OpeningShares, leg: Leg, share: Vec<u8>) -> OpeningShares {
    match leg {
        Leg::SecuritiesDelivery => OpeningShares { securities_delivery: Some(share), ..shares },
        Leg::SecuritiesRefund => OpeningShares { securities_refund: Some(share), ..shares },
        Leg::CashDelivery => OpeningShares { cash_delivery: Some(share), ..shares },
        Leg::CashRefund => OpeningShares { cash_refund: Some(share), ..shares },
    }
}

/// What is encrypted for a claim: this node's share of a leg's opening, for the
/// recipient's enrolled key.
#[derive(Debug)]
pub struct OpeningClaim<X> {
    pub id: [u8; 32],
    pub leg: Leg,
    pub party: usize,
    pub share: X,
    pub recipient_view: Point,
    pub recipient_public: Vec<u8>,
}

/// The bound witness that the opening of a leg is a share of: the payment's for the
/// securities that are delivered, the delivery's for every other leg.
pub open spec fn witness_of<N, B, S>(job: ProofJob<N, B, S>, leg: Leg) -> Option<B> {
    match leg {
        Leg::SecuritiesDelivery => job.zkpi.bound,
        _ => job.dvp.bound,
    }
}

/// What is said where a leg has no bound witness.
pub open spec fn unbound_text(leg: Leg) -> Seq<char> {
    match leg {
        Leg::SecuritiesDelivery => "zkPI node is not bound"@,
        _ => "DvP node is not bound"@,
    }
}

/// Whether a recipient is enrolled with a key.
pub open spec fn enrolled(recipients: Seq<RecipientOpeningKey>, view: Seq<u8>) -> bool {
    exists|i: int| 0 <= i < recipients.len() && (#[trigger] recipients[i]).view@ == view
}

/// The first key that a recipient is enrolled with.
pub open spec fn enrolled_key(recipients: Seq<RecipientOpeningKey>, view: Seq<u8>, key: Seq<u8>) -> bool {
    exists|i: int|
        0 <= i < recipients.len() && (#[trigger] recipients[i]).view@ == view && recipients[i].public@ == key && forall|
            j: int,
        |
            0 <= j < i ==> (#[trigger] recipients[j]).view@ != view
}

fn find_recipient(recipients: &Vec<RecipientOpeningKey>, view: &[u8; 32]) -> (key: Option<Vec<u8>>)
    ensures
        match key {
            Some(found) => enrolled(recipients@, view@) && enrolled_key(recipients@, view@, found@),
            None => !enrolled(recipients@, view@),
        },
{
    let mut i: usize = 0;
    while i < recipients.len()
        invariant
            i <= recipients@.len(),
            forall|j: int| 0 <= j < i ==> (#[trigger] recipients@[j]).view@ != view@,
        decreases recipients@.len() - i,
    {
        if same32(&recipients[i].view, view) {
            return Some(copied(recipients[i].public.as_slice()));
        }
        i = i + 1;
    }
    None
}

impl<N, B, S> ProofParty<N, B, S> {
    /// What binding a quote does to a job, where `digest` is that of the winning policy.
    pub open spec fn quote_bound<R, St, F: FnOnce(N, &StatedQuote<St>) -> Result<(B, R), String>>(
        self,
        stated: StatedQuote<St>,
        digest: [u8; 32],
        act: F,
        later: ProofParty<N, B, S>,
        r: Result<R, String>,
    ) -> bool {
        let id = stated.request.id@;
        let job = self.jobs.at(id);
        let after = later.jobs.at(id);
        &&& self.job_changed(id, after, later)
        &&& bind_done(job.quote, "complete quote"@, stated, act, after.quote, r)
        &&& after == if r is Ok {
            ProofJob {
                quote: after.quote,
                quote_public: Some(stated.request.statement),
                winning_policy_digest: Some(digest),
                ..job
            }
        } else {
            ProofJob { quote: after.quote, ..job }
        }
    }

    /// What comes of a request to bind a quote, where `made` is the statement that was
    /// made of it and `policy` gives the digest of the winner's registered policy.
    pub open spec fn quote_bind_outcome<
        R,
        St,
        P: Fn(&QuoteStatement) -> [u8; 32],
        F: FnOnce(N, &StatedQuote<St>) -> Result<(B, R), String>,
    >(
        self,
        request: QuoteBindRequest,
        made: Result<St, String>,
        policy: P,
        act: F,
        later: ProofParty<N, B, S>,
        r: Result<R, String>,
    ) -> bool {
        let refusal = either(refused(made),
            either(unless(request.statement.winner_index < request.statement.public.registry@.len(),
                "quote winner is outside the registered policy set"@),
            unless(self.jobs.has(request.id@), "proof job is not loaded on this node"@)));
        match refusal {
            Some(e) => {
                &&& r matches Err(f) && f@ == e
                &&& later == self
            },
            None => exists|digest: [u8; 32]| #[trigger]
                call_ensures(policy, (&request.statement,), digest) && self.quote_bound(
                    (StatedQuote { statement: made->Ok_0, request }),
                    digest,
                    act,
                    later,
                    r,
                ),
        }
    }

    /// Binds the quote witness to the statement that `state` makes of the committee's
    /// evaluations, and the job to the digest of the winning policy.
    pub fn quote_bind<
        R,
        St,
        C: Fn(&ProofPartyConfig) -> Result<(), String>,
        G: Fn(&ProofPartyConfig, &QuoteBindRequest) -> Result<St, String>,
        P: Fn(&QuoteStatement) -> [u8; 32],
        F: FnOnce(N, &StatedQuote<St>) -> Result<(B, R), String>,
    >(&mut self, request: QuoteBindRequest, circuit: &C, state: &G, policy: &P, act: F) -> (r: Result<R, String>)
        requires
            tries(*circuit),
            old(self).consistent(),
            forall|c: &ProofPartyConfig, q: &QuoteBindRequest| call_requires(*state, (c, q)),
            forall|q: &QuoteStatement| call_requires(*policy, (q,)),
            forall|node: N, stated: &StatedQuote<St>| call_requires(act, (node, stated)),
        ensures
            final(self).consistent(),
            old(self).keeps_used(*final(self)),
            match fault(*circuit, old(self).config) {
                Some(e) => {
                    &&& r matches Err(f) && f@ == e
                    &&& *final(self) == *old(self)
                },
                None => exists|made: Result<St, String>| #[trigger]
                    call_ensures(*state, (&old(self).config, &request), made) && old(self).quote_bind_outcome(
                        request,
                        made,
                        *policy,
                        act,
                        *final(self),
                        r,
                    ),
            },
    {
        if let Err(e) = attempt(circuit, &self.config) {
            return Err(e);
        }
        let ghost given_request = request;
        let made = state(&self.config, &request);
        let ghost given = made;
        assert(call_ensures(*state, (&old(self).config, &given_request), given));
        let statement = match made {
            Err(e) => {
                let r = Err(e);
                assert(old(self).quote_bind_outcome(given_request, given, *policy, act, *self, r));
                return r;
            },
            Ok(statement) => statement,
        };
        if request.statement.winner_index >= request.statement.public.registry.len() {
            let r = Err("quote winner is outside the registered policy set".to_owned());
            assert(old(self).quote_bind_outcome(given_request, given, *policy, act, *self, r));
            return r;
        }
        let winning_policy_digest = policy(&request.statement);
        assert(call_ensures(*policy, (&given_request.statement,), winning_policy_digest));
        let ghost before = *self;
        let id = request.id;
        let stated = StatedQuote { statement, request };
        let ghost told_of = stated;
        let outcome = match self.jobs.get_mut(&id) {
            None => {
                let r = Err("proof job is not loaded on this node".to_owned());
                assert(old(self).quote_bind_outcome(given_request, given, *policy, act, *self, r));
                return r;
            },
            Some(job) => {
                let outcome = job.quote.bind("complete quote", &stated, act);
                if outcome.is_ok() {
                    job.quote_public = Some(stated.request.statement);
                    job.winning_policy_digest = Some(winning_policy_digest);
                }
                outcome
            },
        };
        proof {
            job_change_keeps_lifecycle(before, *self, id@);
        }
        assert(old(self).quote_bound(told_of, winning_policy_digest, act, *self, outcome));
        assert(old(self).quote_bind_outcome(given_request, given, *policy, act, *self, outcome));
        outcome
    }

    /// Why the relations of a quote are not bound.
    pub open spec fn quote_relation_refusal<C: Fn(&ProofPartyConfig) -> Result<(), String>>(
        self,
        params: Json,
        circuit: C,
    ) -> Option<Seq<char>> {
        let id = hex_in(params.field("job_id"@));
        either(job_id_refusal(params),
        either(quote_wires_refusal(params, "evaluations"@, id, Some("relations"@),
            "quote relation bind received another job or message type"@),
        either(fault(circuit, self.config),
        either(unless(self.jobs.has(id), "proof job is not loaded on this node"@),
        either(unless(self.jobs.at(id).quote.bound is Some, "quote base statement is not bound"@),
        unless(self.jobs.at(id).quote_public is Some, "quote public statement is absent"@))))))
    }

    /// Keeps the relations of a quote: what `relate` makes of the committee's
    /// evaluations and the job's statement.
    pub fn quote_relation_bind<
        C: Fn(&ProofPartyConfig) -> Result<(), String>,
        F: Fn(&ProofJob<N, B, S>, &Vec<Envelope>) -> Result<B, String>,
    >(&mut self, params: &Value, circuit: &C, relate: &F) -> (r: Result<(), String>)
        requires
            tries(*circuit),
            old(self).consistent(),
            forall|j: &ProofJob<N, B, S>, e: &Vec<Envelope>| call_requires(*relate, (j, e)),
        ensures
            final(self).consistent(),
            old(self).keeps_used(*final(self)),
            match old(self).quote_relation_refusal(params@, *circuit) {
                Some(e) => {
                    &&& r matches Err(f) && f@ == e
                    &&& *final(self) == *old(self)
                },
                None => {
                    let id = hex_in(params@.field("job_id"@));
                    let job = old(self).jobs.at(id);
                    exists|evaluations: Vec<Envelope>, made: Result<B, String>|
                        envelopes_said(wires_in(params@, "evaluations"@), evaluations@) && #[trigger] call_ensures(
                            *relate,
                            (&job, &evaluations),
                            made,
                        ) && match made {
                            Err(e) => r == Err::<(), String>(e) && *final(self) == *old(self),
                            Ok(related) => r is Ok && old(self).job_changed(
                                id,
                                (ProofJob { quote_relations: Some(related), ..job }),
                                *final(self),
                            ),
                        }
                },
            },
    {
        let id = match job_id(params) {
            Err(e) => {
                return Err(e);
            },
            Ok(value) => value,
        };
        let evaluations = match quote_wires(params, "evaluations", &id, Some("relations"),
            "quote relation bind received another job or message type") {
            Err(e) => {
                return Err(e);
            },
            Ok(value) => value,
        };
        if let Err(e) = attempt(circuit, &self.config) {
            return Err(e);
        }
        let related = match self.jobs.get(&id) {
            None => {
                return Err("proof job is not loaded on this node".to_owned());
            },
            Some(job) => {
                if job.quote.bound.is_none() {
                    return Err("quote base statement is not bound".to_owned());
                }
                if job.quote_public.is_none() {
                    return Err("quote public statement is absent".to_owned());
                }
                let made = relate(job, &evaluations);
                assert(call_ensures(*relate, (&self.jobs.at(id@), &evaluations), made));
                match made {
                    Err(e) => {
                        return Err(e);
                    },
                    Ok(related) => related,
                }
            },
        };
        let ghost kept = related;
        assert(call_ensures(*relate, (&old(self).jobs.at(id@), &evaluations), Ok::<B, String>(kept)));
        let ghost before = *self;
        if let Some(job) = self.jobs.get_mut(&id) {
            job.quote_relations = Some(related);
        }
        proof {
            job_change_keeps_lifecycle(before, *self, id@);
        }
        Ok(())
    }

    /// Why this node makes no first round of a quote.
    pub open spec fn quote_round1_refusal<C: Fn(&ProofPartyConfig) -> Result<(), String>>(
        self,
        params: Json,
        circuit: C,
    ) -> Option<Seq<char>> {
        let id = hex_in(params.field("job_id"@));
        either(job_id_refusal(params),
        either(fault(circuit, self.config),
        either(unless(self.jobs.has(id), "proof job is not loaded on this node"@),
        either(unless(self.jobs.at(id).quote.secret is Some || self.jobs.at(id).quote_relations is Some,
            "quote relation statement is not bound"@),
        unless(self.jobs.at(id).quote.secret is Some || self.jobs.at(id).quote.bound is None
            || self.jobs.at(id).quote_public is Some, "quote public statement is absent"@)))))
    }

    /// Makes the first round of a quote for the job's public statement, once until it is
    /// answered.
    pub fn quote_round1<
        R,
        C: Fn(&ProofPartyConfig) -> Result<(), String>,
        F: FnOnce(&B, &Option<QuoteStatement>) -> Result<(S, R), String>,
    >(&mut self, params: &Value, circuit: &C, act: F) -> (r: Result<R, String>)
        requires
            tries(*circuit),
            old(self).consistent(),
            forall|bound: &B, public: &Option<QuoteStatement>| call_requires(act, (bound, public)),
        ensures
            final(self).consistent(),
            old(self).keeps_used(*final(self)),
            match old(self).quote_round1_refusal(params@, *circuit) {
                Some(e) => {
                    &&& r matches Err(f) && f@ == e
                    &&& *final(self) == *old(self)
                },
                None => {
                    let id = hex_in(params@.field("job_id"@));
                    let job = old(self).jobs.at(id);
                    let after = final(self).jobs.at(id);
                    &&& old(self).job_changed(id, after, *final(self))
                    &&& round1_done(job.quote, "quote"@, job.quote_public, act, after.quote, r)
                    &&& after == (ProofJob { quote: after.quote, ..job })
                },
            },
    {
        let id = match job_id(params) {
            Err(e) => {
                return Err(e);
            },
            Ok(value) => value,
        };
        if let Err(e) = attempt(circuit, &self.config) {
            return Err(e);
        }
        match self.jobs.get(&id) {
            None => {
                return Err("proof job is not loaded on this node".to_owned());
            },
            Some(job) => {
                if job.quote.secret.is_none() && job.quote_relations.is_none() {
                    return Err("quote relation statement is not bound".to_owned());
                }
                if job.quote.secret.is_none() && job.quote.bound.is_some() && job.quote_public.is_none() {
                    return Err("quote public statement is absent".to_owned());
                }
            },
        }
        let ghost before = *self;
        let outcome = match self.jobs.get_mut(&id) {
            None => {
                return Err("proof job is not loaded on this node".to_owned());
            },
            Some(job) => {
                let outcome = job.quote.round1("quote", &job.quote_public, act);
                outcome
            },
        };
        proof {
            job_change_keeps_lifecycle(before, *self, id@);
        }
        outcome
    }

    /// Why this node answers no challenge of a quote.
    pub open spec fn quote_round2_refusal<C: Fn(&ProofPartyConfig) -> Result<(), String>>(
        self,
        params: Json,
        circuit: C,
    ) -> Option<Seq<char>> {
        let id = hex_in(params.field("job_id"@));
        either(job_id_refusal(params),
        either(one_wire_refusal(params, "challenge"@),
        either(quote_wire_refusal(wire_in(params.field("challenge"@)), id, Some("challenge"@),
            "quote response received another job or message type"@),
        either(fault(circuit, self.config),
        unless(self.jobs.has(id), "proof job is not loaded on this node"@)))))
    }

    /// Answers the challenge of a quote with the secret of the first round, which
    /// is gone afterwards.
    pub fn quote_round2<
        R,
        C: Fn(&ProofPartyConfig) -> Result<(), String>,
        F: FnOnce(&B, S, &QuoteChallenge) -> Result<R, String>,
    >(&mut self, params: &Value, circuit: &C, act: F) -> (r: Result<R, String>)
        requires
            tries(*circuit),
            old(self).consistent(),
            forall|bound: &B, secret: S, asked: &QuoteChallenge| call_requires(act, (bound, secret, asked)),
        ensures
            final(self).consistent(),
            old(self).keeps_used(*final(self)),
            match old(self).quote_round2_refusal(params@, *circuit) {
                Some(e) => {
                    &&& r matches Err(f) && f@ == e
                    &&& *final(self) == *old(self)
                },
                None => {
                    let id = hex_in(params@.field("job_id"@));
                    let job = old(self).jobs.at(id);
                    let after = final(self).jobs.at(id);
                    &&& old(self).job_changed(id, after, *final(self))
                    &&& exists|asked: QuoteChallenge|
                        asked.public == job.quote_public && envelope_said(
                            json_document(wire_in(params@.field("challenge"@)))->0,
                            asked.challenge,
                        ) && #[trigger] round2_done(job.quote, "quote"@, asked, act, after.quote, r)
                    &&& after == (ProofJob { quote: after.quote, ..job })
                },
            },
    {
        let id = match job_id(params) {
            Err(e) => {
                return Err(e);
            },
            Ok(value) => value,
        };
        let raw = match one_wire(params, "challenge") {
            Err(e) => {
                return Err(e);
            },
            Ok(value) => value,
        };
        let challenge = match read_quote_wire(&raw, &id, Some("challenge"),
            "quote response received another job or message type") {
            Err(e) => {
                return Err(e);
            },
            Ok(value) => value,
        };
        if let Err(e) = attempt(circuit, &self.config) {
            return Err(e);
        }
        let ghost mut given: QuoteChallenge = arbitrary();
        let ghost before = *self;
        let outcome = match self.jobs.get_mut(&id) {
            None => {
                return Err("proof job is not loaded on this node".to_owned());
            },
            Some(job) => {
                let asked = QuoteChallenge { public: job.quote_public.take(), challenge };
                let outcome = job.quote.round2("quote", &asked, act);
                proof {
                    given = asked;
                }
                job.quote_public = asked.public;
                outcome
            },
        };
        proof {
            job_change_keeps_lifecycle(before, *self, id@);
            assert(round2_done(
                before.jobs.at(id@).quote,
                "quote"@,
                given,
                act,
                self.jobs.at(id@).quote,
                outcome,
            ));
        }
        outcome
    }

    /// Whether three lists of messages are those of a request to assemble a quote.
    pub open spec fn finalize_said(params: Json, request: QuoteFinalizeRequest) -> bool {
        &&& request.id@ == hex_in(params.field("job_id"@))
        &&& envelopes_said(wires_in(params, "rounds"@), request.rounds@)
        &&& envelopes_said(wires_in(params, "seals"@), request.seals@)
        &&& envelopes_said(wires_in(params, "responses"@), request.responses@)
        &&& members_said(array_in(params.field("quorum"@))->0, request.quorum@)
    }

    /// Why a request to assemble a quote is refused before the proof is assembled.
    pub open spec fn finalize_request_refusal(self, params: Json) -> Option<Seq<char>> {
        let id = hex_in(params.field("job_id"@));
        either(job_id_refusal(params),
        either(quote_wires_refusal(params, "rounds"@, id, None, "rounds"@ + " contains another quote job"@),
        either(unless(kinds_said(params, "rounds"@, "round1"@), "quote finalization received a non-round-one message"@),
        either(quote_wires_refusal(params, "seals"@, id, None, "seals"@ + " contains another quote job"@),
        either(unless(kinds_said(params, "seals"@, "round1-seal"@), "quote finalization received a non-seal message"@),
        either(quote_wires_refusal(params, "responses"@, id, None, "responses"@ + " contains another quote job"@),
        either(unless(kinds_said(params, "responses"@, "round2"@),
            "quote finalization received a non-response message"@),
        members_refusal(params, self.config.n_parties as nat))))))))
    }

    /// Reads the messages that a quote proof is assembled from.
    pub fn quote_finalize_request(&self, params: &Value) -> (r: Result<QuoteFinalizeRequest, String>)
        ensures
            match r {
                Ok(request) => self.finalize_request_refusal(params@) is None && Self::finalize_said(params@, request),
                Err(e) => self.finalize_request_refusal(params@) == Some(e@),
            },
    {
        let id = match job_id(params) {
            Err(e) => {
                return Err(e);
            },
            Ok(value) => value,
        };
        let complaint = about("rounds", " contains another quote job");
        let rounds = match quote_wires(params, "rounds", &id, None, complaint.as_str()) {
            Err(e) => {
                return Err(e);
            },
            Ok(value) => value,
        };
        proof {
            kinds_agree(params@, "rounds"@, rounds@, "round1"@);
        }
        if let Err(e) = check_kinds(&rounds, "round1", "quote finalization received a non-round-one message") {
            return Err(e);
        }
        let complaint = about("seals", " contains another quote job");
        let seals = match quote_wires(params, "seals", &id, None, complaint.as_str()) {
            Err(e) => {
                return Err(e);
            },
            Ok(value) => value,
        };
        proof {
            kinds_agree(params@, "seals"@, seals@, "round1-seal"@);
        }
        if let Err(e) = check_kinds(&seals, "round1-seal", "quote finalization received a non-seal message") {
            return Err(e);
        }
        let complaint = about("responses", " contains another quote job");
        let responses = match quote_wires(params, "responses", &id, None, complaint.as_str()) {
            Err(e) => {
                return Err(e);
            },
            Ok(value) => value,
        };
        proof {
            kinds_agree(params@, "responses"@, responses@, "round2"@);
        }
        if let Err(e) = check_kinds(&responses, "round2", "quote finalization received a non-response message") {
            return Err(e);
        }
        let quorum = match read_quorum(params, self.config.n_parties) {
            Err(e) => {
                return Err(e);
            },
            Ok(value) => value,
        };
        Ok(QuoteFinalizeRequest { id, rounds, seals, responses, quorum })
    }

    /// Why the proof of a quote is not taken for a job.
    pub open spec fn finalize_refusal<C: Fn(&ProofPartyConfig) -> Result<(), String>>(
        self,
        id: Seq<u8>,
        circuit: C,
    ) -> Option<Seq<char>> {
        either(fault(circuit, self.config),
        either(unless(self.jobs.has(id), "proof job is not loaded on this node"@),
        either(unless(!self.jobs.at(id).quote_verified, "quote proof was already finalized"@),
        either(unless(self.jobs.at(id).quote_public is Some, "quote public statement is absent"@),
        either(unless(self.jobs.at(id).quote.bound is Some, "quote base statement is absent"@),
        unless(self.jobs.at(id).quote_relations is Some, "quote relation statement is absent"@))))))
    }

    /// Takes the proof of a quote for a job, once. `assemble` gives the digest of the
    /// proof that the messages of the request make of the job's statement, its relations
    /// and its public part.
    pub fn quote_finalize<
        C: Fn(&ProofPartyConfig) -> Result<(), String>,
        F: Fn(&ProofJob<N, B, S>, &QuoteFinalizeRequest) -> Result<[u8; 32], String>,
    >(&mut self, request: &QuoteFinalizeRequest, circuit: &C, assemble: &F) -> (r: Result<[u8; 32], String>)
        requires
            tries(*circuit),
            old(self).consistent(),
            forall|j: &ProofJob<N, B, S>, q: &QuoteFinalizeRequest| call_requires(*assemble, (j, q)),
        ensures
            final(self).consistent(),
            old(self).keeps_used(*final(self)),
            match old(self).finalize_refusal(request.id@, *circuit) {
                Some(e) => {
                    &&& r matches Err(f) && f@ == e
                    &&& *final(self) == *old(self)
                },
                None => {
                    let job = old(self).jobs.at(request.id@);
                    &&& call_ensures(*assemble, (&job, request), r)
                    &&& match r {
                        Err(_) => *final(self) == *old(self),
                        Ok(digest) => old(self).job_changed(
                            request.id@,
                            (ProofJob { expected_quote_digest: digest, quote_verified: true, ..job }),
                            *final(self),
                        ),
                    }
                },
            },
    {
        if let Err(e) = attempt(circuit, &self.config) {
            return Err(e);
        }
        let found = match self.jobs.get(&request.id) {
            None => {
                return Err("proof job is not loaded on this node".to_owned());
            },
            Some(job) => {
                if job.quote_verified {
                    return Err("quote proof was already finalized".to_owned());
                }
                if job.quote_public.is_none() {
                    return Err("quote public statement is absent".to_owned());
                }
                if job.quote.bound.is_none() {
                    return Err("quote base statement is absent".to_owned());
                }
                if job.quote_relations.is_none() {
                    return Err("quote relation statement is absent".to_owned());
                }
                let made = assemble(job, request);
                assert(call_ensures(*assemble, (&self.jobs.at(request.id@), request), made));
                match made {
                    Err(e) => {
                        return Err(e);
                    },
                    Ok(found) => found,
                }
            },
        };
        let ghost before = *self;
        if let Some(job) = self.jobs.get_mut(&request.id) {
            job.expected_quote_digest = found;
            job.quote_verified = true;
        }
        proof {
            job_change_keeps_lifecycle(before, *self, request.id@);
        }
        Ok(found)
    }

    /// Whether the opening of a job may be claimed.
    pub open spec fn claimable(job: ProofJob<N, B, S>) -> bool {
        job.signed() && !job.unanswered()
    }

    /// Why a claim for an opening is refused before the opening is looked for.
    pub open spec fn claim_refusal(self, params: Json) -> Option<Seq<char>> {
        let id = hex_in(params.field("job_id"@));
        let job = self.jobs.at(id);
        let text = text_in(params.field("leg"@));
        let leg = Leg::named(text->0);
        let view = hex_in(params.field("recipient_view"@));
        let recipient = if (leg->0).for_maker(job.maker_is_payer->0) {
            job.selected_maker_handle->0
        } else {
            job.authorized_taker_handle->0
        };
        either(
            job_id_refusal(params),
            either(
                unless(text is Some, "claim opening leg is absent"@),
                either(
                    canonical_point_refusal(params.field("recipient_view"@), "recipient_view"@),
                    either(
                        unless(self.jobs.has(id), "claim opening proof job is not active"@),
                        either(
                            unless(
                                Self::claimable(job),
                                "claim opening is unavailable before authorization and completed proof rounds"@,
                            ),
                            either(
                                unless(job.selected_maker_handle is Some, "claim opening Maker handle is absent"@),
                                either(
                                    unless(job.authorized_taker_handle is Some,
                                        "claim opening Taker handle is absent"@),
                                    either(
                                        unless(job.maker_is_payer is Some, "claim opening payment side is absent"@),
                                        either(
                                            unless(leg is Some, "claim opening leg is invalid"@),
                                            unless(
                                                view == recipient@,
                                                "proof node refuses to encrypt a claim opening for another recipient"@,
                                            ),
                                        ),
                                    ),
                                ),
                            ),
                        ),
                    ),
                ),
            ),
        )
    }

    /// Whether this is what is encrypted for a claim.
    pub open spec fn claim_said<X>(self, params: Json, share: X, claim: OpeningClaim<X>) -> bool {
        &&& claim.id@ == hex_in(params.field("job_id"@))
        &&& Some(claim.leg) == Leg::named(text_in(params.field("leg"@))->0)
        &&& claim.party == self.config.node + 1
        &&& claim.share == share
        &&& claim.recipient_view@ == hex_in(params.field("recipient_view"@))
        &&& enrolled_key(self.config.recipient_opening_keys@, claim.recipient_view@, claim.recipient_public@)
    }

    /// What comes of a claim whose opening is a share that was `opened`: it is encrypted
    /// by `seal` for the recipient that its operator enrolled, and kept.
    pub open spec fn claim_opened<X, E: Fn(&OpeningClaim<X>) -> Result<Vec<u8>, String>>(
        self,
        params: Json,
        opened: Result<X, String>,
        seal: E,
        later: ProofParty<N, B, S>,
        r: Result<Vec<u8>, String>,
    ) -> bool {
        let id = hex_in(params.field("job_id"@));
        let job = self.jobs.at(id);
        let leg = Leg::named(text_in(params.field("leg"@))->0)->0;
        let view = hex_in(params.field("recipient_view"@));
        match opened {
            Err(e) => r == Err::<Vec<u8>, String>(e) && later == self,
            Ok(share) => if !enrolled(self.config.recipient_opening_keys@, view) {
                &&& r matches Err(e) && e@ == "claim recipient has no independently enrolled hybrid opening key"@
                &&& later == self
            } else {
                exists|claim: OpeningClaim<X>, sealed: Result<Vec<u8>, String>|
                    self.claim_said(params, share, claim) && #[trigger] call_ensures(seal, (&claim,), sealed)
                        && match sealed {
                        Err(e) => r == Err::<Vec<u8>, String>(e) && later == self,
                        Ok(made) => {
                            &&& r matches Ok(given) && given@ == made@
                            &&& self.job_changed(
                                id,
                                (ProofJob { opening_shares: with_share(job.opening_shares, leg, made), ..job }),
                                later,
                            )
                        },
                    }
            },
        }
    }

    /// What comes of a claim for a leg: what was given out before, or this node's share
    /// of the opening, which `open` takes out of the bound witness of the leg.
    pub open spec fn claimed<
        X,
        O: Fn(&B, Leg) -> Result<X, String>,
        E: Fn(&OpeningClaim<X>) -> Result<Vec<u8>, String>,
    >(self, params: Json, open: O, seal: E, later: ProofParty<N, B, S>, r: Result<Vec<u8>, String>) -> bool {
        let job = self.jobs.at(hex_in(params.field("job_id"@)));
        let leg = Leg::named(text_in(params.field("leg"@))->0)->0;
        if share_of(job.opening_shares, leg) is Some {
            &&& r matches Ok(given) && given@ == (share_of(job.opening_shares, leg)->0)@
            &&& later == self
        } else {
            match witness_of(job, leg) {
                None => {
                    &&& r matches Err(e) && e@ == unbound_text(leg)
                    &&& later == self
                },
                Some(bound) => exists|opened: Result<X, String>| #[trigger]
                    call_ensures(open, (&bound, leg), opened) && self.claim_opened(params, opened, seal, later, r),
            }
        }
    }

    /// Answers a claim for the opening of a leg: only the side that the leg goes to
    /// has it, only after the settlement was authorized and proved, and only under the
    /// key that its operator enrolled. `open` gives this node's share of the opening out
    /// of a bound witness, and `seal` encrypts it. What is given out is kept, so that a
    /// repeated claim is answered with the same share.
    pub fn claim_opening_share<
        X,
        O: Fn(&B, Leg) -> Result<X, String>,
        E: Fn(&OpeningClaim<X>) -> Result<Vec<u8>, String>,
    >(&mut self, params: &Value, open: &O, seal: &E) -> (r: Result<Vec<u8>, String>)
        requires
            old(self).consistent(),
            forall|b: &B, l: Leg| call_requires(*open, (b, l)),
            forall|c: &OpeningClaim<X>| call_requires(*seal, (c,)),
        ensures
            final(self).consistent(),
            old(self).keeps_used(*final(self)),
            match old(self).claim_refusal(params@) {
                Some(e) => {
                    &&& r matches Err(f) && f@ == e
                    &&& *final(self) == *old(self)
                },
                None => old(self).claimed(params@, *open, *seal, *final(self), r),
            },
    {
        let id = match job_id(params) {
            Err(e) => {
                return Err(e);
            },
            Ok(value) => value,
        };
        let text = match as_text(params.get("leg")) {
            None => {
                return Err("claim opening leg is absent".to_owned());
            },
            Some(value) => value,
        };
        let recipient_view = match point(params.get("recipient_view"), "recipient_view") {
            Err(e) => {
                return Err(e);
            },
            Ok(value) => value,
        };
        let job = match self.jobs.get(&id) {
            None => {
                return Err("claim opening proof job is not active".to_owned());
            },
            Some(value) => value,
        };
        if job.authorized_payment_digest.is_none() || !job.dvp_response_issued || !job.pool_remainder_response_issued
            || job.is_unanswered() {
            return Err("claim opening is unavailable before authorization and completed proof rounds".to_owned());
        }
        let maker = match job.selected_maker_handle {
            None => {
                return Err("claim opening Maker handle is absent".to_owned());
            },
            Some(value) => value,
        };
        let taker = match job.authorized_taker_handle {
            None => {
                return Err("claim opening Taker handle is absent".to_owned());
            },
            Some(value) => value,
        };
        let maker_is_payer = match job.maker_is_payer {
            None => {
                return Err("claim opening payment side is absent".to_owned());
            },
            Some(value) => value,
        };
        let leg = match Leg::read(text) {
            None => {
                return Err("claim opening leg is invalid".to_owned());
            },
            Some(value) => value,
        };
        let recipient = if leg.goes_to_maker(maker_is_payer) {
            maker
        } else {
            taker
        };
        if !same32(&recipient_view.bytes, &recipient.bytes) {
            return Err("proof node refuses to encrypt a claim opening for another recipient".to_owned());
        }
        let prior = match leg {
            Leg::SecuritiesDelivery => &job.opening_shares.securities_delivery,
            Leg::SecuritiesRefund => &job.opening_shares.securities_refund,
            Leg::CashDelivery => &job.opening_shares.cash_delivery,
            Leg::CashRefund => &job.opening_shares.cash_refund,
        };
        if let Some(share) = prior {
            return Ok(copied(share.as_slice()));
        }
        let bound = match leg {
            Leg::SecuritiesDelivery => match &job.zkpi.bound {
                None => {
                    return Err("zkPI node is not bound".to_owned());
                },
                Some(bound) => bound,
            },
            _ => match &job.dvp.bound {
                None => {
                    return Err("DvP node is not bound".to_owned());
                },
                Some(bound) => bound,
            },
        };
        let opened = open(bound, leg);
        let ghost given = opened;
        assert(call_ensures(*open, (&witness_of(old(self).jobs.at(id@), leg)->0, leg), given));
        let share = match opened {
            Err(e) => {
                let r = Err(e);
                assert(old(self).claim_opened(params@, given, *seal, *self, r));
                return r;
            },
            Ok(share) => share,
        };
        let recipient_public = match find_recipient(&self.config.recipient_opening_keys, &recipient_view.bytes) {
            None => {
                let r = Err("claim recipient has no independently enrolled hybrid opening key".to_owned());
                assert(old(self).claim_opened(params@, given, *seal, *self, r));
                return r;
            },
            Some(value) => value,
        };
        let party: usize = self.config.node as usize + 1;
        let claim = OpeningClaim { id, leg, party, share, recipient_view, recipient_public };
        let sealed = seal(&claim);
        let ghost encrypted = sealed;
        assert(old(self).claim_said(params@, given->Ok_0, claim));
        assert(call_ensures(*seal, (&claim,), encrypted));
        let made = match sealed {
            Err(e) => {
                let r = Err(e);
                assert(old(self).claim_opened(params@, given, *seal, *self, r));
                return r;
            },
            Ok(made) => made,
        };
        let answer = copied(made.as_slice());
        let ghost before = *self;
        if let Some(job) = self.jobs.get_mut(&id) {
            match leg {
                Leg::SecuritiesDelivery => {
                    job.opening_shares.securities_delivery = Some(made);
                },
                Leg::SecuritiesRefund => {
                    job.opening_shares.securities_refund = Some(made);
                },
                Leg::CashDelivery => {
                    job.opening_shares.cash_delivery = Some(made);
                },
                Leg::CashRefund => {
                    job.opening_shares.cash_refund = Some(made);
                },
            }
        }
        proof {
            job_change_keeps_lifecycle(before, *self, id@);
        }
        let r = Ok(answer);
        assert(old(self).claim_opened(params@, given, *seal, *self, r));
        r
    }
}

/// What messages are of, and what their wires say of their kinds, is one.
proof fn kinds_agree(params: Json, name: Seq<char>, envelopes: Seq<Envelope>, kind: Seq<char>)
    requires
        envelopes_said(wires_in(params, name), envelopes),
    ensures
        (forall|i: int| 0 <= i < envelopes.len() ==> kind_of((#[trigger] envelopes[i]).message) == kind)
            == kinds_said(params, name, kind),
{
    let wires = wires_in(params, name);
    if forall|i: int| 0 <= i < envelopes.len() ==> kind_of((#[trigger] envelopes[i]).message) == kind {
        assert forall|i: int| 0 <= i < wires.len() implies text_in(
            (json_document(#[trigger] wires[i])->0).field("kind"@),
        ) == Some(kind) by {
            assert(envelope_said(json_document(wires[i])->0, envelopes[i]));
        }
    }
    if kinds_said(params, name, kind) {
        assert forall|i: int| 0 <= i < envelopes.len() implies kind_of((#[trigger] envelopes[i]).message) == kind by {
            assert(envelope_said(json_document(wires[i])->0, envelopes[i]));
        }
    }
}

} // verus!
