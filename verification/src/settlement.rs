//! Assembling a settlement from the committee: what is asked of the parties, and
//! what is made of their answers.

use vstd::prelude::*;
use crate::bytes::{is_zero32, same32, zero32};
use crate::coordinator::{
    answered, ask_one, asked, decided, demand_all, demand_refusal, error_of, signing_parties, signing_quorum, told,
    wire_array, wires_json, Demand, ProofPartyRpc, COMMITTEE_SIZE,
};
use crate::decimal::{negate, scalar_value};
use crate::fields::{either, hex_json, unless};
use crate::group::{is_point, is_scalar, Point, Scalar};
use crate::json::{as_text, as_unsigned, text_in, Json, Value};
use crate::product_execution::ProductExecutionRequest;
use crate::proof_authorize::{horizon_end, PAYMENT_HORIZON};
use crate::proof_quote_rounds::Leg;
use crate::proof_rounds::{handle_party, handle_repeated, HandleEvaluation};
use crate::proof_state::{signing_job, signing_job_of};
use crate::quote_codec::{can_check, checks, QuoteVerificationBundle};
use crate::quote_messages::{array, entries_said, hex_value, object, object_json};
use crate::sharing::{add_points, multiply_point, pedersen, point_sum, point_times, small_scalar};
use crate::text::{base64_encode, base64_text, hex_bytes, hex_decode, hex_encode, hex_text, is_hex};

verus! {

/// Whether a hidden limit is a highest price to buy at or a lowest to sell at.
#[derive(Clone, Copy, Debug, PartialEq, Eq, Structural)]
pub enum PriceLimitDirection {
    MaximumBuyPrice,
    MinimumSellPrice,
}

/// Public settlement metadata, supplied after the complete quote was accepted by
/// all parties. Amount, price, reserve openings, the selected policy and its
/// inventory stay with the nodes.
#[derive(Debug)]
pub struct ProductSettlementRequest {
    pub job_id: [u8; 32],
    pub admission_sequence: u64,
    pub admission_ticket_id: [u8; 32],
    pub quote_verification: QuoteVerificationBundle,
    pub limit_direction: PriceLimitDirection,
    pub limit_commitment: Point,
    /// The digest of the signed Taker mandate, which is also the transcript
    /// context of the price limit.
    pub limit_context: [u8; 32],
    pub taker_handle: Point,
    pub asset_id: [u8; 32],
    pub deadline: u64,
    pub now: u64,
    pub execution: ProductExecutionRequest,
}

impl ProductSettlementRequest {
    /// Whether the fields other than the execution are within their bounds.
    pub open spec fn bounded(self) -> bool {
        &&& self.job_id@ != zero32()
        &&& self.admission_sequence != 0
        &&& self.admission_ticket_id@ != zero32()
        &&& self.limit_context@ != zero32()
        &&& self.asset_id@ != zero32()
        &&& self.taker_handle@ != zero32()
        &&& self.now <= self.deadline <= horizon_end(self.now, PAYMENT_HORIZON)
    }

    /// Why a settlement is refused before its quote is verified.
    pub open spec fn refusal(self) -> Option<Seq<char>> {
        let outside = Some("product settlement request is outside its fixed bounds"@);
        if !self.bounded() {
            outside
        } else {
            match self.execution.planned() {
                Err(e) => Some(e),
                Ok(id) => if id != self.job_id@ {
                    outside
                } else {
                    None
                },
            }
        }
    }

    /// Checks the request and verifies its quote with `check`, which gives the
    /// digest of the quote's proof.
    pub fn validate<C: Fn(&QuoteVerificationBundle) -> Result<[u8; 32], String>>(&self, check: &C) -> (r: Result<
        [u8; 32],
        String,
    >)
        requires
            can_check(*check),
        ensures
            match self.refusal() {
                Some(e) => r matches Err(f) && f@ == e,
                None => if !self.quote_verification.registry_ok() {
                    r matches Err(e) && e@ == "quote registry size is outside the settlement bound"@
                } else {
                    match r {
                        Ok(digest) => checks(*check, self.quote_verification, Ok(digest@)),
                        Err(e) => checks(*check, self.quote_verification, Err(e@)),
                    }
                },
            },
    {
        let end: u64 = if PAYMENT_HORIZON > 0xffff_ffff_ffff_ffff - self.now {
            0xffff_ffff_ffff_ffff
        } else {
            self.now + PAYMENT_HORIZON
        };
        if is_zero32(&self.job_id) || self.admission_sequence == 0 || is_zero32(&self.admission_ticket_id) || is_zero32(
            &self.limit_context,
        ) || is_zero32(&self.asset_id) || is_zero32(&self.taker_handle.bytes) || self.deadline < self.now
            || self.deadline
            > end {
            return Err("product settlement request is outside its fixed bounds".to_owned());
        }
        let planned = match self.execution.job_id() {
            Err(e) => {
                return Err(e);
            },
            Ok(planned) => planned,
        };
        if !same32(&planned, &self.job_id) {
            return Err("product settlement request is outside its fixed bounds".to_owned());
        }
        self.quote_verification.verify(check)
    }

    /// The payer and the payee of the cash.
    pub open spec fn endpoints(self, maker: Point) -> (Point, Point) {
        match self.limit_direction {
            PriceLimitDirection::MaximumBuyPrice => (self.taker_handle, maker),
            PriceLimitDirection::MinimumSellPrice => (maker, self.taker_handle),
        }
    }

    /// The payer and the payee of the cash: a Taker that buys pays, one that sells is paid.
    pub fn cash_endpoints(&self, maker: Point) -> (endpoints: (Point, Point))
        ensures
            endpoints == self.endpoints(maker),
    {
        match self.limit_direction {
            PriceLimitDirection::MaximumBuyPrice => (self.taker_handle, maker),
            PriceLimitDirection::MinimumSellPrice => (maker, self.taker_handle),
        }
    }

    /// What must not be negative for a price to keep the hidden limit: what the
    /// limit leaves above the price for a buyer, and below it for a seller.
    pub open spec fn limit_difference(self, price: Seq<u8>, minus_one: Seq<u8>) -> Seq<u8> {
        match self.limit_direction {
            PriceLimitDirection::MaximumBuyPrice => point_sum(self.limit_commitment@, point_times(price, minus_one)),
            PriceLimitDirection::MinimumSellPrice => point_sum(price, point_times(self.limit_commitment@, minus_one)),
        }
    }

    /// Whether a point commits to what the hidden limit leaves, whatever the limit and
    /// the price are commitments of: what a buyer's limit is above the price, or what
    /// the price is above a seller's limit.
    pub open spec fn limit_left(self, price: Seq<u8>, witness: Seq<u8>) -> bool {
        forall|g: Seq<u8>, h: Seq<u8>, limit: int, r: int, paid: int, s: int|
            is_point(g) && is_point(h) && self.limit_commitment@ == #[trigger] pedersen(g, h, limit, r) && price
                == #[trigger] pedersen(g, h, paid, s) ==> witness == match self.limit_direction {
                PriceLimitDirection::MaximumBuyPrice => pedersen(g, h, limit - paid, r - s),
                PriceLimitDirection::MinimumSellPrice => pedersen(g, h, paid - limit, s - r),
            }
    }

    /// What a hidden-limit witness has to commit to: the difference of the signed
    /// limit and the quoted price.
    pub fn limit_witness(&self, price: &Point) -> (witness: Point)
        ensures
            exists|minus_one: Scalar| #[trigger]
                is_minus_one(minus_one) && witness@ == self.limit_difference(price@, minus_one@),
            self.limit_left(price@, witness@),
    {
        let one = small_scalar(1);
        let minus_one = negate(&one);
        proof {
            vstd::arithmetic::power2::lemma_pow2_pos(252);
            let l = crate::group::group_order();
            vstd::arithmetic::div_mod::lemma_small_mod((l - 1) as nat, l);
            assert(is_minus_one(minus_one));
        }
        match self.limit_direction {
            PriceLimitDirection::MaximumBuyPrice => {
                let less = multiply_point(price, &minus_one);
                let witness = add_points(&self.limit_commitment, &less);
                proof {
                    assert forall|g: Seq<u8>, h: Seq<u8>, limit: int, r: int, paid: int, s: int|
                        is_point(g) && is_point(h) && self.limit_commitment@ == #[trigger] pedersen(g, h, limit, r)
                            && price@ == #[trigger] pedersen(g, h, paid, s) implies witness@ == pedersen(
                        g,
                        h,
                        limit - paid,
                        r - s,
                    ) by {
                        less_mod(limit, paid);
                        less_mod(r, s);
                        assert(less@ == pedersen(
                            g,
                            h,
                            (crate::group::group_order() - 1) * paid,
                            (crate::group::group_order() - 1) * s,
                        ));
                    }
                }
                witness
            },
            PriceLimitDirection::MinimumSellPrice => {
                let less = multiply_point(&self.limit_commitment, &minus_one);
                let witness = add_points(price, &less);
                proof {
                    assert forall|g: Seq<u8>, h: Seq<u8>, limit: int, r: int, paid: int, s: int|
                        is_point(g) && is_point(h) && self.limit_commitment@ == #[trigger] pedersen(g, h, limit, r)
                            && price@ == #[trigger] pedersen(g, h, paid, s) implies witness@ == pedersen(
                        g,
                        h,
                        paid - limit,
                        s - r,
                    ) by {
                        less_mod(paid, limit);
                        less_mod(s, r);
                        assert(less@ == pedersen(
                            g,
                            h,
                            (crate::group::group_order() - 1) * limit,
                            (crate::group::group_order() - 1) * r,
                        ));
                    }
                }
                witness
            },
        }
    }
}

/// Adding a number's multiple by one less than the order is taking it away.
proof fn less_mod(a: int, b: int)
    ensures
        (a + (crate::group::group_order() - 1) * b) % crate::group::group_order() as int == (a - b)
            % crate::group::group_order() as int,
{
    let l = crate::group::group_order() as int;
    vstd::arithmetic::power2::lemma_pow2_pos(252);
    assert(a + (l - 1) * b == l * b + (a - b)) by (nonlinear_arith);
    vstd::arithmetic::div_mod::lemma_mod_multiples_vanish(b, a - b, l);
}

/// Whether a scalar is minus one.
pub open spec fn is_minus_one(scalar: Scalar) -> bool {
    &&& is_scalar(scalar@)
    &&& scalar_value(scalar@) == crate::group::group_order() - 1
}

/// Why an answer is no evaluation of the winning Maker's handle.
pub open spec fn evaluation_refusal(values: Seq<Json>, at: int) -> Option<Seq<char>> {
    let value = values[at];
    let text = text_in(value.field("point"@));
    let complaint = "winning Maker handle evaluation duplicated a committee party"@;
    either(unless(handle_party(value) is Some, "winning Maker handle evaluation has an invalid party"@),
    either(unless(text is Some, "winning Maker handle evaluation omitted its point"@),
    either(unless(is_hex(text->0), "winning Maker handle evaluation is not hexadecimal"@),
    either(unless(hex_bytes(text->0).len() == 32, "winning Maker handle evaluation is not 32 bytes"@),
    either(unless(is_point(hex_bytes(text->0)), "winning Maker handle evaluation is not canonical"@),
    unless(1 <= handle_party(value)->0 <= COMMITTEE_SIZE && !handle_repeated(values, at), complaint))))))
}

/// Why the first `count` answers are no evaluations of distinct members.
pub open spec fn evaluations_refusal(values: Seq<Json>, count: nat) -> Option<Seq<char>>
    decreases count,
{
    if count == 0 || count > values.len() {
        None
    } else {
        either(evaluations_refusal(values, (count - 1) as nat), evaluation_refusal(values, count - 1))
    }
}

proof fn evaluations_refused(values: Seq<Json>, at: nat, count: nat)
    requires
        at <= count <= values.len(),
        evaluations_refusal(values, at) is Some,
    ensures
        evaluations_refusal(values, count) == evaluations_refusal(values, at),
    decreases count,
{
    if at < count {
        evaluations_refused(values, at, (count - 1) as nat);
    }
}

/// What a list of answers says.
pub open spec fn values_said(values: Seq<Value>) -> Seq<Json> {
    values.map_values(|v: Value| v@)
}

/// Whether evaluations are those of the answers.
pub open spec fn evaluations_read(values: Seq<Json>, read: Seq<HandleEvaluation>) -> bool {
    &&& read.len() == values.len()
    &&& forall|i: int| #![trigger read[i]] 0 <= i < read.len() ==> evaluation_read(values[i], read[i])
}

/// Whether an evaluation is the one of an answer.
pub open spec fn evaluation_read(value: Json, read: HandleEvaluation) -> bool {
    &&& handle_party(value) == Some(read.party as nat)
    &&& read.point@ == hex_bytes(text_in(value.field("point"@))->0)
}

/// Reads the committee's evaluations of the winning Maker's handle.
#[verifier::loop_isolation(false)]
pub fn maker_handle_points(values: &Vec<Value>) -> (r: Result<Vec<HandleEvaluation>, String>)
    ensures
        match r {
            Ok(read) => evaluations_refusal(values_said(values@), values@.len()) is None && evaluations_read(
                values_said(values@),
                read@,
            ),
            Err(e) => evaluations_refusal(values_said(values@), values@.len()) == Some(e@),
        },
{
    let ghost all = values_said(values@);
    let mut read: Vec<HandleEvaluation> = Vec::new();
    let mut i: usize = 0;
    while i < values.len()
        invariant
            i <= values@.len(),
            read@.len() == i,
            evaluations_refusal(all, i as nat) is None,
            forall|j: int| #![trigger read@[j]] 0 <= j < i ==> evaluation_read(all[j], read@[j]),
        decreases values@.len() - i,
    {
        let ghost told_at = evaluation_refusal(all, i as int);
        proof {
            assert(all[i as int] == values@[i as int]@);
            if told_at is Some {
                assert(evaluations_refusal(all, (i + 1) as nat) == told_at);
                evaluations_refused(all, (i + 1) as nat, all.len());
            }
        }
        let party: usize = match as_unsigned(values[i].get("party")) {
            None => {
                return Err("winning Maker handle evaluation has an invalid party".to_owned());
            },
            Some(wide) => {
                if wide > usize::MAX as u64 {
                    return Err("winning Maker handle evaluation has an invalid party".to_owned());
                }
                wide as usize
            },
        };
        let text = match as_text(values[i].get("point")) {
            None => {
                return Err("winning Maker handle evaluation omitted its point".to_owned());
            },
            Some(value) => value,
        };
        let bytes = match hex_decode(text) {
            None => {
                return Err("winning Maker handle evaluation is not hexadecimal".to_owned());
            },
            Some(value) => value,
        };
        if bytes.len() != 32 {
            return Err("winning Maker handle evaluation is not 32 bytes".to_owned());
        }
        assert(bytes@.subrange(0, 32) =~= bytes@);
        let encoded = crate::bytes::array32(bytes.as_slice(), 0);
        let value = match Point::from_canonical(encoded) {
            None => {
                return Err("winning Maker handle evaluation is not canonical".to_owned());
            },
            Some(value) => value,
        };
        if party < 1 || party > COMMITTEE_SIZE {
            return Err("winning Maker handle evaluation duplicated a committee party".to_owned());
        }
        let mut j: usize = 0;
        while j < i
            invariant
                j <= i,
                forall|k: int| 0 <= k < j ==> (#[trigger] read@[k]).party != party,
            decreases i - j,
        {
            if read[j].party == party {
                proof {
                    assert(evaluation_read(all[j as int], read@[j as int]));
                    assert(handle_party(all[j as int]) == handle_party(all[i as int]));
                    assert(handle_repeated(all, i as int));
                }
                return Err("winning Maker handle evaluation duplicated a committee party".to_owned());
            }
            j = j + 1;
        }
        proof {
            if handle_repeated(all, i as int) {
                let k = choose|k: int| 0 <= k < i && handle_party(#[trigger] all[k]) == handle_party(all[i as int]);
                assert(evaluation_read(all[k], read@[k]));
            }
        }
        read.push(HandleEvaluation { party, point: value });
        i = i + 1;
    }
    Ok(read)
}

/// Refuses a winning Maker that is nobody or the Taker.
pub fn check_maker_handle(maker: &Point, taker: &Point) -> (r: Result<(), String>)
    ensures
        match r {
            Ok(_) => maker@ != zero32() && maker@ != taker@,
            Err(e) => {
                &&& maker@ == zero32() || maker@ == taker@
                &&& e@ == "winning Maker and Taker handles must be distinct non-identity points"@
            },
        },
{
    if is_zero32(&maker.bytes) || same32(&maker.bytes, &taker.bytes) {
        Err("winning Maker and Taker handles must be distinct non-identity points".to_owned())
    } else {
        Ok(())
    }
}

/// Refuses receipts that certify another job than the one that was proved.
pub fn check_certified(certified: &[u8; 32], job_id: &[u8; 32]) -> (r: Result<(), String>)
    ensures
        match r {
            Ok(_) => certified@ == job_id@,
            Err(e) => certified@ != job_id@ && e@ == "signed MPC execution receipts derive another proof job"@,
        },
{
    if same32(certified, job_id) {
        Ok(())
    } else {
        Err("signed MPC execution receipts derive another proof job".to_owned())
    }
}

/// The text of a leg.
pub fn leg_name(leg: Leg) -> (name: &'static str)
    ensures
        name@ == leg.name(),
{
    match leg {
        Leg::SecuritiesDelivery => "securities_delivery",
        Leg::SecuritiesRefund => "securities_refund",
        Leg::CashDelivery => "cash_delivery",
        Leg::CashRefund => "cash_refund",
    }
}

/// A job, and the evaluations that its witness is bound to.
pub open spec fn evaluations_json(job_id: Seq<u8>, wires: Seq<Vec<u8>>) -> Json {
    object_json(
        seq![
            ("job_id"@, hex_json(job_id)),
            ("evaluations"@, wires_json(wires)),
        ],
    )
}

/// A job, and the evaluations that its witness is bound to.
pub fn evaluations_params(job_id: &[u8; 32], wires: &Vec<Vec<u8>>) -> (params: Value)
    ensures
        params@ == evaluations_json(job_id@, wires@),
{
    let entries: Vec<(String, Value)> = vec![
        ("job_id".to_owned(), hex_value(job_id)),
        ("evaluations".to_owned(), wire_array(wires)),
    ];
    assert(Json::Object(crate::quote_messages::object_map(entries_said(entries@))) == evaluations_json(job_id@,
        wires@)) by {
        assert(entries_said(entries@) =~= seq![
            ("job_id"@, hex_json(job_id@)),
            ("evaluations"@, wires_json(wires@)),
        ]);
    }
    object(entries)
}

/// A job and its challenge.
pub open spec fn challenge_json(job_id: Seq<u8>, wire: Seq<u8>) -> Json {
    object_json(
        seq![
            ("job_id"@, hex_json(job_id)),
            ("challenge"@, Json::Text(base64_text(wire))),
        ],
    )
}

/// A job and its challenge.
pub fn challenge_params(job_id: &[u8; 32], wire: &Vec<u8>) -> (params: Value)
    ensures
        params@ == challenge_json(job_id@, wire@),
{
    let entries: Vec<(String, Value)> = vec![
        ("job_id".to_owned(), hex_value(job_id)),
        ("challenge".to_owned(), Value::Text(base64_encode(wire.as_slice()))),
    ];
    assert(Json::Object(crate::quote_messages::object_map(entries_said(entries@))) == challenge_json(job_id@,
        wire@)) by {
        assert(entries_said(entries@) =~= seq![
            ("job_id"@, hex_json(job_id@)),
            ("challenge"@, Json::Text(base64_text(wire@))),
        ]);
    }
    object(entries)
}

/// A job and the context of its hidden limit.
pub open spec fn limit_round_json(job_id: Seq<u8>, context: Seq<u8>) -> Json {
    object_json(
        seq![
            ("job_id"@, hex_json(job_id)),
            ("context"@, hex_json(context)),
        ],
    )
}

/// A job and the context of its hidden limit.
pub fn limit_round_params(job_id: &[u8; 32], context: &[u8; 32]) -> (params: Value)
    ensures
        params@ == limit_round_json(job_id@, context@),
{
    let entries: Vec<(String, Value)> = vec![
        ("job_id".to_owned(), hex_value(job_id)),
        ("context".to_owned(), hex_value(context)),
    ];
    assert(Json::Object(crate::quote_messages::object_map(entries_said(entries@))) == limit_round_json(job_id@,
        context@)) by {
        assert(entries_said(entries@) =~= seq![
            ("job_id"@, hex_json(job_id@)),
            ("context"@, hex_json(context@)),
        ]);
    }
    object(entries)
}

/// Copies of documents.
fn copies(values: &Vec<Value>) -> (copy: Vec<Value>)
    ensures
        values_said(copy@) == values_said(values@),
{
    let mut copy: Vec<Value> = Vec::new();
    let mut i: usize = 0;
    while i < values.len()
        invariant
            i <= values@.len(),
            copy@.len() == i,
            forall|j: int| 0 <= j < i ==> (#[trigger] copy@[j])@ == values@[j]@,
        decreases values@.len() - i,
    {
        copy.push(values[i].copy());
        i = i + 1;
    }
    assert(values_said(copy@) =~= values_said(values@));
    copy
}

/// A job, the evaluations its payment is bound to, and those of the winning Maker.
pub open spec fn zkpi_bind_json(job_id: Seq<u8>, wires: Seq<Vec<u8>>, handles: Seq<Json>) -> Json {
    object_json(
        seq![
            ("job_id"@, hex_json(job_id)),
            ("evaluations"@, wires_json(wires)),
            ("maker_handle_evaluations"@, Json::Array(handles)),
        ],
    )
}

/// A job, the evaluations its payment is bound to, and those of the winning Maker.
pub fn zkpi_bind_params(job_id: &[u8; 32], wires: &Vec<Vec<u8>>, handles: &Vec<Value>) -> (params: Value)
    ensures
        params@ == zkpi_bind_json(job_id@, wires@, values_said(handles@)),
{
    let entries: Vec<(String, Value)> = vec![
        ("job_id".to_owned(), hex_value(job_id)),
        ("evaluations".to_owned(), wire_array(wires)),
        ("maker_handle_evaluations".to_owned(), array(copies(handles))),
    ];
    assert(Json::Object(crate::quote_messages::object_map(entries_said(entries@))) == zkpi_bind_json(job_id@, wires@,
        values_said(handles@))) by {
        assert(entries_said(entries@) =~= seq![
            ("job_id"@, hex_json(job_id@)),
            ("evaluations"@, wires_json(wires@)),
            ("maker_handle_evaluations"@, Json::Array(values_said(handles@))),
        ]);
    }
    object(entries)
}

/// A job and the messages that its quote is assembled from, under the signing quorum.
pub open spec fn finalize_json(
    job_id: Seq<u8>,
    rounds: Seq<Vec<u8>>,
    seals: Seq<Vec<u8>>,
    responses: Seq<Vec<u8>>,
) -> Json {
    object_json(
        seq![
            ("job_id"@, hex_json(job_id)),
            ("rounds"@, wires_json(rounds)),
            ("seals"@, wires_json(seals)),
            ("responses"@, wires_json(responses)),
            ("quorum"@, quorum_json()),
        ],
    )
}

/// A job and the messages that its quote is assembled from, under the signing quorum.
pub fn finalize_params(
    job_id: &[u8; 32],
    rounds: &Vec<Vec<u8>>,
    seals: &Vec<Vec<u8>>,
    responses: &Vec<Vec<u8>>,
) -> (params: Value)
    ensures
        params@ == finalize_json(job_id@, rounds@, seals@, responses@),
{
    let entries: Vec<(String, Value)> = vec![
        ("job_id".to_owned(), hex_value(job_id)),
        ("rounds".to_owned(), wire_array(rounds)),
        ("seals".to_owned(), wire_array(seals)),
        ("responses".to_owned(), wire_array(responses)),
        ("quorum".to_owned(), quorum_value()),
    ];
    assert(Json::Object(crate::quote_messages::object_map(entries_said(entries@))) == finalize_json(job_id@, rounds@,
        seals@, responses@)) by {
        assert(entries_said(entries@) =~= seq![
            ("job_id"@, hex_json(job_id@)),
            ("rounds"@, wires_json(rounds@)),
            ("seals"@, wires_json(seals@)),
            ("responses"@, wires_json(responses@)),
            ("quorum"@, quorum_json()),
        ]);
    }
    object(entries)
}

/// The signing quorum, counted from one.
pub open spec fn quorum_json() -> Json {
    Json::Array(seq![Json::Integer(1), Json::Integer(4), Json::Integer(7)])
}

fn quorum_value() -> (value: Value)
    ensures
        value@ == quorum_json(),
{
    let values: Vec<Value> = vec![Value::Integer(1), Value::Integer(4), Value::Integer(7)];
    assert(values@.map_values(|v: Value| v@) =~= quorum_json()->Array_0);
    array(values)
}

/// A payment whose signature the quorum is asked to authorize.
#[derive(Debug)]
pub struct PartialPayment {
    pub digest: [u8; 64],
    pub asset_commitment: Point,
    pub payer_handle: Point,
    pub payee_handle: Point,
    pub deadline: u64,
    pub nonce: [u8; 32],
    /// The digest of the quote's proof, where the payment is bound to one.
    pub quote_digest: Option<[u8; 32]>,
}

/// What the quorum is asked to authorize a payment with.
pub open spec fn zkpi_json(
    job_id: Seq<u8>,
    payment: PartialPayment,
    signing_job: Seq<u8>,
    quote_digest: Seq<u8>,
    amount_range: Seq<u8>,
    price_range: Seq<u8>,
) -> Json {
    object_json(
        seq![
            ("job_id"@, hex_json(job_id)),
            ("signing_job_id"@, hex_json(signing_job)),
            ("message"@, Json::Text(base64_text(payment.digest@))),
            ("amount_range"@, Json::Text(base64_text(amount_range))),
            ("price_range"@, Json::Text(base64_text(price_range))),
            ("asset_commitment"@, hex_json(payment.asset_commitment@)),
            ("payer_handle"@, hex_json(payment.payer_handle@)),
            ("payee_handle"@, hex_json(payment.payee_handle@)),
            ("deadline"@, Json::Integer(payment.deadline as int)),
            ("nonce"@, hex_json(payment.nonce@)),
            ("quote_digest"@, hex_json(quote_digest)),
        ],
    )
}

/// What the quorum is asked to authorize a payment with.
pub fn zkpi_params(
    job_id: &[u8; 32],
    payment: &PartialPayment,
    signing_job: &[u8; 32],
    quote_digest: &[u8; 32],
    amount_range: &Vec<u8>,
    price_range: &Vec<u8>,
) -> (params: Value)
    ensures
        params@ == zkpi_json(job_id@, *payment, signing_job@, quote_digest@, amount_range@, price_range@),
{
    let entries: Vec<(String, Value)> = vec![
        ("job_id".to_owned(), hex_value(job_id)),
        ("signing_job_id".to_owned(), hex_value(signing_job)),
        ("message".to_owned(), Value::Text(base64_encode(payment.digest.as_slice()))),
        ("amount_range".to_owned(), Value::Text(base64_encode(amount_range.as_slice()))),
        ("price_range".to_owned(), Value::Text(base64_encode(price_range.as_slice()))),
        ("asset_commitment".to_owned(), hex_value(&payment.asset_commitment.bytes)),
        ("payer_handle".to_owned(), hex_value(&payment.payer_handle.bytes)),
        ("payee_handle".to_owned(), hex_value(&payment.payee_handle.bytes)),
        ("deadline".to_owned(), Value::Integer(payment.deadline as i128)),
        ("nonce".to_owned(), hex_value(&payment.nonce)),
        ("quote_digest".to_owned(), hex_value(quote_digest)),
    ];
    assert(Json::Object(crate::quote_messages::object_map(entries_said(entries@))) == zkpi_json(job_id@, *payment,
        signing_job@, quote_digest@, amount_range@, price_range@)) by {
        assert(entries_said(entries@) =~= seq![
            ("job_id"@, hex_json(job_id@)),
            ("signing_job_id"@, hex_json(signing_job@)),
            ("message"@, Json::Text(base64_text(payment.digest@))),
            ("amount_range"@, Json::Text(base64_text(amount_range@))),
            ("price_range"@, Json::Text(base64_text(price_range@))),
            ("asset_commitment"@, hex_json(payment.asset_commitment@)),
            ("payer_handle"@, hex_json(payment.payer_handle@)),
            ("payee_handle"@, hex_json(payment.payee_handle@)),
            ("deadline"@, Json::Integer(payment.deadline as int)),
            ("nonce"@, hex_json(payment.nonce@)),
            ("quote_digest"@, hex_json(quote_digest@)),
        ]);
    }
    object(entries)
}

/// Asks the signing quorum to authorize a payment that is bound to a quote's proof.
pub fn authorize_zkpi<T: ProofPartyRpc>(
    parties: &mut Vec<T>,
    job_id: &[u8; 32],
    payment: &PartialPayment,
    amount_range: &Vec<u8>,
    price_range: &Vec<u8>,
) -> (r: Result<(), String>)
    requires
        old(parties)@.len() == COMMITTEE_SIZE,
    ensures
        final(parties)@.len() == COMMITTEE_SIZE,
        match payment.quote_digest {
            None => {
                &&& r matches Err(e) && e@ == "proof nodes refuse legacy clear quote-key signing"@
                &&& told(final(parties)@) == told(old(parties)@)
            },
            Some(quote_digest) => {
                let params = zkpi_json(
                    job_id@,
                    *payment,
                    signing_job_of(payment.digest@),
                    quote_digest@,
                    amount_range@,
                    price_range@,
                );
                exists|outcomes: Seq<Result<Json, Seq<char>>>|
                    #![trigger asked(
                        told(old(parties)@),
                        signing_quorum(),
                        "authorize_zkpi"@,
                        params,
                        outcomes,
                        outcomes.len(),
                    )]
                    told(final(parties)@) == asked(
                        told(old(parties)@),
                        signing_quorum(),
                        "authorize_zkpi"@,
                        params,
                        outcomes,
                        outcomes.len(),
                    ) && decided(
                        outcomes,
                        3,
                        |o: Result<Json, Seq<char>>| demand_refusal(o, Demand::Answer, ""@),
                        error_of(r),
                    )
            },
        },
{
    let quote_digest = match &payment.quote_digest {
        None => {
            return Err("proof nodes refuse legacy clear quote-key signing".to_owned());
        },
        Some(digest) => digest,
    };
    let job = signing_job(payment.digest.as_slice());
    let params = zkpi_params(job_id, payment, &job, quote_digest, amount_range, price_range);
    let targets = signing_parties();
    demand_all(parties, &targets, "authorize_zkpi", &params, Demand::Answer, "")
}

/// What the quorum is asked to authorize a settlement with.
#[derive(Debug)]
pub struct TypedSettlement {
    pub job_id: [u8; 32],
    pub message: Vec<u8>,
    pub payment: Vec<u8>,
    pub context: Vec<u8>,
    pub pretrade_ack: Vec<u8>,
}

/// What the quorum is asked to authorize a settlement with.
pub open spec fn typed_json(settlement: TypedSettlement, signing_job: Seq<u8>) -> Json {
    object_json(
        seq![
            ("job_id"@, hex_json(settlement.job_id@)),
            ("signing_job_id"@, hex_json(signing_job)),
            ("message"@, Json::Text(base64_text(settlement.message@))),
            ("payment"@, Json::Text(base64_text(settlement.payment@))),
            ("context"@, Json::Text(base64_text(settlement.context@))),
            ("pretrade_ack"@, Json::Text(base64_text(settlement.pretrade_ack@))),
        ],
    )
}

/// What the quorum is asked to authorize a settlement with.
pub fn typed_params(settlement: &TypedSettlement, signing_job: &[u8; 32]) -> (params: Value)
    ensures
        params@ == typed_json(*settlement, signing_job@),
{
    let entries: Vec<(String, Value)> = vec![
        ("job_id".to_owned(), hex_value(&settlement.job_id)),
        ("signing_job_id".to_owned(), hex_value(signing_job)),
        ("message".to_owned(), Value::Text(base64_encode(settlement.message.as_slice()))),
        ("payment".to_owned(), Value::Text(base64_encode(settlement.payment.as_slice()))),
        ("context".to_owned(), Value::Text(base64_encode(settlement.context.as_slice()))),
        ("pretrade_ack".to_owned(), Value::Text(base64_encode(settlement.pretrade_ack.as_slice()))),
    ];
    assert(Json::Object(crate::quote_messages::object_map(entries_said(entries@))) == typed_json(*settlement,
        signing_job@)) by {
        assert(entries_said(entries@) =~= seq![
            ("job_id"@, hex_json(settlement.job_id@)),
            ("signing_job_id"@, hex_json(signing_job@)),
            ("message"@, Json::Text(base64_text(settlement.message@))),
            ("payment"@, Json::Text(base64_text(settlement.payment@))),
            ("context"@, Json::Text(base64_text(settlement.context@))),
            ("pretrade_ack"@, Json::Text(base64_text(settlement.pretrade_ack@))),
        ]);
    }
    object(entries)
}

/// Asks the signing quorum to authorize the settlement of a completed proof.
pub fn authorize_typed<T: ProofPartyRpc>(parties: &mut Vec<T>, settlement: &TypedSettlement) -> (r: Result<(), String>)
    ensures
        if old(parties)@.len() != COMMITTEE_SIZE {
            &&& r matches Err(e) && e@ == "typed product settlement requires exactly seven parties"@
            &&& told(final(parties)@) == told(old(parties)@)
        } else {
            let params = typed_json(*settlement, signing_job_of(settlement.message@));
            exists|outcomes: Seq<Result<Json, Seq<char>>>|
                #![trigger asked(
                    told(old(parties)@),
                    signing_quorum(),
                    "authorize_typed"@,
                    params,
                    outcomes,
                    outcomes.len(),
                )]
                told(final(parties)@) == asked(
                    told(old(parties)@),
                    signing_quorum(),
                    "authorize_typed"@,
                    params,
                    outcomes,
                    outcomes.len(),
                ) && decided(
                    outcomes,
                    3,
                    |o: Result<Json, Seq<char>>|
                        demand_refusal(
                            o,
                            Demand::True("authorized"),
                            "proof party did not authorize the typed settlement"@,
                        ),
                    error_of(r),
                )
        },
{
    if parties.len() != COMMITTEE_SIZE {
        return Err("typed product settlement requires exactly seven parties".to_owned());
    }
    let job = signing_job(settlement.message.as_slice());
    let params = typed_params(settlement, &job);
    let targets = signing_parties();
    demand_all(
        parties,
        &targets,
        "authorize_typed",
        &params,
        Demand::True("authorized"),
        "proof party did not authorize the typed settlement",
    )
}

/// What the quorum is asked to authorize a pool allocation with.
#[derive(Debug)]
pub struct PoolAllocation {
    pub job_id: [u8; 32],
    pub message: Vec<u8>,
    pub allocation_binding: Value,
    pub payment: Vec<u8>,
    pub dvp_proofs: Vec<u8>,
    pub pool_remainder_range: Vec<u8>,
    pub mandate_unsigned: Vec<u8>,
    pub mandate_signature: Vec<u8>,
}

/// What the quorum is asked to authorize a pool allocation with.
pub open spec fn allocation_json(allocation: PoolAllocation, signing_job: Seq<u8>) -> Json {
    object_json(
        seq![
            ("job_id"@, hex_json(allocation.job_id@)),
            ("signing_job_id"@, hex_json(signing_job)),
            ("message"@, Json::Text(base64_text(allocation.message@))),
            ("allocation_binding"@, allocation.allocation_binding@),
            ("payment"@, Json::Text(base64_text(allocation.payment@))),
            ("dvp_proofs"@, Json::Text(base64_text(allocation.dvp_proofs@))),
            ("pool_remainder_range"@, Json::Text(base64_text(allocation.pool_remainder_range@))),
            ("role"@, Json::Text("maker"@)),
            ("mandate_unsigned"@, Json::Text(base64_text(allocation.mandate_unsigned@))),
            ("mandate_signature"@, Json::Text(hex_text(allocation.mandate_signature@))),
        ],
    )
}

/// What the quorum is asked to authorize a pool allocation with.
pub fn allocation_params(allocation: &PoolAllocation, signing_job: &[u8; 32]) -> (params: Value)
    ensures
        params@ == allocation_json(*allocation, signing_job@),
{
    let entries: Vec<(String, Value)> = vec![
        ("job_id".to_owned(), hex_value(&allocation.job_id)),
        ("signing_job_id".to_owned(), hex_value(signing_job)),
        ("message".to_owned(), Value::Text(base64_encode(allocation.message.as_slice()))),
        ("allocation_binding".to_owned(), allocation.allocation_binding.copy()),
        ("payment".to_owned(), Value::Text(base64_encode(allocation.payment.as_slice()))),
        ("dvp_proofs".to_owned(), Value::Text(base64_encode(allocation.dvp_proofs.as_slice()))),
        ("pool_remainder_range".to_owned(), Value::Text(base64_encode(allocation.pool_remainder_range.as_slice()))),
        ("role".to_owned(), Value::Text("maker".to_owned())),
        ("mandate_unsigned".to_owned(), Value::Text(base64_encode(allocation.mandate_unsigned.as_slice()))),
        ("mandate_signature".to_owned(), Value::Text(hex_encode(allocation.mandate_signature.as_slice()))),
    ];
    assert(Json::Object(crate::quote_messages::object_map(entries_said(entries@))) == allocation_json(*allocation,
        signing_job@)) by {
        assert(entries_said(entries@) =~= seq![
            ("job_id"@, hex_json(allocation.job_id@)),
            ("signing_job_id"@, hex_json(signing_job@)),
            ("message"@, Json::Text(base64_text(allocation.message@))),
            ("allocation_binding"@, allocation.allocation_binding@),
            ("payment"@, Json::Text(base64_text(allocation.payment@))),
            ("dvp_proofs"@, Json::Text(base64_text(allocation.dvp_proofs@))),
            ("pool_remainder_range"@, Json::Text(base64_text(allocation.pool_remainder_range@))),
            ("role"@, Json::Text("maker"@)),
            ("mandate_unsigned"@, Json::Text(base64_text(allocation.mandate_unsigned@))),
            ("mandate_signature"@, Json::Text(hex_text(allocation.mandate_signature@))),
        ]);
    }
    object(entries)
}

/// Whether an allocation is bound to a completed proof: to its job, its quote and its
/// remainder.
pub open spec fn allocation_bound(
    bound_job: Seq<u8>,
    bound_quote: Seq<u8>,
    bound_remainder: Seq<u8>,
    job_id: Seq<u8>,
    quote_digest: Seq<u8>,
    remainder: Seq<u8>,
    r: Result<(), String>,
) -> bool {
    match r {
        Ok(_) => bound_job == job_id && bound_quote == quote_digest && bound_remainder == remainder,
        Err(e) => {
            &&& !(bound_job == job_id && bound_quote == quote_digest && bound_remainder == remainder)
            &&& e@ == "standing-pool binding differs from the completed public proof"@
        },
    }
}

/// Refuses an allocation that is not of the proof that was completed.
pub fn check_allocation_binding(
    bound_job: &[u8; 32],
    bound_quote: &[u8; 32],
    bound_remainder: &[u8; 32],
    job_id: &[u8; 32],
    quote_digest: &[u8; 32],
    remainder: &Point,
) -> (r: Result<(), String>)
    ensures
        allocation_bound(bound_job@, bound_quote@, bound_remainder@, job_id@, quote_digest@, remainder@, r),
{
    if !same32(bound_job, job_id) || !same32(bound_quote, quote_digest) || !same32(bound_remainder, &remainder.bytes) {
        return Err("standing-pool binding differs from the completed public proof".to_owned());
    }
    Ok(())
}

/// Asks the quorum that proved the quote and the delivery to authorize one exact
/// allocation from the winning Maker's standing pool.
pub fn authorize_standing_pool_allocation<T: ProofPartyRpc>(
    parties: &mut Vec<T>,
    allocation: &PoolAllocation,
) -> (r: Result<(), String>)
    ensures
        if old(parties)@.len() != COMMITTEE_SIZE {
            &&& r matches Err(e) && e@ == "standing-pool authorization requires exactly seven parties"@
            &&& told(final(parties)@) == told(old(parties)@)
        } else {
            let params = allocation_json(*allocation, signing_job_of(allocation.message@));
            exists|outcomes: Seq<Result<Json, Seq<char>>>|
                #![trigger asked(
                    told(old(parties)@),
                    signing_quorum(),
                    "authorize_standing_pool_allocation"@,
                    params,
                    outcomes,
                    outcomes.len(),
                )]
                told(final(parties)@) == asked(
                    told(old(parties)@),
                    signing_quorum(),
                    "authorize_standing_pool_allocation"@,
                    params,
                    outcomes,
                    outcomes.len(),
                ) && decided(
                    outcomes,
                    3,
                    |o: Result<Json, Seq<char>>|
                        demand_refusal(
                            o,
                            Demand::True("authorized"),
                            "proof party did not authorize the standing-pool allocation"@,
                        ),
                    error_of(r),
                )
        },
{
    if parties.len() != COMMITTEE_SIZE {
        return Err("standing-pool authorization requires exactly seven parties".to_owned());
    }
    let job = signing_job(allocation.message.as_slice());
    let params = allocation_params(allocation, &job);
    let targets = signing_parties();
    demand_all(
        parties,
        &targets,
        "authorize_standing_pool_allocation",
        &params,
        Demand::True("authorized"),
        "proof party did not authorize the standing-pool allocation",
    )
}

/// What a party is asked for the opening of a leg with.
pub open spec fn claim_json(job_id: Seq<u8>, leg: Seq<char>, recipient: Seq<u8>) -> Json {
    object_json(
        seq![
            ("job_id"@, hex_json(job_id)),
            ("leg"@, Json::Text(leg)),
            ("recipient_view"@, hex_json(recipient)),
        ],
    )
}

/// What a party is asked for the opening of a leg with.
pub fn claim_params(job_id: &[u8; 32], leg: &str, recipient: &Point) -> (params: Value)
    ensures
        params@ == claim_json(job_id@, leg@, recipient@),
{
    let entries: Vec<(String, Value)> = vec![
        ("job_id".to_owned(), hex_value(job_id)),
        ("leg".to_owned(), Value::Text(leg.to_owned())),
        ("recipient_view".to_owned(), hex_value(&recipient.bytes)),
    ];
    assert(Json::Object(crate::quote_messages::object_map(entries_said(entries@))) == claim_json(job_id@, leg@,
        recipient@)) by {
        assert(entries_said(entries@) =~= seq![
            ("job_id"@, hex_json(job_id@)),
            ("leg"@, Json::Text(leg@)),
            ("recipient_view"@, hex_json(recipient@)),
        ]);
    }
    object(entries)
}

/// Whether shares can be judged, and each in one way.
pub open spec fn judges_shares<J: Fn(&Value) -> Result<(), String>>(j: J) -> bool {
    &&& forall|v: &Value| call_requires(j, (v,))
    &&& forall|a: &Value, b: &Value, x: Result<(), String>, y: Result<(), String>|
        a@ == b@ && #[trigger] call_ensures(j, (a,), x) && #[trigger] call_ensures(j, (b,), y) ==> error_of(x)
            == error_of(y)
}

/// Whether a judgement on a share may come out so.
pub open spec fn judged_share<J: Fn(&Value) -> Result<(), String>>(
    j: J,
    value: Json,
    outcome: Result<(), String>,
) -> bool {
    exists|v: &Value| v@ == value && #[trigger] call_ensures(j, (v,), outcome)
}

/// Why a share is not well formed.
pub open spec fn share_objection<J: Fn(&Value) -> Result<(), String>>(j: J, value: Json) -> Option<Seq<char>> {
    error_of(choose|outcome: Result<(), String>| judged_share(j, value, outcome))
}

fn judge_share<J: Fn(&Value) -> Result<(), String>>(j: &J, value: &Value) -> (r: Result<(), String>)
    requires
        judges_shares(*j),
    ensures
        error_of(r) == share_objection(*j, value@),
{
    let outcome = j(value);
    proof {
        assert(call_ensures(*j, (value,), outcome));
        assert(judged_share(*j, value@, outcome));
        let chosen = choose|outcome: Result<(), String>| judged_share(*j, value@, outcome);
        assert(judged_share(*j, value@, chosen));
        let v = choose|v: &Value| v@ == value@ && #[trigger] call_ensures(*j, (v,), chosen);
        assert(call_ensures(*j, (v,), chosen));
    }
    outcome
}

/// Why an answer is no share of an opening for a recipient.
pub open spec fn share_refusal<J: Fn(&Value) -> Result<(), String>>(
    outcome: Result<Json, Seq<char>>,
    context: Seq<u8>,
    recipient: Seq<u8>,
    valid: J,
) -> Option<Seq<char>> {
    match outcome {
        Err(e) => Some(e),
        Ok(value) => {
            either(unless(text_in(value.field("context"@)) == Some(hex_text(context))
                && text_in(value.field("recipient_view"@)) == Some(hex_text(recipient)),
                "proof party changed a claim-opening context or recipient"@),
            either(unless(handle_party(value) is Some, "opening party is invalid"@),
            either(unless(value.field("recipient_public"@) is Some, "opening recipient public key is absent"@),
            either(unless(value.field("sealed"@) is Some, "authenticated opening payload is absent"@),
            share_objection(valid, value)))))
        },
    }
}

fn check_share<J: Fn(&Value) -> Result<(), String>>(
    value: &Value,
    context: &[u8; 32],
    recipient: &Point,
    valid: &J,
) -> (r: Result<(), String>)
    requires
        judges_shares(*valid),
    ensures
        error_of(r) == share_refusal(Ok(value@), context@, recipient@, *valid),
{
    let context_text = hex_encode(context.as_slice());
    let recipient_text = hex_encode(recipient.bytes.as_slice());
    let right_context = match as_text(value.get("context")) {
        Some(text) => crate::text::same_text(text, context_text.as_str()),
        None => false,
    };
    let right_recipient = match as_text(value.get("recipient_view")) {
        Some(text) => crate::text::same_text(text, recipient_text.as_str()),
        None => false,
    };
    if !right_context || !right_recipient {
        return Err("proof party changed a claim-opening context or recipient".to_owned());
    }
    match as_unsigned(value.get("party")) {
        None => {
            return Err("opening party is invalid".to_owned());
        },
        Some(wide) => {
            if wide > usize::MAX as u64 {
                return Err("opening party is invalid".to_owned());
            }
        },
    }
    if value.get("recipient_public").is_none() {
        return Err("opening recipient public key is absent".to_owned());
    }
    if value.get("sealed").is_none() {
        return Err("authenticated opening payload is absent".to_owned());
    }
    judge_share(valid, value)
}

/// Asks the signing quorum for its shares of the opening of a leg, each for the
/// one recipient in the one context.
#[verifier::loop_isolation(false)]
pub fn collect_opening<T: ProofPartyRpc, J: Fn(&Value) -> Result<(), String>>(
    parties: &mut Vec<T>,
    job_id: &[u8; 32],
    leg: Leg,
    recipient: &Point,
    context: &[u8; 32],
    valid: &J,
) -> (r: Result<Vec<Value>, String>)
    requires
        old(parties)@.len() == COMMITTEE_SIZE,
        judges_shares(*valid),
    ensures
        final(parties)@.len() == COMMITTEE_SIZE,
        exists|outcomes: Seq<Result<Json, Seq<char>>>|
            #![trigger asked(
                told(old(parties)@),
                signing_quorum(),
                "claim_opening_share"@,
                claim_json(job_id@, leg.name(), recipient@),
                outcomes,
                outcomes.len(),
            )]
            told(final(parties)@) == asked(
                told(old(parties)@),
                signing_quorum(),
                "claim_opening_share"@,
                claim_json(job_id@, leg.name(), recipient@),
                outcomes,
                outcomes.len(),
            ) && decided(
                outcomes,
                3,
                |o: Result<Json, Seq<char>>| share_refusal(o, context@, recipient@, *valid),
                error_of(r),
            ) && (r matches Ok(shares) ==> shares@.len() == 3 && forall|i: int|
                #![trigger shares@[i]]
                0 <= i < 3 ==> outcomes[i] == Ok::<Json, Seq<char>>(shares@[i]@)),
{
    let params = claim_params(job_id, leg_name(leg), recipient);
    let targets = signing_parties();
    let ghost start = told(parties@);
    let ghost check = |o: Result<Json, Seq<char>>| share_refusal(o, context@, recipient@, *valid);
    let ghost mut outcomes: Seq<Result<Json, Seq<char>>> = Seq::empty();
    let mut shares: Vec<Value> = Vec::new();
    let mut i: usize = 0;
    while i < 3
        invariant
            i <= 3,
            parties@.len() == COMMITTEE_SIZE,
            outcomes.len() == i,
            shares@.len() == i,
            told(parties@) == asked(start, targets@, "claim_opening_share"@, params@, outcomes, i as nat),
            forall|j: int| 0 <= j < i ==> check(#[trigger] outcomes[j]) is None,
            forall|j: int|
                #![trigger shares@[j]]
                0 <= j < i ==> outcomes[j] == Ok::<Json, Seq<char>>(shares@[j]@),
        decreases 3 - i,
    {
        let answer = ask_one(parties, targets[i], "claim_opening_share", &params);
        proof {
            let more = outcomes.push(answered(answer));
            crate::coordinator::asked_agrees(start, targets@, "claim_opening_share"@, params@, outcomes, more,
                i as nat);
            outcomes = more;
            assert(told(parties@) == asked(
                start,
                targets@,
                "claim_opening_share"@,
                params@,
                outcomes,
                outcomes.len(),
            ));
            assert(outcomes.last() == answered(answer));
        }
        match answer {
            Err(e) => {
                return Err(e);
            },
            Ok(value) => {
                if let Err(e) = check_share(&value, context, recipient, valid) {
                    return Err(e);
                }
                shares.push(value);
            },
        }
        i = i + 1;
    }
    Ok(shares)
}

} // verus!
