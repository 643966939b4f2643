//! What holds of the receipts of a run and the job that they certify.

use vstd::prelude::*;
use crate::application_crypto::{answers, Signature, VerifyingKey};
use crate::bytes::{be_bytes, be_bytes_width, be_value, be_value_of_be_bytes, be_widths, zero32};
use crate::coordinator::Call;
use crate::digest::sha256;
use crate::fields::{hex_in, hex_json};
use crate::json::Json;
use crate::oracle::yes;
use crate::order::{
    admission_batches, admission_lane, batches_by_node, cluster_batch, cluster_message, execution_lane,
    execution_lane_message, executions_by_node, live_proof_job_message, same_admission, same_run, Admission,
    AdmissionLane, Execution, ExecutionLane, NodeBatch, OrderedAdmission,
};
use crate::product_execution::{
    attests, execution_json, executions_asked, job_of_lane, mismatches, AttestedExecution, ProductExecutionRequest,
};
use crate::quote_laws::lookup;
use crate::quote_messages::object_json;
use crate::text::hex_round_trip;

verus! {

/// An execution is planned exactly for a lane, a slot, a state and frames that can be, an
/// order, and seven nodes that each have all their digests.
pub proof fn execution_is_planned_within_bounds(request: ProductExecutionRequest)
    ensures
        request.bounded() <==> {
            &&& request.lane <= 4095
            &&& request.slot <= u32::MAX
            &&& request.generation > 0
            &&& request.frame_count > 0
            &&& request.input_count > 0
            &&& request.order_digest@ != zero32()
            &&& request.nodes@.len() == 7
            &&& forall|i: int|
                0 <= i < 7 ==> (#[trigger] request.nodes@[i]).batch_digest@ != zero32()
                    && request.nodes@[i].source_digest@ != zero32() && request.nodes@[i].stdout_digest@ != zero32()
                    && request.nodes@[i].stderr_digest@ != zero32() && request.nodes@[i].persistence_digest@
                    != zero32()
        },
{
    if request.bounded() {
        assert forall|i: int| 0 <= i < 7 implies (#[trigger] request.nodes@[i]).batch_digest@ != zero32()
            && request.nodes@[i].source_digest@ != zero32() && request.nodes@[i].stdout_digest@ != zero32()
            && request.nodes@[i].stderr_digest@ != zero32() && request.nodes@[i].persistence_digest@ != zero32() by {
            assert(request.nodes@[i].whole());
        }
    }
}

/// The planned receipt of a node is that of the request's slot, lane and shape with the node's
/// own digests, and carries the digest of its own text.
pub proof fn planned_receipt_is_the_nodes_own(request: ProductExecutionRequest, node: int)
    requires
        0 <= node < 7,
    ensures
        request.receipts().len() == 7,
        ({
            let planned = request.receipts()[node];
            let own = request.nodes@[node];
            &&& planned.node == node
            &&& planned.slot == request.slot
            &&& planned.lane == request.lane
            &&& planned.state_generation == request.generation
            &&& planned.frame_count == request.frame_count
            &&& planned.input_count == request.input_count
            &&& planned.batch_digest == own.batch_digest@
            &&& planned.source_digest == own.source_digest@
            &&& planned.stdout_digest == own.stdout_digest@
            &&& planned.stderr_digest == own.stderr_digest@
            &&& planned.persistence_digest == own.persistence_digest@
            &&& planned.receipt_digest == sha256(planned.receipt_message())
        }),
{
    let blank = request.blank(node);
    assert(request.receipt(node).receipt_message() == blank.receipt_message());
}

/// The job of a lane is the digest of the lane's slot, number and digest, for a lane that can
/// be; a refused lane has none.
pub proof fn job_is_of_its_lane(lane: Result<ExecutionLane, Seq<char>>, id: Seq<u8>)
    ensures
        job_of_lane(lane) == Ok::<Seq<u8>, Seq<char>>(id) ==> {
            &&& lane is Ok
            &&& (lane->Ok_0).slot <= u32::MAX
            &&& (lane->Ok_0).lane <= 4095
            &&& (lane->Ok_0).digest != zero32()
            &&& id == sha256(live_proof_job_message((lane->Ok_0).slot, (lane->Ok_0).lane, (lane->Ok_0).digest))
        },
        lane is Ok && (lane->Ok_0).slot <= u32::MAX && (lane->Ok_0).lane <= 4095 && (lane->Ok_0).digest != zero32()
            ==> job_of_lane(lane) is Ok,
        lane is Err ==> job_of_lane(lane) is Err,
{
}

/// A node's receipt is taken exactly if it is of the node and agrees with the request in all
/// that was asked for.
pub proof fn receipt_agrees_in_every_field(attested: Execution, request: ProductExecutionRequest, node: int)
    ensures
        mismatches(attested, request, node, true).len() == 0 <==> {
            let own = request.nodes@[node];
            &&& attested.node == node
            &&& attested.slot == request.slot
            &&& attested.lane == request.lane
            &&& attested.state_generation == request.generation
            &&& attested.frame_count == request.frame_count
            &&& attested.input_count == request.input_count
            &&& attested.batch_digest == own.batch_digest@
            &&& attested.source_digest == own.source_digest@
            &&& attested.stdout_digest == own.stdout_digest@
            &&& attested.stderr_digest == own.stderr_digest@
            &&& attested.persistence_digest == own.persistence_digest@
        },
        mismatches(attested, request, node, false).len() > 0,
{
    reveal_strlit("node");
    reveal_strlit("slot");
    reveal_strlit("lane");
    reveal_strlit("generation");
    reveal_strlit("frame_count");
    reveal_strlit("input_count");
    reveal_strlit("batch_digest");
    reveal_strlit("source_digest");
    reveal_strlit("stdout_digest");
    reveal_strlit("stderr_digest");
    reveal_strlit("persistence_digest");
    reveal_strlit("signature");
}

/// An attestation that a party gave is complete, agrees with the request in every field, and
/// is signed, as the whole of it, with the key that the party named.
pub proof fn attestation_is_authentic<
    K: Fn(&Vec<u8>) -> bool,
    V: Fn(&VerifyingKey, &Vec<u8>, &Signature) -> bool,
>(
    outcome: Result<Json, Seq<char>>,
    request: ProductExecutionRequest,
    node: int,
    known: K,
    verify: V,
    signature_bytes: nat,
    found: AttestedExecution,
)
    requires
        attests(outcome, request, node, known, verify, signature_bytes, Ok(found)),
    ensures
        outcome is Ok,
        found.key@ == hex_in((outcome->Ok_0).field("identity_public"@)),
        yes(known, found.key@),
        found.attestation@.node == node,
        found.attestation@.slot == request.slot,
        found.attestation@.lane == request.lane,
        found.attestation@.batch_digest == request.nodes@[node].batch_digest@,
        found.attestation@.persistence_digest == request.nodes@[node].persistence_digest@,
        found.attestation@.complete(),
        answers(
            verify,
            (VerifyingKey { bytes: found.key }),
            found.attestation@.body(),
            found.attestation@.signature,
            true,
        ),
{
    receipt_agrees_in_every_field(found.attestation@, request, node);
}

/// Every party is asked for its own receipt: of the job, with its own digests.
pub proof fn party_is_asked_for_its_own_receipt(
    before: Seq<Seq<Call>>,
    request: ProductExecutionRequest,
    job: Seq<u8>,
    outcomes: Seq<Result<Json, Seq<char>>>,
    count: nat,
    node: int,
)
    requires
        0 <= node < before.len(),
        node < count,
    ensures
        ({
            let call = executions_asked(before, request, job, outcomes, count)[node].last();
            let own = request.nodes@[node];
            &&& call.method == "sign_execution_attestation"@
            &&& hex_in(call.params.field("job_id"@)) == job
            &&& call.params.field("slot"@) == Some(Json::Integer(request.slot as int))
            &&& call.params.field("lane"@) == Some(Json::Integer(request.lane as int))
            &&& call.params.field("state_generation"@) == Some(Json::Integer(request.generation as int))
            &&& call.params.field("frame_count"@) == Some(Json::Integer(request.frame_count as int))
            &&& call.params.field("input_count"@) == Some(Json::Integer(request.input_count as int))
            &&& hex_in(call.params.field("batch_digest"@)) == own.batch_digest@
            &&& hex_in(call.params.field("source_digest"@)) == own.source_digest@
            &&& hex_in(call.params.field("stdout_digest"@)) == own.stdout_digest@
            &&& hex_in(call.params.field("stderr_digest"@)) == own.stderr_digest@
        }),
{
    let own = request.nodes@[node];
    reveal_strlit("job_id");
    reveal_strlit("slot");
    reveal_strlit("lane");
    reveal_strlit("state_generation");
    reveal_strlit("frame_count");
    reveal_strlit("input_count");
    reveal_strlit("batch_digest");
    reveal_strlit("source_digest");
    reveal_strlit("stdout_digest");
    reveal_strlit("stderr_digest");
    assert("job_id"@.len() != "slot"@.len());
    assert("job_id"@.len() != "lane"@.len());
    assert("job_id"@.len() != "state_generation"@.len());
    assert("job_id"@.len() != "frame_count"@.len());
    assert("job_id"@.len() != "input_count"@.len());
    assert("job_id"@.len() != "batch_digest"@.len());
    assert("job_id"@.len() != "source_digest"@.len());
    assert("job_id"@.len() != "stdout_digest"@.len());
    assert("job_id"@.len() != "stderr_digest"@.len());
    assert("slot"@[0] != "lane"@[0]);
    assert("slot"@.len() != "state_generation"@.len());
    assert("slot"@.len() != "frame_count"@.len());
    assert("slot"@.len() != "input_count"@.len());
    assert("slot"@.len() != "batch_digest"@.len());
    assert("slot"@.len() != "source_digest"@.len());
    assert("slot"@.len() != "stdout_digest"@.len());
    assert("slot"@.len() != "stderr_digest"@.len());
    assert("lane"@.len() != "state_generation"@.len());
    assert("lane"@.len() != "frame_count"@.len());
    assert("lane"@.len() != "input_count"@.len());
    assert("lane"@.len() != "batch_digest"@.len());
    assert("lane"@.len() != "source_digest"@.len());
    assert("lane"@.len() != "stdout_digest"@.len());
    assert("lane"@.len() != "stderr_digest"@.len());
    assert("state_generation"@.len() != "frame_count"@.len());
    assert("state_generation"@.len() != "input_count"@.len());
    assert("state_generation"@.len() != "batch_digest"@.len());
    assert("state_generation"@.len() != "source_digest"@.len());
    assert("state_generation"@.len() != "stdout_digest"@.len());
    assert("state_generation"@.len() != "stderr_digest"@.len());
    assert("frame_count"@[0] != "input_count"@[0]);
    assert("frame_count"@.len() != "batch_digest"@.len());
    assert("frame_count"@.len() != "source_digest"@.len());
    assert("frame_count"@.len() != "stdout_digest"@.len());
    assert("frame_count"@.len() != "stderr_digest"@.len());
    assert("input_count"@.len() != "batch_digest"@.len());
    assert("input_count"@.len() != "source_digest"@.len());
    assert("input_count"@.len() != "stdout_digest"@.len());
    assert("input_count"@.len() != "stderr_digest"@.len());
    assert("batch_digest"@.len() != "source_digest"@.len());
    assert("batch_digest"@.len() != "stdout_digest"@.len());
    assert("batch_digest"@.len() != "stderr_digest"@.len());
    assert("source_digest"@[1] != "stdout_digest"@[1]);
    assert("source_digest"@[1] != "stderr_digest"@[1]);
    assert("stdout_digest"@[3] != "stderr_digest"@[3]);
    let fields = seq![
        ("job_id"@, hex_json(job)),
        ("slot"@, Json::Integer(request.slot as int)),
        ("lane"@, Json::Integer(request.lane as int)),
        ("state_generation"@, Json::Integer(request.generation as int)),
        ("frame_count"@, Json::Integer(request.frame_count as int)),
        ("input_count"@, Json::Integer(request.input_count as int)),
        ("batch_digest"@, hex_json(own.batch_digest@)),
        ("source_digest"@, hex_json(own.source_digest@)),
        ("stdout_digest"@, hex_json(own.stdout_digest@)),
        ("stderr_digest"@, hex_json(own.stderr_digest@)),
    ];
    assert(execution_json(request, job, node) == object_json(fields));
    lookup(fields, 0);
    lookup(fields, 1);
    lookup(fields, 2);
    lookup(fields, 3);
    lookup(fields, 4);
    lookup(fields, 5);
    lookup(fields, 6);
    lookup(fields, 7);
    lookup(fields, 8);
    lookup(fields, 9);
    hex_round_trip(job);
    hex_round_trip(own.batch_digest@);
    hex_round_trip(own.source_digest@);
    hex_round_trip(own.stdout_digest@);
    hex_round_trip(own.stderr_digest@);
}

/// A certified lane of receipts is of the slot, the lane and the source in which all seven
/// agree, over their batches in node order.
pub proof fn execution_lane_is_the_common_one(values: Seq<Execution>, order: Seq<u8>, lane: ExecutionLane, i: int)
    requires
        execution_lane(values, order) == Ok::<ExecutionLane, Seq<char>>(lane),
        0 <= i < 7,
    ensures
        values.len() == 7,
        order != zero32(),
        ({
            let sorted = executions_by_node(values);
            &&& sorted[i].node == i
            &&& sorted[i].complete()
            &&& sorted[i].slot == lane.slot
            &&& sorted[i].lane == lane.lane
            &&& sorted[i].source_digest == lane.source_digest
            &&& sorted[i].state_generation == sorted[0].state_generation
            &&& sorted[i].frame_count == sorted[0].frame_count
            &&& sorted[i].input_count == sorted[0].input_count
            &&& sorted[i].batch_digest != zero32()
            &&& lane.digest == sha256(execution_lane_message(sorted, lane.cluster_digest))
        }),
{
    let sorted = executions_by_node(values);
    assert(sorted[i].node == i && sorted[i].complete());
    assert(same_run(sorted[i], sorted[0]));
}

/// A certified admission is the one in which all seven nodes agree: its slot, place, principal,
/// ticket, claim and order.
pub proof fn admission_lane_is_the_common_one(sorted: Seq<Admission>, lane: AdmissionLane, i: int)
    requires
        admission_lane(sorted) == Ok::<AdmissionLane, Seq<char>>(lane),
        0 <= i < 7,
    ensures
        sorted[i].slot == lane.slot,
        sorted[i].sequence == lane.sequence,
        sorted[i].principal_digest == lane.principal_digest,
        sorted[i].ticket_id == lane.ticket_id,
        sorted[i].claim_digest == lane.claim_digest,
        sorted[i].order_digest == lane.order_digest,
        lane.slot <= u32::MAX,
        cluster_batch(lane.slot, lane.order_digest, admission_batches(sorted)) == Ok::<
            Seq<u8>,
            Seq<char>,
        >(lane.cluster_digest),
{
    assert(same_admission(sorted[i], sorted[0]));
}

/// A cluster's batches have a digest exactly for an order and seven nodes, from zero to six,
/// that each have a batch; it is that of the batches in node order.
pub proof fn cluster_batch_needs_every_node(slot: nat, order: Seq<u8>, values: Seq<NodeBatch>)
    ensures
        cluster_batch(slot, order, values) is Ok <==> {
            let sorted = batches_by_node(values);
            &&& order != zero32()
            &&& values.len() == 7
            &&& forall|i: int| 0 <= i < 7 ==> (#[trigger] sorted[i]).node == i && sorted[i].digest != zero32()
        },
        cluster_batch(slot, order, values) matches Ok(digest) ==> digest == sha256(
            cluster_message(slot, order, batches_by_node(values)),
        ),
{
}

/// An admission or an execution is complete exactly with every digest present and every
/// number in its range.
pub proof fn attestations_are_complete_exactly(a: Admission, e: Execution, o: OrderedAdmission)
    ensures
        a.complete() <==> {
            &&& a.node <= 6
            &&& 0 < a.sequence <= 0x7fff_ffff_ffff_ffff
            &&& a.slot <= 0x7fff_ffff_ffff_ffff
            &&& a.principal_digest != zero32() && a.ticket_id != zero32() && a.claim_digest != zero32()
            &&& a.batch_digest != zero32() && a.order_digest != zero32()
        },
        e.complete() <==> {
            &&& e.node <= 6
            &&& e.lane <= 4095
            &&& e.slot <= u32::MAX
            &&& e.state_generation > 0
            &&& 1 <= e.frame_count <= 4096
            &&& 1 <= e.input_count <= 1_000_000
            &&& e.batch_digest != zero32() && e.source_digest != zero32() && e.stdout_digest != zero32()
            &&& e.stderr_digest != zero32() && e.persistence_digest != zero32() && e.receipt_digest != zero32()
            &&& e.receipt_digest == sha256(e.receipt_message())
        },
        o.complete() <==> {
            &&& 0 < o.epoch <= 0x7fff_ffff_ffff_ffff
            &&& o.slot <= 0x7fff_ffff_ffff_ffff
            &&& 0 < o.sequence <= 0x7fff_ffff_ffff_ffff
            &&& 0 < o.expires_at <= 0x7fff_ffff_ffff_ffff
            &&& o.venue_id@ != zero32() && o.ticket_id@ != zero32() && o.batch_digest@ != zero32()
            &&& o.order_digest@ != zero32() && o.rfq_nullifier@ != zero32()
            &&& o.taker_entity_commitment@ != zero32() && o.taker_mandate_digest@ != zero32()
        },
{
}

/// The lane of an ordered admission is its own slot, place, ticket and order, with the mandate
/// as the claim and the cluster's batch.
pub proof fn ordered_admission_is_of_its_lane(value: OrderedAdmission)
    ensures
        value.lane().slot == value.slot,
        value.lane().sequence == value.sequence,
        value.lane().ticket_id == value.ticket_id@,
        value.lane().claim_digest == value.taker_mandate_digest@,
        value.lane().cluster_digest == value.batch_digest@,
        value.lane().order_digest == value.order_digest@,
{
}

/// The wire record of an attestation has every field in its place.
pub proof fn attestation_records_layout(a: Admission, e: Execution, width: nat)
    requires
        a.sized(width),
        e.sized(width),
    ensures
        a.record().len() == 178 + width,
        be_value(a.record().subrange(0, 2)) == a.node,
        be_value(a.record().subrange(2, 10)) == a.slot,
        be_value(a.record().subrange(10, 18)) == a.sequence,
        a.record().subrange(18, 50) == a.principal_digest,
        a.record().subrange(50, 82) == a.ticket_id,
        a.record().subrange(82, 114) == a.claim_digest,
        a.record().subrange(114, 146) == a.batch_digest,
        a.record().subrange(146, 178) == a.order_digest,
        a.record().skip(178) == a.signature,
        e.record().len() == 234 + width,
        be_value(e.record().subrange(0, 2)) == e.node,
        be_value(e.record().subrange(2, 10)) == e.slot,
        be_value(e.record().subrange(10, 18)) == e.lane,
        e.record().subrange(18, 50) == e.batch_digest,
        e.record().subrange(50, 82) == e.source_digest,
        e.record().subrange(82, 114) == e.stdout_digest,
        e.record().subrange(114, 146) == e.stderr_digest,
        e.record().subrange(146, 178) == e.persistence_digest,
        e.record().subrange(178, 210) == e.receipt_digest,
        be_value(e.record().subrange(210, 218)) == e.state_generation,
        be_value(e.record().subrange(218, 226)) == e.frame_count,
        be_value(e.record().subrange(226, 234)) == e.input_count,
        e.record().skip(234) == e.signature,
{
    be_widths();
    let numbers: Seq<nat> = seq![a.slot, a.sequence, e.slot, e.lane, e.state_generation, e.frame_count, e.input_count];
    assert forall|i: int| 0 <= i < 7 implies be_bytes(#[trigger] numbers[i], 8).len() == 8
        && be_value(be_bytes(numbers[i], 8)) == numbers[i] by {
        be_bytes_width(numbers[i], 8);
        be_value_of_be_bytes(numbers[i], 8);
    }
    assert(numbers[0] == a.slot && numbers[1] == a.sequence && numbers[2] == e.slot && numbers[3] == e.lane);
    assert(numbers[4] == e.state_generation && numbers[5] == e.frame_count && numbers[6] == e.input_count);
    be_bytes_width(a.node, 2);
    be_value_of_be_bytes(a.node, 2);
    be_bytes_width(e.node, 2);
    be_value_of_be_bytes(e.node, 2);
    let r = a.record();
    assert(r.subrange(0, 2) =~= be_bytes(a.node, 2));
    assert(r.subrange(2, 10) =~= be_bytes(a.slot, 8));
    assert(r.subrange(10, 18) =~= be_bytes(a.sequence, 8));
    assert(r.subrange(18, 50) =~= a.principal_digest);
    assert(r.subrange(50, 82) =~= a.ticket_id);
    assert(r.subrange(82, 114) =~= a.claim_digest);
    assert(r.subrange(114, 146) =~= a.batch_digest);
    assert(r.subrange(146, 178) =~= a.order_digest);
    assert(r.skip(178) =~= a.signature);
    let r = e.record();
    assert(r.subrange(0, 2) =~= be_bytes(e.node, 2));
    assert(r.subrange(2, 10) =~= be_bytes(e.slot, 8));
    assert(r.subrange(10, 18) =~= be_bytes(e.lane, 8));
    assert(r.subrange(18, 50) =~= e.batch_digest);
    assert(r.subrange(50, 82) =~= e.source_digest);
    assert(r.subrange(82, 114) =~= e.stdout_digest);
    assert(r.subrange(114, 146) =~= e.stderr_digest);
    assert(r.subrange(146, 178) =~= e.persistence_digest);
    assert(r.subrange(178, 210) =~= e.receipt_digest);
    assert(r.subrange(210, 218) =~= be_bytes(e.state_generation, 8));
    assert(r.subrange(218, 226) =~= be_bytes(e.frame_count, 8));
    assert(r.subrange(226, 234) =~= be_bytes(e.input_count, 8));
    assert(r.skip(234) =~= e.signature);
}

} // verus!
