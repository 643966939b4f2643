//! What the signed and hashed texts say, part by part: no two of a kind that say
//! different things are the same text.

use vstd::prelude::*;
use crate::bytes::{
    ascii_width, be_bytes, be_bytes_width, be_value, be_value_of_be_bytes, be_widths, joined, text_bytes,
};
use crate::digest::sha256;
use crate::order::{
    batch_record, cluster_message, complete_quote_message, execution_lane_message, live_proof_job_message,
    principal_message, principal_ticket_message, quote_proof_job_message, Admission, AdmissionLane, Execution,
    NodeBatch, OrderedAdmission,
};
use crate::pretrade::{binding_bodies, by_rank, PretradeAcknowledgement, PretradeReservationBinding};
use crate::proof_dkg::committee_context;
use crate::proof_peers::{confirmation_text, entry_bytes, exchange_text, identity_text, manifest_text, ProposedPeer};
use crate::proof_settle::health_message;
use crate::proof_state::signing_job_of;
use crate::resident_mpc::ResidentExecutionReceipt;
use crate::resident_store::StandingPoolStateReceipt;
use crate::sealer::order_message;
use crate::slot::{beacon_body, Manifest, Receipt, Ticket};

verus! {

/// The text of the identifier of a quote proof starts with its own mark, and every part of it stands in its place.
pub proof fn quote_proof_job_text_layout(cluster: Seq<u8>, lane: nat)
    requires
        cluster.len() == 32,
        lane <= u64::MAX,
    ensures
        ({
            let m = quote_proof_job_message(cluster, lane);
            &&& m.subrange(0, 24) == text_bytes("QOMM:LIVE-QUOTE-PROOF:v1"@)
            &&& m.subrange(24, 56) == cluster
            &&& be_value(m.subrange(56, 64)) == lane
            &&& m.len() == 64
        }),
{
    let m = quote_proof_job_message(cluster, lane);
    be_widths();
    reveal_strlit("QOMM:LIVE-QUOTE-PROOF:v1");
    ascii_width("QOMM:LIVE-QUOTE-PROOF:v1"@);
    be_bytes_width(lane, 8);
    be_value_of_be_bytes(lane, 8);
    assert(m.subrange(0, 24) =~= text_bytes("QOMM:LIVE-QUOTE-PROOF:v1"@));
    assert(m.subrange(24, 56) =~= cluster);
    assert(m.subrange(56, 64) =~= be_bytes(lane, 8));
}

/// Two texts of the identifier of a quote proof are the same only if they say the same.
pub proof fn quote_proof_job_text_binds(cluster: Seq<u8>, lane: nat, other_cluster: Seq<u8>, other_lane: nat)
    requires
        cluster.len() == 32,
        other_cluster.len() == 32,
        lane <= u64::MAX,
        other_lane <= u64::MAX,
        quote_proof_job_message(cluster, lane) == quote_proof_job_message(other_cluster, other_lane),
    ensures
        cluster == other_cluster,
        lane == other_lane,
{
    quote_proof_job_text_layout(cluster, lane);
    quote_proof_job_text_layout(other_cluster, other_lane);
}

/// The text of the identifier of a proof job starts with its own mark, and every part of it stands in its place.
pub proof fn live_proof_job_text_layout(slot: nat, lane: nat, quote: Seq<u8>)
    requires
        slot <= u32::MAX,
        lane <= u64::MAX,
        quote.len() == 32,
    ensures
        ({
            let m = live_proof_job_message(slot, lane, quote);
            &&& m.subrange(0, 22) == text_bytes("QOMM:LIVE-PROOF-JOB:v1"@)
            &&& be_value(m.subrange(22, 26)) == slot
            &&& be_value(m.subrange(26, 34)) == lane
            &&& m.subrange(34, 66) == quote
            &&& m.len() == 66
        }),
{
    let m = live_proof_job_message(slot, lane, quote);
    be_widths();
    reveal_strlit("QOMM:LIVE-PROOF-JOB:v1");
    ascii_width("QOMM:LIVE-PROOF-JOB:v1"@);
    be_bytes_width(slot, 4);
    be_value_of_be_bytes(slot, 4);
    be_bytes_width(lane, 8);
    be_value_of_be_bytes(lane, 8);
    assert(m.subrange(0, 22) =~= text_bytes("QOMM:LIVE-PROOF-JOB:v1"@));
    assert(m.subrange(22, 26) =~= be_bytes(slot, 4));
    assert(m.subrange(26, 34) =~= be_bytes(lane, 8));
    assert(m.subrange(34, 66) =~= quote);
}

/// Two texts of the identifier of a proof job are the same only if they say the same.
pub proof fn live_proof_job_text_binds(
    slot: nat,
    lane: nat,
    quote: Seq<u8>,
    other_slot: nat,
    other_lane: nat,
    other_quote: Seq<u8>,
)
    requires
        slot <= u32::MAX,
        other_slot <= u32::MAX,
        lane <= u64::MAX,
        other_lane <= u64::MAX,
        quote.len() == 32,
        other_quote.len() == 32,
        live_proof_job_message(slot, lane, quote) == live_proof_job_message(other_slot, other_lane, other_quote),
    ensures
        slot == other_slot,
        lane == other_lane,
        quote == other_quote,
{
    live_proof_job_text_layout(slot, lane, quote);
    live_proof_job_text_layout(other_slot, other_lane, other_quote);
}

/// The text of the context of a complete quote starts with its own mark, and every part of it stands in its place.
pub proof fn complete_quote_text_layout(job: Seq<u8>, context: Seq<u8>)
    requires
        job.len() == 32,
        context.len() == 32,
    ensures
        ({
            let m = complete_quote_message(job, context);
            &&& m.subrange(0, 35) == text_bytes("QOMM:LIVE:COMPLETE-QUOTE-CONTEXT:v1"@)
            &&& m.subrange(35, 67) == job
            &&& m.subrange(67, 99) == context
            &&& m.len() == 99
        }),
{
    let m = complete_quote_message(job, context);
    reveal_strlit("QOMM:LIVE:COMPLETE-QUOTE-CONTEXT:v1");
    ascii_width("QOMM:LIVE:COMPLETE-QUOTE-CONTEXT:v1"@);
    assert(m.subrange(0, 35) =~= text_bytes("QOMM:LIVE:COMPLETE-QUOTE-CONTEXT:v1"@));
    assert(m.subrange(35, 67) =~= job);
    assert(m.subrange(67, 99) =~= context);
}

/// Two texts of the context of a complete quote are the same only if they say the same.
pub proof fn complete_quote_text_binds(job: Seq<u8>, context: Seq<u8>, other_job: Seq<u8>, other_context: Seq<u8>)
    requires
        job.len() == 32,
        other_job.len() == 32,
        context.len() == 32,
        other_context.len() == 32,
        complete_quote_message(job, context) == complete_quote_message(other_job, other_context),
    ensures
        job == other_job,
        context == other_context,
{
    complete_quote_text_layout(job, context);
    complete_quote_text_layout(other_job, other_context);
}

/// The text of a node's admission starts with its own mark, and every part of it stands in its place.
pub proof fn admission_text_layout(value: Admission)
    requires
        value.node <= u16::MAX,
        value.slot <= u64::MAX,
        value.sequence <= u64::MAX,
        value.principal_digest.len() == 32,
        value.ticket_id.len() == 32,
        value.claim_digest.len() == 32,
        value.batch_digest.len() == 32,
        value.order_digest.len() == 32,
    ensures
        ({
            let m = value.body();
            &&& m.subrange(0, 28) == text_bytes("QOMM:ORDER:NODE-ADMISSION:v2"@)
            &&& be_value(m.subrange(28, 30)) == value.node
            &&& be_value(m.subrange(30, 38)) == value.slot
            &&& be_value(m.subrange(38, 46)) == value.sequence
            &&& m.subrange(46, 78) == value.principal_digest
            &&& m.subrange(78, 110) == value.ticket_id
            &&& m.subrange(110, 142) == value.claim_digest
            &&& m.subrange(142, 174) == value.batch_digest
            &&& m.subrange(174, 206) == value.order_digest
            &&& m.len() == 206
        }),
{
    let m = value.body();
    be_widths();
    reveal_strlit("QOMM:ORDER:NODE-ADMISSION:v2");
    ascii_width("QOMM:ORDER:NODE-ADMISSION:v2"@);
    be_bytes_width(value.node, 2);
    be_value_of_be_bytes(value.node, 2);
    be_bytes_width(value.slot, 8);
    be_value_of_be_bytes(value.slot, 8);
    be_bytes_width(value.sequence, 8);
    be_value_of_be_bytes(value.sequence, 8);
    assert(m.subrange(0, 28) =~= text_bytes("QOMM:ORDER:NODE-ADMISSION:v2"@));
    assert(m.subrange(28, 30) =~= be_bytes(value.node, 2));
    assert(m.subrange(30, 38) =~= be_bytes(value.slot, 8));
    assert(m.subrange(38, 46) =~= be_bytes(value.sequence, 8));
    assert(m.subrange(46, 78) =~= value.principal_digest);
    assert(m.subrange(78, 110) =~= value.ticket_id);
    assert(m.subrange(110, 142) =~= value.claim_digest);
    assert(m.subrange(142, 174) =~= value.batch_digest);
    assert(m.subrange(174, 206) =~= value.order_digest);
}

/// Two texts of a node's admission are the same only if they say the same.
pub proof fn admission_text_binds(value: Admission, other_value: Admission)
    requires
        value.node <= u16::MAX,
        other_value.node <= u16::MAX,
        value.slot <= u64::MAX,
        other_value.slot <= u64::MAX,
        value.sequence <= u64::MAX,
        other_value.sequence <= u64::MAX,
        value.principal_digest.len() == 32,
        other_value.principal_digest.len() == 32,
        value.ticket_id.len() == 32,
        other_value.ticket_id.len() == 32,
        value.claim_digest.len() == 32,
        other_value.claim_digest.len() == 32,
        value.batch_digest.len() == 32,
        other_value.batch_digest.len() == 32,
        value.order_digest.len() == 32,
        other_value.order_digest.len() == 32,
        value.body() == other_value.body(),
    ensures
        value.node == other_value.node,
        value.slot == other_value.slot,
        value.sequence == other_value.sequence,
        value.principal_digest == other_value.principal_digest,
        value.ticket_id == other_value.ticket_id,
        value.claim_digest == other_value.claim_digest,
        value.batch_digest == other_value.batch_digest,
        value.order_digest == other_value.order_digest,
{
    admission_text_layout(value);
    admission_text_layout(other_value);
}

/// The text of the receipt of an execution starts with its own mark, and every part of it stands in its place.
pub proof fn execution_receipt_text_layout(value: Execution)
    requires
        value.node <= u16::MAX,
        value.slot <= u32::MAX,
        value.lane <= u64::MAX,
        value.batch_digest.len() == 32,
        value.source_digest.len() == 32,
        value.state_generation <= u64::MAX,
        value.frame_count <= u64::MAX,
        value.input_count <= u64::MAX,
        value.stdout_digest.len() == 32,
        value.stderr_digest.len() == 32,
        value.persistence_digest.len() == 32,
    ensures
        ({
            let m = value.receipt_message();
            &&& m.subrange(0, 29) == text_bytes("QOMM:MPC:EXECUTION-RECEIPT:v1"@)
            &&& be_value(m.subrange(29, 31)) == value.node
            &&& be_value(m.subrange(31, 35)) == value.slot
            &&& be_value(m.subrange(35, 43)) == value.lane
            &&& m.subrange(43, 75) == value.batch_digest
            &&& m.subrange(75, 107) == value.source_digest
            &&& be_value(m.subrange(107, 115)) == value.state_generation
            &&& be_value(m.subrange(115, 123)) == value.frame_count
            &&& be_value(m.subrange(123, 131)) == value.input_count
            &&& m.subrange(131, 163) == value.stdout_digest
            &&& m.subrange(163, 195) == value.stderr_digest
            &&& m.subrange(195, 227) == value.persistence_digest
            &&& m.len() == 227
        }),
{
    let m = value.receipt_message();
    be_widths();
    reveal_strlit("QOMM:MPC:EXECUTION-RECEIPT:v1");
    ascii_width("QOMM:MPC:EXECUTION-RECEIPT:v1"@);
    be_bytes_width(value.node, 2);
    be_value_of_be_bytes(value.node, 2);
    be_bytes_width(value.slot, 4);
    be_value_of_be_bytes(value.slot, 4);
    be_bytes_width(value.lane, 8);
    be_value_of_be_bytes(value.lane, 8);
    be_bytes_width(value.state_generation, 8);
    be_value_of_be_bytes(value.state_generation, 8);
    be_bytes_width(value.frame_count, 8);
    be_value_of_be_bytes(value.frame_count, 8);
    be_bytes_width(value.input_count, 8);
    be_value_of_be_bytes(value.input_count, 8);
    assert(m.subrange(0, 29) =~= text_bytes("QOMM:MPC:EXECUTION-RECEIPT:v1"@));
    assert(m.subrange(29, 31) =~= be_bytes(value.node, 2));
    assert(m.subrange(31, 35) =~= be_bytes(value.slot, 4));
    assert(m.subrange(35, 43) =~= be_bytes(value.lane, 8));
    assert(m.subrange(43, 75) =~= value.batch_digest);
    assert(m.subrange(75, 107) =~= value.source_digest);
    assert(m.subrange(107, 115) =~= be_bytes(value.state_generation, 8));
    assert(m.subrange(115, 123) =~= be_bytes(value.frame_count, 8));
    assert(m.subrange(123, 131) =~= be_bytes(value.input_count, 8));
    assert(m.subrange(131, 163) =~= value.stdout_digest);
    assert(m.subrange(163, 195) =~= value.stderr_digest);
    assert(m.subrange(195, 227) =~= value.persistence_digest);
}

/// Two texts of the receipt of an execution are the same only if they say the same.
pub proof fn execution_receipt_text_binds(value: Execution, other_value: Execution)
    requires
        value.node <= u16::MAX,
        other_value.node <= u16::MAX,
        value.slot <= u32::MAX,
        other_value.slot <= u32::MAX,
        value.lane <= u64::MAX,
        other_value.lane <= u64::MAX,
        value.batch_digest.len() == 32,
        other_value.batch_digest.len() == 32,
        value.source_digest.len() == 32,
        other_value.source_digest.len() == 32,
        value.state_generation <= u64::MAX,
        other_value.state_generation <= u64::MAX,
        value.frame_count <= u64::MAX,
        other_value.frame_count <= u64::MAX,
        value.input_count <= u64::MAX,
        other_value.input_count <= u64::MAX,
        value.stdout_digest.len() == 32,
        other_value.stdout_digest.len() == 32,
        value.stderr_digest.len() == 32,
        other_value.stderr_digest.len() == 32,
        value.persistence_digest.len() == 32,
        other_value.persistence_digest.len() == 32,
        value.receipt_message() == other_value.receipt_message(),
    ensures
        value.node == other_value.node,
        value.slot == other_value.slot,
        value.lane == other_value.lane,
        value.batch_digest == other_value.batch_digest,
        value.source_digest == other_value.source_digest,
        value.state_generation == other_value.state_generation,
        value.frame_count == other_value.frame_count,
        value.input_count == other_value.input_count,
        value.stdout_digest == other_value.stdout_digest,
        value.stderr_digest == other_value.stderr_digest,
        value.persistence_digest == other_value.persistence_digest,
{
    execution_receipt_text_layout(value);
    execution_receipt_text_layout(other_value);
}

/// The text of a node's execution starts with its own mark, and every part of it stands in its place.
pub proof fn execution_text_layout(value: Execution)
    requires
        value.node <= u16::MAX,
        value.slot <= u64::MAX,
        value.lane <= u64::MAX,
        value.batch_digest.len() == 32,
        value.source_digest.len() == 32,
        value.state_generation <= u64::MAX,
        value.frame_count <= u64::MAX,
        value.input_count <= u64::MAX,
        value.stdout_digest.len() == 32,
        value.stderr_digest.len() == 32,
        value.persistence_digest.len() == 32,
        value.receipt_digest.len() == 32,
    ensures
        ({
            let m = value.body();
            &&& m.subrange(0, 28) == text_bytes("QOMM:ORDER:NODE-EXECUTION:v2"@)
            &&& be_value(m.subrange(28, 30)) == value.node
            &&& be_value(m.subrange(30, 38)) == value.slot
            &&& be_value(m.subrange(38, 46)) == value.lane
            &&& m.subrange(46, 78) == value.batch_digest
            &&& m.subrange(78, 110) == value.source_digest
            &&& be_value(m.subrange(110, 118)) == value.state_generation
            &&& be_value(m.subrange(118, 126)) == value.frame_count
            &&& be_value(m.subrange(126, 134)) == value.input_count
            &&& m.subrange(134, 166) == value.stdout_digest
            &&& m.subrange(166, 198) == value.stderr_digest
            &&& m.subrange(198, 230) == value.persistence_digest
            &&& m.subrange(230, 262) == value.receipt_digest
            &&& m.len() == 262
        }),
{
    let m = value.body();
    be_widths();
    reveal_strlit("QOMM:ORDER:NODE-EXECUTION:v2");
    ascii_width("QOMM:ORDER:NODE-EXECUTION:v2"@);
    be_bytes_width(value.node, 2);
    be_value_of_be_bytes(value.node, 2);
    be_bytes_width(value.slot, 8);
    be_value_of_be_bytes(value.slot, 8);
    be_bytes_width(value.lane, 8);
    be_value_of_be_bytes(value.lane, 8);
    be_bytes_width(value.state_generation, 8);
    be_value_of_be_bytes(value.state_generation, 8);
    be_bytes_width(value.frame_count, 8);
    be_value_of_be_bytes(value.frame_count, 8);
    be_bytes_width(value.input_count, 8);
    be_value_of_be_bytes(value.input_count, 8);
    assert(m.subrange(0, 28) =~= text_bytes("QOMM:ORDER:NODE-EXECUTION:v2"@));
    assert(m.subrange(28, 30) =~= be_bytes(value.node, 2));
    assert(m.subrange(30, 38) =~= be_bytes(value.slot, 8));
    assert(m.subrange(38, 46) =~= be_bytes(value.lane, 8));
    assert(m.subrange(46, 78) =~= value.batch_digest);
    assert(m.subrange(78, 110) =~= value.source_digest);
    assert(m.subrange(110, 118) =~= be_bytes(value.state_generation, 8));
    assert(m.subrange(118, 126) =~= be_bytes(value.frame_count, 8));
    assert(m.subrange(126, 134) =~= be_bytes(value.input_count, 8));
    assert(m.subrange(134, 166) =~= value.stdout_digest);
    assert(m.subrange(166, 198) =~= value.stderr_digest);
    assert(m.subrange(198, 230) =~= value.persistence_digest);
    assert(m.subrange(230, 262) =~= value.receipt_digest);
}

/// Two texts of a node's execution are the same only if they say the same.
pub proof fn execution_text_binds(value: Execution, other_value: Execution)
    requires
        value.node <= u16::MAX,
        other_value.node <= u16::MAX,
        value.slot <= u64::MAX,
        other_value.slot <= u64::MAX,
        value.lane <= u64::MAX,
        other_value.lane <= u64::MAX,
        value.batch_digest.len() == 32,
        other_value.batch_digest.len() == 32,
        value.source_digest.len() == 32,
        other_value.source_digest.len() == 32,
        value.state_generation <= u64::MAX,
        other_value.state_generation <= u64::MAX,
        value.frame_count <= u64::MAX,
        other_value.frame_count <= u64::MAX,
        value.input_count <= u64::MAX,
        other_value.input_count <= u64::MAX,
        value.stdout_digest.len() == 32,
        other_value.stdout_digest.len() == 32,
        value.stderr_digest.len() == 32,
        other_value.stderr_digest.len() == 32,
        value.persistence_digest.len() == 32,
        other_value.persistence_digest.len() == 32,
        value.receipt_digest.len() == 32,
        other_value.receipt_digest.len() == 32,
        value.body() == other_value.body(),
    ensures
        value.node == other_value.node,
        value.slot == other_value.slot,
        value.lane == other_value.lane,
        value.batch_digest == other_value.batch_digest,
        value.source_digest == other_value.source_digest,
        value.state_generation == other_value.state_generation,
        value.frame_count == other_value.frame_count,
        value.input_count == other_value.input_count,
        value.stdout_digest == other_value.stdout_digest,
        value.stderr_digest == other_value.stderr_digest,
        value.persistence_digest == other_value.persistence_digest,
        value.receipt_digest == other_value.receipt_digest,
{
    execution_text_layout(value);
    execution_text_layout(other_value);
}

/// The text of a certified admission starts with its own mark, and every part of it stands in its place.
pub proof fn certified_admission_text_layout(value: AdmissionLane, venue: Seq<u8>, epoch: nat)
    requires
        venue.len() == 32,
        epoch <= u64::MAX,
        value.slot <= u64::MAX,
        value.sequence <= u64::MAX,
        value.ticket_id.len() == 32,
        value.claim_digest.len() == 32,
        value.cluster_digest.len() == 32,
        value.order_digest.len() == 32,
    ensures
        ({
            let m = value.message(venue, epoch);
            &&& m.subrange(0, 33) == text_bytes("QOMM:ORDER:CERTIFIED-ADMISSION:v1"@)
            &&& m.subrange(33, 65) == venue
            &&& be_value(m.subrange(65, 73)) == epoch
            &&& be_value(m.subrange(73, 81)) == value.slot
            &&& be_value(m.subrange(81, 89)) == value.sequence
            &&& m.subrange(89, 121) == value.ticket_id
            &&& m.subrange(121, 153) == value.claim_digest
            &&& m.subrange(153, 185) == value.cluster_digest
            &&& m.subrange(185, 217) == value.order_digest
            &&& m.len() == 217
        }),
{
    let m = value.message(venue, epoch);
    be_widths();
    reveal_strlit("QOMM:ORDER:CERTIFIED-ADMISSION:v1");
    ascii_width("QOMM:ORDER:CERTIFIED-ADMISSION:v1"@);
    be_bytes_width(epoch, 8);
    be_value_of_be_bytes(epoch, 8);
    be_bytes_width(value.slot, 8);
    be_value_of_be_bytes(value.slot, 8);
    be_bytes_width(value.sequence, 8);
    be_value_of_be_bytes(value.sequence, 8);
    assert(m.subrange(0, 33) =~= text_bytes("QOMM:ORDER:CERTIFIED-ADMISSION:v1"@));
    assert(m.subrange(33, 65) =~= venue);
    assert(m.subrange(65, 73) =~= be_bytes(epoch, 8));
    assert(m.subrange(73, 81) =~= be_bytes(value.slot, 8));
    assert(m.subrange(81, 89) =~= be_bytes(value.sequence, 8));
    assert(m.subrange(89, 121) =~= value.ticket_id);
    assert(m.subrange(121, 153) =~= value.claim_digest);
    assert(m.subrange(153, 185) =~= value.cluster_digest);
    assert(m.subrange(185, 217) =~= value.order_digest);
}

/// Two texts of a certified admission are the same only if they say the same.
pub proof fn certified_admission_text_binds(
    value: AdmissionLane,
    venue: Seq<u8>,
    epoch: nat,
    other_value: AdmissionLane,
    other_venue: Seq<u8>,
    other_epoch: nat,
)
    requires
        venue.len() == 32,
        other_venue.len() == 32,
        epoch <= u64::MAX,
        other_epoch <= u64::MAX,
        value.slot <= u64::MAX,
        other_value.slot <= u64::MAX,
        value.sequence <= u64::MAX,
        other_value.sequence <= u64::MAX,
        value.ticket_id.len() == 32,
        other_value.ticket_id.len() == 32,
        value.claim_digest.len() == 32,
        other_value.claim_digest.len() == 32,
        value.cluster_digest.len() == 32,
        other_value.cluster_digest.len() == 32,
        value.order_digest.len() == 32,
        other_value.order_digest.len() == 32,
        value.message(venue, epoch) == other_value.message(other_venue, other_epoch),
    ensures
        venue == other_venue,
        epoch == other_epoch,
        value.slot == other_value.slot,
        value.sequence == other_value.sequence,
        value.ticket_id == other_value.ticket_id,
        value.claim_digest == other_value.claim_digest,
        value.cluster_digest == other_value.cluster_digest,
        value.order_digest == other_value.order_digest,
{
    certified_admission_text_layout(value, venue, epoch);
    certified_admission_text_layout(other_value, other_venue, other_epoch);
}

/// The text of the ticket of a principal starts with its own mark, and every part of it stands in its place.
pub proof fn principal_ticket_text_layout(slot: nat, principal: Seq<char>)
    requires
        slot <= u32::MAX,
        text_bytes(principal).len() <= u64::MAX,
    ensures
        ({
            let m = principal_ticket_message(slot, principal);
            &&& m.subrange(0, 29) == text_bytes("QOMM:NODE:PRINCIPAL-TICKET:v1"@)
            &&& be_value(m.subrange(29, 33)) == slot
            &&& be_value(m.subrange(33, 41)) == text_bytes(principal).len()
            &&& m.skip(41) == text_bytes(principal)
        }),
{
    let m = principal_ticket_message(slot, principal);
    be_widths();
    reveal_strlit("QOMM:NODE:PRINCIPAL-TICKET:v1");
    ascii_width("QOMM:NODE:PRINCIPAL-TICKET:v1"@);
    be_bytes_width(slot, 4);
    be_value_of_be_bytes(slot, 4);
    be_bytes_width(text_bytes(principal).len(), 8);
    be_value_of_be_bytes(text_bytes(principal).len(), 8);
    assert(m.subrange(0, 29) =~= text_bytes("QOMM:NODE:PRINCIPAL-TICKET:v1"@));
    assert(m.subrange(29, 33) =~= be_bytes(slot, 4));
    assert(m.subrange(33, 41) =~= be_bytes(text_bytes(principal).len(), 8));
    assert(m.skip(41) =~= text_bytes(principal));
}

/// Two texts of the ticket of a principal are the same only if they say the same.
pub proof fn principal_ticket_text_binds(slot: nat, principal: Seq<char>, other_slot: nat, other_principal: Seq<char>)
    requires
        slot <= u32::MAX,
        other_slot <= u32::MAX,
        text_bytes(principal).len() <= u64::MAX,
        text_bytes(other_principal).len() <= u64::MAX,
        principal_ticket_message(slot, principal) == principal_ticket_message(other_slot, other_principal),
    ensures
        slot == other_slot,
        text_bytes(principal).len() == text_bytes(other_principal).len(),
        text_bytes(principal) == text_bytes(other_principal),
{
    principal_ticket_text_layout(slot, principal);
    principal_ticket_text_layout(other_slot, other_principal);
}

/// The text of a principal starts with its own mark, and every part of it stands in its place.
pub proof fn principal_text_layout(principal: Seq<char>)
    requires
        text_bytes(principal).len() <= u64::MAX,
    ensures
        ({
            let m = principal_message(principal);
            &&& m.subrange(0, 23) == text_bytes("QOMM:ORDER:PRINCIPAL:v1"@)
            &&& be_value(m.subrange(23, 31)) == text_bytes(principal).len()
            &&& m.skip(31) == text_bytes(principal)
        }),
{
    let m = principal_message(principal);
    be_widths();
    reveal_strlit("QOMM:ORDER:PRINCIPAL:v1");
    ascii_width("QOMM:ORDER:PRINCIPAL:v1"@);
    be_bytes_width(text_bytes(principal).len(), 8);
    be_value_of_be_bytes(text_bytes(principal).len(), 8);
    assert(m.subrange(0, 23) =~= text_bytes("QOMM:ORDER:PRINCIPAL:v1"@));
    assert(m.subrange(23, 31) =~= be_bytes(text_bytes(principal).len(), 8));
    assert(m.skip(31) =~= text_bytes(principal));
}

/// Two texts of a principal are the same only if they say the same.
pub proof fn principal_text_binds(principal: Seq<char>, other_principal: Seq<char>)
    requires
        text_bytes(principal).len() <= u64::MAX,
        text_bytes(other_principal).len() <= u64::MAX,
        principal_message(principal) == principal_message(other_principal),
    ensures
        text_bytes(principal).len() == text_bytes(other_principal).len(),
        text_bytes(principal) == text_bytes(other_principal),
{
    principal_text_layout(principal);
    principal_text_layout(other_principal);
}

/// The text of an ordered admission starts with its own mark, and every part of it stands in its place.
pub proof fn ordered_admission_text_layout(value: OrderedAdmission)
    ensures
        ({
            let m = value.body();
            &&& m.subrange(0, 23) == text_bytes("QOMM:ORDER:ADMISSION:v1"@)
            &&& m.subrange(23, 55) == value.venue_id@
            &&& be_value(m.subrange(55, 63)) == value.epoch
            &&& be_value(m.subrange(63, 71)) == value.slot
            &&& be_value(m.subrange(71, 79)) == value.sequence
            &&& m.subrange(79, 111) == value.ticket_id@
            &&& m.subrange(111, 143) == value.batch_digest@
            &&& m.subrange(143, 175) == value.order_digest@
            &&& m.subrange(175, 207) == value.rfq_nullifier@
            &&& m.subrange(207, 239) == value.taker_entity_commitment@
            &&& m.subrange(239, 271) == value.taker_mandate_digest@
            &&& be_value(m.subrange(271, 279)) == value.expires_at
            &&& m.len() == 279
        }),
{
    let m = value.body();
    be_widths();
    reveal_strlit("QOMM:ORDER:ADMISSION:v1");
    ascii_width("QOMM:ORDER:ADMISSION:v1"@);
    be_bytes_width(value.epoch as nat, 8);
    be_value_of_be_bytes(value.epoch as nat, 8);
    be_bytes_width(value.slot as nat, 8);
    be_value_of_be_bytes(value.slot as nat, 8);
    be_bytes_width(value.sequence as nat, 8);
    be_value_of_be_bytes(value.sequence as nat, 8);
    be_bytes_width(value.expires_at as nat, 8);
    be_value_of_be_bytes(value.expires_at as nat, 8);
    assert(m.subrange(0, 23) =~= text_bytes("QOMM:ORDER:ADMISSION:v1"@));
    assert(m.subrange(23, 55) =~= value.venue_id@);
    assert(m.subrange(55, 63) =~= be_bytes(value.epoch as nat, 8));
    assert(m.subrange(63, 71) =~= be_bytes(value.slot as nat, 8));
    assert(m.subrange(71, 79) =~= be_bytes(value.sequence as nat, 8));
    assert(m.subrange(79, 111) =~= value.ticket_id@);
    assert(m.subrange(111, 143) =~= value.batch_digest@);
    assert(m.subrange(143, 175) =~= value.order_digest@);
    assert(m.subrange(175, 207) =~= value.rfq_nullifier@);
    assert(m.subrange(207, 239) =~= value.taker_entity_commitment@);
    assert(m.subrange(239, 271) =~= value.taker_mandate_digest@);
    assert(m.subrange(271, 279) =~= be_bytes(value.expires_at as nat, 8));
}

/// Two texts of an ordered admission are the same only if they say the same.
pub proof fn ordered_admission_text_binds(value: OrderedAdmission, other_value: OrderedAdmission)
    requires
        value.body() == other_value.body(),
    ensures
        value.venue_id@ == other_value.venue_id@,
        value.epoch == other_value.epoch,
        value.slot == other_value.slot,
        value.sequence == other_value.sequence,
        value.ticket_id@ == other_value.ticket_id@,
        value.batch_digest@ == other_value.batch_digest@,
        value.order_digest@ == other_value.order_digest@,
        value.rfq_nullifier@ == other_value.rfq_nullifier@,
        value.taker_entity_commitment@ == other_value.taker_entity_commitment@,
        value.taker_mandate_digest@ == other_value.taker_mandate_digest@,
        value.expires_at == other_value.expires_at,
{
    ordered_admission_text_layout(value);
    ordered_admission_text_layout(other_value);
}

/// The text of the place of a ticket starts with its own mark, and every part of it stands in its place.
pub proof fn order_key_text_layout(slot: nat, round: nat, value: Seq<u8>, ticket: Seq<u8>)
    requires
        slot <= u64::MAX,
        round <= u64::MAX,
        value.len() == 32,
        ticket.len() == 32,
    ensures
        ({
            let m = order_message(slot, round, value, ticket);
            &&& m.subrange(0, 17) == text_bytes("QOMM:ORDER:KEY:v1"@)
            &&& be_value(m.subrange(17, 25)) == slot
            &&& be_value(m.subrange(25, 33)) == round
            &&& m.subrange(33, 65) == value
            &&& m.subrange(65, 97) == ticket
            &&& m.len() == 97
        }),
{
    let m = order_message(slot, round, value, ticket);
    be_widths();
    reveal_strlit("QOMM:ORDER:KEY:v1");
    ascii_width("QOMM:ORDER:KEY:v1"@);
    be_bytes_width(slot, 8);
    be_value_of_be_bytes(slot, 8);
    be_bytes_width(round, 8);
    be_value_of_be_bytes(round, 8);
    assert(m.subrange(0, 17) =~= text_bytes("QOMM:ORDER:KEY:v1"@));
    assert(m.subrange(17, 25) =~= be_bytes(slot, 8));
    assert(m.subrange(25, 33) =~= be_bytes(round, 8));
    assert(m.subrange(33, 65) =~= value);
    assert(m.subrange(65, 97) =~= ticket);
}

/// Two texts of the place of a ticket are the same only if they say the same.
pub proof fn order_key_text_binds(
    slot: nat,
    round: nat,
    value: Seq<u8>,
    ticket: Seq<u8>,
    other_slot: nat,
    other_round: nat,
    other_value: Seq<u8>,
    other_ticket: Seq<u8>,
)
    requires
        slot <= u64::MAX,
        other_slot <= u64::MAX,
        round <= u64::MAX,
        other_round <= u64::MAX,
        value.len() == 32,
        other_value.len() == 32,
        ticket.len() == 32,
        other_ticket.len() == 32,
        order_message(slot, round, value, ticket) == order_message(other_slot, other_round, other_value, other_ticket),
    ensures
        slot == other_slot,
        round == other_round,
        value == other_value,
        ticket == other_ticket,
{
    order_key_text_layout(slot, round, value, ticket);
    order_key_text_layout(other_slot, other_round, other_value, other_ticket);
}

/// The text of a ticket starts with its own mark, and every part of it stands in its place.
pub proof fn ticket_text_layout(value: Ticket)
    requires
        value.slot <= u64::MAX,
        value.ticket_id.len() == 32,
        value.issued_at <= u64::MAX,
        value.expires_at <= u64::MAX,
    ensures
        ({
            let m = value.body();
            &&& m.subrange(0, 20) == text_bytes("QOMM:ORDER:TICKET:v2"@)
            &&& be_value(m.subrange(20, 28)) == value.slot
            &&& m.subrange(28, 60) == value.ticket_id
            &&& be_value(m.subrange(60, 68)) == value.issued_at
            &&& be_value(m.subrange(68, 76)) == value.expires_at
            &&& m.len() == 76
        }),
{
    let m = value.body();
    be_widths();
    reveal_strlit("QOMM:ORDER:TICKET:v2");
    ascii_width("QOMM:ORDER:TICKET:v2"@);
    be_bytes_width(value.slot, 8);
    be_value_of_be_bytes(value.slot, 8);
    be_bytes_width(value.issued_at, 8);
    be_value_of_be_bytes(value.issued_at, 8);
    be_bytes_width(value.expires_at, 8);
    be_value_of_be_bytes(value.expires_at, 8);
    assert(m.subrange(0, 20) =~= text_bytes("QOMM:ORDER:TICKET:v2"@));
    assert(m.subrange(20, 28) =~= be_bytes(value.slot, 8));
    assert(m.subrange(28, 60) =~= value.ticket_id);
    assert(m.subrange(60, 68) =~= be_bytes(value.issued_at, 8));
    assert(m.subrange(68, 76) =~= be_bytes(value.expires_at, 8));
}

/// Two texts of a ticket are the same only if they say the same.
pub proof fn ticket_text_binds(value: Ticket, other_value: Ticket)
    requires
        value.slot <= u64::MAX,
        other_value.slot <= u64::MAX,
        value.ticket_id.len() == 32,
        other_value.ticket_id.len() == 32,
        value.issued_at <= u64::MAX,
        other_value.issued_at <= u64::MAX,
        value.expires_at <= u64::MAX,
        other_value.expires_at <= u64::MAX,
        value.body() == other_value.body(),
    ensures
        value.slot == other_value.slot,
        value.ticket_id == other_value.ticket_id,
        value.issued_at == other_value.issued_at,
        value.expires_at == other_value.expires_at,
{
    ticket_text_layout(value);
    ticket_text_layout(other_value);
}

/// The text of a beacon starts with its own mark, and every part of it stands in its place.
pub proof fn beacon_text_layout(round: nat, value: Seq<u8>)
    requires
        round <= u64::MAX,
        value.len() == 32,
    ensures
        ({
            let m = beacon_body(round, value);
            &&& m.subrange(0, 20) == text_bytes("QOMM:ORDER:BEACON:v2"@)
            &&& be_value(m.subrange(20, 28)) == round
            &&& m.subrange(28, 60) == value
            &&& m.len() == 60
        }),
{
    let m = beacon_body(round, value);
    be_widths();
    reveal_strlit("QOMM:ORDER:BEACON:v2");
    ascii_width("QOMM:ORDER:BEACON:v2"@);
    be_bytes_width(round, 8);
    be_value_of_be_bytes(round, 8);
    assert(m.subrange(0, 20) =~= text_bytes("QOMM:ORDER:BEACON:v2"@));
    assert(m.subrange(20, 28) =~= be_bytes(round, 8));
    assert(m.subrange(28, 60) =~= value);
}

/// Two texts of a beacon are the same only if they say the same.
pub proof fn beacon_text_binds(round: nat, value: Seq<u8>, other_round: nat, other_value: Seq<u8>)
    requires
        round <= u64::MAX,
        other_round <= u64::MAX,
        value.len() == 32,
        other_value.len() == 32,
        beacon_body(round, value) == beacon_body(other_round, other_value),
    ensures
        round == other_round,
        value == other_value,
{
    beacon_text_layout(round, value);
    beacon_text_layout(other_round, other_value);
}

/// The text of a receipt starts with its own mark, and every part of it stands in its place.
pub proof fn receipt_text_layout(value: Receipt)
    requires
        value.slot <= u64::MAX,
        value.node <= u64::MAX,
        value.ticket_digest.len() == 32,
        value.frame_digest.len() == 32,
        value.received_at_ns <= u64::MAX,
    ensures
        ({
            let m = value.body();
            &&& m.subrange(0, 21) == text_bytes("QOMM:ORDER:RECEIPT:v2"@)
            &&& be_value(m.subrange(21, 29)) == value.slot
            &&& be_value(m.subrange(29, 37)) == value.node
            &&& m.subrange(37, 69) == value.ticket_digest
            &&& m.subrange(69, 101) == value.frame_digest
            &&& be_value(m.subrange(101, 109)) == value.received_at_ns
            &&& m.len() == 109
        }),
{
    let m = value.body();
    be_widths();
    reveal_strlit("QOMM:ORDER:RECEIPT:v2");
    ascii_width("QOMM:ORDER:RECEIPT:v2"@);
    be_bytes_width(value.slot, 8);
    be_value_of_be_bytes(value.slot, 8);
    be_bytes_width(value.node, 8);
    be_value_of_be_bytes(value.node, 8);
    be_bytes_width(value.received_at_ns, 8);
    be_value_of_be_bytes(value.received_at_ns, 8);
    assert(m.subrange(0, 21) =~= text_bytes("QOMM:ORDER:RECEIPT:v2"@));
    assert(m.subrange(21, 29) =~= be_bytes(value.slot, 8));
    assert(m.subrange(29, 37) =~= be_bytes(value.node, 8));
    assert(m.subrange(37, 69) =~= value.ticket_digest);
    assert(m.subrange(69, 101) =~= value.frame_digest);
    assert(m.subrange(101, 109) =~= be_bytes(value.received_at_ns, 8));
}

/// Two texts of a receipt are the same only if they say the same.
pub proof fn receipt_text_binds(value: Receipt, other_value: Receipt)
    requires
        value.slot <= u64::MAX,
        other_value.slot <= u64::MAX,
        value.node <= u64::MAX,
        other_value.node <= u64::MAX,
        value.ticket_digest.len() == 32,
        other_value.ticket_digest.len() == 32,
        value.frame_digest.len() == 32,
        other_value.frame_digest.len() == 32,
        value.received_at_ns <= u64::MAX,
        other_value.received_at_ns <= u64::MAX,
        value.body() == other_value.body(),
    ensures
        value.slot == other_value.slot,
        value.node == other_value.node,
        value.ticket_digest == other_value.ticket_digest,
        value.frame_digest == other_value.frame_digest,
        value.received_at_ns == other_value.received_at_ns,
{
    receipt_text_layout(value);
    receipt_text_layout(other_value);
}

/// The text of a manifest starts with its own mark, and every part of it stands in its place.
pub proof fn manifest_text_layout(value: Manifest)
    requires
        value.slot <= u64::MAX,
        value.node <= u64::MAX,
        value.beacon_round <= u64::MAX,
        value.beacon_value.len() == 32,
        value.previous_digest.len() == 32,
        value.tickets.len() <= u64::MAX,
    ensures
        ({
            let m = value.body();
            &&& m.subrange(0, 22) == text_bytes("QOMM:ORDER:MANIFEST:v2"@)
            &&& be_value(m.subrange(22, 30)) == value.slot
            &&& be_value(m.subrange(30, 38)) == value.node
            &&& be_value(m.subrange(38, 46)) == value.beacon_round
            &&& m.subrange(46, 78) == value.beacon_value
            &&& m.subrange(78, 110) == value.previous_digest
            &&& be_value(m.subrange(110, 118)) == value.tickets.len()
            &&& m.skip(118) == joined(value.pairs())
        }),
{
    let m = value.body();
    be_widths();
    reveal_strlit("QOMM:ORDER:MANIFEST:v2");
    ascii_width("QOMM:ORDER:MANIFEST:v2"@);
    be_bytes_width(value.slot, 8);
    be_value_of_be_bytes(value.slot, 8);
    be_bytes_width(value.node, 8);
    be_value_of_be_bytes(value.node, 8);
    be_bytes_width(value.beacon_round, 8);
    be_value_of_be_bytes(value.beacon_round, 8);
    be_bytes_width(value.tickets.len(), 8);
    be_value_of_be_bytes(value.tickets.len(), 8);
    assert(m.subrange(0, 22) =~= text_bytes("QOMM:ORDER:MANIFEST:v2"@));
    assert(m.subrange(22, 30) =~= be_bytes(value.slot, 8));
    assert(m.subrange(30, 38) =~= be_bytes(value.node, 8));
    assert(m.subrange(38, 46) =~= be_bytes(value.beacon_round, 8));
    assert(m.subrange(46, 78) =~= value.beacon_value);
    assert(m.subrange(78, 110) =~= value.previous_digest);
    assert(m.subrange(110, 118) =~= be_bytes(value.tickets.len(), 8));
    assert(m.skip(118) =~= joined(value.pairs()));
}

/// Two texts of a manifest are the same only if they say the same.
pub proof fn manifest_text_binds(value: Manifest, other_value: Manifest)
    requires
        value.slot <= u64::MAX,
        other_value.slot <= u64::MAX,
        value.node <= u64::MAX,
        other_value.node <= u64::MAX,
        value.beacon_round <= u64::MAX,
        other_value.beacon_round <= u64::MAX,
        value.beacon_value.len() == 32,
        other_value.beacon_value.len() == 32,
        value.previous_digest.len() == 32,
        other_value.previous_digest.len() == 32,
        value.tickets.len() <= u64::MAX,
        other_value.tickets.len() <= u64::MAX,
        value.body() == other_value.body(),
    ensures
        value.slot == other_value.slot,
        value.node == other_value.node,
        value.beacon_round == other_value.beacon_round,
        value.beacon_value == other_value.beacon_value,
        value.previous_digest == other_value.previous_digest,
        value.tickets.len() == other_value.tickets.len(),
        joined(value.pairs()) == joined(other_value.pairs()),
{
    manifest_text_layout(value);
    manifest_text_layout(other_value);
}

/// The text of a cluster's batches starts with its own mark, and every part of it stands in its place.
pub proof fn cluster_batch_text_layout(slot: nat, order: Seq<u8>, sorted: Seq<NodeBatch>)
    requires
        slot <= u32::MAX,
        order.len() == 32,
    ensures
        ({
            let m = cluster_message(slot, order, sorted);
            &&& m.subrange(0, 27) == text_bytes("QOMM:ORDER:CLUSTER-BATCH:v1"@)
            &&& be_value(m.subrange(27, 31)) == slot
            &&& m.subrange(31, 63) == order
            &&& m.skip(63) == joined(sorted.map_values(|b: NodeBatch| batch_record(b)))
        }),
{
    let m = cluster_message(slot, order, sorted);
    be_widths();
    reveal_strlit("QOMM:ORDER:CLUSTER-BATCH:v1");
    ascii_width("QOMM:ORDER:CLUSTER-BATCH:v1"@);
    be_bytes_width(slot, 4);
    be_value_of_be_bytes(slot, 4);
    assert(m.subrange(0, 27) =~= text_bytes("QOMM:ORDER:CLUSTER-BATCH:v1"@));
    assert(m.subrange(27, 31) =~= be_bytes(slot, 4));
    assert(m.subrange(31, 63) =~= order);
    assert(m.skip(63) =~= joined(sorted.map_values(|b: NodeBatch| batch_record(b))));
}

/// Two texts of a cluster's batches are the same only if they say the same.
pub proof fn cluster_batch_text_binds(
    slot: nat,
    order: Seq<u8>,
    sorted: Seq<NodeBatch>,
    other_slot: nat,
    other_order: Seq<u8>,
    other_sorted: Seq<NodeBatch>,
)
    requires
        slot <= u32::MAX,
        other_slot <= u32::MAX,
        order.len() == 32,
        other_order.len() == 32,
        cluster_message(slot, order, sorted) == cluster_message(other_slot, other_order, other_sorted),
    ensures
        slot == other_slot,
        order == other_order,
        joined(sorted.map_values(|b: NodeBatch| batch_record(b))) == joined(
            other_sorted.map_values(|b: NodeBatch| batch_record(b)),
        ),
{
    cluster_batch_text_layout(slot, order, sorted);
    cluster_batch_text_layout(other_slot, other_order, other_sorted);
}

/// The text of an execution lane starts with its own mark, and every part of it stands in its place.
pub proof fn execution_lane_text_layout(sorted: Seq<Execution>, cluster: Seq<u8>)
    requires
        sorted[0].slot <= u64::MAX,
        sorted[0].lane <= u64::MAX,
        cluster.len() == 32,
        sorted[0].source_digest.len() == 32,
        sorted[0].state_generation <= u64::MAX,
        sorted[0].frame_count <= u64::MAX,
        sorted[0].input_count <= u64::MAX,
    ensures
        ({
            let m = execution_lane_message(sorted, cluster);
            &&& m.subrange(0, 28) == text_bytes("QOMM:ORDER:EXECUTION-LANE:v1"@)
            &&& be_value(m.subrange(28, 36)) == sorted[0].slot
            &&& be_value(m.subrange(36, 44)) == sorted[0].lane
            &&& m.subrange(44, 76) == cluster
            &&& m.subrange(76, 108) == sorted[0].source_digest
            &&& be_value(m.subrange(108, 116)) == sorted[0].state_generation
            &&& be_value(m.subrange(116, 124)) == sorted[0].frame_count
            &&& be_value(m.subrange(124, 132)) == sorted[0].input_count
            &&& m.skip(132) == joined(sorted.map_values(|v: Execution| be_bytes(v.node, 2) + v.receipt_digest))
        }),
{
    let m = execution_lane_message(sorted, cluster);
    be_widths();
    reveal_strlit("QOMM:ORDER:EXECUTION-LANE:v1");
    ascii_width("QOMM:ORDER:EXECUTION-LANE:v1"@);
    be_bytes_width(sorted[0].slot, 8);
    be_value_of_be_bytes(sorted[0].slot, 8);
    be_bytes_width(sorted[0].lane, 8);
    be_value_of_be_bytes(sorted[0].lane, 8);
    be_bytes_width(sorted[0].state_generation, 8);
    be_value_of_be_bytes(sorted[0].state_generation, 8);
    be_bytes_width(sorted[0].frame_count, 8);
    be_value_of_be_bytes(sorted[0].frame_count, 8);
    be_bytes_width(sorted[0].input_count, 8);
    be_value_of_be_bytes(sorted[0].input_count, 8);
    assert(m.subrange(0, 28) =~= text_bytes("QOMM:ORDER:EXECUTION-LANE:v1"@));
    assert(m.subrange(28, 36) =~= be_bytes(sorted[0].slot, 8));
    assert(m.subrange(36, 44) =~= be_bytes(sorted[0].lane, 8));
    assert(m.subrange(44, 76) =~= cluster);
    assert(m.subrange(76, 108) =~= sorted[0].source_digest);
    assert(m.subrange(108, 116) =~= be_bytes(sorted[0].state_generation, 8));
    assert(m.subrange(116, 124) =~= be_bytes(sorted[0].frame_count, 8));
    assert(m.subrange(124, 132) =~= be_bytes(sorted[0].input_count, 8));
    assert(m.skip(132) =~= joined(sorted.map_values(|v: Execution| be_bytes(v.node, 2) + v.receipt_digest)));
}

/// Two texts of an execution lane are the same only if they say the same.
pub proof fn execution_lane_text_binds(
    sorted: Seq<Execution>,
    cluster: Seq<u8>,
    other_sorted: Seq<Execution>,
    other_cluster: Seq<u8>,
)
    requires
        sorted[0].slot <= u64::MAX,
        other_sorted[0].slot <= u64::MAX,
        sorted[0].lane <= u64::MAX,
        other_sorted[0].lane <= u64::MAX,
        cluster.len() == 32,
        other_cluster.len() == 32,
        sorted[0].source_digest.len() == 32,
        other_sorted[0].source_digest.len() == 32,
        sorted[0].state_generation <= u64::MAX,
        other_sorted[0].state_generation <= u64::MAX,
        sorted[0].frame_count <= u64::MAX,
        other_sorted[0].frame_count <= u64::MAX,
        sorted[0].input_count <= u64::MAX,
        other_sorted[0].input_count <= u64::MAX,
        execution_lane_message(sorted, cluster) == execution_lane_message(other_sorted, other_cluster),
    ensures
        sorted[0].slot == other_sorted[0].slot,
        sorted[0].lane == other_sorted[0].lane,
        cluster == other_cluster,
        sorted[0].source_digest == other_sorted[0].source_digest,
        sorted[0].state_generation == other_sorted[0].state_generation,
        sorted[0].frame_count == other_sorted[0].frame_count,
        sorted[0].input_count == other_sorted[0].input_count,
        joined(sorted.map_values(|v: Execution| be_bytes(v.node, 2)
            + v.receipt_digest)) == joined(other_sorted.map_values(|v: Execution| be_bytes(v.node, 2)
            + v.receipt_digest)),
{
    execution_lane_text_layout(sorted, cluster);
    execution_lane_text_layout(other_sorted, other_cluster);
}

/// The text of a reservation starts with its own mark, and every part of it stands in its place.
pub proof fn reservation_text_layout(value: PretradeReservationBinding)
    ensures
        ({
            let m = value.body();
            &&& m[0] == value.party.code()
            &&& be_value(m.subrange(1, 3)) == value.owner_index
            &&& m[3] == value.direction.code()
            &&& m.subrange(4, 36) == value.owner_handle@
            &&& m.subrange(36, 68) == value.facility_id@
            &&& m.subrange(68, 100) == value.reserve_id@
            &&& m.subrange(100, 132) == value.mandate_digest@
            &&& m.subrange(132, 164) == value.policy_digest@
            &&& m.subrange(164, 196) == value.amount_commitment@
            &&& m.subrange(196, 228) == value.reserve_receipt_digest@
            &&& m.len() == 228
        }),
{
    let m = value.body();
    be_widths();
    be_bytes_width(value.owner_index as nat, 2);
    be_value_of_be_bytes(value.owner_index as nat, 2);
    assert(m.subrange(1, 3) =~= be_bytes(value.owner_index as nat, 2));
    assert(m.subrange(4, 36) =~= value.owner_handle@);
    assert(m.subrange(36, 68) =~= value.facility_id@);
    assert(m.subrange(68, 100) =~= value.reserve_id@);
    assert(m.subrange(100, 132) =~= value.mandate_digest@);
    assert(m.subrange(132, 164) =~= value.policy_digest@);
    assert(m.subrange(164, 196) =~= value.amount_commitment@);
    assert(m.subrange(196, 228) =~= value.reserve_receipt_digest@);
}

/// Two texts of a reservation are the same only if they say the same.
pub proof fn reservation_text_binds(value: PretradeReservationBinding, other_value: PretradeReservationBinding)
    requires
        value.body() == other_value.body(),
    ensures
        value.party.code() == other_value.party.code(),
        value.owner_index == other_value.owner_index,
        value.direction.code() == other_value.direction.code(),
        value.owner_handle@ == other_value.owner_handle@,
        value.facility_id@ == other_value.facility_id@,
        value.reserve_id@ == other_value.reserve_id@,
        value.mandate_digest@ == other_value.mandate_digest@,
        value.policy_digest@ == other_value.policy_digest@,
        value.amount_commitment@ == other_value.amount_commitment@,
        value.reserve_receipt_digest@ == other_value.reserve_receipt_digest@,
{
    reservation_text_layout(value);
    reservation_text_layout(other_value);
}

/// The text of an acknowledgement starts with its own mark, and every part of it stands in its place.
pub proof fn acknowledgement_text_layout(value: PretradeAcknowledgement)
    requires
        value.bindings@.len() <= u32::MAX,
    ensures
        ({
            let m = value.body();
            &&& m.subrange(0, 26) == text_bytes("QOMM:DEFMI:PRETRADE-ACK:v2"@)
            &&& m.subrange(26, 58) == value.authority_digest@
            &&& m.subrange(58, 90) == value.defmi_id@
            &&& m.subrange(90, 122) == value.after_state_root@
            &&& be_value(m.subrange(122, 126)) == value.bindings@.len()
            &&& m.skip(126) == joined(binding_bodies(by_rank(value.bindings@))) + value.signer_public@
        }),
{
    let m = value.body();
    be_widths();
    reveal_strlit("QOMM:DEFMI:PRETRADE-ACK:v2");
    ascii_width("QOMM:DEFMI:PRETRADE-ACK:v2"@);
    be_bytes_width(value.bindings@.len(), 4);
    be_value_of_be_bytes(value.bindings@.len(), 4);
    assert(m.subrange(0, 26) =~= text_bytes("QOMM:DEFMI:PRETRADE-ACK:v2"@));
    assert(m.subrange(26, 58) =~= value.authority_digest@);
    assert(m.subrange(58, 90) =~= value.defmi_id@);
    assert(m.subrange(90, 122) =~= value.after_state_root@);
    assert(m.subrange(122, 126) =~= be_bytes(value.bindings@.len(), 4));
    assert(m.skip(126) =~= joined(binding_bodies(by_rank(value.bindings@))) + value.signer_public@);
}

/// Two texts of an acknowledgement are the same only if they say the same.
pub proof fn acknowledgement_text_binds(value: PretradeAcknowledgement, other_value: PretradeAcknowledgement)
    requires
        value.bindings@.len() <= u32::MAX,
        other_value.bindings@.len() <= u32::MAX,
        value.body() == other_value.body(),
    ensures
        value.authority_digest@ == other_value.authority_digest@,
        value.defmi_id@ == other_value.defmi_id@,
        value.after_state_root@ == other_value.after_state_root@,
        value.bindings@.len() == other_value.bindings@.len(),
        joined(binding_bodies(by_rank(value.bindings@)))
            + value.signer_public@ == joined(binding_bodies(by_rank(other_value.bindings@)))
            + other_value.signer_public@,
{
    acknowledgement_text_layout(value);
    acknowledgement_text_layout(other_value);
}

/// The text of the receipt of a resident run starts with its own mark, and every part of it stands in its place.
pub proof fn resident_receipt_text_layout(value: ResidentExecutionReceipt, source: Seq<u8>)
    requires
        source.len() == 32,
    ensures
        ({
            let m = value.message(source);
            &&& m.subrange(0, 29) == text_bytes("QOMM:MPC:EXECUTION-RECEIPT:v1"@)
            &&& be_value(m.subrange(29, 31)) == value.node
            &&& be_value(m.subrange(31, 35)) == value.slot
            &&& be_value(m.subrange(35, 43)) == value.lane
            &&& m.subrange(43, 75) == value.batch_digest@
            &&& m.subrange(75, 107) == source
            &&& be_value(m.subrange(107, 115)) == value.state_generation
            &&& be_value(m.subrange(115, 123)) == value.frame_count
            &&& be_value(m.subrange(123, 131)) == value.input_count
            &&& m.subrange(131, 163) == value.stdout_digest@
            &&& m.subrange(163, 195) == value.stderr_digest@
            &&& m.subrange(195, 227) == value.persistence_digest@
            &&& m.len() == 227
        }),
{
    let m = value.message(source);
    be_widths();
    reveal_strlit("QOMM:MPC:EXECUTION-RECEIPT:v1");
    ascii_width("QOMM:MPC:EXECUTION-RECEIPT:v1"@);
    be_bytes_width(value.node as nat, 2);
    be_value_of_be_bytes(value.node as nat, 2);
    be_bytes_width(value.slot as nat, 4);
    be_value_of_be_bytes(value.slot as nat, 4);
    be_bytes_width(value.lane as nat, 8);
    be_value_of_be_bytes(value.lane as nat, 8);
    be_bytes_width(value.state_generation as nat, 8);
    be_value_of_be_bytes(value.state_generation as nat, 8);
    be_bytes_width(value.frame_count as nat, 8);
    be_value_of_be_bytes(value.frame_count as nat, 8);
    be_bytes_width(value.input_count as nat, 8);
    be_value_of_be_bytes(value.input_count as nat, 8);
    assert(m.subrange(0, 29) =~= text_bytes("QOMM:MPC:EXECUTION-RECEIPT:v1"@));
    assert(m.subrange(29, 31) =~= be_bytes(value.node as nat, 2));
    assert(m.subrange(31, 35) =~= be_bytes(value.slot as nat, 4));
    assert(m.subrange(35, 43) =~= be_bytes(value.lane as nat, 8));
    assert(m.subrange(43, 75) =~= value.batch_digest@);
    assert(m.subrange(75, 107) =~= source);
    assert(m.subrange(107, 115) =~= be_bytes(value.state_generation as nat, 8));
    assert(m.subrange(115, 123) =~= be_bytes(value.frame_count as nat, 8));
    assert(m.subrange(123, 131) =~= be_bytes(value.input_count as nat, 8));
    assert(m.subrange(131, 163) =~= value.stdout_digest@);
    assert(m.subrange(163, 195) =~= value.stderr_digest@);
    assert(m.subrange(195, 227) =~= value.persistence_digest@);
}

/// Two texts of the receipt of a resident run are the same only if they say the same.
pub proof fn resident_receipt_text_binds(
    value: ResidentExecutionReceipt,
    source: Seq<u8>,
    other_value: ResidentExecutionReceipt,
    other_source: Seq<u8>,
)
    requires
        source.len() == 32,
        other_source.len() == 32,
        value.message(source) == other_value.message(other_source),
    ensures
        value.node == other_value.node,
        value.slot == other_value.slot,
        value.lane == other_value.lane,
        value.batch_digest@ == other_value.batch_digest@,
        source == other_source,
        value.state_generation == other_value.state_generation,
        value.frame_count == other_value.frame_count,
        value.input_count == other_value.input_count,
        value.stdout_digest@ == other_value.stdout_digest@,
        value.stderr_digest@ == other_value.stderr_digest@,
        value.persistence_digest@ == other_value.persistence_digest@,
{
    resident_receipt_text_layout(value, source);
    resident_receipt_text_layout(other_value, other_source);
}

/// The text of the receipt of a pool commit starts with its own mark, and every part of it stands in its place.
pub proof fn pool_receipt_text_layout(value: StandingPoolStateReceipt)
    ensures
        ({
            let m = value.message();
            &&& m.subrange(0, 39) == text_bytes("QOMM:MPC:STANDING-POOL-STATE-RECEIPT:v1"@)
            &&& be_value(m.subrange(39, 41)) == value.node
            &&& be_value(m.subrange(41, 49)) == value.maker
            &&& be_value(m.subrange(49, 50)) == value.direction
            &&& be_value(m.subrange(50, 58)) == value.before_generation
            &&& be_value(m.subrange(58, 66)) == value.after_generation
            &&& m.subrange(66, 98) == value.proof_job_id@
            &&& m.subrange(98, 130) == value.allocation_statement@
            &&& m.subrange(130, 162) == value.persistence_digest@
            &&& m.len() == 162
        }),
{
    let m = value.message();
    be_widths();
    reveal_strlit("QOMM:MPC:STANDING-POOL-STATE-RECEIPT:v1");
    ascii_width("QOMM:MPC:STANDING-POOL-STATE-RECEIPT:v1"@);
    be_bytes_width(value.node as nat, 2);
    be_value_of_be_bytes(value.node as nat, 2);
    be_bytes_width(value.maker as nat, 8);
    be_value_of_be_bytes(value.maker as nat, 8);
    be_bytes_width(value.direction as nat, 1);
    be_value_of_be_bytes(value.direction as nat, 1);
    be_bytes_width(value.before_generation as nat, 8);
    be_value_of_be_bytes(value.before_generation as nat, 8);
    be_bytes_width(value.after_generation as nat, 8);
    be_value_of_be_bytes(value.after_generation as nat, 8);
    assert(m.subrange(0, 39) =~= text_bytes("QOMM:MPC:STANDING-POOL-STATE-RECEIPT:v1"@));
    assert(m.subrange(39, 41) =~= be_bytes(value.node as nat, 2));
    assert(m.subrange(41, 49) =~= be_bytes(value.maker as nat, 8));
    assert(m.subrange(49, 50) =~= be_bytes(value.direction as nat, 1));
    assert(m.subrange(50, 58) =~= be_bytes(value.before_generation as nat, 8));
    assert(m.subrange(58, 66) =~= be_bytes(value.after_generation as nat, 8));
    assert(m.subrange(66, 98) =~= value.proof_job_id@);
    assert(m.subrange(98, 130) =~= value.allocation_statement@);
    assert(m.subrange(130, 162) =~= value.persistence_digest@);
}

/// Two texts of the receipt of a pool commit are the same only if they say the same.
pub proof fn pool_receipt_text_binds(value: StandingPoolStateReceipt, other_value: StandingPoolStateReceipt)
    requires
        value.message() == other_value.message(),
    ensures
        value.node == other_value.node,
        value.maker == other_value.maker,
        value.direction == other_value.direction,
        value.before_generation == other_value.before_generation,
        value.after_generation == other_value.after_generation,
        value.proof_job_id@ == other_value.proof_job_id@,
        value.allocation_statement@ == other_value.allocation_statement@,
        value.persistence_digest@ == other_value.persistence_digest@,
{
    pool_receipt_text_layout(value);
    pool_receipt_text_layout(other_value);
}

/// The text of the confirmation of a manifest starts with its own mark, and every part of it stands in its place.
pub proof fn peer_confirmation_text_layout(session: Seq<u8>, digest: Seq<u8>)
    requires
        session.len() == 32,
        digest.len() == 32,
    ensures
        ({
            let m = confirmation_text(session, digest);
            &&& m.subrange(0, 26) == text_bytes("QOMM:FROST:PEER-CONFIRM:v2"@)
            &&& m.subrange(26, 58) == session
            &&& m.subrange(58, 90) == digest
            &&& m.len() == 90
        }),
{
    let m = confirmation_text(session, digest);
    reveal_strlit("QOMM:FROST:PEER-CONFIRM:v2");
    ascii_width("QOMM:FROST:PEER-CONFIRM:v2"@);
    assert(m.subrange(0, 26) =~= text_bytes("QOMM:FROST:PEER-CONFIRM:v2"@));
    assert(m.subrange(26, 58) =~= session);
    assert(m.subrange(58, 90) =~= digest);
}

/// Two texts of the confirmation of a manifest are the same only if they say the same.
pub proof fn peer_confirmation_text_binds(
    session: Seq<u8>,
    digest: Seq<u8>,
    other_session: Seq<u8>,
    other_digest: Seq<u8>,
)
    requires
        session.len() == 32,
        other_session.len() == 32,
        digest.len() == 32,
        other_digest.len() == 32,
        confirmation_text(session, digest) == confirmation_text(other_session, other_digest),
    ensures
        session == other_session,
        digest == other_digest,
{
    peer_confirmation_text_layout(session, digest);
    peer_confirmation_text_layout(other_session, other_digest);
}

/// The text of what a directed package is bound to starts with its own mark, and every part of it stands in its place.
pub proof fn directed_package_text_layout(session: Seq<u8>, sender: nat, recipient: nat)
    requires
        session.len() == 32,
        sender <= u16::MAX,
        recipient <= u16::MAX,
    ensures
        ({
            let m = exchange_text(session, sender, recipient);
            &&& m.subrange(0, 26) == text_bytes("QOMM:FROST:DKG-EXCHANGE:v2"@)
            &&& m.subrange(26, 58) == session
            &&& be_value(m.subrange(58, 60)) == sender
            &&& be_value(m.subrange(60, 62)) == recipient
            &&& m.len() == 62
        }),
{
    let m = exchange_text(session, sender, recipient);
    be_widths();
    reveal_strlit("QOMM:FROST:DKG-EXCHANGE:v2");
    ascii_width("QOMM:FROST:DKG-EXCHANGE:v2"@);
    be_bytes_width(sender, 2);
    be_value_of_be_bytes(sender, 2);
    be_bytes_width(recipient, 2);
    be_value_of_be_bytes(recipient, 2);
    assert(m.subrange(0, 26) =~= text_bytes("QOMM:FROST:DKG-EXCHANGE:v2"@));
    assert(m.subrange(26, 58) =~= session);
    assert(m.subrange(58, 60) =~= be_bytes(sender, 2));
    assert(m.subrange(60, 62) =~= be_bytes(recipient, 2));
}

/// Two texts of what a directed package is bound to are the same only if they say the same.
pub proof fn directed_package_text_binds(
    session: Seq<u8>,
    sender: nat,
    recipient: nat,
    other_session: Seq<u8>,
    other_sender: nat,
    other_recipient: nat,
)
    requires
        session.len() == 32,
        other_session.len() == 32,
        sender <= u16::MAX,
        other_sender <= u16::MAX,
        recipient <= u16::MAX,
        other_recipient <= u16::MAX,
        exchange_text(session, sender, recipient) == exchange_text(other_session, other_sender, other_recipient),
    ensures
        session == other_session,
        sender == other_sender,
        recipient == other_recipient,
{
    directed_package_text_layout(session, sender, recipient);
    directed_package_text_layout(other_session, other_sender, other_recipient);
}

/// The text of the identity of a peer starts with its own mark, and every part of it stands in its place.
pub proof fn peer_identity_text_layout(
    session: Seq<u8>,
    party: nat,
    identity: Seq<u8>,
    suite: Seq<u8>,
    exchange: Seq<u8>,
    pq_key: Seq<u8>,
)
    requires
        session.len() == 32,
        party <= u16::MAX,
        identity.len() == 32,
    ensures
        ({
            let m = identity_text(session, party, identity, suite, exchange, pq_key);
            &&& m.subrange(0, 27) == text_bytes("QOMM:FROST:PEER-IDENTITY:v2"@)
            &&& m.subrange(27, 59) == session
            &&& be_value(m.subrange(59, 61)) == party
            &&& m.subrange(61, 93) == identity
            &&& m.skip(93) == suite + exchange + pq_key
        }),
{
    let m = identity_text(session, party, identity, suite, exchange, pq_key);
    be_widths();
    reveal_strlit("QOMM:FROST:PEER-IDENTITY:v2");
    ascii_width("QOMM:FROST:PEER-IDENTITY:v2"@);
    be_bytes_width(party, 2);
    be_value_of_be_bytes(party, 2);
    assert(m.subrange(0, 27) =~= text_bytes("QOMM:FROST:PEER-IDENTITY:v2"@));
    assert(m.subrange(27, 59) =~= session);
    assert(m.subrange(59, 61) =~= be_bytes(party, 2));
    assert(m.subrange(61, 93) =~= identity);
    assert(m.skip(93) =~= suite + exchange + pq_key);
}

/// Two texts of the identity of a peer are the same only if they say the same.
pub proof fn peer_identity_text_binds(
    session: Seq<u8>,
    party: nat,
    identity: Seq<u8>,
    suite: Seq<u8>,
    exchange: Seq<u8>,
    pq_key: Seq<u8>,
    other_session: Seq<u8>,
    other_party: nat,
    other_identity: Seq<u8>,
    other_suite: Seq<u8>,
    other_exchange: Seq<u8>,
    other_pq_key: Seq<u8>,
)
    requires
        session.len() == 32,
        other_session.len() == 32,
        party <= u16::MAX,
        other_party <= u16::MAX,
        identity.len() == 32,
        other_identity.len() == 32,
        identity_text(session, party, identity, suite, exchange, pq_key) == identity_text(
            other_session,
            other_party,
            other_identity,
            other_suite,
            other_exchange,
            other_pq_key,
        ),
    ensures
        session == other_session,
        party == other_party,
        identity == other_identity,
        suite + exchange + pq_key == other_suite + other_exchange + other_pq_key,
{
    peer_identity_text_layout(session, party, identity, suite, exchange, pq_key);
    peer_identity_text_layout(other_session, other_party, other_identity, other_suite, other_exchange, other_pq_key);
}

/// The text of a manifest of peers starts with its own mark, and every part of it stands in its place.
pub proof fn peer_manifest_text_layout(session: Seq<u8>, peers: Seq<ProposedPeer>)
    requires
        session.len() == 32,
        peers.len() <= u16::MAX,
    ensures
        ({
            let m = manifest_text(session, peers);
            &&& m.subrange(0, 27) == text_bytes("QOMM:FROST:PEER-MANIFEST:v2"@)
            &&& m.subrange(27, 59) == session
            &&& be_value(m.subrange(59, 61)) == peers.len()
            &&& m.skip(61) == joined(entry_bytes(peers))
        }),
{
    let m = manifest_text(session, peers);
    be_widths();
    reveal_strlit("QOMM:FROST:PEER-MANIFEST:v2");
    ascii_width("QOMM:FROST:PEER-MANIFEST:v2"@);
    be_bytes_width(peers.len(), 2);
    be_value_of_be_bytes(peers.len(), 2);
    assert(m.subrange(0, 27) =~= text_bytes("QOMM:FROST:PEER-MANIFEST:v2"@));
    assert(m.subrange(27, 59) =~= session);
    assert(m.subrange(59, 61) =~= be_bytes(peers.len(), 2));
    assert(m.skip(61) =~= joined(entry_bytes(peers)));
}

/// Two texts of a manifest of peers are the same only if they say the same.
pub proof fn peer_manifest_text_binds(
    session: Seq<u8>,
    peers: Seq<ProposedPeer>,
    other_session: Seq<u8>,
    other_peers: Seq<ProposedPeer>,
)
    requires
        session.len() == 32,
        other_session.len() == 32,
        peers.len() <= u16::MAX,
        other_peers.len() <= u16::MAX,
        manifest_text(session, peers) == manifest_text(other_session, other_peers),
    ensures
        session == other_session,
        peers.len() == other_peers.len(),
        joined(entry_bytes(peers)) == joined(entry_bytes(other_peers)),
{
    peer_manifest_text_layout(session, peers);
    peer_manifest_text_layout(other_session, other_peers);
}

/// The text of a health check starts with its own mark, and every part of it stands in its place.
pub proof fn health_check_text_layout(session: Seq<u8>, stage: u8, cluster: Seq<u8>) -> (m: Seq<u8>)
    requires
        session.len() == 32,
        cluster.len() == 32,
    ensures
        health_message(session, stage, cluster) == sha256(m),
        m.subrange(0, 20) == text_bytes("QOMM:FROST:HEALTH:v1"@),
        m.subrange(20, 52) == session,
        m[52] == stage,
        m.subrange(53, 85) == cluster,
        m.len() == 85,
{
    let m = text_bytes("QOMM:FROST:HEALTH:v1"@) + session + seq![stage] + cluster;
    reveal_strlit("QOMM:FROST:HEALTH:v1");
    ascii_width("QOMM:FROST:HEALTH:v1"@);
    assert(m.subrange(0, 20) =~= text_bytes("QOMM:FROST:HEALTH:v1"@));
    assert(m.subrange(20, 52) =~= session);
    assert(m.subrange(53, 85) =~= cluster);
    m
}

/// The text of a signing job starts with its own mark, and every part of it stands in its place.
pub proof fn signing_job_text_layout(message: Seq<u8>) -> (m: Seq<u8>)
    ensures
        signing_job_of(message) == sha256(m),
        m.subrange(0, 25) == text_bytes("QOMM:FROST:SIGNING-JOB:v1"@),
        m.skip(25) == message,
{
    let m = text_bytes("QOMM:FROST:SIGNING-JOB:v1"@) + message;
    reveal_strlit("QOMM:FROST:SIGNING-JOB:v1");
    ascii_width("QOMM:FROST:SIGNING-JOB:v1"@);
    assert(m.subrange(0, 25) =~= text_bytes("QOMM:FROST:SIGNING-JOB:v1"@));
    assert(m.skip(25) =~= message);
    m
}

/// The text of the context of a committee starts with its own mark, and every part of it stands in its place.
pub proof fn committee_context_text_layout(session: Seq<u8>)
    requires
        session.len() == 32,
    ensures
        ({
            let m = committee_context(session);
            &&& m.subrange(0, 32) == text_bytes("QOMM:MPC-SETTLEMENT-COMMITTEE:v1"@)
            &&& m.subrange(32, 64) == session
            &&& m.len() == 64
        }),
{
    let m = committee_context(session);
    reveal_strlit("QOMM:MPC-SETTLEMENT-COMMITTEE:v1");
    ascii_width("QOMM:MPC-SETTLEMENT-COMMITTEE:v1"@);
    assert(m.subrange(0, 32) =~= text_bytes("QOMM:MPC-SETTLEMENT-COMMITTEE:v1"@));
    assert(m.subrange(32, 64) =~= session);
}

/// Two texts of the context of a committee are the same only if they say the same.
pub proof fn committee_context_text_binds(session: Seq<u8>, other_session: Seq<u8>)
    requires
        session.len() == 32,
        other_session.len() == 32,
        committee_context(session) == committee_context(other_session),
    ensures
        session == other_session,
{
    committee_context_text_layout(session);
    committee_context_text_layout(other_session);
}

} // verus!
