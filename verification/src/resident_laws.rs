//! What holds of the sealed batches, inputs and receipts of a resident run.

use vstd::prelude::*;
use crate::bytes::{be_value, text_bytes, zero32};
use crate::digest::sha256;
use crate::group::group_order;
use crate::resident_config::{DeploymentFacts, ResidentMpcConfig};
use crate::resident_mpc::{
    aggregated, column_sum, decodes, frame_read, input_assembled, lane_read, party_input, sealed_header_refusal,
    sealed_read, share_at, shares_reduced, ResidentExecutionReceipt,
};
use crate::resident_run::{lane_refusal, plan_of, run_finished, run_refusal, spaced, zero_padded, ExecutionPlan};
use crate::resident_state::{texts, SecretState};
use crate::text::{decimal, hex_text};
use crate::wire::{FieldElement, Frame, FrameParts};

verus! {

/// The request shares of a slot are added value by value: with one frame more, every value
/// is larger by that frame's, and a frame's value is the big-endian number of its own
/// thirty-two bytes.
pub proof fn request_shares_add_up(values: Seq<FrameParts>, frame: FrameParts, at: int)
    requires
        0 <= at < 14,
    ensures
        column_sum(values.push(frame), at) == column_sum(values, at) + share_at(frame, at),
        column_sum(Seq::empty(), at) == 0,
        share_at(frame, at) == be_value(frame.payload.subrange(32 * at, 32 * at + 32)),
{
    assert(values.push(frame).drop_last() =~= values);
}

/// The totals of a slot are those sums, modulo the group order, of fourteen values; a slot
/// without frames or with a value that is not reduced has none.
pub proof fn slot_totals_are_the_sums(all: Seq<FrameParts>, r: Result<Vec<FieldElement>, String>, at: int)
    requires
        aggregated(all, r),
    ensures
        r is Ok <==> all.len() > 0 && forall|i: int, k: int|
            0 <= i < all.len() && 0 <= k < 14 ==> #[trigger] share_at(all[i], k) < group_order(),
        r matches Ok(totals) ==> totals@.len() == 14 && (0 <= at < 14 ==> totals@[at]@ == column_sum(all, at)
            % group_order()),
{
    if forall|i: int| 0 <= i < all.len() ==> shares_reduced(#[trigger] all[i]) {
        assert forall|i: int, k: int| 0 <= i < all.len() && 0 <= k < 14 implies #[trigger] share_at(all[i], k)
            < group_order() by {
            assert(shares_reduced(all[i]));
        }
    }
    if forall|i: int, k: int|
        0 <= i < all.len() && 0 <= k < 14 ==> #[trigger] share_at(all[i], k) < group_order() {
        assert forall|i: int| 0 <= i < all.len() implies shares_reduced(#[trigger] all[i]) by {}
    }
}

/// The input of a party has, in the circuit's order, the first six values of the request, its
/// four reserve values, the node's standing shares, the request's four limit and blinding
/// values, and the node's policies and their blindings.
pub proof fn party_input_is_in_circuit_order(
    request: Seq<FieldElement>,
    state: SecretState,
    n_mm: nat,
    inputs: Vec<String>,
    at: int,
)
    requires
        input_assembled(request, state, n_mm, Ok(inputs)),
    ensures
        request.len() == 14,
        state.standing.len() == 5 * n_mm,
        ({
            let s = state.standing.len() as int;
            let p = state.policies.len() as int;
            let b = state.blindings.len() as int;
            &&& inputs@.len() == 14 + s + p + b
            &&& 0 <= at < 6 ==> inputs@[at]@ == decimal(request[at]@)
            &&& 0 <= at < 4 ==> inputs@[6 + at]@ == decimal(request[10 + at]@)
            &&& 0 <= at < s ==> inputs@[10 + at]@ == state.standing[at]
            &&& 0 <= at < 4 ==> inputs@[10 + s + at]@ == decimal(request[6 + at]@)
            &&& 0 <= at < p ==> inputs@[14 + s + at]@ == state.policies[at]
            &&& 0 <= at < b ==> inputs@[14 + s + p + at]@ == state.blindings[at]
        }),
{
    let all = texts(inputs@);
    assert(all == party_input(request, state));
    assert(all.len() == inputs@.len());
    let s = state.standing.len() as int;
    let p = state.policies.len() as int;
    let b = state.blindings.len() as int;
    assert(forall|i: int| 0 <= i < all.len() ==> #[trigger] all[i] == inputs@[i]@);
    if 0 <= at < 6 {
        assert(all[at] == decimal(request[at]@));
    }
    if 0 <= at < 4 {
        assert(all[6 + at] == decimal(request[10 + at]@));
        assert(all[10 + s + at] == decimal(request[6 + at]@));
    }
    if 0 <= at < s {
        assert(all[10 + at] == state.standing[at]);
    }
    if 0 <= at < p {
        assert(all[14 + s + at] == state.policies[at]);
    }
    if 0 <= at < b {
        assert(all[14 + s + p + at] == state.blindings[at]);
    }
}

/// A sealed batch is read exactly as its digest, slot and count say: the whole of it is its
/// header and as many frames as the count, each of the fixed width, of this node and slot,
/// in the order in which they stand.
pub proof fn sealed_batch_is_read_whole<D: Fn(&Vec<u8>) -> Result<Frame, String>>(
    decode: D,
    raw: Seq<u8>,
    node: u16,
    slot: u32,
    digest: Seq<u8>,
    width: nat,
    values: Seq<Frame>,
    at: int,
)
    requires
        sealed_read(decode, raw, node, slot, digest, width, Ok(values)),
    ensures
        sha256(raw) == digest,
        raw.subrange(0, 20) == text_bytes("QOMM:SEALED:BATCH:v1"@),
        be_value(raw.subrange(20, 24)) == slot,
        be_value(raw.subrange(24, 28)) == values.len(),
        1 <= values.len() <= 4096,
        raw.len() == 28 + values.len() * (width + 4),
        0 <= at < values.len() ==> {
            let from = 28 + at * (width + 4);
            &&& from + 4 + width <= raw.len()
            &&& be_value(raw.subrange(from, from + 4)) == width
            &&& decodes(decode, raw.subrange(from + 4, from + 4 + width), values[at])
            &&& values[at].node == node
            &&& values[at].slot == slot
        },
{
    if 0 <= at < values.len() {
        assert(frame_read(decode, raw, width, node, slot, at, values[at]));
    }
}

/// The header of a batch is accepted exactly if it is that of the digest, the magic, the slot
/// and a count from one to four thousand and ninety-six.
pub proof fn sealed_header_is_accepted_exactly(raw: Seq<u8>, slot: nat, digest: Seq<u8>)
    ensures
        sealed_header_refusal(raw, slot, digest) is None <==> {
            &&& sha256(raw) == digest
            &&& raw.len() >= 28
            &&& raw.subrange(0, 20) == text_bytes("QOMM:SEALED:BATCH:v1"@)
            &&& be_value(raw.subrange(20, 24)) == slot
            &&& 1 <= be_value(raw.subrange(24, 28)) <= 4096
        },
{
}

/// A lane is run exactly if it is one of the batch and its values are reduced.
pub proof fn lane_is_run_exactly(values: Seq<Frame>, lane: nat)
    ensures
        lane_refusal(values, lane) is None <==> lane < values.len() && forall|i: int|
            0 <= i < 14 ==> #[trigger] share_at(values[lane as int]@, i) < group_order(),
{
}

/// A node runs only as it was approved, with a state of its own that holds resident policies.
pub proof fn node_runs_only_its_own_state(
    config: ResidentMpcConfig,
    facts: DeploymentFacts,
    contents: Result<SecretState, Seq<char>>,
    source: Seq<char>,
)
    ensures
        run_refusal(config, facts, contents, source) is None <==> {
            &&& config.refusal(source, facts) is None
            &&& contents is Ok
            &&& (contents->Ok_0).verified(config.node as nat, source, config.n_mm as nat) is Ok
            &&& (contents->Ok_0).policies.len() > 0
        },
{
}

/// The plan of a run takes its inputs from the one lane that was asked for and the node's own
/// state, and its party is started under the node's own number, program, committee, threshold,
/// host file and prime.
pub proof fn plan_is_of_its_lane(
    plan: ExecutionPlan,
    config: ResidentMpcConfig,
    state: SecretState,
    slot: u32,
    lane: nat,
    batch_digest: Seq<u8>,
    values: Seq<Frame>,
    at: int,
)
    requires
        plan_of(plan, config, state, slot, lane, batch_digest, values),
    ensures
        lane < values.len(),
        plan.frame_count == values.len(),
        plan.state_generation == state.generation,
        plan.inputs@.len() == 14 + state.standing.len() + state.policies.len() + state.blindings.len(),
        0 <= at < 6 ==> plan.inputs@[at]@ == decimal(share_at(values[lane as int]@, at)),
        0 <= at < 4 ==> plan.inputs@[6 + at]@ == decimal(share_at(values[lane as int]@, 10 + at)),
        0 <= at < 4 ==> plan.inputs@[10 + state.standing.len() + at]@ == decimal(
            share_at(values[lane as int]@, 6 + at),
        ),
        0 <= at < state.standing.len() ==> plan.inputs@[10 + at]@ == state.standing[at],
        plan.input_text@ == spaced(texts(plan.inputs@)) + "\n"@,
        plan.arguments@.len() == 10,
        plan.arguments@[0]@ == decimal(config.node as nat),
        plan.arguments@[1]@ == config.program@,
        plan.arguments@[2]@ == "-N"@ && plan.arguments@[3]@ == decimal(config.n_parties as nat),
        plan.arguments@[4]@ == "-T"@ && plan.arguments@[5]@ == decimal(config.threshold as nat),
        plan.arguments@[6]@ == "-ip"@ && plan.arguments@[7]@ == config.host_file@,
        plan.arguments@[8]@ == "-P"@ && plan.arguments@[9]@ == config.prime@,
        plan.run_directories@.len() == 5,
        plan.run_directories@[1]@ == "slot-"@ + zero_padded(decimal(slot as nat), 10),
        plan.run_directories@[2]@ == "lane-"@ + zero_padded(decimal(lane), 4),
        plan.run_directories@[3]@ == hex_text(batch_digest),
        plan.run_directories@[4]@ == "node-"@ + decimal(config.node as nat),
        config.source_sha256@.len() >= 16 ==> plan.run_directories@[0]@ == config.source_sha256@.take(16),
{
    let request = choose|request: Seq<FieldElement>| #[trigger]
        texts(plan.inputs@) == party_input(request, state) && request.len() == 14 && forall|i: int|
            0 <= i < 14 ==> (#[trigger] request[i])@ == share_at(values[lane as int]@, i);
    let all = texts(plan.inputs@);
    assert(forall|i: int| 0 <= i < all.len() ==> #[trigger] all[i] == plan.inputs@[i]@);
    let s = state.standing.len() as int;
    if 0 <= at < 6 {
        assert(all[at] == decimal(request[at]@));
    }
    if 0 <= at < 4 {
        assert(all[6 + at] == decimal(request[10 + at]@));
        assert(all[10 + s + at] == decimal(request[6 + at]@));
    }
    if 0 <= at < s {
        assert(all[10 + at] == state.standing[at]);
    }
    assert(all.len() == plan.inputs@.len());
    let arguments = texts(plan.arguments@);
    assert(arguments.len() == plan.arguments@.len());
    assert(forall|i: int| 0 <= i < arguments.len() ==> #[trigger] arguments[i] == plan.arguments@[i]@);
    assert(arguments[0] == plan.arguments@[0]@ && arguments[1] == plan.arguments@[1]@);
    assert(arguments[2] == plan.arguments@[2]@ && arguments[3] == plan.arguments@[3]@);
    assert(arguments[4] == plan.arguments@[4]@ && arguments[5] == plan.arguments@[5]@);
    assert(arguments[6] == plan.arguments@[6]@ && arguments[7] == plan.arguments@[7]@);
    assert(arguments[8] == plan.arguments@[8]@ && arguments[9] == plan.arguments@[9]@);
    let directories = texts(plan.run_directories@);
    assert(directories.len() == plan.run_directories@.len());
    assert(directories[0] == plan.run_directories@[0]@ && directories[1] == plan.run_directories@[1]@);
    assert(directories[2] == plan.run_directories@[2]@ && directories[3] == plan.run_directories@[3]@);
    assert(directories[4] == plan.run_directories@[4]@);
}

/// A padded number is the number behind zeros, as wide as wanted.
pub proof fn padding_adds_zeros(text: Seq<char>, width: nat)
    ensures
        text.len() >= width ==> zero_padded(text, width) == text,
        text.len() < width ==> {
            &&& zero_padded(text, width).len() == width
            &&& zero_padded(text, width).skip(width - text.len()) == text
            &&& forall|i: int| 0 <= i < width - text.len() ==> #[trigger] zero_padded(text, width)[i] == '0'
        },
    decreases width - text.len(),
{
    if text.len() < width {
        let more = seq!['0'] + text;
        padding_adds_zeros(more, width);
        let out = zero_padded(text, width);
        let n = (width - text.len()) as int;
        if more.len() < width {
            assert(out.skip(n - 1) == more);
            assert(out.skip(n) =~= out.skip(n - 1).skip(1));
            assert(more.skip(1) =~= text);
            assert(out[n - 1] == out.skip(n - 1)[0]);
        } else {
            assert(out.skip(n) =~= text);
        }
    }
}

/// Values are written one after the other with one space between them.
pub proof fn values_are_spaced_once(values: Seq<Seq<char>>, next: Seq<char>)
    ensures
        spaced(Seq::<Seq<char>>::empty()) == Seq::<char>::empty(),
        spaced(seq![next]) == next,
        values.len() > 0 ==> spaced(values.push(next)) == spaced(values) + " "@ + next,
{
    assert(values.push(next).drop_last() =~= values);
}

/// The receipt of a run matches what was asked for exactly if it is of the same node, slot,
/// lane, batch and source, of a run that had a state, frames and inputs, and whose outputs
/// were digested.
pub proof fn receipt_matches_its_run(
    receipt: ResidentExecutionReceipt,
    node: nat,
    slot: nat,
    lane: nat,
    batch: Seq<u8>,
    source: Seq<char>,
)
    ensures
        receipt.matches_request(node, slot, lane, batch, source) ==> {
            &&& receipt.node == node && receipt.slot == slot && receipt.lane == lane
            &&& receipt.batch_digest@ == batch
            &&& receipt.source_digest@ == source
            &&& text_bytes(source).len() == 64
            &&& receipt.state_generation > 0
            &&& 1 <= receipt.frame_count <= 4096
            &&& 1 <= receipt.input_count <= 1_000_000
            &&& receipt.stdout_digest@ != zero32()
            &&& receipt.stderr_digest@ != zero32()
            &&& receipt.persistence_digest@ != zero32()
        },
{
}

/// A receipt is given only of a run that succeeded and printed at most a mebibyte on each
/// side, and it names the node, the slot, the lane, the batch and the source that ran, and
/// the digests of what it printed and left.
pub proof fn receipt_is_of_its_run(
    config: ResidentMpcConfig,
    plan: ExecutionPlan,
    slot: u32,
    lane: usize,
    batch_digest: [u8; 32],
    source_digest: Seq<char>,
    success: bool,
    stdout: Seq<u8>,
    stderr: Seq<u8>,
    elapsed_ns: u64,
    persistence_path: Seq<char>,
    persistence: Seq<u8>,
    r: Result<ResidentExecutionReceipt, String>,
)
    requires
        run_finished(
            config,
            plan,
            slot,
            lane,
            batch_digest,
            source_digest,
            success,
            stdout,
            stderr,
            elapsed_ns,
            persistence_path,
            persistence,
            r,
        ),
    ensures
        r is Ok <==> success && stdout.len() <= 0x10_0000 && stderr.len() <= 0x10_0000,
        r matches Ok(receipt) ==> {
            &&& receipt.node == config.node && receipt.slot == slot && receipt.lane == lane
            &&& receipt.batch_digest@ == batch_digest@ && receipt.source_digest@ == source_digest
            &&& receipt.state_generation == plan.state_generation
            &&& receipt.frame_count == plan.frame_count && receipt.input_count == plan.inputs@.len()
            &&& receipt.elapsed_ns == elapsed_ns
            &&& receipt.stdout_digest@ == sha256(stdout) && receipt.stderr_digest@ == sha256(stderr)
            &&& receipt.persistence_path@ == persistence_path && receipt.persistence_digest@ == sha256(persistence)
        },
{
}

/// A lane is read exactly where it is one of the population and all of its shares are
/// reduced; its fourteen shares are read in the order in which they stand.
pub proof fn lane_is_read_in_order(values: Seq<Frame>, lane: int, r: Result<Vec<FieldElement>, String>)
    requires
        lane_read(values, lane, r),
    ensures
        r is Ok <==> lane < values.len() && shares_reduced(values[lane]@),
        r matches Ok(shares) ==> shares@.len() == 14 && forall|i: int|
            0 <= i < 14 ==> (#[trigger] shares@[i])@ == share_at(values[lane]@, i),
{
}

} // verus!
