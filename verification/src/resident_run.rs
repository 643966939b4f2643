//! One run of a resident party: what it is given, and what it reports.

use vstd::prelude::*;
use crate::digest::{hash, sha256};
use crate::resident_config::{DeploymentFacts, ResidentMpcConfig};
use crate::resident_mpc::{
    assemble_party_input, decode_sealed_batch, decodes, party_input, request_shares_for_lane, sealed_read, share_at,
    shares_reduced, ResidentExecutionReceipt, REQUEST_VALUES,
};
use crate::resident_state::{texts, SecretState};
use crate::resident_store::{stored, EncryptedMpcStateStore};
use crate::text::{about, decimal, decimal_text, hex_encode, hex_text};
use crate::wire::{FieldElement, Frame};

verus! {

/// The most output that a party may write to either stream.
pub const MAX_OUTPUT_BYTES: usize = 1048576;

/// A text with zeros in front, up to a width.
pub open spec fn zero_padded(text: Seq<char>, width: nat) -> Seq<char>
    decreases width - text.len(),
{
    if text.len() >= width {
        text
    } else {
        zero_padded(seq!['0'] + text, width)
    }
}

fn pad_zeros(text: String, width: usize) -> (padded: String)
    ensures
        padded@ == zero_padded(text@, width as nat),
    decreases width - text@.len(),
{
    proof {
        reveal_strlit("0");
        assert("0"@ =~= seq!['0']);
    }
    if text.as_str().unicode_len() >= width {
        text
    } else {
        pad_zeros(about("0", text.as_str()), width)
    }
}

/// Texts with a blank between them.
pub open spec fn spaced(values: Seq<Seq<char>>) -> Seq<char>
    decreases values.len(),
{
    if values.len() == 0 {
        Seq::empty()
    } else if values.len() == 1 {
        values[0]
    } else {
        spaced(values.drop_last()) + " "@ + values.last()
    }
}

fn join_spaced(values: &Vec<String>) -> (text: String)
    ensures
        text@ == spaced(texts(values@)),
{
    let ghost all = texts(values@);
    let mut text = String::new();
    let mut i: usize = 0;
    while i < values.len()
        invariant
            i <= values@.len(),
            all == texts(values@),
            text@ == spaced(all.take(i as int)),
        decreases values@.len() - i,
    {
        proof {
            assert(all.take(i as int + 1).drop_last() =~= all.take(i as int));
        }
        if i > 0 {
            text.append(" ");
        }
        text.append(values[i].as_str());
        proof {
            if i == 0 {
                assert(text@ =~= all[0]);
            }
            assert(text@ =~= spaced(all.take(i as int + 1)));
        }
        i = i + 1;
    }
    assert(all.take(i as int) =~= all);
    text
}

/// What a party is started with.
#[derive(Debug)]
pub struct ExecutionPlan {
    /// The party's input values, in decimal.
    pub inputs: Vec<String>,
    /// The input file: the values with blanks between them, and a newline.
    pub input_text: String,
    /// The directories of the run below the run root, one in the other.
    pub run_directories: Vec<String>,
    /// The arguments of the party's program.
    pub arguments: Vec<String>,
    pub frame_count: usize,
    pub state_generation: u64,
}

/// The directories of a run below the run root.
pub open spec fn run_directories(
    source: Seq<char>,
    slot: nat,
    lane: nat,
    batch_digest: Seq<u8>,
    node: nat,
) -> Seq<Seq<char>> {
    seq![
        source.take(if source.len() < 16 {
            source.len() as int
        } else {
            16
        }),
        "slot-"@ + zero_padded(decimal(slot), 10),
        "lane-"@ + zero_padded(decimal(lane), 4),
        hex_text(batch_digest),
        "node-"@ + decimal(node),
    ]
}

/// The arguments of a party's program.
pub open spec fn party_arguments(config: ResidentMpcConfig) -> Seq<Seq<char>> {
    seq![
        decimal(config.node as nat),
        config.program@,
        "-N"@,
        decimal(config.n_parties as nat),
        "-T"@,
        decimal(config.threshold as nat),
        "-ip"@,
        config.host_file@,
        "-P"@,
        config.prime@,
    ]
}

/// Whether a plan is that of a lane of a batch.
pub open spec fn plan_of(
    plan: ExecutionPlan,
    config: ResidentMpcConfig,
    state: SecretState,
    slot: u32,
    lane: nat,
    batch_digest: Seq<u8>,
    values: Seq<Frame>,
) -> bool {
    &&& lane < values.len()
    &&& shares_reduced(values[lane as int]@)
    &&& exists|request: Seq<FieldElement>| #[trigger]
        texts(plan.inputs@) == party_input(request, state) && request.len() == REQUEST_VALUES && forall|i: int|
            0 <= i < REQUEST_VALUES ==> (#[trigger] request[i])@ == share_at(values[lane as int]@, i)
    &&& plan.input_text@ == spaced(texts(plan.inputs@)) + "\n"@
    &&& texts(plan.run_directories@) == run_directories(
        config.source_sha256@,
        slot as nat,
        lane,
        batch_digest,
        config.node as nat,
    )
    &&& texts(plan.arguments@) == party_arguments(config)
    &&& plan.frame_count == values.len()
    &&& plan.state_generation == state.generation
}

/// Why a lane of a batch that was read cannot be run.
pub open spec fn lane_refusal(values: Seq<Frame>, lane: nat) -> Option<Seq<char>> {
    if lane >= values.len() {
        Some("computation lane is outside the sealed fixed population"@)
    } else if !shares_reduced(values[lane as int]@) {
        Some("wire field element is not reduced"@)
    } else {
        None
    }
}

/// Why the node refuses to run before it looks at the batch.
pub open spec fn run_refusal(
    config: ResidentMpcConfig,
    facts: DeploymentFacts,
    contents: Result<SecretState, Seq<char>>,
    source_digest: Seq<char>,
) -> Option<Seq<char>> {
    match config.refusal(source_digest, facts) {
        Some(e) => Some(e),
        None => match contents {
            Err(e) => Some(e),
            Ok(state) => match state.verified(config.node as nat, source_digest, config.n_mm as nat) {
                Err(e) => Some(e),
                Ok(_) => if state.policies.len() == 0 {
                    Some("resident WAN execution requires resident Maker policy shares"@)
                } else {
                    None
                },
            },
        },
    }
}

fn make_directories(config: &ResidentMpcConfig, slot: u32, lane: usize, batch_digest: &[u8; 32]) -> (r: Vec<String>)
    ensures
        texts(r@) == run_directories(
            config.source_sha256@,
            slot as nat,
            lane as nat,
            batch_digest@,
            config.node as nat,
        ),
{
    let source = config.source_sha256.as_str();
    let length: usize = source.unicode_len();
    let to: usize = if length < 16 {
        length
    } else {
        16
    };
    let head = source.substring_char(0, to).to_owned();
    assert(head@ =~= config.source_sha256@.take(to as int));
    let directories = vec![
        head,
        about("slot-", pad_zeros(decimal_text(slot as u64), 10).as_str()),
        about("lane-", pad_zeros(decimal_text(lane as u64), 4).as_str()),
        hex_encode(batch_digest.as_slice()),
        about("node-", decimal_text(config.node as u64).as_str()),
    ];
    assert(texts(directories@) =~= run_directories(
        config.source_sha256@,
        slot as nat,
        lane as nat,
        batch_digest@,
        config.node as nat,
    ));
    directories
}

fn make_arguments(config: &ResidentMpcConfig) -> (r: Vec<String>)
    ensures
        texts(r@) == party_arguments(*config),
{
    let arguments = vec![
        decimal_text(config.node as u64),
        config.program.clone(),
        "-N".to_owned(),
        decimal_text(config.n_parties as u64),
        "-T".to_owned(),
        decimal_text(config.threshold as u64),
        "-ip".to_owned(),
        config.host_file.clone(),
        "-P".to_owned(),
        config.prime.clone(),
    ];
    assert(texts(arguments@) =~= party_arguments(*config));
    arguments
}

/// Checks that the node may run and prepares one lane of a sealed batch.
pub fn plan_execution<D: Fn(&Vec<u8>) -> Result<Frame, String>>(
    config: &ResidentMpcConfig,
    facts: &DeploymentFacts,
    store: &EncryptedMpcStateStore,
    slot: u32,
    lane: usize,
    batch_digest: [u8; 32],
    source_digest: &str,
    sealed: &[u8],
    width: usize,
    decode: &D,
) -> (r: Result<ExecutionPlan, String>)
    requires
        facts.programs@.len() == config.program_artifacts@.len(),
        facts.players@.len() == config.player_data_artifacts@.len(),
        forall|b: &Vec<u8>| call_requires(*decode, (b,)),
        forall|b: Vec<u8>, f: Frame|
            #[trigger] call_ensures(*decode, (&b,), Ok::<Frame, String>(f)) ==> f.payload@.len() >= 448,
    ensures
        match run_refusal(*config, *facts, stored(store.contents), source_digest@) {
            Some(e) => r matches Err(f) && f@ == e,
            None => {
                let state = stored(store.contents)->Ok_0;
                ||| (r matches Err(f) && sealed_read(
                    *decode,
                    sealed@,
                    config.node,
                    slot,
                    batch_digest@,
                    width as nat,
                    Err(f@),
                ))
                ||| exists|values: Seq<Frame>| #[trigger]
                    sealed_read(*decode, sealed@, config.node, slot, batch_digest@, width as nat, Ok(values))
                        && match r {
                        Ok(plan) => lane_refusal(values, lane as nat) is None && plan_of(
                            plan,
                            *config,
                            state,
                            slot,
                            lane as nat,
                            batch_digest@,
                            values,
                        ),
                        Err(f) => lane_refusal(values, lane as nat) == Some(f@),
                    }
            },
        },
{
    match config.verify(source_digest, facts) {
        Err(e) => {
            return Err(e);
        },
        Ok(_) => {},
    }
    let state = match store.load() {
        Err(e) => {
            return Err(e);
        },
        Ok(state) => state,
    };
    match state.verify(config.node, source_digest, config.n_mm) {
        Err(e) => {
            return Err(e);
        },
        Ok(_) => {},
    }
    if !state.has_resident_policies() {
        return Err("resident WAN execution requires resident Maker policy shares".to_owned());
    }
    let frames = match decode_sealed_batch(sealed, config.node, slot, &batch_digest, width, decode) {
        Err(e) => {
            return Err(e);
        },
        Ok(frames) => frames,
    };
    proof {
        assert(sealed_read(*decode, sealed@, config.node, slot, batch_digest@, width as nat, Ok(frames@)));
        assert forall|i: int| 0 <= i < frames@.len() implies (#[trigger] frames@[i]).payload@.len() >= 448 by {
            let bytes = crate::resident_mpc::frame_bytes_at(sealed@, width as nat, i);
            assert(decodes(*decode, bytes, frames@[i]));
        }
    }
    let request = match request_shares_for_lane(frames.as_slice(), lane) {
        Err(e) => {
            assert(lane_refusal(frames@, lane as nat) == Some(e@));
            return Err(e);
        },
        Ok(request) => request,
    };
    let inputs = match assemble_party_input(request.as_slice(), &state, config.n_mm) {
        Err(e) => {
            assert(false);
            return Err(e);
        },
        Ok(inputs) => inputs,
    };
    let input_text = join_spaced(&inputs).concat("\n");
    let plan = ExecutionPlan {
        inputs,
        input_text,
        run_directories: make_directories(config, slot, lane, &batch_digest),
        arguments: make_arguments(config),
        frame_count: frames.len(),
        state_generation: state.generation,
    };
    proof {
        assert(texts(plan.inputs@) == party_input(request@, state@));
        assert(plan_of(plan, *config, state@, slot, lane as nat, batch_digest@, frames@));
        assert(lane_refusal(frames@, lane as nat) is None);
    }
    Ok(plan)
}

/// What a finished run gives: a receipt of its own lane and outputs, or why there is none.
pub open spec fn run_finished(
    config: ResidentMpcConfig,
    plan: ExecutionPlan,
    slot: u32,
    lane: usize,
    batch_digest: [u8; 32],
    source_digest: Seq<char>,
    success: bool,
    stdout: Seq<u8>,
    stderr: Seq<u8>,
    elapsed_ns: u64,
    persistence_path: Seq<char>,
    persistence: Seq<u8>,
    r: Result<ResidentExecutionReceipt, String>,
) -> bool {
    if stdout.len() > MAX_OUTPUT_BYTES || stderr.len() > MAX_OUTPUT_BYTES {
        r matches Err(e) && e@ == "stock MP-SPDZ output exceeded its one-megabyte bound"@
    } else if !success {
        r matches Err(e) && e@ == "stock MP-SPDZ party failed (stdout="@ + hex_text(sha256(stdout)) + ", stderr="@
            + hex_text(sha256(stderr)) + ")"@
    } else {
        &&& r is Ok
        &&& (r->Ok_0).node == config.node
        &&& (r->Ok_0).slot == slot
        &&& (r->Ok_0).lane == lane
        &&& (r->Ok_0).batch_digest@ == batch_digest@
        &&& (r->Ok_0).source_digest@ == source_digest
        &&& (r->Ok_0).state_generation == plan.state_generation
        &&& (r->Ok_0).frame_count == plan.frame_count
        &&& (r->Ok_0).input_count == plan.inputs@.len()
        &&& (r->Ok_0).elapsed_ns == elapsed_ns
        &&& (r->Ok_0).stdout_digest@ == sha256(stdout)
        &&& (r->Ok_0).stderr_digest@ == sha256(stderr)
        &&& (r->Ok_0).persistence_path@ == persistence_path
        &&& (r->Ok_0).persistence_digest@ == sha256(persistence)
    }
}

/// What a party that ended reports: its receipt, or why there is none.
pub fn finish_execution(
    config: &ResidentMpcConfig,
    plan: &ExecutionPlan,
    slot: u32,
    lane: usize,
    batch_digest: [u8; 32],
    source_digest: &str,
    success: bool,
    stdout: &[u8],
    stderr: &[u8],
    elapsed_ns: u64,
    persistence_path: &str,
    persistence: &[u8],
) -> (r: Result<ResidentExecutionReceipt, String>)
    ensures
        run_finished(
            *config,
            *plan,
            slot,
            lane,
            batch_digest,
            source_digest@,
            success,
            stdout@,
            stderr@,
            elapsed_ns,
            persistence_path@,
            persistence@,
            r,
        ),
{
    if stdout.len() > MAX_OUTPUT_BYTES || stderr.len() > MAX_OUTPUT_BYTES {
        return Err("stock MP-SPDZ output exceeded its one-megabyte bound".to_owned());
    }
    let stdout_digest = hash(stdout);
    let stderr_digest = hash(stderr);
    if !success {
        return Err(
            about("stock MP-SPDZ party failed (stdout=", hex_encode(stdout_digest.as_slice()).as_str()).concat(
                ", stderr=",
            ).concat(hex_encode(stderr_digest.as_slice()).as_str()).concat(")"),
        );
    }
    Ok(
        ResidentExecutionReceipt {
            node: config.node,
            slot,
            lane,
            batch_digest,
            source_digest: source_digest.to_owned(),
            state_generation: plan.state_generation,
            frame_count: plan.frame_count,
            input_count: plan.inputs.len(),
            elapsed_ns,
            stdout_digest,
            stderr_digest,
            persistence_path: persistence_path.to_owned(),
            persistence_digest: hash(persistence),
        },
    )
}

} // verus!
