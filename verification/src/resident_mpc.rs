//! Node-local handoff from a sealed fixed-population slot to the computation.
//!
//! The node sees only its own input shares. Maker-policy and reservation shares
//! live in an authenticated encrypted store; taker shares arrive in the
//! fixed-size frames that were authenticated on arrival. One run writes exactly
//! one party input, starts exactly one party, and retains only that party's
//! persistence.

use vstd::prelude::*;
use crate::bytes::{
    array32, ascii_width, be_bytes, be_value, be_widths, is_zero32, part, put, put_be, read_be, same, same32,
    text_bytes, zero32,
};
use crate::digest::{hash, sha256};
use crate::group::group_order;
use crate::paths::{file_is, last_part};
use crate::resident_state::{is_digest, is_digest_text, texts, MpcSecretState, SecretState};
use crate::sorting::{is_permutation, permutation_covers, rearranged};
use crate::text::{decimal, decimal_text, hex_bytes, hex_decode, is_hex, same_text};
use crate::wire::{frames, FieldElement, Frame, FrameParts};
use vstd::string::StringExecFns;

verus! {

/// The largest population of a sealed slot.
pub const MAX_FRAMES: usize = 4096;

/// How many values a request frame carries: asset, quantity, direction, entity,
/// real/cover flag, response mask, committed limit, secret limit blinding, fill
/// mask, quantity commitment blinding, then the taker's securities reserve, its
/// blinding, cash reserve, and its blinding. The last four are bound to the
/// signed pre-trade acknowledgement; they must not live in standing maker state.
pub const REQUEST_VALUES: usize = 14;

/// The share at a place of a frame.
pub open spec fn share_at(frame: FrameParts, index: int) -> nat {
    be_value(frame.payload.subrange(32 * index, 32 * index + 32))
}

/// The sum over frames of the shares at a place.
pub open spec fn column_sum(values: Seq<FrameParts>, index: int) -> nat
    decreases values.len(),
{
    if values.len() == 0 {
        0
    } else {
        column_sum(values.drop_last(), index) + share_at(values.last(), index)
    }
}

/// Taking one frame out takes its share out of the sum.
proof fn column_without(values: Seq<FrameParts>, index: int, at: int)
    requires
        0 <= at < values.len(),
    ensures
        column_sum(values, index) == column_sum(values.remove(at), index) + share_at(values[at], index),
    decreases values.len(),
{
    if at < values.len() - 1 {
        column_without(values.drop_last(), index, at);
        assert(values.remove(at).drop_last() =~= values.drop_last().remove(at));
        assert(values.remove(at).last() == values.last());
    } else {
        assert(values.remove(at) =~= values.drop_last());
    }
}

/// The request shares of a slot add up to the same in whatever order its frames
/// are listed.
pub proof fn request_sums_ignore_list_order(values: Seq<FrameParts>, shuffle: Seq<usize>, index: int)
    requires
        is_permutation(shuffle, values.len()),
    ensures
        column_sum(rearranged(values, shuffle), index) == column_sum(values, index),
        (forall|i: int| 0 <= i < values.len() ==> shares_reduced(#[trigger] values[i])) <==> (forall|i: int|
            0 <= i < values.len() ==> shares_reduced(#[trigger] rearranged(values, shuffle)[i])),
    decreases values.len(),
{
    let listed = rearranged(values, shuffle);
    if values.len() > 0 {
        let n = values.len();
        let at = shuffle.last() as int;
        let rest = values.remove(at);
        let inner = Seq::new(
            (n - 1) as nat,
            |i: int| if shuffle[i] > at { (shuffle[i] - 1) as usize } else { shuffle[i] },
        );
        assert(is_permutation(inner, rest.len())) by {
            assert forall|i: int| 0 <= i < n - 1 implies 0 <= #[trigger] inner[i] < n - 1 by {
                assert(shuffle[i] != shuffle[n - 1]);
            }
            assert forall|i: int, j: int| 0 <= i < j < n - 1 implies inner[i] != inner[j] by {
                assert(shuffle[i] != shuffle[j]);
                assert(shuffle[i] != shuffle[n - 1]);
                assert(shuffle[j] != shuffle[n - 1]);
            }
        }
        assert forall|i: int| 0 <= i < n - 1 implies #[trigger] rearranged(rest, inner)[i] == listed[i] by {
            assert(shuffle[i] != shuffle[n - 1]);
        }
        assert(listed.drop_last() =~= rearranged(rest, inner));
        request_sums_ignore_list_order(rest, inner, index);
        column_without(values, index, at);
    }
    if forall|i: int| 0 <= i < values.len() ==> shares_reduced(#[trigger] listed[i]) {
        assert forall|k: int| 0 <= k < values.len() implies shares_reduced(#[trigger] values[k]) by {
            permutation_covers(shuffle, values.len(), k);
            let i = choose|i: int| 0 <= i < values.len() && shuffle[i] == k;
            assert(shares_reduced(listed[i]));
        }
    }
}

/// Whether every share of a frame is reduced.
pub open spec fn shares_reduced(frame: FrameParts) -> bool {
    forall|i: int| 0 <= i < REQUEST_VALUES ==> #[trigger] share_at(frame, i) < group_order()
}

fn read_share(frame: &Frame, index: usize) -> (r: Result<FieldElement, String>)
    requires
        frame.payload@.len() >= 448,
        index < REQUEST_VALUES,
    ensures
        r is Ok <==> share_at(frame@, index as int) < group_order(),
        r matches Ok(element) ==> element.reduced() && element@ == share_at(frame@, index as int),
        r matches Err(e) ==> e@ == "wire field element is not reduced"@,
{
    let bytes = array32(frame.payload.as_slice(), index * 32);
    FieldElement::from_be_bytes(&bytes)
}

/// What comes of adding the request shares of a slot, value by value.
pub open spec fn aggregated(all: Seq<FrameParts>, r: Result<Vec<FieldElement>, String>) -> bool {
    if all.len() == 0 {
        r matches Err(e) && e@ == "a sealed slot has no fixed-population frames"@
    } else if forall|i: int| 0 <= i < all.len() ==> shares_reduced(#[trigger] all[i]) {
        r matches Ok(totals) && totals@.len() == REQUEST_VALUES && forall|i: int|
            0 <= i < REQUEST_VALUES ==> (#[trigger] totals@[i]).reduced() && totals@[i]@ == column_sum(all, i)
                % group_order()
    } else {
        r matches Err(e) && e@ == "wire field element is not reduced"@
    }
}

/// Adds up the request shares of all frames of a slot.
pub fn aggregate_request_shares(values: &[Frame]) -> (r: Result<Vec<FieldElement>, String>)
    requires
        forall|i: int| 0 <= i < values@.len() ==> (#[trigger] values@[i]).payload@.len() >= 448,
    ensures
        aggregated(frames(values@), r),
{
    if values.len() == 0 {
        return Err("a sealed slot has no fixed-population frames".to_owned());
    }
    let ghost all = frames(values@);
    let mut totals: Vec<FieldElement> = Vec::new();
    let mut k: usize = 0;
    while k < REQUEST_VALUES
        invariant
            k <= REQUEST_VALUES,
            totals@.len() == k,
            all.take(0) == Seq::<FrameParts>::empty(),
            forall|i: int|
                0 <= i < k ==> (#[trigger] totals@[i]).reduced() && totals@[i]@ == column_sum(all.take(0), i)
                    % group_order(),
        decreases REQUEST_VALUES - k,
    {
        proof {
            vstd::arithmetic::power2::lemma_pow2_pos(252);
            vstd::arithmetic::div_mod::lemma_small_mod(0, group_order());
        }
        totals.push(FieldElement::from_u64(0));
        k = k + 1;
    }
    let mut at: usize = 0;
    while at < values.len()
        invariant
            at <= values@.len(),
            all == frames(values@),
            forall|i: int| 0 <= i < values@.len() ==> (#[trigger] values@[i]).payload@.len() >= 448,
            totals@.len() == REQUEST_VALUES,
            forall|i: int| 0 <= i < at ==> shares_reduced(#[trigger] all[i]),
            forall|i: int|
                0 <= i < REQUEST_VALUES ==> (#[trigger] totals@[i]).reduced() && totals@[i]@ == column_sum(
                    all.take(at as int),
                    i,
                ) % group_order(),
            values@.len() > 0,
        decreases values@.len() - at,
    {
        let frame = &values[at];
        assert(all[at as int] == frame@);
        assert(all.take(at as int + 1).drop_last() =~= all.take(at as int));
        let mut index: usize = 0;
        while index < REQUEST_VALUES
            invariant
                index <= REQUEST_VALUES,
                at < values@.len(),
                all == frames(values@),
                frame == values@[at as int],
                all[at as int] == frame@,
                frame.payload@.len() >= 448,
                totals@.len() == REQUEST_VALUES,
                all.take(at as int + 1).drop_last() == all.take(at as int),
                all.take(at as int + 1).last() == frame@,
                forall|i: int| 0 <= i < index ==> #[trigger] share_at(frame@, i) < group_order(),
                forall|i: int|
                    0 <= i < REQUEST_VALUES ==> (#[trigger] totals@[i]).reduced() && totals@[i]@ == column_sum(
                        all.take(if i < index {
                            at as int + 1
                        } else {
                            at as int
                        }),
                        i,
                    ) % group_order(),
                values@.len() > 0,
            decreases REQUEST_VALUES - index,
        {
            match read_share(frame, index) {
                Err(e) => {
                    assert(!shares_reduced(all[at as int]));
                    return Err(e);
                },
                Ok(share) => {
                    let sum = totals[index].add_mod(&share);
                    proof {
                        let before = column_sum(all.take(at as int), index as int) as int;
                        let s = share_at(frame@, index as int) as int;
                        let l = group_order() as int;
                        vstd::arithmetic::power2::lemma_pow2_pos(252);
                        vstd::arithmetic::div_mod::lemma_add_mod_noop(before, s, l);
                        vstd::arithmetic::div_mod::lemma_mod_twice(before, l);
                        vstd::arithmetic::div_mod::lemma_add_mod_noop(before % l, s, l);
                    }
                    totals.set(index, sum);
                },
            }
            index = index + 1;
        }
        at = at + 1;
    }
    assert(all.take(at as int) =~= all);
    Ok(totals)
}

/// What a lane of the sealed population holds: the shares of its request, in order.
pub open spec fn lane_read(values: Seq<Frame>, lane: int, r: Result<Vec<FieldElement>, String>) -> bool {
    if lane >= values.len() {
        r matches Err(e) && e@ == "computation lane is outside the sealed fixed population"@
    } else if shares_reduced(values[lane]@) {
        r matches Ok(shares) && shares@.len() == REQUEST_VALUES && forall|i: int|
            0 <= i < REQUEST_VALUES ==> (#[trigger] shares@[i]).reduced() && shares@[i]@ == share_at(values[lane]@, i)
    } else {
        r matches Err(e) && e@ == "wire field element is not reduced"@
    }
}

/// Read one content-independent admission lane. Every registered participant
/// contributes a same-size real-or-cover frame; running every lane in order
/// supports simultaneous requests without adding their secret queries together.
pub fn request_shares_for_lane(values: &[Frame], lane: usize) -> (r: Result<Vec<FieldElement>, String>)
    requires
        forall|i: int| 0 <= i < values@.len() ==> (#[trigger] values@[i]).payload@.len() >= 448,
    ensures
        lane_read(values@, lane as int, r),
{
    if lane >= values.len() {
        return Err("computation lane is outside the sealed fixed population".to_owned());
    }
    let frame = &values[lane];
    let mut shares: Vec<FieldElement> = Vec::new();
    let mut index: usize = 0;
    while index < REQUEST_VALUES
        invariant
            index <= REQUEST_VALUES,
            lane < values@.len(),
            frame == values@[lane as int],
            frame.payload@.len() >= 448,
            shares@.len() == index,
            forall|i: int|
                0 <= i < index ==> (#[trigger] shares@[i]).reduced() && shares@[i]@ == share_at(frame@, i),
        decreases REQUEST_VALUES - index,
    {
        match read_share(frame, index) {
            Err(e) => {
                assert(!shares_reduced(values@[lane as int]@));
                return Err(e);
            },
            Ok(share) => {
                shares.push(share);
            },
        }
        index = index + 1;
    }
    assert(shares_reduced(frame@)) by {
        assert forall|i: int| 0 <= i < REQUEST_VALUES implies #[trigger] share_at(frame@, i) < group_order() by {
            assert(shares@[i].reduced());
        }
    }
    Ok(shares)
}

/// Field elements in decimal.
pub open spec fn decimals(values: Seq<FieldElement>) -> Seq<Seq<char>> {
    values.map_values(|v: FieldElement| decimal(v@))
}

/// The party input of a request: the request's public and admission values, the
/// taker's reserves, the standing maker shares, the taker's limit values, then
/// the resident policies and their blindings.
pub open spec fn party_input(request: Seq<FieldElement>, state: SecretState) -> Seq<Seq<char>> {
    decimals(request.subrange(0, 6)) + decimals(request.subrange(10, 14)) + state.standing + decimals(
        request.subrange(6, 10),
    ) + state.policies + state.blindings
}

/// What comes of putting together the input of one party.
pub open spec fn input_assembled(
    request: Seq<FieldElement>,
    state: SecretState,
    n_mm: nat,
    r: Result<Vec<String>, String>,
) -> bool {
    if request.len() != REQUEST_VALUES {
        r matches Err(e) && e@ == "resident request share vector has the wrong width"@
    } else {
        match state.verified(state.node, state.source, n_mm) {
            Err(e) => r matches Err(f) && f@ == e,
            Ok(_) => r matches Ok(inputs) && texts(inputs@) == party_input(request, state),
        }
    }
}

fn push_decimals(inputs: &mut Vec<String>, request: &[FieldElement], from: usize, to: usize)
    requires
        from <= to <= request@.len(),
    ensures
        texts(final(inputs)@) == texts(old(inputs)@) + decimals(request@.subrange(from as int, to as int)),
{
    let ghost wanted = decimals(request@.subrange(from as int, to as int));
    let mut i: usize = from;
    assert(texts(inputs@) =~= texts(old(inputs)@) + wanted.take(0));
    while i < to
        invariant
            from <= i <= to <= request@.len(),
            wanted == decimals(request@.subrange(from as int, to as int)),
            texts(inputs@) == texts(old(inputs)@) + wanted.take(i - from),
        decreases to - i,
    {
        let ghost before = inputs@;
        inputs.push(request[i].to_decimal());
        proof {
            assert(wanted[i - from] == decimal(request@[i as int]@));
            assert(texts(inputs@) =~= texts(before).push(wanted[i - from]));
            assert(texts(inputs@) =~= texts(old(inputs)@) + wanted.take(i + 1 - from));
        }
        i = i + 1;
    }
    assert(wanted.take(to - from) =~= wanted);
}

fn push_texts(inputs: &mut Vec<String>, values: &Vec<String>)
    ensures
        texts(final(inputs)@) == texts(old(inputs)@) + texts(values@),
{
    let ghost wanted = texts(values@);
    let mut i: usize = 0;
    assert(texts(inputs@) =~= texts(old(inputs)@) + wanted.take(0));
    while i < values.len()
        invariant
            i <= values@.len(),
            wanted == texts(values@),
            texts(inputs@) == texts(old(inputs)@) + wanted.take(i as int),
        decreases values@.len() - i,
    {
        let ghost before = inputs@;
        inputs.push(values[i].clone());
        proof {
            assert(texts(inputs@) =~= texts(before).push(wanted[i as int]));
            assert(texts(inputs@) =~= texts(old(inputs)@) + wanted.take(i as int + 1));
        }
        i = i + 1;
    }
    assert(wanted.take(i as int) =~= wanted);
}

/// Puts together the input of one party.
pub fn assemble_party_input(request: &[FieldElement], state: &MpcSecretState, n_mm: usize) -> (r: Result<
    Vec<String>,
    String,
>)
    ensures
        input_assembled(request@, state@, n_mm as nat, r),
{
    if request.len() != REQUEST_VALUES {
        return Err("resident request share vector has the wrong width".to_owned());
    }
    match state.verify(state.node, state.source_sha256.as_str(), n_mm) {
        Err(e) => {
            return Err(e);
        },
        Ok(_) => {},
    }
    let mut inputs: Vec<String> = Vec::new();
    push_decimals(&mut inputs, request, 0, 6);
    push_decimals(&mut inputs, request, 10, 14);
    push_texts(&mut inputs, &state.dvp_input_shares);
    push_decimals(&mut inputs, request, 6, 10);
    push_texts(&mut inputs, &state.policy_input_shares);
    push_texts(&mut inputs, &state.quote_policy_blinding_input_shares);
    assert(texts(inputs@) =~= party_input(request@, state@));
    Ok(inputs)
}

/// Whether `decode` may read `frame` off `bytes`.
pub open spec fn decodes<D: Fn(&Vec<u8>) -> Result<Frame, String>>(decode: D, bytes: Seq<u8>, frame: Frame) -> bool {
    exists|b: Vec<u8>| b@ == bytes && #[trigger] call_ensures(decode, (&b,), Ok::<Frame, String>(frame))
}

/// Whether `decode` may refuse `bytes` with an error.
pub open spec fn undecodable<D: Fn(&Vec<u8>) -> Result<Frame, String>>(
    decode: D,
    bytes: Seq<u8>,
    error: Seq<char>,
) -> bool {
    exists|b: Vec<u8>, e: String|
        b@ == bytes && e@ == error && #[trigger] call_ensures(decode, (&b,), Err::<Frame, String>(e))
}

/// Why the header of a sealed batch is refused.
pub open spec fn sealed_header_refusal(raw: Seq<u8>, slot: nat, expected_digest: Seq<u8>) -> Option<Seq<char>> {
    if sha256(raw) != expected_digest {
        Some("sealed stdin does not match the coordinator's batch digest"@)
    } else if raw.len() < 20 || raw.subrange(0, 20) != text_bytes("QOMM:SEALED:BATCH:v1"@) {
        Some("sealed stdin has the wrong magic"@)
    } else if raw.len() < 24 {
        Some("sealed stdin is truncated"@)
    } else if be_value(raw.subrange(20, 24)) != slot {
        Some("sealed stdin belongs to another slot"@)
    } else if raw.len() < 28 {
        Some("sealed stdin is truncated"@)
    } else if be_value(raw.subrange(24, 28)) == 0 || be_value(raw.subrange(24, 28)) > MAX_FRAMES {
        Some("sealed frame count is outside its fixed-population bound"@)
    } else {
        None
    }
}

/// Where the frame of a place starts.
pub open spec fn frame_start(width: nat, i: int) -> int {
    28 + i * (width + 4)
}

/// The bytes of the frame of a place.
pub open spec fn frame_bytes_at(raw: Seq<u8>, width: nat, i: int) -> Seq<u8> {
    raw.subrange(frame_start(width, i) + 4, frame_start(width, i) + 4 + width)
}

/// Whether a frame stands whole at a place.
pub open spec fn frame_stands(raw: Seq<u8>, width: nat, i: int) -> bool {
    let at = frame_start(width, i);
    &&& at + 4 + width <= raw.len()
    &&& be_value(raw.subrange(at, at + 4)) == width
}

/// Why no whole frame stands at a place.
pub open spec fn frame_refusal(raw: Seq<u8>, width: nat, i: int) -> Seq<char> {
    if frame_start(width, i) + 4 > raw.len() {
        "sealed stdin is truncated"@
    } else {
        "sealed frame has the wrong fixed size"@
    }
}

/// Whether a frame is the one at a place of a batch, for one node and slot.
pub open spec fn frame_read<D: Fn(&Vec<u8>) -> Result<Frame, String>>(
    decode: D,
    raw: Seq<u8>,
    width: nat,
    node: u16,
    slot: u32,
    i: int,
    value: Frame,
) -> bool {
    &&& frame_stands(raw, width, i)
    &&& decodes(decode, frame_bytes_at(raw, width, i), value)
    &&& value.node == node
    &&& value.slot == slot
}

/// Whether frames are those of a batch, for one node and slot.
pub open spec fn frames_read<D: Fn(&Vec<u8>) -> Result<Frame, String>>(
    decode: D,
    raw: Seq<u8>,
    width: nat,
    node: u16,
    slot: u32,
    values: Seq<Frame>,
) -> bool {
    forall|i: int|
        #![trigger values[i]]
        0 <= i < values.len() ==> frame_read(decode, raw, width, node, slot, i, values[i])
}

/// Whether reading a sealed batch may have an outcome.
pub open spec fn sealed_read<D: Fn(&Vec<u8>) -> Result<Frame, String>>(
    decode: D,
    raw: Seq<u8>,
    node: u16,
    slot: u32,
    expected_digest: Seq<u8>,
    width: nat,
    outcome: Result<Seq<Frame>, Seq<char>>,
) -> bool {
    match sealed_header_refusal(raw, slot as nat, expected_digest) {
        Some(e) => outcome == Err::<Seq<Frame>, Seq<char>>(e),
        None => {
            let count = be_value(raw.subrange(24, 28));
            match outcome {
                Ok(values) => {
                    &&& values.len() == count
                    &&& frames_read(decode, raw, width, node, slot, values)
                    &&& raw.len() == frame_start(width, count as int)
                },
                Err(e) => exists|seen: Seq<Frame>| #[trigger]
                    frames_read(decode, raw, width, node, slot, seen) && seen.len() <= count && {
                        let k = seen.len() as int;
                        if k == count {
                            &&& e == "sealed stdin has trailing bytes"@
                            &&& raw.len() != frame_start(width, k)
                        } else if !frame_stands(raw, width, k) {
                            e == frame_refusal(raw, width, k)
                        } else {
                            ||| undecodable(decode, frame_bytes_at(raw, width, k), e)
                            ||| e == "sealed frame belongs to another node or slot"@ && exists|f: Frame|
                                (f.node != node || f.slot != slot) && #[trigger] decodes(
                                    decode,
                                    frame_bytes_at(raw, width, k),
                                    f,
                                )
                        }
                    },
            }
        },
    }
}

/// One more frame.
proof fn frames_read_push<D: Fn(&Vec<u8>) -> Result<Frame, String>>(
    decode: D,
    raw: Seq<u8>,
    width: nat,
    node: u16,
    slot: u32,
    before: Seq<Frame>,
    frame: Frame,
)
    requires
        frames_read(decode, raw, width, node, slot, before),
        frame_stands(raw, width, before.len() as int),
        decodes(decode, frame_bytes_at(raw, width, before.len() as int), frame),
        frame.node == node,
        frame.slot == slot,
    ensures
        frames_read(decode, raw, width, node, slot, before.push(frame)),
{
    let after = before.push(frame);
    assert forall|j: int|
        #![trigger after[j]]
        0 <= j < after.len() implies frame_read(decode, raw, width, node, slot, j, after[j]) by {
        if j < before.len() {
            assert(after[j] == before[j]);
        } else {
            assert(after[j] == frame);
        }
    }
}

/// Reads the frames of a sealed batch: `width` is the fixed size of a frame and
/// `decode` reads one.
pub fn decode_sealed_batch<D: Fn(&Vec<u8>) -> Result<Frame, String>>(
    raw: &[u8],
    node: u16,
    slot: u32,
    expected_digest: &[u8; 32],
    width: usize,
    decode: &D,
) -> (r: Result<Vec<Frame>, String>)
    requires
        forall|b: &Vec<u8>| call_requires(*decode, (b,)),
    ensures
        sealed_read(
            *decode,
            raw@,
            node,
            slot,
            expected_digest@,
            width as nat,
            match r {
                Ok(values) => Ok(values@),
                Err(e) => Err(e@),
            },
        ),
{
    proof {
        reveal_strlit("QOMM:SEALED:BATCH:v1");
        ascii_width("QOMM:SEALED:BATCH:v1"@);
        be_widths();
    }
    let digest = hash(raw);
    if !same32(&digest, expected_digest) {
        return Err("sealed stdin does not match the coordinator's batch digest".to_owned());
    }
    let total: usize = raw.len();
    if total < 20 || !same(&raw[0..20], "QOMM:SEALED:BATCH:v1".as_bytes()) {
        return Err("sealed stdin has the wrong magic".to_owned());
    }
    if total < 24 {
        return Err("sealed stdin is truncated".to_owned());
    }
    if read_be(raw, 20, 4) != slot as u64 {
        return Err("sealed stdin belongs to another slot".to_owned());
    }
    if total < 28 {
        return Err("sealed stdin is truncated".to_owned());
    }
    let count: u64 = read_be(raw, 24, 4);
    if count == 0 || count > MAX_FRAMES as u64 {
        return Err("sealed frame count is outside its fixed-population bound".to_owned());
    }
    let mut values: Vec<Frame> = Vec::new();
    let mut at: usize = 28;
    let mut i: u64 = 0;
    #[verifier::loop_isolation(false)]
    while i < count
        invariant
            i <= count,
            total == raw@.len(),
            values@.len() == i,
            at == frame_start(width as nat, i as int),
            28 <= at <= total,
            frames_read(*decode, raw@, width as nat, node, slot, values@),
        decreases count - i,
    {
        assert(frame_start(width as nat, i + 1) == frame_start(width as nat, i as int) + width + 4) by (nonlinear_arith)
            requires
                frame_start(width as nat, i + 1) == 28 + (i + 1) * (width + 4),
                frame_start(width as nat, i as int) == 28 + i * (width + 4),
        ;
        if total - at < 4 {
            return Err("sealed stdin is truncated".to_owned());
        }
        let length: u64 = read_be(raw, at, 4);
        let body: usize = at + 4;
        if length != width as u64 || total - body < width {
            return Err("sealed frame has the wrong fixed size".to_owned());
        }
        let bytes = part(raw, body, body + width);
        assert(bytes@ == frame_bytes_at(raw@, width as nat, i as int));
        match decode(&bytes) {
            Err(e) => {
                assert(undecodable(*decode, frame_bytes_at(raw@, width as nat, i as int), e@));
                return Err(e);
            },
            Ok(frame) => {
                assert(decodes(*decode, frame_bytes_at(raw@, width as nat, i as int), frame));
                if frame.node != node || frame.slot != slot {
                    return Err("sealed frame belongs to another node or slot".to_owned());
                }
                let ghost before = values@;
                values.push(frame);
                proof {
                    frames_read_push(*decode, raw@, width as nat, node, slot, before, frame);
                }
            },
        }
        at = body + width;
        i = i + 1;
    }
    if at != total {
        assert(values@.len() == be_value(raw@.subrange(24, 28)));
        return Err("sealed stdin has trailing bytes".to_owned());
    }
    Ok(values)
}

/// What a node reports of one run.
#[derive(Debug)]
pub struct ResidentExecutionReceipt {
    pub node: u16,
    pub slot: u32,
    pub lane: usize,
    pub batch_digest: [u8; 32],
    pub source_digest: String,
    pub state_generation: u64,
    pub frame_count: usize,
    pub input_count: usize,
    pub elapsed_ns: u64,
    pub stdout_digest: [u8; 32],
    pub stderr_digest: [u8; 32],
    pub persistence_path: String,
    pub persistence_digest: [u8; 32],
}

/// The name of a node's persistence file.
pub open spec fn persistence_name(node: nat) -> Seq<char> {
    "Transactions-P"@ + decimal(node) + ".data"@
}

/// The name of a node's persistence file.
pub fn persistence_file_name(node: u16) -> (name: String)
    ensures
        name@ == persistence_name(node as nat),
{
    "Transactions-P".to_owned().concat(decimal_text(node as u64).as_str()).concat(".data")
}

impl ResidentExecutionReceipt {
    /// The receipt is of the sealed request that the run was launched with.
    pub open spec fn matches_request(
        self,
        node: nat,
        slot: nat,
        lane: nat,
        batch_digest: Seq<u8>,
        source_digest: Seq<char>,
    ) -> bool {
        &&& self.node == node
        &&& self.slot == slot
        &&& self.lane == lane
        &&& self.batch_digest@ == batch_digest
        &&& self.source_digest@ == source_digest
        &&& is_digest_text(text_bytes(self.source_digest@))
        &&& self.state_generation != 0
        &&& 1 <= self.frame_count <= MAX_FRAMES
        &&& 0 < self.input_count <= 1_000_000
        &&& self.stdout_digest@ != zero32()
        &&& self.stderr_digest@ != zero32()
        &&& self.persistence_digest@ != zero32()
    }

    /// Validate the public portion of a node-local execution receipt against
    /// the sealed request the verified runner was launched with. The local
    /// persistence path is deliberately excluded from the public digest.
    pub fn validate_against(
        &self,
        node: u16,
        slot: u32,
        lane: usize,
        batch_digest: [u8; 32],
        source_digest: &str,
    ) -> (r: Result<(), String>)
        ensures
            ({
                let sealed = self.matches_request(
                    node as nat,
                    slot as nat,
                    lane as nat,
                    batch_digest@,
                    source_digest@,
                );
                let own = last_part(text_bytes(self.persistence_path@)) == text_bytes(persistence_name(node as nat));
                match r {
                    Ok(_) => sealed && own,
                    Err(e) => if !sealed {
                        e@ == "resident MPC receipt differs from its sealed execution"@
                    } else {
                        !own && e@ == "resident MPC receipt names another party's persistence file"@
                    },
                }
            }),
    {
        if self.node != node || self.slot != slot || self.lane != lane || !same32(&self.batch_digest, &batch_digest)
            || !same_text(self.source_digest.as_str(), source_digest) || !is_digest(self.source_digest.as_str())
            || self.state_generation == 0 || self.frame_count < 1 || self.frame_count > MAX_FRAMES || self.input_count
            == 0 || self.input_count > 1_000_000 || is_zero32(&self.stdout_digest) || is_zero32(&self.stderr_digest)
            || is_zero32(&self.persistence_digest) {
            return Err("resident MPC receipt differs from its sealed execution".to_owned());
        }
        let expected = persistence_file_name(node);
        if !file_is(self.persistence_path.as_str(), expected.as_str()) {
            return Err("resident MPC receipt names another party's persistence file".to_owned());
        }
        Ok(())
    }

    /// The hashed text of the public part, for the bytes of a source digest.
    pub open spec fn message(self, source: Seq<u8>) -> Seq<u8> {
        text_bytes("QOMM:MPC:EXECUTION-RECEIPT:v1"@) + be_bytes(self.node as nat, 2) + be_bytes(self.slot as nat, 4)
            + be_bytes(self.lane as nat, 8) + self.batch_digest@ + source + be_bytes(self.state_generation as nat, 8)
            + be_bytes(self.frame_count as nat, 8) + be_bytes(self.input_count as nat, 8) + self.stdout_digest@
            + self.stderr_digest@ + self.persistence_digest@
    }

    /// Whether the source digest is thirty-two bytes in hexadecimal.
    pub open spec fn source_ok(self) -> bool {
        is_hex(self.source_digest@) && hex_bytes(self.source_digest@).len() == 32
    }

    /// Stable public commitment to the exact node-local run and proof handoff.
    /// It contains no path, price, quantity, policy, inventory, reserve opening,
    /// or Shamir share.
    pub fn public_digest(&self) -> (r: Result<[u8; 32], String>)
        ensures
            r is Ok <==> self.source_ok(),
            r matches Ok(digest) ==> digest@ == sha256(self.message(hex_bytes(self.source_digest@))),
            r matches Err(e) ==> e@ == "resident MPC source digest is malformed"@,
    {
        let source = match hex_decode(self.source_digest.as_str()) {
            None => {
                return Err("resident MPC source digest is malformed".to_owned());
            },
            Some(bytes) => bytes,
        };
        if source.len() != 32 {
            return Err("resident MPC source digest is malformed".to_owned());
        }
        let mut message: Vec<u8> = Vec::new();
        put(&mut message, "QOMM:MPC:EXECUTION-RECEIPT:v1".as_bytes());
        put_be(&mut message, self.node as u64, 2);
        put_be(&mut message, self.slot as u64, 4);
        put_be(&mut message, self.lane as u64, 8);
        put(&mut message, self.batch_digest.as_slice());
        put(&mut message, source.as_slice());
        put_be(&mut message, self.state_generation, 8);
        put_be(&mut message, self.frame_count as u64, 8);
        put_be(&mut message, self.input_count as u64, 8);
        put(&mut message, self.stdout_digest.as_slice());
        put(&mut message, self.stderr_digest.as_slice());
        put(&mut message, self.persistence_digest.as_slice());
        assert(message@ =~= self.message(source@));
        Ok(hash(message.as_slice()))
    }
}

/// What the public digest is taken of does not depend on where the persistence
/// file lies or how long the run took.
pub proof fn public_digest_ignores_the_path(a: ResidentExecutionReceipt, b: ResidentExecutionReceipt, source: Seq<u8>)
    requires
        b == (ResidentExecutionReceipt { persistence_path: b.persistence_path, elapsed_ns: b.elapsed_ns, ..a }),
    ensures
        a.message(source) == b.message(source),
        a.source_ok() == b.source_ok(),
{
}

/// What the public digest is taken of differs where the persistence digest differs.
pub proof fn public_digest_binds_persistence(a: ResidentExecutionReceipt, b: ResidentExecutionReceipt, source: Seq<u8>)
    requires
        b == (ResidentExecutionReceipt { persistence_digest: b.persistence_digest, ..a }),
        a.persistence_digest@ != b.persistence_digest@,
    ensures
        a.message(source) != b.message(source),
{
    let x = a.message(source);
    let y = b.message(source);
    if x == y {
        assert(x.subrange(x.len() - 32, x.len() as int) =~= a.persistence_digest@);
        assert(y.subrange(y.len() - 32, y.len() as int) =~= b.persistence_digest@);
    }
}

} // verus!
