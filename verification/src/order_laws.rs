//! What holds of execution lanes and of the wires that carry attestations.

use vstd::prelude::*;
use crate::application_crypto::{answers, one_answer, signatures_hold, signs, Signature, SigningKey, VerifyingKey};
use crate::bytes::zero32;
use crate::order::{
    admission_at, admission_nodes, admission_wire, admission_wire_layout, admission_wire_round_trip,
    admissions_by_node, batches_by_node, cluster_batch, encoded_executions, execution_batches,
    execution_bundle_round_trip, execution_lane, execution_nodes, execution_wire, execution_wire_layout,
    executions_by_node, lane_authentic, lane_refused, lane_verified, read_admissions, read_execution_bundle, same_run,
    Admission, Execution, ExecutionLane, COMMITTEE_NODES,
};
use crate::product_execution::{job_of_lane, planned_job_is_certified, unsigned_receipts, ProductExecutionRequest};
use crate::sorting::{
    identity_order, is_permutation, is_stable_order, order_of, permutation_covers, rearranged, stable_order_exists,
};

verus! {

/// Whether the nodes of a list are exactly those of the committee.
pub open spec fn whole_committee(values: Seq<Execution>) -> bool {
    &&& values.len() == COMMITTEE_NODES
    &&& forall|i: int| 0 <= i < values.len() ==> (#[trigger] values[i]).node < COMMITTEE_NODES
    &&& forall|i: int, j: int| 0 <= i < j < values.len() ==> (#[trigger] values[i]).node != (#[trigger] values[j]).node
}

/// Whether an attestation is complete and authentic under the key of its node.
pub open spec fn attested<V: Fn(&VerifyingKey, &Vec<u8>, &Signature) -> bool>(
    verify: V,
    keys: Seq<VerifyingKey>,
    value: Execution,
) -> bool {
    value.complete() && answers(verify, keys[value.node as int], value.body(), value.signature, true)
}

/// The sorted list holds the listed values, each in one place.
proof fn sorted_places(values: Seq<Execution>)
    requires
        values.len() == COMMITTEE_NODES,
    ensures
        executions_by_node(values).len() == COMMITTEE_NODES,
        is_stable_order(execution_nodes(values), order_of(execution_nodes(values))),
        forall|i: int|
            0 <= i < COMMITTEE_NODES ==> #[trigger] executions_by_node(values)[i] == values[order_of(
                execution_nodes(values),
            )[i] as int],
{
    stable_order_exists(execution_nodes(values));
}

/// In a whole committee the sorted list has every node in its place, and the other
/// way round.
proof fn sorted_committee(values: Seq<Execution>)
    requires
        values.len() == COMMITTEE_NODES,
    ensures
        whole_committee(values) <==> forall|i: int|
            0 <= i < COMMITTEE_NODES ==> (#[trigger] executions_by_node(values)[i]).node == i,
{
    sorted_places(values);
    let sorted = executions_by_node(values);
    let order = order_of(execution_nodes(values));
    if forall|i: int| 0 <= i < COMMITTEE_NODES ==> (#[trigger] sorted[i]).node == i {
        assert forall|k: int| 0 <= k < values.len() implies exists|i: int|
            0 <= i < COMMITTEE_NODES && order[i] == k && (#[trigger] values[k]).node == i by {
            permutation_covers(order, COMMITTEE_NODES as nat, k);
            let i = choose|i: int| 0 <= i < COMMITTEE_NODES && order[i] == k;
            assert(sorted[i] == values[k]);
        }
        assert forall|i: int, j: int| 0 <= i < j < values.len() implies (#[trigger] values[i]).node != (
        #[trigger] values[j]).node by {
            let a = choose|a: int| 0 <= a < COMMITTEE_NODES && order[a] == i && values[i].node == a;
            let b = choose|b: int| 0 <= b < COMMITTEE_NODES && order[b] == j && values[j].node == b;
        }
    }
    if whole_committee(values) {
        assert forall|i: int, j: int| 0 <= i < j < COMMITTEE_NODES implies (#[trigger] sorted[i]).node < (
        #[trigger] sorted[j]).node by {
            let a = order[i] as int;
            let b = order[j] as int;
            assert(execution_nodes(values)[a] == values[a].node);
            assert(execution_nodes(values)[b] == values[b].node);
            if a < b {
                assert(values[a].node != values[b].node);
            } else {
                assert(values[b].node != values[a].node);
            }
        }
        assert forall|i: int| 0 <= i < COMMITTEE_NODES implies (#[trigger] sorted[i]).node < COMMITTEE_NODES by {
            assert(values[order[i] as int].node < COMMITTEE_NODES);
        }
        assert(sorted[0].node < sorted[1].node < sorted[2].node < sorted[3].node < sorted[4].node < sorted[5].node
            < sorted[6].node < 7);
    }
}

/// The receipts of a lane are certified if and only if there are seven of them and
/// seven keys, the order is not zero, the nodes are those of the committee, each
/// receipt is complete and authentic under its node's key, and all agree on the
/// run. What is certified is what is derived from the receipts alone.
pub proof fn lane_is_certified_exactly<V: Fn(&VerifyingKey, &Vec<u8>, &Signature) -> bool>(
    verify: V,
    values: Seq<Execution>,
    keys: Seq<VerifyingKey>,
    order_digest: Seq<u8>,
    r: Result<ExecutionLane, Seq<char>>,
)
    requires
        one_answer(verify),
        lane_verified(verify, values, keys, order_digest, r),
    ensures
        r is Ok <==> {
            &&& values.len() == COMMITTEE_NODES
            &&& keys.len() == COMMITTEE_NODES
            &&& order_digest != zero32()
            &&& whole_committee(values)
            &&& forall|i: int| 0 <= i < values.len() ==> attested(verify, keys, #[trigger] values[i])
            &&& forall|i: int| 0 <= i < values.len() ==> same_run(#[trigger] values[i], values[0])
        },
        r matches Ok(lane) ==> {
            &&& execution_lane(values, order_digest) == Ok::<ExecutionLane, Seq<char>>(lane)
            &&& lane.slot == values[0].slot
            &&& lane.lane == values[0].lane
            &&& lane.source_digest == values[0].source_digest
        },
{
    if values.len() == COMMITTEE_NODES && keys.len() == COMMITTEE_NODES {
        sorted_places(values);
        sorted_committee(values);
        let sorted = executions_by_node(values);
        let order = order_of(execution_nodes(values));
        assert forall|k: int| 0 <= k < values.len() implies exists|i: int|
            0 <= i < COMMITTEE_NODES && sorted[i] == #[trigger] values[k] by {
            permutation_covers(order, COMMITTEE_NODES as nat, k);
            let i = choose|i: int| 0 <= i < COMMITTEE_NODES && order[i] == k;
            assert(sorted[i] == values[k]);
        }
        if r is Ok {
            assert(lane_authentic(verify, sorted, keys));
            assert forall|k: int| 0 <= k < values.len() implies attested(verify, keys, #[trigger] values[k]) by {
                let i = choose|i: int| 0 <= i < COMMITTEE_NODES && sorted[i] == values[k];
                assert(sorted[i].node == i);
            }
            assert forall|k: int| 0 <= k < values.len() implies same_run(#[trigger] values[k], values[0]) by {
                let i = choose|i: int| 0 <= i < COMMITTEE_NODES && sorted[i] == values[k];
                let j = choose|j: int| 0 <= j < COMMITTEE_NODES && sorted[j] == values[0];
                assert(same_run(sorted[i], sorted[0]) && same_run(sorted[j], sorted[0]));
            }
            assert(order_digest != zero32());
        }
        if {
            &&& order_digest != zero32()
            &&& whole_committee(values)
            &&& forall|i: int| 0 <= i < values.len() ==> attested(verify, keys, #[trigger] values[i])
            &&& forall|i: int| 0 <= i < values.len() ==> same_run(#[trigger] values[i], values[0])
        } {
            assert forall|i: int| 0 <= i < COMMITTEE_NODES implies {
                &&& (#[trigger] sorted[i]).node == i
                &&& attested(verify, keys, sorted[i])
                &&& same_run(sorted[i], sorted[0])
            } by {
                assert(attested(verify, keys, values[order[i] as int]));
                assert(same_run(values[order[i] as int], values[0]));
                assert(same_run(values[order[0] as int], values[0]));
            }
            assert(!lane_refused(verify, sorted, keys));
            let batches = execution_batches(sorted);
            let numbers = batches.map_values(|b: crate::order::NodeBatch| b.node as int);
            assert forall|i: int| 0 <= i < numbers.len() implies numbers[i] == i by {
                assert(sorted[i].node == i);
            }
            identity_order(numbers);
            assert(batches_by_node(batches) =~= batches);
            assert forall|i: int| 0 <= i < COMMITTEE_NODES implies batches_by_node(batches)[i].node == i
                && batches_by_node(batches)[i].digest != zero32() by {
                assert(sorted[i].node == i && attested(verify, keys, sorted[i]));
            }
            assert(cluster_batch(sorted[0].slot, order_digest, batches) is Ok);
            assert(execution_lane(values, order_digest) is Ok);
        }
    }
}

/// The same receipts are certified in whatever order they are listed.
pub proof fn certified_lane_ignores_list_order<V: Fn(&VerifyingKey, &Vec<u8>, &Signature) -> bool>(
    verify: V,
    values: Seq<Execution>,
    keys: Seq<VerifyingKey>,
    order_digest: Seq<u8>,
    shuffle: Seq<usize>,
    r: Result<ExecutionLane, Seq<char>>,
    shuffled: Result<ExecutionLane, Seq<char>>,
)
    requires
        one_answer(verify),
        is_permutation(shuffle, values.len()),
        lane_verified(verify, values, keys, order_digest, r),
        lane_verified(verify, rearranged(values, shuffle), keys, order_digest, shuffled),
    ensures
        r is Ok <==> shuffled is Ok,
        r is Ok ==> shuffled == r,
{
    let other = rearranged(values, shuffle);
    lane_is_certified_exactly(verify, values, keys, order_digest, r);
    lane_is_certified_exactly(verify, other, keys, order_digest, shuffled);
    if values.len() == COMMITTEE_NODES {
        assert forall|k: int| 0 <= k < values.len() implies exists|i: int|
            0 <= i < values.len() && shuffle[i] == k && other[i] == #[trigger] values[k] by {
            permutation_covers(shuffle, values.len(), k);
            let i = choose|i: int| 0 <= i < values.len() && shuffle[i] == k;
            assert(other[i] == values[k]);
        }
        if r is Ok {
            assert forall|i: int, j: int| 0 <= i < j < other.len() implies (#[trigger] other[i]).node != (
            #[trigger] other[j]).node by {
                let a = shuffle[i] as int;
                let b = shuffle[j] as int;
                if a < b {
                    assert(values[a].node != values[b].node);
                } else {
                    assert(values[b].node != values[a].node);
                }
            }
            assert forall|i: int| 0 <= i < other.len() implies attested(verify, keys, #[trigger] other[i]) && same_run(
                other[i],
                other[0],
            ) && other[i].node < COMMITTEE_NODES by {
                assert(attested(verify, keys, values[shuffle[i] as int]));
                assert(same_run(values[shuffle[i] as int], values[0]));
                assert(same_run(values[shuffle[0] as int], values[0]));
            }
            crate::order::execution_lane_ignores_list_order(values, order_digest, shuffle);
        }
        if shuffled is Ok {
            assert forall|k: int| 0 <= k < values.len() implies attested(verify, keys, #[trigger] values[k])
                && same_run(
                values[k],
                values[0],
            ) && values[k].node < COMMITTEE_NODES by {
                let i = choose|i: int| 0 <= i < values.len() && shuffle[i] == k && other[i] == values[k];
                let z = choose|z: int| 0 <= z < values.len() && shuffle[z] == 0 && other[z] == values[0];
                assert(attested(verify, keys, other[i]));
                assert(same_run(other[i], other[0]) && same_run(other[z], other[0]));
            }
            assert forall|a: int, b: int| 0 <= a < b < values.len() implies (#[trigger] values[a]).node != (
            #[trigger] values[b]).node by {
                let i = choose|i: int| 0 <= i < values.len() && shuffle[i] == a && other[i] == values[a];
                let j = choose|j: int| 0 <= j < values.len() && shuffle[j] == b && other[j] == values[b];
                if i < j {
                    assert(other[i].node != other[j].node);
                } else {
                    assert(other[j].node != other[i].node);
                }
            }
            crate::order::execution_lane_ignores_list_order(values, order_digest, shuffle);
        }
    }
}

/// Whether each receipt of a request was signed by the key of its node.
pub open spec fn signed_receipts<S: Fn(&SigningKey, &Vec<u8>) -> Result<Signature, String>>(
    sign: S,
    keys: Seq<SigningKey>,
    request: ProductExecutionRequest,
    signed: Seq<Execution>,
) -> bool {
    &&& keys.len() == COMMITTEE_NODES
    &&& signed.len() == COMMITTEE_NODES
    &&& forall|i: int| #![trigger signed[i]]
        0 <= i < COMMITTEE_NODES ==> {
            &&& signed[i] == (Execution { signature: signed[i].signature, ..request.receipt(i) })
            &&& signs(sign, keys[i], request.receipt(i).body(), Ok(signed[i].signature))
        }
}

/// The proof job that is planned before anything is signed is the one that the
/// seven signed receipts certify, where a signature that is made is authentic.
pub proof fn planned_job_is_the_certified_one<
    S: Fn(&SigningKey, &Vec<u8>) -> Result<Signature, String>,
    V: Fn(&VerifyingKey, &Vec<u8>, &Signature) -> bool,
>(
    sign: S,
    verify: V,
    keys: Seq<SigningKey>,
    request: ProductExecutionRequest,
    signed: Seq<Execution>,
    id: Seq<u8>,
    r: Result<ExecutionLane, Seq<char>>,
)
    requires
        signatures_hold(sign, verify),
        request.planned() == Ok::<Seq<u8>, Seq<char>>(id),
        signed_receipts(sign, keys, request, signed),
        lane_verified(verify, signed, keys.map_values(|k: SigningKey| k.public), request.order_digest@, r),
    ensures
        r is Ok,
        job_of_lane(r) == Ok::<Seq<u8>, Seq<char>>(id),
{
    let public = keys.map_values(|k: SigningKey| k.public);
    let receipts = request.receipts();
    let shuffle = Seq::new(COMMITTEE_NODES as nat, |i: int| i as usize);
    assert forall|i: int| 0 <= i < COMMITTEE_NODES implies #[trigger] unsigned_receipts(signed)[i] == rearranged(
        receipts,
        shuffle,
    )[i] by {
        assert(signed[i] == (Execution { signature: signed[i].signature, ..request.receipt(i) }));
    }
    assert(unsigned_receipts(signed) =~= rearranged(receipts, shuffle));
    planned_job_is_certified(request, signed, shuffle);
    let sorted = executions_by_node(signed);
    assert forall|i: int| 0 <= i < COMMITTEE_NODES implies execution_nodes(signed)[i] == i by {
        assert(signed[i].node == request.receipt(i).node);
    }
    identity_order(execution_nodes(signed));
    assert(sorted =~= signed);
    assert(execution_lane(signed, request.order_digest@) is Ok);
    assert forall|i: int| 0 <= i < COMMITTEE_NODES implies !((#[trigger] sorted[i]).node != i || !sorted[i].complete()
        || answers(verify, public[i], sorted[i].body(), sorted[i].signature, false)) by {
        assert(sorted[i] == signed[i]);
        assert(signed[i].node == i);
        assert(signed[i].body() == request.receipt(i).body());
        assert(signs(sign, keys[i], request.receipt(i).body(), Ok(signed[i].signature)));
    }
    assert(!lane_refused(verify, sorted, public));
}

/// A list with two of its values exchanged.
pub open spec fn exchanged<T>(values: Seq<T>, i: int, j: int) -> Seq<T> {
    values.update(i, values[j]).update(j, values[i])
}

proof fn execution_in_place(values: Seq<Execution>)
    requires
        whole_committee(values),
    ensures
        is_permutation(order_of(execution_nodes(values)), COMMITTEE_NODES as nat),
        executions_by_node(values).len() == COMMITTEE_NODES,
        forall|i: int| 0 <= i < COMMITTEE_NODES ==> (#[trigger] executions_by_node(values)[i]).node == i,
{
    sorted_places(values);
    sorted_committee(values);
}

proof fn admission_in_place(values: Seq<Admission>)
    requires
        values.len() == COMMITTEE_NODES,
        forall|i: int| 0 <= i < values.len() ==> (#[trigger] values[i]).node < COMMITTEE_NODES,
        forall|i: int, j: int| 0 <= i < j < values.len() ==> (#[trigger] values[i]).node != (#[trigger] values[j]).node,
    ensures
        is_permutation(order_of(admission_nodes(values)), COMMITTEE_NODES as nat),
        admissions_by_node(values).len() == COMMITTEE_NODES,
        forall|i: int| 0 <= i < COMMITTEE_NODES ==> (#[trigger] admissions_by_node(values)[i]).node == i,
{
    stable_order_exists(admission_nodes(values));
    let sorted = admissions_by_node(values);
    let order = order_of(admission_nodes(values));
    assert(is_stable_order(admission_nodes(values), order));
    assert forall|i: int, j: int| 0 <= i < j < COMMITTEE_NODES implies (#[trigger] sorted[i]).node < (
    #[trigger] sorted[j]).node by {
        let a = order[i] as int;
        let b = order[j] as int;
        assert(admission_nodes(values)[a] == values[a].node);
        assert(admission_nodes(values)[b] == values[b].node);
        if a < b {
            assert(values[a].node != values[b].node);
        } else {
            assert(values[b].node != values[a].node);
        }
    }
    assert forall|i: int| 0 <= i < COMMITTEE_NODES implies (#[trigger] sorted[i]).node < COMMITTEE_NODES by {
        assert(values[order[i] as int].node < COMMITTEE_NODES);
    }
    assert(sorted[0].node < sorted[1].node < sorted[2].node < sorted[3].node < sorted[4].node < sorted[5].node
        < sorted[6].node < 7);
}

/// Seven attestations of the whole committee in any order are read back from their
/// wire in node order. No shorter or longer wire is
/// accepted, and none with two of its records exchanged.
pub proof fn admission_wire_is_exact(values: Seq<Admission>, signature_bytes: nat)
    requires
        values.len() == COMMITTEE_NODES,
        forall|i: int|
            0 <= i < values.len() ==> (#[trigger] values[i]).sized(signature_bytes) && values[i].complete()
                && values[i].node < COMMITTEE_NODES,
        forall|i: int, j: int| 0 <= i < j < values.len() ==> (#[trigger] values[i]).node != (#[trigger] values[j]).node,
    ensures
        forall|i: int| 0 <= i < COMMITTEE_NODES ==> (#[trigger] admissions_by_node(values)[i]).node == i,
        exists|order: Seq<usize>|
            is_permutation(order, COMMITTEE_NODES as nat) && admissions_by_node(values)
                == #[trigger] rearranged(values, order),
        read_admissions(admission_wire(admissions_by_node(values)), signature_bytes) == Ok::<Seq<Admission>, Seq<char>>(
            admissions_by_node(values),
        ),
        forall|n: int|
            0 <= n < admission_wire(admissions_by_node(values)).len() ==> read_admissions(
                #[trigger] admission_wire(admissions_by_node(values)).take(n),
                signature_bytes,
            ) is Err,
        forall|more: Seq<u8>|
            more.len() > 0 ==> read_admissions(
                #[trigger] (admission_wire(admissions_by_node(values)) + more),
                signature_bytes,
            ) is Err,
        forall|i: int, j: int|
            0 <= i < j < COMMITTEE_NODES ==> read_admissions(
                admission_wire(#[trigger] exchanged(admissions_by_node(values), i, j)),
                signature_bytes,
            ) is Err,
{
    let sorted = admissions_by_node(values);
    admission_in_place(values);
    assert forall|i: int| 0 <= i < COMMITTEE_NODES implies (#[trigger] sorted[i]).sized(signature_bytes)
        && sorted[i].complete() by {
        let order = order_of(admission_nodes(values));
        assert(sorted[i] == values[order[i] as int]);
    }
    admission_wire_layout(sorted, signature_bytes);
    admission_wire_round_trip(sorted, signature_bytes);
    assert forall|i: int, j: int| 0 <= i < j < COMMITTEE_NODES implies read_admissions(
        admission_wire(#[trigger] exchanged(sorted, i, j)),
        signature_bytes,
    ) is Err by {
        let other = exchanged(sorted, i, j);
        admission_wire_layout(other, signature_bytes);
        assert(other[i] == sorted[j]);
        let read = Seq::new(
            COMMITTEE_NODES as nat,
            |k: int| admission_at(admission_wire(other), k, signature_bytes),
        );
        assert(read[i] == other[i]);
        assert(read[i].node != i);
    }
}

/// Seven attestations of the whole committee in any order are read back from their
/// wire in node order,
/// and writing what was read gives the same wire. No shorter or longer wire is
/// accepted, and none with two of its records exchanged.
pub proof fn execution_wire_is_exact(values: Seq<Execution>, signature_bytes: nat)
    requires
        values.len() == COMMITTEE_NODES,
        forall|i: int|
            0 <= i < values.len() ==> (#[trigger] values[i]).sized(signature_bytes) && values[i].complete()
                && values[i].node < COMMITTEE_NODES,
        forall|i: int, j: int| 0 <= i < j < values.len() ==> (#[trigger] values[i]).node != (#[trigger] values[j]).node,
    ensures
        forall|i: int| 0 <= i < COMMITTEE_NODES ==> (#[trigger] executions_by_node(values)[i]).node == i,
        exists|order: Seq<usize>|
            is_permutation(order, COMMITTEE_NODES as nat) && executions_by_node(values)
                == #[trigger] rearranged(values, order),
        read_execution_bundle(execution_wire(executions_by_node(values)), signature_bytes) == Ok::<Seq<Execution>,
            Seq<char>>(
            executions_by_node(values),
        ),
        encoded_executions(values) == Ok::<Seq<u8>, Seq<char>>(execution_wire(executions_by_node(values))),
        encoded_executions(executions_by_node(values)) == encoded_executions(values),
        forall|n: int|
            0 <= n < execution_wire(executions_by_node(values)).len() ==> read_execution_bundle(
                #[trigger] execution_wire(executions_by_node(values)).take(n),
                signature_bytes,
            ) is Err,
        forall|more: Seq<u8>|
            more.len() > 0 ==> read_execution_bundle(
                #[trigger] (execution_wire(executions_by_node(values)) + more),
                signature_bytes,
            ) is Err,
        forall|i: int, j: int|
            0 <= i < j < COMMITTEE_NODES ==> read_execution_bundle(
                execution_wire(#[trigger] exchanged(executions_by_node(values), i, j)),
                signature_bytes,
            ) is Err,
{
    let sorted = executions_by_node(values);
    execution_in_place(values);
    assert forall|i: int| 0 <= i < COMMITTEE_NODES implies (#[trigger] sorted[i]).sized(signature_bytes)
        && sorted[i].complete() by {
        let order = order_of(execution_nodes(values));
        assert(sorted[i] == values[order[i] as int]);
    }
    execution_wire_layout(sorted, signature_bytes);
    execution_bundle_round_trip(sorted, signature_bytes);
    identity_order(execution_nodes(sorted));
    assert(executions_by_node(sorted) =~= sorted);
    assert forall|i: int, j: int| 0 <= i < j < COMMITTEE_NODES implies read_execution_bundle(
        execution_wire(#[trigger] exchanged(sorted, i, j)),
        signature_bytes,
    ) is Err by {
        let other = exchanged(sorted, i, j);
        execution_wire_layout(other, signature_bytes);
        assert(other[i] == sorted[j]);
        assert(other[i].node != i);
    }
}

} // verus!
