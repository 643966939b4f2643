//! What holds of shares that are dealt, received and audited.

use vstd::prelude::*;
use vstd::arithmetic::power2::pow2;
use crate::application_crypto::{answers, signs, Signature, SigningKey, VerifyingKey};
use crate::roles::{
    audited, bit_length, bit_length_bound, dealt_receipts, dealt_text, disowned, disputed, drawn_share, drawn_shares,
    has_receipt, holds_dealt, magnitude, needed_bits, polynomial, receipt_said, receipts_said, sharing_polynomial,
    split_as, split_refusal, sum, total, unreceipted, ComputingNode, Dealt, InputParty,
};

verus! {

/// The shares of a value add up to it, whatever was drawn, and all but the last are the drawn
/// numbers, below the width of the value and forty bits more.
pub proof fn shares_add_up_to_the_value(
    shares: Seq<i128>,
    value: int,
    n_nodes: usize,
    value_bits: u32,
    drawn: Seq<u64>,
    at: int,
)
    requires
        split_as(shares, value, n_nodes, value_bits, drawn),
        n_nodes > 0,
        value_bits < 86,
    ensures
        shares.len() == n_nodes,
        shares[n_nodes - 1] == value - total(shares, (n_nodes - 1) as nat),
        0 <= at < n_nodes - 1 ==> {
            &&& 0 <= shares[at] < pow2((value_bits + 40) as nat)
            &&& shares[at] == (drawn[2 * at] as int + drawn[2 * at + 1] as int * 0x1_0000_0000_0000_0000) % pow2(
                (value_bits + 40) as nat,
            ) as int
        },
{
    vstd::arithmetic::power2::lemma_pow2_pos((value_bits + 40) as nat);
    if 0 <= at < n_nodes - 1 {
        let width = pow2((value_bits + 40) as nat) as int;
        let word = drawn[2 * at] as int + drawn[2 * at + 1] as int * 0x1_0000_0000_0000_0000;
        vstd::arithmetic::div_mod::lemma_mod_bound(word, width);
        assert(shares[at] == drawn_share(drawn[2 * at], drawn[2 * at + 1], (value_bits + 40) as nat));
    }
}

/// A sum of shares is that of its parts, in whatever place it is cut.
pub proof fn totals_add(shares: Seq<i128>, count: nat)
    requires
        0 < count <= shares.len(),
    ensures
        total(shares, count) == total(shares, (count - 1) as nat) + shares[count - 1],
        total(shares, 0) == 0,
{
}

/// Two splits of one value over the same number of nodes open to the same value, whatever
/// was drawn for each.
pub proof fn splits_of_one_value_agree(
    a: Seq<i128>,
    b: Seq<i128>,
    value: int,
    n_nodes: usize,
    value_bits: u32,
    drawn: Seq<u64>,
    others: Seq<u64>,
)
    requires
        split_as(a, value, n_nodes, value_bits, drawn),
        split_as(b, value, n_nodes, value_bits, others),
    ensures
        total(a, a.len()) == total(b, b.len()),
{
}

/// A value is split exactly over two nodes or more, where it fits its declared width, the
/// shares stay below a hundred and twenty-six bits, and the last share fits.
pub proof fn value_is_split_exactly(value: i128, n_nodes: usize, value_bits: u32, drawn: Seq<u64>)
    ensures
        split_refusal(value, n_nodes, value_bits, drawn) is None <==> {
            &&& n_nodes >= 2
            &&& bit_length(magnitude(value as int)) <= value_bits
            &&& value_bits + 40 < 126
            &&& {
                let all = sum(
                    drawn_shares(drawn, (n_nodes - 1) as nat, (value_bits + 40) as nat),
                    (n_nodes - 1) as nat,
                );
                all <= i128::MAX && value - all >= i128::MIN
            }
        },
{
}

/// A number needs as many bits as the power of two that it stays below, whatever its sign.
pub proof fn width_is_the_power_above(value: int, bits: nat)
    ensures
        bit_length(magnitude(value)) <= bits <==> -(pow2(bits) as int) < value < pow2(bits),
{
    let size = magnitude(value);
    let width = bit_length(size);
    bit_length_bound(size);
    vstd::arithmetic::power2::lemma_pow2_pos(bits);
    if width < bits {
        vstd::arithmetic::power2::lemma_pow2_strictly_increases(width, bits);
    } else if bits < width {
        if size == 0 {
            assert(bit_length(0) == 0);
        }
        if bits < width - 1 {
            vstd::arithmetic::power2::lemma_pow2_strictly_increases(bits, (width - 1) as nat);
        }
    }
}

/// A field holds the shares of a value only with forty bits of slack, two more, and as many
/// as count the nodes.
pub proof fn field_has_room_for_the_shares(n_nodes: usize, value_bits: u32)
    ensures
        needed_bits(n_nodes, value_bits) >= value_bits + 42,
        n_nodes > 0 ==> needed_bits(n_nodes, value_bits) == value_bits + 42 + bit_length((n_nodes - 1) as nat),
        n_nodes == 0 ==> needed_bits(n_nodes, value_bits) == value_bits + 42,
{
}

/// The polynomial of a sharing has the value as its constant, and as many further
/// coefficients as the threshold, each drawn and reduced.
pub proof fn sharing_polynomial_hides_the_value(
    value: u128,
    threshold: nat,
    prime: nat,
    drawn: Seq<u64>,
    at: int,
)
    requires
        0 < prime <= u128::MAX,
    ensures
        ({
            let p = sharing_polynomial(value, threshold, prime, drawn);
            &&& p.len() == threshold + 1
            &&& p[0] == value as int % prime as int
            &&& polynomial(p, 0) == p[0]
            &&& 0 <= at < threshold ==> p[at + 1] == (drawn[2 * at] as int + drawn[2 * at + 1] as int
                * 0x1_0000_0000_0000_0000) % prime as int
        }),
{
    let p = sharing_polynomial(value, threshold, prime, drawn);
    assert(polynomial(p, 0) == p[0] + 0 * polynomial(p.skip(1), 0));
}

/// A value that was dealt is in shares that add up to it, and every node has a receipt for
/// its own share, index and position, signed with the dealer's key, if the dealer has one.
pub proof fn dealt_value_is_receipted<S: Fn(&SigningKey, &Vec<u8>) -> Result<Signature, String>>(
    party: InputParty,
    sign: S,
    value: i128,
    indices: Seq<usize>,
    positions: Seq<nat>,
    drawn: Seq<u64>,
    dealt: Dealt,
    at: int,
)
    requires
        party.dealt(sign, value, indices, positions, drawn, dealt),
        0 <= at < party.n_nodes,
    ensures
        dealt.shares@.len() == party.n_nodes,
        dealt.receipts@.len() == party.n_nodes,
        total(dealt.shares@, dealt.shares@.len()) == value,
        party.signing_key is None ==> dealt.receipts@[at] is None,
        party.signing_key matches Some(key) ==> dealt.receipts@[at] is Some && signs(
            sign,
            key,
            dealt_text(party.name@, indices[at] as nat, positions[at], dealt.shares@[at] as int),
            Ok((dealt.receipts@[at]->0)@),
        ),
{
    assert(dealt.receipts@[at] == dealt.receipts@[at]);
}

/// A node that is dealt to holds its own share of every value, behind what it held, with the
/// receipt of that share.
pub proof fn node_holds_its_own_shares(
    before: ComputingNode,
    dealt: Seq<Dealt>,
    node: int,
    after: ComputingNode,
    at: int,
)
    requires
        holds_dealt(before, dealt, node, dealt.len(), after),
        0 <= at < dealt.len(),
    ensures
        after.index == before.index,
        after.inputs@.len() == before.inputs@.len() + dealt.len(),
        after.inputs@[before.inputs@.len() + at] == dealt[at].shares@[node],
        forall|i: int| 0 <= i < before.inputs@.len() ==> #[trigger] after.inputs@[i] == before.inputs@[i],
        after.receipts@.len() == before.receipts@.len() + dealt.len(),
        (after.receipts@[before.receipts@.len() + at] is Some) == (dealt[at].receipts@[node] is Some),
        dealt[at].receipts@[node] is Some ==> (after.receipts@[before.receipts@.len() + at]->0)@
            == (dealt[at].receipts@[node]->0)@,
{
    let b = receipts_said(before.receipts@);
    let a = receipts_said(after.receipts@);
    let d = dealt_receipts(dealt, node, dealt.len());
    assert(a == b + d);
    assert(a.len() == after.receipts@.len() && b.len() == before.receipts@.len());
    let place = before.receipts@.len() + at;
    assert(a[place as int] == d[at]);
    assert(a[place as int] == receipt_said(after.receipts@[place as int]));
}

proof fn disputed_is_within<V: Fn(&VerifyingKey, &Vec<u8>, &Signature) -> bool>(
    node: ComputingNode,
    dealer: Seq<char>,
    key: VerifyingKey,
    claimed: Seq<i128>,
    verify: V,
    count: nat,
    found: Seq<usize>,
    at: int,
)
    requires
        disputed(node, dealer, key, claimed, verify, count, found),
        0 <= at < found.len(),
    ensures
        found[at] < count,
        has_receipt(node, found[at] as int),
        answers(
            verify,
            key,
            dealt_text(dealer, node.index as nat, found[at] as nat, claimed[found[at] as int] as int),
            (node.receipts@[found[at] as int]->0)@,
            false,
        ),
    decreases count,
{
    if count > 0 {
        let less = (count - 1) as nat;
        if has_receipt(node, count - 1) && found.len() > 0 && found.last() == count - 1 && disputed(
            node,
            dealer,
            key,
            claimed,
            verify,
            less,
            found.drop_last(),
        ) && disowned(node, dealer, key, claimed, verify, count - 1, true) {
            if at < found.len() - 1 {
                disputed_is_within(node, dealer, key, claimed, verify, less, found.drop_last(), at);
            }
        } else {
            disputed_is_within(node, dealer, key, claimed, verify, less, found, at);
        }
    }
}

proof fn unreceipted_is_within(node: ComputingNode, count: nat, at: int)
    requires
        0 <= at < unreceipted(node, count).len(),
    ensures
        0 <= unreceipted(node, count)[at] < count,
        !has_receipt(node, unreceipted(node, count)[at]),
    decreases count,
{
    if count > 0 {
        let less = (count - 1) as nat;
        if has_receipt(node, count - 1) || at < unreceipted(node, less).len() {
            unreceipted_is_within(node, less, at);
        }
    }
}

/// An audit names only positions whose share has no receipt, or one that the dealer's key did
/// not sign for that node, position and value.
pub proof fn audit_names_only_what_is_wrong<V: Fn(&VerifyingKey, &Vec<u8>, &Signature) -> bool>(
    node: ComputingNode,
    dealer: Seq<char>,
    key: VerifyingKey,
    claimed: Seq<i128>,
    verify: V,
    positions: Seq<usize>,
    at: int,
)
    requires
        audited(node, dealer, key, claimed, verify, positions),
        0 <= at < positions.len(),
    ensures
        positions[at] < claimed.len(),
        ({
            let position = positions[at] as int;
            has_receipt(node, position) ==> answers(
                verify,
                key,
                dealt_text(dealer, node.index as nat, position as nat, claimed[position] as int),
                (node.receipts@[position]->0)@,
                false,
            )
        }),
{
    let bad = choose|bad: Seq<usize>| #[trigger]
        disputed(node, dealer, key, claimed, verify, claimed.len(), bad) && positions.map_values(|p: usize| p as int)
            == bad.map_values(|p: usize| p as int) + unreceipted(node, claimed.len());
    let all = positions.map_values(|p: usize| p as int);
    assert(all[at] == positions[at]);
    assert(all.len() == positions.len());
    assert(bad.map_values(|p: usize| p as int).len() == bad.len());
    if at < bad.len() {
        assert(bad.map_values(|p: usize| p as int)[at] == bad[at]);
        disputed_is_within(node, dealer, key, claimed, verify, claimed.len(), bad, at);
    } else {
        assert(all[at] == unreceipted(node, claimed.len())[at - bad.len()]);
        unreceipted_is_within(node, claimed.len(), at - bad.len());
    }
}

/// An audit names every position without a receipt.
pub proof fn audit_names_what_has_no_receipt(node: ComputingNode, count: nat, position: int)
    requires
        0 <= position < count,
        !has_receipt(node, position),
    ensures
        unreceipted(node, count).contains(position),
    decreases count,
{
    if position < count - 1 {
        audit_names_what_has_no_receipt(node, (count - 1) as nat, position);
        let less = unreceipted(node, (count - 1) as nat);
        let i = choose|i: int| 0 <= i < less.len() && less[i] == position;
        assert(unreceipted(node, count)[i] == position);
    } else {
        let less = unreceipted(node, (count - 1) as nat);
        assert(unreceipted(node, count)[less.len() as int] == position);
    }
}

/// An audit names every position whose receipt the verifier refuses.
pub proof fn audit_names_what_is_disowned<V: Fn(&VerifyingKey, &Vec<u8>, &Signature) -> bool>(
    node: ComputingNode,
    dealer: Seq<char>,
    key: VerifyingKey,
    claimed: Seq<i128>,
    verify: V,
    count: nat,
    found: Seq<usize>,
    position: usize,
)
    requires
        disputed(node, dealer, key, claimed, verify, count, found),
        position < count,
        has_receipt(node, position as int),
        !answers(
            verify,
            key,
            dealt_text(dealer, node.index as nat, position as nat, claimed[position as int] as int),
            (node.receipts@[position as int]->0)@,
            true,
        ),
    ensures
        found.contains(position),
    decreases count,
{
    let less = (count - 1) as nat;
    if position == count - 1 {
        assert(found[found.len() - 1] == position);
    } else if has_receipt(node, count - 1) && found.len() > 0 && found.last() == count - 1 && disputed(
        node,
        dealer,
        key,
        claimed,
        verify,
        less,
        found.drop_last(),
    ) {
        audit_names_what_is_disowned(node, dealer, key, claimed, verify, less, found.drop_last(), position);
        let i = choose|i: int| 0 <= i < found.drop_last().len() && found.drop_last()[i] == position;
        assert(found[i] == position);
    } else {
        audit_names_what_is_disowned(node, dealer, key, claimed, verify, less, found, position);
    }
}

} // verus!
