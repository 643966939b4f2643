//! What holds of a planned circuit and of the reading of a run's log.

use vstd::prelude::*;
use crate::bytes::text_bytes;
use crate::json::Json;
use crate::numbers::{behind, lines_of, named_number, signed_number, trimmed_end, trimmed_start};
use crate::resident_circuit::{
    bits_counted, first_step, greatest, host_lines, integer_in, logged, mask_of, packed_unpacks, plan_refusal,
    port_for, reference_prices, run_fits, run_verdict, steps_in, tells, unpacked, unpacked_packs, CircuitPlan,
};
use crate::resident_quote::{table_said, Mode, Request};
use crate::text::decimal;

verus! {

/// Whether a key packs a cost and a maker.
pub open spec fn packs(key: int, cost: int, maker: int, padded: int) -> bool {
    &&& key == cost * padded + maker
    &&& 0 <= maker
    &&& maker < padded || maker < -padded
}

proof fn unpacks_exactly(key: int, cost: int, maker: int, padded: int)
    requires
        padded != 0,
    ensures
        unpacked(key, padded) == (cost, maker) <==> packs(key, cost, maker, padded),
{
    unpacked_packs(key, padded);
    if packs(key, cost, maker, padded) {
        if padded > 0 {
            packed_unpacks(cost, maker, padded);
        } else {
            let u = unpacked(key, padded);
            assert(u.0 * padded + u.1 == cost * padded + maker);
            assert(u.0 == cost && u.1 == maker) by (nonlinear_arith)
                requires
                    u.0 * padded + u.1 == cost * padded + maker,
                    0 <= u.1 < -padded,
                    0 <= maker < -padded,
                    padded < 0,
            ;
        }
    }
}

/// A run of one quote agrees with its reference exactly if the number that was logged is
/// the mask and the packed cost and maker of the reference.
pub proof fn quote_agrees_exactly(log: Seq<char>, reference: Json, r: Result<(bool, String), String>)
    requires
        run_fits(Mode::Rfq, log, reference),
        tells(r, run_verdict(Mode::Rfq, log, reference)),
    ensures
        r matches Ok(told) ==> (told.0 <==> {
            let padded = integer_in(reference, "padded_mm"@);
            let key = logged(log, "QOMM_MASKED_KEY="@);
            let cost = integer_in(reference, "best_cost"@);
            let maker = integer_in(reference, "best_mm"@);
            &&& padded is Some && key is Some && cost is Some && maker is Some
            &&& packs(key->0 - mask_of(reference), cost->0, maker->0, padded->0)
        }),
        r is Err <==> {
            ||| integer_in(reference, "padded_mm"@) is None
            ||| logged(log, "QOMM_MASKED_KEY="@) is Some && (integer_in(reference, "best_cost"@) is None || integer_in(
                reference,
                "best_mm"@,
            ) is None)
        },
{
    if r is Ok && logged(log, "QOMM_MASKED_KEY="@) is Some {
        unpacks_exactly(
            logged(log, "QOMM_MASKED_KEY="@)->0 - mask_of(reference),
            integer_in(reference, "best_cost"@)->0,
            integer_in(reference, "best_mm"@)->0,
            integer_in(reference, "padded_mm"@)->0,
        );
    }
}

/// A two-sided run agrees with its reference exactly if both logged numbers are those of
/// the reference: the ask with its maker, and the bid, which is packed with its sign
/// turned, with its own.
pub proof fn both_sides_agree_exactly(log: Seq<char>, reference: Json, r: Result<(bool, String), String>)
    requires
        run_fits(Mode::Rfm, log, reference),
        tells(r, run_verdict(Mode::Rfm, log, reference)),
    ensures
        r matches Ok(told) ==> (told.0 <==> {
            let padded = integer_in(reference, "padded_mm"@);
            let ask = logged(log, "QOMM_MASKED_ASK="@);
            let bid = logged(log, "QOMM_MASKED_BID="@);
            let best_ask = integer_in(reference, "best_ask"@);
            let ask_maker = integer_in(reference, "best_ask_mm"@);
            let best_bid = integer_in(reference, "best_bid"@);
            let bid_maker = integer_in(reference, "best_bid_mm"@);
            &&& padded is Some && ask is Some && bid is Some
            &&& best_ask is Some && ask_maker is Some && best_bid is Some && bid_maker is Some
            &&& packs(ask->0 - mask_of(reference), best_ask->0, ask_maker->0, padded->0)
            &&& packs(bid->0 - mask_of(reference), -best_bid->0, bid_maker->0, padded->0)
        }),
        r is Err <==> {
            ||| integer_in(reference, "padded_mm"@) is None
            ||| logged(log, "QOMM_MASKED_ASK="@) is Some && logged(log, "QOMM_MASKED_BID="@) is Some && (integer_in(
                reference,
                "best_ask"@,
            ) is None || integer_in(reference, "best_ask_mm"@) is None || integer_in(reference, "best_bid"@) is None
                || integer_in(reference, "best_bid_mm"@) is None)
        },
{
    let ask = logged(log, "QOMM_MASKED_ASK="@);
    let bid = logged(log, "QOMM_MASKED_BID="@);
    if r is Ok && ask is Some && bid is Some {
        let padded = integer_in(reference, "padded_mm"@)->0;
        unpacks_exactly(
            ask->0 - mask_of(reference),
            integer_in(reference, "best_ask"@)->0,
            integer_in(reference, "best_ask_mm"@)->0,
            padded,
        );
        unpacks_exactly(
            bid->0 - mask_of(reference),
            -integer_in(reference, "best_bid"@)->0,
            integer_in(reference, "best_bid_mm"@)->0,
            padded,
        );
    }
}

/// A two-sided run that agrees has logged the numbers of its reference: the mask and the
/// ask, the mask and the bid. A run that differs on either side does not agree.
pub proof fn agreeing_sides_are_those_of_the_reference(
    log: Seq<char>,
    reference: Json,
    detail: String,
    ask: int,
    bid: int,
    padded: int,
    best_ask: int,
    ask_maker: int,
    best_bid: int,
    bid_maker: int,
)
    requires
        run_fits(Mode::Rfm, log, reference),
        tells(Ok((true, detail)), run_verdict(Mode::Rfm, log, reference)),
        logged(log, "QOMM_MASKED_ASK="@) == Some(ask),
        logged(log, "QOMM_MASKED_BID="@) == Some(bid),
        integer_in(reference, "padded_mm"@) == Some(padded),
        integer_in(reference, "best_ask"@) == Some(best_ask),
        integer_in(reference, "best_ask_mm"@) == Some(ask_maker),
        integer_in(reference, "best_bid"@) == Some(best_bid),
        integer_in(reference, "best_bid_mm"@) == Some(bid_maker),
    ensures
        ask == mask_of(reference) + best_ask * padded + ask_maker,
        bid == mask_of(reference) - best_bid * padded + bid_maker,
{
    both_sides_agree_exactly(log, reference, Ok((true, detail)));
    assert((-best_bid) * padded == -(best_bid * padded)) by (nonlinear_arith);
}

/// A run that streams prices agrees with its reference exactly if the key of its first
/// step packs the cost and the maker of the reference, without a mask.
pub proof fn stream_agrees_exactly(log: Seq<char>, reference: Json, r: Result<(bool, String), String>)
    requires
        run_fits(Mode::Rfs, log, reference),
        tells(r, run_verdict(Mode::Rfs, log, reference)),
    ensures
        r matches Ok(told) ==> (told.0 <==> {
            let padded = integer_in(reference, "padded_mm"@);
            let steps = steps_in(lines_of(text_bytes(log)));
            let cost = integer_in(reference, "best_cost"@);
            let maker = integer_in(reference, "best_mm"@);
            &&& padded is Some && cost is Some && maker is Some
            &&& steps.len() > 0
            &&& packs(first_step(steps).1, cost->0, maker->0, padded->0)
        }),
        r is Err <==> {
            ||| integer_in(reference, "padded_mm"@) is None
            ||| steps_in(lines_of(text_bytes(log))).len() > 0 && (integer_in(reference, "best_cost"@) is None
                || integer_in(reference, "best_mm"@) is None)
        },
{
    let steps = steps_in(lines_of(text_bytes(log)));
    if r is Ok && steps.len() > 0 {
        unpacks_exactly(
            first_step(steps).1,
            integer_in(reference, "best_cost"@)->0,
            integer_in(reference, "best_mm"@)->0,
            integer_in(reference, "padded_mm"@)->0,
        );
    }
}

/// The first step of a stream has the least number of all, and is the first in the log
/// with that number.
pub proof fn first_step_is_least(steps: Seq<(nat, int)>)
    requires
        steps.len() > 0,
    ensures
        exists|i: int|
            0 <= i < steps.len() && #[trigger] steps[i] == first_step(steps) && (forall|j: int|
                0 <= j < i ==> (#[trigger] steps[j]).0 > steps[i].0),
        forall|j: int| 0 <= j < steps.len() ==> (#[trigger] steps[j]).0 >= first_step(steps).0,
    decreases steps.len(),
{
    if steps.len() > 1 {
        let rest = steps.drop_last();
        first_step_is_least(rest);
        let i = choose|i: int|
            0 <= i < rest.len() && #[trigger] rest[i] == first_step(rest) && (forall|j: int|
                0 <= j < i ==> (#[trigger] rest[j]).0 > rest[i].0);
        assert forall|j: int| 0 <= j < steps.len() implies (#[trigger] steps[j]).0 >= first_step(steps).0 by {
            if j < rest.len() {
                assert(rest[j].0 >= first_step(rest).0);
            }
        }
        if steps.last().0 < first_step(rest).0 {
            let last = steps.len() - 1;
            assert forall|j: int| 0 <= j < last implies (#[trigger] steps[j]).0 > steps[last].0 by {
                assert(rest[j].0 >= first_step(rest).0);
            }
            assert(steps[last] == first_step(steps));
        } else {
            assert(steps[i] == first_step(steps));
            assert forall|j: int| 0 <= j < i implies (#[trigger] steps[j]).0 > steps[i].0 by {
                assert(rest[j].0 > rest[i].0);
            }
        }
    } else {
        assert(steps[0] == first_step(steps));
    }
}

/// A named number of a log is the one of the first line that starts with the name and
/// writes a number behind it, white space aside.
pub proof fn named_number_is_the_first(lines: Seq<Seq<u8>>, name: Seq<u8>, at: int)
    requires
        0 <= at < lines.len(),
        behind(lines[at], name) is Some,
        signed_number(trimmed_end(trimmed_start(behind(lines[at], name)->0))) is Some,
        forall|i: int|
            0 <= i < at ==> behind(#[trigger] lines[i], name) is None || signed_number(
                trimmed_end(trimmed_start(behind(lines[i], name)->0)),
            ) is None,
    ensures
        named_number(lines, name) == signed_number(trimmed_end(trimmed_start(lines[at].skip(name.len() as int)))),
    decreases at,
{
    if at > 0 {
        let rest = lines.skip(1);
        assert(rest[at - 1] == lines[at]);
        assert forall|i: int| 0 <= i < at - 1 implies behind(#[trigger] rest[i], name) is None || signed_number(
            trimmed_end(trimmed_start(behind(rest[i], name)->0)),
        ) is None by {
            assert(rest[i] == lines[i + 1]);
        }
        named_number_is_the_first(rest, name, at - 1);
        assert(behind(lines[0], name) is None || signed_number(
            trimmed_end(trimmed_start(behind(lines[0], name)->0)),
        ) is None);
    }
}

/// The greatest price is one of the prices, and none is above it.
pub proof fn greatest_is_a_bound(values: Seq<int>)
    requires
        values.len() > 0,
    ensures
        values.contains(greatest(values)),
        forall|i: int| 0 <= i < values.len() ==> #[trigger] values[i] <= greatest(values),
    decreases values.len(),
{
    if values.len() > 1 {
        let rest = values.drop_last();
        greatest_is_a_bound(rest);
        let i = choose|i: int| 0 <= i < rest.len() && rest[i] == greatest(rest);
        assert(values[i] == greatest(rest));
        assert(values[values.len() - 1] == values.last());
        assert forall|i: int| 0 <= i < values.len() implies #[trigger] values[i] <= greatest(values) by {
            if i < rest.len() {
                assert(rest[i] == values[i]);
            }
        }
    } else {
        assert(values[0] == greatest(values));
    }
}

/// A planned circuit has a price for every asset, the greatest of them as its bound, an
/// asset for every maker, and the largest threshold that is below half of its parties.
pub proof fn planned_circuit_serves_its_request(
    plan: CircuitPlan,
    request: Request,
    padded: usize,
    ref_mid: int,
)
    requires
        plan_refusal(request, Ok(padded), ref_mid) is None,
        plan.planned(request, padded as nat, ref_mid),
    ensures
        plan.padded == padded,
        request.user_asset < request.n_assets,
        plan.ref_table@.len() == request.n_assets,
        request.ref_table is None ==> forall|i: int|
            0 <= i < plan.ref_table@.len() ==> #[trigger] plan.ref_table@[i] == ref_mid + 5000 * i,
        request.ref_table matches Some(table) ==> forall|i: int|
            0 <= i < table@.len() ==> #[trigger] plan.ref_table@[i] == table@[i],
        plan.ref_table@.contains(plan.max_ref),
        forall|i: int| 0 <= i < plan.ref_table@.len() ==> #[trigger] plan.ref_table@[i] <= plan.max_ref,
        plan.maker_assets@.len() == padded,
        forall|i: int| 0 <= i < plan.maker_assets@.len() ==> #[trigger] plan.maker_assets@[i] < request.n_assets,
        forall|i: int|
            0 <= i < plan.maker_assets@.len() && i < request.n_assets ==> #[trigger] plan.maker_assets@[i] == i,
        forall|i: int|
            request.n_assets <= i < plan.maker_assets@.len() ==> #[trigger] plan.maker_assets@[i]
                == plan.maker_assets@[i - request.n_assets as int],
        request.argmin_arity > 0 ==> plan.argmin_arity == request.argmin_arity,
        request.argmin_arity == 0 ==> plan.argmin_arity == padded,
        request.n_parties > 0 ==> 2 * plan.shamir_threshold < request.n_parties <= 2 * plan.shamir_threshold + 2,
        request.n_parties == 0 ==> plan.shamir_threshold == 0,
{
    let prices = reference_prices(request, ref_mid);
    let table = table_said(Some(plan.ref_table))->0;
    assert(table == prices);
    assert(plan.ref_table@.len() == table.len());
    greatest_is_a_bound(prices);
    assert forall|i: int| 0 <= i < plan.ref_table@.len() implies #[trigger] plan.ref_table@[i] == prices[i] by {
        assert(table[i] == plan.ref_table@[i]);
    }
    let i = choose|i: int| 0 <= i < prices.len() && prices[i] == greatest(prices);
    assert(plan.ref_table@[i] == plan.max_ref);
    let n = request.n_assets as int;
    assert forall|i: int| 0 <= i < plan.maker_assets@.len() implies #[trigger] plan.maker_assets@[i] < n && (i < n
        ==> plan.maker_assets@[i] == i) by {
        assert(plan.maker_assets@[i] == i % n);
        vstd::arithmetic::div_mod::lemma_mod_bound(i, n);
        if i < n {
            vstd::arithmetic::div_mod::lemma_small_mod(i as nat, n as nat);
        }
    }
    assert forall|i: int| n <= i < plan.maker_assets@.len() implies #[trigger] plan.maker_assets@[i]
        == plan.maker_assets@[i - n] by {
        vstd::arithmetic::div_mod::lemma_mod_sub_multiples_vanish(i, n);
    }
}

/// A circuit is planned exactly where there is a padding, an asset, a known asset of the
/// user and a price for each asset.
pub proof fn circuit_is_planned_exactly(request: Request, padded: Result<usize, String>, ref_mid: int)
    ensures
        plan_refusal(request, padded, ref_mid) is None <==> {
            &&& padded is Ok
            &&& request.n_assets > 0
            &&& request.user_asset < request.n_assets
            &&& request.ref_table matches Some(table) ==> table@.len() == request.n_assets
        },
{
}

/// Without a delay a party reaches every other at its own port. With one, no two links
/// share a port, and only its own link goes to a party directly.
pub proof fn links_have_ports_of_their_own(
    source: int,
    target: int,
    other_source: int,
    other_target: int,
    n: int,
    actual_base: int,
    proxy_base: int,
)
    requires
        0 <= source < n,
        0 <= target < n,
        0 <= other_source < n,
        0 <= other_target < n,
    ensures
        port_for(source, target, n, actual_base, proxy_base, false) == actual_base + target,
        port_for(source, source, n, actual_base, proxy_base, true) == actual_base + source,
        source != target ==> proxy_base <= port_for(source, target, n, actual_base, proxy_base, true) < proxy_base + n
            * n,
        source != target && other_source != other_target && (source != other_source || target != other_target)
            ==> port_for(source, target, n, actual_base, proxy_base, true) != port_for(
            other_source,
            other_target,
            n,
            actual_base,
            proxy_base,
            true,
        ),
{
    assert(source * n + target < n * n && source * n >= 0) by (nonlinear_arith)
        requires
            0 <= source < n,
            0 <= target < n,
    ;
    if source * n + target == other_source * n + other_target {
        assert(source == other_source) by (nonlinear_arith)
            requires
                source * n + target == other_source * n + other_target,
                0 <= target < n,
                0 <= other_target < n,
        ;
    }
}

/// A party's hosts are one line for each party, in their order, each on this machine and
/// at the port of its own link.
pub proof fn hosts_are_listed_in_order(
    source: int,
    count: nat,
    n: int,
    actual_base: int,
    proxy_base: int,
    delayed: bool,
)
    ensures
        host_lines(source, 0, n, actual_base, proxy_base, delayed).len() == 0,
        count > 0 ==> host_lines(source, count, n, actual_base, proxy_base, delayed) == host_lines(
            source,
            (count - 1) as nat,
            n,
            actual_base,
            proxy_base,
            delayed,
        ) + ("127.0.0.1:"@ + decimal(port_for(source, count - 1, n, actual_base, proxy_base, delayed) as nat) + "\n"@),
{
    reveal_strlit("");
}

/// Values are one bit wider than the request asks for, exactly where that is a width and
/// the policies that are given are enough for its makers.
pub proof fn values_are_one_bit_wider(
    request: Request,
    policies: Option<Result<usize, String>>,
    r: Result<u32, String>,
)
    requires
        bits_counted(request, policies, r),
    ensures
        r is Ok <==> {
            &&& policies matches Some(found) ==> found is Ok && found->Ok_0 >= request.n_mm
            &&& request.bit_length + 1 <= 0xffff_ffff
        },
        r matches Ok(bits) ==> bits == request.bit_length + 1,
{
}

} // verus!
