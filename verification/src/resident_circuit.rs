//! The circuit of a request, and what the log of a run says of its result.

use vstd::prelude::*;
use crate::bytes::text_bytes;
use crate::fields::{either, unless};
use crate::json::{Json, Value};
use crate::numbers::{
    behind, found_at, lines_of, named_integer, named_number, parse_signed, parse_unsigned, signed_decimal,
    signed_number, signed_text, split_lines, split_once, strip_prefix, texts_of, unsigned_number,
};
use crate::resident_quote::{json_i128, table_said, wide_in, Mode, Request};
use crate::text::{about, decimal, decimal_text};

verus! {

/// The parts of a circuit that a request and its padding decide.
#[derive(Debug)]
pub struct CircuitPlan {
    pub padded: usize,
    pub ref_table: Vec<i128>,
    pub max_ref: i128,
    pub maker_assets: Vec<usize>,
    pub argmin_arity: usize,
    pub shamir_threshold: usize,
}

/// The text of a complaint, where there is one.
pub open spec fn complaint<T>(outcome: Result<T, String>) -> Option<Seq<char>> {
    match outcome {
        Ok(_) => None,
        Err(e) => Some(e@),
    }
}

/// The reference prices of a circuit: those of the request, or five thousand
/// apart from the middle price on.
pub open spec fn reference_prices(request: Request, ref_mid: int) -> Seq<int> {
    match table_said(request.ref_table) {
        Some(table) => table,
        None => Seq::new(request.n_assets as nat, |asset: int| ref_mid + 5000 * asset),
    }
}

/// The greatest of some numbers.
pub open spec fn greatest(values: Seq<int>) -> int
    decreases values.len(),
{
    if values.len() <= 1 {
        values[0]
    } else if values.last() > greatest(values.drop_last()) {
        values.last()
    } else {
        greatest(values.drop_last())
    }
}

/// Why no circuit is planned for a request.
pub open spec fn plan_refusal(request: Request, padded: Result<usize, String>, ref_mid: int) -> Option<Seq<char>> {
    either(
        complaint(padded),
        either(
            unless(request.n_assets > 0, "n_assets must be positive"@),
            either(
                unless(request.user_asset < request.n_assets, "user_asset must be below n_assets"@),
                unless(
                    reference_prices(request, ref_mid).len() == request.n_assets,
                    "ref_table has "@ + decimal(reference_prices(request, ref_mid).len()) + " entries for "@ + decimal(
                        request.n_assets as nat,
                    ) + " assets"@,
                ),
            ),
        ),
    )
}

impl CircuitPlan {
    /// Whether the plan is that of a request: the makers go round the assets, and
    /// an arity of zero stands for one round over all the makers.
    pub open spec fn planned(self, request: Request, padded: nat, ref_mid: int) -> bool {
        &&& self.padded == padded
        &&& table_said(Some(self.ref_table)) == Some(reference_prices(request, ref_mid))
        &&& self.max_ref == greatest(reference_prices(request, ref_mid))
        &&& self.maker_assets@.len() == padded
        &&& forall|i: int| 0 <= i < padded ==> #[trigger] self.maker_assets@[i] == i % (request.n_assets as int)
        &&& self.argmin_arity == if request.argmin_arity == 0 {
            padded
        } else {
            request.argmin_arity as nat
        }
        &&& self.shamir_threshold == if request.n_parties == 0 {
            0
        } else {
            (request.n_parties - 1) / 2
        }
    }
}

fn prices_of(request: &Request, ref_mid: i128) -> (prices: Vec<i128>)
    requires
        i128::MIN <= ref_mid <= i128::MAX - 5000 * 0xffff_ffff_ffff_ffff,
    ensures
        table_said(Some(prices)) == Some(reference_prices(*request, ref_mid as int)),
{
    let mut prices: Vec<i128> = Vec::new();
    match &request.ref_table {
        Some(table) => {
            let mut i: usize = 0;
            while i < table.len()
                invariant
                    i <= table@.len(),
                    prices@ == table@.take(i as int),
                decreases table@.len() - i,
            {
                prices.push(table[i]);
                i = i + 1;
                assert(prices@ =~= table@.take(i as int));
            }
            assert(prices@ =~= table@);
        },
        None => {
            let mut asset: usize = 0;
            while asset < request.n_assets
                invariant
                    asset <= request.n_assets,
                    prices@.len() == asset,
                    i128::MIN <= ref_mid <= i128::MAX - 5000 * 0xffff_ffff_ffff_ffff,
                    forall|j: int| 0 <= j < asset ==> #[trigger] prices@[j] == ref_mid + 5000 * j,
                decreases request.n_assets - asset,
            {
                prices.push(ref_mid + 5000 * asset as i128);
                asset = asset + 1;
            }
        },
    }
    assert(table_said(Some(prices))->0 =~= reference_prices(*request, ref_mid as int));
    prices
}

fn greatest_of(values: &Vec<i128>) -> (r: i128)
    requires
        values@.len() > 0,
    ensures
        r == greatest(table_said(Some(*values))->0),
{
    let ghost all = table_said(Some(*values))->0;
    let mut best: i128 = values[0];
    let mut i: usize = 1;
    assert(best == greatest(all.take(1)));
    while i < values.len()
        invariant
            1 <= i <= values@.len(),
            all == table_said(Some(*values))->0,
            best == greatest(all.take(i as int)),
        decreases values@.len() - i,
    {
        let value: i128 = values[i];
        assert(all.take(i + 1).drop_last() =~= all.take(i as int));
        assert(all.take(i + 1).last() == value);
        if value > best {
            best = value;
        }
        i = i + 1;
    }
    assert(all.take(i as int) =~= all);
    best
}

/// Plans the circuit of a request. `padded` is its number of makers, padded to a
/// power of two, or why there is none.
pub fn plan_circuit(request: &Request, padded: Result<usize, String>, ref_mid: i128) -> (r: Result<CircuitPlan, String>)
    requires
        ref_mid <= i128::MAX - 5000 * 0xffff_ffff_ffff_ffff,
    ensures
        match r {
            Ok(plan) => {
                &&& plan_refusal(*request, padded, ref_mid as int) is None
                &&& plan.planned(*request, padded->Ok_0 as nat, ref_mid as int)
            },
            Err(e) => plan_refusal(*request, padded, ref_mid as int) == Some(e@),
        },
{
    let padded = match padded {
        Err(e) => {
            return Err(e);
        },
        Ok(padded) => padded,
    };
    if request.n_assets == 0 {
        return Err("n_assets must be positive".to_owned());
    }
    if request.user_asset >= request.n_assets {
        return Err("user_asset must be below n_assets".to_owned());
    }
    let ref_table = prices_of(request, ref_mid);
    assert(ref_table@.len() == reference_prices(*request, ref_mid as int).len());
    if ref_table.len() != request.n_assets {
        return Err(
            about("ref_table has ", decimal_text(ref_table.len() as u64).as_str()).concat(" entries for ").concat(
                decimal_text(request.n_assets as u64).as_str(),
            ).concat(" assets"),
        );
    }
    let max_ref: i128 = greatest_of(&ref_table);
    let mut maker_assets: Vec<usize> = Vec::new();
    let mut maker: usize = 0;
    while maker < padded
        invariant
            maker <= padded,
            request.n_assets > 0,
            maker_assets@.len() == maker,
            forall|i: int| 0 <= i < maker ==> #[trigger] maker_assets@[i] == i % (request.n_assets as int),
        decreases padded - maker,
    {
        maker_assets.push(maker % request.n_assets);
        maker = maker + 1;
    }
    let argmin_arity: usize = if request.argmin_arity == 0 {
        padded
    } else {
        request.argmin_arity
    };
    let shamir_threshold: usize = if request.n_parties == 0 {
        0
    } else {
        (request.n_parties - 1) / 2
    };
    Ok(CircuitPlan { padded, ref_table, max_ref, maker_assets, argmin_arity, shamir_threshold })
}

/// What the width of a request's values is: one bit more than it asks for, where its
/// policies are enough for its makers.
pub open spec fn bits_counted(
    request: Request,
    policies: Option<Result<usize, String>>,
    r: Result<u32, String>,
) -> bool {
    let refusal = either(
        match policies {
            None => None,
            Some(outcome) => either(
                complaint(outcome),
                unless(
                    outcome->Ok_0 >= request.n_mm,
                    "policies has fewer than "@ + decimal(request.n_mm as nat) + " entries"@,
                ),
            ),
        },
        unless(request.bit_length < u32::MAX, "value bit width overflow"@),
    );
    match r {
        Ok(bits) => refusal is None && bits == request.bit_length + 1,
        Err(e) => refusal == Some(e@),
    }
}

/// The width of a value: one bit more than a price has. Fewer policies than a
/// request has makers are refused. `policies` is how many policies the request brings, where it brings
/// any, or why they cannot be read.
pub fn value_bits(request: &Request, policies: Option<Result<usize, String>>) -> (r: Result<u32, String>)
    ensures
        bits_counted(*request, policies, r),
{
    match policies {
        None => {},
        Some(Err(e)) => {
            return Err(e);
        },
        Some(Ok(count)) => {
            if count < request.n_mm {
                return Err(
                    about("policies has fewer than ", decimal_text(request.n_mm as u64).as_str()).concat(" entries"),
                );
            }
        },
    }
    if request.bit_length == u32::MAX {
        return Err("value bit width overflow".to_owned());
    }
    Ok(request.bit_length + 1)
}

/// Whether a key can be taken apart in a hundred and twenty-eight bits.
pub open spec fn unpacks(key: int, padded: int) -> bool {
    &&& padded != 0
    &&& i128::MIN <= key <= i128::MAX
    &&& key - key % padded >= i128::MIN
    &&& (key - key % padded) / padded <= i128::MAX
}

/// The cost and the maker that a key packs.
pub open spec fn unpacked(key: int, padded: int) -> (int, int) {
    ((key - key % padded) / padded, key % padded)
}

/// The cost and the maker of a key pack to it again, and the maker is one of the
/// padded makers.
pub proof fn unpacked_packs(key: int, padded: int)
    requires
        padded != 0,
    ensures
        unpacked(key, padded).0 * padded + unpacked(key, padded).1 == key,
        0 <= unpacked(key, padded).1 < vstd::math::abs(padded),
{
    let quotient = key / padded;
    let index = key % padded;
    assert(key == padded * quotient + index) by (nonlinear_arith)
        requires
            padded != 0,
            quotient == key / padded,
            index == key % padded,
    ;
    assert(0 <= index && (padded > 0 ==> index < padded) && (padded < 0 ==> index < -padded)) by (nonlinear_arith)
        requires
            padded != 0,
            index == key % padded,
    ;
    assert((padded * quotient) / padded == quotient) by (nonlinear_arith)
        requires
            padded != 0,
    ;
    assert(padded * quotient == quotient * padded) by (nonlinear_arith);
}

/// A cost and a maker among the padded makers are what their key unpacks to.
pub proof fn packed_unpacks(cost: int, maker: int, padded: int)
    requires
        0 <= maker < padded,
    ensures
        unpacked(cost * padded + maker, padded) == (cost, maker),
{
    vstd::arithmetic::div_mod::lemma_fundamental_div_mod_converse(cost * padded + maker, padded, cost, maker);
    assert((cost * padded) / padded == cost) by (nonlinear_arith)
        requires
            padded > 0,
    ;
}

/// Takes a key apart into a cost and a maker.
pub fn unpack_key(key: i128, padded: i128) -> (r: (i128, i128))
    requires
        unpacks(key as int, padded as int),
    ensures
        r.0 == unpacked(key as int, padded as int).0,
        r.1 == unpacked(key as int, padded as int).1,
{
    let size: u128 = magnitude(padded);
    let whole: u128 = magnitude(key);
    let below: u128 = whole % size;
    let times: u128 = whole / size;
    proof {
        unpacked_packs(key as int, padded as int);
        let k = key as int;
        let p = padded as int;
        let s = size as int;
        let t = times as int;
        let b = below as int;
        assert(whole as int == s * t + b) by (nonlinear_arith)
            requires
                s == size as int,
                t == times as int,
                b == below as int,
                times == whole / size,
                below == whole % size,
                size > 0,
        ;
        let q = unpacked(k, p).0;
        let m = unpacked(k, p).1;
        // The quotient by the size, with a remainder that is not negative.
        let floor = if key >= 0 {
            t
        } else if b == 0 {
            -t
        } else {
            -t - 1
        };
        let rest = if key >= 0 {
            b
        } else if b == 0 {
            0
        } else {
            s - b
        };
        assert(k == s * floor + rest) by (nonlinear_arith)
            requires
                key >= 0 ==> k == s * t + b && floor == t && rest == b,
                key < 0 ==> k == -(s * t + b),
                key < 0 && b == 0 ==> floor == -t && rest == 0,
                key < 0 && b != 0 ==> floor == -t - 1 && rest == s - b,
        ;
        let signed = if padded > 0 {
            q
        } else {
            -q
        };
        assert(k == s * signed + m) by (nonlinear_arith)
            requires
                q * p + m == k,
                padded > 0 ==> s == p && signed == q,
                padded < 0 ==> s == -p && signed == -q,
                padded != 0,
        ;
        vstd::arithmetic::div_mod::lemma_fundamental_div_mod_converse(k, s, floor, rest);
        vstd::arithmetic::div_mod::lemma_fundamental_div_mod_converse(k, s, signed, m);
        assert(floor == signed && rest == m);
        assert(t <= whole) by (nonlinear_arith)
            requires
                whole as int == s * t + b,
                s >= 1,
                t >= 0,
                b >= 0,
        ;
    }
    let index: u128 = if key >= 0 || below == 0 {
        below
    } else {
        size - below
    };
    let quotient: i128 = if (key >= 0) == (padded > 0) {
        if key >= 0 || below == 0 {
            from_magnitude(times)
        } else {
            from_magnitude(times + 1)
        }
    } else if key >= 0 || below == 0 {
        minus_magnitude(times)
    } else {
        minus_magnitude(times + 1)
    };
    (quotient, index as i128)
}

fn magnitude(value: i128) -> (r: u128)
    ensures
        r == if value < 0 {
            -value
        } else {
            value as int
        },
{
    if value < 0 {
        (-(value + 1)) as u128 + 1
    } else {
        value as u128
    }
}

fn from_magnitude(value: u128) -> (r: i128)
    requires
        value <= i128::MAX,
    ensures
        r == value,
{
    value as i128
}

fn minus_magnitude(value: u128) -> (r: i128)
    requires
        value <= 0x8000_0000_0000_0000_0000_0000_0000_0000,
    ensures
        r == -value,
{
    if value == 0x8000_0000_0000_0000_0000_0000_0000_0000 {
        i128::MIN
    } else {
        -(value as i128)
    }
}

/// The integer of a member, where it is one.
pub open spec fn integer_in(reference: Json, key: Seq<char>) -> Option<int> {
    wide_in(reference.field(key))
}

/// Why a reference has no integer of a name.
pub open spec fn integer_refusal(reference: Json, key: Seq<char>) -> Option<Seq<char>> {
    unless(integer_in(reference, key) is Some, "reference has no integer "@ + key)
}

fn integer(reference: &Value, key: &str) -> (r: Result<i128, String>)
    ensures
        match r {
            Ok(number) => integer_in(reference@, key@) == Some(number as int),
            Err(e) => integer_refusal(reference@, key@) == Some(e@),
        },
{
    match reference.get(key) {
        None => Err(about("reference has no integer ", key)),
        Some(v) => match json_i128(v) {
            None => Err(about("reference has no integer ", key)),
            Some(number) => Ok(number),
        },
    }
}

/// A pair in parentheses.
pub open spec fn pair_text(pair: (int, int)) -> Seq<char> {
    "("@ + signed_decimal(pair.0) + ", "@ + signed_decimal(pair.1) + ")"@
}

fn write_pair(pair: (i128, i128)) -> (text: String)
    ensures
        text@ == pair_text((pair.0 as int, pair.1 as int)),
{
    about("(", signed_text(pair.0).as_str()).concat(", ").concat(signed_text(pair.1).as_str()).concat(")")
}

/// The step and the key that a line of a price stream writes.
pub open spec fn step_in(line: Seq<u8>) -> Option<(nat, int)> {
    match behind(line, text_bytes("QOMM_RFS_STEP_"@)) {
        None => None,
        Some(rest) => {
            let at = found_at(rest, text_bytes("_KEY="@));
            if at < 0 {
                None
            } else {
                match (
                    unsigned_number(rest.take(at)),
                    signed_number(behind(rest.skip(at), text_bytes("_KEY="@))->0),
                ) {
                    (Some(index), Some(key)) => Some((index, key)),
                    _ => None,
                }
            }
        },
    }
}

/// The steps of a price stream in the order of the log.
pub open spec fn steps_in(lines: Seq<Seq<u8>>) -> Seq<(nat, int)>
    decreases lines.len(),
{
    if lines.len() == 0 {
        Seq::empty()
    } else {
        match step_in(lines.last()) {
            Some(step) => steps_in(lines.drop_last()).push(step),
            None => steps_in(lines.drop_last()),
        }
    }
}

/// The first of the steps with the least number.
pub open spec fn first_step(steps: Seq<(nat, int)>) -> (nat, int)
    decreases steps.len(),
{
    if steps.len() <= 1 {
        steps[0]
    } else if steps.last().0 < first_step(steps.drop_last()).0 {
        steps.last()
    } else {
        first_step(steps.drop_last())
    }
}

fn read_step(line: &[u8]) -> (r: Option<(usize, i128)>)
    ensures
        match r {
            Some((index, key)) => step_in(line@) == Some((index as nat, key as int)),
            None => step_in(line@) is None,
        },
{
    let rest = match strip_prefix(line, "QOMM_RFS_STEP_".as_bytes()) {
        None => {
            return None;
        },
        Some(rest) => rest,
    };
    match split_once(rest.as_slice(), "_KEY=".as_bytes()) {
        None => None,
        Some((index, key)) => match (parse_unsigned(index.as_slice()), parse_signed(key.as_slice())) {
            (Some(index), Some(key)) => Some((index, key)),
            _ => None,
        },
    }
}

/// The number of steps in the log of a price stream, and the first of them.
fn read_steps(log: &str) -> (r: Option<(usize, i128)>)
    ensures
        ({
            let steps = steps_in(lines_of(text_bytes(log@)));
            match r {
                Some((count, key)) => count == steps.len() && count > 0 && key == first_step(steps).1,
                None => steps.len() == 0,
            }
        }),
{
    let lines = split_lines(log.as_bytes());
    let ghost all = texts_of(lines@);
    let mut count: usize = 0;
    let mut least: usize = 0;
    let mut first: i128 = 0;
    let mut i: usize = 0;
    assert(all.take(0) =~= Seq::empty());
    while i < lines.len()
        invariant
            i <= lines@.len(),
            count <= i,
            all == texts_of(lines@),
            count == steps_in(all.take(i as int)).len(),
            count > 0 ==> first_step(steps_in(all.take(i as int))) == (least as nat, first as int),
        decreases lines@.len() - i,
    {
        let ghost before = steps_in(all.take(i as int));
        assert(all.take(i + 1).drop_last() =~= all.take(i as int));
        assert(all.take(i + 1).last() == lines@[i as int]@);
        if let Some((index, key)) = read_step(lines[i].as_slice()) {
            let ghost after = steps_in(all.take(i + 1));
            assert(after.drop_last() =~= before);
            assert(after.last() == (index as nat, key as int));
            if count == 0 || index < least {
                least = index;
                first = key;
            }
            count = count + 1;
        }
        i = i + 1;
    }
    assert(all.take(i as int) =~= all);
    if count == 0 {
        None
    } else {
        Some((count, first))
    }
}

/// The mask of a reference, or zero.
pub open spec fn mask_of(reference: Json) -> int {
    match wide_in(reference.field("mask"@)) {
        Some(mask) => mask,
        None => 0,
    }
}

/// The number behind a name on a line of a log.
pub open spec fn logged(log: Seq<char>, name: Seq<char>) -> Option<int> {
    named_number(lines_of(text_bytes(log)), text_bytes(name))
}

/// Whether a masked key of a log can be taken apart.
pub open spec fn masked_fits(log: Seq<char>, name: Seq<char>, mask: int, padded: int) -> bool {
    logged(log, name) matches Some(masked) ==> unpacks(masked - mask, padded)
}

/// Whether the two sides of a quote can be taken apart and held against a reference.
pub open spec fn sides_fit(log: Seq<char>, reference: Json, mask: int, padded: int) -> bool {
    logged(log, "QOMM_MASKED_ASK="@) is Some && logged(log, "QOMM_MASKED_BID="@) is Some ==> {
        &&& masked_fits(log, "QOMM_MASKED_ASK="@, mask, padded)
        &&& masked_fits(log, "QOMM_MASKED_BID="@, mask, padded)
        &&& two_refusal(reference, "best_ask"@, "best_ask_mm"@) is None && two_refusal(
            reference,
            "best_bid"@,
            "best_bid_mm"@,
        ) is None ==> integer_in(reference, "best_bid"@) != Some(i128::MIN as int)
    }
}

/// Whether the numbers of a run stay within a hundred and twenty-eight bits.
pub open spec fn run_fits(mode: Mode, log: Seq<char>, reference: Json) -> bool {
    integer_in(reference, "padded_mm"@) matches Some(padded) ==> match mode {
        Mode::Rfq => masked_fits(log, "QOMM_MASKED_KEY="@, mask_of(reference), padded),
        Mode::Rfm => sides_fit(log, reference, mask_of(reference), padded),
        Mode::Rfs => {
            let steps = steps_in(lines_of(text_bytes(log)));
            steps.len() > 0 ==> unpacks(first_step(steps).1, padded)
        },
    }
}

/// A reading of a run against its reference: whether they agree, and in words.
pub open spec fn reading(agree: bool, detail: Seq<char>) -> Result<(bool, Seq<char>), Seq<char>> {
    Ok((agree, detail))
}

/// The first complaint of a reference among two names.
pub open spec fn two_refusal(reference: Json, a: Seq<char>, b: Seq<char>) -> Option<Seq<char>> {
    either(integer_refusal(reference, a), integer_refusal(reference, b))
}

/// What a quote of a log says against its reference.
pub open spec fn rfq_verdict(log: Seq<char>, reference: Json, padded: int) -> Result<(bool, Seq<char>), Seq<char>> {
    match logged(log, "QOMM_MASKED_KEY="@) {
        None => reading(false, "no masked quote in log"@),
        Some(masked) => match two_refusal(reference, "best_cost"@, "best_mm"@) {
            Some(e) => Err(e),
            None => {
                let got = unpacked(masked - mask_of(reference), padded);
                let want = (integer_in(reference, "best_cost"@)->0, integer_in(reference, "best_mm"@)->0);
                reading(got == want, "got="@ + pair_text(got) + " want="@ + pair_text(want))
            },
        },
    }
}

/// What a two-sided quote of a log says against its reference.
pub open spec fn rfm_verdict(log: Seq<char>, reference: Json, padded: int) -> Result<(bool, Seq<char>), Seq<char>> {
    match (logged(log, "QOMM_MASKED_ASK="@), logged(log, "QOMM_MASKED_BID="@)) {
        (Some(ask), Some(bid)) => match either(
            two_refusal(reference, "best_ask"@, "best_ask_mm"@),
            two_refusal(reference, "best_bid"@, "best_bid_mm"@),
        ) {
            Some(e) => Err(e),
            None => {
                let ask = unpacked(ask - mask_of(reference), padded);
                let bid = unpacked(bid - mask_of(reference), padded);
                let best_ask = (integer_in(reference, "best_ask"@)->0, integer_in(reference, "best_ask_mm"@)->0);
                let best_bid = (-integer_in(reference, "best_bid"@)->0, integer_in(reference, "best_bid_mm"@)->0);
                reading(
                    ask == best_ask && bid == best_bid,
                    "got=("@ + pair_text(ask) + ", "@ + pair_text(bid) + ") want=("@ + pair_text(best_ask) + ", "@
                        + pair_text(best_bid) + ")"@,
                )
            },
        },
        _ => reading(false, "no two-sided quote in log"@),
    }
}

/// What a price stream of a log says against its reference.
pub open spec fn rfs_verdict(log: Seq<char>, reference: Json, padded: int) -> Result<(bool, Seq<char>), Seq<char>> {
    let steps = steps_in(lines_of(text_bytes(log)));
    if steps.len() == 0 {
        reading(false, "no RFS price series in log"@)
    } else {
        match two_refusal(reference, "best_cost"@, "best_mm"@) {
            Some(e) => Err(e),
            None => {
                let first = unpacked(first_step(steps).1, padded);
                let want = (integer_in(reference, "best_cost"@)->0, integer_in(reference, "best_mm"@)->0);
                reading(
                    first == want,
                    "steps="@ + decimal(steps.len()) + " first="@ + pair_text(first) + " want="@ + pair_text(want),
                )
            },
        }
    }
}

/// What a log says against its reference.
pub open spec fn run_verdict(mode: Mode, log: Seq<char>, reference: Json) -> Result<(bool, Seq<char>), Seq<char>> {
    match integer_in(reference, "padded_mm"@) {
        None => Err("reference has no integer padded_mm"@),
        Some(padded) => match mode {
            Mode::Rfq => rfq_verdict(log, reference, padded),
            Mode::Rfm => rfm_verdict(log, reference, padded),
            Mode::Rfs => rfs_verdict(log, reference, padded),
        },
    }
}

/// Whether an outcome is the one that is wanted.
pub open spec fn tells(outcome: Result<(bool, String), String>, wanted: Result<(bool, Seq<char>), Seq<char>>) -> bool {
    match (outcome, wanted) {
        (Ok((agree, detail)), Ok((wanted_agree, wanted_detail))) => agree == wanted_agree && detail@ == wanted_detail,
        (Err(e), Err(wanted_e)) => e@ == wanted_e,
        _ => false,
    }
}

fn two_integers(reference: &Value, a: &str, b: &str) -> (r: Result<(i128, i128), String>)
    ensures
        match r {
            Ok((x, y)) => {
                &&& two_refusal(reference@, a@, b@) is None
                &&& integer_in(reference@, a@) == Some(x as int)
                &&& integer_in(reference@, b@) == Some(y as int)
            },
            Err(e) => two_refusal(reference@, a@, b@) == Some(e@),
        },
{
    match integer(reference, a) {
        Err(e) => Err(e),
        Ok(x) => match integer(reference, b) {
            Err(e) => Err(e),
            Ok(y) => Ok((x, y)),
        },
    }
}

fn same_pair(a: (i128, i128), b: (i128, i128)) -> (r: bool)
    ensures
        r == (a == b),
{
    a.0 == b.0 && a.1 == b.1
}

fn verify_rfq(log: &str, reference: &Value, mask: i128, padded: i128) -> (r: Result<(bool, String), String>)
    requires
        mask == mask_of(reference@),
        masked_fits(log@, "QOMM_MASKED_KEY="@, mask as int, padded as int),
    ensures
        tells(r, rfq_verdict(log@, reference@, padded as int)),
{
    let masked: i128 = match named_integer(log, "QOMM_MASKED_KEY=") {
        None => {
            return Ok((false, "no masked quote in log".to_owned()));
        },
        Some(masked) => masked,
    };
    let got = unpack_key(masked - mask, padded);
    match two_integers(reference, "best_cost", "best_mm") {
        Err(e) => Err(e),
        Ok(want) => Ok(
            (
                same_pair(got, want),
                about("got=", write_pair(got).as_str()).concat(" want=").concat(write_pair(want).as_str()),
            ),
        ),
    }
}

fn verify_rfm(log: &str, reference: &Value, mask: i128, padded: i128) -> (r: Result<(bool, String), String>)
    requires
        mask == mask_of(reference@),
        sides_fit(log@, reference@, mask as int, padded as int),
    ensures
        tells(r, rfm_verdict(log@, reference@, padded as int)),
{
    let ask: i128 = match named_integer(log, "QOMM_MASKED_ASK=") {
        None => {
            return Ok((false, "no two-sided quote in log".to_owned()));
        },
        Some(ask) => ask,
    };
    let bid: i128 = match named_integer(log, "QOMM_MASKED_BID=") {
        None => {
            return Ok((false, "no two-sided quote in log".to_owned()));
        },
        Some(bid) => bid,
    };
    let got_ask = unpack_key(ask - mask, padded);
    let got_bid = unpack_key(bid - mask, padded);
    let best_ask = match two_integers(reference, "best_ask", "best_ask_mm") {
        Err(e) => {
            return Err(e);
        },
        Ok(pair) => pair,
    };
    let bid_pair = match two_integers(reference, "best_bid", "best_bid_mm") {
        Err(e) => {
            return Err(e);
        },
        Ok(pair) => pair,
    };
    let best_bid = (-bid_pair.0, bid_pair.1);
    Ok(
        (
            same_pair(got_ask, best_ask) && same_pair(got_bid, best_bid),
            about("got=(", write_pair(got_ask).as_str()).concat(", ").concat(write_pair(got_bid).as_str()).concat(
                ") want=(",
            ).concat(write_pair(best_ask).as_str()).concat(", ").concat(write_pair(best_bid).as_str()).concat(")"),
        ),
    )
}

fn verify_rfs(log: &str, reference: &Value, padded: i128) -> (r: Result<(bool, String), String>)
    requires
        ({
            let steps = steps_in(lines_of(text_bytes(log@)));
            steps.len() > 0 ==> unpacks(first_step(steps).1, padded as int)
        }),
    ensures
        tells(r, rfs_verdict(log@, reference@, padded as int)),
{
    let (count, key) = match read_steps(log) {
        None => {
            return Ok((false, "no RFS price series in log".to_owned()));
        },
        Some(found) => found,
    };
    let first = unpack_key(key, padded);
    match two_integers(reference, "best_cost", "best_mm") {
        Err(e) => Err(e),
        Ok(want) => Ok(
            (
                same_pair(first, want),
                about("steps=", decimal_text(count as u64).as_str()).concat(" first=").concat(
                    write_pair(first).as_str(),
                ).concat(" want=").concat(write_pair(want).as_str()),
            ),
        ),
    }
}

/// Whether a key can be taken apart in a hundred and twenty-eight bits.
fn key_fits(key: i128, padded: i128) -> (r: bool)
    ensures
        r == unpacks(key as int, padded as int),
{
    if padded == 0 {
        return false;
    }
    let size: u128 = magnitude(padded);
    let whole: u128 = magnitude(key);
    let below: u128 = whole % size;
    let index: u128 = if key >= 0 || below == 0 {
        below
    } else {
        size - below
    };
    proof {
        let k = key as int;
        let p = padded as int;
        let s = size as int;
        let t = whole as int / s;
        let b = below as int;
        unpacked_packs(k, p);
        assert(whole as int == s * t + b) by (nonlinear_arith)
            requires
                s == size as int,
                t == whole as int / s,
                b == whole as int % s,
                s > 0,
        ;
        let floor = if key >= 0 {
            t
        } else if b == 0 {
            -t
        } else {
            -t - 1
        };
        let rest = index as int;
        assert(k == s * floor + rest) by (nonlinear_arith)
            requires
                key >= 0 ==> k == s * t + b && floor == t && rest == b,
                key < 0 ==> k == -(s * t + b),
                key < 0 && b == 0 ==> floor == -t && rest == 0,
                key < 0 && b != 0 ==> floor == -t - 1 && rest == s - b,
        ;
        let q = unpacked(k, p).0;
        let m = unpacked(k, p).1;
        let signed = if padded > 0 {
            q
        } else {
            -q
        };
        assert(k == s * signed + m) by (nonlinear_arith)
            requires
                q * p + m == k,
                padded > 0 ==> s == p && signed == q,
                padded < 0 ==> s == -p && signed == -q,
                padded != 0,
        ;
        vstd::arithmetic::div_mod::lemma_fundamental_div_mod_converse(k, s, floor, rest);
        vstd::arithmetic::div_mod::lemma_fundamental_div_mod_converse(k, s, signed, m);
        assert(rest == m);
        let base = k - m;
        assert(base == q * p);
        if k - m >= i128::MIN {
            assert(q <= i128::MAX <==> !(p == -1 && k == i128::MIN)) by {
                if p == -1 {
                    assert(q == -base) by (nonlinear_arith)
                        requires
                            base == q * p,
                            p == -1,
                    ;
                    assert(m == 0);
                } else if p > 0 {
                    assert(q <= i128::MAX) by (nonlinear_arith)
                        requires
                            base == q * p,
                            p > 0,
                            base <= i128::MAX,
                    ;
                } else {
                    assert(q <= i128::MAX) by (nonlinear_arith)
                        requires
                            base == q * p,
                            p <= -2,
                            base >= i128::MIN,
                    ;
                }
            }
        }
    }
    key >= i128::MIN + index as i128 && !(padded == -1 && key == i128::MIN)
}

/// Whether a masked key of a log can be taken apart.
fn masked_within(log: &str, name: &str, mask: i128, padded: i128) -> (r: bool)
    ensures
        r == masked_fits(log@, name@, mask as int, padded as int),
{
    match named_integer(log, name) {
        None => true,
        Some(masked) => {
            let fits = if mask >= 0 {
                masked >= i128::MIN + mask
            } else {
                masked <= i128::MAX + mask
            };
            fits && key_fits(masked - mask, padded)
        },
    }
}

/// Whether the numbers of a run stay within a hundred and twenty-eight bits, so that
/// its log can be held against the reference.
pub fn run_within_range(mode: Mode, log: &str, reference: &Value) -> (r: bool)
    ensures
        r == run_fits(mode, log@, reference@),
{
    let padded: i128 = match integer(reference, "padded_mm") {
        Err(_) => {
            return true;
        },
        Ok(padded) => padded,
    };
    let mask: i128 = match reference.get("mask") {
        None => 0,
        Some(v) => match json_i128(v) {
            None => 0,
            Some(mask) => mask,
        },
    };
    match mode {
        Mode::Rfq => masked_within(log, "QOMM_MASKED_KEY=", mask, padded),
        Mode::Rfm => {
            if named_integer(log, "QOMM_MASKED_ASK=").is_none() || named_integer(log, "QOMM_MASKED_BID=").is_none() {
                return true;
            }
            if !masked_within(log, "QOMM_MASKED_ASK=", mask, padded) || !masked_within(
                log,
                "QOMM_MASKED_BID=",
                mask,
                padded,
            ) {
                return false;
            }
            if two_integers(reference, "best_ask", "best_ask_mm").is_err() {
                return true;
            }
            match two_integers(reference, "best_bid", "best_bid_mm") {
                Err(_) => true,
                Ok(pair) => pair.0 != i128::MIN,
            }
        },
        Mode::Rfs => match read_steps(log) {
            None => true,
            Some((_, key)) => key_fits(key, padded),
        },
    }
}

/// Reads the result of a run out of its log and holds it against the reference.
pub fn verify_run(mode: Mode, log: &str, reference: &Value) -> (r: Result<(bool, String), String>)
    requires
        run_fits(mode, log@, reference@),
    ensures
        tells(r, run_verdict(mode, log@, reference@)),
{
    let padded: i128 = match integer(reference, "padded_mm") {
        Err(e) => {
            proof {
                reveal_strlit("reference has no integer ");
                reveal_strlit("padded_mm");
                reveal_strlit("reference has no integer padded_mm");
                assert("reference has no integer "@ + "padded_mm"@ =~= "reference has no integer padded_mm"@);
            }
            return Err(e);
        },
        Ok(padded) => padded,
    };
    let mask: i128 = match reference.get("mask") {
        None => 0,
        Some(v) => match json_i128(v) {
            None => 0,
            Some(mask) => mask,
        },
    };
    match mode {
        Mode::Rfq => verify_rfq(log, reference, mask, padded),
        Mode::Rfm => verify_rfm(log, reference, mask, padded),
        Mode::Rfs => verify_rfs(log, reference, padded),
    }
}

/// The last `count` characters of a text.
pub fn tail(text: &str, count: usize) -> (last: String)
    ensures
        last@ == if text@.len() <= count {
            text@
        } else {
            text@.skip(text@.len() - count)
        },
{
    let length: usize = text.unicode_len();
    if length <= count {
        return text.to_owned();
    }
    let last = text.substring_char(length - count, length);
    assert(last@ =~= text@.skip(text@.len() - count));
    last.to_owned()
}

/// A link that a delay is put on: from one party to another, through a port that
/// passes on to the party's own.
#[derive(Clone, Copy, Debug)]
pub struct DelayedLink {
    pub source: usize,
    pub target: usize,
    pub listen_port: u16,
    pub target_port: u16,
}

/// The port through which a party reaches another.
pub open spec fn port_for(source: int, target: int, n: int, actual_base: int, proxy_base: int, delayed: bool) -> int {
    if !delayed || source == target {
        actual_base + target
    } else {
        proxy_base + source * n + target
    }
}

/// The addresses of the first `count` parties as one party reaches them.
pub open spec fn host_lines(
    source: int,
    count: nat,
    n: int,
    actual_base: int,
    proxy_base: int,
    delayed: bool,
) -> Seq<char>
    decreases count,
{
    if count == 0 {
        ""@
    } else {
        host_lines(source, (count - 1) as nat, n, actual_base, proxy_base, delayed) + ("127.0.0.1:"@ + decimal(
            port_for(source, count - 1, n, actual_base, proxy_base, delayed) as nat,
        ) + "\n"@)
    }
}

/// The addresses of the parties as one party reaches them, and its delayed links.
pub fn host_file(source: usize, n: usize, actual_base: u16, proxy_base: u16, delayed: bool) -> (r: (String,
    Vec<DelayedLink>))
    requires
        source < n,
        actual_base + n <= 0x1_0000,
        proxy_base + n * n <= 0x1_0000,
    ensures
        r.0@ == host_lines(source as int, n as nat, n as int, actual_base as int, proxy_base as int, delayed),
        r.1@.len() == if delayed {
            n - 1
        } else {
            0
        },
        forall|i: int|
            0 <= i < r.1@.len() ==> {
                let target = if i < source {
                    i
                } else {
                    i + 1
                };
                &&& (#[trigger] r.1@[i]).source == source
                &&& r.1@[i].target == target
                &&& r.1@[i].listen_port == port_for(
                    source as int,
                    target,
                    n as int,
                    actual_base as int,
                    proxy_base as int,
                    delayed,
                )
                &&& r.1@[i].target_port == actual_base + target
            },
{
    let mut lines = "".to_owned();
    let mut links: Vec<DelayedLink> = Vec::new();
    let mut target: usize = 0;
    while target < n
        invariant
            target <= n,
            source < n,
            actual_base + n <= 0x1_0000,
            proxy_base + n * n <= 0x1_0000,
            lines@ == host_lines(source as int, target as nat, n as int, actual_base as int, proxy_base as int,
                delayed),
            links@.len() == if !delayed {
                0
            } else if target <= source {
                target as int
            } else {
                target - 1
            },
            forall|i: int|
                0 <= i < links@.len() ==> {
                    let aim = if i < source {
                        i
                    } else {
                        i + 1
                    };
                    &&& (#[trigger] links@[i]).source == source
                    &&& links@[i].target == aim
                    &&& links@[i].listen_port == port_for(
                        source as int,
                        aim,
                        n as int,
                        actual_base as int,
                        proxy_base as int,
                        delayed,
                    )
                    &&& links@[i].target_port == actual_base + aim
                },
        decreases n - target,
    {
        let own: u16 = actual_base + target as u16;
        let port: u16 = if !delayed || source == target {
            own
        } else {
            assert(source * n + target < n * n) by (nonlinear_arith)
                requires
                    source < n,
                    target < n,
            ;
            assert(0 <= source * n) by (nonlinear_arith);
            let listen_port: u16 = proxy_base + (source * n + target) as u16;
            links.push(DelayedLink { source, target, listen_port, target_port: own });
            listen_port
        };
        let line = about("127.0.0.1:", decimal_text(port as u64).as_str()).concat("\n");
        lines = lines.concat(line.as_str());
        target = target + 1;
    }
    (lines, links)
}

} // verus!
