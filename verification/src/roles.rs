//! Input roles: sharing a value over nodes, signed dealing receipts, and audits.

use vstd::prelude::*;
use crate::application_crypto::{
    answers, can_sign, can_verify, check_signature, make_signature, signs, Signature, SigningKey, VerifyingKey,
};
use crate::bytes::{be_bytes, put, put_be, text_bytes};
use crate::text::{about, decimal, decimal_text};
use vstd::arithmetic::power::pow;
use vstd::arithmetic::power2::pow2;

verus! {

/// The bits by which a random share is wider than the value it hides.
pub const SLACK_BITS: u32 = 40;

/// Why sharing or dealing failed.
#[derive(Debug, PartialEq, Eq)]
pub enum RoleError {
    NodeCount,
    Signing(String),
    ValueWidth { actual: u32, declared: u32 },
    ShareWidth,
    FieldWidth { n_nodes: usize, value_bits: u32, field_bits: u32, needed: u32 },
    NodeShape,
    PartyZero,
    Modulus,
}

impl RoleError {
    /// What the error says.
    pub open spec fn text(self) -> Seq<char> {
        match self {
            RoleError::NodeCount => "sharing needs at least two nodes"@,
            RoleError::Signing(e) => "hybrid share receipt could not be signed: "@ + e@,
            RoleError::ValueWidth { actual, declared } => "value needs "@ + decimal(actual as nat) + " bits, declared "@
                + decimal(declared as nat),
            RoleError::ShareWidth => "share range exceeds signed 128-bit arithmetic"@,
            RoleError::FieldWidth { n_nodes, value_bits, field_bits, needed } => "a "@ + decimal(field_bits as nat)
                + "-bit field cannot hold "@ + decimal(n_nodes as nat) + " shares of a "@ + decimal(value_bits as nat)
                + "-bit value: "@ + decimal(needed as nat) + " bits are needed"@,
            RoleError::NodeShape => "dealing to a different number of nodes than declared"@,
            RoleError::PartyZero => "party identifiers start at one"@,
            RoleError::Modulus => "modulus must be greater than every party identifier"@,
        }
    }

    /// What the error says.
    pub fn message(&self) -> (message: String)
        ensures
            message@ == self.text(),
    {
        match self {
            RoleError::NodeCount => "sharing needs at least two nodes".to_owned(),
            RoleError::Signing(e) => about("hybrid share receipt could not be signed: ", e.as_str()),
            RoleError::ValueWidth { actual, declared } => {
                let first = decimal_text(*actual as u64);
                let second = decimal_text(*declared as u64);
                let head = about("value needs ", first.as_str());
                let middle = about(head.as_str(), " bits, declared ");
                about(middle.as_str(), second.as_str())
            },
            RoleError::ShareWidth => "share range exceeds signed 128-bit arithmetic".to_owned(),
            RoleError::FieldWidth { n_nodes, value_bits, field_bits, needed } => {
                let field = decimal_text(*field_bits as u64);
                let nodes = decimal_text(*n_nodes as u64);
                let value = decimal_text(*value_bits as u64);
                let bits = decimal_text(*needed as u64);
                let a = about("a ", field.as_str());
                let b = about(a.as_str(), "-bit field cannot hold ");
                let c = about(b.as_str(), nodes.as_str());
                let d = about(c.as_str(), " shares of a ");
                let e = about(d.as_str(), value.as_str());
                let f = about(e.as_str(), "-bit value: ");
                let g = about(f.as_str(), bits.as_str());
                about(g.as_str(), " bits are needed")
            },
            RoleError::NodeShape => "dealing to a different number of nodes than declared".to_owned(),
            RoleError::PartyZero => "party identifiers start at one".to_owned(),
            RoleError::Modulus => "modulus must be greater than every party identifier".to_owned(),
        }
    }
}

/// How many binary digits a number has.
pub open spec fn bit_length(value: nat) -> nat
    decreases value,
{
    if value == 0 {
        0
    } else {
        1 + bit_length(value / 2)
    }
}

/// A number has fewer than so many bits exactly if it is below the power of two.
pub proof fn bit_length_bound(value: nat)
    ensures
        value < pow2(bit_length(value)),
        value > 0 ==> pow2((bit_length(value) - 1) as nat) <= value,
    decreases value,
{
    if value == 0 {
        vstd::arithmetic::power2::lemma2_to64();
    } else {
        bit_length_bound(value / 2);
        vstd::arithmetic::power2::lemma_pow2_unfold(bit_length(value));
        if value / 2 > 0 {
            vstd::arithmetic::power2::lemma_pow2_unfold((bit_length(value) - 1) as nat);
        } else {
            vstd::arithmetic::power2::lemma2_to64();
        }
    }
}

fn count_bits(value: u128) -> (bits: u32)
    ensures
        bits == bit_length(value as nat),
        bits <= 128,
{
    let mut left: u128 = value;
    let mut bits: u32 = 0;
    let ghost mut scale: nat = 1;
    proof {
        vstd::arithmetic::power2::lemma2_to64();
    }
    while left > 0
        invariant
            bits + bit_length(left as nat) == bit_length(value as nat),
            left * pow2(bits as nat) <= value,
            bits <= 128,
        decreases left,
    {
        proof {
            vstd::arithmetic::power2::lemma_pow2_unfold((bits + 1) as nat);
            let p = pow2(bits as nat) as int;
            assert((left / 2) * (2 * p) <= left * p) by (nonlinear_arith)
                requires
                    p >= 0,
                    left >= 0,
            ;
            if bits == 128 {
                vstd::arithmetic::power2::lemma2_to64_rest();
                vstd::arithmetic::power2::lemma_pow2_adds(64, 64);
                assert(left * pow2(128) >= pow2(128)) by (nonlinear_arith)
                    requires
                        left >= 1,
                ;
            }
        }
        left = left / 2;
        bits = bits + 1;
    }
    bits
}

/// The magnitude of a number.
pub open spec fn magnitude(value: int) -> nat {
    if value < 0 {
        (-value) as nat
    } else {
        value as nat
    }
}

/// How many bits the magnitude of a number has.
pub fn magnitude_bits(value: i128) -> (bits: u32)
    ensures
        bits == bit_length(magnitude(value as int)),
        bits <= 128,
{
    let size: u128 = if value < 0 {
        (-(value + 1)) as u128 + 1
    } else {
        value as u128
    };
    count_bits(size)
}

/// The sum of the first `count` numbers.
pub open spec fn total(values: Seq<i128>, count: nat) -> int
    decreases count,
{
    if count == 0 || count > values.len() {
        0
    } else {
        total(values, (count - 1) as nat) + values[count - 1]
    }
}

/// A random share of so many bits, of two draws of sixty-four.
pub open spec fn drawn_share(low: u64, high: u64, width: nat) -> nat {
    (low as nat + high as nat * 0x1_0000_0000_0000_0000) % pow2(width)
}

/// The random shares of draws.
pub open spec fn drawn_shares(drawn: Seq<u64>, count: nat, width: nat) -> Seq<int> {
    Seq::new(count, |i: int| drawn_share(drawn[2 * i], drawn[2 * i + 1], width) as int)
}

/// The sum of the first `count` numbers.
pub open spec fn sum(values: Seq<int>, count: nat) -> int
    decreases count,
{
    if count == 0 || count > values.len() {
        0
    } else {
        sum(values, (count - 1) as nat) + values[count - 1]
    }
}

/// Why a value cannot be split.
pub open spec fn split_refusal(value: i128, n_nodes: usize, value_bits: u32, drawn: Seq<u64>) -> Option<RoleError> {
    if n_nodes < 2 {
        Some(RoleError::NodeCount)
    } else if bit_length(magnitude(value as int)) > value_bits {
        Some(
            RoleError::ValueWidth { actual: bit_length(magnitude(value as int)) as u32, declared: value_bits },
        )
    } else if value_bits + SLACK_BITS >= 126 {
        Some(RoleError::ShareWidth)
    } else {
        let randoms = drawn_shares(drawn, (n_nodes - 1) as nat, (value_bits + SLACK_BITS) as nat);
        let all = sum(randoms, (n_nodes - 1) as nat);
        if all > i128::MAX || value - all < i128::MIN {
            Some(RoleError::ShareWidth)
        } else {
            None
        }
    }
}

fn power_of_two(exponent: u32) -> (power: u128)
    requires
        exponent < 127,
    ensures
        power == pow2(exponent as nat),
{
    let mut power: u128 = 1;
    let mut i: u32 = 0;
    proof {
        vstd::arithmetic::power2::lemma2_to64();
    }
    while i < exponent
        invariant
            i <= exponent < 127,
            power == pow2(i as nat),
        decreases exponent - i,
    {
        proof {
            vstd::arithmetic::power2::lemma_pow2_unfold((i + 1) as nat);
            vstd::arithmetic::power2::lemma_pow2_strictly_increases((i + 1) as nat, 128);
            vstd::arithmetic::power2::lemma2_to64_rest();
            vstd::arithmetic::power2::lemma_pow2_adds(64, 64);
        }
        power = power * 2;
        i = i + 1;
    }
    power
}

/// Sums of numbers that are not negative only grow.
proof fn sum_grows(values: Seq<int>, a: nat, b: nat)
    requires
        a <= b <= values.len(),
        forall|i: int| 0 <= i < values.len() ==> 0 <= #[trigger] values[i],
    ensures
        0 <= sum(values, a) <= sum(values, b),
    decreases b,
{
    if a < b {
        sum_grows(values, a, (b - 1) as nat);
    } else if b > 0 {
        sum_grows(values, (a - 1) as nat, (b - 1) as nat);
    }
}

/// Whether shares are those of a value: the drawn ones for all nodes but the last,
/// and what is missing from the value for the last.
pub open spec fn split_as(shares: Seq<i128>, value: int, n_nodes: usize, value_bits: u32, drawn: Seq<u64>) -> bool {
    &&& shares.len() == n_nodes
    &&& total(shares, shares.len()) == value
    &&& forall|i: int|
        0 <= i < n_nodes - 1 ==> #[trigger] shares[i] == drawn_share(
            drawn[2 * i],
            drawn[2 * i + 1],
            (value_bits + SLACK_BITS) as nat,
        )
}

/// Splits a value over nodes: random shares for all but the last, which is what
/// is missing from the value. `drawn` are two random words for each random share.
#[verifier::loop_isolation(false)]
pub fn split(value: i128, n_nodes: usize, value_bits: u32, drawn: &[u64]) -> (r: Result<Vec<i128>, RoleError>)
    requires
        n_nodes >= 2 ==> drawn@.len() >= 2 * (n_nodes - 1),
    ensures
        match r {
            Ok(shares) => {
                &&& split_refusal(value, n_nodes, value_bits, drawn@) is None
                &&& split_as(shares@, value as int, n_nodes, value_bits, drawn@)
            },
            Err(e) => split_refusal(value, n_nodes, value_bits, drawn@) == Some(e),
        },
{
    if n_nodes < 2 {
        return Err(RoleError::NodeCount);
    }
    let actual = magnitude_bits(value);
    if actual > value_bits {
        return Err(RoleError::ValueWidth { actual, declared: value_bits });
    }
    if value_bits >= 126 - SLACK_BITS {
        return Err(RoleError::ShareWidth);
    }
    let width: u32 = value_bits + SLACK_BITS;
    let range = power_of_two(width);
    let ghost randoms = drawn_shares(drawn@, (n_nodes - 1) as nat, width as nat);
    proof {
        vstd::arithmetic::power2::lemma_pow2_pos(width as nat);
        assert forall|i: int| 0 <= i < randoms.len() implies 0 <= #[trigger] randoms[i] by {
        }
        vstd::arithmetic::power2::lemma_pow2_strictly_increases(width as nat, 127);
        vstd::arithmetic::power2::lemma2_to64_rest();
        vstd::arithmetic::power2::lemma_pow2_adds(64, 62);
        vstd::arithmetic::power2::lemma_pow2_adds(126, 1);
        vstd::arithmetic::power2::lemma2_to64();
    }
    let have: usize = drawn.len();
    let mut shares: Vec<i128> = Vec::new();
    let mut sum_so_far: i128 = 0;
    let mut i: usize = 0;
    let random_count: usize = n_nodes - 1;
    while i < random_count
        invariant
            i <= random_count,
            shares@.len() == i,
            sum_so_far == sum(randoms, i as nat),
            sum_so_far >= 0,
            total(shares@, i as nat) == sum_so_far,
            forall|j: int| 0 <= j < i ==> #[trigger] shares@[j] == randoms[j],
        decreases random_count - i,
    {
        assert(2 * i + 1 < have);
        let low: u64 = drawn[2 * i];
        let high: u64 = drawn[2 * i + 1];
        let word: u128 = low as u128 + high as u128 * 0x1_0000_0000_0000_0000;
        let random: u128 = word % range;
        proof {
            assert(random == randoms[i as int]);
            assert(random < pow2(127));
        }
        let share: i128 = random as i128;
        if share > i128::MAX - sum_so_far {
            proof {
                assert(sum(randoms, (i + 1) as nat) > i128::MAX);
                sum_grows(randoms, (i + 1) as nat, random_count as nat);
            }
            return Err(RoleError::ShareWidth);
        }
        let ghost before = shares@;
        sum_so_far = sum_so_far + share;
        shares.push(share);
        proof {
            total_agrees(before, shares@, i as nat);
        }
        i = i + 1;
    }
    if value < i128::MIN + sum_so_far {
        return Err(RoleError::ShareWidth);
    }
    let ghost before = shares@;
    shares.push(value - sum_so_far);
    proof {
        total_agrees(before, shares@, random_count as nat);
    }
    Ok(shares)
}

proof fn total_agrees(a: Seq<i128>, b: Seq<i128>, count: nat)
    requires
        count <= a.len(),
        count <= b.len(),
        forall|i: int| 0 <= i < count ==> a[i] == b[i],
    ensures
        total(a, count) == total(b, count),
    decreases count,
{
    if count > 0 {
        total_agrees(a, b, (count - 1) as nat);
    }
}

/// How many bits a field must have to hold the shares of a value.
pub open spec fn needed_bits(n_nodes: usize, value_bits: u32) -> nat {
    let below = if n_nodes == 0 { 0nat } else { (n_nodes - 1) as nat };
    value_bits as nat + SLACK_BITS as nat + bit_length(below) + 2
}

/// Refuses a field too narrow for the shares of a value.
pub fn check_field_width(n_nodes: usize, value_bits: u32, field_bits: u32) -> (r: Result<(), RoleError>)
    requires
        needed_bits(n_nodes, value_bits) <= u32::MAX,
    ensures
        match r {
            Ok(_) => field_bits >= needed_bits(n_nodes, value_bits),
            Err(e) => {
                &&& field_bits < needed_bits(n_nodes, value_bits)
                &&& e == (RoleError::FieldWidth {
                    n_nodes,
                    value_bits,
                    field_bits,
                    needed: needed_bits(n_nodes, value_bits) as u32,
                })
            },
        },
{
    let below: usize = if n_nodes == 0 {
        0
    } else {
        n_nodes - 1
    };
    let node_bits = count_bits(below as u128);
    let needed: u32 = value_bits + SLACK_BITS + node_bits + 2;
    if field_bits < needed {
        return Err(RoleError::FieldWidth { n_nodes, value_bits, field_bits, needed });
    }
    Ok(())
}

fn add_mod(left: u128, right: u128, modulus: u128) -> (sum: u128)
    requires
        left < modulus,
        right < modulus,
    ensures
        sum == (left + right) % modulus as int,
{
    proof {
        if left >= modulus - right {
            vstd::arithmetic::div_mod::lemma_mod_add_multiples_vanish((left + right - modulus) as int, modulus as int);
            vstd::arithmetic::div_mod::lemma_small_mod((left + right - modulus) as nat, modulus as nat);
        } else {
            vstd::arithmetic::div_mod::lemma_small_mod((left + right) as nat, modulus as nat);
        }
    }
    if left >= modulus - right {
        left - (modulus - right)
    } else {
        left + right
    }
}

/// A product modulo a number, by doubling.
pub fn mul_mod(left: u128, right: u128, modulus: u128) -> (product: u128)
    requires
        modulus > 0,
    ensures
        product == (left * right) % modulus as int,
        product < modulus,
{
    let ghost m = modulus as int;
    let ghost target = (left * right) % m;
    let mut result: u128 = 0;
    let mut a: u128 = left % modulus;
    let mut b: u128 = right;
    proof {
        vstd::arithmetic::div_mod::lemma_mul_mod_noop_left(left as int, right as int, m);
        vstd::arithmetic::div_mod::lemma_mod_bound(left as int, m);
    }
    while b != 0
        invariant
            modulus > 0,
            m == modulus,
            a < modulus,
            result < modulus,
            (result + a * b) % m == target,
        decreases b,
    {
        let ghost a0 = a as int;
        let ghost b0 = b as int;
        let ghost r0 = result as int;
        if b % 2 == 1 {
            result = add_mod(result, a, modulus);
            proof {
                vstd::arithmetic::div_mod::lemma_mod_bound(r0 + a0, m);
            }
        }
        b = b / 2;
        proof {
            let half = b as int;
            let odd = b0 % 2;
            assert(b0 == 2 * half + odd);
            assert(r0 + a0 * b0 == (r0 + a0 * odd) + (2 * a0) * half) by (nonlinear_arith)
                requires
                    b0 == 2 * half + odd,
            ;
            assert(a0 * odd == if odd == 1 { a0 } else { 0 }) by (nonlinear_arith)
                requires
                    odd == 0 || odd == 1,
            ;
            assert(result as int % m == (r0 + a0 * odd) % m) by {
                vstd::arithmetic::div_mod::lemma_mod_twice(r0 + a0 * odd, m);
                vstd::arithmetic::div_mod::lemma_small_mod(r0 as nat, m as nat);
            }
            vstd::arithmetic::div_mod::lemma_add_mod_noop((r0 + a0 * odd), (2 * a0) * half, m);
            vstd::arithmetic::div_mod::lemma_add_mod_noop(result as int, (2 * a0) * half, m);
        }
        if b != 0 {
            a = add_mod(a, a, modulus);
            proof {
                let half = b as int;
                vstd::arithmetic::div_mod::lemma_mod_bound(2 * a0, m);
                vstd::arithmetic::div_mod::lemma_mul_mod_noop_left(2 * a0, half, m);
                vstd::arithmetic::div_mod::lemma_add_mod_noop(result as int, (2 * a0) * half, m);
                vstd::arithmetic::div_mod::lemma_add_mod_noop(result as int, a * half, m);
            }
        } else {
            proof {
                assert((2 * a0) * 0 == 0);
                assert(a * 0 == 0);
            }
        }
    }
    proof {
        assert(a * 0 == 0);
        vstd::arithmetic::div_mod::lemma_small_mod(result as nat, m as nat);
    }
    result
}

/// A power modulo a number, by squaring.
pub fn pow_mod(base: u128, exponent: u128, modulus: u128) -> (power: u128)
    requires
        modulus > 1,
    ensures
        power == pow(base as int, exponent as nat) % modulus as int,
        power < modulus,
{
    let ghost m = modulus as int;
    let ghost target = pow(base as int, exponent as nat) % m;
    let mut result: u128 = 1;
    let mut a: u128 = base;
    let mut e: u128 = exponent;
    proof {
        vstd::arithmetic::div_mod::lemma_small_mod(1, m as nat);
    }
    while e != 0
        invariant
            modulus > 1,
            m == modulus,
            result < modulus,
            (result * pow(a as int, e as nat)) % m == target,
        decreases e,
    {
        let ghost a0 = a as int;
        let ghost e0 = e as nat;
        let ghost r0 = result as int;
        if e % 2 == 1 {
            result = mul_mod(result, a, modulus);
        }
        e = e / 2;
        proof {
            let half = e as nat;
            let odd = e0 % 2;
            assert(e0 == 2 * half + odd);
            let square = a0 * a0;
            power_halves(a0, half, odd);
            // a0^e0 == (a0*a0)^half * a0^odd
            let p = pow(square, half);
            let one = if odd == 1 { a0 } else { 1 };
            assert(r0 * (p * one) == (r0 * one) * p) by (nonlinear_arith);
            assert(result as int % m == (r0 * one) % m) by {
                vstd::arithmetic::div_mod::lemma_mod_twice(r0 * one, m);
                vstd::arithmetic::div_mod::lemma_small_mod(r0 as nat, m as nat);
            }
            vstd::arithmetic::div_mod::lemma_mul_mod_noop_left(r0 * one, p, m);
            vstd::arithmetic::div_mod::lemma_mul_mod_noop_left(result as int, p, m);
            assert((result * p) % m == target);
        }
        if e != 0 {
            let ghost p = pow(a0 * a0, e as nat);
            a = mul_mod(a, a, modulus);
            proof {
                vstd::arithmetic::power::lemma_pow_mod_noop(a0 * a0, e as nat, m);
                let q = pow(a as int, e as nat);
                assert(q % m == p % m);
                vstd::arithmetic::div_mod::lemma_mul_mod_noop_right(result as int, p, m);
                vstd::arithmetic::div_mod::lemma_mul_mod_noop_right(result as int, q, m);
            }
        } else {
            proof {
                vstd::arithmetic::power::lemma_pow0(a as int);
                vstd::arithmetic::power::lemma_pow0(a0 * a0);
            }
        }
    }
    proof {
        vstd::arithmetic::power::lemma_pow0(a as int);
        vstd::arithmetic::div_mod::lemma_small_mod(result as nat, m as nat);
    }
    result
}

proof fn power_halves(base: int, half: nat, odd: nat)
    requires
        odd == 0 || odd == 1,
    ensures
        pow(base, 2 * half + odd) == pow(base * base, half) * if odd == 1 { base } else { 1 },
{
    vstd::arithmetic::power::lemma_pow_adds(base, 2 * half, odd);
    vstd::arithmetic::power::lemma_pow_multiplies(base, 2, half);
    vstd::arithmetic::power::lemma_pow1(base);
    vstd::arithmetic::power::lemma_pow0(base);
    assert(pow(base, 2) == base * base) by {
        vstd::arithmetic::power::lemma_pow_adds(base, 1, 1);
    }
}

/// The product of minus every point up to `count`, but for one.
pub open spec fn other_points(point: int, count: nat) -> int
    decreases count,
{
    if count == 0 {
        1
    } else if count == point {
        other_points(point, (count - 1) as nat)
    } else {
        other_points(point, (count - 1) as nat) * (-(count as int))
    }
}

/// The product of the differences from every other point up to `count`.
pub open spec fn differences(point: int, count: nat) -> int
    decreases count,
{
    if count == 0 {
        1
    } else if count == point {
        differences(point, (count - 1) as nat)
    } else {
        differences(point, (count - 1) as nat) * (point - count)
    }
}

/// The coefficient of a point in the interpolation at zero, modulo a prime: the
/// product of minus the other points, over that of the differences from them.
pub open spec fn coefficient_at_zero(point: int, n_nodes: nat, prime: nat) -> int {
    (other_points(point, n_nodes) * pow(differences(point, n_nodes) % prime as int, (prime - 2) as nat)) % prime as int
}

proof fn step_product(total: int, reduced: int, factor: int, residue: int, m: int)
    requires
        m > 0,
        reduced == total % m,
        residue % m == factor % m,
    ensures
        (reduced * residue) % m == (total * factor) % m,
{
    vstd::arithmetic::div_mod::lemma_mul_mod_noop(total, factor, m);
    vstd::arithmetic::div_mod::lemma_mul_mod_noop(reduced, residue, m);
    vstd::arithmetic::div_mod::lemma_mod_twice(total, m);
}

/// Whether weights are those of the points one to the number of nodes, taken at zero.
pub open spec fn weighs_at_zero(weights: Seq<u128>, n_nodes: nat, prime: nat) -> bool {
    &&& weights.len() == n_nodes
    &&& forall|i: int| 0 <= i < n_nodes ==> #[trigger] weights[i] == coefficient_at_zero(i + 1, n_nodes, prime)
}

/// Public interpolation coefficients at zero for the points from one to `n_nodes`.
#[verifier::loop_isolation(false)]
pub fn lagrange_at_zero(n_nodes: usize, prime: u128) -> (r: Result<Vec<u128>, RoleError>)
    ensures
        match r {
            Ok(coefficients) => {
                &&& prime > n_nodes && prime >= 3
                &&& weighs_at_zero(coefficients@, n_nodes as nat, prime as nat)
            },
            Err(e) => (prime <= n_nodes || prime < 3) && e == RoleError::Modulus,
        },
{
    if prime <= n_nodes as u128 || prime < 3 {
        return Err(RoleError::Modulus);
    }
    let ghost m = prime as int;
    let mut coefficients: Vec<u128> = Vec::new();
    let mut point: u128 = 1;
    while point <= n_nodes as u128
        invariant
            1 <= point <= n_nodes + 1,
            coefficients@.len() == point - 1,
            forall|i: int|
                0 <= i < point - 1 ==> #[trigger] coefficients@[i] == coefficient_at_zero(
                    i + 1,
                    n_nodes as nat,
                    prime as nat,
                ),
        decreases n_nodes + 1 - point,
    {
        let mut numerator: u128 = 1;
        let mut denominator: u128 = 1;
        let mut other: u128 = 1;
        proof {
            vstd::arithmetic::div_mod::lemma_small_mod(1, prime as nat);
        }
        while other <= n_nodes as u128
            invariant
                1 <= other <= n_nodes + 1,
                numerator == other_points(point as int, (other - 1) as nat) % m,
                denominator == differences(point as int, (other - 1) as nat) % m,
            decreases n_nodes + 1 - other,
        {
            if other != point {
                let ghost n0 = other_points(point as int, (other - 1) as nat);
                let ghost d0 = differences(point as int, (other - 1) as nat);
                let difference: u128 = if point >= other {
                    point - other
                } else {
                    prime - (other - point)
                };
                proof {
                    vstd::arithmetic::div_mod::lemma_mod_add_multiples_vanish(-(other as int), m);
                    assert((prime - other) as int % m == (-(other as int)) % m);
                    step_product(n0, numerator as int, -(other as int), (prime - other) as int, m);
                    if point < other {
                        vstd::arithmetic::div_mod::lemma_mod_add_multiples_vanish(point - other, m);
                    }
                    step_product(d0, denominator as int, point - other, difference as int, m);
                }
                numerator = mul_mod(numerator, prime - other, prime);
                denominator = mul_mod(denominator, difference, prime);
            }
            other = other + 1;
        }
        let inverse = pow_mod(denominator, prime - 2, prime);
        proof {
            let n = other_points(point as int, n_nodes as nat);
            let d = differences(point as int, n_nodes as nat) % m;
            let power = pow(d, (prime - 2) as nat);
            vstd::arithmetic::div_mod::lemma_mod_twice(power, m);
            step_product(n, numerator as int, power, inverse as int, m);
        }
        coefficients.push(mul_mod(numerator, inverse, prime));
        point = point + 1;
    }
    Ok(coefficients)
}

/// The value of a polynomial, of which the constant comes first.
pub open spec fn polynomial(coefficients: Seq<int>, x: int) -> int
    decreases coefficients.len(),
{
    if coefficients.len() == 0 {
        0
    } else {
        coefficients[0] + x * polynomial(coefficients.skip(1), x)
    }
}

/// The polynomial that a value is shared with: the value, then random
/// coefficients of two draws each, all modulo the prime.
pub open spec fn sharing_polynomial(value: u128, threshold: nat, prime: nat, drawn: Seq<u64>) -> Seq<int> {
    seq![(value % prime as u128) as int] + Seq::new(
        threshold,
        |i: int| (drawn[2 * i] as int + drawn[2 * i + 1] as int * 0x1_0000_0000_0000_0000) % prime as int,
    )
}

proof fn polynomial_from_tail(coefficients: Seq<int>, x: int, at: int)
    requires
        0 <= at < coefficients.len(),
    ensures
        polynomial(coefficients.skip(at), x) == coefficients[at] + x * polynomial(coefficients.skip(at + 1), x),
{
    assert(coefficients.skip(at).skip(1) =~= coefficients.skip(at + 1));
}

/// The value of a polynomial modulo a number, by Horner's rule.
fn evaluate(coefficients: &Vec<u128>, point: u128, modulus: u128) -> (value: u128)
    requires
        modulus > 0,
        forall|i: int| 0 <= i < coefficients@.len() ==> #[trigger] coefficients@[i] < modulus,
    ensures
        value == polynomial(coefficients@.map_values(|c: u128| c as int), point as int) % modulus as int,
{
    let ghost all = coefficients@.map_values(|c: u128| c as int);
    let ghost m = modulus as int;
    let mut value: u128 = 0;
    let mut left: usize = coefficients.len();
    proof {
        assert(all.skip(all.len() as int) =~= Seq::empty());
        vstd::arithmetic::div_mod::lemma_small_mod(0, m as nat);
    }
    while left > 0
        invariant
            left <= coefficients@.len(),
            modulus > 0,
            m == modulus,
            all == coefficients@.map_values(|c: u128| c as int),
            forall|i: int| 0 <= i < coefficients@.len() ==> #[trigger] coefficients@[i] < modulus,
            value == polynomial(all.skip(left as int), point as int) % m,
        decreases left,
    {
        let ghost rest = polynomial(all.skip(left as int), point as int);
        let raised = mul_mod(value, point, modulus);
        left = left - 1;
        proof {
            polynomial_from_tail(all, point as int, left as int);
            step_product(rest, value as int, point as int, point as int, m);
            vstd::arithmetic::div_mod::lemma_add_mod_noop(rest * point, coefficients@[left as int] as int, m);
            vstd::arithmetic::div_mod::lemma_add_mod_noop(raised as int, coefficients@[left as int] as int, m);
            vstd::arithmetic::div_mod::lemma_mod_twice(rest * point, m);
            assert(rest * point == point * rest) by (nonlinear_arith);
        }
        value = add_mod(raised, coefficients[left], modulus);
    }
    assert(all.skip(0) =~= all);
    value
}

/// Whether shares are a polynomial's values at the points one to the number of nodes.
pub open spec fn shares_lie_on(shares: Seq<u128>, c: Seq<int>, n_nodes: nat, prime: nat) -> bool {
    &&& shares.len() == n_nodes
    &&& forall|i: int| 0 <= i < n_nodes ==> #[trigger] shares[i] == polynomial(c, i + 1) % prime as int
}

/// Shares a value with a random polynomial: a node's share is the value of the
/// polynomial at the node's number, from one on.
#[verifier::loop_isolation(false)]
pub fn shamir_split(value: u128, n_nodes: usize, threshold: usize, prime: u128, drawn: &[u64]) -> (r: Result<
    Vec<u128>,
    RoleError,
>)
    requires
        prime > 0,
        2 * threshold + 1 <= usize::MAX,
        drawn@.len() >= 2 * threshold,
    ensures
        match r {
            Ok(shares) => {
                &&& n_nodes >= 2 * threshold + 1
                &&& shares_lie_on(
                    shares@,
                    sharing_polynomial(value, threshold as nat, prime as nat, drawn@),
                    n_nodes as nat,
                    prime as nat,
                )
            },
            Err(e) => n_nodes < 2 * threshold + 1 && e == RoleError::NodeCount,
        },
{
    if n_nodes < 2 * threshold + 1 {
        return Err(RoleError::NodeCount);
    }
    let ghost wanted = sharing_polynomial(value, threshold as nat, prime as nat, drawn@);
    let mut coefficients: Vec<u128> = Vec::new();
    coefficients.push(value % prime);
    let mut i: usize = 0;
    while i < threshold
        invariant
            i <= threshold,
            coefficients@.len() == i + 1,
            forall|j: int| 0 <= j < i + 1 ==> #[trigger] coefficients@[j] == wanted[j] && coefficients@[j] < prime,
        decreases threshold - i,
    {
        let word: u128 = drawn[2 * i] as u128 + drawn[2 * i + 1] as u128 * 0x1_0000_0000_0000_0000;
        coefficients.push(word % prime);
        i = i + 1;
    }
    assert(coefficients@.map_values(|c: u128| c as int) =~= wanted);
    let mut shares: Vec<u128> = Vec::new();
    let mut point: usize = 1;
    while point <= n_nodes
        invariant
            1 <= point <= n_nodes + 1,
            shares@.len() == point - 1,
            forall|j: int| 0 <= j < point - 1 ==> #[trigger] shares@[j] == polynomial(wanted, j + 1) % prime as int,
        decreases n_nodes + 1 - point,
    {
        shares.push(evaluate(&coefficients, point as u128, prime));
        if point == n_nodes {
            return Ok(shares);
        }
        point = point + 1;
    }
    Ok(shares)
}

/// A share as sixty-four bytes of a signed number.
pub open spec fn signed_bytes(value: int) -> Seq<u8> {
    let word: nat = if value < 0 { (0x1_0000_0000_0000_0000_0000_0000_0000_0000 + value) as nat } else { value as nat };
    Seq::new(48, |i: int| if value < 0 { 0xffu8 } else { 0u8 }) + be_bytes(word / 0x1_0000_0000_0000_0000,
        8) + be_bytes(
        word % 0x1_0000_0000_0000_0000,
        8,
    )
}

/// The signed text of a share that a dealer gives a node.
pub open spec fn dealt_text(dealer: Seq<char>, index: nat, position: nat, share: int) -> Seq<u8> {
    text_bytes("QOMM:TRANSPORT:SHARE:v2"@) + be_bytes(text_bytes(dealer).len(), 4) + text_bytes(dealer) + be_bytes(
        index,
        4,
    ) + be_bytes(position, 8) + signed_bytes(share)
}

fn put_signed(body: &mut Vec<u8>, value: i128)
    ensures
        final(body)@ == old(body)@ + signed_bytes(value as int),
{
    let ghost before = body@;
    let fill: u8 = if value < 0 {
        0xff
    } else {
        0
    };
    let mut i: usize = 0;
    assert(body@ =~= before + Seq::new(0, |j: int| fill));
    while i < 48
        invariant
            i <= 48,
            body@ == before + Seq::new(i as nat, |j: int| fill),
        decreases 48 - i,
    {
        body.push(fill);
        i = i + 1;
        assert(body@ =~= before + Seq::new(i as nat, |j: int| fill));
    }
    let word: u128 = if value < 0 {
        u128::MAX - (-(value + 1)) as u128
    } else {
        value as u128
    };
    put_be(body, (word / 0x1_0000_0000_0000_0000) as u64, 8);
    put_be(body, (word % 0x1_0000_0000_0000_0000) as u64, 8);
    assert(body@ =~= before + signed_bytes(value as int));
}

/// The signed text of a share that a dealer gives a node.
pub fn dealt_body(dealer: &str, index: usize, position: usize, share: i128) -> (body: Vec<u8>)
    ensures
        body@ == dealt_text(dealer@, index as nat, position as nat, share as int),
{
    let mut body: Vec<u8> = Vec::new();
    put(&mut body, "QOMM:TRANSPORT:SHARE:v2".as_bytes());
    let name = dealer.as_bytes();
    put_be(&mut body, name.len() as u64, 4);
    put(&mut body, name);
    put_be(&mut body, index as u64, 4);
    put_be(&mut body, position as u64, 8);
    put_signed(&mut body, share);
    assert(body@ =~= dealt_text(dealer@, index as nat, position as nat, share as int));
    body
}

/// A node that is dealt shares.
#[derive(Debug)]
pub struct ComputingNode {
    pub index: usize,
    pub inputs: Vec<i128>,
    pub receipts: Vec<Option<Signature>>,
}

/// What a receipt that may be absent says.
pub open spec fn receipt_said(receipt: Option<Signature>) -> Option<Seq<u8>> {
    match receipt {
        Some(s) => Some(s@),
        None => None,
    }
}

/// What receipts say.
pub open spec fn receipts_said(receipts: Seq<Option<Signature>>) -> Seq<Option<Seq<u8>>> {
    receipts.map_values(|r: Option<Signature>| receipt_said(r))
}

impl ComputingNode {
    /// A node without shares.
    pub fn new(index: usize) -> (node: ComputingNode)
        ensures
            node.index == index,
            node.inputs@.len() == 0,
            node.receipts@.len() == 0,
    {
        ComputingNode { index, inputs: Vec::new(), receipts: Vec::new() }
    }

    /// Takes a share and its receipt.
    pub fn receive(&mut self, share: i128, receipt: Option<Signature>)
        ensures
            final(self).index == old(self).index,
            final(self).inputs@ == old(self).inputs@.push(share),
            final(self).receipts@ == old(self).receipts@.push(receipt),
    {
        self.inputs.push(share);
        self.receipts.push(receipt);
    }
}

/// Whether a receipt is the one of a dealt share: a signature where the dealer has
/// a key, and none where it has none.
pub open spec fn receipted<S: Fn(&SigningKey, &Vec<u8>) -> Result<Signature, String>>(
    sign: S,
    key: Option<SigningKey>,
    body: Seq<u8>,
    receipt: Option<Signature>,
) -> bool {
    match key {
        None => receipt is None,
        Some(k) => receipt is Some && signs(sign, k, body, Ok(receipt->0@)),
    }
}

/// A party that deals its values over nodes.
#[derive(Debug)]
pub struct InputParty {
    pub name: String,
    pub n_nodes: usize,
    pub value_bits: u32,
    pub signing_key: Option<SigningKey>,
}

/// The receipts of one value's shares, or the error of the first that could not be signed.
#[derive(Debug)]
pub struct Dealt {
    pub shares: Vec<i128>,
    pub receipts: Vec<Option<Signature>>,
}

impl InputParty {
    /// The key that receipts are checked with.
    pub fn verifying_key(&self) -> (key: Option<VerifyingKey>)
        ensures
            match self.signing_key {
                Some(k) => key == Some(k.public),
                None => key is None,
            },
    {
        match &self.signing_key {
            Some(key) => Some(key.verifying_key()),
            None => None,
        }
    }

    /// Whether shares and receipts are those of one value for nodes that hold
    /// `position` shares already, given their numbers.
    pub open spec fn dealt<S: Fn(&SigningKey, &Vec<u8>) -> Result<Signature, String>>(
        self,
        sign: S,
        value: i128,
        indices: Seq<usize>,
        positions: Seq<nat>,
        drawn: Seq<u64>,
        dealt: Dealt,
    ) -> bool {
        &&& split_refusal(value, self.n_nodes, self.value_bits, drawn) is None
        &&& split_as(dealt.shares@, value as int, self.n_nodes, self.value_bits, drawn)
        &&& dealt.receipts@.len() == self.n_nodes
        &&& forall|i: int|
            #![trigger dealt.receipts@[i]]
            0 <= i < self.n_nodes ==> receipted(
                sign,
                self.signing_key,
                dealt_text(self.name@, indices[i] as nat, positions[i], dealt.shares@[i] as int),
                dealt.receipts@[i],
            )
    }

    /// Whether the receipt of a share could not be signed, in these words.
    pub open spec fn unsigned<S: Fn(&SigningKey, &Vec<u8>) -> Result<Signature, String>>(
        self,
        sign: S,
        indices: Seq<usize>,
        positions: Seq<nat>,
        shares: Seq<i128>,
        at: int,
        words: Seq<char>,
    ) -> bool {
        &&& self.signing_key is Some
        &&& 0 <= at < self.n_nodes
        &&& signs(
            sign,
            self.signing_key->0,
            dealt_text(self.name@, indices[at] as nat, positions[at], shares[at] as int),
            Err(words),
        )
    }

    /// Whether a value cannot be dealt, and why: it cannot be split, or the
    /// receipt of one of its shares could not be signed.
    pub open spec fn not_dealt<S: Fn(&SigningKey, &Vec<u8>) -> Result<Signature, String>>(
        self,
        sign: S,
        value: i128,
        indices: Seq<usize>,
        positions: Seq<nat>,
        drawn: Seq<u64>,
        error: RoleError,
    ) -> bool {
        match split_refusal(value, self.n_nodes, self.value_bits, drawn) {
            Some(e) => error == e,
            None => error matches RoleError::Signing(words) && exists|shares: Seq<i128>, at: int|
                split_as(shares, value as int, self.n_nodes, self.value_bits, drawn) && #[trigger] self.unsigned(
                    sign,
                    indices,
                    positions,
                    shares,
                    at,
                    words@,
                ),
        }
    }

    /// Splits one value and has every share's receipt signed, before any node
    /// receives anything.
    #[verifier::loop_isolation(false)]
    pub fn deal_value<S: Fn(&SigningKey, &Vec<u8>) -> Result<Signature, String>>(
        &self,
        value: i128,
        indices: &Vec<usize>,
        positions: &Vec<usize>,
        drawn: &[u64],
        sign: &S,
    ) -> (r: Result<Dealt, RoleError>)
        requires
            can_sign(*sign),
            indices@.len() == self.n_nodes,
            positions@.len() == self.n_nodes,
            self.n_nodes >= 2 ==> drawn@.len() >= 2 * (self.n_nodes - 1),
        ensures
            match r {
                Ok(dealt) => self.dealt(
                    *sign,
                    value,
                    indices@,
                    positions@.map_values(|p: usize| p as nat),
                    drawn@,
                    dealt,
                ),
                Err(e) => self.not_dealt(
                    *sign,
                    value,
                    indices@,
                    positions@.map_values(|p: usize| p as nat),
                    drawn@,
                    e,
                ),
            },
    {
        let shares = match split(value, self.n_nodes, self.value_bits, drawn) {
            Err(e) => {
                return Err(e);
            },
            Ok(shares) => shares,
        };
        let mut receipts: Vec<Option<Signature>> = Vec::new();
        let mut i: usize = 0;
        while i < self.n_nodes
            invariant
                i <= self.n_nodes,
                receipts@.len() == i,
                forall|j: int|
                    #![trigger receipts@[j]]
                    0 <= j < i ==> receipted(
                        *sign,
                        self.signing_key,
                        dealt_text(self.name@, indices@[j] as nat, positions@[j] as nat, shares@[j] as int),
                        receipts@[j],
                    ),
            decreases self.n_nodes - i,
        {
            match &self.signing_key {
                None => {
                    receipts.push(None);
                },
                Some(key) => {
                    let body = dealt_body(self.name.as_str(), indices[i], positions[i], shares[i]);
                    match make_signature(sign, key, &body) {
                        Err(e) => {
                            assert(self.unsigned(
                                *sign,
                                indices@,
                                positions@.map_values(|p: usize| p as nat),
                                shares@,
                                i as int,
                                e@,
                            ));
                            assert(split_refusal(value, self.n_nodes, self.value_bits, drawn@) is None);
                            assert(split_as(shares@, value as int, self.n_nodes, self.value_bits, drawn@));
                            let error = RoleError::Signing(e);
                            assert(error->Signing_0 == e);
                            assert(self.not_dealt(
                                *sign,
                                value,
                                indices@,
                                positions@.map_values(|p: usize| p as nat),
                                drawn@,
                                error,
                            ));
                            return Err(error);
                        },
                        Ok(signature) => {
                            receipts.push(Some(signature));
                        },
                    }
                },
            }
            i = i + 1;
        }
        Ok(Dealt { shares, receipts })
    }

    /// Deals values over nodes, or nothing: where one value cannot be dealt, no
    /// node has received anything. `drawn` are the random words of each value.
    #[verifier::loop_isolation(false)]
    pub fn deal<S: Fn(&SigningKey, &Vec<u8>) -> Result<Signature, String>>(
        &self,
        values: &[i128],
        nodes: &mut Vec<ComputingNode>,
        drawn: &Vec<Vec<u64>>,
        sign: &S,
    ) -> (r: Result<(), RoleError>)
        requires
            can_sign(*sign),
            drawn@.len() >= values@.len(),
            forall|i: int|
                0 <= i < drawn@.len() && self.n_nodes >= 2 ==> (#[trigger] drawn@[i])@.len() >= 2 * (self.n_nodes - 1),
            forall|i: int|
                0 <= i < old(nodes)@.len() ==> (#[trigger] old(nodes)@[i]).inputs@.len() + values@.len() <= usize::MAX,
        ensures
            match r {
                Ok(_) => {
                    &&& old(nodes)@.len() == self.n_nodes
                    &&& exists|dealt: Seq<Dealt>| #[trigger]
                        self.all_dealt(*sign, values@, old(nodes)@, drawn@, dealt) && dealt.len() == values@.len()
                            && received(old(nodes)@, dealt, final(nodes)@)
                },
                Err(e) => {
                    &&& final(nodes)@ == old(nodes)@
                    &&& if old(nodes)@.len() != self.n_nodes {
                        e == RoleError::NodeShape
                    } else {
                        exists|dealt: Seq<Dealt>| #[trigger]
                            self.all_dealt(*sign, values@, old(nodes)@, drawn@, dealt) && dealt.len() < values@.len()
                                && self.not_dealt(
                                *sign,
                                values@[dealt.len() as int],
                                node_indices(old(nodes)@),
                                node_positions(old(nodes)@, dealt.len()),
                                drawn@[dealt.len() as int]@,
                                e,
                            )
                    }
                },
            },
    {
        if nodes.len() != self.n_nodes {
            return Err(RoleError::NodeShape);
        }
        let ghost before = nodes@;
        let mut indices: Vec<usize> = Vec::new();
        let mut held: Vec<usize> = Vec::new();
        let mut i: usize = 0;
        while i < nodes.len()
            invariant
                i <= nodes@.len(),
                nodes@ == before,
                indices@.len() == i,
                held@.len() == i,
                forall|j: int| 0 <= j < i ==> #[trigger] indices@[j] == before[j].index,
                forall|j: int| 0 <= j < i ==> #[trigger] held@[j] == before[j].inputs@.len(),
            decreases nodes@.len() - i,
        {
            indices.push(nodes[i].index);
            held.push(nodes[i].inputs.len());
            i = i + 1;
        }
        let mut dealt: Vec<Dealt> = Vec::new();
        let mut k: usize = 0;
        while k < values.len()
            invariant
                k <= values@.len(),
                nodes@ == before,
                dealt@.len() == k,
                forall|j: int|
                    #![trigger dealt@[j]]
                    0 <= j < k ==> self.dealt(
                        *sign,
                        values@[j],
                        node_indices(before),
                        node_positions(before, j as nat),
                        drawn@[j]@,
                        dealt@[j],
                    ),
            decreases values@.len() - k,
        {
            let mut positions: Vec<usize> = Vec::new();
            let mut n: usize = 0;
            while n < self.n_nodes
                invariant
                    n <= self.n_nodes,
                    positions@.len() == n,
                    forall|j: int| 0 <= j < n ==> #[trigger] positions@[j] == before[j].inputs@.len() + k,
                decreases self.n_nodes - n,
            {
                assert(before[n as int].inputs@.len() + values@.len() <= usize::MAX);
                positions.push(held[n] + k);
                n = n + 1;
            }
            assert(indices@ =~= node_indices(before));
            assert(positions@.map_values(|p: usize| p as nat) =~= node_positions(before, k as nat));
            match self.deal_value(values[k], &indices, &positions, drawn[k].as_slice(), sign) {
                Err(e) => {
                    assert(self.all_dealt(*sign, values@, before, drawn@, dealt@));
                    return Err(e);
                },
                Ok(one) => {
                    dealt.push(one);
                },
            }
            k = k + 1;
        }
        let ghost all = dealt@;
        assert(self.all_dealt(*sign, values@, before, drawn@, all));
        k = 0;
        assert(received_up_to(before, all, 0, nodes@));
        while k < dealt.len()
            invariant
                k <= dealt@.len(),
                dealt@ == all,
                received_up_to(before, all, k as nat, nodes@),
            decreases dealt@.len() - k,
        {
            let ghost start = nodes@;
            let mut n: usize = 0;
            while n < self.n_nodes
                invariant
                    n <= self.n_nodes,
                    dealt@ == all,
                    k < all.len(),
                    nodes@.len() == before.len(),
                    start.len() == before.len(),
                    received_up_to(before, all, k as nat, start),
                    forall|j: int| n <= j < self.n_nodes ==> #[trigger] nodes@[j] == start[j],
                    forall|j: int|
                        #![trigger nodes@[j]]
                        0 <= j < n ==> holds_dealt(before[j], all, j, (k + 1) as nat, nodes@[j]),
                decreases self.n_nodes - n,
            {
                assert(self.dealt(
                    *sign,
                    values@[k as int],
                    node_indices(before),
                    node_positions(before, k as nat),
                    drawn@[k as int]@,
                    all[k as int],
                ));
                let receipt = match &dealt[k].receipts[n] {
                    None => None,
                    Some(signature) => Some(signature.copy()),
                };
                let share: i128 = dealt[k].shares[n];
                let ghost was = nodes@[n as int];
                assert(holds_dealt(before[n as int], all, n as int, k as nat, start[n as int]));
                nodes[n].receive(share, receipt);
                proof {
                    let now = nodes@[n as int];
                    assert(receipts_said(now.receipts@) =~= receipts_said(was.receipts@).push(receipt_said(receipt)));
                    assert(dealt_shares(all, n as int, (k + 1) as nat) =~= dealt_shares(all, n as int,
                        k as nat).push(share));
                    assert(dealt_receipts(all, n as int, (k + 1) as nat) =~= dealt_receipts(all, n as int,
                        k as nat).push(
                        receipt_said(receipt),
                    ));
                    assert(now.inputs@ =~= before[n as int].inputs@ + dealt_shares(all, n as int, (k + 1) as nat));
                    assert(receipts_said(now.receipts@) =~= receipts_said(before[n as int].receipts@) + dealt_receipts(
                        all,
                        n as int,
                        (k + 1) as nat,
                    ));
                    assert(holds_dealt(before[n as int], all, n as int, (k + 1) as nat, now));
                }
                n = n + 1;
            }
            k = k + 1;
        }
        Ok(())
    }

    /// Whether values were dealt to the nodes, the first of them one after the other.
    pub open spec fn all_dealt<S: Fn(&SigningKey, &Vec<u8>) -> Result<Signature, String>>(
        self,
        sign: S,
        values: Seq<i128>,
        nodes: Seq<ComputingNode>,
        drawn: Seq<Vec<u64>>,
        dealt: Seq<Dealt>,
    ) -> bool {
        &&& dealt.len() <= values.len()
        &&& forall|j: int|
            #![trigger dealt[j]]
            0 <= j < dealt.len() ==> self.dealt(
                sign,
                values[j],
                node_indices(nodes),
                node_positions(nodes, j as nat),
                drawn[j]@,
                dealt[j],
            )
    }
}

/// The numbers of nodes.
pub open spec fn node_indices(nodes: Seq<ComputingNode>) -> Seq<usize> {
    nodes.map_values(|n: ComputingNode| n.index)
}

/// Where the next shares of nodes go after `more` others.
pub open spec fn node_positions(nodes: Seq<ComputingNode>, more: nat) -> Seq<nat> {
    nodes.map_values(|n: ComputingNode| n.inputs@.len() + more)
}

/// A node's shares of the first `count` values.
pub open spec fn dealt_shares(dealt: Seq<Dealt>, node: int, count: nat) -> Seq<i128> {
    Seq::new(count, |k: int| dealt[k].shares@[node])
}

/// A node's receipts of the first `count` values.
pub open spec fn dealt_receipts(dealt: Seq<Dealt>, node: int, count: nat) -> Seq<Option<Seq<u8>>> {
    Seq::new(count, |k: int| receipt_said(dealt[k].receipts@[node]))
}

/// Whether a node holds what it held before and its part of the first `count` values.
pub open spec fn holds_dealt(
    before: ComputingNode,
    dealt: Seq<Dealt>,
    node: int,
    count: nat,
    after: ComputingNode,
) -> bool {
    &&& after.index == before.index
    &&& after.inputs@ == before.inputs@ + dealt_shares(dealt, node, count)
    &&& receipts_said(after.receipts@) == receipts_said(before.receipts@) + dealt_receipts(dealt, node, count)
}

/// Whether all nodes hold their parts of the first `count` values.
pub open spec fn received_up_to(
    before: Seq<ComputingNode>,
    dealt: Seq<Dealt>,
    count: nat,
    after: Seq<ComputingNode>,
) -> bool {
    &&& after.len() == before.len()
    &&& forall|i: int| #![trigger after[i]] 0 <= i < after.len() ==> holds_dealt(before[i], dealt, i, count, after[i])
}

/// Whether all nodes hold their parts of all values.
pub open spec fn received(before: Seq<ComputingNode>, dealt: Seq<Dealt>, after: Seq<ComputingNode>) -> bool {
    received_up_to(before, dealt, dealt.len(), after)
}

/// Whether a position of a node has a receipt.
pub open spec fn has_receipt(node: ComputingNode, position: int) -> bool {
    position < node.receipts@.len() && node.receipts@[position] is Some
}

/// Whether a claimed share at a position is not the one that was signed for.
pub open spec fn disowned<V: Fn(&VerifyingKey, &Vec<u8>, &Signature) -> bool>(
    node: ComputingNode,
    dealer: Seq<char>,
    key: VerifyingKey,
    claimed: Seq<i128>,
    verify: V,
    position: int,
    refused: bool,
) -> bool {
    answers(
        verify,
        key,
        dealt_text(dealer, node.index as nat, position as nat, claimed[position] as int),
        (node.receipts@[position]->0)@,
        !refused,
    )
}

/// Whether positions are those with a receipt whose signature does not hold, among the first.
pub open spec fn disputed<V: Fn(&VerifyingKey, &Vec<u8>, &Signature) -> bool>(
    node: ComputingNode,
    dealer: Seq<char>,
    key: VerifyingKey,
    claimed: Seq<i128>,
    verify: V,
    count: nat,
    found: Seq<usize>,
) -> bool
    decreases count,
{
    if count == 0 {
        found.len() == 0
    } else if has_receipt(node, count - 1) {
        ||| found.len() > 0 && found.last() == count - 1 && disowned(node, dealer, key, claimed, verify, count - 1,
            true)
            && disputed(node, dealer, key, claimed, verify, (count - 1) as nat, found.drop_last())
        ||| disowned(node, dealer, key, claimed, verify, count - 1, false) && disputed(
            node,
            dealer,
            key,
            claimed,
            verify,
            (count - 1) as nat,
            found,
        )
    } else {
        disputed(node, dealer, key, claimed, verify, (count - 1) as nat, found)
    }
}

/// The positions without a receipt, among the first.
pub open spec fn unreceipted(node: ComputingNode, count: nat) -> Seq<int>
    decreases count,
{
    if count == 0 {
        Seq::empty()
    } else if has_receipt(node, count - 1) {
        unreceipted(node, (count - 1) as nat)
    } else {
        unreceipted(node, (count - 1) as nat).push(count - 1)
    }
}

/// Whether positions are those that an audit finds.
pub open spec fn audited<V: Fn(&VerifyingKey, &Vec<u8>, &Signature) -> bool>(
    node: ComputingNode,
    dealer: Seq<char>,
    key: VerifyingKey,
    claimed: Seq<i128>,
    verify: V,
    positions: Seq<usize>,
) -> bool {
    exists|bad: Seq<usize>| #[trigger]
        disputed(node, dealer, key, claimed, verify, claimed.len(), bad) && positions.map_values(|p: usize| p as int)
            == bad.map_values(|p: usize| p as int) + unreceipted(node, claimed.len())
}

/// The positions at which a node claims a share that its dealer did not sign for:
/// first those with a receipt that does not hold, then those without one.
pub fn audit_node<V: Fn(&VerifyingKey, &Vec<u8>, &Signature) -> bool>(
    node: &ComputingNode,
    dealer: &str,
    verifying_key: &VerifyingKey,
    claimed: &[i128],
    verify: &V,
) -> (positions: Vec<usize>)
    requires
        can_verify(*verify),
    ensures
        audited(*node, dealer@, *verifying_key, claimed@, *verify, positions@),
{
    let mut positions: Vec<usize> = Vec::new();
    let mut i: usize = 0;
    while i < claimed.len()
        invariant
            i <= claimed@.len(),
            can_verify(*verify),
            disputed(*node, dealer@, *verifying_key, claimed@, *verify, i as nat, positions@),
        decreases claimed@.len() - i,
    {
        if i < node.receipts.len() {
            if let Some(signature) = &node.receipts[i] {
                let body = dealt_body(dealer, node.index, i, claimed[i]);
                let ghost before = positions@;
                if !check_signature(verify, verifying_key, &body, signature) {
                    positions.push(i);
                    assert(positions@.drop_last() =~= before);
                }
            }
        }
        i = i + 1;
    }
    let ghost bad = positions@;
    let ghost start = bad.map_values(|p: usize| p as int);
    i = 0;
    assert(positions@.map_values(|p: usize| p as int) =~= start + unreceipted(*node, 0));
    while i < claimed.len()
        invariant
            i <= claimed@.len(),
            positions@.map_values(|p: usize| p as int) == start + unreceipted(*node, i as nat),
        decreases claimed@.len() - i,
    {
        let present = i < node.receipts.len() && node.receipts[i].is_some();
        if !present {
            let ghost before = positions@;
            positions.push(i);
            proof {
                assert(positions@.map_values(|p: usize| p as int) =~= before.map_values(|p: usize| p as int).push(i as int));
                assert(start + unreceipted(*node, (i + 1) as nat) =~= (start + unreceipted(*node,
                    i as nat)).push(i as int));
            }
        }
        i = i + 1;
    }
    positions
}

} // verus!
