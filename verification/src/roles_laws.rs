//! Sharing over nodes gives the value back.

use vstd::prelude::*;
use crate::roles::{
    coefficient_at_zero, differences, other_points, polynomial, shares_lie_on, sharing_polynomial, weighs_at_zero,
};
use crate::sharing::binomial;
use vstd::arithmetic::div_mod::{
    lemma_add_mod_noop, lemma_fundamental_div_mod, lemma_mod_add_multiples_vanish, lemma_mod_bound,
    lemma_mod_multiples_basic, lemma_mod_twice, lemma_mul_mod_noop, lemma_mul_mod_noop_left, lemma_mul_mod_noop_right,
    lemma_small_mod, lemma_sub_mod_noop,
};
use vstd::arithmetic::power::{lemma_pow0, lemma_pow1, lemma_pow_adds, pow};

verus! {

/// Whether a number is prime.
pub open spec fn is_prime(p: nat) -> bool {
    &&& p >= 2
    &&& forall|d: int| 1 < d < p ==> #[trigger] (p as int % d) != 0
}

/// Whether a positive number of copies of `b` makes a multiple of `p`.
spec fn clears(m: int, b: int, p: int) -> bool {
    m > 0 && (m * b) % p == 0
}

proof fn least_clearing(b: int, p: int, top: int) -> (m: int)
    requires
        p > 0,
        clears(top, b, p),
    ensures
        clears(m, b, p),
        m <= top,
        forall|j: int| 0 < j < m ==> !clears(j, b, p),
    decreases top,
{
    if exists|j: int| 0 < j < top && clears(j, b, p) {
        let j = choose|j: int| 0 < j < top && clears(j, b, p);
        least_clearing(b, p, j)
    } else {
        top
    }
}

/// The least clearing number divides every other.
proof fn least_divides(m: int, n: int, b: int, p: int)
    requires
        p > 0,
        clears(m, b, p),
        forall|j: int| 0 < j < m ==> !clears(j, b, p),
        n >= 0,
        (n * b) % p == 0,
    ensures
        n % m == 0,
{
    let r = n % m;
    let q = n / m;
    lemma_fundamental_div_mod(n, m);
    lemma_mod_bound(n, m);
    assert(r * b == n * b - q * (m * b)) by (nonlinear_arith)
        requires
            n == m * q + r,
    ;
    lemma_sub_mod_noop(n * b, q * (m * b), p);
    lemma_mul_mod_noop_right(q, m * b, p);
    assert(q * 0 == 0);
    lemma_small_mod(0, p as nat);
    assert((r * b) % p == 0);
    if r > 0 {
        assert(clears(r, b, p));
    }
}

/// A prime that divides a product divides a factor.
pub proof fn prime_divides(p: nat, a: int, b: int)
    requires
        is_prime(p),
        (a * b) % p as int == 0,
    ensures
        a % p as int == 0 || b % p as int == 0,
{
    let q = p as int;
    let c = a % q;
    lemma_mod_bound(a, q);
    if c != 0 {
        lemma_mul_mod_noop_left(a, b, q);
        assert((c * b) % q == 0);
        lemma_mod_multiples_basic(b, q);
        assert(q * b == b * q) by (nonlinear_arith);
        assert(clears(q, b, q));
        let m = least_clearing(b, q, q);
        least_divides(m, q, b, q);
        least_divides(m, c, b, q);
        if m == 1 {
            assert(1 * b == b);
        } else if m < q {
            assert(q % m != 0);
        } else {
            lemma_small_mod(c as nat, p);
        }
    }
}

/// Binomial coefficients beyond the row are zero.
proof fn binomial_beyond(n: nat, k: nat)
    requires
        k > n,
    ensures
        binomial(n, k) == 0,
    decreases n,
{
    if n > 0 {
        binomial_beyond((n - 1) as nat, (k - 1) as nat);
        binomial_beyond((n - 1) as nat, k);
    }
}

/// The last binomial coefficient of a row is one.
proof fn binomial_full(n: nat)
    ensures
        binomial(n, n) == 1,
    decreases n,
{
    if n > 0 {
        binomial_full((n - 1) as nat);
        binomial_beyond((n - 1) as nat, n);
    }
}

/// Taking one out of a chosen group.
proof fn binomial_absorbs(n: nat, k: nat)
    requires
        n >= 1,
        k >= 1,
    ensures
        k * binomial(n, k) == n * binomial((n - 1) as nat, (k - 1) as nat),
    decreases n,
{
    let m = (n - 1) as nat;
    let j = (k - 1) as nat;
    assert(binomial(n, k) == binomial(m, j) + binomial(m, k));
    if m == 0 {
        binomial_beyond(0, k);
        if k > 1 {
            binomial_beyond(0, j);
        }
        assert(k * binomial(n, k) == n * binomial(m, j)) by (nonlinear_arith)
            requires
                n == 1,
                binomial(n, k) == binomial(m, j),
                k == 1 || binomial(m, j) == 0,
        ;
    } else {
        binomial_absorbs(m, k);
        let below = (m - 1) as nat;
        if j >= 1 {
            binomial_absorbs(m, j);
            let x = binomial(m, j) as int;
            let y = binomial(m, k) as int;
            let u = binomial(below, (j - 1) as nat) as int;
            let v = binomial(below, j) as int;
            assert(x == u + v);
            assert(k * (x + y) == n * x) by (nonlinear_arith)
                requires
                    x == u + v,
                    j * x == m * u,
                    k * y == m * v,
                    k == j + 1,
                    n == m + 1,
            ;
        } else {
            assert(k == 1);
            let y = binomial(m, 1) as int;
            assert(binomial(m, 0) == 1);
            assert(binomial(below, 0) == 1);
            assert(y == m) by (nonlinear_arith)
                requires
                    k * y == m * binomial(below, 0),
                    k == 1,
                    binomial(below, 0) == 1,
            ;
            assert(k * (1 + y) == n * 1) by (nonlinear_arith)
                requires
                    k == 1,
                    y == m,
                    n == m + 1,
            ;
        }
    }
}

/// A prime divides the binomial coefficients inside its row.
proof fn prime_divides_binomial(p: nat, k: nat)
    requires
        is_prime(p),
        0 < k < p,
    ensures
        binomial(p, k) as int % p as int == 0,
{
    binomial_absorbs(p, k);
    let c = binomial((p - 1) as nat, (k - 1) as nat) as int;
    lemma_mod_multiples_basic(c, p as int);
    assert(p as int * c == c * p as int) by (nonlinear_arith);
    assert((k as int * binomial(p, k) as int) % p as int == 0);
    prime_divides(p, k as int, binomial(p, k) as int);
    lemma_small_mod(k, p);
}

/// The first terms of the expansion of a power of `a + 1`.
spec fn expansion(n: nat, a: int, terms: nat) -> int
    decreases terms,
{
    if terms == 0 {
        0
    } else {
        expansion(n, a, (terms - 1) as nat) + binomial(n, (terms - 1) as nat) * pow(a, (terms - 1) as nat)
    }
}

proof fn expansion_step(n: nat, a: int, terms: nat)
    requires
        terms >= 1,
    ensures
        expansion(n + 1, a, terms) == expansion(n, a, terms) + a * expansion(n, a, (terms - 1) as nat),
    decreases terms,
{
    if terms == 1 {
        assert(expansion(n + 1, a, 1) == expansion(n + 1, a, 0) + binomial(n + 1, 0) * pow(a, 0));
        assert(expansion(n, a, 1) == expansion(n, a, 0) + binomial(n, 0) * pow(a, 0));
        assert(binomial(n + 1, 0) == 1 && binomial(n, 0) == 1);
        assert(a * 0 == 0);
    } else {
        let k = (terms - 1) as nat;
        expansion_step(n, a, k);
        lemma_pow_adds(a, 1, (k - 1) as nat);
        lemma_pow1(a);
        let low = pow(a, (k - 1) as nat);
        let high = pow(a, k);
        let c = binomial(n, k) as int;
        let d = binomial(n, (k - 1) as nat) as int;
        let e1 = expansion(n, a, (k - 1) as nat);
        assert(binomial(n + 1, k) == d + c);
        assert((d + c) * high == c * high + a * (d * low)) by (nonlinear_arith)
            requires
                high == a * low,
        ;
        assert(a * (e1 + d * low) == a * e1 + a * (d * low)) by (nonlinear_arith);
    }
}

/// The binomial theorem for `a + 1`.
proof fn binomial_theorem(n: nat, a: int)
    ensures
        pow(a + 1, n) == expansion(n, a, n + 1),
    decreases n,
{
    if n == 0 {
        lemma_pow0(a + 1);
        lemma_pow0(a);
        assert(expansion(0, a, 1) == expansion(0, a, 0) + binomial(0, 0) * pow(a, 0));
    } else {
        let m = (n - 1) as nat;
        binomial_theorem(m, a);
        lemma_pow_adds(a + 1, 1, m);
        lemma_pow1(a + 1);
        expansion_step(m, a, n + 1);
        binomial_beyond(m, n);
        assert(expansion(m, a, n + 1) == expansion(m, a, n) + binomial(m, n) * pow(a, n));
        assert(0 * pow(a, n) == 0);
        let e = expansion(m, a, n);
        assert((a + 1) * e == e + a * e) by (nonlinear_arith);
    }
}

/// Modulo a prime, the inner terms of the expansion of its power vanish.
proof fn expansion_vanishes(p: nat, a: int, terms: nat)
    requires
        is_prime(p),
        1 <= terms <= p,
    ensures
        expansion(p, a, terms) % p as int == 1,
    decreases terms,
{
    let q = p as int;
    if terms == 1 {
        lemma_pow0(a);
        assert(expansion(p, a, 1) == expansion(p, a, 0) + binomial(p, 0) * pow(a, 0));
        lemma_small_mod(1, p);
    } else {
        let k = (terms - 1) as nat;
        expansion_vanishes(p, a, k);
        prime_divides_binomial(p, k);
        let term = binomial(p, k) * pow(a, k);
        lemma_mul_mod_noop_left(binomial(p, k) as int, pow(a, k), q);
        assert(0 * pow(a, k) == 0);
        lemma_small_mod(0, p);
        lemma_add_mod_noop(expansion(p, a, k), term, q);
        lemma_small_mod(1, p);
    }
}

/// A number and its power to a prime have one residue.
proof fn power_to_prime(p: nat, a: nat)
    requires
        is_prime(p),
    ensures
        pow(a as int, p) % p as int == a as int % p as int,
    decreases a,
{
    let q = p as int;
    if a == 0 {
        vstd::arithmetic::power::lemma0_pow(p);
    } else {
        let b = (a - 1) as nat;
        power_to_prime(p, b);
        binomial_theorem(p, b as int);
        expansion_vanishes(p, b as int, p);
        binomial_full(p);
        let head = expansion(p, b as int, p);
        let last = pow(b as int, p);
        assert(pow(a as int, p) == head + 1 * last);
        lemma_add_mod_noop(head, last, q);
        lemma_add_mod_noop(1, b as int, q);
        lemma_small_mod(1, p);
    }
}

/// Fermat's little theorem.
pub proof fn fermat(p: nat, a: nat)
    requires
        is_prime(p),
        a as int % p as int != 0,
    ensures
        pow(a as int, (p - 1) as nat) % p as int == 1,
{
    let q = p as int;
    let power = pow(a as int, (p - 1) as nat);
    power_to_prime(p, a);
    lemma_pow_adds(a as int, 1, (p - 1) as nat);
    lemma_pow1(a as int);
    assert(a * power - a == a * (power - 1)) by (nonlinear_arith);
    lemma_sub_mod_noop(a * power, a as int, q);
    lemma_small_mod(0, p);
    assert((a * (power - 1)) % q == 0);
    prime_divides(p, a as int, power - 1);
    lemma_add_mod_noop(power - 1, 1, q);
    lemma_small_mod(1, p);
}

/// Plus or minus one.
pub open spec fn sign(j: nat) -> int {
    if j % 2 == 0 {
        1
    } else {
        -1
    }
}

/// The alternating sum of a row's coefficients times a polynomial's values.
spec fn alternating(n: nat, c: Seq<int>, shift: int, count: nat) -> int
    decreases count,
{
    if count == 0 {
        0
    } else {
        alternating(n, c, shift, (count - 1) as nat) + sign((count - 1) as nat) * binomial(n, (count - 1) as nat)
            * polynomial(c, count - 1 + shift)
    }
}

/// The same with each value multiplied by its place.
spec fn placed(n: nat, c: Seq<int>, shift: int, count: nat) -> int
    decreases count,
{
    if count == 0 {
        0
    } else {
        placed(n, c, shift, (count - 1) as nat) + sign((count - 1) as nat) * binomial(n, (count - 1) as nat) * ((count
            - 1) * polynomial(c, count - 1 + shift))
    }
}

/// The alternating sum of a row's coefficients alone.
spec fn plain_sum(n: nat, count: nat) -> int
    decreases count,
{
    if count == 0 {
        0
    } else {
        plain_sum(n, (count - 1) as nat) + sign((count - 1) as nat) * binomial(n, (count - 1) as nat)
    }
}

proof fn plain_sum_telescopes(n: nat, count: nat)
    requires
        n >= 1,
        count >= 1,
    ensures
        plain_sum(n, count) == sign((count - 1) as nat) * binomial((n - 1) as nat, (count - 1) as nat),
    decreases count,
{
    let m = (n - 1) as nat;
    if count == 1 {
        assert(plain_sum(n, 1) == plain_sum(n, 0) + sign(0) * binomial(n, 0));
        assert(binomial(n, 0) == 1 && binomial(m, 0) == 1);
    } else {
        let k = (count - 1) as nat;
        plain_sum_telescopes(n, k);
        let a = binomial(m, (k - 1) as nat) as int;
        let b = binomial(m, k) as int;
        assert(binomial(n, k) == a + b);
        assert(sign(k) == -sign((k - 1) as nat));
        let s = sign(k);
        assert(-s * a + s * (a + b) == s * b) by (nonlinear_arith);
    }
}

proof fn parts_add_up(n: nat, c: Seq<int>, shift: int, count: nat)
    requires
        c.len() > 0,
    ensures
        alternating(n, c, shift, count) == c[0] * plain_sum(n, count) + shift * alternating(n, c.skip(1), shift, count)
            + placed(n, c.skip(1), shift, count),
    decreases count,
{
    let g = c.skip(1);
    if count == 0 {
        assert(c[0] * 0 == 0 && shift * 0 == 0);
    } else {
        let k = (count - 1) as nat;
        parts_add_up(n, c, shift, k);
        let w = sign(k) * binomial(n, k);
        let v = polynomial(g, k + shift);
        let a0 = c[0];
        let x = plain_sum(n, k);
        let y = alternating(n, g, shift, k);
        assert(polynomial(c, k + shift) == a0 + (k + shift) * v);
        assert(w * (a0 + (k + shift) * v) == a0 * w + shift * (w * v) + w * (k * v)) by (nonlinear_arith);
        assert(a0 * (x + w) == a0 * x + a0 * w) by (nonlinear_arith);
        assert(shift * (y + w * v) == shift * y + shift * (w * v)) by (nonlinear_arith);
        assert(sign(k) * binomial(n, k) * polynomial(c, k + shift) == w * (a0 + (k + shift) * v));
        assert(sign(k) * binomial(n, k) * v == w * v);
    }
}

proof fn placed_is_shifted(n: nat, c: Seq<int>, shift: int, count: nat)
    requires
        n >= 1,
        count >= 1,
    ensures
        placed(n, c, shift, count) == -(n as int) * alternating((n - 1) as nat, c, shift + 1, (count - 1) as nat),
    decreases count,
{
    let m = (n - 1) as nat;
    if count == 1 {
        assert(placed(n, c, shift, 1) == placed(n, c, shift, 0) + sign(0) * binomial(n, 0) * (0 * polynomial(c,
            shift)));
        assert(0 * polynomial(c, shift) == 0);
        assert(sign(0) * binomial(n, 0) * 0 == 0);
        assert(-(n as int) * 0 == 0);
    } else {
        let k = (count - 1) as nat;
        placed_is_shifted(n, c, shift, k);
        binomial_absorbs(n, k);
        let v = polynomial(c, k + shift);
        let b = binomial(n, k) as int;
        let d = binomial(m, (k - 1) as nat) as int;
        let s = sign((k - 1) as nat);
        assert(sign(k) == -s);
        assert(polynomial(c, (k - 1) + (shift + 1)) == v);
        let before = alternating(m, c, shift + 1, (k - 1) as nat);
        assert(alternating(m, c, shift + 1, k) == before + s * d * v);
        assert(-s * b * (k * v) == -(n as int) * (s * d * v)) by (nonlinear_arith)
            requires
                k * b == n * d,
        ;
        assert(-(n as int) * (before + s * d * v) == -(n as int) * before + -(n as int) * (s * d * v))
            by (nonlinear_arith);
    }
}

/// The alternating sum of a polynomial of lower degree is zero.
proof fn alternating_is_zero(n: nat, c: Seq<int>, shift: int)
    requires
        c.len() <= n,
    ensures
        alternating(n, c, shift, n + 1) == 0,
    decreases n, c.len(),
{
    if c.len() == 0 {
        alternating_of_nothing(n, c, shift, n + 1);
    } else {
        let g = c.skip(1);
        let m = (n - 1) as nat;
        parts_add_up(n, c, shift, n + 1);
        plain_sum_telescopes(n, n + 1);
        binomial_beyond(m, n);
        assert(sign(n) * 0 == 0);
        alternating_is_zero(n, g, shift);
        placed_is_shifted(n, g, shift, n + 1);
        alternating_is_zero(m, g, shift + 1);
        assert(c[0] * 0 == 0 && shift * 0 == 0 && -(n as int) * 0 == 0);
    }
}

proof fn alternating_of_nothing(n: nat, c: Seq<int>, shift: int, count: nat)
    requires
        c.len() == 0,
    ensures
        alternating(n, c, shift, count) == 0,
    decreases count,
{
    if count > 0 {
        alternating_of_nothing(n, c, shift, (count - 1) as nat);
        let k = (count - 1) as nat;
        assert(polynomial(c, k + shift) == 0);
        assert(sign(k) * binomial(n, k) * 0 == 0);
    }
}

/// The coefficient of a point in the interpolation at zero, as a whole number.
pub open spec fn whole_coefficient(n: nat, point: nat) -> int {
    -sign(point) * binomial(n, point)
}

/// The product of the differences from the points below.
spec fn falling(point: int, count: nat) -> int
    decreases count,
{
    if count == 0 {
        1
    } else {
        falling(point, (count - 1) as nat) * (point - count)
    }
}

/// The product of minus the points from one on.
spec fn negatives(count: nat) -> int
    decreases count,
{
    if count == 0 {
        1
    } else {
        negatives((count - 1) as nat) * (-(count as int))
    }
}

proof fn falling_steps(point: int, count: nat)
    ensures
        falling(point + 1, count + 1) == point * falling(point, count),
    decreases count,
{
    if count == 0 {
        assert(falling(point + 1, 1) == falling(point + 1, 0) * (point + 1 - 1));
        assert(1 * point == point * 1);
    } else {
        let k = (count - 1) as nat;
        falling_steps(point, k);
        let f = falling(point, k);
        assert(falling(point + 1, count + 1) == falling(point + 1, count) * (point - count));
        assert((point * f) * (point - count) == point * (f * (point - count))) by (nonlinear_arith);
    }
}

proof fn falling_is_negatives(point: nat)
    requires
        point >= 1,
    ensures
        negatives((point - 1) as nat) == -sign(point) * falling(point as int, (point - 1) as nat),
    decreases point,
{
    if point > 1 {
        let below = (point - 1) as nat;
        falling_is_negatives(below);
        falling_steps(below as int, (below - 1) as nat);
        let f = falling(below as int, (below - 1) as nat);
        let s = sign(below);
        assert(sign(point) == -s);
        assert(negatives(below) == negatives((below - 1) as nat) * (-(below as int)));
        assert((-s * f) * (-(below as int)) == s * (below * f)) by (nonlinear_arith);
    }
}

proof fn products_below(point: nat, count: nat)
    requires
        count < point,
    ensures
        other_points(point as int, count) == negatives(count),
        differences(point as int, count) == falling(point as int, count),
    decreases count,
{
    if count > 0 {
        products_below(point, (count - 1) as nat);
    }
}

/// The products that make a coefficient differ by exactly its whole number.
proof fn coefficient_is_whole(point: nat, n: nat)
    requires
        1 <= point <= n,
    ensures
        other_points(point as int, n) == differences(point as int, n) * whole_coefficient(n, point),
    decreases n,
{
    if n == point {
        let below = (point - 1) as nat;
        products_below(point, below);
        falling_is_negatives(point);
        binomial_full(point);
        let f = falling(point as int, below);
        let s = -sign(point);
        assert(s * f == f * (s * 1)) by (nonlinear_arith);
    } else {
        let m = (n - 1) as nat;
        coefficient_is_whole(point, m);
        let o = other_points(point as int, m);
        let d = differences(point as int, m);
        let s = -sign(point);
        let b = binomial(m, point) as int;
        let c = binomial(n, point) as int;
        binomial_absorbs(n, point);
        let e = binomial(m, (point - 1) as nat) as int;
        assert(c == e + b);
        assert(n * b == (n - point) * c) by (nonlinear_arith)
            requires
                c == e + b,
                point * c == n * e,
        ;
        assert((d * (s * b)) * (-(n as int)) == (d * (point - n)) * (s * c)) by (nonlinear_arith)
            requires
                n * b == (n - point) * c,
        ;
    }
}

/// The differences of points below a prime have a product that it does not divide.
proof fn differences_are_units(point: nat, count: nat, p: nat)
    requires
        is_prime(p),
        1 <= point < p,
        count < p,
    ensures
        differences(point as int, count) % p as int != 0,
    decreases count,
{
    let q = p as int;
    lemma_small_mod(1, p);
    if count > 0 {
        differences_are_units(point, (count - 1) as nat, p);
        if count != point {
            let factor = point - count;
            let rest = differences(point as int, (count - 1) as nat);
            if (rest * factor) % q == 0 {
                prime_divides(p, rest, factor);
                if factor > 0 {
                    lemma_small_mod(factor as nat, p);
                } else {
                    lemma_mod_add_multiples_vanish(factor, q);
                    lemma_small_mod((q + factor) as nat, p);
                }
            }
        }
    }
}

/// Modulo a prime that is greater than every point, an interpolation coefficient
/// is its whole number.
pub proof fn coefficient_residue(point: nat, n: nat, p: nat)
    requires
        is_prime(p),
        1 <= point <= n < p,
    ensures
        coefficient_at_zero(point as int, n, p) == whole_coefficient(n, point) % p as int,
{
    let q = p as int;
    let d = differences(point as int, n);
    let r = d % q;
    let w = whole_coefficient(n, point);
    coefficient_is_whole(point, n);
    differences_are_units(point, n, p);
    lemma_mod_bound(d, q);
    lemma_small_mod(r as nat, p);
    fermat(p, r as nat);
    let e = pow(r, (p - 2) as nat);
    lemma_pow_adds(r, 1, (p - 2) as nat);
    lemma_pow1(r);
    assert((r * e) % q == 1);
    lemma_mul_mod_noop_left(d, e, q);
    assert((d * e) % q == 1);
    assert((d * w) * e == (d * e) * w) by (nonlinear_arith);
    lemma_mul_mod_noop_left(d * e, w, q);
    assert(1 * w == w);
}

/// The weighted sum of the first `count` values.
pub open spec fn weighted(weights: Seq<u128>, values: Seq<u128>, count: nat) -> int
    decreases count,
{
    if count == 0 {
        0
    } else {
        weighted(weights, values, (count - 1) as nat) + weights[count - 1] * values[count - 1]
    }
}

/// The whole coefficients times a polynomial's values.
spec fn interpolated(n: nat, c: Seq<int>, count: nat) -> int
    decreases count,
{
    if count == 0 {
        0
    } else {
        interpolated(n, c, (count - 1) as nat) + whole_coefficient(n, count) * polynomial(c, count as int)
    }
}

proof fn interpolated_is_alternating(n: nat, c: Seq<int>, count: nat)
    ensures
        alternating(n, c, 0, count + 1) == polynomial(c, 0) - interpolated(n, c, count),
    decreases count,
{
    if count == 0 {
        assert(alternating(n, c, 0, 1) == alternating(n, c, 0, 0) + sign(0) * binomial(n, 0) * polynomial(c, 0));
        assert(binomial(n, 0) == 1);
        let v = polynomial(c, 0);
        assert(sign(0) * binomial(n, 0) * v == v) by (nonlinear_arith)
            requires
                sign(0) == 1,
                binomial(n, 0) == 1,
        ;
    } else {
        interpolated_is_alternating(n, c, (count - 1) as nat);
        let s = sign(count);
        let b = binomial(n, count) as int;
        let v = polynomial(c, count as int);
        assert(s * b * v == -((-s * b) * v)) by (nonlinear_arith);
    }
}

proof fn weighted_residue(
    n: nat,
    c: Seq<int>,
    p: nat,
    weights: Seq<u128>,
    values: Seq<u128>,
    count: nat,
)
    requires
        is_prime(p),
        n < p,
        count <= n,
        weights.len() == n,
        values.len() == n,
        forall|i: int| 0 <= i < n ==> #[trigger] weights[i] == coefficient_at_zero(i + 1, n, p),
        forall|i: int| 0 <= i < n ==> #[trigger] values[i] == polynomial(c, i + 1) % p as int,
    ensures
        weighted(weights, values, count) % p as int == interpolated(n, c, count) % p as int,
    decreases count,
{
    let q = p as int;
    if count > 0 {
        let k = (count - 1) as nat;
        weighted_residue(n, c, p, weights, values, k);
        coefficient_residue(count, n, p);
        let w = whole_coefficient(n, count);
        let v = polynomial(c, count as int);
        assert(weights[k as int] == w % q);
        assert(values[k as int] == v % q);
        lemma_mul_mod_noop(w, v, q);
        lemma_add_mod_noop(weighted(weights, values, k), weights[k as int] * values[k as int], q);
        lemma_add_mod_noop(interpolated(n, c, k), w * v, q);
    }
}

/// The coefficients that [`crate::roles::lagrange_at_zero`] gives interpolate: for
/// a prime that is greater than the number of nodes, the values of a polynomial
/// of degree below that number at the points from one on, weighted with them,
/// make the value at zero.
pub proof fn coefficients_interpolate(n: nat, c: Seq<int>, p: nat, weights: Seq<u128>, values: Seq<u128>)
    requires
        is_prime(p),
        n < p,
        c.len() <= n,
        weights.len() == n,
        values.len() == n,
        forall|i: int| 0 <= i < n ==> #[trigger] weights[i] == coefficient_at_zero(i + 1, n, p),
        forall|i: int| 0 <= i < n ==> #[trigger] values[i] == polynomial(c, i + 1) % p as int,
    ensures
        weighted(weights, values, n) % p as int == polynomial(c, 0) % p as int,
{
    weighted_residue(n, c, p, weights, values, n);
    interpolated_is_alternating(n, c, n);
    alternating_is_zero(n, c, 0);
}

/// The shares that [`crate::roles::shamir_split`] deals reconstruct the value:
/// weighted with the interpolation coefficients they make it, modulo the prime.
pub proof fn shamir_shares_reconstruct(
    value: u128,
    n: nat,
    threshold: nat,
    p: nat,
    drawn: Seq<u64>,
    weights: Seq<u128>,
    shares: Seq<u128>,
)
    requires
        is_prime(p),
        p <= u128::MAX,
        2 * threshold + 1 <= n < p,
        weighs_at_zero(weights, n, p),
        shares_lie_on(shares, sharing_polynomial(value, threshold, p, drawn), n, p),
    ensures
        weighted(weights, shares, n) % p as int == value as int % p as int,
{
    let c = sharing_polynomial(value, threshold, p, drawn);
    coefficients_interpolate(n, c, p, weights, shares);
    assert(polynomial(c, 0) == c[0] + 0 * polynomial(c.skip(1), 0));
    assert(0 * polynomial(c.skip(1), 0) == 0);
    lemma_mod_twice(value as int, p as int);
}

} // verus!
