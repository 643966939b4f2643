//! Lagrange coefficients at zero, resident shares, and commitments that combine.

use vstd::prelude::*;
use crate::bytes::{text_bytes, zero32};
use crate::decimal::{
    decimal_to_scalar, decimal_value, invert, is_decimal_bytes, multiply, negate, reduce_wide, residue_in_decimal,
    scalar_to_decimal, scalar_value,
};
use crate::group::{decodes_to_point, group_order, is_point, is_scalar, le_value, Point, Scalar};
use crate::text::{decimal, decimal_text};
use vstd::string::StringExecFns;

verus! {

/// How many ways there are to take `k` of `n` things.
pub open spec fn binomial(n: nat, k: nat) -> nat
    decreases n,
{
    if k == 0 {
        1
    } else if n == 0 {
        0
    } else {
        binomial((n - 1) as nat, (k - 1) as nat) + binomial((n - 1) as nat, k)
    }
}

/// The Lagrange coefficient at zero of the evaluation point `node + 1` among
/// the points `1..=n`: `n` over `node + 1`, with the sign of an even or odd `node`.
pub open spec fn lagrange_coefficient(node: nat, n: nat) -> int {
    if node % 2 == 0 {
        binomial(n, node + 1) as int
    } else {
        -binomial(n, node + 1)
    }
}

/// Stepping from one binomial coefficient to the next.
proof fn binomial_step(n: nat, k: nat)
    requires
        0 < k <= n,
    ensures
        binomial(n, k) * k == binomial(n, (k - 1) as nat) * (n - k + 1),
    decreases n,
{
    let m = (n - 1) as nat;
    let a = binomial(m, (k - 1) as nat) as int;
    let b = binomial(m, k) as int;
    if k <= m {
        binomial_step(m, k);
        assert(m - k + 1 == n - k);
        assert(b * k == a * (m - k + 1));
    } else {
        binomial_zero(m, k);
        assert(n - k == 0);
        assert(0 * k == 0 && a * 0 == 0) by (nonlinear_arith);
    }
    assert(b * k == a * (n - k));
    assert((a + b) * k == n * a) by (nonlinear_arith)
        requires
            b * k == a * (n - k),
    ;
    if k >= 2 {
        binomial_step(m, (k - 1) as nat);
        let c = binomial(m, (k - 2) as nat) as int;
        assert(a * (k - 1) == c * (n - k + 1));
        assert((c + a) * (n - k + 1) == n * a) by (nonlinear_arith)
            requires
                a * (k - 1) == c * (n - k + 1),
        ;
    } else {
        assert(binomial(n, 0) == 1);
        assert(a == 1);
    }
    assert(binomial(n, k) == a + b);
    assert(binomial(n, k) * k == n * a);
    if k >= 2 {
        let c = binomial(m, (k - 2) as nat) as int;
        assert((k - 1) as nat - 1 == k - 2);
        assert(binomial(n, (k - 1) as nat) == c + a);
        assert(binomial(n, (k - 1) as nat) * (n - k + 1) == n * a);
    } else {
        assert(binomial(n, (k - 1) as nat) * (n - k + 1) == n * a) by (nonlinear_arith)
            requires
                k == 1,
                a == 1,
                binomial(n, (k - 1) as nat) == 1,
        ;
    }
}

proof fn binomial_zero(n: nat, k: nat)
    requires
        k > n,
    ensures
        binomial(n, k) == 0,
    decreases n,
{
    if n > 0 {
        binomial_zero((n - 1) as nat, (k - 1) as nat);
        binomial_zero((n - 1) as nat, k);
    }
}

pub(crate) proof fn order_positive()
    ensures
        group_order() > 0x1_0000_0000_0000_0000,
{
    vstd::arithmetic::power2::lemma_pow2_pos(252);
}

/// The scalar of a small number.
pub fn small_scalar(value: u64) -> (scalar: Scalar)
    ensures
        is_scalar(scalar@),
        scalar_value(scalar@) == value,
{
    let mut wide: [u8; 64] = [0u8; 64];
    let mut rest: u64 = value;
    let mut i: usize = 0;
    assert(wide@.subrange(0, 64) =~= wide@);
    proof {
        zeros_value(wide@);
        assert(vstd::arithmetic::power::pow(256, 0) == 1) by {
            reveal(vstd::arithmetic::power::pow);
        }
        assert(wide@.take(0) =~= Seq::<u8>::empty());
    }
    while i < 8
        invariant
            i <= 8,
            forall|j: int| i <= j < 64 ==> wide@[j] == 0,
            value == le_value(wide@.take(i as int)) + rest * vstd::arithmetic::power::pow(256, i as nat),
        decreases 8 - i,
    {
        let ghost before = wide@;
        wide[i] = (rest % 256) as u8;
        proof {
            let p = vstd::arithmetic::power::pow(256, i as nat);
            reveal(vstd::arithmetic::power::pow);
            assert(vstd::arithmetic::power::pow(256, (i + 1) as nat) == 256 * p);
            assert(wide@.take(i as int + 1) =~= before.take(i as int).push((rest % 256) as u8));
            crate::decimal::le_value_push(before.take(i as int), (rest % 256) as u8);
            let low = (rest % 256) as int;
            let high = (rest / 256) as int;
            assert(rest * p == low * p + high * (256 * p)) by (nonlinear_arith)
                requires
                    rest == low + 256 * high,
            ;
        }
        rest = rest / 256;
        i = i + 1;
    }
    proof {
        let p = vstd::arithmetic::power::pow(256, 8);
        crate::bytes::be_widths();
        if rest >= 1 {
            assert(rest * p >= p) by (nonlinear_arith)
                requires
                    rest >= 1,
                    p > 0,
            ;
        }
        assert(rest == 0);
        tail_zeros(wide@, 8);
        order_positive();
        assert(value as int % group_order() as int == value) by {
            vstd::arithmetic::div_mod::lemma_small_mod(value as nat, group_order());
        }
    }
    reduce_wide(&wide)
}

proof fn zeros_value(bytes: Seq<u8>)
    requires
        forall|i: int| 0 <= i < bytes.len() ==> bytes[i] == 0,
    ensures
        le_value(bytes) == 0,
    decreases bytes.len(),
{
    if bytes.len() > 0 {
        zeros_value(bytes.drop_first());
    }
}

proof fn tail_zeros(bytes: Seq<u8>, at: int)
    requires
        0 <= at <= bytes.len(),
        forall|i: int| at <= i < bytes.len() ==> bytes[i] == 0,
    ensures
        le_value(bytes) == le_value(bytes.take(at)),
    decreases at,
{
    if at == 0 {
        zeros_value(bytes);
        assert(bytes.take(0) =~= Seq::<u8>::empty());
    } else {
        tail_zeros(bytes.drop_first(), at - 1);
        assert(bytes.take(at).drop_first() =~= bytes.drop_first().take(at - 1));
    }
}

/// Multiplying residues multiplies the numbers.
proof fn residues_multiply(a: int, x: int, b: int, y: int)
    requires
        a % group_order() as int == x % group_order() as int,
        b % group_order() as int == y % group_order() as int,
    ensures
        (a * b) % group_order() as int == (x * y) % group_order() as int,
{
    let l = group_order() as int;
    order_positive();
    vstd::arithmetic::div_mod::lemma_mul_mod_noop(a, b, l);
    vstd::arithmetic::div_mod::lemma_mul_mod_noop(x, y, l);
}

/// Lagrange coefficient at zero for the party `node`, whose Shamir evaluation
/// point is `node + 1`. The proof parties use the same convention.
pub fn node_lagrange_coefficient(node: u16, n_parties: u16) -> (r: Result<Scalar, String>)
    ensures
        r is Ok <==> node < n_parties,
        r matches Ok(scalar) ==> is_scalar(scalar@) && scalar_value(scalar@) as int == lagrange_coefficient(
            node as nat,
            n_parties as nat,
        ) % group_order() as int,
        r matches Err(e) ==> e@ == "MPC node index is outside the Lagrange coefficient table"@,
{
    if node >= n_parties {
        return Err("MPC node index is outside the Lagrange coefficient table".to_owned());
    }
    let ghost l = group_order() as int;
    let n: u64 = n_parties as u64;
    let mut product = small_scalar(1);
    let mut k: u64 = 0;
    proof {
        order_positive();
        vstd::arithmetic::div_mod::lemma_small_mod(1, group_order());
    }
    while k < node as u64 + 1
        invariant
            node < n_parties,
            n == n_parties as u64,
            k <= node as u64 + 1,
            l == group_order() as int,
            is_scalar(product@),
            scalar_value(product@) as int == binomial(n as nat, k as nat) as int % l,
        decreases node as u64 + 1 - k,
    {
        let next: u64 = k + 1;
        let factor = small_scalar(n - k);
        let divisor = small_scalar(next);
        let inverse = invert(&divisor);
        let times = multiply(&product, &factor);
        let after = multiply(&times, &inverse);
        proof {
            order_positive();
            let c0 = binomial(n as nat, k as nat) as int;
            let c1 = binomial(n as nat, next as nat) as int;
            let inv = scalar_value(inverse@) as int;
            let p = scalar_value(product@) as int;
            let t = scalar_value(times@) as int;
            binomial_step(n as nat, next as nat);
            assert(c1 * next == c0 * (n - k));
            vstd::arithmetic::div_mod::lemma_mod_twice(c0, l);
            residues_multiply(p, c0, (n - k) as int, (n - k) as int);
            // t = c0 (n - k) = c1 next
            assert(t % l == (c1 * next) % l) by {
                vstd::arithmetic::div_mod::lemma_mod_twice(p * (n - k), l);
            }
            residues_multiply(t, c1 * next, inv, inv);
            assert((c1 * next) * inv == c1 * (next * inv)) by (nonlinear_arith);
            vstd::arithmetic::div_mod::lemma_small_mod(1, group_order());
            residues_multiply(c1, c1, next * inv, 1);
            assert(scalar_value(after@) as int == c1 % l);
        }
        product = after;
        k = next;
    }
    if node % 2 == 1 {
        let negative = negate(&product);
        proof {
            let c = binomial(n as nat, (node + 1) as nat) as int;
            order_positive();
            assert((l - c % l) % l == (-c) % l) by {
                vstd::arithmetic::div_mod::lemma_sub_mod_noop_right(l, c, l);
                vstd::arithmetic::div_mod::lemma_mod_add_multiples_vanish(-c, l);
            }
        }
        Ok(negative)
    } else {
        Ok(product)
    }
}

/// How the compiled circuit combines the party inputs of one secret.
#[derive(Clone, Copy, Debug, PartialEq, Eq, Structural)]
pub enum InputSharing {
    /// The circuit multiplies party `p`'s input by its Lagrange coefficient, so
    /// the state stores raw Shamir evaluations.
    Shamir,
    /// The circuit sums the party inputs, so the state stores each Shamir
    /// evaluation already scaled by the node's Lagrange coefficient. Summing the
    /// stored values reconstructs the secret exactly as the Lagrange circuit
    /// would, without any node learning more than its own share.
    Additive,
}

/// What the resident state stores for an evaluation.
pub open spec fn resident_share(node: nat, n_parties: nat, sharing: InputSharing, evaluation: int) -> nat {
    match sharing {
        InputSharing::Shamir => (evaluation % group_order() as int) as nat,
        InputSharing::Additive => ((lagrange_coefficient(node, n_parties) * evaluation) % group_order() as int) as nat,
    }
}

/// Convert one Shamir evaluation, in decimal, into the value that the resident
/// state must store for the configured circuit.
pub fn resident_share_from_evaluation(node: u16, n_parties: u16, sharing: InputSharing, evaluation: &str) -> (r: Result<
    String,
    String,
>)
    ensures
        ({
            let bytes = text_bytes(evaluation@);
            if !is_decimal_bytes(bytes) {
                r matches Err(e) && e@ == "field element is not a canonical decimal"@
            } else if sharing == InputSharing::Additive && node >= n_parties {
                r matches Err(e) && e@ == "MPC node index is outside the Lagrange coefficient table"@
            } else {
                r matches Ok(text) && text@ == decimal(
                    resident_share(node as nat, n_parties as nat, sharing, decimal_value(bytes)),
                )
            }
        }),
{
    let scalar = match decimal_to_scalar(evaluation) {
        Err(e) => {
            return Err(e);
        },
        Ok(scalar) => scalar,
    };
    match sharing {
        InputSharing::Shamir => Ok(scalar_to_decimal(&scalar)),
        InputSharing::Additive => match node_lagrange_coefficient(node, n_parties) {
            Err(e) => Err(e),
            Ok(coefficient) => {
                let share = multiply(&coefficient, &scalar);
                proof {
                    let l = group_order() as int;
                    let c = lagrange_coefficient(node as nat, n_parties as nat);
                    let v = decimal_value(text_bytes(evaluation@));
                    order_positive();
                    vstd::arithmetic::div_mod::lemma_mul_mod_noop(c, v, l);
                }
                Ok(scalar_to_decimal(&share))
            },
        },
    }
}

/// The sum of two points.
pub uninterp spec fn point_sum(a: Seq<u8>, b: Seq<u8>) -> Seq<u8>;

/// A point multiplied by the number of a scalar.
pub uninterp spec fn point_times(point: Seq<u8>, scalar: Seq<u8>) -> Seq<u8>;

/// The base-256 digits of a number, least significant first.
pub open spec fn le_bytes(number: nat, width: nat) -> Seq<u8>
    decreases width,
{
    if width == 0 {
        Seq::empty()
    } else {
        seq![(number % 256) as u8] + le_bytes(number / 256, (width - 1) as nat)
    }
}

/// The scalar of a number, taken modulo the group order.
pub open spec fn scalar_of(number: int) -> Seq<u8> {
    le_bytes((number % group_order() as int) as nat, 32)
}

/// The commitment to a value with a blinding over two generators.
pub open spec fn pedersen(g: Seq<u8>, h: Seq<u8>, value: int, blinding: int) -> Seq<u8> {
    point_sum(point_times(g, scalar_of(value)), point_times(h, scalar_of(blinding)))
}

/// The digits of the number that bytes write are the bytes.
pub proof fn digits_of_value(bytes: Seq<u8>)
    ensures
        le_bytes(le_value(bytes), bytes.len()) == bytes,
    decreases bytes.len(),
{
    if bytes.len() > 0 {
        let rest = bytes.drop_first();
        digits_of_value(rest);
        assert(le_value(bytes) % 256 == bytes[0] && le_value(bytes) / 256 == le_value(rest));
        assert(seq![bytes[0]] + rest =~= bytes);
    } else {
        assert(le_bytes(le_value(bytes), 0) =~= bytes);
    }
}

/// Commits to a value with a blinding over two generators.
pub fn commit(g: &Point, h: &Point, value: &Scalar, blinding: &Scalar) -> (point: Point)
    requires
        is_scalar(value@),
        is_scalar(blinding@),
    ensures
        is_point(point@),
        point@ == pedersen(g@, h@, scalar_value(value@) as int, scalar_value(blinding@) as int),
{
    proof {
        digits_of_value(value@);
        digits_of_value(blinding@);
        vstd::arithmetic::div_mod::lemma_small_mod(scalar_value(value@), group_order());
        vstd::arithmetic::div_mod::lemma_small_mod(scalar_value(blinding@), group_order());
    }
    let part = multiply_point(g, value);
    let rest = multiply_point(h, blinding);
    add_points(&part, &rest)
}

/// `RistrettoPoint::identity`: its canonical encoding is thirty-two zeros, and it is
/// the commitment to zero with a blinding of zero, over any generators.
#[verifier::external_body]
pub(crate) fn identity_point() -> (point: Point)
    ensures
        is_point(point@),
        point@ == zero32(),
        forall|g: Seq<u8>, h: Seq<u8>| is_point(g) && is_point(h) ==> point@ == #[trigger] pedersen(g, h, 0, 0),
{
    let identity = <curve25519_dalek::RistrettoPoint as curve25519_dalek::traits::Identity>::identity();
    Point { bytes: identity.compress().to_bytes() }
}

/// Addition of `curve25519_dalek::RistrettoPoint`: the sum is a point, and a
/// function of the two encodings. Bytes that encode no point count as the identity.
/// The points are a commutative group of prime order: two commitments over the same
/// generators add to the commitment of the sums.
#[verifier::external_body]
pub(crate) fn add_points(a: &Point, b: &Point) -> (point: Point)
    ensures
        is_point(point@),
        point@ == point_sum(a@, b@),
        forall|g: Seq<u8>, h: Seq<u8>, v: int, r: int, w: int, s: int|
            is_point(g) && is_point(h) && a@ == #[trigger] pedersen(g, h, v, r) && b@ == #[trigger] pedersen(g, h, w, s)
                ==> point@ == pedersen(g, h, v + w, r + s),
{
    let decode = |p: &Point| curve25519_dalek::ristretto::CompressedRistretto(p.bytes).decompress().unwrap_or_default();
    Point { bytes: (decode(a) + decode(b)).compress().to_bytes() }
}

/// Multiplication of a `curve25519_dalek::RistrettoPoint` by a `Scalar`: the
/// product is a point, and a function of the two encodings. Bytes that encode no
/// point count as the identity, and the scalar is taken modulo the group order. A
/// multiple of a commitment is the commitment of the multiples over its generators.
#[verifier::external_body]
pub(crate) fn multiply_point(point: &Point, scalar: &Scalar) -> (product: Point)
    ensures
        is_point(product@),
        product@ == point_times(point@, scalar@),
        forall|g: Seq<u8>, h: Seq<u8>, v: int, r: int|
            is_point(g) && is_point(h) && point@ == #[trigger] pedersen(g, h, v, r) ==> product@ == pedersen(
                g,
                h,
                scalar_value(scalar@) * v,
                scalar_value(scalar@) * r,
            ),
{
    let decoded = curve25519_dalek::ristretto::CompressedRistretto(point.bytes).decompress().unwrap_or_default();
    Point { bytes: (decoded * curve25519_dalek::Scalar::from_bytes_mod_order(scalar.bytes)).compress().to_bytes() }
}

/// What one node's partial commitment adds to the whole.
pub open spec fn weighted(partial: Seq<u8>, sharing: InputSharing, node: nat, n_parties: nat, out: Seq<u8>) -> bool {
    match sharing {
        InputSharing::Additive => out == partial,
        InputSharing::Shamir => exists|c: Seq<u8>|
            is_scalar(c) && scalar_value(c) as int == lagrange_coefficient(node, n_parties) % group_order() as int
                && out == #[trigger] point_times(partial, c),
    }
}

/// Whether a point is the weighted sum of the partial commitments.
pub open spec fn combines(partials: Seq<Seq<u8>>, sharing: InputSharing, n_parties: nat, total: Seq<u8>) -> bool
    decreases partials.len(),
{
    if partials.len() == 0 {
        total == zero32()
    } else {
        exists|before: Seq<u8>, last: Seq<u8>|
            combines(partials.drop_last(), sharing, n_parties, before) && #[trigger] weighted(
                partials.last(),
                sharing,
                (partials.len() - 1) as nat,
                n_parties,
                last,
            ) && total == #[trigger] point_sum(before, last)
    }
}

/// The bytes of a list of partial commitments.
pub open spec fn partial_bytes(partials: Seq<[u8; 32]>) -> Seq<Seq<u8>> {
    partials.map_values(|p: [u8; 32]| p@)
}

/// Whether the partial commitments are those of these values and blindings, over two
/// generators.
pub open spec fn committed(
    partials: Seq<Seq<u8>>,
    g: Seq<u8>,
    h: Seq<u8>,
    values: Seq<int>,
    blindings: Seq<int>,
) -> bool {
    &&& is_point(g)
    &&& is_point(h)
    &&& values.len() == partials.len()
    &&& blindings.len() == partials.len()
    &&& forall|i: int| 0 <= i < partials.len() ==> #[trigger] partials[i] == pedersen(g, h, values[i], blindings[i])
}

/// Whether a point is the commitment of what the shares reconstruct, whatever
/// generators, values and blindings the partial commitments are made of.
pub open spec fn reconstructs(partials: Seq<Seq<u8>>, sharing: InputSharing, n_parties: nat, total: Seq<u8>) -> bool {
    forall|g: Seq<u8>, h: Seq<u8>, values: Seq<int>, blindings: Seq<int>|
        #[trigger] committed(partials, g, h, values, blindings) ==> total == pedersen(
            g,
            h,
            weighted_sum(values, sharing, n_parties),
            weighted_sum(blindings, sharing, n_parties),
        )
}

/// Combine the nodes' partial commitments of one maker rail into the commitment
/// of the reconstructed opening.
pub fn combine_partial_commitments(partials: &[[u8; 32]], sharing: InputSharing, n_parties: u16) -> (r: Result<
    [u8; 32],
    String,
>)
    ensures
        match r {
            Ok(total) => {
                &&& partials@.len() == n_parties
                &&& forall|i: int| 0 <= i < partials@.len() ==> is_point((#[trigger] partials@[i])@)
                &&& combines(partial_bytes(partials@), sharing, n_parties as nat, total@)
                &&& reconstructs(partial_bytes(partials@), sharing, n_parties as nat, total@)
            },
            Err(e) => if partials@.len() != n_parties {
                e@ == "partial commitment set does not cover every MPC node"@
            } else {
                exists|i: int|
                    0 <= i < partials@.len() && !is_point((#[trigger] partials@[i])@) && (forall|j: int|
                        0 <= j < i ==> is_point((#[trigger] partials@[j])@)) && e@ == "MPC node "@ + decimal(i as nat)
                        + " returned a non-canonical partial commitment"@
            },
        },
{
    if partials.len() != n_parties as usize {
        return Err("partial commitment set does not cover every MPC node".to_owned());
    }
    let ghost all = partial_bytes(partials@);
    let mut total = identity_point();
    let mut node: usize = 0;
    assert(all.take(0) =~= Seq::<Seq<u8>>::empty());
    assert(reconstructs(all.take(0), sharing, n_parties as nat, total@));
    while node < partials.len()
        invariant
            node <= partials@.len(),
            partials@.len() == n_parties,
            all == partial_bytes(partials@),
            is_point(total@),
            forall|i: int| 0 <= i < node ==> is_point((#[trigger] partials@[i])@),
            combines(all.take(node as int), sharing, n_parties as nat, total@),
            reconstructs(all.take(node as int), sharing, n_parties as nat, total@),
        decreases partials@.len() - node,
    {
        if !decodes_to_point(&partials[node]) {
            return Err(
                "MPC node ".to_owned().concat(decimal_text(node as u64).as_str()).concat(
                    " returned a non-canonical partial commitment",
                ),
            );
        }
        let point = Point { bytes: partials[node] };
        let part = match sharing {
            InputSharing::Additive => point,
            InputSharing::Shamir => match node_lagrange_coefficient(node as u16, n_parties) {
                Err(e) => {
                    assert(false);
                    return Err(e);
                },
                Ok(coefficient) => multiply_point(&point, &coefficient),
            },
        };
        let sum = add_points(&total, &part);
        proof {
            assert(all.take(node as int + 1).drop_last() =~= all.take(node as int));
            assert(weighted(all[node as int], sharing, node as nat, n_parties as nat, part@));
            let seen = all.take(node as int + 1);
            assert(seen.last() == all[node as int]);
            assert(weighted(seen.last(), sharing, (seen.len() - 1) as nat, n_parties as nat, part@));
            assert(sum@ == point_sum(total@, part@));
            assert(combines(seen, sharing, n_parties as nat, sum@));
            assert forall|g: Seq<u8>, h: Seq<u8>, values: Seq<int>, blindings: Seq<int>|
                #[trigger] committed(seen, g, h, values, blindings) implies sum@ == pedersen(
                g,
                h,
                weighted_sum(values, sharing, n_parties as nat),
                weighted_sum(blindings, sharing, n_parties as nat),
            ) by {
                let before = seen.drop_last();
                assert forall|i: int| 0 <= i < before.len() implies #[trigger] before[i] == pedersen(
                    g,
                    h,
                    values.drop_last()[i],
                    blindings.drop_last()[i],
                ) by {
                    assert(seen[i] == pedersen(g, h, values[i], blindings[i]));
                }
                assert(committed(before, g, h, values.drop_last(), blindings.drop_last()));
                let v = values.last();
                let r = blindings.last();
                assert(seen[node as int] == pedersen(g, h, v, r));
                let w = share_weight(sharing, node as nat, n_parties as nat);
                assert(part@ == pedersen(g, h, w * v, w * r)) by {
                    match sharing {
                        InputSharing::Additive => {
                            assert(1 * v == v && 1 * r == r);
                        },
                        InputSharing::Shamir => {
                            let l = group_order() as int;
                            order_positive();
                            vstd::arithmetic::div_mod::lemma_mul_mod_noop_left(w, v, l);
                            vstd::arithmetic::div_mod::lemma_mul_mod_noop_left(w, r, l);
                        },
                    }
                }
            }
        }
        total = sum;
        node = node + 1;
    }
    assert(all.take(node as int) =~= all);
    Ok(total.bytes)
}

/// The seven Lagrange coefficients of the seven-node committee.
pub proof fn seven_coefficients()
    ensures
        lagrange_coefficient(0, 7) == 7,
        lagrange_coefficient(1, 7) == -21,
        lagrange_coefficient(2, 7) == 35,
        lagrange_coefficient(3, 7) == -35,
        lagrange_coefficient(4, 7) == 21,
        lagrange_coefficient(5, 7) == -7,
        lagrange_coefficient(6, 7) == 1,
{
    reveal_with_fuel(binomial, 9);
}

/// The value at a point of the polynomial of degree six with these coefficients.
pub open spec fn dealt(c: Seq<int>, point: int) -> int {
    c[0] + point * (c[1] + point * (c[2] + point * (c[3] + point * (c[4] + point * (c[5] + point * c[6])))))
}

/// The seven stored values of a secret dealt with a polynomial of any degree up to
/// six, summed for an additive circuit or weighted for a Shamir circuit, make the
/// secret. Each is written as a canonical decimal of its number, and a Shamir
/// circuit stores the dealt value itself.
pub proof fn seven_shares_reconstruct(c: Seq<int>)
    requires
        c.len() == 7,
    ensures
        ({
            let l = group_order() as int;
            let sum = |i: int| resident_share(i as nat, 7, InputSharing::Additive, dealt(c, i + 1)) as int;
            let raw = |i: int| resident_share(i as nat, 7, InputSharing::Shamir, dealt(c, i + 1)) as int;
            &&& (sum(0) + sum(1) + sum(2) + sum(3) + sum(4) + sum(5) + sum(6)) % l == c[0] % l
            &&& (lagrange_coefficient(0, 7) * raw(0) + lagrange_coefficient(1, 7) * raw(1) + lagrange_coefficient(2, 7)
                * raw(2) + lagrange_coefficient(3, 7) * raw(3) + lagrange_coefficient(4, 7) * raw(4)
                + lagrange_coefficient(5, 7) * raw(5) + lagrange_coefficient(6, 7) * raw(6)) % l == c[0] % l
            &&& forall|i: int| 0 <= i < 7 ==> #[trigger] raw(i) == dealt(c, i + 1) % l
        }),
        forall|i: int, sharing: InputSharing|
            0 <= i < 7 ==> canonical_share(#[trigger] resident_share(i as nat, 7, sharing, dealt(c, i + 1))),
{
    let l = group_order() as int;
    order_positive();
    seven_coefficients();
    let e0 = dealt(c, 1);
    let e1 = dealt(c, 2);
    let e2 = dealt(c, 3);
    let e3 = dealt(c, 4);
    let e4 = dealt(c, 5);
    let e5 = dealt(c, 6);
    let e6 = dealt(c, 7);
    assert(7 * e0 - 21 * e1 + 35 * e2 - 35 * e3 + 21 * e4 - 7 * e5 + e6 == c[0]);
    seven_sum_mod(7 * e0, -21 * e1, 35 * e2, -35 * e3, 21 * e4, -7 * e5, 1 * e6, l);
    weighted_mod(7, e0, l);
    weighted_mod(-21, e1, l);
    weighted_mod(35, e2, l);
    weighted_mod(-35, e3, l);
    weighted_mod(21, e4, l);
    weighted_mod(-7, e5, l);
    weighted_mod(1, e6, l);
    seven_sum_mod(
        7 * (e0 % l),
        -21 * (e1 % l),
        35 * (e2 % l),
        -35 * (e3 % l),
        21 * (e4 % l),
        -7 * (e5 % l),
        1 * (e6 % l),
        l,
    );
    assert forall|i: int, sharing: InputSharing| 0 <= i < 7 implies canonical_share(
        #[trigger] resident_share(i as nat, 7, sharing, dealt(c, i + 1)),
    ) by {
        residue_in_decimal(resident_share(i as nat, 7, sharing, dealt(c, i + 1)));
    }
}

/// Whether a number has a canonical decimal text that stands for it.
pub open spec fn canonical_share(share: nat) -> bool {
    &&& is_decimal_bytes(text_bytes(decimal(share)))
    &&& decimal_value(text_bytes(decimal(share))) == share
}

proof fn weighted_mod(c: int, e: int, l: int)
    requires
        l > 0,
    ensures
        (c * (e % l)) % l == (c * e) % l,
{
    vstd::arithmetic::div_mod::lemma_mul_mod_noop_right(c, e, l);
}

proof fn sum_mod(a: int, b: int, l: int)
    requires
        l > 0,
    ensures
        ((a % l) + b) % l == (a + b) % l,
        (a + (b % l)) % l == (a + b) % l,
{
    vstd::arithmetic::div_mod::lemma_add_mod_noop(a, b, l);
    vstd::arithmetic::div_mod::lemma_add_mod_noop(a % l, b, l);
    vstd::arithmetic::div_mod::lemma_add_mod_noop(a, b % l, l);
    vstd::arithmetic::div_mod::lemma_mod_twice(a, l);
    vstd::arithmetic::div_mod::lemma_mod_twice(b, l);
}

proof fn seven_sum_mod(a: int, b: int, c: int, d: int, e: int, f: int, g: int, l: int)
    requires
        l > 0,
    ensures
        (a % l + b % l + c % l + d % l + e % l + f % l + g % l) % l == (a + b + c + d + e + f + g) % l,
{
    sum_mod(a, b % l + c % l + d % l + e % l + f % l + g % l, l);
    sum_mod(b, a + c % l + d % l + e % l + f % l + g % l, l);
    sum_mod(c, a + b + d % l + e % l + f % l + g % l, l);
    sum_mod(d, a + b + c + e % l + f % l + g % l, l);
    sum_mod(e, a + b + c + d + f % l + g % l, l);
    sum_mod(f, a + b + c + d + e + g % l, l);
    sum_mod(g, a + b + c + d + e + f, l);
}

/// How much a node's share counts in a sum of shares.
pub open spec fn share_weight(sharing: InputSharing, node: nat, n_parties: nat) -> int {
    match sharing {
        InputSharing::Additive => 1,
        InputSharing::Shamir => lagrange_coefficient(node, n_parties),
    }
}

/// The weighted sum of the first shares.
pub open spec fn weighted_sum(shares: Seq<int>, sharing: InputSharing, n_parties: nat) -> int
    decreases shares.len(),
{
    if shares.len() == 0 {
        0
    } else {
        weighted_sum(shares.drop_last(), sharing, n_parties) + share_weight(
            sharing,
            (shares.len() - 1) as nat,
            n_parties,
        ) * shares.last()
    }
}

/// What the shares of the seven nodes reconstruct, by their sum or their weighted
/// sum, is the secret that was dealt.
proof fn seven_weighted(c: Seq<int>, sharing: InputSharing)
    requires
        c.len() == 7,
    ensures
        weighted_sum(seven_shares(c, sharing), sharing, 7) % group_order() as int == c[0] % group_order() as int,
{
    seven_shares_reconstruct(c);
    seven_coefficients();
    let s = seven_shares(c, sharing);
    let l = group_order() as int;
    let w = |i: int| share_weight(sharing, i as nat, 7);
    reveal_with_fuel(weighted_sum, 8);
    assert(s.drop_last().last() == s[5]);
    assert(s.drop_last().drop_last().last() == s[4]);
    assert(s.drop_last().drop_last().drop_last().last() == s[3]);
    assert(s.drop_last().drop_last().drop_last().drop_last().last() == s[2]);
    assert(s.drop_last().drop_last().drop_last().drop_last().drop_last().last() == s[1]);
    assert(s.drop_last().drop_last().drop_last().drop_last().drop_last().drop_last().last() == s[0]);
    assert(weighted_sum(s, sharing, 7) == w(0) * s[0] + w(1) * s[1] + w(2) * s[2] + w(3) * s[3] + w(4) * s[4] + w(5)
        * s[5] + w(6) * s[6]);
}

/// The values that the seven nodes store of a secret dealt with a polynomial.
pub open spec fn seven_shares(c: Seq<int>, sharing: InputSharing) -> Seq<int> {
    Seq::new(7, |i: int| resident_share(i as nat, 7, sharing, dealt(c, i + 1)) as int)
}

/// The commitment to what the seven nodes' stored shares of a dealt value and blinding
/// come to, which is what `combine_partial_commitments` gives of their partial
/// commitments, is the commitment to the value and the blinding themselves.
pub proof fn seven_partials_commit_to_the_secret(
    g: Seq<u8>,
    h: Seq<u8>,
    value: Seq<int>,
    blinding: Seq<int>,
    sharing: InputSharing,
)
    requires
        value.len() == 7,
        blinding.len() == 7,
    ensures
        pedersen(
            g,
            h,
            weighted_sum(seven_shares(value, sharing), sharing, 7),
            weighted_sum(seven_shares(blinding, sharing), sharing, 7),
        ) == pedersen(g, h, value[0], blinding[0]),
{
    seven_weighted(value, sharing);
    seven_weighted(blinding, sharing);
}

} // verus!
