//! Field elements in decimal, and scalar arithmetic.

use vstd::prelude::*;
use vstd::arithmetic::power::pow;
use vstd::arithmetic::power2::pow2;
use crate::bytes::{be_bytes_of_be_value, be_value, text_bytes};
use crate::group::{group_order, is_scalar, le_value, Scalar};
use crate::text::{decimal, digit, digit_text};
use vstd::string::StringExecFns;

verus! {

/// The number that a scalar stands for.
pub open spec fn scalar_value(scalar: Seq<u8>) -> nat {
    le_value(scalar)
}

/// `Scalar::from_bytes_mod_order_wide`: the little-endian number that sixty-four
/// bytes write, reduced by the group order.
#[verifier::external_body]
pub(crate) fn reduce_wide(bytes: &[u8; 64]) -> (scalar: Scalar)
    ensures
        is_scalar(scalar@),
        scalar_value(scalar@) == le_value(bytes@) % group_order(),
{
    Scalar { bytes: curve25519_dalek::Scalar::from_bytes_mod_order_wide(bytes).to_bytes() }
}

/// Negation of `curve25519_dalek::Scalar`, modulo the group order.
#[verifier::external_body]
pub(crate) fn negate(a: &Scalar) -> (scalar: Scalar)
    requires
        is_scalar(a@),
    ensures
        is_scalar(scalar@),
        scalar_value(scalar@) == (group_order() - scalar_value(a@)) as nat % group_order(),
{
    Scalar { bytes: (-curve25519_dalek::Scalar::from_bytes_mod_order(a.bytes)).to_bytes() }
}

/// Multiplication of `curve25519_dalek::Scalar`, modulo the group order.
#[verifier::external_body]
pub(crate) fn multiply(a: &Scalar, b: &Scalar) -> (scalar: Scalar)
    requires
        is_scalar(a@),
        is_scalar(b@),
    ensures
        is_scalar(scalar@),
        scalar_value(scalar@) == (scalar_value(a@) * scalar_value(b@)) % group_order(),
{
    let left = curve25519_dalek::Scalar::from_bytes_mod_order(a.bytes);
    Scalar { bytes: (left * curve25519_dalek::Scalar::from_bytes_mod_order(b.bytes)).to_bytes() }
}

/// Addition of `curve25519_dalek::Scalar`, modulo the group order.
#[verifier::external_body]
pub(crate) fn add_scalars(a: &Scalar, b: &Scalar) -> (scalar: Scalar)
    requires
        is_scalar(a@),
        is_scalar(b@),
    ensures
        is_scalar(scalar@),
        scalar_value(scalar@) == (scalar_value(a@) + scalar_value(b@)) % group_order(),
{
    let left = curve25519_dalek::Scalar::from_bytes_mod_order(a.bytes);
    Scalar { bytes: (left + curve25519_dalek::Scalar::from_bytes_mod_order(b.bytes)).to_bytes() }
}

/// `Scalar::invert`: the multiplicative inverse modulo the group order.
#[verifier::external_body]
pub(crate) fn invert(a: &Scalar) -> (scalar: Scalar)
    requires
        is_scalar(a@),
        scalar_value(a@) != 0,
    ensures
        is_scalar(scalar@),
        (scalar_value(a@) * scalar_value(scalar@)) % group_order() == 1,
{
    Scalar { bytes: curve25519_dalek::Scalar::from_bytes_mod_order(a.bytes).invert().to_bytes() }
}

/// A number written least significant first is the same number written most
/// significant first with the bytes turned round.
pub proof fn le_is_be_reversed(bytes: Seq<u8>)
    ensures
        le_value(bytes) == be_value(bytes.reverse()),
    decreases bytes.len(),
{
    if bytes.len() > 0 {
        le_is_be_reversed(bytes.drop_first());
        assert(bytes.reverse().drop_last() =~= bytes.drop_first().reverse());
        assert(bytes.reverse().last() == bytes[0]);
    }
}

/// One more, most significant, byte.
pub proof fn le_value_push(bytes: Seq<u8>, byte: u8)
    ensures
        le_value(bytes.push(byte)) == le_value(bytes) + byte * pow(256, bytes.len()),
    decreases bytes.len(),
{
    reveal(pow);
    if bytes.len() > 0 {
        assert(bytes.push(byte).drop_first() =~= bytes.drop_first().push(byte));
        le_value_push(bytes.drop_first(), byte);
        let p = pow(256, (bytes.len() - 1) as nat);
        assert(pow(256, bytes.len()) == 256 * p);
        assert(256 * (byte * p) == byte * (256 * p)) by (nonlinear_arith);
        assert(bytes.push(byte)[0] == bytes[0]);
        assert(le_value(bytes.push(byte)) == bytes[0] as nat + 256 * (le_value(bytes.drop_first()) + byte * p));
    } else {
        assert(bytes.push(byte).drop_first() =~= Seq::<u8>::empty());
        assert(pow(256, 0) == 1);
        assert(byte * pow(256, 0) == byte) by (nonlinear_arith)
            requires
                pow(256, 0) == 1,
        ;
        assert(le_value(bytes.push(byte).drop_first()) == 0);
    }
}

/// A number is below the power of its width.
pub proof fn le_value_bound(bytes: Seq<u8>)
    ensures
        le_value(bytes) < pow(256, bytes.len()),
    decreases bytes.len(),
{
    reveal(pow);
    if bytes.len() > 0 {
        le_value_bound(bytes.drop_first());
        assert(pow(256, bytes.len()) == 256 * pow(256, (bytes.len() - 1) as nat));
    }
}

/// The quotient and the remainder of a number by ten.
fn divide_by_ten(bytes: &Vec<u8>) -> (r: (Vec<u8>, u64))
    ensures
        be_value(bytes@) == 10 * be_value(r.0@) + r.1,
        r.1 < 10,
        r.0@.len() == bytes@.len(),
{
    let mut quotient: Vec<u8> = Vec::new();
    let mut rest: u64 = 0;
    let mut i: usize = 0;
    while i < bytes.len()
        invariant
            i <= bytes@.len(),
            rest < 10,
            quotient@.len() == i,
            be_value(bytes@.take(i as int)) == 10 * be_value(quotient@) + rest,
        decreases bytes@.len() - i,
    {
        let part: u64 = rest * 256 + bytes[i] as u64;
        let ghost before = quotient@;
        quotient.push((part / 10) as u8);
        proof {
            assert(bytes@.take(i as int + 1).drop_last() =~= bytes@.take(i as int));
            assert(quotient@.drop_last() =~= before);
        }
        rest = part % 10;
        i = i + 1;
    }
    assert(bytes@.take(i as int) =~= bytes@);
    (quotient, rest)
}

fn is_small(bytes: &Vec<u8>) -> (small: bool)
    ensures
        small == (be_value(bytes@) < 10),
        small && bytes@.len() > 0 ==> be_value(bytes@) == bytes@.last(),
        small && bytes@.len() == 0 ==> be_value(bytes@) == 0,
{
    let n: usize = bytes.len();
    if n == 0 {
        return true;
    }
    let mut i: usize = 0;
    while i < n - 1
        invariant
            n == bytes@.len(),
            n > 0,
            i <= n - 1,
            be_value(bytes@.take(i as int)) == 0,
        decreases n - i,
    {
        assert(bytes@.take(i as int + 1).drop_last() =~= bytes@.take(i as int));
        if bytes[i] != 0 {
            proof {
                be_value_grows(bytes@, i as int + 1);
            }
            return false;
        }
        i = i + 1;
    }
    assert(bytes@.drop_last() =~= bytes@.take(n - 1));
    bytes[n - 1] < 10
}

/// More digits make no smaller number, and a non-zero head makes one of at least 256.
proof fn be_value_grows(bytes: Seq<u8>, at: int)
    requires
        0 < at < bytes.len(),
        be_value(bytes.take(at)) > 0,
    ensures
        be_value(bytes) >= 256,
    decreases bytes.len(),
{
    if at == bytes.len() - 1 {
        assert(bytes.drop_last() =~= bytes.take(at));
    } else {
        assert(bytes.drop_last().take(at) =~= bytes.take(at));
        be_value_grows(bytes.drop_last(), at);
    }
}

/// Writes a number in decimal.
pub fn decimal_of_be(bytes: Vec<u8>) -> (text: String)
    ensures
        text@ == decimal(be_value(bytes@)),
    decreases be_value(bytes@),
{
    if is_small(&bytes) {
        let n: usize = bytes.len();
        if n == 0 {
            digit_text(0).to_owned()
        } else {
            digit_text(bytes[n - 1] as u64).to_owned()
        }
    } else {
        let (quotient, rest) = divide_by_ten(&bytes);
        let head = decimal_of_be(quotient);
        let text = head.concat(digit_text(rest));
        assert(text@ =~= decimal(be_value(bytes@)));
        text
    }
}

/// Canonical (reduced, non-negative) decimal rendering of a scalar.
pub fn scalar_to_decimal(value: &Scalar) -> (text: String)
    ensures
        text@ == decimal(scalar_value(value@)),
{
    let mut turned: Vec<u8> = Vec::new();
    let mut i: usize = 0;
    while i < 32
        invariant
            i <= 32,
            turned@ == value.bytes@.reverse().take(i as int),
        decreases 32 - i,
    {
        turned.push(value.bytes[31 - i]);
        i = i + 1;
        assert(turned@ =~= value.bytes@.reverse().take(i as int));
    }
    proof {
        assert(turned@ =~= value.bytes@.reverse());
        le_is_be_reversed(value.bytes@);
    }
    decimal_of_be(turned)
}

/// Whether a byte is an ASCII decimal digit.
pub open spec fn is_digit(byte: u8) -> bool {
    0x30 <= byte <= 0x39
}

/// The digits of a decimal text: what follows a minus sign, where there is one.
pub open spec fn digits_of(text: Seq<u8>) -> Seq<u8> {
    if text.len() > 0 && text[0] == 0x2d {
        text.drop_first()
    } else {
        text
    }
}

/// Whether a text has a minus sign.
pub open spec fn is_negative(text: Seq<u8>) -> bool {
    text.len() > 0 && text[0] == 0x2d
}

/// Whether a text is a decimal number of at most eighty digits without leading
/// zeros, and not minus zero.
pub open spec fn is_decimal_bytes(text: Seq<u8>) -> bool {
    let digits = digits_of(text);
    &&& 0 < digits.len() <= 80
    &&& forall|i: int| 0 <= i < digits.len() ==> is_digit(#[trigger] digits[i])
    &&& digits[0] == 0x30 ==> digits.len() == 1
    &&& !(is_negative(text) && digits.len() == 1 && digits[0] == 0x30)
}

/// The number that decimal digits write.
pub open spec fn digits_value(digits: Seq<u8>) -> nat
    decreases digits.len(),
{
    if digits.len() == 0 {
        0
    } else {
        10 * digits_value(digits.drop_last()) + (digits.last() - 0x30) as nat
    }
}

/// The number that a decimal text writes.
pub open spec fn decimal_value(text: Seq<u8>) -> int {
    if is_negative(text) {
        -digits_value(digits_of(text))
    } else {
        digits_value(digits_of(text)) as int
    }
}

/// Whether a text is a canonical decimal.
pub fn is_decimal(value: &str) -> (r: bool)
    ensures
        r == is_decimal_bytes(text_bytes(value@)),
{
    let bytes = value.as_bytes();
    let n: usize = bytes.len();
    let start: usize = if n > 0 && bytes[0] == 0x2d {
        1
    } else {
        0
    };
    let ghost digits = digits_of(bytes@);
    assert(digits =~= bytes@.subrange(start as int, n as int));
    if n - start == 0 || n - start > 80 {
        return false;
    }
    let mut i: usize = start;
    while i < n
        invariant
            start <= i <= n,
            start <= 1,
            n == bytes@.len(),
            digits == bytes@.subrange(start as int, n as int),
            digits == digits_of(text_bytes(value@)),
            forall|j: int| 0 <= j < i - start ==> is_digit(#[trigger] digits[j]),
        decreases n - i,
    {
        assert(digits[i - start] == bytes@[i as int]);
        if bytes[i] < 0x30 || bytes[i] > 0x39 {
            assert(!is_digit(digits[i - start]));
            return false;
        }
        i = i + 1;
    }
    assert(digits[0] == bytes@[start as int]);
    if bytes[start] == 0x30 && n - start != 1 {
        return false;
    }
    !(start == 1 && n == 2 && bytes[1] == 0x30)
}

proof fn digits_bound(digits: Seq<u8>)
    requires
        forall|i: int| 0 <= i < digits.len() ==> is_digit(#[trigger] digits[i]),
    ensures
        digits_value(digits) < pow(16, digits.len()),
    decreases digits.len(),
{
    reveal(pow);
    if digits.len() > 0 {
        assert forall|i: int| 0 <= i < digits.len() - 1 implies is_digit(#[trigger] digits.drop_last()[i]) by {
            assert(is_digit(digits[i]));
        }
        digits_bound(digits.drop_last());
        assert(is_digit(digits[digits.len() - 1]));
        assert(pow(16, digits.len()) == 16 * pow(16, (digits.len() - 1) as nat));
    }
}

proof fn eighty_digits_fit(count: nat)
    requires
        count <= 80,
    ensures
        pow(16, count) <= pow(256, 63),
{
    vstd::arithmetic::power::lemma_pow_increases(16, count, 126);
    vstd::arithmetic::power::lemma_pow_multiplies(16, 2, 63);
    reveal(pow);
    reveal_with_fuel(pow, 3);
    assert(pow(16, 2) == 256);
}

/// Ten times a sixty-four byte number and a digit more.
fn times_ten(bytes: &mut Vec<u8>, add: u64)
    requires
        old(bytes)@.len() == 64,
        add < 10,
        10 * le_value(old(bytes)@) + add < pow(256, 64),
    ensures
        final(bytes)@.len() == 64,
        le_value(final(bytes)@) == 10 * le_value(old(bytes)@) + add,
{
    let mut carry: u64 = add;
    let mut i: usize = 0;
    let ghost start = bytes@;
    assert(le_value(start.take(0)) == 0 && pow(256, 0) == 1) by {
        reveal(pow);
    }
    while i < 64
        invariant
            i <= 64,
            bytes@.len() == 64,
            start.len() == 64,
            add < 10,
            carry < 10,
            forall|j: int| i <= j < 64 ==> bytes@[j] == start[j],
            le_value(bytes@.take(i as int)) + carry * pow(256, i as nat) == 10 * le_value(start.take(i as int)) + add,
        decreases 64 - i,
    {
        let wide: u64 = bytes[i] as u64 * 10 + carry;
        let ghost before = bytes@;
        bytes.set(i, (wide % 256) as u8);
        proof {
            let p = pow(256, i as nat);
            reveal(pow);
            assert(pow(256, (i + 1) as nat) == 256 * p);
            assert(bytes@.take(i as int + 1) =~= before.take(i as int).push((wide % 256) as u8));
            assert(start.take(i as int + 1) =~= start.take(i as int).push(start[i as int]));
            le_value_push(before.take(i as int), (wide % 256) as u8);
            le_value_push(start.take(i as int), start[i as int]);
            let low = (wide % 256) as int;
            let high = (wide / 256) as int;
            let b = start[i as int] as int;
            let c = carry as int;
            assert(low + 256 * high == 10 * b + c);
            assert(low * p + high * (256 * p) == 10 * (b * p) + c * p) by (nonlinear_arith)
                requires
                    low + 256 * high == 10 * b + c,
            ;
        }
        carry = wide / 256;
        i = i + 1;
    }
    proof {
        assert(bytes@.take(64) =~= bytes@);
        assert(start.take(64) =~= start);
        let p = pow(256, 64);
        assert(p > 0) by {
            vstd::arithmetic::power::lemma_pow_positive(256, 64);
        }
        if carry > 0 {
            assert(carry * p >= p) by (nonlinear_arith)
                requires
                    carry >= 1,
                    p > 0,
            ;
        }
    }
}

/// Parse a canonical decimal field element (optionally negative) into the
/// scalar field.
pub fn decimal_to_scalar(value: &str) -> (r: Result<Scalar, String>)
    ensures
        r is Ok <==> is_decimal_bytes(text_bytes(value@)),
        r matches Ok(scalar) ==> is_scalar(scalar@) && scalar_value(scalar@) as int == decimal_value(
            text_bytes(value@),
        ) % group_order() as int,
        r matches Err(e) ==> e@ == "field element is not a canonical decimal"@,
{
    if !is_decimal(value) {
        return Err("field element is not a canonical decimal".to_owned());
    }
    let bytes = value.as_bytes();
    let n: usize = bytes.len();
    let start: usize = if bytes[0] == 0x2d {
        1
    } else {
        0
    };
    let ghost digits = digits_of(bytes@);
    assert(digits =~= bytes@.subrange(start as int, n as int));
    let mut limbs: Vec<u8> = Vec::new();
    let mut k: usize = 0;
    assert(le_value(limbs@) == 0);
    while k < 64
        invariant
            k <= 64,
            limbs@.len() == k,
            le_value(limbs@) == 0,
        decreases 64 - k,
    {
        proof {
            le_value_push(limbs@, 0);
        }
        limbs.push(0);
        k = k + 1;
    }
    let mut i: usize = start;
    assert(digits_value(digits.take(0)) == 0);
    while i < n
        invariant
            start <= i <= n,
            start <= 1,
            n == bytes@.len(),
            n - start <= 80,
            digits == bytes@.subrange(start as int, n as int),
            forall|j: int| 0 <= j < digits.len() ==> is_digit(#[trigger] digits[j]),
            limbs@.len() == 64,
            le_value(limbs@) == digits_value(digits.take(i - start)),
        decreases n - i,
    {
        proof {
            let done = i - start;
            assert(is_digit(digits[done]));
            assert(digits[done] == bytes@[i as int]);
            assert(digits.take(done + 1).drop_last() =~= digits.take(done));
            assert forall|j: int| 0 <= j < done + 1 implies is_digit(#[trigger] digits.take(done + 1)[j]) by {
                assert(is_digit(digits[j]));
            }
            digits_bound(digits.take(done + 1));
            eighty_digits_fit((done + 1) as nat);
            vstd::arithmetic::power::lemma_pow_increases(256, 63, 64);
        }
        times_ten(&mut limbs, (bytes[i] - 0x30) as u64);
        i = i + 1;
    }
    assert(digits.take(n - start) =~= digits);
    let wide = crate::bytes::array64(limbs.as_slice(), 0);
    assert(wide@ =~= limbs@);
    let scalar = reduce_wide(&wide);
    if start == 1 {
        let negative = negate(&scalar);
        proof {
            let l = group_order() as int;
            let v = digits_value(digits) as int;
            assert(l > 0) by {
                vstd::arithmetic::power2::lemma_pow2_pos(252);
            }
            assert((l - v % l) % l == (-v) % l) by {
                vstd::arithmetic::div_mod::lemma_sub_mod_noop(l, v, l);
                vstd::arithmetic::div_mod::lemma_mod_add_multiples_vanish(-v, l);
                vstd::arithmetic::div_mod::lemma_sub_mod_noop_right(l, v, l);
            }
        }
        Ok(negative)
    } else {
        Ok(scalar)
    }
}

/// A number in decimal is written in decimal digits, the first of them not zero
/// but for zero itself, and the digits write the number.
proof fn decimal_digits(value: nat, width: nat)
    requires
        value < pow(10, width),
        width > 0,
    ensures
        vstd::utf8::is_ascii_chars(decimal(value)),
        0 < decimal(value).len() <= width,
        text_bytes(decimal(value)).len() == decimal(value).len(),
        forall|i: int| 0 <= i < decimal(value).len() ==> is_digit(#[trigger] text_bytes(decimal(value))[i]),
        digits_value(text_bytes(decimal(value))) == value,
        text_bytes(decimal(value))[0] == 0x30 ==> value == 0,
    decreases value,
{
    let text = decimal(value);
    let bytes = text_bytes(text);
    if value < 10 {
        assert(text.len() == 1);
        vstd::utf8::is_ascii_chars_encode_utf8(text);
        assert(bytes.drop_last() =~= Seq::empty());
        assert(digits_value(bytes.drop_last()) == 0);
        assert(bytes[0] == text[0] as u8);
    } else {
        reveal(pow);
        assert(width > 1) by {
            if width == 1 {
                assert(pow(10, 1) == 10 * pow(10, 0));
            }
        }
        assert(pow(10, width) == 10 * pow(10, (width - 1) as nat));
        decimal_digits(value / 10, (width - 1) as nat);
        let head = decimal(value / 10);
        vstd::utf8::is_ascii_chars_encode_utf8(head);
        vstd::utf8::is_ascii_chars_encode_utf8(text);
        assert forall|i: int| 0 <= i < head.len() implies #[trigger] bytes[i] == text_bytes(head)[i] by {
            assert(text[i] == head[i]);
        }
        assert(bytes.drop_last() =~= text_bytes(head));
        assert(bytes.last() == digit(value % 10) as u8);
        assert forall|i: int| 0 <= i < text.len() implies is_digit(#[trigger] bytes[i]) by {
            if i < head.len() {
                assert(is_digit(text_bytes(head)[i]));
            }
        }
    }
}

/// Every scalar has at most eighty decimal digits.
proof fn scalars_are_short()
    ensures
        group_order() <= pow(10, 80),
{
    vstd::arithmetic::power2::lemma2_to64_rest();
    vstd::arithmetic::power2::lemma_pow2_adds(63, 63);
    vstd::arithmetic::power2::lemma_pow2_adds(126, 126);
    reveal(pow);
    reveal_with_fuel(pow, 21);
    vstd::arithmetic::power::lemma_pow_adds(10, 20, 20);
    vstd::arithmetic::power::lemma_pow_adds(10, 40, 40);
    let a = pow2(126);
    let b = pow(10, 40);
    assert(pow2(63) == 0x8000_0000_0000_0000);
    assert(a == pow2(63) * pow2(63));
    assert(a == 0x8000_0000_0000_0000 * 0x8000_0000_0000_0000) by (nonlinear_arith)
        requires
            a == pow2(63) * pow2(63),
            pow2(63) == 0x8000_0000_0000_0000,
    ;
    assert(pow(10, 20) == 100000000000000000000);
    assert(b == 100000000000000000000 * 100000000000000000000);
    assert(a * a + 27742317777372353535851937790883648493 <= b * b) by (nonlinear_arith)
        requires
            a == 0x8000_0000_0000_0000 * 0x8000_0000_0000_0000,
            b == 100000000000000000000 * 100000000000000000000,
    ;
}

/// Scalars that stand for one number are the same bytes.
proof fn scalar_bytes_unique(a: Seq<u8>, b: Seq<u8>)
    requires
        a.len() == b.len(),
        scalar_value(a) == scalar_value(b),
    ensures
        a == b,
{
    le_is_be_reversed(a);
    le_is_be_reversed(b);
    be_bytes_of_be_value(a.reverse());
    be_bytes_of_be_value(b.reverse());
    assert(a =~= a.reverse().reverse());
    assert(b =~= b.reverse().reverse());
}

/// A number below the group order has a canonical decimal that writes it.
pub proof fn residue_in_decimal(value: nat)
    requires
        value < group_order(),
    ensures
        is_decimal_bytes(text_bytes(decimal(value))),
        decimal_value(text_bytes(decimal(value))) == value,
{
    let bytes = text_bytes(decimal(value));
    scalars_are_short();
    decimal_digits(value, 80);
    assert(is_digit(bytes[0]));
    assert(digits_of(bytes) == bytes);
}

/// A scalar that is written in decimal is read back as itself: its text is a
/// canonical decimal, and the scalar of that number is the one that was written.
pub proof fn decimal_round_trip(value: Scalar, read: Scalar)
    requires
        is_scalar(value@),
    ensures
        is_decimal_bytes(text_bytes(decimal(scalar_value(value@)))),
        is_scalar(read@) && scalar_value(read@) as int == decimal_value(
            text_bytes(decimal(scalar_value(value@))),
        ) % group_order() as int ==> read@ == value@,
{
    let number = scalar_value(value@);
    residue_in_decimal(number);
    vstd::arithmetic::div_mod::lemma_small_mod(number, group_order());
    if scalar_value(read@) == number && is_scalar(read@) {
        scalar_bytes_unique(read@, value@);
    }
}

} // verus!
