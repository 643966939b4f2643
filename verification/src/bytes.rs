//! Byte strings: fixed-width big-endian integers, fixed arrays, comparison.

use vstd::prelude::*;
use vstd::arithmetic::power::pow;

verus! {

/// The `width` low-order base-256 digits of `value`, most significant first.
pub open spec fn be_bytes(value: nat, width: nat) -> Seq<u8>
    decreases width,
{
    if width == 0 {
        Seq::empty()
    } else {
        be_bytes(value / 256, (width - 1) as nat).push((value % 256) as u8)
    }
}

/// The number whose base-256 digits are `bytes`, most significant first.
pub open spec fn be_value(bytes: Seq<u8>) -> nat
    decreases bytes.len(),
{
    if bytes.len() == 0 {
        0
    } else {
        256 * be_value(bytes.drop_last()) + bytes.last() as nat
    }
}

/// The UTF-8 bytes of a text.
pub open spec fn text_bytes(text: Seq<char>) -> Seq<u8> {
    vstd::utf8::encode_utf8(text)
}

/// Thirty-two zero bytes.
pub open spec fn zero32() -> Seq<u8> {
    Seq::new(32, |i: int| 0u8)
}

/// A fixed width writes that many bytes.
pub proof fn be_bytes_width(value: nat, width: nat)
    ensures
        be_bytes(value, width).len() == width,
    decreases width,
{
    if width > 0 {
        be_bytes_width(value / 256, (width - 1) as nat);
    }
}

/// Reading back a number that fits its width gives the number.
pub proof fn be_value_of_be_bytes(value: nat, width: nat)
    requires
        value < pow(256, width),
    ensures
        be_value(be_bytes(value, width)) == value,
    decreases width,
{
    reveal(pow);
    if width > 0 {
        let rest = be_bytes(value / 256, (width - 1) as nat);
        assert(value / 256 < pow(256, (width - 1) as nat)) by (nonlinear_arith)
            requires
                value < 256 * pow(256, (width - 1) as nat),
        ;
        be_value_of_be_bytes(value / 256, (width - 1) as nat);
        assert(be_bytes(value, width).drop_last() =~= rest);
    }
}

/// Writing back a number at the width it was read from gives the bytes.
pub proof fn be_bytes_of_be_value(bytes: Seq<u8>)
    ensures
        be_bytes(be_value(bytes), bytes.len()) == bytes,
        be_value(bytes) < pow(256, bytes.len()),
    decreases bytes.len(),
{
    reveal(pow);
    if bytes.len() > 0 {
        be_bytes_of_be_value(bytes.drop_last());
        let value = be_value(bytes);
        assert(value / 256 == be_value(bytes.drop_last()));
        assert(value % 256 == bytes.last() as nat);
        assert(be_bytes(value, bytes.len()) =~= bytes.drop_last().push(bytes.last()));
        assert(bytes.drop_last().push(bytes.last()) =~= bytes);
    } else {
        assert(be_bytes(0, 0) =~= bytes);
    }
}

/// The bounds that the integer types put on the two-, four- and eight-byte widths.
pub proof fn be_widths()
    ensures
        pow(256, 1) == 0x100,
        pow(256, 2) == 0x1_0000,
        pow(256, 4) == 0x1_0000_0000,
        pow(256, 8) == 0x1_0000_0000_0000_0000,
{
    reveal(pow);
    reveal_with_fuel(pow, 10);
}

/// Appends the `width` low-order bytes of `value`, most significant first.
pub fn put_be(out: &mut Vec<u8>, value: u64, width: usize)
    ensures
        final(out)@ == old(out)@ + be_bytes(value as nat, width as nat),
    decreases width,
{
    if width == 0 {
        assert(out@ =~= old(out)@ + be_bytes(value as nat, 0));
    } else {
        put_be(out, value / 256, width - 1);
        out.push((value % 256) as u8);
        assert(out@ =~= old(out)@ + be_bytes(value as nat, width as nat));
    }
}

/// Appends a byte string.
pub fn put(out: &mut Vec<u8>, bytes: &[u8])
    ensures
        final(out)@ == old(out)@ + bytes@,
{
    out.extend_from_slice(bytes);
}

/// The number written big-endian in `width` bytes at `at`.
pub fn read_be(bytes: &[u8], at: usize, width: usize) -> (value: u64)
    requires
        width <= 8,
        at + width <= bytes@.len(),
    ensures
        value as nat == be_value(bytes@.subrange(at as int, at + width)),
{
    let total: usize = bytes.len();
    let mut value: u64 = 0;
    let mut i: usize = 0;
    assert(pow(256, 0) == 1) by {
        reveal(pow);
    }
    while i < width
        invariant
            i <= width <= 8,
            at + width <= total,
            total == bytes@.len(),
            value as nat == be_value(bytes@.subrange(at as int, at + i)),
            (value as nat) < pow(256, i as nat),
        decreases width - i,
    {
        proof {
            be_widths();
            vstd::arithmetic::power::lemma_pow_increases(256, (i + 1) as nat, 8);
            reveal(pow);
            assert(bytes@.subrange(at as int, at + i + 1).drop_last() =~= bytes@.subrange(at as int, at + i));
            assert(pow(256, (i + 1) as nat) == 256 * pow(256, i as nat));
        }
        value = value * 256 + bytes[at + i] as u64;
        i = i + 1;
    }
    value
}

/// A copy of part of a byte string.
pub fn part(bytes: &[u8], from: usize, to: usize) -> (copy: Vec<u8>)
    requires
        from <= to <= bytes@.len(),
    ensures
        copy@ == bytes@.subrange(from as int, to as int),
{
    let mut copy: Vec<u8> = Vec::new();
    copy.extend_from_slice(&bytes[from..to]);
    assert(copy@ =~= bytes@.subrange(from as int, to as int));
    copy
}

/// A copy of a byte string.
pub fn copied(bytes: &[u8]) -> (copy: Vec<u8>)
    ensures
        copy@ == bytes@,
{
    let mut copy: Vec<u8> = Vec::new();
    copy.extend_from_slice(bytes);
    assert(copy@ =~= bytes@);
    copy
}

/// The thirty-two bytes at `at`.
pub fn array32(bytes: &[u8], at: usize) -> (array: [u8; 32])
    requires
        at + 32 <= bytes@.len(),
    ensures
        array@ == bytes@.subrange(at as int, at + 32),
{
    let total: usize = bytes.len();
    let mut array: [u8; 32] = [0u8; 32];
    let mut i: usize = 0;
    while i < 32
        invariant
            i <= 32,
            at + 32 <= total,
            total == bytes@.len(),
            forall|j: int| 0 <= j < i ==> array@[j] == bytes@[at + j],
        decreases 32 - i,
    {
        array[i] = bytes[at + i];
        i = i + 1;
    }
    assert(array@ =~= bytes@.subrange(at as int, at + 32));
    array
}

/// The sixty-four bytes at `at`.
pub fn array64(bytes: &[u8], at: usize) -> (array: [u8; 64])
    requires
        at + 64 <= bytes@.len(),
    ensures
        array@ == bytes@.subrange(at as int, at + 64),
{
    let total: usize = bytes.len();
    let mut array: [u8; 64] = [0u8; 64];
    let mut i: usize = 0;
    while i < 64
        invariant
            i <= 64,
            at + 64 <= total,
            total == bytes@.len(),
            forall|j: int| 0 <= j < i ==> array@[j] == bytes@[at + j],
        decreases 64 - i,
    {
        array[i] = bytes[at + i];
        i = i + 1;
    }
    assert(array@ =~= bytes@.subrange(at as int, at + 64));
    array
}

/// Whether two byte strings are the same.
pub fn same(a: &[u8], b: &[u8]) -> (equal: bool)
    ensures
        equal == (a@ == b@),
{
    if a.len() != b.len() {
        return false;
    }
    let mut i: usize = 0;
    while i < a.len()
        invariant
            i <= a@.len(),
            a@.len() == b@.len(),
            forall|j: int| 0 <= j < i ==> a@[j] == b@[j],
        decreases a@.len() - i,
    {
        if a[i] != b[i] {
            return false;
        }
        i = i + 1;
    }
    assert(a@ =~= b@);
    true
}

/// Whether two thirty-two byte arrays are the same.
pub fn same32(a: &[u8; 32], b: &[u8; 32]) -> (equal: bool)
    ensures
        equal == (a@ == b@),
        equal == (*a == *b),
{
    let equal = same(a.as_slice(), b.as_slice());
    proof {
        if a@ == b@ {
            assert(*a =~= *b);
        }
    }
    equal
}

/// Whether a thirty-two byte array is all zero.
pub fn is_zero32(a: &[u8; 32]) -> (zero: bool)
    ensures
        zero == (a@ == zero32()),
{
    let mut i: usize = 0;
    while i < 32
        invariant
            i <= 32,
            forall|j: int| 0 <= j < i ==> a@[j] == 0,
        decreases 32 - i,
    {
        if a[i] != 0 {
            assert(zero32()[i as int] == 0);
            return false;
        }
        i = i + 1;
    }
    assert(a@ =~= zero32());
    true
}

/// Of two byte strings of one length, the one with the smaller byte at the first
/// difference writes the smaller number.
pub proof fn be_value_order(a: Seq<u8>, b: Seq<u8>, at: int)
    requires
        a.len() == b.len(),
        0 <= at < a.len(),
        forall|j: int| 0 <= j < at ==> a[j] == b[j],
        a[at] < b[at],
    ensures
        be_value(a) < be_value(b),
    decreases a.len(),
{
    if at == a.len() - 1 {
        assert(a.drop_last() =~= b.drop_last());
    } else {
        be_value_order(a.drop_last(), b.drop_last(), at);
    }
}

/// Whether the first of two thirty-two byte arrays comes after the second.
pub fn after32(a: &[u8; 32], b: &[u8; 32]) -> (after: bool)
    ensures
        after == (be_value(a@) > be_value(b@)),
{
    let mut i: usize = 0;
    while i < 32
        invariant
            i <= 32,
            forall|j: int| 0 <= j < i ==> a@[j] == b@[j],
        decreases 32 - i,
    {
        if a[i] != b[i] {
            proof {
                if a@[i as int] < b@[i as int] {
                    be_value_order(a@, b@, i as int);
                } else {
                    be_value_order(b@, a@, i as int);
                }
            }
            return a[i] > b[i];
        }
        i = i + 1;
    }
    assert(a@ =~= b@);
    false
}

/// A part of a part.
pub proof fn part_of_part(bytes: Seq<u8>, from: int, to: int, a: int, b: int)
    requires
        0 <= from <= to <= bytes.len(),
        0 <= a <= b <= to - from,
    ensures
        bytes.subrange(from, to).subrange(a, b) == bytes.subrange(from + a, from + b),
{
    assert(bytes.subrange(from, to).subrange(a, b) =~= bytes.subrange(from + a, from + b));
}

/// An ASCII text has one byte for each character.
pub proof fn ascii_width(text: Seq<char>)
    requires
        vstd::utf8::is_ascii_chars(text),
    ensures
        text_bytes(text).len() == text.len(),
{
    vstd::utf8::is_ascii_chars_encode_utf8(text);
}

/// Byte strings one after the other.
pub open spec fn joined(parts: Seq<Seq<u8>>) -> Seq<u8>
    decreases parts.len(),
{
    if parts.len() == 0 {
        Seq::empty()
    } else {
        joined(parts.drop_last()) + parts.last()
    }
}

/// One more part.
pub proof fn joined_step(parts: Seq<Seq<u8>>, i: int)
    requires
        0 <= i < parts.len(),
    ensures
        joined(parts.take(i + 1)) == joined(parts.take(i)) + parts[i],
{
    assert(parts.take(i + 1).drop_last() =~= parts.take(i));
}

/// Parts of one width stand at multiples of it.
pub proof fn joined_layout(parts: Seq<Seq<u8>>, width: nat)
    requires
        forall|i: int| 0 <= i < parts.len() ==> (#[trigger] parts[i]).len() == width,
    ensures
        joined(parts).len() == parts.len() * width,
        forall|i: int|
            0 <= i < parts.len() ==> joined(parts).subrange(i * width, (i + 1) * width) == #[trigger] parts[i],
    decreases parts.len(),
{
    let n = parts.len() as int;
    if n > 0 {
        let rest = parts.drop_last();
        joined_layout(rest, width);
        assert(n * width == (n - 1) * width + width) by (nonlinear_arith);
        assert forall|i: int| 0 <= i < n implies joined(parts).subrange(i * width, (i + 1) * width)
            == #[trigger] parts[i] by {
            assert(0 <= i * width && (i + 1) * width == i * width + width && (i + 1) * width <= n * width)
                by (nonlinear_arith)
                requires
                    0 <= i < n,
            ;
            if i < n - 1 {
                assert((i + 1) * width <= (n - 1) * width) by (nonlinear_arith)
                    requires
                        i + 1 <= n - 1,
                ;
                assert(rest[i] == parts[i]);
                assert(joined(parts).subrange(i * width, (i + 1) * width) =~= joined(rest).subrange(
                    i * width,
                    (i + 1) * width,
                ));
            } else {
                assert(joined(parts).subrange(i * width, (i + 1) * width) =~= parts[i]);
            }
        }
    } else {
        assert(n * width == 0) by (nonlinear_arith)
            requires
                n == 0,
        ;
    }
}

/// The parts of one width that a byte string is made of.
pub open spec fn split(bytes: Seq<u8>, width: nat, count: nat) -> Seq<Seq<u8>> {
    Seq::new(count, |i: int| bytes.subrange(i * width, (i + 1) * width))
}

/// Joining the parts of a byte string gives it back.
pub proof fn joined_of_split(bytes: Seq<u8>, width: nat, count: nat)
    requires
        width > 0,
        bytes.len() == count * width,
    ensures
        joined(split(bytes, width, count)) == bytes,
{
    let parts = split(bytes, width, count);
    assert forall|i: int| 0 <= i < count implies (#[trigger] parts[i]).len() == width by {
        assert(0 <= i * width && (i + 1) * width == i * width + width && (i + 1) * width <= count * width)
            by (nonlinear_arith)
            requires
                0 <= i < count,
        ;
    }
    joined_layout(parts, width);
    let whole = joined(parts);
    assert forall|k: int| 0 <= k < bytes.len() implies whole[k] == bytes[k] by {
        let i = k / (width as int);
        let o = k % (width as int);
        assert(0 <= i < count && 0 <= o < width && k == i * width + o && (i + 1) * width == i * width + width && (i + 1)
            * width <= count * width) by (nonlinear_arith)
            requires
                0 <= k < count * width,
                i == k / (width as int),
                o == k % (width as int),
                width > 0,
        ;
        assert(whole.subrange(i * width, (i + 1) * width) == parts[i]);
        assert(whole.subrange(i * width, (i + 1) * width)[o] == bytes.subrange(i * width, (i + 1) * width)[o]);
    }
    assert(whole =~= bytes);
}

} // verus!
