//! Numbers in text, and the lines of a log.

use vstd::prelude::*;
use crate::bytes::{part, same, text_bytes};
use crate::decimal::digits_value;
use crate::text::{about, decimal, digit_text};

verus! {

/// Whether bytes are decimal digits, at least one.
pub open spec fn all_digits(bytes: Seq<u8>) -> bool {
    &&& bytes.len() > 0
    &&& forall|i: int| 0 <= i < bytes.len() ==> 0x30 <= #[trigger] bytes[i] <= 0x39
}

/// The digits of a number behind its sign.
pub open spec fn unsigned_part(bytes: Seq<u8>) -> Seq<u8> {
    if bytes.len() > 0 && (bytes[0] == 0x2b || bytes[0] == 0x2d) {
        bytes.skip(1)
    } else {
        bytes
    }
}

/// The signed number that a text writes: an optional sign and decimal digits,
/// within a hundred and twenty-eight bits.
pub open spec fn signed_number(bytes: Seq<u8>) -> Option<int> {
    let digits = unsigned_part(bytes);
    let value = if bytes.len() > 0 && bytes[0] == 0x2d {
        -(digits_value(digits) as int)
    } else {
        digits_value(digits) as int
    };
    if all_digits(digits) && i128::MIN <= value <= i128::MAX {
        Some(value)
    } else {
        None
    }
}

/// The unsigned number that a text writes: an optional plus and decimal digits.
pub open spec fn unsigned_number(bytes: Seq<u8>) -> Option<nat> {
    let digits = if bytes.len() > 0 && bytes[0] == 0x2b {
        bytes.skip(1)
    } else {
        bytes
    };
    if all_digits(digits) && digits_value(digits) <= usize::MAX {
        Some(digits_value(digits))
    } else {
        None
    }
}

proof fn digits_grow(bytes: Seq<u8>, at: int)
    requires
        all_digits(bytes),
        0 <= at <= bytes.len(),
    ensures
        digits_value(bytes.take(at)) <= digits_value(bytes),
    decreases bytes.len() - at,
{
    if at < bytes.len() {
        digits_grow(bytes, at + 1);
        assert(bytes.take(at + 1).drop_last() =~= bytes.take(at));
        assert(0x30 <= bytes[at] <= 0x39);
    } else {
        assert(bytes.take(at) =~= bytes);
    }
}

/// Reads decimal digits as a number up to a bound.
fn read_digits(bytes: &[u8], from: usize, bound: u128) -> (r: Option<u128>)
    requires
        from <= bytes@.len(),
    ensures
        match r {
            Some(value) => {
                &&& all_digits(bytes@.skip(from as int))
                &&& value == digits_value(bytes@.skip(from as int))
                &&& value <= bound
            },
            None => !all_digits(bytes@.skip(from as int)) || digits_value(bytes@.skip(from as int)) > bound,
        },
{
    let ghost digits = bytes@.skip(from as int);
    if from >= bytes.len() {
        return None;
    }
    let mut value: u128 = 0;
    let mut i: usize = from;
    assert(digits.take(0) =~= Seq::empty());
    while i < bytes.len()
        invariant
            from <= i <= bytes@.len(),
            from < bytes@.len(),
            digits == bytes@.skip(from as int),
            value == digits_value(digits.take(i - from)),
            value <= bound,
            forall|j: int| 0 <= j < i - from ==> 0x30 <= #[trigger] digits[j] <= 0x39,
        decreases bytes@.len() - i,
    {
        let byte: u8 = bytes[i];
        assert(byte == digits[i - from]);
        if byte < 0x30 || byte > 0x39 {
            return None;
        }
        let ghost at = i - from;
        assert(digits.take(at + 1).drop_last() =~= digits.take(at));
        let more: u128 = (byte - 0x30) as u128;
        if value > bound / 10 || more > bound - value * 10 {
            proof {
                if all_digits(digits) {
                    digits_grow(digits, at + 1);
                    assert(digits_value(digits.take(at + 1)) == value * 10 + more);
                    if value > bound / 10 {
                        assert(value * 10 > bound) by (nonlinear_arith)
                            requires
                                value > bound / 10,
                        ;
                    }
                }
            }
            return None;
        }
        value = value * 10 + more;
        i = i + 1;
    }
    assert(digits.take(i - from) =~= digits);
    Some(value)
}

/// The signed number that a text writes.
pub fn parse_signed(bytes: &[u8]) -> (r: Option<i128>)
    ensures
        match r {
            Some(value) => signed_number(bytes@) == Some(value as int),
            None => signed_number(bytes@) is None,
        },
{
    assert(bytes@.skip(0) =~= bytes@);
    if bytes.len() == 0 {
        return None;
    }
    if bytes[0] == 0x2d {
        match read_digits(bytes, 1, 0x8000_0000_0000_0000_0000_0000_0000_0000) {
            None => None,
            Some(magnitude) => if magnitude == 0x8000_0000_0000_0000_0000_0000_0000_0000 {
                Some(i128::MIN)
            } else {
                Some(-(magnitude as i128))
            },
        }
    } else if bytes[0] == 0x2b {
        match read_digits(bytes, 1, 0x7fff_ffff_ffff_ffff_ffff_ffff_ffff_ffff) {
            None => None,
            Some(magnitude) => Some(magnitude as i128),
        }
    } else {
        match read_digits(bytes, 0, 0x7fff_ffff_ffff_ffff_ffff_ffff_ffff_ffff) {
            None => None,
            Some(magnitude) => Some(magnitude as i128),
        }
    }
}

/// The unsigned number that a text writes.
pub fn parse_unsigned(bytes: &[u8]) -> (r: Option<usize>)
    ensures
        match r {
            Some(value) => unsigned_number(bytes@) == Some(value as nat),
            None => unsigned_number(bytes@) is None,
        },
{
    assert(bytes@.skip(0) =~= bytes@);
    let from: usize = if bytes.len() > 0 && bytes[0] == 0x2b {
        1
    } else {
        0
    };
    match read_digits(bytes, from, usize::MAX as u128) {
        None => None,
        Some(value) => Some(value as usize),
    }
}

/// A signed number in decimal.
pub open spec fn signed_decimal(value: int) -> Seq<char> {
    if value < 0 {
        "-"@ + decimal((-value) as nat)
    } else {
        decimal(value as nat)
    }
}

fn wide_decimal(value: u128) -> (text: String)
    ensures
        text@ == decimal(value as nat),
    decreases value,
{
    let last = digit_text((value % 10) as u64);
    if value < 10 {
        last.to_owned()
    } else {
        let head = wide_decimal(value / 10);
        let text = about(head.as_str(), last);
        assert(text@ =~= decimal(value as nat));
        text
    }
}

/// A signed number in decimal.
pub fn signed_text(value: i128) -> (text: String)
    ensures
        text@ == signed_decimal(value as int),
{
    if value < 0 {
        let magnitude: u128 = (-(value + 1)) as u128 + 1;
        let digits = wide_decimal(magnitude);
        about("-", digits.as_str())
    } else {
        wide_decimal(value as u128)
    }
}

/// How many bytes of white space stand at the start: one character of the
/// Unicode property, in UTF-8.
pub open spec fn white_start(b: Seq<u8>) -> nat {
    if b.len() >= 1 && (0x09 <= b[0] <= 0x0d || b[0] == 0x20) {
        1
    } else if b.len() >= 2 && b[0] == 0xc2 && (b[1] == 0x85 || b[1] == 0xa0) {
        2
    } else if b.len() >= 3 && white_three(b[0], b[1], b[2]) {
        3
    } else {
        0
    }
}

/// How many bytes of white space stand at the end.
pub open spec fn white_end(b: Seq<u8>) -> nat {
    let n = b.len() as int;
    if n >= 1 && (0x09 <= b[n - 1] <= 0x0d || b[n - 1] == 0x20) {
        1
    } else if n >= 2 && b[n - 2] == 0xc2 && (b[n - 1] == 0x85 || b[n - 1] == 0xa0) {
        2
    } else if n >= 3 && white_three(b[n - 3], b[n - 2], b[n - 1]) {
        3
    } else {
        0
    }
}

/// Whether three bytes are a character of white space.
pub open spec fn white_three(a: u8, b: u8, c: u8) -> bool {
    ||| a == 0xe1 && b == 0x9a && c == 0x80
    ||| a == 0xe2 && b == 0x80 && (0x80 <= c <= 0x8a || c == 0xa8 || c == 0xa9 || c == 0xaf)
    ||| a == 0xe2 && b == 0x81 && c == 0x9f
    ||| a == 0xe3 && b == 0x80 && c == 0x80
}

fn is_white_three(a: u8, b: u8, c: u8) -> (r: bool)
    ensures
        r == white_three(a, b, c),
{
    (a == 0xe1 && b == 0x9a && c == 0x80) || (a == 0xe2 && b == 0x80 && ((0x80 <= c && c <= 0x8a) || c == 0xa8
        || c == 0xa9
        || c == 0xaf)) || (a == 0xe2 && b == 0x81 && c == 0x9f) || (a == 0xe3 && b == 0x80 && c == 0x80)
}

/// A text without the white space at its start.
pub open spec fn trimmed_start(b: Seq<u8>) -> Seq<u8>
    decreases b.len(),
{
    if white_start(b) > 0 {
        trimmed_start(b.skip(white_start(b) as int))
    } else {
        b
    }
}

/// A text without the white space at its end.
pub open spec fn trimmed_end(b: Seq<u8>) -> Seq<u8>
    decreases b.len(),
{
    if white_end(b) > 0 {
        trimmed_end(b.take(b.len() - white_end(b)))
    } else {
        b
    }
}

/// A text without the white space around it.
pub fn trim(bytes: &[u8]) -> (trimmed: Vec<u8>)
    ensures
        trimmed@ == trimmed_end(trimmed_start(bytes@)),
{
    let mut from: usize = 0;
    assert(bytes@.skip(0) =~= bytes@);
    loop
        invariant
            from <= bytes@.len(),
            trimmed_start(bytes@) == trimmed_start(bytes@.skip(from as int)),
        ensures
            from <= bytes@.len(),
            trimmed_start(bytes@) == bytes@.skip(from as int),
        decreases bytes@.len() - from,
    {
        let left: usize = bytes.len() - from;
        let ghost rest = bytes@.skip(from as int);
        let white: usize = if left >= 1 && ((0x09 <= bytes[from] && bytes[from] <= 0x0d) || bytes[from] == 0x20) {
            1
        } else if left >= 2 && bytes[from] == 0xc2 && (bytes[from + 1] == 0x85 || bytes[from + 1] == 0xa0) {
            2
        } else if left >= 3 && is_white_three(bytes[from], bytes[from + 1], bytes[from + 2]) {
            3
        } else {
            0
        };
        assert(white == white_start(rest));
        if white == 0 {
            break;
        }
        assert(rest.skip(white as int) =~= bytes@.skip(from + white));
        from = from + white;
    }
    let ghost whole = bytes@.skip(from as int);
    let mut to: usize = bytes.len();
    assert(bytes@.subrange(from as int, to as int) =~= whole);
    loop
        invariant
            from <= to <= bytes@.len(),
            trimmed_end(whole) == trimmed_end(bytes@.subrange(from as int, to as int)),
        ensures
            from <= to <= bytes@.len(),
            trimmed_end(whole) == bytes@.subrange(from as int, to as int),
        decreases to - from,
    {
        let left: usize = to - from;
        let ghost rest = bytes@.subrange(from as int, to as int);
        let white: usize = if left >= 1 && ((0x09 <= bytes[to - 1] && bytes[to - 1] <= 0x0d) || bytes[to - 1] == 0x20) {
            1
        } else if left >= 2 && bytes[to - 2] == 0xc2 && (bytes[to - 1] == 0x85 || bytes[to - 1] == 0xa0) {
            2
        } else if left >= 3 && is_white_three(bytes[to - 3], bytes[to - 2], bytes[to - 1]) {
            3
        } else {
            0
        };
        assert(white == white_end(rest));
        if white == 0 {
            break;
        }
        assert(rest.take(rest.len() - white) =~= bytes@.subrange(from as int, to - white));
        to = to - white;
    }
    part(bytes, from, to)
}

/// Where the first line of a text ends: at its newline, or at the end.
pub open spec fn line_end(text: Seq<u8>) -> int
    decreases text.len(),
{
    if text.len() == 0 || text[0] == 10 {
        0
    } else {
        1 + line_end(text.skip(1))
    }
}

/// A line without a carriage return at its end.
pub open spec fn without_return(line: Seq<u8>) -> Seq<u8> {
    if line.len() > 0 && line.last() == 13 {
        line.drop_last()
    } else {
        line
    }
}

/// The lines of a text, without their ends.
pub open spec fn lines_of(text: Seq<u8>) -> Seq<Seq<u8>>
    decreases text.len(),
{
    if text.len() == 0 {
        Seq::empty()
    } else {
        let end = line_end(text);
        if 0 <= end < text.len() {
            seq![without_return(text.take(end))] + lines_of(text.skip(end + 1))
        } else {
            seq![text]
        }
    }
}

proof fn line_end_is(text: Seq<u8>, end: int)
    requires
        0 <= end <= text.len(),
        forall|i: int| 0 <= i < end ==> text[i] != 10,
        end < text.len() ==> text[end] == 10,
    ensures
        line_end(text) == end,
    decreases end,
{
    if end > 0 {
        let rest = text.skip(1);
        assert forall|i: int| 0 <= i < end - 1 implies rest[i] != 10 by {
            assert(rest[i] == text[i + 1]);
        }
        line_end_is(rest, end - 1);
    }
}

/// What is said of a list of lines.
pub open spec fn texts_of(lines: Seq<Vec<u8>>) -> Seq<Seq<u8>> {
    lines.map_values(|l: Vec<u8>| l@)
}

/// The lines of a text, without their ends. The last line may have no newline.
pub fn split_lines(text: &[u8]) -> (lines: Vec<Vec<u8>>)
    ensures
        texts_of(lines@) == lines_of(text@),
{
    let mut lines: Vec<Vec<u8>> = Vec::new();
    let mut from: usize = 0;
    assert(text@.skip(0) =~= text@);
    assert(texts_of(lines@) + lines_of(text@) =~= lines_of(text@));
    while from < text.len()
        invariant
            from <= text@.len(),
            texts_of(lines@) + lines_of(text@.skip(from as int)) == lines_of(text@),
        decreases text@.len() - from,
    {
        let ghost rest = text@.skip(from as int);
        let mut end: usize = from;
        while end < text.len() && text[end] != 10
            invariant
                from <= end <= text@.len(),
                rest == text@.skip(from as int),
                forall|i: int| 0 <= i < end - from ==> rest[i] != 10,
            decreases text@.len() - end,
        {
            end = end + 1;
        }
        proof {
            line_end_is(rest, end - from);
        }
        let ghost before = lines@;
        if end < text.len() {
            let stop: usize = if end > from && text[end - 1] == 13 {
                end - 1
            } else {
                end
            };
            let line = part(text, from, stop);
            proof {
                assert(rest.take(end - from) =~= text@.subrange(from as int, end as int));
                assert(line@ =~= without_return(rest.take(end - from)));
                assert(rest.skip(end - from + 1) =~= text@.skip(end + 1));
            }
            lines.push(line);
            proof {
                assert(texts_of(lines@) =~= texts_of(before).push(line@));
                assert(texts_of(lines@) + lines_of(text@.skip(end + 1)) =~= texts_of(before) + lines_of(rest));
            }
            from = end + 1;
        } else {
            let line = part(text, from, end);
            assert(line@ =~= rest);
            lines.push(line);
            proof {
                assert(texts_of(lines@) =~= texts_of(before).push(line@));
                assert(text@.skip(end as int) =~= Seq::empty());
                assert(texts_of(lines@) + lines_of(text@.skip(end as int)) =~= texts_of(before) + lines_of(rest));
            }
            from = end;
        }
    }
    assert(text@.skip(from as int) =~= Seq::empty());
    assert(texts_of(lines@) + lines_of(text@.skip(from as int)) =~= texts_of(lines@));
    lines
}

/// What stands behind a prefix.
pub open spec fn behind(text: Seq<u8>, prefix: Seq<u8>) -> Option<Seq<u8>> {
    if text.len() >= prefix.len() && text.take(prefix.len() as int) == prefix {
        Some(text.skip(prefix.len() as int))
    } else {
        None
    }
}

/// What stands behind a prefix.
pub fn strip_prefix(text: &[u8], prefix: &[u8]) -> (r: Option<Vec<u8>>)
    ensures
        match r {
            Some(rest) => behind(text@, prefix@) == Some(rest@),
            None => behind(text@, prefix@) is None,
        },
{
    if text.len() < prefix.len() {
        return None;
    }
    let head = part(text, 0, prefix.len());
    assert(head@ =~= text@.take(prefix@.len() as int));
    if !same(head.as_slice(), prefix) {
        return None;
    }
    let rest = part(text, prefix.len(), text.len());
    assert(rest@ =~= text@.skip(prefix@.len() as int));
    Some(rest)
}

/// The number behind a prefix on the first line that has one there.
pub open spec fn named_number(lines: Seq<Seq<u8>>, prefix: Seq<u8>) -> Option<int>
    decreases lines.len(),
{
    if lines.len() == 0 {
        None
    } else {
        match behind(lines[0], prefix) {
            None => named_number(lines.skip(1), prefix),
            Some(rest) => match signed_number(trimmed_end(trimmed_start(rest))) {
                Some(value) => Some(value),
                None => named_number(lines.skip(1), prefix),
            },
        }
    }
}

/// The number behind a prefix on the first line of a log that has one there.
pub fn named_integer(log: &str, prefix: &str) -> (r: Option<i128>)
    ensures
        match r {
            Some(value) => named_number(lines_of(text_bytes(log@)), text_bytes(prefix@)) == Some(value as int),
            None => named_number(lines_of(text_bytes(log@)), text_bytes(prefix@)) is None,
        },
{
    let lines = split_lines(log.as_bytes());
    let ghost all = texts_of(lines@);
    let mut i: usize = 0;
    assert(all.skip(0) =~= all);
    while i < lines.len()
        invariant
            i <= lines@.len(),
            all == texts_of(lines@),
            all == lines_of(text_bytes(log@)),
            named_number(all, text_bytes(prefix@)) == named_number(all.skip(i as int), text_bytes(prefix@)),
        decreases lines@.len() - i,
    {
        let ghost rest = all.skip(i as int);
        assert(rest[0] == lines@[i as int]@);
        assert(rest.skip(1) =~= all.skip(i + 1));
        match strip_prefix(lines[i].as_slice(), prefix.as_bytes()) {
            None => {},
            Some(tail) => {
                let value = trim(tail.as_slice());
                match parse_signed(value.as_slice()) {
                    None => {},
                    Some(number) => {
                        return Some(number);
                    },
                }
            },
        }
        i = i + 1;
    }
    None
}

/// Where a byte string first stands in another, or minus one.
pub open spec fn found_at(text: Seq<u8>, wanted: Seq<u8>) -> int
    decreases text.len(),
{
    if behind(text, wanted) is Some {
        0
    } else if text.len() == 0 {
        -1
    } else {
        let later = found_at(text.skip(1), wanted);
        if later < 0 {
            -1
        } else {
            1 + later
        }
    }
}

/// What stands before and behind the first of a byte string.
pub fn split_once(text: &[u8], wanted: &[u8]) -> (r: Option<(Vec<u8>, Vec<u8>)>)
    ensures
        match r {
            Some((before, after)) => {
                let at = found_at(text@, wanted@);
                &&& 0 <= at <= text@.len()
                &&& before@ == text@.take(at)
                &&& behind(text@.skip(at), wanted@) == Some(after@)
            },
            None => found_at(text@, wanted@) < 0,
        },
{
    let mut at: usize = 0;
    assert(text@.skip(0) =~= text@);
    loop
        invariant
            at <= text@.len(),
            found_at(text@, wanted@) >= 0 <==> found_at(text@.skip(at as int), wanted@) >= 0,
            found_at(text@, wanted@) >= 0 ==> found_at(text@, wanted@) == at + found_at(text@.skip(at as int), wanted@),
        decreases text@.len() - at,
    {
        let rest = part(text, at, text.len());
        assert(rest@ =~= text@.skip(at as int));
        match strip_prefix(rest.as_slice(), wanted) {
            Some(after) => {
                let before = part(text, 0, at);
                assert(before@ =~= text@.take(at as int));
                return Some((before, after));
            },
            None => {
                if at == text.len() {
                    return None;
                }
                assert(text@.skip(at as int).skip(1) =~= text@.skip(at + 1));
                at = at + 1;
            },
        }
    }
}

} // verus!
