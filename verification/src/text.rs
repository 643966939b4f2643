//! Texts: error messages, decimal numbers, hexadecimal and base64.

use base64::Engine;
use vstd::prelude::*;
use vstd::string::StringExecFns;

verus! {

/// A message made of a name and what is said of it.
pub fn about(name: &str, rest: &str) -> (message: String)
    ensures
        message@ == name@ + rest@,
{
    name.to_owned().concat(rest)
}

/// Whether two texts are the same.
pub fn same_text(a: &str, b: &str) -> (equal: bool)
    ensures
        equal == (a@ == b@),
{
    a.to_owned() == b.to_owned()
}

/// The decimal digit of a number below ten.
pub open spec fn digit(value: nat) -> char {
    if value == 0 { '0' } else if value == 1 { '1' } else if value == 2 { '2' } else if value == 3 {
        '3'
    } else if value == 4 { '4' } else if value == 5 { '5' } else if value == 6 { '6' } else if value == 7 {
        '7'
    } else if value == 8 { '8' } else { '9' }
}

/// A number in decimal, without leading zeros.
pub open spec fn decimal(value: nat) -> Seq<char>
    decreases value,
{
    if value < 10 {
        seq![digit(value)]
    } else {
        decimal(value / 10).push(digit(value % 10))
    }
}

/// The text of a decimal digit.
pub fn digit_text(value: u64) -> (text: &'static str)
    requires
        value < 10,
    ensures
        text@ == seq![digit(value as nat)],
{
    proof {
        reveal_strlit("0");
        reveal_strlit("1");
        reveal_strlit("2");
        reveal_strlit("3");
        reveal_strlit("4");
        reveal_strlit("5");
        reveal_strlit("6");
        reveal_strlit("7");
        reveal_strlit("8");
        reveal_strlit("9");
    }
    let text = match value {
        0 => "0",
        1 => "1",
        2 => "2",
        3 => "3",
        4 => "4",
        5 => "5",
        6 => "6",
        7 => "7",
        8 => "8",
        _ => "9",
    };
    assert(text@ =~= seq![digit(value as nat)]);
    text
}

/// Writes a number in decimal.
pub fn decimal_text(value: u64) -> (text: String)
    ensures
        text@ == decimal(value as nat),
    decreases value,
{
    if value < 10 {
        digit_text(value).to_owned()
    } else {
        let head = decimal_text(value / 10);
        let text = head.concat(digit_text(value % 10));
        assert(text@ =~= decimal(value as nat));
        text
    }
}

/// The value of a hexadecimal digit, in either case.
pub open spec fn hex_digit(c: char) -> Option<u8> {
    if '0' <= c <= '9' {
        Some((c as u32 - '0' as u32) as u8)
    } else if 'a' <= c <= 'f' {
        Some((c as u32 - 'a' as u32 + 10) as u8)
    } else if 'A' <= c <= 'F' {
        Some((c as u32 - 'A' as u32 + 10) as u8)
    } else {
        None
    }
}

/// Whether a text is an even number of hexadecimal digits.
pub open spec fn is_hex(text: Seq<char>) -> bool {
    &&& text.len() % 2 == 0
    &&& forall|i: int| 0 <= i < text.len() ==> hex_digit(#[trigger] text[i]) is Some
}

/// The bytes that a text of hexadecimal digits stands for, two digits each.
pub open spec fn hex_bytes(text: Seq<char>) -> Seq<u8> {
    Seq::new(
        text.len() / 2,
        |i: int| (hex_digit(text[2 * i])->0 * 16 + hex_digit(text[2 * i + 1])->0) as u8,
    )
}

/// The lower-case hexadecimal digit of a number below sixteen.
pub open spec fn hex_char(value: u8) -> char {
    if value < 10 {
        digit(value as nat)
    } else if value == 10 { 'a' } else if value == 11 { 'b' } else if value == 12 { 'c' } else if value
        == 13 { 'd' } else if value == 14 { 'e' } else { 'f' }
}

/// The lower-case hexadecimal text of a byte string.
pub open spec fn hex_text(bytes: Seq<u8>) -> Seq<char> {
    Seq::new(
        2 * bytes.len(),
        |i: int| if i % 2 == 0 { hex_char(bytes[i / 2] / 16) } else { hex_char(bytes[i / 2] % 16) },
    )
}

/// `hex::decode`: accepts exactly an even number of hexadecimal digits of
/// either case and gives the byte of each pair.
#[verifier::external_body]
pub(crate) fn hex_decode(text: &str) -> (bytes: Option<Vec<u8>>)
    ensures
        bytes is Some <==> is_hex(text@),
        bytes matches Some(b) ==> b@ == hex_bytes(text@),
{
    hex::decode(text).ok()
}

/// `hex::encode`: two lower-case digits for each byte.
#[verifier::external_body]
pub(crate) fn hex_encode(bytes: &[u8]) -> (text: String)
    ensures
        text@ == hex_text(bytes@),
{
    hex::encode(bytes)
}

/// The base64 character of a number below sixty-four.
pub open spec fn base64_char(value: int) -> char {
    if value < 26 {
        ((65 + value) as u8) as char
    } else if value < 52 {
        ((71 + value) as u8) as char
    } else if value < 62 {
        ((value - 4) as u8) as char
    } else if value == 62 { '+' } else { '/' }
}

/// A byte of a string, or zero behind its end.
pub open spec fn byte_at(bytes: Seq<u8>, at: int) -> int {
    if at < bytes.len() { bytes[at] as int } else { 0 }
}

/// The number that the character at a place of a base64 text stands for: the bytes are
/// cut into groups of six bits, four to three bytes.
pub open spec fn sextet(bytes: Seq<u8>, at: int) -> int {
    let first = byte_at(bytes, 3 * (at / 4));
    let second = byte_at(bytes, 3 * (at / 4) + 1);
    let third = byte_at(bytes, 3 * (at / 4) + 2);
    if at % 4 == 0 {
        first / 4
    } else if at % 4 == 1 {
        first % 4 * 16 + second / 16
    } else if at % 4 == 2 {
        second % 16 * 4 + third / 64
    } else {
        third % 64
    }
}

/// The standard base64 text of a byte string, padded to a multiple of four characters.
#[verifier::opaque]
pub open spec fn base64_text(bytes: Seq<u8>) -> Seq<char> {
    Seq::new(
        (4 * ((bytes.len() + 2) / 3)) as nat,
        |i: int| if 3 * (i / 4) + i % 4 > bytes.len() { '=' } else { base64_char(sextet(bytes, i)) },
    )
}

/// The bytes that a text is the base64 text of, where it is one.
#[verifier::opaque]
pub open spec fn base64_bytes(text: Seq<char>) -> Option<Seq<u8>> {
    if exists|bytes: Seq<u8>| base64_text(bytes) == text {
        Some(choose|bytes: Seq<u8>| base64_text(bytes) == text)
    } else {
        None
    }
}

/// The number that a base64 character stands for.
spec fn base64_value(c: char) -> int {
    let code = c as u32 as int;
    if 65 <= code < 91 {
        code - 65
    } else if 97 <= code < 123 {
        code - 71
    } else if 48 <= code < 58 {
        code + 4
    } else if c == '+' { 62 } else { 63 }
}

proof fn base64_char_is_read_back(value: int)
    requires
        0 <= value < 64,
    ensures
        base64_value(base64_char(value)) == value,
        base64_char(value) != '=',
{
}

proof fn base64_text_at(bytes: Seq<u8>, at: int)
    requires
        0 <= at < 4 * ((bytes.len() + 2) / 3),
    ensures
        base64_text(bytes).len() == 4 * ((bytes.len() + 2) / 3),
        base64_text(bytes)[at] == if 3 * (at / 4) + at % 4 > bytes.len() {
            '='
        } else {
            base64_char(sextet(bytes, at))
        },
        0 <= sextet(bytes, at) < 64,
{
    reveal(base64_text);
}

proof fn sextets_agree(a: Seq<u8>, b: Seq<u8>, at: int)
    requires
        base64_text(a) == base64_text(b),
        a.len() == b.len(),
        0 <= at < 4 * ((a.len() + 2) / 3),
        3 * (at / 4) + at % 4 <= a.len(),
    ensures
        sextet(a, at) == sextet(b, at),
{
    base64_text_at(a, at);
    base64_text_at(b, at);
    base64_char_is_read_back(sextet(a, at));
    base64_char_is_read_back(sextet(b, at));
}

/// No two byte strings have one base64 text.
pub proof fn base64_tells_apart(a: Seq<u8>, b: Seq<u8>)
    requires
        base64_text(a) == base64_text(b),
    ensures
        a == b,
{
    let groups = (a.len() + 2) / 3;
    assert(base64_text(a).len() == 4 * groups && base64_text(b).len() == 4 * ((b.len() + 2) / 3)) by {
        reveal(base64_text);
    }
    if groups > 0 {
        let third = 4 * groups - 2;
        let fourth = 4 * groups - 1;
        assert(third / 4 == groups - 1 && third % 4 == 2);
        assert(fourth / 4 == groups - 1 && fourth % 4 == 3);
        base64_text_at(a, third);
        base64_text_at(b, third);
        base64_text_at(a, fourth);
        base64_text_at(b, fourth);
        base64_char_is_read_back(sextet(a, third));
        base64_char_is_read_back(sextet(b, third));
        base64_char_is_read_back(sextet(a, fourth));
        base64_char_is_read_back(sextet(b, fourth));
    }
    assert(a.len() == b.len());
    assert forall|k: int| 0 <= k < a.len() implies #[trigger] a[k] == b[k] by {
        let at = 4 * (k / 3);
        assert(at / 4 == k / 3 && at % 4 == 0);
        assert((at + 1) / 4 == k / 3 && (at + 1) % 4 == 1);
        assert((at + 2) / 4 == k / 3 && (at + 2) % 4 == 2);
        assert((at + 3) / 4 == k / 3 && (at + 3) % 4 == 3);
        assert(at + 3 < 4 * groups);
        sextets_agree(a, b, at);
        sextets_agree(a, b, at + 1);
        if k % 3 >= 1 {
            sextets_agree(a, b, at + 2);
        }
        if k % 3 == 2 {
            sextets_agree(a, b, at + 3);
        }
    }
    assert(a =~= b);
}

/// `base64::engine::general_purpose::STANDARD.decode`: accepts exactly the padded text
/// of some bytes, in the standard alphabet and without stray bits, and gives the bytes.
#[verifier::external_body]
fn decode_standard(text: &str) -> (bytes: Option<Vec<u8>>)
    ensures
        match bytes {
            Some(b) => text@ == base64_text(b@),
            None => forall|b: Seq<u8>| text@ != #[trigger] base64_text(b),
        },
{
    base64::engine::general_purpose::STANDARD.decode(text).ok()
}

/// `base64::engine::general_purpose::STANDARD.encode`: the padded text of the bytes in
/// the standard alphabet.
#[verifier::external_body]
fn encode_standard(bytes: &[u8]) -> (text: String)
    ensures
        text@ == base64_text(bytes@),
{
    base64::engine::general_purpose::STANDARD.encode(bytes)
}

/// Base64 text decodes to the bytes that it was written from.
pub proof fn base64_round_trip(bytes: Seq<u8>)
    ensures
        base64_bytes(base64_text(bytes)) == Some(bytes),
{
    reveal(base64_bytes);
    let found = choose|b: Seq<u8>| base64_text(b) == base64_text(bytes);
    base64_tells_apart(found, bytes);
}

/// The bytes of a base64 text.
pub(crate) fn base64_decode(text: &str) -> (bytes: Option<Vec<u8>>)
    ensures
        bytes is Some <==> base64_bytes(text@) is Some,
        bytes matches Some(b) ==> base64_bytes(text@) == Some(b@),
{
    let bytes = decode_standard(text);
    proof {
        if bytes is Some {
            base64_round_trip((bytes->0)@);
        } else {
            reveal(base64_bytes);
        }
    }
    bytes
}

/// The base64 text of some bytes.
pub(crate) fn base64_encode(bytes: &[u8]) -> (text: String)
    ensures
        text@ == base64_text(bytes@),
        base64_bytes(text@) == Some(bytes@),
{
    proof {
        base64_round_trip(bytes@);
    }
    encode_standard(bytes)
}

/// Hexadecimal text decodes to the bytes that it was written from.
pub proof fn hex_round_trip(bytes: Seq<u8>)
    ensures
        is_hex(hex_text(bytes)),
        hex_bytes(hex_text(bytes)) == bytes,
{
    let text = hex_text(bytes);
    assert forall|v: u8| v < 16 implies #[trigger] hex_digit(hex_char(v)) == Some(v) by {
    }
    assert forall|i: int| 0 <= i < text.len() implies hex_digit(#[trigger] text[i]) is Some by {
        if i % 2 == 0 {
            assert(hex_digit(hex_char(bytes[i / 2] / 16)) is Some);
        } else {
            assert(hex_digit(hex_char(bytes[i / 2] % 16)) is Some);
        }
    }
    assert forall|i: int| 0 <= i < bytes.len() implies #[trigger] hex_bytes(text)[i] == bytes[i] by {
        assert(hex_digit(hex_char(bytes[i] / 16)) == Some((bytes[i] / 16) as u8));
        assert(hex_digit(hex_char(bytes[i] % 16)) == Some((bytes[i] % 16) as u8));
    }
    assert(hex_bytes(text) =~= bytes);
}

} // verus!
