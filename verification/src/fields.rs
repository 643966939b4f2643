//! Reading bounded lists, digests, points and scalars out of JSON documents.

use vstd::prelude::*;
use crate::bytes::array32;
use crate::group::{decodes_to_point, decodes_to_scalar, is_point, is_scalar, Point, Scalar};
use crate::json::{array_in, as_array, as_text, said, text_in, Json, Value};
use crate::text::{about, decimal, decimal_text, hex_bytes, hex_decode, hex_round_trip, hex_text, is_hex};
use vstd::string::StringExecFns;

verus! {

/// The first of two refusals.
pub open spec fn either(first: Option<Seq<char>>, second: Option<Seq<char>>) -> Option<Seq<char>> {
    if first is Some {
        first
    } else {
        second
    }
}

/// A complaint, unless a condition holds.
pub open spec fn unless(holds: bool, complaint: Seq<char>) -> Option<Seq<char>> {
    if holds {
        None
    } else {
        Some(complaint)
    }
}

/// The first refusal of a list under a check of its elements.
pub open spec fn first<T>(values: Seq<T>, check: spec_fn(T) -> Option<Seq<char>>) -> Option<Seq<char>>
    decreases values.len(),
{
    if values.len() == 0 {
        None
    } else {
        either(first(values.drop_last(), check), check(values.last()))
    }
}

/// What holds of a list up to a place decides its first refusal.
pub proof fn first_at<T>(values: Seq<T>, check: spec_fn(T) -> Option<Seq<char>>, at: int)
    requires
        0 <= at < values.len(),
        first(values.take(at), check) is None,
    ensures
        check(values[at]) is Some ==> first(values, check) == check(values[at]),
        first(values.take(at + 1), check) == check(values[at]),
    decreases values.len(),
{
    assert(values.take(at + 1).drop_last() =~= values.take(at));
    if at < values.len() - 1 {
        assert(values.drop_last().take(at) =~= values.take(at));
        first_at(values.drop_last(), check, at);
    } else {
        assert(values.take(at) =~= values.drop_last());
    }
}

/// A list without a refused element has no refusal.
pub proof fn first_none<T>(values: Seq<T>, check: spec_fn(T) -> Option<Seq<char>>)
    requires
        forall|i: int| 0 <= i < values.len() ==> check(#[trigger] values[i]) is None,
    ensures
        first(values, check) is None,
    decreases values.len(),
{
    if values.len() > 0 {
        assert forall|i: int| 0 <= i < values.len() - 1 implies check(#[trigger] values.drop_last()[i]) is None by {
            assert(check(values[i]) is None);
        }
        first_none(values.drop_last(), check);
    }
}

/// Why a length is refused.
pub open spec fn length_refusal(length: nat, minimum: nat, maximum: nat, name: Seq<char>) -> Option<Seq<char>> {
    if length < minimum || length > maximum {
        Some(name + " length is outside ["@ + decimal(minimum) + ", "@ + decimal(maximum) + "]"@)
    } else {
        None
    }
}

/// Checks the length of a list.
pub fn bounded(length: usize, minimum: usize, maximum: usize, name: &str) -> (r: Result<(), String>)
    ensures
        match r {
            Ok(_) => length_refusal(length as nat, minimum as nat, maximum as nat, name@) is None,
            Err(e) => length_refusal(length as nat, minimum as nat, maximum as nat, name@) == Some(e@),
        },
{
    if length < minimum || length > maximum {
        return Err(
            about(name, " length is outside [").concat(decimal_text(minimum as u64).as_str()).concat(", ").concat(
                decimal_text(maximum as u64).as_str(),
            ).concat("]"),
        );
    }
    Ok(())
}

/// The bytes that a hexadecimal text of a document writes.
pub open spec fn hex_in(value: Option<Json>) -> Seq<u8> {
    hex_bytes(text_in(value)->0)
}

/// Why a document is not thirty-two bytes in hexadecimal.
pub open spec fn hex_refusal(value: Option<Json>, name: Seq<char>) -> Option<Seq<char>> {
    match text_in(value) {
        None => Some(name + " must be hexadecimal"@),
        Some(t) => if !is_hex(t) {
            Some(name + " must be hexadecimal"@)
        } else if hex_bytes(t).len() != 32 {
            Some(name + " must contain 32 bytes"@)
        } else {
            None
        },
    }
}

/// Reads thirty-two bytes in hexadecimal.
pub fn parse_hex(value: Option<&Value>, name: &str) -> (r: Result<[u8; 32], String>)
    ensures
        match r {
            Ok(bytes) => hex_refusal(said(value), name@) is None && bytes@ == hex_in(said(value)),
            Err(e) => hex_refusal(said(value), name@) == Some(e@),
        },
{
    let text = match as_text(value) {
        None => {
            return Err(about(name, " must be hexadecimal"));
        },
        Some(text) => text,
    };
    match hex_decode(text) {
        None => Err(about(name, " must be hexadecimal")),
        Some(bytes) => if bytes.len() != 32 {
            Err(about(name, " must contain 32 bytes"))
        } else {
            let array = array32(bytes.as_slice(), 0);
            assert(array@ =~= bytes@);
            Ok(array)
        },
    }
}

/// Why a document is not a point.
pub open spec fn point_refusal(value: Option<Json>, name: Seq<char>) -> Option<Seq<char>> {
    either(
        hex_refusal(value, name),
        if is_point(hex_in(value)) {
            None
        } else {
            Some(name + " is not a canonical Ristretto point"@)
        },
    )
}

/// Reads a point.
pub fn parse_point(value: Option<&Value>, name: &str) -> (r: Result<Point, String>)
    ensures
        match r {
            Ok(p) => point_refusal(said(value), name@) is None && p@ == hex_in(said(value)) && is_point(p@),
            Err(e) => point_refusal(said(value), name@) == Some(e@),
        },
{
    match parse_hex(value, name) {
        Err(e) => Err(e),
        Ok(bytes) => if decodes_to_point(&bytes) {
            Ok(Point { bytes })
        } else {
            Err(about(name, " is not a canonical Ristretto point"))
        },
    }
}

/// Why a document is not a scalar.
pub open spec fn scalar_refusal(value: Option<Json>, name: Seq<char>) -> Option<Seq<char>> {
    either(
        hex_refusal(value, name),
        if is_scalar(hex_in(value)) {
            None
        } else {
            Some(name + " is not a canonical Ristretto scalar"@)
        },
    )
}

/// Reads a scalar.
pub fn parse_scalar(value: Option<&Value>, name: &str) -> (r: Result<Scalar, String>)
    ensures
        match r {
            Ok(s) => scalar_refusal(said(value), name@) is None && s@ == hex_in(said(value)) && is_scalar(s@),
            Err(e) => scalar_refusal(said(value), name@) == Some(e@),
        },
{
    match parse_hex(value, name) {
        Err(e) => Err(e),
        Ok(bytes) => if decodes_to_scalar(&bytes) {
            Ok(Scalar { bytes })
        } else {
            Err(about(name, " is not a canonical Ristretto scalar"))
        },
    }
}

/// Why a document is not a bounded non-empty list.
pub open spec fn array_refusal(value: Option<Json>, name: Seq<char>, maximum: nat) -> Option<Seq<char>> {
    match array_in(value) {
        None => Some(name + " must be an array"@),
        Some(values) => length_refusal(values.len(), 1, maximum, name),
    }
}

/// The elements of a document that is a list.
pub open spec fn items(value: Option<Json>) -> Seq<Json> {
    array_in(value)->0
}

/// Reads a bounded non-empty list.
pub fn parse_array<'a>(value: Option<&'a Value>, name: &str, maximum: usize) -> (r: Result<&'a Vec<Value>, String>)
    ensures
        match r {
            Ok(values) => {
                &&& array_refusal(said(value), name@, maximum as nat) is None
                &&& items(said(value)).len() == values@.len()
                &&& 1 <= values@.len() <= maximum
                &&& forall|i: int| 0 <= i < values@.len() ==> #[trigger] items(said(value))[i] == values@[i]@
            },
            Err(e) => array_refusal(said(value), name@, maximum as nat) == Some(e@),
        },
{
    match as_array(value) {
        None => Err(about(name, " must be an array")),
        Some(values) => match bounded(values.len(), 1, maximum, name) {
            Err(e) => Err(e),
            Ok(_) => Ok(values),
        },
    }
}

/// The check that an element is a point.
pub open spec fn point_check(name: Seq<char>) -> spec_fn(Json) -> Option<Seq<char>> {
    |element: Json| point_refusal(Some(element), name)
}

/// The check that an element is a scalar.
pub open spec fn scalar_check(name: Seq<char>) -> spec_fn(Json) -> Option<Seq<char>> {
    |element: Json| scalar_refusal(Some(element), name)
}

/// Why a document is not a list of points.
pub open spec fn points_refusal(value: Option<Json>, name: Seq<char>, maximum: nat) -> Option<Seq<char>> {
    either(array_refusal(value, name, maximum), first(items(value), point_check(name)))
}

/// Why a document is not a list of scalars.
pub open spec fn scalars_refusal(value: Option<Json>, name: Seq<char>, maximum: nat) -> Option<Seq<char>> {
    either(array_refusal(value, name, maximum), first(items(value), scalar_check(name)))
}

/// Whether points are those that a list of a document writes.
pub open spec fn points_said(value: Option<Json>, points: Seq<Point>) -> bool {
    &&& points.len() == items(value).len()
    &&& forall|i: int|
        0 <= i < points.len() ==> (#[trigger] points[i])@ == hex_in(Some(items(value)[i])) && is_point(points[i]@)
}

/// Whether scalars are those that a list of a document writes.
pub open spec fn scalars_said(value: Option<Json>, scalars: Seq<Scalar>) -> bool {
    &&& scalars.len() == items(value).len()
    &&& forall|i: int|
        0 <= i < scalars.len() ==> (#[trigger] scalars[i])@ == hex_in(Some(items(value)[i])) && is_scalar(scalars[i]@)
}

/// Reads a bounded list of points.
pub fn parse_points(value: Option<&Value>, name: &str, maximum: usize) -> (r: Result<Vec<Point>, String>)
    ensures
        match r {
            Ok(points) => points_refusal(said(value), name@, maximum as nat) is None && points_said(
                said(value),
                points@,
            ) && 1 <= points@.len() <= maximum,
            Err(e) => points_refusal(said(value), name@, maximum as nat) == Some(e@),
        },
{
    let values = match parse_array(value, name, maximum) {
        Err(e) => {
            return Err(e);
        },
        Ok(values) => values,
    };
    let ghost all = items(said(value));
    let ghost check = point_check(name@);
    let mut points: Vec<Point> = Vec::new();
    let mut i: usize = 0;
    #[verifier::loop_isolation(false)]
    while i < values.len()
        invariant
            i <= values@.len(),
            points@.len() == i,
            first(all.take(i as int), check) is None,
            forall|j: int|
                0 <= j < i ==> (#[trigger] points@[j])@ == hex_in(Some(all[j])) && is_point(points@[j]@),
        decreases values@.len() - i,
    {
        proof {
            first_at(all, check, i as int);
            assert(all[i as int] == values@[i as int]@);
        }
        match parse_point(Some(&values[i]), name) {
            Err(e) => {
                return Err(e);
            },
            Ok(p) => {
                points.push(p);
            },
        }
        i = i + 1;
    }
    assert(all.take(i as int) =~= all);
    Ok(points)
}

/// Reads a bounded list of scalars.
pub fn parse_scalars(value: Option<&Value>, name: &str, maximum: usize) -> (r: Result<Vec<Scalar>, String>)
    ensures
        match r {
            Ok(scalars) => scalars_refusal(said(value), name@, maximum as nat) is None && scalars_said(
                said(value),
                scalars@,
            ) && 1 <= scalars@.len() <= maximum,
            Err(e) => scalars_refusal(said(value), name@, maximum as nat) == Some(e@),
        },
{
    let values = match parse_array(value, name, maximum) {
        Err(e) => {
            return Err(e);
        },
        Ok(values) => values,
    };
    let ghost all = items(said(value));
    let ghost check = scalar_check(name@);
    let mut scalars: Vec<Scalar> = Vec::new();
    let mut i: usize = 0;
    #[verifier::loop_isolation(false)]
    while i < values.len()
        invariant
            i <= values@.len(),
            scalars@.len() == i,
            first(all.take(i as int), check) is None,
            forall|j: int|
                0 <= j < i ==> (#[trigger] scalars@[j])@ == hex_in(Some(all[j])) && is_scalar(scalars@[j]@),
        decreases values@.len() - i,
    {
        proof {
            first_at(all, check, i as int);
            assert(all[i as int] == values@[i as int]@);
        }
        match parse_scalar(Some(&values[i]), name) {
            Err(e) => {
                return Err(e);
            },
            Ok(s) => {
                scalars.push(s);
            },
        }
        i = i + 1;
    }
    assert(all.take(i as int) =~= all);
    Ok(scalars)
}

/// Why a document is not an object.
pub open spec fn object_refusal(value: Json, name: Seq<char>) -> Option<Seq<char>> {
    if value is Object {
        None
    } else {
        Some(name + " must be an object"@)
    }
}

/// Checks that a document is an object.
pub fn check_object(value: &Value, name: &str) -> (r: Result<(), String>)
    ensures
        match r {
            Ok(_) => object_refusal(value@, name@) is None,
            Err(e) => object_refusal(value@, name@) == Some(e@),
        },
{
    match value {
        Value::Object(_) => Ok(()),
        _ => Err(about(name, " must be an object")),
    }
}

/// The document that writes bytes in hexadecimal.
pub open spec fn hex_json(bytes: Seq<u8>) -> Json {
    Json::Text(hex_text(bytes))
}

/// Bytes that were written in hexadecimal are read back.
pub proof fn hex_json_read(bytes: Seq<u8>, name: Seq<char>)
    requires
        bytes.len() == 32,
    ensures
        hex_refusal(Some(hex_json(bytes)), name) is None,
        hex_in(Some(hex_json(bytes))) == bytes,
        is_point(bytes) ==> point_refusal(Some(hex_json(bytes)), name) is None,
        is_scalar(bytes) ==> scalar_refusal(Some(hex_json(bytes)), name) is None,
{
    hex_round_trip(bytes);
}

} // verus!
