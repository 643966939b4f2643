//! Questions that something outside the library answers.

use vstd::prelude::*;
use crate::json::{check_plain, json_text, print_document, Json, Value, MAX_NESTING};

verus! {

/// Whether a question can be put about any bytes and has one answer for each.
pub open spec fn decides<F: Fn(&Vec<u8>) -> bool>(f: F) -> bool {
    &&& forall|b: &Vec<u8>| call_requires(f, (b,))
    &&& forall|a: &Vec<u8>, b: &Vec<u8>, x: bool, y: bool|
        a@ == b@ && #[trigger] call_ensures(f, (a,), x) && #[trigger] call_ensures(f, (b,), y) ==> x == y
}

/// Whether the answer for these bytes is yes.
pub open spec fn yes<F: Fn(&Vec<u8>) -> bool>(f: F, bytes: Seq<u8>) -> bool {
    exists|b: &Vec<u8>| b@ == bytes && #[trigger] call_ensures(f, (b,), true)
}

/// Puts the question.
pub fn ask<F: Fn(&Vec<u8>) -> bool>(f: &F, bytes: &Vec<u8>) -> (answer: bool)
    requires
        decides(*f),
    ensures
        answer == yes(*f, bytes@),
{
    let answer = f(bytes);
    assert(call_ensures(*f, (bytes,), answer));
    answer
}

/// Whether any signature can be checked, by a key over a text, and each check has one
/// answer.
pub open spec fn checks_signatures<F: Fn(&Vec<u8>, &Vec<u8>, &Vec<u8>) -> bool>(f: F) -> bool {
    &&& forall|k: &Vec<u8>, t: &Vec<u8>, s: &Vec<u8>| call_requires(f, (k, t, s))
    &&& forall|k: &Vec<u8>, t: &Vec<u8>, s: &Vec<u8>, l: &Vec<u8>, u: &Vec<u8>, v: &Vec<u8>, x: bool, y: bool|
        k@ == l@ && t@ == u@ && s@ == v@ && #[trigger] call_ensures(f, (k, t, s), x) && #[trigger] call_ensures(
            f,
            (l, u, v),
            y,
        ) ==> x == y
}

/// Whether a signature by a key over a text holds.
pub open spec fn signature_holds<F: Fn(&Vec<u8>, &Vec<u8>, &Vec<u8>) -> bool>(
    f: F,
    key: Seq<u8>,
    text: Seq<u8>,
    signature: Seq<u8>,
) -> bool {
    exists|k: &Vec<u8>, t: &Vec<u8>, s: &Vec<u8>|
        k@ == key && t@ == text && s@ == signature && #[trigger] call_ensures(f, (k, t, s), true)
}

/// Checks a signature.
pub fn check_signature<F: Fn(&Vec<u8>, &Vec<u8>, &Vec<u8>) -> bool>(
    f: &F,
    key: &Vec<u8>,
    text: &Vec<u8>,
    signature: &Vec<u8>,
) -> (answer: bool)
    requires
        checks_signatures(*f),
    ensures
        answer == signature_holds(*f, key@, text@, signature@),
{
    let answer = f(key, text, signature);
    assert(call_ensures(*f, (key, text, signature), answer));
    answer
}

/// The text of an objection, where there is one.
pub open spec fn objected(outcome: Result<(), String>) -> Option<Seq<char>> {
    match outcome {
        Ok(_) => None,
        Err(e) => Some(e@),
    }
}

/// Whether any value can be tried and each comes out in one way.
pub open spec fn tries<X, J: Fn(&X) -> Result<(), String>>(j: J) -> bool {
    &&& forall|x: &X| call_requires(j, (x,))
    &&& forall|x: &X, a: Result<(), String>, b: Result<(), String>|
        #[trigger] call_ensures(j, (x,), a) && #[trigger] call_ensures(j, (x,), b) ==> objected(a) == objected(b)
}

/// What is objected to a value.
pub open spec fn fault<X, J: Fn(&X) -> Result<(), String>>(j: J, value: X) -> Option<Seq<char>> {
    objected(choose|outcome: Result<(), String>| call_ensures(j, (&value,), outcome))
}

/// Tries a value.
pub fn attempt<X, J: Fn(&X) -> Result<(), String>>(j: &J, value: &X) -> (outcome: Result<(), String>)
    requires
        tries(*j),
    ensures
        objected(outcome) == fault(*j, *value),
{
    let outcome = j(value);
    assert(call_ensures(*j, (value,), outcome));
    outcome
}

/// Whether any document can be written out, and each in one way.
pub open spec fn prints<P: Fn(&Value) -> Vec<u8>>(print: P) -> bool {
    &&& forall|v: &Value| call_requires(print, (v,))
    &&& forall|v: &Value, w: &Value, a: Vec<u8>, b: Vec<u8>|
        v@ == w@ && #[trigger] call_ensures(print, (v,), a) && #[trigger] call_ensures(print, (w,), b) ==> a@ == b@
}

/// Whether a document may be written out so.
pub open spec fn prints_as<P: Fn(&Value) -> Vec<u8>>(print: P, document: Json, text: Vec<u8>) -> bool {
    exists|v: &Value| v@ == document && #[trigger] call_ensures(print, (v,), text)
}

/// The text of a document: its compact text, or what `print` writes where a document
/// holds a fraction, which has no value here, or nests too deep.
pub open spec fn printed<P: Fn(&Value) -> Vec<u8>>(print: P, document: Json) -> Seq<u8> {
    if document.plain(MAX_NESTING as nat) {
        json_text(document)
    } else {
        (choose|text: Vec<u8>| prints_as(print, document, text))@
    }
}

/// Writes a document out.
pub fn write_out<P: Fn(&Value) -> Vec<u8>>(print: &P, document: &Value) -> (text: Vec<u8>)
    requires
        prints(*print),
    ensures
        text@ == printed(*print, document@),
{
    if check_plain(document, MAX_NESTING) {
        return print_document(document);
    }
    let text = print(document);
    proof {
        assert(call_ensures(*print, (document,), text));
        assert(prints_as(*print, document@, text));
        let chosen = choose|text: Vec<u8>| prints_as(*print, document@, text);
        assert(prints_as(*print, document@, chosen));
        let v = choose|v: &Value| v@ == document@ && #[trigger] call_ensures(*print, (v,), chosen);
        assert(call_ensures(*print, (v,), chosen));
    }
    text
}

/// Whether any bytes can be judged and each have one judgement.
pub open spec fn judges<J: Fn(&Vec<u8>) -> Result<(), String>>(j: J) -> bool {
    &&& forall|b: &Vec<u8>| call_requires(j, (b,))
    &&& forall|a: &Vec<u8>, b: &Vec<u8>, x: Result<(), String>, y: Result<(), String>|
        a@ == b@ && #[trigger] call_ensures(j, (a,), x) && #[trigger] call_ensures(j, (b,), y) ==> objected(x)
            == objected(y)
}

/// Whether an outcome may be the judgement on these bytes.
pub open spec fn judged<J: Fn(&Vec<u8>) -> Result<(), String>>(
    j: J,
    bytes: Seq<u8>,
    outcome: Result<(), String>,
) -> bool {
    exists|b: &Vec<u8>| b@ == bytes && #[trigger] call_ensures(j, (b,), outcome)
}

/// What is objected to these bytes.
pub open spec fn objection<J: Fn(&Vec<u8>) -> Result<(), String>>(j: J, bytes: Seq<u8>) -> Option<Seq<char>> {
    objected(choose|outcome: Result<(), String>| judged(j, bytes, outcome))
}

/// Asks for the judgement.
pub fn judge<J: Fn(&Vec<u8>) -> Result<(), String>>(j: &J, bytes: &Vec<u8>) -> (outcome: Result<(), String>)
    requires
        judges(*j),
    ensures
        objected(outcome) == objection(*j, bytes@),
{
    let outcome = j(bytes);
    proof {
        assert(call_ensures(*j, (bytes,), outcome));
        assert(judged(*j, bytes@, outcome));
        let chosen = choose|outcome: Result<(), String>| judged(*j, bytes@, outcome);
        assert(judged(*j, bytes@, chosen));
        let b = choose|b: &Vec<u8>| b@ == bytes@ && #[trigger] call_ensures(*j, (b,), chosen);
        assert(call_ensures(*j, (b,), chosen));
    }
    outcome
}

} // verus!
