//! JSON documents as plain values.

use serde_json::Value as Document;
use vstd::prelude::*;
use crate::text::same_text;

verus! {

/// A JSON document. Numbers that are not integers carry no value: nothing here reads one.
#[derive(Debug)]
pub enum Value {
    Null,
    Bool(bool),
    Integer(i128),
    Fraction,
    Text(String),
    Array(Vec<Value>),
    Object(Vec<(String, Value)>),
}

/// What a JSON document says.
pub ghost enum Json {
    Null,
    Bool(bool),
    Integer(int),
    Fraction,
    Text(Seq<char>),
    Array(Seq<Json>),
    Object(Map<Seq<char>, Json>),
}

impl View for Value {
    type V = Json;

    open spec fn view(&self) -> Json {
        says(*self)
    }
}

/// What a document says. Of two members of one name the later counts.
pub open spec fn says(value: Value) -> Json
    decreases value, 0nat,
{
    match value {
        Value::Null => Json::Null,
        Value::Bool(b) => Json::Bool(b),
        Value::Integer(i) => Json::Integer(i as int),
        Value::Fraction => Json::Fraction,
        Value::Text(t) => Json::Text(t@),
        Value::Array(values) => Json::Array(elements(values, values@.len())),
        Value::Object(entries) => Json::Object(members(entries, entries@.len())),
    }
}

/// What the first `count` elements say.
pub open spec fn elements(values: Vec<Value>, count: nat) -> Seq<Json>
    decreases values, count,
{
    if count == 0 || count > values@.len() {
        Seq::empty()
    } else {
        elements(values, (count - 1) as nat).push(says(values[count - 1]))
    }
}

/// What the first `count` members say.
pub open spec fn members(entries: Vec<(String, Value)>, count: nat) -> Map<Seq<char>, Json>
    decreases entries, count,
{
    if count == 0 || count > entries@.len() {
        Map::empty()
    } else {
        members(entries, (count - 1) as nat).insert(entries[count - 1].0@, says(entries[count - 1].1))
    }
}

/// The elements, one by one.
pub proof fn elements_at(values: Vec<Value>, count: nat)
    requires
        count <= values@.len(),
    ensures
        elements(values, count).len() == count,
        forall|i: int| 0 <= i < count ==> #[trigger] elements(values, count)[i] == values@[i]@,
    decreases count,
{
    if count > 0 {
        elements_at(values, (count - 1) as nat);
    }
}

impl Json {
    /// The member of a name.
    pub open spec fn field(self, name: Seq<char>) -> Option<Json> {
        match self {
            Json::Object(fields) => if fields.dom().contains(name) {
                Some(fields[name])
            } else {
                None
            },
            _ => None,
        }
    }

    /// Whether a document nests at most `levels` deep and every number in it is
    /// an integer of sixty-four bits.
    pub open spec fn plain(self, levels: nat) -> bool
        decreases levels,
    {
        levels > 0 && match self {
            Json::Null => true,
            Json::Bool(_) => true,
            Json::Integer(i) => -0x8000_0000_0000_0000 <= i <= 0xffff_ffff_ffff_ffff,
            Json::Fraction => false,
            Json::Text(_) => true,
            Json::Array(values) => forall|i: int|
                0 <= i < values.len() ==> (#[trigger] values[i]).plain((levels - 1) as nat),
            Json::Object(fields) => forall|name: Seq<char>| #[trigger]
                fields.dom().contains(name) ==> fields[name].plain((levels - 1) as nat),
        }
    }
}

/// The text of a document that may be absent.
pub open spec fn text_in(value: Option<Json>) -> Option<Seq<char>> {
    match value {
        Some(Json::Text(t)) => Some(t),
        _ => None,
    }
}

/// The unsigned integer of a document that may be absent.
pub open spec fn unsigned_in(value: Option<Json>) -> Option<nat> {
    match value {
        Some(Json::Integer(i)) => if 0 <= i <= u64::MAX {
            Some(i as nat)
        } else {
            None
        },
        _ => None,
    }
}

/// The signed integer of a document that may be absent.
pub open spec fn signed_in(value: Option<Json>) -> Option<int> {
    match value {
        Some(Json::Integer(i)) => if i64::MIN <= i <= i64::MAX {
            Some(i)
        } else {
            None
        },
        _ => None,
    }
}

/// The elements of a document that may be absent.
pub open spec fn array_in(value: Option<Json>) -> Option<Seq<Json>> {
    match value {
        Some(Json::Array(values)) => Some(values),
        _ => None,
    }
}

/// What a document that may be absent says.
pub open spec fn said(value: Option<&Value>) -> Option<Json> {
    match value {
        Some(v) => Some(v@),
        None => None,
    }
}

impl Value {
    /// The member of a name.
    pub fn get(&self, name: &str) -> (found: Option<&Value>)
        ensures
            said(found) == self@.field(name@),
    {
        match self {
            Value::Object(entries) => {
                let mut left: usize = entries.len();
                while left > 0
                    invariant
                        left <= entries@.len(),
                        self@ == Json::Object(members(*entries, entries@.len())),
                        members(*entries, entries@.len()).dom().contains(name@) == members(
                            *entries,
                            left as nat,
                        ).dom().contains(name@),
                        members(*entries, left as nat).dom().contains(name@) ==> members(
                            *entries,
                            entries@.len(),
                        )[name@] == members(*entries, left as nat)[name@],
                    decreases left,
                {
                    if same_text(entries[left - 1].0.as_str(), name) {
                        return Some(&entries[left - 1].1);
                    }
                    left = left - 1;
                }
                None
            },
            _ => None,
        }
    }
}

/// The text of a document that may be absent.
pub fn as_text<'a>(value: Option<&'a Value>) -> (text: Option<&'a str>)
    ensures
        match text {
            Some(t) => text_in(said(value)) == Some(t@),
            None => text_in(said(value)) is None,
        },
{
    match value {
        Some(Value::Text(t)) => Some(t.as_str()),
        _ => None,
    }
}

/// The unsigned integer of a document that may be absent.
pub fn as_unsigned(value: Option<&Value>) -> (number: Option<u64>)
    ensures
        match number {
            Some(n) => unsigned_in(said(value)) == Some(n as nat),
            None => unsigned_in(said(value)) is None,
        },
{
    match value {
        Some(Value::Integer(i)) => if 0 <= *i && *i <= 0xffff_ffff_ffff_ffff {
            Some(*i as u64)
        } else {
            None
        },
        _ => None,
    }
}

/// The signed integer of a document that may be absent.
pub fn as_signed(value: Option<&Value>) -> (number: Option<i64>)
    ensures
        match number {
            Some(n) => signed_in(said(value)) == Some(n as int),
            None => signed_in(said(value)) is None,
        },
{
    match value {
        Some(Value::Integer(i)) => if -0x8000_0000_0000_0000 <= *i && *i <= 0x7fff_ffff_ffff_ffff {
            Some(*i as i64)
        } else {
            None
        },
        _ => None,
    }
}

/// The elements of a document that may be absent.
pub fn as_array<'a>(value: Option<&'a Value>) -> (values: Option<&'a Vec<Value>>)
    ensures
        match values {
            Some(v) => array_in(said(value)) == Some(elements(*v, v@.len())) && elements(*v, v@.len()).len() == v@.len()
                && forall|i: int| 0 <= i < v@.len() ==> #[trigger] elements(*v, v@.len())[i] == v@[i]@,
            None => array_in(said(value)) is None,
        },
{
    match value {
        Some(Value::Array(v)) => {
            proof {
                elements_at(*v, v@.len());
            }
            Some(v)
        },
        _ => None,
    }
}

impl Value {
    /// A copy.
    pub fn copy(&self) -> (value: Value)
        ensures
            value@ == self@,
        decreases *self, 0nat,
    {
        match self {
            Value::Null => Value::Null,
            Value::Bool(b) => Value::Bool(*b),
            Value::Integer(i) => Value::Integer(*i),
            Value::Fraction => Value::Fraction,
            Value::Text(t) => Value::Text(t.as_str().to_owned()),
            Value::Array(values) => {
                let mut copies: Vec<Value> = Vec::new();
                let mut i: usize = 0;
                while i < values.len()
                    invariant
                        i <= values@.len(),
                        copies@.len() == i,
                        *self == Value::Array(*values),
                        elements(copies, i as nat) == elements(*values, i as nat),
                    decreases values@.len() - i,
                {
                    assert(decreases_to!(*self => self->Array_0));
                    assert(self->Array_0 == *values);
                    assert(decreases_to!(*values => values[i as int]));
                    let next = values[i].copy();
                    let ghost before = copies;
                    copies.push(next);
                    proof {
                        elements_of_prefix(before, copies, i as nat);
                    }
                    i = i + 1;
                }
                Value::Array(copies)
            },
            Value::Object(entries) => {
                let mut copies: Vec<(String, Value)> = Vec::new();
                let mut i: usize = 0;
                while i < entries.len()
                    invariant
                        i <= entries@.len(),
                        copies@.len() == i,
                        *self == Value::Object(*entries),
                        members(copies, i as nat) == members(*entries, i as nat),
                    decreases entries@.len() - i,
                {
                    let name = entries[i].0.as_str().to_owned();
                    assert(decreases_to!(*self => self->Object_0));
                    assert(self->Object_0 == *entries);
                    assert(decreases_to!(*entries => entries[i as int]));
                    assert(decreases_to!(entries[i as int] => entries[i as int].1));
                    let next = entries[i].1.copy();
                    let ghost before = copies;
                    copies.push((name, next));
                    proof {
                        members_of_prefix(before, copies, i as nat);
                    }
                    i = i + 1;
                }
                Value::Object(copies)
            },
        }
    }
}

proof fn elements_of_prefix(before: Vec<Value>, after: Vec<Value>, count: nat)
    requires
        count <= before@.len() <= after@.len(),
        forall|i: int| 0 <= i < count ==> #[trigger] after@[i] == before@[i],
    ensures
        elements(after, count) == elements(before, count),
    decreases count,
{
    if count > 0 {
        elements_of_prefix(before, after, (count - 1) as nat);
        assert(after@[count - 1] == before@[count - 1]);
    }
}

proof fn members_of_prefix(before: Vec<(String, Value)>, after: Vec<(String, Value)>, count: nat)
    requires
        count <= before@.len() <= after@.len(),
        forall|i: int| 0 <= i < count ==> #[trigger] after@[i] == before@[i],
    ensures
        members(after, count) == members(before, count),
    decreases count,
{
    if count > 0 {
        members_of_prefix(before, after, (count - 1) as nat);
        assert(after@[count - 1] == before@[count - 1]);
    }
}

/// Whether a member of a name stands at or after a place.
spec fn named_from(entries: Seq<(String, Value)>, name: Seq<char>, from: int) -> bool {
    exists|j: int| from <= j < entries.len() && (#[trigger] entries[j]).0@ == name
}

/// Whether a member has a name.
spec fn has_name(entries: Seq<(String, Value)>, name: Seq<char>) -> bool {
    exists|k: int| 0 <= k < entries.len() && (#[trigger] entries[k]).0@ == name
}

/// A name that is told has its last member.
proof fn last_member(entries: Vec<(String, Value)>, count: nat, name: Seq<char>) -> (at: int)
    requires
        count <= entries@.len(),
        members(entries, count).dom().contains(name),
    ensures
        0 <= at < count,
        entries@[at].0@ == name,
        members(entries, count)[name] == entries@[at].1@,
        forall|j: int| at < j < count ==> (#[trigger] entries@[j]).0@ != name,
    decreases count,
{
    if entries@[count - 1].0@ == name {
        count - 1
    } else {
        last_member(entries, (count - 1) as nat, name)
    }
}

/// A member that no later one has the name of is told.
proof fn member_told(entries: Vec<(String, Value)>, count: nat, at: int)
    requires
        0 <= at < count <= entries@.len(),
        forall|j: int| at < j < count ==> (#[trigger] entries@[j]).0@ != entries@[at].0@,
    ensures
        members(entries, count).dom().contains(entries@[at].0@),
        members(entries, count)[entries@[at].0@] == entries@[at].1@,
    decreases count,
{
    if at < count - 1 {
        assert(entries@[count - 1].0@ != entries@[at].0@);
        member_told(entries, (count - 1) as nat, at);
    }
}

fn is_named_from(entries: &Vec<(String, Value)>, name: &str, from: usize) -> (r: bool)
    ensures
        r == named_from(entries@, name@, from as int),
{
    let mut j: usize = from;
    while j < entries.len()
        invariant
            from <= j,
            forall|k: int| from <= k < j && k < entries@.len() ==> (#[trigger] entries@[k]).0@ != name@,
        decreases entries@.len() - j,
    {
        if same_text(entries[j].0.as_str(), name) {
            return true;
        }
        j = j + 1;
    }
    false
}

/// Whether a document may be printed: it nests at most `levels` deep and every
/// number in it is an integer of sixty-four bits. Of two members of one name only
/// the later counts.
pub fn check_plain(value: &Value, levels: usize) -> (r: bool)
    ensures
        r == value@.plain(levels as nat),
    decreases levels,
{
    if levels == 0 {
        return false;
    }
    match value {
        Value::Null => true,
        Value::Bool(_) => true,
        Value::Text(_) => true,
        Value::Integer(i) => -0x8000_0000_0000_0000 <= *i && *i <= 0xffff_ffff_ffff_ffff,
        Value::Fraction => false,
        Value::Array(values) => {
            let ghost all = elements(*values, values@.len());
            proof {
                elements_at(*values, values@.len());
            }
            assert(value@ == Json::Array(all));
            let mut i: usize = 0;
            while i < values.len()
                invariant
                    i <= values@.len(),
                    levels > 0,
                    value@ == Json::Array(all),
                    all.len() == values@.len(),
                    forall|j: int| 0 <= j < all.len() ==> #[trigger] all[j] == values@[j]@,
                    forall|j: int| 0 <= j < i ==> (#[trigger] all[j]).plain((levels - 1) as nat),
                decreases values@.len() - i,
            {
                if !check_plain(&values[i], levels - 1) {
                    proof {
                        let document = value@;
                        assert(!document->Array_0[i as int].plain((levels - 1) as nat));
                    }
                    return false;
                }
                i = i + 1;
            }
            true
        },
        Value::Object(entries) => {
            let ghost all = members(*entries, entries@.len());
            assert(value@ == Json::Object(all));
            let mut i: usize = 0;
            while i < entries.len()
                invariant
                    i <= entries@.len(),
                    levels > 0,
                    value@ == Json::Object(all),
                    all == members(*entries, entries@.len()),
                    forall|j: int|
                        0 <= j < i ==> (#[trigger] entries@[j]).1@.plain((levels - 1) as nat) || named_from(
                            entries@,
                            entries@[j].0@,
                            j + 1,
                        ),
                decreases entries@.len() - i,
            {
                if !check_plain(&entries[i].1, levels - 1) && !is_named_from(entries, entries[i].0.as_str(), i + 1) {
                    proof {
                        member_told(*entries, entries@.len(), i as int);
                        let document = value@;
                        let name = entries@[i as int].0@;
                        assert(document->Object_0.dom().contains(name));
                        assert(!document->Object_0[name].plain((levels - 1) as nat));
                    }
                    return false;
                }
                i = i + 1;
            }
            proof {
                assert forall|name: Seq<char>| #[trigger] all.dom().contains(name) implies all[name].plain(
                    (levels - 1) as nat,
                ) by {
                    let at = last_member(*entries, entries@.len(), name);
                    assert(!named_from(entries@, entries@[at].0@, at + 1));
                }
            }
            true
        },
    }
}

/// The document that a byte string writes, where it is JSON.
pub uninterp spec fn json_document(text: Seq<u8>) -> Option<Json>;

/// The compact JSON text of a document.
pub uninterp spec fn json_text(document: Json) -> Seq<u8>;

/// `serde_json::from_slice` into `serde_json::Value`: whether the bytes are a
/// JSON document, and what it says, is a function of the bytes alone.
#[verifier::external_body]
pub(crate) fn parse_json(raw: &[u8]) -> (value: Option<Value>)
    ensures
        value is Some <==> json_document(raw@) is Some,
        value matches Some(v) ==> json_document(raw@) == Some(v@),
{
    let part = |v: &Document| parse_json(v.to_string().as_bytes());
    Some(match serde_json::from_slice(raw).ok()? {
        Document::Null => Value::Null,
        Document::Bool(b) => Value::Bool(b),
        Document::Number(n) => n.as_i128().map_or(Value::Fraction, Value::Integer),
        Document::String(t) => Value::Text(t),
        Document::Array(v) => Value::Array(v.iter().map(part).collect::<Option<_>>()?),
        Document::Object(m) => {
            Value::Object(m.iter().map(|(k, v)| Some((k.clone(), part(v)?))).collect::<Option<_>>()?)
        },
    })
}

/// The deepest nesting of a document that is exchanged.
pub const MAX_NESTING: usize = 127;

/// Whether no two members have one name.
pub open spec fn names_differ(entries: Seq<(String, Value)>) -> bool {
    forall|i: int, j: int| 0 <= i < j < entries.len() ==> (#[trigger] entries[i]).0@ != (#[trigger] entries[j]).0@
}

/// Whether a value, with every member that it holds, nests at most `levels` deep,
/// has only integers of sixty-four bits and gives no name twice in one object.
pub open spec fn printable(value: Value, levels: nat) -> bool
    decreases levels,
{
    levels > 0 && match value {
        Value::Null => true,
        Value::Bool(_) => true,
        Value::Integer(i) => -0x8000_0000_0000_0000 <= i <= 0xffff_ffff_ffff_ffff,
        Value::Fraction => false,
        Value::Text(_) => true,
        Value::Array(values) => forall|i: int|
            0 <= i < values@.len() ==> printable(#[trigger] values@[i], (levels - 1) as nat),
        Value::Object(entries) => names_differ(entries@) && forall|i: int|
            0 <= i < entries@.len() ==> printable((#[trigger] entries@[i]).1, (levels - 1) as nat),
    }
}

/// A copy that holds only the members that count.
fn effective(value: &Value, levels: usize) -> (copy: Value)
    requires
        value@.plain(levels as nat),
    ensures
        copy@ == value@,
        printable(copy, levels as nat),
    decreases levels,
{
    match value {
        Value::Null => Value::Null,
        Value::Bool(b) => Value::Bool(*b),
        Value::Integer(i) => Value::Integer(*i),
        Value::Fraction => Value::Fraction,
        Value::Text(t) => Value::Text(t.as_str().to_owned()),
        Value::Array(values) => {
            let ghost all = elements(*values, values@.len());
            proof {
                elements_at(*values, values@.len());
            }
            let mut kept: Vec<Value> = Vec::new();
            let mut i: usize = 0;
            while i < values.len()
                invariant
                    i <= values@.len(),
                    levels > 0,
                    kept@.len() == i,
                    value@.plain(levels as nat),
                    value@ == Json::Array(all),
                    all.len() == values@.len(),
                    forall|j: int| 0 <= j < all.len() ==> #[trigger] all[j] == values@[j]@,
                    forall|j: int| 0 <= j < i ==> (#[trigger] kept@[j])@ == values@[j]@,
                    forall|j: int| 0 <= j < i ==> printable(#[trigger] kept@[j], (levels - 1) as nat),
                decreases values@.len() - i,
            {
                proof {
                    let document = value@;
                    assert(document->Array_0[i as int].plain((levels - 1) as nat));
                }
                kept.push(effective(&values[i], levels - 1));
                i = i + 1;
            }
            proof {
                elements_at(kept, kept@.len());
                assert(elements(kept, kept@.len()) =~= all);
            }
            Value::Array(kept)
        },
        Value::Object(entries) => {
            let ghost all = members(*entries, entries@.len());
            let mut kept: Vec<(String, Value)> = Vec::new();
            let mut i: usize = 0;
            while i < entries.len()
                invariant
                    i <= entries@.len(),
                    levels > 0,
                    value@.plain(levels as nat),
                    value@ == Json::Object(all),
                    all == members(*entries, entries@.len()),
                    names_differ(kept@),
                    forall|k: int| 0 <= k < kept@.len() ==> printable((#[trigger] kept@[k]).1, (levels - 1) as nat),
                    forall|k: int| 0 <= k < kept@.len() ==> all.dom().contains((#[trigger] kept@[k]).0@)
                        && all[kept@[k].0@] == kept@[k].1@,
                    forall|k: int| 0 <= k < kept@.len() ==> !named_from(entries@, (#[trigger] kept@[k]).0@, i as int),
                    forall|j: int|
                        0 <= j < i ==> named_from(entries@, (#[trigger] entries@[j]).0@, i as int) || has_name(
                            kept@,
                            entries@[j].0@,
                        ),
                decreases entries@.len() - i,
            {
                let ghost name = entries@[i as int].0@;
                let ghost before = kept@;
                if !is_named_from(entries, entries[i].0.as_str(), i + 1) {
                    proof {
                        member_told(*entries, entries@.len(), i as int);
                        let document = value@;
                        assert(document->Object_0.dom().contains(name));
                        assert(document->Object_0[name].plain((levels - 1) as nat));
                        assert(named_from(entries@, name, i as int));
                    }
                    kept.push((entries[i].0.as_str().to_owned(), effective(&entries[i].1, levels - 1)));
                    assert(kept@[before.len() as int].0@ == name);
                    assert(forall|k: int| 0 <= k < before.len() ==> kept@[k] == before[k]);
                }
                proof {
                    assert forall|j: int| 0 <= j < i + 1 implies named_from(
                        entries@,
                        (#[trigger] entries@[j]).0@,
                        i + 1,
                    ) || has_name(kept@, entries@[j].0@) by {
                        let other = entries@[j].0@;
                        if j < i && named_from(entries@, other, i as int) && other != name {
                            let at = choose|at: int| i <= at < entries@.len() && (#[trigger] entries@[at]).0@ == other;
                            assert(entries@[at].0@ == other && at > i);
                        } else if j < i && has_name(before, other) {
                            let k = choose|k: int| 0 <= k < before.len() && (#[trigger] before[k]).0@ == other;
                            assert(kept@[k].0@ == other);
                        }
                    }
                    assert forall|k: int| 0 <= k < kept@.len() implies !named_from(
                        entries@,
                        (#[trigger] kept@[k]).0@,
                        i + 1,
                    ) by {
                        if k < before.len() {
                            assert(!named_from(entries@, before[k].0@, i as int));
                            if named_from(entries@, before[k].0@, i + 1) {
                                let at = choose|at: int|
                                    i + 1 <= at < entries@.len() && (#[trigger] entries@[at]).0@ == before[k].0@;
                                assert(entries@[at].0@ == before[k].0@);
                            }
                        }
                    }
                }
                i = i + 1;
            }
            proof {
                let told = members(kept, kept@.len());
                assert forall|name: Seq<char>| #[trigger] told.dom().contains(name) implies all.dom().contains(name)
                    && told[name] == all[name] by {
                    let at = last_member(kept, kept@.len(), name);
                    assert(all.dom().contains(kept@[at].0@));
                }
                assert forall|name: Seq<char>| #[trigger] all.dom().contains(name) implies told.dom().contains(name) by {
                    let at = last_member(*entries, entries@.len(), name);
                    assert(entries@[at].0@ == name);
                    assert(!named_from(entries@, name, entries@.len() as int));
                    let k = choose|k: int| 0 <= k < kept@.len() && (#[trigger] kept@[k]).0@ == name;
                    member_told(kept, kept@.len(), k);
                }
                assert(told.dom() =~= all.dom());
                assert(told =~= all);
            }
            Value::Object(kept)
        },
    }
}

/// The compact text of a document.
pub(crate) fn print_document(value: &Value) -> (text: Vec<u8>)
    requires
        value@.plain(MAX_NESTING as nat),
    ensures
        text@ == json_text(value@),
        json_document(text@) == Some(value@),
{
    let shown = effective(value, MAX_NESTING);
    print_json(&shown)
}

/// `serde_json::to_vec` of a `serde_json::Value`: the text is a function of the
/// document alone, and parsing it gives the document back.
#[verifier::external_body]
pub(crate) fn print_json(value: &Value) -> (text: Vec<u8>)
    requires
        printable(*value, MAX_NESTING as nat),
    ensures
        text@ == json_text(value@),
        json_document(text@) == Some(value@),
{
    let part = |v: &Value| serde_json::from_slice::<Document>(&print_json(v)).unwrap_or_default();
    let whole = match value {
        Value::Null | Value::Fraction => Document::Null,
        Value::Bool(b) => (*b).into(),
        Value::Integer(i) => serde_json::Number::from_i128(*i).map(Document::Number).unwrap_or_default(),
        Value::Text(t) => t.as_str().into(),
        Value::Array(v) => v.iter().map(part).collect(),
        Value::Object(m) => m.iter().map(|(k, v)| (k.clone(), part(v))).collect(),
    };
    serde_json::to_vec(&whole).unwrap_or_default()
}

} // verus!
