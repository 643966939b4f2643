//! Slash-separated paths.

use vstd::prelude::*;
use crate::bytes::{same, text_bytes};

verus! {

/// Where the last segment of a path starts.
pub open spec fn last_start(path: Seq<u8>) -> int
    decreases path.len(),
{
    if path.len() == 0 {
        0
    } else if path.last() == 0x2f {
        path.len() as int
    } else {
        last_start(path.drop_last())
    }
}

/// The segments between the slashes of a path.
pub open spec fn segments(path: Seq<u8>) -> Seq<Seq<u8>>
    decreases path.len(),
{
    let start = last_start(path);
    if start <= 0 || start > path.len() {
        seq![path]
    } else {
        segments(path.take(start - 1)).push(path.subrange(start, path.len() as int))
    }
}

/// Whether a path starts at the root.
pub open spec fn is_absolute(path: Seq<u8>) -> bool {
    path.len() > 0 && path[0] == 0x2f
}

/// The segment that stands for the directory itself.
pub open spec fn here() -> Seq<u8> {
    seq![0x2eu8]
}

/// The segment that stands for the directory above.
pub open spec fn above() -> Seq<u8> {
    seq![0x2eu8, 0x2eu8]
}

/// How many of a list of segments name something.
pub open spec fn named_segments(parts: Seq<Seq<u8>>) -> nat
    decreases parts.len(),
{
    if parts.len() == 0 {
        0
    } else {
        named_segments(parts.drop_last()) + if parts.last().len() > 0 && parts.last() != here() {
            1nat
        } else {
            0nat
        }
    }
}

/// Whether a path is relative and names no directory by `.` at its start or `..` anywhere.
pub open spec fn is_safe_relative(path: Seq<u8>) -> bool {
    let parts = segments(path);
    &&& !is_absolute(path)
    &&& parts[0] != here()
    &&& forall|i: int| 0 <= i < parts.len() ==> #[trigger] parts[i] != above()
}

/// How many components a path has: the root, a leading `.`, and each segment
/// that is neither empty nor `.`.
pub open spec fn component_count(path: Seq<u8>) -> nat {
    let parts = segments(path);
    named_segments(parts) + (if is_absolute(path) {
        1nat
    } else {
        0nat
    }) + (if parts[0] == here() {
        1nat
    } else {
        0nat
    })
}

proof fn last_start_bound(path: Seq<u8>)
    ensures
        0 <= last_start(path) <= path.len(),
        last_start(path) > 0 ==> path[last_start(path) - 1] == 0x2f,
        forall|i: int| last_start(path) <= i < path.len() ==> path[i] != 0x2f,
    decreases path.len(),
{
    if path.len() > 0 && path.last() != 0x2f {
        last_start_bound(path.drop_last());
        assert forall|i: int| last_start(path) <= i < path.len() implies path[i] != 0x2f by {
            if i < path.len() - 1 {
                assert(path.drop_last()[i] == path[i]);
            }
        }
    }
}

fn find_last_start(path: &[u8], len: usize) -> (start: usize)
    requires
        len <= path@.len(),
    ensures
        start == last_start(path@.take(len as int)),
        start <= len,
{
    let mut at: usize = len;
    proof {
        last_start_bound(path@.take(len as int));
    }
    while at > 0 && path[at - 1] != 0x2f
        invariant
            at <= len <= path@.len(),
            last_start(path@.take(at as int)) == last_start(path@.take(len as int)),
        decreases at,
    {
        assert(path@.take(at as int).drop_last() =~= path@.take(at - 1));
        at = at - 1;
    }
    if at > 0 {
        assert(path@.take(at as int).last() == 0x2f);
    }
    at
}

/// What a path is made of.
#[derive(Clone, Copy, Debug)]
pub struct PathShape {
    pub named: usize,
    pub climbs: bool,
    pub starts_here: bool,
}

/// Reads off what the first `len` bytes of a path are made of.
fn shape(path: &[u8], len: usize) -> (shape: PathShape)
    requires
        len <= path@.len(),
    ensures
        ({
            let parts = segments(path@.take(len as int));
            &&& parts.len() > 0
            &&& shape.named == named_segments(parts)
            &&& shape.named <= len
            &&& shape.climbs == exists|i: int| 0 <= i < parts.len() && #[trigger] parts[i] == above()
            &&& shape.starts_here == (parts[0] == here())
        }),
    decreases len,
{
    let start = find_last_start(path, len);
    let ghost whole = path@.take(len as int);
    let ghost parts = segments(whole);
    proof {
        last_start_bound(whole);
    }
    let here_part = len - start == 1 && path[start] == 0x2e;
    let above_part = len - start == 2 && path[start] == 0x2e && path[start + 1] == 0x2e;
    let ghost last = whole.subrange(start as int, len as int);
    proof {
        if here_part {
            assert(last =~= here());
        } else if last == here() {
            assert(last.len() == 1 && last[0] == 0x2e);
        }
        if above_part {
            assert(last =~= above());
        } else if last == above() {
            assert(last.len() == 2 && last[0] == 0x2e && last[1] == 0x2e);
        }
    }
    let counted: usize = if len > start && !here_part {
        1
    } else {
        0
    };
    if start == 0 {
        proof {
            assert(parts =~= seq![whole]);
            assert(last =~= whole);
            assert(parts.drop_last() =~= Seq::<Seq<u8>>::empty());
            reveal_with_fuel(named_segments, 2);
            if above_part {
                assert(parts[0] == above());
            }
        }
        PathShape { named: counted, climbs: above_part, starts_here: here_part }
    } else {
        let before = shape(path, start - 1);
        proof {
            assert(whole.take(start - 1) =~= path@.take(start - 1));
            let head = segments(path@.take(start - 1));
            assert(parts =~= head.push(last));
            assert(parts.drop_last() =~= head);
            if before.climbs {
                let i = choose|i: int| 0 <= i < head.len() && #[trigger] head[i] == above();
                assert(parts[i] == above());
            }
            if above_part {
                assert(parts[head.len() as int] == above());
            }
            assert(parts[0] == head[0]);
            if exists|i: int| 0 <= i < parts.len() && #[trigger] parts[i] == above() {
                let i = choose|i: int| 0 <= i < parts.len() && #[trigger] parts[i] == above();
                if i < head.len() {
                    assert(head[i] == above());
                }
            }
        }
        PathShape {
            named: before.named + counted,
            climbs: before.climbs || above_part,
            starts_here: before.starts_here,
        }
    }
}

/// Whether a path starts at the root.
pub fn absolute(path: &str) -> (r: bool)
    ensures
        r == is_absolute(text_bytes(path@)),
{
    let bytes = path.as_bytes();
    bytes.len() > 0 && bytes[0] == 0x2f
}

/// Whether a path is relative and leaves its directory nowhere.
pub fn safe_relative(path: &str) -> (r: bool)
    ensures
        r == is_safe_relative(text_bytes(path@)),
{
    let bytes = path.as_bytes();
    if absolute(path) {
        return false;
    }
    let found = shape(bytes, bytes.len());
    assert(bytes@.take(bytes@.len() as int) =~= bytes@);
    !found.climbs && !found.starts_here
}

/// Whether a path names the directory above anywhere.
pub open spec fn climbs(path: Seq<u8>) -> bool {
    exists|i: int| 0 <= i < segments(path).len() && #[trigger] segments(path)[i] == above()
}

/// Whether a path is relative, not empty, and nowhere climbs above its directory.
pub fn safe_below(path: &str) -> (r: bool)
    ensures
        r == (text_bytes(path@).len() > 0 && !is_absolute(text_bytes(path@)) && !climbs(text_bytes(path@))),
{
    let bytes = path.as_bytes();
    if bytes.len() == 0 || absolute(path) {
        return false;
    }
    let found = shape(bytes, bytes.len());
    assert(bytes@.take(bytes@.len() as int) =~= bytes@);
    !found.climbs
}

/// Whether a path has exactly one component.
pub fn one_component(path: &str) -> (r: bool)
    ensures
        r == (component_count(text_bytes(path@)) == 1),
{
    let bytes = path.as_bytes();
    let n: usize = bytes.len();
    let found = shape(bytes, n);
    assert(bytes@.take(bytes@.len() as int) =~= bytes@);
    let root = n > 0 && bytes[0] == 0x2f;
    if root || found.starts_here {
        found.named == 0 && root != found.starts_here
    } else {
        found.named == 1
    }
}

/// The last segment of a path that names something.
pub open spec fn last_part(path: Seq<u8>) -> Seq<u8>
    decreases path.len(),
{
    let start = last_start(path);
    if path.len() == 0 || start < 0 || start > path.len() {
        Seq::empty()
    } else if start == path.len() {
        last_part(path.drop_last())
    } else if start > 0 && path.subrange(start, path.len() as int) == here() {
        last_part(path.take(start - 1))
    } else {
        path.subrange(start, path.len() as int)
    }
}

fn find_last_part(path: &[u8], len: usize) -> (r: (usize, usize))
    requires
        len <= path@.len(),
    ensures
        r.0 <= r.1 <= len,
        path@.subrange(r.0 as int, r.1 as int) == last_part(path@.take(len as int)),
    decreases len,
{
    let ghost whole = path@.take(len as int);
    proof {
        last_start_bound(whole);
    }
    if len == 0 {
        assert(path@.subrange(0, 0) =~= last_part(whole));
        return (0, 0);
    }
    let start = find_last_start(path, len);
    let ghost last = whole.subrange(start as int, len as int);
    if start == len {
        assert(whole.drop_last() =~= path@.take(len - 1));
        return find_last_part(path, len - 1);
    }
    assert(last =~= path@.subrange(start as int, len as int));
    if start > 0 && len - start == 1 && path[start] == 0x2e {
        assert(last =~= here());
        assert(whole.take(start - 1) =~= path@.take(start - 1));
        return find_last_part(path, start - 1);
    }
    proof {
        if last == here() {
            assert(last.len() == 1 && last[0] == 0x2e);
        }
    }
    (start, len)
}

/// Whether the last named segment of a path is `name`.
pub fn file_is(path: &str, name: &str) -> (r: bool)
    ensures
        r == (last_part(text_bytes(path@)) == text_bytes(name@)),
{
    let bytes = path.as_bytes();
    let (from, to) = find_last_part(bytes, bytes.len());
    assert(bytes@.take(bytes@.len() as int) =~= bytes@);
    same(&bytes[from..to], name.as_bytes())
}

} // verus!
