//! Newline-terminated records of bounded length.

use vstd::prelude::*;
use crate::bytes::part;

verus! {

/// The longest request, with its newline.
pub const MAX_REQUEST_BYTES: usize = 8388608;

/// The longest response, with its newline.
pub const MAX_RESPONSE_BYTES: usize = 8388608;

/// The byte that ends a record.
pub const NEWLINE: u8 = 10;

/// Where the first newline stands, or the length where there is none.
pub open spec fn newline_at(bytes: Seq<u8>) -> int
    decreases bytes.len(),
{
    if bytes.len() == 0 || bytes[0] == NEWLINE {
        0
    } else {
        1 + newline_at(bytes.skip(1))
    }
}

/// Whether the bytes hold a newline.
pub open spec fn has_newline(bytes: Seq<u8>) -> bool {
    newline_at(bytes) < bytes.len()
}

/// The bytes up to the first newline hold none, and it is one.
pub proof fn newline_first(bytes: Seq<u8>)
    ensures
        0 <= newline_at(bytes) <= bytes.len(),
        forall|i: int| 0 <= i < newline_at(bytes) ==> bytes[i] != NEWLINE,
        has_newline(bytes) ==> bytes[newline_at(bytes)] == NEWLINE,
    decreases bytes.len(),
{
    if bytes.len() > 0 && bytes[0] != NEWLINE {
        newline_first(bytes.skip(1));
        assert forall|i: int| 0 <= i < newline_at(bytes) implies bytes[i] != NEWLINE by {
            if i > 0 {
                assert(bytes[i] == bytes.skip(1)[i - 1]);
            }
        }
    }
}

/// A place before which there is no newline, and at which there is one, is the first.
pub proof fn newline_is(bytes: Seq<u8>, at: int)
    requires
        0 <= at <= bytes.len(),
        forall|i: int| 0 <= i < at ==> bytes[i] != NEWLINE,
        at < bytes.len() ==> bytes[at] == NEWLINE,
    ensures
        newline_at(bytes) == at,
{
    newline_first(bytes);
    let first = newline_at(bytes);
    if first < at {
        assert(bytes[first] == NEWLINE);
    }
    if at < first {
        assert(bytes[at] != NEWLINE);
    }
}

/// How much of a buffer a reader takes: up to and with the first newline.
pub open spec fn taken(available: Seq<u8>) -> nat {
    if has_newline(available) {
        (newline_at(available) + 1) as nat
    } else {
        available.len()
    }
}

/// What came of offering a buffer: how much of it was taken, and whether the record is whole.
#[derive(Clone, Copy, Debug, PartialEq, Eq)]
pub struct Fed {
    pub take: usize,
    pub whole: bool,
}

/// A record that is being read. It never holds more than its bound.
#[derive(Debug)]
pub struct BoundedLine {
    pub line: Vec<u8>,
    pub limit: usize,
}

impl BoundedLine {
    /// Whether the record is within its bound and not whole yet.
    pub open spec fn open(self) -> bool {
        &&& self.line@.len() <= self.limit
        &&& !has_newline(self.line@)
    }

    /// A record of which nothing was read.
    pub fn new(limit: usize) -> (line: BoundedLine)
        ensures
            line.open(),
            line.line@.len() == 0,
            line.limit == limit,
    {
        BoundedLine { line: Vec::new(), limit }
    }

    /// Takes what belongs to the record out of a buffer, or nothing where the
    /// record would pass its bound.
    pub fn feed(&mut self, available: &[u8]) -> (r: Option<Fed>)
        requires
            old(self).open(),
        ensures
            final(self).limit == old(self).limit,
            final(self).line@.len() <= final(self).limit,
            match r {
                None => {
                    &&& old(self).line@.len() + taken(available@) > old(self).limit
                    &&& final(self).line@ == old(self).line@
                },
                Some(fed) => {
                    &&& fed.take == taken(available@)
                    &&& fed.whole == has_newline(available@)
                    &&& final(self).line@ == old(self).line@ + available@.take(fed.take as int)
                    &&& !fed.whole ==> final(self).open()
                },
            },
    {
        let mut at: usize = 0;
        while at < available.len() && available[at] != NEWLINE
            invariant
                at <= available@.len(),
                forall|i: int| 0 <= i < at ==> available@[i] != NEWLINE,
            decreases available@.len() - at,
        {
            at = at + 1;
        }
        proof {
            newline_is(available@, at as int);
        }
        let whole = at < available.len();
        let take: usize = if whole {
            at + 1
        } else {
            at
        };
        if take > self.limit - self.line.len() {
            return None;
        }
        let ghost before = self.line@;
        let some = part(available, 0, take);
        let mut more = some;
        self.line.append(&mut more);
        proof {
            assert(available@.subrange(0, take as int) =~= available@.take(take as int));
            assert(self.line@ =~= before + available@.take(take as int));
            if !whole {
                newline_first(before);
                assert forall|i: int| 0 <= i < self.line@.len() implies self.line@[i] != NEWLINE by {
                    if i >= before.len() {
                        assert(self.line@[i] == available@[i - before.len()]);
                    }
                }
                newline_is(self.line@, self.line@.len() as int);
            }
        }
        Some(Fed { take, whole })
    }
}

/// Bytes behind a buffer of fixed capacity.
#[derive(Debug)]
pub struct BufferedInput {
    pub bytes: Vec<u8>,
    pub at: usize,
    pub capacity: usize,
}

impl BufferedInput {
    /// Whether there is a buffer, and nothing past the end was consumed.
    pub open spec fn wf(self) -> bool {
        &&& self.at <= self.bytes@.len()
        &&& self.capacity > 0
    }

    /// What was not consumed yet.
    pub open spec fn rest(self) -> Seq<u8> {
        self.bytes@.skip(self.at as int)
    }

    /// Bytes of which nothing was consumed.
    pub fn with_capacity(capacity: usize, bytes: Vec<u8>) -> (input: BufferedInput)
        requires
            capacity > 0,
        ensures
            input.wf(),
            input.rest() == bytes@,
            input.bytes == bytes,
    {
        assert(bytes@.skip(0) =~= bytes@);
        BufferedInput { bytes, at: 0, capacity }
    }

    /// The next bytes, none only at the end.
    pub fn fill_buf(&self) -> (available: Vec<u8>)
        requires
            self.wf(),
        ensures
            available@.len() <= self.rest().len(),
            available@ == self.rest().take(available@.len() as int),
            available@.len() == 0 <==> self.rest().len() == 0,
    {
        let left: usize = self.bytes.len() - self.at;
        let take: usize = if left < self.capacity {
            left
        } else {
            self.capacity
        };
        let available = part(self.bytes.as_slice(), self.at, self.at + take);
        assert(available@ =~= self.rest().take(take as int));
        available
    }

    /// Consumes bytes.
    pub fn consume(&mut self, count: usize)
        requires
            old(self).wf(),
            count <= old(self).rest().len(),
        ensures
            final(self).wf(),
            final(self).bytes == old(self).bytes,
            final(self).capacity == old(self).capacity,
            final(self).rest() == old(self).rest().skip(count as int),
    {
        let length: usize = self.bytes.len();
        assert(self.at + count <= length);
        self.at = self.at + count;
        assert(self.rest() =~= old(self).rest().skip(count as int));
    }
}

/// The record at the start of a stream: it with its newline, where it is whole
/// and within its bound.
pub open spec fn record_of(stream: Seq<u8>, limit: nat) -> Option<Seq<u8>> {
    if has_newline(stream) && newline_at(stream) + 1 <= limit {
        Some(stream.take(newline_at(stream) + 1))
    } else {
        None
    }
}

/// Whether a record at the start of a stream passes its bound.
pub open spec fn record_too_long(stream: Seq<u8>, limit: nat) -> bool {
    taken(stream) > limit
}

/// How reading a record ended.
#[derive(Debug)]
pub enum Ended {
    /// The record, with its newline.
    Whole(Vec<u8>),
    /// The end of the stream, after so many bytes of an unfinished record.
    Short(usize),
    /// The record passes its bound.
    Long,
}

/// A stream's record is decided by any part of the stream that holds the newline.
proof fn record_from_parts(line: Seq<u8>, available: Seq<u8>, stream: Seq<u8>)
    requires
        !has_newline(line),
        available.len() <= stream.len(),
        available == stream.take(available.len() as int),
    ensures
        has_newline(available) ==> newline_at(line + stream) == line.len() + newline_at(available) && has_newline(
            line + stream,
        ),
        taken(line + stream) >= line.len() + taken(available),
{
    newline_first(line);
    newline_first(available);
    newline_first(stream);
    newline_first(line + stream);
    let whole = line + stream;
    if has_newline(available) {
        let at = line.len() + newline_at(available);
        assert forall|i: int| 0 <= i < at implies whole[i] != NEWLINE by {
            if i < line.len() {
                assert(whole[i] == line[i]);
            } else {
                assert(whole[i] == available[i - line.len()]);
            }
        }
        assert(whole[at] == available[newline_at(available)]);
        newline_is(whole, at);
    } else {
        assert forall|i: int| 0 <= i < line.len() + available.len() implies whole[i] != NEWLINE by {
            if i < line.len() {
                assert(whole[i] == line[i]);
            } else {
                assert(whole[i] == available[i - line.len()]);
            }
        }
        if newline_at(whole) < line.len() + available.len() {
            assert(whole[newline_at(whole)] == NEWLINE);
        }
    }
}

/// Reads one record, whatever the buffer's capacity, and consumes nothing past it.
pub fn read_record(reader: &mut BufferedInput, limit: usize) -> (ended: Ended)
    requires
        old(reader).wf(),
    ensures
        final(reader).wf(),
        match ended {
            Ended::Whole(line) => {
                &&& record_of(old(reader).rest(), limit as nat) == Some(line@)
                &&& final(reader).rest() == old(reader).rest().skip(line@.len() as int)
            },
            Ended::Short(count) => {
                &&& !has_newline(old(reader).rest())
                &&& count == old(reader).rest().len()
                &&& count <= limit
                &&& final(reader).rest().len() == 0
            },
            Ended::Long => {
                &&& record_too_long(old(reader).rest(), limit as nat)
                &&& exists|count: int|
                    0 <= count <= limit && count <= old(reader).rest().len() && final(reader).rest()
                        == #[trigger] old(reader).rest().skip(count)
            },
        },
{
    let ghost stream = reader.rest();
    let mut line = BoundedLine::new(limit);
    assert(Seq::<u8>::empty() + stream =~= stream);
    loop
        invariant
            reader.wf(),
            line.open(),
            line.limit == limit,
            stream == old(reader).rest(),
            stream =~= line.line@ + reader.rest(),
        decreases reader.rest().len(),
    {
        let available = reader.fill_buf();
        if available.len() == 0 {
            assert(reader.rest() =~= Seq::empty());
            assert(line.line@ =~= stream);
            return Ended::Short(line.line.len());
        }
        let ghost before = line.line@;
        let ghost rest = reader.rest();
        proof {
            record_from_parts(before, available@, rest);
            newline_first(available@);
        }
        match line.feed(available.as_slice()) {
            None => {
                assert(reader.rest() =~= stream.skip(before.len() as int));
                return Ended::Long;
            },
            Some(fed) => {
                reader.consume(fed.take);
                proof {
                    assert(available@.take(fed.take as int) =~= rest.take(fed.take as int));
                    assert(rest.take(fed.take as int) + rest.skip(fed.take as int) =~= rest);
                    assert(line.line@ + reader.rest() =~= stream);
                }
                if fed.whole {
                    assert(line.line@ =~= stream.take(newline_at(stream) + 1));
                    assert(reader.rest() =~= stream.skip(line.line@.len() as int));
                    return Ended::Whole(line.line);
                }
            },
        }
    }
}

/// Whether at most `limit` bytes were consumed from the start of a stream.
pub open spec fn consumed_within(stream: Seq<u8>, rest: Seq<u8>, limit: nat) -> bool {
    &&& rest.len() <= stream.len() <= rest.len() + limit
    &&& rest == stream.skip(stream.len() - rest.len())
}

/// Reads one request. Nothing at all before the end of the stream is no request.
pub fn read_bounded_request_line(reader: &mut BufferedInput) -> (r: Result<Option<Vec<u8>>, String>)
    requires
        old(reader).wf(),
    ensures
        final(reader).wf(),
        ({
            let stream = old(reader).rest();
            if record_too_long(stream, MAX_REQUEST_BYTES as nat) {
                &&& r matches Err(e) && e@ == "proof-party request exceeds its fixed bound"@
                &&& consumed_within(stream, final(reader).rest(), MAX_REQUEST_BYTES as nat)
            } else if has_newline(stream) {
                &&& r matches Ok(Some(line)) && record_of(stream, MAX_REQUEST_BYTES as nat) == Some(line@)
                    && final(reader).rest() == stream.skip(line@.len() as int)
            } else if stream.len() == 0 {
                &&& r == Ok::<Option<Vec<u8>>, String>(None)
                &&& final(reader).rest() == stream
            } else {
                &&& r matches Err(e) && e@ == "proof-party request ended before its newline"@
                &&& final(reader).rest().len() == 0
                &&& consumed_within(stream, final(reader).rest(), MAX_REQUEST_BYTES as nat)
            }
        }),
{
    proof {
        newline_first(reader.rest());
    }
    let ghost stream = reader.rest();
    let ended = read_record(reader, MAX_REQUEST_BYTES);
    assert(reader.rest().len() == 0 ==> reader.rest() =~= stream.skip(stream.len() as int));
    assert(stream.len() == 0 ==> reader.rest().len() == 0 ==> reader.rest() =~= stream);
    match ended {
        Ended::Whole(line) => Ok(Some(line)),
        Ended::Short(count) => if count == 0 {
            Ok(None)
        } else {
            Err("proof-party request ended before its newline".to_owned())
        },
        Ended::Long => Err("proof-party request exceeds its fixed bound".to_owned()),
    }
}

/// Reads one response.
pub fn read_bounded_line(reader: &mut BufferedInput) -> (r: Result<Vec<u8>, String>)
    requires
        old(reader).wf(),
    ensures
        final(reader).wf(),
        ({
            let stream = old(reader).rest();
            if record_too_long(stream, MAX_RESPONSE_BYTES as nat) {
                &&& r matches Err(e) && e@ == "proof-party response exceeds its fixed bound"@
                &&& consumed_within(stream, final(reader).rest(), MAX_RESPONSE_BYTES as nat)
            } else if has_newline(stream) {
                &&& r matches Ok(line) && record_of(stream, MAX_RESPONSE_BYTES as nat) == Some(line@)
                    && final(reader).rest() == stream.skip(line@.len() as int)
            } else {
                &&& r matches Err(e) && e@ == "proof-party closed without a response"@
                &&& final(reader).rest().len() == 0
                &&& consumed_within(stream, final(reader).rest(), MAX_RESPONSE_BYTES as nat)
            }
        }),
{
    proof {
        newline_first(reader.rest());
    }
    let ghost stream = reader.rest();
    let ended = read_record(reader, MAX_RESPONSE_BYTES);
    assert(reader.rest().len() == 0 ==> reader.rest() =~= stream.skip(stream.len() as int));
    match ended {
        Ended::Whole(line) => Ok(line),
        Ended::Short(_) => Err("proof-party closed without a response".to_owned()),
        Ended::Long => Err("proof-party response exceeds its fixed bound".to_owned()),
    }
}

} // verus!
