//! Building a trace from a recorded event stream.
//!
//! An event stream is a recording of acquires: every `placed`, every `hit`
//! and every `refused` is one acquire that really happened, in the order
//! it happened. `refused` counts, because what the workload asked for is a
//! property of the workload whatever the policy did about it.
//!
//! `dropped` does not count: it is the ring's own bookkeeping. A stream
//! that dropped anything has a hole in it, and a trace built from it would
//! be missing accesses with no way to tell, so it is refused.

use vstd::prelude::*;

use crate::abi::ObjectId;
use crate::objtab::SessionId;
use crate::text::{
    contains, find_sub, find_sub_in, line_ranges, parse_unsigned, parse_unsigned_range, ranges_text,
    split_lines, trim, trim_range,
};
use crate::trace::{chars_of, Access, Error};

verus! {

/// `"dropped"`, quotes included.
pub open spec fn dropped_key() -> Seq<char> {
    seq!['"', 'd', 'r', 'o', 'p', 'p', 'e', 'd', '"']
}

/// `"bytes":`.
pub open spec fn bytes_key() -> Seq<char> {
    seq!['"', 'b', 'y', 't', 'e', 's', '"', ':']
}

/// `"session":`.
pub open spec fn session_key() -> Seq<char> {
    seq!['"', 's', 'e', 's', 's', 'i', 'o', 'n', '"', ':']
}

/// `"object":`.
pub open spec fn object_key() -> Seq<char> {
    seq!['"', 'o', 'b', 'j', 'e', 'c', 't', '"', ':']
}

/// `"placed"`.
pub open spec fn placed_key() -> Seq<char> {
    seq!['"', 'p', 'l', 'a', 'c', 'e', 'd', '"']
}

/// `"hit"`.
pub open spec fn hit_key() -> Seq<char> {
    seq!['"', 'h', 'i', 't', '"']
}

/// `"refused"`.
pub open spec fn refused_key() -> Seq<char> {
    seq!['"', 'r', 'e', 'f', 'u', 's', 'e', 'd', '"']
}

/// What may sit between a key and its value: a colon, a space, a quote.
pub open spec fn is_lead(c: char) -> bool {
    c == ':' || c == ' ' || c == '"'
}

/// `s` without the colons, spaces and quotes in front of it.
pub open spec fn strip_lead(s: Seq<char>) -> Seq<char>
    decreases s.len(),
{
    if s.len() > 0 && is_lead(s[0]) {
        strip_lead(s.drop_first())
    } else {
        s
    }
}

/// What ends a value: a quote, a comma or a closing brace.
pub open spec fn is_stop(c: char) -> bool {
    c == '"' || c == ',' || c == '}'
}

/// The first index at or after `from` holding a stop, or the length.
pub open spec fn stop_at(s: Seq<char>, from: int) -> int
    decreases s.len() - from,
{
    if from >= s.len() {
        s.len() as int
    } else if from < 0 || is_stop(s[from]) {
        from
    } else {
        stop_at(s, from + 1)
    }
}

/// One numeric field of a JSON line, quoted or not: the text between the
/// first `key` and the next, with leading colons, spaces and quotes taken
/// off, cut at the first quote, comma or brace, trimmed, read as decimal.
pub open spec fn spec_field(line: Seq<char>, key: Seq<char>) -> Option<nat> {
    let i = find_sub(line, key, 0);
    if i < 0 {
        None
    } else {
        let st = i + key.len();
        let j = find_sub(line, key, st);
        let seg = line.subrange(st, if j < 0 { line.len() as int } else { j });
        let value = strip_lead(seg);
        parse_unsigned(trim(value.take(stop_at(value, 0))), 10, 0xffff_ffff_ffff_ffff)
    }
}

/// Whether a line is the ring's dropped count and it is zero; an error if
/// it is the count and it is not zero, or cannot be read.
pub open spec fn spec_dropped(line: Seq<char>) -> Result<bool, Error> {
    if !contains(line, dropped_key()) {
        Ok(false)
    } else {
        match spec_field(line, bytes_key()) {
            None => Err(Error::BadAccess),
            Some(n) => if n == 0 {
                Ok(true)
            } else {
                Err(Error::TooFew)
            },
        }
    }
}

/// Whether a line records an acquire.
pub open spec fn is_acquire(line: Seq<char>) -> bool {
    contains(line, placed_key()) || contains(line, hit_key()) || contains(line, refused_key())
}

/// The access an event line records, if its session and object read.
pub open spec fn spec_event_access(line: Seq<char>) -> Option<Access> {
    match (spec_field(line, session_key()), spec_field(line, object_key())) {
        (Some(s), Some(o)) => if s <= 0xffff {
            Some(Access { session: SessionId(s as u16), object: ObjectId(o as u64) })
        } else {
            None
        },
        _ => None,
    }
}

/// What one event line means for the trace being built.
#[derive(Clone, Copy, PartialEq, Eq, Debug, Structural)]
pub enum LineStep {
    /// Not an acquire, or a dropped count of zero: nothing to record.
    Skip,
    /// The stream cannot become a trace.
    Fail(Error),
    /// One acquire, to append.
    Take(Access),
}

/// What line `line` of an event stream means.
#[verifier::opaque]
pub open spec fn spec_line_step(line: Seq<char>) -> LineStep {
    match spec_dropped(line) {
        Err(e) => LineStep::Fail(e),
        Ok(true) => LineStep::Skip,
        Ok(false) => if !is_acquire(line) {
            LineStep::Skip
        } else {
            match spec_event_access(line) {
                None => LineStep::Fail(Error::BadAccess),
                Some(a) => LineStep::Take(a),
            }
        },
    }
}

/// What reading `ls` into a slice of `room` accesses gives: the count or
/// the error, and the accesses written before it was known.
pub open spec fn spec_from_events(ls: Seq<Seq<char>>, room: nat) -> (Result<nat, Error>, Seq<Access>)
    decreases ls.len(),
{
    if ls.len() == 0 {
        (Ok(0), seq![])
    } else {
        match spec_line_step(ls[0]) {
            LineStep::Fail(e) => (Err(e), seq![]),
            LineStep::Skip => spec_from_events(ls.drop_first(), room),
            LineStep::Take(a) => if room == 0 {
                (Err(Error::TooMany), seq![])
            } else {
                after_prefix(seq![a], spec_from_events(ls.drop_first(), (room - 1) as nat))
            },
        }
    }
}

/// A reading `r` of what follows accesses `p` that were already written.
pub open spec fn after_prefix(p: Seq<Access>, r: (Result<nat, Error>, Seq<Access>)) -> (
    Result<nat, Error>,
    Seq<Access>,
) {
    (
        match r.0 {
            Ok(k) => Ok(k + p.len()),
            Err(e) => Err(e),
        },
        p + r.1,
    )
}

/// The value of field `key` of line `v[a..b]`.
fn field_in(v: &Vec<char>, a: usize, b: usize, key: &Vec<char>) -> (r: Option<u64>)
    requires
        a <= b <= v@.len(),
        key@.len() > 0,
    ensures
        r matches Some(x) ==> spec_field(v@.subrange(a as int, b as int), key@) == Some(x as nat),
        r is None ==> spec_field(v@.subrange(a as int, b as int), key@) is None,
{
    let ghost line = v@.subrange(a as int, b as int);
    let i = match find_sub_in(v, a, b, key, a) {
        None => return None,
        Some(i) => i,
    };
    let st = i + key.len();
    let end = match find_sub_in(v, a, b, key, st) {
        None => b,
        Some(j) => j,
    };
    let ghost seg = line.subrange(st - a, end - a);
    assert(seg =~= v@.subrange(st as int, end as int));
    let mut p = st;
    while p < end && (v[p] == ':' || v[p] == ' ' || v[p] == '"')
        invariant
            st <= p <= end <= b <= v@.len(),
            strip_lead(seg) == strip_lead(v@.subrange(p as int, end as int)),
        decreases end - p,
    {
        assert(v@.subrange(p as int, end as int).drop_first() =~= v@.subrange(p + 1, end as int));
        p += 1;
    }
    let ghost value = v@.subrange(p as int, end as int);
    assert(strip_lead(seg) == value);
    let mut q = p;
    while q < end && !(v[q] == '"' || v[q] == ',' || v[q] == '}')
        invariant
            p <= q <= end <= v@.len(),
            value == v@.subrange(p as int, end as int),
            stop_at(value, 0) == stop_at(value, q - p),
        decreases end - q,
    {
        q += 1;
    }
    assert(stop_at(value, q - p) == q - p);
    assert(value.take(q - p) =~= v@.subrange(p as int, q as int));
    let (ta, tb) = trim_range(v, p, q);
    parse_unsigned_range(v, ta, tb, 10, 0xffff_ffff_ffff_ffff)
}

/// The keys an event line is searched for.
struct Keys {
    dropped: Vec<char>,
    bytes: Vec<char>,
    session: Vec<char>,
    object: Vec<char>,
    placed: Vec<char>,
    hit: Vec<char>,
    refused: Vec<char>,
}

impl Keys {
    /// Whether each key spells what it names.
    spec fn wf(&self) -> bool {
        &&& self.dropped@ == dropped_key()
        &&& self.bytes@ == bytes_key()
        &&& self.session@ == session_key()
        &&& self.object@ == object_key()
        &&& self.placed@ == placed_key()
        &&& self.hit@ == hit_key()
        &&& self.refused@ == refused_key()
    }

    /// The keys.
    fn new() -> (k: Keys)
        ensures
            k.wf(),
    {
        let k = Keys {
            dropped: vec!['"', 'd', 'r', 'o', 'p', 'p', 'e', 'd', '"'],
            bytes: vec!['"', 'b', 'y', 't', 'e', 's', '"', ':'],
            session: vec!['"', 's', 'e', 's', 's', 'i', 'o', 'n', '"', ':'],
            object: vec!['"', 'o', 'b', 'j', 'e', 'c', 't', '"', ':'],
            placed: vec!['"', 'p', 'l', 'a', 'c', 'e', 'd', '"'],
            hit: vec!['"', 'h', 'i', 't', '"'],
            refused: vec!['"', 'r', 'e', 'f', 'u', 's', 'e', 'd', '"'],
        };
        assert(k.dropped@ =~= dropped_key());
        assert(k.bytes@ =~= bytes_key());
        assert(k.session@ =~= session_key());
        assert(k.object@ =~= object_key());
        assert(k.placed@ =~= placed_key());
        assert(k.hit@ =~= hit_key());
        assert(k.refused@ =~= refused_key());
        k
    }
}

/// What event line `v[a..b]` means.
fn line_step(v: &Vec<char>, a: usize, b: usize, keys: &Keys) -> (r: LineStep)
    requires
        a <= b <= v@.len(),
        keys.wf(),
    ensures
        r == spec_line_step(v@.subrange(a as int, b as int)),
{
    reveal(spec_line_step);
    if find_sub_in(v, a, b, &keys.dropped, a).is_some() {
        return match field_in(v, a, b, &keys.bytes) {
            None => LineStep::Fail(Error::BadAccess),
            Some(0) => LineStep::Skip,
            Some(_) => LineStep::Fail(Error::TooFew),
        };
    }
    let acquire = find_sub_in(v, a, b, &keys.placed, a).is_some() || find_sub_in(v, a, b, &keys.hit, a).is_some()
        || find_sub_in(v, a, b, &keys.refused, a).is_some();
    if !acquire {
        return LineStep::Skip;
    }
    let who = field_in(v, a, b, &keys.session);
    let what = field_in(v, a, b, &keys.object);
    match (who, what) {
        (Some(s), Some(o)) => if s <= 0xffff {
            LineStep::Take(Access { session: SessionId(s as u16), object: ObjectId(o) })
        } else {
            LineStep::Fail(Error::BadAccess)
        },
        _ => LineStep::Fail(Error::BadAccess),
    }
}

/// Fills `into` with the accesses in an event stream, returning how many.
///
/// Errors rather than truncating if the stream lost events: a trace with
/// an invisible hole in it would produce a plausible wrong number, which
/// is worse than producing none.
pub fn from_events(events: &str, into: &mut [Access]) -> (r: Result<usize, Error>)
    ensures
        ({
            let (res, filled) = spec_from_events(split_lines(events@, true), old(into)@.len() as nat);
            &&& r is Ok <==> res is Ok
            &&& r matches Ok(n) ==> res == Ok::<nat, Error>(n as nat) && filled.len() == n
            &&& r matches Err(e) ==> res == Err::<nat, Error>(e)
            &&& final(into)@ == filled + old(into)@.skip(filled.len() as int)
        }),
{
    let v = chars_of(events);
    let ls = line_ranges(&v, true);
    let keys = Keys::new();
    let ghost lines = split_lines(events@, true);
    let ghost room = into@;
    assert(ranges_text(v@, ls@) == lines);
    assert(forall|i: int| 0 <= i < ls@.len() ==> #[trigger] lines[i] == v@.subrange(ls@[i].0 as int, ls@[i].1 as int));
    assert(lines.skip(0) =~= lines);
    assert(into@.take(0) =~= Seq::<Access>::empty());
    assert(after_prefix(Seq::<Access>::empty(), spec_from_events(lines, room.len() as nat)) =~= spec_from_events(lines, room.len() as nat));
    let mut filled: usize = 0;
    let mut i: usize = 0;
    while i < ls.len()
        invariant
            i <= ls@.len(),
            filled <= room.len(),
            into@.len() == room.len(),
            room == old(into)@,
            lines == split_lines(events@, true),
            keys.wf(),
            lines.len() == ls@.len(),
            forall|k: int| 0 <= k < ls@.len() ==> #[trigger] lines[k] == v@.subrange(ls@[k].0 as int, ls@[k].1 as int),
            forall|k: int| 0 <= k < ls@.len() ==> (#[trigger] ls@[k]).0 <= ls@[k].1 <= v@.len(),
            spec_from_events(lines, room.len() as nat) == after_prefix(
                into@.take(filled as int),
                spec_from_events(lines.skip(i as int), (room.len() - filled) as nat),
            ),
            into@.skip(filled as int) == room.skip(filled as int),
        decreases ls@.len() - i,
    {
        let (a, b) = ls[i];
        assert(lines.skip(i as int).drop_first() =~= lines.skip(i + 1));
        assert(lines.skip(i as int)[0] == lines[i as int]);
        let ghost prefix = into@.take(filled as int);
        let ghost here = spec_from_events(lines.skip(i as int), (room.len() - filled) as nat);
        assert(into@ =~= prefix + room.skip(filled as int));
        let step = line_step(&v, a, b, &keys);
        assert(step == spec_line_step(lines[i as int]));
        match step {
            LineStep::Fail(e) => {
                assert(here == (Err::<nat, Error>(e), Seq::<Access>::empty()));
                assert(prefix + Seq::<Access>::empty() =~= prefix);
                return Err(e);
            },
            LineStep::Skip => {},
            LineStep::Take(access) => {
                if filled >= into.len() {
                    assert(here == (Err::<nat, Error>(Error::TooMany), Seq::<Access>::empty()));
                    assert(prefix + Seq::<Access>::empty() =~= prefix);
                    return Err(Error::TooMany);
                }
                let ghost before = into@;
                into[filled] = access;
                proof {
                    let next = spec_from_events(lines.skip(i + 1), (room.len() - filled - 1) as nat);
                    assert(into@.take(filled + 1) =~= prefix + seq![access]);
                    assert(after_prefix(prefix, after_prefix(seq![access], next)) =~= after_prefix(prefix + seq![access], next));
                    assert(before.skip(filled + 1) =~= before.skip(filled as int).skip(1));
                    assert(room.skip(filled + 1) =~= room.skip(filled as int).skip(1));
                    assert(into@.skip(filled + 1) =~= room.skip(filled + 1));
                }
                filled += 1;
            },
        }
        i += 1;
    }
    assert(lines.skip(i as int).len() == 0);
    assert(into@.take(filled as int) + Seq::<Access>::empty() =~= into@.take(filled as int));
    assert(into@ =~= into@.take(filled as int) + room.skip(filled as int));
    Ok(filled)
}

} // verus!
