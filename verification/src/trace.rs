//! An access trace: what a workload asked for, in order, and its text form.
//!
//! Not what the system did about it: a trace carries a session and an
//! `ObjectId` per access and nothing else, so the same workload can be
//! replayed against several policies and each is scored on the same
//! question.
//!
//! The text form is a header of four lines -- `mlos-trace 1`, `model`,
//! `source`, and `accesses` with the count -- then one line per access: a
//! decimal session, a space, and the id in sixteen hexadecimal digits.
//! Lines starting with `#` are comments. [`render`] writes it, [`parse`]
//! reads it back into a caller's slice, and [`law_render_then_parse`]
//! proves that one undoes the other.

use vstd::prelude::*;

use crate::abi::ObjectId;
use crate::objtab::SessionId;
use crate::text::{
    all_digits, line_ranges, content_lines, decimal, digit_value, digits_value, find_char,
    find_in, has_prefix, hex_fixed, is_comment, is_trimmed, lemma_content_cons, lemma_decimal,
    lemma_digit_is_plain, lemma_digits_trimmed, lemma_find_char, lemma_hex_fixed, lemma_parse_digits,
    lemma_pow16_16, lemma_trim_trimmed, lemma_value_push, no_newline,
    parse_unsigned, parse_unsigned_range, push_char, push_decimal, push_hex_fixed, ranges_text,
    split_lines, strip_prefix, trim, trim_range,
};

verus! {

/// The format version, in the first line of every trace.
pub const VERSION: u32 = 1;

/// The word that starts a trace file, so a wrong file fails loudly.
pub const MAGIC: &'static str = "mlos-trace";

/// One thing a workload asked for.
#[derive(Clone, Copy, PartialEq, Eq, Debug, Structural)]
pub struct Access {
    /// Who asked.
    pub session: SessionId,
    /// What they asked for.
    pub object: ObjectId,
}

/// What a trace is of, and where it came from, borrowed from the text it
/// was parsed out of.
#[derive(Clone, Copy, PartialEq, Eq, Debug)]
pub struct Header<'a> {
    /// The model the ids name. A replay against a different one is wrong.
    pub model: &'a str,
    /// Where the trace came from, for whoever has to reproduce it.
    pub source: &'a str,
}

/// A parsed trace: what it is of, and what it asked for.
#[derive(Clone, Copy, PartialEq, Eq, Debug)]
pub struct Trace<'a> {
    /// What it is a trace of.
    pub header: Header<'a>,
    /// Every access, in the order the workload made them.
    pub accesses: &'a [Access],
}

/// Why a trace would not parse.
#[derive(Clone, Copy, PartialEq, Eq, Debug, Structural)]
pub enum Error {
    /// Not a trace file, or a version this build does not know.
    NotATrace,
    /// A header line is missing or out of order.
    BadHeader,
    /// A line is not `<session> <objectid-hex>`.
    BadAccess,
    /// The caller's slice is smaller than the header's count.
    TooMany,
    /// The header promised more accesses than the file holds.
    TooFew,
}

/// `mlos-trace`.
pub open spec fn magic_word() -> Seq<char> {
    seq!['m', 'l', 'o', 's', '-', 't', 'r', 'a', 'c', 'e']
}

/// `model`.
pub open spec fn model_word() -> Seq<char> {
    seq!['m', 'o', 'd', 'e', 'l']
}

/// `source`.
pub open spec fn source_word() -> Seq<char> {
    seq!['s', 'o', 'u', 'r', 'c', 'e']
}

/// `accesses`.
pub open spec fn accesses_word() -> Seq<char> {
    seq!['a', 'c', 'c', 'e', 's', 's', 'e', 's']
}

/// The access a line describes, if it is `<session> <objectid-hex>`.
#[verifier::opaque]
pub open spec fn spec_access_line(l: Seq<char>) -> Option<Access> {
    let t = trim(l);
    let sp = find_char(t, ' ', 0);
    if sp < 0 {
        None
    } else {
        let session = parse_unsigned(t.take(sp), 10, 0xffff);
        let object = parse_unsigned(trim(t.skip(sp + 1)), 16, 0xffff_ffff_ffff_ffff);
        if session is Some && object is Some {
            Some(
                Access {
                    session: SessionId(session.unwrap() as u16),
                    object: ObjectId(object.unwrap() as u64),
                },
            )
        } else {
            None
        }
    }
}

/// The accesses of the leading well-formed lines of `ls`, and whether
/// every line was well formed.
pub open spec fn access_lines(ls: Seq<Seq<char>>) -> (bool, Seq<Access>)
    decreases ls.len(),
{
    if ls.len() == 0 {
        (true, seq![])
    } else {
        match spec_access_line(ls[0]) {
            None => (false, seq![]),
            Some(a) => {
                let rest = access_lines(ls.drop_first());
                (rest.0, seq![a] + rest.1)
            },
        }
    }
}

/// The value of a `<key> <value>` header line, if it has that key.
pub open spec fn header_value(line: Seq<char>, key: Seq<char>) -> Option<Seq<char>> {
    match strip_prefix(line, key) {
        Some(rest) => Some(trim(rest)),
        None => None,
    }
}

/// What parsing `t` into a slice of `room` accesses gives: the result,
/// and the accesses written into the slice before it was known.
///
/// The header must be the first four lines that are not comments, in
/// order, with a version of exactly 1. Then as many access lines as the
/// header counts are read; lines after them are not looked at.
pub open spec fn spec_parse(t: Seq<char>, room: nat) -> (Result<(Seq<char>, Seq<char>), Error>, Seq<Access>) {
    let ls = content_lines(t);
    if ls.len() < 1 || header_value(ls[0], magic_word()) is None
        || parse_unsigned(header_value(ls[0], magic_word()).unwrap(), 10, 0xffff_ffff) != Some(1nat) {
        (Err(Error::NotATrace), seq![])
    } else if ls.len() < 2 || header_value(ls[1], model_word()) is None {
        (Err(Error::BadHeader), seq![])
    } else if ls.len() < 3 || header_value(ls[2], source_word()) is None {
        (Err(Error::BadHeader), seq![])
    } else if ls.len() < 4 || header_value(ls[3], accesses_word()) is None
        || parse_unsigned(header_value(ls[3], accesses_word()).unwrap(), 10, usize::MAX as nat) is None {
        (Err(Error::BadHeader), seq![])
    } else {
        let count = parse_unsigned(header_value(ls[3], accesses_word()).unwrap(), 10, usize::MAX as nat).unwrap();
        if count > room {
            (Err(Error::TooMany), seq![])
        } else {
            let body = ls.skip(4);
            let taken = if body.len() < count {
                body
            } else {
                body.take(count as int)
            };
            body_result(
                access_lines(taken),
                count,
                header_value(ls[1], model_word()).unwrap(),
                header_value(ls[2], source_word()).unwrap(),
            )
        }
    }
}

/// How a parse ends once the header has been read and `read` is what the
/// access lines gave: an error at the first malformed line, too few if
/// the text ran out before the count, and otherwise the trace.
pub open spec fn body_result(read: (bool, Seq<Access>), count: nat, model: Seq<char>, source: Seq<char>) -> (
    Result<(Seq<char>, Seq<char>), Error>,
    Seq<Access>,
) {
    if !read.0 {
        (Err(Error::BadAccess), read.1)
    } else if read.1.len() != count {
        (Err(Error::TooFew), read.1)
    } else {
        (Ok((model, source)), read.1)
    }
}

/// The line an access is written as.
pub open spec fn access_text(a: Access) -> Seq<char> {
    decimal(a.session.0 as nat) + seq![' '] + hex_fixed(a.object.0 as nat, 16)
}

/// One line per access, each ended by a line feed.
pub open spec fn body_text(acc: Seq<Access>) -> Seq<char>
    decreases acc.len(),
{
    if acc.len() == 0 {
        seq![]
    } else {
        access_text(acc[0]) + seq!['\n'] + body_text(acc.drop_first())
    }
}

/// The whole text of a trace with this header and these accesses.
pub open spec fn spec_render(model: Seq<char>, source: Seq<char>, acc: Seq<Access>) -> Seq<char> {
    magic_word() + seq![' ', '1', '\n'] + model_word() + seq![' '] + model + seq!['\n'] + source_word()
        + seq![' '] + source + seq!['\n'] + accesses_word() + seq![' '] + decimal(acc.len()) + seq!['\n']
        + body_text(acc)
}

/// The characters of `text`.
pub fn chars_of(text: &str) -> (out: Vec<char>)
    ensures
        out@ == text@,
{
    let mut out: Vec<char> = Vec::new();
    for c in it: text.chars()
        invariant
            out@ == it.seq().take(it.index() as int),
    {
        out.push(c);
    }
    out
}

/// The value of header line `line` if it starts with `key`, as a range.
fn header_range(v: &Vec<char>, line: (usize, usize), key: &Vec<char>) -> (r: Option<(usize, usize)>)
    requires
        line.0 <= line.1 <= v@.len(),
    ensures
        r matches Some(p) ==> p.0 <= p.1 <= v@.len() && header_value(
            v@.subrange(line.0 as int, line.1 as int),
            key@,
        ) == Some(v@.subrange(p.0 as int, p.1 as int)),
        r is None ==> header_value(v@.subrange(line.0 as int, line.1 as int), key@) is None,
{
    if !has_prefix(v, line.0, line.1, key.as_slice()) {
        return None;
    }
    let ghost s = v@.subrange(line.0 as int, line.1 as int);
    assert(s.skip(key@.len() as int) =~= v@.subrange(line.0 + key@.len(), line.1 as int));
    Some(trim_range(v, line.0 + key.len(), line.1))
}

/// How reading the access lines goes on after one more line.
proof fn lemma_access_lines_step(ls: Seq<Seq<char>>, k: int)
    requires
        0 <= k < ls.len(),
    ensures
        access_lines(ls.skip(k)) == (match spec_access_line(ls[k]) {
            None => (false, Seq::<Access>::empty()),
            Some(a) => (access_lines(ls.skip(k + 1)).0, seq![a] + access_lines(ls.skip(k + 1)).1),
        }),
{
    assert(ls.skip(k).drop_first() =~= ls.skip(k + 1));
    assert(ls.skip(k)[0] == ls[k]);
}

/// The access line `v[a..b]` describes, if it is one.
fn access_at(v: &Vec<char>, a: usize, b: usize) -> (r: Option<Access>)
    requires
        a <= b <= v@.len(),
    ensures
        r == spec_access_line(v@.subrange(a as int, b as int)),
{
    reveal(spec_access_line);
    let (ta, tb) = trim_range(v, a, b);
    match find_in(v, ta, tb, ' ') {
        None => None,
        Some(sp) => {
            let ghost t = v@.subrange(ta as int, tb as int);
            assert(t.take(sp - ta) =~= v@.subrange(ta as int, sp as int));
            assert(t.skip(sp - ta + 1) =~= v@.subrange(sp + 1, tb as int));
            let session = parse_unsigned_range(v, ta, sp, 10, 0xffff);
            let (oa, ob) = trim_range(v, sp + 1, tb);
            let object = parse_unsigned_range(v, oa, ob, 16, 0xffff_ffff_ffff_ffff);
            match (session, object) {
                (Some(s), Some(o)) => Some(Access { session: SessionId(s as u16), object: ObjectId(o) }),
                _ => None,
            }
        },
    }
}

/// Parses `text`, filling `into` and borrowing the header from `text`.
///
/// Strict about everything it can be strict about: a trace is an input
/// to a measurement, and a parser that skipped a line it did not
/// understand would produce a shorter trace and a plausible wrong number.
pub fn parse<'a>(text: &'a str, into: &'a mut [Access]) -> (r: Result<Trace<'a>, Error>)
    ensures
        ({
            let (res, filled) = spec_parse(text@, old(into)@.len() as nat);
            &&& r is Ok <==> res is Ok
            &&& r matches Err(e) ==> res == Err::<(Seq<char>, Seq<char>), Error>(e)
            &&& r matches Ok(t) ==> res == Ok::<(Seq<char>, Seq<char>), Error>((t.header.model@, t.header.source@))
                && t.accesses@ == filled
            &&& final(into)@ == filled + old(into)@.skip(filled.len() as int)
        }),
{
    let v = chars_of(text);
    let ls = line_ranges(&v, false);
    let ghost lines = content_lines(text@);
    assert(ranges_text(v@, ls@) == lines);
    assert(forall|i: int| 0 <= i < ls@.len() ==> #[trigger] lines[i] == v@.subrange(ls@[i].0 as int, ls@[i].1 as int));
    assert(into@.skip(0) =~= into@);
    let magic = vec!['m', 'l', 'o', 's', '-', 't', 'r', 'a', 'c', 'e'];
    assert(magic@ =~= magic_word());
    if ls.len() < 1 {
        return Err(Error::NotATrace);
    }
    match header_range(&v, ls[0], &magic) {
        None => return Err(Error::NotATrace),
        Some((a, b)) => match parse_unsigned_range(&v, a, b, 10, 0xffff_ffff) {
            Some(1) => {},
            _ => return Err(Error::NotATrace),
        },
    }
    let model_key = vec!['m', 'o', 'd', 'e', 'l'];
    assert(model_key@ =~= model_word());
    if ls.len() < 2 {
        return Err(Error::BadHeader);
    }
    let (ma, mb) = match header_range(&v, ls[1], &model_key) {
        None => return Err(Error::BadHeader),
        Some(p) => p,
    };
    let source_key = vec!['s', 'o', 'u', 'r', 'c', 'e'];
    assert(source_key@ =~= source_word());
    if ls.len() < 3 {
        return Err(Error::BadHeader);
    }
    let (sa, sb) = match header_range(&v, ls[2], &source_key) {
        None => return Err(Error::BadHeader),
        Some(p) => p,
    };
    let count_key = vec!['a', 'c', 'c', 'e', 's', 's', 'e', 's'];
    assert(count_key@ =~= accesses_word());
    if ls.len() < 4 {
        return Err(Error::BadHeader);
    }
    let count: usize = match header_range(&v, ls[3], &count_key) {
        None => return Err(Error::BadHeader),
        Some((a, b)) => match parse_unsigned_range(&v, a, b, 10, usize::MAX as u64) {
            None => return Err(Error::BadHeader),
            Some(n) => n as usize,
        },
    };
    if count > into.len() {
        return Err(Error::TooMany);
    }
    let ghost body = lines.skip(4);
    let ghost taken = if body.len() < count {
        body
    } else {
        body.take(count as int)
    };
    let ghost room = into@;
    assert(room == old(into)@);
    let ghost model_text = v@.subrange(ma as int, mb as int);
    let ghost source_text = v@.subrange(sa as int, sb as int);
    assert(spec_parse(text@, room.len() as nat) == body_result(access_lines(taken), count as nat, model_text, source_text));
    assert(taken.skip(0) =~= taken);
    assert(into@.take(0) + access_lines(taken).1 =~= access_lines(taken).1);
    let mut filled: usize = 0;
    let mut at: usize = 4;
    while filled < count && at < ls.len()
        invariant
            4 <= at <= ls@.len(),
            filled == at - 4,
            filled <= count <= room.len(),
            into@.len() == room.len(),
            lines == content_lines(text@),
            lines.len() == ls@.len(),
            body == lines.skip(4),
            taken == (if body.len() < count { body } else { body.take(count as int) }),
            forall|i: int| 0 <= i < ls@.len() ==> #[trigger] lines[i] == v@.subrange(ls@[i].0 as int, ls@[i].1 as int),
            forall|i: int| 0 <= i < ls@.len() ==> (#[trigger] ls@[i]).0 <= ls@[i].1 <= v@.len(),
            access_lines(taken).0 == access_lines(taken.skip(filled as int)).0,
            access_lines(taken).1 == into@.take(filled as int) + access_lines(taken.skip(filled as int)).1,
            into@.skip(filled as int) == room.skip(filled as int),
            taken.len() == (if body.len() < count { body.len() as int } else { count as int }),
            spec_parse(text@, room.len() as nat) == body_result(access_lines(taken), count as nat, model_text, source_text),
            room == old(into)@,
        decreases count - filled,
    {
        let (la, lb) = ls[at];
        assert(taken[filled as int] == lines[at as int]);
        proof {
            lemma_access_lines_step(taken, filled as int);
        }
        let access = access_at(&v, la, lb);
        assert(access == spec_access_line(lines[at as int]));
        match access {
            None => {
                assert(into@.take(filled as int) + Seq::<Access>::empty() =~= into@.take(filled as int));
                assert(into@ =~= into@.take(filled as int) + room.skip(filled as int));
                assert(access_lines(taken) == (false, into@.take(filled as int)));
                assert(body_result(access_lines(taken), count as nat, model_text, source_text).0 == Err::<(Seq<char>, Seq<char>), Error>(Error::BadAccess));
                assert(room == old(into)@);
                assert(into@.take(filled as int).len() == filled);
                return Err(Error::BadAccess);
            },
            Some(a) => {
                let ghost before = into@;
                into[filled] = a;
                assert(into@.take(filled + 1) =~= before.take(filled as int) + seq![a]);
                assert(before.skip(filled + 1) =~= before.skip(filled as int).skip(1));
                assert(room.skip(filled + 1) =~= room.skip(filled as int).skip(1));
                assert(into@.skip(filled + 1) =~= room.skip(filled + 1));
                assert(taken.skip(filled as int).drop_first() =~= taken.skip(filled + 1));
            },
        }
        filled += 1;
        at += 1;
    }
    assert(taken.skip(filled as int).len() == 0);
    assert(into@.take(filled as int) + Seq::<Access>::empty() =~= into@.take(filled as int));
    assert(into@ =~= into@.take(filled as int) + room.skip(filled as int));
    if filled != count {
        return Err(Error::TooFew);
    }
    assert(v@.subrange(ma as int, mb as int) == model_text);
    let model = text.substring_char(ma, mb);
    let source = text.substring_char(sa, sb);
    let held: &'a [Access] = &*into;
    let accesses = vstd::slice::slice_subrange(held, 0, filled);
    Ok(Trace { header: Header { model, source }, accesses })
}


/// `core::fmt::Error`, the error of a formatting sink, which `render`
/// returns the type of and never produces.
#[verifier::external_type_specification]
#[verifier::external_body]
pub struct ExFmtError(core::fmt::Error);

/// The text of accesses side by side is the texts of each run of them
/// side by side.
pub proof fn lemma_body_text_concat(a: Seq<Access>, b: Seq<Access>)
    ensures
        body_text(a + b) == body_text(a) + body_text(b),
    decreases a.len(),
{
    if a.len() == 0 {
        assert(a + b =~= b);
    } else {
        lemma_body_text_concat(a.drop_first(), b);
        assert((a + b).drop_first() =~= a.drop_first() + b);
        assert((a + b)[0] == a[0]);
    }
}

/// Writes a whole trace: header, then one line per access.
///
/// The count is in the header so a reader can size a buffer before
/// parsing. Writing to a `String` cannot fail, so the result is always
/// `Ok`.
pub fn render(out: &mut String, header: Header<'_>, accesses: &[Access]) -> (r: core::fmt::Result)
    ensures
        r is Ok,
        final(out)@ == old(out)@ + spec_render(header.model@, header.source@, accesses@),
{
    let ghost start = out@;
    out.append("mlos-trace 1\nmodel ");
    out.append(header.model);
    out.append("\nsource ");
    out.append(header.source);
    out.append("\naccesses ");
    push_decimal(out, accesses.len() as u64);
    push_char(out, '\n');
    proof {
        reveal_strlit("mlos-trace 1\nmodel ");
        reveal_strlit("\nsource ");
        reveal_strlit("\naccesses ");
    }
    let ghost head = out@;
    assert(head =~= start + magic_word() + seq![' ', '1', '\n'] + model_word() + seq![' '] + header.model@
        + seq!['\n'] + source_word() + seq![' '] + header.source@ + seq!['\n'] + accesses_word() + seq![' ']
        + decimal(accesses@.len()) + seq!['\n']);
    let mut i: usize = 0;
    assert(accesses@.take(0) =~= Seq::<Access>::empty());
    assert(head + body_text(Seq::<Access>::empty()) =~= head);
    while i < accesses.len()
        invariant
            i <= accesses@.len(),
            out@ == head + body_text(accesses@.take(i as int)),
        decreases accesses@.len() - i,
    {
        let a = accesses[i];
        push_decimal(out, a.session.0 as u64);
        push_char(out, ' ');
        push_hex_fixed(out, a.object.0, 16);
        push_char(out, '\n');
        proof {
            let one = seq![a];
            assert(accesses@.take(i + 1) =~= accesses@.take(i as int) + one);
            lemma_body_text_concat(accesses@.take(i as int), one);
            assert(one.drop_first() =~= Seq::<Access>::empty());
            assert(body_text(one) =~= access_text(a) + seq!['\n'] + body_text(Seq::<Access>::empty()));
        }
        assert(out@ =~= head + body_text(accesses@.take(i + 1)));
        i += 1;
    }
    assert(accesses@.take(i as int) =~= accesses@);
    assert(out@ =~= start + spec_render(header.model@, header.source@, accesses@));
    Ok(())
}


/// The line an access is written as reads back as that access, and is a
/// plain line: no line feed, not a comment, not ending in `\r`.
pub proof fn lemma_access_text(a: Access)
    ensures
        spec_access_line(access_text(a)) == Some(a),
        no_newline(access_text(a)),
        !is_comment(access_text(a)),
        access_text(a).len() > 0 && access_text(a).last() != '\r',
{
    reveal(spec_access_line);
    let d = decimal(a.session.0 as nat);
    let h = hex_fixed(a.object.0 as nat, 16);
    lemma_decimal(a.session.0 as nat);
    lemma_hex_fixed(a.object.0 as nat, 16);
    lemma_pow16_16();
    let l = access_text(a);
    assert(l == d + seq![' '] + h);
    assert forall|i: int| 0 <= i < l.len() implies l[i] != '\n' && (i != d.len() ==> l[i] != ' ') by {
        if i < d.len() {
            assert(l[i] == d[i]);
            lemma_digit_is_plain(d[i], 10);
        } else if i > d.len() {
            assert(l[i] == h[i - d.len() - 1]);
            lemma_digit_is_plain(h[i - d.len() - 1], 16);
        }
    }
    assert(l[0] == d[0]);
    lemma_digit_is_plain(d[0], 10);
    assert(l.last() == h[15]);
    lemma_digit_is_plain(h[15], 16);
    lemma_trim_trimmed(l);
    lemma_find_char(l, ' ', 0);
    assert(l[d.len() as int] == ' ');
    assert(find_char(l, ' ', 0) == d.len());
    assert(l.take(d.len() as int) =~= d);
    assert(l.skip(d.len() as int + 1) =~= h);
    lemma_digits_trimmed(h, 16);
    lemma_trim_trimmed(h);
    lemma_parse_digits(d, 10, 0xffff);
    lemma_parse_digits(h, 16, 0xffff_ffff_ffff_ffff);
}

/// The lines of a trace's body are the accesses' lines, and they read
/// back as the accesses, all of them well formed.
pub proof fn lemma_body_lines(acc: Seq<Access>)
    ensures
        content_lines(body_text(acc)) == acc.map_values(|a: Access| access_text(a)),
        access_lines(acc.map_values(|a: Access| access_text(a))) == (true, acc),
    decreases acc.len(),
{
    if acc.len() == 0 {
        assert(acc.map_values(|a: Access| access_text(a)) =~= Seq::<Seq<char>>::empty());
        reveal(split_lines);
        assert(content_lines(Seq::<char>::empty()) == Seq::<Seq<char>>::empty());
    } else {
        let rest = acc.drop_first();
        lemma_body_lines(rest);
        lemma_access_text(acc[0]);
        lemma_content_cons(access_text(acc[0]), body_text(rest));
        let ls = acc.map_values(|a: Access| access_text(a));
        assert(ls =~= seq![access_text(acc[0])] + rest.map_values(|a: Access| access_text(a)));
        assert(ls.drop_first() =~= rest.map_values(|a: Access| access_text(a)));
        assert(seq![acc[0]] + rest =~= acc);
    }
}

/// The four header lines of a trace with this header and `n` accesses.
pub open spec fn header_lines(model: Seq<char>, source: Seq<char>, n: nat) -> Seq<Seq<char>> {
    seq![
        magic_word() + seq![' ', '1'],
        model_word() + seq![' '] + model,
        source_word() + seq![' '] + source,
        accesses_word() + seq![' '] + decimal(n),
    ]
}

/// A rendered trace's lines are its header lines, then its access lines.
proof fn lemma_render_lines(model: Seq<char>, source: Seq<char>, acc: Seq<Access>)
    requires
        no_newline(model),
        no_newline(source),
        is_trimmed(model),
        is_trimmed(source),
    ensures
        content_lines(spec_render(model, source, acc)) == header_lines(model, source, acc.len())
            + acc.map_values(|a: Access| access_text(a)),
{
    let n = acc.len();
    let l0 = magic_word() + seq![' ', '1'];
    let l1 = model_word() + seq![' '] + model;
    let l2 = source_word() + seq![' '] + source;
    let l3 = accesses_word() + seq![' '] + decimal(n);
    let body = body_text(acc);
    let nl = seq!['\n'];
    assert(spec_render(model, source, acc) =~= l0 + nl + (l1 + nl + (l2 + nl + (l3 + nl + body))));
    lemma_decimal(n);
    assert forall|i: int| 0 <= i < l3.len() implies l3[i] != '\n' by {
        if i >= 9 {
            assert(l3[i] == decimal(n)[i - 9]);
            lemma_digit_is_plain(decimal(n)[i - 9], 10);
        }
    }
    assert(l3.last() == decimal(n).last());
    lemma_digit_is_plain(decimal(n).last(), 10);
    assert forall|i: int| 0 <= i < l1.len() implies l1[i] != '\n' by {
        if i >= 6 {
            assert(l1[i] == model[i - 6]);
        }
    }
    assert forall|i: int| 0 <= i < l2.len() implies l2[i] != '\n' by {
        if i >= 7 {
            assert(l2[i] == source[i - 7]);
        }
    }
    if model.len() > 0 {
        assert(l1.last() == model.last());
    }
    if source.len() > 0 {
        assert(l2.last() == source.last());
    }
    lemma_content_cons(l3, body);
    lemma_content_cons(l2, l3 + nl + body);
    lemma_content_cons(l1, l2 + nl + (l3 + nl + body));
    lemma_content_cons(l0, l1 + nl + (l2 + nl + (l3 + nl + body)));
    lemma_body_lines(acc);
    assert(seq![l0] + (seq![l1] + (seq![l2] + (seq![l3] + acc.map_values(|a: Access| access_text(a)))))
        =~= header_lines(model, source, n) + acc.map_values(|a: Access| access_text(a)));
}

/// The header lines read back as the version, the model, the source and
/// the count they were written from.
proof fn lemma_header_values(model: Seq<char>, source: Seq<char>, n: nat)
    requires
        is_trimmed(model),
        is_trimmed(source),
        n <= usize::MAX,
    ensures
        header_value(header_lines(model, source, n)[0], magic_word()) == Some(seq!['1']),
        parse_unsigned(seq!['1'], 10, 0xffff_ffff) == Some(1nat),
        header_value(header_lines(model, source, n)[1], model_word()) == Some(model),
        header_value(header_lines(model, source, n)[2], source_word()) == Some(source),
        header_value(header_lines(model, source, n)[3], accesses_word()) == Some(decimal(n)),
        parse_unsigned(decimal(n), 10, usize::MAX as nat) == Some(n),
{
    let hl = header_lines(model, source, n);
    let (l0, l1, l2, l3) = (hl[0], hl[1], hl[2], hl[3]);
    assert(l0.take(10) =~= magic_word());
    assert(l0.skip(10) =~= seq![' '] + seq!['1']);
    let one = seq!['1'];
    lemma_value_push(Seq::<char>::empty(), '1', 10);
    assert(Seq::<char>::empty().push('1') =~= one);
    assert(all_digits(one, 10));
    lemma_digits_trimmed(one, 10);
    lemma_trim_trimmed(one);
    lemma_parse_digits(one, 10, 0xffff_ffff);
    assert(l1.take(5) =~= model_word());
    assert(l1.skip(5) =~= seq![' '] + model);
    lemma_trim_trimmed(model);
    assert(l2.take(6) =~= source_word());
    assert(l2.skip(6) =~= seq![' '] + source);
    lemma_trim_trimmed(source);
    assert(l3.take(8) =~= accesses_word());
    assert(l3.skip(8) =~= seq![' '] + decimal(n));
    lemma_decimal(n);
    lemma_digits_trimmed(decimal(n), 10);
    lemma_trim_trimmed(decimal(n));
    lemma_parse_digits(decimal(n), 10, usize::MAX as nat);
}

/// Record and replay are exact inverses: parsing what `render` wrote, into
/// a slice with room for every access, gives back the header and every
/// access, in order.
///
/// The header's model and source must each be a single line with nothing
/// to trim at either end, since the format stores them one per line and
/// trims what it reads.
pub proof fn law_render_then_parse(model: Seq<char>, source: Seq<char>, acc: Seq<Access>, room: nat)
    requires
        no_newline(model),
        no_newline(source),
        is_trimmed(model),
        is_trimmed(source),
        acc.len() <= room,
        acc.len() <= usize::MAX,
    ensures
        spec_parse(spec_render(model, source, acc), room) == (
            Ok::<(Seq<char>, Seq<char>), Error>((model, source)),
            acc,
        ),
{
    let n = acc.len();
    lemma_render_lines(model, source, acc);
    lemma_header_values(model, source, n);
    lemma_body_lines(acc);
    let ls = content_lines(spec_render(model, source, acc));
    let hl = header_lines(model, source, n);
    assert(ls[0] == hl[0]);
    assert(ls[1] == hl[1]);
    assert(ls[2] == hl[2]);
    assert(ls[3] == hl[3]);
    assert(ls.skip(4) =~= acc.map_values(|a: Access| access_text(a)));
    assert(ls.skip(4).take(n as int) =~= ls.skip(4));
}

} // verus!
