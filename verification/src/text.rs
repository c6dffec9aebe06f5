//! Text as the trace format and the event stream see it: lines, trimming,
//! keywords, and unsigned numbers in decimal and hexadecimal.
//!
//! Text is held as a `Vec<char>` and a part of it as a half-open range of
//! indices, so splitting never copies. Every function here is specified
//! against a spec function over `Seq<char>` that says what the text
//! operation means: `lines` as Rust's `str::lines`, `trim` as `str::trim`
//! (Unicode `White_Space` at both ends), and number parsing as the
//! standard library's unsigned `from_str_radix`.

use vstd::prelude::*;

verus! {

/// Whether `c` has the Unicode `White_Space` property.
pub open spec fn spec_is_ws(c: char) -> bool {
    let u = c as u32;
    (9 <= u <= 13) || u == 32 || u == 0x85 || u == 0xa0 || u == 0x1680 || (0x2000 <= u <= 0x200a)
        || u == 0x2028 || u == 0x2029 || u == 0x202f || u == 0x205f || u == 0x3000
}

/// `s` without its leading whitespace.
pub open spec fn trim_start(s: Seq<char>) -> Seq<char>
    decreases s.len(),
{
    if s.len() > 0 && spec_is_ws(s[0]) {
        trim_start(s.drop_first())
    } else {
        s
    }
}

/// `s` without its trailing whitespace.
pub open spec fn trim_end(s: Seq<char>) -> Seq<char>
    decreases s.len(),
{
    if s.len() > 0 && spec_is_ws(s.last()) {
        trim_end(s.drop_last())
    } else {
        s
    }
}

/// `s` without whitespace at either end.
pub open spec fn trim(s: Seq<char>) -> Seq<char> {
    trim_end(trim_start(s))
}

/// Whether `s` has no whitespace at either end.
pub open spec fn is_trimmed(s: Seq<char>) -> bool {
    s.len() == 0 || (!spec_is_ws(s[0]) && !spec_is_ws(s.last()))
}

/// The first index at or after `from` where `s` holds `c`, or -1.
pub open spec fn find_char(s: Seq<char>, c: char, from: int) -> int
    decreases s.len() - from,
{
    if from < 0 || from >= s.len() {
        -1
    } else if s[from] == c {
        from
    } else {
        find_char(s, c, from + 1)
    }
}

/// A line with one carriage return taken off its end, as `lines` does
/// before a line feed.
pub open spec fn strip_cr(l: Seq<char>) -> Seq<char> {
    if l.len() > 0 && l.last() == '\r' {
        l.drop_last()
    } else {
        l
    }
}

/// Whether a line is a comment: it starts with `#`.
pub open spec fn is_comment(l: Seq<char>) -> bool {
    l.len() > 0 && l[0] == '#'
}

/// The lines of `s` that are not comments, in order.
pub open spec fn content_lines(s: Seq<char>) -> Seq<Seq<char>> {
    split_lines(s, false)
}

/// The lines of `s`, in order, leaving out comments unless
/// `keep_comments`.
///
/// Lines are split at `\n`, a `\r` directly before the `\n` is dropped,
/// and a final line ending is optional: exactly `str::lines`.
#[verifier::opaque]
pub open spec fn split_lines(s: Seq<char>, keep_comments: bool) -> Seq<Seq<char>>
    decreases s.len(),
{
    if s.len() == 0 {
        seq![]
    } else {
        let k = find_char(s, '\n', 0);
        if k < 0 || k >= s.len() {
            if !keep_comments && is_comment(s) {
                seq![]
            } else {
                seq![s]
            }
        } else {
            let line = strip_cr(s.take(k));
            let rest = split_lines(s.skip(k + 1), keep_comments);
            if !keep_comments && is_comment(line) {
                rest
            } else {
                seq![line] + rest
            }
        }
    }
}

/// `s` without `p` in front, if it starts with `p`.
pub open spec fn strip_prefix(s: Seq<char>, p: Seq<char>) -> Option<Seq<char>> {
    if p.len() <= s.len() && s.take(p.len() as int) == p {
        Some(s.skip(p.len() as int))
    } else {
        None
    }
}

/// The value of a digit in `radix` (10 or 16), or -1 if it is not one.
pub open spec fn digit_value(c: char, radix: nat) -> int {
    let u = c as u32;
    if 48 <= u <= 57 {
        (u - 48) as int
    } else if radix == 16 && 97 <= u <= 102 {
        (u - 87) as int
    } else if radix == 16 && 65 <= u <= 70 {
        (u - 55) as int
    } else {
        -1
    }
}

/// Whether every character of `s` is a digit in `radix`.
pub open spec fn all_digits(s: Seq<char>, radix: nat) -> bool {
    forall|i: int| 0 <= i < s.len() ==> digit_value(#[trigger] s[i], radix) >= 0
}

/// The number the digits `s` spell in `radix`.
pub open spec fn digits_value(s: Seq<char>, radix: nat) -> nat
    decreases s.len(),
{
    if s.len() == 0 {
        0
    } else {
        digits_value(s.drop_last(), radix) * radix + digit_value(s.last(), radix) as nat
    }
}

/// The unsigned number `s` spells in `radix`, if it is one no larger than
/// `max`: an optional `+`, then one or more digits. This is what
/// `from_str_radix` accepts for an unsigned type whose largest value is
/// `max`.
pub open spec fn parse_unsigned(s: Seq<char>, radix: nat, max: nat) -> Option<nat> {
    let d = if s.len() > 1 && s[0] == '+' {
        s.drop_first()
    } else {
        s
    };
    if d.len() > 0 && all_digits(d, radix) && digits_value(d, radix) <= max {
        Some(digits_value(d, radix))
    } else {
        None
    }
}

/// The decimal digit for `d`, which is below ten.
pub open spec fn dec_char(d: nat) -> char {
    ((d + 48) as u32) as char
}

/// `n` in decimal, as `{}` writes it.
pub open spec fn decimal(n: nat) -> Seq<char>
    decreases n,
{
    if n < 10 {
        seq![dec_char(n)]
    } else {
        decimal(n / 10).push(dec_char(n % 10))
    }
}

/// The lowercase hexadecimal digit for `d`, which is below sixteen.
pub open spec fn hex_char(d: nat) -> char {
    if d < 10 {
        ((d + 48) as u32) as char
    } else {
        ((d + 87) as u32) as char
    }
}

/// The low `k` hexadecimal digits of `n`, zero-padded, as `{:0k$x}`
/// writes a number below `16^k`.
pub open spec fn hex_fixed(n: nat, k: nat) -> Seq<char>
    decreases k,
{
    if k == 0 {
        seq![]
    } else {
        hex_fixed(n / 16, (k - 1) as nat).push(hex_char(n % 16))
    }
}

/// `n` in hexadecimal without leading zeros, as `{:x}` writes it.
pub open spec fn hex(n: nat) -> Seq<char>
    decreases n,
{
    if n < 16 {
        seq![hex_char(n)]
    } else {
        hex(n / 16).push(hex_char(n % 16))
    }
}

/// Sixteen to the `k`.
pub open spec fn pow16(k: nat) -> nat
    decreases k,
{
    if k == 0 {
        1
    } else {
        16 * pow16((k - 1) as nat)
    }
}


/// Whether `c` is whitespace.
pub fn is_ws(c: char) -> (b: bool)
    ensures
        b == spec_is_ws(c),
{
    let u = c as u32;
    (9 <= u && u <= 13) || u == 32 || u == 0x85 || u == 0xa0 || u == 0x1680 || (0x2000 <= u && u
        <= 0x200a) || u == 0x2028 || u == 0x2029 || u == 0x202f || u == 0x205f || u == 0x3000
}

/// The part of `v[a..b]` left once whitespace is trimmed from both ends.
pub fn trim_range(v: &Vec<char>, a: usize, b: usize) -> (r: (usize, usize))
    requires
        a <= b <= v@.len(),
    ensures
        a <= r.0 <= r.1 <= b,
        v@.subrange(r.0 as int, r.1 as int) == trim(v@.subrange(a as int, b as int)),
{
    let mut i = a;
    while i < b && is_ws(v[i])
        invariant
            a <= i <= b,
            b <= v@.len(),
            trim_start(v@.subrange(a as int, b as int)) == trim_start(v@.subrange(i as int, b as int)),
        decreases b - i,
    {
        assert(v@.subrange(i as int, b as int).drop_first() =~= v@.subrange(i + 1, b as int));
        i += 1;
    }
    assert(trim_start(v@.subrange(i as int, b as int)) == v@.subrange(i as int, b as int));
    let mut j = b;
    while j > i && is_ws(v[j - 1])
        invariant
            i <= j <= b,
            b <= v@.len(),
            trim_end(v@.subrange(i as int, b as int)) == trim_end(v@.subrange(i as int, j as int)),
        decreases j - i,
    {
        assert(v@.subrange(i as int, j as int).drop_last() =~= v@.subrange(i as int, j - 1));
        j -= 1;
    }
    assert(trim_end(v@.subrange(i as int, j as int)) == v@.subrange(i as int, j as int));
    (i, j)
}

/// `find_char` finds the first `c` at or after `from`, and only that.
pub proof fn lemma_find_char(s: Seq<char>, c: char, from: int)
    requires
        0 <= from,
    ensures
        find_char(s, c, from) == -1 || (from <= find_char(s, c, from) < s.len() && s[find_char(s, c, from)] == c),
        find_char(s, c, from) == -1 ==> forall|j: int| from <= j < s.len() ==> s[j] != c,
        find_char(s, c, from) != -1 ==> forall|j: int| from <= j < find_char(s, c, from) ==> s[j] != c,
    decreases s.len() - from,
{
    if from < s.len() && s[from] != c {
        lemma_find_char(s, c, from + 1);
    }
}

/// The first `c` in `v[a..b]`, if there is one.
pub fn find_in(v: &Vec<char>, a: usize, b: usize, c: char) -> (r: Option<usize>)
    requires
        a <= b <= v@.len(),
    ensures
        r matches Some(k) ==> a <= k < b && v@[k as int] == c && find_char(v@.subrange(a as int, b as int), c, 0) == k - a,
        r is None ==> find_char(v@.subrange(a as int, b as int), c, 0) == -1,
        r is None ==> forall|j: int| a <= j < b ==> v@[j] != c,
{
    let ghost s = v@.subrange(a as int, b as int);
    let mut i = a;
    while i < b
        invariant
            a <= i <= b,
            b <= v@.len(),
            s == v@.subrange(a as int, b as int),
            forall|j: int| a <= j < i ==> v@[j] != c,
            find_char(s, c, 0) == find_char(s, c, i - a),
        decreases b - i,
    {
        if v[i] == c {
            return Some(i);
        }
        i += 1;
    }
    None
}

/// The text of the non-comment lines of `s`, given as ranges into it.
pub open spec fn ranges_text(s: Seq<char>, r: Seq<(usize, usize)>) -> Seq<Seq<char>> {
    r.map_values(|p: (usize, usize)| s.subrange(p.0 as int, p.1 as int))
}

/// How `content_lines` unfolds at a line feed at `i`, when the text
/// from `start` to `i` holds no other.
proof fn lemma_content_step(v: Seq<char>, start: int, i: int, end: int, keep: bool)
    requires
        0 <= start <= i < v.len(),
        v[i] == '\n',
        forall|j: int| start <= j < i ==> v[j] != '\n',
        end == (if i > start && v[i - 1] == '\r' { i - 1 } else { i }),
    ensures
        split_lines(v.skip(start), keep) == (if !keep && end > start && v[start] == '#' {
            split_lines(v.skip(i + 1), keep)
        } else {
            seq![v.subrange(start, end)] + split_lines(v.skip(i + 1), keep)
        }),
{
    reveal(split_lines);
    let s = v.skip(start);
    lemma_find_char(s, '\n', 0);
    let k = find_char(s, '\n', 0);
    assert(s[i - start] == '\n');
    assert forall|j: int| 0 <= j < i - start implies s[j] != '\n' by {
        assert(s[j] == v[start + j]);
    }
    assert(k == i - start);
    assert(s.skip(k + 1) =~= v.skip(i + 1));
    assert(strip_cr(s.take(k)) =~= v.subrange(start, end));
}

/// The last line, when no line feed follows `start`.
proof fn lemma_content_last(v: Seq<char>, start: int, keep: bool)
    requires
        0 <= start <= v.len(),
        forall|j: int| start <= j < v.len() ==> v[j] != '\n',
    ensures
        split_lines(v.skip(start), keep) == (if start == v.len() || (!keep && v[start] == '#') {
            seq![]
        } else {
            seq![v.subrange(start, v.len() as int)]
        }),
{
    reveal(split_lines);
    let s = v.skip(start);
    lemma_find_char(s, '\n', 0);
    if s.len() > 0 {
        if find_char(s, '\n', 0) != -1 {
            let k = find_char(s, '\n', 0);
            assert(s[k] == v[start + k]);
        }
        assert(s =~= v.subrange(start, v.len() as int));
    }
}

/// The lines of `v`, as ranges into it, leaving out comments unless
/// `keep_comments`.
pub fn line_ranges(v: &Vec<char>, keep_comments: bool) -> (r: Vec<(usize, usize)>)
    ensures
        forall|i: int| 0 <= i < r@.len() ==> (#[trigger] r@[i]).0 <= r@[i].1 <= v@.len(),
        ranges_text(v@, r@) == split_lines(v@, keep_comments),
{
    let n = v.len();
    let mut out: Vec<(usize, usize)> = Vec::new();
    let mut start: usize = 0;
    let mut i: usize = 0;
    assert(v@.skip(0) =~= v@);
    while i < n
        invariant
            start <= i <= n,
            n == v@.len(),
            forall|j: int| start <= j < i ==> v@[j] != '\n',
            forall|j: int| 0 <= j < out@.len() ==> (#[trigger] out@[j]).0 <= out@[j].1 <= v@.len(),
            ranges_text(v@, out@) + split_lines(v@.skip(start as int), keep_comments) == split_lines(
                v@,
                keep_comments,
            ),
        decreases n - i,
    {
        if v[i] == '\n' {
            let mut end = i;
            if end > start && v[end - 1] == '\r' {
                end -= 1;
            }
            proof {
                lemma_content_step(v@, start as int, i as int, end as int, keep_comments);
            }
            if keep_comments || !(end > start && v[start] == '#') {
                let ghost before = out@;
                out.push((start, end));
                assert(ranges_text(v@, out@) =~= ranges_text(v@, before) + seq![v@.subrange(start as int, end as int)]);
            }
            start = i + 1;
        }
        i += 1;
    }
    proof {
        lemma_content_last(v@, start as int, keep_comments);
    }
    if start < n && (keep_comments || v[start] != '#') {
        let ghost before = out@;
        out.push((start, n));
        assert(ranges_text(v@, out@) =~= ranges_text(v@, before) + seq![v@.subrange(start as int, n as int)]);
    }
    assert(ranges_text(v@, out@) + seq![] =~= ranges_text(v@, out@));
    out
}


/// Whether `v[a..b]` starts with `p`.
pub fn has_prefix(v: &Vec<char>, a: usize, b: usize, p: &[char]) -> (r: bool)
    requires
        a <= b <= v@.len(),
    ensures
        r == (strip_prefix(v@.subrange(a as int, b as int), p@) is Some),
{
    let ghost s = v@.subrange(a as int, b as int);
    if p.len() > b - a {
        return false;
    }
    let mut i: usize = 0;
    while i < p.len()
        invariant
            i <= p@.len() <= b - a,
            b <= v@.len(),
            s == v@.subrange(a as int, b as int),
            forall|j: int| 0 <= j < i ==> s[j] == p@[j],
        decreases p@.len() - i,
    {
        if v[a + i] != p[i] {
            assert(s.take(p@.len() as int)[i as int] != p@[i as int]);
            return false;
        }
        i += 1;
    }
    assert(s.take(p@.len() as int) =~= p@);
    true
}

/// Appends `c` to `s`.
#[verifier::external_body]
pub(crate) fn push_char(s: &mut String, c: char)
    ensures
        final(s)@ == old(s)@.push(c),
{
    s.push(c)
}

/// The value of a digit, or `None`.
fn digit_of(c: char, radix: u64) -> (d: Option<u64>)
    requires
        radix == 10 || radix == 16,
    ensures
        d matches Some(x) ==> x == digit_value(c, radix as nat) && x < radix,
        d is None ==> digit_value(c, radix as nat) < 0,
{
    let u = c as u32;
    if 48 <= u && u <= 57 {
        Some((u - 48) as u64)
    } else if radix == 16 && 97 <= u && u <= 102 {
        Some((u - 87) as u64)
    } else if radix == 16 && 65 <= u && u <= 70 {
        Some((u - 55) as u64)
    } else {
        None
    }
}

/// A number's digits only grow it: no prefix of a run of digits is worth
/// more than the whole run.
pub proof fn lemma_prefix_value(s: Seq<char>, k: int, radix: nat)
    requires
        0 <= k <= s.len(),
        radix >= 1,
        all_digits(s, radix),
    ensures
        digits_value(s.take(k), radix) <= digits_value(s, radix),
    decreases s.len(),
{
    if k < s.len() {
        let t = s.drop_last();
        assert(all_digits(t, radix)) by {
            assert forall|i: int| 0 <= i < t.len() implies digit_value(#[trigger] t[i], radix) >= 0 by {
                assert(t[i] == s[i]);
            }
        }
        lemma_prefix_value(t, k, radix);
        assert(t.take(k) =~= s.take(k));
        assert(digits_value(s, radix) >= digits_value(t, radix)) by (nonlinear_arith)
            requires
                digits_value(s, radix) == digits_value(t, radix) * radix + digit_value(s.last(), radix) as nat,
                radix >= 1,
        ;
    } else {
        assert(s.take(k) =~= s);
    }
}

/// The unsigned number `v[a..b]` spells in `radix`, if it is one no
/// larger than `max`.
pub fn parse_unsigned_range(v: &Vec<char>, a: usize, b: usize, radix: u64, max: u64) -> (r: Option<u64>)
    requires
        a <= b <= v@.len(),
        radix == 10 || radix == 16,
    ensures
        r matches Some(x) ==> parse_unsigned(v@.subrange(a as int, b as int), radix as nat, max as nat)
            == Some(x as nat),
        r is None ==> parse_unsigned(v@.subrange(a as int, b as int), radix as nat, max as nat) is None,
{
    let ghost s = v@.subrange(a as int, b as int);
    let mut i = a;
    if b - a > 1 && v[a] == '+' {
        i = a + 1;
    }
    let ghost d = v@.subrange(i as int, b as int);
    assert(d =~= (if s.len() > 1 && s[0] == '+' { s.drop_first() } else { s }));
    if i == b {
        return None;
    }
    let start = i;
    let mut acc: u64 = 0;
    while i < b
        invariant
            a <= start <= i <= b <= v@.len(),
            d == v@.subrange(start as int, b as int),
            s == v@.subrange(a as int, b as int),
            d == (if s.len() > 1 && s[0] == '+' { s.drop_first() } else { s }),
            d.len() > 0,
            radix == 10 || radix == 16,
            forall|j: int| start <= j < i ==> digit_value(#[trigger] v@[j], radix as nat) >= 0,
            acc == digits_value(v@.subrange(start as int, i as int), radix as nat),
            acc <= max,
        decreases b - i,
    {
        assert(v@.subrange(start as int, i + 1).drop_last() =~= v@.subrange(start as int, i as int));
        let digit = match digit_of(v[i], radix) {
            Some(x) => x,
            None => {
                assert(d[i - start] == v@[i as int]);
                return None;
            },
        };
        let next = match acc.checked_mul(radix) {
            Some(m) => m.checked_add(digit),
            None => None,
        };
        let ghost prefix = v@.subrange(start as int, i + 1);
        assert(digits_value(prefix, radix as nat) == acc * radix + digit);
        match next {
            Some(x) if x <= max => {
                acc = x;
            },
            _ => {
                proof {
                    assert(digits_value(prefix, radix as nat) > max);
                    if all_digits(d, radix as nat) {
                        assert(d.take(i + 1 - start) =~= prefix);
                        lemma_prefix_value(d, i + 1 - start, radix as nat);
                    }
                }
                return None;
            },
        }
        i += 1;
    }
    assert(v@.subrange(start as int, i as int) =~= d);
    assert(all_digits(d, radix as nat)) by {
        assert forall|j: int| 0 <= j < d.len() implies digit_value(#[trigger] d[j], radix as nat) >= 0 by {
            assert(d[j] == v@[start + j]);
        }
    }
    Some(acc)
}

/// Appends `n` in decimal.
pub fn push_decimal(out: &mut String, n: u64)
    ensures
        final(out)@ == old(out)@ + decimal(n as nat),
    decreases n,
{
    if n < 10 {
        push_char(out, ((n as u8) + 48u8) as char);
        assert(((n as u8) + 48u8) as char == dec_char(n as nat));
    } else {
        push_decimal(out, n / 10);
        let d = n % 10;
        push_char(out, ((d as u8) + 48u8) as char);
        assert(((d as u8) + 48u8) as char == dec_char(d as nat));
    }
}

/// Appends `n` in hexadecimal, without leading zeros.
pub fn push_hex(out: &mut String, n: u64)
    ensures
        final(out)@ == old(out)@ + hex(n as nat),
    decreases n,
{
    if n >= 16 {
        push_hex(out, n / 16);
    }
    let d = n % 16;
    let c = if d < 10 {
        ((d as u8) + 48u8) as char
    } else {
        ((d as u8) + 87u8) as char
    };
    assert(c == hex_char(d as nat));
    push_char(out, c);
}

/// Appends the low `k` hexadecimal digits of `n`, zero-padded.
pub fn push_hex_fixed(out: &mut String, n: u64, k: u32)
    ensures
        final(out)@ == old(out)@ + hex_fixed(n as nat, k as nat),
    decreases k,
{
    if k > 0 {
        push_hex_fixed(out, n / 16, k - 1);
        let d = n % 16;
        let c = if d < 10 {
            ((d as u8) + 48u8) as char
        } else {
            ((d as u8) + 87u8) as char
        };
        assert(c == hex_char(d as nat));
        push_char(out, c);
    } else {
        assert(old(out)@ + hex_fixed(n as nat, 0) =~= old(out)@);
    }
}


/// A character that is a digit is neither whitespace, a space, a line
/// ending, a comment mark nor a sign.
pub proof fn lemma_digit_is_plain(c: char, radix: nat)
    requires
        digit_value(c, radix) >= 0,
    ensures
        !spec_is_ws(c),
        c != ' ',
        c != '\n',
        c != '\r',
        c != '#',
        c != '+',
{
}

/// The digit characters written are read back as the digits they are.
pub proof fn lemma_digit_chars(d: nat)
    ensures
        d < 10 ==> digit_value(dec_char(d), 10) == d,
        d < 16 ==> digit_value(hex_char(d), 16) == d,
{
}

/// Appending one digit multiplies by the radix and adds the digit.
pub proof fn lemma_value_push(s: Seq<char>, c: char, radix: nat)
    ensures
        digits_value(s.push(c), radix) == digits_value(s, radix) * radix + digit_value(c, radix) as nat,
{
    assert(s.push(c).drop_last() =~= s);
}

/// `decimal` writes at least one digit, only digits, and they spell `n`.
pub proof fn lemma_decimal(n: nat)
    ensures
        decimal(n).len() >= 1,
        all_digits(decimal(n), 10),
        digits_value(decimal(n), 10) == n,
    decreases n,
{
    lemma_digit_chars(n % 10);
    if n < 10 {
        lemma_value_push(Seq::<char>::empty(), dec_char(n), 10);
        assert(Seq::<char>::empty().push(dec_char(n)) =~= decimal(n));
    } else {
        lemma_decimal(n / 10);
        let s = decimal(n / 10);
        lemma_value_push(s, dec_char(n % 10), 10);
        assert forall|i: int| 0 <= i < decimal(n).len() implies digit_value(#[trigger] decimal(n)[i], 10) >= 0 by {
            if i < s.len() {
                assert(decimal(n)[i] == s[i]);
            }
        }
        assert(n == (n / 10) * 10 + n % 10);
        assert(digits_value(decimal(n), 10) == digits_value(s, 10) * 10 + (n % 10));
    }
}

/// `hex_fixed` writes exactly `k` hexadecimal digits, and they spell `n`
/// modulo `16^k`.
pub proof fn lemma_hex_fixed(n: nat, k: nat)
    ensures
        hex_fixed(n, k).len() == k,
        all_digits(hex_fixed(n, k), 16),
        digits_value(hex_fixed(n, k), 16) == n % pow16(k),
    decreases k,
{
    if k == 0 {
    } else {
        let k1 = (k - 1) as nat;
        lemma_hex_fixed(n / 16, k1);
        let s = hex_fixed(n / 16, k1);
        lemma_digit_chars(n % 16);
        lemma_value_push(s, hex_char(n % 16), 16);
        assert forall|i: int| 0 <= i < hex_fixed(n, k).len() implies digit_value(#[trigger] hex_fixed(n, k)[i], 16) >= 0 by {
            if i < s.len() {
                assert(hex_fixed(n, k)[i] == s[i]);
            }
        }
        lemma_pow16_positive(k1);
        vstd::arithmetic::div_mod::lemma_mod_breakdown(n as int, 16, pow16(k1) as int);
        let q: int = (n as int / 16) % (pow16(k1) as int);
        vstd::arithmetic::mul::lemma_mul_is_commutative(q, 16);
        assert(digits_value(hex_fixed(n, k), 16) == q * 16 + (n as int) % 16);
        assert(pow16(k) == 16 * pow16(k1));
    }
}

/// `16^k` is positive.
pub proof fn lemma_pow16_positive(k: nat)
    ensures
        pow16(k) > 0,
    decreases k,
{
    if k > 0 {
        lemma_pow16_positive((k - 1) as nat);
    }
}

/// Sixteen hexadecimal digits hold any 64-bit number.
pub proof fn lemma_pow16_16()
    ensures
        pow16(16) == 0x1_0000_0000_0000_0000,
{
    reveal_with_fuel(pow16, 17);
}

/// A run of digits that is not too large parses back to its value.
pub proof fn lemma_parse_digits(s: Seq<char>, radix: nat, max: nat)
    requires
        s.len() > 0,
        all_digits(s, radix),
        digits_value(s, radix) <= max,
    ensures
        parse_unsigned(s, radix, max) == Some(digits_value(s, radix)),
{
    lemma_digit_is_plain(s[0], radix);
}

/// Text with nothing to trim is its own trim, and so is a space put in
/// front of it.
pub proof fn lemma_trim_trimmed(m: Seq<char>)
    requires
        is_trimmed(m),
    ensures
        trim(m) == m,
        trim(seq![' '] + m) == m,
{
    assert(trim_start(m) == m);
    assert(trim_end(m) == m);
    let sm = seq![' '] + m;
    assert(sm.drop_first() =~= m);
    assert(trim_start(sm) == trim_start(m));
}

/// A run of digits has nothing to trim.
pub proof fn lemma_digits_trimmed(s: Seq<char>, radix: nat)
    requires
        all_digits(s, radix),
    ensures
        is_trimmed(s),
{
    if s.len() > 0 {
        lemma_digit_is_plain(s[0], radix);
        lemma_digit_is_plain(s[s.len() - 1], radix);
    }
}

/// Whether `s` holds no line feed.
pub open spec fn no_newline(s: Seq<char>) -> bool {
    forall|i: int| 0 <= i < s.len() ==> s[i] != '\n'
}

/// A line with no line feed in it, not ending in a carriage return and
/// not a comment, is read back as the first line of whatever follows it.
pub proof fn lemma_content_cons(l: Seq<char>, rest: Seq<char>)
    requires
        no_newline(l),
        l.len() == 0 || l.last() != '\r',
        !is_comment(l),
    ensures
        content_lines(l + seq!['\n'] + rest) == seq![l] + content_lines(rest),
{
    reveal(split_lines);
    let s = l + seq!['\n'] + rest;
    lemma_find_char(s, '\n', 0);
    assert(s[l.len() as int] == '\n');
    let k = find_char(s, '\n', 0);
    if k < l.len() {
        assert(s[k] == l[k]);
    }
    assert(k == l.len());
    assert(s.take(k) =~= l);
    assert(s.skip(k + 1) =~= rest);
}


/// The first index at or after `from` where `p` occurs in `s`, or -1.
pub open spec fn find_sub(s: Seq<char>, p: Seq<char>, from: int) -> int
    decreases s.len() + 1 - from,
{
    if from < 0 || from + p.len() > s.len() {
        -1
    } else if s.subrange(from, from + p.len()) == p {
        from
    } else {
        find_sub(s, p, from + 1)
    }
}

/// Whether `p` occurs in `s`.
pub open spec fn contains(s: Seq<char>, p: Seq<char>) -> bool {
    find_sub(s, p, 0) >= 0
}

/// Whether `p` occurs in `v[a..b]` starting at index `i`.
fn matches_at(v: &Vec<char>, i: usize, b: usize, p: &Vec<char>) -> (r: bool)
    requires
        i <= b <= v@.len(),
    ensures
        r == (i + p@.len() <= b && v@.subrange(i as int, i + p@.len()) == p@),
{
    if p.len() > b - i {
        return false;
    }
    let mut k: usize = 0;
    while k < p.len()
        invariant
            k <= p@.len(),
            i + p@.len() <= b <= v@.len(),
            forall|j: int| 0 <= j < k ==> v@[i + j] == p@[j],
        decreases p@.len() - k,
    {
        if v[i + k] != p[k] {
            assert(v@.subrange(i as int, i + p@.len())[k as int] != p@[k as int]);
            return false;
        }
        k += 1;
    }
    assert(v@.subrange(i as int, i + p@.len()) =~= p@);
    true
}

/// The first occurrence of `p` in `v[a..b]` at or after index `from`.
pub fn find_sub_in(v: &Vec<char>, a: usize, b: usize, p: &Vec<char>, from: usize) -> (r: Option<usize>)
    requires
        a <= from <= b <= v@.len(),
        p@.len() > 0,
    ensures
        r matches Some(k) ==> from <= k <= b && k + p@.len() <= b && find_sub(
            v@.subrange(a as int, b as int),
            p@,
            from - a,
        ) == k - a,
        r is None ==> find_sub(v@.subrange(a as int, b as int), p@, from - a) == -1,
{
    let ghost s = v@.subrange(a as int, b as int);
    let mut i = from;
    loop
        invariant
            a <= from <= i <= b,
            b <= v@.len(),
            p@.len() > 0,
            s == v@.subrange(a as int, b as int),
            find_sub(s, p@, from - a) == find_sub(s, p@, i - a),
        decreases b - i,
    {
        if p.len() > b - i {
            return None;
        }
        assert(s.subrange(i - a, i - a + p@.len()) =~= v@.subrange(i as int, i + p@.len()));
        if matches_at(v, i, b, p) {
            return Some(i);
        }
        i += 1;
    }
}

} // verus!
