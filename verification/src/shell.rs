//! The inspector shell's decisions: the line being typed, what a key does
//! to it and to the terminal, and which verb a finished line asks for.
//!
//! The verbs themselves read the machine and the object manager, so they
//! run where those are; what is decided from the text alone is here.

use vstd::prelude::*;
use vstd::string::StringSliceAdditionalSpecFns;
use vstd::utf8::{decode_utf8, valid_utf8};

use crate::text::{parse_unsigned, push_char, spec_is_ws, is_ws, parse_unsigned_range, trim, trim_range, find_char, find_in};
use crate::trace::chars_of;

verus! {

/// The longest command line.
///
/// Fixed, and it will stay fixed: a shell that can be made to allocate by
/// holding down a key is a shell with a denial of service in it.
pub const CAPACITY: usize = 96;

/// `core::str::from_utf8`: the bytes as a string exactly when they are
/// valid UTF-8, and then the string is made of exactly those bytes.
#[verifier::external_body]
fn utf8(bytes: &[u8]) -> (r: Option<&str>)
    ensures
        r is Some <==> valid_utf8(bytes@),
        r matches Some(s) ==> s.spec_bytes() == bytes@,
{
    core::str::from_utf8(bytes).ok()
}

/// A line being typed: at most [`CAPACITY`] bytes.
pub struct Line {
    bytes: Vec<u8>,
}

impl View for Line {
    type V = Seq<u8>;

    closed spec fn view(&self) -> Seq<u8> {
        self.bytes@
    }
}

impl Line {
    #[verifier::type_invariant]
    spec fn fits(self) -> bool {
        self.bytes@.len() <= CAPACITY
    }

    /// An empty line.
    pub fn new() -> (l: Line)
        ensures
            l@ == Seq::<u8>::empty(),
    {
        Line { bytes: Vec::new() }
    }

    /// Appends a byte. `false` if the line is full, so the caller knows
    /// not to echo something that was not accepted.
    pub fn push(&mut self, byte: u8) -> (accepted: bool)
        ensures
            accepted <==> old(self)@.len() < CAPACITY,
            final(self)@ == (if accepted { old(self)@.push(byte) } else { old(self)@ }),
    {
        proof {
            use_type_invariant(&*self);
        }
        if self.bytes.len() >= CAPACITY {
            return false;
        }
        let mut bytes = Vec::new();
        core::mem::swap(&mut bytes, &mut self.bytes);
        bytes.push(byte);
        self.bytes = bytes;
        true
    }

    /// Removes the last byte. `false` if there was nothing to remove, so
    /// backspace at the prompt does not erase the prompt.
    pub fn backspace(&mut self) -> (removed: bool)
        ensures
            removed <==> old(self)@.len() > 0,
            final(self)@ == (if removed { old(self)@.drop_last() } else { old(self)@ }),
    {
        proof {
            use_type_invariant(&*self);
        }
        let mut bytes = Vec::new();
        core::mem::swap(&mut bytes, &mut self.bytes);
        let removed = bytes.pop().is_some();
        self.bytes = bytes;
        removed
    }

    /// The line so far, or `""` if it is not valid UTF-8.
    ///
    /// Only printable ASCII is ever pushed by the shell, so the failure
    /// does not happen there; `""` rather than a panic keeps a future
    /// change to that rule from taking the console with it.
    pub fn as_str(&self) -> (s: &str)
        ensures
            valid_utf8(self@) ==> s.spec_bytes() == self@,
            s@ == line_text(self@),
    {
        match utf8(self.bytes.as_slice()) {
            Some(s) => {
                proof {
                    vstd::utf8::encode_utf8_decode_utf8(s@);
                }
                s
            },
            None => {
                proof {
                    reveal_strlit("");
                }
                ""
            },
        }
    }
}

/// The text a line's bytes spell: their characters when they are valid
/// UTF-8, and nothing otherwise.
pub open spec fn line_text(bytes: Seq<u8>) -> Seq<char> {
    if valid_utf8(bytes) {
        decode_utf8(bytes)
    } else {
        seq![]
    }
}

impl Default for Line {
    fn default() -> (l: Line)
        ensures
            l@ == Seq::<u8>::empty(),
    {
        Line::new()
    }
}

/// A line reader: what the terminal is shown as keys arrive, and the
/// finished line to run.
pub struct Shell {
    line: Line,
}

impl View for Shell {
    type V = Seq<u8>;

    closed spec fn view(&self) -> Seq<u8> {
        self.line@
    }
}

/// What one byte of input does to the line being typed.
pub open spec fn edited(line: Seq<u8>, byte: u8) -> Seq<u8> {
    if byte == 13 || byte == 10 {
        Seq::empty()
    } else if (byte == 0x7f || byte == 8) && line.len() > 0 {
        line.drop_last()
    } else if 0x20 <= byte <= 0x7e && line.len() < CAPACITY {
        line.push(byte)
    } else {
        line
    }
}

/// What one byte of input shows on the terminal.
pub open spec fn echoed(line: Seq<u8>, byte: u8) -> Seq<char> {
    if byte == 13 || byte == 10 {
        "\r\n"@
    } else if (byte == 0x7f || byte == 8) && line.len() > 0 {
        "\x08 \x08"@
    } else if 0x20 <= byte <= 0x7e && line.len() < CAPACITY {
        seq![byte as char]
    } else {
        Seq::empty()
    }
}

impl Shell {
    /// A shell with nothing typed yet.
    pub fn new() -> (s: Shell)
        ensures
            s@ == Seq::<u8>::empty(),
    {
        Shell { line: Line::new() }
    }

    /// Writes the prompt.
    pub fn prompt(&self, out: &mut String)
        ensures
            final(out)@ == old(out)@ + "mlsh> "@,
    {
        out.append("mlsh> ");
    }

    /// Handles one byte of input.
    ///
    /// Echo happens here rather than in the driver because echo is a
    /// property of the line being edited: a backspace has to erase a
    /// character the terminal already drew, and only something that knows
    /// whether the line is empty can decide whether to.
    ///
    /// A carriage return or line feed finishes the line and runs it: the
    /// shell answers what the text alone decides and writes the prompt
    /// again. A command that needs the machine is handed back with its
    /// arguments instead, and the caller runs it and then writes the
    /// prompt.
    pub fn feed(&mut self, byte: u8, registered: bool, out: &mut String) -> (run: Option<(Command, String)>)
        ensures
            final(self)@ == edited(old(self)@, byte),
            !(byte == 13 || byte == 10) ==> run is None && final(out)@ == old(out)@ + echoed(old(self)@, byte),
            (byte == 13 || byte == 10) ==> ({
                let text = line_text(old(self)@);
                let command = spec_command(text, registered);
                &&& final(out)@ == old(out)@ + "\r\n"@ + answer(text, registered) + (if command == Command::Done {
                    "mlsh> "@
                } else {
                    seq![]
                })
                &&& command == Command::Done ==> run is None
                &&& command != Command::Done ==> (run matches Some((c, args)) && c == command && args@
                    == verb_and_args(text).1)
            }),
    {
        let ghost start = out@;
        if byte == 13 || byte == 10 {
            out.append("\r\n");
            let mut taken = Line::new();
            core::mem::swap(&mut taken, &mut self.line);
            let (command, args) = dispatch(taken.as_str(), registered, out);
            if command == Command::Done {
                self.prompt(out);
                proof {
                    reveal_strlit("");
                }
                return None;
            }
            let owned = String::from_str(args);
            return Some((command, owned));
        }
        if byte == 0x7f || byte == 8 {
            if self.line.backspace() {
                out.append("\x08 \x08");
            }
        } else if 0x20 <= byte && byte <= 0x7e {
            if self.line.push(byte) {
                push_char(out, byte as char);
                assert(out@ =~= start + seq![byte as char]);
            }
        }
        proof {
            reveal_strlit("");
        }
        None
    }
}

impl Default for Shell {
    fn default() -> (s: Shell)
        ensures
            s@ == Seq::<u8>::empty(),
    {
        Shell::new()
    }
}

/// A backspace undoes a keystroke: typing a printable byte into a line
/// with room for it and then erasing it leaves the line as it was, and
/// the terminal shows the byte and then the erase.
pub proof fn law_backspace_undoes_a_keystroke(line: Seq<u8>, byte: u8)
    requires
        0x20 <= byte <= 0x7e,
        line.len() < CAPACITY,
    ensures
        edited(edited(line, byte), 0x7f) == line,
        echoed(line, byte) + echoed(edited(line, byte), 0x7f) == seq![byte as char] + "\x08 \x08"@,
{
    assert(line.push(byte).drop_last() =~= line);
}

/// No keystroke takes a line past [`CAPACITY`], whatever was typed
/// before it.
pub proof fn law_a_line_never_outgrows_its_capacity(line: Seq<u8>, byte: u8)
    requires
        line.len() <= CAPACITY,
    ensures
        edited(line, byte).len() <= CAPACITY,
{
}

/// The words of `s` from index `i` on, given the part of a word already
/// read: what `str::split_whitespace` yields.
pub open spec fn words_from(s: Seq<char>, i: int, current: Seq<char>) -> Seq<Seq<char>>
    decreases s.len() - i,
{
    if i < 0 || i >= s.len() {
        if current.len() > 0 {
            seq![current]
        } else {
            seq![]
        }
    } else if spec_is_ws(s[i]) {
        (if current.len() > 0 {
            seq![current]
        } else {
            seq![]
        }) + words_from(s, i + 1, seq![])
    } else {
        words_from(s, i + 1, current.push(s[i]))
    }
}

/// The whitespace-separated words of `s`.
pub open spec fn words(s: Seq<char>) -> Seq<Seq<char>> {
    words_from(s, 0, seq![])
}

/// The words of `ws` that are numbers fitting a `u16`, in order.
pub open spec fn small_numbers(ws: Seq<Seq<char>>) -> Seq<u16>
    decreases ws.len(),
{
    if ws.len() == 0 {
        seq![]
    } else {
        let rest = small_numbers(ws.drop_first());
        match parse_unsigned(ws[0], 10, 0xffff) {
            Some(n) => seq![n as u16] + rest,
            None => rest,
        }
    }
}

/// The text of each range of `v`.
pub open spec fn texts(v: Seq<char>, r: Seq<(usize, usize)>) -> Seq<Seq<char>> {
    Seq::new(r.len(), |k: int| v.subrange(r[k].0 as int, r[k].1 as int))
}

/// Where the words of `v` are, as half-open ranges.
pub fn word_ranges(v: &Vec<char>) -> (r: Vec<(usize, usize)>)
    ensures
        texts(v@, r@) == words(v@),
        forall|k: int| 0 <= k < r@.len() ==> #[trigger] r@[k].0 <= r@[k].1 <= v@.len(),
{
    let mut r: Vec<(usize, usize)> = Vec::new();
    let mut i: usize = 0;
    let mut start: usize = 0;
    let mut inside = false;
    while i < v.len()
        invariant
            i <= v@.len(),
            start <= i,
            inside ==> start < i,
            forall|k: int| 0 <= k < r@.len() ==> #[trigger] r@[k].0 <= r@[k].1 <= v@.len(),
            texts(v@, r@) + words_from(
                v@,
                i as int,
                if inside { v@.subrange(start as int, i as int) } else { seq![] },
            ) == words(v@),
        decreases v@.len() - i,
    {
        let ghost cur = if inside { v@.subrange(start as int, i as int) } else { seq![] };
        let ghost before = texts(v@, r@);
        if is_ws(v[i]) {
            if inside {
                r.push((start, i));
                assert(texts(v@, r@) =~= before + seq![cur]);
            } else {
                assert(texts(v@, r@) + seq![] =~= before);
            }
            inside = false;
            assert(texts(v@, r@) + words_from(v@, i + 1, seq![]) =~= before + words_from(v@, i as int, cur));
        } else {
            if !inside {
                start = i;
                inside = true;
            }
            assert(cur.push(v@[i as int]) =~= v@.subrange(start as int, i + 1));
        }
        i += 1;
    }
    let ghost cur = if inside { v@.subrange(start as int, i as int) } else { seq![] };
    let ghost before = texts(v@, r@);
    if inside {
        r.push((start, i));
        assert(texts(v@, r@) =~= before + seq![cur]);
    } else {
        assert(before + seq![] =~= before);
    }
    r
}

/// The usage line of `get`.
pub open spec fn get_usage() -> Seq<char> {
    "  usage: get <layer> <tensor>\n"@
}

/// The first two of `found`, if there are two.
pub open spec fn first_two(found: Seq<u16>) -> Option<(u16, u16)> {
    if found.len() >= 2 {
        Some((found[0], found[1]))
    } else {
        None
    }
}

/// The layer and tensor a verb was given: the first two words of `args`
/// that are numbers fitting a `u16`, whatever else is among them.
pub fn tile_numbers(args: &str) -> (which: Option<(u16, u16)>)
    ensures
        which == first_two(small_numbers(words(args@))),
{
    let v = chars_of(args);
    let r = word_ranges(&v);
    let ghost ws = words(v@);
    let mut first: Option<u16> = None;
    let mut k: usize = 0;
    assert(ws.skip(0) =~= ws);
    assert(seq![] + small_numbers(ws) =~= small_numbers(ws));
    while k < r.len()
        invariant
            k <= r@.len(),
            ws == words(args@),
            texts(v@, r@) == ws,
            forall|j: int| 0 <= j < r@.len() ==> #[trigger] r@[j].0 <= r@[j].1 <= v@.len(),
            small_numbers(ws) == (match first {
                Some(a) => seq![a],
                None => seq![],
            }) + small_numbers(ws.skip(k as int)),
        decreases r@.len() - k,
    {
        let (a, b) = r[k];
        let ghost w = ws[k as int];
        assert(w == v@.subrange(a as int, b as int));
        assert(ws.skip(k as int).drop_first() =~= ws.skip(k + 1));
        assert(ws.skip(k as int)[0] == w);
        let parsed = parse_unsigned_range(&v, a, b, 10, 0xffff);
        match parsed {
            Some(n) => {
                assert(small_numbers(ws.skip(k as int)) == seq![n as u16] + small_numbers(ws.skip(k + 1)));
                match first {
                    Some(layer) => {
                        assert(small_numbers(ws) =~= seq![layer, n as u16] + small_numbers(ws.skip(k + 1)));
                        return Some((layer, n as u16));
                    },
                    None => {
                        first = Some(n as u16);
                        assert(small_numbers(ws) =~= seq![n as u16] + small_numbers(ws.skip(k + 1)));
                    },
                }
            },
            None => {
                assert(small_numbers(ws.skip(k as int)) == small_numbers(ws.skip(k + 1)));
            },
        }
        k += 1;
    }
    assert(ws.skip(k as int) =~= Seq::<Seq<char>>::empty());
    None
}

/// Reads the layer and tensor `get` was asked for. Without two numbers
/// among its words, writes the usage line and gives `None`.
pub fn get(out: &mut String, args: &str) -> (which: Option<(u16, u16)>)
    ensures
        which == first_two(small_numbers(words(args@))),
        which is Some ==> final(out)@ == old(out)@,
        which is None ==> final(out)@ == old(out)@ + get_usage(),
{
    let which = tile_numbers(args);
    if which.is_none() {
        out.append("  usage: get <layer> <tensor>\n");
    }
    which
}

/// The usage line of `evict`.
pub open spec fn evict_usage() -> Seq<char> {
    "  usage: evict LAYER TILE\n"@
}

/// Reads the layer and tensor `evict` was asked for. Without two numbers
/// among its words, writes the usage line and gives `None`.
pub fn evict(out: &mut String, args: &str) -> (which: Option<(u16, u16)>)
    ensures
        which == first_two(small_numbers(words(args@))),
        which is Some ==> final(out)@ == old(out)@,
        which is None ==> final(out)@ == old(out)@ + evict_usage(),
{
    let which = tile_numbers(args);
    if which.is_none() {
        out.append("  usage: evict LAYER TILE\n");
    }
    which
}

/// What `help` prints.
pub const HELP: &'static str = "model [KiB]   register the model; optionally set the arena budget\r\nsweep         acquire every tile in order, faulting them in\r\nget L T       acquire one tile, and say if it had to fault\r\nobjs [all]    what the table knows: tier, residency, use count\r\narena         how full memory is, and what would still fit\r\nfaults        what it all cost, per object class\r\nmem           physical memory map, and what is left\r\ndev           console, timer and interrupt controller\r\nticks         timer ticks since boot\r\nhelp          this\r\n";

/// What a line asks the machine to do, once the shell has said what it
/// can say from the text alone.
#[derive(Clone, Copy, PartialEq, Eq, Debug, Structural)]
pub enum Command {
    /// Nothing more: the line was empty, was `help`, or was answered.
    Done,
    /// The physical memory map.
    Mem,
    /// The devices in use.
    Dev,
    /// Acquire every tile in order.
    Sweep,
    /// How full the arena is.
    Arena,
    /// What the faults cost.
    Faults,
    /// Register the model, with the arguments.
    Model,
    /// Acquire one tile, with the arguments.
    Get,
    /// List the table, with the arguments.
    Objs,
    /// Timer ticks since boot.
    Ticks,
    /// Throw one tile out, with the arguments.
    Evict,
    /// Declare the model's sweep, or advance it, with the arguments.
    Stream,
}

/// A line's verb and arguments: split at the first space of the trimmed
/// line, or all verb when it has none.
pub open spec fn verb_and_args(line: Seq<char>) -> (Seq<char>, Seq<char>) {
    let t = trim(line);
    let i = find_char(t, ' ', 0);
    if i < 0 {
        (t, seq![])
    } else {
        (t.subrange(0, i), t.subrange(i + 1, t.len() as int))
    }
}

/// Whether `verb` only makes sense once a model is registered.
pub open spec fn needs_model(verb: Seq<char>) -> bool {
    verb == "sweep"@ || verb == "get"@ || verb == "objs"@ || verb == "arena"@ || verb == "faults"@
}

/// What the shell says when a verb needs a model and there is none.
pub open spec fn no_model() -> Seq<char> {
    "  no model registered (try `model`)\n"@
}

/// Which command `verb` is, when it may run.
pub open spec fn command_of(verb: Seq<char>) -> Command {
    if verb == "mem"@ {
        Command::Mem
    } else if verb == "dev"@ {
        Command::Dev
    } else if verb == "sweep"@ {
        Command::Sweep
    } else if verb == "arena"@ {
        Command::Arena
    } else if verb == "faults"@ {
        Command::Faults
    } else if verb == "model"@ {
        Command::Model
    } else if verb == "get"@ {
        Command::Get
    } else if verb == "objs"@ {
        Command::Objs
    } else if verb == "ticks"@ {
        Command::Ticks
    } else if verb == "evict"@ {
        Command::Evict
    } else if verb == "stream"@ {
        Command::Stream
    } else {
        Command::Done
    }
}

/// The verb that asks for `c`.
pub open spec fn word_of(c: Command) -> Seq<char> {
    match c {
        Command::Done => ""@,
        Command::Mem => "mem"@,
        Command::Dev => "dev"@,
        Command::Sweep => "sweep"@,
        Command::Arena => "arena"@,
        Command::Faults => "faults"@,
        Command::Model => "model"@,
        Command::Get => "get"@,
        Command::Objs => "objs"@,
        Command::Ticks => "ticks"@,
        Command::Evict => "evict"@,
        Command::Stream => "stream"@,
    }
}

/// Each verb asks for the command it names and no other: a verb the
/// shell runs on the machine is the word of its command, and the word of
/// every such command runs it. So no two verbs run the same command and
/// no command is out of reach.
pub proof fn law_each_verb_runs_its_own_command(verb: Seq<char>, c: Command)
    ensures
        command_of(verb) != Command::Done ==> word_of(command_of(verb)) == verb,
        c != Command::Done ==> command_of(word_of(c)) == c,
{
    reveal_strlit("");
    reveal_strlit("mem");
    reveal_strlit("dev");
    reveal_strlit("sweep");
    reveal_strlit("arena");
    reveal_strlit("faults");
    reveal_strlit("model");
    reveal_strlit("get");
    reveal_strlit("objs");
    reveal_strlit("ticks");
    reveal_strlit("evict");
    reveal_strlit("stream");
    // Telling each word from the ones tested before it in `command_of`
    // takes one differing letter or a different length.
    let w = word_of(c);
    match c {
        Command::Done => {},
        Command::Mem => {},
        Command::Dev => {
            assert(w[0] != "mem"@[0]);
        },
        Command::Sweep => {
            assert(w.len() != "mem"@.len() && w.len() != "dev"@.len());
        },
        Command::Arena => {
            assert(w[0] != "sweep"@[0]);
        },
        Command::Faults => {
            assert(w.len() != "sweep"@.len());
        },
        Command::Model => {
            assert(w[0] != "sweep"@[0] && w[0] != "arena"@[0] && w[1] != "mem"@[1]);
        },
        Command::Get => {
            assert(w[0] != "mem"@[0] && w[0] != "dev"@[0]);
        },
        Command::Objs => {
            assert(w.len() != "mem"@.len() && w[0] != "get"@[0]);
        },
        Command::Ticks => {
            assert(w[0] != "sweep"@[0] && w[0] != "arena"@[0] && w[0] != "model"@[0]);
        },
        Command::Evict => {
            assert(w[0] != "sweep"@[0] && w[0] != "arena"@[0] && w[0] != "model"@[0] && w[0] != "ticks"@[0]);
        },
        Command::Stream => {
            assert(w[1] != "sweep"@[1] && w[0] != "faults"@[0]);
        },
    }
}

/// Two verbs that run the same command on the machine are the same verb.
pub proof fn law_no_two_verbs_share_a_command(v1: Seq<char>, v2: Seq<char>)
    ensures
        command_of(v1) != Command::Done && command_of(v1) == command_of(v2) ==> v1 == v2,
{
    law_each_verb_runs_its_own_command(v1, Command::Done);
    law_each_verb_runs_its_own_command(v2, Command::Done);
}

/// Whether `verb` is one the shell knows.
pub open spec fn known(verb: Seq<char>) -> bool {
    verb == ""@ || verb == "help"@ || verb == "?"@ || command_of(verb) != Command::Done
}

/// What running `line` asks of the machine, given whether a model is
/// registered.
pub open spec fn spec_command(line: Seq<char>, registered: bool) -> Command {
    let verb = verb_and_args(line).0;
    if needs_model(verb) && !registered {
        Command::Done
    } else {
        command_of(verb)
    }
}

/// What the shell itself answers to `line`.
pub open spec fn answer(line: Seq<char>, registered: bool) -> Seq<char> {
    let verb = verb_and_args(line).0;
    if needs_model(verb) && !registered {
        no_model()
    } else if verb == "help"@ || verb == "?"@ {
        HELP@
    } else if !known(verb) {
        "no such command: "@ + verb + "   (try `help`)\n"@
    } else {
        seq![]
    }
}

/// Whether `v[a..b]` is `word`.
fn same(v: &Vec<char>, a: usize, b: usize, word: &str) -> (r: bool)
    requires
        a <= b <= v@.len(),
    ensures
        r == (v@.subrange(a as int, b as int) == word@),
{
    let w = chars_of(word);
    if b - a != w.len() {
        return false;
    }
    let mut i: usize = 0;
    while i < w.len()
        invariant
            i <= w@.len(),
            w@.len() == b - a,
            b <= v@.len(),
            w@ == word@,
            forall|j: int| 0 <= j < i ==> v@[a + j] == w@[j],
        decreases w@.len() - i,
    {
        if v[a + i] != w[i] {
            assert(v@.subrange(a as int, b as int)[i as int] != word@[i as int]);
            return false;
        }
        i += 1;
    }
    assert(v@.subrange(a as int, b as int) =~= word@);
    true
}

/// Runs one line as far as the text alone decides it.
///
/// Answers what needs no machine -- an empty line, `help`, a verb that
/// needs a model when none is registered, a verb that does not exist --
/// and otherwise names the command to run, with the line's arguments.
#[verifier::spinoff_prover]
#[verifier::rlimit(40)]
pub fn dispatch<'a>(line: &'a str, registered: bool, out: &mut String) -> (r: (Command, &'a str))
    ensures
        r.0 == spec_command(line@, registered),
        r.1@ == verb_and_args(line@).1,
        final(out)@ == old(out)@ + answer(line@, registered),
{
    let v = chars_of(line);
    let (a, b) = trim_range(&v, 0, v.len());
    let ghost t = v@.subrange(a as int, b as int);
    assert(v@.subrange(0, v@.len() as int) =~= v@);
    let (verb_end, args_start) = match find_in(&v, a, b, ' ') {
        Some(k) => (k, k + 1),
        None => (b, b),
    };
    assert(v@.subrange(a as int, verb_end as int) == verb_and_args(line@).0) by {
        assert(t.subrange(0, verb_end - a) =~= v@.subrange(a as int, verb_end as int));
    }
    let args = line.substring_char(args_start, b);
    assert(args@ == verb_and_args(line@).1) by {
        assert(t.subrange(args_start - a, t.len() as int) =~= v@.subrange(args_start as int, b as int));
        assert(v@.subrange(b as int, b as int) =~= Seq::<char>::empty());
    }
    let ghost verb = verb_and_args(line@).0;
    proof {
        reveal_strlit("sweep");
        reveal_strlit("get");
        reveal_strlit("objs");
        reveal_strlit("arena");
        reveal_strlit("faults");
        reveal_strlit("mem");
        reveal_strlit("dev");
        reveal_strlit("model");
        reveal_strlit("ticks");
        reveal_strlit("evict");
        reveal_strlit("stream");
        reveal_strlit("help");
        reveal_strlit("?");
        reveal_strlit("");
    }
    let needs = same(&v, a, verb_end, "sweep") || same(&v, a, verb_end, "get") || same(&v, a, verb_end, "objs")
        || same(&v, a, verb_end, "arena") || same(&v, a, verb_end, "faults");
    if needs && !registered {
        out.append("  no model registered (try `model`)\n");
        return (Command::Done, args);
    }
    let command = if same(&v, a, verb_end, "mem") {
        Command::Mem
    } else if same(&v, a, verb_end, "dev") {
        Command::Dev
    } else if same(&v, a, verb_end, "sweep") {
        Command::Sweep
    } else if same(&v, a, verb_end, "arena") {
        Command::Arena
    } else if same(&v, a, verb_end, "faults") {
        Command::Faults
    } else if same(&v, a, verb_end, "model") {
        Command::Model
    } else if same(&v, a, verb_end, "get") {
        Command::Get
    } else if same(&v, a, verb_end, "objs") {
        Command::Objs
    } else if same(&v, a, verb_end, "ticks") {
        Command::Ticks
    } else if same(&v, a, verb_end, "evict") {
        Command::Evict
    } else if same(&v, a, verb_end, "stream") {
        Command::Stream
    } else {
        Command::Done
    };
    if same(&v, a, verb_end, "help") || same(&v, a, verb_end, "?") {
        out.append(HELP);
    } else if command == Command::Done && a != verb_end {
        let ghost before = out@;
        out.append("no such command: ");
        out.append(line.substring_char(a, verb_end));
        out.append("   (try `help`)\n");
        assert(out@ =~= before + answer(line@, registered));
    } else {
        if a == verb_end {
            assert(verb =~= ""@);
        }
        assert(command == command_of(verb));
        assert(known(verb));
        assert(out@ =~= old(out)@ + answer(line@, registered));
    }
    (command, args)
}

/// Whether `objs` was asked for every object: its first word is `all`.
pub fn wants_all(args: &str) -> (all: bool)
    ensures
        all == (words(args@).len() > 0 && words(args@)[0] == "all"@),
{
    let v = chars_of(args);
    let r = word_ranges(&v);
    if r.len() == 0 {
        return false;
    }
    let (a, b) = r[0];
    assert(texts(v@, r@)[0] == v@.subrange(a as int, b as int));
    same(&v, a, b, "all")
}

/// The number the first word of `args` spells, if it is one that fits a
/// `usize`.
pub open spec fn first_number(args: Seq<char>) -> Option<nat> {
    if words(args).len() > 0 {
        parse_unsigned(words(args)[0], 10, usize::MAX as nat)
    } else {
        None
    }
}

/// The arena budget `model` was asked for, in bytes: the first word in
/// kibibytes, or `default` when there is no such number.
pub fn budget(args: &str, default: usize) -> (bytes: usize)
    requires
        first_number(args@) matches Some(kib) ==> kib * 1024 <= usize::MAX,
    ensures
        bytes == (match first_number(args@) {
            Some(kib) => kib * 1024,
            None => default as nat,
        }),
{
    let v = chars_of(args);
    let r = word_ranges(&v);
    if r.len() == 0 {
        return default;
    }
    let (a, b) = r[0];
    assert(texts(v@, r@)[0] == v@.subrange(a as int, b as int));
    match parse_unsigned_range(&v, a, b, 10, usize::MAX as u64) {
        Some(kib) => (kib as usize) * 1024,
        None => default,
    }
}

/// The number of steps `stream` was asked to advance by: its first word,
/// if that is a number fitting a `u32`.
pub open spec fn spec_steps(args: Seq<char>) -> Option<u32> {
    if words(args).len() > 0 {
        match parse_unsigned(words(args)[0], 10, u32::MAX as nat) {
            Some(n) => Some(n as u32),
            None => None,
        }
    } else {
        None
    }
}

/// How far `stream` was asked to advance, or `None` when it was asked to
/// declare.
pub fn steps(args: &str) -> (n: Option<u32>)
    ensures
        n == spec_steps(args@),
{
    let v = chars_of(args);
    let r = word_ranges(&v);
    if r.len() == 0 {
        return None;
    }
    let (a, b) = r[0];
    assert(texts(v@, r@)[0] == v@.subrange(a as int, b as int));
    match parse_unsigned_range(&v, a, b, 10, u32::MAX as u64) {
        Some(n) => Some(n as u32),
        None => None,
    }
}

} // verus!
