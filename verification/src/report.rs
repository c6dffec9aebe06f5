//! What the inspector shell's verbs print.
//!
//! The verbs read the machine, the clock and the object manager; what
//! they then say -- which numbers, in which units, in which words -- is
//! decided here, from the plain values they read.

use vstd::prelude::*;

use crate::abi::{Error, ObjectClass};
use crate::objtab::{CostNs, Tier};
use crate::synth::TILE_BYTES;
use crate::text::{decimal, hex, hex_fixed, pow16, push_char, push_decimal, push_hex, push_hex_fixed};

verus! {

/// How an error is written: its name.
pub open spec fn error_name(e: Error) -> Seq<char> {
    match e {
        Error::NoBudget => "NoBudget"@,
        Error::BadObject => "BadObject"@,
        Error::NoProvider => "NoProvider"@,
    }
}

fn error_word(e: Error) -> (w: &'static str)
    ensures
        w@ == error_name(e),
{
    match e {
        Error::NoBudget => "NoBudget",
        Error::BadObject => "BadObject",
        Error::NoProvider => "NoProvider",
    }
}

/// How an object class is written: its name.
pub open spec fn class_name(c: ObjectClass) -> Seq<char> {
    match c {
        ObjectClass::WeightTile => "WeightTile"@,
        ObjectClass::Scale => "Scale"@,
        ObjectClass::Expert => "Expert"@,
        ObjectClass::KvBlock => "KvBlock"@,
        ObjectClass::Activation => "Activation"@,
        ObjectClass::EmbedBlock => "EmbedBlock"@,
        ObjectClass::RagBlock => "RagBlock"@,
        ObjectClass::Adapter => "Adapter"@,
    }
}

fn class_word(c: ObjectClass) -> (w: &'static str)
    ensures
        w@ == class_name(c),
{
    match c {
        ObjectClass::WeightTile => "WeightTile",
        ObjectClass::Scale => "Scale",
        ObjectClass::Expert => "Expert",
        ObjectClass::KvBlock => "KvBlock",
        ObjectClass::Activation => "Activation",
        ObjectClass::EmbedBlock => "EmbedBlock",
        ObjectClass::RagBlock => "RagBlock",
        ObjectClass::Adapter => "Adapter",
    }
}

/// How a tier is written: its name.
pub open spec fn tier_name(t: Tier) -> Seq<char> {
    match t {
        Tier::Hot => "Hot"@,
        Tier::Warm => "Warm"@,
        Tier::Cold => "Cold"@,
        Tier::Stream => "Stream"@,
        Tier::Archive => "Archive"@,
    }
}

fn tier_word(t: Tier) -> (w: &'static str)
    ensures
        w@ == tier_name(t),
{
    match t {
        Tier::Hot => "Hot",
        Tier::Warm => "Warm",
        Tier::Cold => "Cold",
        Tier::Stream => "Stream",
        Tier::Archive => "Archive",
    }
}

/// `n` in decimal, zero-padded to two digits.
pub open spec fn two_digits(n: nat) -> Seq<char> {
    if n < 10 {
        "0"@ + decimal(n)
    } else {
        decimal(n)
    }
}

/// `n` in decimal, zero-padded to three digits.
pub open spec fn three_digits(n: nat) -> Seq<char> {
    if n < 10 {
        "00"@ + decimal(n)
    } else if n < 100 {
        "0"@ + decimal(n)
    } else {
        decimal(n)
    }
}

/// `n` in hexadecimal after `0x`, without leading zeros.
pub open spec fn hex_number(n: nat) -> Seq<char> {
    "0x"@ + hex(n)
}

fn push_two_digits(out: &mut String, n: u64)
    ensures
        final(out)@ == old(out)@ + two_digits(n as nat),
{
    let ghost start = out@;
    if n < 10 {
        out.append("0");
    }
    push_decimal(out, n);
    proof {
        reveal_strlit("0");
    }
    assert(out@ =~= start + two_digits(n as nat));
}

fn push_three_digits(out: &mut String, n: u64)
    ensures
        final(out)@ == old(out)@ + three_digits(n as nat),
{
    let ghost start = out@;
    if n < 10 {
        out.append("00");
    } else if n < 100 {
        out.append("0");
    }
    push_decimal(out, n);
    proof {
        reveal_strlit("0");
        reveal_strlit("00");
    }
    assert(out@ =~= start + three_digits(n as nat));
}

fn push_hex_number(out: &mut String, n: u64)
    ensures
        final(out)@ == old(out)@ + hex_number(n as nat),
{
    let ghost start = out@;
    out.append("0x");
    push_hex(out, n);
    assert(out@ =~= start + hex_number(n as nat));
}

/// Nanoseconds from `ticks` of a clock running at `hz`, as the sweep
/// reports them: saturating rather than wrapping, and a clock that claims
/// zero hertz counted as one.
pub open spec fn elapsed_ns(ticks: u64, hz: u32) -> u64 {
    let scaled = if ticks * 1_000_000_000 > u64::MAX {
        u64::MAX
    } else {
        (ticks * 1_000_000_000) as u64
    };
    (scaled / (if hz == 0 {
        1
    } else {
        hz as u64
    })) as u64
}

/// What `sweep` prints.
pub open spec fn sweep_text(acquired: u32, total: u32, ns: u64, stopped: Option<Error>) -> Seq<char> {
    "  acquired "@ + decimal(acquired as nat) + " of "@ + decimal(total as nat) + " tiles in "@ + decimal(
        (ns / 1000) as nat,
    ) + "."@ + three_digits((ns % 1000) as nat) + " us\n"@ + match stopped {
        Some(e) => "  stopped: "@ + error_name(e) + " -- no eviction policy yet\n"@,
        None => "  swept the whole model\n"@,
    }
}

/// Reports a sweep: how many of the model's tiles were acquired, how long
/// it took from `started` to `ended` on a clock of `hz`, and why it
/// stopped if it stopped early.
///
/// Fixed point to the nanosecond, not rounded microseconds: a sweep that
/// only hits takes a few microseconds, and a unit that reads a faulting
/// sweep well would throw that one away. Stopping early is not a failure:
/// how far the sweep got is the number compared.
pub fn sweep(out: &mut String, acquired: u32, total: u32, started: u64, ended: u64, hz: u32, stopped: Option<Error>)
    ensures
        final(out)@ == old(out)@ + sweep_text(
            acquired,
            total,
            elapsed_ns(if ended > started { (ended - started) as u64 } else { 0 }, hz),
            stopped,
        ),
{
    let ghost start = out@;
    let ticks = ended.saturating_sub(started);
    let per = if hz == 0 {
        1
    } else {
        hz as u64
    };
    let scaled = match ticks.checked_mul(1_000_000_000) {
        Some(x) => x,
        None => u64::MAX,
    };
    let ns = scaled / per;
    assert(ns == elapsed_ns(if ended > started { (ended - started) as u64 } else { 0 }, hz));
    out.append("  acquired ");
    push_decimal(out, acquired as u64);
    out.append(" of ");
    push_decimal(out, total as u64);
    out.append(" tiles in ");
    push_decimal(out, ns / 1000);
    out.append(".");
    push_three_digits(out, ns % 1000);
    out.append(" us\n");
    match stopped {
        Some(error) => {
            out.append("  stopped: ");
            out.append(error_word(error));
            out.append(" -- no eviction policy yet\n");
        },
        None => {
            out.append("  swept the whole model\n");
        },
    }
    assert(out@ =~= start + sweep_text(acquired, total, ns, stopped));
}

/// What `arena` prints.
pub open spec fn arena_text(used: u64, capacity: u64, largest: u64, rm: Option<(u64, u64, u64)>) -> Seq<char> {
    "  arena    "@ + decimal((used / 1024) as nat) + " of "@ + decimal((capacity / 1024) as nat) + " KiB used\n"@
        + "  room for "@ + decimal((largest / TILE_BYTES as u64) as nat) + " more tiles of "@ + decimal(
        TILE_BYTES as nat,
    ) + " B, largest run "@ + decimal(largest as nat) + " B\n"@ + match rm {
        Some((resident, registered, per_mille)) => "  Rm       "@ + decimal((resident / 1024) as nat) + "/"@
            + decimal((registered / 1024) as nat) + " KiB of the model = "@ + decimal(per_mille as nat)
            + " per mille\n"@,
        None => seq![],
    }
}

/// Reports the arena: how full it is, and what would still fit.
///
/// The largest single run, not the total free: after evictions those
/// differ, and the difference is memory the arena holds and cannot give
/// to anything. `rm` is the residency ratio against the whole model --
/// resident bytes, registered bytes and their ratio per mille -- when the
/// manager has one to report.
pub fn arena(out: &mut String, used: u64, capacity: u64, largest: u64, rm: Option<(u64, u64, u64)>)
    ensures
        final(out)@ == old(out)@ + arena_text(used, capacity, largest, rm),
{
    let ghost start = out@;
    let tile = TILE_BYTES as u64;
    out.append("  arena    ");
    push_decimal(out, used >> 10);
    out.append(" of ");
    push_decimal(out, capacity >> 10);
    out.append(" KiB used\n");
    out.append("  room for ");
    push_decimal(out, largest / tile);
    out.append(" more tiles of ");
    push_decimal(out, tile);
    out.append(" B, largest run ");
    push_decimal(out, largest);
    out.append(" B\n");
    assert(used >> 10 == used / 1024) by (bit_vector);
    assert(capacity >> 10 == capacity / 1024) by (bit_vector);
    match rm {
        Some((resident, registered, per_mille)) => {
            assert(resident >> 10 == resident / 1024) by (bit_vector);
            assert(registered >> 10 == registered / 1024) by (bit_vector);
            out.append("  Rm       ");
            push_decimal(out, resident >> 10);
            out.append("/");
            push_decimal(out, registered >> 10);
            out.append(" KiB of the model = ");
            push_decimal(out, per_mille);
            out.append(" per mille\n");
        },
        None => {},
    }
    assert(out@ =~= start + arena_text(used, capacity, largest, rm));
}

/// The last fault the manager serviced.
#[derive(Clone, Copy, PartialEq, Eq, Debug, Structural)]
pub struct Fault {
    /// The class of the object faulted in.
    pub class: ObjectClass,
    /// Its layer.
    pub layer: u16,
    /// Its tensor.
    pub tensor: u16,
    /// Its tile.
    pub tile: u8,
    /// What servicing it cost.
    pub cost: CostNs,
}

/// The class whose counters sit at `index`, in class order.
pub open spec fn class_at(index: int) -> ObjectClass {
    if index == 0 {
        ObjectClass::WeightTile
    } else if index == 1 {
        ObjectClass::Scale
    } else if index == 2 {
        ObjectClass::Expert
    } else if index == 3 {
        ObjectClass::KvBlock
    } else if index == 4 {
        ObjectClass::Activation
    } else if index == 5 {
        ObjectClass::EmbedBlock
    } else if index == 6 {
        ObjectClass::RagBlock
    } else {
        ObjectClass::Adapter
    }
}

/// The counter at index `i` is labelled with the class whose index it is:
/// the class with code `i + 1`, the code every id of that class carries.
/// So each class's faults are reported under its own name.
pub proof fn law_each_counter_is_labelled_by_its_class(i: int)
    requires
        0 <= i < 8,
    ensures
        class_at(i).spec_code() == i + 1,
        ObjectClass::spec_from_code((i + 1) as u8) == Some(class_at(i)),
{
}

/// Different counters are labelled with different classes.
pub proof fn law_no_two_counters_share_a_label(i: int, j: int)
    requires
        0 <= i < 8,
        0 <= j < 8,
        i != j,
    ensures
        class_at(i) != class_at(j),
{
    law_each_counter_is_labelled_by_its_class(i);
    law_each_counter_is_labelled_by_its_class(j);
}

fn class_of_index(index: usize) -> (c: ObjectClass)
    ensures
        c == class_at(index as int),
{
    match index {
        0 => ObjectClass::WeightTile,
        1 => ObjectClass::Scale,
        2 => ObjectClass::Expert,
        3 => ObjectClass::KvBlock,
        4 => ObjectClass::Activation,
        5 => ObjectClass::EmbedBlock,
        6 => ObjectClass::RagBlock,
        _ => ObjectClass::Adapter,
    }
}

/// The per-class lines of `faults` for the classes before `upto`.
pub open spec fn class_lines(faults: Seq<u64>, fetched: Seq<u64>, upto: int) -> Seq<char>
    decreases upto,
{
    if upto <= 0 {
        seq![]
    } else {
        class_lines(faults, fetched, upto - 1) + if faults[upto - 1] > 0 {
            "    "@ + class_name(class_at(upto - 1)) + ": "@ + decimal(faults[upto - 1] as nat) + " faults, "@
                + decimal((fetched[upto - 1] / 1024) as nat) + " KiB fetched\n"@
        } else {
            seq![]
        }
    }
}

/// What `faults` prints.
pub open spec fn faults_text(faults: Seq<u64>, fetched: Seq<u64>, total: u64, last: Option<Fault>) -> Seq<char> {
    "  faults   "@ + decimal(total as nat) + " total\n"@ + class_lines(faults, fetched, 8) + match last {
        Some(f) => "  last     "@ + class_name(f.class) + " L"@ + decimal(f.layer as nat) + " T"@ + decimal(
            f.tensor as nat,
        ) + " tile "@ + decimal(f.tile as nat) + ", "@ + decimal((f.cost.0 / 1000) as nat) + " us\n"@,
        None => seq![],
    }
}

/// The line `faults` prints for the class at `index`, when it faulted.
pub open spec fn class_line(faults: Seq<u64>, fetched: Seq<u64>, index: int) -> Seq<char> {
    if faults[index] > 0 {
        "    "@ + class_name(class_at(index)) + ": "@ + decimal(faults[index] as nat) + " faults, "@
            + decimal((fetched[index] / 1024) as nat) + " KiB fetched\n"@
    } else {
        seq![]
    }
}

fn write_class_line(out: &mut String, index: usize, count: u64, bytes: u64)
    ensures
        final(out)@ == old(out)@ + (if count > 0 {
            "    "@ + class_name(class_at(index as int)) + ": "@ + decimal(count as nat) + " faults, "@
                + decimal((bytes / 1024) as nat) + " KiB fetched\n"@
        } else {
            seq![]
        }),
{
    let ghost start = out@;
    if count > 0 {
        out.append("    ");
        out.append(class_word(class_of_index(index)));
        out.append(": ");
        push_decimal(out, count);
        out.append(" faults, ");
        assert(bytes >> 10 == bytes / 1024) by (bit_vector);
        push_decimal(out, bytes >> 10);
        out.append(" KiB fetched\n");
    }
    assert(out@ =~= start + (if count > 0 {
        "    "@ + class_name(class_at(index as int)) + ": "@ + decimal(count as nat) + " faults, "@
            + decimal((bytes / 1024) as nat) + " KiB fetched\n"@
    } else {
        seq![]
    }));
}

/// The line `faults` prints about the last fault, if there was one.
pub open spec fn last_line(last: Option<Fault>) -> Seq<char> {
    match last {
        Some(f) => "  last     "@ + class_name(f.class) + " L"@ + decimal(f.layer as nat) + " T"@ + decimal(
            f.tensor as nat,
        ) + " tile "@ + decimal(f.tile as nat) + ", "@ + decimal((f.cost.0 / 1000) as nat) + " us\n"@,
        None => seq![],
    }
}

fn write_last_line(out: &mut String, last: Option<Fault>)
    ensures
        final(out)@ == old(out)@ + last_line(last),
{
    let ghost start = out@;
    match last {
        Some(f) => {
            out.append("  last     ");
            out.append(class_word(f.class));
            out.append(" L");
            push_decimal(out, f.layer as u64);
            out.append(" T");
            push_decimal(out, f.tensor as u64);
            out.append(" tile ");
            push_decimal(out, f.tile as u64);
            out.append(", ");
            push_decimal(out, f.cost.0 / 1000);
            out.append(" us\n");
        },
        None => {},
    }
    assert(out@ =~= start + last_line(last));
}

/// Reports what faulting has cost: the total, then each class that has
/// faulted -- `faults` and `fetched` hold one count per class, in class
/// order -- then the last fault, named by its layer and tensor, which a
/// page fault could never have said.
pub fn faults(out: &mut String, faults: &[u64], fetched: &[u64], total: u64, last: Option<Fault>)
    requires
        faults@.len() == 8,
        fetched@.len() == 8,
    ensures
        final(out)@ == old(out)@ + faults_text(faults@, fetched@, total, last),
{
    let ghost start = out@;
    out.append("  faults   ");
    push_decimal(out, total);
    out.append(" total\n");
    let ghost head = out@;
    let mut index: usize = 0;
    while index < 8
        invariant
            index <= 8,
            faults@.len() == 8,
            fetched@.len() == 8,
            out@ == head + class_lines(faults@, fetched@, index as int),
        decreases 8 - index,
    {
        write_class_line(out, index, faults[index], fetched[index]);
        assert(class_lines(faults@, fetched@, index + 1) == class_lines(faults@, fetched@, index as int)
            + class_line(faults@, fetched@, index as int));
        assert(out@ =~= head + class_lines(faults@, fetched@, index + 1));
        index += 1;
    }
    let ghost body = out@;
    write_last_line(out, last);
    assert(faults_text(faults@, fetched@, total, last) == "  faults   "@ + decimal(total as nat) + " total\n"@
        + class_lines(faults@, fetched@, 8) + last_line(last));
    assert(out@ =~= start + faults_text(faults@, fetched@, total, last));
}

/// What `get` prints about an acquire that succeeded.
pub open spec fn outcome_text(resident: bool, size: u64, address: u64, first: u8, fault: Option<CostNs>) -> Seq<
    char,
> {
    "  "@ + (if resident {
        "hit"@
    } else {
        "faulted"@
    }) + ": "@ + decimal(size as nat) + " B at "@ + hex_number(address as nat) + ", first byte 0x"@ + hex_fixed(
        first as nat,
        2,
    ) + "\n"@ + match (resident, fault) {
        (false, Some(cost)) => "  cost "@ + decimal((cost.0 / 1000) as nat) + " us\n"@,
        _ => seq![],
    }
}

/// Reports an acquire that succeeded: whether it hit or faulted, where
/// the object landed, its first byte -- the cheapest possible proof of
/// where the bytes came from -- and, for a fault, what it cost.
pub fn outcome(out: &mut String, resident: bool, size: u64, address: u64, first: u8, fault: Option<CostNs>)
    ensures
        final(out)@ == old(out)@ + outcome_text(resident, size, address, first, fault),
{
    let ghost start = out@;
    out.append("  ");
    if resident {
        out.append("hit");
    } else {
        out.append("faulted");
    }
    out.append(": ");
    push_decimal(out, size);
    out.append(" B at ");
    push_hex_number(out, address);
    out.append(", first byte 0x");
    push_hex_fixed(out, first as u64, 2);
    push_char(out, '\n');
    match (resident, fault) {
        (false, Some(cost)) => {
            out.append("  cost ");
            push_decimal(out, cost.0 / 1000);
            out.append(" us\n");
        },
        _ => {},
    }
    proof {
        reveal_strlit("\n");
    }
    assert(out@ =~= start + outcome_text(resident, size, address, first, fault));
}

/// What `get` prints about an acquire that was refused.
pub open spec fn refused_text(e: Error) -> Seq<char> {
    "  refused: "@ + error_name(e) + "\n"@
}

/// Reports an acquire that was refused, and why.
pub fn refused(out: &mut String, error: Error)
    ensures
        final(out)@ == old(out)@ + refused_text(error),
{
    let ghost start = out@;
    out.append("  refused: ");
    out.append(error_word(error));
    out.append("\n");
    assert(out@ =~= start + refused_text(error));
}

/// What `model` prints once the model is registered.
pub open spec fn registered_text(objects: u32, bytes: u64, budget: u64, on_disk: bool) -> Seq<char> {
    "  registered "@ + decimal(objects as nat) + " objects, "@ + decimal((bytes / 1024) as nat)
        + " KiB across 3 tiers\n"@ + "  budget     "@ + decimal((budget / 1024) as nat) + " KiB of arena\n"@
        + "  weights    from "@ + (if on_disk {
        "virtio-blk"@
    } else {
        "a pattern (no disk attached)"@
    }) + "\n"@
}

/// Reports what was registered, against what budget, and where its bytes
/// will come from.
pub fn registered(out: &mut String, objects: u32, bytes: u64, budget: u64, on_disk: bool)
    ensures
        final(out)@ == old(out)@ + registered_text(objects, bytes, budget, on_disk),
{
    let ghost start = out@;
    out.append("  registered ");
    push_decimal(out, objects as u64);
    out.append(" objects, ");
    push_decimal(out, bytes >> 10);
    out.append(" KiB across 3 tiers\n");
    out.append("  budget     ");
    push_decimal(out, budget >> 10);
    out.append(" KiB of arena\n");
    out.append("  weights    from ");
    if on_disk {
        out.append("virtio-blk");
    } else {
        out.append("a pattern (no disk attached)");
    }
    out.append("\n");
    assert(bytes >> 10 == bytes / 1024) by (bit_vector);
    assert(budget >> 10 == budget / 1024) by (bit_vector);
    assert(out@ =~= start + registered_text(objects, bytes, budget, on_disk));
}

/// One line of `objs`: a tile, where it lives, where it is, how often it
/// has been wanted and when it is next wanted.
pub open spec fn listed_text(layer: u16, tensor: u16, tier: Tier, at: u64, used: u32, next: Seq<char>) -> Seq<char> {
    "  L"@ + two_digits(layer as nat) + " T"@ + two_digits(tensor as nat) + "  "@ + tier_name(tier) + "  "@
        + hex_number(at as nat) + "  used "@ + decimal(used as nat) + "  next "@ + next + "\n"@
}

/// Writes one line of `objs`. `next` is the next use, already written out.
pub fn listed(out: &mut String, layer: u16, tensor: u16, tier: Tier, at: u64, used: u32, next: &str)
    ensures
        final(out)@ == old(out)@ + listed_text(layer, tensor, tier, at, used, next@),
{
    let ghost start = out@;
    out.append("  L");
    push_two_digits(out, layer as u64);
    out.append(" T");
    push_two_digits(out, tensor as u64);
    out.append("  ");
    out.append(tier_word(tier));
    out.append("  ");
    push_hex_number(out, at);
    out.append("  used ");
    push_decimal(out, used as u64);
    out.append("  next ");
    out.append(next);
    out.append("\n");
    assert(out@ =~= start + listed_text(layer, tensor, tier, at, used, next@));
}

/// What `objs` prints after the list.
pub open spec fn shown_text(shown: u32) -> Seq<char> {
    if shown == 0 {
        "  nothing resident (try `sweep`, or `objs all`)\n"@
    } else {
        "  "@ + decimal(shown as nat) + " shown\n"@
    }
}

/// Writes how many objects `objs` listed.
pub fn shown(out: &mut String, shown: u32)
    ensures
        final(out)@ == old(out)@ + shown_text(shown),
{
    let ghost start = out@;
    if shown == 0 {
        out.append("  nothing resident (try `sweep`, or `objs all`)\n");
    } else {
        out.append("  ");
        push_decimal(out, shown as u64);
        out.append(" shown\n");
    }
    assert(out@ =~= start + shown_text(shown));
}

/// What `ticks` prints.
pub open spec fn ticks_text(ticks: u32) -> Seq<char> {
    decimal(ticks as nat) + " timer ticks since boot\n"@
}

/// Reports the timer ticks since boot.
pub fn ticks(out: &mut String, ticks: u32)
    ensures
        final(out)@ == old(out)@ + ticks_text(ticks),
{
    let ghost start = out@;
    push_decimal(out, ticks as u64);
    out.append(" timer ticks since boot\n");
    assert(out@ =~= start + ticks_text(ticks));
}

/// What `dev` prints.
pub open spec fn dev_text(uart: u64, uart_irq: u32, timer_irq: u32, gic: Option<(u64, u64)>) -> Seq<char> {
    "  console  pl011 @ "@ + hex_number(uart as nat) + ", irq "@ + decimal(uart_irq as nat) + "\n"@
        + "  timer    generic, irq "@ + decimal(timer_irq as nat) + "\n"@ + match gic {
        Some((dist, redist)) => "  gic      v3, dist "@ + hex_number(dist as nat) + ", redist "@ + hex_number(
            redist as nat,
        ) + "\n"@,
        None => "  gic      none\r\n"@,
    }
}

/// Reports the devices in use: the console and its interrupt, the
/// timer's, and the interrupt controller if there is one.
pub fn dev(out: &mut String, uart: u64, uart_irq: u32, timer_irq: u32, gic: Option<(u64, u64)>)
    ensures
        final(out)@ == old(out)@ + dev_text(uart, uart_irq, timer_irq, gic),
{
    let ghost start = out@;
    out.append("  console  pl011 @ ");
    push_hex_number(out, uart);
    out.append(", irq ");
    push_decimal(out, uart_irq as u64);
    out.append("\n");
    out.append("  timer    generic, irq ");
    push_decimal(out, timer_irq as u64);
    out.append("\n");
    match gic {
        Some((dist, redist)) => {
            out.append("  gic      v3, dist ");
            push_hex_number(out, dist);
            out.append(", redist ");
            push_hex_number(out, redist);
            out.append("\n");
        },
        None => {
            out.append("  gic      none\r\n");
        },
    }
    assert(out@ =~= start + dev_text(uart, uart_irq, timer_irq, gic));
}

/// `n` in hexadecimal after `0x`, zero-padded to at least ten digits.
pub open spec fn hex_ten(n: nat) -> Seq<char> {
    "0x"@ + if n < pow16(10) {
        hex_fixed(n, 10)
    } else {
        hex(n)
    }
}

/// What `mem` prints about one region of the memory map.
pub open spec fn region_text(base: u64, len: u64, kind: Seq<char>) -> Seq<char> {
    "  "@ + hex_ten(base as nat) + " + "@ + hex_number(len as nat) + " "@ + kind + "\n"@
}

/// Writes one region of the memory map: its base, its length and what
/// kind of memory it is, already named.
pub fn region(out: &mut String, base: u64, len: u64, kind: &str)
    ensures
        final(out)@ == old(out)@ + region_text(base, len, kind@),
{
    let ghost start = out@;
    out.append("  ");
    out.append("0x");
    assert(pow16(10) == 0x100_0000_0000) by {
        reveal_with_fuel(pow16, 11);
    }
    if base < 0x100_0000_0000 {
        push_hex_fixed(out, base, 10);
    } else {
        push_hex(out, base);
    }
    out.append(" + ");
    push_hex_number(out, len);
    out.append(" ");
    out.append(kind);
    out.append("\n");
    assert(out@ =~= start + region_text(base, len, kind@));
}

/// What `mem` prints after the regions.
pub open spec fn memory_text(image: (u64, u64), usable: u64, total: u64, cpus: u32) -> Seq<char> {
    "  image  "@ + hex_number(image.0 as nat) + " + "@ + hex_number(image.1 as nat) + "\n"@ + "  usable "@
        + decimal((usable / 0x10_0000) as nat) + " MiB of "@ + decimal((total / 0x10_0000) as nat) + " MiB, "@
        + decimal(cpus as nat) + " cpu(s)\n"@
}

/// Writes the kernel image's place and how much memory is usable: the
/// image is memory the machine has and the object manager may not have.
pub fn memory(out: &mut String, image: (u64, u64), usable: u64, total: u64, cpus: u32)
    ensures
        final(out)@ == old(out)@ + memory_text(image, usable, total, cpus),
{
    let ghost start = out@;
    out.append("  image  ");
    push_hex_number(out, image.0);
    out.append(" + ");
    push_hex_number(out, image.1);
    out.append("\n");
    out.append("  usable ");
    push_decimal(out, usable >> 20);
    out.append(" MiB of ");
    push_decimal(out, total >> 20);
    out.append(" MiB, ");
    push_decimal(out, cpus as u64);
    out.append(" cpu(s)\n");
    assert(usable >> 20 == usable / 0x10_0000) by (bit_vector);
    assert(total >> 20 == total / 0x10_0000) by (bit_vector);
    assert(out@ =~= start + memory_text(image, usable, total, cpus));
}

/// What `evict` prints.
pub open spec fn evicted_text(result: Result<u64, Error>) -> Seq<char> {
    match result {
        Ok(bytes) => "  evicted "@ + decimal(bytes as nat) + " B, returned to the arena\n"@,
        Err(why) => "  not evicted: "@ + error_name(why) + "\n"@,
    }
}

/// Reports an eviction: the bytes given back to the arena, or why not.
pub fn evicted(out: &mut String, result: Result<u64, Error>)
    ensures
        final(out)@ == old(out)@ + evicted_text(result),
{
    let ghost start = out@;
    match result {
        Ok(bytes) => {
            out.append("  evicted ");
            push_decimal(out, bytes);
            out.append(" B, returned to the arena\n");
        },
        Err(why) => {
            out.append("  not evicted: ");
            out.append(error_word(why));
            out.append("\n");
        },
    }
    assert(out@ =~= start + evicted_text(result));
}

/// What `stream` prints after advancing.
pub open spec fn advanced_text(at: Option<u32>) -> Seq<char> {
    match at {
        Some(at) => "  advanced to position "@ + decimal(at as nat) + "\n"@,
        None => "  no model registered (try `model`)\n"@,
    }
}

/// Reports where the stream got to, or that there is no model to have one.
pub fn advanced(out: &mut String, at: Option<u32>)
    ensures
        final(out)@ == old(out)@ + advanced_text(at),
{
    let ghost start = out@;
    match at {
        Some(at) => {
            out.append("  advanced to position ");
            push_decimal(out, at as u64);
            out.append("\n");
        },
        None => {
            out.append("  no model registered (try `model`)\n");
        },
    }
    assert(out@ =~= start + advanced_text(at));
}

/// What `stream` prints after declaring.
pub open spec fn declared_text(count: Option<u32>) -> Seq<char> {
    match count {
        Some(count) => "  declared "@ + decimal(count as nat) + " objects, cursor at 0\n"@,
        None => "  could not declare a stream\n"@,
    }
}

/// Reports a declaration: how many objects, with the cursor rewound.
pub fn declared(out: &mut String, count: Option<u32>)
    ensures
        final(out)@ == old(out)@ + declared_text(count),
{
    let ghost start = out@;
    match count {
        Some(count) => {
            out.append("  declared ");
            push_decimal(out, count as u64);
            out.append(" objects, cursor at 0\n");
        },
        None => {
            out.append("  could not declare a stream\n");
        },
    }
    assert(out@ =~= start + declared_text(count));
}

} // verus!
