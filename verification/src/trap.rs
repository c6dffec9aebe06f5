//! What the CPU can tell us about why it stopped.
//!
//! The registers are read by the exception handler; what they mean, and
//! how they are written on the console, is here.

use vstd::prelude::*;

use crate::text::{decimal, hex_fixed, push_char, push_decimal, push_hex_fixed};

verus! {

/// A snapshot of why an exception was taken.
#[derive(Clone, Copy, PartialEq, Eq, Debug, Structural)]
pub struct Trap {
    /// Which of the sixteen vector table entries fired.
    pub vector: usize,
    /// `ESR_EL1`: the syndrome. Bits 31..26 are the exception class.
    pub esr: u64,
    /// `ELR_EL1`: the instruction that faulted, or the one to return to.
    pub elr: u64,
    /// `FAR_EL1`: the address that faulted. Only meaningful for aborts.
    pub far: u64,
    /// `SPSR_EL1`: the processor state at the moment of the exception.
    pub spsr: u64,
}

/// The exception class of a syndrome: its bits 31..26.
pub open spec fn spec_exception_class(esr: u64) -> u8 {
    ((esr / 0x400_0000) % 64) as u8
}

impl Trap {
    /// The exception class, `ESR_EL1[31:26]`.
    ///
    /// `0x25` is a data abort from the current EL -- overwhelmingly the
    /// one a kernel meets first, and what a wrong page table produces.
    pub fn exception_class(self) -> (ec: u8)
        ensures
            ec == spec_exception_class(self.esr),
            ec < 64,
    {
        let esr = self.esr;
        assert((esr >> 26u64) & 0x3f == (esr / 0x400_0000) % 64) by (bit_vector);
        ((esr >> 26) & 0x3f) as u8
    }
}

/// Which exception level a vector group is taken from, in table order.
pub open spec fn group_name(group: int) -> Seq<char> {
    if group == 0 {
        "CurrentSp0"@
    } else if group == 1 {
        "CurrentSpx"@
    } else if group == 2 {
        "Lower64"@
    } else {
        "Lower32"@
    }
}

/// Which kind of exception a vector within its group is for.
pub open spec fn kind_name(kind: int) -> Seq<char> {
    if kind == 0 {
        "sync"@
    } else if kind == 1 {
        "irq"@
    } else if kind == 2 {
        "fiq"@
    } else {
        "serror"@
    }
}

/// The name of vector table entry `vector`, or `?` past the sixteenth.
///
/// Which one fired is diagnostic on its own. A fault from `CurrentSpx` is
/// the kernel's own bug; the same fault from `Lower64` is a userspace one.
pub open spec fn vector_name(vector: int) -> Seq<char> {
    if 0 <= vector < 16 {
        group_name(vector / 4) + "/"@ + kind_name(vector % 4)
    } else {
        "?"@
    }
}

/// `0x` and the low `digits` hexadecimal digits of `n`.
pub open spec fn hex_prefixed(n: nat, digits: nat) -> Seq<char> {
    "0x"@ + hex_fixed(n, digits)
}

/// The lines `describe` writes about `trap`.
pub open spec fn description(trap: Trap) -> Seq<char> {
    "\n!! trap "@ + decimal(trap.vector as nat) + " ("@ + vector_name(trap.vector as int) + ")\n"@
        + "   esr  "@ + hex_prefixed(trap.esr as nat, 16) + "  ec "@
        + hex_prefixed(spec_exception_class(trap.esr) as nat, 2) + "\n"@
        + "   elr  "@ + hex_prefixed(trap.elr as nat, 16) + "\n"@
        + "   far  "@ + hex_prefixed(trap.far as nat, 16) + "\n"@
        + "   spsr "@ + hex_prefixed(trap.spsr as nat, 16) + "\n"@
}

fn group_word(group: usize) -> (w: &'static str)
    requires
        group < 4,
    ensures
        w@ == group_name(group as int),
{
    match group {
        0 => "CurrentSp0",
        1 => "CurrentSpx",
        2 => "Lower64",
        _ => "Lower32",
    }
}

fn kind_word(kind: usize) -> (w: &'static str)
    requires
        kind < 4,
    ensures
        w@ == kind_name(kind as int),
{
    match kind {
        0 => "sync",
        1 => "irq",
        2 => "fiq",
        _ => "serror",
    }
}

/// Appends the name of vector table entry `vector`.
fn push_vector_name(out: &mut String, vector: usize)
    ensures
        final(out)@ == old(out)@ + vector_name(vector as int),
{
    if vector < 16 {
        out.append(group_word(vector / 4));
        out.append("/");
        out.append(kind_word(vector % 4));
    } else {
        out.append("?");
    }
}

/// Appends `0x` and the low `digits` hexadecimal digits of `n`.
fn push_hex_prefixed(out: &mut String, n: u64, digits: u32)
    ensures
        final(out)@ == old(out)@ + hex_prefixed(n as nat, digits as nat),
{
    let ghost start = out@;
    out.append("0x");
    push_hex_fixed(out, n, digits);
    assert(out@ =~= start + hex_prefixed(n as nat, digits as nat));
}

/// Writes what the CPU said about a fault: which vector, then the four
/// registers that say why, each in full as sixteen hexadecimal digits.
pub fn describe(trap: &Trap, out: &mut String)
    ensures
        final(out)@ == old(out)@ + description(*trap),
{
    let ghost start = out@;
    out.append("\n!! trap ");
    push_decimal(out, trap.vector as u64);
    out.append(" (");
    push_vector_name(out, trap.vector);
    out.append(")\n");
    out.append("   esr  ");
    push_hex_prefixed(out, trap.esr, 16);
    out.append("  ec ");
    push_hex_prefixed(out, trap.exception_class() as u64, 2);
    push_char(out, '\n');
    out.append("   elr  ");
    push_hex_prefixed(out, trap.elr, 16);
    push_char(out, '\n');
    out.append("   far  ");
    push_hex_prefixed(out, trap.far, 16);
    push_char(out, '\n');
    out.append("   spsr ");
    push_hex_prefixed(out, trap.spsr, 16);
    push_char(out, '\n');
    proof {
        reveal_strlit("\n");
    }
    assert(out@ =~= start + description(*trap));
}

} // verus!
