//! What a Proc's bytecode dump carries beside the compiled instructions.

use vstd::prelude::*;

verus! {

/// mruby's `MRB_DUMP_DEBUG_INFO`: carry the line numbers.
pub const MRB_DUMP_DEBUG_INFO: u8 = 1;

/// mruby's `MRB_DUMP_NO_LVAR`: leave the local variable names behind.
pub const MRB_DUMP_NO_LVAR: u8 = 4;

/// What a dump carries beside the compiled instructions.
///
/// The default carries neither — the smallest bytecode that still
/// loads. Ask for `debug_info` where the loaded program's exceptions
/// should answer a source backtrace.
#[derive(Debug, Clone, Copy, Default, PartialEq, Eq, Structural)]
pub struct DumpOptions {
    /// Carry the line numbers a loaded program's exceptions are
    /// backtraced from.
    pub debug_info: bool,
    /// Carry the local variable names.
    pub locals: bool,
}

impl DumpOptions {
    /// The flag word mruby's dumper reads for these options.
    pub open spec fn flag_word(self) -> u8 {
        let base: u8 = if self.locals { 0 } else { 4 };
        if self.debug_info {
            base | 1
        } else {
            base
        }
    }

    /// The flag word mruby's dumper reads. It spells the local variable
    /// names as an opt-out, so leaving them behind is what sets a bit.
    pub fn flags(self) -> (r: u8)
        ensures
            r == self.flag_word(),
            (r & MRB_DUMP_NO_LVAR == 0) == self.locals,
            (r & MRB_DUMP_DEBUG_INFO == 1) == self.debug_info,
            r & 0xfa == 0,
    {
        proof {
            lemma_flags_round_trip(self);
        }
        let mut flags = if self.locals {
            0
        } else {
            MRB_DUMP_NO_LVAR
        };
        if self.debug_info {
            flags = flags | MRB_DUMP_DEBUG_INFO;
        }
        flags
    }
}

proof fn lemma_flag_bits(base: u8, debug: bool)
    by (bit_vector)
    requires
        base == 0 || base == 4,
    ensures
        ({
            let w = if debug { base | 1u8 } else { base };
            &&& (w & 4u8 == 0) == (base == 0)
            &&& (w & 1u8 == 1) == debug
            &&& w & 0xfau8 == (base & 0xfau8)
            &&& w & 0xfbu8 == (if debug { 1u8 } else { 0u8 })
        }),
{
}

/// The flag word says exactly what the options ask for: the
/// local-variable bit is clear when the names are kept, the debug bit set
/// when line numbers are, and no other bit is ever set — so two different
/// options never dump alike.
pub proof fn lemma_flags_round_trip(options: DumpOptions)
    ensures
        (options.flag_word() & MRB_DUMP_NO_LVAR == 0) == options.locals,
        (options.flag_word() & MRB_DUMP_DEBUG_INFO == 1) == options.debug_info,
        options.flag_word() & 0xfa == 0,
{
    let base: u8 = if options.locals { 0 } else { 4 };
    lemma_flag_bits(base, options.debug_info);
    assert(base & 0xfau8 == 0) by (bit_vector)
        requires
            base == 0 || base == 4,
    ;
}

} // verus!
