//! What the PHY drivers and their users exchange.

use vstd::prelude::*;

use crate::mmio::{put, written, RegOp};

verus! {

/// Why a PHY did not do what it was asked.
#[derive(Clone, Copy, Debug, Eq, PartialEq, Structural)]
pub enum PhyError {
    NotFound,
    NotSupported,
    InvalidMode,
    PowerOnFailed,
    PowerOffFailed,
    ResetFailed,
    Busy,
    Timeout,
    HardwareError,
}

#[derive(Clone, Copy, Debug, Eq, PartialEq, Structural)]
pub enum PhyMode {
    UsbHost,
    UsbDevice,
    UsbOtg,
    /// A mode that is not one of USB.
    Other,
}

/// Which way round a plug is.
#[derive(Clone, Copy, Debug, Eq, PartialEq, Structural)]
pub enum PhyOrientation {
    Normal,
    Reverse,
}

pub open spec fn is_usb(mode: PhyMode) -> bool {
    mode != PhyMode::Other
}

pub fn is_usb_mode(mode: PhyMode) -> (r: bool)
    ensures
        r == is_usb(mode),
{
    match mode {
        PhyMode::Other => false,
        _ => true,
    }
}

/// A register update that is read back.
pub open spec fn flushed_update(offset: usize, clear: u32, set: u32) -> Seq<RegOp> {
    seq![RegOp::Update { offset, clear, set }, RegOp::Flush { offset }]
}

pub fn push_flushed_update(program: &mut Vec<RegOp>, offset: usize, clear: u32, set: u32)
    ensures
        final(program)@ == old(program)@ + flushed_update(offset, clear, set),
{
    let ghost start = program@;
    program.push(RegOp::Update { offset, clear, set });
    program.push(RegOp::Flush { offset });
    assert(program@ =~= start + flushed_update(offset, clear, set));
}

/// The writes of a register table: offsets from a base, and values.
pub open spec fn table_program(base: usize, table: Seq<(usize, u32)>) -> Seq<RegOp> {
    Seq::new(table.len(), |i: int| written((base + table[i].0) as usize, table[i].1))
}

/// The offsets of a table lie in a block of registers.
pub open spec fn table_fits(table: Seq<(usize, u32)>, size: int) -> bool {
    forall|i: int|
        0 <= i < table.len() ==> (#[trigger] table[i]).0 + 4 <= size && table[i].0 % 4 == 0
}

pub fn push_table(program: &mut Vec<RegOp>, base: usize, table: &[(usize, u32)])
    requires
        base <= 0x1_0000,
        table_fits(table@, 0x1000),
    ensures
        final(program)@ == old(program)@ + table_program(base, table@),
{
    let ghost start = program@;
    let length: usize = table.len();
    let mut i: usize = 0;
    while i < length
        invariant
            i <= length,
            length == table@.len(),
            base <= 0x1_0000,
            table_fits(table@, 0x1000),
            program@ == start + table_program(base, table@).take(i as int),
        decreases length - i,
    {
        program.push(put(base + table[i].0, table[i].1));
        i += 1;
        assert(program@ =~= start + table_program(base, table@).take(i as int));
    }
    assert(program@ =~= start + table_program(base, table@));
}

} // verus!
