//! What the GENI serial engines have in common: commands, and FIFO entries of
//! four bytes each.

use vstd::prelude::*;

verus! {

pub const PACKING_CONFIG_0: u32 = 0x0007_f8fe;

pub const PACKING_CONFIG_1: u32 = 0x000f_fefe;

pub const GENI_FORCE_DEFAULT: usize = 0x020;

pub const GENI_OUTPUT_CTRL: usize = 0x024;

pub const GENI_CGC_CTRL: usize = 0x028;

pub const GENI_SERIAL_MASTER_CLOCK: usize = 0x048;

pub const GENI_INTERFACE_DISABLE: usize = 0x064;

pub const GENI_FIRMWARE_REVISION: usize = 0x068;

pub const GENI_BYTE_GRANULARITY: usize = 0x254;

pub const GENI_DMA_MODE_ENABLE: usize = 0x258;

pub const GENI_TX_PACKING_0: usize = 0x260;

pub const GENI_TX_PACKING_1: usize = 0x264;

pub const GENI_RX_PACKING_0: usize = 0x284;

pub const GENI_RX_PACKING_1: usize = 0x288;

pub const GENI_MASTER_COMMAND: usize = 0x600;

pub const GENI_MASTER_COMMAND_CONTROL: usize = 0x604;

pub const GENI_MASTER_IRQ_STATUS: usize = 0x610;

pub const GENI_MASTER_IRQ_ENABLE: usize = 0x614;

pub const GENI_MASTER_IRQ_CLEAR: usize = 0x618;

pub const GENI_SECONDARY_IRQ_ENABLE: usize = 0x644;

pub const GENI_SECONDARY_IRQ_CLEAR: usize = 0x648;

pub const GENI_TX_FIFO: usize = 0x700;

pub const GENI_RX_FIFO: usize = 0x780;

pub const GENI_RX_FIFO_STATUS: usize = 0x804;

pub const GENI_TX_WATERMARK: usize = 0x80c;

pub const GENI_RX_WATERMARK: usize = 0x810;

pub const GENI_RX_RFR_WATERMARK: usize = 0x814;

pub const GENI_GSI_EVENT_ENABLE: usize = 0xe18;

pub const GENI_TOP_IRQ_ENABLE: usize = 0xe1c;

pub const GENI_HW_PARAM_0: usize = 0xe24;

pub const DEFAULT_CLOCK_GATING: u32 = 0x7f;

pub const DEFAULT_OUTPUT_ENABLE: u32 = 0x7f;

/// The master and secondary interrupts, in the top-level enable register.
pub const TOP_IRQ_ENABLES: u32 = 0xc;

pub const SECONDARY_COMMON_IRQS: u32 = 0x0300_3e3e;

/// A command: its opcode above 27 bits of parameters.
pub open spec fn command(opcode: u32, parameters: u32) -> u32 {
    (opcode % 32 * 0x800_0000 + parameters % 0x800_0000) as u32
}

pub fn command_word(opcode: u32, parameters: u32) -> (r: u32)
    ensures
        r == command(opcode, parameters),
{
    opcode % 32 * 0x800_0000 + parameters % 0x800_0000
}

/// Byte `index` of a list, zero past its end.
pub open spec fn byte_or_zero(bytes: Seq<u8>, index: int) -> int {
    if 0 <= index < bytes.len() {
        bytes[index] as int
    } else {
        0
    }
}

/// The FIFO entry of up to four bytes from `at` on, the first one lowest.
pub open spec fn packed(bytes: Seq<u8>, at: int) -> u32 {
    (byte_or_zero(bytes, at) + 0x100 * byte_or_zero(bytes, at + 1) + 0x1_0000 * byte_or_zero(
        bytes,
        at + 2,
    ) + 0x100_0000 * byte_or_zero(bytes, at + 3)) as u32
}

/// The first `count` entries of the bytes from `at` on.
pub open spec fn packed_words(bytes: Seq<u8>, at: int, count: int) -> Seq<u32> {
    Seq::new(count as nat, |i: int| packed(bytes, at + 4 * i))
}

/// Byte `index` of a list of FIFO entries.
pub open spec fn unpacked(words: Seq<u32>, index: int) -> u8 {
    let word = words[index / 4] as int;
    if index % 4 == 0 {
        (word % 0x100) as u8
    } else if index % 4 == 1 {
        (word / 0x100 % 0x100) as u8
    } else if index % 4 == 2 {
        (word / 0x1_0000 % 0x100) as u8
    } else {
        (word / 0x100_0000) as u8
    }
}

fn get_or_zero(bytes: &[u8], at: usize, index: usize) -> (r: u32)
    requires
        at <= bytes@.len(),
        index < 4,
    ensures
        r == byte_or_zero(bytes@, at + index),
        r <= 0xff,
{
    if index < bytes.len() - at {
        bytes[at + index] as u32
    } else {
        0
    }
}

pub fn pack_word(bytes: &[u8], at: usize) -> (r: u32)
    requires
        at <= bytes@.len(),
    ensures
        r == packed(bytes@, at as int),
{
    get_or_zero(bytes, at, 0) + get_or_zero(bytes, at, 1) * 0x100 + get_or_zero(bytes, at, 2)
        * 0x1_0000 + get_or_zero(bytes, at, 3) * 0x100_0000
}

pub fn unpack_byte(words: &[u32], index: usize) -> (r: u8)
    requires
        index < words@.len() * 4,
    ensures
        r == unpacked(words@, index as int),
{
    let word: u32 = words[index / 4];
    match index % 4 {
        0 => (word % 0x100) as u8,
        1 => (word / 0x100 % 0x100) as u8,
        2 => (word / 0x1_0000 % 0x100) as u8,
        _ => (word / 0x100_0000) as u8,
    }
}

/// The number of entries that the receive FIFO holds.
pub fn received_words(fifo_status: u32) -> (r: u32)
    ensures
        r == fifo_status % 0x200_0000,
{
    fifo_status % 0x200_0000
}

pub open spec fn smaller(a: int, b: int) -> int {
    if a <= b {
        a
    } else {
        b
    }
}

/// Bytes come out of FIFO entries as they went in.
pub proof fn packed_bytes_are_unpacked(bytes: Seq<u8>, at: int, count: int, index: int)
    requires
        0 <= at,
        0 <= index < 4 * count,
        at + index < bytes.len(),
    ensures
        unpacked(packed_words(bytes, at, count), index) == bytes[at + index],
{
    let word = index / 4;
    let start = at + 4 * word;
    assert(packed_words(bytes, at, count)[word] == packed(bytes, start));
    let b0 = byte_or_zero(bytes, start);
    let b1 = byte_or_zero(bytes, start + 1);
    let b2 = byte_or_zero(bytes, start + 2);
    let b3 = byte_or_zero(bytes, start + 3);
    let sum = b0 + 0x100 * b1 + 0x1_0000 * b2 + 0x100_0000 * b3;
    assert(sum % 0x100 == b0);
    assert(sum / 0x100 == b1 + 0x100 * b2 + 0x1_0000 * b3);
    assert(sum / 0x1_0000 == b2 + 0x100 * b3);
    assert(sum / 0x100_0000 == b3);
}

} // verus!
