//! Register programs: what a driver does to a mapped register window, in
//! order.

use vstd::prelude::*;

verus! {

/// One access to a register window, or what stands between two of them.
#[derive(Clone, Copy, Debug, Eq, PartialEq, Structural)]
pub enum RegOp {
    Write { offset: usize, value: u32 },
    /// Read, clear some bits, set some bits, write back.
    Update { offset: usize, clear: u32, set: u32 },
    /// Read back, so that what was written has arrived.
    Flush { offset: usize },
    /// Order the accesses before against those after.
    Barrier,
    Delay { us: u64 },
}

/// A write of one register.
pub open spec fn written(offset: usize, value: u32) -> RegOp {
    RegOp::Write { offset, value }
}

pub fn put(offset: usize, value: u32) -> (r: RegOp)
    ensures
        r == written(offset, value),
{
    RegOp::Write { offset, value }
}

/// Whether a value has a bit set; `bit` is a power of two.
pub open spec fn has_bit(value: u32, bit: u32) -> bool {
    value as int / bit as int % 2 == 1
}

pub fn is_set(value: u32, bit: u32) -> (r: bool)
    requires
        bit > 0,
    ensures
        r == has_bit(value, bit),
{
    value / bit % 2 == 1
}

/// A value without a bit.
pub open spec fn without_bit(value: u32, bit: u32) -> u32 {
    if has_bit(value, bit) {
        (value - bit) as u32
    } else {
        value
    }
}

pub fn clear_bit(value: u32, bit: u32) -> (r: u32)
    requires
        bit > 0,
    ensures
        r == without_bit(value, bit),
{
    if value / bit % 2 == 1 {
        proof {
            assert(value >= bit) by (nonlinear_arith)
                requires
                    bit > 0,
                    value / bit % 2 == 1,
            ;
        }
        value - bit
    } else {
        value
    }
}

/// A value with a bit.
pub open spec fn with_bit(value: u32, bit: u32) -> u32 {
    if has_bit(value, bit) {
        value
    } else {
        (value + bit) as u32
    }
}

/// Sets a bit; `bit` is a power of two below the highest.
pub fn set_bit(value: u32, bit: u32) -> (r: u32)
    requires
        bit == 0x8000 || bit == 0x1_0000,
    ensures
        r == with_bit(value, bit),
        has_bit(r, bit),
{
    if is_set(value, bit) {
        value
    } else {
        value + bit
    }
}

/// The offset that an access reaches.
pub open spec fn reached(op: RegOp) -> Option<usize> {
    match op {
        RegOp::Write { offset, .. } => Some(offset),
        RegOp::Update { offset, .. } => Some(offset),
        RegOp::Flush { offset } => Some(offset),
        _ => None,
    }
}

/// Every access is an aligned word inside a window of `size` bytes.
pub open spec fn stays_within(program: Seq<RegOp>, size: int) -> bool {
    forall|i: int|
        0 <= i < program.len() ==> (reached(#[trigger] program[i]) matches Some(offset) ==> offset
            + 4 <= size && offset % 4 == 0)
}

/// Two programs that stay in a window stay there one after the other.
pub proof fn joined_programs_stay_within(first: Seq<RegOp>, second: Seq<RegOp>, size: int)
    requires
        stays_within(first, size),
        stays_within(second, size),
    ensures
        stays_within(first + second, size),
{
    let both = first + second;
    assert forall|i: int| 0 <= i < both.len() implies (reached(#[trigger] both[i]) matches Some(
        offset,
    ) ==> offset + 4 <= size && offset % 4 == 0) by {
        if i < first.len() {
            assert(both[i] == first[i]);
        } else {
            assert(both[i] == second[i - first.len()]);
        }
    }
}

} // verus!
