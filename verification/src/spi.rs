//! SPI segments and transfer errors, as the bus and its clients exchange them.

use vstd::prelude::*;

verus! {

/// Why a transfer failed.
#[derive(Clone, Copy, Debug, Eq, PartialEq, Structural)]
pub enum SpiError {
    InvalidArg,
    BusError,
    Timeout,
}

/// Read single bytes until one matches, at most `max_bytes` of them.
#[derive(Clone, Copy, Debug, Eq, PartialEq, Structural)]
pub struct ReadUntil {
    pub mask: u8,
    pub value: u8,
    pub max_bytes: usize,
}

/// One segment of a transaction.
#[derive(Debug)]
pub struct SpiTransfer {
    pub cs: u8,
    pub read: bool,
    pub write: bool,
    pub data: Vec<u8>,
    pub speed_hz: u32,
    pub delay_before_us: u64,
    pub delay_after_us: u64,
    pub read_until: Option<ReadUntil>,
}

/// What a segment holds.
#[verifier::ext_equal]
pub struct SegmentView {
    pub cs: u8,
    pub read: bool,
    pub write: bool,
    pub data: Seq<u8>,
    pub speed_hz: u32,
    pub delay_before_us: u64,
    pub delay_after_us: u64,
    pub read_until: Option<ReadUntil>,
}

impl View for SpiTransfer {
    type V = SegmentView;

    open spec fn view(&self) -> SegmentView {
        SegmentView {
            cs: self.cs,
            read: self.read,
            write: self.write,
            data: self.data@,
            speed_hz: self.speed_hz,
            delay_before_us: self.delay_before_us,
            delay_after_us: self.delay_after_us,
            read_until: self.read_until,
        }
    }
}

/// A segment without delays, at the given speed.
pub open spec fn plain_segment(
    cs: u8,
    read: bool,
    write: bool,
    data: Seq<u8>,
    speed_hz: u32,
) -> SegmentView {
    SegmentView {
        cs,
        read,
        write,
        data,
        speed_hz,
        delay_before_us: 0,
        delay_after_us: 0,
        read_until: None,
    }
}

pub open spec fn zeros(length: nat) -> Seq<u8> {
    Seq::new(length, |i: int| 0u8)
}

impl SpiTransfer {
    /// A write of `data`.
    pub fn write(cs: u8, data: &[u8], speed_hz: u32) -> (r: SpiTransfer)
        ensures
            r@ == plain_segment(cs, false, true, data@, speed_hz),
    {
        SpiTransfer {
            cs,
            read: false,
            write: true,
            data: crate::bytes::copy_bytes(data),
            speed_hz,
            delay_before_us: 0,
            delay_after_us: 0,
            read_until: None,
        }
    }

    /// A read of `length` bytes; the buffer starts zeroed.
    pub fn read(cs: u8, length: usize, speed_hz: u32) -> (r: SpiTransfer)
        ensures
            r@ == plain_segment(cs, true, false, zeros(length as nat), speed_hz),
    {
        let data: Vec<u8> = vec![0u8; length];
        assert(data@ =~= zeros(length as nat));
        SpiTransfer {
            cs,
            read: true,
            write: false,
            data,
            speed_hz,
            delay_before_us: 0,
            delay_after_us: 0,
            read_until: None,
        }
    }

    /// A read of single bytes until one matches.
    pub fn read_until(cs: u8, condition: ReadUntil, speed_hz: u32) -> (r: SpiTransfer)
        ensures
            r@ == (SegmentView {
                read_until: Some(condition),
                ..plain_segment(cs, true, false, Seq::empty(), speed_hz)
            }),
    {
        SpiTransfer {
            cs,
            read: true,
            write: false,
            data: Vec::new(),
            speed_hz,
            delay_before_us: 0,
            delay_after_us: 0,
            read_until: Some(condition),
        }
    }
}

} // verus!
