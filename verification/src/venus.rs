//! SC7180 Venus stateful video decoder.
//!
//! [`firmware`] loads the firmware, [`registers`] starts it, and [`hfi`]
//! carries packets to and from it; [`hfi_abi`] makes and reads the packets.
//! [`setup`], [`session`] and [`reconfigure`] are the life of one session,
//! [`nv12`] its frames, and [`backend`] all sessions together.

use vstd::prelude::*;

use crate::platform::{resource_size, span};

use crate::bytes::same_text;

pub mod backend;
pub mod firmware;
pub mod hfi;
pub mod hfi_abi;
pub mod laws;
pub mod memory;
pub mod messages;
pub mod nv12;
pub mod packet_laws;
pub mod reconfigure;
pub mod registers;
pub mod session;
pub mod session_laws;
pub mod setup;

verus! {

pub const MAIN_IOVA_BASE: u64 = 0x1000_0000;

pub const MAIN_IOVA_SIZE: u64 = 0xc000_0000;

pub const FIRMWARE_IOVA_SIZE: u64 = 0x1_0000_0000;

pub const VIDEO_CLOCK_NAMES: [&'static str; 5] = [
    "core",
    "iface",
    "bus",
    "vcodec0_core",
    "vcodec0_bus",
];

/// Why probing stops.
#[derive(Clone, Copy, Debug)]
pub enum ProbeStop {
    /// Something that it needs is not there yet.
    Defer,
    Failed(&'static str),
}

/// What a failure to look a clock up means.
pub fn clock_lookup_failed(error: &'static str) -> (r: ProbeStop)
    ensures
        r == (if error@ == "clk: provider not found"@ || error@ == "clk: clock not found"@ {
            ProbeStop::Defer
        } else {
            ProbeStop::Failed(error)
        }),
{
    if same_text(error, "clk: provider not found") || same_text(error, "clk: clock not found") {
        ProbeStop::Defer
    } else {
        ProbeStop::Failed(error)
    }
}

/// What a failure to enable a clock means.
pub fn clock_enable_failed(clock_missing: bool) -> (r: ProbeStop)
    ensures
        r == (if clock_missing {
            ProbeStop::Defer
        } else {
            ProbeStop::Failed("qcom-venus-sc7180: failed to enable a video clock")
        }),
{
    if clock_missing {
        ProbeStop::Defer
    } else {
        ProbeStop::Failed("qcom-venus-sc7180: failed to enable a video clock")
    }
}

/// The order in which enabled clocks are disabled: the last one first.
pub fn clock_release_order(enabled: usize) -> (r: Vec<usize>)
    ensures
        r@ == Seq::new(enabled as nat, |i: int| (enabled - 1 - i) as usize),
{
    let mut order: Vec<usize> = Vec::new();
    let mut left: usize = enabled;
    while left > 0
        invariant
            left <= enabled,
            order@ == Seq::new((enabled - left) as nat, |i: int| (enabled - 1 - i) as usize),
        decreases left,
    {
        left -= 1;
        order.push(left);
        assert(order@ =~= Seq::new((enabled - left) as nat, |i: int| (enabled - 1 - i) as usize));
    }
    order
}

/// The size of the firmware's reserved memory: whole pages that do not start
/// at zero.
pub fn check_firmware_region(start: usize, end: usize) -> (r: Result<usize, &'static str>)
    ensures
        r == (match span(start, end) {
            None => Err::<usize, &'static str>(
                "qcom-venus-sc7180: firmware reserved-memory range overflows",
            ),
            Some(size) => if start == 0 || start % 4096 != 0 || size % 4096 != 0 {
                Err("qcom-venus-sc7180: invalid firmware reserved-memory range")
            } else {
                Ok(size as usize)
            },
        }),
{
    match resource_size(start, end) {
        None => Err("qcom-venus-sc7180: firmware reserved-memory range overflows"),
        Some(size) => {
            if start == 0 || start % 4096 != 0 || size % 4096 != 0 {
                return Err("qcom-venus-sc7180: invalid firmware reserved-memory range");
            }
            Ok(size)
        },
    }
}

/// Checks the register window.
pub fn check_registers(resource: Option<(usize, usize)>) -> (r: Result<usize, &'static str>)
    ensures
        r == (match resource {
            None => Err::<usize, &'static str>("qcom-venus-sc7180: missing MMIO resource"),
            Some((start, end)) => match span(start, end) {
                None => Err("qcom-venus-sc7180: invalid MMIO resource"),
                Some(size) => if size < registers::VENUS_REGISTER_SIZE {
                    Err("qcom-venus-sc7180: MMIO resource is too small")
                } else {
                    Ok(start)
                },
            },
        }),
{
    match resource {
        None => Err("qcom-venus-sc7180: missing MMIO resource"),
        Some((start, end)) => match resource_size(start, end) {
            None => Err("qcom-venus-sc7180: invalid MMIO resource"),
            Some(size) => {
                if size < registers::VENUS_REGISTER_SIZE {
                    return Err("qcom-venus-sc7180: MMIO resource is too small");
                }
                Ok(start)
            },
        },
    }
}

/// Keeps the driver linked into builds that load it by name.
pub fn force_link() {
}

} // verus!
