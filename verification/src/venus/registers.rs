//! Register programs of the SC7180 Venus AR50 core.

use vstd::prelude::*;

use crate::mmio::{stays_within, RegOp};

verus! {

pub const VENUS_REGISTER_SIZE: usize = 0x0f_f000;

pub const CPU_IC_SOFTINT: usize = 0xdf018;

pub const CPU_CS_A2HSOFTINTCLR: usize = 0xd201c;

pub const VIDC_CTRL_INIT: usize = 0xd2048;

pub const CPU_CS_SCIACMDARG0: usize = 0xd204c;

pub const CPU_CS_SCIACMDARG1: usize = 0xd2050;

pub const CPU_CS_SCIACMDARG2: usize = 0xd2054;

pub const SFR_ADDR: usize = 0xd205c;

pub const UC_REGION_ADDR: usize = 0xd2064;

pub const UC_REGION_SIZE: usize = 0xd2068;

pub const CPU_IC_SOFTINT_H2A: u32 = 0x8000;

pub const WRAPPER_HW_VERSION: usize = 0xe0000;

pub const WRAPPER_INTR_STATUS: usize = 0xe000c;

pub const WRAPPER_INTR_MASK: usize = 0xe0010;

pub const WRAPPER_INTR_CLEAR: usize = 0xe0014;

pub const WRAPPER_INTR_MASK_A2HVCODEC: u32 = 0x8;

pub const WRAPPER_INTR_MASK_ALL: u32 = 0x1c;

pub const WRAPPER_CPU_CLOCK_CONFIG: usize = 0xe2000;

pub const WRAPPER_CPU_CGC_DIS: usize = 0xe2010;

pub const WRAPPER_CPA_START_ADDR: usize = 0xe1020;

pub const WRAPPER_CPA_END_ADDR: usize = 0xe1024;

pub const WRAPPER_FW_START_ADDR: usize = 0xe1028;

pub const WRAPPER_FW_END_ADDR: usize = 0xe102c;

pub const WRAPPER_NONPIX_START_ADDR: usize = 0xe1030;

pub const WRAPPER_NONPIX_END_ADDR: usize = 0xe1034;

pub const WRAPPER_A9SS_SW_RESET: usize = 0xe3000;

pub const WRAPPER_A9SS_SW_RESET_BIT: u32 = 0x10;

pub const BOOT_TIMEOUT_US: u64 = 100_000;

pub const BOOT_POLL_US: u64 = 50;

pub open spec fn write(offset: usize, value: u32) -> RegOp {
    RegOp::Write { offset, value }
}

/// Holds the firmware processor in reset.
pub fn assert_arm9_reset() -> (r: [RegOp; 2])
    ensures
        r@ == seq![
            RegOp::Update {
                offset: WRAPPER_A9SS_SW_RESET,
                clear: 0,
                set: WRAPPER_A9SS_SW_RESET_BIT,
            },
            RegOp::Barrier,
        ],
        stays_within(r@, VENUS_REGISTER_SIZE as int),
{
    let r = [
        RegOp::Update { offset: WRAPPER_A9SS_SW_RESET, clear: 0, set: WRAPPER_A9SS_SW_RESET_BIT },
        RegOp::Barrier,
    ];
    assert(r@ =~= seq![r[0], r[1]]);
    r
}

/// The program that starts the firmware in a region of the given size.
pub open spec fn release_program(firmware_size: u32) -> Seq<RegOp> {
    seq![
        write(WRAPPER_FW_START_ADDR, 0),
        write(WRAPPER_FW_END_ADDR, firmware_size),
        write(WRAPPER_CPA_START_ADDR, 0),
        write(WRAPPER_CPA_END_ADDR, firmware_size),
        write(WRAPPER_NONPIX_START_ADDR, firmware_size),
        write(WRAPPER_NONPIX_END_ADDR, firmware_size),
        write(WRAPPER_CPU_CGC_DIS, 0),
        write(WRAPPER_CPU_CLOCK_CONFIG, 0),
        write(WRAPPER_A9SS_SW_RESET, 0),
        RegOp::Barrier,
    ]
}

/// Opens the firmware region to the processor and releases it from reset.
pub fn release_arm9(firmware_size: usize) -> (r: Result<[RegOp; 10], &'static str>)
    ensures
        match r {
            Ok(program) => {
                &&& firmware_size <= u32::MAX
                &&& program@ == release_program(firmware_size as u32)
                &&& stays_within(program@, VENUS_REGISTER_SIZE as int)
            },
            Err(e) => {
                &&& firmware_size > u32::MAX
                &&& e == "qcom-venus-sc7180: firmware region exceeds 32-bit wrapper range"
            },
        },
{
    if firmware_size > u32::MAX as usize {
        return Err("qcom-venus-sc7180: firmware region exceeds 32-bit wrapper range");
    }
    let size: u32 = firmware_size as u32;
    let program = [
        RegOp::Write { offset: WRAPPER_FW_START_ADDR, value: 0 },
        RegOp::Write { offset: WRAPPER_FW_END_ADDR, value: size },
        RegOp::Write { offset: WRAPPER_CPA_START_ADDR, value: 0 },
        RegOp::Write { offset: WRAPPER_CPA_END_ADDR, value: size },
        RegOp::Write { offset: WRAPPER_NONPIX_START_ADDR, value: size },
        RegOp::Write { offset: WRAPPER_NONPIX_END_ADDR, value: size },
        RegOp::Write { offset: WRAPPER_CPU_CGC_DIS, value: 0 },
        RegOp::Write { offset: WRAPPER_CPU_CLOCK_CONFIG, value: 0 },
        RegOp::Write { offset: WRAPPER_A9SS_SW_RESET, value: 0 },
        RegOp::Barrier,
    ];
    assert(program@ =~= release_program(size));
    Ok(program)
}

/// The program that hands the queues to the firmware and asks it to start.
/// The codec's own interrupt stays masked.
pub open spec fn hfi_program(queue_dma: u32, region_size: u32, sfr_dma: u32) -> Seq<RegOp> {
    seq![
        write(UC_REGION_ADDR, queue_dma),
        write(UC_REGION_SIZE, region_size),
        write(CPU_CS_SCIACMDARG2, queue_dma),
        write(CPU_CS_SCIACMDARG1, 1),
    ] + (if sfr_dma != 0 {
        seq![write(SFR_ADDR, sfr_dma)]
    } else {
        Seq::empty()
    }) + seq![
        write(WRAPPER_INTR_MASK, WRAPPER_INTR_MASK_A2HVCODEC),
        write(VIDC_CTRL_INIT, 1),
        RegOp::Barrier,
    ]
}

pub fn initialize_hfi(queue_dma: u32, shared_region_size: u32, sfr_dma: u32) -> (r: Vec<RegOp>)
    ensures
        r@ == hfi_program(queue_dma, shared_region_size, sfr_dma),
        stays_within(r@, VENUS_REGISTER_SIZE as int),
{
    let mut program: Vec<RegOp> = Vec::new();
    program.push(RegOp::Write { offset: UC_REGION_ADDR, value: queue_dma });
    program.push(RegOp::Write { offset: UC_REGION_SIZE, value: shared_region_size });
    program.push(RegOp::Write { offset: CPU_CS_SCIACMDARG2, value: queue_dma });
    program.push(RegOp::Write { offset: CPU_CS_SCIACMDARG1, value: 1 });
    if sfr_dma != 0 {
        program.push(RegOp::Write { offset: SFR_ADDR, value: sfr_dma });
    }
    program.push(RegOp::Write { offset: WRAPPER_INTR_MASK, value: WRAPPER_INTR_MASK_A2HVCODEC });
    program.push(RegOp::Write { offset: VIDC_CTRL_INIT, value: 1 });
    program.push(RegOp::Barrier);
    assert(program@ =~= hfi_program(queue_dma, shared_region_size, sfr_dma));
    program
}

/// What a control status means while the firmware starts.
#[derive(Clone, Copy, Debug)]
pub enum BootPoll {
    Ready(u32),
    Failed(&'static str),
    /// Read the status again after this many microseconds.
    Wait(u64),
}

/// Decides on a control status read `start` to `now` after the start. The
/// lowest bit reports readiness; an error code of 4 refuses the region.
pub fn poll_boot(status: u32, start: u64, now: u64) -> (r: BootPoll)
    ensures
        r == (if status % 2 == 1 {
            BootPoll::Ready(status)
        } else if status as int / 2 % 0x80 == 2 {
            BootPoll::Failed("qcom-venus-sc7180: firmware rejected UC region")
        } else if now - start >= BOOT_TIMEOUT_US {
            BootPoll::Failed("qcom-venus-sc7180: HFI core initialization timed out")
        } else {
            BootPoll::Wait(BOOT_POLL_US)
        }),
{
    if status % 2 == 1 {
        return BootPoll::Ready(status);
    }
    if status / 2 % 0x80 == 2 {
        return BootPoll::Failed("qcom-venus-sc7180: firmware rejected UC region");
    }
    if now.saturating_sub(start) >= BOOT_TIMEOUT_US {
        return BootPoll::Failed("qcom-venus-sc7180: HFI core initialization timed out");
    }
    BootPoll::Wait(BOOT_POLL_US)
}

/// Rings the firmware's doorbell.
pub fn raise_host_interrupt() -> (r: [RegOp; 2])
    ensures
        r@ == seq![write(CPU_IC_SOFTINT, CPU_IC_SOFTINT_H2A), RegOp::Barrier],
        stays_within(r@, VENUS_REGISTER_SIZE as int),
{
    let r = [
        RegOp::Write { offset: CPU_IC_SOFTINT, value: CPU_IC_SOFTINT_H2A },
        RegOp::Barrier,
    ];
    assert(r@ =~= seq![r[0], r[1]]);
    r
}

/// Clears the interrupts that a read of the status found. The firmware's soft
/// interrupt is cleared in any case.
pub fn acknowledge_interrupt(status: u32) -> (r: [RegOp; 3])
    ensures
        r@ == seq![
            write(CPU_CS_A2HSOFTINTCLR, 1),
            write(WRAPPER_INTR_CLEAR, status),
            RegOp::Barrier,
        ],
        stays_within(r@, VENUS_REGISTER_SIZE as int),
{
    let r = [
        RegOp::Write { offset: CPU_CS_A2HSOFTINTCLR, value: 1 },
        RegOp::Write { offset: WRAPPER_INTR_CLEAR, value: status },
        RegOp::Barrier,
    ];
    assert(r@ =~= seq![r[0], r[1], r[2]]);
    r
}

fn set_interrupt_mask(mask: u32) -> (r: [RegOp; 2])
    ensures
        r@ == seq![write(WRAPPER_INTR_MASK, mask), RegOp::Barrier],
{
    let r = [RegOp::Write { offset: WRAPPER_INTR_MASK, value: mask }, RegOp::Barrier];
    assert(r@ =~= seq![r[0], r[1]]);
    r
}

pub fn mask_interrupts() -> (r: [RegOp; 2])
    ensures
        r@ == seq![write(WRAPPER_INTR_MASK, WRAPPER_INTR_MASK_ALL), RegOp::Barrier],
        stays_within(r@, VENUS_REGISTER_SIZE as int),
{
    set_interrupt_mask(WRAPPER_INTR_MASK_ALL)
}

pub fn unmask_interrupts() -> (r: [RegOp; 2])
    ensures
        r@ == seq![write(WRAPPER_INTR_MASK, WRAPPER_INTR_MASK_A2HVCODEC), RegOp::Barrier],
        stays_within(r@, VENUS_REGISTER_SIZE as int),
{
    set_interrupt_mask(WRAPPER_INTR_MASK_A2HVCODEC)
}

} // verus!
