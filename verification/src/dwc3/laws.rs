//! The order in which the wrapper and the core are brought up, and what their
//! registers are told.

use vstd::prelude::*;

use crate::bytes::{first_index, first_index_is_first};
use crate::dwc3::{
    base_of, core_interrupt, core_windows, has_phandle, is_core_interrupt, keeping, nonzero_handle,
    qscratch_size, Outcome, QcomDwc3Wrapper, Taken, WrapperAction, WrapperProbe, WrapperStage,
};
use crate::dwc3::init::{
    core_release_program, final_program, host_program, release_program, reset_program, Ask,
    CoreInit, Event, Phy, PowerOff, Quirks, Stage, Target,
};
use crate::mmio::RegOp;
use crate::phy::PhyError;

verus! {

// The wrapper.

/// A wrapper has a handle that is a word and not zero.
pub proof fn handles_are_not_zero(phandle: Option<usize>)
    ensures
        nonzero_handle(phandle) is Ok <==> phandle is Some && 0 < phandle->0 <= u32::MAX,
        nonzero_handle(phandle) matches Ok(handle) ==> phandle == Some(handle as usize),
{
}

/// The windows are large enough, and include both their ends.
pub proof fn windows_are_large_enough(start: usize, end: usize)
    ensures
        qscratch_size(Some((start, end))) is Ok <==> 0x3ff <= end - start < usize::MAX,
        qscratch_size(Some((start, end))) matches Ok(size) ==> start + size == end + 1,
        qscratch_size(None) is Err,
{
}

/// The wrapper comes up in order: its power domain, its reset, held for ten
/// microseconds, its five clocks by name, and its window.
pub proof fn the_wrapper_comes_up_in_order(probe: WrapperProbe)
    requires
        probe.wf(),
        nonzero_handle(probe.phandle) is Ok,
        qscratch_size(probe.resource) is Ok,
    ensures
        ({
            let (next, action) = probe.success();
            &&& probe.stage == WrapperStage::PowerDomain ==> next.stage
                == WrapperStage::ResolveReset && action is ResolveReset
            &&& probe.stage == WrapperStage::ResolveReset ==> next.stage
                == WrapperStage::AssertReset && action is AssertReset
            &&& probe.stage == WrapperStage::AssertReset ==> next.stage
                == WrapperStage::DeassertReset && action == (WrapperAction::DeassertReset {
                delay_us: 10,
            })
            &&& probe.stage == WrapperStage::DeassertReset ==> next.stage == (
            WrapperStage::ResolveClock { index: 0 }) && action == (WrapperAction::ResolveClock {
                name: "cfg_noc",
            })
            &&& probe.stage matches WrapperStage::ResolveClock { index } ==> next.stage == (
            WrapperStage::EnableClock { index }) && action == (WrapperAction::EnableClock { index })
            &&& probe.stage == (WrapperStage::EnableClock { index: 0 }) ==> next.stage == (
            WrapperStage::ResolveClock { index: 1 }) && action == (WrapperAction::ResolveClock {
                name: "core",
            })
            &&& probe.stage == (WrapperStage::EnableClock { index: 1 }) ==> next.stage == (
            WrapperStage::ResolveClock { index: 2 }) && action == (WrapperAction::ResolveClock {
                name: "iface",
            })
            &&& probe.stage == (WrapperStage::EnableClock { index: 2 }) ==> next.stage == (
            WrapperStage::ResolveClock { index: 3 }) && action == (WrapperAction::ResolveClock {
                name: "sleep",
            })
            &&& probe.stage == (WrapperStage::EnableClock { index: 3 }) ==> next.stage == (
            WrapperStage::ResolveClock { index: 4 }) && action == (WrapperAction::ResolveClock {
                name: "mock_utmi",
            })
            &&& probe.stage == (WrapperStage::EnableClock { index: 4 }) ==> next.stage
                == WrapperStage::MapQscratch && action == (WrapperAction::MapQscratch {
                size: qscratch_size(probe.resource)->Ok_0,
            })
            &&& probe.stage == WrapperStage::MapQscratch ==> next.stage == WrapperStage::Over
                && action == (WrapperAction::Finished {
                phandle: probe.phandle->0 as u32,
            })
        }),
{
}

/// A clock that is not there yet defers the probe, and what was taken is
/// given back: the clocks before it, and the reset.
pub proof fn a_missing_clock_defers(probe: WrapperProbe, index: usize)
    requires
        probe.stage == (WrapperStage::ResolveClock { index }),
    ensures
        probe.failure(Outcome::Deferred).1 == (WrapperAction::Defer {
            taken: Taken { clocks: index, out_of_reset: true },
        }),
        ({
            let action = probe.failure(Outcome::Failed).1;
            &&& action is Abandon && action->error is Some
            &&& action->Abandon_taken == (Taken { clocks: index, out_of_reset: true })
        }),
{
}

/// A wrapper is found by its handle, the first one if there are several.
pub proof fn wrappers_are_found_by_handle(
    wrappers: Seq<QcomDwc3Wrapper>,
    phandle: u32,
    index: int,
)
    requires
        0 <= index < wrappers.len(),
        wrappers[index].phandle == phandle,
        forall|i: int| 0 <= i < index ==> (#[trigger] wrappers[i]).phandle != phandle,
    ensures
        base_of(wrappers, phandle) == Ok::<usize, &'static str>(wrappers[index].qscratch_base),
{
    first_index_is_first(wrappers, has_phandle(phandle), 0);
    match first_index(wrappers, has_phandle(phandle), 0) {
        Some(found) => {
            assert(has_phandle(phandle)(wrappers[found]));
            if found > index {
                assert(!has_phandle(phandle)(wrappers[index]));
            }
        },
        None => {
            assert(!has_phandle(phandle)(wrappers[index]));
        },
    }
}

/// What the wrapper selected first is kept, and written back only once the
/// core is in reset again.
pub proof fn the_first_selection_is_written_back(
    wrapper: QcomDwc3Wrapper,
    current: u32,
    in_reset: Option<u32>,
    running: Option<u32>,
)
    requires
        call_ensures(QcomDwc3Wrapper::restore_value, (&wrapper, true), in_reset),
        call_ensures(QcomDwc3Wrapper::restore_value, (&wrapper, false), running),
    ensures
        wrapper.original_general_cfg is None ==> keeping(wrapper, current).original_general_cfg
            == Some(current),
        wrapper.original_general_cfg is Some ==> keeping(wrapper, current) == wrapper,
        keeping(wrapper, current).phandle == wrapper.phandle,
        keeping(wrapper, current).qscratch_base == wrapper.qscratch_base,
        in_reset == wrapper.original_general_cfg,
        running is None,
{
}

// The core.

/// A core is taken if and only if its wrapper is known, it is a child of that
/// wrapper, it may be a host, and its window has 0xe000 bytes.
pub proof fn cores_are_taken_as_hosts(
    wrapper: u32,
    parent: Option<u32>,
    wrappers: Seq<QcomDwc3Wrapper>,
    mode: Option<Seq<char>>,
    start: usize,
    end: usize,
)
    ensures
        ({
            let windows = core_windows(wrapper, parent, wrappers, mode, Some((start, end)));
            &&& windows is Ok <==> {
                &&& wrapper != 0
                &&& parent == Some(wrapper)
                &&& base_of(wrappers, wrapper) is Ok
                &&& mode is None || mode == Some("host"@)
                &&& 0xdfff <= end - start < usize::MAX
            }
            &&& windows matches Ok((base, size)) ==> base_of(wrappers, wrapper) == Ok::<
                usize,
                &'static str,
            >(base) && start + size == end + 1
            &&& wrapper == 0 ==> windows is Err && windows->Err_0 is Deferred
        }),
{
}

/// The core's interrupt is the first with number 133.
pub proof fn the_interrupt_is_found(
    numbers: Vec<usize>,
    r: Result<usize, &'static str>,
    index: int,
)
    requires
        call_ensures(core_interrupt, (&numbers,), r),
        numbers@.len() <= usize::MAX,
        0 <= index < numbers@.len(),
    ensures
        r matches Ok(at) ==> at < numbers@.len() && numbers@[at as int] == 133,
        r matches Ok(at) ==> index < at ==> numbers@[index] != 133,
        r is Err ==> numbers@[index] != 133,
{
    first_index_is_first(numbers@, is_core_interrupt(), 0);
    match first_index(numbers@, is_core_interrupt(), 0) {
        Some(found) => {
            assert(is_core_interrupt()(numbers@[found]));
            if index < found {
                assert(!is_core_interrupt()(numbers@[index]));
            }
        },
        None => {
            assert(!is_core_interrupt()(numbers@[index]));
        },
    }
}

/// Both PHY interfaces are put in reset, and the quirks of the high-speed one
/// are set; later both leave reset and suspend.
pub proof fn interfaces_are_held_in_reset(quirks: Quirks)
    ensures
        reset_program(quirks) == seq![
            (Target::Core, RegOp::Update { offset: 0xc200, clear: 0, set: 0x8000_0000 }),
            (Target::Core, RegOp::Update { offset: 0xc2c0, clear: 0, set: 0x8000_0000 }),
            (Target::Core, RegOp::Delay { us: 100 }),
            (
                Target::Core,
                RegOp::Update {
                    offset: 0xc200,
                    clear: if quirks.dis_u2_susphy && quirks.dis_enblslpm {
                        0x140
                    } else if quirks.dis_u2_susphy {
                        0x40
                    } else if quirks.dis_enblslpm {
                        0x100
                    } else {
                        0
                    },
                    set: 0,
                },
            ),
        ],
        release_program() == seq![
            (Target::Core, RegOp::Update { offset: 0xc200, clear: 0x8000_0040, set: 0 }),
            (Target::Core, RegOp::Update { offset: 0xc2c0, clear: 0x8002_0000, set: 0 }),
        ],
        core_release_program() == seq![
            (Target::Core, RegOp::Delay { us: 100 }),
            (Target::Core, RegOp::Update { offset: 0xc110, clear: 0x800, set: 0 }),
        ],
        host_program() == seq![
            (Target::Core, RegOp::Update { offset: 0xc110, clear: 0x3030, set: 0x1000 }),
        ],
{
}

/// The event buffer of the device role is switched off, and the park mode
/// where the device tree asks for it.
pub proof fn the_device_role_is_switched_off(quirks: Quirks)
    ensures
        ({
            let program = final_program(quirks);
            let skipped: int = if quirks.parkmode_disable_ss {
                1
            } else {
                0
            };
            &&& program.len() == skipped + 4
            &&& quirks.parkmode_disable_ss ==> program[0] == (
                Target::Core,
                RegOp::Update { offset: 0xc11c, clear: 0, set: 0x2_0000 },
            )
            &&& program[skipped] == (Target::Core, RegOp::Write { offset: 0xc400, value: 0 })
            &&& program[skipped + 1] == (Target::Core, RegOp::Write { offset: 0xc404, value: 0 })
            &&& program[skipped + 2] == (
                Target::Core,
                RegOp::Write { offset: 0xc408, value: 0x8000_0000 },
            )
            &&& program[skipped + 3] == (Target::Core, RegOp::Write { offset: 0xc40c, value: 0 })
        }),
{
}

/// The core comes up in order: a soft reset, the high-speed PHY, the
/// SuperSpeed PHY, the interfaces out of reset, and the host role.
pub proof fn the_core_comes_up_in_order(init: CoreInit, value: u32)
    requires
        !init.high_speed_only,
    ensures
        ({
            let (next, program, ask) = init.success(value);
            &&& init.stage == Stage::SoftReset ==> next.stage == Stage::PowerUsb2 && program
                == reset_program(init.quirks) && ask == (Ask::PowerOn { phy: Phy::Usb2 })
            &&& init.stage == Stage::PowerUsb2 ==> next.stage == Stage::PowerUsb3 && program.len()
                == 0 && ask == (Ask::PowerOn { phy: Phy::Usb3 })
            &&& init.stage == Stage::PowerUsb3 ==> next.stage == Stage::WaitReset && program
                == release_program() + core_release_program() && ask is WaitForReset
            &&& init.stage == Stage::WaitReset ==> next.stage == Stage::HostMode && program
                == host_program() && ask == (Ask::Read { target: Target::Core, offset: 0xc110 })
            &&& init.stage == Stage::HostMode && value as int / 0x1000 % 4 == 1 ==> next.stage
                == Stage::Over && program == final_program(init.quirks) && ask is Finished
            &&& init.stage == Stage::HostMode && value as int / 0x1000 % 4 != 1 ==> ask is Fail
                && ask->off == (PowerOff { usb3: true, usb2: true }) && ask->error is Some
        }),
{
}

/// A SuperSpeed PHY that does not come up in time is given up: the core then
/// runs at high speed, and its pipe is fed from the high-speed clock.
pub proof fn without_superspeed_the_pipe_is_switched(init: CoreInit, value: u32)
    ensures
        ({
            let (next, program, ask) = init.step(
                Event::PhyFailed { error: PhyError::Timeout },
            );
            init.stage == Stage::PowerUsb3 ==> next == (CoreInit {
                high_speed_only: true,
                stage: Stage::ReleaseUsb3,
                ..init
            }) && program.len() == 0 && ask == (Ask::PowerOff { phy: Phy::Usb3 })
        }),
        ({
            let (next, program, ask) = init.success(value);
            let gated = value as int / 0x100 % 2 == 1;
            let selected = value as int % 2 == 1 && value as int / 8 % 2 == 1;
            &&& init.stage == Stage::ReleaseUsb3 ==> next.stage == Stage::Preserve && ask
                is Preserve
            &&& init.stage == Stage::Preserve ==> next.stage == Stage::PipeGated && program
                == seq![(
                Target::Qscratch,
                RegOp::Update { offset: 8, clear: 0, set: 0x100 },
            )] && ask == (Ask::Read { target: Target::Qscratch, offset: 8 })
            &&& init.stage == Stage::PipeGated && gated ==> next.stage == Stage::PipeSelected
                && program == seq![
                (Target::Core, RegOp::Delay { us: 100 }),
                (Target::Qscratch, RegOp::Update { offset: 8, clear: 0, set: 9 }),
            ]
            &&& init.stage == Stage::PipeGated && !gated ==> ask is Fail
            &&& init.stage == Stage::PipeSelected && selected ==> next.stage == Stage::PipeEnabled
                && program == seq![
                (Target::Core, RegOp::Delay { us: 100 }),
                (Target::Qscratch, RegOp::Update { offset: 8, clear: 0x100, set: 0 }),
            ]
            &&& init.stage == Stage::PipeSelected && !selected ==> ask is Fail
            &&& init.stage == Stage::PipeEnabled && !gated && selected && init.high_speed_only
                ==> next.stage == Stage::VerifyUsb2 && program == release_program() && ask == (
            Ask::Read { target: Target::Core, offset: 0xc200 })
            &&& init.stage == Stage::PipeEnabled && (gated || !selected) ==> ask is Fail
        }),
{
}

/// At high speed the interfaces are verified to be out of reset and suspend,
/// the core is told to run from the high-speed clock, and the pipe is
/// suspended in the end.
pub proof fn at_high_speed_every_write_is_verified(init: CoreInit, value: u32)
    requires
        init.high_speed_only,
    ensures
        ({
            let (next, program, ask) = init.success(value);
            &&& init.stage == Stage::VerifyUsb2 ==> next.stage == (Stage::VerifyPipe {
                usb2: value,
            }) && ask == (Ask::Read { target: Target::Core, offset: 0xc2c0 })
            &&& init.stage matches Stage::VerifyPipe { usb2 } ==> {
                let clear = usb2 < 0x8000_0000 && usb2 as int / 0x40 % 2 == 0 && value
                    < 0x8000_0000 && value as int / 0x2_0000 % 2 == 0;
                &&& clear ==> next.stage == Stage::WaitReset && program == core_release_program()
                    && ask is WaitForReset
                &&& !clear ==> ask is Fail
            }
            &&& init.stage == Stage::WaitReset ==> next.stage == Stage::ClockSelected && program
                == seq![(
                Target::Core,
                RegOp::Update { offset: 0xc11c, clear: 0, set: 0x400_0000 },
            )] && ask == (Ask::Read { target: Target::Core, offset: 0xc11c })
            &&& init.stage == Stage::ClockSelected ==> (next.stage == Stage::HostMode <==> value as int
                / 0x400_0000 % 2 == 1)
            &&& init.stage == Stage::HostMode && value as int / 0x1000 % 4 == 1 ==> next.stage
                == Stage::PipeSuspended && program == seq![(
                Target::Core,
                RegOp::Update { offset: 0xc2c0, clear: 0, set: 0x2_0000 },
            )] && ask == (Ask::Read { target: Target::Core, offset: 0xc2c0 })
            &&& init.stage == Stage::PipeSuspended ==> (ask is Finished <==> value as int
                / 0x2_0000 % 2 == 1)
        }),
{
}

} // verus!
