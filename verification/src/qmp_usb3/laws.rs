//! What the combo PHY's registers are told, and in which order it comes up
//! and goes down.

use vstd::prelude::*;

use crate::mmio::RegOp;
use crate::phy::{table_program, PhyError, PhyOrientation};
use crate::qmp_usb3::{
    check_resource, common_clock_name, common_program, get_phy, give_back, orientation_value,
    start_program, stop_program, stop_steps, ActionView, Sc7180QmpUsb3, Stage, StopStep,
    USB3_PCS_TABLE, USB3_RX_TABLE, USB3_SERDES_TABLE, USB3_TX_TABLE,
};

verus! {

/// The port is always selected by software; a plug that is turned over swaps
/// the lanes.
pub proof fn a_turned_plug_swaps_the_lanes(orientation: PhyOrientation)
    ensures
        orientation_value(PhyOrientation::Normal) == 2,
        orientation_value(PhyOrientation::Reverse) == 3,
{
}

/// The block that both halves share is held in reset while the orientation
/// and the mode (USB3 and DisplayPort) are set.
pub proof fn the_shared_block_is_set_in_reset(orientation: PhyOrientation)
    ensures
        common_program(orientation) == seq![
            RegOp::Update { offset: 0x08, clear: 0, set: 1 },
            RegOp::Flush { offset: 0x08 },
            RegOp::Update { offset: 0x1c, clear: 0, set: 0xf },
            RegOp::Flush { offset: 0x1c },
            RegOp::Write {
                offset: 0x10,
                value: if orientation == PhyOrientation::Reverse {
                    3
                } else {
                    2
                },
            },
            RegOp::Write { offset: 0x00, value: 3 },
            RegOp::Update { offset: 0x1c, clear: 0xf, set: 0 },
            RegOp::Flush { offset: 0x1c },
            RegOp::Update { offset: 0x0c, clear: 3, set: 0 },
            RegOp::Flush { offset: 0x0c },
            RegOp::Update { offset: 0x04, clear: 1, set: 0 },
            RegOp::Flush { offset: 0x04 },
            RegOp::Update { offset: 0x1c04, clear: 0, set: 1 },
            RegOp::Flush { offset: 0x1c04 },
        ],
{
}

/// Both lanes get the same settings: the transmitters at 0x1200 and 0x1600,
/// the receivers at 0x1400 and 0x1800.
pub proof fn both_lanes_get_the_same_settings(index: int)
    ensures
        ({
            let program = start_program();
            &&& program.len() == 73
            &&& 0 <= index < 5 ==> program[index] == (RegOp::Write {
                offset: (0x1200 + USB3_TX_TABLE@[index].0) as usize,
                value: USB3_TX_TABLE@[index].1,
            })
            &&& 0 <= index < 5 ==> program[5 + index] == (RegOp::Write {
                offset: (0x1600 + USB3_TX_TABLE@[index].0) as usize,
                value: USB3_TX_TABLE@[index].1,
            })
            &&& 0 <= index < 9 ==> program[10 + index] == (RegOp::Write {
                offset: (0x1400 + USB3_RX_TABLE@[index].0) as usize,
                value: USB3_RX_TABLE@[index].1,
            })
            &&& 0 <= index < 9 ==> program[19 + index] == (RegOp::Write {
                offset: (0x1800 + USB3_RX_TABLE@[index].0) as usize,
                value: USB3_RX_TABLE@[index].1,
            })
            &&& 0 <= index < 39 ==> program[28 + index] == (RegOp::Write {
                offset: (0x1c00 + USB3_PCS_TABLE@[index].0) as usize,
                value: USB3_PCS_TABLE@[index].1,
            })
            &&& program[67] == (RegOp::Delay { us: 10 })
            &&& program[68] == (RegOp::Update { offset: 0x1c00, clear: 1, set: 0 })
            &&& program[69] == (RegOp::Flush { offset: 0x1c00 })
            &&& program[70] == (RegOp::Update { offset: 0x1c08, clear: 0, set: 3 })
            &&& program[71] == (RegOp::Flush { offset: 0x1c08 })
            &&& program[72] == RegOp::Barrier
        }),
{
    assert(USB3_TX_TABLE@.len() == 5 && USB3_RX_TABLE@.len() == 9 && USB3_PCS_TABLE@.len() == 39);
}

/// The PHY is put in reset, stopped and powered down.
pub proof fn the_phy_is_stopped_in_reset()
    ensures
        stop_program() == seq![
            RegOp::Update { offset: 0x1c00, clear: 0, set: 1 },
            RegOp::Flush { offset: 0x1c00 },
            RegOp::Update { offset: 0x1c08, clear: 3, set: 0 },
            RegOp::Flush { offset: 0x1c08 },
            RegOp::Update { offset: 0x1c04, clear: 1, set: 0 },
            RegOp::Flush { offset: 0x1c04 },
            RegOp::Barrier,
        ],
{
}

/// Going down, the pipe clock goes first, then the PHY, its reset, and its
/// clocks, the last one first.
pub proof fn the_phy_goes_down_in_order(index: int)
    ensures
        ({
            let steps = stop_steps();
            &&& steps.len() == 13
            &&& steps[0] == StopStep::DisablePipe
            &&& 0 <= index < 7 ==> steps[1 + index] == (StopStep::Register {
                op: stop_program()[index],
            })
            &&& steps[8] == StopStep::AssertReset
            &&& 0 <= index < 4 ==> steps[9 + index] == (StopStep::DisableClock {
                index: (3 - index) as usize,
            })
        }),
{
    the_phy_is_stopped_in_reset();
}

/// A failure gives back the clocks that are on, the last one first, and puts
/// the PHY back in reset where it was out of it.
pub proof fn clocks_are_given_back_in_reverse(clocks: usize, assert_reset: bool, index: int)
    requires
        0 <= index < clocks,
    ensures
        give_back(clocks, assert_reset)[index] == (StopStep::DisableClock {
            index: (clocks - 1 - index) as usize,
        }),
        assert_reset ==> give_back(clocks, assert_reset).len() == clocks + 1 && give_back(
            clocks,
            assert_reset,
        )[clocks as int] == StopStep::AssertReset,
        !assert_reset ==> give_back(clocks, assert_reset).len() == clocks,
{
}

/// The PHY comes up in order: it is reset, its four clocks are enabled, the
/// shared block and the PLL are set, the pipe clock is enabled, and it is
/// started.
pub proof fn the_phy_comes_up_in_order(phy: Sc7180QmpUsb3, value: u32, elapsed_us: u64)
    requires
        phy.wf(),
    ensures
        phy.stage == Stage::AssertReset ==> phy.step(true, value, elapsed_us) == (
            Sc7180QmpUsb3 { stage: Stage::DeassertReset, ..phy },
            ActionView::DeassertReset,
        ),
        phy.stage == Stage::DeassertReset ==> phy.step(true, value, elapsed_us) == (
            Sc7180QmpUsb3 { stage: Stage::EnableClock { index: 0 }, ..phy },
            ActionView::EnableClock { index: 0 },
        ),
        phy.stage matches Stage::EnableClock { index } ==> index < 3 ==> phy.step(
            true,
            value,
            elapsed_us,
        ) == (
            Sc7180QmpUsb3 { stage: Stage::EnableClock { index: (index + 1) as usize }, ..phy },
            ActionView::EnableClock { index: (index + 1) as usize },
        ),
        phy.stage == (Stage::EnableClock { index: 3 }) ==> phy.step(true, value, elapsed_us) == (
            Sc7180QmpUsb3 { stage: Stage::EnablePipe, ..phy },
            ActionView::EnablePipe {
                before: common_program(phy.orientation) + table_program(
                    0x1000,
                    USB3_SERDES_TABLE@,
                ),
            },
        ),
        phy.stage == Stage::EnablePipe ==> phy.step(true, value, elapsed_us) == (
            Sc7180QmpUsb3 { stage: Stage::Ready, ..phy },
            ActionView::ReadStatus { before: start_program() },
        ),
{
}

/// The PHY is up once bit 6 of its status is clear. It is asked every 200
/// microseconds, and taken down again after ten milliseconds.
pub proof fn the_status_decides(phy: Sc7180QmpUsb3, ok: bool, value: u32, elapsed_us: u64)
    requires
        phy.stage == Stage::Ready,
    ensures
        value as int / 64 % 2 == 0 ==> phy.step(ok, value, elapsed_us) == (
            Sc7180QmpUsb3 { powered: true, stage: Stage::Idle, ..phy },
            ActionView::Finished,
        ),
        value as int / 64 % 2 == 1 && elapsed_us < 10_000 ==> phy.step(ok, value, elapsed_us) == (
            phy,
            ActionView::ReadStatus { before: seq![RegOp::Delay { us: 200 }] },
        ),
        value as int / 64 % 2 == 1 && elapsed_us >= 10_000 ==> phy.step(ok, value, elapsed_us)
            == (
            Sc7180QmpUsb3 { stage: Stage::Idle, ..phy },
            ActionView::Rollback { steps: stop_steps(), error: PhyError::Timeout },
        ),
{
}

/// A step that fails gives back what the steps before it took.
pub proof fn failed_steps_give_back(phy: Sc7180QmpUsb3, value: u32, elapsed_us: u64)
    requires
        phy.wf(),
    ensures
        phy.stage == Stage::AssertReset || phy.stage == Stage::DeassertReset ==> phy.step(
            false,
            value,
            elapsed_us,
        ).1 == (ActionView::Abandon { steps: Seq::empty(), error: PhyError::ResetFailed }),
        phy.stage matches Stage::EnableClock { index } ==> phy.step(false, value, elapsed_us).1 == (
        ActionView::Abandon { steps: give_back(index, true), error: PhyError::PowerOnFailed }),
        phy.stage == Stage::EnablePipe ==> phy.step(false, value, elapsed_us).1 == (
        ActionView::Rollback { steps: stop_steps(), error: PhyError::PowerOnFailed }),
{
    assert(give_back(0, false) =~= Seq::<StopStep>::empty());
}

/// The clocks by name, the only PHY that is offered, and the size of its
/// window.
pub proof fn the_provider_offers_one_phy(
    phy: Sc7180QmpUsb3,
    spec_cells: &[u32],
    found: Result<(), PhyError>,
    start: usize,
    end: usize,
    checked: Result<(), &'static str>,
    aux: &'static str,
    ahb: &'static str,
    reference: &'static str,
    com_aux: &'static str,
)
    requires
        call_ensures(get_phy, (spec_cells,), found),
        call_ensures(check_resource, (Some((start, end)),), checked),
        call_ensures(common_clock_name, (0usize,), aux),
        call_ensures(common_clock_name, (1usize,), ahb),
        call_ensures(common_clock_name, (2usize,), reference),
        call_ensures(common_clock_name, (3usize,), com_aux),
    ensures
        found is Ok <==> spec_cells@.len() == 1 && spec_cells@[0] == 0,
        checked is Ok <==> 0x2fff <= end - start < usize::MAX,
        aux == "aux" && ahb == "cfg_ahb" && reference == "ref" && com_aux == "com_aux",
{
    if spec_cells@.len() == 1 && spec_cells@[0] == 0 {
        assert(spec_cells@ =~= seq![0u32]);
    }
}

/// A PHY that is powered cannot be reset.
pub proof fn a_powered_phy_is_not_reset(phy: Sc7180QmpUsb3, r: Result<(), PhyError>)
    requires
        call_ensures(Sc7180QmpUsb3::reset, (&phy,), r),
    ensures
        r is Ok <==> !phy.powered,
{
}

} // verus!
