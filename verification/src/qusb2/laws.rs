//! What the PHY's registers are told, and in which order it comes up and
//! goes down.

use vstd::prelude::*;

use crate::mmio::RegOp;
use crate::phy::PhyError;
use crate::qusb2::{
    check_resource, enable_program, init_writes, override_program, setup_program, shutdown_program,
    trim_cell_handle, trim_program, tuning_fits_its_fields, tuning_of, tuning_program, tuning_value,
    ActionView, Phase, Sc7180Qusb2V2Phy, Stage, Tuning, TuningProperties, INIT_SEQUENCE,
};

verus! {

// Tuning.

/// A tuning value is taken as it is declared, if it is not above its limit.
pub proof fn tuning_values_are_limited(property: Option<Option<usize>>, max: u8)
    ensures
        property is None ==> tuning_value(property, max) == Ok::<Option<u8>, &'static str>(None),
        property matches Some(Some(value)) ==> (tuning_value(property, max) is Ok <==> value
            <= max),
        property == Some(None::<usize>) ==> tuning_value(property, max) is Err,
        tuning_value(property, max) matches Ok(Some(value)) ==> property == Some(
            Some(value as usize),
        ),
{
}

/// Each property tunes what it names.
pub proof fn properties_tune_what_they_name(properties: TuningProperties)
    requires
        tuning_of(properties) is Ok,
    ensures
        ({
            let tuning = tuning_of(properties)->Ok_0;
            &&& declared_as(properties.imp_res_offset, tuning.imp_res_offset, 63)
            &&& declared_as(properties.bias_ctrl, tuning.bias_ctrl, 63)
            &&& declared_as(properties.charge_ctrl, tuning.charge_ctrl, 3)
            &&& declared_as(properties.hstx_trim, tuning.hstx_trim, 15)
            &&& declared_as(properties.preemphasis, tuning.preemphasis, 3)
            &&& declared_as(properties.preemphasis_width, tuning.preemphasis_width, 1)
            &&& declared_as(properties.hsdisc_trim, tuning.hsdisc_trim, 3)
        }),
{
}

/// A value is as declared, and not above its limit.
pub open spec fn declared_as(
    property: Option<Option<usize>>,
    value: Option<u8>,
    limit: int,
) -> bool {
    match value {
        Some(value) => value <= limit && property == Some(Some(value as usize)),
        None => property is None,
    }
}

/// A set of properties within their limits is taken.
pub proof fn properties_within_their_limits_are_taken(properties: TuningProperties)
    requires
        properties.imp_res_offset matches Some(v) ==> v is Some && v->0 <= 63,
        properties.bias_ctrl matches Some(v) ==> v is Some && v->0 <= 63,
        properties.charge_ctrl matches Some(v) ==> v is Some && v->0 <= 3,
        properties.hstx_trim matches Some(v) ==> v is Some && v->0 <= 15,
        properties.preemphasis matches Some(v) ==> v is Some && v->0 <= 3,
        properties.preemphasis_width matches Some(v) ==> v is Some && v->0 <= 1,
        properties.hsdisc_trim matches Some(v) ==> v is Some && v->0 <= 3,
    ensures
        tuning_of(properties) is Ok,
{
}

/// What a full set of tuning values does to the registers: each value goes to
/// its own bits, the others of the register stay.
pub proof fn tuning_goes_to_its_bits(
    impedance: u8,
    bias: u8,
    charge: u8,
    trim: u8,
    preemphasis: u8,
    width: u8,
    disconnect: u8,
)
    requires
        impedance <= 63,
        bias <= 63,
        charge <= 3,
        trim <= 15,
        preemphasis <= 3,
        width <= 1,
        disconnect <= 3,
    ensures
        tuning_program(
            Tuning {
                imp_res_offset: Some(impedance),
                hstx_trim: Some(trim),
                preemphasis: Some(preemphasis),
                preemphasis_width: Some(width),
                bias_ctrl: Some(bias),
                charge_ctrl: Some(charge),
                hsdisc_trim: Some(disconnect),
            },
        ) == seq![
            RegOp::Update { offset: 0x220, clear: 0x3f, set: impedance as u32 },
            RegOp::Flush { offset: 0x220 },
            RegOp::Update { offset: 0x198, clear: 0x3f, set: bias as u32 },
            RegOp::Flush { offset: 0x198 },
            RegOp::Update { offset: 0x23c, clear: 0x30, set: (16 * charge) as u32 },
            RegOp::Flush { offset: 0x23c },
            RegOp::Update { offset: 0x240, clear: 0xf0, set: (16 * trim) as u32 },
            RegOp::Flush { offset: 0x240 },
            RegOp::Update { offset: 0x240, clear: 0x3, set: preemphasis as u32 },
            RegOp::Flush { offset: 0x240 },
            if width == 1 {
                RegOp::Update { offset: 0x240, clear: 0, set: 0x4 }
            } else {
                RegOp::Update { offset: 0x240, clear: 0x4, set: 0 }
            },
            RegOp::Flush { offset: 0x240 },
            RegOp::Update { offset: 0x244, clear: 0x3, set: disconnect as u32 },
            RegOp::Flush { offset: 0x244 },
        ],
{
    tuning_fits_its_fields(
        Tuning {
            imp_res_offset: Some(impedance),
            hstx_trim: Some(trim),
            preemphasis: Some(preemphasis),
            preemphasis_width: Some(width),
            bias_ctrl: Some(bias),
            charge_ctrl: Some(charge),
            hsdisc_trim: Some(disconnect),
        },
    );
}

/// A value that is not declared leaves its register alone.
pub proof fn undeclared_values_are_left_alone(tuning: Tuning)
    requires
        tuning.imp_res_offset is None,
        tuning.bias_ctrl is None,
        tuning.charge_ctrl is None,
        tuning.preemphasis is None,
        tuning.preemphasis_width is None,
        tuning.hsdisc_trim is None,
        tuning.hstx_trim matches Some(trim) ==> trim <= 15,
    ensures
        tuning.hstx_trim is None ==> tuning_program(tuning) == Seq::<RegOp>::empty(),
        tuning.hstx_trim matches Some(trim) ==> tuning_program(tuning) == seq![
            RegOp::Update { offset: 0x240, clear: 0xf0, set: (16 * trim) as u32 },
            RegOp::Flush { offset: 0x240 },
        ],
{
    tuning_fits_its_fields(tuning);
    match tuning.hstx_trim {
        None => {
            assert(tuning_program(tuning) =~= Seq::<RegOp>::empty());
        },
        Some(trim) => {
            assert(tuning_program(tuning) =~= seq![
                RegOp::Update { offset: 0x240, clear: 0xf0, set: (16 * trim) as u32 },
                RegOp::Flush { offset: 0x240 },
            ]);
        },
    }
}

/// The fused trim takes the place of the transmitter trim, unless it is zero.
pub proof fn fused_trims_replace_the_tuning(value: u8)
    ensures
        value == 0 ==> trim_program(Some(value)) == Seq::<RegOp>::empty(),
        0 < value <= 15 ==> trim_program(Some(value)) == seq![
            RegOp::Update { offset: 0x240, clear: 0xf0, set: (16 * value) as u32 },
            RegOp::Flush { offset: 0x240 },
        ],
        trim_program(None) == Seq::<RegOp>::empty(),
{
}

// Programs.

/// The registers that the PHY starts from, each read back.
pub proof fn the_phy_starts_from_its_table(index: int)
    requires
        0 <= index < 16,
    ensures
        init_writes(16).len() == 32,
        init_writes(16)[2 * index] == (RegOp::Write {
            offset: INIT_SEQUENCE@[index].0,
            value: INIT_SEQUENCE@[index].1,
        }),
        init_writes(16)[2 * index + 1] == (RegOp::Flush { offset: INIT_SEQUENCE@[index].0 }),
        INIT_SEQUENCE@ == seq![
            (0x004usize, 0x03u32),
            (0x18c, 0x7c),
            (0x02c, 0x80),
            (0x184, 0x0a),
            (0x0b4, 0x19),
            (0x194, 0x40),
            (0x198, 0x20),
            (0x214, 0x21),
            (0x220, 0x00),
            (0x224, 0x58),
            (0x240, 0x30),
            (0x244, 0x29),
            (0x248, 0xca),
            (0x24c, 0x04),
            (0x250, 0x03),
            (0x23c, 0x00),
        ],
{
    reveal_with_fuel(init_writes, 17);
}

/// The PHY is held down while it is set up, and let up after; going down, it
/// is held again and its inputs are overridden.
pub proof fn the_phy_is_held_while_it_is_set_up(tuning: Tuning)
    ensures
        setup_program(tuning) == seq![
            RegOp::Update { offset: 0x210, clear: 0, set: 0x23 },
            RegOp::Flush { offset: 0x210 },
        ] + init_writes(16) + tuning_program(tuning),
        enable_program() == seq![
            RegOp::Update { offset: 0x210, clear: 0x1, set: 0 },
            RegOp::Flush { offset: 0x210 },
            RegOp::Delay { us: 150 },
        ],
        override_program() == seq![
            RegOp::Update { offset: 0x0a8, clear: 0, set: 0x70 },
            RegOp::Flush { offset: 0x0a8 },
        ],
        shutdown_program() == seq![
            RegOp::Update { offset: 0x210, clear: 0, set: 0x23 },
            RegOp::Flush { offset: 0x210 },
            RegOp::Update { offset: 0x0a8, clear: 0, set: 0x70 },
            RegOp::Flush { offset: 0x0a8 },
        ],
{
}

// Steps.

/// The PHY comes up in order: its clocks, its reset for 100 microseconds, the
/// set-up, the fused trim if it has one, and the wait for its PLL.
pub proof fn the_phy_comes_up_in_order(phy: Sc7180Qusb2V2Phy, value: u32, elapsed_us: u64)
    ensures
        phy.phase == Phase::Off && phy.has_iface ==> phy.on_step(elapsed_us) == (
            Sc7180Qusb2V2Phy { phase: Phase::Transition, stage: Stage::EnableIface, ..phy },
            ActionView::EnableIface,
        ),
        phy.phase == Phase::Off && !phy.has_iface ==> phy.on_step(elapsed_us) == (
            Sc7180Qusb2V2Phy { phase: Phase::Transition, stage: Stage::EnableCfgAhb, ..phy },
            ActionView::EnableCfgAhb,
        ),
        phy.stage == Stage::EnableIface ==> phy.step(true, value, elapsed_us) == (
            Sc7180Qusb2V2Phy { stage: Stage::EnableCfgAhb, ..phy },
            ActionView::EnableCfgAhb,
        ),
        phy.stage == Stage::EnableCfgAhb ==> phy.step(true, value, elapsed_us) == (
            Sc7180Qusb2V2Phy { stage: Stage::AssertReset, ..phy },
            ActionView::AssertReset,
        ),
        phy.stage == Stage::AssertReset ==> phy.step(true, value, elapsed_us) == (
            Sc7180Qusb2V2Phy { stage: Stage::DeassertReset, ..phy },
            ActionView::DeassertReset { delay_us: 100 },
        ),
        phy.stage == Stage::DeassertReset && phy.has_trim ==> phy.step(true, value, elapsed_us)
            == (
            Sc7180Qusb2V2Phy { stage: Stage::ReadTrim, ..phy },
            ActionView::ReadTrim { before: setup_program(phy.tuning) },
        ),
        phy.stage == Stage::DeassertReset && !phy.has_trim ==> phy.step(true, value, elapsed_us)
            == (
            Sc7180Qusb2V2Phy { stage: Stage::WaitPll, ..phy },
            ActionView::ReadStatus { before: setup_program(phy.tuning) + enable_program() },
        ),
        phy.stage == Stage::ReadTrim && value < 256 ==> phy.step(true, value, elapsed_us) == (
            Sc7180Qusb2V2Phy { stage: Stage::WaitPll, ..phy },
            ActionView::ReadStatus { before: trim_program(Some(value as u8)) + enable_program() },
        ),
{
}

/// The PHY is up when bit 0 of the PLL status is set. It is asked every ten
/// microseconds, and given up after a thousand.
pub proof fn the_pll_decides(phy: Sc7180Qusb2V2Phy, ok: bool, value: u32, elapsed_us: u64)
    requires
        phy.stage == Stage::WaitPll,
    ensures
        value % 2 == 1 ==> phy.step(ok, value, elapsed_us) == (
            Sc7180Qusb2V2Phy { phase: Phase::On, stage: Stage::Idle, ..phy },
            ActionView::Finished { result: Ok(()) },
        ),
        value % 2 == 0 && elapsed_us < 1000 ==> phy.step(ok, value, elapsed_us) == (
            phy,
            ActionView::ReadStatus { before: seq![RegOp::Delay { us: 10 }] },
        ),
        value % 2 == 0 && elapsed_us >= 1000 ==> {
            let (next, action) = phy.step(ok, value, elapsed_us);
            &&& next.phase == Phase::Off && next.stage == Stage::Idle
            &&& action is Abandon && action->error == PhyError::Timeout
            &&& action->undo.assert_reset && action->undo.cfg_ahb && action->undo.iface
                == phy.has_iface
            &&& action->Abandon_program == override_program()
        },
{
}

/// A reset takes the PHY down and up again; only a PHY that is on can be
/// reset. A request that meets another one waits for up to ten milliseconds.
pub proof fn a_reset_starts_again(phy: Sc7180Qusb2V2Phy, value: u32, elapsed_us: u64)
    ensures
        phy.phase == Phase::On ==> phy.reset_step(elapsed_us) == (
            Sc7180Qusb2V2Phy {
                phase: Phase::Transition,
                stage: Stage::Shutdown { restart: true },
                ..phy
            },
            ActionView::Shutdown { program: shutdown_program() },
        ),
        phy.phase == Phase::On ==> phy.off_step(elapsed_us) == (
            Sc7180Qusb2V2Phy {
                phase: Phase::Transition,
                stage: Stage::Shutdown { restart: false },
                ..phy
            },
            ActionView::Shutdown { program: shutdown_program() },
        ),
        phy.phase == Phase::Off ==> phy.reset_step(elapsed_us) == (
            phy,
            ActionView::Finished { result: Err(PhyError::InvalidMode) },
        ),
        phy.phase == Phase::Transition && elapsed_us < 10_000 ==> phy.reset_step(elapsed_us) == (
            phy,
            ActionView::Wait,
        ) && phy.on_step(elapsed_us) == (phy, ActionView::Wait) && phy.off_step(elapsed_us) == (
            phy,
            ActionView::Wait,
        ),
        phy.phase == Phase::Transition && elapsed_us >= 10_000 ==> phy.reset_step(elapsed_us) == (
            phy,
            ActionView::Finished { result: Err(PhyError::Timeout) },
        ) && phy.on_step(elapsed_us) == (
            phy,
            ActionView::Finished { result: Err(PhyError::Timeout) },
        ) && phy.off_step(elapsed_us) == (
            phy,
            ActionView::Finished { result: Err(PhyError::Timeout) },
        ),
        phy.stage == (Stage::Shutdown { restart: false }) ==> phy.step(true, value, elapsed_us)
            == (
            Sc7180Qusb2V2Phy { phase: Phase::Off, stage: Stage::Idle, ..phy },
            ActionView::Finished { result: Ok(()) },
        ),
        phy.stage == (Stage::Shutdown { restart: true }) ==> (phy.step(true, value, elapsed_us).1
            is EnableIface <==> phy.has_iface),
        phy.stage is Shutdown ==> phy.step(false, value, elapsed_us) == (
            Sc7180Qusb2V2Phy { phase: Phase::Off, stage: Stage::Idle, ..phy },
            ActionView::Finished { result: Err(PhyError::PowerOffFailed) },
        ),
{
}

/// The fuse cell is named by the first cell of its list, and the register
/// window has at least 0x400 bytes.
pub proof fn the_phy_is_placed(
    bytes: &[u8],
    handle: Result<Option<u32>, &'static str>,
    start: usize,
    end: usize,
    size: Result<usize, &'static str>,
)
    requires
        call_ensures(trim_cell_handle, (Some(bytes),), handle),
        call_ensures(check_resource, (Some((start, end)),), size),
    ensures
        handle is Ok <==> bytes@.len() >= 4,
        handle matches Ok(value) ==> value is Some && value->0 == 0x100_0000 * bytes@[0] + 0x1_0000
            * bytes@[1] + 0x100 * bytes@[2] + bytes@[3],
        size is Ok <==> 0x3ff <= end - start < usize::MAX,
        size matches Ok(value) ==> start + value == end + 1,
{
}

} // verus!
