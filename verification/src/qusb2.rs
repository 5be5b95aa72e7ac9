//! SC7180 QUSB2 v2 high-speed USB PHY.
//!
//! What powering the PHY up and down takes, step by step, is decided here; the
//! register window, the clocks, the reset and the fuses are elsewhere. Rails
//! and the reference clock stay as the firmware left them.

use vstd::prelude::*;

use crate::bytes::be32;
use crate::cros_ec_spi::{as_u32, read_u32_property};
use crate::mmio::{
    has_bit, is_set, joined_programs_stay_within, put, stays_within, written, RegOp,
};
use crate::phy::{
    flushed_update, is_usb, is_usb_mode, push_flushed_update, PhyError, PhyMode,
};
use crate::platform::{place_of, position_of, resource_size, span};

pub mod laws;

verus! {

pub const PLL_CORE_INPUT_OVERRIDE: usize = 0x0a8;

pub const PLL_STATUS: usize = 0x1a0;

pub const PORT_TUNE1: usize = 0x240;

pub const PORT_TUNE2: usize = 0x244;

pub const PORT_POWERDOWN: usize = 0x210;

pub const PLL_BIAS_CONTROL_2: usize = 0x198;

pub const IMP_CTRL1: usize = 0x220;

pub const CHG_CTRL2: usize = 0x23c;

pub const REGISTER_WINDOW_SIZE: usize = 0x400;

pub const CORE_READY_STATUS: u32 = 0x1;

/// PLL enable from reset, core reset and its multiplexer.
pub const CORE_OVERRIDE_BITS: u32 = 0x70;

pub const POWER_DOWN: u32 = 0x1;

/// Reference trim, clamp and power down.
pub const DISABLE_CTRL: u32 = 0x23;

pub const IMP_RES_OFFSET_MASK: u32 = 0x3f;

pub const BIAS_CTRL2_RES_OFFSET_MASK: u32 = 0x3f;

pub const CHG_CTRL2_OFFSET_MASK: u32 = 0x30;

pub const HSTX_TRIM_MASK: u32 = 0xf0;

pub const PREEMPH_WIDTH_HALF_BIT: u32 = 0x4;

pub const PREEMPHASIS_EN_MASK: u32 = 0x3;

pub const HSDISC_TRIM_MASK: u32 = 0x3;

pub const RESET_HOLD_US: u64 = 100;

pub const PHY_ENABLE_SETTLE_US: u64 = 150;

pub const PLL_POLL_TIMEOUT_US: u64 = 1_000;

pub const OPERATION_TIMEOUT_US: u64 = 10_000;

pub const POLL_INTERVAL_US: u64 = 10;

/// The register values of an SC7180, in the order in which they are written.
pub const INIT_SEQUENCE: [(usize, u32); 16] = [
    (0x004, 0x03),
    (0x18c, 0x7c),
    (0x02c, 0x80),
    (0x184, 0x0a),
    (0x0b4, 0x19),
    (0x194, 0x40),
    (0x198, 0x20),
    (0x214, 0x21),
    (0x220, 0x00),
    (0x224, 0x58),
    (0x240, 0x30),
    (0x244, 0x29),
    (0x248, 0xca),
    (0x24c, 0x04),
    (0x250, 0x03),
    (0x23c, 0x00),
];

// Tuning.

#[derive(Clone, Copy, Debug, Eq, PartialEq, Structural)]
pub struct Tuning {
    pub imp_res_offset: Option<u8>,
    pub hstx_trim: Option<u8>,
    pub preemphasis: Option<u8>,
    pub preemphasis_width: Option<u8>,
    pub bias_ctrl: Option<u8>,
    pub charge_ctrl: Option<u8>,
    pub hsdisc_trim: Option<u8>,
}

/// The tuning properties of a device: whether each is there, and its number
/// if it holds one.
#[derive(Clone, Copy, Debug)]
pub struct TuningProperties {
    pub imp_res_offset: Option<Option<usize>>,
    pub bias_ctrl: Option<Option<usize>>,
    pub charge_ctrl: Option<Option<usize>>,
    pub hstx_trim: Option<Option<usize>>,
    pub preemphasis: Option<Option<usize>>,
    pub preemphasis_width: Option<Option<usize>>,
    pub hsdisc_trim: Option<Option<usize>>,
}

pub open spec fn tuning_value(property: Option<Option<usize>>, max: u8) -> Result<
    Option<u8>,
    &'static str,
> {
    match property {
        None => Ok(None),
        Some(None) => Err("qcom-qusb2-v2: malformed tuning property"),
        Some(Some(value)) => if value > 0xff {
            Err("qcom-qusb2-v2: malformed tuning property")
        } else if value > max {
            Err("qcom-qusb2-v2: tuning value outside documented range")
        } else {
            Ok(Some(value as u8))
        },
    }
}

pub fn property_u8(property: Option<Option<usize>>, max: u8) -> (r: Result<
    Option<u8>,
    &'static str,
>)
    ensures
        r == tuning_value(property, max),
{
    match property {
        None => Ok(None),
        Some(None) => Err("qcom-qusb2-v2: malformed tuning property"),
        Some(Some(value)) => {
            if value > 0xff {
                return Err("qcom-qusb2-v2: malformed tuning property");
            }
            if value > max as usize {
                return Err("qcom-qusb2-v2: tuning value outside documented range");
            }
            Ok(Some(value as u8))
        },
    }
}

/// The tuning of a device, or the first property that is not right.
pub open spec fn tuning_of(properties: TuningProperties) -> Result<Tuning, &'static str> {
    match (
        tuning_value(properties.imp_res_offset, 0x3f),
        tuning_value(properties.bias_ctrl, 0x3f),
        tuning_value(properties.charge_ctrl, 0x3),
        tuning_value(properties.hstx_trim, 0xf),
        tuning_value(properties.preemphasis, 0x3),
        tuning_value(properties.preemphasis_width, 0x1),
        tuning_value(properties.hsdisc_trim, 0x3),
    ) {
        (Err(e), _, _, _, _, _, _) => Err(e),
        (_, Err(e), _, _, _, _, _) => Err(e),
        (_, _, Err(e), _, _, _, _) => Err(e),
        (_, _, _, Err(e), _, _, _) => Err(e),
        (_, _, _, _, Err(e), _, _) => Err(e),
        (_, _, _, _, _, Err(e), _) => Err(e),
        (_, _, _, _, _, _, Err(e)) => Err(e),
        (Ok(imp), Ok(bias), Ok(charge), Ok(hstx), Ok(pre), Ok(width), Ok(hsdisc)) => Ok(
            Tuning {
                imp_res_offset: imp,
                hstx_trim: hstx,
                preemphasis: pre,
                preemphasis_width: width,
                bias_ctrl: bias,
                charge_ctrl: charge,
                hsdisc_trim: hsdisc,
            },
        ),
    }
}

/// What reading the tuning properties establishes.
pub open spec fn in_range(tuning: Tuning) -> bool {
    let below = |value: Option<u8>, max: u8| value matches Some(value) ==> value <= max;
    &&& below(tuning.imp_res_offset, 0x3f)
    &&& below(tuning.bias_ctrl, 0x3f)
    &&& below(tuning.charge_ctrl, 0x3)
    &&& below(tuning.hstx_trim, 0xf)
    &&& below(tuning.preemphasis, 0x3)
    &&& below(tuning.preemphasis_width, 0x1)
    &&& below(tuning.hsdisc_trim, 0x3)
}

pub fn tuning_from_dt(properties: TuningProperties) -> (r: Result<Tuning, &'static str>)
    ensures
        r == tuning_of(properties),
        r matches Ok(tuning) ==> in_range(tuning),
{
    let imp_res_offset: Option<u8> = property_u8(properties.imp_res_offset, 0x3f)?;
    let bias_ctrl: Option<u8> = property_u8(properties.bias_ctrl, 0x3f)?;
    let charge_ctrl: Option<u8> = property_u8(properties.charge_ctrl, 0x3)?;
    let hstx_trim: Option<u8> = property_u8(properties.hstx_trim, 0xf)?;
    let preemphasis: Option<u8> = property_u8(properties.preemphasis, 0x3)?;
    let preemphasis_width: Option<u8> = property_u8(properties.preemphasis_width, 0x1)?;
    let hsdisc_trim: Option<u8> = property_u8(properties.hsdisc_trim, 0x3)?;
    Ok(
        Tuning {
            imp_res_offset,
            hstx_trim,
            preemphasis,
            preemphasis_width,
            bias_ctrl,
            charge_ctrl,
            hsdisc_trim,
        },
    )
}

// Register programs. Every write is read back.

pub open spec fn flushed_write(offset: usize, value: u32) -> Seq<RegOp> {
    seq![written(offset, value), RegOp::Flush { offset }]
}

/// The field writes that a tuning value asks for, none without one. What does
/// not fit the field is cut off.
pub open spec fn field_program(
    value: Option<u8>,
    offset: usize,
    mask: u32,
    scale: int,
) -> Seq<RegOp> {
    match value {
        Some(value) => flushed_update(
            offset,
            mask,
            (value as int % (mask as int / scale + 1) * scale) as u32,
        ),
        None => Seq::empty(),
    }
}

/// The pre-emphasis lasts half a bit or a whole one.
pub open spec fn width_program(width: Option<u8>) -> Seq<RegOp> {
    match width {
        Some(width) => if width == 1 {
            flushed_update(PORT_TUNE1, 0, PREEMPH_WIDTH_HALF_BIT)
        } else {
            flushed_update(PORT_TUNE1, PREEMPH_WIDTH_HALF_BIT, 0)
        },
        None => Seq::empty(),
    }
}

pub open spec fn tuning_program(tuning: Tuning) -> Seq<RegOp> {
    field_program(tuning.imp_res_offset, IMP_CTRL1, IMP_RES_OFFSET_MASK, 1) + field_program(
        tuning.bias_ctrl,
        PLL_BIAS_CONTROL_2,
        BIAS_CTRL2_RES_OFFSET_MASK,
        1,
    ) + field_program(tuning.charge_ctrl, CHG_CTRL2, CHG_CTRL2_OFFSET_MASK, 16) + field_program(
        tuning.hstx_trim,
        PORT_TUNE1,
        HSTX_TRIM_MASK,
        16,
    ) + field_program(tuning.preemphasis, PORT_TUNE1, PREEMPHASIS_EN_MASK, 1) + width_program(
        tuning.preemphasis_width,
    ) + field_program(tuning.hsdisc_trim, PORT_TUNE2, HSDISC_TRIM_MASK, 1)
}

/// The first `count` values of the initial sequence.
pub open spec fn init_writes(count: int) -> Seq<RegOp>
    decreases count,
{
    if count <= 0 {
        Seq::empty()
    } else {
        init_writes(count - 1) + flushed_write(
            INIT_SEQUENCE@[count - 1].0,
            INIT_SEQUENCE@[count - 1].1,
        )
    }
}

/// The PHY is held down while its registers are set.
pub open spec fn setup_program(tuning: Tuning) -> Seq<RegOp> {
    flushed_update(PORT_POWERDOWN, 0, DISABLE_CTRL) + init_writes(16) + tuning_program(tuning)
}

/// The trim of the fuses; none where they hold none.
pub open spec fn trim_program(trim: Option<u8>) -> Seq<RegOp> {
    match trim {
        Some(value) => if value != 0 {
            flushed_update(PORT_TUNE1, HSTX_TRIM_MASK, (value % 16 * 16) as u32)
        } else {
            Seq::empty()
        },
        None => Seq::empty(),
    }
}

pub open spec fn enable_program() -> Seq<RegOp> {
    flushed_update(PORT_POWERDOWN, POWER_DOWN, 0).push(RegOp::Delay { us: PHY_ENABLE_SETTLE_US })
}

pub open spec fn override_program() -> Seq<RegOp> {
    flushed_update(PLL_CORE_INPUT_OVERRIDE, 0, CORE_OVERRIDE_BITS)
}

pub open spec fn shutdown_program() -> Seq<RegOp> {
    flushed_update(PORT_POWERDOWN, 0, DISABLE_CTRL) + override_program()
}

fn push_field(
    program: &mut Vec<RegOp>,
    value: Option<u8>,
    offset: usize,
    mask: u32,
    scale: u32,
)
    requires
        scale == 1 || scale == 16,
        mask < 0x100,
    ensures
        final(program)@ == old(program)@ + field_program(value, offset, mask, scale as int),
{
    let ghost start = program@;
    match value {
        Some(value) => {
            let field: u32 = if scale == 1 {
                value as u32 % (mask + 1)
            } else {
                value as u32 % (mask / 16 + 1) * 16
            };
            push_flushed_update(program, offset, mask, field);
        },
        None => {
            assert(start + Seq::<RegOp>::empty() =~= start);
        },
    }
}

fn push_width(program: &mut Vec<RegOp>, width: Option<u8>)
    ensures
        final(program)@ == old(program)@ + width_program(width),
{
    let ghost start = program@;
    match width {
        Some(width) => {
            if width == 1 {
                push_flushed_update(program, PORT_TUNE1, 0, PREEMPH_WIDTH_HALF_BIT);
            } else {
                push_flushed_update(program, PORT_TUNE1, PREEMPH_WIDTH_HALF_BIT, 0);
            }
        },
        None => {
            assert(start + Seq::<RegOp>::empty() =~= start);
        },
    }
}

fn build_tuning(tuning: Tuning) -> (r: Vec<RegOp>)
    ensures
        r@ == tuning_program(tuning),
{
    let mut program: Vec<RegOp> = Vec::new();
    push_field(&mut program, tuning.imp_res_offset, IMP_CTRL1, IMP_RES_OFFSET_MASK, 1);
    assert(program@ =~= field_program(
        tuning.imp_res_offset,
        IMP_CTRL1,
        IMP_RES_OFFSET_MASK,
        1,
    ));
    push_field(
        &mut program,
        tuning.bias_ctrl,
        PLL_BIAS_CONTROL_2,
        BIAS_CTRL2_RES_OFFSET_MASK,
        1,
    );
    push_field(&mut program, tuning.charge_ctrl, CHG_CTRL2, CHG_CTRL2_OFFSET_MASK, 16);
    push_field(&mut program, tuning.hstx_trim, PORT_TUNE1, HSTX_TRIM_MASK, 16);
    push_field(&mut program, tuning.preemphasis, PORT_TUNE1, PREEMPHASIS_EN_MASK, 1);
    push_width(&mut program, tuning.preemphasis_width);
    push_field(&mut program, tuning.hsdisc_trim, PORT_TUNE2, HSDISC_TRIM_MASK, 1);
    program
}

fn build_setup(tuning: Tuning) -> (r: Vec<RegOp>)
    ensures
        r@ == setup_program(tuning),
{
    let mut program: Vec<RegOp> = Vec::new();
    push_flushed_update(&mut program, PORT_POWERDOWN, 0, DISABLE_CTRL);
    let ghost before = program@;
    assert(before =~= flushed_update(PORT_POWERDOWN, 0, DISABLE_CTRL));
    let sequence = INIT_SEQUENCE;
    let mut i: usize = 0;
    while i < 16
        invariant
            i <= 16,
            sequence@ == INIT_SEQUENCE@,
            program@ == before + init_writes(i as int),
        decreases 16 - i,
    {
        let (offset, value): (usize, u32) = sequence[i];
        program.push(put(offset, value));
        program.push(RegOp::Flush { offset });
        i += 1;
        assert(program@ =~= before + init_writes(i as int));
    }
    let mut tail = build_tuning(tuning);
    program.append(&mut tail);
    program
}

fn build_shutdown() -> (r: Vec<RegOp>)
    ensures
        r@ == shutdown_program(),
{
    let mut program: Vec<RegOp> = Vec::new();
    push_flushed_update(&mut program, PORT_POWERDOWN, 0, DISABLE_CTRL);
    push_flushed_update(&mut program, PLL_CORE_INPUT_OVERRIDE, 0, CORE_OVERRIDE_BITS);
    assert(program@ =~= shutdown_program());
    program
}

// The PHY.

#[derive(Clone, Copy, Debug, Eq, PartialEq, Structural)]
pub enum Phase {
    Off,
    Transition,
    On,
}

/// Which step was taken last.
#[derive(Clone, Copy, Debug, Eq, PartialEq, Structural)]
pub enum Stage {
    Idle,
    EnableIface,
    EnableCfgAhb,
    AssertReset,
    DeassertReset,
    ReadTrim,
    /// The PLL status was read.
    WaitPll,
    /// The PHY was shut down, and is brought up again or not.
    Shutdown { restart: bool },
}

/// One SC7180 QUSB2 v2 PHY.
#[derive(Clone, Copy, Debug, Eq, PartialEq, Structural)]
pub struct Sc7180Qusb2V2Phy {
    /// There is an interface clock.
    pub has_iface: bool,
    /// There is a one-byte trim cell in the fuses.
    pub has_trim: bool,
    pub tuning: Tuning,
    pub phase: Phase,
    pub mode: Option<PhyMode>,
    pub stage: Stage,
}

/// What to give back.
#[derive(Clone, Copy, Debug, Eq, PartialEq, Structural)]
pub struct Undo {
    pub assert_reset: bool,
    pub cfg_ahb: bool,
    pub iface: bool,
}

/// What to do next.
#[derive(Debug)]
pub enum Action {
    /// Another transition is under way: look again after the poll interval.
    Wait,
    EnableIface,
    EnableCfgAhb,
    AssertReset,
    /// Wait, then deassert.
    DeassertReset { delay_us: u64 },
    /// Write registers, then read the trim cell.
    ReadTrim { before: Vec<RegOp> },
    /// Write registers, then read the PLL status.
    ReadStatus { before: Vec<RegOp> },
    /// Write registers, assert the reset, then disable the clocks.
    Shutdown { program: Vec<RegOp> },
    /// Write registers and give back what was taken, then fail.
    Abandon { program: Vec<RegOp>, undo: Undo, error: PhyError },
    Finished { result: Result<(), PhyError> },
}

pub ghost enum ActionView {
    Wait,
    EnableIface,
    EnableCfgAhb,
    AssertReset,
    DeassertReset { delay_us: u64 },
    ReadTrim { before: Seq<RegOp> },
    ReadStatus { before: Seq<RegOp> },
    Shutdown { program: Seq<RegOp> },
    Abandon { program: Seq<RegOp>, undo: Undo, error: PhyError },
    Finished { result: Result<(), PhyError> },
}

impl View for Action {
    type V = ActionView;

    open spec fn view(&self) -> ActionView {
        match *self {
            Action::Wait => ActionView::Wait,
            Action::EnableIface => ActionView::EnableIface,
            Action::EnableCfgAhb => ActionView::EnableCfgAhb,
            Action::AssertReset => ActionView::AssertReset,
            Action::DeassertReset { delay_us } => ActionView::DeassertReset { delay_us },
            Action::ReadTrim { before } => ActionView::ReadTrim { before: before@ },
            Action::ReadStatus { before } => ActionView::ReadStatus { before: before@ },
            Action::Shutdown { program } => ActionView::Shutdown { program: program@ },
            Action::Abandon { program, undo, error } => ActionView::Abandon {
                program: program@,
                undo,
                error,
            },
            Action::Finished { result } => ActionView::Finished { result },
        }
    }
}

/// What claiming a transition comes to.
#[derive(Clone, Copy, Debug, Eq, PartialEq, Structural)]
pub enum Claim {
    Claimed,
    /// The PHY is in another phase, which is no transition.
    Observed { phase: Phase },
    /// Look again after the poll interval.
    Again,
    Expired,
}

/// A transition is claimed from the phase that it starts in; one that is
/// under way is waited for.
pub open spec fn claim_of(phase: Phase, allowed: Phase, elapsed_us: u64) -> Claim {
    if phase == allowed {
        Claim::Claimed
    } else if phase != Phase::Transition {
        Claim::Observed { phase }
    } else if elapsed_us >= OPERATION_TIMEOUT_US {
        Claim::Expired
    } else {
        Claim::Again
    }
}

impl Sc7180Qusb2V2Phy {
    pub open spec fn at(self, stage: Stage) -> Sc7180Qusb2V2Phy {
        Sc7180Qusb2V2Phy { stage, ..self }
    }

    /// The operation is over.
    pub open spec fn complete(self, phase: Phase, result: Result<(), PhyError>) -> (
        Sc7180Qusb2V2Phy,
        ActionView,
    ) {
        (
            Sc7180Qusb2V2Phy { phase, stage: Stage::Idle, ..self },
            ActionView::Finished { result },
        )
    }

    pub open spec fn abandon(self, program: Seq<RegOp>, undo: Undo, error: PhyError) -> (
        Sc7180Qusb2V2Phy,
        ActionView,
    ) {
        (
            Sc7180Qusb2V2Phy { phase: Phase::Off, stage: Stage::Idle, ..self },
            ActionView::Abandon { program, undo, error },
        )
    }

    /// The clocks for programming are given back, after the reset or without
    /// it.
    pub open spec fn clocks(self, assert_reset: bool) -> Undo {
        Undo { assert_reset, cfg_ahb: true, iface: self.has_iface }
    }

    /// Bringing the PHY up starts with its clocks.
    pub open spec fn start_up(self) -> (Sc7180Qusb2V2Phy, ActionView) {
        let next = Sc7180Qusb2V2Phy { phase: Phase::Transition, ..self };
        if self.has_iface {
            (next.at(Stage::EnableIface), ActionView::EnableIface)
        } else {
            (next.at(Stage::EnableCfgAhb), ActionView::EnableCfgAhb)
        }
    }

    pub open spec fn shut_down(self, restart: bool) -> (Sc7180Qusb2V2Phy, ActionView) {
        (
            Sc7180Qusb2V2Phy {
                phase: Phase::Transition,
                stage: Stage::Shutdown { restart },
                ..self
            },
            ActionView::Shutdown { program: shutdown_program() },
        )
    }

    /// What asking for power comes to.
    pub open spec fn on_step(self, elapsed_us: u64) -> (Sc7180Qusb2V2Phy, ActionView) {
        match claim_of(self.phase, Phase::Off, elapsed_us) {
            Claim::Claimed => self.start_up(),
            Claim::Observed { .. } => (self, ActionView::Finished { result: Ok(()) }),
            Claim::Again => (self, ActionView::Wait),
            Claim::Expired => (
                self,
                ActionView::Finished { result: Err(PhyError::Timeout) },
            ),
        }
    }

    pub open spec fn off_step(self, elapsed_us: u64) -> (Sc7180Qusb2V2Phy, ActionView) {
        match claim_of(self.phase, Phase::On, elapsed_us) {
            Claim::Claimed => self.shut_down(false),
            Claim::Observed { .. } => (self, ActionView::Finished { result: Ok(()) }),
            Claim::Again => (self, ActionView::Wait),
            Claim::Expired => (
                self,
                ActionView::Finished { result: Err(PhyError::Timeout) },
            ),
        }
    }

    /// Only a PHY that is on can be reset.
    pub open spec fn reset_step(self, elapsed_us: u64) -> (Sc7180Qusb2V2Phy, ActionView) {
        match claim_of(self.phase, Phase::On, elapsed_us) {
            Claim::Claimed => self.shut_down(true),
            Claim::Observed { .. } => (
                self,
                ActionView::Finished { result: Err(PhyError::InvalidMode) },
            ),
            Claim::Again => (self, ActionView::Wait),
            Claim::Expired => (
                self,
                ActionView::Finished { result: Err(PhyError::Timeout) },
            ),
        }
    }

    /// What follows a step. `value` is what was read, `elapsed_us` the time
    /// since the PLL was started.
    pub open spec fn step(self, ok: bool, value: u32, elapsed_us: u64) -> (
        Sc7180Qusb2V2Phy,
        ActionView,
    ) {
        match self.stage {
            Stage::EnableIface => if ok {
                (self.at(Stage::EnableCfgAhb), ActionView::EnableCfgAhb)
            } else {
                self.abandon(
                    Seq::empty(),
                    Undo { assert_reset: false, cfg_ahb: false, iface: false },
                    PhyError::PowerOnFailed,
                )
            },
            Stage::EnableCfgAhb => if ok {
                (self.at(Stage::AssertReset), ActionView::AssertReset)
            } else {
                self.abandon(
                    Seq::empty(),
                    Undo { assert_reset: false, cfg_ahb: false, iface: self.has_iface },
                    PhyError::PowerOnFailed,
                )
            },
            Stage::AssertReset => if ok {
                (
                    self.at(Stage::DeassertReset),
                    ActionView::DeassertReset { delay_us: RESET_HOLD_US },
                )
            } else {
                self.abandon(Seq::empty(), self.clocks(false), PhyError::ResetFailed)
            },
            Stage::DeassertReset => if !ok {
                self.abandon(Seq::empty(), self.clocks(true), PhyError::ResetFailed)
            } else if self.has_trim {
                (
                    self.at(Stage::ReadTrim),
                    ActionView::ReadTrim { before: setup_program(self.tuning) },
                )
            } else {
                (
                    self.at(Stage::WaitPll),
                    ActionView::ReadStatus {
                        before: setup_program(self.tuning) + enable_program(),
                    },
                )
            },
            Stage::ReadTrim => (
                self.at(Stage::WaitPll),
                ActionView::ReadStatus {
                    before: trim_program(
                        if ok {
                            Some((value % 0x100) as u8)
                        } else {
                            None
                        },
                    ) + enable_program(),
                },
            ),
            Stage::WaitPll => if has_bit(value, CORE_READY_STATUS) {
                self.complete(Phase::On, Ok(()))
            } else if elapsed_us >= PLL_POLL_TIMEOUT_US {
                self.abandon(override_program(), self.clocks(true), PhyError::Timeout)
            } else {
                (
                    self,
                    ActionView::ReadStatus {
                        before: seq![RegOp::Delay { us: POLL_INTERVAL_US }],
                    },
                )
            },
            Stage::Shutdown { restart } => if !ok {
                self.complete(Phase::Off, Err(PhyError::PowerOffFailed))
            } else if restart {
                self.start_up()
            } else {
                self.complete(Phase::Off, Ok(()))
            },
            Stage::Idle => (self, ActionView::Finished { result: Err(PhyError::Busy) }),
        }
    }

    /// A PHY that is off.
    pub fn new(has_iface: bool, has_trim: bool, tuning: Tuning) -> (r: Sc7180Qusb2V2Phy)
        ensures
            r == (Sc7180Qusb2V2Phy {
                has_iface,
                has_trim,
                tuning,
                phase: Phase::Off,
                mode: None,
                stage: Stage::Idle,
            }),
    {
        Sc7180Qusb2V2Phy {
            has_iface,
            has_trim,
            tuning,
            phase: Phase::Off,
            mode: None,
            stage: Stage::Idle,
        }
    }

    pub fn name(&self) -> (r: &'static str)
        ensures
            r == "qcom,sc7180-qusb2-phy",
    {
        "qcom,sc7180-qusb2-phy"
    }

    /// Whether a transition can start, seen from the phase it starts in.
    pub fn claim_transition(&self, allowed: Phase, elapsed_us: u64) -> (r: Claim)
        ensures
            r == claim_of(self.phase, allowed, elapsed_us),
    {
        if self.phase == allowed {
            return Claim::Claimed;
        }
        if self.phase != Phase::Transition {
            return Claim::Observed { phase: self.phase };
        }
        if elapsed_us >= OPERATION_TIMEOUT_US {
            return Claim::Expired;
        }
        Claim::Again
    }

    fn begin_up(&mut self) -> (r: Action)
        ensures
            (*final(self), r@) == old(self).start_up(),
    {
        self.phase = Phase::Transition;
        if self.has_iface {
            self.stage = Stage::EnableIface;
            Action::EnableIface
        } else {
            self.stage = Stage::EnableCfgAhb;
            Action::EnableCfgAhb
        }
    }

    fn begin_down(&mut self, restart: bool) -> (r: Action)
        ensures
            (*final(self), r@) == old(self).shut_down(restart),
    {
        self.phase = Phase::Transition;
        self.stage = Stage::Shutdown { restart };
        Action::Shutdown { program: build_shutdown() }
    }

    /// Asks for power. `elapsed_us` is how long this has been waiting.
    pub fn power_on(&mut self, elapsed_us: u64) -> (r: Action)
        ensures
            (*final(self), r@) == old(self).on_step(elapsed_us),
    {
        match self.claim_transition(Phase::Off, elapsed_us) {
            Claim::Claimed => self.begin_up(),
            Claim::Observed { .. } => Action::Finished { result: Ok(()) },
            Claim::Again => Action::Wait,
            Claim::Expired => Action::Finished { result: Err(PhyError::Timeout) },
        }
    }

    /// Gives power up.
    pub fn power_off(&mut self, elapsed_us: u64) -> (r: Action)
        ensures
            (*final(self), r@) == old(self).off_step(elapsed_us),
    {
        match self.claim_transition(Phase::On, elapsed_us) {
            Claim::Claimed => self.begin_down(false),
            Claim::Observed { .. } => Action::Finished { result: Ok(()) },
            Claim::Again => Action::Wait,
            Claim::Expired => Action::Finished { result: Err(PhyError::Timeout) },
        }
    }

    /// Shuts the PHY down and brings it up again.
    pub fn reset(&mut self, elapsed_us: u64) -> (r: Action)
        ensures
            (*final(self), r@) == old(self).reset_step(elapsed_us),
    {
        match self.claim_transition(Phase::On, elapsed_us) {
            Claim::Claimed => self.begin_down(true),
            Claim::Observed { .. } => Action::Finished { result: Err(PhyError::InvalidMode) },
            Claim::Again => Action::Wait,
            Claim::Expired => Action::Finished { result: Err(PhyError::Timeout) },
        }
    }

    fn give_up(&mut self, program: Vec<RegOp>, undo: Undo, error: PhyError) -> (r: Action)
        ensures
            (*final(self), r@) == old(self).abandon(program@, undo, error),
    {
        self.phase = Phase::Off;
        self.stage = Stage::Idle;
        Action::Abandon { program, undo, error }
    }

    fn finish(&mut self, phase: Phase, result: Result<(), PhyError>) -> (r: Action)
        ensures
            (*final(self), r@) == old(self).complete(phase, result),
    {
        self.phase = phase;
        self.stage = Stage::Idle;
        Action::Finished { result }
    }

    /// Goes on with an operation.
    pub fn advance(&mut self, ok: bool, value: u32, elapsed_us: u64) -> (r: Action)
        ensures
            (*final(self), r@) == old(self).step(ok, value, elapsed_us),
    {
        let mut program: Vec<RegOp> = Vec::new();
        assert(program@ =~= Seq::<RegOp>::empty());
        let ghost start = *self;
        let iface = self.has_iface;
        match self.stage {
            Stage::EnableIface => {
                if !ok {
                    return self.give_up(
                        program,
                        Undo { assert_reset: false, cfg_ahb: false, iface: false },
                        PhyError::PowerOnFailed,
                    );
                }
                self.stage = Stage::EnableCfgAhb;
                Action::EnableCfgAhb
            },
            Stage::EnableCfgAhb => {
                if !ok {
                    return self.give_up(
                        program,
                        Undo { assert_reset: false, cfg_ahb: false, iface },
                        PhyError::PowerOnFailed,
                    );
                }
                self.stage = Stage::AssertReset;
                Action::AssertReset
            },
            Stage::AssertReset => {
                if !ok {
                    return self.give_up(
                        program,
                        Undo { assert_reset: false, cfg_ahb: true, iface },
                        PhyError::ResetFailed,
                    );
                }
                self.stage = Stage::DeassertReset;
                Action::DeassertReset { delay_us: RESET_HOLD_US }
            },
            Stage::DeassertReset => {
                if !ok {
                    return self.give_up(
                        program,
                        Undo { assert_reset: true, cfg_ahb: true, iface },
                        PhyError::ResetFailed,
                    );
                }
                let mut before = build_setup(self.tuning);
                if self.has_trim {
                    self.stage = Stage::ReadTrim;
                    return Action::ReadTrim { before };
                }
                self.stage = Stage::WaitPll;
                push_flushed_update(&mut before, PORT_POWERDOWN, POWER_DOWN, 0);
                before.push(RegOp::Delay { us: PHY_ENABLE_SETTLE_US });
                assert(before@ =~= setup_program(self.tuning) + enable_program());
                Action::ReadStatus { before }
            },
            Stage::ReadTrim => {
                self.stage = Stage::WaitPll;
                let trim: u8 = (value % 0x100) as u8;
                if ok && trim != 0 {
                    push_flushed_update(
                        &mut program,
                        PORT_TUNE1,
                        HSTX_TRIM_MASK,
                        (trim % 16) as u32 * 16,
                    );
                }
                push_flushed_update(&mut program, PORT_POWERDOWN, POWER_DOWN, 0);
                program.push(RegOp::Delay { us: PHY_ENABLE_SETTLE_US });
                assert(program@ =~= start.step(ok, value, elapsed_us).1->ReadStatus_before);
                Action::ReadStatus { before: program }
            },
            Stage::WaitPll => {
                if is_set(value, CORE_READY_STATUS) {
                    return self.finish(Phase::On, Ok(()));
                }
                if elapsed_us >= PLL_POLL_TIMEOUT_US {
                    push_flushed_update(
                        &mut program,
                        PLL_CORE_INPUT_OVERRIDE,
                        0,
                        CORE_OVERRIDE_BITS,
                    );
                    assert(program@ =~= override_program());
                    return self.give_up(
                        program,
                        Undo { assert_reset: true, cfg_ahb: true, iface },
                        PhyError::Timeout,
                    );
                }
                program.push(RegOp::Delay { us: POLL_INTERVAL_US });
                assert(program@ =~= seq![RegOp::Delay { us: POLL_INTERVAL_US }]);
                Action::ReadStatus { before: program }
            },
            Stage::Shutdown { restart } => {
                if !ok {
                    self.finish(Phase::Off, Err(PhyError::PowerOffFailed))
                } else if restart {
                    self.begin_up()
                } else {
                    self.finish(Phase::Off, Ok(()))
                }
            },
            Stage::Idle => Action::Finished { result: Err(PhyError::Busy) },
        }
    }

    pub fn set_mode(&mut self, mode: PhyMode) -> (r: Result<(), PhyError>)
        ensures
            if is_usb(mode) {
                r is Ok && *final(self) == (Sc7180Qusb2V2Phy { mode: Some(mode), ..*old(self) })
            } else {
                r == Err::<(), PhyError>(PhyError::NotSupported) && *final(self) == *old(self)
            },
    {
        if !is_usb_mode(mode) {
            return Err(PhyError::NotSupported);
        }
        self.mode = Some(mode);
        Ok(())
    }

    pub fn get_mode(&self) -> (r: Option<PhyMode>)
        ensures
            r == self.mode,
    {
        self.mode
    }
}

// Probing.

/// Whether a specifier names the PHY: it takes no cells.
pub fn get_phy(spec_cells: &[u32]) -> (r: Result<(), PhyError>)
    ensures
        r == (if spec_cells@.len() == 0 {
            Ok::<(), PhyError>(())
        } else {
            Err(PhyError::NotFound)
        }),
{
    if spec_cells.len() == 0 {
        Ok(())
    } else {
        Err(PhyError::NotFound)
    }
}

/// Whether a list of names, if there is one, holds a name. Clocks and resets
/// are looked up by name only where the list holds it.
pub fn has_named_item(names: Option<&Vec<String>>, name: &str) -> (r: bool)
    ensures
        r == (names matches Some(names) && place_of(names@, name@) is Some),
{
    match names {
        Some(names) => position_of(names, name).is_some(),
        None => false,
    }
}

/// The handle of the trim cell; none without cells.
pub fn trim_cell_handle(nvmem_cells: Option<&[u8]>) -> (r: Result<Option<u32>, &'static str>)
    ensures
        r == (match nvmem_cells {
            None => Ok::<Option<u32>, &'static str>(None),
            Some(value) => if value@.len() < 4 {
                Err("qcom-qusb2-v2: malformed nvmem-cells")
            } else {
                Ok(Some(be32(value@, 0) as u32))
            },
        }),
{
    match nvmem_cells {
        None => Ok(None),
        Some(value) => match crate::bytes::read_be_u32(value, 0) {
            Some(handle) => Ok(Some(handle)),
            None => Err("qcom-qusb2-v2: malformed nvmem-cells"),
        },
    }
}

/// The size of the register window.
pub fn check_resource(resource: Option<(usize, usize)>) -> (r: Result<usize, &'static str>)
    ensures
        r == (match resource {
            None => Err::<usize, &'static str>("qcom-qusb2-v2: no memory resource"),
            Some((start, end)) => match span(start, end) {
                None => Err("qcom-qusb2-v2: invalid memory resource"),
                Some(size) => if size < REGISTER_WINDOW_SIZE {
                    Err("qcom-qusb2-v2: PHY resource is smaller than 0x400 bytes")
                } else {
                    Ok(size as usize)
                },
            },
        }),
{
    match resource {
        None => Err("qcom-qusb2-v2: no memory resource"),
        Some((start, end)) => match resource_size(start, end) {
            None => Err("qcom-qusb2-v2: invalid memory resource"),
            Some(size) => {
                if size < REGISTER_WINDOW_SIZE {
                    return Err("qcom-qusb2-v2: PHY resource is smaller than 0x400 bytes");
                }
                Ok(size)
            },
        },
    }
}

pub fn device_phandle(phandle: Option<usize>) -> (r: Result<u32, &'static str>)
    ensures
        r == (match as_u32(phandle) {
            Some(handle) => Ok::<u32, &'static str>(handle),
            None => Err("qcom-qusb2-v2: missing phandle"),
        }),
{
    match read_u32_property(phandle) {
        Some(handle) => Ok(handle),
        None => Err("qcom-qusb2-v2: missing phandle"),
    }
}

// Laws.

/// A value, if there is one, is written to its field as it is.
pub open spec fn written_whole(value: Option<u8>, offset: usize, mask: u32, scale: int) -> bool {
    value matches Some(value) ==> {
        &&& value * scale <= mask
        &&& field_program(Some(value), offset, mask, scale) == flushed_update(
            offset,
            mask,
            (value * scale) as u32,
        )
    }
}

proof fn value_is_written_whole(value: Option<u8>, offset: usize, mask: u32, scale: int)
    requires
        scale == 1 || scale == 16,
        value matches Some(value) ==> value * scale <= mask,
    ensures
        written_whole(value, offset, mask, scale),
{
    if let Some(value) = value {
        let fields = mask as int / scale + 1;
        if scale == 1 {
            assert(fields == mask + 1);
        } else {
            assert(fields == mask as int / 16 + 1);
        }
        assert(value as int % fields == value) by {
            vstd::arithmetic::div_mod::lemma_small_mod(value as nat, fields as nat);
        }
    }
}

/// A tuning value of a device fits its register field, so that nothing of it is
/// cut off.
pub proof fn tuning_fits_its_fields(tuning: Tuning)
    requires
        in_range(tuning),
    ensures
        written_whole(tuning.charge_ctrl, CHG_CTRL2, CHG_CTRL2_OFFSET_MASK, 16),
        written_whole(tuning.hstx_trim, PORT_TUNE1, HSTX_TRIM_MASK, 16),
        written_whole(tuning.imp_res_offset, IMP_CTRL1, IMP_RES_OFFSET_MASK, 1),
        written_whole(tuning.bias_ctrl, PLL_BIAS_CONTROL_2, BIAS_CTRL2_RES_OFFSET_MASK, 1),
        written_whole(tuning.preemphasis, PORT_TUNE1, PREEMPHASIS_EN_MASK, 1),
        written_whole(tuning.hsdisc_trim, PORT_TUNE2, HSDISC_TRIM_MASK, 1),
{
    value_is_written_whole(tuning.charge_ctrl, CHG_CTRL2, CHG_CTRL2_OFFSET_MASK, 16);
    value_is_written_whole(tuning.hstx_trim, PORT_TUNE1, HSTX_TRIM_MASK, 16);
    value_is_written_whole(tuning.imp_res_offset, IMP_CTRL1, IMP_RES_OFFSET_MASK, 1);
    value_is_written_whole(tuning.bias_ctrl, PLL_BIAS_CONTROL_2, BIAS_CTRL2_RES_OFFSET_MASK, 1);
    value_is_written_whole(tuning.preemphasis, PORT_TUNE1, PREEMPHASIS_EN_MASK, 1);
    value_is_written_whole(tuning.hsdisc_trim, PORT_TUNE2, HSDISC_TRIM_MASK, 1);
}

/// Which clocks are on when the last step was taken.
pub open spec fn enabled_before(phy: Sc7180Qusb2V2Phy) -> Undo {
    match phy.stage {
        Stage::EnableIface => Undo { assert_reset: false, cfg_ahb: false, iface: false },
        Stage::EnableCfgAhb => Undo {
            assert_reset: false,
            cfg_ahb: false,
            iface: phy.has_iface,
        },
        _ => Undo { assert_reset: false, cfg_ahb: true, iface: phy.has_iface },
    }
}

/// A failure gives back exactly the clocks that are on.
pub proof fn failures_give_back_the_clocks(
    phy: Sc7180Qusb2V2Phy,
    ok: bool,
    value: u32,
    elapsed_us: u64,
)
    ensures
        phy.step(ok, value, elapsed_us).1 matches ActionView::Abandon { undo, .. } ==> {
            &&& undo.cfg_ahb == enabled_before(phy).cfg_ahb
            &&& undo.iface == enabled_before(phy).iface
        },
{
}

/// A finished operation leaves no transition behind.
pub proof fn operations_end_in_a_settled_phase(
    phy: Sc7180Qusb2V2Phy,
    ok: bool,
    value: u32,
    elapsed_us: u64,
)
    requires
        phy.stage != Stage::Idle,
    ensures
        ({
            let (next, action) = phy.step(ok, value, elapsed_us);
            action is Finished || action is Abandon ==> next.phase != Phase::Transition
                && next.stage == Stage::Idle
        }),
        ({
            let (next, action) = phy.step(ok, value, elapsed_us);
            next.phase == Phase::On && phy.phase != Phase::On ==> action == (
            ActionView::Finished { result: Ok(()) })
        }),
{
}

/// Powering on a PHY that is on, or off one that is off, changes nothing.
pub proof fn power_requests_are_idempotent(phy: Sc7180Qusb2V2Phy, elapsed_us: u64)
    ensures
        phy.phase == Phase::On ==> phy.on_step(elapsed_us) == (
            phy,
            ActionView::Finished { result: Ok(()) },
        ),
        phy.phase == Phase::Off ==> phy.off_step(elapsed_us) == (
            phy,
            ActionView::Finished { result: Ok(()) },
        ),
{
}

proof fn init_writes_stay_within(count: int)
    requires
        0 <= count <= 16,
    ensures
        stays_within(init_writes(count), REGISTER_WINDOW_SIZE as int),
    decreases count,
{
    if count > 0 {
        init_writes_stay_within(count - 1);
        let entry = INIT_SEQUENCE@[count - 1];
        assert(entry.0 + 4 <= 0x400 && entry.0 % 4 == 0);
        let shorter = init_writes(count - 1);
        let last = flushed_write(entry.0, entry.1);
        assert forall|i: int| 0 <= i < init_writes(count).len() implies (crate::mmio::reached(
            #[trigger] init_writes(count)[i],
        ) matches Some(offset) ==> offset + 4 <= 0x400 && offset % 4 == 0) by {
            if i < shorter.len() {
                assert(init_writes(count)[i] == shorter[i]);
            } else {
                assert(init_writes(count)[i] == last[i - shorter.len()]);
            }
        }
    }
}

/// Every register access lies in the window that is checked.
pub proof fn programs_stay_in_the_window(tuning: Tuning, trim: Option<u8>)
    ensures
        stays_within(setup_program(tuning), REGISTER_WINDOW_SIZE as int),
        stays_within(trim_program(trim), REGISTER_WINDOW_SIZE as int),
        stays_within(enable_program(), REGISTER_WINDOW_SIZE as int),
        stays_within(shutdown_program(), REGISTER_WINDOW_SIZE as int),
{
    let size = REGISTER_WINDOW_SIZE as int;
    init_writes_stay_within(16);
    tuning_stays_within(tuning);
    let held = flushed_update(PORT_POWERDOWN, 0, DISABLE_CTRL);
    joined_programs_stay_within(held, init_writes(16), size);
    joined_programs_stay_within(held + init_writes(16), tuning_program(tuning), size);
    joined_programs_stay_within(held, override_program(), size);
}

proof fn tuning_stays_within(tuning: Tuning)
    ensures
        stays_within(tuning_program(tuning), REGISTER_WINDOW_SIZE as int),
{
    let size = REGISTER_WINDOW_SIZE as int;
    let p1 = field_program(tuning.imp_res_offset, IMP_CTRL1, IMP_RES_OFFSET_MASK, 1);
    let p2 = field_program(
        tuning.bias_ctrl,
        PLL_BIAS_CONTROL_2,
        BIAS_CTRL2_RES_OFFSET_MASK,
        1,
    );
    let p3 = field_program(tuning.charge_ctrl, CHG_CTRL2, CHG_CTRL2_OFFSET_MASK, 16);
    let p4 = field_program(tuning.hstx_trim, PORT_TUNE1, HSTX_TRIM_MASK, 16);
    let p5 = field_program(tuning.preemphasis, PORT_TUNE1, PREEMPHASIS_EN_MASK, 1);
    let p6 = width_program(tuning.preemphasis_width);
    let p7 = field_program(tuning.hsdisc_trim, PORT_TUNE2, HSDISC_TRIM_MASK, 1);
    joined_programs_stay_within(p1, p2, size);
    joined_programs_stay_within(p1 + p2, p3, size);
    joined_programs_stay_within(p1 + p2 + p3, p4, size);
    joined_programs_stay_within(p1 + p2 + p3 + p4, p5, size);
    joined_programs_stay_within(p1 + p2 + p3 + p4 + p5, p6, size);
    joined_programs_stay_within(p1 + p2 + p3 + p4 + p5 + p6, p7, size);
}

/// Keeps the driver linked into builds that load it by name.
pub fn force_link() {
}

} // verus!
