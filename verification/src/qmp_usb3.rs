//! SC7180 QMP USB3 half of the USB3/DisplayPort combo PHY.
//!
//! The shared mode register stays in USB3+DisplayPort mode. What powering the
//! PHY up or down takes, step by step, is decided here; the register window,
//! the clocks and the reset are elsewhere.

use vstd::prelude::*;

use crate::cros_ec_spi::{as_u32, read_u32_property};
use crate::mmio::{has_bit, is_set, put, stays_within, written, RegOp};
use crate::phy::{
    flushed_update, is_usb, is_usb_mode, push_flushed_update, push_table, table_fits,
    table_program, PhyError, PhyMode, PhyOrientation,
};
use crate::platform::{resource_size, span};

pub mod laws;

verus! {

pub const REGISTER_WINDOW_SIZE: usize = 0x3000;

pub const USB3_SERDES_BASE: usize = 0x1000;

pub const TXA_BASE: usize = 0x1200;

pub const RXA_BASE: usize = 0x1400;

pub const TXB_BASE: usize = 0x1600;

pub const RXB_BASE: usize = 0x1800;

pub const USB3_PCS_BASE: usize = 0x1c00;

pub const DP_COM_PHY_MODE_CTRL: usize = 0x00;

pub const DP_COM_SW_RESET: usize = 0x04;

pub const DP_COM_POWER_DOWN_CTRL: usize = 0x08;

pub const DP_COM_SWI_CTRL: usize = 0x0c;

pub const DP_COM_TYPEC_CTRL: usize = 0x10;

pub const DP_COM_RESET_OVRD_CTRL: usize = 0x1c;

pub const PCS_SW_RESET: usize = 0x1c00;

pub const PCS_POWER_DOWN_CONTROL: usize = 0x1c04;

pub const PCS_START_CONTROL: usize = 0x1c08;

pub const PCS_STATUS: usize = 0x1d74;

pub const SW_RESET: u32 = 1;

pub const SW_POWER_DOWN: u32 = 1;

/// SerDes and PCS start.
pub const START_BITS: u32 = 0x3;

pub const PHY_STATUS: u32 = 0x40;

/// Both halves of the reset override.
pub const RESET_OVERRIDE: u32 = 0xf;

pub const USB3_AND_DP_MODE: u32 = 0x3;

pub const SOFTWARE_PORT_SELECT_VALUE: u32 = 0x1;

pub const SOFTWARE_PORT_SELECT_MUX: u32 = 0x2;

pub const COMMON_CLOCK_COUNT: usize = 4;

pub const PHY_READY_TIMEOUT_US: u64 = 10_000;

pub const PHY_READY_POLL_US: u64 = 200;

pub const QMP_USB43DP_USB3_PHY: u32 = 0;

pub const USB3_SERDES_TABLE: [(usize, u32); 36] = [
    (0x048, 0x07),
    (0x080, 0x14),
    (0x034, 0x08),
    (0x138, 0x30),
    (0x03c, 0x02),
    (0x08c, 0x08),
    (0x15c, 0x16),
    (0x164, 0x01),
    (0x13c, 0x80),
    (0x0b0, 0x82),
    (0x0b8, 0xab),
    (0x0bc, 0xea),
    (0x0c0, 0x02),
    (0x060, 0x06),
    (0x068, 0x16),
    (0x070, 0x36),
    (0x0dc, 0x00),
    (0x0d8, 0x3f),
    (0x0f8, 0x01),
    (0x0f4, 0xc9),
    (0x148, 0x0a),
    (0x0a0, 0x00),
    (0x09c, 0x34),
    (0x098, 0x15),
    (0x090, 0x04),
    (0x154, 0x00),
    (0x094, 0x00),
    (0x0f0, 0x00),
    (0x040, 0x0a),
    (0x010, 0x01),
    (0x01c, 0x31),
    (0x020, 0x01),
    (0x014, 0x00),
    (0x018, 0x00),
    (0x024, 0x85),
    (0x028, 0x07),
];

pub const USB3_TX_TABLE: [(usize, u32); 5] = [
    (0x060, 0x10),
    (0x0a4, 0x12),
    (0x08c, 0x16),
    (0x048, 0x09),
    (0x044, 0x06),
];

pub const USB3_RX_TABLE: [(usize, u32); 9] = [
    (0x030, 0x0b),
    (0x0d4, 0x0f),
    (0x0d8, 0x4e),
    (0x0dc, 0x18),
    (0x0f8, 0x77),
    (0x0fc, 0x80),
    (0x104, 0x03),
    (0x10c, 0x16),
    (0x034, 0x75),
];

pub const USB3_PCS_TABLE: [(usize, u32); 39] = [
    (0x0c8, 0x83),
    (0x0cc, 0x09),
    (0x0d0, 0xa2),
    (0x0d4, 0x40),
    (0x0c4, 0x02),
    (0x080, 0xd1),
    (0x084, 0x1f),
    (0x088, 0x47),
    (0x064, 0x1b),
    (0x1d8, 0xba),
    (0x00c, 0x9f),
    (0x010, 0x9f),
    (0x014, 0xb7),
    (0x018, 0x4e),
    (0x01c, 0x65),
    (0x020, 0x6b),
    (0x024, 0x15),
    (0x028, 0x0d),
    (0x02c, 0x15),
    (0x030, 0x0d),
    (0x034, 0x15),
    (0x038, 0x0d),
    (0x03c, 0x15),
    (0x040, 0x1d),
    (0x044, 0x15),
    (0x048, 0x0d),
    (0x04c, 0x15),
    (0x050, 0x0d),
    (0x05c, 0x02),
    (0x0a0, 0x04),
    (0x08c, 0x44),
    (0x0a0, 0x04),
    (0x070, 0xe7),
    (0x074, 0x03),
    (0x078, 0x40),
    (0x07c, 0x00),
    (0x0b8, 0x75),
    (0x0b0, 0x86),
    (0x0bc, 0x13),
];

/// The common clocks in the order in which they are taken.
pub fn common_clock_name(index: usize) -> (r: &'static str)
    requires
        index < COMMON_CLOCK_COUNT,
    ensures
        r == (if index == 0 {
            "aux"
        } else if index == 1 {
            "cfg_ahb"
        } else if index == 2 {
            "ref"
        } else {
            "com_aux"
        }),
{
    match index {
        0 => "aux",
        1 => "cfg_ahb",
        2 => "ref",
        _ => "com_aux",
    }
}

proof fn tables_fit()
    ensures
        table_fits(USB3_SERDES_TABLE@, 0x200),
        table_fits(USB3_TX_TABLE@, 0x200),
        table_fits(USB3_RX_TABLE@, 0x200),
        table_fits(USB3_PCS_TABLE@, 0x200),
{
}

// Register programs.

pub open spec fn orientation_value(orientation: PhyOrientation) -> u32 {
    if orientation == PhyOrientation::Reverse {
        (SOFTWARE_PORT_SELECT_MUX + SOFTWARE_PORT_SELECT_VALUE) as u32
    } else {
        SOFTWARE_PORT_SELECT_MUX
    }
}

/// The shared part comes up, with the DisplayPort half left enabled.
pub open spec fn common_program(orientation: PhyOrientation) -> Seq<RegOp> {
    flushed_update(DP_COM_POWER_DOWN_CTRL, 0, SW_POWER_DOWN) + flushed_update(
        DP_COM_RESET_OVRD_CTRL,
        0,
        RESET_OVERRIDE,
    ) + seq![
        written(DP_COM_TYPEC_CTRL, orientation_value(orientation)),
        written(DP_COM_PHY_MODE_CTRL, USB3_AND_DP_MODE),
    ] + flushed_update(DP_COM_RESET_OVRD_CTRL, RESET_OVERRIDE, 0) + flushed_update(
        DP_COM_SWI_CTRL,
        0x3,
        0,
    ) + flushed_update(DP_COM_SW_RESET, SW_RESET, 0) + flushed_update(
        PCS_POWER_DOWN_CONTROL,
        0,
        SW_POWER_DOWN,
    )
}

/// The lanes are set up and the PHY is started.
pub open spec fn start_program() -> Seq<RegOp> {
    table_program(TXA_BASE, USB3_TX_TABLE@) + table_program(TXB_BASE, USB3_TX_TABLE@)
        + table_program(RXA_BASE, USB3_RX_TABLE@) + table_program(RXB_BASE, USB3_RX_TABLE@)
        + table_program(USB3_PCS_BASE, USB3_PCS_TABLE@) + seq![RegOp::Delay { us: 10 }]
        + flushed_update(PCS_SW_RESET, SW_RESET, 0) + flushed_update(
        PCS_START_CONTROL,
        0,
        START_BITS,
    ) + seq![RegOp::Barrier]
}

/// The PHY is stopped, after its pipe clock.
pub open spec fn stop_program() -> Seq<RegOp> {
    flushed_update(PCS_SW_RESET, 0, SW_RESET) + flushed_update(PCS_START_CONTROL, START_BITS, 0)
        + flushed_update(PCS_POWER_DOWN_CONTROL, SW_POWER_DOWN, 0) + seq![RegOp::Barrier]
}

fn build_common(orientation: PhyOrientation) -> (r: Vec<RegOp>)
    ensures
        r@ == common_program(orientation),
{
    let mut program: Vec<RegOp> = Vec::new();
    push_flushed_update(&mut program, DP_COM_POWER_DOWN_CTRL, 0, SW_POWER_DOWN);
    push_flushed_update(&mut program, DP_COM_RESET_OVRD_CTRL, 0, RESET_OVERRIDE);
    let selection: u32 = match orientation {
        PhyOrientation::Reverse => SOFTWARE_PORT_SELECT_MUX + SOFTWARE_PORT_SELECT_VALUE,
        PhyOrientation::Normal => SOFTWARE_PORT_SELECT_MUX,
    };
    program.push(put(DP_COM_TYPEC_CTRL, selection));
    program.push(put(DP_COM_PHY_MODE_CTRL, USB3_AND_DP_MODE));
    push_flushed_update(&mut program, DP_COM_RESET_OVRD_CTRL, RESET_OVERRIDE, 0);
    push_flushed_update(&mut program, DP_COM_SWI_CTRL, 0x3, 0);
    push_flushed_update(&mut program, DP_COM_SW_RESET, SW_RESET, 0);
    push_flushed_update(&mut program, PCS_POWER_DOWN_CONTROL, 0, SW_POWER_DOWN);
    assert(program@ =~= common_program(orientation));
    program
}

fn build_start() -> (r: Vec<RegOp>)
    ensures
        r@ == start_program(),
{
    proof {
        tables_fit();
    }
    let mut program: Vec<RegOp> = Vec::new();
    let tx = USB3_TX_TABLE;
    let rx = USB3_RX_TABLE;
    let pcs = USB3_PCS_TABLE;
    push_table(&mut program, TXA_BASE, &tx);
    push_table(&mut program, TXB_BASE, &tx);
    push_table(&mut program, RXA_BASE, &rx);
    push_table(&mut program, RXB_BASE, &rx);
    push_table(&mut program, USB3_PCS_BASE, &pcs);
    program.push(RegOp::Delay { us: 10 });
    push_flushed_update(&mut program, PCS_SW_RESET, SW_RESET, 0);
    push_flushed_update(&mut program, PCS_START_CONTROL, 0, START_BITS);
    program.push(RegOp::Barrier);
    assert(program@ =~= start_program());
    program
}

fn build_stop() -> (r: Vec<RegOp>)
    ensures
        r@ == stop_program(),
{
    let mut program: Vec<RegOp> = Vec::new();
    push_flushed_update(&mut program, PCS_SW_RESET, 0, SW_RESET);
    push_flushed_update(&mut program, PCS_START_CONTROL, START_BITS, 0);
    push_flushed_update(&mut program, PCS_POWER_DOWN_CONTROL, SW_POWER_DOWN, 0);
    program.push(RegOp::Barrier);
    assert(program@ =~= stop_program());
    program
}

// Taking the PHY down.

/// One step of taking the PHY down. What a step answers changes nothing.
#[derive(Clone, Copy, Debug, Eq, PartialEq, Structural)]
pub enum StopStep {
    DisablePipe,
    Register { op: RegOp },
    AssertReset,
    DisableClock { index: usize },
}

/// The first of the common clocks are disabled, the last of them first.
pub open spec fn clocks_off(clocks: usize) -> Seq<StopStep> {
    Seq::new(
        clocks as nat,
        |i: int| StopStep::DisableClock { index: (clocks - 1 - i) as usize },
    )
}

/// What was taken before the PHY was touched is given back.
pub open spec fn give_back(clocks: usize, assert_reset: bool) -> Seq<StopStep> {
    clocks_off(clocks) + if assert_reset {
        seq![StopStep::AssertReset]
    } else {
        Seq::empty()
    }
}

/// The PHY is stopped, and then what it shares.
pub open spec fn stop_steps() -> Seq<StopStep> {
    seq![StopStep::DisablePipe] + stop_program().map_values(
        |op: RegOp| StopStep::Register { op },
    ) + seq![StopStep::AssertReset] + clocks_off(COMMON_CLOCK_COUNT)
}

fn push_clocks_off(steps: &mut Vec<StopStep>, clocks: usize)
    ensures
        final(steps)@ == old(steps)@ + clocks_off(clocks),
{
    let mut left: usize = clocks;
    while left > 0
        invariant
            left <= clocks,
            steps@ == old(steps)@ + clocks_off(clocks).take(clocks - left),
        decreases left,
    {
        left = left - 1;
        steps.push(StopStep::DisableClock { index: left });
        assert(clocks_off(clocks).take(clocks - left) =~= clocks_off(clocks).take(
            clocks - left - 1,
        ).push(StopStep::DisableClock { index: left }));
    }
    assert(clocks_off(clocks).take(clocks as int) =~= clocks_off(clocks));
}

fn build_give_back(clocks: usize, assert_reset: bool) -> (r: Vec<StopStep>)
    ensures
        r@ == give_back(clocks, assert_reset),
{
    let mut steps: Vec<StopStep> = Vec::new();
    push_clocks_off(&mut steps, clocks);
    if assert_reset {
        steps.push(StopStep::AssertReset);
    }
    assert(steps@ =~= give_back(clocks, assert_reset));
    steps
}

fn build_stop_steps() -> (r: Vec<StopStep>)
    ensures
        r@ == stop_steps(),
{
    let program = build_stop();
    let mut steps: Vec<StopStep> = Vec::new();
    steps.push(StopStep::DisablePipe);
    let ghost registers = program@.map_values(|op: RegOp| StopStep::Register { op });
    let mut i: usize = 0;
    while i < program.len()
        invariant
            i <= program@.len(),
            registers == program@.map_values(|op: RegOp| StopStep::Register { op }),
            steps@ == seq![StopStep::DisablePipe] + registers.take(i as int),
        decreases program@.len() - i,
    {
        steps.push(StopStep::Register { op: program[i] });
        assert(registers.take(i + 1) =~= registers.take(i as int).push(registers[i as int]));
        i = i + 1;
    }
    assert(registers.take(i as int) =~= registers);
    steps.push(StopStep::AssertReset);
    push_clocks_off(&mut steps, COMMON_CLOCK_COUNT);
    assert(steps@ =~= stop_steps());
    steps
}

// The PHY.

/// Which step of powering up was taken last.
#[derive(Clone, Copy, Debug, Eq, PartialEq, Structural)]
pub enum Stage {
    /// Not powering up.
    Idle,
    AssertReset,
    DeassertReset,
    EnableClock { index: usize },
    EnablePipe,
    /// The status was read.
    Ready,
}

#[derive(Clone, Copy, Debug, Eq, PartialEq, Structural)]
pub struct Sc7180QmpUsb3 {
    pub powered: bool,
    pub mode: Option<PhyMode>,
    pub orientation: PhyOrientation,
    pub stage: Stage,
}

/// What to do next.
#[derive(Debug)]
pub enum Action {
    AssertReset,
    DeassertReset,
    EnableClock { index: usize },
    /// Write registers, then enable the pipe clock.
    EnablePipe { before: Vec<RegOp> },
    /// Write registers, then read the PCS status.
    ReadStatus { before: Vec<RegOp> },
    /// Give back what was taken before the PHY was touched, then fail.
    Abandon { steps: Vec<StopStep>, error: PhyError },
    /// Stop the PHY and what it shares, then fail.
    Rollback { steps: Vec<StopStep>, error: PhyError },
    Finished,
}

pub ghost enum ActionView {
    AssertReset,
    DeassertReset,
    EnableClock { index: usize },
    EnablePipe { before: Seq<RegOp> },
    ReadStatus { before: Seq<RegOp> },
    Abandon { steps: Seq<StopStep>, error: PhyError },
    Rollback { steps: Seq<StopStep>, error: PhyError },
    Finished,
}

impl View for Action {
    type V = ActionView;

    open spec fn view(&self) -> ActionView {
        match *self {
            Action::AssertReset => ActionView::AssertReset,
            Action::DeassertReset => ActionView::DeassertReset,
            Action::EnableClock { index } => ActionView::EnableClock { index },
            Action::EnablePipe { before } => ActionView::EnablePipe { before: before@ },
            Action::ReadStatus { before } => ActionView::ReadStatus { before: before@ },
            Action::Abandon { steps, error } => ActionView::Abandon { steps: steps@, error },
            Action::Rollback { steps, error } => ActionView::Rollback { steps: steps@, error },
            Action::Finished => ActionView::Finished,
        }
    }
}

impl Sc7180QmpUsb3 {
    pub open spec fn wf(self) -> bool {
        &&& self.stage matches Stage::EnableClock { index } ==> index < COMMON_CLOCK_COUNT
        &&& self.powered ==> self.stage == Stage::Idle
    }

    pub open spec fn at(self, stage: Stage) -> Sc7180QmpUsb3 {
        Sc7180QmpUsb3 { stage, ..self }
    }

    pub open spec fn abandon(self, clocks: usize, assert_reset: bool, error: PhyError) -> (
        Sc7180QmpUsb3,
        ActionView,
    ) {
        (
            self.at(Stage::Idle),
            ActionView::Abandon { steps: give_back(clocks, assert_reset), error },
        )
    }

    pub open spec fn rollback(self, error: PhyError) -> (Sc7180QmpUsb3, ActionView) {
        (self.at(Stage::Idle), ActionView::Rollback { steps: stop_steps(), error })
    }

    /// What follows a step of powering up. `value` is the status that was
    /// read, `elapsed_us` the time since the PHY was started.
    pub open spec fn step(self, ok: bool, value: u32, elapsed_us: u64) -> (
        Sc7180QmpUsb3,
        ActionView,
    ) {
        match self.stage {
            Stage::AssertReset => if ok {
                (self.at(Stage::DeassertReset), ActionView::DeassertReset)
            } else {
                self.abandon(0, false, PhyError::ResetFailed)
            },
            Stage::DeassertReset => if ok {
                (
                    self.at(Stage::EnableClock { index: 0 }),
                    ActionView::EnableClock { index: 0 },
                )
            } else {
                self.abandon(0, false, PhyError::ResetFailed)
            },
            Stage::EnableClock { index } => if !ok {
                self.abandon(index, true, PhyError::PowerOnFailed)
            } else if index + 1 < COMMON_CLOCK_COUNT {
                (
                    self.at(Stage::EnableClock { index: (index + 1) as usize }),
                    ActionView::EnableClock { index: (index + 1) as usize },
                )
            } else {
                (
                    self.at(Stage::EnablePipe),
                    ActionView::EnablePipe {
                        before: common_program(self.orientation) + table_program(
                            USB3_SERDES_BASE,
                            USB3_SERDES_TABLE@,
                        ),
                    },
                )
            },
            Stage::EnablePipe => if ok {
                (self.at(Stage::Ready), ActionView::ReadStatus { before: start_program() })
            } else {
                self.rollback(PhyError::PowerOnFailed)
            },
            Stage::Ready => if !has_bit(value, PHY_STATUS) {
                (
                    Sc7180QmpUsb3 { powered: true, stage: Stage::Idle, ..self },
                    ActionView::Finished,
                )
            } else if elapsed_us >= PHY_READY_TIMEOUT_US {
                self.rollback(PhyError::Timeout)
            } else {
                (
                    self,
                    ActionView::ReadStatus {
                        before: seq![RegOp::Delay { us: PHY_READY_POLL_US }],
                    },
                )
            },
            Stage::Idle => (self, ActionView::Finished),
        }
    }

    /// A PHY that is off.
    pub fn new() -> (r: Sc7180QmpUsb3)
        ensures
            r == (Sc7180QmpUsb3 {
                powered: false,
                mode: None,
                orientation: PhyOrientation::Normal,
                stage: Stage::Idle,
            }),
            r.wf(),
    {
        Sc7180QmpUsb3 {
            powered: false,
            mode: None,
            orientation: PhyOrientation::Normal,
            stage: Stage::Idle,
        }
    }

    pub fn name(&self) -> (r: &'static str)
        ensures
            r == "sc7180-qmp-usb3",
    {
        "sc7180-qmp-usb3"
    }

    /// Starts to power the PHY up; there is nothing to do if it is on.
    pub fn power_on(&mut self) -> (r: Action)
        requires
            old(self).wf(),
        ensures
            final(self).wf(),
            if old(self).powered {
                r@ == ActionView::Finished && *final(self) == *old(self)
            } else {
                r@ == ActionView::AssertReset && *final(self) == old(self).at(Stage::AssertReset)
            },
    {
        if self.powered {
            return Action::Finished;
        }
        self.stage = Stage::AssertReset;
        Action::AssertReset
    }

    fn undo(&mut self, error: PhyError) -> (r: Action)
        requires
            old(self).wf(),
        ensures
            final(self).wf(),
            (*final(self), r@) == old(self).rollback(error),
    {
        self.stage = Stage::Idle;
        Action::Rollback { steps: build_stop_steps(), error }
    }

    /// Goes on with powering up.
    pub fn advance(&mut self, ok: bool, value: u32, elapsed_us: u64) -> (r: Action)
        requires
            old(self).wf(),
        ensures
            final(self).wf(),
            (*final(self), r@) == old(self).step(ok, value, elapsed_us),
    {
        match self.stage {
            Stage::AssertReset => {
                if !ok {
                    self.stage = Stage::Idle;
                    return Action::Abandon {
                        steps: build_give_back(0, false),
                        error: PhyError::ResetFailed,
                    };
                }
                self.stage = Stage::DeassertReset;
                Action::DeassertReset
            },
            Stage::DeassertReset => {
                if !ok {
                    self.stage = Stage::Idle;
                    return Action::Abandon {
                        steps: build_give_back(0, false),
                        error: PhyError::ResetFailed,
                    };
                }
                self.stage = Stage::EnableClock { index: 0 };
                Action::EnableClock { index: 0 }
            },
            Stage::EnableClock { index } => {
                if !ok {
                    self.stage = Stage::Idle;
                    return Action::Abandon {
                        steps: build_give_back(index, true),
                        error: PhyError::PowerOnFailed,
                    };
                }
                if index + 1 < COMMON_CLOCK_COUNT {
                    self.stage = Stage::EnableClock { index: index + 1 };
                    return Action::EnableClock { index: index + 1 };
                }
                proof {
                    tables_fit();
                }
                let serdes = USB3_SERDES_TABLE;
                let mut before = build_common(self.orientation);
                push_table(&mut before, USB3_SERDES_BASE, &serdes);
                self.stage = Stage::EnablePipe;
                Action::EnablePipe { before }
            },
            Stage::EnablePipe => {
                if !ok {
                    return self.undo(PhyError::PowerOnFailed);
                }
                self.stage = Stage::Ready;
                Action::ReadStatus { before: build_start() }
            },
            Stage::Ready => {
                if !is_set(value, PHY_STATUS) {
                    self.powered = true;
                    self.stage = Stage::Idle;
                    return Action::Finished;
                }
                if elapsed_us >= PHY_READY_TIMEOUT_US {
                    return self.undo(PhyError::Timeout);
                }
                let mut before: Vec<RegOp> = Vec::new();
                before.push(RegOp::Delay { us: PHY_READY_POLL_US });
                assert(before@ =~= seq![RegOp::Delay { us: PHY_READY_POLL_US }]);
                Action::ReadStatus { before }
            },
            Stage::Idle => Action::Finished,
        }
    }

    /// Powers the PHY down: what that takes, in order. Nothing is to be done if
    /// it is off.
    pub fn power_off(&mut self) -> (r: Vec<StopStep>)
        requires
            old(self).wf(),
        ensures
            final(self).wf(),
            *final(self) == (Sc7180QmpUsb3 { powered: false, ..*old(self) }),
            r@ == (if old(self).powered {
                stop_steps()
            } else {
                Seq::empty()
            }),
    {
        if !self.powered {
            return Vec::new();
        }
        self.powered = false;
        build_stop_steps()
    }

    /// Whether the PHY can be reset: not while it is on.
    pub fn reset(&self) -> (r: Result<(), PhyError>)
        ensures
            r == (if self.powered {
                Err::<(), PhyError>(PhyError::Busy)
            } else {
                Ok(())
            }),
    {
        if self.powered {
            Err(PhyError::Busy)
        } else {
            Ok(())
        }
    }

    pub fn set_mode(&mut self, mode: PhyMode) -> (r: Result<(), PhyError>)
        ensures
            if is_usb(mode) {
                r is Ok && *final(self) == (Sc7180QmpUsb3 { mode: Some(mode), ..*old(self) })
            } else {
                r == Err::<(), PhyError>(PhyError::InvalidMode) && *final(self) == *old(self)
            },
    {
        if !is_usb_mode(mode) {
            return Err(PhyError::InvalidMode);
        }
        self.mode = Some(mode);
        Ok(())
    }

    pub fn get_mode(&self) -> (r: Option<PhyMode>)
        ensures
            r == self.mode,
    {
        self.mode
    }

    /// Turns the plug round. While the PHY is on this would reset the shared
    /// block, so it is refused.
    pub fn set_orientation(&mut self, orientation: PhyOrientation) -> (r: Result<(), PhyError>)
        ensures
            if old(self).powered && old(self).orientation != orientation {
                r == Err::<(), PhyError>(PhyError::Busy) && *final(self) == *old(self)
            } else {
                r is Ok && *final(self) == (Sc7180QmpUsb3 { orientation, ..*old(self) })
            },
    {
        if self.powered && self.orientation != orientation {
            return Err(PhyError::Busy);
        }
        self.orientation = orientation;
        Ok(())
    }

    pub fn get_orientation(&self) -> (r: Option<PhyOrientation>)
        ensures
            r == Some(self.orientation),
    {
        Some(self.orientation)
    }
}

// The provider.

/// Whether a specifier names the USB3 PHY.
pub fn get_phy(spec_cells: &[u32]) -> (r: Result<(), PhyError>)
    ensures
        r == (if spec_cells@ == seq![QMP_USB43DP_USB3_PHY] {
            Ok::<(), PhyError>(())
        } else {
            Err(PhyError::NotFound)
        }),
{
    if spec_cells.len() == 1 && spec_cells[0] == QMP_USB43DP_USB3_PHY {
        assert(spec_cells@ =~= seq![QMP_USB43DP_USB3_PHY]);
        Ok(())
    } else {
        Err(PhyError::NotFound)
    }
}

/// Checks the register window of the PHY.
pub fn check_resource(resource: Option<(usize, usize)>) -> (r: Result<(), &'static str>)
    ensures
        r == (match resource {
            None => Err::<(), &'static str>("qcom-qmp-usb3-dp: missing memory resource"),
            Some((start, end)) => match span(start, end) {
                None => Err("qcom-qmp-usb3-dp: invalid memory resource"),
                Some(size) => if size < REGISTER_WINDOW_SIZE {
                    Err("qcom-qmp-usb3-dp: memory resource is too small")
                } else {
                    Ok(())
                },
            },
        }),
{
    match resource {
        None => Err("qcom-qmp-usb3-dp: missing memory resource"),
        Some((start, end)) => match resource_size(start, end) {
            None => Err("qcom-qmp-usb3-dp: invalid memory resource"),
            Some(size) => {
                if size < REGISTER_WINDOW_SIZE {
                    return Err("qcom-qmp-usb3-dp: memory resource is too small");
                }
                Ok(())
            },
        },
    }
}

pub fn device_phandle(phandle: Option<usize>) -> (r: Result<u32, &'static str>)
    ensures
        r == (match as_u32(phandle) {
            Some(handle) => Ok::<u32, &'static str>(handle),
            None => Err("qcom-qmp-usb3-dp: missing phandle"),
        }),
{
    match read_u32_property(phandle) {
        Some(handle) => Ok(handle),
        None => Err("qcom-qmp-usb3-dp: missing phandle"),
    }
}

// Laws.

/// Every register access lies in the window that is mapped.
pub proof fn programs_stay_in_the_window(orientation: PhyOrientation)
    ensures
        stays_within(common_program(orientation), REGISTER_WINDOW_SIZE as int),
        stays_within(
            table_program(USB3_SERDES_BASE, USB3_SERDES_TABLE@),
            REGISTER_WINDOW_SIZE as int,
        ),
        stays_within(start_program(), REGISTER_WINDOW_SIZE as int),
        stays_within(stop_program(), REGISTER_WINDOW_SIZE as int),
{
    tables_fit();
    let size = REGISTER_WINDOW_SIZE as int;
    a_table_stays_within(USB3_SERDES_BASE, USB3_SERDES_TABLE@, size);
    a_table_stays_within(TXA_BASE, USB3_TX_TABLE@, size);
    a_table_stays_within(TXB_BASE, USB3_TX_TABLE@, size);
    a_table_stays_within(RXA_BASE, USB3_RX_TABLE@, size);
    a_table_stays_within(RXB_BASE, USB3_RX_TABLE@, size);
    a_table_stays_within(USB3_PCS_BASE, USB3_PCS_TABLE@, size);
}

proof fn a_table_stays_within(base: usize, table: Seq<(usize, u32)>, size: int)
    requires
        table_fits(table, 0x200),
        base + 0x200 <= size <= 0x1_0000,
        base % 4 == 0,
    ensures
        stays_within(table_program(base, table), size),
{
    assert forall|i: int| 0 <= i < table.len() implies (base + (#[trigger] table[i]).0) % 4
        == 0 by {}
}

/// A PHY that could not be powered up is off, and was stopped if it had been
/// started.
pub proof fn a_failed_power_up_leaves_the_phy_off(
    phy: Sc7180QmpUsb3,
    ok: bool,
    value: u32,
    elapsed_us: u64,
)
    requires
        phy.wf(),
        !phy.powered,
    ensures
        ({
            let (next, action) = phy.step(ok, value, elapsed_us);
            &&& action is Abandon || action is Rollback ==> !next.powered && next.stage
                == Stage::Idle
            &&& action is Rollback <==> {
                ||| phy.stage == Stage::EnablePipe && !ok
                ||| phy.stage == Stage::Ready && has_bit(value, PHY_STATUS) && elapsed_us
                    >= PHY_READY_TIMEOUT_US
            }
        }),
{
}

/// Where one of the common clocks cannot be enabled, those before it are
/// disabled, the last first, and the reset is asserted behind them.
pub proof fn enabled_clocks_are_given_back(phy: Sc7180QmpUsb3, index: usize)
    requires
        phy.stage == (Stage::EnableClock { index }),
    ensures
        ({
            let action = phy.step(false, 0, 0).1;
            let steps = action->Abandon_steps;
            &&& action is Abandon
            &&& action->Abandon_error == PhyError::PowerOnFailed
            &&& steps.len() == index + 1
            &&& forall|i: int|
                0 <= i < index ==> #[trigger] steps[i] == (StopStep::DisableClock {
                    index: (index - 1 - i) as usize,
                })
            &&& steps[index as int] == StopStep::AssertReset
        }),
{
}

/// The PHY is taken down in one order, whether it was on or could not be
/// powered up: the pipe clock goes first, then the registers are written, then
/// the reset is asserted, and then the common clocks go, the last first.
pub proof fn the_phy_is_taken_down_in_order(phy: Sc7180QmpUsb3, value: u32, elapsed_us: u64)
    requires
        phy.wf(),
    ensures
        ({
            let steps = stop_steps();
            let writes = stop_program().len() as int;
            &&& steps.len() == writes + 2 + COMMON_CLOCK_COUNT
            &&& steps[0] == StopStep::DisablePipe
            &&& forall|i: int|
                0 <= i < writes ==> #[trigger] steps[i + 1] == (StopStep::Register {
                    op: stop_program()[i],
                })
            &&& steps[writes + 1] == StopStep::AssertReset
            &&& forall|i: int|
                0 <= i < COMMON_CLOCK_COUNT ==> #[trigger] steps[writes + 2 + i] == (
                StopStep::DisableClock { index: (COMMON_CLOCK_COUNT - 1 - i) as usize })
        }),
        forall|ok: bool|
            #![trigger phy.step(ok, value, elapsed_us)]
            phy.step(ok, value, elapsed_us).1 matches ActionView::Rollback { steps, .. } ==> steps
                == stop_steps(),
{
}

/// Keeps the driver linked into builds that load it by name.
pub fn force_link() {
}

} // verus!
