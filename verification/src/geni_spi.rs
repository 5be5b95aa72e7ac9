//! GENI serial-engine SPI controller in FIFO mode.
//!
//! An engine command is polled until it is done, and a command that went
//! wrong is cancelled. What a status calls for is decided here; the register
//! window and the chip-select lines are elsewhere. Whole transactions are in
//! [`transaction`].

pub mod laws;
pub mod transaction;

use vstd::prelude::*;

use crate::bytes::be32;
use crate::cros_ec_spi::{as_u32, read_u32_property};
use crate::geni::{
    command, command_word, pack_word, packed, smaller, unpack_byte, unpacked, DEFAULT_CLOCK_GATING,
    DEFAULT_OUTPUT_ENABLE, GENI_BYTE_GRANULARITY, GENI_CGC_CTRL, GENI_DMA_MODE_ENABLE,
    GENI_FORCE_DEFAULT, GENI_GSI_EVENT_ENABLE, GENI_MASTER_COMMAND, GENI_MASTER_COMMAND_CONTROL,
    GENI_MASTER_IRQ_CLEAR, GENI_MASTER_IRQ_ENABLE, GENI_OUTPUT_CTRL, GENI_RX_PACKING_0,
    GENI_RX_PACKING_1, GENI_RX_RFR_WATERMARK, GENI_RX_WATERMARK, GENI_SECONDARY_IRQ_CLEAR,
    GENI_SECONDARY_IRQ_ENABLE, GENI_SERIAL_MASTER_CLOCK, GENI_TOP_IRQ_ENABLE, GENI_TX_FIFO,
    GENI_TX_PACKING_0, GENI_TX_PACKING_1, GENI_TX_WATERMARK, PACKING_CONFIG_0, PACKING_CONFIG_1,
    SECONDARY_COMMON_IRQS, TOP_IRQ_ENABLES,
};
use crate::mmio::{has_bit, is_set, put, written, RegOp};
use crate::platform::{resource_size, span};
use crate::spi::SpiError;

verus! {

pub const SPI_CLOCK_PHASE: usize = 0x224;

pub const SPI_LOOPBACK: usize = 0x22c;

pub const SPI_CLOCK_POLARITY: usize = 0x230;

pub const SPI_DEMUX_INVERT: usize = 0x24c;

pub const SPI_DEMUX_SELECT: usize = 0x250;

pub const SPI_TRANSFER_CONFIG: usize = 0x25c;

pub const SPI_WORD_LENGTH: usize = 0x268;

pub const SPI_TX_LENGTH: usize = 0x26c;

pub const SPI_RX_LENGTH: usize = 0x270;

pub const GENI_HW_PARAM_1: usize = 0xe28;

pub const FIRMWARE_PROTOCOL_SPI: u32 = 1;

pub const SERIAL_CLOCK_DIVIDER_MAX: u32 = 0x0fff;

pub const SERIAL_ENGINE_SOURCE_HZ: u32 = 19_200_000;

pub const COMMAND_DONE: u32 = 0x1;

pub const COMMAND_OVERRUN: u32 = 0x2;

pub const ILLEGAL_COMMAND: u32 = 0x4;

pub const COMMAND_FAILURE: u32 = 0x8;

pub const COMMAND_CANCELLED: u32 = 0x10;

pub const COMMAND_ABORTED: u32 = 0x20;

pub const RX_FIFO_READ_ERROR: u32 = 0x100_0000;

pub const RX_FIFO_WRITE_ERROR: u32 = 0x200_0000;

pub const RX_FIFO_WATERMARK: u32 = 0x400_0000;

pub const RX_FIFO_LAST: u32 = 0x800_0000;

pub const TX_FIFO_READ_ERROR: u32 = 0x1000_0000;

pub const TX_FIFO_WRITE_ERROR: u32 = 0x2000_0000;

pub const TX_FIFO_WATERMARK: u32 = 0x4000_0000;

/// Every master interrupt that a transfer can raise.
pub const MASTER_IRQS: u32 = 0x7fc0_007f;

pub const MASTER_CANCEL: u32 = 0x4;

pub const MASTER_ABORT: u32 = 0x2;

pub const SPI_TX_ONLY: u32 = 1;

pub const SPI_RX_ONLY: u32 = 2;

pub const SPI_FULL_DUPLEX: u32 = 3;

pub const SPI_ASSERT_CS: u32 = 8;

pub const SPI_DEASSERT_CS: u32 = 9;

pub const KEEP_CS_ASSERTED: u32 = 0x4;

pub const RX_FIFO_LAST_WORD: u32 = 0x8000_0000;

pub const TRANSFER_LENGTH_MAX: usize = 0x00ff_ffff;

/// Polls of a transfer, and of a command that controls the engine.
pub const TRANSFER_POLLS: u64 = 100_000;

pub const CONTROL_POLLS: u64 = 100;

pub const DEFAULT_SPEED_HZ: u32 = 1_010_000;

// The controller.

/// A chip-select line on a GPIO controller.
#[derive(Clone, Copy, Debug, Eq, PartialEq, Structural)]
pub struct ExternalChipSelect {
    /// Handle of the GPIO controller.
    pub controller: u32,
    pub pin: u32,
    pub active_low: bool,
}

impl ExternalChipSelect {
    /// The level that the line is driven to.
    pub fn drive(&self, asserted: bool) -> (r: bool)
        ensures
            r == (asserted != self.active_low),
    {
        asserted != self.active_low
    }
}

/// FIFO-mode GENI SPI controller.
#[derive(Debug)]
pub struct QcomGeniSpi {
    pub bus_number: u32,
    pub tx_fifo_words: usize,
    pub rx_fifo_words: usize,
    pub chip_selects: Vec<ExternalChipSelect>,
    pub speed_hz: u32,
}

/// Why a serial engine cannot be used, if it cannot.
pub open spec fn engine_fault(
    requested_hz: u32,
    firmware_revision: u32,
    interface_disable: u32,
    hw_param_0: u32,
    hw_param_1: u32,
) -> Option<&'static str> {
    if firmware_revision as int / 0x100 % 0x100 != FIRMWARE_PROTOCOL_SPI {
        Some("qcom-geni-spi: serial-engine firmware is not SPI")
    } else if interface_disable % 2 == 1 {
        Some("qcom-geni-spi: FIFO interface is disabled")
    } else if fifo_depth(hw_param_0) < 4 || fifo_depth(hw_param_1) < 4 {
        Some("qcom-geni-spi: invalid FIFO depth")
    } else if requested_hz == 0 {
        Some("qcom-geni-spi: invalid bus frequency")
    } else {
        None
    }
}

pub open spec fn fifo_depth(parameter: u32) -> int {
    parameter as int / 0x1_0000 % 0x100
}

/// The divider whose clock comes closest to a frequency without exceeding
/// it, as far as the field goes.
pub open spec fn divider_for(requested_hz: u32) -> int {
    let sum = smaller(SERIAL_ENGINE_SOURCE_HZ + requested_hz - 1, u32::MAX as int);
    let quotient = sum / requested_hz as int;
    if quotient < 1 {
        1
    } else {
        smaller(quotient, SERIAL_CLOCK_DIVIDER_MAX as int)
    }
}

pub open spec fn effective_hz(requested_hz: u32) -> int {
    SERIAL_ENGINE_SOURCE_HZ as int / divider_for(requested_hz)
}

pub open spec fn clock_write(requested_hz: u32) -> RegOp {
    written(GENI_SERIAL_MASTER_CLOCK, (divider_for(requested_hz) * 16 + 1) as u32)
}

pub open spec fn fifo_mode_program(rx_fifo_words: int) -> Seq<RegOp> {
    seq![
        written(GENI_GSI_EVENT_ENABLE, 0),
        written(GENI_MASTER_IRQ_CLEAR, u32::MAX),
        written(GENI_SECONDARY_IRQ_CLEAR, u32::MAX),
        RegOp::Update { offset: GENI_CGC_CTRL, clear: 0, set: DEFAULT_CLOCK_GATING },
        written(GENI_OUTPUT_CTRL, DEFAULT_OUTPUT_ENABLE),
        written(GENI_FORCE_DEFAULT, 1),
        RegOp::Update { offset: GENI_TOP_IRQ_ENABLE, clear: 0, set: TOP_IRQ_ENABLES },
        RegOp::Update { offset: GENI_DMA_MODE_ENABLE, clear: 1, set: 0 },
        written(GENI_RX_WATERMARK, (rx_fifo_words - 3) as u32),
        written(GENI_RX_RFR_WATERMARK, (rx_fifo_words - 2) as u32),
        written(GENI_MASTER_IRQ_ENABLE, MASTER_IRQS),
        written(GENI_SECONDARY_IRQ_ENABLE, SECONDARY_COMMON_IRQS),
        written(SPI_LOOPBACK, 0),
        written(SPI_CLOCK_PHASE, 0),
        written(SPI_CLOCK_POLARITY, 0),
        written(SPI_TRANSFER_CONFIG, 0),
        written(SPI_DEMUX_INVERT, 0),
        written(SPI_WORD_LENGTH, 4),
        written(GENI_TX_PACKING_0, PACKING_CONFIG_0),
        written(GENI_TX_PACKING_1, PACKING_CONFIG_1),
        written(GENI_RX_PACKING_0, PACKING_CONFIG_0),
        written(GENI_RX_PACKING_1, PACKING_CONFIG_1),
        written(GENI_BYTE_GRANULARITY, 0),
    ]
}

/// How a chip select is switched, after the line number went to the
/// demultiplexer.
#[derive(Clone, Copy, Debug)]
pub enum Switch {
    /// Drive a GPIO line.
    Line { line: ExternalChipSelect, level: bool },
    /// Run an engine command: clear the interrupts, write the command, and
    /// wait until it is done.
    Command { program: [RegOp; 2] },
    Rejected,
}

/// What a chip-select switch comes to.
pub open spec fn switch_of(
    lines: Seq<ExternalChipSelect>,
    index: u8,
    asserted: bool,
    r: Switch,
) -> bool {
    if index < lines.len() {
        r == (Switch::Line {
            line: lines[index as int],
            level: asserted != lines[index as int].active_low,
        })
    } else if lines.len() == 0 && index < 4 {
        &&& r matches Switch::Command { program }
        &&& program@ == seq![
            written(GENI_MASTER_IRQ_CLEAR, u32::MAX),
            written(
                GENI_MASTER_COMMAND,
                command(
                    if asserted {
                        SPI_ASSERT_CS
                    } else {
                        SPI_DEASSERT_CS
                    },
                    0,
                ),
            ),
        ]
    } else {
        r == Switch::Rejected
    }
}

impl QcomGeniSpi {
    pub open spec fn wf(&self) -> bool {
        &&& 4 <= self.tx_fifo_words < 0x100
        &&& 4 <= self.rx_fifo_words < 0x100
        &&& self.speed_hz > 0
    }

    /// A controller in FIFO mode, if the firmware configured the serial
    /// engine for SPI. The last four arguments are register values.
    pub fn new(
        bus_number: u32,
        requested_speed_hz: u32,
        chip_selects: Vec<ExternalChipSelect>,
        firmware_revision: u32,
        interface_disable: u32,
        hw_param_0: u32,
        hw_param_1: u32,
    ) -> (r: Result<QcomGeniSpi, &'static str>)
        ensures
            match r {
                Ok(controller) => {
                    &&& controller.wf()
                    &&& engine_fault(
                        requested_speed_hz,
                        firmware_revision,
                        interface_disable,
                        hw_param_0,
                        hw_param_1,
                    ) is None
                    &&& controller.bus_number == bus_number
                    &&& controller.chip_selects == chip_selects
                    &&& controller.tx_fifo_words == fifo_depth(hw_param_0)
                    &&& controller.rx_fifo_words == fifo_depth(hw_param_1)
                    &&& controller.speed_hz == effective_hz(requested_speed_hz)
                },
                Err(e) => engine_fault(
                    requested_speed_hz,
                    firmware_revision,
                    interface_disable,
                    hw_param_0,
                    hw_param_1,
                ) == Some(e),
            },
    {
        if firmware_revision / 0x100 % 0x100 != FIRMWARE_PROTOCOL_SPI {
            return Err("qcom-geni-spi: serial-engine firmware is not SPI");
        }
        if interface_disable % 2 == 1 {
            return Err("qcom-geni-spi: FIFO interface is disabled");
        }
        let tx_fifo_words: usize = (hw_param_0 / 0x1_0000 % 0x100) as usize;
        let rx_fifo_words: usize = (hw_param_1 / 0x1_0000 % 0x100) as usize;
        if tx_fifo_words < 4 || rx_fifo_words < 4 {
            return Err("qcom-geni-spi: invalid FIFO depth");
        }
        if requested_speed_hz == 0 {
            return Err("qcom-geni-spi: invalid bus frequency");
        }
        let divider: u32 = clock_divider(requested_speed_hz);
        Ok(
            QcomGeniSpi {
                bus_number,
                tx_fifo_words,
                rx_fifo_words,
                chip_selects,
                speed_hz: SERIAL_ENGINE_SOURCE_HZ / divider,
            },
        )
    }

    /// The program that puts the engine in FIFO mode; then stale bytes are
    /// drained.
    pub fn initialize_fifo_mode(&self) -> (r: Vec<RegOp>)
        requires
            self.wf(),
        ensures
            r@ == fifo_mode_program(self.rx_fifo_words as int),
    {
        let mut program: Vec<RegOp> = Vec::new();
        program.push(put(GENI_GSI_EVENT_ENABLE, 0));
        program.push(put(GENI_MASTER_IRQ_CLEAR, u32::MAX));
        program.push(put(GENI_SECONDARY_IRQ_CLEAR, u32::MAX));
        program.push(RegOp::Update { offset: GENI_CGC_CTRL, clear: 0, set: DEFAULT_CLOCK_GATING });
        program.push(put(GENI_OUTPUT_CTRL, DEFAULT_OUTPUT_ENABLE));
        program.push(put(GENI_FORCE_DEFAULT, 1));
        program.push(
            RegOp::Update { offset: GENI_TOP_IRQ_ENABLE, clear: 0, set: TOP_IRQ_ENABLES },
        );
        program.push(RegOp::Update { offset: GENI_DMA_MODE_ENABLE, clear: 1, set: 0 });
        program.push(put(GENI_RX_WATERMARK, (self.rx_fifo_words - 3) as u32));
        program.push(put(GENI_RX_RFR_WATERMARK, (self.rx_fifo_words - 2) as u32));
        program.push(put(GENI_MASTER_IRQ_ENABLE, MASTER_IRQS));
        program.push(put(GENI_SECONDARY_IRQ_ENABLE, SECONDARY_COMMON_IRQS));
        program.push(put(SPI_LOOPBACK, 0));
        program.push(put(SPI_CLOCK_PHASE, 0));
        program.push(put(SPI_CLOCK_POLARITY, 0));
        program.push(put(SPI_TRANSFER_CONFIG, 0));
        program.push(put(SPI_DEMUX_INVERT, 0));
        program.push(put(SPI_WORD_LENGTH, 4));
        program.push(put(GENI_TX_PACKING_0, PACKING_CONFIG_0));
        program.push(put(GENI_TX_PACKING_1, PACKING_CONFIG_1));
        program.push(put(GENI_RX_PACKING_0, PACKING_CONFIG_0));
        program.push(put(GENI_RX_PACKING_1, PACKING_CONFIG_1));
        program.push(put(GENI_BYTE_GRANULARITY, 0));
        assert(program@ =~= fifo_mode_program(self.rx_fifo_words as int));
        program
    }

    /// Sets the bus clock: the write to do.
    pub fn program_speed(&mut self, requested_hz: u32) -> (r: Result<RegOp, SpiError>)
        ensures
            old(self).wf() ==> final(self).wf(),
            if requested_hz == 0 {
                r == Err::<RegOp, SpiError>(SpiError::InvalidArg) && *final(self) == *old(self)
            } else {
                r == Ok::<RegOp, SpiError>(clock_write(requested_hz)) && *final(self) == (
                QcomGeniSpi { speed_hz: effective_hz(requested_hz) as u32, ..*old(self) })
            },
    {
        if requested_hz == 0 {
            return Err(SpiError::InvalidArg);
        }
        let divider: u32 = clock_divider(requested_hz);
        self.speed_hz = SERIAL_ENGINE_SOURCE_HZ / divider;
        Ok(put(GENI_SERIAL_MASTER_CLOCK, divider * 16 + 1))
    }

    /// Sets the bus clock outside a transaction.
    pub fn set_bus_speed(&mut self, hz: u32) -> (r: Result<RegOp, SpiError>)
        ensures
            old(self).wf() ==> final(self).wf(),
            if hz == 0 {
                r == Err::<RegOp, SpiError>(SpiError::InvalidArg) && *final(self) == *old(self)
            } else {
                r == Ok::<RegOp, SpiError>(clock_write(hz)) && *final(self) == (QcomGeniSpi {
                    speed_hz: effective_hz(hz) as u32,
                    ..*old(self)
                })
            },
    {
        self.program_speed(hz)
    }

    pub fn bus_speed(&self) -> (r: u32)
        ensures
            r == self.speed_hz,
    {
        self.speed_hz
    }

    pub fn bus_number(&self) -> (r: u32)
        ensures
            r == self.bus_number,
    {
        self.bus_number
    }

    /// Switches a chip select: the demultiplexer write, and what follows.
    pub fn set_chip_select(&self, index: u8, asserted: bool) -> (r: (RegOp, Switch))
        ensures
            r.0 == written(SPI_DEMUX_SELECT, index as u32),
            switch_of(self.chip_selects@, index, asserted, r.1),
    {
        let select = put(SPI_DEMUX_SELECT, index as u32);
        let at: usize = index as usize;
        if at < self.chip_selects.len() {
            let line = self.chip_selects[at];
            let level = line.drive(asserted);
            return (select, Switch::Line { line, level });
        }
        if self.chip_selects.len() == 0 && index < 4 {
            let opcode: u32 = if asserted {
                SPI_ASSERT_CS
            } else {
                SPI_DEASSERT_CS
            };
            let program = [
                put(GENI_MASTER_IRQ_CLEAR, u32::MAX),
                put(GENI_MASTER_COMMAND, command_word(opcode, 0)),
            ];
            assert(program@ =~= seq![
                written(GENI_MASTER_IRQ_CLEAR, u32::MAX),
                written(GENI_MASTER_COMMAND, command(opcode, 0)),
            ]);
            return (select, Switch::Command { program });
        }
        (select, Switch::Rejected)
    }
}

fn clock_divider(requested_hz: u32) -> (r: u32)
    requires
        requested_hz > 0,
    ensures
        r == divider_for(requested_hz),
        1 <= r <= SERIAL_CLOCK_DIVIDER_MAX,
        effective_hz(requested_hz) > 0,
        SERIAL_ENGINE_SOURCE_HZ / r > 0,
        SERIAL_ENGINE_SOURCE_HZ / r == effective_hz(requested_hz),
{
    let sum: u32 = if requested_hz - 1 > u32::MAX - SERIAL_ENGINE_SOURCE_HZ {
        u32::MAX
    } else {
        SERIAL_ENGINE_SOURCE_HZ + (requested_hz - 1)
    };
    let quotient: u32 = sum / requested_hz;
    let r: u32 = if quotient < 1 {
        1
    } else if quotient > SERIAL_CLOCK_DIVIDER_MAX {
        SERIAL_CLOCK_DIVIDER_MAX
    } else {
        quotient
    };
    proof {
        assert(SERIAL_ENGINE_SOURCE_HZ / r >= 1) by (nonlinear_arith)
            requires
                1 <= r <= 0xfff,
                SERIAL_ENGINE_SOURCE_HZ == 19_200_000,
        ;
    }
    r
}

// Waiting for a control command.

/// How many times a completion is still looked for.
#[derive(Clone, Copy, Debug, Eq, PartialEq, Structural)]
pub struct Wait {
    pub completion: u32,
    pub left: u64,
}

#[derive(Clone, Copy, Debug, Eq, PartialEq, Structural)]
pub enum WaitResult {
    /// Look again after a microsecond.
    Again,
    /// Done; clear the status.
    Done,
    /// Gave up after a last microsecond.
    Expired,
}

impl Wait {
    pub open spec fn poll(self, status: u32) -> (Wait, WaitResult) {
        if status & self.completion != 0 {
            (self, WaitResult::Done)
        } else {
            (
                Wait { left: (self.left - 1) as u64, ..self },
                if self.left <= 1 {
                    WaitResult::Expired
                } else {
                    WaitResult::Again
                },
            )
        }
    }

    /// Waits for a completion bit.
    pub fn wait_for_control(completion: u32) -> (r: Wait)
        ensures
            r == (Wait { completion, left: CONTROL_POLLS }),
    {
        Wait { completion, left: CONTROL_POLLS }
    }

    /// What a status means for the wait.
    pub fn look(&mut self, status: u32) -> (r: WaitResult)
        requires
            old(self).left > 0,
        ensures
            (*final(self), r) == old(self).poll(status),
    {
        if status & self.completion != 0 {
            return WaitResult::Done;
        }
        self.left -= 1;
        if self.left == 0 {
            WaitResult::Expired
        } else {
            WaitResult::Again
        }
    }
}

// Recovery of the engine.

#[derive(Clone, Copy, Debug, Eq, PartialEq, Structural)]
pub enum Recovery {
    Cancelling(Wait),
    Aborting(Wait),
    /// Only stale receive bytes are left to drain.
    Draining,
}

pub open spec fn control_wait(completion: u32) -> Wait {
    Wait { completion, left: CONTROL_POLLS }
}

/// The program that starts a recovery.
pub open spec fn recovery_program() -> Seq<RegOp> {
    seq![
        written(GENI_TX_WATERMARK, 0),
        written(GENI_MASTER_COMMAND_CONTROL, MASTER_CANCEL),
    ]
}

impl Recovery {
    pub open spec fn wf(self) -> bool {
        match self {
            Recovery::Cancelling(wait) => wait.completion == COMMAND_CANCELLED && wait.left > 0,
            Recovery::Aborting(wait) => wait.completion == COMMAND_ABORTED && wait.left > 0,
            Recovery::Draining => true,
        }
    }

    /// First the command is cancelled; where that does not happen in time, it
    /// is aborted. Then the interrupts are cleared whatever happened.
    pub open spec fn step(self, status: u32) -> (Recovery, Seq<RegOp>) {
        match self {
            Recovery::Cancelling(wait) => match wait.poll(status) {
                (_, WaitResult::Done) => (
                    Recovery::Draining,
                    seq![
                        written(GENI_MASTER_IRQ_CLEAR, status),
                        written(GENI_MASTER_IRQ_CLEAR, u32::MAX),
                    ],
                ),
                (next, WaitResult::Again) => (
                    Recovery::Cancelling(next),
                    seq![RegOp::Delay { us: 1 }],
                ),
                (_, WaitResult::Expired) => (
                    Recovery::Aborting(control_wait(COMMAND_ABORTED)),
                    seq![
                        RegOp::Delay { us: 1 },
                        written(GENI_MASTER_COMMAND_CONTROL, MASTER_ABORT),
                    ],
                ),
            },
            Recovery::Aborting(wait) => match wait.poll(status) {
                (_, WaitResult::Done) => (
                    Recovery::Draining,
                    seq![
                        written(GENI_MASTER_IRQ_CLEAR, status),
                        written(GENI_MASTER_IRQ_CLEAR, u32::MAX),
                    ],
                ),
                (next, WaitResult::Again) => (Recovery::Aborting(next), seq![RegOp::Delay { us: 1 }]),
                (_, WaitResult::Expired) => (
                    Recovery::Draining,
                    seq![RegOp::Delay { us: 1 }, written(GENI_MASTER_IRQ_CLEAR, u32::MAX)],
                ),
            },
            Recovery::Draining => (self, Seq::empty()),
        }
    }

    /// Starts to recover from a failed command.
    pub fn recover_command() -> (r: (Recovery, [RegOp; 2]))
        ensures
            r.0 == Recovery::Cancelling(control_wait(COMMAND_CANCELLED)),
            r.0.wf(),
            r.1@ == recovery_program(),
    {
        let program = [
            put(GENI_TX_WATERMARK, 0),
            put(GENI_MASTER_COMMAND_CONTROL, MASTER_CANCEL),
        ];
        assert(program@ =~= recovery_program());
        (Recovery::Cancelling(Wait::wait_for_control(COMMAND_CANCELLED)), program)
    }

    /// Goes on with a recovery; nothing is left to do once it is draining.
    pub fn advance(&mut self, status: u32) -> (r: Vec<RegOp>)
        requires
            old(self).wf(),
        ensures
            final(self).wf(),
            (*final(self), r@) == old(self).step(status),
    {
        let mut program: Vec<RegOp> = Vec::new();
        match *self {
            Recovery::Cancelling(wait) => {
                let mut wait = wait;
                match wait.look(status) {
                    WaitResult::Done => {
                        program.push(put(GENI_MASTER_IRQ_CLEAR, status));
                        program.push(put(GENI_MASTER_IRQ_CLEAR, u32::MAX));
                        *self = Recovery::Draining;
                    },
                    WaitResult::Again => {
                        program.push(RegOp::Delay { us: 1 });
                        *self = Recovery::Cancelling(wait);
                    },
                    WaitResult::Expired => {
                        program.push(RegOp::Delay { us: 1 });
                        program.push(put(GENI_MASTER_COMMAND_CONTROL, MASTER_ABORT));
                        *self = Recovery::Aborting(Wait::wait_for_control(COMMAND_ABORTED));
                    },
                }
            },
            Recovery::Aborting(wait) => {
                let mut wait = wait;
                match wait.look(status) {
                    WaitResult::Done => {
                        program.push(put(GENI_MASTER_IRQ_CLEAR, status));
                        program.push(put(GENI_MASTER_IRQ_CLEAR, u32::MAX));
                        *self = Recovery::Draining;
                    },
                    WaitResult::Again => {
                        program.push(RegOp::Delay { us: 1 });
                        *self = Recovery::Aborting(wait);
                    },
                    WaitResult::Expired => {
                        program.push(RegOp::Delay { us: 1 });
                        program.push(put(GENI_MASTER_IRQ_CLEAR, u32::MAX));
                        *self = Recovery::Draining;
                    },
                }
            },
            Recovery::Draining => {},
        }
        assert(program@ =~= old(self).step(status).1);
        program
    }
}

// One engine command that moves data.

/// A command on its way. An empty `tx` or `rx` is a direction not used.
#[derive(Debug)]
pub struct Run {
    pub tx: Vec<u8>,
    pub rx: Vec<u8>,
    pub sent: usize,
    pub received: usize,
    pub tx_words: usize,
    /// Polls left.
    pub left: u64,
}

#[verifier::ext_equal]
pub struct RunView {
    pub tx: Seq<u8>,
    pub rx: Seq<u8>,
    pub sent: int,
    pub received: int,
    pub tx_words: int,
    pub left: int,
}

impl View for Run {
    type V = RunView;

    open spec fn view(&self) -> RunView {
        RunView {
            tx: self.tx@,
            rx: self.rx@,
            sent: self.sent as int,
            received: self.received as int,
            tx_words: self.tx_words as int,
            left: self.left as int,
        }
    }
}

/// What to do after the registers were written.
#[derive(Clone, Copy, Debug, Eq, PartialEq, Structural)]
pub enum Next {
    /// Read the status again.
    Poll,
    /// Read the receive FIFO, then take its entries in.
    Drain,
    /// Recover the engine, then fail.
    Recover(SpiError),
    Finished,
}

pub open spec fn is_error(status: u32) -> bool {
    has_bit(status, COMMAND_OVERRUN) || has_bit(status, ILLEGAL_COMMAND) || has_bit(
        status,
        COMMAND_FAILURE,
    ) || has_bit(status, RX_FIFO_READ_ERROR) || has_bit(status, RX_FIFO_WRITE_ERROR) || has_bit(
        status,
        TX_FIFO_READ_ERROR,
    ) || has_bit(status, TX_FIFO_WRITE_ERROR)
}

fn has_error(status: u32) -> (r: bool)
    ensures
        r == is_error(status),
{
    is_set(status, COMMAND_OVERRUN) || is_set(status, ILLEGAL_COMMAND) || is_set(
        status,
        COMMAND_FAILURE,
    ) || is_set(status, RX_FIFO_READ_ERROR) || is_set(status, RX_FIFO_WRITE_ERROR) || is_set(
        status,
        TX_FIFO_READ_ERROR,
    ) || is_set(status, TX_FIFO_WRITE_ERROR)
}

/// Bytes that one fill of the transmit FIFO takes.
pub open spec fn fill_count(left: int, tx_words: int) -> int {
    smaller(left, 4 * (tx_words - 1))
}

/// The writes of a fill; once everything is in the FIFO the watermark is
/// turned off.
pub open spec fn fill_program(tx: Seq<u8>, sent: int, tx_words: int) -> Seq<RegOp> {
    let count = fill_count(tx.len() - sent, tx_words);
    Seq::new(
        ((count + 3) / 4) as nat,
        |i: int| written(GENI_TX_FIFO, packed(tx.take(sent + count), sent + 4 * i)),
    ) + if sent + count == tx.len() {
        seq![written(GENI_TX_WATERMARK, 0)]
    } else {
        Seq::empty()
    }
}

/// Bytes that the receive FIFO holds. Its last entry can be a short one.
pub open spec fn available_bytes(rx_status: u32) -> int {
    let words = rx_status as int % 0x200_0000;
    let valid = rx_status as int / 0x1000_0000 % 8;
    if has_bit(rx_status, RX_FIFO_LAST_WORD) && 1 <= valid < 4 && words > 0 {
        4 * words - (4 - valid)
    } else {
        4 * words
    }
}

pub open spec fn opcode_of(tx_len: int, rx_len: int) -> u32 {
    if rx_len == 0 {
        SPI_TX_ONLY
    } else if tx_len == 0 {
        SPI_RX_ONLY
    } else {
        SPI_FULL_DUPLEX
    }
}

/// The lengths that one engine command can move.
pub open spec fn lengths_fit(tx_len: int, rx_len: int) -> bool {
    &&& 0 < tx_len || 0 < rx_len
    &&& tx_len <= TRANSFER_LENGTH_MAX
    &&& rx_len <= TRANSFER_LENGTH_MAX
    &&& tx_len == 0 || rx_len == 0 || tx_len == rx_len
}

impl RunView {
    pub open spec fn wf(self) -> bool {
        &&& lengths_fit(self.tx.len() as int, self.rx.len() as int)
        &&& 0 <= self.sent <= self.tx.len()
        &&& 0 <= self.received <= self.rx.len()
        &&& 4 <= self.tx_words < 0x100
        &&& self.left > 0
    }

    /// The program that starts the command.
    pub open spec fn start_program(self) -> Seq<RegOp> {
        seq![written(GENI_MASTER_IRQ_CLEAR, u32::MAX)] + (if self.tx.len() > 0 {
            seq![
                written(SPI_TX_LENGTH, self.tx.len() as u32),
                written(GENI_TX_WATERMARK, 1),
            ]
        } else {
            Seq::empty()
        }) + (if self.rx.len() > 0 {
            seq![written(SPI_RX_LENGTH, self.rx.len() as u32)]
        } else {
            Seq::empty()
        }) + seq![
            written(
                GENI_MASTER_COMMAND,
                command(opcode_of(self.tx.len() as int, self.rx.len() as int), KEEP_CS_ASSERTED),
            ),
        ]
    }

    pub open spec fn complete(self) -> bool {
        self.sent == self.tx.len() && self.received == self.rx.len()
    }

    /// The end of a poll: the command is done, or polled again while polls
    /// are left.
    pub open spec fn settle(self, status: u32) -> (RunView, Next) {
        if has_bit(status, COMMAND_DONE) {
            (
                self,
                if self.complete() {
                    Next::Finished
                } else {
                    Next::Recover(SpiError::Timeout)
                },
            )
        } else if self.left <= 1 {
            (self, Next::Recover(SpiError::Timeout))
        } else {
            (RunView { left: self.left - 1, ..self }, Next::Poll)
        }
    }

    /// Everything in the FIFO of what is to be sent.
    pub open spec fn filled(self) -> RunView {
        RunView {
            sent: self.sent + fill_count(self.tx.len() - self.sent, self.tx_words),
            ..self
        }
    }

    /// What a status calls for.
    pub open spec fn poll(self, status: u32) -> (RunView, Seq<RegOp>, Next) {
        if status == 0 {
            let (next, then_do) = self.settle(status);
            (next, seq![RegOp::Delay { us: 1 }], then_do)
        } else if is_error(status) {
            (
                self,
                seq![written(GENI_MASTER_IRQ_CLEAR, status)],
                Next::Recover(SpiError::BusError),
            )
        } else {
            let fills = has_bit(status, TX_FIFO_WATERMARK) && self.tx.len() > 0;
            let state = if fills {
                self.filled()
            } else {
                self
            };
            let program = if fills {
                fill_program(self.tx, self.sent, self.tx_words)
            } else {
                Seq::empty()
            };
            if (has_bit(status, RX_FIFO_WATERMARK) || has_bit(status, RX_FIFO_LAST))
                && self.rx.len() > 0 {
                (state, program, Next::Drain)
            } else {
                let (next, then_do) = state.settle(status);
                (next, program.push(written(GENI_MASTER_IRQ_CLEAR, status)), then_do)
            }
        }
    }

    /// Takes FIFO entries in; what does not fit is dropped.
    pub open spec fn taken(self, rx_status: u32, words: Seq<u32>) -> RunView {
        let end = smaller(self.rx.len() as int, self.received + available_bytes(rx_status));
        RunView {
            rx: Seq::new(
                self.rx.len(),
                |i: int|
                    if self.received <= i < end {
                        unpacked(words, i - self.received)
                    } else {
                        self.rx[i]
                    },
            ),
            received: end,
            ..self
        }
    }
}

impl Run {
    /// Starts a command that sends `tx` and fills `rx`: its first writes.
    pub fn run_transfer(tx: Vec<u8>, rx: Vec<u8>, tx_words: usize) -> (r: Result<
        (Run, Vec<RegOp>),
        SpiError,
    >)
        requires
            4 <= tx_words < 0x100,
        ensures
            match r {
                Err(e) => e == SpiError::InvalidArg && !lengths_fit(
                    tx@.len() as int,
                    rx@.len() as int,
                ),
                Ok((run, program)) => {
                    &&& run@.wf()
                    &&& run@ == (RunView {
                        tx: tx@,
                        rx: rx@,
                        sent: 0,
                        received: 0,
                        tx_words: tx_words as int,
                        left: TRANSFER_POLLS as int,
                    })
                    &&& program@ == run@.start_program()
                },
            },
    {
        let tx_len: usize = tx.len();
        let rx_len: usize = rx.len();
        if (tx_len == 0 && rx_len == 0) || tx_len > TRANSFER_LENGTH_MAX || rx_len
            > TRANSFER_LENGTH_MAX {
            return Err(SpiError::InvalidArg);
        }
        if tx_len != 0 && rx_len != 0 && tx_len != rx_len {
            return Err(SpiError::InvalidArg);
        }
        let opcode: u32 = if rx_len == 0 {
            SPI_TX_ONLY
        } else if tx_len == 0 {
            SPI_RX_ONLY
        } else {
            SPI_FULL_DUPLEX
        };
        let run = Run { tx, rx, sent: 0, received: 0, tx_words, left: TRANSFER_POLLS };
        let mut program: Vec<RegOp> = Vec::new();
        program.push(put(GENI_MASTER_IRQ_CLEAR, u32::MAX));
        if tx_len != 0 {
            program.push(put(SPI_TX_LENGTH, tx_len as u32));
            program.push(put(GENI_TX_WATERMARK, 1));
        }
        if rx_len != 0 {
            program.push(put(SPI_RX_LENGTH, rx_len as u32));
        }
        program.push(put(GENI_MASTER_COMMAND, command_word(opcode, KEEP_CS_ASSERTED)));
        assert(program@ =~= run@.start_program());
        Ok((run, program))
    }

    fn fill_tx_fifo(&mut self, program: &mut Vec<RegOp>)
        requires
            old(self)@.wf(),
        ensures
            final(self)@.wf(),
            final(self)@ == old(self)@.filled(),
            final(program)@ == old(program)@ + fill_program(
                old(self)@.tx,
                old(self)@.sent,
                old(self)@.tx_words,
            ),
    {
        let ghost start = self@;
        let ghost before = program@;
        let left: usize = self.tx.len() - self.sent;
        let room: usize = (self.tx_words - 1) * 4;
        let count: usize = if left <= room {
            left
        } else {
            room
        };
        let from: usize = self.sent;
        let chunk = crate::bytes::copy_range(&self.tx, 0, from + count);
        assert(chunk@ =~= start.tx.take(from + count));
        let entries: usize = (count + 3) / 4;
        let mut i: usize = 0;
        while i < entries
            invariant
                i <= entries,
                entries == (count + 3) / 4,
                count <= 1020,
                from <= 0x00ff_ffff,
                chunk@ == start.tx.take(from + count),
                from + count <= start.tx.len(),
                from == start.sent,
                program@ == before + Seq::new(
                    i as nat,
                    |k: int| written(GENI_TX_FIFO, packed(chunk@, from + 4 * k)),
                ),
            decreases entries - i,
        {
            program.push(put(GENI_TX_FIFO, pack_word(&chunk, from + i * 4)));
            i += 1;
            assert(program@ =~= before + Seq::new(
                i as nat,
                |k: int| written(GENI_TX_FIFO, packed(chunk@, from + 4 * k)),
            ));
        }
        self.sent = from + count;
        if self.sent == self.tx.len() {
            program.push(put(GENI_TX_WATERMARK, 0));
        }
        assert(program@ =~= before + fill_program(start.tx, start.sent, start.tx_words));
    }

    fn settle(&mut self, status: u32) -> (r: Next)
        requires
            old(self)@.wf(),
        ensures
            final(self)@.wf(),
            (final(self)@, r) == old(self)@.settle(status),
    {
        if is_set(status, COMMAND_DONE) {
            if self.sent == self.tx.len() && self.received == self.rx.len() {
                return Next::Finished;
            }
            return Next::Recover(SpiError::Timeout);
        }
        if self.left <= 1 {
            return Next::Recover(SpiError::Timeout);
        }
        self.left -= 1;
        Next::Poll
    }

    /// What a status calls for.
    pub fn poll(&mut self, status: u32) -> (r: (Vec<RegOp>, Next))
        requires
            old(self)@.wf(),
        ensures
            final(self)@.wf(),
            (final(self)@, r.0@, r.1) == old(self)@.poll(status),
    {
        let mut program: Vec<RegOp> = Vec::new();
        let ghost start = self@;
        if status == 0 {
            program.push(RegOp::Delay { us: 1 });
            assert(program@ =~= seq![RegOp::Delay { us: 1 }]);
            let next = self.settle(status);
            return (program, next);
        }
        if has_error(status) {
            program.push(put(GENI_MASTER_IRQ_CLEAR, status));
            assert(program@ =~= seq![written(GENI_MASTER_IRQ_CLEAR, status)]);
            return (program, Next::Recover(SpiError::BusError));
        }
        if is_set(status, TX_FIFO_WATERMARK) && self.tx.len() > 0 {
            self.fill_tx_fifo(&mut program);
            assert(program@ =~= fill_program(start.tx, start.sent, start.tx_words));
        }
        if (is_set(status, RX_FIFO_WATERMARK) || is_set(status, RX_FIFO_LAST)) && self.rx.len()
            > 0 {
            return (program, Next::Drain);
        }
        let next = self.settle(status);
        program.push(put(GENI_MASTER_IRQ_CLEAR, status));
        (program, next)
    }

    /// Takes in the FIFO entries that a status announced: the write that
    /// acknowledges it, and what is next.
    pub fn drain_rx_fifo(&mut self, status: u32, rx_status: u32, words: &[u32]) -> (r: (
        RegOp,
        Next,
    ))
        requires
            old(self)@.wf(),
            words@.len() == rx_status as int % 0x200_0000,
        ensures
            final(self)@.wf(),
            r.0 == written(GENI_MASTER_IRQ_CLEAR, status),
            (final(self)@, r.1) == old(self)@.taken(rx_status, words@).settle(status),
    {
        let ghost start = self@;
        let valid: u32 = rx_status / 0x1000_0000 % 8;
        let mut available: usize = words.len() * 4;
        if is_set(rx_status, RX_FIFO_LAST_WORD) && 1 <= valid && valid < 4 && words.len() > 0 {
            available -= (4 - valid) as usize;
        }
        let length: usize = self.rx.len();
        let from: usize = self.received;
        let count: usize = if available <= length - from {
            available
        } else {
            length - from
        };
        let mut i: usize = 0;
        while i < count
            invariant
                i <= count <= words@.len() * 4,
                from + count <= length,
                length == start.rx.len() == self.rx@.len(),
                from == start.received,
                self@ == (RunView { rx: self.rx@, ..start }),
                forall|j: int|
                    from <= j < from + i ==> #[trigger] self.rx@[j] == unpacked(words@, j - from),
                forall|j: int|
                    0 <= j < length && !(from <= j < from + i) ==> #[trigger] self.rx@[j]
                        == start.rx[j],
            decreases count - i,
        {
            self.rx.set(from + i, unpack_byte(words, i));
            i += 1;
        }
        self.received = from + count;
        assert(self@ =~= start.taken(rx_status, words@));
        let next = self.settle(status);
        (put(GENI_MASTER_IRQ_CLEAR, status), next)
    }
}

// Probing.

/// One entry of the chip-select list: a GPIO controller, a pin and flags.
pub open spec fn chip_select_at(value: Seq<u8>, at: int) -> ExternalChipSelect {
    ExternalChipSelect {
        controller: be32(value, at) as u32,
        pin: be32(value, at + 4) as u32,
        active_low: be32(value, at + 8) % 2 == 1,
    }
}

/// The chip selects of a `cs-gpios` property, if it is sound.
pub open spec fn chip_selects_of(cs_gpios: Option<&[u8]>) -> Option<Seq<ExternalChipSelect>> {
    match cs_gpios {
        None => Some(Seq::empty()),
        Some(value) => if value@.len() % 12 != 0 {
            None
        } else {
            Some(Seq::new(value@.len() / 12, |i: int| chip_select_at(value@, 12 * i)))
        },
    }
}

/// The chip-select lines of the `cs-gpios` property, none without it.
pub fn resolve_chip_selects(cs_gpios: Option<&[u8]>) -> (r: Result<
    Vec<ExternalChipSelect>,
    &'static str,
>)
    ensures
        match chip_selects_of(cs_gpios) {
            Some(lines) => r matches Ok(found) && found@ == lines,
            None => r == Err::<Vec<ExternalChipSelect>, &'static str>(
                "qcom-geni-spi: malformed cs-gpios",
            ),
        },
{
    let mut lines: Vec<ExternalChipSelect> = Vec::new();
    let value = match cs_gpios {
        Some(value) => value,
        None => {
            return Ok(lines);
        },
    };
    let length: usize = value.len();
    if length % 12 != 0 {
        return Err("qcom-geni-spi: malformed cs-gpios");
    }
    let count: usize = length / 12;
    let mut i: usize = 0;
    while i < count
        invariant
            i <= count,
            length == value@.len(),
            length == count * 12,
            lines@ == Seq::new(i as nat, |k: int| chip_select_at(value@, 12 * k)),
        decreases count - i,
    {
        let at: usize = i * 12;
        lines.push(
            ExternalChipSelect {
                controller: crate::bytes::read_be_u32(value, at).unwrap(),
                pin: crate::bytes::read_be_u32(value, at + 4).unwrap(),
                active_low: crate::bytes::read_be_u32(value, at + 8).unwrap() % 2 == 1,
            },
        );
        i += 1;
        assert(lines@ =~= Seq::new(i as nat, |k: int| chip_select_at(value@, 12 * k)));
    }
    assert(lines@ =~= Seq::new(value@.len() / 12, |k: int| chip_select_at(value@, 12 * k)));
    Ok(lines)
}

/// The start and the size of the register window.
pub fn check_resource(resource: Option<(usize, usize)>) -> (r: Result<
    (usize, usize),
    &'static str,
>)
    ensures
        r == (match resource {
            None => Err::<(usize, usize), &'static str>("qcom-geni-spi: no memory resource"),
            Some((start, end)) => match span(start, end) {
                None => Err("qcom-geni-spi: invalid memory resource"),
                Some(size) => Ok((start, size as usize)),
            },
        }),
{
    match resource {
        None => Err("qcom-geni-spi: no memory resource"),
        Some((start, end)) => match resource_size(start, end) {
            None => Err("qcom-geni-spi: invalid memory resource"),
            Some(size) => Ok((start, size)),
        },
    }
}

/// The handle and the clock of a controller.
pub fn read_properties(
    phandle: Option<usize>,
    spi_max_frequency: Option<usize>,
) -> (r: Result<(u32, u32), &'static str>)
    ensures
        r == (match as_u32(phandle) {
            None => Err::<(u32, u32), &'static str>("qcom-geni-spi: missing phandle"),
            Some(handle) => Ok(
                (
                    handle,
                    match as_u32(spi_max_frequency) {
                        Some(frequency) => frequency,
                        None => DEFAULT_SPEED_HZ,
                    },
                ),
            ),
        }),
{
    let handle: u32 = match read_u32_property(phandle) {
        Some(handle) => handle,
        None => {
            return Err("qcom-geni-spi: missing phandle");
        },
    };
    let frequency: u32 = match read_u32_property(spi_max_frequency) {
        Some(frequency) => frequency,
        None => DEFAULT_SPEED_HZ,
    };
    Ok((handle, frequency))
}

/// What a controller goes by.
#[derive(Debug)]
pub struct Placement {
    pub phandle: u32,
    pub speed_hz: u32,
    pub chip_selects: Vec<ExternalChipSelect>,
}

/// Reads what a device says of itself: its handle, the speed, and then the
/// lines of its chip selects.
pub fn place(
    phandle: Option<usize>,
    spi_max_frequency: Option<usize>,
    cs_gpios: Option<&[u8]>,
) -> (r: Result<Placement, &'static str>)
    ensures
        match (as_u32(phandle), chip_selects_of(cs_gpios)) {
            (None, _) => r == Err::<Placement, &'static str>("qcom-geni-spi: missing phandle"),
            (_, None) => r == Err::<Placement, &'static str>("qcom-geni-spi: malformed cs-gpios"),
            (Some(handle), Some(lines)) => {
                &&& r matches Ok(placement)
                &&& placement.phandle == handle
                &&& placement.speed_hz == (match as_u32(spi_max_frequency) {
                    Some(frequency) => frequency,
                    None => DEFAULT_SPEED_HZ,
                })
                &&& placement.chip_selects@ == lines
            },
        },
{
    let (phandle, speed_hz): (u32, u32) = match read_properties(phandle, spi_max_frequency) {
        Ok(properties) => properties,
        Err(e) => {
            return Err(e);
        },
    };
    match resolve_chip_selects(cs_gpios) {
        Ok(chip_selects) => Ok(Placement { phandle, speed_hz, chip_selects }),
        Err(e) => Err(e),
    }
}

// Laws.

/// The bus never runs faster than asked, unless the divider is exhausted.
pub proof fn the_clock_is_not_exceeded(requested_hz: u32)
    requires
        requested_hz > 0,
        divider_for(requested_hz) < SERIAL_CLOCK_DIVIDER_MAX,
    ensures
        effective_hz(requested_hz) <= requested_hz,
{
    let source = SERIAL_ENGINE_SOURCE_HZ as int;
    let wanted = requested_hz as int;
    let divider = divider_for(requested_hz);
    if wanted <= source {
        let quotient = (source + wanted - 1) / wanted;
        assert(quotient >= 1 && source / quotient <= wanted) by (nonlinear_arith)
            requires
                0 < wanted <= source,
                quotient == (source + wanted - 1) / wanted,
        ;
    } else {
        assert(source / divider <= source) by (nonlinear_arith)
            requires
                source > 0,
                divider >= 1,
        ;
    }
}

/// A recovery ends: every poll brings it closer to draining.
pub open spec fn polls_to_go(recovery: Recovery) -> int {
    match recovery {
        Recovery::Cancelling(wait) => wait.left + CONTROL_POLLS,
        Recovery::Aborting(wait) => wait.left as int,
        Recovery::Draining => 0,
    }
}

/// Every poll of a recovery leaves fewer to do, until it is draining.
pub proof fn recovery_ends(recovery: Recovery, status: u32)
    requires
        recovery.wf(),
        recovery != Recovery::Draining,
    ensures
        polls_to_go(recovery.step(status).0) < polls_to_go(recovery),
{
}

/// A finished command moved every byte, in both directions.
pub proof fn finished_commands_are_complete(
    run: RunView,
    status: u32,
    rx_status: u32,
    words: Seq<u32>,
)
    requires
        run.wf(),
    ensures
        run.poll(status).2 == Next::Finished ==> run.poll(status).0.complete(),
        run.taken(rx_status, words).settle(status).1 == Next::Finished ==> run.taken(
            rx_status,
            words,
        ).complete(),
{
}

/// Keeps the driver linked into builds that load it by name.
pub fn force_link() {
}

} // verus!
