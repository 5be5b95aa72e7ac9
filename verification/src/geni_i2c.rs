//! GENI serial-engine I2C controller in FIFO mode.
//!
//! A transfer reads the interrupt status until it is done. What a status
//! calls for is decided here; the register window is elsewhere.

use vstd::prelude::*;

use crate::cros_ec_spi::{as_u32, read_u32_property};
use crate::geni::{
    command, command_word, pack_word, packed, packed_bytes_are_unpacked, packed_words, smaller,
    unpack_byte, unpacked,
    DEFAULT_CLOCK_GATING, DEFAULT_OUTPUT_ENABLE, GENI_BYTE_GRANULARITY, GENI_CGC_CTRL,
    GENI_DMA_MODE_ENABLE, GENI_FORCE_DEFAULT, GENI_GSI_EVENT_ENABLE, GENI_MASTER_COMMAND,
    GENI_MASTER_COMMAND_CONTROL, GENI_MASTER_IRQ_CLEAR, GENI_MASTER_IRQ_ENABLE, GENI_OUTPUT_CTRL,
    GENI_RX_PACKING_0, GENI_RX_PACKING_1, GENI_RX_RFR_WATERMARK, GENI_RX_WATERMARK,
    GENI_SECONDARY_IRQ_CLEAR, GENI_SECONDARY_IRQ_ENABLE, GENI_SERIAL_MASTER_CLOCK,
    GENI_TOP_IRQ_ENABLE, GENI_TX_FIFO, GENI_TX_PACKING_0, GENI_TX_PACKING_1, GENI_TX_WATERMARK,
    PACKING_CONFIG_0, PACKING_CONFIG_1, SECONDARY_COMMON_IRQS, TOP_IRQ_ENABLES,
};
use crate::i2c::{I2cError, I2cMessage, MessageView};
use crate::mmio::{has_bit, is_set, put, written, RegOp};
use crate::platform::{resource_size, span};

pub mod laws;

verus! {

pub const GENI_CLOCK_SELECT: usize = 0x07c;

pub const I2C_TX_LENGTH: usize = 0x26c;

pub const I2C_RX_LENGTH: usize = 0x270;

pub const I2C_SCL_COUNTERS: usize = 0x278;

pub const FIRMWARE_PROTOCOL_I2C: u32 = 3;

pub const MASTER_COMMAND_DONE: u32 = 0x1;

pub const MASTER_COMMAND_OVERRUN: u32 = 0x2;

pub const MASTER_ILLEGAL_COMMAND: u32 = 0x4;

pub const MASTER_COMMAND_FAILURE: u32 = 0x8;

pub const MASTER_COMMAND_ABORTED: u32 = 0x20;

pub const MASTER_NACK: u32 = 0x400;

pub const MASTER_BUS_PROTOCOL_ERROR: u32 = 0x1000;

pub const MASTER_ARBITRATION_LOST: u32 = 0x2000;

pub const MASTER_RX_FIFO_WATERMARK: u32 = 0x400_0000;

pub const MASTER_RX_FIFO_LAST: u32 = 0x800_0000;

pub const MASTER_TX_FIFO_WATERMARK: u32 = 0x4000_0000;

/// Every master interrupt that a transfer can raise.
pub const MASTER_IRQS: u32 = 0x7fc0_347f;

pub const MASTER_COMMAND_ABORT: u32 = 0x2;

pub const I2C_WRITE: u32 = 1;

pub const I2C_READ: u32 = 2;

pub const I2C_ADDRESS_ONLY: u32 = 4;

pub const TRANSFER_TIMEOUT_US: u64 = 100_000;

pub const POLL_INTERVAL_US: u64 = 1;

pub const DEFAULT_FREQUENCY: u32 = 100_000;

// Clocks.

#[derive(Clone, Copy, Debug, Eq, PartialEq, Structural)]
pub struct ClockProfile {
    pub frequency: u32,
    pub divider: u32,
    pub high: u32,
    pub low: u32,
    pub cycle: u32,
}

pub open spec fn profile_of(frequency: u32) -> Option<ClockProfile> {
    if frequency == 100_000 {
        Some(ClockProfile { frequency, divider: 7, high: 10, low: 11, cycle: 26 })
    } else if frequency == 400_000 {
        Some(ClockProfile { frequency, divider: 2, high: 5, low: 12, cycle: 24 })
    } else if frequency == 1_000_000 {
        Some(ClockProfile { frequency, divider: 1, high: 3, low: 9, cycle: 18 })
    } else {
        None
    }
}

/// The profile of a supported bus frequency.
pub fn profile_for(frequency: u32) -> (r: Option<ClockProfile>)
    ensures
        r == profile_of(frequency),
{
    match frequency {
        100_000 => Some(ClockProfile { frequency, divider: 7, high: 10, low: 11, cycle: 26 }),
        400_000 => Some(ClockProfile { frequency, divider: 2, high: 5, low: 12, cycle: 24 }),
        1_000_000 => Some(ClockProfile { frequency, divider: 1, high: 3, low: 9, cycle: 18 }),
        _ => None,
    }
}

// The controller.

/// FIFO-mode GENI I2C controller.
#[derive(Debug)]
pub struct QcomGeniI2c {
    pub bus_number: u32,
    pub tx_fifo_words: usize,
    pub profile: ClockProfile,
}

/// Why a serial engine cannot be used, if it cannot.
pub open spec fn engine_fault(
    frequency: u32,
    firmware_revision: u32,
    interface_disable: u32,
    hw_param_0: u32,
) -> Option<&'static str> {
    if profile_of(frequency) is None {
        Some("qcom-geni-i2c: unsupported bus frequency")
    } else if firmware_revision as int / 0x100 % 0x100 != FIRMWARE_PROTOCOL_I2C {
        Some("qcom-geni-i2c: serial engine firmware is not I2C")
    } else if interface_disable % 2 == 1 {
        Some("qcom-geni-i2c: FIFO mode is disabled")
    } else if hw_param_0 as int / 0x1_0000 % 0x40 < 2 {
        Some("qcom-geni-i2c: invalid TX FIFO depth")
    } else {
        None
    }
}

impl QcomGeniI2c {
    /// A controller in FIFO mode, if the firmware configured the serial
    /// engine for I2C. The last three arguments are register values.
    pub fn new(
        bus_number: u32,
        frequency: u32,
        firmware_revision: u32,
        interface_disable: u32,
        hw_param_0: u32,
    ) -> (r: Result<QcomGeniI2c, &'static str>)
        ensures
            match r {
                Ok(controller) => {
                    &&& controller.wf()
                    &&& engine_fault(
                        frequency,
                        firmware_revision,
                        interface_disable,
                        hw_param_0,
                    ) is None
                    &&& controller.bus_number == bus_number
                    &&& controller.tx_fifo_words == hw_param_0 as int / 0x1_0000 % 0x40
                    &&& Some(controller.profile) == profile_of(frequency)
                },
                Err(e) => engine_fault(
                    frequency,
                    firmware_revision,
                    interface_disable,
                    hw_param_0,
                ) == Some(e),
            },
    {
        let profile = match profile_for(frequency) {
            Some(profile) => profile,
            None => {
                return Err("qcom-geni-i2c: unsupported bus frequency");
            },
        };
        if firmware_revision / 0x100 % 0x100 != FIRMWARE_PROTOCOL_I2C {
            return Err("qcom-geni-i2c: serial engine firmware is not I2C");
        }
        if interface_disable % 2 == 1 {
            return Err("qcom-geni-i2c: FIFO mode is disabled");
        }
        let tx_fifo_words: usize = (hw_param_0 / 0x1_0000 % 0x40) as usize;
        if tx_fifo_words < 2 {
            return Err("qcom-geni-i2c: invalid TX FIFO depth");
        }
        Ok(QcomGeniI2c { bus_number, tx_fifo_words, profile })
    }

    pub open spec fn wf(&self) -> bool {
        &&& 2 <= self.tx_fifo_words < 0x40
        &&& Some(self.profile) == profile_of(self.profile.frequency)
    }

    /// The program that puts the engine in FIFO mode.
    pub fn initialize_fifo_mode(&self) -> (r: Vec<RegOp>)
        requires
            self.wf(),
        ensures
            r@ == fifo_mode_program(self.tx_fifo_words as u32),
    {
        let mut program: Vec<RegOp> = Vec::new();
        program.push(put(GENI_GSI_EVENT_ENABLE, 0));
        program.push(put(GENI_MASTER_IRQ_CLEAR, u32::MAX));
        program.push(put(GENI_SECONDARY_IRQ_CLEAR, u32::MAX));
        program.push(RegOp::Update { offset: GENI_CGC_CTRL, clear: 0, set: DEFAULT_CLOCK_GATING });
        program.push(put(GENI_OUTPUT_CTRL, DEFAULT_OUTPUT_ENABLE));
        program.push(put(GENI_FORCE_DEFAULT, 1));
        program.push(
            RegOp::Update { offset: GENI_TOP_IRQ_ENABLE, clear: 0, set: TOP_IRQ_ENABLES },
        );
        program.push(RegOp::Update { offset: GENI_DMA_MODE_ENABLE, clear: 1, set: 0 });
        program.push(put(GENI_RX_WATERMARK, (self.tx_fifo_words - 1) as u32));
        program.push(put(GENI_RX_RFR_WATERMARK, self.tx_fifo_words as u32));
        program.push(RegOp::Update { offset: GENI_MASTER_IRQ_ENABLE, clear: 0, set: MASTER_IRQS });
        program.push(
            RegOp::Update {
                offset: GENI_SECONDARY_IRQ_ENABLE,
                clear: 0,
                set: SECONDARY_COMMON_IRQS,
            },
        );
        program.push(put(GENI_TX_PACKING_0, PACKING_CONFIG_0));
        program.push(put(GENI_TX_PACKING_1, PACKING_CONFIG_1));
        program.push(put(GENI_RX_PACKING_0, PACKING_CONFIG_0));
        program.push(put(GENI_RX_PACKING_1, PACKING_CONFIG_1));
        program.push(put(GENI_BYTE_GRANULARITY, 0));
        assert(program@ =~= fifo_mode_program(self.tx_fifo_words as u32));
        program
    }

    /// The program that sets the bus clock before a transfer.
    pub fn configure_timing(&self) -> (r: [RegOp; 4])
        requires
            self.wf(),
        ensures
            r@ == timing_program(self.profile),
    {
        let profile = self.profile;
        let r = [
            put(GENI_CLOCK_SELECT, 0),
            put(GENI_SERIAL_MASTER_CLOCK, profile.divider * 16 + 1),
            put(
                I2C_SCL_COUNTERS,
                profile.high * 0x10_0000 + profile.low * 0x400 + profile.cycle,
            ),
            put(GENI_MASTER_IRQ_CLEAR, u32::MAX),
        ];
        assert(r@ =~= timing_program(profile));
        r
    }

    /// Starts a combined transfer: nothing to do for an empty list, else the
    /// program that sets the clock.
    pub fn begin_transfer(&self, messages: &Vec<I2cMessage>) -> (r: Result<[RegOp; 4], I2cError>)
        requires
            self.wf(),
        ensures
            match r {
                Ok(program) => messages@.len() > 0 && program@ == timing_program(self.profile),
                Err(e) => messages@.len() == 0 && e == I2cError::InvalidArg,
            },
    {
        if messages.len() == 0 {
            return Err(I2cError::InvalidArg);
        }
        Ok(self.configure_timing())
    }

    /// Starts message `index` of a combined transfer.
    pub fn begin_message(&self, messages: &Vec<I2cMessage>, index: usize) -> (r: Result<
        (Transfer, Vec<RegOp>),
        I2cError,
    >)
        requires
            self.wf(),
            index < messages@.len(),
        ensures
            ({
                let message = messages@[index as int]@;
                let parameters = parameters_of(
                    message,
                    keeps_bus(message_views(messages@), index as int),
                );
                match r {
                    Err(e) => e == I2cError::InvalidArg && (parameters is Err || message.data.len()
                        > u32::MAX),
                    Ok((transfer, program)) => {
                        &&& parameters is Ok
                        &&& message.data.len() <= u32::MAX
                        &&& transfer@.wf()
                        &&& transfer@ == started(message, self.tx_fifo_words as int)
                        &&& program@ == transfer@.start_program(parameters->Ok_0)
                    },
                }
            }),
    {
        let message = &messages[index];
        let keep_bus = index < messages.len() - 1 && !message.stop;
        match address_parameters(message, keep_bus) {
            Ok(parameters) => Transfer::start(message, self.tx_fifo_words, parameters),
            Err(error) => Err(error),
        }
    }

    pub fn set_bus_speed(&mut self, frequency: u32) -> (r: Result<(), I2cError>)
        ensures
            old(self).wf() ==> final(self).wf(),
            match profile_of(frequency) {
                Some(profile) => r is Ok && *final(self) == (QcomGeniI2c {
                    profile,
                    ..*old(self)
                }),
                None => r == Err::<(), I2cError>(I2cError::InvalidArg) && *final(self) == *old(
                    self,
                ),
            },
    {
        match profile_for(frequency) {
            Some(profile) => {
                self.profile = profile;
                Ok(())
            },
            None => Err(I2cError::InvalidArg),
        }
    }

    pub fn bus_speed(&self) -> (r: u32)
        ensures
            r == self.profile.frequency,
    {
        self.profile.frequency
    }

    pub fn bus_number(&self) -> (r: u32)
        ensures
            r == self.bus_number,
    {
        self.bus_number
    }
}

pub open spec fn fifo_mode_program(fifo_words: u32) -> Seq<RegOp> {
    seq![
        written(GENI_GSI_EVENT_ENABLE, 0),
        written(GENI_MASTER_IRQ_CLEAR, u32::MAX),
        written(GENI_SECONDARY_IRQ_CLEAR, u32::MAX),
        RegOp::Update { offset: GENI_CGC_CTRL, clear: 0, set: DEFAULT_CLOCK_GATING },
        written(GENI_OUTPUT_CTRL, DEFAULT_OUTPUT_ENABLE),
        written(GENI_FORCE_DEFAULT, 1),
        RegOp::Update { offset: GENI_TOP_IRQ_ENABLE, clear: 0, set: TOP_IRQ_ENABLES },
        RegOp::Update { offset: GENI_DMA_MODE_ENABLE, clear: 1, set: 0 },
        written(GENI_RX_WATERMARK, (fifo_words - 1) as u32),
        written(GENI_RX_RFR_WATERMARK, fifo_words),
        RegOp::Update { offset: GENI_MASTER_IRQ_ENABLE, clear: 0, set: MASTER_IRQS },
        RegOp::Update { offset: GENI_SECONDARY_IRQ_ENABLE, clear: 0, set: SECONDARY_COMMON_IRQS },
        written(GENI_TX_PACKING_0, PACKING_CONFIG_0),
        written(GENI_TX_PACKING_1, PACKING_CONFIG_1),
        written(GENI_RX_PACKING_0, PACKING_CONFIG_0),
        written(GENI_RX_PACKING_1, PACKING_CONFIG_1),
        written(GENI_BYTE_GRANULARITY, 0),
    ]
}

pub open spec fn timing_program(profile: ClockProfile) -> Seq<RegOp> {
    seq![
        written(GENI_CLOCK_SELECT, 0),
        written(GENI_SERIAL_MASTER_CLOCK, (profile.divider * 16 + 1) as u32),
        written(
            I2C_SCL_COUNTERS,
            (profile.high * 0x10_0000 + profile.low * 0x400 + profile.cycle) as u32,
        ),
        written(GENI_MASTER_IRQ_CLEAR, u32::MAX),
    ]
}

// Messages.

/// The parameters of a message's command: the address above bit 9, and
/// whether the bus is kept and the address left out.
pub open spec fn parameters_of(message: MessageView, keep_bus: bool) -> Result<u32, I2cError> {
    if message.ten_bit || message.address > 0x7f {
        Err(I2cError::InvalidArg)
    } else {
        Ok(
            (message.address * 0x200 + (if keep_bus {
                4int
            } else {
                0
            }) + (if message.no_start {
                0x100int
            } else {
                0
            })) as u32,
        )
    }
}

/// The bus is kept for the next message, unless this one asks for a stop.
pub open spec fn keeps_bus(messages: Seq<MessageView>, index: int) -> bool {
    index + 1 < messages.len() && !messages[index].stop
}

pub open spec fn message_views(messages: Seq<I2cMessage>) -> Seq<MessageView> {
    Seq::new(messages.len(), |i: int| messages[i]@)
}

pub fn address_parameters(message: &I2cMessage, keep_bus: bool) -> (r: Result<u32, I2cError>)
    ensures
        r == parameters_of(message@, keep_bus),
{
    if message.ten_bit || message.address > 0x7f {
        return Err(I2cError::InvalidArg);
    }
    let mut parameters: u32 = message.address as u32 * 0x200;
    if keep_bus {
        parameters += 4;
    }
    if message.no_start {
        parameters += 0x100;
    }
    Ok(parameters)
}

/// What a status says of the bus; the first of these that holds.
pub open spec fn error_in(status: u32) -> Option<I2cError> {
    if has_bit(status, MASTER_NACK) {
        Some(I2cError::Nack)
    } else if has_bit(status, MASTER_ARBITRATION_LOST) {
        Some(I2cError::ArbitrationLost)
    } else if has_bit(status, MASTER_COMMAND_OVERRUN) || has_bit(status, MASTER_ILLEGAL_COMMAND)
        || has_bit(status, MASTER_COMMAND_FAILURE) || has_bit(status, MASTER_BUS_PROTOCOL_ERROR) {
        Some(I2cError::BusError)
    } else {
        None
    }
}

pub fn status_error(status: u32) -> (r: Option<I2cError>)
    ensures
        r == error_in(status),
{
    if is_set(status, MASTER_NACK) {
        Some(I2cError::Nack)
    } else if is_set(status, MASTER_ARBITRATION_LOST) {
        Some(I2cError::ArbitrationLost)
    } else if is_set(status, MASTER_COMMAND_OVERRUN) || is_set(status, MASTER_ILLEGAL_COMMAND)
        || is_set(status, MASTER_COMMAND_FAILURE) || is_set(status, MASTER_BUS_PROTOCOL_ERROR) {
        Some(I2cError::BusError)
    } else {
        None
    }
}

/// Whether a transfer takes too long.
pub fn timed_out(start: u64, now: u64) -> (r: bool)
    ensures
        r == (now - start >= TRANSFER_TIMEOUT_US),
{
    now.saturating_sub(start) >= TRANSFER_TIMEOUT_US
}

// Transfers.

#[derive(Clone, Copy, Debug, Eq, PartialEq, Structural)]
pub enum Direction {
    /// Only the address: the message holds no data.
    Address,
    Write,
    Read,
}

/// One message on its way.
#[derive(Debug)]
pub struct Transfer {
    pub direction: Direction,
    pub data: Vec<u8>,
    /// Bytes sent or received so far.
    pub moved: usize,
    pub fifo_words: usize,
}

#[verifier::ext_equal]
pub struct TransferView {
    pub direction: Direction,
    pub data: Seq<u8>,
    pub moved: int,
    pub fifo_words: int,
}

impl View for Transfer {
    type V = TransferView;

    open spec fn view(&self) -> TransferView {
        TransferView {
            direction: self.direction,
            data: self.data@,
            moved: self.moved as int,
            fifo_words: self.fifo_words as int,
        }
    }
}

/// A message of which nothing has moved yet.
pub open spec fn started(message: MessageView, fifo_words: int) -> TransferView {
    TransferView {
        direction: if message.data.len() == 0 {
            Direction::Address
        } else if message.read {
            Direction::Read
        } else {
            Direction::Write
        },
        data: message.data,
        moved: 0,
        fifo_words,
    }
}

/// What to do after the registers were written.
#[derive(Clone, Copy, Debug)]
pub enum Next {
    /// Read the status again after a poll interval.
    Poll,
    /// Read the receive FIFO, then take its entries in.
    Drain,
    Finished(Result<(), I2cError>),
}

/// Entries that one watermark interrupt writes: as many as fit, and one
/// even where nothing is left.
pub open spec fn fill_count(left: int, fifo_words: int) -> int {
    let needed = (left + 3) / 4;
    if needed == 0 {
        1
    } else if needed <= fifo_words - 1 {
        needed
    } else {
        fifo_words - 1
    }
}

/// The writes of one watermark interrupt. Once everything is in the FIFO the
/// watermark is turned off.
pub open spec fn fill_program(data: Seq<u8>, moved: int, fifo_words: int) -> Seq<RegOp> {
    let count = fill_count(data.len() - moved, fifo_words);
    Seq::new(count as nat, |i: int| written(GENI_TX_FIFO, packed(data, moved + 4 * i))) + if moved
        + 4 * count >= data.len() {
        seq![written(GENI_TX_WATERMARK, 0)]
    } else {
        Seq::empty()
    }
}

impl TransferView {
    pub open spec fn wf(self) -> bool {
        &&& 0 <= self.moved <= self.data.len() <= u32::MAX
        &&& 2 <= self.fifo_words < 0x40
        &&& self.direction == Direction::Address <==> self.data.len() == 0
    }

    /// The program that starts the command.
    pub open spec fn start_program(self, parameters: u32) -> Seq<RegOp> {
        match self.direction {
            Direction::Address => seq![
                written(GENI_MASTER_COMMAND, command(I2C_ADDRESS_ONLY, parameters)),
            ],
            Direction::Write => seq![
                written(I2C_TX_LENGTH, self.data.len() as u32),
                written(GENI_MASTER_COMMAND, command(I2C_WRITE, parameters)),
                written(GENI_TX_WATERMARK, 1),
            ],
            Direction::Read => seq![
                written(I2C_RX_LENGTH, self.data.len() as u32),
                written(GENI_MASTER_COMMAND, command(I2C_READ, parameters)),
            ],
        }
    }

    /// The end of a poll: clear the status, and see whether the command is
    /// done. Then every byte must have moved.
    pub open spec fn conclude(self, program: Seq<RegOp>, status: u32) -> (
        TransferView,
        Seq<RegOp>,
        Next,
    ) {
        (
            self,
            program.push(written(GENI_MASTER_IRQ_CLEAR, status)),
            if !has_bit(status, MASTER_COMMAND_DONE) {
                Next::Poll
            } else if self.moved == self.data.len() {
                Next::Finished(Ok(()))
            } else {
                Next::Finished(Err(I2cError::BusError))
            },
        )
    }

    /// What a status calls for.
    pub open spec fn poll(self, status: u32) -> (TransferView, Seq<RegOp>, Next) {
        match error_in(status) {
            Some(error) => (
                self,
                (if self.direction == Direction::Write {
                    seq![written(GENI_TX_WATERMARK, 0)]
                } else {
                    Seq::empty()
                }).push(written(GENI_MASTER_IRQ_CLEAR, status)),
                Next::Finished(Err(error)),
            ),
            None => match self.direction {
                Direction::Address => if has_bit(status, MASTER_COMMAND_DONE) {
                    (self, seq![written(GENI_MASTER_IRQ_CLEAR, status)], Next::Finished(Ok(())))
                } else {
                    (self, Seq::empty(), Next::Poll)
                },
                Direction::Write => if has_bit(status, MASTER_TX_FIFO_WATERMARK) {
                    let count = fill_count(self.data.len() - self.moved, self.fifo_words);
                    (TransferView {
                        moved: smaller(self.data.len() as int, self.moved + 4 * count),
                        ..self
                    }).conclude(fill_program(self.data, self.moved, self.fifo_words), status)
                } else {
                    self.conclude(Seq::empty(), status)
                },
                Direction::Read => if has_bit(status, MASTER_RX_FIFO_WATERMARK) || has_bit(
                    status,
                    MASTER_RX_FIFO_LAST,
                ) {
                    (self, Seq::empty(), Next::Drain)
                } else {
                    self.conclude(Seq::empty(), status)
                },
            },
        }
    }

    /// Takes FIFO entries in; what does not fit the message is dropped.
    pub open spec fn received(self, words: Seq<u32>) -> TransferView {
        let end = smaller(self.data.len() as int, self.moved + 4 * words.len());
        TransferView {
            data: Seq::new(
                self.data.len(),
                |i: int|
                    if self.moved <= i < end {
                        unpacked(words, i - self.moved)
                    } else {
                        self.data[i]
                    },
            ),
            moved: end,
            ..self
        }
    }
}

impl Transfer {
    /// Starts the transfer of a message: its first writes.
    pub fn start(message: &I2cMessage, fifo_words: usize, parameters: u32) -> (r: Result<
        (Transfer, Vec<RegOp>),
        I2cError,
    >)
        requires
            2 <= fifo_words < 0x40,
        ensures
            match r {
                Err(e) => message@.data.len() > u32::MAX && e == I2cError::InvalidArg,
                Ok((transfer, program)) => {
                    &&& message@.data.len() <= u32::MAX
                    &&& transfer@.wf()
                    &&& transfer@ == started(message@, fifo_words as int)
                    &&& program@ == transfer@.start_program(parameters)
                },
            },
    {
        if message.data.len() > u32::MAX as usize {
            return Err(I2cError::InvalidArg);
        }
        let length: u32 = message.data.len() as u32;
        let direction = if length == 0 {
            Direction::Address
        } else if message.read {
            Direction::Read
        } else {
            Direction::Write
        };
        let transfer = Transfer {
            direction,
            data: crate::bytes::copy_bytes(&message.data),
            moved: 0,
            fifo_words,
        };
        let mut program: Vec<RegOp> = Vec::new();
        match direction {
            Direction::Address => {
                program.push(
                    put(GENI_MASTER_COMMAND, command_word(I2C_ADDRESS_ONLY, parameters)),
                );
            },
            Direction::Write => {
                program.push(put(I2C_TX_LENGTH, length));
                program.push(put(GENI_MASTER_COMMAND, command_word(I2C_WRITE, parameters)));
                program.push(put(GENI_TX_WATERMARK, 1));
            },
            Direction::Read => {
                program.push(put(I2C_RX_LENGTH, length));
                program.push(put(GENI_MASTER_COMMAND, command_word(I2C_READ, parameters)));
            },
        }
        assert(program@ =~= transfer@.start_program(parameters));
        Ok((transfer, program))
    }

    fn fill(&mut self, program: &mut Vec<RegOp>)
        requires
            old(self)@.wf(),
            old(self).direction == Direction::Write,
        ensures
            final(self)@.wf(),
            final(program)@ == old(program)@ + fill_program(
                old(self)@.data,
                old(self)@.moved,
                old(self)@.fifo_words,
            ),
            final(self)@ == (TransferView {
                moved: smaller(
                    old(self)@.data.len() as int,
                    old(self)@.moved + 4 * fill_count(
                        old(self)@.data.len() - old(self)@.moved,
                        old(self)@.fifo_words,
                    ),
                ),
                ..old(self)@
            }),
    {
        let ghost start = self@;
        let ghost before = program@;
        let ghost whole = fill_program(start.data, start.moved, start.fifo_words);
        let left: usize = self.data.len() - self.moved;
        let needed: usize = left / 4 + if left % 4 == 0 {
            0
        } else {
            1
        };
        let count: usize = if needed == 0 {
            1
        } else if needed <= self.fifo_words - 1 {
            needed
        } else {
            self.fifo_words - 1
        };
        assert(count == fill_count(left as int, start.fifo_words));
        let mut i: usize = 0;
        while i < count
            invariant
                i <= count,
                count == fill_count(start.data.len() - start.moved, start.fifo_words),
                count <= 0x40,
                start.wf(),
                self@ == (TransferView {
                    moved: smaller(start.data.len() as int, start.moved + 4 * i),
                    ..start
                }),
                program@ == before + Seq::new(
                    i as nat,
                    |k: int| written(GENI_TX_FIFO, packed(start.data, start.moved + 4 * k)),
                ),
            decreases count - i,
        {
            proof {
                if start.moved + 4 * i > start.data.len() {
                    assert(4 * (count - 1) < start.data.len() - start.moved || count == 1);
                }
            }
            program.push(put(GENI_TX_FIFO, pack_word(&self.data, self.moved)));
            self.moved = if self.data.len() - self.moved <= 4 {
                self.data.len()
            } else {
                self.moved + 4
            };
            i += 1;
            assert(program@ =~= before + Seq::new(
                i as nat,
                |k: int| written(GENI_TX_FIFO, packed(start.data, start.moved + 4 * k)),
            ));
        }
        if self.moved == self.data.len() {
            program.push(put(GENI_TX_WATERMARK, 0));
        }
        assert(program@ =~= before + whole);
    }

    fn conclude(&self, program: &mut Vec<RegOp>, status: u32) -> (r: Next)
        ensures
            (self@, final(program)@, r) == self@.conclude(old(program)@, status),
    {
        program.push(put(GENI_MASTER_IRQ_CLEAR, status));
        if !is_set(status, MASTER_COMMAND_DONE) {
            Next::Poll
        } else if self.moved == self.data.len() {
            Next::Finished(Ok(()))
        } else {
            Next::Finished(Err(I2cError::BusError))
        }
    }

    /// What a status calls for.
    pub fn poll(&mut self, status: u32) -> (r: (Vec<RegOp>, Next))
        requires
            old(self)@.wf(),
        ensures
            final(self)@.wf(),
            (final(self)@, r.0@, r.1) == old(self)@.poll(status),
    {
        let mut program: Vec<RegOp> = Vec::new();
        if let Some(error) = status_error(status) {
            if let Direction::Write = self.direction {
                program.push(put(GENI_TX_WATERMARK, 0));
            }
            program.push(put(GENI_MASTER_IRQ_CLEAR, status));
            assert(program@ =~= old(self)@.poll(status).1);
            return (program, Next::Finished(Err(error)));
        }
        let ghost start = self@;
        match self.direction {
            Direction::Address => {
                if is_set(status, MASTER_COMMAND_DONE) {
                    program.push(put(GENI_MASTER_IRQ_CLEAR, status));
                    assert(program@ =~= seq![written(GENI_MASTER_IRQ_CLEAR, status)]);
                    return (program, Next::Finished(Ok(())));
                }
                (program, Next::Poll)
            },
            Direction::Write => {
                if is_set(status, MASTER_TX_FIFO_WATERMARK) {
                    self.fill(&mut program);
                    assert(program@ =~= fill_program(start.data, start.moved, start.fifo_words));
                }
                let next = self.conclude(&mut program, status);
                (program, next)
            },
            Direction::Read => {
                if is_set(status, MASTER_RX_FIFO_WATERMARK) || is_set(
                    status,
                    MASTER_RX_FIFO_LAST,
                ) {
                    return (program, Next::Drain);
                }
                let next = self.conclude(&mut program, status);
                (program, next)
            },
        }
    }

    /// Takes in the FIFO entries that a status announced.
    pub fn drained(&mut self, status: u32, words: &[u32]) -> (r: (Vec<RegOp>, Next))
        requires
            old(self)@.wf(),
            words@.len() < 0x200_0000,
        ensures
            final(self)@.wf(),
            (final(self)@, r.0@, r.1) == old(self)@.received(words@).conclude(
                Seq::empty(),
                status,
            ),
    {
        let ghost start = self@;
        let available: usize = words.len() * 4;
        let length: usize = self.data.len();
        let left: usize = length - self.moved;
        let count: usize = if available <= left {
            available
        } else {
            left
        };
        let from: usize = self.moved;
        let mut i: usize = 0;
        while i < count
            invariant
                i <= count <= words@.len() * 4,
                words@.len() < 0x200_0000,
                from + count <= length,
                length == start.data.len() == self.data@.len(),
                from == start.moved,
                self@ == (TransferView { data: self.data@, ..start }),
                forall|j: int|
                    from <= j < from + i ==> #[trigger] self.data@[j] == unpacked(words@, j - from),
                forall|j: int|
                    0 <= j < self.data@.len() && !(from <= j < from + i)
                        ==> #[trigger] self.data@[j] == start.data[j],
            decreases count - i,
        {
            self.data.set(from + i, unpack_byte(words, i));
            i += 1;
        }
        self.moved = from + count;
        assert(self@ =~= start.received(words@));
        let mut program: Vec<RegOp> = Vec::new();
        assert(program@ =~= Seq::<RegOp>::empty());
        let next = self.conclude(&mut program, status);
        (program, next)
    }

    /// The writes that abandon a transfer that takes too long; then the
    /// abort is awaited.
    pub fn abandon(&self) -> (r: Vec<RegOp>)
        ensures
            r@ == (if self.direction == Direction::Write {
                seq![written(GENI_TX_WATERMARK, 0)]
            } else {
                Seq::empty()
            }).push(written(GENI_MASTER_COMMAND_CONTROL, MASTER_COMMAND_ABORT)),
    {
        let mut program: Vec<RegOp> = Vec::new();
        if let Direction::Write = self.direction {
            program.push(put(GENI_TX_WATERMARK, 0));
        }
        program.push(put(GENI_MASTER_COMMAND_CONTROL, MASTER_COMMAND_ABORT));
        assert(program@ =~= (if self.direction == Direction::Write {
            seq![written(GENI_TX_WATERMARK, 0)]
        } else {
            Seq::empty()
        }).push(written(GENI_MASTER_COMMAND_CONTROL, MASTER_COMMAND_ABORT)));
        program
    }
}

/// The write that acknowledges an abort, once a status shows it.
pub fn abort_acknowledged(status: u32) -> (r: Option<RegOp>)
    ensures
        r == (if has_bit(status, MASTER_COMMAND_ABORTED) {
            Some(written(GENI_MASTER_IRQ_CLEAR, status))
        } else {
            None
        }),
{
    if is_set(status, MASTER_COMMAND_ABORTED) {
        Some(put(GENI_MASTER_IRQ_CLEAR, status))
    } else {
        None
    }
}

// Probing.

/// The start and the size of the register window.
pub fn check_resource(resource: Option<(usize, usize)>) -> (r: Result<
    (usize, usize),
    &'static str,
>)
    ensures
        r == (match resource {
            None => Err::<(usize, usize), &'static str>("qcom-geni-i2c: no memory resource"),
            Some((start, end)) => match span(start, end) {
                None => Err("qcom-geni-i2c: invalid memory resource"),
                Some(size) => Ok((start, size as usize)),
            },
        }),
{
    match resource {
        None => Err("qcom-geni-i2c: no memory resource"),
        Some((start, end)) => match resource_size(start, end) {
            None => Err("qcom-geni-i2c: invalid memory resource"),
            Some(size) => Ok((start, size)),
        },
    }
}

/// The bus frequency and the handle of a controller.
pub fn read_properties(
    clock_frequency: Option<usize>,
    phandle: Option<usize>,
) -> (r: Result<(u32, u32), &'static str>)
    ensures
        r == (match as_u32(phandle) {
            None => Err::<(u32, u32), &'static str>("qcom-geni-i2c: missing phandle"),
            Some(handle) => Ok(
                (
                    match as_u32(clock_frequency) {
                        Some(frequency) => frequency,
                        None => DEFAULT_FREQUENCY,
                    },
                    handle,
                ),
            ),
        }),
{
    let frequency: u32 = match read_u32_property(clock_frequency) {
        Some(frequency) => frequency,
        None => DEFAULT_FREQUENCY,
    };
    match read_u32_property(phandle) {
        Some(handle) => Ok((frequency, handle)),
        None => Err("qcom-geni-i2c: missing phandle"),
    }
}

// Laws.

/// The entries that one message's fills write, end to end, hold its bytes in
/// order: a fill takes up where the last one stopped.
pub proof fn fills_continue_in_order(data: Seq<u8>, moved: int, fifo_words: int, index: int)
    requires
        0 <= moved <= index < data.len(),
        2 <= fifo_words,
        index < moved + 4 * fill_count(data.len() - moved, fifo_words),
    ensures
        unpacked(
            packed_words(data, moved, fill_count(data.len() - moved, fifo_words)),
            index - moved,
        ) == data[index],
{
    packed_bytes_are_unpacked(
        data,
        moved,
        fill_count(data.len() - moved, fifo_words),
        index - moved,
    );
}

/// A successful transfer moved every byte of its message.
pub proof fn success_means_complete(transfer: TransferView, status: u32, words: Seq<u32>)
    requires
        transfer.wf(),
    ensures
        transfer.poll(status).2 == Next::Finished(Ok(())) ==> transfer.poll(status).0.moved
            == transfer.data.len() || transfer.direction == Direction::Address,
        transfer.received(words).conclude(Seq::empty(), status).2 == Next::Finished(Ok(()))
            ==> transfer.received(words).moved == transfer.data.len(),
{
}

/// Keeps the driver linked into builds that load it by name.
pub fn force_link() {
}

} // verus!
