//! What a message looks like on the bus.

use vstd::prelude::*;

use crate::geni::{command, packed_bytes_are_unpacked, packed_words};
use crate::geni_i2c::{
    error_in, fifo_mode_program, fill_count, fill_program, keeps_bus, parameters_of, profile_of,
    started, timed_out, timing_program, ClockProfile, Direction, Next, QcomGeniI2c, TransferView,
};
use crate::i2c::{I2cError, MessageView};
use crate::mmio::{has_bit, written, RegOp};

verus! {

/// A command word holds what is to be done in its five high bits and how in the
/// others.
pub proof fn command_words_hold_both_parts(opcode: u32, parameters: u32)
    requires
        opcode < 32,
        parameters < 0x800_0000,
    ensures
        command(opcode, parameters) as int / 0x800_0000 == opcode,
        command(opcode, parameters) as int % 0x800_0000 == parameters,
{
}

/// The parameters of a message name its seven-bit address, whether the bus is
/// kept behind it, and whether it goes without a start. Other addresses cannot
/// be sent to.
pub proof fn parameters_name_the_address(message: MessageView, keep_bus: bool)
    ensures
        parameters_of(message, keep_bus) is Ok <==> !message.ten_bit && message.address < 0x80,
        parameters_of(message, keep_bus) matches Ok(parameters) ==> {
            &&& parameters as int / 0x200 == message.address
            &&& parameters as int / 0x100 % 2 == 1 <==> message.no_start
            &&& parameters as int % 0x100 == if keep_bus {
                4int
            } else {
                0int
            }
        },
        parameters_of(message, keep_bus) matches Err(e) ==> e == I2cError::InvalidArg,
{
}

/// The bus is let go behind the last message and behind every message that asks
/// for a stop, and kept behind all others.
pub proof fn the_bus_is_let_go_at_the_end(messages: Seq<MessageView>, index: int)
    requires
        0 <= index < messages.len(),
    ensures
        index == messages.len() - 1 ==> !keeps_bus(messages, index),
        index < messages.len() - 1 ==> (keeps_bus(messages, index) <==> !messages[index].stop),
{
}

/// A missing acknowledgement is told before a lost arbitration, and that before
/// any other fault; without a fault there is no error.
pub proof fn faults_are_told_apart(status: u32)
    ensures
        error_in(status) == Some(I2cError::Nack) <==> has_bit(status, 0x400),
        error_in(status) == Some(I2cError::ArbitrationLost) <==> !has_bit(status, 0x400)
            && has_bit(status, 0x2000),
        error_in(status) is None <==> !has_bit(status, 0x400) && !has_bit(status, 0x2000)
            && !has_bit(status, 2) && !has_bit(status, 4) && !has_bit(status, 8) && !has_bit(
            status,
            0x1000,
        ),
        error_in(status) is Some ==> error_in(status) == Some(I2cError::Nack) || error_in(status)
            == Some(I2cError::ArbitrationLost) || error_in(status) == Some(I2cError::BusError),
{
}

/// A message is announced with its length and direction: data goes out in a
/// write, comes in in a read, and without data only the address is sent.
pub proof fn messages_are_announced(message: MessageView, fifo_words: int, parameters: u32)
    ensures
        ({
            let transfer = started(message, fifo_words);
            let program = transfer.start_program(parameters);
            &&& transfer.data == message.data && transfer.moved == 0
            &&& message.data.len() == 0 ==> program == seq![
                written(0x600, command(4, parameters)),
            ]
            &&& message.data.len() > 0 && message.read ==> program == seq![
                written(0x270, message.data.len() as u32),
                written(0x600, command(2, parameters)),
            ]
            &&& message.data.len() > 0 && !message.read ==> program == seq![
                written(0x26c, message.data.len() as u32),
                written(0x600, command(1, parameters)),
                written(0x80c, 1),
            ]
        }),
{
}

/// What a device puts into the FIFO is what the message receives, in order and
/// from where it stopped; what came before stays.
pub proof fn received_bytes_are_the_sent_ones(
    transfer: TransferView,
    bytes: Seq<u8>,
    count: int,
    i: int,
)
    requires
        transfer.wf(),
        0 <= count,
        0 <= i < transfer.data.len(),
        transfer.data.len() - transfer.moved <= bytes.len(),
    ensures
        ({
            let after = transfer.received(packed_words(bytes, 0, count));
            &&& after.data.len() == transfer.data.len()
            &&& after.moved == if transfer.moved + 4 * count <= transfer.data.len() {
                transfer.moved + 4 * count
            } else {
                transfer.data.len() as int
            }
            &&& transfer.moved <= i < after.moved ==> after.data[i] == bytes[i - transfer.moved]
            &&& !(transfer.moved <= i < after.moved) ==> after.data[i] == transfer.data[i]
        }),
{
    let after = transfer.received(packed_words(bytes, 0, count));
    if transfer.moved <= i < after.moved {
        packed_bytes_are_unpacked(bytes, 0, count, i - transfer.moved);
    }
}

/// A transfer that is done with bytes left over has failed.
pub proof fn an_early_end_is_a_failure(transfer: TransferView, status: u32)
    requires
        transfer.wf(),
        has_bit(status, 1),
        error_in(status) is None,
        !has_bit(status, 0x4000_0000),
        !has_bit(status, 0x400_0000),
        !has_bit(status, 0x800_0000),
    ensures
        transfer.poll(status).2 == Next::Finished(
            if transfer.moved == transfer.data.len() {
                Ok::<(), I2cError>(())
            } else {
                Err(I2cError::BusError)
            },
        ) || transfer.direction == Direction::Address,
        transfer.direction == Direction::Address ==> transfer.poll(status).2 == Next::Finished(
            Ok(()),
        ),
{
}

/// The bus timing is written field by field: divider, high, low and cycle.
pub proof fn timings_are_written_in_fields(frequency: u32)
    requires
        profile_of(frequency) is Some,
    ensures
        ({
            let profile = profile_of(frequency)->0;
            &&& profile.frequency == frequency
            &&& timing_program(profile)[1] matches RegOp::Write { offset, value } && offset == 0x48
                && value as int / 16 == profile.divider && value % 16 == 1
            &&& timing_program(profile)[2] matches RegOp::Write { offset, value } && offset == 0x278
                && value as int / 0x10_0000 == profile.high && value as int / 0x400 % 0x400
                == profile.low && value as int % 0x400 == profile.cycle
            &&& profile.high + profile.low < profile.cycle
        }),
        frequency == 100_000 || frequency == 400_000 || frequency == 1_000_000,
{
}

/// An engine is taken if its firmware speaks I2C (3), its FIFOs are in use
/// and at least two words deep, and the frequency is one of three.
pub proof fn engines_are_recognised(
    bus: u32,
    frequency: u32,
    firmware: u32,
    disabled: u32,
    parameter: u32,
    r: Result<QcomGeniI2c, &'static str>,
)
    requires
        call_ensures(QcomGeniI2c::new, (bus, frequency, firmware, disabled, parameter), r),
    ensures
        r is Ok <==> {
            &&& frequency == 100_000 || frequency == 400_000 || frequency == 1_000_000
            &&& firmware as int / 256 % 256 == 3
            &&& disabled % 2 == 0
            &&& parameter as int / 65536 % 64 >= 2
        },
        r matches Ok(controller) ==> {
            &&& controller.bus_number == bus
            &&& controller.tx_fifo_words == parameter as int / 65536 % 64
            &&& controller.profile.frequency == frequency
        },
{
}

/// The engine is put in FIFO mode: events, interrupts and clocks, the
/// watermarks at its depth, and bytes packed lowest first.
pub proof fn engines_are_put_in_fifo_mode(words: u32)
    requires
        0 < words < 64,
    ensures
        fifo_mode_program(words) == seq![
            RegOp::Write { offset: 0xe18, value: 0 },
            RegOp::Write { offset: 0x618, value: u32::MAX },
            RegOp::Write { offset: 0x648, value: u32::MAX },
            RegOp::Update { offset: 0x028, clear: 0, set: 0x7f },
            RegOp::Write { offset: 0x024, value: 0x7f },
            RegOp::Write { offset: 0x020, value: 1 },
            RegOp::Update { offset: 0xe1c, clear: 0, set: 0xc },
            RegOp::Update { offset: 0x258, clear: 1, set: 0 },
            RegOp::Write { offset: 0x810, value: (words - 1) as u32 },
            RegOp::Write { offset: 0x814, value: words },
            RegOp::Update { offset: 0x614, clear: 0, set: 0x7fc0_347f },
            RegOp::Update { offset: 0x644, clear: 0, set: 0x0300_3e3e },
            RegOp::Write { offset: 0x260, value: 0x0007_f8fe },
            RegOp::Write { offset: 0x264, value: 0x000f_fefe },
            RegOp::Write { offset: 0x284, value: 0x0007_f8fe },
            RegOp::Write { offset: 0x288, value: 0x000f_fefe },
            RegOp::Write { offset: 0x254, value: 0 },
        ],
{
}

/// A fill leaves one word of the FIFO free, and takes no more words than are
/// needed; with the last of them the watermark goes to zero.
pub proof fn fills_stop_at_the_watermark(data: Seq<u8>, moved: int, words: int)
    requires
        0 <= moved < data.len(),
        2 <= words < 64,
    ensures
        ({
            let left = data.len() - moved;
            let count = fill_count(left, words);
            let program = fill_program(data, moved, words);
            &&& 0 < count < words
            &&& 4 * count < left ==> count == words - 1 && program.len() == count
            &&& 4 * count >= left ==> 4 * count < left + 4 && program.len() == count + 1
                && program[count] == (RegOp::Write { offset: 0x80c, value: 0 })
            &&& forall|i: int|
                0 <= i < count ==> (#[trigger] program[i]) is Write && program[i]->Write_offset
                    == 0x700
        }),
{
}

/// A read is drained when the FIFO is filled (bit 26) or holds the last word
/// (bit 27); a write is filled when the FIFO has room (bit 30); an address is
/// done when the command is (bit 0).
pub proof fn statuses_call_for_their_step(transfer: TransferView, status: u32)
    requires
        transfer.wf(),
        error_in(status) is None,
    ensures
        ({
            let (next, program, then_do) = transfer.poll(status);
            let done = status % 2 == 1;
            &&& transfer.direction == Direction::Read ==> (then_do is Drain <==> status as int
                / 0x400_0000 % 2 == 1 || status as int / 0x800_0000 % 2 == 1)
            &&& transfer.direction == Direction::Address ==> (then_do is Finished <==> done)
            &&& transfer.direction == Direction::Write && transfer.moved < transfer.data.len() ==> (
            next.moved > transfer.moved <==> status as int / 0x4000_0000 % 2 == 1)
            &&& then_do is Poll ==> !done
        }),
{
    if transfer.direction == Direction::Write && transfer.moved < transfer.data.len() {
        fills_stop_at_the_watermark(transfer.data, transfer.moved, transfer.fifo_words);
    }
}

/// A transfer is given up after a tenth of a second.
pub proof fn transfers_last_a_tenth_of_a_second(start: u64, now: u64, r: bool)
    requires
        call_ensures(timed_out, (start, now), r),
    ensures
        r <==> now >= start + 100_000,
{
}

/// The clock is taken from the first source, divided, with its high, low and
/// whole counts in one register; pending interrupts are cleared.
pub proof fn clocks_are_set(profile: ClockProfile)
    requires
        profile.divider < 0x1000,
        profile.high < 0x400,
        profile.low < 0x400,
        profile.cycle < 0x400,
    ensures
        timing_program(profile) == seq![
            RegOp::Write { offset: 0x07c, value: 0 },
            RegOp::Write { offset: 0x048, value: (16 * profile.divider + 1) as u32 },
            RegOp::Write {
                offset: 0x278,
                value: (0x10_0000 * profile.high + 0x400 * profile.low + profile.cycle) as u32,
            },
            RegOp::Write { offset: 0x618, value: u32::MAX },
        ],
{
}

} // verus!
