//! What a transaction looks like on the bus.

use vstd::prelude::*;

use crate::geni::{command, packed, packed_words, unpacked};
use crate::geni_spi::{
    available_bytes, chip_selects_of, clock_write, control_wait, divider_for, fifo_mode_program,
    fill_count, fill_program, is_error, lengths_fit, recovery_program, switch_of,
    ExternalChipSelect, Next, QcomGeniSpi, Recovery, RunView, Switch, Wait, WaitResult,
};
use crate::geni_spi::transaction::{requested_speed, Stage, StepView, TransactionView};
use crate::mmio::{has_bit, written, RegOp};
use crate::spi::{SegmentView, SpiError};

verus! {

/// The clock is divided no further than it takes not to exceed the request, and
/// the divider is what is written.
pub proof fn the_clock_is_divided_no_further_than_needed(requested_hz: u32)
    requires
        0 < requested_hz <= 19_200_000,
        divider_for(requested_hz) < 0xfff,
    ensures
        divider_for(requested_hz) * requested_hz >= 19_200_000,
        (divider_for(requested_hz) - 1) * requested_hz < 19_200_000,
        clock_write(requested_hz) matches RegOp::Write { offset, value } && offset == 0x48
            && value as int / 16 == divider_for(requested_hz) && value % 16 == 1,
{
    let wanted = requested_hz as int;
    let quotient = (19_200_000 + wanted - 1) / wanted;
    assert(quotient >= 1 && quotient * wanted >= 19_200_000 && (quotient - 1) * wanted < 19_200_000)
        by (nonlinear_arith)
        requires
            0 < wanted <= 19_200_000,
            quotient == (19_200_000 + wanted - 1) / wanted,
    ;
}

/// A line is driven to the level that asserts or releases it, and the engine's
/// own selects are used only where there are no lines.
pub proof fn selects_are_driven_to_their_level(
    lines: Seq<ExternalChipSelect>,
    index: u8,
    asserted: bool,
    r: Switch,
)
    requires
        switch_of(lines, index, asserted, r),
    ensures
        index < lines.len() ==> (r matches Switch::Line { line, level } && line
            == lines[index as int] && (line.active_low ==> level == !asserted) && (!line.active_low
            ==> level == asserted)),
        index >= lines.len() && (lines.len() > 0 || index >= 4) ==> r is Rejected,
        lines.len() == 0 && index < 4 ==> (r matches Switch::Command { program } && program@[1]
            == written(
            0x600,
            command(
                if asserted {
                    8
                } else {
                    9
                },
                0,
            ),
        )),
{
}

/// The words that fill the FIFO hold the next bytes to send, in order, and there
/// is always room for them.
pub proof fn fills_hold_the_next_bytes(tx: Seq<u8>, sent: int, tx_words: int, i: int)
    requires
        0 <= sent <= tx.len(),
        4 <= tx_words < 0x100,
        0 <= i < fill_count(tx.len() - sent, tx_words),
    ensures
        fill_count(tx.len() - sent, tx_words) <= 4 * (tx_words - 1),
        sent + i < tx.len(),
        ({
            let program = fill_program(tx, sent, tx_words);
            &&& i / 4 < program.len()
            &&& program[i / 4] matches RegOp::Write { offset, value } && offset == 0x700
                && unpacked(seq![value], i % 4) == tx[sent + i]
        }),
{
    let count = fill_count(tx.len() - sent, tx_words);
    let part = tx.take(sent + count);
    let at = sent + 4 * (i / 4);
    let word = packed(part, at);
    assert(fill_program(tx, sent, tx_words)[i / 4] == written(0x700, word));
    assert(part[sent + i] == tx[sent + i]);
    let words = packed_words(part, sent, (count + 3) / 4);
    crate::geni::packed_bytes_are_unpacked(part, sent, (count + 3) / 4, i);
    assert(words[i / 4] == word);
    assert((i % 4) / 4 == 0 && (i % 4) % 4 == i % 4);
    assert(seq![word][0] == word);
    assert(unpacked(seq![word], i % 4) == unpacked(words, i));
}

/// Of the words in the FIFO the last one may be partly filled: its bytes are
/// counted as it says.
pub proof fn the_last_word_may_be_partly_filled(words: int, valid: int, last: bool)
    requires
        0 < words < 0x200_0000,
        0 <= valid < 8,
    ensures
        ({
            let status = (words + valid * 0x1000_0000 + if last {
                0x8000_0000int
            } else {
                0int
            }) as u32;
            available_bytes(status) == if last && 1 <= valid <= 3 {
                4 * (words - 1) + valid
            } else {
                4 * words
            }
        }),
{
    let status = words + valid * 0x1000_0000 + if last {
        0x8000_0000int
    } else {
        0int
    };
    assert(status % 0x200_0000 == words);
    assert(status / 0x1000_0000 % 8 == valid);
    assert(status / 0x8000_0000 % 2 == 1 <==> last);
}

/// What the device puts into the FIFO is what the segment receives, in order and
/// from where it stopped; what came before stays.
pub proof fn received_bytes_are_the_sent_ones(
    run: RunView,
    rx_status: u32,
    bytes: Seq<u8>,
    i: int,
)
    requires
        run.wf(),
        0 <= i < run.rx.len(),
        bytes.len() >= available_bytes(rx_status),
    ensures
        ({
            let words = packed_words(bytes, 0, rx_status as int % 0x200_0000);
            let after = run.taken(rx_status, words);
            &&& after.rx.len() == run.rx.len()
            &&& run.received <= i < after.received ==> after.rx[i] == bytes[i - run.received]
            &&& !(run.received <= i < after.received) ==> after.rx[i] == run.rx[i]
            &&& after.received == run.received + available_bytes(rx_status) || after.received
                == run.rx.len()
        }),
{
    let count = rx_status as int % 0x200_0000;
    let words = packed_words(bytes, 0, count);
    let after = run.taken(rx_status, words);
    if run.received <= i < after.received {
        crate::geni::packed_bytes_are_unpacked(bytes, 0, count, i - run.received);
    }
}

/// A command is announced with the length of each direction that it has, sends,
/// receives or does both, and leaves the chip selected.
pub proof fn commands_are_announced(run: RunView)
    requires
        run.wf(),
    ensures
        ({
            let program = run.start_program();
            let opcode = if run.rx.len() == 0 {
                1u32
            } else if run.tx.len() == 0 {
                2u32
            } else {
                3u32
            };
            &&& program.last() == written(0x600, command(opcode, 4))
            &&& run.tx.len() > 0 ==> program.contains(written(0x26c, run.tx.len() as u32))
            &&& run.rx.len() > 0 ==> program.contains(written(0x270, run.rx.len() as u32))
        }),
{
    let program = run.start_program();
    if run.tx.len() > 0 {
        assert(program[1] == written(0x26c, run.tx.len() as u32));
    }
    if run.rx.len() > 0 {
        assert(program[program.len() - 2] == written(0x270, run.rx.len() as u32));
    }
}

/// A status with any of the seven faults ends a command, and one without does
/// not count as a fault.
pub proof fn faults_end_a_command(run: RunView, status: u32)
    requires
        run.wf(),
    ensures
        is_error(status) <==> has_bit(status, 2) || has_bit(status, 4) || has_bit(status, 8)
            || has_bit(status, 0x100_0000) || has_bit(status, 0x200_0000) || has_bit(
            status,
            0x1000_0000,
        ) || has_bit(status, 0x2000_0000),
        is_error(status) && status != 0 ==> run.poll(status).2 == Next::Recover(
            SpiError::BusError,
        ),
{
}

/// A transaction keeps to one chip and one speed: that of the first segment that
/// names one, or the bus speed.
pub proof fn a_transaction_keeps_one_speed(
    segments: Seq<SegmentView>,
    bus_speed: u32,
    first: int,
)
    requires
        0 <= first <= segments.len(),
        forall|i: int| 0 <= i < first ==> (#[trigger] segments[i]).speed_hz == 0,
        first < segments.len() ==> segments[first].speed_hz != 0,
    ensures
        requested_speed(segments, bus_speed) == if first < segments.len() {
            segments[first].speed_hz
        } else {
            bus_speed
        },
    decreases segments.len(),
{
    if segments.len() > 0 && first > 0 {
        assert(segments[0].speed_hz == 0);
        let rest = segments.skip(1);
        assert forall|i: int| 0 <= i < first - 1 implies (#[trigger] rest[i]).speed_hz == 0 by {
            assert(rest[i] == segments[i + 1]);
        }
        if first < segments.len() {
            assert(rest[first - 1] == segments[first]);
        }
        a_transaction_keeps_one_speed(rest, bus_speed, first - 1);
    }
}

/// A segment sends its own data where it writes and receives into it where it
/// reads; no other segment changes, and the next one follows.
pub proof fn segments_move_their_own_data(
    transaction: TransactionView,
    index: usize,
    rx: Seq<u8>,
    other: int,
)
    requires
        index < transaction.segments.len(),
        transaction.stage == (Stage::Before { index }),
        transaction.segments[index as int].read_until is None,
        transaction.segments[index as int].read || transaction.segments[index as int].write,
        0 <= other < transaction.segments.len(),
    ensures
        ({
            let segment = transaction.segments[index as int];
            let begun = transaction.step(Ok(()), Seq::empty());
            let done = begun.0.step(Ok(()), rx);
            let next = done.0.step(Ok(()), Seq::empty());
            &&& begun.1 matches StepView::Run { tx, rx: into } && (segment.write ==> tx
                == segment.data) && (!segment.write ==> tx.len() == 0) && (segment.read ==> into
                == segment.data) && (!segment.read ==> into.len() == 0)
            &&& done.1 == (StepView::Delay { us: segment.delay_after_us })
            &&& done.0.segments[other].data == if other == index && segment.read {
                rx
            } else {
                transaction.segments[other].data
            }
            &&& index + 1 < transaction.segments.len() ==> next.0.stage == (Stage::Before {
                index: (index + 1) as usize,
            }) && next.1 == (StepView::Delay {
                us: transaction.segments[index + 1].delay_before_us,
            })
            &&& index + 1 == transaction.segments.len() ==> next.1 == (StepView::Select {
                cs: transaction.cs,
                asserted: false,
            })
        }),
{
}

/// Reading until a byte matches takes each byte, stops at the first that
/// matches, and gives up after as many as allowed.
pub proof fn polling_stops_at_a_match(transaction: TransactionView, byte: u8)
    requires
        transaction.wf(),
        transaction.stage is Polling,
    ensures
        ({
            let index = transaction.stage->Polling_index;
            let condition = transaction.stage->Polling_condition;
            let before = transaction.segments[index as int].data;
            let next = transaction.step(Ok(()), seq![byte]);
            &&& next.0.segments[index as int].data == before.push(byte)
            &&& byte & condition.mask == condition.value ==> next.0.stage == (Stage::After {
                index,
            })
            &&& byte & condition.mask != condition.value ==> if before.len() + 1
                < condition.max_bytes {
                next.0.stage == transaction.stage
            } else {
                next.0.stage == (Stage::Releasing { outcome: Err(SpiError::Timeout) })
            }
        }),
{
}

/// An engine is taken if its firmware speaks SPI (1), its FIFOs are in use
/// and at least four words deep, and a frequency is asked for.
pub proof fn engines_are_recognised(
    bus: u32,
    hz: u32,
    lines: Vec<ExternalChipSelect>,
    firmware: u32,
    disabled: u32,
    tx: u32,
    rx: u32,
    r: Result<QcomGeniSpi, &'static str>,
)
    requires
        call_ensures(QcomGeniSpi::new, (bus, hz, lines, firmware, disabled, tx, rx), r),
    ensures
        r is Ok <==> {
            &&& firmware as int / 256 % 256 == 1
            &&& disabled % 2 == 0
            &&& tx as int / 65536 % 256 >= 4 && rx as int / 65536 % 256 >= 4
            &&& hz > 0
        },
        r matches Ok(controller) ==> {
            &&& controller.bus_number == bus
            &&& controller.tx_fifo_words == tx as int / 65536 % 256
            &&& controller.rx_fifo_words == rx as int / 65536 % 256
            &&& controller.chip_selects == lines
        },
{
}

/// The engine is put in FIFO mode: events, interrupts and clocks, the
/// watermarks below its depth, eight-bit words in mode 0, and bytes packed
/// lowest first.
pub proof fn engines_are_put_in_fifo_mode(words: int)
    requires
        4 <= words < 256,
    ensures
        fifo_mode_program(words) == seq![
            RegOp::Write { offset: 0xe18, value: 0 },
            RegOp::Write { offset: 0x618, value: u32::MAX },
            RegOp::Write { offset: 0x648, value: u32::MAX },
            RegOp::Update { offset: 0x028, clear: 0, set: 0x7f },
            RegOp::Write { offset: 0x024, value: 0x7f },
            RegOp::Write { offset: 0x020, value: 1 },
            RegOp::Update { offset: 0xe1c, clear: 0, set: 0xc },
            RegOp::Update { offset: 0x258, clear: 1, set: 0 },
            RegOp::Write { offset: 0x810, value: (words - 3) as u32 },
            RegOp::Write { offset: 0x814, value: (words - 2) as u32 },
            RegOp::Write { offset: 0x614, value: 0x7fc0_007f },
            RegOp::Write { offset: 0x644, value: 0x0300_3e3e },
            RegOp::Write { offset: 0x22c, value: 0 },
            RegOp::Write { offset: 0x224, value: 0 },
            RegOp::Write { offset: 0x230, value: 0 },
            RegOp::Write { offset: 0x25c, value: 0 },
            RegOp::Write { offset: 0x24c, value: 0 },
            RegOp::Write { offset: 0x268, value: 4 },
            RegOp::Write { offset: 0x260, value: 0x0007_f8fe },
            RegOp::Write { offset: 0x264, value: 0x000f_fefe },
            RegOp::Write { offset: 0x284, value: 0x0007_f8fe },
            RegOp::Write { offset: 0x288, value: 0x000f_fefe },
            RegOp::Write { offset: 0x254, value: 0 },
        ],
{
}

/// A command moves something, at most 0xffffff bytes each way, and as much
/// out as in if it does both.
pub proof fn lengths_are_limited(tx: int, rx: int)
    requires
        0 <= tx,
        0 <= rx,
    ensures
        lengths_fit(tx, rx) <==> {
            &&& tx + rx > 0
            &&& tx <= 16_777_215 && rx <= 16_777_215
            &&& tx > 0 && rx > 0 ==> tx == rx
        },
{
}

/// A fill leaves one word of the FIFO free, and the watermark goes to zero
/// with the last byte.
pub proof fn fills_stop_at_the_watermark(tx: Seq<u8>, sent: int, words: int)
    requires
        0 <= sent <= tx.len(),
        4 <= words < 256,
    ensures
        ({
            let left = tx.len() - sent;
            let count = fill_count(left, words);
            let program = fill_program(tx, sent, words);
            &&& left <= 4 * (words - 1) ==> count == left && program.len() == (left + 3) / 4 + 1
                && program[program.len() - 1] == (RegOp::Write { offset: 0x80c, value: 0 })
            &&& left > 4 * (words - 1) ==> count == 4 * (words - 1) && program.len() == words - 1
        }),
{
}

/// A status without anything costs a microsecond and one of the polls; the
/// last poll ends in a timeout.
pub proof fn polls_run_out(run: RunView)
    requires
        run.wf(),
    ensures
        run.poll(0).1 == seq![RegOp::Delay { us: 1 }],
        run.left > 1 ==> run.poll(0).0 == (RunView { left: run.left - 1, ..run }) && run.poll(0).2
            == Next::Poll,
        run.left == 1 ==> run.poll(0).2 == Next::Recover(SpiError::Timeout),
{
}

/// A command that moved everything is finished when it is done (bit 0); one
/// that did not is recovered.
pub proof fn whole_commands_are_finished(run: RunView, status: u32)
    requires
        run.wf(),
        status % 2 == 1,
    ensures
        run.sent == run.tx.len() && run.received == run.rx.len() ==> run.settle(status) == (
            run,
            Next::Finished,
        ),
        run.sent < run.tx.len() || run.received < run.rx.len() ==> run.settle(status).1
            == Next::Recover(SpiError::Timeout),
{
}

/// What arrived is drained when the FIFO is filled (bit 26) or holds the last
/// word (bit 27), if anything is to be received.
pub proof fn arrivals_are_drained(run: RunView, status: u32)
    requires
        run.wf(),
        !is_error(status),
    ensures
        run.poll(status).2 == Next::Drain <==> run.rx.len() > 0 && (status as int / 0x400_0000 % 2
            == 1 || status as int / 0x800_0000 % 2 == 1),
        status as int / 0x4000_0000 % 2 == 0 ==> run.poll(status).0.sent == run.sent,
        status as int / 0x4000_0000 % 2 == 1 ==> run.poll(status).0.sent == run.sent + fill_count(
            run.tx.len() - run.sent,
            run.tx_words,
        ),
{
}

/// A wait ends when one of its bits is up, and after a hundred looks.
pub proof fn waits_end(wait: Wait, status: u32, bit: u32)
    requires
        wait.left > 0,
    ensures
        status & wait.completion != 0 ==> wait.poll(status) == (wait, WaitResult::Done),
        status & wait.completion == 0 ==> {
            &&& wait.poll(status).0 == (Wait { left: (wait.left - 1) as u64, ..wait })
            &&& wait.poll(status).1 == WaitResult::Expired <==> wait.left == 1
        },
        control_wait(bit) == (Wait { completion: bit, left: 100 }),
{
}

/// A command that went wrong is cancelled, and aborted if that does not help;
/// either way all interrupts are cleared in the end.
pub proof fn commands_are_cancelled_and_aborted(wait: Wait, status: u32)
    requires
        wait.left > 0,
    ensures
        recovery_program() == seq![
            RegOp::Write { offset: 0x80c, value: 0 },
            RegOp::Write { offset: 0x604, value: 4 },
        ],
        status & wait.completion != 0 ==> ({
            let cleared = seq![
                RegOp::Write { offset: 0x618, value: status },
                RegOp::Write { offset: 0x618, value: u32::MAX },
            ];
            &&& Recovery::Cancelling(wait).step(status) == (Recovery::Draining, cleared)
            &&& Recovery::Aborting(wait).step(status) == (Recovery::Draining, cleared)
        }),
        status & wait.completion == 0 && wait.left == 1 ==> {
            &&& Recovery::Cancelling(wait).step(status) == (
                Recovery::Aborting(Wait { completion: 0x20, left: 100 }),
                seq![RegOp::Delay { us: 1 }, RegOp::Write { offset: 0x604, value: 2 }],
            )
            &&& Recovery::Aborting(wait).step(status) == (
                Recovery::Draining,
                seq![RegOp::Delay { us: 1 }, RegOp::Write { offset: 0x618, value: u32::MAX }],
            )
        },
        status & wait.completion == 0 && wait.left > 1 ==> {
            &&& Recovery::Cancelling(wait).step(status) == (
                Recovery::Cancelling(Wait { left: (wait.left - 1) as u64, ..wait }),
                seq![RegOp::Delay { us: 1 }],
            )
            &&& Recovery::Aborting(wait).step(status) == (
                Recovery::Aborting(Wait { left: (wait.left - 1) as u64, ..wait }),
                seq![RegOp::Delay { us: 1 }],
            )
        },
{
}

/// A select line is three cells: its controller, its pin, and its flags, of
/// which bit 0 says that it is active when low.
pub proof fn select_lines_are_three_cells(value: &[u8], index: int)
    requires
        0 <= index,
        12 * index + 12 <= value@.len(),
    ensures
        chip_selects_of(Some(value)) is Some <==> value@.len() % 12 == 0,
        chip_selects_of(Some(value)) matches Some(lines) ==> {
            let at = 12 * index;
            &&& 12 * lines.len() == value@.len()
            &&& lines[index].controller == 0x100_0000 * value@[at] + 0x1_0000 * value@[at + 1]
                + 0x100 * value@[at + 2] + value@[at + 3]
            &&& lines[index].pin == 0x100_0000 * value@[at + 4] + 0x1_0000 * value@[at + 5] + 0x100
                * value@[at + 6] + value@[at + 7]
            &&& lines[index].active_low == (value@[at + 11] % 2 == 1)
        },
        chip_selects_of(None) matches Some(lines) && lines.len() == 0,
{
}

} // verus!
