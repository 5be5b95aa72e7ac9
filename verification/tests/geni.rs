//! The GENI serial engines: I2C and SPI.

use coachz_drivers::geni::{
    command_word, pack_word, received_words, unpack_byte, GENI_MASTER_COMMAND,
    GENI_MASTER_COMMAND_CONTROL, GENI_MASTER_IRQ_CLEAR, GENI_SERIAL_MASTER_CLOCK, GENI_TX_FIFO,
    GENI_TX_WATERMARK,
};
use coachz_drivers::geni_i2c::{self, QcomGeniI2c};
use coachz_drivers::geni_spi::transaction::{
    check_segments, plan_segment, Plan, Step, Transaction,
};
use coachz_drivers::geni_spi::{
    self, resolve_chip_selects, ExternalChipSelect, QcomGeniSpi, Recovery, Run, Switch, Wait,
    WaitResult, COMMAND_ABORTED, COMMAND_CANCELLED, COMMAND_DONE, RX_FIFO_LAST, SPI_DEMUX_SELECT,
    SPI_RX_LENGTH, SPI_TX_LENGTH, TX_FIFO_WATERMARK,
};
use coachz_drivers::i2c::{I2cError, I2cMessage};
use coachz_drivers::mmio::RegOp;
use coachz_drivers::spi::{ReadUntil, SpiError, SpiTransfer};

fn write(offset: usize, value: u32) -> RegOp {
    RegOp::Write { offset, value }
}

#[test]
fn fifo_entries_hold_four_bytes() {
    assert_eq!(pack_word(&[1, 2, 3, 4, 5], 0), 0x0403_0201);
    assert_eq!(pack_word(&[1, 2, 3, 4, 5], 4), 5);
    assert_eq!(pack_word(&[1], 1), 0);
    let words = [0x0403_0201, 0x0807_0605];
    let bytes: Vec<u8> = (0..8).map(|i| unpack_byte(&words, i)).collect();
    assert_eq!(bytes, [1, 2, 3, 4, 5, 6, 7, 8]);
    assert_eq!(command_word(2, 0x7ff_ffff), 0x17ff_ffff);
    assert_eq!(command_word(1, 0x800_0004), 0x0800_0004);
    assert_eq!(command_word(33, 4), 0x0800_0004);
    assert_eq!(received_words(0xfe00_0003), 3);
}

// I2C.

fn i2c_controller() -> QcomGeniI2c {
    QcomGeniI2c::new(4, 400_000, 0x0300, 0, 4 << 16).unwrap()
}

#[test]
fn an_engine_must_be_set_up_for_i2c() {
    let controller = i2c_controller();
    assert_eq!(controller.tx_fifo_words, 4);
    assert_eq!(controller.bus_speed(), 400_000);
    assert_eq!(controller.bus_number(), 4);
    let fault = |r: Result<QcomGeniI2c, &'static str>| r.err().unwrap();
    assert_eq!(
        fault(QcomGeniI2c::new(0, 300_000, 0x0300, 0, 4 << 16)),
        "qcom-geni-i2c: unsupported bus frequency"
    );
    assert_eq!(
        fault(QcomGeniI2c::new(0, 100_000, 0x0100, 0, 4 << 16)),
        "qcom-geni-i2c: serial engine firmware is not I2C"
    );
    assert_eq!(
        fault(QcomGeniI2c::new(0, 100_000, 0x0300, 1, 4 << 16)),
        "qcom-geni-i2c: FIFO mode is disabled"
    );
    assert_eq!(
        fault(QcomGeniI2c::new(0, 100_000, 0x0300, 0, 1 << 16)),
        "qcom-geni-i2c: invalid TX FIFO depth"
    );
    assert_eq!(controller.initialize_fifo_mode().len(), 17);
}

#[test]
fn the_bus_clock_follows_the_profile() {
    let mut controller = i2c_controller();
    assert_eq!(
        controller.configure_timing(),
        [
            write(0x07c, 0),
            write(0x048, (2 << 4) | 1),
            write(0x278, (5 << 20) | (12 << 10) | 24),
            write(0x618, u32::MAX),
        ]
    );
    assert_eq!(controller.set_bus_speed(1_000_000), Ok(()));
    assert_eq!(controller.bus_speed(), 1_000_000);
    assert_eq!(controller.set_bus_speed(5), Err(I2cError::InvalidArg));
    assert_eq!(controller.bus_speed(), 1_000_000);
    assert!(controller.begin_transfer(&vec![]).is_err());
}

#[test]
fn messages_carry_their_address() {
    let messages = vec![
        I2cMessage::write(0x5d, &[1, 2], false),
        I2cMessage::read(0x5d, 3, true),
    ];
    let controller = i2c_controller();
    let (_, program) = controller.begin_message(&messages, 0).unwrap();
    // The bus is kept for the second message.
    assert_eq!(
        program,
        vec![
            write(0x26c, 2),
            write(GENI_MASTER_COMMAND, (1 << 27) | (0x5d << 9) | 4),
            write(GENI_TX_WATERMARK, 1),
        ]
    );
    let (_, program) = controller.begin_message(&messages, 1).unwrap();
    assert_eq!(
        program,
        vec![write(0x270, 3), write(GENI_MASTER_COMMAND, (2 << 27) | (0x5d << 9))]
    );
    let mut ten_bit = I2cMessage::read(0x5d, 3, true);
    ten_bit.ten_bit = true;
    assert_eq!(geni_i2c::address_parameters(&ten_bit, false), Err(I2cError::InvalidArg));
    assert_eq!(
        geni_i2c::address_parameters(&I2cMessage::read(0x80, 1, true), false),
        Err(I2cError::InvalidArg)
    );
    let empty = vec![I2cMessage::write(0x10, &[], true)];
    let (mut transfer, program) = controller.begin_message(&empty, 0).unwrap();
    assert_eq!(program, vec![write(GENI_MASTER_COMMAND, (4 << 27) | (0x10 << 9))]);
    assert!(matches!(transfer.poll(0), (_, geni_i2c::Next::Poll)));
    assert!(matches!(transfer.poll(1), (_, geni_i2c::Next::Finished(Ok(())))));
}

#[test]
fn a_write_fills_the_fifo_in_order() {
    let data: Vec<u8> = (0..18).collect();
    let messages = vec![I2cMessage::write(0x20, &data, true)];
    let (mut transfer, _) = i2c_controller().begin_message(&messages, 0).unwrap();
    let status = geni_i2c::MASTER_TX_FIFO_WATERMARK;
    let (program, next) = transfer.poll(status);
    assert_eq!(
        program,
        vec![
            write(GENI_TX_FIFO, 0x0302_0100),
            write(GENI_TX_FIFO, 0x0706_0504),
            write(GENI_TX_FIFO, 0x0b0a_0908),
            write(GENI_MASTER_IRQ_CLEAR, status),
        ]
    );
    assert!(matches!(next, geni_i2c::Next::Poll));
    let (program, next) = transfer.poll(status | 1);
    assert_eq!(
        program,
        vec![
            write(GENI_TX_FIFO, 0x0f0e_0d0c),
            write(GENI_TX_FIFO, 0x0000_1110),
            write(GENI_TX_WATERMARK, 0),
            write(GENI_MASTER_IRQ_CLEAR, status | 1),
        ]
    );
    assert!(matches!(next, geni_i2c::Next::Finished(Ok(()))));
}

#[test]
fn a_read_drains_the_fifo() {
    let messages = vec![I2cMessage::read(0x20, 6, true)];
    let (mut transfer, _) = i2c_controller().begin_message(&messages, 0).unwrap();
    let status = geni_i2c::MASTER_RX_FIFO_WATERMARK;
    assert!(matches!(transfer.poll(status).1, geni_i2c::Next::Drain));
    assert!(matches!(
        transfer.drained(status, &[0x0403_0201]).1,
        geni_i2c::Next::Poll
    ));
    let last = geni_i2c::MASTER_RX_FIFO_LAST | 1;
    assert!(matches!(transfer.poll(last).1, geni_i2c::Next::Drain));
    let (_, next) = transfer.drained(last, &[0xffff_0605]);
    assert!(matches!(next, geni_i2c::Next::Finished(Ok(()))));
    assert_eq!(transfer.data, [1, 2, 3, 4, 5, 6]);
}

#[test]
fn an_end_before_all_moved_is_an_error() {
    let messages = vec![I2cMessage::read(0x20, 6, true)];
    let (mut transfer, _) = i2c_controller().begin_message(&messages, 0).unwrap();
    assert!(matches!(
        transfer.poll(1).1,
        geni_i2c::Next::Finished(Err(I2cError::BusError))
    ));
}

#[test]
fn bus_errors_are_told_apart() {
    assert_eq!(geni_i2c::status_error(0x400), Some(I2cError::Nack));
    assert_eq!(geni_i2c::status_error(0x2400), Some(I2cError::Nack));
    assert_eq!(geni_i2c::status_error(0x2000), Some(I2cError::ArbitrationLost));
    for status in [0x2, 0x4, 0x8, 0x1000] {
        assert_eq!(geni_i2c::status_error(status), Some(I2cError::BusError));
    }
    assert_eq!(geni_i2c::status_error(0x1), None);
    let messages = vec![I2cMessage::write(0x20, &[1], true)];
    let (mut transfer, _) = i2c_controller().begin_message(&messages, 0).unwrap();
    let (program, next) = transfer.poll(0x400);
    assert_eq!(program, vec![write(GENI_TX_WATERMARK, 0), write(GENI_MASTER_IRQ_CLEAR, 0x400)]);
    assert!(matches!(next, geni_i2c::Next::Finished(Err(I2cError::Nack))));
    assert!(!geni_i2c::timed_out(5, 100_004));
    assert!(geni_i2c::timed_out(5, 100_005));
    assert!(transfer.abandon().contains(&write(GENI_MASTER_COMMAND_CONTROL, 2)));
    assert_eq!(geni_i2c::abort_acknowledged(0), None);
    assert!(geni_i2c::abort_acknowledged(0x20).is_some());
}

#[test]
fn i2c_properties_have_defaults() {
    assert_eq!(geni_i2c::read_properties(None, Some(3)), Ok((100_000, 3)));
    assert_eq!(geni_i2c::read_properties(Some(400_000), Some(3)), Ok((400_000, 3)));
    assert_eq!(
        geni_i2c::read_properties(None, None),
        Err("qcom-geni-i2c: missing phandle")
    );
    assert_eq!(geni_i2c::check_resource(Some((0x1000, 0x1fff))), Ok((0x1000, 0x1000)));
    assert_eq!(geni_i2c::check_resource(None), Err("qcom-geni-i2c: no memory resource"));
    assert_eq!(
        geni_i2c::check_resource(Some((1, 0))),
        Err("qcom-geni-i2c: invalid memory resource")
    );
    assert_eq!(
        geni_spi::check_resource(Some((1, 0))),
        Err("qcom-geni-spi: invalid memory resource")
    );
    assert_eq!(geni_spi::check_resource(None), Err("qcom-geni-spi: no memory resource"));
    assert_eq!(geni_spi::check_resource(Some((0, 9))), Ok((0, 10)));
    assert_eq!(geni_spi::read_properties(Some(7), None), Ok((7, 1_010_000)));
    assert_eq!(
        geni_spi::read_properties(None, None),
        Err("qcom-geni-spi: missing phandle")
    );
}

// SPI.

fn line(active_low: bool) -> ExternalChipSelect {
    ExternalChipSelect { controller: 9, pin: 37, active_low }
}

fn spi_controller(lines: Vec<ExternalChipSelect>) -> QcomGeniSpi {
    QcomGeniSpi::new(1, 1_010_000, lines, 0x0100, 0, 16 << 16, 16 << 16).unwrap()
}

#[test]
fn the_clock_stays_below_the_request() {
    let mut controller = spi_controller(vec![]);
    // 19.2 MHz over 20 is 960 kHz.
    assert_eq!(controller.bus_speed(), 960_000);
    assert_eq!(
        controller.set_bus_speed(800_000),
        Ok(write(GENI_SERIAL_MASTER_CLOCK, (24 << 4) | 1))
    );
    assert_eq!(controller.bus_speed(), 800_000);
    assert_eq!(controller.program_speed(0), Err(SpiError::InvalidArg));
    assert_eq!(
        controller.set_bus_speed(u32::MAX),
        Ok(write(GENI_SERIAL_MASTER_CLOCK, (1 << 4) | 1))
    );
    assert_eq!(controller.set_bus_speed(1), Ok(write(GENI_SERIAL_MASTER_CLOCK, 0xfff1)));
    let fault = |r: Result<QcomGeniSpi, &'static str>| r.err().unwrap();
    assert_eq!(
        fault(QcomGeniSpi::new(1, 1, vec![], 0x0300, 0, 16 << 16, 16 << 16)),
        "qcom-geni-spi: serial-engine firmware is not SPI"
    );
    assert_eq!(
        fault(QcomGeniSpi::new(1, 1, vec![], 0x0100, 1, 16 << 16, 16 << 16)),
        "qcom-geni-spi: FIFO interface is disabled"
    );
    assert_eq!(
        fault(QcomGeniSpi::new(1, 1, vec![], 0x0100, 0, 3 << 16, 16 << 16)),
        "qcom-geni-spi: invalid FIFO depth"
    );
    assert_eq!(
        fault(QcomGeniSpi::new(1, 0, vec![], 0x0100, 0, 16 << 16, 16 << 16)),
        "qcom-geni-spi: invalid bus frequency"
    );
    assert_eq!(controller.initialize_fifo_mode().len(), 23);
    assert_eq!(controller.bus_number(), 1);
}

#[test]
fn chip_selects_are_lines_or_commands() {
    let (select, switch) = spi_controller(vec![line(true)]).set_chip_select(0, true);
    assert_eq!(select, write(SPI_DEMUX_SELECT, 0));
    assert!(matches!(switch, Switch::Line { level: false, .. }));
    assert!(matches!(
        spi_controller(vec![line(true)]).set_chip_select(1, true).1,
        Switch::Rejected
    ));
    match spi_controller(vec![]).set_chip_select(3, false).1 {
        Switch::Command { program } => {
            assert_eq!(program[1], write(GENI_MASTER_COMMAND, 9 << 27));
        }
        other => panic!("{:?}", other),
    }
    assert!(matches!(spi_controller(vec![]).set_chip_select(4, true).1, Switch::Rejected));
    assert!(line(false).drive(true));
    let cells = |values: &[u32]| -> Vec<u8> {
        values.iter().flat_map(|value| value.to_be_bytes()).collect()
    };
    assert_eq!(resolve_chip_selects(Some(&cells(&[9, 37, 1]))), Ok(vec![line(true)]));
    assert_eq!(resolve_chip_selects(None), Ok(vec![]));
    assert!(resolve_chip_selects(Some(&[1, 2, 3])).is_err());
}

#[test]
fn a_full_duplex_command_moves_both_ways() {
    let (mut run, program) = Run::run_transfer(vec![1, 2, 3, 4, 5], vec![0; 5], 16).unwrap();
    assert_eq!(
        program,
        vec![
            write(GENI_MASTER_IRQ_CLEAR, u32::MAX),
            write(SPI_TX_LENGTH, 5),
            write(GENI_TX_WATERMARK, 1),
            write(SPI_RX_LENGTH, 5),
            write(GENI_MASTER_COMMAND, (3 << 27) | 4),
        ]
    );
    assert_eq!(run.poll(0), (vec![RegOp::Delay { us: 1 }], geni_spi::Next::Poll));
    let (program, next) = run.poll(TX_FIFO_WATERMARK);
    assert_eq!(
        program,
        vec![
            write(GENI_TX_FIFO, 0x0403_0201),
            write(GENI_TX_FIFO, 5),
            write(GENI_TX_WATERMARK, 0),
            write(GENI_MASTER_IRQ_CLEAR, TX_FIFO_WATERMARK),
        ]
    );
    assert_eq!(next, geni_spi::Next::Poll);
    let status = RX_FIFO_LAST | COMMAND_DONE;
    assert_eq!(run.poll(status).1, geni_spi::Next::Drain);
    // Two entries, the last one with one valid byte.
    let (clear, next) = run.drain_rx_fifo(status, 0x9000_0002, &[0x0d0c_0b0a, 0xffff_ff0e]);
    assert_eq!(clear, write(GENI_MASTER_IRQ_CLEAR, status));
    assert_eq!(next, geni_spi::Next::Finished);
    assert_eq!(run.rx, [0x0a, 0x0b, 0x0c, 0x0d, 0x0e]);
}

#[test]
fn commands_that_fail_are_recovered() {
    let (mut run, _) = Run::run_transfer(vec![1], vec![], 16).unwrap();
    assert_eq!(run.poll(0x2).1, geni_spi::Next::Recover(SpiError::BusError));
    assert_eq!(run.poll(COMMAND_DONE).1, geni_spi::Next::Recover(SpiError::Timeout));
    let mut polls = 0;
    let (mut run, _) = Run::run_transfer(vec![1], vec![], 16).unwrap();
    while run.poll(0).1 == geni_spi::Next::Poll {
        polls += 1;
    }
    assert_eq!(polls, 99_999);
    assert!(Run::run_transfer(vec![], vec![], 16).is_err());
    assert!(Run::run_transfer(vec![1], vec![0; 2], 16).is_err());

    let (mut recovery, program) = Recovery::recover_command();
    assert_eq!(program[1], write(GENI_MASTER_COMMAND_CONTROL, 4));
    let mut aborts = 0;
    let mut looks = 0;
    while recovery != Recovery::Draining {
        looks += 1;
        if recovery.advance(0).contains(&write(GENI_MASTER_COMMAND_CONTROL, 2)) {
            aborts += 1;
        }
    }
    assert_eq!((looks, aborts), (200, 1));
    let (mut recovery, _) = Recovery::recover_command();
    recovery.advance(COMMAND_CANCELLED);
    assert_eq!(recovery, Recovery::Draining);
    let mut wait = Wait::wait_for_control(COMMAND_ABORTED);
    assert_eq!(wait.look(0), WaitResult::Again);
    assert_eq!(wait.look(COMMAND_ABORTED), WaitResult::Done);
}

#[test]
fn segments_must_agree() {
    let a = || SpiTransfer::write(1, &[1], 0);
    let b = || SpiTransfer::read(1, 2, 500_000);
    assert_eq!(check_segments(&vec![a(), b()], 1_000_000), Ok((1, 500_000)));
    assert_eq!(check_segments(&vec![a()], 1_000_000), Ok((1, 1_000_000)));
    assert_eq!(check_segments(&vec![], 1_000_000), Err(SpiError::InvalidArg));
    let other = SpiTransfer::write(2, &[1], 0);
    assert_eq!(check_segments(&vec![a(), other], 1_000_000), Err(SpiError::InvalidArg));
    let faster = SpiTransfer::write(1, &[1], 600_000);
    assert_eq!(check_segments(&vec![b(), faster], 1_000_000), Err(SpiError::InvalidArg));
}

fn until(mask: u8, value: u8, max_bytes: usize) -> SpiTransfer {
    SpiTransfer::read_until(1, ReadUntil { mask, value, max_bytes }, 0)
}

#[test]
fn segments_become_commands() {
    assert!(matches!(
        plan_segment(&SpiTransfer::write(1, &[1], 0)),
        Plan::Run { send: true, receive: false }
    ));
    assert!(matches!(plan_segment(&until(1, 1, 4)), Plan::Until { .. }));
    assert!(matches!(plan_segment(&until(1, 2, 4)), Plan::Invalid));
    assert!(matches!(plan_segment(&until(1, 1, 0)), Plan::Invalid));
    let mut nothing = SpiTransfer::write(1, &[], 0);
    nothing.write = false;
    assert!(matches!(plan_segment(&nothing), Plan::Nothing));
    nothing.data.push(1);
    assert!(matches!(plan_segment(&nothing), Plan::Invalid));
}

/// Runs a transaction; the device answers with the given bytes in turn.
fn transact(segments: Vec<SpiTransfer>, bytes: &[u8], fail_at: usize) -> (
    Transaction,
    Vec<bool>,
    usize,
    Result<(), SpiError>,
) {
    let (mut transaction, mut step) = Transaction::begin(1, segments);
    let mut selects = Vec::new();
    let mut commands = 0;
    let mut given = bytes.iter();
    loop {
        let (outcome, rx) = match step {
            Step::Select { asserted, .. } => {
                selects.push(asserted);
                (Ok(()), vec![])
            }
            Step::Delay { .. } => (Ok(()), vec![]),
            Step::Run { rx, .. } => {
                commands += 1;
                let filled = rx.iter().map(|_| *given.next().unwrap_or(&0)).collect();
                if commands == fail_at {
                    (Err(SpiError::BusError), filled)
                } else {
                    (Ok(()), filled)
                }
            }
            Step::Finished { outcome } => return (transaction, selects, commands, outcome),
        };
        step = transaction.advance(outcome, rx);
    }
}

#[test]
fn a_chip_is_selected_for_all_segments() {
    let segments = vec![
        SpiTransfer::write(1, &[1, 2], 0),
        until(1, 1, 4),
        SpiTransfer::read(1, 2, 0),
    ];
    let (done, selects, commands, outcome) = transact(segments, &[0, 0, 1, 7, 8], 0);
    assert_eq!(outcome, Ok(()));
    assert_eq!(selects, [true, false]);
    assert_eq!(commands, 5);
    assert_eq!(done.segments[1].data, [0, 0, 1]);
    assert_eq!(done.segments[2].data, [7, 8]);
}

#[test]
fn a_failed_segment_releases_the_chip() {
    let segments = vec![SpiTransfer::write(1, &[1], 0), SpiTransfer::read(1, 2, 0)];
    let (_, selects, commands, outcome) = transact(segments, &[], 1);
    assert_eq!(outcome, Err(SpiError::BusError));
    assert_eq!(selects, [true, false]);
    assert_eq!(commands, 1);
    // A byte that never comes.
    let (_, selects, commands, outcome) = transact(vec![until(1, 1, 3)], &[0; 3], 0);
    assert_eq!(outcome, Err(SpiError::Timeout));
    assert_eq!(selects, [true, false]);
    assert_eq!(commands, 3);
}

#[test]
fn an_spi_engine_is_placed_or_its_first_fault_named() {
    let line: &[u8] = &[0, 0, 0, 3, 0, 0, 0, 86, 0, 0, 0, 1];
    assert_eq!(
        geni_spi::place(None, None, Some(&line[..5])).err(),
        Some("qcom-geni-spi: missing phandle")
    );
    assert_eq!(
        geni_spi::place(Some(7), None, Some(&line[..5])).err(),
        Some("qcom-geni-spi: malformed cs-gpios")
    );
    let placement = geni_spi::place(Some(7), None, Some(line)).unwrap();
    assert_eq!((placement.phandle, placement.speed_hz), (7, 1_010_000));
    let select = ExternalChipSelect { controller: 3, pin: 86, active_low: true };
    assert_eq!(placement.chip_selects, vec![select]);
    let placement = geni_spi::place(Some(7), Some(3_000_000), None).unwrap();
    assert_eq!(placement.speed_hz, 3_000_000);
    assert!(placement.chip_selects.is_empty());
}
