//! Entropy from the Cr50 TPM.

use coachz_drivers::cr50::exchange::{
    Ask, Exchange, TIMEOUT_B_POLLS, TPM_ACCESS, TPM_DATA_FIFO, TPM_STS,
};
use coachz_drivers::cr50::{
    bus_phandle, get_random_command, parse_random, probe_outcome, read_entropy, read_properties,
    spi_header, Cr50Error, Cr50State, Cr50TpmRng, Fill, FrameAsk, FrameStage,
};
use coachz_drivers::spi::{ReadUntil, SpiError};

#[test]
fn headers_name_direction_length_and_address() {
    assert_eq!(spi_header(true, 0x0018, 4), Ok(vec![0x83, 0xd4, 0x00, 0x18]));
    assert_eq!(spi_header(false, 0x1234, 64), Ok(vec![0x3f, 0xd4, 0x12, 0x34]));
    assert_eq!(spi_header(true, 0, 0), Err(Cr50Error::Protocol));
    assert_eq!(spi_header(true, 0, 65), Err(Cr50Error::Protocol));
    assert_eq!(spi_header(true, 0x1_0000, 1), Err(Cr50Error::Protocol));
}

#[test]
fn transactions_are_kept_apart() {
    let mut state = Cr50State::new();
    assert_eq!(state.wait_between_transactions(123), 0);
    state.finish_transaction(10_000_000);
    assert_eq!(state.wake_after_ns, 1_010_000_000);
    assert_eq!(state.wait_between_transactions(10_000_000), 2_000);
    assert_eq!(state.wait_between_transactions(10_000_001), 2_000);
    assert_eq!(state.wait_between_transactions(11_999_999), 1);
    assert_eq!(state.wait_between_transactions(12_000_000), 0);
    // The clock wraps around.
    state.finish_transaction(u64::MAX);
    assert_eq!(state.wake_after_ns, 999_999_999);
    assert_eq!(state.wait_between_transactions(999_999), 1_000);
}

#[test]
fn a_device_is_woken_after_a_second() {
    let mut state = Cr50State::new();
    assert!(state.wake_if_needed(5));
    state.finish_transaction(5);
    assert!(!state.wake_if_needed(1_000_000_004));
    assert!(state.wake_if_needed(1_000_000_005));
}

#[test]
fn a_frame_waits_wakes_and_transfers() {
    let mut state = Cr50State::new();
    let (stage, ask) = state.begin_transaction(7);
    assert_eq!(ask, FrameAsk::Wait { us: 0 });
    let (stage, ask) = state.advance_frame(stage, None, 8);
    assert_eq!(ask, FrameAsk::Wake { start_us: 1_000 });
    let (stage, ask) = state.advance_frame(stage, None, 9);
    assert_eq!((state.last_access_ns, ask), (9, FrameAsk::Transfer));
    let (_, ask) = state.advance_frame(stage, None, 10);
    assert_eq!((state.last_access_ns, ask), (10, FrameAsk::Finished { error: None }));

    // An awake device is not woken; a failed transfer is a use too.
    let (stage, ask) = state.begin_transaction(20);
    assert_eq!(ask, FrameAsk::Wait { us: 2_000 });
    let (stage, ask) = state.advance_frame(stage, None, 30);
    assert_eq!((stage, ask), (FrameStage::Transferring, FrameAsk::Transfer));
    let (_, ask) = state.advance_frame(stage, Some(SpiError::Timeout), 40);
    assert_eq!(ask, FrameAsk::Finished { error: Some(Cr50Error::Spi(SpiError::Timeout)) });
    assert_eq!(state.last_access_ns, 40);

    // A failed wake pulse is not.
    let mut asleep = Cr50State::new();
    let (stage, _) = asleep.advance_frame(FrameStage::Waiting, None, 1);
    let (_, ask) = asleep.advance_frame(stage, Some(SpiError::BusError), 2);
    assert_eq!(ask, FrameAsk::Finished { error: Some(Cr50Error::Spi(SpiError::BusError)) });
    assert_eq!(asleep, Cr50State::new());
}

#[test]
fn frames_have_three_segments() {
    let device = Cr50TpmRng::new(1_000_000, 2, 800_000);
    assert_eq!(device.speed_hz, 800_000);
    assert_eq!(Cr50TpmRng::new(500_000, 2, 800_000).speed_hz, 500_000);
    let read = device.read_frame(0x18, 4).unwrap();
    assert_eq!(read.len(), 3);
    assert_eq!(read[0].data, [0x83, 0xd4, 0, 0x18]);
    assert!(read[0].write && !read[0].read);
    assert_eq!(read[1].read_until, Some(ReadUntil { mask: 1, value: 1, max_bytes: 512 }));
    assert_eq!(read[2].data, [0; 4]);
    assert!(read[2].read && read[2].speed_hz == 800_000 && read[2].cs == 2);
    let write = device.write_frame(0x24, &[7, 8]).unwrap();
    assert_eq!(write[0].data, [0x01, 0xd4, 0, 0x24]);
    assert_eq!(write[2].data, [7, 8]);
    assert!(write[2].write);
    assert!(device.write_frame(0x24, &[]).is_err());
    assert!(device.read_frame(0x24, 65).is_err());
    let pulse = device.wake_pulse();
    assert!(!pulse.read && !pulse.write && pulse.data.is_empty());
    assert_eq!(pulse.delay_after_us, 1_000);
}

fn random_response(count: u16, bytes: &[u8]) -> Vec<u8> {
    let mut response = vec![0x80, 0x01, 0, 0, 0, 0, 0, 0, 0, 0];
    response.extend_from_slice(&count.to_be_bytes());
    response.extend_from_slice(bytes);
    let size = (response.len() as u32).to_be_bytes();
    response[2..6].copy_from_slice(&size);
    response
}

#[test]
fn random_bytes_are_taken_from_the_response() {
    assert_eq!(
        get_random_command(16),
        Ok(vec![0x80, 0x01, 0, 0, 0, 12, 0, 0, 0x01, 0x7b, 0, 16])
    );
    assert_eq!(get_random_command(0), Err(Cr50Error::Protocol));
    assert_eq!(get_random_command(65), Err(Cr50Error::Protocol));
    assert_eq!(parse_random(&random_response(3, &[1, 2, 3]), 16), Ok(vec![1, 2, 3]));
    assert_eq!(parse_random(&random_response(3, &[1, 2]), 16), Err(Cr50Error::Protocol));
    assert_eq!(parse_random(&random_response(3, &[1, 2, 3]), 2), Err(Cr50Error::Protocol));
    assert_eq!(parse_random(&random_response(0, &[]), 16), Err(Cr50Error::Protocol));
    assert_eq!(parse_random(&random_response(0, &[])[..10], 16), Err(Cr50Error::Protocol));
    let mut failed = random_response(3, &[1, 2, 3]);
    failed[8..10].copy_from_slice(&[0x01, 0x01]);
    assert_eq!(parse_random(&failed, 16), Err(Cr50Error::Tpm(0x101)));
    let mut tag = random_response(3, &[1, 2, 3]);
    tag[1] = 2;
    assert_eq!(parse_random(&tag, 16), Err(Cr50Error::Tpm(0)));
}

#[test]
fn a_fill_asks_for_at_most_64_bytes() {
    let mut fill = Fill::fill_entropy(100);
    assert_eq!(fill.request(), Some(64));
    fill.take(&[1; 40]);
    assert_eq!(fill.request(), Some(60));
    fill.take(&[2; 60]);
    assert_eq!(fill.request(), None);
    assert_eq!(fill.bytes.len(), 100);
    assert_eq!(Fill::fill_entropy(0).request(), None);
}

#[test]
fn one_failure_in_a_row_is_logged() {
    assert_eq!(read_entropy(Ok(16), true), (16, false, false));
    assert_eq!(read_entropy(Err(Cr50Error::Timeout), false), (0, true, true));
    assert_eq!(read_entropy(Err(Cr50Error::Timeout), true), (0, false, true));
}

#[test]
fn properties_place_the_device() {
    assert_eq!(read_properties(Some(1), Some(1_000_000)), Ok((1, 1_000_000)));
    assert_eq!(read_properties(Some(1), None), Ok((1, 800_000)));
    assert_eq!(read_properties(Some(256), None), Err("google-cr50-rng: invalid chip select"));
    assert_eq!(read_properties(None, None), Err("google-cr50-rng: invalid chip select"));
    assert_eq!(bus_phandle(Some(4)), Ok(4));
    assert_eq!(bus_phandle(None), Err("google-cr50-rng: missing parent SPI bus"));
    assert_eq!(probe_outcome(Ok(16)), Ok(()));
    assert_eq!(
        probe_outcome(Err(Cr50Error::Protocol)),
        Err("google-cr50-rng: TPM2_GetRandom probe failed")
    );
}

/// A TPM with a small burst count.
struct Tpm {
    locality: bool,
    ready: bool,
    burst: u8,
    received: Vec<u8>,
    expected: usize,
    started: bool,
    response: Vec<u8>,
    read: usize,
    status_writes: Vec<u8>,
    fail_fifo: bool,
    never_ready: bool,
}

impl Tpm {
    fn new(expected: usize, response: Vec<u8>) -> Tpm {
        Tpm {
            locality: false,
            ready: false,
            burst: 5,
            received: Vec::new(),
            expected,
            started: false,
            response,
            read: 0,
            status_writes: Vec::new(),
            fail_fifo: false,
            never_ready: false,
        }
    }

    fn status(&self) -> u8 {
        let mut status = 0x80;
        if self.ready && !self.never_ready {
            status |= 0x40;
        }
        if self.received.len() < self.expected {
            status |= 0x08;
        }
        if self.started && self.read < self.response.len() {
            status |= 0x10;
        }
        status
    }

    fn read_register(&mut self, address: u32, count: usize) -> Result<Vec<u8>, Cr50Error> {
        if address == TPM_ACCESS {
            return Ok(vec![if self.locality { 0xa0 } else { 0x80 }]);
        }
        if address == TPM_STS {
            let word = [self.status(), self.burst, 0, 0];
            return Ok(word[..count].to_vec());
        }
        assert_eq!(address, TPM_DATA_FIFO);
        if self.fail_fifo {
            return Err(Cr50Error::Spi(SpiError::BusError));
        }
        let bytes = self.response[self.read..self.read + count].to_vec();
        self.read += count;
        Ok(bytes)
    }

    fn write_register(&mut self, address: u32, data: &[u8]) {
        if address == TPM_ACCESS {
            assert_eq!(data, [0x02]);
            self.locality = true;
        } else if address == TPM_STS {
            self.status_writes.push(data[0]);
            if data[0] == 0x40 {
                self.ready = true;
            } else {
                self.started = true;
            }
        } else {
            self.received.extend_from_slice(data);
        }
    }

    fn run(&mut self, command: Vec<u8>, active: bool) -> (Exchange, Option<Cr50Error>, usize) {
        let (mut exchange, mut ask) = Exchange::execute_command(command, active);
        let mut accesses = 0;
        loop {
            accesses += 1;
            let access = match ask {
                Ask::Read { address, count, .. } => self.read_register(address, count),
                Ask::Write { address, data, .. } => {
                    self.write_register(address, &data);
                    Ok(Vec::new())
                }
                Ask::Finished { error, .. } => return (exchange, error, accesses),
            };
            ask = exchange.advance(access);
        }
    }
}

#[test]
fn a_command_is_sent_and_its_response_read() {
    let command = get_random_command(16).unwrap();
    let response = random_response(16, &[9; 16]);
    let mut tpm = Tpm::new(12, response.clone());
    let (exchange, error, _) = tpm.run(command.clone(), false);
    assert_eq!(error, None);
    assert_eq!(tpm.received, command);
    assert_eq!(exchange.response, response);
    assert!(exchange.locality_active);
    assert_eq!(tpm.status_writes, [0x40, 0x20, 0x40]);
    assert_eq!(parse_random(&exchange.response, 16), Ok(vec![9; 16]));
}

#[test]
fn an_active_locality_is_kept() {
    let command = get_random_command(1).unwrap();
    let mut tpm = Tpm::new(12, random_response(1, &[3]));
    tpm.locality = true;
    let (_, error, with_locality) = tpm.run(command.clone(), true);
    assert_eq!(error, None);
    // A lost one is requested again.
    let mut lost = Tpm::new(12, random_response(1, &[3]));
    let (_, error, without) = lost.run(command, true);
    assert_eq!(error, None);
    assert_eq!(without, with_locality + 3);
}

#[test]
fn failures_release_the_tpm() {
    let command = get_random_command(16).unwrap();
    let mut tpm = Tpm::new(12, random_response(16, &[9; 16]));
    tpm.fail_fifo = true;
    let (_, error, _) = tpm.run(command.clone(), false);
    assert_eq!(error, Some(Cr50Error::Spi(SpiError::BusError)));
    assert_eq!(tpm.status_writes, [0x40, 0x20, 0x40]);

    let mut slow = Tpm::new(12, vec![]);
    slow.never_ready = true;
    let (_, error, accesses) = slow.run(command.clone(), false);
    assert_eq!(error, Some(Cr50Error::Timeout));
    assert!(accesses > TIMEOUT_B_POLLS as usize);
    assert_eq!(slow.status_writes, [0x40, 0x40]);

    // A TPM that expects more after the last byte, or less before it.
    for expected in [13, 4] {
        let mut confused = Tpm::new(expected, vec![]);
        let (_, error, _) = confused.run(command.clone(), false);
        assert_eq!(error, Some(Cr50Error::Protocol));
    }

    // Responses of an impossible size.
    for size in [9u32, 77] {
        let mut response = random_response(16, &[9; 16]);
        response[2..6].copy_from_slice(&size.to_be_bytes());
        let (_, error, _) = Tpm::new(12, response).run(command.clone(), false);
        assert_eq!(error, Some(Cr50Error::Protocol));
    }

    // More is there than was announced.
    let mut response = random_response(16, &[9; 16]);
    response[2..6].copy_from_slice(&27u32.to_be_bytes());
    let (_, error, _) = Tpm::new(12, response).run(command, false);
    assert_eq!(error, Some(Cr50Error::Protocol));
}

#[test]
fn a_locality_that_is_not_granted_ends_the_command() {
    let (mut exchange, mut ask) = Exchange::execute_command(vec![1], false);
    let mut reads = 0;
    let error = loop {
        let access = match ask {
            Ask::Read { delay_us, .. } => {
                assert_eq!(delay_us, if reads == 0 { 0 } else { 2_000 });
                reads += 1;
                Ok(vec![0])
            }
            Ask::Write { .. } => panic!("nothing is written"),
            Ask::Finished { error, .. } => break error,
        };
        ask = exchange.advance(access);
    };
    assert_eq!(error, Some(Cr50Error::Timeout));
    assert_eq!(reads, 375);
}
