//! Entropy from the Google Cr50 TPM2 device.
//!
//! The device speaks the TPM FIFO interface over SPI: a four-byte header, a
//! wait-state byte, then the payload. It needs a pause between transactions
//! and a wake pulse after a second of rest. A whole command is carried out in
//! [`exchange`].

pub mod exchange;
pub mod laws;

use vstd::prelude::*;

use crate::bytes::{be16, be16_bytes, be32, be32_bytes};
use crate::cros_ec_spi::{as_u32, read_u32_property};
use crate::spi::{plain_segment, zeros, ReadUntil, SegmentView, SpiError, SpiTransfer};

verus! {

pub const TPM_ST_NO_SESSIONS: u16 = 0x8001;

pub const TPM_CC_GET_RANDOM: u32 = 0x0000_017b;

pub const TPM_HEADER_SIZE: usize = 10;

pub const TPM_MAX_RANDOM_BYTES: usize = 64;

pub const TPM_MAX_RESPONSE_SIZE: usize = 76;

pub const TIS_SPI_ADDRESS_PREFIX: u8 = 0xd4;

pub const TIS_SPI_MAX_PAYLOAD: usize = 64;

pub const TIS_SPI_READY_MASK: u8 = 0x01;

pub const TIS_SPI_FLOW_MAX_BYTES: usize = 512;

pub const CR50_ACCESS_DELAY_NS: u64 = 2_000_000;

pub const CR50_SLEEP_DELAY_NS: u64 = 1_000_000_000;

pub const CR50_WAKE_CS_US: u64 = 1_000;

pub const CR50_WAKE_START_US: u64 = 1_000;

pub const DEFAULT_SPEED_HZ: u32 = 800_000;

#[derive(Clone, Copy, Debug, Eq, PartialEq, Structural)]
pub enum Cr50Error {
    Spi(SpiError),
    Timeout,
    Protocol,
    /// The response code of the TPM.
    Tpm(u32),
}

// Timing.

/// When the device was last used and when it falls asleep; zero before the
/// first use.
#[derive(Clone, Copy, Debug, Eq, PartialEq, Structural)]
pub struct Cr50State {
    pub last_access_ns: u64,
    pub wake_after_ns: u64,
    pub locality_active: bool,
}

/// The time between two readings of a clock that wraps around.
pub open spec fn elapsed(from: u64, to: u64) -> int {
    if to >= from {
        to - from
    } else {
        to - from + 0x1_0000_0000_0000_0000
    }
}

/// A clock reading some time later, wrapped around.
pub open spec fn later(from: u64, by: u64) -> u64 {
    ((from + by) % 0x1_0000_0000_0000_0000) as u64
}

/// Microseconds to wait before a transaction.
pub open spec fn pause_of(state: Cr50State, now_ns: u64) -> int {
    let passed = elapsed(state.last_access_ns, now_ns);
    if state.last_access_ns == 0 || passed >= CR50_ACCESS_DELAY_NS {
        0
    } else {
        (CR50_ACCESS_DELAY_NS - passed + 999) / 1000
    }
}

/// Whether the device may be asleep.
pub open spec fn may_sleep(state: Cr50State, now_ns: u64) -> bool {
    state.wake_after_ns == 0 || now_ns >= state.wake_after_ns
}

impl Cr50State {
    pub fn new() -> (r: Cr50State)
        ensures
            r == (Cr50State { last_access_ns: 0, wake_after_ns: 0, locality_active: false }),
    {
        Cr50State { last_access_ns: 0, wake_after_ns: 0, locality_active: false }
    }

    /// Microseconds to wait before a transaction.
    pub fn wait_between_transactions(&self, now_ns: u64) -> (r: u64)
        ensures
            r == pause_of(*self, now_ns),
    {
        if self.last_access_ns == 0 {
            return 0;
        }
        let passed: u64 = if now_ns >= self.last_access_ns {
            now_ns - self.last_access_ns
        } else {
            now_ns + (u64::MAX - self.last_access_ns) + 1
        };
        if passed >= CR50_ACCESS_DELAY_NS {
            return 0;
        }
        (CR50_ACCESS_DELAY_NS - passed + 999) / 1000
    }

    /// Whether the device must be woken before a transaction.
    pub fn wake_if_needed(&self, now_ns: u64) -> (r: bool)
        ensures
            r == may_sleep(*self, now_ns),
    {
        !(self.wake_after_ns != 0 && now_ns < self.wake_after_ns)
    }

    /// Notes that the device was used or woken.
    pub fn finish_transaction(&mut self, now_ns: u64)
        ensures
            *final(self) == touched(*old(self), now_ns),
    {
        self.last_access_ns = now_ns;
        self.wake_after_ns = if now_ns <= u64::MAX - CR50_SLEEP_DELAY_NS {
            now_ns + CR50_SLEEP_DELAY_NS
        } else {
            CR50_SLEEP_DELAY_NS - (u64::MAX - now_ns) - 1
        };
    }
}

// Frames.

/// The header of a frame: direction and length, then the address.
pub open spec fn frame_header(read: bool, address: u32, length: int) -> Seq<u8> {
    seq![
        ((if read {
            0x80int
        } else {
            0
        }) + length - 1) as u8,
        TIS_SPI_ADDRESS_PREFIX,
        (address as int / 0x100) as u8,
        (address as int % 0x100) as u8,
    ]
}

/// A frame carries up to 64 bytes to or from an address.
pub open spec fn frame_fits(address: u32, length: int) -> bool {
    1 <= length <= TIS_SPI_MAX_PAYLOAD && address <= 0xffff
}

pub fn spi_header(read: bool, address: u32, length: usize) -> (r: Result<Vec<u8>, Cr50Error>)
    ensures
        match r {
            Ok(header) => frame_fits(address, length as int) && header@ == frame_header(
                read,
                address,
                length as int,
            ),
            Err(e) => !frame_fits(address, length as int) && e == Cr50Error::Protocol,
        },
{
    if length == 0 || length > TIS_SPI_MAX_PAYLOAD || address > 0xffff {
        return Err(Cr50Error::Protocol);
    }
    let direction: u8 = if read {
        0x80
    } else {
        0
    };
    let mut header: Vec<u8> = Vec::new();
    header.push(direction + (length as u8 - 1));
    header.push(TIS_SPI_ADDRESS_PREFIX);
    header.push((address / 0x100) as u8);
    header.push((address % 0x100) as u8);
    assert(header@ =~= frame_header(read, address, length as int));
    Ok(header)
}

/// One Cr50 TPM, used as an entropy source alone.
#[derive(Clone, Copy, Debug, Eq, PartialEq, Structural)]
pub struct Cr50TpmRng {
    pub chip_select: u8,
    pub speed_hz: u32,
}

pub open spec fn ready_condition() -> ReadUntil {
    ReadUntil {
        mask: TIS_SPI_READY_MASK,
        value: TIS_SPI_READY_MASK,
        max_bytes: TIS_SPI_FLOW_MAX_BYTES,
    }
}

/// The wait-state part of a frame.
pub open spec fn flow_segment(rng: Cr50TpmRng) -> SegmentView {
    SegmentView {
        read_until: Some(ready_condition()),
        ..plain_segment(rng.chip_select, true, false, Seq::empty(), rng.speed_hz)
    }
}

/// The segments of a frame that reads.
pub open spec fn read_segments(rng: Cr50TpmRng, address: u32, length: int) -> Seq<SegmentView> {
    seq![
        plain_segment(
            rng.chip_select,
            false,
            true,
            frame_header(true, address, length),
            rng.speed_hz,
        ),
        flow_segment(rng),
        plain_segment(rng.chip_select, true, false, zeros(length as nat), rng.speed_hz),
    ]
}

/// The segments of a frame that writes.
pub open spec fn write_segments(rng: Cr50TpmRng, address: u32, data: Seq<u8>) -> Seq<
    SegmentView,
> {
    seq![
        plain_segment(
            rng.chip_select,
            false,
            true,
            frame_header(false, address, data.len() as int),
            rng.speed_hz,
        ),
        flow_segment(rng),
        plain_segment(rng.chip_select, false, true, data, rng.speed_hz),
    ]
}

pub open spec fn views(segments: Seq<SpiTransfer>) -> Seq<SegmentView> {
    Seq::new(segments.len(), |i: int| segments[i]@)
}

impl Cr50TpmRng {
    /// A device on a bus; it runs no faster than either allows.
    pub fn new(bus_speed_hz: u32, chip_select: u8, maximum_speed_hz: u32) -> (r: Cr50TpmRng)
        ensures
            r.chip_select == chip_select,
            r.speed_hz == (if bus_speed_hz <= maximum_speed_hz {
                bus_speed_hz
            } else {
                maximum_speed_hz
            }),
    {
        let speed_hz: u32 = if bus_speed_hz <= maximum_speed_hz {
            bus_speed_hz
        } else {
            maximum_speed_hz
        };
        Cr50TpmRng { chip_select, speed_hz }
    }

    /// The transaction that wakes the device: its chip select is asserted for
    /// a while.
    pub fn wake_pulse(&self) -> (r: SpiTransfer)
        ensures
            r@ == (SegmentView {
                delay_after_us: CR50_WAKE_CS_US,
                ..plain_segment(self.chip_select, false, false, Seq::empty(), self.speed_hz)
            }),
    {
        let mut pulse = SpiTransfer::write(self.chip_select, &[], self.speed_hz);
        pulse.write = false;
        pulse.delay_after_us = CR50_WAKE_CS_US;
        assert(pulse.data@ =~= Seq::<u8>::empty());
        pulse
    }

    fn flow(&self) -> (r: SpiTransfer)
        ensures
            r@ == flow_segment(*self),
    {
        SpiTransfer::read_until(
            self.chip_select,
            ReadUntil {
                mask: TIS_SPI_READY_MASK,
                value: TIS_SPI_READY_MASK,
                max_bytes: TIS_SPI_FLOW_MAX_BYTES,
            },
            self.speed_hz,
        )
    }

    /// The segments of a frame that reads; the bytes are in the last one.
    pub fn read_frame(&self, address: u32, length: usize) -> (r: Result<
        Vec<SpiTransfer>,
        Cr50Error,
    >)
        ensures
            match r {
                Ok(segments) => frame_fits(address, length as int) && views(segments@)
                    == read_segments(*self, address, length as int),
                Err(e) => !frame_fits(address, length as int) && e == Cr50Error::Protocol,
            },
    {
        let header = match spi_header(true, address, length) {
            Ok(header) => header,
            Err(e) => {
                return Err(e);
            },
        };
        let mut segments: Vec<SpiTransfer> = Vec::new();
        segments.push(SpiTransfer::write(self.chip_select, &header, self.speed_hz));
        segments.push(self.flow());
        segments.push(SpiTransfer::read(self.chip_select, length, self.speed_hz));
        assert(views(segments@) =~= read_segments(*self, address, length as int));
        Ok(segments)
    }

    /// The segments of a frame that writes.
    pub fn write_frame(&self, address: u32, input: &[u8]) -> (r: Result<
        Vec<SpiTransfer>,
        Cr50Error,
    >)
        ensures
            match r {
                Ok(segments) => frame_fits(address, input@.len() as int) && views(segments@)
                    == write_segments(*self, address, input@),
                Err(e) => !frame_fits(address, input@.len() as int) && e == Cr50Error::Protocol,
            },
    {
        let header = match spi_header(false, address, input.len()) {
            Ok(header) => header,
            Err(e) => {
                return Err(e);
            },
        };
        let mut segments: Vec<SpiTransfer> = Vec::new();
        segments.push(SpiTransfer::write(self.chip_select, &header, self.speed_hz));
        segments.push(self.flow());
        segments.push(SpiTransfer::write(self.chip_select, input, self.speed_hz));
        assert(views(segments@) =~= write_segments(*self, address, input@));
        Ok(segments)
    }
}

/// Where a frame stands.
#[derive(Clone, Copy, Debug, Eq, PartialEq, Structural)]
pub enum FrameStage {
    Waiting,
    Waking,
    Transferring,
    Over,
}

/// What a frame needs next.
#[derive(Clone, Copy, Debug, Eq, PartialEq, Structural)]
pub enum FrameAsk {
    Wait { us: u64 },
    /// Send the wake pulse, then wait for the device to start.
    Wake { start_us: u64 },
    /// Transfer the segments.
    Transfer,
    Finished { error: Option<Cr50Error> },
}

/// The state after the device was used or woken.
pub open spec fn touched(state: Cr50State, now_ns: u64) -> Cr50State {
    Cr50State {
        last_access_ns: now_ns,
        wake_after_ns: later(now_ns, CR50_SLEEP_DELAY_NS),
        ..state
    }
}

/// The steps of a frame: it is kept apart from the one before, a sleeping
/// device is woken, the segments are transferred. A transfer counts as a use
/// of the device whether or not it succeeds; a failed wake pulse does not.
pub open spec fn frame_step(
    state: Cr50State,
    stage: FrameStage,
    outcome: Option<SpiError>,
    now_ns: u64,
) -> (Cr50State, FrameStage, FrameAsk) {
    match stage {
        FrameStage::Waiting => if may_sleep(state, now_ns) {
            (state, FrameStage::Waking, FrameAsk::Wake { start_us: CR50_WAKE_START_US })
        } else {
            (state, FrameStage::Transferring, FrameAsk::Transfer)
        },
        FrameStage::Waking => match outcome {
            Some(e) => (
                state,
                FrameStage::Over,
                FrameAsk::Finished { error: Some(Cr50Error::Spi(e)) },
            ),
            None => (touched(state, now_ns), FrameStage::Transferring, FrameAsk::Transfer),
        },
        FrameStage::Transferring => (
            touched(state, now_ns),
            FrameStage::Over,
            FrameAsk::Finished {
                error: match outcome {
                    Some(e) => Some(Cr50Error::Spi(e)),
                    None => None,
                },
            },
        ),
        FrameStage::Over => (
            state,
            FrameStage::Over,
            FrameAsk::Finished { error: Some(Cr50Error::Protocol) },
        ),
    }
}

impl Cr50State {
    /// Starts a frame.
    pub fn begin_transaction(&self, now_ns: u64) -> (r: (FrameStage, FrameAsk))
        ensures
            r.0 == FrameStage::Waiting,
            r.1 matches FrameAsk::Wait { us } && us == pause_of(*self, now_ns),
    {
        (FrameStage::Waiting, FrameAsk::Wait { us: self.wait_between_transactions(now_ns) })
    }

    /// Goes on with a frame, at a time, after what was asked for.
    pub fn advance_frame(
        &mut self,
        stage: FrameStage,
        outcome: Option<SpiError>,
        now_ns: u64,
    ) -> (r: (FrameStage, FrameAsk))
        ensures
            (*final(self), r.0, r.1) == frame_step(*old(self), stage, outcome, now_ns),
    {
        match stage {
            FrameStage::Waiting => {
                if self.wake_if_needed(now_ns) {
                    (FrameStage::Waking, FrameAsk::Wake { start_us: CR50_WAKE_START_US })
                } else {
                    (FrameStage::Transferring, FrameAsk::Transfer)
                }
            },
            FrameStage::Waking => match outcome {
                Some(e) => (
                    FrameStage::Over,
                    FrameAsk::Finished { error: Some(Cr50Error::Spi(e)) },
                ),
                None => {
                    self.finish_transaction(now_ns);
                    (FrameStage::Transferring, FrameAsk::Transfer)
                },
            },
            FrameStage::Transferring => {
                self.finish_transaction(now_ns);
                match outcome {
                    Some(e) => (
                        FrameStage::Over,
                        FrameAsk::Finished { error: Some(Cr50Error::Spi(e)) },
                    ),
                    None => (FrameStage::Over, FrameAsk::Finished { error: None }),
                }
            },
            FrameStage::Over => (
                FrameStage::Over,
                FrameAsk::Finished { error: Some(Cr50Error::Protocol) },
            ),
        }
    }
}

// Random bytes.

/// The command that asks for random bytes: its tag, its size, its code and how
/// many bytes.
pub open spec fn random_command(count: int) -> Seq<u8> {
    be16_bytes(TPM_ST_NO_SESSIONS as int) + be32_bytes(12) + be32_bytes(TPM_CC_GET_RANDOM as int)
        + be16_bytes(count)
}

pub fn get_random_command(count: usize) -> (r: Result<Vec<u8>, Cr50Error>)
    ensures
        match r {
            Ok(command) => 1 <= count <= TPM_MAX_RANDOM_BYTES && command@ == random_command(
                count as int,
            ),
            Err(e) => !(1 <= count <= TPM_MAX_RANDOM_BYTES) && e == Cr50Error::Protocol,
        },
{
    if count == 0 || count > TPM_MAX_RANDOM_BYTES {
        return Err(Cr50Error::Protocol);
    }
    let mut command: Vec<u8> = Vec::new();
    command.push(0x80);
    command.push(0x01);
    command.push(0);
    command.push(0);
    command.push(0);
    command.push(12);
    command.push(0);
    command.push(0);
    command.push(0x01);
    command.push(0x7b);
    command.push((count / 0x100) as u8);
    command.push((count % 0x100) as u8);
    assert(command@ =~= random_command(count as int));
    Ok(command)
}

/// The random bytes of a response: as many as it announces, at most as many
/// as were asked for, and at least one.
pub open spec fn random_of(response: Seq<u8>, requested: int) -> Result<Seq<u8>, Cr50Error> {
    if be16(response, 0) != TPM_ST_NO_SESSIONS || be32(response, 6) != 0 {
        Err(Cr50Error::Tpm(be32(response, 6) as u32))
    } else if response.len() < 12 {
        Err(Cr50Error::Protocol)
    } else {
        let count = be16(response, 10);
        if 12 + count > response.len() || count == 0 || count > requested {
            Err(Cr50Error::Protocol)
        } else {
            Ok(response.subrange(12, 12 + count))
        }
    }
}

pub fn parse_random(response: &[u8], requested: usize) -> (r: Result<Vec<u8>, Cr50Error>)
    requires
        response@.len() >= TPM_HEADER_SIZE,
    ensures
        match (r, random_of(response@, requested as int)) {
            (Ok(bytes), Ok(expected)) => bytes@ == expected,
            (Err(a), Err(b)) => a == b,
            _ => false,
        },
{
    let code: u32 = crate::bytes::read_be_u32(response, 6).unwrap();
    let tag: u16 = response[0] as u16 * 0x100 + response[1] as u16;
    if tag != TPM_ST_NO_SESSIONS || code != 0 {
        return Err(Cr50Error::Tpm(code));
    }
    let length: usize = response.len();
    if length < 12 {
        return Err(Cr50Error::Protocol);
    }
    let count: usize = response[10] as usize * 0x100 + response[11] as usize;
    if count > length - 12 || count == 0 || count > requested {
        return Err(Cr50Error::Protocol);
    }
    Ok(crate::bytes::copy_range(response, 12, 12 + count))
}

/// Random bytes that are being gathered.
#[derive(Debug)]
pub struct Fill {
    pub wanted: usize,
    pub bytes: Vec<u8>,
}

/// How many bytes to ask for next; none once all are there.
pub open spec fn next_count(wanted: int, gathered: int) -> Option<usize> {
    if gathered >= wanted {
        None
    } else if wanted - gathered <= TPM_MAX_RANDOM_BYTES {
        Some((wanted - gathered) as usize)
    } else {
        Some(TPM_MAX_RANDOM_BYTES)
    }
}

impl Fill {
    pub open spec fn wf(&self) -> bool {
        self.bytes@.len() <= self.wanted
    }

    /// Starts to gather bytes.
    pub fn fill_entropy(wanted: usize) -> (r: Fill)
        ensures
            r.wf(),
            r.wanted == wanted,
            r.bytes@.len() == 0,
    {
        Fill { wanted, bytes: Vec::new() }
    }

    /// How many bytes to ask for next.
    pub fn request(&self) -> (r: Option<usize>)
        requires
            self.wf(),
        ensures
            r == next_count(self.wanted as int, self.bytes@.len() as int),
            r matches Some(count) ==> 1 <= count <= TPM_MAX_RANDOM_BYTES,
    {
        let left: usize = self.wanted - self.bytes.len();
        if left == 0 {
            None
        } else if left <= TPM_MAX_RANDOM_BYTES {
            Some(left)
        } else {
            Some(TPM_MAX_RANDOM_BYTES)
        }
    }

    /// Takes the bytes of one response in.
    pub fn take(&mut self, bytes: &[u8])
        requires
            old(self).wf(),
            old(self).bytes@.len() + bytes@.len() <= old(self).wanted,
        ensures
            final(self).wf(),
            final(self).wanted == old(self).wanted,
            final(self).bytes@ == old(self).bytes@ + bytes@,
    {
        crate::bytes::append_bytes(&mut self.bytes, bytes);
    }
}

/// What a reader of entropy gets: all of the bytes, or none after a failure.
/// A failure is worth a line in the log only if the one before it succeeded.
pub fn read_entropy(outcome: Result<usize, Cr50Error>, failure_logged: bool) -> (r: (
    usize,
    bool,
    bool,
))
    ensures
        r == (match outcome {
            Ok(count) => (count, false, false),
            Err(_) => (0usize, !failure_logged, true),
        }),
{
    match outcome {
        Ok(count) => (count, false, false),
        Err(_) => (0, !failure_logged, true),
    }
}

// Probing.

/// How many random bytes a probe asks for.
pub const PROBE_BYTES: usize = 16;

/// The bus of a device.
pub fn bus_phandle(parent: Option<u32>) -> (r: Result<u32, &'static str>)
    ensures
        r == (match parent {
            Some(phandle) => Ok::<u32, &'static str>(phandle),
            None => Err("google-cr50-rng: missing parent SPI bus"),
        }),
{
    match parent {
        Some(phandle) => Ok(phandle),
        None => Err("google-cr50-rng: missing parent SPI bus"),
    }
}

/// Whether a device that was asked for random bytes is registered.
pub fn probe_outcome(outcome: Result<usize, Cr50Error>) -> (r: Result<(), &'static str>)
    ensures
        r == (match outcome {
            Ok(_) => Ok::<(), &'static str>(()),
            Err(_) => Err("google-cr50-rng: TPM2_GetRandom probe failed"),
        }),
{
    match outcome {
        Ok(_) => Ok(()),
        Err(_) => Err("google-cr50-rng: TPM2_GetRandom probe failed"),
    }
}

/// The chip select and the highest speed of a device.
pub fn read_properties(reg: Option<usize>, spi_max_frequency: Option<usize>) -> (r: Result<
    (u8, u32),
    &'static str,
>)
    ensures
        r == (match reg {
            Some(value) => if value <= 0xff {
                Ok::<(u8, u32), &'static str>(
                    (
                        value as u8,
                        match as_u32(spi_max_frequency) {
                            Some(speed) => speed,
                            None => DEFAULT_SPEED_HZ,
                        },
                    ),
                )
            } else {
                Err("google-cr50-rng: invalid chip select")
            },
            None => Err("google-cr50-rng: invalid chip select"),
        }),
{
    let chip_select: u8 = match reg {
        Some(value) => {
            if value > 0xff {
                return Err("google-cr50-rng: invalid chip select");
            }
            value as u8
        },
        None => {
            return Err("google-cr50-rng: invalid chip select");
        },
    };
    match read_u32_property(spi_max_frequency) {
        Some(speed) => Ok((chip_select, speed)),
        None => Ok((chip_select, DEFAULT_SPEED_HZ)),
    }
}

// Laws.

/// A header tells its direction, length and address.
pub proof fn headers_tell_their_frame(read: bool, address: u32, length: int)
    requires
        frame_fits(address, length),
    ensures
        ({
            let header = frame_header(read, address, length);
            &&& header.len() == 4
            &&& header[0] >= 0x80 <==> read
            &&& header[0] % 0x80 == length - 1
            &&& be16(header, 2) == address
        }),
{
}

/// After a transaction the device is awake until it has rested long enough,
/// and the next one is kept apart from it.
pub proof fn a_used_device_is_awake(state: Cr50State, used_ns: u64, now_ns: u64)
    requires
        used_ns + CR50_SLEEP_DELAY_NS <= u64::MAX,
        0 < used_ns <= now_ns < used_ns + CR50_SLEEP_DELAY_NS,
    ensures
        ({
            let after = touched(state, used_ns);
            &&& !may_sleep(after, now_ns)
            &&& now_ns + 1000 * pause_of(after, now_ns) >= used_ns + CR50_ACCESS_DELAY_NS
        }),
{
}

/// Accepted random bytes bring a fill forward, and never beyond what is
/// wanted.
pub proof fn accepted_bytes_make_progress(wanted: int, gathered: int, response: Seq<u8>)
    requires
        0 <= gathered < wanted,
        next_count(wanted, gathered) matches Some(count) && random_of(
            response,
            count as int,
        ) is Ok,
    ensures
        ({
            let count = next_count(wanted, gathered)->0 as int;
            let bytes = random_of(response, count)->Ok_0;
            gathered < gathered + bytes.len() <= wanted
        }),
{
}

/// A frame ends within three steps, and its device counts as used exactly
/// if its segments were transferred or a wake pulse succeeded.
pub proof fn a_frame_ends(
    state: Cr50State,
    first: (Option<SpiError>, u64),
    second: (Option<SpiError>, u64),
    third: (Option<SpiError>, u64),
)
    ensures
        ({
            let a = frame_step(state, FrameStage::Waiting, first.0, first.1);
            let b = frame_step(a.0, a.1, second.0, second.1);
            let c = frame_step(b.0, b.1, third.0, third.1);
            &&& b.2 is Finished || c.2 is Finished
            &&& a.2 is Wake && second.0 is Some ==> b.2 is Finished && b.0 == state
            &&& a.2 is Wake && second.0 is None ==> c.2 is Finished && c.0 == touched(
                touched(state, second.1),
                third.1,
            )
            &&& a.2 is Transfer ==> b.2 is Finished && b.0 == touched(state, second.1)
        }),
{
}

/// Keeps the driver linked into builds that load it by name.
pub fn force_link() {
}

} // verus!
