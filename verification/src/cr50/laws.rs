//! What is said to the TPM and what it says.

use vstd::prelude::*;

use crate::bytes::{be16, be16_bytes, be32, be32_bytes};
use crate::cr50::{
    flow_segment, frame_step, may_sleep, pause_of, random_command, random_of, read_segments,
    touched, write_segments, Cr50Error, Cr50State, Cr50TpmRng, Fill, FrameStage,
};
use crate::cr50::exchange::{
    access_active, access_valid, burst_of, status_available, status_ready, status_valid, AskView,
    ExchangeView, Goal, Stage,
};
use crate::spi::SpiError;

verus! {

/// A request for random bytes says how long it is, what it asks for, and how
/// many bytes.
pub proof fn requests_ask_for_random_bytes(count: int)
    requires
        1 <= count <= 64,
    ensures
        ({
            let command = random_command(count);
            &&& command.len() == 12
            &&& be16(command, 0) == 0x8001
            &&& be32(command, 2) == 12
            &&& be32(command, 6) == 0x17b
            &&& be16(command, 10) == count
        }),
{
}

/// The random bytes of a response are read back as they were sent, whatever
/// follows them: between one and as many as were asked for.
pub proof fn sent_random_bytes_are_read_back(
    bytes: Seq<u8>,
    size: u32,
    tail: Seq<u8>,
    requested: int,
)
    requires
        bytes.len() <= 0xffff,
    ensures
        random_of(
            be16_bytes(0x8001) + be32_bytes(size as int) + be32_bytes(0) + be16_bytes(
                bytes.len() as int,
            ) + bytes + tail,
            requested,
        ) == if 1 <= bytes.len() <= requested {
            Ok::<Seq<u8>, Cr50Error>(bytes)
        } else {
            Err(Cr50Error::Protocol)
        },
{
    let response = be16_bytes(0x8001) + be32_bytes(size as int) + be32_bytes(0) + be16_bytes(
        bytes.len() as int,
    ) + bytes + tail;
    assert(response[0] == 0x80 && response[1] == 1);
    assert(response[6] == 0 && response[7] == 0 && response[8] == 0 && response[9] == 0);
    assert(be16(response, 10) == bytes.len());
    assert(response.subrange(12, 12 + bytes.len() as int) =~= bytes);
}

/// A response that says that the command failed is an error, with the code that
/// it gives.
pub proof fn refusals_are_passed_on(response: Seq<u8>, requested: int)
    requires
        response.len() >= 10,
        be32(response, 6) != 0,
    ensures
        random_of(response, requested) == Err::<Seq<u8>, Cr50Error>(
            Cr50Error::Tpm(be32(response, 6) as u32),
        ),
{
}

/// A frame first says which register it is about, then waits for the device,
/// and then moves the data: out of the device in a read, into it in a write.
pub proof fn frames_move_their_data(rng: Cr50TpmRng, address: u32, data: Seq<u8>)
    requires
        1 <= data.len() <= 64,
        address <= 0xffff,
    ensures
        ({
            let read = read_segments(rng, address, data.len() as int);
            let write = write_segments(rng, address, data);
            &&& read.len() == 3 && write.len() == 3
            &&& forall|i: int|
                0 <= i < 3 ==> (#[trigger] read[i]).cs == rng.chip_select && read[i].speed_hz
                    == rng.speed_hz
            &&& forall|i: int|
                0 <= i < 3 ==> (#[trigger] write[i]).cs == rng.chip_select && write[i].speed_hz
                    == rng.speed_hz
            &&& read[0].write && !read[0].read && read[0].data[0] == 0x80 + (data.len() - 1)
            &&& write[0].write && !write[0].read && write[0].data[0] == data.len() - 1
            &&& read[0].data[1] == 0xd4 && be16(read[0].data, 2) == address
            &&& write[0].data[1] == 0xd4 && be16(write[0].data, 2) == address
            &&& read[1].read_until matches Some(until) && until.mask == 1 && until.value == 1
            &&& write[1].read_until matches Some(until) && until.mask == 1 && until.value == 1
            &&& read[2].read && !read[2].write && read[2].data.len() == data.len()
            &&& write[2].write && !write[2].read && write[2].data == data
        }),
{
}

/// Two transactions are kept two milliseconds apart, and no microsecond more
/// than it takes.
pub proof fn transactions_are_kept_apart(state: Cr50State, now_ns: u64)
    requires
        0 < state.last_access_ns <= now_ns,
    ensures
        now_ns + 1000 * pause_of(state, now_ns) >= state.last_access_ns + 2_000_000,
        pause_of(state, now_ns) > 0 ==> now_ns + 1000 * (pause_of(state, now_ns) - 1)
            < state.last_access_ns + 2_000_000,
{
}

/// A device that was never used, or that has rested for a second, is woken
/// before anything is transferred; one that was used since is not.
pub proof fn a_rested_device_is_woken(state: Cr50State, used_ns: u64, now_ns: u64)
    requires
        0 < used_ns <= now_ns,
        used_ns + 1_000_000_000 <= u64::MAX,
    ensures
        ({
            let used = touched(state, used_ns);
            let outcome: Option<SpiError> = None;
            let first = frame_step(used, FrameStage::Waiting, outcome, now_ns);
            &&& now_ns - used_ns >= 1_000_000_000 ==> first.2 is Wake && frame_step(
                used,
                first.1,
                outcome,
                now_ns,
            ).2 is Transfer
            &&& now_ns - used_ns < 1_000_000_000 ==> first.2 is Transfer
        }),
        may_sleep(Cr50State { last_access_ns: 0, wake_after_ns: 0, locality_active: false }, now_ns),
{
}

/// What the bits of the registers say.
pub proof fn register_bits_have_their_meaning(value: u8)
    ensures
        access_valid(value) <==> value & 0x80 != 0,
        access_active(value) <==> value & 0xa0 == 0xa0,
        status_valid(value) <==> value & 0x80 != 0,
        status_ready(value) <==> value & 0x40 != 0,
        status_available(value) <==> value & 0x90 == 0x90,
{
    assert((value / 0x80 % 2 == 1 <==> value & 0x80 != 0) && (value / 0x40 % 2 == 1 <==> value & 0x40
        != 0) && (value / 0x80 % 2 == 1 && value / 0x20 % 2 == 1 <==> value & 0xa0 == 0xa0) && (value
        / 0x80 % 2 == 1 && value / 0x10 % 2 == 1 <==> value & 0x90 == 0x90)) by (bit_vector);
}

/// The burst that a device grants stands in the middle two bytes of its status,
/// the low one first; no more than 64 bytes of it are used.
pub proof fn bursts_are_granted(status: Seq<u8>, burst: u16)
    requires
        status.len() == 4,
        status[1] == burst % 0x100,
        status[2] == burst / 0x100,
    ensures
        burst_of(status) == if burst <= 64 {
            burst as int
        } else {
            64
        },
{
}

/// Whatever part of a response is read goes behind what was read before, and
/// no more of it is asked for than is missing and was granted.
pub proof fn a_response_is_read_in_order(exchange: ExchangeView, data: Seq<u8>)
    requires
        exchange.wf(),
        data.len() == exchange.pending(),
    ensures
        exchange.stage is ReceivePart ==> exchange.step(Ok(data)).0.response == exchange.response
            + data,
        !(exchange.stage is ReceivePart) ==> exchange.step(Ok(data)).0.response
            == exchange.response,
        (exchange.stage matches Stage::Burst { sending, .. } ==> !sending ==> burst_of(data) > 0 ==> {
            &&& exchange.step(Ok(data)).1 matches AskView::Read { address, count, .. }
            &&& address == 0x24
            &&& 1 <= count <= burst_of(data)
            &&& count <= exchange.expected - exchange.response.len()
            &&& count == burst_of(data) || count == exchange.expected - exchange.response.len()
        }),
{
}

/// Once ten bytes are there, the response is as long as its header says, and a
/// length that cannot be is refused.
pub proof fn the_header_gives_the_length(exchange: ExchangeView, data: Seq<u8>)
    requires
        exchange.wf(),
        exchange.stage is ReceivePart,
        data.len() == exchange.pending(),
        exchange.response.len() < 10,
        exchange.response.len() + data.len() == 10,
    ensures
        ({
            let size = be32(exchange.response + data, 2);
            let next = exchange.step(Ok(data));
            &&& 10 <= size <= 76 ==> next.0.expected == size
            &&& !(10 <= size <= 76) ==> next.0.stage == (Stage::Release {
                error: Some(Cr50Error::Protocol),
            })
        }),
{
}

/// A command is started only when the TPM wants no more of it, and goes on
/// being sent only as long as it does: a TPM that wants the wrong amount gets
/// nothing further.
pub proof fn a_command_is_started_when_complete(exchange: ExchangeView, value: u8, left: u32)
    requires
        value & 0x80 != 0,
        1 <= left,
    ensures
        ({
            let all = exchange.at(Stage::Poll { goal: Goal::AllTaken, left }).step(
                Ok(seq![value]),
            );
            &&& value & 8 == 0 ==> all.1 == (AskView::Write {
                delay_us: 0,
                address: 0x18,
                data: seq![0x20u8],
            })
            &&& value & 8 != 0 ==> all.0.stage == (Stage::Release {
                error: Some(Cr50Error::Protocol),
            })
        }),
        ({
            let part = exchange.at(Stage::Poll { goal: Goal::PartTaken, left }).step(
                Ok(seq![value]),
            );
            &&& value & 8 == 0 ==> part.0.stage == (Stage::Release {
                error: Some(Cr50Error::Protocol),
            })
            &&& value & 8 != 0 ==> part.0.stage is Burst || part.0.stage is SendLast
        }),
{
    assert((value / 0x80 % 2 == 1 <==> value & 0x80 != 0) && (value / 8 % 2 == 1 <==> value & 8
        != 0)) by (bit_vector);
}

/// A frame waits for bit 0 of the bytes it reads, for up to 512 of them.
pub proof fn frames_wait_to_be_let_on(rng: Cr50TpmRng)
    ensures
        ({
            let segment = flow_segment(rng);
            &&& segment.cs == rng.chip_select && segment.speed_hz == rng.speed_hz
            &&& segment.read && !segment.write && segment.data.len() == 0
            &&& segment.read_until is Some
            &&& segment.read_until->0.mask == 1 && segment.read_until->0.value == 1
            &&& segment.read_until->0.max_bytes == 512
        }),
{
}

/// Two accesses are two milliseconds apart; the first needs no pause.
pub proof fn accesses_are_two_milliseconds_apart(state: Cr50State, now_ns: u64)
    requires
        state.last_access_ns <= now_ns,
    ensures
        state.last_access_ns == 0 || now_ns >= state.last_access_ns + 2_000_000 ==> pause_of(
            state,
            now_ns,
        ) == 0,
        state.last_access_ns > 0 && now_ns < state.last_access_ns + 2_000_000 ==> {
            let pause = pause_of(state, now_ns);
            &&& now_ns + 1000 * pause >= state.last_access_ns + 2_000_000
            &&& now_ns + 1000 * (pause - 1) < state.last_access_ns + 2_000_000
        },
{
}

/// A fill starts empty.
pub proof fn fills_start_empty(wanted: usize, r: Fill)
    requires
        call_ensures(Fill::fill_entropy, (wanted,), r),
    ensures
        r.wanted == wanted,
        r.bytes@.len() == 0,
{
}

/// Each write is followed by a wait for what it leads to: one byte of the
/// access register (0) or the status register (0x18) is read, up to 375 times
/// for the locality and up to 1000 times otherwise.
pub proof fn writes_are_waited_for(exchange: ExchangeView, count: usize)
    requires
        exchange.command.len() > 0,
    ensures
        exchange.at(Stage::RequestUse).step(Ok(Seq::empty())) == waiting(
            exchange,
            Goal::AccessActive,
            375,
            0,
            0,
        ),
        exchange.at(Stage::MakeReady).step(Ok(Seq::empty())) == waiting(
            exchange,
            Goal::CommandReady,
            1000,
            0,
            0x18,
        ),
        exchange.at(Stage::SendLast).step(Ok(Seq::empty())) == waiting(
            exchange,
            Goal::AllTaken,
            1000,
            0,
            0x18,
        ),
        exchange.at(Stage::Go).step(Ok(Seq::empty())) == waiting(
            exchange,
            Goal::ResponseAvailable,
            1000,
            0,
            0x18,
        ),
        exchange.at(Stage::SendPart { count }).step(Ok(Seq::empty())) == waiting(
            ExchangeView { sent: exchange.sent + count, ..exchange },
            Goal::PartTaken,
            1000,
            0,
            0x18,
        ),
{
}

/// The exchange waits for a goal, with so many reads left.
pub open spec fn waiting(
    exchange: ExchangeView,
    goal: Goal,
    left: u32,
    delay_us: u64,
    address: u32,
) -> (ExchangeView, AskView) {
    (exchange.at(Stage::Poll { goal, left }), AskView::Read { delay_us, address, count: 1 })
}

/// What is not there yet is read again two milliseconds later, until no read
/// is left. Then the wait has timed out, and a TPM that was made ready is made
/// ready again.
pub proof fn waits_time_out(exchange: ExchangeView, goal: Goal, left: u32, value: u8)
    requires
        left >= 1,
        value & 0x80 == 0,
        goal != Goal::CommandReady,
    ensures
        ({
            let next = exchange.at(Stage::Poll { goal, left }).step(Ok(seq![value]));
            let locality = goal == Goal::AccessValid || goal == Goal::AccessActive;
            &&& left > 1 ==> next == waiting(
                exchange,
                goal,
                (left - 1) as u32,
                2_000,
                if locality {
                    0
                } else {
                    0x18
                },
            )
            &&& left == 1 && locality ==> next == (
                exchange.at(Stage::Over),
                AskView::Finished { delay_us: 2_000, error: Some(Cr50Error::Timeout) },
            )
            &&& left == 1 && !locality ==> next == (
                exchange.at(Stage::Release { error: Some(Cr50Error::Timeout) }),
                AskView::Write { delay_us: 2_000, address: 0x18, data: seq![0x40u8] },
            )
        }),
{
    assert(value / 0x80 % 2 == 0) by (bit_vector)
        requires
            value & 0x80 == 0,
    ;
}

/// A burst of nothing is asked for again, up to 375 times; any other lets the
/// next part of the command through, up to 64 bytes, all but the last.
pub proof fn bursts_let_the_command_through(
    exchange: ExchangeView,
    left: u32,
    data: Seq<u8>,
    i: int,
)
    requires
        left >= 1,
        data.len() == 4,
        0 <= exchange.sent,
        exchange.sent + 1 < exchange.command.len(),
        exchange.command.len() <= 0xffff,
    ensures
        ({
            let next = exchange.at(Stage::Burst { sending: true, left }).step(Ok(data));
            let most = exchange.command.len() - exchange.sent - 1;
            let granted = data[1] + 0x100 * data[2];
            let burst = if granted < 64 {
                granted
            } else {
                64
            };
            &&& burst == 0 && left > 1 ==> next == (
                exchange.at(Stage::Burst { sending: true, left: (left - 1) as u32 }),
                AskView::Read { delay_us: 2_000, address: 0x18, count: 4 },
            )
            &&& burst == 0 && left == 1 ==> next.0.stage == (Stage::Release {
                error: Some(Cr50Error::Timeout),
            })
            &&& burst > 0 ==> {
                &&& next.1 is Write && next.1->Write_address == 0x24 && next.1->Write_delay_us == 0
                &&& next.1->Write_data.len() == (if burst < most {
                    burst
                } else {
                    most
                })
                &&& next.0.stage == (Stage::SendPart { count: next.1->Write_data.len() as usize })
                &&& 0 <= i < next.1->Write_data.len() ==> next.1->Write_data[i]
                    == exchange.command[exchange.sent + i]
            }
        }),
{
}

/// A failed access ends a command with its error: at once before the TPM was
/// made ready, and after making it ready again from then on. Once it is being
/// made ready again, what the command came to stays.
pub proof fn failures_end_a_command(exchange: ExchangeView, error: Cr50Error, count: usize)
    ensures
        exchange.at(Stage::CheckLocality).step(Err(error)).1 == (AskView::Finished {
            delay_us: 0,
            error: Some(error),
        }),
        exchange.at(Stage::RequestUse).step(Err(error)).1 == (AskView::Finished {
            delay_us: 0,
            error: Some(error),
        }),
        exchange.at(Stage::Go).step(Err(error)) == (
            exchange.at(Stage::Release { error: Some(error) }),
            AskView::Write { delay_us: 0, address: 0x18, data: seq![0x40u8] },
        ),
        exchange.at(Stage::ReceivePart { count }).step(Err(error)) == (
            exchange.at(Stage::Release { error: Some(error) }),
            AskView::Write { delay_us: 0, address: 0x18, data: seq![0x40u8] },
        ),
        exchange.at(Stage::Release { error: None }).step(Err(error)).1 == (AskView::Finished {
            delay_us: 0,
            error: None,
        }),
        exchange.at(Stage::Release { error: Some(error) }).step(Ok(Seq::empty())).1 == (
        AskView::Finished { delay_us: 0, error: Some(error) }),
{
}

/// A locality that is still active is not requested again. A new one is
/// requested by writing 2 to the access register, and once it is active the
/// TPM is made ready by writing 0x40 to the status register.
pub proof fn localities_are_requested(exchange: ExchangeView, value: u8, left: u32)
    requires
        left >= 1,
        value & 0x80 != 0,
    ensures
        ({
            let checked = exchange.at(Stage::CheckLocality).step(Ok(seq![value]));
            let ready = AskView::Write { delay_us: 0, address: 0x18, data: seq![0x40u8] };
            let requested = exchange.at(Stage::Poll { goal: Goal::AccessValid, left }).step(
                Ok(seq![value]),
            );
            let active = exchange.at(Stage::Poll { goal: Goal::AccessActive, left }).step(
                Ok(seq![value]),
            );
            &&& value & 0x20 != 0 ==> checked == (exchange.at(Stage::MakeReady), ready)
            &&& value & 0x20 == 0 ==> checked == waiting(exchange, Goal::AccessValid, 375, 0, 0)
            &&& requested == (
                exchange.at(Stage::RequestUse),
                AskView::Write { delay_us: 0, address: 0, data: seq![2u8] },
            )
            &&& value & 0x20 != 0 ==> active.1 == ready && active.0.locality_active
        }),
{
    assert((value / 0x80 % 2 == 1 <==> value & 0x80 != 0) && (value / 0x20 % 2 == 1 <==> value
        & 0x20 != 0)) by (bit_vector);
}

/// A response that is not complete is read on; one that is must not go on.
pub proof fn responses_are_read_to_their_end(exchange: ExchangeView, value: u8, left: u32)
    requires
        left >= 1,
        value & 0x80 != 0,
    ensures
        ({
            let part = exchange.at(Stage::Poll { goal: Goal::PartAvailable, left }).step(
                Ok(seq![value]),
            );
            let there = exchange.at(Stage::Poll { goal: Goal::ResponseAvailable, left }).step(
                Ok(seq![value]),
            );
            let read = exchange.at(Stage::Poll { goal: Goal::ResponseRead, left }).step(
                Ok(seq![value]),
            );
            &&& value & 0x10 != 0 ==> part == (
                exchange.at(Stage::Burst { sending: false, left: 375 }),
                AskView::Read { delay_us: 0, address: 0x18, count: 4 },
            )
            &&& value & 0x10 != 0 && exchange.response.len() < exchange.expected ==> there
                == waiting(exchange, Goal::PartAvailable, 1000, 0, 0x18)
            &&& value & 0x10 != 0 && exchange.response.len() >= exchange.expected ==> there
                == waiting(exchange, Goal::ResponseRead, 1000, 0, 0x18)
            &&& value & 0x10 == 0 ==> read.0.stage == (Stage::Release { error: None })
            &&& value & 0x10 != 0 ==> read.0.stage == (Stage::Release {
                error: Some(Cr50Error::Protocol),
            })
        }),
{
    assert((value / 0x80 % 2 == 1 <==> value & 0x80 != 0) && (value / 0x10 % 2 == 1 <==> value
        & 0x10 != 0)) by (bit_vector);
}

} // verus!
