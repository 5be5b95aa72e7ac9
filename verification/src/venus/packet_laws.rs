//! What stands in which word of a packet, and what passes through the queues.

use vstd::prelude::*;

use crate::venus::hfi::{
    addressable_queues, after_send, byte_of, fresh_region, receive, send_fault, sfr_dma,
    SHARED_REGION_WORDS,
};
use crate::venus::hfi_abi::{
    empty_buffer, error_of, fatal_event, fill_buffer, fill_done_of, get_buffer_requirements,
    read_properties, release_internal_buffer, requirements_of, sequence_of, session_command,
    session_init, set_buffer_count, set_buffer_size, set_decode_order, set_frame_size,
    set_internal_buffer, set_multistream, set_raw_format, set_work_mode, sys_debug_errors_only,
    sys_disable_power_collapse, sys_init, BufferRequirement, FillDone, SequenceInfo,
};

verus! {

// Commands.

/// The commands to the firmware as a whole.
pub proof fn system_commands_are_fixed(
    init: Vec<u32>,
    debug: Vec<u32>,
    power: Vec<u32>,
    session: u32,
    opened: Vec<u32>,
    command: u32,
    other: Vec<u32>,
)
    requires
        call_ensures(sys_init, (), init),
        call_ensures(sys_debug_errors_only, (), debug),
        call_ensures(sys_disable_power_collapse, (), power),
        call_ensures(session_init, (session,), opened),
        call_ensures(session_command, (command, session), other),
    ensures
        init@ == seq![12u32, 0x1_0001u32, 1u32],
        debug@ == seq![24u32, 0x1_0005u32, 1u32, 1u32, 0x18u32, 1u32],
        power@ == seq![20u32, 0x1_0005u32, 1u32, 5u32, 0u32],
        opened@ == seq![20u32, 0x1_0007u32, session, 2u32, 2u32],
        other@ == seq![12u32, command, session],
{
}

/// A command that sets a property names the session, one property, and the
/// property's own words.
pub proof fn properties_are_named(
    session: u32,
    buffer: u32,
    a: u32,
    b: u32,
    size: Vec<u32>,
    format: Vec<u32>,
    count: Vec<u32>,
    length: Vec<u32>,
    mode: Vec<u32>,
    order: Vec<u32>,
)
    requires
        call_ensures(set_frame_size, (session, buffer, a, b), size),
        call_ensures(set_raw_format, (session, buffer, a), format),
        call_ensures(set_buffer_count, (session, buffer, a), count),
        call_ensures(set_buffer_size, (session, buffer, a), length),
        call_ensures(set_work_mode, (session, a), mode),
        call_ensures(set_decode_order, (session,), order),
    ensures
        size@ == seq![32u32, 0x1_1001u32, session, 1u32, 0x1001u32, buffer, a, b],
        format@ == seq![28u32, 0x1_1001u32, session, 1u32, 0x1003u32, buffer, a],
        count@ == seq![32u32, 0x1_1001u32, session, 1u32, 0x20_1001u32, buffer, a, a],
        length@ == seq![28u32, 0x1_1001u32, session, 1u32, 0x20_100cu32, buffer, a],
        mode@ == seq![24u32, 0x1_1001u32, session, 1u32, 0x1015u32, a],
        order@ == seq![24u32, 0x1_1001u32, session, 1u32, 0x120_3005u32, 0x100_0002u32],
{
}

/// A stream is switched on with one and off with zero.
pub proof fn streams_are_switched(session: u32, buffer: u32, enable: bool, r: Vec<u32>)
    requires
        call_ensures(set_multistream, (session, buffer, enable), r),
    ensures
        enable ==> r@ == seq![28u32, 0x1_1001u32, session, 1u32, 0x100_3001u32, buffer, 1u32],
        !enable ==> r@ == seq![28u32, 0x1_1001u32, session, 1u32, 0x100_3001u32, buffer, 0u32],
{
}

/// A buffer is handed over and taken back with the same four words: session,
/// type, size and address.
pub proof fn buffers_are_named(
    session: u32,
    buffer: u32,
    size: u32,
    address: u32,
    asked: Vec<u32>,
    given: Vec<u32>,
    taken: Vec<u32>,
)
    requires
        call_ensures(get_buffer_requirements, (session,), asked),
        call_ensures(set_internal_buffer, (session, buffer, size, address), given),
        call_ensures(release_internal_buffer, (session, buffer, size, address), taken),
    ensures
        asked@ == seq![20u32, 0x21_1009u32, session, 1u32, 0x20_2001u32],
        given@ == seq![36u32, 0x1_1002u32, session, buffer, size, 0u32, size, 1u32, address],
        taken@ == seq![36u32, 0x21_100bu32, session, buffer, size, 0u32, 1u32, 1u32, address],
{
}

/// An access unit is handed over with its time in two words, the higher one
/// first, the size of its buffer, its own length, its tag and its address.
pub proof fn access_units_are_described(
    session: u32,
    timestamp: u64,
    tag: u32,
    address: u32,
    size: u32,
    length: u32,
    r: Vec<u32>,
)
    requires
        call_ensures(empty_buffer, (session, timestamp, tag, address, size, length), r),
    ensures
        r@.len() == 15 && r@[0] == 60,
        r@[1] == 0x21_1004 && r@[2] == session,
        0x1_0000_0000 * r@[3] + r@[4] == timestamp,
        r@[5] == 0x10 && r@[6] == 0 && r@[7] == 0 && r@[8] == 0,
        r@[9] == size && r@[10] == length && r@[11] == tag && r@[12] == address,
        r@[13] == 0 && r@[14] == 0,
{
}

/// A picture buffer is handed over with its size, tag and address, in the
/// second stream if it is of the second output type.
pub proof fn picture_buffers_are_described(
    session: u32,
    buffer: u32,
    tag: u32,
    address: u32,
    size: u32,
    r: Vec<u32>,
)
    requires
        call_ensures(fill_buffer, (session, buffer, tag, address, size), r),
    ensures
        r@.len() == 11 && r@[0] == 44,
        r@[1] == 0x21_1005 && r@[2] == session,
        r@[3] == 1 <==> buffer == 3,
        r@[3] == 0 <==> buffer != 3,
        r@[4] == 0 && r@[5] == size && r@[6] == 0,
        r@[7] == tag && r@[8] == address && r@[9] == 0 && r@[10] == 0,
{
}

// Messages.

/// The firmware states its buffers eight words each, behind five words of
/// head.
pub proof fn requirements_are_read(words: Seq<u32>, index: int)
    requires
        words.len() > 5,
        (words.len() - 5) % 8 == 0,
        words[1] == 0x22_1009,
        words[4] == 0x20_2001,
        0 <= index,
        5 + 8 * index < words.len(),
    ensures
        requirements_of(words) is Ok,
        8 * requirements_of(words)->Ok_0.len() + 5 == words.len(),
        requirements_of(words)->Ok_0[index] == (BufferRequirement {
            buffer_type: words[5 + 8 * index],
            size: words[6 + 8 * index],
            count_min: words[8 + 8 * index],
            count_actual: words[10 + 8 * index],
            contiguous: words[11 + 8 * index],
            alignment: words[12 + 8 * index],
        }),
{
}

/// Another message states no buffers.
pub proof fn other_messages_state_no_buffers(words: Seq<u32>)
    requires
        words.len() < 13 || words[1] != 0x22_1009 || words[4] != 0x20_2001 || (words.len() - 5) % 8
            != 0,
    ensures
        requirements_of(words) is Err,
{
}

/// A completed picture is read from fixed words of a message of at least 25.
pub proof fn completions_are_read(words: Seq<u32>)
    ensures
        fill_done_of(words) is Ok <==> words.len() >= 25 && words[1] == 0x22_1008,
        fill_done_of(words) is Ok ==> fill_done_of(words)->Ok_0 == (FillDone {
            session: words[2],
            stream_id: words[3],
            error: words[5],
            flags: words[8],
            filled_len: words[13],
            offset: words[14],
            output_tag: words[21],
            packet_buffer: words[23],
        }),
{
}

/// A stream whose event gives only the frame size shows the whole frame.
pub proof fn a_frame_size_is_read(words: Seq<u32>)
    requires
        words.len() >= 10,
        words.len() <= usize::MAX,
        words[1] == 0x2_1001,
        words[3] == 0x100_0003,
        words[4] == 0x100_0001 || words[4] == 0x100_0002,
        words[5] == 1,
        words[6] == 0x1001,
    ensures
        words[8] > 0 && words[9] > 0 ==> sequence_of(words) == Ok::<SequenceInfo, &'static str>(
            SequenceInfo {
                width: words[8],
                height: words[9],
                crop_left: 0,
                crop_top: 0,
                crop_width: words[8],
                crop_height: words[9],
                minimum_dpb_count: 0,
            },
        ),
        words[8] == 0 || words[9] == 0 ==> sequence_of(words) is Err,
{
    reveal_with_fuel(read_properties, 3);
}

/// The properties of an event are read in turn. Each has its own number of
/// words, and a later one overrides an earlier one of its kind.
pub proof fn properties_are_read_in_turn(
    words: Seq<u32>,
    at: int,
    remaining: int,
    info: SequenceInfo,
)
    requires
        0 <= at,
        at + 9 <= words.len() <= usize::MAX,
        remaining > 0,
    ensures
        words[at] == 0x1001 ==> read_properties(words, at, remaining, info) == read_properties(
            words,
            at + 4,
            remaining - 1,
            SequenceInfo { width: words[at + 2], height: words[at + 3], ..info },
        ),
        words[at] == 0x20_2001 ==> read_properties(words, at, remaining, info) == read_properties(
            words,
            at + 9,
            remaining - 1,
            SequenceInfo { minimum_dpb_count: words[at + 4], ..info },
        ),
        words[at] == 0x700_000e ==> read_properties(words, at, remaining, info) == read_properties(
            words,
            at + 8,
            remaining - 1,
            SequenceInfo {
                crop_left: words[at + 4],
                crop_top: words[at + 5],
                crop_width: words[at + 6],
                crop_height: words[at + 7],
                ..info
            },
        ),
        words[at] == 0x120_300e ==> read_properties(words, at, remaining, info) == read_properties(
            words,
            at + 6,
            remaining - 1,
            SequenceInfo { minimum_dpb_count: words[at + 5], ..info },
        ),
        words[at] == 0x1005 || words[at] == 0x100_3007 ==> read_properties(
            words,
            at,
            remaining,
            info,
        ) == read_properties(words, at + 3, remaining - 1, info),
        words[at] == 0x100_3009 || words[at] == 0x100_300a || words[at] == 0x120_4004
            ==> read_properties(words, at, remaining, info) == read_properties(
            words,
            at + 2,
            remaining - 1,
            info,
        ),
        read_properties(words, at, 0, info) == Ok::<SequenceInfo, &'static str>(info),
{
}

/// A sequence event without its head, or for another reason, is refused.
pub proof fn other_events_announce_nothing(words: Seq<u32>)
    requires
        words.len() < 6 || words[1] != 0x2_1001 || words[3] != 0x100_0003 || (words[4]
            != 0x100_0001 && words[4] != 0x100_0002),
    ensures
        sequence_of(words) is Err,
{
}

/// Where a reply carries its error.
pub proof fn errors_stand_in_their_word(words: Seq<u32>)
    requires
        words.len() >= 6,
    ensures
        words[1] == 0x2_0001 ==> error_of(words) == Some(words[2]),
        words[1] == 0x22_1008 ==> error_of(words) == Some(words[5]),
        words[1] == 0x2_0006 || words[1] == 0x2_0007 || words[1] == 0x22_1001 || words[1]
            == 0x22_1002 || words[1] == 0x22_1003 || words[1] == 0x22_1007 || words[1] == 0x22_100a
            || words[1] == 0x22_100c ==> error_of(words) == Some(words[3]),
        words[1] == 0x2_1001 || words[1] == 0x22_1009 ==> error_of(words) is None,
{
}

/// An event is fatal for a session if it reports a system error or a session
/// error, to that session or to all.
pub proof fn fatal_events_are_errors(words: Seq<u32>, session: u32)
    requires
        words.len() > 3,
    ensures
        fatal_event(words, session) <==> words[1] == 0x2_1001 && (words[3] == 1 || words[3] == 2)
            && (words[2] == 0 || words[2] == session),
{
}

// Queues.

/// A fresh region starts with the table: its size, the sizes of the table
/// head and of a queue header, and the three queues. Each queue header gives
/// the address of its ring, its type and its size in words, and starts empty.
pub proof fn fresh_queues_are_empty(dma: u32, queue: int)
    requires
        0 <= queue < 3,
        dma + 192 + 3 * 819_200 <= u32::MAX,
    ensures
        addressable_queues(dma) == 3,
        ({
            let words = fresh_region(dma, 3);
            let head = 6 + 14 * queue;
            &&& words.len() == 786_432
            &&& words[0] == 0 && words[1] == 192 && words[2] == 24 && words[3] == 56 && words[4]
                == 3 && words[5] == 3
            &&& words[head] == 1
            &&& words[head + 1] == dma + 192 + 819_200 * queue
            &&& words[head + 2] == 0x101_0000 + queue
            &&& words[head + 3] == 204_800
            &&& words[head + 4] == 0 && words[head + 5] == 0
            &&& words[head + 6] == 1 && words[head + 7] == 1
            &&& queue < 2 ==> words[head + 8] == 1
            &&& queue == 2 ==> words[head + 8] == 0
            &&& words[head + 9] == 0 && words[head + 10] == 0 && words[head + 11] == 0
            &&& words[head + 12] == 0 && words[head + 13] == 0
        }),
{
    let words = fresh_region(dma, 3);
    assert forall|field: int| 0 <= field < 14 implies (#[trigger] (6 + 14 * queue + field) - 6)
        / 14 == queue && (6 + 14 * queue + field - 6) % 14 == field by {
    }
    assert(words.len() == 786_432);
}

/// The firmware's last words go behind the rings.
pub proof fn last_words_have_an_address(dma: u32, r: Result<u32, &'static str>)
    requires
        call_ensures(sfr_dma, (dma,), r),
    ensures
        r is Ok <==> dma + 192 + 3 * 819_200 + 3904 <= u32::MAX,
        r matches Ok(address) ==> address == dma + 192 + 3 * 819_200 + 3904,
{
}

/// A packet is sent if and only if it states its size, is not over 12288
/// bytes, the queue's numbers make sense, and the queue has room for it and
/// one word more.
pub proof fn packets_are_sent_where_there_is_room(words: Seq<u32>, packet: Seq<u32>)
    requires
        words.len() == SHARED_REGION_WORDS,
    ensures
        send_fault(words, packet) is None <==> {
            let size = words[9];
            let read = words[18];
            let write = words[19];
            &&& 2 <= packet.len() <= 3072 && packet[0] == 4 * packet.len()
            &&& 0 < size <= 204_800 && read < size && write < size
            &&& write >= read ==> packet.len() < size - (write - read)
            &&& write < read ==> packet.len() < read - write
        },
{
}

/// A sent packet stands in the ring from the old write position on, and runs
/// on at the ring's start; the write position moves behind it.
pub proof fn sent_packets_stand_in_the_ring(
    words: Seq<u32>,
    packet: Seq<u32>,
    synchronous: bool,
    index: int,
)
    requires
        words.len() == SHARED_REGION_WORDS,
        send_fault(words, packet) is None,
        0 <= index < packet.len(),
    ensures
        ({
            let size = words[9] as int;
            let write = words[19] as int;
            let sent = after_send(words, packet, synchronous);
            &&& write + index < size ==> sent[48 + write + index] == packet[index]
            &&& write + index >= size ==> sent[48 + write + index - size] == packet[index]
            &&& write + packet.len() < size ==> sent[19] == write + packet.len()
            &&& write + packet.len() >= size ==> sent[19] == write + packet.len() - size
            &&& sent[15] == 0
            &&& sent[28] == if synchronous {
                1u32
            } else {
                words[28]
            }
        }),
{
}

/// A packet is received from the read position on, and the read position
/// moves behind it. Its first word is its size in bytes.
pub proof fn received_packets_stood_in_the_ring(
    words: Seq<u32>,
    queue: int,
    request_interrupt: bool,
    index: int,
)
    requires
        words.len() == SHARED_REGION_WORDS,
        0 <= queue < 3,
    ensures
        ({
            let head = 6 + 14 * queue;
            let ring = 48 + 204_800 * queue;
            let size = words[head + 3] as int;
            let read = words[head + 12] as int;
            let received = receive(words, queue, request_interrupt);
            match received.result {
                Ok(Some(packet)) => {
                    &&& read != words[head + 13]
                    &&& 2 <= packet.len() <= 3072
                    &&& packet[0] == 4 * packet.len()
                    &&& 0 <= index < packet.len() && read + index < size ==> packet[index]
                        == words[ring + read + index]
                    &&& 0 <= index < packet.len() && read + index >= size ==> packet[index]
                        == words[ring + read + index - size]
                    &&& read + packet.len() < size ==> received.words[head + 12] == read
                        + packet.len()
                    &&& read + packet.len() >= size ==> received.words[head + 12] == read
                        + packet.len() - size
                    &&& received.words[head + 8] == 1 <==> request_interrupt
                        && received.words[head + 12] == words[head + 13]
                },
                Ok(None) => {
                    &&& read == words[head + 13]
                    &&& received.words[head + 12] == read
                    &&& received.words[head + 8] == 1 <==> request_interrupt
                },
                Err(_) => {
                    ||| size == 0 || size > 204_800 || read >= size || words[head + 13] >= size
                    ||| received.words[head + 12] == words[head + 13]
                },
            }
        }),
{
}

/// A word holds its four bytes, the lowest first.
pub proof fn words_hold_four_bytes(words: Seq<u32>, index: int)
    requires
        0 <= index < words.len(),
    ensures
        words[index] == byte_of(words, 4 * index) + 0x100 * byte_of(words, 4 * index + 1)
            + 0x1_0000 * byte_of(words, 4 * index + 2) + 0x100_0000 * byte_of(words, 4 * index + 3),
{
    let word = words[index] as int;
    assert(4 * index / 4 == index && (4 * index + 1) / 4 == index && (4 * index + 2) / 4 == index
        && (4 * index + 3) / 4 == index);
    assert(word == word % 0x100 + 0x100 * (word / 0x100));
    assert(word / 0x100 == word / 0x100 % 0x100 + 0x100 * (word / 0x100 / 0x100));
    assert(word / 0x100 / 0x100 == word / 0x1_0000);
    assert(word / 0x1_0000 == word / 0x1_0000 % 0x100 + 0x100 * (word / 0x1_0000 / 0x100));
    assert(word / 0x1_0000 / 0x100 == word / 0x100_0000);
    assert(word / 0x100_0000 < 0x100);
}

} // verus!
