//! Transport of HFI packets through queues in memory that the host shares
//! with the firmware.
//!
//! The shared region is an array of words: a table, three queue headers, the
//! rings of the three queues, and a region for the firmware's last words. The
//! firmware writes to it too, so no header value is taken on trust.

use vstd::prelude::*;

verus! {

pub const QUEUE_COUNT: usize = 3;

pub const COMMAND_QUEUE: usize = 0;

pub const MESSAGE_QUEUE: usize = 1;

pub const DEBUG_QUEUE: usize = 2;

pub const QUEUE_TABLE_HEADER_SIZE: usize = 24;

pub const QUEUE_HEADER_SIZE: usize = 56;

pub const QUEUE_TABLE_SIZE: usize = 192;

pub const QUEUE_DATA_SIZE: usize = 819_200;

pub const QUEUE_DATA_WORDS: u32 = 204_800;

pub const SFR_SIZE: usize = 4096;

/// The queues, rounded up to a whole page.
pub const SFR_OFFSET: usize = 2_461_696;

/// The whole region, rounded up to a mebibyte.
pub const SHARED_REGION_SIZE: usize = 3_145_728;

pub const SHARED_REGION_WORDS: usize = 786_432;

pub const MAX_PACKET_BYTES: usize = 12_288;

pub const DEFAULT_QUEUE_TYPE: u32 = 0x0101_0000;

pub const HFI_MSG_SYS_DEBUG: u32 = 0x0002_0004;

pub const Q_STATUS: usize = 0;

pub const Q_START_ADDR: usize = 1;

pub const Q_TYPE: usize = 2;

pub const Q_SIZE: usize = 3;

pub const Q_RX_WATERMARK: usize = 6;

pub const Q_TX_WATERMARK: usize = 7;

pub const Q_RX_REQUEST: usize = 8;

pub const Q_TX_REQUEST: usize = 9;

pub const Q_READ_INDEX: usize = 12;

pub const Q_WRITE_INDEX: usize = 13;

/// The word of a header field.
pub open spec fn header_at(queue: int, field: int) -> int {
    6 + 14 * queue + field
}

pub open spec fn header(words: Seq<u32>, queue: int, field: int) -> u32 {
    words[header_at(queue, field)]
}

/// The first word of a ring.
pub open spec fn ring_at(queue: int) -> int {
    48 + 204_800 * queue
}

/// A position in a ring that may lie past its end once.
pub open spec fn wrapped(position: int, size: int) -> int {
    if position >= size {
        position - size
    } else {
        position
    }
}

/// How far a ring position lies after `start`.
pub open spec fn distance(start: int, position: int, size: int) -> int {
    if position >= start {
        position - start
    } else {
        position - start + size
    }
}

/// The words of a ring from `start` on.
pub open spec fn ring_words(
    words: Seq<u32>,
    queue: int,
    start: int,
    count: int,
    size: int,
) -> Seq<u32> {
    Seq::new(count as nat, |i: int| words[ring_at(queue) + wrapped(start + i, size)])
}

/// The region with `data` in a ring from `start` on, and nothing else changed.
pub open spec fn with_ring_words(
    words: Seq<u32>,
    queue: int,
    start: int,
    size: int,
    data: Seq<u32>,
) -> Seq<u32> {
    Seq::new(
        words.len(),
        |i: int|
            if ring_at(queue) <= i < ring_at(queue) + size && distance(
                start,
                i - ring_at(queue),
                size,
            ) < data.len() {
                data[distance(start, i - ring_at(queue), size)]
            } else {
                words[i]
            },
    )
}

fn read_header_word(words: &[u32], queue: usize, field: usize) -> (r: u32)
    requires
        words@.len() == SHARED_REGION_WORDS,
        queue < QUEUE_COUNT,
        field < 14,
    ensures
        r == header(words@, queue as int, field as int),
{
    words[6 + 14 * queue + field]
}

fn write_header_word(words: &mut [u32], queue: usize, field: usize, value: u32)
    requires
        old(words)@.len() == SHARED_REGION_WORDS,
        queue < QUEUE_COUNT,
        field < 14,
    ensures
        final(words)@ == old(words)@.update(header_at(queue as int, field as int), value),
{
    words[6 + 14 * queue + field] = value;
}

// Initialization.

pub open spec fn queue_address(dma: u32, queue: int) -> int {
    dma + 192 + 819_200 * queue
}

/// A field of a fresh queue header. Only the debug queue asks for no
/// interrupt.
pub open spec fn fresh_header_word(start_address: u32, queue: int, field: int) -> u32 {
    if field == Q_STATUS || field == Q_RX_WATERMARK || field == Q_TX_WATERMARK {
        1
    } else if field == Q_START_ADDR {
        start_address
    } else if field == Q_TYPE {
        (DEFAULT_QUEUE_TYPE + queue) as u32
    } else if field == Q_SIZE {
        QUEUE_DATA_WORDS
    } else if field == Q_RX_REQUEST && queue != DEBUG_QUEUE {
        1
    } else {
        0
    }
}

/// A word of the region once the table and the first `queues` queues are set.
pub open spec fn fresh_word(dma: u32, queues: int, index: int) -> u32 {
    if index == 1 {
        QUEUE_TABLE_SIZE as u32
    } else if index == 2 {
        QUEUE_TABLE_HEADER_SIZE as u32
    } else if index == 3 {
        QUEUE_HEADER_SIZE as u32
    } else if index == 4 || index == 5 {
        QUEUE_COUNT as u32
    } else if 6 <= index < 6 + 14 * queues {
        fresh_header_word(
            queue_address(dma, (index - 6) / 14) as u32,
            (index - 6) / 14,
            (index - 6) % 14,
        )
    } else {
        0
    }
}

pub open spec fn fresh_region(dma: u32, queues: int) -> Seq<u32> {
    Seq::new(SHARED_REGION_WORDS as nat, |i: int| fresh_word(dma, queues, i))
}

/// The number of queues, from the first on, whose rings have 32-bit
/// addresses.
pub open spec fn addressable_queues(dma: u32) -> int {
    if queue_address(dma, 0) > u32::MAX {
        0
    } else if queue_address(dma, 1) > u32::MAX {
        1
    } else if queue_address(dma, 2) > u32::MAX {
        2
    } else {
        3
    }
}

fn write_header(words: &mut [u32], queue: usize, start_address: u32)
    requires
        old(words)@.len() == SHARED_REGION_WORDS,
        queue < QUEUE_COUNT,
        forall|f: int| 0 <= f < 14 ==> #[trigger] header(old(words)@, queue as int, f) == 0,
    ensures
        final(words)@.len() == SHARED_REGION_WORDS,
        forall|i: int|
            0 <= i < final(words)@.len() && !(header_at(queue as int, 0) <= i < header_at(
                queue as int,
                14,
            )) ==> final(words)@[i] == old(words)@[i],
        forall|f: int|
            0 <= f < 14 ==> #[trigger] header(final(words)@, queue as int, f)
                == fresh_header_word(start_address, queue as int, f),
{
    write_header_word(words, queue, Q_STATUS, 1);
    write_header_word(words, queue, Q_START_ADDR, start_address);
    write_header_word(words, queue, Q_TYPE, DEFAULT_QUEUE_TYPE + queue as u32);
    write_header_word(words, queue, Q_SIZE, QUEUE_DATA_WORDS);
    write_header_word(words, queue, Q_RX_WATERMARK, 1);
    write_header_word(words, queue, Q_TX_WATERMARK, 1);
    write_header_word(
        words,
        queue,
        Q_RX_REQUEST,
        if queue != DEBUG_QUEUE {
            1
        } else {
            0
        },
    );
    assert forall|f: int| 0 <= f < 14 implies #[trigger] header(words@, queue as int, f)
        == fresh_header_word(start_address, queue as int, f) by {
        assert(header(old(words)@, queue as int, f) == 0);
    }
}

/// Clears the region and sets up its table and queues. The bus address of
/// every ring must fit 32 bits.
pub fn reset(words: &mut [u32], queue_dma: u32) -> (r: Result<(), &'static str>)
    requires
        old(words)@.len() == SHARED_REGION_WORDS,
    ensures
        match r {
            Ok(_) => {
                &&& addressable_queues(queue_dma) == 3
                &&& final(words)@ == fresh_region(queue_dma, 3).update(
                    SFR_OFFSET as int / 4,
                    SFR_SIZE as u32,
                )
            },
            Err(e) => {
                &&& addressable_queues(queue_dma) < 3
                &&& e == "qcom-venus-sc7180: HFI queue DMA address overflows"
                &&& final(words)@ == fresh_region(queue_dma, addressable_queues(queue_dma))
            },
        },
{
    let mut i: usize = 0;
    while i < SHARED_REGION_WORDS
        invariant
            i <= SHARED_REGION_WORDS,
            words@.len() == SHARED_REGION_WORDS,
            forall|j: int| 0 <= j < i ==> words@[j] == 0,
        decreases SHARED_REGION_WORDS - i,
    {
        words[i] = 0;
        i += 1;
    }
    words[1] = QUEUE_TABLE_SIZE as u32;
    words[2] = QUEUE_TABLE_HEADER_SIZE as u32;
    words[3] = QUEUE_HEADER_SIZE as u32;
    words[4] = QUEUE_COUNT as u32;
    words[5] = QUEUE_COUNT as u32;
    assert(words@ =~= fresh_region(queue_dma, 0));
    let mut queue: usize = 0;
    while queue < QUEUE_COUNT
        invariant
            queue <= QUEUE_COUNT,
            queue <= addressable_queues(queue_dma),
            words@ == fresh_region(queue_dma, queue as int),
        decreases QUEUE_COUNT - queue,
    {
        let offset: u32 = (QUEUE_TABLE_SIZE + queue * QUEUE_DATA_SIZE) as u32;
        let start_address: u32 = match queue_dma.checked_add(offset) {
            Some(address) => address,
            None => {
                return Err("qcom-venus-sc7180: HFI queue DMA address overflows");
            },
        };
        let ghost before = words@;
        write_header(words, queue, start_address);
        proof {
            assert forall|i: int| 0 <= i < SHARED_REGION_WORDS implies words@[i] == fresh_word(
                queue_dma,
                queue + 1,
                i,
            ) by {
                if header_at(queue as int, 0) <= i < header_at(queue as int, 14) {
                    let f = i - header_at(queue as int, 0);
                    assert((i - 6) / 14 == queue && (i - 6) % 14 == f);
                    assert(header(words@, queue as int, f) == fresh_header_word(
                        start_address,
                        queue as int,
                        f,
                    ));
                } else {
                    assert(words@[i] == before[i]);
                }
            }
            assert(words@ =~= fresh_region(queue_dma, queue + 1));
        }
        queue += 1;
    }
    words[SFR_OFFSET / 4] = SFR_SIZE as u32;
    Ok(())
}

/// The address of the region for the firmware's last words.
pub fn sfr_dma(queue_dma: u32) -> (r: Result<u32, &'static str>)
    ensures
        r == (if queue_dma + SFR_OFFSET <= u32::MAX {
            Ok::<u32, &'static str>((queue_dma + SFR_OFFSET) as u32)
        } else {
            Err("qcom-venus-sc7180: SFR DMA address overflows")
        }),
{
    match queue_dma.checked_add(SFR_OFFSET as u32) {
        Some(address) => Ok(address),
        None => Err("qcom-venus-sc7180: SFR DMA address overflows"),
    }
}

// Sending.

/// Words between the read and the write position.
pub open spec fn used_words(read: int, write: int, size: int) -> int {
    if write >= read {
        write - read
    } else {
        size - (read - write)
    }
}

/// Why a packet is not sent, if it is not. A full queue is the last reason.
pub open spec fn send_fault(words: Seq<u32>, packet: Seq<u32>) -> Option<&'static str> {
    let read = header(words, 0, 12);
    let write = header(words, 0, 13);
    let size = header(words, 0, 3);
    if packet.len() < 2 || packet.len() * 4 > MAX_PACKET_BYTES || packet[0] != packet.len() * 4 {
        Some("qcom-venus-sc7180: invalid outgoing HFI packet")
    } else if size == 0 || size > QUEUE_DATA_WORDS {
        Some("qcom-venus-sc7180: invalid HFI command queue size")
    } else if read >= size || write >= size {
        Some("qcom-venus-sc7180: invalid HFI command queue index")
    } else if size - used_words(read as int, write as int, size as int) <= packet.len() {
        Some(QUEUE_FULL)
    } else {
        None
    }
}

pub const QUEUE_FULL: &'static str = "qcom-venus-sc7180: HFI command queue is full";

/// The region after a packet was sent. A synchronous one asks for an
/// interrupt on the reply.
pub open spec fn after_send(words: Seq<u32>, packet: Seq<u32>, synchronous: bool) -> Seq<u32> {
    let write = header(words, 0, 13) as int;
    let size = header(words, 0, 3) as int;
    let queued = with_ring_words(
        words.update(header_at(0, 9), 0u32),
        0,
        write,
        size,
        packet,
    ).update(header_at(0, 13), wrapped(write + packet.len(), size) as u32);
    if synchronous {
        queued.update(header_at(1, 8), 1u32)
    } else {
        queued
    }
}

fn copy_words_to_queue(
    words: &mut [u32],
    queue: usize,
    write_index: u32,
    data: &[u32],
    queue_size: u32,
)
    requires
        old(words)@.len() == SHARED_REGION_WORDS,
        queue < QUEUE_COUNT,
        write_index < queue_size <= QUEUE_DATA_WORDS,
        data@.len() < queue_size,
    ensures
        final(words)@ == with_ring_words(
            old(words)@,
            queue as int,
            write_index as int,
            queue_size as int,
            data@,
        ),
{
    let ghost before = words@;
    let base: usize = 48 + 204_800 * queue;
    let start: usize = write_index as usize;
    let size: usize = queue_size as usize;
    let mut i: usize = 0;
    assert(words@ =~= with_ring_words(
        before,
        queue as int,
        start as int,
        size as int,
        data@.take(0),
    ));
    while i < data.len()
        invariant
            i <= data@.len() < size <= QUEUE_DATA_WORDS,
            start < size,
            queue < QUEUE_COUNT,
            base == ring_at(queue as int),
            before.len() == SHARED_REGION_WORDS,
            words@ == with_ring_words(
                before,
                queue as int,
                start as int,
                size as int,
                data@.take(i as int),
            ),
        decreases data@.len() - i,
    {
        let position: usize = if start + i >= size {
            start + i - size
        } else {
            start + i
        };
        words[base + position] = data[i];
        assert(words@ =~= with_ring_words(
            before,
            queue as int,
            start as int,
            size as int,
            data@.take(i + 1),
        ));
        i += 1;
    }
    assert(data@.take(data@.len() as int) =~= data@);
}

/// Puts a packet in the command queue. The caller then raises the host
/// interrupt. A full queue asks the firmware for a notice when there is room.
pub fn send(words: &mut [u32], packet: &[u32], synchronous: bool) -> (r: Result<(), &'static str>)
    requires
        old(words)@.len() == SHARED_REGION_WORDS,
    ensures
        final(words)@.len() == SHARED_REGION_WORDS,
        match r {
            Ok(_) => {
                &&& send_fault(old(words)@, packet@) is None
                &&& final(words)@ == after_send(old(words)@, packet@, synchronous)
            },
            Err(e) => {
                &&& send_fault(old(words)@, packet@) == Some(e)
                &&& final(words)@ == (if e == QUEUE_FULL {
                    old(words)@.update(header_at(0, 9), 1u32)
                } else {
                    old(words)@
                })
            },
        },
{
    proof {
        reveal_strlit("qcom-venus-sc7180: HFI command queue is full");
        reveal_strlit("qcom-venus-sc7180: invalid outgoing HFI packet");
        reveal_strlit("qcom-venus-sc7180: invalid HFI command queue size");
        reveal_strlit("qcom-venus-sc7180: invalid HFI command queue index");
    }
    if packet.len() < 2 || packet.len() > MAX_PACKET_BYTES / 4 || packet[0] as usize != packet.len()
        * 4 {
        return Err("qcom-venus-sc7180: invalid outgoing HFI packet");
    }
    let read_index: u32 = read_header_word(words, COMMAND_QUEUE, Q_READ_INDEX);
    let write_index: u32 = read_header_word(words, COMMAND_QUEUE, Q_WRITE_INDEX);
    let queue_size: u32 = read_header_word(words, COMMAND_QUEUE, Q_SIZE);
    if queue_size == 0 || queue_size > QUEUE_DATA_WORDS {
        return Err("qcom-venus-sc7180: invalid HFI command queue size");
    }
    if read_index >= queue_size || write_index >= queue_size {
        return Err("qcom-venus-sc7180: invalid HFI command queue index");
    }
    let used: u32 = if write_index >= read_index {
        write_index - read_index
    } else {
        queue_size - (read_index - write_index)
    };
    let free: u32 = queue_size - used;
    if free <= packet.len() as u32 {
        write_header_word(words, COMMAND_QUEUE, Q_TX_REQUEST, 1);
        return Err(QUEUE_FULL);
    }
    write_header_word(words, COMMAND_QUEUE, Q_TX_REQUEST, 0);
    copy_words_to_queue(words, COMMAND_QUEUE, write_index, packet, queue_size);
    let end: u32 = write_index + packet.len() as u32;
    let new_write: u32 = if end >= queue_size {
        end - queue_size
    } else {
        end
    };
    write_header_word(words, COMMAND_QUEUE, Q_WRITE_INDEX, new_write);
    if synchronous {
        write_header_word(words, MESSAGE_QUEUE, Q_RX_REQUEST, 1);
    }
    Ok(())
}

// Receiving.

/// What reading a queue gives, and the region afterwards.
#[verifier::ext_equal]
pub struct Reception {
    pub result: Result<Option<Seq<u32>>, &'static str>,
    pub words: Seq<u32>,
}

/// Skips everything in a queue. Only the message queue asks for an interrupt
/// on what comes next.
pub open spec fn dropped(words: Seq<u32>, queue: int) -> Seq<u32> {
    words.update(header_at(queue, 12), header(words, queue, 13)).update(
        header_at(queue, 8),
        if queue == MESSAGE_QUEUE {
            1u32
        } else {
            0u32
        },
    )
}

pub open spec fn fault(words: Seq<u32>, text: &'static str) -> Reception {
    Reception { result: Err(text), words }
}

/// Reads one packet. A packet whose size cannot be right makes the rest of
/// the queue unreadable, so all of it is dropped.
pub open spec fn receive(words: Seq<u32>, queue: int, request_interrupt: bool) -> Reception {
    let read = header(words, queue, 12);
    let write = header(words, queue, 13);
    let size = header(words, queue, 3);
    let bytes = words[ring_at(queue) + read];
    let count = bytes as int / 4;
    if size == 0 || size > QUEUE_DATA_WORDS {
        fault(words, "qcom-venus-sc7180: invalid HFI receive queue size")
    } else if read >= size || write >= size {
        fault(words, "qcom-venus-sc7180: invalid HFI receive queue index")
    } else if read == write {
        Reception {
            result: Ok(None),
            words: words.update(
                header_at(queue, 8),
                if request_interrupt {
                    1u32
                } else {
                    0u32
                },
            ),
        }
    } else if bytes < 8 || bytes > MAX_PACKET_BYTES || bytes % 4 != 0 {
        fault(
            dropped(words, queue),
            "qcom-venus-sc7180: firmware produced an invalid HFI packet size",
        )
    } else if count >= size {
        fault(
            dropped(words, queue),
            "qcom-venus-sc7180: firmware HFI packet exceeds queue capacity",
        )
    } else {
        let next = wrapped(read + count, size as int) as u32;
        Reception {
            result: Ok(Some(ring_words(words, queue, read as int, count, size as int))),
            words: words.update(header_at(queue, 12), next).update(
                header_at(queue, 8),
                if request_interrupt && next == write {
                    1u32
                } else {
                    0u32
                },
            ),
        }
    }
}

fn copy_words_from_queue(
    words: &[u32],
    queue: usize,
    read_index: u32,
    count: usize,
    queue_size: u32,
) -> (r: Vec<u32>)
    requires
        words@.len() == SHARED_REGION_WORDS,
        queue < QUEUE_COUNT,
        read_index < queue_size <= QUEUE_DATA_WORDS,
        count < queue_size,
    ensures
        r@ == ring_words(
            words@,
            queue as int,
            read_index as int,
            count as int,
            queue_size as int,
        ),
{
    let base: usize = 48 + 204_800 * queue;
    let start: usize = read_index as usize;
    let size: usize = queue_size as usize;
    let mut out: Vec<u32> = Vec::new();
    let mut i: usize = 0;
    while i < count
        invariant
            i <= count < size <= QUEUE_DATA_WORDS,
            start < size,
            queue < QUEUE_COUNT,
            base == ring_at(queue as int),
            words@.len() == SHARED_REGION_WORDS,
            out@ == ring_words(words@, queue as int, start as int, i as int, size as int),
        decreases count - i,
    {
        let position: usize = if start + i >= size {
            start + i - size
        } else {
            start + i
        };
        out.push(words[base + position]);
        i += 1;
        assert(out@ =~= ring_words(words@, queue as int, start as int, i as int, size as int));
    }
    out
}

fn drop_receive_queue(words: &mut [u32], queue: usize, write_index: u32)
    requires
        old(words)@.len() == SHARED_REGION_WORDS,
        queue < QUEUE_COUNT,
        write_index == header(old(words)@, queue as int, 13),
    ensures
        final(words)@ == dropped(old(words)@, queue as int),
{
    write_header_word(words, queue, Q_READ_INDEX, write_index);
    write_header_word(
        words,
        queue,
        Q_RX_REQUEST,
        if queue == MESSAGE_QUEUE {
            1
        } else {
            0
        },
    );
}

/// Takes the next packet of a queue, if there is one. After a packet was
/// taken, the caller asks [`notification_requested`].
pub fn read_queue(words: &mut [u32], queue: usize, request_interrupt: bool) -> (r: Result<
    Option<Vec<u32>>,
    &'static str,
>)
    requires
        old(words)@.len() == SHARED_REGION_WORDS,
        queue < QUEUE_COUNT,
    ensures
        final(words)@.len() == SHARED_REGION_WORDS,
        final(words)@ == receive(old(words)@, queue as int, request_interrupt).words,
        match r {
            Ok(Some(packet)) => receive(old(words)@, queue as int, request_interrupt).result == Ok::<
                Option<Seq<u32>>,
                &'static str,
            >(Some(packet@)),
            Ok(None) => receive(old(words)@, queue as int, request_interrupt).result == Ok::<
                Option<Seq<u32>>,
                &'static str,
            >(None),
            Err(e) => receive(old(words)@, queue as int, request_interrupt).result == Err::<
                Option<Seq<u32>>,
                &'static str,
            >(e),
        },
{
    let read_index: u32 = read_header_word(words, queue, Q_READ_INDEX);
    let write_index: u32 = read_header_word(words, queue, Q_WRITE_INDEX);
    let queue_size: u32 = read_header_word(words, queue, Q_SIZE);
    if queue_size == 0 || queue_size > QUEUE_DATA_WORDS {
        return Err("qcom-venus-sc7180: invalid HFI receive queue size");
    }
    if read_index >= queue_size || write_index >= queue_size {
        return Err("qcom-venus-sc7180: invalid HFI receive queue index");
    }
    if read_index == write_index {
        write_header_word(
            words,
            queue,
            Q_RX_REQUEST,
            if request_interrupt {
                1
            } else {
                0
            },
        );
        return Ok(None);
    }
    let packet_bytes: u32 = words[48 + 204_800 * queue + read_index as usize];
    if packet_bytes < 8 || packet_bytes > MAX_PACKET_BYTES as u32 || packet_bytes % 4 != 0 {
        drop_receive_queue(words, queue, write_index);
        return Err("qcom-venus-sc7180: firmware produced an invalid HFI packet size");
    }
    let packet_words: u32 = packet_bytes / 4;
    if packet_words >= queue_size {
        drop_receive_queue(words, queue, write_index);
        return Err("qcom-venus-sc7180: firmware HFI packet exceeds queue capacity");
    }
    let packet = copy_words_from_queue(
        words,
        queue,
        read_index,
        packet_words as usize,
        queue_size,
    );
    if packet[0] != packet_bytes {
        drop_receive_queue(words, queue, write_index);
        return Err("qcom-venus-sc7180: inconsistent HFI packet header");
    }
    let end: u32 = read_index + packet_words;
    let new_read: u32 = if end >= queue_size {
        end - queue_size
    } else {
        end
    };
    write_header_word(words, queue, Q_READ_INDEX, new_read);
    write_header_word(
        words,
        queue,
        Q_RX_REQUEST,
        if request_interrupt && new_read == write_index {
            1
        } else {
            0
        },
    );
    Ok(Some(packet))
}

/// Whether the firmware waits for room in a queue and wants an interrupt.
pub fn notification_requested(words: &[u32], queue: usize) -> (r: bool)
    requires
        words@.len() == SHARED_REGION_WORDS,
        queue < QUEUE_COUNT,
    ensures
        r == (header(words@, queue as int, 9) != 0),
{
    read_header_word(words, queue, Q_TX_REQUEST) != 0
}

// Diagnostics.

/// How many packets of the debug queue one look takes at most.
pub const DEBUG_BATCH: usize = 32;

/// Whether the debug queue is read once more, after so many reads of which the
/// last, if any, found a packet or did not.
pub fn reads_more_debug(reads: usize, found: bool) -> (r: bool)
    ensures
        r == (reads == 0 || found && reads < DEBUG_BATCH),
{
    reads == 0 || found && reads < DEBUG_BATCH
}

/// Byte `index` of words, least significant byte first.
pub open spec fn byte_of(words: Seq<u32>, index: int) -> u8 {
    let word = words[index / 4] as int;
    if index % 4 == 0 {
        (word % 0x100) as u8
    } else if index % 4 == 1 {
        (word / 0x100 % 0x100) as u8
    } else if index % 4 == 2 {
        (word / 0x1_0000 % 0x100) as u8
    } else {
        (word / 0x100_0000) as u8
    }
}

fn get_byte(words: &[u32], index: usize) -> (r: u8)
    requires
        index < words@.len() * 4,
    ensures
        r == byte_of(words@, index as int),
{
    let word: u32 = words[index / 4];
    match index % 4 {
        0 => (word % 0x100) as u8,
        1 => (word / 0x100 % 0x100) as u8,
        2 => (word / 0x1_0000 % 0x100) as u8,
        _ => (word / 0x100_0000) as u8,
    }
}

/// The text of at most `limit` bytes from `start` on, up to a zero byte.
pub open spec fn is_text(words: Seq<u32>, start: int, limit: int, text: Seq<u8>) -> bool {
    &&& text.len() <= limit
    &&& forall|i: int|
        0 <= i < text.len() ==> #[trigger] text[i] == byte_of(words, start + i) && text[i] != 0
    &&& text.len() < limit ==> byte_of(words, start + text.len()) == 0
}

/// Reads text out of words.
pub fn read_text(words: &[u32], start: usize, limit: usize) -> (r: Vec<u8>)
    requires
        start + limit <= words@.len() * 4,
        words@.len() * 4 <= usize::MAX,
    ensures
        is_text(words@, start as int, limit as int, r@),
{
    let mut text: Vec<u8> = Vec::new();
    let mut i: usize = 0;
    while i < limit
        invariant
            i <= limit,
            start + limit <= words@.len() * 4,
            words@.len() * 4 <= usize::MAX,
            text@.len() == i,
            forall|j: int|
                0 <= j < i ==> #[trigger] text@[j] == byte_of(words@, start + j) && text@[j] != 0,
        decreases limit - i,
    {
        let byte: u8 = get_byte(words, start + i);
        if byte == 0 {
            return text;
        }
        text.push(byte);
        i += 1;
    }
    text
}

/// The text of a debug packet: what its length field asks for, as far as the
/// packet goes. `None` where it is not a debug packet.
pub fn debug_text(packet: &[u32]) -> (r: Option<Vec<u8>>)
    requires
        packet@.len() * 4 <= usize::MAX,
    ensures
        match r {
            None => packet@.len() < 6 || packet@[1] != HFI_MSG_SYS_DEBUG,
            Some(text) => {
                &&& packet@.len() >= 6 && packet@[1] == HFI_MSG_SYS_DEBUG
                &&& is_text(
                    packet@,
                    24,
                    if packet@[3] <= 4 * (packet@.len() - 6) {
                        packet@[3] as int
                    } else {
                        4 * (packet@.len() - 6)
                    },
                    text@,
                )
            },
        },
{
    if packet.len() < 6 || packet[1] != HFI_MSG_SYS_DEBUG {
        return None;
    }
    let available: usize = (packet.len() - 6) * 4;
    let requested: usize = packet[3] as usize;
    let limit: usize = if requested <= available {
        requested
    } else {
        available
    };
    Some(read_text(packet, 24, limit))
}

/// The firmware's last words.
pub fn sfr_text(words: &[u32]) -> (r: Vec<u8>)
    requires
        words@.len() == SHARED_REGION_WORDS,
    ensures
        is_text(words@, SFR_OFFSET + 4, SFR_SIZE - 4, r@),
{
    read_text(words, SFR_OFFSET + 4, SFR_SIZE - 4)
}

// Laws.

/// What was written to a ring is read back from the same place.
pub proof fn ring_words_are_read_back(
    words: Seq<u32>,
    queue: int,
    start: int,
    size: int,
    data: Seq<u32>,
)
    requires
        words.len() == SHARED_REGION_WORDS,
        0 <= queue < QUEUE_COUNT,
        0 <= start < size <= QUEUE_DATA_WORDS,
        data.len() <= size,
    ensures
        ring_words(
            with_ring_words(words, queue, start, size, data),
            queue,
            start,
            data.len() as int,
            size,
        ) == data,
{
    assert(ring_words(
        with_ring_words(words, queue, start, size, data),
        queue,
        start,
        data.len() as int,
        size,
    ) =~= data);
}

/// A packet sent into an empty command queue is what a reader of that queue
/// receives next, and the queue is empty again.
pub proof fn a_sent_packet_is_received(words: Seq<u32>, packet: Seq<u32>, synchronous: bool)
    requires
        words.len() == SHARED_REGION_WORDS,
        send_fault(words, packet) is None,
        header(words, 0, 12) == header(words, 0, 13),
    ensures
        ({
            let received = receive(after_send(words, packet, synchronous), 0, true);
            &&& received.result == Ok::<Option<Seq<u32>>, &'static str>(Some(packet))
            &&& header(received.words, 0, 12) == header(received.words, 0, 13)
        }),
{
    let sent = after_send(words, packet, synchronous);
    let read = header(words, 0, 12) as int;
    let size = header(words, 0, 3) as int;
    assert(header(sent, 0, 12) == read);
    assert(header(sent, 0, 3) == size);
    assert(sent[ring_at(0) + read] == packet[0]);
    assert(ring_words(sent, 0, read, packet.len() as int, size) =~= packet);
}

/// Sending leaves alone what the queue holds already: every word between the
/// read and the write position stays, and so does the read position.
pub proof fn sending_keeps_what_is_queued(
    words: Seq<u32>,
    packet: Seq<u32>,
    synchronous: bool,
)
    requires
        words.len() == SHARED_REGION_WORDS,
        send_fault(words, packet) is None,
    ensures
        ({
            let sent = after_send(words, packet, synchronous);
            let read = header(words, 0, 12) as int;
            let write = header(words, 0, 13) as int;
            let size = header(words, 0, 3) as int;
            let used = used_words(read, write, size);
            &&& header(sent, 0, 12) == read
            &&& ring_words(sent, 0, read, used, size) == ring_words(words, 0, read, used, size)
            &&& used_words(read, header(sent, 0, 13) as int, size) == used + packet.len()
        }),
{
    let sent = after_send(words, packet, synchronous);
    let read = header(words, 0, 12) as int;
    let write = header(words, 0, 13) as int;
    let size = header(words, 0, 3) as int;
    let used = used_words(read, write, size);
    assert(ring_words(sent, 0, read, used, size) =~= ring_words(words, 0, read, used, size));
}

/// Receiving changes nothing but the queue's read position and its interrupt
/// request, whatever the firmware left in the region.
pub proof fn receiving_changes_two_header_words(
    words: Seq<u32>,
    queue: int,
    request_interrupt: bool,
    index: int,
)
    requires
        words.len() == SHARED_REGION_WORDS,
        0 <= queue < QUEUE_COUNT,
        0 <= index < SHARED_REGION_WORDS,
        index != header_at(queue, 12),
        index != header_at(queue, 8),
    ensures
        receive(words, queue, request_interrupt).words[index] == words[index],
{
}

} // verus!
