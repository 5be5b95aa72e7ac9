//! What the arbiter is asked and what it answers.

use vstd::prelude::*;

use crate::bytes::le32_bytes;
use crate::geni::unpacked;
use crate::platform::Resource;
use crate::spmi::{
    channel_of, data_bytes, memory_windows, outcome_of, probe_windows, read_command, whole_cell,
    Entry, ProbeStage, ProbeView, QcomSpmiPmicArb, ReadAskView, ReadStage, SpmiRead, Windows,
};

verus! {

/// A register is reached through the channel of its peripheral, the slave and
/// the high byte of the address: the channel's number and the environment tell
/// where it lies.
pub proof fn peripherals_have_their_channel(
    arb: QcomSpmiPmicArb,
    sid: u8,
    address: u16,
    other: u16,
)
    requires
        arb.ppid_to_apid@.len() == 4096,
        forall|i: int|
            0 <= i < 4096 ==> #[trigger] arb.ppid_to_apid@[i] < 512 || arb.ppid_to_apid@[i]
                == 0xffff,
    ensures
        address / 0x100 == other / 0x100 ==> channel_of(arb, sid, address) == channel_of(
            arb,
            sid,
            other,
        ),
        channel_of(arb, sid, address) is Ok <==> sid < 16 && arb.ppid_to_apid@[sid * 0x100 + address
            as int / 0x100] != 0xffff,
        channel_of(arb, sid, address) matches Ok(channel) ==> {
            &&& channel / 0x1_0000 == arb.ee
            &&& channel % 0x80 == 0
            &&& channel % 0x1_0000 / 0x80 == arb.ppid_to_apid@[sid * 0x100 + address as int / 0x100]
        },
{
}

/// A command to read says so in its top bits, and names the low byte of the
/// address and one less than the number of bytes.
pub proof fn commands_name_what_is_read(address: u16, length: int)
    requires
        1 <= length <= 8,
    ensures
        read_command(address, length) % 0x10 == length - 1,
        read_command(address, length) / 0x10 % 0x100 == address % 0x100,
        read_command(address, length) / 0x1000 == 0x8000,
{
}

/// A transaction has succeeded exactly where it is done and none of the three
/// faults is marked, and is awaited exactly where it is not done.
pub proof fn success_has_no_fault_mark(status: u32)
    ensures
        outcome_of(status) is None <==> status % 2 == 0,
        outcome_of(status) == Some(Ok::<(), &'static str>(())) <==> status % 16 == 1,
{
}

/// The bytes that are read are those of the data registers, the lowest first.
pub proof fn read_bytes_are_register_bytes(low: u32, high: u32, length: int)
    requires
        1 <= length <= 8,
    ensures
        data_bytes(low, high, length) == (le32_bytes(low as int) + le32_bytes(high as int)).take(
            length,
        ),
{
    let words = seq![low, high];
    let bytes = le32_bytes(low as int) + le32_bytes(high as int);
    assert forall|i: int| 0 <= i < length implies data_bytes(low, high, length)[i]
        == bytes[i] by {
        assert(unpacked(words, i) == bytes[i]) by {
            if i == 0 || i == 4 {
            } else if i == 1 || i == 5 {
            } else if i == 2 || i == 6 {
            } else {
            }
        }
    }
    assert(data_bytes(low, high, length) =~= bytes.take(length));
}

/// A read that is done takes its bytes from the first data register, and from
/// the second one where there are more than four.
pub proof fn a_read_takes_its_bytes(read: SpmiRead, status: u32, low: u32, high: u32, left: u32)
    requires
        read.wf(),
        read.stage == (ReadStage::Status { left }),
        status % 16 == 1,
    ensures
        ({
            let a = read.step(status);
            let b = a.0.step(low);
            let c = b.0.step(high);
            let bytes = le32_bytes(low as int) + le32_bytes(high as int);
            &&& a.1 == (ReadAskView::Read { delay_us: 0, offset: (read.channel + 0x18) as usize })
            &&& read.length <= 4 ==> b.1 == (ReadAskView::Finished {
                delay_us: 0,
                result: Ok(bytes.take(read.length as int)),
            })
            &&& read.length > 4 ==> {
                &&& b.1 == (ReadAskView::Read {
                    delay_us: 0,
                    offset: (read.channel + 0x1c) as usize,
                })
                &&& c.1 == (ReadAskView::Finished {
                    delay_us: 0,
                    result: Ok(bytes.take(read.length as int)),
                })
            }
        }),
{
    success_has_no_fault_mark(status);
    read_bytes_are_register_bytes(low, high, read.length as int);
    read_bytes_are_register_bytes(low, 0, read.length as int);
    let bytes = le32_bytes(low as int) + le32_bytes(high as int);
    let brief = le32_bytes(low as int) + le32_bytes(0);
    if read.length <= 4 {
        assert(brief.take(read.length as int) =~= bytes.take(read.length as int));
    }
}

/// Each channel that is in use is entered with its number, the peripheral in the
/// middle twelve bits of its mapping, and whether its owner, the low three bits
/// of the ownership word, is this environment.
pub proof fn used_channels_are_entered(probe: ProbeView, mapping: u32, owner: u32, apid: usize)
    requires
        probe.wf(),
        probe.stage == (ProbeStage::Mapping { apid }),
        mapping != 0,
        0x700 + 4 * apid + 4 <= probe.config_size,
    ensures
        probe.step(mapping).0.step(owner).0.entries == probe.entries.push(
            Entry {
                apid: apid as u16,
                ppid: (mapping as int / 0x100 % 0x1000) as u16,
                owned: probe.ee == Some((owner % 8) as u32),
            },
        ),
        probe.step(0).0.entries == probe.entries,
{
}

/// A cell property is exactly four bytes, the highest first.
pub proof fn cells_are_whole(value: Seq<u8>)
    ensures
        whole_cell(Some(value)) is Some <==> value.len() == 4,
        whole_cell(Some(value)) matches Some(cell) ==> cell == 0x100_0000 * value[0] + 0x1_0000
            * value[1] + 0x100 * value[2] + value[3],
        whole_cell(None) is None,
{
}

/// The windows are the memory resources, in order, each with its start and
/// its size, both ends included.
pub proof fn windows_are_the_memory_resources(resources: Seq<Resource>, next: Resource)
    ensures
        next.is_memory && next.start <= next.end && next.end - next.start < usize::MAX
            ==> memory_windows(resources.push(next)) == memory_windows(resources).push(
            (next.start, (next.end - next.start + 1) as usize),
        ),
        !next.is_memory || next.end < next.start ==> memory_windows(resources.push(next))
            == memory_windows(resources),
        memory_windows(Seq::empty()).len() == 0,
{
    assert(resources.push(next).drop_last() =~= resources);
}

/// The first window is the core's, the third the observer's and the fifth the
/// configuration's.
pub proof fn windows_have_their_place(resources: &[Resource], r: Result<Windows, &'static str>)
    requires
        call_ensures(probe_windows, (resources,), r),
    ensures
        r is Ok <==> memory_windows(resources@).len() >= 5,
        r matches Ok(windows) ==> windows.core == memory_windows(resources@)[0] && windows.observer
            == memory_windows(resources@)[2] && windows.config == memory_windows(resources@)[4],
{
}

/// A read asks for the status of its channel (at 8), up to a thousand times and
/// a microsecond apart, then for the first four bytes (at 0x18), and for the
/// rest (at 0x1c) where more are wanted.
pub proof fn reads_go_through_the_channel(read: SpmiRead, left: u32, value: u32)
    requires
        read.channel + 0x1c <= usize::MAX,
        left >= 1,
    ensures
        read.at(ReadStage::Command).step(value) == (
            read.at(ReadStage::Status { left: 1000 }),
            ReadAskView::Read { delay_us: 0, offset: (read.channel + 8) as usize },
        ),
        outcome_of(value) is None && left > 1 ==> read.at(ReadStage::Status { left }).step(value)
            == (
            read.at(ReadStage::Status { left: (left - 1) as u32 }),
            ReadAskView::Read { delay_us: 1, offset: (read.channel + 8) as usize },
        ),
        outcome_of(value) is None && left == 1 ==> read.at(ReadStage::Status { left }).step(
            value,
        ).0.stage is Over,
        outcome_of(value) is Some && outcome_of(value)->0 is Ok ==> read.at(
            ReadStage::Status { left },
        ).step(value) == (
            read.at(ReadStage::Low),
            ReadAskView::Read { delay_us: 0, offset: (read.channel + 0x18) as usize },
        ),
        read.length > 4 ==> read.at(ReadStage::Low).step(value) == (
            read.at(ReadStage::High { low: value }),
            ReadAskView::Read { delay_us: 0, offset: (read.channel + 0x1c) as usize },
        ),
        read.length <= 4 ==> read.at(ReadStage::Low).step(value).0.stage is Over,
{
}

/// An execution environment is one of six.
pub proof fn environments_are_six(probe: ProbeView)
    ensures
        probe.known_environment() <==> probe.ee is Some && probe.ee->0 < 6,
{
}

} // verus!
