//! The read-only observer path of the SC7180 PMIC arbiter.
//!
//! A peripheral of the power-management bus is named by a slave and the upper
//! half of a register address. The arbiter has a channel for each peripheral;
//! which one is read from its tables when it is probed.

use vstd::prelude::*;

use crate::bytes::{be32, read_be_u32};
use crate::geni::{unpack_byte, unpacked};
use crate::platform::{resource_size, span, Resource};

pub mod laws;

verus! {

pub const PMIC_ARB_VERSION: usize = 0x0000;

pub const PMIC_ARB_FEATURES: usize = 0x0004;

pub const PMIC_ARB_VERSION_V5_MIN: u32 = 0x5000_0000;

pub const PMIC_ARB_VERSION_V7_MIN: u32 = 0x7000_0000;

pub const APID_MAP_BASE: usize = 0x0900;

pub const APID_OWNER_BASE: usize = 0x0700;

pub const MAX_APIDS: usize = 512;

pub const MAX_PPIDS: usize = 4096;

pub const APID_INVALID: u16 = 0xffff;

pub const CHANNEL_STATUS: usize = 0x08;

pub const CHANNEL_RDATA0: usize = 0x18;

pub const CHANNEL_RDATA1: usize = 0x1c;

pub const MAX_TRANSFER: usize = 8;

pub const TRANSACTION_TIMEOUT_US: u32 = 1_000;

/// An arbiter: the environment it is used from, and the channel of each
/// peripheral.
#[derive(Debug)]
pub struct QcomSpmiPmicArb {
    pub ee: u8,
    pub ppid_to_apid: Vec<u16>,
}

// Reading.

/// The place of a peripheral's channel in the observer window.
pub open spec fn channel_of(arb: QcomSpmiPmicArb, sid: u8, address: u16) -> Result<
    usize,
    &'static str,
> {
    let ppid = sid * 0x100 + address as int / 0x100;
    if sid > 0xf {
        Err("qcom-spmi-pmic-arb: invalid slave ID")
    } else if arb.ppid_to_apid@.len() <= ppid {
        Err("qcom-spmi-pmic-arb: PPID out of range")
    } else if arb.ppid_to_apid@[ppid] == APID_INVALID {
        Err("qcom-spmi-pmic-arb: no APID for peripheral")
    } else {
        Ok((0x1_0000 * arb.ee + 0x80 * arb.ppid_to_apid@[ppid]) as usize)
    }
}

/// The command that reads `length` bytes.
pub open spec fn read_command(address: u16, length: int) -> u32 {
    (0x800_0000 + 0x10 * (address as int % 0x100) + (length - 1)) as u32
}

pub open spec fn status_bit(status: u32, mask: int) -> bool {
    status as int / mask % 2 == 1
}

/// What a status tells: not done yet, done, or why it failed.
pub open spec fn outcome_of(status: u32) -> Option<Result<(), &'static str>> {
    if !status_bit(status, 1) {
        None
    } else if status_bit(status, 4) {
        Some(Err("qcom-spmi-pmic-arb: transaction denied"))
    } else if status_bit(status, 8) {
        Some(Err("qcom-spmi-pmic-arb: transaction dropped"))
    } else if status_bit(status, 2) {
        Some(Err("qcom-spmi-pmic-arb: transaction failed"))
    } else {
        Some(Ok(()))
    }
}

/// The first bytes of two data words, the lowest first.
pub open spec fn data_bytes(low: u32, high: u32, length: int) -> Seq<u8> {
    Seq::new(length as nat, |i: int| unpacked(seq![low, high], i))
}

/// Which access was made last.
#[derive(Clone, Copy, Debug, Eq, PartialEq, Structural)]
pub enum ReadStage {
    Command,
    Status { left: u32 },
    Low,
    High { low: u32 },
    Over,
}

/// What to do next, in the observer window.
#[derive(Debug)]
pub enum ReadAsk {
    Write { offset: usize, value: u32 },
    /// Wait, then read a register.
    Read { delay_us: u64, offset: usize },
    /// Wait; the read is then over.
    Finished { delay_us: u64, result: Result<Vec<u8>, &'static str> },
}

pub ghost enum ReadAskView {
    Write { offset: usize, value: u32 },
    Read { delay_us: u64, offset: usize },
    Finished { delay_us: u64, result: Result<Seq<u8>, &'static str> },
}

impl View for ReadAsk {
    type V = ReadAskView;

    open spec fn view(&self) -> ReadAskView {
        match *self {
            ReadAsk::Write { offset, value } => ReadAskView::Write { offset, value },
            ReadAsk::Read { delay_us, offset } => ReadAskView::Read { delay_us, offset },
            ReadAsk::Finished { delay_us, result } => ReadAskView::Finished {
                delay_us,
                result: match result {
                    Ok(bytes) => Ok(bytes@),
                    Err(e) => Err(e),
                },
            },
        }
    }
}

/// A read on its way.
#[derive(Clone, Copy, Debug, Eq, PartialEq, Structural)]
pub struct SpmiRead {
    pub channel: usize,
    pub length: usize,
    pub stage: ReadStage,
}

impl SpmiRead {
    pub open spec fn wf(self) -> bool {
        &&& self.channel <= 0x200_0000
        &&& 1 <= self.length <= MAX_TRANSFER
        &&& self.stage matches ReadStage::Status { left } ==> left >= 1
    }

    pub open spec fn at(self, stage: ReadStage) -> SpmiRead {
        SpmiRead { stage, ..self }
    }

    pub open spec fn finish(self, delay_us: u64, result: Result<Seq<u8>, &'static str>) -> (
        SpmiRead,
        ReadAskView,
    ) {
        (self.at(ReadStage::Over), ReadAskView::Finished { delay_us, result })
    }

    pub open spec fn ask(self, stage: ReadStage, delay_us: u64, register: usize) -> (
        SpmiRead,
        ReadAskView,
    ) {
        (
            self.at(stage),
            ReadAskView::Read { delay_us, offset: (self.channel + register) as usize },
        )
    }

    /// What follows an access; a write brings no value.
    pub open spec fn step(self, value: u32) -> (SpmiRead, ReadAskView) {
        match self.stage {
            ReadStage::Command => self.ask(
                ReadStage::Status { left: TRANSACTION_TIMEOUT_US },
                0,
                CHANNEL_STATUS,
            ),
            ReadStage::Status { left } => match outcome_of(value) {
                Some(Ok(_)) => self.ask(ReadStage::Low, 0, CHANNEL_RDATA0),
                Some(Err(e)) => self.finish(0, Err(e)),
                None => if left <= 1 {
                    self.finish(1, Err("qcom-spmi-pmic-arb: transaction timed out"))
                } else {
                    self.ask(ReadStage::Status { left: (left - 1) as u32 }, 1, CHANNEL_STATUS)
                },
            },
            ReadStage::Low => if self.length > 4 {
                self.ask(ReadStage::High { low: value }, 0, CHANNEL_RDATA1)
            } else {
                self.finish(0, Ok(data_bytes(value, 0, self.length as int)))
            },
            ReadStage::High { low } => self.finish(
                0,
                Ok(data_bytes(low, value, self.length as int)),
            ),
            ReadStage::Over => self.finish(
                0,
                Err("qcom-spmi-pmic-arb: transaction timed out"),
            ),
        }
    }

    fn end(&mut self, delay_us: u64, result: Result<Vec<u8>, &'static str>) -> (r: ReadAsk)
        requires
            old(self).wf(),
        ensures
            final(self).wf(),
            (*final(self), r@) == old(self).finish(
                delay_us,
                match result {
                    Ok(bytes) => Ok(bytes@),
                    Err(e) => Err(e),
                },
            ),
    {
        self.stage = ReadStage::Over;
        ReadAsk::Finished { delay_us, result }
    }

    fn look(&mut self, stage: ReadStage, delay_us: u64, register: usize) -> (r: ReadAsk)
        requires
            old(self).at(stage).wf(),
            register <= 0x20,
        ensures
            final(self).wf(),
            (*final(self), r@) == old(self).ask(stage, delay_us, register),
    {
        self.stage = stage;
        ReadAsk::Read { delay_us, offset: self.channel + register }
    }

    fn assemble(low: u32, high: u32, length: usize) -> (r: Vec<u8>)
        requires
            length <= MAX_TRANSFER,
        ensures
            r@ == data_bytes(low, high, length as int),
    {
        let mut words: Vec<u32> = Vec::new();
        words.push(low);
        words.push(high);
        assert(words@ =~= seq![low, high]);
        let mut bytes: Vec<u8> = Vec::new();
        let mut i: usize = 0;
        while i < length
            invariant
                i <= length <= MAX_TRANSFER,
                words@ == seq![low, high],
                bytes@ == data_bytes(low, high, i as int),
            decreases length - i,
        {
            bytes.push(unpack_byte(&words, i));
            i += 1;
            assert(bytes@ =~= data_bytes(low, high, i as int));
        }
        bytes
    }

    fn wait_for_done(status: u32) -> (r: Option<Result<(), &'static str>>)
        ensures
            r == outcome_of(status),
    {
        if status % 2 == 0 {
            None
        } else if status / 4 % 2 == 1 {
            Some(Err("qcom-spmi-pmic-arb: transaction denied"))
        } else if status / 8 % 2 == 1 {
            Some(Err("qcom-spmi-pmic-arb: transaction dropped"))
        } else if status / 2 % 2 == 1 {
            Some(Err("qcom-spmi-pmic-arb: transaction failed"))
        } else {
            Some(Ok(()))
        }
    }

    /// Goes on after an access.
    pub fn advance(&mut self, value: u32) -> (r: ReadAsk)
        requires
            old(self).wf(),
        ensures
            final(self).wf(),
            (*final(self), r@) == old(self).step(value),
    {
        match self.stage {
            ReadStage::Command => self.look(
                ReadStage::Status { left: TRANSACTION_TIMEOUT_US },
                0,
                CHANNEL_STATUS,
            ),
            ReadStage::Status { left } => match Self::wait_for_done(value) {
                Some(Ok(_)) => self.look(ReadStage::Low, 0, CHANNEL_RDATA0),
                Some(Err(e)) => self.end(0, Err(e)),
                None => {
                    if left <= 1 {
                        self.end(1, Err("qcom-spmi-pmic-arb: transaction timed out"))
                    } else {
                        self.look(ReadStage::Status { left: left - 1 }, 1, CHANNEL_STATUS)
                    }
                },
            },
            ReadStage::Low => {
                if self.length > 4 {
                    self.look(ReadStage::High { low: value }, 0, CHANNEL_RDATA1)
                } else {
                    let bytes = Self::assemble(value, 0, self.length);
                    self.end(0, Ok(bytes))
                }
            },
            ReadStage::High { low } => {
                let bytes = Self::assemble(low, value, self.length);
                self.end(0, Ok(bytes))
            },
            ReadStage::Over => self.end(0, Err("qcom-spmi-pmic-arb: transaction timed out")),
        }
    }
}

impl QcomSpmiPmicArb {
    fn observer_offset(&self, sid: u8, address: u16) -> (r: Result<usize, &'static str>)
        ensures
            r == channel_of(*self, sid, address),
            r matches Ok(channel) ==> channel <= 0x200_0000,
    {
        if sid > 0xf {
            return Err("qcom-spmi-pmic-arb: invalid slave ID");
        }
        let ppid: usize = sid as usize * 0x100 + address as usize / 0x100;
        if ppid >= self.ppid_to_apid.len() {
            return Err("qcom-spmi-pmic-arb: PPID out of range");
        }
        let apid: u16 = self.ppid_to_apid[ppid];
        if apid == APID_INVALID {
            return Err("qcom-spmi-pmic-arb: no APID for peripheral");
        }
        Ok(0x1_0000 * self.ee as usize + 0x80 * apid as usize)
    }

    /// Starts to read one to eight bytes of a peripheral.
    pub fn read(&self, sid: u8, address: u16, length: usize) -> (r: Result<
        (SpmiRead, ReadAsk),
        &'static str,
    >)
        ensures
            match r {
                Ok((read, ask)) => {
                    &&& 1 <= length <= MAX_TRANSFER
                    &&& read.wf()
                    &&& channel_of(*self, sid, address) == Ok::<usize, &'static str>(read.channel)
                    &&& read.length == length
                    &&& read.stage == ReadStage::Command
                    &&& ask@ == (ReadAskView::Write {
                        offset: read.channel,
                        value: read_command(address, length as int),
                    })
                },
                Err(e) => if 1 <= length <= MAX_TRANSFER {
                    channel_of(*self, sid, address) == Err::<usize, &'static str>(e)
                } else {
                    e == "qcom-spmi-pmic-arb: read length must be 1..=8 bytes"
                },
            },
    {
        if length == 0 || length > MAX_TRANSFER {
            return Err("qcom-spmi-pmic-arb: read length must be 1..=8 bytes");
        }
        let channel: usize = match self.observer_offset(sid, address) {
            Ok(channel) => channel,
            Err(e) => {
                return Err(e);
            },
        };
        let value: u32 = 0x800_0000 + 0x10 * (address as u32 % 0x100) + (length as u32 - 1);
        Ok(
            (
                SpmiRead { channel, length, stage: ReadStage::Command },
                ReadAsk::Write { offset: channel, value },
            ),
        )
    }
}

/// The registered arbiter.
pub fn get_controller(controller: &Option<QcomSpmiPmicArb>) -> (r: Option<&QcomSpmiPmicArb>)
    ensures
        match (r, *controller) {
            (Some(found), Some(registered)) => *found == registered,
            (None, None) => true,
            _ => false,
        },
{
    match controller {
        Some(registered) => Some(registered),
        None => None,
    }
}

// Probing.

/// A property of exactly one cell.
pub open spec fn whole_cell(property: Option<Seq<u8>>) -> Option<u32> {
    match property {
        Some(value) => if value.len() == 4 {
            Some(be32(value, 0) as u32)
        } else {
            None
        },
        None => None,
    }
}

pub fn be_u32_property(property: Option<&[u8]>) -> (r: Option<u32>)
    ensures
        r == whole_cell(crate::rpmh_rsc::content(property)),
{
    match property {
        Some(value) => {
            if value.len() == 4 {
                read_be_u32(value, 0)
            } else {
                None
            }
        },
        None => None,
    }
}

/// The register windows among the resources, each with its start and size.
pub open spec fn memory_windows(resources: Seq<Resource>) -> Seq<(usize, usize)>
    decreases resources.len(),
{
    if resources.len() == 0 {
        Seq::empty()
    } else {
        let before = memory_windows(resources.drop_last());
        let last = resources.last();
        match span(last.start, last.end) {
            Some(size) if last.is_memory => before.push((last.start, size as usize)),
            _ => before,
        }
    }
}

pub fn memory_resources(resources: &[Resource]) -> (r: Vec<(usize, usize)>)
    ensures
        r@ == memory_windows(resources@),
{
    let mut windows: Vec<(usize, usize)> = Vec::new();
    let length: usize = resources.len();
    let mut i: usize = 0;
    assert(resources@.take(0) =~= Seq::<Resource>::empty());
    while i < length
        invariant
            i <= length,
            length == resources@.len(),
            windows@ == memory_windows(resources@.take(i as int)),
        decreases length - i,
    {
        let resource = resources[i];
        assert(resources@.take(i + 1).drop_last() =~= resources@.take(i as int));
        if resource.is_memory {
            if let Some(size) = resource_size(resource.start, resource.end) {
                windows.push((resource.start, size));
            }
        }
        i += 1;
    }
    assert(resources@.take(length as int) =~= resources@);
    windows
}

/// The windows that an arbiter is probed with.
#[derive(Clone, Copy, Debug)]
pub struct Windows {
    pub core: (usize, usize),
    pub observer: (usize, usize),
    pub config: (usize, usize),
}

pub fn probe_windows(resources: &[Resource]) -> (r: Result<Windows, &'static str>)
    ensures
        r == ({
            let windows = memory_windows(resources@);
            if windows.len() < 5 {
                Err::<Windows, &'static str>("qcom-spmi-pmic-arb: expected five MMIO resources")
            } else {
                Ok(Windows { core: windows[0], observer: windows[2], config: windows[4] })
            }
        }),
{
    let windows = memory_resources(resources);
    if windows.len() < 5 {
        return Err("qcom-spmi-pmic-arb: expected five MMIO resources");
    }
    Ok(Windows { core: windows[0], observer: windows[2], config: windows[4] })
}

/// A channel that the tables name: its number, its peripheral, and whether
/// it is owned by the environment that the arbiter is used from.
#[derive(Clone, Copy, Debug, Eq, PartialEq, Structural)]
pub struct Entry {
    pub apid: u16,
    pub ppid: u16,
    pub owned: bool,
}

/// The channel of each peripheral: the first one, or the last one that is
/// owned.
pub open spec fn table_of(entries: Seq<Entry>) -> Seq<u16>
    decreases entries.len(),
{
    if entries.len() == 0 {
        Seq::new(MAX_PPIDS as nat, |i: int| APID_INVALID)
    } else {
        let before = table_of(entries.drop_last());
        let last = entries.last();
        if before[last.ppid as int] == APID_INVALID || last.owned {
            before.update(last.ppid as int, last.apid)
        } else {
            before
        }
    }
}

pub open spec fn entries_fit(entries: Seq<Entry>) -> bool {
    forall|i: int|
        0 <= i < entries.len() ==> (#[trigger] entries[i]).ppid < MAX_PPIDS && entries[i].apid
            < MAX_APIDS
}

/// Builds the table of channels.
pub fn build_table(entries: &Vec<Entry>) -> (r: Vec<u16>)
    requires
        entries_fit(entries@),
    ensures
        r@ == table_of(entries@),
        r@.len() == MAX_PPIDS,
{
    let mut table: Vec<u16> = vec![APID_INVALID; MAX_PPIDS];
    let length: usize = entries.len();
    let mut i: usize = 0;
    assert(entries@.take(0) =~= Seq::<Entry>::empty());
    assert(table@ =~= table_of(entries@.take(0)));
    while i < length
        invariant
            i <= length,
            length == entries@.len(),
            entries_fit(entries@),
            table@.len() == MAX_PPIDS,
            table@ == table_of(entries@.take(i as int)),
        decreases length - i,
    {
        let entry = entries[i];
        assert(entries@.take(i + 1).drop_last() =~= entries@.take(i as int));
        if table[entry.ppid as usize] == APID_INVALID || entry.owned {
            table.set(entry.ppid as usize, entry.apid);
        }
        i += 1;
    }
    assert(entries@.take(length as int) =~= entries@);
    table
}

/// Which register was read last.
#[derive(Clone, Copy, Debug, Eq, PartialEq, Structural)]
pub enum ProbeStage {
    Version,
    Features,
    Mapping { apid: usize },
    Owner { apid: usize, ppid: u16 },
    Over,
}

/// What to do next.
#[derive(Clone, Copy, Debug)]
pub enum ProbeAsk {
    ReadCore { offset: usize },
    ReadConfig { offset: usize },
    Finished { result: Result<(), &'static str> },
}

/// An arbiter that is being probed.
#[derive(Debug)]
pub struct Probe {
    pub ee: Option<u32>,
    pub core_size: usize,
    pub config_size: usize,
    pub apid_count: usize,
    pub entries: Vec<Entry>,
    pub stage: ProbeStage,
}

#[verifier::ext_equal]
pub struct ProbeView {
    pub ee: Option<u32>,
    pub core_size: usize,
    pub config_size: usize,
    pub apid_count: usize,
    pub entries: Seq<Entry>,
    pub stage: ProbeStage,
}

impl View for Probe {
    type V = ProbeView;

    open spec fn view(&self) -> ProbeView {
        ProbeView {
            ee: self.ee,
            core_size: self.core_size,
            config_size: self.config_size,
            apid_count: self.apid_count,
            entries: self.entries@,
            stage: self.stage,
        }
    }
}

impl ProbeView {
    pub open spec fn known_environment(self) -> bool {
        match self.ee {
            Some(ee) => ee <= 5,
            None => false,
        }
    }

    pub open spec fn wf(self) -> bool {
        &&& self.apid_count <= MAX_APIDS
        &&& entries_fit(self.entries)
        &&& match self.stage {
            ProbeStage::Features => self.known_environment(),
            ProbeStage::Mapping { apid } => apid < self.apid_count && self.known_environment(),
            ProbeStage::Owner { apid, ppid } => apid < self.apid_count && ppid < MAX_PPIDS
                && self.known_environment(),
            _ => true,
        }
    }

    pub open spec fn at(self, stage: ProbeStage) -> ProbeView {
        ProbeView { stage, ..self }
    }

    pub open spec fn finish(self, result: Result<(), &'static str>) -> (ProbeView, ProbeAsk) {
        (self.at(ProbeStage::Over), ProbeAsk::Finished { result })
    }

    /// Goes to a channel's mapping. The tables end with the window or with
    /// the number of channels.
    pub open spec fn visit(self, apid: int) -> (ProbeView, ProbeAsk) {
        let offset = APID_MAP_BASE + 4 * apid;
        if apid >= self.apid_count || offset + 4 > self.core_size {
            self.finish(Ok(()))
        } else {
            (
                self.at(ProbeStage::Mapping { apid: apid as usize }),
                ProbeAsk::ReadCore { offset: offset as usize },
            )
        }
    }

    /// What follows a register's value.
    pub open spec fn step(self, value: u32) -> (ProbeView, ProbeAsk) {
        match self.stage {
            ProbeStage::Version => if value < PMIC_ARB_VERSION_V5_MIN || value
                >= PMIC_ARB_VERSION_V7_MIN {
                self.finish(Err("qcom-spmi-pmic-arb: SC7180 requires PMIC arbiter v5"))
            } else {
                match self.ee {
                    None => self.finish(Err("qcom-spmi-pmic-arb: qcom,ee missing")),
                    Some(ee) => if ee > 5 {
                        self.finish(Err("qcom-spmi-pmic-arb: invalid execution environment"))
                    } else {
                        (
                            self.at(ProbeStage::Features),
                            ProbeAsk::ReadCore { offset: PMIC_ARB_FEATURES },
                        )
                    },
                }
            },
            ProbeStage::Features => {
                let count = value as int % 0x800;
                if count == 0 || count > MAX_APIDS {
                    self.finish(Err("qcom-spmi-pmic-arb: invalid APID count"))
                } else {
                    (ProbeView { apid_count: count as usize, ..self }).visit(0)
                }
            },
            ProbeStage::Mapping { apid } => {
                let offset = APID_OWNER_BASE + 4 * apid;
                if value == 0 {
                    self.visit(apid + 1)
                } else if offset + 4 > self.config_size {
                    self.finish(Err("qcom-spmi-pmic-arb: truncated ownership table"))
                } else {
                    (
                        self.at(
                            ProbeStage::Owner { apid, ppid: (value as int / 0x100 % 0x1000) as u16 },
                        ),
                        ProbeAsk::ReadConfig { offset: offset as usize },
                    )
                }
            },
            ProbeStage::Owner { apid, ppid } => {
                let entry = Entry {
                    apid: apid as u16,
                    ppid,
                    owned: Some((value as int % 8) as u32) == self.ee,
                };
                (ProbeView { entries: self.entries.push(entry), ..self }).visit(apid + 1)
            },
            ProbeStage::Over => self.finish(
                Err("qcom-spmi-pmic-arb: SC7180 requires PMIC arbiter v5"),
            ),
        }
    }
}

impl Probe {
    /// Starts to probe an arbiter.
    pub fn begin(ee: Option<u32>, core_size: usize, config_size: usize) -> (r: (Probe, ProbeAsk))
        ensures
            r.0@.wf(),
            r.0@ == (ProbeView {
                ee,
                core_size,
                config_size,
                apid_count: 0,
                entries: Seq::empty(),
                stage: ProbeStage::Version,
            }),
            r.1 == (ProbeAsk::ReadCore { offset: PMIC_ARB_VERSION }),
    {
        (
            Probe {
                ee,
                core_size,
                config_size,
                apid_count: 0,
                entries: Vec::new(),
                stage: ProbeStage::Version,
            },
            ProbeAsk::ReadCore { offset: PMIC_ARB_VERSION },
        )
    }

    fn end(&mut self, result: Result<(), &'static str>) -> (r: ProbeAsk)
        requires
            old(self)@.at(ProbeStage::Over).wf(),
        ensures
            final(self)@.wf(),
            (final(self)@, r) == old(self)@.finish(result),
    {
        self.stage = ProbeStage::Over;
        ProbeAsk::Finished { result }
    }

    fn go_to(&mut self, apid: usize) -> (r: ProbeAsk)
        requires
            old(self)@.at(ProbeStage::Over).wf(),
            apid <= MAX_APIDS,
            old(self)@.known_environment(),
        ensures
            final(self)@.wf(),
            (final(self)@, r) == old(self)@.visit(apid as int),
    {
        let offset: usize = APID_MAP_BASE + 4 * apid;
        if apid >= self.apid_count || offset + 4 > self.core_size {
            return self.end(Ok(()));
        }
        self.stage = ProbeStage::Mapping { apid };
        ProbeAsk::ReadCore { offset }
    }

    /// Goes on after a register was read.
    pub fn advance(&mut self, value: u32) -> (r: ProbeAsk)
        requires
            old(self)@.wf(),
        ensures
            final(self)@.wf(),
            (final(self)@, r) == old(self)@.step(value),
    {
        match self.stage {
            ProbeStage::Version => {
                if value < PMIC_ARB_VERSION_V5_MIN || value >= PMIC_ARB_VERSION_V7_MIN {
                    return self.end(
                        Err("qcom-spmi-pmic-arb: SC7180 requires PMIC arbiter v5"),
                    );
                }
                match self.ee {
                    None => self.end(Err("qcom-spmi-pmic-arb: qcom,ee missing")),
                    Some(ee) => {
                        if ee > 5 {
                            return self.end(
                                Err("qcom-spmi-pmic-arb: invalid execution environment"),
                            );
                        }
                        self.stage = ProbeStage::Features;
                        ProbeAsk::ReadCore { offset: PMIC_ARB_FEATURES }
                    },
                }
            },
            ProbeStage::Features => {
                let count: usize = value as usize % 0x800;
                if count == 0 || count > MAX_APIDS {
                    return self.end(Err("qcom-spmi-pmic-arb: invalid APID count"));
                }
                self.apid_count = count;
                self.go_to(0)
            },
            ProbeStage::Mapping { apid } => {
                if value == 0 {
                    return self.go_to(apid + 1);
                }
                let offset: usize = APID_OWNER_BASE + 4 * apid;
                if offset + 4 > self.config_size {
                    return self.end(Err("qcom-spmi-pmic-arb: truncated ownership table"));
                }
                self.stage = ProbeStage::Owner { apid, ppid: (value / 0x100 % 0x1000) as u16 };
                ProbeAsk::ReadConfig { offset }
            },
            ProbeStage::Owner { apid, ppid } => {
                let owned = match self.ee {
                    Some(ee) => value % 8 == ee,
                    None => false,
                };
                self.entries.push(Entry { apid: apid as u16, ppid, owned });
                self.go_to(apid + 1)
            },
            ProbeStage::Over => self.end(
                Err("qcom-spmi-pmic-arb: SC7180 requires PMIC arbiter v5"),
            ),
        }
    }

    /// The arbiter, once its tables were read.
    pub fn controller(&self) -> (r: Option<QcomSpmiPmicArb>)
        requires
            self@.wf(),
        ensures
            match r {
                Some(arb) => Some(arb.ee as u32) == self.ee && arb.ppid_to_apid@ == table_of(
                    self.entries@,
                ),
                None => match self.ee {
                    Some(ee) => ee > 5,
                    None => true,
                },
            },
    {
        match self.ee {
            Some(ee) => {
                if ee > 5 {
                    return None;
                }
                let ppid_to_apid = build_table(&self.entries);
                Some(QcomSpmiPmicArb { ee: ee as u8, ppid_to_apid })
            },
            None => None,
        }
    }
}

// Laws.

/// A read ends: every access leaves fewer to come.
pub open spec fn accesses_to_go(read: SpmiRead) -> int {
    match read.stage {
        ReadStage::Command => 0x1_0000_0000,
        ReadStage::Status { left } => 3 + left,
        ReadStage::Low => 2,
        ReadStage::High { .. } => 1,
        ReadStage::Over => 0,
    }
}

/// Every access brings a read closer to its end, and a read that succeeds
/// brings as many bytes as were asked for.
pub proof fn a_read_ends(read: SpmiRead, value: u32)
    requires
        read.wf(),
        !(read.stage is Over),
    ensures
        0 <= accesses_to_go(read.step(value).0) < accesses_to_go(read),
        read.step(value).1 matches ReadAskView::Finished { result, .. } ==> (result matches Ok(
            bytes,
        ) ==> bytes.len() == read.length),
{
}

/// Data is read only after the arbiter reported success.
pub proof fn data_follows_success(read: SpmiRead, value: u32)
    requires
        read.wf(),
        read.step(value).0.stage is Low,
    ensures
        read.stage is Status,
        outcome_of(value) == Some(Ok::<(), &'static str>(())),
{
}

/// No entry names the peripheral.
pub open spec fn unnamed(entries: Seq<Entry>, ppid: u16) -> bool {
    forall|i: int| 0 <= i < entries.len() ==> (#[trigger] entries[i]).ppid != ppid
}

/// The last entry for the peripheral that is owned.
pub open spec fn last_owned(entries: Seq<Entry>, ppid: u16, at: int) -> bool {
    &&& 0 <= at < entries.len()
    &&& entries[at].ppid == ppid && entries[at].owned
    &&& forall|i: int|
        at < i < entries.len() ==> !((#[trigger] entries[i]).ppid == ppid && entries[i].owned)
}

/// The first entry for a peripheral for which none is owned.
pub open spec fn first_of_none_owned(entries: Seq<Entry>, ppid: u16, at: int) -> bool {
    &&& 0 <= at < entries.len()
    &&& entries[at].ppid == ppid
    &&& forall|i: int| 0 <= i < at ==> (#[trigger] entries[i]).ppid != ppid
    &&& forall|i: int|
        0 <= i < entries.len() ==> !((#[trigger] entries[i]).ppid == ppid && entries[i].owned)
}

proof fn selected(entries: Seq<Entry>, ppid: u16) -> (r: Option<int>)
    requires
        entries_fit(entries),
        ppid < MAX_PPIDS,
    ensures
        table_of(entries).len() == MAX_PPIDS,
        match r {
            Some(at) => (last_owned(entries, ppid, at) || first_of_none_owned(entries, ppid, at))
                && table_of(entries)[ppid as int] == entries[at].apid,
            None => unnamed(entries, ppid) && table_of(entries)[ppid as int] == APID_INVALID,
        },
    decreases entries.len(),
{
    if entries.len() == 0 {
        return None;
    }
    let before = entries.drop_last();
    let last = entries.last();
    assert forall|i: int| 0 <= i < before.len() implies (#[trigger] before[i]).ppid < MAX_PPIDS
        && before[i].apid < MAX_APIDS by {
        assert(before[i] == entries[i]);
    }
    assert(forall|i: int| 0 <= i < before.len() ==> before[i] == #[trigger] entries[i]);
    let earlier = selected(before, ppid);
    assert(entries[entries.len() - 1] == last);
    if last.ppid != ppid {
        earlier
    } else if last.owned || earlier is None {
        Some(entries.len() - 1)
    } else {
        earlier
    }
}

/// A peripheral has a channel exactly if the tables name one for it. That is
/// the last one owned by the environment, or the first one where none is.
pub proof fn owned_channels_win(entries: Seq<Entry>, ppid: u16)
    requires
        entries_fit(entries),
        ppid < MAX_PPIDS,
    ensures
        table_of(entries)[ppid as int] == APID_INVALID <==> unnamed(entries, ppid),
        unnamed(entries, ppid) || exists|at: int|
            (last_owned(entries, ppid, at) || first_of_none_owned(entries, ppid, at))
                && table_of(entries)[ppid as int] == (#[trigger] entries[at]).apid,
{
    let found = selected(entries, ppid);
    if let Some(at) = found {
        assert(entries[at].apid < MAX_APIDS);
    }
}

/// Keeps the driver linked into builds that load it by name.
pub fn force_link() {
}

} // verus!
