//! The wall clock of CoachZ, from the embedded controller or from the PMIC.
//!
//! The PMIC's counter is often not set, so it is used only where the embedded
//! controller has no time, and no source is believed outside of the years
//! 2000 to 2099.

use vstd::prelude::*;

use crate::bytes::{le32, read_le_u32, same_text};
use crate::device_tree::{
    first_cell, last_property, lists_text, names_text, node_view, node_views,
    node_views_are_views, parse, property_of, tree_of, tree_view, Node, NodeView,
};

pub mod laws;

verus! {

pub const EC_COMMAND_GET_FEATURES: u16 = 0x000d;

pub const EC_COMMAND_RTC_GET_VALUE: u16 = 0x0044;

/// The feature bit of the clock, by its value.
pub const EC_FEATURE_RTC_MASK: u32 = 0x800_0000;

pub const RTC_READ_OFFSET: u16 = 0x48;

pub const RTC_BYTES: usize = 4;

pub const NANOS_PER_SECOND: u64 = 1_000_000_000;

/// 2000-01-01 UTC.
pub const MINIMUM_PLAUSIBLE_EPOCH: u32 = 946_684_800;

/// 2100-01-01 UTC.
pub const MAXIMUM_PLAUSIBLE_EPOCH: u32 = 4_102_444_800;

// The clock in the device tree.

/// The compatible texts of a node name a text.
pub open spec fn node_is(node: NodeView, compatible: Seq<char>) -> bool {
    match last_property(node.properties, "compatible"@) {
        Some(value) => lists_text(value, 0, vstd::utf8::encode_utf8(compatible)),
        None => false,
    }
}

pub fn node_has_compatible(node: &Node, compatible: &str) -> (r: bool)
    ensures
        r == node_is(node@, compatible@),
{
    match node.property_last("compatible") {
        Some(value) => names_text(value, compatible),
        None => false,
    }
}

/// What a search came to. A node without a usable address ends it.
#[derive(Clone, Copy, Debug, Eq, PartialEq, Structural)]
pub enum Search {
    Found { sid: u8, base: u16 },
    GivenUp,
    NotHere,
}

/// The clock among the children of a PMIC.
pub open spec fn clock_among(children: Seq<NodeView>, from: int, sid: u8) -> Search
    decreases children.len() - from,
{
    if from < 0 || from >= children.len() {
        Search::NotHere
    } else if node_is(children[from], "qcom,pm8941-rtc"@) {
        match first_cell(property_of(children[from], "reg"@)) {
            Some(base) => if base <= 0xffff {
                Search::Found { sid, base: base as u16 }
            } else {
                Search::GivenUp
            },
            None => Search::GivenUp,
        }
    } else {
        clock_among(children, from + 1, sid)
    }
}

/// The clock below a child of an arbiter.
pub open spec fn clock_of_pmic(pmic: NodeView) -> Search {
    if !node_is(pmic, "qcom,pm6150"@) {
        Search::NotHere
    } else {
        match first_cell(property_of(pmic, "reg"@)) {
            Some(sid) => if sid <= 0xff {
                clock_among(pmic.children, 0, sid as u8)
            } else {
                Search::GivenUp
            },
            None => Search::GivenUp,
        }
    }
}

/// The clock below the children of an arbiter.
pub open spec fn clock_of_pmics(pmics: Seq<NodeView>, from: int) -> Search
    decreases pmics.len() - from,
{
    if from < 0 || from >= pmics.len() {
        Search::NotHere
    } else {
        match clock_of_pmic(pmics[from]) {
            Search::NotHere => clock_of_pmics(pmics, from + 1),
            found => found,
        }
    }
}

/// The clock in a tree. A node comes before its children, and a later child
/// before an earlier one.
pub open spec fn clock_in(node: NodeView) -> Search
    decreases node,
{
    let here = if node_is(node, "qcom,spmi-pmic-arb"@) {
        clock_of_pmics(node.children, 0)
    } else {
        Search::NotHere
    };
    match here {
        Search::NotHere => clock_in_any(node.children),
        found => found,
    }
}

pub open spec fn clock_in_any(nodes: Seq<NodeView>) -> Search
    decreases nodes,
{
    if nodes.len() == 0 {
        Search::NotHere
    } else {
        match clock_in(nodes.last()) {
            Search::NotHere => clock_in_any(nodes.drop_last()),
            found => found,
        }
    }
}

fn find_among(pmic: &Node, sid: u8) -> (r: Search)
    ensures
        r == clock_among(pmic@.children, 0, sid),
{
    let length: usize = pmic.children.len();
    proof {
        node_views_are_views(pmic.children@);
    }
    let mut i: usize = 0;
    while i < length
        invariant
            i <= length,
            length == pmic.children@.len(),
            pmic@.children == node_views(pmic.children@),
            pmic@.children.len() == length,
            forall|k: int|
                0 <= k < length ==> #[trigger] pmic@.children[k] == node_view(pmic.children@[k]),
            clock_among(pmic@.children, 0, sid) == clock_among(pmic@.children, i as int, sid),
        decreases length - i,
    {
        let child = &pmic.children[i];
        assert(pmic@.children[i as int] == child@);
        if node_has_compatible(child, "qcom,pm8941-rtc") {
            return match child.property_cell("reg") {
                Some(base) => if base <= 0xffff {
                    Search::Found { sid, base: base as u16 }
                } else {
                    Search::GivenUp
                },
                None => Search::GivenUp,
            };
        }
        i += 1;
    }
    Search::NotHere
}

fn find_below(pmic: &Node) -> (r: Search)
    ensures
        r == clock_of_pmic(pmic@),
{
    if !node_has_compatible(pmic, "qcom,pm6150") {
        return Search::NotHere;
    }
    match pmic.property_cell("reg") {
        Some(sid) => {
            if sid <= 0xff {
                find_among(pmic, sid as u8)
            } else {
                Search::GivenUp
            }
        },
        None => Search::GivenUp,
    }
}

fn find_at(arbiter: &Node) -> (r: Search)
    ensures
        r == clock_of_pmics(arbiter@.children, 0),
{
    let length: usize = arbiter.children.len();
    proof {
        node_views_are_views(arbiter.children@);
    }
    let mut i: usize = 0;
    while i < length
        invariant
            i <= length,
            length == arbiter.children@.len(),
            arbiter@.children == node_views(arbiter.children@),
            arbiter@.children.len() == length,
            forall|k: int|
                0 <= k < length ==> #[trigger] arbiter@.children[k] == node_view(
                    arbiter.children@[k],
                ),
            clock_of_pmics(arbiter@.children, 0) == clock_of_pmics(arbiter@.children, i as int),
        decreases length - i,
    {
        let pmic = &arbiter.children[i];
        assert(arbiter@.children[i as int] == pmic@);
        match find_below(pmic) {
            Search::NotHere => {},
            found => {
                return found;
            },
        }
        i += 1;
    }
    Search::NotHere
}

fn find_in(node: &Node) -> (r: Search)
    ensures
        r == clock_in(node@),
    decreases node,
{
    if node_has_compatible(node, "qcom,spmi-pmic-arb") {
        match find_at(node) {
            Search::NotHere => {},
            found => {
                return found;
            },
        }
    }
    let length: usize = node.children.len();
    proof {
        node_views_are_views(node.children@);
    }
    let ghost views = node_views(node.children@);
    assert(views.take(length as int) =~= views);
    let mut i: usize = length;
    while i > 0
        invariant
            i <= length,
            length == node.children@.len(),
            views == node_views(node.children@),
            views.len() == length,
            forall|k: int| 0 <= k < length ==> #[trigger] views[k] == node_view(node.children@[k]),
            clock_in(node@) == clock_in_any(views.take(i as int)),
        decreases i,
    {
        i -= 1;
        assert(views.take(i + 1).last() == node_view(node.children@[i as int]));
        assert(views.take(i + 1).drop_last() =~= views.take(i as int));
        match find_in(&node.children[i]) {
            Search::NotHere => {},
            found => {
                return found;
            },
        }
    }
    Search::NotHere
}

/// The slave and the base address of the PMIC's clock.
pub open spec fn clock_place(tree: Option<NodeView>) -> Option<(u8, u16)> {
    match tree {
        Some(root) => match clock_in(root) {
            Search::Found { sid, base } => Some((sid, base)),
            _ => None,
        },
        None => None,
    }
}

/// The slave and the base address of the PMIC's clock, in a device tree.
pub fn find_rtc_in(tree: Option<&Node>) -> (r: Option<(u8, u16)>)
    ensures
        r == clock_place(tree_view(tree)),
{
    match tree {
        Some(root) => match find_in(root) {
            Search::Found { sid, base } => Some((sid, base)),
            _ => None,
        },
        None => None,
    }
}

/// The slave and the base address of the PMIC's clock, in a flattened device
/// tree.
pub fn find_pm6150_rtc(blob: &[u8]) -> (r: Option<(u8, u16)>)
    ensures
        r == clock_place(tree_of(blob@)),
{
    match parse(blob) {
        Some(root) => find_rtc_in(Some(&root)),
        None => find_rtc_in(None),
    }
}

// The PMIC's counter.

/// Which read of the counter was made last.
#[derive(Clone, Copy, Debug, Eq, PartialEq, Structural)]
pub enum CounterStage {
    First,
    /// Its lowest byte again, after the whole of it.
    Lowest { seconds: u32, lowest: u8 },
    Second,
    Over,
}

/// What to do next.
#[derive(Clone, Copy, Debug)]
pub enum CounterAsk {
    Read { sid: u8, address: u16, length: usize },
    Finished { result: Result<u32, &'static str> },
}

/// A reading of the counter.
#[derive(Clone, Copy, Debug, Eq, PartialEq, Structural)]
pub struct Counter {
    pub sid: u8,
    pub address: u16,
    pub stage: CounterStage,
}

impl Counter {
    /// How many bytes the last read brings.
    pub open spec fn pending(self) -> int {
        match self.stage {
            CounterStage::First => 4,
            CounterStage::Lowest { .. } => 1,
            CounterStage::Second => 4,
            CounterStage::Over => 0,
        }
    }

    pub open spec fn at(self, stage: CounterStage) -> Counter {
        Counter { stage, ..self }
    }

    pub open spec fn ask(self, stage: CounterStage, length: usize) -> (Counter, CounterAsk) {
        (self.at(stage), CounterAsk::Read { sid: self.sid, address: self.address, length })
    }

    pub open spec fn finish(self, result: Result<u32, &'static str>) -> (Counter, CounterAsk) {
        (self.at(CounterStage::Over), CounterAsk::Finished { result })
    }

    /// What follows a read. Where the lowest byte has wrapped around, the
    /// upper bytes belong to the second before, and all are read again.
    pub open spec fn step(self, read: Result<Seq<u8>, &'static str>) -> (Counter, CounterAsk) {
        match read {
            Err(e) => self.finish(Err(e)),
            Ok(bytes) => match self.stage {
                CounterStage::First => self.ask(
                    CounterStage::Lowest { seconds: le32(bytes, 0) as u32, lowest: bytes[0] },
                    1,
                ),
                CounterStage::Lowest { seconds, lowest } => if bytes[0] < lowest {
                    self.ask(CounterStage::Second, 4)
                } else {
                    self.finish(Ok(seconds))
                },
                CounterStage::Second => self.finish(Ok(le32(bytes, 0) as u32)),
                CounterStage::Over => self.finish(
                    Err("qcom-pm8941-rtc: register address overflow"),
                ),
            },
        }
    }

    /// Starts to read the counter.
    pub fn read_raw_seconds(sid: u8, rtc_base: u16) -> (r: Result<
        (Counter, CounterAsk),
        &'static str,
    >)
        ensures
            r == (if rtc_base + RTC_READ_OFFSET > 0xffff {
                Err::<(Counter, CounterAsk), &'static str>(
                    "qcom-pm8941-rtc: register address overflow",
                )
            } else {
                Ok(
                    (Counter {
                        sid,
                        address: (rtc_base + RTC_READ_OFFSET) as u16,
                        stage: CounterStage::First,
                    }).ask(CounterStage::First, 4),
                )
            }),
    {
        if rtc_base > 0xffff - RTC_READ_OFFSET {
            return Err("qcom-pm8941-rtc: register address overflow");
        }
        let address: u16 = rtc_base + RTC_READ_OFFSET;
        Ok(
            (
                Counter { sid, address, stage: CounterStage::First },
                CounterAsk::Read { sid, address, length: RTC_BYTES },
            ),
        )
    }

    fn read_again(&mut self, stage: CounterStage, length: usize) -> (r: CounterAsk)
        ensures
            (*final(self), r) == old(self).ask(stage, length),
    {
        self.stage = stage;
        CounterAsk::Read { sid: self.sid, address: self.address, length }
    }

    fn end(&mut self, result: Result<u32, &'static str>) -> (r: CounterAsk)
        ensures
            (*final(self), r) == old(self).finish(result),
    {
        self.stage = CounterStage::Over;
        CounterAsk::Finished { result }
    }

    /// Goes on after a read.
    pub fn advance(&mut self, read: Result<Vec<u8>, &'static str>) -> (r: CounterAsk)
        requires
            read matches Ok(bytes) ==> bytes@.len() == old(self).pending(),
        ensures
            (*final(self), r) == old(self).step(
                match read {
                    Ok(bytes) => Ok(bytes@),
                    Err(e) => Err(e),
                },
            ),
    {
        match read {
            Err(e) => self.end(Err(e)),
            Ok(bytes) => match self.stage {
                CounterStage::First => {
                    let seconds: u32 = read_le_u32(&bytes, 0).unwrap();
                    self.read_again(CounterStage::Lowest { seconds, lowest: bytes[0] }, 1)
                },
                CounterStage::Lowest { seconds, lowest } => {
                    if bytes[0] < lowest {
                        self.read_again(CounterStage::Second, RTC_BYTES)
                    } else {
                        self.end(Ok(seconds))
                    }
                },
                CounterStage::Second => {
                    let seconds: u32 = read_le_u32(&bytes, 0).unwrap();
                    self.end(Ok(seconds))
                },
                CounterStage::Over => self.end(
                    Err("qcom-pm8941-rtc: register address overflow"),
                ),
            },
        }
    }
}

// Times.

pub open spec fn plausible(seconds: u32) -> bool {
    MINIMUM_PLAUSIBLE_EPOCH <= seconds < MAXIMUM_PLAUSIBLE_EPOCH
}

pub fn validate_epoch(seconds: u32) -> (r: Result<u32, &'static str>)
    ensures
        r == (if plausible(seconds) {
            Ok::<u32, &'static str>(seconds)
        } else {
            Err("RTC epoch is outside the plausible 2000..2100 range")
        }),
{
    if seconds < MINIMUM_PLAUSIBLE_EPOCH || seconds >= MAXIMUM_PLAUSIBLE_EPOCH {
        return Err("RTC epoch is outside the plausible 2000..2100 range");
    }
    Ok(seconds)
}

/// The nanoseconds that the wall clock is set to.
pub fn sample_epoch_ns(seconds: u32) -> (r: Result<u64, &'static str>)
    ensures
        r == (if plausible(seconds) {
            Ok::<u64, &'static str>((seconds * NANOS_PER_SECOND) as u64)
        } else {
            Err("RTC epoch is outside the plausible 2000..2100 range")
        }),
{
    match validate_epoch(seconds) {
        Ok(seconds) => Ok(seconds as u64 * NANOS_PER_SECOND),
        Err(e) => Err(e),
    }
}

/// A clock that was set before is as good as one that is set now.
pub open spec fn clock_result(result: Result<(), &'static str>) -> Result<(), &'static str> {
    match result {
        Ok(_) => Ok(()),
        Err(e) => if e@ == "wall clock already initialized"@ {
            Ok(())
        } else {
            Err(e)
        },
    }
}

pub fn accept_clock_result(result: Result<(), &'static str>) -> (r: Result<(), &'static str>)
    ensures
        r == clock_result(result),
{
    match result {
        Ok(_) => Ok(()),
        Err(e) => {
            if same_text(e, "wall clock already initialized") {
                Ok(())
            } else {
                Err(e)
            }
        },
    }
}

/// The embedded controller says that it keeps the time.
pub open spec fn features_result(reply: Option<Seq<u8>>) -> Result<(), &'static str> {
    match reply {
        None => Err("Chrome EC GET_FEATURES failed"),
        Some(bytes) => if bytes.len() != 8 {
            Err("Chrome EC returned a malformed feature bitmap")
        } else if le32(bytes, 0) / EC_FEATURE_RTC_MASK as int % 2 == 0 {
            Err("Chrome EC does not advertise RTC support")
        } else {
            Ok(())
        },
    }
}

pub fn check_features(reply: Option<&[u8]>) -> (r: Result<(), &'static str>)
    ensures
        r == features_result(crate::rpmh_rsc::content(reply)),
{
    match reply {
        None => Err("Chrome EC GET_FEATURES failed"),
        Some(bytes) => {
            if bytes.len() != 8 {
                return Err("Chrome EC returned a malformed feature bitmap");
            }
            let word: u32 = read_le_u32(bytes, 0).unwrap();
            if word / EC_FEATURE_RTC_MASK % 2 == 0 {
                return Err("Chrome EC does not advertise RTC support");
            }
            Ok(())
        },
    }
}

/// The time of the embedded controller.
pub open spec fn value_result(reply: Option<Seq<u8>>) -> Result<u32, &'static str> {
    match reply {
        None => Err("Chrome EC RTC_GET_VALUE failed"),
        Some(bytes) => if bytes.len() != RTC_BYTES {
            Err("Chrome EC returned a malformed RTC value")
        } else {
            Ok(le32(bytes, 0) as u32)
        },
    }
}

pub fn parse_rtc_value(reply: Option<&[u8]>) -> (r: Result<u32, &'static str>)
    ensures
        r == value_result(crate::rpmh_rsc::content(reply)),
{
    match reply {
        None => Err("Chrome EC RTC_GET_VALUE failed"),
        Some(bytes) => {
            if bytes.len() != RTC_BYTES {
                return Err("Chrome EC returned a malformed RTC value");
            }
            Ok(read_le_u32(bytes, 0).unwrap())
        },
    }
}

// Seeding.

#[derive(Clone, Copy, Debug, Eq, PartialEq, Structural)]
pub enum Source {
    ChromeEc,
    Pm6150,
}

/// What was asked for last.
#[derive(Clone, Copy, Debug, Eq, PartialEq, Structural)]
pub enum SeedStage {
    Controller,
    Features,
    Value,
    Clock { source: Source },
    Arbiter,
    Tree,
    Node,
    Counter,
    Over,
}

/// What to do next.
#[derive(Clone, Copy, Debug)]
pub enum SeedAsk {
    /// Look for the primary embedded controller.
    FindController,
    /// Send it a command of version zero without data.
    Command { command: u16 },
    /// Set the wall clock.
    SetClock { source: Source, epoch_ns: u64 },
    /// Look for the PMIC arbiter.
    FindArbiter,
    /// Look for the device tree.
    FindTree,
    /// Look for the PMIC's clock in it.
    FindNode,
    /// Read the PMIC's counter.
    ReadCounter { sid: u8, base: u16 },
    /// The end. The errors of both sources, as far as there were any.
    Finished { controller: Option<&'static str>, pmic: Option<&'static str> },
}

/// What came of it.
#[derive(Debug)]
pub enum SeedEvent {
    Found { found: bool },
    Reply { reply: Option<Vec<u8>> },
    Clock { result: Result<(), &'static str> },
    Node { node: Option<(u8, u16)> },
    Seconds { seconds: Result<u32, &'static str> },
}

pub ghost enum SeedEventView {
    Found { found: bool },
    Reply { reply: Option<Seq<u8>> },
    Clock { result: Result<(), &'static str> },
    Node { node: Option<(u8, u16)> },
    Seconds { seconds: Result<u32, &'static str> },
}

impl View for SeedEvent {
    type V = SeedEventView;

    open spec fn view(&self) -> SeedEventView {
        match *self {
            SeedEvent::Found { found } => SeedEventView::Found { found },
            SeedEvent::Reply { reply } => SeedEventView::Reply {
                reply: match reply {
                    Some(bytes) => Some(bytes@),
                    None => None,
                },
            },
            SeedEvent::Clock { result } => SeedEventView::Clock { result },
            SeedEvent::Node { node } => SeedEventView::Node { node },
            SeedEvent::Seconds { seconds } => SeedEventView::Seconds { seconds },
        }
    }
}

/// An event answers what was asked for.
pub open spec fn answers(stage: SeedStage, event: SeedEventView) -> bool {
    match stage {
        SeedStage::Controller => event is Found,
        SeedStage::Features => event is Reply,
        SeedStage::Value => event is Reply,
        SeedStage::Clock { .. } => event is Clock,
        SeedStage::Arbiter => event is Found,
        SeedStage::Tree => event is Found,
        SeedStage::Node => event is Node,
        SeedStage::Counter => event is Seconds,
        SeedStage::Over => false,
    }
}

/// The wall clock on its way to being set.
#[derive(Clone, Copy, Debug)]
pub struct Seed {
    /// Why the embedded controller was of no use.
    pub controller_error: Option<&'static str>,
    pub stage: SeedStage,
}

impl Seed {
    pub open spec fn at(self, stage: SeedStage) -> Seed {
        Seed { stage, ..self }
    }

    /// The embedded controller is of no use: the PMIC is next.
    pub open spec fn fall_back(self, error: &'static str) -> (Seed, SeedAsk) {
        (
            Seed { controller_error: Some(error), stage: SeedStage::Arbiter },
            SeedAsk::FindArbiter,
        )
    }

    pub open spec fn finish(self, pmic: Option<&'static str>) -> (Seed, SeedAsk) {
        (
            self.at(SeedStage::Over),
            SeedAsk::Finished { controller: self.controller_error, pmic },
        )
    }

    pub open spec fn set_clock(self, source: Source, seconds: u32) -> (Seed, SeedAsk) {
        (
            self.at(SeedStage::Clock { source }),
            SeedAsk::SetClock { source, epoch_ns: (seconds * NANOS_PER_SECOND) as u64 },
        )
    }

    pub open spec fn step(self, event: SeedEventView) -> (Seed, SeedAsk) {
        match (self.stage, event) {
            (SeedStage::Controller, SeedEventView::Found { found }) => if found {
                (
                    self.at(SeedStage::Features),
                    SeedAsk::Command { command: EC_COMMAND_GET_FEATURES },
                )
            } else {
                self.fall_back("primary Chrome EC unavailable")
            },
            (SeedStage::Features, SeedEventView::Reply { reply }) => match features_result(reply) {
                Ok(_) => (
                    self.at(SeedStage::Value),
                    SeedAsk::Command { command: EC_COMMAND_RTC_GET_VALUE },
                ),
                Err(e) => self.fall_back(e),
            },
            (SeedStage::Value, SeedEventView::Reply { reply }) => match value_result(reply) {
                Ok(seconds) => if plausible(seconds) {
                    self.set_clock(Source::ChromeEc, seconds)
                } else {
                    self.fall_back("RTC epoch is outside the plausible 2000..2100 range")
                },
                Err(e) => self.fall_back(e),
            },
            (SeedStage::Clock { source }, SeedEventView::Clock { result }) => match (
                source,
                clock_result(result),
            ) {
                (_, Ok(_)) => self.finish(None),
                (Source::ChromeEc, Err(e)) => self.fall_back(e),
                (Source::Pm6150, Err(e)) => self.finish(Some(e)),
            },
            (SeedStage::Arbiter, SeedEventView::Found { found }) => if found {
                (self.at(SeedStage::Tree), SeedAsk::FindTree)
            } else {
                self.finish(Some("qcom-pm8941-rtc: SPMI controller unavailable"))
            },
            (SeedStage::Tree, SeedEventView::Found { found }) => if found {
                (self.at(SeedStage::Node), SeedAsk::FindNode)
            } else {
                self.finish(Some("qcom-pm8941-rtc: FDT unavailable"))
            },
            (SeedStage::Node, SeedEventView::Node { node }) => match node {
                Some((sid, base)) => (
                    self.at(SeedStage::Counter),
                    SeedAsk::ReadCounter { sid, base },
                ),
                None => self.finish(Some("qcom-pm8941-rtc: PM6150 RTC node not found")),
            },
            (SeedStage::Counter, SeedEventView::Seconds { seconds }) => match seconds {
                Ok(seconds) => if plausible(seconds) {
                    self.set_clock(Source::Pm6150, seconds)
                } else {
                    self.finish(Some("PM6150 RTC is uninitialized or implausible"))
                },
                Err(e) => self.finish(Some(e)),
            },
            _ => self.finish(None),
        }
    }

    /// Starts to look for a time.
    pub fn initialize_wall_clock() -> (r: (Seed, SeedAsk))
        ensures
            r.0 == (Seed { controller_error: None, stage: SeedStage::Controller }),
            r.1 == SeedAsk::FindController,
    {
        (
            Seed { controller_error: None, stage: SeedStage::Controller },
            SeedAsk::FindController,
        )
    }

    fn start_fall_back(&mut self, error: &'static str) -> (r: SeedAsk)
        ensures
            (*final(self), r) == old(self).fall_back(error),
    {
        self.controller_error = Some(error);
        self.stage = SeedStage::Arbiter;
        SeedAsk::FindArbiter
    }

    fn end(&mut self, pmic: Option<&'static str>) -> (r: SeedAsk)
        ensures
            (*final(self), r) == old(self).finish(pmic),
    {
        self.stage = SeedStage::Over;
        SeedAsk::Finished { controller: self.controller_error, pmic }
    }

    fn go_to(&mut self, stage: SeedStage, ask: SeedAsk) -> (r: SeedAsk)
        ensures
            *final(self) == old(self).at(stage),
            r == ask,
    {
        self.stage = stage;
        ask
    }

    /// Goes on after what was asked for.
    pub fn advance(&mut self, event: SeedEvent) -> (r: SeedAsk)
        requires
            answers(old(self).stage, event@),
        ensures
            (*final(self), r) == old(self).step(event@),
    {
        match (self.stage, event) {
            (SeedStage::Controller, SeedEvent::Found { found }) => {
                if found {
                    self.go_to(
                        SeedStage::Features,
                        SeedAsk::Command { command: EC_COMMAND_GET_FEATURES },
                    )
                } else {
                    self.start_fall_back("primary Chrome EC unavailable")
                }
            },
            (SeedStage::Features, SeedEvent::Reply { reply }) => {
                let checked = match &reply {
                    Some(bytes) => check_features(Some(bytes.as_slice())),
                    None => check_features(None),
                };
                match checked {
                    Ok(_) => self.go_to(
                        SeedStage::Value,
                        SeedAsk::Command { command: EC_COMMAND_RTC_GET_VALUE },
                    ),
                    Err(e) => self.start_fall_back(e),
                }
            },
            (SeedStage::Value, SeedEvent::Reply { reply }) => {
                let value = match &reply {
                    Some(bytes) => parse_rtc_value(Some(bytes.as_slice())),
                    None => parse_rtc_value(None),
                };
                match value {
                    Ok(seconds) => match sample_epoch_ns(seconds) {
                        Ok(epoch_ns) => self.go_to(
                            SeedStage::Clock { source: Source::ChromeEc },
                            SeedAsk::SetClock { source: Source::ChromeEc, epoch_ns },
                        ),
                        Err(e) => self.start_fall_back(e),
                    },
                    Err(e) => self.start_fall_back(e),
                }
            },
            (SeedStage::Clock { source }, SeedEvent::Clock { result }) => {
                match accept_clock_result(result) {
                    Ok(_) => self.end(None),
                    Err(e) => match source {
                        Source::ChromeEc => self.start_fall_back(e),
                        Source::Pm6150 => self.end(Some(e)),
                    },
                }
            },
            (SeedStage::Arbiter, SeedEvent::Found { found }) => {
                if found {
                    self.go_to(SeedStage::Tree, SeedAsk::FindTree)
                } else {
                    self.end(Some("qcom-pm8941-rtc: SPMI controller unavailable"))
                }
            },
            (SeedStage::Tree, SeedEvent::Found { found }) => {
                if found {
                    self.go_to(SeedStage::Node, SeedAsk::FindNode)
                } else {
                    self.end(Some("qcom-pm8941-rtc: FDT unavailable"))
                }
            },
            (SeedStage::Node, SeedEvent::Node { node }) => match node {
                Some((sid, base)) => self.go_to(
                    SeedStage::Counter,
                    SeedAsk::ReadCounter { sid, base },
                ),
                None => self.end(Some("qcom-pm8941-rtc: PM6150 RTC node not found")),
            },
            (SeedStage::Counter, SeedEvent::Seconds { seconds }) => match seconds {
                Ok(seconds) => match sample_epoch_ns(seconds) {
                    Ok(epoch_ns) => self.go_to(
                        SeedStage::Clock { source: Source::Pm6150 },
                        SeedAsk::SetClock { source: Source::Pm6150, epoch_ns },
                    ),
                    Err(_) => self.end(Some("PM6150 RTC is uninitialized or implausible")),
                },
                Err(e) => self.end(Some(e)),
            },
            _ => self.end(None),
        }
    }
}

// Laws.

/// The wall clock is only ever set to a plausible time.
pub proof fn only_plausible_times_are_set(seed: Seed, event: SeedEventView)
    ensures
        seed.step(event).1 matches SeedAsk::SetClock { epoch_ns, .. } ==> MINIMUM_PLAUSIBLE_EPOCH
            * NANOS_PER_SECOND <= epoch_ns < MAXIMUM_PLAUSIBLE_EPOCH * NANOS_PER_SECOND
            && epoch_ns % NANOS_PER_SECOND == 0,
{
}

/// The PMIC is asked only after the embedded controller was of no use: that
/// holds when seeding starts, and every event keeps it.
pub open spec fn controller_first(seed: Seed) -> bool {
    match seed.stage {
        SeedStage::Controller => seed.controller_error is None,
        SeedStage::Features => seed.controller_error is None,
        SeedStage::Value => seed.controller_error is None,
        SeedStage::Clock { source } => source == Source::ChromeEc <==> seed.controller_error is None,
        SeedStage::Arbiter => seed.controller_error is Some,
        SeedStage::Tree => seed.controller_error is Some,
        SeedStage::Node => seed.controller_error is Some,
        SeedStage::Counter => seed.controller_error is Some,
        SeedStage::Over => true,
    }
}

/// The PMIC is asked only after the embedded controller was of no use.
pub proof fn the_controller_comes_first(seed: Seed, event: SeedEventView)
    requires
        controller_first(seed),
        answers(seed.stage, event),
    ensures
        controller_first(seed.step(event).0),
        seed.step(event).1 matches SeedAsk::ReadCounter { .. } ==> seed.controller_error is Some,
        seed.step(event).1 matches SeedAsk::Finished { controller: None, .. } ==> seed.stage
            == (SeedStage::Clock { source: Source::ChromeEc }),
{
}

pub open spec fn questions_to_go(seed: Seed) -> int {
    match seed.stage {
        SeedStage::Controller => 9,
        SeedStage::Features => 8,
        SeedStage::Value => 7,
        SeedStage::Clock { source } => match source {
            Source::ChromeEc => 6,
            Source::Pm6150 => 1,
        },
        SeedStage::Arbiter => 5,
        SeedStage::Tree => 4,
        SeedStage::Node => 3,
        SeedStage::Counter => 2,
        SeedStage::Over => 0,
    }
}

/// Seeding ends after at most nine answers.
pub proof fn seeding_ends(seed: Seed, event: SeedEventView)
    requires
        answers(seed.stage, event),
    ensures
        0 <= questions_to_go(seed.step(event).0) < questions_to_go(seed) <= 9,
{
}

/// A counter value is one sample: all of its bytes were read together. The
/// second sample is taken exactly if the lowest byte fell in between.
pub proof fn seconds_are_one_sample(counter: Counter, first: Seq<u8>, lowest: u8, second: Seq<u8>)
    requires
        counter.stage == CounterStage::First,
        first.len() == 4,
        second.len() == 4,
    ensures
        ({
            let a = counter.step(Ok(first)).0;
            let b = a.step(Ok(seq![lowest]));
            let c = b.0.step(Ok(second));
            if lowest < first[0] {
                b.1 is Read && c.1 == (CounterAsk::Finished { result: Ok(le32(second, 0) as u32) })
            } else {
                b.1 == (CounterAsk::Finished { result: Ok(le32(first, 0) as u32) })
            }
        }),
{
}

/// Keeps the driver linked into builds that load it by name.
pub fn force_link() {
}

} // verus!
