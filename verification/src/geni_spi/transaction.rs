//! SPI transactions: which engine commands a list of segments comes to, in
//! what order, and that the chip select is released whatever they bring.

use vstd::prelude::*;

use crate::spi::{ReadUntil, SegmentView, SpiError, SpiTransfer};

verus! {

pub open spec fn segment_views(segments: Seq<SpiTransfer>) -> Seq<SegmentView> {
    Seq::new(segments.len(), |i: int| segments[i]@)
}

/// The first speed that a segment asks for, else the bus speed.
pub open spec fn requested_speed(segments: Seq<SegmentView>, bus_speed: u32) -> u32
    decreases segments.len(),
{
    if segments.len() == 0 {
        bus_speed
    } else if segments[0].speed_hz != 0 {
        segments[0].speed_hz
    } else {
        requested_speed(segments.skip(1), bus_speed)
    }
}

/// All segments name one chip select, and those that name a speed name one
/// speed.
pub open spec fn agree(segments: Seq<SegmentView>, bus_speed: u32) -> bool {
    &&& segments.len() > 0
    &&& forall|i: int| 0 <= i < segments.len() ==> (#[trigger] segments[i]).cs == segments[0].cs
    &&& forall|i: int|
        0 <= i < segments.len() ==> (#[trigger] segments[i]).speed_hz == 0 || segments[i].speed_hz
            == requested_speed(segments, bus_speed)
}

proof fn skipped_speed(segments: Seq<SegmentView>, bus_speed: u32, at: int)
    requires
        0 <= at <= segments.len(),
        forall|i: int| 0 <= i < at ==> (#[trigger] segments[i]).speed_hz == 0,
    ensures
        requested_speed(segments, bus_speed) == requested_speed(segments.skip(at), bus_speed),
    decreases at,
{
    if at == 0 {
        assert(segments.skip(0) =~= segments);
    } else {
        assert(segments[0].speed_hz == 0);
        let rest = segments.skip(1);
        assert forall|i: int| 0 <= i < at - 1 implies (#[trigger] rest[i]).speed_hz == 0 by {
            assert(rest[i] == segments[i + 1]);
        }
        skipped_speed(rest, bus_speed, at - 1);
        assert(rest.skip(at - 1) =~= segments.skip(at));
    }
}

/// The chip select and the speed of a transaction.
pub fn check_segments(segments: &Vec<SpiTransfer>, bus_speed: u32) -> (r: Result<
    (u8, u32),
    SpiError,
>)
    ensures
        r == (if agree(segment_views(segments@), bus_speed) {
            Ok::<(u8, u32), SpiError>(
                (
                    segments@[0].cs,
                    requested_speed(segment_views(segments@), bus_speed),
                ),
            )
        } else {
            Err(SpiError::InvalidArg)
        }),
{
    let ghost views = segment_views(segments@);
    let length: usize = segments.len();
    if length == 0 {
        return Err(SpiError::InvalidArg);
    }
    let cs: u8 = segments[0].cs;
    let mut i: usize = 0;
    while i < length
        invariant
            i <= length,
            length == segments@.len(),
            length > 0,
            views == segment_views(segments@),
            cs == views[0].cs,
            forall|j: int| 0 <= j < i ==> (#[trigger] views[j]).cs == cs,
        decreases length - i,
    {
        assert(views[i as int] == segments@[i as int]@);
        if segments[i].cs != cs {
            return Err(SpiError::InvalidArg);
        }
        i += 1;
    }
    let mut speed: u32 = bus_speed;
    let mut k: usize = 0;
    let mut found = false;
    while k < length && !found
        invariant
            k <= length,
            length == segments@.len(),
            views == segment_views(segments@),
            found ==> speed == requested_speed(views, bus_speed),
            !found ==> speed == bus_speed && forall|j: int|
                0 <= j < k ==> (#[trigger] views[j]).speed_hz == 0,
        decreases length - k,
    {
        assert(views[k as int] == segments@[k as int]@);
        if segments[k].speed_hz != 0 {
            speed = segments[k].speed_hz;
            found = true;
            proof {
                skipped_speed(views, bus_speed, k as int);
                assert(views.skip(k as int)[0] == views[k as int]);
            }
        }
        k += 1;
    }
    proof {
        if !found {
            skipped_speed(views, bus_speed, length as int);
        }
    }
    let mut m: usize = 0;
    while m < length
        invariant
            m <= length,
            length == segments@.len(),
            views == segment_views(segments@),
            speed == requested_speed(views, bus_speed),
            forall|j: int|
                0 <= j < m ==> (#[trigger] views[j]).speed_hz == 0 || views[j].speed_hz == speed,
        decreases length - m,
    {
        assert(views[m as int] == segments@[m as int]@);
        if segments[m].speed_hz != 0 && segments[m].speed_hz != speed {
            return Err(SpiError::InvalidArg);
        }
        m += 1;
    }
    Ok((cs, speed))
}

// What a segment asks of the engine.

/// A condition that a byte can meet, on a plain read.
pub open spec fn condition_fits(segment: SegmentView, condition: ReadUntil) -> bool {
    &&& segment.read
    &&& !segment.write
    &&& condition.max_bytes != 0
    &&& condition.value & !condition.mask == 0
}

/// What a segment comes to.
#[derive(Clone, Copy, Debug)]
pub enum Plan {
    /// Neither direction, and no data.
    Nothing,
    /// One command over the segment's data.
    Run { send: bool, receive: bool },
    /// Single-byte commands until one matches.
    Until { condition: ReadUntil },
    Invalid,
}

pub open spec fn plan_of(segment: SegmentView) -> Plan {
    match segment.read_until {
        Some(condition) => if condition_fits(segment, condition) {
            Plan::Until { condition }
        } else {
            Plan::Invalid
        },
        None => if segment.read || segment.write {
            Plan::Run { send: segment.write, receive: segment.read }
        } else if segment.data.len() == 0 {
            Plan::Nothing
        } else {
            Plan::Invalid
        },
    }
}

pub fn plan_segment(segment: &SpiTransfer) -> (r: Plan)
    ensures
        r == plan_of(segment@),
{
    match segment.read_until {
        Some(condition) => {
            if !segment.read || segment.write || condition.max_bytes == 0 || condition.value
                & !condition.mask != 0 {
                Plan::Invalid
            } else {
                Plan::Until { condition }
            }
        },
        None => {
            if segment.read || segment.write {
                Plan::Run { send: segment.write, receive: segment.read }
            } else if segment.data.len() == 0 {
                Plan::Nothing
            } else {
                Plan::Invalid
            }
        },
    }
}

// The transaction.

#[derive(Clone, Copy, Debug)]
pub enum Stage {
    /// The chip select is being asserted.
    Selecting,
    /// The delay before segment `index`.
    Before { index: usize },
    /// The command of segment `index`.
    Running { index: usize },
    /// A single-byte command of segment `index`.
    Polling { index: usize, condition: ReadUntil },
    /// The delay after segment `index`.
    After { index: usize },
    /// The chip select is being released; this is how the segments ended.
    Releasing { outcome: Result<(), SpiError> },
    Over,
}

/// What to do next.
#[derive(Debug)]
pub enum Step {
    Select { cs: u8, asserted: bool },
    Delay { us: u64 },
    /// Run one engine command.
    Run { tx: Vec<u8>, rx: Vec<u8> },
    Finished { outcome: Result<(), SpiError> },
}

pub ghost enum StepView {
    Select { cs: u8, asserted: bool },
    Delay { us: u64 },
    Run { tx: Seq<u8>, rx: Seq<u8> },
    Finished { outcome: Result<(), SpiError> },
}

impl View for Step {
    type V = StepView;

    open spec fn view(&self) -> StepView {
        match *self {
            Step::Select { cs, asserted } => StepView::Select { cs, asserted },
            Step::Delay { us } => StepView::Delay { us },
            Step::Run { tx, rx } => StepView::Run { tx: tx@, rx: rx@ },
            Step::Finished { outcome } => StepView::Finished { outcome },
        }
    }
}

#[derive(Debug)]
pub struct Transaction {
    pub cs: u8,
    pub segments: Vec<SpiTransfer>,
    pub stage: Stage,
}

#[verifier::ext_equal]
pub struct TransactionView {
    pub cs: u8,
    pub segments: Seq<SegmentView>,
    pub stage: Stage,
}

impl View for Transaction {
    type V = TransactionView;

    open spec fn view(&self) -> TransactionView {
        TransactionView {
            cs: self.cs,
            segments: segment_views(self.segments@),
            stage: self.stage,
        }
    }
}

/// Both must have gone well; the first failure counts.
pub open spec fn both(first: Result<(), SpiError>, second: Result<(), SpiError>) -> Result<
    (),
    SpiError,
> {
    match first {
        Ok(_) => second,
        Err(_) => first,
    }
}

impl TransactionView {
    pub open spec fn wf(self) -> bool {
        match self.stage {
            Stage::Before { index } => index < self.segments.len(),
            Stage::Running { index } => index < self.segments.len(),
            Stage::Polling { index, condition } => index < self.segments.len()
                && self.segments[index as int].data.len() < condition.max_bytes,
            Stage::After { index } => index < self.segments.len(),
            _ => true,
        }
    }

    /// Releases the chip select, with what the segments came to.
    pub open spec fn release(self, outcome: Result<(), SpiError>) -> (TransactionView, StepView) {
        (
            TransactionView { stage: Stage::Releasing { outcome }, ..self },
            StepView::Select { cs: self.cs, asserted: false },
        )
    }

    /// Turns to segment `index`, or to the end.
    pub open spec fn turn_to(self, index: int) -> (TransactionView, StepView) {
        if index < self.segments.len() {
            (
                TransactionView { stage: Stage::Before { index: index as usize }, ..self },
                StepView::Delay { us: self.segments[index].delay_before_us },
            )
        } else {
            self.release(Ok(()))
        }
    }

    /// Segment `index` went well.
    pub open spec fn done_with(self, index: int) -> (TransactionView, StepView) {
        (
            TransactionView { stage: Stage::After { index: index as usize }, ..self },
            StepView::Delay { us: self.segments[index].delay_after_us },
        )
    }

    /// The transaction with other data in segment `index`.
    pub open spec fn with_data(self, index: int, data: Seq<u8>) -> TransactionView {
        TransactionView {
            segments: self.segments.update(
                index,
                SegmentView { data, ..self.segments[index] },
            ),
            ..self
        }
    }

    pub open spec fn read_byte(self, index: int, condition: ReadUntil) -> (
        TransactionView,
        StepView,
    ) {
        (
            TransactionView {
                stage: Stage::Polling { index: index as usize, condition },
                ..self
            },
            StepView::Run { tx: Seq::empty(), rx: seq![0u8] },
        )
    }

    /// What follows the last step. `outcome` says how it went, and `rx` is
    /// the receive buffer of a command.
    pub open spec fn step(self, outcome: Result<(), SpiError>, rx: Seq<u8>) -> (
        TransactionView,
        StepView,
    ) {
        match self.stage {
            Stage::Selecting => match outcome {
                Ok(_) => self.turn_to(0),
                Err(_) => (
                    TransactionView { stage: Stage::Over, ..self },
                    StepView::Finished { outcome },
                ),
            },
            Stage::Before { index } => {
                let segment = self.segments[index as int];
                match plan_of(segment) {
                    Plan::Nothing => self.done_with(index as int),
                    Plan::Invalid => self.release(Err(SpiError::InvalidArg)),
                    Plan::Until { condition } => self.with_data(
                        index as int,
                        Seq::empty(),
                    ).read_byte(index as int, condition),
                    Plan::Run { send, receive } => (
                        TransactionView { stage: Stage::Running { index }, ..self },
                        StepView::Run {
                            tx: if send {
                                segment.data
                            } else {
                                Seq::empty()
                            },
                            rx: if receive {
                                segment.data
                            } else {
                                Seq::empty()
                            },
                        },
                    ),
                }
            },
            Stage::Running { index } => {
                let state = if self.segments[index as int].read {
                    self.with_data(index as int, rx)
                } else {
                    self
                };
                match outcome {
                    Ok(_) => state.done_with(index as int),
                    Err(_) => state.release(outcome),
                }
            },
            Stage::Polling { index, condition } => match outcome {
                Ok(_) => {
                    let state = self.with_data(
                        index as int,
                        self.segments[index as int].data.push(rx[0]),
                    );
                    if rx[0] & condition.mask == condition.value {
                        state.done_with(index as int)
                    } else if state.segments[index as int].data.len() >= condition.max_bytes {
                        state.release(Err(SpiError::Timeout))
                    } else {
                        state.read_byte(index as int, condition)
                    }
                },
                Err(_) => self.release(outcome),
            },
            Stage::After { index } => self.turn_to(index + 1),
            Stage::Releasing { outcome: segments } => (
                TransactionView { stage: Stage::Over, ..self },
                StepView::Finished { outcome: both(segments, outcome) },
            ),
            Stage::Over => (self, StepView::Finished { outcome }),
        }
    }
}

impl Transaction {
    /// Starts a transaction on a chip select: asserting it comes first.
    pub fn begin(cs: u8, segments: Vec<SpiTransfer>) -> (r: (Transaction, Step))
        ensures
            r.0@ == (TransactionView {
                cs,
                segments: segment_views(segments@),
                stage: Stage::Selecting,
            }),
            r.0@.wf(),
            r.1@ == (StepView::Select { cs, asserted: true }),
    {
        (
            Transaction { cs, segments, stage: Stage::Selecting },
            Step::Select { cs, asserted: true },
        )
    }

    fn release(&mut self, outcome: Result<(), SpiError>) -> (r: Step)
        ensures
            (final(self)@, r@) == old(self)@.release(outcome),
            final(self)@.wf(),
    {
        self.stage = Stage::Releasing { outcome };
        Step::Select { cs: self.cs, asserted: false }
    }

    fn turn_to(&mut self, index: usize) -> (r: Step)
        ensures
            (final(self)@, r@) == old(self)@.turn_to(index as int),
            final(self)@.wf(),
    {
        if index < self.segments.len() {
            self.stage = Stage::Before { index };
            let us: u64 = self.segments[index].delay_before_us;
            assert(self@ =~= old(self)@.turn_to(index as int).0);
            Step::Delay { us }
        } else {
            self.release(Ok(()))
        }
    }

    fn done_with(&mut self, index: usize) -> (r: Step)
        requires
            index < old(self)@.segments.len(),
        ensures
            (final(self)@, r@) == old(self)@.done_with(index as int),
            final(self)@.wf(),
    {
        self.stage = Stage::After { index };
        let us: u64 = self.segments[index].delay_after_us;
        assert(self@ =~= old(self)@.done_with(index as int).0);
        Step::Delay { us }
    }

    fn set_data(&mut self, index: usize, data: Vec<u8>)
        requires
            index < old(self)@.segments.len(),
        ensures
            final(self)@ == old(self)@.with_data(index as int, data@),
    {
        let ghost start = self@;
        let ghost new_data = data@;
        self.segments[index].data = data;
        assert(self@.segments =~= start.with_data(index as int, new_data).segments) by {
            assert forall|i: int| 0 <= i < self@.segments.len() implies #[trigger] self@.segments[i]
                == start.with_data(index as int, new_data).segments[i] by {
                if i != index {
                    assert(self.segments@[i] == old(self).segments@[i]);
                }
            }
        }
    }

    fn read_byte(&mut self, index: usize, condition: ReadUntil) -> (r: Step)
        requires
            index < old(self)@.segments.len(),
            old(self)@.segments[index as int].data.len() < condition.max_bytes,
        ensures
            (final(self)@, r@) == old(self)@.read_byte(index as int, condition),
            final(self)@.wf(),
    {
        self.stage = Stage::Polling { index, condition };
        let tx: Vec<u8> = Vec::new();
        let rx: Vec<u8> = vec![0u8; 1];
        assert(tx@ =~= Seq::<u8>::empty());
        assert(rx@ =~= seq![0u8]);
        Step::Run { tx, rx }
    }

    /// Goes on after a step. `outcome` says how it went, and `rx` is the
    /// receive buffer of a command.
    pub fn advance(&mut self, outcome: Result<(), SpiError>, rx: Vec<u8>) -> (r: Step)
        requires
            old(self)@.wf(),
            old(self).stage is Polling && outcome is Ok ==> rx@.len() == 1,
        ensures
            final(self)@.wf(),
            (final(self)@, r@) == old(self)@.step(outcome, rx@),
    {
        let ghost start = self@;
        match self.stage {
            Stage::Selecting => match outcome {
                Ok(_) => self.turn_to(0),
                Err(_) => {
                    self.stage = Stage::Over;
                    Step::Finished { outcome }
                },
            },
            Stage::Before { index } => {
                assert(self@.segments[index as int] == self.segments@[index as int]@);
                match plan_segment(&self.segments[index]) {
                    Plan::Nothing => self.done_with(index),
                    Plan::Invalid => self.release(Err(SpiError::InvalidArg)),
                    Plan::Until { condition } => {
                        let empty: Vec<u8> = Vec::new();
                        assert(empty@ =~= Seq::<u8>::empty());
                        self.set_data(index, empty);
                        self.read_byte(index, condition)
                    },
                    Plan::Run { send, receive } => {
                        let tx = if send {
                            crate::bytes::copy_bytes(&self.segments[index].data)
                        } else {
                            Vec::new()
                        };
                        let rx = if receive {
                            crate::bytes::copy_bytes(&self.segments[index].data)
                        } else {
                            Vec::new()
                        };
                        self.stage = Stage::Running { index };
                        assert(self@ =~= start.step(outcome, rx@).0);
                        Step::Run { tx, rx }
                    },
                }
            },
            Stage::Running { index } => {
                assert(self@.segments[index as int] == self.segments@[index as int]@);
                if self.segments[index].read {
                    self.set_data(index, rx);
                }
                match outcome {
                    Ok(_) => self.done_with(index),
                    Err(_) => self.release(outcome),
                }
            },
            Stage::Polling { index, condition } => match outcome {
                Ok(_) => {
                    assert(self@.segments[index as int] == self.segments@[index as int]@);
                    let byte: u8 = rx[0];
                    let mut data = crate::bytes::copy_bytes(&self.segments[index].data);
                    data.push(byte);
                    let length: usize = data.len();
                    self.set_data(index, data);
                    if byte & condition.mask == condition.value {
                        self.done_with(index)
                    } else if length >= condition.max_bytes {
                        self.release(Err(SpiError::Timeout))
                    } else {
                        self.read_byte(index, condition)
                    }
                },
                Err(_) => self.release(outcome),
            },
            Stage::After { index } => {
                let length: usize = self.segments.len();
                assert(index < length);
                self.turn_to(index + 1)
            },
            Stage::Releasing { outcome: segments } => {
                self.stage = Stage::Over;
                let combined = match segments {
                    Ok(_) => outcome,
                    Err(_) => segments,
                };
                Step::Finished { outcome: combined }
            },
            Stage::Over => Step::Finished { outcome },
        }
    }
}

// Laws.

/// The chip select is released: a transaction finishes only when asserting it
/// failed, or right after releasing it.
pub proof fn a_selected_chip_is_released(
    transaction: TransactionView,
    outcome: Result<(), SpiError>,
    rx: Seq<u8>,
)
    requires
        transaction.wf(),
    ensures
        ({
            let (next, step) = transaction.step(outcome, rx);
            &&& step is Finished ==> {
                ||| transaction.stage is Releasing
                ||| transaction.stage is Over
                ||| transaction.stage is Selecting && outcome is Err
            }
            &&& next.stage is Releasing <==> step == (StepView::Select {
                cs: transaction.cs,
                asserted: false,
            })
        }),
{
}

/// A failure of a segment is what the transaction reports, however releasing
/// the chip select went.
pub proof fn the_first_failure_is_reported(
    transaction: TransactionView,
    failure: SpiError,
    rx: Seq<u8>,
    release: Result<(), SpiError>,
)
    requires
        transaction.wf(),
        transaction.stage is Running || transaction.stage is Polling,
    ensures
        transaction.step(Err(failure), rx).0.step(release, Seq::empty()).1 == (
        StepView::Finished { outcome: Err(failure) }),
{
}

/// Reading until a byte matches never reads more bytes than allowed.
pub proof fn polling_is_bounded(transaction: TransactionView, rx: Seq<u8>)
    requires
        transaction.wf(),
        transaction.stage is Polling,
    ensures
        ({
            let index = transaction.stage->Polling_index as int;
            let condition = transaction.stage->Polling_condition;
            transaction.step(Ok(()), rx).0.segments[index].data.len() <= condition.max_bytes
        }),
{
}

} // verus!
