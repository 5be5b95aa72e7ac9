//! The procedure that reconfigures a session once its stream is known: its
//! scratch buffers are replaced and its picture buffers are allocated.

use std::collections::VecDeque;

use vstd::prelude::*;

use crate::bytes::first_index;
use crate::venus::hfi_abi::{
    packet, parse_buffer_requirements, requirements_of, session_command, BufferRequirement,
    SequenceInfo, HFI_BUFFER_OUTPUT, HFI_CMD_SESSION_CONTINUE,
};
use crate::venus::nv12::{layout_of, Nv12Layout};
use crate::venus::session::{dpb_packet, DmaBuffer, SessionView, VenusSession};
use crate::venus::setup::{
    exchanges, is_scratch, next_exchange, plan_internal_buffers, plan_of, push_exchange,
    push_property_query, push_registrations, push_releases, reconfiguration_opening, registrations,
    releases, scratch, send_of, sent, AllocationPlan, Event, EventView, Exchange, ExchangeView,
    InternalBuffer, PlanView, Progress, ProgressView, MAX_DYNAMIC_BUFFERS,
};

verus! {

#[derive(Clone, Copy, Debug, Eq, PartialEq, Structural)]
pub enum Phase {
    /// Configuring the outputs, up to the query for buffer requirements.
    Opening,
    /// Taking scratch buffers back.
    Releasing,
    /// Allocating new ones.
    Allocating,
    /// Handing them over.
    Publishing,
    /// Allocating picture buffers.
    AllocatingPictures,
    /// Continuing, and handing the picture buffers over.
    Queueing,
}

#[derive(Debug)]
pub struct Reconfiguration {
    pub phase: Phase,
    pub sequence: SequenceInfo,
    pub layout: Nv12Layout,
    /// The exchanges of this phase that are still to come.
    pub batch: VecDeque<Exchange>,
    pub requirements: Vec<BufferRequirement>,
    pub retained: Vec<InternalBuffer>,
    pub plan: AllocationPlan,
    pub granted: Vec<InternalBuffer>,
    pub picture_count: u32,
    pub picture_size: u32,
    /// Exchanges of the last phase that succeeded.
    pub queued: usize,
}

#[verifier::ext_equal]
pub struct ReconfigurationView {
    pub phase: Phase,
    pub sequence: SequenceInfo,
    pub layout: Nv12Layout,
    pub batch: Seq<ExchangeView>,
    pub requirements: Seq<BufferRequirement>,
    pub retained: Seq<InternalBuffer>,
    pub plan: PlanView,
    pub granted: Seq<InternalBuffer>,
    pub picture_count: u32,
    pub picture_size: u32,
    pub queued: nat,
}

impl View for Reconfiguration {
    type V = ReconfigurationView;

    open spec fn view(&self) -> ReconfigurationView {
        ReconfigurationView {
            phase: self.phase,
            sequence: self.sequence,
            layout: self.layout,
            batch: exchanges(self.batch@),
            requirements: self.requirements@,
            retained: self.retained@,
            plan: self.plan@,
            granted: self.granted@,
            picture_count: self.picture_count,
            picture_size: self.picture_size,
            queued: self.queued as nat,
        }
    }
}

/// The buffers of a list that are, or are not, scratch.
pub open spec fn picked(buffers: Seq<InternalBuffer>, scratch: bool) -> Seq<InternalBuffer>
    decreases buffers.len(),
{
    if buffers.len() == 0 {
        Seq::empty()
    } else {
        let before = picked(buffers.drop_last(), scratch);
        if is_scratch(buffers.last().buffer_type) == scratch {
            before.push(buffers.last())
        } else {
            before
        }
    }
}

fn pick(buffers: &Vec<InternalBuffer>, wanted: bool) -> (r: Vec<InternalBuffer>)
    ensures
        r@ == picked(buffers@, wanted),
{
    let mut out: Vec<InternalBuffer> = Vec::new();
    let mut i: usize = 0;
    assert(buffers@.take(0) =~= Seq::empty());
    while i < buffers.len()
        invariant
            i <= buffers@.len(),
            out@ == picked(buffers@.take(i as int), wanted),
        decreases buffers@.len() - i,
    {
        let buffer = buffers[i];
        assert(buffers@.take(i + 1).drop_last() =~= buffers@.take(i as int));
        if scratch(buffer.buffer_type) == wanted {
            out.push(buffer);
        }
        i += 1;
    }
    assert(buffers@.take(buffers@.len() as int) =~= buffers@);
    out
}

// Picture buffers.

pub open spec fn is_output() -> spec_fn(BufferRequirement) -> bool {
    |r: BufferRequirement| r.buffer_type == HFI_BUFFER_OUTPUT
}

pub open spec fn larger(a: u32, b: u32) -> u32 {
    if a >= b {
        a
    } else {
        b
    }
}

/// How many picture buffers a stream needs: what the firmware requires and
/// what the stream announced, and at least one.
pub open spec fn pictures_needed(requirements: Seq<BufferRequirement>, sequence: SequenceInfo) -> u32 {
    let required = match first_index(requirements, is_output(), 0) {
        Some(i) => requirements[i].count_min,
        None => sequence.minimum_dpb_count,
    };
    larger(larger(required, sequence.minimum_dpb_count), 1)
}

/// How large they are: what the firmware requires, and a compressed frame.
pub open spec fn picture_bytes(requirements: Seq<BufferRequirement>, layout: Nv12Layout) -> u32 {
    larger(
        match first_index(requirements, is_output(), 0) {
            Some(i) => requirements[i].size,
            None => 0,
        },
        layout.ubwc_size,
    )
}

fn max(a: u32, b: u32) -> (r: u32)
    ensures
        r == larger(a, b),
{
    if a >= b {
        a
    } else {
        b
    }
}

fn find_output(requirements: &Vec<BufferRequirement>) -> (r: Option<BufferRequirement>)
    ensures
        r == (match first_index(requirements@, is_output(), 0) {
            Some(i) => Some(requirements@[i]),
            None => None,
        }),
{
    let mut i: usize = 0;
    while i < requirements.len()
        invariant
            i <= requirements@.len(),
            first_index(requirements@, is_output(), 0) == first_index(
                requirements@,
                is_output(),
                i as int,
            ),
        decreases requirements@.len() - i,
    {
        if requirements[i].buffer_type == HFI_BUFFER_OUTPUT {
            return Some(requirements[i]);
        }
        i += 1;
    }
    None
}

/// The number and size of the picture buffers.
pub fn plan_pictures(
    requirements: &Vec<BufferRequirement>,
    sequence: SequenceInfo,
    layout: Nv12Layout,
) -> (r: Result<(u32, u32), &'static str>)
    ensures
        ({
            let count = pictures_needed(requirements@, sequence);
            r == (if count > MAX_DYNAMIC_BUFFERS {
                Err::<(u32, u32), &'static str>(
                    "qcom-venus-sc7180: firmware requested too many DPB buffers",
                )
            } else {
                Ok((count, picture_bytes(requirements@, layout)))
            })
        }),
{
    let output = find_output(requirements);
    let (required, size): (u32, u32) = match output {
        Some(requirement) => (requirement.count_min, requirement.size),
        None => (sequence.minimum_dpb_count, 0),
    };
    let count: u32 = max(max(required, sequence.minimum_dpb_count), 1);
    if count > MAX_DYNAMIC_BUFFERS {
        return Err("qcom-venus-sc7180: firmware requested too many DPB buffers");
    }
    Ok((count, max(size, layout.ubwc_size)))
}

/// The exchanges that continue the stream and hand the picture buffers over.
pub open spec fn queueing(session: SessionView) -> Seq<ExchangeView> {
    seq![sent(packet(seq![HFI_CMD_SESSION_CONTINUE, session.id]))] + Seq::new(
        session.dpbs.len(),
        |i: int| sent(dpb_packet(session, i)),
    )
}

// Steps.

/// The procedure, the session and the next request.
pub type StepView = (ReconfigurationView, SessionView, ProgressView);

impl ReconfigurationView {
    pub open spec fn issue(self, session: SessionView, batch: Seq<ExchangeView>) -> StepView {
        (
            ReconfigurationView { batch: batch.drop_first(), ..self },
            session,
            ProgressView::Exchange(batch[0]),
        )
    }

    /// The requirements are known: take the scratch buffers back. Until that
    /// is done the session holds no internal buffer.
    pub open spec fn opened(
        self,
        session: SessionView,
        requirements: Seq<BufferRequirement>,
    ) -> StepView {
        let scratch = picked(session.internal, true);
        let next = ReconfigurationView {
            phase: Phase::Releasing,
            requirements,
            retained: picked(session.internal, false),
            ..self
        };
        let emptied = SessionView { internal: Seq::empty(), ..session };
        if scratch.len() > 0 {
            next.issue(emptied, releases(session.id, scratch))
        } else {
            next.released(emptied)
        }
    }

    /// The session keeps its other buffers while scratch is replaced, so
    /// that the firmware never refers to memory that was freed.
    pub open spec fn released(self, session: SessionView) -> StepView {
        (ReconfigurationView {
            phase: Phase::Allocating,
            plan: plan_of(self.requirements, true),
            ..self
        }).allocate(SessionView { internal: self.retained, ..session })
    }

    /// Asks for the next scratch buffer. All are allocated before the first
    /// is handed over.
    pub open spec fn allocate(self, session: SessionView) -> StepView {
        if self.granted.len() < self.plan.buffers.len() {
            (
                self,
                session,
                ProgressView::Allocate(self.plan.buffers[self.granted.len() as int].size),
            )
        } else if self.plan.fault is Some {
            (self, session, ProgressView::Failed(self.plan.fault->Some_0))
        } else if self.granted.len() > 0 {
            (ReconfigurationView { phase: Phase::Publishing, ..self }).issue(
                session,
                registrations(session.id, self.granted),
            )
        } else {
            self.published(session)
        }
    }

    pub open spec fn published(self, session: SessionView) -> StepView {
        let with_scratch = SessionView { internal: session.internal + self.granted, ..session };
        if pictures_needed(self.requirements, self.sequence) > MAX_DYNAMIC_BUFFERS {
            (
                self,
                with_scratch,
                ProgressView::Failed("qcom-venus-sc7180: firmware requested too many DPB buffers"),
            )
        } else {
            (
                ReconfigurationView {
                    phase: Phase::AllocatingPictures,
                    picture_count: pictures_needed(self.requirements, self.sequence),
                    picture_size: picture_bytes(self.requirements, self.layout),
                    ..self
                },
                SessionView { dpbs: Seq::empty(), dpb_queued: Seq::empty(), ..with_scratch },
                ProgressView::Allocate(picture_bytes(self.requirements, self.layout)),
            )
        }
    }

    pub open spec fn picture_allocated(self, session: SessionView, address: u32) -> StepView {
        let grown = SessionView {
            dpbs: session.dpbs.push(DmaBuffer { address, size: self.picture_size }),
            dpb_queued: session.dpb_queued.push(false),
            ..session
        };
        if grown.dpbs.len() < self.picture_count {
            (self, grown, ProgressView::Allocate(self.picture_size))
        } else {
            (ReconfigurationView { phase: Phase::Queueing, queued: 0, ..self }).issue(
                grown,
                queueing(grown),
            )
        }
    }

    /// An exchange of the last phase succeeded: after the first, each one
    /// handed a picture buffer over. After the last, the layout is in force.
    pub open spec fn queued_one(self, session: SessionView) -> StepView {
        let marked = if self.queued == 0 {
            session
        } else {
            SessionView {
                dpb_queued: session.dpb_queued.update(self.queued - 1, true),
                ..session
            }
        };
        let next = ReconfigurationView { queued: self.queued + 1, ..self };
        if self.batch.len() > 0 {
            next.issue(marked, self.batch)
        } else {
            (next, SessionView { layout: Some(self.layout), ..marked }, ProgressView::Done)
        }
    }

    pub open spec fn step(self, session: SessionView, event: EventView) -> StepView {
        match event {
            EventView::Failed(e) => (self, session, ProgressView::Failed(e)),
            EventView::Allocated(address) => if self.phase == Phase::AllocatingPictures {
                self.picture_allocated(session, address)
            } else {
                let plan = self.plan.buffers[self.granted.len() as int];
                (ReconfigurationView {
                    granted: self.granted.push(
                        InternalBuffer { buffer_type: plan.buffer_type, size: plan.size, address },
                    ),
                    ..self
                }).allocate(session)
            },
            EventView::Answered(message) => if self.phase == Phase::Queueing {
                self.queued_one(session)
            } else if self.batch.len() > 0 {
                self.issue(session, self.batch)
            } else if self.phase == Phase::Opening {
                match requirements_of(message) {
                    Err(e) => (self, session, ProgressView::Failed(e)),
                    Ok(requirements) => self.opened(session, requirements),
                }
            } else if self.phase == Phase::Releasing {
                self.released(session)
            } else {
                self.published(session)
            },
        }
    }

    /// The event is one that the last request can bring.
    pub open spec fn expects(self, event: EventView) -> bool {
        match event {
            EventView::Failed(_) => true,
            EventView::Allocated(_) => self.phase == Phase::AllocatingPictures || (self.phase
                == Phase::Allocating && self.granted.len() < self.plan.buffers.len()),
            EventView::Answered(_) => self.phase != Phase::Allocating && self.phase
                != Phase::AllocatingPictures,
        }
    }

    /// The procedure and the session fit together.
    pub open spec fn wf(self, session: SessionView) -> bool {
        &&& session.wf()
        &&& self.layout.wf()
        &&& self.granted.len() <= self.plan.buffers.len()
        &&& self.picture_count <= MAX_DYNAMIC_BUFFERS
        &&& self.phase == Phase::Opening || self.phase == Phase::Releasing ==> self.granted.len()
            == 0
        &&& self.phase == Phase::Allocating || self.phase == Phase::AllocatingPictures
            ==> self.batch.len() == 0
        &&& self.phase == Phase::AllocatingPictures ==> session.dpbs.len() < self.picture_count
        &&& self.phase == Phase::Queueing ==> self.queued + self.batch.len() <= session.dpbs.len()
    }
}

impl Reconfiguration {
    /// Starts to reconfigure a session for a stream. A session is configured
    /// once: a stream that changes later needs a new session.
    pub fn start(session: &VenusSession, sequence: SequenceInfo) -> (r: Result<
        (Reconfiguration, Progress),
        &'static str,
    >)
        requires
            session@.wf(),
        ensures
            match r {
                Err(e) => if session.layout is Some {
                    e == "qcom-venus-sc7180: mid-stream resolution change requires a new session"
                } else {
                    layout_of(sequence) == Err::<Nv12Layout, &'static str>(e)
                },
                Ok((procedure, progress)) => {
                    &&& session.layout is None
                    &&& layout_of(sequence) == Ok::<Nv12Layout, &'static str>(procedure.layout)
                    &&& procedure@.wf(session@)
                    &&& procedure.phase == Phase::Opening
                    &&& procedure.sequence == sequence
                    &&& procedure@.batch == reconfiguration_opening(
                        session.id,
                        procedure.layout,
                    ).drop_first()
                    &&& progress@ == ProgressView::Exchange(
                        reconfiguration_opening(session.id, procedure.layout)[0],
                    )
                },
            },
    {
        if session.layout.is_some() {
            return Err("qcom-venus-sc7180: mid-stream resolution change requires a new session");
        }
        let layout = Nv12Layout::new(sequence)?;
        let mut batch: VecDeque<Exchange> = VecDeque::new();
        push_property_query(&mut batch, session.id, layout);
        assert(exchanges(batch@) =~= reconfiguration_opening(session.id, layout));
        let first = next_exchange(&mut batch);
        Ok(
            (
                Reconfiguration {
                    phase: Phase::Opening,
                    sequence,
                    layout,
                    batch,
                    requirements: Vec::new(),
                    retained: Vec::new(),
                    plan: AllocationPlan { buffers: Vec::new(), fault: None },
                    granted: Vec::new(),
                    picture_count: 0,
                    picture_size: 0,
                    queued: 0,
                },
                Progress::Exchange(first),
            ),
        )
    }

    fn published(&mut self, session: &mut VenusSession) -> (r: Progress)
        requires
            old(self)@.wf(old(session)@),
            old(self)@.batch.len() == 0,
            old(self).phase == Phase::Allocating || old(self).phase == Phase::Publishing,
        ensures
            final(self)@.wf(final(session)@),
            (final(self)@, final(session)@, r@) == old(self)@.published(old(session)@),
    {
        let ghost start = self@;
        let ghost before = session@;
        let mut i: usize = 0;
        while i < self.granted.len()
            invariant
                i <= self.granted@.len(),
                self@ == start,
                session@ == (SessionView {
                    internal: before.internal + self.granted@.take(i as int),
                    ..before
                }),
            decreases self.granted@.len() - i,
        {
            let buffer = self.granted[i];
            session.internal.push(buffer);
            i += 1;
            assert(session@ =~= (SessionView {
                internal: before.internal + self.granted@.take(i as int),
                ..before
            }));
        }
        assert(session@ =~= (SessionView {
            internal: before.internal + self.granted@,
            ..before
        }));
        match plan_pictures(&self.requirements, self.sequence, self.layout) {
            Err(e) => Progress::Failed(e),
            Ok((count, size)) => {
                self.phase = Phase::AllocatingPictures;
                self.picture_count = count;
                self.picture_size = size;
                session.dpbs = Vec::new();
                session.dpb_queued = Vec::new();
                assert(self@ =~= start.published(before).0);
                assert(session@ =~= start.published(before).1);
                Progress::Allocate(size)
            },
        }
    }

    fn allocate(&mut self, session: &mut VenusSession) -> (r: Progress)
        requires
            old(self)@.wf(old(session)@),
            old(self).phase == Phase::Allocating,
        ensures
            final(self)@.wf(final(session)@),
            (final(self)@, final(session)@, r@) == old(self)@.allocate(old(session)@),
    {
        let ghost start = self@;
        let ghost before = session@;
        if self.granted.len() < self.plan.buffers.len() {
            return Progress::Allocate(self.plan.buffers[self.granted.len()].size);
        }
        if let Some(fault) = self.plan.fault {
            return Progress::Failed(fault);
        }
        if self.granted.len() > 0 {
            self.phase = Phase::Publishing;
            push_registrations(&mut self.batch, session.id, &self.granted);
            assert(exchanges(self.batch@) =~= registrations(before.id, start.granted));
            let first = next_exchange(&mut self.batch);
            assert(self@ =~= start.allocate(before).0);
            return Progress::Exchange(first);
        }
        self.published(session)
    }

    fn released(&mut self, session: &mut VenusSession) -> (r: Progress)
        requires
            old(self)@.wf(old(session)@),
            old(self)@.batch.len() == 0,
            old(self).phase == Phase::Releasing,
        ensures
            final(self)@.wf(final(session)@),
            (final(self)@, final(session)@, r@) == old(self)@.released(old(session)@),
    {
        let ghost start = self@;
        let ghost before = session@;
        self.phase = Phase::Allocating;
        self.plan = plan_internal_buffers(&self.requirements, true);
        let mut retained: Vec<InternalBuffer> = Vec::new();
        let mut i: usize = 0;
        while i < self.retained.len()
            invariant
                i <= self.retained@.len(),
                retained@ == self.retained@.take(i as int),
            decreases self.retained@.len() - i,
        {
            retained.push(self.retained[i]);
            i += 1;
            assert(retained@ =~= self.retained@.take(i as int));
        }
        assert(retained@ =~= self.retained@);
        session.internal = retained;
        assert(self@ =~= (ReconfigurationView {
            phase: Phase::Allocating,
            plan: plan_of(start.requirements, true),
            ..start
        }));
        assert(session@ =~= (SessionView { internal: start.retained, ..before }));
        self.allocate(session)
    }

    fn opened(
        &mut self,
        session: &mut VenusSession,
        requirements: Vec<BufferRequirement>,
    ) -> (r: Progress)
        requires
            old(self)@.wf(old(session)@),
            old(self)@.batch.len() == 0,
            old(self).phase == Phase::Opening,
        ensures
            final(self)@.wf(final(session)@),
            (final(self)@, final(session)@, r@) == old(self)@.opened(
                old(session)@,
                requirements@,
            ),
    {
        let ghost start = self@;
        let ghost before = session@;
        let scratch_buffers = pick(&session.internal, true);
        self.retained = pick(&session.internal, false);
        session.internal = Vec::new();
        self.phase = Phase::Releasing;
        self.requirements = requirements;
        let ghost next = ReconfigurationView {
            phase: Phase::Releasing,
            requirements: requirements@,
            retained: picked(before.internal, false),
            ..start
        };
        assert(self@ =~= next);
        assert(session@ =~= (SessionView { internal: Seq::empty(), ..before }));
        if scratch_buffers.len() > 0 {
            push_releases(&mut self.batch, session.id, &scratch_buffers);
            assert(exchanges(self.batch@) =~= releases(before.id, scratch_buffers@));
            let first = next_exchange(&mut self.batch);
            assert(self@ =~= start.opened(before, requirements@).0);
            return Progress::Exchange(first);
        }
        self.released(session)
    }

    fn picture_allocated(&mut self, session: &mut VenusSession, address: u32) -> (r: Progress)
        requires
            old(self)@.wf(old(session)@),
            old(self).phase == Phase::AllocatingPictures,
        ensures
            final(self)@.wf(final(session)@),
            (final(self)@, final(session)@, r@) == old(self)@.picture_allocated(
                old(session)@,
                address,
            ),
    {
        let ghost start = self@;
        let ghost before = session@;
        session.dpbs.push(DmaBuffer { address, size: self.picture_size });
        session.dpb_queued.push(false);
        let ghost grown = SessionView {
            dpbs: before.dpbs.push(DmaBuffer { address, size: start.picture_size }),
            dpb_queued: before.dpb_queued.push(false),
            ..before
        };
        assert(session@ =~= grown);
        if session.dpbs.len() < self.picture_count as usize {
            return Progress::Allocate(self.picture_size);
        }
        self.phase = Phase::Queueing;
        self.queued = 0;
        push_exchange(
            &mut self.batch,
            send_of(session_command(HFI_CMD_SESSION_CONTINUE, session.id)),
        );
        assert(exchanges(self.batch@) =~= queueing(grown).take(1));
        let mut i: usize = 0;
        while i < session.dpbs.len()
            invariant
                i <= session@.dpbs.len(),
                session@ == grown,
                grown.wf(),
                exchanges(self.batch@) == queueing(grown).take(i + 1),
                self@ == (ReconfigurationView {
                    phase: Phase::Queueing,
                    queued: 0,
                    batch: self@.batch,
                    ..start
                }),
            decreases session@.dpbs.len() - i,
        {
            match session.queue_dpb(i) {
                Ok(fill) => push_exchange(&mut self.batch, send_of(fill)),
                Err(e) => {
                    return Progress::Failed(e);
                },
            }
            i += 1;
            assert(exchanges(self.batch@) =~= queueing(grown).take(i + 1));
        }
        assert(exchanges(self.batch@) =~= queueing(grown));
        let first = next_exchange(&mut self.batch);
        assert(self@ =~= start.picture_allocated(before, address).0);
        Progress::Exchange(first)
    }

    fn queued_one(&mut self, session: &mut VenusSession) -> (r: Progress)
        requires
            old(self)@.wf(old(session)@),
            old(self).phase == Phase::Queueing,
        ensures
            final(self)@.wf(final(session)@) || r@ is Done,
            final(session)@.wf(),
            (final(self)@, final(session)@, r@) == old(self)@.queued_one(old(session)@),
    {
        let ghost start = self@;
        let ghost before = session@;
        if self.queued > 0 {
            session.dpb_sent(self.queued - 1);
        }
        self.queued = self.queued + 1;
        if self.batch.len() > 0 {
            let first = next_exchange(&mut self.batch);
            assert(self@ =~= start.queued_one(before).0);
            return Progress::Exchange(first);
        }
        session.layout = Some(self.layout);
        assert(self@ =~= start.queued_one(before).0);
        assert(session@ =~= start.queued_one(before).1);
        Progress::Done
    }

    /// Takes what came of the last request, and gives the next one.
    pub fn advance(&mut self, session: &mut VenusSession, event: Event) -> (r: Progress)
        requires
            old(self)@.wf(old(session)@),
            old(self)@.expects(event@),
        ensures
            final(self)@.wf(final(session)@) || r@ is Done,
            final(session)@.wf(),
            (final(self)@, final(session)@, r@) == old(self)@.step(old(session)@, event@),
    {
        let ghost start = self@;
        let ghost before = session@;
        match event {
            Event::Failed(e) => Progress::Failed(e),
            Event::Allocated(address) => {
                if let Phase::AllocatingPictures = self.phase {
                    return self.picture_allocated(session, address);
                }
                let plan = self.plan.buffers[self.granted.len()];
                self.granted.push(
                    InternalBuffer { buffer_type: plan.buffer_type, size: plan.size, address },
                );
                assert(self@ =~= (ReconfigurationView {
                    granted: start.granted.push(
                        InternalBuffer {
                            buffer_type: plan.buffer_type,
                            size: plan.size,
                            address,
                        },
                    ),
                    ..start
                }));
                self.allocate(session)
            },
            Event::Answered(message) => {
                if let Phase::Queueing = self.phase {
                    return self.queued_one(session);
                }
                if self.batch.len() > 0 {
                    let first = next_exchange(&mut self.batch);
                    assert(self@ =~= start.issue(before, start.batch).0);
                    return Progress::Exchange(first);
                }
                match self.phase {
                    Phase::Opening => match parse_buffer_requirements(message) {
                        Err(e) => Progress::Failed(e),
                        Ok(requirements) => self.opened(session, requirements),
                    },
                    Phase::Releasing => self.released(session),
                    _ => self.published(session),
                }
            },
        }
    }
}

// Laws.

/// The scratch buffers and the others make up the whole list.
pub proof fn every_internal_buffer_is_picked_once(
    buffers: Seq<InternalBuffer>,
    buffer: InternalBuffer,
)
    ensures
        picked(buffers, true).len() + picked(buffers, false).len() == buffers.len(),
        buffers.contains(buffer) <==> picked(
            buffers,
            is_scratch(buffer.buffer_type),
        ).contains(buffer),
    decreases buffers.len(),
{
    if buffers.len() > 0 {
        let rest = buffers.drop_last();
        every_internal_buffer_is_picked_once(rest, buffer);
        let kind = is_scratch(buffer.buffer_type);
        let all = picked(buffers, kind);
        if buffers.contains(buffer) {
            if buffers.last() == buffer {
                assert(all[all.len() - 1] == buffer);
            } else {
                let i = choose|i: int| 0 <= i < buffers.len() && buffers[i] == buffer;
                assert(rest[i] == buffer);
                let j = choose|j: int|
                    0 <= j < picked(rest, kind).len() && picked(rest, kind)[j] == buffer;
                assert(all[j] == buffer);
            }
        }
        if all.contains(buffer) {
            let j = choose|j: int| 0 <= j < all.len() && all[j] == buffer;
            if j < picked(rest, kind).len() {
                assert(picked(rest, kind)[j] == buffer);
                let i = choose|i: int| 0 <= i < rest.len() && rest[i] == buffer;
                assert(buffers[i] == buffer);
            } else {
                assert(buffers[buffers.len() - 1] == buffer);
            }
        }
    }
}

/// While scratch is replaced, a failed allocation leaves the session with
/// every buffer that the firmware still refers to.
pub proof fn a_failed_allocation_keeps_the_other_buffers(
    procedure: ReconfigurationView,
    session: SessionView,
    error: &'static str,
)
    ensures
        procedure.step(session, EventView::Failed(error)).1 == session,
        procedure.released(session).1.internal =~= procedure.retained || procedure.released(
            session,
        ).1.internal =~= procedure.retained + procedure.granted,
{
}

/// The firmware is handed no new scratch buffer before all of them are
/// allocated.
pub proof fn scratch_is_handed_over_together(
    procedure: ReconfigurationView,
    session: SessionView,
    event: EventView,
)
    requires
        procedure.wf(session),
        procedure.expects(event),
        procedure.phase != Phase::Publishing,
        procedure.step(session, event).0.phase == Phase::Publishing,
    ensures
        ({
            let after = procedure.step(session, event).0;
            &&& after.granted.len() == after.plan.buffers.len()
            &&& after.plan.fault is None
        }),
{
}

} // verus!
