//! The decode backend: its sessions, the requests and frames on their way,
//! and the rounds of work in which they move.
//!
//! A round submits what is queued, takes the firmware's messages, and fails
//! what takes too long. An error of the shared firmware quarantines all of
//! it; an error of one session's resources stays with that session.

use std::collections::VecDeque;

use vstd::prelude::*;

use crate::bytes::{first_index, same_text};
use crate::venus::hfi_abi::{fatal_event, is_fatal_event, session_id, word_at};
use crate::venus::session::{
    is_expired, tag_after, DecodeRequest, DecodedFrame, SessionView, VenusSession, VideoInterface,
    MAPPED_INPUT_BYTES, MAPPED_OUTPUT_BYTES,
};

verus! {

/// The firmware serves independent sessions over one transport.
pub const MAX_CONCURRENT_SESSIONS: usize = 16;

pub const MAX_INFLIGHT_DECODES: usize = 4;

/// The wait of the worker while a frame is in flight: it covers a lost
/// interrupt and drives the deadlines.
pub const WORKER_POLL_NS: u64 = 100_000;

// Errors.

/// Errors of one session's resources, which do not concern the others.
pub const RESOURCE_ERRORS: [&'static str; 14] = [
    "qcom-venus-sc7180: paged DMA allocation failed",
    "qcom-venus-sc7180: paged DMA length overflows",
    "qcom-venus-sc7180: paged DMA mapping failed",
    "qcom-venus-sc7180: firmware requires a 32-bit DMA address",
    "qcom-venus-sc7180: invalid frontend input-buffer size",
    "qcom-venus-sc7180: invalid frontend output-buffer size",
    "qcom-venus-sc7180: frontend buffer range overflows",
    "qcom-venus-sc7180: frontend buffers are not contiguous",
    "qcom-venus-sc7180: failed to map frontend input",
    "qcom-venus-sc7180: failed to map frontend output",
    "qcom-venus-sc7180: frontend DMA address exceeds HFI 32-bit range",
    "qcom-venus-sc7180: frontend DMA buffers are not page aligned",
    "qcom-venus-sc7180: invalid H.264 access-unit size",
    "qcom-venus-sc7180: decoded frame exceeds frontend output buffer",
];

pub open spec fn is_resource_error(error: &str) -> bool {
    exists|i: int|
        0 <= i < 14 && (#[trigger] RESOURCE_ERRORS[i])@ == error@
}

pub fn is_session_resource_error(error: &'static str) -> (r: bool)
    ensures
        r == is_resource_error(error),
{
    let texts = RESOURCE_ERRORS;
    let mut i: usize = 0;
    while i < 14
        invariant
            i <= 14,
            texts == RESOURCE_ERRORS,
            forall|j: int|
                0 <= j < i ==> (#[trigger] RESOURCE_ERRORS[j])@ != error@,
        decreases 14 - i,
    {
        if same_text(texts[i], error) {
            assert(RESOURCE_ERRORS[i as int]@ == error@);
            return true;
        }
        i += 1;
    }
    false
}

// State.

/// A frame, or the error that a request ended with.
#[derive(Clone, Copy, Debug)]
pub struct BackendCompletion {
    pub stream_id: u32,
    pub result: Result<DecodedFrame, &'static str>,
}

#[derive(Debug)]
pub struct VenusBackend {
    /// The firmware runs and its transport is set up.
    pub core: bool,
    pub sessions: Vec<VenusSession>,
    pub next_session_id: u32,
    /// The firmware is quarantined.
    pub failed: bool,
    pub last_error: Option<&'static str>,
    pub active: Vec<u32>,
    pub queued: VecDeque<DecodeRequest>,
    pub completions: VecDeque<BackendCompletion>,
    pub inflight: usize,
}

#[verifier::ext_equal]
pub struct BackendView {
    pub core: bool,
    pub sessions: Seq<SessionView>,
    pub next_session_id: u32,
    pub failed: bool,
    pub last_error: Option<&'static str>,
    pub active: Seq<u32>,
    pub queued: Seq<DecodeRequest>,
    pub completions: Seq<BackendCompletion>,
    pub inflight: nat,
}

pub open spec fn session_views(sessions: Seq<VenusSession>) -> Seq<SessionView> {
    Seq::new(sessions.len(), |i: int| sessions[i]@)
}

impl View for VenusBackend {
    type V = BackendView;

    open spec fn view(&self) -> BackendView {
        BackendView {
            core: self.core,
            sessions: session_views(self.sessions@),
            next_session_id: self.next_session_id,
            failed: self.failed,
            last_error: self.last_error,
            active: self.active@,
            queued: self.queued@,
            completions: self.completions@,
            inflight: self.inflight as nat,
        }
    }
}

pub open spec fn has_id(id: u32) -> spec_fn(SessionView) -> bool {
    |s: SessionView| s.id == id
}

/// No two sessions share an identifier, and none has the identifier zero.
pub open spec fn ids_are_distinct(sessions: Seq<SessionView>) -> bool {
    &&& forall|i: int| 0 <= i < sessions.len() ==> (#[trigger] sessions[i]).id != 0
    &&& forall|i: int, j: int|
        #![trigger sessions[i], sessions[j]]
        0 <= i < j < sessions.len() ==> sessions[i].id != sessions[j].id
}

impl BackendView {
    pub open spec fn wf(self) -> bool {
        &&& self.sessions.len() <= MAX_CONCURRENT_SESSIONS
        &&& ids_are_distinct(self.sessions)
        &&& forall|i: int| 0 <= i < self.sessions.len() ==> (#[trigger] self.sessions[i]).wf()
    }

    pub open spec fn find(self, id: u32) -> Option<int> {
        first_index(self.sessions, has_id(id), 0)
    }

    /// The firmware is not used until its sessions are gone.
    pub open spec fn quarantined(self, error: &'static str) -> BackendView {
        BackendView { failed: true, last_error: Some(error), ..self }
    }

    /// Nothing is in flight any more.
    pub open spec fn emptied(self) -> BackendView {
        BackendView { sessions: without_pending(self.sessions), ..self }
    }

    /// The state after a quarantine, once no session is left.
    pub open spec fn recovered(self) -> BackendView {
        BackendView { core: false, failed: false, last_error: None, ..self }
    }
}

pub open spec fn without_pending(sessions: Seq<SessionView>) -> Seq<SessionView> {
    Seq::new(sessions.len(), |i: int| SessionView { pending: None, ..sessions[i] })
}

pub open spec fn failure(stream_id: u32, error: &'static str) -> BackendCompletion {
    BackendCompletion { stream_id, result: Err(error) }
}

/// A failure for every session with a request in flight.
pub open spec fn pending_failures(sessions: Seq<SessionView>, error: &'static str) -> Seq<
    BackendCompletion,
>
    decreases sessions.len(),
{
    if sessions.len() == 0 {
        Seq::empty()
    } else {
        let before = pending_failures(sessions.drop_last(), error);
        if sessions.last().pending is Some {
            before.push(failure(sessions.last().id, error))
        } else {
            before
        }
    }
}

/// Sessions with a request in flight.
pub open spec fn pending_count(sessions: Seq<SessionView>) -> nat
    decreases sessions.len(),
{
    if sessions.len() == 0 {
        0
    } else {
        pending_count(sessions.drop_last()) + if sessions.last().pending is Some {
            1nat
        } else {
            0nat
        }
    }
}

/// A session's request is in flight too long.
pub open spec fn any_expired(sessions: Seq<SessionView>, now: u64) -> bool {
    exists|i: int| 0 <= i < sessions.len() && is_expired(#[trigger] sessions[i], now)
}

// Session identifiers.

/// The identifier that comes first, from `next` on.
pub open spec fn first_candidate(next: u32) -> u32 {
    if next == 0 {
        1
    } else {
        next
    }
}

pub open spec fn id_in_use(sessions: Seq<SessionView>, id: u32) -> bool {
    exists|i: int| 0 <= i < sessions.len() && (#[trigger] sessions[i]).id == id
}

/// Tries identifiers one after the other: the first that is free, and the
/// one to start from next time.
pub open spec fn allocated_id(sessions: Seq<SessionView>, next: u32, tries: nat) -> (
    Option<u32>,
    u32,
)
    decreases tries,
{
    if tries == 0 {
        (None, next)
    } else {
        let candidate = first_candidate(next);
        if !id_in_use(sessions, candidate) {
            (Some(candidate), tag_after(candidate))
        } else {
            allocated_id(sessions, tag_after(candidate), (tries - 1) as nat)
        }
    }
}

fn session_id_in_use(sessions: &Vec<VenusSession>, id: u32) -> (r: bool)
    ensures
        r == id_in_use(session_views(sessions@), id),
{
    let mut i: usize = 0;
    while i < sessions.len()
        invariant
            i <= sessions@.len(),
            forall|j: int|
                0 <= j < i ==> (#[trigger] session_views(sessions@)[j]).id != id,
        decreases sessions@.len() - i,
    {
        if sessions[i].id == id {
            assert(session_views(sessions@)[i as int].id == id);
            return true;
        }
        i += 1;
    }
    false
}

/// Finds a free identifier. One more candidate than there can be sessions is
/// enough, also where the numbers wrap.
pub fn allocate_session_id(next_session_id: &mut u32, sessions: &Vec<VenusSession>) -> (r: Result<
    u32,
    &'static str,
>)
    ensures
        ({
            let (found, next) = allocated_id(
                session_views(sessions@),
                *old(next_session_id),
                (MAX_CONCURRENT_SESSIONS + 1) as nat,
            );
            &&& *final(next_session_id) == next
            &&& r == (match found {
                Some(id) => Ok::<u32, &'static str>(id),
                None => Err("qcom-venus-sc7180: no free video session identifier"),
            })
        }),
{
    let ghost whole = allocated_id(
        session_views(sessions@),
        *next_session_id,
        (MAX_CONCURRENT_SESSIONS + 1) as nat,
    );
    let mut tried: usize = 0;
    while tried <= MAX_CONCURRENT_SESSIONS
        invariant
            tried <= MAX_CONCURRENT_SESSIONS + 1,
            whole == allocated_id(
                session_views(sessions@),
                *old(next_session_id),
                (MAX_CONCURRENT_SESSIONS + 1) as nat,
            ),
            whole == allocated_id(
                session_views(sessions@),
                *next_session_id,
                (MAX_CONCURRENT_SESSIONS + 1 - tried) as nat,
            ),
        decreases MAX_CONCURRENT_SESSIONS + 1 - tried,
    {
        let candidate: u32 = if *next_session_id == 0 {
            1
        } else {
            *next_session_id
        };
        *next_session_id = if candidate == u32::MAX {
            1
        } else {
            candidate + 1
        };
        if !session_id_in_use(sessions, candidate) {
            return Ok(candidate);
        }
        tried += 1;
    }
    Err("qcom-venus-sc7180: no free video session identifier")
}

// Rounds of work.

/// One round: the requests that are still to be submitted, and what it
/// completed.
#[derive(Debug)]
pub struct Round {
    pub requests: VecDeque<DecodeRequest>,
    pub completions: Vec<BackendCompletion>,
    pub made_progress: bool,
}

#[verifier::ext_equal]
pub struct RoundView {
    pub requests: Seq<DecodeRequest>,
    pub completions: Seq<BackendCompletion>,
    pub made_progress: bool,
}

impl View for Round {
    type V = RoundView;

    open spec fn view(&self) -> RoundView {
        RoundView {
            requests: self.requests@,
            completions: self.completions@,
            made_progress: self.made_progress,
        }
    }
}

impl RoundView {
    pub open spec fn completed(self, completion: BackendCompletion) -> RoundView {
        RoundView { completions: self.completions.push(completion), ..self }
    }

    pub open spec fn without_first(self) -> RoundView {
        RoundView { requests: self.requests.drop_first(), ..self }
    }
}

/// The firmware fails as a whole: it is quarantined, and so ends everything
/// in flight.
pub open spec fn core_failed(backend: BackendView, round: RoundView, error: &'static str) -> (
    BackendView,
    RoundView,
) {
    (
        backend.quarantined(error).emptied(),
        RoundView {
            completions: round.completions + pending_failures(backend.sessions, error),
            ..round
        },
    )
}

/// A failure for every request that was not submitted yet.
pub open spec fn request_failures(requests: Seq<DecodeRequest>, error: &'static str) -> Seq<
    BackendCompletion,
> {
    Seq::new(requests.len(), |i: int| failure(requests[i].stream_id, error))
}

/// A submission ended. An error of the session's resources stays there; any
/// other fails the firmware and what is left of the round.
pub open spec fn submission_ended(
    backend: BackendView,
    round: RoundView,
    stream_id: u32,
    result: Result<(), &'static str>,
) -> (BackendView, RoundView) {
    match result {
        Ok(_) => (BackendView { last_error: None, ..backend }, round),
        Err(error) => {
            let reported = round.completed(failure(stream_id, error));
            if is_resource_error(error) {
                (BackendView { last_error: Some(error), ..backend }, reported)
            } else {
                let (quarantined, failed) = core_failed(backend, reported, error);
                (
                    quarantined,
                    RoundView {
                        requests: Seq::empty(),
                        completions: failed.completions + request_failures(
                            round.requests,
                            error,
                        ),
                        ..failed
                    },
                )
            }
        },
    }
}

pub const CORE_MISSING: &'static str = "qcom-venus-sc7180: HFI core is not initialized";

/// Goes through the requests up to the first that can be submitted: which
/// one, and to which session. Requests of closed streams are dropped; those
/// that no session can take are failed.
pub open spec fn next_of(backend: BackendView, round: RoundView) -> (
    BackendView,
    RoundView,
    Option<(DecodeRequest, int)>,
)
    decreases round.requests.len(),
{
    if round.requests.len() == 0 {
        (backend, round, None)
    } else {
        let request = round.requests[0];
        let rest = round.without_first();
        if !backend.active.contains(request.stream_id) {
            next_of(backend, rest)
        } else if backend.failed {
            next_of(
                backend,
                rest.completed(
                    failure(
                        request.stream_id,
                        "qcom-venus-sc7180: firmware is quarantined; recreate the session",
                    ),
                ),
            )
        } else {
            match backend.find(request.stream_id) {
                None => next_of(
                    backend,
                    rest.completed(
                        failure(
                            request.stream_id,
                            "qcom-venus-sc7180: video session is not active",
                        ),
                    ),
                ),
                Some(index) => if backend.core {
                    (backend, rest, Some((request, index)))
                } else {
                    let (quarantined, failed) = submission_ended(
                        backend,
                        rest,
                        request.stream_id,
                        Err(CORE_MISSING),
                    );
                    next_of(quarantined, failed)
                },
            }
        }
    }
}

/// What to do about a message.
#[derive(Clone, Copy, Debug, Eq, PartialEq, Structural)]
pub enum MessageStep {
    /// There is none: the round goes on without it.
    Stop,
    /// The firmware was quarantined.
    Quarantined,
    /// It belongs to no session any more.
    Skip,
    /// Hand it to this session.
    Handle(usize),
}

/// What a read of the message queue does.
pub open spec fn message_read(
    backend: BackendView,
    round: RoundView,
    message: Result<Option<Seq<u32>>, &'static str>,
) -> (BackendView, RoundView, MessageStep) {
    match message {
        Err(error) => {
            let (quarantined, failed) = core_failed(backend, round, error);
            (quarantined, failed, MessageStep::Quarantined)
        },
        Ok(None) => (backend, round, MessageStep::Stop),
        Ok(Some(words)) => {
            let moved = RoundView { made_progress: true, ..round };
            if fatal_event(words, 0) {
                let (quarantined, failed) = core_failed(backend, moved, FATAL_EVENT);
                (quarantined, failed, MessageStep::Quarantined)
            } else {
                match word_at(words, 2) {
                    None => (backend, moved, MessageStep::Skip),
                    Some(id) => match backend.find(id) {
                        None => (backend, moved, MessageStep::Skip),
                        Some(index) => (backend, moved, MessageStep::Handle(index as usize)),
                    },
                }
            }
        },
    }
}

pub const FATAL_EVENT: &'static str = "qcom-venus-sc7180: firmware reported a fatal HFI event";

pub const DECODE_TIMED_OUT: &'static str = "qcom-venus-sc7180: asynchronous decode timed out";

/// A session is done with a message. An error ends its request in flight,
/// and no other.
pub open spec fn message_handled(
    backend: BackendView,
    round: RoundView,
    index: int,
    result: Result<Option<DecodedFrame>, &'static str>,
) -> (BackendView, RoundView) {
    let id = backend.sessions[index].id;
    match result {
        Ok(None) => (backend, round),
        Ok(Some(frame)) => (
            BackendView { last_error: None, ..backend },
            round.completed(BackendCompletion { stream_id: id, result: Ok(frame) }),
        ),
        Err(error) => (
            BackendView {
                last_error: Some(error),
                sessions: backend.sessions.update(
                    index,
                    SessionView { pending: None, ..backend.sessions[index] },
                ),
                ..backend
            },
            round.completed(failure(id, error)),
        ),
    }
}

/// The end of a round: a request that takes too long fails the firmware.
pub open spec fn round_ended(backend: BackendView, round: RoundView, now: u64) -> (
    BackendView,
    RoundView,
) {
    let (after, reported) = if !backend.failed && any_expired(backend.sessions, now) {
        core_failed(backend, round, DECODE_TIMED_OUT)
    } else {
        (backend, round)
    };
    (BackendView { inflight: pending_count(after.sessions), ..after }, reported)
}

/// The completions of a list whose streams are still open.
pub open spec fn of_active(completions: Seq<BackendCompletion>, active: Seq<u32>) -> Seq<
    BackendCompletion,
>
    decreases completions.len(),
{
    if completions.len() == 0 {
        Seq::empty()
    } else {
        let before = of_active(completions.drop_last(), active);
        if active.contains(completions.last().stream_id) {
            before.push(completions.last())
        } else {
            before
        }
    }
}

fn same_ids(sessions: &Vec<VenusSession>, id: u32) -> (r: Option<usize>)
    ensures
        match r {
            Some(i) => first_index(session_views(sessions@), has_id(id), 0) == Some(i as int)
                && i < sessions@.len(),
            None => first_index(session_views(sessions@), has_id(id), 0) is None,
        },
{
    let mut i: usize = 0;
    while i < sessions.len()
        invariant
            i <= sessions@.len(),
            first_index(session_views(sessions@), has_id(id), 0) == first_index(
                session_views(sessions@),
                has_id(id),
                i as int,
            ),
        decreases sessions@.len() - i,
    {
        if sessions[i].id == id {
            return Some(i);
        }
        i += 1;
    }
    None
}

impl VenusBackend {
    pub fn new() -> (r: VenusBackend)
        ensures
            r@.wf(),
            r@ == (BackendView {
                core: false,
                sessions: Seq::empty(),
                next_session_id: 1,
                failed: false,
                last_error: None,
                active: Seq::empty(),
                queued: Seq::empty(),
                completions: Seq::empty(),
                inflight: 0,
            }),
    {
        let r = VenusBackend {
            core: false,
            sessions: Vec::new(),
            next_session_id: 1,
            failed: false,
            last_error: None,
            active: Vec::new(),
            queued: VecDeque::new(),
            completions: VecDeque::new(),
            inflight: 0,
        };
        assert(r@.sessions =~= Seq::empty());
        r
    }

    pub fn session_is_active(&self, stream_id: u32) -> (r: bool)
        ensures
            r == self@.active.contains(stream_id),
    {
        let mut i: usize = 0;
        while i < self.active.len()
            invariant
                i <= self.active@.len(),
                forall|j: int| 0 <= j < i ==> self.active@[j] != stream_id,
            decreases self.active@.len() - i,
        {
            if self.active[i] == stream_id {
                assert(self.active@[i as int] == stream_id);
                return true;
            }
            i += 1;
        }
        false
    }

    /// Starts a round with everything that is queued.
    pub fn start_round(&mut self) -> (r: Round)
        ensures
            final(self)@ == (BackendView { queued: Seq::empty(), ..old(self)@ }),
            r@ == (RoundView {
                requests: old(self)@.queued,
                completions: Seq::empty(),
                made_progress: old(self)@.queued.len() > 0,
            }),
    {
        let ghost start = self@;
        let mut requests: VecDeque<DecodeRequest> = VecDeque::new();
        requests.append(&mut self.queued);
        let made_progress: bool = requests.len() > 0;
        assert(requests@ =~= start.queued);
        assert(self@ =~= (BackendView { queued: Seq::empty(), ..start }));
        Round { requests, completions: Vec::new(), made_progress }
    }

    /// Ends every request in flight with an error.
    pub fn fail_all_pending(&mut self, round: &mut Round, error: &'static str)
        requires
            old(self)@.wf(),
        ensures
            final(self)@.wf(),
            final(self)@ == old(self)@.emptied(),
            final(round)@ == (RoundView {
                completions: old(round)@.completions + pending_failures(
                    old(self)@.sessions,
                    error,
                ),
                ..old(round)@
            }),
    {
        let ghost start = self@;
        let ghost before = round@;
        let mut i: usize = 0;
        assert(start.sessions.take(0) =~= Seq::empty());
        assert(round.completions@ =~= before.completions + pending_failures(
            start.sessions.take(0),
            error,
        ));
        while i < self.sessions.len()
            invariant
                i <= self.sessions@.len() == start.sessions.len(),
                start.wf(),
                forall|j: int|
                    0 <= j < i ==> (#[trigger] self.sessions@[j])@ == (SessionView {
                        pending: None,
                        ..start.sessions[j]
                    }),
                forall|j: int|
                    i <= j < start.sessions.len() ==> (#[trigger] self.sessions@[j])@
                        == start.sessions[j],
                self@ == (BackendView { sessions: self@.sessions, ..start }),
                round@ == (RoundView {
                    completions: before.completions + pending_failures(
                        start.sessions.take(i as int),
                        error,
                    ),
                    ..before
                }),
            decreases start.sessions.len() - i,
        {
            assert(start.sessions.take(i + 1).drop_last() =~= start.sessions.take(i as int));
            let id: u32 = self.sessions[i].id;
            assert(start.sessions[i as int].wf());
            let failed: bool = self.sessions[i].fail_pending();
            if failed {
                round.completions.push(BackendCompletion { stream_id: id, result: Err(error) });
            }
            assert(round.completions@ =~= before.completions + pending_failures(
                start.sessions.take(i + 1),
                error,
            ));
            i += 1;
        }
        assert(start.sessions.take(start.sessions.len() as int) =~= start.sessions);
        assert(self@.sessions =~= without_pending(start.sessions));
    }

    /// Quarantines the firmware. The caller masks its interrupts and holds it
    /// in reset.
    pub fn quarantine(&mut self, error: &'static str)
        ensures
            final(self)@ == old(self)@.quarantined(error),
    {
        self.failed = true;
        self.last_error = Some(error);
    }

    fn fail_core(&mut self, round: &mut Round, error: &'static str)
        requires
            old(self)@.wf(),
        ensures
            final(self)@.wf(),
            (final(self)@, final(round)@) == core_failed(old(self)@, old(round)@, error),
    {
        let ghost start = self@;
        self.quarantine(error);
        self.fail_all_pending(round, error);
        assert(self@ =~= start.quarantined(error).emptied());
    }

    /// Takes the outcome of a submission; whether the firmware was
    /// quarantined.
    pub fn submission_done(
        &mut self,
        round: &mut Round,
        stream_id: u32,
        result: Result<(), &'static str>,
    ) -> (r: bool)
        requires
            old(self)@.wf(),
        ensures
            final(self)@.wf(),
            (final(self)@, final(round)@) == submission_ended(
                old(self)@,
                old(round)@,
                stream_id,
                result,
            ),
            r == (result matches Err(e) && !is_resource_error(e)),
    {
        let ghost start = self@;
        let ghost before = round@;
        match result {
            Ok(_) => {
                self.last_error = None;
                false
            },
            Err(error) => {
                round.completions.push(BackendCompletion { stream_id, result: Err(error) });
                assert(round@ =~= before.completed(failure(stream_id, error)));
                if is_session_resource_error(error) {
                    self.last_error = Some(error);
                    return false;
                }
                self.fail_core(round, error);
                let ghost failed = round@;
                assert(round.requests@.subrange(0, round.requests@.len() as int)
                    =~= round.requests@);
                assert(request_failures(before.requests, error).take(0) =~= Seq::empty());
                let ghost mut count: int = 0;
                while round.requests.len() > 0
                    invariant
                        0 <= count <= before.requests.len(),
                        round@.requests == before.requests.subrange(
                            count,
                            before.requests.len() as int,
                        ),
                        round@ == (RoundView {
                            requests: round@.requests,
                            completions: failed.completions + request_failures(
                                before.requests,
                                error,
                            ).take(count),
                            ..failed
                        }),
                    decreases round@.requests.len(),
                {
                    let request = round.requests.pop_front().unwrap();
                    round.completions.push(
                        BackendCompletion { stream_id: request.stream_id, result: Err(error) },
                    );
                    proof {
                        count = count + 1;
                        assert(round@.requests =~= before.requests.subrange(
                            count,
                            before.requests.len() as int,
                        ));
                        assert(round@.completions =~= failed.completions + request_failures(
                            before.requests,
                            error,
                        ).take(count));
                    }
                }
                assert(request_failures(before.requests, error).take(count)
                    =~= request_failures(before.requests, error));
                assert(round@.requests =~= Seq::empty());
                true
            },
        }
    }

    /// The next request to submit and the session to submit it to. Where
    /// there is none, the second result says whether the firmware was
    /// quarantined on the way.
    pub fn next_submission(&mut self, round: &mut Round) -> (r: (
        Option<(DecodeRequest, usize)>,
        bool,
    ))
        requires
            old(self)@.wf(),
        ensures
            final(self)@.wf(),
            ({
                let (backend, left, next) = next_of(old(self)@, old(round)@);
                &&& final(self)@ == backend
                &&& final(round)@ == left
                &&& match r.0 {
                    Some((request, index)) => {
                        &&& next == Some((request, index as int))
                        &&& index < backend.sessions.len()
                        &&& backend.core && !backend.failed
                    },
                    None => next is None,
                }
            }),
            r.1 == (final(self)@.failed && !old(self)@.failed),
    {
        let ghost whole = next_of(self@, round@);
        let mut quarantined: bool = false;
        while round.requests.len() > 0
            invariant
                self@.wf(),
                whole == next_of(old(self)@, old(round)@),
                whole == next_of(self@, round@),
                quarantined == (self@.failed && !old(self)@.failed),
                old(self)@.failed ==> self@.failed,
            decreases round@.requests.len(),
        {
            let ghost before = round@;
            let ghost backend = self@;
            let request = round.requests.pop_front().unwrap();
            assert(round@ =~= before.without_first());
            let stream_id: u32 = request.stream_id;
            if !self.session_is_active(stream_id) {
                continue;
            }
            if self.failed {
                round.completions.push(
                    BackendCompletion {
                        stream_id,
                        result: Err(
                            "qcom-venus-sc7180: firmware is quarantined; recreate the session",
                        ),
                    },
                );
                assert(round@ =~= before.without_first().completed(
                    failure(
                        stream_id,
                        "qcom-venus-sc7180: firmware is quarantined; recreate the session",
                    ),
                ));
                continue;
            }
            match same_ids(&self.sessions, stream_id) {
                None => {
                    round.completions.push(
                        BackendCompletion {
                            stream_id,
                            result: Err("qcom-venus-sc7180: video session is not active"),
                        },
                    );
                    assert(round@ =~= before.without_first().completed(
                        failure(stream_id, "qcom-venus-sc7180: video session is not active"),
                    ));
                },
                Some(index) => {
                    if self.core {
                        return (Some((request, index)), quarantined);
                    }
                    let failed: bool = self.submission_done(
                        round,
                        stream_id,
                        Err(CORE_MISSING),
                    );
                    if failed {
                        quarantined = true;
                    }
                },
            }
        }
        (None, quarantined)
    }

    /// Takes what a read of the message queue brought.
    pub fn packet_read(
        &mut self,
        round: &mut Round,
        message: Result<Option<&[u32]>, &'static str>,
    ) -> (r: MessageStep)
        requires
            old(self)@.wf(),
        ensures
            final(self)@.wf(),
            ({
                let read = match message {
                    Ok(Some(words)) => Ok::<Option<Seq<u32>>, &'static str>(Some(words@)),
                    Ok(None) => Ok(None),
                    Err(e) => Err(e),
                };
                (final(self)@, final(round)@, r) == message_read(old(self)@, old(round)@, read)
            }),
            r matches MessageStep::Handle(index) ==> index < final(self)@.sessions.len(),
    {
        let ghost before = round@;
        match message {
            Err(error) => {
                self.fail_core(round, error);
                MessageStep::Quarantined
            },
            Ok(None) => MessageStep::Stop,
            Ok(Some(words)) => {
                round.made_progress = true;
                assert(round@ =~= (RoundView { made_progress: true, ..before }));
                if is_fatal_event(words, 0) {
                    self.fail_core(round, FATAL_EVENT);
                    return MessageStep::Quarantined;
                }
                match session_id(words) {
                    None => MessageStep::Skip,
                    Some(id) => match same_ids(&self.sessions, id) {
                        None => MessageStep::Skip,
                        Some(index) => MessageStep::Handle(index),
                    },
                }
            },
        }
    }

    /// Takes what a session made of a message.
    pub fn packet_handled(
        &mut self,
        round: &mut Round,
        index: usize,
        result: Result<Option<DecodedFrame>, &'static str>,
    )
        requires
            old(self)@.wf(),
            index < old(self)@.sessions.len(),
        ensures
            final(self)@.wf(),
            (final(self)@, final(round)@) == message_handled(
                old(self)@,
                old(round)@,
                index as int,
                result,
            ),
    {
        let ghost start = self@;
        let ghost before = round@;
        assert(start.sessions[index as int].wf());
        let stream_id: u32 = self.sessions[index].id;
        match result {
            Ok(None) => {},
            Ok(Some(frame)) => {
                self.last_error = None;
                round.completions.push(BackendCompletion { stream_id, result: Ok(frame) });
                assert(round@ =~= before.completed(
                    BackendCompletion { stream_id, result: Ok(frame) },
                ));
            },
            Err(error) => {
                self.last_error = Some(error);
                self.sessions[index].withdraw();
                round.completions.push(BackendCompletion { stream_id, result: Err(error) });
                assert(round@ =~= before.completed(failure(stream_id, error)));
                assert(self@.sessions =~= start.sessions.update(
                    index as int,
                    SessionView { pending: None, ..start.sessions[index as int] },
                ));
            },
        }
    }

    fn has_expired(&self, now: u64) -> (r: bool)
        ensures
            r == any_expired(self@.sessions, now),
    {
        let mut i: usize = 0;
        while i < self.sessions.len()
            invariant
                i <= self.sessions@.len(),
                forall|j: int| 0 <= j < i ==> !is_expired(#[trigger] self@.sessions[j], now),
            decreases self.sessions@.len() - i,
        {
            if self.sessions[i].pending_expired(now) {
                assert(is_expired(self@.sessions[i as int], now));
                return true;
            }
            i += 1;
        }
        false
    }

    fn count_pending(&self) -> (r: usize)
        ensures
            r == pending_count(self@.sessions),
    {
        let mut count: usize = 0;
        let mut i: usize = 0;
        assert(self@.sessions.take(0) =~= Seq::empty());
        while i < self.sessions.len()
            invariant
                i <= self.sessions@.len(),
                count <= i,
                count == pending_count(self@.sessions.take(i as int)),
            decreases self.sessions@.len() - i,
        {
            assert(self@.sessions.take(i + 1).drop_last() =~= self@.sessions.take(i as int));
            if self.sessions[i].pending.is_some() {
                count += 1;
            }
            i += 1;
        }
        assert(self@.sessions.take(self@.sessions.len() as int) =~= self@.sessions);
        count
    }

    /// Ends a round; whether the firmware was quarantined.
    pub fn finish_round(&mut self, round: &mut Round, now: u64) -> (r: bool)
        requires
            old(self)@.wf(),
        ensures
            final(self)@.wf(),
            (final(self)@, final(round)@) == round_ended(old(self)@, old(round)@, now),
            r == (final(self)@.failed && !old(self)@.failed),
    {
        let mut quarantined: bool = false;
        if !self.failed && self.has_expired(now) {
            self.fail_core(round, DECODE_TIMED_OUT);
            quarantined = true;
        }
        let ghost start = self@;
        self.inflight = self.count_pending();
        assert(self@ =~= (BackendView { inflight: pending_count(start.sessions), ..start }));
        quarantined
    }

    /// Makes the completions of a round available. The first result says
    /// whether there are any, the second whether the round did anything.
    pub fn publish(&mut self, round: &Round) -> (r: (bool, bool))
        ensures
            final(self)@ == (BackendView {
                completions: old(self)@.completions + of_active(
                    round@.completions,
                    old(self)@.active,
                ),
                ..old(self)@
            }),
            r.0 == (of_active(round@.completions, old(self)@.active).len() > 0),
            r.1 == (round.made_progress || r.0),
    {
        let ghost start = self@;
        let mut published: bool = false;
        let mut i: usize = 0;
        assert(round.completions@.take(0) =~= Seq::empty());
        assert(start.completions =~= start.completions + of_active(
            round.completions@.take(0),
            start.active,
        ));
        while i < round.completions.len()
            invariant
                i <= round.completions@.len(),
                self@ == (BackendView {
                    completions: start.completions + of_active(
                        round.completions@.take(i as int),
                        start.active,
                    ),
                    ..start
                }),
                published == (of_active(round.completions@.take(i as int), start.active).len()
                    > 0),
            decreases round.completions@.len() - i,
        {
            let completion = round.completions[i];
            assert(round.completions@.take(i + 1).drop_last() =~= round.completions@.take(
                i as int,
            ));
            if self.session_is_active(completion.stream_id) {
                self.completions.push_back(completion);
                published = true;
            }
            i += 1;
            assert(self@ =~= (BackendView {
                completions: start.completions + of_active(
                    round.completions@.take(i as int),
                    start.active,
                ),
                ..start
            }));
        }
        assert(round.completions@.take(round.completions@.len() as int) =~= round.completions@);
        (published, round.made_progress || published)
    }
}

// The front end.

/// What the front end may ask for.
#[derive(Clone, Copy, Debug, Eq, PartialEq, Structural)]
pub struct Capabilities {
    pub max_sessions: u32,
    pub max_inflight_decodes: u32,
    pub mapped_input_len: u32,
    pub mapped_output_len: u32,
    pub output_pixel_format: u32,
    pub supports_h264: bool,
    pub supports_av1: bool,
    pub supports_hevc: bool,
    pub supports_stateless_h264: bool,
}

pub fn capabilities(interface: &VideoInterface) -> (r: Capabilities)
    ensures
        r == (Capabilities {
            max_sessions: MAX_CONCURRENT_SESSIONS as u32,
            max_inflight_decodes: MAX_INFLIGHT_DECODES as u32,
            mapped_input_len: MAPPED_INPUT_BYTES as u32,
            mapped_output_len: MAPPED_OUTPUT_BYTES as u32,
            output_pixel_format: interface.pixel_nv12,
            supports_h264: true,
            supports_av1: false,
            supports_hevc: false,
            supports_stateless_h264: false,
        }),
{
    Capabilities {
        max_sessions: MAX_CONCURRENT_SESSIONS as u32,
        max_inflight_decodes: MAX_INFLIGHT_DECODES as u32,
        mapped_input_len: MAPPED_INPUT_BYTES as u32,
        mapped_output_len: MAPPED_OUTPUT_BYTES as u32,
        output_pixel_format: interface.pixel_nv12,
        supports_h264: true,
        supports_av1: false,
        supports_hevc: false,
        supports_stateless_h264: false,
    }
}

/// Why a session is refused before an identifier is looked for, if it is.
pub open spec fn create_fault(
    backend: BackendView,
    interface: VideoInterface,
    coded_format: u32,
) -> Option<&'static str> {
    if coded_format != interface.coded_h264 {
        Some("qcom-venus-sc7180: only stateful H.264 is supported")
    } else if backend.sessions.len() >= MAX_CONCURRENT_SESSIONS {
        Some("qcom-venus-sc7180: maximum video session count reached")
    } else if backend.failed && backend.sessions.len() > 0 {
        Some("qcom-venus-sc7180: firmware is quarantined; close existing sessions first")
    } else {
        None
    }
}

pub open spec fn of_stream(stream_id: u32) -> spec_fn(BackendCompletion) -> bool {
    |c: BackendCompletion| c.stream_id == stream_id
}

pub open spec fn request_of(stream_id: u32) -> spec_fn(DecodeRequest) -> bool {
    |r: DecodeRequest| r.stream_id == stream_id
}

/// The requests of other streams.
pub open spec fn requests_without(requests: Seq<DecodeRequest>, stream_id: u32) -> Seq<
    DecodeRequest,
>
    decreases requests.len(),
{
    if requests.len() == 0 {
        Seq::empty()
    } else {
        let before = requests_without(requests.drop_last(), stream_id);
        if requests.last().stream_id == stream_id {
            before
        } else {
            before.push(requests.last())
        }
    }
}

/// The completions of other streams.
pub open spec fn completions_without(completions: Seq<BackendCompletion>, stream_id: u32) -> Seq<
    BackendCompletion,
>
    decreases completions.len(),
{
    if completions.len() == 0 {
        Seq::empty()
    } else {
        let before = completions_without(completions.drop_last(), stream_id);
        if completions.last().stream_id == stream_id {
            before
        } else {
            before.push(completions.last())
        }
    }
}

pub open spec fn equals(id: u32) -> spec_fn(u32) -> bool {
    |other: u32| other == id
}

/// A list without one entry; the last one takes its place.
pub open spec fn swap_removed<T>(list: Seq<T>, index: int) -> Seq<T> {
    list.update(index, list.last()).drop_last()
}

/// The stream is closed: nothing of it is queued or waits any more.
pub open spec fn deactivated(backend: BackendView, stream_id: u32, at: int) -> BackendView {
    BackendView {
        active: swap_removed(backend.active, at),
        queued: requests_without(backend.queued, stream_id),
        completions: completions_without(backend.completions, stream_id),
        ..backend
    }
}

/// The session is taken out.
pub open spec fn session_removed(backend: BackendView, index: int) -> BackendView {
    let sessions = swap_removed(backend.sessions, index);
    BackendView { sessions, inflight: pending_count(sessions), ..backend }
}

/// A quarantine ends when the last session is gone.
pub open spec fn after_quarantine(backend: BackendView) -> BackendView {
    if backend.sessions.len() == 0 {
        backend.recovered()
    } else {
        backend
    }
}

pub const CORE_GONE: &'static str =
    "qcom-venus-sc7180: HFI core disappeared during session destroy";

/// How a session is destroyed.
#[derive(Debug)]
pub enum Destruction {
    /// The firmware is quarantined: hold it in reset; nothing more to do.
    Abandoned,
    /// Take the session down, then report the outcome.
    TakeDown(VenusSession),
}

impl VenusBackend {
    /// Checks that a session may be created and gives its identifier. A
    /// quarantined firmware without sessions is started anew.
    pub fn begin_create(&mut self, interface: &VideoInterface, coded_format: u32) -> (r: Result<
        u32,
        &'static str,
    >)
        requires
            old(self)@.wf(),
        ensures
            final(self)@.wf(),
            match create_fault(old(self)@, *interface, coded_format) {
                Some(e) => r == Err::<u32, &'static str>(e) && final(self)@ == old(self)@,
                None => {
                    let ready = if old(self)@.failed {
                        old(self)@.recovered()
                    } else {
                        old(self)@
                    };
                    let (found, next) = allocated_id(
                        ready.sessions,
                        ready.next_session_id,
                        (MAX_CONCURRENT_SESSIONS + 1) as nat,
                    );
                    &&& found is Some
                    &&& r == Ok::<u32, &'static str>(found->Some_0)
                    &&& found->Some_0 != 0 && !id_in_use(ready.sessions, found->Some_0)
                    &&& final(self)@ == (BackendView { next_session_id: next, ..ready })
                },
            },
    {
        let ghost start = self@;
        if coded_format != interface.coded_h264 {
            return Err("qcom-venus-sc7180: only stateful H.264 is supported");
        }
        if self.sessions.len() >= MAX_CONCURRENT_SESSIONS {
            return Err("qcom-venus-sc7180: maximum video session count reached");
        }
        if self.failed {
            if self.sessions.len() > 0 {
                return Err(
                    "qcom-venus-sc7180: firmware is quarantined; close existing sessions first",
                );
            }
            self.core = false;
            self.failed = false;
            self.last_error = None;
        }
        let ghost ready = self@;
        assert(ready =~= if start.failed {
            start.recovered()
        } else {
            start
        });
        proof {
            a_free_identifier_is_found(ready.sessions, ready.next_session_id);
        }
        let mut next: u32 = self.next_session_id;
        let id: u32 = allocate_session_id(&mut next, &self.sessions)?;
        self.next_session_id = next;
        assert(self@ =~= (BackendView { next_session_id: next, ..ready }));
        Ok(id)
    }

    /// Takes in a session that was set up.
    pub fn session_created(&mut self, session: VenusSession)
        requires
            old(self)@.wf(),
            old(self)@.sessions.len() < MAX_CONCURRENT_SESSIONS,
            session@.wf(),
            session.id != 0,
            !id_in_use(old(self)@.sessions, session.id),
        ensures
            final(self)@.wf(),
            final(self)@ == (BackendView {
                sessions: old(self)@.sessions.push(session@),
                last_error: None,
                active: old(self)@.active.push(session.id),
                ..old(self)@
            }),
    {
        let ghost start = self@;
        let ghost view = session@;
        let id: u32 = session.id;
        self.sessions.push(session);
        self.last_error = None;
        self.active.push(id);
        assert(self@.sessions =~= start.sessions.push(view));
        assert forall|i: int, j: int|
            #![trigger self@.sessions[i], self@.sessions[j]]
            0 <= i < j < self@.sessions.len() implies self@.sessions[i].id
            != self@.sessions[j].id by {
            if j == start.sessions.len() {
                assert(start.sessions[i].id != id);
            } else {
                assert(start.sessions[i].id != start.sessions[j].id);
            }
        }
    }

    fn drop_stream(&mut self, stream_id: u32)
        ensures
            final(self)@ == (BackendView {
                queued: requests_without(old(self)@.queued, stream_id),
                completions: completions_without(old(self)@.completions, stream_id),
                ..old(self)@
            }),
    {
        let ghost start = self@;
        let mut requests: VecDeque<DecodeRequest> = VecDeque::new();
        let mut i: usize = 0;
        assert(self.queued@.take(0) =~= Seq::empty());
        while i < self.queued.len()
            invariant
                i <= self.queued@.len(),
                self@ == start,
                requests@ == requests_without(self.queued@.take(i as int), stream_id),
            decreases self.queued@.len() - i,
        {
            let request = self.queued[i];
            assert(self.queued@.take(i + 1).drop_last() =~= self.queued@.take(i as int));
            if request.stream_id != stream_id {
                requests.push_back(request);
            }
            i += 1;
        }
        assert(self.queued@.take(self.queued@.len() as int) =~= self.queued@);
        let mut kept: VecDeque<BackendCompletion> = VecDeque::new();
        let mut j: usize = 0;
        assert(self.completions@.take(0) =~= Seq::empty());
        while j < self.completions.len()
            invariant
                j <= self.completions@.len(),
                self@ == start,
                kept@ == completions_without(self.completions@.take(j as int), stream_id),
            decreases self.completions@.len() - j,
        {
            let completion = self.completions[j];
            assert(self.completions@.take(j + 1).drop_last() =~= self.completions@.take(j as int));
            if completion.stream_id != stream_id {
                kept.push_back(completion);
            }
            j += 1;
        }
        assert(self.completions@.take(self.completions@.len() as int) =~= self.completions@);
        self.queued = requests;
        self.completions = kept;
    }

    /// Closes a stream and takes its session out.
    pub fn begin_destroy(&mut self, stream_id: u32) -> (r: Result<Destruction, &'static str>)
        requires
            old(self)@.wf(),
        ensures
            final(self)@.wf(),
            match first_index(old(self)@.active, equals(stream_id), 0) {
                None => {
                    &&& r is Err && r->Err_0 == "qcom-venus-sc7180: unknown video session"
                    &&& final(self)@ == old(self)@
                },
                Some(at) => {
                    let closed = deactivated(old(self)@, stream_id, at);
                    match closed.find(stream_id) {
                        None => {
                            &&& r is Err && r->Err_0
                                == "qcom-venus-sc7180: video session is not active"
                            &&& final(self)@ == closed
                        },
                        Some(index) => {
                            let removed = session_removed(closed, index);
                            if closed.failed {
                                &&& r is Ok && r->Ok_0 is Abandoned
                                &&& final(self)@ == after_quarantine(removed)
                            } else if closed.core {
                                &&& r is Ok && r->Ok_0 is TakeDown
                                &&& r->Ok_0->TakeDown_0@ == closed.sessions[index]
                                &&& final(self)@ == removed
                            } else {
                                &&& r is Err && r->Err_0 == CORE_GONE
                                &&& final(self)@ == after_quarantine(
                                    removed.quarantined(CORE_GONE),
                                )
                            }
                        },
                    }
                },
            },
    {
        let ghost start = self@;
        let mut at: usize = 0;
        while at < self.active.len() && self.active[at] != stream_id
            invariant
                at <= self.active@.len(),
                self@ == start,
                first_index(self.active@, equals(stream_id), 0) == first_index(
                    self.active@,
                    equals(stream_id),
                    at as int,
                ),
            decreases self.active@.len() - at,
        {
            at += 1;
        }
        if at >= self.active.len() {
            return Err("qcom-venus-sc7180: unknown video session");
        }
        let removed_id: u32 = self.active.swap_remove(at);
        self.drop_stream(stream_id);
        let ghost closed = deactivated(start, stream_id, at as int);
        assert(self@ =~= closed);
        let index: usize = match same_ids(&self.sessions, stream_id) {
            Some(index) => index,
            None => {
                return Err("qcom-venus-sc7180: video session is not active");
            },
        };
        let session = self.sessions.swap_remove(index);
        assert(self@.sessions =~= swap_removed(closed.sessions, index as int));
        proof {
            swap_removing_keeps_sessions_valid(closed.sessions, index as int);
        }
        self.inflight = self.count_pending();
        let ghost removed = session_removed(closed, index as int);
        assert(self@ =~= removed);
        if self.failed {
            if self.sessions.len() == 0 {
                self.core = false;
                self.failed = false;
                self.last_error = None;
            }
            assert(self@ =~= after_quarantine(removed));
            return Ok(Destruction::Abandoned);
        }
        if self.core {
            return Ok(Destruction::TakeDown(session));
        }
        self.fail_destroy(CORE_GONE);
        Err(CORE_GONE)
    }

    fn fail_destroy(&mut self, error: &'static str)
        requires
            old(self)@.wf(),
        ensures
            final(self)@.wf(),
            final(self)@ == after_quarantine(old(self)@.quarantined(error)),
    {
        let ghost start = self@;
        self.quarantine(error);
        if self.sessions.len() == 0 {
            self.core = false;
            self.failed = false;
            self.last_error = None;
        }
        assert(self@ =~= after_quarantine(start.quarantined(error)));
    }

    /// Takes the outcome of a session's exchanges at its end.
    pub fn finish_destroy(&mut self, result: Result<(), &'static str>)
        requires
            old(self)@.wf(),
        ensures
            final(self)@.wf(),
            final(self)@ == (match result {
                Ok(_) => BackendView { last_error: None, ..old(self)@ },
                Err(e) => after_quarantine(old(self)@.quarantined(e)),
            }),
    {
        match result {
            Ok(_) => {
                self.last_error = None;
            },
            Err(e) => {
                self.fail_destroy(e);
            },
        }
    }

    /// Queues a request: one per stream, and none while the stream's last
    /// frame was not taken.
    pub fn submit_decode(&mut self, request: &DecodeRequest) -> (r: Result<(), &'static str>)
        ensures
            ({
                let id = request.stream_id;
                let fault = if !old(self)@.active.contains(id) {
                    Some("qcom-venus-sc7180: unknown video session")
                } else if first_index(old(self)@.completions, of_stream(id), 0) is Some {
                    Some("qcom-venus-sc7180: previous decoded frame was not dequeued")
                } else if first_index(old(self)@.queued, request_of(id), 0) is Some {
                    Some("qcom-venus-sc7180: session decode is already queued")
                } else if old(self)@.queued.len() >= MAX_CONCURRENT_SESSIONS {
                    Some("qcom-venus-sc7180: decode queue is full")
                } else {
                    None::<&'static str>
                };
                match fault {
                    Some(e) => r == Err::<(), &'static str>(e) && final(self)@ == old(self)@,
                    None => {
                        &&& r is Ok
                        &&& final(self)@ == (BackendView {
                            queued: old(self)@.queued.push(*request),
                            ..old(self)@
                        })
                    },
                }
            }),
    {
        let ghost start = self@;
        let stream_id: u32 = request.stream_id;
        if !self.session_is_active(stream_id) {
            return Err("qcom-venus-sc7180: unknown video session");
        }
        if self.find_completion(stream_id).is_some() {
            return Err("qcom-venus-sc7180: previous decoded frame was not dequeued");
        }
        let mut i: usize = 0;
        while i < self.queued.len()
            invariant
                i <= self.queued@.len(),
                self@ == start,
                start == old(self)@,
                start.active.contains(stream_id),
                stream_id == request.stream_id,
                first_index(start.completions, of_stream(stream_id), 0) is None,
                first_index(self.queued@, request_of(stream_id), 0) == first_index(
                    self.queued@,
                    request_of(stream_id),
                    i as int,
                ),
            decreases self.queued@.len() - i,
        {
            if self.queued[i].stream_id == stream_id {
                return Err("qcom-venus-sc7180: session decode is already queued");
            }
            i += 1;
        }
        if self.queued.len() >= MAX_CONCURRENT_SESSIONS {
            return Err("qcom-venus-sc7180: decode queue is full");
        }
        self.queued.push_back(*request);
        assert(self@ =~= (BackendView { queued: start.queued.push(*request), ..start }));
        Ok(())
    }

    fn find_completion(&self, stream_id: u32) -> (r: Option<usize>)
        ensures
            match r {
                Some(i) => first_index(self@.completions, of_stream(stream_id), 0) == Some(
                    i as int,
                ) && i < self@.completions.len(),
                None => first_index(self@.completions, of_stream(stream_id), 0) is None,
            },
    {
        let mut i: usize = 0;
        while i < self.completions.len()
            invariant
                i <= self.completions@.len(),
                first_index(self@.completions, of_stream(stream_id), 0) == first_index(
                    self@.completions,
                    of_stream(stream_id),
                    i as int,
                ),
            decreases self.completions@.len() - i,
        {
            if self.completions[i].stream_id == stream_id {
                return Some(i);
            }
            i += 1;
        }
        None
    }

    /// Takes the first completion of a stream.
    pub fn dequeue_frame(&mut self, stream_id: u32) -> (r: Result<
        Option<DecodedFrame>,
        &'static str,
    >)
        ensures
            if !old(self)@.active.contains(stream_id) {
                &&& r == Err::<Option<DecodedFrame>, &'static str>(
                    "qcom-venus-sc7180: unknown video session",
                )
                &&& final(self)@ == old(self)@
            } else {
                match first_index(old(self)@.completions, of_stream(stream_id), 0) {
                    None => {
                        &&& r == Ok::<Option<DecodedFrame>, &'static str>(None)
                        &&& final(self)@ == old(self)@
                    },
                    Some(i) => {
                        &&& r == (match old(self)@.completions[i].result {
                            Ok(frame) => Ok::<Option<DecodedFrame>, &'static str>(Some(frame)),
                            Err(e) => Err(e),
                        })
                        &&& final(self)@ == (BackendView {
                            completions: old(self)@.completions.remove(i),
                            ..old(self)@
                        })
                    },
                }
            },
    {
        let ghost start = self@;
        if !self.session_is_active(stream_id) {
            return Err("qcom-venus-sc7180: unknown video session");
        }
        let index: usize = match self.find_completion(stream_id) {
            Some(index) => index,
            None => {
                return Ok(None);
            },
        };
        let completion = match self.completions.remove(index) {
            Some(completion) => completion,
            None => {
                return Err("qcom-venus-sc7180: completion queue changed unexpectedly");
            },
        };
        assert(self@ =~= (BackendView {
            completions: start.completions.remove(index as int),
            ..start
        }));
        match completion.result {
            Ok(frame) => Ok(Some(frame)),
            Err(e) => Err(e),
        }
    }

    /// How long the worker waits: for ever, unless a frame is in flight.
    pub fn worker_timeout_ns(&self) -> (r: Option<u64>)
        ensures
            r == (if self.inflight != 0 {
                Some(WORKER_POLL_NS)
            } else {
                None
            }),
    {
        if self.inflight != 0 {
            Some(WORKER_POLL_NS)
        } else {
            None
        }
    }
}

proof fn swap_removing_keeps_sessions_valid(sessions: Seq<SessionView>, index: int)
    requires
        0 <= index < sessions.len(),
        ids_are_distinct(sessions),
        forall|i: int| 0 <= i < sessions.len() ==> (#[trigger] sessions[i]).wf(),
    ensures
        ({
            let after = swap_removed(sessions, index);
            &&& after.len() == sessions.len() - 1
            &&& ids_are_distinct(after)
            &&& forall|i: int| 0 <= i < after.len() ==> (#[trigger] after[i]).wf()
        }),
{
    let after = swap_removed(sessions, index);
    let last = sessions.len() - 1;
    assert forall|i: int| 0 <= i < after.len() implies (#[trigger] after[i]).wf() && after[i].id
        != 0 by {
        assert(after[i] == sessions[if i == index {
            last
        } else {
            i
        }]);
    }
    assert forall|i: int, j: int|
        #![trigger after[i], after[j]]
        0 <= i < j < after.len() implies after[i].id != after[j].id by {
        assert(after[i] == sessions[if i == index {
            last
        } else {
            i
        }]);
        assert(after[j] == sessions[if j == index {
            last
        } else {
            j
        }]);
    }
}

// Laws.

/// The `k`-th identifier that is tried.
pub open spec fn candidate(next: u32, k: nat) -> u32
    decreases k,
{
    if k == 0 {
        first_candidate(next)
    } else {
        tag_after(candidate(next, (k - 1) as nat))
    }
}

proof fn candidates_shift(next: u32, k: nat)
    ensures
        candidate(tag_after(first_candidate(next)), k) == candidate(next, (k + 1) as nat),
        candidate(next, k) != 0,
    decreases k,
{
    reveal_with_fuel(candidate, 2);
    if k > 0 {
        candidates_shift(next, (k - 1) as nat);
    }
}

/// Candidates count on from the first, and skip zero where they wrap.
proof fn candidate_is_counted(next: u32, k: nat)
    requires
        k <= 16,
    ensures
        candidate(next, k) == (if first_candidate(next) + k <= u32::MAX {
            first_candidate(next) + k
        } else {
            first_candidate(next) + k - u32::MAX
        }),
    decreases k,
{
    if k > 0 {
        candidate_is_counted(next, (k - 1) as nat);
    }
}

proof fn search_fails_only_on_taken(sessions: Seq<SessionView>, next: u32, tries: nat)
    ensures
        allocated_id(sessions, next, tries).0 is None ==> forall|k: nat|
            k < tries ==> id_in_use(sessions, #[trigger] candidate(next, k)),
        allocated_id(sessions, next, tries).0 matches Some(id) ==> id != 0 && !id_in_use(
            sessions,
            id,
        ),
    decreases tries,
{
    if tries > 0 {
        let first = first_candidate(next);
        let rest = tag_after(first);
        search_fails_only_on_taken(sessions, rest, (tries - 1) as nat);
        if allocated_id(sessions, next, tries).0 is None {
            assert forall|k: nat| k < tries implies id_in_use(
                sessions,
                #[trigger] candidate(next, k),
            ) by {
                if k > 0 {
                    candidates_shift(next, (k - 1) as nat);
                    assert(candidate(rest, (k - 1) as nat) == candidate(next, k));
                }
            }
        }
    }
}

/// The session that holds an identifier.
spec fn holder(sessions: Seq<SessionView>, id: u32) -> int {
    choose|i: int| 0 <= i < sessions.len() && (#[trigger] sessions[i]).id == id
}

/// As long as there is room for another session, an identifier is found. It
/// is not zero and no session has it.
pub proof fn a_free_identifier_is_found(sessions: Seq<SessionView>, next: u32)
    requires
        sessions.len() < MAX_CONCURRENT_SESSIONS,
    ensures
        allocated_id(sessions, next, (MAX_CONCURRENT_SESSIONS + 1) as nat).0 matches Some(id)
            && id != 0 && !id_in_use(sessions, id),
{
    search_fails_only_on_taken(sessions, next, 17);
    if allocated_id(sessions, next, 17).0 is None {
        let holders = Seq::new(17, |k: int| holder(sessions, candidate(next, k as nat)));
        assert forall|k: int| 0 <= k < 17 implies 0 <= #[trigger] holders[k] < sessions.len()
            && sessions[holders[k]].id == candidate(next, k as nat) by {
            assert(id_in_use(sessions, candidate(next, k as nat)));
        }
        assert forall|i: int, j: int| 0 <= i < j < 17 implies holders[i] != holders[j] by {
            candidate_is_counted(next, i as nat);
            candidate_is_counted(next, j as nat);
        }
        assert(holders.no_duplicates());
        holders.unique_seq_to_set();
        vstd::set_lib::lemma_int_range(0, sessions.len() as int);
        assert(holders.to_set().subset_of(
            vstd::set_lib::set_int_range(0, sessions.len() as int),
        ));
        vstd::set_lib::lemma_len_subset(
            holders.to_set(),
            vstd::set_lib::set_int_range(0, sessions.len() as int),
        );
    }
}

/// When the firmware fails, every request in flight is reported once, as
/// failed, and none stays in flight.
pub proof fn a_core_failure_reports_everything_in_flight(
    backend: BackendView,
    round: RoundView,
    error: &'static str,
)
    ensures
        ({
            let (after, reported) = core_failed(backend, round, error);
            &&& after.failed
            &&& pending_count(after.sessions) == 0
            &&& reported.completions.len() == round.completions.len() + pending_count(
                backend.sessions,
            )
            &&& forall|i: int|
                round.completions.len() <= i < reported.completions.len() ==> (
                #[trigger] reported.completions[i]).result == Err::<DecodedFrame, &'static str>(
                    error,
                )
        }),
{
    failures_are_counted(backend.sessions, error);
    nothing_is_pending(backend.sessions);
}

proof fn failures_are_counted(sessions: Seq<SessionView>, error: &'static str)
    ensures
        pending_failures(sessions, error).len() == pending_count(sessions),
        forall|i: int|
            0 <= i < pending_failures(sessions, error).len() ==> (#[trigger] pending_failures(
                sessions,
                error,
            )[i]).result == Err::<DecodedFrame, &'static str>(error),
    decreases sessions.len(),
{
    if sessions.len() > 0 {
        failures_are_counted(sessions.drop_last(), error);
    }
}

proof fn nothing_is_pending(sessions: Seq<SessionView>)
    ensures
        pending_count(without_pending(sessions)) == 0,
    decreases sessions.len(),
{
    if sessions.len() > 0 {
        nothing_is_pending(sessions.drop_last());
        assert(without_pending(sessions).drop_last() =~= without_pending(sessions.drop_last()));
    }
}

/// A message that a session cannot handle fails its own request and nothing
/// else: the firmware and the other sessions go on.
pub proof fn a_session_failure_spares_the_others(
    backend: BackendView,
    round: RoundView,
    index: int,
    error: &'static str,
    other: int,
)
    requires
        0 <= index < backend.sessions.len(),
        0 <= other < backend.sessions.len(),
        other != index,
    ensures
        ({
            let (after, _) = message_handled(backend, round, index, Err(error));
            &&& after.failed == backend.failed
            &&& after.sessions[index].pending is None
            &&& after.sessions[other] == backend.sessions[other]
        }),
{
}

/// An error of a session's own resources does not fail the firmware, and every
/// session keeps its request.
pub proof fn a_resource_error_stays_in_its_session(
    backend: BackendView,
    round: RoundView,
    stream_id: u32,
    error: &'static str,
)
    requires
        is_resource_error(error),
    ensures
        ({
            let (after, reported) = submission_ended(backend, round, stream_id, Err(error));
            &&& after.failed == backend.failed
            &&& after.sessions == backend.sessions
            &&& reported.completions == round.completions.push(failure(stream_id, error))
        }),
{
}

/// A frame or a failure reaches only streams that are open.
pub proof fn only_open_streams_are_served(
    completions: Seq<BackendCompletion>,
    active: Seq<u32>,
    i: int,
)
    requires
        0 <= i < of_active(completions, active).len(),
    ensures
        active.contains(of_active(completions, active)[i].stream_id),
    decreases completions.len(),
{
    if i < of_active(completions.drop_last(), active).len() {
        only_open_streams_are_served(completions.drop_last(), active, i);
    }
}

/// Once a stream is closed, nothing of it is queued and nothing waits for it.
pub proof fn a_closed_stream_leaves_nothing_behind(
    backend: BackendView,
    stream_id: u32,
    at: int,
    i: int,
)
    ensures
        ({
            let closed = deactivated(backend, stream_id, at);
            &&& 0 <= i < closed.queued.len() ==> closed.queued[i].stream_id != stream_id
            &&& 0 <= i < closed.completions.len() ==> closed.completions[i].stream_id
                != stream_id
        }),
{
    requests_of_others(backend.queued, stream_id, i);
    completions_of_others(backend.completions, stream_id, i);
}

proof fn requests_of_others(requests: Seq<DecodeRequest>, stream_id: u32, i: int)
    ensures
        0 <= i < requests_without(requests, stream_id).len() ==> requests_without(
            requests,
            stream_id,
        )[i].stream_id != stream_id,
    decreases requests.len(),
{
    if requests.len() > 0 {
        requests_of_others(requests.drop_last(), stream_id, i);
    }
}

proof fn completions_of_others(completions: Seq<BackendCompletion>, stream_id: u32, i: int)
    ensures
        0 <= i < completions_without(completions, stream_id).len() ==> completions_without(
            completions,
            stream_id,
        )[i].stream_id != stream_id,
    decreases completions.len(),
{
    if completions.len() > 0 {
        completions_of_others(completions.drop_last(), stream_id, i);
    }
}

} // verus!
