//! One decode session: its buffers, its frame in flight, and what it makes of
//! the messages of the firmware.

use std::collections::VecDeque;

use vstd::prelude::*;

use crate::bytes::le32_bytes;
use crate::venus::hfi_abi::{
    empty_buffer, empty_buffer_body, fatal_event, fill_buffer, fill_buffer_body, fill_done_of,
    is_fatal_event, packet, packet_type, parse_fill_done, parse_sequence_changed, sequence_of,
    session_command, word_at, FillDone, SequenceInfo, HFI_BUFFER_OUTPUT, HFI_BUFFER_OUTPUT2,
    HFI_CMD_SESSION_RELEASE_RESOURCES, HFI_CMD_SESSION_STOP, HFI_CMD_SYS_SESSION_END, HFI_ERR_NONE,
    HFI_EVENT_RELEASE_BUFFER_REFERENCE, HFI_EVENT_SESSION_SEQUENCE_CHANGED, HFI_MSG_EVENT_NOTIFY,
    HFI_MSG_SESSION_EMPTY_BUFFER, HFI_MSG_SESSION_FILL_BUFFER, HFI_MSG_SESSION_RELEASE_RESOURCES,
    HFI_MSG_SESSION_STOP, HFI_MSG_SYS_SESSION_END,
};
use crate::venus::nv12::{
    compact_nv12, compaction_fault, is_compacted, Nv12Layout, HARDWARE_OUTPUT_OFFSET,
};
use crate::venus::setup::{
    command_of, commanded, ensure_response_success, exchanges, push_exchange, push_releases,
    releases, response_verdict, Exchange, ExchangeView, InternalBuffer,
};

verus! {

pub const MAPPED_INPUT_BYTES: usize = 8_388_608;

/// Room for the largest padded frame and its compacted payload.
pub const MAPPED_OUTPUT_BYTES: usize = 16_777_216;

pub const HFI_DECODE_TIMEOUT_US: u64 = 2_000_000;

/// Tags below are those of visible frames; firmware-owned ones start here.
pub const DPB_TAG_BASE: u32 = 32;

pub const FRAME_HEADER_BYTES: usize = 20;

/// What the video front end and its decoders agree on.
#[derive(Clone, Copy, Debug)]
pub struct VideoInterface {
    pub coded_h264: u32,
    pub pixel_nv12: u32,
    pub frame_magic: [u8; 4],
    /// Bytes before the payload of a frame.
    pub frame_header_len: usize,
}

impl VideoInterface {
    /// The header holds its fields and ends before the hardware's frame.
    pub open spec fn wf(self) -> bool {
        FRAME_HEADER_BYTES <= self.frame_header_len <= HARDWARE_OUTPUT_OFFSET
    }
}

/// One access unit to decode: an input buffer, and an output buffer that
/// follows it.
#[derive(Clone, Copy, Debug, Eq, PartialEq, Structural)]
pub struct DecodeRequest {
    pub stream_id: u32,
    pub coded_format: u32,
    pub input_paddr: usize,
    pub input_vaddr: usize,
    pub input_len: u32,
    pub output_paddr: usize,
    pub output_vaddr: usize,
    pub output_len: u32,
    pub output_offset: u64,
    pub timestamp: u64,
}

/// A decoded frame, as the front end takes it.
#[derive(Clone, Copy, Debug, Eq, PartialEq, Structural)]
pub struct DecodedFrame {
    pub stream_id: u32,
    pub width: u32,
    pub height: u32,
    pub pixel_format: u32,
    pub payload_offset: u64,
    pub payload_len: u32,
    pub flags: u32,
    pub timestamp: u64,
}

// Front-end buffers.

/// The buffers of a request, mapped for the firmware.
#[derive(Clone, Copy, Debug, Eq, PartialEq, Structural)]
pub struct FrontendMappings {
    pub input_paddr: usize,
    pub output_paddr: usize,
    pub input_len: usize,
    pub output_len: usize,
    pub input_dma: u32,
    pub output_dma: u32,
}

/// Why the buffers of a request cannot be mapped, if they cannot.
pub open spec fn frontend_fault(request: DecodeRequest) -> Option<&'static str> {
    if request.output_offset == 0 || request.output_offset > MAPPED_INPUT_BYTES {
        Some("qcom-venus-sc7180: invalid frontend input-buffer size")
    } else if request.output_len == 0 || request.output_len > MAPPED_OUTPUT_BYTES {
        Some("qcom-venus-sc7180: invalid frontend output-buffer size")
    } else if request.input_paddr + request.output_offset > usize::MAX {
        Some("qcom-venus-sc7180: frontend buffer range overflows")
    } else if request.output_paddr != request.input_paddr + request.output_offset {
        Some("qcom-venus-sc7180: frontend buffers are not contiguous")
    } else {
        None
    }
}

/// Why mapped addresses cannot be used, if they cannot.
pub open spec fn mapping_fault(input: Result<u64, ()>, output: Result<u64, ()>) -> Option<
    &'static str,
> {
    match (input, output) {
        (Err(_), _) => Some("qcom-venus-sc7180: failed to map frontend input"),
        (_, Err(_)) => Some("qcom-venus-sc7180: failed to map frontend output"),
        (Ok(input), Ok(output)) => if input > u32::MAX || output > u32::MAX {
            Some("qcom-venus-sc7180: frontend DMA address exceeds HFI 32-bit range")
        } else if input % 4096 != 0 || output % 4096 != 0 {
            Some("qcom-venus-sc7180: frontend DMA buffers are not page aligned")
        } else {
            None
        },
    }
}

/// The mapping covers exactly the buffers of the request.
pub open spec fn covers(mappings: FrontendMappings, request: DecodeRequest) -> bool {
    &&& mappings.input_paddr == request.input_paddr
    &&& mappings.output_paddr == request.output_paddr
    &&& mappings.input_len == request.output_offset
    &&& mappings.output_len == request.output_len
}

impl FrontendMappings {
    /// Checks a request's buffers before they are mapped.
    pub fn check(request: &DecodeRequest) -> (r: Result<(), &'static str>)
        ensures
            r == (match frontend_fault(*request) {
                Some(e) => Err::<(), &'static str>(e),
                None => Ok(()),
            }),
    {
        if request.output_offset == 0 || request.output_offset > MAPPED_INPUT_BYTES as u64 {
            return Err("qcom-venus-sc7180: invalid frontend input-buffer size");
        }
        if request.output_len == 0 || request.output_len > MAPPED_OUTPUT_BYTES as u32 {
            return Err("qcom-venus-sc7180: invalid frontend output-buffer size");
        }
        match request.input_paddr.checked_add(request.output_offset as usize) {
            None => Err("qcom-venus-sc7180: frontend buffer range overflows"),
            Some(expected) => {
                if request.output_paddr != expected {
                    return Err("qcom-venus-sc7180: frontend buffers are not contiguous");
                }
                Ok(())
            },
        }
    }

    /// Takes the bus addresses of a request's buffers.
    pub fn mapped(request: &DecodeRequest, input: Result<u64, ()>, output: Result<u64, ()>) -> (r:
        Result<FrontendMappings, &'static str>)
        requires
            frontend_fault(*request) is None,
        ensures
            match r {
                Ok(mappings) => {
                    &&& mapping_fault(input, output) is None
                    &&& covers(mappings, *request)
                    &&& mappings.input_dma == input->Ok_0
                    &&& mappings.output_dma == output->Ok_0
                },
                Err(e) => mapping_fault(input, output) == Some(e),
            },
    {
        let input_dma: u64 = match input {
            Ok(address) => address,
            Err(_) => {
                return Err("qcom-venus-sc7180: failed to map frontend input");
            },
        };
        let output_dma: u64 = match output {
            Ok(address) => address,
            Err(_) => {
                return Err("qcom-venus-sc7180: failed to map frontend output");
            },
        };
        if input_dma > u32::MAX as u64 || output_dma > u32::MAX as u64 {
            return Err("qcom-venus-sc7180: frontend DMA address exceeds HFI 32-bit range");
        }
        if input_dma % 4096 != 0 || output_dma % 4096 != 0 {
            return Err("qcom-venus-sc7180: frontend DMA buffers are not page aligned");
        }
        Ok(
            FrontendMappings {
                input_paddr: request.input_paddr,
                output_paddr: request.output_paddr,
                input_len: request.output_offset as usize,
                output_len: request.output_len as usize,
                input_dma: input_dma as u32,
                output_dma: output_dma as u32,
            },
        )
    }

    pub fn matches(&self, request: &DecodeRequest) -> (r: bool)
        ensures
            r == covers(*self, *request),
    {
        self.input_paddr == request.input_paddr && self.output_paddr == request.output_paddr
            && self.input_len as u64 == request.output_offset && self.output_len
            == request.output_len as usize
    }
}

// Sessions.

/// A buffer for decoded pictures.
#[derive(Clone, Copy, Debug, Eq, PartialEq, Structural)]
pub struct DmaBuffer {
    pub address: u32,
    pub size: u32,
}

/// The access unit that is with the firmware.
#[derive(Clone, Copy, Debug, Eq, PartialEq, Structural)]
pub struct PendingDecode {
    pub request: DecodeRequest,
    pub output_tag: u32,
    pub submitted_at: u64,
}

#[derive(Debug)]
pub struct VenusSession {
    pub id: u32,
    pub internal: Vec<InternalBuffer>,
    pub dpbs: Vec<DmaBuffer>,
    pub dpb_queued: Vec<bool>,
    pub layout: Option<Nv12Layout>,
    pub mappings: Option<FrontendMappings>,
    pub next_input_tag: u32,
    pub pending: Option<PendingDecode>,
}

#[verifier::ext_equal]
pub struct SessionView {
    pub id: u32,
    pub internal: Seq<InternalBuffer>,
    pub dpbs: Seq<DmaBuffer>,
    pub dpb_queued: Seq<bool>,
    pub layout: Option<Nv12Layout>,
    pub mappings: Option<FrontendMappings>,
    pub next_input_tag: u32,
    pub pending: Option<PendingDecode>,
}

impl View for VenusSession {
    type V = SessionView;

    open spec fn view(&self) -> SessionView {
        SessionView {
            id: self.id,
            internal: self.internal@,
            dpbs: self.dpbs@,
            dpb_queued: self.dpb_queued@,
            layout: self.layout,
            mappings: self.mappings,
            next_input_tag: self.next_input_tag,
            pending: self.pending,
        }
    }
}

impl SessionView {
    /// Every picture buffer has its mark, the layout is a valid one, tags are
    /// never zero, and the frame in flight was accepted.
    pub open spec fn wf(self) -> bool {
        &&& self.dpbs.len() == self.dpb_queued.len()
        &&& self.dpbs.len() <= 32
        &&& self.layout matches Some(layout) ==> layout.wf()
        &&& self.next_input_tag >= 1
        &&& self.pending matches Some(pending) ==> pending.request.output_offset
            <= MAPPED_INPUT_BYTES && pending.request.output_len <= MAPPED_OUTPUT_BYTES
    }

    pub open spec fn fresh(id: u32, internal: Seq<InternalBuffer>) -> SessionView {
        SessionView {
            id,
            internal,
            dpbs: Seq::empty(),
            dpb_queued: Seq::empty(),
            layout: None,
            mappings: None,
            next_input_tag: 1,
            pending: None,
        }
    }
}

/// The tag after `tag`; zero is left out.
pub open spec fn tag_after(tag: u32) -> u32 {
    if tag == u32::MAX {
        1
    } else {
        (tag + 1) as u32
    }
}

/// Why a request is refused before anything is mapped, if it is.
pub open spec fn submit_fault(
    session: SessionView,
    interface: VideoInterface,
    request: DecodeRequest,
) -> Option<&'static str> {
    if request.stream_id != session.id || request.coded_format != interface.coded_h264 {
        Some("qcom-venus-sc7180: invalid decode session or format")
    } else if session.pending is Some {
        Some("qcom-venus-sc7180: session decode is already in flight")
    } else if request.output_offset > usize::MAX {
        Some("qcom-venus-sc7180: invalid frontend input-buffer size")
    } else if request.input_len == 0 || request.input_len > request.output_offset
        || request.output_offset > MAPPED_INPUT_BYTES {
        Some("qcom-venus-sc7180: invalid H.264 access-unit size")
    } else if request.output_len == 0 || request.output_len > MAPPED_OUTPUT_BYTES {
        Some("qcom-venus-sc7180: invalid frontend output-buffer size")
    } else {
        None
    }
}

/// An output buffer to hand to the firmware, once its cache lines are
/// written back.
#[derive(Debug)]
pub struct OutputFill {
    pub packet: Vec<u32>,
    pub clean_vaddr: usize,
    pub clean_len: usize,
}

#[verifier::ext_equal]
pub struct OutputFillView {
    pub packet: Seq<u32>,
    pub clean_vaddr: usize,
    pub clean_len: usize,
}

impl View for OutputFill {
    type V = OutputFillView;

    open spec fn view(&self) -> OutputFillView {
        OutputFillView {
            packet: self.packet@,
            clean_vaddr: self.clean_vaddr,
            clean_len: self.clean_len,
        }
    }
}

/// The output buffer of a request, for a frame of a layout.
pub open spec fn output_fill(
    id: u32,
    mappings: FrontendMappings,
    layout: Nv12Layout,
    output_tag: u32,
    request: DecodeRequest,
) -> Result<OutputFillView, &'static str> {
    if request.output_len < HARDWARE_OUTPUT_OFFSET {
        Err("qcom-venus-sc7180: output buffer lacks an aligned hardware region")
    } else if layout.linear_size > request.output_len - HARDWARE_OUTPUT_OFFSET {
        Err("qcom-venus-sc7180: decoded frame exceeds frontend output buffer")
    } else if mappings.output_dma + HARDWARE_OUTPUT_OFFSET > u32::MAX {
        Err("qcom-venus-sc7180: output payload DMA address overflows")
    } else if request.output_vaddr + HARDWARE_OUTPUT_OFFSET > usize::MAX {
        Err("qcom-venus-sc7180: output payload address overflows")
    } else {
        Ok(
            OutputFillView {
                packet: packet(
                    fill_buffer_body(
                        id,
                        HFI_BUFFER_OUTPUT2,
                        output_tag,
                        (mappings.output_dma + HARDWARE_OUTPUT_OFFSET) as u32,
                        layout.linear_size,
                    ),
                ),
                clean_vaddr: (request.output_vaddr + HARDWARE_OUTPUT_OFFSET) as usize,
                clean_len: layout.linear_size as usize,
            },
        )
    }
}

fn queue_output(
    id: u32,
    mappings: FrontendMappings,
    layout: Nv12Layout,
    output_tag: u32,
    request: &DecodeRequest,
) -> (r: Result<OutputFill, &'static str>)
    ensures
        match r {
            Ok(fill) => output_fill(id, mappings, layout, output_tag, *request) == Ok::<
                OutputFillView,
                &'static str,
            >(fill@),
            Err(e) => output_fill(id, mappings, layout, output_tag, *request) == Err::<
                OutputFillView,
                &'static str,
            >(e),
        },
{
    if request.output_len < HARDWARE_OUTPUT_OFFSET as u32 {
        return Err("qcom-venus-sc7180: output buffer lacks an aligned hardware region");
    }
    if layout.linear_size > request.output_len - HARDWARE_OUTPUT_OFFSET as u32 {
        return Err("qcom-venus-sc7180: decoded frame exceeds frontend output buffer");
    }
    let output_dma: u32 = match mappings.output_dma.checked_add(HARDWARE_OUTPUT_OFFSET as u32) {
        Some(address) => address,
        None => {
            return Err("qcom-venus-sc7180: output payload DMA address overflows");
        },
    };
    let output_vaddr: usize = match request.output_vaddr.checked_add(HARDWARE_OUTPUT_OFFSET) {
        Some(address) => address,
        None => {
            return Err("qcom-venus-sc7180: output payload address overflows");
        },
    };
    Ok(
        OutputFill {
            packet: fill_buffer(
                id,
                HFI_BUFFER_OUTPUT2,
                output_tag,
                output_dma,
                layout.linear_size,
            ),
            clean_vaddr: output_vaddr,
            clean_len: layout.linear_size as usize,
        },
    )
}

/// What a submission sends: the output buffer, where the layout is known, and
/// then the input buffer.
#[derive(Debug)]
pub struct Submission {
    pub output: Option<OutputFill>,
    pub input: Vec<u32>,
    pub tag: u32,
}

impl VenusSession {
    /// A session as it is after it was created.
    pub fn new(id: u32, internal: Vec<InternalBuffer>) -> (r: VenusSession)
        ensures
            r@ == SessionView::fresh(id, internal@),
            r@.wf(),
    {
        let r = VenusSession {
            id,
            internal,
            dpbs: Vec::new(),
            dpb_queued: Vec::new(),
            layout: None,
            mappings: None,
            next_input_tag: 1,
            pending: None,
        };
        assert(r@ =~= SessionView::fresh(id, internal@));
        r
    }

    /// Checks a request; whether its buffers have to be mapped anew.
    pub fn check_submit(&self, interface: &VideoInterface, request: &DecodeRequest) -> (r: Result<
        bool,
        &'static str,
    >)
        ensures
            match r {
                Ok(map) => {
                    &&& submit_fault(self@, *interface, *request) is None
                    &&& map == !(self.mappings matches Some(m) && covers(m, *request))
                },
                Err(e) => submit_fault(self@, *interface, *request) == Some(e),
            },
    {
        if request.stream_id != self.id || request.coded_format != interface.coded_h264 {
            return Err("qcom-venus-sc7180: invalid decode session or format");
        }
        if self.pending.is_some() {
            return Err("qcom-venus-sc7180: session decode is already in flight");
        }
        if request.output_offset > usize::MAX as u64 {
            return Err("qcom-venus-sc7180: invalid frontend input-buffer size");
        }
        if request.input_len == 0 || request.input_len as u64 > request.output_offset
            || request.output_offset > MAPPED_INPUT_BYTES as u64 {
            return Err("qcom-venus-sc7180: invalid H.264 access-unit size");
        }
        if request.output_len == 0 || request.output_len > MAPPED_OUTPUT_BYTES as u32 {
            return Err("qcom-venus-sc7180: invalid frontend output-buffer size");
        }
        match self.mappings {
            Some(mappings) => Ok(!mappings.matches(request)),
            None => Ok(true),
        }
    }

    /// Keeps the mapping of a request's buffers.
    pub fn set_mappings(&mut self, mappings: FrontendMappings)
        ensures
            final(self)@ == (SessionView { mappings: Some(mappings), ..old(self)@ }),
    {
        self.mappings = Some(mappings);
    }

    /// Takes the next tag and makes the packets of a checked request whose
    /// buffers are mapped. The tag is used up even where the output buffer is
    /// refused.
    pub fn prepare_submit(&mut self, request: &DecodeRequest) -> (r: Result<
        Submission,
        &'static str,
    >)
        requires
            old(self)@.wf(),
            old(self).mappings matches Some(m) && m.input_len <= MAPPED_INPUT_BYTES,
        ensures
            final(self)@.wf(),
            final(self)@ == (SessionView {
                next_input_tag: tag_after(old(self).next_input_tag),
                ..old(self)@
            }),
            ({
                let tag = old(self).next_input_tag;
                let mappings = old(self).mappings->Some_0;
                let fill = output_fill(
                    old(self).id,
                    mappings,
                    old(self).layout->Some_0,
                    tag,
                    *request,
                );
                match r {
                    Err(e) => {
                        &&& old(self).layout is Some
                        &&& fill == Err::<OutputFillView, &'static str>(e)
                    },
                    Ok(submission) => {
                        &&& submission.tag == tag
                        &&& submission.input@ == packet(
                            empty_buffer_body(
                                old(self).id,
                                request.timestamp,
                                tag,
                                mappings.input_dma,
                                mappings.input_len as u32,
                                request.input_len,
                            ),
                        )
                        &&& match submission.output {
                            None => old(self).layout is None,
                            Some(output) => {
                                &&& old(self).layout is Some
                                &&& fill == Ok::<OutputFillView, &'static str>(output@)
                            },
                        }
                    },
                }
            }),
    {
        let mappings = self.mappings.unwrap();
        let tag: u32 = self.next_input_tag;
        self.next_input_tag = if tag == u32::MAX {
            1
        } else {
            tag + 1
        };
        let output: Option<OutputFill> = match self.layout {
            Some(layout) => match queue_output(self.id, mappings, layout, tag, request) {
                Ok(fill) => Some(fill),
                Err(e) => {
                    return Err(e);
                },
            },
            None => None,
        };
        let input = empty_buffer(
            self.id,
            request.timestamp,
            tag,
            mappings.input_dma,
            mappings.input_len as u32,
            request.input_len,
        );
        Ok(Submission { output, input, tag })
    }

    /// Records the request as in flight. This comes before the input buffer
    /// is sent: its doorbell may bring a completion at once.
    pub fn publish(&mut self, request: &DecodeRequest, output_tag: u32, now: u64)
        requires
            old(self)@.wf(),
            request.output_offset <= MAPPED_INPUT_BYTES,
            request.output_len <= MAPPED_OUTPUT_BYTES,
        ensures
            final(self)@.wf(),
            final(self)@ == (SessionView {
                pending: Some(
                    PendingDecode { request: *request, output_tag, submitted_at: now },
                ),
                ..old(self)@
            }),
    {
        self.pending = Some(PendingDecode { request: *request, output_tag, submitted_at: now });
    }

    /// Forgets the request in flight: its input buffer could not be sent, or
    /// the firmware failed it.
    pub fn withdraw(&mut self)
        requires
            old(self)@.wf(),
        ensures
            final(self)@.wf(),
            final(self)@ == (SessionView { pending: None, ..old(self)@ }),
    {
        self.pending = None;
    }

    pub fn pending_expired(&self, now: u64) -> (r: bool)
        ensures
            r == is_expired(self@, now),
    {
        match self.pending {
            Some(pending) => now.saturating_sub(pending.submitted_at) >= HFI_DECODE_TIMEOUT_US,
            None => false,
        }
    }

    /// Forgets the request in flight; whether there was one.
    pub fn fail_pending(&mut self) -> (r: bool)
        requires
            old(self)@.wf(),
        ensures
            final(self)@.wf(),
            r == (old(self).pending is Some),
            final(self)@ == (SessionView { pending: None, ..old(self)@ }),
    {
        let failed: bool = self.pending.is_some();
        self.pending = None;
        failed
    }

    /// The exchanges that take the session down. The answer to the first one
    /// is the barrier after which the firmware owns no buffer in flight.
    pub fn teardown(&self) -> (r: VecDeque<Exchange>)
        ensures
            exchanges(r@) == teardown_exchanges(self@),
    {
        let mut batch: VecDeque<Exchange> = VecDeque::new();
        push_exchange(
            &mut batch,
            command_of(
                session_command(HFI_CMD_SESSION_STOP, self.id),
                HFI_MSG_SESSION_STOP,
                self.id,
            ),
        );
        push_exchange(
            &mut batch,
            command_of(
                session_command(HFI_CMD_SESSION_RELEASE_RESOURCES, self.id),
                HFI_MSG_SESSION_RELEASE_RESOURCES,
                self.id,
            ),
        );
        push_releases(&mut batch, self.id, &self.internal);
        push_exchange(
            &mut batch,
            command_of(
                session_command(HFI_CMD_SYS_SESSION_END, self.id),
                HFI_MSG_SYS_SESSION_END,
                self.id,
            ),
        );
        assert(exchanges(batch@) =~= teardown_exchanges(self@));
        batch
    }
}

pub open spec fn is_expired(session: SessionView, now: u64) -> bool {
    session.pending matches Some(pending) && now - pending.submitted_at >= HFI_DECODE_TIMEOUT_US
}

/// Stop, release the resources, take every internal buffer back, end.
pub open spec fn teardown_exchanges(session: SessionView) -> Seq<ExchangeView> {
    seq![
        commanded(HFI_CMD_SESSION_STOP, HFI_MSG_SESSION_STOP, session.id),
        commanded(
            HFI_CMD_SESSION_RELEASE_RESOURCES,
            HFI_MSG_SESSION_RELEASE_RESOURCES,
            session.id,
        ),
    ] + releases(session.id, session.internal) + seq![
        commanded(HFI_CMD_SYS_SESSION_END, HFI_MSG_SYS_SESSION_END, session.id),
    ]
}

// Messages.

/// What a message asks of the caller.
#[derive(Clone, Copy, Debug, Eq, PartialEq, Structural)]
pub enum PacketOutcome {
    Nothing,
    /// The frame of this request is done.
    Output { request: DecodeRequest, done: FillDone },
    /// Give this picture buffer back to the firmware.
    RequeueDpb(usize),
    /// Reconfigure the session for this stream.
    Reconfigure(SequenceInfo),
}

/// Whether the firmware still refers to a completed picture buffer.
pub open spec fn is_readonly(flags: u32) -> bool {
    flags as int / 0x200 % 2 == 1
}

pub open spec fn dpb_index(tag: u32) -> int {
    tag - DPB_TAG_BASE
}

/// What a completed output buffer does.
pub open spec fn fill_step(session: SessionView, done: FillDone) -> (
    SessionView,
    Result<PacketOutcome, &'static str>,
) {
    if done.session != session.id {
        (session, Err("qcom-venus-sc7180: fill completion has the wrong session"))
    } else if done.error != HFI_ERR_NONE {
        (session, Err("qcom-venus-sc7180: firmware failed an output buffer"))
    } else if done.stream_id == 1 {
        match session.pending {
            None => (
                session,
                Err("qcom-venus-sc7180: output completed without an in-flight frame"),
            ),
            Some(pending) => if done.output_tag != pending.output_tag {
                (session, Err("qcom-venus-sc7180: output completed with an unknown tag"))
            } else {
                (
                    SessionView { pending: None, ..session },
                    Ok(PacketOutcome::Output { request: pending.request, done }),
                )
            },
        }
    } else if done.stream_id == 0 && 0 <= dpb_index(done.output_tag) < session.dpb_queued.len() {
        (
            SessionView {
                dpb_queued: session.dpb_queued.update(dpb_index(done.output_tag), false),
                ..session
            },
            Ok(
                if is_readonly(done.flags) {
                    PacketOutcome::Nothing
                } else {
                    PacketOutcome::RequeueDpb(dpb_index(done.output_tag) as usize)
                },
            ),
        )
    } else {
        (session, Ok(PacketOutcome::Nothing))
    }
}

/// What an event does.
pub open spec fn event_step(session: SessionView, message: Seq<u32>) -> Result<
    PacketOutcome,
    &'static str,
> {
    if word_at(message, 3) == Some(HFI_EVENT_SESSION_SEQUENCE_CHANGED) {
        if session.layout is Some {
            Err("qcom-venus-sc7180: unsupported mid-stream sequence change")
        } else {
            match sequence_of(message) {
                Err(e) => Err(e),
                Ok(sequence) => Ok(PacketOutcome::Reconfigure(sequence)),
            }
        }
    } else if word_at(message, 3) == Some(HFI_EVENT_RELEASE_BUFFER_REFERENCE) {
        let tag = match word_at(message, 8) {
            Some(tag) => tag,
            None => 0,
        };
        if 0 <= dpb_index(tag) < session.dpb_queued.len() && !session.dpb_queued[dpb_index(tag)] {
            Ok(PacketOutcome::RequeueDpb(dpb_index(tag) as usize))
        } else {
            Ok(PacketOutcome::Nothing)
        }
    } else {
        Ok(PacketOutcome::Nothing)
    }
}

/// What a message of the session does.
pub open spec fn message_step(session: SessionView, message: Seq<u32>) -> (
    SessionView,
    Result<PacketOutcome, &'static str>,
) {
    let message_type = word_at(message, 1);
    if fatal_event(message, session.id) {
        (session, Err("qcom-venus-sc7180: fatal firmware event during decode"))
    } else if message_type == Some(HFI_MSG_SESSION_EMPTY_BUFFER) {
        (
            session,
            match response_verdict(message) {
                Ok(_) => Ok(PacketOutcome::Nothing),
                Err(e) => Err(e),
            },
        )
    } else if message_type == Some(HFI_MSG_SESSION_FILL_BUFFER) {
        match fill_done_of(message) {
            Err(e) => (session, Err(e)),
            Ok(done) => fill_step(session, done),
        }
    } else if message_type == Some(HFI_MSG_EVENT_NOTIFY) {
        (session, event_step(session, message))
    } else {
        (session, Ok(PacketOutcome::Nothing))
    }
}

/// Why a completed frame is refused, if it is.
pub open spec fn output_fault(
    session: SessionView,
    interface: VideoInterface,
    request: DecodeRequest,
    done: FillDone,
) -> Option<&'static str> {
    if session.layout is None {
        Some("qcom-venus-sc7180: output completed without a decoded layout")
    } else if !(session.mappings matches Some(m) && m.output_dma + HARDWARE_OUTPUT_OFFSET
        <= u32::MAX) {
        Some("qcom-venus-sc7180: output DMA mapping is unavailable")
    } else if done.packet_buffer != session.mappings->Some_0.output_dma + HARDWARE_OUTPUT_OFFSET {
        Some("qcom-venus-sc7180: firmware completed an unknown output buffer")
    } else if done.filled_len == 0 || done.filled_len > session.layout->Some_0.linear_size {
        Some("qcom-venus-sc7180: firmware returned an invalid output length")
    } else if request.output_vaddr + HARDWARE_OUTPUT_OFFSET > usize::MAX {
        Some("qcom-venus-sc7180: hardware output address overflows")
    } else if request.output_len < HARDWARE_OUTPUT_OFFSET {
        Some("qcom-venus-sc7180: hardware output region is unavailable")
    } else {
        compaction_fault(
            request.output_len as int,
            interface.frame_header_len as int,
            session.layout->Some_0,
            done,
        )
    }
}

/// The header of a frame.
pub open spec fn frame_header(interface: VideoInterface, layout: Nv12Layout) -> Seq<u8> {
    interface.frame_magic@ + le32_bytes(layout.display_width as int) + le32_bytes(
        layout.display_height as int,
    ) + le32_bytes(interface.pixel_nv12 as int) + le32_bytes(layout.tight_len())
}

/// The buffer holds a frame's header and its compacted payload.
pub open spec fn is_finished(
    before: Seq<u8>,
    after: Seq<u8>,
    interface: VideoInterface,
    layout: Nv12Layout,
    offset: int,
) -> bool {
    &&& after.len() == before.len()
    &&& after.subrange(0, FRAME_HEADER_BYTES as int) == frame_header(interface, layout)
    &&& is_compacted(
        before,
        before.subrange(0, FRAME_HEADER_BYTES as int) + after.subrange(
            FRAME_HEADER_BYTES as int,
            after.len() as int,
        ),
        interface.frame_header_len as int,
        layout,
        offset,
    )
}

fn put_le_u32(out: &mut [u8], at: usize, value: u32)
    requires
        at + 4 <= old(out)@.len(),
        at <= 16,
    ensures
        final(out)@ == old(out)@.update(at as int, le32_bytes(value as int)[0]).update(
            at + 1,
            le32_bytes(value as int)[1],
        ).update(at + 2, le32_bytes(value as int)[2]).update(
            at + 3,
            le32_bytes(value as int)[3],
        ),
{
    out[at] = (value % 0x100) as u8;
    out[at + 1] = (value / 0x100 % 0x100) as u8;
    out[at + 2] = (value / 0x1_0000 % 0x100) as u8;
    out[at + 3] = (value / 0x100_0000 % 0x100) as u8;
}

/// Writes the header of a frame at the start of its buffer.
pub fn write_frame_header(
    out: &mut [u8],
    interface: &VideoInterface,
    width: u32,
    height: u32,
    payload_len: u32,
)
    requires
        old(out)@.len() >= FRAME_HEADER_BYTES,
    ensures
        final(out)@ == interface.frame_magic@ + le32_bytes(width as int) + le32_bytes(
            height as int,
        ) + le32_bytes(interface.pixel_nv12 as int) + le32_bytes(payload_len as int) + old(
            out,
        )@.subrange(FRAME_HEADER_BYTES as int, old(out)@.len() as int),
{
    let ghost before = out@;
    out[0] = interface.frame_magic[0];
    out[1] = interface.frame_magic[1];
    out[2] = interface.frame_magic[2];
    out[3] = interface.frame_magic[3];
    put_le_u32(out, 4, width);
    put_le_u32(out, 8, height);
    put_le_u32(out, 12, interface.pixel_nv12);
    put_le_u32(out, 16, payload_len);
    assert(out@ =~= interface.frame_magic@ + le32_bytes(width as int) + le32_bytes(height as int)
        + le32_bytes(interface.pixel_nv12 as int) + le32_bytes(payload_len as int)
        + before.subrange(FRAME_HEADER_BYTES as int, before.len() as int));
}

fn same_option(word: Option<u32>, value: u32) -> (r: bool)
    ensures
        r == (word == Some(value)),
{
    match word {
        Some(word) => word == value,
        None => false,
    }
}

fn word(message: &[u32], index: usize) -> (r: Option<u32>)
    ensures
        r == word_at(message@, index as int),
{
    if index < message.len() {
        Some(message[index])
    } else {
        None
    }
}

impl VenusSession {
    fn fill_completed(&mut self, done: FillDone) -> (r: Result<PacketOutcome, &'static str>)
        requires
            old(self)@.wf(),
        ensures
            final(self)@.wf(),
            (final(self)@, r) == fill_step(old(self)@, done),
    {
        let ghost start = self@;
        if done.session != self.id {
            return Err("qcom-venus-sc7180: fill completion has the wrong session");
        }
        if done.error != HFI_ERR_NONE {
            return Err("qcom-venus-sc7180: firmware failed an output buffer");
        }
        if done.stream_id == 1 {
            let pending = match self.pending {
                Some(pending) => pending,
                None => {
                    return Err(
                        "qcom-venus-sc7180: output completed without an in-flight frame",
                    );
                },
            };
            if done.output_tag != pending.output_tag {
                return Err("qcom-venus-sc7180: output completed with an unknown tag");
            }
            self.pending = None;
            return Ok(PacketOutcome::Output { request: pending.request, done });
        }
        if done.stream_id == 0 && done.output_tag >= DPB_TAG_BASE {
            let index: usize = (done.output_tag - DPB_TAG_BASE) as usize;
            if index < self.dpb_queued.len() {
                self.dpb_queued.set(index, false);
                assert(self@ =~= (SessionView {
                    dpb_queued: start.dpb_queued.update(index as int, false),
                    ..start
                }));
                if done.flags / 0x200 % 2 == 0 {
                    return Ok(PacketOutcome::RequeueDpb(index));
                }
            }
        }
        Ok(PacketOutcome::Nothing)
    }

    fn event_notified(&self, message: &[u32]) -> (r: Result<PacketOutcome, &'static str>)
        requires
            self@.wf(),
        ensures
            r == event_step(self@, message@),
    {
        let event = word(message, 3);
        if same_option(event, HFI_EVENT_SESSION_SEQUENCE_CHANGED) {
            if self.layout.is_some() {
                return Err("qcom-venus-sc7180: unsupported mid-stream sequence change");
            }
            return match parse_sequence_changed(message) {
                Ok(sequence) => Ok(PacketOutcome::Reconfigure(sequence)),
                Err(e) => Err(e),
            };
        }
        if same_option(event, HFI_EVENT_RELEASE_BUFFER_REFERENCE) {
            let tag: u32 = match word(message, 8) {
                Some(tag) => tag,
                None => 0,
            };
            if tag >= DPB_TAG_BASE {
                let index: usize = (tag - DPB_TAG_BASE) as usize;
                if index < self.dpb_queued.len() && !self.dpb_queued[index] {
                    return Ok(PacketOutcome::RequeueDpb(index));
                }
            }
        }
        Ok(PacketOutcome::Nothing)
    }

    /// Consumes one message that was already found to be the session's.
    pub fn handle_packet(&mut self, message: &[u32]) -> (r: Result<PacketOutcome, &'static str>)
        requires
            old(self)@.wf(),
        ensures
            final(self)@.wf(),
            (final(self)@, r) == message_step(old(self)@, message@),
    {
        if is_fatal_event(message, self.id) {
            return Err("qcom-venus-sc7180: fatal firmware event during decode");
        }
        match packet_type(message) {
            Some(HFI_MSG_SESSION_EMPTY_BUFFER) => match ensure_response_success(message) {
                Ok(_) => Ok(PacketOutcome::Nothing),
                Err(e) => Err(e),
            },
            Some(HFI_MSG_SESSION_FILL_BUFFER) => match parse_fill_done(message) {
                Ok(done) => self.fill_completed(done),
                Err(e) => Err(e),
            },
            Some(HFI_MSG_EVENT_NOTIFY) => self.event_notified(message),
            _ => Ok(PacketOutcome::Nothing),
        }
    }

    /// The packet that gives a picture buffer to the firmware.
    pub fn queue_dpb(&self, index: usize) -> (r: Result<Vec<u32>, &'static str>)
        requires
            self@.wf(),
        ensures
            match r {
                Ok(fill) => index < self@.dpbs.len() && fill@ == dpb_packet(self@, index as int),
                Err(e) => index >= self@.dpbs.len() && e
                    == "qcom-venus-sc7180: invalid DPB index",
            },
    {
        if index >= self.dpbs.len() {
            return Err("qcom-venus-sc7180: invalid DPB index");
        }
        let buffer = self.dpbs[index];
        Ok(
            fill_buffer(
                self.id,
                HFI_BUFFER_OUTPUT,
                DPB_TAG_BASE + index as u32,
                buffer.address,
                buffer.size,
            ),
        )
    }

    /// Marks a picture buffer as with the firmware.
    pub fn dpb_sent(&mut self, index: usize)
        requires
            old(self)@.wf(),
            index < old(self)@.dpbs.len(),
        ensures
            final(self)@.wf(),
            final(self)@ == (SessionView {
                dpb_queued: old(self)@.dpb_queued.update(index as int, true),
                ..old(self)@
            }),
    {
        let ghost start = self@;
        self.dpb_queued.set(index, true);
        assert(self@ =~= (SessionView {
            dpb_queued: start.dpb_queued.update(index as int, true),
            ..start
        }));
    }

    /// The output buffer that a reconfigured session hands to the firmware
    /// for its frame in flight.
    pub fn output_after_reconfiguration(&self) -> (r: Result<OutputFill, &'static str>)
        ensures
            ({
                let fill = match (self.pending, self.mappings, self.layout) {
                    (None, _, _) => Err::<OutputFillView, &'static str>(
                        "qcom-venus-sc7180: sequence event has no in-flight frame",
                    ),
                    (_, None, _) => Err("qcom-venus-sc7180: frontend mappings disappeared"),
                    (_, _, None) => Err(
                        "qcom-venus-sc7180: sequence configuration was not retained",
                    ),
                    (Some(pending), Some(mappings), Some(layout)) => output_fill(
                        self.id,
                        mappings,
                        layout,
                        pending.output_tag,
                        pending.request,
                    ),
                };
                match r {
                    Ok(output) => fill == Ok::<OutputFillView, &'static str>(output@),
                    Err(e) => fill == Err::<OutputFillView, &'static str>(e),
                }
            }),
    {
        let pending = match self.pending {
            Some(pending) => pending,
            None => {
                return Err("qcom-venus-sc7180: sequence event has no in-flight frame");
            },
        };
        let mappings = match self.mappings {
            Some(mappings) => mappings,
            None => {
                return Err("qcom-venus-sc7180: frontend mappings disappeared");
            },
        };
        let layout = match self.layout {
            Some(layout) => layout,
            None => {
                return Err("qcom-venus-sc7180: sequence configuration was not retained");
            },
        };
        queue_output(self.id, mappings, layout, pending.output_tag, &pending.request)
    }

    /// Checks a completed frame, compacts it in its output buffer, whose
    /// cache lines were dropped, and writes its header.
    pub fn finish_output(
        &self,
        interface: &VideoInterface,
        out: &mut [u8],
        request: &DecodeRequest,
        done: &FillDone,
    ) -> (r: Result<DecodedFrame, &'static str>)
        requires
            self@.wf(),
            interface.wf(),
            request.output_offset <= MAPPED_INPUT_BYTES,
            old(out)@.len() == request.output_len,
        ensures
            match r {
                Err(e) => {
                    &&& output_fault(self@, *interface, *request, *done) == Some(e)
                    &&& final(out)@ == old(out)@
                },
                Ok(frame) => {
                    let layout = self.layout->Some_0;
                    &&& output_fault(self@, *interface, *request, *done) is None
                    &&& is_finished(
                        old(out)@,
                        final(out)@,
                        *interface,
                        layout,
                        done.offset as int,
                    )
                    &&& frame == (DecodedFrame {
                        stream_id: self.id,
                        width: layout.display_width,
                        height: layout.display_height,
                        pixel_format: interface.pixel_nv12,
                        payload_offset: (request.output_offset + interface.frame_header_len) as u64,
                        payload_len: layout.tight_len() as u32,
                        flags: done.flags,
                        timestamp: request.timestamp,
                    })
                },
            },
    {
        let layout = match self.layout {
            Some(layout) => layout,
            None => {
                return Err("qcom-venus-sc7180: output completed without a decoded layout");
            },
        };
        let expected: u32 = match self.mappings {
            Some(mappings) => match mappings.output_dma.checked_add(
                HARDWARE_OUTPUT_OFFSET as u32,
            ) {
                Some(address) => address,
                None => {
                    return Err("qcom-venus-sc7180: output DMA mapping is unavailable");
                },
            },
            None => {
                return Err("qcom-venus-sc7180: output DMA mapping is unavailable");
            },
        };
        if done.packet_buffer != expected {
            return Err("qcom-venus-sc7180: firmware completed an unknown output buffer");
        }
        if done.filled_len == 0 || done.filled_len > layout.linear_size {
            return Err("qcom-venus-sc7180: firmware returned an invalid output length");
        }
        if request.output_vaddr.checked_add(HARDWARE_OUTPUT_OFFSET).is_none() {
            return Err("qcom-venus-sc7180: hardware output address overflows");
        }
        if request.output_len < HARDWARE_OUTPUT_OFFSET as u32 {
            return Err("qcom-venus-sc7180: hardware output region is unavailable");
        }
        let ghost before = out@;
        let header_len: usize = interface.frame_header_len;
        match compact_nv12(out, header_len, &layout, done) {
            Ok(_) => {},
            Err(e) => {
                return Err(e);
            },
        }
        let payload_len: u32 = match layout.tight_payload_len() {
            Ok(length) => length as u32,
            Err(e) => {
                return Err(e);
            },
        };
        let ghost compacted = out@;
        write_frame_header(
            out,
            interface,
            layout.display_width,
            layout.display_height,
            payload_len,
        );
        proof {
            let n = FRAME_HEADER_BYTES as int;
            assert(out@.subrange(0, n) =~= frame_header(*interface, layout));
            assert forall|i: int| 0 <= i < n implies compacted[i] == before[i] by {}
            assert(before.subrange(0, n) + out@.subrange(n, out@.len() as int) =~= compacted);
        }
        Ok(
            DecodedFrame {
                stream_id: self.id,
                width: layout.display_width,
                height: layout.display_height,
                pixel_format: interface.pixel_nv12,
                payload_offset: request.output_offset + header_len as u64,
                payload_len,
                flags: done.flags,
                timestamp: request.timestamp,
            },
        )
    }
}

/// The packet that gives a picture buffer to the firmware.
pub open spec fn dpb_packet(session: SessionView, index: int) -> Seq<u32> {
    packet(
        fill_buffer_body(
            session.id,
            HFI_BUFFER_OUTPUT,
            (DPB_TAG_BASE + index) as u32,
            session.dpbs[index].address,
            session.dpbs[index].size,
        ),
    )
}

// Laws.

/// A completed picture buffer is found by the tag that it was sent with.
pub proof fn picture_tags_lead_back(session: SessionView, index: int)
    requires
        session.wf(),
        0 <= index < session.dpbs.len(),
    ensures
        dpb_index((DPB_TAG_BASE + index) as u32) == index,
        dpb_packet(session, index)[7] == DPB_TAG_BASE + index,
{
}

/// Whatever the firmware sends, only a completed frame or a failure ends the
/// request in flight, and no message starts one.
pub proof fn messages_end_at_most_the_request_in_flight(
    session: SessionView,
    message: Seq<u32>,
)
    ensures
        ({
            let (after, outcome) = message_step(session, message);
            ||| after.pending == session.pending
            ||| {
                &&& after.pending is None
                &&& session.pending is Some
                &&& outcome is Ok
                &&& outcome->Ok_0 is Output
                &&& outcome->Ok_0->request == session.pending->Some_0.request
            }
        }),
{
}

} // verus!
