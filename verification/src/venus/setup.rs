//! Exchanges with the firmware, the buffers it asks for, and the procedure
//! that creates a session.

use std::collections::VecDeque;

use vstd::prelude::*;

use crate::venus::hfi_abi::{
    error_of, flag, get_buffer_requirements, packet, packet_type, parse_buffer_requirements,
    property_packet, release_internal_buffer, requirements_of, response_error, session_command,
    session_id, session_init, set_buffer_count, set_buffer_size, set_decode_order, set_frame_size,
    set_internal_buffer, set_multistream, set_raw_format, set_work_mode, word_at, BufferRequirement,
    HFI_BUFFER_INPUT, HFI_BUFFER_INTERNAL_PERSIST, HFI_BUFFER_INTERNAL_PERSIST_1,
    HFI_BUFFER_INTERNAL_SCRATCH, HFI_BUFFER_INTERNAL_SCRATCH_1, HFI_BUFFER_INTERNAL_SCRATCH_2,
    HFI_BUFFER_OUTPUT, HFI_BUFFER_OUTPUT2, HFI_CMD_SESSION_GET_PROPERTY,
    HFI_CMD_SESSION_LOAD_RESOURCES, HFI_CMD_SESSION_RELEASE_BUFFERS, HFI_CMD_SESSION_SET_BUFFERS,
    HFI_CMD_SESSION_START, HFI_CMD_SYS_SESSION_INIT, HFI_COLOR_FORMAT_NV12,
    HFI_COLOR_FORMAT_NV12_UBWC, HFI_ERR_NONE, HFI_ERR_SESSION_EMPTY_BUFFER_DONE_OUTPUT_PENDING,
    HFI_MSG_SESSION_EMPTY_BUFFER, HFI_MSG_SESSION_LOAD_RESOURCES, HFI_MSG_SESSION_PROPERTY_INFO,
    HFI_MSG_SESSION_RELEASE_BUFFERS, HFI_MSG_SESSION_START, HFI_MSG_SYS_SESSION_INIT,
    HFI_OUTPUT_ORDER_DECODE, HFI_PROPERTY_CONFIG_BUFFER_REQUIREMENTS,
    HFI_PROPERTY_PARAM_BUFFER_COUNT_ACTUAL, HFI_PROPERTY_PARAM_BUFFER_SIZE_ACTUAL,
    HFI_PROPERTY_PARAM_FRAME_SIZE, HFI_PROPERTY_PARAM_UNCOMPRESSED_FORMAT_SELECT,
    HFI_PROPERTY_PARAM_VDEC_MULTI_STREAM, HFI_PROPERTY_PARAM_VDEC_OUTPUT_ORDER,
    HFI_PROPERTY_PARAM_WORK_MODE, HFI_VIDEO_CODEC_H264, VIDC_SESSION_TYPE_DEC, VIDC_WORK_MODE_1,
    VIDC_WORK_MODE_2,
};
use crate::venus::nv12::{
    aligned, divided_up, layout_of, plane_size, ubwc_size, whole_frame, Nv12Layout,
};

verus! {

pub const INITIAL_WIDTH: u32 = 96;

pub const INITIAL_HEIGHT: u32 = 96;

pub const MAX_DYNAMIC_BUFFERS: u32 = 32;

pub const MAX_INTERNAL_BUFFERS_PER_TYPE: u32 = 8;

// Exchanges.

/// The message that answers a packet.
#[derive(Clone, Copy, Debug, Eq, PartialEq, Structural)]
pub enum Wanted {
    /// None: the packet is only sent.
    Nothing,
    /// A message of this type.
    Message { response_type: u32 },
    /// A message of this type for one session.
    SessionMessage { response_type: u32, session: u32 },
    /// The properties of one session.
    PropertyInfo { session: u32 },
}

/// A packet and the message that answers it.
#[derive(Debug)]
pub struct Exchange {
    pub packet: Vec<u32>,
    pub wanted: Wanted,
}

#[verifier::ext_equal]
pub struct ExchangeView {
    pub packet: Seq<u32>,
    pub wanted: Wanted,
}

impl View for Exchange {
    type V = ExchangeView;

    open spec fn view(&self) -> ExchangeView {
        ExchangeView { packet: self.packet@, wanted: self.wanted }
    }
}

pub open spec fn sent(packet: Seq<u32>) -> ExchangeView {
    ExchangeView { packet, wanted: Wanted::Nothing }
}

/// A packet that a message of one type for the session answers.
pub open spec fn answered(packet: Seq<u32>, response_type: u32, session: u32) -> ExchangeView {
    ExchangeView { packet, wanted: Wanted::SessionMessage { response_type, session } }
}

/// A session command without parameters.
pub open spec fn commanded(command: u32, response_type: u32, session: u32) -> ExchangeView {
    answered(packet(seq![command, session]), response_type, session)
}

pub open spec fn answers(message: Seq<u32>, wanted: Wanted) -> bool {
    match wanted {
        Wanted::Nothing => false,
        Wanted::Message { response_type } => word_at(message, 1) == Some(response_type),
        Wanted::SessionMessage { response_type, session } => {
            &&& word_at(message, 1) == Some(response_type)
            &&& word_at(message, 2) == Some(session)
        },
        Wanted::PropertyInfo { session } => {
            &&& word_at(message, 1) == Some(HFI_MSG_SESSION_PROPERTY_INFO)
            &&& word_at(message, 2) == Some(session)
        },
    }
}

fn same_word(word: Option<u32>, value: u32) -> (r: bool)
    ensures
        r == (word == Some(value)),
{
    match word {
        Some(word) => word == value,
        None => false,
    }
}

pub fn is_answer(message: &[u32], wanted: Wanted) -> (r: bool)
    ensures
        r == answers(message@, wanted),
{
    match wanted {
        Wanted::Nothing => false,
        Wanted::Message { response_type } => same_word(packet_type(message), response_type),
        Wanted::SessionMessage { response_type, session } => same_word(
            packet_type(message),
            response_type,
        ) && same_word(session_id(message), session),
        Wanted::PropertyInfo { session } => same_word(
            packet_type(message),
            HFI_MSG_SESSION_PROPERTY_INFO,
        ) && same_word(session_id(message), session),
    }
}

/// What a response says. An input buffer whose output is still pending was
/// taken nonetheless.
pub open spec fn response_verdict(message: Seq<u32>) -> Result<(), &'static str> {
    match error_of(message) {
        None => Err("qcom-venus-sc7180: malformed HFI command response"),
        Some(error) => if error == HFI_ERR_NONE || (error
            == HFI_ERR_SESSION_EMPTY_BUFFER_DONE_OUTPUT_PENDING && word_at(message, 1) == Some(
            HFI_MSG_SESSION_EMPTY_BUFFER,
        )) {
            Ok(())
        } else {
            Err("qcom-venus-sc7180: HFI command failed")
        },
    }
}

pub fn ensure_response_success(message: &[u32]) -> (r: Result<(), &'static str>)
    ensures
        r == response_verdict(message@),
{
    match response_error(message) {
        None => Err("qcom-venus-sc7180: malformed HFI command response"),
        Some(error) => {
            if error == HFI_ERR_NONE || (error == HFI_ERR_SESSION_EMPTY_BUFFER_DONE_OUTPUT_PENDING
                && same_word(packet_type(message), HFI_MSG_SESSION_EMPTY_BUFFER)) {
                Ok(())
            } else {
                Err("qcom-venus-sc7180: HFI command failed")
            }
        },
    }
}

/// Whether an answer lets its exchange succeed. Properties carry no error of
/// their own.
pub fn accept_answer(message: &[u32], wanted: Wanted) -> (r: Result<(), &'static str>)
    ensures
        r == (match wanted {
            Wanted::Nothing => Ok::<(), &'static str>(()),
            Wanted::PropertyInfo { .. } => Ok(()),
            _ => response_verdict(message@),
        }),
{
    match wanted {
        Wanted::Nothing => Ok(()),
        Wanted::PropertyInfo { .. } => Ok(()),
        _ => ensure_response_success(message),
    }
}

pub fn send_of(packet: Vec<u32>) -> (r: Exchange)
    ensures
        r@ == sent(packet@),
{
    Exchange { packet, wanted: Wanted::Nothing }
}

pub fn command_of(packet: Vec<u32>, response_type: u32, session: u32) -> (r: Exchange)
    ensures
        r@ == answered(packet@, response_type, session),
{
    Exchange { packet, wanted: Wanted::SessionMessage { response_type, session } }
}

/// What a list of exchanges holds.
pub open spec fn exchanges(list: Seq<Exchange>) -> Seq<ExchangeView> {
    Seq::new(list.len(), |i: int| list[i]@)
}

pub fn push_exchange(batch: &mut VecDeque<Exchange>, exchange: Exchange)
    ensures
        exchanges(final(batch)@) == exchanges(old(batch)@).push(exchange@),
{
    batch.push_back(exchange);
    assert(exchanges(batch@) =~= exchanges(old(batch)@).push(exchange@));
}

// Configuration.

/// The work mode that a frame of so many macroblocks asks for.
pub open spec fn work_mode(layout: Nv12Layout) -> u32 {
    if divided_up(layout.width as int, 16) * divided_up(layout.height as int, 16) <= 3600 {
        VIDC_WORK_MODE_1
    } else {
        VIDC_WORK_MODE_2
    }
}

/// The packets that configure the outputs for a layout: compressed frames
/// stay with the firmware, linear ones are shown.
pub open spec fn output_configuration(session: u32, layout: Nv12Layout) -> Seq<Seq<u32>> {
    seq![
        property_packet(session, HFI_PROPERTY_PARAM_WORK_MODE, seq![work_mode(layout)]),
        property_packet(
            session,
            HFI_PROPERTY_PARAM_UNCOMPRESSED_FORMAT_SELECT,
            seq![HFI_BUFFER_OUTPUT2, HFI_COLOR_FORMAT_NV12],
        ),
        property_packet(
            session,
            HFI_PROPERTY_PARAM_VDEC_MULTI_STREAM,
            seq![HFI_BUFFER_OUTPUT, flag(false)],
        ),
        property_packet(
            session,
            HFI_PROPERTY_PARAM_VDEC_MULTI_STREAM,
            seq![HFI_BUFFER_OUTPUT2, flag(true)],
        ),
        property_packet(
            session,
            HFI_PROPERTY_PARAM_UNCOMPRESSED_FORMAT_SELECT,
            seq![HFI_BUFFER_OUTPUT, HFI_COLOR_FORMAT_NV12_UBWC],
        ),
        property_packet(
            session,
            HFI_PROPERTY_PARAM_FRAME_SIZE,
            seq![HFI_BUFFER_OUTPUT2, layout.width, layout.height],
        ),
        property_packet(
            session,
            HFI_PROPERTY_PARAM_BUFFER_COUNT_ACTUAL,
            seq![HFI_BUFFER_INPUT, 4u32, 4u32],
        ),
        property_packet(
            session,
            HFI_PROPERTY_PARAM_BUFFER_COUNT_ACTUAL,
            seq![HFI_BUFFER_OUTPUT, MAX_DYNAMIC_BUFFERS, MAX_DYNAMIC_BUFFERS],
        ),
        property_packet(
            session,
            HFI_PROPERTY_PARAM_BUFFER_COUNT_ACTUAL,
            seq![HFI_BUFFER_OUTPUT2, MAX_DYNAMIC_BUFFERS, MAX_DYNAMIC_BUFFERS],
        ),
        property_packet(
            session,
            HFI_PROPERTY_PARAM_BUFFER_SIZE_ACTUAL,
            seq![HFI_BUFFER_OUTPUT, layout.ubwc_size],
        ),
        property_packet(
            session,
            HFI_PROPERTY_PARAM_BUFFER_SIZE_ACTUAL,
            seq![HFI_BUFFER_OUTPUT2, layout.linear_size],
        ),
    ]
}

/// Every packet of a list, sent.
pub open spec fn all_sent(packets: Seq<Seq<u32>>) -> Seq<ExchangeView> {
    Seq::new(packets.len(), |i: int| sent(packets[i]))
}

fn sixteenths_up(value: u32) -> (r: u64)
    ensures
        r == divided_up(value as int, 16),
        r <= 0x1000_0000,
{
    (value as u64 + 15) / 16
}

/// Queues the packets that configure the outputs.
fn configure_output(batch: &mut VecDeque<Exchange>, session: u32, layout: Nv12Layout)
    ensures
        exchanges(final(batch)@) == exchanges(old(batch)@) + all_sent(
            output_configuration(session, layout),
        ),
{
    let ghost before = exchanges(batch@);
    let wide: u64 = sixteenths_up(layout.width);
    let high: u64 = sixteenths_up(layout.height);
    assert(0 <= wide * high <= 0x1000_0000 * 0x1000_0000) by (nonlinear_arith)
        requires
            0 <= wide <= 0x1000_0000,
            0 <= high <= 0x1000_0000,
    ;
    let mode: u32 = if wide * high <= 3600 {
        VIDC_WORK_MODE_1
    } else {
        VIDC_WORK_MODE_2
    };
    push_exchange(batch, send_of(set_work_mode(session, mode)));
    push_exchange(
        batch,
        send_of(set_raw_format(session, HFI_BUFFER_OUTPUT2, HFI_COLOR_FORMAT_NV12)),
    );
    push_exchange(batch, send_of(set_multistream(session, HFI_BUFFER_OUTPUT, false)));
    push_exchange(batch, send_of(set_multistream(session, HFI_BUFFER_OUTPUT2, true)));
    push_exchange(
        batch,
        send_of(set_raw_format(session, HFI_BUFFER_OUTPUT, HFI_COLOR_FORMAT_NV12_UBWC)),
    );
    push_exchange(
        batch,
        send_of(set_frame_size(session, HFI_BUFFER_OUTPUT2, layout.width, layout.height)),
    );
    push_exchange(batch, send_of(set_buffer_count(session, HFI_BUFFER_INPUT, 4)));
    push_exchange(
        batch,
        send_of(set_buffer_count(session, HFI_BUFFER_OUTPUT, MAX_DYNAMIC_BUFFERS)),
    );
    push_exchange(
        batch,
        send_of(set_buffer_count(session, HFI_BUFFER_OUTPUT2, MAX_DYNAMIC_BUFFERS)),
    );
    push_exchange(batch, send_of(set_buffer_size(session, HFI_BUFFER_OUTPUT, layout.ubwc_size)));
    push_exchange(
        batch,
        send_of(set_buffer_size(session, HFI_BUFFER_OUTPUT2, layout.linear_size)),
    );
    assert(exchanges(batch@) =~= before + all_sent(output_configuration(session, layout)));
}

// Buffers.

/// A buffer that the firmware keeps for itself.
#[derive(Clone, Copy, Debug, Eq, PartialEq, Structural)]
pub struct InternalBuffer {
    pub buffer_type: u32,
    pub size: u32,
    pub address: u32,
}

/// A buffer to allocate.
#[derive(Clone, Copy, Debug, Eq, PartialEq, Structural)]
pub struct BufferPlan {
    pub buffer_type: u32,
    pub size: u32,
}

pub open spec fn is_scratch(buffer_type: u32) -> bool {
    buffer_type == HFI_BUFFER_INTERNAL_SCRATCH || buffer_type == HFI_BUFFER_INTERNAL_SCRATCH_1
        || buffer_type == HFI_BUFFER_INTERNAL_SCRATCH_2
}

pub fn scratch(buffer_type: u32) -> (r: bool)
    ensures
        r == is_scratch(buffer_type),
{
    buffer_type == HFI_BUFFER_INTERNAL_SCRATCH || buffer_type == HFI_BUFFER_INTERNAL_SCRATCH_1
        || buffer_type == HFI_BUFFER_INTERNAL_SCRATCH_2
}

/// Whether a requirement asks for internal buffers: scratch ones, and
/// persistent ones unless only scratch is wanted.
pub open spec fn is_selected(requirement: BufferRequirement, scratch_only: bool) -> bool {
    requirement.size != 0 && (is_scratch(requirement.buffer_type) || (!scratch_only && (
    requirement.buffer_type == HFI_BUFFER_INTERNAL_PERSIST || requirement.buffer_type
        == HFI_BUFFER_INTERNAL_PERSIST_1)))
}

pub open spec fn requirement_fault(requirement: BufferRequirement) -> Option<&'static str> {
    if requirement.alignment > 4096 || requirement.contiguous > 1 {
        Some("qcom-venus-sc7180: unsupported internal-buffer requirement")
    } else if requirement.count_actual > MAX_INTERNAL_BUFFERS_PER_TYPE {
        Some("qcom-venus-sc7180: firmware requested too many internal buffers")
    } else {
        None
    }
}

/// The buffers of one requirement.
pub open spec fn planned(requirement: BufferRequirement) -> Seq<BufferPlan> {
    Seq::new(
        requirement.count_actual as nat,
        |i: int| BufferPlan { buffer_type: requirement.buffer_type, size: requirement.size },
    )
}

/// What to allocate, and the fault of the first requirement that cannot be
/// met, if there is one: what comes before it is still allocated.
#[verifier::ext_equal]
pub struct PlanView {
    pub buffers: Seq<BufferPlan>,
    pub fault: Option<&'static str>,
}

pub open spec fn plan_of(requirements: Seq<BufferRequirement>, scratch_only: bool) -> PlanView
    decreases requirements.len(),
{
    if requirements.len() == 0 {
        PlanView { buffers: Seq::empty(), fault: None }
    } else {
        let before = plan_of(requirements.drop_last(), scratch_only);
        let requirement = requirements.last();
        if before.fault is Some || !is_selected(requirement, scratch_only) {
            before
        } else if requirement_fault(requirement) is Some {
            PlanView { fault: requirement_fault(requirement), ..before }
        } else {
            PlanView { buffers: before.buffers + planned(requirement), fault: None }
        }
    }
}

proof fn plan_fault_stays(requirements: Seq<BufferRequirement>, scratch_only: bool, count: int)
    requires
        0 <= count <= requirements.len(),
        plan_of(requirements.take(count), scratch_only).fault is Some,
    ensures
        plan_of(requirements, scratch_only) == plan_of(requirements.take(count), scratch_only),
    decreases requirements.len() - count,
{
    if count < requirements.len() {
        assert(requirements.take(count + 1).drop_last() =~= requirements.take(count));
        plan_fault_stays(requirements, scratch_only, count + 1);
    } else {
        assert(requirements.take(count) =~= requirements);
    }
}

#[derive(Debug)]
pub struct AllocationPlan {
    pub buffers: Vec<BufferPlan>,
    pub fault: Option<&'static str>,
}

impl View for AllocationPlan {
    type V = PlanView;

    open spec fn view(&self) -> PlanView {
        PlanView { buffers: self.buffers@, fault: self.fault }
    }
}

/// Plans the internal buffers that a list of requirements asks for.
pub fn plan_internal_buffers(requirements: &Vec<BufferRequirement>, scratch_only: bool) -> (r:
    AllocationPlan)
    ensures
        r@ == plan_of(requirements@, scratch_only),
{
    let mut buffers: Vec<BufferPlan> = Vec::new();
    let mut i: usize = 0;
    assert(requirements@.take(0) =~= Seq::empty());
    while i < requirements.len()
        invariant
            i <= requirements@.len(),
            plan_of(requirements@.take(i as int), scratch_only) == (PlanView {
                buffers: buffers@,
                fault: None,
            }),
        decreases requirements@.len() - i,
    {
        let requirement = requirements[i];
        assert(requirements@.take(i + 1).drop_last() =~= requirements@.take(i as int));
        let selected: bool = requirement.size != 0 && (scratch(requirement.buffer_type) || (
        !scratch_only && (requirement.buffer_type == HFI_BUFFER_INTERNAL_PERSIST
            || requirement.buffer_type == HFI_BUFFER_INTERNAL_PERSIST_1)));
        if selected {
            if requirement.alignment > 4096 || requirement.contiguous > 1 {
                proof {
                    plan_fault_stays(requirements@, scratch_only, i + 1);
                }
                return AllocationPlan {
                    buffers,
                    fault: Some("qcom-venus-sc7180: unsupported internal-buffer requirement"),
                };
            }
            if requirement.count_actual > MAX_INTERNAL_BUFFERS_PER_TYPE {
                proof {
                    plan_fault_stays(requirements@, scratch_only, i + 1);
                }
                return AllocationPlan {
                    buffers,
                    fault: Some(
                        "qcom-venus-sc7180: firmware requested too many internal buffers",
                    ),
                };
            }
            let ghost before = buffers@;
            let mut count: u32 = 0;
            while count < requirement.count_actual
                invariant
                    count <= requirement.count_actual,
                    buffers@ == before + planned(requirement).take(count as int),
                decreases requirement.count_actual - count,
            {
                buffers.push(
                    BufferPlan { buffer_type: requirement.buffer_type, size: requirement.size },
                );
                count += 1;
                assert(buffers@ =~= before + planned(requirement).take(count as int));
            }
            assert(buffers@ =~= before + planned(requirement));
        }
        i += 1;
    }
    assert(requirements@.take(requirements@.len() as int) =~= requirements@);
    AllocationPlan { buffers, fault: None }
}

/// The packet that gives an internal buffer to the firmware.
pub open spec fn registration(session: u32, buffer: InternalBuffer) -> Seq<u32> {
    packet(
        seq![
            HFI_CMD_SESSION_SET_BUFFERS,
            session,
            buffer.buffer_type,
            buffer.size,
            0u32,
            buffer.size,
            1u32,
            buffer.address,
        ],
    )
}

pub open spec fn registrations(session: u32, buffers: Seq<InternalBuffer>) -> Seq<ExchangeView> {
    Seq::new(buffers.len(), |i: int| sent(registration(session, buffers[i])))
}

/// The exchange that takes an internal buffer back.
pub open spec fn release(session: u32, buffer: InternalBuffer) -> ExchangeView {
    answered(
        packet(
            seq![
                HFI_CMD_SESSION_RELEASE_BUFFERS,
                session,
                buffer.buffer_type,
                buffer.size,
                0u32,
                1u32,
                1u32,
                buffer.address,
            ],
        ),
        HFI_MSG_SESSION_RELEASE_BUFFERS,
        session,
    )
}

pub open spec fn releases(session: u32, buffers: Seq<InternalBuffer>) -> Seq<ExchangeView> {
    Seq::new(buffers.len(), |i: int| release(session, buffers[i]))
}

pub fn push_registrations(
    batch: &mut VecDeque<Exchange>,
    session: u32,
    buffers: &Vec<InternalBuffer>,
)
    ensures
        exchanges(final(batch)@) == exchanges(old(batch)@) + registrations(session, buffers@),
{
    let ghost before = exchanges(batch@);
    let mut i: usize = 0;
    while i < buffers.len()
        invariant
            i <= buffers@.len(),
            exchanges(batch@) == before + registrations(session, buffers@).take(i as int),
        decreases buffers@.len() - i,
    {
        let buffer = buffers[i];
        push_exchange(
            batch,
            send_of(set_internal_buffer(session, buffer.buffer_type, buffer.size, buffer.address)),
        );
        i += 1;
        assert(exchanges(batch@) =~= before + registrations(session, buffers@).take(i as int));
    }
    assert(exchanges(batch@) =~= before + registrations(session, buffers@));
}

pub fn push_releases(batch: &mut VecDeque<Exchange>, session: u32, buffers: &Vec<InternalBuffer>)
    ensures
        exchanges(final(batch)@) == exchanges(old(batch)@) + releases(session, buffers@),
{
    let ghost before = exchanges(batch@);
    let mut i: usize = 0;
    while i < buffers.len()
        invariant
            i <= buffers@.len(),
            exchanges(batch@) == before + releases(session, buffers@).take(i as int),
        decreases buffers@.len() - i,
    {
        let buffer = buffers[i];
        push_exchange(
            batch,
            command_of(
                release_internal_buffer(
                    session,
                    buffer.buffer_type,
                    buffer.size,
                    buffer.address,
                ),
                HFI_MSG_SESSION_RELEASE_BUFFERS,
                session,
            ),
        );
        i += 1;
        assert(exchanges(batch@) =~= before + releases(session, buffers@).take(i as int));
    }
    assert(exchanges(batch@) =~= before + releases(session, buffers@));
}

// Setting up.

/// What a procedure asks for next.
#[derive(Debug)]
pub enum Progress {
    /// Send this packet and wait for its answer.
    Exchange(Exchange),
    /// Allocate a buffer of so many bytes.
    Allocate(u32),
    Done,
    Failed(&'static str),
}

pub enum ProgressView {
    Exchange(ExchangeView),
    Allocate(u32),
    Done,
    Failed(&'static str),
}

impl View for Progress {
    type V = ProgressView;

    open spec fn view(&self) -> ProgressView {
        match *self {
            Progress::Exchange(exchange) => ProgressView::Exchange(exchange@),
            Progress::Allocate(size) => ProgressView::Allocate(size),
            Progress::Done => ProgressView::Done,
            Progress::Failed(e) => ProgressView::Failed(e),
        }
    }
}

/// What came of the last request of a procedure.
#[derive(Clone, Copy, Debug)]
pub enum Event<'a> {
    /// The exchange succeeded; its answer, empty where none was wanted.
    Answered(&'a [u32]),
    /// The buffer was allocated at this address.
    Allocated(u32),
    Failed(&'static str),
}

pub enum EventView {
    Answered(Seq<u32>),
    Allocated(u32),
    Failed(&'static str),
}

impl<'a> View for Event<'a> {
    type V = EventView;

    open spec fn view(&self) -> EventView {
        match *self {
            Event::Answered(message) => EventView::Answered(message@),
            Event::Allocated(address) => EventView::Allocated(address),
            Event::Failed(e) => EventView::Failed(e),
        }
    }
}

#[derive(Clone, Copy, Debug, Eq, PartialEq, Structural)]
pub enum SetupPhase {
    /// Configuring the session, up to the query for buffer requirements.
    Opening,
    /// Allocating internal buffers.
    Allocating,
    /// Handing them over and starting.
    Closing,
}

/// The procedure that creates a session.
#[derive(Debug)]
pub struct SessionSetup {
    pub id: u32,
    pub phase: SetupPhase,
    /// The exchanges of this phase that are still to come.
    pub batch: VecDeque<Exchange>,
    pub plan: AllocationPlan,
    pub granted: Vec<InternalBuffer>,
}

#[verifier::ext_equal]
pub struct SetupView {
    pub id: u32,
    pub phase: SetupPhase,
    pub batch: Seq<ExchangeView>,
    pub plan: PlanView,
    pub granted: Seq<InternalBuffer>,
}

impl View for SessionSetup {
    type V = SetupView;

    open spec fn view(&self) -> SetupView {
        SetupView {
            id: self.id,
            phase: self.phase,
            batch: exchanges(self.batch@),
            plan: self.plan@,
            granted: self.granted@,
        }
    }
}

/// The exchanges that open a session. The firmware is put in decode order:
/// one access unit is in flight at a time, so a frame must not wait for a
/// later one.
pub open spec fn opening(id: u32) -> Seq<ExchangeView> {
    seq![
        answered(
            packet(
                seq![
                    HFI_CMD_SYS_SESSION_INIT,
                    id,
                    VIDC_SESSION_TYPE_DEC,
                    HFI_VIDEO_CODEC_H264,
                ],
            ),
            HFI_MSG_SYS_SESSION_INIT,
            id,
        ),
        sent(
            property_packet(
                id,
                HFI_PROPERTY_PARAM_FRAME_SIZE,
                seq![HFI_BUFFER_INPUT, INITIAL_WIDTH, INITIAL_HEIGHT],
            ),
        ),
        sent(
            property_packet(
                id,
                HFI_PROPERTY_PARAM_VDEC_OUTPUT_ORDER,
                seq![HFI_OUTPUT_ORDER_DECODE],
            ),
        ),
    ] + reconfiguration_opening(id, initial_layout())
}

/// The exchanges that configure the outputs and ask what buffers they need.
pub open spec fn reconfiguration_opening(id: u32, layout: Nv12Layout) -> Seq<ExchangeView> {
    all_sent(output_configuration(id, layout)).push(
        ExchangeView {
            packet: packet(
                seq![
                    HFI_CMD_SESSION_GET_PROPERTY,
                    id,
                    1u32,
                    HFI_PROPERTY_CONFIG_BUFFER_REQUIREMENTS,
                ],
            ),
            wanted: Wanted::PropertyInfo { session: id },
        },
    )
}

/// The layout before the stream's own is known.
pub open spec fn initial_layout() -> Nv12Layout {
    layout_of(whole_frame(INITIAL_WIDTH, INITIAL_HEIGHT))->Ok_0
}

pub open spec fn closing(id: u32, buffers: Seq<InternalBuffer>) -> Seq<ExchangeView> {
    registrations(id, buffers) + seq![
        commanded(HFI_CMD_SESSION_LOAD_RESOURCES, HFI_MSG_SESSION_LOAD_RESOURCES, id),
        commanded(HFI_CMD_SESSION_START, HFI_MSG_SESSION_START, id),
    ]
}

impl SetupView {
    /// Issues the first exchange of a batch.
    pub open spec fn issue(self, batch: Seq<ExchangeView>) -> (SetupView, ProgressView) {
        (SetupView { batch: batch.drop_first(), ..self }, ProgressView::Exchange(batch[0]))
    }

    /// Asks for the next buffer of the plan, or goes on without one.
    pub open spec fn allocate(self) -> (SetupView, ProgressView) {
        if self.granted.len() < self.plan.buffers.len() {
            (self, ProgressView::Allocate(self.plan.buffers[self.granted.len() as int].size))
        } else if self.plan.fault is Some {
            (self, ProgressView::Failed(self.plan.fault->Some_0))
        } else {
            (SetupView { phase: SetupPhase::Closing, ..self }).issue(
                closing(self.id, self.granted),
            )
        }
    }

    pub open spec fn step(self, event: EventView) -> (SetupView, ProgressView) {
        match event {
            EventView::Failed(e) => (self, ProgressView::Failed(e)),
            EventView::Allocated(address) => {
                let plan = self.plan.buffers[self.granted.len() as int];
                (SetupView {
                    granted: self.granted.push(
                        InternalBuffer { buffer_type: plan.buffer_type, size: plan.size, address },
                    ),
                    ..self
                }).allocate()
            },
            EventView::Answered(message) => if self.batch.len() > 0 {
                self.issue(self.batch)
            } else if self.phase == SetupPhase::Closing {
                (self, ProgressView::Done)
            } else {
                match requirements_of(message) {
                    Err(e) => (self, ProgressView::Failed(e)),
                    Ok(requirements) => (SetupView {
                        phase: SetupPhase::Allocating,
                        plan: plan_of(requirements, false),
                        ..self
                    }).allocate(),
                }
            },
        }
    }

    /// The event is one that the last request can bring.
    pub open spec fn expects(self, event: EventView) -> bool {
        match event {
            EventView::Failed(_) => true,
            EventView::Allocated(_) => self.phase == SetupPhase::Allocating && self.granted.len()
                < self.plan.buffers.len(),
            EventView::Answered(_) => self.phase != SetupPhase::Allocating,
        }
    }

    /// Buffers are granted only while allocating, and no more than planned.
    pub open spec fn wf(self) -> bool {
        &&& self.granted.len() <= self.plan.buffers.len()
        &&& self.phase == SetupPhase::Opening ==> self.granted.len() == 0
        &&& self.phase == SetupPhase::Allocating ==> self.batch.len() == 0
    }
}

/// Takes the first exchange of a batch.
pub fn next_exchange(batch: &mut VecDeque<Exchange>) -> (r: Exchange)
    requires
        old(batch)@.len() > 0,
    ensures
        r@ == exchanges(old(batch)@)[0],
        exchanges(final(batch)@) == exchanges(old(batch)@).drop_first(),
{
    let first = batch.pop_front();
    assert(exchanges(batch@) =~= exchanges(old(batch)@).drop_first());
    first.unwrap()
}

pub fn push_property_query(batch: &mut VecDeque<Exchange>, id: u32, layout: Nv12Layout)
    ensures
        exchanges(final(batch)@) == exchanges(old(batch)@) + reconfiguration_opening(id, layout),
{
    let ghost before = exchanges(batch@);
    configure_output(batch, id, layout);
    push_exchange(
        batch,
        Exchange {
            packet: get_buffer_requirements(id),
            wanted: Wanted::PropertyInfo { session: id },
        },
    );
    assert(exchanges(batch@) =~= before + reconfiguration_opening(id, layout));
}

impl SessionSetup {
    /// Starts to create a session.
    pub fn start(id: u32) -> (r: (SessionSetup, Progress))
        ensures
            r.0@.wf(),
            (r.0@, r.1@) == (SetupView {
                id,
                phase: SetupPhase::Opening,
                batch: Seq::empty(),
                plan: PlanView { buffers: Seq::empty(), fault: None },
                granted: Seq::empty(),
            }).issue(opening(id)),
    {
        let mut batch: VecDeque<Exchange> = VecDeque::new();
        push_exchange(
            &mut batch,
            command_of(session_init(id), HFI_MSG_SYS_SESSION_INIT, id),
        );
        push_exchange(
            &mut batch,
            send_of(set_frame_size(id, HFI_BUFFER_INPUT, INITIAL_WIDTH, INITIAL_HEIGHT)),
        );
        push_exchange(&mut batch, send_of(set_decode_order(id)));
        let plan = AllocationPlan { buffers: Vec::new(), fault: None };
        match Nv12Layout::initial(INITIAL_WIDTH, INITIAL_HEIGHT) {
            Ok(layout) => push_property_query(&mut batch, id, layout),
            Err(e) => {
                proof {
                    initial_layout_is_valid();
                }
            },
        }
        assert(exchanges(batch@) =~= opening(id));
        let first = next_exchange(&mut batch);
        let setup = SessionSetup {
            id,
            phase: SetupPhase::Opening,
            batch,
            plan,
            granted: Vec::new(),
        };
        assert(setup@ =~= (SetupView {
            id,
            phase: SetupPhase::Opening,
            batch: Seq::empty(),
            plan: PlanView { buffers: Seq::empty(), fault: None },
            granted: Seq::empty(),
        }).issue(opening(id)).0);
        (setup, Progress::Exchange(first))
    }

    fn allocate(&mut self) -> (r: Progress)
        requires
            old(self)@.granted.len() <= old(self)@.plan.buffers.len(),
            old(self)@.phase == SetupPhase::Allocating,
            old(self)@.batch.len() == 0,
        ensures
            final(self)@.wf(),
            (final(self)@, r@) == old(self)@.allocate(),
    {
        let ghost start = self@;
        if self.granted.len() < self.plan.buffers.len() {
            return Progress::Allocate(self.plan.buffers[self.granted.len()].size);
        }
        if let Some(fault) = self.plan.fault {
            return Progress::Failed(fault);
        }
        self.phase = SetupPhase::Closing;
        let id: u32 = self.id;
        push_registrations(&mut self.batch, id, &self.granted);
        push_exchange(
            &mut self.batch,
            command_of(
                session_command(HFI_CMD_SESSION_LOAD_RESOURCES, id),
                HFI_MSG_SESSION_LOAD_RESOURCES,
                id,
            ),
        );
        push_exchange(
            &mut self.batch,
            command_of(
                session_command(HFI_CMD_SESSION_START, id),
                HFI_MSG_SESSION_START,
                id,
            ),
        );
        assert(exchanges(self.batch@) =~= closing(id, self.granted@));
        let first = next_exchange(&mut self.batch);
        assert(self@ =~= start.allocate().0);
        Progress::Exchange(first)
    }

    /// Takes what came of the last request, and gives the next one.
    pub fn advance(&mut self, event: Event) -> (r: Progress)
        requires
            old(self)@.wf(),
            old(self)@.expects(event@),
        ensures
            final(self)@.wf(),
            (final(self)@, r@) == old(self)@.step(event@),
    {
        let ghost start = self@;
        match event {
            Event::Failed(e) => Progress::Failed(e),
            Event::Allocated(address) => {
                let plan = self.plan.buffers[self.granted.len()];
                self.granted.push(
                    InternalBuffer { buffer_type: plan.buffer_type, size: plan.size, address },
                );
                assert(self@ =~= (SetupView {
                    granted: start.granted.push(
                        InternalBuffer {
                            buffer_type: plan.buffer_type,
                            size: plan.size,
                            address,
                        },
                    ),
                    ..start
                }));
                self.allocate()
            },
            Event::Answered(message) => {
                if self.batch.len() > 0 {
                    let first = next_exchange(&mut self.batch);
                    assert(self@ =~= start.issue(start.batch).0);
                    return Progress::Exchange(first);
                }
                if let SetupPhase::Closing = self.phase {
                    return Progress::Done;
                }
                match parse_buffer_requirements(message) {
                    Err(e) => Progress::Failed(e),
                    Ok(requirements) => {
                        self.phase = SetupPhase::Allocating;
                        self.plan = plan_internal_buffers(&requirements, false);
                        assert(self@ =~= (SetupView {
                            phase: SetupPhase::Allocating,
                            plan: plan_of(requirements@, false),
                            ..start
                        }));
                        self.allocate()
                    },
                }
            },
        }
    }
}

/// The layout that a session starts with is a valid one.
proof fn initial_layout_is_valid()
    ensures
        layout_of(whole_frame(INITIAL_WIDTH, INITIAL_HEIGHT)) is Ok,
{
    assert(aligned(96, 128) == 128 && aligned(96, 32) == 96 && aligned(48, 16) == 48);
    assert(aligned(48, 32) == 64);
    assert(aligned(divided_up(96, 32), 64) == 64 && aligned(divided_up(96, 8), 16) == 16);
    assert(aligned(divided_up(48, 16), 64) == 64 && aligned(divided_up(48, 8), 16) == 16);
    assert(plane_size(64, 16, "qcom-venus-sc7180: UBWC Y metadata overflows") == Ok::<
        int,
        &'static str,
    >(4096));
    assert(plane_size(128, 96, "qcom-venus-sc7180: UBWC Y plane overflows") == Ok::<
        int,
        &'static str,
    >(12288));
    assert(plane_size(64, 16, "qcom-venus-sc7180: UBWC UV metadata overflows") == Ok::<
        int,
        &'static str,
    >(4096));
    assert(plane_size(128, 64, "qcom-venus-sc7180: UBWC UV plane overflows") == Ok::<
        int,
        &'static str,
    >(8192));
    assert(ubwc_size(96, 96) is Ok);
}

// Laws.

/// The firmware is handed no buffer before all of them are allocated.
pub proof fn buffers_are_handed_over_together(setup: SetupView, event: EventView)
    requires
        setup.wf(),
        setup.expects(event),
        setup.phase != SetupPhase::Closing,
        setup.step(event).0.phase == SetupPhase::Closing,
    ensures
        setup.step(event).0.granted.len() == setup.step(event).0.plan.buffers.len(),
        setup.step(event).0.plan.fault is None,
{
}

/// The steps that are left of a phase.
pub open spec fn steps_left(setup: SetupView) -> (int, int) {
    match setup.phase {
        SetupPhase::Opening => (2, setup.batch.len() as int),
        SetupPhase::Allocating => (1, setup.plan.buffers.len() - setup.granted.len()),
        SetupPhase::Closing => (0, setup.batch.len() as int),
    }
}

/// A session is set up, or fails to be, after finitely many steps: each one
/// ends the procedure, its phase, or one of the steps left of its phase.
pub proof fn a_setup_ends(setup: SetupView, event: EventView)
    requires
        setup.wf(),
        setup.expects(event),
    ensures
        ({
            let (after, progress) = setup.step(event);
            let (phase, left) = steps_left(setup);
            let (next_phase, next_left) = steps_left(after);
            ||| progress is Done
            ||| progress is Failed
            ||| next_phase < phase
            ||| next_phase == phase && 0 <= next_left < left
        }),
{
}

} // verus!
