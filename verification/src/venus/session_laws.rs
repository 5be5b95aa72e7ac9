//! What a session and all sessions together promise their front end.

use vstd::prelude::*;

use crate::bytes::{first_index, first_index_is_first};
use crate::mmio::RegOp;
use crate::venus::backend::{
    after_quarantine, any_expired, capabilities, completions_without, create_fault, failure, has_id,
    is_resource_error, message_handled, message_read, next_of, of_active, pending_count,
    requests_without, round_ended, session_removed, swap_removed, BackendCompletion, BackendView,
    Capabilities, MessageStep, RoundView, RESOURCE_ERRORS,
};
use crate::venus::hfi_abi::{BufferRequirement, SequenceInfo};
use crate::venus::memory::{allocation_size, check_clean, check_invalidate, page_count};
use crate::venus::messages::{
    boot_exchanges, check_deadline, is_fatal, is_wanted, may_sleep, HFI_RESPONSE_TIMEOUT_US,
};
use crate::venus::nv12::{divided_up, Nv12Layout};
use crate::venus::reconfigure::{
    is_output, picture_bytes, pictures_needed, Phase, ReconfigurationView,
};
use crate::venus::registers::{
    acknowledge_interrupt, assert_arm9_reset, hfi_program, mask_interrupts, poll_boot,
    raise_host_interrupt, release_program, unmask_interrupts, BootPoll,
};
use crate::venus::session::{
    covers, dpb_packet, frontend_fault, is_expired, mapping_fault, message_step, output_fault,
    output_fill, submit_fault, tag_after, teardown_exchanges, DecodeRequest, DecodedFrame,
    DmaBuffer, FrontendMappings, PacketOutcome, SessionView, VideoInterface,
};
use crate::venus::setup::{
    answers, closing, opening, output_configuration, plan_of, reconfiguration_opening, release,
    response_verdict, work_mode, BufferPlan, EventView, ExchangeView, InternalBuffer, ProgressView,
    SetupPhase, SetupView, Wanted,
};

verus! {

// Requests.

/// A request is taken if and only if it is for this session and its format,
/// none is in flight, the access unit is not empty and lies in an input
/// buffer of at most 8 MiB, and the output buffer has up to 16 MiB.
pub proof fn requests_are_taken(
    session: SessionView,
    interface: VideoInterface,
    request: DecodeRequest,
)
    ensures
        submit_fault(session, interface, request) is None <==> {
            &&& request.stream_id == session.id
            &&& request.coded_format == interface.coded_h264
            &&& session.pending is None
            &&& 0 < request.input_len <= request.output_offset <= 0x80_0000
            &&& 0 < request.output_len <= 0x100_0000
        },
{
}

/// The buffers of a request are mapped if and only if the output buffer
/// follows the input buffer, and both got page aligned 32-bit addresses.
pub proof fn adjoining_buffers_are_mapped(
    request: DecodeRequest,
    input: Result<u64, ()>,
    output: Result<u64, ()>,
)
    ensures
        frontend_fault(request) is None <==> {
            &&& 0 < request.output_offset <= 0x80_0000
            &&& 0 < request.output_len <= 0x100_0000
            &&& request.output_paddr == request.input_paddr + request.output_offset
        },
        mapping_fault(input, output) is None <==> {
            &&& input is Ok && input->Ok_0 <= u32::MAX && input->Ok_0 % 4096 == 0
            &&& output is Ok && output->Ok_0 <= u32::MAX && output->Ok_0 % 4096 == 0
        },
{
}

/// Mappings serve another request if and only if both buffers are the same.
pub proof fn mappings_serve_the_same_buffers(
    mappings: FrontendMappings,
    first: DecodeRequest,
    second: DecodeRequest,
)
    requires
        covers(mappings, first),
    ensures
        covers(mappings, second) <==> {
            &&& first.input_paddr == second.input_paddr
            &&& first.output_paddr == second.output_paddr
            &&& first.output_offset == second.output_offset
            &&& first.output_len == second.output_len
        },
{
}

/// Tags count up from one and never become zero.
pub proof fn tags_count_up(tag: u32)
    requires
        tag > 0,
    ensures
        tag_after(tag) > 0,
        tag < u32::MAX ==> tag_after(tag) == tag + 1,
        tag == u32::MAX ==> tag_after(tag) == 1,
{
}

/// The firmware may write a frame 4096 bytes into the output buffer if it has
/// room there. It is handed the address, the size and the tag.
pub proof fn frames_go_behind_a_page(
    id: u32,
    mappings: FrontendMappings,
    layout: Nv12Layout,
    tag: u32,
    request: DecodeRequest,
)
    requires
        request.output_vaddr + 4096 <= usize::MAX,
    ensures
        ({
            let fill = output_fill(id, mappings, layout, tag, request);
            &&& fill is Ok <==> 4096 + layout.linear_size <= request.output_len
                && mappings.output_dma + 4096 <= u32::MAX
            &&& fill is Ok ==> fill->Ok_0.packet == seq![
                44u32,
                0x21_1005u32,
                id,
                1u32,
                0u32,
                layout.linear_size,
                0u32,
                tag,
                (mappings.output_dma + 4096) as u32,
                0u32,
                0u32,
            ]
            &&& fill is Ok ==> fill->Ok_0.clean_vaddr == request.output_vaddr + 4096
            &&& fill is Ok ==> fill->Ok_0.clean_len == layout.linear_size
        }),
{
}

/// A picture buffer is handed over in the first stream, under a tag from 32
/// on.
pub proof fn pictures_are_tagged(session: SessionView, index: int)
    requires
        session.wf(),
        0 <= index < session.dpbs.len(),
    ensures
        dpb_packet(session, index) == seq![
            44u32,
            0x21_1005u32,
            session.id,
            0u32,
            0u32,
            session.dpbs[index].size,
            0u32,
            (32 + index) as u32,
            session.dpbs[index].address,
            0u32,
            0u32,
        ],
{
}

/// A request is late after two seconds, and only while it is in flight.
pub proof fn requests_are_late_after_two_seconds(session: SessionView, now: u64)
    ensures
        session.pending is None ==> !is_expired(session, now),
        session.pending matches Some(pending) ==> (is_expired(session, now) <==> now >= 2_000_000
            + pending.submitted_at),
{
}

// Messages.

/// A completed frame in the second stream, without an error and under the tag
/// of the request in flight, ends that request; under another tag, or with
/// none in flight, it is an error and changes nothing.
pub proof fn a_completed_frame_ends_its_request(session: SessionView, words: Seq<u32>)
    requires
        words.len() >= 25,
        words[1] == 0x22_1008,
        words[2] == session.id,
        words[3] == 1,
    ensures
        ({
            let (after, outcome) = message_step(session, words);
            &&& words[5] == 0 && session.pending is Some && session.pending->Some_0.output_tag
                == words[21] ==> {
                &&& after == (SessionView { pending: None, ..session })
                &&& outcome is Ok && outcome->Ok_0 is Output
                &&& outcome->Ok_0->request == session.pending->Some_0.request
                &&& outcome->Ok_0->done.filled_len == words[13]
                &&& outcome->Ok_0->done.offset == words[14]
                &&& outcome->Ok_0->done.packet_buffer == words[23]
                &&& outcome->Ok_0->done.flags == words[8]
            }
            &&& words[5] != 0 || session.pending is None || session.pending->Some_0.output_tag
                != words[21] ==> outcome is Err && after == session
        }),
{
}

/// A picture buffer that comes back in the first stream is no longer with the
/// firmware. It is handed over again, unless the firmware still reads it (bit
/// 9 of the flags).
pub proof fn a_returned_picture_is_handed_over_again(
    session: SessionView,
    words: Seq<u32>,
    index: int,
)
    requires
        session.wf(),
        0 <= index < session.dpbs.len(),
        words.len() >= 25,
        words[1] == 0x22_1008,
        words[2] == session.id,
        words[3] == 0,
        words[5] == 0,
        words[21] == 32 + index,
    ensures
        ({
            let (after, outcome) = message_step(session, words);
            &&& after == (SessionView {
                dpb_queued: session.dpb_queued.update(index, false),
                ..session
            })
            &&& words[8] as int / 512 % 2 == 1 ==> outcome == Ok::<PacketOutcome, &'static str>(
                PacketOutcome::Nothing,
            )
            &&& words[8] as int / 512 % 2 == 0 ==> outcome == Ok::<PacketOutcome, &'static str>(
                PacketOutcome::RequeueDpb(index as usize),
            )
        }),
{
}

/// Once the firmware lets a picture buffer go that is not with it, the buffer
/// is handed over again; one that is with it is not.
pub proof fn a_released_picture_is_handed_over_again(
    session: SessionView,
    words: Seq<u32>,
    index: int,
)
    requires
        session.wf(),
        0 <= index < session.dpbs.len(),
        words.len() >= 9,
        words[1] == 0x2_1001,
        words[3] == 0x100_0006,
        words[8] == 32 + index,
    ensures
        ({
            let (after, outcome) = message_step(session, words);
            &&& after == session
            &&& !session.dpb_queued[index] ==> outcome == Ok::<PacketOutcome, &'static str>(
                PacketOutcome::RequeueDpb(index as usize),
            )
            &&& session.dpb_queued[index] ==> outcome == Ok::<PacketOutcome, &'static str>(
                PacketOutcome::Nothing,
            )
        }),
{
}

/// A stream is announced once: a second announcement is an error, and so is
/// an error event of the session or of the firmware.
pub proof fn a_second_announcement_is_refused(session: SessionView, words: Seq<u32>)
    requires
        words.len() >= 6,
        words[1] == 0x2_1001,
    ensures
        words[3] == 0x100_0003 && session.layout is Some ==> message_step(session, words).1 is Err,
        (words[2] == 0 || words[2] == session.id) && (words[3] == 1 || words[3] == 2)
            ==> message_step(session, words).1 is Err,
        message_step(session, words).0 == session,
{
}

/// A taken access unit says nothing, also where its output is pending
/// (0x1001001); another error is an error.
pub proof fn access_units_are_taken(session: SessionView, words: Seq<u32>)
    requires
        words.len() >= 4,
        words[1] == 0x22_1007,
    ensures
        message_step(session, words).0 == session,
        message_step(session, words).1 is Ok <==> words[3] == 0 || words[3] == 0x100_1001,
        message_step(session, words).1 matches Ok(outcome) ==> outcome is Nothing,
{
}

/// A frame is shown if and only if the stream and the mappings are known, the
/// firmware filled the buffer it was given, not more than the frame's size,
/// and the frame can be compacted.
pub proof fn the_filled_buffer_is_the_one_given(
    session: SessionView,
    interface: VideoInterface,
    request: DecodeRequest,
    done: crate::venus::hfi_abi::FillDone,
)
    requires
        output_fault(session, interface, request, done) is None,
    ensures
        session.layout is Some && session.mappings is Some,
        done.packet_buffer == session.mappings->Some_0.output_dma + 4096,
        0 < done.filled_len <= session.layout->Some_0.linear_size,
        request.output_len >= 4096,
        done.stream_id == 1,
{
}

/// A session is taken down in order: it is stopped, its resources and then
/// each of its buffers are taken back, and it is ended. Each step waits for
/// the answer of this session.
pub proof fn sessions_are_taken_down(session: SessionView, index: int)
    requires
        0 <= index < session.internal.len(),
    ensures
        ({
            let steps = teardown_exchanges(session);
            let id = session.id;
            let buffer = session.internal[index];
            &&& steps.len() == session.internal.len() + 3
            &&& steps[0].packet == seq![12u32, 0x21_1003u32, id]
            &&& steps[0].wanted == (Wanted::SessionMessage {
                response_type: 0x22_1003,
                session: id,
            })
            &&& steps[1].packet == seq![12u32, 0x21_100cu32, id]
            &&& steps[1].wanted == (Wanted::SessionMessage {
                response_type: 0x22_100a,
                session: id,
            })
            &&& steps[2 + index].packet == seq![
                36u32,
                0x21_100bu32,
                id,
                buffer.buffer_type,
                buffer.size,
                0u32,
                1u32,
                1u32,
                buffer.address,
            ]
            &&& steps[2 + index].wanted == (Wanted::SessionMessage {
                response_type: 0x22_100c,
                session: id,
            })
            &&& steps[steps.len() - 1].packet == seq![12u32, 0x1_0008u32, id]
            &&& steps[steps.len() - 1].wanted == (Wanted::SessionMessage {
                response_type: 0x2_0007,
                session: id,
            })
        }),
{
    let steps = teardown_exchanges(session);
    assert(steps[2 + index] == release(session.id, session.internal[index]));
}

// Setup.

/// A message answers a packet by its type, and by its session where one is
/// wanted.
pub proof fn answers_are_told_by_type_and_session(words: Seq<u32>, kind: u32, session: u32)
    requires
        words.len() >= 3,
    ensures
        !answers(words, Wanted::Nothing),
        answers(words, Wanted::Message { response_type: kind }) <==> words[1] == kind,
        answers(words, (Wanted::SessionMessage { response_type: kind, session })) <==> words[1]
            == kind && words[2] == session,
        answers(words, Wanted::PropertyInfo { session }) <==> words[1] == 0x22_1009 && words[2]
            == session,
{
}

/// A reply is good if its error is zero, or if it takes an access unit whose
/// output is pending.
pub proof fn good_replies_carry_no_error(words: Seq<u32>)
    requires
        words.len() >= 4,
        words[1] == 0x2_0006 || words[1] == 0x2_0007 || words[1] == 0x22_1001 || words[1]
            == 0x22_1002 || words[1] == 0x22_1003 || words[1] == 0x22_1007 || words[1] == 0x22_100a
            || words[1] == 0x22_100c,
    ensures
        response_verdict(words) is Ok <==> words[3] == 0 || (words[3] == 0x100_1001 && words[1]
            == 0x22_1007),
{
}

/// Frames of up to 3600 macroblocks of 16 by 16 pixels are decoded in the
/// first work mode, larger ones in the second.
pub proof fn large_frames_take_the_second_mode(layout: Nv12Layout, columns: int, rows: int)
    requires
        layout.width <= 16 * columns < layout.width + 16,
        layout.height <= 16 * rows < layout.height + 16,
    ensures
        columns * rows <= 3600 ==> work_mode(layout) == 1,
        columns * rows > 3600 ==> work_mode(layout) == 2,
{
    assert(divided_up(layout.width as int, 16) == columns);
    assert(divided_up(layout.height as int, 16) == rows);
}

/// The outputs are configured in eleven steps: compressed frames (type 2)
/// stay with the firmware, linear ones (type 3) are put out, at the sizes of
/// the layout.
pub proof fn the_outputs_are_configured(id: u32, layout: Nv12Layout)
    ensures
        ({
            let steps = reconfiguration_opening(id, layout);
            &&& steps.len() == 12
            &&& forall|i: int| 0 <= i < 11 ==> (#[trigger] steps[i]).wanted == Wanted::Nothing
            &&& steps[0].packet == seq![
                24u32,
                0x1_1001u32,
                id,
                1u32,
                0x1015u32,
                work_mode(layout),
            ]
            &&& steps[1].packet == seq![28u32, 0x1_1001u32, id, 1u32, 0x1003u32, 3u32, 2u32]
            &&& steps[2].packet == seq![28u32, 0x1_1001u32, id, 1u32, 0x100_3001u32, 2u32, 0u32]
            &&& steps[3].packet == seq![28u32, 0x1_1001u32, id, 1u32, 0x100_3001u32, 3u32, 1u32]
            &&& steps[4].packet == seq![28u32, 0x1_1001u32, id, 1u32, 0x1003u32, 2u32, 0x8002u32]
            &&& steps[5].packet == seq![
                32u32,
                0x1_1001u32,
                id,
                1u32,
                0x1001u32,
                3u32,
                layout.width,
                layout.height,
            ]
            &&& steps[6].packet == seq![
                32u32,
                0x1_1001u32,
                id,
                1u32,
                0x20_1001u32,
                1u32,
                4u32,
                4u32,
            ]
            &&& steps[7].packet == seq![
                32u32,
                0x1_1001u32,
                id,
                1u32,
                0x20_1001u32,
                2u32,
                32u32,
                32u32,
            ]
            &&& steps[8].packet == seq![
                32u32,
                0x1_1001u32,
                id,
                1u32,
                0x20_1001u32,
                3u32,
                32u32,
                32u32,
            ]
            &&& steps[9].packet == seq![
                28u32,
                0x1_1001u32,
                id,
                1u32,
                0x20_100cu32,
                2u32,
                layout.ubwc_size,
            ]
            &&& steps[10].packet == seq![
                28u32,
                0x1_1001u32,
                id,
                1u32,
                0x20_100cu32,
                3u32,
                layout.linear_size,
            ]
            &&& steps[11].packet == seq![20u32, 0x21_1009u32, id, 1u32, 0x20_2001u32]
            &&& steps[11].wanted == Wanted::PropertyInfo { session: id }
        }),
{
    let packets = output_configuration(id, layout);
    let steps = reconfiguration_opening(id, layout);
    assert(packets.len() == 11);
    assert forall|i: int| 0 <= i < 11 implies #[trigger] steps[i] == (ExchangeView {
        packet: packets[i],
        wanted: Wanted::Nothing,
    }) by {
    }
}

/// A session is opened for H.264 decoding, with a frame of 96 by 96 pixels
/// until the stream's own size is known, and in decode order.
pub proof fn sessions_are_opened(id: u32)
    ensures
        ({
            let steps = opening(id);
            &&& steps.len() == 15
            &&& steps[0].packet == seq![20u32, 0x1_0007u32, id, 2u32, 2u32]
            &&& steps[0].wanted == (Wanted::SessionMessage {
                response_type: 0x2_0006,
                session: id,
            })
            &&& steps[1].packet == seq![
                32u32,
                0x1_1001u32,
                id,
                1u32,
                0x1001u32,
                1u32,
                96u32,
                96u32,
            ]
            &&& steps[1].wanted == Wanted::Nothing
            &&& steps[2].packet == seq![
                24u32,
                0x1_1001u32,
                id,
                1u32,
                0x120_3005u32,
                0x100_0002u32,
            ]
            &&& steps[2].wanted == Wanted::Nothing
        }),
{
}

/// Internal buffers are planned from the requirements for the scratch types
/// (6, 7 and 8) and, unless only scratch is wanted, the persistent types (4
/// and 5): each adds as many buffers as it counts, of its type and size.
pub proof fn requirements_add_their_buffers(
    requirements: Seq<BufferRequirement>,
    next: BufferRequirement,
    scratch_only: bool,
    index: int,
)
    requires
        plan_of(requirements, scratch_only).fault is None,
    ensures
        ({
            let before = plan_of(requirements, scratch_only);
            let after = plan_of(requirements.push(next), scratch_only);
            let wanted = next.size > 0 && 4 <= next.buffer_type <= 8 && (next.buffer_type >= 6
                || !scratch_only);
            let possible = next.alignment <= 4096 && next.contiguous <= 1 && next.count_actual <= 8;
            &&& !wanted ==> after == before
            &&& wanted && !possible ==> after.buffers == before.buffers && after.fault is Some
            &&& wanted && possible ==> {
                &&& after.fault is None
                &&& after.buffers.len() == before.buffers.len() + next.count_actual
                &&& 0 <= index < before.buffers.len() ==> after.buffers[index]
                    == before.buffers[index]
                &&& before.buffers.len() <= index < after.buffers.len() ==> after.buffers[index]
                    == (BufferPlan { buffer_type: next.buffer_type, size: next.size })
            }
        }),
{
    assert(requirements.push(next).drop_last() =~= requirements);
}

/// Nothing is planned behind a requirement that cannot be met.
pub proof fn a_bad_requirement_ends_the_plan(
    requirements: Seq<BufferRequirement>,
    next: BufferRequirement,
    scratch_only: bool,
)
    requires
        plan_of(requirements, scratch_only).fault is Some,
    ensures
        plan_of(requirements.push(next), scratch_only) == plan_of(requirements, scratch_only),
{
    assert(requirements.push(next).drop_last() =~= requirements);
}

/// An allocated buffer has the type and the size that was planned. As long as
/// buffers are missing the next one is asked for; then each is handed over,
/// and the session is loaded and started.
pub proof fn granted_buffers_are_the_planned_ones(setup: SetupView, address: u32)
    requires
        setup.wf(),
        setup.phase == SetupPhase::Allocating,
        setup.granted.len() < setup.plan.buffers.len(),
    ensures
        ({
            let (after, progress) = setup.step(EventView::Allocated(address));
            let have = setup.granted.len() as int;
            let planned = setup.plan.buffers[have];
            &&& after.granted == setup.granted.push(
                InternalBuffer { buffer_type: planned.buffer_type, size: planned.size, address },
            )
            &&& have + 1 < setup.plan.buffers.len() ==> progress == ProgressView::Allocate(
                setup.plan.buffers[have + 1].size,
            )
            &&& have + 1 == setup.plan.buffers.len() && setup.plan.fault is Some ==> progress
                == ProgressView::Failed(setup.plan.fault->Some_0)
            &&& have + 1 == setup.plan.buffers.len() && setup.plan.fault is None ==> {
                let first = after.granted[0];
                &&& progress is Exchange
                &&& progress->Exchange_0.packet == seq![
                    36u32,
                    0x1_1002u32,
                    setup.id,
                    first.buffer_type,
                    first.size,
                    0u32,
                    first.size,
                    1u32,
                    first.address,
                ]
                &&& after.batch.len() == after.granted.len() + 1
            }
        }),
{
}

/// After the buffers, the session's resources are loaded and it is started.
pub proof fn sessions_are_started(id: u32, buffers: Seq<InternalBuffer>, index: int)
    requires
        0 <= index < buffers.len(),
    ensures
        ({
            let steps = closing(id, buffers);
            let buffer = buffers[index];
            &&& steps.len() == buffers.len() + 2
            &&& steps[index].wanted == Wanted::Nothing
            &&& steps[index].packet == seq![
                36u32,
                0x1_1002u32,
                id,
                buffer.buffer_type,
                buffer.size,
                0u32,
                buffer.size,
                1u32,
                buffer.address,
            ]
            &&& steps[buffers.len() as int].packet == seq![12u32, 0x21_1001u32, id]
            &&& steps[buffers.len() as int].wanted == (Wanted::SessionMessage {
                response_type: 0x22_1001,
                session: id,
            })
            &&& steps[steps.len() - 1].packet == seq![12u32, 0x21_1002u32, id]
            &&& steps[steps.len() - 1].wanted == (Wanted::SessionMessage {
                response_type: 0x22_1002,
                session: id,
            })
        }),
{
}

// Reconfiguration.

/// There are as many picture buffers as the firmware requires and as the
/// stream announced, at least one, and no more; each holds what the firmware
/// requires and a compressed frame, and no more.
pub proof fn picture_buffers_suffice(
    requirements: Seq<BufferRequirement>,
    sequence: SequenceInfo,
    layout: Nv12Layout,
    index: int,
)
    requires
        0 <= index < requirements.len(),
        requirements[index].buffer_type == 2,
        forall|i: int| 0 <= i < index ==> (#[trigger] requirements[i]).buffer_type != 2,
    ensures
        ({
            let count = pictures_needed(requirements, sequence);
            let size = picture_bytes(requirements, layout);
            &&& count >= 1 && count >= sequence.minimum_dpb_count && count
                >= requirements[index].count_min
            &&& count == 1 || count == sequence.minimum_dpb_count || count
                == requirements[index].count_min
            &&& size >= layout.ubwc_size && size >= requirements[index].size
            &&& size == layout.ubwc_size || size == requirements[index].size
        }),
{
    first_index_is_first(requirements, is_output(), 0);
    match first_index(requirements, is_output(), 0) {
        Some(found) => {
            assert(is_output()(requirements[found]));
            assert(found <= index) by {
                if found > index {
                    assert(!is_output()(requirements[index]));
                }
            }
            assert(found == index);
        },
        None => {
            assert(!is_output()(requirements[index]));
        },
    }
}

/// A picture buffer joins the session with its address and the planned size.
/// When all are there, the stream is continued and each is handed over.
pub proof fn pictures_join_the_session(
    procedure: ReconfigurationView,
    session: SessionView,
    address: u32,
)
    requires
        procedure.wf(session),
        procedure.phase == Phase::AllocatingPictures,
    ensures
        ({
            let (after, grown, progress) = procedure.step(session, EventView::Allocated(address));
            &&& grown.dpbs == session.dpbs.push(
                DmaBuffer { address, size: procedure.picture_size },
            )
            &&& grown.dpb_queued == session.dpb_queued.push(false)
            &&& grown.dpbs.len() < procedure.picture_count ==> progress == ProgressView::Allocate(
                procedure.picture_size,
            )
            &&& grown.dpbs.len() == procedure.picture_count ==> {
                &&& progress is Exchange
                &&& progress->Exchange_0.packet == seq![12u32, 0x21_100du32, session.id]
                &&& after.batch.len() == grown.dpbs.len()
                &&& forall|i: int|
                    0 <= i < grown.dpbs.len() ==> (#[trigger] after.batch[i]).packet == dpb_packet(
                        grown,
                        i,
                    )
            }
        }),
{
}

/// Each picture buffer is marked when it has been handed over, and the layout
/// is in force after the last.
pub proof fn handed_over_pictures_are_marked(
    procedure: ReconfigurationView,
    session: SessionView,
    words: Seq<u32>,
)
    requires
        procedure.wf(session),
        procedure.phase == Phase::Queueing,
    ensures
        ({
            let (after, marked, progress) = procedure.step(session, EventView::Answered(words));
            &&& procedure.queued == 0 ==> marked.dpb_queued == session.dpb_queued
            &&& procedure.queued > 0 ==> marked.dpb_queued == session.dpb_queued.update(
                procedure.queued - 1,
                true,
            )
            &&& procedure.batch.len() > 0 ==> progress == ProgressView::Exchange(
                procedure.batch[0],
            ) && marked.layout == session.layout
            &&& procedure.batch.len() == 0 ==> progress is Done && marked.layout == Some(
                procedure.layout,
            )
        }),
{
}

// All sessions.

/// A session is created if and only if its format is H.264, fewer than 16 are
/// open, and the firmware is not quarantined while others are open.
pub proof fn sessions_are_created(
    backend: BackendView,
    interface: VideoInterface,
    coded_format: u32,
)
    ensures
        create_fault(backend, interface, coded_format) is None <==> {
            &&& coded_format == interface.coded_h264
            &&& backend.sessions.len() < 16
            &&& !backend.failed || backend.sessions.len() == 0
        },
{
}

/// The errors that stay with one session.
pub proof fn resource_errors_are_listed()
    ensures
        is_resource_error("qcom-venus-sc7180: paged DMA allocation failed"),
        is_resource_error("qcom-venus-sc7180: paged DMA length overflows"),
        is_resource_error("qcom-venus-sc7180: paged DMA mapping failed"),
        is_resource_error("qcom-venus-sc7180: firmware requires a 32-bit DMA address"),
        is_resource_error("qcom-venus-sc7180: invalid frontend input-buffer size"),
        is_resource_error("qcom-venus-sc7180: invalid frontend output-buffer size"),
        is_resource_error("qcom-venus-sc7180: frontend buffer range overflows"),
        is_resource_error("qcom-venus-sc7180: frontend buffers are not contiguous"),
        is_resource_error("qcom-venus-sc7180: failed to map frontend input"),
        is_resource_error("qcom-venus-sc7180: failed to map frontend output"),
        is_resource_error("qcom-venus-sc7180: frontend DMA address exceeds HFI 32-bit range"),
        is_resource_error("qcom-venus-sc7180: frontend DMA buffers are not page aligned"),
        is_resource_error("qcom-venus-sc7180: invalid H.264 access-unit size"),
        is_resource_error("qcom-venus-sc7180: decoded frame exceeds frontend output buffer"),
{
    assert(RESOURCE_ERRORS[0]@ == "qcom-venus-sc7180: paged DMA allocation failed"@);
    assert(RESOURCE_ERRORS[1]@ == "qcom-venus-sc7180: paged DMA length overflows"@);
    assert(RESOURCE_ERRORS[2]@ == "qcom-venus-sc7180: paged DMA mapping failed"@);
    assert(RESOURCE_ERRORS[3]@ == "qcom-venus-sc7180: firmware requires a 32-bit DMA address"@);
    assert(RESOURCE_ERRORS[4]@ == "qcom-venus-sc7180: invalid frontend input-buffer size"@);
    assert(RESOURCE_ERRORS[5]@ == "qcom-venus-sc7180: invalid frontend output-buffer size"@);
    assert(RESOURCE_ERRORS[6]@ == "qcom-venus-sc7180: frontend buffer range overflows"@);
    assert(RESOURCE_ERRORS[7]@ == "qcom-venus-sc7180: frontend buffers are not contiguous"@);
    assert(RESOURCE_ERRORS[8]@ == "qcom-venus-sc7180: failed to map frontend input"@);
    assert(RESOURCE_ERRORS[9]@ == "qcom-venus-sc7180: failed to map frontend output"@);
    assert(RESOURCE_ERRORS[10]@
        == "qcom-venus-sc7180: frontend DMA address exceeds HFI 32-bit range"@);
    assert(RESOURCE_ERRORS[11]@
        == "qcom-venus-sc7180: frontend DMA buffers are not page aligned"@);
    assert(RESOURCE_ERRORS[12]@ == "qcom-venus-sc7180: invalid H.264 access-unit size"@);
    assert(RESOURCE_ERRORS[13]@
        == "qcom-venus-sc7180: decoded frame exceeds frontend output buffer"@);
}

/// The first queued request of an open stream is submitted to its session,
/// and leaves the queue.
pub proof fn the_first_request_is_submitted(backend: BackendView, round: RoundView, index: int)
    requires
        backend.wf(),
        round.requests.len() > 0,
        backend.active.contains(round.requests[0].stream_id),
        !backend.failed,
        backend.core,
        0 <= index < backend.sessions.len(),
        backend.sessions[index].id == round.requests[0].stream_id,
    ensures
        next_of(backend, round).0 == backend,
        next_of(backend, round).1.requests == round.requests.drop_first(),
        next_of(backend, round).1.completions == round.completions,
        next_of(backend, round).2 == Some((round.requests[0], index)),
{
    a_session_is_found_by_its_identifier(backend, index);
}

/// A session is found by its identifier.
pub proof fn a_session_is_found_by_its_identifier(backend: BackendView, index: int)
    requires
        backend.wf(),
        0 <= index < backend.sessions.len(),
    ensures
        backend.find(backend.sessions[index].id) == Some(index),
{
    let id = backend.sessions[index].id;
    first_index_is_first(backend.sessions, has_id(id), 0);
    match first_index(backend.sessions, has_id(id), 0) {
        Some(found) => {
            assert(has_id(id)(backend.sessions[found]));
            if found < index {
                assert(backend.sessions[found].id != backend.sessions[index].id);
            } else if index < found {
                assert(!has_id(id)(backend.sessions[index]));
            }
        },
        None => {
            assert(!has_id(id)(backend.sessions[index]));
        },
    }
}

/// A request of a closed stream is dropped without a word; one of an open
/// stream is answered with an error while the firmware is quarantined.
pub proof fn requests_of_closed_streams_are_dropped(backend: BackendView, round: RoundView)
    requires
        round.requests.len() > 0,
    ensures
        ({
            let rest = RoundView { requests: round.requests.drop_first(), ..round };
            let id = round.requests[0].stream_id;
            &&& !backend.active.contains(id) ==> next_of(backend, round) == next_of(backend, rest)
            &&& backend.active.contains(id) && backend.failed ==> exists|error: &'static str|
                next_of(backend, round) == next_of(
                    backend,
                    RoundView {
                        completions: round.completions.push(#[trigger] failure(id, error)),
                        ..rest
                    },
                )
        }),
{
    let rest = RoundView { requests: round.requests.drop_first(), ..round };
    let id = round.requests[0].stream_id;
    let error = "qcom-venus-sc7180: firmware is quarantined; recreate the session";
    if backend.active.contains(id) && backend.failed {
        let answered = RoundView {
            completions: round.completions.push(failure(id, error)),
            ..rest
        };
        assert(next_of(backend, round) == next_of(backend, answered));
    }
}

/// A message goes to the session it names; one that names none is skipped,
/// and an error of the firmware, or of reading, ends the round.
pub proof fn messages_go_to_their_session(
    backend: BackendView,
    round: RoundView,
    words: Seq<u32>,
    index: int,
)
    requires
        backend.wf(),
        words.len() >= 4,
        0 <= index < backend.sessions.len(),
    ensures
        words[1] != 0x2_1001 && words[2] == backend.sessions[index].id ==> message_read(
            backend,
            round,
            Ok(Some(words)),
        ).2 == MessageStep::Handle(index as usize),
        words[1] == 0x2_1001 && words[2] == 0 && (words[3] == 1 || words[3] == 2) ==> ({
            let (after, _, step) = message_read(backend, round, Ok(Some(words)));
            step is Quarantined && after.failed
        }),
        message_read(backend, round, Ok(None)) == (backend, round, MessageStep::Stop),
        message_read(backend, round, Err("")).0.failed,
{
    a_session_is_found_by_its_identifier(backend, index);
}

/// A handled message that brings a frame reports it once, to its session; one
/// that fails ends the session's request and reports the failure.
pub proof fn handled_messages_are_reported(
    backend: BackendView,
    round: RoundView,
    index: int,
    frame: DecodedFrame,
    error: &'static str,
)
    requires
        0 <= index < backend.sessions.len(),
    ensures
        message_handled(backend, round, index, Ok(None)) == (backend, round),
        message_handled(backend, round, index, Ok(Some(frame))).1.completions
            == round.completions.push(
            BackendCompletion { stream_id: backend.sessions[index].id, result: Ok(frame) },
        ),
        message_handled(backend, round, index, Ok(Some(frame))).0.sessions == backend.sessions,
        message_handled(backend, round, index, Err(error)).1.completions
            == round.completions.push(
            BackendCompletion { stream_id: backend.sessions[index].id, result: Err(error) },
        ),
        message_handled(backend, round, index, Err(error)).0.sessions[index].pending is None,
        !backend.failed ==> !message_handled(backend, round, index, Err(error)).0.failed,
{
}

/// A late request quarantines the firmware at the end of a round; without
/// one, the end of a round changes only the count of requests in flight.
pub proof fn late_requests_quarantine_the_firmware(
    backend: BackendView,
    round: RoundView,
    now: u64,
    index: int,
)
    requires
        0 <= index < backend.sessions.len(),
        !backend.failed,
    ensures
        backend.sessions[index].pending is Some && now >= 2_000_000
            + backend.sessions[index].pending->Some_0.submitted_at ==> ({
            let (after, _) = round_ended(backend, round, now);
            after.failed && after.sessions[index].pending is None
        }),
        (forall|i: int|
            0 <= i < backend.sessions.len() ==> ((#[trigger] backend.sessions[i]).pending
                matches Some(pending) ==> now < 2_000_000 + pending.submitted_at)) ==> round_ended(
            backend,
            round,
            now,
        ) == (
            BackendView { inflight: pending_count(backend.sessions), ..backend },
            round,
        ),
{
    if backend.sessions[index].pending is Some && now >= 2_000_000
        + backend.sessions[index].pending->Some_0.submitted_at {
        assert(is_expired(backend.sessions[index], now));
        assert(any_expired(backend.sessions, now));
    }
}

/// Each session with a request counts once.
pub proof fn requests_in_flight_are_counted(sessions: Seq<SessionView>, next: SessionView)
    ensures
        next.pending is Some ==> pending_count(sessions.push(next)) == pending_count(sessions) + 1,
        next.pending is None ==> pending_count(sessions.push(next)) == pending_count(sessions),
        pending_count(Seq::empty()) == 0,
{
    assert(sessions.push(next).drop_last() =~= sessions);
}

/// What happens to an open stream is reported, in order.
pub proof fn open_streams_hear_everything(
    completions: Seq<BackendCompletion>,
    next: BackendCompletion,
    active: Seq<u32>,
)
    ensures
        active.contains(next.stream_id) ==> of_active(completions.push(next), active) == of_active(
            completions,
            active,
        ).push(next),
        !active.contains(next.stream_id) ==> of_active(completions.push(next), active)
            == of_active(completions, active),
{
    assert(completions.push(next).drop_last() =~= completions);
}

/// Closing a stream leaves what belongs to the others as it was, in order.
pub proof fn the_other_streams_keep_theirs(
    requests: Seq<DecodeRequest>,
    request: DecodeRequest,
    completions: Seq<BackendCompletion>,
    completion: BackendCompletion,
    stream_id: u32,
)
    requires
        request.stream_id != stream_id,
        completion.stream_id != stream_id,
    ensures
        requests_without(requests.push(request), stream_id) == requests_without(
            requests,
            stream_id,
        ).push(request),
        completions_without(completions.push(completion), stream_id) == completions_without(
            completions,
            stream_id,
        ).push(completion),
{
    assert(requests.push(request).drop_last() =~= requests);
    assert(completions.push(completion).drop_last() =~= completions);
}

/// A removed item leaves; the last one takes its place, and the others stay
/// where they are.
pub proof fn the_last_takes_the_removed_place<T>(list: Seq<T>, index: int, other: int)
    requires
        0 <= index < list.len(),
        0 <= other < list.len() - 1,
    ensures
        swap_removed(list, index).len() == list.len() - 1,
        other != index ==> swap_removed(list, index)[other] == list[other],
        other == index ==> swap_removed(list, index)[other] == list[list.len() - 1],
{
}

// Registers.

/// The firmware's region is opened to its processor from zero to its size,
/// and the processor released last.
pub proof fn the_processor_is_released_last(size: u32)
    ensures
        release_program(size) == seq![
            RegOp::Write { offset: 0xe1028, value: 0 },
            RegOp::Write { offset: 0xe102c, value: size },
            RegOp::Write { offset: 0xe1020, value: 0 },
            RegOp::Write { offset: 0xe1024, value: size },
            RegOp::Write { offset: 0xe1030, value: size },
            RegOp::Write { offset: 0xe1034, value: size },
            RegOp::Write { offset: 0xe2010, value: 0 },
            RegOp::Write { offset: 0xe2000, value: 0 },
            RegOp::Write { offset: 0xe3000, value: 0 },
            RegOp::Barrier,
        ],
{
}

/// The firmware is given the queues, their size and, if there is one, the
/// place for its last words, before it is asked to start.
pub proof fn the_firmware_is_given_its_queues(queue: u32, size: u32, last_words: u32)
    requires
        last_words != 0,
    ensures
        hfi_program(queue, size, last_words) == seq![
            RegOp::Write { offset: 0xd2064, value: queue },
            RegOp::Write { offset: 0xd2068, value: size },
            RegOp::Write { offset: 0xd2054, value: queue },
            RegOp::Write { offset: 0xd2050, value: 1 },
            RegOp::Write { offset: 0xd205c, value: last_words },
            RegOp::Write { offset: 0xe0010, value: 8 },
            RegOp::Write { offset: 0xd2048, value: 1 },
            RegOp::Barrier,
        ],
        hfi_program(queue, size, 0) == seq![
            RegOp::Write { offset: 0xd2064, value: queue },
            RegOp::Write { offset: 0xd2068, value: size },
            RegOp::Write { offset: 0xd2054, value: queue },
            RegOp::Write { offset: 0xd2050, value: 1 },
            RegOp::Write { offset: 0xe0010, value: 8 },
            RegOp::Write { offset: 0xd2048, value: 1 },
            RegOp::Barrier,
        ],
{
    assert(hfi_program(queue, size, 0) =~= seq![
        RegOp::Write { offset: 0xd2064, value: queue },
        RegOp::Write { offset: 0xd2068, value: size },
        RegOp::Write { offset: 0xd2054, value: queue },
        RegOp::Write { offset: 0xd2050, value: 1 },
        RegOp::Write { offset: 0xe0010, value: 8 },
        RegOp::Write { offset: 0xd2048, value: 1 },
        RegOp::Barrier,
    ]);
}

/// The interrupts of the codec: reset, doorbell, acknowledgement and masks.
pub proof fn interrupts_have_their_registers(
    status: u32,
    reset: [RegOp; 2],
    doorbell: [RegOp; 2],
    cleared: [RegOp; 3],
    masked: [RegOp; 2],
    unmasked: [RegOp; 2],
)
    requires
        call_ensures(assert_arm9_reset, (), reset),
        call_ensures(raise_host_interrupt, (), doorbell),
        call_ensures(acknowledge_interrupt, (status,), cleared),
        call_ensures(mask_interrupts, (), masked),
        call_ensures(unmask_interrupts, (), unmasked),
    ensures
        reset@ == seq![RegOp::Update { offset: 0xe3000, clear: 0, set: 0x10 }, RegOp::Barrier],
        doorbell@ == seq![RegOp::Write { offset: 0xdf018, value: 0x8000 }, RegOp::Barrier],
        cleared@ == seq![
            RegOp::Write { offset: 0xd201c, value: 1 },
            RegOp::Write { offset: 0xe0014, value: status },
            RegOp::Barrier,
        ],
        masked@ == seq![RegOp::Write { offset: 0xe0010, value: 0x1c }, RegOp::Barrier],
        unmasked@ == seq![RegOp::Write { offset: 0xe0010, value: 8 }, RegOp::Barrier],
{
}

/// The firmware is up when bit 0 of its status is set, whatever else it says
/// and however late. Before that, an error code of 4 in bits 1 to 7 refuses
/// its region, and after a tenth of a second it is given up.
pub proof fn the_lowest_bit_reports_readiness(status: u32, start: u64, now: u64, r: BootPoll)
    requires
        call_ensures(poll_boot, (status, start, now), r),
    ensures
        status % 2 == 1 <==> r is Ready,
        r matches BootPoll::Ready(value) ==> value == status,
        status % 2 == 0 && status % 256 == 4 ==> r is Failed,
        status % 2 == 0 && status % 256 != 4 ==> (r is Failed <==> now >= start + 100_000),
        r matches BootPoll::Wait(us) ==> us == 50,
{
    assert(status as int / 2 % 0x80 == status as int % 256 / 2);
}

// Backend.

/// A session that is taken out leaves the others as they are, and with it
/// goes the request it had in flight.
pub proof fn removed_sessions_leave_the_others(backend: BackendView, index: int, other: int)
    requires
        0 <= index < backend.sessions.len(),
        0 <= other < backend.sessions.len(),
        other != index,
    ensures
        ({
            let after = session_removed(backend, index);
            &&& after.sessions.len() == backend.sessions.len() - 1
            &&& after.sessions.contains(backend.sessions[other])
            &&& after.inflight == pending_count(after.sessions)
            &&& after.queued == backend.queued && after.active == backend.active
            &&& after.core == backend.core && after.failed == backend.failed
        }),
{
    let after = session_removed(backend, index).sessions;
    if other == backend.sessions.len() - 1 {
        assert(after[index] == backend.sessions[other]);
    } else {
        assert(after[other] == backend.sessions[other]);
    }
}

/// A quarantine lasts as long as there are sessions; then the core is started
/// anew by the next one.
pub proof fn quarantines_end_with_the_last_session(backend: BackendView)
    ensures
        backend.sessions.len() > 0 ==> after_quarantine(backend) == backend,
        backend.sessions.len() == 0 ==> {
            let after = after_quarantine(backend);
            &&& !after.core && !after.failed && after.last_error is None
            &&& after.sessions.len() == 0 && after.queued == backend.queued
            &&& after.completions == backend.completions && after.active == backend.active
        },
{
}

/// The core takes sixteen sessions, four requests in flight, 8 MiB in and
/// 16 MiB out, and decodes H.264 alone.
pub proof fn capabilities_are_those_of_the_core(interface: VideoInterface, r: Capabilities)
    requires
        call_ensures(capabilities, (&interface,), r),
    ensures
        r.max_sessions == 16 && r.max_inflight_decodes == 4,
        r.mapped_input_len == 0x80_0000 && r.mapped_output_len == 0x100_0000,
        r.output_pixel_format == interface.pixel_nv12,
        r.supports_h264 && !r.supports_av1 && !r.supports_hevc && !r.supports_stateless_h264,
{
}

// Memory and waits.

/// Memory is taken in pages of 4096 bytes: the fewest that hold the size.
pub proof fn memory_is_taken_in_pages(
    size: usize,
    pages: Result<usize, &'static str>,
    whole: Result<usize, &'static str>,
)
    requires
        call_ensures(page_count, (size,), pages),
        pages is Ok ==> call_ensures(allocation_size, (pages->Ok_0,), whole),
    ensures
        pages is Ok <==> size > 0 && size + 4095 <= usize::MAX,
        pages is Ok ==> whole is Ok && size <= whole->Ok_0 < size + 4096 && whole->Ok_0 == 4096
            * pages->Ok_0,
{
}

/// A range is cleaned or invalidated if and only if it lies in its allocation.
pub proof fn ranges_lie_in_their_allocation(
    offset: usize,
    len: usize,
    size: usize,
    clean: Result<(), &'static str>,
    invalidate: Result<(), &'static str>,
)
    requires
        call_ensures(check_clean, (offset, len, size), clean),
        call_ensures(check_invalidate, (offset, len, size), invalidate),
    ensures
        clean is Ok <==> offset + len <= size,
        invalidate is Ok <==> offset + len <= size,
{
}

/// A wait is over when its time has passed.
pub proof fn waits_last_their_time(
    start: u64,
    now: u64,
    timeout_us: u64,
    r: Result<(), &'static str>,
)
    requires
        call_ensures(check_deadline, (start, now, timeout_us), r),
    ensures
        r is Ok <==> timeout_us > 0 && now < start + timeout_us,
{
}

/// The firmware is initialized, told to log errors alone, and kept powered;
/// only the first command is answered.
pub proof fn the_firmware_is_booted()
    ensures
        ({
            let steps = boot_exchanges();
            &&& steps.len() == 3
            &&& steps[0].packet == seq![12u32, 0x1_0001u32, 1u32]
            &&& steps[0].wanted == Wanted::Message { response_type: 0x2_0001 }
            &&& steps[1].packet == seq![24u32, 0x1_0005u32, 1u32, 1u32, 0x18u32, 1u32]
            &&& steps[2].packet == seq![20u32, 0x1_0005u32, 1u32, 5u32, 0u32]
            &&& steps[1].wanted is Nothing && steps[2].wanted is Nothing
        }),
{
}

/// A kept message ends a wait where it reports that the firmware failed, and
/// answers it where type and session fit.
pub proof fn kept_messages_are_looked_through(message: Seq<u32>, session: u32, response_type: u32)
    ensures
        is_fatal()(message) <==> {
            &&& message.len() > 3 && message[1] == 0x2_1001 && message[2] == 0
            &&& message[3] == 1 || message[3] == 2
        },
        is_wanted(Wanted::SessionMessage { response_type, session })(message) <==> {
            &&& message.len() > 2
            &&& message[1] == response_type && message[2] == session
        },
        is_wanted(Wanted::Message { response_type })(message) <==> message.len() > 1 && message[1]
            == response_type,
        !is_wanted(Wanted::Nothing)(message),
{
}

/// A reply is waited for up to a second; the first 50 microseconds are spent
/// spinning, and so is every wait that must not depend on the scheduler.
pub proof fn waits_spin_at_first(
    start: u64,
    now: u64,
    allow_sleep: bool,
    has_task: bool,
    r: bool,
    in_time: Result<(), &'static str>,
)
    requires
        call_ensures(may_sleep, (start, now, allow_sleep, has_task), r),
        call_ensures(check_deadline, (start, now, HFI_RESPONSE_TIMEOUT_US), in_time),
    ensures
        r <==> allow_sleep && has_task && now >= start + 50,
        in_time is Ok <==> now < start + 1_000_000,
{
}

} // verus!
