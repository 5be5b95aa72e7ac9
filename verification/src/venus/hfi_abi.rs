//! Venus HFI 4xx packets. A packet is an array of 32-bit words whose first
//! word is its size in bytes.

use vstd::prelude::*;

verus! {

pub const HFI_CMD_SYS_INIT: u32 = 0x0001_0001;

pub const HFI_CMD_SYS_SET_PROPERTY: u32 = 0x0001_0005;

pub const HFI_CMD_SYS_SESSION_INIT: u32 = 0x0001_0007;

pub const HFI_CMD_SYS_SESSION_END: u32 = 0x0001_0008;

pub const HFI_CMD_SESSION_SET_PROPERTY: u32 = 0x0001_1001;

pub const HFI_CMD_SESSION_SET_BUFFERS: u32 = 0x0001_1002;

pub const HFI_CMD_SESSION_LOAD_RESOURCES: u32 = 0x0021_1001;

pub const HFI_CMD_SESSION_START: u32 = 0x0021_1002;

pub const HFI_CMD_SESSION_STOP: u32 = 0x0021_1003;

pub const HFI_CMD_SESSION_EMPTY_BUFFER: u32 = 0x0021_1004;

pub const HFI_CMD_SESSION_FILL_BUFFER: u32 = 0x0021_1005;

pub const HFI_CMD_SESSION_GET_PROPERTY: u32 = 0x0021_1009;

pub const HFI_CMD_SESSION_RELEASE_BUFFERS: u32 = 0x0021_100b;

pub const HFI_CMD_SESSION_RELEASE_RESOURCES: u32 = 0x0021_100c;

pub const HFI_CMD_SESSION_CONTINUE: u32 = 0x0021_100d;

pub const HFI_MSG_SYS_INIT: u32 = 0x0002_0001;

pub const HFI_MSG_SYS_SESSION_INIT: u32 = 0x0002_0006;

pub const HFI_MSG_SYS_SESSION_END: u32 = 0x0002_0007;

pub const HFI_MSG_EVENT_NOTIFY: u32 = 0x0002_1001;

pub const HFI_MSG_SESSION_LOAD_RESOURCES: u32 = 0x0022_1001;

pub const HFI_MSG_SESSION_START: u32 = 0x0022_1002;

pub const HFI_MSG_SESSION_STOP: u32 = 0x0022_1003;

pub const HFI_MSG_SESSION_EMPTY_BUFFER: u32 = 0x0022_1007;

pub const HFI_MSG_SESSION_FILL_BUFFER: u32 = 0x0022_1008;

pub const HFI_MSG_SESSION_PROPERTY_INFO: u32 = 0x0022_1009;

pub const HFI_MSG_SESSION_RELEASE_RESOURCES: u32 = 0x0022_100a;

pub const HFI_MSG_SESSION_RELEASE_BUFFERS: u32 = 0x0022_100c;

pub const HFI_EVENT_SYS_ERROR: u32 = 0x1;

pub const HFI_EVENT_SESSION_ERROR: u32 = 0x2;

pub const HFI_EVENT_DATA_SEQUENCE_CHANGED_SUFFICIENT: u32 = 0x0100_0001;

pub const HFI_EVENT_DATA_SEQUENCE_CHANGED_INSUFFICIENT: u32 = 0x0100_0002;

pub const HFI_EVENT_SESSION_SEQUENCE_CHANGED: u32 = 0x0100_0003;

pub const HFI_EVENT_RELEASE_BUFFER_REFERENCE: u32 = 0x0100_0006;

pub const HFI_ERR_NONE: u32 = 0;

pub const HFI_ERR_SESSION_EMPTY_BUFFER_DONE_OUTPUT_PENDING: u32 = 0x0100_1001;

pub const HFI_BUFFERFLAG_ENDOFFRAME: u32 = 0x10;

pub const HFI_BUFFER_INPUT: u32 = 0x1;

pub const HFI_BUFFER_OUTPUT: u32 = 0x2;

pub const HFI_BUFFER_OUTPUT2: u32 = 0x3;

pub const HFI_BUFFER_INTERNAL_PERSIST: u32 = 0x4;

pub const HFI_BUFFER_INTERNAL_PERSIST_1: u32 = 0x5;

pub const HFI_BUFFER_INTERNAL_SCRATCH: u32 = 0x6;

pub const HFI_BUFFER_INTERNAL_SCRATCH_1: u32 = 0x7;

pub const HFI_BUFFER_INTERNAL_SCRATCH_2: u32 = 0x8;

pub const HFI_PROPERTY_SYS_DEBUG_CONFIG: u32 = 0x1;

pub const HFI_PROPERTY_SYS_CODEC_POWER_PLANE_CTRL: u32 = 0x5;

pub const HFI_PROPERTY_PARAM_FRAME_SIZE: u32 = 0x1001;

pub const HFI_PROPERTY_PARAM_UNCOMPRESSED_FORMAT_SELECT: u32 = 0x1003;

pub const HFI_PROPERTY_PARAM_PROFILE_LEVEL_CURRENT: u32 = 0x1005;

pub const HFI_PROPERTY_PARAM_WORK_MODE: u32 = 0x1015;

pub const HFI_PROPERTY_PARAM_BUFFER_COUNT_ACTUAL: u32 = 0x0020_1001;

pub const HFI_PROPERTY_PARAM_BUFFER_SIZE_ACTUAL: u32 = 0x0020_100c;

pub const HFI_PROPERTY_CONFIG_BUFFER_REQUIREMENTS: u32 = 0x0020_2001;

pub const HFI_PROPERTY_PARAM_VDEC_MULTI_STREAM: u32 = 0x0100_3001;

pub const HFI_PROPERTY_PARAM_VDEC_PIXEL_BITDEPTH: u32 = 0x0100_3007;

pub const HFI_PROPERTY_PARAM_VDEC_PIC_STRUCT: u32 = 0x0100_3009;

pub const HFI_PROPERTY_PARAM_VDEC_COLOUR_SPACE: u32 = 0x0100_300a;

pub const HFI_PROPERTY_PARAM_VDEC_OUTPUT_ORDER: u32 = 0x0120_3005;

pub const HFI_PROPERTY_PARAM_VDEC_DPB_COUNTS: u32 = 0x0120_300e;

pub const HFI_PROPERTY_CONFIG_VDEC_ENTROPY: u32 = 0x0120_4004;

pub const HFI_INDEX_EXTRADATA_INPUT_CROP: u32 = 0x0700_000e;

pub const HFI_COLOR_FORMAT_NV12: u32 = 0x2;

pub const HFI_COLOR_FORMAT_NV12_UBWC: u32 = 0x8002;

pub const HFI_VIDEO_CODEC_H264: u32 = 0x2;

pub const VIDC_SESSION_TYPE_DEC: u32 = 0x2;

pub const VIDC_WORK_MODE_1: u32 = 1;

pub const VIDC_WORK_MODE_2: u32 = 2;

pub const HFI_OUTPUT_ORDER_DECODE: u32 = 0x0100_0002;

pub const HFI_DEBUG_MSG_ERRORS_AND_FATAL: u32 = 0x18;

pub const HFI_DEBUG_MODE_QUEUE: u32 = 0x1;

pub const HFI_VIDEO_ARCH_OX: u32 = 0x1;

// Commands.

/// A packet: its size in bytes, then its body.
pub open spec fn packet(body: Seq<u32>) -> Seq<u32> {
    seq![(4 * (body.len() + 1)) as u32] + body
}

/// A packet that sets one session property.
pub open spec fn property_packet(session: u32, property: u32, data: Seq<u32>) -> Seq<u32> {
    packet(seq![HFI_CMD_SESSION_SET_PROPERTY, session, 1u32, property] + data)
}

/// Prefixes a body with its size.
fn finish(body: &[u32]) -> (r: Vec<u32>)
    requires
        body@.len() <= 0x1000,
    ensures
        r@ == packet(body@),
{
    let mut words: Vec<u32> = Vec::new();
    words.push((4 * (body.len() + 1)) as u32);
    let mut i: usize = 0;
    while i < body.len()
        invariant
            i <= body@.len() <= 0x1000,
            words@ == packet(body@).take(i + 1),
        decreases body@.len() - i,
    {
        words.push(body[i]);
        i += 1;
        assert(words@ =~= packet(body@).take(i + 1));
    }
    assert(words@ =~= packet(body@));
    words
}

pub fn sys_init() -> (r: Vec<u32>)
    ensures
        r@ == packet(seq![HFI_CMD_SYS_INIT, HFI_VIDEO_ARCH_OX]),
{
    let body: [u32; 2] = [HFI_CMD_SYS_INIT, HFI_VIDEO_ARCH_OX];
    assert(body@ =~= seq![HFI_CMD_SYS_INIT, HFI_VIDEO_ARCH_OX]);
    finish(&body)
}

pub fn sys_debug_errors_only() -> (r: Vec<u32>)
    ensures
        r@ == packet(seq![
            HFI_CMD_SYS_SET_PROPERTY,
            1u32,
            HFI_PROPERTY_SYS_DEBUG_CONFIG,
            HFI_DEBUG_MSG_ERRORS_AND_FATAL,
            HFI_DEBUG_MODE_QUEUE,
        ]),
{
    let body: [u32; 5] = [
        HFI_CMD_SYS_SET_PROPERTY,
        1,
        HFI_PROPERTY_SYS_DEBUG_CONFIG,
        HFI_DEBUG_MSG_ERRORS_AND_FATAL,
        HFI_DEBUG_MODE_QUEUE,
    ];
    assert(body@ =~= seq![
        HFI_CMD_SYS_SET_PROPERTY,
        1u32,
        HFI_PROPERTY_SYS_DEBUG_CONFIG,
        HFI_DEBUG_MSG_ERRORS_AND_FATAL,
        HFI_DEBUG_MODE_QUEUE,
    ]);
    finish(&body)
}

pub fn sys_disable_power_collapse() -> (r: Vec<u32>)
    ensures
        r@ == packet(seq![
            HFI_CMD_SYS_SET_PROPERTY,
            1u32,
            HFI_PROPERTY_SYS_CODEC_POWER_PLANE_CTRL,
            0u32,
        ]),
{
    let body: [u32; 4] = [HFI_CMD_SYS_SET_PROPERTY, 1, HFI_PROPERTY_SYS_CODEC_POWER_PLANE_CTRL, 0];
    assert(body@ =~= seq![
        HFI_CMD_SYS_SET_PROPERTY,
        1u32,
        HFI_PROPERTY_SYS_CODEC_POWER_PLANE_CTRL,
        0u32,
    ]);
    finish(&body)
}

pub fn session_init(session: u32) -> (r: Vec<u32>)
    ensures
        r@ == packet(seq![
            HFI_CMD_SYS_SESSION_INIT,
            session,
            VIDC_SESSION_TYPE_DEC,
            HFI_VIDEO_CODEC_H264,
        ]),
{
    let body: [u32; 4] = [
        HFI_CMD_SYS_SESSION_INIT,
        session,
        VIDC_SESSION_TYPE_DEC,
        HFI_VIDEO_CODEC_H264,
    ];
    assert(body@ =~= seq![
        HFI_CMD_SYS_SESSION_INIT,
        session,
        VIDC_SESSION_TYPE_DEC,
        HFI_VIDEO_CODEC_H264,
    ]);
    finish(&body)
}

pub fn session_command(command: u32, session: u32) -> (r: Vec<u32>)
    ensures
        r@ == packet(seq![command, session]),
{
    let body: [u32; 2] = [command, session];
    assert(body@ =~= seq![command, session]);
    finish(&body)
}

pub fn set_frame_size(session: u32, buffer_type: u32, width: u32, height: u32) -> (r: Vec<u32>)
    ensures
        r@ == property_packet(session, HFI_PROPERTY_PARAM_FRAME_SIZE, seq![
            buffer_type,
            width,
            height,
        ]),
{
    let body: [u32; 7] = [
        HFI_CMD_SESSION_SET_PROPERTY,
        session,
        1,
        HFI_PROPERTY_PARAM_FRAME_SIZE,
        buffer_type,
        width,
        height,
    ];
    assert(body@ =~= seq![
        HFI_CMD_SESSION_SET_PROPERTY,
        session,
        1u32,
        HFI_PROPERTY_PARAM_FRAME_SIZE,
    ] + seq![buffer_type, width, height]);
    finish(&body)
}

pub fn set_raw_format(session: u32, buffer_type: u32, format: u32) -> (r: Vec<u32>)
    ensures
        r@ == property_packet(session, HFI_PROPERTY_PARAM_UNCOMPRESSED_FORMAT_SELECT, seq![
            buffer_type,
            format,
        ]),
{
    let body: [u32; 6] = [
        HFI_CMD_SESSION_SET_PROPERTY,
        session,
        1,
        HFI_PROPERTY_PARAM_UNCOMPRESSED_FORMAT_SELECT,
        buffer_type,
        format,
    ];
    assert(body@ =~= seq![
        HFI_CMD_SESSION_SET_PROPERTY,
        session,
        1u32,
        HFI_PROPERTY_PARAM_UNCOMPRESSED_FORMAT_SELECT,
    ] + seq![buffer_type, format]);
    finish(&body)
}

pub open spec fn flag(on: bool) -> u32 {
    if on {
        1
    } else {
        0
    }
}

/// HFI 4xx inherits the compact 3xx two-word multi-stream payload.
pub fn set_multistream(session: u32, buffer_type: u32, enable: bool) -> (r: Vec<u32>)
    ensures
        r@ == property_packet(
            session,
            HFI_PROPERTY_PARAM_VDEC_MULTI_STREAM,
            seq![buffer_type, flag(enable)],
        ),
{
    let on: u32 = if enable {
        1
    } else {
        0
    };
    let body: [u32; 6] = [
        HFI_CMD_SESSION_SET_PROPERTY,
        session,
        1,
        HFI_PROPERTY_PARAM_VDEC_MULTI_STREAM,
        buffer_type,
        on,
    ];
    assert(body@ =~= seq![
        HFI_CMD_SESSION_SET_PROPERTY,
        session,
        1u32,
        HFI_PROPERTY_PARAM_VDEC_MULTI_STREAM,
    ] + seq![buffer_type, flag(enable)]);
    finish(&body)
}

pub fn set_work_mode(session: u32, mode: u32) -> (r: Vec<u32>)
    ensures
        r@ == property_packet(session, HFI_PROPERTY_PARAM_WORK_MODE, seq![mode]),
{
    let body: [u32; 5] = [
        HFI_CMD_SESSION_SET_PROPERTY,
        session,
        1,
        HFI_PROPERTY_PARAM_WORK_MODE,
        mode,
    ];
    assert(body@ =~= seq![
        HFI_CMD_SESSION_SET_PROPERTY,
        session,
        1u32,
        HFI_PROPERTY_PARAM_WORK_MODE,
    ] + seq![mode]);
    finish(&body)
}

pub fn set_decode_order(session: u32) -> (r: Vec<u32>)
    ensures
        r@ == property_packet(session, HFI_PROPERTY_PARAM_VDEC_OUTPUT_ORDER, seq![
            HFI_OUTPUT_ORDER_DECODE,
        ]),
{
    let body: [u32; 5] = [
        HFI_CMD_SESSION_SET_PROPERTY,
        session,
        1,
        HFI_PROPERTY_PARAM_VDEC_OUTPUT_ORDER,
        HFI_OUTPUT_ORDER_DECODE,
    ];
    assert(body@ =~= seq![
        HFI_CMD_SESSION_SET_PROPERTY,
        session,
        1u32,
        HFI_PROPERTY_PARAM_VDEC_OUTPUT_ORDER,
    ] + seq![HFI_OUTPUT_ORDER_DECODE]);
    finish(&body)
}

/// HFI 4xx appends the host minimum to the common payload.
pub fn set_buffer_count(session: u32, buffer_type: u32, count: u32) -> (r: Vec<u32>)
    ensures
        r@ == property_packet(session, HFI_PROPERTY_PARAM_BUFFER_COUNT_ACTUAL, seq![
            buffer_type,
            count,
            count,
        ]),
{
    let body: [u32; 7] = [
        HFI_CMD_SESSION_SET_PROPERTY,
        session,
        1,
        HFI_PROPERTY_PARAM_BUFFER_COUNT_ACTUAL,
        buffer_type,
        count,
        count,
    ];
    assert(body@ =~= seq![
        HFI_CMD_SESSION_SET_PROPERTY,
        session,
        1u32,
        HFI_PROPERTY_PARAM_BUFFER_COUNT_ACTUAL,
    ] + seq![buffer_type, count, count]);
    finish(&body)
}

pub fn set_buffer_size(session: u32, buffer_type: u32, size: u32) -> (r: Vec<u32>)
    ensures
        r@ == property_packet(session, HFI_PROPERTY_PARAM_BUFFER_SIZE_ACTUAL, seq![
            buffer_type,
            size,
        ]),
{
    let body: [u32; 6] = [
        HFI_CMD_SESSION_SET_PROPERTY,
        session,
        1,
        HFI_PROPERTY_PARAM_BUFFER_SIZE_ACTUAL,
        buffer_type,
        size,
    ];
    assert(body@ =~= seq![
        HFI_CMD_SESSION_SET_PROPERTY,
        session,
        1u32,
        HFI_PROPERTY_PARAM_BUFFER_SIZE_ACTUAL,
    ] + seq![buffer_type, size]);
    finish(&body)
}

pub fn get_buffer_requirements(session: u32) -> (r: Vec<u32>)
    ensures
        r@ == packet(seq![
            HFI_CMD_SESSION_GET_PROPERTY,
            session,
            1u32,
            HFI_PROPERTY_CONFIG_BUFFER_REQUIREMENTS,
        ]),
{
    let body: [u32; 4] = [
        HFI_CMD_SESSION_GET_PROPERTY,
        session,
        1,
        HFI_PROPERTY_CONFIG_BUFFER_REQUIREMENTS,
    ];
    assert(body@ =~= seq![
        HFI_CMD_SESSION_GET_PROPERTY,
        session,
        1u32,
        HFI_PROPERTY_CONFIG_BUFFER_REQUIREMENTS,
    ]);
    finish(&body)
}

pub fn set_internal_buffer(session: u32, buffer_type: u32, size: u32, address: u32) -> (r: Vec<u32>)
    ensures
        r@ == packet(seq![
            HFI_CMD_SESSION_SET_BUFFERS,
            session,
            buffer_type,
            size,
            0u32,
            size,
            1u32,
            address,
        ]),
{
    let body: [u32; 8] = [
        HFI_CMD_SESSION_SET_BUFFERS,
        session,
        buffer_type,
        size,
        0,
        size,
        1,
        address,
    ];
    assert(body@ =~= seq![
        HFI_CMD_SESSION_SET_BUFFERS,
        session,
        buffer_type,
        size,
        0u32,
        size,
        1u32,
        address,
    ]);
    finish(&body)
}

pub fn release_internal_buffer(
    session: u32,
    buffer_type: u32,
    size: u32,
    address: u32,
) -> (r: Vec<u32>)
    ensures
        r@ == packet(seq![
            HFI_CMD_SESSION_RELEASE_BUFFERS,
            session,
            buffer_type,
            size,
            0u32,
            1u32,
            1u32,
            address,
        ]),
{
    let body: [u32; 8] = [
        HFI_CMD_SESSION_RELEASE_BUFFERS,
        session,
        buffer_type,
        size,
        0,
        1,
        1,
        address,
    ];
    assert(body@ =~= seq![
        HFI_CMD_SESSION_RELEASE_BUFFERS,
        session,
        buffer_type,
        size,
        0u32,
        1u32,
        1u32,
        address,
    ]);
    finish(&body)
}

/// The body of a command that hands an input buffer to the firmware.
pub open spec fn empty_buffer_body(
    session: u32,
    timestamp: u64,
    input_tag: u32,
    address: u32,
    allocation_len: u32,
    filled_len: u32,
) -> Seq<u32> {
    seq![
        HFI_CMD_SESSION_EMPTY_BUFFER,
        session,
        (timestamp as int / 0x1_0000_0000) as u32,
        (timestamp as int % 0x1_0000_0000) as u32,
        HFI_BUFFERFLAG_ENDOFFRAME,
        0u32,
        0u32,
        0u32,
        allocation_len,
        filled_len,
        input_tag,
        address,
        0u32,
        0u32,
    ]
}

pub fn empty_buffer(
    session: u32,
    timestamp: u64,
    input_tag: u32,
    address: u32,
    allocation_len: u32,
    filled_len: u32,
) -> (r: Vec<u32>)
    ensures
        r@ == packet(
            empty_buffer_body(session, timestamp, input_tag, address, allocation_len, filled_len),
        ),
{
    let body: [u32; 14] = [
        HFI_CMD_SESSION_EMPTY_BUFFER,
        session,
        (timestamp / 0x1_0000_0000) as u32,
        (timestamp % 0x1_0000_0000) as u32,
        HFI_BUFFERFLAG_ENDOFFRAME,
        0,
        0,
        0,
        allocation_len,
        filled_len,
        input_tag,
        address,
        0,
        0,
    ];
    assert(body@ =~= empty_buffer_body(
        session,
        timestamp,
        input_tag,
        address,
        allocation_len,
        filled_len,
    ));
    finish(&body)
}

/// The body of a command that hands an output buffer to the firmware; the
/// second output is stream 1.
pub open spec fn fill_buffer_body(
    session: u32,
    buffer_type: u32,
    output_tag: u32,
    address: u32,
    allocation_len: u32,
) -> Seq<u32> {
    seq![
        HFI_CMD_SESSION_FILL_BUFFER,
        session,
        flag(buffer_type == HFI_BUFFER_OUTPUT2),
        0u32,
        allocation_len,
        0u32,
        output_tag,
        address,
        0u32,
        0u32,
    ]
}

pub fn fill_buffer(
    session: u32,
    buffer_type: u32,
    output_tag: u32,
    address: u32,
    allocation_len: u32,
) -> (r: Vec<u32>)
    ensures
        r@ == packet(
            fill_buffer_body(session, buffer_type, output_tag, address, allocation_len),
        ),
{
    let stream_id: u32 = if buffer_type == HFI_BUFFER_OUTPUT2 {
        1
    } else {
        0
    };
    let body: [u32; 10] = [
        HFI_CMD_SESSION_FILL_BUFFER,
        session,
        stream_id,
        0,
        allocation_len,
        0,
        output_tag,
        address,
        0,
        0,
    ];
    assert(body@ =~= fill_buffer_body(session, buffer_type, output_tag, address, allocation_len));
    finish(&body)
}

// Messages.

#[derive(Clone, Copy, Debug, Eq, PartialEq, Structural)]
pub struct BufferRequirement {
    pub buffer_type: u32,
    pub size: u32,
    pub count_min: u32,
    pub count_actual: u32,
    pub contiguous: u32,
    pub alignment: u32,
}

/// The requirement in record `index` of a message. HFI 4xx swaps the common
/// hold-count and minimum-count meanings.
pub open spec fn requirement_at(words: Seq<u32>, index: int) -> BufferRequirement {
    let at = 5 + 8 * index;
    BufferRequirement {
        buffer_type: words[at],
        size: words[at + 1],
        count_min: words[at + 3],
        count_actual: words[at + 5],
        contiguous: words[at + 6],
        alignment: words[at + 7],
    }
}

pub open spec fn requirements_of(words: Seq<u32>) -> Result<Seq<BufferRequirement>, &'static str> {
    if words.len() < 5 || words[1] != HFI_MSG_SESSION_PROPERTY_INFO || words[4]
        != HFI_PROPERTY_CONFIG_BUFFER_REQUIREMENTS {
        Err("qcom-venus-sc7180: malformed HFI buffer-requirements message")
    } else if words.len() == 5 || (words.len() - 5) % 8 != 0 {
        Err("qcom-venus-sc7180: invalid HFI buffer-requirements payload")
    } else {
        Ok(Seq::new(((words.len() - 5) / 8) as nat, |i: int| requirement_at(words, i)))
    }
}

pub fn parse_buffer_requirements(words: &[u32]) -> (r: Result<
    Vec<BufferRequirement>,
    &'static str,
>)
    ensures
        match r {
            Ok(requirements) => requirements_of(words@) == Ok::<
                Seq<BufferRequirement>,
                &'static str,
            >(requirements@),
            Err(e) => requirements_of(words@) == Err::<Seq<BufferRequirement>, &'static str>(e),
        },
{
    if words.len() < 5 || words[1] != HFI_MSG_SESSION_PROPERTY_INFO || words[4]
        != HFI_PROPERTY_CONFIG_BUFFER_REQUIREMENTS {
        return Err("qcom-venus-sc7180: malformed HFI buffer-requirements message");
    }
    if words.len() == 5 || (words.len() - 5) % 8 != 0 {
        return Err("qcom-venus-sc7180: invalid HFI buffer-requirements payload");
    }
    let length: usize = words.len();
    let count: usize = (length - 5) / 8;
    let mut requirements: Vec<BufferRequirement> = Vec::new();
    let mut i: usize = 0;
    while i < count
        invariant
            i <= count,
            5 <= length == words@.len(),
            count == (length - 5) / 8,
            requirements@ == Seq::new(i as nat, |i: int| requirement_at(words@, i)),
        decreases count - i,
    {
        let at: usize = 5 + 8 * i;
        requirements.push(
            BufferRequirement {
                buffer_type: words[at],
                size: words[at + 1],
                count_min: words[at + 3],
                count_actual: words[at + 5],
                contiguous: words[at + 6],
                alignment: words[at + 7],
            },
        );
        i += 1;
        assert(requirements@ =~= Seq::new(i as nat, |i: int| requirement_at(words@, i)));
    }
    Ok(requirements)
}

/// What a sequence-change event tells of the stream.
#[derive(Clone, Copy, Debug, Eq, PartialEq, Structural)]
pub struct SequenceInfo {
    pub width: u32,
    pub height: u32,
    pub crop_left: u32,
    pub crop_top: u32,
    pub crop_width: u32,
    pub crop_height: u32,
    pub minimum_dpb_count: u32,
}

pub open spec fn no_sequence_info() -> SequenceInfo {
    SequenceInfo {
        width: 0,
        height: 0,
        crop_left: 0,
        crop_top: 0,
        crop_width: 0,
        crop_height: 0,
        minimum_dpb_count: 0,
    }
}

/// The payload words of a known sequence property.
pub open spec fn payload_words(property: u32) -> Option<int> {
    if property == HFI_PROPERTY_PARAM_FRAME_SIZE {
        Some(3)
    } else if property == HFI_PROPERTY_PARAM_PROFILE_LEVEL_CURRENT || property
        == HFI_PROPERTY_PARAM_VDEC_PIXEL_BITDEPTH {
        Some(2)
    } else if property == HFI_PROPERTY_PARAM_VDEC_PIC_STRUCT || property
        == HFI_PROPERTY_PARAM_VDEC_COLOUR_SPACE || property == HFI_PROPERTY_CONFIG_VDEC_ENTROPY {
        Some(1)
    } else if property == HFI_PROPERTY_CONFIG_BUFFER_REQUIREMENTS {
        Some(8)
    } else if property == HFI_INDEX_EXTRADATA_INPUT_CROP {
        Some(7)
    } else if property == HFI_PROPERTY_PARAM_VDEC_DPB_COUNTS {
        Some(5)
    } else {
        None
    }
}

/// The fault of a property that is read but does not fit the message.
pub open spec fn truncation_fault(property: u32) -> Option<&'static str> {
    if property == HFI_PROPERTY_PARAM_FRAME_SIZE {
        Some("qcom-venus-sc7180: truncated HFI frame-size property")
    } else if property == HFI_PROPERTY_CONFIG_BUFFER_REQUIREMENTS {
        Some("qcom-venus-sc7180: truncated HFI sequence buffer requirement")
    } else if property == HFI_INDEX_EXTRADATA_INPUT_CROP {
        Some("qcom-venus-sc7180: truncated HFI crop property")
    } else if property == HFI_PROPERTY_PARAM_VDEC_DPB_COUNTS {
        Some("qcom-venus-sc7180: truncated HFI DPB-count property")
    } else {
        None
    }
}

/// What a property's payload, at `at`, adds.
pub open spec fn with_property(
    info: SequenceInfo,
    property: u32,
    words: Seq<u32>,
    at: int,
) -> SequenceInfo {
    if property == HFI_PROPERTY_PARAM_FRAME_SIZE {
        SequenceInfo { width: words[at + 1], height: words[at + 2], ..info }
    } else if property == HFI_PROPERTY_CONFIG_BUFFER_REQUIREMENTS {
        SequenceInfo { minimum_dpb_count: words[at + 3], ..info }
    } else if property == HFI_INDEX_EXTRADATA_INPUT_CROP {
        SequenceInfo {
            crop_left: words[at + 3],
            crop_top: words[at + 4],
            crop_width: words[at + 5],
            crop_height: words[at + 6],
            ..info
        }
    } else if property == HFI_PROPERTY_PARAM_VDEC_DPB_COUNTS {
        SequenceInfo { minimum_dpb_count: words[at + 4], ..info }
    } else {
        info
    }
}

/// Reads `remaining` properties from `cursor` on. Sequence properties carry
/// no payload lengths of their own, so reading stops at an unknown one and
/// keeps what came before it.
pub open spec fn read_properties(
    words: Seq<u32>,
    cursor: int,
    remaining: int,
    info: SequenceInfo,
) -> Result<SequenceInfo, &'static str>
    decreases remaining,
{
    if remaining <= 0 {
        Ok(info)
    } else if cursor >= words.len() {
        Err("qcom-venus-sc7180: truncated HFI sequence property")
    } else {
        let property = words[cursor];
        match payload_words(property) {
            None => Ok(info),
            Some(count) => if truncation_fault(property) is Some && cursor + 1 + count
                > words.len() {
                Err(truncation_fault(property)->Some_0)
            } else if cursor + 1 + count > usize::MAX {
                Err("qcom-venus-sc7180: HFI sequence property overflow")
            } else {
                read_properties(
                    words,
                    cursor + 1 + count,
                    remaining - 1,
                    with_property(info, property, words, cursor + 1),
                )
            },
        }
    }
}

/// The stream that a sequence-change event announces. Without a crop, the
/// whole frame is shown.
pub open spec fn sequence_of(words: Seq<u32>) -> Result<SequenceInfo, &'static str> {
    if words.len() < 6 || words[1] != HFI_MSG_EVENT_NOTIFY || words[3]
        != HFI_EVENT_SESSION_SEQUENCE_CHANGED {
        Err("qcom-venus-sc7180: malformed HFI sequence-change event")
    } else if words[4] != HFI_EVENT_DATA_SEQUENCE_CHANGED_SUFFICIENT && words[4]
        != HFI_EVENT_DATA_SEQUENCE_CHANGED_INSUFFICIENT {
        Err("qcom-venus-sc7180: invalid HFI sequence-change reason")
    } else {
        match read_properties(words, 6, words[5] as int, no_sequence_info()) {
            Err(e) => Err(e),
            Ok(info) => if info.width == 0 || info.height == 0 {
                Err("qcom-venus-sc7180: sequence event omitted frame dimensions")
            } else if info.crop_width == 0 || info.crop_height == 0 {
                Ok(SequenceInfo { crop_width: info.width, crop_height: info.height, ..info })
            } else {
                Ok(info)
            },
        }
    }
}

/// One property: its payload length and what it adds, `None` for an unknown
/// one.
fn read_property(words: &[u32], cursor: usize, info: SequenceInfo) -> (r: Result<
    Option<(usize, SequenceInfo)>,
    &'static str,
>)
    requires
        cursor < words@.len(),
    ensures
        ({
            let property = words@[cursor as int];
            let count = payload_words(property);
            match r {
                Ok(None) => count is None,
                Ok(Some((length, next))) => {
                    &&& count == Some(length as int)
                    &&& truncation_fault(property) is Some ==> cursor + 1 + length <= words@.len()
                    &&& next == with_property(info, property, words@, cursor + 1)
                },
                Err(e) => {
                    &&& count is Some
                    &&& truncation_fault(property) == Some(e)
                    &&& cursor + 1 + count->Some_0 > words@.len()
                },
            }
        }),
{
    let property: u32 = words[cursor];
    let at: usize = cursor + 1;
    let available: usize = words.len() - at;
    let mut next = info;
    let length: usize = match property {
        HFI_PROPERTY_PARAM_FRAME_SIZE => {
            if available < 3 {
                return Err("qcom-venus-sc7180: truncated HFI frame-size property");
            }
            next.width = words[at + 1];
            next.height = words[at + 2];
            3
        },
        HFI_PROPERTY_PARAM_PROFILE_LEVEL_CURRENT => 2,
        HFI_PROPERTY_PARAM_VDEC_PIXEL_BITDEPTH => 2,
        HFI_PROPERTY_PARAM_VDEC_PIC_STRUCT => 1,
        HFI_PROPERTY_PARAM_VDEC_COLOUR_SPACE => 1,
        HFI_PROPERTY_CONFIG_VDEC_ENTROPY => 1,
        HFI_PROPERTY_CONFIG_BUFFER_REQUIREMENTS => {
            if available < 8 {
                return Err("qcom-venus-sc7180: truncated HFI sequence buffer requirement");
            }
            next.minimum_dpb_count = words[at + 3];
            8
        },
        HFI_INDEX_EXTRADATA_INPUT_CROP => {
            if available < 7 {
                return Err("qcom-venus-sc7180: truncated HFI crop property");
            }
            next.crop_left = words[at + 3];
            next.crop_top = words[at + 4];
            next.crop_width = words[at + 5];
            next.crop_height = words[at + 6];
            7
        },
        HFI_PROPERTY_PARAM_VDEC_DPB_COUNTS => {
            if available < 5 {
                return Err("qcom-venus-sc7180: truncated HFI DPB-count property");
            }
            next.minimum_dpb_count = words[at + 4];
            5
        },
        _ => {
            return Ok(None);
        },
    };
    Ok(Some((length, next)))
}

pub fn parse_sequence_changed(words: &[u32]) -> (r: Result<SequenceInfo, &'static str>)
    ensures
        r == sequence_of(words@),
{
    if words.len() < 6 || words[1] != HFI_MSG_EVENT_NOTIFY || words[3]
        != HFI_EVENT_SESSION_SEQUENCE_CHANGED {
        return Err("qcom-venus-sc7180: malformed HFI sequence-change event");
    }
    if words[4] != HFI_EVENT_DATA_SEQUENCE_CHANGED_SUFFICIENT && words[4]
        != HFI_EVENT_DATA_SEQUENCE_CHANGED_INSUFFICIENT {
        return Err("qcom-venus-sc7180: invalid HFI sequence-change reason");
    }
    let mut info = SequenceInfo {
        width: 0,
        height: 0,
        crop_left: 0,
        crop_top: 0,
        crop_width: 0,
        crop_height: 0,
        minimum_dpb_count: 0,
    };
    let mut remaining: u32 = words[5];
    let mut cursor: usize = 6;
    let ghost whole = read_properties(words@, 6, words@[5] as int, no_sequence_info());
    while remaining != 0
        invariant
            words@.len() >= 6,
            words@[1] == HFI_MSG_EVENT_NOTIFY,
            words@[3] == HFI_EVENT_SESSION_SEQUENCE_CHANGED,
            words@[4] == HFI_EVENT_DATA_SEQUENCE_CHANGED_SUFFICIENT || words@[4]
                == HFI_EVENT_DATA_SEQUENCE_CHANGED_INSUFFICIENT,
            whole == read_properties(words@, 6, words@[5] as int, no_sequence_info()),
            whole == read_properties(words@, cursor as int, remaining as int, info),
        ensures
            whole == Ok::<SequenceInfo, &'static str>(info),
        decreases remaining,
    {
        if cursor >= words.len() {
            return Err("qcom-venus-sc7180: truncated HFI sequence property");
        }
        match read_property(words, cursor, info)? {
            None => {
                break;
            },
            Some((length, next)) => {
                info = next;
                cursor = match (cursor + 1).checked_add(length) {
                    Some(cursor) => cursor,
                    None => {
                        return Err("qcom-venus-sc7180: HFI sequence property overflow");
                    },
                };
                remaining -= 1;
            },
        }
    }
    if info.width == 0 || info.height == 0 {
        return Err("qcom-venus-sc7180: sequence event omitted frame dimensions");
    }
    if info.crop_width == 0 || info.crop_height == 0 {
        info.crop_width = info.width;
        info.crop_height = info.height;
    }
    Ok(info)
}

/// A completed output buffer.
#[derive(Clone, Copy, Debug, Eq, PartialEq, Structural)]
pub struct FillDone {
    pub session: u32,
    pub stream_id: u32,
    pub error: u32,
    pub flags: u32,
    pub filled_len: u32,
    pub offset: u32,
    pub output_tag: u32,
    pub packet_buffer: u32,
}

pub open spec fn fill_done_of(words: Seq<u32>) -> Result<FillDone, &'static str> {
    if words.len() < 25 || words[1] != HFI_MSG_SESSION_FILL_BUFFER {
        Err("qcom-venus-sc7180: malformed HFI fill-buffer-done message")
    } else {
        Ok(
            FillDone {
                session: words[2],
                stream_id: words[3],
                error: words[5],
                flags: words[8],
                filled_len: words[13],
                offset: words[14],
                output_tag: words[21],
                packet_buffer: words[23],
            },
        )
    }
}

pub fn parse_fill_done(words: &[u32]) -> (r: Result<FillDone, &'static str>)
    ensures
        r == fill_done_of(words@),
{
    if words.len() < 25 || words[1] != HFI_MSG_SESSION_FILL_BUFFER {
        return Err("qcom-venus-sc7180: malformed HFI fill-buffer-done message");
    }
    Ok(
        FillDone {
            session: words[2],
            stream_id: words[3],
            error: words[5],
            flags: words[8],
            filled_len: words[13],
            offset: words[14],
            output_tag: words[21],
            packet_buffer: words[23],
        },
    )
}

pub open spec fn word_at(words: Seq<u32>, index: int) -> Option<u32> {
    if 0 <= index < words.len() {
        Some(words[index])
    } else {
        None
    }
}

fn get_word(words: &[u32], index: usize) -> (r: Option<u32>)
    ensures
        r == word_at(words@, index as int),
{
    if index < words.len() {
        Some(words[index])
    } else {
        None
    }
}

pub fn packet_type(words: &[u32]) -> (r: Option<u32>)
    ensures
        r == word_at(words@, 1),
{
    get_word(words, 1)
}

pub fn session_id(words: &[u32]) -> (r: Option<u32>)
    ensures
        r == word_at(words@, 2),
{
    get_word(words, 2)
}

/// Where a response holds its error, by its type.
pub open spec fn error_position(response_type: u32) -> Option<int> {
    if response_type == HFI_MSG_SYS_INIT {
        Some(2)
    } else if response_type == HFI_MSG_SESSION_FILL_BUFFER {
        Some(5)
    } else if response_type == HFI_MSG_SYS_SESSION_INIT || response_type == HFI_MSG_SYS_SESSION_END
        || response_type == HFI_MSG_SESSION_LOAD_RESOURCES || response_type
        == HFI_MSG_SESSION_START || response_type == HFI_MSG_SESSION_STOP || response_type
        == HFI_MSG_SESSION_EMPTY_BUFFER || response_type == HFI_MSG_SESSION_RELEASE_RESOURCES
        || response_type == HFI_MSG_SESSION_RELEASE_BUFFERS {
        Some(3)
    } else {
        None
    }
}

pub open spec fn error_of(words: Seq<u32>) -> Option<u32> {
    if words.len() < 2 {
        None
    } else {
        match error_position(words[1]) {
            Some(index) => word_at(words, index),
            None => None,
        }
    }
}

pub fn response_error(words: &[u32]) -> (r: Option<u32>)
    ensures
        r == error_of(words@),
{
    match packet_type(words)? {
        HFI_MSG_SYS_INIT => get_word(words, 2),
        HFI_MSG_SYS_SESSION_INIT => get_word(words, 3),
        HFI_MSG_SYS_SESSION_END => get_word(words, 3),
        HFI_MSG_SESSION_LOAD_RESOURCES => get_word(words, 3),
        HFI_MSG_SESSION_START => get_word(words, 3),
        HFI_MSG_SESSION_STOP => get_word(words, 3),
        HFI_MSG_SESSION_EMPTY_BUFFER => get_word(words, 3),
        HFI_MSG_SESSION_RELEASE_RESOURCES => get_word(words, 3),
        HFI_MSG_SESSION_RELEASE_BUFFERS => get_word(words, 3),
        HFI_MSG_SESSION_FILL_BUFFER => get_word(words, 5),
        _ => None,
    }
}

/// An error event of the whole firmware or of the given session.
pub open spec fn fatal_event(words: Seq<u32>, session: u32) -> bool {
    &&& words.len() > 3
    &&& words[1] == HFI_MSG_EVENT_NOTIFY
    &&& words[2] == 0 || words[2] == session
    &&& words[3] == HFI_EVENT_SYS_ERROR || words[3] == HFI_EVENT_SESSION_ERROR
}

pub fn is_fatal_event(words: &[u32], session: u32) -> (r: bool)
    ensures
        r == fatal_event(words@, session),
{
    words.len() > 3 && words[1] == HFI_MSG_EVENT_NOTIFY && (words[2] == 0 || words[2] == session)
        && (words[3] == HFI_EVENT_SYS_ERROR || words[3] == HFI_EVENT_SESSION_ERROR)
}

// Laws.

/// A packet's first word is its size in bytes: the transport accepts exactly
/// such packets.
pub proof fn packets_state_their_size(body: Seq<u32>)
    requires
        body.len() <= 0x1000,
    ensures
        packet(body)[0] == 4 * packet(body).len(),
        packet(body).subrange(1, packet(body).len() as int) == body,
{
    assert(packet(body).subrange(1, packet(body).len() as int) =~= body);
}

/// The stream of an accepted sequence change has dimensions and a crop that
/// are not zero.
pub proof fn announced_streams_have_dimensions(words: Seq<u32>)
    ensures
        sequence_of(words) matches Ok(info) ==> info.width > 0 && info.height > 0
            && info.crop_width > 0 && info.crop_height > 0,
{
}

} // verus!
