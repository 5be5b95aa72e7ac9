use coachz_drivers::mmio::RegOp;
use coachz_drivers::venus::backend::{
    allocate_session_id, capabilities, is_session_resource_error, Destruction, MessageStep,
    VenusBackend, CORE_GONE, DECODE_TIMED_OUT, FATAL_EVENT,
};
use coachz_drivers::venus::firmware::{
    advance_read, check_file_size, image_bounds, load_into_reserved_region, program_headers,
    ImageBounds,
};
use coachz_drivers::venus::hfi::{
    debug_text, notification_requested, read_queue, reads_more_debug, reset, send, sfr_dma,
    sfr_text, COMMAND_QUEUE, DEBUG_QUEUE, MAX_PACKET_BYTES, MESSAGE_QUEUE, QUEUE_DATA_WORDS,
    QUEUE_FULL, SFR_OFFSET, SHARED_REGION_WORDS,
};
use coachz_drivers::venus::hfi_abi::{
    empty_buffer, fill_buffer, is_fatal_event, packet_type, parse_buffer_requirements,
    parse_fill_done, parse_sequence_changed, release_internal_buffer, response_error, session_id,
    session_init, set_frame_size, set_multistream, sys_debug_errors_only,
    sys_disable_power_collapse, sys_init, FillDone, SequenceInfo,
};
use coachz_drivers::venus::memory::{
    allocation_size, check_clean, check_invalidate, firmware_address, page_count,
};
use coachz_drivers::venus::messages::{boot, check_deadline, may_sleep, Deferred};
use coachz_drivers::venus::nv12::{align_up_u32, compact_nv12, nv12_ubwc_size, Nv12Layout};
use coachz_drivers::venus::reconfigure::Reconfiguration;
use coachz_drivers::venus::registers::{
    acknowledge_interrupt, assert_arm9_reset, initialize_hfi, poll_boot, raise_host_interrupt,
    release_arm9, BootPoll,
};
use coachz_drivers::venus::session::{
    DecodeRequest, FrontendMappings, PacketOutcome, VenusSession, VideoInterface,
};
use coachz_drivers::venus::setup::{
    accept_answer, ensure_response_success, is_answer, Event, InternalBuffer, Progress,
    SessionSetup, Wanted,
};
use coachz_drivers::venus::{
    check_firmware_region, check_registers, clock_enable_failed, clock_lookup_failed,
    clock_release_order, ProbeStop,
};

// Probing.

#[test]
fn missing_clocks_defer_the_probe() {
    assert!(matches!(clock_lookup_failed("clk: provider not found"), ProbeStop::Defer));
    assert!(matches!(clock_lookup_failed("clk: clock not found"), ProbeStop::Defer));
    assert!(matches!(clock_lookup_failed("clk: broken"), ProbeStop::Failed("clk: broken")));
    assert!(matches!(clock_enable_failed(true), ProbeStop::Defer));
    assert!(matches!(
        clock_enable_failed(false),
        ProbeStop::Failed("qcom-venus-sc7180: failed to enable a video clock")
    ));
    assert_eq!(clock_release_order(3), vec![2, 1, 0]);
    assert!(clock_release_order(0).is_empty());
}

#[test]
fn probed_resources_are_checked() {
    assert_eq!(check_registers(Some((0xaa0_0000, 0xaaf_efff))), Ok(0xaa0_0000));
    assert_eq!(
        check_registers(Some((0xaa0_0000, 0xaaf_effe))),
        Err("qcom-venus-sc7180: MMIO resource is too small")
    );
    assert_eq!(
        check_registers(Some((1, 0))),
        Err("qcom-venus-sc7180: invalid MMIO resource")
    );
    assert_eq!(check_registers(None), Err("qcom-venus-sc7180: missing MMIO resource"));
    assert_eq!(check_firmware_region(0x8650_0000, 0x869f_ffff), Ok(0x50_0000));
    assert_eq!(
        check_firmware_region(0, 0xfff),
        Err("qcom-venus-sc7180: invalid firmware reserved-memory range")
    );
    assert_eq!(
        check_firmware_region(0x1000, 0x17ff),
        Err("qcom-venus-sc7180: invalid firmware reserved-memory range")
    );
    assert_eq!(
        check_firmware_region(0x2000, 0x1000),
        Err("qcom-venus-sc7180: firmware reserved-memory range overflows")
    );
}

// Packets.

#[test]
fn packets_start_with_their_size() {
    assert_eq!(sys_init(), vec![12, 0x0001_0001, 1]);
    assert_eq!(sys_debug_errors_only(), vec![24, 0x0001_0005, 1, 1, 0x18, 1]);
    assert_eq!(sys_disable_power_collapse(), vec![20, 0x0001_0005, 1, 5, 0]);
    assert_eq!(session_init(7), vec![20, 0x0001_0007, 7, 2, 2]);
    assert_eq!(
        set_frame_size(7, 1, 96, 64),
        vec![32, 0x0001_1001, 7, 1, 0x1001, 1, 96, 64]
    );
    assert_eq!(
        set_multistream(7, 3, true),
        vec![28, 0x0001_1001, 7, 1, 0x0100_3001, 3, 1]
    );
    for packet in [
        empty_buffer(7, 0x1_0000_0002, 5, 0x9000, 0x2000, 0x40),
        fill_buffer(7, 3, 5, 0x9000, 0x2000),
        release_internal_buffer(7, 6, 0x1000, 0x9000),
    ] {
        assert_eq!(packet[0] as usize, packet.len() * 4);
        assert_eq!(session_id(&packet), Some(7));
    }
    // The two outputs are told apart by their stream.
    assert_eq!(fill_buffer(7, 3, 5, 0x9000, 0x2000)[3], 1);
    assert_eq!(fill_buffer(7, 2, 5, 0x9000, 0x2000)[3], 0);
    assert_eq!(packet_type(&[4]), None);
}

#[test]
fn buffer_requirements_are_read_in_records() {
    let mut words = vec![0, 0x0022_1009, 7, 1, 0x0020_2001];
    words.extend_from_slice(&[6, 4096, 99, 2, 98, 3, 1, 256]);
    words.extend_from_slice(&[2, 8192, 97, 4, 96, 5, 0, 512]);
    let requirements = parse_buffer_requirements(&words).unwrap();
    assert_eq!(requirements.len(), 2);
    assert_eq!(requirements[0].buffer_type, 6);
    assert_eq!(requirements[0].size, 4096);
    assert_eq!(requirements[0].count_min, 2);
    assert_eq!(requirements[0].count_actual, 3);
    assert_eq!(requirements[1].alignment, 512);
    words.pop();
    assert_eq!(
        parse_buffer_requirements(&words),
        Err("qcom-venus-sc7180: invalid HFI buffer-requirements payload")
    );
    assert_eq!(
        parse_buffer_requirements(&words[..5]),
        Err("qcom-venus-sc7180: invalid HFI buffer-requirements payload")
    );
    words[4] = 0;
    assert_eq!(
        parse_buffer_requirements(&words),
        Err("qcom-venus-sc7180: malformed HFI buffer-requirements message")
    );
}

fn sequence_event(properties: &[u32], count: u32) -> Vec<u32> {
    let mut words = vec![0, 0x0002_1001, 7, 0x0100_0003, 0x0100_0002, count];
    words.extend_from_slice(properties);
    words
}

#[test]
fn sequence_events_announce_the_stream() {
    let whole = parse_sequence_changed(&sequence_event(&[0x1001, 3, 640, 480], 1)).unwrap();
    assert_eq!((whole.width, whole.height), (640, 480));
    assert_eq!((whole.crop_width, whole.crop_height), (640, 480));
    let cropped = parse_sequence_changed(&sequence_event(
        &[
            0x1001, 3, 640, 480, 0x0100_3009, 1, 0x0700_000e, 0, 0, 0, 8, 4, 600, 400,
            0x0120_300e, 0, 0, 0, 0, 6,
        ],
        4,
    ))
    .unwrap();
    assert_eq!((cropped.crop_left, cropped.crop_top), (8, 4));
    assert_eq!((cropped.crop_width, cropped.crop_height), (600, 400));
    assert_eq!(cropped.minimum_dpb_count, 6);
    // An unknown property ends the reading, and what came before it counts.
    assert!(parse_sequence_changed(&sequence_event(&[0x1001, 3, 640, 480, 0xdead], 9)).is_ok());
    assert_eq!(
        parse_sequence_changed(&sequence_event(&[0x1001, 3, 640], 1)),
        Err("qcom-venus-sc7180: truncated HFI frame-size property")
    );
    assert_eq!(
        parse_sequence_changed(&sequence_event(&[0x1001, 3, 640, 480], 2)),
        Err("qcom-venus-sc7180: truncated HFI sequence property")
    );
    assert_eq!(
        parse_sequence_changed(&sequence_event(&[0x0700_000e, 0], 1)),
        Err("qcom-venus-sc7180: truncated HFI crop property")
    );
    assert_eq!(
        parse_sequence_changed(&sequence_event(&[0x0020_2001, 0], 1)),
        Err("qcom-venus-sc7180: truncated HFI sequence buffer requirement")
    );
    assert_eq!(
        parse_sequence_changed(&sequence_event(&[0x0120_300e, 0], 1)),
        Err("qcom-venus-sc7180: truncated HFI DPB-count property")
    );
    assert_eq!(
        parse_sequence_changed(&sequence_event(&[], 0)),
        Err("qcom-venus-sc7180: sequence event omitted frame dimensions")
    );
    let mut wrong = sequence_event(&[0x1001, 3, 640, 480], 1);
    wrong[4] = 0;
    assert_eq!(
        parse_sequence_changed(&wrong),
        Err("qcom-venus-sc7180: invalid HFI sequence-change reason")
    );
    wrong[3] = 0;
    assert_eq!(
        parse_sequence_changed(&wrong),
        Err("qcom-venus-sc7180: malformed HFI sequence-change event")
    );
}

fn fill_done_message(session: u32, stream: u32, tag: u32, buffer: u32, filled: u32) -> Vec<u32> {
    let mut words = vec![0; 25];
    words[0] = 100;
    words[1] = 0x0022_1008;
    words[2] = session;
    words[3] = stream;
    words[8] = 0x10;
    words[13] = filled;
    words[21] = tag;
    words[23] = buffer;
    words
}

#[test]
fn completed_outputs_are_read() {
    let message = fill_done_message(7, 1, 5, 0x9000, 64);
    let done = parse_fill_done(&message).unwrap();
    assert_eq!((done.session, done.stream_id, done.error), (7, 1, 0));
    assert_eq!((done.flags, done.filled_len, done.offset), (0x10, 64, 0));
    assert_eq!((done.output_tag, done.packet_buffer), (5, 0x9000));
    assert!(parse_fill_done(&message[..24]).is_err());
}

#[test]
fn responses_carry_an_error_by_their_type() {
    assert_eq!(response_error(&[12, 0x0002_0001, 9]), Some(9));
    assert_eq!(response_error(&[16, 0x0022_1002, 7, 3]), Some(3));
    assert_eq!(response_error(&[16, 0x0022_1009, 7, 3]), None);
    assert_eq!(response_error(&[12, 0x0022_1002, 7]), None);
    assert_eq!(ensure_response_success(&[16, 0x0022_1002, 7, 0]), Ok(()));
    assert_eq!(
        ensure_response_success(&[16, 0x0022_1002, 7, 1]),
        Err("qcom-venus-sc7180: HFI command failed")
    );
    assert_eq!(
        ensure_response_success(&[8, 0x0022_1002]),
        Err("qcom-venus-sc7180: malformed HFI command response")
    );
    // An input buffer is taken although its output is still pending.
    assert_eq!(ensure_response_success(&[16, 0x0022_1007, 7, 0x0100_1001]), Ok(()));
    assert!(ensure_response_success(&[16, 0x0022_1002, 7, 0x0100_1001]).is_err());
    assert!(is_fatal_event(&[16, 0x0002_1001, 0, 1], 7));
    assert!(is_fatal_event(&[16, 0x0002_1001, 7, 2], 7));
    assert!(!is_fatal_event(&[16, 0x0002_1001, 8, 2], 7));
    assert!(!is_fatal_event(&[16, 0x0022_1002, 7, 2], 7));
}

// Queues.

fn shared_region() -> Vec<u32> {
    vec![0xffff_ffff; SHARED_REGION_WORDS]
}

#[test]
fn a_packet_reaches_the_other_end_of_its_ring() {
    let mut words = shared_region();
    assert_eq!(reset(&mut words, 0x1000_0000), Ok(()));
    assert_eq!(read_queue(&mut words, MESSAGE_QUEUE, true), Ok(None));
    assert_eq!(send(&mut words, &[12, 0x0001_0001, 1], true), Ok(()));
    let base = 6 + 14 * COMMAND_QUEUE;
    let ring = 48 + QUEUE_DATA_WORDS as usize * COMMAND_QUEUE;
    assert_eq!(&words[ring..ring + 3], &[12, 0x0001_0001, 1]);
    assert_eq!(words[base + 13], 3);
    assert_eq!(words[base + 12], 0);
    // What stands in a ring is read back, once.
    let received = read_queue(&mut words, COMMAND_QUEUE, true);
    assert_eq!(received, Ok(Some(vec![12, 0x0001_0001, 1])));
    assert_eq!(read_queue(&mut words, COMMAND_QUEUE, true), Ok(None));
}

#[test]
fn packets_wrap_round_the_end_of_a_ring() {
    let mut words = shared_region();
    assert_eq!(reset(&mut words, 0x1000_0000), Ok(()));
    let base = 6 + 14 * COMMAND_QUEUE;
    words[base + 12] = QUEUE_DATA_WORDS - 1;
    words[base + 13] = QUEUE_DATA_WORDS - 1;
    assert_eq!(send(&mut words, &[12, 0x0001_0001, 1], false), Ok(()));
    let ring = 48 + QUEUE_DATA_WORDS as usize * COMMAND_QUEUE;
    assert_eq!(words[ring + QUEUE_DATA_WORDS as usize - 1], 12);
    assert_eq!(&words[ring..ring + 2], &[0x0001_0001, 1]);
    assert_eq!(words[base + 13], 2);
    assert_eq!(
        read_queue(&mut words, COMMAND_QUEUE, false),
        Ok(Some(vec![12, 0x0001_0001, 1]))
    );
}

#[test]
fn faulty_packets_and_rings_are_refused() {
    let mut words = shared_region();
    assert_eq!(reset(&mut words, 0x1000_0000), Ok(()));
    assert!(send(&mut words, &[], true).is_err());
    assert!(send(&mut words, &[8, 0x0001_0001, 1], true).is_err());
    let oversized = vec![(MAX_PACKET_BYTES + 4) as u32; MAX_PACKET_BYTES / 4 + 1];
    assert!(send(&mut words, &oversized, true).is_err());
    let base = 6 + 14 * COMMAND_QUEUE;
    words[base + 12] = 3;
    words[base + 13] = 0;
    assert_eq!(send(&mut words, &[12, 0x0001_0001, 1], true), Err(QUEUE_FULL));
    words[base + 13] = QUEUE_DATA_WORDS;
    assert!(send(&mut words, &[12, 0x0001_0001, 1], true).is_err());
    assert!(read_queue(&mut words, COMMAND_QUEUE, true).is_err());
    assert!(sfr_dma(0xffff_ffff).is_err());
    assert_eq!(sfr_dma(0x1000_0000), Ok(0x1000_0000 + SFR_OFFSET as u32));
    let message = 6 + 14 * MESSAGE_QUEUE;
    words[message + 9] = 0;
    assert!(!notification_requested(&words, MESSAGE_QUEUE));
    words[message + 9] = 1;
    assert!(notification_requested(&words, MESSAGE_QUEUE));
    assert_eq!(DEBUG_QUEUE, 2);
}

#[test]
fn firmware_text_ends_at_a_zero() {
    let mut words = vec![0u32; SHARED_REGION_WORDS];
    words[SFR_OFFSET / 4] = 4096;
    words[SFR_OFFSET / 4 + 1] = u32::from_le_bytes(*b"oops");
    let text = sfr_text(&words);
    assert_eq!(text, b"oops".to_vec());
    assert_eq!(debug_text(&[12, 0x0001_0001, 1]), None);
    assert!(reads_more_debug(0, false) && reads_more_debug(31, true));
    assert!(!reads_more_debug(1, false) && !reads_more_debug(32, true));
}

// Firmware.

fn elf(segments: &[(u32, u32, u32, &[u8], u32)]) -> Vec<u8> {
    let table = 52;
    let mut data = table + 32 * segments.len();
    let mut bytes = vec![0u8; data];
    bytes[..6].copy_from_slice(&[0x7f, b'E', b'L', b'F', 1, 1]);
    bytes[28..32].copy_from_slice(&(table as u32).to_le_bytes());
    bytes[42..44].copy_from_slice(&32u16.to_le_bytes());
    bytes[44..46].copy_from_slice(&(segments.len() as u16).to_le_bytes());
    for (i, (kind, flags, paddr, content, mem_size)) in segments.iter().enumerate() {
        let at = table + 32 * i;
        bytes[at..at + 4].copy_from_slice(&kind.to_le_bytes());
        bytes[at + 4..at + 8].copy_from_slice(&(data as u32).to_le_bytes());
        bytes[at + 12..at + 16].copy_from_slice(&paddr.to_le_bytes());
        bytes[at + 16..at + 20].copy_from_slice(&(content.len() as u32).to_le_bytes());
        bytes[at + 20..at + 24].copy_from_slice(&mem_size.to_le_bytes());
        bytes[at + 24..at + 28].copy_from_slice(&flags.to_le_bytes());
        bytes.extend_from_slice(content);
        data += content.len();
    }
    bytes
}

#[test]
fn segments_are_loaded_where_they_belong() {
    let image = elf(&[
        (1, 0, 0x1000, &[1, 2, 3], 5),
        (2, 0, 0x9000, &[9], 1),
        (1, 0, 0x1010, &[4], 1),
    ]);
    let headers = program_headers(&image).unwrap();
    assert_eq!(headers.len(), 3);
    assert!(headers[0].loadable());
    assert!(!headers[1].loadable());
    assert_eq!(
        image_bounds(&headers),
        Some(ImageBounds { minimum: 0x1000, maximum: 0x1011, relocatable: false })
    );
    let mut region = vec![0xffu8; 32];
    let result = load_into_reserved_region(&image, &mut region, 0x1000);
    assert!(result.is_ok());
    // The rest of a segment's memory is cleared.
    assert_eq!(&region[..5], &[1, 2, 3, 0, 0]);
    assert_eq!(region[16], 4);
    let mut small = vec![0u8; 4];
    assert!(load_into_reserved_region(&image, &mut small, 0x1000).is_err());
}

#[test]
fn relocatable_images_start_at_the_region() {
    let image = elf(&[(1, 1 << 27, 0x4000, &[7, 8], 2)]);
    let mut region = vec![0u8; 8];
    assert!(load_into_reserved_region(&image, &mut region, 0x8650_0000).is_ok());
    assert_eq!(&region[..2], &[7, 8]);
}

#[test]
fn damaged_images_are_refused() {
    let image = elf(&[(1, 0, 0x1000, &[1, 2, 3], 5)]);
    let mut wrong_class = image.clone();
    wrong_class[4] = 2;
    assert_eq!(
        program_headers(&wrong_class),
        Err("qcom-venus-sc7180: firmware is not little-endian ELF32")
    );
    assert_eq!(
        program_headers(&image[..51]),
        Err("qcom-venus-sc7180: firmware is not little-endian ELF32")
    );
    let mut no_headers = image.clone();
    no_headers[44] = 0;
    assert_eq!(
        program_headers(&no_headers),
        Err("qcom-venus-sc7180: unsupported ELF program-header table")
    );
    let mut many = image.clone();
    many[44] = 40;
    assert_eq!(
        program_headers(&many),
        Err("qcom-venus-sc7180: truncated ELF program-header table")
    );
    let mut region = vec![0u8; 32];
    let empty = elf(&[(2, 0, 0x1000, &[1], 1)]);
    assert!(load_into_reserved_region(&empty, &mut region, 0x1000).is_err());
    let truncated = &image[..image.len() - 1];
    assert!(load_into_reserved_region(truncated, &mut region, 0x1000).is_err());
    let longer_than_memory = elf(&[(1, 0, 0x1000, &[1, 2, 3], 2)]);
    assert!(load_into_reserved_region(&longer_than_memory, &mut region, 0x1000).is_err());
    assert!(check_file_size(0, 10).is_err());
    assert!(check_file_size(11, 10).is_err());
    assert_eq!(check_file_size(10, 10), Ok(()));
    assert_eq!(advance_read(3, 4), Ok(7));
    assert!(advance_read(3, 0).is_err());
}

// Memory and registers.

#[test]
fn allocations_are_whole_pages() {
    assert_eq!(page_count(1), Ok(1));
    assert_eq!(page_count(4096), Ok(1));
    assert_eq!(page_count(4097), Ok(2));
    assert!(page_count(0).is_err());
    assert_eq!(allocation_size(3), Ok(12_288));
    assert!(allocation_size(usize::MAX).is_err());
    assert_eq!(firmware_address(0x1000_0000), Ok(0x1000_0000));
    assert!(firmware_address(0x1_0000_0000).is_err());
    assert!(check_clean(0, 4096, 4096).is_ok());
    assert!(check_clean(1, 4096, 4096).is_err());
    assert!(check_invalidate(usize::MAX, 1, 4096).is_err());
}

#[test]
fn the_firmware_is_started_by_register_programs() {
    assert!(matches!(assert_arm9_reset()[1], RegOp::Barrier));
    let release = release_arm9(0x50_0000).unwrap();
    assert_eq!(release[1], RegOp::Write { offset: 0xe102c, value: 0x50_0000 });
    assert_eq!(release[8], RegOp::Write { offset: 0xe3000, value: 0 });
    assert!(release_arm9(0x1_0000_0000).is_err());
    assert_eq!(initialize_hfi(0x1000, 0x30_0000, 0).len(), 7);
    let with_sfr = initialize_hfi(0x1000, 0x30_0000, 0x2000);
    assert_eq!(with_sfr.len(), 8);
    assert_eq!(with_sfr[4], RegOp::Write { offset: 0xd205c, value: 0x2000 });
    assert!(matches!(poll_boot(1, 0, 0), BootPoll::Ready(1)));
    assert!(matches!(
        poll_boot(4, 0, 0),
        BootPoll::Failed("qcom-venus-sc7180: firmware rejected UC region")
    ));
    assert!(matches!(poll_boot(0, 0, 99_999), BootPoll::Wait(50)));
    assert!(matches!(
        poll_boot(0, 0, 100_000),
        BootPoll::Failed("qcom-venus-sc7180: HFI core initialization timed out")
    ));
    assert_eq!(raise_host_interrupt()[0], RegOp::Write { offset: 0xdf018, value: 0x8000 });
    assert_eq!(acknowledge_interrupt(0x14)[1], RegOp::Write { offset: 0xe0014, value: 0x14 });
}

// Frames.

#[test]
fn frame_sizes_are_aligned() {
    assert_eq!(align_up_u32(1, 128), Ok(128));
    assert_eq!(align_up_u32(128, 128), Ok(128));
    assert!(align_up_u32(u32::MAX, 128).is_err());
    // Six is no power of two: the bits of five are cleared in ten.
    assert_eq!(align_up_u32(5, 6), Ok(10));
    let layout = Nv12Layout::initial(96, 96).unwrap();
    assert_eq!((layout.y_stride, layout.y_scanlines, layout.uv_scanlines), (128, 96, 48));
    assert_eq!(layout.linear_size, 20_480);
    assert_eq!(layout.ubwc_size, 45_056);
    assert_eq!(nv12_ubwc_size(96, 96), Ok(45_056));
    assert_eq!(layout.tight_payload_len(), Ok(96 * 96 * 3 / 2));
    assert_eq!(
        Nv12Layout::initial(0, 96),
        Err("qcom-venus-sc7180: invalid decoded dimensions")
    );
    assert_eq!(
        Nv12Layout::initial(95, 96),
        Err("qcom-venus-sc7180: unsupported or invalid NV12 crop")
    );
    assert!(Nv12Layout::initial(0x4000_0000, 0x4000_0000).is_err());
}

fn stream(width: u32, height: u32, crop: (u32, u32, u32, u32)) -> SequenceInfo {
    SequenceInfo {
        width,
        height,
        crop_left: crop.0,
        crop_top: crop.1,
        crop_width: crop.2,
        crop_height: crop.3,
        minimum_dpb_count: 2,
    }
}

fn completed(packet_buffer: u32, filled_len: u32) -> FillDone {
    FillDone {
        session: 1,
        stream_id: 1,
        error: 0,
        flags: 0x10,
        filled_len,
        offset: 0,
        output_tag: 1,
        packet_buffer,
    }
}

#[test]
fn rows_are_moved_together() {
    let layout = Nv12Layout::new(stream(96, 96, (2, 4, 4, 2))).unwrap();
    let mut out = vec![0u8; 4096 + 20_480];
    for x in 0..4 {
        out[4096 + 4 * 128 + 2 + x] = 10 + x as u8;
        out[4096 + 5 * 128 + 2 + x] = 20 + x as u8;
        out[4096 + 96 * 128 + 2 * 128 + 2 + x] = 30 + x as u8;
    }
    assert_eq!(compact_nv12(&mut out, 64, &layout, &completed(0, 1)), Ok(()));
    assert_eq!(
        &out[64..76],
        &[10, 11, 12, 13, 20, 21, 22, 23, 30, 31, 32, 33]
    );
    let mut other = completed(0, 1);
    other.stream_id = 0;
    assert_eq!(
        compact_nv12(&mut out, 64, &layout, &other),
        Err("qcom-venus-sc7180: completed buffer is not linear output2")
    );
    let mut beyond = completed(0, 1);
    beyond.offset = 1 << 20;
    assert_eq!(
        compact_nv12(&mut out, 64, &layout, &beyond),
        Err("qcom-venus-sc7180: decoded frame exceeds output allocation")
    );
}

// Exchanges.

#[test]
fn answers_are_told_by_type_and_session() {
    let start = [16, 0x0022_1002, 7, 0];
    let wanted = Wanted::SessionMessage { response_type: 0x0022_1002, session: 7 };
    assert!(is_answer(&start, wanted));
    assert!(!is_answer(&[16, 0x0022_1002, 8, 0], wanted));
    assert!(!is_answer(&start, Wanted::Nothing));
    assert!(is_answer(&[12, 0x0002_0001, 0], Wanted::Message { response_type: 0x0002_0001 }));
    assert!(accept_answer(&[16, 0x0022_1002, 7, 9], wanted).is_err());
    assert!(accept_answer(&[16, 0x0022_1009, 7, 9], Wanted::PropertyInfo { session: 7 }).is_ok());
}

#[test]
fn other_messages_wait_for_their_turn() {
    let wanted = Wanted::SessionMessage { response_type: 0x0022_1002, session: 7 };
    let mut deferred = Deferred::new();
    assert_eq!(deferred.sort(vec![16, 0x0022_1007, 8, 0], wanted), Ok(None));
    assert_eq!(
        deferred.sort(vec![16, 0x0022_1002, 7, 0], wanted),
        Ok(Some(vec![16, 0x0022_1002, 7, 0]))
    );
    assert_eq!(deferred.take(wanted), Ok(None));
    let other = Wanted::SessionMessage { response_type: 0x0022_1007, session: 8 };
    assert_eq!(deferred.take(other), Ok(Some(vec![16, 0x0022_1007, 8, 0])));
    assert_eq!(deferred.take(other), Ok(None));
    assert_eq!(deferred.sort(vec![16, 0x0002_1001, 0, 1], wanted), Err(FATAL_EVENT));
    assert_eq!(deferred.next(), None);
    assert_eq!(check_deadline(0, 999_999, 1_000_000), Ok(()));
    assert!(check_deadline(0, 1_000_000, 1_000_000).is_err());
    assert!(!may_sleep(0, 49, true, true));
    assert!(may_sleep(0, 50, true, true));
    assert!(!may_sleep(0, 50, false, true));
    assert!(!may_sleep(0, 50, true, false));
    let exchanges = boot();
    assert_eq!(exchanges[0].packet, sys_init());
    assert_eq!(exchanges[0].wanted, Wanted::Message { response_type: 0x0002_0001 });
}

// Sessions.

/// What the firmware answers, with these buffer requirements.
fn answer_of(wanted: Wanted, requirements: &[[u32; 8]]) -> Vec<u32> {
    match wanted {
        Wanted::Nothing => vec![],
        Wanted::Message { response_type } => vec![12, response_type, 0],
        Wanted::SessionMessage { response_type, session } => vec![16, response_type, session, 0],
        Wanted::PropertyInfo { session } => {
            let mut words = vec![0, 0x0022_1009, session, 1, 0x0020_2001];
            for record in requirements {
                words.extend_from_slice(record);
            }
            words
        }
    }
}

const REQUIREMENTS: [[u32; 8]; 4] = [
    [6, 4096, 0, 1, 0, 2, 0, 256],
    [4, 8192, 0, 1, 0, 1, 0, 256],
    [2, 50_000, 0, 3, 0, 4, 0, 256],
    [7, 0, 0, 1, 0, 9, 0, 256],
];

fn set_up(id: u32) -> VenusSession {
    let (mut setup, mut progress) = SessionSetup::start(id);
    let mut address = 0x2000_0000;
    let mut sent = vec![];
    loop {
        progress = match progress {
            Progress::Exchange(exchange) => {
                let answer = answer_of(exchange.wanted, &REQUIREMENTS);
                sent.push(exchange.packet[1]);
                setup.advance(Event::Answered(&answer))
            }
            Progress::Allocate(size) => {
                address += size;
                setup.advance(Event::Allocated(address))
            }
            Progress::Done => break,
            Progress::Failed(e) => panic!("{}", e),
        };
    }
    assert_eq!(sent[0], 0x0001_0007);
    assert_eq!(*sent.last().unwrap(), 0x0021_1002);
    VenusSession::new(id, setup.granted)
}

#[test]
fn a_session_is_set_up_with_its_internal_buffers() {
    let session = set_up(7);
    let kinds: Vec<(u32, u32)> = session.internal.iter().map(|b| (b.buffer_type, b.size)).collect();
    assert_eq!(kinds, vec![(6, 4096), (6, 4096), (4, 8192)]);
    let teardown = session.teardown();
    assert_eq!(teardown.len(), 6);
    assert_eq!(teardown[0].packet[1], 0x0021_1003);
    assert_eq!(teardown[2].packet[1], 0x0021_100b);
    assert_eq!(teardown[5].packet[1], 0x0001_0008);
}

#[test]
fn setup_ends_where_a_requirement_cannot_be_met() {
    let (mut setup, mut progress) = SessionSetup::start(7);
    let too_many = [[6, 4096, 0, 1, 0, 9, 0, 256]];
    let error = loop {
        progress = match progress {
            Progress::Exchange(exchange) => {
                let answer = answer_of(exchange.wanted, &too_many);
                setup.advance(Event::Answered(&answer))
            }
            Progress::Failed(e) => break e,
            _ => panic!("it must fail"),
        };
    };
    assert_eq!(error, "qcom-venus-sc7180: firmware requested too many internal buffers");
    let (mut failing, _) = SessionSetup::start(7);
    assert!(matches!(failing.advance(Event::Failed("gone")), Progress::Failed("gone")));
}

fn interface() -> VideoInterface {
    VideoInterface {
        coded_h264: 1,
        pixel_nv12: 5,
        frame_magic: *b"VFRM",
        frame_header_len: 64,
    }
}

fn request(stream_id: u32) -> DecodeRequest {
    DecodeRequest {
        stream_id,
        coded_format: 1,
        input_paddr: 0x9000_0000,
        input_vaddr: 0x1_0000,
        input_len: 100,
        output_paddr: 0x9000_2000,
        output_vaddr: 0x1_2000,
        output_len: 65_536,
        output_offset: 0x2000,
        timestamp: 99,
    }
}

fn mapped() -> FrontendMappings {
    FrontendMappings::mapped(&request(7), Ok(0x3000_0000), Ok(0x3000_2000)).unwrap()
}

#[test]
fn frontend_buffers_are_checked() {
    assert_eq!(FrontendMappings::check(&request(7)), Ok(()));
    let mut apart = request(7);
    apart.output_paddr += 1;
    assert_eq!(
        FrontendMappings::check(&apart),
        Err("qcom-venus-sc7180: frontend buffers are not contiguous")
    );
    let mut empty = request(7);
    empty.output_offset = 0;
    assert!(FrontendMappings::check(&empty).is_err());
    let mut large = request(7);
    large.output_len = 16_777_217;
    assert!(FrontendMappings::check(&large).is_err());
    assert_eq!(
        FrontendMappings::mapped(&request(7), Err(()), Ok(0)),
        Err("qcom-venus-sc7180: failed to map frontend input")
    );
    assert_eq!(
        FrontendMappings::mapped(&request(7), Ok(0x1_0000_0000), Ok(0)),
        Err("qcom-venus-sc7180: frontend DMA address exceeds HFI 32-bit range")
    );
    assert_eq!(
        FrontendMappings::mapped(&request(7), Ok(1), Ok(0)),
        Err("qcom-venus-sc7180: frontend DMA buffers are not page aligned")
    );
    assert!(mapped().matches(&request(7)));
}

#[test]
fn submissions_are_checked() {
    let session = VenusSession::new(7, vec![]);
    assert_eq!(session.check_submit(&interface(), &request(7)), Ok(true));
    assert_eq!(
        session.check_submit(&interface(), &request(8)),
        Err("qcom-venus-sc7180: invalid decode session or format")
    );
    let mut long = request(7);
    long.input_len = 0x2001;
    assert_eq!(
        session.check_submit(&interface(), &long),
        Err("qcom-venus-sc7180: invalid H.264 access-unit size")
    );
    let mut mapped_session = VenusSession::new(7, vec![]);
    mapped_session.set_mappings(mapped());
    assert_eq!(mapped_session.check_submit(&interface(), &request(7)), Ok(false));
    mapped_session.publish(&request(7), 1, 0);
    assert_eq!(
        mapped_session.check_submit(&interface(), &request(7)),
        Err("qcom-venus-sc7180: session decode is already in flight")
    );
    assert!(!mapped_session.pending_expired(1_999_999));
    assert!(mapped_session.pending_expired(2_000_000));
    assert!(mapped_session.fail_pending());
    assert!(!mapped_session.fail_pending());
}

fn reconfigure(session: &mut VenusSession, sequence: SequenceInfo) -> Result<(), &'static str> {
    let (mut procedure, mut progress) = Reconfiguration::start(session, sequence)?;
    let mut address = 0x4000_0000;
    loop {
        progress = match progress {
            Progress::Exchange(exchange) => {
                let answer = answer_of(exchange.wanted, &REQUIREMENTS);
                procedure.advance(session, Event::Answered(&answer))
            }
            Progress::Allocate(size) => {
                address += size;
                procedure.advance(session, Event::Allocated(address))
            }
            Progress::Done => return Ok(()),
            Progress::Failed(e) => return Err(e),
        };
    }
}

#[test]
fn a_stream_is_decoded_from_its_announcement_to_its_frame() {
    let mut session = set_up(7);
    session.set_mappings(mapped());
    let first = session.prepare_submit(&request(7)).unwrap();
    assert!(first.output.is_none());
    assert_eq!(first.tag, 1);
    session.publish(&request(7), first.tag, 10);

    let event = sequence_event(&[0x1001, 3, 96, 96], 1);
    let sequence = match session.handle_packet(&event) {
        Ok(PacketOutcome::Reconfigure(sequence)) => sequence,
        other => panic!("{:?}", other),
    };
    assert_eq!(reconfigure(&mut session, sequence), Ok(()));
    // Three pictures, and scratch replaced while the rest stays.
    assert_eq!(session.dpbs.len(), 3);
    assert_eq!(session.dpbs[0].size, 50_000);
    assert_eq!(session.dpb_queued, vec![true; 3]);
    let kinds: Vec<u32> = session.internal.iter().map(|b| b.buffer_type).collect();
    assert_eq!(kinds, vec![4, 6, 6]);
    assert_eq!(
        session.handle_packet(&event),
        Err("qcom-venus-sc7180: unsupported mid-stream sequence change")
    );
    let fill = session.output_after_reconfiguration().unwrap();
    assert_eq!(fill.clean_len, 20_480);
    assert_eq!(fill.clean_vaddr, 0x1_3000);

    let picture = fill_done_message(7, 0, 33, 0, 0);
    assert_eq!(session.handle_packet(&picture), Ok(PacketOutcome::RequeueDpb(1)));
    assert_eq!(session.dpb_queued, vec![true, false, true]);
    assert_eq!(session.queue_dpb(1).unwrap()[7], 33);
    session.dpb_sent(1);
    assert_eq!(session.queue_dpb(3), Err("qcom-venus-sc7180: invalid DPB index"));

    let wrong = fill_done_message(7, 1, 2, 0, 0);
    assert_eq!(
        session.handle_packet(&wrong),
        Err("qcom-venus-sc7180: output completed with an unknown tag")
    );
    let message = fill_done_message(7, 1, 1, 0x3000_3000, 18_432);
    let (completed_request, done) = match session.handle_packet(&message) {
        Ok(PacketOutcome::Output { request, done }) => (request, done),
        other => panic!("{:?}", other),
    };
    assert_eq!(completed_request, request(7));
    assert!(session.pending.is_none());
    let mut out = vec![0u8; 65_536];
    out[4096] = 42;
    let frame = session
        .finish_output(&interface(), &mut out, &completed_request, &done)
        .unwrap();
    assert_eq!((frame.width, frame.height, frame.pixel_format), (96, 96, 5));
    assert_eq!(frame.payload_offset, 0x2000 + 64);
    assert_eq!(frame.payload_len, 96 * 96 * 3 / 2);
    assert_eq!(frame.timestamp, 99);
    assert_eq!(&out[..4], b"VFRM");
    assert_eq!(&out[4..8], &96u32.to_le_bytes());
    assert_eq!(&out[16..20], &13_824u32.to_le_bytes());
    assert_eq!(out[64], 42);
}

#[test]
fn unknown_outputs_are_refused() {
    let mut session = VenusSession::new(7, vec![]);
    let mut out = vec![0u8; 65_536];
    assert_eq!(
        session.finish_output(&interface(), &mut out, &request(7), &completed(0, 1)),
        Err("qcom-venus-sc7180: output completed without a decoded layout")
    );
    session.layout = Some(Nv12Layout::initial(96, 96).unwrap());
    assert_eq!(
        session.finish_output(&interface(), &mut out, &request(7), &completed(0, 1)),
        Err("qcom-venus-sc7180: output DMA mapping is unavailable")
    );
    session.set_mappings(mapped());
    assert_eq!(
        session.finish_output(&interface(), &mut out, &request(7), &completed(0, 1)),
        Err("qcom-venus-sc7180: firmware completed an unknown output buffer")
    );
    assert_eq!(
        session.finish_output(&interface(), &mut out, &request(7), &completed(0x3000_3000, 0)),
        Err("qcom-venus-sc7180: firmware returned an invalid output length")
    );
    assert_eq!(
        session.handle_packet(&fill_done_message(7, 1, 1, 0, 0)),
        Err("qcom-venus-sc7180: output completed without an in-flight frame")
    );
    assert_eq!(
        session.handle_packet(&fill_done_message(8, 1, 1, 0, 0)),
        Err("qcom-venus-sc7180: fill completion has the wrong session")
    );
    assert_eq!(
        session.handle_packet(&[16, 0x0002_1001, 7, 2]),
        Err("qcom-venus-sc7180: fatal firmware event during decode")
    );
    // A layout in force needs the output buffer with each input buffer.
    let submission = session.prepare_submit(&request(7)).unwrap();
    assert_eq!(submission.output.unwrap().packet[8], 0x3000_3000);
}

#[test]
fn a_failed_allocation_keeps_the_other_buffers() {
    let mut session = set_up(7);
    let (mut procedure, mut progress) =
        Reconfiguration::start(&session, stream(96, 96, (0, 0, 96, 96))).unwrap();
    let error = loop {
        progress = match progress {
            Progress::Exchange(exchange) => {
                let answer = answer_of(exchange.wanted, &REQUIREMENTS);
                procedure.advance(&mut session, Event::Answered(&answer))
            }
            Progress::Allocate(_) => {
                procedure.advance(&mut session, Event::Failed("no memory"))
            }
            Progress::Failed(e) => break e,
            Progress::Done => panic!("it must fail"),
        };
    };
    assert_eq!(error, "no memory");
    let kinds: Vec<u32> = session.internal.iter().map(|b| b.buffer_type).collect();
    assert_eq!(kinds, vec![4]);
    assert!(session.layout.is_none());
}

// The backend.

fn opened(count: u32) -> VenusBackend {
    let mut backend = VenusBackend::new();
    backend.core = true;
    for _ in 0..count {
        let id = backend.begin_create(&interface(), 1).unwrap();
        backend.session_created(VenusSession::new(id, vec![]));
    }
    backend
}

#[test]
fn sessions_get_identifiers_of_their_own() {
    let backend = opened(3);
    assert_eq!(backend.active, vec![1, 2, 3]);
    let mut next = 2;
    assert_eq!(allocate_session_id(&mut next, &backend.sessions), Ok(4));
    assert_eq!(next, 5);
    let mut wrapped = u32::MAX;
    assert_eq!(allocate_session_id(&mut wrapped, &backend.sessions), Ok(u32::MAX));
    assert_eq!(wrapped, 1);
    let mut full = opened(16);
    assert_eq!(
        full.begin_create(&interface(), 1),
        Err("qcom-venus-sc7180: maximum video session count reached")
    );
    assert_eq!(
        opened(0).begin_create(&interface(), 2),
        Err("qcom-venus-sc7180: only stateful H.264 is supported")
    );
}

#[test]
fn a_round_submits_and_reports() {
    let mut backend = opened(2);
    assert_eq!(backend.submit_decode(&request(1)), Ok(()));
    assert_eq!(backend.submit_decode(&request(2)), Ok(()));
    assert!(backend.submit_decode(&request(9)).is_err());
    let mut round = backend.start_round();
    let (first, _) = backend.next_submission(&mut round);
    let (first, index) = first.unwrap();
    assert_eq!((first.stream_id, index), (1, 0));
    backend.sessions[0].publish(&first, 1, 0);
    backend.submission_done(&mut round, 1, Ok(()));
    let (second, _) = backend.next_submission(&mut round);
    assert_eq!(second.unwrap().0.stream_id, 2);
    backend.submission_done(
        &mut round,
        2,
        Err("qcom-venus-sc7180: invalid H.264 access-unit size"),
    );
    assert!(backend.next_submission(&mut round).0.is_none());
    assert_eq!(backend.packet_read(&mut round, Ok(None)), MessageStep::Stop);
    assert_eq!(
        backend.packet_read(&mut round, Ok(Some(&[16, 0x0022_1007, 9, 0]))),
        MessageStep::Skip
    );
    assert_eq!(
        backend.packet_read(&mut round, Ok(Some(&[16, 0x0022_1007, 1, 0]))),
        MessageStep::Handle(0)
    );
    backend.packet_handled(&mut round, 0, Ok(None));
    backend.finish_round(&mut round, 1);
    assert_eq!(backend.inflight, 1);
    backend.publish(&round);
    assert_eq!(backend.dequeue_frame(1), Ok(None));
    // An error of the session's own resources fails that session only.
    assert!(is_session_resource_error("qcom-venus-sc7180: invalid H.264 access-unit size"));
    assert!(!is_session_resource_error(FATAL_EVENT));
    assert!(!backend.failed);
    assert_eq!(
        backend.dequeue_frame(2),
        Err("qcom-venus-sc7180: invalid H.264 access-unit size")
    );
    assert_eq!(backend.dequeue_frame(2), Ok(None));
}

#[test]
fn a_core_failure_reports_everything_in_flight() {
    let mut backend = opened(2);
    backend.sessions[0].publish(&request(1), 1, 0);
    backend.sessions[1].publish(&request(2), 1, 0);
    let mut round = backend.start_round();
    backend.finish_round(&mut round, 2_000_000);
    assert!(backend.failed);
    assert_eq!(round.completions.len(), 2);
    assert_eq!(backend.inflight, 0);
    backend.publish(&round);
    assert_eq!(backend.dequeue_frame(1), Err(DECODE_TIMED_OUT));
    assert_eq!(backend.dequeue_frame(2), Err(DECODE_TIMED_OUT));
    assert_eq!(
        backend.begin_create(&interface(), 1),
        Err("qcom-venus-sc7180: firmware is quarantined; close existing sessions first")
    );
    assert!(matches!(backend.begin_destroy(1), Ok(Destruction::Abandoned)));
    assert!(backend.failed);
    assert!(matches!(backend.begin_destroy(2), Ok(Destruction::Abandoned)));
    // The quarantine ends with its last session.
    assert!(!backend.failed);
    assert!(!backend.core);
    assert!(matches!(
        backend.begin_destroy(2),
        Err("qcom-venus-sc7180: unknown video session")
    ));
}

#[test]
fn a_session_failure_spares_the_others() {
    let mut backend = opened(2);
    backend.sessions[0].publish(&request(1), 1, 0);
    backend.sessions[1].publish(&request(2), 1, 0);
    let mut round = backend.start_round();
    backend.packet_handled(&mut round, 0, Err("output lost"));
    assert!(!backend.failed);
    assert!(backend.sessions[0].pending.is_none());
    assert!(backend.sessions[1].pending.is_some());
    backend.finish_round(&mut round, 1);
    backend.publish(&round);
    assert_eq!(backend.dequeue_frame(1), Err("output lost"));
    assert_eq!(backend.dequeue_frame(2), Ok(None));
}

#[test]
fn buffers_are_handed_over_together() {
    let (mut setup, mut progress) = SessionSetup::start(7);
    let mut allocated = 0;
    let mut named = 0;
    loop {
        progress = match progress {
            Progress::Exchange(exchange) => {
                // Internal buffers are named only once all of them are there.
                if exchange.packet[1] == 0x0001_1002 {
                    assert_eq!(allocated, 3);
                    named += 1;
                }
                setup.advance(Event::Answered(&answer_of(exchange.wanted, &REQUIREMENTS)))
            }
            Progress::Allocate(_) => {
                allocated += 1;
                setup.advance(Event::Allocated(0x2000_0000 + 0x1_0000 * allocated))
            }
            Progress::Done => break,
            Progress::Failed(e) => panic!("{}", e),
        };
    }
    assert_eq!(named, 3);
}

#[test]
fn fatal_events_quarantine_the_firmware() {
    let mut backend = opened(1);
    let mut round = backend.start_round();
    assert_eq!(
        backend.packet_read(&mut round, Ok(Some(&[16, 0x0002_1001, 0, 1]))),
        MessageStep::Quarantined
    );
    assert!(backend.failed);
    assert_eq!(backend.last_error, Some(FATAL_EVENT));
    let mut other = opened(1);
    let mut second = other.start_round();
    assert_eq!(other.packet_read(&mut second, Err("broken")), MessageStep::Quarantined);
    assert_eq!(other.last_error, Some("broken"));
}

#[test]
fn a_closed_stream_leaves_nothing_behind() {
    let mut backend = opened(2);
    assert_eq!(backend.submit_decode(&request(1)), Ok(()));
    match backend.begin_destroy(1) {
        Ok(Destruction::TakeDown(session)) => assert_eq!(session.id, 1),
        other => panic!("{:?}", other),
    }
    backend.finish_destroy(Ok(()));
    assert!(!backend.failed);
    assert!(!backend.session_is_active(1));
    assert!(backend.session_is_active(2));
    assert!(backend.queued.is_empty());
    assert!(backend.dequeue_frame(1).is_err());
    let mut without_core = opened(1);
    without_core.core = false;
    assert!(matches!(without_core.begin_destroy(1), Err(CORE_GONE)));
    backend.finish_destroy(Err("stuck"));
    assert!(backend.failed);
}

#[test]
fn the_limits_are_announced() {
    let announced = capabilities(&interface());
    assert_eq!(announced.max_sessions, 16);
    assert_eq!(announced.max_inflight_decodes, 4);
    assert_eq!(announced.output_pixel_format, 5);
    assert!(announced.supports_h264);
    assert!(!announced.supports_av1);
    let mut backend = opened(1);
    assert_eq!(backend.worker_timeout_ns(), None);
    backend.inflight = 1;
    assert_eq!(backend.worker_timeout_ns(), Some(100_000));
    backend.quarantine("stuck");
    assert_eq!(backend.last_error, Some("stuck"));
}

#[test]
fn released_buffers_are_named_in_their_packet() {
    let session = VenusSession::new(
        7,
        vec![InternalBuffer { buffer_type: 6, size: 4096, address: 0x9000 }],
    );
    let batch = session.teardown();
    assert_eq!(batch[2].packet, release_internal_buffer(7, 6, 4096, 0x9000));
}
