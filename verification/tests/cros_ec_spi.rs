//! ChromeOS EC host commands.

use coachz_drivers::bytes::read_be_u32;
use coachz_drivers::cros_ec_spi::protocol::{
    build_motion_sense_payload, parse_features, parse_mkbp_event, parse_motion_fifo_data,
    parse_motion_fifo_event, parse_motion_fifo_info, parse_motion_fifo_interrupt_enabled,
    parse_motion_i32_response, parse_motion_sensor_data, parse_motion_sensor_info_v1,
    parse_motion_sensor_info_v3, parse_motion_sensor_summary, pwm_duty_from_percent,
    pwm_percent_from_duty, CrosEcError, CrosEcMotionFifoData, CrosEcMotionFifoInfo,
    CrosEcMotionSensorData, CrosEcMotionSensorInfo, CrosEcMotionSensorSummary, MkbpEvent,
    CROS_EC_MAX_MOTION_FIFO_VECTORS, CROS_EC_MOTION_SENSOR_FLAG_TIMESTAMP,
    CROS_EC_MOTION_SENSOR_FLAG_WAKEUP, EC_FEATURE_MOTION_SENSE, EC_FEATURE_MOTION_SENSE_FIFO,
    EC_FEATURE_MOTION_SENSE_TIGHT_TIMESTAMPS, MKBP_MORE_EVENTS, MOTION_SENSE_COMMAND_DATA,
    MOTION_SENSE_COMMAND_DUMP, MOTION_SENSE_COMMAND_SENSOR_ODR,
};
use coachz_drivers::cros_ec_spi::{
    event_retry_delay_ns, EVENT_RETRY_INITIAL_NS, EVENT_RETRY_MAX_NS,
};

#[test]
fn parses_mkbp_type_more_flag_and_payload() {
    let response = [MKBP_MORE_EVENTS | 4, 3, 0, 0, 0];
    assert_eq!(
        parse_mkbp_event(&response),
        Ok(MkbpEvent {
            event_type: 4,
            more: true,
            data: &[3, 0, 0, 0],
        })
    );
}

#[test]
fn accepts_terminal_event_and_rejects_empty_response() {
    assert_eq!(
        parse_mkbp_event(&[4, 2, 0, 0, 0]),
        Ok(MkbpEvent {
            event_type: 4,
            more: false,
            data: &[2, 0, 0, 0],
        })
    );
    assert_eq!(parse_mkbp_event(&[]), Err(CrosEcError::InvalidResponse));
}

#[test]
fn parses_big_endian_irq_cells() {
    assert_eq!(read_be_u32(&[0, 0, 0, 94, 0, 0, 0, 8], 0), Some(94));
    assert_eq!(read_be_u32(&[0, 0, 0, 94, 0, 0, 0, 8], 4), Some(8));
    assert_eq!(read_be_u32(&[0, 0, 0], 0), None);
}

#[test]
fn event_retry_uses_bounded_exponential_backoff() {
    assert_eq!(event_retry_delay_ns(0), EVENT_RETRY_INITIAL_NS);
    assert_eq!(event_retry_delay_ns(1), EVENT_RETRY_INITIAL_NS);
    assert_eq!(event_retry_delay_ns(2), 500_000_000);
    assert_eq!(event_retry_delay_ns(3), 1_000_000_000);
    assert_eq!(event_retry_delay_ns(6), EVENT_RETRY_MAX_NS);
    assert_eq!(event_retry_delay_ns(u64::MAX), EVENT_RETRY_MAX_NS);
}

#[test]
fn converts_display_pwm_percentages_without_overflow() {
    assert_eq!(pwm_duty_from_percent(0), Ok(0));
    assert_eq!(pwm_duty_from_percent(50), Ok(32_768));
    assert_eq!(pwm_duty_from_percent(100), Ok(65_535));
    assert_eq!(
        pwm_duty_from_percent(101),
        Err(CrosEcError::InvalidArgument)
    );
    for percent in 0..=100 {
        let duty = pwm_duty_from_percent(percent).unwrap();
        assert_eq!(pwm_percent_from_duty(duty), percent);
    }
}

#[test]
fn parses_exact_feature_words_and_motion_feature_positions() {
    let response = [
        1 << EC_FEATURE_MOTION_SENSE,
        0,
        0,
        1 << (EC_FEATURE_MOTION_SENSE_FIFO - 24),
        1 << (EC_FEATURE_MOTION_SENSE_TIGHT_TIMESTAMPS - 32),
        0,
        0,
        0,
    ];
    let features = parse_features(&response).unwrap();
    assert!(features.supports_motion_sense());
    assert!(features.supports_motion_sense_fifo());
    assert!(features.supports_motion_sense_tight_timestamps());
    assert!(!features.has_feature(64));
    assert_eq!(
        parse_features(&response[..7]),
        Err(CrosEcError::InvalidResponse)
    );
}

#[test]
fn parses_aligned_mkbp_motion_fifo_snapshot() {
    let event = [
        0xaa, 0xbb, 0xcc, // alignment bytes are not protocol data
        0x00, 0x02, // size = 512
        0x07, 0x00, // count = 7
        0x78, 0x56, 0x34, 0x12, // timestamp
        0x00, 0x00, // no losses in the compact event
    ];
    assert_eq!(
        parse_motion_fifo_event(&event),
        Ok(CrosEcMotionFifoInfo {
            size: 512,
            count: 7,
            timestamp_us: 0x1234_5678,
            total_lost: 0,
            lost_per_sensor: Vec::new(),
        })
    );
    assert_eq!(
        parse_motion_fifo_event(&event[..event.len() - 1]),
        Err(CrosEcError::InvalidResponse)
    );
}

#[test]
fn encodes_full_sized_motion_requests() {
    assert_eq!(
        build_motion_sense_payload(MOTION_SENSE_COMMAND_DUMP, &[0]),
        Ok([
            MOTION_SENSE_COMMAND_DUMP,
            0,
            0,
            0,
            0,
            0,
            0,
            0,
            0,
            0,
            0,
            0,
            0,
        ])
    );
    assert_eq!(
        build_motion_sense_payload(
            MOTION_SENSE_COMMAND_SENSOR_ODR,
            &[7, 0, 0, 0, 0xff, 0xff, 0xff, 0xff],
        ),
        Ok([
            MOTION_SENSE_COMMAND_SENSOR_ODR,
            7,
            0,
            0,
            0,
            0xff,
            0xff,
            0xff,
            0xff,
            0,
            0,
            0,
            0,
        ])
    );
    assert_eq!(
        build_motion_sense_payload(MOTION_SENSE_COMMAND_DATA, &[0; 13]),
        Err(CrosEcError::InvalidArgument)
    );
}

#[test]
fn parses_motion_summary_info_and_sensor_data_exactly() {
    assert_eq!(
        parse_motion_sensor_summary(&[0xa5, 2]),
        Ok(CrosEcMotionSensorSummary {
            module_flags: 0xa5,
            sensor_count: 2,
        })
    );
    assert_eq!(
        parse_motion_sensor_summary(&[0xa5]),
        Err(CrosEcError::InvalidResponse)
    );
    assert_eq!(
        parse_motion_sensor_info_v1(&[0, 1, 24]),
        Ok(CrosEcMotionSensorInfo {
            sensor_type: 0,
            location: 1,
            chip: 24,
            min_frequency_millihz: None,
            max_frequency_millihz: None,
            fifo_max_event_count: None,
        })
    );
    assert_eq!(
        parse_motion_sensor_info_v3(&[
            0, 1, 24, 0, 0x10, 0, 0, 0, 0x20, 0, 0, 0, 0x30, 0, 0, 0,
        ]),
        Ok(CrosEcMotionSensorInfo {
            sensor_type: 0,
            location: 1,
            chip: 24,
            min_frequency_millihz: Some(16),
            max_frequency_millihz: Some(32),
            fifo_max_event_count: Some(48),
        })
    );
    assert_eq!(
        parse_motion_sensor_info_v3(&[0; 15]),
        Err(CrosEcError::InvalidResponse)
    );
    assert_eq!(
        parse_motion_sensor_data(&[0x80, 3, 0xfe, 0xff, 2, 0, 0, 0x80]),
        Ok(CrosEcMotionSensorData {
            flags: 0x80,
            sensor_num: 3,
            x: -2,
            y: 2,
            z: i16::MIN,
        })
    );
    let timestamp = parse_motion_sensor_data(&[
        CROS_EC_MOTION_SENSOR_FLAG_TIMESTAMP,
        3,
        0,
        0,
        0x78,
        0x56,
        0x34,
        0x12,
    ])
    .unwrap();
    assert_eq!(timestamp.timestamp_us(), Some(0x1234_5678));
    assert!(!timestamp.is_vector_sample());
    assert!(
        CrosEcMotionSensorData {
            flags: CROS_EC_MOTION_SENSOR_FLAG_WAKEUP,
            sensor_num: 0,
            x: 0,
            y: 0,
            z: 0,
        }
        .is_vector_sample()
    );
    assert_eq!(
        parse_motion_sensor_data(&[0; 7]),
        Err(CrosEcError::InvalidResponse)
    );
}

#[test]
fn parses_motion_fifo_with_strict_count_and_lengths() {
    assert_eq!(CROS_EC_MAX_MOTION_FIFO_VECTORS, 256);
    let info = [0x40, 0, 3, 0, 1, 0, 0, 0, 9, 0, 2, 0, 4, 0];
    assert_eq!(
        parse_motion_fifo_info(&info, 2),
        Ok(CrosEcMotionFifoInfo {
            size: 64,
            count: 3,
            timestamp_us: 1,
            total_lost: 9,
            lost_per_sensor: vec![2, 4],
        })
    );
    assert_eq!(
        parse_motion_fifo_info(&info[..13], 2),
        Err(CrosEcError::InvalidResponse)
    );

    let data = [
        2, 0, 0, 0, 0, 1, 1, 0, 2, 0, 3, 0, 0, 2, 0xfe, 0xff, 0, 0, 0, 0,
    ];
    assert_eq!(
        parse_motion_fifo_data(&data, 2),
        Ok(CrosEcMotionFifoData {
            samples: vec![
                CrosEcMotionSensorData {
                    flags: 0,
                    sensor_num: 1,
                    x: 1,
                    y: 2,
                    z: 3,
                },
                CrosEcMotionSensorData {
                    flags: 0,
                    sensor_num: 2,
                    x: -2,
                    y: 0,
                    z: 0,
                },
            ],
        })
    );
    assert_eq!(
        parse_motion_fifo_data(&data, 1),
        Err(CrosEcError::InvalidResponse)
    );
    assert_eq!(
        parse_motion_fifo_data(&data[..19], 2),
        Err(CrosEcError::InvalidResponse)
    );
}

#[test]
fn parses_exact_motion_parameter_and_fifo_interrupt_responses() {
    assert_eq!(parse_motion_i32_response(&[0xff, 0xff, 0xff, 0xff]), Ok(-1));
    assert_eq!(
        parse_motion_i32_response(&[0; 3]),
        Err(CrosEcError::InvalidResponse)
    );
    assert_eq!(
        parse_motion_fifo_interrupt_enabled(&[0, 0, 0, 0]),
        Ok(false)
    );
    assert_eq!(parse_motion_fifo_interrupt_enabled(&[1, 0, 0, 0]), Ok(true));
    assert_eq!(
        parse_motion_fifo_interrupt_enabled(&[2, 0, 0, 0]),
        Err(CrosEcError::InvalidResponse)
    );
}
