//! Motion sensor FIFO processing.

use coachz_drivers::cros_ec_spi::protocol::{
    CrosEcError, CrosEcFeatures, CrosEcMotionFifoInfo, CrosEcMotionSensorData, CrosEcMotionSensorInfo,
    CrosEcMotionSensorSummary,
};
use coachz_drivers::motion_sense::{
    check_features, check_summary, direct_sample_flags, event_fifo_info, has_undeliverable,
    map_location, map_sensor_type, process_fifo, push_verdict, queried_fifo_info, sensor_metadata,
    validate_fifo_info, Discovery, DiscoveryAction, DiscoveryReply, FifoDrain, FifoSource,
    SensorLocation, SensorType, SkipReason,
};
use coachz_drivers::motion_sense::processor::{
    anchored_timestamp_ns, classify, fifo_remaining_after_progress, wrapping_delta_us, ProcessError,
    Processor, Vector, VectorKind, FLAG_BYPASS_FIFO, FLAG_FLUSH, FLAG_ODR, FLAG_TABLET_MODE,
    FLAG_TIMESTAMP, FLAG_TIMESTAMP_APPROXIMATE_EVENT, FLAG_WAKEUP, FLAG_WAKEUP_EVENT,
};

fn sample(sensor: u8, value: i32) -> Vector {
    Vector {
        flags: 0,
        sensor,
        values: [value, value + 1, value + 2],
    }
}

fn timestamp(timestamp_us: u32) -> Vector {
    timestamp_for(0, timestamp_us)
}

fn timestamp_for(sensor: u8, timestamp_us: u32) -> Vector {
    Vector {
        flags: FLAG_TIMESTAMP,
        sensor,
        values: [
            0,
            timestamp_us as u16 as i32,
            (timestamp_us >> 16) as u16 as i32,
        ],
    }
}

#[test]
fn signed_u32_wrap_delta_and_future_clamp() {
    assert_eq!(wrapping_delta_us(2, u32::MAX - 2), 5);
    assert_eq!(wrapping_delta_us(u32::MAX - 2, 2), -5);
    assert_eq!(anchored_timestamp_ns(1_000_000, 100, 90), 990_000);
    assert_eq!(anchored_timestamp_ns(1_000_000, 100, 110), 1_000_000);
}

#[test]
fn timestamp_distribution_is_monotonic() {
    let mut processor = Processor::new(&[100_000], &[true], false);
    let result = processor
        .process(
            2_000_000_000,
            2_000_000,
            0,
            &[0],
            &[sample(0, 1), sample(0, 2), timestamp(2_000_000)],
        )
        .unwrap();
    let times: Vec<u64> = result
        .events
        .iter()
        .map(|event| event.timestamp_ns)
        .collect();
    assert_eq!(times, vec![1_990_000_000, 2_000_000_000]);
    assert!(times.windows(2).all(|window| window[0] <= window[1]));
    assert_eq!(result.events[0].flags & FLAG_TIMESTAMP_APPROXIMATE_EVENT, 0);
}

#[test]
fn interleaved_sensors_are_distributed_independently() {
    let mut processor = Processor::new(&[50_000, 100_000], &[true, true], false);
    let result = processor
        .process(
            1_000_000_000,
            10_000,
            0,
            &[0, 0],
            &[
                sample(0, 1),
                sample(1, 10),
                sample(1, 20),
                timestamp(10_000),
            ],
        )
        .unwrap();
    assert_eq!(result.events.len(), 3);
    assert_eq!(result.events[0].sensor, 0);
    assert_eq!(result.events[0].timestamp_ns, 1_000_000_000);
    assert_eq!(result.events[1].sensor, 1);
    assert_eq!(result.events[1].timestamp_ns, 990_000_000);
    assert_eq!(result.events[2].timestamp_ns, 1_000_000_000);
}

#[test]
fn tight_timestamp_markers_apply_to_following_interleaved_samples() {
    let mut processor = Processor::new(&[50_000, 100_000], &[true, true], true);
    let result = processor
        .process(
            1_000_000_000,
            10_000,
            0,
            &[0, 0],
            &[
                timestamp_for(1, 9_990),
                sample(1, 10),
                timestamp_for(0, 9_995),
                sample(0, 20),
            ],
        )
        .unwrap();
    assert_eq!(result.events.len(), 2);
    assert_eq!(result.events[0].sensor, 1);
    assert_eq!(result.events[0].timestamp_ns, 999_990_000);
    assert_eq!(result.events[1].sensor, 0);
    assert_eq!(result.events[1].timestamp_ns, 999_995_000);
    assert!(
        result
            .events
            .iter()
            .all(|event| event.flags & FLAG_TIMESTAMP_APPROXIMATE_EVENT == 0)
    );
}

#[test]
fn metadata_vectors_are_classified_and_flush_is_exported() {
    assert_eq!(classify(FLAG_TIMESTAMP), VectorKind::Timestamp);
    assert_eq!(classify(FLAG_ODR), VectorKind::Odr);
    assert_eq!(classify(FLAG_FLUSH), VectorKind::Flush);
    assert_eq!(classify(FLAG_TABLET_MODE), VectorKind::TabletMode);
    assert_eq!(classify(FLAG_BYPASS_FIFO), VectorKind::Sample);
    assert_eq!(classify(FLAG_FLUSH | FLAG_WAKEUP), VectorKind::Invalid);
    assert_eq!(classify(FLAG_FLUSH | FLAG_ODR), VectorKind::Invalid);

    let mut processor = Processor::new(&[100_000], &[true], false);
    let result = processor
        .process(
            5_000,
            5,
            0,
            &[0],
            &[
                sample(0, 1),
                Vector {
                    flags: FLAG_ODR,
                    sensor: 0,
                    values: [0; 3],
                },
                Vector {
                    flags: FLAG_FLUSH,
                    sensor: 0,
                    values: [0; 3],
                },
            ],
        )
        .unwrap();
    assert_eq!(result.events.len(), 2);
    assert!(!result.events[0].flush);
    assert_eq!(result.events[0].flags & FLAG_TIMESTAMP_APPROXIMATE_EVENT, 0);
    assert!(result.events[1].flush);
    assert_eq!(result.events[1].flags & FLAG_WAKEUP_EVENT, 0);
}

#[test]
fn lost_samples_propagate_once_and_reset_interpolation() {
    let mut processor = Processor::new(&[100_000], &[true], false);
    let first = processor.process(100, 0, 3, &[3], &[sample(0, 1)]).unwrap();
    assert_eq!(first.events[0].lost, 3);
    let second = processor.process(200, 0, 0, &[0], &[sample(0, 2)]).unwrap();
    assert_eq!(second.events[0].lost, 0);
    assert_eq!(
        processor.process(300, 0, 0, &[1], &[]).err(),
        Some(ProcessError::LostCountMismatch)
    );
}

#[test]
fn timestamp_marker_loss_is_valid_but_forces_approximation() {
    let mut processor = Processor::new(&[100_000], &[true], false);
    let result = processor.process(100, 0, 3, &[2], &[sample(0, 1)]).unwrap();
    assert_eq!(result.unattributed_lost, 1);
    assert_eq!(result.events[0].lost, 2);
    assert!(result.events[0].flags & FLAG_TIMESTAMP_APPROXIMATE_EVENT != 0);
    assert_eq!(
        processor.process(200, 0, 1, &[2], &[]).err(),
        Some(ProcessError::LostCountMismatch)
    );
}

#[test]
fn malformed_and_out_of_range_vectors_are_bounded_discards() {
    let mut processor = Processor::new(&[100_000], &[true], false);
    let result = processor
        .process(
            100,
            0,
            0,
            &[0],
            &[
                sample(4, 1),
                Vector {
                    flags: 0x40,
                    sensor: 0,
                    values: [0; 3],
                },
            ],
        )
        .unwrap();
    assert_eq!(result.discarded, 2);
    assert!(result.events.is_empty());
}

#[test]
fn zero_progress_is_rejected_by_fifo_bounds_contract() {
    assert_eq!(fifo_remaining_after_progress(4, 4, 0), Err(()));
    assert_eq!(fifo_remaining_after_progress(4, 4, 5), Err(()));
    assert_eq!(fifo_remaining_after_progress(4, 4, 2), Ok(2));
}

// The hub.

fn status(size: u16, count: u16, lost: Vec<u16>, total_lost: u16) -> CrosEcMotionFifoInfo {
    CrosEcMotionFifoInfo { size, count, timestamp_us: 0, total_lost, lost_per_sensor: lost }
}

#[test]
fn a_notification_without_losses_says_it_all() {
    let mut event = vec![0u8; 13];
    assert!(matches!(event_fifo_info(&event[..12], 2), Err("malformed MKBP FIFO event")));
    event[3] = 8;
    event[5] = 2;
    match event_fifo_info(&event, 2) {
        Ok(FifoSource::Known(info)) => {
            assert_eq!((info.size, info.count), (8, 2));
            assert_eq!(info.lost_per_sensor, vec![0, 0]);
        }
        _ => panic!("nothing was lost"),
    }
    event[11] = 1;
    assert!(matches!(event_fifo_info(&event, 2), Ok(FifoSource::Query)));
    let reply = [8, 0, 2, 0, 1, 0, 0, 0, 3, 0, 1, 0, 2, 0];
    assert_eq!(queried_fifo_info(Ok(&reply), 2).unwrap().lost_per_sensor, vec![1, 2]);
    assert_eq!(queried_fifo_info(Ok(&reply), 3), Err("FIFO_INFO command failed"));
}

#[test]
fn inconsistent_fifo_states_are_refused() {
    assert_eq!(validate_fifo_info(&status(8, 2, vec![1, 2], 3), 2), Ok(()));
    assert_eq!(
        validate_fifo_info(&status(1, 2, vec![0, 0], 0), 2),
        Err("FIFO_INFO count exceeds capacity")
    );
    assert_eq!(
        validate_fifo_info(&status(8, 2, vec![0], 0), 2),
        Err("FIFO_INFO sensor loss count mismatch")
    );
    assert_eq!(
        validate_fifo_info(&status(8, 2, vec![2, 2], 3), 2),
        Err("FIFO_INFO total loss mismatch")
    );
}

#[test]
fn a_fifo_is_drained_in_batches() {
    let data = |x: i16| CrosEcMotionSensorData { flags: 0, sensor_num: 1, x, y: 0, z: -1 };
    let mut drain = FifoDrain::new(&status(8, 3, vec![], 0));
    assert_eq!(drain.next_request(), Ok(Some(3)));
    assert_eq!(drain.accept(3, &[]), Err("FIFO_READ made invalid progress"));
    assert_eq!(drain.accept(1, &[data(1), data(2)]), Err("FIFO_READ made invalid progress"));
    assert_eq!(drain.accept(3, &[data(1), data(2)]), Ok(()));
    assert_eq!(drain.next_request(), Ok(Some(1)));
    assert_eq!(drain.accept(1, &[data(3)]), Ok(()));
    assert_eq!(drain.next_request(), Ok(None));
    assert_eq!(drain.vectors[2].values, [3, 0, -1]);
    assert_eq!(drain.vectors[2].sensor, 1);
}

fn described(sensor_type: u8) -> CrosEcMotionSensorInfo {
    CrosEcMotionSensorInfo {
        sensor_type,
        location: 1,
        chip: 2,
        min_frequency_millihz: None,
        max_frequency_millihz: None,
        fifo_max_event_count: Some(10),
    }
}

#[test]
fn sensors_are_described_or_skipped() {
    let metadata = sensor_metadata(3, Some(described(1)), Some(4), Some(0)).unwrap();
    assert_eq!(metadata.sensor_type, SensorType::Gyroscope);
    assert_eq!(metadata.location, SensorLocation::Lid);
    assert_eq!(metadata.id, 0x203);
    assert_eq!(metadata.max_frequency_millihz, 1);
    assert_eq!((metadata.minimum, metadata.maximum), (-32_768, 32_767));
    assert_eq!(sensor_metadata(3, None, Some(4), Some(0)), Err(SkipReason::InfoFailed));
    assert_eq!(
        sensor_metadata(3, Some(described(1)), Some(0), Some(0)),
        Err(SkipReason::RangeFailed)
    );
    assert_eq!(
        sensor_metadata(3, Some(described(1)), Some(4), Some(-1)),
        Err(SkipReason::OdrFailed)
    );
    assert_eq!(
        sensor_metadata(3, Some(described(9)), Some(4), Some(0)),
        Err(SkipReason::Unsupported)
    );
    assert_eq!(map_sensor_type(2), Some(SensorType::Magnetometer));
    assert_eq!(map_sensor_type(3), None);
    assert_eq!(map_location(7), SensorLocation::Unknown);
}

#[test]
fn discovery_asks_every_sensor_in_turn() {
    let features = CrosEcFeatures { flags: [1 << 6 | 1 << 24, 0] };
    assert!(check_features(Some(features)).is_ok());
    assert!(check_features(Some(CrosEcFeatures { flags: [0, 0] })).is_err());
    assert!(check_features(None).is_err());
    let summary = |sensor_count| Some(CrosEcMotionSensorSummary { module_flags: 0, sensor_count });
    assert_eq!(check_summary(summary(32)), Ok(32));
    assert_eq!(check_summary(summary(33)), Err("invalid sensor count"));
    assert_eq!(check_summary(None), Err("motion DUMP failed"));
    let (mut discovery, mut action) = Discovery::start(features, 2);
    let mut asked = vec![];
    loop {
        let reply = match action {
            DiscoveryAction::AskInfo(0) => DiscoveryReply::Info(None),
            DiscoveryAction::AskInfo(n) => {
                asked.push(n);
                DiscoveryReply::Info(Some(described(0)))
            }
            DiscoveryAction::AskRange(_) => DiscoveryReply::Parameter(Some(4)),
            DiscoveryAction::AskOdr(_) => DiscoveryReply::Parameter(Some(1_000)),
            DiscoveryAction::Register(n, metadata) => {
                assert_eq!((n, metadata.odr_millihz), (1, 1_000));
                DiscoveryReply::Registered(true)
            }
            DiscoveryAction::EnableFifo | DiscoveryAction::AskData(_) => DiscoveryReply::Done,
            DiscoveryAction::Finished => break,
        };
        action = discovery.step(reply);
    }
    assert_eq!(asked, vec![1]);
    assert_eq!(discovery.present, vec![false, true]);
}

#[test]
fn undelivered_events_are_reported() {
    let mut processor = Processor::new(&[100_000], &[true], true);
    let result = processor.process(0, 0, 0, &[0], &[]).unwrap();
    assert_eq!(push_verdict(&result, false, false), Ok(()));
    assert_eq!(push_verdict(&result, true, false), Err("discarded invalid FIFO event"));
    assert_eq!(push_verdict(&result, false, true), Err("discarded invalid FIFO event"));
    assert!(!has_undeliverable(&vec![], &[]));
    let plain = CrosEcMotionSensorData { flags: 0, sensor_num: 1, x: 0, y: 0, z: 0 };
    assert_eq!(direct_sample_flags(1, &plain), Some(FLAG_TIMESTAMP_APPROXIMATE_EVENT));
    assert_eq!(direct_sample_flags(2, &plain), None);
}

#[test]
fn drained_samples_get_their_times() {
    let info = CrosEcMotionFifoInfo {
        size: 8,
        count: 2,
        timestamp_us: 2_000_000,
        total_lost: 1,
        lost_per_sensor: vec![1],
    };
    let mut drain = FifoDrain::new(&info);
    assert_eq!(
        drain.read_reply(2, Err(CrosEcError::NotReady)),
        Err("FIFO_READ command failed")
    );
    assert_eq!(drain.read_reply(2, Ok(&[1, 0, 0, 0])), Err("FIFO_READ command failed"));
    assert_eq!(drain.read_reply(2, Ok(&[0, 0, 0, 0])), Err("FIFO_READ made invalid progress"));
    assert_eq!(drain.next_request(), Ok(Some(2)));
    let mut reply = vec![2, 0, 0, 0];
    reply.extend_from_slice(&[0, 0, 7, 0, 8, 0, 0xff, 0xff]);
    // A time marker: the counter stands in the last four bytes.
    reply.extend_from_slice(&[FLAG_TIMESTAMP, 0, 0, 0, 0x80, 0x84, 0x1e, 0]);
    assert_eq!(drain.read_reply(2, Ok(&reply)), Ok(()));
    assert_eq!(drain.next_request(), Ok(None));
    let mut processor = Processor::new(&[100_000], &[true], false);
    let result = process_fifo(&mut processor, 3_000_000_000, &info, &drain).unwrap();
    assert_eq!(result.events.len(), 1);
    assert_eq!(result.events[0].values, [7, 8, -1]);
    assert_eq!(result.events[0].timestamp_ns, 3_000_000_000);
    assert_eq!(result.events[0].lost, 1);
    assert_eq!(result.discarded, 0);
    let mismatch = status(8, 0, vec![2], 1);
    assert!(matches!(
        process_fifo(&mut processor, 0, &mismatch, &FifoDrain::new(&mismatch)),
        Err("FIFO loss counters are inconsistent")
    ));
}

#[test]
fn direct_samples_replace_a_fifo() {
    for (feature_word, with_fifo) in [(1 << 6, false), (1 << 6 | 1 << 24, true)] {
        let features = CrosEcFeatures { flags: [feature_word, 0] };
        let (mut discovery, mut action) = Discovery::start(features, 3);
        let mut enabled = 0;
        let mut sampled = vec![];
        let mut steps = 0;
        loop {
            let reply = match action {
                DiscoveryAction::AskInfo(_) => DiscoveryReply::Info(Some(described(0))),
                DiscoveryAction::AskRange(_) => DiscoveryReply::Parameter(Some(4)),
                DiscoveryAction::AskOdr(_) => DiscoveryReply::Parameter(Some(1_000)),
                DiscoveryAction::Register(n, _) => DiscoveryReply::Registered(n != 1),
                DiscoveryAction::EnableFifo => {
                    enabled += 1;
                    DiscoveryReply::Done
                }
                DiscoveryAction::AskData(n) => {
                    sampled.push(n);
                    DiscoveryReply::Done
                }
                DiscoveryAction::Finished => break,
            };
            steps += 1;
            action = discovery.step(reply);
        }
        assert_eq!(enabled, if with_fifo { 1 } else { 0 });
        assert_eq!(sampled, if with_fifo { vec![] } else { vec![0, 2] });
        assert_eq!(steps, if with_fifo { 13 } else { 14 });
    }
}

// Several batches.

fn flush(sensor: u8, timestamp_us: u32) -> Vector {
    Vector { flags: FLAG_FLUSH, ..timestamp_for(sensor, timestamp_us) }
}

#[test]
fn more_flags_than_sensors_are_left_alone() {
    let mut processor = Processor::new(&[100_000], &[true, true, false], false);
    let result = processor.process(100, 0, 0, &[0], &[sample(0, 1), sample(1, 2)]).unwrap();
    assert_eq!(result.events.len(), 1);
    assert_eq!(result.events[0].sensor, 0);
    assert_eq!(result.discarded, 1);
}

#[test]
fn every_vector_of_a_batch_is_reported_or_discarded() {
    for tight in [false, true] {
        let mut processor = Processor::new(&[100_000, 50_000], &[true, false], tight);
        let result = processor
            .process(
                1_000_000_000,
                10_000,
                0,
                &[0, 0],
                &[
                    sample(0, 1),
                    sample(1, 100),
                    timestamp_for(0, 9_000),
                    sample(0, 10),
                    flush(0, 9_500),
                    flush(1, 9_500),
                    sample(0, 20),
                    Vector { flags: 0x40, sensor: 0, values: [0; 3] },
                    sample(7, 30),
                ],
            )
            .unwrap();
        let values: Vec<i32> = result
            .events
            .iter()
            .filter(|event| !event.flush)
            .map(|event| event.values[0])
            .collect();
        assert_eq!(values, vec![1, 10, 20]);
        assert_eq!(result.events.iter().filter(|event| event.flush).count(), 1);
        assert!(result.events.iter().all(|event| event.sensor == 0));
        assert_eq!(result.discarded, 4);
    }
}

#[test]
fn times_do_not_fall_from_batch_to_batch() {
    let mut processor = Processor::new(&[100_000], &[true], false);
    let first = processor
        .process(2_000_000_000, 2_000_000, 0, &[0], &[sample(0, 1), timestamp(2_000_000)])
        .unwrap();
    assert_eq!(first.events[0].timestamp_ns, 2_000_000_000);
    // A marker from before the last event does not turn the clock back.
    let second = processor
        .process(2_000_500_000, 2_000_500, 0, &[0], &[flush(0, 1_000_000)])
        .unwrap();
    assert_eq!(second.events[0].timestamp_ns, 2_000_000_000);
    // A loss breaks the chain.
    let third = processor
        .process(2_001_000_000, 2_001_000, 1, &[1], &[flush(0, 1_000_000)])
        .unwrap();
    assert_eq!(third.events[0].timestamp_ns, 1_000_000_000);
    assert_eq!(third.events[0].lost, 1);
}

#[test]
fn a_loss_waits_for_the_next_event_and_is_told_once() {
    let mut processor = Processor::new(&[100_000, 100_000], &[true, true], false);
    assert!(processor.process(100, 0, 5, &[3, 2], &[]).unwrap().events.is_empty());
    assert!(processor.process(200, 0, 4, &[4, 0], &[]).unwrap().events.is_empty());
    let result = processor
        .process(300, 0, 0, &[0, 0], &[sample(0, 1), sample(0, 2), sample(1, 3), sample(1, 4)])
        .unwrap();
    let lost: Vec<(usize, u32)> =
        result.events.iter().map(|event| (event.sensor, event.lost)).collect();
    assert_eq!(lost, vec![(0, 7), (0, 0), (1, 2), (1, 0)]);
    // A batch that is refused loses nothing and tells nothing.
    assert!(processor.process(400, 0, 0, &[1, 0], &[sample(0, 5)]).is_err());
    let after = processor.process(500, 0, 0, &[0, 0], &[sample(0, 6)]).unwrap();
    assert_eq!(after.events[0].lost, 0);
}

#[test]
fn a_batch_behind_earlier_ones_is_not_in_the_future() {
    // The second batch arrives before the first, the third after both.
    let mut processor = Processor::new(&[100_000], &[true], false);
    let mut times = Vec::new();
    for (arrival, anchor) in [(3_000_000_000, 300), (2_000_000_000, 200), (4_000_000_000, 400)] {
        let vectors = [sample(0, 1), timestamp(anchor)];
        let result = processor.process(arrival, anchor, 0, &[0], &vectors).unwrap();
        times.push((result.events[0].timestamp_ns, arrival));
    }
    assert!(times[0].0 <= times[0].1);
    assert_eq!(times[1].0, 3_000_000_000);
    assert!(times[2].0 <= times[2].1);
}
