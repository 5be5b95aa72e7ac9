//! The PMIC arbiter, and the clock that is read through it.

use coachz_drivers::platform::Resource;
use coachz_drivers::rtc::{
    accept_clock_result, check_features, parse_rtc_value, sample_epoch_ns, validate_epoch,
    Counter, CounterAsk, Seed, SeedAsk, SeedEvent, Source,
};
use coachz_drivers::spmi::{
    be_u32_property, build_table, get_controller, memory_resources, probe_windows, Entry, Probe,
    ProbeAsk, QcomSpmiPmicArb, ReadAsk, APID_INVALID,
};

fn arbiter() -> QcomSpmiPmicArb {
    let mut ppid_to_apid = vec![APID_INVALID; 4096];
    ppid_to_apid[0x060] = 3;
    QcomSpmiPmicArb { ee: 0, ppid_to_apid }
}

/// Runs a read; the status comes after some polls.
fn run(arb: &QcomSpmiPmicArb, sid: u8, address: u16, length: usize, polls: usize, status: u32) -> (
    Result<Vec<u8>, &'static str>,
    Vec<usize>,
) {
    let (mut read, mut ask) = match arb.read(sid, address, length) {
        Ok(started) => started,
        Err(error) => return (Err(error), vec![]),
    };
    let mut offsets = Vec::new();
    let mut left = polls;
    loop {
        let value = match ask {
            ReadAsk::Write { offset, value } => {
                offsets.push(offset);
                assert_eq!(
                    value,
                    (1 << 27) | ((address as u32 & 0xff) << 4) | (length as u32 - 1)
                );
                0
            }
            ReadAsk::Read { offset, .. } => {
                offsets.push(offset);
                match offset % 0x80 {
                    0x08 if left > 0 => {
                        left -= 1;
                        0
                    }
                    0x08 => status,
                    0x18 => 0x4433_2211,
                    _ => 0x8877_6655,
                }
            }
            ReadAsk::Finished { result, .. } => return (result, offsets),
        };
        ask = read.advance(value);
    }
}

#[test]
fn bytes_come_lowest_first() {
    let arb = arbiter();
    let base = 3 * 0x80;
    let (result, offsets) = run(&arb, 0, 0x6048, 4, 0, 1);
    assert_eq!(result, Ok(vec![0x11, 0x22, 0x33, 0x44]));
    assert_eq!(offsets, [base, base + 8, base + 0x18]);
    let (result, offsets) = run(&arb, 0, 0x6048, 6, 2, 1);
    assert_eq!(result, Ok(vec![0x11, 0x22, 0x33, 0x44, 0x55, 0x66]));
    assert_eq!(offsets.len(), 6);
    assert_eq!(run(&arb, 0, 0x60ff, 1, 0, 1).0, Ok(vec![0x11]));
    let other = QcomSpmiPmicArb { ee: 2, ..arbiter() };
    assert_eq!(run(&other, 0, 0x6048, 1, 0, 1).1[0], 2 * 0x1_0000 + base);
}

#[test]
fn failed_transactions_are_told_apart() {
    let arb = arbiter();
    let error = |status: u32| run(&arb, 0, 0x6048, 4, 0, status).0.unwrap_err();
    assert_eq!(error(0b0011), "qcom-spmi-pmic-arb: transaction failed");
    assert_eq!(error(0b0111), "qcom-spmi-pmic-arb: transaction denied");
    assert_eq!(error(0b1101), "qcom-spmi-pmic-arb: transaction denied");
    assert_eq!(error(0b1011), "qcom-spmi-pmic-arb: transaction dropped");
    let (result, offsets) = run(&arb, 0, 0x6048, 4, 5_000, 1);
    assert_eq!(result, Err("qcom-spmi-pmic-arb: transaction timed out"));
    assert_eq!(offsets.len(), 1 + 1_000);
}

#[test]
fn reads_that_cannot_be_made_are_refused() {
    let arb = arbiter();
    assert_eq!(
        run(&arb, 0, 0x6048, 0, 0, 1).0,
        Err("qcom-spmi-pmic-arb: read length must be 1..=8 bytes")
    );
    assert!(arb.read(0, 0x6048, 9).is_err());
    assert_eq!(
        run(&arb, 16, 0x6048, 1, 0, 1).0,
        Err("qcom-spmi-pmic-arb: invalid slave ID")
    );
    assert_eq!(
        run(&arb, 1, 0x6048, 1, 0, 1).0,
        Err("qcom-spmi-pmic-arb: no APID for peripheral")
    );
    let short = QcomSpmiPmicArb { ee: 0, ppid_to_apid: vec![1] };
    assert_eq!(
        run(&short, 1, 0, 1, 0, 1).0,
        Err("qcom-spmi-pmic-arb: PPID out of range")
    );
    assert!(get_controller(&None).is_none());
    assert_eq!(get_controller(&Some(arbiter())).map(|arb| arb.ee), Some(0));
}

/// Probes an arbiter with the given tables: mapping and owner words.
fn probe(
    version: u32,
    ee: Option<u32>,
    features: u32,
    table: &[(u32, u32)],
    sizes: (usize, usize),
) -> Result<QcomSpmiPmicArb, &'static str> {
    let (mut probe, mut ask) = Probe::begin(ee, sizes.0, sizes.1);
    loop {
        let value = match ask {
            ProbeAsk::ReadCore { offset: 0 } => version,
            ProbeAsk::ReadCore { offset: 4 } => features,
            ProbeAsk::ReadCore { offset } => table[(offset - 0x900) / 4].0,
            ProbeAsk::ReadConfig { offset } => table[(offset - 0x700) / 4].1,
            ProbeAsk::Finished { result } => {
                result?;
                return Ok(probe.controller().unwrap());
            }
        };
        ask = probe.advance(value);
    }
}

#[test]
fn an_owned_channel_is_preferred() {
    let table = [
        (0x060 << 8, 5),
        (0, 0),
        (0x060 << 8, 1),
        (0x060 << 8, 4),
        (0x161 << 8, 3),
        (0x161 << 8, 2),
        (0x1_0162 << 8, 9),
    ];
    let arb = probe(0x5000_0000, Some(1), 0x807, &table, (0x1000, 0x1000)).unwrap();
    assert_eq!(arb.ee, 1);
    assert_eq!(arb.ppid_to_apid.len(), 4096);
    assert_eq!(arb.ppid_to_apid[0x060], 2);
    assert_eq!(arb.ppid_to_apid[0x161], 4);
    // Only twelve bits name a peripheral, and three an owner.
    assert_eq!(arb.ppid_to_apid[0x162], 6);
    assert_eq!(arb.ppid_to_apid[0x163], APID_INVALID);
}

#[test]
fn the_last_of_several_owned_channels_wins() {
    let entry = |apid: u16, owned: bool| Entry { apid, ppid: 7, owned };
    let table = build_table(&vec![entry(1, true), entry(2, false), entry(3, true), entry(4, false)]);
    assert_eq!(table[7], 3);
    assert_eq!(build_table(&vec![entry(1, false), entry(2, false)])[7], 1);
    assert_eq!(build_table(&vec![])[7], APID_INVALID);
}

#[test]
fn probing_refuses_other_arbiters() {
    let table = [(0x060 << 8, 0)];
    let sizes = (0x1000, 0x1000);
    let error = |r: Result<QcomSpmiPmicArb, &'static str>| r.err().unwrap();
    let version = "qcom-spmi-pmic-arb: SC7180 requires PMIC arbiter v5";
    assert_eq!(error(probe(0x4fff_ffff, Some(0), 1, &table, sizes)), version);
    assert_eq!(error(probe(0x7000_0000, Some(0), 1, &table, sizes)), version);
    assert_eq!(
        error(probe(0x5000_0000, None, 1, &table, sizes)),
        "qcom-spmi-pmic-arb: qcom,ee missing"
    );
    assert_eq!(
        error(probe(0x5000_0000, Some(6), 1, &table, sizes)),
        "qcom-spmi-pmic-arb: invalid execution environment"
    );
    for features in [0, 513, 0x800] {
        assert_eq!(
            error(probe(0x5000_0000, Some(0), features, &table, sizes)),
            "qcom-spmi-pmic-arb: invalid APID count"
        );
    }
    assert_eq!(
        error(probe(0x5000_0000, Some(0), 1, &table, (0x1000, 0x703))),
        "qcom-spmi-pmic-arb: truncated ownership table"
    );
    // A map that ends with its window is used as far as it goes.
    let arb = probe(0x5000_0000, Some(0), 9, &table, (0x904, 0x1000)).unwrap();
    assert_eq!(arb.ppid_to_apid[0x060], 0);
}

#[test]
fn five_windows_are_needed() {
    let window = |start: usize| Resource { is_memory: true, start, end: start + 0xfff };
    let irq = Resource { is_memory: false, start: 1, end: 1 };
    let all = [window(1), irq, window(2), window(3), window(4), window(5)];
    let windows = probe_windows(&all).unwrap();
    assert_eq!(windows.core, (1, 0x1000));
    assert_eq!(windows.observer, (3, 0x1000));
    assert_eq!(windows.config, (5, 0x1000));
    assert_eq!(
        probe_windows(&all[..5]).err(),
        Some("qcom-spmi-pmic-arb: expected five MMIO resources")
    );
    assert_eq!(memory_resources(&all).len(), 5);
    assert_eq!(be_u32_property(Some(&[0, 0, 0, 2])), Some(2));
    assert_eq!(be_u32_property(Some(&[0, 0, 0, 2, 0])), None);
    assert_eq!(be_u32_property(None), None);
}

// The clock.

fn count(reads: &[&[u8]]) -> Result<u32, &'static str> {
    let (mut counter, mut ask) = Counter::read_raw_seconds(1, 0x6000).unwrap();
    let mut next = 0;
    loop {
        match ask {
            CounterAsk::Read { sid, address, length } => {
                assert_eq!((sid, address), (1, 0x6048));
                assert_eq!(reads[next].len(), length);
                ask = counter.advance(Ok(reads[next].to_vec()));
                next += 1;
            }
            CounterAsk::Finished { result } => {
                assert_eq!(next, reads.len());
                return result;
            }
        }
    }
}

#[test]
fn a_counter_that_wraps_is_read_again() {
    assert_eq!(count(&[&[0x78, 0x56, 0x34, 0x12], &[0x78]]), Ok(0x1234_5678));
    assert_eq!(count(&[&[0x78, 0x56, 0x34, 0x12], &[0x79]]), Ok(0x1234_5678));
    assert_eq!(
        count(&[&[0xff, 0x56, 0x34, 0x12], &[0x00], &[0x00, 0x57, 0x34, 0x12]]),
        Ok(0x1234_5700)
    );
    assert!(matches!(
        Counter::read_raw_seconds(1, 0xffff),
        Err("qcom-pm8941-rtc: register address overflow")
    ));
    assert!(Counter::read_raw_seconds(1, 0xffb7).is_ok());
    let (mut counter, _) = Counter::read_raw_seconds(1, 0).unwrap();
    assert!(matches!(
        counter.advance(Err("denied")),
        CounterAsk::Finished { result: Err("denied") }
    ));
}

#[test]
fn only_this_century_is_plausible() {
    assert_eq!(validate_epoch(946_684_800), Ok(946_684_800));
    assert!(validate_epoch(946_684_799).is_err());
    assert_eq!(validate_epoch(4_102_444_799), Ok(4_102_444_799));
    assert!(validate_epoch(4_102_444_800).is_err());
    assert_eq!(sample_epoch_ns(1_700_000_000), Ok(1_700_000_000_000_000_000));
    assert!(sample_epoch_ns(0).is_err());
}

#[test]
fn a_clock_that_was_set_before_is_fine() {
    assert_eq!(accept_clock_result(Ok(())), Ok(()));
    assert_eq!(accept_clock_result(Err("wall clock already initialized")), Ok(()));
    assert_eq!(accept_clock_result(Err("no clock")), Err("no clock"));
}

#[test]
fn replies_of_the_controller_are_checked() {
    assert_eq!(check_features(Some(&[0, 0, 0, 0x08, 0, 0, 0, 0])), Ok(()));
    assert_eq!(
        check_features(Some(&[0xff, 0xff, 0xff, 0xf7, 0xff, 0xff, 0xff, 0xff])),
        Err("Chrome EC does not advertise RTC support")
    );
    assert_eq!(
        check_features(Some(&[0; 4])),
        Err("Chrome EC returned a malformed feature bitmap")
    );
    assert_eq!(check_features(None), Err("Chrome EC GET_FEATURES failed"));
    assert_eq!(parse_rtc_value(Some(&[1, 2, 0, 0])), Ok(0x201));
    assert_eq!(
        parse_rtc_value(Some(&[1, 2, 0])),
        Err("Chrome EC returned a malformed RTC value")
    );
    assert_eq!(parse_rtc_value(None), Err("Chrome EC RTC_GET_VALUE failed"));
}

const FEATURES: [u8; 8] = [0, 0, 0, 0x08, 0, 0, 0, 0];

#[test]
fn the_controller_sets_the_clock() {
    let (mut seed, ask) = Seed::initialize_wall_clock();
    assert!(matches!(ask, SeedAsk::FindController));
    let ask = seed.advance(SeedEvent::Found { found: true });
    assert!(matches!(ask, SeedAsk::Command { command: 0x0d }));
    let ask = seed.advance(SeedEvent::Reply { reply: Some(FEATURES.to_vec()) });
    assert!(matches!(ask, SeedAsk::Command { command: 0x44 }));
    let time = 1_700_000_000u32.to_le_bytes().to_vec();
    let ask = seed.advance(SeedEvent::Reply { reply: Some(time) });
    assert!(matches!(
        ask,
        SeedAsk::SetClock { source: Source::ChromeEc, epoch_ns: 1_700_000_000_000_000_000 }
    ));
    let ask = seed.advance(SeedEvent::Clock { result: Ok(()) });
    assert!(matches!(ask, SeedAsk::Finished { controller: None, pmic: None }));
}

#[test]
fn the_pmic_is_the_fallback() {
    let (mut seed, _) = Seed::initialize_wall_clock();
    seed.advance(SeedEvent::Found { found: true });
    seed.advance(SeedEvent::Reply { reply: Some(FEATURES.to_vec()) });
    let ask = seed.advance(SeedEvent::Reply { reply: Some(vec![0; 4]) });
    assert!(matches!(ask, SeedAsk::FindArbiter));
    assert!(matches!(seed.advance(SeedEvent::Found { found: true }), SeedAsk::FindTree));
    assert!(matches!(seed.advance(SeedEvent::Found { found: true }), SeedAsk::FindNode));
    let ask = seed.advance(SeedEvent::Node { node: Some((1, 0x6000)) });
    assert!(matches!(ask, SeedAsk::ReadCounter { sid: 1, base: 0x6000 }));
    let ask = seed.advance(SeedEvent::Seconds { seconds: Ok(1_000_000_000) });
    assert!(matches!(
        ask,
        SeedAsk::SetClock { source: Source::Pm6150, epoch_ns: 1_000_000_000_000_000_000 }
    ));
    let ask = seed.advance(SeedEvent::Clock { result: Err("wall clock already initialized") });
    match ask {
        SeedAsk::Finished { controller, pmic } => {
            assert_eq!(controller, Some("RTC epoch is outside the plausible 2000..2100 range"));
            assert_eq!(pmic, None);
        }
        other => panic!("{:?}", other),
    }
}

/// What the PMIC part reports when a step fails.
fn pmic_error(steps: Vec<SeedEvent>) -> &'static str {
    let (mut seed, _) = Seed::initialize_wall_clock();
    let mut ask = seed.advance(SeedEvent::Found { found: false });
    for event in steps {
        ask = seed.advance(event);
    }
    match ask {
        SeedAsk::Finished { controller, pmic } => {
            assert_eq!(controller, Some("primary Chrome EC unavailable"));
            pmic.unwrap()
        }
        other => panic!("{:?}", other),
    }
}

#[test]
fn the_last_error_is_that_of_the_pmic() {
    let found = || SeedEvent::Found { found: true };
    let missing = || SeedEvent::Found { found: false };
    let node = || SeedEvent::Node { node: Some((0, 0)) };
    assert_eq!(pmic_error(vec![missing()]), "qcom-pm8941-rtc: SPMI controller unavailable");
    assert_eq!(pmic_error(vec![found(), missing()]), "qcom-pm8941-rtc: FDT unavailable");
    assert_eq!(
        pmic_error(vec![found(), found(), SeedEvent::Node { node: None }]),
        "qcom-pm8941-rtc: PM6150 RTC node not found"
    );
    assert_eq!(
        pmic_error(vec![found(), found(), node(), SeedEvent::Seconds { seconds: Err("denied") }]),
        "denied"
    );
    assert_eq!(
        pmic_error(vec![found(), found(), node(), SeedEvent::Seconds { seconds: Ok(5) }]),
        "PM6150 RTC is uninitialized or implausible"
    );
    assert_eq!(
        pmic_error(vec![
            found(),
            found(),
            node(),
            SeedEvent::Seconds { seconds: Ok(1_000_000_000) },
            SeedEvent::Clock { result: Err("no clock") },
        ]),
        "no clock"
    );
}
