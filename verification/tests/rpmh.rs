//! The RPMh coordinator and the interconnect votes that go through it.

use std::collections::HashMap;

use coachz_drivers::cmd_db::CommandDb;
use coachz_drivers::device_tree::{Node, Property};
use coachz_drivers::interconnect::{
    bcm_div, commands, encode_bcm_vote, find_voter, gpu_memory_path, has_compatible, own_phandle,
    parse_bcm_aux, read_endpoints, resolve_path, voter_parent, Bcm, BcmAuxData, BcmKind,
    GpuMemoryPath, PathError, PreparedVote, BCM_COMMIT, BCM_VALID, BCM_VOTE_X_SHIFT,
};
use coachz_drivers::mmio::RegOp;
use coachz_drivers::registry::{lookup, register, unregister};
use coachz_drivers::rpmh_rsc::{
    controller, layout_for, parse_active_tcs, place, poll_clear, poll_completion, poll_sync, probe,
    read_geometry, read_phandle, read_u32_property, resource_for_driver, sync_program, Action,
    ActiveCommand, Batch, Placement, Poll, RpmhRsc, RscNode, CMD_STATUS_COMPLETE,
    CMD_STATUS_ISSUED,
};

#[test]
fn bcm_aux_matches_command_db_layout() {
    assert_eq!(
        parse_bcm_aux(&[0x40, 0x42, 0x0f, 0x00, 0x10, 0x00, 0x03, 0x00]),
        Ok(BcmAuxData {
            unit: 1_000_000,
            width: 16,
            vcd: 3,
        }),
    );
}

#[test]
fn peak_vote_uses_linux_bcm_scaling() {
    let bcm = Bcm {
        name: "SH0",
        address: 0,
        aux: BcmAuxData {
            unit: 1_000_000,
            width: 16,
            vcd: 0,
        },
        kind: BcmKind::Bandwidth {
            node_buswidth: 16,
            keepalive: true,
            boot_floor: false,
        },
    };
    assert_eq!(bcm.votes(8_532_000), Ok((0, 8_532)));
    assert_eq!(bcm.votes(0), Ok((1, 1)));
}

#[test]
fn bcm_command_encodes_commit_valid_and_votes() {
    assert_eq!(
        encode_bcm_vote(2, 3, true),
        BCM_COMMIT | BCM_VALID | (2 << BCM_VOTE_X_SHIFT) | 3,
    );
    assert_eq!(encode_bcm_vote(0, 0, true), BCM_COMMIT);
}

#[test]
fn truncated_aux_data_is_refused() {
    assert_eq!(parse_bcm_aux(&[0; 3]), Err("qcom-sc7180-icc: truncated BCM unit"));
    assert_eq!(parse_bcm_aux(&[0; 5]), Err("qcom-sc7180-icc: truncated BCM width"));
    assert_eq!(parse_bcm_aux(&[0; 6]), Err("qcom-sc7180-icc: truncated BCM VCD"));
    assert!(parse_bcm_aux(&[0; 7]).is_ok());
}

#[test]
fn a_vote_is_never_rounded_down_to_nothing() {
    assert_eq!(bcm_div(0, 10), 0);
    assert_eq!(bcm_div(1, 10), 1);
    assert_eq!(bcm_div(9, 10), 1);
    assert_eq!(bcm_div(10, 10), 1);
    assert_eq!(bcm_div(19, 10), 1);
    assert_eq!(bcm_div(20, 10), 2);
}

fn bandwidth(width: u16, vcd: u8, keepalive: bool, boot_floor: bool) -> Bcm {
    Bcm {
        name: "BCM",
        address: 0x100,
        aux: BcmAuxData { unit: 1_000_000, width: 16, vcd },
        kind: BcmKind::Bandwidth { node_buswidth: width, keepalive, boot_floor },
    }
}

#[test]
fn votes_follow_the_kind_of_a_bcm() {
    assert_eq!(bandwidth(16, 0, false, false).votes(0), Ok((0, 0)));
    assert_eq!(bandwidth(16, 0, false, true).votes(8_532_000), Ok((0, 0x3fff)));
    assert_eq!(
        bandwidth(0, 0, false, false).votes(1),
        Err("qcom-sc7180-icc: BCM node has zero bus width")
    );
    let mask = Bcm { kind: BcmKind::EnableMask(1), ..bandwidth(16, 0, false, false) };
    assert_eq!(mask.votes(0), Ok((0, 0)));
    assert_eq!(mask.votes(5), Ok((0, 1)));
    // Where nothing is divided, the unit may be missing.
    let unitless = |buswidth: u16, keepalive: bool| {
        let bcm = bandwidth(buswidth, 0, keepalive, false);
        Bcm { aux: BcmAuxData { unit: 0, ..bcm.aux }, ..bcm }
    };
    assert_eq!(unitless(16, true).votes(0), Ok((1, 1)));
    assert_eq!(unitless(16, false).votes(0), Ok((0, 0)));
    assert!(unitless(0, false).votes(7).is_err());
    // A vote that does not fit is cut down to the highest one.
    assert_eq!(encode_bcm_vote(0, 0x1_0000, false), BCM_VALID | 0x3fff);
}

#[test]
fn every_domain_commits_once_with_its_last_vote() {
    let vote = |vcd: u8, address: u32| PreparedVote {
        name: "BCM",
        vcd,
        vote_x: 0,
        vote_y: 1,
        address,
    };
    let list = commands(&vec![vote(0, 0x20), vote(1, 0x10), vote(1, 0x30)]);
    assert_eq!(list.len(), 3);
    assert_eq!(list[0].address, 0x20);
    assert_eq!(list[0].data & BCM_COMMIT, BCM_COMMIT);
    assert_eq!(list[1].data & BCM_COMMIT, 0);
    assert_eq!(list[2].data & BCM_COMMIT, BCM_COMMIT);
    assert!(list.iter().all(|command| command.data & BCM_VALID != 0));
}

fn tcs_config(entries: &[(u32, u32)]) -> Vec<u8> {
    entries
        .iter()
        .flat_map(|(kind, count)| [kind.to_be_bytes(), count.to_be_bytes()].concat())
        .collect()
}

fn sc7180_rsc() -> RpmhRsc {
    let config = tcs_config(&[(0, 3), (1, 3), (2, 2), (3, 1)]);
    // Eight blocks for driver two, sixteen commands each.
    let hardware = (8 << 12) | (16 << 27);
    probe(0x0002_0700, hardware, 2, 0xd00, 0x1_0000, Some(&config)).unwrap()
}

#[test]
fn probing_reads_geometry_and_layout() {
    let rsc = sc7180_rsc();
    assert_eq!(rsc.active_tcs_offset, 6);
    assert_eq!(rsc.active_tcs_count, 2);
    assert_eq!(rsc.commands_per_tcs, 16);
    assert_eq!(rsc.registers, layout_for(0x0002_0700));
    assert_eq!(rsc.registers.command_stride, 20);
    assert_eq!(layout_for(0x0003_0000).command_stride, 24);
    assert_eq!(rsc.status_register(), 6 * 672 + 0x18);
    assert_eq!(
        rsc.enable_interrupts(),
        RegOp::Write { offset: 0, value: 0b1100_0000 }
    );
}

#[test]
fn probing_refuses_what_does_not_fit() {
    let config = tcs_config(&[(0, 3), (1, 3), (2, 2), (3, 1)]);
    let hardware = (8 << 12) | (16 << 27);
    assert_eq!(
        probe(0, hardware, 2, 0xd00, 0x1000, Some(&config)),
        Err("qcom-rpmh-rsc: MMIO resource is smaller than TCS geometry")
    );
    assert_eq!(
        probe(0, hardware, 2, 0xd00, 0x1_0000, None),
        Err("qcom-rpmh-rsc: missing TCS configuration")
    );
    assert_eq!(
        read_geometry(16 << 27, 2),
        Err("qcom-rpmh-rsc: hardware reports no TCS blocks")
    );
    assert_eq!(
        read_geometry(1, 0),
        Err("qcom-rpmh-rsc: invalid commands-per-TCS value")
    );
    assert_eq!(read_geometry((3 << 6) | (1 << 27), 1), Ok((3, 1)));
    assert_eq!(
        read_geometry(hardware, u32::MAX),
        Err("qcom-rpmh-rsc: driver id shift overflow")
    );
    let parse = |entries: &[(u32, u32)], max: u32| parse_active_tcs(Some(&tcs_config(entries)), max);
    assert_eq!(
        parse(&[(0, 1), (0, 1), (2, 1), (3, 1)], 8),
        Err("qcom-rpmh-rsc: invalid or duplicate TCS type")
    );
    assert_eq!(
        parse(&[(0, 4), (1, 1), (2, 1), (3, 1)], 8),
        Err("qcom-rpmh-rsc: TCS group is too large")
    );
    assert_eq!(
        parse(&[(0, 1), (1, 1), (2, 0), (3, 1)], 8),
        Err("qcom-rpmh-rsc: active TCS group is missing")
    );
    assert_eq!(
        parse(&[(0, 3), (1, 3), (2, 3), (3, 1)], 8),
        Err("qcom-rpmh-rsc: TCS configuration exceeds hardware")
    );
    assert_eq!(
        parse(&[(0, 3)], 8),
        Err("qcom-rpmh-rsc: invalid TCS configuration length")
    );
    assert_eq!(
        parse_active_tcs(Some(&[1, 2, 3]), 8),
        Err("qcom-rpmh-rsc: malformed cell property")
    );
}

/// Registers that hold what is written, a completion interrupt that comes
/// with the trigger, and command states that can be left out.
struct Coordinator {
    registers: HashMap<usize, u32>,
    irq: u32,
    completes: bool,
    acknowledges: bool,
    log: Vec<(usize, u32)>,
}

impl Coordinator {
    fn new() -> Coordinator {
        Coordinator {
            registers: HashMap::new(),
            irq: 0,
            completes: true,
            acknowledges: true,
            log: Vec::new(),
        }
    }

    fn run(&mut self, rsc: &RpmhRsc, mut batch: Batch, mut action: Action) -> Result<(), &'static str> {
        let base = 672 * rsc.active_tcs_offset as usize;
        let first_status = base + rsc.registers.command_status;
        for _ in 0..100 {
            let (ok, value) = match action {
                Action::Read { offset } => {
                    let is_status = offset >= first_status
                        && (offset - first_status) % rsc.registers.command_stride == 0;
                    let value = if is_status && self.acknowledges {
                        CMD_STATUS_ISSUED | CMD_STATUS_COMPLETE
                    } else {
                        *self.registers.get(&offset).unwrap_or(&0)
                    };
                    (true, value)
                }
                Action::Sync { offset, value } => {
                    self.log.push((offset, value));
                    self.registers.insert(offset, value);
                    (true, value)
                }
                Action::ClearIrq { mask } => {
                    self.irq &= !mask;
                    (true, 0)
                }
                Action::Perform { program } => {
                    for op in program {
                        if let RegOp::Write { offset, value } = op {
                            self.log.push((offset, value));
                            self.registers.insert(offset, value);
                            if value & 0x0100_0000 != 0 && self.completes {
                                self.irq |= 1 << rsc.active_tcs_offset;
                            }
                        }
                    }
                    (true, 0)
                }
                Action::AwaitIrq { mask } => (self.irq & mask != 0, self.irq),
                Action::Finished { result } => return result,
            };
            action = batch.advance(ok, value);
        }
        panic!("the batch does not end");
    }
}

fn command(address: u32, data: u32, wait: bool) -> ActiveCommand {
    ActiveCommand { address, data, wait_for_completion: wait }
}

#[test]
fn a_batch_is_loaded_triggered_and_retired() {
    let rsc = sc7180_rsc();
    let (batch, action) = rsc
        .write_active_batch(vec![command(0x30000, 3, true), command(0x30010, 4, false)], 1)
        .unwrap();
    let mut hardware = Coordinator::new();
    assert_eq!(hardware.run(&rsc, batch, action), Ok(()));
    let base = 6 * 672;
    let loaded: Vec<_> = hardware
        .log
        .iter()
        .filter(|(offset, _)| *offset >= base + 0x30)
        .cloned()
        .collect();
    assert_eq!(
        loaded,
        vec![
            (base + 0x30, 0x1_0108),
            (base + 0x34, 0x30000),
            (base + 0x38, 3),
            (base + 0x30 + 20, 0x1_0008),
            (base + 0x34 + 20, 0x30010),
            (base + 0x38 + 20, 4),
        ]
    );
    // Two commands are enabled, the first one is waited for.
    assert!(hardware.log.contains(&(base + 0x1c, 0b11)));
    assert!(hardware.log.contains(&(base + 0x10, 0b01)));
    // Afterwards everything is off again.
    assert_eq!(hardware.registers[&(base + 0x1c)], 0);
    assert_eq!(hardware.registers[&(base + 0x10)], 0);
    assert_eq!(hardware.registers[&(base + 0x14)], 0);
    assert_eq!(hardware.irq, 0);
}

#[test]
fn a_batch_that_does_not_complete_times_out() {
    let rsc = sc7180_rsc();
    let (batch, action) = rsc.write_active(0x30000, 3, 1).unwrap();
    let mut hardware = Coordinator::new();
    hardware.completes = false;
    assert_eq!(
        hardware.run(&rsc, batch, action),
        Err("qcom-rpmh-rsc: active request timed out")
    );
    assert_eq!(hardware.registers[&(6 * 672 + 0x1c)], 0);
}

#[test]
fn a_missing_acknowledgement_is_an_error() {
    let rsc = sc7180_rsc();
    let (batch, action) = rsc.write_active(0x30000, 3, 1).unwrap();
    let mut hardware = Coordinator::new();
    hardware.acknowledges = false;
    assert_eq!(
        hardware.run(&rsc, batch, action),
        Err("qcom-rpmh-rsc: request completed without command acknowledgement")
    );
}

#[test]
fn a_batch_that_cannot_be_sent_is_refused() {
    let rsc = sc7180_rsc();
    assert!(rsc.write_active_batch(vec![], 1).is_err());
    let many = vec![command(1, 1, true); 17];
    assert!(rsc.write_active_batch(many, 1).is_err());
    assert!(rsc.write_active_batch(vec![command(1, 1, false)], 1).is_err());
}

#[test]
fn polls_end_with_success_or_the_deadline() {
    assert_eq!(poll_sync(5, 5, 2_000_000), Poll::Reached);
    assert_eq!(poll_sync(5, 4, 10), Poll::Again);
    assert_eq!(poll_sync(5, 4, 1_000_000), Poll::Expired);
    assert_eq!(poll_clear(0x40, 0x80, 0), Poll::Reached);
    assert_eq!(poll_clear(0x40, 0x40, 0), Poll::Again);
    assert_eq!(poll_completion(0x40, 0x40, 0), Poll::Reached);
    assert_eq!(poll_completion(0x40, 0, 1_000_000), Poll::Expired);
}

#[test]
fn windows_and_handles_are_found() {
    let names = vec![String::from("drv-0"), String::from("drv-1"), String::from("drv-2")];
    let windows = vec![(0x1000, 0x1fff), (0x2000, 0x2fff), (0x3000, 0x3fff)];
    assert_eq!(resource_for_driver(2, Some(&names), &windows), Ok((0x3000, 0x3fff)));
    assert_eq!(
        resource_for_driver(3, Some(&names), &windows),
        Err("qcom-rpmh-rsc: unsupported driver id")
    );
    assert_eq!(
        resource_for_driver(1, None, &windows),
        Err("qcom-rpmh-rsc: missing reg-names")
    );
    assert_eq!(
        resource_for_driver(2, Some(&names), &windows[..2].to_vec()),
        Err("qcom-rpmh-rsc: driver MMIO resource is missing")
    );
    assert_eq!(
        resource_for_driver(2, Some(&names[..2].to_vec()), &windows),
        Err("qcom-rpmh-rsc: driver register window is missing")
    );
    assert_eq!(read_u32_property(Some(&[0, 0, 1, 0])), Ok(0x100));
    assert!(read_u32_property(Some(&[0; 8])).is_err());
    assert!(read_u32_property(Some(&[0; 3])).is_err());
    assert!(read_u32_property(None).is_err());
    assert_eq!(read_phandle(None, Some(&[0, 0, 0, 9])), Ok(9));
}

#[test]
fn a_registered_provider_is_found_until_it_is_removed() {
    let rsc = sc7180_rsc();
    let mut list: Vec<(u32, RpmhRsc)> = Vec::new();
    assert!(register(&mut list, 5, rsc).is_none());
    assert_eq!(controller(&list, 5), Some(rsc));
    assert_eq!(controller(&list, 6), None);
    let other = RpmhRsc { commands_per_tcs: 4, ..rsc };
    assert_eq!(register(&mut list, 5, other), Some(rsc));
    assert_eq!(list.len(), 1);
    assert_eq!(lookup(&list, 5), Some(other));
    assert_eq!(unregister(&mut list, 5), Some(other));
    assert_eq!(lookup(&list, 5), None);
    assert_eq!(unregister(&mut list, 5), None);
}

// The path from the GPU to memory.

fn cells(name: &str, values: &[u32]) -> Property {
    Property {
        name: String::from(name),
        value: values.iter().flat_map(|value| value.to_be_bytes()).collect(),
    }
}

fn text(name: &str, value: &str) -> Property {
    Property { name: String::from(name), value: value.as_bytes().to_vec() }
}

fn icc_tree(second_voter: u32) -> Node {
    Node {
        name: String::from("/"),
        properties: vec![],
        children: vec![
            Node {
                name: String::from("gem"),
                properties: vec![
                    cells("phandle", &[10]),
                    text("compatible", "qcom,sc7180-gem-noc\0"),
                    cells("qcom,bcm-voters", &[30]),
                ],
                children: vec![],
            },
            Node {
                name: String::from("mc"),
                properties: vec![
                    cells("phandle", &[20]),
                    text("compatible", "other\0qcom,sc7180-mc-virt\0"),
                    cells("qcom,bcm-voters", &[second_voter]),
                ],
                children: vec![],
            },
        ],
    }
}

fn icc_database() -> CommandDb {
    let names = ["SH0", "MC0", "ACV"];
    let mut memory = vec![0u8; 144];
    memory[4..8].copy_from_slice(&[0xdb, 0x30, 0x03, 0x0c]);
    memory[8] = 5;
    memory[12] = (24 * names.len()) as u8;
    memory[14] = names.len() as u8;
    let mut data = Vec::new();
    for (index, name) in names.iter().enumerate() {
        let mut entry = [0u8; 24];
        entry[..name.len()].copy_from_slice(name.as_bytes());
        entry[16..20].copy_from_slice(&(0x50000 + 4 * index as u32).to_le_bytes());
        entry[20] = 8;
        entry[22] = data.len() as u8;
        memory.extend_from_slice(&entry);
        data.extend_from_slice(&[0x40, 0x42, 0x0f, 0x00, 0x10, 0x00, index as u8, 0x00]);
    }
    memory.extend_from_slice(&data);
    CommandDb { memory }
}

fn path_names() -> Vec<String> {
    vec![String::from("gfx-mem")]
}

fn endpoints() -> Vec<u8> {
    cells("", &[10, 8, 0, 20, 1, 0]).value
}

fn resolved() -> GpuMemoryPath {
    let tree = icc_tree(30);
    let voters = vec![(30, sc7180_rsc())];
    let database = icc_database();
    match resolve_path(Some(&path_names()), Some(&endpoints()), Some(Some(&tree)), &voters, Some(&database)) {
        Ok(path) => path,
        Err(error) => panic!("{:?}", error),
    }
}

#[test]
fn the_path_is_resolved_through_the_voters() {
    let path = resolved();
    assert_eq!(path.rsc, sc7180_rsc());
    assert!(!path.bcms.is_empty());
    let tree = icc_tree(30);
    assert_eq!(find_voter(Some(Some(&tree)), 10, 20), Ok(30));
    assert!(has_compatible(&tree.children[1], "qcom,sc7180-mc-virt"));
    assert!(!has_compatible(&tree.children[1], "qcom,sc7180"));
    assert_eq!(
        find_voter(Some(Some(&icc_tree(31))), 10, 20),
        Err("qcom-sc7180-icc: gfx-mem providers use different BCM voters")
    );
    assert_eq!(
        find_voter(Some(Some(&icc_tree(0))), 10, 20),
        Err("qcom-sc7180-icc: MC virtual NoC has no BCM voter")
    );
    assert_eq!(
        find_voter(Some(Some(&tree)), 20, 10),
        Err("qcom-sc7180-icc: gfx-mem providers are not SC7180 GEM/MC NoCs")
    );
    assert!(find_voter(Some(Some(&tree)), 11, 20).is_err());
    assert_eq!(find_voter(None, 10, 20), Err("qcom-sc7180-icc: FDT is unavailable"));
    assert_eq!(
        find_voter(Some(None), 10, 20),
        Err("qcom-sc7180-icc: GEM NoC provider was not found")
    );
    match resolve_path(
        Some(&path_names()),
        Some(&endpoints()),
        Some(Some(&tree)),
        &vec![],
        Some(&icc_database()),
    ) {
        Err(PathError::Deferred) => {}
        other => panic!("{:?}", other.is_ok()),
    }
    assert!(gpu_memory_path(Some(&path_names()), Some(&endpoints()), &[0; 4], &vec![], None).is_err());
}

#[test]
fn endpoints_must_be_those_of_the_gpu() {
    assert_eq!(read_endpoints(Some(&path_names()), Some(&endpoints())), Ok((10, 20)));
    assert!(read_endpoints(None, Some(&endpoints())).is_err());
    assert!(read_endpoints(Some(&path_names()), None).is_err());
    assert!(read_endpoints(Some(&vec![String::from("other")]), Some(&endpoints())).is_err());
    let wrong = cells("", &[10, 9, 0, 20, 1, 0]).value;
    assert!(read_endpoints(Some(&path_names()), Some(&wrong)).is_err());
    assert!(read_endpoints(Some(&path_names()), Some(&endpoints()[..8])).is_err());
}

#[test]
fn a_peak_is_voted_for_only_when_it_changes() {
    let mut path = resolved();
    let (batch, action) = path.set_peak_kbps(8_532_000, 1).unwrap().unwrap();
    assert_eq!(batch.commands.len(), path.bcms.len());
    assert!(batch.commands.iter().all(|command| command.wait_for_completion
        == (command.data & BCM_COMMIT != 0)));
    assert_eq!(Coordinator::new().run(&sc7180_rsc(), batch, action), Ok(()));
    path.voted(8_532_000);
    assert!(path.set_peak_kbps(8_532_000, 1).unwrap().is_none());
    assert!(path.set_peak_kbps(0, 1).unwrap().is_some());
}

#[test]
fn a_voter_has_a_parent_and_a_handle() {
    assert_eq!(voter_parent(Some(4)), Ok(4));
    assert_eq!(
        voter_parent(None),
        Err("qcom-sc7180-icc: BCM voter parent RSC is missing")
    );
    assert_eq!(own_phandle(Some(&[0, 0, 0, 7]), None), Ok(7));
    assert_eq!(own_phandle(Some(&[0, 0, 0, 0]), Some(&[0, 0, 0, 8])), Ok(8));
    assert!(own_phandle(None, None).is_err());
}

fn rsc_node<'a>(
    driver_id: Option<&'a [u8]>,
    tcs_offset: Option<&'a [u8]>,
    phandle: Option<&'a [u8]>,
    windows: &[(usize, usize)],
) -> RscNode<'a> {
    RscNode {
        driver_id,
        tcs_offset,
        phandle: None,
        linux_phandle: phandle,
        reg_names: Some(vec!["drv-0".into(), "drv-1".into(), "drv-2".into()]),
        windows: windows.to_vec(),
    }
}

#[test]
fn a_coordinator_is_placed_or_its_first_fault_named() {
    let two: &[u8] = &[0, 0, 0, 2];
    let offset: &[u8] = &[0, 0, 0x0d, 0];
    let handle: &[u8] = &[0, 0, 0, 9];
    let windows = [(0x1000, 0x1fff), (0x2000, 0x2fff), (0x3000, 0x4fff)];
    let found = place(&rsc_node(Some(two), Some(offset), Some(handle), &windows));
    assert_eq!(
        found,
        Ok(Placement {
            driver_id: 2,
            tcs_offset: 0xd00,
            phandle: 9,
            start: 0x3000,
            size: 0x2000,
        })
    );
    // The handle of the first property goes before that of the second.
    let mut both = rsc_node(Some(two), Some(offset), Some(handle), &windows);
    both.phandle = Some(&[0, 0, 0, 8]);
    assert_eq!(place(&both).map(|placement| placement.phandle), Ok(8));

    // Faults, each with those behind it left in.
    let upside_down = [(0x1000, 0x1fff), (0x2000, 0x2fff), (0x3000, 0x2fff)];
    let missing = read_u32_property(None).unwrap_err();
    let malformed = read_u32_property(Some(&[1])).unwrap_err();
    let three: &[u8] = &[0, 0, 0, 3];
    assert_eq!(place(&rsc_node(None, Some(&[1]), None, &upside_down)), Err(missing));
    assert_eq!(place(&rsc_node(Some(three), Some(&[1]), None, &[])), Err(malformed));
    assert_eq!(place(&rsc_node(Some(three), Some(offset), None, &[])), Err(missing));
    assert_eq!(
        place(&rsc_node(Some(three), Some(offset), Some(handle), &[])),
        Err("qcom-rpmh-rsc: unsupported driver id")
    );
    assert_eq!(
        place(&rsc_node(Some(two), Some(offset), Some(handle), &windows[..2])),
        Err("qcom-rpmh-rsc: driver MMIO resource is missing")
    );
    assert_eq!(
        place(&rsc_node(Some(two), Some(offset), Some(handle), &upside_down)),
        Err("qcom-rpmh-rsc: invalid MMIO resource")
    );
}

#[test]
fn a_write_is_ordered_before_it_is_waited_for() {
    let write = |offset: usize, value: u32| vec![RegOp::Write { offset, value }, RegOp::Barrier];
    assert_eq!(sync_program(0x14, 7), write(0x14, 7));
    let rsc = sc7180_rsc();
    let clear = rsc.registers.irq_clear;
    assert_eq!(rsc.clear_program(0x40, 0xc0), write(clear, 0x40));
    assert_eq!(rsc.clear_program(0x40, 0x80), vec![]);
    assert_eq!(rsc.clear_program(0, 0xff), vec![]);
}

#[test]
fn a_mask_of_several_bits_is_looked_at_as_a_whole() {
    assert_eq!(poll_clear(0x6, 0x9, 0), Poll::Reached);
    assert_eq!(poll_clear(0x6, 0x4, 0), Poll::Again);
    assert_eq!(poll_completion(0x6, 0x2, 0), Poll::Reached);
    assert_eq!(poll_completion(0x6, 0x9, 0), Poll::Again);
    assert_eq!(poll_completion(0, u32::MAX, 0), Poll::Again);
    let rsc = sc7180_rsc();
    let clear = RegOp::Write { offset: rsc.registers.irq_clear, value: 0x6 };
    assert_eq!(rsc.clear_program(0x6, 0x2), vec![clear, RegOp::Barrier]);
    assert_eq!(rsc.clear_program(0x6, 0x9), vec![]);
}
