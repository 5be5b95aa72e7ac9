//! Flattened device trees, and what drivers look up in them.

use coachz_drivers::device_tree::{
    cell_in, find_answering, find_item_end, find_node_by_phandle, list, names_bytes, names_text,
    parse, property_in, Node, Property,
};
use coachz_drivers::interconnect::{gpu_memory_path, PathError};
use coachz_drivers::platform::{position_of, read_cells, resource_size, Resource};
use coachz_drivers::qfprom::{
    be_u32_pair, child_bitfields_in, corrected_resource, device_phandle, direct_child_bitfields,
    BitField, NvmemError, Sc7180Qfprom,
};
use coachz_drivers::rtc::{find_pm6150_rtc, find_rtc_in, node_has_compatible};
use coachz_drivers::sdhci::fixed_supply_voltage_uv;

/// Writes a blob token by token.
struct Blob {
    structure: Vec<u8>,
    strings: Vec<u8>,
}

impl Blob {
    fn new() -> Blob {
        Blob { structure: Vec::new(), strings: Vec::new() }
    }

    fn word(&mut self, value: u32) {
        self.structure.extend_from_slice(&value.to_be_bytes());
    }

    fn pad(&mut self) {
        while self.structure.len() % 4 != 0 {
            self.structure.push(0);
        }
    }

    fn begin(&mut self, name: &str) {
        self.word(1);
        self.structure.extend_from_slice(name.as_bytes());
        self.structure.push(0);
        self.pad();
    }

    fn end(&mut self) {
        self.word(2);
    }

    fn property(&mut self, name: &str, value: &[u8]) {
        let at = self.strings.len() as u32;
        self.strings.extend_from_slice(name.as_bytes());
        self.strings.push(0);
        self.word(3);
        self.word(value.len() as u32);
        self.word(at);
        self.structure.extend_from_slice(value);
        self.pad();
    }

    fn cells(&mut self, name: &str, values: &[u32]) {
        let value: Vec<u8> = values.iter().flat_map(|value| value.to_be_bytes()).collect();
        self.property(name, &value);
    }

    fn finish(mut self) -> Vec<u8> {
        self.word(9);
        let structure = 40 + 16;
        let strings = structure + self.structure.len();
        let total = strings + self.strings.len();
        let mut blob = Vec::new();
        for value in [
            0xd00d_feed,
            total as u32,
            structure as u32,
            strings as u32,
            40,
            17,
            16,
            0,
            self.strings.len() as u32,
            self.structure.len() as u32,
        ] {
            blob.extend_from_slice(&value.to_be_bytes());
        }
        blob.extend_from_slice(&[0; 16]);
        blob.extend_from_slice(&self.structure);
        blob.extend_from_slice(&self.strings);
        blob
    }
}

fn board() -> Vec<u8> {
    let mut blob = Blob::new();
    blob.begin("");
    blob.property("model", b"CoachZ\0");
    blob.begin("soc");
    blob.begin("qfprom@784000");
    blob.cells("phandle", &[40]);
    blob.begin("hstx-trim-primary@25b");
    blob.cells("reg", &[0x25b, 1]);
    blob.cells("bits", &[1, 3]);
    blob.end();
    blob.begin("plain@10");
    blob.cells("reg", &[0x10, 4]);
    blob.end();
    blob.end();
    blob.begin("spmi@c440000");
    blob.property("compatible", b"qcom,spmi-pmic-arb\0");
    blob.begin("pmic@0");
    blob.property("compatible", b"qcom,pm6150\0qcom,spmi-pmic\0");
    blob.cells("reg", &[0, 0]);
    blob.begin("rtc@6000");
    blob.property("compatible", b"qcom,pm8941-rtc\0");
    blob.cells("reg", &[0x6000]);
    blob.end();
    blob.end();
    blob.end();
    blob.end();
    blob.begin("vqmmc");
    blob.cells("linux,phandle", &[41]);
    blob.cells("regulator-min-microvolt", &[1_800_000]);
    blob.cells("regulator-max-microvolt", &[1_800_000]);
    blob.end();
    blob.end();
    blob.finish()
}

#[test]
fn a_blob_becomes_the_tree_that_it_describes() {
    let root = parse(&board()).unwrap();
    assert_eq!(root.property("model"), Some(&b"CoachZ\0".to_vec()));
    let names: Vec<&str> = root.children.iter().map(|node| node.name.as_str()).collect();
    assert_eq!(names, ["soc", "vqmmc"]);
    let soc: Vec<&str> = root.children[0].children.iter().map(|n| n.name.as_str()).collect();
    assert_eq!(soc, ["qfprom@784000", "spmi@c440000"]);
    let fuses = &root.children[0].children[0];
    assert_eq!(fuses.phandle(), Some(40));
    assert_eq!(fuses.children.len(), 2);
    assert_eq!(fuses.children[0].property_cell("bits"), Some(1));
    assert_eq!(fuses.children[0].property_cell("missing"), None);
    assert_eq!(find_node_by_phandle(&root, 40).unwrap().name, "qfprom@784000");
    assert_eq!(find_node_by_phandle(&root, 41).unwrap().name, "vqmmc");
}

#[test]
fn the_nodes_of_a_blob_are_listed_in_its_order() {
    let nodes = list(&board()).unwrap();
    assert_eq!(nodes.len(), 9);
    assert_eq!(property_in(&nodes[0], "model"), Some(&b"CoachZ\0".to_vec()));
    assert_eq!(cell_in(&nodes[2], "phandle"), Some(40));
    assert_eq!(cell_in(&nodes[8], "linux,phandle"), Some(41));
    assert_eq!(cell_in(find_answering(&nodes, 41).unwrap(), "phandle"), None);
    assert!(find_answering(&nodes, 42).is_none());
}

#[test]
fn padding_ends_a_list_where_no_node_follows_it() {
    let child = |blob: &mut Blob, handle: u32| {
        blob.begin("n");
        blob.cells("phandle", &[handle]);
    };
    let mut blob = Blob::new();
    blob.begin("");
    child(&mut blob, 1);
    blob.end();
    blob.word(4);
    child(&mut blob, 2);
    blob.word(4);
    // This property still belongs to its node, but nothing behind it counts.
    blob.cells("linux,phandle", &[3]);
    blob.end();
    child(&mut blob, 4);
    blob.end();
    blob.end();
    let nodes = list(&blob.finish()).unwrap();
    assert_eq!(nodes.len(), 3);
    assert!(find_answering(&nodes, 1).is_some());
    assert_eq!(cell_in(find_answering(&nodes, 3).unwrap(), "phandle"), Some(2));
    assert!(find_answering(&nodes, 4).is_none());
}

#[test]
fn nodes_are_listed_up_to_the_first_bad_token() {
    let blob = board();
    for length in [0, 4, 39, 40, 60, blob.len() - 1] {
        assert!(list(&blob[..length]).is_none());
    }
    // A property that is longer than the blob, in the root.
    let mut long = blob.clone();
    let length = 56 + 8 + 4;
    long[length..length + 4].copy_from_slice(&0x7fff_ffffu32.to_be_bytes());
    assert!(list(&long).unwrap().is_empty());
    // More ends than nodes.
    let mut ended = Blob::new();
    ended.begin("");
    ended.end();
    ended.end();
    assert_eq!(list(&ended.finish()).unwrap().len(), 1);
    // Too many nodes inside one another.
    let nested = |depth: usize| {
        let mut blob = Blob::new();
        for _ in 0..depth {
            blob.begin("n");
        }
        blob.finish()
    };
    assert_eq!(list(&nested(64)).unwrap().len(), 63);
    assert_eq!(list(&nested(63)).unwrap().len(), 63);
    // Names outside the blob: the first property ends the list.
    let mut nameless = board();
    nameless[32..36].copy_from_slice(&0x7fff_ffffu32.to_be_bytes());
    assert!(list(&nameless).unwrap().is_empty());
}

/// A supply, and behind it whatever is added.
fn supply_and(rest: impl Fn(&mut Blob)) -> Vec<u8> {
    let mut blob = Blob::new();
    blob.begin("");
    blob.begin("supply");
    blob.cells("phandle", &[5]);
    blob.cells("regulator-min-microvolt", &[1_800_000]);
    blob.cells("regulator-max-microvolt", &[1_800_000]);
    rest(&mut blob);
    blob.finish()
}

#[test]
fn a_supply_is_found_before_what_cannot_be_read() {
    let found = Ok((1_800_000, 1_800_000));
    let whole = supply_and(|blob| {
        blob.end();
        blob.end();
    });
    assert_eq!(fixed_supply_voltage_uv(Some(5), &whole), found);
    let bad_name = supply_and(|blob| {
        blob.end();
        blob.begin("x");
        let at = blob.structure.len() - 4;
        blob.structure[at] = 0xff;
        blob.end();
    });
    assert_eq!(fixed_supply_voltage_uv(Some(5), &bad_name), found);
    let bad_property = supply_and(|blob| {
        blob.end();
        blob.begin("x");
        blob.word(3);
        blob.word(0x7fff_ffff);
        blob.word(0);
    });
    assert_eq!(fixed_supply_voltage_uv(Some(5), &bad_property), found);
    // Even in the supply itself, behind padding.
    let bad_tail = supply_and(|blob| {
        blob.word(4);
        blob.word(3);
        blob.word(0x7fff_ffff);
        blob.word(0);
    });
    assert_eq!(fixed_supply_voltage_uv(Some(5), &bad_tail), found);
    assert_eq!(
        fixed_supply_voltage_uv(Some(6), &whole),
        Err("qcom-sdhci-sc7180: vqmmc-supply node is missing")
    );
}

#[test]
fn a_tree_can_be_deep() {
    let mut blob = Blob::new();
    blob.begin("");
    for _ in 0..200 {
        blob.begin("n");
    }
    blob.cells("phandle", &[9]);
    for _ in 0..201 {
        blob.end();
    }
    let root = parse(&blob.finish()).unwrap();
    assert_eq!(find_node_by_phandle(&root, 9).unwrap().name, "n");
}

#[test]
fn the_root_is_read_up_to_the_first_bad_token() {
    // A child that cannot be read hides itself and what follows it.
    let mut blob = Blob::new();
    blob.begin("");
    blob.cells("phandle", &[1]);
    blob.begin("good");
    blob.end();
    blob.begin("bad");
    blob.word(3);
    blob.word(0x7fff_ffff);
    blob.word(0);
    let root = parse(&blob.finish()).unwrap();
    assert_eq!(root.phandle(), Some(1));
    assert_eq!(root.children.len(), 1);
    assert_eq!(root.children[0].name, "good");
    // A property that cannot be read hides all children.
    let mut blob = Blob::new();
    blob.begin("");
    blob.cells("phandle", &[1]);
    blob.word(3);
    blob.word(0x7fff_ffff);
    blob.word(0);
    let root = parse(&blob.finish()).unwrap();
    assert_eq!(root.properties.len(), 1);
    assert!(root.children.is_empty());
}

#[test]
fn a_root_has_no_name() {
    let named = |name: &str| {
        let mut blob = Blob::new();
        blob.begin(name);
        blob.end();
        blob.finish()
    };
    assert!(parse(&named("")).is_some());
    assert!(parse(&named("@1")).is_some());
    assert!(parse(&named("x")).is_none());
    // There is a device tree, but nothing in it.
    let names = vec![String::from("gfx-mem")];
    let path: Vec<u8> = [40u32, 8, 0, 41, 1, 0].iter().flat_map(|c| c.to_be_bytes()).collect();
    let error = |blob: &[u8]| match gpu_memory_path(Some(&names), Some(&path), blob, &vec![], None) {
        Err(PathError::Failed(error)) => error,
        _ => panic!("there is no provider"),
    };
    assert_eq!(error(&named("x")), "qcom-sc7180-icc: GEM NoC provider was not found");
    assert_eq!(error(&[0; 40]), "qcom-sc7180-icc: FDT is unavailable");
}

#[test]
fn drivers_read_the_blob() {
    let blob = board();
    assert_eq!(fixed_supply_voltage_uv(Some(41), &blob), Ok((1_800_000, 1_800_000)));
    assert_eq!(
        direct_child_bitfields(&blob, 40),
        vec![BitField { offset: 0x25b, size: 1, bit_offset: 1, bit_size: 3 }]
    );
    assert_eq!(direct_child_bitfields(&blob, 99), vec![]);
    assert_eq!(direct_child_bitfields(&[], 40), vec![]);
    assert_eq!(find_pm6150_rtc(&blob), Some((0, 0x6000)));
    assert_eq!(find_pm6150_rtc(&blob[..100]), None);
    let names = vec![String::from("gfx-mem")];
    let path: Vec<u8> = [40u32, 8, 0, 41, 1, 0].iter().flat_map(|c| c.to_be_bytes()).collect();
    match gpu_memory_path(Some(&names), Some(&path), &blob, &vec![], None) {
        Err(PathError::Failed(error)) => {
            assert_eq!(error, "qcom-sc7180-icc: gfx-mem providers are not SC7180 GEM/MC NoCs");
        }
        _ => panic!("the providers are no interconnects"),
    }
}

#[test]
fn a_blob_without_a_root_has_no_tree() {
    let blob = board();
    for length in [0, 4, 39, 40, 60, blob.len() - 1] {
        assert!(parse(&blob[..length]).is_none());
    }
    let mut magic = blob.clone();
    magic[0] = 0;
    assert!(parse(&magic).is_none());
    // A node that is never closed.
    let mut open = Blob::new();
    open.begin("");
    open.begin("child");
    assert!(parse(&open.finish()).unwrap().children.is_empty());
    // A text that is not UTF-8.
    let mut name = Blob::new();
    name.begin("");
    name.begin("x");
    name.structure[12] = 0xff;
    name.end();
    name.end();
    assert!(parse(&name.finish()).unwrap().children.is_empty());
}

#[test]
fn a_tree_keeps_its_shape() {
    let mut blob = Blob::new();
    blob.begin("");
    blob.begin("a");
    blob.begin("b");
    blob.begin("c");
    blob.end();
    blob.begin("d");
    blob.end();
    blob.end();
    blob.begin("b");
    blob.end();
    blob.end();
    blob.begin("e");
    blob.end();
    blob.end();
    let root = parse(&blob.finish()).unwrap();
    let names = |node: &Node| -> Vec<String> {
        node.children.iter().map(|child| child.name.clone()).collect()
    };
    assert_eq!(names(&root), ["a", "e"]);
    assert_eq!(names(&root.children[0]), ["b", "b"]);
    assert_eq!(names(&root.children[0].children[0]), ["c", "d"]);
    assert!(root.children[0].children[1].children.is_empty());
    assert!(root.children[1].children.is_empty());
}

fn node(name: &str, properties: Vec<Property>, children: Vec<Node>) -> Node {
    Node { name: String::from(name), properties, children }
}

fn text(name: &str, value: &[u8]) -> Property {
    Property { name: String::from(name), value: value.to_vec() }
}

fn cell(name: &str, value: u32) -> Property {
    Property { name: String::from(name), value: value.to_be_bytes().to_vec() }
}

#[test]
fn a_later_child_is_searched_first() {
    let twin = |name: &str| node(name, vec![cell("phandle", 1)], vec![]);
    let root = node("/", vec![], vec![twin("first"), twin("second")]);
    assert_eq!(find_node_by_phandle(&root, 1).unwrap().name, "second");
    let nodes = vec![vec![], vec![cell("phandle", 1), cell("a", 5)], vec![cell("phandle", 1)]];
    assert_eq!(cell_in(find_answering(&nodes, 1).unwrap(), "a"), Some(5));
    let both = node("n", vec![cell("phandle", 1), cell("linux,phandle", 2)], vec![]);
    assert_eq!(both.phandle(), Some(1));
    assert!(find_node_by_phandle(&both, 2).is_none());
    assert!(find_answering(&vec![both.properties], 2).is_some());
}

#[test]
fn lists_of_texts_are_searched_item_by_item() {
    assert!(names_bytes(b"a\0bc\0", b"bc"));
    assert!(!names_bytes(b"a\0bc\0", b"b"));
    assert!(names_bytes(b"a\0bc", b"bc"));
    assert!(names_text(b"a\0bc\0", "bc"));
    // A text that is not UTF-8 ends the list.
    assert!(!names_text(b"a\0\xff\0bc\0", "bc"));
    assert!(names_text(b"a\0\xff\0bc\0", "a"));
    assert!(!names_text(b"", ""));
    assert_eq!(find_item_end(b"ab\0c", 0), 2);
    assert_eq!(find_item_end(b"ab\0c", 3), 4);
}

#[test]
fn the_last_compatible_property_counts() {
    let twice = node(
        "n",
        vec![text("compatible", b"old\0"), text("compatible", b"new\0")],
        vec![],
    );
    assert!(node_has_compatible(&twice, "new"));
    assert!(!node_has_compatible(&twice, "old"));
    assert_eq!(twice.property("compatible"), Some(&b"old\0".to_vec()));
    assert_eq!(twice.property_last("compatible"), Some(&b"new\0".to_vec()));
}

fn pmic(reg: Option<u32>, rtc: Option<u32>) -> Node {
    let mut properties = vec![text("compatible", b"qcom,pm6150\0")];
    if let Some(sid) = reg {
        properties.push(cell("reg", sid));
    }
    let mut clock = vec![text("compatible", b"qcom,pm8941-rtc\0")];
    if let Some(base) = rtc {
        clock.push(cell("reg", base));
    }
    node("pmic", properties, vec![node("other", vec![], vec![]), node("rtc", clock, vec![])])
}

fn arbiter(children: Vec<Node>) -> Node {
    node("spmi", vec![text("compatible", b"qcom,spmi-pmic-arb\0")], children)
}

#[test]
fn the_clock_of_the_pmic_is_found() {
    let tree = node("/", vec![], vec![arbiter(vec![pmic(Some(1), Some(0x6000))])]);
    assert_eq!(find_rtc_in(Some(&tree)), Some((1, 0x6000)));
    assert_eq!(find_rtc_in(None), None);
    assert_eq!(find_rtc_in(Some(&node("/", vec![], vec![]))), None);
    // An unusable address ends the search, even where another arbiter follows.
    for broken in [pmic(None, Some(1)), pmic(Some(256), Some(1)), pmic(Some(1), None)] {
        let good = arbiter(vec![pmic(Some(2), Some(0x6000))]);
        let tree = node("/", vec![], vec![good, arbiter(vec![broken])]);
        assert_eq!(find_rtc_in(Some(&tree)), None);
    }
    let high = node("/", vec![], vec![arbiter(vec![pmic(Some(1), Some(0x1_0000))])]);
    assert_eq!(find_rtc_in(Some(&high)), None);
}

// The fuses.

#[test]
fn sc7180_hstx_trim_bits_are_packed() {
    let field = BitField {
        offset: 0x25b,
        size: 1,
        bit_offset: 1,
        bit_size: 3,
    };
    let mut bytes = [0b0011_1010];
    Sc7180Qfprom::pack_bitfield(field, &mut bytes).unwrap();
    assert_eq!(bytes, [0b101]);
}

#[test]
fn a_field_may_cross_bytes() {
    let field = BitField { offset: 0, size: 3, bit_offset: 6, bit_size: 12 };
    let mut bytes = [0b1100_0000, 0b1010_0101, 0b1111_1101];
    Sc7180Qfprom::pack_bitfield(field, &mut bytes).unwrap();
    assert_eq!(bytes, [0b1001_0111, 0b0000_0110, 0]);
    let mut short = [0xff];
    let wide = BitField { offset: 0, size: 1, bit_offset: 6, bit_size: 3 };
    assert_eq!(
        Sc7180Qfprom::pack_bitfield(wide, &mut short),
        Err(NvmemError::OutOfRange)
    );
    assert_eq!(short, [0xff]);
    let endless = BitField { offset: 0, size: 1, bit_offset: usize::MAX, bit_size: 1 };
    assert_eq!(
        Sc7180Qfprom::pack_bitfield(endless, &mut short),
        Err(NvmemError::OutOfRange)
    );
}

#[test]
fn fuses_are_read_outside_the_keepouts() {
    let field = BitField { offset: 0x25b, size: 1, bit_offset: 1, bit_size: 3 };
    let fuses = Sc7180Qfprom::new(0x1000, vec![field]);
    assert_eq!(fuses.name(), "qcom-sc7180-qfprom");
    assert_eq!(fuses.size(), 0x1000);
    assert_eq!(fuses.check_range(0x120, 8), Ok(()));
    assert_eq!(fuses.check_range(0x120, 9), Err(NvmemError::OutOfRange));
    assert_eq!(fuses.check_range(0x147, 1), Err(NvmemError::OutOfRange));
    assert_eq!(fuses.check_range(0x148, 1), Ok(()));
    assert_eq!(fuses.check_range(0x200, 0x100), Err(NvmemError::OutOfRange));
    assert_eq!(fuses.check_range(0xfff, 1), Ok(()));
    assert_eq!(fuses.check_range(0xfff, 2), Err(NvmemError::OutOfRange));
    assert_eq!(fuses.check_range(usize::MAX, 2), Err(NvmemError::OutOfRange));

    let mut cell = [0b0011_1010];
    assert_eq!(fuses.read(0x25b, &mut cell), Ok(()));
    assert_eq!(cell, [0b101]);
    let mut plain = [0b0011_1010, 1];
    assert_eq!(fuses.read(0x25b, &mut plain), Ok(()));
    assert_eq!(plain, [0b0011_1010, 1]);
    assert_eq!(fuses.read(0x220, &mut plain), Err(NvmemError::OutOfRange));
    assert_eq!(fuses.write(0, &plain), Err(NvmemError::NotSupported));
}

#[test]
fn cells_declare_their_bits() {
    assert_eq!(be_u32_pair(&[0, 0, 0, 1, 0, 0, 0, 2]), Some((1, 2)));
    assert_eq!(be_u32_pair(&[0; 7]), None);
    let pair = |name: &str, a: u32, b: u32| Property {
        name: String::from(name),
        value: [a.to_be_bytes(), b.to_be_bytes()].concat(),
    };
    let provider = node(
        "fuses",
        vec![cell("phandle", 3)],
        vec![
            node("a", vec![pair("reg", 4, 1), pair("bits", 0, 0)], vec![]),
            node("b", vec![pair("reg", 4, 0), pair("bits", 0, 1)], vec![]),
            node("c", vec![pair("reg", 5, 2), pair("bits", 7, 9)], vec![]),
            node("d", vec![pair("bits", 7, 9)], vec![]),
        ],
    );
    let tree = node("/", vec![], vec![provider]);
    assert_eq!(
        child_bitfields_in(Some(&tree), 3),
        vec![BitField { offset: 5, size: 2, bit_offset: 7, bit_size: 9 }]
    );
    assert_eq!(child_bitfields_in(None, 3), vec![]);
    assert_eq!(device_phandle(Some(3)), Ok(3));
    assert_eq!(device_phandle(None), Err("qcom-sc7180-qfprom: missing phandle"));
}

#[test]
fn the_first_memory_resource_is_the_window() {
    let irq = Resource { is_memory: false, start: 1, end: 1 };
    let window = Resource { is_memory: true, start: 0x1000, end: 0x1fff };
    let broken = Resource { is_memory: true, start: 2, end: 1 };
    assert_eq!(corrected_resource(&[irq, window, broken]), Ok((0x1000, 0x1000)));
    assert_eq!(
        corrected_resource(&[irq]),
        Err("qcom-sc7180-qfprom: corrected fuse resource missing")
    );
    assert_eq!(
        corrected_resource(&[broken, window]),
        Err("qcom-sc7180-qfprom: invalid corrected fuse resource")
    );
}

#[test]
fn properties_are_read_as_cells_and_names() {
    assert_eq!(read_cells(&[0, 0, 0, 1, 0, 0, 1, 0]), Some(vec![1, 256]));
    assert_eq!(read_cells(&[]), Some(vec![]));
    assert_eq!(read_cells(&[0; 5]), None);
    assert_eq!(resource_size(0, usize::MAX), None);
    assert_eq!(resource_size(5, 5), Some(1));
    let names = vec![String::from("a"), String::from("b"), String::from("a")];
    assert_eq!(position_of(&names, "a"), Some(0));
    assert_eq!(position_of(&names, "b"), Some(1));
    assert_eq!(position_of(&names, "c"), None);
}
