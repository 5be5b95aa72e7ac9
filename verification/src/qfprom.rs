//! The corrected fuses of the SC7180, read only.
//!
//! Two ranges of the window must not be read. A cell that the device tree
//! declares with a bit offset and width is returned with those bits moved to
//! the bottom.

use vstd::prelude::*;

use crate::bytes::{be32, read_be_u32};
use crate::cros_ec_spi::{as_u32, read_u32_property};
use crate::device_tree::{
    by_phandle, find_node_by_phandle, node_view, node_views, node_views_are_views, parse,
    property_of, tree_of, tree_view, Node, NodeView,
};
use crate::platform::{resource_size, span, Resource};

pub mod laws;

verus! {

pub const DRIVER_NAME: &'static str = "qcom-sc7180-qfprom";

/// The ranges that must not be read: start and end.
pub const SC7180_KEEPOUTS: [(usize, usize); 2] = [(0x128, 0x148), (0x220, 0x228)];

#[derive(Clone, Copy, Debug, Eq, PartialEq, Structural)]
pub enum NvmemError {
    OutOfRange,
    NotSupported,
}

/// Where the bits of a cell are.
#[derive(Clone, Copy, Debug, Eq, PartialEq, Structural)]
pub struct BitField {
    pub offset: usize,
    pub size: usize,
    pub bit_offset: usize,
    pub bit_size: usize,
}

/// The corrected-fuse window and the cells declared in it.
#[derive(Debug)]
pub struct Sc7180Qfprom {
    pub size: usize,
    pub bitfields: Vec<BitField>,
}

// Bits.

pub open spec fn bit_of(byte: u8, index: u8) -> bool {
    (byte >> index) & 1 == 1
}

/// A bit of a list of bytes, counted from the lowest of the first one.
pub open spec fn bit_at(bytes: Seq<u8>, index: int) -> bool {
    bit_of(bytes[index / 8], (index % 8) as u8)
}

/// The bits of a field, moved to the bottom; the rest is clear.
pub open spec fn is_packed(field: BitField, bytes: Seq<u8>, packed: Seq<u8>) -> bool {
    &&& packed.len() == bytes.len()
    &&& forall|i: int|
        0 <= i < 8 * packed.len() ==> #[trigger] bit_at(packed, i) == (i < field.bit_size
            && bit_at(bytes, field.bit_offset + i))
}

/// A field lies within a list of bytes.
pub open spec fn field_fits(field: BitField, length: int) -> bool {
    &&& field.bit_offset + field.bit_size <= usize::MAX
    &&& field.bit_offset + field.bit_size <= 8 * length || 8 * length > usize::MAX
}

/// A range keeps clear of everything that must not be read.
pub open spec fn readable(offset: int, end: int) -> bool {
    forall|i: int|
        0 <= i < SC7180_KEEPOUTS@.len() ==> end <= (#[trigger] SC7180_KEEPOUTS@[i]).0 || offset
            >= SC7180_KEEPOUTS@[i].1
}

/// A range of the window that may be read.
pub open spec fn in_window(size: usize, offset: usize, length: int) -> bool {
    offset + length <= size && readable(offset as int, offset + length)
}

/// The first cell that covers exactly a range.
pub open spec fn field_of(fields: Seq<BitField>, offset: usize, size: usize) -> Option<BitField>
    decreases fields.len(),
{
    if fields.len() == 0 {
        None
    } else if fields[0].offset == offset && fields[0].size == size {
        Some(fields[0])
    } else {
        field_of(fields.skip(1), offset, size)
    }
}

proof fn setting_a_bit(byte: u8, set: u8, index: u8)
    requires
        set < 8,
        index < 8,
    ensures
        bit_of(byte | (1u8 << set), index) == (bit_of(byte, index) || index == set),
{
    assert(((byte | (1u8 << set)) >> index) & 1 == 1 <==> ((byte >> index) & 1 == 1 || index
        == set)) by (bit_vector)
        requires
            set < 8,
            index < 8,
    ;
}

proof fn zero_has_no_bits(index: u8)
    ensures
        !bit_of(0, index),
{
    assert((0u8 >> index) & 1 == 0) by (bit_vector);
}

impl Sc7180Qfprom {
    pub fn new(size: usize, bitfields: Vec<BitField>) -> (r: Sc7180Qfprom)
        ensures
            r.size == size,
            r.bitfields@ == bitfields@,
    {
        Sc7180Qfprom { size, bitfields }
    }

    pub fn name(&self) -> (r: &'static str)
        ensures
            r == DRIVER_NAME,
    {
        DRIVER_NAME
    }

    pub fn size(&self) -> (r: usize)
        ensures
            r == self.size,
    {
        self.size
    }

    /// Moves the bits of a field to the bottom.
    pub fn pack_bitfield(field: BitField, bytes: &mut [u8]) -> (r: Result<(), NvmemError>)
        ensures
            match r {
                Ok(_) => field_fits(field, old(bytes)@.len() as int) && is_packed(
                    field,
                    old(bytes)@,
                    final(bytes)@,
                ),
                Err(e) => !field_fits(field, old(bytes)@.len() as int) && e
                    == NvmemError::OutOfRange && final(bytes)@ == old(bytes)@,
            },
    {
        let length: usize = bytes.len();
        if field.bit_size > usize::MAX - field.bit_offset {
            return Err(NvmemError::OutOfRange);
        }
        let last_bit: usize = field.bit_offset + field.bit_size;
        if length <= usize::MAX / 8 && last_bit > 8 * length {
            return Err(NvmemError::OutOfRange);
        }
        let mut packed: Vec<u8> = vec![0u8; length];
        let mut bit: usize = 0;
        assert forall|i: int| 0 <= i < 8 * length implies !(#[trigger] bit_at(packed@, i)) by {
            zero_has_no_bits((i % 8) as u8);
        }
        while bit < field.bit_size
            invariant
                bit <= field.bit_size,
                length == bytes@.len(),
                bytes@ == old(bytes)@,
                packed@.len() == length,
                last_bit == field.bit_offset + field.bit_size,
                last_bit <= 8 * length,
                forall|i: int|
                    0 <= i < 8 * length ==> #[trigger] bit_at(packed@, i) == (i < bit && bit_at(
                        bytes@,
                        field.bit_offset + i,
                    )),
            decreases field.bit_size - bit,
        {
            let source: usize = field.bit_offset + bit;
            let ghost before = packed@;
            let byte: u8 = bytes[source / 8];
            let shift: u8 = (source % 8) as u8;
            if (byte >> shift) & 1 == 1 {
                let set: u8 = (bit % 8) as u8;
                packed.set(bit / 8, packed[bit / 8] | (1u8 << set));
                assert forall|i: int| 0 <= i < 8 * length implies #[trigger] bit_at(packed@, i)
                    == (bit_at(before, i) || i == bit) by {
                    setting_a_bit(before[bit as int / 8], set, (i % 8) as u8);
                }
            }
            assert(bit_at(bytes@, source as int) == ((byte >> shift) & 1 == 1));
            bit += 1;
        }
        let mut i: usize = 0;
        while i < length
            invariant
                i <= length,
                length == packed@.len(),
                bytes@.len() == length,
                forall|k: int| 0 <= k < i ==> #[trigger] bytes@[k] == packed@[k],
            decreases length - i,
        {
            bytes[i] = packed[i];
            i += 1;
        }
        assert(bytes@ =~= packed@);
        Ok(())
    }

    fn range_is_readable(&self, offset: usize, end: usize) -> (r: bool)
        ensures
            r == readable(offset as int, end as int),
    {
        let mut i: usize = 0;
        while i < SC7180_KEEPOUTS.len()
            invariant
                i <= SC7180_KEEPOUTS@.len(),
                forall|k: int|
                    0 <= k < i ==> end <= (#[trigger] SC7180_KEEPOUTS@[k]).0 || offset
                        >= SC7180_KEEPOUTS@[k].1,
            decreases SC7180_KEEPOUTS@.len() - i,
        {
            let (start, stop): (usize, usize) = SC7180_KEEPOUTS[i];
            if !(end <= start || offset >= stop) {
                return false;
            }
            i += 1;
        }
        true
    }

    fn bitfield_for_exact_read(&self, offset: usize, size: usize) -> (r: Option<BitField>)
        ensures
            r == field_of(self.bitfields@, offset, size),
    {
        let length: usize = self.bitfields.len();
        let mut i: usize = 0;
        assert(self.bitfields@.skip(0) =~= self.bitfields@);
        while i < length
            invariant
                i <= length,
                length == self.bitfields@.len(),
                field_of(self.bitfields@, offset, size) == field_of(
                    self.bitfields@.skip(i as int),
                    offset,
                    size,
                ),
            decreases length - i,
        {
            let field = self.bitfields[i];
            assert(self.bitfields@.skip(i as int)[0] == field);
            assert(self.bitfields@.skip(i as int).skip(1) =~= self.bitfields@.skip(i + 1));
            if field.offset == offset && field.size == size {
                return Some(field);
            }
            i += 1;
        }
        None
    }

    /// Whether a range of the window may be read.
    pub fn check_range(&self, offset: usize, length: usize) -> (r: Result<(), NvmemError>)
        ensures
            r == (if in_window(self.size, offset, length as int) {
                Ok::<(), NvmemError>(())
            } else {
                Err(NvmemError::OutOfRange)
            }),
    {
        if length > usize::MAX - offset {
            return Err(NvmemError::OutOfRange);
        }
        let end: usize = offset + length;
        if end > self.size || !self.range_is_readable(offset, end) {
            return Err(NvmemError::OutOfRange);
        }
        Ok(())
    }

    /// Reads a range, given the bytes of the window there. A cell with a bit
    /// field is packed.
    pub fn read(&self, offset: usize, bytes: &mut [u8]) -> (r: Result<(), NvmemError>)
        ensures
            match r {
                Ok(_) => in_window(self.size, offset, old(bytes)@.len() as int) && (match field_of(
                    self.bitfields@,
                    offset,
                    old(bytes)@.len() as usize,
                ) {
                    Some(field) => field_fits(field, old(bytes)@.len() as int) && is_packed(
                        field,
                        old(bytes)@,
                        final(bytes)@,
                    ),
                    None => final(bytes)@ == old(bytes)@,
                }),
                Err(e) => e == NvmemError::OutOfRange && final(bytes)@ == old(bytes)@ && (
                !in_window(self.size, offset, old(bytes)@.len() as int) || (field_of(
                    self.bitfields@,
                    offset,
                    old(bytes)@.len() as usize,
                ) matches Some(field) && !field_fits(field, old(bytes)@.len() as int))),
            },
    {
        let length: usize = bytes.len();
        match self.check_range(offset, length) {
            Ok(_) => {},
            Err(e) => {
                return Err(e);
            },
        }
        match self.bitfield_for_exact_read(offset, length) {
            Some(field) => Self::pack_bitfield(field, bytes),
            None => Ok(()),
        }
    }

    /// The fuses are never written.
    pub fn write(&self, _offset: usize, _bytes: &[u8]) -> (r: Result<(), NvmemError>)
        ensures
            r == Err::<(), NvmemError>(NvmemError::NotSupported),
    {
        Err(NvmemError::NotSupported)
    }
}

// Cells.

/// Two words of a property.
pub open spec fn pair_of(value: Seq<u8>) -> Option<(u32, u32)> {
    if value.len() < 8 {
        None
    } else {
        Some((be32(value, 0) as u32, be32(value, 4) as u32))
    }
}

pub fn be_u32_pair(value: &[u8]) -> (r: Option<(u32, u32)>)
    ensures
        r == pair_of(value@),
{
    match (read_be_u32(value, 0), read_be_u32(value, 4)) {
        (Some(first), Some(second)) => Some((first, second)),
        _ => None,
    }
}

/// The bit field that a cell declares.
pub open spec fn declared_field(cell: NodeView) -> Option<BitField> {
    match (property_of(cell, "reg"@), property_of(cell, "bits"@)) {
        (Some(reg), Some(bits)) => match (pair_of(reg), pair_of(bits)) {
            (Some((offset, size)), Some((bit_offset, bit_size))) => if size == 0 || bit_size == 0 {
                None
            } else {
                Some(
                    BitField {
                        offset: offset as usize,
                        size: size as usize,
                        bit_offset: bit_offset as usize,
                        bit_size: bit_size as usize,
                    },
                )
            },
            _ => None,
        },
        _ => None,
    }
}

/// The bit fields that the cells of a provider declare, in order.
pub open spec fn declared_fields(cells: Seq<NodeView>) -> Seq<BitField>
    decreases cells.len(),
{
    if cells.len() == 0 {
        Seq::empty()
    } else {
        let before = declared_fields(cells.drop_last());
        match declared_field(cells.last()) {
            Some(field) => before.push(field),
            None => before,
        }
    }
}

/// The bit fields of a provider in the device tree.
pub open spec fn fields_of(tree: Option<NodeView>, phandle: u32) -> Seq<BitField> {
    match tree {
        Some(root) => match by_phandle(root, phandle) {
            Some(provider) => declared_fields(provider.children),
            None => Seq::empty(),
        },
        None => Seq::empty(),
    }
}

fn cell_field(cell: &Node) -> (r: Option<BitField>)
    ensures
        r == declared_field(cell@),
{
    let reg = match cell.property("reg") {
        Some(reg) => reg,
        None => {
            return None;
        },
    };
    let bits = match cell.property("bits") {
        Some(bits) => bits,
        None => {
            return None;
        },
    };
    match (be_u32_pair(reg), be_u32_pair(bits)) {
        (Some((offset, size)), Some((bit_offset, bit_size))) => {
            if size == 0 || bit_size == 0 {
                return None;
            }
            Some(
                BitField {
                    offset: offset as usize,
                    size: size as usize,
                    bit_offset: bit_offset as usize,
                    bit_size: bit_size as usize,
                },
            )
        },
        _ => None,
    }
}

/// The bit fields that the children of a provider declare, in a device tree.
pub fn child_bitfields_in(tree: Option<&Node>, provider_phandle: u32) -> (r: Vec<BitField>)
    ensures
        r@ == fields_of(tree_view(tree), provider_phandle),
{
    let mut fields: Vec<BitField> = Vec::new();
    let root = match tree {
        Some(root) => root,
        None => {
            return fields;
        },
    };
    let provider = match find_node_by_phandle(root, provider_phandle) {
        Some(provider) => provider,
        None => {
            return fields;
        },
    };
    let length: usize = provider.children.len();
    proof {
        node_views_are_views(provider.children@);
    }
    let ghost views = node_views(provider.children@);
    assert(views.take(0) =~= Seq::<NodeView>::empty());
    let mut i: usize = 0;
    while i < length
        invariant
            i <= length,
            length == provider.children@.len(),
            views == node_views(provider.children@),
            views.len() == length,
            forall|k: int|
                0 <= k < length ==> #[trigger] views[k] == node_view(provider.children@[k]),
            fields@ == declared_fields(views.take(i as int)),
        decreases length - i,
    {
        assert(views.take(i + 1).last() == node_view(provider.children@[i as int]));
        assert(views.take(i + 1).drop_last() =~= views.take(i as int));
        if let Some(field) = cell_field(&provider.children[i]) {
            fields.push(field);
        }
        i += 1;
    }
    assert(views.take(length as int) =~= views);
    fields
}

/// The bit fields that the children of a provider declare, in a flattened
/// device tree.
pub fn direct_child_bitfields(blob: &[u8], provider_phandle: u32) -> (r: Vec<BitField>)
    ensures
        r@ == fields_of(tree_of(blob@), provider_phandle),
{
    match parse(blob) {
        Some(root) => child_bitfields_in(Some(&root), provider_phandle),
        None => child_bitfields_in(None, provider_phandle),
    }
}

// Probing.

/// The handle of a device.
pub fn device_phandle(phandle: Option<usize>) -> (r: Result<u32, &'static str>)
    ensures
        r == (match as_u32(phandle) {
            Some(value) => Ok::<u32, &'static str>(value),
            None => Err("qcom-sc7180-qfprom: missing phandle"),
        }),
{
    match read_u32_property(phandle) {
        Some(value) => Ok(value),
        None => Err("qcom-sc7180-qfprom: missing phandle"),
    }
}

/// The first register window among the resources.
pub open spec fn first_memory(resources: Seq<Resource>) -> Option<Resource>
    decreases resources.len(),
{
    if resources.len() == 0 {
        None
    } else if resources[0].is_memory {
        Some(resources[0])
    } else {
        first_memory(resources.skip(1))
    }
}

/// The window of the corrected fuses.
pub fn corrected_resource(resources: &[Resource]) -> (r: Result<(usize, usize), &'static str>)
    ensures
        r == (match first_memory(resources@) {
            None => Err::<(usize, usize), &'static str>(
                "qcom-sc7180-qfprom: corrected fuse resource missing",
            ),
            Some(resource) => match span(resource.start, resource.end) {
                Some(size) => Ok((resource.start, size as usize)),
                None => Err("qcom-sc7180-qfprom: invalid corrected fuse resource"),
            },
        }),
{
    let length: usize = resources.len();
    let mut i: usize = 0;
    assert(resources@.skip(0) =~= resources@);
    while i < length
        invariant
            i <= length,
            length == resources@.len(),
            first_memory(resources@) == first_memory(resources@.skip(i as int)),
        decreases length - i,
    {
        let resource = resources[i];
        assert(resources@.skip(i as int)[0] == resource);
        assert(resources@.skip(i as int).skip(1) =~= resources@.skip(i + 1));
        if resource.is_memory {
            return match resource_size(resource.start, resource.end) {
                Some(size) => Ok((resource.start, size)),
                None => Err("qcom-sc7180-qfprom: invalid corrected fuse resource"),
            };
        }
        i += 1;
    }
    Err("qcom-sc7180-qfprom: corrected fuse resource missing")
}

// Laws.

/// Nothing that must not be read is read.
pub proof fn keepouts_are_not_read(size: usize, offset: usize, length: int, at: int)
    requires
        in_window(size, offset, length),
        offset <= at < offset + length,
    ensures
        at < size,
        !(0x128 <= at < 0x148),
        !(0x220 <= at < 0x228),
{
    assert(SC7180_KEEPOUTS@[0] == (0x128usize, 0x148usize));
    assert(SC7180_KEEPOUTS@[1] == (0x220usize, 0x228usize));
}

/// A field of at most eight bits reads as a single small value: all bytes but
/// the first are zero, and the first has none of the bits above the field.
pub proof fn a_small_field_reads_as_a_small_value(
    field: BitField,
    bytes: Seq<u8>,
    packed: Seq<u8>,
    at: int,
)
    requires
        is_packed(field, bytes, packed),
        field.bit_size <= 8,
        0 <= at < packed.len(),
    ensures
        at > 0 ==> packed[at] == 0,
        at == 0 && field.bit_size == 3 ==> packed[0] < 8,
        at == 0 ==> forall|i: u8| field.bit_size <= i < 8 ==> !#[trigger] bit_of(packed[0], i),
{
    let byte = packed[at];
    assert forall|i: u8| field.bit_size <= 8 * at + i && i < 8 implies !#[trigger] bit_of(
        byte,
        i,
    ) by {
        assert(!bit_at(packed, 8 * at + i));
    }
    if at > 0 {
        assert(!bit_of(byte, 0) && !bit_of(byte, 1) && !bit_of(byte, 2) && !bit_of(byte, 3)
            && !bit_of(byte, 4) && !bit_of(byte, 5) && !bit_of(byte, 6) && !bit_of(byte, 7));
        assert(byte == 0) by (bit_vector)
            requires
                (byte >> 0u8) & 1 != 1,
                (byte >> 1u8) & 1 != 1,
                (byte >> 2u8) & 1 != 1,
                (byte >> 3u8) & 1 != 1,
                (byte >> 4u8) & 1 != 1,
                (byte >> 5u8) & 1 != 1,
                (byte >> 6u8) & 1 != 1,
                (byte >> 7u8) & 1 != 1,
        ;
    } else if field.bit_size == 3 {
        assert(!bit_of(byte, 3) && !bit_of(byte, 4) && !bit_of(byte, 5) && !bit_of(byte, 6)
            && !bit_of(byte, 7));
        assert(byte < 8) by (bit_vector)
            requires
                (byte >> 3u8) & 1 != 1,
                (byte >> 4u8) & 1 != 1,
                (byte >> 5u8) & 1 != 1,
                (byte >> 6u8) & 1 != 1,
                (byte >> 7u8) & 1 != 1,
        ;
    }
}

/// Keeps the driver linked into builds that load it by name.
pub fn force_link() {
}

} // verus!
