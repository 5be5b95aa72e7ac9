//! Which fuses a read returns, and where their bits go.

use vstd::prelude::*;

use crate::bytes::be32;
use crate::device_tree::{property_of, NodeView};
use crate::platform::Resource;
use crate::qfprom::{
    corrected_resource, declared_field, declared_fields, field_fits, field_of, first_memory,
    in_window, is_packed, BitField, SC7180_KEEPOUTS,
};

verus! {

/// A read is allowed if and only if it stays in the window and touches
/// neither 0x128 to 0x147 nor 0x220 to 0x227.
pub proof fn reads_avoid_two_ranges(size: usize, offset: usize, length: int)
    requires
        0 <= length,
    ensures
        in_window(size, offset, length) <==> {
            &&& offset + length <= size
            &&& offset + length <= 0x128 || 0x148 <= offset
            &&& offset + length <= 0x220 || 0x228 <= offset
        },
{
    assert(SC7180_KEEPOUTS@.len() == 2);
    assert(SC7180_KEEPOUTS@[0] == (0x128usize, 0x148usize));
    assert(SC7180_KEEPOUTS@[1] == (0x220usize, 0x228usize));
}

/// Bit `i` of a packed field is bit `bit_offset + i` of what was read; above
/// the field all bits are clear.
pub proof fn field_bits_move_to_the_bottom(
    field: BitField,
    bytes: Seq<u8>,
    packed: Seq<u8>,
    i: int,
)
    requires
        is_packed(field, bytes, packed),
        field_fits(field, bytes.len() as int),
        8 * bytes.len() <= usize::MAX,
        0 <= i < 8 * bytes.len(),
    ensures
        packed.len() == bytes.len(),
        i < field.bit_size ==> field.bit_offset + i < 8 * bytes.len(),
        i < field.bit_size ==> (packed[i / 8] >> (i % 8) as u8) & 1 == (bytes[(field.bit_offset + i)
            / 8] >> ((field.bit_offset + i) % 8) as u8) & 1,
        i >= field.bit_size ==> (packed[i / 8] >> (i % 8) as u8) & 1 == 0,
{
    let to = packed[i / 8];
    let at = (i % 8) as u8;
    let from = bytes[(field.bit_offset + i) / 8];
    let place = ((field.bit_offset + i) % 8) as u8;
    assert(crate::qfprom::bit_at(packed, i) == (i < field.bit_size && crate::qfprom::bit_at(
        bytes,
        field.bit_offset + i,
    )));
    assert(((to >> at) & 1 == 0 || (to >> at) & 1 == 1) && ((from >> place) & 1 == 0 || (from
        >> place) & 1 == 1)) by (bit_vector);
}

/// A field fits if and only if its last bit was read.
pub proof fn fields_end_inside_what_was_read(field: BitField, length: int)
    requires
        0 <= length,
        8 * length <= usize::MAX,
    ensures
        field_fits(field, length) <==> field.bit_offset + field.bit_size <= 8 * length,
{
}

/// A read is unpacked by the first field that is declared at exactly its
/// place and size, and by none if there is no such field.
pub proof fn the_first_declared_field_applies(
    fields: Seq<BitField>,
    offset: usize,
    size: usize,
    index: int,
)
    requires
        0 <= index < fields.len(),
    ensures
        fields[index].offset == offset && fields[index].size == size && (forall|i: int|
            0 <= i < index ==> (#[trigger] fields[i]).offset != offset || fields[i].size != size)
            ==> field_of(fields, offset, size) == Some(fields[index]),
        (forall|i: int|
            0 <= i < fields.len() ==> (#[trigger] fields[i]).offset != offset || fields[i].size
                != size) ==> field_of(fields, offset, size) is None,
    decreases fields.len(),
{
    let rest = fields.skip(1);
    assert forall|i: int| 0 <= i < rest.len() implies #[trigger] rest[i] == fields[i + 1] by {
    }
    if fields.len() == 1 {
        assert(rest.len() == 0);
        reveal_with_fuel(field_of, 2);
    } else if index > 0 {
        the_first_declared_field_applies(rest, offset, size, index - 1);
    } else {
        the_first_declared_field_applies(rest, offset, size, 0);
    }
}

/// A cell declares a field with two cells of `reg` and two of `bits`: place
/// and size in bytes, then place and size in bits.
pub proof fn cells_declare_fields(cell: NodeView, reg: Seq<u8>, bits: Seq<u8>)
    requires
        property_of(cell, "reg"@) == Some(reg),
        property_of(cell, "bits"@) == Some(bits),
        reg.len() >= 8,
        bits.len() >= 8,
    ensures
        be32(reg, 4) == 0 || be32(bits, 4) == 0 ==> declared_field(cell) is None,
        be32(reg, 4) > 0 && be32(bits, 4) > 0 ==> {
            &&& declared_field(cell) is Some
            &&& declared_field(cell)->Some_0.offset == be32(reg, 0)
            &&& declared_field(cell)->Some_0.size == be32(reg, 4)
            &&& declared_field(cell)->Some_0.bit_offset == be32(bits, 0)
            &&& declared_field(cell)->Some_0.bit_size == be32(bits, 4)
        },
{
}

/// A cell without `reg` or without `bits` declares no field. Fields keep the
/// order of their cells.
pub proof fn fields_keep_their_order(cells: Seq<NodeView>, cell: NodeView)
    ensures
        property_of(cell, "reg"@) is None || property_of(cell, "bits"@) is None ==> declared_field(
            cell,
        ) is None,
        declared_field(cell) is None ==> declared_fields(cells.push(cell)) == declared_fields(
            cells,
        ),
        declared_field(cell) matches Some(field) ==> declared_fields(cells.push(cell))
            == declared_fields(cells).push(field),
{
    assert(cells.push(cell).drop_last() =~= cells);
}

/// The fuses are the first memory resource, whatever comes before it.
pub proof fn the_first_memory_holds_the_fuses(resources: Seq<Resource>, index: int)
    requires
        0 <= index < resources.len(),
        resources[index].is_memory,
        forall|i: int| 0 <= i < index ==> !(#[trigger] resources[i]).is_memory,
    ensures
        first_memory(resources) == Some(resources[index]),
    decreases resources.len(),
{
    if index > 0 {
        let rest = resources.skip(1);
        assert(!resources[0].is_memory);
        assert forall|i: int| 0 <= i < index - 1 implies !(#[trigger] rest[i]).is_memory by {
            assert(rest[i] == resources[i + 1]);
        }
        assert(rest[index - 1] == resources[index]);
        the_first_memory_holds_the_fuses(rest, index - 1);
    }
}

/// Its window is what lies between its two ends, both included.
pub proof fn the_window_includes_both_ends(
    resources: &[Resource],
    r: Result<(usize, usize), &'static str>,
)
    requires
        call_ensures(corrected_resource, (resources,), r),
        resources@.len() > 0,
        resources@[0].is_memory,
    ensures
        r matches Ok((start, size)) ==> start == resources@[0].start && start + size
            == resources@[0].end + 1,
        r is Err <==> resources@[0].end < resources@[0].start || resources@[0].end
            - resources@[0].start == usize::MAX,
{
}

} // verus!
