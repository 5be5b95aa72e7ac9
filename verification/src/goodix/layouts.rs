//! How the fields of a touch layout lie in their report.

use vstd::prelude::*;

use crate::bytes::{first_index, first_index_is_first};
use crate::goodix::descriptor::{
    descriptor_layout, fields_of, initial_parser, is_paired_x, is_role, item_size, logical_maximum,
    parse_items, short_item, ParserView, TouchUsage, MAX_INPUT_REPORT_BITS,
};
use crate::goodix::hid::{HidField, LayoutView};

verus! {

/// One field ends where the other begins, or before that.
pub open spec fn precedes(a: HidField, b: HidField) -> bool {
    a.bit_offset + a.bit_size <= b.bit_offset
}

/// A bit of a report belongs to a field.
pub open spec fn covers(field: HidField, bit: int) -> bool {
    field.bit_offset <= bit < field.bit_offset + field.bit_size
}

/// No bit of a report belongs to both fields.
pub open spec fn disjoint(a: HidField, b: HidField) -> bool {
    forall|bit: int| #![trigger covers(a, bit)] covers(a, bit) ==> !covers(b, bit)
}

/// Each field of a list lies behind those before it.
pub open spec fn ascend(fields: Seq<HidField>) -> bool {
    forall|i: int, j: int|
        #![trigger fields[i], fields[j]]
        0 <= i < j < fields.len() ==> precedes(fields[i], fields[j])
}

/// The fields of a layout, list by list.
pub open spec fn field_lists(layout: LayoutView) -> Seq<Seq<HidField>> {
    seq![
        layout.tips,
        layout.contact_ids,
        layout.x,
        layout.y,
        layout.pressure,
        layout.touch_major,
        match layout.contact_count {
            Some(field) => seq![field],
            None => Seq::empty(),
        },
    ]
}

/// The fields that were kept of one report follow one another, and the report
/// reaches beyond them.
spec fn laid_out(p: ParserView) -> bool {
    &&& p.offsets.len() == 256
    &&& forall|i: int, j: int|
        #![trigger p.fields[i], p.fields[j]]
        0 <= i < j < p.fields.len() && p.fields[i].1.report_id == p.fields[j].1.report_id
            ==> precedes(p.fields[i].1, p.fields[j].1)
    &&& forall|i: int|
        #![trigger p.fields[i]]
        0 <= i < p.fields.len() ==> p.fields[i].1.bit_offset + p.fields[i].1.bit_size
            <= p.offsets[p.fields[i].1.report_id as int]
}

proof fn touch_fields_are_laid_out(p: ParserView, base: int, maximum: i32, count: int)
    requires
        0 <= base,
        0 <= count <= p.globals.report_count,
        base + p.globals.report_size * p.globals.report_count <= MAX_INPUT_REPORT_BITS,
    ensures
        ({
            let fields = p.touch_fields(base, maximum, count);
            &&& forall|i: int, j: int|
                #![trigger fields[i], fields[j]]
                0 <= i < j < fields.len() ==> precedes(fields[i].1, fields[j].1)
            &&& forall|i: int|
                #![trigger fields[i]]
                0 <= i < fields.len() ==> {
                    &&& fields[i].1.report_id == p.globals.report_id
                    &&& base <= fields[i].1.bit_offset
                    &&& fields[i].1.bit_offset + fields[i].1.bit_size <= base
                        + p.globals.report_size * count
                }
        }),
    decreases count,
{
    if count > 0 {
        touch_fields_are_laid_out(p, base, maximum, count - 1);
        let size = p.globals.report_size as int;
        let total = p.globals.report_count as int;
        assert(size * (count - 1) + size == size * count && size * count <= size * total && 0
            <= size * (count - 1) && (count - 1) * size == size * (count - 1))
            by (nonlinear_arith)
            requires
                1 <= count <= total,
                0 <= size,
        ;
        let before = p.touch_fields(base, maximum, count - 1);
        let fields = p.touch_fields(base, maximum, count);
        assert forall|i: int, j: int|
            #![trigger fields[i], fields[j]]
            0 <= i < j < fields.len() implies precedes(fields[i].1, fields[j].1) by {
            assert(fields[i] == before[i]);
            if j < before.len() {
                assert(fields[j] == before[j]);
            }
        }
        assert forall|i: int|
            #![trigger fields[i]]
            0 <= i < fields.len() implies {
            &&& fields[i].1.report_id == p.globals.report_id
            &&& base <= fields[i].1.bit_offset
            &&& fields[i].1.bit_offset + fields[i].1.bit_size <= base + p.globals.report_size
                * count
        } by {
            if i < before.len() {
                assert(fields[i] == before[i]);
            }
        }
    }
}

/// A report that grows keeps its fields.
proof fn growing_keeps_fields(p: ParserView, next: ParserView)
    requires
        laid_out(p),
        next.fields == p.fields,
        next.offsets.len() == 256,
        forall|id: int| 0 <= id < 256 ==> p.offsets[id] <= #[trigger] next.offsets[id],
    ensures
        laid_out(next),
{
    assert forall|i: int|
        #![trigger next.fields[i]]
        0 <= i < next.fields.len() implies next.fields[i].1.bit_offset + next.fields[i].1.bit_size
        <= next.offsets[next.fields[i].1.report_id as int] by {
        let id = p.fields[i].1.report_id as int;
        assert(p.offsets[id] <= next.offsets[id]);
    }
}

proof fn input_lays_fields_out(p: ParserView, flags: u32)
    requires
        laid_out(p),
    ensures
        p.input(flags) matches Ok(next) ==> laid_out(next),
{
    if let Ok(next) = p.input(flags) {
        let count = p.globals.report_count as int;
        let size = p.globals.report_size as int;
        let id = p.globals.report_id as int;
        let base = p.offsets[id] as int;
        assert(0 <= size * count) by (nonlinear_arith)
            requires
                0 <= size,
                0 <= count,
        ;
        let grown = ParserView { fields: p.fields, ..next };
        growing_keeps_fields(p, grown);
        if p.in_touch_collection() && flags % 4 == 2 && p.has_touch_field(count) {
            let maximum = logical_maximum(p.globals)->Ok_0;
            let fresh = p.touch_fields(base, maximum, count);
            touch_fields_are_laid_out(p, base, maximum, count);
            let known = p.fields.len() as int;
            assert forall|i: int, j: int|
                #![trigger next.fields[i], next.fields[j]]
                0 <= i < j < next.fields.len() && next.fields[i].1.report_id
                    == next.fields[j].1.report_id implies precedes(
                next.fields[i].1,
                next.fields[j].1,
            ) by {
                if j < known {
                    assert(next.fields[i] == p.fields[i]);
                    assert(next.fields[j] == p.fields[j]);
                } else {
                    assert(next.fields[j] == fresh[j - known]);
                    if i < known {
                        assert(next.fields[i] == p.fields[i]);
                    } else {
                        assert(next.fields[i] == fresh[i - known]);
                    }
                }
            }
            assert forall|i: int|
                #![trigger next.fields[i]]
                0 <= i < next.fields.len() implies next.fields[i].1.bit_offset
                + next.fields[i].1.bit_size <= next.offsets[next.fields[i].1.report_id as int] by {
                if i < known {
                    assert(next.fields[i] == grown.fields[i]);
                } else {
                    assert(next.fields[i] == fresh[i - known]);
                }
            }
        }
    }
}

proof fn items_lay_fields_out(d: Seq<u8>, cursor: int, state: ParserView)
    requires
        0 <= cursor,
        laid_out(state),
    ensures
        parse_items(d, cursor, state) matches Ok(end) ==> laid_out(end),
    decreases d.len() - cursor,
{
    if cursor < d.len() {
        if d[cursor] == 0xfe {
            if cursor + 1 < d.len() && cursor + 3 + d[cursor + 1] <= d.len() {
                items_lay_fields_out(d, cursor + 3 + d[cursor + 1], state);
            }
        } else if cursor + 1 + item_size(d[cursor]) <= d.len() {
            let item = short_item(d, cursor);
            if let Ok(next) = state.item(item) {
                if item.item_type == 0 && item.tag == 8 {
                    input_lays_fields_out(state, item.value);
                } else {
                    growing_keeps_fields(state, next);
                }
                items_lay_fields_out(d, cursor + 1 + item_size(d[cursor]), next);
            }
        }
    }
}

/// Where the fields of one role in one report stand among all.
spec fn places_of(
    fields: Seq<(TouchUsage, HidField)>,
    role: TouchUsage,
    report_id: u8,
) -> Seq<int>
    decreases fields.len(),
{
    if fields.len() == 0 {
        Seq::empty()
    } else {
        let before = places_of(fields.drop_last(), role, report_id);
        if fields.last().0 == role && fields.last().1.report_id == report_id {
            before.push(fields.len() - 1)
        } else {
            before
        }
    }
}

proof fn places_hold_the_fields(
    fields: Seq<(TouchUsage, HidField)>,
    role: TouchUsage,
    report_id: u8,
)
    ensures
        ({
            let places = places_of(fields, role, report_id);
            let chosen = fields_of(fields, role, report_id);
            &&& places.len() == chosen.len()
            &&& forall|i: int|
                #![trigger places[i]]
                0 <= i < places.len() ==> {
                    &&& 0 <= places[i] < fields.len()
                    &&& fields[places[i]] == (role, chosen[i])
                    &&& chosen[i].report_id == report_id
                }
            &&& forall|i: int, j: int|
                #![trigger places[i], places[j]]
                0 <= i < j < places.len() ==> places[i] < places[j]
        }),
    decreases fields.len(),
{
    if fields.len() > 0 {
        let rest = fields.drop_last();
        places_hold_the_fields(rest, role, report_id);
        let before = places_of(rest, role, report_id);
        let places = places_of(fields, role, report_id);
        let chosen = fields_of(fields, role, report_id);
        assert forall|i: int|
            #![trigger places[i]]
            0 <= i < places.len() implies {
            &&& 0 <= places[i] < fields.len()
            &&& fields[places[i]] == (role, chosen[i])
            &&& chosen[i].report_id == report_id
        } by {
            if i < before.len() {
                assert(places[i] == before[i]);
                assert(rest[before[i]] == fields[before[i]]);
            }
        }
        assert forall|i: int, j: int|
            #![trigger places[i], places[j]]
            0 <= i < j < places.len() implies places[i] < places[j] by {
            assert(places[i] == before[i]);
            if j < before.len() {
                assert(places[j] == before[j]);
            }
        }
    }
}

/// A list holds fields of one role, at ascending places.
spec fn drawn_from(
    list: Seq<HidField>,
    places: Seq<int>,
    role: TouchUsage,
    fields: Seq<(TouchUsage, HidField)>,
    report_id: u8,
) -> bool {
    &&& places.len() == list.len()
    &&& forall|i: int|
        #![trigger places[i]]
        0 <= i < places.len() ==> {
            &&& 0 <= places[i] < fields.len()
            &&& fields[places[i]] == (role, list[i])
            &&& list[i].report_id == report_id
        }
    &&& forall|i: int, j: int|
        #![trigger places[i], places[j]]
        0 <= i < j < places.len() ==> places[i] < places[j]
}

spec fn role_of_list(index: int) -> TouchUsage {
    if index == 0 {
        TouchUsage::Tip
    } else if index == 1 {
        TouchUsage::ContactId
    } else if index == 2 {
        TouchUsage::X
    } else if index == 3 {
        TouchUsage::Y
    } else if index == 4 {
        TouchUsage::Pressure
    } else if index == 5 {
        TouchUsage::Major
    } else {
        TouchUsage::Count
    }
}

/// Every list of a layout is drawn from the fields of its report.
proof fn list_is_drawn(d: Seq<u8>, index: int) -> (places: Seq<int>)
    requires
        descriptor_layout(d) is Ok,
        0 <= index < 7,
    ensures
        ({
            let layout = descriptor_layout(d)->Ok_0;
            let fields = parse_items(d, 0, initial_parser())->Ok_0.fields;
            drawn_from(
                field_lists(layout)[index],
                places,
                role_of_list(index),
                fields,
                layout.report_id,
            )
        }),
{
    let layout = descriptor_layout(d)->Ok_0;
    let fields = parse_items(d, 0, initial_parser())->Ok_0.fields;
    let id = layout.report_id;
    first_index_is_first(fields, is_paired_x(fields), 0);
    if index < 6 {
        places_hold_the_fields(fields, role_of_list(index), id);
        places_of(fields, role_of_list(index), id)
    } else {
        first_index_is_first(fields, is_role(TouchUsage::Count, id), 0);
        match first_index(fields, is_role(TouchUsage::Count, id), 0) {
            Some(at) => seq![at],
            None => Seq::empty(),
        }
    }
}

/// The fields of each list of a parsed layout follow one another in the report,
/// and no two fields of the layout share a bit.
pub proof fn layout_fields_are_apart(d: Seq<u8>)
    ensures
        descriptor_layout(d) matches Ok(layout) ==> {
            let lists = field_lists(layout);
            &&& forall|a: int| #![trigger lists[a]] 0 <= a < lists.len() ==> ascend(lists[a])
            &&& forall|a: int, i: int, b: int, j: int|
                #![trigger lists[a][i], lists[b][j]]
                0 <= a < lists.len() && 0 <= i < lists[a].len() && 0 <= b < lists.len() && 0 <= j
                    < lists[b].len() && (a != b || i != j) ==> disjoint(lists[a][i], lists[b][j])
        },
{
    if let Ok(layout) = descriptor_layout(d) {
        let state = parse_items(d, 0, initial_parser())->Ok_0;
        let fields = state.fields;
        let lists = field_lists(layout);
        items_lay_fields_out(d, 0, initial_parser());
        assert forall|a: int| #![trigger lists[a]] 0 <= a < lists.len() implies ascend(
            lists[a],
        ) by {
            let places = list_is_drawn(d, a);
            let list = lists[a];
            assert forall|i: int, j: int|
                #![trigger list[i], list[j]]
                0 <= i < j < list.len() implies precedes(list[i], list[j]) by {
                assert(places[i] < places[j]);
                assert(precedes(fields[places[i]].1, fields[places[j]].1));
            }
        }
        assert forall|a: int, i: int, b: int, j: int|
            #![trigger lists[a][i], lists[b][j]]
            0 <= a < lists.len() && 0 <= i < lists[a].len() && 0 <= b < lists.len() && 0 <= j
                < lists[b].len() && (a != b || i != j) implies disjoint(
            lists[a][i],
            lists[b][j],
        ) by {
            let from = list_is_drawn(d, a);
            let to = list_is_drawn(d, b);
            let p = from[i];
            let q = to[j];
            if a == b {
                // Both are drawn at ascending places of one list.
                assert(ascend(lists[a]));
                if i < j {
                    assert(precedes(lists[a][i], lists[a][j]));
                } else {
                    assert(precedes(lists[a][j], lists[a][i]));
                }
            } else {
                assert(fields[p].0 != fields[q].0);
                if p < q {
                    assert(precedes(fields[p].1, fields[q].1));
                } else {
                    assert(precedes(fields[q].1, fields[p].1));
                }
            }
        }
    }
}

} // verus!
