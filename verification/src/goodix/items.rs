//! What the items of a report descriptor mean, and which fields of the report
//! they lead to.

use vstd::prelude::*;

use crate::bytes::{first_index, first_index_is_first, le32};
use crate::goodix::descriptor::{
    fields_of, is_role, layout_of, logical_maximum, parse_items, short_item, signed_item,
    touch_usage, HidGlobals, ParserView, ShortItem, TouchUsage,
};
use crate::goodix::hid::HidField;

verus! {

/// An item is its prefix (size in bits 0 and 1, type in bits 2 and 3, tag
/// above) and its bytes, the lowest first; a size of three means four bytes.
pub proof fn items_are_read_from_their_prefix(d: Seq<u8>, at: int, size: int, kind: int, tag: int)
    requires
        0 <= at,
        at + 5 <= d.len(),
        0 <= size < 4,
        0 <= kind < 4,
        0 <= tag < 16,
        d[at] == size + 4 * kind + 16 * tag,
    ensures
        short_item(d, at).item_type == kind,
        short_item(d, at).tag == tag,
        size < 3 ==> short_item(d, at).size == size,
        size == 3 ==> short_item(d, at).size == 4,
        size == 0 ==> short_item(d, at).value == 0,
        size == 1 ==> short_item(d, at).value == d[at + 1],
        size == 2 ==> short_item(d, at).value == d[at + 1] + 256 * d[at + 2],
        size == 3 ==> short_item(d, at).value == le32(d, at + 1),
{
}

/// Items are read one behind the other, and long ones are passed over.
pub proof fn items_are_read_in_turn(d: Seq<u8>, at: int, state: ParserView)
    requires
        0 <= at,
        at + 5 <= d.len(),
    ensures
        d[at] == 0xfe && at + 3 + d[at + 1] <= d.len() ==> parse_items(d, at, state) == parse_items(
            d,
            at + 3 + d[at + 1],
            state,
        ),
        d[at] != 0xfe ==> match state.item(short_item(d, at)) {
            Ok(next) => parse_items(d, at, state) == parse_items(
                d,
                at + 1 + short_item(d, at).size,
                next,
            ),
            Err(e) => parse_items(d, at, state) == Err::<ParserView, &'static str>(e),
        },
        parse_items(d, d.len() as int, state) == Ok::<ParserView, &'static str>(state),
{
}

/// A value is signed by the size of its item.
pub proof fn values_are_signed_by_their_size(value: u32)
    ensures
        value < 0x80 ==> signed_item(value, 1) == value,
        0x80 <= value < 0x100 ==> signed_item(value, 1) == value - 0x100,
        value < 0x8000 ==> signed_item(value, 2) == value,
        0x8000 <= value < 0x1_0000 ==> signed_item(value, 2) == value - 0x1_0000,
        value < 0x8000_0000 ==> signed_item(value, 4) == value,
        value >= 0x8000_0000 ==> signed_item(value, 4) == value - 0x1_0000_0000,
        signed_item(value, 0) == 0,
{
}

/// The maximum is signed if and only if the minimum is negative.
pub proof fn maxima_are_signed_with_a_negative_minimum(globals: HidGlobals)
    ensures
        globals.logical_minimum >= 0 && globals.logical_maximum_raw < 0x8000_0000
            ==> logical_maximum(globals) == Ok::<i32, &'static str>(
            globals.logical_maximum_raw as i32,
        ),
        globals.logical_minimum >= 0 && globals.logical_maximum_raw >= 0x8000_0000
            ==> logical_maximum(globals) is Err,
        globals.logical_minimum < 0 && globals.logical_maximum_size == 2
            && globals.logical_maximum_raw < 0x8000 ==> logical_maximum(globals) == Ok::<
            i32,
            &'static str,
        >(globals.logical_maximum_raw as i32),
{
}

/// The usages of a touchscreen, by page and number.
pub proof fn usages_have_their_roles(page: u32, usage: u32)
    ensures
        touch_usage(0x0d, 0x42) == Some(TouchUsage::Tip),
        touch_usage(0x0d, 0x51) == Some(TouchUsage::ContactId),
        touch_usage(0x01, 0x30) == Some(TouchUsage::X),
        touch_usage(0x01, 0x31) == Some(TouchUsage::Y),
        touch_usage(0x0d, 0x30) == Some(TouchUsage::Pressure),
        touch_usage(0x0d, 0x48) == Some(TouchUsage::Major),
        touch_usage(0x0d, 0x54) == Some(TouchUsage::Count),
        touch_usage(page, usage) is Some ==> page == 0x0d || page == 0x01,
{
}

/// Global items set one thing each, and leave the rest.
pub proof fn global_items_set_one_thing(state: ParserView, item: ShortItem)
    requires
        item.item_type == 1,
        state.offsets.len() == 256,
    ensures
        ({
            let next = state.item(item);
            let g = state.globals;
            &&& item.tag == 0 ==> next == Ok::<ParserView, &'static str>(
                ParserView { globals: HidGlobals { usage_page: item.value, ..g }, ..state },
            )
            &&& item.tag == 1 ==> next is Ok && next->Ok_0.globals == (HidGlobals {
                logical_minimum: signed_item(item.value, item.size as int) as i32,
                ..g
            })
            &&& item.tag == 2 ==> next is Ok && next->Ok_0.globals == (HidGlobals {
                logical_maximum_raw: item.value,
                logical_maximum_size: item.size,
                ..g
            })
            &&& item.tag == 7 ==> next is Ok && next->Ok_0.globals.report_size == item.value
                && next->Ok_0.globals.report_count == g.report_count
            &&& item.tag == 8 && item.value < 256 ==> next is Ok && next->Ok_0.globals.report_id
                == item.value && next->Ok_0.offsets[item.value as int] >= 8
            &&& item.tag == 9 ==> next is Ok && next->Ok_0.globals.report_count == item.value
                && next->Ok_0.globals.report_size == g.report_size
            &&& next matches Ok(after) ==> after.fields == state.fields && after.usages
                == state.usages && after.collections == state.collections
        }),
{
}

/// What is pushed comes back when it is popped.
pub proof fn pushed_globals_come_back(
    state: ParserView,
    other: HidGlobals,
    push: ShortItem,
    pop: ShortItem,
)
    requires
        push.item_type == 1,
        push.tag == 10,
        pop.item_type == 1,
        pop.tag == 11,
    ensures
        state.item(push) is Ok,
        ({
            let pushed = state.item(push)->Ok_0;
            let changed = ParserView { globals: other, ..pushed };
            changed.item(pop) == Ok::<ParserView, &'static str>(state)
        }),
        state.stack.len() == 0 ==> state.item(pop) is Err,
{
    let pushed = state.item(push)->Ok_0;
    assert(pushed.stack.drop_last() =~= state.stack);
}

/// Usages are taken in the order they come, and behind them from the declared
/// range.
pub proof fn usages_come_in_order(state: ParserView, index: int)
    requires
        0 <= index,
    ensures
        index < state.usages.len() ==> state.usage_at(index) == Some(state.usages[index]),
        index >= state.usages.len() && state.usage_minimum is Some && state.usage_maximum is Some
            && state.usage_minimum->0 + index <= state.usage_maximum->0 ==> state.usage_at(index)
            == Some((state.usage_minimum->0 + index) as u32),
        index >= state.usages.len() && (state.usage_minimum is None || state.usage_maximum is None)
            ==> state.usage_at(index) is None,
        state.local_item(0, 7).usages == state.usages.push(7),
        state.local_item(1, 7).usage_minimum == Some(7u32),
        state.local_item(2, 7).usage_maximum == Some(7u32),
{
}

/// A field that has a role lies at its own place in the report: behind what
/// the report holds already, and behind the fields of this item before it.
pub proof fn fields_lie_at_their_place(
    state: ParserView,
    base: int,
    maximum: i32,
    count: int,
    index: int,
)
    requires
        0 <= index < count,
        0 <= base,
        base + count * state.globals.report_size <= usize::MAX,
        state.role_at(index) is Some,
    ensures
        exists|k: int|
            #![trigger state.touch_fields(base, maximum, count)[k]]
            {
                let fields = state.touch_fields(base, maximum, count);
                &&& 0 <= k < fields.len()
                &&& fields[k].0 == state.role_at(index)->0
                &&& fields[k].1.bit_offset == base + index * state.globals.report_size
                &&& fields[k].1.bit_size == state.globals.report_size
                &&& fields[k].1.report_id == state.globals.report_id
                &&& fields[k].1.logical_minimum == state.globals.logical_minimum
                &&& fields[k].1.logical_maximum == maximum
            },
    decreases count,
{
    let size = state.globals.report_size as int;
    let before = state.touch_fields(base, maximum, count - 1);
    let fields = state.touch_fields(base, maximum, count);
    assert(index * size <= count * size && 0 <= index * size && (count - 1) * size <= count * size)
        by (nonlinear_arith)
        requires
            0 <= index < count,
            0 <= size,
    ;
    if index < count - 1 {
        fields_lie_at_their_place(state, base, maximum, count - 1, index);
        let k = choose|k: int|
            #![trigger before[k]]
            {
                &&& 0 <= k < before.len()
                &&& before[k].0 == state.role_at(index)->0
                &&& before[k].1.bit_offset == base + index * size
                &&& before[k].1.bit_size == state.globals.report_size
                &&& before[k].1.report_id == state.globals.report_id
                &&& before[k].1.logical_minimum == state.globals.logical_minimum
                &&& before[k].1.logical_maximum == maximum
            };
        assert(fields[k] == before[k]);
    } else {
        assert(fields[before.len() as int].0 == state.role_at(index)->0);
    }
}

/// An input item makes its report longer by what it holds, also where none of
/// it is of interest; only variable data inside a touchscreen is.
pub proof fn input_items_make_the_report_longer(state: ParserView, flags: u32)
    requires
        state.offsets.len() == 256,
        state.input(flags) is Ok,
    ensures
        ({
            let next = state.input(flags)->Ok_0;
            let id = state.globals.report_id as int;
            &&& next.offsets[id] == state.offsets[id] + state.globals.report_size
                * state.globals.report_count
            &&& next.offsets[id] <= 4096
            &&& forall|other: int|
                0 <= other < 256 && other != id ==> #[trigger] next.offsets[other]
                    == state.offsets[other]
            &&& flags % 2 == 1 || flags as int / 2 % 2 == 0 || state.collections.len() == 0
                || !state.collections.last() ==> next.fields == state.fields
            &&& next.usages.len() == 0
            &&& next.collections == state.collections
        }),
{
}

/// A collection belongs to a touchscreen if its usage says so, or if it lies
/// in one that does; closing it leads back.
pub proof fn collections_are_nested(state: ParserView, value: u32)
    ensures
        ({
            let opened = state.main_item(10, value);
            &&& opened is Ok
            &&& state.globals.usage_page == 0x0d && state.usages.len() > 0 && state.usages[0] == 4
                ==> opened->Ok_0.collections == state.collections.push(true)
            &&& state.collections.len() > 0 && state.collections.last()
                ==> opened->Ok_0.collections == state.collections.push(true)
            &&& opened->Ok_0.main_item(12, value) is Ok
            &&& opened->Ok_0.main_item(12, value)->Ok_0.collections == state.collections
        }),
        state.collections.len() == 0 ==> state.main_item(12, value) is Err,
{
    let opened = state.main_item(10, value)->Ok_0;
    assert(opened.collections.drop_last() =~= state.collections);
}

/// The fields of a role are those of one report, in order.
pub proof fn roles_keep_their_fields(
    fields: Seq<(TouchUsage, HidField)>,
    next: (TouchUsage, HidField),
    role: TouchUsage,
    report_id: u8,
)
    ensures
        next.0 == role && next.1.report_id == report_id ==> fields_of(
            fields.push(next),
            role,
            report_id,
        ) == fields_of(fields, role, report_id).push(next.1),
        next.0 != role || next.1.report_id != report_id ==> fields_of(
            fields.push(next),
            role,
            report_id,
        ) == fields_of(fields, role, report_id),
        fields_of(Seq::empty(), role, report_id).len() == 0,
{
    assert(fields.push(next).drop_last() =~= fields);
}

/// The layout is that of one report: each list holds the fields of its role.
pub proof fn layouts_hold_their_roles(fields: Seq<(TouchUsage, HidField)>)
    requires
        layout_of(fields) is Ok,
    ensures
        ({
            let layout = layout_of(fields)->Ok_0;
            let id = layout.report_id;
            &&& layout.x == fields_of(fields, TouchUsage::X, id)
            &&& layout.y == fields_of(fields, TouchUsage::Y, id)
            &&& layout.tips == fields_of(fields, TouchUsage::Tip, id)
            &&& layout.contact_ids == fields_of(fields, TouchUsage::ContactId, id)
            &&& layout.pressure == fields_of(fields, TouchUsage::Pressure, id)
            &&& layout.touch_major == fields_of(fields, TouchUsage::Major, id)
            &&& layout.tips.len() > 0
            &&& layout.contact_count matches Some(field) ==> (exists|i: int|
                0 <= i < fields.len() && #[trigger] fields[i] == (TouchUsage::Count, field)
                    && field.report_id == id)
            &&& layout.contact_count is None ==> (forall|i: int|
                0 <= i < fields.len() ==> (#[trigger] fields[i]).0 != TouchUsage::Count
                    || fields[i].1.report_id != id)
        }),
{
    let id = layout_of(fields)->Ok_0.report_id;
    let counts = is_role(TouchUsage::Count, id);
    first_index_is_first(fields, counts, 0);
    match first_index(fields, counts, 0) {
        Some(i) => {
            assert(counts(fields[i]));
            assert(fields[i] == (TouchUsage::Count, fields[i].1));
        },
        None => {
            assert forall|i: int| 0 <= i < fields.len() implies (#[trigger] fields[i]).0
                != TouchUsage::Count || fields[i].1.report_id != id by {
                assert(!counts(fields[i]));
            }
        },
    }
}

/// Main, global and local items are types 0, 1 and 2; others change nothing.
pub proof fn items_act_by_their_type(state: ParserView, item: ShortItem)
    ensures
        item.item_type == 0 && item.tag == 10 ==> state.item(item) == state.main_item(
            10,
            item.value,
        ),
        item.item_type == 0 && item.tag == 8 ==> state.item(item) == state.input(item.value),
        item.item_type == 1 && item.tag == 0 ==> state.item(item) is Ok && state.item(
            item,
        )->Ok_0.globals.usage_page == item.value,
        item.item_type == 2 && item.tag == 0 ==> state.item(item) is Ok && state.item(
            item,
        )->Ok_0.usages == state.usages.push(item.value),
        item.item_type == 2 && item.tag == 1 ==> state.item(item) is Ok && state.item(
            item,
        )->Ok_0.usage_minimum == Some(item.value),
        item.item_type == 2 && item.tag == 2 ==> state.item(item) is Ok && state.item(
            item,
        )->Ok_0.usage_maximum == Some(item.value),
        item.item_type == 2 ==> state.item(item) is Ok && state.item(item)->Ok_0.globals
            == state.globals && state.item(item)->Ok_0.offsets == state.offsets,
        item.item_type > 2 ==> state.item(item) == Ok::<ParserView, &'static str>(state),
{
}

/// A main item ends what the local items before it said.
pub proof fn main_items_end_the_local_ones(state: ParserView, tag: u8, value: u32)
    ensures
        state.main_item(tag, value) matches Ok(next) ==> {
            &&& next.usages.len() == 0
            &&& next.usage_minimum is None
            &&& next.usage_maximum is None
            &&& next.globals == state.globals
            &&& next.stack == state.stack
        },
        tag != 8 && tag != 10 && tag != 12 ==> state.main_item(tag, value) is Ok
            && state.main_item(tag, value)->Ok_0.collections == state.collections
            && state.main_item(tag, value)->Ok_0.fields == state.fields,
{
}

} // verus!
