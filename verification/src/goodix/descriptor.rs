//! HID report descriptors: from item bytes to the touch fields of one report.

use vstd::prelude::*;

use crate::bytes::{first_index, first_index_is_first, le16, le32, twos_complement};
use crate::goodix::hid::{HidField, HidTouchLayout, LayoutView};

verus! {

pub const MAX_REPORT_FIELD_BITS: usize = 32;

pub const MAX_INPUT_REPORT_BITS: usize = 4096;

pub const MAX_INPUT_REPORT_FIELDS: usize = 4096;

/// The global items in force.
#[derive(Clone, Copy, Debug, Eq, PartialEq, Structural)]
pub struct HidGlobals {
    pub usage_page: u32,
    pub logical_minimum: i32,
    pub logical_maximum_raw: u32,
    pub logical_maximum_size: usize,
    pub report_size: usize,
    pub report_count: usize,
    pub report_id: u8,
}

/// One short item of a descriptor.
#[derive(Clone, Copy, Debug, Eq, PartialEq, Structural)]
pub struct ShortItem {
    pub item_type: u8,
    pub tag: u8,
    pub size: usize,
    pub value: u32,
}

/// The touch usages that have a place in a layout.
#[derive(Clone, Copy, Debug, Eq, PartialEq, Structural)]
pub enum TouchUsage {
    Tip,
    ContactId,
    X,
    Y,
    Pressure,
    Major,
    Count,
}

/// Everything that the items read so far have established.
#[verifier::ext_equal]
pub struct ParserView {
    pub globals: HidGlobals,
    pub stack: Seq<HidGlobals>,
    pub usages: Seq<u32>,
    pub usage_minimum: Option<u32>,
    pub usage_maximum: Option<u32>,
    pub offsets: Seq<usize>,
    pub fields: Seq<(TouchUsage, HidField)>,
    pub collections: Seq<bool>,
}

pub open spec fn no_globals() -> HidGlobals {
    HidGlobals {
        usage_page: 0,
        logical_minimum: 0,
        logical_maximum_raw: 0,
        logical_maximum_size: 0,
        report_size: 0,
        report_count: 0,
        report_id: 0,
    }
}

pub open spec fn initial_parser() -> ParserView {
    ParserView {
        globals: no_globals(),
        stack: Seq::empty(),
        usages: Seq::empty(),
        usage_minimum: None,
        usage_maximum: None,
        offsets: Seq::new(256, |i: int| 0usize),
        fields: Seq::empty(),
        collections: Seq::empty(),
    }
}

/// The signed value of an item of `size` bytes.
pub open spec fn signed_item(value: u32, size: int) -> int {
    if size == 1 {
        twos_complement(value as int % 0x100, 0x100)
    } else if size == 2 {
        twos_complement(value as int % 0x1_0000, 0x1_0000)
    } else if size == 4 {
        twos_complement(value as int, 0x1_0000_0000)
    } else {
        0
    }
}

/// The logical maximum: signed like the minimum, and unsigned otherwise.
pub open spec fn logical_maximum(globals: HidGlobals) -> Result<i32, &'static str> {
    if globals.logical_minimum < 0 {
        Ok(signed_item(globals.logical_maximum_raw, globals.logical_maximum_size as int) as i32)
    } else if globals.logical_maximum_raw <= i32::MAX {
        Ok(globals.logical_maximum_raw as i32)
    } else {
        Err("goodix: HID logical maximum exceeds i32")
    }
}

/// The place of a usage in a touch layout.
pub open spec fn touch_usage(page: u32, usage: u32) -> Option<TouchUsage> {
    if page == 0x0d && usage == 0x42 {
        Some(TouchUsage::Tip)
    } else if page == 0x0d && usage == 0x51 {
        Some(TouchUsage::ContactId)
    } else if page == 0x01 && usage == 0x30 {
        Some(TouchUsage::X)
    } else if page == 0x01 && usage == 0x31 {
        Some(TouchUsage::Y)
    } else if page == 0x0d && usage == 0x30 {
        Some(TouchUsage::Pressure)
    } else if page == 0x0d && usage == 0x48 {
        Some(TouchUsage::Major)
    } else if page == 0x0d && usage == 0x54 {
        Some(TouchUsage::Count)
    } else {
        None
    }
}

impl ParserView {
    /// The state after a main item: local items are forgotten.
    pub open spec fn without_locals(self) -> ParserView {
        ParserView {
            usages: Seq::empty(),
            usage_minimum: None,
            usage_maximum: None,
            ..self
        }
    }

    /// Whether the innermost open collection belongs to a touchscreen.
    pub open spec fn in_touch_collection(self) -> bool {
        self.collections.len() > 0 && self.collections.last()
    }

    /// The usage of the field at `index` of the next main item: an explicit
    /// usage, or one of the usage range.
    pub open spec fn usage_at(self, index: int) -> Option<u32> {
        if index < self.usages.len() {
            Some(self.usages[index])
        } else {
            match (self.usage_minimum, self.usage_maximum) {
                (Some(minimum), Some(maximum)) => if minimum + index <= maximum {
                    Some((minimum + index) as u32)
                } else {
                    None
                },
                _ => None,
            }
        }
    }

    /// The place of the field at `index` in a touch layout.
    pub open spec fn role_at(self, index: int) -> Option<TouchUsage> {
        match self.usage_at(index) {
            Some(usage) => touch_usage(self.globals.usage_page, usage),
            None => None,
        }
    }

    /// The touch fields among the first `count` fields of an input item whose
    /// fields start at bit `base`.
    pub open spec fn touch_fields(self, base: int, maximum: i32, count: int) -> Seq<
        (TouchUsage, HidField),
    >
        decreases count,
    {
        if count <= 0 {
            Seq::empty()
        } else {
            let before = self.touch_fields(base, maximum, count - 1);
            match self.role_at(count - 1) {
                Some(role) => before.push(
                    (
                        role,
                        HidField {
                            report_id: self.globals.report_id,
                            bit_offset: (base + (count - 1) * self.globals.report_size) as usize,
                            bit_size: self.globals.report_size,
                            logical_minimum: self.globals.logical_minimum,
                            logical_maximum: maximum,
                        },
                    ),
                ),
                None => before,
            }
        }
    }

    /// Whether any of the first `count` fields is a touch field.
    pub open spec fn has_touch_field(self, count: int) -> bool {
        exists|index: int| 0 <= index < count && #[trigger] self.role_at(index) is Some
    }

    /// An Input item: its fields extend the report, and those of a touch
    /// collection that hold variable data are kept.
    pub open spec fn input(self, flags: u32) -> Result<ParserView, &'static str> {
        let count = self.globals.report_count as int;
        let size = self.globals.report_size as int;
        let base = self.offsets[self.globals.report_id as int] as int;
        let variable = self.in_touch_collection() && flags % 4 == 2;
        if count > MAX_INPUT_REPORT_FIELDS {
            Err("goodix: HID input field count exceeds limit")
        } else if base + size * count > MAX_INPUT_REPORT_BITS {
            Err("goodix: HID input report exceeds limit")
        } else {
            let extended = ParserView {
                offsets: self.offsets.update(
                    self.globals.report_id as int,
                    (base + size * count) as usize,
                ),
                ..self.without_locals()
            };
            if variable && self.has_touch_field(count) {
                if !(1 <= size <= MAX_REPORT_FIELD_BITS) {
                    Err("goodix: HID touch field size exceeds limit")
                } else {
                    match logical_maximum(self.globals) {
                        Err(e) => Err(e),
                        Ok(maximum) => Ok(
                            ParserView {
                                fields: self.fields + self.touch_fields(base, maximum, count),
                                ..extended
                            },
                        ),
                    }
                }
            } else {
                Ok(extended)
            }
        }
    }

    pub open spec fn main_item(self, tag: u8, value: u32) -> Result<ParserView, &'static str> {
        if tag == 10 {
            let touch = self.in_touch_collection() || (self.globals.usage_page == 0x0d
                && self.usages.len() > 0 && self.usages[0] == 0x04);
            Ok(ParserView { collections: self.collections.push(touch), ..self.without_locals() })
        } else if tag == 12 {
            if self.collections.len() == 0 {
                Err("goodix: unbalanced HID collection")
            } else {
                Ok(
                    ParserView {
                        collections: self.collections.drop_last(),
                        ..self.without_locals()
                    },
                )
            }
        } else if tag == 8 {
            self.input(value)
        } else {
            Ok(self.without_locals())
        }
    }

    pub open spec fn global_item(self, item: ShortItem) -> Result<ParserView, &'static str> {
        let g = self.globals;
        let value = item.value;
        if item.tag == 0 {
            Ok(ParserView { globals: HidGlobals { usage_page: value, ..g }, ..self })
        } else if item.tag == 1 {
            Ok(
                ParserView {
                    globals: HidGlobals {
                        logical_minimum: signed_item(value, item.size as int) as i32,
                        ..g
                    },
                    ..self
                },
            )
        } else if item.tag == 2 {
            Ok(
                ParserView {
                    globals: HidGlobals {
                        logical_maximum_raw: value,
                        logical_maximum_size: item.size,
                        ..g
                    },
                    ..self
                },
            )
        } else if item.tag == 7 {
            Ok(ParserView { globals: HidGlobals { report_size: value as usize, ..g }, ..self })
        } else if item.tag == 8 && value <= 0xff {
            let offset = self.offsets[value as int];
            Ok(
                ParserView {
                    globals: HidGlobals { report_id: value as u8, ..g },
                    offsets: self.offsets.update(
                        value as int,
                        if offset < 8 {
                            8usize
                        } else {
                            offset
                        },
                    ),
                    ..self
                },
            )
        } else if item.tag == 9 {
            Ok(ParserView { globals: HidGlobals { report_count: value as usize, ..g }, ..self })
        } else if item.tag == 10 {
            Ok(ParserView { stack: self.stack.push(g), ..self })
        } else if item.tag == 11 {
            if self.stack.len() == 0 {
                Err("goodix: unbalanced HID global pop")
            } else {
                Ok(
                    ParserView {
                        globals: self.stack.last(),
                        stack: self.stack.drop_last(),
                        ..self
                    },
                )
            }
        } else {
            Ok(self)
        }
    }

    pub open spec fn local_item(self, tag: u8, value: u32) -> ParserView {
        if tag == 0 {
            ParserView { usages: self.usages.push(value), ..self }
        } else if tag == 1 {
            ParserView { usage_minimum: Some(value), ..self }
        } else if tag == 2 {
            ParserView { usage_maximum: Some(value), ..self }
        } else {
            self
        }
    }

    /// What one short item does.
    pub open spec fn item(self, item: ShortItem) -> Result<ParserView, &'static str> {
        if item.item_type == 0 {
            self.main_item(item.tag, item.value)
        } else if item.item_type == 1 {
            self.global_item(item)
        } else if item.item_type == 2 {
            Ok(self.local_item(item.tag, item.value))
        } else {
            Ok(self)
        }
    }
}

/// How many data bytes follow a short-item prefix.
pub open spec fn item_size(prefix: u8) -> int {
    if prefix % 4 == 3 {
        4
    } else {
        (prefix % 4) as int
    }
}

/// The short item whose prefix is at `cursor`.
pub open spec fn short_item(d: Seq<u8>, cursor: int) -> ShortItem {
    let size = item_size(d[cursor]);
    ShortItem {
        item_type: d[cursor] / 4 % 4,
        tag: d[cursor] / 16,
        size: size as usize,
        value: if size == 0 {
            0
        } else if size == 1 {
            d[cursor + 1] as u32
        } else if size == 2 {
            le16(d, cursor + 1) as u32
        } else {
            le32(d, cursor + 1) as u32
        },
    }
}

/// The state after all items from `cursor` on, or the first error.
pub open spec fn parse_items(d: Seq<u8>, cursor: int, state: ParserView) -> Result<
    ParserView,
    &'static str,
>
    decreases d.len() - cursor,
{
    if cursor >= d.len() {
        Ok(state)
    } else if d[cursor] == 0xfe {
        if cursor + 1 >= d.len() {
            Err("goodix: truncated HID long item")
        } else if cursor + 3 + d[cursor + 1] > d.len() {
            Err("goodix: malformed HID long item")
        } else {
            parse_items(d, cursor + 3 + d[cursor + 1], state)
        }
    } else if cursor + 1 + item_size(d[cursor]) > d.len() {
        Err("goodix: truncated HID item")
    } else {
        match state.item(short_item(d, cursor)) {
            Ok(next) => parse_items(d, cursor + 1 + item_size(d[cursor]), next),
            Err(e) => Err(e),
        }
    }
}

/// The fields of one role in one report, in descriptor order.
pub open spec fn fields_of(
    fields: Seq<(TouchUsage, HidField)>,
    role: TouchUsage,
    report_id: u8,
) -> Seq<HidField>
    decreases fields.len(),
{
    if fields.len() == 0 {
        Seq::empty()
    } else {
        let before = fields_of(fields.drop_last(), role, report_id);
        if fields.last().0 == role && fields.last().1.report_id == report_id {
            before.push(fields.last().1)
        } else {
            before
        }
    }
}

pub open spec fn is_role(role: TouchUsage, report_id: u8) -> spec_fn((TouchUsage, HidField)) -> bool {
    |f: (TouchUsage, HidField)| f.0 == role && f.1.report_id == report_id
}

/// An X field in whose report some Y field lies.
pub open spec fn is_paired_x(fields: Seq<(TouchUsage, HidField)>) -> spec_fn(
    (TouchUsage, HidField),
) -> bool {
    |f: (TouchUsage, HidField)|
        f.0 == TouchUsage::X && first_index(fields, is_role(TouchUsage::Y, f.1.report_id), 0) is Some
}

/// The layout that the kept fields give: the report is that of the first X
/// field that has a Y field beside it.
pub open spec fn layout_of(fields: Seq<(TouchUsage, HidField)>) -> Result<
    LayoutView,
    &'static str,
> {
    match first_index(fields, is_paired_x(fields), 0) {
        None => Err("goodix: HID descriptor has no touchscreen X/Y report"),
        Some(first) => {
            let id = fields[first].1.report_id;
            if fields_of(fields, TouchUsage::Tip, id).len() == 0 {
                Err("goodix: incomplete HID touchscreen report")
            } else {
                Ok(
                    LayoutView {
                        report_id: id,
                        tips: fields_of(fields, TouchUsage::Tip, id),
                        contact_ids: fields_of(fields, TouchUsage::ContactId, id),
                        x: fields_of(fields, TouchUsage::X, id),
                        y: fields_of(fields, TouchUsage::Y, id),
                        pressure: fields_of(fields, TouchUsage::Pressure, id),
                        touch_major: fields_of(fields, TouchUsage::Major, id),
                        contact_count: match first_index(
                            fields,
                            is_role(TouchUsage::Count, id),
                            0,
                        ) {
                            Some(i) => Some(fields[i].1),
                            None => None,
                        },
                    },
                )
            }
        },
    }
}

/// The touch layout of a report descriptor.
pub open spec fn descriptor_layout(d: Seq<u8>) -> Result<LayoutView, &'static str> {
    match parse_items(d, 0, initial_parser()) {
        Ok(state) => layout_of(state.fields),
        Err(e) => Err(e),
    }
}

/// The executable state behind [`ParserView`].
struct Parser {
    globals: HidGlobals,
    stack: Vec<HidGlobals>,
    usages: Vec<u32>,
    usage_minimum: Option<u32>,
    usage_maximum: Option<u32>,
    offsets: Vec<usize>,
    fields: Vec<(TouchUsage, HidField)>,
    collections: Vec<bool>,
}

impl View for Parser {
    type V = ParserView;

    closed spec fn view(&self) -> ParserView {
        ParserView {
            globals: self.globals,
            stack: self.stack@,
            usages: self.usages@,
            usage_minimum: self.usage_minimum,
            usage_maximum: self.usage_maximum,
            offsets: self.offsets@,
            fields: self.fields@,
            collections: self.collections@,
        }
    }
}

pub fn sign_extend_item(value: u32, size: usize) -> (r: i32)
    requires
        size == 0 || size == 1 || size == 2 || size == 4,
    ensures
        r == signed_item(value, size as int),
{
    if size == 0 {
        0
    } else if size == 1 {
        let low: i32 = (value % 0x100) as i32;
        if low < 0x80 {
            low
        } else {
            low - 0x100
        }
    } else if size == 2 {
        let low: i32 = (value % 0x1_0000) as i32;
        if low < 0x8000 {
            low
        } else {
            low - 0x1_0000
        }
    } else if value < 0x8000_0000 {
        value as i32
    } else {
        (value as i64 - 0x1_0000_0000) as i32
    }
}

/// The little-endian value of up to four data bytes.
pub fn little_endian_item(data: &[u8]) -> (r: u32)
    requires
        data@.len() <= 4,
    ensures
        r == (if data@.len() == 0 {
            0
        } else if data@.len() == 1 {
            data@[0] as int
        } else if data@.len() == 2 {
            le16(data@, 0)
        } else if data@.len() == 3 {
            le16(data@, 0) + data@[2] * 0x1_0000
        } else {
            le32(data@, 0)
        }),
{
    if data.len() == 0 {
        0
    } else if data.len() == 1 {
        data[0] as u32
    } else if data.len() == 2 {
        data[0] as u32 + data[1] as u32 * 0x100
    } else if data.len() == 3 {
        data[0] as u32 + data[1] as u32 * 0x100 + data[2] as u32 * 0x1_0000
    } else {
        data[0] as u32 + data[1] as u32 * 0x100 + data[2] as u32 * 0x1_0000 + data[3] as u32
            * 0x100_0000
    }
}

fn recognize(page: u32, usage: u32) -> (r: Option<TouchUsage>)
    ensures
        r == touch_usage(page, usage),
{
    if page == 0x0d {
        if usage == 0x42 {
            Some(TouchUsage::Tip)
        } else if usage == 0x51 {
            Some(TouchUsage::ContactId)
        } else if usage == 0x30 {
            Some(TouchUsage::Pressure)
        } else if usage == 0x48 {
            Some(TouchUsage::Major)
        } else if usage == 0x54 {
            Some(TouchUsage::Count)
        } else {
            None
        }
    } else if page == 0x01 {
        if usage == 0x30 {
            Some(TouchUsage::X)
        } else if usage == 0x31 {
            Some(TouchUsage::Y)
        } else {
            None
        }
    } else {
        None
    }
}

impl HidGlobals {
    pub fn logical_maximum(self) -> (r: Result<i32, &'static str>)
        requires
            self.logical_minimum < 0 ==> self.logical_maximum_size == 0
                || self.logical_maximum_size == 1 || self.logical_maximum_size == 2
                || self.logical_maximum_size == 4,
        ensures
            r == logical_maximum(self),
    {
        if self.logical_minimum < 0 {
            Ok(sign_extend_item(self.logical_maximum_raw, self.logical_maximum_size))
        } else if self.logical_maximum_raw <= 0x7fff_ffff {
            Ok(self.logical_maximum_raw as i32)
        } else {
            Err("goodix: HID logical maximum exceeds i32")
        }
    }
}

/// A size that a short item can have.
spec fn item_size_ok(globals: HidGlobals) -> bool {
    globals.logical_maximum_size == 0 || globals.logical_maximum_size == 1
        || globals.logical_maximum_size == 2 || globals.logical_maximum_size == 4
}

spec fn parser_ok(p: ParserView) -> bool {
    &&& p.offsets.len() == 256
    &&& item_size_ok(p.globals)
    &&& forall|i: int| 0 <= i < p.stack.len() ==> item_size_ok(#[trigger] p.stack[i])
}

spec fn step_matches(r: Result<(), &'static str>, after: ParserView, expected: Result<
    ParserView,
    &'static str,
>) -> bool {
    match (r, expected) {
        (Ok(()), Ok(next)) => after == next && parser_ok(after),
        (Err(e), Err(f)) => e == f,
        _ => false,
    }
}

impl Parser {
    fn new() -> (r: Parser)
        ensures
            r@ == initial_parser(),
            parser_ok(r@),
    {
        let offsets: Vec<usize> = vec![0usize; 256];
        assert(offsets@ =~= initial_parser().offsets);
        Parser {
            globals: HidGlobals {
                usage_page: 0,
                logical_minimum: 0,
                logical_maximum_raw: 0,
                logical_maximum_size: 0,
                report_size: 0,
                report_count: 0,
                report_id: 0,
            },
            stack: Vec::new(),
            usages: Vec::new(),
            usage_minimum: None,
            usage_maximum: None,
            offsets,
            fields: Vec::new(),
            collections: Vec::new(),
        }
    }

    fn clear_locals(&mut self)
        ensures
            final(self)@ == old(self)@.without_locals(),
    {
        self.usages.clear();
        self.usage_minimum = None;
        self.usage_maximum = None;
    }

    fn in_touch_collection(&self) -> (r: bool)
        ensures
            r == self@.in_touch_collection(),
    {
        self.collections.len() > 0 && self.collections[self.collections.len() - 1]
    }

    fn role_at(&self, index: usize) -> (r: Option<TouchUsage>)
        requires
            index <= 4096,
        ensures
            r == self@.role_at(index as int),
    {
        if index < self.usages.len() {
            recognize(self.globals.usage_page, self.usages[index])
        } else {
            match (self.usage_minimum, self.usage_maximum) {
                (Some(minimum), Some(maximum)) => {
                    match minimum.checked_add(index as u32) {
                        Some(usage) => {
                            if usage <= maximum {
                                recognize(self.globals.usage_page, usage)
                            } else {
                                None
                            }
                        },
                        None => None,
                    }
                },
                _ => None,
            }
        }
    }

    fn input(&mut self, flags: u32) -> (r: Result<(), &'static str>)
        requires
            parser_ok(old(self)@),
        ensures
            step_matches(r, final(self)@, old(self)@.input(flags)),
    {
        let ghost start = self@;
        let report_id: u8 = self.globals.report_id;
        let count: usize = self.globals.report_count;
        let size: usize = self.globals.report_size;
        let base: usize = self.offsets[report_id as usize];
        if count > MAX_INPUT_REPORT_FIELDS {
            return Err("goodix: HID input field count exceeds limit");
        }
        proof {
            assert(0 <= size * count) by (nonlinear_arith)
                requires
                    0 <= size,
                    0 <= count,
            ;
        }
        let end: usize = match size.checked_mul(count) {
            Some(bits) => match base.checked_add(bits) {
                Some(end) => {
                    if end > MAX_INPUT_REPORT_BITS {
                        return Err("goodix: HID input report exceeds limit");
                    }
                    end
                },
                None => {
                    return Err("goodix: HID input report exceeds limit");
                },
            },
            None => {
                return Err("goodix: HID input report exceeds limit");
            },
        };
        let variable: bool = self.in_touch_collection() && flags % 4 == 2;
        let mut offset: usize = base;
        let mut index: usize = 0;
        let ghost mut maximum: i32 = 0;
        while index < count
            invariant
                index <= count <= MAX_INPUT_REPORT_FIELDS,
                start == old(self)@,
                parser_ok(start),
                report_id == start.globals.report_id,
                count == start.globals.report_count,
                size == start.globals.report_size,
                base == start.offsets[report_id as int],
                end == base + size * count,
                end <= MAX_INPUT_REPORT_BITS,
                variable == (start.in_touch_collection() && flags % 4 == 2),
                offset == base + index * size,
                variable && start.has_touch_field(index as int) ==> {
                    &&& 1 <= size <= MAX_REPORT_FIELD_BITS
                    &&& logical_maximum(start.globals) == Ok::<i32, &'static str>(maximum)
                },
                self@ == (ParserView {
                    fields: if variable {
                        start.fields + start.touch_fields(base as int, maximum, index as int)
                    } else {
                        start.fields
                    },
                    ..start
                }),
            decreases count - index,
        {
            let role = self.role_at(index);
            assert(role == start.role_at(index as int));
            proof {
                assert((index + 1) * size == index * size + size) by (nonlinear_arith);
                assert((index + 1) * size <= size * count) by (nonlinear_arith)
                    requires
                        index + 1 <= count,
                        0 <= size,
                ;
            }
            if variable {
                match role {
                    Some(role) => {
                        assert(start.has_touch_field(count as int)) by {
                            assert(start.role_at(index as int) is Some);
                        }
                        if size < 1 || size > MAX_REPORT_FIELD_BITS {
                            return Err("goodix: HID touch field size exceeds limit");
                        }
                        let logical_maximum: i32 = match self.globals.logical_maximum() {
                            Ok(value) => value,
                            Err(e) => {
                                return Err(e);
                            },
                        };
                        proof {
                            if !start.has_touch_field(index as int) {
                                no_touch_field_no_fields(start, base as int, maximum, index as int);
                                no_touch_field_no_fields(
                                    start,
                                    base as int,
                                    logical_maximum,
                                    index as int,
                                );
                            }
                            maximum = logical_maximum;
                        }
                        self.fields.push(
                            (
                                role,
                                HidField {
                                    report_id,
                                    bit_offset: offset,
                                    bit_size: size,
                                    logical_minimum: self.globals.logical_minimum,
                                    logical_maximum,
                                },
                            ),
                        );
                    },
                    None => {},
                }
            }
            proof {
                if start.has_touch_field(index + 1) && !start.has_touch_field(index as int) {
                    let witness = choose|i: int|
                        0 <= i < index + 1 && #[trigger] start.role_at(i) is Some;
                    assert(witness == index);
                }
            }
            offset = offset + size;
            index = index + 1;
        }
        proof {
            if variable && !start.has_touch_field(count as int) {
                no_touch_field_no_fields(start, base as int, maximum, count as int);
                assert(start.fields + Seq::<(TouchUsage, HidField)>::empty() =~= start.fields);
            }
        }
        self.offsets.set(report_id as usize, end);
        self.clear_locals();
        Ok(())
    }
}

proof fn no_touch_field_no_fields(p: ParserView, base: int, maximum: i32, count: int)
    requires
        !p.has_touch_field(count),
    ensures
        p.touch_fields(base, maximum, count) == Seq::<(TouchUsage, HidField)>::empty(),
    decreases count,
{
    if count > 0 {
        assert(p.role_at(count - 1) is None);
        assert(!p.has_touch_field(count - 1));
        no_touch_field_no_fields(p, base, maximum, count - 1);
    }
}

impl Parser {
    fn main_item(&mut self, tag: u8, value: u32) -> (r: Result<(), &'static str>)
        requires
            parser_ok(old(self)@),
        ensures
            step_matches(r, final(self)@, old(self)@.main_item(tag, value)),
    {
        if tag == 10 {
            let touch: bool = self.in_touch_collection() || (self.globals.usage_page == 0x0d
                && self.usages.len() > 0 && self.usages[0] == 0x04);
            self.collections.push(touch);
            self.clear_locals();
            Ok(())
        } else if tag == 12 {
            match self.collections.pop() {
                Some(_) => {
                    self.clear_locals();
                    Ok(())
                },
                None => Err("goodix: unbalanced HID collection"),
            }
        } else if tag == 8 {
            self.input(value)
        } else {
            self.clear_locals();
            Ok(())
        }
    }

    fn global_item(&mut self, item: ShortItem) -> (r: Result<(), &'static str>)
        requires
            parser_ok(old(self)@),
            item.size == 0 || item.size == 1 || item.size == 2 || item.size == 4,
        ensures
            step_matches(r, final(self)@, old(self)@.global_item(item)),
    {
        if item.tag == 0 {
            self.globals.usage_page = item.value;
        } else if item.tag == 1 {
            self.globals.logical_minimum = sign_extend_item(item.value, item.size);
        } else if item.tag == 2 {
            self.globals.logical_maximum_raw = item.value;
            self.globals.logical_maximum_size = item.size;
        } else if item.tag == 7 {
            self.globals.report_size = item.value as usize;
        } else if item.tag == 8 && item.value <= 0xff {
            self.globals.report_id = item.value as u8;
            let offset: usize = self.offsets[item.value as usize];
            self.offsets.set(
                item.value as usize,
                if offset < 8 {
                    8
                } else {
                    offset
                },
            );
        } else if item.tag == 9 {
            self.globals.report_count = item.value as usize;
        } else if item.tag == 10 {
            self.stack.push(self.globals);
        } else if item.tag == 11 {
            match self.stack.pop() {
                Some(globals) => {
                    self.globals = globals;
                },
                None => {
                    return Err("goodix: unbalanced HID global pop");
                },
            }
        }
        Ok(())
    }

    fn item(&mut self, item: ShortItem) -> (r: Result<(), &'static str>)
        requires
            parser_ok(old(self)@),
            item.size == 0 || item.size == 1 || item.size == 2 || item.size == 4,
        ensures
            step_matches(r, final(self)@, old(self)@.item(item)),
    {
        if item.item_type == 0 {
            self.main_item(item.tag, item.value)
        } else if item.item_type == 1 {
            self.global_item(item)
        } else {
            if item.item_type == 2 {
                if item.tag == 0 {
                    self.usages.push(item.value);
                } else if item.tag == 1 {
                    self.usage_minimum = Some(item.value);
                } else if item.tag == 2 {
                    self.usage_maximum = Some(item.value);
                }
            }
            Ok(())
        }
    }

    /// Reads every item of the descriptor.
    fn run(&mut self, descriptor: &[u8]) -> (r: Result<(), &'static str>)
        requires
            parser_ok(old(self)@),
        ensures
            step_matches(r, final(self)@, parse_items(descriptor@, 0, old(self)@)),
    {
        let mut cursor: usize = 0;
        while cursor < descriptor.len()
            invariant
                cursor <= descriptor@.len(),
                parser_ok(self@),
                parse_items(descriptor@, 0, old(self)@) == parse_items(
                    descriptor@,
                    cursor as int,
                    self@,
                ),
            decreases descriptor@.len() - cursor,
        {
            let prefix: u8 = descriptor[cursor];
            let left: usize = descriptor.len() - cursor - 1;
            if prefix == 0xfe {
                if left == 0 {
                    return Err("goodix: truncated HID long item");
                }
                let length: usize = descriptor[cursor + 1] as usize;
                if left < length + 2 {
                    return Err("goodix: malformed HID long item");
                }
                cursor = cursor + 3 + length;
            } else {
                let size: usize = if prefix % 4 == 3 {
                    4
                } else {
                    (prefix % 4) as usize
                };
                if left < size {
                    return Err("goodix: truncated HID item");
                }
                let data = vstd::slice::slice_subrange(descriptor, cursor + 1, cursor + 1 + size);
                let item = ShortItem {
                    item_type: prefix / 4 % 4,
                    tag: prefix / 16,
                    size,
                    value: little_endian_item(data),
                };
                assert(item == short_item(descriptor@, cursor as int));
                match self.item(item) {
                    Ok(()) => {},
                    Err(e) => {
                        return Err(e);
                    },
                }
                cursor = cursor + 1 + size;
            }
        }
        Ok(())
    }
}

/// Copies the fields of one role in one report.
fn select_fields(
    fields: &Vec<(TouchUsage, HidField)>,
    role: TouchUsage,
    report_id: u8,
) -> (r: Vec<HidField>)
    ensures
        r@ == fields_of(fields@, role, report_id),
{
    let mut selected: Vec<HidField> = Vec::new();
    let mut i: usize = 0;
    while i < fields.len()
        invariant
            i <= fields@.len(),
            selected@ == fields_of(fields@.take(i as int), role, report_id),
        decreases fields@.len() - i,
    {
        assert(fields@.take(i + 1).drop_last() =~= fields@.take(i as int));
        if fields[i].0 == role && fields[i].1.report_id == report_id {
            selected.push(fields[i].1);
        }
        i = i + 1;
    }
    assert(fields@.take(fields@.len() as int) =~= fields@);
    selected
}

/// The first field of one role in one report.
fn find_field(
    fields: &Vec<(TouchUsage, HidField)>,
    role: TouchUsage,
    report_id: u8,
) -> (r: Option<HidField>)
    ensures
        r == match first_index(fields@, is_role(role, report_id), 0) {
            Some(i) => Some(fields@[i].1),
            None => None::<HidField>,
        },
{
    let mut i: usize = 0;
    while i < fields.len()
        invariant
            i <= fields@.len(),
            first_index(fields@, is_role(role, report_id), 0) == first_index(
                fields@,
                is_role(role, report_id),
                i as int,
            ),
        decreases fields@.len() - i,
    {
        if fields[i].0 == role && fields[i].1.report_id == report_id {
            return Some(fields[i].1);
        }
        i = i + 1;
    }
    None
}

/// The report of the first X field that has a Y field beside it.
fn touch_report(fields: &Vec<(TouchUsage, HidField)>) -> (r: Option<u8>)
    ensures
        r == match first_index(fields@, is_paired_x(fields@), 0) {
            Some(i) => Some(fields@[i].1.report_id),
            None => None::<u8>,
        },
{
    let mut i: usize = 0;
    while i < fields.len()
        invariant
            i <= fields@.len(),
            first_index(fields@, is_paired_x(fields@), 0) == first_index(
                fields@,
                is_paired_x(fields@),
                i as int,
            ),
        decreases fields@.len() - i,
    {
        if fields[i].0 == TouchUsage::X {
            let report_id: u8 = fields[i].1.report_id;
            if find_field(fields, TouchUsage::Y, report_id).is_some() {
                return Some(report_id);
            }
        }
        i = i + 1;
    }
    None
}

/// Parses a HID report descriptor into the touch layout of one report.
pub fn parse_touch_layout(descriptor: &[u8]) -> (r: Result<HidTouchLayout, &'static str>)
    ensures
        match r {
            Ok(layout) => descriptor_layout(descriptor@) == Ok::<LayoutView, &'static str>(layout@),
            Err(e) => descriptor_layout(descriptor@) == Err::<LayoutView, &'static str>(e),
        },
{
    let mut parser = Parser::new();
    parser.run(descriptor)?;
    let fields = parser.fields;
    let report_id: u8 = match touch_report(&fields) {
        Some(report_id) => report_id,
        None => {
            return Err("goodix: HID descriptor has no touchscreen X/Y report");
        },
    };
    let tips = select_fields(&fields, TouchUsage::Tip, report_id);
    if tips.is_empty() {
        return Err("goodix: incomplete HID touchscreen report");
    }
    Ok(
        HidTouchLayout {
            report_id,
            tips,
            contact_ids: select_fields(&fields, TouchUsage::ContactId, report_id),
            x: select_fields(&fields, TouchUsage::X, report_id),
            y: select_fields(&fields, TouchUsage::Y, report_id),
            pressure: select_fields(&fields, TouchUsage::Pressure, report_id),
            touch_major: select_fields(&fields, TouchUsage::Major, report_id),
            contact_count: find_field(&fields, TouchUsage::Count, report_id),
        },
    )
}

/// A field that [`extract_bits`](crate::goodix::hid::extract_bits) accepts and
/// that lies in a bounded report.
pub open spec fn field_is_bounded(field: HidField) -> bool {
    &&& 1 <= field.bit_size <= MAX_REPORT_FIELD_BITS
    &&& field.bit_offset + field.bit_size <= MAX_INPUT_REPORT_BITS
}

pub open spec fn all_bounded(fields: Seq<(TouchUsage, HidField)>) -> bool {
    forall|i: int| 0 <= i < fields.len() ==> field_is_bounded((#[trigger] fields[i]).1)
}

pub open spec fn belong_to(fields: Seq<HidField>, report_id: u8) -> bool {
    forall|i: int|
        0 <= i < fields.len() ==> (#[trigger] fields[i]).report_id == report_id && field_is_bounded(
            fields[i],
        )
}

proof fn touch_fields_are_bounded(p: ParserView, base: int, maximum: i32, count: int)
    requires
        0 <= base,
        count <= p.globals.report_count,
        1 <= p.globals.report_size <= MAX_REPORT_FIELD_BITS,
        base + p.globals.report_size * p.globals.report_count <= MAX_INPUT_REPORT_BITS,
    ensures
        all_bounded(p.touch_fields(base, maximum, count)),
    decreases count,
{
    if count > 0 {
        touch_fields_are_bounded(p, base, maximum, count - 1);
        let size = p.globals.report_size as int;
        let total = p.globals.report_count as int;
        assert((count - 1) * size + size <= size * total && 0 <= (count - 1) * size)
            by (nonlinear_arith)
            requires
                1 <= count <= total,
                1 <= size,
        ;
    }
}

proof fn items_keep_fields_bounded(d: Seq<u8>, cursor: int, state: ParserView)
    requires
        0 <= cursor,
        all_bounded(state.fields),
    ensures
        parse_items(d, cursor, state) matches Ok(end) ==> all_bounded(end.fields),
    decreases d.len() - cursor,
{
    if cursor < d.len() {
        if d[cursor] == 0xfe {
            if cursor + 1 < d.len() && cursor + 3 + d[cursor + 1] <= d.len() {
                items_keep_fields_bounded(d, cursor + 3 + d[cursor + 1], state);
            }
        } else if cursor + 1 + item_size(d[cursor]) <= d.len() {
            let item = short_item(d, cursor);
            match state.item(item) {
                Ok(next) => {
                    if item.item_type == 0 && item.tag == 8 {
                        let count = state.globals.report_count as int;
                        let base = state.offsets[state.globals.report_id as int] as int;
                        if state.in_touch_collection() && item.value % 4 == 2
                            && state.has_touch_field(count) {
                            let maximum = logical_maximum(state.globals)->Ok_0;
                            touch_fields_are_bounded(state, base, maximum, count);
                        }
                    }
                    assert(all_bounded(next.fields));
                    items_keep_fields_bounded(d, cursor + 1 + item_size(d[cursor]), next);
                },
                Err(_) => {},
            }
        }
    }
}

proof fn selected_fields_belong(fields: Seq<(TouchUsage, HidField)>, role: TouchUsage, id: u8)
    requires
        all_bounded(fields),
    ensures
        belong_to(fields_of(fields, role, id), id),
    decreases fields.len(),
{
    if fields.len() > 0 {
        assert(all_bounded(fields.drop_last())) by {
            assert forall|i: int| 0 <= i < fields.drop_last().len() implies field_is_bounded(
                (#[trigger] fields.drop_last()[i]).1,
            ) by {
                assert(fields.drop_last()[i] == fields[i]);
            }
        }
        selected_fields_belong(fields.drop_last(), role, id);
    }
}

proof fn present_role_is_selected(
    fields: Seq<(TouchUsage, HidField)>,
    role: TouchUsage,
    id: u8,
    at: int,
)
    requires
        0 <= at < fields.len(),
        fields[at].0 == role,
        fields[at].1.report_id == id,
    ensures
        fields_of(fields, role, id).len() > 0,
    decreases fields.len(),
{
    if at < fields.len() - 1 {
        present_role_is_selected(fields.drop_last(), role, id, at);
    }
}

/// A parsed layout holds at least one complete contact record, and every
/// field of it lies in the layout's report, is at most 32 bits wide, and ends
/// within the 4096 bits that a report may have.
pub proof fn parsed_layout_is_bounded(d: Seq<u8>)
    ensures
        descriptor_layout(d) matches Ok(layout) ==> {
            &&& layout.capacity() >= 1
            &&& belong_to(layout.tips, layout.report_id)
            &&& belong_to(layout.contact_ids, layout.report_id)
            &&& belong_to(layout.x, layout.report_id)
            &&& belong_to(layout.y, layout.report_id)
            &&& belong_to(layout.pressure, layout.report_id)
            &&& belong_to(layout.touch_major, layout.report_id)
            &&& layout.contact_count matches Some(field) ==> field.report_id == layout.report_id
                && field_is_bounded(field)
        },
{
    items_keep_fields_bounded(d, 0, initial_parser());
    match parse_items(d, 0, initial_parser()) {
        Err(_) => {},
        Ok(state) => {
            let fields = state.fields;
            first_index_is_first(fields, is_paired_x(fields), 0);
            match first_index(fields, is_paired_x(fields), 0) {
                None => {},
                Some(first) => {
                    let id = fields[first].1.report_id;
                    first_index_is_first(fields, is_role(TouchUsage::Y, id), 0);
                    first_index_is_first(fields, is_role(TouchUsage::Count, id), 0);
                    let paired = first_index(fields, is_role(TouchUsage::Y, id), 0)->Some_0;
                    present_role_is_selected(fields, TouchUsage::X, id, first);
                    present_role_is_selected(fields, TouchUsage::Y, id, paired);
                    selected_fields_belong(fields, TouchUsage::Tip, id);
                    selected_fields_belong(fields, TouchUsage::ContactId, id);
                    selected_fields_belong(fields, TouchUsage::X, id);
                    selected_fields_belong(fields, TouchUsage::Y, id);
                    selected_fields_belong(fields, TouchUsage::Pressure, id);
                    selected_fields_belong(fields, TouchUsage::Major, id);
                },
            }
        },
    }
}

} // verus!
