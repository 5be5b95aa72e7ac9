//! What the firmware image and the decoded frames look like from outside:
//! which byte of the file or of the decoder's planes ends up where.

use vstd::arithmetic::div_mod::{
    lemma_fundamental_div_mod, lemma_fundamental_div_mod_converse, lemma_mod_multiples_basic,
};
use vstd::arithmetic::mul::{
    lemma_mul_inequality, lemma_mul_is_commutative, lemma_mul_is_distributive_add,
    lemma_mul_upper_bound,
};
use vstd::arithmetic::power2::{lemma2_to64, pow2};
use vstd::prelude::*;

use crate::bytes::{le16, le32, le32_of_bytes};
use crate::venus::firmware::{
    bounds_of, header_count, header_in, image_fault, is_loadable, load_segments, relocation_base,
    ImageBounds, ProgramHeader,
};
use crate::venus::hfi_abi::{FillDone, SequenceInfo};
use crate::venus::nv12::{
    align_up_u32, aligned, compaction_fault, divided_up, is_compacted, layout_of, linear_bytes,
    payload_row, plane_size, source_row, ubwc_size, Nv12Layout,
};
use crate::venus::session::{frame_header, is_finished, VideoInterface};

verus! {

// Sizes.

/// Rounding up gives the least multiple that is not below the value.
pub proof fn rounding_up_gives_the_least_multiple(value: int, alignment: int)
    requires
        0 <= value,
        0 < alignment,
    ensures
        aligned(value, alignment) % alignment == 0,
        value <= aligned(value, alignment) < value + alignment,
        aligned(value, alignment) == alignment * divided_up(value, alignment),
{
    let quotient = (value + alignment - 1) / alignment;
    lemma_fundamental_div_mod(value + alignment - 1, alignment);
    lemma_mul_is_commutative(quotient, alignment);
    lemma_mod_multiples_basic(quotient, alignment);
}

/// A multiple that is not below a value, and less than one step above it, is
/// what rounding up gives.
proof fn the_least_multiple_is_found(value: int, alignment: int, count: int)
    requires
        0 <= value,
        0 < alignment,
        value <= alignment * count < value + alignment,
    ensures
        aligned(value, alignment) == alignment * count,
        divided_up(value, alignment) == count,
{
    let rest = value + alignment - 1 - alignment * count;
    lemma_mul_is_commutative(count, alignment);
    lemma_fundamental_div_mod_converse(value + alignment - 1, alignment, count, rest);
}

/// Rounding a word up to a power of two gives the least multiple of it, and
/// is refused only where the sum leaves the word.
pub proof fn words_are_rounded_up(value: u32, r: Result<u32, &'static str>)
    requires
        call_ensures(align_up_u32, (value, 4096u32), r),
    ensures
        r is Ok <==> value <= 0xffff_f000,
        r matches Ok(rounded) ==> rounded % 4096 == 0 && value <= rounded < value + 4096,
{
    lemma2_to64();
    assert(4096u32 == pow2(12));
}

/// A compressed frame holds five parts, each in whole pages of 4096 bytes: the
/// luma metadata (a byte for each tile of 32 by 8, rows of a multiple of 64,
/// a multiple of 16 of them), the luma plane (rows of a multiple of 128, a
/// multiple of 32 of them), the chroma metadata (tiles of 16 by 8 of half the
/// frame), the chroma plane, and 48 rows, or 16384 bytes if that is more, of
/// extra data.
pub proof fn compressed_frames_hold_five_parts(
    width: int,
    height: int,
    tiles: (int, int),
    halves: (int, int),
    meta: (int, int),
    plane: (int, int),
    chroma_meta: (int, int),
    chroma_rows: int,
    pages: (int, int, int, int),
)
    requires
        0 < width,
        0 < height,
        width <= 32 * tiles.0 < width + 32,
        height <= 8 * tiles.1 < height + 8,
        width / 2 <= 16 * halves.0 < width / 2 + 16,
        height / 2 <= 8 * halves.1 < height / 2 + 8,
        tiles.0 <= 64 * meta.0 < tiles.0 + 64,
        tiles.1 <= 16 * meta.1 < tiles.1 + 16,
        width <= 128 * plane.0 < width + 128,
        height <= 32 * plane.1 < height + 32,
        halves.0 <= 64 * chroma_meta.0 < halves.0 + 64,
        halves.1 <= 16 * chroma_meta.1 < halves.1 + 16,
        height / 2 <= 32 * chroma_rows < height / 2 + 32,
        64 * meta.0 * (16 * meta.1) <= 4096 * pages.0 < 64 * meta.0 * (16 * meta.1) + 4096,
        128 * plane.0 * (32 * plane.1) <= 4096 * pages.1 < 128 * plane.0 * (32 * plane.1) + 4096,
        64 * chroma_meta.0 * (16 * chroma_meta.1) <= 4096 * pages.2 < 64 * chroma_meta.0 * (16
            * chroma_meta.1) + 4096,
        128 * plane.0 * (32 * chroma_rows) <= 4096 * pages.3 < 128 * plane.0 * (32 * chroma_rows)
            + 4096,
        ubwc_size(width, height) is Ok,
    ensures
        ({
            let size = ubwc_size(width, height)->Ok_0;
            let planes = 4096 * (pages.0 + pages.1 + pages.2 + pages.3);
            &&& size % 4096 == 0
            &&& 48 * (128 * plane.0) >= 16384 ==> planes + 48 * (128 * plane.0) <= size < planes
                + 48 * (128 * plane.0) + 4096
            &&& 48 * (128 * plane.0) < 16384 ==> size == planes + 16384
        }),
{
    the_least_multiple_is_found(width, 32, tiles.0);
    the_least_multiple_is_found(height, 8, tiles.1);
    the_least_multiple_is_found(width / 2, 16, halves.0);
    the_least_multiple_is_found(height / 2, 8, halves.1);
    the_least_multiple_is_found(tiles.0, 64, meta.0);
    the_least_multiple_is_found(tiles.1, 16, meta.1);
    the_least_multiple_is_found(width, 128, plane.0);
    the_least_multiple_is_found(height, 32, plane.1);
    the_least_multiple_is_found(halves.0, 64, chroma_meta.0);
    the_least_multiple_is_found(halves.1, 16, chroma_meta.1);
    the_least_multiple_is_found(height / 2, 32, chroma_rows);
    lemma_mul_inequality(0, 64 * meta.0, 16 * meta.1);
    lemma_mul_inequality(0, 128 * plane.0, 32 * plane.1);
    lemma_mul_inequality(0, 64 * chroma_meta.0, 16 * chroma_meta.1);
    lemma_mul_inequality(0, 128 * plane.0, 32 * chroma_rows);
    the_least_multiple_is_found(64 * meta.0 * (16 * meta.1), 4096, pages.0);
    the_least_multiple_is_found(128 * plane.0 * (32 * plane.1), 4096, pages.1);
    the_least_multiple_is_found(64 * chroma_meta.0 * (16 * chroma_meta.1), 4096, pages.2);
    the_least_multiple_is_found(128 * plane.0 * (32 * chroma_rows), 4096, pages.3);
    let planes = 4096 * (pages.0 + pages.1 + pages.2 + pages.3);
    let extra = if 128 * plane.0 * 48 > 16384 {
        128 * plane.0 * 48
    } else {
        16384
    };
    rounding_up_gives_the_least_multiple(planes + extra, 4096);
}

/// A plane takes whole pages, and not one more than it needs.
proof fn planes_take_whole_pages(stride: int, rows: int, fault: &'static str)
    requires
        0 <= stride <= 4096,
        0 <= rows <= 4096,
    ensures
        plane_size(stride, rows, fault) is Ok,
        0 <= plane_size(stride, rows, fault)->Ok_0 <= 4096 * 4096,
{
    lemma_mul_upper_bound(stride, 4096, rows, 4096);
    lemma_mul_inequality(0, stride, rows);
    rounding_up_gives_the_least_multiple(stride * rows, 4096);
}

/// A layout says what the stream announced: the frame and the part of it that
/// is shown. Rows are a multiple of 128 bytes, the planes hold the least
/// multiples of 32 and of 16 rows that cover the frame, and the whole takes
/// the least number of pages.
pub proof fn layouts_follow_the_announcement(sequence: SequenceInfo)
    requires
        layout_of(sequence) is Ok,
    ensures
        ({
            let layout = layout_of(sequence)->Ok_0;
            let bytes = layout.y_stride * (layout.y_scanlines + layout.uv_scanlines);
            &&& layout.width == sequence.width && layout.height == sequence.height
            &&& layout.display_x == sequence.crop_left && layout.display_y == sequence.crop_top
            &&& layout.display_width == sequence.crop_width
            &&& layout.display_height == sequence.crop_height
            &&& layout.y_stride % 128 == 0
            &&& layout.width <= layout.y_stride < layout.width + 128
            &&& layout.y_scanlines % 32 == 0
            &&& layout.height <= layout.y_scanlines < layout.height + 32
            &&& layout.uv_scanlines % 16 == 0
            &&& layout.height <= 2 * layout.uv_scanlines < layout.height + 33
            &&& layout.linear_size % 4096 == 0
            &&& bytes <= layout.linear_size < bytes + 4096
            &&& ubwc_size(sequence.width as int, sequence.height as int) is Ok
        }),
{
    let width = sequence.width as int;
    let height = sequence.height as int;
    let stride = aligned(width, 128);
    let rows = aligned(height, 32);
    let chroma = aligned((height + 1) / 2, 16);
    rounding_up_gives_the_least_multiple(width, 128);
    rounding_up_gives_the_least_multiple(height, 32);
    rounding_up_gives_the_least_multiple((height + 1) / 2, 16);
    assert(chroma <= (height + 1) / 2 + 15);
    lemma_mul_inequality(0, rows, stride);
    lemma_mul_inequality(0, chroma, stride);
    lemma_mul_is_commutative(rows, stride);
    lemma_mul_is_commutative(chroma, stride);
    lemma_mul_is_distributive_add(stride, rows, chroma);
    rounding_up_gives_the_least_multiple(stride * rows + stride * chroma, 4096);
}

/// The sizes of a frame of up to 4096 by 4096 pixels can be given.
#[verifier::rlimit(40)]
proof fn small_frames_have_sizes(width: int, height: int)
    requires
        0 < width <= 4096,
        0 < height <= 4096,
    ensures
        linear_bytes(width, height) + 4095 <= u32::MAX,
        ubwc_size(width, height) is Ok,
{
    let stride = aligned(width, 128);
    let rows = aligned(height, 32);
    let chroma = aligned((height + 1) / 2, 16);
    let chroma_rows = aligned(height / 2, 32);
    let meta = (aligned(divided_up(width, 32), 64), aligned(divided_up(height, 8), 16));
    let chroma_meta = (
        aligned(divided_up(width / 2, 16), 64),
        aligned(divided_up(height / 2, 8), 16),
    );
    assert(0 <= stride <= 4096) by {
        rounding_up_gives_the_least_multiple(width, 128);
    }
    assert(0 <= rows <= 4096) by {
        rounding_up_gives_the_least_multiple(height, 32);
    }
    assert(0 <= chroma <= 4096) by {
        rounding_up_gives_the_least_multiple((height + 1) / 2, 16);
    }
    assert(0 <= chroma_rows <= 4096) by {
        rounding_up_gives_the_least_multiple(height / 2, 32);
    }
    assert(0 <= meta.0 <= 4096 && 0 <= meta.1 <= 4096) by {
        rounding_up_gives_the_least_multiple(divided_up(width, 32), 64);
        rounding_up_gives_the_least_multiple(divided_up(height, 8), 16);
    }
    assert(0 <= chroma_meta.0 <= 4096 && 0 <= chroma_meta.1 <= 4096) by {
        rounding_up_gives_the_least_multiple(divided_up(width / 2, 16), 64);
        rounding_up_gives_the_least_multiple(divided_up(height / 2, 8), 16);
    }
    lemma_mul_upper_bound(stride, 4096, rows, 4096);
    lemma_mul_upper_bound(stride, 4096, chroma, 4096);
    planes_take_whole_pages(meta.0, meta.1, "qcom-venus-sc7180: UBWC Y metadata overflows");
    planes_take_whole_pages(stride, rows, "qcom-venus-sc7180: UBWC Y plane overflows");
    planes_take_whole_pages(
        chroma_meta.0,
        chroma_meta.1,
        "qcom-venus-sc7180: UBWC UV metadata overflows",
    );
    planes_take_whole_pages(stride, chroma_rows, "qcom-venus-sc7180: UBWC UV plane overflows");
}

/// Frames of up to 4096 by 4096 pixels are laid out, if and only if the part
/// shown is not empty, lies inside the frame, and starts and ends at even
/// positions.
pub proof fn even_crops_are_laid_out(sequence: SequenceInfo)
    requires
        0 < sequence.width <= 4096,
        0 < sequence.height <= 4096,
    ensures
        layout_of(sequence) is Ok <==> {
            &&& sequence.crop_width > 0 && sequence.crop_height > 0
            &&& sequence.crop_left % 2 == 0 && sequence.crop_top % 2 == 0
            &&& (sequence.crop_left + sequence.crop_width) % 2 == 0
            &&& (sequence.crop_top + sequence.crop_height) % 2 == 0
            &&& sequence.crop_left + sequence.crop_width <= sequence.width
            &&& sequence.crop_top + sequence.crop_height <= sequence.height
        },
{
    small_frames_have_sizes(sequence.width as int, sequence.height as int);
}

// Frames.

/// A pixel of the part shown keeps its luma: the payload starts with the
/// shown rows, one behind the other, each taken from its place in the
/// decoder's plane, which starts 4096 bytes into the buffer.
pub proof fn luma_keeps_its_pixel(
    before: Seq<u8>,
    after: Seq<u8>,
    header_len: int,
    layout: Nv12Layout,
    offset: int,
    x: int,
    y: int,
)
    requires
        is_compacted(before, after, header_len, layout, offset),
        0 <= x < layout.display_width,
        0 <= y < layout.display_height,
    ensures
        after[header_len + layout.display_width * y + x] == before[4096 + offset + layout.y_stride
            * (layout.display_y + y) + layout.display_x + x],
{
    lemma_mul_is_commutative(layout.display_width as int, y);
    lemma_mul_is_commutative(layout.y_stride as int, layout.display_y + y);
    assert(after[payload_row(layout, header_len, y) + x] == before[source_row(layout, offset, y)
        + x]);
}

/// A pair of shown rows keeps its chroma: behind the luma, the payload holds
/// one chroma row for two rows of pixels, taken from the plane that follows
/// the luma plane.
pub proof fn chroma_keeps_its_pixels(
    before: Seq<u8>,
    after: Seq<u8>,
    header_len: int,
    layout: Nv12Layout,
    offset: int,
    x: int,
    pair: int,
)
    requires
        is_compacted(before, after, header_len, layout, offset),
        layout.display_y % 2 == 0,
        0 <= x < layout.display_width,
        0 <= pair,
        2 * pair < layout.display_height,
        layout.display_height % 2 == 0,
    ensures
        after[header_len + layout.display_width * layout.display_height + layout.display_width
            * pair + x] == before[4096 + offset + layout.y_stride * layout.y_scanlines
            + layout.y_stride * ((layout.display_y + 2 * pair) / 2) + layout.display_x + x],
{
    let row = layout.display_height + pair;
    let width = layout.display_width as int;
    let stride = layout.y_stride as int;
    lemma_mul_is_commutative(width, row);
    lemma_mul_is_distributive_add(
        width,
        layout.display_height as int,
        pair,
    );
    let source = layout.display_y as int / 2 + pair;
    assert((layout.display_y + 2 * pair) / 2 == source);
    lemma_mul_is_commutative(stride, source);
    assert(after[payload_row(layout, header_len, row) + x] == before[source_row(
        layout,
        offset,
        row,
    ) + x]);
}

/// Compaction is refused exactly where the buffer is not the linear one,
/// where the planes leave the buffer, or where the payload does.
pub proof fn fitting_frames_are_compacted(
    capacity: int,
    header_len: int,
    layout: Nv12Layout,
    done: FillDone,
)
    requires
        layout.wf(),
        0 <= header_len <= 4096 <= capacity <= usize::MAX,
    ensures
        compaction_fault(capacity, header_len, layout, done) is None <==> {
            &&& done.stream_id == 1
            &&& 4096 + done.offset + layout.y_stride * (layout.y_scanlines + layout.uv_scanlines)
                <= capacity
            &&& 2 * (capacity - header_len) >= 3 * (layout.display_width * layout.display_height)
        },
{
    let stride = layout.y_stride as int;
    let area = layout.display_width * layout.display_height;
    lemma_mul_is_distributive_add(
        stride,
        layout.y_scanlines as int,
        layout.uv_scanlines as int,
    );
    lemma_mul_inequality(0, layout.y_scanlines as int, stride);
    lemma_mul_inequality(0, layout.uv_scanlines as int, stride);
    lemma_mul_is_commutative(layout.y_scanlines as int, stride);
    lemma_mul_is_commutative(layout.uv_scanlines as int, stride);
    let half = layout.display_height as int / 2;
    assert(area == 2 * (layout.display_width * half)) by (nonlinear_arith)
        requires
            area == layout.display_width * layout.display_height,
            layout.display_height == 2 * half,
    ;
}

/// The header of a finished frame gives the size of the part shown, the pixel
/// format, and the length of the payload: three bytes for two pixels.
pub proof fn headers_describe_the_frame(
    before: Seq<u8>,
    after: Seq<u8>,
    interface: VideoInterface,
    layout: Nv12Layout,
    offset: int,
)
    requires
        is_finished(before, after, interface, layout, offset),
        after.len() >= 20,
        layout.wf(),
        2 * layout.linear_size >= 3 * (layout.display_width * layout.display_height),
    ensures
        after.subrange(0, 4) == interface.frame_magic@,
        le32(after, 4) == layout.display_width,
        le32(after, 8) == layout.display_height,
        le32(after, 12) == interface.pixel_nv12,
        2 * le32(after, 16) == 3 * (layout.display_width * layout.display_height),
{
    let head = frame_header(interface, layout);
    let area = layout.display_width * layout.display_height;
    let half = layout.display_height as int / 2;
    assert(area == 2 * (layout.display_width * half)) by (nonlinear_arith)
        requires
            area == layout.display_width * layout.display_height,
            layout.display_height == 2 * half,
    ;
    lemma_mul_inequality(0, layout.display_width as int, half);
    let length = layout.tight_len() as u32;
    assert(length == layout.tight_len());
    le32_of_bytes(layout.display_width);
    le32_of_bytes(layout.display_height);
    le32_of_bytes(interface.pixel_nv12);
    le32_of_bytes(length);
    assert(interface.frame_magic@.len() == 4);
    assert forall|i: int| 0 <= i < 20 implies #[trigger] after[i] == head[i] by {
        assert(after.subrange(0, 20)[i] == after[i]);
    }
    assert(after.subrange(0, 4) =~= interface.frame_magic@);
}

// Firmware images.

/// The program headers of an image lie one behind the other, 32 bytes each,
/// from the position that the word at 28 of the file gives; the half word at
/// 44 counts them.
pub proof fn program_headers_are_table_rows(bytes: Seq<u8>, index: int)
    requires
        image_fault(bytes) is None,
        0 <= index < header_count(bytes),
    ensures
        header_count(bytes) == bytes[44] + 256 * bytes[45],
        ({
            let header = header_in(bytes, index);
            let row = bytes[28] + 256 * bytes[29] + 65536 * bytes[30] + 16777216 * bytes[31] + 32
                * index;
            &&& row + 32 <= bytes.len()
            &&& header.p_type == le32(bytes, row)
            &&& header.offset == le32(bytes, row + 4)
            &&& header.paddr == le32(bytes, row + 12)
            &&& header.file_size == le32(bytes, row + 16)
            &&& header.mem_size == le32(bytes, row + 20)
            &&& header.flags == le32(bytes, row + 24)
        }),
        bytes[0] == 0x7f && bytes[1] == 'E' as u8 && bytes[2] == 'L' as u8 && bytes[3]
            == 'F' as u8,
        bytes[4] == 1 && bytes[5] == 1,
        le16(bytes, 42) == 32,
{
}

/// The bounds of an image are the lowest and the highest address of its
/// segments: those of the load type that are not hash segments (two in bits
/// 24 to 26 of the flags) and take memory. It can be relocated if one of them
/// says so in bit 27.
pub proof fn bounds_are_reached(headers: Seq<ProgramHeader>)
    requires
        bounds_of(headers) is Some,
    ensures
        ({
            let bounds = bounds_of(headers)->Some_0;
            &&& forall|i: int|
                0 <= i < headers.len() && takes_memory(#[trigger] headers[i]) ==> bounds.minimum
                    <= headers[i].paddr && headers[i].paddr + headers[i].mem_size <= bounds.maximum
            &&& bounds.maximum > 0 ==> (exists|i: int|
                0 <= i < headers.len() && takes_memory(#[trigger] headers[i]) && headers[i].paddr
                    == bounds.minimum)
            &&& bounds.maximum > 0 ==> (exists|i: int|
                0 <= i < headers.len() && takes_memory(#[trigger] headers[i]) && headers[i].paddr
                    + headers[i].mem_size == bounds.maximum)
            &&& bounds.relocatable <==> (exists|i: int|
                0 <= i < headers.len() && takes_memory(#[trigger] headers[i])
                    && headers[i].flags as int / 0x800_0000 % 2 == 1)
            &&& bounds.maximum == 0 ==> bounds.minimum == u32::MAX
        }),
    decreases headers.len(),
{
    if headers.len() > 0 {
        let rest = headers.drop_last();
        bounds_are_reached(rest);
        let earlier = bounds_of(rest)->Some_0;
        let bounds = bounds_of(headers)->Some_0;
        let last = headers.len() - 1;
        assert(headers.last() == headers[last]);
        assert(takes_memory(headers[last]) == is_loadable(headers[last]));
        assert forall|i: int| 0 <= i < last implies #[trigger] headers[i] == rest[i] by {
        }
        assert forall|i: int| 0 <= i < headers.len() && takes_memory(#[trigger] headers[i]) implies
            bounds.minimum <= headers[i].paddr && headers[i].paddr + headers[i].mem_size
            <= bounds.maximum by {
            if i < last {
                assert(takes_memory(rest[i]));
            }
        }
        if earlier.maximum > 0 {
            let low = choose|i: int|
                0 <= i < rest.len() && takes_memory(#[trigger] rest[i]) && rest[i].paddr
                    == earlier.minimum;
            let high = choose|i: int|
                0 <= i < rest.len() && takes_memory(#[trigger] rest[i]) && rest[i].paddr
                    + rest[i].mem_size == earlier.maximum;
            assert(takes_memory(headers[low]) && takes_memory(headers[high]));
        }
        if earlier.relocatable {
            let some = choose|i: int|
                0 <= i < rest.len() && takes_memory(#[trigger] rest[i]) && rest[i].flags as int
                    / 0x800_0000 % 2 == 1;
            assert(takes_memory(headers[some]));
        }
        if exists|i: int|
            0 <= i < headers.len() && takes_memory(#[trigger] headers[i]) && headers[i].flags as int
                / 0x800_0000 % 2 == 1 {
            let some = choose|i: int|
                0 <= i < headers.len() && takes_memory(#[trigger] headers[i])
                    && headers[i].flags as int / 0x800_0000 % 2 == 1;
            if some < last {
                assert(takes_memory(rest[some]));
            }
        }
    }
}

/// Whether a segment takes memory of the firmware: it is of the load type
/// (1), no hash segment, and not empty.
pub open spec fn takes_memory(header: ProgramHeader) -> bool {
    &&& header.p_type == 1
    &&& header.flags as int / 0x100_0000 % 8 != 2
    &&& header.mem_size > 0
}

/// A loaded segment holds its part of the file, byte for byte, except where a
/// later segment was loaded over it.
pub proof fn segments_hold_their_part_of_the_file(
    region: Seq<u8>,
    bytes: Seq<u8>,
    headers: Seq<ProgramHeader>,
    base: int,
    index: int,
    at: int,
)
    requires
        load_segments(region, bytes, headers, base).1 is None,
        0 <= index < headers.len(),
        takes_memory(headers[index]),
        0 <= at < headers[index].file_size,
        forall|i: int|
            index < i < headers.len() && takes_memory(#[trigger] headers[i]) ==> !(headers[i].paddr
                <= headers[index].paddr + at < headers[i].paddr + headers[i].file_size),
    ensures
        load_segments(region, bytes, headers, base).0.len() == region.len(),
        0 <= headers[index].paddr - base + at < region.len(),
        load_segments(region, bytes, headers, base).0[headers[index].paddr - base + at]
            == bytes[headers[index].offset + at],
    decreases headers.len(),
{
    let last = headers.len() - 1;
    let rest = headers.drop_last();
    assert(headers.last() == headers[last]);
    assert(takes_memory(headers[last]) == is_loadable(headers[last]));
    loading_keeps_the_size(region, bytes, rest, base);
    if index < last {
        assert(rest[index] == headers[index]);
        assert forall|i: int| index < i < rest.len() && takes_memory(#[trigger] rest[i]) implies !(
        rest[i].paddr <= rest[index].paddr + at < rest[i].paddr + rest[i].file_size) by {
            assert(rest[i] == headers[i]);
        }
        segments_hold_their_part_of_the_file(region, bytes, rest, base, index, at);
    }
}

/// Loading does not change the size of the region.
proof fn loading_keeps_the_size(
    region: Seq<u8>,
    bytes: Seq<u8>,
    headers: Seq<ProgramHeader>,
    base: int,
)
    ensures
        load_segments(region, bytes, headers, base).0.len() == region.len(),
    decreases headers.len(),
{
    if headers.len() > 0 {
        loading_keeps_the_size(region, bytes, headers.drop_last(), base);
    }
}

/// A segment that takes no memory, a hash segment among them, changes
/// nothing, whatever else its header says.
pub proof fn other_segments_are_left_out(
    region: Seq<u8>,
    bytes: Seq<u8>,
    headers: Seq<ProgramHeader>,
    base: int,
    header: ProgramHeader,
)
    requires
        header.p_type != 1 || header.flags as int / 0x100_0000 % 8 == 2 || header.mem_size == 0,
    ensures
        load_segments(region, bytes, headers.push(header), base) == load_segments(
            region,
            bytes,
            headers,
            base,
        ),
        bounds_of(headers.push(header)) == bounds_of(headers),
{
    assert(headers.push(header).drop_last() =~= headers);
}

/// An image that can be relocated starts at the start of the region; another
/// one is placed by its own addresses.
pub proof fn images_are_placed(bounds: ImageBounds, region_paddr: usize)
    ensures
        bounds.relocatable ==> bounds.minimum - relocation_base(bounds, region_paddr) == 0,
        !bounds.relocatable ==> relocation_base(bounds, region_paddr) == region_paddr,
{
}

} // verus!
