//! NV12 frame layouts, and the compaction of a decoded frame in place.

use vstd::arithmetic::div_mod::{lemma_fundamental_div_mod, lemma_mod_multiples_basic};
use vstd::arithmetic::mul::lemma_mul_is_commutative;
use vstd::arithmetic::power2::{lemma2_to64, lemma_pow2_pos, pow2};
use vstd::bits::{lemma_u32_low_bits_mask_is_mod, low_bits_mask};
use vstd::prelude::*;

use crate::venus::hfi_abi::{FillDone, SequenceInfo};

verus! {

/// Where the hardware writes a frame in an output buffer.
pub const HARDWARE_OUTPUT_OFFSET: usize = 4096;

/// The next multiple of `alignment`.
pub open spec fn aligned(value: int, alignment: int) -> int {
    (value + alignment - 1) / alignment * alignment
}

/// Division that rounds up.
pub open spec fn divided_up(value: int, divisor: int) -> int {
    (value + divisor - 1) / divisor
}

pub open spec fn is_power_of_two(value: u32) -> bool {
    exists|n: nat| n < 32 && value == #[trigger] pow2(n)
}

/// Rounds up to a multiple of `alignment`, a power of two, as far as 32 bits
/// reach. Of any other alignment, the bits that are set in its predecessor are
/// cleared in the sum.
pub fn align_up_u32(value: u32, alignment: u32) -> (r: Result<u32, &'static str>)
    requires
        alignment > 0,
    ensures
        r == (if value + alignment - 1 > u32::MAX {
            Err::<u32, &'static str>("qcom-venus-sc7180: alignment overflows")
        } else {
            Ok(((value + alignment - 1) as u32) & !((alignment - 1) as u32))
        }),
        is_power_of_two(alignment) ==> (r matches Ok(a) ==> {
            &&& value <= a < value + alignment
            &&& a % alignment == 0
            &&& a == aligned(value as int, alignment as int)
        }),
{
    match value.checked_add(alignment - 1) {
        Some(sum) => {
            let mask: u32 = alignment - 1;
            proof {
                if is_power_of_two(alignment) {
                    clearing_low_bits_aligns(sum, alignment);
                }
            }
            Ok(sum & !mask)
        },
        None => Err("qcom-venus-sc7180: alignment overflows"),
    }
}

proof fn clearing_low_bits_aligns(sum: u32, alignment: u32)
    requires
        is_power_of_two(alignment),
    ensures
        (sum & !((alignment - 1) as u32)) == sum as int / alignment as int * alignment as int,
        (sum & !((alignment - 1) as u32)) % alignment == 0,
        sum - alignment < (sum & !((alignment - 1) as u32)) <= sum,
{
    let n = choose|n: nat| n < 32 && alignment == #[trigger] pow2(n);
    lemma_pow2_pos(n);
    let mask = (alignment - 1) as u32;
    lemma_u32_low_bits_mask_is_mod(sum, n);
    assert(low_bits_mask(n) == mask);
    let a = alignment as int;
    let low = sum & mask;
    assert(low == sum % alignment);
    let cleared = sum & !mask;
    assert(low <= sum && cleared == sum - low) by (bit_vector)
        requires
            low == sum & mask,
            cleared == sum & !mask,
    ;
    lemma_fundamental_div_mod(sum as int, a);
    lemma_mul_is_commutative(sum as int / a, a);
    lemma_mod_multiples_basic(sum as int / a, a);
}

/// The alignments of frames.
proof fn frame_alignments_are_powers_of_two()
    ensures
        is_power_of_two(16),
        is_power_of_two(32),
        is_power_of_two(64),
        is_power_of_two(128),
        is_power_of_two(4096),
{
    lemma2_to64();
    assert(16u32 == pow2(4));
    assert(32u32 == pow2(5));
    assert(64u32 == pow2(6));
    assert(128u32 == pow2(7));
    assert(4096u32 == pow2(12));
}

/// `value` divided by `divisor`, rounded up.
fn div_up(value: u32, divisor: u32) -> (r: u32)
    requires
        divisor == 8 || divisor == 16 || divisor == 32,
    ensures
        r == divided_up(value as int, divisor as int),
        r <= 0x2000_0000,
{
    let whole: u32 = value / divisor;
    if value % divisor == 0 {
        whole
    } else {
        whole + 1
    }
}

// UBWC.

/// A plane of so many rows of so many bytes, in whole pages.
pub open spec fn plane_size(stride: int, rows: int, fault: &'static str) -> Result<
    int,
    &'static str,
> {
    if stride * rows > u32::MAX {
        Err(fault)
    } else if stride * rows + 4095 > u32::MAX {
        Err("qcom-venus-sc7180: alignment overflows")
    } else {
        Ok(aligned(stride * rows, 4096))
    }
}

fn plane(stride: u32, rows: u32, fault: &'static str) -> (r: Result<u32, &'static str>)
    ensures
        match r {
            Ok(size) => plane_size(stride as int, rows as int, fault) == Ok::<int, &'static str>(
                size as int,
            ),
            Err(e) => plane_size(stride as int, rows as int, fault) == Err::<int, &'static str>(e),
        },
{
    proof {
        frame_alignments_are_powers_of_two();
    }
    match stride.checked_mul(rows) {
        Some(size) => align_up_u32(size, 4096),
        None => Err(fault),
    }
}

/// The bytes of a compressed frame: metadata and pixels of both planes, and
/// the firmware's extra data.
pub open spec fn ubwc_size(width: int, height: int) -> Result<int, &'static str> {
    let y_meta = plane_size(
        aligned(divided_up(width, 32), 64),
        aligned(divided_up(height, 8), 16),
        "qcom-venus-sc7180: UBWC Y metadata overflows",
    );
    let stride = aligned(width, 128);
    let y_plane = plane_size(
        stride,
        aligned(height, 32),
        "qcom-venus-sc7180: UBWC Y plane overflows",
    );
    let uv_meta = plane_size(
        aligned(divided_up(width / 2, 16), 64),
        aligned(divided_up(height / 2, 8), 16),
        "qcom-venus-sc7180: UBWC UV metadata overflows",
    );
    let uv_plane = plane_size(
        stride,
        aligned(height / 2, 32),
        "qcom-venus-sc7180: UBWC UV plane overflows",
    );
    let extra = if stride * 48 > 16_384 {
        stride * 48
    } else {
        16_384
    };
    if y_meta is Err {
        y_meta
    } else if width + 127 > u32::MAX || height + 31 > u32::MAX {
        Err("qcom-venus-sc7180: alignment overflows")
    } else if y_plane is Err {
        y_plane
    } else if uv_meta is Err {
        uv_meta
    } else if uv_plane is Err {
        uv_plane
    } else if stride * 48 > u32::MAX {
        Err("qcom-venus-sc7180: UBWC extradata overflows")
    } else {
        let total = y_meta->Ok_0 + y_plane->Ok_0 + uv_meta->Ok_0 + uv_plane->Ok_0 + extra;
        if total + 4095 > u32::MAX {
            Err("qcom-venus-sc7180: UBWC buffer size overflows")
        } else {
            Ok(aligned(total, 4096))
        }
    }
}

pub fn nv12_ubwc_size(width: u32, height: u32) -> (r: Result<u32, &'static str>)
    ensures
        match r {
            Ok(size) => ubwc_size(width as int, height as int) == Ok::<int, &'static str>(
                size as int,
            ),
            Err(e) => ubwc_size(width as int, height as int) == Err::<int, &'static str>(e),
        },
{
    proof {
        frame_alignments_are_powers_of_two();
    }
    let y_meta_stride: u32 = align_up_u32(div_up(width, 32), 64)?;
    let y_meta_rows: u32 = align_up_u32(div_up(height, 8), 16)?;
    let y_meta: u32 = plane(
        y_meta_stride,
        y_meta_rows,
        "qcom-venus-sc7180: UBWC Y metadata overflows",
    )?;
    let y_stride: u32 = align_up_u32(width, 128)?;
    let y_rows: u32 = align_up_u32(height, 32)?;
    let y_plane: u32 = plane(y_stride, y_rows, "qcom-venus-sc7180: UBWC Y plane overflows")?;
    let uv_meta_stride: u32 = align_up_u32(div_up(width / 2, 16), 64)?;
    let uv_meta_rows: u32 = align_up_u32(div_up(height / 2, 8), 16)?;
    let uv_meta: u32 = plane(
        uv_meta_stride,
        uv_meta_rows,
        "qcom-venus-sc7180: UBWC UV metadata overflows",
    )?;
    let uv_rows: u32 = align_up_u32(height / 2, 32)?;
    let uv_plane: u32 = plane(y_stride, uv_rows, "qcom-venus-sc7180: UBWC UV plane overflows")?;
    let scaled: u32 = match y_stride.checked_mul(48) {
        Some(scaled) => scaled,
        None => {
            return Err("qcom-venus-sc7180: UBWC extradata overflows");
        },
    };
    let extradata: u32 = if scaled > 16_384 {
        scaled
    } else {
        16_384
    };
    let total: u64 = y_meta as u64 + y_plane as u64 + uv_meta as u64 + uv_plane as u64
        + extradata as u64;
    if total > u32::MAX as u64 {
        return Err("qcom-venus-sc7180: UBWC buffer size overflows");
    }
    match align_up_u32(total as u32, 4096) {
        Ok(size) => Ok(size),
        Err(_) => Err("qcom-venus-sc7180: UBWC buffer size overflows"),
    }
}

// Layouts.

/// The planes of a decoded frame, and the part of it that is shown.
#[derive(Clone, Copy, Debug, Eq, PartialEq, Structural)]
pub struct Nv12Layout {
    pub width: u32,
    pub height: u32,
    pub display_x: u32,
    pub display_y: u32,
    pub display_width: u32,
    pub display_height: u32,
    pub y_stride: u32,
    pub y_scanlines: u32,
    pub uv_scanlines: u32,
    pub linear_size: u32,
    pub ubwc_size: u32,
}

/// The crop has even edges and lies inside the frame.
pub open spec fn crop_is_valid(sequence: SequenceInfo) -> bool {
    &&& sequence.crop_width > 0 && sequence.crop_width % 2 == 0
    &&& sequence.crop_height > 0 && sequence.crop_height % 2 == 0
    &&& sequence.crop_left % 2 == 0
    &&& sequence.crop_top % 2 == 0
    &&& sequence.crop_left + sequence.crop_width <= sequence.width
    &&& sequence.crop_top + sequence.crop_height <= sequence.height
}

/// The bytes of an uncompressed frame before rounding to pages.
pub open spec fn linear_bytes(width: int, height: int) -> int {
    aligned(width, 128) * aligned(height, 32) + aligned(width, 128) * aligned(
        (height + 1) / 2,
        16,
    )
}

pub open spec fn layout_of(sequence: SequenceInfo) -> Result<Nv12Layout, &'static str> {
    let width = sequence.width as int;
    let height = sequence.height as int;
    if width == 0 || height == 0 {
        Err("qcom-venus-sc7180: invalid decoded dimensions")
    } else if width + 127 > u32::MAX || height + 31 > u32::MAX {
        Err("qcom-venus-sc7180: alignment overflows")
    } else if linear_bytes(width, height) + 4095 > u32::MAX {
        Err("qcom-venus-sc7180: NV12 layout overflows")
    } else {
        match ubwc_size(width, height) {
            Err(e) => Err(e),
            Ok(ubwc) => if !crop_is_valid(sequence) {
                Err("qcom-venus-sc7180: unsupported or invalid NV12 crop")
            } else {
                Ok(
                    Nv12Layout {
                        width: sequence.width,
                        height: sequence.height,
                        display_x: sequence.crop_left,
                        display_y: sequence.crop_top,
                        display_width: sequence.crop_width,
                        display_height: sequence.crop_height,
                        y_stride: aligned(width, 128) as u32,
                        y_scanlines: aligned(height, 32) as u32,
                        uv_scanlines: aligned((height + 1) / 2, 16) as u32,
                        linear_size: aligned(linear_bytes(width, height), 4096) as u32,
                        ubwc_size: ubwc as u32,
                    },
                )
            },
        }
    }
}

impl Nv12Layout {
    /// The planes hold the frame, and the frame holds what is shown.
    pub open spec fn wf(self) -> bool {
        &&& 0 < self.width <= self.y_stride
        &&& 0 < self.height <= self.y_scanlines
        &&& self.height <= 2 * self.uv_scanlines
        &&& self.y_stride * self.y_scanlines + self.y_stride * self.uv_scanlines
            <= self.linear_size
        &&& 0 < self.display_width && self.display_x + self.display_width <= self.width
        &&& 0 < self.display_height && self.display_y + self.display_height <= self.height
        &&& self.display_width % 2 == 0 && self.display_height % 2 == 0
    }

    pub fn new(sequence: SequenceInfo) -> (r: Result<Nv12Layout, &'static str>)
        ensures
            r == layout_of(sequence),
            r matches Ok(layout) ==> layout.wf(),
    {
        if sequence.width == 0 || sequence.height == 0 {
            return Err("qcom-venus-sc7180: invalid decoded dimensions");
        }
        proof {
            frame_alignments_are_powers_of_two();
        }
        let y_stride: u32 = align_up_u32(sequence.width, 128)?;
        let y_scanlines: u32 = align_up_u32(sequence.height, 32)?;
        let uv_scanlines: u32 = align_up_u32((sequence.height + 1) / 2, 16)?;
        assert(0 <= y_stride * uv_scanlines) by (nonlinear_arith);
        assert(0 <= y_stride * y_scanlines) by (nonlinear_arith);
        let linear_size: u32 = match (
            y_stride.checked_mul(y_scanlines),
            y_stride.checked_mul(uv_scanlines),
        ) {
            (Some(y), Some(uv)) => match y.checked_add(uv) {
                Some(size) => match align_up_u32(size, 4096) {
                    Ok(size) => size,
                    Err(_) => {
                        return Err("qcom-venus-sc7180: NV12 layout overflows");
                    },
                },
                None => {
                    return Err("qcom-venus-sc7180: NV12 layout overflows");
                },
            },
            _ => {
                return Err("qcom-venus-sc7180: NV12 layout overflows");
            },
        };
        let ubwc_size: u32 = nv12_ubwc_size(sequence.width, sequence.height)?;
        if sequence.crop_width == 0 || sequence.crop_height == 0 || sequence.crop_width % 2 != 0
            || sequence.crop_height % 2 != 0 || sequence.crop_left % 2 != 0 || sequence.crop_top % 2
            != 0 || sequence.crop_left > sequence.width || sequence.crop_top > sequence.height
            || sequence.crop_width > sequence.width - sequence.crop_left || sequence.crop_height
            > sequence.height - sequence.crop_top {
            return Err("qcom-venus-sc7180: unsupported or invalid NV12 crop");
        }
        Ok(
            Nv12Layout {
                width: sequence.width,
                height: sequence.height,
                display_x: sequence.crop_left,
                display_y: sequence.crop_top,
                display_width: sequence.crop_width,
                display_height: sequence.crop_height,
                y_stride,
                y_scanlines,
                uv_scanlines,
                linear_size,
                ubwc_size,
            },
        )
    }

    /// The layout of a frame that is shown whole.
    pub fn initial(width: u32, height: u32) -> (r: Result<Nv12Layout, &'static str>)
        ensures
            r == layout_of(whole_frame(width, height)),
            r matches Ok(layout) ==> layout.wf(),
    {
        Self::new(
            SequenceInfo {
                width,
                height,
                crop_left: 0,
                crop_top: 0,
                crop_width: width,
                crop_height: height,
                minimum_dpb_count: 0,
            },
        )
    }

    /// The bytes of the part that is shown, without padding.
    pub open spec fn tight_len(self) -> int {
        self.display_width * self.display_height + self.display_width * self.display_height / 2
    }

    pub fn tight_payload_len(&self) -> (r: Result<usize, &'static str>)
        ensures
            r == (if self.tight_len() > usize::MAX {
                Err::<usize, &'static str>("qcom-venus-sc7180: tight NV12 payload overflows")
            } else {
                Ok(self.tight_len() as usize)
            }),
    {
        assert(0 <= self.display_width * self.display_height) by (nonlinear_arith);
        match (self.display_width as usize).checked_mul(self.display_height as usize) {
            None => Err("qcom-venus-sc7180: tight NV12 payload overflows"),
            Some(y) => match y.checked_add(y / 2) {
                None => Err("qcom-venus-sc7180: tight NV12 payload overflows"),
                Some(length) => Ok(length),
            },
        }
    }
}

pub open spec fn whole_frame(width: u32, height: u32) -> SequenceInfo {
    SequenceInfo {
        width,
        height,
        crop_left: 0,
        crop_top: 0,
        crop_width: width,
        crop_height: height,
        minimum_dpb_count: 0,
    }
}

// Compaction.

/// Where row `row` of the shown part starts in an output buffer: the rows of
/// the luma plane, then those of the chroma plane.
pub open spec fn source_row(layout: Nv12Layout, offset: int, row: int) -> int {
    HARDWARE_OUTPUT_OFFSET + offset + layout.display_x + if row < layout.display_height {
        (layout.display_y + row) * layout.y_stride
    } else {
        layout.y_stride * layout.y_scanlines + (layout.display_y as int / 2 + row
            - layout.display_height) * layout.y_stride
    }
}

/// Where a row of the compacted frame starts.
pub open spec fn payload_row(layout: Nv12Layout, header_len: int, row: int) -> int {
    header_len + row * layout.display_width
}

pub open spec fn row_count(layout: Nv12Layout) -> int {
    layout.display_height + layout.display_height as int / 2
}

/// The payload of `after` is the shown part of the frame in `before`, row by
/// row without padding, and nothing else changed.
pub open spec fn is_compacted(
    before: Seq<u8>,
    after: Seq<u8>,
    header_len: int,
    layout: Nv12Layout,
    offset: int,
) -> bool {
    &&& after.len() == before.len()
    &&& forall|row: int, column: int|
        0 <= row < row_count(layout) && 0 <= column < layout.display_width
            ==> #[trigger] after[payload_row(layout, header_len, row) + column]
            == before[source_row(layout, offset, row) + column]
    &&& forall|i: int|
        0 <= i < before.len() && !(header_len <= i < header_len + layout.tight_len())
            ==> #[trigger] after[i] == before[i]
}

/// Why a completed buffer cannot be compacted, if it cannot.
pub open spec fn compaction_fault(
    capacity: int,
    header_len: int,
    layout: Nv12Layout,
    done: FillDone,
) -> Option<&'static str> {
    let y_len = layout.y_stride * layout.y_scanlines;
    let uv_len = layout.y_stride * layout.uv_scanlines;
    if done.stream_id != 1 {
        Some("qcom-venus-sc7180: completed buffer is not linear output2")
    } else if y_len > usize::MAX {
        Some("qcom-venus-sc7180: decoded Y plane overflows")
    } else if uv_len > usize::MAX {
        Some("qcom-venus-sc7180: decoded UV plane overflows")
    } else if done.offset + y_len + uv_len > capacity - HARDWARE_OUTPUT_OFFSET {
        Some("qcom-venus-sc7180: decoded frame exceeds output allocation")
    } else if layout.tight_len() > usize::MAX {
        Some("qcom-venus-sc7180: tight NV12 payload overflows")
    } else if layout.tight_len() > capacity - header_len {
        Some("qcom-venus-sc7180: compacted frame exceeds output payload")
    } else {
        None
    }
}

/// Rows are read at or after the place that they are written to, and inside
/// the planes.
proof fn rows_move_back(layout: Nv12Layout, header_len: int, offset: int, row: int)
    requires
        layout.wf(),
        0 <= header_len <= HARDWARE_OUTPUT_OFFSET,
        0 <= offset,
        0 <= row < row_count(layout),
    ensures
        payload_row(layout, header_len, row) <= source_row(layout, offset, row),
        payload_row(layout, header_len, row) + layout.display_width == payload_row(
            layout,
            header_len,
            row + 1,
        ),
        source_row(layout, offset, row) + layout.display_width <= HARDWARE_OUTPUT_OFFSET + offset
            + layout.y_stride * layout.y_scanlines + layout.y_stride * layout.uv_scanlines,
{
    let w = layout.display_width as int;
    let s = layout.y_stride as int;
    let h = layout.display_height as int;
    let y = layout.display_y as int;
    let ys = layout.y_scanlines as int;
    let us = layout.uv_scanlines as int;
    assert((row + 1) * w == row * w + w) by (nonlinear_arith);
    if row < h {
        assert(row * w <= (y + row) * s) by (nonlinear_arith)
            requires
                0 <= row,
                0 <= y,
                0 <= w <= s,
        ;
        assert((y + row) * s + s <= s * ys) by (nonlinear_arith)
            requires
                y + row + 1 <= ys,
                0 <= s,
        ;
        assert(0 <= s * us) by (nonlinear_arith)
            requires
                0 <= s,
                0 <= us,
        ;
    } else {
        let r = row - h;
        let half = y / 2;
        assert(row * w == h * w + r * w) by (nonlinear_arith)
            requires
                row == h + r,
        ;
        assert(h * w <= s * ys) by (nonlinear_arith)
            requires
                0 <= h <= ys,
                0 <= w <= s,
        ;
        assert(r * w <= (half + r) * s) by (nonlinear_arith)
            requires
                0 <= r,
                0 <= half,
                0 <= w <= s,
        ;
        assert((half + r) * s + s <= s * us) by (nonlinear_arith)
            requires
                half + r + 1 <= us,
                0 <= s,
        ;
    }
}

/// The rows fill the payload exactly.
proof fn rows_fill_the_payload(layout: Nv12Layout, header_len: int)
    requires
        layout.wf(),
    ensures
        payload_row(layout, header_len, 0) == header_len,
        payload_row(layout, header_len, row_count(layout)) == header_len + layout.tight_len(),
{
    let w = layout.display_width as int;
    let h = layout.display_height as int;
    assert(0 * w == 0);
    assert((h + h / 2) * w == w * h + w * h / 2) by (nonlinear_arith)
        requires
            h % 2 == 0,
            w >= 0,
            h >= 0,
    ;
}

/// Moves one row within the buffer, toward its start.
fn move_row(out: &mut [u8], to: usize, from: usize, count: usize)
    requires
        to <= from,
        from + count <= old(out)@.len() <= usize::MAX,
    ensures
        final(out)@.len() == old(out)@.len(),
        forall|i: int| 0 <= i < count ==> #[trigger] final(out)@[to + i] == old(out)@[from + i],
        forall|i: int|
            0 <= i < final(out)@.len() && !(to <= i < to + count) ==> #[trigger] final(out)@[i]
                == old(out)@[i],
{
    let ghost before = out@;
    let mut i: usize = 0;
    while i < count
        invariant
            i <= count,
            to <= from,
            from + count <= before.len() <= usize::MAX,
            out@.len() == before.len(),
            forall|j: int| to <= j < to + i ==> #[trigger] out@[j] == before[from + j - to],
            forall|j: int|
                0 <= j < before.len() && !(to <= j < to + i) ==> #[trigger] out@[j] == before[j],
        decreases count - i,
    {
        let byte: u8 = out[from + i];
        out[to + i] = byte;
        i += 1;
    }
    assert forall|i: int| 0 <= i < count implies #[trigger] out@[to + i] == before[from + i] by {
        let j = to + i;
        assert(out@[j] == before[from + j - to]);
    }
}

/// Where a row starts, computed.
fn source_row_at(layout: &Nv12Layout, offset: usize, row: usize) -> (r: usize)
    requires
        layout.wf(),
        row < row_count(*layout),
        HARDWARE_OUTPUT_OFFSET + offset + layout.y_stride * layout.y_scanlines + layout.y_stride
            * layout.uv_scanlines <= usize::MAX,
    ensures
        r == source_row(*layout, offset as int, row as int),
{
    proof {
        rows_move_back(*layout, 0, offset as int, row as int);
        let s = layout.y_stride as int;
        assert(0 <= s * layout.uv_scanlines && 0 <= s * layout.y_scanlines) by (nonlinear_arith)
            requires
                s >= 0,
        ;
        if row < layout.display_height {
            assert(0 <= (layout.display_y + row) * s) by (nonlinear_arith)
                requires
                    s >= 0,
                    layout.display_y >= 0,
                    row >= 0,
            ;
        } else {
            let half = layout.display_y as int / 2 + row - layout.display_height;
            assert(0 <= half * s) by (nonlinear_arith)
                requires
                    s >= 0,
                    half >= 0,
            ;
        }
    }
    let stride: usize = layout.y_stride as usize;
    let height: usize = layout.display_height as usize;
    let start: usize = HARDWARE_OUTPUT_OFFSET + offset + layout.display_x as usize;
    if row < height {
        start + (layout.display_y as usize + row) * stride
    } else {
        let chroma: usize = stride * layout.y_scanlines as usize;
        start + (chroma + (row - height + layout.display_y as usize / 2) * stride)
    }
}

/// Compacts a completed frame into the payload of its own buffer.
pub fn compact_nv12(
    out: &mut [u8],
    header_len: usize,
    layout: &Nv12Layout,
    done: &FillDone,
) -> (r: Result<(), &'static str>)
    requires
        layout.wf(),
        header_len <= HARDWARE_OUTPUT_OFFSET <= old(out)@.len(),
    ensures
        match r {
            Ok(_) => {
                &&& compaction_fault(
                    old(out)@.len() as int,
                    header_len as int,
                    *layout,
                    *done,
                ) is None
                &&& is_compacted(
                    old(out)@,
                    final(out)@,
                    header_len as int,
                    *layout,
                    done.offset as int,
                )
            },
            Err(e) => {
                &&& compaction_fault(old(out)@.len() as int, header_len as int, *layout, *done)
                    == Some(e)
                &&& final(out)@ == old(out)@
            },
        },
{
    if done.stream_id != 1 {
        return Err("qcom-venus-sc7180: completed buffer is not linear output2");
    }
    let capacity: usize = out.len();
    let offset: usize = done.offset as usize;
    proof {
        assert(0 <= layout.y_stride * layout.y_scanlines && 0 <= layout.y_stride
            * layout.uv_scanlines) by (nonlinear_arith);
    }
    let y_len: usize = match (layout.y_stride as usize).checked_mul(layout.y_scanlines as usize) {
        Some(length) => length,
        None => {
            return Err("qcom-venus-sc7180: decoded Y plane overflows");
        },
    };
    let uv_len: usize = match (layout.y_stride as usize).checked_mul(layout.uv_scanlines as usize) {
        Some(length) => length,
        None => {
            return Err("qcom-venus-sc7180: decoded UV plane overflows");
        },
    };
    let fits: bool = match offset.checked_add(y_len) {
        Some(end) => match end.checked_add(uv_len) {
            Some(end) => end <= capacity - HARDWARE_OUTPUT_OFFSET,
            None => false,
        },
        None => false,
    };
    if !fits {
        return Err("qcom-venus-sc7180: decoded frame exceeds output allocation");
    }
    let tight: usize = layout.tight_payload_len()?;
    if tight > capacity - header_len {
        return Err("qcom-venus-sc7180: compacted frame exceeds output payload");
    }
    let ghost before = out@;
    let ghost head = header_len as int;
    let width: usize = layout.display_width as usize;
    proof {
        rows_fill_the_payload(*layout, head);
        let count = row_count(*layout);
        assert(count <= count * layout.display_width) by (nonlinear_arith)
            requires
                count >= 0,
                layout.display_width >= 1,
        ;
    }
    let rows: usize = layout.display_height as usize + layout.display_height as usize / 2;
    let mut to: usize = header_len;
    let mut row: usize = 0;
    while row < rows
        invariant
            row <= rows == row_count(*layout),
            layout.wf(),
            head == header_len <= HARDWARE_OUTPUT_OFFSET <= before.len() == capacity,
            before == old(out)@,
            out@.len() == before.len(),
            width == layout.display_width,
            offset == done.offset,
            y_len == layout.y_stride * layout.y_scanlines,
            uv_len == layout.y_stride * layout.uv_scanlines,
            offset + y_len + uv_len <= capacity - HARDWARE_OUTPUT_OFFSET,
            to == payload_row(*layout, head, row as int),
            forall|r: int, c: int|
                0 <= r < row && 0 <= c < width ==> #[trigger] out@[payload_row(*layout, head, r)
                    + c] == before[source_row(*layout, offset as int, r) + c],
            forall|i: int|
                0 <= i < before.len() && !(head <= i < to) ==> #[trigger] out@[i] == before[i],
        decreases rows - row,
    {
        proof {
            rows_move_back(*layout, head, offset as int, row as int);
        }
        let from: usize = source_row_at(layout, offset, row);
        let ghost so_far = out@;
        move_row(out, to, from, width);
        proof {
            assert forall|r: int, c: int| 0 <= r < row + 1 && 0 <= c < width implies #[trigger] out@[
            payload_row(*layout, head, r) + c] == before[source_row(*layout, offset as int, r)
                + c] by {
                if r == row {
                    assert(out@[to + c] == so_far[from + c]);
                    assert(so_far[from + c] == before[from + c]);
                } else {
                    earlier_rows_end_before(*layout, head, r, row as int);
                    let at = payload_row(*layout, head, r) + c;
                    payload_rows_are_not_negative(*layout, head, r);
                    assert(out@[at] == so_far[at]);
                }
            }
        }
        to += width;
        row += 1;
    }
    Ok(())
}

proof fn payload_rows_are_not_negative(layout: Nv12Layout, head: int, row: int)
    requires
        0 <= head,
        0 <= row,
    ensures
        head <= payload_row(layout, head, row),
{
    assert(0 <= row * layout.display_width) by (nonlinear_arith)
        requires
            0 <= row,
    ;
}

proof fn earlier_rows_end_before(layout: Nv12Layout, head: int, earlier: int, later: int)
    requires
        0 <= earlier < later,
    ensures
        payload_row(layout, head, earlier) + layout.display_width <= payload_row(
            layout,
            head,
            later,
        ),
{
    let w = layout.display_width as int;
    assert(earlier * w + w <= later * w) by (nonlinear_arith)
        requires
            earlier + 1 <= later,
            w >= 0,
    ;
}

} // verus!
