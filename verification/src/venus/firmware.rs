//! MDT firmware images: loadable ELF32 segments, relocated into the reserved
//! firmware region.
//!
//! Hash segments are left out and zero-initialised tails are cleared.

use vstd::prelude::*;

use crate::bytes::{le16, le32, read_le_u16, read_le_u32};

verus! {

pub const ELF32_HEADER_SIZE: usize = 52;

pub const ELF32_PROGRAM_HEADER_SIZE: usize = 32;

pub const PT_LOAD: u32 = 1;

#[derive(Clone, Copy, Debug, Eq, PartialEq, Structural)]
pub struct ProgramHeader {
    pub p_type: u32,
    pub offset: u32,
    pub paddr: u32,
    pub file_size: u32,
    pub mem_size: u32,
    pub flags: u32,
}

/// Loaded, not a hash, and not empty. The segment kind is in bits 24 to 26
/// of the flags; kind 2 is a hash.
pub open spec fn is_loadable(header: ProgramHeader) -> bool {
    header.p_type == PT_LOAD && header.flags as int / 0x100_0000 % 8 != 2 && header.mem_size != 0
}

/// Bit 27 of the flags marks a relocatable image.
pub open spec fn is_relocatable(header: ProgramHeader) -> bool {
    header.flags as int / 0x800_0000 % 2 == 1
}

impl ProgramHeader {
    pub fn loadable(self) -> (r: bool)
        ensures
            r == is_loadable(self),
    {
        self.p_type == PT_LOAD && self.flags / 0x100_0000 % 8 != 2 && self.mem_size != 0
    }
}

/// A file is taken in whole: it must hold something and fit the region.
pub fn check_file_size(size: usize, maximum_size: usize) -> (r: Result<(), &'static str>)
    ensures
        r == (if size == 0 || size > maximum_size {
            Err::<(), &'static str>("qcom-venus-sc7180: firmware file size is invalid")
        } else {
            Ok(())
        }),
{
    if size == 0 || size > maximum_size {
        return Err("qcom-venus-sc7180: firmware file size is invalid");
    }
    Ok(())
}

/// The next offset after a read of `read` bytes at `offset`.
pub fn advance_read(offset: usize, read: usize) -> (r: Result<usize, &'static str>)
    ensures
        r == (if read == 0 {
            Err::<usize, &'static str>("qcom-venus-sc7180: firmware ended early")
        } else if offset + read > usize::MAX {
            Err("qcom-venus-sc7180: firmware read offset overflows")
        } else {
            Ok((offset + read) as usize)
        }),
{
    if read == 0 {
        return Err("qcom-venus-sc7180: firmware ended early");
    }
    match offset.checked_add(read) {
        Some(next) => Ok(next),
        None => Err("qcom-venus-sc7180: firmware read offset overflows"),
    }
}

// Headers.

pub open spec fn table_offset(bytes: Seq<u8>) -> int {
    le32(bytes, 28)
}

pub open spec fn header_count(bytes: Seq<u8>) -> int {
    le16(bytes, 44)
}

/// Why an image's headers are refused, if they are.
pub open spec fn image_fault(bytes: Seq<u8>) -> Option<&'static str> {
    if bytes.len() < ELF32_HEADER_SIZE || bytes[0] != 0x7f || bytes[1] != 0x45 || bytes[2] != 0x4c
        || bytes[3] != 0x46 || bytes[4] != 1 || bytes[5] != 1 {
        Some("qcom-venus-sc7180: firmware is not little-endian ELF32")
    } else if le16(bytes, 42) != ELF32_PROGRAM_HEADER_SIZE || header_count(bytes) == 0 {
        Some("qcom-venus-sc7180: unsupported ELF program-header table")
    } else if table_offset(bytes) + ELF32_PROGRAM_HEADER_SIZE * header_count(bytes) > usize::MAX {
        Some("qcom-venus-sc7180: ELF program-header table overflows")
    } else if table_offset(bytes) + ELF32_PROGRAM_HEADER_SIZE * header_count(bytes) > bytes.len() {
        Some("qcom-venus-sc7180: truncated ELF program-header table")
    } else {
        None
    }
}

pub open spec fn header_in(bytes: Seq<u8>, index: int) -> ProgramHeader {
    let base = table_offset(bytes) + ELF32_PROGRAM_HEADER_SIZE * index;
    ProgramHeader {
        p_type: le32(bytes, base) as u32,
        offset: le32(bytes, base + 4) as u32,
        paddr: le32(bytes, base + 12) as u32,
        file_size: le32(bytes, base + 16) as u32,
        mem_size: le32(bytes, base + 20) as u32,
        flags: le32(bytes, base + 24) as u32,
    }
}

pub open spec fn headers_in(bytes: Seq<u8>, count: int) -> Seq<ProgramHeader> {
    Seq::new(count as nat, |i: int| header_in(bytes, i))
}

fn read_program_header(bytes: &[u8], base: usize) -> (r: Option<ProgramHeader>)
    requires
        base + ELF32_PROGRAM_HEADER_SIZE <= bytes@.len() <= usize::MAX,
    ensures
        r == Some(
            ProgramHeader {
                p_type: le32(bytes@, base as int) as u32,
                offset: le32(bytes@, base + 4) as u32,
                paddr: le32(bytes@, base + 12) as u32,
                file_size: le32(bytes@, base + 16) as u32,
                mem_size: le32(bytes@, base + 20) as u32,
                flags: le32(bytes@, base + 24) as u32,
            },
        ),
{
    Some(
        ProgramHeader {
            p_type: read_le_u32(bytes, base)?,
            offset: read_le_u32(bytes, base + 4)?,
            paddr: read_le_u32(bytes, base + 12)?,
            file_size: read_le_u32(bytes, base + 16)?,
            mem_size: read_le_u32(bytes, base + 20)?,
            flags: read_le_u32(bytes, base + 24)?,
        },
    )
}

pub fn program_headers(bytes: &[u8]) -> (r: Result<Vec<ProgramHeader>, &'static str>)
    ensures
        match r {
            Ok(headers) => {
                &&& image_fault(bytes@) is None
                &&& headers@ == headers_in(bytes@, header_count(bytes@))
            },
            Err(e) => image_fault(bytes@) == Some(e),
        },
{
    let length: usize = bytes.len();
    if length < ELF32_HEADER_SIZE || bytes[0] != 0x7f || bytes[1] != 0x45 || bytes[2] != 0x4c
        || bytes[3] != 0x46 || bytes[4] != 1 || bytes[5] != 1 {
        return Err("qcom-venus-sc7180: firmware is not little-endian ELF32");
    }
    let phoff: usize = match read_le_u32(bytes, 28) {
        Some(value) => value as usize,
        None => {
            return Err("qcom-venus-sc7180: malformed ELF program-header offset");
        },
    };
    let phentsize: usize = match read_le_u16(bytes, 42) {
        Some(value) => value as usize,
        None => {
            return Err("qcom-venus-sc7180: malformed ELF program-header size");
        },
    };
    let phnum: usize = match read_le_u16(bytes, 44) {
        Some(value) => value as usize,
        None => {
            return Err("qcom-venus-sc7180: malformed ELF program-header count");
        },
    };
    if phentsize != ELF32_PROGRAM_HEADER_SIZE || phnum == 0 {
        return Err("qcom-venus-sc7180: unsupported ELF program-header table");
    }
    let table_end: usize = match phoff.checked_add(ELF32_PROGRAM_HEADER_SIZE * phnum) {
        Some(end) => end,
        None => {
            return Err("qcom-venus-sc7180: ELF program-header table overflows");
        },
    };
    if table_end > length {
        return Err("qcom-venus-sc7180: truncated ELF program-header table");
    }
    let mut headers: Vec<ProgramHeader> = Vec::new();
    let mut index: usize = 0;
    while index < phnum
        invariant
            index <= phnum <= u16::MAX,
            length == bytes@.len(),
            phoff == table_offset(bytes@),
            phnum == header_count(bytes@),
            phoff + ELF32_PROGRAM_HEADER_SIZE * phnum <= length,
            image_fault(bytes@) is None,
            headers@ == headers_in(bytes@, index as int),
        decreases phnum - index,
    {
        match read_program_header(bytes, phoff + ELF32_PROGRAM_HEADER_SIZE * index) {
            Some(header) => headers.push(header),
            None => {
                return Err("qcom-venus-sc7180: truncated ELF program header");
            },
        }
        index += 1;
        assert(headers@ =~= headers_in(bytes@, index as int));
    }
    Ok(headers)
}

// Placement.

/// The span of loadable segments, and whether one of them is relocatable.
#[derive(Clone, Copy, Debug, Eq, PartialEq, Structural)]
pub struct ImageBounds {
    pub minimum: u32,
    pub maximum: u32,
    pub relocatable: bool,
}

/// The bounds over all headers; `None` where a segment ends past 32 bits.
pub open spec fn bounds_of(headers: Seq<ProgramHeader>) -> Option<ImageBounds>
    decreases headers.len(),
{
    if headers.len() == 0 {
        Some(ImageBounds { minimum: u32::MAX, maximum: 0, relocatable: false })
    } else {
        let header = headers.last();
        match bounds_of(headers.drop_last()) {
            None => None,
            Some(bounds) => if !is_loadable(header) {
                Some(bounds)
            } else if header.paddr + header.mem_size > u32::MAX {
                None
            } else {
                Some(
                    ImageBounds {
                        minimum: if header.paddr < bounds.minimum {
                            header.paddr
                        } else {
                            bounds.minimum
                        },
                        maximum: if header.paddr + header.mem_size > bounds.maximum {
                            (header.paddr + header.mem_size) as u32
                        } else {
                            bounds.maximum
                        },
                        relocatable: bounds.relocatable || is_relocatable(header),
                    },
                )
            },
        }
    }
}

proof fn overflow_stays(headers: Seq<ProgramHeader>, count: int)
    requires
        0 <= count <= headers.len(),
        bounds_of(headers.take(count)) is None,
    ensures
        bounds_of(headers) is None,
    decreases headers.len() - count,
{
    if count < headers.len() {
        assert(headers.take(count + 1).drop_last() =~= headers.take(count));
        overflow_stays(headers, count + 1);
    } else {
        assert(headers.take(count) =~= headers);
    }
}

pub fn image_bounds(headers: &Vec<ProgramHeader>) -> (r: Option<ImageBounds>)
    ensures
        r == bounds_of(headers@),
{
    let mut bounds = ImageBounds { minimum: u32::MAX, maximum: 0, relocatable: false };
    let mut i: usize = 0;
    assert(headers@.take(0) =~= Seq::empty());
    while i < headers.len()
        invariant
            i <= headers@.len(),
            bounds_of(headers@.take(i as int)) == Some(bounds),
        decreases headers@.len() - i,
    {
        let header = headers[i];
        assert(headers@.take(i + 1).drop_last() =~= headers@.take(i as int));
        if header.loadable() {
            let end: u32 = match header.paddr.checked_add(header.mem_size) {
                Some(end) => end,
                None => {
                    proof {
                        overflow_stays(headers@, i + 1);
                    }
                    return None;
                },
            };
            if header.paddr < bounds.minimum {
                bounds.minimum = header.paddr;
            }
            if end > bounds.maximum {
                bounds.maximum = end;
            }
            bounds.relocatable = bounds.relocatable || header.flags / 0x800_0000 % 2 == 1;
        }
        i += 1;
    }
    assert(headers@.take(headers@.len() as int) =~= headers@);
    Some(bounds)
}

/// Where a segment goes: its address less the base. A relocatable image is
/// based at its lowest address, any other at the region.
pub open spec fn relocation_base(bounds: ImageBounds, region_paddr: usize) -> int {
    if bounds.relocatable {
        bounds.minimum as int
    } else {
        region_paddr as int
    }
}

/// Why a segment cannot be loaded, if it cannot.
pub open spec fn segment_fault(
    header: ProgramHeader,
    base: int,
    region_size: int,
    file_size: int,
) -> Option<&'static str> {
    if header.file_size > header.mem_size {
        Some("qcom-venus-sc7180: firmware segment file size exceeds memory size")
    } else if header.paddr < base {
        Some("qcom-venus-sc7180: firmware segment precedes relocation base")
    } else if header.paddr - base + header.mem_size > usize::MAX {
        Some("qcom-venus-sc7180: firmware destination range overflows")
    } else if header.paddr - base + header.mem_size > region_size {
        Some("qcom-venus-sc7180: firmware segment is outside reserved memory")
    } else if header.offset + header.file_size > usize::MAX {
        Some("qcom-venus-sc7180: firmware source range overflows")
    } else if header.offset + header.file_size > file_size {
        Some("qcom-venus-sc7180: split or truncated MDT image is unsupported")
    } else {
        None
    }
}

/// The region with `count` bytes of the file copied in.
pub open spec fn with_bytes(
    region: Seq<u8>,
    at: int,
    bytes: Seq<u8>,
    from: int,
    count: int,
) -> Seq<u8> {
    Seq::new(
        region.len(),
        |i: int|
            if at <= i < at + count {
                bytes[from + i - at]
            } else {
                region[i]
            },
    )
}

/// Loads the segments of a list in order, up to the first that cannot be.
pub open spec fn load_segments(
    region: Seq<u8>,
    bytes: Seq<u8>,
    headers: Seq<ProgramHeader>,
    base: int,
) -> (Seq<u8>, Option<&'static str>)
    decreases headers.len(),
{
    if headers.len() == 0 {
        (region, None)
    } else {
        let (before, failed) = load_segments(region, bytes, headers.drop_last(), base);
        let header = headers.last();
        if failed is Some || !is_loadable(header) {
            (before, failed)
        } else {
            let fault = segment_fault(header, base, region.len() as int, bytes.len() as int);
            if fault is Some {
                (before, fault)
            } else {
                (
                    with_bytes(
                        before,
                        header.paddr - base,
                        bytes,
                        header.offset as int,
                        header.file_size as int,
                    ),
                    None,
                )
            }
        }
    }
}

proof fn failure_stays(
    region: Seq<u8>,
    bytes: Seq<u8>,
    headers: Seq<ProgramHeader>,
    base: int,
    count: int,
)
    requires
        0 <= count <= headers.len(),
        load_segments(region, bytes, headers.take(count), base).1 is Some,
    ensures
        load_segments(region, bytes, headers, base) == load_segments(
            region,
            bytes,
            headers.take(count),
            base,
        ),
    decreases headers.len() - count,
{
    if count < headers.len() {
        assert(headers.take(count + 1).drop_last() =~= headers.take(count));
        failure_stays(region, bytes, headers, base, count + 1);
    } else {
        assert(headers.take(count) =~= headers);
    }
}

fn check_segment(
    header: ProgramHeader,
    base: usize,
    region_size: usize,
    file_size: usize,
) -> (r: Result<usize, &'static str>)
    ensures
        match r {
            Ok(at) => {
                &&& segment_fault(header, base as int, region_size as int, file_size as int) is None
                &&& at == header.paddr - base
            },
            Err(e) => segment_fault(header, base as int, region_size as int, file_size as int)
                == Some(e),
        },
{
    if header.file_size > header.mem_size {
        return Err("qcom-venus-sc7180: firmware segment file size exceeds memory size");
    }
    let paddr: usize = header.paddr as usize;
    if paddr < base {
        return Err("qcom-venus-sc7180: firmware segment precedes relocation base");
    }
    let at: usize = paddr - base;
    let end: usize = match at.checked_add(header.mem_size as usize) {
        Some(end) => end,
        None => {
            return Err("qcom-venus-sc7180: firmware destination range overflows");
        },
    };
    if end > region_size {
        return Err("qcom-venus-sc7180: firmware segment is outside reserved memory");
    }
    let source_end: usize = match (header.offset as usize).checked_add(header.file_size as usize) {
        Some(end) => end,
        None => {
            return Err("qcom-venus-sc7180: firmware source range overflows");
        },
    };
    if source_end > file_size {
        return Err("qcom-venus-sc7180: split or truncated MDT image is unsupported");
    }
    Ok(at)
}

fn copy_into(region: &mut [u8], at: usize, bytes: &[u8], from: usize, count: usize)
    requires
        at + count <= old(region)@.len() <= usize::MAX,
        from + count <= bytes@.len() <= usize::MAX,
    ensures
        final(region)@ == with_bytes(
            old(region)@,
            at as int,
            bytes@,
            from as int,
            count as int,
        ),
{
    let ghost before = region@;
    let mut i: usize = 0;
    assert(region@ =~= with_bytes(before, at as int, bytes@, from as int, 0));
    while i < count
        invariant
            i <= count,
            at + count <= before.len() <= usize::MAX,
            from + count <= bytes@.len() <= usize::MAX,
            region@ == with_bytes(before, at as int, bytes@, from as int, i as int),
        decreases count - i,
    {
        region[at + i] = bytes[from + i];
        i += 1;
        assert(region@ =~= with_bytes(before, at as int, bytes@, from as int, i as int));
    }
}

fn clear(region: &mut [u8])
    ensures
        final(region)@ == Seq::new(old(region)@.len(), |i: int| 0u8),
{
    let length: usize = region.len();
    let mut i: usize = 0;
    while i < length
        invariant
            i <= length == region@.len() == old(region)@.len(),
            forall|j: int| 0 <= j < i ==> region@[j] == 0,
        decreases length - i,
    {
        region[i] = 0;
        i += 1;
    }
    assert(region@ =~= Seq::new(old(region)@.len(), |i: int| 0u8));
}

pub open spec fn zeros(count: nat) -> Seq<u8> {
    Seq::new(count, |i: int| 0u8)
}

/// Why an image is refused before the region is touched, if it is.
pub open spec fn span_fault(headers: Seq<ProgramHeader>, region_size: int) -> Option<&'static str> {
    match bounds_of(headers) {
        None => Some("qcom-venus-sc7180: firmware segment address overflows"),
        Some(bounds) => if bounds.minimum >= bounds.maximum {
            Some("qcom-venus-sc7180: firmware has no loadable segments")
        } else if bounds.maximum - bounds.minimum > region_size {
            Some("qcom-venus-sc7180: reserved firmware region is too small")
        } else {
            None
        },
    }
}

/// Loads an image into the region, and gives the span of its loadable
/// segments. What is not a segment's file content is zero. Where a segment is
/// refused, those before it stay loaded.
pub fn load_into_reserved_region(bytes: &[u8], region: &mut [u8], region_paddr: usize) -> (r: Result<
    usize,
    &'static str,
>)
    ensures
        ({
            let headers = headers_in(bytes@, header_count(bytes@));
            let early = if image_fault(bytes@) is Some {
                image_fault(bytes@)
            } else {
                span_fault(headers, old(region)@.len() as int)
            };
            if early is Some {
                &&& r == Err::<usize, &'static str>(early->Some_0)
                &&& final(region)@ == old(region)@
            } else {
                let bounds = bounds_of(headers)->Some_0;
                let (loaded, failed) = load_segments(
                    zeros(old(region)@.len()),
                    bytes@,
                    headers,
                    relocation_base(bounds, region_paddr),
                );
                &&& final(region)@ == loaded
                &&& r == (if failed is Some {
                    Err::<usize, &'static str>(failed->Some_0)
                } else {
                    Ok((bounds.maximum - bounds.minimum) as usize)
                })
            }
        }),
{
    let headers = program_headers(bytes)?;
    let bounds = match image_bounds(&headers) {
        Some(bounds) => bounds,
        None => {
            return Err("qcom-venus-sc7180: firmware segment address overflows");
        },
    };
    if bounds.minimum >= bounds.maximum {
        return Err("qcom-venus-sc7180: firmware has no loadable segments");
    }
    let base: usize = if bounds.relocatable {
        bounds.minimum as usize
    } else {
        region_paddr
    };
    let image_span: usize = (bounds.maximum - bounds.minimum) as usize;
    let region_size: usize = region.len();
    if image_span > region_size {
        return Err("qcom-venus-sc7180: reserved firmware region is too small");
    }
    let file_size: usize = bytes.len();
    clear(region);
    let ghost start = region@;
    assert(start == zeros(old(region)@.len()));
    let mut i: usize = 0;
    assert(headers@.take(0) =~= Seq::empty());
    while i < headers.len()
        invariant
            i <= headers@.len(),
            image_fault(bytes@) is None,
            headers@ == headers_in(bytes@, header_count(bytes@)),
            span_fault(headers@, old(region)@.len() as int) is None,
            bounds_of(headers@) == Some(bounds),
            base == relocation_base(bounds, region_paddr),
            region_size == old(region)@.len(),
            file_size == bytes@.len(),
            start == zeros(old(region)@.len()),
            region@.len() == region_size,
            load_segments(start, bytes@, headers@.take(i as int), base as int) == (
                region@,
                None::<&'static str>,
            ),
        decreases headers@.len() - i,
    {
        let header = headers[i];
        assert(headers@.take(i + 1).drop_last() =~= headers@.take(i as int));
        if header.loadable() {
            match check_segment(header, base, region_size, file_size) {
                Ok(at) => copy_into(
                    region,
                    at,
                    bytes,
                    header.offset as usize,
                    header.file_size as usize,
                ),
                Err(e) => {
                    proof {
                        failure_stays(start, bytes@, headers@, base as int, i + 1);
                    }
                    return Err(e);
                },
            }
        }
        i += 1;
    }
    assert(headers@.take(headers@.len() as int) =~= headers@);
    Ok(image_span)
}

// Laws.

/// Once an image is loaded, every loadable segment lies inside the region,
/// and its file content inside the file.
pub proof fn loaded_segments_lie_inside(
    region: Seq<u8>,
    bytes: Seq<u8>,
    headers: Seq<ProgramHeader>,
    base: int,
    index: int,
)
    requires
        load_segments(region, bytes, headers, base).1 is None,
        0 <= index < headers.len(),
        is_loadable(headers[index]),
    ensures
        0 <= headers[index].paddr - base,
        headers[index].paddr - base + headers[index].mem_size <= region.len(),
        headers[index].offset + headers[index].file_size <= bytes.len(),
        headers[index].file_size <= headers[index].mem_size,
    decreases headers.len(),
{
    if index < headers.len() - 1 {
        assert(headers.drop_last()[index] == headers[index]);
        loaded_segments_lie_inside(region, bytes, headers.drop_last(), base, index);
    }
}

/// A byte of the region that no segment's file content covers keeps its
/// value, which is zero where an image is loaded.
pub proof fn uncovered_bytes_stay(
    region: Seq<u8>,
    bytes: Seq<u8>,
    headers: Seq<ProgramHeader>,
    base: int,
    at: int,
)
    requires
        0 <= at < region.len(),
        forall|i: int|
            0 <= i < headers.len() && is_loadable(#[trigger] headers[i]) ==> !(headers[i].paddr
                - base <= at < headers[i].paddr - base + headers[i].file_size),
    ensures
        load_segments(region, bytes, headers, base).0.len() == region.len(),
        load_segments(region, bytes, headers, base).0[at] == region[at],
    decreases headers.len(),
{
    if headers.len() > 0 {
        assert forall|i: int|
            0 <= i < headers.drop_last().len() && is_loadable(
                #[trigger] headers.drop_last()[i],
            ) implies !(headers.drop_last()[i].paddr - base <= at
            < headers.drop_last()[i].paddr - base + headers.drop_last()[i].file_size) by {
            assert(headers.drop_last()[i] == headers[i]);
        }
        uncovered_bytes_stay(region, bytes, headers.drop_last(), base, at);
        assert(headers.last() == headers[headers.len() - 1]);
    }
}

} // verus!
