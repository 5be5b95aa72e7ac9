//! Sizes and ranges of memory that the decoder reaches by DMA.

use vstd::prelude::*;

verus! {

pub const PAGE_SIZE: usize = 4096;

/// Pages that hold `size` bytes; nothing to allocate is refused.
pub fn page_count(size: usize) -> (r: Result<usize, &'static str>)
    ensures
        r == (if size == 0 || size + (PAGE_SIZE - 1) > usize::MAX {
            Err::<usize, &'static str>("qcom-venus-sc7180: DMA allocation size overflows")
        } else {
            Ok(((size + (PAGE_SIZE - 1)) / PAGE_SIZE as int) as usize)
        }),
{
    match size.checked_add(PAGE_SIZE - 1) {
        Some(sum) => {
            let pages: usize = sum / PAGE_SIZE;
            if pages == 0 {
                return Err("qcom-venus-sc7180: DMA allocation size overflows");
            }
            Ok(pages)
        },
        None => Err("qcom-venus-sc7180: DMA allocation size overflows"),
    }
}

/// The bytes that an allocation of whole pages holds.
pub fn allocation_size(pages: usize) -> (r: Result<usize, &'static str>)
    ensures
        r == (if pages * PAGE_SIZE > usize::MAX {
            Err::<usize, &'static str>("qcom-venus-sc7180: DMA allocation length overflows")
        } else {
            Ok((pages * PAGE_SIZE) as usize)
        }),
{
    match pages.checked_mul(PAGE_SIZE) {
        Some(size) => Ok(size),
        None => Err("qcom-venus-sc7180: DMA allocation length overflows"),
    }
}

/// The firmware takes 32-bit bus addresses.
pub fn firmware_address(dma_addr: u64) -> (r: Result<u32, &'static str>)
    ensures
        r == (if dma_addr > u32::MAX {
            Err::<u32, &'static str>("qcom-venus-sc7180: firmware requires a 32-bit DMA address")
        } else {
            Ok(dma_addr as u32)
        }),
{
    if dma_addr > u32::MAX as u64 {
        return Err("qcom-venus-sc7180: firmware requires a 32-bit DMA address");
    }
    Ok(dma_addr as u32)
}

/// Whether a range of an allocation may be cleaned.
pub fn check_clean(offset: usize, len: usize, allocation_size: usize) -> (r: Result<
    (),
    &'static str,
>)
    ensures
        r == (if offset + len > usize::MAX {
            Err::<(), &'static str>("qcom-venus-sc7180: cache clean range overflows")
        } else if offset + len > allocation_size {
            Err("qcom-venus-sc7180: cache clean range is out of bounds")
        } else {
            Ok(())
        }),
{
    match offset.checked_add(len) {
        None => Err("qcom-venus-sc7180: cache clean range overflows"),
        Some(end) => {
            if end > allocation_size {
                return Err("qcom-venus-sc7180: cache clean range is out of bounds");
            }
            Ok(())
        },
    }
}

/// Whether a range of an allocation may be invalidated.
pub fn check_invalidate(offset: usize, len: usize, allocation_size: usize) -> (r: Result<
    (),
    &'static str,
>)
    ensures
        r == (if offset + len > usize::MAX {
            Err::<(), &'static str>("qcom-venus-sc7180: cache invalidate range overflows")
        } else if offset + len > allocation_size {
            Err("qcom-venus-sc7180: cache invalidate range is out of bounds")
        } else {
            Ok(())
        }),
{
    match offset.checked_add(len) {
        None => Err("qcom-venus-sc7180: cache invalidate range overflows"),
        Some(end) => {
            if end > allocation_size {
                return Err("qcom-venus-sc7180: cache invalidate range is out of bounds");
            }
            Ok(())
        },
    }
}

/// An allocation holds what it was asked for, and less than a page more.
pub proof fn pages_cover_the_request(size: usize)
    requires
        size > 0,
        size + (PAGE_SIZE - 1) <= usize::MAX,
    ensures
        ({
            let pages = (size + (PAGE_SIZE - 1)) / PAGE_SIZE as int;
            size <= pages * PAGE_SIZE < size + PAGE_SIZE
        }),
{
}

} // verus!
