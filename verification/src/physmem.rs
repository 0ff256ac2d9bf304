//! Physical-address resolution.
//!
//! The operating system exposes per-process page-table metadata as an array
//! of 64-bit entries, one per virtual page: bit 63 is the present flag and
//! the low 55 bits carry the page-frame number. Reading the entry for a page
//! is an input operation performed by the owner of the metadata handle; the
//! decoding of an entry into a physical bus address is pure and is verified
//! here.

use vstd::prelude::*;

use crate::errors::EnvError;

verus! {

/// Bit 63 of a pagemap entry: the page is present in physical memory.
pub open spec fn entry_present(entry: u64) -> bool {
    entry & 0x8000_0000_0000_0000 != 0
}

/// Bits 0 to 54 of a pagemap entry: the page-frame number.
pub open spec fn entry_pfn(entry: u64) -> u64 {
    entry & 0x7F_FFFF_FFFF_FFFF
}

/// The byte offset inside the page-table metadata array at which the entry
/// for the page containing `addr` sits: eight bytes per page.
pub fn pagemap_offset(addr: usize, page_size: usize) -> (r: usize)
    requires
        page_size >= 1,
        addr as int / page_size as int * 8 <= usize::MAX,
    ensures
        r == addr as int / page_size as int * 8,
{
    (addr / page_size) * 8
}

/// Decode the page-table metadata entry for the page containing `addr` into
/// the physical bus address backing `addr`.
///
/// Fails with `PageNotPresent` exactly when the present bit is unset, and
/// with `PageNotMapped` exactly when the page is present but its page-frame
/// number is zero. Otherwise the physical address is the frame number times
/// the page size plus the byte offset of `addr` within its page.
pub fn resolve_entry(entry: u64, addr: usize, page_size: usize) -> (r: Result<usize, EnvError>)
    requires
        page_size >= 1,
        entry_present(entry) && entry_pfn(entry) != 0 ==> entry_pfn(entry) * page_size + page_size
            <= usize::MAX + 1,
    ensures
        r == Err::<usize, EnvError>(EnvError::PageNotPresent) <==> !entry_present(entry),
        r == Err::<usize, EnvError>(EnvError::PageNotMapped) <==> entry_present(entry)
            && entry_pfn(entry) == 0,
        entry_present(entry) && entry_pfn(entry) != 0 ==> r == Ok::<usize, EnvError>(
            (entry_pfn(entry) * page_size + addr as int % page_size as int) as usize,
        ),
{
    if entry & 0x8000_0000_0000_0000 == 0 {
        return Err(EnvError::PageNotPresent);
    }
    let pfn = entry & 0x7F_FFFF_FFFF_FFFF;
    if pfn == 0 {
        return Err(EnvError::PageNotMapped);
    }
    proof {
        assert(entry_pfn(entry) <= entry_pfn(entry) * page_size) by (nonlinear_arith)
            requires
                page_size >= 1,
                entry_pfn(entry) >= 0,
        ;
    }
    let offset = addr % page_size;
    Ok((pfn as usize) * page_size + offset)
}

} // verus!
