//! Erase planner: pure computation of which flash pages an address range
//! touches. No I/O happens here.

use vstd::prelude::*;

verus! {

/// The index of the first page a transfer starting at `address` touches.
pub open spec fn start_page_spec(base_address: u32, page_size: u32, address: u32) -> int
    recommends
        page_size > 0,
        address >= base_address,
{
    (address - base_address) / (page_size as int)
}

/// How many pages `length` bytes cover, rounding up.
pub open spec fn page_count_spec(page_size: u32, length: u32) -> int
    recommends
        page_size > 0,
{
    (length + page_size - 1) / (page_size as int)
}

/// The contiguous page range a transfer of `length` bytes at `address`
/// touches, given the device's flash base address and page size.
pub open spec fn range_pages(base_address: u32, page_size: u32, address: u32, length: u32) -> Seq<
    u32,
>
    recommends
        page_size > 0,
        address >= base_address,
        start_page_spec(base_address, page_size, address) + page_count_spec(page_size, length)
            <= u32::MAX,
{
    Seq::new(
        page_count_spec(page_size, length) as nat,
        |i: int| (start_page_spec(base_address, page_size, address) + i) as u32,
    )
}

/// Computes the contiguous range of page indices a transfer touches:
/// `length` bytes starting at `address`, on a device whose flash starts at
/// `base_address` and is paged in `page_size`-byte units.
pub fn pages_for_range(base_address: u32, page_size: u32, address: u32, length: u32) -> (pages:
    Vec<u32>)
    requires
        page_size > 0,
        address >= base_address,
        start_page_spec(base_address, page_size, address) + page_count_spec(page_size, length)
            <= u32::MAX,
    ensures
        pages@ == range_pages(base_address, page_size, address, length),
        pages@.len() == page_count_spec(page_size, length),
        forall|i: int|
            0 <= i < pages@.len() ==> pages@[i] == start_page_spec(
                base_address,
                page_size,
                address,
            ) + i,
{
    let start: u32 = (address - base_address) / page_size;
    let count_wide: u64 = (length as u64 + page_size as u64 - 1) / (page_size as u64);
    proof {
        assert(count_wide == page_count_spec(page_size, length));
        assert(start == start_page_spec(base_address, page_size, address));
    }
    let count: u32 = count_wide as u32;
    let mut pages: Vec<u32> = Vec::new();
    let mut i: u32 = 0;
    while i < count
        invariant
            i <= count,
            start == start_page_spec(base_address, page_size, address),
            count == page_count_spec(page_size, length),
            start + count <= u32::MAX,
            pages@.len() == i,
            forall|k: int| 0 <= k < i ==> pages@[k] == start + k,
        decreases count - i,
    {
        pages.push(start + i);
        i = i + 1;
    }
    proof {
        assert(pages@ =~= range_pages(base_address, page_size, address, length));
    }
    pages
}

} // verus!
