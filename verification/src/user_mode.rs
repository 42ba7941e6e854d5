//! Entering user mode: the pages user code must be able to reach, and the
//! ring-3 segment selectors it runs with.

use vstd::prelude::*;
use x86_64::registers::segmentation::SegmentSelector;
use x86_64::PrivilegeLevel;

verus! {

/// Size of one page.
pub const PAGE_SIZE: u64 = 4096;

/// Size of the stack user code starts on.
pub const USER_STACK_SIZE: usize = 4096 * 4;

/// `SegmentSelector::index` (x86_64): the descriptor index of a selector,
/// its bits 15:3.
#[verifier::external_body]
fn selector_index(selector: u16) -> (r: u16)
    ensures
        r == selector >> 3u16,
{
    SegmentSelector(selector).index()
}

/// `SegmentSelector::new(index, PrivilegeLevel::Ring3)` (x86_64): the
/// selector of descriptor `index` with requested privilege level 3.
#[verifier::external_body]
fn ring3_selector(index: u16) -> (r: u16)
    ensures
        r == (index << 3u16) | 3u16,
{
    SegmentSelector::new(index, PrivilegeLevel::Ring3).0
}

/// The selector user code loads for the GDT entry that `selector` names:
/// the same descriptor, requested at privilege level 3.
pub fn user_selector(selector: u16) -> (r: u16)
    ensures
        r == (selector & 0xFFF8u16) | 3u16,
{
    let index = selector_index(selector);
    let r = ring3_selector(index);
    assert(r == (selector & 0xFFF8u16) | 3u16) by (bit_vector)
        requires
            index == selector >> 3u16,
            r == (index << 3u16) | 3u16,
    ;
    r
}

/// The page addresses a walk from `addr` to `end` visits, one page at a
/// time, stopping at the first address at or past `end`.
pub open spec fn page_walk(addr: int, end: int) -> Seq<u64>
    decreases (if addr < end { end - addr } else { 0 }),
{
    if addr < end {
        seq![addr as u64] + page_walk(addr + PAGE_SIZE, end)
    } else {
        Seq::empty()
    }
}

/// Every address of a walk lies in `addr..end`.
pub proof fn lemma_page_walk_bounds(addr: int, end: int)
    requires
        0 <= addr,
        end <= u64::MAX,
    ensures
        forall|i: int| 0 <= i < page_walk(addr, end).len() ==> addr <= #[trigger] page_walk(addr, end)[i] < end,
    decreases (if addr < end { end - addr } else { 0 }),
{
    if addr < end {
        lemma_page_walk_bounds(addr + PAGE_SIZE, end);
        let rest = page_walk(addr + PAGE_SIZE, end);
        assert forall|i: int| 0 <= i < page_walk(addr, end).len() implies addr <= #[trigger] page_walk(addr, end)[i]
            < end by {
            if i > 0 {
                assert(page_walk(addr, end)[i] == rest[i - 1]);
            }
        }
    }
}

/// Appends the pages of the walk from `start` to `end` to `pages`.
fn push_page_walk(pages: &mut Vec<u64>, start: u64, end: u64)
    requires
        end + PAGE_SIZE <= u64::MAX,
    ensures
        final(pages)@ == old(pages)@ + page_walk(start as int, end as int),
{
    let mut addr = start;
    while addr < end
        invariant
            end + PAGE_SIZE <= u64::MAX,
            pages@ + page_walk(addr as int, end as int) == old(pages)@ + page_walk(start as int, end as int),
        decreases (if addr < end { end - addr } else { 0 }),
    {
        let ghost before = pages@;
        pages.push(addr);
        proof {
            assert(before + page_walk(addr as int, end as int) =~= pages@ + page_walk(addr + PAGE_SIZE, end as int));
        }
        addr = addr + PAGE_SIZE;
    }
    proof {
        assert(pages@ + page_walk(addr as int, end as int) =~= pages@);
    }
}

/// The pages user code must reach, in the order the kernel opens them up:
/// the page holding the entry point, the top page of the user stack (which
/// ends at `stack_top`), every page of the kernel image, which starts at
/// `kernel_start` and is `kernel_len` bytes long, and every page of the heap
/// `heap_bottom..heap_top`.
pub fn user_pages(
    entry: u64,
    stack_top: u64,
    kernel_start: u64,
    kernel_len: u64,
    heap_bottom: u64,
    heap_top: u64,
) -> (r: Vec<u64>)
    requires
        stack_top >= 1,
        kernel_start + kernel_len + PAGE_SIZE <= u64::MAX,
        heap_top + PAGE_SIZE <= u64::MAX,
    ensures
        r@ == seq![entry, (stack_top - 1) as u64] + page_walk(kernel_start as int, kernel_start + kernel_len)
            + page_walk(heap_bottom as int, heap_top as int),
{
    let mut pages: Vec<u64> = Vec::new();
    pages.push(entry);
    pages.push(stack_top - 1);
    push_page_walk(&mut pages, kernel_start, kernel_start + kernel_len);
    push_page_walk(&mut pages, heap_bottom, heap_top);
    proof {
        assert(seq![entry, (stack_top - 1) as u64] =~= Seq::<u64>::empty().push(entry).push((stack_top - 1) as u64));
    }
    pages
}

} // verus!
