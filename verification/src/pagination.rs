//! Page arithmetic for the paginated views: page counts, the rank-to-page
//! jump, display positions, and the wrap-around page turning driven by the
//! navigation buttons.

use vstd::arithmetic::div_mod::lemma_fundamental_div_mod;
use vstd::prelude::*;

verus! {

/// The number of pages `count` items fill at `size` items per page: the
/// count divided by the size, rounded up.
pub open spec fn spec_total_pages(count: int, size: int) -> int
    recommends
        size > 0,
{
    if count % size == 0 {
        count / size
    } else {
        count / size + 1
    }
}

pub fn total_pages(count: u64, page_size: u64) -> (r: u64)
    requires
        page_size > 0,
    ensures
        r as int == spec_total_pages(count as int, page_size as int),
{
    let d = count / page_size;
    let m = count % page_size;
    if m == 0 {
        d
    } else {
        proof {
            lemma_fundamental_div_mod(count as int, page_size as int);
            assert(d as int <= d as int * page_size as int) by (nonlinear_arith)
                requires
                    page_size >= 1,
                    d >= 0,
            ;
            assert(count as int == page_size as int * d as int + m as int);
            assert(d as int * page_size as int == page_size as int * d as int) by (nonlinear_arith);
            assert(d as int <= count as int - 1);
            assert(d < u64::MAX);
        }
        d + 1
    }
}

/// The zero-based page on which a one-based rank appears.
pub fn rank_page(rank: u64, page_size: u64) -> (r: u64)
    requires
        rank >= 1,
        page_size > 0,
    ensures
        r as int == spec_total_pages(rank as int, page_size as int) - 1,
{
    let pages = total_pages(rank, page_size);
    proof {
        lemma_fundamental_div_mod(rank as int, page_size as int);
        if rank as int % page_size as int == 0 {
            let d = rank as int / page_size as int;
            assert(rank as int == page_size as int * d);
            if d <= 0 {
                assert(page_size as int * d <= 0) by (nonlinear_arith)
                    requires
                        page_size >= 1,
                        d <= 0,
                ;
            }
            assert(d >= 1);
        }
        assert(pages >= 1);
    }
    pages - 1
}

/// One step of the page-turning state machine: forward wraps past the last
/// page to the first, backward wraps past the first page to the last.
pub open spec fn spec_turn_page(current: int, length: int, forward: bool) -> int {
    if forward {
        if current + 1 >= length {
            0
        } else {
            current + 1
        }
    } else {
        if current == 0 {
            length - 1
        } else {
            current - 1
        }
    }
}

pub fn turn_page(current: u64, length: u64, forward: bool) -> (r: u64)
    requires
        length >= 1,
        current < length,
    ensures
        r as int == spec_turn_page(current as int, length as int, forward),
        r < length,
{
    if forward {
        if current + 1 >= length {
            0
        } else {
            current + 1
        }
    } else {
        if current == 0 {
            length - 1
        } else {
            current - 1
        }
    }
}

/// The one-based position a row at `index` of page `page` is shown with.
pub fn entry_position(page: u64, page_size: u64, index: u64) -> (r: u64)
    requires
        page * page_size + index + 1 <= u64::MAX,
    ensures
        r as int == page * page_size + index + 1,
{
    page * page_size + index + 1
}

} // verus!
