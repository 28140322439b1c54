//! Page arithmetic for the ranked listings: how many pages a count fills,
//! which page a request lands on, and where a page's ranks start.

use vstd::prelude::*;

verus! {

/// Ranked entries shown per page.
pub const PAGE_SIZE: i64 = 50;

/// The page a request asked for; absent means the first.
pub struct PaginationParams {
    pub page: Option<i64>,
}

/// Pages needed for `total` rows at `per_page` rows each, rounded up; an
/// empty listing still has one (empty) page.
pub open spec fn spec_total_pages(total: int, per_page: int) -> int {
    if total > 0 {
        (total + per_page - 1) / per_page
    } else {
        1
    }
}

/// How many pages a listing of `total` rows fills.
pub fn total_pages(total: i64, per_page: i64) -> (n: i64)
    requires
        1 <= per_page,
        0 <= total,
        total + per_page <= i64::MAX,
    ensures
        n == spec_total_pages(total as int, per_page as int),
        n >= 1,
{
    if total > 0 {
        let n = (total + per_page - 1) / per_page;
        proof {
            vstd::arithmetic::div_mod::lemma_div_is_ordered(
                per_page as int,
                total + per_page - 1,
                per_page as int,
            );
            vstd::arithmetic::div_mod::lemma_div_by_self(per_page as int);
        }
        n
    } else {
        1
    }
}

/// The requested page clamped to the listing: absent or negative requests
/// land on the first page, requests past the end on the last.
pub open spec fn spec_clamp_page(requested: Option<int>, total_pages: int) -> int {
    let p = match requested {
        Some(v) => v,
        None => 0,
    };
    if p < 0 {
        0
    } else if p > total_pages - 1 {
        total_pages - 1
    } else {
        p
    }
}

/// Clamp a requested page into `0 .. total_pages`.
pub fn clamp_page(requested: &PaginationParams, total_pages: i64) -> (p: i64)
    requires
        total_pages >= 1,
    ensures
        p == spec_clamp_page(
            match requested.page {
                Some(v) => Some(v as int),
                None => None,
            },
            total_pages as int,
        ),
        0 <= p < total_pages,
{
    let p = match requested.page {
        Some(v) => v,
        None => 0,
    };
    if p < 0 {
        0
    } else if p > total_pages - 1 {
        total_pages - 1
    } else {
        p
    }
}

/// The zero-based rank of the first row on a page.
pub fn rank_start(page: i64, per_page: i64) -> (r: i64)
    requires
        0 <= page,
        0 <= per_page,
        page * per_page <= i64::MAX,
    ensures
        r == page * per_page,
{
    page * per_page
}

} // verus!
