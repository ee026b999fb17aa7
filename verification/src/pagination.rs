//! Pagination of list endpoints: page / page_size query values with their
//! defaults, the total-pages rule, and the bounds of one page of a listing.

use vstd::prelude::*;

verus! {

/// The `page` / `page_size` query parameters of the list endpoints.
pub struct PaginationQuery {
    pub page: u64,
    pub page_size: u64,
}

impl Default for PaginationQuery {
    /// The first page with the default size of 20 items.
    fn default() -> (r: Self)
        ensures
            r.page == 1,
            r.page_size == 20,
    {
        PaginationQuery { page: 1, page_size: 20 }
    }
}

impl Clone for PaginationQuery {
    fn clone(&self) -> (r: Self)
        ensures
            r == *self,
    {
        PaginationQuery { page: self.page, page_size: self.page_size }
    }
}

/// Pages are 1-based: a page number below 1 means the first page.
pub open spec fn effective_page(page: u64) -> u64 {
    if page < 1 {
        1
    } else {
        page
    }
}

/// A page size below 1 means the default size of 20.
pub open spec fn effective_page_size(page_size: u64) -> u64 {
    if page_size < 1 {
        20
    } else {
        page_size
    }
}

/// How many pages a listing of `total` items has: zero for an empty listing,
/// else the rounded-up quotient.
pub open spec fn pages_of(total: nat, size: nat) -> nat
    recommends
        size >= 1,
{
    total / size + if total % size == 0 {
        0nat
    } else {
        1nat
    }
}

/// Where a page begins in a listing of `n` items, clipped to the end.
pub open spec fn page_start(n: nat, page: nat, size: nat) -> nat
    recommends
        page >= 1,
{
    if (page - 1) * size > n {
        n
    } else {
        ((page - 1) * size) as nat
    }
}

/// Where a page ends in a listing of `n` items, clipped to the end.
pub open spec fn page_end(n: nat, page: nat, size: nat) -> nat
    recommends
        page >= 1,
{
    if page_start(n, page, size) + size > n {
        n
    } else {
        page_start(n, page, size) + size
    }
}

/// The number of pages, computed on machine integers.
pub fn total_pages(total: u64, size: u64) -> (r: u64)
    requires
        size >= 1,
    ensures
        r == pages_of(total as nat, size as nat),
{
    let q = total / size;
    let rem = total % size;
    if rem == 0 {
        q
    } else {
        proof {
            assert(q < total) by (nonlinear_arith)
                requires
                    size >= 1,
                    total % size != 0,
                    q == total / size,
            ;
        }
        q + 1
    }
}

/// The bounds of one page of a listing of `n` items, as indices into the
/// listing: start first, end second.
pub fn page_bounds(n: u64, page: u64, size: u64) -> (r: (u64, u64))
    requires
        page >= 1,
        size >= 1,
    ensures
        r.0 == page_start(n as nat, page as nat, size as nat),
        r.1 == page_end(n as nat, page as nat, size as nat),
        r.0 <= r.1 <= n,
{
    let start: u64 = match (page - 1).checked_mul(size) {
        Some(s) => if s > n {
            n
        } else {
            s
        },
        None => {
            proof {
                assert((page - 1) as nat * size as nat > u64::MAX) by (nonlinear_arith)
                    requires
                        page >= 1,
                        size >= 1,
                        (page - 1) as u64 as nat * size as nat > u64::MAX,
                ;
            }
            n
        },
    };
    let end: u64 = match start.checked_add(size) {
        Some(e) => if e > n {
            n
        } else {
            e
        },
        None => n,
    };
    (start, end)
}

/// One page of results together with the pagination totals.
pub struct PageResponse<T> {
    pub page: Vec<T>,
    pub total_pages: u64,
    pub total_items: u64,
}

} // verus!
