//! Pagination planning for the remote score fetch.
//!
//! The remote service reports a total record count and a page size; every
//! page from 1 through the page count inclusive must be fetched, or the
//! newest page's worth of scores is silently dropped.

use vstd::prelude::*;

verus! {

/// Number of pages needed to hold `total` records at `items_per_page`
/// records per page: the ceiling of `total / items_per_page`.
pub open spec fn spec_page_count(total: u32, items_per_page: u32) -> int
    recommends
        items_per_page > 0,
{
    if total % items_per_page == 0 {
        total as int / items_per_page as int
    } else {
        total as int / items_per_page as int + 1
    }
}

/// The page count covers every record: `page_count * items_per_page` reaches
/// `total`, and one page fewer would fall short.
pub proof fn lemma_page_count_covers(total: u32, items_per_page: u32)
    requires
        items_per_page > 0,
    ensures
        spec_page_count(total, items_per_page) * items_per_page >= total,
        total > 0 ==> (spec_page_count(total, items_per_page) - 1) * items_per_page < total,
        total == 0 ==> spec_page_count(total, items_per_page) == 0,
{
    let t = total as int;
    let p = items_per_page as int;
    assert(t == p * (t / p) + t % p) by (nonlinear_arith)
        requires p > 0;
    assert(0 <= t % p < p) by (nonlinear_arith)
        requires p > 0;
    if t % p == 0 {
        assert((t / p) * p == t) by (nonlinear_arith)
            requires p > 0, t == p * (t / p);
        if t > 0 {
            assert((t / p - 1) * p < t) by (nonlinear_arith)
                requires p > 0, (t / p) * p == t;
        }
        if t == 0 {
            assert(t / p == 0) by (nonlinear_arith)
                requires p > 0, t == 0;
        }
    } else {
        assert((t / p + 1) * p >= t) by (nonlinear_arith)
            requires p > 0, t == p * (t / p) + t % p, t % p < p;
        assert((t / p) * p < t) by (nonlinear_arith)
            requires p > 0, t == p * (t / p) + t % p, t % p > 0;
    }
}

/// Number of pages the fetch must issue for the given metadata counts.
pub fn page_count(total: u32, items_per_page: u32) -> (r: u32)
    requires
        items_per_page > 0,
    ensures
        r == spec_page_count(total, items_per_page),
{
    let q = total / items_per_page;
    if total % items_per_page == 0 {
        q
    } else {
        assert(q < u32::MAX) by (nonlinear_arith)
            requires
                items_per_page > 0,
                q == total as int / items_per_page as int,
                total as int % items_per_page as int != 0,
                total <= u32::MAX,
        ;
        q + 1
    }
}

/// The full fetch plan: pages 1 through the page count, inclusive, in
/// increasing order.
pub fn pages_to_fetch(total: u32, items_per_page: u32) -> (r: Vec<u32>)
    requires
        items_per_page > 0,
    ensures
        r@.len() == spec_page_count(total, items_per_page),
        forall|i: int| 0 <= i < r@.len() ==> r@[i] == i + 1,
{
    let n = page_count(total, items_per_page);
    let mut r: Vec<u32> = Vec::new();
    let mut done: u32 = 0;
    while done < n
        invariant
            done <= n,
            n == spec_page_count(total, items_per_page),
            r@.len() == done,
            forall|i: int| 0 <= i < r@.len() ==> r@[i] == i + 1,
        decreases n - done,
    {
        r.push(done + 1);
        done = done + 1;
    }
    r
}

} // verus!
