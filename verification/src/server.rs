//! The job list endpoint: which page of which jobs a query asks for.

use crate::models::{JobFilter, ListQuery};
use vstd::prelude::*;

verus! {

/// The page asked for, at least 1.
pub open spec fn page_number(q: ListQuery) -> nat {
    if q.page < 1 {
        1
    } else {
        q.page as nat
    }
}

/// The page size asked for, between 1 and 100.
pub open spec fn page_size_of(q: ListQuery) -> nat {
    if q.page_size < 1 {
        1
    } else if q.page_size > 100 {
        100
    } else {
        q.page_size as nat
    }
}

/// The jobs skipped before the page: capped at `i64::MAX`.
pub open spec fn offset_of(q: ListQuery) -> int {
    let o = (page_number(q) - 1) * page_size_of(q);
    if o > i64::MAX {
        i64::MAX as int
    } else {
        o
    }
}

/// The offset fits in `usize` before it is capped (the multiplication the
/// offset is computed with does not overflow).
pub open spec fn window_defined(q: ListQuery) -> bool {
    (page_number(q) - 1) * page_size_of(q) <= usize::MAX
}

/// The offset and the limit of the page a query asks for.
pub fn list_window(q: &ListQuery) -> (r: (i64, i64))
    requires
        window_defined(*q),
    ensures
        r.0 == offset_of(*q),
        r.1 == page_size_of(*q),
{
    let page: usize = if q.page < 1 {
        1
    } else {
        q.page
    };
    let size: usize = if q.page_size < 1 {
        1
    } else if q.page_size > 100 {
        100
    } else {
        q.page_size
    };
    let o: usize = (page - 1) * size;
    let offset: i64 = if o as u128 > i64::MAX as u128 {
        i64::MAX
    } else {
        o as i64
    };
    (offset, size as i64)
}

/// Whether `list_window` is defined on a query.
pub fn window_is_defined(q: &ListQuery) -> (r: bool)
    ensures
        r == window_defined(*q),
{
    let page: u128 = if q.page < 1 {
        1
    } else {
        q.page as u128
    };
    let size: u128 = if q.page_size < 1 {
        1
    } else if q.page_size > 100 {
        100
    } else {
        q.page_size as u128
    };
    assert((page - 1) * size <= 0xffff_ffff_ffff_ffffu128 * 100) by (nonlinear_arith)
        requires
            page - 1 <= 0xffff_ffff_ffff_ffffu128,
            size <= 100,
    ;
    (page - 1) * size <= usize::MAX as u128
}

/// The filter of a list query.
pub fn query_filter(q: &ListQuery) -> (r: JobFilter)
    ensures
        r.platform == q.platform,
        r.rating == q.rating,
        r.applied == q.applied,
        r.remote is None,
        r.recency is None,
{
    JobFilter {
        platform: q.platform,
        rating: q.rating,
        applied: q.applied,
        remote: None,
        recency: None,
    }
}

/// The ids of one page of ranked results: `limit` ids after the first
/// `offset`.
pub open spec fn page_of_spec(ids: Seq<i64>, offset: int, limit: int) -> Seq<i64> {
    let start = if offset < ids.len() {
        offset
    } else {
        ids.len() as int
    };
    let end = if start + limit < ids.len() {
        start + limit
    } else {
        ids.len() as int
    };
    ids.subrange(start, end)
}

pub fn page_of(ids: &Vec<i64>, offset: usize, limit: usize) -> (r: Vec<i64>)
    ensures
        r@ == page_of_spec(ids@, offset as int, limit as int),
{
    let start = if offset < ids.len() {
        offset
    } else {
        ids.len()
    };
    let end = if (start as u128) + (limit as u128) < ids.len() as u128 {
        start + limit
    } else {
        ids.len()
    };
    let mut out: Vec<i64> = Vec::new();
    let mut i = start;
    while i < end
        invariant
            start <= i <= end <= ids.len(),
            out@ == ids@.subrange(start as int, i as int),
        decreases end - i,
    {
        out.push(ids[i]);
        assert(ids@.subrange(start as int, i + 1) =~= ids@.subrange(start as int, i as int).push(
            ids@[i as int],
        ));
        i = i + 1;
    }
    out
}

/// A page never holds more than `limit` ids, and every id on it comes from
/// the ranked list, in its order.
pub proof fn lemma_page_bounded(ids: Seq<i64>, offset: int, limit: int)
    requires
        0 <= offset,
        0 <= limit,
    ensures
        page_of_spec(ids, offset, limit).len() <= limit,
        page_of_spec(ids, offset, limit).len() > 0 ==> page_of_spec(ids, offset, limit)[0]
            == ids[offset],
{
}

} // verus!
