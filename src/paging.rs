//! Counting pages, cutting a ranked list into pages, and the page links
//! shown around the current page.
use vstd::prelude::*;

use crate::errors::RespError;

verus! {

/// `ceil(count / per_page)`.
pub open spec fn pages_for(count: int, per_page: int) -> int {
    (count + per_page - 1) / per_page
}

/// How many pages of `per_page` items hold `count` items.
pub fn page_count(count: usize, per_page: usize) -> (r: usize)
    requires
        per_page > 0,
    ensures
        r == pages_for(count as int, per_page as int),
{
    let q = count / per_page;
    let m = count % per_page;
    proof {
        let c = count as int;
        let d = per_page as int;
        let qi = q as int;
        let mi = m as int;
        assert(c == qi * d + mi) by (nonlinear_arith)
            requires qi == c / d, mi == c % d, d > 0;
        if m == 0 {
            assert((c + d - 1) / d == qi) by (nonlinear_arith)
                requires c == qi * d, d > 0;
        } else {
            assert((c + d - 1) / d == qi + 1) by (nonlinear_arith)
                requires c == qi * d + mi, 0 < mi < d;
            assert(qi < usize::MAX) by (nonlinear_arith)
                requires c == qi * d + mi, 0 < mi < d, c <= usize::MAX, qi >= 0;
        }
    }
    if m == 0 {
        q
    } else {
        q + 1
    }
}

pub open spec fn min(a: int, b: int) -> int {
    if a <= b {
        a
    } else {
        b
    }
}

/// The page of `s` that skips `offset` items and holds at most `limit`.
pub open spec fn page_of<T>(s: Seq<T>, limit: int, offset: int) -> Seq<T> {
    s.subrange(min(offset, s.len() as int), min(offset + limit, s.len() as int))
}

/// The pages at offsets `0, limit, 2 * limit, ...`, `n` of them, one after
/// the other.
pub open spec fn first_pages<T>(s: Seq<T>, limit: nat, n: nat) -> Seq<T>
    decreases n,
{
    if n == 0 {
        seq![]
    } else {
        first_pages(s, limit, (n - 1) as nat) + page_of(s, limit as int, ((n - 1) * limit) as int)
    }
}

/// A page holds at most `limit` items, and no more than the whole list.
pub proof fn law_page_bounded<T>(s: Seq<T>, limit: nat, offset: nat)
    ensures
        page_of(s, limit as int, offset as int).len() <= limit,
        page_of(s, limit as int, offset as int).len() <= s.len(),
{
}

/// Pages taken at offsets `0, limit, 2 * limit, ...` put together give the
/// ranked list itself, up to where they reach: nothing lost, nothing twice.
pub proof fn law_pages_concatenate<T>(s: Seq<T>, limit: nat, n: nat)
    ensures
        first_pages(s, limit, n) == s.take(min((n * limit) as int, s.len() as int)),
    decreases n,
{
    if n == 0 {
        assert(s.take(0) =~= seq![]);
    } else {
        let m = (n - 1) as nat;
        law_pages_concatenate(s, limit, m);
        let a = (m * limit) as int;
        let b = (n * limit) as int;
        assert(a + limit == b) by (nonlinear_arith)
            requires m == n - 1, a == m * limit, b == n * limit;
        assert(a >= 0) by (nonlinear_arith)
            requires a == m * limit;
        assert(first_pages(s, limit, n) == first_pages(s, limit, m) + page_of(s, limit as int, a));
        assert(page_of(s, limit as int, a) == s.subrange(min(a, s.len() as int), min(b, s.len() as int)));
        assert(first_pages(s, limit, n) =~= s.take(min((n * limit) as int, s.len() as int)));
    }
}

/// The items of `v` on the page that skips `offset` and holds at most `limit`.
pub fn paginate(v: &Vec<usize>, limit: usize, offset: usize) -> (r: Vec<usize>)
    ensures
        r@ == page_of(v@, limit as int, offset as int),
{
    let len = v.len();
    let start = if offset < len {
        offset
    } else {
        len
    };
    let end = if limit <= len - start {
        start + limit
    } else {
        len
    };
    let mut out: Vec<usize> = Vec::new();
    let mut i: usize = start;
    while i < end
        invariant
            start <= i <= end <= v@.len(),
            out@ == v@.subrange(start as int, i as int),
        decreases end - i,
    {
        out.push(v[i]);
        i += 1;
        assert(out@ =~= v@.subrange(start as int, i as int));
    }
    out
}

/// The result of a search: how many items matched in all, how long the
/// search took in nanoseconds, and the items of the page asked for, in rank
/// order.
pub struct SearchResult<T> {
    pub count: usize,
    pub time_cost: u64,
    pub terms: Vec<T>,
}

impl<T> Default for SearchResult<T> {
    fn default() -> (r: Self)
        ensures
            r.count == 0,
            r.time_cost == 0,
            r.terms@.len() == 0,
    {
        SearchResult { count: 0, time_cost: 0, terms: Vec::new() }
    }
}

/// The page links around the current page: pages `start..=end` are shown
/// between the first and the last page; `skip_back` and `skip_forward` are
/// the targets of the jumps past them.
#[derive(Clone, Copy, Debug, PartialEq, Eq)]
pub struct PageUtil {
    pub start: usize,
    pub end: usize,
    pub skip_back: usize,
    pub skip_forward: usize,
}

/// Pages shown on each side of the current one.
pub const HALF: usize = 1;

pub open spec fn max(a: int, b: int) -> int {
    if a >= b {
        a
    } else {
        b
    }
}

/// How many neighbours are shown left and right of page `p` of `c`: `HALF`
/// on each side, the share that one side cannot use moved to the other.
pub open spec fn sides(p: int, c: int) -> (int, int) {
    if p <= HALF {
        (p - 1, 2 * HALF - (p - 1))
    } else if p + HALF > c {
        (2 * HALF - (c - p), c - p)
    } else {
        (HALF as int, HALF as int)
    }
}

pub open spec fn window_start(p: int, c: int) -> int {
    max(2, max(0, p - sides(p, c).0))
}

pub open spec fn window_end(p: int, c: int) -> int {
    min(c - 1, p + sides(p, c).1)
}

impl PageUtil {
    /// The page links for page `page_num` of `page_count`.
    pub fn new(page_num: usize, page_count: usize) -> (r: PageUtil)
        requires
            1 <= page_num <= page_count,
        ensures
            r.start == window_start(page_num as int, page_count as int),
            r.end == window_end(page_num as int, page_count as int),
            r.skip_back == max(1, max(0, r.start - 2)),
            r.skip_forward == min(page_count as int, r.end + 2),
    {
        let half = HALF;
        let neighbors = half * 2;
        let mut left = half;
        let mut right = half;
        if page_num <= half {
            left = page_num - 1;
            right = neighbors - left;
        } else if page_num > page_count - half {
            right = page_count - page_num;
            left = neighbors - right;
        }
        let s = page_num.saturating_sub(left);
        let start = if 2 >= s {
            2
        } else {
            s
        };
        let e = page_num + right;
        let end = if page_count - 1 <= e {
            page_count - 1
        } else {
            e
        };
        let b = start.saturating_sub(2);
        let skip_back = if 1 >= b {
            1
        } else {
            b
        };
        let skip_forward = if page_count - end <= 2 {
            page_count
        } else {
            end + 2
        };
        PageUtil { start, end, skip_back, skip_forward }
    }
}

/// The page links for page `page` of a result of `count` items shown
/// `per_page` at a time. Page numbers start at 1: page 0 is not found. A page
/// past the last is not found either, unless there are no pages at all: then
/// the (empty) page is shown without links.
pub fn page_links(page: usize, count: usize, per_page: usize) -> (r: Result<Option<PageUtil>, RespError>)
    requires
        per_page > 0,
    ensures
        ({
            let pc = pages_for(count as int, per_page as int);
            &&& (r is Err <==> (page < 1 || (page > pc && pc > 0)))
            &&& (r matches Err(e) ==> e is NotFound)
            &&& ((r matches Ok(None)) <==> (page >= 1 && pc == 0))
            &&& r matches Ok(Some(u)) ==> 1 <= page <= pc && u.start == window_start(page as int, pc)
                && u.end == window_end(page as int, pc) && u.skip_back == max(1, max(0, u.start - 2))
                && u.skip_forward == min(pc, u.end + 2)
        }),
{
    if page < 1 {
        return Err(RespError::NotFound);
    }
    let pc = page_count(count, per_page);
    if page > pc {
        if pc > 0 {
            return Err(RespError::NotFound);
        }
        return Ok(None);
    }
    Ok(Some(PageUtil::new(page, pc)))
}

/// The home page `page` of a list of `count` articles shown `per_page` at a
/// time: the index range of its articles and its page links. Pages start at
/// 1; one past the last is not found.
pub fn home_page(count: usize, page: usize, per_page: usize) -> (r: Result<(usize, usize, PageUtil), RespError>)
    requires
        per_page > 0,
    ensures
        ({
            let pc = pages_for(count as int, per_page as int);
            &&& (r is Err <==> (page < 1 || page > pc))
            &&& (r matches Err(e) ==> e is NotFound)
            &&& r matches Ok((s, e, u)) ==> {
                &&& s == (page - 1) * per_page
                &&& e == min(page * per_page, count as int)
                &&& u.start == window_start(page as int, pc)
                &&& u.end == window_end(page as int, pc)
                &&& u.skip_back == max(1, max(0, u.start - 2))
                &&& u.skip_forward == min(pc, u.end + 2)
            }
        }),
{
    let pc = page_count(count, per_page);
    if page < 1 || page > pc {
        return Err(RespError::NotFound);
    }
    proof {
        let c = count as int;
        let d = per_page as int;
        let p = page as int;
        assert((p - 1) * d < c) by (nonlinear_arith)
            requires 1 <= p, p <= (c + d - 1) / d, d > 0;
    }
    let start = (page - 1) * per_page;
    let end = if count - start <= per_page {
        count
    } else {
        start + per_page
    };
    proof {
        let d = per_page as int;
        let p = page as int;
        assert((p - 1) * d + d == p * d) by (nonlinear_arith);
    }
    Ok((start, end, PageUtil::new(page, pc)))
}

} // verus!
