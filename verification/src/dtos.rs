//! What a listing of courses is asked for and answered with: the page
//! wanted, and where that page stands among all.

use vstd::prelude::*;

verus! {

/// Where a page of a listing stands among all its pages.
#[derive(Debug, Clone, Copy, PartialEq, Eq, Structural)]
pub struct PaginationMeta {
    pub page: u64,
    pub per_page: u64,
    pub total_pages: u64,
    pub total_items: u64,
    pub has_next: bool,
    pub has_prev: bool,
}

/// What a listing of courses is asked for.
#[derive(Debug, Clone, PartialEq, Eq)]
pub struct CourseQueryParams {
    /// The page wanted, from 1.
    pub page: u64,
    /// The number of courses on a page.
    pub per_page: u64,
    pub season: Option<Vec<String>>,
    pub year: Option<Vec<i16>>,
    pub search: Option<String>,
    pub department: Option<Vec<String>>,
}

/// The page that is given where none is asked for.
pub fn default_page() -> (r: u64)
    ensures
        r == 1,
{
    1
}

/// The number of courses on a page where none is asked for.
pub fn default_per_page() -> (r: u64)
    ensures
        r == 20,
{
    20
}

/// The number of pages of `per_page` items that `total_items` items fill:
/// the least number of pages that holds them all.
pub open spec fn pages_for(total_items: nat, per_page: nat) -> nat
    recommends
        per_page > 0,
{
    if total_items % per_page == 0 {
        total_items / per_page
    } else {
        total_items / per_page + 1
    }
}

/// `pages_for` pages hold all items, and one page fewer does not.
pub proof fn lemma_pages_for(total_items: nat, per_page: nat)
    requires
        per_page > 0,
    ensures
        pages_for(total_items, per_page) * per_page >= total_items,
        pages_for(total_items, per_page) > 0 ==> (pages_for(total_items, per_page) - 1) * per_page
            < total_items,
        total_items == 0 <==> pages_for(total_items, per_page) == 0,
{
    let q = total_items / per_page;
    let r = total_items % per_page;
    vstd::arithmetic::div_mod::lemma_fundamental_div_mod(total_items as int, per_page as int);
    assert(total_items == per_page * q + r);
    assert(0 <= r < per_page);
    assert(per_page * q == q * per_page) by (nonlinear_arith);
    assert((q + 1) * per_page == q * per_page + per_page) by (nonlinear_arith);
    assert((q - 1) * per_page == q * per_page - per_page) by (nonlinear_arith);
    assert(q == 0 ==> q * per_page == 0) by (nonlinear_arith);
    assert(q > 0 ==> q * per_page > 0) by (nonlinear_arith)
        requires
            per_page > 0,
    ;
}

impl PaginationMeta {
    /// Where the page `page` stands in a listing of `total_items` items,
    /// `per_page` to the page: there is a next page where `page` is not the
    /// last, and a page before where it is not the first.
    pub fn new(page: u64, per_page: u64, total_items: u64) -> (r: PaginationMeta)
        requires
            per_page > 0,
        ensures
            r.page == page,
            r.per_page == per_page,
            r.total_items == total_items,
            r.total_pages == pages_for(total_items as nat, per_page as nat),
            r.has_next == (page < r.total_pages),
            r.has_prev == (page > 1),
    {
        let whole = total_items / per_page;
        let total_pages = if total_items % per_page == 0 {
            whole
        } else {
            proof {
                // A page of one item is never left unfilled, so `whole` is
                // below `u64::MAX` here.
                if per_page == 1 {
                    assert(total_items % 1 == 0);
                } else {
                    assert(total_items / per_page <= total_items / 2) by (nonlinear_arith)
                        requires
                            per_page >= 2,
                            total_items >= 0,
                    ;
                }
            }
            whole + 1
        };
        PaginationMeta {
            page,
            per_page,
            total_pages,
            total_items,
            has_next: page < total_pages,
            has_prev: page > 1,
        }
    }
}

} // verus!
