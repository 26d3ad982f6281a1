//! What the service's operations decide, apart from storing and answering:
//! one module for the operations on offers, one for orders, one for
//! products, and the paging that their listings share.

use vstd::prelude::*;
use crate::arith::{divide, lemma_quotient_times, trunc_div};

pub mod offers;
pub mod orders;
pub mod products;

verus! {

/// The review flag by which a search asks for listings of every flag.
pub const ANY_PENDING: i64 = 999;

/// Rows of a page where the request names none.
pub const DEFAULT_PER_PAGE: i64 = 20;

/// The page of a listing that is shown, and where its rows start.
#[derive(Clone, Copy, Debug, PartialEq, Eq, Structural)]
pub struct Window {
    pub page: i64,
    pub per_page: i64,
    pub offset: i64,
}

/// Rows of a page: the default where the request says 0.
pub open spec fn per_page_of(per_page: int) -> int {
    if per_page == 0 {
        DEFAULT_PER_PAGE as int
    } else {
        per_page
    }
}

/// The page that is shown: the one asked for, but no later than the page
/// after the last full one and no earlier than the first.
pub open spec fn page_of(page: int, per_page: int, total: int) -> int {
    let last = trunc_div(total, per_page_of(per_page)) + 1;
    let capped = if page < last {
        page
    } else {
        last
    };
    if capped < 1 {
        1
    } else {
        capped
    }
}

/// Rows that lie before the page that is shown.
pub open spec fn offset_of(page: int, per_page: int, total: int) -> int {
    (page_of(page, per_page, total) - 1) * per_page_of(per_page)
}

/// Works out the page of a listing of `total` rows.
pub fn window(page: i64, per_page: i64, total: i64) -> (shown: Window)
    ensures
        shown.page == page_of(page as int, per_page as int, total as int),
        shown.per_page == per_page_of(per_page as int),
        shown.offset == offset_of(page as int, per_page as int, total as int),
{
    let rows = if per_page == 0 {
        DEFAULT_PER_PAGE
    } else {
        per_page
    };
    let full: i128 = divide(total, rows);
    let last: i128 = full + 1;
    let capped: i128 = if (page as i128) < last {
        page as i128
    } else {
        last
    };
    let chosen: i128 = if capped < 1 {
        1
    } else {
        capped
    };
    assert(1 <= chosen <= i64::MAX);
    proof {
        lemma_quotient_times(total as int, rows as int);
        let k = chosen - 1;
        if full > 0 {
            assert(0 <= k <= full);
            if rows > 0 {
                assert(0 <= k * rows <= full * rows) by (nonlinear_arith)
                    requires
                        0 <= k <= full,
                        0 < rows,
                ;
            } else {
                assert(full * rows <= k * rows <= 0) by (nonlinear_arith)
                    requires
                        0 <= k <= full,
                        rows < 0,
                ;
            }
            assert(total >= 0 ==> full * rows <= total);
            assert(total < 0 ==> total <= full * rows);
        } else {
            assert(k == 0);
            assert(k * rows == 0);
        }
        assert(i64::MIN <= k * rows <= i64::MAX);
    }
    let before: i128 = (chosen - 1) * rows as i128;
    Window { page: chosen as i64, per_page: rows, offset: before as i64 }
}

} // verus!
