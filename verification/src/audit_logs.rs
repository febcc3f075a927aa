use vstd::prelude::*;
use vstd::string::*;

use crate::error::{AppError, AppResult};
use crate::pagination::{collect_all, listing_result, Page};
use crate::text::{decimal, spec_decimal};

verus! {

/// The number of audit entries a listing shows: the requested limit, at
/// least one and at most five hundred.
pub open spec fn spec_audit_limit(limit: i64) -> i64 {
    if limit < 1 {
        1
    } else if limit > 500 {
        500
    } else {
        limit
    }
}

/// The number of audit entries a listing shows for a requested limit.
pub fn audit_limit(limit: i64) -> (r: i64)
    ensures
        r == spec_audit_limit(limit),
        1 <= r <= 500,
{
    if limit < 1 {
        1
    } else if limit > 500 {
        500
    } else {
        limit
    }
}

/// The pagination scope of an audit listing: its (bounded) limit.
pub open spec fn spec_audit_scope(limit: i64) -> Seq<char> {
    "audit-logs:"@ + spec_decimal(spec_audit_limit(limit) as nat)
}

/// The pagination scope of an audit listing with the requested limit.
pub fn audit_scope(limit: i64) -> (r: String)
    ensures
        r@ == spec_audit_scope(limit),
{
    let bounded = audit_limit(limit);
    let digits = decimal(bounded as u64);
    String::from_str("audit-logs:").concat(digits.as_str())
}

/// Reads the page of the audit listing with the requested limit that
/// `cursor` points at: `locate` gives the offset of the page in the
/// listing's scope (never a negative one), and `read` reads that many of the newest entries from
/// that offset.  A listing shows no more than its limit, all on one page:
/// past the limit nothing is read, and no page has a next one.
pub fn list_audit_logs_page<R, O: FnOnce(&str) -> AppResult<i64>, F: FnOnce(i64, i64) -> AppResult<Vec<R>>>(
    limit: i64,
    locate: O,
    read: F,
) -> (r: AppResult<Page<R>>)
    requires
        forall|s: &str| call_requires(locate, (s,)),
        forall|s: &str, o: i64| call_ensures(locate, (s,), Ok::<i64, AppError>(o)) ==> o >= 0,
        forall|n: i64, o: i64| call_requires(read, (n, o)),
    ensures
        exists|s: &str, located: AppResult<i64>|
            {
                &&& s@ == spec_audit_scope(limit)
                &&& #[trigger] call_ensures(locate, (s,), located)
                &&& match located {
                    Err(e) => r == Err::<Page<R>, AppError>(e),
                    Ok(o) => if o >= spec_audit_limit(limit) {
                        r matches Ok(p) && p.items@.len() == 0 && p.next_cursor is None
                    } else {
                        exists|rows: AppResult<Vec<R>>|
                            {
                                &&& #[trigger] call_ensures(read, ((spec_audit_limit(limit) - o) as i64, o), rows)
                                &&& match rows {
                                    Err(e) => r == Err::<Page<R>, AppError>(e),
                                    Ok(items) => r matches Ok(p) && p.items == items && p.next_cursor is None,
                                }
                            }
                    },
                }
            },
{
    let bounded = audit_limit(limit);
    let scope = audit_scope(limit);
    let s = scope.as_str();
    let located = locate(s);
    assert(call_ensures(locate, (s,), located));
    let at = match located {
        Ok(o) => o,
        Err(e) => {
            return Err(e);
        },
    };
    if at >= bounded {
        return Ok(Page { items: Vec::new(), next_cursor: None });
    }
    let rows = read(bounded - at, at);
    match rows {
        Ok(items) => Ok(Page { items, next_cursor: None }),
        Err(e) => Err(e),
    }
}

/// The newest audit entries, at most the requested limit of them, read a
/// page at a time by `fetch_page`.
pub fn list_audit_logs<R>(fetch_page: impl Fn(Option<&str>) -> AppResult<Page<R>>) -> (r: AppResult<Vec<R>>)
    requires
        forall|c: Option<&str>| call_requires(fetch_page, (c,)),
    ensures
        listing_result(fetch_page, r),
{
    collect_all(fetch_page)
}

} // verus!
