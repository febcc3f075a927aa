use vstd::prelude::*;

use crate::error::AppResult;
use crate::pagination::{collect_pages, collect_result, Page};

verus! {

/// The message given for a repeated cursor from the host.
pub open spec fn duplicate_host_cursor_message() -> Seq<char> {
    "主机返回了重复分页游标"@
}

/// Collects every page that the host serves for one listing; a cursor that
/// comes back a second time is refused.
pub fn collect_all<T>(fetch: impl Fn(Option<&str>) -> AppResult<Page<T>>) -> (r: AppResult<Vec<T>>)
    requires
        forall|c: Option<&str>| call_requires(fetch, (c,)),
    ensures
        collect_result(fetch, duplicate_host_cursor_message(), r),
{
    collect_pages(fetch, "主机返回了重复分页游标")
}

} // verus!
