use vstd::prelude::*;
use vstd::string::*;

use crate::error::{is_validation, validation, AppResult};
use crate::pagination::{collect_all, listing_result, Page};
use crate::text::{
    blank_to_none, opt_view, spec_blank_to_none, spec_to_lowercase, spec_trim, to_lowercase, trim,
};

verus! {

/// The filters of the stock balance listing, as the caller gives them.
pub struct StockBalanceQuery {
    pub search: Option<String>,
    pub category_id: Option<String>,
    pub item_id: Option<String>,
    pub stock_status: Option<String>,
}

impl View for StockBalanceQuery {
    type V = (Option<Seq<char>>, Option<Seq<char>>, Option<Seq<char>>, Option<Seq<char>>);

    open spec fn view(&self) -> Self::V {
        (opt_view(self.search), opt_view(self.category_id), opt_view(self.item_id), opt_view(self.stock_status))
    }
}

/// The parameters that one page of the stock balance listing is read with.
pub struct StockBalanceFilter {
    /// `LIKE` pattern for code, name and specification.
    pub like: String,
    pub category_id: Option<String>,
    pub item_id: Option<String>,
    pub stock_status: Option<String>,
    /// Pagination scope that the cursors of this listing are bound to.
    pub scope: String,
}

impl View for StockBalanceFilter {
    type V = (Seq<char>, Option<Seq<char>>, Option<Seq<char>>, Option<Seq<char>>, Seq<char>);

    open spec fn view(&self) -> Self::V {
        (self.like@, opt_view(self.category_id), opt_view(self.item_id), opt_view(self.stock_status), self.scope@)
    }
}

/// The text of an optional value, empty when absent.
pub open spec fn or_empty(value: Option<Seq<char>>) -> Seq<char> {
    match value {
        Some(v) => v,
        None => Seq::empty(),
    }
}

/// The page parameters for `query`: the trimmed search wrapped in `%`, the
/// blank filters dropped, and a scope made of the lower-cased search and the
/// filters, separated by `':'`.
pub open spec fn spec_balance_filter(
    query: (Option<Seq<char>>, Option<Seq<char>>, Option<Seq<char>>, Option<Seq<char>>),
) -> (Seq<char>, Option<Seq<char>>, Option<Seq<char>>, Option<Seq<char>>, Seq<char>) {
    let search = spec_trim(or_empty(query.0));
    let category_id = spec_blank_to_none(query.1);
    let item_id = spec_blank_to_none(query.2);
    let stock_status = spec_blank_to_none(query.3);
    (
        "%"@ + search + "%"@,
        category_id,
        item_id,
        stock_status,
        "stock-balances:"@ + spec_to_lowercase(search) + ":"@ + or_empty(category_id) + ":"@ + or_empty(
            item_id,
        ) + ":"@ + or_empty(stock_status),
    )
}

fn clone_opt(value: &Option<String>) -> (r: Option<String>)
    ensures
        opt_view(r) == opt_view(*value),
{
    match value {
        Some(v) => Some(v.clone()),
        None => None,
    }
}

fn text_or_empty(value: &Option<String>) -> (r: &str)
    ensures
        r@ == or_empty(opt_view(*value)),
{
    match value {
        Some(v) => v.as_str(),
        None => {
            proof {
                reveal_strlit("");
            }
            ""
        },
    }
}

/// The parameters that a page of the stock balance listing is read with.
pub fn stock_balance_filter(query: &StockBalanceQuery) -> (r: StockBalanceFilter)
    ensures
        r@ == spec_balance_filter(query@),
{
    let search = text_or_empty(&query.search);
    let trimmed = trim(search);
    let like = String::from_str("%").concat(trimmed).concat("%");
    let category_id = blank_to_none(clone_opt(&query.category_id));
    let item_id = blank_to_none(clone_opt(&query.item_id));
    let stock_status = blank_to_none(clone_opt(&query.stock_status));
    let lowered = to_lowercase(trimmed);
    let scope = String::from_str("stock-balances:").concat(lowered.as_str()).concat(":").concat(
        text_or_empty(&category_id),
    ).concat(":").concat(text_or_empty(&item_id)).concat(":").concat(text_or_empty(&stock_status));
    let r = StockBalanceFilter { like, category_id, item_id, stock_status, scope };
    assert(r@.0 =~= spec_balance_filter(query@).0);
    assert(r@.4 =~= spec_balance_filter(query@).4);
    r
}

/// Reads one page of the stock balance listing: the parameters are computed
/// from `query`, and `fetch` reads the page after `cursor` with them.
pub fn list_stock_balances_page<R, F: Fn(&StockBalanceFilter, Option<&str>) -> AppResult<Page<R>>>(
    query: &StockBalanceQuery,
    cursor: Option<&str>,
    fetch: &F,
) -> (r: AppResult<Page<R>>)
    requires
        forall|f: &StockBalanceFilter, c: Option<&str>| call_requires(*fetch, (f, c)),
    ensures
        exists|f: &StockBalanceFilter|
            f@ == spec_balance_filter(query@) && call_ensures(*fetch, (f, cursor), r),
{
    let filter = stock_balance_filter(query);
    let r = fetch(&filter, cursor);
    assert(call_ensures(*fetch, (&filter, cursor), r));
    r
}

/// The message given when a batch listing names no item.
pub open spec fn missing_item_id_message() -> Seq<char> {
    "物品 ID 不能为空"@
}

/// Reads one page of the batches of an item: the id is trimmed and must not
/// be empty, and `fetch` reads the page after `cursor` with the trimmed id
/// and the scope `stock-batches:<id>`.
pub fn list_stock_batches_page<R, F: Fn(&str, &str, Option<&str>) -> AppResult<Page<R>>>(
    item_id: &str,
    cursor: Option<&str>,
    fetch: &F,
) -> (r: AppResult<Page<R>>)
    requires
        forall|i: &str, s: &str, c: Option<&str>| call_requires(*fetch, (i, s, c)),
    ensures
        spec_trim(item_id@).len() == 0 ==> (r matches Err(e) && is_validation(
            e,
            missing_item_id_message(),
        )),
        spec_trim(item_id@).len() > 0 ==> exists|i: &str, s: &str|
            i@ == spec_trim(item_id@) && s@ == "stock-batches:"@ + spec_trim(item_id@) && call_ensures(
                *fetch,
                (i, s, cursor),
                r,
            ),
{
    let id = trim(item_id);
    if id.is_empty() {
        return Err(validation("物品 ID 不能为空"));
    }
    let scope = String::from_str("stock-batches:").concat(id);
    let scope_text = scope.as_str();
    let r = fetch(id, scope_text, cursor);
    assert(call_ensures(*fetch, (id, scope_text, cursor), r));
    r
}

/// Collects every page of the stock document listing.
pub fn list_stock_documents<T>(fetch_page: impl Fn(Option<&str>) -> AppResult<Page<T>>) -> (r: AppResult<Vec<T>>)
    requires
        forall|c: Option<&str>| call_requires(fetch_page, (c,)),
    ensures
        listing_result(fetch_page, r),
{
    collect_all(fetch_page)
}

/// Collects every page of the stock balance listing.
pub fn list_stock_balances<T>(fetch_page: impl Fn(Option<&str>) -> AppResult<Page<T>>) -> (r: AppResult<Vec<T>>)
    requires
        forall|c: Option<&str>| call_requires(fetch_page, (c,)),
    ensures
        listing_result(fetch_page, r),
{
    collect_all(fetch_page)
}

/// Collects every page of the batches of an item.
pub fn list_stock_batches<T>(fetch_page: impl Fn(Option<&str>) -> AppResult<Page<T>>) -> (r: AppResult<Vec<T>>)
    requires
        forall|c: Option<&str>| call_requires(fetch_page, (c,)),
    ensures
        listing_result(fetch_page, r),
{
    collect_all(fetch_page)
}

/// Collects every page of the stock movement listing.
pub fn list_stock_movements<T>(fetch_page: impl Fn(Option<&str>) -> AppResult<Page<T>>) -> (r: AppResult<Vec<T>>)
    requires
        forall|c: Option<&str>| call_requires(fetch_page, (c,)),
    ensures
        listing_result(fetch_page, r),
{
    collect_all(fetch_page)
}

} // verus!
