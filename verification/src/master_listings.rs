use vstd::prelude::*;
use vstd::string::*;

use crate::error::AppResult;
use crate::pagination::Page;
use crate::stock_queries::or_empty;
use crate::text::{blank_to_none, opt_view, spec_blank_to_none, spec_to_lowercase, spec_trim, to_lowercase, trim};

verus! {

/// The parameters that a page of the item listing is read with.
pub struct ItemFilter {
    /// `LIKE` pattern for code, barcode, name and specification.
    pub like: String,
    pub supplier_id: Option<String>,
    /// Pagination scope that the cursors of this listing are bound to.
    pub scope: String,
}

/// The page parameters of the item listing: the trimmed search wrapped in
/// `%`, the supplier trimmed and dropped when blank, and a scope made of
/// the lower-cased search and the supplier.
pub open spec fn spec_item_filter(search: Option<Seq<char>>, supplier_id: Option<Seq<char>>) -> (
    Seq<char>,
    Option<Seq<char>>,
    Seq<char>,
) {
    let s = spec_trim(or_empty(search));
    let supplier = spec_blank_to_none(supplier_id);
    ("%"@ + s + "%"@, supplier, "items:"@ + spec_to_lowercase(s) + ":"@ + or_empty(supplier))
}

fn text_of(value: &Option<String>) -> (r: &str)
    ensures
        r@ == or_empty(opt_view(*value)),
{
    match value {
        Some(v) => v.as_str(),
        None => {
            proof {
                reveal_strlit("");
            }
            ""
        },
    }
}

/// The parameters of a page of the item listing for a search and a
/// supplier.
pub fn item_filter(search: Option<String>, supplier_id: Option<String>) -> (r: ItemFilter)
    ensures
        (r.like@, opt_view(r.supplier_id), r.scope@) == spec_item_filter(opt_view(search), opt_view(supplier_id)),
{
    let ghost requested = supplier_id;
    let s = trim(text_of(&search));
    let like = String::from_str("%").concat(s).concat("%");
    let supplier_id = blank_to_none(supplier_id);
    let lowered = to_lowercase(s);
    let scope = String::from_str("items:").concat(lowered.as_str()).concat(":").concat(text_of(&supplier_id));
    let r = ItemFilter { like, supplier_id, scope };
    assert(r.like@ =~= spec_item_filter(opt_view(search), opt_view(requested)).0);
    assert(r.scope@ =~= spec_item_filter(opt_view(search), opt_view(requested)).2);
    r
}

/// Reads one page of the item listing: the parameters come from the search
/// and supplier, and `fetch` reads the page after `cursor` with them.
pub fn list_items_page<R, F: Fn(&ItemFilter, Option<&str>) -> AppResult<Page<R>>>(
    search: Option<String>,
    supplier_id: Option<String>,
    cursor: Option<&str>,
    fetch: &F,
) -> (r: AppResult<Page<R>>)
    requires
        forall|f: &ItemFilter, c: Option<&str>| call_requires(*fetch, (f, c)),
    ensures
        exists|f: &ItemFilter|
            (f.like@, opt_view(f.supplier_id), f.scope@) == spec_item_filter(opt_view(search), opt_view(supplier_id))
                && #[trigger] call_ensures(*fetch, (f, cursor), r),
{
    let filter = item_filter(search, supplier_id);
    let r = fetch(&filter, cursor);
    assert(call_ensures(*fetch, (&filter, cursor), r));
    r
}

/// The pagination scope of the budget rules of a month (all months when
/// none is given).
pub fn budget_rules_scope(period_month: Option<&str>) -> (r: String)
    ensures
        r@ == "budget-rules:"@ + match period_month {
            Some(m) => m@,
            None => Seq::empty(),
        },
{
    match period_month {
        Some(m) => String::from_str("budget-rules:").concat(m),
        None => {
            let r = String::from_str("budget-rules:");
            proof {
                reveal_strlit("budget-rules:");
                assert(r@ =~= "budget-rules:"@ + Seq::<char>::empty());
            }
            r
        },
    }
}

/// The pagination scope of the purchases from a supplier.
pub fn supplier_purchases_scope(supplier_id: &str) -> (r: String)
    ensures
        r@ == "supplier-purchases:"@ + supplier_id@,
{
    String::from_str("supplier-purchases:").concat(supplier_id)
}

} // verus!
