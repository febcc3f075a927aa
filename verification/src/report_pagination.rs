use vstd::prelude::*;
use vstd::string::*;

use crate::error::{is_validation, validation, AppError, AppResult};
use crate::pagination::Page;
use crate::text::{opt_str_view, opt_view, same_text};

verus! {

/// The report of one month, section by section.  `R` is the row type that
/// the caller carries in every section.
pub struct ReportBundle<R> {
    pub month: String,
    pub monthly_inventory: Vec<R>,
    pub department_summary: Vec<R>,
    pub department_details: Vec<R>,
    pub category_consumption: Vec<R>,
    pub item_consumption_ranking: Vec<R>,
    pub inbound_details: Vec<R>,
    pub outbound_details: Vec<R>,
    pub sales_profit: Vec<R>,
    pub stock_balances: Vec<R>,
    pub stock_warnings: Vec<R>,
    pub stocktake_differences: Vec<R>,
}

/// One page of one report section, with the cursor of the next page of that
/// section when there is one.
pub struct ReportBundlePage<R> {
    pub section: String,
    pub bundle: ReportBundle<R>,
    pub next_cursor: Option<String>,
}

/// Number of report sections.
pub const SECTION_COUNT: usize = 11;

/// The name of section `k`, in the order in which sections are collected.
pub open spec fn spec_section(k: int) -> Seq<char> {
    if k == 0 {
        "monthlyInventory"@
    } else if k == 1 {
        "departmentSummary"@
    } else if k == 2 {
        "departmentDetails"@
    } else if k == 3 {
        "categoryConsumption"@
    } else if k == 4 {
        "itemConsumptionRanking"@
    } else if k == 5 {
        "inboundDetails"@
    } else if k == 6 {
        "outboundDetails"@
    } else if k == 7 {
        "salesProfit"@
    } else if k == 8 {
        "stockBalances"@
    } else if k == 9 {
        "stockWarnings"@
    } else {
        "stocktakeDifferences"@
    }
}

/// Returns the name of section `k`.
pub fn section_name(k: usize) -> (r: &'static str)
    requires
        k < SECTION_COUNT,
    ensures
        r@ == spec_section(k as int),
{
    if k == 0 {
        "monthlyInventory"
    } else if k == 1 {
        "departmentSummary"
    } else if k == 2 {
        "departmentDetails"
    } else if k == 3 {
        "categoryConsumption"
    } else if k == 4 {
        "itemConsumptionRanking"
    } else if k == 5 {
        "inboundDetails"
    } else if k == 6 {
        "outboundDetails"
    } else if k == 7 {
        "salesProfit"
    } else if k == 8 {
        "stockBalances"
    } else if k == 9 {
        "stockWarnings"
    } else {
        "stocktakeDifferences"
    }
}

/// The rows of a bundle, section by section in collection order.
pub open spec fn section_rows<R>(b: ReportBundle<R>) -> Seq<Seq<R>> {
    seq![
        b.monthly_inventory@,
        b.department_summary@,
        b.department_details@,
        b.category_consumption@,
        b.item_consumption_ranking@,
        b.inbound_details@,
        b.outbound_details@,
        b.sales_profit@,
        b.stock_balances@,
        b.stock_warnings@,
        b.stocktake_differences@,
    ]
}

/// No rows in any section.
pub open spec fn no_rows<R>() -> Seq<Seq<R>> {
    Seq::new(SECTION_COUNT as nat, |i: int| Seq::<R>::empty())
}

/// The rows of `a` followed, section by section, by the rows of `b`.
pub open spec fn add_rows<R>(a: Seq<Seq<R>>, b: Seq<Seq<R>>) -> Seq<Seq<R>> {
    Seq::new(SECTION_COUNT as nat, |i: int| a[i] + b[i])
}

/// The rows of all `pages`, in order.
pub open spec fn page_rows<R>(pages: Seq<ReportBundlePage<R>>) -> Seq<Seq<R>>
    decreases pages.len(),
{
    if pages.len() == 0 {
        no_rows()
    } else {
        add_rows(page_rows(pages.drop_last()), section_rows(pages.last().bundle))
    }
}

/// The rows of all chains, in order.
pub open spec fn chain_rows<R>(chains: Seq<Seq<ReportBundlePage<R>>>) -> Seq<Seq<R>>
    decreases chains.len(),
{
    if chains.len() == 0 {
        no_rows()
    } else {
        add_rows(chain_rows(chains.drop_last()), page_rows(chains.last()))
    }
}

/// The cursor that the page after `pages` is asked for.
pub open spec fn report_request<R>(pages: Seq<ReportBundlePage<R>>) -> Option<Seq<char>> {
    if pages.len() == 0 {
        None
    } else {
        opt_view(pages.last().next_cursor)
    }
}

/// `page` is what `fetch` may answer when asked for `section` after `cursor`.
pub open spec fn report_fetched<R, F: Fn(&str, Option<&str>) -> AppResult<ReportBundlePage<R>>>(
    fetch: F,
    section: Seq<char>,
    cursor: Option<Seq<char>>,
    page: ReportBundlePage<R>,
) -> bool {
    exists|s: &str, a: Option<&str>|
        #![trigger call_ensures(fetch, (s, a), Ok::<ReportBundlePage<R>, AppError>(page))]
        s@ == section && opt_str_view(a) == cursor && call_ensures(
            fetch,
            (s, a),
            Ok::<ReportBundlePage<R>, AppError>(page),
        )
}

/// `pages` is a chain that `fetch` may answer for `section`.
pub open spec fn section_chain<R, F: Fn(&str, Option<&str>) -> AppResult<ReportBundlePage<R>>>(
    fetch: F,
    section: Seq<char>,
    pages: Seq<ReportBundlePage<R>>,
) -> bool
    decreases pages.len(),
{
    if pages.len() == 0 {
        true
    } else {
        &&& section_chain(fetch, section, pages.drop_last())
        &&& report_fetched(fetch, section, report_request(pages.drop_last()), pages.last())
    }
}

/// Every page belongs to `section`, every page but the last names a next
/// cursor, the last names none, and no cursor comes twice.
pub open spec fn section_complete<R>(section: Seq<char>, pages: Seq<ReportBundlePage<R>>) -> bool {
    &&& pages.len() > 0
    &&& pages.last().next_cursor is None
    &&& forall|i: int| 0 <= i < pages.len() ==> (#[trigger] pages[i]).section@ == section
    &&& forall|i: int| 0 <= i < pages.len() - 1 ==> (#[trigger] pages[i]).next_cursor is Some
    &&& forall|i: int, j: int|
        0 <= i < j < pages.len() - 1 ==> (#[trigger] pages[i]).next_cursor->0@
            != (#[trigger] pages[j]).next_cursor->0@
}

/// The message given when the host answers with another section.
pub open spec fn wrong_section_message() -> Seq<char> {
    "主机返回了错误的报表 section"@
}

/// The message given when the host repeats a report cursor.
pub open spec fn duplicate_report_cursor_message() -> Seq<char> {
    "主机返回了重复报表分页游标"@
}

/// An empty report of `month`.
pub fn empty_bundle<R>(month: &str) -> (r: ReportBundle<R>)
    ensures
        r.month@ == month@,
        section_rows(r) == no_rows::<R>(),
{
    let r = ReportBundle {
        month: String::from_str(month),
        monthly_inventory: Vec::new(),
        department_summary: Vec::new(),
        department_details: Vec::new(),
        category_consumption: Vec::new(),
        item_consumption_ranking: Vec::new(),
        inbound_details: Vec::new(),
        outbound_details: Vec::new(),
        sales_profit: Vec::new(),
        stock_balances: Vec::new(),
        stock_warnings: Vec::new(),
        stocktake_differences: Vec::new(),
    };
    assert(section_rows(r) =~= no_rows::<R>());
    r
}

/// Appends the rows of `page`, section by section, to `target`.
pub fn merge<R>(target: &mut ReportBundle<R>, page: ReportBundle<R>)
    ensures
        final(target).month == old(target).month,
        section_rows(*final(target)) == add_rows(section_rows(*old(target)), section_rows(page)),
{
    let ghost incoming = page;
    let mut page = page;
    target.monthly_inventory.append(&mut page.monthly_inventory);
    target.department_summary.append(&mut page.department_summary);
    target.department_details.append(&mut page.department_details);
    target.category_consumption.append(&mut page.category_consumption);
    target.item_consumption_ranking.append(&mut page.item_consumption_ranking);
    target.inbound_details.append(&mut page.inbound_details);
    target.outbound_details.append(&mut page.outbound_details);
    target.sales_profit.append(&mut page.sales_profit);
    target.stock_balances.append(&mut page.stock_balances);
    target.stock_warnings.append(&mut page.stock_warnings);
    target.stocktake_differences.append(&mut page.stocktake_differences);
    assert(section_rows(*target) =~= add_rows(section_rows(*old(target)), section_rows(incoming)));
}

proof fn lemma_add_rows_assoc<R>(a: Seq<Seq<R>>, b: Seq<Seq<R>>, c: Seq<Seq<R>>)
    ensures
        add_rows(add_rows(a, b), c) == add_rows(a, add_rows(b, c)),
{
    assert forall|i: int| 0 <= i < SECTION_COUNT implies #[trigger] add_rows(add_rows(a, b), c)[i]
        == add_rows(a, add_rows(b, c))[i] by {
        assert(a[i] + b[i] + c[i] =~= a[i] + (b[i] + c[i]));
    }
    assert(add_rows(add_rows(a, b), c) =~= add_rows(a, add_rows(b, c)));
}

proof fn lemma_add_no_rows<R>(a: Seq<Seq<R>>)
    requires
        a.len() == SECTION_COUNT,
    ensures
        add_rows(a, no_rows()) == a,
        add_rows(no_rows(), a) == a,
{
    assert forall|i: int| 0 <= i < SECTION_COUNT implies #[trigger] add_rows(a, no_rows())[i] == a[i] by {
        assert(a[i] + Seq::<R>::empty() =~= a[i]);
    }
    assert forall|i: int| 0 <= i < SECTION_COUNT implies #[trigger] add_rows(no_rows(), a)[i] == a[i] by {
        assert(Seq::<R>::empty() + a[i] =~= a[i]);
    }
    assert(add_rows(a, no_rows()) =~= a);
    assert(add_rows(no_rows(), a) =~= a);
}

/// Whether `c` is one of the cursors in `seen`.
pub open spec fn report_cursor_seen(seen: Seq<String>, c: Seq<char>) -> bool {
    exists|i: int| 0 <= i < seen.len() && seen[i]@ == c
}

fn contains_text(seen: &Vec<String>, c: &str) -> (r: bool)
    ensures
        r == report_cursor_seen(seen@, c@),
{
    let n = seen.len();
    let mut i: usize = 0;
    while i < n
        invariant
            n == seen@.len(),
            i <= n,
            forall|a: int| 0 <= a < i ==> seen@[a]@ != c@,
        decreases n - i,
    {
        if same_text(seen[i].as_str(), c) {
            return true;
        }
        i = i + 1;
    }
    false
}

fn cursor_arg(cursor: &Option<String>) -> (r: Option<&str>)
    ensures
        opt_str_view(r) == opt_view(*cursor),
{
    match cursor {
        Some(c) => Some(c.as_str()),
        None => None,
    }
}

proof fn lemma_section_done<R>(
    section: Seq<char>,
    pages: Seq<ReportBundlePage<R>>,
    p: ReportBundlePage<R>,
)
    requires
        forall|i: int| 0 <= i < pages.len() ==> (#[trigger] pages[i]).section@ == section,
        forall|i: int| 0 <= i < pages.len() ==> (#[trigger] pages[i]).next_cursor is Some,
        forall|i: int, j: int|
            0 <= i < j < pages.len() ==> (#[trigger] pages[i]).next_cursor->0@ != (
            #[trigger] pages[j]).next_cursor->0@,
        p.section@ == section,
        p.next_cursor is None,
    ensures
        section_complete(section, pages.push(p)),
{
    let q = pages.push(p);
    assert forall|i: int| 0 <= i < q.len() implies (#[trigger] q[i]).section@ == section by {
        if i < pages.len() {
            assert(q[i] == pages[i]);
        }
    }
    assert forall|i: int| 0 <= i < q.len() - 1 implies (#[trigger] q[i]).next_cursor is Some by {
        assert(q[i] == pages[i]);
    }
    assert forall|i: int, j: int|
        0 <= i < j < q.len() - 1 implies (#[trigger] q[i]).next_cursor->0@ != (
        #[trigger] q[j]).next_cursor->0@ by {
        assert(q[i] == pages[i]);
        assert(q[j] == pages[j]);
    }
}

proof fn lemma_section_more<R>(
    section: Seq<char>,
    pages: Seq<ReportBundlePage<R>>,
    seen: Seq<String>,
    p: ReportBundlePage<R>,
    c: String,
)
    requires
        pages.len() == seen.len(),
        forall|i: int| 0 <= i < pages.len() ==> (#[trigger] pages[i]).section@ == section,
        forall|i: int| 0 <= i < pages.len() ==> (#[trigger] pages[i]).next_cursor is Some,
        forall|i: int| 0 <= i < pages.len() ==> (#[trigger] pages[i]).next_cursor->0@ == seen[i]@,
        forall|i: int, j: int| 0 <= i < j < seen.len() ==> seen[i]@ != seen[j]@,
        p.section@ == section,
        p.next_cursor == Some(c),
        !report_cursor_seen(seen, c@),
    ensures
        ({
            let q = pages.push(p);
            let s = seen.push(c);
            &&& forall|i: int| 0 <= i < q.len() ==> (#[trigger] q[i]).section@ == section
            &&& forall|i: int| 0 <= i < q.len() ==> (#[trigger] q[i]).next_cursor is Some
            &&& forall|i: int| 0 <= i < q.len() ==> (#[trigger] q[i]).next_cursor->0@ == s[i]@
            &&& forall|i: int, j: int| 0 <= i < j < s.len() ==> s[i]@ != s[j]@
        }),
{
    let q = pages.push(p);
    let s = seen.push(c);
    assert forall|i: int| 0 <= i < q.len() implies (#[trigger] q[i]).section@ == section by {
        if i < pages.len() {
            assert(q[i] == pages[i]);
        }
    }
    assert forall|i: int| 0 <= i < q.len() implies (#[trigger] q[i]).next_cursor is Some by {
        if i < pages.len() {
            assert(q[i] == pages[i]);
        }
    }
    assert forall|i: int| 0 <= i < q.len() implies (#[trigger] q[i]).next_cursor->0@ == s[i]@ by {
        if i < pages.len() {
            assert(q[i] == pages[i]);
            assert(s[i] == seen[i]);
        }
    }
    assert forall|i: int, j: int| 0 <= i < j < s.len() implies s[i]@ != s[j]@ by {
        assert(s[i] == seen[i]);
        if j < seen.len() {
            assert(s[j] == seen[j]);
        }
    }
}

/// `pages` is a chain that `fetch` may answer for `section` in which every
/// page belongs to the section and names a next cursor, no cursor twice:
/// the pages of a section read so far by a collection not yet finished.
pub open spec fn section_open<R, F: Fn(&str, Option<&str>) -> AppResult<ReportBundlePage<R>>>(
    fetch: F,
    section: Seq<char>,
    pages: Seq<ReportBundlePage<R>>,
) -> bool {
    &&& section_chain(fetch, section, pages)
    &&& forall|i: int| 0 <= i < pages.len() ==> (#[trigger] pages[i]).section@ == section
    &&& forall|i: int| 0 <= i < pages.len() ==> (#[trigger] pages[i]).next_cursor is Some
    &&& forall|i: int, j: int|
        0 <= i < j < pages.len() ==> (#[trigger] pages[i]).next_cursor->0@
            != (#[trigger] pages[j]).next_cursor->0@
}

/// `answer` is what `fetch` may give when asked for the page of `section`
/// after `pages`.
pub open spec fn section_answered<R, F: Fn(&str, Option<&str>) -> AppResult<ReportBundlePage<R>>>(
    fetch: F,
    section: Seq<char>,
    pages: Seq<ReportBundlePage<R>>,
    answer: AppResult<ReportBundlePage<R>>,
) -> bool {
    exists|s: &str, a: Option<&str>|
        s@ == section && opt_str_view(a) == report_request(pages) && #[trigger] call_ensures(fetch, (s, a), answer)
}

/// How collecting `section` failed with `e`: after an unfinished chain of
/// its pages, the next page was answered by an error of `fetch`, or was a
/// page of another section, or named a cursor that a page of the chain
/// named already.
pub open spec fn section_failed<R, F: Fn(&str, Option<&str>) -> AppResult<ReportBundlePage<R>>>(
    fetch: F,
    section: Seq<char>,
    e: AppError,
) -> bool {
    exists|pages: Seq<ReportBundlePage<R>>|
        #![trigger section_open(fetch, section, pages)]
        {
            &&& section_open(fetch, section, pages)
            &&& {
                ||| section_answered(fetch, section, pages, Err::<ReportBundlePage<R>, AppError>(e))
                ||| (is_validation(e, wrong_section_message()) && exists|p: ReportBundlePage<R>|
                    #[trigger] section_answered(fetch, section, pages, Ok::<ReportBundlePage<R>, AppError>(p))
                        && p.section@ != section)
                ||| (is_validation(e, duplicate_report_cursor_message()) && exists|p: ReportBundlePage<R>|
                    {
                        &&& #[trigger] section_answered(fetch, section, pages, Ok::<ReportBundlePage<R>, AppError>(p))
                        &&& p.section@ == section
                        &&& p.next_cursor is Some
                        &&& exists|i: int|
                            0 <= i < pages.len() && (#[trigger] pages[i]).next_cursor->0@ == p.next_cursor->0@
                    })
            }
        }
}

proof fn lemma_section_open<R, F: Fn(&str, Option<&str>) -> AppResult<ReportBundlePage<R>>>(
    fetch: F,
    section: Seq<char>,
    pages: Seq<ReportBundlePage<R>>,
    seen: Seq<String>,
)
    requires
        section_chain(fetch, section, pages),
        pages.len() == seen.len(),
        forall|i: int| 0 <= i < pages.len() ==> (#[trigger] pages[i]).section@ == section,
        forall|i: int| 0 <= i < pages.len() ==> (#[trigger] pages[i]).next_cursor is Some,
        forall|i: int| 0 <= i < pages.len() ==> (#[trigger] pages[i]).next_cursor->0@ == seen[i]@,
        forall|i: int, j: int| 0 <= i < j < seen.len() ==> seen[i]@ != seen[j]@,
    ensures
        section_open(fetch, section, pages),
{
    assert forall|i: int, j: int|
        0 <= i < j < pages.len() implies (#[trigger] pages[i]).next_cursor->0@
            != (#[trigger] pages[j]).next_cursor->0@ by {
        assert(pages[i].next_cursor->0@ == seen[i]@);
        assert(pages[j].next_cursor->0@ == seen[j]@);
    }
}

/// Collects every page of `section` into `bundle`, following the cursors
/// until a page has none.  A page of another section, or a cursor that comes
/// back a second time, is refused.
pub fn collect_section<R, F: Fn(&str, Option<&str>) -> AppResult<ReportBundlePage<R>>>(
    section: &str,
    bundle: &mut ReportBundle<R>,
    fetch: &F,
) -> (r: AppResult<()>)
    requires
        forall|s: &str, c: Option<&str>| call_requires(*fetch, (s, c)),
        section_rows(*old(bundle)).len() == SECTION_COUNT,
    ensures
        final(bundle).month == old(bundle).month,
        r is Ok ==> exists|pages: Seq<ReportBundlePage<R>>|
            #![trigger page_rows(pages)]
            {
                &&& section_chain(*fetch, section@, pages)
                &&& section_complete(section@, pages)
                &&& section_rows(*final(bundle)) == add_rows(section_rows(*old(bundle)), page_rows(pages))
            },
        r matches Err(e) ==> section_failed(*fetch, section@, e),
{
    let mut cursor: Option<String> = None;
    let mut seen: Vec<String> = Vec::new();
    let ghost mut pages: Seq<ReportBundlePage<R>> = Seq::empty();
    proof {
        lemma_add_no_rows(section_rows(*old(bundle)));
    }
    loop
        invariant
            forall|s: &str, c: Option<&str>| call_requires(*fetch, (s, c)),
            bundle.month == old(bundle).month,
            section_rows(*bundle) == add_rows(section_rows(*old(bundle)), page_rows(pages)),
            section_chain(*fetch, section@, pages),
            opt_view(cursor) == report_request(pages),
            pages.len() == seen@.len(),
            forall|i: int| 0 <= i < pages.len() ==> (#[trigger] pages[i]).section@ == section@,
            forall|i: int| 0 <= i < pages.len() ==> (#[trigger] pages[i]).next_cursor is Some,
            forall|i: int| 0 <= i < pages.len() ==> (#[trigger] pages[i]).next_cursor->0@ == seen@[i]@,
            forall|i: int, j: int| 0 <= i < j < seen@.len() ==> seen@[i]@ != seen@[j]@,
        decreases usize::MAX - seen@.len(),
    {
        let arg = cursor_arg(&cursor);
        let answer = fetch(section, arg);
        let page = match answer {
            Ok(p) => p,
            Err(e) => {
                proof {
                    assert(call_ensures(*fetch, (section, arg), Err::<ReportBundlePage<R>, AppError>(e)));
                    assert(section_answered(*fetch, section@, pages, Err::<ReportBundlePage<R>, AppError>(e)));
                    lemma_section_open(*fetch, section@, pages, seen@);
                }
                return Err(e);
            },
        };
        if !same_text(page.section.as_str(), section) {
            let r = Err(AppError::Validation(String::from_str("主机返回了错误的报表 section")));
            proof {
                assert(call_ensures(*fetch, (section, arg), Ok::<ReportBundlePage<R>, AppError>(page)));
                assert(section_answered(*fetch, section@, pages, Ok::<ReportBundlePage<R>, AppError>(page)));
                lemma_section_open(*fetch, section@, pages, seen@);
            }
            return r;
        }
        let ghost gp = page;
        proof {
            assert(call_ensures(*fetch, (section, arg), Ok::<ReportBundlePage<R>, AppError>(gp)));
            assert(report_fetched(*fetch, section@, report_request(pages), gp));
            assert(pages.push(gp).drop_last() =~= pages);
            lemma_add_rows_assoc(section_rows(*old(bundle)), page_rows(pages), section_rows(gp.bundle));
        }
        let ReportBundlePage { section: _, bundle: page_bundle, next_cursor } = page;
        merge(bundle, page_bundle);
        let next = match next_cursor {
            Some(n) => n,
            None => {
                proof {
                    assert forall|i: int, j: int|
                        0 <= i < j < pages.len() implies (#[trigger] pages[i]).next_cursor->0@ != (
                        #[trigger] pages[j]).next_cursor->0@ by {
                        assert(seen@[i]@ != seen@[j]@);
                    }
                    lemma_section_done(section@, pages, gp);
                    pages = pages.push(gp);
                    assert(section_rows(*bundle) == add_rows(section_rows(*old(bundle)), page_rows(pages)));
                }
                return Ok(());
            },
        };
        if contains_text(&seen, next.as_str()) {
            let r = Err(AppError::Validation(String::from_str("主机返回了重复报表分页游标")));
            proof {
                assert(section_answered(*fetch, section@, pages, Ok::<ReportBundlePage<R>, AppError>(gp)));
                let i = choose|i: int| 0 <= i < seen@.len() && seen@[i]@ == next@;
                assert(pages[i].next_cursor->0@ == gp.next_cursor->0@);
                lemma_section_open(*fetch, section@, pages, seen@);
            }
            return r;
        }
        proof {
            lemma_section_more(section@, pages, seen@, gp, next);
            pages = pages.push(gp);
        }
        seen.push(next.clone());
        let _ = seen.len();
        cursor = Some(next);
    }
}

/// What collecting the report of `month` gives: a report of that month
/// whose rows are those of a complete chain of pages for every section, in
/// section order; or, after complete chains for the sections before it,
/// the failure of the first section that failed.
pub open spec fn report_result<R, F: Fn(&str, Option<&str>) -> AppResult<ReportBundlePage<R>>>(
    fetch: F,
    month: Seq<char>,
    r: AppResult<ReportBundle<R>>,
) -> bool {
    match r {
        Ok(b) => b.month@ == month && exists|chains: Seq<Seq<ReportBundlePage<R>>>|
            #![trigger chain_rows(chains)]
            {
                &&& chains.len() == SECTION_COUNT
                &&& forall|k: int|
                    0 <= k < SECTION_COUNT ==> section_chain(fetch, spec_section(k), #[trigger] chains[k])
                        && section_complete(spec_section(k), chains[k])
                &&& section_rows(b) == chain_rows(chains)
            },
        Err(e) => exists|chains: Seq<Seq<ReportBundlePage<R>>>|
            #![trigger section_failed(fetch, spec_section(chains.len() as int), e)]
            {
                &&& chains.len() < SECTION_COUNT
                &&& forall|k: int|
                    0 <= k < chains.len() ==> section_chain(fetch, spec_section(k), #[trigger] chains[k])
                        && section_complete(spec_section(k), chains[k])
                &&& section_failed(fetch, spec_section(chains.len() as int), e)
            },
    }
}

/// Collects every page of every section of the report of `month`, section
/// by section in the order of `spec_section`.
pub fn collect<R, F: Fn(&str, Option<&str>) -> AppResult<ReportBundlePage<R>>>(
    month: &str,
    fetch: F,
) -> (r: AppResult<ReportBundle<R>>)
    requires
        forall|s: &str, c: Option<&str>| call_requires(fetch, (s, c)),
    ensures
        report_result(fetch, month@, r),
{
    let mut bundle = empty_bundle(month);
    let ghost mut chains: Seq<Seq<ReportBundlePage<R>>> = Seq::empty();
    let mut k: usize = 0;
    while k < SECTION_COUNT
        invariant
            forall|s: &str, c: Option<&str>| call_requires(fetch, (s, c)),
            k <= SECTION_COUNT,
            chains.len() == k,
            bundle.month@ == month@,
            forall|j: int|
                0 <= j < k ==> section_chain(fetch, spec_section(j), #[trigger] chains[j])
                    && section_complete(spec_section(j), chains[j]),
            section_rows(bundle) == chain_rows(chains),
        decreases SECTION_COUNT - k,
    {
        let name = section_name(k);
        let ghost before = bundle;
        match collect_section(name, &mut bundle, &fetch) {
            Ok(()) => {},
            Err(e) => {
                assert(section_failed(fetch, spec_section(chains.len() as int), e));
                assert(chain_rows(chains) == chain_rows(chains));
                return Err(e);
            },
        }
        proof {
            let pages = choose|pages: Seq<ReportBundlePage<R>>|
                #![trigger page_rows(pages)]
                {
                    &&& section_chain(fetch, name@, pages)
                    &&& section_complete(name@, pages)
                    &&& section_rows(bundle) == add_rows(section_rows(before), page_rows(pages))
                };
            let old_chains = chains;
            chains = chains.push(pages);
            assert(chains.drop_last() =~= old_chains);
            assert forall|j: int|
                0 <= j < k + 1 implies section_chain(fetch, spec_section(j), #[trigger] chains[j])
                    && section_complete(spec_section(j), chains[j]) by {
                if j < k {
                    assert(chains[j] == old_chains[j]);
                }
            }
        }
        k = k + 1;
    }
    Ok(bundle)
}

/// `fetch` answers exactly the chain `pages` for `section`: asked for the
/// section's first page it answers `pages[0]`, and asked for the page after
/// the cursor of a page of the chain that names one, the next page of the
/// chain.
pub open spec fn answers_section<R, F: Fn(&str, Option<&str>) -> AppResult<ReportBundlePage<R>>>(
    fetch: F,
    section: Seq<char>,
    pages: Seq<ReportBundlePage<R>>,
) -> bool {
    &&& pages.len() > 0
    &&& forall|s: &str, a: AppResult<ReportBundlePage<R>>|
        s@ == section && #[trigger] call_ensures(fetch, (s, None::<&str>), a) ==> a
            == Ok::<ReportBundlePage<R>, AppError>(pages[0])
    &&& forall|i: int, s: &str, c: &str, a: AppResult<ReportBundlePage<R>>|
        #![trigger pages[i], call_ensures(fetch, (s, Some(c)), a)]
        0 <= i < pages.len() - 1 && pages[i].next_cursor is Some && s@ == section && c@
            == pages[i].next_cursor->0@ && call_ensures(fetch, (s, Some(c)), a) ==> a
            == Ok::<ReportBundlePage<R>, AppError>(pages[i + 1])
}

proof fn lemma_section_follows<R, F: Fn(&str, Option<&str>) -> AppResult<ReportBundlePage<R>>>(
    fetch: F,
    section: Seq<char>,
    pages: Seq<ReportBundlePage<R>>,
    qs: Seq<ReportBundlePage<R>>,
)
    requires
        answers_section(fetch, section, pages),
        section_complete(section, pages),
        section_chain(fetch, section, qs),
        forall|i: int| 0 <= i < qs.len() - 1 ==> (#[trigger] qs[i]).next_cursor is Some,
    ensures
        qs.len() <= pages.len(),
        forall|i: int| 0 <= i < qs.len() ==> qs[i] == pages[i],
    decreases qs.len(),
{
    if qs.len() > 0 {
        let q = qs.drop_last();
        assert forall|i: int| 0 <= i < q.len() - 1 implies (#[trigger] q[i]).next_cursor is Some by {
            assert(q[i] == qs[i]);
        }
        lemma_section_follows(fetch, section, pages, q);
        let m = q.len() as int;
        let last = qs.last();
        assert(report_fetched(fetch, section, report_request(q), last));
        let (s, a) = choose|s: &str, a: Option<&str>|
            s@ == section && opt_str_view(a) == report_request(q) && call_ensures(
                fetch,
                (s, a),
                Ok::<ReportBundlePage<R>, AppError>(last),
            );
        if m == 0 {
            assert(a is None);
            assert(call_ensures(fetch, (s, None::<&str>), Ok::<ReportBundlePage<R>, AppError>(last)));
        } else {
            assert(q[m - 1] == qs[m - 1]);
            assert(qs[m - 1].next_cursor is Some);
            assert(q[m - 1] == pages[m - 1]);
            assert(m - 1 < pages.len() - 1);
            let c = a->Some_0;
            assert(call_ensures(fetch, (s, Some(c)), Ok::<ReportBundlePage<R>, AppError>(last)));
        }
        assert forall|i: int| 0 <= i < qs.len() implies qs[i] == pages[i] by {
            if i < m {
                assert(qs[i] == q[i]);
            }
        }
    }
}

proof fn lemma_section_cannot_fail<R, F: Fn(&str, Option<&str>) -> AppResult<ReportBundlePage<R>>>(
    fetch: F,
    section: Seq<char>,
    pages: Seq<ReportBundlePage<R>>,
    e: AppError,
)
    requires
        answers_section(fetch, section, pages),
        section_complete(section, pages),
    ensures
        !section_failed(fetch, section, e),
{
    if section_failed(fetch, section, e) {
        let qs = choose|qs: Seq<ReportBundlePage<R>>|
            #![trigger section_open(fetch, section, qs)]
            {
                &&& section_open(fetch, section, qs)
                &&& {
                    ||| section_answered(fetch, section, qs, Err::<ReportBundlePage<R>, AppError>(e))
                    ||| (is_validation(e, wrong_section_message()) && exists|p: ReportBundlePage<R>|
                        #[trigger] section_answered(fetch, section, qs, Ok::<ReportBundlePage<R>, AppError>(p))
                            && p.section@ != section)
                    ||| (is_validation(e, duplicate_report_cursor_message()) && exists|p: ReportBundlePage<R>|
                        {
                            &&& #[trigger] section_answered(fetch, section, qs, Ok::<ReportBundlePage<R>, AppError>(p))
                            &&& p.section@ == section
                            &&& p.next_cursor is Some
                            &&& exists|i: int|
                                0 <= i < qs.len() && (#[trigger] qs[i]).next_cursor->0@ == p.next_cursor->0@
                        })
                }
            };
        assert forall|i: int| 0 <= i < qs.len() - 1 implies (#[trigger] qs[i]).next_cursor is Some by {}
        lemma_section_follows(fetch, section, pages, qs);
        let m = qs.len() as int;
        if m == pages.len() {
            assert(qs[m - 1] == pages[m - 1]);
            assert(qs[m - 1].next_cursor is Some);
        }
        if m > 0 {
            assert(qs[m - 1] == pages[m - 1]);
            assert(qs[m - 1].next_cursor is Some);
        }
        assert forall|ans: AppResult<ReportBundlePage<R>>| #[trigger] section_answered(fetch, section, qs, ans) implies ans
            == Ok::<ReportBundlePage<R>, AppError>(pages[m]) by {
            let (s, a) = choose|s: &str, a: Option<&str>|
                s@ == section && opt_str_view(a) == report_request(qs) && call_ensures(fetch, (s, a), ans);
            if m == 0 {
                assert(a is None);
                assert(call_ensures(fetch, (s, None::<&str>), ans));
            } else {
                let c = a->Some_0;
                assert(call_ensures(fetch, (s, Some(c)), ans));
            }
        }
        assert(pages[m].section@ == section);
        if section_answered(fetch, section, qs, Err::<ReportBundlePage<R>, AppError>(e)) {
            assert(false);
        } else if is_validation(e, wrong_section_message()) && exists|p: ReportBundlePage<R>|
            #[trigger] section_answered(fetch, section, qs, Ok::<ReportBundlePage<R>, AppError>(p))
                && p.section@ != section {
            let p = choose|p: ReportBundlePage<R>|
                #[trigger] section_answered(fetch, section, qs, Ok::<ReportBundlePage<R>, AppError>(p))
                    && p.section@ != section;
            assert(Ok::<ReportBundlePage<R>, AppError>(p) == Ok::<ReportBundlePage<R>, AppError>(pages[m]));
            assert(false);
        } else {
            let p = choose|p: ReportBundlePage<R>|
                {
                    &&& #[trigger] section_answered(fetch, section, qs, Ok::<ReportBundlePage<R>, AppError>(p))
                    &&& p.section@ == section
                    &&& p.next_cursor is Some
                    &&& exists|i: int|
                        0 <= i < qs.len() && (#[trigger] qs[i]).next_cursor->0@ == p.next_cursor->0@
                };
            assert(Ok::<ReportBundlePage<R>, AppError>(p) == Ok::<ReportBundlePage<R>, AppError>(pages[m]));
            let i = choose|i: int| 0 <= i < qs.len() && (#[trigger] qs[i]).next_cursor->0@ == p.next_cursor->0@;
            assert(qs[i] == pages[i]);
            if m == pages.len() - 1 {
                assert(pages[m].next_cursor is None);
            }
            assert(pages[i].next_cursor->0@ != pages[m].next_cursor->0@);
            assert(false);
        }
    }
}

/// Law: a report whose every section `fetch` answers as one complete chain
/// of that section's pages, every page but the last naming a next cursor,
/// no cursor twice within a section, is collected without error: the
/// report of `month` whose rows are those of the chains, section by
/// section in collection order, each in page order.
pub proof fn law_report_follows_the_chains<R, F: Fn(&str, Option<&str>) -> AppResult<ReportBundlePage<R>>>(
    fetch: F,
    month: Seq<char>,
    chains: Seq<Seq<ReportBundlePage<R>>>,
    r: AppResult<ReportBundle<R>>,
)
    requires
        chains.len() == SECTION_COUNT,
        forall|k: int|
            0 <= k < SECTION_COUNT ==> answers_section(fetch, spec_section(k), #[trigger] chains[k])
                && section_complete(spec_section(k), chains[k]),
        report_result(fetch, month, r),
    ensures
        r matches Ok(b) && b.month@ == month && section_rows(b) == chain_rows(chains),
{
    match r {
        Ok(b) => {
            let cs = choose|cs: Seq<Seq<ReportBundlePage<R>>>|
                #![trigger chain_rows(cs)]
                {
                    &&& cs.len() == SECTION_COUNT
                    &&& forall|k: int|
                        0 <= k < SECTION_COUNT ==> section_chain(fetch, spec_section(k), #[trigger] cs[k])
                            && section_complete(spec_section(k), cs[k])
                    &&& section_rows(b) == chain_rows(cs)
                };
            assert forall|k: int| 0 <= k < SECTION_COUNT implies #[trigger] cs[k] == chains[k] by {
                let qs = cs[k];
                let pages = chains[k];
                assert(section_complete(spec_section(k), qs));
                assert(answers_section(fetch, spec_section(k), pages) && section_complete(spec_section(k), pages));
                lemma_section_follows(fetch, spec_section(k), pages, qs);
                if qs.len() < pages.len() {
                    assert(qs[qs.len() - 1] == pages[qs.len() - 1]);
                    assert(pages[qs.len() - 1].next_cursor is Some);
                }
                assert(qs =~= pages);
            }
            assert(cs =~= chains);
            assert(section_rows(b) == chain_rows(chains));
        },
        Err(e) => {
            let cs = choose|cs: Seq<Seq<ReportBundlePage<R>>>|
                #![trigger section_failed(fetch, spec_section(cs.len() as int), e)]
                {
                    &&& cs.len() < SECTION_COUNT
                    &&& forall|k: int|
                        0 <= k < cs.len() ==> section_chain(fetch, spec_section(k), #[trigger] cs[k])
                            && section_complete(spec_section(k), cs[k])
                    &&& section_failed(fetch, spec_section(cs.len() as int), e)
                };
            let k = cs.len() as int;
            assert(0 <= k < SECTION_COUNT);
            assert(answers_section(fetch, spec_section(k), chains[k]));
            assert(section_complete(spec_section(k), chains[k]));
            lemma_section_cannot_fail(fetch, spec_section(k), chains[k], e);
        },
    }
}

/// The section whose query fills a page of section `k`: the outbound
/// details are read with the department details query.
pub open spec fn spec_section_source(k: int) -> int {
    if k == 6 {
        2
    } else {
        k
    }
}

/// The message given for a section that the report does not have.
pub open spec fn unknown_section_message() -> Seq<char> {
    "未知报表分页 section"@
}

/// `section` names no section of the report.
pub open spec fn unknown_section(section: Seq<char>) -> bool {
    forall|k: int| 0 <= k < SECTION_COUNT ==> spec_section(k) != section
}

/// The position of the section called `section`.
pub fn section_index(section: &str) -> (r: Option<usize>)
    ensures
        match r {
            Some(k) => k < SECTION_COUNT && spec_section(k as int) == section@,
            None => unknown_section(section@),
        },
{
    let mut k: usize = 0;
    while k < SECTION_COUNT
        invariant
            k <= SECTION_COUNT,
            forall|j: int| 0 <= j < k ==> spec_section(j) != section@,
        decreases SECTION_COUNT - k,
    {
        if same_text(section_name(k), section) {
            return Some(k);
        }
        k = k + 1;
    }
    None
}

fn set_section_rows<R>(bundle: &mut ReportBundle<R>, k: usize, rows: Vec<R>)
    requires
        k < SECTION_COUNT,
    ensures
        final(bundle).month == old(bundle).month,
        section_rows(*final(bundle)) == section_rows(*old(bundle)).update(k as int, rows@),
{
    if k == 0 {
        bundle.monthly_inventory = rows;
    } else if k == 1 {
        bundle.department_summary = rows;
    } else if k == 2 {
        bundle.department_details = rows;
    } else if k == 3 {
        bundle.category_consumption = rows;
    } else if k == 4 {
        bundle.item_consumption_ranking = rows;
    } else if k == 5 {
        bundle.inbound_details = rows;
    } else if k == 6 {
        bundle.outbound_details = rows;
    } else if k == 7 {
        bundle.sales_profit = rows;
    } else if k == 8 {
        bundle.stock_balances = rows;
    } else if k == 9 {
        bundle.stock_warnings = rows;
    } else {
        bundle.stocktake_differences = rows;
    }
    assert(section_rows(*bundle) =~= section_rows(*old(bundle)).update(k as int, rows@));
}

/// The pagination scope of a page of `section` of the report asked for by
/// the query whose JSON text is `query_json`: cursors are bound to it.
pub open spec fn spec_report_scope(section: Seq<char>, query_json: Seq<char>) -> Seq<char> {
    "report:"@ + section + ":"@ + query_json
}

/// The pagination scope of a page of `section` for the query `query_json`.
pub fn report_scope(section: &str, query_json: &str) -> (r: String)
    ensures
        r@ == spec_report_scope(section@, query_json@),
{
    String::from_str("report:").concat(section).concat(":").concat(query_json)
}

/// The page of section `k` of the report of `month` that `page` holds: the
/// page's rows in that section only, and its next cursor.
pub open spec fn report_page_of<R>(month: Seq<char>, section: Seq<char>, k: int, page: Page<R>, p: ReportBundlePage<R>) -> bool {
    &&& p.section@ == section
    &&& p.bundle.month@ == month
    &&& section_rows(p.bundle) == no_rows::<R>().update(k, page.items@)
    &&& p.next_cursor == page.next_cursor
}

/// What reading one page of `section` of the report of `month` gives:
/// `locate` gives the page's offset in the scope of the section and the
/// query `query_json`, its error being the answer; a section that the
/// report does not have is refused; else `read` reads the section's query
/// at that offset in that scope, and the page holds its rows in that
/// section only.
pub open spec fn report_page_result<R, O: FnOnce(&str) -> AppResult<i64>, F: FnOnce(&str, usize, i64) -> AppResult<Page<R>>>(
    month: Seq<char>,
    section: Seq<char>,
    query_json: Seq<char>,
    locate: O,
    read: F,
    r: AppResult<ReportBundlePage<R>>,
) -> bool {
    exists|scope: &str, located: AppResult<i64>|
        {
            &&& scope@ == spec_report_scope(section, query_json)
            &&& #[trigger] call_ensures(locate, (scope,), located)
            &&& match located {
                Err(e) => r == Err::<ReportBundlePage<R>, AppError>(e),
                Ok(o) => if unknown_section(section) {
                    r matches Err(e) && is_validation(e, unknown_section_message())
                } else {
                    exists|k: usize, fetched: AppResult<Page<R>>|
                        {
                            &&& k < SECTION_COUNT
                            &&& spec_section(k as int) == section
                            &&& #[trigger] call_ensures(
                                read,
                                (scope, spec_section_source(k as int) as usize, o),
                                fetched,
                            )
                            &&& match fetched {
                                Err(e) => r == Err::<ReportBundlePage<R>, AppError>(e),
                                Ok(page) => r matches Ok(p) && report_page_of(month, section, k as int, page, p),
                            }
                        }
                },
            }
        }
}

proof fn lemma_section_names_distinct(i: int, j: int)
    requires
        0 <= i < SECTION_COUNT,
        0 <= j < SECTION_COUNT,
        i != j,
    ensures
        spec_section(i) != spec_section(j),
{
    reveal_strlit("monthlyInventory");
    reveal_strlit("departmentSummary");
    reveal_strlit("departmentDetails");
    reveal_strlit("categoryConsumption");
    reveal_strlit("itemConsumptionRanking");
    reveal_strlit("inboundDetails");
    reveal_strlit("outboundDetails");
    reveal_strlit("salesProfit");
    reveal_strlit("stockBalances");
    reveal_strlit("stockWarnings");
    reveal_strlit("stocktakeDifferences");
    assert("departmentSummary"@[10] != "departmentDetails"@[10]);
    assert("stockBalances"@[5] != "stockWarnings"@[5]);
    if spec_section(i) == spec_section(j) {
        assert(spec_section(i).len() == spec_section(j).len());
        if spec_section(i).len() == 17 {
            assert(spec_section(i)[10] == spec_section(j)[10]);
        }
        if spec_section(i).len() == 13 {
            assert(spec_section(i)[5] == spec_section(j)[5]);
        }
    }
}

/// Law: a page of a report section is read with that section's own query,
/// except the outbound details, which are read with the department
/// details query; and the page holds the rows that query read, in the
/// section asked for and in no other.
pub proof fn law_report_page_reads_its_sections_query<
    R,
    O: FnOnce(&str) -> AppResult<i64>,
    F: FnOnce(&str, usize, i64) -> AppResult<Page<R>>,
>(
    month: Seq<char>,
    section: Seq<char>,
    query_json: Seq<char>,
    locate: O,
    read: F,
    r: AppResult<ReportBundlePage<R>>,
)
    requires
        report_page_result(month, section, query_json, locate, read, r),
    ensures
        r matches Ok(p) ==> exists|scope: &str, source: usize, o: i64, page: Page<R>|
            {
                &&& #[trigger] call_ensures(read, (scope, source, o), Ok::<Page<R>, AppError>(page))
                &&& source < SECTION_COUNT
                &&& spec_section(source as int) == if section == "outboundDetails"@ {
                    "departmentDetails"@
                } else {
                    section
                }
                &&& p.section@ == section
                &&& forall|j: int|
                    0 <= j < SECTION_COUNT ==> #[trigger] section_rows(p.bundle)[j] == if spec_section(j) == section {
                        page.items@
                    } else {
                        Seq::<R>::empty()
                    }
            },
{
    reveal_strlit("monthlyInventory");
    reveal_strlit("departmentSummary");
    reveal_strlit("departmentDetails");
    reveal_strlit("categoryConsumption");
    reveal_strlit("itemConsumptionRanking");
    reveal_strlit("inboundDetails");
    reveal_strlit("outboundDetails");
    reveal_strlit("salesProfit");
    reveal_strlit("stockBalances");
    reveal_strlit("stockWarnings");
    reveal_strlit("stocktakeDifferences");
    if r is Ok {
        let p = r->Ok_0;
        let (scope, located) = choose|scope: &str, located: AppResult<i64>|
            {
                &&& scope@ == spec_report_scope(section, query_json)
                &&& #[trigger] call_ensures(locate, (scope,), located)
                &&& match located {
                    Err(e) => r == Err::<ReportBundlePage<R>, AppError>(e),
                    Ok(o) => if unknown_section(section) {
                        r matches Err(e) && is_validation(e, unknown_section_message())
                    } else {
                        exists|k: usize, fetched: AppResult<Page<R>>|
                            {
                                &&& k < SECTION_COUNT
                                &&& spec_section(k as int) == section
                                &&& #[trigger] call_ensures(
                                    read,
                                    (scope, spec_section_source(k as int) as usize, o),
                                    fetched,
                                )
                                &&& match fetched {
                                    Err(e) => r == Err::<ReportBundlePage<R>, AppError>(e),
                                    Ok(page) => r matches Ok(p) && report_page_of(month, section, k as int, page, p),
                                }
                            }
                    },
                }
            };
        let o = located->Ok_0;
        let (k, fetched) = choose|k: usize, fetched: AppResult<Page<R>>|
            {
                &&& k < SECTION_COUNT
                &&& spec_section(k as int) == section
                &&& #[trigger] call_ensures(read, (scope, spec_section_source(k as int) as usize, o), fetched)
                &&& match fetched {
                    Err(e) => r == Err::<ReportBundlePage<R>, AppError>(e),
                    Ok(page) => r matches Ok(p) && report_page_of(month, section, k as int, page, p),
                }
            };
        let page = fetched->Ok_0;
        let source = spec_section_source(k as int) as usize;
        assert(call_ensures(read, (scope, source, o), Ok::<Page<R>, AppError>(page)));
        assert forall|j: int| 0 <= j < SECTION_COUNT implies #[trigger] section_rows(p.bundle)[j] == if spec_section(j)
            == section {
            page.items@
        } else {
            Seq::<R>::empty()
        } by {
            assert(section_rows(p.bundle) == no_rows::<R>().update(k as int, page.items@));
            if j != k {
                lemma_section_names_distinct(j, k as int);
            }
        }
        if section == "outboundDetails"@ {
            if k != 6 {
                lemma_section_names_distinct(6, k as int);
            }
        } else {
            assert(k != 6);
        }
    }
}

/// Reads one page of one section of the report of `month` asked for by the
/// query whose JSON text is `query_json`.  The page's scope binds its
/// cursors to the section and the query: `locate` gives the offset of the
/// page in that scope (checking the cursor), then, for a known section,
/// `read` reads the rows of the section's query at that offset in that
/// scope, and the page holds them in that section only.
pub fn get_page<R, O: FnOnce(&str) -> AppResult<i64>, F: FnOnce(&str, usize, i64) -> AppResult<Page<R>>>(
    month: &str,
    section: &str,
    query_json: &str,
    locate: O,
    read: F,
) -> (r: AppResult<ReportBundlePage<R>>)
    requires
        forall|s: &str| call_requires(locate, (s,)),
        forall|s: &str, k: usize, o: i64| call_requires(read, (s, k, o)),
    ensures
        report_page_result(month@, section@, query_json@, locate, read, r),
{
    let scope = report_scope(section, query_json);
    let scope_text = scope.as_str();
    let located = locate(scope_text);
    assert(call_ensures(locate, (scope_text,), located));
    let offset = match located {
        Ok(o) => o,
        Err(e) => {
            return Err(e);
        },
    };
    let k = match section_index(section) {
        Some(k) => k,
        None => {
            return Err(validation("未知报表分页 section"));
        },
    };
    let source: usize = if k == 6 {
        2
    } else {
        k
    };
    let fetched = read(scope_text, source, offset);
    assert(call_ensures(read, (scope_text, spec_section_source(k as int) as usize, offset), fetched));
    let page = match fetched {
        Ok(p) => p,
        Err(e) => {
            return Err(e);
        },
    };
    let ghost gp = page;
    let Page { items, next_cursor } = page;
    let mut bundle = empty_bundle(month);
    set_section_rows(&mut bundle, k, items);
    let r = ReportBundlePage { section: String::from_str(section), bundle, next_cursor };
    assert(report_page_of(month@, section@, k as int, gp, r));
    Ok(r)
}

} // verus!
