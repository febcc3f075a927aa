use vstd::prelude::*;
use vstd::string::*;
use vstd::utf8::{encode_scalar, encode_utf8};

use crate::text::{opt_str_view, opt_view};

verus! {

/// The filters of the report pages, as the caller gives them.
pub struct ReportQuery {
    pub month: String,
    pub start_date: Option<String>,
    pub end_date: Option<String>,
    pub department_id: Option<String>,
    pub category_id: Option<String>,
    pub item_id: Option<String>,
    pub supplier_id: Option<String>,
}

/// The filters that the report queries are run with.
pub struct ReportFilters<'a> {
    pub month: &'a str,
    pub start_date: Option<String>,
    pub end_date: Option<String>,
    pub department_id: Option<&'a str>,
    pub category_id: Option<&'a str>,
    pub item_id: Option<&'a str>,
    pub supplier_id: Option<&'a str>,
}

/// A date bound: a bare date (ten bytes, `YYYY-MM-DD`) is extended to the
/// first or, for an end bound, the last second of that day; anything else
/// is kept as given.
pub open spec fn spec_bound(value: Seq<char>, end: bool) -> Seq<char> {
    if encode_utf8(value).len() == 10 {
        value + " "@ + (if end {
            "23:59:59"@
        } else {
            "00:00:00"@
        })
    } else {
        value
    }
}

/// The bound of an optional date.
pub open spec fn spec_opt_bound(value: Option<Seq<char>>, end: bool) -> Option<Seq<char>> {
    match value {
        Some(v) => Some(spec_bound(v, end)),
        None => None,
    }
}

proof fn lemma_encode_len_concat(a: Seq<char>, b: Seq<char>)
    ensures
        encode_utf8(a + b).len() == encode_utf8(a).len() + encode_utf8(b).len(),
    decreases a.len(),
{
    if a.len() == 0 {
        assert(a + b =~= b);
    } else {
        lemma_encode_len_concat(a.drop_first(), b);
        assert((a + b).drop_first() =~= a.drop_first() + b);
        assert((a + b)[0] == a[0]);
    }
}

proof fn lemma_encode_len_one(c: char)
    ensures
        encode_utf8(seq![c]).len() == encode_scalar(c as u32).len(),
{
    assert(seq![c].drop_first() =~= Seq::<char>::empty());
    assert(encode_utf8(Seq::<char>::empty()).len() == 0);
    assert(seq![c][0] == c);
    assert(encode_utf8(seq![c]) == encode_scalar(c as u32) + encode_utf8(seq![c].drop_first()));
}

fn char_width(c: char) -> (w: usize)
    ensures
        w == encode_scalar(c as u32).len(),
        1 <= w <= 4,
{
    let v = c as u32;
    if v <= 0x7F {
        1
    } else if v <= 0x7FF {
        2
    } else if v <= 0xFFFF && !(0xD800 <= v && v <= 0xDFFF) {
        3
    } else {
        4
    }
}

/// Whether the UTF-8 encoding of `value` is ten bytes long.
fn is_ten_bytes(value: &str) -> (r: bool)
    ensures
        r == (encode_utf8(value@).len() == 10),
{
    let n = value.unicode_len();
    let mut total: usize = 0;
    let mut i: usize = 0;
    while i < n
        invariant
            n == value@.len(),
            i <= n,
            total == encode_utf8(value@.take(i as int)).len(),
            total <= 10,
        decreases n - i,
    {
        let c = value.get_char(i);
        let w = char_width(c);
        proof {
            assert(value@.take(i + 1) =~= value@.take(i as int) + seq![c]);
            lemma_encode_len_concat(value@.take(i as int), seq![c]);
            lemma_encode_len_one(c);
        }
        if total + w > 10 {
            proof {
                assert(value@ =~= value@.take(i + 1) + value@.skip(i + 1));
                lemma_encode_len_concat(value@.take(i + 1), value@.skip(i + 1));
            }
            return false;
        }
        total = total + w;
        i = i + 1;
    }
    assert(value@.take(n as int) =~= value@);
    total == 10
}

/// Extends a bare date to a time bound.
pub fn bound(value: &str, end: bool) -> (r: String)
    ensures
        r@ == spec_bound(value@, end),
{
    if is_ten_bytes(value) {
        let time = if end {
            "23:59:59"
        } else {
            "00:00:00"
        };
        String::from_str(value).concat(" ").concat(time)
    } else {
        String::from_str(value)
    }
}

fn opt_bound(value: &Option<String>, end: bool) -> (r: Option<String>)
    ensures
        opt_view(r) == spec_opt_bound(opt_view(*value), end),
{
    match value {
        Some(v) => Some(bound(v.as_str(), end)),
        None => None,
    }
}

fn opt_ref(value: &Option<String>) -> (r: Option<&str>)
    ensures
        opt_str_view(r) == opt_view(*value),
{
    match value {
        Some(v) => Some(v.as_str()),
        None => None,
    }
}

impl<'a> ReportFilters<'a> {
    /// The filters of `query`: the month and the ids as given, the dates
    /// extended to time bounds.
    pub fn from_query(query: &'a ReportQuery) -> (r: ReportFilters<'a>)
        ensures
            r.month@ == query.month@,
            opt_view(r.start_date) == spec_opt_bound(opt_view(query.start_date), false),
            opt_view(r.end_date) == spec_opt_bound(opt_view(query.end_date), true),
            opt_str_view(r.department_id) == opt_view(query.department_id),
            opt_str_view(r.category_id) == opt_view(query.category_id),
            opt_str_view(r.item_id) == opt_view(query.item_id),
            opt_str_view(r.supplier_id) == opt_view(query.supplier_id),
    {
        ReportFilters {
            month: query.month.as_str(),
            start_date: opt_bound(&query.start_date, false),
            end_date: opt_bound(&query.end_date, true),
            department_id: opt_ref(&query.department_id),
            category_id: opt_ref(&query.category_id),
            item_id: opt_ref(&query.item_id),
            supplier_id: opt_ref(&query.supplier_id),
        }
    }
}

} // verus!
