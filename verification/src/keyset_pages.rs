use vstd::prelude::*;
use vstd::string::*;

use crate::error::{AppError, AppResult};
use crate::pagination::{invalid_cursor_message, same_revision, Page, Revision, PAGE_SIZE};
use crate::text::{opt_view, same_text, spec_trim, trim};

verus! {

/// The JSON text of a list of optional strings, as `serde_json` writes it:
/// an array whose items are strings or `null`.
pub uninterp spec fn json_array_of(values: Seq<Option<Seq<char>>>) -> Seq<char>;

/// The views of a list of optional strings.
pub open spec fn opt_views(values: Seq<Option<String>>) -> Seq<Option<Seq<char>>> {
    values.map_values(|v: Option<String>| opt_view(v))
}

/// Calls `serde_json::to_string` on a list of optional strings; the text is
/// named by `json_array_of`.  Serializing fails only where a value's own
/// serialization decides to or a map has keys that are not strings, which
/// a list of optional strings never does, so the text always comes back;
/// an error would come back as its message.
#[verifier::external_body]
fn json_array_text(values: &Vec<Option<String>>) -> (r: Result<String, String>)
    ensures
        r is Ok,
        r matches Ok(t) ==> t@ == json_array_of(opt_views(values@)),
{
    serde_json::to_string(values).map_err(|error| error.to_string())
}

/// The scope of a listing: its name, `':'` and the JSON array of its
/// filters.
pub open spec fn spec_query_scope(prefix: Seq<char>, values: Seq<Option<Seq<char>>>) -> Seq<char> {
    prefix + ":"@ + json_array_of(values)
}

/// Builds the scope of a listing from its filters; a filter list that
/// cannot be written as JSON is refused.
pub fn query_scope(prefix: &str, values: &Vec<Option<String>>) -> (r: AppResult<String>)
    ensures
        r matches Ok(s) && s@ == spec_query_scope(prefix@, opt_views(values@)),
{
    match json_array_text(values) {
        Ok(text) => Ok(String::from_str(prefix).concat(":").concat(text.as_str())),
        Err(message) => Err(AppError::Validation(String::from_str("分页查询序列化失败：").concat(message.as_str()))),
    }
}

/// A filter as the listing uses it: kept as given unless it is blank.
pub open spec fn spec_normalize(value: Option<Seq<char>>) -> Option<Seq<char>> {
    match value {
        Some(v) => if spec_trim(v).len() > 0 {
            Some(v)
        } else {
            None
        },
        None => None,
    }
}

/// Drops a blank filter.
pub fn normalize(value: Option<String>) -> (r: Option<String>)
    ensures
        opt_view(r) == spec_normalize(opt_view(value)),
{
    match value {
        Some(v) => if trim(v.as_str()).is_empty() {
            None
        } else {
            Some(v)
        },
        None => None,
    }
}

/// The filters of the stock document listing, as the caller gives them.
pub struct StockDocumentQuery {
    pub document_type: Option<String>,
    pub outbound_kind: Option<String>,
    pub month: Option<String>,
    pub department_id: Option<String>,
    pub supplier_id: Option<String>,
    pub item_id: Option<String>,
    pub handler: Option<String>,
    pub search: Option<String>,
}

/// The parameters that a page of the stock document listing is read with:
/// the filters in the order of the query, the search pattern last, and the
/// scope.
pub struct DocumentFilter {
    pub values: Vec<Option<String>>,
    pub scope: String,
}

/// The filter values of a document query: each normalized, the search
/// wrapped in `%`.
pub open spec fn spec_document_values(q: StockDocumentQuery) -> Seq<Option<Seq<char>>> {
    seq![
        spec_normalize(opt_view(q.document_type)),
        spec_normalize(opt_view(q.outbound_kind)),
        spec_normalize(opt_view(q.month)),
        spec_normalize(opt_view(q.department_id)),
        spec_normalize(opt_view(q.supplier_id)),
        spec_normalize(opt_view(q.item_id)),
        spec_normalize(opt_view(q.handler)),
        match spec_normalize(opt_view(q.search)) {
            Some(v) => Some("%"@ + v + "%"@),
            None => None,
        },
    ]
}

fn like_of(value: Option<String>) -> (r: Option<String>)
    ensures
        opt_view(r) == match opt_view(value) {
            Some(v) => Some("%"@ + v + "%"@),
            None => None,
        },
{
    match value {
        Some(v) => Some(String::from_str("%").concat(v.as_str()).concat("%")),
        None => None,
    }
}

/// The parameters of the stock document listing.
pub fn document_filter(query: StockDocumentQuery) -> (r: AppResult<DocumentFilter>)
    ensures
        r matches Ok(f) ==> opt_views(f.values@) == spec_document_values(query) && f.scope@
            == spec_query_scope("stock-documents"@, spec_document_values(query)),
        r is Ok,
{
    let ghost q = query;
    let StockDocumentQuery {
        document_type,
        outbound_kind,
        month,
        department_id,
        supplier_id,
        item_id,
        handler,
        search,
    } = query;
    let mut values: Vec<Option<String>> = Vec::new();
    values.push(normalize(document_type));
    values.push(normalize(outbound_kind));
    values.push(normalize(month));
    values.push(normalize(department_id));
    values.push(normalize(supplier_id));
    values.push(normalize(item_id));
    values.push(normalize(handler));
    values.push(like_of(normalize(search)));
    assert(opt_views(values@) =~= spec_document_values(q));
    let scope = query_scope("stock-documents", &values)?;
    Ok(DocumentFilter { values, scope })
}

/// The filters of the stock movement listing, as the caller gives them.
pub struct StockMovementQuery {
    pub search: Option<String>,
    pub item_id: Option<String>,
    pub department_id: Option<String>,
    pub direction: Option<String>,
    pub movement_type: Option<String>,
}

/// The parameters that a page of the stock movement listing is read with.
pub struct MovementFilter {
    /// `LIKE` pattern of the trimmed search.
    pub like: String,
    pub item_id: Option<String>,
    pub department_id: Option<String>,
    pub direction: Option<String>,
    pub movement_type: Option<String>,
    pub scope: String,
}

/// The filter values of a movement query: the trimmed search wrapped in `%`
/// and the normalized filters.
pub open spec fn spec_movement_values(q: StockMovementQuery) -> Seq<Option<Seq<char>>> {
    let search = match opt_view(q.search) {
        Some(s) => s,
        None => Seq::empty(),
    };
    seq![
        Some("%"@ + spec_trim(search) + "%"@),
        spec_normalize(opt_view(q.item_id)),
        spec_normalize(opt_view(q.department_id)),
        spec_normalize(opt_view(q.direction)),
        spec_normalize(opt_view(q.movement_type)),
    ]
}

fn clone_text(value: &Option<String>) -> (r: Option<String>)
    ensures
        opt_view(r) == opt_view(*value),
{
    match value {
        Some(v) => Some(v.clone()),
        None => None,
    }
}

/// The parameters of the stock movement listing.
pub fn movement_filter(query: StockMovementQuery) -> (r: AppResult<MovementFilter>)
    ensures
        r matches Ok(f) ==> {
            let v = spec_movement_values(query);
            &&& Some(f.like@) == v[0]
            &&& opt_view(f.item_id) == v[1]
            &&& opt_view(f.department_id) == v[2]
            &&& opt_view(f.direction) == v[3]
            &&& opt_view(f.movement_type) == v[4]
            &&& f.scope@ == spec_query_scope("stock-movements"@, v)
        },
        r is Ok,
{
    let ghost q = query;
    let StockMovementQuery { search, item_id, department_id, direction, movement_type } = query;
    let like = match &search {
        Some(s) => String::from_str("%").concat(trim(s.as_str())).concat("%"),
        None => {
            proof {
                reveal_strlit("");
            }
            String::from_str("%").concat(trim("")).concat("%")
        },
    };
    let item_id = normalize(item_id);
    let department_id = normalize(department_id);
    let direction = normalize(direction);
    let movement_type = normalize(movement_type);
    let mut values: Vec<Option<String>> = Vec::new();
    values.push(Some(like.clone()));
    values.push(clone_text(&item_id));
    values.push(clone_text(&department_id));
    values.push(clone_text(&direction));
    values.push(clone_text(&movement_type));
    assert(opt_views(values@) =~= spec_movement_values(q));
    let scope = query_scope("stock-movements", &values)?;
    Ok(MovementFilter { like, item_id, department_id, direction, movement_type, scope })
}

/// A position in a listing ordered by date, creation time and id, bound to
/// the listing's scope and the revision it was read at.
pub struct KeysetCursor {
    pub scope: String,
    pub revision: Revision,
    pub sort_date: String,
    pub created_at: String,
    pub id: String,
}

/// Accepts a decoded cursor for the listing `scope` at revision `current`;
/// one of another scope or revision is refused.
pub fn check_keyset_cursor(cursor: Option<KeysetCursor>, scope: &str, current: &Revision) -> (r: AppResult<
    Option<KeysetCursor>,
>)
    ensures
        match cursor {
            None => r matches Ok(None),
            Some(c) => if c.scope@ == scope@ && c.revision@ == current@ {
                r == Ok::<Option<KeysetCursor>, AppError>(Some(c))
            } else {
                r matches Err(e) && e matches AppError::Validation(m) && m@ == invalid_cursor_message()
            },
        },
{
    match cursor {
        None => Ok(None),
        Some(c) => if same_text(c.scope.as_str(), scope) && same_revision(&c.revision, current) {
            Ok(Some(c))
        } else {
            Err(AppError::Validation(String::from_str("分页游标无效或不属于当前查询")))
        },
    }
}

/// Cuts the rows fetched for a keyset page (one more than fit) to
/// `PAGE_SIZE` and tells whether another page follows.
pub fn finish_keyset_page<T>(items: Vec<T>) -> (r: (Vec<T>, bool))
    ensures
        items@.len() > PAGE_SIZE ==> r.0@ == items@.take(PAGE_SIZE as int) && r.1,
        items@.len() <= PAGE_SIZE ==> r.0@ == items@ && !r.1,
{
    let mut items = items;
    if items.len() > 500 {
        items.truncate(500);
        (items, true)
    } else {
        (items, false)
    }
}

/// Reads one page of the stock document listing: the parameters come from
/// `query`, and `fetch` reads the page after `cursor` with them.
pub fn list_documents_page<R, F: Fn(&DocumentFilter, Option<&str>) -> AppResult<Page<R>>>(
    query: StockDocumentQuery,
    cursor: Option<&str>,
    fetch: &F,
) -> (r: AppResult<Page<R>>)
    requires
        forall|f: &DocumentFilter, c: Option<&str>| call_requires(*fetch, (f, c)),
    ensures
        exists|f: &DocumentFilter|
            opt_views(f.values@) == spec_document_values(query) && f.scope@ == spec_query_scope(
                "stock-documents"@,
                spec_document_values(query),
            ) && #[trigger] call_ensures(*fetch, (f, cursor), r),
{
    let filter = match document_filter(query) {
        Ok(f) => f,
        Err(e) => {
            return Err(e);
        },
    };
    let r = fetch(&filter, cursor);
    assert(call_ensures(*fetch, (&filter, cursor), r));
    r
}

/// Reads one page of the stock movement listing: the parameters come from
/// `query`, and `fetch` reads the page after `cursor` with them.
pub fn list_movements_page<R, F: Fn(&MovementFilter, Option<&str>) -> AppResult<Page<R>>>(
    query: StockMovementQuery,
    cursor: Option<&str>,
    fetch: &F,
) -> (r: AppResult<Page<R>>)
    requires
        forall|f: &MovementFilter, c: Option<&str>| call_requires(*fetch, (f, c)),
    ensures
        exists|f: &MovementFilter|
            f.scope@ == spec_query_scope("stock-movements"@, spec_movement_values(query)) && Some(f.like@)
                == spec_movement_values(query)[0] && opt_view(f.item_id) == spec_movement_values(query)[1]
                && opt_view(f.department_id) == spec_movement_values(query)[2] && opt_view(f.direction)
                == spec_movement_values(query)[3] && opt_view(f.movement_type) == spec_movement_values(
                query,
            )[4] && #[trigger] call_ensures(*fetch, (f, cursor), r),
{
    let filter = match movement_filter(query) {
        Ok(f) => f,
        Err(e) => {
            return Err(e);
        },
    };
    let r = fetch(&filter, cursor);
    assert(call_ensures(*fetch, (&filter, cursor), r));
    r
}

} // verus!
