use vstd::prelude::*;
use vstd::string::*;

use crate::error::{is_validation, validation, AppError, AppResult};
use crate::pagination::{collect_all, listing_result, Page};
use crate::ids::new_id;
use crate::stock_rules::item_code_candidate;
use crate::text::{pad_zeros, spec_decimal};
use crate::text::{
    blank_to_none, opt_as_str, opt_str_view, opt_view, same_text, spec_blank_to_none, spec_trim, trim,
};

verus! {

/// The message for an edit that carries no version.
pub open spec fn missing_version_message() -> Seq<char> {
    "编辑记录缺少版本信息，请刷新后重试"@
}

/// The message for an edit of a record that does not exist.
pub open spec fn missing_record_message() -> Seq<char> {
    "要编辑的记录不存在"@
}

/// The message for an edit made against an outdated version.
pub open spec fn stale_version_message() -> Seq<char> {
    "记录已被其他客户端修改，请刷新后重试"@
}

/// Optimistic locking: an edit that names version `expected` (trimmed, and
/// not blank) is accepted only when the record exists and its stored version
/// `current` is that version.
pub fn require_current_version(expected_updated_at: Option<&str>, current_updated_at: Option<&str>) -> (r:
    AppResult<()>)
    ensures
        match opt_str_view(expected_updated_at) {
            None => r matches Err(e) && is_validation(e, missing_version_message()),
            Some(x) => if spec_trim(x).len() == 0 {
                r matches Err(e) && is_validation(e, missing_version_message())
            } else {
                match opt_str_view(current_updated_at) {
                    None => r matches Err(e) && is_validation(e, missing_record_message()),
                    Some(c) => if c == spec_trim(x) {
                        r is Ok
                    } else {
                        r matches Err(e) && is_validation(e, stale_version_message())
                    },
                }
            },
        },
{
    let expected = match expected_updated_at {
        Some(x) => {
            let t = trim(x);
            if t.is_empty() {
                return Err(validation("编辑记录缺少版本信息，请刷新后重试"));
            }
            t
        },
        None => return Err(validation("编辑记录缺少版本信息，请刷新后重试")),
    };
    match current_updated_at {
        Some(current) => if same_text(current, expected) {
            Ok(())
        } else {
            Err(validation("记录已被其他客户端修改，请刷新后重试"))
        },
        None => Err(validation("要编辑的记录不存在")),
    }
}

/// An update must have changed at least one row; none means the record is
/// gone.
pub fn ensure_changed(changed: usize) -> (r: AppResult<()>)
    ensures
        r is Ok <==> changed > 0,
        r matches Err(e) ==> is_validation(e, missing_record_message()),
{
    if changed == 0 {
        Err(validation("要编辑的记录不存在"))
    } else {
        Ok(())
    }
}

/// A referenced record (`label` names its kind): no id needs nothing;
/// otherwise the record, found as `(name, enabled)`, must exist and be
/// enabled.
pub fn require_enabled_reference(label: &str, id: Option<&str>, found: Option<(&str, bool)>) -> (r:
    AppResult<()>)
    ensures
        id is None ==> r is Ok,
        id is Some && found is None ==> (r matches Err(e) && is_validation(e, label@ + "不存在"@)),
        id is Some ==> (found matches Some(f) ==> (!f.1 ==> (r matches Err(e) && is_validation(
            e,
            label@ + "已停用："@ + f.0@,
        )))),
        id is Some ==> (found matches Some(f) ==> (f.1 ==> r is Ok)),
{
    if id.is_none() {
        return Ok(());
    }
    match found {
        None => Err(AppError::Validation(String::from_str(label).concat("不存在"))),
        Some((name, enabled)) => if enabled {
            Ok(())
        } else {
            Err(AppError::Validation(String::from_str(label).concat("已停用：").concat(name)))
        },
    }
}

/// The query that reads the name and enabled flag of a referenced record, for
/// the four tables that items and budgets may reference.
pub fn reference_lookup_sql(table: &str) -> (r: AppResult<&'static str>)
    ensures
        table@ == "categories"@ ==> (r matches Ok(s) && s@
            == "SELECT name, enabled FROM categories WHERE id = ?1"@),
        table@ == "units"@ ==> (r matches Ok(s) && s@ == "SELECT name, enabled FROM units WHERE id = ?1"@),
        table@ == "departments"@ ==> (r matches Ok(s) && s@
            == "SELECT name, enabled FROM departments WHERE id = ?1"@),
        table@ == "suppliers"@ ==> (r matches Ok(s) && s@
            == "SELECT name, enabled FROM suppliers WHERE id = ?1"@),
        !(table@ == "categories"@ || table@ == "units"@ || table@ == "departments"@ || table@
            == "suppliers"@) ==> (r matches Err(e) && is_validation(e, "不支持的关联资料类型"@)),
{
    proof {
        reveal_strlit("categories");
        reveal_strlit("units");
        reveal_strlit("departments");
        reveal_strlit("suppliers");
        assert("categories"@[0] == 'c' && "units"@[0] == 'u' && "departments"@[0] == 'd'
            && "suppliers"@[0] == 's');
    }
    if same_text(table, "categories") {
        Ok("SELECT name, enabled FROM categories WHERE id = ?1")
    } else if same_text(table, "units") {
        Ok("SELECT name, enabled FROM units WHERE id = ?1")
    } else if same_text(table, "departments") {
        Ok("SELECT name, enabled FROM departments WHERE id = ?1")
    } else if same_text(table, "suppliers") {
        Ok("SELECT name, enabled FROM suppliers WHERE id = ?1")
    } else {
        Err(validation("不支持的关联资料类型"))
    }
}

/// A category may have only a top-level category as parent.  `parent` is
/// what the parent lookup found: `None` when it does not exist, else the
/// parent's own parent.
pub fn check_category_parent(parent: Option<Option<&str>>) -> (r: AppResult<()>)
    ensures
        parent is None ==> (r matches Err(e) && is_validation(e, "上级分类不存在"@)),
        (parent matches Some(pp) && pp is Some) ==> (r matches Err(e) && is_validation(
            e,
            "上级分类必须是大类"@,
        )),
        (parent matches Some(pp) && pp is None) ==> r is Ok,
{
    match parent {
        Some(None) => Ok(()),
        Some(Some(_)) => Err(validation("上级分类必须是大类")),
        None => Err(validation("上级分类不存在")),
    }
}

/// The code an item is saved with: the trimmed requested code when it is not
/// blank (`Some`), else for a new item a generated code (`None`); an existing
/// item may not lose its code.
pub fn resolve_item_code(requested: Option<&str>, is_update: bool) -> (r: AppResult<Option<String>>)
    ensures
        match opt_str_view(requested) {
            Some(c) if spec_trim(c).len() > 0 => r matches Ok(Some(x)) && x@ == spec_trim(c),
            _ => if is_update {
                r matches Err(e) && is_validation(e, "物品编码不能为空"@)
            } else {
                r matches Ok(None)
            },
        },
{
    if let Some(code) = requested {
        let t = trim(code);
        if !t.is_empty() {
            return Ok(Some(String::from_str(t)));
        }
    }
    if is_update {
        Err(validation("物品编码不能为空"))
    } else {
        Ok(None)
    }
}

/// The stored form of a flag: 1 for true, 0 for false.
pub fn bool_to_i64(value: bool) -> (r: i64)
    ensures
        r == (if value {
            1i64
        } else {
            0i64
        }),
{
    if value {
        1
    } else {
        0
    }
}

/// Collects every page of the budget rules.
pub fn list_budget_rules<T>(fetch_page: impl Fn(Option<&str>) -> AppResult<Page<T>>) -> (r: AppResult<
    Vec<T>,
>)
    requires
        forall|c: Option<&str>| call_requires(fetch_page, (c,)),
    ensures
        listing_result(fetch_page, r),
{
    collect_all(fetch_page)
}

/// The referenced record `id` (none when `id` is `None`) was found by
/// `lookup` in `table`, and found enabled.
pub open spec fn reference_passed<L: Fn(&str, &str) -> AppResult<Option<(String, bool)>>>(
    lookup: L,
    table: Seq<char>,
    id: Option<Seq<char>>,
) -> bool {
    match id {
        None => true,
        Some(i) => exists|t: &str, s: &str, name: String|
            t@ == table && s@ == i && #[trigger] call_ensures(
                lookup,
                (t, s),
                Ok::<Option<(String, bool)>, AppError>(Some((name, true))),
            ),
    }
}

/// The version check of an edit passed: the edit named a version, and the
/// stored version that `current_version` read for `id` is that version.
pub open spec fn version_passed<V: Fn(&str) -> AppResult<Option<String>>>(
    current_version: V,
    id: Seq<char>,
    expected: Option<Seq<char>>,
) -> bool {
    spec_blank_to_none(expected) matches Some(v) && exists|s: &str, c: String|
        s@ == id && #[trigger] call_ensures(current_version, (s,), Ok::<Option<String>, AppError>(Some(c)))
            && c@ == v
}

/// What checking the referenced record `id` gives: nothing to check when
/// there is no id; otherwise `lookup` is asked for it in `table`, and its
/// error, a missing record or a disabled one (`label` names the kind in the
/// messages) is the answer, an enabled one passes.
pub open spec fn reference_result<L: Fn(&str, &str) -> AppResult<Option<(String, bool)>>>(
    lookup: L,
    table: Seq<char>,
    label: Seq<char>,
    id: Option<Seq<char>>,
    res: AppResult<()>,
) -> bool {
    match id {
        None => res is Ok,
        Some(i) => exists|t: &str, s: &str, found: AppResult<Option<(String, bool)>>|
            {
                &&& t@ == table
                &&& s@ == i
                &&& #[trigger] call_ensures(lookup, (t, s), found)
                &&& match found {
                    Err(e) => res == Err::<(), AppError>(e),
                    Ok(None) => res matches Err(e) && is_validation(e, label + "不存在"@),
                    Ok(Some(f)) => if f.1 {
                        res is Ok
                    } else {
                        res matches Err(e) && is_validation(e, label + "已停用："@ + f.0@)
                    },
                }
            },
    }
}

/// What the version check of an edit of record `id` gives: a blank version
/// is refused before anything is read; otherwise `current_version` reads the
/// stored version, and its error, a missing record or a different version
/// is the answer, the same version passes.
pub open spec fn version_result<V: Fn(&str) -> AppResult<Option<String>>>(
    current_version: V,
    id: Seq<char>,
    expected: Option<Seq<char>>,
    res: AppResult<()>,
) -> bool {
    match spec_blank_to_none(expected) {
        None => res matches Err(e) && is_validation(e, missing_version_message()),
        Some(v) => exists|s: &str, read: AppResult<Option<String>>|
            {
                &&& s@ == id
                &&& #[trigger] call_ensures(current_version, (s,), read)
                &&& match read {
                    Err(e) => res == Err::<(), AppError>(e),
                    Ok(None) => res matches Err(e) && is_validation(e, missing_record_message()),
                    Ok(Some(c)) => if c@ == v {
                        res is Ok
                    } else {
                        res matches Err(e) && is_validation(e, stale_version_message())
                    },
                }
            },
    }
}

/// Checks a referenced record, looked up by `lookup` in `table`; `label`
/// names its kind in the messages.  No id needs no lookup.
fn check_reference<L: Fn(&str, &str) -> AppResult<Option<(String, bool)>>>(
    lookup: &L,
    table: &str,
    label: &str,
    id: Option<&str>,
) -> (r: AppResult<()>)
    requires
        forall|t: &str, i: &str| call_requires(*lookup, (t, i)),
    ensures
        r is Ok ==> reference_passed(*lookup, table@, opt_str_view(id)),
        reference_result(*lookup, table@, label@, opt_str_view(id), r),
{
    let i = match id {
        Some(i) => i,
        None => {
            return Ok(());
        },
    };
    let found = lookup(table, i);
    assert(call_ensures(*lookup, (table, i), found));
    match found {
        Err(e) => Err(e),
        Ok(None) => require_enabled_reference(label, id, None),
        Ok(Some((name, enabled))) => {
            let r = require_enabled_reference(label, id, Some((name.as_str(), enabled)));
            proof {
                if enabled {
                    assert(call_ensures(*lookup, (table, i), Ok::<Option<(String, bool)>, AppError>(Some((name, true)))));
                }
            }
            r
        },
    }
}

/// Checks the version of an edit: a blank version is refused before the
/// stored one is read; otherwise `current_version` reads the stored version
/// of `id`, which must be the given one.
pub(crate) fn check_version<V: Fn(&str) -> AppResult<Option<String>>>(
    current_version: &V,
    id: &str,
    expected: Option<&str>,
) -> (r: AppResult<()>)
    requires
        forall|s: &str| call_requires(*current_version, (s,)),
    ensures
        r is Ok ==> version_passed(*current_version, id@, opt_str_view(expected)),
        version_result(*current_version, id@, opt_str_view(expected), r),
{
    match expected {
        None => {
            return require_current_version(None, None);
        },
        Some(x) => {
            if trim(x).is_empty() {
                return require_current_version(expected, None);
            }
        },
    }
    let read = current_version(id);
    assert(call_ensures(*current_version, (id,), read));
    match read {
        Err(e) => Err(e),
        Ok(None) => require_current_version(expected, None),
        Ok(Some(current)) => {
            let r = require_current_version(expected, Some(current.as_str()));
            proof {
                if r is Ok {
                    assert(call_ensures(*current_version, (id,), Ok::<Option<String>, AppError>(Some(current))));
                }
            }
            r
        },
    }
}

/// The id a save works on: the one given, or a fresh one.
pub open spec fn id_for(requested: Option<String>, id: Seq<char>) -> bool {
    &&& (requested matches Some(i) ==> id == i@)
    &&& (requested is None ==> id.len() == 36)
}

/// The row that `write` was asked to store has id `id` and the fields that
/// `fields` requires, and `r` is what `write` answered.
pub open spec fn row_written<W, Row, R>(
    write: W,
    id: Seq<char>,
    upd: bool,
    id_of: spec_fn(Row) -> Seq<char>,
    fields: spec_fn(Row) -> bool,
    r: AppResult<R>,
) -> bool where W: Fn(Row, bool) -> AppResult<R> {
    exists|row: Row| id_of(row) == id && fields(row) && #[trigger] call_ensures(write, (row, upd), r)
}

/// The last two stages of a save: for an update (`upd`) the version check,
/// whose refusal is the answer; then the write.
pub open spec fn version_then_write<V: Fn(&str) -> AppResult<Option<String>>, W, Row, R>(
    current_version: V,
    write: W,
    id: Seq<char>,
    upd: bool,
    expected: Option<Seq<char>>,
    id_of: spec_fn(Row) -> Seq<char>,
    fields: spec_fn(Row) -> bool,
    r: AppResult<R>,
) -> bool where W: Fn(Row, bool) -> AppResult<R> {
    if upd {
        exists|checked: AppResult<()>|
            {
                &&& #[trigger] version_result(current_version, id, expected, checked)
                &&& match checked {
                    Err(e) => r == Err::<R, AppError>(e),
                    Ok(_) => row_written(write, id, upd, id_of, fields, r),
                }
            }
    } else {
        row_written(write, id, upd, id_of, fields, r)
    }
}

/// A request to save an item: the fields that the rules read, and the
/// figures (`extra`: prices and warning quantity) that are stored as given.
pub struct SaveItemRequest<P> {
    pub id: Option<String>,
    pub code: Option<String>,
    pub barcode: Option<String>,
    pub name: String,
    pub category_id: Option<String>,
    pub spec: Option<String>,
    pub unit_id: Option<String>,
    pub supplier_id: Option<String>,
    pub enabled: bool,
    pub remark: Option<String>,
    pub expected_updated_at: Option<String>,
    pub extra: P,
}

/// The item row that a save writes.
pub struct ItemRow<P> {
    pub id: String,
    pub code: String,
    pub barcode: Option<String>,
    pub name: String,
    pub category_id: Option<String>,
    pub spec: Option<String>,
    pub unit_id: Option<String>,
    pub supplier_id: Option<String>,
    pub enabled: i64,
    pub remark: Option<String>,
    pub extra: P,
}

/// The row holds the request's fields as they are stored: the name
/// trimmed, optional texts trimmed and dropped when blank, the flag as a
/// number, the figures as given.
pub open spec fn item_row_fields<P>(request: SaveItemRequest<P>, row: ItemRow<P>) -> bool {
    &&& row.name@ == spec_trim(request.name@)
    &&& opt_view(row.barcode) == spec_blank_to_none(opt_view(request.barcode))
    &&& opt_view(row.category_id) == spec_blank_to_none(opt_view(request.category_id))
    &&& opt_view(row.spec) == spec_blank_to_none(opt_view(request.spec))
    &&& opt_view(row.unit_id) == spec_blank_to_none(opt_view(request.unit_id))
    &&& opt_view(row.supplier_id) == spec_blank_to_none(opt_view(request.supplier_id))
    &&& opt_view(row.remark) == spec_blank_to_none(opt_view(request.remark))
    &&& row.enabled == (if request.enabled {
        1i64
    } else {
        0i64
    })
    &&& row.extra == request.extra
    &&& (request.id matches Some(i) ==> row.id@ == i@)
    &&& (request.id is None ==> row.id@.len() == 36)
}

/// The code of a saved item: the trimmed requested code, or for a new item
/// without one the code that `next_item_code` gave.
pub open spec fn item_code_passed<C: Fn() -> AppResult<String>>(
    next_item_code: C,
    requested: Option<Seq<char>>,
    is_update: bool,
    code: Seq<char>,
) -> bool {
    match spec_blank_to_none(requested) {
        Some(c) => code == c,
        None => !is_update && exists|g: String|
            #[trigger] call_ensures(next_item_code, (), Ok::<String, AppError>(g)) && g@ == code,
    }
}

/// The checks of an item save after its code: the category, the unit and
/// the default supplier in turn, each refusal being the answer; then the
/// version check (for an update, `upd`) and the write of the row with id
/// `id` and code `code`.
pub open spec fn item_checked<
    P,
    R,
    L: Fn(&str, &str) -> AppResult<Option<(String, bool)>>,
    V: Fn(&str) -> AppResult<Option<String>>,
    W: Fn(ItemRow<P>, bool) -> AppResult<R>,
>(
    request: SaveItemRequest<P>,
    lookup: L,
    current_version: V,
    write: W,
    id: Seq<char>,
    upd: bool,
    code: Seq<char>,
    r: AppResult<R>,
) -> bool {
    exists|category: AppResult<()>|
        {
            &&& #[trigger] reference_result(
                lookup,
                "categories"@,
                "分类"@,
                spec_blank_to_none(opt_view(request.category_id)),
                category,
            )
            &&& match category {
                Err(e) => r == Err::<R, AppError>(e),
                Ok(_) => exists|unit: AppResult<()>|
                    {
                        &&& #[trigger] reference_result(
                            lookup,
                            "units"@,
                            "单位"@,
                            spec_blank_to_none(opt_view(request.unit_id)),
                            unit,
                        )
                        &&& match unit {
                            Err(e) => r == Err::<R, AppError>(e),
                            Ok(_) => exists|supplier: AppResult<()>|
                                {
                                    &&& #[trigger] reference_result(
                                        lookup,
                                        "suppliers"@,
                                        "默认供应商"@,
                                        spec_blank_to_none(opt_view(request.supplier_id)),
                                        supplier,
                                    )
                                    &&& match supplier {
                                        Err(e) => r == Err::<R, AppError>(e),
                                        Ok(_) => version_then_write(
                                            current_version,
                                            write,
                                            id,
                                            upd,
                                            opt_view(request.expected_updated_at),
                                            (|row: ItemRow<P>| row.id@),
                                            (|row: ItemRow<P>| item_row_fields(request, row) && row.code@ == code),
                                            r,
                                        ),
                                    }
                                },
                        }
                    },
            }
        }
}

/// What an item save gives: `record_exists` is asked whether the id (the
/// requested one, or a fresh one) is taken, its error being the answer.
/// The code comes next: the trimmed requested one; else an update is
/// refused, and a new item takes what `next_item_code` gives (its error
/// being the answer).  The checks of `item_checked` follow.
pub open spec fn item_saved<
    P,
    R,
    E: Fn(&str) -> AppResult<bool>,
    C: Fn() -> AppResult<String>,
    L: Fn(&str, &str) -> AppResult<Option<(String, bool)>>,
    V: Fn(&str) -> AppResult<Option<String>>,
    W: Fn(ItemRow<P>, bool) -> AppResult<R>,
>(
    request: SaveItemRequest<P>,
    record_exists: E,
    next_item_code: C,
    lookup: L,
    current_version: V,
    write: W,
    r: AppResult<R>,
) -> bool {
    exists|s: &str, found: AppResult<bool>|
        {
            &&& id_for(request.id, s@)
            &&& #[trigger] call_ensures(record_exists, (s,), found)
            &&& match found {
                Err(e) => r == Err::<R, AppError>(e),
                Ok(upd) => match spec_blank_to_none(opt_view(request.code)) {
                    Some(c) => item_checked(request, lookup, current_version, write, s@, upd, c, r),
                    None => if upd {
                        r matches Err(e) && is_validation(e, "物品编码不能为空"@)
                    } else {
                        exists|g: AppResult<String>|
                            {
                                &&& #[trigger] call_ensures(next_item_code, (), g)
                                &&& match g {
                                    Err(e) => r == Err::<R, AppError>(e),
                                    Ok(c) => item_checked(request, lookup, current_version, write, s@, upd, c@, r),
                                }
                            }
                    },
                },
            }
        }
}

/// Saves an item.  `record_exists` tells whether the id is taken (an update)
/// or not (an insert); `next_item_code` gives a free generated code;
/// `lookup` finds a referenced category, unit or supplier; `current_version`
/// reads the stored version of an item; `write` stores the row (updating it
/// when the flag is set) and reads the item back.  The rules are applied in this
/// order: the code, the category, the unit, the default supplier, and for an
/// update the version; the first that fails is the answer.
pub fn save_item<
    P,
    R,
    E: Fn(&str) -> AppResult<bool>,
    C: Fn() -> AppResult<String>,
    L: Fn(&str, &str) -> AppResult<Option<(String, bool)>>,
    V: Fn(&str) -> AppResult<Option<String>>,
    W: Fn(ItemRow<P>, bool) -> AppResult<R>,
>(
    request: SaveItemRequest<P>,
    record_exists: &E,
    next_item_code: &C,
    lookup: &L,
    current_version: &V,
    write: &W,
) -> (r: AppResult<R>)
    requires
        forall|s: &str| call_requires(*record_exists, (s,)),
        call_requires(*next_item_code, ()),
        forall|t: &str, i: &str| call_requires(*lookup, (t, i)),
        forall|s: &str| call_requires(*current_version, (s,)),
        forall|row: ItemRow<P>, u: bool| call_requires(*write, (row, u)),
    ensures
        r matches Ok(x) ==> exists|row: ItemRow<P>, upd: bool|
            {
                &&& #[trigger] call_ensures(*write, (row, upd), Ok::<R, AppError>(x))
                &&& item_row_fields(request, row)
                &&& exists|s: &str|
                    s@ == row.id@ && #[trigger] call_ensures(*record_exists, (s,), Ok::<bool, AppError>(upd))
                &&& item_code_passed(*next_item_code, opt_view(request.code), upd, row.code@)
                &&& reference_passed(*lookup, "categories"@, opt_view(row.category_id))
                &&& reference_passed(*lookup, "units"@, opt_view(row.unit_id))
                &&& reference_passed(*lookup, "suppliers"@, opt_view(row.supplier_id))
                &&& upd ==> version_passed(*current_version, row.id@, opt_view(request.expected_updated_at))
            },
        item_saved(request, *record_exists, *next_item_code, *lookup, *current_version, *write, r),
{
    let SaveItemRequest {
        id,
        code,
        barcode,
        name,
        category_id,
        spec,
        unit_id,
        supplier_id,
        enabled,
        remark,
        expected_updated_at,
        extra,
    } = request;
    let id = match id {
        Some(i) => i,
        None => new_id(),
    };
    let id_text = id.as_str();
    let exists = record_exists(id_text);
    assert(call_ensures(*record_exists, (id_text,), exists));
    let is_update = match exists {
        Ok(u) => u,
        Err(e) => {
            return Err(e);
        },
    };
    assert(call_ensures(*record_exists, (id_text,), Ok::<bool, AppError>(is_update)));
    let ghost requested_code = opt_view(code);
    let code = match resolve_item_code(opt_as_str(&code), is_update) {
        Err(e) => {
            return Err(e);
        },
        Ok(Some(c)) => c,
        Ok(None) => {
            let generated = next_item_code();
            assert(call_ensures(*next_item_code, (), generated));
            match generated {
                Ok(g) => {
                    assert(call_ensures(*next_item_code, (), Ok::<String, AppError>(g)));
                    g
                },
                Err(e) => {
                    return Err(e);
                },
            }
        },
    };
    assert(item_code_passed(*next_item_code, requested_code, is_update, code@));
    let category_id = blank_to_none(category_id);
    let unit_id = blank_to_none(unit_id);
    let supplier_id = blank_to_none(supplier_id);
    let checked = check_reference(lookup, "categories", "分类", opt_as_str(&category_id));
    if let Err(e) = checked {
        return Err(e);
    }
    let checked = check_reference(lookup, "units", "单位", opt_as_str(&unit_id));
    if let Err(e) = checked {
        return Err(e);
    }
    let checked = check_reference(lookup, "suppliers", "默认供应商", opt_as_str(&supplier_id));
    if let Err(e) = checked {
        return Err(e);
    }
    if is_update {
        let checked = check_version(current_version, id_text, opt_as_str(&expected_updated_at));
        if let Err(e) = checked {
            return Err(e);
        }
    }
    let row = ItemRow {
        id,
        code,
        barcode: blank_to_none(barcode),
        name: String::from_str(trim(name.as_str())),
        category_id,
        spec: blank_to_none(spec),
        unit_id,
        supplier_id,
        enabled: bool_to_i64(enabled),
        remark: blank_to_none(remark),
        extra,
    };
    let ghost g = row;
    assert(item_row_fields(request, g));
    assert(reference_passed(*lookup, "categories"@, opt_view(g.category_id)));
    assert(reference_passed(*lookup, "units"@, opt_view(g.unit_id)));
    assert(reference_passed(*lookup, "suppliers"@, opt_view(g.supplier_id)));
    assert(is_update ==> version_passed(*current_version, g.id@, opt_view(request.expected_updated_at)));
    let r = write(row, is_update);
    assert(call_ensures(*write, (g, is_update), r));
    proof {
        if r is Ok {
            let x = r->Ok_0;
            assert(call_ensures(*write, (g, is_update), Ok::<R, AppError>(x)));
            assert(id_text@ == g.id@);
            assert(call_ensures(*record_exists, (id_text,), Ok::<bool, AppError>(is_update)));
        }
    }
    r
}

/// The stored form of a flag: 1 for true, 0 for false.
pub open spec fn stored_flag(value: bool) -> i64 {
    if value {
        1
    } else {
        0
    }
}

/// The outcome of switching a record on or off: the version check passed
/// and `update` changed a row.
pub open spec fn enabled_switched<V: Fn(&str) -> AppResult<Option<String>>, U: Fn(&str, i64) -> AppResult<usize>>(
    current_version: V,
    update: U,
    id: Seq<char>,
    enabled: bool,
    expected: Option<Seq<char>>,
) -> bool {
    &&& version_passed(current_version, id, expected)
    &&& exists|s: &str, n: usize|
        s@ == id && n > 0 && #[trigger] call_ensures(
            update,
            (s, stored_flag(enabled)),
            Ok::<usize, AppError>(n),
        )
}

/// What switching record `id` on or off gives: the version check's refusal,
/// or else what `update` answered when asked to store the flag, a change of
/// no row being refused as a missing record.
pub open spec fn enabled_result<V: Fn(&str) -> AppResult<Option<String>>, U: Fn(&str, i64) -> AppResult<usize>>(
    current_version: V,
    update: U,
    id: Seq<char>,
    enabled: bool,
    expected: Option<Seq<char>>,
    r: AppResult<()>,
) -> bool {
    exists|checked: AppResult<()>|
        {
            &&& #[trigger] version_result(current_version, id, expected, checked)
            &&& match checked {
                Err(e) => r == Err::<(), AppError>(e),
                Ok(_) => exists|s: &str, changed: AppResult<usize>|
                    {
                        &&& s@ == id
                        &&& #[trigger] call_ensures(update, (s, stored_flag(enabled)), changed)
                        &&& match changed {
                            Err(e) => r == Err::<(), AppError>(e),
                            Ok(n) => if n == 0 {
                                r matches Err(e) && is_validation(e, missing_record_message())
                            } else {
                                r is Ok
                            },
                        }
                    },
            }
        }
}

pub(crate) fn set_enabled<V: Fn(&str) -> AppResult<Option<String>>, U: Fn(&str, i64) -> AppResult<usize>>(
    id: &str,
    enabled: bool,
    expected_updated_at: Option<&str>,
    current_version: &V,
    update: &U,
) -> (r: AppResult<()>)
    requires
        forall|s: &str| call_requires(*current_version, (s,)),
        forall|s: &str, f: i64| call_requires(*update, (s, f)),
    ensures
        r is Ok ==> enabled_switched(*current_version, *update, id@, enabled, opt_str_view(expected_updated_at)),
        enabled_result(*current_version, *update, id@, enabled, opt_str_view(expected_updated_at), r),
{
    let checked = check_version(current_version, id, expected_updated_at);
    if let Err(e) = checked {
        return Err(e);
    }
    let flag = bool_to_i64(enabled);
    let changed = update(id, flag);
    assert(call_ensures(*update, (id, flag), changed));
    match changed {
        Err(e) => Err(e),
        Ok(n) => {
            let r = ensure_changed(n);
            proof {
                if r is Ok {
                    assert(flag == stored_flag(enabled));
                    assert(n > 0);
                    assert(call_ensures(*update, (id, stored_flag(enabled)), Ok::<usize, AppError>(n)));
                }
            }
            r
        },
    }
}

/// Switches an item on or off: the edit's version must be the stored one,
/// and `update` must change a row.
pub fn set_item_enabled<V: Fn(&str) -> AppResult<Option<String>>, U: Fn(&str, i64) -> AppResult<usize>>(
    id: &str,
    enabled: bool,
    expected_updated_at: Option<&str>,
    current_version: &V,
    update: &U,
) -> (r: AppResult<()>)
    requires
        forall|s: &str| call_requires(*current_version, (s,)),
        forall|s: &str, f: i64| call_requires(*update, (s, f)),
    ensures
        r is Ok ==> enabled_switched(*current_version, *update, id@, enabled, opt_str_view(expected_updated_at)),
        enabled_result(*current_version, *update, id@, enabled, opt_str_view(expected_updated_at), r),
{
    set_enabled(id, enabled, expected_updated_at, current_version, update)
}

/// Switches a budget rule on or off, as `set_item_enabled` does an item.
pub fn set_budget_rule_enabled<V: Fn(&str) -> AppResult<Option<String>>, U: Fn(&str, i64) -> AppResult<usize>>(
    id: &str,
    enabled: bool,
    expected_updated_at: Option<&str>,
    current_version: &V,
    update: &U,
) -> (r: AppResult<()>)
    requires
        forall|s: &str| call_requires(*current_version, (s,)),
        forall|s: &str, f: i64| call_requires(*update, (s, f)),
    ensures
        r is Ok ==> enabled_switched(*current_version, *update, id@, enabled, opt_str_view(expected_updated_at)),
        enabled_result(*current_version, *update, id@, enabled, opt_str_view(expected_updated_at), r),
{
    set_enabled(id, enabled, expected_updated_at, current_version, update)
}

/// A request to save a budget rule; `extra` holds the amount limit, stored
/// as given.
pub struct SaveBudgetRuleRequest<P> {
    pub id: Option<String>,
    pub department_id: String,
    pub category_id: Option<String>,
    pub period_month: String,
    pub enabled: bool,
    pub expected_updated_at: Option<String>,
    pub extra: P,
}

/// The budget rule row that a save writes.
pub struct BudgetRuleRow<P> {
    pub id: String,
    pub department_id: String,
    pub category_id: Option<String>,
    pub period_month: String,
    pub enabled: i64,
    pub extra: P,
}

/// The row holds the request's fields as they are stored.
pub open spec fn budget_row_fields<P>(request: SaveBudgetRuleRequest<P>, row: BudgetRuleRow<P>) -> bool {
    &&& row.department_id@ == request.department_id@
    &&& opt_view(row.category_id) == spec_blank_to_none(opt_view(request.category_id))
    &&& row.period_month@ == request.period_month@
    &&& row.enabled == (if request.enabled {
        1i64
    } else {
        0i64
    })
    &&& row.extra == request.extra
    &&& (request.id matches Some(i) ==> row.id@ == i@)
    &&& (request.id is None ==> row.id@.len() == 36)
}

/// Saves a budget rule: the department must exist and be enabled, so must
/// the category when one is given, and an update must carry the stored
/// version; then `write` stores the row and reads the rule back.
pub fn save_budget_rule<
    P,
    R,
    E: Fn(&str) -> AppResult<bool>,
    L: Fn(&str, &str) -> AppResult<Option<(String, bool)>>,
    V: Fn(&str) -> AppResult<Option<String>>,
    W: Fn(BudgetRuleRow<P>, bool) -> AppResult<R>,
>(
    request: SaveBudgetRuleRequest<P>,
    record_exists: &E,
    lookup: &L,
    current_version: &V,
    write: &W,
) -> (r: AppResult<R>)
    requires
        forall|s: &str| call_requires(*record_exists, (s,)),
        forall|t: &str, i: &str| call_requires(*lookup, (t, i)),
        forall|s: &str| call_requires(*current_version, (s,)),
        forall|row: BudgetRuleRow<P>, u: bool| call_requires(*write, (row, u)),
    ensures
        r matches Ok(x) ==> exists|row: BudgetRuleRow<P>, upd: bool|
            {
                &&& #[trigger] call_ensures(*write, (row, upd), Ok::<R, AppError>(x))
                &&& budget_row_fields(request, row)
                &&& exists|s: &str|
                    s@ == row.id@ && #[trigger] call_ensures(*record_exists, (s,), Ok::<bool, AppError>(upd))
                &&& reference_passed(*lookup, "departments"@, Some(row.department_id@))
                &&& reference_passed(*lookup, "categories"@, opt_view(row.category_id))
                &&& upd ==> version_passed(*current_version, row.id@, opt_view(request.expected_updated_at))
            },
        exists|s: &str, found: AppResult<bool>|
            {
                &&& id_for(request.id, s@)
                &&& #[trigger] call_ensures(*record_exists, (s,), found)
                &&& match found {
                    Err(e) => r == Err::<R, AppError>(e),
                    Ok(upd) => exists|department: AppResult<()>|
                        {
                            &&& #[trigger] reference_result(
                                *lookup,
                                "departments"@,
                                "部门"@,
                                Some(request.department_id@),
                                department,
                            )
                            &&& match department {
                                Err(e) => r == Err::<R, AppError>(e),
                                Ok(_) => exists|category: AppResult<()>|
                                    {
                                        &&& #[trigger] reference_result(
                                            *lookup,
                                            "categories"@,
                                            "分类"@,
                                            spec_blank_to_none(opt_view(request.category_id)),
                                            category,
                                        )
                                        &&& match category {
                                            Err(e) => r == Err::<R, AppError>(e),
                                            Ok(_) => version_then_write(
                                                *current_version,
                                                *write,
                                                s@,
                                                upd,
                                                opt_view(request.expected_updated_at),
                                                (|row: BudgetRuleRow<P>| row.id@),
                                                (|row: BudgetRuleRow<P>| budget_row_fields(request, row)),
                                                r,
                                            ),
                                        }
                                    },
                            }
                        },
                }
            },
{
    let SaveBudgetRuleRequest { id, department_id, category_id, period_month, enabled, expected_updated_at, extra } =
        request;
    let id = match id {
        Some(i) => i,
        None => new_id(),
    };
    let id_text = id.as_str();
    let exists = record_exists(id_text);
    assert(call_ensures(*record_exists, (id_text,), exists));
    let is_update = match exists {
        Ok(u) => u,
        Err(e) => {
            return Err(e);
        },
    };
    assert(call_ensures(*record_exists, (id_text,), Ok::<bool, AppError>(is_update)));
    let checked = check_reference(lookup, "departments", "部门", Some(department_id.as_str()));
    if let Err(e) = checked {
        return Err(e);
    }
    let category_id = blank_to_none(category_id);
    let checked = check_reference(lookup, "categories", "分类", opt_as_str(&category_id));
    if let Err(e) = checked {
        return Err(e);
    }
    if is_update {
        let checked = check_version(current_version, id_text, opt_as_str(&expected_updated_at));
        if let Err(e) = checked {
            return Err(e);
        }
    }
    let row = BudgetRuleRow {
        id,
        department_id,
        category_id,
        period_month,
        enabled: bool_to_i64(enabled),
        extra,
    };
    let ghost g = row;
    assert(budget_row_fields(request, g));
    let r = write(row, is_update);
    assert(call_ensures(*write, (g, is_update), r));
    proof {
        if r is Ok {
            let x = r->Ok_0;
            assert(call_ensures(*write, (g, is_update), Ok::<R, AppError>(x)));
            assert(id_text@ == g.id@);
        }
    }
    r
}

/// The message given when every generated item code is taken.
pub open spec fn item_codes_exhausted_message() -> Seq<char> {
    "物品编码已用尽"@
}

/// The generated item code with sequence number `i`: `HC-` and the number,
/// four digits at least.
pub open spec fn candidate_code(i: u64) -> Seq<char> {
    "HC-"@ + pad_zeros(spec_decimal(i as nat), 4)
}

/// `code_taken` answered `a` when asked about candidate `i`.
pub open spec fn code_answer<T: Fn(&str) -> AppResult<bool>>(code_taken: T, i: u64, a: AppResult<bool>) -> bool {
    exists|s: &str| s@ == candidate_code(i) && #[trigger] call_ensures(code_taken, (s,), a)
}

/// Every candidate from `first` up to (not including) `end` was answered as
/// taken.
pub open spec fn taken_from<T: Fn(&str) -> AppResult<bool>>(code_taken: T, first: u64, end: int) -> bool {
    forall|j: u64| first <= j < end ==> #[trigger] code_answer(code_taken, j, Ok::<bool, AppError>(true))
}

/// What looking for a free item code from sequence number `first` on gives:
/// the candidates are tried in order, each taken one passing on to the
/// next; the first that is not taken is the answer, an error of
/// `code_taken` on the first candidate not answered as taken is the answer,
/// and when every candidate up to the largest number is taken the codes are
/// exhausted.
pub open spec fn item_code_result<T: Fn(&str) -> AppResult<bool>>(code_taken: T, first: u64, r: AppResult<String>) -> bool {
    exists|i: u64, a: AppResult<bool>|
        {
            &&& first <= i
            &&& taken_from(code_taken, first, i as int)
            &&& #[trigger] code_answer(code_taken, i, a)
            &&& match a {
                Err(e) => r == Err::<String, AppError>(e),
                Ok(false) => r matches Ok(c) && c@ == candidate_code(i),
                Ok(true) => i == u64::MAX && (r matches Err(e) && is_validation(e, item_codes_exhausted_message())),
            }
        }
}

/// The first free generated item code from sequence number `first` on:
/// `code_taken` tells whether a code is in use, and the candidates
/// `HC-0001`, `HC-0002`, ... are tried in order.
pub fn next_item_code<T: Fn(&str) -> AppResult<bool>>(first: u64, code_taken: &T) -> (r: AppResult<String>)
    requires
        forall|s: &str| call_requires(*code_taken, (s,)),
    ensures
        item_code_result(*code_taken, first, r),
{
    let mut index = first;
    loop
        invariant
            index >= first,
            forall|s: &str| call_requires(*code_taken, (s,)),
            taken_from(*code_taken, first, index as int),
        decreases u64::MAX - index,
    {
        let code = item_code_candidate(index);
        let code_text = code.as_str();
        let taken = code_taken(code_text);
        assert(call_ensures(*code_taken, (code_text,), taken));
        assert(code_answer(*code_taken, index, taken));
        match taken {
            Err(e) => {
                return Err(e);
            },
            Ok(false) => {
                return Ok(code);
            },
            Ok(true) => {},
        }
        if index == u64::MAX {
            return Err(validation("物品编码已用尽"));
        }
        assert(taken_from(*code_taken, first, index + 1)) by {
            assert forall|j: u64| first <= j < index + 1 implies #[trigger] code_answer(
                *code_taken,
                j,
                Ok::<bool, AppError>(true),
            ) by {
                if j < index {
                    assert(taken_from(*code_taken, first, index as int));
                }
            }
        }
        index = index + 1;
    }
}

} // verus!
