use vstd::prelude::*;
use vstd::string::*;

use crate::error::{is_validation, AppError, AppResult};
use crate::ids::new_id;
use crate::master_data::{
    bool_to_i64, check_category_parent, id_for, check_version, enabled_result, enabled_switched, set_enabled, stored_flag,
    row_written, version_passed, version_result, version_then_write,
};
use crate::text::{blank_to_none, opt_as_str, opt_str_view, opt_view, spec_blank_to_none, spec_trim, trim};

verus! {

/// `record_exists` answered `upd` for `id`.
pub open spec fn existence_seen<E: Fn(&str) -> AppResult<bool>>(record_exists: E, id: Seq<char>, upd: bool) -> bool {
    exists|s: &str| s@ == id && #[trigger] call_ensures(record_exists, (s,), Ok::<bool, AppError>(upd))
}

/// What a save of a record gives: `record_exists` is asked whether the id
/// (the requested one, or a fresh one) is taken, and its error is the
/// answer; otherwise the version check (for an update) and the write follow.
pub open spec fn record_saved<E: Fn(&str) -> AppResult<bool>, V: Fn(&str) -> AppResult<Option<String>>, W, Row, R>(
    record_exists: E,
    current_version: V,
    write: W,
    requested: Option<String>,
    expected: Option<Seq<char>>,
    id_of: spec_fn(Row) -> Seq<char>,
    fields: spec_fn(Row) -> bool,
    r: AppResult<R>,
) -> bool where W: Fn(Row, bool) -> AppResult<R> {
    exists|s: &str, found: AppResult<bool>|
        {
            &&& id_for(requested, s@)
            &&& #[trigger] call_ensures(record_exists, (s,), found)
            &&& match found {
                Err(e) => r == Err::<R, AppError>(e),
                Ok(upd) => version_then_write(current_version, write, s@, upd, expected, id_of, fields, r),
            }
        }
}

fn resolve_id<E: Fn(&str) -> AppResult<bool>>(requested: Option<String>, record_exists: &E) -> (r: AppResult<(String, bool)>)
    requires
        forall|s: &str| call_requires(*record_exists, (s,)),
    ensures
        r matches Ok(p) ==> id_for(requested, p.0@) && existence_seen(*record_exists, p.0@, p.1),
        exists|s: &str, found: AppResult<bool>|
            {
                &&& id_for(requested, s@)
                &&& #[trigger] call_ensures(*record_exists, (s,), found)
                &&& match found {
                    Err(e) => r == Err::<(String, bool), AppError>(e),
                    Ok(u) => r matches Ok(p) && p.0@ == s@ && p.1 == u,
                }
            },
{
    let id = match requested {
        Some(i) => i,
        None => new_id(),
    };
    let id_text = id.as_str();
    let exists = record_exists(id_text);
    assert(call_ensures(*record_exists, (id_text,), exists));
    match exists {
        Ok(u) => {
            assert(call_ensures(*record_exists, (id_text,), Ok::<bool, AppError>(u)));
            Ok((id, u))
        },
        Err(e) => Err(e),
    }
}

/// A request to save a unit.
pub struct SaveUnitRequest {
    pub id: Option<String>,
    pub name: String,
    pub enabled: bool,
    pub sort_order: i64,
    pub expected_updated_at: Option<String>,
}

/// The unit row that a save writes.
pub struct UnitRow {
    pub id: String,
    pub name: String,
    pub enabled: i64,
    pub sort_order: i64,
}

/// Saves a unit: an update must carry the stored version; then `write`
/// stores the row (updating it when the flag is set) and reads the unit
/// back.
pub fn save_unit<
    R,
    E: Fn(&str) -> AppResult<bool>,
    V: Fn(&str) -> AppResult<Option<String>>,
    W: Fn(UnitRow, bool) -> AppResult<R>,
>(request: SaveUnitRequest, record_exists: &E, current_version: &V, write: &W) -> (r: AppResult<R>)
    requires
        forall|s: &str| call_requires(*record_exists, (s,)),
        forall|s: &str| call_requires(*current_version, (s,)),
        forall|row: UnitRow, u: bool| call_requires(*write, (row, u)),
    ensures
        r matches Ok(x) ==> exists|row: UnitRow, upd: bool|
            {
                &&& #[trigger] call_ensures(*write, (row, upd), Ok::<R, AppError>(x))
                &&& id_for(request.id, row.id@)
                &&& row.name@ == spec_trim(request.name@)
                &&& row.enabled == stored_flag(request.enabled)
                &&& row.sort_order == request.sort_order
                &&& existence_seen(*record_exists, row.id@, upd)
                &&& upd ==> version_passed(*current_version, row.id@, opt_view(request.expected_updated_at))
            },
        record_saved(
            *record_exists,
            *current_version,
            *write,
            request.id,
            opt_view(request.expected_updated_at),
            (|row: UnitRow| row.id@),
            (|row: UnitRow|
                row.name@ == spec_trim(request.name@) && row.enabled == stored_flag(request.enabled)
                    && row.sort_order == request.sort_order),
            r,
        ),
{
    let SaveUnitRequest { id, name, enabled, sort_order, expected_updated_at } = request;
    let resolved = resolve_id(id, record_exists);
    let (id, is_update) = match resolved {
        Ok(p) => p,
        Err(e) => {
            return Err(e);
        },
    };
    let ghost checked: AppResult<()> = Ok(());
    if is_update {
        let c = check_version(current_version, id.as_str(), opt_as_str(&expected_updated_at));
        proof {
            checked = c;
        }
        if let Err(e) = c {
            return Err(e);
        }
    }
    let row = UnitRow { id, name: String::from_str(trim(name.as_str())), enabled: bool_to_i64(enabled), sort_order };
    let ghost g = row;
    let r = write(row, is_update);
    assert(call_ensures(*write, (g, is_update), r));
    proof {
        if r is Ok {
            assert(call_ensures(*write, (g, is_update), Ok::<R, AppError>(r->Ok_0)));
        }
    }
    r
}

/// A request to save a department.
pub struct SaveDepartmentRequest {
    pub id: Option<String>,
    pub code: String,
    pub name: String,
    pub manager: Option<String>,
    pub enabled: bool,
    pub sort_order: i64,
    pub remark: Option<String>,
    pub expected_updated_at: Option<String>,
}

/// The department row that a save writes.
pub struct DepartmentRow {
    pub id: String,
    pub code: String,
    pub name: String,
    pub manager: Option<String>,
    pub enabled: i64,
    pub sort_order: i64,
    pub remark: Option<String>,
}

/// Saves a department, as `save_unit` saves a unit; the code and name are
/// trimmed, the manager and remark dropped when blank.
pub fn save_department<
    R,
    E: Fn(&str) -> AppResult<bool>,
    V: Fn(&str) -> AppResult<Option<String>>,
    W: Fn(DepartmentRow, bool) -> AppResult<R>,
>(request: SaveDepartmentRequest, record_exists: &E, current_version: &V, write: &W) -> (r: AppResult<R>)
    requires
        forall|s: &str| call_requires(*record_exists, (s,)),
        forall|s: &str| call_requires(*current_version, (s,)),
        forall|row: DepartmentRow, u: bool| call_requires(*write, (row, u)),
    ensures
        r matches Ok(x) ==> exists|row: DepartmentRow, upd: bool|
            {
                &&& #[trigger] call_ensures(*write, (row, upd), Ok::<R, AppError>(x))
                &&& id_for(request.id, row.id@)
                &&& row.code@ == spec_trim(request.code@)
                &&& row.name@ == spec_trim(request.name@)
                &&& opt_view(row.manager) == spec_blank_to_none(opt_view(request.manager))
                &&& row.enabled == stored_flag(request.enabled)
                &&& row.sort_order == request.sort_order
                &&& opt_view(row.remark) == spec_blank_to_none(opt_view(request.remark))
                &&& existence_seen(*record_exists, row.id@, upd)
                &&& upd ==> version_passed(*current_version, row.id@, opt_view(request.expected_updated_at))
            },
        record_saved(
            *record_exists,
            *current_version,
            *write,
            request.id,
            opt_view(request.expected_updated_at),
            (|row: DepartmentRow| row.id@),
            (|row: DepartmentRow|
                row.code@ == spec_trim(request.code@) && row.name@ == spec_trim(request.name@)
                    && opt_view(row.manager) == spec_blank_to_none(opt_view(request.manager))
                    && row.enabled == stored_flag(request.enabled) && row.sort_order == request.sort_order
                    && opt_view(row.remark) == spec_blank_to_none(opt_view(request.remark))),
            r,
        ),
{
    let SaveDepartmentRequest { id, code, name, manager, enabled, sort_order, remark, expected_updated_at } =
        request;
    let resolved = resolve_id(id, record_exists);
    let (id, is_update) = match resolved {
        Ok(p) => p,
        Err(e) => {
            return Err(e);
        },
    };
    if is_update {
        let c = check_version(current_version, id.as_str(), opt_as_str(&expected_updated_at));
        if let Err(e) = c {
            return Err(e);
        }
    }
    let row = DepartmentRow {
        id,
        code: String::from_str(trim(code.as_str())),
        name: String::from_str(trim(name.as_str())),
        manager: blank_to_none(manager),
        enabled: bool_to_i64(enabled),
        sort_order,
        remark: blank_to_none(remark),
    };
    let ghost g = row;
    let r = write(row, is_update);
    assert(call_ensures(*write, (g, is_update), r));
    proof {
        if r is Ok {
            assert(call_ensures(*write, (g, is_update), Ok::<R, AppError>(r->Ok_0)));
        }
    }
    r
}

/// A request to save a supplier.
pub struct SaveSupplierRequest {
    pub id: Option<String>,
    pub name: String,
    pub contact: Option<String>,
    pub phone: Option<String>,
    pub address: Option<String>,
    pub enabled: bool,
    pub remark: Option<String>,
    pub expected_updated_at: Option<String>,
}

/// The supplier row that a save writes.
pub struct SupplierRow {
    pub id: String,
    pub name: String,
    pub contact: Option<String>,
    pub phone: Option<String>,
    pub address: Option<String>,
    pub enabled: i64,
    pub remark: Option<String>,
}

/// Saves a supplier, as `save_unit` saves a unit; the name is trimmed, the
/// contact, phone, address and remark dropped when blank.
pub fn save_supplier<
    R,
    E: Fn(&str) -> AppResult<bool>,
    V: Fn(&str) -> AppResult<Option<String>>,
    W: Fn(SupplierRow, bool) -> AppResult<R>,
>(request: SaveSupplierRequest, record_exists: &E, current_version: &V, write: &W) -> (r: AppResult<R>)
    requires
        forall|s: &str| call_requires(*record_exists, (s,)),
        forall|s: &str| call_requires(*current_version, (s,)),
        forall|row: SupplierRow, u: bool| call_requires(*write, (row, u)),
    ensures
        r matches Ok(x) ==> exists|row: SupplierRow, upd: bool|
            {
                &&& #[trigger] call_ensures(*write, (row, upd), Ok::<R, AppError>(x))
                &&& id_for(request.id, row.id@)
                &&& row.name@ == spec_trim(request.name@)
                &&& opt_view(row.contact) == spec_blank_to_none(opt_view(request.contact))
                &&& opt_view(row.phone) == spec_blank_to_none(opt_view(request.phone))
                &&& opt_view(row.address) == spec_blank_to_none(opt_view(request.address))
                &&& row.enabled == stored_flag(request.enabled)
                &&& opt_view(row.remark) == spec_blank_to_none(opt_view(request.remark))
                &&& existence_seen(*record_exists, row.id@, upd)
                &&& upd ==> version_passed(*current_version, row.id@, opt_view(request.expected_updated_at))
            },
        record_saved(
            *record_exists,
            *current_version,
            *write,
            request.id,
            opt_view(request.expected_updated_at),
            (|row: SupplierRow| row.id@),
            (|row: SupplierRow|
                row.name@ == spec_trim(request.name@)
                    && opt_view(row.contact) == spec_blank_to_none(opt_view(request.contact))
                    && opt_view(row.phone) == spec_blank_to_none(opt_view(request.phone))
                    && opt_view(row.address) == spec_blank_to_none(opt_view(request.address))
                    && row.enabled == stored_flag(request.enabled)
                    && opt_view(row.remark) == spec_blank_to_none(opt_view(request.remark))),
            r,
        ),
{
    let SaveSupplierRequest { id, name, contact, phone, address, enabled, remark, expected_updated_at } = request;
    let resolved = resolve_id(id, record_exists);
    let (id, is_update) = match resolved {
        Ok(p) => p,
        Err(e) => {
            return Err(e);
        },
    };
    if is_update {
        let c = check_version(current_version, id.as_str(), opt_as_str(&expected_updated_at));
        if let Err(e) = c {
            return Err(e);
        }
    }
    let row = SupplierRow {
        id,
        name: String::from_str(trim(name.as_str())),
        contact: blank_to_none(contact),
        phone: blank_to_none(phone),
        address: blank_to_none(address),
        enabled: bool_to_i64(enabled),
        remark: blank_to_none(remark),
    };
    let ghost g = row;
    let r = write(row, is_update);
    assert(call_ensures(*write, (g, is_update), r));
    proof {
        if r is Ok {
            assert(call_ensures(*write, (g, is_update), Ok::<R, AppError>(r->Ok_0)));
        }
    }
    r
}

/// A request to save a category.
pub struct SaveCategoryRequest {
    pub id: Option<String>,
    pub parent_id: Option<String>,
    pub name: String,
    pub enabled: bool,
    pub sort_order: i64,
    pub expected_updated_at: Option<String>,
}

/// The category row that a save writes.
pub struct CategoryRow {
    pub id: String,
    pub parent_id: Option<String>,
    pub name: String,
    pub enabled: i64,
    pub sort_order: i64,
}

/// The parent of a category was found by `parent_of`, and is a top-level
/// category.
pub open spec fn parent_passed<P: Fn(&str) -> AppResult<Option<Option<String>>>>(
    parent_of: P,
    parent: Option<Seq<char>>,
) -> bool {
    match parent {
        None => true,
        Some(p) => exists|s: &str|
            s@ == p && #[trigger] call_ensures(parent_of, (s,), Ok::<Option<Option<String>>, AppError>(Some(None))),
    }
}

/// What checking the parent of a category gives: nothing to check without
/// one; otherwise `parent_of` is asked for it, and its error, a missing
/// parent or a parent that has a parent itself is the answer.
pub open spec fn parent_result<P: Fn(&str) -> AppResult<Option<Option<String>>>>(
    parent_of: P,
    parent: Option<Seq<char>>,
    res: AppResult<()>,
) -> bool {
    match parent {
        None => res is Ok,
        Some(p) => exists|s: &str, found: AppResult<Option<Option<String>>>|
            {
                &&& s@ == p
                &&& #[trigger] call_ensures(parent_of, (s,), found)
                &&& match found {
                    Err(e) => res == Err::<(), AppError>(e),
                    Ok(None) => res matches Err(e) && is_validation(e, "上级分类不存在"@),
                    Ok(Some(None)) => res is Ok,
                    Ok(Some(Some(_))) => res matches Err(e) && is_validation(e, "上级分类必须是大类"@),
                }
            },
    }
}

fn check_parent<P: Fn(&str) -> AppResult<Option<Option<String>>>>(parent_of: &P, parent: Option<&str>) -> (r:
    AppResult<()>)
    requires
        forall|s: &str| call_requires(*parent_of, (s,)),
    ensures
        r is Ok ==> parent_passed(*parent_of, opt_str_view(parent)),
        parent_result(*parent_of, opt_str_view(parent), r),
{
    let p = match parent {
        Some(p) => p,
        None => {
            return Ok(());
        },
    };
    let found = parent_of(p);
    assert(call_ensures(*parent_of, (p,), found));
    match found {
        Err(e) => Err(e),
        Ok(None) => check_category_parent(None),
        Ok(Some(None)) => {
            assert(call_ensures(*parent_of, (p,), Ok::<Option<Option<String>>, AppError>(Some(None))));
            Ok(())
        },
        Ok(Some(Some(grandparent))) => check_category_parent(Some(Some(grandparent.as_str()))),
    }
}

/// Saves a category.  Categories have two levels: a given parent (dropped
/// when blank) must exist and have no parent itself, which `parent_of`
/// tells (`None` when there is no such category, else its own parent).
/// An update must carry the stored version; then `write` stores the row.
pub fn save_category<
    R,
    E: Fn(&str) -> AppResult<bool>,
    P: Fn(&str) -> AppResult<Option<Option<String>>>,
    V: Fn(&str) -> AppResult<Option<String>>,
    W: Fn(CategoryRow, bool) -> AppResult<R>,
>(request: SaveCategoryRequest, record_exists: &E, parent_of: &P, current_version: &V, write: &W) -> (r:
    AppResult<R>)
    requires
        forall|s: &str| call_requires(*record_exists, (s,)),
        forall|s: &str| call_requires(*parent_of, (s,)),
        forall|s: &str| call_requires(*current_version, (s,)),
        forall|row: CategoryRow, u: bool| call_requires(*write, (row, u)),
    ensures
        r matches Ok(x) ==> exists|row: CategoryRow, upd: bool|
            {
                &&& #[trigger] call_ensures(*write, (row, upd), Ok::<R, AppError>(x))
                &&& id_for(request.id, row.id@)
                &&& opt_view(row.parent_id) == spec_blank_to_none(opt_view(request.parent_id))
                &&& row.name@ == spec_trim(request.name@)
                &&& row.enabled == stored_flag(request.enabled)
                &&& row.sort_order == request.sort_order
                &&& existence_seen(*record_exists, row.id@, upd)
                &&& parent_passed(*parent_of, opt_view(row.parent_id))
                &&& upd ==> version_passed(*current_version, row.id@, opt_view(request.expected_updated_at))
            },
        exists|s: &str, found: AppResult<bool>|
            {
                &&& id_for(request.id, s@)
                &&& #[trigger] call_ensures(*record_exists, (s,), found)
                &&& match found {
                    Err(e) => r == Err::<R, AppError>(e),
                    Ok(upd) => exists|checked: AppResult<()>|
                        {
                            &&& #[trigger] parent_result(
                                *parent_of,
                                spec_blank_to_none(opt_view(request.parent_id)),
                                checked,
                            )
                            &&& match checked {
                                Err(e) => r == Err::<R, AppError>(e),
                                Ok(_) => version_then_write(
                                    *current_version,
                                    *write,
                                    s@,
                                    upd,
                                    opt_view(request.expected_updated_at),
                                    (|row: CategoryRow| row.id@),
                                    (|row: CategoryRow|
                                        opt_view(row.parent_id) == spec_blank_to_none(opt_view(request.parent_id))
                                            && row.name@ == spec_trim(request.name@) && row.enabled
                                            == stored_flag(request.enabled) && row.sort_order == request.sort_order),
                                    r,
                                ),
                            }
                        },
                }
            },
{
    let SaveCategoryRequest { id, parent_id, name, enabled, sort_order, expected_updated_at } = request;
    let resolved = resolve_id(id, record_exists);
    let (id, is_update) = match resolved {
        Ok(p) => p,
        Err(e) => {
            return Err(e);
        },
    };
    let parent_id = blank_to_none(parent_id);
    let p = check_parent(parent_of, opt_as_str(&parent_id));
    if let Err(e) = p {
        return Err(e);
    }
    if is_update {
        let c = check_version(current_version, id.as_str(), opt_as_str(&expected_updated_at));
        if let Err(e) = c {
            return Err(e);
        }
    }
    let row = CategoryRow {
        id,
        parent_id,
        name: String::from_str(trim(name.as_str())),
        enabled: bool_to_i64(enabled),
        sort_order,
    };
    let ghost g = row;
    let r = write(row, is_update);
    assert(call_ensures(*write, (g, is_update), r));
    proof {
        if r is Ok {
            assert(call_ensures(*write, (g, is_update), Ok::<R, AppError>(r->Ok_0)));
        }
    }
    r
}

/// Switches a category on or off: the edit's version must be the stored
/// one, and `update` must change a row.
pub fn set_category_enabled<V: Fn(&str) -> AppResult<Option<String>>, U: Fn(&str, i64) -> AppResult<usize>>(
    id: &str,
    enabled: bool,
    expected_updated_at: Option<&str>,
    current_version: &V,
    update: &U,
) -> (r: AppResult<()>)
    requires
        forall|s: &str| call_requires(*current_version, (s,)),
        forall|s: &str, f: i64| call_requires(*update, (s, f)),
    ensures
        r is Ok ==> enabled_switched(*current_version, *update, id@, enabled, opt_str_view(expected_updated_at)),
        enabled_result(*current_version, *update, id@, enabled, opt_str_view(expected_updated_at), r),
{
    set_enabled(id, enabled, expected_updated_at, current_version, update)
}

/// Switches a unit on or off, as `set_category_enabled` does a category.
pub fn set_unit_enabled<V: Fn(&str) -> AppResult<Option<String>>, U: Fn(&str, i64) -> AppResult<usize>>(
    id: &str,
    enabled: bool,
    expected_updated_at: Option<&str>,
    current_version: &V,
    update: &U,
) -> (r: AppResult<()>)
    requires
        forall|s: &str| call_requires(*current_version, (s,)),
        forall|s: &str, f: i64| call_requires(*update, (s, f)),
    ensures
        r is Ok ==> enabled_switched(*current_version, *update, id@, enabled, opt_str_view(expected_updated_at)),
        enabled_result(*current_version, *update, id@, enabled, opt_str_view(expected_updated_at), r),
{
    set_enabled(id, enabled, expected_updated_at, current_version, update)
}

/// Switches a department on or off, as `set_category_enabled` does a
/// category.
pub fn set_department_enabled<V: Fn(&str) -> AppResult<Option<String>>, U: Fn(&str, i64) -> AppResult<usize>>(
    id: &str,
    enabled: bool,
    expected_updated_at: Option<&str>,
    current_version: &V,
    update: &U,
) -> (r: AppResult<()>)
    requires
        forall|s: &str| call_requires(*current_version, (s,)),
        forall|s: &str, f: i64| call_requires(*update, (s, f)),
    ensures
        r is Ok ==> enabled_switched(*current_version, *update, id@, enabled, opt_str_view(expected_updated_at)),
        enabled_result(*current_version, *update, id@, enabled, opt_str_view(expected_updated_at), r),
{
    set_enabled(id, enabled, expected_updated_at, current_version, update)
}

/// Switches a supplier on or off, as `set_category_enabled` does a
/// category.
pub fn set_supplier_enabled<V: Fn(&str) -> AppResult<Option<String>>, U: Fn(&str, i64) -> AppResult<usize>>(
    id: &str,
    enabled: bool,
    expected_updated_at: Option<&str>,
    current_version: &V,
    update: &U,
) -> (r: AppResult<()>)
    requires
        forall|s: &str| call_requires(*current_version, (s,)),
        forall|s: &str, f: i64| call_requires(*update, (s, f)),
    ensures
        r is Ok ==> enabled_switched(*current_version, *update, id@, enabled, opt_str_view(expected_updated_at)),
        enabled_result(*current_version, *update, id@, enabled, opt_str_view(expected_updated_at), r),
{
    set_enabled(id, enabled, expected_updated_at, current_version, update)
}

} // verus!
