use vstd::prelude::*;
use vstd::string::*;

use crate::error::{is_validation, validation, AppError, AppResult};
use crate::text::{
    blank_to_none, decimal_padded, lemma_padded_decimal_injective, opt_str_view, opt_view, pad_zeros,
    remove_dashes, same_text,
    spec_blank_to_none, spec_decimal, spec_remove_char, spec_take_chars, spec_trim, take_chars, trim,
};

verus! {

/// The outbound kind that a document of `document_type` is stored with: none
/// for documents that are not outbound, else the trimmed kind (`"internal"`
/// when blank), which must be `"internal"` or `"guest_sale"`; `Err` carries
/// the message for an unknown kind.
pub open spec fn spec_outbound_kind(document_type: Seq<char>, outbound_kind: Option<Seq<char>>) -> Result<
    Option<Seq<char>>,
    Seq<char>,
> {
    if document_type != "outbound"@ {
        Ok(None)
    } else {
        let v = match outbound_kind {
            Some(k) => if spec_trim(k).len() > 0 {
                spec_trim(k)
            } else {
                "internal"@
            },
            None => "internal"@,
        };
        if v == "internal"@ || v == "guest_sale"@ {
            Ok(Some(v))
        } else {
            Err("不支持的出库类型："@ + v)
        }
    }
}

/// Normalizes the outbound kind of a document.
pub fn normalized_outbound_kind(document_type: &str, outbound_kind: Option<&str>) -> (r: AppResult<
    Option<String>,
>)
    ensures
        match spec_outbound_kind(document_type@, opt_str_view(outbound_kind)) {
            Ok(k) => r matches Ok(x) && opt_view(x) == k,
            Err(m) => r matches Err(e) && is_validation(e, m),
        },
{
    proof {
        reveal_strlit("outbound");
        reveal_strlit("internal");
        reveal_strlit("guest_sale");
    }
    if !same_text(document_type, "outbound") {
        return Ok(None);
    }
    let value = match outbound_kind {
        Some(k) => {
            let t = trim(k);
            if t.is_empty() {
                "internal"
            } else {
                t
            }
        },
        None => "internal",
    };
    if same_text(value, "internal") || same_text(value, "guest_sale") {
        Ok(Some(String::from_str(value)))
    } else {
        let message = String::from_str("不支持的出库类型：").concat(value);
        Err(AppError::Validation(message))
    }
}

/// The number prefix of a document type, or the message for a type that has
/// no numbers.
pub open spec fn spec_document_prefix(document_type: Seq<char>) -> Result<Seq<char>, Seq<char>> {
    if document_type == "inbound"@ {
        Ok("IN"@)
    } else if document_type == "outbound"@ {
        Ok("OUT"@)
    } else if document_type == "adjustment"@ {
        Ok("ADJ"@)
    } else {
        Err("不支持的单据类型："@ + document_type)
    }
}

fn document_prefix(document_type: &str) -> (r: AppResult<&'static str>)
    ensures
        match spec_document_prefix(document_type@) {
            Ok(p) => r matches Ok(x) && x@ == p,
            Err(m) => r matches Err(e) && is_validation(e, m),
        },
{
    if same_text(document_type, "inbound") {
        Ok("IN")
    } else if same_text(document_type, "outbound") {
        Ok("OUT")
    } else if same_text(document_type, "adjustment") {
        Ok("ADJ")
    } else {
        Err(AppError::Validation(String::from_str("不支持的单据类型：").concat(document_type)))
    }
}

/// The date part of a document number: the first ten characters of the
/// business date without dashes.
pub open spec fn spec_date_part(business_date: Seq<char>) -> Seq<char> {
    spec_remove_char(spec_take_chars(business_date, 10), '-')
}

/// What every number of the given type and date begins with.
pub open spec fn spec_document_stem(prefix: Seq<char>, business_date: Seq<char>) -> Seq<char> {
    prefix + "-"@ + spec_date_part(business_date) + "-"@
}

/// The SQL `LIKE` pattern that matches every document number of a type and
/// date.
pub fn document_no_like_pattern(document_type: &str, business_date: &str) -> (r: AppResult<String>)
    ensures
        match spec_document_prefix(document_type@) {
            Ok(p) => r matches Ok(x) && x@ == spec_document_stem(p, business_date@) + "%"@,
            Err(m) => r matches Err(e) && is_validation(e, m),
        },
{
    let prefix = document_prefix(document_type)?;
    let date_part = remove_dashes(take_chars(business_date, 10));
    Ok(String::from_str(prefix).concat("-").concat(date_part.as_str()).concat("-").concat("%"))
}

/// The number of the next document of a type and date, when `existing`
/// documents of that type and date are numbered already: the stem and the
/// next sequence number, four digits at least.
pub fn next_document_no(document_type: &str, business_date: &str, existing: u64) -> (r: AppResult<String>)
    requires
        existing < u64::MAX,
    ensures
        match spec_document_prefix(document_type@) {
            Ok(p) => r matches Ok(x) && x@ == spec_document_stem(p, business_date@) + pad_zeros(
                spec_decimal((existing + 1) as nat),
                4,
            ),
            Err(m) => r matches Err(e) && is_validation(e, m),
        },
{
    let prefix = document_prefix(document_type)?;
    let date_part = remove_dashes(take_chars(business_date, 10));
    let sequence = decimal_padded(existing + 1, 4);
    Ok(String::from_str(prefix).concat("-").concat(date_part.as_str()).concat("-").concat(
        sequence.as_str(),
    ))
}

/// The SQL `LIKE` pattern that matches every batch number of a document.
pub fn batch_no_like_pattern(document_no: &str) -> (r: String)
    ensures
        r@ == document_no@ + "-B%"@,
{
    String::from_str(document_no).concat("-B%")
}

/// The number of the next batch of a document that has `existing` batches.
pub fn next_batch_no(document_no: &str, existing: u64) -> (r: String)
    requires
        existing < u64::MAX,
    ensures
        r@ == document_no@ + "-B"@ + pad_zeros(spec_decimal((existing + 1) as nat), 3),
{
    let sequence = decimal_padded(existing + 1, 3);
    String::from_str(document_no).concat("-B").concat(sequence.as_str())
}

/// The month (`YYYY-MM`) of a business date: its first seven characters.
pub fn period_month(business_date: &str) -> (r: String)
    ensures
        r@ == spec_take_chars(business_date@, 7),
{
    String::from_str(take_chars(business_date, 7))
}

/// The entity id that a budget-override approval names: the department and
/// the month joined by `':'`.
pub fn budget_approval_entity_id(department_id: &str, period_month: &str) -> (r: String)
    ensures
        r@ == department_id@ + ":"@ + period_month@,
{
    String::from_str(department_id).concat(":").concat(period_month)
}

/// The direction that reverses a movement: `"out"` for `"in"`, else `"in"`.
pub fn reverse_direction(direction: &str) -> (r: &'static str)
    ensures
        direction@ == "in"@ ==> r@ == "out"@,
        direction@ != "in"@ ==> r@ == "in"@,
{
    if same_text(direction, "in") {
        "out"
    } else {
        "in"
    }
}

/// The operator recorded for a handler: the trimmed handler, or `"system"`
/// when blank.
pub fn operator_name(handler: Option<String>) -> (r: String)
    ensures
        r@ == match spec_blank_to_none(opt_view(handler)) {
            Some(h) => h,
            None => "system"@,
        },
{
    match blank_to_none(handler) {
        Some(h) => h,
        None => String::from_str("system"),
    }
}

/// The remark of a reversal movement.
pub fn void_remark(document_no: &str, reason: &str) -> (r: String)
    ensures
        r@ == "作废冲正 "@ + document_no@ + "："@ + reason@,
{
    String::from_str("作废冲正 ").concat(document_no).concat("：").concat(reason)
}

/// Document types that a void can reverse.
pub open spec fn voidable_type(document_type: Seq<char>) -> bool {
    document_type == "inbound"@ || document_type == "outbound"@ || document_type == "adjustment"@
        || document_type == "stocktake"@
}

/// A document can be voided when it is confirmed and of a voidable type.
pub fn check_voidable(status: &str, document_type: &str) -> (r: AppResult<()>)
    ensures
        r is Ok <==> (status@ == "confirmed"@ && voidable_type(document_type@)),
        status@ != "confirmed"@ ==> (r matches Err(e) && is_validation(e, "只能作废已确认单据"@)),
        status@ == "confirmed"@ && !voidable_type(document_type@) ==> (r matches Err(e)
            && is_validation(e, "当前单据类型暂不支持作废冲正"@)),
{
    if !same_text(status, "confirmed") {
        return Err(validation("只能作废已确认单据"));
    }
    if !(same_text(document_type, "inbound") || same_text(document_type, "outbound") || same_text(
        document_type,
        "adjustment",
    ) || same_text(document_type, "stocktake")) {
        return Err(validation("当前单据类型暂不支持作废冲正"));
    }
    Ok(())
}

/// A saved draft may be edited when it is still a draft and keeps its type.
pub fn check_draft_editable(status: &str, existing_type: &str, requested_type: &str) -> (r: AppResult<()>)
    ensures
        r is Ok <==> (status@ == "draft"@ && existing_type@ == requested_type@),
        status@ != "draft"@ ==> (r matches Err(e) && is_validation(e, "只能编辑草稿单据"@)),
        status@ == "draft"@ && existing_type@ != requested_type@ ==> (r matches Err(e)
            && is_validation(e, "草稿单据类型不能变更"@)),
{
    if !same_text(status, "draft") {
        return Err(validation("只能编辑草稿单据"));
    }
    if !same_text(existing_type, requested_type) {
        return Err(validation("草稿单据类型不能变更"));
    }
    Ok(())
}

/// A document may be confirmed only while it is a draft.
pub fn check_draft_confirmable(status: &str) -> (r: AppResult<()>)
    ensures
        r is Ok <==> status@ == "draft"@,
        r matches Err(e) ==> is_validation(e, "只能确认草稿单据"@),
{
    if !same_text(status, "draft") {
        return Err(validation("只能确认草稿单据"));
    }
    Ok(())
}

/// An outbound document other than a sale to guests must name the
/// department that takes the stock: `outbound_kind` is the stored kind,
/// and a blank department counts as none.
pub open spec fn spec_department_required(
    document_type: Seq<char>,
    outbound_kind: Option<Seq<char>>,
    department_id: Option<Seq<char>>,
) -> bool {
    &&& document_type == "outbound"@
    &&& outbound_kind != Some("guest_sale"@)
    &&& spec_blank_to_none(department_id) is None
}

/// The message for an outbound document that names no department.
pub open spec fn department_required_message() -> Seq<char> {
    "出库/领用必须选择部门"@
}

/// Refuses an outbound document, other than a sale to guests, that names
/// no department.
pub fn check_outbound_department(document_type: &str, outbound_kind: Option<&str>, department_id: Option<&str>) -> (r:
    AppResult<()>)
    ensures
        spec_department_required(document_type@, opt_str_view(outbound_kind), opt_str_view(department_id))
            ==> (r matches Err(e) && is_validation(e, department_required_message())),
        !spec_department_required(document_type@, opt_str_view(outbound_kind), opt_str_view(department_id)) ==> r is Ok,
{
    proof {
        reveal_strlit("guest_sale");
    }
    if !same_text(document_type, "outbound") {
        return Ok(());
    }
    let guest_sale = match outbound_kind {
        Some(k) => same_text(k, "guest_sale"),
        None => false,
    };
    if guest_sale {
        return Ok(());
    }
    let named = match department_id {
        Some(d) => !trim(d).is_empty(),
        None => false,
    };
    if named {
        Ok(())
    } else {
        Err(validation("出库/领用必须选择部门"))
    }
}

/// The candidate item code for sequence number `index`: `"HC-"` and the
/// number, four digits at least.
pub fn item_code_candidate(index: u64) -> (r: String)
    ensures
        r@ == "HC-"@ + pad_zeros(spec_decimal(index as nat), 4),
{
    String::from_str("HC-").concat(decimal_padded(index, 4).as_str())
}

/// An item may move stock when it exists and is enabled; `found` is the
/// enabled flag of the item found, `None` when there is none.
pub fn check_item_for_stock(item_id: &str, found: Option<bool>) -> (r: AppResult<()>)
    ensures
        found is None ==> (r matches Err(e) && is_validation(e, "物品不存在"@)),
        found == Some(false) ==> (r matches Err(e) && is_validation(e, "物品已停用："@ + item_id@)),
        found == Some(true) ==> r is Ok,
{
    match found {
        None => Err(validation("物品不存在")),
        Some(false) => Err(AppError::Validation(String::from_str("物品已停用：").concat(item_id))),
        Some(true) => Ok(()),
    }
}

/// The party that a document must name enabled: the trimmed department of
/// an outbound document, or the trimmed supplier of an inbound one, when it
/// is not blank.  The text is the table to look it up in.
pub open spec fn spec_party_to_check(
    document_type: Seq<char>,
    department_id: Option<Seq<char>>,
    supplier_id: Option<Seq<char>>,
) -> Option<(Seq<char>, Seq<char>)> {
    if document_type == "outbound"@ {
        match spec_blank_to_none(department_id) {
            Some(d) => Some(("departments"@, d)),
            None => None,
        }
    } else if document_type == "inbound"@ {
        match spec_blank_to_none(supplier_id) {
            Some(s) => Some(("suppliers"@, s)),
            None => None,
        }
    } else {
        None
    }
}

/// What looking at a found party gives: `found` is the name and
/// enabled flag of the record, `None` when there is none.
pub open spec fn spec_party_check(table: Seq<char>, found: Option<(String, bool)>) -> Result<(), Seq<char>> {
    let label = if table == "departments"@ {
        "领用部门"@
    } else {
        "供应商"@
    };
    match found {
        None => Err(label + "不存在"@),
        Some(f) => if f.1 {
            Ok(())
        } else {
            Err(label + "已停用："@ + f.0@)
        },
    }
}

fn text_of(value: Option<&str>) -> (r: Option<String>)
    ensures
        opt_view(r) == opt_str_view(value),
{
    match value {
        Some(v) => Some(String::from_str(v)),
        None => None,
    }
}

/// The party of a document to check, with the table to look it up in.
pub fn party_to_check(document_type: &str, department_id: Option<&str>, supplier_id: Option<&str>) -> (r:
    Option<(&'static str, String)>)
    ensures
        match spec_party_to_check(document_type@, opt_str_view(department_id), opt_str_view(supplier_id)) {
            Some(p) => r matches Some(x) && x.0@ == p.0 && x.1@ == p.1,
            None => r is None,
        },
{
    if same_text(document_type, "outbound") {
        match blank_to_none(text_of(department_id)) {
            Some(d) => Some(("departments", d)),
            None => None,
        }
    } else if same_text(document_type, "inbound") {
        match blank_to_none(text_of(supplier_id)) {
            Some(s) => Some(("suppliers", s)),
            None => None,
        }
    } else {
        None
    }
}

/// Checks a looked-up party.
pub fn check_party(table: &str, found: Option<(String, bool)>) -> (r: AppResult<()>)
    ensures
        match spec_party_check(table@, found) {
            Ok(()) => r is Ok,
            Err(m) => r matches Err(e) && is_validation(e, m),
        },
{
    let label = if same_text(table, "departments") {
        "领用部门"
    } else {
        "供应商"
    };
    match found {
        None => Err(AppError::Validation(String::from_str(label).concat("不存在"))),
        Some((name, enabled)) => if enabled {
            Ok(())
        } else {
            Err(AppError::Validation(String::from_str(label).concat("已停用：").concat(name.as_str())))
        },
    }
}

/// Checks that the party a document names is enabled: `lookup` finds the
/// name and enabled flag of a record by table and id.  A document that names
/// no party to check passes without a lookup.
pub fn validate_enabled_parties_for_document<F: Fn(&str, &str) -> AppResult<Option<(String, bool)>>>(
    document_type: &str,
    department_id: Option<&str>,
    supplier_id: Option<&str>,
    lookup: &F,
) -> (r: AppResult<()>)
    requires
        forall|t: &str, i: &str| call_requires(*lookup, (t, i)),
    ensures
        match spec_party_to_check(document_type@, opt_str_view(department_id), opt_str_view(supplier_id)) {
            None => r is Ok,
            Some(p) => exists|t: &str, i: &str, found: AppResult<Option<(String, bool)>>|
                t@ == p.0 && i@ == p.1 && #[trigger] call_ensures(*lookup, (t, i), found) && match found {
                    Err(e) => r == Err::<(), AppError>(e),
                    Ok(f) => match spec_party_check(p.0, f) {
                        Ok(()) => r is Ok,
                        Err(m) => r matches Err(e) && is_validation(e, m),
                    },
                },
        },
{
    let (table, id) = match party_to_check(document_type, department_id, supplier_id) {
        Some(p) => p,
        None => {
            return Ok(());
        },
    };
    let id_text = id.as_str();
    let found = lookup(table, id_text);
    assert(call_ensures(*lookup, (table, id_text), found));
    match found {
        Err(e) => Err(e),
        Ok(f) => check_party(table, f),
    }
}

/// Whether an approval lets a department exceed its budget for a month:
/// a blank or missing approval id allows nothing and is not looked up;
/// otherwise `count_approved` counts the approved budget-override requests
/// with that (trimmed) id for the entity `department:month`.
pub fn approval_allows_budget_override<F: Fn(&str, &str) -> AppResult<i64>>(
    approval_request_id: Option<&str>,
    department_id: &str,
    period_month: &str,
    count_approved: &F,
) -> (r: AppResult<bool>)
    requires
        forall|a: &str, e: &str| call_requires(*count_approved, (a, e)),
    ensures
        match spec_blank_to_none(opt_str_view(approval_request_id)) {
            None => r == Ok::<bool, AppError>(false),
            Some(id) => exists|a: &str, e: &str, counted: AppResult<i64>|
                a@ == id && e@ == department_id@ + ":"@ + period_month@ && #[trigger] call_ensures(
                    *count_approved,
                    (a, e),
                    counted,
                ) && match counted {
                    Ok(n) => r == Ok::<bool, AppError>(n > 0),
                    Err(err) => r == Err::<bool, AppError>(err),
                },
        },
{
    let id = match blank_to_none(text_of(approval_request_id)) {
        Some(id) => id,
        None => {
            return Ok(false);
        },
    };
    let entity = budget_approval_entity_id(department_id, period_month);
    let id_text = id.as_str();
    let entity_text = entity.as_str();
    let counted = count_approved(id_text, entity_text);
    assert(call_ensures(*count_approved, (id_text, entity_text), counted));
    match counted {
        Ok(n) => Ok(n > 0),
        Err(err) => Err(err),
    }
}

/// Counts may be entered while a stocktake is neither confirmed nor voided.
pub fn check_stocktake_editable(status: &str) -> (r: AppResult<()>)
    ensures
        status@ == "confirmed"@ ==> (r matches Err(e) && is_validation(e, "已确认的盘点单不能修改"@)),
        status@ == "voided"@ ==> (r matches Err(e) && is_validation(e, "已作废的盘点单不能修改"@)),
        status@ != "confirmed"@ && status@ != "voided"@ ==> r is Ok,
{
    proof {
        reveal_strlit("confirmed");
        reveal_strlit("voided");
        assert("confirmed"@.len() != "voided"@.len());
    }
    if same_text(status, "confirmed") {
        return Err(validation("已确认的盘点单不能修改"));
    }
    if same_text(status, "voided") {
        return Err(validation("已作废的盘点单不能修改"));
    }
    Ok(())
}

/// A count must have changed its line; none means the line is not one of
/// the stocktake's.
pub fn check_stocktake_line_updated(changed: usize, line_id: &str) -> (r: AppResult<()>)
    ensures
        r is Ok <==> changed > 0,
        r matches Err(e) ==> is_validation(e, "盘点明细不存在或不属于当前盘点单："@ + line_id@),
{
    if changed == 0 {
        Err(AppError::Validation(String::from_str("盘点明细不存在或不属于当前盘点单：").concat(line_id)))
    } else {
        Ok(())
    }
}

proof fn lemma_same_prefix_tail(prefix: Seq<char>, a: Seq<char>, b: Seq<char>)
    requires
        prefix + a == prefix + b,
    ensures
        a == b,
{
    assert(a =~= (prefix + a).skip(prefix.len() as int));
    assert(b =~= (prefix + b).skip(prefix.len() as int));
}

/// Documents of one type and date numbered after different counts of
/// existing documents get different numbers.
pub proof fn law_document_numbers_are_distinct(
    document_type: Seq<char>,
    business_date: Seq<char>,
    first: u64,
    second: u64,
)
    requires
        first != second,
        first < u64::MAX,
        second < u64::MAX,
        spec_document_prefix(document_type) is Ok,
    ensures
        ({
            let stem = spec_document_stem(spec_document_prefix(document_type)->Ok_0, business_date);
            stem + pad_zeros(spec_decimal((first + 1) as nat), 4) != stem + pad_zeros(
                spec_decimal((second + 1) as nat),
                4,
            )
        }),
{
    let stem = spec_document_stem(spec_document_prefix(document_type)->Ok_0, business_date);
    let a = pad_zeros(spec_decimal((first + 1) as nat), 4);
    let b = pad_zeros(spec_decimal((second + 1) as nat), 4);
    if stem + a == stem + b {
        lemma_same_prefix_tail(stem, a, b);
        lemma_padded_decimal_injective((first + 1) as nat, (second + 1) as nat, 4);
    }
}

/// The batches of one document numbered after different counts of existing
/// batches get different numbers.
pub proof fn law_batch_numbers_are_distinct(document_no: Seq<char>, first: u64, second: u64)
    requires
        first != second,
        first < u64::MAX,
        second < u64::MAX,
    ensures
        document_no + "-B"@ + pad_zeros(spec_decimal((first + 1) as nat), 3) != document_no + "-B"@
            + pad_zeros(spec_decimal((second + 1) as nat), 3),
{
    let stem = document_no + "-B"@;
    let a = pad_zeros(spec_decimal((first + 1) as nat), 3);
    let b = pad_zeros(spec_decimal((second + 1) as nat), 3);
    if stem + a == stem + b {
        lemma_same_prefix_tail(stem, a, b);
        lemma_padded_decimal_injective((first + 1) as nat, (second + 1) as nat, 3);
    }
}

/// Different sequence numbers give different item code candidates.
pub proof fn law_item_code_candidates_are_distinct(first: u64, second: u64)
    requires
        first != second,
    ensures
        "HC-"@ + pad_zeros(spec_decimal(first as nat), 4) != "HC-"@ + pad_zeros(spec_decimal(second as nat), 4),
{
    let a = pad_zeros(spec_decimal(first as nat), 4);
    let b = pad_zeros(spec_decimal(second as nat), 4);
    if "HC-"@ + a == "HC-"@ + b {
        lemma_same_prefix_tail("HC-"@, a, b);
        lemma_padded_decimal_injective(first as nat, second as nat, 4);
    }
}

} // verus!
