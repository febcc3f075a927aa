use aster_core::error::map_interrupted_result;
use aster_core::backup_records::{successful_backup_row, SuccessfulBackupRecord};
use aster_core::error::AppError;
use aster_core::master_data::{
    bool_to_i64, check_category_parent, ensure_changed, reference_lookup_sql,
    require_current_version, require_enabled_reference, resolve_item_code,
};
use aster_core::report_filters::{bound, ReportFilters, ReportQuery};
use aster_core::sessions::{
    check_approval_decided, check_session, is_session_live, session_expiry, StoredSession,
    ABSOLUTE_TTL_SECONDS, IDLE_TTL_SECONDS,
};
use aster_core::stock_rules::{
    batch_no_like_pattern, budget_approval_entity_id, check_draft_confirmable, check_outbound_department,
    check_draft_editable, check_voidable, document_no_like_pattern, item_code_candidate,
    next_batch_no, next_document_no, normalized_outbound_kind, operator_name, period_month,
    reverse_direction, void_remark,
};
use aster_core::write_limits::validate_line_count;

fn validation_message(error: AppError) -> String {
    match error {
        AppError::Validation(message) => message,
        other => panic!("expected a validation error, got {:?}", other),
    }
}

#[test]
fn line_limit_message_names_the_label() {
    let error = validate_line_count(2_001, "盘点单").unwrap_err();
    match error {
        AppError::PayloadTooLarge(message) => assert_eq!(message, "盘点单一次最多提交 2000 行"),
        other => panic!("unexpected error {:?}", other),
    }
    assert!(validate_line_count(0, "盘点单").is_ok());
}

#[test]
fn document_numbers_follow_type_date_and_sequence() {
    assert_eq!(
        next_document_no("inbound", "2026-06-11", 0).unwrap(),
        "IN-20260611-0001"
    );
    assert_eq!(
        next_document_no("outbound", "2026-06-11 09:30:00", 41).unwrap(),
        "OUT-20260611-0042"
    );
    assert_eq!(
        next_document_no("adjustment", "2026-06-11", 12_344).unwrap(),
        "ADJ-20260611-12345"
    );
    assert_eq!(
        validation_message(next_document_no("stocktake", "2026-06-11", 0).unwrap_err()),
        "不支持的单据类型：stocktake"
    );
    assert_eq!(
        document_no_like_pattern("outbound", "2026-06-11").unwrap(),
        "OUT-20260611-%"
    );
}

#[test]
fn batch_numbers_extend_the_document_number() {
    assert_eq!(next_batch_no("IN-20260611-0001", 0), "IN-20260611-0001-B001");
    assert_eq!(next_batch_no("IN-20260611-0001", 999), "IN-20260611-0001-B1000");
    assert_eq!(batch_no_like_pattern("IN-20260611-0001"), "IN-20260611-0001-B%");
}

#[test]
fn outbound_kind_defaults_to_internal_and_rejects_unknown_kinds() {
    assert_eq!(normalized_outbound_kind("inbound", Some("guest_sale")).unwrap(), None);
    assert_eq!(
        normalized_outbound_kind("outbound", None).unwrap(),
        Some("internal".to_string())
    );
    assert_eq!(
        normalized_outbound_kind("outbound", Some("  ")).unwrap(),
        Some("internal".to_string())
    );
    assert_eq!(
        normalized_outbound_kind("outbound", Some(" guest_sale ")).unwrap(),
        Some("guest_sale".to_string())
    );
    assert_eq!(
        validation_message(normalized_outbound_kind("outbound", Some("gift")).unwrap_err()),
        "不支持的出库类型：gift"
    );
}

#[test]
fn small_stock_rules_give_their_exact_values() {
    assert_eq!(period_month("2026-06-11"), "2026-06");
    assert_eq!(period_month("2026"), "2026");
    assert_eq!(budget_approval_entity_id("dept-1", "2026-06"), "dept-1:2026-06");
    assert_eq!(reverse_direction("in"), "out");
    assert_eq!(reverse_direction("out"), "in");
    assert_eq!(operator_name(Some("  张三 ".to_string())), "张三");
    assert_eq!(operator_name(Some("   ".to_string())), "system");
    assert_eq!(operator_name(None), "system");
    assert_eq!(void_remark("OUT-20260611-0001", "录入错误"), "作废冲正 OUT-20260611-0001：录入错误");
    assert_eq!(item_code_candidate(7), "HC-0007");
    assert_eq!(item_code_candidate(12_345), "HC-12345");
}

#[test]
fn void_and_draft_checks_refuse_with_their_messages() {
    assert!(check_voidable("confirmed", "stocktake").is_ok());
    assert_eq!(
        validation_message(check_voidable("draft", "inbound").unwrap_err()),
        "只能作废已确认单据"
    );
    assert_eq!(
        validation_message(check_voidable("confirmed", "transfer").unwrap_err()),
        "当前单据类型暂不支持作废冲正"
    );
    assert!(check_draft_editable("draft", "inbound", "inbound").is_ok());
    assert_eq!(
        validation_message(check_draft_editable("confirmed", "inbound", "inbound").unwrap_err()),
        "只能编辑草稿单据"
    );
    assert_eq!(
        validation_message(check_draft_editable("draft", "inbound", "outbound").unwrap_err()),
        "草稿单据类型不能变更"
    );
    assert!(check_draft_confirmable("draft").is_ok());
    assert_eq!(
        validation_message(check_draft_confirmable("voided").unwrap_err()),
        "只能确认草稿单据"
    );
}

#[test]
fn optimistic_locking_compares_trimmed_versions() {
    assert!(require_current_version(Some(" v1 "), Some("v1")).is_ok());
    assert_eq!(
        validation_message(require_current_version(None, Some("v1")).unwrap_err()),
        "编辑记录缺少版本信息，请刷新后重试"
    );
    assert_eq!(
        validation_message(require_current_version(Some("  "), Some("v1")).unwrap_err()),
        "编辑记录缺少版本信息，请刷新后重试"
    );
    assert_eq!(
        validation_message(require_current_version(Some("v1"), None).unwrap_err()),
        "要编辑的记录不存在"
    );
    assert_eq!(
        validation_message(require_current_version(Some("v1"), Some("v2")).unwrap_err()),
        "记录已被其他客户端修改，请刷新后重试"
    );
    assert!(ensure_changed(1).is_ok());
    assert_eq!(validation_message(ensure_changed(0).unwrap_err()), "要编辑的记录不存在");
}

#[test]
fn references_must_exist_and_be_enabled() {
    assert!(require_enabled_reference("分类", None, None).is_ok());
    assert!(require_enabled_reference("分类", Some("c1"), Some(("食品", true))).is_ok());
    assert_eq!(
        validation_message(require_enabled_reference("单位", Some("u1"), None).unwrap_err()),
        "单位不存在"
    );
    assert_eq!(
        validation_message(
            require_enabled_reference("默认供应商", Some("s1"), Some(("老王", false))).unwrap_err()
        ),
        "默认供应商已停用：老王"
    );
    assert_eq!(
        reference_lookup_sql("units").unwrap(),
        "SELECT name, enabled FROM units WHERE id = ?1"
    );
    assert_eq!(
        validation_message(reference_lookup_sql("items").unwrap_err()),
        "不支持的关联资料类型"
    );
}

#[test]
fn item_codes_are_trimmed_and_required_on_update() {
    assert_eq!(resolve_item_code(Some(" HC-0001 "), true).unwrap(), Some("HC-0001".to_string()));
    assert_eq!(resolve_item_code(Some("  "), false).unwrap(), None);
    assert_eq!(resolve_item_code(None, false).unwrap(), None);
    assert_eq!(
        validation_message(resolve_item_code(None, true).unwrap_err()),
        "物品编码不能为空"
    );
    assert_eq!(bool_to_i64(true), 1);
    assert_eq!(bool_to_i64(false), 0);
}

#[test]
fn category_parent_must_exist_and_be_top_level() {
    assert!(check_category_parent(Some(None)).is_ok());
    assert_eq!(
        validation_message(check_category_parent(Some(Some("cat-food"))).unwrap_err()),
        "上级分类必须是大类"
    );
    assert_eq!(
        validation_message(check_category_parent(None).unwrap_err()),
        "上级分类不存在"
    );
}

#[test]
fn sessions_end_on_idle_absolute_or_revoked() {
    let now = 1_000_000;
    assert_eq!(session_expiry(now), now + ABSOLUTE_TTL_SECONDS);
    assert!(is_session_live(now, now + 10, None, now));
    assert!(!is_session_live(now - IDLE_TTL_SECONDS, now + 10, None, now));
    assert!(!is_session_live(now, now, None, now));
    assert!(!is_session_live(now, now + 10, Some(now - 1), now));
    let live = StoredSession {
        user_id: "user-1".to_string(),
        last_seen_at_unix: now - 60,
        expires_at_unix: now + 60,
        revoked_at_unix: None,
    };
    assert_eq!(check_session(Some(live), now).unwrap(), "user-1");
    match check_session(None, now).unwrap_err() {
        AppError::Unauthorized(m) => assert_eq!(m, "用户会话无效，请重新登录"),
        other => panic!("unexpected {:?}", other),
    }
    let revoked = StoredSession {
        user_id: "user-1".to_string(),
        last_seen_at_unix: now - 60,
        expires_at_unix: now + 60,
        revoked_at_unix: Some(now - 30),
    };
    match check_session(Some(revoked), now).unwrap_err() {
        AppError::Unauthorized(m) => assert_eq!(m, "用户会话已过期，请重新登录"),
        other => panic!("unexpected {:?}", other),
    }
    assert!(check_approval_decided(1).is_ok());
    assert!(check_approval_decided(0).is_err());
}

#[test]
fn report_filters_extend_bare_dates_to_whole_days() {
    assert_eq!(bound("2026-06-01", false), "2026-06-01 00:00:00");
    assert_eq!(bound("2026-06-30", true), "2026-06-30 23:59:59");
    assert_eq!(bound("2026-06-30 12:00:00", true), "2026-06-30 12:00:00");
    assert_eq!(bound("2026年6月1日", false), "2026年6月1日");
    let query = ReportQuery {
        month: "2026-06".to_string(),
        start_date: Some("2026-06-01".to_string()),
        end_date: Some("2026-06-15".to_string()),
        department_id: Some("dept-admin-office".to_string()),
        category_id: None,
        item_id: Some("item-a".to_string()),
        supplier_id: None,
    };
    let filters = ReportFilters::from_query(&query);
    assert_eq!(filters.month, "2026-06");
    assert_eq!(filters.start_date.as_deref(), Some("2026-06-01 00:00:00"));
    assert_eq!(filters.end_date.as_deref(), Some("2026-06-15 23:59:59"));
    assert_eq!(filters.department_id, Some("dept-admin-office"));
    assert_eq!(filters.category_id, None);
    assert_eq!(filters.item_id, Some("item-a"));
    assert_eq!(filters.supplier_id, None);
}

#[test]
fn successful_backups_are_journalled_as_success_without_error() {
    let row = successful_backup_row(SuccessfulBackupRecord {
        id: "backup-1",
        backup_file: "aster-20260611.sqlite",
        backup_type: "manual",
        app_version: "1.2.0",
        schema_version: 7,
        host_name: "front-desk",
        os: "windows",
        database_size: 4096,
        sha256: "abc123",
    });
    assert_eq!(row.id, "backup-1");
    assert_eq!(row.backup_file, "aster-20260611.sqlite");
    assert_eq!(row.backup_type, "manual");
    assert_eq!(row.schema_version, 7);
    assert_eq!(row.database_size, 4096);
    assert_eq!(row.status, "success");
    assert_eq!(row.error_message, None);
}

use aster_core::error::AppResult;
use aster_core::master_data::{
    next_item_code, save_budget_rule, save_item, set_budget_rule_enabled, set_item_enabled,
    BudgetRuleRow, ItemRow, SaveBudgetRuleRequest, SaveItemRequest,
};
use aster_core::stock_rules::{
    approval_allows_budget_override, check_item_for_stock, check_party, party_to_check,
    validate_enabled_parties_for_document,
};
use std::cell::RefCell;

fn failure<T>(result: AppResult<T>) -> AppError {
    match result {
        Ok(_) => panic!("expected an error"),
        Err(error) => error,
    }
}

fn item_request(id: Option<&str>, code: Option<&str>, version: Option<&str>) -> SaveItemRequest<(i64, i64)> {
    SaveItemRequest {
        id: id.map(str::to_string),
        code: code.map(str::to_string),
        barcode: Some("  ".to_string()),
        name: "  毛巾 ".to_string(),
        category_id: Some(" cat-1 ".to_string()),
        spec: Some(" 70x140 ".to_string()),
        unit_id: Some("unit-piece".to_string()),
        supplier_id: None,
        enabled: true,
        remark: None,
        expected_updated_at: version.map(str::to_string),
        extra: (1250, 3),
    }
}

fn enabled_lookup(table: &str, id: &str) -> AppResult<Option<(String, bool)>> {
    match (table, id) {
        ("categories", "cat-1") => Ok(Some(("客房用品".to_string(), true))),
        ("units", "unit-piece") => Ok(Some(("条".to_string(), true))),
        ("units", "unit-off") => Ok(Some(("箱".to_string(), false))),
        ("departments", "dept-1") => Ok(Some(("客房部".to_string(), true))),
        _ => Ok(None),
    }
}

#[test]
fn new_item_gets_a_generated_code_and_normalized_fields() {
    let written: RefCell<Option<(String, String, Option<String>, String, Option<String>, i64, bool)>> =
        RefCell::new(None);
    let result = save_item(
        item_request(Some("item-new"), Some("  "), None),
        &|_: &str| Ok(false),
        &|| next_item_code(3, &|code: &str| Ok(code == "HC-0003")),
        &enabled_lookup,
        &|_: &str| -> AppResult<Option<String>> { panic!("a new item has no version") },
        &|row: ItemRow<(i64, i64)>, update: bool| -> AppResult<String> {
            *written.borrow_mut() = Some((
                row.id.clone(),
                row.code.clone(),
                row.barcode.clone(),
                row.name.clone(),
                row.category_id.clone(),
                row.enabled,
                update,
            ));
            assert_eq!(row.spec.as_deref(), Some("70x140"));
            assert_eq!(row.extra, (1250, 3));
            Ok(row.id)
        },
    );
    assert_eq!(result.unwrap(), "item-new");
    assert_eq!(
        written.into_inner().unwrap(),
        (
            "item-new".to_string(),
            "HC-0004".to_string(),
            None,
            "毛巾".to_string(),
            Some("cat-1".to_string()),
            1,
            false
        )
    );
}

#[test]
fn item_updates_need_code_enabled_references_and_current_version() {
    let never_write = |_: ItemRow<(i64, i64)>, _: bool| -> AppResult<()> { panic!("must not write") };
    let exists = |_: &str| -> AppResult<bool> { Ok(true) };
    let no_code = || -> AppResult<String> { panic!("an update keeps its code") };
    let version = |_: &str| -> AppResult<Option<String>> { Ok(Some("v2".to_string())) };
    assert_eq!(
        validation_message(failure(save_item(
            item_request(Some("item-1"), None, Some("v2")),
            &exists,
            &no_code,
            &enabled_lookup,
            &version,
            &never_write
        ))),
        "物品编码不能为空"
    );
    let mut off_unit = item_request(Some("item-1"), Some("HC-0001"), Some("v2"));
    off_unit.unit_id = Some("unit-off".to_string());
    assert_eq!(
        validation_message(failure(save_item(off_unit, &exists, &no_code, &enabled_lookup, &version, &never_write))),
        "单位已停用：箱"
    );
    let mut missing_supplier = item_request(Some("item-1"), Some("HC-0001"), Some("v2"));
    missing_supplier.supplier_id = Some("sup-9".to_string());
    assert_eq!(
        validation_message(failure(save_item(
            missing_supplier,
            &exists,
            &no_code,
            &enabled_lookup,
            &version,
            &never_write
        ))),
        "默认供应商不存在"
    );
    assert_eq!(
        validation_message(failure(save_item(
            item_request(Some("item-1"), Some("HC-0001"), Some("v1")),
            &exists,
            &no_code,
            &enabled_lookup,
            &version,
            &never_write
        ))),
        "记录已被其他客户端修改，请刷新后重试"
    );
    let saved = save_item(
        item_request(Some("item-1"), Some(" HC-0001 "), Some(" v2 ")),
        &exists,
        &no_code,
        &enabled_lookup,
        &version,
        &|row: ItemRow<(i64, i64)>, update: bool| -> AppResult<(String, bool)> { Ok((row.code, update)) },
    );
    assert_eq!(saved.unwrap(), ("HC-0001".to_string(), true));
}

#[test]
fn new_item_without_id_gets_a_fresh_one() {
    let saved = save_item(
        item_request(None, Some("HC-0100"), None),
        &|_: &str| Ok(false),
        &|| -> AppResult<String> { panic!("code given") },
        &enabled_lookup,
        &|_: &str| -> AppResult<Option<String>> { panic!("no version for a new item") },
        &|row: ItemRow<(i64, i64)>, _: bool| -> AppResult<String> { Ok(row.id) },
    );
    assert_eq!(saved.unwrap().len(), 36);
}

#[test]
fn generated_item_codes_skip_taken_ones() {
    let taken = ["HC-0007", "HC-0008"];
    assert_eq!(next_item_code(7, &|c: &str| Ok(taken.contains(&c))).unwrap(), "HC-0009");
    assert!(next_item_code(1, &|_: &str| -> AppResult<bool> {
        Err(AppError::Database("locked".to_string()))
    })
    .is_err());
}

#[test]
fn switching_records_checks_version_and_changed_rows() {
    let version = |_: &str| -> AppResult<Option<String>> { Ok(Some("v1".to_string())) };
    let seen = RefCell::new(Vec::new());
    set_item_enabled("item-1", false, Some("v1"), &version, &|id: &str, flag: i64| {
        seen.borrow_mut().push((id.to_string(), flag));
        Ok(1)
    })
    .unwrap();
    assert_eq!(seen.into_inner(), vec![("item-1".to_string(), 0)]);
    assert_eq!(
        validation_message(
            set_budget_rule_enabled("rule-1", true, Some("v1"), &version, &|_: &str, _: i64| Ok(0))
                .unwrap_err()
        ),
        "要编辑的记录不存在"
    );
    assert_eq!(
        validation_message(
            set_item_enabled("item-1", true, None, &version, &|_: &str, _: i64| -> AppResult<usize> {
                panic!("no update without a version")
            })
            .unwrap_err()
        ),
        "编辑记录缺少版本信息，请刷新后重试"
    );
}

#[test]
fn budget_rules_need_an_enabled_department() {
    let request = |department: &str, category: Option<&str>| SaveBudgetRuleRequest {
        id: Some("rule-1".to_string()),
        department_id: department.to_string(),
        category_id: category.map(str::to_string),
        period_month: "2026-06".to_string(),
        enabled: true,
        expected_updated_at: None,
        extra: 5000,
    };
    let write = |row: BudgetRuleRow<i64>, update: bool| -> AppResult<(Option<String>, i64, bool)> {
        Ok((row.category_id, row.extra, update))
    };
    let no_version = |_: &str| -> AppResult<Option<String>> { panic!("insert") };
    assert_eq!(
        save_budget_rule(request("dept-1", Some("  ")), &|_: &str| Ok(false), &enabled_lookup, &no_version, &write)
            .unwrap(),
        (None, 5000, false)
    );
    assert_eq!(
        validation_message(failure(save_budget_rule(
            request("dept-9", None),
            &|_: &str| Ok(false),
            &enabled_lookup,
            &no_version,
            &write
        ))),
        "部门不存在"
    );
    assert_eq!(
        validation_message(failure(save_budget_rule(
            request("dept-1", Some("cat-9")),
            &|_: &str| Ok(false),
            &enabled_lookup,
            &no_version,
            &write
        ))),
        "分类不存在"
    );
}

#[test]
fn documents_check_their_department_or_supplier() {
    assert_eq!(
        party_to_check("outbound", Some(" dept-1 "), Some("sup-1")),
        Some(("departments", "dept-1".to_string()))
    );
    assert_eq!(party_to_check("inbound", Some("dept-1"), Some(" ")), None);
    assert_eq!(party_to_check("adjustment", Some("dept-1"), Some("sup-1")), None);
    assert_eq!(
        validation_message(check_party("departments", Some(("客房部".to_string(), false))).unwrap_err()),
        "领用部门已停用：客房部"
    );
    assert_eq!(validation_message(check_party("suppliers", None).unwrap_err()), "供应商不存在");
    let lookup = |table: &str, id: &str| -> AppResult<Option<(String, bool)>> {
        assert_eq!((table, id), ("suppliers", "sup-1"));
        Ok(Some(("老王".to_string(), false)))
    };
    assert_eq!(
        validation_message(
            validate_enabled_parties_for_document("inbound", None, Some("sup-1"), &lookup).unwrap_err()
        ),
        "供应商已停用：老王"
    );
    assert!(validate_enabled_parties_for_document("outbound", None, Some("sup-1"), &lookup).is_ok());
    assert!(check_item_for_stock("item-1", Some(true)).is_ok());
    assert_eq!(validation_message(check_item_for_stock("item-1", None).unwrap_err()), "物品不存在");
    assert_eq!(
        validation_message(check_item_for_stock("item-1", Some(false)).unwrap_err()),
        "物品已停用：item-1"
    );
}

#[test]
fn budget_override_needs_an_approved_request_for_the_month() {
    let count = |id: &str, entity: &str| -> AppResult<i64> {
        Ok(if id == "appr-1" && entity == "dept-1:2026-06" { 1 } else { 0 })
    };
    assert!(approval_allows_budget_override(Some(" appr-1 "), "dept-1", "2026-06", &count).unwrap());
    assert!(!approval_allows_budget_override(Some("appr-1"), "dept-1", "2026-07", &count).unwrap());
    assert!(!approval_allows_budget_override(Some("  "), "dept-1", "2026-06", &|_: &str, _: &str| -> AppResult<i64> {
        panic!("blank approval is not looked up")
    })
    .unwrap());
    assert!(!approval_allows_budget_override(None, "dept-1", "2026-06", &count).unwrap());
}

use aster_core::stock_rules::{check_stocktake_editable, check_stocktake_line_updated};

#[test]
fn stocktake_counts_need_an_open_stocktake_and_its_own_lines() {
    assert!(check_stocktake_editable("counting").is_ok());
    assert_eq!(
        validation_message(check_stocktake_editable("confirmed").unwrap_err()),
        "已确认的盘点单不能修改"
    );
    assert_eq!(
        validation_message(check_stocktake_editable("voided").unwrap_err()),
        "已作废的盘点单不能修改"
    );
    assert!(check_stocktake_line_updated(1, "line-1").is_ok());
    assert_eq!(
        validation_message(check_stocktake_line_updated(0, "line-9").unwrap_err()),
        "盘点明细不存在或不属于当前盘点单：line-9"
    );
}

use aster_core::sessions::authenticate;
use std::cell::Cell;

#[test]
fn authentication_touches_only_live_sessions() {
    let now = 2_000_000;
    let touched = Cell::new(None);
    let user = authenticate(
        now,
        || {
            Ok(Some(StoredSession {
                user_id: "user-7".to_string(),
                last_seen_at_unix: now - 10,
                expires_at_unix: now + 10,
                revoked_at_unix: None,
            }))
        },
        |at: i64| {
            touched.set(Some(at));
            Ok(1)
        },
    )
    .unwrap();
    assert_eq!(user, "user-7");
    assert_eq!(touched.get(), Some(now));
    let idle = authenticate(
        now,
        || {
            Ok(Some(StoredSession {
                user_id: "user-7".to_string(),
                last_seen_at_unix: now - IDLE_TTL_SECONDS,
                expires_at_unix: now + 10,
                revoked_at_unix: None,
            }))
        },
        |_: i64| -> AppResult<usize> { panic!("an ended session is not touched") },
    );
    match idle.unwrap_err() {
        AppError::Unauthorized(m) => assert_eq!(m, "用户会话已过期，请重新登录"),
        other => panic!("unexpected {:?}", other),
    }
    match authenticate(now, || Ok(None), |_: i64| -> AppResult<usize> { panic!("nothing to touch") }).unwrap_err() {
        AppError::Unauthorized(m) => assert_eq!(m, "用户会话无效，请重新登录"),
        other => panic!("unexpected {:?}", other),
    }
}

#[test]
fn outbound_documents_other_than_guest_sales_need_a_department() {
    let refused = check_outbound_department("outbound", Some("internal"), None).err().expect("refused");
    assert_eq!(refused.to_message(), "出库/领用必须选择部门");
    assert!(check_outbound_department("outbound", None, Some("  ")).is_err());
    assert!(check_outbound_department("outbound", Some("internal"), Some("dept-1")).is_ok());
    assert!(check_outbound_department("outbound", Some("guest_sale"), None).is_ok());
    assert!(check_outbound_department("inbound", None, None).is_ok());
}

#[test]
fn interrupted_database_failures_are_reported_as_timeouts() {
    let failed = || -> Result<u8, AppError> { Err(AppError::Database("interrupted".to_string())) };
    match map_interrupted_result(failed(), true, true) {
        Err(AppError::Timeout(m)) => assert_eq!(m, "客户端连接已断开，数据库操作已安全取消"),
        _ => panic!("expected a timeout"),
    }
    match map_interrupted_result(failed(), true, false) {
        Err(AppError::Timeout(m)) => assert_eq!(m, "数据库操作超过 30 秒，已安全中断"),
        _ => panic!("expected a timeout"),
    }
    assert!(matches!(map_interrupted_result(failed(), false, true), Err(AppError::Database(_))));
    assert!(matches!(map_interrupted_result(Ok::<u8, AppError>(3), true, true), Ok(3)));
    let refused: Result<u8, AppError> = Err(AppError::Validation("v".to_string()));
    assert!(matches!(map_interrupted_result(refused, true, false), Err(AppError::Validation(_))));
}
