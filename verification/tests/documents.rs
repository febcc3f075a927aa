use std::cell::RefCell;

use aster_core::authentication::{
    check_password_changed, ensure_default_admin, login_locally, require_signed_in,
    LoginCandidate,
};
use aster_core::error::{AppError, AppResult};
use aster_core::stock_rules::reverse_direction;
use aster_core::stock_documents::{
    assign_document_no, budget_scope, confirm_stock_document_draft, create_stocktake,
    pricing_role, reverse_batch_document, save_stock_document_draft, submit_adjustment,
    submit_stock_document, update_stocktake_counts, void_stock_document, AdjustmentLine,
    AdjustmentRequest, AdjustmentSteps, BatchMovement, BatchReversal, ConfirmLine,
    ConfirmSteps, CountEntry, CountItem, DocumentHeader, DocumentMovement, DraftRecord,
    DraftSteps, EffectSteps, HeaderRequest, PricingRole, StockItem, StocktakeRequest,
    StocktakeSteps, StoredDraft, VoidSteps, VoidTarget, WriteSteps,
};

fn message<T>(result: AppResult<T>) -> String {
    match result {
        Ok(_) => panic!("expected an error"),
        Err(error) => error.to_message(),
    }
}

fn header(document_type: &str) -> HeaderRequest {
    HeaderRequest {
        document_type: document_type.to_string(),
        outbound_kind: None,
        business_date: "2024-05-01".to_string(),
        department_id: None,
        supplier_id: None,
        handler: Some("  王五 ".to_string()),
        purpose: Some(" ".to_string()),
        approval_request_id: None,
        remark: None,
    }
}

fn stored_header(document_type: &str, kind: Option<&str>, department: Option<&str>) -> DocumentHeader {
    DocumentHeader {
        document_type: document_type.to_string(),
        outbound_kind: kind.map(str::to_string),
        business_date: "2024-05-17".to_string(),
        department_id: department.map(str::to_string),
        department_name: None,
        supplier_id: None,
        supplier_name: None,
        handler: None,
        purpose: None,
        approval_request_id: None,
        remark: None,
    }
}

#[test]
fn pricing_roles_follow_document_type_and_kind() {
    assert_eq!(pricing_role("inbound", None), PricingRole::Purchase);
    assert_eq!(pricing_role("outbound", Some("guest_sale")), PricingRole::Sale);
    assert_eq!(pricing_role("outbound", Some("internal")), PricingRole::Cost);
    assert_eq!(pricing_role("adjustment", None), PricingRole::Cost);
}

#[test]
fn document_numbers_count_the_documents_of_the_day() {
    let patterns = RefCell::new(Vec::new());
    let count = |pattern: &str| -> AppResult<u64> {
        patterns.borrow_mut().push(pattern.to_string());
        Ok(2)
    };
    assert_eq!(assign_document_no("inbound", "2024-05-01", &count).unwrap(), "IN-20240501-0003");
    assert_eq!(patterns.borrow().as_slice(), ["IN-20240501-%"]);
    let refused = message(assign_document_no("transfer", "2024-05-01", &count));
    assert_eq!(refused, "不支持的单据类型：transfer");
    assert_eq!(patterns.borrow().len(), 1);
}

#[test]
fn budget_scope_covers_internal_outbound_with_a_department() {
    let scope = budget_scope(&stored_header("outbound", Some("internal"), Some(" dept-1 "))).unwrap();
    assert_eq!(scope, Some(("dept-1".to_string(), "2024-05".to_string())));
    assert_eq!(budget_scope(&stored_header("outbound", Some("guest_sale"), Some("dept-1"))).unwrap(), None);
    assert_eq!(budget_scope(&stored_header("outbound", None, Some("  "))).unwrap(), None);
    assert_eq!(budget_scope(&stored_header("inbound", None, Some("dept-1"))).unwrap(), None);
    let refused = message(budget_scope(&stored_header("outbound", Some("gift"), Some("dept-1"))));
    assert_eq!(refused, "不支持的出库类型：gift");
}

type Log = RefCell<Vec<String>>;

fn draft_steps<'a>(
    log: &'a Log,
    saved: Option<(&'a str, &'a str, &'a str)>,
) -> DraftSteps<
    impl Fn(&str) -> AppResult<Option<String>> + 'a,
    impl Fn(&str) -> AppResult<Option<String>> + 'a,
    impl Fn(&str) -> AppResult<Option<DraftRecord>> + 'a,
    impl Fn(&str, &DocumentHeader) -> AppResult<()> + 'a,
    impl Fn(&str) -> AppResult<()> + 'a,
    impl Fn(&str) -> AppResult<u64> + 'a,
    impl Fn(&str, &str, &DocumentHeader) -> AppResult<()> + 'a,
    impl Fn(&str, PricingRole, &'static str) -> AppResult<()> + 'a,
    impl Fn(&str, &str, &str, &str) -> AppResult<()> + 'a,
> {
    DraftSteps {
        department_name: move |id: &str| -> AppResult<Option<String>> { Ok(Some(format!("部门{id}"))) },
        supplier_name: move |id: &str| -> AppResult<Option<String>> { Ok(Some(format!("供应商{id}"))) },
        find: move |_: &str| -> AppResult<Option<DraftRecord>> {
            Ok(saved.map(|(no, status, kind)| DraftRecord {
                document_no: no.to_string(),
                status: status.to_string(),
                document_type: kind.to_string(),
            }))
        },
        update_header: move |id: &str, h: &DocumentHeader| -> AppResult<()> {
            log.borrow_mut().push(format!("update {id} {}", h.document_type));
            Ok(())
        },
        clear_lines: move |id: &str| -> AppResult<()> {
            log.borrow_mut().push(format!("clear {id}"));
            Ok(())
        },
        count_numbered: move |_: &str| -> AppResult<u64> { Ok(0) },
        insert_header: move |id: &str, no: &str, h: &DocumentHeader| -> AppResult<()> {
            log.borrow_mut().push(format!(
                "insert {id} {no} {:?} {:?} {:?}",
                h.supplier_name, h.handler, h.purpose
            ));
            Ok(())
        },
        insert_line: move |id: &str, role: PricingRole, line: &'static str| -> AppResult<()> {
            log.borrow_mut().push(format!("line {id} {role:?} {line}"));
            Ok(())
        },
        audit: move |action: &str, id: &str, summary: &str, operator: &str| -> AppResult<()> {
            log.borrow_mut().push(format!("audit {action} {id} {summary} {operator}"));
            Ok(())
        },
    }
}

#[test]
fn a_new_draft_is_numbered_and_its_lines_priced() {
    let log = Log::default();
    let steps = draft_steps(&log, None);
    let mut request = header("inbound");
    request.supplier_id = Some(" s1 ".to_string());
    let id = save_stock_document_draft(Some("doc-1".to_string()), request, vec!["a", "b"], &steps).unwrap();
    assert_eq!(id, "doc-1");
    assert_eq!(
        log.borrow().as_slice(),
        [
            "insert doc-1 IN-20240501-0001 Some(\"供应商s1\") Some(\"王五\") None",
            "line doc-1 Purchase a",
            "line doc-1 Purchase b",
            "audit save_stock_document_draft doc-1 IN-20240501-0001 王五",
        ]
    );
}

#[test]
fn a_saved_draft_keeps_its_number_and_replaces_its_lines() {
    let log = Log::default();
    let steps = draft_steps(&log, Some(("OUT-20240501-0007", "draft", "outbound")));
    let mut request = header("outbound");
    request.outbound_kind = Some("guest_sale".to_string());
    request.handler = None;
    save_stock_document_draft(Some("doc-2".to_string()), request, vec!["c"], &steps).unwrap();
    assert_eq!(
        log.borrow().as_slice(),
        [
            "update doc-2 outbound",
            "clear doc-2",
            "line doc-2 Sale c",
            "audit save_stock_document_draft doc-2 OUT-20240501-0007 system",
        ]
    );
}

#[test]
fn only_drafts_of_the_same_type_can_be_edited() {
    let log = Log::default();
    let confirmed = draft_steps(&log, Some(("IN-20240501-0001", "confirmed", "inbound")));
    let refused = message(save_stock_document_draft(Some("doc".to_string()), header("inbound"), vec![], &confirmed));
    assert_eq!(refused, "只能编辑草稿单据");
    let other_type = draft_steps(&log, Some(("IN-20240501-0001", "draft", "inbound")));
    let refused = message(save_stock_document_draft(Some("doc".to_string()), header("outbound"), vec![], &other_type));
    assert_eq!(refused, "草稿单据类型不能变更");
    let mut bad_kind = header("outbound");
    bad_kind.outbound_kind = Some("gift".to_string());
    let refused = message(save_stock_document_draft(None, bad_kind, vec![], &other_type));
    assert_eq!(refused, "不支持的出库类型：gift");
    assert!(log.borrow().is_empty());
}

#[test]
fn a_draft_without_id_gets_a_fresh_one() {
    let log = Log::default();
    let steps = draft_steps(&log, None);
    let id = save_stock_document_draft(None, header("adjustment"), vec![], &steps).unwrap();
    assert_eq!(id.len(), 36);
}

struct Effects {
    log: Log,
    enabled_item: bool,
}

fn effect_steps<'a>(
    effects: &'a Effects,
) -> EffectSteps<
    impl Fn(&str, &str) -> AppResult<Option<(String, bool)>> + 'a,
    impl Fn(&str) -> AppResult<Vec<ConfirmLine<u32>>> + 'a,
    impl Fn(&Vec<ConfirmLine<u32>>) -> AppResult<u32> + 'a,
    impl Fn(&DocumentHeader, &str, &str, &Vec<ConfirmLine<u32>>, &Option<u32>) -> AppResult<()> + 'a,
    impl Fn(&str) -> AppResult<Option<StockItem<u32>>> + 'a,
    impl Fn(&str, &str, &ConfirmLine<u32>, &DocumentHeader, &str) -> AppResult<()> + 'a,
    impl Fn(&str, &ConfirmLine<u32>, &DocumentHeader, &u32, &str) -> AppResult<()> + 'a,
    impl Fn(&str, &str, &str, &str) -> AppResult<()> + 'a,
> {
    let log = &effects.log;
    let enabled = effects.enabled_item;
    EffectSteps {
        lookup_party: move |table: &str, id: &str| -> AppResult<Option<(String, bool)>> {
            log.borrow_mut().push(format!("party {table} {id}"));
            Ok(Some(("部门".to_string(), true)))
        },
        load_lines: move |_: &str| -> AppResult<Vec<ConfirmLine<u32>>> {
            Ok(vec![
                ConfirmLine { line_id: "l1".to_string(), item_id: "i1".to_string(), figures: 3 },
                ConfirmLine { line_id: "l2".to_string(), item_id: "i2".to_string(), figures: 4 },
            ])
        },
        plan_costs: move |lines: &Vec<ConfirmLine<u32>>| -> AppResult<u32> {
            Ok(lines.iter().map(|l| l.figures).sum())
        },
        enforce_budget: move |_: &DocumentHeader, dept: &str, month: &str, _: &Vec<ConfirmLine<u32>>, costs: &Option<u32>| -> AppResult<()> {
            log.borrow_mut().push(format!("budget {dept} {month} {costs:?}"));
            Ok(())
        },
        find_item: move |_: &str| -> AppResult<Option<StockItem<u32>>> { Ok(Some(StockItem { enabled, price: 9 })) },
        apply_inbound: move |_: &str, no: &str, line: &ConfirmLine<u32>, _: &DocumentHeader, operator: &str| -> AppResult<()> {
            log.borrow_mut().push(format!("in {no} {} {operator}", line.line_id));
            Ok(())
        },
        apply_outbound: move |_: &str, line: &ConfirmLine<u32>, _: &DocumentHeader, price: &u32, operator: &str| -> AppResult<()> {
            log.borrow_mut().push(format!("out {} {price} {operator}", line.line_id));
            Ok(())
        },
        audit: move |action: &str, id: &str, summary: &str, operator: &str| -> AppResult<()> {
            log.borrow_mut().push(format!("audit {action} {id} {summary} {operator}"));
            Ok(())
        },
    }
}

fn write_steps<'a>(
    log: &'a Log,
) -> WriteSteps<
    impl Fn(&str) -> AppResult<Option<String>> + 'a,
    impl Fn(&str) -> AppResult<Option<String>> + 'a,
    impl Fn(&str, &str, &DocumentHeader) -> AppResult<()> + 'a,
    impl Fn(&str, PricingRole, &'static str) -> AppResult<()> + 'a,
> {
    WriteSteps {
        department_name: move |_: &str| -> AppResult<Option<String>> { Ok(Some("行政办公室".to_string())) },
        supplier_name: move |_: &str| -> AppResult<Option<String>> { Ok(None) },
        insert_header: move |_: &str, no: &str, h: &DocumentHeader| -> AppResult<()> {
            log.borrow_mut().push(format!("header {no} {:?}", h.department_name));
            Ok(())
        },
        insert_line: move |_: &str, role: PricingRole, line: &'static str| -> AppResult<()> {
            log.borrow_mut().push(format!("line {role:?} {line}"));
            Ok(())
        },
    }
}

#[test]
fn an_internal_outbound_document_is_held_to_its_department_budget() {
    let effects = Effects { log: Log::default(), enabled_item: true };
    let writes = Log::default();
    let count = |_: &str| -> AppResult<u64> { Ok(0) };
    let mut request = header("outbound");
    request.department_id = Some("dept-1".to_string());
    let id = submit_stock_document(request, vec!["x"], &count, &write_steps(&writes), &effect_steps(&effects)).unwrap();
    assert_eq!(id.len(), 36);
    assert_eq!(
        writes.borrow().as_slice(),
        ["header OUT-20240501-0001 Some(\"行政办公室\")", "line Cost x"]
    );
    assert_eq!(
        effects.log.borrow().as_slice(),
        [
            "party departments dept-1".to_string(),
            "budget dept-1 2024-05 Some(7)".to_string(),
            "out l1 9 王五".to_string(),
            "out l2 9 王五".to_string(),
            format!("audit submit_stock_document {id} OUT-20240501-0001 王五"),
        ]
    );
}

#[test]
fn a_sale_to_guests_skips_the_budget_and_inbound_lines_go_in() {
    let effects = Effects { log: Log::default(), enabled_item: true };
    let writes = Log::default();
    let count = |_: &str| -> AppResult<u64> { Ok(4) };
    let mut sale = header("outbound");
    sale.outbound_kind = Some("guest_sale".to_string());
    sale.department_id = Some("dept-1".to_string());
    submit_stock_document(sale, vec![], &count, &write_steps(&writes), &effect_steps(&effects)).unwrap();
    assert!(effects.log.borrow().iter().all(|entry| !entry.starts_with("budget")));
    let effects = Effects { log: Log::default(), enabled_item: true };
    submit_stock_document(header("inbound"), vec![], &count, &write_steps(&writes), &effect_steps(&effects)).unwrap();
    assert_eq!(effects.log.borrow()[0], "in IN-20240501-0005 l1 王五");
}

#[test]
fn a_disabled_item_stops_the_document() {
    let effects = Effects { log: Log::default(), enabled_item: false };
    let writes = Log::default();
    let count = |_: &str| -> AppResult<u64> { Ok(0) };
    let refused = message(submit_stock_document(header("inbound"), vec![], &count, &write_steps(&writes), &effect_steps(&effects)));
    assert_eq!(refused, "物品已停用：i1");
}

#[test]
fn confirming_a_draft_falls_back_to_its_saved_approval() {
    let effects = Effects { log: Log::default(), enabled_item: true };
    let marked = Log::default();
    let status = RefCell::new("draft");
    let steps = ConfirmSteps {
        find: |_: &str| -> AppResult<Option<StoredDraft>> {
            let mut h = stored_header("inbound", None, None);
            h.approval_request_id = Some(" ap-1 ".to_string());
            Ok(Some(StoredDraft { document_no: "IN-1".to_string(), status: status.borrow().to_string(), header: h }))
        },
        load_lines: |_: &str| -> AppResult<Vec<u8>> { Ok(vec![1]) },
        validate: |h: &DocumentHeader, lines: &Vec<u8>| -> AppResult<()> {
            assert_eq!(h.approval_request_id.as_deref(), Some(" ap-1 "));
            assert_eq!(lines.len(), 1);
            Ok(())
        },
        mark_confirmed: |id: &str, approval: Option<&str>| -> AppResult<()> {
            marked.borrow_mut().push(format!("{id} {approval:?}"));
            Ok(())
        },
    };
    confirm_stock_document_draft("doc-3", None, &steps, &effect_steps(&effects)).unwrap();
    assert_eq!(marked.borrow().as_slice(), ["doc-3 Some(\"ap-1\")"]);
    *status.borrow_mut() = "confirmed";
    let refused = message(confirm_stock_document_draft("doc-3", None, &steps, &effect_steps(&effects)));
    assert_eq!(refused, "只能确认草稿单据");
}

#[test]
fn confirming_a_missing_draft_is_refused() {
    let effects = Effects { log: Log::default(), enabled_item: true };
    let steps = ConfirmSteps {
        find: |_: &str| -> AppResult<Option<StoredDraft>> { Ok(None) },
        load_lines: |_: &str| -> AppResult<Vec<u8>> { Ok(vec![]) },
        validate: |_: &DocumentHeader, _: &Vec<u8>| -> AppResult<()> { Ok(()) },
        mark_confirmed: |_: &str, _: Option<&str>| -> AppResult<()> { Ok(()) },
    };
    let refused = message(confirm_stock_document_draft("nope", Some("ap".to_string()), &steps, &effect_steps(&effects)));
    assert_eq!(refused, "草稿单据不存在");
}

fn reversal_steps<'a>(
    log: &'a Log,
    consumed: bool,
) -> BatchReversal<
    impl Fn(&str) -> AppResult<Vec<BatchMovement<u8>>> + 'a,
    impl Fn(&BatchMovement<u8>) -> AppResult<bool> + 'a,
    impl Fn(&str) -> AppResult<()> + 'a,
    impl Fn(&BatchMovement<u8>) -> AppResult<()> + 'a,
    impl Fn(&BatchMovement<u8>, &str, &str, &str) -> AppResult<()> + 'a,
    impl Fn(&str) -> AppResult<()> + 'a,
> {
    let movement = |batch: &str, item: &str, direction: &str| BatchMovement {
        batch_id: batch.to_string(),
        batch_no: format!("{batch}-no"),
        item_id: item.to_string(),
        direction: direction.to_string(),
        details: 0u8,
    };
    BatchReversal {
        load: move |_: &str| -> AppResult<Vec<BatchMovement<u8>>> {
            Ok(vec![movement("b1", "i1", "out"), movement("b2", "i2", "in"), movement("b3", "i1", "out")])
        },
        consumed: move |_: &BatchMovement<u8>| -> AppResult<bool> { Ok(consumed) },
        void_batch: move |batch: &str| -> AppResult<()> {
            log.borrow_mut().push(format!("void {batch}"));
            Ok(())
        },
        restore_batch: move |m: &BatchMovement<u8>| -> AppResult<()> {
            log.borrow_mut().push(format!("restore {}", m.batch_id));
            Ok(())
        },
        record: move |m: &BatchMovement<u8>, direction: &str, operator: &str, remark: &str| -> AppResult<()> {
            log.borrow_mut().push(format!("record {} {direction} {operator} {remark}", m.batch_id));
            Ok(())
        },
        sync_balance: move |item: &str| -> AppResult<()> {
            log.borrow_mut().push(format!("sync {item}"));
            Ok(())
        },
    }
}

#[test]
fn reversing_batches_syncs_each_item_once() {
    let log = Log::default();
    reverse_batch_document("doc", "OUT-1", "录错", Some("李四".to_string()), &reversal_steps(&log, false)).unwrap();
    assert_eq!(
        log.borrow().as_slice(),
        [
            "restore b1",
            "record b1 in 李四 作废冲正 OUT-1：录错",
            "void b2",
            "record b2 out 李四 作废冲正 OUT-1：录错",
            "restore b3",
            "record b3 in 李四 作废冲正 OUT-1：录错",
            "sync i1",
            "sync i2",
        ]
    );
}

#[test]
fn a_drawn_inbound_batch_cannot_be_voided() {
    let log = Log::default();
    let refused = message(reverse_batch_document("doc", "IN-1", "录错", None, &reversal_steps(&log, true)));
    assert_eq!(refused, "入库批次已被后续出库消耗，不能直接作废：b2-no");
}

fn void_steps<'a>(
    log: &'a Log,
    target: Option<(&'a str, &'a str)>,
) -> VoidSteps<
    impl Fn(&str) -> AppResult<Option<VoidTarget>> + 'a,
    impl Fn(&str) -> AppResult<bool> + 'a,
    impl Fn(&str) -> AppResult<Vec<DocumentMovement<u8>>> + 'a,
    impl Fn(&DocumentMovement<u8>, &str, &str, &str) -> AppResult<()> + 'a,
    impl Fn(&str, &str) -> AppResult<()> + 'a,
    impl Fn(&str) -> AppResult<()> + 'a,
    impl Fn(&str, &str, &str, &str) -> AppResult<()> + 'a,
> {
    VoidSteps {
        find: move |id: &str| -> AppResult<Option<VoidTarget>> {
            Ok(target.map(|(status, kind)| VoidTarget {
                id: id.to_string(),
                document_no: "ST-1".to_string(),
                document_type: kind.to_string(),
                business_date: "2024-05-01".to_string(),
                status: status.to_string(),
            }))
        },
        has_batch_movements: move |_: &str| -> AppResult<bool> { Ok(false) },
        load_movements: move |_: &str| -> AppResult<Vec<DocumentMovement<u8>>> {
            Ok(vec![
                DocumentMovement { direction: "in".to_string(), details: 1 },
                DocumentMovement { direction: "out".to_string(), details: 2 },
            ])
        },
        reverse_movement: move |m: &DocumentMovement<u8>, direction: &str, operator: &str, remark: &str| -> AppResult<()> {
            log.borrow_mut().push(format!("reverse {} {direction} {operator} {remark}", m.details));
            Ok(())
        },
        mark_voided: move |id: &str, reason: &str| -> AppResult<()> {
            log.borrow_mut().push(format!("voided {id} {reason}"));
            Ok(())
        },
        mark_stocktake_voided: move |id: &str| -> AppResult<()> {
            log.borrow_mut().push(format!("stocktake voided {id}"));
            Ok(())
        },
        audit: move |action: &str, id: &str, summary: &str, operator: &str| -> AppResult<()> {
            log.borrow_mut().push(format!("audit {action} {id} {summary} {operator}"));
            Ok(())
        },
    }
}

#[test]
fn voiding_a_stocktake_reverses_its_movements() {
    let log = Log::default();
    let unused = Log::default();
    void_stock_document("doc", "重盘", None, &void_steps(&log, Some(("confirmed", "stocktake"))), &reversal_steps(&unused, false))
        .unwrap();
    assert_eq!(
        log.borrow().as_slice(),
        [
            "reverse 1 out system 作废冲正 ST-1：重盘",
            "reverse 2 in system 作废冲正 ST-1：重盘",
            "voided doc 重盘",
            "stocktake voided doc",
            "audit void_stock_document doc 作废单据 ST-1：重盘 system",
        ]
    );
    assert!(unused.borrow().is_empty());
}

#[test]
fn only_confirmed_documents_of_known_types_can_be_voided() {
    let log = Log::default();
    let unused = Log::default();
    let batches = reversal_steps(&unused, false);
    assert_eq!(message(void_stock_document("doc", "r", None, &void_steps(&log, None), &batches)), "单据不存在");
    assert_eq!(
        message(void_stock_document("doc", "r", None, &void_steps(&log, Some(("draft", "inbound"))), &batches)),
        "只能作废已确认单据"
    );
    assert_eq!(
        message(void_stock_document("doc", "r", None, &void_steps(&log, Some(("confirmed", "transfer"))), &batches)),
        "当前单据类型暂不支持作废冲正"
    );
    assert!(log.borrow().is_empty());
}

#[test]
fn adjustments_move_each_line_in_or_out() {
    let log = Log::default();
    let steps = AdjustmentSteps {
        count_numbered: |pattern: &str| -> AppResult<u64> {
            assert_eq!(pattern, "ADJ-20240501-%");
            Ok(0)
        },
        insert_header: |_: &str, no: &str, h: &DocumentHeader| -> AppResult<()> {
            log.borrow_mut().push(format!("header {no} {:?} {:?}", h.purpose, h.remark));
            Ok(())
        },
        insert_line: |_: &str, line_id: &str, line: &AdjustmentLine<u8>| -> AppResult<()> {
            assert_eq!(line_id.len(), 36);
            log.borrow_mut().push(format!("line {}", line.item_id));
            Ok(())
        },
        move_in: |_: &str, _: &str, no: &str, line: &AdjustmentLine<u8>, operator: &str, remark: &str| -> AppResult<()> {
            log.borrow_mut().push(format!("in {no} {} {operator} {remark}", line.item_id));
            Ok(())
        },
        move_out: |_: &str, _: &str, line: &AdjustmentLine<u8>, operator: &str, remark: &str| -> AppResult<()> {
            log.borrow_mut().push(format!("out {} {operator} {remark}", line.item_id));
            Ok(())
        },
        audit: |action: &str, _: &str, summary: &str, operator: &str| -> AppResult<()> {
            log.borrow_mut().push(format!("audit {action} {summary} {operator}"));
            Ok(())
        },
    };
    let request = AdjustmentRequest {
        business_date: "2024-05-01".to_string(),
        handler: Some("赵六".to_string()),
        adjustment_type: "报损".to_string(),
        reason: "破损".to_string(),
        lines: vec![
            AdjustmentLine { item_id: "i1".to_string(), direction: "out".to_string(), remark: None, figures: 1 },
            AdjustmentLine { item_id: "i2".to_string(), direction: "in".to_string(), remark: Some("找回".to_string()), figures: 2 },
        ],
    };
    let id = submit_adjustment(request, &steps).unwrap();
    assert_eq!(id.len(), 36);
    assert_eq!(
        log.borrow().as_slice(),
        [
            "header ADJ-20240501-0001 Some(\"报损\") Some(\"破损\")",
            "line i1",
            "out i1 赵六 报损：破损",
            "line i2",
            "in ADJ-20240501-0001 i2 赵六 找回",
            "audit submit_adjustment ADJ-20240501-0001 赵六",
        ]
    );
}

fn stocktake_request(items: usize) -> (StocktakeRequest, usize) {
    (
        StocktakeRequest {
            business_date: "2024-05-01".to_string(),
            scope_type: " category ".to_string(),
            category_id: Some("c1".to_string()),
            item_ids: vec![],
            handler: None,
            remark: Some("  ".to_string()),
        },
        items,
    )
}

#[test]
fn a_stocktake_lists_a_line_for_each_item_in_scope() {
    for (request, items) in [stocktake_request(2), stocktake_request(0)] {
        let log = Log::default();
        let steps = StocktakeSteps {
            next_number: |date: &str| -> AppResult<String> { Ok(format!("ST-{date}")) },
            insert_document: |_: &str, no: &str, date: &str, handler: Option<&str>, scope: &str, remark: Option<&str>| -> AppResult<()> {
                log.borrow_mut().push(format!("document {no} {date} {handler:?} {scope} {remark:?}"));
                Ok(())
            },
            insert_stocktake: |_: &str, _: &str, scope: &str| -> AppResult<()> {
                log.borrow_mut().push(format!("stocktake {scope}"));
                Ok(())
            },
            items_in_scope: |scope: &str, category: Option<&str>, _: &Vec<String>| -> AppResult<Vec<CountItem<u8>>> {
                assert_eq!((scope, category), ("category", Some("c1")));
                Ok((0..items).map(|i| CountItem { item_id: format!("i{i}"), book: 5 }).collect())
            },
            insert_line: |_: &str, _: &str, item: &CountItem<u8>| -> AppResult<()> {
                log.borrow_mut().push(format!("line {}", item.item_id));
                Ok(())
            },
            audit: |action: &str, _: &str, summary: &str, operator: &str| -> AppResult<()> {
                log.borrow_mut().push(format!("audit {action} {summary} {operator}"));
                Ok(())
            },
        };
        let result = create_stocktake(request, &steps);
        if items == 0 {
            assert_eq!(message(result), "盘点范围内没有可盘点物品");
        } else {
            assert_eq!(result.unwrap().len(), 36);
            assert_eq!(
                log.borrow().as_slice(),
                [
                    "document ST-2024-05-01 2024-05-01 None category None",
                    "stocktake category",
                    "line i0",
                    "line i1",
                    "audit create_stocktake ST-2024-05-01 system",
                ]
            );
        }
    }
}

#[test]
fn stocktake_counts_are_checked_line_by_line() {
    let entries = vec![
        CountEntry { line_id: "l1".to_string(), counted: Some(3.0f64), remark: Some(" 好 ".to_string()) },
        CountEntry { line_id: "l2".to_string(), counted: None, remark: None },
    ];
    let negative = |q: &f64| *q < 0.0;
    let stored = Log::default();
    let update = |id: &str, entry: &CountEntry<f64>, remark: Option<&str>| -> AppResult<usize> {
        stored.borrow_mut().push(format!("{id} {} {remark:?}", entry.line_id));
        Ok(usize::from(entry.line_id != "l9"))
    };
    update_stocktake_counts("st", "counting", &entries, &negative, &update).unwrap();
    assert_eq!(stored.borrow().as_slice(), ["st l1 Some(\"好\")", "st l2 None"]);
    assert_eq!(message(update_stocktake_counts("st", "confirmed", &entries, &negative, &update)), "已确认的盘点单不能修改");
    assert_eq!(message(update_stocktake_counts("st", "voided", &entries, &negative, &update)), "已作废的盘点单不能修改");
    let below = vec![CountEntry { line_id: "l1".to_string(), counted: Some(-1.0f64), remark: None }];
    assert_eq!(message(update_stocktake_counts("st", "counting", &below, &negative, &update)), "实盘数量不能小于 0");
    let foreign = vec![CountEntry { line_id: "l9".to_string(), counted: None, remark: None }];
    assert_eq!(
        message(update_stocktake_counts("st", "counting", &foreign, &negative, &update)),
        "盘点明细不存在或不属于当前盘点单：l9"
    );
}

fn candidate(enabled: bool, hash: Option<&str>) -> LoginCandidate<&'static str> {
    LoginCandidate {
        id: "u1".to_string(),
        username: "admin".to_string(),
        enabled,
        password_hash: hash.map(str::to_string),
        user: "管理员",
    }
}

#[test]
fn sign_in_checks_account_and_password() {
    let audit = Log::default();
    let verify = |password: &str, hash: &str| password == "secret" && hash == "h(secret)";
    let record = |id: &str, summary: &str, operator: &str| -> AppResult<()> {
        audit.borrow_mut().push(format!("{id} {summary} {operator}"));
        Ok(())
    };
    let found = |c: Option<LoginCandidate<&'static str>>| {
        let cell = RefCell::new(c);
        move |name: &str| -> AppResult<Option<LoginCandidate<&'static str>>> {
            assert_eq!(name, "admin");
            Ok(cell.borrow_mut().take())
        }
    };
    assert_eq!(message(login_locally("  ", "x", &found(None), &verify, &record)), "用户名和密码不能为空");
    assert_eq!(message(login_locally("admin", "", &found(None), &verify, &record)), "用户名和密码不能为空");
    assert_eq!(message(login_locally(" admin ", "x", &found(None), &verify, &record)), "用户名或密码错误");
    assert_eq!(
        message(login_locally("admin", "secret", &found(Some(candidate(false, Some("h(secret)")))), &verify, &record)),
        "用户已停用"
    );
    assert_eq!(
        message(login_locally("admin", "secret", &found(Some(candidate(true, None))), &verify, &record)),
        "用户未设置密码"
    );
    assert_eq!(
        message(login_locally("admin", "wrong", &found(Some(candidate(true, Some("h(secret)")))), &verify, &record)),
        "用户名或密码错误"
    );
    assert!(audit.borrow().is_empty());
    let user = login_locally("admin", "secret", &found(Some(candidate(true, Some("h(secret)")))), &verify, &record).unwrap();
    assert_eq!(user, "管理员");
    assert_eq!(audit.borrow().as_slice(), ["u1 用户登录：admin admin"]);
}

#[test]
fn the_default_admin_must_change_the_default_password() {
    for (stored, expected) in [("h(admin123)", true), ("h(other)", false)] {
        let flags = Log::default();
        ensure_default_admin(
            &|password: &str| -> AppResult<String> { Ok(format!("h({password})")) },
            &|hash: &str| -> AppResult<()> {
                assert_eq!(hash, "h(admin123)");
                Ok(())
            },
            &|name: &str| -> AppResult<Option<LoginCandidate<&'static str>>> {
                assert_eq!(name, "admin");
                Ok(Some(candidate(true, Some(stored))))
            },
            &|password: &str, hash: &str| format!("h({password})") == hash,
            &|id: &str, flag: bool| -> AppResult<()> {
                flags.borrow_mut().push(format!("{id} {flag}"));
                Ok(())
            },
        )
        .unwrap();
        assert_eq!(flags.borrow().as_slice(), [format!("u1 {expected}")]);
    }
}

#[test]
fn accounts_on_the_default_password_and_anonymous_requests_are_stopped() {
    assert!(check_password_changed(false).is_ok());
    assert_eq!(message(check_password_changed(true)), "当前账户必须先修改默认密码");
    assert_eq!(require_signed_in(Some(7)).unwrap(), 7);
    let refused: AppResult<u8> = require_signed_in(None);
    assert!(matches!(refused, Err(AppError::Validation(m)) if m == "请先登录"));
}

#[test]
fn reversing_a_direction_twice_restores_it() {
    for direction in ["in", "out"] {
        assert_eq!(reverse_direction(reverse_direction(direction)), direction);
    }
    assert_eq!(reverse_direction("transfer"), "in");
}
