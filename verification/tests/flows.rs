use std::cell::RefCell;
use std::collections::HashMap;

use aster_core::audit_logs::{audit_limit, audit_scope, list_audit_logs, list_audit_logs_page};
use aster_core::approvals::{create_approval_request, decide_approval_request, ApprovalFiling, NewApproval};
use aster_core::error::AppResult;
use aster_core::keyset_pages::{check_keyset_cursor, document_filter, KeysetCursor, StockDocumentQuery};
use aster_core::master_data::{list_budget_rules, save_budget_rule, BudgetRuleRow, SaveBudgetRuleRequest};
use aster_core::stock_queries::list_stock_movements;
use aster_core::master_listings::{
    budget_rules_scope, item_filter, list_items_page, supplier_purchases_scope, ItemFilter,
};
use aster_core::pagination::{
    collect_all, cursor_offset, decode_cursor_payload, encode_cursor_payload, paginate, OffsetCursor, Page,
    Revision,
};
use aster_core::report_pagination::{get_page, ReportBundlePage};
use aster_core::stock_documents::{
    confirm_stock_document_draft, save_stock_document_draft, submit_stock_document,
    void_stock_document, BatchMovement, BatchReversal, ConfirmLine, ConfirmSteps,
    DocumentHeader, DocumentMovement, DraftRecord, DraftSteps, EffectSteps, HeaderRequest,
    PricingRole, StockItem, StoredDraft, VoidSteps, VoidTarget, WriteSteps,
};

fn revision(business: i64) -> Revision {
    Revision {
        process_id: "process".to_string(),
        database_epoch: "epoch".to_string(),
        business_revision: business,
    }
}

#[test]
fn page_cursor_round_trips_and_is_scope_bound() {
    let (items, next) = paginate((0..501).collect::<Vec<u32>>(), 0);
    assert_eq!(items.len(), 500);
    let cursor = OffsetCursor { scope: "items".to_string(), revision: revision(1), offset: next.expect("cursor") };
    assert_eq!(cursor_offset(Some(&cursor), "items", &revision(1)).expect("offset"), 500);
    assert!(cursor_offset(Some(&cursor), "users", &revision(1)).is_err());
}

#[test]
fn page_cursor_is_rejected_after_database_changes() {
    let (_, next) = paginate((0..501).collect::<Vec<u32>>(), 0);
    let cursor = OffsetCursor { scope: "items".to_string(), revision: revision(1), offset: next.expect("cursor") };
    assert!(cursor_offset(Some(&cursor), "items", &revision(2)).is_err());
}

#[test]
fn modified_cursor_is_rejected() {
    let secret = b"cursor-secret";
    let cursor = encode_cursor_payload(br#"{"scope":"items","offset":500}"#, secret);
    let mut bytes = cursor.into_bytes();
    bytes[0] = if bytes[0] == b'A' { b'B' } else { b'A' };
    let cursor = String::from_utf8(bytes).expect("cursor text");
    assert!(decode_cursor_payload(&cursor, secret).is_err());
}

fn document_query(document_type: Option<&str>) -> StockDocumentQuery {
    StockDocumentQuery {
        document_type: document_type.map(str::to_string),
        outbound_kind: None,
        month: None,
        department_id: None,
        supplier_id: None,
        item_id: None,
        handler: None,
        search: None,
    }
}

fn keyset_cursor(scope: String, business: i64) -> KeysetCursor {
    KeysetCursor {
        scope,
        revision: revision(business),
        sort_date: "2026-07-10 10:00:00".to_string(),
        created_at: "2026-07-10 10:08:19".to_string(),
        id: "document-page-499".to_string(),
    }
}

#[test]
fn document_cursor_is_bound_to_normalized_query() {
    let first = document_filter(document_query(Some("inbound"))).expect("first page");
    let cursor = keyset_cursor(first.scope, 1);
    let different = document_filter(document_query(Some("outbound"))).expect("other query");
    assert!(check_keyset_cursor(Some(cursor), &different.scope, &revision(1)).is_err());
}

#[test]
fn document_cursor_is_rejected_after_business_data_changes() {
    let first = document_filter(document_query(None)).expect("first page");
    let scope = first.scope.clone();
    let cursor = keyset_cursor(first.scope, 1);
    assert!(check_keyset_cursor(Some(cursor), &scope, &revision(2)).is_err());
}

#[test]
fn save_budget_rule_allows_department_month_total_without_category() {
    let lookups = RefCell::new(Vec::new());
    let lookup = |table: &str, id: &str| -> AppResult<Option<(String, bool)>> {
        lookups.borrow_mut().push(format!("{table}:{id}"));
        Ok(Some(("行政办公室".to_string(), true)))
    };
    // The rule is read back as the budget listing shows it: a rule without a
    // category covers every category, and the used amount sums the
    // department's outbound movements of the month.
    let movements = [("dept-admin-office", "2026-06-10", "out", 30.0f64)];
    let write = |row: BudgetRuleRow<f64>, _: bool| -> AppResult<(Option<String>, String, f64)> {
        let used = movements
            .iter()
            .filter(|(dept, date, direction, _)| *dept == row.department_id && date.starts_with(&row.period_month) && *direction == "out")
            .map(|(_, _, _, amount)| amount)
            .sum();
        let name = row.category_id.clone().map(|_| "预算分类".to_string()).unwrap_or_else(|| "全部分类".to_string());
        Ok((row.category_id, name, used))
    };
    let rule = save_budget_rule(
        SaveBudgetRuleRequest {
            id: Some("budget-total".to_string()),
            department_id: "dept-admin-office".to_string(),
            category_id: None,
            period_month: "2026-06".to_string(),
            enabled: true,
            expected_updated_at: None,
            extra: 100.0,
        },
        &|_: &str| -> AppResult<bool> { Ok(false) },
        &lookup,
        &|_: &str| -> AppResult<Option<String>> { Ok(None) },
        &write,
    )
    .unwrap();
    assert_eq!(rule.0, None);
    assert_eq!(rule.1, "全部分类");
    assert_eq!(rule.2, 30.0);
    assert_eq!(lookups.borrow().as_slice(), ["departments:dept-admin-office"]);
}

#[test]
fn decide_approval_request_rejects_already_processed_request() {
    let table: RefCell<HashMap<String, String>> = RefCell::new(HashMap::new());
    let insert = |a: &NewApproval| -> AppResult<()> {
        table.borrow_mut().insert(a.id.clone(), "pending".to_string());
        Ok(())
    };
    let read = |id: &str| -> AppResult<(String, String)> { Ok((id.to_string(), table.borrow()[id].clone())) };
    let update = |id: &str, status: &str, _: Option<&str>, _: Option<&str>| -> AppResult<usize> {
        let mut rows = table.borrow_mut();
        match rows.get_mut(id) {
            Some(current) if current == "pending" => {
                *current = status.to_string();
                Ok(1)
            }
            _ => Ok(0),
        }
    };
    let approval = create_approval_request(
        ApprovalFiling {
            entity_type: "budget_override".to_string(),
            entity_id: "dept-admin-office:2026-06".to_string(),
            reason: "超预算领用".to_string(),
        },
        Some("user-warehouse".to_string()),
        &insert,
        &read,
    )
    .unwrap();
    decide_approval_request(&approval.0, "approved", Some("user-admin"), None, &update, &read).unwrap();
    let error = decide_approval_request(&approval.0, "rejected", Some("user-admin"), None, &update, &read)
        .err()
        .expect("second decision is refused");
    assert!(error.to_message().contains("不能重复审批"));
    assert_eq!(table.borrow()[&approval.0], "approved");
}

/// A line of a submitted document.
#[derive(Clone)]
struct Line {
    item_id: String,
    quantity: f64,
}

struct Batch {
    id: String,
    batch_no: String,
    item_id: String,
    document_id: String,
    original: f64,
    remaining: f64,
}

/// The stock tables, kept in memory.
#[derive(Default)]
struct Stock {
    documents: RefCell<HashMap<String, (String, String, DocumentHeader)>>,
    lines: RefCell<Vec<(String, String, Line)>>,
    movements: RefCell<Vec<(String, String, String, f64)>>,
    balances: RefCell<HashMap<String, f64>>,
    batches: RefCell<Vec<Batch>>,
    parties: HashMap<(String, String), (String, bool)>,
}

fn copy_header(h: &DocumentHeader) -> DocumentHeader {
    DocumentHeader {
        document_type: h.document_type.clone(),
        outbound_kind: h.outbound_kind.clone(),
        business_date: h.business_date.clone(),
        department_id: h.department_id.clone(),
        department_name: h.department_name.clone(),
        supplier_id: h.supplier_id.clone(),
        supplier_name: h.supplier_name.clone(),
        handler: h.handler.clone(),
        purpose: h.purpose.clone(),
        approval_request_id: h.approval_request_id.clone(),
        remark: h.remark.clone(),
    }
}

impl Stock {
    fn with_parties(parties: &[(&str, &str, &str, bool)]) -> Self {
        Stock {
            parties: parties
                .iter()
                .map(|(table, id, name, enabled)| ((table.to_string(), id.to_string()), (name.to_string(), *enabled)))
                .collect(),
            ..Default::default()
        }
    }

    fn count(&self, pattern: &str) -> AppResult<u64> {
        let stem = pattern.trim_end_matches('%');
        Ok(self.documents.borrow().values().filter(|(no, _, _)| no.starts_with(stem)).count() as u64)
    }

    fn insert(&self, id: &str, no: &str, h: &DocumentHeader, status: &str) -> AppResult<()> {
        self.documents.borrow_mut().insert(id.to_string(), (no.to_string(), status.to_string(), copy_header(h)));
        Ok(())
    }

    fn add_line(&self, id: &str, line: Line) -> AppResult<()> {
        let mut lines = self.lines.borrow_mut();
        let line_id = format!("line-{}", lines.len());
        lines.push((id.to_string(), line_id, line));
        Ok(())
    }

    fn lines_of(&self, id: &str) -> Vec<ConfirmLine<f64>> {
        self.lines
            .borrow()
            .iter()
            .filter(|(doc, _, _)| doc == id)
            .map(|(_, line_id, line)| ConfirmLine { line_id: line_id.clone(), item_id: line.item_id.clone(), figures: line.quantity })
            .collect()
    }

    fn move_in(&self, id: &str, no: &str, line: &ConfirmLine<f64>) -> AppResult<()> {
        let mut batches = self.batches.borrow_mut();
        let batch_no = format!("{no}-B{:03}", batches.len() + 1);
        let batch_id = format!("batch-{}", batches.len());
        batches.push(Batch {
            id: batch_id,
            batch_no,
            item_id: line.item_id.clone(),
            document_id: id.to_string(),
            original: line.figures,
            remaining: line.figures,
        });
        self.movements.borrow_mut().push((id.to_string(), line.item_id.clone(), "in".to_string(), line.figures));
        *self.balances.borrow_mut().entry(line.item_id.clone()).or_insert(0.0) += line.figures;
        Ok(())
    }

    fn move_out(&self, id: &str, line: &ConfirmLine<f64>) -> AppResult<()> {
        let mut left = line.figures;
        for batch in self.batches.borrow_mut().iter_mut().filter(|b| b.item_id == line.item_id) {
            let used = left.min(batch.remaining);
            batch.remaining -= used;
            left -= used;
        }
        self.movements.borrow_mut().push((id.to_string(), line.item_id.clone(), "out".to_string(), line.figures));
        *self.balances.borrow_mut().entry(line.item_id.clone()).or_insert(0.0) -= line.figures;
        Ok(())
    }
}

fn write_steps(
    stock: &Stock,
) -> WriteSteps<
    impl Fn(&str) -> AppResult<Option<String>> + '_,
    impl Fn(&str) -> AppResult<Option<String>> + '_,
    impl Fn(&str, &str, &DocumentHeader) -> AppResult<()> + '_,
    impl Fn(&str, PricingRole, Line) -> AppResult<()> + '_,
> {
    WriteSteps {
        department_name: move |id: &str| -> AppResult<Option<String>> {
            Ok(stock.parties.get(&("departments".to_string(), id.to_string())).map(|p| p.0.clone()))
        },
        supplier_name: move |id: &str| -> AppResult<Option<String>> {
            Ok(stock.parties.get(&("suppliers".to_string(), id.to_string())).map(|p| p.0.clone()))
        },
        insert_header: move |id: &str, no: &str, h: &DocumentHeader| stock.insert(id, no, h, "confirmed"),
        insert_line: move |id: &str, _: PricingRole, line: Line| stock.add_line(id, line),
    }
}

fn effect_steps(
    stock: &Stock,
) -> EffectSteps<
    impl Fn(&str, &str) -> AppResult<Option<(String, bool)>> + '_,
    impl Fn(&str) -> AppResult<Vec<ConfirmLine<f64>>> + '_,
    impl Fn(&Vec<ConfirmLine<f64>>) -> AppResult<f64> + '_,
    impl Fn(&DocumentHeader, &str, &str, &Vec<ConfirmLine<f64>>, &Option<f64>) -> AppResult<()> + '_,
    impl Fn(&str) -> AppResult<Option<StockItem<f64>>> + '_,
    impl Fn(&str, &str, &ConfirmLine<f64>, &DocumentHeader, &str) -> AppResult<()> + '_,
    impl Fn(&str, &ConfirmLine<f64>, &DocumentHeader, &f64, &str) -> AppResult<()> + '_,
    impl Fn(&str, &str, &str, &str) -> AppResult<()> + '_,
> {
    EffectSteps {
        lookup_party: move |table: &str, id: &str| -> AppResult<Option<(String, bool)>> {
            Ok(stock.parties.get(&(table.to_string(), id.to_string())).cloned())
        },
        load_lines: move |id: &str| -> AppResult<Vec<ConfirmLine<f64>>> { Ok(stock.lines_of(id)) },
        plan_costs: move |lines: &Vec<ConfirmLine<f64>>| -> AppResult<f64> { Ok(lines.iter().map(|l| l.figures * 10.0).sum()) },
        enforce_budget: move |_: &DocumentHeader, _: &str, _: &str, _: &Vec<ConfirmLine<f64>>, _: &Option<f64>| -> AppResult<()> { Ok(()) },
        find_item: move |_: &str| -> AppResult<Option<StockItem<f64>>> { Ok(Some(StockItem { enabled: true, price: 10.0 })) },
        apply_inbound: move |id: &str, no: &str, line: &ConfirmLine<f64>, _: &DocumentHeader, _: &str| stock.move_in(id, no, line),
        apply_outbound: move |id: &str, line: &ConfirmLine<f64>, _: &DocumentHeader, _: &f64, _: &str| stock.move_out(id, line),
        audit: move |_: &str, _: &str, _: &str, _: &str| -> AppResult<()> { Ok(()) },
    }
}

fn submission(document_type: &str, date: &str, department: Option<&str>, supplier: Option<&str>) -> HeaderRequest {
    HeaderRequest {
        document_type: document_type.to_string(),
        outbound_kind: None,
        business_date: date.to_string(),
        department_id: department.map(str::to_string),
        supplier_id: supplier.map(str::to_string),
        handler: Some("tester".to_string()),
        purpose: None,
        approval_request_id: None,
        remark: None,
    }
}

fn line(item: &str, quantity: f64) -> Line {
    Line { item_id: item.to_string(), quantity }
}

fn submit(stock: &Stock, header: HeaderRequest, lines: Vec<Line>) -> AppResult<String> {
    submit_stock_document(header, lines, &|pattern: &str| stock.count(pattern), &write_steps(stock), &effect_steps(stock))
}

#[test]
fn submit_stock_document_rejects_disabled_department_and_supplier() {
    let stock = Stock::with_parties(&[
        ("departments", "dept-disabled", "停用部门", false),
        ("suppliers", "supplier-disabled", "停用供应商", false),
    ]);
    let inbound_error = submit(
        &stock,
        submission("inbound", "2026-06-30", None, Some("supplier-disabled")),
        vec![line("item-disabled-party", 1.0)],
    )
    .err()
    .expect("disabled supplier");
    assert!(inbound_error.to_message().contains("供应商已停用"));
    let mut outbound = submission("outbound", "2026-06-30", Some("dept-disabled"), None);
    outbound.purpose = Some("领用".to_string());
    let outbound_error = submit(&stock, outbound, vec![line("item-disabled-party", 1.0)]).err().expect("disabled department");
    assert!(outbound_error.to_message().contains("领用部门已停用"));
}

#[test]
fn save_and_confirm_draft_updates_inventory_only_on_confirm() {
    let stock = Stock::default();
    stock.balances.borrow_mut().insert("item-draft".to_string(), 0.0);
    let draft_steps = DraftSteps {
        department_name: |_: &str| -> AppResult<Option<String>> { Ok(None) },
        supplier_name: |_: &str| -> AppResult<Option<String>> { Ok(None) },
        find: |id: &str| -> AppResult<Option<DraftRecord>> {
            Ok(stock.documents.borrow().get(id).map(|(no, status, h)| DraftRecord {
                document_no: no.clone(),
                status: status.clone(),
                document_type: h.document_type.clone(),
            }))
        },
        update_header: |_: &str, _: &DocumentHeader| -> AppResult<()> { Ok(()) },
        clear_lines: |_: &str| -> AppResult<()> { Ok(()) },
        count_numbered: |pattern: &str| stock.count(pattern),
        insert_header: |id: &str, no: &str, h: &DocumentHeader| stock.insert(id, no, h, "draft"),
        insert_line: |id: &str, _: PricingRole, line: Line| stock.add_line(id, line),
        audit: |_: &str, _: &str, _: &str, _: &str| -> AppResult<()> { Ok(()) },
    };
    let mut header = submission("inbound", "2026-06-30", None, None);
    header.remark = Some("先保存".to_string());
    let draft = save_stock_document_draft(None, header, vec![line("item-draft", 5.0)], &draft_steps).unwrap();
    assert_eq!(stock.documents.borrow()[&draft].1, "draft");
    assert_eq!(stock.movements.borrow().len(), 0);
    assert_eq!(stock.balances.borrow()["item-draft"], 0.0);

    let confirm_steps = ConfirmSteps {
        find: |id: &str| -> AppResult<Option<StoredDraft>> {
            Ok(stock.documents.borrow().get(id).map(|(no, status, h)| StoredDraft {
                document_no: no.clone(),
                status: status.clone(),
                header: copy_header(h),
            }))
        },
        load_lines: |id: &str| -> AppResult<Vec<ConfirmLine<f64>>> { Ok(stock.lines_of(id)) },
        validate: |_: &DocumentHeader, _: &Vec<ConfirmLine<f64>>| -> AppResult<()> { Ok(()) },
        mark_confirmed: |id: &str, _: Option<&str>| -> AppResult<()> {
            stock.documents.borrow_mut().get_mut(id).expect("document").1 = "confirmed".to_string();
            Ok(())
        },
    };
    confirm_stock_document_draft(&draft, None, &confirm_steps, &effect_steps(&stock)).unwrap();
    assert_eq!(stock.documents.borrow()[&draft].1, "confirmed");
    assert_eq!(stock.movements.borrow().len(), 1);
    assert_eq!(stock.balances.borrow()["item-draft"], 5.0);
}

#[test]
fn confirm_draft_revalidates_persisted_business_rules() {
    let stock = Stock::default();
    stock.balances.borrow_mut().insert("item-invalid-draft".to_string(), 5.0);
    let draft_steps = DraftSteps {
        department_name: |_: &str| -> AppResult<Option<String>> { Ok(None) },
        supplier_name: |_: &str| -> AppResult<Option<String>> { Ok(None) },
        find: |id: &str| -> AppResult<Option<DraftRecord>> {
            Ok(stock.documents.borrow().get(id).map(|(no, status, h)| DraftRecord {
                document_no: no.clone(),
                status: status.clone(),
                document_type: h.document_type.clone(),
            }))
        },
        update_header: |_: &str, _: &DocumentHeader| -> AppResult<()> { Ok(()) },
        clear_lines: |_: &str| -> AppResult<()> { Ok(()) },
        count_numbered: |pattern: &str| stock.count(pattern),
        insert_header: |id: &str, no: &str, h: &DocumentHeader| stock.insert(id, no, h, "draft"),
        insert_line: |id: &str, _: PricingRole, line: Line| stock.add_line(id, line),
        audit: |_: &str, _: &str, _: &str, _: &str| -> AppResult<()> { Ok(()) },
    };
    let header = submission("outbound", "2026-06-30", None, None);
    let draft = save_stock_document_draft(None, header, vec![line("item-invalid-draft", 1.0)], &draft_steps).unwrap();
    let confirm_steps = ConfirmSteps {
        find: |id: &str| -> AppResult<Option<StoredDraft>> {
            Ok(stock.documents.borrow().get(id).map(|(no, status, h)| StoredDraft {
                document_no: no.clone(),
                status: status.clone(),
                header: copy_header(h),
            }))
        },
        load_lines: |id: &str| -> AppResult<Vec<ConfirmLine<f64>>> { Ok(stock.lines_of(id)) },
        validate: |_: &DocumentHeader, _: &Vec<ConfirmLine<f64>>| -> AppResult<()> { Ok(()) },
        mark_confirmed: |id: &str, _: Option<&str>| -> AppResult<()> {
            stock.documents.borrow_mut().get_mut(id).expect("document").1 = "confirmed".to_string();
            Ok(())
        },
    };
    let error = confirm_stock_document_draft(&draft, None, &confirm_steps, &effect_steps(&stock)).err().expect("refused");
    assert!(error.to_message().contains("出库/领用必须选择部门"));
    assert_eq!(stock.movements.borrow().len(), 0);
    assert_eq!(stock.documents.borrow()[&draft].1, "draft");
}

#[test]
fn void_inbound_after_batch_was_consumed_is_rejected() {
    let stock = Stock::with_parties(&[("departments", "dept-admin-office", "行政办公室", true)]);
    let inbound = submit(&stock, submission("inbound", "2026-06-01", None, None), vec![line("item-consumed-inbound", 10.0)]).unwrap();
    let mut outbound = submission("outbound", "2026-06-02", Some("dept-admin-office"), None);
    outbound.purpose = Some("消耗入库批次".to_string());
    submit(&stock, outbound, vec![line("item-consumed-inbound", 1.0)]).unwrap();

    let void_steps = VoidSteps {
        find: |id: &str| -> AppResult<Option<VoidTarget>> {
            Ok(stock.documents.borrow().get(id).map(|(no, status, h)| VoidTarget {
                id: id.to_string(),
                document_no: no.clone(),
                document_type: h.document_type.clone(),
                business_date: h.business_date.clone(),
                status: status.clone(),
            }))
        },
        has_batch_movements: |id: &str| -> AppResult<bool> { Ok(stock.batches.borrow().iter().any(|b| b.document_id == id)) },
        load_movements: |_: &str| -> AppResult<Vec<DocumentMovement<f64>>> { Ok(vec![]) },
        reverse_movement: |_: &DocumentMovement<f64>, _: &str, _: &str, _: &str| -> AppResult<()> { Ok(()) },
        mark_voided: |id: &str, _: &str| -> AppResult<()> {
            stock.documents.borrow_mut().get_mut(id).expect("document").1 = "voided".to_string();
            Ok(())
        },
        mark_stocktake_voided: |_: &str| -> AppResult<()> { Ok(()) },
        audit: |_: &str, _: &str, _: &str, _: &str| -> AppResult<()> { Ok(()) },
    };
    let batches = BatchReversal {
        load: |id: &str| -> AppResult<Vec<BatchMovement<f64>>> {
            Ok(stock
                .batches
                .borrow()
                .iter()
                .filter(|b| b.document_id == id)
                .map(|b| BatchMovement {
                    batch_id: b.id.clone(),
                    batch_no: b.batch_no.clone(),
                    item_id: b.item_id.clone(),
                    direction: "in".to_string(),
                    details: b.original,
                })
                .collect())
        },
        consumed: |m: &BatchMovement<f64>| -> AppResult<bool> {
            let batches = stock.batches.borrow();
            let batch = batches.iter().find(|b| b.id == m.batch_id).expect("batch");
            Ok(batch.remaining + 0.000001 < batch.original)
        },
        void_batch: |_: &str| -> AppResult<()> { Ok(()) },
        restore_batch: |_: &BatchMovement<f64>| -> AppResult<()> { Ok(()) },
        record: |_: &BatchMovement<f64>, _: &str, _: &str, _: &str| -> AppResult<()> { Ok(()) },
        sync_balance: |_: &str| -> AppResult<()> { Ok(()) },
    };
    let error = void_stock_document(&inbound, "采购错误", Some("tester".to_string()), &void_steps, &batches)
        .err()
        .expect("consumed batch");
    assert!(error.to_message().contains("入库批次已被后续出库消耗"));
    assert_eq!(stock.documents.borrow()[&inbound].1, "confirmed");
}

/// An item table read the way the item listing query reads it: matching
/// code, barcode, name or specification, optionally one supplier's, in
/// code order, a page at a time from the offset a cursor names.
struct ItemTable {
    rows: Vec<(String, Option<String>, String, Option<String>)>,
}

impl ItemTable {
    fn page(&self, filter: &ItemFilter, cursor: Option<&str>) -> AppResult<Page<(String, Option<String>)>> {
        let needle = filter.like.trim_matches('%').to_string();
        let mut rows: Vec<&(String, Option<String>, String, Option<String>)> = self
            .rows
            .iter()
            .filter(|(code, barcode, name, _)| {
                needle.is_empty()
                    || code.contains(&needle)
                    || barcode.as_deref().unwrap_or("").contains(&needle)
                    || name.contains(&needle)
            })
            .filter(|(_, _, _, supplier)| filter.supplier_id.is_none() || supplier == &filter.supplier_id)
            .collect();
        rows.sort_by(|a, b| a.0.cmp(&b.0));
        let offset: i64 = cursor.map(|c| c.parse().expect("offset cursor")).unwrap_or(0);
        let fetched = rows
            .into_iter()
            .skip(offset as usize)
            .take(501)
            .map(|(code, barcode, _, _)| (code.clone(), barcode.clone()))
            .collect::<Vec<_>>();
        let (items, next) = paginate(fetched, offset);
        Ok(Page { items, next_cursor: next.map(|n| n.to_string()) })
    }
}

fn list_items(table: &ItemTable, search: Option<&str>, supplier: Option<&str>) -> AppResult<Vec<(String, Option<String>)>> {
    collect_all(|cursor: Option<&str>| {
        list_items_page(search.map(str::to_string), supplier.map(str::to_string), cursor, &|f: &ItemFilter, c: Option<&str>| table.page(f, c))
    })
}

#[test]
fn list_items_supports_more_than_one_thousand_items() {
    let table = ItemTable {
        rows: (0..1005)
            .map(|index| (format!("BULK-{index:04}"), Some(format!("690000{index:04}")), format!("批量物品 {index:04}"), None))
            .collect(),
    };
    let items = list_items(&table, None, None).unwrap();
    assert_eq!(items.len(), 1005);
    assert_eq!(items[0].0, "BULK-0000");
    assert_eq!(items[1004].0, "BULK-1004");

    let fetch = |f: &ItemFilter, c: Option<&str>| table.page(f, c);
    let first = list_items_page(None, None, None, &fetch).unwrap();
    assert_eq!(first.items.len(), 500);
    assert_eq!(first.items[499].0, "BULK-0499");
    let second = list_items_page(None, None, first.next_cursor.as_deref(), &fetch).unwrap();
    assert_eq!(second.items.len(), 500);
    assert_eq!(second.items[0].0, "BULK-0500");
    let third = list_items_page(None, None, second.next_cursor.as_deref(), &fetch).unwrap();
    assert_eq!(third.items.len(), 5);
    assert_eq!(third.items[4].0, "BULK-1004");
    assert!(third.next_cursor.is_none());

    let searched = list_items(&table, Some("BULK-1004"), None).unwrap();
    assert_eq!(searched.len(), 1);
    assert_eq!(searched[0].1.as_deref(), Some("6900001004"));
}

#[test]
fn list_items_filters_by_supplier_without_affecting_unfiltered_results() {
    let table = ItemTable {
        rows: vec![
            ("SUP-A".to_string(), None, "供应商 A 物品".to_string(), Some("supplier-filter-a".to_string())),
            ("SUP-B".to_string(), None, "供应商 B 物品".to_string(), Some("supplier-filter-b".to_string())),
            ("SUP-NONE".to_string(), None, "无供应商物品".to_string(), None),
        ],
    };
    let supplier_a = list_items(&table, None, Some("supplier-filter-a")).unwrap();
    assert_eq!(supplier_a.len(), 1);
    assert_eq!(supplier_a[0].0, "SUP-A");

    let fetch = |f: &ItemFilter, c: Option<&str>| table.page(f, c);
    let all = list_items_page(None, None, None, &fetch).unwrap();
    let supplier_b = list_items_page(None, Some("supplier-filter-b".to_string()), None, &fetch).unwrap();
    assert_eq!(all.items.len(), 3);
    assert_eq!(supplier_b.items.len(), 1);
    assert_eq!(supplier_b.items[0].0, "SUP-B");
}

#[test]
fn item_listing_scopes_bind_search_and_supplier() {
    let filter = item_filter(Some("  Towel ".to_string()), Some("  ".to_string()));
    assert_eq!(filter.like, "%Towel%");
    assert_eq!(filter.supplier_id, None);
    assert_eq!(filter.scope, "items:towel:");
    let filter = item_filter(None, Some(" s1 ".to_string()));
    assert_eq!(filter.like, "%%");
    assert_eq!(filter.scope, "items::s1");
    assert_eq!(budget_rules_scope(Some("2026-06")), "budget-rules:2026-06");
    assert_eq!(budget_rules_scope(None), "budget-rules:");
    assert_eq!(supplier_purchases_scope("supplier-a"), "supplier-purchases:supplier-a");
}

/// An audit log read newest first, the way the audit listing reads it.
fn audit_rows(entries: &[(&str, &str, Option<&str>, &str)], limit: i64) -> AppResult<Vec<(String, String, String)>> {
    let mut sorted = entries.to_vec();
    sorted.sort_by(|a, b| b.1.cmp(a.1));
    list_audit_logs(|cursor: Option<&str>| {
        list_audit_logs_page(
            limit,
            |scope: &str| -> AppResult<i64> {
                assert!(scope.starts_with("audit-logs:"));
                Ok(cursor.map(|c| c.parse().expect("offset")).unwrap_or(0))
            },
            |fetch: i64, at: i64| -> AppResult<Vec<(String, String, String)>> {
                Ok(sorted
                    .iter()
                    .skip(at as usize)
                    .take(fetch as usize)
                    .map(|(id, _, entity, summary)| (id.to_string(), entity.unwrap_or_default().to_string(), summary.to_string()))
                    .collect())
            },
        )
    })
}

#[test]
fn list_audit_logs_returns_latest_rows_with_limit() {
    let rows = audit_rows(
        &[
            ("audit-old", "2026-06-30T09:00:00+08:00", Some("item-old"), "旧记录"),
            ("audit-new", "2026-06-30T10:00:00+08:00", Some("backup-new"), "新记录"),
        ],
        1,
    )
    .unwrap();
    assert_eq!(rows.len(), 1);
    assert_eq!(rows[0].0, "audit-new");
    assert_eq!(rows[0].2, "新记录");
}

#[test]
fn list_audit_logs_handles_null_entity_id() {
    let rows = audit_rows(&[("audit-null-entity", "2026-07-08T15:08:08+08:00", None, "重建库存余额")], 20).unwrap();
    assert_eq!(rows.len(), 1);
    assert_eq!(rows[0].0, "audit-null-entity");
    assert_eq!(rows[0].1, "");
}

#[test]
fn audit_listings_are_bounded_and_scoped_by_their_limit() {
    assert_eq!(audit_limit(0), 1);
    assert_eq!(audit_limit(-7), 1);
    assert_eq!(audit_limit(20), 20);
    assert_eq!(audit_limit(9999), 500);
    assert_eq!(audit_scope(9999), "audit-logs:500");
    assert_eq!(audit_scope(20), "audit-logs:20");
    let past_the_limit = list_audit_logs_page(
        3,
        |_: &str| -> AppResult<i64> { Ok(3) },
        |_: i64, _: i64| -> AppResult<Vec<u8>> { panic!("nothing is read past the limit") },
    )
    .unwrap();
    assert!(past_the_limit.items.is_empty());
    assert!(past_the_limit.next_cursor.is_none());
    let asked = RefCell::new(None);
    list_audit_logs_page(
        5,
        |_: &str| -> AppResult<i64> { Ok(2) },
        |fetch: i64, at: i64| -> AppResult<Vec<u8>> {
            *asked.borrow_mut() = Some((fetch, at));
            Ok(vec![1])
        },
    )
    .unwrap();
    assert_eq!(*asked.borrow(), Some((3, 2)));
}

/// A report page read the way the report queries read it: the stock
/// balance rows of 501 enabled items in code order, cursors bound to the
/// section's scope and carrying the offset.
fn report_page(section: &str, cursor: Option<&OffsetCursor>) -> AppResult<ReportBundlePage<String>> {
    let codes: Vec<String> = (0..501).map(|index| format!("PAGE-{index:03}")).collect();
    let next = RefCell::new(None);
    let page = get_page(
        "2026-06",
        section,
        "{\"month\":\"2026-06\"}",
        |scope: &str| cursor_offset(cursor, scope, &revision(1)),
        |_: &str, source: usize, at: i64| -> AppResult<Page<String>> {
            let rows = if source == 8 { codes.iter().skip(at as usize).take(501).cloned().collect() } else { Vec::new() };
            let (items, next_offset) = paginate(rows, at);
            *next.borrow_mut() = next_offset;
            Ok(Page { items, next_cursor: next_offset.map(|n| n.to_string()) })
        },
    )?;
    assert_eq!(page.next_cursor, next.borrow().map(|n: i64| n.to_string()));
    Ok(page)
}

#[test]
fn section_paginates_over_five_hundred_rows() {
    let first = report_page("stockBalances", None).expect("first");
    assert_eq!(first.bundle.stock_balances.len(), 500);
    let offset: i64 = first.next_cursor.expect("cursor").parse().expect("offset");
    let cursor = OffsetCursor {
        scope: "report:stockBalances:{\"month\":\"2026-06\"}".to_string(),
        revision: revision(1),
        offset,
    };
    let second = report_page("stockBalances", Some(&cursor)).expect("second");
    assert_eq!(second.bundle.stock_balances.len(), 1);
    assert_eq!(second.bundle.stock_balances[0], "PAGE-500");
    assert!(report_page("stockWarnings", Some(&cursor)).is_err());
}

#[test]
fn movement_and_budget_listings_follow_their_cursors_to_the_end() {
    let pages = |cursor: Option<&str>| -> AppResult<Page<u32>> {
        Ok(match cursor {
            None => Page { items: vec![1, 2], next_cursor: Some("c1".to_string()) },
            Some("c1") => Page { items: vec![3], next_cursor: None },
            Some(other) => panic!("unexpected cursor {other}"),
        })
    };
    assert_eq!(list_stock_movements(pages).unwrap(), vec![1, 2, 3]);
    assert_eq!(list_budget_rules(pages).unwrap(), vec![1, 2, 3]);
    let looping = |cursor: Option<&str>| -> AppResult<Page<u32>> {
        Ok(Page { items: vec![7], next_cursor: Some(cursor.unwrap_or("same").to_string()) })
    };
    assert!(list_stock_movements(looping).is_err());
}
