use std::cell::{Cell, RefCell};
use std::collections::BTreeMap;

use aster_core::error::{AppError, AppResult};
use aster_core::master_data::{
    next_item_code, save_budget_rule, save_item, set_item_enabled, BudgetRuleRow, ItemRow,
    SaveBudgetRuleRequest, SaveItemRequest,
};
use aster_core::master_records::{
    save_category, save_department, save_supplier, set_department_enabled, set_supplier_enabled,
    set_unit_enabled, CategoryRow, DepartmentRow, SaveCategoryRequest, SaveDepartmentRequest,
    SaveSupplierRequest, SupplierRow,
};
use aster_core::pagination::{collect_all, Page};

fn failure<T>(result: AppResult<T>) -> AppError {
    match result {
        Ok(_) => panic!("expected an error"),
        Err(error) => error,
    }
}

/// Reference tables as a database seeded with the units and departments of
/// a fresh installation, plus the given disabled records.
struct References {
    rows: BTreeMap<(String, String), (String, bool)>,
}

impl References {
    fn seeded() -> Self {
        let mut rows = BTreeMap::new();
        rows.insert(("units".to_string(), "unit-piece".to_string()), ("件".to_string(), true));
        rows.insert(("departments".to_string(), "dept-admin-office".to_string()), ("行政办公室".to_string(), true));
        References { rows }
    }

    fn add(&mut self, table: &str, id: &str, name: &str, enabled: bool) {
        self.rows.insert((table.to_string(), id.to_string()), (name.to_string(), enabled));
    }

    fn lookup(&self, table: &str, id: &str) -> AppResult<Option<(String, bool)>> {
        Ok(self.rows.get(&(table.to_string(), id.to_string())).cloned())
    }
}

type Figures = (f64, f64, f64);

fn item_request(id: Option<&str>, code: Option<&str>, name: &str) -> SaveItemRequest<Figures> {
    SaveItemRequest {
        id: id.map(str::to_string),
        code: code.map(str::to_string),
        barcode: None,
        name: name.to_string(),
        category_id: None,
        spec: None,
        unit_id: Some("unit-piece".to_string()),
        supplier_id: None,
        enabled: true,
        remark: None,
        expected_updated_at: None,
        extra: (1.0, 0.0, 0.0),
    }
}

#[test]
fn save_item_requires_enabled_category_unit_and_supplier_references() {
    let mut references = References::seeded();
    references.add("categories", "cat-disabled", "停用分类", false);
    references.add("units", "unit-disabled", "停用单位", false);
    references.add("suppliers", "supplier-disabled", "停用供应商", false);
    let lookup = |table: &str, id: &str| references.lookup(table, id);
    let is_known = |_: &str| -> AppResult<bool> { Ok(false) };
    let no_code = || -> AppResult<String> { panic!("codes are given") };
    let no_version = |_: &str| -> AppResult<Option<String>> { panic!("new items carry no version") };
    let write = |_: ItemRow<Figures>, _: bool| -> AppResult<()> { Ok(()) };

    let mut category = item_request(Some("item-disabled-category"), Some("REF-001"), "停用分类物品");
    category.category_id = Some("cat-disabled".to_string());
    let category_error = failure(save_item(category, &is_known, &no_code, &lookup, &no_version, &write));
    assert!(category_error.to_message().contains("分类已停用"));

    let mut unit = item_request(Some("item-disabled-unit"), Some("REF-002"), "停用单位物品");
    unit.unit_id = Some("unit-disabled".to_string());
    let unit_error = failure(save_item(unit, &is_known, &no_code, &lookup, &no_version, &write));
    assert!(unit_error.to_message().contains("单位已停用"));

    let mut supplier = item_request(Some("item-disabled-supplier"), Some("REF-003"), "停用供应商物品");
    supplier.supplier_id = Some("supplier-disabled".to_string());
    let supplier_error = failure(save_item(supplier, &is_known, &no_code, &lookup, &no_version, &write));
    assert!(supplier_error.to_message().contains("默认供应商已停用"));
}

#[test]
fn save_item_generates_code_for_new_item_when_blank() {
    let references = References::seeded();
    let codes = vec!["HC-0001".to_string()];
    let item_code = save_item(
        item_request(None, None, "自动编码物品"),
        &|_: &str| Ok(false),
        &|| next_item_code(codes.len() as u64 + 1, &|code: &str| Ok(codes.iter().any(|c| c == code))),
        &|table: &str, id: &str| references.lookup(table, id),
        &|_: &str| -> AppResult<Option<String>> { panic!("new items carry no version") },
        &|row: ItemRow<Figures>, _: bool| -> AppResult<String> { Ok(row.code) },
    )
    .unwrap();
    assert_eq!(item_code, "HC-0002");
}

fn budget_request(id: &str, department: &str, category: Option<&str>) -> SaveBudgetRuleRequest<f64> {
    SaveBudgetRuleRequest {
        id: Some(id.to_string()),
        department_id: department.to_string(),
        category_id: category.map(str::to_string),
        period_month: "2026-06".to_string(),
        enabled: true,
        expected_updated_at: None,
        extra: 100.0,
    }
}

#[test]
fn save_budget_rule_requires_enabled_department_and_category() {
    let mut references = References::seeded();
    references.add("departments", "dept-budget-disabled", "停用预算部门", false);
    references.add("categories", "cat-budget-disabled", "停用预算分类", false);
    let lookup = |table: &str, id: &str| references.lookup(table, id);
    let is_known = |_: &str| -> AppResult<bool> { Ok(false) };
    let no_version = |_: &str| -> AppResult<Option<String>> { panic!("new rules carry no version") };
    let write = |_: BudgetRuleRow<f64>, _: bool| -> AppResult<()> { Ok(()) };

    let department_error = failure(save_budget_rule(
        budget_request("budget-disabled-dept", "dept-budget-disabled", Some("cat-budget-disabled")),
        &is_known,
        &lookup,
        &no_version,
        &write,
    ));
    assert!(department_error.to_message().contains("部门已停用"));

    let category_error = failure(save_budget_rule(
        budget_request("budget-disabled-cat", "dept-admin-office", Some("cat-budget-disabled")),
        &is_known,
        &lookup,
        &no_version,
        &write,
    ));
    assert!(category_error.to_message().contains("分类已停用"));
}

#[test]
fn set_enabled_requires_existing_master_data_record() {
    let error = failure(set_unit_enabled(
        "missing-unit",
        false,
        Some("any-version"),
        &|_: &str| -> AppResult<Option<String>> { Ok(None) },
        &|_: &str, _: i64| -> AppResult<usize> { Ok(0) },
    ));
    assert!(error.to_message().contains("要编辑的记录不存在"));
}

#[derive(Clone, Debug)]
struct StoredItem {
    id: String,
    name: String,
    enabled: bool,
    updated_at: String,
}

/// An item table that stamps every write with a new version.
struct ItemTable {
    rows: RefCell<BTreeMap<String, StoredItem>>,
    writes: Cell<u32>,
}

impl ItemTable {
    fn new() -> Self {
        ItemTable { rows: RefCell::new(BTreeMap::new()), writes: Cell::new(0) }
    }

    fn next_version(&self) -> String {
        self.writes.set(self.writes.get() + 1);
        format!("2026-06-01T00:00:{:02}.000000000Z", self.writes.get())
    }

    fn is_known(&self, id: &str) -> AppResult<bool> {
        Ok(self.rows.borrow().contains_key(id))
    }

    fn version(&self, id: &str) -> AppResult<Option<String>> {
        Ok(self.rows.borrow().get(id).map(|row| row.updated_at.clone()))
    }

    fn write(&self, row: ItemRow<Figures>) -> AppResult<StoredItem> {
        let stored = StoredItem {
            id: row.id.clone(),
            name: row.name,
            enabled: row.enabled == 1,
            updated_at: self.next_version(),
        };
        self.rows.borrow_mut().insert(row.id, stored.clone());
        Ok(stored)
    }

    fn set_enabled(&self, id: &str, flag: i64) -> AppResult<usize> {
        let version = self.next_version();
        let mut rows = self.rows.borrow_mut();
        match rows.get_mut(id) {
            Some(row) => {
                row.enabled = flag == 1;
                row.updated_at = version;
                Ok(1)
            }
            None => Ok(0),
        }
    }

    fn save(&self, request: SaveItemRequest<Figures>) -> AppResult<StoredItem> {
        let references = References::seeded();
        save_item(
            request,
            &|id: &str| self.is_known(id),
            &|| -> AppResult<String> { panic!("codes are given") },
            &|table: &str, id: &str| references.lookup(table, id),
            &|id: &str| self.version(id),
            &|row: ItemRow<Figures>, _: bool| self.write(row),
        )
    }

    fn switch(&self, id: &str, enabled: bool, version: Option<&str>) -> AppResult<()> {
        set_item_enabled(
            id,
            enabled,
            version,
            &|id: &str| self.version(id),
            &|id: &str, flag: i64| self.set_enabled(id, flag),
        )
    }
}

#[test]
fn save_item_requires_matching_updated_at_for_existing_records() {
    let table = ItemTable::new();
    let item = table.save(item_request(Some("item-lock"), Some("LOCK-001"), "乐观锁物品")).unwrap();

    let missing_version = failure(table.save(item_request(Some(&item.id), Some("LOCK-001"), "缺版本覆盖")));
    assert!(missing_version.to_message().contains("缺少版本信息"));

    let mut update = item_request(Some(&item.id), Some("LOCK-001"), "已更新物品");
    update.expected_updated_at = Some(item.updated_at.clone());
    update.extra = (2.0, 0.0, 0.0);
    let updated = table.save(update).unwrap();
    assert_eq!(updated.name, "已更新物品");

    let mut stale_request = item_request(Some(&item.id), Some("LOCK-001"), "旧页面覆盖");
    stale_request.expected_updated_at = Some(item.updated_at.clone());
    stale_request.extra = (3.0, 0.0, 0.0);
    let stale = failure(table.save(stale_request));
    assert!(stale.to_message().contains("已被其他客户端修改"));

    let missing_toggle_version = failure(table.switch(&updated.id, false, None));
    assert!(missing_toggle_version.to_message().contains("缺少版本信息"));

    table.switch(&updated.id, false, Some(&updated.updated_at)).unwrap();
    let toggled = table.rows.borrow().get(&updated.id).cloned().unwrap();
    assert!(!toggled.enabled);

    let stale_toggle = failure(table.switch(&updated.id, true, Some(&updated.updated_at)));
    assert!(stale_toggle.to_message().contains("已被其他客户端修改"));
}

#[derive(Clone, Debug)]
struct StoredCategory {
    id: String,
    parent_id: Option<String>,
}

#[test]
fn save_category_supports_large_and_small_categories_only() {
    let categories: RefCell<Vec<StoredCategory>> = RefCell::new(Vec::new());
    let save = |id: &str, parent: Option<&str>, name: &str, sort_order: i64| {
        save_category(
            SaveCategoryRequest {
                id: Some(id.to_string()),
                parent_id: parent.map(str::to_string),
                name: name.to_string(),
                enabled: true,
                sort_order,
                expected_updated_at: None,
            },
            &|id: &str| Ok(categories.borrow().iter().any(|c| c.id == id)),
            &|id: &str| Ok(categories.borrow().iter().find(|c| c.id == id).map(|c| c.parent_id.clone())),
            &|_: &str| -> AppResult<Option<String>> { panic!("new categories carry no version") },
            &|row: CategoryRow, _: bool| -> AppResult<StoredCategory> {
                let stored = StoredCategory { id: row.id, parent_id: row.parent_id };
                categories.borrow_mut().push(stored.clone());
                Ok(stored)
            },
        )
    };

    let parent = save("category-food", None, "食品", 1).unwrap();
    let child = save("category-rice", Some(&parent.id), "米面粮油", 2).unwrap();
    assert_eq!(child.parent_id.as_deref(), Some("category-food"));

    let listed = collect_all(|_: Option<&str>| -> AppResult<Page<StoredCategory>> {
        Ok(Page { items: categories.borrow().clone(), next_cursor: None })
    })
    .unwrap();
    assert_eq!(listed.len(), 2);
    assert_eq!(
        listed
            .iter()
            .find(|category| category.id == "category-rice")
            .and_then(|category| category.parent_id.as_deref()),
        Some("category-food")
    );

    let grandchild = save("category-rice-imported", Some(&child.id), "进口米", 3);
    assert!(grandchild.is_err());
}

#[test]
fn department_and_supplier_saves_trim_their_texts() {
    let written = RefCell::new(Vec::new());
    let is_known = |id: &str| -> AppResult<bool> { Ok(id == "dept-known") };
    let version = |_: &str| -> AppResult<Option<String>> { Ok(Some("v1".to_string())) };
    let write_department = |row: DepartmentRow, update: bool| -> AppResult<()> {
        written.borrow_mut().push(format!(
            "{} {} {} {:?} {} {} {:?} {update}",
            row.id, row.code, row.name, row.manager, row.enabled, row.sort_order, row.remark
        ));
        Ok(())
    };
    save_department(
        SaveDepartmentRequest {
            id: Some("dept-new".to_string()),
            code: " HK ".to_string(),
            name: " 客房部 ".to_string(),
            manager: Some("  ".to_string()),
            enabled: true,
            sort_order: 3,
            remark: Some(" 楼层 ".to_string()),
            expected_updated_at: None,
        },
        &is_known,
        &version,
        &write_department,
    )
    .unwrap();
    let stale = failure(save_department(
        SaveDepartmentRequest {
            id: Some("dept-known".to_string()),
            code: "HK".to_string(),
            name: "客房部".to_string(),
            manager: None,
            enabled: false,
            sort_order: 0,
            remark: None,
            expected_updated_at: Some("v0".to_string()),
        },
        &is_known,
        &version,
        &write_department,
    ));
    assert!(matches!(stale, AppError::Validation(_)));
    let write_supplier = |row: SupplierRow, update: bool| -> AppResult<()> {
        written.borrow_mut().push(format!(
            "{} {} {:?} {:?} {:?} {} {update}",
            row.name, row.enabled, row.contact, row.phone, row.address, row.id
        ));
        Ok(())
    };
    save_supplier(
        SaveSupplierRequest {
            id: Some("sup-1".to_string()),
            name: " 布草供应 ".to_string(),
            contact: Some(" 张三 ".to_string()),
            phone: None,
            address: Some("".to_string()),
            enabled: false,
            remark: None,
            expected_updated_at: None,
        },
        &is_known,
        &version,
        &write_supplier,
    )
    .unwrap();
    assert_eq!(
        written.borrow().as_slice(),
        [
            "dept-new HK 客房部 None 1 3 Some(\"楼层\") false",
            "布草供应 0 Some(\"张三\") None None sup-1 false",
        ]
    );
}

#[test]
fn enabling_departments_and_suppliers_needs_the_stored_version() {
    let missing = failure(set_department_enabled(
        "missing",
        true,
        Some("v1"),
        &|_: &str| -> AppResult<Option<String>> { Ok(None) },
        &|_: &str, _: i64| -> AppResult<usize> { Ok(0) },
    ));
    assert!(missing.to_message().contains("要编辑的记录不存在"));
    let switched = RefCell::new(Vec::new());
    set_supplier_enabled(
        "sup-1",
        false,
        Some("v1"),
        &|_: &str| -> AppResult<Option<String>> { Ok(Some("v1".to_string())) },
        &|id: &str, flag: i64| -> AppResult<usize> {
            switched.borrow_mut().push(format!("{id} {flag}"));
            Ok(1)
        },
    )
    .unwrap();
    assert_eq!(switched.borrow().as_slice(), ["sup-1 0"]);
}
