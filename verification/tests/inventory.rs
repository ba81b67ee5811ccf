use platform_poc::inventory_component::{availability_of_row, inventory_from_results, inventory_query};
use platform_poc::shop_types::{Availability, PgValue, ResultRowEntry};
use platform_poc::stock_check::{inventory_answers, inventory_entry, InventoryQueryParams};

fn cell(name: &str, value: PgValue) -> ResultRowEntry {
    ResultRowEntry { column_name: name.to_string(), value }
}

#[test]
fn stock_needs_a_row_with_a_positive_quantity() {
    assert!(inventory_entry("a".to_string(), Some(Some(3))).is_in_stock);
    assert!(!inventory_entry("a".to_string(), Some(Some(0))).is_in_stock);
    assert!(!inventory_entry("a".to_string(), Some(Some(-2))).is_in_stock);
    assert!(!inventory_entry("a".to_string(), Some(None)).is_in_stock);
    assert!(!inventory_entry("a".to_string(), None).is_in_stock);
    assert_eq!(inventory_entry("sku-9".to_string(), None).sku_code, "sku-9");
}

#[test]
fn answers_every_sku_in_query_order() {
    let params = InventoryQueryParams { sku_code: vec!["a".to_string(), "b".to_string(), "c".to_string()] };
    let r = inventory_answers(params, vec![Some(Some(1)), None, Some(Some(0))]);
    assert_eq!(r.len(), 3);
    assert_eq!(r[0].sku_code, "a");
    assert!(r[0].is_in_stock);
    assert_eq!(r[1].sku_code, "b");
    assert!(!r[1].is_in_stock);
    assert!(!r[2].is_in_stock);
}

#[test]
fn inventory_query_text() {
    assert_eq!(inventory_query(), "SELECT sku, quantity FROM inventory.t_inventory WHERE sku = $1");
}

#[test]
fn reads_availability_rows() {
    let row = vec![cell("sku", PgValue::Text("a".to_string())), cell("quantity", PgValue::Int4(4))];
    let a = availability_of_row(&row);
    assert_eq!(a.sku, "a");
    assert!(a.is_in_stock);
    let row = vec![cell("sku", PgValue::Int4(1)), cell("quantity", PgValue::Integer(4))];
    let a = availability_of_row(&row);
    assert_eq!(a.sku, "");
    assert!(!a.is_in_stock);
    let d = Availability::default();
    assert_eq!(d.sku, "");
    assert!(!d.is_in_stock);
}

#[test]
fn skus_without_rows_are_left_out() {
    let found = vec![vec![cell("sku", PgValue::Text("a".to_string())), cell("quantity", PgValue::Int4(0))]];
    let results = vec![found, vec![], vec![vec![cell("sku", PgValue::Text("c".to_string())), cell("quantity", PgValue::Int4(2))]]];
    let v = inventory_from_results(&results);
    assert_eq!(v.len(), 2);
    assert_eq!(v[0].sku, "a");
    assert!(!v[0].is_in_stock);
    assert_eq!(v[1].sku, "c");
    assert!(v[1].is_in_stock);
}
