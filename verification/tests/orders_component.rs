use platform_poc::orders_component::{
    after_insert, check_all_in_stock, group_orders, insert_order_statement, notification_subject,
    order_total, orders_query, plan_order, plan_order_numbered, read_order_row, skus_of, OrderError,
    OrderPlan,
};
use platform_poc::shop_types::{Availability, LineItem, PgValue, ResultRowEntry};

fn text(name: &str, v: &str) -> ResultRowEntry {
    ResultRowEntry { column_name: name.to_string(), value: PgValue::Text(v.to_string()) }
}

fn int4(name: &str, v: i32) -> ResultRowEntry {
    ResultRowEntry { column_name: name.to_string(), value: PgValue::Int4(v) }
}

fn row(number: &str, total: i32, sku: &str, price: i32, quantity: i32) -> Vec<ResultRowEntry> {
    vec![
        text("order_number", number),
        int4("order_total", total),
        text("sku", sku),
        int4("price", price),
        int4("quantity", quantity),
    ]
}

fn line(sku: &str, price: i32, quantity: i32) -> LineItem {
    LineItem { sku: sku.to_string(), price, quantity }
}

const HEAD: &str = "WITH order_id AS (\n   \tINSERT INTO orders.t_orders (order_number, total)\n   \tVALUES ($1, $2) RETURNING id\n), item_ids AS (\n   \tINSERT INTO orders.t_order_line_items (price, quantity, sku)\n   \tVALUES ";
const TAIL: &str = " RETURNING id\n), joins AS (\n   \tSELECT order_id.id as order_id, item_ids.id as item_id FROM order_id, item_ids\n)\nINSERT INTO orders.t_orders_order_line_items_list (order_id, order_line_items_list_id)\n(SELECT order_id, item_id FROM joins);\n";

#[test]
fn reads_a_row_with_the_last_cell_of_a_name_winning() {
    let mut cells = row("n1", 30, "a", 10, 3);
    cells.push(int4("price", 11));
    cells.push(ResultRowEntry { column_name: "extra".to_string(), value: PgValue::Other });
    let r = read_order_row(&cells);
    assert_eq!(r.order_number, "n1");
    assert_eq!(r.order_total, 30);
    assert_eq!(r.sku, "a");
    assert_eq!(r.price, 11);
    assert_eq!(r.quantity, 3);
}

#[test]
fn reads_blank_fields_for_missing_or_mistyped_cells() {
    let cells = vec![ResultRowEntry { column_name: "price".to_string(), value: PgValue::Integer(9) }];
    let r = read_order_row(&cells);
    assert_eq!(r.order_number, "");
    assert_eq!(r.price, 0);
}

#[test]
fn groups_rows_by_order_number_in_first_appearance_order() {
    let rows = vec![
        row("n1", 30, "a", 10, 1),
        row("n2", 7, "b", 7, 1),
        row("n1", 99, "c", 20, 1),
    ];
    let orders = group_orders(&rows);
    assert_eq!(orders.len(), 2);
    assert_eq!(orders[0].order_number, "n1");
    assert_eq!(orders[0].total, 30);
    assert_eq!(orders[0].line_items.len(), 2);
    assert_eq!(orders[0].line_items[0].sku, "a");
    assert_eq!(orders[0].line_items[1].sku, "c");
    assert_eq!(orders[0].line_items[1].price, 20);
    assert_eq!(orders[1].order_number, "n2");
    assert_eq!(orders[1].line_items.len(), 1);
    assert_eq!(orders[1].total, 7);
}

#[test]
fn groups_no_rows_into_no_orders() {
    assert_eq!(group_orders(&vec![]).len(), 0);
}

#[test]
fn totals_lines() {
    assert_eq!(order_total(&vec![line("a", 150, 2), line("b", 30, 3)]), Some(390));
    assert_eq!(order_total(&vec![]), Some(0));
    assert_eq!(order_total(&vec![line("a", -5, 2)]), Some(-10));
}

#[test]
fn total_overflow_is_none() {
    assert_eq!(order_total(&vec![line("a", i32::MAX, 2)]), None);
    assert_eq!(order_total(&vec![line("a", i32::MAX, 1), line("b", 1, 1)]), None);
}

#[test]
fn stock_check_and_skus() {
    let yes = Availability { sku: "a".to_string(), is_in_stock: true };
    let no = Availability { sku: "b".to_string(), is_in_stock: false };
    assert!(check_all_in_stock(&vec![]));
    assert!(check_all_in_stock(&vec![yes]));
    assert!(!check_all_in_stock(&vec![
        Availability { sku: "a".to_string(), is_in_stock: true },
        no
    ]));
    let skus = skus_of(&vec![line("x", 1, 1), line("y", 1, 1)]);
    assert_eq!(skus, vec!["x".to_string(), "y".to_string()]);
}

#[test]
fn writes_the_insert_statement() {
    let one = insert_order_statement(&vec![line("abc", 5, 2)]);
    assert_eq!(one, format!("{HEAD}(5,2,'abc'){TAIL}"));
    let two = insert_order_statement(&vec![line("a", -1, 10), line("b", 250, 1)]);
    assert_eq!(two, format!("{HEAD}(-1,10,'a'),(250,1,'b'){TAIL}"));
    assert_eq!(insert_order_statement(&vec![]), format!("{HEAD}{TAIL}"));
}

#[test]
fn plans_an_order_in_stock() {
    let items = vec![line("a", 150, 2)];
    let stock = vec![Availability { sku: "a".to_string(), is_in_stock: true }];
    match plan_order_numbered(&items, &stock, "n-1".to_string()) {
        OrderPlan::Place { sql, order_number, total } => {
            assert_eq!(sql, format!("{HEAD}(150,2,'a'){TAIL}"));
            assert_eq!(order_number, "n-1");
            assert_eq!(total, 300);
        }
        OrderPlan::Reject(_) => panic!("expected the order to be placed"),
    }
    match plan_order(&items, &stock) {
        OrderPlan::Place { order_number, .. } => {
            assert_eq!(order_number.len(), 36);
            assert!(uuid::Uuid::parse_str(&order_number).is_ok());
        }
        OrderPlan::Reject(_) => panic!("expected the order to be placed"),
    }
}

#[test]
fn refuses_an_order_out_of_stock() {
    let items = vec![line("a", 150, 2)];
    let stock = vec![Availability { sku: "a".to_string(), is_in_stock: false }];
    match plan_order(&items, &stock) {
        OrderPlan::Reject(OrderError::Internal(msg)) => assert_eq!(msg, "Product(s) not in stock"),
        OrderPlan::Place { .. } => panic!("expected a refusal"),
    }
}

#[test]
fn after_insert_announces_or_fails() {
    match after_insert("n-1".to_string(), Ok(())) {
        Ok(a) => {
            assert_eq!(a.subject, "platform-poc.order-notification");
            assert_eq!(a.notification.order_number, "n-1");
        }
        Err(_) => panic!("expected an announcement"),
    }
    match after_insert("n-1".to_string(), Err("db down".to_string())) {
        Err(OrderError::Internal(msg)) => assert_eq!(msg, "Failed to insert order: db down"),
        Ok(_) => panic!("expected a failure"),
    }
}

#[test]
fn subject_and_query_texts() {
    assert_eq!(notification_subject(), "platform-poc.order-notification");
    assert!(orders_query().starts_with("SELECT\n    \"order\".order_number,"));
    assert!(orders_query().ends_with("LIMIT 10;\n"));
}

fn seeded_availability(skus: &[&str]) -> Vec<Availability> {
    let products = platform_poc::data_init::sample_products();
    let statements = platform_poc::data_init::inventory_statements(&products);
    skus.iter()
        .map(|sku| {
            let st = statements[2..]
                .iter()
                .find(|s| matches!(&s.params[1], PgValue::Text(t) if t == sku))
                .expect("seeded sku");
            let quantity = match st.params[0] {
                PgValue::Integer(q) => q,
                _ => panic!("quantity"),
            };
            Availability { sku: sku.to_string(), is_in_stock: quantity > 0 }
        })
        .collect()
}

#[test]
fn readme_orders_against_the_seeded_inventory() {
    let refused = vec![line("WND-WPR-AW", 1000, 1), line("TIR-SET-AS", 20000, 3), line("ALT-HO-ENH", 13000, 1)];
    let stock = seeded_availability(&["WND-WPR-AW", "TIR-SET-AS", "ALT-HO-ENH"]);
    assert!(matches!(plan_order(&refused, &stock), OrderPlan::Reject(_)));
    let placed = vec![line("WND-WPR-AW", 1000, 1), line("TIR-SET-AS", 20000, 3)];
    let stock = seeded_availability(&["WND-WPR-AW", "TIR-SET-AS"]);
    match plan_order(&placed, &stock) {
        OrderPlan::Place { total, .. } => assert_eq!(total, 61000),
        OrderPlan::Reject(_) => panic!("expected the order to be placed"),
    }
}
