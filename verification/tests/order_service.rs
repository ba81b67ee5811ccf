use bigdecimal::BigDecimal;
use platform_poc::order_service::{
    check_stock, check_topic_metadata, event_key, group_line_items, internal_error, inventory_endpoint,
    inventory_query, link_rows, rows_parse_check, try_group_line_items, DbLineItem, InventoryResponse,
    LineItem, PlaceAction, PlaceEvent, PlaceOrder, PlaceStep,
};

const N1: &str = "67e55044-10b1-426f-9247-bb680e5fe0c8";
const N1_U128: u128 = 0x67e55044_10b1_426f_9247_bb680e5fe0c8;
const N2: &str = "a1a2a3a4-b1b2-c1c2-d1d2-d3d4d5d6d7d8";

fn row(order_id: i64, number: Option<&str>, item_id: i64, sku: Option<&str>, price: Option<i64>, quantity: Option<i32>) -> DbLineItem {
    DbLineItem {
        order_id,
        order_number: number.map(|s| s.to_string()),
        item_id,
        sku_code: sku.map(|s| s.to_string()),
        price: price.map(BigDecimal::from),
        quantity,
    }
}

#[test]
fn line_item_from_row_defaults_missing_fields() {
    let l = LineItem::from_row(row(1, Some(N1), 9, None, None, None));
    assert_eq!(l.id, Some(9));
    assert_eq!(l.sku, "");
    assert_eq!(l.price, BigDecimal::from(0));
    assert_eq!(l.quantity, 0);
    let l = LineItem::from_row(row(1, Some(N1), 4, Some("abc"), Some(12), Some(3)));
    assert_eq!(l.sku, "abc");
    assert_eq!(l.price, BigDecimal::from(12));
    assert_eq!(l.quantity, 3);
}

#[test]
fn listing_opens_an_order_per_change_of_number() {
    let rows = vec![
        row(1, Some(N1), 10, Some("a"), Some(1), Some(1)),
        row(1, Some(N1), 11, Some("b"), Some(2), Some(1)),
        row(2, Some(N2), 12, Some("c"), Some(3), Some(1)),
    ];
    assert!(rows_parse_check(&rows));
    let orders = group_line_items(rows);
    assert_eq!(orders.len(), 2);
    assert_eq!(orders[0].id, Some(1));
    assert_eq!(orders[0].order_number, N1_U128);
    assert_eq!(orders[0].line_items.len(), 1);
    assert_eq!(orders[0].line_items[0].sku, "a");
    assert_eq!(orders[1].id, Some(2));
    assert_eq!(orders[1].line_items[0].id, Some(12));
}

#[test]
fn listing_fails_on_a_number_that_is_not_a_uuid() {
    let rows = vec![row(1, Some("nope"), 10, None, None, None)];
    assert!(!rows_parse_check(&rows));
    assert!(try_group_line_items(rows).is_none());
    assert!(try_group_line_items(vec![row(1, None, 10, None, None, None)]).is_none());
    assert_eq!(try_group_line_items(vec![]).map(|v| v.len()), Some(0));
}

#[test]
fn stock_and_query() {
    let yes = InventoryResponse { sku_code: "a".to_string(), is_in_stock: true };
    assert!(check_stock(&vec![yes]));
    assert!(check_stock(&vec![]));
    let no = InventoryResponse { sku_code: "b".to_string(), is_in_stock: false };
    assert!(!check_stock(&vec![no]));
    let q = inventory_query(&vec!["a".to_string(), "b".to_string()]);
    assert_eq!(q, vec![("skuCode".to_string(), "a".to_string()), ("skuCode".to_string(), "b".to_string())]);
}

fn expect_reply(a: PlaceAction) -> (u16, String) {
    match a {
        PlaceAction::Reply(code, text) => (code, text),
        _ => panic!("expected a reply"),
    }
}

#[test]
fn places_an_order_step_by_step() {
    let skus = vec!["a".to_string(), "b".to_string()];
    let (p, a) = PlaceOrder::start(N1_U128, &skus);
    assert!(matches!(p.step, PlaceStep::CheckStock));
    assert!(matches!(a, PlaceAction::FetchStock(ref q) if q.len() == 2));
    let stock = vec![
        InventoryResponse { sku_code: "a".to_string(), is_in_stock: true },
        InventoryResponse { sku_code: "b".to_string(), is_in_stock: true },
    ];
    let (p, a) = p.step(PlaceEvent::Stock(Ok(stock)));
    assert!(matches!(a, PlaceAction::Begin));
    let (p, a) = p.step(PlaceEvent::Began(Ok(())));
    assert!(matches!(a, PlaceAction::InsertLine(0)));
    let (p, a) = p.step(PlaceEvent::LineInserted(Ok(70)));
    assert!(matches!(a, PlaceAction::InsertLine(1)));
    let (p, a) = p.step(PlaceEvent::LineInserted(Ok(71)));
    match a {
        PlaceAction::InsertOrder(t) => assert_eq!(t, N1),
        _ => panic!("expected the order row"),
    }
    let (p, a) = p.step(PlaceEvent::OrderInserted(Ok(5)));
    assert!(matches!(a, PlaceAction::Link { order_id: 5, item_id: 70 }));
    let (p, a) = p.step(PlaceEvent::Linked(Ok(())));
    assert!(matches!(a, PlaceAction::Link { order_id: 5, item_id: 71 }));
    let (p, a) = p.step(PlaceEvent::Linked(Ok(())));
    assert!(matches!(a, PlaceAction::Commit));
    let (p, a) = p.step(PlaceEvent::Committed(Ok(())));
    assert!(matches!(a, PlaceAction::Publish(n) if n == N1_U128));
    let (p, a) = p.step(PlaceEvent::Published(Ok(())));
    assert!(matches!(p.step, PlaceStep::Done));
    assert_eq!(expect_reply(a), (201, format!("Order Number 5 ({N1}) Placed Successfully")));
}

#[test]
fn placing_refuses_an_order_out_of_stock() {
    let (p, _) = PlaceOrder::start(N1_U128, &vec!["a".to_string()]);
    let stock = vec![InventoryResponse { sku_code: "a".to_string(), is_in_stock: false }];
    let (p, a) = p.step(PlaceEvent::Stock(Ok(stock)));
    assert!(matches!(p.step, PlaceStep::Done));
    assert_eq!(expect_reply(a), (400, "Product is not in stock, please try again later".to_string()));
}

#[test]
fn a_failure_ends_the_placing_with_500() {
    let (p, _) = PlaceOrder::start(N1_U128, &vec!["a".to_string()]);
    let (p, _) = p.step(PlaceEvent::Stock(Ok(vec![])));
    let (p, a) = p.step(PlaceEvent::Began(Err("no connection".to_string())));
    assert!(matches!(p.step, PlaceStep::Done));
    assert_eq!(expect_reply(a), (500, "no connection".to_string()));
}

#[test]
fn an_order_without_lines_goes_straight_to_the_order_row() {
    let (p, _) = PlaceOrder::start(N1_U128, &vec![]);
    let (p, _) = p.step(PlaceEvent::Stock(Ok(vec![])));
    let (p, a) = p.step(PlaceEvent::Began(Ok(())));
    assert!(matches!(a, PlaceAction::InsertOrder(_)));
    let (_, a) = p.step(PlaceEvent::OrderInserted(Ok(3)));
    assert!(matches!(a, PlaceAction::Commit));
}

#[test]
fn resolves_the_inventory_endpoint() {
    assert_eq!(
        inventory_endpoint("http://inventory:8080").unwrap(),
        "http://inventory:8080/api/inventory"
    );
    assert_eq!(
        inventory_endpoint("http://inventory:8080/base/").unwrap(),
        "http://inventory:8080/api/inventory"
    );
    assert!(inventory_endpoint("not a url").is_err());
}

#[test]
fn error_and_link_helpers() {
    assert_eq!(internal_error("boom".to_string()), (500, "boom".to_string()));
    assert_eq!(link_rows(7, &vec![1, 2, 3]), vec![(7, 1)]);
    assert_eq!(link_rows(7, &vec![]), vec![]);
    assert!(check_topic_metadata(&vec![]).is_err());
    assert_eq!(
        check_topic_metadata(&vec![0]).unwrap_err(),
        "metadata fetch returned a topic with no partitions"
    );
    assert_eq!(check_topic_metadata(&vec![]).unwrap_err(), "metadata fetch returned no topics");
    assert!(check_topic_metadata(&vec![3, 0]).is_ok());
    assert_eq!(event_key(N1_U128), format!("Key {N1}"));
}
