use platform_poc::body_reader::{
    collect_request_body, ChunkEvent, Collected, REQUEST_READ_BYTES,
    complete_response, complete_response_step, ResponseStep, read_body, read_body_start, ReadAction, ReadEvent, ReadStep, ResponseAction,
    MAX_READ_BYTES,
};
use platform_poc::controller::Method;
use platform_poc::data_init::{inventory_statements, orders_statements, product_keys, sample_products};
use platform_poc::legacy_controller::{
    field_name, field_of, legacy_created, legacy_plan, FieldError, LegacyPlan, ProductDraft, ProductField,
};
use platform_poc::notification_component::{loud_print, notification_subject, order_banner};
use platform_poc::notifier::{notification_text, Logger, OrderPlacedEvent, Service};
use platform_poc::products_component::{create_product, KeyListing, ProductsError};
use platform_poc::shop_types::{PgValue, Product};
use platform_poc::text::{decimal, split_on};
use platform_poc::{notification_config, order_config, product_config};
use std::cell::RefCell;

const ID: &str = "67e55044-10b1-426f-9247-bb680e5fe0c8";
const ID_U128: u128 = 0x67e55044_10b1_426f_9247_bb680e5fe0c8;

#[test]
fn configuration_defaults() {
    assert_eq!(notification_config::topic(), "orders");
    assert_eq!(notification_config::port(), 8082);
    assert_eq!(order_config::port(), 8081);
    assert_eq!(order_config::topic(), "orders");
    assert_eq!(order_config::inventory_url(), "http://inventory-service/api/inventory");
    assert_eq!(product_config::port(), 8080);
}

#[test]
fn decimal_texts() {
    assert_eq!(decimal(0), "0");
    assert_eq!(decimal(1234), "1234");
    assert_eq!(decimal(-56), "-56");
    assert_eq!(decimal(i64::MIN), "-9223372036854775808");
    assert_eq!(decimal(i64::MAX), "9223372036854775807");
}

#[test]
fn splits_like_str_split() {
    for s in ["a,b", "", ",", "a,,b", "abc", ",x,"] {
        let expected: Vec<String> = s.split(',').map(String::from).collect();
        assert_eq!(split_on(s, ','), expected);
    }
}

#[test]
fn reads_a_body_chunk_by_chunk() {
    assert_eq!(MAX_READ_BYTES, 2048);
    let s = read_body_start();
    assert!(matches!(s, ReadStep::Consume));
    let (s, a) = read_body(s, ReadEvent::Consumed(true));
    assert!(matches!(a, ReadAction::OpenStream));
    let (s, a) = read_body(s, ReadEvent::Streamed(true));
    assert!(matches!(a, ReadAction::Read(2048)));
    let (s, _) = read_body(s, ReadEvent::Chunk(vec![1, 2]));
    let (s, _) = read_body(s, ReadEvent::Chunk(vec![3]));
    let (s, a) = read_body(s, ReadEvent::Closed);
    assert!(matches!(s, ReadStep::Done));
    match a {
        ReadAction::Finish(Ok(b)) => assert_eq!(b, vec![1, 2, 3]),
        _ => panic!("expected the body"),
    }
}

#[test]
fn body_failures_carry_their_text() {
    let (_, a) = read_body(ReadStep::Consume, ReadEvent::Consumed(false));
    assert!(matches!(a, ReadAction::Finish(Err(m)) if m == "failed to consume incoming request body"));
    let (_, a) = read_body(ReadStep::Stream, ReadEvent::Streamed(false));
    assert!(matches!(a, ReadAction::Finish(Err(m)) if m == "failed to build stream for incoming request body"));
    let (_, a) = read_body(ReadStep::Reading { buf: vec![] }, ReadEvent::Failed("oops".to_string()));
    assert!(matches!(a, ReadAction::Finish(Err(m)) if m == "failed to read bytes: oops"));
}

#[test]
fn completes_a_response_in_order() {
    let (s, a) = complete_response(404, b"gone");
    assert!(matches!(a, ResponseAction::SetStatus(404)));
    let (s, a) = complete_response_step(s, true);
    assert!(matches!(a, ResponseAction::OpenBody));
    let (s, a) = complete_response_step(s, true);
    assert!(matches!(a, ResponseAction::OpenStream));
    let (s, a) = complete_response_step(s, true);
    assert!(matches!(&a, ResponseAction::WriteAndFlush(b) if b.as_slice() == b"gone"));
    let (s, a) = complete_response_step(s, true);
    assert!(matches!(a, ResponseAction::FinishBody));
    let (s, a) = complete_response_step(s, true);
    assert!(matches!(a, ResponseAction::Send));
    assert!(matches!(s, ResponseStep::Done));
}

#[test]
fn a_refused_status_stops_the_response() {
    let (s, _) = complete_response(1000, b"body");
    let (s, a) = complete_response_step(s, false);
    assert!(matches!(s, ResponseStep::Done));
    assert!(matches!(a, ResponseAction::Abort(m) if m == "setting status code"));
}

#[test]
fn a_refused_write_stops_the_response() {
    let (s, _) = complete_response(200, b"x");
    let (s, _) = complete_response_step(s, true);
    let (s, _) = complete_response_step(s, true);
    let (s, _) = complete_response_step(s, true);
    let (_, a) = complete_response_step(s, false);
    assert!(matches!(a, ResponseAction::Abort(m) if m == "writing response"));
}

#[test]
fn legacy_server_serves_only_products() {
    assert!(matches!(legacy_plan("/products", Method::Get), LegacyPlan::ListProducts));
    assert!(matches!(legacy_plan("/products", Method::Post), LegacyPlan::CreateProduct));
    assert!(matches!(legacy_plan("/products", Method::Other), LegacyPlan::Respond(405, ref b) if b == "405 Method Not Allowed\n"));
    assert!(matches!(legacy_plan("/products?x=1", Method::Get), LegacyPlan::Respond(404, ref b) if b == "404 Not Found\n"));
    assert_eq!(legacy_created(), (201, "Created".to_string()));
}

#[test]
fn product_draft_reads_each_field_once() {
    assert_eq!(field_name(&ProductField::Sku), "sku");
    assert_eq!(field_name(&ProductField::Description), "description");
    let mut d = ProductDraft::new();
    assert!(d.check_field(ProductField::Id).is_ok());
    d.id = Some("i".to_string());
    assert!(matches!(d.check_field(ProductField::Id), Err(FieldError::Duplicate(ProductField::Id))));
    assert!(matches!(d.finish(), Err(FieldError::Missing(ProductField::Name))));
    let d = ProductDraft {
        id: Some("i".to_string()),
        name: Some("n".to_string()),
        description: Some("d".to_string()),
        price: None,
        sku: None,
    };
    assert!(matches!(d.finish(), Err(FieldError::Missing(ProductField::Price))));
    let d = ProductDraft {
        id: Some("i".to_string()),
        name: Some("n".to_string()),
        description: Some("d".to_string()),
        price: Some(4),
        sku: Some("s".to_string()),
    };
    let p = d.finish().ok().unwrap();
    assert_eq!(p.id, "i");
    assert_eq!(p.price, 4);
    assert_eq!(p.sku, "s");
}

struct Recorder(RefCell<Vec<String>>);

impl Logger for Recorder {
    fn info(&self, msg: &str) {
        self.0.borrow_mut().push(msg.to_string());
    }
}

#[test]
fn notifier_logs_each_event() {
    let e = OrderPlacedEvent { order_number: ID_U128 };
    assert_eq!(notification_text(&e), format!("Received Notification for Order - {ID}"));
    let s = Service::new(Recorder(RefCell::new(vec![])));
    s.recv(OrderPlacedEvent { order_number: ID_U128 });
    assert_eq!(s.logger.0.borrow().clone(), vec![format!("Received Notification for Order - {ID}")]);
}

#[test]
fn notification_banner() {
    assert_eq!(notification_subject(), "platform-poc.order-notification");
    let stars = "*".repeat(76);
    let short = "*".repeat(22);
    assert_eq!(
        loud_print("m", "d"),
        format!("\n\n{stars}\n{short}\n{short} m d\n{short}\n{stars}\n\n")
    );
    assert_eq!(order_banner("n-1"), loud_print("recieved order number", "n-1"));
}

fn product(id: &str, sku: &str) -> Product {
    Product { id: id.to_string(), name: "n".to_string(), description: "d".to_string(), price: 9, sku: sku.to_string() }
}

#[test]
fn products_component_keys_by_sku() {
    match create_product(&product(ID, "sku-1")) {
        Ok((key, s)) => {
            assert_eq!(key, "sku-1");
            assert_eq!(s.id, ID_U128);
            assert_eq!(s.price, 9);
        }
        Err(_) => panic!("expected a product"),
    }
    match create_product(&product("x", "sku-1")) {
        Err(ProductsError::BadRequest(m)) => {
            assert!(m.starts_with("PRODUCTS-SERVICE-CREATE-PRODUCT: malformed product: "))
        }
        Ok(_) => panic!("expected a refusal"),
    }
}

#[test]
fn key_listing_pages() {
    let mut l = KeyListing::new();
    assert_eq!(l.add_page(vec!["a".to_string()], Some(5)), Some(5));
    assert_eq!(l.add_page(vec!["b".to_string(), "c".to_string()], None), None);
    assert_eq!(l.keys, vec!["a", "b", "c"]);
}

#[test]
fn sample_catalogue_and_seed_statements() {
    let products = sample_products();
    assert_eq!(products.len(), 14);
    assert_eq!(products[0].name, "Car Engine");
    assert_eq!(products[0].price.0, 8500);
    assert_eq!(products[0].sku, "ENG-V8-500");
    assert_eq!(products[13].name, "Turbocharger");
    assert_eq!(products[13].price.0, 1400);
    let keys = product_keys(&products);
    assert_eq!(keys[6], "WND-WPR-AW");
    let st = inventory_statements(&products);
    assert_eq!(st.len(), 16);
    assert!(st[0].text.contains("CREATE SCHEMA IF NOT EXISTS inventory;"));
    assert!(st[0].params.is_empty());
    assert!(st[1].text.contains("CREATE TABLE IF NOT EXISTS inventory.t_inventory ("));
    for (k, s) in st[2..].iter().enumerate() {
        assert_eq!(s.text, "INSERT INTO inventory.t_inventory (quantity, sku) VALUES ($1, $2);");
        let expected = if k < 7 { 10 } else { 0 };
        assert!(matches!(s.params[0], PgValue::Integer(q) if q == expected));
        assert!(matches!(&s.params[1], PgValue::Text(t) if *t == products[k].sku));
    }
    let o = orders_statements();
    assert_eq!(o.len(), 4);
    assert_eq!(o[0].text, "CREATE SCHEMA IF NOT EXISTS orders;");
    assert!(o[3].text.contains("orders.t_orders_order_line_items_list"));
}

#[test]
fn an_odd_catalogue_stocks_the_smaller_half() {
    let products: Vec<_> = sample_products().into_iter().take(3).collect();
    let st = inventory_statements(&products);
    assert!(matches!(st[2].params[0], PgValue::Integer(10)));
    assert!(matches!(st[3].params[0], PgValue::Integer(0)));
    assert!(matches!(st[4].params[0], PgValue::Integer(0)));
}

#[test]
fn collects_a_typed_request_body() {
    assert_eq!(REQUEST_READ_BYTES, 1024);
    let buf = match collect_request_body(vec![], ChunkEvent::Chunk(b"{\"a\"".to_vec())) {
        Collected::More(b) => b,
        _ => panic!("expected more"),
    };
    let buf = match collect_request_body(buf, ChunkEvent::Chunk(b":1}".to_vec())) {
        Collected::More(b) => b,
        _ => panic!("expected more"),
    };
    assert!(matches!(collect_request_body(buf.clone(), ChunkEvent::Closed), Collected::Done(Some(b), None) if b == b"{\"a\":1}"));
    assert!(matches!(collect_request_body(vec![], ChunkEvent::Closed), Collected::Done(None, None)));
    assert!(matches!(
        collect_request_body(vec![7], ChunkEvent::Failed("reset".to_string())),
        Collected::Done(Some(b), Some(l)) if b == vec![7] && l == "reset"
    ));
}

#[test]
fn split_pieces_join_back() {
    for s in ["WND-WPR-AW,RAD-HI-EFF", "", ",,", "solo"] {
        let pieces = split_on(s, ',');
        assert!(!pieces.is_empty());
        assert!(pieces.iter().all(|p| !p.contains(',')));
        assert_eq!(pieces.join(","), s);
    }
}

#[test]
fn product_draft_succeeds_exactly_when_every_field_is_read() {
    let full = || ProductDraft {
        id: Some("i".to_string()),
        name: Some("n".to_string()),
        description: Some("d".to_string()),
        price: Some(1),
        sku: Some("s".to_string()),
    };
    assert!(full().finish().is_ok());
    let mut d = full();
    d.sku = None;
    assert!(matches!(d.finish(), Err(FieldError::Missing(ProductField::Sku))));
    let mut d = full();
    d.description = None;
    assert!(matches!(d.finish(), Err(FieldError::Missing(ProductField::Description))));
}

#[test]
fn json_keys_name_fields_and_unknown_keys_none() {
    assert!(matches!(field_of("id"), Some(ProductField::Id)));
    assert!(matches!(field_of("name"), Some(ProductField::Name)));
    assert!(matches!(field_of("description"), Some(ProductField::Description)));
    assert!(matches!(field_of("price"), Some(ProductField::Price)));
    assert!(matches!(field_of("sku"), Some(ProductField::Sku)));
    assert!(field_of("skuCode").is_none());
    assert!(field_of("Id").is_none());
    assert!(field_of("").is_none());
}
