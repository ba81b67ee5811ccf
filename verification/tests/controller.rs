use platform_poc::controller::{
    after_create_order, after_create_product, after_get_orders, after_init, after_inventory,
    after_list_products, order_lines, plan, route, route_from_match, serialize_get_orders,
    serialize_list_products, Method, Pence, Plan, Reply, ReplyBody, Route, Schema,
    SerializableLineItem, SerializableOrder, SerializableProduct,
};
use platform_poc::orders_component::OrderError;
use platform_poc::shop_types::{Availability, LineItem, Order, Product};

const ID: &str = "67e55044-10b1-426f-9247-bb680e5fe0c8";
const ID_U128: u128 = 0x67e55044_10b1_426f_9247_bb680e5fe0c8;

fn text_of(r: &Reply) -> String {
    match &r.body {
        ReplyBody::Text(t) => t.clone(),
        _ => panic!("not a text body"),
    }
}

#[test]
fn routes_known_paths() {
    assert!(matches!(route("/inventory"), Route::Inventory));
    assert!(matches!(route("/orders"), Route::Orders));
    assert!(matches!(route("/products"), Route::Products));
    assert!(matches!(route("/data-init/all"), Route::DataInit(Schema::All)));
    assert!(matches!(route("/data-init/inventory"), Route::DataInit(Schema::Inventory)));
    assert!(matches!(route("/data-init/orders"), Route::DataInit(Schema::Orders)));
    assert!(matches!(route("/data-init/products"), Route::DataInit(Schema::Products)));
}

#[test]
fn routes_unknown_paths() {
    assert!(matches!(route("/nowhere"), Route::NotFound));
    assert!(matches!(route("/data-init/everything"), Route::BadSchema));
}

#[test]
fn route_from_match_reads_the_action_capture() {
    assert!(matches!(route_from_match(None), Route::NotFound));
    let caps = vec![("action".to_string(), "orders".to_string())];
    assert!(matches!(route_from_match(Some((0, caps))), Route::DataInit(Schema::Orders)));
    let caps = vec![("other".to_string(), "orders".to_string())];
    assert!(matches!(route_from_match(Some((0, caps))), Route::BadSchema));
    assert!(matches!(route_from_match(Some((2, vec![]))), Route::Orders));
}

#[test]
fn schema_try_from() {
    assert!(matches!(Schema::try_from(Some("all")), Ok(Schema::All)));
    assert!(matches!(Schema::try_from(Some("products")), Ok(Schema::Products)));
    assert!(Schema::try_from(Some("All")).is_err());
    assert!(Schema::try_from(None).is_err());
}

#[test]
fn plan_for_each_route() {
    match plan(Route::NotFound, Method::Get, None) {
        Plan::Respond(r) => {
            assert_eq!(r.status, 404);
            assert_eq!(text_of(&r), "404 Not Found");
        }
        _ => panic!("expected a reply"),
    }
    match plan(Route::BadSchema, Method::Get, None) {
        Plan::Respond(r) => assert_eq!(r.status, 400),
        _ => panic!("expected a reply"),
    }
    assert!(matches!(plan(Route::DataInit(Schema::All), Method::Get, None), Plan::Init(Schema::All)));
    match plan(Route::DataInit(Schema::All), Method::Post, None) {
        Plan::Respond(r) => {
            assert_eq!(r.status, 405);
            assert_eq!(text_of(&r), "405 Method Not Allowed");
        }
        _ => panic!("expected a reply"),
    }
    match plan(Route::Inventory, Method::Get, Some("sku1,sku2".to_string())) {
        Plan::GetInventory(v) => assert_eq!(v, vec!["sku1".to_string(), "sku2".to_string()]),
        _ => panic!("expected an inventory lookup"),
    }
    match plan(Route::Inventory, Method::Get, None) {
        Plan::Respond(r) => assert_eq!(text_of(&r), "400 Bad Request"),
        _ => panic!("expected a reply"),
    }
    assert!(matches!(plan(Route::Orders, Method::Get, None), Plan::GetOrders));
    assert!(matches!(plan(Route::Orders, Method::Post, None), Plan::CreateOrder));
    assert!(matches!(plan(Route::Products, Method::Get, None), Plan::ListProducts));
    assert!(matches!(plan(Route::Products, Method::Post, None), Plan::CreateProduct));
    match plan(Route::Products, Method::Other, None) {
        Plan::Respond(r) => assert_eq!(r.status, 405),
        _ => panic!("expected a reply"),
    }
}

#[test]
fn after_init_replies() {
    let r = after_init(Schema::Orders, Ok(()));
    assert_eq!(r.status, 200);
    assert_eq!(text_of(&r), "200 OK");
    let r = after_init(Schema::Inventory, Err("boom".to_string()));
    assert_eq!(r.status, 500);
    assert_eq!(text_of(&r), "500 Internal Server Error");
    assert_eq!(r.log.unwrap(), "failed to initialize inventory schema: boom");
}

#[test]
fn after_inventory_replies() {
    let v = vec![
        Availability { sku: "a".to_string(), is_in_stock: true },
        Availability { sku: "b".to_string(), is_in_stock: false },
    ];
    let r = after_inventory(Ok(v));
    assert_eq!(r.status, 200);
    match r.body {
        ReplyBody::Availability(b) => {
            assert_eq!(b.len(), 2);
            assert_eq!(b[0].sku, "a");
            assert!(b[0].is_in_stock);
            assert_eq!(b[1].sku, "b");
            assert!(!b[1].is_in_stock);
        }
        _ => panic!("expected availabilities"),
    }
    let r = after_inventory(Err("down".to_string()));
    assert_eq!(r.log.unwrap(), "failed to get inventory: down");
}

fn order(number: &str) -> Order {
    Order {
        order_number: number.to_string(),
        line_items: vec![LineItem { sku: "s".to_string(), price: 5, quantity: 2 }],
        total: 10,
    }
}

#[test]
fn serialises_orders_with_parsed_numbers() {
    let b = serialize_get_orders(&vec![order(ID)]).unwrap();
    assert_eq!(b.len(), 1);
    assert_eq!(b[0].order_number, ID_U128);
    assert_eq!(b[0].total.0, 10);
    assert_eq!(b[0].line_items[0].price.0, 5);
    assert!(serialize_get_orders(&vec![order(ID), order("not-a-uuid")]).is_err());
}

#[test]
fn order_listing_replies() {
    let r = after_get_orders(Ok(vec![order(ID)]));
    assert_eq!(r.status, 200);
    assert!(matches!(r.body, ReplyBody::Orders(_)));
    let r = after_get_orders(Ok(vec![order("nope")]));
    assert_eq!(r.status, 500);
    assert!(r.log.unwrap().starts_with("failed to parse orders: "));
    let r = after_get_orders(Err("db".to_string()));
    assert_eq!(r.log.unwrap(), "failed to get orders: db");
}

fn product(id: &str) -> Product {
    Product {
        id: id.to_string(),
        name: "n".to_string(),
        description: "d".to_string(),
        price: 3,
        sku: "k".to_string(),
    }
}

#[test]
fn product_listing_replies() {
    let b = serialize_list_products(&vec![product(ID)]).unwrap();
    assert_eq!(b[0].id, ID_U128);
    assert_eq!(b[0].sku, "k");
    let r = after_list_products(Ok(vec![product("x")]));
    assert!(r.log.unwrap().starts_with("failed to parse products: "));
    let r = after_list_products(Err("kv".to_string()));
    assert_eq!(r.log.unwrap(), "failed to list products: kv");
}

#[test]
fn creation_replies() {
    let r = after_create_order(Ok(()));
    assert_eq!(r.status, 201);
    assert_eq!(text_of(&r), "201 Created");
    let r = after_create_order(Err(OrderError::Internal("out of stock".to_string())));
    assert_eq!(r.log.unwrap(), "failed to create order: out of stock");
    let r = after_create_product(Err("kv".to_string()));
    assert_eq!(r.log.unwrap(), "failed to create product: kv");
}

#[test]
fn serialised_values_convert_back() {
    let lines = order_lines(&vec![SerializableLineItem { sku: "x".to_string(), price: Pence(7), quantity: 3 }]);
    assert_eq!(lines[0].sku, "x");
    assert_eq!(lines[0].price, 7);
    assert_eq!(lines[0].quantity, 3);
    let p = SerializableProduct {
        id: ID_U128,
        name: "n".to_string(),
        description: "d".to_string(),
        price: 1,
        sku: "k".to_string(),
    };
    assert_eq!(p.to_product().id, ID);
    let o = SerializableOrder::try_from(&order(ID)).unwrap();
    assert_eq!(o.order_number, ID_U128);
}

#[test]
fn a_serialised_product_survives_a_round_trip() {
    let s = SerializableProduct {
        id: 0x0123_4567_89ab_cdef_0123_4567_89ab_cdef,
        name: "n".to_string(),
        description: "d".to_string(),
        price: -7,
        sku: "k".to_string(),
    };
    let back = SerializableProduct::try_from(&s.to_product()).unwrap();
    assert_eq!(back.id, s.id);
    assert_eq!(back.name, s.name);
    assert_eq!(back.description, s.description);
    assert_eq!(back.price, s.price);
    assert_eq!(back.sku, s.sku);
}
