use platform_poc::product_service::{
    product_key, products_pattern, seed_products, Product, ProductRequest, ProductResponse, Service,
    StartAction, StartEvent, StartStep, StoreError,
};

const ID: &str = "67e55044-10b1-426f-9247-bb680e5fe0c8";
const ID_U128: u128 = 0x67e55044_10b1_426f_9247_bb680e5fe0c8;

fn request() -> ProductRequest {
    ProductRequest {
        name: "Widget".to_string(),
        description: "A widget".to_string(),
        price: 42,
        sku_code: "w-1".to_string(),
    }
}

#[test]
fn builds_products_from_requests() {
    let p = Product::from_request_with_id(request(), 7);
    assert_eq!(p.id, 7);
    assert_eq!(p.name, "Widget");
    assert_eq!(p.description, "A widget");
    assert_eq!(p.price, 42);
    assert_eq!(p.sku_code, "w-1");
    let a = Product::from_request(request());
    let b = Product::from_request(request());
    assert_eq!(a.sku_code, "w-1");
    assert_ne!(a.id, b.id);
    let r = ProductResponse::from_product(p);
    assert_eq!(r.name, "Widget");
    assert_eq!(r.price, 42);
    assert_eq!(r.sku_code, "w-1");
}

#[test]
fn keys_and_pattern() {
    assert_eq!(product_key(ID_U128), format!("products:{ID}"));
    assert_eq!(products_pattern(), "products:*");
}

#[test]
fn seed_catalogue() {
    let v = seed_products();
    assert_eq!(v.len(), 3);
    assert_eq!(v[0].name, "iPhone 13");
    assert_eq!(v[0].description, "New iPhone");
    assert_eq!(v[0].price, 1000);
    assert_eq!(v[0].sku_code, "iphone_13");
    assert_eq!(v[1].name, "Samsung S23");
    assert_eq!(v[1].price, 800);
    assert_eq!(v[1].sku_code, "samsung_s23");
    assert_eq!(v[2].name, "Google Pixel 8");
    assert_eq!(v[2].price, 7000);
    assert_eq!(v[2].sku_code, "pixel_8");
}

#[test]
fn starting_on_an_empty_store_seeds_it() {
    let mut s = Service::new(());
    assert!(!s.started());
    let (step, action) = s.start();
    assert!(matches!(step, StartStep::CheckEmpty));
    assert!(matches!(action, StartAction::CheckEmpty));
    let (step, action) = s.start_step(step, StartEvent::IsEmpty(Ok(true)));
    let mut inserted = vec![];
    match action {
        StartAction::Insert(p) => inserted.push(p.sku_code),
        _ => panic!("expected an insert"),
    }
    let (step, action) = s.start_step(step, StartEvent::Inserted(Ok(())));
    match action {
        StartAction::Insert(p) => inserted.push(p.sku_code),
        _ => panic!("expected an insert"),
    }
    let (step, action) = s.start_step(step, StartEvent::Inserted(Ok(())));
    match action {
        StartAction::Insert(p) => inserted.push(p.sku_code),
        _ => panic!("expected an insert"),
    }
    assert!(!s.started());
    let (step, action) = s.start_step(step, StartEvent::Inserted(Ok(())));
    assert!(matches!(step, StartStep::Done));
    assert!(matches!(action, StartAction::Finish(Ok(()))));
    assert!(s.started());
    assert_eq!(inserted, vec!["iphone_13", "samsung_s23", "pixel_8"]);
}

#[test]
fn starting_on_a_filled_store_starts_at_once() {
    let mut s = Service::new(());
    let (step, _) = s.start();
    let (step, action) = s.start_step(step, StartEvent::IsEmpty(Ok(false)));
    assert!(matches!(step, StartStep::Done));
    assert!(matches!(action, StartAction::Finish(Ok(()))));
    assert!(s.started());
}

#[test]
fn a_store_failure_ends_starting() {
    let mut s = Service::new(());
    let (step, _) = s.start();
    let (_, action) = s.start_step(step, StartEvent::IsEmpty(Err(StoreError::Other("down".to_string()))));
    match action {
        StartAction::Finish(Err(StoreError::Other(m))) => assert_eq!(m, "down"),
        _ => panic!("expected the failure"),
    }
    assert!(!s.started());
}
