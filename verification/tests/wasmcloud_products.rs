use platform_poc::wasmcloud_products::{
    create_product, get_inventory, json_failure, starter_products, store_failure, uuid_failure, Product,
    ServiceError, WitProduct,
};

const ID: &str = "9d0b941c-6f52-432a-a736-d654db09a624";
const ID_U128: u128 = 0x9d0b941c_6f52_432a_a736_d654db09a624;

fn wit(id: &str) -> WitProduct {
    WitProduct {
        id: id.to_string(),
        name: "n".to_string(),
        description: "d".to_string(),
        price: -3,
        sku_code: "s".to_string(),
    }
}

#[test]
fn converts_interface_products() {
    let p = Product::try_from_wit(wit(ID)).unwrap();
    assert_eq!(p.id, ID_U128);
    assert_eq!(p.price, -3);
    assert_eq!(p.store_key(), ID);
    let w = p.to_wit();
    assert_eq!(w.id, ID);
    assert_eq!(w.name, "n");
    assert_eq!(w.price, -3);
    assert!(Product::try_from_wit(wit("bad")).is_err());
}

#[test]
fn to_wit_cuts_the_price_to_32_bits() {
    let p = Product {
        id: 1,
        name: String::new(),
        description: String::new(),
        price: (1isize << 32) + 5,
        sku_code: String::new(),
    };
    assert_eq!(p.to_wit().price, 5);
}

#[test]
fn creates_or_refuses() {
    assert_eq!(create_product(wit(ID)).ok().map(|p| p.id), Some(ID_U128));
    match create_product(wit("bad")) {
        Err(ServiceError::Internal(m)) => assert!(m.starts_with("Error parsing uuid: ")),
        _ => panic!("expected a uuid failure"),
    }
}

#[test]
fn error_texts() {
    assert!(matches!(store_failure("x"), ServiceError::StoreError(m) if m == "Keyvalue store error: x"));
    assert!(matches!(uuid_failure("x"), ServiceError::Internal(m) if m == "Error parsing uuid: x"));
    assert!(matches!(json_failure("x"), ServiceError::Internal(m) if m == "Error parsing JSON: x"));
}

#[test]
fn starter_catalogue() {
    let v = starter_products().ok().unwrap();
    assert_eq!(v.len(), 2);
    assert_eq!(v[0].id, ID_U128);
    assert_eq!(v[0].name, "Pound of chocolate");
    assert_eq!(v[0].price, 20);
    assert_eq!(v[0].sku_code, "nom_chocolate");
    assert_eq!(v[1].name, "Teddy bear");
    assert_eq!(v[1].price, 1200);
    assert_eq!(v[1].sku_code, "teddy");
}

#[test]
fn every_sku_is_in_stock() {
    let v = get_inventory(vec![3, 1, 3]);
    assert_eq!(v.len(), 3);
    assert_eq!(v[0].sku_code, 3);
    assert_eq!(v[1].sku_code, 1);
    assert!(v.iter().all(|a| a.is_in_stock));
    assert!(get_inventory(vec![]).is_empty());
}

#[test]
fn a_stored_product_survives_the_interface() {
    let p = Product {
        id: ID_U128,
        name: "Teddy bear".to_string(),
        description: "fluffy".to_string(),
        price: 1200,
        sku_code: "teddy".to_string(),
    };
    let q = Product::try_from_wit(p.to_wit()).unwrap();
    assert_eq!(q.id, ID_U128);
    assert_eq!(q.name, "Teddy bear");
    assert_eq!(q.description, "fluffy");
    assert_eq!(q.price, 1200);
    assert_eq!(q.sku_code, "teddy");
}
