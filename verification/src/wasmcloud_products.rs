use vstd::prelude::*;
use crate::uuid_text::{parse_uuid, uuid_hyphenated, uuid_parsed, uuid_text};

verus! {

/// A product as the products interface carries it.
pub struct WitProduct {
    pub id: String,
    pub name: String,
    pub description: String,
    pub price: i32,
    pub sku_code: String,
}

/// A product as the products component stores it, identified by a UUID.
pub struct Product {
    pub id: u128,
    pub name: String,
    pub description: String,
    pub price: isize,
    pub sku_code: String,
}

/// The error of the products interface.
pub enum ServiceError {
    StoreError(String),
    Internal(String),
}

/// Whether `p` is `w` with its id parsed to `id`.
pub open spec fn same_product(p: Product, w: WitProduct) -> bool {
    &&& p.name@ == w.name@
    &&& p.description@ == w.description@
    &&& p.price == w.price as isize
    &&& p.sku_code@ == w.sku_code@
}

/// What `Product::try_from_wit` gives for an interface product: the id
/// parsed as a UUID with the other fields as they are, or the parser's
/// error text.
pub open spec fn stored_product(w: WitProduct, r: Result<Product, String>) -> bool {
    match r {
        Ok(p) => uuid_parsed(w.id@) == Ok::<u128, Seq<char>>(p.id) && same_product(p, w),
        Err(e) => uuid_parsed(w.id@) == Err::<u128, Seq<char>>(e@),
    }
}

/// What `Product::to_wit` gives: the id written out as a hyphenated UUID,
/// which parses back to it, and the price cut to 32 bits.
pub open spec fn wit_of(p: Product, w: WitProduct) -> bool {
    &&& w.id@ == uuid_hyphenated(p.id)
    &&& uuid_parsed(w.id@) == Ok::<u128, Seq<char>>(p.id)
    &&& w.name@ == p.name@
    &&& w.description@ == p.description@
    &&& w.price == p.price as i32
    &&& w.sku_code@ == p.sku_code@
}

/// A stored product handed out through the interface and taken back is the
/// same product, as long as its price fits in 32 bits.
pub proof fn lemma_wit_round_trip(p: Product, w: WitProduct, r: Result<Product, String>)
    requires
        wit_of(p, w),
        stored_product(w, r),
        i32::MIN <= p.price <= i32::MAX,
    ensures
        r matches Ok(q) && q.id == p.id && q.name@ == p.name@ && q.description@ == p.description@
            && q.price == p.price && q.sku_code@ == p.sku_code@,
{
}

impl Product {
    /// The stored product for an interface product; fails with the UUID
    /// parser's error text when the id is not a UUID.
    pub fn try_from_wit(value: WitProduct) -> (r: Result<Product, String>)
        ensures
            stored_product(value, r),
    {
        let ghost w = value;
        match parse_uuid(value.id.as_str()) {
            Ok(id) => Ok(Product {
                id,
                name: value.name,
                description: value.description,
                price: value.price as isize,
                sku_code: value.sku_code,
            }),
            Err(e) => Err(e),
        }
    }

    /// The interface product for a stored product: the id written out, the
    /// price cut to 32 bits.
    pub fn to_wit(self) -> (r: WitProduct)
        ensures
            wit_of(self, r),
    {
        WitProduct {
            id: uuid_text(self.id),
            name: self.name,
            description: self.description,
            price: self.price as i32,
            sku_code: self.sku_code,
        }
    }

    /// The key under which the product is stored: its UUID written out.
    pub fn store_key(&self) -> (r: String)
        ensures
            r@ == uuid_hyphenated(self.id),
    {
        uuid_text(self.id)
    }
}

/// The interface error for a store failure.
pub fn store_failure(text: &str) -> (r: ServiceError)
    ensures
        r matches ServiceError::StoreError(m) && m@ == "Keyvalue store error: "@ + text@,
{
    let mut m = String::from_str("Keyvalue store error: ");
    m.append(text);
    ServiceError::StoreError(m)
}

/// The interface error for an id that is not a UUID.
pub fn uuid_failure(text: &str) -> (r: ServiceError)
    ensures
        r matches ServiceError::Internal(m) && m@ == "Error parsing uuid: "@ + text@,
{
    let mut m = String::from_str("Error parsing uuid: ");
    m.append(text);
    ServiceError::Internal(m)
}

/// The interface error for a stored value that is not a product.
pub fn json_failure(text: &str) -> (r: ServiceError)
    ensures
        r matches ServiceError::Internal(m) && m@ == "Error parsing JSON: "@ + text@,
{
    let mut m = String::from_str("Error parsing JSON: ");
    m.append(text);
    ServiceError::Internal(m)
}

/// Creating a product through the interface: the stored product, or the
/// interface error for a malformed id.
pub fn create_product(product: WitProduct) -> (r: Result<Product, ServiceError>)
    ensures
        match r {
            Ok(p) => uuid_parsed(product.id@) == Ok::<u128, Seq<char>>(p.id) && same_product(p, product),
            Err(ServiceError::Internal(m)) => exists|e: Seq<char>|
                uuid_parsed(product.id@) == Err::<u128, Seq<char>>(e) && m@ == "Error parsing uuid: "@ + e,
            Err(ServiceError::StoreError(_)) => false,
        },
{
    match Product::try_from_wit(product) {
        Ok(p) => Ok(p),
        Err(e) => Err(uuid_failure(e.as_str())),
    }
}

/// The products stored when the component starts.
pub open spec fn starter(p: Product, id: Seq<char>, name: Seq<char>, description: Seq<char>, price: isize, sku: Seq<char>) -> bool {
    &&& uuid_parsed(id) == Ok::<u128, Seq<char>>(p.id)
    &&& p.name@ == name && p.description@ == description && p.price == price && p.sku_code@ == sku
}

fn starter_product(id: &str, name: &str, description: &str, price: isize, sku: &str) -> (r: Result<Product, ServiceError>)
    ensures
        match r {
            Ok(p) => starter(p, id@, name@, description@, price, sku@),
            Err(ServiceError::Internal(m)) => exists|e: Seq<char>|
                uuid_parsed(id@) == Err::<u128, Seq<char>>(e) && m@ == "Error parsing uuid: "@ + e,
            Err(ServiceError::StoreError(_)) => false,
        },
{
    match parse_uuid(id) {
        Ok(u) => Ok(Product {
            id: u,
            name: String::from_str(name),
            description: String::from_str(description),
            price,
            sku_code: String::from_str(sku),
        }),
        Err(e) => Err(uuid_failure(e.as_str())),
    }
}

/// The products stored when the component starts: a pound of chocolate
/// and a teddy bear under fixed ids.
pub fn starter_products() -> (r: Result<Vec<Product>, ServiceError>)
    ensures
        r matches Ok(v) ==> v@.len() == 2
            && starter(v@[0], "9d0b941c-6f52-432a-a736-d654db09a624"@, "Pound of chocolate"@,
                "Want a heart attack? It's a bargain too"@, 20, "nom_chocolate"@)
            && starter(v@[1], "829d96f5-131a-4f78-99f1-6b59c28af945"@, "Teddy bear"@,
                "To cuddle and fall asleep with"@, 1200, "teddy"@),
        r is Err ==> uuid_parsed("9d0b941c-6f52-432a-a736-d654db09a624"@) is Err
            || uuid_parsed("829d96f5-131a-4f78-99f1-6b59c28af945"@) is Err,
{
    let a = starter_product(
        "9d0b941c-6f52-432a-a736-d654db09a624",
        "Pound of chocolate",
        "Want a heart attack? It's a bargain too",
        20,
        "nom_chocolate",
    )?;
    let b = starter_product(
        "829d96f5-131a-4f78-99f1-6b59c28af945",
        "Teddy bear",
        "To cuddle and fall asleep with",
        1200,
        "teddy",
    )?;
    let mut v = Vec::new();
    v.push(a);
    v.push(b);
    Ok(v)
}

/// What the inventory interface reports of a SKU.
pub struct Availability {
    pub sku_code: i32,
    pub is_in_stock: bool,
}

/// The inventory of the given SKUs: every one is reported in stock.
pub fn get_inventory(sku_code: Vec<i32>) -> (r: Vec<Availability>)
    ensures
        r@.len() == sku_code@.len(),
        forall|k: int| 0 <= k < r@.len() ==> (#[trigger] r@[k]).sku_code == sku_code@[k] && r@[k].is_in_stock,
{
    let mut out: Vec<Availability> = Vec::new();
    let mut k: usize = 0;
    while k < sku_code.len()
        invariant
            k <= sku_code.len(),
            out@.len() == k,
            forall|j: int| 0 <= j < k ==> (#[trigger] out@[j]).sku_code == sku_code@[j] && out@[j].is_in_stock,
        decreases sku_code.len() - k,
    {
        out.push(Availability { sku_code: sku_code[k], is_in_stock: true });
        k = k + 1;
    }
    out
}

} // verus!
