use vstd::prelude::*;
use crate::controller::Method;
use crate::shop_types::{text_is, Product};

verus! {

/// What the products-only HTTP server does with a request.
pub enum LegacyPlan {
    /// List the products and answer them as JSON with 200.
    ListProducts,
    /// Read the body as a product, create it, and answer 201 `Created`.
    CreateProduct,
    /// Answer at once with this status and body.
    Respond(u16, String),
}

/// The work for a request target and method: only the exact target
/// `/products` is served, by GET and POST.
pub fn legacy_plan(path_with_query: &str, method: Method) -> (r: LegacyPlan)
    ensures
        if path_with_query@ == "/products"@ {
            match method {
                Method::Get => r == LegacyPlan::ListProducts,
                Method::Post => r == LegacyPlan::CreateProduct,
                Method::Other => r matches LegacyPlan::Respond(code, body) && code == 405
                    && body@ == "405 Method Not Allowed\n"@,
            }
        } else {
            r matches LegacyPlan::Respond(code, body) && code == 404 && body@ == "404 Not Found\n"@
        },
{
    if String::from_str(path_with_query) == String::from_str("/products") {
        match method {
            Method::Get => LegacyPlan::ListProducts,
            Method::Post => LegacyPlan::CreateProduct,
            Method::Other => LegacyPlan::Respond(405, String::from_str("405 Method Not Allowed\n")),
        }
    } else {
        LegacyPlan::Respond(404, String::from_str("404 Not Found\n"))
    }
}

/// The body of the reply to a created product.
pub fn legacy_created() -> (r: (u16, String))
    ensures
        r.0 == 201,
        r.1@ == "Created"@,
{
    (201, String::from_str("Created"))
}

/// The fields of a product in its JSON form.
pub enum ProductField {
    Id,
    Name,
    Description,
    Price,
    Sku,
}

/// The JSON name of a field.
pub fn field_name(f: &ProductField) -> (r: &'static str)
    ensures
        r@ == field_text(*f),
{
    match f {
        ProductField::Id => "id",
        ProductField::Name => "name",
        ProductField::Description => "description",
        ProductField::Price => "price",
        ProductField::Sku => "sku",
    }
}

pub open spec fn field_text(f: ProductField) -> Seq<char> {
    match f {
        ProductField::Id => "id"@,
        ProductField::Name => "name"@,
        ProductField::Description => "description"@,
        ProductField::Price => "price"@,
        ProductField::Sku => "sku"@,
    }
}

/// The field a JSON key names, or `None` for a key that names none (such
/// a key makes the object no product).
pub fn field_of(key: &str) -> (r: Option<ProductField>)
    ensures
        forall|f: ProductField| r == Some(f) <==> key@ == field_text(f),
{
    proof {
        reveal_strlit("id");
        reveal_strlit("name");
        reveal_strlit("description");
        reveal_strlit("price");
        reveal_strlit("sku");
    }
    let k = String::from_str(key);
    let r = if text_is(&k, "id") {
        Some(ProductField::Id)
    } else if text_is(&k, "name") {
        Some(ProductField::Name)
    } else if text_is(&k, "description") {
        Some(ProductField::Description)
    } else if text_is(&k, "price") {
        Some(ProductField::Price)
    } else if text_is(&k, "sku") {
        Some(ProductField::Sku)
    } else {
        None
    };
    assert("id"@.len() == 2 && "name"@.len() == 4 && "description"@.len() == 11 && "price"@.len() == 5 && "sku"@.len() == 3);
    assert("id"@ != "name"@ && "id"@ != "description"@ && "id"@ != "price"@ && "id"@ != "sku"@);
    assert("name"@ != "description"@ && "name"@ != "price"@ && "name"@ != "sku"@);
    assert("description"@ != "price"@ && "description"@ != "sku"@ && "price"@ != "sku"@);
    assert forall|f: ProductField| r == Some(f) <==> key@ == field_text(f) by {
        match f {
            ProductField::Id => {},
            ProductField::Name => {},
            ProductField::Description => {},
            ProductField::Price => {},
            ProductField::Sku => {},
        }
    }
    r
}

/// Why a JSON object is not a product.
pub enum FieldError {
    Duplicate(ProductField),
    Missing(ProductField),
}

/// The fields of a product read so far from a JSON object.
pub struct ProductDraft {
    pub id: Option<String>,
    pub name: Option<String>,
    pub description: Option<String>,
    pub price: Option<i32>,
    pub sku: Option<String>,
}

/// Whether the draft already holds a field.
pub open spec fn holds(d: ProductDraft, f: ProductField) -> bool {
    match f {
        ProductField::Id => d.id is Some,
        ProductField::Name => d.name is Some,
        ProductField::Description => d.description is Some,
        ProductField::Price => d.price is Some,
        ProductField::Sku => d.sku is Some,
    }
}

impl ProductDraft {
    /// A draft with no field read.
    pub fn new() -> (r: ProductDraft)
        ensures
            r.id is None && r.name is None && r.description is None && r.price is None && r.sku is None,
    {
        ProductDraft { id: None, name: None, description: None, price: None, sku: None }
    }

    /// Before a field's value is read: a field seen twice is refused.
    pub fn check_field(&self, f: ProductField) -> (r: Result<(), FieldError>)
        ensures
            r is Ok <==> !holds(*self, f),
            r matches Err(e) ==> e == FieldError::Duplicate(f),
    {
        let seen = match f {
            ProductField::Id => self.id.is_some(),
            ProductField::Name => self.name.is_some(),
            ProductField::Description => self.description.is_some(),
            ProductField::Price => self.price.is_some(),
            ProductField::Sku => self.sku.is_some(),
        };
        if seen {
            Err(FieldError::Duplicate(f))
        } else {
            Ok(())
        }
    }

    /// The product, once every field is read; the first missing field, in
    /// the order id, name, description, price, sku, is reported otherwise.
    pub fn finish(self) -> (r: Result<Product, FieldError>)
        ensures
            r is Ok <==> (self.id is Some && self.name is Some && self.description is Some && self.price is Some
                && self.sku is Some),
            match r {
                Ok(p) => {
                    &&& self.id == Some(p.id)
                    &&& self.name == Some(p.name)
                    &&& self.description == Some(p.description)
                    &&& self.price == Some(p.price)
                    &&& self.sku == Some(p.sku)
                },
                Err(e) => e == if self.id is None {
                    FieldError::Missing(ProductField::Id)
                } else if self.name is None {
                    FieldError::Missing(ProductField::Name)
                } else if self.description is None {
                    FieldError::Missing(ProductField::Description)
                } else if self.price is None {
                    FieldError::Missing(ProductField::Price)
                } else {
                    FieldError::Missing(ProductField::Sku)
                },
            },
    {
        let id = match self.id {
            Some(v) => v,
            None => return Err(FieldError::Missing(ProductField::Id)),
        };
        let name = match self.name {
            Some(v) => v,
            None => return Err(FieldError::Missing(ProductField::Name)),
        };
        let description = match self.description {
            Some(v) => v,
            None => return Err(FieldError::Missing(ProductField::Description)),
        };
        let price = match self.price {
            Some(v) => v,
            None => return Err(FieldError::Missing(ProductField::Price)),
        };
        let sku = match self.sku {
            Some(v) => v,
            None => return Err(FieldError::Missing(ProductField::Sku)),
        };
        Ok(Product { id, name, description, price, sku })
    }
}

} // verus!
