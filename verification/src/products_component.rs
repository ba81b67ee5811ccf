use vstd::prelude::*;
use crate::controller::{shows_product, SerializableProduct};
use crate::shop_types::Product;
use crate::text::texts;
use crate::uuid_text::uuid_parsed;

verus! {

/// The error of the products interface, as this component raises it.
pub enum ProductsError {
    BadRequest(String),
}

/// What storing a new product takes: the key it goes under (its SKU) and
/// the product to store; or the refusal of a product whose id is not a
/// UUID, naming the parse error.
pub fn create_product(product: &Product) -> (r: Result<(String, SerializableProduct), ProductsError>)
    ensures
        match r {
            Ok((key, s)) => {
                &&& key@ == product.sku@
                &&& uuid_parsed(product.id@) == Ok::<u128, Seq<char>>(s.id)
                &&& shows_product(s, *product)
            },
            Err(ProductsError::BadRequest(m)) => exists|e: Seq<char>|
                uuid_parsed(product.id@) == Err::<u128, Seq<char>>(e)
                    && m@ == "PRODUCTS-SERVICE-CREATE-PRODUCT: malformed product: "@ + e,
        },
{
    match SerializableProduct::try_from(product) {
        Ok(s) => Ok((product.sku.clone(), s)),
        Err(e) => {
            let mut m = String::from_str("PRODUCTS-SERVICE-CREATE-PRODUCT: malformed product: ");
            m.append(e.as_str());
            Err(ProductsError::BadRequest(m))
        },
    }
}

/// The keys listed so far while paging through the store.
pub struct KeyListing {
    pub keys: Vec<String>,
}

impl KeyListing {
    /// Listing starts with no key and no cursor.
    pub fn new() -> (r: KeyListing)
        ensures
            r.keys@.len() == 0,
    {
        KeyListing { keys: Vec::new() }
    }

    /// Takes in one page of keys: they are added in order, and the next
    /// page is asked for with the page's cursor until there is none.
    pub fn add_page(&mut self, page: Vec<String>, cursor: Option<u64>) -> (r: Option<u64>)
        ensures
            texts(final(self).keys@) == texts(old(self).keys@) + texts(page@),
            r == cursor,
    {
        let mut page = page;
        let ghost before = self.keys@;
        let ghost added = page@;
        self.keys.append(&mut page);
        assert(texts(self.keys@) =~= texts(before) + texts(added));
        cursor
    }
}

} // verus!
