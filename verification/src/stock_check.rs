use vstd::prelude::*;

verus! {

/// The query of an inventory request: the SKU codes asked about.
pub struct InventoryQueryParams {
    pub sku_code: Vec<String>,
}

/// The answer about one SKU.
pub struct GetInventoryResponse {
    pub is_in_stock: bool,
    pub sku_code: String,
}

/// Whether the stored row for a SKU shows stock: a row must exist and hold
/// a quantity above zero.
pub open spec fn in_stock(row: Option<Option<i32>>) -> bool {
    match row {
        Some(Some(q)) => q > 0,
        _ => false,
    }
}

/// The answer for one SKU given its stored quantity row, if any.
pub fn inventory_entry(sku_code: String, row: Option<Option<i32>>) -> (r: GetInventoryResponse)
    ensures
        r.sku_code@ == sku_code@,
        r.is_in_stock == in_stock(row),
{
    let is_in_stock = match row {
        Some(Some(q)) => q > 0,
        _ => false,
    };
    GetInventoryResponse { sku_code, is_in_stock }
}

/// The answers for all SKUs of a query, given the stored row of each, in
/// the query's order.
pub fn inventory_answers(params: InventoryQueryParams, rows: Vec<Option<Option<i32>>>) -> (r: Vec<GetInventoryResponse>)
    requires
        rows@.len() == params.sku_code@.len(),
    ensures
        r@.len() == params.sku_code@.len(),
        forall|k: int|
            0 <= k < r@.len() ==> (#[trigger] r@[k]).sku_code@ == params.sku_code@[k]@
                && r@[k].is_in_stock == in_stock(rows@[k]),
{
    let skus = params.sku_code;
    let mut out: Vec<GetInventoryResponse> = Vec::new();
    let mut k: usize = 0;
    while k < skus.len()
        invariant
            k <= skus.len(),
            skus@ == params.sku_code@,
            rows@.len() == skus@.len(),
            out@.len() == k,
            forall|j: int|
                0 <= j < k ==> (#[trigger] out@[j]).sku_code@ == skus@[j]@ && out@[j].is_in_stock
                    == in_stock(rows@[j]),
        decreases skus.len() - k,
    {
        out.push(inventory_entry(skus[k].clone(), rows[k]));
        k = k + 1;
    }
    out
}

} // verus!
