use vstd::prelude::*;
use crate::shop_types::{availability_views, text_is, Availability, AvailabilityView, PgValue, ResultRowEntry};

verus! {

impl Default for Availability {
    fn default() -> (r: Availability)
        ensures
            r.sku@ == Seq::<char>::empty(),
            !r.is_in_stock,
    {
        Availability { sku: String::new(), is_in_stock: false }
    }
}

/// The statement that looks up one SKU.
pub fn inventory_query() -> (r: String)
    ensures
        r@ == "SELECT sku, quantity FROM inventory.t_inventory WHERE sku = $1"@,
{
    String::from_str("SELECT sku, quantity FROM inventory.t_inventory WHERE sku = $1")
}

/// What one cell contributes to an availability: the `sku` cell sets the
/// SKU (empty when it is not text), the `quantity` cell sets whether the
/// quantity is a positive 4-byte integer; other cells are ignored.
pub open spec fn apply_stock_cell(a: AvailabilityView, e: ResultRowEntry) -> AvailabilityView {
    if e.column_name@ == "sku"@ {
        AvailabilityView {
            sku: match e.value {
                PgValue::Text(s) => s@,
                _ => Seq::empty(),
            },
            ..a
        }
    } else if e.column_name@ == "quantity"@ {
        AvailabilityView {
            is_in_stock: match e.value {
                PgValue::Int4(q) => q > 0,
                _ => false,
            },
            ..a
        }
    } else {
        a
    }
}

/// The availability a row describes: its cells applied in order to an
/// empty availability.
pub open spec fn stock_of_row(cells: Seq<ResultRowEntry>) -> AvailabilityView
    decreases cells.len(),
{
    if cells.len() == 0 {
        AvailabilityView { sku: Seq::empty(), is_in_stock: false }
    } else {
        apply_stock_cell(stock_of_row(cells.drop_last()), cells.last())
    }
}

/// What a row says of stock is decided by its last `quantity` cell alone:
/// the availability is in stock exactly when that cell holds a 4-byte
/// integer above zero, however large; and its SKU is the text of its last
/// `sku` cell (empty when that cell is not text).
pub proof fn lemma_stock_reads_last_cells(cells: Seq<ResultRowEntry>, qi: int, si: int)
    requires
        0 <= qi < cells.len(),
        cells[qi].column_name@ == "quantity"@,
        forall|j: int| qi < j < cells.len() ==> (#[trigger] cells[j]).column_name@ != "quantity"@,
        0 <= si < cells.len(),
        cells[si].column_name@ == "sku"@,
        forall|j: int| si < j < cells.len() ==> (#[trigger] cells[j]).column_name@ != "sku"@,
    ensures
        stock_of_row(cells).is_in_stock <==> (cells[qi].value matches PgValue::Int4(q) && q > 0),
        stock_of_row(cells).sku == match cells[si].value {
            PgValue::Text(t) => t@,
            _ => Seq::<char>::empty(),
        },
    decreases cells.len(),
{
    reveal_strlit("quantity");
    reveal_strlit("sku");
    assert("quantity"@ != "sku"@) by {
        assert("quantity"@.len() != "sku"@.len());
    }
    let n = cells.len() - 1;
    let prev = cells.drop_last();
    if qi < n && si < n {
        assert forall|j: int| qi < j < prev.len() implies (#[trigger] prev[j]).column_name@ != "quantity"@ by {
            assert(prev[j] == cells[j]);
        }
        assert forall|j: int| si < j < prev.len() implies (#[trigger] prev[j]).column_name@ != "sku"@ by {
            assert(prev[j] == cells[j]);
        }
        lemma_stock_reads_last_cells(prev, qi, si);
        assert(cells[n].column_name@ != "quantity"@);
        assert(cells[n].column_name@ != "sku"@);
    } else if qi == n {
        assert(si != n);
        assert forall|j: int| si < j < prev.len() implies (#[trigger] prev[j]).column_name@ != "sku"@ by {
            assert(prev[j] == cells[j]);
        }
        lemma_stock_sku(prev, si);
    } else {
        assert(qi != n);
        assert forall|j: int| qi < j < prev.len() implies (#[trigger] prev[j]).column_name@ != "quantity"@ by {
            assert(prev[j] == cells[j]);
        }
        lemma_stock_quantity(prev, qi);
    }
}

proof fn lemma_stock_sku(cells: Seq<ResultRowEntry>, si: int)
    requires
        0 <= si < cells.len(),
        cells[si].column_name@ == "sku"@,
        forall|j: int| si < j < cells.len() ==> (#[trigger] cells[j]).column_name@ != "sku"@,
    ensures
        stock_of_row(cells).sku == match cells[si].value {
            PgValue::Text(t) => t@,
            _ => Seq::<char>::empty(),
        },
    decreases cells.len(),
{
    let n = cells.len() - 1;
    let prev = cells.drop_last();
    if si < n {
        assert forall|j: int| si < j < prev.len() implies (#[trigger] prev[j]).column_name@ != "sku"@ by {
            assert(prev[j] == cells[j]);
        }
        lemma_stock_sku(prev, si);
        assert(cells[n].column_name@ != "sku"@);
    }
}

proof fn lemma_stock_quantity(cells: Seq<ResultRowEntry>, qi: int)
    requires
        0 <= qi < cells.len(),
        cells[qi].column_name@ == "quantity"@,
        forall|j: int| qi < j < cells.len() ==> (#[trigger] cells[j]).column_name@ != "quantity"@,
    ensures
        stock_of_row(cells).is_in_stock <==> (cells[qi].value matches PgValue::Int4(q) && q > 0),
    decreases cells.len(),
{
    reveal_strlit("quantity");
    reveal_strlit("sku");
    assert("quantity"@ != "sku"@) by {
        assert("quantity"@.len() != "sku"@.len());
    }
    let n = cells.len() - 1;
    let prev = cells.drop_last();
    if qi < n {
        assert forall|j: int| qi < j < prev.len() implies (#[trigger] prev[j]).column_name@ != "quantity"@ by {
            assert(prev[j] == cells[j]);
        }
        lemma_stock_quantity(prev, qi);
        assert(cells[n].column_name@ != "quantity"@);
    }
}

/// A row without a `quantity` cell is out of stock.
pub proof fn lemma_stock_needs_quantity(cells: Seq<ResultRowEntry>)
    requires
        forall|j: int| 0 <= j < cells.len() ==> (#[trigger] cells[j]).column_name@ != "quantity"@,
    ensures
        !stock_of_row(cells).is_in_stock,
    decreases cells.len(),
{
    if cells.len() > 0 {
        let prev = cells.drop_last();
        assert forall|j: int| 0 <= j < prev.len() implies (#[trigger] prev[j]).column_name@ != "quantity"@ by {
            assert(prev[j] == cells[j]);
        }
        lemma_stock_needs_quantity(prev);
        assert(cells[cells.len() - 1].column_name@ != "quantity"@);
    }
}

/// Reads an availability out of a result row.
pub fn availability_of_row(cells: &Vec<ResultRowEntry>) -> (r: Availability)
    ensures
        r@ == stock_of_row(cells@),
{
    let mut acc = Availability::default();
    let mut k: usize = 0;
    assert(cells@.take(0) =~= Seq::<ResultRowEntry>::empty());
    while k < cells.len()
        invariant
            k <= cells.len(),
            acc@ == stock_of_row(cells@.take(k as int)),
        decreases cells.len() - k,
    {
        let e = &cells[k];
        assert(cells@.take(k + 1).drop_last() =~= cells@.take(k as int));
        if text_is(&e.column_name, "sku") {
            acc.sku = match &e.value {
                PgValue::Text(s) => s.clone(),
                _ => String::new(),
            };
        } else if text_is(&e.column_name, "quantity") {
            acc.is_in_stock = match &e.value {
                PgValue::Int4(q) => *q > 0,
                _ => false,
            };
        }
        k = k + 1;
    }
    assert(cells@.take(cells.len() as int) =~= cells@);
    acc
}

/// The availabilities the lookups give: one per SKU whose lookup returned
/// a row, read from the first row; SKUs without a row are left out.
pub open spec fn inventory_of(results: Seq<Vec<Vec<ResultRowEntry>>>) -> Seq<AvailabilityView>
    decreases results.len(),
{
    if results.len() == 0 {
        Seq::empty()
    } else {
        let p = inventory_of(results.drop_last());
        if results.last()@.len() == 0 {
            p
        } else {
            p.push(stock_of_row(results.last()@[0]@))
        }
    }
}

/// The availabilities for the lookup results of the SKUs, in SKU order.
pub fn inventory_from_results(results: &Vec<Vec<Vec<ResultRowEntry>>>) -> (r: Vec<Availability>)
    ensures
        availability_views(r@) == inventory_of(results@),
{
    let mut out: Vec<Availability> = Vec::new();
    let mut k: usize = 0;
    assert(results@.take(0) =~= Seq::<Vec<Vec<ResultRowEntry>>>::empty());
    while k < results.len()
        invariant
            k <= results.len(),
            availability_views(out@) == inventory_of(results@.take(k as int)),
        decreases results.len() - k,
    {
        assert(results@.take(k + 1).drop_last() =~= results@.take(k as int));
        assert(results@.take(k + 1).last() == results@[k as int]);
        if results[k].len() > 0 {
            let a = availability_of_row(&results[k][0]);
            let ghost before = out@;
            out.push(a);
            assert(availability_views(out@) =~= availability_views(before).push(a@));
        }
        k = k + 1;
    }
    assert(results@.take(results.len() as int) =~= results@);
    out
}

} // verus!
