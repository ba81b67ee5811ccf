use vstd::prelude::*;
use crate::text::{decimal, decimal_text};
use crate::uuid_text::{parse_uuid, uuid_hyphenated, uuid_parsed, uuid_text};

verus! {

#[verifier::external_type_specification]
#[verifier::external_body]
pub struct ExBigDecimal(bigdecimal::BigDecimal);

/// Calls `BigDecimal::from(0)`. The value is opaque here: nothing is
/// stated of it.
#[verifier::external_body]
fn decimal_zero() -> (r: bigdecimal::BigDecimal) {
    bigdecimal::BigDecimal::from(0)
}

/// One answer of the inventory service.
pub struct InventoryResponse {
    pub sku_code: String,
    pub is_in_stock: bool,
}

/// Whether every answer reports its product in stock.
pub open spec fn all_in_stock(r: Seq<InventoryResponse>) -> bool {
    forall|k: int| 0 <= k < r.len() ==> (#[trigger] r[k]).is_in_stock
}

pub fn check_stock(r: &Vec<InventoryResponse>) -> (b: bool)
    ensures
        b == all_in_stock(r@),
{
    let mut k: usize = 0;
    while k < r.len()
        invariant
            k <= r.len(),
            forall|j: int| 0 <= j < k ==> (#[trigger] r@[j]).is_in_stock,
        decreases r.len() - k,
    {
        if !r[k].is_in_stock {
            return false;
        }
        k = k + 1;
    }
    true
}

/// The query pairs that ask the inventory service about the SKUs: one
/// `skuCode` pair per SKU, in order.
pub fn inventory_query(skus: &Vec<String>) -> (r: Vec<(String, String)>)
    ensures
        r@.len() == skus@.len(),
        forall|k: int|
            0 <= k < skus@.len() ==> (#[trigger] r@[k]).0@ == "skuCode"@ && r@[k].1@ == skus@[k]@,
{
    let mut out: Vec<(String, String)> = Vec::new();
    let mut k: usize = 0;
    while k < skus.len()
        invariant
            k <= skus.len(),
            out@.len() == k,
            forall|j: int| 0 <= j < k ==> (#[trigger] out@[j]).0@ == "skuCode"@ && out@[j].1@ == skus@[j]@,
        decreases skus.len() - k,
    {
        out.push((String::from_str("skuCode"), skus[k].clone()));
        k = k + 1;
    }
    out
}

/// A line item row as the orders query returns it.
pub struct DbLineItem {
    pub order_id: i64,
    pub order_number: Option<String>,
    pub item_id: i64,
    pub sku_code: Option<String>,
    pub price: Option<bigdecimal::BigDecimal>,
    pub quantity: Option<i32>,
}

/// A stored line item.
pub struct LineItem {
    pub id: Option<i64>,
    pub sku: String,
    pub price: bigdecimal::BigDecimal,
    pub quantity: i32,
}

/// A stored order, numbered by a UUID.
pub struct Order {
    pub id: Option<i64>,
    pub order_number: u128,
    pub line_items: Vec<LineItem>,
}

pub open spec fn text_or_empty(t: Option<String>) -> Seq<char> {
    match t {
        Some(s) => s@,
        None => Seq::empty(),
    }
}

/// Whether a line item is the one a row describes: the row's item id, its
/// SKU (empty when absent), its quantity (zero when absent) and, when the
/// row has one, its price.
pub open spec fn line_of_row(l: LineItem, row: DbLineItem) -> bool {
    &&& l.id == Some(row.item_id)
    &&& l.sku@ == text_or_empty(row.sku_code)
    &&& l.quantity == match row.quantity {
        Some(q) => q,
        None => 0i32,
    }
    &&& row.price is Some ==> l.price == row.price->Some_0
}

impl LineItem {
    /// The line item a row describes.
    pub fn from_row(item: DbLineItem) -> (r: LineItem)
        ensures
            line_of_row(r, item),
    {
        let ghost row = item;
        let sku = match item.sku_code {
            Some(s) => s,
            None => String::new(),
        };
        let price = match item.price {
            Some(p) => p,
            None => decimal_zero(),
        };
        let quantity = match item.quantity {
            Some(q) => q,
            None => 0,
        };
        LineItem { id: Some(item.item_id), sku, price, quantity }
    }
}

/// The scan of the rows that the listing makes: which rows open an order
/// (a row opens one unless the number of the order opened last, written
/// out, equals the row's number text), the number of the order opened
/// last, and whether every opening row's number parsed as a UUID.
pub open spec fn scan_rows(rows: Seq<DbLineItem>) -> (Seq<int>, Option<u128>, bool)
    decreases rows.len(),
{
    if rows.len() == 0 {
        (Seq::empty(), None, true)
    } else {
        let (starts, current, ok) = scan_rows(rows.drop_last());
        let text = text_or_empty(rows.last().order_number);
        if current is Some && uuid_hyphenated(current->Some_0) == text {
            (starts, current, ok)
        } else {
            match uuid_parsed(text) {
                Ok(n) => (starts.push(rows.len() - 1), Some(n), ok),
                Err(_) => (starts.push(rows.len() - 1), None, false),
            }
        }
    }
}

/// Whether the listing of these rows succeeds: every row that opens an
/// order carries a parsable UUID.
pub open spec fn rows_parse(rows: Seq<DbLineItem>) -> bool {
    scan_rows(rows).2
}

/// Whether `o` is the order that opening row `row` produces.
pub open spec fn order_of_row(o: Order, row: DbLineItem) -> bool {
    &&& o.id == Some(row.order_id)
    &&& uuid_parsed(text_or_empty(row.order_number)) == Ok::<u128, Seq<char>>(o.order_number)
    &&& o.line_items@.len() == 1
    &&& line_of_row(o.line_items@[0], row)
}

proof fn lemma_scan_starts(rows: Seq<DbLineItem>)
    ensures
        forall|i: int| 0 <= i < scan_rows(rows).0.len() ==> 0 <= #[trigger] scan_rows(rows).0[i] < rows.len(),
        forall|i: int, j: int| 0 <= i < j < scan_rows(rows).0.len() ==> scan_rows(rows).0[i] < scan_rows(rows).0[j],
    decreases rows.len(),
{
    if rows.len() > 0 {
        let prefix = rows.drop_last();
        lemma_scan_starts(prefix);
        let s0 = scan_rows(prefix).0;
        let s1 = scan_rows(rows).0;
        if s1.len() > s0.len() {
            assert(s1 =~= s0.push(rows.len() - 1));
            assert forall|i: int, j: int| 0 <= i < j < s1.len() implies s1[i] < s1[j] by {
                if j == s0.len() {
                    assert(s0[i] < prefix.len());
                }
            }
        }
    }
}

/// Whether an order number text is in the form the service writes numbers
/// in: it parses as a UUID whose hyphenated lower-case text is the text
/// itself.
pub open spec fn canonical_number(t: Seq<char>) -> bool {
    uuid_parsed(t) is Ok && uuid_hyphenated(uuid_parsed(t)->Ok_0) == t
}

proof fn lemma_push_contains_int(s: Seq<int>, x: int, k: int)
    ensures
        s.push(x).contains(k) <==> s.contains(k) || k == x,
{
    if s.push(x).contains(k) {
        let j = choose|j: int| 0 <= j < s.push(x).len() && s.push(x)[j] == k;
        if j < s.len() {
            assert(s[j] == k);
        }
    }
    if s.contains(k) {
        let j = choose|j: int| 0 <= j < s.len() && s[j] == k;
        assert(s.push(x)[j] == k);
    }
    if k == x {
        assert(s.push(x)[s.len() as int] == k);
    }
}

/// Listing rows whose numbers are written in the service's own form never
/// fails, and a row opens a new order exactly when it is the first row or
/// its order number differs from the number of the row before it: each run
/// of rows with equal numbers gives one order.
pub proof fn lemma_listing_opens_on_change(rows: Seq<DbLineItem>)
    requires
        forall|i: int| 0 <= i < rows.len() ==> canonical_number(#[trigger] text_or_empty(rows[i].order_number)),
    ensures
        rows_parse(rows),
        forall|k: int|
            0 <= k < rows.len() ==> (scan_rows(rows).0.contains(k) <==> (k == 0 || text_or_empty(
                rows[k].order_number,
            ) != text_or_empty(rows[k - 1].order_number))),
{
    lemma_scan_canonical(rows, rows.len() as int);
    assert(rows.take(rows.len() as int) =~= rows);
}

proof fn lemma_scan_canonical(rows: Seq<DbLineItem>, k: int)
    requires
        0 <= k <= rows.len(),
        forall|i: int| 0 <= i < rows.len() ==> canonical_number(#[trigger] text_or_empty(rows[i].order_number)),
    ensures
        scan_rows(rows.take(k)).2,
        k == 0 ==> scan_rows(rows.take(k)).1 is None,
        k > 0 ==> (scan_rows(rows.take(k)).1 matches Some(n) && uuid_hyphenated(n) == text_or_empty(
            rows[k - 1].order_number,
        )),
        forall|j: int| #[trigger] scan_rows(rows.take(k)).0.contains(j) ==> 0 <= j < k,
        forall|j: int|
            0 <= j < k ==> (#[trigger] scan_rows(rows.take(k)).0.contains(j) <==> (j == 0 || text_or_empty(
                rows[j].order_number,
            ) != text_or_empty(rows[j - 1].order_number))),
    decreases k,
{
    if k == 0 {
        assert(rows.take(0) =~= Seq::<DbLineItem>::empty());
        assert forall|j: int| #[trigger] scan_rows(rows.take(k)).0.contains(j) implies 0 <= j < k by {
            assert(scan_rows(rows.take(k)).0 =~= Seq::<int>::empty());
        }
    } else {
        let i = k - 1;
        lemma_scan_canonical(rows, i);
        let pre = rows.take(i);
        let full = rows.take(k);
        assert(full.drop_last() =~= pre);
        assert(full.last() == rows[i]);
        let t = text_or_empty(rows[i].order_number);
        assert(canonical_number(t));
        let s0 = scan_rows(pre).0;
        let s1 = scan_rows(full).0;
        assert forall|j: int| #[trigger] s1.contains(j) implies 0 <= j < k by {
            lemma_push_contains_int(s0, i, j);
        }
        assert forall|j: int|
            0 <= j < k implies (#[trigger] s1.contains(j) <==> (j == 0 || text_or_empty(rows[j].order_number)
                != text_or_empty(rows[j - 1].order_number))) by {
            lemma_push_contains_int(s0, i, j);
            if j == i && i > 0 {
                assert(scan_rows(pre).1 matches Some(n) && uuid_hyphenated(n) == text_or_empty(rows[i - 1].order_number));
            }
        }
    }
}

/// Whether the rows are well-formed enough to list: every opening row's
/// number parses.
pub fn rows_parse_check(rows: &Vec<DbLineItem>) -> (b: bool)
    ensures
        b == rows_parse(rows@),
{
    let mut current: Option<u128> = None;
    let mut k: usize = 0;
    while k < rows.len()
        invariant
            k <= rows.len(),
            scan_rows(rows@.take(k as int)).1 == current,
            scan_rows(rows@.take(k as int)).2,
        decreases rows.len() - k,
    {
        let ghost pre = rows@.take(k as int);
        assert(rows@.take(k + 1).drop_last() =~= pre);
        let text = match &rows[k].order_number {
            Some(s) => s.clone(),
            None => String::new(),
        };
        let same = match current {
            Some(c) => uuid_text(c) == text,
            None => false,
        };
        if !same {
            match parse_uuid(text.as_str()) {
                Ok(n) => {
                    current = Some(n);
                },
                Err(_) => {
                    proof {
                        let mut m = k + 1;
                        assert(!scan_rows(rows@.take(m as int)).2);
                        lemma_scan_false_stays(rows@, (k + 1) as int);
                        assert(rows@.take(rows@.len() as int) =~= rows@);
                    }
                    return false;
                },
            }
        }
        k = k + 1;
    }
    assert(rows@.take(rows@.len() as int) =~= rows@);
    true
}

proof fn lemma_scan_false_stays(rows: Seq<DbLineItem>, k: int)
    requires
        0 <= k <= rows.len(),
        !scan_rows(rows.take(k)).2,
    ensures
        !scan_rows(rows).2,
    decreases rows.len() - k,
{
    if k < rows.len() {
        assert(rows.take(k + 1).drop_last() =~= rows.take(k));
        lemma_scan_false_stays(rows, k + 1);
    } else {
        assert(rows.take(k) =~= rows);
    }
}

/// Lists the orders of the line item rows as the service does: each row
/// that opens an order (see `scan_rows`) becomes an order holding that row's
/// line; a row that continues the order opened last adds nothing to the
/// listing.
pub fn group_line_items(rows: Vec<DbLineItem>) -> (r: Vec<Order>)
    requires
        rows_parse(rows@),
    ensures
        r@.len() == scan_rows(rows@).0.len(),
        forall|i: int|
            0 <= i < r@.len() ==> order_of_row(#[trigger] r@[i], rows@[scan_rows(rows@).0[i]]),
{
    let ghost all = rows@;
    let n = rows.len();
    assert(all.len() == n);
    let mut rest = rows;
    let mut orders: Vec<Order> = Vec::new();
    let mut current: Option<u128> = None;
    let mut k: usize = 0;
    proof {
        assert(all.take(0) =~= Seq::<DbLineItem>::empty());
        assert(all.skip(0) =~= all);
        lemma_scan_parse_prefixes(all, all.len() as int);
    }
    while rest.len() > 0
        invariant
            k + rest@.len() == all.len(),
            all.len() <= usize::MAX,
            rest@ == all.skip(k as int),
            rows_parse(all),
            forall|m: int| 0 <= m <= all.len() ==> rows_parse(#[trigger] all.take(m)),
            scan_rows(all.take(k as int)).1 == current,
            orders@.len() == scan_rows(all.take(k as int)).0.len(),
            forall|i: int|
                0 <= i < orders@.len() ==> order_of_row(#[trigger] orders@[i], all[scan_rows(all.take(k as int)).0[i]]),
        decreases rest.len(),
    {
        let ghost pre = all.take(k as int);
        let item = rest.remove(0);
        proof {
            assert(all.take(k + 1).drop_last() =~= pre);
            assert(item == all[k as int]);
            assert(all.take(k + 1).last() == item);
            assert(rest@ =~= all.skip(k + 1));
            lemma_scan_starts(pre);
            assert forall|i: int| 0 <= i < scan_rows(pre).0.len() implies all[scan_rows(pre).0[i]]
                == #[trigger] pre[scan_rows(pre).0[i]] by {}
        }
        let text = match &item.order_number {
            Some(s) => s.clone(),
            None => String::new(),
        };
        let same = match current {
            Some(c) => uuid_text(c) == text,
            None => false,
        };
        if !same {
            assert(rows_parse(all.take(k + 1)));
            let n = match parse_uuid(text.as_str()) {
                Ok(n) => n,
                Err(_) => {
                    proof {
                        assert(false);
                    }
                    0
                },
            };
            let id = item.order_id;
            let line = LineItem::from_row(item);
            let mut lines: Vec<LineItem> = Vec::new();
            lines.push(line);
            orders.push(Order { id: Some(id), order_number: n, line_items: lines });
            current = Some(n);
        }
        k = k + 1;
    }
    assert(all.take(k as int) =~= all);
    orders
}

proof fn lemma_scan_parse_prefixes(rows: Seq<DbLineItem>, n: int)
    requires
        0 <= n <= rows.len(),
        rows_parse(rows.take(n)),
    ensures
        forall|m: int| 0 <= m <= n ==> rows_parse(#[trigger] rows.take(m)),
    decreases n,
{
    if n > 0 {
        assert(rows.take(n).drop_last() =~= rows.take(n - 1));
        lemma_scan_parse_prefixes(rows, n - 1);
    }
}

/// Lists the orders of the rows, or `None` where some opening row's order
/// number is not a UUID (where the service fails).
pub fn try_group_line_items(rows: Vec<DbLineItem>) -> (r: Option<Vec<Order>>)
    ensures
        r is Some <==> rows_parse(rows@),
        r matches Some(orders) ==> orders@.len() == scan_rows(rows@).0.len() && forall|i: int|
            0 <= i < orders@.len() ==> order_of_row(#[trigger] orders@[i], rows@[scan_rows(rows@).0[i]]),
{
    if rows_parse_check(&rows) {
        Some(group_line_items(rows))
    } else {
        None
    }
}

} // verus!

verus! {

/// Where the placing of an order stands.
pub enum PlaceStep {
    /// Waiting for the inventory service's answer.
    CheckStock,
    /// Waiting for the transaction to begin.
    Begin,
    /// Inserting the lines; `ids` are the ids of the lines inserted so far.
    InsertLines { ids: Vec<i64> },
    /// Inserting the order row.
    InsertOrder { ids: Vec<i64> },
    /// Linking the lines to order `order_id`; `linked` links are made.
    Link { order_id: i64, ids: Vec<i64>, linked: usize },
    /// Committing the transaction.
    Commit { order_id: i64 },
    /// Publishing the order event.
    Publish { order_id: i64 },
    /// The reply is given.
    Done,
}

/// The placing of one order: its number, how many lines it has, and the
/// step it is at.
pub struct PlaceOrder {
    pub order_number: u128,
    pub line_count: usize,
    pub step: PlaceStep,
}

/// What the service learns after performing an action.
pub enum PlaceEvent {
    Stock(Result<Vec<InventoryResponse>, String>),
    Began(Result<(), String>),
    LineInserted(Result<i64, String>),
    OrderInserted(Result<i64, String>),
    Linked(Result<(), String>),
    Committed(Result<(), String>),
    Published(Result<(), String>),
}

/// What the service is to do next.
pub enum PlaceAction {
    /// Ask the inventory service with these query pairs.
    FetchStock(Vec<(String, String)>),
    /// Begin a transaction.
    Begin,
    /// Insert line `index` of the order, returning its id.
    InsertLine(usize),
    /// Insert the order row under this order number text, returning its id.
    InsertOrder(String),
    /// Link line `item_id` to order `order_id`.
    Link { order_id: i64, item_id: i64 },
    /// Commit the transaction.
    Commit,
    /// Publish the placed-order event for this order number.
    Publish(u128),
    /// Answer the request with this status and text.
    Reply(u16, String),
}

/// The success text for a placed order.
pub open spec fn placed_text(order_id: i64, order_number: u128) -> Seq<char> {
    "Order Number "@ + decimal_text(order_id as int) + " ("@ + uuid_hyphenated(order_number)
        + ") Placed Successfully"@
}

/// The refusal text when a product is out of stock.
pub open spec fn not_in_stock_text() -> Seq<char> {
    "Product is not in stock, please try again later"@
}

/// Whether `e` is the event that answers the action of step `s`.
pub open spec fn answers(s: PlaceStep, e: PlaceEvent) -> bool {
    match s {
        PlaceStep::CheckStock => e is Stock,
        PlaceStep::Begin => e is Began,
        PlaceStep::InsertLines { .. } => e is LineInserted,
        PlaceStep::InsertOrder { .. } => e is OrderInserted,
        PlaceStep::Link { .. } => e is Linked,
        PlaceStep::Commit { .. } => e is Committed,
        PlaceStep::Publish { .. } => e is Published,
        PlaceStep::Done => false,
    }
}

/// The failure text an event carries, if it reports a failure.
pub open spec fn failure_of(e: PlaceEvent) -> Option<Seq<char>> {
    match e {
        PlaceEvent::Stock(Err(m)) => Some(m@),
        PlaceEvent::Began(Err(m)) => Some(m@),
        PlaceEvent::LineInserted(Err(m)) => Some(m@),
        PlaceEvent::OrderInserted(Err(m)) => Some(m@),
        PlaceEvent::Linked(Err(m)) => Some(m@),
        PlaceEvent::Committed(Err(m)) => Some(m@),
        PlaceEvent::Published(Err(m)) => Some(m@),
        _ => None,
    }
}

/// Whether the placing is at step `InsertLines` or `InsertOrder` with exactly
/// the ids `ids`, as the count of inserted lines decides.
pub open spec fn after_lines(p: PlaceOrder, ids: Seq<i64>, a: PlaceAction) -> bool {
    if ids.len() < p.line_count {
        &&& p.step matches PlaceStep::InsertLines { ids: v }
        &&& v@ == ids
        &&& a == PlaceAction::InsertLine(ids.len() as usize)
    } else {
        &&& p.step matches PlaceStep::InsertOrder { ids: v }
        &&& v@ == ids
        &&& a matches PlaceAction::InsertOrder(t)
        &&& t@ == uuid_hyphenated(p.order_number)
    }
}

/// Whether the placing links line `linked` next, or commits when all lines
/// are linked.
pub open spec fn after_links(p: PlaceOrder, order_id: i64, ids: Seq<i64>, linked: int, a: PlaceAction) -> bool {
    if linked < ids.len() {
        &&& p.step matches PlaceStep::Link { order_id: o, ids: v, linked: n }
        &&& o == order_id
        &&& v@ == ids
        &&& n == linked
        &&& a == (PlaceAction::Link { order_id, item_id: ids[linked] })
    } else {
        p.step == PlaceStep::Commit { order_id } && a == PlaceAction::Commit
    }
}

/// One transition of the placing: a reported failure ends it with a 500
/// reply carrying the failure's text; an inventory answer with a product
/// out of stock ends it with a 400 reply; otherwise it moves through
/// beginning the transaction, inserting each line, inserting the order,
/// linking each line to it, committing and publishing, and ends with a 201
/// reply naming the order id and number.
pub open spec fn place_next(p0: PlaceOrder, e: PlaceEvent, p1: PlaceOrder, a: PlaceAction) -> bool {
    &&& p1.order_number == p0.order_number
    &&& p1.line_count == p0.line_count
    &&& match failure_of(e) {
        Some(m) => {
            &&& p1.step == PlaceStep::Done
            &&& a matches PlaceAction::Reply(code, t)
            &&& code == 500
            &&& t@ == m
        },
        None => match (p0.step, e) {
            (PlaceStep::CheckStock, PlaceEvent::Stock(Ok(r))) => if all_in_stock(r@) {
                p1.step == PlaceStep::Begin && a == PlaceAction::Begin
            } else {
                &&& p1.step == PlaceStep::Done
                &&& a matches PlaceAction::Reply(code, t)
                &&& code == 400
                &&& t@ == not_in_stock_text()
            },
            (PlaceStep::Begin, _) => after_lines(p1, Seq::empty(), a),
            (PlaceStep::InsertLines { ids }, PlaceEvent::LineInserted(Ok(id))) => after_lines(
                p1,
                ids@.push(id),
                a,
            ),
            (PlaceStep::InsertOrder { ids }, PlaceEvent::OrderInserted(Ok(order_id))) => after_links(
                p1,
                order_id,
                ids@,
                0,
                a,
            ),
            (PlaceStep::Link { order_id, ids, linked }, _) => after_links(
                p1,
                order_id,
                ids@,
                linked + 1,
                a,
            ),
            (PlaceStep::Commit { order_id }, _) => p1.step == PlaceStep::Publish { order_id } && a
                == PlaceAction::Publish(p0.order_number),
            (PlaceStep::Publish { order_id }, _) => {
                &&& p1.step == PlaceStep::Done
                &&& a matches PlaceAction::Reply(code, t)
                &&& code == 201
                &&& t@ == placed_text(order_id, p0.order_number)
            },
            _ => false,
        },
    }
}

/// The well-formedness of a placing: a link step never links past its ids.
pub open spec fn place_wf(p: PlaceOrder) -> bool {
    match p.step {
        PlaceStep::InsertLines { ids } => ids@.len() < p.line_count,
        PlaceStep::Link { ids, linked, .. } => linked < ids@.len(),
        _ => true,
    }
}

/// The stock check gates the placing: on the inventory's answer the
/// placing begins its transaction exactly when every product answered is in
/// stock, and as soon as one product is out of stock it ends with a 400
/// reply, without beginning.
pub proof fn lemma_stock_gate(p0: PlaceOrder, r: Vec<InventoryResponse>, p1: PlaceOrder, a: PlaceAction)
    requires
        p0.step == PlaceStep::CheckStock,
        place_next(p0, PlaceEvent::Stock(Ok(r)), p1, a),
    ensures
        (p1.step == PlaceStep::Begin && a == PlaceAction::Begin) <==> (forall|i: int|
            0 <= i < r@.len() ==> (#[trigger] r@[i]).is_in_stock),
        (exists|i: int| 0 <= i < r@.len() && !(#[trigger] r@[i]).is_in_stock) ==> (p1.step == PlaceStep::Done && (
        a matches PlaceAction::Reply(code, t) && code == 400 && t@
            == "Product is not in stock, please try again later"@)),
{
}

/// The placing answers the request exactly when it ends: a step replies
/// if and only if it reaches `Done`; a 201 reply only follows a published
/// event, and a 400 reply only an inventory answer with a product out of
/// stock.
pub proof fn lemma_reply_ends_placing(p0: PlaceOrder, e: PlaceEvent, p1: PlaceOrder, a: PlaceAction)
    requires
        place_next(p0, e, p1, a),
    ensures
        a is Reply <==> p1.step is Done,
        a matches PlaceAction::Reply(code, _) && code == 201 ==> p0.step is Publish,
        a matches PlaceAction::Reply(code, _) && code == 400 ==> (p0.step is CheckStock && (e matches PlaceEvent::Stock(
            Ok(r),
        ) && !all_in_stock(r@))),
{
}

/// The `i`-th event of a placing that goes well: the inventory answers
/// `stock`, the transaction begins, line `k` is inserted under `ids[k]`,
/// the order row under `order_id`, and every link, the commit and the
/// publishing succeed.
pub open spec fn smooth_event(i: int, stock: Vec<InventoryResponse>, ids: Seq<i64>, order_id: i64) -> PlaceEvent {
    let n = ids.len() as int;
    if i == 0 {
        PlaceEvent::Stock(Ok(stock))
    } else if i == 1 {
        PlaceEvent::Began(Ok(()))
    } else if i < 2 + n {
        PlaceEvent::LineInserted(Ok(ids[i - 2]))
    } else if i == 2 + n {
        PlaceEvent::OrderInserted(Ok(order_id))
    } else if i < 3 + 2 * n {
        PlaceEvent::Linked(Ok(()))
    } else if i == 3 + 2 * n {
        PlaceEvent::Committed(Ok(()))
    } else {
        PlaceEvent::Published(Ok(()))
    }
}

/// The step a smooth placing is at after `i` events.
pub open spec fn smooth_step(p: PlaceOrder, i: int, ids: Seq<i64>, order_id: i64) -> bool {
    let n = ids.len() as int;
    if i == 0 {
        p.step == PlaceStep::CheckStock
    } else if i == 1 {
        p.step == PlaceStep::Begin
    } else if i <= 2 + n {
        if i - 2 < n {
            p.step matches PlaceStep::InsertLines { ids: v } && v@ == ids.take(i - 2)
        } else {
            p.step matches PlaceStep::InsertOrder { ids: v } && v@ == ids
        }
    } else if i <= 3 + 2 * n {
        if i - 3 - n < n {
            p.step matches PlaceStep::Link { order_id: o, ids: v, linked: l } && o == order_id && v@ == ids && l
                == i - 3 - n
        } else {
            p.step == PlaceStep::Commit { order_id }
        }
    } else if i == 4 + 2 * n {
        p.step == PlaceStep::Publish { order_id }
    } else {
        p.step == PlaceStep::Done
    }
}

/// The action a smooth placing takes on its `i`-th event.
pub open spec fn smooth_action(a: PlaceAction, i: int, ids: Seq<i64>, order_id: i64, order_number: u128) -> bool {
    let n = ids.len() as int;
    if i == 0 {
        a == PlaceAction::Begin
    } else if i <= n {
        a == PlaceAction::InsertLine((i - 1) as usize)
    } else if i == 1 + n {
        a matches PlaceAction::InsertOrder(t) && t@ == uuid_hyphenated(order_number)
    } else if i < 2 + 2 * n {
        a == (PlaceAction::Link { order_id, item_id: ids[i - 2 - n] })
    } else if i == 2 + 2 * n {
        a == PlaceAction::Commit
    } else if i == 3 + 2 * n {
        a == PlaceAction::Publish(order_number)
    } else {
        a matches PlaceAction::Reply(code, t) && code == 201 && t@ == placed_text(order_id, order_number)
    }
}

/// A placing whose every step goes well, with every product in stock,
/// begins the transaction, inserts the lines in order, inserts the order
/// row under the order's number, links every inserted line to the order in
/// the order they were inserted, commits, publishes the order's number, and
/// answers 201 naming the order id and number. `steps[i]` is the placing
/// after `i` events and `actions[i]` the action taken on event `i`.
pub proof fn lemma_smooth_placing(
    steps: Seq<PlaceOrder>,
    actions: Seq<PlaceAction>,
    stock: Vec<InventoryResponse>,
    ids: Seq<i64>,
    order_id: i64,
)
    requires
        steps.len() == 2 * ids.len() + 6,
        actions.len() == 2 * ids.len() + 5,
        steps[0].step == PlaceStep::CheckStock,
        steps[0].line_count == ids.len(),
        all_in_stock(stock@),
        forall|i: int|
            0 <= i < actions.len() ==> place_next(
                #[trigger] steps[i],
                smooth_event(i, stock, ids, order_id),
                steps[i + 1],
                actions[i],
            ),
    ensures
        forall|i: int| 0 <= i < actions.len() ==> smooth_action(#[trigger] actions[i], i, ids, order_id, steps[0].order_number),
        steps.last().step == PlaceStep::Done,
{
    assert forall|i: int| 0 <= i < actions.len() implies smooth_action(#[trigger] actions[i], i, ids, order_id, steps[0].order_number) by {
        lemma_smooth_prefix(steps, actions, stock, ids, order_id, i + 1);
    }
    lemma_smooth_prefix(steps, actions, stock, ids, order_id, actions.len() as int);
}

proof fn lemma_smooth_step(
    p0: PlaceOrder,
    p1: PlaceOrder,
    a: PlaceAction,
    i: int,
    stock: Vec<InventoryResponse>,
    ids: Seq<i64>,
    order_id: i64,
)
    requires
        0 <= i < 2 * ids.len() + 5,
        p0.line_count == ids.len(),
        all_in_stock(stock@),
        smooth_step(p0, i, ids, order_id),
        place_next(p0, smooth_event(i, stock, ids, order_id), p1, a),
    ensures
        smooth_step(p1, i + 1, ids, order_id),
        smooth_action(a, i, ids, order_id, p0.order_number),
{
    let n = ids.len() as int;
    let e = smooth_event(i, stock, ids, order_id);
    if i == 0 {
        assert(e == PlaceEvent::Stock(Ok(stock)));
    } else if i == 1 {
        assert(e == PlaceEvent::Began(Ok(())));
        assert(ids.take(0) =~= Seq::<i64>::empty());
        if n == 0 {
            assert(ids =~= Seq::<i64>::empty());
        }
    } else if i < 2 + n {
        assert(e == PlaceEvent::LineInserted(Ok(ids[i - 2])));
        assert(ids.take(i - 2).push(ids[i - 2]) =~= ids.take(i - 1));
        if i - 1 == n {
            assert(ids.take(n) =~= ids);
        }
    } else if i == 2 + n {
        assert(e == PlaceEvent::OrderInserted(Ok(order_id)));
    } else if i < 3 + 2 * n {
        assert(e == PlaceEvent::Linked(Ok(())));
    } else if i == 3 + 2 * n {
        assert(e == PlaceEvent::Committed(Ok(())));
    } else {
        assert(e == PlaceEvent::Published(Ok(())));
    }
}

proof fn lemma_smooth_prefix(
    steps: Seq<PlaceOrder>,
    actions: Seq<PlaceAction>,
    stock: Vec<InventoryResponse>,
    ids: Seq<i64>,
    order_id: i64,
    k: int,
)
    requires
        steps.len() == 2 * ids.len() + 6,
        actions.len() == 2 * ids.len() + 5,
        steps[0].step == PlaceStep::CheckStock,
        steps[0].line_count == ids.len(),
        all_in_stock(stock@),
        forall|i: int|
            0 <= i < actions.len() ==> place_next(
                #[trigger] steps[i],
                smooth_event(i, stock, ids, order_id),
                steps[i + 1],
                actions[i],
            ),
        0 <= k <= actions.len(),
    ensures
        smooth_step(steps[k], k, ids, order_id),
        steps[k].order_number == steps[0].order_number,
        steps[k].line_count == ids.len(),
        k > 0 ==> smooth_action(actions[k - 1], k - 1, ids, order_id, steps[0].order_number),
    decreases k,
{
    if k > 0 {
        let i = k - 1;
        lemma_smooth_prefix(steps, actions, stock, ids, order_id, i);
        assert(place_next(steps[i], smooth_event(i, stock, ids, order_id), steps[i + 1], actions[i]));
        lemma_smooth_step(steps[i], steps[i + 1], actions[i], i, stock, ids, order_id);
    }
}

fn lines_or_order(order_number: u128, line_count: usize, ids: Vec<i64>) -> (r: (PlaceOrder, PlaceAction))
    requires
        ids@.len() <= line_count,
    ensures
        r.0.order_number == order_number,
        r.0.line_count == line_count,
        after_lines(r.0, ids@, r.1),
        place_wf(r.0),
{
    let n = ids.len();
    if n < line_count {
        (PlaceOrder { order_number, line_count, step: PlaceStep::InsertLines { ids } }, PlaceAction::InsertLine(n))
    } else {
        let t = uuid_text(order_number);
        (PlaceOrder { order_number, line_count, step: PlaceStep::InsertOrder { ids } }, PlaceAction::InsertOrder(t))
    }
}

fn link_or_commit(order_number: u128, line_count: usize, order_id: i64, ids: Vec<i64>, linked: usize) -> (r: (
    PlaceOrder,
    PlaceAction,
))
    requires
        linked <= ids@.len(),
    ensures
        r.0.order_number == order_number,
        r.0.line_count == line_count,
        after_links(r.0, order_id, ids@, linked as int, r.1),
        place_wf(r.0),
{
    if linked < ids.len() {
        let item_id = ids[linked];
        (
            PlaceOrder { order_number, line_count, step: PlaceStep::Link { order_id, ids, linked } },
            PlaceAction::Link { order_id, item_id },
        )
    } else {
        (PlaceOrder { order_number, line_count, step: PlaceStep::Commit { order_id } }, PlaceAction::Commit)
    }
}

fn placed_reply(order_id: i64, order_number: u128) -> (r: String)
    ensures
        r@ == placed_text(order_id, order_number),
{
    let mut t = String::from_str("Order Number ");
    let d = decimal(order_id);
    t.append(d.as_str());
    t.append(" (");
    let u = uuid_text(order_number);
    t.append(u.as_str());
    t.append(") Placed Successfully");
    t
}

impl PlaceOrder {
    /// Starts placing an order with this number and these line SKUs: the
    /// first action asks the inventory service about every SKU.
    pub fn start(order_number: u128, skus: &Vec<String>) -> (r: (PlaceOrder, PlaceAction))
        ensures
            r.0.order_number == order_number,
            r.0.line_count == skus@.len(),
            r.0.step == PlaceStep::CheckStock,
            r.1 matches PlaceAction::FetchStock(q) ==> q@.len() == skus@.len() && forall|k: int|
                0 <= k < skus@.len() ==> (#[trigger] q@[k]).0@ == "skuCode"@ && q@[k].1@ == skus@[k]@,
            r.1 is FetchStock,
    {
        let q = inventory_query(skus);
        (PlaceOrder { order_number, line_count: skus.len(), step: PlaceStep::CheckStock }, PlaceAction::FetchStock(q))
    }

    /// Moves the placing on by the event that answers its last action.
    pub fn step(self, e: PlaceEvent) -> (r: (PlaceOrder, PlaceAction))
        requires
            answers(self.step, e),
            place_wf(self),
        ensures
            place_next(self, e, r.0, r.1),
            place_wf(r.0),
    {
        let order_number = self.order_number;
        let line_count = self.line_count;
        let done = PlaceOrder { order_number, line_count, step: PlaceStep::Done };
        match e {
            PlaceEvent::Stock(Err(m)) | PlaceEvent::Began(Err(m)) | PlaceEvent::LineInserted(Err(m))
            | PlaceEvent::OrderInserted(Err(m)) | PlaceEvent::Linked(Err(m))
            | PlaceEvent::Committed(Err(m)) | PlaceEvent::Published(Err(m)) => {
                (done, PlaceAction::Reply(500, m))
            },
            PlaceEvent::Stock(Ok(r)) => {
                if check_stock(&r) {
                    (PlaceOrder { order_number, line_count, step: PlaceStep::Begin }, PlaceAction::Begin)
                } else {
                    (done, PlaceAction::Reply(400, String::from_str("Product is not in stock, please try again later")))
                }
            },
            PlaceEvent::Began(Ok(())) => lines_or_order(order_number, line_count, Vec::new()),
            PlaceEvent::LineInserted(Ok(id)) => match self.step {
                PlaceStep::InsertLines { ids } => {
                    let mut ids = ids;
                    ids.push(id);
                    lines_or_order(order_number, line_count, ids)
                },
                _ => (done, PlaceAction::Commit),
            },
            PlaceEvent::OrderInserted(Ok(order_id)) => match self.step {
                PlaceStep::InsertOrder { ids } => link_or_commit(order_number, line_count, order_id, ids, 0),
                _ => (done, PlaceAction::Commit),
            },
            PlaceEvent::Linked(Ok(())) => match self.step {
                PlaceStep::Link { order_id, ids, linked } => {
                    let next = if linked < ids.len() { linked + 1 } else { linked };
                    link_or_commit(order_number, line_count, order_id, ids, next)
                },
                _ => (done, PlaceAction::Commit),
            },
            PlaceEvent::Committed(Ok(())) => match self.step {
                PlaceStep::Commit { order_id } => (
                    PlaceOrder { order_number, line_count, step: PlaceStep::Publish { order_id } },
                    PlaceAction::Publish(order_number),
                ),
                _ => (done, PlaceAction::Commit),
            },
            PlaceEvent::Published(Ok(())) => match self.step {
                PlaceStep::Publish { order_id } => (done, PlaceAction::Reply(201, placed_reply(order_id, order_number))),
                _ => (done, PlaceAction::Commit),
            },
        }
    }
}

} // verus!

verus! {

/// What `url::Url::parse(base)` followed by `.join(reference)` gives: the
/// resolved URL's text, or the text of the parse error.
pub uninterp spec fn url_resolved(base: Seq<char>, reference: Seq<char>) -> Result<Seq<char>, Seq<char>>;

pub open spec fn text_result_view(r: Result<String, String>) -> Result<Seq<char>, Seq<char>> {
    match r {
        Ok(t) => Ok(t@),
        Err(e) => Err(e@),
    }
}

/// Calls `url::Url::parse` on `base` and `url::Url::join` on the result
/// with `reference`, returning the resolved URL's text. Nothing is stated
/// of how URLs resolve beyond naming the outcome.
#[verifier::external_body]
fn resolve_url(base: &str, reference: &str) -> (r: Result<String, String>)
    ensures
        text_result_view(r) == url_resolved(base@, reference@),
{
    match url::Url::parse(base).and_then(|u| u.join(reference)) {
        Ok(u) => Ok(u.as_str().to_string()),
        Err(e) => Err(e.to_string()),
    }
}

/// The inventory endpoint under a service base URL: the base resolved
/// against `/api/inventory`.
pub fn inventory_endpoint(inventory_url: &str) -> (r: Result<String, String>)
    ensures
        text_result_view(r) == url_resolved(inventory_url@, "/api/inventory"@),
{
    resolve_url(inventory_url, "/api/inventory")
}

/// A 500 reply carrying an error's text.
pub fn internal_error(message: String) -> (r: (u16, String))
    ensures
        r.0 == 500,
        r.1@ == message@,
{
    (500, message)
}

/// The rows that link a saved order to its line items. Only the first
/// returned line item id is linked, as the batch insert's result is cut to
/// its first row.
pub fn link_rows(order_id: i64, line_item_ids: &Vec<i64>) -> (r: Vec<(i64, i64)>)
    ensures
        r@ == line_item_ids@.take(if line_item_ids@.len() < 1 { 0int } else { 1int }).map_values(
            |id: i64| (order_id, id),
        ),
{
    let mut out: Vec<(i64, i64)> = Vec::new();
    if line_item_ids.len() > 0 {
        out.push((order_id, line_item_ids[0]));
    }
    assert(out@ =~= line_item_ids@.take(if line_item_ids@.len() < 1 { 0int } else { 1int }).map_values(
        |id: i64| (order_id, id),
    ));
    out
}

/// Why fetched topic metadata is not usable yet.
pub open spec fn metadata_problem(partition_counts: Seq<usize>) -> Option<Seq<char>> {
    if partition_counts.len() == 0 {
        Some("metadata fetch returned no topics"@)
    } else if partition_counts[0] == 0 {
        Some("metadata fetch returned a topic with no partitions"@)
    } else {
        None
    }
}

/// Checks fetched topic metadata, given the partition count of each topic
/// returned: there must be a topic, and the first must have partitions.
pub fn check_topic_metadata(partition_counts: &Vec<usize>) -> (r: Result<(), String>)
    ensures
        r is Ok <==> metadata_problem(partition_counts@) is None,
        r matches Err(m) ==> Some(m@) == metadata_problem(partition_counts@),
{
    if partition_counts.len() == 0 {
        Err(String::from_str("metadata fetch returned no topics"))
    } else if partition_counts[0] == 0 {
        Err(String::from_str("metadata fetch returned a topic with no partitions"))
    } else {
        Ok(())
    }
}

/// The message key under which an order's event is sent: `Key ` and the
/// order's UUID.
pub fn event_key(order_id: u128) -> (r: String)
    ensures
        r@ == "Key "@ + uuid_hyphenated(order_id),
{
    let mut k = String::from_str("Key ");
    let u = uuid_text(order_id);
    k.append(u.as_str());
    k
}

} // verus!
