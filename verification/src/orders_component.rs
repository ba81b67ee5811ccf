use vstd::prelude::*;
use crate::text::{append_decimal, decimal_text};
use crate::uuid_text::{new_uuid_v4, uuid_hyphenated, uuid_text};
use crate::shop_types::{
    availability_views, Availability, AvailabilityView, OrderNotification,
    line_item_views, order_views, text_is, LineItem, LineItemView, Order, OrderView, PgValue,
    ResultRowEntry,
};

verus! {

/// The fields that one result row of the orders query yields.
pub struct OrderRow {
    pub order_number: String,
    pub order_total: i32,
    pub sku: String,
    pub price: i32,
    pub quantity: i32,
}

pub struct OrderRowView {
    pub order_number: Seq<char>,
    pub order_total: i32,
    pub sku: Seq<char>,
    pub price: i32,
    pub quantity: i32,
}

impl View for OrderRow {
    type V = OrderRowView;

    open spec fn view(&self) -> OrderRowView {
        OrderRowView {
            order_number: self.order_number@,
            order_total: self.order_total,
            sku: self.sku@,
            price: self.price,
            quantity: self.quantity,
        }
    }
}

pub open spec fn blank_row() -> OrderRowView {
    OrderRowView {
        order_number: Seq::empty(),
        order_total: 0,
        sku: Seq::empty(),
        price: 0,
        quantity: 0,
    }
}

/// What one cell contributes: a text cell named `order_number` or `sku`,
/// or a 4-byte integer cell named `order_total`, `price` or `quantity`,
/// sets that field; any other cell is ignored.
pub open spec fn apply_cell(r: OrderRowView, e: ResultRowEntry) -> OrderRowView {
    match e.value {
        PgValue::Text(v) => {
            if e.column_name@ == "order_number"@ {
                OrderRowView { order_number: v@, ..r }
            } else if e.column_name@ == "sku"@ {
                OrderRowView { sku: v@, ..r }
            } else {
                r
            }
        },
        PgValue::Int4(v) => {
            if e.column_name@ == "order_total"@ {
                OrderRowView { order_total: v, ..r }
            } else if e.column_name@ == "price"@ {
                OrderRowView { price: v, ..r }
            } else if e.column_name@ == "quantity"@ {
                OrderRowView { quantity: v, ..r }
            } else {
                r
            }
        },
        _ => r,
    }
}

/// The fields of a row: the cells applied in order to a blank row, so the
/// last cell of a name wins.
pub open spec fn fold_row(cells: Seq<ResultRowEntry>) -> OrderRowView
    decreases cells.len(),
{
    if cells.len() == 0 {
        blank_row()
    } else {
        apply_cell(fold_row(cells.drop_last()), cells.last())
    }
}

/// Reads the order fields out of one result row.
pub fn read_order_row(cells: &Vec<ResultRowEntry>) -> (r: OrderRow)
    ensures
        r@ == fold_row(cells@),
{
    let mut acc = OrderRow {
        order_number: String::new(),
        order_total: 0,
        sku: String::new(),
        price: 0,
        quantity: 0,
    };
    let mut k: usize = 0;
    assert(cells@.take(0) =~= Seq::<ResultRowEntry>::empty());
    while k < cells.len()
        invariant
            k <= cells.len(),
            acc@ == fold_row(cells@.take(k as int)),
        decreases cells.len() - k,
    {
        let e = &cells[k];
        assert(cells@.take(k + 1).drop_last() =~= cells@.take(k as int));
        match &e.value {
            PgValue::Text(v) => {
                if text_is(&e.column_name, "order_number") {
                    acc.order_number = v.clone();
                } else if text_is(&e.column_name, "sku") {
                    acc.sku = v.clone();
                }
            },
            PgValue::Int4(v) => {
                if text_is(&e.column_name, "order_total") {
                    acc.order_total = *v;
                } else if text_is(&e.column_name, "price") {
                    acc.price = *v;
                } else if text_is(&e.column_name, "quantity") {
                    acc.quantity = *v;
                }
            },
            _ => {},
        }
        k = k + 1;
    }
    assert(cells@.take(cells.len() as int) =~= cells@);
    acc
}

/// Index of the first order with the given number, or the length when
/// there is none.
pub open spec fn index_of_order(orders: Seq<OrderView>, key: Seq<char>) -> int
    decreases orders.len(),
{
    if orders.len() == 0 {
        0
    } else {
        let p = index_of_order(orders.drop_last(), key);
        if p < orders.len() - 1 {
            p
        } else if orders.last().order_number == key {
            orders.len() - 1
        } else {
            orders.len() as int
        }
    }
}

pub proof fn lemma_index_of_order(orders: Seq<OrderView>, key: Seq<char>)
    ensures
        0 <= index_of_order(orders, key) <= orders.len(),
        index_of_order(orders, key) < orders.len() ==> orders[index_of_order(orders, key)].order_number == key,
        forall|j: int| 0 <= j < index_of_order(orders, key) ==> orders[j].order_number != key,
    decreases orders.len(),
{
    if orders.len() > 0 {
        let prefix = orders.drop_last();
        lemma_index_of_order(prefix, key);
        assert forall|j: int| 0 <= j < index_of_order(orders, key) implies orders[j].order_number != key by {
            assert(j < prefix.len() ==> orders[j] == prefix[j]);
        }
    }
}

proof fn lemma_index_of_order_unique(orders: Seq<OrderView>, key: Seq<char>, i: int)
    requires
        0 <= i <= orders.len(),
        i < orders.len() ==> orders[i].order_number == key,
        forall|j: int| 0 <= j < i ==> orders[j].order_number != key,
    ensures
        index_of_order(orders, key) == i,
{
    lemma_index_of_order(orders, key);
    let k = index_of_order(orders, key);
    if k < i {
        assert(orders[k].order_number == key);
    } else if i < k {
        assert(orders[i].order_number != key);
    }
}

pub open spec fn item_of_row(r: OrderRowView) -> LineItemView {
    LineItemView { sku: r.sku, price: r.price, quantity: r.quantity }
}

/// Adds one row to the grouping: its line joins the order with the same
/// number, or opens a new order that takes the row's total.
pub open spec fn add_row(orders: Seq<OrderView>, r: OrderRowView) -> Seq<OrderView> {
    let i = index_of_order(orders, r.order_number);
    if i < orders.len() {
        orders.update(
            i,
            OrderView { line_items: orders[i].line_items.push(item_of_row(r)), ..orders[i] },
        )
    } else {
        orders.push(
            OrderView { order_number: r.order_number, line_items: seq![item_of_row(r)], total: r.order_total },
        )
    }
}

/// The orders of a sequence of rows, one per order number, in the order
/// in which the numbers first appear.
pub open spec fn group_rows(rows: Seq<OrderRowView>) -> Seq<OrderView>
    decreases rows.len(),
{
    if rows.len() == 0 {
        Seq::empty()
    } else {
        add_row(group_rows(rows.drop_last()), rows.last())
    }
}

pub open spec fn row_views(rows: Seq<Seq<ResultRowEntry>>) -> Seq<OrderRowView> {
    rows.map_values(|cells: Seq<ResultRowEntry>| fold_row(cells))
}

pub open spec fn cell_rows(rows: Seq<Vec<ResultRowEntry>>) -> Seq<Seq<ResultRowEntry>> {
    rows.map_values(|cells: Vec<ResultRowEntry>| cells@)
}

/// The orders that a result of the orders query describes.
pub open spec fn orders_of_result(rows: Seq<Vec<ResultRowEntry>>) -> Seq<OrderView> {
    group_rows(row_views(cell_rows(rows)))
}

fn add_order_row(orders: &mut Vec<Order>, row: OrderRow)
    ensures
        order_views(final(orders)@) == add_row(order_views(old(orders)@), row@),
{
    let ghost before = order_views(orders@);
    let mut j: usize = 0;
    while j < orders.len() && !(orders[j].order_number == row.order_number)
        invariant
            j <= orders.len(),
            before == order_views(orders@),
            forall|k: int| 0 <= k < j ==> before[k].order_number != row@.order_number,
        decreases orders.len() - j,
    {
        j = j + 1;
    }
    proof {
        lemma_index_of_order_unique(before, row@.order_number, j as int);
    }
    let item = LineItem { sku: row.sku, price: row.price, quantity: row.quantity };
    if j < orders.len() {
        let mut order = orders.remove(j);
        let ghost old_items = order.line_items@;
        order.line_items.push(item);
        assert(line_item_views(order.line_items@) =~= line_item_views(old_items).push(item@));
        orders.insert(j, order);
        assert(order_views(orders@) =~= add_row(before, row@));
    } else {
        let mut items: Vec<LineItem> = Vec::new();
        items.push(item);
        assert(line_item_views(items@) =~= seq![item@]);
        orders.push(Order { order_number: row.order_number, line_items: items, total: row.order_total });
        assert(order_views(orders@) =~= add_row(before, row@));
    }
}

/// Groups the result rows of the orders query into orders: one order per
/// order number, holding the lines of all its rows in row order, with the
/// total of its first row. Orders come in the order in which their numbers
/// first appear.
pub fn group_orders(rows: &Vec<Vec<ResultRowEntry>>) -> (r: Vec<Order>)
    ensures
        order_views(r@) == orders_of_result(rows@),
{
    let mut orders: Vec<Order> = Vec::new();
    let mut i: usize = 0;
    assert(row_views(cell_rows(rows@)).take(0) =~= Seq::<OrderRowView>::empty());
    while i < rows.len()
        invariant
            i <= rows.len(),
            order_views(orders@) == group_rows(row_views(cell_rows(rows@)).take(i as int)),
        decreases rows.len() - i,
    {
        let row = read_order_row(&rows[i]);
        let ghost all = row_views(cell_rows(rows@));
        assert(all.take(i + 1).drop_last() =~= all.take(i as int));
        assert(all.take(i + 1).last() == row@);
        add_order_row(&mut orders, row);
        i = i + 1;
    }
    assert(row_views(cell_rows(rows@)).take(rows.len() as int) =~= row_views(cell_rows(rows@)));
    orders
}

} // verus!

verus! {

/// The lines of all rows carrying the order number `key`, in row order.
pub open spec fn lines_for(rows: Seq<OrderRowView>, key: Seq<char>) -> Seq<LineItemView>
    decreases rows.len(),
{
    if rows.len() == 0 {
        Seq::empty()
    } else {
        let p = lines_for(rows.drop_last(), key);
        if rows.last().order_number == key {
            p.push(item_of_row(rows.last()))
        } else {
            p
        }
    }
}

proof fn lemma_lines_for_absent(rows: Seq<OrderRowView>, key: Seq<char>)
    requires
        forall|k: int| 0 <= k < rows.len() ==> rows[k].order_number != key,
    ensures
        lines_for(rows, key) == Seq::<LineItemView>::empty(),
    decreases rows.len(),
{
    if rows.len() > 0 {
        lemma_lines_for_absent(rows.drop_last(), key);
    }
}

proof fn lemma_group_distinct(rows: Seq<OrderRowView>)
    ensures
        forall|i: int, j: int|
            #![trigger group_rows(rows)[i], group_rows(rows)[j]]
            0 <= i < group_rows(rows).len() && 0 <= j < group_rows(rows).len() && i != j
                ==> group_rows(rows)[i].order_number != group_rows(rows)[j].order_number,
    decreases rows.len(),
{
    if rows.len() > 0 {
        let prefix = rows.drop_last();
        lemma_group_distinct(prefix);
        lemma_index_of_order(group_rows(prefix), rows.last().order_number);
    }
}

/// Index of the first row with the given order number, or the length
/// when there is none.
pub open spec fn index_of_row(rows: Seq<OrderRowView>, key: Seq<char>) -> int
    decreases rows.len(),
{
    if rows.len() == 0 {
        0
    } else {
        let p = index_of_row(rows.drop_last(), key);
        if p < rows.len() - 1 {
            p
        } else if rows.last().order_number == key {
            rows.len() - 1
        } else {
            rows.len() as int
        }
    }
}

proof fn lemma_index_of_row(rows: Seq<OrderRowView>, key: Seq<char>)
    ensures
        0 <= index_of_row(rows, key) <= rows.len(),
        index_of_row(rows, key) < rows.len() ==> rows[index_of_row(rows, key)].order_number == key,
        forall|j: int| 0 <= j < index_of_row(rows, key) ==> rows[j].order_number != key,
    decreases rows.len(),
{
    if rows.len() > 0 {
        let prefix = rows.drop_last();
        lemma_index_of_row(prefix, key);
        assert forall|j: int| 0 <= j < index_of_row(rows, key) implies rows[j].order_number != key by {
            assert(j < prefix.len() ==> rows[j] == prefix[j]);
        }
    }
}

proof fn lemma_group_covers(rows: Seq<OrderRowView>)
    ensures
        forall|k: int|
            0 <= k < rows.len() ==> index_of_order(group_rows(rows), #[trigger] rows[k].order_number)
                < group_rows(rows).len(),
    decreases rows.len(),
{
    if rows.len() > 0 {
        let prefix = rows.drop_last();
        let r = rows.last();
        lemma_group_covers(prefix);
        let g = group_rows(prefix);
        let g2 = group_rows(rows);
        lemma_index_of_order(g, r.order_number);
        lemma_group_distinct(rows);
        assert forall|k: int| 0 <= k < rows.len() implies index_of_order(g2, #[trigger] rows[k].order_number)
            < g2.len() by {
            let key = rows[k].order_number;
            let j = if k < prefix.len() {
                assert(rows[k] == prefix[k]);
                lemma_index_of_order(g, key);
                index_of_order(g, key)
            } else {
                if index_of_order(g, r.order_number) < g.len() {
                    index_of_order(g, r.order_number)
                } else {
                    g.len() as int
                }
            };
            assert(0 <= j < g2.len() && g2[j].order_number == key);
            lemma_index_of_order(g2, key);
            if index_of_order(g2, key) >= g2.len() {
                assert(g2[j].order_number != key);
            }
        }
    }
}

proof fn lemma_group_lines(rows: Seq<OrderRowView>)
    ensures
        forall|i: int|
            0 <= i < group_rows(rows).len() ==> #[trigger] group_rows(rows)[i].line_items
                == lines_for(rows, group_rows(rows)[i].order_number),
    decreases rows.len(),
{
    if rows.len() > 0 {
        let prefix = rows.drop_last();
        let r = rows.last();
        lemma_group_lines(prefix);
        lemma_group_distinct(prefix);
        lemma_group_covers(prefix);
        let g = group_rows(prefix);
        let g2 = group_rows(rows);
        lemma_index_of_order(g, r.order_number);
        let idx = index_of_order(g, r.order_number);
        if idx < g.len() {
            assert forall|i: int| 0 <= i < g2.len() implies #[trigger] g2[i].line_items
                == lines_for(rows, g2[i].order_number) by {
                if i != idx {
                    assert(g[i].order_number != g[idx].order_number);
                }
            }
        } else {
            assert forall|k: int| 0 <= k < prefix.len() implies prefix[k].order_number != r.order_number by {
                assert(index_of_order(g, prefix[k].order_number) < g.len());
            }
            lemma_lines_for_absent(prefix, r.order_number);
            assert(g2[g.len() as int].line_items =~= lines_for(rows, r.order_number));
            assert forall|i: int| 0 <= i < g2.len() implies #[trigger] g2[i].line_items
                == lines_for(rows, g2[i].order_number) by {
                if i < g.len() {
                    assert(g2[i] == g[i]);
                    assert(g[i].order_number != r.order_number);
                }
            }
        }
    }
}

#[verifier::rlimit(40)]
proof fn lemma_group_totals(rows: Seq<OrderRowView>)
    ensures
        forall|i: int|
            0 <= i < group_rows(rows).len() ==> index_of_row(rows, #[trigger] group_rows(rows)[i].order_number)
                < rows.len() && group_rows(rows)[i].total
                == rows[index_of_row(rows, group_rows(rows)[i].order_number)].order_total,
    decreases rows.len(),
{
    if rows.len() > 0 {
        let prefix = rows.drop_last();
        let r = rows.last();
        lemma_group_totals(prefix);
        lemma_group_covers(prefix);
        let g = group_rows(prefix);
        let g2 = group_rows(rows);
        lemma_index_of_order(g, r.order_number);
        assert forall|i: int| 0 <= i < g2.len() implies index_of_row(rows, #[trigger] g2[i].order_number)
            < rows.len() && g2[i].total == rows[index_of_row(rows, g2[i].order_number)].order_total by {
            let key = g2[i].order_number;
            lemma_index_of_row(prefix, key);
            if i < g.len() {
                assert(g2[i].total == g[i].total && g2[i].order_number == g[i].order_number);
                assert(index_of_row(prefix, key) < prefix.len());
                assert(index_of_row(rows, key) == index_of_row(prefix, key));
                assert(rows[index_of_row(prefix, key)] == prefix[index_of_row(prefix, key)]);
            } else {
                if index_of_row(prefix, key) < prefix.len() {
                    let m = index_of_row(prefix, key);
                    assert(index_of_order(g, prefix[m].order_number) < g.len());
                }
                assert(index_of_row(rows, key) == prefix.len());
            }
        }
    }
}

/// Grouping rows into orders loses and invents nothing: the orders have
/// distinct numbers, every row's number has an order, each order holds
/// exactly the lines of the rows with its number, in row order, and its
/// total is the total of the first of those rows.
pub proof fn lemma_grouping_is_exact(rows: Seq<OrderRowView>)
    ensures
        forall|i: int, j: int|
            #![trigger group_rows(rows)[i], group_rows(rows)[j]]
            0 <= i < group_rows(rows).len() && 0 <= j < group_rows(rows).len() && i != j
                ==> group_rows(rows)[i].order_number != group_rows(rows)[j].order_number,
        forall|k: int|
            0 <= k < rows.len() ==> index_of_order(group_rows(rows), #[trigger] rows[k].order_number)
                < group_rows(rows).len(),
        forall|i: int|
            0 <= i < group_rows(rows).len() ==> #[trigger] group_rows(rows)[i].line_items
                == lines_for(rows, group_rows(rows)[i].order_number),
        forall|i: int|
            0 <= i < group_rows(rows).len() ==> index_of_row(rows, #[trigger] group_rows(rows)[i].order_number)
                < rows.len() && group_rows(rows)[i].total
                == rows[index_of_row(rows, group_rows(rows)[i].order_number)].order_total,
{
    lemma_group_distinct(rows);
    lemma_group_covers(rows);
    lemma_group_lines(rows);
    lemma_group_totals(rows);
}

} // verus!

verus! {

/// The subject on which order notifications are published.
pub fn notification_subject() -> (r: String)
    ensures
        r@ == "platform-poc.order-notification"@,
{
    String::from_str("platform-poc.order-notification")
}

/// The error of the orders interface.
pub enum OrderError {
    Internal(String),
}

pub open spec fn line_total(l: LineItemView) -> int {
    l.price * l.quantity
}

/// The sum of price times quantity over the lines.
pub open spec fn total_of(items: Seq<LineItemView>) -> int
    decreases items.len(),
{
    if items.len() == 0 {
        0
    } else {
        total_of(items.drop_last()) + line_total(items.last())
    }
}

pub open spec fn fits_i32(v: int) -> bool {
    i32::MIN <= v <= i32::MAX
}

/// Whether summing the lines in order, as the service does in 32-bit
/// arithmetic, never leaves the `i32` range.
pub open spec fn total_fits(items: Seq<LineItemView>) -> bool {
    &&& forall|k: int| 0 <= k < items.len() ==> fits_i32(#[trigger] line_total(items[k]))
    &&& forall|k: int| 0 <= k <= items.len() ==> fits_i32(#[trigger] total_of(items.take(k)))
}

/// The order total in pence, or `None` where summing in 32-bit arithmetic
/// would overflow.
pub fn order_total(items: &Vec<LineItem>) -> (r: Option<i32>)
    ensures
        r is Some <==> total_fits(line_item_views(items@)),
        r matches Some(t) ==> t == total_of(line_item_views(items@)),
{
    let ghost v = line_item_views(items@);
    let mut acc: i32 = 0;
    let mut k: usize = 0;
    assert(v.take(0) =~= Seq::<LineItemView>::empty());
    while k < items.len()
        invariant
            k <= items.len(),
            v == line_item_views(items@),
            acc == total_of(v.take(k as int)),
            forall|j: int| 0 <= j < k ==> fits_i32(#[trigger] line_total(v[j])),
            forall|j: int| 0 <= j <= k ==> fits_i32(#[trigger] total_of(v.take(j))),
        decreases items.len() - k,
    {
        let item = &items[k];
        assert(v[k as int] == item@);
        let a: i64 = item.price as i64;
        let b: i64 = item.quantity as i64;
        assert(-2147483648 <= a <= 2147483647 && -2147483648 <= b <= 2147483647);
        assert(-4611686018427387904 <= a * b <= 4611686018427387904) by (nonlinear_arith)
            requires
                -2147483648 <= a <= 2147483647,
                -2147483648 <= b <= 2147483647,
        ;
        let p = a * b;
        assert(line_total(v[k as int]) == p);
        if p < i32::MIN as i64 || p > i32::MAX as i64 {
            assert(!fits_i32(line_total(v[k as int])));
            return None;
        }
        let s = (acc as i64) + p;
        assert(v.take(k + 1).drop_last() =~= v.take(k as int));
        if s < i32::MIN as i64 || s > i32::MAX as i64 {
            assert(total_of(v.take(k + 1)) == s);
            return None;
        }
        acc = s as i32;
        k = k + 1;
    }
    assert(v.take(items.len() as int) =~= v);
    Some(acc)
}

/// Whether a row carries the order number `key`.
pub open spec fn numbered(key: Seq<char>) -> spec_fn(OrderRowView) -> bool {
    |r: OrderRowView| r.order_number == key
}

/// The line a row describes: its SKU, price and quantity.
pub open spec fn row_fields() -> spec_fn(OrderRowView) -> LineItemView {
    |r: OrderRowView| LineItemView { quantity: r.quantity, price: r.price, sku: r.sku }
}

/// Each grouped order holds, in row order, one line per row with its
/// number, and each line carries that row's SKU, price and quantity.
pub proof fn lemma_order_lines_are_its_rows(rows: Seq<OrderRowView>)
    ensures
        forall|i: int|
            0 <= i < group_rows(rows).len() ==> #[trigger] group_rows(rows)[i].line_items == rows.filter(
                numbered(group_rows(rows)[i].order_number),
            ).map_values(row_fields()),
{
    lemma_grouping_is_exact(rows);
    assert forall|i: int|
        0 <= i < group_rows(rows).len() implies #[trigger] group_rows(rows)[i].line_items == rows.filter(
            numbered(group_rows(rows)[i].order_number),
        ).map_values(row_fields()) by {
        lemma_lines_for_rows(rows, group_rows(rows)[i].order_number);
    }
}

proof fn lemma_lines_for_rows(rows: Seq<OrderRowView>, key: Seq<char>)
    ensures
        lines_for(rows, key) == rows.filter(numbered(key)).map_values(row_fields()),
    decreases rows.len(),
{
    reveal_with_fuel(Seq::filter, 1);
    if rows.len() == 0 {
        assert(rows.filter(numbered(key)).map_values(row_fields()) =~= Seq::<LineItemView>::empty());
    } else {
        let prev = rows.drop_last();
        lemma_lines_for_rows(prev, key);
        let fp = prev.filter(numbered(key));
        if rows.last().order_number == key {
            assert(rows.filter(numbered(key)) == fp.push(rows.last()));
            assert(fp.push(rows.last()).map_values(row_fields()) =~= fp.map_values(row_fields()).push(
                row_fields()(rows.last()),
            ));
        } else {
            assert(rows.filter(numbered(key)) == fp);
        }
    }
}

/// An order's total adds up price times quantity over all its lines: no
/// line gives nothing, and appending a line adds exactly its price times
/// its quantity.
pub proof fn lemma_total_adds_each_line(items: Seq<LineItemView>, l: LineItemView)
    ensures
        total_of(Seq::<LineItemView>::empty()) == 0,
        total_of(items.push(l)) == total_of(items) + l.price * l.quantity,
{
    assert(items.push(l).drop_last() =~= items);
}

/// Whether every availability reports its product in stock.
pub open spec fn all_in_stock(a: Seq<AvailabilityView>) -> bool {
    forall|k: int| 0 <= k < a.len() ==> (#[trigger] a[k]).is_in_stock
}

pub fn check_all_in_stock(a: &Vec<Availability>) -> (r: bool)
    ensures
        r == all_in_stock(availability_views(a@)),
{
    let mut k: usize = 0;
    while k < a.len()
        invariant
            k <= a.len(),
            forall|j: int| 0 <= j < k ==> (#[trigger] availability_views(a@)[j]).is_in_stock,
        decreases a.len() - k,
    {
        if !a[k].is_in_stock {
            assert(!availability_views(a@)[k as int].is_in_stock);
            return false;
        }
        k = k + 1;
    }
    true
}

/// The SKUs of the lines, in order.
pub fn skus_of(items: &Vec<LineItem>) -> (r: Vec<String>)
    ensures
        r@.len() == items@.len(),
        forall|k: int| 0 <= k < items@.len() ==> (#[trigger] r@[k])@ == items@[k].sku@,
{
    let mut out: Vec<String> = Vec::new();
    let mut k: usize = 0;
    while k < items.len()
        invariant
            k <= items.len(),
            out@.len() == k,
            forall|j: int| 0 <= j < k ==> (#[trigger] out@[j])@ == items@[j].sku@,
        decreases items.len() - k,
    {
        out.push(items[k].sku.clone());
        k = k + 1;
    }
    out
}

/// The text of one line as a SQL row: `(price,quantity,'sku')`.
pub open spec fn line_row_text(l: LineItemView) -> Seq<char> {
    seq!['('] + decimal_text(l.price as int) + seq![','] + decimal_text(l.quantity as int)
        + seq![',', '\''] + l.sku + seq!['\'', ')']
}

/// The rows of all lines joined by commas.
pub open spec fn line_rows_text(items: Seq<LineItemView>) -> Seq<char>
    decreases items.len(),
{
    if items.len() == 0 {
        Seq::empty()
    } else if items.len() == 1 {
        line_row_text(items[0])
    } else {
        line_rows_text(items.drop_last()) + seq![','] + line_row_text(items.last())
    }
}

/// The part of the order insertion statement before the line rows.
pub open spec fn insert_head() -> Seq<char> {
    "WITH order_id AS (\n   \tINSERT INTO orders.t_orders (order_number, total)\n   \tVALUES ($1, $2) RETURNING id\n), item_ids AS (\n   \tINSERT INTO orders.t_order_line_items (price, quantity, sku)\n   \tVALUES "@
}

/// The part of the order insertion statement after the line rows.
pub open spec fn insert_tail() -> Seq<char> {
    " RETURNING id\n), joins AS (\n   \tSELECT order_id.id as order_id, item_ids.id as item_id FROM order_id, item_ids\n)\nINSERT INTO orders.t_orders_order_line_items_list (order_id, order_line_items_list_id)\n(SELECT order_id, item_id FROM joins);\n"@
}

/// The statement that inserts an order, its lines and their links at once.
pub open spec fn insert_order_sql(items: Seq<LineItemView>) -> Seq<char> {
    insert_head() + line_rows_text(items) + insert_tail()
}

fn append_line_row(out: &mut String, l: &LineItem)
    ensures
        final(out)@ == old(out)@ + line_row_text(l@),
{
    proof {
        reveal_strlit("(");
        reveal_strlit(",");
        reveal_strlit(",'");
        reveal_strlit("')");
    }
    let ghost o = out@;
    out.append("(");
    append_decimal(out, l.price as i64);
    out.append(",");
    append_decimal(out, l.quantity as i64);
    out.append(",'");
    out.append(l.sku.as_str());
    out.append("')");
    assert(out@ =~= o + line_row_text(l@));
}

/// The insertion statement for the given lines.
pub fn insert_order_statement(items: &Vec<LineItem>) -> (r: String)
    ensures
        r@ == insert_order_sql(line_item_views(items@)),
{
    let ghost v = line_item_views(items@);
    let mut out = String::from_str("WITH order_id AS (\n   \tINSERT INTO orders.t_orders (order_number, total)\n   \tVALUES ($1, $2) RETURNING id\n), item_ids AS (\n   \tINSERT INTO orders.t_order_line_items (price, quantity, sku)\n   \tVALUES ");
    let mut k: usize = 0;
    assert(v.take(0) =~= Seq::<LineItemView>::empty());
    assert(out@ =~= insert_head() + line_rows_text(v.take(0)));
    while k < items.len()
        invariant
            k <= items.len(),
            v == line_item_views(items@),
            out@ == insert_head() + line_rows_text(v.take(k as int)),
        decreases items.len() - k,
    {
        proof {
            reveal_strlit(",");
        }
        let ghost before = out@;
        if k > 0 {
            out.append(",");
        }
        append_line_row(&mut out, &items[k]);
        assert(v.take(k + 1).drop_last() =~= v.take(k as int));
        assert(v[k as int] == items@[k as int]@);
        if k == 0 {
            assert(v.take(1) =~= seq![v[0]]);
        }
        assert(out@ =~= insert_head() + line_rows_text(v.take(k + 1)));
        k = k + 1;
    }
    assert(v.take(items.len() as int) =~= v);
    out.append(" RETURNING id\n), joins AS (\n   \tSELECT order_id.id as order_id, item_ids.id as item_id FROM order_id, item_ids\n)\nINSERT INTO orders.t_orders_order_line_items_list (order_id, order_line_items_list_id)\n(SELECT order_id, item_id FROM joins);\n");
    assert(out@ =~= insert_order_sql(v));
    out
}

} // verus!

verus! {

/// What the service does once it knows the availability of the lines.
pub enum OrderPlan {
    /// Run `sql` with the order number and the total as its parameters.
    Place { sql: String, order_number: String, total: i32 },
    /// Refuse the order.
    Reject(OrderError),
}

/// The text of the refusal for an order with a product out of stock.
pub open spec fn out_of_stock_text() -> Seq<char> {
    "Product(s) not in stock"@
}

/// The plan for an order under the given order number: an order whose
/// products are all in stock is inserted with its total, any other is
/// refused as out of stock.
pub fn plan_order_numbered(
    items: &Vec<LineItem>,
    availability: &Vec<Availability>,
    order_number: String,
) -> (r: OrderPlan)
    requires
        all_in_stock(availability_views(availability@)) ==> total_fits(line_item_views(items@)),
    ensures
        all_in_stock(availability_views(availability@)) <==> r is Place,
        r matches OrderPlan::Place { sql, order_number: n, total } ==> {
            &&& sql@ == insert_order_sql(line_item_views(items@))
            &&& n@ == order_number@
            &&& total == total_of(line_item_views(items@))
        },
        r matches OrderPlan::Reject(OrderError::Internal(msg)) ==> msg@ == out_of_stock_text(),
{
    if check_all_in_stock(availability) {
        let sql = insert_order_statement(items);
        let total = order_total(items).unwrap();
        OrderPlan::Place { sql, order_number, total }
    } else {
        OrderPlan::Reject(OrderError::Internal(String::from_str("Product(s) not in stock")))
    }
}

/// The plan for an order, numbering it with a fresh random UUID.
pub fn plan_order(items: &Vec<LineItem>, availability: &Vec<Availability>) -> (r: OrderPlan)
    requires
        all_in_stock(availability_views(availability@)) ==> total_fits(line_item_views(items@)),
    ensures
        all_in_stock(availability_views(availability@)) <==> r is Place,
        r matches OrderPlan::Place { sql, order_number: n, total } ==> {
            &&& sql@ == insert_order_sql(line_item_views(items@))
            &&& exists|id: u128| n@ == uuid_hyphenated(id)
            &&& total == total_of(line_item_views(items@))
        },
        r matches OrderPlan::Reject(OrderError::Internal(msg)) ==> msg@ == out_of_stock_text(),
{
    if check_all_in_stock(availability) {
        let id = new_uuid_v4();
        let number = uuid_text(id);
        plan_order_numbered(items, availability, number)
    } else {
        plan_order_numbered(items, availability, String::new())
    }
}

/// The notification to publish, with its subject.
pub struct Announcement {
    pub subject: String,
    pub notification: OrderNotification,
}

/// What follows the insertion: a failed insertion fails the order with the
/// store's error text, a successful one announces the order number.
pub fn after_insert(order_number: String, inserted: Result<(), String>) -> (r: Result<Announcement, OrderError>)
    ensures
        inserted is Ok <==> r is Ok,
        r matches Ok(a) ==> a.subject@ == "platform-poc.order-notification"@
            && a.notification.order_number@ == order_number@,
        r matches Err(OrderError::Internal(msg)) ==> msg@ == "Failed to insert order: "@
            + inserted->Err_0@,
{
    match inserted {
        Ok(()) => Ok(Announcement {
            subject: notification_subject(),
            notification: OrderNotification { order_number },
        }),
        Err(e) => {
            let mut msg = String::from_str("Failed to insert order: ");
            msg.append(e.as_str());
            Err(OrderError::Internal(msg))
        },
    }
}

/// The statement that reads the orders back.
pub fn orders_query() -> (r: String)
    ensures
        r@ == "SELECT\n    \"order\".order_number,\n    \"order\".total as order_total,\n    \"line_items\".sku,\n    \"line_items\".price,\n    \"line_items\".quantity\nFROM\n    orders.t_order_line_items as line_items\n    JOIN orders.t_orders_order_line_items_list as order_lines ON \"order_lines\".order_line_items_list_id = \"line_items\".id\n    JOIN orders.t_orders as \"order\" ON \"order\".id = \"order_lines\".order_id\nLIMIT 10;\n"@,
{
    String::from_str("SELECT\n    \"order\".order_number,\n    \"order\".total as order_total,\n    \"line_items\".sku,\n    \"line_items\".price,\n    \"line_items\".quantity\nFROM\n    orders.t_order_line_items as line_items\n    JOIN orders.t_orders_order_line_items_list as order_lines ON \"order_lines\".order_line_items_list_id = \"line_items\".id\n    JOIN orders.t_orders as \"order\" ON \"order\".id = \"order_lines\".order_id\nLIMIT 10;\n")
}

} // verus!
