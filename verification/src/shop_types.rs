use vstd::prelude::*;

verus! {

/// Whether a product, known by its SKU, is in stock.
pub struct Availability {
    pub sku: String,
    pub is_in_stock: bool,
}

/// The event published when an order was placed.
pub struct OrderNotification {
    pub order_number: String,
}

/// An order line: a quantity of one product at a price in pence.
pub struct LineItem {
    pub sku: String,
    /// amount in pence
    pub price: i32,
    pub quantity: i32,
}

/// A placed order and its lines.
pub struct Order {
    /// UUID
    pub order_number: String,
    pub line_items: Vec<LineItem>,
    /// amount in pence
    pub total: i32,
}

/// A catalogue entry.
pub struct Product {
    /// UUID
    pub id: String,
    pub name: String,
    pub description: String,
    pub price: i32,
    pub sku: String,
}

/// The value of a Postgres cell, as far as the services read it.
pub enum PgValue {
    Text(String),
    Int4(i32),
    Integer(i32),
    Other,
}

/// One named cell of a result row.
pub struct ResultRowEntry {
    pub column_name: String,
    pub value: PgValue,
}

pub struct AvailabilityView {
    pub sku: Seq<char>,
    pub is_in_stock: bool,
}

pub struct LineItemView {
    pub sku: Seq<char>,
    pub price: i32,
    pub quantity: i32,
}

pub struct OrderView {
    pub order_number: Seq<char>,
    pub line_items: Seq<LineItemView>,
    pub total: i32,
}

pub struct ProductView {
    pub id: Seq<char>,
    pub name: Seq<char>,
    pub description: Seq<char>,
    pub price: i32,
    pub sku: Seq<char>,
}

impl View for Availability {
    type V = AvailabilityView;

    open spec fn view(&self) -> AvailabilityView {
        AvailabilityView { sku: self.sku@, is_in_stock: self.is_in_stock }
    }
}

impl View for LineItem {
    type V = LineItemView;

    open spec fn view(&self) -> LineItemView {
        LineItemView { sku: self.sku@, price: self.price, quantity: self.quantity }
    }
}

impl View for Order {
    type V = OrderView;

    open spec fn view(&self) -> OrderView {
        OrderView {
            order_number: self.order_number@,
            line_items: line_item_views(self.line_items@),
            total: self.total,
        }
    }
}

impl View for Product {
    type V = ProductView;

    open spec fn view(&self) -> ProductView {
        ProductView {
            id: self.id@,
            name: self.name@,
            description: self.description@,
            price: self.price,
            sku: self.sku@,
        }
    }
}

pub open spec fn line_item_views(v: Seq<LineItem>) -> Seq<LineItemView> {
    v.map_values(|l: LineItem| l@)
}

pub open spec fn order_views(v: Seq<Order>) -> Seq<OrderView> {
    v.map_values(|o: Order| o@)
}

pub open spec fn availability_views(v: Seq<Availability>) -> Seq<AvailabilityView> {
    v.map_values(|a: Availability| a@)
}

/// Whether a string holds exactly the text of `lit`.
pub fn text_is(s: &String, lit: &str) -> (r: bool)
    ensures
        r == (s@ == lit@),
{
    let other = String::from_str(lit);
    *s == other
}

} // verus!
