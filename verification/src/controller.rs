use vstd::prelude::*;
use crate::routing::{best_route, capture_texts, plain_route, route_texts, routefinder_best_match};
use crate::shop_types::{Availability, LineItem, Order, Product, line_item_views};
use crate::text::{split_on, split_text, texts};
use crate::uuid_text::{parse_uuid, uuid_hyphenated, uuid_parsed, uuid_text};
use crate::orders_component::OrderError;

verus! {

/// The request methods the controller tells apart.
pub enum Method {
    Get,
    Post,
    Other,
}

/// The store that a data-init request names.
pub enum Schema {
    All,
    Inventory,
    Orders,
    Products,
}

impl Schema {
    /// The schema named by a route capture: `all`, `inventory`, `orders` or
    /// `products`; anything else, or no capture, is refused.
    pub fn try_from(value: Option<&str>) -> (r: Result<Schema, ()>)
        ensures
            match value {
                Some(v) => if v@ == "all"@ {
                    r == Ok::<Schema, ()>(Schema::All)
                } else if v@ == "inventory"@ {
                    r == Ok::<Schema, ()>(Schema::Inventory)
                } else if v@ == "orders"@ {
                    r == Ok::<Schema, ()>(Schema::Orders)
                } else if v@ == "products"@ {
                    r == Ok::<Schema, ()>(Schema::Products)
                } else {
                    r is Err
                },
                None => r is Err,
            },
    {
        match value {
            Some(v) => {
                let s = String::from_str(v);
                if s == String::from_str("all") {
                    Ok(Schema::All)
                } else if s == String::from_str("inventory") {
                    Ok(Schema::Inventory)
                } else if s == String::from_str("orders") {
                    Ok(Schema::Orders)
                } else if s == String::from_str("products") {
                    Ok(Schema::Products)
                } else {
                    Err(())
                }
            },
            None => Err(()),
        }
    }
}

/// An amount in pence.
pub struct Pence(pub i32);

/// An availability as the controller serialises it.
pub struct SerializableAvailability {
    pub sku: String,
    pub is_in_stock: bool,
}

/// An order line as the controller reads and writes it.
pub struct SerializableLineItem {
    pub sku: String,
    pub price: Pence,
    pub quantity: i32,
}

/// An order as the controller serialises it.
pub struct SerializableOrder {
    pub order_number: u128,
    pub line_items: Vec<SerializableLineItem>,
    pub total: Pence,
}

/// A product as the controller reads and writes it.
pub struct SerializableProduct {
    pub id: u128,
    pub name: String,
    pub description: String,
    pub price: i32,
    pub sku: String,
}

impl SerializableAvailability {
    pub fn from(product: &Availability) -> (r: SerializableAvailability)
        ensures
            r.sku@ == product.sku@,
            r.is_in_stock == product.is_in_stock,
    {
        SerializableAvailability { sku: product.sku.clone(), is_in_stock: product.is_in_stock }
    }
}

impl SerializableLineItem {
    pub fn from(value: &LineItem) -> (r: SerializableLineItem)
        ensures
            r.sku@ == value.sku@,
            r.price.0 == value.price,
            r.quantity == value.quantity,
    {
        SerializableLineItem { sku: value.sku.clone(), price: Pence(value.price), quantity: value.quantity }
    }

    /// The interface line for a serialised line.
    pub fn to_line_item(&self) -> (r: LineItem)
        ensures
            r.sku@ == self.sku@,
            r.price == self.price.0,
            r.quantity == self.quantity,
    {
        LineItem { sku: self.sku.clone(), price: self.price.0, quantity: self.quantity }
    }
}

/// Whether a serialised line shows an interface line.
pub open spec fn shows_line(s: SerializableLineItem, l: LineItem) -> bool {
    s.sku@ == l.sku@ && s.price.0 == l.price && s.quantity == l.quantity
}

impl SerializableOrder {
    /// The serialised order: the order number parsed as a UUID (failing
    /// with the parser's error text), the total and the lines.
    pub fn try_from(order: &Order) -> (r: Result<SerializableOrder, String>)
        ensures
            match r {
                Ok(s) => {
                    &&& uuid_parsed(order.order_number@) == Ok::<u128, Seq<char>>(s.order_number)
                    &&& s.total.0 == order.total
                    &&& s.line_items@.len() == order.line_items@.len()
                    &&& forall|k: int| 0 <= k < s.line_items@.len() ==> shows_line(#[trigger] s.line_items@[k], order.line_items@[k])
                },
                Err(e) => uuid_parsed(order.order_number@) == Err::<u128, Seq<char>>(e@),
            },
    {
        let order_number = parse_uuid(order.order_number.as_str())?;
        let mut line_items: Vec<SerializableLineItem> = Vec::new();
        let mut k: usize = 0;
        while k < order.line_items.len()
            invariant
                k <= order.line_items@.len(),
                line_items@.len() == k,
                forall|j: int| 0 <= j < k ==> shows_line(#[trigger] line_items@[j], order.line_items@[j]),
            decreases order.line_items.len() - k,
        {
            line_items.push(SerializableLineItem::from(&order.line_items[k]));
            k = k + 1;
        }
        Ok(SerializableOrder { order_number, line_items, total: Pence(order.total) })
    }
}

/// Whether a serialised product shows an interface product with the given
/// parsed id.
pub open spec fn shows_product(s: SerializableProduct, p: Product) -> bool {
    &&& s.name@ == p.name@
    &&& s.description@ == p.description@
    &&& s.price == p.price
    &&& s.sku@ == p.sku@
}

/// What `SerializableProduct::try_from` gives for an interface product: the
/// id parsed as a UUID with the other fields as they are, or the parser's
/// error text.
pub open spec fn serialised_product(p: Product, r: Result<SerializableProduct, String>) -> bool {
    match r {
        Ok(s) => uuid_parsed(p.id@) == Ok::<u128, Seq<char>>(s.id) && shows_product(s, p),
        Err(e) => uuid_parsed(p.id@) == Err::<u128, Seq<char>>(e@),
    }
}

/// What `SerializableProduct::to_product` gives: the id written out as a
/// hyphenated UUID, which parses back to it, and the other fields as they
/// are.
pub open spec fn product_of(s: SerializableProduct, p: Product) -> bool {
    &&& p.id@ == uuid_hyphenated(s.id)
    &&& uuid_parsed(p.id@) == Ok::<u128, Seq<char>>(s.id)
    &&& shows_product(s, p)
}

/// A serialised product written out as an interface product and read back
/// is the same product.
pub proof fn lemma_product_round_trip(s: SerializableProduct, p: Product, r: Result<SerializableProduct, String>)
    requires
        product_of(s, p),
        serialised_product(p, r),
    ensures
        r matches Ok(t) && t.id == s.id && t.name@ == s.name@ && t.description@ == s.description@
            && t.price == s.price && t.sku@ == s.sku@,
{
}

impl SerializableProduct {
    /// The serialised product: the id parsed as a UUID (failing with the
    /// parser's error text) and the other fields as they are.
    pub fn try_from(value: &Product) -> (r: Result<SerializableProduct, String>)
        ensures
            serialised_product(*value, r),
    {
        let id = parse_uuid(value.id.as_str())?;
        Ok(SerializableProduct {
            id,
            name: value.name.clone(),
            description: value.description.clone(),
            price: value.price,
            sku: value.sku.clone(),
        })
    }

    /// The interface product: the id written out as a hyphenated UUID.
    pub fn to_product(&self) -> (r: Product)
        ensures
            product_of(*self, r),
    {
        Product {
            id: uuid_text(self.id),
            name: self.name.clone(),
            description: self.description.clone(),
            price: self.price,
            sku: self.sku.clone(),
        }
    }
}

/// The body of a reply.
pub enum ReplyBody {
    Text(String),
    Availability(Vec<SerializableAvailability>),
    Orders(Vec<SerializableOrder>),
    Products(Vec<SerializableProduct>),
}

/// A reply: its status, its body (JSON for the list bodies), and the error
/// line to log, if any.
pub struct Reply {
    pub status: u16,
    pub body: ReplyBody,
    pub log: Option<String>,
}

pub open spec fn text_reply(r: Reply, status: u16, text: Seq<char>) -> bool {
    &&& r.status == status
    &&& r.body matches ReplyBody::Text(t) && t@ == text
    &&& r.log is None
}

/// `200 OK`.
pub fn ok() -> (r: Reply)
    ensures
        text_reply(r, 200, "200 OK"@),
{
    Reply { status: 200, body: ReplyBody::Text(String::from_str("200 OK")), log: None }
}

/// `200` with a JSON body.
pub fn ok_with_json(data: ReplyBody) -> (r: Reply)
    ensures
        r.status == 200,
        r.body == data,
        r.log is None,
{
    Reply { status: 200, body: data, log: None }
}

/// `201 Created`.
pub fn created() -> (r: Reply)
    ensures
        text_reply(r, 201, "201 Created"@),
{
    Reply { status: 201, body: ReplyBody::Text(String::from_str("201 Created")), log: None }
}

/// `404 Not Found`.
pub fn not_found() -> (r: Reply)
    ensures
        text_reply(r, 404, "404 Not Found"@),
{
    Reply { status: 404, body: ReplyBody::Text(String::from_str("404 Not Found")), log: None }
}

/// `405 Method Not Allowed`.
pub fn method_not_allowed() -> (r: Reply)
    ensures
        text_reply(r, 405, "405 Method Not Allowed"@),
{
    Reply { status: 405, body: ReplyBody::Text(String::from_str("405 Method Not Allowed")), log: None }
}

/// `400 Bad Request`.
pub fn bad_request() -> (r: Reply)
    ensures
        text_reply(r, 400, "400 Bad Request"@),
{
    Reply { status: 400, body: ReplyBody::Text(String::from_str("400 Bad Request")), log: None }
}

/// `500 Internal Server Error`, logging the message as an error.
pub fn server_error(msg: &str) -> (r: Reply)
    ensures
        r.status == 500,
        r.body matches ReplyBody::Text(t) && t@ == "500 Internal Server Error"@,
        r.log matches Some(l) && l@ == msg@,
{
    Reply {
        status: 500,
        body: ReplyBody::Text(String::from_str("500 Internal Server Error")),
        log: Some(String::from_str(msg)),
    }
}

} // verus!

verus! {

/// Where a request goes.
pub enum Route {
    NotFound,
    BadSchema,
    DataInit(Schema),
    Inventory,
    Orders,
    Products,
}

/// The controller's routes, in the order they are added.
pub open spec fn controller_routes() -> Seq<Seq<char>> {
    seq!["/data-init/:action"@, "/inventory"@, "/orders"@, "/products"@]
}

/// The value of the first capture with this name.
pub open spec fn capture_of(c: Seq<(Seq<char>, Seq<char>)>, name: Seq<char>) -> Option<Seq<char>>
    decreases c.len(),
{
    if c.len() == 0 {
        None
    } else if c[0].0 == name {
        Some(c[0].1)
    } else {
        capture_of(c.drop_first(), name)
    }
}

pub open spec fn schema_of(v: Option<Seq<char>>) -> Option<Schema> {
    match v {
        Some(t) => if t == "all"@ {
            Some(Schema::All)
        } else if t == "inventory"@ {
            Some(Schema::Inventory)
        } else if t == "orders"@ {
            Some(Schema::Orders)
        } else if t == "products"@ {
            Some(Schema::Products)
        } else {
            None
        },
        None => None,
    }
}

/// The route that a router match selects: no match is not found; the
/// data-init route needs a known `action` capture; the others go to their
/// handler.
pub open spec fn route_of_match(m: Option<(int, Seq<(Seq<char>, Seq<char>)>)>) -> Route {
    match m {
        None => Route::NotFound,
        Some((i, caps)) => if i == 0 {
            match schema_of(capture_of(caps, "action"@)) {
                Some(s) => Route::DataInit(s),
                None => Route::BadSchema,
            }
        } else if i == 1 {
            Route::Inventory
        } else if i == 2 {
            Route::Orders
        } else {
            Route::Products
        },
    }
}

fn find_capture<'a>(caps: &'a Vec<(String, String)>, name: &str) -> (r: Option<&'a str>)
    ensures
        match capture_of(capture_texts(caps@), name@) {
            Some(v) => r is Some && r.unwrap()@ == v,
            None => r is None,
        },
{
    let key = String::from_str(name);
    let mut k: usize = 0;
    assert(capture_texts(caps@).skip(0) =~= capture_texts(caps@));
    while k < caps.len()
        invariant
            k <= caps@.len(),
            key@ == name@,
            capture_of(capture_texts(caps@), name@) == capture_of(capture_texts(caps@).skip(k as int), name@),
        decreases caps.len() - k,
    {
        let ghost c = capture_texts(caps@).skip(k as int);
        assert(c[0] == (caps@[k as int].0@, caps@[k as int].1@));
        if caps[k].0 == key {
            return Some(caps[k].1.as_str());
        }
        assert(c.drop_first() =~= capture_texts(caps@).skip(k + 1));
        k = k + 1;
    }
    None
}

/// The route of a router match.
pub fn route_from_match(m: Option<(usize, Vec<(String, String)>)>) -> (r: Route)
    ensures
        r == route_of_match(crate::routing::match_view(m)),
{
    match m {
        None => Route::NotFound,
        Some((i, caps)) => {
            if i == 0 {
                let action = find_capture(&caps, "action");
                match Schema::try_from(action) {
                    Ok(s) => Route::DataInit(s),
                    Err(()) => Route::BadSchema,
                }
            } else if i == 1 {
                Route::Inventory
            } else if i == 2 {
                Route::Orders
            } else {
                Route::Products
            }
        },
    }
}

/// Routes a request path with `routefinder` over the controller's routes.
pub fn route(path: &str) -> (r: Route)
    ensures
        r == route_of_match(routefinder_best_match(controller_routes(), path@)),
{
    let mut routes: Vec<String> = Vec::new();
    routes.push(String::from_str("/data-init/:action"));
    routes.push(String::from_str("/inventory"));
    routes.push(String::from_str("/orders"));
    routes.push(String::from_str("/products"));
    proof {
        reveal_strlit("/data-init/:action");
        reveal_strlit("/inventory");
        reveal_strlit("/orders");
        reveal_strlit("/products");
        assert(route_texts(routes@) =~= controller_routes());
        assert forall|i: int| 0 <= i < routes@.len() implies plain_route(#[trigger] routes@[i]@) by {
            let t = routes@[i]@;
            if i == 0 {
                assert forall|j: int| 0 <= j < t.len() && #[trigger] t[j] == ':' implies j + 1 < t.len()
                    && t[j + 1] != '/' && t[j + 1] != '.' by {
                    assert(j == 11);
                }
            }
        }
    }
    route_from_match(best_route(&routes, path))
}

/// The work a routed request asks for.
pub enum Plan {
    /// Answer at once.
    Respond(Reply),
    /// Initialise this store.
    Init(Schema),
    /// Ask the inventory about these SKUs.
    GetInventory(Vec<String>),
    /// List the orders.
    GetOrders,
    /// Read the body as order lines and create an order.
    CreateOrder,
    /// List the products.
    ListProducts,
    /// Read the body as a product and create it.
    CreateProduct,
}

/// The work for a request on a route with a method and, for the
/// inventory, its `skus` query value. A bad schema is refused before the
/// method is looked at, and so is an inventory query without `skus`; a
/// method the route does not serve is refused with 405.
pub open spec fn plan_of(route: Route, method: Method, skus: Option<Seq<char>>, p: Plan) -> bool {
    match route {
        Route::NotFound => p matches Plan::Respond(r) && text_reply(r, 404, "404 Not Found"@),
        Route::BadSchema => p matches Plan::Respond(r) && text_reply(r, 400, "400 Bad Request"@),
        Route::DataInit(s) => match method {
            Method::Get => p == Plan::Init(s),
            _ => p matches Plan::Respond(r) && text_reply(r, 405, "405 Method Not Allowed"@),
        },
        Route::Inventory => match skus {
            None => p matches Plan::Respond(r) && text_reply(r, 400, "400 Bad Request"@),
            Some(list) => match method {
                Method::Get => p matches Plan::GetInventory(v) && texts(v@) == split_text(list, ','),
                _ => p matches Plan::Respond(r) && text_reply(r, 405, "405 Method Not Allowed"@),
            },
        },
        Route::Orders => match method {
            Method::Get => p == Plan::GetOrders,
            Method::Post => p == Plan::CreateOrder,
            _ => p matches Plan::Respond(r) && text_reply(r, 405, "405 Method Not Allowed"@),
        },
        Route::Products => match method {
            Method::Get => p == Plan::ListProducts,
            Method::Post => p == Plan::CreateProduct,
            _ => p matches Plan::Respond(r) && text_reply(r, 405, "405 Method Not Allowed"@),
        },
    }
}

pub open spec fn opt_text(o: Option<String>) -> Option<Seq<char>> {
    match o {
        Some(s) => Some(s@),
        None => None,
    }
}

/// Decides the work for a routed request.
pub fn plan(route: Route, method: Method, skus: Option<String>) -> (p: Plan)
    ensures
        plan_of(route, method, opt_text(skus), p),
{
    match route {
        Route::NotFound => Plan::Respond(not_found()),
        Route::BadSchema => Plan::Respond(bad_request()),
        Route::DataInit(s) => match method {
            Method::Get => Plan::Init(s),
            _ => Plan::Respond(method_not_allowed()),
        },
        Route::Inventory => match skus {
            None => Plan::Respond(bad_request()),
            Some(list) => match method {
                Method::Get => Plan::GetInventory(split_on(list.as_str(), ',')),
                _ => Plan::Respond(method_not_allowed()),
            },
        },
        Route::Orders => match method {
            Method::Get => Plan::GetOrders,
            Method::Post => Plan::CreateOrder,
            _ => Plan::Respond(method_not_allowed()),
        },
        Route::Products => match method {
            Method::Get => Plan::ListProducts,
            Method::Post => Plan::CreateProduct,
            _ => Plan::Respond(method_not_allowed()),
        },
    }
}

} // verus!

verus! {

/// A 500 reply that logs `prefix` followed by the error text.
pub open spec fn error_reply(r: Reply, prefix: Seq<char>, e: Seq<char>) -> bool {
    &&& r.status == 500
    &&& r.body matches ReplyBody::Text(t) && t@ == "500 Internal Server Error"@
    &&& r.log matches Some(l) && l@ == prefix + e
}

fn fail_with(prefix: &str, e: &str) -> (r: Reply)
    ensures
        error_reply(r, prefix@, e@),
{
    let mut msg = String::from_str(prefix);
    msg.append(e);
    server_error(msg.as_str())
}

pub open spec fn init_failure_prefix(s: Schema) -> Seq<char> {
    match s {
        Schema::All => "failed to initialize all schemas: "@,
        Schema::Inventory => "failed to initialize inventory schema: "@,
        Schema::Orders => "failed to initialize orders schema: "@,
        Schema::Products => "failed to initialize products schema: "@,
    }
}

/// The reply to a data-init request once the store answered.
pub fn after_init(schema: Schema, result: Result<(), String>) -> (r: Reply)
    ensures
        match result {
            Ok(()) => text_reply(r, 200, "200 OK"@),
            Err(e) => error_reply(r, init_failure_prefix(schema), e@),
        },
{
    match result {
        Ok(()) => ok(),
        Err(e) => match schema {
            Schema::All => fail_with("failed to initialize all schemas: ", e.as_str()),
            Schema::Inventory => fail_with("failed to initialize inventory schema: ", e.as_str()),
            Schema::Orders => fail_with("failed to initialize orders schema: ", e.as_str()),
            Schema::Products => fail_with("failed to initialize products schema: ", e.as_str()),
        },
    }
}

/// The reply to an inventory request once the inventory answered: the
/// availabilities as JSON, or a logged failure.
pub fn after_inventory(result: Result<Vec<Availability>, String>) -> (r: Reply)
    ensures
        match result {
            Ok(v) => {
                &&& r.status == 200
                &&& r.log is None
                &&& r.body matches ReplyBody::Availability(b) && b@.len() == v@.len() && forall|k: int|
                    0 <= k < v@.len() ==> (#[trigger] b@[k]).sku@ == v@[k].sku@ && b@[k].is_in_stock
                        == v@[k].is_in_stock
            },
            Err(e) => error_reply(r, "failed to get inventory: "@, e@),
        },
{
    match result {
        Ok(v) => {
            let mut body: Vec<SerializableAvailability> = Vec::new();
            let mut k: usize = 0;
            while k < v.len()
                invariant
                    k <= v@.len(),
                    body@.len() == k,
                    forall|j: int|
                        0 <= j < k ==> (#[trigger] body@[j]).sku@ == v@[j].sku@ && body@[j].is_in_stock
                            == v@[j].is_in_stock,
                decreases v.len() - k,
            {
                body.push(SerializableAvailability::from(&v[k]));
                k = k + 1;
            }
            ok_with_json(ReplyBody::Availability(body))
        },
        Err(e) => fail_with("failed to get inventory: ", e.as_str()),
    }
}

/// The index of the first order whose number is not a UUID, or the length.
pub open spec fn first_bad_order(orders: Seq<Order>) -> int
    decreases orders.len(),
{
    if orders.len() == 0 {
        0
    } else {
        let p = first_bad_order(orders.drop_last());
        if p < orders.len() - 1 {
            p
        } else if uuid_parsed(orders.last().order_number@) is Err {
            orders.len() - 1
        } else {
            orders.len() as int
        }
    }
}

proof fn lemma_first_bad_order(orders: Seq<Order>)
    ensures
        0 <= first_bad_order(orders) <= orders.len(),
        first_bad_order(orders) < orders.len() ==> uuid_parsed(orders[first_bad_order(orders)].order_number@) is Err,
        forall|j: int| 0 <= j < first_bad_order(orders) ==> uuid_parsed(#[trigger] orders[j].order_number@) is Ok,
    decreases orders.len(),
{
    if orders.len() > 0 {
        let prefix = orders.drop_last();
        lemma_first_bad_order(prefix);
        assert forall|j: int| 0 <= j < first_bad_order(orders) implies uuid_parsed(#[trigger] orders[j].order_number@) is Ok by {
            assert(j < prefix.len() ==> orders[j] == prefix[j]);
            if j == prefix.len() {
                assert(orders[j] == orders.last());
            }
        }
    }
}

/// Whether a serialised order shows an interface order.
pub open spec fn shows_order(s: SerializableOrder, o: Order) -> bool {
    &&& uuid_parsed(o.order_number@) == Ok::<u128, Seq<char>>(s.order_number)
    &&& s.total.0 == o.total
    &&& s.line_items@.len() == o.line_items@.len()
    &&& forall|k: int| 0 <= k < s.line_items@.len() ==> shows_line(#[trigger] s.line_items@[k], o.line_items@[k])
}

/// The serialised orders, or the parse error of the first order number that
/// is not a UUID.
pub fn serialize_get_orders(v: &Vec<Order>) -> (r: Result<Vec<SerializableOrder>, String>)
    ensures
        match r {
            Ok(b) => first_bad_order(v@) == v@.len() && b@.len() == v@.len() && forall|k: int|
                0 <= k < v@.len() ==> shows_order(#[trigger] b@[k], v@[k]),
            Err(e) => first_bad_order(v@) < v@.len() && uuid_parsed(v@[first_bad_order(v@)].order_number@)
                == Err::<u128, Seq<char>>(e@),
        },
{
    let mut body: Vec<SerializableOrder> = Vec::new();
    let mut k: usize = 0;
    proof {
        lemma_first_bad_order(v@);
    }
    while k < v.len()
        invariant
            k <= v@.len(),
            k <= first_bad_order(v@) <= v@.len(),
            first_bad_order(v@) < v@.len() ==> uuid_parsed(v@[first_bad_order(v@)].order_number@) is Err,
            forall|j: int| 0 <= j < first_bad_order(v@) ==> uuid_parsed(#[trigger] v@[j].order_number@) is Ok,
            body@.len() == k,
            forall|j: int| 0 <= j < k ==> shows_order(#[trigger] body@[j], v@[j]),
        decreases v.len() - k,
    {
        match SerializableOrder::try_from(&v[k]) {
            Ok(s) => {
                body.push(s);
            },
            Err(e) => {
                proof {
                    if first_bad_order(v@) > k as int {
                        assert(uuid_parsed(v@[k as int].order_number@) is Ok);
                    }
                }
                return Err(e);
            },
        }
        k = k + 1;
    }
    Ok(body)
}

/// The serialised products, or the parse error of the first id that is
/// not a UUID.
pub fn serialize_list_products(v: &Vec<Product>) -> (r: Result<Vec<SerializableProduct>, String>)
    ensures
        match r {
            Ok(b) => first_bad_product(v@) == v@.len() && b@.len() == v@.len() && forall|k: int|
                0 <= k < v@.len() ==> uuid_parsed(v@[k].id@) == Ok::<u128, Seq<char>>((#[trigger] b@[k]).id)
                    && shows_product(b@[k], v@[k]),
            Err(e) => first_bad_product(v@) < v@.len() && uuid_parsed(v@[first_bad_product(v@)].id@)
                == Err::<u128, Seq<char>>(e@),
        },
{
    let mut body: Vec<SerializableProduct> = Vec::new();
    let mut k: usize = 0;
    proof {
        lemma_first_bad_product(v@);
    }
    while k < v.len()
        invariant
            k <= v@.len(),
            k <= first_bad_product(v@) <= v@.len(),
            first_bad_product(v@) < v@.len() ==> uuid_parsed(v@[first_bad_product(v@)].id@) is Err,
            forall|j: int| 0 <= j < first_bad_product(v@) ==> uuid_parsed(#[trigger] v@[j].id@) is Ok,
            body@.len() == k,
            forall|j: int|
                0 <= j < k ==> uuid_parsed(v@[j].id@) == Ok::<u128, Seq<char>>((#[trigger] body@[j]).id)
                    && shows_product(body@[j], v@[j]),
        decreases v.len() - k,
    {
        match SerializableProduct::try_from(&v[k]) {
            Ok(s) => {
                body.push(s);
            },
            Err(e) => {
                proof {
                    if first_bad_product(v@) > k as int {
                        assert(uuid_parsed(v@[k as int].id@) is Ok);
                    }
                }
                return Err(e);
            },
        }
        k = k + 1;
    }
    Ok(body)
}

/// The reply to an order listing: the orders as JSON when every order
/// number is a UUID; otherwise a logged failure naming the parse error of
/// the first bad number; or a logged failure of the listing itself.
pub fn after_get_orders(result: Result<Vec<Order>, String>) -> (r: Reply)
    ensures
        match result {
            Ok(v) => if first_bad_order(v@) < v@.len() {
                error_reply(
                    r,
                    "failed to parse orders: "@,
                    uuid_parsed(v@[first_bad_order(v@)].order_number@)->Err_0,
                )
            } else {
                &&& r.status == 200
                &&& r.log is None
                &&& r.body matches ReplyBody::Orders(b) && b@.len() == v@.len() && forall|k: int|
                    0 <= k < v@.len() ==> shows_order(#[trigger] b@[k], v@[k])
            },
            Err(e) => error_reply(r, "failed to get orders: "@, e@),
        },
{
    match result {
        Ok(v) => match serialize_get_orders(&v) {
            Ok(body) => ok_with_json(ReplyBody::Orders(body)),
            Err(e) => fail_with("failed to parse orders: ", e.as_str()),
        },
        Err(e) => fail_with("failed to get orders: ", e.as_str()),
    }
}

/// The interface lines for the serialised lines of an order request.
pub fn order_lines(items: &Vec<SerializableLineItem>) -> (r: Vec<LineItem>)
    ensures
        r@.len() == items@.len(),
        forall|k: int| 0 <= k < r@.len() ==> shows_line(items@[k], #[trigger] r@[k]),
{
    let mut out: Vec<LineItem> = Vec::new();
    let mut k: usize = 0;
    while k < items.len()
        invariant
            k <= items@.len(),
            out@.len() == k,
            forall|j: int| 0 <= j < k ==> shows_line(items@[j], #[trigger] out@[j]),
        decreases items.len() - k,
    {
        out.push(items[k].to_line_item());
        k = k + 1;
    }
    out
}

/// The reply once an order was submitted.
pub fn after_create_order(result: Result<(), OrderError>) -> (r: Reply)
    ensures
        match result {
            Ok(()) => text_reply(r, 201, "201 Created"@),
            Err(OrderError::Internal(msg)) => error_reply(r, "failed to create order: "@, msg@),
        },
{
    match result {
        Ok(()) => created(),
        Err(OrderError::Internal(msg)) => fail_with("failed to create order: ", msg.as_str()),
    }
}

/// The index of the first product whose id is not a UUID, or the length.
pub open spec fn first_bad_product(products: Seq<Product>) -> int
    decreases products.len(),
{
    if products.len() == 0 {
        0
    } else {
        let p = first_bad_product(products.drop_last());
        if p < products.len() - 1 {
            p
        } else if uuid_parsed(products.last().id@) is Err {
            products.len() - 1
        } else {
            products.len() as int
        }
    }
}

proof fn lemma_first_bad_product(products: Seq<Product>)
    ensures
        0 <= first_bad_product(products) <= products.len(),
        first_bad_product(products) < products.len() ==> uuid_parsed(products[first_bad_product(products)].id@) is Err,
        forall|j: int| 0 <= j < first_bad_product(products) ==> uuid_parsed(#[trigger] products[j].id@) is Ok,
    decreases products.len(),
{
    if products.len() > 0 {
        let prefix = products.drop_last();
        lemma_first_bad_product(prefix);
        assert forall|j: int| 0 <= j < first_bad_product(products) implies uuid_parsed(#[trigger] products[j].id@) is Ok by {
            assert(j < prefix.len() ==> products[j] == prefix[j]);
            if j == prefix.len() {
                assert(products[j] == products.last());
            }
        }
    }
}

/// The reply to a product listing: the products as JSON when every id is
/// a UUID; otherwise a logged failure naming the parse error of the first
/// bad id; or a logged failure of the listing itself.
pub fn after_list_products(result: Result<Vec<Product>, String>) -> (r: Reply)
    ensures
        match result {
            Ok(v) => if first_bad_product(v@) < v@.len() {
                error_reply(r, "failed to parse products: "@, uuid_parsed(v@[first_bad_product(v@)].id@)->Err_0)
            } else {
                &&& r.status == 200
                &&& r.log is None
                &&& r.body matches ReplyBody::Products(b) && b@.len() == v@.len() && forall|k: int|
                    0 <= k < v@.len() ==> uuid_parsed(v@[k].id@) == Ok::<u128, Seq<char>>((#[trigger] b@[k]).id)
                        && shows_product(b@[k], v@[k])
            },
            Err(e) => error_reply(r, "failed to list products: "@, e@),
        },
{
    match result {
        Ok(v) => match serialize_list_products(&v) {
            Ok(body) => ok_with_json(ReplyBody::Products(body)),
            Err(e) => fail_with("failed to parse products: ", e.as_str()),
        },
        Err(e) => fail_with("failed to list products: ", e.as_str()),
    }
}

/// The reply once a product was submitted.
pub fn after_create_product(result: Result<(), String>) -> (r: Reply)
    ensures
        match result {
            Ok(()) => text_reply(r, 201, "201 Created"@),
            Err(e) => error_reply(r, "failed to create product: "@, e@),
        },
{
    match result {
        Ok(()) => created(),
        Err(e) => fail_with("failed to create product: ", e.as_str()),
    }
}

} // verus!
