use vstd::prelude::*;
use crate::controller::Pence;
use crate::shop_types::PgValue;
use crate::uuid_text::new_uuid_v4;

verus! {

/// A sample product as it is written to the key-value store.
pub struct SerializableProduct {
    pub id: u128,
    pub name: String,
    pub description: String,
    pub price: Pence,
    pub sku: String,
}

/// A catalogue entry without its identifier: name, description, price in
/// pence and SKU.
pub struct SampleEntry {
    pub name: Seq<char>,
    pub description: Seq<char>,
    pub price: i32,
    pub sku: Seq<char>,
}

/// Whether a product carries the fields of a catalogue entry.
pub open spec fn shows_entry(p: SerializableProduct, e: SampleEntry) -> bool {
    &&& p.name@ == e.name
    &&& p.description@ == e.description
    &&& p.price.0 == e.price
    &&& p.sku@ == e.sku
}

/// The sample catalogue, in the order in which it is seeded.
pub open spec fn sample_catalogue() -> Seq<SampleEntry> {
    seq![
        SampleEntry { name: "Car Engine"@, description: "V8 engine with 500 horsepower"@, price: 8500i32, sku: "ENG-V8-500"@ },
        SampleEntry { name: "Brake Pads"@, description: "High performance brake pads"@, price: 150i32, sku: "BRK-PD-HP"@ },
        SampleEntry { name: "Air Filter"@, description: "Premium air filter for increased airflow"@, price: 30i32, sku: "AIR-FLT-PREM"@ },
        SampleEntry { name: "Spark Plugs"@, description: "High-efficiency spark plugs"@, price: 60i32, sku: "SPK-PLG-HI-EFF"@ },
        SampleEntry { name: "Tire Set"@, description: "Set of 4 all-season tires"@, price: 600i32, sku: "TIR-SET-AS"@ },
        SampleEntry { name: "Battery"@, description: "High-capacity car battery"@, price: 120i32, sku: "BAT-HC-12V"@ },
        SampleEntry { name: "Windshield Wipers"@, description: "All-weather windshield wipers"@, price: 45i32, sku: "WND-WPR-AW"@ },
        SampleEntry { name: "Fuel Pump"@, description: "Electric fuel pump for efficient fuel delivery"@, price: 220i32, sku: "FL-PMP-ELEC"@ },
        SampleEntry { name: "Radiator"@, description: "High-efficiency car radiator"@, price: 320i32, sku: "RAD-HI-EFF"@ },
        SampleEntry { name: "Headlights"@, description: "LED headlights with long lifespan"@, price: 250i32, sku: "HDL-LED-LONG"@ },
        SampleEntry { name: "Alternator"@, description: "High output alternator for enhanced performance"@, price: 300i32, sku: "ALT-HO-ENH"@ },
        SampleEntry { name: "Exhaust System"@, description: "Performance exhaust system"@, price: 750i32, sku: "EXH-SYS-PERF"@ },
        SampleEntry { name: "Suspension Kit"@, description: "Complete suspension kit for improved handling"@, price: 900i32, sku: "SUS-KIT-IMP"@ },
        SampleEntry { name: "Turbocharger"@, description: "High-performance turbocharger"@, price: 1400i32, sku: "TRB-CHR-HP"@ },
    ]
}

/// A product with a fresh random identifier and the given fields.
fn sample(name: &str, description: &str, price: i32, sku: &str) -> (r: SerializableProduct)
    ensures
        r.name@ == name@,
        r.description@ == description@,
        r.price.0 == price,
        r.sku@ == sku@,
{
    SerializableProduct {
        id: new_uuid_v4(),
        name: String::from_str(name),
        description: String::from_str(description),
        price: Pence(price),
        sku: String::from_str(sku),
    }
}

/// The sample catalogue, each product with a fresh random identifier.
pub fn sample_products() -> (r: Vec<SerializableProduct>)
    ensures
        r.len() == sample_catalogue().len(),
        forall|i: int| 0 <= i < r.len() ==> shows_entry(#[trigger] r[i], sample_catalogue()[i]),
{
    let mut v: Vec<SerializableProduct> = Vec::new();
    v.push(sample("Car Engine", "V8 engine with 500 horsepower", 8500, "ENG-V8-500"));
    v.push(sample("Brake Pads", "High performance brake pads", 150, "BRK-PD-HP"));
    v.push(sample("Air Filter", "Premium air filter for increased airflow", 30, "AIR-FLT-PREM"));
    v.push(sample("Spark Plugs", "High-efficiency spark plugs", 60, "SPK-PLG-HI-EFF"));
    v.push(sample("Tire Set", "Set of 4 all-season tires", 600, "TIR-SET-AS"));
    v.push(sample("Battery", "High-capacity car battery", 120, "BAT-HC-12V"));
    v.push(sample("Windshield Wipers", "All-weather windshield wipers", 45, "WND-WPR-AW"));
    v.push(sample("Fuel Pump", "Electric fuel pump for efficient fuel delivery", 220, "FL-PMP-ELEC"));
    v.push(sample("Radiator", "High-efficiency car radiator", 320, "RAD-HI-EFF"));
    v.push(sample("Headlights", "LED headlights with long lifespan", 250, "HDL-LED-LONG"));
    v.push(sample("Alternator", "High output alternator for enhanced performance", 300, "ALT-HO-ENH"));
    v.push(sample("Exhaust System", "Performance exhaust system", 750, "EXH-SYS-PERF"));
    v.push(sample("Suspension Kit", "Complete suspension kit for improved handling", 900, "SUS-KIT-IMP"));
    v.push(sample("Turbocharger", "High-performance turbocharger", 1400, "TRB-CHR-HP"));
    assert(forall|i: int| 0 <= i < v.len() ==> shows_entry(#[trigger] v[i], sample_catalogue()[i]));
    v
}

/// A statement and its parameters, as handed to the Postgres host.
pub struct Statement {
    pub text: String,
    pub params: Vec<PgValue>,
}

/// Whether a statement has the given text and no parameters.
pub open spec fn bare_statement(st: Statement, text: Seq<char>) -> bool {
    st.text@ == text && st.params.len() == 0
}

/// The statement that creates the inventory schema.
pub open spec fn inventory_schema_sql() -> Seq<char> {
    "-- Create the schema if it does not exist\n        CREATE SCHEMA IF NOT EXISTS inventory;\n        "@
}

/// The statement that creates the inventory table.
pub open spec fn inventory_table_sql() -> Seq<char> {
    "-- Create the table in the inventory schema only if it does not exist\n        CREATE TABLE IF NOT EXISTS inventory.t_inventory (\n            id bigint NOT NULL GENERATED BY DEFAULT AS IDENTITY,\n            quantity integer,\n            sku text,\n            PRIMARY KEY (id)\n        );"@
}

/// The statement that records the stock of one SKU.
pub open spec fn inventory_insert_sql() -> Seq<char> {
    "INSERT INTO inventory.t_inventory (quantity, sku) VALUES ($1, $2);"@
}

/// The quantity seeded for the product at `index` of `count`: the first
/// half (rounded down) are stocked with 10, the rest with none.
pub open spec fn seeded_quantity(index: int, count: int) -> i32 {
    if index < count / 2 { 10 } else { 0 }
}

/// Whether a statement records `quantity` of `sku`.
pub open spec fn stock_statement(st: Statement, quantity: i32, sku: Seq<char>) -> bool {
    &&& st.text@ == inventory_insert_sql()
    &&& st.params.len() == 2
    &&& st.params[0] == PgValue::Integer(quantity)
    &&& st.params[1] matches PgValue::Text(t) && t@ == sku
}

/// The statements that seed the inventory for `products`: the schema, the
/// table, then one row per product in order, the first half in stock.
pub fn inventory_statements(products: &Vec<SerializableProduct>) -> (r: Vec<Statement>)
    requires
        products.len() + 2 <= usize::MAX,
    ensures
        r.len() == products.len() + 2,
        bare_statement(r[0], inventory_schema_sql()),
        bare_statement(r[1], inventory_table_sql()),
        forall|k: int| 0 <= k < products.len() ==> stock_statement(
            #[trigger] r[k + 2],
            seeded_quantity(k, products.len() as int),
            products[k].sku@,
        ),
{
    let mut r: Vec<Statement> = Vec::new();
    r.push(Statement { text: String::from_str("-- Create the schema if it does not exist\n        CREATE SCHEMA IF NOT EXISTS inventory;\n        "), params: Vec::new() });
    r.push(Statement { text: String::from_str("-- Create the table in the inventory schema only if it does not exist\n        CREATE TABLE IF NOT EXISTS inventory.t_inventory (\n            id bigint NOT NULL GENERATED BY DEFAULT AS IDENTITY,\n            quantity integer,\n            sku text,\n            PRIMARY KEY (id)\n        );"), params: Vec::new() });
    let half = products.len() / 2;
    let mut k: usize = 0;
    while k < products.len()
        invariant
            k <= products.len(),
            half == products.len() / 2,
            r.len() == k + 2,
            bare_statement(r[0], inventory_schema_sql()),
            bare_statement(r[1], inventory_table_sql()),
            forall|j: int| 0 <= j < k ==> stock_statement(
                #[trigger] r[j + 2],
                seeded_quantity(j, products.len() as int),
                products[j].sku@,
            ),
        decreases products.len() - k,
    {
        let quantity: i32 = if k < half { 10 } else { 0 };
        let mut params: Vec<PgValue> = Vec::new();
        params.push(PgValue::Integer(quantity));
        params.push(PgValue::Text(products[k].sku.clone()));
        r.push(Statement { text: String::from_str("INSERT INTO inventory.t_inventory (quantity, sku) VALUES ($1, $2);"), params });
        k = k + 1;
    }
    r
}

/// The statements that create the orders schema and its three tables.
pub open spec fn orders_sql() -> Seq<Seq<char>> {
    seq![
        "CREATE SCHEMA IF NOT EXISTS orders;"@,
        "-- Table: orders.t_orders\n        CREATE TABLE IF NOT EXISTS orders.t_orders (\n            id bigint NOT NULL GENERATED BY DEFAULT AS IDENTITY,\n            order_number text,\n            total integer,\n            PRIMARY KEY (id)\n        );"@,
        "-- Table: orders.t_order_line_items\n        CREATE TABLE IF NOT EXISTS orders.t_order_line_items (\n            id bigint NOT NULL GENERATED BY DEFAULT AS IDENTITY,\n            price integer,\n            quantity integer,\n            sku text,\n            PRIMARY KEY (id)\n        );"@,
        "-- Table: orders.t_orders_order_line_items_list\n        CREATE TABLE IF NOT EXISTS orders.t_orders_order_line_items_list (\n            order_id bigint NOT NULL,\n            order_line_items_list_id bigint NOT NULL,\n            UNIQUE (order_line_items_list_id),\n            FOREIGN KEY (order_line_items_list_id)\n                REFERENCES orders.t_order_line_items (id),\n            FOREIGN KEY (order_id)\n                REFERENCES orders.t_orders (id)\n        );"@,
    ]
}

/// The statements that create the orders schema and tables, in order.
pub fn orders_statements() -> (r: Vec<Statement>)
    ensures
        r.len() == orders_sql().len(),
        forall|i: int| 0 <= i < r.len() ==> bare_statement(#[trigger] r[i], orders_sql()[i]),
{
    let mut r: Vec<Statement> = Vec::new();
    r.push(Statement { text: String::from_str("CREATE SCHEMA IF NOT EXISTS orders;"), params: Vec::new() });
    r.push(Statement { text: String::from_str("-- Table: orders.t_orders\n        CREATE TABLE IF NOT EXISTS orders.t_orders (\n            id bigint NOT NULL GENERATED BY DEFAULT AS IDENTITY,\n            order_number text,\n            total integer,\n            PRIMARY KEY (id)\n        );"), params: Vec::new() });
    r.push(Statement { text: String::from_str("-- Table: orders.t_order_line_items\n        CREATE TABLE IF NOT EXISTS orders.t_order_line_items (\n            id bigint NOT NULL GENERATED BY DEFAULT AS IDENTITY,\n            price integer,\n            quantity integer,\n            sku text,\n            PRIMARY KEY (id)\n        );"), params: Vec::new() });
    r.push(Statement { text: String::from_str("-- Table: orders.t_orders_order_line_items_list\n        CREATE TABLE IF NOT EXISTS orders.t_orders_order_line_items_list (\n            order_id bigint NOT NULL,\n            order_line_items_list_id bigint NOT NULL,\n            UNIQUE (order_line_items_list_id),\n            FOREIGN KEY (order_line_items_list_id)\n                REFERENCES orders.t_order_line_items (id),\n            FOREIGN KEY (order_id)\n                REFERENCES orders.t_orders (id)\n        );"), params: Vec::new() });
    r
}

/// The key under which each product is stored: its SKU, in catalogue order.
pub fn product_keys(products: &Vec<SerializableProduct>) -> (r: Vec<String>)
    ensures
        r.len() == products.len(),
        forall|i: int| 0 <= i < r.len() ==> (#[trigger] r[i])@ == products[i].sku@,
{
    let mut r: Vec<String> = Vec::new();
    for i in 0..products.len()
        invariant
            r.len() == i,
            forall|j: int| 0 <= j < i ==> (#[trigger] r[j])@ == products[j].sku@,
    {
        r.push(products[i].sku.clone());
    }
    r
}

} // verus!
