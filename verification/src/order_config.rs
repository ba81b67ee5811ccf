use vstd::prelude::*;

verus! {

/// Settings of the order service, read from the environment.
pub struct Config {
    pub port: u16,
    pub database_url: String,
    pub kafka_url: String,
    pub kafka_topic: String,
    pub inventory_url: String,
}

/// The HTTP port used when none is configured.
pub fn port() -> (r: u16)
    ensures
        r == 8081,
{
    8081
}

/// The event topic used when none is configured.
pub fn topic() -> (r: String)
    ensures
        r@ == "orders"@,
{
    String::from_str("orders")
}

/// The inventory endpoint used when none is configured.
pub fn inventory_url() -> (r: String)
    ensures
        r@ == "http://inventory-service/api/inventory"@,
{
    String::from_str("http://inventory-service/api/inventory")
}

} // verus!
