use vstd::prelude::*;

verus! {

/// Settings of the notification service, read from the environment.
pub struct Config {
    pub nats_url: String,
    pub nats_topic: String,
    pub port: u16,
}

/// The topic subscribed to when none is configured.
pub fn topic() -> (r: String)
    ensures
        r@ == "orders"@,
{
    String::from_str("orders")
}

/// The health port used when none is configured.
pub fn port() -> (r: u16)
    ensures
        r == 8082,
{
    8082
}

} // verus!
