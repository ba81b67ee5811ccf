use vstd::prelude::*;
use crate::uuid_text::{uuid_hyphenated, uuid_text};

verus! {

/// The event received when an order was placed.
pub struct OrderPlacedEvent {
    pub order_number: u128,
}

/// Where the service writes what it has to say.
pub trait Logger {
    fn info(&self, msg: &str);
}

/// The notification service, writing to its logger.
pub struct Service<L> {
    pub logger: L,
}

/// The line written for a received order event.
pub open spec fn notification_line(event: OrderPlacedEvent) -> Seq<char> {
    "Received Notification for Order - "@ + uuid_hyphenated(event.order_number)
}

/// The line written for a received order event.
pub fn notification_text(event: &OrderPlacedEvent) -> (r: String)
    ensures
        r@ == notification_line(*event),
{
    let mut t = String::from_str("Received Notification for Order - ");
    let u = uuid_text(event.order_number);
    t.append(u.as_str());
    t
}

impl<L: Logger> Service<L> {
    pub fn new(logger: L) -> (r: Self)
        ensures
            r.logger == logger,
    {
        Service { logger }
    }

    /// Reports a received order event to the logger.
    pub fn recv(&self, event: OrderPlacedEvent) {
        let msg = notification_text(&event);
        self.logger.info(msg.as_str());
    }
}

} // verus!
