use vstd::prelude::*;

verus! {

/// The subject the notification component listens on.
pub fn notification_subject() -> (r: String)
    ensures
        r@ == "platform-poc.order-notification"@,
{
    String::from_str("platform-poc.order-notification")
}

/// The banner logged for a message and its data.
pub open spec fn loud_text(msg: Seq<char>, data: Seq<char>) -> Seq<char> {
    "\n\n****************************************************************************\n**********************\n********************** "@
        + msg + " "@ + data
        + "\n**********************\n****************************************************************************\n\n"@
}

/// The banner logged for a message and its data.
pub fn loud_print(msg: &str, data: &str) -> (r: String)
    ensures
        r@ == loud_text(msg@, data@),
{
    let mut t = String::from_str("\n\n****************************************************************************\n**********************\n********************** ");
    t.append(msg);
    t.append(" ");
    t.append(data);
    t.append("\n**********************\n****************************************************************************\n\n");
    t
}

/// The banner for a received order notification.
pub fn order_banner(order_number: &str) -> (r: String)
    ensures
        r@ == loud_text("recieved order number"@, order_number@),
{
    loud_print("recieved order number", order_number)
}

} // verus!
