use vstd::prelude::*;

verus! {

/// What `uuid::Uuid::parse_str` gives for a text: the 128-bit value of the
/// identifier, or the text of the parse error.
pub uninterp spec fn uuid_parsed(text: Seq<char>) -> Result<u128, Seq<char>>;

/// The lower-case hexadecimal digit of a value below 16.
pub open spec fn hex_char(d: nat) -> char {
    if d == 0 { '0' }
    else if d == 1 { '1' }
    else if d == 2 { '2' }
    else if d == 3 { '3' }
    else if d == 4 { '4' }
    else if d == 5 { '5' }
    else if d == 6 { '6' }
    else if d == 7 { '7' }
    else if d == 8 { '8' }
    else if d == 9 { '9' }
    else if d == 10 { 'a' }
    else if d == 11 { 'b' }
    else if d == 12 { 'c' }
    else if d == 13 { 'd' }
    else if d == 14 { 'e' }
    else { 'f' }
}

/// The last `count` hexadecimal digits of `n`, most significant first,
/// padded with zeros.
pub open spec fn hex_digits(n: nat, count: nat) -> Seq<char>
    decreases count,
{
    if count == 0 {
        Seq::empty()
    } else {
        hex_digits(n / 16, (count - 1) as nat).push(hex_char(n % 16))
    }
}

/// The lower-case hyphenated text that `uuid::Uuid`'s `Display` writes for
/// an identifier: the 32 hexadecimal digits of its 128-bit value, most
/// significant first, in groups of 8, 4, 4, 4 and 12 joined by `-`.
#[verifier::opaque]
pub open spec fn uuid_hyphenated(id: u128) -> Seq<char> {
    let d = hex_digits(id as nat, 32);
    d.subrange(0, 8) + seq!['-'] + d.subrange(8, 12) + seq!['-'] + d.subrange(12, 16) + seq!['-']
        + d.subrange(16, 20) + seq!['-'] + d.subrange(20, 32)
}

/// A parse outcome with its error text taken by view.
pub open spec fn parse_view(r: Result<u128, String>) -> Result<u128, Seq<char>> {
    match r {
        Ok(id) => Ok(id),
        Err(e) => Err(e@),
    }
}

/// Calls `uuid::Uuid::parse_str`. The contract says only that the outcome
/// is the one named by `uuid_parsed` for this text; which texts parse is
/// left to the crate (hyphenated, simple, urn and braced forms).
#[verifier::external_body]
pub(crate) fn parse_uuid(text: &str) -> (r: Result<u128, String>)
    ensures
        parse_view(r) == uuid_parsed(text@),
{
    match uuid::Uuid::parse_str(text) {
        Ok(id) => Ok(id.as_u128()),
        Err(e) => Err(e.to_string()),
    }
}

/// Calls `uuid::Uuid::to_string` (its hyphenated `Display`). The contract
/// states the text the crate writes and its documented round trip: every
/// format the crate writes is accepted back by `parse_str`.
#[verifier::external_body]
pub(crate) fn uuid_text(id: u128) -> (r: String)
    ensures
        r@ == uuid_hyphenated(id),
        uuid_parsed(r@) == parse_view(Ok(id)),
{
    uuid::Uuid::from_u128(id).to_string()
}

/// Calls `uuid::Uuid::new_v4`, which draws a random identifier: nothing is
/// promised of the value.
#[verifier::external_body]
pub(crate) fn new_uuid_v4() -> (r: u128) {
    uuid::Uuid::new_v4().as_u128()
}

} // verus!
