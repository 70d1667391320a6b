//! Mail addresses, as the `email_address` crate reads them.

use std::str::FromStr;

use vstd::prelude::*;

verus! {

#[verifier::external_type_specification]
#[verifier::external_body]
pub struct ExAddressError(email_address::Error);

/// Whether `email_address::EmailAddress::from_str` accepts the text. The grammar is that of
/// RFC 5322 with the extensions of RFC 6532, and is not written out here.
pub uninterp spec fn is_email_address(text: Seq<char>) -> bool;

/// The address that a text stands for: the text itself where it is an address. An address
/// always has an `@` in it.
pub open spec fn address_of(text: Seq<char>) -> Option<Seq<char>> {
    if text.contains('@') && is_email_address(text) {
        Some(text)
    } else {
        None
    }
}

/// Calls `email_address::EmailAddress::from_str` and turns the address into a `String` with
/// its `Display`. Claimed of it: it accepts exactly the texts that [`is_email_address`] names,
/// all of which have an `@`; and the address it gives is displayed as the text that was read.
/// Which of its errors comes for a text that it refuses is not stated.
#[verifier::external_body]
fn email_address_from_str(text: &str) -> (parsed: Result<String, email_address::Error>)
    ensures
        parsed is Ok <==> (text@.contains('@') && is_email_address(text@)),
        parsed matches Ok(address) ==> address@ == text@,
{
    email_address::EmailAddress::from_str(text).map(|address| address.to_string())
}

/// Reads a mail address.
pub fn parse_address(text: &str) -> (address: Option<String>)
    ensures
        address is Some <==> address_of(text@) is Some,
        address matches Some(a) ==> address_of(text@) == Some(a@),
{
    match email_address_from_str(text) {
        Ok(address) => Some(address),
        Err(_) => None,
    }
}

} // verus!
