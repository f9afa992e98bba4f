//! The address the server listens on.
use vstd::prelude::*;
use crate::text::{decimal, push_decimal, push_str};

verus! {

/// `host:port`, the port in decimal.
pub open spec fn listen_text(host: Seq<char>, port: u16) -> Seq<char> {
    host + ":"@ + decimal(port as nat)
}

/// The address to bind, before it is parsed as a socket address.
pub fn listen_address(host: &str, port: u16) -> (r: String)
    ensures
        r@ == listen_text(host@, port),
{
    let mut r = host.to_owned();
    push_str(&mut r, ":");
    push_decimal(&mut r, port as u64);
    r
}

} // verus!
