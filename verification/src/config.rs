//! Where the relay listens.

use vstd::prelude::*;
use vstd::string::StringExecFns;

verus! {

/// The address to listen on for a configured port: every interface, on that
/// port, or on port 3000 where none is configured.
pub open spec fn spec_listen_addr(port: Option<Seq<char>>) -> Seq<char> {
    "0.0.0.0:"@ + match port {
        Some(p) => p,
        None => "3000"@,
    }
}

/// The address to listen on for the configured port, if one is configured.
pub fn listen_addr(port: Option<&str>) -> (addr: String)
    ensures
        port matches Some(p) ==> addr@ == spec_listen_addr(Some(p@)),
        port is None ==> addr@ == spec_listen_addr(None),
{
    let mut addr = String::from_str("0.0.0.0:");
    match port {
        Some(p) => addr.append(p),
        None => addr.append("3000"),
    }
    addr
}

} // verus!
