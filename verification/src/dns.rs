//! What comes of looking the addresses of a host up.

use vstd::prelude::*;

use crate::https_rr::SocketAddr;
use crate::text;

verus! {

/// The addresses that a lookup of `host` gave; none at all is a failure.
pub fn resolved(host: &str, addrs: Vec<SocketAddr>) -> (r: std::result::Result<
    Vec<SocketAddr>,
    String,
>)
    ensures
        match r {
            Ok(given) => addrs@.len() > 0 && given == addrs,
            Err(message) => addrs@.len() == 0 && message@ == "no DNS addresses for `"@ + host@
                + "`"@,
        },
{
    if addrs.len() == 0 {
        Err(text::join3("no DNS addresses for `", host, "`"))
    } else {
        Ok(addrs)
    }
}

} // verus!
