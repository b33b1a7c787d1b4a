//! Leetify: the CS2 profile. Its figures are fractional and are read outside this library;
//! what is kept here is the request.

use vstd::prelude::*;
use vstd::string::*;

verus! {

/// The profile URL of a Steam account.
pub fn profile_url(steam_id: &str) -> (r: String)
    ensures
        r@ == "https://api-public.cs-prod.leetify.com/v3/profile?steam64_id="@ + steam_id@,
{
    let mut u = String::from_str("https://api-public.cs-prod.leetify.com/v3/profile?steam64_id=");
    u.append(steam_id);
    u
}

} // verus!
