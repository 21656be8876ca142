//! The provider's endpoints and the authorization header value.

use vstd::prelude::*;

verus! {

/// The root of the provider's zone API.
pub const ZONES_URL: &'static str = "https://api.cloudflare.com/client/v4/zones";

/// The endpoint that lists the zones visible to the credential.
pub fn zones_url() -> (r: String)
    ensures
        r@ == ZONES_URL@,
{
    String::from_str(ZONES_URL)
}

/// The endpoint that lists the DNS records of a zone.
pub fn dns_records_url(zone_id: &str) -> (r: String)
    ensures
        r@ == ZONES_URL@ + "/"@ + zone_id@ + "/dns_records"@,
{
    String::from_str(ZONES_URL).concat("/").concat(zone_id).concat("/dns_records")
}

/// The endpoint of one DNS record of a zone, which an update replaces.
pub fn dns_record_url(zone_id: &str, record_id: &str) -> (r: String)
    ensures
        r@ == ZONES_URL@ + "/"@ + zone_id@ + "/dns_records"@ + "/"@ + record_id@,
{
    dns_records_url(zone_id).concat("/").concat(record_id)
}

/// The value of the `Authorization` header for a credential.
pub fn bearer(api_token: &str) -> (r: String)
    ensures
        r@ == "Bearer "@ + api_token@,
{
    String::from_str("Bearer ").concat(api_token)
}

} // verus!
