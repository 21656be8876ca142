//! The update of one DNS record: the request that carries the new address, and
//! how the provider's answer is read.

use vstd::prelude::*;

verus! {

/// The record type that every update writes: an IPv4 address record.
pub const RECORD_TYPE: &'static str = "A";

/// The time-to-live sent with every update; the provider reads 1 as automatic.
pub const AUTO_TTL: u32 = 1;

/// The body of an update request.
pub struct DnsUpdateRequest {
    pub record_type: String,
    pub name: String,
    pub content: String,
    pub ttl: u32,
    pub proxied: bool,
}

/// The provider's structured answer to an update; `errors` holds its reported
/// error details, each as text.
pub struct UpdateResponse {
    pub success: bool,
    pub errors: Vec<String>,
}

/// Why an update failed.
pub enum UpdateError {
    /// The provider could not be reached or its answer could not be read.
    Transport(String),
    /// The provider answered with an explicit failure and these details.
    Rejected(Vec<String>),
}

/// The request that sets `hostname`'s address record to `ip`.
pub fn build_update_request(hostname: &str, ip: &str, proxied: bool) -> (r: DnsUpdateRequest)
    ensures
        r.record_type@ == RECORD_TYPE@,
        r.name@ == hostname@,
        r.content@ == ip@,
        r.ttl == AUTO_TTL,
        r.proxied == proxied,
{
    DnsUpdateRequest {
        record_type: String::from_str(RECORD_TYPE),
        name: String::from_str(hostname),
        content: String::from_str(ip),
        ttl: AUTO_TTL,
        proxied,
    }
}

/// An answer counts as success only where it arrived, was well formed and
/// carries an explicit success indicator.
pub open spec fn reply_succeeded(reply: Result<UpdateResponse, String>) -> bool {
    reply matches Ok(resp) && resp.success
}

/// The outcome of an update from what came back: a transport failure, or an
/// answer; an answer without the success indicator is a rejection with the
/// provider's details.
pub fn interpret_update(reply: Result<UpdateResponse, String>) -> (r: Result<(), UpdateError>)
    ensures
        r is Ok <==> reply_succeeded(reply),
        match reply {
            Err(m) => r matches Err(UpdateError::Transport(t)) && t@ == m@,
            Ok(resp) => !resp.success ==> (r matches Err(UpdateError::Rejected(es)) && es@
                == resp.errors@),
        },
{
    match reply {
        Err(m) => Err(UpdateError::Transport(m)),
        Ok(resp) => {
            if resp.success {
                Ok(())
            } else {
                Err(UpdateError::Rejected(resp.errors))
            }
        },
    }
}

} // verus!
