//! The records the proxy works with: registered clients and print jobs.
use vstd::prelude::*;

verus! {

/// A registered client: who it is, where it sits, how it is recognised and
/// which upstream printer its jobs go to.
#[derive(Debug, Clone)]
pub struct Team {
    pub team_id: String,
    pub team_name: String,
    pub location: String,
    pub ip_address: Option<String>,
    pub password: Option<String>,
    pub ipp_upstream: String,
}

/// A print job as the job store keeps it. `created_at` counts seconds since
/// the Unix epoch, in UTC.
#[derive(Debug, Clone)]
pub struct Job {
    pub id: i64,
    pub team_id: String,
    pub created_at: i64,
    pub num_pages: Option<i64>,
    pub process_time_ms: Option<i64>,
    pub failed: bool,
}

/// How the client directory is asked for the caller.
#[derive(Debug, Clone)]
pub enum ClientKey {
    /// By the credential the request carries.
    Credential(String),
    /// By the peer's network address, in text form.
    Address(String),
}

/// Picks how to look the caller up: a credential, when the request carries
/// one, takes precedence over the peer address.
pub fn client_key(peer_address: String, credential: Option<String>) -> (r: ClientKey)
    ensures
        match credential {
            Some(c) => r matches ClientKey::Credential(k) && k@ == c@,
            None => r matches ClientKey::Address(a) && a@ == peer_address@,
        },
{
    match credential {
        Some(c) => ClientKey::Credential(c),
        None => ClientKey::Address(peer_address),
    }
}

} // verus!
