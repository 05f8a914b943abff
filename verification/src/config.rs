//! The gateway's settings.

use vstd::prelude::*;

verus! {

/// Everything the gateway is told when it starts. The values are read once
/// and handed to the parts that need them.
#[derive(Clone, Debug)]
pub struct Config {
    /// The address the HTTP server listens on.
    pub host_addr: String,
    /// The identity provider that issues the bearer tokens.
    pub authserver: String,
    /// The audience that a bearer token must be issued for.
    pub audience: String,
    /// The id under which the gateway is registered with the identity
    /// provider.
    pub client_id: String,
    /// The secret that goes with `client_id`.
    pub client_secret: String,
    /// The storage account that holds the data.
    pub azure_storage_account: String,
    /// The address of that storage account.
    pub azure_storage_url: String,
    /// Where replies from the backend arrive.
    pub zmq_rep_addr: String,
    /// Where requests to the backend are queued.
    pub zmq_req_addr: String,
    /// Where the backend reports failures.
    pub zmq_failure_addr: String,
}

} // verus!
