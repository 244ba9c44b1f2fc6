//! Connection configuration.

use vstd::prelude::*;

verus! {

/// Where and as whom to connect.  Loading these values from the
/// environment is the caller's concern; the library only carries
/// them.
#[derive(Debug, Clone)]
pub struct ImapConfig {
    pub host: String,
    pub port: u16,
    pub username: String,
    pub password: String,
}

impl ImapConfig {
    /// Assemble a configuration from its parts.
    pub fn new(host: String, port: u16, username: String, password: String) -> (r: ImapConfig)
        ensures
            r.host@ == host@,
            r.port == port,
            r.username@ == username@,
            r.password@ == password@,
    {
        ImapConfig { host, port, username, password }
    }
}

} // verus!
