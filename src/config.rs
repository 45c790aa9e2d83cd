//! The settings of the service and their defaults.
use vstd::prelude::*;

verus! {

/// The settings of the service, each read from the upper-case environment
/// variable of its name.
#[derive(Clone, Debug, PartialEq, Eq)]
pub struct Config {
    /// The key for the upstream picture service.
    pub api_key: String,
    /// How many upstream requests may be in flight at once.
    pub concurrent_requests: usize,
    /// Where the store is.
    pub database_url: String,
    /// The host to serve on.
    pub host: String,
    /// The port to serve on.
    pub port: u16,
}

impl Default for Config {
    fn default() -> (r: Config)
        ensures
            r.api_key@ == "DEMO_KEY"@,
            r.concurrent_requests == 5,
            r.database_url@ == "SETME"@,
            r.host@ == "0.0.0.0"@,
            r.port == 8080,
    {
        Config {
            api_key: "DEMO_KEY".to_owned(),
            concurrent_requests: 5,
            database_url: "SETME".to_owned(),
            host: "0.0.0.0".to_owned(),
            port: 8080,
        }
    }
}

} // verus!
