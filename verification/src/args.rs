//! The application's startup configuration: where to listen and how to
//! reach the database. A boundary layer fills this from the command line
//! and the environment.

use vstd::prelude::*;
use vstd::string::StringExecFns;

use crate::text::{dec_str, u64_to_dec_string};

verus! {

/// The command line arguments of the application.
#[derive(Debug, Clone)]
pub struct AppArgs {
    /// The host to listen on.
    pub host: String,
    /// The port to listen on.
    pub port: u16,
    /// Full database URI.
    pub database: String,
}

impl AppArgs {
    /// The listen address in the format `host:port`.
    pub fn listen_address(&self) -> (r: String)
        ensures
            r@ == self.host@ + ":"@ + dec_str(self.port as int),
    {
        let port = u64_to_dec_string(self.port as u64);
        self.host.clone().concat(":").concat(port.as_str())
    }
}

} // verus!
