//! Where the server listens.

use vstd::prelude::*;
use vstd::string::StringExecFns;

verus! {

/// The address that the server binds to when none is configured.
pub const DEFAULT_BIND: &'static str = "0.0.0.0:8080";

/// The server's configuration.
#[derive(Debug, Clone, PartialEq, Eq)]
pub struct Config {
    pub bind_addr: String,
}

impl Config {
    /// The configuration for the bind address `bind`, with `DEFAULT_BIND`
    /// where none is given.
    pub fn from_value(bind: Option<String>) -> (config: Config)
        ensures
            config.bind_addr@ == (match bind {
                Some(addr) => addr@,
                None => DEFAULT_BIND@,
            }),
    {
        match bind {
            Some(addr) => Config { bind_addr: addr },
            None => Config { bind_addr: String::from_str(DEFAULT_BIND) },
        }
    }
}

} // verus!
