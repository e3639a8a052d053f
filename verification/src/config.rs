//! The server's settings and the rule that says which are valid.

use crate::decimal::{parse_unsigned, parse_usize};
use crate::text::chars_of;
use vstd::prelude::*;
use vstd::string::*;

verus! {

/// Why settings are refused.
#[derive(Clone, Copy, Debug, PartialEq, Eq, Structural)]
pub enum ConfigError {
    /// The number of workers is no number that fits a `usize`.
    InvalidWorkers,
    /// The address is empty.
    MissingIpAddress,
    /// The port is empty.
    MissingPort,
    /// The number of workers is zero.
    NoWorkers,
}

/// The settings of a server.
#[derive(Clone, Debug, PartialEq)]
pub struct ServerConfig {
    /// The address to listen on.
    pub ip_address: String,
    /// The port to listen on.
    pub port: String,
    /// The number of worker threads, which is not zero.
    pub workers: usize,
}

/// What the given texts make as settings: the number of workers is read
/// first, then the address, the port and the number are looked at in this
/// order, and the first fault found is the error.
pub open spec fn checked(ip_address: Seq<char>, port: Seq<char>, workers: Seq<char>) -> Result<
    nat,
    ConfigError,
> {
    match parse_unsigned(workers, usize::MAX as nat) {
        None => Err(ConfigError::InvalidWorkers),
        Some(count) => if ip_address.len() == 0 {
            Err(ConfigError::MissingIpAddress)
        } else if port.len() == 0 {
            Err(ConfigError::MissingPort)
        } else if count == 0 {
            Err(ConfigError::NoWorkers)
        } else {
            Ok(count)
        },
    }
}

impl ServerConfig {
    /// Whether the settings can be served with: an address, a port, and at
    /// least one worker.
    pub open spec fn wf(&self) -> bool {
        self.ip_address@.len() > 0 && self.port@.len() > 0 && self.workers > 0
    }

    /// The settings that the given texts make, or why they make none.
    pub fn from_values(ip_address: &str, port: &str, workers: &str) -> (config: Result<
        ServerConfig,
        ConfigError,
    >)
        ensures
            match checked(ip_address@, port@, workers@) {
                Ok(count) => {
                    &&& config is Ok
                    &&& config->Ok_0.ip_address@ == ip_address@
                    &&& config->Ok_0.port@ == port@
                    &&& config->Ok_0.workers == count
                    &&& config->Ok_0.wf()
                },
                Err(error) => config == Err::<ServerConfig, ConfigError>(error),
            },
    {
        let digits = chars_of(workers);
        assert(digits@.subrange(0, digits@.len() as int) =~= digits@);
        let count = match parse_usize(&digits, 0, digits.len()) {
            Some(count) => count,
            None => {
                return Err(ConfigError::InvalidWorkers);
            },
        };
        if ip_address.unicode_len() == 0 {
            Err(ConfigError::MissingIpAddress)
        } else if port.unicode_len() == 0 {
            Err(ConfigError::MissingPort)
        } else if count == 0 {
            Err(ConfigError::NoWorkers)
        } else {
            Ok(
                ServerConfig {
                    ip_address: String::from_str(ip_address),
                    port: String::from_str(port),
                    workers: count,
                },
            )
        }
    }

    /// The address and the port with a colon between them.
    pub fn get_server_address(&self) -> (address: String)
        ensures
            address@ == self.ip_address@ + ":"@ + self.port@,
    {
        let mut address = self.ip_address.clone();
        address.append(":");
        address.append(self.port.as_str());
        address
    }
}

} // verus!
