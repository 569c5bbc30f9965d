//! Application configuration.
use vstd::prelude::*;
use vstd::string::*;

use crate::numbers::{parse_u16, parse_u16_spec};
use crate::text::chars_of;

verus! {

/// Application configuration.
#[derive(Clone, Debug)]
pub struct Config {
    pub fred_api_key: String,
    pub database_url: String,
    pub server_port: u16,
}

/// Why the configuration could not be read.
#[derive(Clone, Debug, PartialEq, Eq)]
pub enum ConfigError {
    /// `DATABASE_URL` is not set.
    MissingDatabaseUrl,
    /// `SERVER_PORT` is not a `u16`.
    InvalidPort,
}

/// The port a `SERVER_PORT` setting selects: 3000 when unset.
pub open spec fn port_spec(server_port: Option<Seq<char>>) -> Option<u16> {
    match server_port {
        Some(p) => parse_u16_spec(p),
        None => Some(3000),
    }
}

impl Config {
    /// Configuration from the values of `FRED_API_KEY`, `DATABASE_URL` and
    /// `SERVER_PORT`, `None` where a variable is unset. `DATABASE_URL` is
    /// required; the API key defaults to empty and the port to 3000.
    pub fn from_vars(
        fred_api_key: Option<String>,
        database_url: Option<String>,
        server_port: Option<String>,
    ) -> (r: Result<Config, ConfigError>)
        ensures
            match r {
                Ok(c) => {
                    &&& database_url matches Some(u) && c.database_url@ == u@
                    &&& c.fred_api_key@ == (match fred_api_key {
                        Some(k) => k@,
                        None => Seq::<char>::empty(),
                    })
                    &&& port_spec(
                        match server_port {
                            Some(p) => Some(p@),
                            None => None,
                        },
                    ) == Some(c.server_port)
                },
                Err(ConfigError::MissingDatabaseUrl) => database_url is None,
                Err(ConfigError::InvalidPort) => database_url is Some && port_spec(
                    match server_port {
                        Some(p) => Some(p@),
                        None => None,
                    },
                ) is None,
            },
    {
        let key = match fred_api_key {
            Some(k) => k,
            None => String::new(),
        };
        let url = match database_url {
            Some(u) => u,
            None => return Err(ConfigError::MissingDatabaseUrl),
        };
        let port = match server_port {
            Some(p) => match parse_u16(&chars_of(p.as_str())) {
                Some(n) => n,
                None => return Err(ConfigError::InvalidPort),
            },
            None => 3000,
        };
        Ok(Config { fred_api_key: key, database_url: url, server_port: port })
    }
}

} // verus!
