//! The server's configuration, from the values of its environment variables.
use vstd::prelude::*;

use crate::error::AppError;
use crate::text::{is_blank, trim};

verus! {

/// The model asked when none is configured.
pub const DEFAULT_OPENROUTER_MODEL: &'static str = "nvidia/nemotron-3-super-120b-a12b:free";

/// The address the server binds to when none is configured.
pub const DEFAULT_BIND_ADDR: &'static str = "127.0.0.1:8080";

/// The database used when none is configured.
pub const DEFAULT_DATABASE_URL: &'static str = "sqlite://backend/gpt-copy-v4.sqlite3";

/// The API base used when none is configured.
pub const DEFAULT_OPENROUTER_BASE_URL: &'static str = "https://openrouter.ai/api/v1";

/// The frontend origin used when none is configured.
pub const DEFAULT_FRONTEND_ORIGIN: &'static str = "http://localhost:3000";

/// An IP address.
#[derive(Clone, Copy, Debug, PartialEq, Eq)]
pub enum IpAddress {
    V4([u8; 4]),
    V6([u16; 8]),
}

/// A socket address: an IP address and a port.
#[derive(Clone, Copy, Debug, PartialEq, Eq)]
pub struct BindAddr {
    pub ip: IpAddress,
    pub port: u16,
}

/// Whether `ip` is a loopback address, as `std::net::IpAddr::is_loopback`
/// decides: `127.0.0.0/8`, or `::1`.
pub open spec fn is_loopback(ip: IpAddress) -> bool {
    match ip {
        IpAddress::V4(o) => o@[0] == 127,
        IpAddress::V6(s) => s@ == seq![0u16, 0, 0, 0, 0, 0, 0, 1],
    }
}

/// Whether `ip` is a loopback address.
pub fn ip_is_loopback(ip: &IpAddress) -> (r: bool)
    ensures
        r == is_loopback(*ip),
{
    match ip {
        IpAddress::V4(o) => o[0] == 127,
        IpAddress::V6(s) => {
            let r = s[0] == 0 && s[1] == 0 && s[2] == 0 && s[3] == 0 && s[4] == 0 && s[5] == 0
                && s[6] == 0 && s[7] == 1;
            proof {
                let e = seq![0u16, 0, 0, 0, 0, 0, 0, 1];
                if r {
                    assert(s@ =~= e);
                } else if s@ == e {
                    assert(s@[0] == e[0] && s@[1] == e[1] && s@[2] == e[2] && s@[3] == e[3]);
                    assert(s@[4] == e[4] && s@[5] == e[5] && s@[6] == e[6] && s@[7] == e[7]);
                }
            }
            r
        },
    }
}

/// The values of the environment variables that configure the server; a
/// variable that is not set is `None`.
pub struct EnvValues {
    pub database_url: Option<String>,
    pub openrouter_api_key: Option<String>,
    pub openrouter_model: Option<String>,
    pub openrouter_base_url: Option<String>,
    pub frontend_origin: Option<String>,
    /// `BIND_ADDR` (or its default) read as a socket address; `None` where it is not one.
    pub bind_addr: Option<BindAddr>,
}

/// The server's configuration.
#[derive(Clone, Debug)]
pub struct AppConfig {
    pub database_url: String,
    pub openrouter_api_key: Option<String>,
    pub openrouter_model: String,
    pub openrouter_base_url: String,
    pub frontend_origin: String,
    pub bind_addr: BindAddr,
}

/// The value of a variable, or its default where it is not set.
pub open spec fn or_default(value: Option<String>, default: Seq<char>) -> Seq<char> {
    match value {
        Some(v) => v@,
        None => default,
    }
}

fn value_or(value: Option<String>, default: &str) -> (r: String)
    ensures
        r@ == or_default(value, default@),
{
    match value {
        Some(v) => v,
        None => String::from_str(default),
    }
}

/// The text that `BIND_ADDR` gives, or the default address where it is not set.
pub fn bind_addr_text(value: Option<String>) -> (r: String)
    ensures
        r@ == or_default(value, DEFAULT_BIND_ADDR@),
{
    value_or(value, DEFAULT_BIND_ADDR)
}

/// Whether `kept` is what becomes of the configured key `given`: a blank key
/// counts as none.
pub open spec fn api_key_outcome(given: Option<String>, kept: Option<String>) -> bool {
    match given {
        Some(k) => if trim(k@).len() == 0 {
            kept is None
        } else {
            kept matches Some(ck) && ck@ == k@
        },
        None => kept is None,
    }
}

impl AppConfig {
    /// The configuration that the environment describes. The bind address must
    /// be a socket address on the loopback interface, since the server stores
    /// conversations and calls the provider with a key of its own; an API key
    /// that is blank counts as none; the other variables have defaults.
    pub fn from_env_values(env: EnvValues) -> (r: Result<AppConfig, AppError>)
        ensures
            r matches Ok(c) ==> is_loopback(c.bind_addr.ip),
            match env.bind_addr {
                None => r matches Err(AppError::Config(m)) && m@
                    == "BIND_ADDR must be a valid socket address"@,
                Some(a) => if !is_loopback(a.ip) {
                    r matches Err(AppError::Config(m)) && m@
                        == "BIND_ADDR must be a loopback address"@
                } else {
                    r matches Ok(c) && c.bind_addr == a && c.database_url@ == or_default(
                        env.database_url,
                        DEFAULT_DATABASE_URL@,
                    ) && c.openrouter_model@ == or_default(
                        env.openrouter_model,
                        DEFAULT_OPENROUTER_MODEL@,
                    ) && c.openrouter_base_url@ == or_default(
                        env.openrouter_base_url,
                        DEFAULT_OPENROUTER_BASE_URL@,
                    ) && c.frontend_origin@ == or_default(
                        env.frontend_origin,
                        DEFAULT_FRONTEND_ORIGIN@,
                    ) && api_key_outcome(env.openrouter_api_key, c.openrouter_api_key)
                },
            },
    {
        let bind_addr = match env.bind_addr {
            None => {
                return Err(AppError::config("BIND_ADDR must be a valid socket address"));
            },
            Some(a) => a,
        };
        if !ip_is_loopback(&bind_addr.ip) {
            return Err(AppError::config("BIND_ADDR must be a loopback address"));
        }
        let openrouter_api_key = match env.openrouter_api_key {
            Some(k) => if is_blank(k.as_str()) {
                None
            } else {
                Some(k)
            },
            None => None,
        };
        Ok(AppConfig {
            database_url: value_or(env.database_url, DEFAULT_DATABASE_URL),
            openrouter_api_key,
            openrouter_model: value_or(env.openrouter_model, DEFAULT_OPENROUTER_MODEL),
            openrouter_base_url: value_or(env.openrouter_base_url, DEFAULT_OPENROUTER_BASE_URL),
            frontend_origin: value_or(env.frontend_origin, DEFAULT_FRONTEND_ORIGIN),
            bind_addr,
        })
    }
}

} // verus!
