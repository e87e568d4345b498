//! Runtime configuration, sourced entirely from the environment.

use crate::text::{numeral, opt_view, parse_number};
use vstd::prelude::*;

verus! {

/// The variables that configure the engine, each as far as it is set.
#[derive(Debug)]
pub struct Environment {
    pub port: Option<String>,
    pub database_url: Option<String>,
    pub sms_hmac_secret: Option<String>,
    pub webhook_hmac_secret: Option<String>,
    pub redis_url: Option<String>,
    pub static_dir: Option<String>,
    pub admin_password: Option<String>,
    pub auth_secret: Option<String>,
    pub base_url: Option<String>,
}

/// How the engine runs.
#[derive(Debug)]
pub struct Config {
    /// The port to listen on, on every interface.
    pub port: u16,
    pub database_url: String,
    /// The secret that inbound SMS payloads are signed with.
    pub sms_hmac_secret: String,
    /// The secret that outbound merchant webhooks are signed with: another than the inbound
    /// one, so that the two can be changed independently.
    pub webhook_hmac_secret: String,
    pub redis_url: Option<String>,
    /// The directory of the built dashboard, served only if it exists.
    pub static_dir: String,
    /// The admin's password; the API is open where there is none.
    pub admin_password: Option<String>,
    /// The secret that admin tokens are signed with.
    pub auth_secret: String,
    /// The public base URL of hosted checkout links.
    pub base_url: Option<String>,
}

/// Why the environment configures nothing.
#[derive(Debug)]
pub enum ConfigError {
    /// The port is not a number of sixteen bits.
    InvalidPort,
}

impl ConfigError {
    /// The message of this error.
    pub fn message(&self) -> (s: String)
        ensures
            s@ == "PORT is not a port number"@,
    {
        "PORT is not a port number".to_owned()
    }
}

/// A variable's value, or a default where it is not set. A variable that is set to nothing
/// is set.
pub open spec fn value_or(value: Option<String>, default: Seq<char>) -> Seq<char> {
    match value {
        Some(v) => v@,
        None => default,
    }
}

/// A variable's value, or a default where it is not set.
pub fn env_or(value: Option<String>, default: &str) -> (r: String)
    ensures
        r@ == value_or(value, default@),
{
    match value {
        Some(v) => v,
        None => default.to_owned(),
    }
}

/// A variable's value, as far as it is set to something.
pub open spec fn unless_empty(value: Option<Seq<char>>) -> Option<Seq<char>> {
    match value {
        Some(v) if v.len() > 0 => Some(v),
        _ => None,
    }
}

/// A variable's value, as far as it is set to something.
pub fn non_empty(value: Option<String>) -> (r: Option<String>)
    ensures
        opt_view(r) == unless_empty(opt_view(value)),
{
    match value {
        Some(v) => {
            if v.as_str().is_empty() {
                None
            } else {
                Some(v)
            }
        },
        None => None,
    }
}

impl Config {
    /// The configuration that the environment gives.
    pub fn from_env(env: Environment) -> (r: Result<Config, ConfigError>)
        ensures
            r is Ok <==> numeral(value_or(env.port, "8080"@), u16::MAX as int) is Some,
            r matches Ok(c) ==> {
                &&& numeral(value_or(env.port, "8080"@), u16::MAX as int) == Some(c.port as int)
                &&& c.database_url@ == value_or(
                    env.database_url,
                    "sqlite://spritexai_pay.db?mode=rwc"@,
                )
                &&& c.sms_hmac_secret@ == value_or(
                    env.sms_hmac_secret,
                    "dev-insecure-secret-change-me"@,
                )
                &&& c.webhook_hmac_secret@ == value_or(
                    env.webhook_hmac_secret,
                    "dev-insecure-webhook-secret"@,
                )
                &&& opt_view(c.redis_url) == unless_empty(opt_view(env.redis_url))
                &&& c.static_dir@ == value_or(env.static_dir, "./static"@)
                &&& opt_view(c.admin_password) == unless_empty(opt_view(env.admin_password))
                &&& c.auth_secret@ == value_or(env.auth_secret, "dev-insecure-auth-secret"@)
                &&& opt_view(c.base_url) == unless_empty(opt_view(env.base_url))
            },
    {
        let port_text = env_or(env.port, "8080");
        let port: u16 = match parse_number(port_text.as_str(), u16::MAX as u64) {
            Some(n) => n as u16,
            None => {
                return Err(ConfigError::InvalidPort);
            },
        };
        Ok(
            Config {
                port,
                database_url: env_or(env.database_url, "sqlite://spritexai_pay.db?mode=rwc"),
                sms_hmac_secret: env_or(env.sms_hmac_secret, "dev-insecure-secret-change-me"),
                webhook_hmac_secret: env_or(
                    env.webhook_hmac_secret,
                    "dev-insecure-webhook-secret",
                ),
                redis_url: non_empty(env.redis_url),
                static_dir: env_or(env.static_dir, "./static"),
                admin_password: non_empty(env.admin_password),
                auth_secret: env_or(env.auth_secret, "dev-insecure-auth-secret"),
                base_url: non_empty(env.base_url),
            },
        )
    }
}

/// A variable that is set counts, even if it is set to nothing; the default counts only where
/// it is not set.
pub proof fn law_set_variables_count(value: Option<String>, default: Seq<char>)
    ensures
        value matches Some(v) ==> value_or(value, default) == v@,
        value is None ==> value_or(value, default) == default,
{
}

/// An optional variable that is set to nothing counts as not set; any other is kept.
pub proof fn law_empty_variables_do_not_count(value: Option<Seq<char>>)
    ensures
        value matches Some(v) && v.len() > 0 ==> unless_empty(value) == value,
        value is None || value.unwrap().len() == 0 ==> unless_empty(value) is None,
{
}

} // verus!
