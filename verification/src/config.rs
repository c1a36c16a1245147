//! The service configuration, assembled from the values of its environment
//! variables: defaults for the optional ones, checks for the required ones.
use crate::chain::{address_bytes, is_address_text, parse_address};
use crate::decimal::{parse_u64, spec_parse_u64};
use vstd::prelude::*;

verus! {

/// Failures of the configuration.
#[derive(Debug, Clone, Copy, PartialEq, Eq)]
pub enum ConfigError {
    Missing(&'static str),
    Address(&'static str),
    HttpAddress,
    ChainId,
}

/// The text of a configuration failure.
pub open spec fn config_error_text(e: ConfigError) -> Seq<char> {
    match e {
        ConfigError::Missing(name) => "missing required environment variable "@ + name@,
        ConfigError::Address(name) => "invalid address in "@ + name@,
        ConfigError::HttpAddress => "invalid CASP_HTTP_ADDRESS"@,
        ConfigError::ChainId => "invalid CHAIN_ID"@,
    }
}

impl ConfigError {
    /// The failure as it is reported.
    pub fn message(&self) -> (r: String)
        ensures
            r@ == config_error_text(*self),
    {
        match self {
            ConfigError::Missing(name) => String::from_str("missing required environment variable ").concat(
                name,
            ),
            ConfigError::Address(name) => String::from_str("invalid address in ").concat(name),
            ConfigError::HttpAddress => String::from_str("invalid CASP_HTTP_ADDRESS"),
            ConfigError::ChainId => String::from_str("invalid CHAIN_ID"),
        }
    }
}

/// The values of the service's environment variables, each as it was set.
#[derive(Debug, Clone)]
pub struct Environment {
    pub casp_database_path: Option<String>,
    pub issuer_url: Option<String>,
    pub issuer_public_url: Option<String>,
    pub mock_bank_url: Option<String>,
    pub rpc_url: Option<String>,
    pub token_address: Option<String>,
    pub casp_deposit_router_address: Option<String>,
    pub casp_deposit_confirmations: Option<String>,
    pub casp_corporate_private_key: Option<String>,
    pub casp_hot_private_key: Option<String>,
    pub casp_corporate_address: Option<String>,
    pub casp_hot_address: Option<String>,
    pub casp_cold_address: Option<String>,
    pub chain_id: Option<String>,
}

/// The configuration of the service; addresses are their twenty bytes. The
/// HTTP listening address is checked where the server binds it.
#[derive(Debug, Clone)]
pub struct Config {
    pub database_path: String,
    pub issuer_url: String,
    pub issuer_public_url: String,
    pub mock_bank_url: String,
    pub rpc_url: String,
    pub token_address: Vec<u8>,
    pub deposit_router_address: Vec<u8>,
    pub deposit_confirmations: u64,
    pub corporate_private_key: String,
    pub hot_private_key: String,
    pub corporate_address: Vec<u8>,
    pub hot_address: Vec<u8>,
    pub cold_address: Vec<u8>,
    pub chain_id: u64,
}

/// A variable's value, or `default` when it is not set.
pub open spec fn value_or(v: Option<String>, default: Seq<char>) -> Seq<char> {
    match v {
        Some(s) => s@,
        None => default,
    }
}

/// The variable does not hold an address: it is not set, or not an address.
pub open spec fn address_error(v: Option<String>, name: &'static str) -> Option<ConfigError> {
    match v {
        None => Some(ConfigError::Missing(name)),
        Some(s) => if is_address_text(s@) {
            None
        } else {
            Some(ConfigError::Address(name))
        },
    }
}

/// The first failure of the configuration, in the order its values are read.
pub open spec fn first_config_error(env: Environment) -> Option<ConfigError> {
    if address_error(env.token_address, "TOKEN_ADDRESS") is Some {
        address_error(env.token_address, "TOKEN_ADDRESS")
    } else if address_error(env.casp_deposit_router_address, "CASP_DEPOSIT_ROUTER_ADDRESS") is Some {
        address_error(env.casp_deposit_router_address, "CASP_DEPOSIT_ROUTER_ADDRESS")
    } else if spec_parse_u64(value_or(env.casp_deposit_confirmations, "2"@)) is None {
        Some(ConfigError::ChainId)
    } else if env.casp_corporate_private_key is None {
        Some(ConfigError::Missing("CASP_CORPORATE_PRIVATE_KEY"))
    } else if env.casp_hot_private_key is None {
        Some(ConfigError::Missing("CASP_HOT_PRIVATE_KEY"))
    } else if address_error(env.casp_corporate_address, "CASP_CORPORATE_ADDRESS") is Some {
        address_error(env.casp_corporate_address, "CASP_CORPORATE_ADDRESS")
    } else if address_error(env.casp_hot_address, "CASP_HOT_ADDRESS") is Some {
        address_error(env.casp_hot_address, "CASP_HOT_ADDRESS")
    } else if address_error(env.casp_cold_address, "CASP_COLD_ADDRESS") is Some {
        address_error(env.casp_cold_address, "CASP_COLD_ADDRESS")
    } else if spec_parse_u64(value_or(env.chain_id, "31337"@)) is None {
        Some(ConfigError::ChainId)
    } else {
        None
    }
}

/// The twenty bytes of an address variable that holds one.
pub open spec fn address_of(v: Option<String>) -> Seq<u8> {
    address_bytes(v->Some_0@)
}

fn text_or(v: &Option<String>, default: &str) -> (r: String)
    ensures
        r@ == value_or(*v, default@),
{
    match v {
        Some(s) => s.clone(),
        None => default.to_owned(),
    }
}

fn address(v: &Option<String>, name: &'static str) -> (r: Result<Vec<u8>, ConfigError>)
    ensures
        match address_error(*v, name) {
            Some(e) => r == Err::<Vec<u8>, ConfigError>(e),
            None => r matches Ok(b) && b@ == address_of(*v),
        },
{
    match v {
        None => Err(ConfigError::Missing(name)),
        Some(s) => match parse_address(s.as_str()) {
            Some(b) => Ok(b),
            None => Err(ConfigError::Address(name)),
        },
    }
}

fn required(v: &Option<String>, name: &'static str) -> (r: Result<String, ConfigError>)
    ensures
        match v {
            Some(s) => r matches Ok(x) && x@ == s@,
            None => r == Err::<String, ConfigError>(ConfigError::Missing(name)),
        },
{
    match v {
        Some(s) => Ok(s.clone()),
        None => Err(ConfigError::Missing(name)),
    }
}

fn number(v: &Option<String>, default: &str) -> (r: Result<u64, ConfigError>)
    ensures
        match spec_parse_u64(value_or(*v, default@)) {
            Some(n) => r == Ok::<u64, ConfigError>(n),
            None => r == Err::<u64, ConfigError>(ConfigError::ChainId),
        },
{
    let text = text_or(v, default);
    match parse_u64(text.as_str()) {
        Some(n) => Ok(n),
        None => Err(ConfigError::ChainId),
    }
}

/// Assembles the configuration from the environment: unset optional values
/// take their defaults, and the first value that is missing or malformed is
/// reported.
pub fn config_from(env: &Environment) -> (r: Result<Config, ConfigError>)
    ensures
        match first_config_error(*env) {
            Some(e) => r == Err::<Config, ConfigError>(e),
            None => r matches Ok(c) && {
                &&& c.database_path@ == value_or(env.casp_database_path, "data/casp.sqlite"@)
                &&& c.issuer_url@ == value_or(env.issuer_url, "http://127.0.0.1:3000"@)
                &&& c.issuer_public_url@ == value_or(env.issuer_public_url, "http://127.0.0.1:5173"@)
                &&& c.mock_bank_url@ == value_or(env.mock_bank_url, "http://127.0.0.1:3100"@)
                &&& c.rpc_url@ == value_or(env.rpc_url, "http://127.0.0.1:8545"@)
                &&& c.token_address@ == address_of(env.token_address)
                &&& c.deposit_router_address@ == address_of(env.casp_deposit_router_address)
                &&& Some(c.deposit_confirmations) == spec_parse_u64(
                    value_or(env.casp_deposit_confirmations, "2"@),
                )
                &&& c.corporate_private_key@ == env.casp_corporate_private_key->Some_0@
                &&& c.hot_private_key@ == env.casp_hot_private_key->Some_0@
                &&& c.corporate_address@ == address_of(env.casp_corporate_address)
                &&& c.hot_address@ == address_of(env.casp_hot_address)
                &&& c.cold_address@ == address_of(env.casp_cold_address)
                &&& Some(c.chain_id) == spec_parse_u64(value_or(env.chain_id, "31337"@))
            },
        },
{
    let database_path = text_or(&env.casp_database_path, "data/casp.sqlite");
    let issuer_url = text_or(&env.issuer_url, "http://127.0.0.1:3000");
    let issuer_public_url = text_or(&env.issuer_public_url, "http://127.0.0.1:5173");
    let mock_bank_url = text_or(&env.mock_bank_url, "http://127.0.0.1:3100");
    let rpc_url = text_or(&env.rpc_url, "http://127.0.0.1:8545");
    let token_address = address(&env.token_address, "TOKEN_ADDRESS")?;
    let deposit_router_address = address(&env.casp_deposit_router_address, "CASP_DEPOSIT_ROUTER_ADDRESS")?;
    let deposit_confirmations = number(&env.casp_deposit_confirmations, "2")?;
    let corporate_private_key = required(&env.casp_corporate_private_key, "CASP_CORPORATE_PRIVATE_KEY")?;
    let hot_private_key = required(&env.casp_hot_private_key, "CASP_HOT_PRIVATE_KEY")?;
    let corporate_address = address(&env.casp_corporate_address, "CASP_CORPORATE_ADDRESS")?;
    let hot_address = address(&env.casp_hot_address, "CASP_HOT_ADDRESS")?;
    let cold_address = address(&env.casp_cold_address, "CASP_COLD_ADDRESS")?;
    let chain_id = number(&env.chain_id, "31337")?;
    Ok(
        Config {
            database_path,
            issuer_url,
            issuer_public_url,
            mock_bank_url,
            rpc_url,
            token_address,
            deposit_router_address,
            deposit_confirmations,
            corporate_private_key,
            hot_private_key,
            corporate_address,
            hot_address,
            cold_address,
            chain_id,
        },
    )
}

} // verus!
