//! Process settings: where the node and the configuration are found.

use vstd::prelude::*;
use vstd::string::StringSliceAdditionalSpecFns;
use vstd::utf8::encode_utf8;

use crate::search::stands_at;
use crate::search::starts_with_bytes;

verus! {

/// The settings a process runs with.
#[derive(Clone, Debug)]
pub struct Settings {
    pub config_path: String,
    pub grpc_endpoint: String,
    pub x_token: Option<String>,
    pub rpc_endpoint: String,
}

/// Why settings could not be made.
#[derive(Clone, Copy, Debug, PartialEq, Eq, Structural)]
pub enum SettingsError {
    /// No stream endpoint was given.
    MissingGrpcEndpoint,
}

/// The configuration file read where none is named.
pub open spec fn default_config_path() -> Seq<char> {
    "config.jsonc"@
}

/// The node endpoint used where none is named.
pub open spec fn default_rpc_endpoint() -> Seq<char> {
    "https://api.mainnet-beta.solana.com"@
}

/// The characters of `given`, or `fallback` where nothing is given.
pub open spec fn chars_or(given: Option<String>, fallback: Seq<char>) -> Seq<char> {
    match given {
        Some(text) => text@,
        None => fallback,
    }
}

/// Whether an endpoint asks for a secure connection: it does when it
/// begins with `https://`.
pub open spec fn is_secure(endpoint: Seq<char>) -> bool {
    stands_at(encode_utf8(endpoint), "https://".spec_bytes(), 0)
}

/// Tests whether an endpoint asks for a secure connection.
pub fn endpoint_is_secure(endpoint: &str) -> (secure: bool)
    ensures
        secure == is_secure(endpoint@),
{
    starts_with_bytes(endpoint.as_bytes(), "https://".as_bytes())
}

impl Settings {
    /// Makes the settings from what the environment holds. The stream
    /// endpoint is required; the configuration path and the node endpoint
    /// have defaults; the access token is optional.
    pub fn from_values(
        config_path: Option<String>,
        grpc_endpoint: Option<String>,
        x_token: Option<String>,
        rpc_endpoint: Option<String>,
    ) -> (settings: Result<Settings, SettingsError>)
        ensures
            grpc_endpoint is None <==> settings == Err::<Settings, SettingsError>(
                SettingsError::MissingGrpcEndpoint,
            ),
            grpc_endpoint is Some <==> settings is Ok,
            settings matches Ok(s) ==> {
                &&& s.config_path@ == chars_or(config_path, default_config_path())
                &&& Some(s.grpc_endpoint) == grpc_endpoint
                &&& s.x_token == x_token
                &&& s.rpc_endpoint@ == chars_or(rpc_endpoint, default_rpc_endpoint())
            },
    {
        let grpc_endpoint = match grpc_endpoint {
            Some(endpoint) => endpoint,
            None => {
                return Err(SettingsError::MissingGrpcEndpoint);
            },
        };
        let config_path = match config_path {
            Some(path) => path,
            None => "config.jsonc".to_owned(),
        };
        let rpc_endpoint = match rpc_endpoint {
            Some(endpoint) => endpoint,
            None => "https://api.mainnet-beta.solana.com".to_owned(),
        };
        Ok(Settings { config_path, grpc_endpoint, x_token, rpc_endpoint })
    }

    /// Whether the stream endpoint asks for a secure connection.
    pub fn uses_tls(&self) -> (secure: bool)
        ensures
            secure == is_secure(self.grpc_endpoint@),
    {
        endpoint_is_secure(self.grpc_endpoint.as_str())
    }
}

} // verus!
