//! Connection settings, and the checks they must pass before the
//! controller starts.

use vstd::prelude::*;
use vstd::string::StringExecFns;
use crate::text::str_starts_with;

verus! {

/// The two required settings: the service address and the access credential.
#[derive(Debug, Clone)]
pub struct Config {
    pub donetick_url: String,
    pub donetick_token: String,
}

/// Why a configuration is rejected; each failure is fatal at startup.
#[derive(Debug, Clone, Copy, PartialEq, Eq, Structural)]
pub enum ConfigError {
    EmptyUrl,
    EmptyToken,
    BadScheme,
}

/// The address must use a recognized URL scheme.
pub open spec fn url_scheme_ok(url: Seq<char>) -> bool {
    "http://"@.is_prefix_of(url) || "https://"@.is_prefix_of(url)
}

/// Acceptable settings: both non-empty, and the address carries a scheme.
pub open spec fn config_ok(url: Seq<char>, token: Seq<char>) -> bool {
    url.len() > 0 && token.len() > 0 && url_scheme_ok(url)
}

/// Which failure is reported for unacceptable settings: the empty address
/// first, then the empty credential, then the missing scheme.
pub open spec fn spec_config_error(url: Seq<char>, token: Seq<char>) -> ConfigError {
    if url.len() == 0 {
        ConfigError::EmptyUrl
    } else if token.len() == 0 {
        ConfigError::EmptyToken
    } else {
        ConfigError::BadScheme
    }
}

impl ConfigError {
    /// The message shown for this failure.
    pub fn message(&self) -> (r: String)
        ensures
            *self == ConfigError::EmptyUrl ==> r@ == "DONETICK_URL cannot be empty"@,
            *self == ConfigError::EmptyToken ==> r@ == "DONETICK_TOKEN cannot be empty"@,
            *self == ConfigError::BadScheme
                ==> r@ == "DONETICK_URL must start with http:// or https://"@,
    {
        match self {
            ConfigError::EmptyUrl => String::from_str("DONETICK_URL cannot be empty"),
            ConfigError::EmptyToken => String::from_str("DONETICK_TOKEN cannot be empty"),
            ConfigError::BadScheme => String::from_str(
                "DONETICK_URL must start with http:// or https://",
            ),
        }
    }
}

impl Config {
    /// Check the settings: both must be non-empty, and the address must
    /// start with a recognized URL scheme.
    pub fn validate(&self) -> (r: Result<(), ConfigError>)
        ensures
            r is Ok <==> config_ok(self.donetick_url@, self.donetick_token@),
            (match r {
                Ok(()) => config_ok(self.donetick_url@, self.donetick_token@),
                Err(e) => e == spec_config_error(self.donetick_url@, self.donetick_token@),
            }),
    {
        if self.donetick_url.as_str().is_empty() {
            return Err(ConfigError::EmptyUrl);
        }
        if self.donetick_token.as_str().is_empty() {
            return Err(ConfigError::EmptyToken);
        }
        if !str_starts_with(self.donetick_url.as_str(), "http://")
            && !str_starts_with(self.donetick_url.as_str(), "https://") {
            return Err(ConfigError::BadScheme);
        }
        Ok(())
    }
}

} // verus!
