use vstd::prelude::*;

verus! {

// Backend connection parameters and authentication method. Pure data,
// validated lazily at backend-construction time.

/// Authentication method for connecting to a backend.
#[derive(Debug, Clone, PartialEq)]
pub enum AuthMethod {
    ApiKey { header_name: String, key: String },
    BearerToken { token: String },
    NoAuth,
}

/// Configuration for a SigNoz backend.
#[derive(Debug, Clone, PartialEq)]
pub struct SigNozConfig {
    pub base_url: String,
    pub auth: AuthMethod,
    pub timeout_secs: u64,
}

/// Tagged enum of all supported backend configurations.
#[derive(Debug, Clone, PartialEq)]
pub enum BackendConfig {
    SigNoz(SigNozConfig),
}

/// Request timeout, in seconds, applied when a configuration names none.
pub fn default_timeout() -> (r: u64)
    ensures
        r == 30,
{
    30
}

} // verus!
