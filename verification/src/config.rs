//! The part of the configuration that the router reads.

use vstd::prelude::*;

verus! {

/// The bot's credentials: the token for the platform's API, and the secret
/// that the platform presents with each update, where one is configured.
#[derive(Debug, Clone, PartialEq, Eq)]
pub struct AuthConfig {
    pub bot_token: String,
    pub api_token: Option<String>,
}

} // verus!
