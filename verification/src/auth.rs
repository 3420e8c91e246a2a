//! Access control: a request is served only with a configured key.

use vstd::prelude::*;
use crate::settings::Settings;
use crate::settings::has_key;

verus! {

/// The name of the request header that carries the key.
pub const API_KEY_HEADER: &'static str = "x-api-key";

/// Decides, before anything else is done, whether a request is served.
#[derive(Debug, Clone, Copy, PartialEq, Eq, Structural)]
pub struct AuthMiddleware;

/// Whether a request with this key header is served: the header is there
/// and holds a configured key.
pub open spec fn admitted(settings: Settings, api_key: Option<&str>) -> bool {
    match api_key {
        Some(key) => has_key(settings.api_keys@, key@),
        None => false,
    }
}

impl AuthMiddleware {
    /// Decides whether a request is served, from the value of its key header.
    pub fn admits(&self, settings: &Settings, api_key: Option<&str>) -> (r: bool)
        ensures
            r == admitted(*settings, api_key),
    {
        match api_key {
            Some(key) => settings.identity(key).is_some(),
            None => false,
        }
    }
}

} // verus!
