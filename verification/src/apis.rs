//! Configuration of the API backends that modules may call through the
//! host call surface.  The backends themselves (HTTP clients, signing
//! keys) live in the host shell; the engine sees their configuration.

use vstd::prelude::*;

use crate::yubikey::YubikeyConfig;

verus! {

/// The number of seconds until an external API request times out, when a
/// backend's configuration does not say otherwise.
pub fn default_timeout_seconds() -> (r: u64)
    ensures
        r == 5,
{
    5
}

/// The configured API backends; an absent entry means calls to that
/// namespace answer `ApiNotConfigured`.
pub struct Apis {
    /// The one-time-password verification backend.
    pub yubikey: Option<YubikeyConfig>,
}

impl Apis {
    /// Whether the named backend is configured; the host call surface
    /// consults this before dispatching an API call.
    pub fn yubikey_configured(&self) -> (r: bool)
        ensures
            r == self.yubikey.is_some(),
    {
        self.yubikey.is_some()
    }
}

} // verus!
