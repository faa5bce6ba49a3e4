//! What the client keeps in the secret store, as far as it decides: under
//! which service name, and when the stored pair counts as a login.

use vstd::prelude::*;
use crate::text::{trim, trimmed};

verus! {

/// The service name in normal use.
pub const SERVICE_NAME: &'static str = "BrandyBox";

/// The service name while the configuration directory is overridden.
pub const TEST_SERVICE_NAME: &'static str = "BrandyBox-E2E";

/// The key of the stored e-mail address.
pub const KEY_EMAIL: &'static str = "email";

/// The key of the stored refresh token.
pub const KEY_REFRESH_TOKEN: &'static str = "refresh_token";

/// The configuration directory is overridden: the override is set and not
/// blank.
pub open spec fn overridden(override_dir: Option<String>) -> bool {
    override_dir is Some && trimmed(override_dir->0@).len() > 0
}

/// Whether the configuration directory is overridden.
pub fn is_overridden(override_dir: &Option<String>) -> (r: bool)
    ensures
        r == overridden(*override_dir),
{
    match override_dir {
        Some(d) => {
            let t = trim(d.as_str());
            !t.as_str().is_empty()
        },
        None => false,
    }
}

/// The service name under which the secrets are kept: a name of its own
/// while the configuration directory is overridden.
pub fn service_name(override_dir: &Option<String>) -> (r: &'static str)
    ensures
        r@ == if overridden(*override_dir) {
            TEST_SERVICE_NAME@
        } else {
            SERVICE_NAME@
        },
{
    if is_overridden(override_dir) {
        TEST_SERVICE_NAME
    } else {
        SERVICE_NAME
    }
}

/// The stored login, from what the secret store holds under the two keys:
/// the pair of e-mail address and refresh token, where both are there and
/// neither is empty.
pub fn get_stored(email: Option<String>, token: Option<String>) -> (r: Option<(String, String)>)
    ensures
        r is Some == (email is Some && token is Some && email->0@.len() > 0 && token->0@.len() > 0),
        r is Some ==> r == Some((email->0, token->0)),
{
    match email {
        None => None,
        Some(e) => match token {
            None => None,
            Some(t) => {
                if !e.as_str().is_empty() && !t.as_str().is_empty() {
                    Some((e, t))
                } else {
                    None
                }
            },
        },
    }
}

} // verus!
