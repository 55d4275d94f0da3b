//! The login collaborator.

use vstd::prelude::*;
use crate::config::LoginConfig;

verus! {

/// Holds the credentials for a site login.  The login request itself is
/// network I/O and is made by the caller.
pub struct Authenticator {
    pub login_config: LoginConfig,
}

impl Authenticator {
    /// An authenticator for the given login configuration.
    pub fn new(login_config: &LoginConfig) -> (r: Self)
        ensures
            r.login_config == *login_config,
    {
        Authenticator { login_config: login_config.clone() }
    }
}

} // verus!
