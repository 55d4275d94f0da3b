//! Static configuration of a crawl.

use vstd::prelude::*;

verus! {

/// Credentials and endpoint for a site login.
pub struct LoginConfig {
    pub username: String,
    pub password: String,
    pub login_url: String,
}

impl Clone for LoginConfig {
    fn clone(&self) -> (r: Self)
        ensures
            r == *self,
    {
        LoginConfig {
            username: self.username.clone(),
            password: self.password.clone(),
            login_url: self.login_url.clone(),
        }
    }
}

/// What a crawl is configured with: its seed URLs, its depth limit, an
/// optional proxy to route fetches through, and an optional login.
pub struct Config {
    pub start_urls: Vec<String>,
    pub max_depth: usize,
    pub proxy: Option<String>,
    pub login: Option<LoginConfig>,
}

} // verus!
