use vstd::prelude::*;
use crate::config::UserinfoConfig;

verus! {

/// Login details for fetching the b2_token through a WebDriver session.
pub struct B2Token {
    pub login_url: String,
    pub forum_url: String,
    pub username: String,
    pub password: String,
}

impl B2Token {
    /// Takes the login and forum addresses and the credentials from the settings.
    pub fn new(userinfo: &UserinfoConfig) -> (res: Self)
        ensures
            res.login_url == userinfo.login_url,
            res.forum_url == userinfo.forum_url,
            res.username == userinfo.username,
            res.password == userinfo.password,
    {
        B2Token {
            login_url: userinfo.login_url.clone(),
            forum_url: userinfo.forum_url.clone(),
            username: userinfo.username.clone(),
            password: userinfo.password.clone(),
        }
    }
}

} // verus!
