use vstd::prelude::*;
use crate::config::UserinfoConfig;

verus! {

/// Login details for fetching the b2_token through a headless browser.
pub struct B2Token {
    pub login_url: String,
    pub forum_url: String,
    pub username: String,
    pub password: String,
}

/// A browser cookie, by name and value.
pub struct Cookie {
    pub name: String,
    pub value: String,
}

/// The name of the cookie that holds the forum token.
pub open spec fn token_cookie_name() -> Seq<char> {
    "b2_token"@
}

impl B2Token {
    /// Takes the login and forum addresses and the credentials from the settings.
    pub fn new(userinfo: &UserinfoConfig) -> (res: Self)
        ensures
            res.login_url == userinfo.login_url,
            res.forum_url == userinfo.forum_url,
            res.username == userinfo.username,
            res.password == userinfo.password,
    {
        B2Token {
            login_url: userinfo.login_url.clone(),
            forum_url: userinfo.forum_url.clone(),
            username: userinfo.username.clone(),
            password: userinfo.password.clone(),
        }
    }
}

/// The value of the first cookie named `b2_token`, or `None` when there is none.
pub fn find_b2_token(cookies: &Vec<Cookie>) -> (res: Option<String>)
    ensures
        match res {
            Some(v) => exists|i: int|
                0 <= i < cookies@.len() && #[trigger] cookies@[i].name@ == token_cookie_name()
                    && v == cookies@[i].value && forall|j: int|
                    0 <= j < i ==> cookies@[j].name@ != token_cookie_name(),
            None => forall|i: int|
                0 <= i < cookies@.len() ==> #[trigger] cookies@[i].name@ != token_cookie_name(),
        },
{
    let wanted = "b2_token".to_owned();
    let n = cookies.len();
    for i in 0..n
        invariant
            n == cookies@.len(),
            wanted@ == token_cookie_name(),
            forall|j: int| 0 <= j < i ==> #[trigger] cookies@[j].name@ != token_cookie_name(),
    {
        if cookies[i].name == wanted {
            return Some(cookies[i].value.clone());
        }
    }
    None
}

} // verus!
