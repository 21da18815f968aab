//! The decisions of the Epic Games plugin.
use crate::epic_games::endpoints::auth_url;
use vstd::prelude::*;
use vstd::string::StringExecFns;

verus! {

/// The storefront plugin.
pub struct EpicGames;

/// A browser flow: the page to open, and the address that ends it.
pub struct AuthFlow {
    pub url: String,
    pub target: String,
}

/// An error of the plugin's configuration.
#[derive(Debug)]
pub enum Error {
    Config(String),
}

impl EpicGames {
    /// The configured user name must not be empty.
    pub fn check_username(username: &str) -> (r: Result<(), Error>)
        ensures
            username@.len() == 0 ==> (r matches Err(Error::Config(m)) && m@
                == "Username cannot be empty"@),
            username@.len() > 0 ==> r is Ok,
    {
        if username.is_empty() {
            Err(Error::Config(String::from_str("Username cannot be empty")))
        } else {
            Ok(())
        }
    }

    /// Sign in on the Epic Games page for `client_id`; the flow ends at the redirect page.
    pub fn get_login_flow(client_id: &str) -> (r: Result<Option<AuthFlow>, Error>)
        ensures
            r matches Ok(Some(flow)) && flow.url@ == crate::epic_games::endpoints::auth_url_spec(
                client_id@,
            ) && flow.target@ == "https://www.epicgames.com/id/api/redirect?"@,
    {
        Ok(
            Some(
                AuthFlow {
                    url: auth_url(client_id),
                    target: String::from_str("https://www.epicgames.com/id/api/redirect?"),
                },
            ),
        )
    }

    /// Sign out on the Epic Games page; the flow ends at the sign-in page.
    pub fn get_logout_flow() -> (r: Result<Option<AuthFlow>, Error>)
        ensures
            r matches Ok(Some(flow)) && flow.url@
                == "https://www.epicgames.com/id/logout?productName=epic-games&redirectUrl=https://www.epicgames.com/id/login"@
                && flow.target@ == "https://www.epicgames.com/id/login"@,
    {
        Ok(
            Some(
                AuthFlow {
                    url: String::from_str(
                        "https://www.epicgames.com/id/logout?productName=epic-games&redirectUrl=https://www.epicgames.com/id/login",
                    ),
                    target: String::from_str("https://www.epicgames.com/id/login"),
                },
            ),
        )
    }
}

} // verus!
