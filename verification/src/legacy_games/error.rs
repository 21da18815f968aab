//! How API errors reach the launcher.
use crate::legacy_games::api::error::Error;
use vstd::prelude::*;
use vstd::string::StringExecFns;

verus! {

/// An error as the launcher's plugin interface takes it: a refused sign-in,
/// or anything else, each with a message.
#[derive(Debug)]
pub enum PluginError {
    Auth(String),
    Other(String),
}

/// The mathematical value of a [`PluginError`].
pub enum PluginErrorView {
    Auth(Seq<char>),
    Other(Seq<char>),
}

impl View for PluginError {
    type V = PluginErrorView;

    open spec fn view(&self) -> PluginErrorView {
        match self {
            PluginError::Auth(m) => PluginErrorView::Auth(m@),
            PluginError::Other(m) => PluginErrorView::Other(m@),
        }
    }
}

impl PluginError {
    /// Refused credentials and unknown users are sign-in errors with a
    /// sentence for the user; failed requests and other errors pass their
    /// message on.
    pub fn from_api(e: Error) -> (r: PluginError)
        ensures
            r@ == match e {
                Error::InvalidCredentials => PluginErrorView::Auth("Invalid credentials."@),
                Error::UserNotFound => PluginErrorView::Auth("User not found."@),
                Error::Request(m) => PluginErrorView::Other(m@),
                Error::Other(m) => PluginErrorView::Other(m@),
            },
    {
        match e {
            Error::InvalidCredentials => PluginError::Auth(String::from_str("Invalid credentials.")),
            Error::UserNotFound => PluginError::Auth(String::from_str("User not found.")),
            Error::Request(m) => PluginError::Other(m),
            Error::Other(m) => PluginError::Other(m),
        }
    }
}

} // verus!
