//! What can go wrong when talking to the Legacy Games API.
use crate::legacy_games::api::endpoints::concat;
use vstd::prelude::*;
use vstd::string::StringExecFns;

verus! {

#[derive(Debug)]
pub enum Error {
    UserNotFound,
    InvalidCredentials,
    /// The request failed; the message says why.
    Request(String),
    Other(String),
}

impl Error {
    /// The message shown for the error.
    pub open spec fn message_spec(&self) -> Seq<char> {
        match self {
            Error::UserNotFound => "user not found"@,
            Error::InvalidCredentials => "invalid credentials"@,
            Error::Request(m) => "request failed: "@ + m@,
            Error::Other(m) => "error: "@ + m@,
        }
    }

    /// The message shown for the error.
    pub fn to_string(&self) -> (r: String)
        ensures
            r@ == self.message_spec(),
    {
        match self {
            Error::UserNotFound => String::from_str("user not found"),
            Error::InvalidCredentials => String::from_str("invalid credentials"),
            Error::Request(m) => concat("request failed: ", m.as_str()),
            Error::Other(m) => concat("error: ", m.as_str()),
        }
    }
}

} // verus!
