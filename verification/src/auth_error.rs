use vstd::prelude::*;

verus! {

/// Errors of the authorization flow.
///
/// `EnvVarError` reports a missing or invalid configuration value,
/// `RequestError` a transport failure during the code exchange,
/// `TimeoutError` that no result arrived within the configured wait,
/// `ChannelError` that the handoff channel closed without a result,
/// `CustomError` the remaining failures (browser launch, missing redirect
/// code, unreadable cached token), and `LoadTokenFileError` a failure to
/// persist a freshly obtained token.
#[derive(Debug)]
pub enum AuthError {
    EnvVarError(String),
    RequestError(String),
    TimeoutError,
    ChannelError,
    CustomError(String),
    LoadTokenFileError,
}

impl AuthError {
    /// A short description of the error, for reporting at the top level.
    pub fn message(&self) -> (r: String)
        ensures
            (self matches AuthError::EnvVarError(m) ==> r@ == "Environment variable error: "@
                + m@),
            (self matches AuthError::RequestError(m) ==> r@ == "Request error: "@ + m@),
            (self matches AuthError::TimeoutError ==> r@ == "Timeout while waiting for token"@),
            (self matches AuthError::ChannelError ==> r@ == "Channel error"@),
            (self matches AuthError::CustomError(m) ==> r@ == "Custom error: "@ + m@),
            (self matches AuthError::LoadTokenFileError ==> r@ == "Load token file error!"@),
    {
        match self {
            AuthError::EnvVarError(m) => {
                let mut s = "Environment variable error: ".to_owned();
                s.append(m.as_str());
                s
            },
            AuthError::RequestError(m) => {
                let mut s = "Request error: ".to_owned();
                s.append(m.as_str());
                s
            },
            AuthError::TimeoutError => "Timeout while waiting for token".to_owned(),
            AuthError::ChannelError => "Channel error".to_owned(),
            AuthError::CustomError(m) => {
                let mut s = "Custom error: ".to_owned();
                s.append(m.as_str());
                s
            },
            AuthError::LoadTokenFileError => "Load token file error!".to_owned(),
        }
    }
}

} // verus!
