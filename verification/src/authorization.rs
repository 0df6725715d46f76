use vstd::prelude::*;

use crate::auth_error::AuthError;
use crate::token_response::TokenResponse;

verus! {

/// The authorization flow: every decision it takes is a function here, from
/// plain values to plain values. Opening the browser, serving the loopback
/// redirect listener, the token-exchange POST and the file I/O are performed
/// by the surrounding program, which feeds their outcomes back into these
/// functions.
pub struct Authorization {
    pub client_id: String,
    pub client_secret: String,
    pub redirect_uri: String,
}

/// How the bounded wait for the handoff channel ended: a result was
/// delivered, the channel closed without one, or the wait timed out.
pub enum AwaitOutcome {
    Delivered(Result<TokenResponse, AuthError>),
    Closed,
    TimedOut,
}

/// The view of a list of query parameters: each pair as character sequences.
pub open spec fn params_view(s: Seq<(String, String)>) -> Seq<(Seq<char>, Seq<char>)> {
    Seq::new(s.len(), |i: int| (s[i].0@, s[i].1@))
}

/// The value of the first parameter named `code`, if any.
pub open spec fn spec_find_code(s: Seq<(Seq<char>, Seq<char>)>) -> Option<Seq<char>>
    decreases s.len(),
{
    if s.len() == 0 {
        None
    } else if s[0].0 == "code"@ {
        Some(s[0].1)
    } else {
        spec_find_code(s.drop_first())
    }
}

impl Clone for Authorization {
    fn clone(&self) -> (r: Self)
        ensures
            r.client_id@ == self.client_id@,
            r.client_secret@ == self.client_secret@,
            r.redirect_uri@ == self.redirect_uri@,
    {
        Authorization {
            client_id: self.client_id.clone(),
            client_secret: self.client_secret.clone(),
            redirect_uri: self.redirect_uri.clone(),
        }
    }
}

impl Authorization {
    /// A flow for the given OAuth client settings.
    pub fn new(client_id: String, client_secret: String, redirect_uri: String) -> (r: Self)
        ensures
            r.client_id@ == client_id@,
            r.client_secret@ == client_secret@,
            r.redirect_uri@ == redirect_uri@,
    {
        Authorization { client_id, client_secret, redirect_uri }
    }

    /// The provider URL the browser is sent to: the authorization endpoint
    /// with this flow's client id and redirect URI.
    pub fn build_authorization_url(&self) -> (r: String)
        ensures
            r@ == "https://oauth.yandex.ru/authorize?response_type=code&client_id="@
                + self.client_id@ + "&redirect_uri="@ + self.redirect_uri@,
    {
        let mut url =
            "https://oauth.yandex.ru/authorize?response_type=code&client_id=".to_owned();
        url.append(self.client_id.as_str());
        url.append("&redirect_uri=");
        url.append(self.redirect_uri.as_str());
        url
    }

    /// The provider endpoint the authorization code is exchanged at.
    pub fn token_url() -> (r: String)
        ensures
            r@ == "https://oauth.yandex.ru/token"@,
    {
        "https://oauth.yandex.ru/token".to_owned()
    }

    /// The form fields of the token-exchange request for `code`.
    pub fn exchange_params(&self, code: &String) -> (r: Vec<(String, String)>)
        ensures
            params_view(r@) == seq![
                ("grant_type"@, "authorization_code"@),
                ("code"@, code@),
                ("client_id"@, self.client_id@),
                ("client_secret"@, self.client_secret@),
                ("redirect_uri"@, self.redirect_uri@),
            ],
    {
        let mut r: Vec<(String, String)> = Vec::new();
        r.push(("grant_type".to_owned(), "authorization_code".to_owned()));
        r.push(("code".to_owned(), code.clone()));
        r.push(("client_id".to_owned(), self.client_id.clone()));
        r.push(("client_secret".to_owned(), self.client_secret.clone()));
        r.push(("redirect_uri".to_owned(), self.redirect_uri.clone()));
        proof {
            assert(params_view(r@) =~= seq![
                ("grant_type"@, "authorization_code"@),
                ("code"@, code@),
                ("client_id"@, self.client_id@),
                ("client_secret"@, self.client_secret@),
                ("redirect_uri"@, self.redirect_uri@),
            ]);
        }
        r
    }

    /// The decision over the cached token: without a token file the flow
    /// reports that none was found; with one that did not parse it reports a
    /// load failure; otherwise the cached token is the result, trusted as-is.
    pub fn read_local_access_token(token_file_exists: bool, loaded: Option<TokenResponse>) -> (r:
        Result<TokenResponse, AuthError>)
        ensures
            !token_file_exists ==> (r matches Err(AuthError::CustomError(m))
                && m@ == "Token file not found"@),
            token_file_exists && loaded is None ==> (r matches Err(AuthError::CustomError(m))
                && m@ == "Error loading token.json!"@),
            token_file_exists && loaded is Some ==> (r matches Ok(t) && t == loaded->0),
    {
        if !token_file_exists {
            return Err(AuthError::CustomError("Token file not found".to_owned()));
        }
        match loaded {
            Some(t) => Ok(t),
            None => Err(AuthError::CustomError("Error loading token.json!".to_owned())),
        }
    }

    /// The error reported when the browser cannot be opened on the
    /// authorization URL: a hard failure of the flow.
    pub fn browser_open_failure() -> (r: AuthError)
        ensures
            r matches AuthError::CustomError(m) && m@ == "Failed to open URL"@,
    {
        AuthError::CustomError("Failed to open URL".to_owned())
    }

    /// The value of the first `code` query parameter of the redirect
    /// request, if the provider sent one. Without it the redirect is
    /// rejected and nothing is delivered to the waiting flow.
    pub fn extract_code(params: &Vec<(String, String)>) -> (r: Option<String>)
        ensures
            match r {
                Some(c) => spec_find_code(params_view(params@)) == Some(c@),
                None => spec_find_code(params_view(params@)) is None,
            },
    {
        let code_key: String = "code".to_owned();
        let mut i: usize = 0;
        proof {
            assert(params_view(params@).skip(0) =~= params_view(params@));
        }
        while i < params.len()
            invariant
                code_key@ == "code"@,
                0 <= i <= params.len(),
                spec_find_code(params_view(params@)) == spec_find_code(
                    params_view(params@).skip(i as int),
                ),
            decreases params.len() - i,
        {
            proof {
                assert(params_view(params@).skip(i as int)[0] == (params@[i as int].0@, params@[
                    i as int
                ].1@));
                assert(params_view(params@).skip(i as int).drop_first() =~= params_view(
                    params@,
                ).skip(i as int + 1));
            }
            if params[i].0 == code_key {
                return Some(params[i].1.clone());
            }
            i = i + 1;
        }
        proof {
            assert(params_view(params@).skip(params@.len() as int) =~= Seq::<(
                Seq<char>,
                Seq<char>,
            )>::empty());
        }
        None
    }

    /// The error for a redirect that carries no `code` parameter.
    pub fn missing_code_failure() -> (r: AuthError)
        ensures
            r matches AuthError::CustomError(m) && m@ == "Authorization code not found"@,
    {
        AuthError::CustomError("Authorization code not found".to_owned())
    }

    /// The decision over the exchange outcome, as delivered through the
    /// handoff channel: a parsed token is the result; a transport or parse
    /// failure, reported as text, becomes a typed error.
    pub fn classify_exchange(outcome: Result<TokenResponse, String>) -> (r: Result<
        TokenResponse,
        AuthError,
    >)
        ensures
            (outcome matches Ok(t) ==> r matches Ok(t2) && t2 == t),
            (outcome matches Err(m) ==> r matches Err(AuthError::CustomError(m2)) && m2@ == m@),
    {
        match outcome {
            Ok(t) => Ok(t),
            Err(m) => Err(AuthError::CustomError(m)),
        }
    }

    /// The result of the bounded wait on the handoff channel: exactly the
    /// delivered result, a channel error when the channel closed without
    /// one, and a timeout error when — and only when — the wait elapsed.
    pub fn wait_for_token(outcome: AwaitOutcome) -> (r: Result<TokenResponse, AuthError>)
        ensures
            (outcome matches AwaitOutcome::Delivered(x) ==> r == x),
            (outcome matches AwaitOutcome::Closed ==> r matches Err(AuthError::ChannelError)),
            (outcome matches AwaitOutcome::TimedOut ==> r matches Err(AuthError::TimeoutError)),
    {
        match outcome {
            AwaitOutcome::Delivered(x) => x,
            AwaitOutcome::Closed => Err(AuthError::ChannelError),
            AwaitOutcome::TimedOut => Err(AuthError::TimeoutError),
        }
    }

    /// The decision over persisting a fresh token: a persistence failure is
    /// fatal and distinct from an authorization error; otherwise the token
    /// is the flow's result.
    pub fn persist_outcome(token: TokenResponse, persist_ok: bool) -> (r: Result<
        TokenResponse,
        AuthError,
    >)
        ensures
            persist_ok ==> (r matches Ok(t) && t == token),
            !persist_ok ==> (r matches Err(AuthError::LoadTokenFileError)),
    {
        if persist_ok {
            Ok(token)
        } else {
            Err(AuthError::LoadTokenFileError)
        }
    }

    /// The end-to-end decision rule of `authorize`: a cached token wins
    /// outright; otherwise the fresh authorization's outcome decides, and a
    /// fresh token only becomes the result once it has been persisted. The
    /// arguments are the outcomes of the three stages; the surrounding
    /// program runs a stage only when the earlier clauses call for it.
    pub fn authorize(
        &self,
        cached: Result<TokenResponse, AuthError>,
        fresh: Result<TokenResponse, AuthError>,
        persist_ok: bool,
    ) -> (r: Result<TokenResponse, AuthError>)
        ensures
            (cached matches Ok(t) ==> r matches Ok(t2) && t2 == t),
            cached is Err && fresh is Err ==> r == fresh,
            cached is Err && fresh is Ok && persist_ok ==> (r matches Ok(t2) && t2
                == fresh->Ok_0),
            cached is Err && fresh is Ok && !persist_ok ==> (r matches Err(
                AuthError::LoadTokenFileError
            )),
    {
        match cached {
            Ok(t) => Ok(t),
            Err(_) => match fresh {
                Ok(t) => Self::persist_outcome(t, persist_ok),
                Err(e) => Err(e),
            },
        }
    }
}

} // verus!
