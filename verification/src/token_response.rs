use vstd::prelude::*;

verus! {

/// Model of a cached access token.
#[verifier::ext_equal]
pub struct TokenResponseView {
    pub access_token: Seq<char>,
    pub expires_in: u64,
}

/// An access token together with the expiry the provider reported for it.
/// Once cached it is trusted as-is; revalidation is out of scope.
pub struct TokenResponse {
    pub access_token: String,
    pub expires_in: u64,
}

impl View for TokenResponse {
    type V = TokenResponseView;

    open spec fn view(&self) -> TokenResponseView {
        TokenResponseView { access_token: self.access_token@, expires_in: self.expires_in }
    }
}

impl TokenResponse {
    /// The well-known file that caches the token between runs.
    pub const FILENAME: &'static str = "token.json";

    pub fn new(access_token: String, expires_in: u64) -> (r: TokenResponse)
        ensures
            r@ == (TokenResponseView { access_token: access_token@, expires_in }),
    {
        TokenResponse { access_token, expires_in }
    }

    /// Relies on std::path::Path::exists: reports whether the token cache
    /// file is present on disk. Nothing is promised of the result; the disk
    /// may change between calls.
    #[verifier::external_body]
    pub fn token_exists() -> bool {
        std::path::Path::new(Self::FILENAME).exists()
    }
}

impl Clone for TokenResponse {
    fn clone(&self) -> (r: Self)
        ensures
            r@ == self@,
    {
        TokenResponse { access_token: self.access_token.clone(), expires_in: self.expires_in }
    }
}

} // verus!
