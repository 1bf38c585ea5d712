//! One OAuth2 client-credentials token, kept and refreshed before it is used.
//! The token exchange and the token file are handled by the caller; this
//! module decides when a new token is needed and what a request carries.
use vstd::prelude::*;

verus! {

/// The kind of an access token.
pub enum TokenType {
    Bearer,
    Mac,
    Extension(String),
}

/// An access token with its absolute expiry in seconds since the Unix
/// epoch; a token without expiry never expires.
pub struct Token {
    pub access_token: String,
    pub token_type: TokenType,
    pub expires_at: Option<u64>,
}

/// The application's own credentials.
#[derive(Debug)]
pub struct ClientCredential {
    pub client_id: String,
    pub client_secret: String,
}

/// The name of a token type as it appears in an `Authorization` header.
pub open spec fn token_type_text(tt: TokenType) -> Seq<char> {
    match tt {
        TokenType::Bearer => "Bearer"@,
        TokenType::Mac => "Mac"@,
        TokenType::Extension(s) => s@,
    }
}

/// The token has an expiry and `now` is past it.
pub open spec fn is_expired(token: Token, now: u64) -> bool {
    match token.expires_at {
        Some(t) => now > t,
        None => false,
    }
}

/// The value of the `Authorization` header for `token`.
pub open spec fn authorization_text(token: Token) -> Seq<char> {
    token_type_text(token.token_type) + " "@ + token.access_token@
}

pub fn tt2str(tt: &TokenType) -> (r: String)
    ensures
        r@ == token_type_text(*tt),
{
    match tt {
        TokenType::Bearer => String::from_str("Bearer"),
        TokenType::Mac => String::from_str("Mac"),
        TokenType::Extension(s) => s.clone(),
    }
}

pub fn token_expired(token: &Token, now: u64) -> (r: bool)
    ensures
        r == is_expired(*token, now),
{
    match token.expires_at {
        Some(t) => now > t,
        None => false,
    }
}

/// The absolute expiry of a token issued at `now` that lasts `expires_in`
/// seconds; one beyond the clock's range is kept at its largest value.
pub fn expiry_from(expires_in: Option<u64>, now: u64) -> (r: Option<u64>)
    ensures
        match expires_in {
            Some(d) => r == Some(if now + d <= u64::MAX { (now + d) as u64 } else { u64::MAX }),
            None => r is None,
        },
{
    match expires_in {
        Some(d) => Some(now.saturating_add(d)),
        None => None,
    }
}

/// On start: a new token is needed when none was kept or the kept one has
/// expired.
pub fn needs_exchange(kept: Option<&Token>, now: u64) -> (r: bool)
    ensures
        match kept {
            Some(t) => r == is_expired(*t, now),
            None => r,
        },
{
    match kept {
        Some(t) => token_expired(t, now),
        None => true,
    }
}

/// An OAuth2 client: its credentials, the token it holds, where tokens are
/// exchanged and where the token is kept.
pub struct Client {
    cred: ClientCredential,
    token: Token,
    auth_url: String,
    token_store: String,
}

impl Client {
    pub fn new(cred: ClientCredential, token: Token, auth_url: String, token_store: String) -> (r:
        Client)
        ensures
            r.credential() == cred,
            r.token() == token,
            r.auth_url()@ == auth_url@,
            r.token_store()@ == token_store@,
    {
        Client { cred, token, auth_url, token_store }
    }

    pub closed spec fn credential(&self) -> ClientCredential {
        self.cred
    }

    pub closed spec fn token(&self) -> Token {
        self.token
    }

    pub closed spec fn auth_url(&self) -> String {
        self.auth_url
    }

    pub closed spec fn token_store(&self) -> String {
        self.token_store
    }

    pub fn cred(&self) -> (r: &ClientCredential)
        ensures
            *r == self.credential(),
    {
        &self.cred
    }

    pub fn current_token(&self) -> (r: &Token)
        ensures
            *r == self.token(),
    {
        &self.token
    }

    pub fn token_url(&self) -> (r: &str)
        ensures
            r@ == self.auth_url()@,
    {
        self.auth_url.as_str()
    }

    pub fn store_path(&self) -> (r: &str)
        ensures
            r@ == self.token_store()@,
    {
        self.token_store.as_str()
    }

    /// Before a request: whether the held token must be replaced first.
    pub fn needs_refresh(&self, now: u64) -> (r: bool)
        ensures
            r == is_expired(self.token(), now),
    {
        token_expired(&self.token, now)
    }

    /// Puts a freshly exchanged token in place of the held one.
    pub fn replace_token(&mut self, token: Token)
        ensures
            final(self).token() == token,
            final(self).credential() == old(self).credential(),
            final(self).auth_url() == old(self).auth_url(),
            final(self).token_store() == old(self).token_store(),
    {
        self.token = token;
    }

    /// The `Authorization` header that a request carries: the held token's
    /// type, a space, and its secret.
    pub fn authorization(&self) -> (r: String)
        ensures
            r@ == authorization_text(self.token()),
    {
        let kind = tt2str(&self.token.token_type);
        kind.concat(" ").concat(self.token.access_token.as_str())
    }
}

} // verus!
