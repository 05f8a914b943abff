//! Bearer tokens.
//!
//! A request is let in if its token is signed with one of the identity
//! provider's keys. Finding that key is done here; checking the signature
//! and the claims against the clock is left to the caller. A token that is
//! let in is then exchanged for one that the storage accepts on the
//! caller's behalf.

use vstd::prelude::*;
use vstd::string::StringExecFns;
use crate::config::Config;
use crate::openid::{last_with_kid, OidConf, RsaKey};

verus! {

/// What a bearer token must claim.
#[derive(Debug)]
pub struct Claims {
    /// When the token expires, in seconds since the epoch.
    pub exp: usize,
    /// From when the token holds, in seconds since the epoch.
    pub nbf: usize,
    /// Who issued the token.
    pub iss: String,
}

/// Why a bearer token was turned away.
#[derive(Debug, Clone, Copy, PartialEq, Eq, Structural)]
pub enum TokenError {
    /// The token's header cannot be read.
    BadToken,
    /// The token's header names no key.
    MissingKid,
    /// The token's header names a key that the identity provider does not
    /// list.
    InvalidKid,
    /// The signature or the claims do not hold.
    InvalidToken,
}

/// The HTTP status for a request that makes no sense.
pub const BAD_REQUEST: u16 = 400;

/// The HTTP status for a request that is not let in.
pub const UNAUTHORIZED: u16 = 401;

impl TokenError {
    /// The HTTP status that the request is answered with.
    pub fn status_code(&self) -> (status: u16)
        ensures
            status == match *self {
                TokenError::InvalidToken => UNAUTHORIZED,
                _ => BAD_REQUEST,
            },
    {
        match self {
            TokenError::InvalidToken => UNAUTHORIZED,
            _ => BAD_REQUEST,
        }
    }

    /// What the caller is told.
    pub fn message(&self) -> (text: String)
        ensures
            text@ == match *self {
                TokenError::BadToken => "bad token"@,
                TokenError::MissingKid => "token missing kid"@,
                TokenError::InvalidKid => "invalid kid in token"@,
                TokenError::InvalidToken => "invalid token"@,
            },
    {
        match self {
            TokenError::BadToken => String::from_str("bad token"),
            TokenError::MissingKid => String::from_str("token missing kid"),
            TokenError::InvalidKid => String::from_str("invalid kid in token"),
            TokenError::InvalidToken => String::from_str("invalid token"),
        }
    }
}

#[verifier::external_type_specification]
#[verifier::external_body]
pub struct ExTokenFault(jsonwebtoken::errors::Error);

/// What the header of the token `token` says of its key: `None` if the
/// header cannot be read, else the key id it names, if it names one.
pub uninterp spec fn header_key_id(token: Seq<char>) -> Option<Option<Seq<char>>>;

/// `jsonwebtoken::decode_header`, of which only the key id is kept. The
/// header is read from the token's text alone, without a look at the
/// signature. Not proved.
#[verifier::external_body]
pub(crate) fn decode_key_id(token: &str) -> (header: Result<
    Option<String>,
    jsonwebtoken::errors::Error,
>)
    ensures
        match header {
            Ok(Some(kid)) => header_key_id(token@) == Some(Some(kid@)),
            Ok(None) => header_key_id(token@) == Some(None::<Seq<char>>),
            Err(_) => header_key_id(token@) is None,
        },
{
    jsonwebtoken::decode_header(token).map(|header| header.kid)
}

/// The key that a token with the given header is to be checked with, or
/// the reason why there is none. `header` is `None` for a header that
/// cannot be read, else the key id that the header names, if any.
pub open spec fn key_choice(keys: Seq<RsaKey>, header: Option<Option<Seq<char>>>) -> Result<
    int,
    TokenError,
> {
    match header {
        None => Err(TokenError::BadToken),
        Some(None) => Err(TokenError::MissingKid),
        Some(Some(kid)) => match last_with_kid(keys, kid) {
            Some(at) => Ok(at),
            None => Err(TokenError::InvalidKid),
        },
    }
}

/// A header as `key_choice` takes it.
pub open spec fn header_view(header: Option<Option<String>>) -> Option<Option<Seq<char>>> {
    match header {
        None => None,
        Some(None) => Some(None),
        Some(Some(kid)) => Some(Some(kid@)),
    }
}

/// Finds the key for a token whose header has been read.
pub fn select_key<'a>(oidc: &'a OidConf, header: Option<Option<String>>) -> (key: Result<
    &'a RsaKey,
    TokenError,
>)
    ensures
        match key {
            Ok(found) => key_choice(oidc.jwks@, header_view(header)) is Ok && *found
                == oidc.jwks@[key_choice(oidc.jwks@, header_view(header)).unwrap()],
            Err(reason) => key_choice(oidc.jwks@, header_view(header)) == Err::<int, TokenError>(
                reason,
            ),
        },
{
    match header {
        None => Err(TokenError::BadToken),
        Some(None) => Err(TokenError::MissingKid),
        Some(Some(kid)) => match oidc.key_for(&kid) {
            Some(found) => Ok(found),
            None => Err(TokenError::InvalidKid),
        },
    }
}

/// Finds the key that the token `token` is to be checked with: reads the
/// token's header and looks up the key it names.
pub fn signing_key<'a>(oidc: &'a OidConf, token: &str) -> (key: Result<&'a RsaKey, TokenError>)
    ensures
        match key {
            Ok(found) => key_choice(oidc.jwks@, header_key_id(token@)) is Ok && *found
                == oidc.jwks@[key_choice(oidc.jwks@, header_key_id(token@)).unwrap()],
            Err(reason) => key_choice(oidc.jwks@, header_key_id(token@)) == Err::<int, TokenError>(
                reason,
            ),
        },
{
    let header = match decode_key_id(token) {
        Ok(kid) => Some(kid),
        Err(_) => None,
    };
    select_key(oidc, header)
}

/// The form that asks the identity provider to exchange `token` for one
/// that the storage accepts on the caller's behalf.
pub fn obo_form(config: &Config, token: &str) -> (form: String)
    ensures
        form@ == "grant_type=urn:ietf:params:oauth:grant-type:jwt-bearer&client_id="@
            + config.client_id@ + "&client_secret="@ + config.client_secret@ + "&assertion="@
            + token@
            + "&scope=https://storage.azure.com/user_impersonation&requested_token_use=on_behalf_of"@,
{
    String::from_str("grant_type=urn:ietf:params:oauth:grant-type:jwt-bearer&client_id=").concat(
        config.client_id.as_str(),
    ).concat("&client_secret=").concat(config.client_secret.as_str()).concat("&assertion=").concat(
        token,
    ).concat(
        "&scope=https://storage.azure.com/user_impersonation&requested_token_use=on_behalf_of",
    )
}

} // verus!
