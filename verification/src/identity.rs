//! The gateway's identity on the messaging fabric.
//!
//! Every gateway instance introduces itself to the backend under a token
//! of its own, drawn once when it starts. Replies are addressed to that
//! token, and every request carries it in front.

use vstd::prelude::*;

verus! {

/// The length of a freshly drawn token: 32 hexadecimal digits in five
/// groups, with a hyphen between two groups.
pub const TOKEN_LENGTH: usize = 36;

/// The token under which one gateway instance is known to the backend.
/// Once made it cannot be changed.
#[derive(Debug, Clone)]
pub struct GatewayIdentity {
    token: String,
}

impl View for GatewayIdentity {
    type V = Seq<char>;

    closed spec fn view(&self) -> Seq<char> {
        self.token@
    }
}

impl GatewayIdentity {
    /// Draws a new identity at random.
    pub fn generate() -> (identity: Self)
        ensures
            identity@.len() == TOKEN_LENGTH,
    {
        GatewayIdentity { token: random_token() }
    }

    /// The identity that is spelled `token`.
    pub fn from_token(token: String) -> (identity: Self)
        ensures
            identity@ == token@,
    {
        GatewayIdentity { token }
    }

    /// How the identity is spelled.
    pub fn as_str(&self) -> (token: &str)
        ensures
            token@ == self@,
    {
        self.token.as_str()
    }
}

/// `Uuid::new_v4` printed with `to_string`: a random version 4 UUID in
/// its hyphenated form, which is always 36 characters long. Which UUID
/// comes out is not determined, and nothing of this is proved. The call
/// gives up with a panic if the operating system hands out no random
/// bytes.
#[verifier::external_body]
pub(crate) fn random_token() -> (token: String)
    ensures
        token@.len() == TOKEN_LENGTH,
{
    uuid::Uuid::new_v4().to_string()
}

/// Draws an id for a new request.
pub fn fresh_request_id() -> (id: String)
    ensures
        id@.len() == TOKEN_LENGTH,
{
    random_token()
}

} // verus!
