//! The identity provider's signing keys.
//!
//! The provider publishes a set of keys, of which only complete RSA keys
//! are of use. A token names the key it was signed with by the key's id;
//! where the provider lists an id twice, the later key stands.

use vstd::prelude::*;
use vstd::string::StringExecFns;

verus! {

/// A key as the identity provider publishes it. Any member may be
/// missing.
#[derive(Clone, Debug)]
pub struct Jwk {
    /// The key's family, such as `RSA`.
    pub kty: Option<String>,
    /// The key's id.
    pub kid: Option<String>,
    /// The modulus of an RSA key.
    pub n: Option<String>,
    /// The exponent of an RSA key.
    pub e: Option<String>,
}

/// An RSA key to check signatures with.
#[derive(Clone, Debug)]
pub struct RsaKey {
    /// The key's id.
    pub kid: String,
    /// The modulus.
    pub n: String,
    /// The exponent.
    pub e: String,
}

/// What the gateway keeps of the identity provider's configuration.
#[derive(Clone, Debug)]
pub struct OidConf {
    /// The provider's RSA keys, in the order in which it lists them.
    pub jwks: Vec<RsaKey>,
    /// The name under which the provider issues tokens.
    pub issuer: String,
    /// Where tokens are exchanged.
    pub token_endpoint: String,
}

/// An RSA key as id, modulus and exponent.
pub struct RsaKeyView {
    pub kid: Seq<char>,
    pub n: Seq<char>,
    pub e: Seq<char>,
}

impl View for RsaKey {
    type V = RsaKeyView;

    open spec fn view(&self) -> RsaKeyView {
        RsaKeyView { kid: self.kid@, n: self.n@, e: self.e@ }
    }
}

impl Jwk {
    /// The key is an RSA key with its id, modulus and exponent all there.
    pub open spec fn is_complete_rsa(self) -> bool {
        &&& self.kty is Some
        &&& self.kty.unwrap()@ == "RSA"@
        &&& self.kid is Some
        &&& self.n is Some
        &&& self.e is Some
    }

    /// The RSA key that a complete key stands for.
    pub open spec fn rsa_key(self) -> RsaKeyView {
        RsaKeyView { kid: self.kid.unwrap()@, n: self.n.unwrap()@, e: self.e.unwrap()@ }
    }
}

/// The complete RSA keys among `keys`, in the same order.
pub open spec fn rsa_keys_of(keys: Seq<Jwk>) -> Seq<RsaKeyView>
    decreases keys.len(),
{
    if keys.len() == 0 {
        Seq::empty()
    } else if keys.last().is_complete_rsa() {
        rsa_keys_of(keys.drop_last()).push(keys.last().rsa_key())
    } else {
        rsa_keys_of(keys.drop_last())
    }
}

/// The keys of a list, each as id, modulus and exponent.
pub open spec fn key_views(keys: Seq<RsaKey>) -> Seq<RsaKeyView> {
    Seq::new(keys.len(), |i: int| keys[i]@)
}

/// The position of the last key in `keys` whose id is `kid`.
pub open spec fn last_with_kid(keys: Seq<RsaKey>, kid: Seq<char>) -> Option<int>
    decreases keys.len(),
{
    if keys.len() == 0 {
        None
    } else if keys.last().kid@ == kid {
        Some(keys.len() - 1)
    } else {
        last_with_kid(keys.drop_last(), kid)
    }
}

/// Where the identity provider at `authserver` publishes its
/// configuration.
pub fn discovery_uri(authserver: &str) -> (uri: String)
    ensures
        uri@ == authserver@ + "/v2.0/.well-known/openid-configuration"@,
{
    String::from_str(authserver).concat("/v2.0/.well-known/openid-configuration")
}

/// Picks the keys that signatures can be checked with: the complete RSA
/// keys, in the order in which they are listed.
pub fn select_rsa_keys(keys: &Vec<Jwk>) -> (selected: Vec<RsaKey>)
    ensures
        key_views(selected@) == rsa_keys_of(keys@),
{
    let rsa = String::from_str("RSA");
    let mut selected: Vec<RsaKey> = Vec::new();
    let mut i: usize = 0;
    assert(keys@.subrange(0, 0) =~= Seq::<Jwk>::empty());
    assert(key_views(selected@) =~= rsa_keys_of(keys@.subrange(0, 0)));
    while i < keys.len()
        invariant
            i <= keys@.len(),
            rsa@ == "RSA"@,
            key_views(selected@) == rsa_keys_of(keys@.subrange(0, i as int)),
        decreases keys@.len() - i,
    {
        let jwk = &keys[i];
        let ghost before = selected@;
        assert(keys@.subrange(0, i + 1).drop_last() =~= keys@.subrange(0, i as int));
        assert(keys@.subrange(0, i + 1).last() == *jwk);
        match (&jwk.kty, &jwk.kid, &jwk.n, &jwk.e) {
            (Some(kty), Some(kid), Some(n), Some(e)) => {
                if *kty == rsa {
                    selected.push(RsaKey { kid: kid.clone(), n: n.clone(), e: e.clone() });
                    assert(key_views(selected@) =~= key_views(before).push(jwk.rsa_key()));
                }
            },
            _ => {},
        }
        i = i + 1;
    }
    assert(keys@.subrange(0, i as int) =~= keys@);
    selected
}

impl OidConf {
    /// The key that tokens naming `kid` are signed with: the last key
    /// listed under that id, or `None` if there is none.
    pub fn key_for(&self, kid: &String) -> (key: Option<&RsaKey>)
        ensures
            match key {
                Some(found) => last_with_kid(self.jwks@, kid@) is Some && *found
                    == self.jwks@[last_with_kid(self.jwks@, kid@).unwrap()],
                None => last_with_kid(self.jwks@, kid@) is None,
            },
    {
        let mut i: usize = self.jwks.len();
        assert(self.jwks@.subrange(0, i as int) =~= self.jwks@);
        while i > 0
            invariant
                i <= self.jwks@.len(),
                last_with_kid(self.jwks@, kid@) == last_with_kid(
                    self.jwks@.subrange(0, i as int),
                    kid@,
                ),
            decreases i,
        {
            let ghost upto = self.jwks@.subrange(0, i as int);
            assert(upto.last() == self.jwks@[i - 1]);
            assert(upto.drop_last() =~= self.jwks@.subrange(0, i - 1));
            if self.jwks[i - 1].kid == *kid {
                return Some(&self.jwks[i - 1]);
            }
            i = i - 1;
        }
        None
    }
}

} // verus!
