//! The data model: tenants, keys and claims.
use vstd::prelude::*;

verus! {

/// The identifier of a tenant (an identity-provider realm).
#[derive(Debug, Clone, PartialEq, Eq, Hash)]
pub struct TenantId(pub String);

impl View for TenantId {
    type V = Seq<char>;

    open spec fn view(&self) -> Seq<char> {
        self.0@
    }
}

/// The identifier of a signing key (`kid`).
#[derive(Debug, Clone, PartialEq, Eq, Hash)]
pub struct Kid(pub String);

impl View for Kid {
    type V = Seq<char>;

    open spec fn view(&self) -> Seq<char> {
        self.0@
    }
}

/// A tenant: where its key set is published and what its tokens must say.
#[derive(Clone)]
pub struct Tenant {
    pub id: TenantId,
    /// Where the tenant's key set is fetched from.
    pub uri: url::Url,
    /// The exact `iss` that the tenant's tokens carry.
    pub issuer: String,
    /// The exact `aud` that the tenant's tokens carry.
    pub audience: String,
}

/// A JSON Web Key as the identity provider publishes it.
#[derive(Debug, Clone)]
pub struct Jwk {
    pub kid: String,
    pub kty: String,
    /// RSA modulus, base64url without padding.
    pub n: String,
    /// RSA exponent, base64url without padding.
    pub e: String,
    pub alg: Option<String>,
    pub use_: Option<String>,
}

/// A cached key and the last instant (in milliseconds of a monotonic clock)
/// at which the identity provider advertised it.
#[derive(Debug, Clone)]
pub struct CachedJwk {
    pub jwk: Jwk,
    pub last_seen_at: u64,
}

/// The claims of a token whose signature, issuer, audience and expiry were
/// checked.
#[derive(Debug, Clone)]
pub struct Claims {
    pub aud: String,
    pub iss: String,
    pub exp: usize,
    pub oid: String,
    pub sub: String,
    pub roles: Option<Vec<String>>,
}

/// The two payload fields that are read before the signature is checked,
/// only to find the tenant and its key.
#[derive(Debug, Clone)]
pub struct UnverifiedClaims {
    pub iss: String,
    pub tid: Option<String>,
}

/// Whom an issuer names: one tenant, or one of the multi-tenant endpoints
/// that this verifier refuses.
#[derive(Debug, Clone, PartialEq, Eq)]
pub enum IssuerTenant {
    Tenant(TenantId),
    Organizations,
    Common,
}

} // verus!
