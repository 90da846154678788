//! Collecting and checking the parameters of the verifier before anything is
//! fetched. Durations are in milliseconds.
use vstd::prelude::*;
use crate::error::EntraIdError;
use crate::retry::RetryConfig;
use crate::types::Tenant;

verus! {

/// The shortest period of the background refresh of all tenants: thirty
/// minutes, so that the identity provider is not hammered.
pub const MIN_BACKGROUND_JWKS_REFRESH_INTERVAL_MS: u64 = 1_800_000;

/// The checked parameters from which the verifier is started.
pub struct VerifierSettings {
    /// The tenants, at least one.
    pub tenants: Vec<Tenant>,
    /// How long a key that stopped being advertised stays cached.
    pub jwk_cache_ttl: u64,
    /// The period of the background refresh.
    pub refresh_jwks_interval: u64,
    /// The cooldown of one tenant after a successful refresh.
    pub refresh_tenant_jwks_interval: u64,
    /// The timeout for connecting to a key-set endpoint.
    pub entra_id_connection_timeout: u64,
    /// The timeout for a whole key-set request.
    pub entra_id_timeout: u64,
    pub retry_config: RetryConfig,
    /// Stops the background refresh.
    pub shutdown: tokio_util::sync::CancellationToken,
}

/// A parameter of the builder.
#[derive(Debug, Clone, Copy, PartialEq, Eq)]
pub enum BuilderField {
    Tenants,
    JwkCacheTtl,
    RefreshJwksInterval,
    RefreshTenantJwksInterval,
    ConnectionTimeout,
    Timeout,
    RetryConfig,
    Shutdown,
}

/// Collects the parameters of the verifier; each setter refuses a value out
/// of range.
pub struct EntraIdTokenVerifierBuilder {
    tenants: Option<Vec<Tenant>>,
    jwk_cache_ttl: Option<u64>,
    refresh_jwks_interval: Option<u64>,
    refresh_tenant_jwks_interval: Option<u64>,
    entra_id_connection_timeout: Option<u64>,
    entra_id_timeout: Option<u64>,
    retry_config: Option<RetryConfig>,
    shutdown: Option<tokio_util::sync::CancellationToken>,
}

impl Default for EntraIdTokenVerifierBuilder {
    fn default() -> (r: Self)
        ensures
            r.is_unset(),
    {
        EntraIdTokenVerifierBuilder {
            tenants: None,
            jwk_cache_ttl: None,
            refresh_jwks_interval: None,
            refresh_tenant_jwks_interval: None,
            entra_id_connection_timeout: None,
            entra_id_timeout: None,
            retry_config: None,
            shutdown: None,
        }
    }
}

impl EntraIdTokenVerifierBuilder {
    pub closed spec fn spec_tenants(&self) -> Option<Seq<Tenant>> {
        match self.tenants {
            Some(t) => Some(t@),
            None => None,
        }
    }

    pub closed spec fn spec_jwk_cache_ttl(&self) -> Option<u64> {
        self.jwk_cache_ttl
    }

    pub closed spec fn spec_refresh_jwks_interval(&self) -> Option<u64> {
        self.refresh_jwks_interval
    }

    pub closed spec fn spec_refresh_tenant_jwks_interval(&self) -> Option<u64> {
        self.refresh_tenant_jwks_interval
    }

    pub closed spec fn spec_entra_id_connection_timeout(&self) -> Option<u64> {
        self.entra_id_connection_timeout
    }

    pub closed spec fn spec_entra_id_timeout(&self) -> Option<u64> {
        self.entra_id_timeout
    }

    pub closed spec fn spec_retry_config(&self) -> Option<RetryConfig> {
        self.retry_config
    }

    pub closed spec fn spec_shutdown(&self) -> Option<tokio_util::sync::CancellationToken> {
        self.shutdown
    }

    /// No parameter is set.
    pub open spec fn is_unset(&self) -> bool {
        &&& self.spec_tenants() is None
        &&& self.spec_jwk_cache_ttl() is None
        &&& self.spec_refresh_jwks_interval() is None
        &&& self.spec_refresh_tenant_jwks_interval() is None
        &&& self.spec_entra_id_connection_timeout() is None
        &&& self.spec_entra_id_timeout() is None
        &&& self.spec_retry_config() is None
        &&& self.spec_shutdown() is None
    }

    /// The parameters of `b` other than `field` are those of `self`.
    pub open spec fn agrees_except(&self, b: &Self, field: BuilderField) -> bool {
        &&& field != BuilderField::Tenants ==> b.spec_tenants() == self.spec_tenants()
        &&& field != BuilderField::JwkCacheTtl ==> b.spec_jwk_cache_ttl() == self.spec_jwk_cache_ttl()
        &&& field != BuilderField::RefreshJwksInterval ==> b.spec_refresh_jwks_interval()
            == self.spec_refresh_jwks_interval()
        &&& field != BuilderField::RefreshTenantJwksInterval ==> b.spec_refresh_tenant_jwks_interval()
            == self.spec_refresh_tenant_jwks_interval()
        &&& field != BuilderField::ConnectionTimeout ==> b.spec_entra_id_connection_timeout()
            == self.spec_entra_id_connection_timeout()
        &&& field != BuilderField::Timeout ==> b.spec_entra_id_timeout() == self.spec_entra_id_timeout()
        &&& field != BuilderField::RetryConfig ==> b.spec_retry_config() == self.spec_retry_config()
        &&& field != BuilderField::Shutdown ==> b.spec_shutdown() == self.spec_shutdown()
    }

    /// Sets the tenants; the list must not be empty.
    pub fn tenants(self, tenants: Vec<Tenant>) -> (r: Result<Self, EntraIdError>)
        ensures
            r is Err <==> tenants@.len() == 0,
            r matches Err(e) ==> e is Initialize,
            r matches Ok(b) ==> b.spec_tenants() == Some(tenants@) && self.agrees_except(&b, BuilderField::Tenants),
    {
        if tenants.len() == 0 {
            return Err(EntraIdError::Initialize("Tenants list cannot be empty"));
        }
        Ok(EntraIdTokenVerifierBuilder { tenants: Some(tenants), ..self })
    }

    /// Sets how long a key that stopped being advertised stays cached; it
    /// must be positive.
    pub fn jwk_cache_ttl(self, ttl: u64) -> (r: Result<Self, EntraIdError>)
        ensures
            r is Err <==> ttl == 0,
            r matches Err(e) ==> e is Initialize,
            r matches Ok(b) ==> b.spec_jwk_cache_ttl() == Some(ttl) && self.agrees_except(&b, BuilderField::JwkCacheTtl),
    {
        if ttl == 0 {
            return Err(EntraIdError::Initialize("JWK cache TTL must be greater than zero"));
        }
        Ok(EntraIdTokenVerifierBuilder { jwk_cache_ttl: Some(ttl), ..self })
    }

    /// Sets the period of the background refresh; it must be at least thirty
    /// minutes.
    pub fn refresh_jwks_interval(self, interval: u64) -> (r: Result<Self, EntraIdError>)
        ensures
            r is Err <==> interval < MIN_BACKGROUND_JWKS_REFRESH_INTERVAL_MS,
            r matches Err(e) ==> e is Initialize,
            r matches Ok(b) ==> b.spec_refresh_jwks_interval() == Some(interval) && self.agrees_except(&b, BuilderField::RefreshJwksInterval),
    {
        if interval == 0 {
            return Err(EntraIdError::Initialize("Refresh JWKs interval must be greater than zero"));
        }
        if interval < MIN_BACKGROUND_JWKS_REFRESH_INTERVAL_MS {
            return Err(EntraIdError::Initialize("Refresh JWKs interval must be at least 30 minutes"));
        }
        Ok(EntraIdTokenVerifierBuilder { refresh_jwks_interval: Some(interval), ..self })
    }

    /// Sets the cooldown of one tenant after a successful refresh; it must be
    /// positive.
    pub fn refresh_tenant_jwks_interval(self, interval: u64) -> (r: Result<Self, EntraIdError>)
        ensures
            r is Err <==> interval == 0,
            r matches Err(e) ==> e is Initialize,
            r matches Ok(b) ==> b.spec_refresh_tenant_jwks_interval() == Some(interval) && self.agrees_except(&b, BuilderField::RefreshTenantJwksInterval),
    {
        if interval == 0 {
            return Err(EntraIdError::Initialize("Refresh tenant JWKs interval must be greater than zero"));
        }
        Ok(EntraIdTokenVerifierBuilder { refresh_tenant_jwks_interval: Some(interval), ..self })
    }

    /// Sets the timeout for connecting to a key-set endpoint; it must be
    /// positive.
    pub fn entra_id_connection_timeout(self, timeout: u64) -> (r: Result<Self, EntraIdError>)
        ensures
            r is Err <==> timeout == 0,
            r matches Err(e) ==> e is Initialize,
            r matches Ok(b) ==> b.spec_entra_id_connection_timeout() == Some(timeout) && self.agrees_except(&b, BuilderField::ConnectionTimeout),
    {
        if timeout == 0 {
            return Err(EntraIdError::Initialize("Entra ID connection timeout must be greater than zero"));
        }
        Ok(EntraIdTokenVerifierBuilder { entra_id_connection_timeout: Some(timeout), ..self })
    }

    /// Sets the timeout for a whole key-set request; it must be positive.
    pub fn entra_id_timeout(self, timeout: u64) -> (r: Result<Self, EntraIdError>)
        ensures
            r is Err <==> timeout == 0,
            r matches Err(e) ==> e is Initialize,
            r matches Ok(b) ==> b.spec_entra_id_timeout() == Some(timeout) && self.agrees_except(&b, BuilderField::Timeout),
    {
        if timeout == 0 {
            return Err(EntraIdError::Initialize("Entra ID timeout must be greater than zero"));
        }
        Ok(EntraIdTokenVerifierBuilder { entra_id_timeout: Some(timeout), ..self })
    }

    /// Sets how key-set requests are retried.
    pub fn retry_config(self, retry_config: RetryConfig) -> (r: Self)
        ensures
            r.spec_retry_config() == Some(retry_config),
            self.agrees_except(&r, BuilderField::RetryConfig),
    {
        EntraIdTokenVerifierBuilder { retry_config: Some(retry_config), ..self }
    }

    /// Sets the signal that stops the background refresh.
    pub fn shutdown(self, shutdown: tokio_util::sync::CancellationToken) -> (r: Self)
        ensures
            r.spec_shutdown() == Some(shutdown),
            self.agrees_except(&r, BuilderField::Shutdown),
    {
        EntraIdTokenVerifierBuilder { shutdown: Some(shutdown), ..self }
    }

    /// Every parameter is set.
    pub open spec fn is_complete(&self) -> bool {
        &&& self.spec_tenants() is Some
        &&& self.spec_jwk_cache_ttl() is Some
        &&& self.spec_refresh_jwks_interval() is Some
        &&& self.spec_refresh_tenant_jwks_interval() is Some
        &&& self.spec_entra_id_connection_timeout() is Some
        &&& self.spec_entra_id_timeout() is Some
        &&& self.spec_retry_config() is Some
        &&& self.spec_shutdown() is Some
    }

    /// Hands over the parameters, each of which must have been set.
    pub fn build(self) -> (r: Result<VerifierSettings, EntraIdError>)
        ensures
            r is Ok <==> self.is_complete(),
            r matches Err(e) ==> e is Initialize,
            r matches Ok(s) ==> {
                &&& Some(s.tenants@) == self.spec_tenants()
                &&& Some(s.jwk_cache_ttl) == self.spec_jwk_cache_ttl()
                &&& Some(s.refresh_jwks_interval) == self.spec_refresh_jwks_interval()
                &&& Some(s.refresh_tenant_jwks_interval) == self.spec_refresh_tenant_jwks_interval()
                &&& Some(s.entra_id_connection_timeout) == self.spec_entra_id_connection_timeout()
                &&& Some(s.entra_id_timeout) == self.spec_entra_id_timeout()
                &&& Some(s.retry_config) == self.spec_retry_config()
                &&& Some(s.shutdown) == self.spec_shutdown()
            },
    {
        let tenants = match self.tenants {
            Some(t) => t,
            None => {
                return Err(EntraIdError::Initialize("Tenants list is not set"));
            },
        };
        let jwk_cache_ttl = match self.jwk_cache_ttl {
            Some(v) => v,
            None => {
                return Err(EntraIdError::Initialize("JWK cache TTL is not set"));
            },
        };
        let refresh_jwks_interval = match self.refresh_jwks_interval {
            Some(v) => v,
            None => {
                return Err(EntraIdError::Initialize("Refresh JWKs interval is not set"));
            },
        };
        let refresh_tenant_jwks_interval = match self.refresh_tenant_jwks_interval {
            Some(v) => v,
            None => {
                return Err(EntraIdError::Initialize("Refresh tenant JWKs interval is not set"));
            },
        };
        let entra_id_connection_timeout = match self.entra_id_connection_timeout {
            Some(v) => v,
            None => {
                return Err(EntraIdError::Initialize("Entra ID connection timeout is not set"));
            },
        };
        let entra_id_timeout = match self.entra_id_timeout {
            Some(v) => v,
            None => {
                return Err(EntraIdError::Initialize("Entra ID timeout is not set"));
            },
        };
        let retry_config = match self.retry_config {
            Some(v) => v,
            None => {
                return Err(EntraIdError::Initialize("Retry config is not set"));
            },
        };
        let shutdown = match self.shutdown {
            Some(v) => v,
            None => {
                return Err(EntraIdError::Initialize("Shutdown token is not set"));
            },
        };
        Ok(VerifierSettings {
            tenants,
            jwk_cache_ttl,
            refresh_jwks_interval,
            refresh_tenant_jwks_interval,
            entra_id_connection_timeout,
            entra_id_timeout,
            retry_config,
            shutdown,
        })
    }
}

} // verus!
