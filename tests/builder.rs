use entra_id_backend::builder::{EntraIdTokenVerifierBuilder, MIN_BACKGROUND_JWKS_REFRESH_INTERVAL_MS};
use entra_id_backend::error::EntraIdError;
use entra_id_backend::retry::RetryConfig;
use entra_id_backend::types::{Tenant, TenantId};
use tokio_util::sync::CancellationToken;

fn tenant(id: &str) -> Tenant {
    Tenant {
        id: TenantId(id.to_string()),
        uri: url::Url::parse("https://login.example/keys").unwrap(),
        issuer: format!("https://issuer.example/{}/v2.0", id),
        audience: format!("api://{}", id),
    }
}

#[test]
fn setters_reject_out_of_range_values() {
    let b = EntraIdTokenVerifierBuilder::default();
    assert!(matches!(b.tenants(vec![]), Err(EntraIdError::Initialize(_))));
    let b = EntraIdTokenVerifierBuilder::default();
    assert!(matches!(b.jwk_cache_ttl(0), Err(EntraIdError::Initialize(_))));
    let b = EntraIdTokenVerifierBuilder::default();
    assert!(matches!(b.refresh_jwks_interval(0), Err(EntraIdError::Initialize(_))));
    let b = EntraIdTokenVerifierBuilder::default();
    assert!(matches!(
        b.refresh_jwks_interval(MIN_BACKGROUND_JWKS_REFRESH_INTERVAL_MS - 1),
        Err(EntraIdError::Initialize(_))
    ));
    let b = EntraIdTokenVerifierBuilder::default();
    assert!(b.refresh_jwks_interval(MIN_BACKGROUND_JWKS_REFRESH_INTERVAL_MS).is_ok());
    let b = EntraIdTokenVerifierBuilder::default();
    assert!(matches!(b.refresh_tenant_jwks_interval(0), Err(EntraIdError::Initialize(_))));
    let b = EntraIdTokenVerifierBuilder::default();
    assert!(matches!(b.entra_id_connection_timeout(0), Err(EntraIdError::Initialize(_))));
    let b = EntraIdTokenVerifierBuilder::default();
    assert!(matches!(b.entra_id_timeout(0), Err(EntraIdError::Initialize(_))));
}

#[test]
fn build_needs_every_parameter() {
    assert!(matches!(EntraIdTokenVerifierBuilder::default().build(), Err(EntraIdError::Initialize(_))));
    let partial = EntraIdTokenVerifierBuilder::default()
        .tenants(vec![tenant("T1")])
        .unwrap()
        .jwk_cache_ttl(3_600_000)
        .unwrap();
    assert!(matches!(partial.build(), Err(EntraIdError::Initialize(_))));
}

#[test]
fn build_hands_over_the_parameters() {
    let retry = RetryConfig::new(4, 500, 2000, 800, 1200, 10_000).unwrap();
    let settings = EntraIdTokenVerifierBuilder::default()
        .tenants(vec![tenant("T1"), tenant("T2")])
        .unwrap()
        .jwk_cache_ttl(86_400_000)
        .unwrap()
        .refresh_jwks_interval(3_600_000)
        .unwrap()
        .refresh_tenant_jwks_interval(60_000)
        .unwrap()
        .entra_id_connection_timeout(5_000)
        .unwrap()
        .entra_id_timeout(10_000)
        .unwrap()
        .retry_config(retry)
        .shutdown(CancellationToken::new())
        .build()
        .unwrap();
    assert_eq!(settings.tenants.len(), 2);
    assert_eq!(settings.jwk_cache_ttl, 86_400_000);
    assert_eq!(settings.refresh_jwks_interval, 3_600_000);
    assert_eq!(settings.refresh_tenant_jwks_interval, 60_000);
    assert_eq!(settings.entra_id_connection_timeout, 5_000);
    assert_eq!(settings.entra_id_timeout, 10_000);
    assert_eq!(settings.retry_config.max_attempts(), 4);
    assert!(!settings.shutdown.is_cancelled());
}
