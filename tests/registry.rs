use base64::Engine;
use entra_id_backend::error::EntraIdError;
use entra_id_backend::registry::TenantRegistry;
use entra_id_backend::types::{Tenant, TenantId, UnverifiedClaims};

fn tenant(id: &str, audience: &str) -> Tenant {
    Tenant {
        id: TenantId(id.to_string()),
        uri: url::Url::parse("https://login.example/keys").unwrap(),
        issuer: format!("https://issuer.example/{}/v2.0", id),
        audience: audience.to_string(),
    }
}

#[test]
fn later_duplicate_wins() {
    let r = TenantRegistry::from_tenants(vec![
        tenant("T1", "api://first"),
        tenant("T2", "api://T2"),
        tenant("T1", "api://second"),
    ]);
    assert_eq!(r.get(&TenantId("T1".to_string())).unwrap().audience, "api://second");
    assert_eq!(r.get(&TenantId("T2".to_string())).unwrap().audience, "api://T2");
    assert!(r.get(&TenantId("T3".to_string())).is_none());
    let mut ids: Vec<String> = r.tenant_ids().into_iter().map(|t| t.0).collect();
    ids.sort();
    assert_eq!(ids, vec!["T1".to_string(), "T2".to_string()]);
}

#[test]
fn resolve_finds_registered_tenant() {
    let r = TenantRegistry::from_tenants(vec![tenant("T1", "api://T1")]);
    let c = UnverifiedClaims { iss: "https://issuer.example/T1/v2.0".to_string(), tid: None };
    assert_eq!(r.resolve_tenant(&c).unwrap().id.0, "T1");
    let c = UnverifiedClaims { iss: "https://issuer.example/T1/v2.0".to_string(), tid: Some("T1".to_string()) };
    assert_eq!(r.resolve_tenant(&c).unwrap().audience, "api://T1");
}

#[test]
fn resolve_refuses_unknown_tenant() {
    let r = TenantRegistry::from_tenants(vec![tenant("T1", "api://T1")]);
    let c = UnverifiedClaims { iss: "https://issuer.example/T7/v2.0".to_string(), tid: None };
    match r.resolve_tenant(&c) {
        Err(EntraIdError::TenantNotFound(t)) => assert_eq!(t.0, "T7"),
        _ => panic!("expected an unknown tenant"),
    }
    let c = UnverifiedClaims { iss: "https://login.example/organizations/v2.0".to_string(), tid: None };
    assert!(matches!(r.resolve_tenant(&c), Err(EntraIdError::DisallowedIssuerTenant(_))));
}

fn token(header: &str, payload: &str) -> String {
    let e = |s: &str| base64::engine::general_purpose::URL_SAFE_NO_PAD.encode(s.as_bytes());
    format!("{}.{}.c2ln", e(header), e(payload))
}

fn claims(iss: &str, tid: Option<&str>) -> Result<UnverifiedClaims, serde_json::Error> {
    Ok(UnverifiedClaims { iss: iss.to_string(), tid: tid.map(|t| t.to_string()) })
}

#[test]
fn route_token_finds_tenant_and_kid() {
    let r = TenantRegistry::from_tenants(vec![tenant("T1", "api://T1")]);
    let t = token(r#"{"alg":"RS256","kid":"k1"}"#, "{}");
    let (tenant, kid) = r.route_token(&t, claims("https://issuer.example/T1/v2.0", None)).unwrap();
    assert_eq!(tenant.id.0, "T1");
    assert_eq!(kid.0, "k1");
}

#[test]
fn route_token_refuses_before_lookup() {
    let r = TenantRegistry::from_tenants(vec![tenant("T1", "api://T1")]);
    let bad_alg = token(r#"{"alg":"HS256","kid":"k1"}"#, "{}");
    assert!(matches!(
        r.route_token(&bad_alg, claims("https://issuer.example/T1/v2.0", None)),
        Err(EntraIdError::UnsupportedTokenAlgorithm(_))
    ));
    let t = token(r#"{"alg":"RS256","kid":"k1"}"#, "{}");
    assert!(matches!(
        r.route_token(&t, claims("https://login.example/common/v2.0", None)),
        Err(EntraIdError::DisallowedIssuerTenant(_))
    ));
    let parse_error = serde_json::from_slice::<serde_json::Value>(b"{").unwrap_err();
    assert!(matches!(r.route_token(&t, Err(parse_error)), Err(EntraIdError::TokenPayloadParseError(_))));
    match r.route_token(&t, claims("https://issuer.example/T5/v2.0", None)) {
        Err(EntraIdError::TenantNotFound(id)) => assert_eq!(id.0, "T5"),
        _ => panic!("expected an unknown tenant"),
    }
}
