use entra_id_backend::error::{EntraIdError, FetchFailure, FetchFailureKind};
use entra_id_backend::types::{IssuerTenant, Kid, TenantId};

#[test]
fn status_codes() {
    let url = url::Url::parse("https://login.example/keys").unwrap();
    let fetch = FetchFailure { kind: FetchFailureKind::Timeout, message: "timed out".to_string() };
    assert_eq!(EntraIdError::JwksFetchError(fetch, url.clone()).status_code(), 502);
    assert_eq!(EntraIdError::JwksResponseParseError(url, "bad".to_string()).status_code(), 502);
    assert_eq!(EntraIdError::TenantNotFound(TenantId("T".to_string())).status_code(), 401);
    assert_eq!(
        EntraIdError::DecodingKeyNotFound(TenantId("T".to_string()), Kid("k".to_string())).status_code(),
        401
    );
    assert_eq!(EntraIdError::TokenHeaderMissingKid.status_code(), 400);
    assert_eq!(EntraIdError::InvalidTokenFormat.status_code(), 400);
    assert_eq!(EntraIdError::DisallowedIssuerTenant(IssuerTenant::Common).status_code(), 400);
    assert_eq!(EntraIdError::Initialize("x").status_code(), 500);
}
