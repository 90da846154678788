use base64::engine::general_purpose::URL_SAFE_NO_PAD;
use base64::Engine;
use entra_id_backend::cache::JwksCache;
use entra_id_backend::error::EntraIdError;
use entra_id_backend::refresh::{JwksCacheRefreshResult, RefreshCoordinator};
use entra_id_backend::registry::TenantRegistry;
use entra_id_backend::token::peek_token;
use entra_id_backend::types::{Claims, Jwk, Tenant, TenantId, UnverifiedClaims};

const N1: &str = "ssA2MRv0SlxCCmnbA2wS5kpxZhuFuhMEUyiwpW3SoMPB3di67MFYB96DJ8LVRv2obf4oIwJ31kyfP6TF34Lr2zuPBpWEmczXFNkbdJpzt0235SS6Fq3esV2E_-K12tbozIr8DdH5ebkezAMZ6qUZfTvEYdosd0UQDxROW3M1IJibVbCu_jaysD55ZP6Nk9QqvKbTUo-k5E_yVCRNu2s5pmqTV4KHPdCj0ZvBovfMG_l7oa8Zj6ZAlfAdNFoDc9ES85v_j6rlhbGNSci6Lw66B09J5JWnVZRM02dymrzJTUwmO_MNEqOWnzvyyxtKelKXEgBvQhQMhoZxjLcJ2xxVew";
const N2: &str = "zwqeGmez4S6w6PVgs6OfyVhPLgYQvzQBGwXc4DlRG1eKxTvQeeqmH4OXoigDY6p9YKtgPgOE2Y9xTjsGX8IWew8N1572uHtwQxwHDZmHSYQoyXxdgBYGi08YwL4V8tXxy0Rafa7jJCVELphHouTCS_dOUiQHbWnSUbu8-XvOOvqqOSyjveKbiX2RE-aE9RkfHEZekr8LlR902CNqUYRIM5f3MiHhkcUDRmdSJ2OkCywS34mXlb0IFRx0eGNT4RfOgPq8I7Rwv53ru6ZZO-wSIjUY_HYgHdV-4P6prHskPZOfTWx748lu3vmzrf569NKb9wbza1kYEmuQDKikLVd6tw";

const SIG_E1: &str = "USP7_afjd5WRKmuFQ5B0PnlvK6D4sNdwYUubECmexB45krPgA3jKClV1B8uGQeKa6FGp4IobvV2SufPpy_G1F54Yvwi044M0fuTwmLUGsq737znlPYF_REhDJ5lmhvovU8iZ2m8QXXXeojycVIs1o8jk85ljWK2ETRgRNdGJ-6m-vQfodZNIKmuPgxDt3_oT2zbzyhJqXKHWB3kEhmsjR8VgN9xO5YDVSlN6XKAtV_BScPZHqGCOkYx9VI6JdgjLTgVxxY6q4-jRAcl6Po4QlL69DLvNTLKdEDsaFK6GGD_ywf-IuOlzIpwydFrn-fpsII9YbR46v6qmGc70HImfAA";
const SIG_E2: &str = "GoeKah4EoqkxBBoeG5Sf-OgsV3st9Wy87YZ7Jq8IsBuSAv1Obxm6LC7Df67Ohz85ncgr4eAWDxw3JSbwhQqmOQpgUem2VVJnWXpKIYixrO3JYiI_f-xbIGGnO1KQvGdCLzpq6gQoNbKN6L1lThVEzKBsNfDMZLnmgX40S67By8yTFDvSmCsmHyilrxp4Hn3GJ_7lbnnvWzul7y3Ggdrt2JurYKfFIWd7G88e6uDex02lp-GU791aGOj2WcCIsz0lWzX2u5wlq5O21P5aqMaN55HnZpzvhwswh_TO2yDX_UFgtBlKMja5Madlv7I13ZbBHKp9VdsmMolZUctKN0jrWA";
const SIG_E3: &str = "tG8LU1yTrDNDdEFk05VouiogdesdMONDsNgYZWJ2ApKc2lo5aOix5Zr3TEKeowjBGoHRICNMs-GaI_G9OagnXFnfzyLFeGZiWdhgfoBNv8KmBwqbDFGoAGJ2E4ux455TEusOS_xPlwlo2-XFY5gGLU_FM4lkamOrQotVlpTx4_kXOoc_QE-f-seNJkpRjJuiDAu66AMR4RwN25AXkhNJ3iR4dIMjgnw00m9WHmLr5gBJjLMeINiUm6CCHsTxORAP6ef-2cg2X6BCOAMCkXWOTxqBxej3tnTp258F6ZYv4T7t6Tp740LDiaBbmlhXZyKGN9BxIb4Q4wrUItB-dzmaRA";

const PAYLOAD_T1: &str = r#"{"iss":"https://issuer.example/T1/v2.0","aud":"api://T1","exp":4102444800,"tid":"T1","oid":"o1","sub":"s1"}"#;
const PAYLOAD_OTHER: &str = r#"{"iss":"https://issuer.example/T1/v2.0","aud":"api://OTHER","exp":4102444800,"tid":"T1","oid":"o1","sub":"s1"}"#;
const PAYLOAD_COMMON: &str = r#"{"iss":"https://login.example/common/v2.0","aud":"api://T1","exp":4102444800,"oid":"o1","sub":"s1"}"#;

fn token(kid: &str, payload: &str, signature: &str) -> String {
    let header = format!(r#"{{"alg":"RS256","kid":"{}","typ":"JWT"}}"#, kid);
    format!(
        "{}.{}.{}",
        URL_SAFE_NO_PAD.encode(header.as_bytes()),
        URL_SAFE_NO_PAD.encode(payload.as_bytes()),
        signature
    )
}

fn rsa_jwk(kid: &str, n: &str) -> Jwk {
    Jwk {
        kid: kid.to_string(),
        kty: "RSA".to_string(),
        n: n.to_string(),
        e: "AQAB".to_string(),
        alg: Some("RS256".to_string()),
        use_: Some("sig".to_string()),
    }
}

fn text(v: &serde_json::Value, field: &str) -> Option<String> {
    v.get(field).and_then(|x| x.as_str()).map(|x| x.to_string())
}

/// The verifier's steps, run in one thread: `fetch` stands for the key-set
/// endpoint and counts as one network request per call.
struct Fixture {
    registry: TenantRegistry,
    cache: JwksCache,
    coordinator: RefreshCoordinator,
    upstream: Vec<Jwk>,
    fetches: u32,
}

impl Fixture {
    fn new(upstream: Vec<Jwk>, cooldown_ms: u64) -> Fixture {
        let registry = TenantRegistry::from_tenants(vec![Tenant {
            id: TenantId("T1".to_string()),
            uri: url::Url::parse("https://login.example/T1/discovery/v2.0/keys").unwrap(),
            issuer: "https://issuer.example/T1/v2.0".to_string(),
            audience: "api://T1".to_string(),
        }]);
        let mut f = Fixture {
            registry,
            cache: JwksCache::new(86_400_000),
            coordinator: RefreshCoordinator::new(cooldown_ms),
            upstream,
            fetches: 0,
        };
        for id in f.registry.tenant_ids() {
            let keys = f.fetch();
            f.cache.install(&id, keys, 0);
        }
        f
    }

    fn fetch(&mut self) -> Vec<Jwk> {
        self.fetches += 1;
        self.upstream.clone()
    }

    fn verify(&mut self, token: &str, now: u64) -> Result<Claims, EntraIdError> {
        let peeked = peek_token(token)?;
        let parsed = serde_json::from_slice::<serde_json::Value>(&peeked.payload).map(|value| {
            UnverifiedClaims { iss: text(&value, "iss").unwrap_or_default(), tid: text(&value, "tid") }
        });
        let (tenant, kid) = self.registry.route_token(token, parsed)?;
        let tenant = tenant.clone();
        let key = match self.cache.find_decoding_key(&tenant.id, &kid) {
            Some(k) => k,
            None => {
                if self.coordinator.begin_refresh(&tenant.id, now)
                    == JwksCacheRefreshResult::GrantedRefreshPermission
                {
                    let keys = self.fetch();
                    self.cache.merge(&tenant.id, keys, now);
                    self.coordinator.finish_refresh(&tenant.id, true, now);
                }
                self.cache.decoding_key_or_error(&tenant.id, &kid)?
            }
        };
        let mut validation = jsonwebtoken::Validation::new(jsonwebtoken::Algorithm::RS256);
        validation.set_audience(&[&tenant.audience]);
        validation.set_issuer(&[&tenant.issuer]);
        let data = jsonwebtoken::decode::<serde_json::Value>(token, &key, &validation)
            .map_err(EntraIdError::VerifyTokenError)?;
        let c = data.claims;
        Ok(Claims {
            aud: text(&c, "aud").unwrap(),
            iss: text(&c, "iss").unwrap(),
            exp: c.get("exp").and_then(|x| x.as_u64()).unwrap() as usize,
            oid: text(&c, "oid").unwrap(),
            sub: text(&c, "sub").unwrap(),
            roles: None,
        })
    }
}

#[test]
fn happy_path() {
    let mut f = Fixture::new(vec![rsa_jwk("k1", N1)], 60_000);
    let claims = f.verify(&token("k1", PAYLOAD_T1, SIG_E1), 1_000).unwrap();
    assert_eq!(claims.aud, "api://T1");
    assert_eq!(claims.iss, "https://issuer.example/T1/v2.0");
    assert_eq!(claims.exp, 4102444800);
    assert_eq!(claims.oid, "o1");
    assert_eq!(claims.sub, "s1");
    assert!(claims.roles.is_none());
    assert_eq!(f.fetches, 1);
}

#[test]
fn wrong_audience() {
    let mut f = Fixture::new(vec![rsa_jwk("k1", N1)], 60_000);
    let r = f.verify(&token("k1", PAYLOAD_OTHER, SIG_E2), 1_000);
    assert!(matches!(r, Err(EntraIdError::VerifyTokenError(_))));
}

#[test]
fn tampered_signature_fails() {
    let mut f = Fixture::new(vec![rsa_jwk("k1", N1)], 60_000);
    let r = f.verify(&token("k1", PAYLOAD_T1, SIG_E2), 1_000);
    assert!(matches!(r, Err(EntraIdError::VerifyTokenError(_))));
}

#[test]
fn unknown_kid_then_refresh() {
    let mut f = Fixture::new(vec![rsa_jwk("k1", N1)], 60_000);
    f.upstream = vec![rsa_jwk("k1", N1), rsa_jwk("k2", N2)];
    let claims = f.verify(&token("k2", PAYLOAD_T1, SIG_E3), 1_000).unwrap();
    assert_eq!(claims.sub, "s1");
    assert_eq!(f.fetches, 2);
}

#[test]
fn common_issuer_refused_without_fetch() {
    let mut f = Fixture::new(vec![rsa_jwk("k1", N1)], 60_000);
    let r = f.verify(&token("k1", PAYLOAD_COMMON, "c2ln"), 1_000);
    assert!(matches!(
        r,
        Err(EntraIdError::DisallowedIssuerTenant(entra_id_backend::types::IssuerTenant::Common))
    ));
    assert_eq!(f.fetches, 1);
}

#[test]
fn other_algorithm_refused_without_fetch() {
    let mut f = Fixture::new(vec![rsa_jwk("k1", N1)], 60_000);
    let header = URL_SAFE_NO_PAD.encode(br#"{"alg":"HS256","kid":"k1","typ":"JWT"}"#);
    let t = format!("{}.{}.c2ln", header, URL_SAFE_NO_PAD.encode(PAYLOAD_T1.as_bytes()));
    assert!(matches!(f.verify(&t, 1_000), Err(EntraIdError::UnsupportedTokenAlgorithm(_))));
    assert_eq!(f.fetches, 1);
}

#[test]
fn cooldown_between_unknown_kids() {
    let mut f = Fixture::new(vec![rsa_jwk("k1", N1)], 60_000);
    let t = token("k9", PAYLOAD_T1, SIG_E1);
    assert!(matches!(f.verify(&t, 10_000), Err(EntraIdError::DecodingKeyNotFound(_, _))));
    assert_eq!(f.fetches, 2);
    assert!(matches!(f.verify(&t, 11_000), Err(EntraIdError::DecodingKeyNotFound(_, _))));
    assert_eq!(f.fetches, 2);
}
