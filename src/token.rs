//! Reading an untrusted token: its header, its payload, and the tenant that
//! its issuer names. Nothing here trusts the token; the signature is checked
//! later, with the key that these steps locate.
use vstd::prelude::*;
use vstd::string::*;
use base64::Engine as _;
use crate::error::{EntraIdError, HeaderDecodeFailure};
use crate::types::{IssuerTenant, Kid, TenantId, UnverifiedClaims};

verus! {

/// The byte that separates the segments of a compact token.
pub const DOT: u8 = 46;

/// The number of dot-separated segments of a compact token.
pub const JWT_PARTS_COUNT: usize = 3;

/// Why a token was refused, without the details that an error carries.
#[derive(Debug, Clone, Copy, PartialEq, Eq)]
pub enum TokenFault {
    HeaderDecode,
    UnsupportedAlgorithm,
    MissingKid,
    InvalidFormat,
    PayloadDecode,
    PayloadParse,
    MissingIssuer,
    InvalidIssuerFormat,
    DisallowedCommon,
    DisallowedOrganizations,
    TenantNotFound,
    DecodingKeyNotFound,
    VerifyToken,
    /// An error that is not about the token.
    NotATokenFault,
}

impl EntraIdError {
    /// The reason for refusing a token that this error stands for.
    pub open spec fn fault(&self) -> TokenFault {
        match self {
            EntraIdError::TokenHeaderDecodeError(..) => TokenFault::HeaderDecode,
            EntraIdError::UnsupportedTokenAlgorithm(..) => TokenFault::UnsupportedAlgorithm,
            EntraIdError::TokenHeaderMissingKid => TokenFault::MissingKid,
            EntraIdError::InvalidTokenFormat => TokenFault::InvalidFormat,
            EntraIdError::TokenPayloadDecodeError(..) => TokenFault::PayloadDecode,
            EntraIdError::TokenPayloadParseError(..) => TokenFault::PayloadParse,
            EntraIdError::TokenMissingIssuer(..) => TokenFault::MissingIssuer,
            EntraIdError::InvalidIssuerFormat(..) => TokenFault::InvalidIssuerFormat,
            EntraIdError::DisallowedIssuerTenant(IssuerTenant::Common) => TokenFault::DisallowedCommon,
            EntraIdError::DisallowedIssuerTenant(IssuerTenant::Organizations) => {
                TokenFault::DisallowedOrganizations
            },
            EntraIdError::TenantNotFound(..) => TokenFault::TenantNotFound,
            EntraIdError::DecodingKeyNotFound(..) => TokenFault::DecodingKeyNotFound,
            EntraIdError::VerifyTokenError(..) => TokenFault::VerifyToken,
            _ => TokenFault::NotATokenFault,
        }
    }
}

pub open spec fn opt_view(o: Option<String>) -> Option<Seq<char>> {
    match o {
        Some(s) => Some(s@),
        None => None,
    }
}

/// The text under `field` in the JSON object written in `doc`: `None` when
/// `doc` is not a JSON object, `Some(None)` when the field is absent or not a
/// string.
pub uninterp spec fn json_text_field(doc: Seq<u8>, field: Seq<char>) -> Option<Option<Seq<char>>>;

/// What base64url decoding without padding makes of some bytes; `None` when
/// they are not such an encoding.
pub uninterp spec fn b64url_decoded(input: Seq<u8>) -> Option<Seq<u8>>;

/// The path of the absolute URL written in `input`, as `url::Url::parse` and
/// `Url::path` give it; `None` when `input` is not an absolute URL.
pub uninterp spec fn url_path_of(input: Seq<char>) -> Option<Seq<char>>;

/// Relies on `serde_json::from_slice` into a JSON object (`serde_json::Map`)
/// and the object's `get`: the text under `field`, when it is a string; what
/// comes out depends on the bytes and the field name alone.
#[verifier::external_body]
fn read_json_text_field(doc: &[u8], field: &str) -> (r: Result<Option<String>, serde_json::Error>)
    ensures
        match r {
            Ok(v) => json_text_field(doc@, field@) == Some(opt_view(v)),
            Err(_) => json_text_field(doc@, field@) is None,
        },
{
    let object: serde_json::Map<String, serde_json::Value> = serde_json::from_slice(doc)?;
    Ok(
        match object.get(field) {
            Some(serde_json::Value::String(text)) => Some(text.clone()),
            _ => None,
        },
    )
}

/// Relies on base64's `URL_SAFE_NO_PAD` engine (`Engine::decode`): what comes
/// out depends on the input bytes alone.
#[verifier::external_body]
pub(crate) fn decode_b64url(input: &[u8]) -> (r: Result<Vec<u8>, base64::DecodeError>)
    ensures
        match r {
            Ok(v) => b64url_decoded(input@) == Some(v@),
            Err(_) => b64url_decoded(input@) is None,
        },
{
    base64::engine::general_purpose::URL_SAFE_NO_PAD.decode(input)
}

/// Relies on `url::Url::parse` and `Url::path` of the parsed URL: what comes
/// out depends on the input alone.
#[verifier::external_body]
fn parse_url_path(input: &str) -> (r: Result<String, url::ParseError>)
    ensures
        match r {
            Ok(p) => url_path_of(input@) == Some(p@),
            Err(_) => url_path_of(input@) is None,
        },
{
    url::Url::parse(input).map(|u| u.path().to_string())
}

/// The dot-separated segments of a token; there is always at least one.
pub open spec fn segments(t: Seq<u8>) -> Seq<Seq<u8>>
    decreases t.len(),
{
    if t.len() == 0 {
        seq![Seq::empty()]
    } else {
        let p = segments(t.drop_last());
        if t.last() == DOT {
            p.push(Seq::empty())
        } else {
            p.update(p.len() - 1, p.last().push(t.last()))
        }
    }
}

pub proof fn lemma_segments_nonempty(t: Seq<u8>)
    ensures
        segments(t).len() >= 1,
    decreases t.len(),
{
    if t.len() > 0 {
        lemma_segments_nonempty(t.drop_last());
    }
}

/// Splits a token at every dot.
pub fn split_segments(t: &[u8]) -> (r: Vec<Vec<u8>>)
    ensures
        r@.len() == segments(t@).len(),
        forall|i: int| 0 <= i < r@.len() ==> (#[trigger] r@[i])@ == segments(t@)[i],
{
    let mut parts: Vec<Vec<u8>> = Vec::new();
    let mut cur: Vec<u8> = Vec::new();
    let mut i: usize = 0;
    assert(t@.subrange(0, 0) =~= Seq::<u8>::empty());
    while i < t.len()
        invariant
            i <= t@.len(),
            parts@.len() + 1 == segments(t@.subrange(0, i as int)).len(),
            forall|j: int| 0 <= j < parts@.len() ==> (#[trigger] parts@[j])@ == segments(t@.subrange(0, i as int))[j],
            cur@ == segments(t@.subrange(0, i as int)).last(),
        decreases t@.len() - i,
    {
        let ghost before = t@.subrange(0, i as int);
        let ghost after = t@.subrange(0, i + 1);
        assert(after.drop_last() =~= before);
        assert(after.last() == t@[i as int]);
        proof {
            lemma_segments_nonempty(before);
        }
        let b = t[i];
        if b == DOT {
            parts.push(cur);
            cur = Vec::new();
        } else {
            cur.push(b);
        }
        i = i + 1;
    }
    assert(t@.subrange(0, t@.len() as int) =~= t@);
    parts.push(cur);
    parts
}

/// What the untrusted part of a token locates: the key id in its header and
/// the decoded bytes of its payload.
pub struct UnverifiedToken {
    pub kid: Kid,
    pub payload: Vec<u8>,
}

/// The outcome of reading a token's header and payload segment, in the order
/// in which they are checked.
pub open spec fn peek_outcome(t: Seq<u8>) -> Result<(Seq<char>, Seq<u8>), TokenFault> {
    if segments(t).len() != JWT_PARTS_COUNT {
        Err(TokenFault::InvalidFormat)
    } else {
        match b64url_decoded(segments(t)[0]) {
            None => Err(TokenFault::HeaderDecode),
            Some(h) => match json_text_field(h, "alg"@) {
                None => Err(TokenFault::HeaderDecode),
                Some(None) => Err(TokenFault::HeaderDecode),
                Some(Some(alg)) => if alg != "RS256"@ {
                    Err(TokenFault::UnsupportedAlgorithm)
                } else {
                    match json_text_field(h, "kid"@) {
                        None => Err(TokenFault::HeaderDecode),
                        Some(None) => Err(TokenFault::MissingKid),
                        Some(Some(k)) => match payload_outcome(t) {
                            Ok(p) => Ok((k, p)),
                            Err(f) => Err(f),
                        },
                    }
                },
            },
        }
    }
}

/// The outcome of decoding a token's payload segment.
pub open spec fn payload_outcome(t: Seq<u8>) -> Result<Seq<u8>, TokenFault> {
    if segments(t).len() != JWT_PARTS_COUNT {
        Err(TokenFault::InvalidFormat)
    } else {
        match b64url_decoded(segments(t)[1]) {
            None => Err(TokenFault::PayloadDecode),
            Some(p) => Ok(p),
        }
    }
}

/// Decodes the payload segment of a token, which must have three segments.
pub fn extract_payload(token: &str) -> (r: Result<Vec<u8>, EntraIdError>)
    ensures
        match r {
            Ok(p) => payload_outcome(token.spec_bytes()) == Ok::<Seq<u8>, TokenFault>(p@),
            Err(e) => payload_outcome(token.spec_bytes()) == Err::<Seq<u8>, TokenFault>(e.fault()),
        },
{
    let bytes = token.as_bytes();
    let parts = split_segments(bytes);
    if parts.len() != JWT_PARTS_COUNT {
        return Err(EntraIdError::InvalidTokenFormat);
    }
    match decode_b64url(parts[1].as_slice()) {
        Ok(p) => Ok(p),
        Err(e) => Err(EntraIdError::TokenPayloadDecodeError(e)),
    }
}

/// Reads the header of an untrusted token, requires RS256 and a `kid`, and
/// decodes its payload segment.
pub fn peek_token(token: &str) -> (r: Result<UnverifiedToken, EntraIdError>)
    ensures
        match r {
            Ok(u) => peek_outcome(token.spec_bytes()) == Ok::<(Seq<char>, Seq<u8>), TokenFault>(
                (u.kid@, u.payload@),
            ),
            Err(e) => peek_outcome(token.spec_bytes()) == Err::<(Seq<char>, Seq<u8>), TokenFault>(
                e.fault(),
            ),
        },
{
    let parts = split_segments(token.as_bytes());
    if parts.len() != JWT_PARTS_COUNT {
        return Err(EntraIdError::InvalidTokenFormat);
    }
    let header = match decode_b64url(parts[0].as_slice()) {
        Ok(h) => h,
        Err(e) => {
            return Err(EntraIdError::TokenHeaderDecodeError(HeaderDecodeFailure::Base64(e)));
        },
    };
    let alg = match read_json_text_field(header.as_slice(), "alg") {
        Ok(Some(a)) => a,
        Ok(None) => {
            return Err(EntraIdError::TokenHeaderDecodeError(HeaderDecodeFailure::MissingAlgorithm));
        },
        Err(e) => {
            return Err(EntraIdError::TokenHeaderDecodeError(HeaderDecodeFailure::Json(e)));
        },
    };
    let rs256 = "RS256".to_owned();
    if alg != rs256 {
        return Err(EntraIdError::UnsupportedTokenAlgorithm(alg));
    }
    let kid = match read_json_text_field(header.as_slice(), "kid") {
        Ok(Some(k)) => k,
        Ok(None) => {
            return Err(EntraIdError::TokenHeaderMissingKid);
        },
        Err(e) => {
            return Err(EntraIdError::TokenHeaderDecodeError(HeaderDecodeFailure::Json(e)));
        },
    };
    let payload = match decode_b64url(parts[1].as_slice()) {
        Ok(p) => p,
        Err(e) => {
            return Err(EntraIdError::TokenPayloadDecodeError(e));
        },
    };
    Ok(UnverifiedToken { kid: Kid(kid), payload })
}

/// The text of `s` before its first slash (all of it when there is none).
pub open spec fn first_segment(s: Seq<char>) -> Seq<char>
    decreases s.len(),
{
    if s.len() == 0 || s[0] == '/' {
        Seq::empty()
    } else {
        seq![s[0]] + first_segment(s.drop_first())
    }
}

/// The first segment of a URL path, which must start with a slash.
pub open spec fn path_tenant_segment(path: Seq<char>) -> Option<Seq<char>> {
    if path.len() > 0 && path[0] == '/' {
        Some(first_segment(path.drop_first()))
    } else {
        None
    }
}

/// The tenant that an issuer URL names by the first segment of its path.
pub open spec fn issuer_outcome(iss: Seq<char>) -> Result<Seq<char>, TokenFault> {
    match url_path_of(iss) {
        None => Err(TokenFault::MissingIssuer),
        Some(path) => match path_tenant_segment(path) {
            None => Err(TokenFault::InvalidIssuerFormat),
            Some(seg) => if seg == "common"@ {
                Err(TokenFault::DisallowedCommon)
            } else if seg == "organizations"@ {
                Err(TokenFault::DisallowedOrganizations)
            } else {
                Ok(seg)
            },
        },
    }
}

/// The tenant that unverified claims name: `tid` when present, else the
/// tenant segment of `iss`.
pub open spec fn route_outcome(iss: Seq<char>, tid: Option<Seq<char>>) -> Result<
    Seq<char>,
    TokenFault,
> {
    match tid {
        Some(t) => Ok(t),
        None => issuer_outcome(iss),
    }
}

proof fn lemma_first_segment(s: Seq<char>, j: int)
    requires
        0 <= j <= s.len(),
        forall|k: int| 0 <= k < j ==> s[k] != '/',
        j == s.len() || s[j] == '/',
    ensures
        first_segment(s) == s.subrange(0, j),
    decreases s.len(),
{
    if s.len() == 0 || s[0] == '/' {
        assert(j == 0);
        assert(s.subrange(0, j) =~= Seq::<char>::empty());
    } else {
        let t = s.drop_first();
        assert forall|k: int| 0 <= k < j - 1 implies t[k] != '/' by {
            assert(t[k] == s[k + 1]);
        }
        if j < s.len() {
            assert(t[j - 1] == s[j]);
        }
        lemma_first_segment(t, j - 1);
        assert(s.subrange(0, j) =~= seq![s[0]] + t.subrange(0, j - 1));
    }
}

/// Takes the tenant from the first path segment of an issuer URL
/// (`https://login.example/{tenant}/v2.0`), refusing the multi-tenant ones.
pub fn extract_issuer_from_iss(iss: &str) -> (r: Result<TenantId, EntraIdError>)
    ensures
        match r {
            Ok(t) => issuer_outcome(iss@) == Ok::<Seq<char>, TokenFault>(t@),
            Err(e) => issuer_outcome(iss@) == Err::<Seq<char>, TokenFault>(e.fault()),
        },
{
    let path = match parse_url_path(iss) {
        Ok(p) => p,
        Err(e) => {
            return Err(EntraIdError::TokenMissingIssuer(e));
        },
    };
    let p = path.as_str();
    let n = p.unicode_len();
    if n == 0 || p.get_char(0) != '/' {
        return Err(EntraIdError::InvalidIssuerFormat("No path segments in iss"));
    }
    let mut j: usize = 1;
    while j < n && p.get_char(j) != '/'
        invariant
            1 <= j <= n,
            n == p@.len(),
            forall|k: int| 1 <= k < j ==> p@[k] != '/',
        decreases n - j,
    {
        j = j + 1;
    }
    proof {
        let rest = p@.drop_first();
        assert forall|k: int| 0 <= k < j - 1 implies rest[k] != '/' by {
            assert(rest[k] == p@[k + 1]);
        }
        if j < n {
            assert(rest[j - 1] == p@[j as int]);
        }
        lemma_first_segment(rest, j - 1);
        assert(rest.subrange(0, j - 1) =~= p@.subrange(1, j as int));
    }
    let first = p.substring_char(1, j).to_owned();
    let common = "common".to_owned();
    let organizations = "organizations".to_owned();
    if first == common {
        Err(EntraIdError::DisallowedIssuerTenant(IssuerTenant::Common))
    } else if first == organizations {
        Err(EntraIdError::DisallowedIssuerTenant(IssuerTenant::Organizations))
    } else {
        Ok(TenantId(first))
    }
}

/// Decides which tenant a token claims to come from: the `tid` claim when
/// present, else the tenant segment of `iss`.
pub fn specify_issuer(unverified_claims: &UnverifiedClaims) -> (r: Result<IssuerTenant, EntraIdError>)
    ensures
        match r {
            Ok(IssuerTenant::Tenant(t)) => route_outcome(
                unverified_claims.iss@,
                opt_view(unverified_claims.tid),
            ) == Ok::<Seq<char>, TokenFault>(t@),
            Ok(_) => false,
            Err(e) => route_outcome(unverified_claims.iss@, opt_view(unverified_claims.tid))
                == Err::<Seq<char>, TokenFault>(e.fault()),
        },
{
    if let Some(tid) = &unverified_claims.tid {
        return Ok(IssuerTenant::Tenant(TenantId(tid.clone())));
    }
    let tenant_id = extract_issuer_from_iss(unverified_claims.iss.as_str())?;
    Ok(IssuerTenant::Tenant(tenant_id))
}

/// Where the key of a token is looked up, before its signature is checked:
/// the tenant and the `kid`; or why the token is refused first. `claims` is
/// what the decoded payload parses into (`None` when it is not a JSON object
/// with a string `iss`), and `registered` the registered tenant ids. Only a
/// key lookup can lead to a fetch, so a token refused here causes no network
/// traffic.
pub open spec fn key_route(
    t: Seq<u8>,
    claims: Option<(Seq<char>, Option<Seq<char>>)>,
    registered: Set<Seq<char>>,
) -> Result<(Seq<char>, Seq<char>), TokenFault> {
    match peek_outcome(t) {
        Err(f) => Err(f),
        Ok((kid, _)) => match claims {
            None => Err(TokenFault::PayloadParse),
            Some((iss, tid)) => match route_outcome(iss, tid) {
                Err(f) => Err(f),
                Ok(tenant) => if registered.contains(tenant) {
                    Ok((tenant, kid))
                } else {
                    Err(TokenFault::TenantNotFound)
                },
            },
        },
    }
}

/// A three-segment token whose header names another algorithm than RS256,
/// known to the token library or not, is refused as such before any key is
/// looked up, whatever its payload.
pub proof fn lemma_other_algorithm_refused(
    t: Seq<u8>,
    claims: Option<(Seq<char>, Option<Seq<char>>)>,
    registered: Set<Seq<char>>,
)
    requires
        segments(t).len() == JWT_PARTS_COUNT,
        b64url_decoded(segments(t)[0]) matches Some(h) && json_text_field(h, "alg"@) matches Some(
            Some(alg),
        ) && alg != "RS256"@,
    ensures
        key_route(t, claims, registered) == Err::<(Seq<char>, Seq<char>), TokenFault>(
            TokenFault::UnsupportedAlgorithm,
        ),
{
}

/// A token without `tid` whose issuer path starts with `common` or
/// `organizations` is refused as a multi-tenant issuer before any key is
/// looked up.
pub proof fn lemma_multi_tenant_issuer_refused(
    t: Seq<u8>,
    iss: Seq<char>,
    registered: Set<Seq<char>>,
)
    requires
        peek_outcome(t) is Ok,
        url_path_of(iss) matches Some(path) && (path_tenant_segment(path) == Some("common"@)
            || path_tenant_segment(path) == Some("organizations"@)),
    ensures
        key_route(t, Some((iss, None)), registered) matches Err(f) && (f == TokenFault::DisallowedCommon
            || f == TokenFault::DisallowedOrganizations),
        url_path_of(iss) matches Some(path) && path_tenant_segment(path) == Some("common"@)
            ==> key_route(t, Some((iss, None)), registered) == Err::<(Seq<char>, Seq<char>), TokenFault>(
            TokenFault::DisallowedCommon,
        ),
{
    reveal_strlit("common");
    reveal_strlit("organizations");
}

} // verus!
