//! Types of outside crates that the library carries without looking inside.
use vstd::prelude::*;

verus! {

/// A parsed URL (`url::Url`): a tenant's key-set endpoint and the place a fetch
/// error points at.
#[verifier::external_type_specification]
#[verifier::external_body]
pub struct ExUrl(url::Url);

/// Relies on the derived `Clone` of `url::Url`: the copy is the same URL.
pub assume_specification[ <url::Url as Clone>::clone ](u: &url::Url) -> (r: url::Url)
    ensures
        r == *u,
;

/// Why a string is not an absolute URL (`url::ParseError`).
#[verifier::external_type_specification]
#[verifier::external_body]
pub struct ExUrlParseError(url::ParseError);

/// An error of the token library (`jsonwebtoken::errors::Error`).
#[verifier::external_type_specification]
#[verifier::external_body]
pub struct ExJwtError(jsonwebtoken::errors::Error);

/// A public key ready for signature checks (`jsonwebtoken::DecodingKey`).
#[verifier::external_type_specification]
#[verifier::external_body]
pub struct ExDecodingKey(jsonwebtoken::DecodingKey);

/// Why a base64 text did not decode (`base64::DecodeError`).
#[verifier::external_type_specification]
#[verifier::external_body]
pub struct ExDecodeError(base64::DecodeError);

/// Why a JSON text did not parse (`serde_json::Error`).
#[verifier::external_type_specification]
#[verifier::external_body]
pub struct ExJsonError(serde_json::Error);

/// The signal that stops the background refresher
/// (`tokio_util::sync::CancellationToken`).
#[verifier::external_type_specification]
#[verifier::external_body]
pub struct ExCancellationToken(tokio_util::sync::CancellationToken);

} // verus!
