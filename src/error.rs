//! Errors of the verifier, and the HTTP status that each one answers with.
use vstd::prelude::*;
use crate::types::{IssuerTenant, Kid, TenantId};

verus! {

/// How one request to a key-set endpoint failed.
#[derive(Debug, Clone, PartialEq, Eq)]
pub enum FetchFailureKind {
    /// The request timed out.
    Timeout,
    /// No connection could be made.
    Connect,
    /// The endpoint answered with this non-success HTTP status.
    Status(u16),
    /// Anything else.
    Other,
}

/// A failed request to a key-set endpoint, with the text that describes it.
#[derive(Debug, Clone)]
pub struct FetchFailure {
    pub kind: FetchFailureKind,
    pub message: String,
}

/// Why the header segment of a token could not be read.
#[derive(Debug)]
pub enum HeaderDecodeFailure {
    /// It is not base64url without padding.
    Base64(base64::DecodeError),
    /// It is not a JSON object.
    Json(serde_json::Error),
    /// It names no algorithm.
    MissingAlgorithm,
}

/// Every way in which building the verifier or checking a token can fail.
#[derive(Debug)]
pub enum EntraIdError {
    /// A construction parameter is missing or out of range.
    Initialize(&'static str),
    /// The HTTP client for the key-set endpoints could not be set up.
    JwksProviderInitError(String),
    /// A key set could not be fetched, after the allowed attempts.
    JwksFetchError(FetchFailure, url::Url),
    /// A fetched key set is not the expected JSON document.
    JwksResponseParseError(url::Url, String),
    /// The tenant has no usable key with this `kid`, even after a refresh.
    DecodingKeyNotFound(TenantId, Kid),
    /// The token names a tenant that is not registered.
    TenantNotFound(TenantId),
    /// The token header could not be decoded.
    TokenHeaderDecodeError(HeaderDecodeFailure),
    /// The token header has no `kid`.
    TokenHeaderMissingKid,
    /// The issuer is a multi-tenant endpoint.
    DisallowedIssuerTenant(IssuerTenant),
    /// The token is not signed with RS256.
    UnsupportedTokenAlgorithm(String),
    /// The signature or a checked claim is wrong.
    VerifyTokenError(jsonwebtoken::errors::Error),
    /// A cached key's RSA components are not usable.
    CreateDecodingKeyError(Kid, jsonwebtoken::errors::Error),
    /// The token is not three segments separated by dots.
    InvalidTokenFormat,
    /// The payload segment is not base64url.
    TokenPayloadDecodeError(base64::DecodeError),
    /// The payload is not a JSON object with a string `iss`.
    TokenPayloadParseError(serde_json::Error),
    /// The `iss` claim is not an absolute URL.
    TokenMissingIssuer(url::ParseError),
    /// The `iss` URL has no path to take a tenant from.
    InvalidIssuerFormat(&'static str),
}

/// Bad Gateway: the identity provider failed us.
pub const STATUS_BAD_GATEWAY: u16 = 502;

/// Unauthorized: the token cannot be trusted.
pub const STATUS_UNAUTHORIZED: u16 = 401;

/// Bad Request: the token is malformed or refused outright.
pub const STATUS_BAD_REQUEST: u16 = 400;

/// Internal Server Error: the verifier itself is misconfigured.
pub const STATUS_INTERNAL_SERVER_ERROR: u16 = 500;

impl EntraIdError {
    /// The HTTP status that a request failing with this error is answered with.
    pub open spec fn spec_status_code(&self) -> u16 {
        match self {
            EntraIdError::JwksFetchError(..) | EntraIdError::JwksResponseParseError(..) => 502,
            EntraIdError::DecodingKeyNotFound(..)
            | EntraIdError::TokenHeaderDecodeError(..)
            | EntraIdError::TenantNotFound(..) => 401,
            EntraIdError::Initialize(..) | EntraIdError::JwksProviderInitError(..) => 500,
            _ => 400,
        }
    }

    pub fn status_code(&self) -> (r: u16)
        ensures
            r == self.spec_status_code(),
    {
        match self {
            EntraIdError::JwksFetchError(..) | EntraIdError::JwksResponseParseError(..) => {
                STATUS_BAD_GATEWAY
            },
            EntraIdError::DecodingKeyNotFound(..)
            | EntraIdError::TokenHeaderDecodeError(..)
            | EntraIdError::TenantNotFound(..) => STATUS_UNAUTHORIZED,
            EntraIdError::Initialize(..) | EntraIdError::JwksProviderInitError(..) => {
                STATUS_INTERNAL_SERVER_ERROR
            },
            EntraIdError::TokenHeaderMissingKid
            | EntraIdError::DisallowedIssuerTenant(..)
            | EntraIdError::UnsupportedTokenAlgorithm(..)
            | EntraIdError::VerifyTokenError(..)
            | EntraIdError::CreateDecodingKeyError(..)
            | EntraIdError::InvalidTokenFormat
            | EntraIdError::TokenPayloadDecodeError(..)
            | EntraIdError::TokenPayloadParseError(..)
            | EntraIdError::TokenMissingIssuer(..)
            | EntraIdError::InvalidIssuerFormat(..) => STATUS_BAD_REQUEST,
        }
    }
}

} // verus!
