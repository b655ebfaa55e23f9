use vstd::prelude::*;

verus! {

/// The library's error taxonomy: transport, encoding, cryptographic,
/// storage and domain failures, each as a distinct variant so callers
/// can decide how to react.
#[derive(Clone, Copy, Debug, PartialEq, Eq, Structural)]
pub enum AppError {
    /// The HTTP request could not be built.
    HttpRequestBuilder,
    /// The HTTP request failed while following a redirect.
    HttpRedirect,
    /// The HTTP response carried an error status code.
    HttpStatusCode,
    /// The HTTP request timed out.
    HttpTimeout,
    /// The HTTP request failed while being sent.
    HttpRequest,
    /// The HTTP response body could not be read.
    HttpBody,
    /// The HTTP response body could not be decoded.
    HttpDecode,
    /// A byte slice was not valid UTF-8.
    Utf8,
    /// A JSON payload could not be parsed or had the wrong shape.
    Json,
    /// The OS credential store failed.
    Keyring,
    /// Authenticated encryption or decryption failed.
    AesGcm,
    /// A byte vector was not valid UTF-8 when converting to an owned string.
    FromUtf8,
    /// A base64 text could not be decoded.
    Base64Decode,
    /// The underlying relational store failed.
    Sqlx,
    /// A stored provider label was not one of the known providers.
    InvalidAgentProvider,
    /// No current agent is configured.
    AgentRequired,
    /// The current agent has no generation parameters (no secret configured).
    AgentTextGenParamsRequired,
    /// The shared transaction lock was already held.
    TryLock,
    /// The transaction was still referenced by a repository handle at commit.
    TransactionInUse,
    /// Any other failure.
    Unknown,
}

impl AppError {
    /// The stable label used when reporting this error to the UI shell.
    pub fn kind(&self) -> (r: &'static str)
        ensures
            r@ == self.kind_spec(),
    {
        match self {
            AppError::HttpRequestBuilder => "HttpRequestBuilder",
            AppError::HttpRedirect => "HttpRedirect",
            AppError::HttpStatusCode => "HttpStatusCode",
            AppError::HttpTimeout => "HttpTimeout",
            AppError::HttpRequest => "HttpRequest",
            AppError::HttpBody => "HttpBody",
            AppError::HttpDecode => "HttpDecode",
            AppError::Utf8 => "Utf8Error",
            AppError::Json => "JsonError",
            AppError::Keyring => "KeyringError",
            AppError::AesGcm => "AesGcmError",
            AppError::FromUtf8 => "FromUtf8Error",
            AppError::Base64Decode => "Base64DecodeError",
            AppError::Sqlx => "SqlxError",
            AppError::InvalidAgentProvider => "InvalidAgentProviderError",
            AppError::AgentRequired => "AgentRequiredError",
            AppError::AgentTextGenParamsRequired => "AgentTextGenParamsRequiredError",
            AppError::TryLock => "TryLockError",
            AppError::TransactionInUse => "TransactionInUse",
            AppError::Unknown => "Unknown",
        }
    }

    pub open spec fn kind_spec(&self) -> Seq<char> {
        match self {
            AppError::HttpRequestBuilder => "HttpRequestBuilder"@,
            AppError::HttpRedirect => "HttpRedirect"@,
            AppError::HttpStatusCode => "HttpStatusCode"@,
            AppError::HttpTimeout => "HttpTimeout"@,
            AppError::HttpRequest => "HttpRequest"@,
            AppError::HttpBody => "HttpBody"@,
            AppError::HttpDecode => "HttpDecode"@,
            AppError::Utf8 => "Utf8Error"@,
            AppError::Json => "JsonError"@,
            AppError::Keyring => "KeyringError"@,
            AppError::AesGcm => "AesGcmError"@,
            AppError::FromUtf8 => "FromUtf8Error"@,
            AppError::Base64Decode => "Base64DecodeError"@,
            AppError::Sqlx => "SqlxError"@,
            AppError::InvalidAgentProvider => "InvalidAgentProviderError"@,
            AppError::AgentRequired => "AgentRequiredError"@,
            AppError::AgentTextGenParamsRequired => "AgentTextGenParamsRequiredError"@,
            AppError::TryLock => "TryLockError"@,
            AppError::TransactionInUse => "TransactionInUse"@,
            AppError::Unknown => "Unknown"@,
        }
    }
}

#[verifier::external_type_specification]
#[verifier::external_body]
pub struct ExReqwestError(reqwest::Error);

/// Whether `reqwest::Error::is_builder` holds of an error value.
pub uninterp spec fn is_builder_of(e: reqwest::Error) -> bool;

/// Whether `reqwest::Error::is_redirect` holds of an error value.
pub uninterp spec fn is_redirect_of(e: reqwest::Error) -> bool;

/// Whether `reqwest::Error::is_status` holds of an error value.
pub uninterp spec fn is_status_of(e: reqwest::Error) -> bool;

/// Whether `reqwest::Error::is_timeout` holds of an error value.
pub uninterp spec fn is_timeout_of(e: reqwest::Error) -> bool;

/// Whether `reqwest::Error::is_request` holds of an error value.
pub uninterp spec fn is_request_of(e: reqwest::Error) -> bool;

/// Whether `reqwest::Error::is_body` holds of an error value.
pub uninterp spec fn is_body_of(e: reqwest::Error) -> bool;

/// Whether `reqwest::Error::is_decode` holds of an error value.
pub uninterp spec fn is_decode_of(e: reqwest::Error) -> bool;

/// Relies on `reqwest::Error::is_builder`.
#[verifier::external_body]
fn http_error_is_builder(e: &reqwest::Error) -> (r: bool)
    ensures
        r == is_builder_of(*e),
{
    e.is_builder()
}

/// Relies on `reqwest::Error::is_redirect`.
#[verifier::external_body]
fn http_error_is_redirect(e: &reqwest::Error) -> (r: bool)
    ensures
        r == is_redirect_of(*e),
{
    e.is_redirect()
}

/// Relies on `reqwest::Error::is_status`.
#[verifier::external_body]
fn http_error_is_status(e: &reqwest::Error) -> (r: bool)
    ensures
        r == is_status_of(*e),
{
    e.is_status()
}

/// Relies on `reqwest::Error::is_timeout`.
#[verifier::external_body]
fn http_error_is_timeout(e: &reqwest::Error) -> (r: bool)
    ensures
        r == is_timeout_of(*e),
{
    e.is_timeout()
}

/// Relies on `reqwest::Error::is_request`.
#[verifier::external_body]
fn http_error_is_request(e: &reqwest::Error) -> (r: bool)
    ensures
        r == is_request_of(*e),
{
    e.is_request()
}

/// Relies on `reqwest::Error::is_body`.
#[verifier::external_body]
fn http_error_is_body(e: &reqwest::Error) -> (r: bool)
    ensures
        r == is_body_of(*e),
{
    e.is_body()
}

/// Relies on `reqwest::Error::is_decode`.
#[verifier::external_body]
fn http_error_is_decode(e: &reqwest::Error) -> (r: bool)
    ensures
        r == is_decode_of(*e),
{
    e.is_decode()
}

/// The taxonomy kind of a transport failure: the first of reqwest's
/// distinguishable kinds that holds of it, in a fixed testing order.
pub open spec fn classify_http_error_spec(e: reqwest::Error) -> AppError {
    if is_builder_of(e) {
        AppError::HttpRequestBuilder
    } else if is_redirect_of(e) {
        AppError::HttpRedirect
    } else if is_status_of(e) {
        AppError::HttpStatusCode
    } else if is_timeout_of(e) {
        AppError::HttpTimeout
    } else if is_request_of(e) {
        AppError::HttpRequest
    } else if is_body_of(e) {
        AppError::HttpBody
    } else if is_decode_of(e) {
        AppError::HttpDecode
    } else {
        AppError::Unknown
    }
}

/// Sort a transport failure into the taxonomy, testing the distinguishable
/// kinds in a fixed order so the caller can judge retry-worthiness.
pub fn classify_http_error(e: &reqwest::Error) -> (r: AppError)
    ensures
        r == classify_http_error_spec(*e),
{
    if http_error_is_builder(e) {
        AppError::HttpRequestBuilder
    } else if http_error_is_redirect(e) {
        AppError::HttpRedirect
    } else if http_error_is_status(e) {
        AppError::HttpStatusCode
    } else if http_error_is_timeout(e) {
        AppError::HttpTimeout
    } else if http_error_is_request(e) {
        AppError::HttpRequest
    } else if http_error_is_body(e) {
        AppError::HttpBody
    } else if http_error_is_decode(e) {
        AppError::HttpDecode
    } else {
        AppError::Unknown
    }
}

} // verus!
