//! The errors of the client, and how they are told to the transport's side.

use crate::fields::HeaderError;
use vstd::prelude::*;
use vstd::string::*;

verus! {

/// What went wrong in encoding or decoding JSON, in words.
#[derive(Clone, Debug, PartialEq, Eq)]
pub struct JsonError {
    pub message: String,
}

/// What a name server answered when a lookup failed.
#[derive(Clone, Debug, PartialEq, Eq)]
pub struct DnsErrorPayload {
    pub rcode: Option<String>,
    pub info_code: Option<u16>,
}

/// The TLS alert that ended a connection.
#[derive(Clone, Debug, PartialEq, Eq)]
pub struct TlsAlertReceivedPayload {
    pub alert_id: Option<u8>,
    pub alert_message: Option<String>,
}

/// The name and size of a field that was too large.
#[derive(Clone, Debug, PartialEq, Eq)]
pub struct FieldSizePayload {
    pub field_name: Option<String>,
    pub field_size: Option<u32>,
}

/// The code by which the transport names a failed exchange.
#[derive(Clone, Debug, PartialEq, Eq)]
pub enum ErrorCode {
    DnsTimeout,
    DnsError(DnsErrorPayload),
    DestinationNotFound,
    DestinationUnavailable,
    DestinationIpProhibited,
    DestinationIpUnroutable,
    ConnectionRefused,
    ConnectionTerminated,
    ConnectionTimeout,
    ConnectionReadTimeout,
    ConnectionWriteTimeout,
    ConnectionLimitReached,
    TlsProtocolError,
    TlsCertificateError,
    TlsAlertReceived(TlsAlertReceivedPayload),
    HttpRequestDenied,
    HttpRequestLengthRequired,
    HttpRequestBodySize(Option<u64>),
    HttpRequestMethodInvalid,
    HttpRequestUriInvalid,
    HttpRequestUriTooLong,
    HttpRequestHeaderSectionSize(Option<u32>),
    HttpRequestHeaderSize(Option<FieldSizePayload>),
    HttpRequestTrailerSectionSize(Option<u32>),
    HttpRequestTrailerSize(FieldSizePayload),
    HttpResponseIncomplete,
    HttpResponseHeaderSectionSize(Option<u32>),
    HttpResponseHeaderSize(FieldSizePayload),
    HttpResponseBodySize(Option<u64>),
    HttpResponseTrailerSectionSize(Option<u32>),
    HttpResponseTrailerSize(FieldSizePayload),
    HttpResponseTransferCoding(Option<String>),
    HttpResponseContentCoding(Option<String>),
    HttpResponseTimeout,
    HttpUpgradeFailed,
    HttpProtocolError,
    LoopDetected,
    ConfigurationError,
    /// A failure that has no code of its own, with a description.
    InternalError(Option<String>),
}

/// Everything that can go wrong in building, sending or decoding.
#[derive(Clone, Debug, PartialEq, Eq)]
pub enum Error {
    /// A value could not be encoded as JSON, or a body could not be decoded.
    SerdeJson(JsonError),
    /// A header was refused.
    Header(HeaderError),
    /// The exchange failed in the transport.
    Http(ErrorCode),
}

/// The text by which a header error is shown.
pub open spec fn header_error_text(e: HeaderError) -> Seq<char> {
    match e {
        HeaderError::InvalidSyntax => "HeaderError::InvalidSyntax"@,
        HeaderError::Forbidden => "HeaderError::Forbidden"@,
        HeaderError::Immutable => "HeaderError::Immutable"@,
    }
}

/// Whether `text` is a message of `error`: a fixed text for the kind of error,
/// followed for a JSON error by its description and for a header error by
/// its name.
pub open spec fn is_message(error: Error, text: Seq<char>) -> bool {
    match error {
        Error::SerdeJson(e) => text == "JSON serialization error: "@ + e.message@,
        Error::Header(e) => text == "Header error: "@ + header_error_text(e),
        Error::Http(_) => text == "HTTP error"@,
    }
}

impl HeaderError {
    /// The text by which this error is shown.
    pub fn text(&self) -> (r: &'static str)
        ensures
            r@ == header_error_text(*self),
    {
        match self {
            HeaderError::InvalidSyntax => "HeaderError::InvalidSyntax",
            HeaderError::Forbidden => "HeaderError::Forbidden",
            HeaderError::Immutable => "HeaderError::Immutable",
        }
    }
}

impl Error {
    /// A message for a reader.
    pub fn message(&self) -> (r: String)
        ensures
            is_message(*self, r@),
    {
        match self {
            Error::SerdeJson(e) => String::from_str("JSON serialization error: ").concat(
                e.message.as_str(),
            ),
            Error::Header(e) => String::from_str("Header error: ").concat(e.text()),
            Error::Http(_) => String::from_str("HTTP error"),
        }
    }
}

impl ErrorCode {
    /// The code under which an error is handed to the transport's side: a
    /// transport failure keeps its own code, every other error becomes an
    /// internal error that carries the error's message.
    pub fn from(error: Error) -> (r: ErrorCode)
        ensures
            match error {
                Error::Http(code) => r == code,
                _ => r matches ErrorCode::InternalError(Some(text)) && is_message(error, text@),
            },
    {
        match error {
            Error::Http(code) => code,
            other => {
                let text = other.message();
                ErrorCode::InternalError(Some(text))
            },
        }
    }
}

} // verus!
