//! The closed error taxonomy of the protocol.

use vstd::prelude::*;
use vstd::string::StringExecFns;

verus! {

/// Every category of failure that the protocol core can report.
///
/// HTTP-style categories sit beside the protocol's own size, version and
/// framing faults; `UserDefined` wraps a caller-supplied message.
#[derive(Clone, Debug)]
pub enum ErrorKind {
    /// The request could not be understood due to malformed syntax.
    BadRequest,
    /// The request requires user authentication.
    Unauthorized,
    /// Payment is required.
    PaymentRequired,
    /// The request was understood but is refused.
    Forbidden,
    /// Nothing matches the request.
    NotFound,
    /// The method is not allowed for the resource.
    MethodNotAllowed,
    /// No acceptable response can be generated.
    NotAcceptable,
    /// The request timed out.
    RequestTimeout,
    /// The request conflicts with the current state of the resource.
    Conflict,
    /// The resource is no longer available.
    Gone,
    /// A length is required.
    LengthRequired,
    /// A precondition failed.
    PreconditionFailed,
    /// The request entity is too large.
    RequestEntityTooLarge,
    /// The request identifier is too long.
    RequestUriTooLong,
    /// The media type is unsupported.
    UnsupportedMediaType,
    /// The requested range cannot be satisfied.
    RequestedRangeUnsatisfiable,
    /// An expectation failed.
    ExpectationFailed,
    /// The request has expired.
    Expired,
    /// A mapping went wrong.
    BadMapping,
    /// The resource is locked.
    Locked,
    /// No response is available.
    NoResponse,
    /// The request has been canceled.
    Canceled,
    /// An unexpected condition prevented fulfilling the request.
    InternalServerError,
    /// The required functionality is not implemented.
    NotImplemented,
    /// The service is temporarily unavailable.
    ServiceUnavailable,
    /// A size bound of the wire format was violated.
    SizeConstraintViolation,
    /// The peer broke the protocol.
    ProtocolError,
    /// The wire version byte is not a known version.
    UnknownVersion,
    /// A caller-defined error, wrapped as its message.
    UserDefined(String),
}

impl ErrorKind {
    /// The category's name as it reads in logs and messages.
    pub open spec fn text_spec(&self) -> Seq<char> {
        match self {
            ErrorKind::BadRequest => "BadRequest"@,
            ErrorKind::Unauthorized => "Unauthorized"@,
            ErrorKind::PaymentRequired => "PaymentRequired"@,
            ErrorKind::Forbidden => "Forbidden"@,
            ErrorKind::NotFound => "NotFound"@,
            ErrorKind::MethodNotAllowed => "MethodNotAllowed"@,
            ErrorKind::NotAcceptable => "NotAcceptable"@,
            ErrorKind::RequestTimeout => "RequestTimeout"@,
            ErrorKind::Conflict => "Conflict"@,
            ErrorKind::Gone => "Gone"@,
            ErrorKind::LengthRequired => "LengthRequired"@,
            ErrorKind::PreconditionFailed => "PreconditionFailed"@,
            ErrorKind::RequestEntityTooLarge => "RequestEntityTooLarge"@,
            ErrorKind::RequestUriTooLong => "RequestUriTooLong"@,
            ErrorKind::UnsupportedMediaType => "UnsupportedMediaType"@,
            ErrorKind::RequestedRangeUnsatisfiable => "RequestedRangeUnsatisfiable"@,
            ErrorKind::ExpectationFailed => "ExpectationFailed"@,
            ErrorKind::Expired => "Expired"@,
            ErrorKind::BadMapping => "BadMapping"@,
            ErrorKind::Locked => "Locked"@,
            ErrorKind::NoResponse => "NoResponse"@,
            ErrorKind::Canceled => "Canceled"@,
            ErrorKind::InternalServerError => "InternalServerError"@,
            ErrorKind::NotImplemented => "NotImplemented"@,
            ErrorKind::ServiceUnavailable => "ServiceUnavailable"@,
            ErrorKind::SizeConstraintViolation => "SizeConstraintViolation"@,
            ErrorKind::ProtocolError => "ProtocolError"@,
            ErrorKind::UnknownVersion => "UnknownVersion"@,
            ErrorKind::UserDefined(m) => m@,
        }
    }

    /// Returns the category's name; for `UserDefined` the wrapped message.
    pub fn to_text(&self) -> (r: String)
        ensures
            r@ == self.text_spec(),
    {
        match self {
            ErrorKind::BadRequest => String::from_str("BadRequest"),
            ErrorKind::Unauthorized => String::from_str("Unauthorized"),
            ErrorKind::PaymentRequired => String::from_str("PaymentRequired"),
            ErrorKind::Forbidden => String::from_str("Forbidden"),
            ErrorKind::NotFound => String::from_str("NotFound"),
            ErrorKind::MethodNotAllowed => String::from_str("MethodNotAllowed"),
            ErrorKind::NotAcceptable => String::from_str("NotAcceptable"),
            ErrorKind::RequestTimeout => String::from_str("RequestTimeout"),
            ErrorKind::Conflict => String::from_str("Conflict"),
            ErrorKind::Gone => String::from_str("Gone"),
            ErrorKind::LengthRequired => String::from_str("LengthRequired"),
            ErrorKind::PreconditionFailed => String::from_str("PreconditionFailed"),
            ErrorKind::RequestEntityTooLarge => String::from_str("RequestEntityTooLarge"),
            ErrorKind::RequestUriTooLong => String::from_str("RequestUriTooLong"),
            ErrorKind::UnsupportedMediaType => String::from_str("UnsupportedMediaType"),
            ErrorKind::RequestedRangeUnsatisfiable => {
                String::from_str("RequestedRangeUnsatisfiable")
            },
            ErrorKind::ExpectationFailed => String::from_str("ExpectationFailed"),
            ErrorKind::Expired => String::from_str("Expired"),
            ErrorKind::BadMapping => String::from_str("BadMapping"),
            ErrorKind::Locked => String::from_str("Locked"),
            ErrorKind::NoResponse => String::from_str("NoResponse"),
            ErrorKind::Canceled => String::from_str("Canceled"),
            ErrorKind::InternalServerError => String::from_str("InternalServerError"),
            ErrorKind::NotImplemented => String::from_str("NotImplemented"),
            ErrorKind::ServiceUnavailable => String::from_str("ServiceUnavailable"),
            ErrorKind::SizeConstraintViolation => String::from_str("SizeConstraintViolation"),
            ErrorKind::ProtocolError => String::from_str("ProtocolError"),
            ErrorKind::UnknownVersion => String::from_str("UnknownVersion"),
            ErrorKind::UserDefined(m) => m.clone(),
        }
    }
}

/// The reading of a whole error: category, code and message.
pub open spec fn error_text_spec(e: Error) -> Seq<char> {
    "Error: ["@ + e.kind.text_spec() + "]:"@ + crate::text::dec_digits(e.code as nat) + " -> "@
        + e.message@
}

/// An error of the protocol core: a numeric code, a message and a category.
///
/// Small binary codes (`0b1000`, `0b1001`, `0b1010`, `0b1100`) are reserved
/// for size and version faults of the wire format; HTTP-style three-digit
/// codes are used for semantic errors.
#[derive(Clone, Debug)]
pub struct Error {
    /// The numeric error code.
    pub code: u32,
    /// The human-readable message.
    pub message: String,
    /// The category of the error.
    pub kind: ErrorKind,
}

impl Error {
    /// Writes the error as one line: category, code and message.
    pub fn to_text(&self) -> (r: String)
        ensures
            r@ == error_text_spec(*self),
    {
        let mut out = String::from_str("Error: [");
        let kind = self.kind.to_text();
        out.append(kind.as_str());
        out.append("]:");
        let code = crate::text::u64_to_string(self.code as u64);
        out.append(code.as_str());
        out.append(" -> ");
        out.append(self.message.as_str());
        out
    }
}

} // verus!
