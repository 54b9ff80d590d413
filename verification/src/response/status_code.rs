//! Contains the `StatusCode` enum and its implementations.

use vstd::prelude::*;

use crate::strutil::{spec_dec, usize_to_string};

verus! {

/// Represents the status code of an HTTP response.
#[derive(Eq, PartialEq, Structural, Debug, Clone, Copy, Hash)]
pub enum StatusCode {
    /// 200 OK
    Okay,
    /// 201 Created
    Created,
    /// 202 Accepted
    Accepted,
    /// 204 No Content
    NoContent,
    /// 400 Bad Request
    BadRequest,
    /// 401 Unauthorized
    Unauthorized,
    /// 403 Forbidden
    Forbidden,
    /// 404 Not Found
    NotFound,
    /// 405 Method Not Allowed
    MethodNotAllowed,
    /// 408 Request Timeout
    RequestTimeout,
    /// 411 Length Required
    LengthRequired,
    /// 415 Unsupported Media Type
    UnsupportedMediaType,
    /// 418 I'm A Teapot
    IAmATeapot,
    /// 429 Too Many Requests
    TooManyRequests,
    /// 500 Internal Server Error
    InternalServerError,
    /// 501 Not Implemented
    NotImplemented,
    /// 503 Service Unavailable
    ServiceUnavailable,
    /// 504 Gateway Timeout
    GatewayTimeout,
    /// 505 HTTP Version Not Supported
    HttpVersionNotSupported,
}

/// Error for parsing a status code.
///
/// This error is returned when the status code is not one of the supported
/// codes.
#[derive(Eq, PartialEq, Structural, Debug, Clone, Copy)]
pub struct ParseStatusCodeError;

/// The status code for a numeric value, if it is one of the supported codes.
pub open spec fn spec_status_of(code: u16) -> Option<StatusCode> {
    if code == 200 {
        Some(StatusCode::Okay)
    } else if code == 201 {
        Some(StatusCode::Created)
    } else if code == 202 {
        Some(StatusCode::Accepted)
    } else if code == 204 {
        Some(StatusCode::NoContent)
    } else if code == 400 {
        Some(StatusCode::BadRequest)
    } else if code == 401 {
        Some(StatusCode::Unauthorized)
    } else if code == 403 {
        Some(StatusCode::Forbidden)
    } else if code == 404 {
        Some(StatusCode::NotFound)
    } else if code == 405 {
        Some(StatusCode::MethodNotAllowed)
    } else if code == 408 {
        Some(StatusCode::RequestTimeout)
    } else if code == 411 {
        Some(StatusCode::LengthRequired)
    } else if code == 415 {
        Some(StatusCode::UnsupportedMediaType)
    } else if code == 418 {
        Some(StatusCode::IAmATeapot)
    } else if code == 429 {
        Some(StatusCode::TooManyRequests)
    } else if code == 500 {
        Some(StatusCode::InternalServerError)
    } else if code == 501 {
        Some(StatusCode::NotImplemented)
    } else if code == 503 {
        Some(StatusCode::ServiceUnavailable)
    } else if code == 504 {
        Some(StatusCode::GatewayTimeout)
    } else if code == 505 {
        Some(StatusCode::HttpVersionNotSupported)
    } else {
        None
    }
}

impl StatusCode {
    /// The numeric value of the status code.
    pub open spec fn spec_code(&self) -> u16 {
        match self {
            StatusCode::Okay => 200,
            StatusCode::Created => 201,
            StatusCode::Accepted => 202,
            StatusCode::NoContent => 204,
            StatusCode::BadRequest => 400,
            StatusCode::Unauthorized => 401,
            StatusCode::Forbidden => 403,
            StatusCode::NotFound => 404,
            StatusCode::MethodNotAllowed => 405,
            StatusCode::RequestTimeout => 408,
            StatusCode::LengthRequired => 411,
            StatusCode::UnsupportedMediaType => 415,
            StatusCode::IAmATeapot => 418,
            StatusCode::TooManyRequests => 429,
            StatusCode::InternalServerError => 500,
            StatusCode::NotImplemented => 501,
            StatusCode::ServiceUnavailable => 503,
            StatusCode::GatewayTimeout => 504,
            StatusCode::HttpVersionNotSupported => 505,
        }
    }

    /// The reason phrase of the status code.
    pub open spec fn spec_message(&self) -> Seq<char> {
        match self {
            StatusCode::Okay => "OK"@,
            StatusCode::Created => "Created"@,
            StatusCode::Accepted => "Accepted"@,
            StatusCode::NoContent => "No Content"@,
            StatusCode::BadRequest => "Bad Request"@,
            StatusCode::Unauthorized => "Unauthorized"@,
            StatusCode::Forbidden => "Forbidden"@,
            StatusCode::NotFound => "Not Found"@,
            StatusCode::MethodNotAllowed => "Method Not Allowed"@,
            StatusCode::RequestTimeout => "Request Timeout"@,
            StatusCode::LengthRequired => "Length Required"@,
            StatusCode::UnsupportedMediaType => "Unsupported Media Type"@,
            StatusCode::IAmATeapot => "I'm A Teapot"@,
            StatusCode::TooManyRequests => "Too Many Requests"@,
            StatusCode::InternalServerError => "Internal Server Error"@,
            StatusCode::NotImplemented => "Not Implemented"@,
            StatusCode::ServiceUnavailable => "Service Unavailable"@,
            StatusCode::GatewayTimeout => "Gateway Timeout"@,
            StatusCode::HttpVersionNotSupported => "HTTP Version Not Supported"@,
        }
    }

    /// The numeric value of the status code, such as 200 for `Ok`.
    pub fn code(&self) -> (r: u16)
        ensures
            r == self.spec_code(),
    {
        match self {
            StatusCode::Okay => 200,
            StatusCode::Created => 201,
            StatusCode::Accepted => 202,
            StatusCode::NoContent => 204,
            StatusCode::BadRequest => 400,
            StatusCode::Unauthorized => 401,
            StatusCode::Forbidden => 403,
            StatusCode::NotFound => 404,
            StatusCode::MethodNotAllowed => 405,
            StatusCode::RequestTimeout => 408,
            StatusCode::LengthRequired => 411,
            StatusCode::UnsupportedMediaType => 415,
            StatusCode::IAmATeapot => 418,
            StatusCode::TooManyRequests => 429,
            StatusCode::InternalServerError => 500,
            StatusCode::NotImplemented => 501,
            StatusCode::ServiceUnavailable => 503,
            StatusCode::GatewayTimeout => 504,
            StatusCode::HttpVersionNotSupported => 505,
        }
    }

    /// Converts a numeric code to a `StatusCode`; exactly the supported codes
    /// are accepted.
    pub fn from_code(code: u16) -> (r: Result<StatusCode, ParseStatusCodeError>)
        ensures
            r matches Ok(s) ==> spec_status_of(code) == Some(s),
            r is Err <==> spec_status_of(code) is None,
    {
        match code {
            200 => Ok(StatusCode::Okay),
            201 => Ok(StatusCode::Created),
            202 => Ok(StatusCode::Accepted),
            204 => Ok(StatusCode::NoContent),
            400 => Ok(StatusCode::BadRequest),
            401 => Ok(StatusCode::Unauthorized),
            403 => Ok(StatusCode::Forbidden),
            404 => Ok(StatusCode::NotFound),
            405 => Ok(StatusCode::MethodNotAllowed),
            408 => Ok(StatusCode::RequestTimeout),
            411 => Ok(StatusCode::LengthRequired),
            415 => Ok(StatusCode::UnsupportedMediaType),
            418 => Ok(StatusCode::IAmATeapot),
            429 => Ok(StatusCode::TooManyRequests),
            500 => Ok(StatusCode::InternalServerError),
            501 => Ok(StatusCode::NotImplemented),
            503 => Ok(StatusCode::ServiceUnavailable),
            504 => Ok(StatusCode::GatewayTimeout),
            505 => Ok(StatusCode::HttpVersionNotSupported),
            _ => Err(ParseStatusCodeError),
        }
    }

    /// The reason phrase, such as "OK" for 200.
    pub fn get_message(&self) -> (r: &'static str)
        ensures
            r@ == self.spec_message(),
    {
        match self {
            StatusCode::Okay => "OK",
            StatusCode::Created => "Created",
            StatusCode::Accepted => "Accepted",
            StatusCode::NoContent => "No Content",
            StatusCode::BadRequest => "Bad Request",
            StatusCode::Unauthorized => "Unauthorized",
            StatusCode::Forbidden => "Forbidden",
            StatusCode::NotFound => "Not Found",
            StatusCode::MethodNotAllowed => "Method Not Allowed",
            StatusCode::RequestTimeout => "Request Timeout",
            StatusCode::LengthRequired => "Length Required",
            StatusCode::UnsupportedMediaType => "Unsupported Media Type",
            StatusCode::IAmATeapot => "I'm A Teapot",
            StatusCode::TooManyRequests => "Too Many Requests",
            StatusCode::InternalServerError => "Internal Server Error",
            StatusCode::NotImplemented => "Not Implemented",
            StatusCode::ServiceUnavailable => "Service Unavailable",
            StatusCode::GatewayTimeout => "Gateway Timeout",
            StatusCode::HttpVersionNotSupported => "HTTP Version Not Supported",
        }
    }

    /// The numeric value of the status code, rendered in decimal.
    pub fn to_string(&self) -> (r: String)
        ensures
            r@ == spec_dec(self.spec_code() as nat),
    {
        usize_to_string(self.code() as usize)
    }
}

impl Default for StatusCode {
    /// The default status code is 200 OK.
    fn default() -> (r: Self)
        ensures
            r == StatusCode::Okay,
    {
        StatusCode::Okay
    }
}

} // verus!
