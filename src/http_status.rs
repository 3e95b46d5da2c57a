use vstd::prelude::*;

verus! {

/// Response statuses, each with its code and reason phrase.
#[derive(Debug, Clone, Copy, PartialEq, Eq, Structural)]
pub enum HttpStatus {
    Continue,
    SwitchingProtocols,
    OK,
    Created,
    Accepted,
    NonAuthoritativeInformation,
    NoContent,
    ResetContent,
    PartialContent,
    MultipleChoices,
    MovedPermanently,
    Found,
    SeeOther,
    NotModified,
    UseProxy,
    TemporaryRedirect,
    PermanentRedirect,
    BadRequest,
    Unauthorized,
    PaymentRequired,
    Forbidden,
    NotFound,
    MethodNotAllowed,
    NotAcceptable,
    ProxyAuthenticationRequired,
    RequestTimeout,
    Conflict,
    Gone,
    LengthRequired,
    PreconditionFailed,
    PayloadTooLarge,
    UriTooLong,
    UnsupportedMediaType,
    RangeNotSatisfiable,
    ExpectationFailed,
    ImATeapot,
    UnprocessableEntity,
    TooManyRequests,
    InternalServerError,
    NotImplemented,
    BadGateway,
    ServiceUnavailable,
    GatewayTimeout,
    HttpVersionNotSupported,
}

/// The status as it appears after `HTTP/1.1 ` on the status line.
pub open spec fn status_text(s: HttpStatus) -> Seq<char> {
    match s {
        HttpStatus::Continue => "100 Continue"@,
        HttpStatus::SwitchingProtocols => "101 Switching Protocols"@,
        HttpStatus::OK => "200 OK"@,
        HttpStatus::Created => "201 Created"@,
        HttpStatus::Accepted => "202 Accepted"@,
        HttpStatus::NonAuthoritativeInformation => "203 Non-Authoritative Information"@,
        HttpStatus::NoContent => "204 No Content"@,
        HttpStatus::ResetContent => "205 Reset Content"@,
        HttpStatus::PartialContent => "206 Partial Content"@,
        HttpStatus::MultipleChoices => "300 Multiple Choices"@,
        HttpStatus::MovedPermanently => "301 Moved Permanently"@,
        HttpStatus::Found => "302 Found"@,
        HttpStatus::SeeOther => "303 See Other"@,
        HttpStatus::NotModified => "304 Not Modified"@,
        HttpStatus::UseProxy => "305 Use Proxy"@,
        HttpStatus::TemporaryRedirect => "307 Temporary Redirect"@,
        HttpStatus::PermanentRedirect => "308 Permanent Redirect"@,
        HttpStatus::BadRequest => "400 Bad Request"@,
        HttpStatus::Unauthorized => "401 Unauthorized"@,
        HttpStatus::PaymentRequired => "402 Payment Required"@,
        HttpStatus::Forbidden => "403 Forbidden"@,
        HttpStatus::NotFound => "404 Not Found"@,
        HttpStatus::MethodNotAllowed => "405 Method Not Allowed"@,
        HttpStatus::NotAcceptable => "406 Not Acceptable"@,
        HttpStatus::ProxyAuthenticationRequired => "407 Proxy Authentication Required"@,
        HttpStatus::RequestTimeout => "408 Request Timeout"@,
        HttpStatus::Conflict => "409 Conflict"@,
        HttpStatus::Gone => "410 Gone"@,
        HttpStatus::LengthRequired => "411 Length Required"@,
        HttpStatus::PreconditionFailed => "412 Precondition Failed"@,
        HttpStatus::PayloadTooLarge => "413 Payload Too Large"@,
        HttpStatus::UriTooLong => "414 URI Too Long"@,
        HttpStatus::UnsupportedMediaType => "415 Unsupported Media Type"@,
        HttpStatus::RangeNotSatisfiable => "416 Range Not Satisfiable"@,
        HttpStatus::ExpectationFailed => "417 Expectation Failed"@,
        HttpStatus::ImATeapot => "418 I'm a teapot"@,
        HttpStatus::UnprocessableEntity => "422 Unprocessable Entity"@,
        HttpStatus::TooManyRequests => "429 Too Many Requests"@,
        HttpStatus::InternalServerError => "500 Internal Server Error"@,
        HttpStatus::NotImplemented => "501 Not Implemented"@,
        HttpStatus::BadGateway => "502 Bad Gateway"@,
        HttpStatus::ServiceUnavailable => "503 Service Unavailable"@,
        HttpStatus::GatewayTimeout => "504 Gateway Timeout"@,
        HttpStatus::HttpVersionNotSupported => "505 HTTP Version Not Supported"@,
    }
}

impl HttpStatus {
    /// The code and reason phrase, such as `"404 Not Found"`.
    pub fn to_string(&self) -> (r: String)
        ensures
            r@ == status_text(*self),
    {
        let s = match self {
            HttpStatus::Continue => "100 Continue",
            HttpStatus::SwitchingProtocols => "101 Switching Protocols",
            HttpStatus::OK => "200 OK",
            HttpStatus::Created => "201 Created",
            HttpStatus::Accepted => "202 Accepted",
            HttpStatus::NonAuthoritativeInformation => "203 Non-Authoritative Information",
            HttpStatus::NoContent => "204 No Content",
            HttpStatus::ResetContent => "205 Reset Content",
            HttpStatus::PartialContent => "206 Partial Content",
            HttpStatus::MultipleChoices => "300 Multiple Choices",
            HttpStatus::MovedPermanently => "301 Moved Permanently",
            HttpStatus::Found => "302 Found",
            HttpStatus::SeeOther => "303 See Other",
            HttpStatus::NotModified => "304 Not Modified",
            HttpStatus::UseProxy => "305 Use Proxy",
            HttpStatus::TemporaryRedirect => "307 Temporary Redirect",
            HttpStatus::PermanentRedirect => "308 Permanent Redirect",
            HttpStatus::BadRequest => "400 Bad Request",
            HttpStatus::Unauthorized => "401 Unauthorized",
            HttpStatus::PaymentRequired => "402 Payment Required",
            HttpStatus::Forbidden => "403 Forbidden",
            HttpStatus::NotFound => "404 Not Found",
            HttpStatus::MethodNotAllowed => "405 Method Not Allowed",
            HttpStatus::NotAcceptable => "406 Not Acceptable",
            HttpStatus::ProxyAuthenticationRequired => "407 Proxy Authentication Required",
            HttpStatus::RequestTimeout => "408 Request Timeout",
            HttpStatus::Conflict => "409 Conflict",
            HttpStatus::Gone => "410 Gone",
            HttpStatus::LengthRequired => "411 Length Required",
            HttpStatus::PreconditionFailed => "412 Precondition Failed",
            HttpStatus::PayloadTooLarge => "413 Payload Too Large",
            HttpStatus::UriTooLong => "414 URI Too Long",
            HttpStatus::UnsupportedMediaType => "415 Unsupported Media Type",
            HttpStatus::RangeNotSatisfiable => "416 Range Not Satisfiable",
            HttpStatus::ExpectationFailed => "417 Expectation Failed",
            HttpStatus::ImATeapot => "418 I'm a teapot",
            HttpStatus::UnprocessableEntity => "422 Unprocessable Entity",
            HttpStatus::TooManyRequests => "429 Too Many Requests",
            HttpStatus::InternalServerError => "500 Internal Server Error",
            HttpStatus::NotImplemented => "501 Not Implemented",
            HttpStatus::BadGateway => "502 Bad Gateway",
            HttpStatus::ServiceUnavailable => "503 Service Unavailable",
            HttpStatus::GatewayTimeout => "504 Gateway Timeout",
            HttpStatus::HttpVersionNotSupported => "505 HTTP Version Not Supported",
        };
        s.to_owned()
    }
}

} // verus!
