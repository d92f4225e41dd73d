//! HTTP status codes (RFC 7231, section 6, and later registrations).

use vstd::prelude::*;

verus! {

/// The class of a status code, by its first digit.
#[derive(Debug, Clone, Copy, PartialEq, Eq, Structural)]
pub enum Series {
    Informational,
    Success,
    Redirection,
    ClientError,
    ServerError,
}

/// An HTTP response status.
#[derive(Debug, Clone, Copy, PartialEq, Eq, Structural)]
pub enum HttpStatus {
    // Informational 1xx
    Continue,
    SwitchingProtocols,
    Processing,
    EarlyHints,
    // Success 2xx
    OK,
    Created,
    Accepted,
    NonAuthoritativeInformation,
    NoContent,
    ResetContent,
    PartialContent,
    // Redirection 3xx
    MultipleChoices,
    MovedPermanently,
    Found,
    SeeOther,
    NotModified,
    UseProxy,
    TemporaryRedirect,
    PermanentRedirect,
    // Client Error 4xx
    BadRequest,
    Unauthorized,
    PaymentRequired,
    Forbidden,
    NotFound,
    MethodNotAllowed,
    NotAcceptable,
    ProxyAuthenticationRequired,
    RequestTimeout,
    Conflict,
    Gone,
    LengthRequired,
    PreconditionFailed,
    PayloadTooLarge,
    UriTooLong,
    UnsupportedMediaType,
    RangeNotSatisfiable,
    ExpectationFailed,
    ImATeapot,
    MisdirectedRequest,
    UnprocessableEntity,
    Locked,
    FailedDependency,
    TooEarly,
    UpgradeRequired,
    PreconditionRequired,
    TooManyRequests,
    RequestHeaderFieldsTooLarge,
    UnavailableForLegalReasons,
    // Server Error 5xx
    InternalServerError,
    NotImplemented,
    BadGateway,
    ServiceUnavailable,
    GatewayTimeout,
    HttpVersionNotSupported,
    VariantAlsoNegotiates,
    InsufficientStorage,
    LoopDetected,
    NotExtended,
    NetworkAuthenticationRequired,
}

/// The numeric code of a status.
pub open spec fn status_code(s: HttpStatus) -> u16 {
    match s {
        HttpStatus::Continue => 100,
        HttpStatus::SwitchingProtocols => 101,
        HttpStatus::Processing => 102,
        HttpStatus::EarlyHints => 103,
        HttpStatus::OK => 200,
        HttpStatus::Created => 201,
        HttpStatus::Accepted => 202,
        HttpStatus::NonAuthoritativeInformation => 203,
        HttpStatus::NoContent => 204,
        HttpStatus::ResetContent => 205,
        HttpStatus::PartialContent => 206,
        HttpStatus::MultipleChoices => 300,
        HttpStatus::MovedPermanently => 301,
        HttpStatus::Found => 302,
        HttpStatus::SeeOther => 303,
        HttpStatus::NotModified => 304,
        HttpStatus::UseProxy => 305,
        HttpStatus::TemporaryRedirect => 307,
        HttpStatus::PermanentRedirect => 308,
        HttpStatus::BadRequest => 400,
        HttpStatus::Unauthorized => 401,
        HttpStatus::PaymentRequired => 402,
        HttpStatus::Forbidden => 403,
        HttpStatus::NotFound => 404,
        HttpStatus::MethodNotAllowed => 405,
        HttpStatus::NotAcceptable => 406,
        HttpStatus::ProxyAuthenticationRequired => 407,
        HttpStatus::RequestTimeout => 408,
        HttpStatus::Conflict => 409,
        HttpStatus::Gone => 410,
        HttpStatus::LengthRequired => 411,
        HttpStatus::PreconditionFailed => 412,
        HttpStatus::PayloadTooLarge => 413,
        HttpStatus::UriTooLong => 414,
        HttpStatus::UnsupportedMediaType => 415,
        HttpStatus::RangeNotSatisfiable => 416,
        HttpStatus::ExpectationFailed => 417,
        HttpStatus::ImATeapot => 418,
        HttpStatus::MisdirectedRequest => 421,
        HttpStatus::UnprocessableEntity => 422,
        HttpStatus::Locked => 423,
        HttpStatus::FailedDependency => 424,
        HttpStatus::TooEarly => 425,
        HttpStatus::UpgradeRequired => 426,
        HttpStatus::PreconditionRequired => 428,
        HttpStatus::TooManyRequests => 429,
        HttpStatus::RequestHeaderFieldsTooLarge => 431,
        HttpStatus::UnavailableForLegalReasons => 451,
        HttpStatus::InternalServerError => 500,
        HttpStatus::NotImplemented => 501,
        HttpStatus::BadGateway => 502,
        HttpStatus::ServiceUnavailable => 503,
        HttpStatus::GatewayTimeout => 504,
        HttpStatus::HttpVersionNotSupported => 505,
        HttpStatus::VariantAlsoNegotiates => 506,
        HttpStatus::InsufficientStorage => 507,
        HttpStatus::LoopDetected => 508,
        HttpStatus::NotExtended => 510,
        HttpStatus::NetworkAuthenticationRequired => 511,
    }
}

/// The reason phrase of a status.
pub open spec fn reason_spec(s: HttpStatus) -> Seq<char> {
    match s {
        HttpStatus::Continue => "Continue"@,
        HttpStatus::SwitchingProtocols => "Switching Protocols"@,
        HttpStatus::Processing => "Processing"@,
        HttpStatus::EarlyHints => "Early Hints"@,
        HttpStatus::OK => "OK"@,
        HttpStatus::Created => "Created"@,
        HttpStatus::Accepted => "Accepted"@,
        HttpStatus::NonAuthoritativeInformation => "Non-Authoritative Information"@,
        HttpStatus::NoContent => "No Content"@,
        HttpStatus::ResetContent => "Reset Content"@,
        HttpStatus::PartialContent => "Partial Content"@,
        HttpStatus::MultipleChoices => "Multiple Choices"@,
        HttpStatus::MovedPermanently => "Moved Permanently"@,
        HttpStatus::Found => "Found"@,
        HttpStatus::SeeOther => "See Other"@,
        HttpStatus::NotModified => "Not Modified"@,
        HttpStatus::UseProxy => "Use Proxy"@,
        HttpStatus::TemporaryRedirect => "Temporary Redirect"@,
        HttpStatus::PermanentRedirect => "Permanent Redirect"@,
        HttpStatus::BadRequest => "Bad Request"@,
        HttpStatus::Unauthorized => "Unauthorized"@,
        HttpStatus::PaymentRequired => "Payment Required"@,
        HttpStatus::Forbidden => "Forbidden"@,
        HttpStatus::NotFound => "Not Found"@,
        HttpStatus::MethodNotAllowed => "Method Not Allowed"@,
        HttpStatus::NotAcceptable => "Not Acceptable"@,
        HttpStatus::ProxyAuthenticationRequired => "Proxy Authentication Required"@,
        HttpStatus::RequestTimeout => "Request Timeout"@,
        HttpStatus::Conflict => "Conflict"@,
        HttpStatus::Gone => "Gone"@,
        HttpStatus::LengthRequired => "Length Required"@,
        HttpStatus::PreconditionFailed => "Precondition Failed"@,
        HttpStatus::PayloadTooLarge => "Payload Too Large"@,
        HttpStatus::UriTooLong => "URI Too Long"@,
        HttpStatus::UnsupportedMediaType => "Unsupported Media Type"@,
        HttpStatus::RangeNotSatisfiable => "Range Not Satisfiable"@,
        HttpStatus::ExpectationFailed => "Expectation Failed"@,
        HttpStatus::ImATeapot => "I'm a teapot"@,
        HttpStatus::MisdirectedRequest => "Misdirected Request"@,
        HttpStatus::UnprocessableEntity => "Unprocessable Entity"@,
        HttpStatus::Locked => "Locked"@,
        HttpStatus::FailedDependency => "Failed Dependency"@,
        HttpStatus::TooEarly => "Too Early"@,
        HttpStatus::UpgradeRequired => "Upgrade Required"@,
        HttpStatus::PreconditionRequired => "Precondition Required"@,
        HttpStatus::TooManyRequests => "Too Many Requests"@,
        HttpStatus::RequestHeaderFieldsTooLarge => "Request Header Fields Too Large"@,
        HttpStatus::UnavailableForLegalReasons => "Unavailable For Legal Reasons"@,
        HttpStatus::InternalServerError => "Internal Server Error"@,
        HttpStatus::NotImplemented => "Not Implemented"@,
        HttpStatus::BadGateway => "Bad Gateway"@,
        HttpStatus::ServiceUnavailable => "Service Unavailable"@,
        HttpStatus::GatewayTimeout => "Gateway Timeout"@,
        HttpStatus::HttpVersionNotSupported => "HTTP Version Not Supported"@,
        HttpStatus::VariantAlsoNegotiates => "Variant Also Negotiates"@,
        HttpStatus::InsufficientStorage => "Insufficient Storage"@,
        HttpStatus::LoopDetected => "Loop Detected"@,
        HttpStatus::NotExtended => "Not Extended"@,
        HttpStatus::NetworkAuthenticationRequired => "Network Authentication Required"@,
    }
}

/// The status with a given code, if there is one.
pub open spec fn status_of(code: u16) -> Option<HttpStatus> {
    match code {
        100 => Some(HttpStatus::Continue),
        101 => Some(HttpStatus::SwitchingProtocols),
        102 => Some(HttpStatus::Processing),
        103 => Some(HttpStatus::EarlyHints),
        200 => Some(HttpStatus::OK),
        201 => Some(HttpStatus::Created),
        202 => Some(HttpStatus::Accepted),
        203 => Some(HttpStatus::NonAuthoritativeInformation),
        204 => Some(HttpStatus::NoContent),
        205 => Some(HttpStatus::ResetContent),
        206 => Some(HttpStatus::PartialContent),
        300 => Some(HttpStatus::MultipleChoices),
        301 => Some(HttpStatus::MovedPermanently),
        302 => Some(HttpStatus::Found),
        303 => Some(HttpStatus::SeeOther),
        304 => Some(HttpStatus::NotModified),
        305 => Some(HttpStatus::UseProxy),
        307 => Some(HttpStatus::TemporaryRedirect),
        308 => Some(HttpStatus::PermanentRedirect),
        400 => Some(HttpStatus::BadRequest),
        401 => Some(HttpStatus::Unauthorized),
        402 => Some(HttpStatus::PaymentRequired),
        403 => Some(HttpStatus::Forbidden),
        404 => Some(HttpStatus::NotFound),
        405 => Some(HttpStatus::MethodNotAllowed),
        406 => Some(HttpStatus::NotAcceptable),
        407 => Some(HttpStatus::ProxyAuthenticationRequired),
        408 => Some(HttpStatus::RequestTimeout),
        409 => Some(HttpStatus::Conflict),
        410 => Some(HttpStatus::Gone),
        411 => Some(HttpStatus::LengthRequired),
        412 => Some(HttpStatus::PreconditionFailed),
        413 => Some(HttpStatus::PayloadTooLarge),
        414 => Some(HttpStatus::UriTooLong),
        415 => Some(HttpStatus::UnsupportedMediaType),
        416 => Some(HttpStatus::RangeNotSatisfiable),
        417 => Some(HttpStatus::ExpectationFailed),
        418 => Some(HttpStatus::ImATeapot),
        421 => Some(HttpStatus::MisdirectedRequest),
        422 => Some(HttpStatus::UnprocessableEntity),
        423 => Some(HttpStatus::Locked),
        424 => Some(HttpStatus::FailedDependency),
        425 => Some(HttpStatus::TooEarly),
        426 => Some(HttpStatus::UpgradeRequired),
        428 => Some(HttpStatus::PreconditionRequired),
        429 => Some(HttpStatus::TooManyRequests),
        431 => Some(HttpStatus::RequestHeaderFieldsTooLarge),
        451 => Some(HttpStatus::UnavailableForLegalReasons),
        500 => Some(HttpStatus::InternalServerError),
        501 => Some(HttpStatus::NotImplemented),
        502 => Some(HttpStatus::BadGateway),
        503 => Some(HttpStatus::ServiceUnavailable),
        504 => Some(HttpStatus::GatewayTimeout),
        505 => Some(HttpStatus::HttpVersionNotSupported),
        506 => Some(HttpStatus::VariantAlsoNegotiates),
        507 => Some(HttpStatus::InsufficientStorage),
        508 => Some(HttpStatus::LoopDetected),
        510 => Some(HttpStatus::NotExtended),
        511 => Some(HttpStatus::NetworkAuthenticationRequired),
        _ => None,
    }
}

/// The series of a code: its first digit, for codes 100 to 599.
pub open spec fn series_of(code: u16) -> Option<Series> {
    if 100 <= code <= 199 {
        Some(Series::Informational)
    } else if 200 <= code <= 299 {
        Some(Series::Success)
    } else if 300 <= code <= 399 {
        Some(Series::Redirection)
    } else if 400 <= code <= 499 {
        Some(Series::ClientError)
    } else if 500 <= code <= 599 {
        Some(Series::ServerError)
    } else {
        None
    }
}

/// The decimal digits of `n`.
pub open spec fn decimal(n: nat) -> Seq<char>
    decreases n,
{
    if n < 10 {
        seq![digit_char(n)]
    } else {
        decimal(n / 10).push(digit_char(n % 10))
    }
}

pub open spec fn digit_char(d: nat) -> char {
    if d == 0 {
        '0'
    } else if d == 1 {
        '1'
    } else if d == 2 {
        '2'
    } else if d == 3 {
        '3'
    } else if d == 4 {
        '4'
    } else if d == 5 {
        '5'
    } else if d == 6 {
        '6'
    } else if d == 7 {
        '7'
    } else if d == 8 {
        '8'
    } else {
        '9'
    }
}

fn digit_str(d: u16) -> (r: &'static str)
    requires
        d < 10,
    ensures
        r@ == seq![digit_char(d as nat)],
{
    proof {
        reveal_strlit("0");
        reveal_strlit("1");
        reveal_strlit("2");
        reveal_strlit("3");
        reveal_strlit("4");
        reveal_strlit("5");
        reveal_strlit("6");
        reveal_strlit("7");
        reveal_strlit("8");
        reveal_strlit("9");
    }
    if d == 0 {
        "0"
    } else if d == 1 {
        "1"
    } else if d == 2 {
        "2"
    } else if d == 3 {
        "3"
    } else if d == 4 {
        "4"
    } else if d == 5 {
        "5"
    } else if d == 6 {
        "6"
    } else if d == 7 {
        "7"
    } else if d == 8 {
        "8"
    } else {
        "9"
    }
}

/// Appends the decimal digits of `n`.
fn push_decimal(s: &mut String, n: u16)
    ensures
        final(s)@ == old(s)@ + decimal(n as nat),
    decreases n,
{
    let ghost start = s@;
    if n >= 10 {
        push_decimal(s, n / 10);
    }
    s.append(digit_str(n % 10));
    assert(s@ =~= start + decimal(n as nat));
}

impl HttpStatus {
    /// The numeric code.
    pub fn value(&self) -> (r: u16)
        ensures
            r == status_code(*self),
    {
        match self {

            HttpStatus::Continue => 100,
            HttpStatus::SwitchingProtocols => 101,
            HttpStatus::Processing => 102,
            HttpStatus::EarlyHints => 103,
            HttpStatus::OK => 200,
            HttpStatus::Created => 201,
            HttpStatus::Accepted => 202,
            HttpStatus::NonAuthoritativeInformation => 203,
            HttpStatus::NoContent => 204,
            HttpStatus::ResetContent => 205,
            HttpStatus::PartialContent => 206,
            HttpStatus::MultipleChoices => 300,
            HttpStatus::MovedPermanently => 301,
            HttpStatus::Found => 302,
            HttpStatus::SeeOther => 303,
            HttpStatus::NotModified => 304,
            HttpStatus::UseProxy => 305,
            HttpStatus::TemporaryRedirect => 307,
            HttpStatus::PermanentRedirect => 308,
            HttpStatus::BadRequest => 400,
            HttpStatus::Unauthorized => 401,
            HttpStatus::PaymentRequired => 402,
            HttpStatus::Forbidden => 403,
            HttpStatus::NotFound => 404,
            HttpStatus::MethodNotAllowed => 405,
            HttpStatus::NotAcceptable => 406,
            HttpStatus::ProxyAuthenticationRequired => 407,
            HttpStatus::RequestTimeout => 408,
            HttpStatus::Conflict => 409,
            HttpStatus::Gone => 410,
            HttpStatus::LengthRequired => 411,
            HttpStatus::PreconditionFailed => 412,
            HttpStatus::PayloadTooLarge => 413,
            HttpStatus::UriTooLong => 414,
            HttpStatus::UnsupportedMediaType => 415,
            HttpStatus::RangeNotSatisfiable => 416,
            HttpStatus::ExpectationFailed => 417,
            HttpStatus::ImATeapot => 418,
            HttpStatus::MisdirectedRequest => 421,
            HttpStatus::UnprocessableEntity => 422,
            HttpStatus::Locked => 423,
            HttpStatus::FailedDependency => 424,
            HttpStatus::TooEarly => 425,
            HttpStatus::UpgradeRequired => 426,
            HttpStatus::PreconditionRequired => 428,
            HttpStatus::TooManyRequests => 429,
            HttpStatus::RequestHeaderFieldsTooLarge => 431,
            HttpStatus::UnavailableForLegalReasons => 451,
            HttpStatus::InternalServerError => 500,
            HttpStatus::NotImplemented => 501,
            HttpStatus::BadGateway => 502,
            HttpStatus::ServiceUnavailable => 503,
            HttpStatus::GatewayTimeout => 504,
            HttpStatus::HttpVersionNotSupported => 505,
            HttpStatus::VariantAlsoNegotiates => 506,
            HttpStatus::InsufficientStorage => 507,
            HttpStatus::LoopDetected => 508,
            HttpStatus::NotExtended => 510,
            HttpStatus::NetworkAuthenticationRequired => 511,
        }
    }

    /// The reason phrase.
    pub fn reason_phrase(&self) -> (r: &'static str)
        ensures
            r@ == reason_spec(*self),
    {
        match self {
            HttpStatus::Continue => "Continue",
            HttpStatus::SwitchingProtocols => "Switching Protocols",
            HttpStatus::Processing => "Processing",
            HttpStatus::EarlyHints => "Early Hints",
            HttpStatus::OK => "OK",
            HttpStatus::Created => "Created",
            HttpStatus::Accepted => "Accepted",
            HttpStatus::NonAuthoritativeInformation => "Non-Authoritative Information",
            HttpStatus::NoContent => "No Content",
            HttpStatus::ResetContent => "Reset Content",
            HttpStatus::PartialContent => "Partial Content",
            HttpStatus::MultipleChoices => "Multiple Choices",
            HttpStatus::MovedPermanently => "Moved Permanently",
            HttpStatus::Found => "Found",
            HttpStatus::SeeOther => "See Other",
            HttpStatus::NotModified => "Not Modified",
            HttpStatus::UseProxy => "Use Proxy",
            HttpStatus::TemporaryRedirect => "Temporary Redirect",
            HttpStatus::PermanentRedirect => "Permanent Redirect",
            HttpStatus::BadRequest => "Bad Request",
            HttpStatus::Unauthorized => "Unauthorized",
            HttpStatus::PaymentRequired => "Payment Required",
            HttpStatus::Forbidden => "Forbidden",
            HttpStatus::NotFound => "Not Found",
            HttpStatus::MethodNotAllowed => "Method Not Allowed",
            HttpStatus::NotAcceptable => "Not Acceptable",
            HttpStatus::ProxyAuthenticationRequired => "Proxy Authentication Required",
            HttpStatus::RequestTimeout => "Request Timeout",
            HttpStatus::Conflict => "Conflict",
            HttpStatus::Gone => "Gone",
            HttpStatus::LengthRequired => "Length Required",
            HttpStatus::PreconditionFailed => "Precondition Failed",
            HttpStatus::PayloadTooLarge => "Payload Too Large",
            HttpStatus::UriTooLong => "URI Too Long",
            HttpStatus::UnsupportedMediaType => "Unsupported Media Type",
            HttpStatus::RangeNotSatisfiable => "Range Not Satisfiable",
            HttpStatus::ExpectationFailed => "Expectation Failed",
            HttpStatus::ImATeapot => "I'm a teapot",
            HttpStatus::MisdirectedRequest => "Misdirected Request",
            HttpStatus::UnprocessableEntity => "Unprocessable Entity",
            HttpStatus::Locked => "Locked",
            HttpStatus::FailedDependency => "Failed Dependency",
            HttpStatus::TooEarly => "Too Early",
            HttpStatus::UpgradeRequired => "Upgrade Required",
            HttpStatus::PreconditionRequired => "Precondition Required",
            HttpStatus::TooManyRequests => "Too Many Requests",
            HttpStatus::RequestHeaderFieldsTooLarge => "Request Header Fields Too Large",
            HttpStatus::UnavailableForLegalReasons => "Unavailable For Legal Reasons",
            HttpStatus::InternalServerError => "Internal Server Error",
            HttpStatus::NotImplemented => "Not Implemented",
            HttpStatus::BadGateway => "Bad Gateway",
            HttpStatus::ServiceUnavailable => "Service Unavailable",
            HttpStatus::GatewayTimeout => "Gateway Timeout",
            HttpStatus::HttpVersionNotSupported => "HTTP Version Not Supported",
            HttpStatus::VariantAlsoNegotiates => "Variant Also Negotiates",
            HttpStatus::InsufficientStorage => "Insufficient Storage",
            HttpStatus::LoopDetected => "Loop Detected",
            HttpStatus::NotExtended => "Not Extended",
            HttpStatus::NetworkAuthenticationRequired => "Network Authentication Required",
        }
    }

    /// The series, by the code's first digit.
    pub fn series(&self) -> (r: Result<Series, &'static str>)
        ensures
            match series_of(status_code(*self)) {
                Some(x) => r == Ok::<Series, &'static str>(x),
                None => r is Err,
            },
    {
        let code = self.value();
        if 100 <= code && code <= 199 {
            Ok(Series::Informational)
        } else if 200 <= code && code <= 299 {
            Ok(Series::Success)
        } else if 300 <= code && code <= 399 {
            Ok(Series::Redirection)
        } else if 400 <= code && code <= 499 {
            Ok(Series::ClientError)
        } else if 500 <= code && code <= 599 {
            Ok(Series::ServerError)
        } else {
            Err("Invalid status code")
        }
    }

    /// Whether the code is 1xx.
    pub fn is_informational(&self) -> (r: bool)
        ensures
            r == (series_of(status_code(*self)) == Some(Series::Informational)),
    {
        matches!(self.series(), Ok(Series::Informational))
    }

    /// Whether the code is 2xx.
    pub fn is_success(&self) -> (r: bool)
        ensures
            r == (series_of(status_code(*self)) == Some(Series::Success)),
    {
        matches!(self.series(), Ok(Series::Success))
    }

    /// Whether the code is 3xx.
    pub fn is_redirection(&self) -> (r: bool)
        ensures
            r == (series_of(status_code(*self)) == Some(Series::Redirection)),
    {
        matches!(self.series(), Ok(Series::Redirection))
    }

    /// Whether the code is 4xx.
    pub fn is_4xx_client_error(&self) -> (r: bool)
        ensures
            r == (series_of(status_code(*self)) == Some(Series::ClientError)),
    {
        matches!(self.series(), Ok(Series::ClientError))
    }

    /// Whether the code is 5xx.
    pub fn is_5xx_server_error(&self) -> (r: bool)
        ensures
            r == (series_of(status_code(*self)) == Some(Series::ServerError)),
    {
        matches!(self.series(), Ok(Series::ServerError))
    }

    /// Whether the code is 4xx or 5xx.
    pub fn is_error(&self) -> (r: bool)
        ensures
            r == (400 <= status_code(*self) <= 599),
    {
        self.is_4xx_client_error() || self.is_5xx_server_error()
    }

    /// The status of a code, or a message naming the code.
    pub fn value_of(code: u16) -> (r: Result<HttpStatus, String>)
        ensures
            match status_of(code) {
                Some(s) => r == Ok::<HttpStatus, String>(s),
                None => r is Err,
            },
            match r {
                Ok(s) => status_code(s) == code,
                Err(m) => (forall|s: HttpStatus| status_code(s) != code) && m@ == "No HttpStatus for code "@
                    + decimal(code as nat),
            },
    {
        match Self::resolve(code) {
            Some(status) => Ok(status),
            None => {
                let mut message = "No HttpStatus for code ".to_string();
                push_decimal(&mut message, code);
                Err(message)
            },
        }
    }

    /// The status of a code, if there is one.
    pub fn resolve(code: u16) -> (r: Option<HttpStatus>)
        ensures
            r == status_of(code),
            match r {
                Some(s) => status_code(s) == code,
                None => forall|s: HttpStatus| status_code(s) != code,
            },
    {
        match code {

            100 => Some(HttpStatus::Continue),
            101 => Some(HttpStatus::SwitchingProtocols),
            102 => Some(HttpStatus::Processing),
            103 => Some(HttpStatus::EarlyHints),
            200 => Some(HttpStatus::OK),
            201 => Some(HttpStatus::Created),
            202 => Some(HttpStatus::Accepted),
            203 => Some(HttpStatus::NonAuthoritativeInformation),
            204 => Some(HttpStatus::NoContent),
            205 => Some(HttpStatus::ResetContent),
            206 => Some(HttpStatus::PartialContent),
            300 => Some(HttpStatus::MultipleChoices),
            301 => Some(HttpStatus::MovedPermanently),
            302 => Some(HttpStatus::Found),
            303 => Some(HttpStatus::SeeOther),
            304 => Some(HttpStatus::NotModified),
            305 => Some(HttpStatus::UseProxy),
            307 => Some(HttpStatus::TemporaryRedirect),
            308 => Some(HttpStatus::PermanentRedirect),
            400 => Some(HttpStatus::BadRequest),
            401 => Some(HttpStatus::Unauthorized),
            402 => Some(HttpStatus::PaymentRequired),
            403 => Some(HttpStatus::Forbidden),
            404 => Some(HttpStatus::NotFound),
            405 => Some(HttpStatus::MethodNotAllowed),
            406 => Some(HttpStatus::NotAcceptable),
            407 => Some(HttpStatus::ProxyAuthenticationRequired),
            408 => Some(HttpStatus::RequestTimeout),
            409 => Some(HttpStatus::Conflict),
            410 => Some(HttpStatus::Gone),
            411 => Some(HttpStatus::LengthRequired),
            412 => Some(HttpStatus::PreconditionFailed),
            413 => Some(HttpStatus::PayloadTooLarge),
            414 => Some(HttpStatus::UriTooLong),
            415 => Some(HttpStatus::UnsupportedMediaType),
            416 => Some(HttpStatus::RangeNotSatisfiable),
            417 => Some(HttpStatus::ExpectationFailed),
            418 => Some(HttpStatus::ImATeapot),
            421 => Some(HttpStatus::MisdirectedRequest),
            422 => Some(HttpStatus::UnprocessableEntity),
            423 => Some(HttpStatus::Locked),
            424 => Some(HttpStatus::FailedDependency),
            425 => Some(HttpStatus::TooEarly),
            426 => Some(HttpStatus::UpgradeRequired),
            428 => Some(HttpStatus::PreconditionRequired),
            429 => Some(HttpStatus::TooManyRequests),
            431 => Some(HttpStatus::RequestHeaderFieldsTooLarge),
            451 => Some(HttpStatus::UnavailableForLegalReasons),
            500 => Some(HttpStatus::InternalServerError),
            501 => Some(HttpStatus::NotImplemented),
            502 => Some(HttpStatus::BadGateway),
            503 => Some(HttpStatus::ServiceUnavailable),
            504 => Some(HttpStatus::GatewayTimeout),
            505 => Some(HttpStatus::HttpVersionNotSupported),
            506 => Some(HttpStatus::VariantAlsoNegotiates),
            507 => Some(HttpStatus::InsufficientStorage),
            508 => Some(HttpStatus::LoopDetected),
            510 => Some(HttpStatus::NotExtended),
            511 => Some(HttpStatus::NetworkAuthenticationRequired),
            _ => None,
        }
    }
}

} // verus!
