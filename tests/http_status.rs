use omiga::http::{HttpStatus, Series};

#[test]
fn test_http_status() {
    let status = HttpStatus::OK;
    assert_eq!(status.value(), 200);
    assert_eq!(status.reason_phrase(), "OK");
    assert_eq!(status.series(), Ok(Series::Success));
}

#[test]
fn test_http_status_reason_phrase() {
    assert_eq!(HttpStatus::Processing.reason_phrase(), "Processing");
    assert_eq!(HttpStatus::OK.reason_phrase(), "OK");
    assert_eq!(HttpStatus::Found.reason_phrase(), "Found");
    assert_eq!(HttpStatus::BadRequest.reason_phrase(), "Bad Request");
    assert_eq!(
        HttpStatus::InternalServerError.reason_phrase(),
        "Internal Server Error"
    );
}

#[test]
fn test_http_status_series() {
    assert_eq!(HttpStatus::Processing.series(), Ok(Series::Informational));
    assert_eq!(HttpStatus::OK.series(), Ok(Series::Success));
    assert_eq!(HttpStatus::Found.series(), Ok(Series::Redirection));
    assert_eq!(HttpStatus::BadRequest.series(), Ok(Series::ClientError));
    assert_eq!(
        HttpStatus::InternalServerError.series(),
        Ok(Series::ServerError)
    );
}

#[test]
fn test_http_status_is_xxx() {
    let status_ok = HttpStatus::OK;
    assert!(status_ok.is_success());
    assert!(!status_ok.is_redirection());
    assert!(!status_ok.is_4xx_client_error());
    assert!(!status_ok.is_5xx_server_error());
    assert!(!status_ok.is_error());

    let status_bad_request = HttpStatus::BadRequest;
    assert!(!status_bad_request.is_success());
    assert!(!status_bad_request.is_redirection());
    assert!(status_bad_request.is_4xx_client_error());
    assert!(!status_bad_request.is_5xx_server_error());
    assert!(status_bad_request.is_error());

    let status_internal_server_error = HttpStatus::InternalServerError;
    assert!(!status_internal_server_error.is_success());
    assert!(!status_internal_server_error.is_redirection());
    assert!(!status_internal_server_error.is_4xx_client_error());
    assert!(status_internal_server_error.is_5xx_server_error());
    assert!(status_internal_server_error.is_error());
}

#[test]
fn test_http_status_value_of() {
    assert_eq!(HttpStatus::value_of(200), Ok(HttpStatus::OK));
    assert_eq!(HttpStatus::value_of(400), Ok(HttpStatus::BadRequest));
    assert_eq!(HttpStatus::value_of(404), Ok(HttpStatus::NotFound));
    assert_eq!(
        HttpStatus::value_of(500),
        Ok(HttpStatus::InternalServerError)
    );
    assert_eq!(HttpStatus::value_of(502), Ok(HttpStatus::BadGateway));
    assert_eq!(HttpStatus::value_of(504), Ok(HttpStatus::GatewayTimeout));

    assert_eq!(HttpStatus::resolve(200), Some(HttpStatus::OK));
    assert_eq!(HttpStatus::resolve(400), Some(HttpStatus::BadRequest));
    assert_eq!(HttpStatus::resolve(404), Some(HttpStatus::NotFound));
    assert_eq!(
        HttpStatus::resolve(500),
        Some(HttpStatus::InternalServerError)
    );
    assert_eq!(HttpStatus::resolve(502), Some(HttpStatus::BadGateway));
    assert_eq!(HttpStatus::resolve(504), Some(HttpStatus::GatewayTimeout));

    assert!(HttpStatus::value_of(600).is_err());
    assert!(HttpStatus::resolve(600).is_none());
}

#[test]
fn http_status_unknown_code_message() {
    assert_eq!(
        HttpStatus::value_of(600),
        Err("No HttpStatus for code 600".to_string())
    );
    assert_eq!(
        HttpStatus::value_of(7),
        Err("No HttpStatus for code 7".to_string())
    );
    assert_eq!(
        HttpStatus::value_of(65535),
        Err("No HttpStatus for code 65535".to_string())
    );
}

#[test]
fn http_status_codes_round_trip() {
    for code in 0u16..=700 {
        if let Some(status) = HttpStatus::resolve(code) {
            assert_eq!(status.value(), code);
        }
    }
    assert_eq!(HttpStatus::ImATeapot.value(), 418);
    assert_eq!(HttpStatus::ImATeapot.reason_phrase(), "I'm a teapot");
    assert!(HttpStatus::resolve(306).is_none());
    assert!(HttpStatus::Continue.is_informational());
    assert!(HttpStatus::NetworkAuthenticationRequired.is_error());
}
