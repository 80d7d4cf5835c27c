use cloudflare_access_webhook_redirect::converter::ActixToReqwestConverter;
use cloudflare_access_webhook_redirect::converter::ConverterError;
use cloudflare_access_webhook_redirect::converter::Header;
use cloudflare_access_webhook_redirect::converter::ReqwestToActixConverter;

fn make_headers(values: Vec<(&str, &str)>) -> Vec<Header> {
    values
        .into_iter()
        .map(|(name, value)| Header {
            name: name.to_string(),
            value: value.as_bytes().to_vec(),
        })
        .collect()
}

#[test]
fn test_convert_headers_invalid_header() {
    let headers = make_headers(vec![("Host", "localhost")]);

    let converted_headers = ActixToReqwestConverter::convert_headers(headers, 0);

    assert!(converted_headers.is_empty());
}

#[test]
fn test_convert_headers() {
    let headers = make_headers(vec![("test", "value"), ("host", "localhost")]);

    let converted_headers = ActixToReqwestConverter::convert_headers(headers, 0);

    assert_eq!(converted_headers.len(), 1);
    assert_eq!(converted_headers[0].name, "test");
    assert_eq!(converted_headers[0].value, b"value".to_vec());
}

#[test]
fn test_convert_headers_drops_invalid_value() {
    let headers = make_headers(vec![("test", "bad\nvalue"), ("other", "fine")]);

    let converted_headers = ActixToReqwestConverter::convert_headers(headers, 0);

    assert_eq!(converted_headers.len(), 1);
    assert_eq!(converted_headers[0].name, "other");
}

#[test]
fn test_is_valid_header_name() {
    assert!(!ActixToReqwestConverter::is_valid_header_name("host"));
    assert!(!ActixToReqwestConverter::is_valid_header_name("Host"));
    assert!(!ActixToReqwestConverter::is_valid_header_name("HOST"));
    assert!(ActixToReqwestConverter::is_valid_header_name("content-type"));
}

#[test]
fn test_convert_body() {
    let payload: Vec<Result<Vec<u8>, String>> =
        vec![Ok(b"Hello, ".to_vec()), Ok(b"world".to_vec()), Ok(b"!".to_vec())];

    let body = ActixToReqwestConverter::convert_body(&payload).unwrap();
    assert_eq!(body, b"Hello, world!".to_vec());
}

#[test]
fn test_convert_body_empty() {
    let payload: Vec<Result<Vec<u8>, String>> = Vec::new();

    let body = ActixToReqwestConverter::convert_body(&payload).unwrap();
    assert!(body.is_empty());
}

#[test]
fn test_convert_body_read_error() {
    let payload: Vec<Result<Vec<u8>, String>> =
        vec![Ok(b"Hello".to_vec()), Err("connection reset".to_string())];

    let result = ActixToReqwestConverter::convert_body(&payload);
    match result {
        Err(ConverterError::Payload(message)) => assert_eq!(message, "connection reset"),
        other => panic!("Expected a payload error, got: {:?}", other),
    }
}

#[test]
fn test_convert_status_code() {
    let status_code = 200u16;
    let actix_status_code = ReqwestToActixConverter::convert_status_code(status_code).unwrap();

    assert_eq!(actix_status_code, 200u16);
}

#[test]
fn test_convert_status_code_invalid() {
    let result = ReqwestToActixConverter::convert_status_code(99);
    match result {
        Err(ConverterError::InvalidStatusCode(code)) => assert_eq!(code, 99),
        other => panic!("Expected an invalid status code error, got: {:?}", other),
    }

    assert!(ReqwestToActixConverter::convert_status_code(1000).is_err());
    assert!(ReqwestToActixConverter::convert_status_code(100).is_ok());
    assert!(ReqwestToActixConverter::convert_status_code(999).is_ok());
}

#[test]
fn test_convert_response() {
    let response = ReqwestToActixConverter::convert_response(200, b"foo".to_vec()).unwrap();

    assert_eq!(response.status, 200);
    assert_eq!(response.body, b"foo".to_vec());
}
