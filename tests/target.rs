use minicurl::target::{classify_parsed, is_supported_scheme, validate_url, UrlError};
use minicurl::outside::UrlFault;

#[test]
fn accepts_http_and_https() {
    assert_eq!(validate_url("http://example.com"), Ok(()));
    assert_eq!(validate_url("https://example.com/a?b=c"), Ok(()));
    assert_eq!(validate_url("HTTPS://example.com"), Ok(()));
}

#[test]
fn other_schemes_refused() {
    assert_eq!(validate_url("ftp://example.com"), Err(UrlError::InvalidProtocol));
    assert_eq!(validate_url("file:///etc/hosts"), Err(UrlError::InvalidProtocol));
    assert_eq!(validate_url("mailto:a@b.example"), Err(UrlError::InvalidProtocol));
}

#[test]
fn missing_scheme_refused() {
    assert_eq!(validate_url("example.com"), Err(UrlError::InvalidProtocol));
}

#[test]
fn malformed_ipv6() {
    assert_eq!(validate_url("http://[::1"), Err(UrlError::InvalidIpv6));
}

#[test]
fn malformed_ipv4() {
    assert_eq!(validate_url("http://256.256.256.256/"), Err(UrlError::InvalidIpv4));
}

#[test]
fn malformed_port() {
    assert_eq!(validate_url("http://example.com:99999/"), Err(UrlError::InvalidPort));
}

#[test]
fn classification_of_parse_outcomes() {
    assert_eq!(classify_parsed(&Ok("HtTp".to_string())), Ok(()));
    assert_eq!(classify_parsed(&Ok("gopher".to_string())), Err(UrlError::InvalidProtocol));
    assert_eq!(classify_parsed(&Err(UrlFault::InvalidPort)), Err(UrlError::InvalidPort));
    assert_eq!(classify_parsed(&Err(UrlFault::Other)), Err(UrlError::InvalidProtocol));
    assert!(is_supported_scheme("https"));
    assert!(!is_supported_scheme("httpss"));
}

#[test]
fn url_error_messages() {
    assert_eq!(UrlError::InvalidIpv6.message(), "Error: The URL contains an invalid IPv6 address.");
    assert_eq!(UrlError::InvalidIpv4.message(), "Error: The URL contains an invalid IPv4 address.");
    assert_eq!(UrlError::InvalidPort.message(), "Error: The URL contains an invalid port number.");
    assert_eq!(
        UrlError::InvalidProtocol.message(),
        "Error: The URL does not have a valid base protocol."
    );
}
