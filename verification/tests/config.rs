use cliant::config::{
    cookie_header_value, http_version_unsupported, parse_request_headers, parse_url,
    CliantDirConfig, HttpClientConfig, HttpConfig, LocalFsBuilder, RetryArgs, TransportType,
};
use cliant::text::same_text;
use cliant::errors::DomainError;

fn pairs(list: &[(&str, &str)]) -> Vec<(String, String)> {
    list.iter().map(|(a, b)| (a.to_string(), b.to_string())).collect()
}

#[test]
fn request_headers_are_read_as_pairs() {
    assert_eq!(
        parse_request_headers("name:johndoe,age:23"),
        pairs(&[("name", "johndoe"), ("age", "23")])
    );
    assert_eq!(
        parse_request_headers("  Accept : text/html , X-Time: 10:30:00 ,"),
        pairs(&[("Accept", "text/html"), ("X-Time", "10:30:00")])
    );
    assert_eq!(parse_request_headers("novalue,:,a:"), pairs(&[("", ""), ("a", "")]));
    assert!(parse_request_headers("").is_empty());
    assert!(parse_request_headers(",,,").is_empty());
}

#[test]
fn only_one_http_version_is_spoken() {
    assert!(!http_version_unsupported(&None));
    assert!(!http_version_unsupported(&Some("1.1".to_string())));
    assert!(http_version_unsupported(&Some("2".to_string())));
    assert!(http_version_unsupported(&Some("1.10".to_string())));
    assert!(http_version_unsupported(&Some("".to_string())));
    assert!(same_text("abc", "abc"));
    assert!(!same_text("abc", "abd"));
    assert!(!same_text("abc", "ab"));
}

#[test]
fn a_url_without_scheme_gets_https() {
    assert_eq!(parse_url("example.com/file.zip").unwrap(), "https://example.com/file.zip");
    assert_eq!(parse_url("http://example.com").unwrap(), "http://example.com/");
    assert_eq!(parse_url("https://example.com/a b").unwrap(), "https://example.com/a%20b");
    assert_eq!(parse_url("ftp://example.com/x").unwrap(), "https://ftp//example.com/x");
    assert!(matches!(parse_url(""), Err(DomainError::ValidateError(_))));
    assert!(matches!(parse_url("http://"), Err(DomainError::ValidateError(_))));
}

#[test]
fn the_local_writer_needs_path_and_root() {
    let built = LocalFsBuilder::new()
        .path("non_existent.txt".to_string())
        .root_path("/home/val/Documents/".to_string())
        .resolve()
        .unwrap();
    assert_eq!(built, ("/home/val/Documents/".to_string(), "non_existent.txt".to_string()));
    assert!(matches!(LocalFsBuilder::new().resolve(), Err(DomainError::ParseError(_))));
    assert!(matches!(
        LocalFsBuilder::new().path("a".to_string()).resolve(),
        Err(DomainError::ParseError(m)) if m == "Root directory must be provided."
    ));
    assert!(matches!(
        LocalFsBuilder::new().root_path("a".to_string()).resolve(),
        Err(DomainError::ParseError(m)) if m == "Path to file must be provided."
    ));
}

#[test]
fn defaults_are_as_documented() {
    let c = HttpConfig::default();
    assert_eq!(c.timeout, 60);
    assert_eq!(c.multipart_part_size, Some(256 * 1024));
    assert!(c.username.is_none() && c.proxy_url.is_none() && c.http_version.is_none());
    assert_eq!(RetryArgs::default(), RetryArgs::new(10, 10));
    assert_eq!(TransportType::Http, TransportType::Http);
    assert_eq!(CliantDirConfig::new(Some("/tmp/.cliant".to_string())).cache_dir, Some("/tmp/.cliant".to_string()));
}

#[test]
fn test_config_to_client() {
    let config = HttpClientConfig::new(None, None, None, None, None, None, None, None);
    assert_eq!(config.timeout_secs(), 60);
    assert!(config.max_redirects.is_none());
    let config = HttpClientConfig::new(
        Some("u".to_string()),
        Some("p".to_string()),
        Some(3),
        Some(5),
        None,
        Some("a:b".to_string()),
        None,
        Some("2".to_string()),
    );
    assert_eq!(config.timeout_secs(), 5);
    assert_eq!(config.max_redirects, Some(3));
    assert_eq!(config.username.as_deref(), Some("u"));
}

#[test]
fn a_cookie_string_becomes_a_header_value() {
    assert_eq!(cookie_header_value("session=abc123"), Some("session=abc123".to_string()));
    assert_eq!(cookie_header_value("  a = b ; Path=/x; HttpOnly"), Some("a=b; HttpOnly; Path=/x".to_string()));
    assert_eq!(cookie_header_value("a=b; Max-Age=-5"), Some("a=b; Max-Age=0".to_string()));
    assert_eq!(cookie_header_value("no pair"), None);
    assert_eq!(cookie_header_value("=value"), None);
    assert_eq!(cookie_header_value(""), None);
}
