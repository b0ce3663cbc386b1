use wordpress_audit::target::{
    check_addresses, is_internal_ip, prepare_target, validate_parsed, IpAddress, TargetUrl,
};
use wordpress_audit::version::normalize_version;
use wordpress_audit::ScannerBuilder;

#[test]
fn parse_valid_url() {
    let target = prepare_target("https://example.com", false);
    assert!(target.is_ok());
}

#[test]
fn parse_invalid_url() {
    let target = prepare_target("not a url", false);
    assert!(target.is_err());
}

#[test]
fn reject_localhost() {
    let result = prepare_target("http://localhost", false);
    assert!(result.is_err());
    assert!(result.unwrap_err().message().contains("localhost"));
}

#[test]
fn refusal_reasons() {
    let e = prepare_target("http://foo.localhost", false).unwrap_err();
    assert_eq!(e.message(), "invalid URL: localhost not allowed");
    let e = prepare_target("ftp://example.com", false).unwrap_err();
    assert_eq!(e.message(), "invalid URL: scheme 'ftp' not allowed (use http or https)");
    let e = prepare_target("file:///etc/passwd", true).unwrap_err();
    assert_eq!(e.message(), "invalid URL: scheme 'file' not allowed (use http or https)");
    let parsed = TargetUrl {
        scheme: "http".to_string(),
        host: None,
        port: None,
        serialized: "http:x".to_string(),
    };
    let e = validate_parsed(parsed.clone(), false).unwrap_err();
    assert_eq!(e.message(), "invalid URL: missing host");
    assert!(validate_parsed(parsed, true).is_ok());
}

#[test]
fn reject_localhost_subdomain() {
    let result = prepare_target("http://foo.localhost", false);
    assert!(result.is_err());
}

#[test]
fn reject_file_scheme() {
    let result = prepare_target("file:///etc/passwd", false);
    assert!(result.is_err());
    assert!(result.unwrap_err().message().contains("scheme"));
}

#[test]
fn reject_ftp_scheme() {
    let result = prepare_target("ftp://example.com", false);
    assert!(result.is_err());
    assert!(result.unwrap_err().message().contains("scheme"));
}

#[test]
fn internal_ip_detection() {
    // Private ranges
    assert!(is_internal_ip(&IpAddress::V4([10, 0, 0, 1])));
    assert!(is_internal_ip(&IpAddress::V4([172, 16, 0, 1])));
    assert!(is_internal_ip(&IpAddress::V4([192, 168, 1, 1])));

    // Loopback
    assert!(is_internal_ip(&IpAddress::V4([127, 0, 0, 1])));

    // Link-local
    assert!(is_internal_ip(&IpAddress::V4([169, 254, 1, 1])));

    // Public IP should pass
    assert!(!is_internal_ip(&IpAddress::V4([8, 8, 8, 8])));
    assert!(!is_internal_ip(&IpAddress::V4([93, 184, 216, 34])));
}

#[test]
fn normalize_semantic_version() {
    assert_eq!(normalize_version("1.2.3"), "1.2.3");
    assert_eq!(normalize_version("22.0.0"), "22.0.0");
    assert_eq!(normalize_version("7.0-alpha"), "7.0-alpha");
}

#[test]
fn normalize_timestamp_version() {
    assert_eq!(normalize_version("1748271784"), "(timestamp:1748271784)");
    assert_eq!(normalize_version("1748268723"), "(timestamp:1748268723)");
}

#[test]
fn normalize_hash_version() {
    assert_eq!(
        normalize_version("569ab5664387d06c16a234c9771d3d57fb15720a"),
        "(hash:569ab56)"
    );
    assert_eq!(normalize_version("abcdef1"), "(hash:abcdef1)");
}

#[test]
fn normalize_date_version() {
    assert_eq!(normalize_version("20200121"), "20200121");
}

#[test]
fn normalize_is_idempotent_on_examples() {
    for raw in [
        "1748271784",
        "569ab5664387d06c16a234c9771d3d57fb15720a",
        "1.2.3",
        "20200121",
        "abcdef1",
        "",
    ] {
        let once = normalize_version(raw);
        assert_eq!(normalize_version(&once), once);
    }
}

#[test]
fn normalize_edge_cases() {
    // Timestamps must start with 1 or 2.
    assert_eq!(normalize_version("3748271784"), "3748271784");
    // Six hex characters are too short for a hash.
    assert_eq!(normalize_version("abcdef"), "abcdef");
    // Eleven digits are no timestamp, and all digits are no hash.
    assert_eq!(normalize_version("17482717840"), "17482717840");
    assert_eq!(normalize_version("ABCDEF12"), "(hash:ABCDEF1)");
}

#[test]
fn public_and_private_targets() {
    assert!(check_addresses(&vec![IpAddress::V4([8, 8, 8, 8])]).is_ok());
    assert!(check_addresses(&vec![]).is_ok());
    for ip in [[10, 1, 2, 3], [172, 31, 0, 1], [192, 168, 0, 1], [127, 0, 0, 1], [169, 254, 169, 254]] {
        let r = check_addresses(&vec![IpAddress::V4([8, 8, 8, 8]), IpAddress::V4(ip)]);
        assert!(r.is_err());
    }
    assert!(!is_internal_ip(&IpAddress::V4([172, 32, 0, 1])));
    assert!(is_internal_ip(&IpAddress::V4([100, 64, 0, 1])));
    assert!(!is_internal_ip(&IpAddress::V4([100, 128, 0, 1])));
    assert!(is_internal_ip(&IpAddress::V4([192, 0, 0, 8])));
    assert!(!is_internal_ip(&IpAddress::V4([192, 0, 2, 1])));
    assert!(is_internal_ip(&IpAddress::V4([255, 255, 255, 255])));
    assert!(is_internal_ip(&IpAddress::V4([0, 0, 0, 0])));
    assert!(is_internal_ip(&IpAddress::V6([0, 0, 0, 0, 0, 0, 0, 1])));
    assert!(is_internal_ip(&IpAddress::V6([0, 0, 0, 0, 0, 0, 0, 0])));
    assert!(is_internal_ip(&IpAddress::V6([0xfd12, 0, 0, 0, 0, 0, 0, 1])));
    assert!(is_internal_ip(&IpAddress::V6([0xfe80, 0, 0, 0, 0, 0, 0, 1])));
    assert!(!is_internal_ip(&IpAddress::V6([0x2001, 0x4860, 0, 0, 0, 0, 0, 0x8888])));
}

#[test]
fn target_parts_and_defaults() {
    let t = prepare_target("example.com", false).unwrap();
    assert_eq!(t.url.scheme, "https");
    assert_eq!(t.url.serialized, "https://example.com/");
    assert!(t.check_addresses);
    assert_eq!(t.socket_address(), Some(("example.com".to_string(), 443)));

    let t = prepare_target("http://example.com:8080/x", false).unwrap();
    assert_eq!(t.socket_address(), Some(("example.com".to_string(), 8080)));

    let t = prepare_target("http://localhost:8080", true).unwrap();
    assert!(!t.check_addresses);
    assert_eq!(t.socket_address(), Some(("localhost".to_string(), 8080)));
}

#[test]
fn builder_applies_allow_private() {
    assert!(ScannerBuilder::new("http://localhost").build().is_err());
    assert!(ScannerBuilder::new("http://localhost").allow_private(true).build().is_ok());
    assert!(ScannerBuilder::new("ftp://localhost").allow_private(true).build().is_err());
}
