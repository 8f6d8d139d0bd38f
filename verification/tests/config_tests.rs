use crypto_dashboard::config::{
    api_key_header, cors_origin, parse_api_base_url, parse_port_number, resolve_port,
    resolve_snapshot_path, resolve_static_dir, upstream_full_path, upstream_url, CorsOrigin,
};

#[test]
fn parse_api_base_url_uses_default_when_empty() {
    let cfg = parse_api_base_url("");
    assert_eq!(cfg.scheme, "https");
    assert_eq!(cfg.host, "api.coingecko.com");
    assert_eq!(cfg.base_path, "/api/v3");
}

#[test]
fn parse_api_base_url_supports_custom_https_path() {
    let cfg = parse_api_base_url("https://example.com/custom/base");
    assert_eq!(cfg.scheme, "https");
    assert_eq!(cfg.host, "example.com");
    assert_eq!(cfg.base_path, "/custom/base");
}

#[test]
fn parse_api_base_url_supports_host_without_path() {
    let cfg = parse_api_base_url("https://api.example.com");
    assert_eq!(cfg.scheme, "https");
    assert_eq!(cfg.host, "api.example.com");
    assert_eq!(cfg.base_path, "");
}

#[test]
fn parse_api_base_url_supports_http_scheme() {
    let cfg = parse_api_base_url("http://localhost:8080/v1");
    assert_eq!(cfg.scheme, "http");
    assert_eq!(cfg.host, "localhost:8080");
    assert_eq!(cfg.base_path, "/v1");
}

#[test]
fn parse_api_base_url_falls_back_to_default_host_when_empty_host() {
    let cfg = parse_api_base_url("https:///v3");
    assert_eq!(cfg.scheme, "https");
    assert_eq!(cfg.host, "api.coingecko.com");
    assert_eq!(cfg.base_path, "/v3");
}

#[test]
fn parse_api_base_url_handles_host_only_input_without_scheme() {
    let cfg = parse_api_base_url("coingecko.example.com");
    assert_eq!(cfg.scheme, "https");
    assert_eq!(cfg.host, "coingecko.example.com");
    assert_eq!(cfg.base_path, "");
}

#[test]
fn parse_api_base_url_handles_path_with_query() {
    let cfg = parse_api_base_url("https://example.com/api/v3?x=1");
    assert_eq!(cfg.scheme, "https");
    assert_eq!(cfg.host, "example.com");
    assert_eq!(cfg.base_path, "/api/v3?x=1");
}

#[test]
fn parse_api_base_url_handles_trailing_slash() {
    let cfg = parse_api_base_url("https://example.com/");
    assert_eq!(cfg.scheme, "https");
    assert_eq!(cfg.host, "example.com");
    assert_eq!(cfg.base_path, "/");
}

#[test]
fn parse_splits_at_first_scheme_separator_and_first_slash() {
    let cfg = parse_api_base_url("ftp://a://b/c/d");
    assert_eq!(cfg.scheme, "ftp");
    assert_eq!(cfg.host, "a:");
    assert_eq!(cfg.base_path, "//b/c/d");
}

#[test]
fn parse_scheme_only_gets_default_host() {
    let cfg = parse_api_base_url("http://");
    assert_eq!(cfg.scheme, "http");
    assert_eq!(cfg.host, "api.coingecko.com");
    assert_eq!(cfg.base_path, "");
}

#[test]
fn parse_handles_non_ascii_text() {
    let cfg = parse_api_base_url("https://bücher.example/ä/ö");
    assert_eq!(cfg.scheme, "https");
    assert_eq!(cfg.host, "bücher.example");
    assert_eq!(cfg.base_path, "/ä/ö");
}

#[test]
fn request_url_extends_configured_root() {
    let root = "https://example.com/custom/base";
    let cfg = parse_api_base_url(root);
    let full = upstream_full_path(&cfg, "/global");
    assert_eq!(full, "/custom/base/global");
    assert_eq!(upstream_url(&cfg, &full), format!("{}{}", root, "/global"));
}

#[test]
fn request_url_for_default_root() {
    let cfg = parse_api_base_url("");
    let full = upstream_full_path(&cfg, "/search/trending");
    assert_eq!(
        upstream_url(&cfg, &full),
        "https://api.coingecko.com/api/v3/search/trending"
    );
}

#[test]
fn path_settings_fall_back_to_defaults() {
    assert_eq!(resolve_snapshot_path(None), "db.json");
    assert_eq!(resolve_snapshot_path(Some("")), "db.json");
    assert_eq!(resolve_snapshot_path(Some("/data/snap.json")), "/data/snap.json");
    assert_eq!(resolve_static_dir(None), "static");
    assert_eq!(resolve_static_dir(Some("")), "static");
    assert_eq!(resolve_static_dir(Some("public")), "public");
}

#[test]
fn port_parsing_follows_u16_parse() {
    assert_eq!(parse_port_number("8080"), Some(8080));
    assert_eq!(parse_port_number("+80"), Some(80));
    assert_eq!(parse_port_number("0065535"), Some(65535));
    assert_eq!(parse_port_number("65536"), None);
    assert_eq!(parse_port_number("99999999999"), None);
    assert_eq!(parse_port_number("+"), None);
    assert_eq!(parse_port_number(""), None);
    assert_eq!(parse_port_number("-1"), None);
    assert_eq!(parse_port_number("80a"), None);
    assert_eq!(parse_port_number(" 80"), None);
    for s in ["0", "1", "443", "+9", "65535", "65536", "x", "++1", "0x10"] {
        assert_eq!(parse_port_number(s), s.parse::<u16>().ok(), "{}", s);
    }
}

#[test]
fn port_defaults_to_8080() {
    assert_eq!(resolve_port(None), 8080);
    assert_eq!(resolve_port(Some("abc")), 8080);
    assert_eq!(resolve_port(Some("3000")), 3000);
}

#[test]
fn api_key_header_needs_a_valid_non_empty_value() {
    assert_eq!(api_key_header(None), None);
    assert_eq!(api_key_header(Some("")), None);
    assert_eq!(api_key_header(Some("CG-abc123")), Some("CG-abc123".to_string()));
    assert_eq!(api_key_header(Some("bad\nkey")), None);
    assert_eq!(api_key_header(Some("tab\tok")), Some("tab\tok".to_string()));
    assert_eq!(api_key_header(Some("del\u{7f}")), None);
    assert_eq!(api_key_header(Some("üml")), Some("üml".to_string()));
}

#[test]
fn cors_origin_choices() {
    assert!(matches!(cors_origin(None), CorsOrigin::AnyOrigin));
    assert!(matches!(cors_origin(Some("")), CorsOrigin::AnyOrigin));
    assert!(matches!(cors_origin(Some("*")), CorsOrigin::AnyOrigin));
    assert!(matches!(cors_origin(Some("bad\r\norigin")), CorsOrigin::AnyOrigin));
    match cors_origin(Some("https://dash.example.com")) {
        CorsOrigin::Exact(o) => assert_eq!(o, "https://dash.example.com"),
        CorsOrigin::AnyOrigin => panic!("expected an exact origin"),
    }
}

#[test]
fn reparsing_the_parts_gives_the_same_parts() {
    for url in [
        "",
        "https://example.com/custom/base",
        "coingecko.example.com",
        "https:///v3",
        "a:/://x/y",
        "ftp://a://b/c/d",
        "http://",
        "https://example.com/",
    ] {
        let r = parse_api_base_url(url);
        let again = parse_api_base_url(&format!("{}://{}{}", r.scheme, r.host, r.base_path));
        assert_eq!(again.scheme, r.scheme, "{}", url);
        assert_eq!(again.host, r.host, "{}", url);
        assert_eq!(again.base_path, r.base_path, "{}", url);
    }
}
