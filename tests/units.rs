use whoami::error::{error_chain_fmt, AppError};
use whoami::headers::{collect_headers, map_pairs};
use whoami::ip::{ip_parser, IpAddress};
use whoami::json::{render_json, render_text};
use whoami::negotiate::{check_request_accept, contains_token, is_request_html, is_request_json, negotiate, ResponseFormat};
use whoami::request::{find_header, header_value, repeated_header, str_equal, HeaderField};
use whoami::routes::{resolve_client_ip, Reply, TrustSource};

fn field(name: &str, value: &str) -> HeaderField {
    HeaderField::new(name.to_string(), Some(value.to_string()), None)
}

fn pairs(items: &[(&str, &str)]) -> Vec<(String, String)> {
    items.iter().map(|(k, v)| (k.to_string(), v.to_string())).collect()
}

#[test]
fn ip_parser_collapses_loopback() {
    assert_eq!(ip_parser(IpAddress::V4([127, 0, 0, 1])), "127.0.0.1");
    assert_eq!(ip_parser(IpAddress::V4([127, 5, 6, 7])), "127.0.0.1");
    assert_eq!(ip_parser(IpAddress::V6([0, 0, 0, 0, 0, 0, 0, 1])), "127.0.0.1");
}

#[test]
fn ip_parser_unwraps_only_mapped_ipv4() {
    assert_eq!(ip_parser(IpAddress::V6([0, 0, 0, 0, 0, 0xffff, 0xc0a8, 0x0102])), "192.168.1.2");
    assert_eq!(ip_parser(IpAddress::V6([0, 0, 0, 0, 0, 0xffff, 0x7f00, 0x0001])), "127.0.0.1");
    assert_eq!(ip_parser(IpAddress::V6([0, 0, 0, 0, 0, 0, 0x0102, 0x0304])), "::102:304");
    assert_eq!(ip_parser(IpAddress::V6([0, 0, 0, 0, 0, 0, 0, 0])), "::");
}

#[test]
fn ip_parser_keeps_other_addresses() {
    assert_eq!(ip_parser(IpAddress::V4([8, 8, 8, 8])), "8.8.8.8");
    assert_eq!(ip_parser(IpAddress::V4([255, 255, 255, 255])), "255.255.255.255");
    assert_eq!(ip_parser(IpAddress::V6([0x2001, 0xdb8, 0, 0, 1, 0, 0, 1])), "2001:db8::1:0:0:1");
}

#[test]
fn ipv6_text_compresses_longest_zero_run() {
    let text = |s: [u16; 8]| IpAddress::V6(s).to_text();
    assert_eq!(text([0x2001, 0xdb8, 0, 0, 0, 0, 0, 1]), "2001:db8::1");
    assert_eq!(text([0, 0, 0, 0, 0, 0, 0, 0]), "::");
    assert_eq!(text([0, 0, 0, 0, 0, 0, 0, 1]), "::1");
    assert_eq!(text([1, 0, 0, 0, 0, 0, 0, 0]), "1::");
    assert_eq!(text([1, 0, 2, 0, 0, 3, 0, 0]), "1:0:2::3:0:0");
    assert_eq!(text([1, 0, 2, 3, 4, 5, 6, 7]), "1:0:2:3:4:5:6:7");
    assert_eq!(text([0xfe80, 0, 0, 0, 0xabcd, 0x12, 0xffff, 0xa]), "fe80::abcd:12:ffff:a");
    assert_eq!(text([0, 0, 0, 0, 0, 0xffff, 0x0102, 0x0304]), "::ffff:1.2.3.4");
}

#[test]
fn ipv4_text_is_dotted_quad() {
    assert_eq!(IpAddress::V4([0, 10, 100, 255]).to_text(), "0.10.100.255");
}

#[test]
fn loopback_and_embedded_ipv4_checks() {
    assert!(IpAddress::V4([127, 1, 2, 3]).is_loopback());
    assert!(!IpAddress::V4([128, 0, 0, 1]).is_loopback());
    assert!(IpAddress::V6([0, 0, 0, 0, 0, 0, 0, 1]).is_loopback());
    assert!(!IpAddress::V6([0, 0, 0, 0, 0, 0xffff, 0x7f00, 1]).is_loopback());
    assert_eq!(IpAddress::V6([0, 0, 0, 0, 0, 0xffff, 0x7f00, 1]).to_ipv4(), Some([127, 0, 0, 1]));
    assert_eq!(IpAddress::V6([0, 0, 0, 0, 1, 0xffff, 0x7f00, 1]).to_ipv4(), None);
    assert_eq!(IpAddress::V4([1, 2, 3, 4]).to_ipv4(), None);
    assert_eq!(IpAddress::V6([0, 0, 0, 0, 0, 0, 0x0102, 0x0304]).to_ipv4(), Some([1, 2, 3, 4]));
    assert_eq!(IpAddress::V6([0, 0, 0, 0, 0, 0, 0x0102, 0x0304]).to_ipv4_mapped(), None);
    assert_eq!(IpAddress::V6([0, 0, 0, 0, 0, 0xffff, 0x0102, 0x0304]).to_ipv4_mapped(), Some([1, 2, 3, 4]));
}

#[test]
fn accept_tokens_compare_exactly_after_lowercasing() {
    assert!(is_request_json(&vec![field("accept", "Application/JSON")]));
    assert!(is_request_json(&vec![field("accept", "text/html,application/json")]));
    assert!(!is_request_json(&vec![field("accept", "text/html, application/json")]));
    assert!(is_request_html(&vec![field("accept", "text/html, application/json")]));
    assert!(!is_request_json(&vec![field("accept", "application/json;q=1")]));
    assert!(!is_request_json(&vec![]));
    assert!(!is_request_json(&vec![HeaderField::new("accept".to_string(), None, None)]));
    assert!(check_request_accept(&vec![field("accept", "a,,b")], ""));
    assert!(!check_request_accept(&vec![field("accept", "ab")], ""));
}

#[test]
fn accept_uses_first_accept_field() {
    let headers = vec![field("accept", "text/plain"), field("accept", "application/json")];
    assert!(!is_request_json(&headers));
}

#[test]
fn negotiate_prefers_json_over_html() {
    assert_eq!(negotiate(&vec![field("accept", "text/html,application/json")]), ResponseFormat::Json);
    assert_eq!(negotiate(&vec![field("accept", "TEXT/HTML")]), ResponseFormat::Html);
    assert_eq!(negotiate(&vec![field("accept", "*/*")]), ResponseFormat::PlainText);
    assert_eq!(negotiate(&vec![]), ResponseFormat::PlainText);
}

#[test]
fn contains_token_splits_on_commas_only() {
    assert!(contains_token("a,b,c", "b"));
    assert!(contains_token("", ""));
    assert!(!contains_token("a, b", "b"));
    assert!(contains_token("a, b", " b"));
    assert!(!contains_token("abc", "b"));
}

#[test]
fn header_lookup_finds_first_field() {
    let headers = vec![
        field("a", "1"),
        HeaderField::new("b".to_string(), None, None),
        field("a", "2"),
    ];
    assert_eq!(find_header(&headers, "a").unwrap().value, Some("1".to_string()));
    assert!(find_header(&headers, "c").is_none());
    assert!(header_value(&headers, "b").is_none());
    assert_eq!(header_value(&headers, "a"), Some(&"1".to_string()));
    assert!(repeated_header(&headers, "a"));
    assert!(!repeated_header(&headers, "b"));
    assert!(str_equal("abc", "abc"));
    assert!(!str_equal("abc", "abd"));
}

#[test]
fn collect_headers_puts_ip_first() {
    let headers = vec![field("x-a", "1"), field("x-b", "2"), field("x-a", "3")];
    let map = collect_headers("1.2.3.4".to_string(), &headers);
    assert_eq!(map_pairs(&map), pairs(&[("ip", "1.2.3.4"), ("x-a", "3"), ("x-b", "2")]));
    let empty = collect_headers("::1".to_string(), &vec![]);
    assert_eq!(map_pairs(&empty), pairs(&[("ip", "::1")]));
}

#[test]
fn render_text_joins_lines_without_trailing_newline() {
    assert_eq!(render_text(&pairs(&[("ip", "1.2.3.4"), ("host", "x")])), "ip: 1.2.3.4\nhost: x");
    assert_eq!(render_text(&pairs(&[])), "");
}

#[test]
fn render_json_escapes_strings() {
    assert_eq!(render_json(&pairs(&[])), "{}");
    assert_eq!(render_json(&pairs(&[("k", "a\"b\\c\n\r\u{8}\u{c}")])), r#"{"k":"a\"b\\c\n\r\b\f"}"#);
    assert_eq!(render_json(&pairs(&[("k", "\u{0}\u{1b}\u{7f}")])), "{\"k\":\"\\u0000\\u001b\u{7f}\"}");
    let value = "tab\there \"q\" \u{2} ünï";
    let body = render_json(&pairs(&[("a", value), ("b", "")]));
    let parsed: serde_json::Value = serde_json::from_str(&body).unwrap();
    assert_eq!(parsed["a"], value);
    assert_eq!(parsed["b"], "");
}

#[test]
fn resolve_client_ip_under_each_source() {
    let peer = IpAddress::V4([10, 0, 0, 1]);
    assert_eq!(resolve_client_ip(&TrustSource::ConnectInfo, peer, &vec![field("x-real-ip", "1.1.1.1")]), Ok(peer));
    let source = TrustSource::trusted_header("X-Real-IP");
    assert_eq!(source, TrustSource::Header("x-real-ip".to_string()));
    let headers = vec![HeaderField::new("x-real-ip".to_string(), Some(" 1.1.1.1 ".to_string()), Some(IpAddress::V4([1, 1, 1, 1])))];
    assert_eq!(resolve_client_ip(&source, peer, &headers), Ok(IpAddress::V4([1, 1, 1, 1])));
    assert_eq!(
        resolve_client_ip(&source, peer, &vec![]),
        Err(AppError::MissingTrustedHeader("x-real-ip".to_string()))
    );
}

#[test]
fn reply_content_types() {
    assert_eq!(Reply::Text(String::new()).content_type(), "text/plain; charset=utf-8");
    assert_eq!(Reply::Json(String::new()).content_type(), "application/json");
    assert_eq!(Reply::Html(vec![]).content_type(), "text/html; charset=utf-8");
}

#[test]
fn error_chain_lists_causes_in_order() {
    let causes = vec!["a".to_string(), "b".to_string()];
    assert_eq!(error_chain_fmt("msg", &causes), "msg\n\nCaused by:\n\ta\nCaused by:\n\tb\n");
    assert_eq!(error_chain_fmt("msg", &vec![]), "msg\n\n");
}

#[test]
fn app_error_messages_and_reports() {
    let e = AppError::ConfigError("bad port".to_string());
    assert_eq!(e.message(), "error when read config: bad port");
    assert_eq!(e.report(), "error when read config: bad port\n\nCaused by:\n\tbad port\n");
    let t = AppError::TracingError("already set".to_string());
    assert_eq!(t.message(), "error when setup tracing: already set");
    let m = AppError::MissingTrustedHeader("cf-connecting-ip".to_string());
    assert_eq!(m.message(), "missing trusted header: cf-connecting-ip");
    assert_eq!(m.report(), "missing trusted header: cf-connecting-ip\n\n");
    assert_eq!(AppError::InvalidClientIp("x".to_string()).message(), "invalid client ip in header: x");
    assert_eq!(t.status_code(), 500);
}

#[test]
fn trust_source_from_selector() {
    assert_eq!(TrustSource::from_selector("ConnectInfo"), Some(TrustSource::ConnectInfo));
    assert_eq!(
        TrustSource::from_selector("CfConnectingIp"),
        Some(TrustSource::Header("cf-connecting-ip".to_string()))
    );
    assert_eq!(TrustSource::from_selector("XRealIp"), Some(TrustSource::Header("x-real-ip".to_string())));
    assert_eq!(TrustSource::from_selector("FlyClientIp"), Some(TrustSource::Header("fly-client-ip".to_string())));
    assert_eq!(TrustSource::from_selector("TrueClientIp"), Some(TrustSource::Header("true-client-ip".to_string())));
    assert_eq!(
        TrustSource::from_selector("XEnvoyExternalAddress"),
        Some(TrustSource::Header("x-envoy-external-address".to_string()))
    );
    assert_eq!(TrustSource::from_selector("RightmostXForwardedFor"), None);
    assert_eq!(TrustSource::from_selector("connectinfo"), None);
}
