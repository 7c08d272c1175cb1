use tiktok_proxy::config::{parse_u16, Config};
use tiktok_proxy::pages::{page_request_headers, tag_page_url, user_page_url, video_page_url};

#[test]
fn parses_ports_like_std() {
    assert_eq!(parse_u16("3000"), Some(3000));
    assert_eq!(parse_u16("+80"), Some(80));
    assert_eq!(parse_u16("00080"), Some(80));
    assert_eq!(parse_u16("65535"), Some(65535));
    assert_eq!(parse_u16("65536"), None);
    assert_eq!(parse_u16("99999999999"), None);
    assert_eq!(parse_u16(""), None);
    assert_eq!(parse_u16("+"), None);
    assert_eq!(parse_u16("-1"), None);
    assert_eq!(parse_u16(" 80"), None);
    assert_eq!(parse_u16("8x"), None);
    for s in ["0", "1", "+7", "65535", "65536", "", "+", "12a", "٣"] {
        assert_eq!(parse_u16(s), s.parse::<u16>().ok(), "{s}");
    }
}

#[test]
fn config_defaults_and_trims() {
    let c = Config::from_vars(None, Some("  \"fp\" "), Some(" "), None).unwrap();
    assert_eq!(c.port, 3000);
    assert_eq!(c.api_verify_fp.as_deref(), Some("fp"));
    assert_eq!(c.api_device_id, None);
    assert_eq!(c.api_tt_chain_token, None);
    let d = Config::from_vars(Some("8080"), None, Some("dev"), Some("\"t==\"")).unwrap();
    assert_eq!(d.port, 8080);
    assert_eq!(d.api_device_id.as_deref(), Some("dev"));
    assert_eq!(d.api_tt_chain_token.as_deref(), Some("t=="));
}

#[test]
fn config_refuses_bad_port() {
    assert!(Config::from_vars(Some("abc"), None, None, None).is_none());
    assert!(Config::from_vars(Some(""), Some("x"), None, None).is_none());
}

#[test]
fn page_urls() {
    assert_eq!(user_page_url("bob"), "https://www.tiktok.com/@bob");
    assert_eq!(video_page_url("@@bob", "123"), "https://www.tiktok.com/@bob/video/123");
    assert_eq!(video_page_url("b@b", "1"), "https://www.tiktok.com/@b@b/video/1");
    assert_eq!(tag_page_url("fyp"), "https://www.tiktok.com/tag/fyp");
}

#[test]
fn page_headers() {
    let expected: Vec<(String, String)> = [
        ("accept", "text/html,application/xhtml+xml,application/xml;q=0.9,*/*;q=0.8"),
        ("accept-language", "en-US,en;q=0.9"),
        ("referer", "https://www.tiktok.com"),
    ]
    .iter()
    .map(|(a, b)| (a.to_string(), b.to_string()))
    .collect();
    assert_eq!(page_request_headers(), expected);
}
