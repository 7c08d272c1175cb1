use tiktok_proxy::error::AppError;
use tiktok_proxy::proxy::{
    classify_upstream_status, is_allowed_host, is_allowed_parts, is_allowed_url,
    media_request_headers, media_response_headers, prepare_media_request, FetchOutcome, ProxyQuery,
};

#[test]
fn allows_eu_tiktokcdn() {
    assert!(is_allowed_url(
        "https://p16-common-sign.tiktokcdn-eu.com/tos-useast2a-avt-0068-euttp/x.jpeg?x-signature=abc%3D"
    ));
}

#[test]
fn allows_webapp_prime_video() {
    assert!(is_allowed_url(
        "https://v16-webapp-prime.tiktok.com/video/tos/no1a/tos-no1a-ve-0068c001-no/abc?a=1988"
    ));
}

#[test]
fn rejects_non_cdn() {
    assert!(!is_allowed_url("https://example.com/image.jpeg"));
    assert!(!is_allowed_url("http://tiktokcdn.com/x.jpeg"));
    assert!(!is_allowed_url("https://www.tiktok.com/@user/video/123"));
    assert!(!is_allowed_url("https://www.tiktok.com/video/123"));
}

#[test]
fn allows_cdn_suffixes_and_subdomains() {
    assert!(is_allowed_url("https://muscdn.com/a"));
    assert!(is_allowed_url("https://v16m.tiktokv.com/a"));
    assert!(is_allowed_url("https://a.b.ibytedtos.com/a"));
    assert!(is_allowed_url("https://P16.TikTokCDN-US.com/a"));
    assert!(is_allowed_url("https://tiktok.com/video/tos/x"));
    assert!(!is_allowed_url("https://nottiktok.com/video/tos/x"));
    assert!(!is_allowed_url("https://xmuscdn.com/a"));
    assert!(!is_allowed_url("not a url"));
    assert!(!is_allowed_url("ftp://tiktokcdn.com/a"));
}

#[test]
fn host_check_is_case_insensitive() {
    assert!(is_allowed_host("CDN.BYTEOVERSEA.COM", "/"));
    assert!(is_allowed_host("x-tiktokcdn-y.example", "/"));
    assert!(is_allowed_host("WWW.TIKTOK.COM", "/video/tos/a"));
    assert!(!is_allowed_host("www.tiktok.com", "/Video/tos/a"));
}

#[test]
fn parts_need_https_and_host() {
    assert!(is_allowed_parts("https", Some("tiktokcdn.com"), "/"));
    assert!(!is_allowed_parts("http", Some("tiktokcdn.com"), "/"));
    assert!(!is_allowed_parts("https", None, "/"));
}

#[test]
fn prepare_decodes_double_encoded_url() {
    let q = ProxyQuery {
        url: String::from("https%3A%2F%2Fp16.tiktokcdn.com%2Fimg.jpeg%3Fa%3D1+2"),
        ttc: None,
    };
    let r = prepare_media_request(&q, "").unwrap();
    assert_eq!(r.url, "https://p16.tiktokcdn.com/img.jpeg?a=1+2");
    assert_eq!(r.cookie, None);
    assert!(!r.missing_chain_token);
}

#[test]
fn prepare_warns_when_chain_token_missing() {
    let q = ProxyQuery {
        url: String::from("https://v16-webapp-prime.tiktok.com/video/tos/x?tk=tt_chain_token"),
        ttc: None,
    };
    let r = prepare_media_request(&q, "").unwrap();
    assert!(r.missing_chain_token);
    let r2 = prepare_media_request(&q, "s_v_web_id=a").unwrap();
    assert_eq!(r2.cookie.as_deref(), Some("s_v_web_id=a"));
    assert!(!r2.missing_chain_token);
}

#[test]
fn prepare_uses_override_token() {
    let q = ProxyQuery {
        url: String::from("https://p16.tiktokcdn.com/a"),
        ttc: Some(String::from("\"abc\"")),
    };
    let r = prepare_media_request(&q, "a=1; tt_chain_token=old").unwrap();
    assert_eq!(r.cookie.as_deref(), Some("a=1; tt_chain_token=abc"));
}

#[test]
fn prepare_rejects_bad_urls() {
    let bad_utf8 = ProxyQuery { url: String::from("https://p16.tiktokcdn.com/%FF"), ttc: None };
    assert!(matches!(prepare_media_request(&bad_utf8, ""), Err(AppError::InvalidUrl)));
    let foreign = ProxyQuery { url: String::from("https://example.com/a"), ttc: None };
    assert!(matches!(prepare_media_request(&foreign, ""), Err(AppError::InvalidUrl)));
    let hidden = ProxyQuery { url: String::from("https%3A%2F%2Fexample.com%2F"), ttc: None };
    assert!(matches!(prepare_media_request(&hidden, ""), Err(AppError::InvalidUrl)));
}

#[test]
fn classifies_statuses() {
    assert_eq!(classify_upstream_status(200), FetchOutcome::Success);
    assert_eq!(classify_upstream_status(206), FetchOutcome::Success);
    assert_eq!(classify_upstream_status(299), FetchOutcome::Success);
    assert_eq!(classify_upstream_status(404), FetchOutcome::NotFound);
    assert_eq!(classify_upstream_status(302), FetchOutcome::Failed);
    assert_eq!(classify_upstream_status(500), FetchOutcome::Failed);
}

fn owned(hs: &[(&str, &str)]) -> Vec<(String, String)> {
    hs.iter().map(|(a, b)| (a.to_string(), b.to_string())).collect()
}

#[test]
fn response_headers_default_and_pass_through() {
    assert_eq!(
        media_response_headers(None, None, None),
        owned(&[
            ("content-type", "application/octet-stream"),
            ("accept-ranges", "bytes"),
            ("cache-control", "public, max-age=3600"),
        ])
    );
    assert_eq!(
        media_response_headers(Some("video/mp4"), Some("bytes 0-1/10"), Some("2")),
        owned(&[
            ("content-type", "video/mp4"),
            ("accept-ranges", "bytes"),
            ("cache-control", "public, max-age=3600"),
            ("content-range", "bytes 0-1/10"),
            ("content-length", "2"),
        ])
    );
}

#[test]
fn media_request_headers_fixed_then_cookie_then_range() {
    let fixed = [
        ("accept", "video/webm,video/ogg,video/*;q=0.9,application/ogg;q=0.7,audio/*;q=0.6,*/*;q=0.5"),
        ("accept-language", "en-US"),
        ("referer", "https://www.tiktok.com/"),
        ("accept-encoding", "identity"),
        ("dnt", "1"),
        ("sec-fetch-dest", "video"),
        ("sec-fetch-mode", "cors"),
        ("sec-fetch-site", "same-site"),
    ];
    assert_eq!(media_request_headers(None, None), owned(&fixed));
    let mut all = fixed.to_vec();
    all.push(("cookie", "tt_chain_token=a"));
    all.push(("range", "bytes=0-"));
    assert_eq!(media_request_headers(Some("tt_chain_token=a"), Some("bytes=0-")), owned(&all));
    let mut ranged = fixed.to_vec();
    ranged.push(("range", "bytes=5-9"));
    assert_eq!(media_request_headers(None, Some("bytes=5-9")), owned(&ranged));
}
