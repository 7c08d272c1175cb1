use tiktok_proxy::config::Config;
use tiktok_proxy::cookie::{
    chain_token_from_set_cookie, ingest_set_cookie, initial_media_cookies, media_cookie_header,
    seed_cookie_line, seed_plan, strip_chain_token, SeedOrigin, trim_cookie_value, update_media_tt_chain_token,
};

#[test]
fn strips_quotes_from_cookie_value() {
    assert_eq!(trim_cookie_value("\"abc==\""), "abc==");
}

#[test]
fn media_cookie_override_replaces_ttc() {
    let header = media_cookie_header("", Some("fresh==token"));
    assert_eq!(header.as_deref(), Some("tt_chain_token=fresh==token"));
}

#[test]
fn trims_whitespace_before_quotes() {
    assert_eq!(trim_cookie_value("  \"x\"\t\n"), "x");
    assert_eq!(trim_cookie_value("\" a \""), " a ");
    assert_eq!(trim_cookie_value("\u{3000}\"\"v=\"\""), "v=");
    assert_eq!(trim_cookie_value("  "), "");
}

#[test]
fn header_without_cookies_or_override_is_absent() {
    assert_eq!(media_cookie_header("", None), None);
    assert_eq!(media_cookie_header("", Some(" \"\" ")), None);
}

#[test]
fn header_without_override_is_the_stored_cookies() {
    assert_eq!(
        media_cookie_header("s_v_web_id=a; tt_chain_token=old", None).as_deref(),
        Some("s_v_web_id=a; tt_chain_token=old")
    );
    assert_eq!(media_cookie_header("a=1", Some("   ")).as_deref(), Some("a=1"));
}

#[test]
fn header_override_replaces_stored_token() {
    assert_eq!(
        media_cookie_header("a=1; tt_chain_token=old; b=2", Some(" \"new\" ")).as_deref(),
        Some("a=1; b=2; tt_chain_token=new")
    );
    assert_eq!(
        media_cookie_header("tt_chain_token=old", Some("new")).as_deref(),
        Some("tt_chain_token=new")
    );
}

#[test]
fn header_override_keeps_empty_pieces() {
    assert_eq!(
        media_cookie_header("a=1; ; b=2", Some("t")).as_deref(),
        Some("a=1; ; b=2; tt_chain_token=t")
    );
}

#[test]
fn update_replaces_token_and_drops_empty_pieces() {
    let mut c = String::from("a=1; ; tt_chain_token=old; b=2");
    update_media_tt_chain_token(&mut c, "new");
    assert_eq!(c, "a=1; b=2; tt_chain_token=new");
    let mut e = String::new();
    update_media_tt_chain_token(&mut e, "t");
    assert_eq!(e, "tt_chain_token=t");
}

#[test]
fn update_twice_is_update_once() {
    let mut once = String::from("s_v_web_id=x; tt_chain_token=old; tt_webid=1");
    update_media_tt_chain_token(&mut once, "fresh");
    let mut twice = once.clone();
    update_media_tt_chain_token(&mut twice, "fresh");
    assert_eq!(once, "s_v_web_id=x; tt_webid=1; tt_chain_token=fresh");
    assert_eq!(twice, once);
}

#[test]
fn override_agrees_with_update_on_normalized_cookies() {
    let base = "s_v_web_id=x; tt_chain_token=old";
    let mut stored = String::from(base);
    update_media_tt_chain_token(&mut stored, "new");
    assert_eq!(media_cookie_header(base, Some("new")).as_deref(), Some(stored.as_str()));
}

#[test]
fn strip_removes_every_token_pair() {
    assert_eq!(strip_chain_token("tt_chain_token=a; x=1; tt_chain_token=b", true), "x=1");
    assert_eq!(strip_chain_token("x=1;; y=2", true), "x=1;; y=2");
    assert_eq!(strip_chain_token("; ", false), "; ");
    assert_eq!(strip_chain_token("; ", true), "");
}

#[test]
fn set_cookie_token_is_first_field_value() {
    assert_eq!(
        chain_token_from_set_cookie("tt_chain_token=\"abc/+=\"; Path=/; HttpOnly").as_deref(),
        Some("abc/+=")
    );
    assert_eq!(chain_token_from_set_cookie("other=1; tt_chain_token=x"), None);
    assert_eq!(chain_token_from_set_cookie("tt_chain_token=; Path=/"), None);
    assert_eq!(chain_token_from_set_cookie("tt_chain_token=  "), None);
    assert_eq!(chain_token_from_set_cookie("tt_chain_token=z").as_deref(), Some("z"));
}

#[test]
fn ingest_keeps_last_token() {
    let mut c = String::from("a=1; tt_chain_token=old");
    let values = vec![
        String::from("foo=bar"),
        String::from("tt_chain_token=new1; Path=/"),
        String::from("tt_chain_token=new2; Secure"),
    ];
    ingest_set_cookie(&mut c, &values);
    assert_eq!(c, "a=1; tt_chain_token=new2");
}

#[test]
fn ingest_without_tokens_changes_nothing() {
    let mut c = String::from("a=1; ; b=2");
    ingest_set_cookie(&mut c, &vec![String::from("x=1"), String::from("tt_chain_token=")]);
    assert_eq!(c, "a=1; ; b=2");
}

fn config(fp: Option<&str>, id: Option<&str>, token: Option<&str>) -> Config {
    Config {
        port: 3000,
        api_verify_fp: fp.map(String::from),
        api_device_id: id.map(String::from),
        api_tt_chain_token: token.map(String::from),
    }
}

#[test]
fn initial_cookies_list_configured_pairs() {
    assert_eq!(
        initial_media_cookies(&config(Some("fp"), Some("id"), Some(" \"tok=\" "))),
        "s_v_web_id=fp; tt_webid=id; tt_webid_v2=id; tt_chain_token=tok="
    );
    assert_eq!(initial_media_cookies(&config(None, None, Some("t"))), "tt_chain_token=t");
    assert_eq!(initial_media_cookies(&config(None, Some("d"), None)), "tt_webid=d; tt_webid_v2=d");
    assert_eq!(initial_media_cookies(&config(None, None, None)), "");
}

#[test]
fn seed_line_quotes_value() {
    assert_eq!(
        seed_cookie_line("tt_chain_token", "a/b=="),
        "tt_chain_token=\"a/b==\"; Domain=.tiktok.com; Path=/; Secure"
    );
}

#[test]
fn seed_plan_places_cookies_by_origin() {
    let plan = seed_plan(&config(Some(" fp "), Some("\"id\""), Some("tok")));
    let expected: Vec<(String, String, SeedOrigin)> = vec![
        ("s_v_web_id", "fp", SeedOrigin::TikTok),
        ("s_v_web_id", "fp", SeedOrigin::VideoCdn),
        ("tt_webid", "id", SeedOrigin::TikTok),
        ("tt_webid_v2", "id", SeedOrigin::TikTok),
        ("tt_chain_token", "tok", SeedOrigin::TikTok),
        ("tt_chain_token", "tok", SeedOrigin::VideoCdn),
    ]
    .into_iter()
    .map(|(n, v, o)| (n.to_string(), v.to_string(), o))
    .collect();
    assert_eq!(plan, expected);
    assert!(seed_plan(&config(None, None, None)).is_empty());
    let only_id = seed_plan(&config(None, Some("d"), None));
    assert_eq!(only_id.len(), 2);
    assert!(only_id.iter().all(|(_, _, o)| *o == SeedOrigin::TikTok));
}
