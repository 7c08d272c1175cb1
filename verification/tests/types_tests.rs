use tiktok_proxy::proxy::{prepare_media_request, ProxyQuery};
use tiktok_proxy::types::{UserInfo, VideoInfo};

fn video(id: &str, user: &str, description: &str) -> VideoInfo {
    VideoInfo {
        id: id.to_string(),
        description: description.to_string(),
        author_username: user.to_string(),
        author_nickname: String::new(),
        author_avatar: String::new(),
        video_url: "https://v16.tiktokcdn.com/a?b=c&d=é".to_string(),
        thumbnail_url: "https://p16.tiktokcdn.com/t.jpeg".to_string(),
        like_count: 1,
        comment_count: 2,
        share_count: 3,
        view_count: 4,
        create_time: 5,
        music_title: None,
        music_author: None,
    }
}

#[test]
fn video_url_carries_download_metadata() {
    let v = video("123", "user.name", "  Hello world!  ");
    assert_eq!(
        v.proxied_video_url(),
        "/proxy?url=https%3A%2F%2Fv16.tiktokcdn.com%2Fa%3Fb%3Dc%26d%3D%C3%A9&user=user.name&title=Hello%20world%21&id=123"
    );
}

#[test]
fn video_url_omits_empty_metadata() {
    let v = video("", "", "   ");
    assert_eq!(
        v.proxied_video_url(),
        "/proxy?url=https%3A%2F%2Fv16.tiktokcdn.com%2Fa%3Fb%3Dc%26d%3D%C3%A9"
    );
}

#[test]
fn video_title_takes_eighty_characters() {
    let long: String = std::iter::repeat('é').take(79).chain("x yz".chars()).collect();
    let v = video("", "", &long);
    let expected_title: String = std::iter::repeat("%C3%A9").take(79).collect::<String>() + "x";
    assert_eq!(
        v.proxied_video_url(),
        format!("/proxy?url=https%3A%2F%2Fv16.tiktokcdn.com%2Fa%3Fb%3Dc%26d%3D%C3%A9&title={}", expected_title)
    );
    let cut_at_space: String = std::iter::repeat('a').take(79).chain(" b".chars()).collect();
    let w = video("", "", &cut_at_space);
    assert!(w.proxied_video_url().ends_with(&format!("&title={}", "a".repeat(79))));
}

#[test]
fn thumbnail_url_titles_by_id() {
    let v = video("77", "u", "ignored");
    assert_eq!(
        v.proxied_thumbnail_url(),
        "/proxy?url=https%3A%2F%2Fp16.tiktokcdn.com%2Ft.jpeg&user=u&title=77-thumb&id=77"
    );
    let w = video("", "", "ignored");
    assert_eq!(w.proxied_thumbnail_url(), "/proxy?url=https%3A%2F%2Fp16.tiktokcdn.com%2Ft.jpeg");
}

#[test]
fn avatar_url_always_has_title() {
    let u = UserInfo {
        id: "9".to_string(),
        username: "a b".to_string(),
        nickname: String::new(),
        bio: String::new(),
        avatar_url: "https://p16.tiktokcdn.com/av~x_y-z.webp".to_string(),
        follower_count: 0,
        following_count: 0,
        like_count: 0,
        video_count: 0,
        videos: Vec::new(),
    };
    assert_eq!(
        u.proxied_avatar_url(),
        "/proxy?url=https%3A%2F%2Fp16.tiktokcdn.com%2Fav~x_y-z.webp&user=a%20b&title=avatar&id=9"
    );
    let anon = UserInfo { id: String::new(), username: String::new(), ..u };
    assert_eq!(
        anon.proxied_avatar_url(),
        "/proxy?url=https%3A%2F%2Fp16.tiktokcdn.com%2Fav~x_y-z.webp&title=avatar"
    );
}

#[test]
fn proxy_link_decodes_back_to_media_url() {
    let mut v = video("1", "", "");
    v.video_url = "https://p16.tiktokcdn.com/a b/%2F?x=é&y=+".to_string();
    let link = v.proxied_video_url();
    let encoded = link
        .strip_prefix("/proxy?url=")
        .and_then(|rest| rest.split('&').next())
        .unwrap()
        .to_string();
    let r = prepare_media_request(&ProxyQuery { url: encoded, ttc: None }, "").unwrap();
    assert_eq!(r.url, v.video_url);
}

fn link_fields(link: &str) -> Vec<(String, String)> {
    link.strip_prefix("/proxy?")
        .unwrap()
        .split('&')
        .map(|p| {
            let (k, v) = p.split_once('=').unwrap();
            (k.to_string(), urlencoding::decode(v).unwrap().into_owned())
        })
        .collect()
}

#[test]
fn links_split_back_into_fields() {
    let mut v = video("4&5", "a=b", "x & y = z #tag");
    v.video_url = "https://p16.tiktokcdn.com/v?a=1&b=2#f".to_string();
    assert_eq!(
        link_fields(&v.proxied_video_url()),
        vec![
            ("url".to_string(), v.video_url.clone()),
            ("user".to_string(), "a=b".to_string()),
            ("title".to_string(), "x & y = z #tag".to_string()),
            ("id".to_string(), "4&5".to_string()),
        ]
    );
    assert_eq!(
        link_fields(&v.proxied_thumbnail_url()),
        vec![
            ("url".to_string(), v.thumbnail_url.clone()),
            ("user".to_string(), "a=b".to_string()),
            ("title".to_string(), "4&5-thumb".to_string()),
            ("id".to_string(), "4&5".to_string()),
        ]
    );
}
