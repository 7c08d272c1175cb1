//! The TikTok web pages that user, video and tag views are read from.
use vstd::prelude::*;
use crate::text::{to_chars, trim_start, trim_start_index, append_range, TrimSet};
use crate::proxy::header_views;

verus! {

/// A profile page: `https://www.tiktok.com/@<username>`.
pub fn user_page_url(username: &str) -> (url: String)
    ensures
        url@ == "https://www.tiktok.com/@"@ + username@,
{
    let mut url = String::from_str("https://www.tiktok.com/@");
    url.append(username);
    url
}

/// A video page: `https://www.tiktok.com/@<username>/video/<id>`, with any
/// leading `@` of the username dropped first.
pub fn video_page_url(username: &str, video_id: &str) -> (url: String)
    ensures
        url@ == "https://www.tiktok.com/@"@ + trim_start(username@, TrimSet::Char('@'))
            + "/video/"@ + video_id@,
{
    let u = to_chars(username);
    let lo = trim_start_index(&u, TrimSet::Char('@'));
    let mut url = String::from_str("https://www.tiktok.com/@");
    append_range(&mut url, &u, lo, u.len());
    assert(u@.subrange(lo as int, u@.len() as int) == u@.skip(lo as int));
    url.append("/video/");
    url.append(video_id);
    url
}

/// A hashtag page: `https://www.tiktok.com/tag/<tag>`.
pub fn tag_page_url(tag_name: &str) -> (url: String)
    ensures
        url@ == "https://www.tiktok.com/tag/"@ + tag_name@,
{
    let mut url = String::from_str("https://www.tiktok.com/tag/");
    url.append(tag_name);
    url
}

/// The headers of a TikTok page request, in order.
pub open spec fn page_request_headers_spec() -> Seq<(Seq<char>, Seq<char>)> {
    seq![
        ("accept"@, "text/html,application/xhtml+xml,application/xml;q=0.9,*/*;q=0.8"@),
        ("accept-language"@, "en-US,en;q=0.9"@),
        ("referer"@, "https://www.tiktok.com"@),
    ]
}

/// The headers sent with every TikTok page request: an HTML browser fetch in
/// English, with TikTok itself as referer.
pub fn page_request_headers() -> (hs: Vec<(String, String)>)
    ensures
        header_views(hs@) == page_request_headers_spec(),
{
    let mut hs: Vec<(String, String)> = Vec::new();
    hs.push(
        (
            String::from_str("accept"),
            String::from_str("text/html,application/xhtml+xml,application/xml;q=0.9,*/*;q=0.8"),
        ),
    );
    hs.push((String::from_str("accept-language"), String::from_str("en-US,en;q=0.9")));
    hs.push((String::from_str("referer"), String::from_str("https://www.tiktok.com")));
    assert(header_views(hs@) == page_request_headers_spec());
    hs
}

} // verus!
