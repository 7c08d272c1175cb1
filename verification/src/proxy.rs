//! The media proxy: which URLs it fetches, the request it makes for them, and
//! the answer it gives.
use vstd::prelude::*;
use crate::text::{
    ascii_lower, contains, ends_with, has_infix, has_prefix, has_suffix, starts_with,
    to_ascii_lower, to_chars,
};
use crate::cookie::{cookie_header, media_cookie_header, opt_str_view, opt_string_view};
use crate::encoding::{url_decode, url_decoded};
use crate::error::AppError;

verus! {

/// What `url::Url::parse` makes of a string: `None` when it is no URL, else the
/// scheme, the host (`host_str`) and the path.
pub uninterp spec fn parsed_url(input: Seq<char>) -> Option<(Seq<char>, Option<Seq<char>>, Seq<char>)>;

pub open spec fn url_parts_view(p: Option<(String, Option<String>, String)>) -> Option<
    (Seq<char>, Option<Seq<char>>, Seq<char>),
> {
    match p {
        Some((s, h, path)) => Some((s@, opt_string_view(h), path@)),
        None => None,
    }
}

/// `url::Url::parse`, then `scheme`, `host_str` and `path` of the result; a
/// parse error gives `None`. Its documentation adds that the scheme is lower-case
/// ASCII; nothing else of the WHATWG parsing is stated here: the result is named.
#[verifier::external_body]
fn parse_url_parts(input: &str) -> (res: Option<(String, Option<String>, String)>)
    ensures
        url_parts_view(res) == parsed_url(input@),
        res matches Some(p) ==> forall|i: int|
            0 <= i < p.0@.len() ==> (p.0@[i] as u32) < 0x80 && !('A' <= #[trigger] p.0@[i]
                && p.0@[i] <= 'Z'),
{
    match url::Url::parse(input) {
        Ok(u) => {
            let host = match u.host_str() {
                Some(h) => Some(h.to_string()),
                None => None,
            };
            Some((u.scheme().to_string(), host, u.path().to_string()))
        },
        Err(_) => None,
    }
}

/// The host suffixes of TikTok's media CDNs.
pub open spec fn cdn_suffixes() -> Seq<Seq<char>> {
    seq![
        "tiktokcdn.com"@,
        "tiktokcdn-us.com"@,
        "tiktokcdn-eu.com"@,
        "tiktokcdn-in.com"@,
        "tiktokv.com"@,
        "muscdn.com"@,
        "byteoversea.com"@,
        "ibytedtos.com"@,
    ]
}

/// `host` is `suffix` or a subdomain of it.
pub open spec fn host_under(host: Seq<char>, suffix: Seq<char>) -> bool {
    host == suffix || has_suffix(host, seq!['.'] + suffix)
}

/// A host (any case) and path that the proxy fetches from: a CDN domain, any
/// host naming `tiktokcdn`, or a `tiktok.com` host serving `/video/tos...`.
pub open spec fn allowed_media_host(host: Seq<char>, path: Seq<char>) -> bool {
    let h = ascii_lower(host);
    ||| exists|k: int| 0 <= k < cdn_suffixes().len() && host_under(h, #[trigger] cdn_suffixes()[k])
    ||| has_infix(h, "tiktokcdn"@)
    ||| (host_under(h, "tiktok.com"@) && has_prefix(path, "/video/tos"@))
}

/// URL parts that the proxy fetches: `https`, with a host it trusts.
pub open spec fn allowed_url_parts(
    scheme: Seq<char>,
    host: Option<Seq<char>>,
    path: Seq<char>,
) -> bool {
    &&& scheme == "https"@
    &&& host matches Some(h) && allowed_media_host(h, path)
}

/// A URL that the proxy fetches.
pub open spec fn allowed_media_url(url: Seq<char>) -> bool {
    match parsed_url(url) {
        Some((scheme, host, path)) => allowed_url_parts(scheme, host, path),
        None => false,
    }
}

fn cdn_suffix(k: usize) -> (s: &'static str)
    requires
        k < 8,
    ensures
        s@ == cdn_suffixes()[k as int],
{
    match k {
        0 => "tiktokcdn.com",
        1 => "tiktokcdn-us.com",
        2 => "tiktokcdn-eu.com",
        3 => "tiktokcdn-in.com",
        4 => "tiktokv.com",
        5 => "muscdn.com",
        6 => "byteoversea.com",
        _ => "ibytedtos.com",
    }
}

fn same_chars(a: &Vec<char>, b: &Vec<char>) -> (res: bool)
    ensures
        res == (a@ == b@),
{
    if a.len() != b.len() {
        return false;
    }
    let r = starts_with(a, b);
    assert(a@.subrange(0, b@.len() as int) == a@);
    r
}

/// Whether `host` (already lower-case) is `suffix` or one of its subdomains.
fn host_under_exec(host: &Vec<char>, suffix: &str) -> (res: bool)
    ensures
        res == host_under(host@, suffix@),
{
    let s = to_chars(suffix);
    if same_chars(host, &s) {
        return true;
    }
    let mut dotted: Vec<char> = Vec::new();
    dotted.push('.');
    let mut i: usize = 0;
    while i < s.len()
        invariant
            i <= s.len(),
            dotted@ == seq!['.'] + s@.take(i as int),
        decreases s.len() - i,
    {
        dotted.push(s[i]);
        i = i + 1;
        assert(dotted@ == seq!['.'] + s@.take(i as int));
    }
    assert(s@.take(s@.len() as int) == s@);
    ends_with(host, &dotted)
}

/// Whether the proxy fetches from this host and path.
pub fn is_allowed_host(host: &str, path: &str) -> (res: bool)
    ensures
        res == allowed_media_host(host@, path@),
{
    let h = to_ascii_lower(&to_chars(host));
    let mut k: usize = 0;
    while k < 8
        invariant
            k <= 8,
            h@ == ascii_lower(host@),
            forall|j: int| 0 <= j < k ==> !host_under(h@, #[trigger] cdn_suffixes()[j]),
        decreases 8 - k,
    {
        if host_under_exec(&h, cdn_suffix(k)) {
            return true;
        }
        k = k + 1;
    }
    assert(cdn_suffixes().len() == 8);
    if contains(&h, &to_chars("tiktokcdn")) {
        return true;
    }
    host_under_exec(&h, "tiktok.com") && starts_with(&to_chars(path), &to_chars("/video/tos"))
}

/// Whether the proxy fetches from a URL with these parts.
pub fn is_allowed_parts(scheme: &str, host: Option<&str>, path: &str) -> (res: bool)
    ensures
        res == allowed_url_parts(scheme@, opt_str_view(host), path@),
{
    if !same_chars(&to_chars(scheme), &to_chars("https")) {
        return false;
    }
    match host {
        Some(h) => is_allowed_host(h, path),
        None => false,
    }
}

/// Whether the proxy fetches from `url`: it must parse, be `https`, and name a
/// TikTok media host.
pub fn is_allowed_url(url: &str) -> (res: bool)
    ensures
        res == allowed_media_url(url@),
{
    match parse_url_parts(url) {
        Some((scheme, host, path)) => {
            let h: Option<&str> = match &host {
                Some(s) => Some(s.as_str()),
                None => None,
            };
            is_allowed_parts(scheme.as_str(), h, path.as_str())
        },
        None => false,
    }
}

/// The query of a `/proxy` request.
pub struct ProxyQuery {
    /// The media URL, possibly percent-encoded once more.
    pub url: String,
    /// Optional per-request `tt_chain_token` override.
    pub ttc: Option<String>,
}

/// The upstream request that a `/proxy` request leads to.
pub struct MediaRequest {
    /// The decoded media URL.
    pub url: String,
    /// The `Cookie` header to send, if any.
    pub cookie: Option<String>,
    /// No cookie goes out although the CDN URL asks for `tt_chain_token`.
    pub missing_chain_token: bool,
}

/// The request made for a `/proxy` query, given the stored media cookies
/// (empty when none are configured): the URL is decoded once more and must be
/// one that the proxy fetches, else the query is refused as an invalid URL.
pub fn prepare_media_request(query: &ProxyQuery, media_cookies: &str) -> (res: Result<
    MediaRequest,
    AppError,
>)
    ensures
        match url_decoded(query.url@) {
            None => res matches Err(AppError::InvalidUrl),
            Some(u) => if !allowed_media_url(u) {
                res matches Err(AppError::InvalidUrl)
            } else {
                res matches Ok(r) && r.url@ == u && opt_string_view(r.cookie) == cookie_header(
                    media_cookies@,
                    opt_string_view(query.ttc),
                ) && r.missing_chain_token == (r.cookie is None && has_infix(
                    u,
                    "tk=tt_chain_token"@,
                ))
            },
        },
{
    let url = match url_decode(query.url.as_str()) {
        Some(u) => u,
        None => {
            return Err(AppError::InvalidUrl);
        },
    };
    if !is_allowed_url(url.as_str()) {
        return Err(AppError::InvalidUrl);
    }
    let ttc: Option<&str> = match &query.ttc {
        Some(t) => Some(t.as_str()),
        None => None,
    };
    let cookie = media_cookie_header(media_cookies, ttc);
    let missing_chain_token = cookie.is_none() && contains(
        &to_chars(url.as_str()),
        &to_chars("tk=tt_chain_token"),
    );
    Ok(MediaRequest { url, cookie, missing_chain_token })
}

/// The fixed headers of a CDN media request: a plain browser video fetch, with
/// no compression and TikTok as referer.
pub open spec fn fixed_media_request_headers() -> Seq<(Seq<char>, Seq<char>)> {
    seq![
        ("accept"@, "video/webm,video/ogg,video/*;q=0.9,application/ogg;q=0.7,audio/*;q=0.6,*/*;q=0.5"@),
        ("accept-language"@, "en-US"@),
        ("referer"@, "https://www.tiktok.com/"@),
        ("accept-encoding"@, "identity"@),
        ("dnt"@, "1"@),
        ("sec-fetch-dest"@, "video"@),
        ("sec-fetch-mode"@, "cors"@),
        ("sec-fetch-site"@, "same-site"@),
    ]
}

/// The headers of a CDN media request, in order: the fixed ones, then the
/// `Cookie` header when there is one, then the client's `Range` when it sent
/// one. Nothing else of the client's request is passed on.
pub open spec fn media_request_headers_spec(
    cookie: Option<Seq<char>>,
    range: Option<Seq<char>>,
) -> Seq<(Seq<char>, Seq<char>)> {
    let with_cookie = match cookie {
        Some(c) => fixed_media_request_headers().push(("cookie"@, c)),
        None => fixed_media_request_headers(),
    };
    match range {
        Some(r) => with_cookie.push(("range"@, r)),
        None => with_cookie,
    }
}

fn header_pair(name: &str, value: &str) -> (h: (String, String))
    ensures
        h.0@ == name@,
        h.1@ == value@,
{
    (String::from_str(name), String::from_str(value))
}

/// The headers of the upstream request for media, from the `Cookie` header
/// chosen for it and the `Range` header of the client's request.
pub fn media_request_headers(cookie: Option<&str>, range: Option<&str>) -> (hs: Vec<
    (String, String),
>)
    ensures
        header_views(hs@) == media_request_headers_spec(opt_str_view(cookie), opt_str_view(range)),
{
    let mut hs: Vec<(String, String)> = Vec::new();
    hs.push(
        header_pair(
            "accept",
            "video/webm,video/ogg,video/*;q=0.9,application/ogg;q=0.7,audio/*;q=0.6,*/*;q=0.5",
        ),
    );
    hs.push(header_pair("accept-language", "en-US"));
    hs.push(header_pair("referer", "https://www.tiktok.com/"));
    hs.push(header_pair("accept-encoding", "identity"));
    hs.push(header_pair("dnt", "1"));
    hs.push(header_pair("sec-fetch-dest", "video"));
    hs.push(header_pair("sec-fetch-mode", "cors"));
    hs.push(header_pair("sec-fetch-site", "same-site"));
    match cookie {
        Some(c) => hs.push(header_pair("cookie", c)),
        None => {},
    }
    match range {
        Some(r) => hs.push(header_pair("range", r)),
        None => {},
    }
    assert(header_views(hs@) == media_request_headers_spec(
        opt_str_view(cookie),
        opt_str_view(range),
    ));
    hs
}

/// How an upstream answer is treated.
#[derive(Clone, Copy, PartialEq, Eq, Structural, Debug)]
pub enum FetchOutcome {
    /// 2xx: the body is used (streamed for media).
    Success,
    /// 404: answered as not found.
    NotFound,
    /// Anything else: a fetch error naming the status.
    Failed,
}

/// The outcome of an upstream status code, for TikTok pages and CDN media alike.
pub fn classify_upstream_status(status: u16) -> (res: FetchOutcome)
    ensures
        res == (if 200 <= status <= 299 {
            FetchOutcome::Success
        } else if status == 404 {
            FetchOutcome::NotFound
        } else {
            FetchOutcome::Failed
        }),
{
    if 200 <= status && status <= 299 {
        FetchOutcome::Success
    } else if status == 404 {
        FetchOutcome::NotFound
    } else {
        FetchOutcome::Failed
    }
}

/// The headers of the proxy's answer to a media request, in order.
pub open spec fn media_response_headers_spec(
    content_type: Option<Seq<char>>,
    content_range: Option<Seq<char>>,
    content_length: Option<Seq<char>>,
) -> Seq<(Seq<char>, Seq<char>)> {
    let fixed = seq![
        ("content-type"@, match content_type {
            Some(t) => t,
            None => "application/octet-stream"@,
        }),
        ("accept-ranges"@, "bytes"@),
        ("cache-control"@, "public, max-age=3600"@),
    ];
    let with_range = match content_range {
        Some(r) => fixed.push(("content-range"@, r)),
        None => fixed,
    };
    match content_length {
        Some(l) => with_range.push(("content-length"@, l)),
        None => with_range,
    }
}

pub open spec fn header_views(hs: Seq<(String, String)>) -> Seq<(Seq<char>, Seq<char>)> {
    hs.map_values(|h: (String, String)| (h.0@, h.1@))
}

/// The headers of the proxy's answer, from the upstream `Content-Type`,
/// `Content-Range` and `Content-Length` (those that are readable text).
pub fn media_response_headers(
    content_type: Option<&str>,
    content_range: Option<&str>,
    content_length: Option<&str>,
) -> (hs: Vec<(String, String)>)
    ensures
        header_views(hs@) == media_response_headers_spec(
            opt_str_view(content_type),
            opt_str_view(content_range),
            opt_str_view(content_length),
        ),
{
    let mut hs: Vec<(String, String)> = Vec::new();
    let ct = match content_type {
        Some(t) => String::from_str(t),
        None => String::from_str("application/octet-stream"),
    };
    hs.push((String::from_str("content-type"), ct));
    hs.push((String::from_str("accept-ranges"), String::from_str("bytes")));
    hs.push((String::from_str("cache-control"), String::from_str("public, max-age=3600")));
    match content_range {
        Some(r) => hs.push((String::from_str("content-range"), String::from_str(r))),
        None => {},
    }
    match content_length {
        Some(l) => hs.push((String::from_str("content-length"), String::from_str(l))),
        None => {},
    }
    assert(header_views(hs@) == media_response_headers_spec(
        opt_str_view(content_type),
        opt_str_view(content_range),
        opt_str_view(content_length),
    ));
    hs
}

} // verus!
