//! What the proxy decides, stated over all inputs: every listed CDN domain
//! admits its subdomains, the upstream request carries the chosen cookie and
//! the client's range independently of each other, and the answer keeps the
//! upstream content type.
use vstd::prelude::*;
use crate::text::{ascii_lower, ascii_lower_char, has_suffix};
use crate::proxy::{
    allowed_media_host, allowed_url_parts, cdn_suffixes, fixed_media_request_headers,
    host_under, media_request_headers_spec, media_response_headers_spec,
};

verus! {

proof fn lemma_lower_fixed(s: Seq<char>)
    requires
        forall|i: int| 0 <= i < s.len() ==> !('A' <= #[trigger] s[i] && s[i] <= 'Z'),
    ensures
        ascii_lower(s) == s,
{
    assert forall|i: int| 0 <= i < s.len() implies #[trigger] ascii_lower(s)[i] == s[i] by {
        assert(ascii_lower_char(s[i]) == s[i]);
    }
    assert(ascii_lower(s) =~= s);
}

proof fn lemma_suffixes_lower_case(k: int)
    requires
        0 <= k < cdn_suffixes().len(),
    ensures
        ascii_lower(cdn_suffixes()[k]) == cdn_suffixes()[k],
{
    reveal_strlit("tiktokcdn.com");
    reveal_strlit("tiktokcdn-us.com");
    reveal_strlit("tiktokcdn-eu.com");
    reveal_strlit("tiktokcdn-in.com");
    reveal_strlit("tiktokv.com");
    reveal_strlit("muscdn.com");
    reveal_strlit("byteoversea.com");
    reveal_strlit("ibytedtos.com");
    let s = cdn_suffixes()[k];
    assert forall|i: int| 0 <= i < s.len() implies !('A' <= #[trigger] s[i] && s[i] <= 'Z') by {
        if k == 0 {
            assert(s == "tiktokcdn.com"@);
        } else if k == 1 {
            assert(s == "tiktokcdn-us.com"@);
        } else if k == 2 {
            assert(s == "tiktokcdn-eu.com"@);
        } else if k == 3 {
            assert(s == "tiktokcdn-in.com"@);
        } else if k == 4 {
            assert(s == "tiktokv.com"@);
        } else if k == 5 {
            assert(s == "muscdn.com"@);
        } else if k == 6 {
            assert(s == "byteoversea.com"@);
        } else {
            assert(s == "ibytedtos.com"@);
        }
    }
    lemma_lower_fixed(s);
}

/// Every listed CDN domain is allowed, and so is every host under it, in any
/// letter case and with any path; over `https` such a URL is fetched.
pub proof fn law_cdn_subdomains_allowed(k: int, label: Seq<char>, path: Seq<char>)
    requires
        0 <= k < cdn_suffixes().len(),
    ensures
        allowed_media_host(cdn_suffixes()[k], path),
        allowed_media_host(label + seq!['.'] + cdn_suffixes()[k], path),
        allowed_url_parts("https"@, Some(label + seq!['.'] + cdn_suffixes()[k]), path),
{
    let s = cdn_suffixes()[k];
    lemma_suffixes_lower_case(k);
    assert(host_under(ascii_lower(s), s));
    let h = label + seq!['.'] + s;
    let lh = ascii_lower(h);
    assert(lh =~= ascii_lower(label) + seq!['.'] + s) by {
        assert forall|i: int| 0 <= i < lh.len() implies #[trigger] lh[i] == (ascii_lower(label)
            + seq!['.'] + s)[i] by {
            if i >= label.len() + 1 {
                assert(ascii_lower(s)[i - label.len() - 1] == s[i - label.len() - 1]);
            }
        }
    }
    assert(lh.subrange(lh.len() - (s.len() + 1), lh.len() as int) =~= seq!['.'] + s);
    assert(has_suffix(lh, seq!['.'] + s));
    assert(host_under(lh, s));
}

/// The upstream media request carries the fixed browser headers first, then
/// the chosen `Cookie` exactly when one is given, then the client's `Range`
/// exactly when it sent one; neither depends on the other, and nothing else
/// is sent.
pub proof fn law_media_request_headers(cookie: Option<Seq<char>>, range: Option<Seq<char>>)
    ensures
        media_request_headers_spec(cookie, range).len() == fixed_media_request_headers().len()
            + (if cookie is Some { 1int } else { 0 }) + (if range is Some { 1int } else { 0 }),
        forall|k: int|
            0 <= k < fixed_media_request_headers().len() ==> #[trigger] media_request_headers_spec(
                cookie,
                range,
            )[k] == fixed_media_request_headers()[k],
        cookie matches Some(c) ==> media_request_headers_spec(cookie, range)[fixed_media_request_headers().len() as int]
            == ("cookie"@, c),
        range matches Some(r) ==> media_request_headers_spec(cookie, range).last() == ("range"@, r),
        fixed_media_request_headers().len() == 8,
{
}

/// The answer to a media request has the upstream content type whenever one
/// was given (the default only when none was), then `accept-ranges` and
/// `cache-control`, then the upstream content range and length, each exactly
/// when given.
pub proof fn law_media_response_headers(
    content_type: Option<Seq<char>>,
    content_range: Option<Seq<char>>,
    content_length: Option<Seq<char>>,
)
    ensures
        media_response_headers_spec(content_type, content_range, content_length)[0].0
            == "content-type"@,
        content_type matches Some(t) ==> media_response_headers_spec(
            content_type,
            content_range,
            content_length,
        )[0].1 == t,
        content_type is None ==> media_response_headers_spec(
            content_type,
            content_range,
            content_length,
        )[0].1 == "application/octet-stream"@,
        media_response_headers_spec(content_type, content_range, content_length).len() == 3 + (
        if content_range is Some {
            1int
        } else {
            0
        }) + (if content_length is Some {
            1int
        } else {
            0
        }),
        media_response_headers_spec(content_type, content_range, content_length)[1] == (
            "accept-ranges"@,
            "bytes"@,
        ),
        media_response_headers_spec(content_type, content_range, content_length)[2] == (
            "cache-control"@,
            "public, max-age=3600"@,
        ),
        content_range matches Some(r) ==> media_response_headers_spec(
            content_type,
            content_range,
            content_length,
        )[3] == ("content-range"@, r),
        content_length matches Some(l) ==> media_response_headers_spec(
            content_type,
            content_range,
            content_length,
        ).last() == ("content-length"@, l),
{
}

} // verus!
