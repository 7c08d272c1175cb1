//! What the front end shows of TikTok users, videos and tags, and the local
//! `/proxy` links through which their media are loaded.
use vstd::prelude::*;
use crate::text::{string_of_range, sub_chars, to_chars, trim_bounds, trim_whitespace, TrimSet};
use crate::encoding::{url_encode, url_encoded};

verus! {

/// A TikTok user profile with some of its videos.
#[derive(Debug, Clone)]
pub struct UserInfo {
    pub id: String,
    pub username: String,
    pub nickname: String,
    pub bio: String,
    pub avatar_url: String,
    pub follower_count: u64,
    pub following_count: u64,
    pub like_count: u64,
    pub video_count: u64,
    pub videos: Vec<VideoInfo>,
}

/// A TikTok video.
#[derive(Debug, Clone)]
pub struct VideoInfo {
    pub id: String,
    pub description: String,
    pub author_username: String,
    pub author_nickname: String,
    pub author_avatar: String,
    pub video_url: String,
    pub thumbnail_url: String,
    pub like_count: u64,
    pub comment_count: u64,
    pub share_count: u64,
    pub view_count: u64,
    pub create_time: i64,
    pub music_title: Option<String>,
    pub music_author: Option<String>,
}

/// A hashtag page with some of its videos.
#[derive(Debug, Clone)]
pub struct TagInfo {
    pub name: String,
    pub view_count: u64,
    pub videos: Vec<VideoInfo>,
}

/// The longest download title taken from a description, in characters.
pub const TITLE_CHARS: usize = 80;

/// The first `n` characters of `s` (all of it when shorter).
pub open spec fn first_chars(s: Seq<char>, n: nat) -> Seq<char> {
    if s.len() <= n {
        s
    } else {
        s.take(n as int)
    }
}

/// `&<name>=` and the encoded value, or nothing when the value is empty.
pub open spec fn opt_param(key: Seq<char>, value: Seq<char>) -> Seq<char> {
    if value.len() > 0 {
        key + url_encoded(value)
    } else {
        Seq::empty()
    }
}

/// The download title of a video: its first characters, trimmed.
pub open spec fn video_title(description: Seq<char>) -> Seq<char> {
    trim_whitespace(first_chars(description, TITLE_CHARS as nat))
}

/// The local link that streams a video, with its download metadata.
pub open spec fn proxied_video_link(v: VideoInfo) -> Seq<char> {
    "/proxy?url="@ + url_encoded(v.video_url@) + opt_param("&user="@, v.author_username@)
        + opt_param("&title="@, video_title(v.description@)) + opt_param("&id="@, v.id@)
}

/// The local link that loads a video's thumbnail.
pub open spec fn proxied_thumbnail_link(v: VideoInfo) -> Seq<char> {
    "/proxy?url="@ + url_encoded(v.thumbnail_url@) + opt_param("&user="@, v.author_username@)
        + (if v.id@.len() > 0 {
        "&title="@ + url_encoded(v.id@ + "-thumb"@) + "&id="@ + url_encoded(v.id@)
    } else {
        Seq::empty()
    })
}

/// The local link that loads a user's avatar.
pub open spec fn proxied_avatar_link(u: UserInfo) -> Seq<char> {
    "/proxy?url="@ + url_encoded(u.avatar_url@) + opt_param("&user="@, u.username@)
        + "&title=avatar"@ + opt_param("&id="@, u.id@)
}

/// Appends `key` and the encoded `value` when `value` is not empty.
fn push_opt_param(url: &mut String, key: &str, value: &str)
    ensures
        final(url)@ == old(url)@ + opt_param(key@, value@),
{
    if !value.is_empty() {
        url.append(key);
        url.append(url_encode(value).as_str());
    }
}

/// `/proxy?url=` and the encoded media URL.
fn proxy_link_start(media_url: &str) -> (url: String)
    ensures
        url@ == "/proxy?url="@ + url_encoded(media_url@),
{
    let mut url = String::from_str("/proxy?url=");
    url.append(url_encode(media_url).as_str());
    url
}

/// A description cut to its first characters and trimmed.
fn title_of(description: &str) -> (t: String)
    ensures
        t@ == video_title(description@),
{
    let d = to_chars(description);
    let n = if d.len() <= TITLE_CHARS {
        d.len()
    } else {
        TITLE_CHARS
    };
    let w = sub_chars(&d, 0, n);
    assert(w@ == first_chars(description@, TITLE_CHARS as nat));
    let (lo, hi) = trim_bounds(&w, TrimSet::Whitespace);
    string_of_range(&w, lo, hi)
}

impl VideoInfo {
    /// Proxied video URL (includes fallback download filename metadata).
    pub fn proxied_video_url(&self) -> (url: String)
        ensures
            url@ == proxied_video_link(*self),
    {
        let mut url = proxy_link_start(self.video_url.as_str());
        push_opt_param(&mut url, "&user=", self.author_username.as_str());
        let title = title_of(self.description.as_str());
        push_opt_param(&mut url, "&title=", title.as_str());
        push_opt_param(&mut url, "&id=", self.id.as_str());
        url
    }

    /// Proxied thumbnail URL.
    pub fn proxied_thumbnail_url(&self) -> (url: String)
        ensures
            url@ == proxied_thumbnail_link(*self),
    {
        let mut url = proxy_link_start(self.thumbnail_url.as_str());
        push_opt_param(&mut url, "&user=", self.author_username.as_str());
        if !self.id.as_str().is_empty() {
            let mut thumb = String::from_str(self.id.as_str());
            thumb.append("-thumb");
            url.append("&title=");
            url.append(url_encode(thumb.as_str()).as_str());
            url.append("&id=");
            url.append(url_encode(self.id.as_str()).as_str());
        }
        assert(url@ == proxied_thumbnail_link(*self));
        url
    }
}

impl UserInfo {
    /// Proxied avatar URL.
    pub fn proxied_avatar_url(&self) -> (url: String)
        ensures
            url@ == proxied_avatar_link(*self),
    {
        let mut url = proxy_link_start(self.avatar_url.as_str());
        push_opt_param(&mut url, "&user=", self.username.as_str());
        url.append("&title=avatar");
        push_opt_param(&mut url, "&id=", self.id.as_str());
        url
    }
}

} // verus!
