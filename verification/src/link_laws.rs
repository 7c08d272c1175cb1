//! The `/proxy` links split back into their fields: encoded values hold no
//! `&`, `=` or `#`, so splitting a link's query on `&`, and each field at its
//! first `=`, gives the keys in order, and decoding each value gives the field.
use vstd::prelude::*;
use vstd::utf8::{encode_utf8, is_ascii_chars, is_ascii_chars_encode_utf8};
use crate::encoding::{
    encoded_byte, hex_digit_upper, is_unreserved_byte, law_decode_inverts_encode,
    percent_encoded, url_decoded, url_encoded,
};
use crate::types::{
    opt_param, proxied_avatar_link, proxied_thumbnail_link, proxied_video_link, video_title,
    UserInfo, VideoInfo,
};

verus! {

/// `s.split(c)` for one character, with `cur` the current piece so far.
pub open spec fn split_char_from(s: Seq<char>, c: char, cur: Seq<char>) -> Seq<Seq<char>>
    decreases s.len(),
{
    if s.len() == 0 {
        seq![cur]
    } else if s[0] == c {
        seq![cur] + split_char_from(s.drop_first(), c, Seq::empty())
    } else {
        split_char_from(s.drop_first(), c, cur.push(s[0]))
    }
}

/// `s.split(c)`.
pub open spec fn split_char(s: Seq<char>, c: char) -> Seq<Seq<char>> {
    split_char_from(s, c, Seq::empty())
}

/// The pieces joined by `c`.
pub open spec fn join_char(ps: Seq<Seq<char>>, c: char) -> Seq<char>
    decreases ps.len(),
{
    if ps.len() == 0 {
        Seq::empty()
    } else if ps.len() == 1 {
        ps[0]
    } else {
        ps[0] + seq![c] + join_char(ps.drop_first(), c)
    }
}

/// The part of `s` before its first `c` (all of it when there is none).
pub open spec fn before_char(s: Seq<char>, c: char) -> Seq<char>
    decreases s.len(),
{
    if s.len() == 0 {
        s
    } else if s[0] == c {
        Seq::empty()
    } else {
        seq![s[0]] + before_char(s.drop_first(), c)
    }
}

/// The part of `s` after its first `c`.
pub open spec fn after_char(s: Seq<char>, c: char) -> Seq<char> {
    s.skip(before_char(s, c).len() + 1 as int)
}

/// A query string's fields: split on `&`, each split at its first `=`.
pub open spec fn query_fields(q: Seq<char>) -> Seq<(Seq<char>, Seq<char>)> {
    split_char(q, '&').map_values(|p: Seq<char>| (before_char(p, '='), after_char(p, '=')))
}

/// The query part of a `/proxy?...` link.
pub open spec fn link_query(link: Seq<char>) -> Seq<char> {
    link.skip(7)
}

/// A field as it stands in a link: key, `=`, encoded value.
pub open spec fn encoded_field(f: (Seq<char>, Seq<char>)) -> Seq<char> {
    f.0 + seq!['='] + url_encoded(f.1)
}

/// The fields with their values encoded.
pub open spec fn encoded_fields(fs: Seq<(Seq<char>, Seq<char>)>) -> Seq<(Seq<char>, Seq<char>)> {
    fs.map_values(|f: (Seq<char>, Seq<char>)| (f.0, url_encoded(f.1)))
}

/// A query built from fields.
pub open spec fn query_of(fs: Seq<(Seq<char>, Seq<char>)>) -> Seq<char> {
    join_char(fs.map_values(|f: (Seq<char>, Seq<char>)| encoded_field(f)), '&')
}

/// `fs` with the field `key` = `value` added when the value is not empty.
pub open spec fn push_field(fs: Seq<(Seq<char>, Seq<char>)>, key: Seq<char>, value: Seq<char>) -> Seq<
    (Seq<char>, Seq<char>),
> {
    if value.len() > 0 {
        fs.push((key, value))
    } else {
        fs
    }
}

/// The fields of a video link: the media URL, then the author, the download
/// title and the id, each when not empty.
pub open spec fn video_link_fields(v: VideoInfo) -> Seq<(Seq<char>, Seq<char>)> {
    push_field(
        push_field(
            push_field(seq![("url"@, v.video_url@)], "user"@, v.author_username@),
            "title"@,
            video_title(v.description@),
        ),
        "id"@,
        v.id@,
    )
}

/// The fields of a thumbnail link: the image URL, the author when not empty,
/// and the title `<id>-thumb` and the id when the id is not empty.
pub open spec fn thumbnail_link_fields(v: VideoInfo) -> Seq<(Seq<char>, Seq<char>)> {
    let f = push_field(seq![("url"@, v.thumbnail_url@)], "user"@, v.author_username@);
    if v.id@.len() > 0 {
        f.push(("title"@, v.id@ + "-thumb"@)).push(("id"@, v.id@))
    } else {
        f
    }
}

/// The fields of an avatar link: the image URL, the user when not empty, the
/// title `avatar`, and the id when not empty.
pub open spec fn avatar_link_fields(u: UserInfo) -> Seq<(Seq<char>, Seq<char>)> {
    push_field(
        push_field(seq![("url"@, u.avatar_url@)], "user"@, u.username@).push(
            ("title"@, "avatar"@),
        ),
        "id"@,
        u.id@,
    )
}

/// Characters that percent-encoding produces.
pub open spec fn is_encoding_char(c: char) -> bool {
    ||| ('0' <= c && c <= '9')
    ||| ('A' <= c && c <= 'Z')
    ||| ('a' <= c && c <= 'z')
    ||| c == '-' || c == '.' || c == '_' || c == '~' || c == '%'
}

proof fn lemma_encoded_byte_chars(b: u8)
    ensures
        forall|i: int| 0 <= i < encoded_byte(b).len() ==> is_encoding_char(#[trigger] encoded_byte(b)[i]),
{
    if !is_unreserved_byte(b) {
        assert(b / 16 < 16);
        assert(b % 16 < 16);
        assert(is_encoding_char(hex_digit_upper(b / 16)));
        assert(is_encoding_char(hex_digit_upper(b % 16)));
    }
}

proof fn lemma_percent_encoded_chars(bytes: Seq<u8>)
    ensures
        forall|i: int|
            0 <= i < percent_encoded(bytes).len() ==> is_encoding_char(#[trigger] percent_encoded(bytes)[i]),
    decreases bytes.len(),
{
    if bytes.len() > 0 {
        let e = encoded_byte(bytes[0]);
        let r = percent_encoded(bytes.drop_first());
        lemma_encoded_byte_chars(bytes[0]);
        lemma_percent_encoded_chars(bytes.drop_first());
        assert(percent_encoded(bytes) == e + r);
        assert forall|i: int| 0 <= i < (e + r).len() implies is_encoding_char(#[trigger] (e + r)[i]) by {
            if i < e.len() {
                assert((e + r)[i] == e[i]);
            } else {
                assert((e + r)[i] == r[i - e.len()]);
            }
        }
    }
}

/// An encoded value holds only letters, digits, `-`, `.`, `_`, `~` and `%`: no
/// `&`, `=` or `#`, so it cannot end a field or a query.
pub proof fn law_encoded_value_delimiter_free(s: Seq<char>)
    ensures
        forall|i: int| 0 <= i < url_encoded(s).len() ==> is_encoding_char(#[trigger] url_encoded(s)[i]),
        forall|i: int|
            0 <= i < url_encoded(s).len() ==> #[trigger] url_encoded(s)[i] != '&' && url_encoded(s)[i]
                != '=' && url_encoded(s)[i] != '#',
{
    lemma_percent_encoded_chars(encode_utf8(s));
}

proof fn lemma_split_char_append(x: Seq<char>, y: Seq<char>, c: char, cur: Seq<char>)
    requires
        forall|i: int| 0 <= i < x.len() ==> x[i] != c,
    ensures
        split_char_from(x + y, c, cur) == split_char_from(y, c, cur + x),
    decreases x.len(),
{
    if x.len() == 0 {
        assert(x + y == y);
        assert(cur + x == cur);
    } else {
        let s = x + y;
        assert(s[0] == x[0]);
        assert(s.drop_first() == x.drop_first() + y);
        assert forall|i: int| 0 <= i < x.drop_first().len() implies x.drop_first()[i] != c by {
            assert(x.drop_first()[i] == x[i + 1]);
        }
        lemma_split_char_append(x.drop_first(), y, c, cur.push(x[0]));
        assert(cur.push(x[0]) + x.drop_first() == cur + x);
    }
}

proof fn lemma_split_join_char(ps: Seq<Seq<char>>, c: char)
    requires
        ps.len() >= 1,
        forall|k: int, i: int| 0 <= k < ps.len() && 0 <= i < ps[k].len() ==> #[trigger] ps[k][i] != c,
    ensures
        split_char(join_char(ps, c), c) == ps,
    decreases ps.len(),
{
    let x = ps[0];
    assert forall|i: int| 0 <= i < x.len() implies x[i] != c by {
        assert(ps[0][i] != c);
    }
    if ps.len() == 1 {
        lemma_split_char_append(x, Seq::empty(), c, Seq::empty());
        assert(x + Seq::<char>::empty() == x);
        assert(Seq::<char>::empty() + x == x);
        assert(seq![x] == ps);
    } else {
        let rest = ps.drop_first();
        assert forall|k: int, i: int| 0 <= k < rest.len() && 0 <= i < rest[k].len() implies #[trigger] rest[k][i] != c by {
            assert(rest[k] == ps[k + 1]);
        }
        lemma_split_join_char(rest, c);
        let j = join_char(rest, c);
        let y = seq![c] + j;
        assert(join_char(ps, c) == x + y);
        lemma_split_char_append(x, y, c, Seq::empty());
        assert(Seq::<char>::empty() + x == x);
        assert(y.drop_first() == j);
        assert(seq![x] + rest == ps);
    }
}

proof fn lemma_before_char(k: Seq<char>, v: Seq<char>, c: char)
    requires
        forall|i: int| 0 <= i < k.len() ==> k[i] != c,
    ensures
        before_char(k + seq![c] + v, c) == k,
        after_char(k + seq![c] + v, c) == v,
    decreases k.len(),
{
    let s = k + seq![c] + v;
    if k.len() == 0 {
        assert(s[0] == c);
        assert(s.skip(1) == v);
    } else {
        let k1 = k.drop_first();
        assert forall|i: int| 0 <= i < k1.len() implies k1[i] != c by {
            assert(k1[i] == k[i + 1]);
        }
        lemma_before_char(k1, v, c);
        assert(s.drop_first() == k1 + seq![c] + v);
        assert(seq![k[0]] + k1 == k);
        assert(s.skip(k.len() + 1 as int) == v);
    }
}

proof fn lemma_join_char_push(ps: Seq<Seq<char>>, p: Seq<char>, c: char)
    requires
        ps.len() >= 1,
    ensures
        join_char(ps.push(p), c) == join_char(ps, c) + seq![c] + p,
    decreases ps.len(),
{
    assert(ps.push(p).drop_first() == ps.drop_first().push(p));
    if ps.len() == 1 {
        assert(ps.drop_first().push(p) == seq![p]);
        assert(join_char(seq![p], c) == p);
    } else {
        lemma_join_char_push(ps.drop_first(), p, c);
        assert(join_char(ps.push(p), c) == ps[0] + seq![c] + (join_char(ps.drop_first(), c)
            + seq![c] + p));
    }
}

/// No key holds `&` or `=`.
pub open spec fn keys_plain(fs: Seq<(Seq<char>, Seq<char>)>) -> bool {
    forall|k: int, i: int|
        0 <= k < fs.len() && 0 <= i < fs[k].0.len() ==> #[trigger] fs[k].0[i] != '&' && fs[k].0[i]
            != '='
}

/// A query built from fields with plain keys splits back into the keys and
/// the encoded values.
pub proof fn law_query_fields(fs: Seq<(Seq<char>, Seq<char>)>)
    requires
        fs.len() >= 1,
        keys_plain(fs),
    ensures
        query_fields(query_of(fs)) == encoded_fields(fs),
{
    let ps = fs.map_values(|f: (Seq<char>, Seq<char>)| encoded_field(f));
    assert forall|k: int, i: int| 0 <= k < ps.len() && 0 <= i < ps[k].len() implies #[trigger] ps[k][i]
        != '&' by {
        let f = fs[k];
        law_encoded_value_delimiter_free(f.1);
        let key = f.0;
        if i < key.len() {
            assert(ps[k][i] == key[i]);
        } else if i > key.len() {
            assert(ps[k][i] == url_encoded(f.1)[i - key.len() - 1]);
        }
    }
    lemma_split_join_char(ps, '&');
    assert forall|k: int| 0 <= k < fs.len() implies #[trigger] query_fields(query_of(fs))[k]
        == encoded_fields(fs)[k] by {
        let f = fs[k];
        assert forall|i: int| 0 <= i < f.0.len() implies f.0[i] != '=' by {
            assert(fs[k].0[i] != '=');
        }
        lemma_before_char(f.0, url_encoded(f.1), '=');
        assert(ps[k] == f.0 + seq!['='] + url_encoded(f.1));
    }
}

proof fn lemma_query_push(fs: Seq<(Seq<char>, Seq<char>)>, f: (Seq<char>, Seq<char>))
    requires
        fs.len() >= 1,
    ensures
        query_of(fs.push(f)) == query_of(fs) + seq!['&'] + encoded_field(f),
{
    let g = |f: (Seq<char>, Seq<char>)| encoded_field(f);
    assert(fs.push(f).map_values(g) == fs.map_values(g).push(encoded_field(f)));
    lemma_join_char_push(fs.map_values(g), encoded_field(f), '&');
}

proof fn lemma_query_push_field(fs: Seq<(Seq<char>, Seq<char>)>, key: Seq<char>, value: Seq<char>, lit: Seq<char>)
    requires
        fs.len() >= 1,
        lit == seq!['&'] + key + seq!['='],
    ensures
        query_of(push_field(fs, key, value)) == query_of(fs) + opt_param(lit, value),
{
    if value.len() > 0 {
        lemma_query_push(fs, (key, value));
    } else {
        assert(query_of(fs) + Seq::<char>::empty() == query_of(fs));
    }
}

proof fn lemma_query_one(key: Seq<char>, value: Seq<char>)
    ensures
        query_of(seq![(key, value)]) == key + seq!['='] + url_encoded(value),
{
    let g = |f: (Seq<char>, Seq<char>)| encoded_field(f);
    assert(seq![(key, value)].map_values(g) == seq![encoded_field((key, value))]);
}

proof fn lemma_literals()
    ensures
        "/proxy?url="@ == "/proxy?"@ + "url"@ + seq!['='],
        "&user="@ == seq!['&'] + "user"@ + seq!['='],
        "&title="@ == seq!['&'] + "title"@ + seq!['='],
        "&id="@ == seq!['&'] + "id"@ + seq!['='],
        "/proxy?"@.len() == 7,
{
    reveal_strlit("/proxy?url=");
    reveal_strlit("/proxy?");
    reveal_strlit("url");
    reveal_strlit("&user=");
    reveal_strlit("user");
    reveal_strlit("&title=");
    reveal_strlit("title");
    reveal_strlit("&id=");
    reveal_strlit("id");
}

proof fn lemma_keys_plain_push(fs: Seq<(Seq<char>, Seq<char>)>, f: (Seq<char>, Seq<char>))
    requires
        keys_plain(fs),
        forall|i: int| 0 <= i < f.0.len() ==> f.0[i] != '&' && f.0[i] != '=',
    ensures
        keys_plain(fs.push(f)),
{
    assert forall|k: int, i: int| 0 <= k < fs.push(f).len() && 0 <= i < fs.push(f)[k].0.len() implies #[trigger] fs.push(f)[k].0[i] != '&'
        && fs.push(f)[k].0[i] != '=' by {
        if k < fs.len() {
            assert(fs.push(f)[k] == fs[k]);
        }
    }
}

proof fn lemma_key_literals()
    ensures
        forall|i: int| 0 <= i < "url"@.len() ==> "url"@[i] != '&' && "url"@[i] != '=',
        forall|i: int| 0 <= i < "user"@.len() ==> "user"@[i] != '&' && "user"@[i] != '=',
        forall|i: int| 0 <= i < "title"@.len() ==> "title"@[i] != '&' && "title"@[i] != '=',
        forall|i: int| 0 <= i < "id"@.len() ==> "id"@[i] != '&' && "id"@[i] != '=',
{
    reveal_strlit("url");
    reveal_strlit("user");
    reveal_strlit("title");
    reveal_strlit("id");
}

proof fn lemma_keys_plain_push_field(
    fs: Seq<(Seq<char>, Seq<char>)>,
    key: Seq<char>,
    value: Seq<char>,
)
    requires
        keys_plain(fs),
        forall|i: int| 0 <= i < key.len() ==> key[i] != '&' && key[i] != '=',
    ensures
        keys_plain(push_field(fs, key, value)),
        push_field(fs, key, value).len() >= fs.len(),
{
    if value.len() > 0 {
        lemma_keys_plain_push(fs, (key, value));
    }
}

/// Every field of a link decodes back to the value it was built from.
proof fn lemma_fields_decode(fs: Seq<(Seq<char>, Seq<char>)>)
    ensures
        forall|k: int|
            0 <= k < fs.len() ==> url_decoded(#[trigger] encoded_fields(fs)[k].1) == Some(fs[k].1),
{
    assert forall|k: int| 0 <= k < fs.len() implies url_decoded(#[trigger] encoded_fields(fs)[k].1)
        == Some(fs[k].1) by {
        law_decode_inverts_encode(fs[k].1);
    }
}

/// A video's `/proxy` link splits back into its fields: `url`, then `user`,
/// `title` and `id` when present, and each value decodes to the media URL, the
/// author, the download title and the id.
pub proof fn law_video_link_fields(v: VideoInfo)
    ensures
        proxied_video_link(v) == "/proxy?"@ + link_query(proxied_video_link(v)),
        query_fields(link_query(proxied_video_link(v))) == encoded_fields(video_link_fields(v)),
        forall|k: int|
            0 <= k < video_link_fields(v).len() ==> url_decoded(
                #[trigger] query_fields(link_query(proxied_video_link(v)))[k].1,
            ) == Some(video_link_fields(v)[k].1),
{
    lemma_literals();
    lemma_key_literals();
    let f0 = seq![("url"@, v.video_url@)];
    let f1 = push_field(f0, "user"@, v.author_username@);
    let f2 = push_field(f1, "title"@, video_title(v.description@));
    let f3 = push_field(f2, "id"@, v.id@);
    lemma_query_one("url"@, v.video_url@);
    lemma_query_push_field(f0, "user"@, v.author_username@, "&user="@);
    lemma_query_push_field(f1, "title"@, video_title(v.description@), "&title="@);
    lemma_query_push_field(f2, "id"@, v.id@, "&id="@);
    let link = proxied_video_link(v);
    assert(link == "/proxy?"@ + query_of(f3));
    assert(link.skip(7) == query_of(f3));
    assert(keys_plain(f0));
    lemma_keys_plain_push_field(f0, "user"@, v.author_username@);
    lemma_keys_plain_push_field(f1, "title"@, video_title(v.description@));
    lemma_keys_plain_push_field(f2, "id"@, v.id@);
    law_query_fields(f3);
    lemma_fields_decode(f3);
}

/// A thumbnail's `/proxy` link splits back into its fields: `url`, `user` when
/// present, and `title` (`<id>-thumb`) and `id` when the id is not empty.
pub proof fn law_thumbnail_link_fields(v: VideoInfo)
    ensures
        proxied_thumbnail_link(v) == "/proxy?"@ + link_query(proxied_thumbnail_link(v)),
        query_fields(link_query(proxied_thumbnail_link(v))) == encoded_fields(
            thumbnail_link_fields(v),
        ),
        forall|k: int|
            0 <= k < thumbnail_link_fields(v).len() ==> url_decoded(
                #[trigger] query_fields(link_query(proxied_thumbnail_link(v)))[k].1,
            ) == Some(thumbnail_link_fields(v)[k].1),
{
    lemma_literals();
    lemma_key_literals();
    let f0 = seq![("url"@, v.thumbnail_url@)];
    let f1 = push_field(f0, "user"@, v.author_username@);
    lemma_query_one("url"@, v.thumbnail_url@);
    lemma_query_push_field(f0, "user"@, v.author_username@, "&user="@);
    assert(keys_plain(f0));
    lemma_keys_plain_push_field(f0, "user"@, v.author_username@);
    let link = proxied_thumbnail_link(v);
    if v.id@.len() > 0 {
        let t = ("title"@, v.id@ + "-thumb"@);
        let i = ("id"@, v.id@);
        lemma_query_push(f1, t);
        lemma_query_push(f1.push(t), i);
        assert(link == "/proxy?"@ + query_of(f1.push(t).push(i)));
        lemma_keys_plain_push(f1, t);
        lemma_keys_plain_push(f1.push(t), i);
    } else {
        assert(link == "/proxy?"@ + query_of(f1));
    }
    assert(link.skip(7) == query_of(thumbnail_link_fields(v)));
    law_query_fields(thumbnail_link_fields(v));
    lemma_fields_decode(thumbnail_link_fields(v));
}

proof fn lemma_plain_encoded(s: Seq<char>)
    requires
        forall|i: int| 0 <= i < s.len() ==> 'a' <= #[trigger] s[i] && s[i] <= 'z',
    ensures
        url_encoded(s) == s,
{
    assert(is_ascii_chars(s));
    is_ascii_chars_encode_utf8(s);
    lemma_plain_bytes(encode_utf8(s), s);
}

proof fn lemma_plain_bytes(b: Seq<u8>, s: Seq<char>)
    requires
        b.len() == s.len(),
        forall|i: int| 0 <= i < s.len() ==> 'a' <= #[trigger] s[i] && s[i] <= 'z',
        forall|i: int| 0 <= i < s.len() ==> s[i] as u8 == #[trigger] b[i],
    ensures
        percent_encoded(b) == s,
    decreases b.len(),
{
    if b.len() > 0 {
        assert(is_unreserved_byte(b[0]));
        assert((b[0] as char) == s[0]);
        let b1 = b.drop_first();
        let s1 = s.drop_first();
        assert forall|i: int| 0 <= i < s1.len() implies 'a' <= #[trigger] s1[i] && s1[i] <= 'z' by {
            assert(s1[i] == s[i + 1]);
        }
        assert forall|i: int| 0 <= i < s1.len() implies s1[i] as u8 == #[trigger] b1[i] by {
            assert(s1[i] == s[i + 1]);
        }
        lemma_plain_bytes(b1, s1);
        assert(seq![s[0]] + s1 == s);
    } else {
        assert(s == Seq::<char>::empty());
    }
}

/// An avatar's `/proxy` link splits back into its fields: `url`, `user` when
/// present, `title` (always `avatar`), and `id` when present.
pub proof fn law_avatar_link_fields(u: UserInfo)
    ensures
        proxied_avatar_link(u) == "/proxy?"@ + link_query(proxied_avatar_link(u)),
        query_fields(link_query(proxied_avatar_link(u))) == encoded_fields(avatar_link_fields(u)),
        forall|k: int|
            0 <= k < avatar_link_fields(u).len() ==> url_decoded(
                #[trigger] query_fields(link_query(proxied_avatar_link(u)))[k].1,
            ) == Some(avatar_link_fields(u)[k].1),
{
    lemma_literals();
    lemma_key_literals();
    reveal_strlit("avatar");
    reveal_strlit("title");
    reveal_strlit("&title=avatar");
    lemma_plain_encoded("avatar"@);
    let f0 = seq![("url"@, u.avatar_url@)];
    let f1 = push_field(f0, "user"@, u.username@);
    let t = ("title"@, "avatar"@);
    let f2 = f1.push(t);
    let f3 = push_field(f2, "id"@, u.id@);
    lemma_query_one("url"@, u.avatar_url@);
    lemma_query_push_field(f0, "user"@, u.username@, "&user="@);
    lemma_query_push(f1, t);
    assert(encoded_field(t) == "title"@ + seq!['='] + "avatar"@);
    assert("&title=avatar"@ == seq!['&'] + encoded_field(t));
    lemma_query_push_field(f2, "id"@, u.id@, "&id="@);
    let link = proxied_avatar_link(u);
    assert(link == "/proxy?"@ + query_of(f3));
    assert(link.skip(7) == query_of(f3));
    assert(keys_plain(f0));
    lemma_keys_plain_push_field(f0, "user"@, u.username@);
    lemma_keys_plain_push(f1, t);
    lemma_keys_plain_push_field(f2, "id"@, u.id@);
    law_query_fields(f3);
    lemma_fields_decode(f3);
}

} // verus!
