//! The cookie string sent on CDN media requests, and the `tt_chain_token`
//! pair inside it.
//!
//! The string is a `Cookie` header value: `name=value` pairs joined by `"; "`.
//! TikTok's CDN wants a fresh `tt_chain_token`; every update replaces the one
//! pair of that name and keeps the other pairs in order.
use vstd::prelude::*;
use crate::config::Config;
use crate::text::{
    append_range, has_prefix, occurs_at_exec, string_of_range, sub_chars, to_chars, trim_bounds,
    trim_both, trim_whitespace, TrimSet,
};

verus! {

/// The separator between the pairs of a `Cookie` header.
pub open spec fn pair_sep() -> Seq<char> {
    seq![';', ' ']
}

/// The start of the pair that carries the chain token.
pub open spec fn chain_token_prefix() -> Seq<char> {
    "tt_chain_token="@
}

/// Splitting on `"; "` from the left (`str::split`), with `cur` the part of the
/// current piece already read.
pub open spec fn split_from(s: Seq<char>, cur: Seq<char>) -> Seq<Seq<char>>
    decreases s.len(),
{
    if s.len() == 0 {
        seq![cur]
    } else if s.len() >= 2 && s[0] == ';' && s[1] == ' ' {
        seq![cur] + split_from(s.skip(2), Seq::empty())
    } else {
        split_from(s.drop_first(), cur.push(s[0]))
    }
}

/// The pieces of `s` between occurrences of `"; "` (`s.split("; ")`).
pub open spec fn split_pairs(s: Seq<char>) -> Seq<Seq<char>> {
    split_from(s, Seq::empty())
}

/// The pieces joined by `"; "` (`[..].join("; ")`).
pub open spec fn join_pairs(ps: Seq<Seq<char>>) -> Seq<char>
    decreases ps.len(),
{
    if ps.len() == 0 {
        Seq::empty()
    } else if ps.len() == 1 {
        ps[0]
    } else {
        ps[0] + pair_sep() + join_pairs(ps.drop_first())
    }
}

/// Whether a pair is the chain-token pair.
pub open spec fn is_chain_token_pair(p: Seq<char>) -> bool {
    has_prefix(p, chain_token_prefix())
}

/// Whether a pair survives the removal of the chain token: it is not the
/// chain-token pair, and, when `drop_empty`, it is not empty.
pub open spec fn keeps_pair(p: Seq<char>, drop_empty: bool) -> bool {
    !is_chain_token_pair(p) && !(drop_empty && p.len() == 0)
}

/// The pieces that survive the removal of the chain token, in order.
pub open spec fn kept_pairs(ps: Seq<Seq<char>>, drop_empty: bool) -> Seq<Seq<char>>
    decreases ps.len(),
{
    if ps.len() == 0 {
        Seq::empty()
    } else if keeps_pair(ps.last(), drop_empty) {
        kept_pairs(ps.drop_last(), drop_empty).push(ps.last())
    } else {
        kept_pairs(ps.drop_last(), drop_empty)
    }
}

/// The cookie string with its chain-token pairs removed.
pub open spec fn without_chain_token(s: Seq<char>, drop_empty: bool) -> Seq<char> {
    join_pairs(kept_pairs(split_pairs(s), drop_empty))
}

/// `rest` with the pair `tt_chain_token=<token>` appended.
pub open spec fn with_chain_token(rest: Seq<char>, token: Seq<char>) -> Seq<char> {
    if rest.len() == 0 {
        chain_token_prefix() + token
    } else {
        rest + pair_sep() + chain_token_prefix() + token
    }
}

/// The media cookie string after a new chain token was seen.
pub open spec fn updated_cookies(cookies: Seq<char>, token: Seq<char>) -> Seq<char> {
    with_chain_token(without_chain_token(cookies, true), token)
}

/// A cookie value as the configuration and `Set-Cookie` give it: whitespace
/// trimmed, then surrounding double quotes removed.
pub open spec fn cookie_value(s: Seq<char>) -> Seq<char> {
    trim_both(trim_whitespace(s), TrimSet::Char('"'))
}

/// A cookie value, trimmed, when one is given and it is not empty after trimming.
pub open spec fn nonempty_cookie_value(o: Option<Seq<char>>) -> Option<Seq<char>> {
    match o {
        Some(s) => if cookie_value(s).len() > 0 {
            Some(cookie_value(s))
        } else {
            None
        },
        None => None,
    }
}

/// The `Cookie` header for a CDN request, from the stored media cookies and an
/// optional per-request chain token.
pub open spec fn cookie_header(base: Seq<char>, override_ttc: Option<Seq<char>>) -> Option<
    Seq<char>,
> {
    match nonempty_cookie_value(override_ttc) {
        None => if base.len() == 0 {
            None
        } else {
            Some(base)
        },
        Some(t) => if base.len() == 0 {
            Some(chain_token_prefix() + t)
        } else {
            Some(with_chain_token(without_chain_token(base, false), t))
        },
    }
}

/// The part of a `Set-Cookie` value before its first `;`.
pub open spec fn first_field(s: Seq<char>) -> Seq<char>
    decreases s.len(),
{
    if s.len() == 0 {
        s
    } else if s[0] == ';' {
        Seq::empty()
    } else {
        seq![s[0]] + first_field(s.drop_first())
    }
}

/// The chain token that a `Set-Cookie` value sets, if any.
pub open spec fn set_cookie_chain_token(raw: Seq<char>) -> Option<Seq<char>> {
    let pair = first_field(raw);
    if is_chain_token_pair(pair) {
        let t = cookie_value(pair.skip(chain_token_prefix().len() as int));
        if t.len() > 0 {
            Some(t)
        } else {
            None
        }
    } else {
        None
    }
}

/// The media cookies after the `Set-Cookie` values of one response, in order.
pub open spec fn ingest_set_cookies(cookies: Seq<char>, values: Seq<Seq<char>>) -> Seq<char>
    decreases values.len(),
{
    if values.len() == 0 {
        cookies
    } else {
        let before = ingest_set_cookies(cookies, values.drop_last());
        match set_cookie_chain_token(values.last()) {
            Some(t) => updated_cookies(before, t),
            None => before,
        }
    }
}

pub open spec fn opt_str_view(o: Option<&str>) -> Option<Seq<char>> {
    match o {
        Some(s) => Some(s@),
        None => None,
    }
}

pub open spec fn opt_string_view(o: Option<String>) -> Option<Seq<char>> {
    match o {
        Some(s) => Some(s@),
        None => None,
    }
}

/// A cookie value with surrounding whitespace and then double quotes removed.
pub fn trim_cookie_value(value: &str) -> (res: String)
    ensures
        res@ == cookie_value(value@),
{
    let v = to_chars(value);
    let (lo, hi) = trim_bounds(&v, TrimSet::Whitespace);
    let w = sub_chars(&v, lo, hi);
    let (lo2, hi2) = trim_bounds(&w, TrimSet::Char('"'));
    string_of_range(&w, lo2, hi2)
}

pub(crate) proof fn lemma_join_push(ps: Seq<Seq<char>>, p: Seq<char>)
    requires
        ps.len() >= 1,
    ensures
        join_pairs(ps.push(p)) == join_pairs(ps) + pair_sep() + p,
    decreases ps.len(),
{
    assert(ps.push(p).drop_first() == ps.drop_first().push(p));
    if ps.len() == 1 {
        assert(ps.drop_first().push(p) == seq![p]);
        assert(join_pairs(seq![p]) == p);
    } else {
        lemma_join_push(ps.drop_first(), p);
        assert(join_pairs(ps.push(p)) == ps[0] + pair_sep() + (join_pairs(ps.drop_first())
            + pair_sep() + p));
    }
}

/// Appends one piece, when it survives, to the joined survivors.
fn push_kept_pair(
    out: &mut String,
    any_kept: bool,
    v: &Vec<char>,
    prefix: &Vec<char>,
    lo: usize,
    hi: usize,
    drop_empty: bool,
    Ghost(done): Ghost<Seq<Seq<char>>>,
) -> (any_after: bool)
    requires
        lo <= hi <= v.len(),
        prefix@ == chain_token_prefix(),
        old(out)@ == join_pairs(kept_pairs(done, drop_empty)),
        any_kept == (kept_pairs(done, drop_empty).len() > 0),
    ensures
        final(out)@ == join_pairs(
            kept_pairs(done.push(v@.subrange(lo as int, hi as int)), drop_empty),
        ),
        any_after == (kept_pairs(done.push(v@.subrange(lo as int, hi as int)), drop_empty).len()
            > 0),
{
    let ghost piece = v@.subrange(lo as int, hi as int);
    let is_token = prefix.len() <= hi - lo && occurs_at_exec(v, prefix, lo);
    proof {
        assert(done.push(piece).drop_last() == done);
        if prefix.len() <= hi - lo {
            assert(piece.subrange(0, prefix@.len() as int) == v@.subrange(
                lo as int,
                lo + prefix@.len(),
            ));
        }
    }
    if !is_token && !(drop_empty && lo == hi) {
        proof {
            if any_kept {
                lemma_join_push(kept_pairs(done, drop_empty), piece);
            } else {
                assert(kept_pairs(done, drop_empty).push(piece) == seq![piece]);
            }
        }
        if any_kept {
            out.append("; ");
            proof {
                reveal_strlit("; ");
                assert("; "@ == pair_sep());
            }
        }
        append_range(out, v, lo, hi);
        true
    } else {
        any_kept
    }
}

proof fn lemma_split_step_sep(v: Seq<char>, start: int, i: int)
    requires
        0 <= start <= i,
        i + 1 < v.len(),
        v[i] == ';',
        v[i + 1] == ' ',
    ensures
        split_from(v.skip(i), v.subrange(start, i)) == seq![v.subrange(start, i)] + split_from(
            v.skip(i + 2),
            v.subrange(i + 2, i + 2),
        ),
{
    let w = v.skip(i);
    assert(w.skip(2) == v.skip(i + 2));
    assert(v.subrange(i + 2, i + 2) == Seq::<char>::empty());
}

proof fn lemma_split_step_char(v: Seq<char>, start: int, i: int)
    requires
        0 <= start <= i < v.len(),
        !(i + 1 < v.len() && v[i] == ';' && v[i + 1] == ' '),
    ensures
        split_from(v.skip(i), v.subrange(start, i)) == split_from(
            v.skip(i + 1),
            v.subrange(start, i + 1),
        ),
{
    let w = v.skip(i);
    assert(w.drop_first() == v.skip(i + 1));
    assert(v.subrange(start, i).push(v[i]) == v.subrange(start, i + 1));
}

/// The cookie string without its chain-token pairs (and, when `drop_empty`,
/// without empty pieces), the other pieces joined by `"; "` in order.
pub fn strip_chain_token(cookies: &str, drop_empty: bool) -> (out: String)
    ensures
        out@ == without_chain_token(cookies@, drop_empty),
{
    let v = to_chars(cookies);
    let prefix = to_chars("tt_chain_token=");
    let n = v.len();
    let mut out = String::new();
    let mut any_kept = false;
    let mut start: usize = 0;
    let mut i: usize = 0;
    let ghost mut done: Seq<Seq<char>> = Seq::empty();
    proof {
        assert(v@.skip(0) == v@);
        assert(v@.subrange(0, 0) == Seq::<char>::empty());
    }
    while i < n
        invariant
            n == v.len(),
            prefix@ == chain_token_prefix(),
            start <= i <= n,
            split_pairs(v@) == done + split_from(v@.skip(i as int), v@.subrange(start as int, i as int)),
            out@ == join_pairs(kept_pairs(done, drop_empty)),
            any_kept == (kept_pairs(done, drop_empty).len() > 0),
        decreases n - i,
    {
        if i + 1 < n && v[i] == ';' && v[i + 1] == ' ' {
            proof {
                lemma_split_step_sep(v@, start as int, i as int);
            }
            let ghost piece = v@.subrange(start as int, i as int);
            any_kept = push_kept_pair(&mut out, any_kept, &v, &prefix, start, i, drop_empty, Ghost(done));
            proof {
                assert(done + (seq![piece] + split_from(v@.skip(i + 2), v@.subrange(i + 2, i + 2)))
                    == done.push(piece) + split_from(v@.skip(i + 2), v@.subrange(i + 2, i + 2)));
                done = done.push(piece);
            }
            i = i + 2;
            start = i;
        } else {
            proof {
                lemma_split_step_char(v@, start as int, i as int);
            }
            i = i + 1;
        }
    }
    let ghost last = v@.subrange(start as int, n as int);
    proof {
        assert(v@.skip(n as int) == Seq::<char>::empty());
        assert(done + seq![last] == done.push(last));
    }
    push_kept_pair(&mut out, any_kept, &v, &prefix, start, n, drop_empty, Ghost(done));
    out
}

/// Replaces the chain-token pair of the media cookies with `tt_chain_token=<token>`,
/// placed last; empty pieces are dropped and the other pairs keep their order.
pub fn update_media_tt_chain_token(cookies: &mut String, token: &str)
    ensures
        final(cookies)@ == updated_cookies(old(cookies)@, token@),
{
    let without = strip_chain_token(cookies.as_str(), true);
    let mut next: String;
    if without.as_str().is_empty() {
        next = String::new();
    } else {
        next = without;
        next.append("; ");
    }
    next.append("tt_chain_token=");
    next.append(token);
    proof {
        reveal_strlit("; ");
    }
    *cookies = next;
}

/// The `Cookie` header for a CDN fetch: the stored media cookies (`base`, empty
/// when none were configured) with the chain-token pair replaced by the
/// per-request override, if one is given and not empty after trimming.
pub fn media_cookie_header(base: &str, override_ttc: Option<&str>) -> (res: Option<String>)
    ensures
        opt_string_view(res) == cookie_header(base@, opt_str_view(override_ttc)),
{
    let ttc: Option<String> = match override_ttc {
        Some(o) => {
            let t = trim_cookie_value(o);
            if t.as_str().is_empty() {
                None
            } else {
                Some(t)
            }
        },
        None => None,
    };
    match ttc {
        None => if base.is_empty() {
            None
        } else {
            Some(String::from_str(base))
        },
        Some(t) => {
            let mut header: String;
            if base.is_empty() {
                header = String::new();
            } else {
                let without = strip_chain_token(base, false);
                if without.as_str().is_empty() {
                    header = String::new();
                } else {
                    header = without;
                    header.append("; ");
                }
            }
            header.append("tt_chain_token=");
            header.append(t.as_str());
            proof {
                reveal_strlit("; ");
            }
            Some(header)
        },
    }
}

proof fn lemma_first_field_take(s: Seq<char>, k: int)
    requires
        0 <= k <= s.len(),
        forall|j: int| 0 <= j < k ==> s[j] != ';',
        k == s.len() || s[k] == ';',
    ensures
        first_field(s) == s.take(k),
    decreases k,
{
    if k > 0 {
        lemma_first_field_take(s.drop_first(), k - 1);
        assert(s.take(k) == seq![s[0]] + s.drop_first().take(k - 1));
    } else {
        assert(s.take(0) == Seq::<char>::empty());
    }
}

/// The chain token that one `Set-Cookie` value sets: its first `name=value`
/// field, when the name is `tt_chain_token` and the trimmed value is not empty.
pub fn chain_token_from_set_cookie(raw: &str) -> (res: Option<String>)
    ensures
        opt_string_view(res) == set_cookie_chain_token(raw@),
{
    let v = to_chars(raw);
    let n = v.len();
    let mut k: usize = 0;
    while k < n && v[k] != ';'
        invariant
            k <= n == v.len(),
            forall|j: int| 0 <= j < k ==> v@[j] != ';',
        decreases n - k,
    {
        k = k + 1;
    }
    proof {
        lemma_first_field_take(v@, k as int);
    }
    let prefix = to_chars("tt_chain_token=");
    let ghost pair = v@.take(k as int);
    if prefix.len() <= k && occurs_at_exec(&v, &prefix, 0) {
        proof {
            assert(pair.subrange(0, prefix@.len() as int) == v@.subrange(0, prefix@.len() as int));
        }
        let value = string_of_range(&v, prefix.len(), k);
        assert(value@ == pair.skip(prefix@.len() as int));
        let t = trim_cookie_value(value.as_str());
        if t.as_str().is_empty() {
            None
        } else {
            Some(t)
        }
    } else {
        proof {
            if prefix@.len() <= k {
                assert(pair.subrange(0, prefix@.len() as int) == v@.subrange(
                    0,
                    prefix@.len() as int,
                ));
            }
        }
        None
    }
}

/// The pairs of the media cookies that the configuration sets, in order.
pub open spec fn configured_pairs(
    verify_fp: Option<Seq<char>>,
    device_id: Option<Seq<char>>,
    tt_chain_token: Option<Seq<char>>,
) -> Seq<Seq<char>> {
    (match verify_fp {
        Some(v) => seq!["s_v_web_id="@ + cookie_value(v)],
        None => Seq::empty(),
    }) + (match device_id {
        Some(v) => seq!["tt_webid="@ + cookie_value(v), "tt_webid_v2="@ + cookie_value(v)],
        None => Seq::empty(),
    }) + (match tt_chain_token {
        Some(v) => seq![chain_token_prefix() + cookie_value(v)],
        None => Seq::empty(),
    })
}

/// Appends the pair `name` + `value` to the pairs joined so far.
fn push_pair(
    out: &mut String,
    first: bool,
    Ghost(ps): Ghost<Seq<Seq<char>>>,
    name: &str,
    value: &str,
)
    requires
        old(out)@ == join_pairs(ps),
        first == (ps.len() == 0),
    ensures
        final(out)@ == join_pairs(ps.push(name@ + value@)),
{
    proof {
        if ps.len() == 0 {
            assert(ps.push(name@ + value@) == seq![name@ + value@]);
        } else {
            lemma_join_push(ps, name@ + value@);
        }
        reveal_strlit("; ");
    }
    if !first {
        out.append("; ");
    }
    out.append(name);
    out.append(value);
}

/// The media cookies that the configuration sets: `s_v_web_id`, `tt_webid`,
/// `tt_webid_v2` and `tt_chain_token`, each when its setting is present, with
/// the value trimmed, joined by `"; "`.
pub fn initial_media_cookies(config: &Config) -> (cookies: String)
    ensures
        cookies@ == join_pairs(
            configured_pairs(
                opt_string_view(config.api_verify_fp),
                opt_string_view(config.api_device_id),
                opt_string_view(config.api_tt_chain_token),
            ),
        ),
{
    let mut out = String::new();
    let mut any = false;
    let ghost mut ps: Seq<Seq<char>> = Seq::empty();
    match &config.api_verify_fp {
        Some(fp) => {
            let v = trim_cookie_value(fp.as_str());
            push_pair(&mut out, true, Ghost(ps), "s_v_web_id=", v.as_str());
            proof {
                ps = ps.push("s_v_web_id="@ + v@);
            }
            any = true;
        },
        None => {},
    }
    let ghost after_fp = ps;
    match &config.api_device_id {
        Some(id) => {
            let v = trim_cookie_value(id.as_str());
            push_pair(&mut out, !any, Ghost(ps), "tt_webid=", v.as_str());
            proof {
                ps = ps.push("tt_webid="@ + v@);
            }
            push_pair(&mut out, false, Ghost(ps), "tt_webid_v2=", v.as_str());
            proof {
                ps = ps.push("tt_webid_v2="@ + v@);
                assert(ps == after_fp + seq!["tt_webid="@ + v@, "tt_webid_v2="@ + v@]);
            }
            any = true;
        },
        None => {
            assert(ps == after_fp + Seq::<Seq<char>>::empty());
        },
    }
    let ghost after_id = ps;
    match &config.api_tt_chain_token {
        Some(token) => {
            let v = trim_cookie_value(token.as_str());
            push_pair(&mut out, !any, Ghost(ps), "tt_chain_token=", v.as_str());
            proof {
                ps = ps.push(chain_token_prefix() + v@);
                assert(ps == after_id + seq![chain_token_prefix() + v@]);
            }
        },
        None => {
            assert(ps == after_id + Seq::<Seq<char>>::empty());
        },
    }
    proof {
        let c = configured_pairs(
            opt_string_view(config.api_verify_fp),
            opt_string_view(config.api_device_id),
            opt_string_view(config.api_tt_chain_token),
        );
        match &config.api_verify_fp {
            Some(fp) => assert(after_fp == seq!["s_v_web_id="@ + cookie_value(fp@)]),
            None => assert(after_fp == Seq::<Seq<char>>::empty()),
        }
        assert(ps == c);
    }
    out
}

/// The origins at which configured cookies are seeded in the client's jar.
#[derive(Clone, Copy, PartialEq, Eq, Structural, Debug)]
pub enum SeedOrigin {
    /// `https://www.tiktok.com`
    TikTok,
    /// `https://v16-webapp-prime.tiktok.com/`, the video CDN.
    VideoCdn,
}

/// The cookies seeded in the client's jar, in order, as (name, trimmed value,
/// origin): `s_v_web_id` at TikTok and the CDN, `tt_webid` and `tt_webid_v2`
/// at TikTok only, `tt_chain_token` at TikTok and the CDN; each when its
/// setting is present.
pub open spec fn seed_plan_spec(
    verify_fp: Option<Seq<char>>,
    device_id: Option<Seq<char>>,
    tt_chain_token: Option<Seq<char>>,
) -> Seq<(Seq<char>, Seq<char>, SeedOrigin)> {
    (match verify_fp {
        Some(v) => seq![
            ("s_v_web_id"@, cookie_value(v), SeedOrigin::TikTok),
            ("s_v_web_id"@, cookie_value(v), SeedOrigin::VideoCdn),
        ],
        None => Seq::empty(),
    }) + (match device_id {
        Some(v) => seq![
            ("tt_webid"@, cookie_value(v), SeedOrigin::TikTok),
            ("tt_webid_v2"@, cookie_value(v), SeedOrigin::TikTok),
        ],
        None => Seq::empty(),
    }) + (match tt_chain_token {
        Some(v) => seq![
            ("tt_chain_token"@, cookie_value(v), SeedOrigin::TikTok),
            ("tt_chain_token"@, cookie_value(v), SeedOrigin::VideoCdn),
        ],
        None => Seq::empty(),
    })
}

pub open spec fn seed_views(plan: Seq<(String, String, SeedOrigin)>) -> Seq<
    (Seq<char>, Seq<char>, SeedOrigin),
> {
    plan.map_values(|e: (String, String, SeedOrigin)| (e.0@, e.1@, e.2))
}

fn push_seed(
    plan: &mut Vec<(String, String, SeedOrigin)>,
    name: &str,
    value: &String,
    origin: SeedOrigin,
)
    ensures
        seed_views(final(plan)@) == seed_views(old(plan)@).push((name@, value@, origin)),
{
    plan.push((String::from_str(name), value.clone(), origin));
    assert(seed_views(plan@) == seed_views(old(plan)@).push((name@, value@, origin)));
}

/// Which cookie, with which value, the client's jar is seeded with at which
/// origin.
pub fn seed_plan(config: &Config) -> (plan: Vec<(String, String, SeedOrigin)>)
    ensures
        seed_views(plan@) == seed_plan_spec(
            opt_string_view(config.api_verify_fp),
            opt_string_view(config.api_device_id),
            opt_string_view(config.api_tt_chain_token),
        ),
{
    let mut plan: Vec<(String, String, SeedOrigin)> = Vec::new();
    match &config.api_verify_fp {
        Some(fp) => {
            let v = trim_cookie_value(fp.as_str());
            push_seed(&mut plan, "s_v_web_id", &v, SeedOrigin::TikTok);
            push_seed(&mut plan, "s_v_web_id", &v, SeedOrigin::VideoCdn);
        },
        None => {},
    }
    let ghost after_fp = seed_views(plan@);
    match &config.api_device_id {
        Some(id) => {
            let v = trim_cookie_value(id.as_str());
            push_seed(&mut plan, "tt_webid", &v, SeedOrigin::TikTok);
            push_seed(&mut plan, "tt_webid_v2", &v, SeedOrigin::TikTok);
        },
        None => {},
    }
    let ghost after_id = seed_views(plan@);
    match &config.api_tt_chain_token {
        Some(token) => {
            let v = trim_cookie_value(token.as_str());
            push_seed(&mut plan, "tt_chain_token", &v, SeedOrigin::TikTok);
            push_seed(&mut plan, "tt_chain_token", &v, SeedOrigin::VideoCdn);
        },
        None => {},
    }
    proof {
        let fp = opt_string_view(config.api_verify_fp);
        let id = opt_string_view(config.api_device_id);
        let tk = opt_string_view(config.api_tt_chain_token);
        let a = match fp {
            Some(v) => seq![
                ("s_v_web_id"@, cookie_value(v), SeedOrigin::TikTok),
                ("s_v_web_id"@, cookie_value(v), SeedOrigin::VideoCdn),
            ],
            None => Seq::empty(),
        };
        let b = match id {
            Some(v) => seq![
                ("tt_webid"@, cookie_value(v), SeedOrigin::TikTok),
                ("tt_webid_v2"@, cookie_value(v), SeedOrigin::TikTok),
            ],
            None => Seq::empty(),
        };
        let c = match tk {
            Some(v) => seq![
                ("tt_chain_token"@, cookie_value(v), SeedOrigin::TikTok),
                ("tt_chain_token"@, cookie_value(v), SeedOrigin::VideoCdn),
            ],
            None => Seq::empty(),
        };
        assert(after_fp == a);
        assert(after_id == a + b);
        assert(seed_views(plan@) == a + b + c);
    }
    plan
}

/// A `Set-Cookie` line that seeds a cookie for all of `.tiktok.com`; the value is
/// quoted so that base64 `=` and `/` survive cookie parsing.
pub fn seed_cookie_line(name: &str, value: &str) -> (line: String)
    ensures
        line@ == name@ + "=\""@ + value@ + "\"; Domain=.tiktok.com; Path=/; Secure"@,
{
    let mut line = String::from_str(name);
    line.append("=\"");
    line.append(value);
    line.append("\"; Domain=.tiktok.com; Path=/; Secure");
    line
}

pub open spec fn string_views(values: Seq<String>) -> Seq<Seq<char>> {
    values.map_values(|s: String| s@)
}

/// Takes the chain token from each `Set-Cookie` value of a TikTok response, in
/// order, into the media cookies.
pub fn ingest_set_cookie(cookies: &mut String, set_cookie_values: &Vec<String>)
    ensures
        final(cookies)@ == ingest_set_cookies(old(cookies)@, string_views(set_cookie_values@)),
{
    let ghost start = cookies@;
    let ghost vals = string_views(set_cookie_values@);
    let mut i: usize = 0;
    while i < set_cookie_values.len()
        invariant
            i <= set_cookie_values.len(),
            vals == string_views(set_cookie_values@),
            cookies@ == ingest_set_cookies(start, vals.take(i as int)),
        decreases set_cookie_values.len() - i,
    {
        let token = chain_token_from_set_cookie(set_cookie_values[i].as_str());
        proof {
            assert(vals.take(i + 1).drop_last() == vals.take(i as int));
            assert(vals.take(i + 1).last() == set_cookie_values@[i as int]@);
        }
        match token {
            Some(t) => update_media_tt_chain_token(cookies, t.as_str()),
            None => {},
        }
        i = i + 1;
    }
    proof {
        assert(vals.take(i as int) == vals);
    }
}

} // verus!
