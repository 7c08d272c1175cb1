//! What the media-cookie operations keep: one chain-token pair, placed last,
//! whatever came before.
use vstd::prelude::*;
use crate::text::{has_infix, occurs_at, trim_end, trim_start, TrimSet};
use crate::cookie::{
    chain_token_prefix, cookie_header, cookie_value, first_field, is_chain_token_pair,
    configured_pairs, ingest_set_cookies, join_pairs, keeps_pair, kept_pairs, nonempty_cookie_value, pair_sep, set_cookie_chain_token,
    split_from, split_pairs, updated_cookies, without_chain_token,
};

verus! {

/// `"; "` starts at index `i` of `s`.
pub open spec fn sep_at(s: Seq<char>, i: int) -> bool {
    0 <= i && i + 1 < s.len() && s[i] == ';' && s[i + 1] == ' '
}

/// `"; "` occurs nowhere in `s`.
pub open spec fn sep_free(s: Seq<char>) -> bool {
    forall|i: int| !sep_at(s, i)
}

proof fn lemma_sep_free_of_no_infix(s: Seq<char>)
    requires
        !has_infix(s, pair_sep()),
    ensures
        sep_free(s),
{
    assert forall|i: int| !sep_at(s, i) by {
        if sep_at(s, i) {
            assert(s.subrange(i, i + 2) == pair_sep());
            assert(occurs_at(s, pair_sep(), i));
        }
    }
}

proof fn lemma_sep_free_push(cur: Seq<char>, c: char)
    requires
        sep_free(cur),
        cur.len() > 0 && cur.last() == ';' ==> c != ' ',
    ensures
        sep_free(cur.push(c)),
{
    let p = cur.push(c);
    assert forall|i: int| !sep_at(p, i) by {
        if sep_at(p, i) {
            if i + 1 < cur.len() {
                assert(sep_at(cur, i));
            }
        }
    }
}

/// Every piece that `split_from` yields is free of `"; "`.
proof fn lemma_split_pieces_sep_free(s: Seq<char>, cur: Seq<char>)
    requires
        sep_free(cur),
        cur.len() > 0 && cur.last() == ';' && s.len() > 0 ==> s[0] != ' ',
    ensures
        forall|k: int| 0 <= k < split_from(s, cur).len() ==> sep_free(#[trigger] split_from(s, cur)[k]),
    decreases s.len(),
{
    if s.len() == 0 {
        assert(split_from(s, cur) == seq![cur]);
    } else if s.len() >= 2 && s[0] == ';' && s[1] == ' ' {
        lemma_split_pieces_sep_free(s.skip(2), Seq::empty());
        let rest = split_from(s.skip(2), Seq::empty());
        assert forall|k: int| 0 <= k < split_from(s, cur).len() implies sep_free(
            #[trigger] split_from(s, cur)[k],
        ) by {
            if k > 0 {
                assert(split_from(s, cur)[k] == rest[k - 1]);
            } else {
                assert(split_from(s, cur)[0] == cur);
            }
        }
    } else {
        lemma_sep_free_push(cur, s[0]);
        lemma_split_pieces_sep_free(s.drop_first(), cur.push(s[0]));
        assert(split_from(s, cur) == split_from(s.drop_first(), cur.push(s[0])));
    }
}

/// The surviving pieces are among the pieces and survive.
proof fn lemma_kept_pieces(ps: Seq<Seq<char>>, drop_empty: bool)
    requires
        forall|k: int| 0 <= k < ps.len() ==> sep_free(#[trigger] ps[k]),
    ensures
        forall|k: int|
            0 <= k < kept_pairs(ps, drop_empty).len() ==> sep_free(
                #[trigger] kept_pairs(ps, drop_empty)[k],
            ) && keeps_pair(kept_pairs(ps, drop_empty)[k], drop_empty),
    decreases ps.len(),
{
    if ps.len() > 0 {
        let init = ps.drop_last();
        assert forall|k: int| 0 <= k < init.len() implies sep_free(#[trigger] init[k]) by {
            assert(init[k] == ps[k]);
        }
        lemma_kept_pieces(init, drop_empty);
        assert(sep_free(ps[ps.len() - 1]));
        let ki = kept_pairs(init, drop_empty);
        if keeps_pair(ps.last(), drop_empty) {
            assert(kept_pairs(ps, drop_empty) == ki.push(ps.last()));
            assert forall|k: int| 0 <= k < ki.len() + 1 implies sep_free(
                #[trigger] ki.push(ps.last())[k],
            ) && keeps_pair(ki.push(ps.last())[k], drop_empty) by {
                if k < ki.len() {
                    assert(ki.push(ps.last())[k] == ki[k]);
                }
            }
        } else {
            assert(kept_pairs(ps, drop_empty) == ki);
        }
    }
}

/// When every piece survives, nothing is removed.
proof fn lemma_kept_all(ps: Seq<Seq<char>>, drop_empty: bool)
    requires
        forall|k: int| 0 <= k < ps.len() ==> keeps_pair(#[trigger] ps[k], drop_empty),
    ensures
        kept_pairs(ps, drop_empty) == ps,
    decreases ps.len(),
{
    if ps.len() > 0 {
        let init = ps.drop_last();
        assert forall|k: int| 0 <= k < init.len() implies keeps_pair(#[trigger] init[k], drop_empty) by {
            assert(init[k] == ps[k]);
        }
        lemma_kept_all(init, drop_empty);
        assert(keeps_pair(ps[ps.len() - 1], drop_empty));
        assert(init.push(ps.last()) == ps);
    }
}

/// With no empty piece, dropping empty pieces changes nothing.
proof fn lemma_kept_nonempty(ps: Seq<Seq<char>>)
    requires
        forall|k: int| 0 <= k < ps.len() ==> (#[trigger] ps[k]).len() > 0,
    ensures
        kept_pairs(ps, false) == kept_pairs(ps, true),
    decreases ps.len(),
{
    if ps.len() > 0 {
        let init = ps.drop_last();
        assert forall|k: int| 0 <= k < init.len() implies (#[trigger] init[k]).len() > 0 by {
            assert(init[k] == ps[k]);
        }
        lemma_kept_nonempty(init);
        assert(ps[ps.len() - 1].len() > 0);
    }
}

/// Reading `x` then `y` splits like reading `y` after `x` was taken into the
/// current piece, when no `"; "` starts inside `x`.
proof fn lemma_split_append(x: Seq<char>, y: Seq<char>, cur: Seq<char>)
    requires
        forall|i: int| 0 <= i < x.len() ==> !sep_at(x + y, i),
    ensures
        split_from(x + y, cur) == split_from(y, cur + x),
    decreases x.len(),
{
    if x.len() == 0 {
        assert(x + y == y);
        assert(cur + x == cur);
    } else {
        let s = x + y;
        assert(!sep_at(s, 0));
        assert(s.drop_first() == x.drop_first() + y);
        assert forall|i: int| 0 <= i < x.drop_first().len() implies !sep_at(
            x.drop_first() + y,
            i,
        ) by {
            assert(!sep_at(s, i + 1));
        }
        lemma_split_append(x.drop_first(), y, cur.push(x[0]));
        assert(cur.push(x[0]) + x.drop_first() == cur + x);
    }
}

/// Splitting a string of pieces joined by `"; "` gives the pieces back, when
/// no piece holds `"; "`.
proof fn lemma_split_join(ps: Seq<Seq<char>>)
    requires
        ps.len() >= 1,
        forall|k: int| 0 <= k < ps.len() ==> sep_free(#[trigger] ps[k]),
    ensures
        split_pairs(join_pairs(ps)) == ps,
    decreases ps.len(),
{
    let x = ps[0];
    assert(sep_free(x));
    if ps.len() == 1 {
        lemma_split_append(x, Seq::empty(), Seq::empty());
        assert(x + Seq::<char>::empty() == x);
        assert(Seq::<char>::empty() + x == x);
        assert(seq![x] == ps);
    } else {
        let rest = ps.drop_first();
        assert forall|k: int| 0 <= k < rest.len() implies sep_free(#[trigger] rest[k]) by {
            assert(rest[k] == ps[k + 1]);
        }
        lemma_split_join(rest);
        let j = join_pairs(rest);
        let y = pair_sep() + j;
        assert(join_pairs(ps) == x + y);
        assert forall|i: int| 0 <= i < x.len() implies !sep_at(x + y, i) by {
            if i + 1 < x.len() {
                assert(!sep_at(x, i));
            }
        }
        lemma_split_append(x, y, Seq::empty());
        assert(Seq::<char>::empty() + x == x);
        assert(y.skip(2) == j);
        assert(seq![x] + rest == ps);
    }
}

proof fn lemma_token_pair_sep_free(t: Seq<char>)
    requires
        sep_free(t),
    ensures
        sep_free(chain_token_prefix() + t),
        is_chain_token_pair(chain_token_prefix() + t),
{
    reveal_strlit("tt_chain_token=");
    let p = chain_token_prefix();
    let q = p + t;
    assert forall|i: int| !sep_at(q, i) by {
        if sep_at(q, i) {
            if i >= p.len() {
                assert(sep_at(t, i - p.len()));
            } else {
                assert(q[i] == p[i]);
            }
        }
    }
    assert(q.subrange(0, p.len() as int) == p);
}

/// After an update with a token free of `"; "`, the pieces of the media cookies
/// are the surviving earlier pairs, in order, then the one chain-token pair.
pub proof fn law_update_pairs(cookies: Seq<char>, token: Seq<char>)
    requires
        !has_infix(token, pair_sep()),
    ensures
        split_pairs(updated_cookies(cookies, token)) == kept_pairs(split_pairs(cookies), true).push(
            chain_token_prefix() + token,
        ),
{
    lemma_sep_free_of_no_infix(token);
    lemma_token_pair_sep_free(token);
    lemma_split_pieces_sep_free(cookies, Seq::empty());
    let ks = kept_pairs(split_pairs(cookies), true);
    lemma_kept_pieces(split_pairs(cookies), true);
    let q = chain_token_prefix() + token;
    let all = ks.push(q);
    assert forall|k: int| 0 <= k < all.len() implies sep_free(#[trigger] all[k]) by {
        if k < ks.len() {
            assert(all[k] == ks[k]);
        }
    }
    if ks.len() == 0 {
        assert(all == seq![q]);
        assert(join_pairs(all) == q);
    } else {
        assert(ks[0].len() > 0);
        assert(join_pairs(ks).len() > 0) by {
            if ks.len() > 1 {
                assert(join_pairs(ks) == ks[0] + pair_sep() + join_pairs(ks.drop_first()));
            }
        }
        crate::cookie::lemma_join_push(ks, q);
        assert(join_pairs(ks) + pair_sep() + chain_token_prefix() + token == join_pairs(ks)
            + pair_sep() + q);
    }
    lemma_split_join(all);
}

/// Storing the same chain token twice stores it once.
pub proof fn law_update_idempotent(cookies: Seq<char>, token: Seq<char>)
    requires
        !has_infix(token, pair_sep()),
    ensures
        updated_cookies(updated_cookies(cookies, token), token) == updated_cookies(cookies, token),
{
    law_update_pairs(cookies, token);
    lemma_sep_free_of_no_infix(token);
    lemma_token_pair_sep_free(token);
    lemma_split_pieces_sep_free(cookies, Seq::empty());
    lemma_kept_pieces(split_pairs(cookies), true);
    let ks = kept_pairs(split_pairs(cookies), true);
    let q = chain_token_prefix() + token;
    assert(ks.push(q).drop_last() == ks);
    assert(!keeps_pair(q, true));
    assert forall|k: int| 0 <= k < ks.len() implies keeps_pair(#[trigger] ks[k], true) by {}
    lemma_kept_all(ks, true);
    assert(without_chain_token(updated_cookies(cookies, token), true) == without_chain_token(
        cookies,
        true,
    ));
}

/// For media cookies with no empty pair, the header with a per-request chain
/// token is the cookie string that storing that token would give.
pub proof fn law_override_matches_update(base: Seq<char>, override_ttc: Option<Seq<char>>)
    requires
        nonempty_cookie_value(override_ttc) is Some,
        forall|k: int| 0 <= k < split_pairs(base).len() ==> (#[trigger] split_pairs(base)[k]).len() > 0,
    ensures
        cookie_header(base, override_ttc) == Some(
            updated_cookies(base, nonempty_cookie_value(override_ttc)->0),
        ),
{
    lemma_kept_nonempty(split_pairs(base));
    if base.len() == 0 {
        assert(split_pairs(base) == seq![Seq::<char>::empty()]);
        assert(split_pairs(base)[0].len() > 0);
    }
}

proof fn lemma_no_char_sub(s: Seq<char>, lo: int, hi: int, c: char)
    requires
        0 <= lo <= hi <= s.len(),
        forall|i: int| 0 <= i < s.len() ==> s[i] != c,
    ensures
        forall|i: int| 0 <= i < hi - lo ==> #[trigger] s.subrange(lo, hi)[i] != c,
{
    assert forall|i: int| 0 <= i < hi - lo implies #[trigger] s.subrange(lo, hi)[i] != c by {
        assert(s.subrange(lo, hi)[i] == s[lo + i]);
    }
}

proof fn lemma_trim_start_no_char(s: Seq<char>, set: TrimSet, c: char)
    requires
        forall|i: int| 0 <= i < s.len() ==> s[i] != c,
    ensures
        forall|i: int| 0 <= i < trim_start(s, set).len() ==> #[trigger] trim_start(s, set)[i] != c,
    decreases s.len(),
{
    if s.len() > 0 && set.holds(s[0]) {
        lemma_no_char_sub(s, 1, s.len() as int, c);
        assert(s.drop_first() == s.subrange(1, s.len() as int));
        lemma_trim_start_no_char(s.drop_first(), set, c);
        assert(trim_start(s, set) == trim_start(s.drop_first(), set));
    } else {
        assert(trim_start(s, set) == s);
    }
}

proof fn lemma_trim_end_no_char(s: Seq<char>, set: TrimSet, c: char)
    requires
        forall|i: int| 0 <= i < s.len() ==> s[i] != c,
    ensures
        forall|i: int| 0 <= i < trim_end(s, set).len() ==> #[trigger] trim_end(s, set)[i] != c,
    decreases s.len(),
{
    if s.len() > 0 && set.holds(s.last()) {
        lemma_no_char_sub(s, 0, s.len() - 1, c);
        assert(s.drop_last() == s.subrange(0, s.len() - 1));
        lemma_trim_end_no_char(s.drop_last(), set, c);
        assert(trim_end(s, set) == trim_end(s.drop_last(), set));
    } else {
        assert(trim_end(s, set) == s);
    }
}

proof fn lemma_cookie_value_no_char(s: Seq<char>, c: char)
    requires
        forall|i: int| 0 <= i < s.len() ==> s[i] != c,
    ensures
        forall|i: int| 0 <= i < cookie_value(s).len() ==> #[trigger] cookie_value(s)[i] != c,
{
    lemma_trim_start_no_char(s, TrimSet::Whitespace, c);
    let a = trim_start(s, TrimSet::Whitespace);
    lemma_trim_end_no_char(a, TrimSet::Whitespace, c);
    let b = trim_end(a, TrimSet::Whitespace);
    lemma_trim_start_no_char(b, TrimSet::Char('"'), c);
    let d = trim_start(b, TrimSet::Char('"'));
    lemma_trim_end_no_char(d, TrimSet::Char('"'), c);
}

proof fn lemma_first_field_no_semicolon(s: Seq<char>)
    ensures
        forall|i: int| 0 <= i < first_field(s).len() ==> #[trigger] first_field(s)[i] != ';',
    decreases s.len(),
{
    if s.len() > 0 && s[0] != ';' {
        lemma_first_field_no_semicolon(s.drop_first());
        let r = first_field(s.drop_first());
        assert forall|i: int| 0 <= i < first_field(s).len() implies #[trigger] first_field(s)[i]
            != ';' by {
            if i > 0 {
                assert(first_field(s)[i] == r[i - 1]);
            }
        }
    }
}

/// The pairs of `s` end with `tt_chain_token=<token>`, and no other pair is a
/// chain-token pair.
pub open spec fn one_chain_token_last(s: Seq<char>, token: Seq<char>) -> bool {
    let ps = split_pairs(s);
    &&& ps.len() > 0
    &&& ps.last() == chain_token_prefix() + token
    &&& forall|k: int| 0 <= k < ps.len() - 1 ==> !is_chain_token_pair(#[trigger] ps[k])
}

/// After an update with a token free of `"; "`, the media cookies hold that
/// token, last, and no other chain token.
pub proof fn law_update_one_token(cookies: Seq<char>, token: Seq<char>)
    requires
        !has_infix(token, pair_sep()),
    ensures
        one_chain_token_last(updated_cookies(cookies, token), token),
{
    law_update_pairs(cookies, token);
    lemma_split_pieces_sep_free(cookies, Seq::empty());
    lemma_kept_pieces(split_pairs(cookies), true);
    let ks = kept_pairs(split_pairs(cookies), true);
    let ps = ks.push(chain_token_prefix() + token);
    assert forall|k: int| 0 <= k < ps.len() - 1 implies !is_chain_token_pair(#[trigger] ps[k]) by {
        assert(ps[k] == ks[k]);
        assert(keeps_pair(ks[k], true));
    }
}

/// When the last `Set-Cookie` value of a response sets a chain token, the
/// media cookies afterwards hold that token, last, and no other.
pub proof fn law_ingest_keeps_last_token(cookies: Seq<char>, values: Seq<Seq<char>>)
    requires
        values.len() > 0,
        set_cookie_chain_token(values.last()) is Some,
    ensures
        one_chain_token_last(
            ingest_set_cookies(cookies, values),
            set_cookie_chain_token(values.last())->0,
        ),
{
    let t = set_cookie_chain_token(values.last())->0;
    law_captured_token_sep_free(values.last());
    law_update_one_token(ingest_set_cookies(cookies, values.drop_last()), t);
}

/// A chain token taken from a `Set-Cookie` value holds no `"; "`, so storing it
/// keeps the media cookies in the form of `law_update_pairs`.
pub proof fn law_captured_token_sep_free(raw: Seq<char>)
    ensures
        set_cookie_chain_token(raw) matches Some(t) ==> !has_infix(t, pair_sep()),
{
    if set_cookie_chain_token(raw) is Some {
        let pair = first_field(raw);
        lemma_first_field_no_semicolon(raw);
        let plen = chain_token_prefix().len() as int;
        lemma_no_char_sub(pair, plen, pair.len() as int, ';');
        assert(pair.skip(plen) == pair.subrange(plen, pair.len() as int));
        let t = cookie_value(pair.skip(plen));
        lemma_cookie_value_no_char(pair.skip(plen), ';');
        assert forall|i: int| !occurs_at(t, pair_sep(), i) by {
            if occurs_at(t, pair_sep(), i) {
                assert(t.subrange(i, i + 2)[0] == ';');
            }
        }
    }
}

/// A `Set-Cookie` value that sets no chain token changes nothing: ingesting it
/// after some values gives what ingesting those values gave.
pub proof fn law_ingest_ignores_tokenless(cookies: Seq<char>, values: Seq<Seq<char>>, v: Seq<char>)
    requires
        set_cookie_chain_token(v) is None,
    ensures
        ingest_set_cookies(cookies, values.push(v)) == ingest_set_cookies(cookies, values),
{
    assert(values.push(v).drop_last() == values);
}

/// Values that set no chain token leave the media cookies as they were.
pub proof fn law_ingest_without_tokens(cookies: Seq<char>, values: Seq<Seq<char>>)
    requires
        forall|k: int| 0 <= k < values.len() ==> set_cookie_chain_token(#[trigger] values[k]) is None,
    ensures
        ingest_set_cookies(cookies, values) == cookies,
    decreases values.len(),
{
    if values.len() > 0 {
        let init = values.drop_last();
        assert forall|k: int| 0 <= k < init.len() implies set_cookie_chain_token(#[trigger] init[k])
            is None by {
            assert(init[k] == values[k]);
        }
        law_ingest_without_tokens(cookies, init);
        assert(set_cookie_chain_token(values[values.len() - 1]) is None);
        assert(init.push(values.last()) == values);
        law_ingest_ignores_tokenless(cookies, init, values.last());
    }
}

/// The token of the last `Set-Cookie` value that sets one is, after ingesting
/// all values, the one chain token of the media cookies, placed last.
pub proof fn law_ingest_last_token_wins(cookies: Seq<char>, values: Seq<Seq<char>>, j: int)
    requires
        0 <= j < values.len(),
        set_cookie_chain_token(values[j]) is Some,
        forall|k: int| j < k < values.len() ==> set_cookie_chain_token(#[trigger] values[k]) is None,
    ensures
        one_chain_token_last(
            ingest_set_cookies(cookies, values),
            set_cookie_chain_token(values[j])->0,
        ),
    decreases values.len() - j,
{
    if j == values.len() - 1 {
        law_ingest_keeps_last_token(cookies, values);
    } else {
        let init = values.drop_last();
        assert(init[j] == values[j]);
        assert forall|k: int| j < k < init.len() implies set_cookie_chain_token(#[trigger] init[k])
            is None by {
            assert(init[k] == values[k]);
        }
        law_ingest_last_token_wins(cookies, init, j);
        assert(set_cookie_chain_token(values[values.len() - 1]) is None);
        assert(init.push(values.last()) == values);
        law_ingest_ignores_tokenless(cookies, init, values.last());
    }
}

proof fn lemma_named_pair_sep_free(name: Seq<char>, value: Seq<char>)
    requires
        name.len() > 0,
        name.last() == '=',
        sep_free(name),
        !has_infix(value, pair_sep()),
    ensures
        sep_free(name + value),
{
    lemma_sep_free_of_no_infix(value);
    let p = name + value;
    assert forall|i: int| !sep_at(p, i) by {
        if sep_at(p, i) {
            if i + 1 < name.len() {
                assert(sep_at(name, i));
            } else if i >= name.len() {
                assert(sep_at(value, i - name.len()));
            }
        }
    }
}

proof fn lemma_name_literals()
    ensures
        "s_v_web_id="@.len() > 0 && "s_v_web_id="@.last() == '=' && sep_free("s_v_web_id="@),
        "tt_webid="@.len() > 0 && "tt_webid="@.last() == '=' && sep_free("tt_webid="@),
        "tt_webid_v2="@.len() > 0 && "tt_webid_v2="@.last() == '=' && sep_free("tt_webid_v2="@),
        chain_token_prefix().len() > 0 && chain_token_prefix().last() == '=' && sep_free(
            chain_token_prefix(),
        ),
{
    reveal_strlit("s_v_web_id=");
    reveal_strlit("tt_webid=");
    reveal_strlit("tt_webid_v2=");
    reveal_strlit("tt_chain_token=");
}

/// How many of the settings are present.
pub open spec fn present(o: Option<Seq<char>>) -> int {
    if o is Some {
        1
    } else {
        0
    }
}

/// The initial media cookies split on `"; "` into one pair per present setting,
/// in the order `s_v_web_id`, `tt_webid`, `tt_webid_v2`, `tt_chain_token`, each
/// the name, `=` and the trimmed value, whichever other settings are present
/// (when no trimmed value holds `"; "` itself); with no setting they are empty.
pub proof fn law_initial_cookie_pairs(
    verify_fp: Option<Seq<char>>,
    device_id: Option<Seq<char>>,
    tt_chain_token: Option<Seq<char>>,
)
    requires
        verify_fp matches Some(v) ==> !has_infix(cookie_value(v), pair_sep()),
        device_id matches Some(v) ==> !has_infix(cookie_value(v), pair_sep()),
        tt_chain_token matches Some(v) ==> !has_infix(cookie_value(v), pair_sep()),
    ensures
        (verify_fp is None && device_id is None && tt_chain_token is None) ==> join_pairs(
            configured_pairs(verify_fp, device_id, tt_chain_token),
        ).len() == 0,
        !(verify_fp is None && device_id is None && tt_chain_token is None) ==> split_pairs(
            join_pairs(configured_pairs(verify_fp, device_id, tt_chain_token)),
        ).len() == present(verify_fp) + 2 * present(device_id) + present(tt_chain_token),
        verify_fp matches Some(v) ==> split_pairs(
            join_pairs(configured_pairs(verify_fp, device_id, tt_chain_token)),
        )[0] == "s_v_web_id="@ + cookie_value(v),
        device_id matches Some(v) ==> split_pairs(
            join_pairs(configured_pairs(verify_fp, device_id, tt_chain_token)),
        )[present(verify_fp)] == "tt_webid="@ + cookie_value(v) && split_pairs(
            join_pairs(configured_pairs(verify_fp, device_id, tt_chain_token)),
        )[present(verify_fp) + 1] == "tt_webid_v2="@ + cookie_value(v),
        tt_chain_token matches Some(v) ==> split_pairs(
            join_pairs(configured_pairs(verify_fp, device_id, tt_chain_token)),
        ).last() == chain_token_prefix() + cookie_value(v),
{
    lemma_name_literals();
    let a: Seq<Seq<char>> = match verify_fp {
        Some(v) => seq!["s_v_web_id="@ + cookie_value(v)],
        None => Seq::empty(),
    };
    let b: Seq<Seq<char>> = match device_id {
        Some(v) => seq!["tt_webid="@ + cookie_value(v), "tt_webid_v2="@ + cookie_value(v)],
        None => Seq::empty(),
    };
    let c: Seq<Seq<char>> = match tt_chain_token {
        Some(v) => seq![chain_token_prefix() + cookie_value(v)],
        None => Seq::empty(),
    };
    let cp = configured_pairs(verify_fp, device_id, tt_chain_token);
    assert(cp == a + b + c);
    assert(a.len() == present(verify_fp));
    assert(b.len() == 2 * present(device_id));
    assert(c.len() == present(tt_chain_token));
    assert forall|k: int| 0 <= k < a.len() implies sep_free(#[trigger] a[k]) by {
        lemma_named_pair_sep_free("s_v_web_id="@, cookie_value(verify_fp->0));
    }
    assert forall|k: int| 0 <= k < b.len() implies sep_free(#[trigger] b[k]) by {
        lemma_named_pair_sep_free("tt_webid="@, cookie_value(device_id->0));
        lemma_named_pair_sep_free("tt_webid_v2="@, cookie_value(device_id->0));
    }
    assert forall|k: int| 0 <= k < c.len() implies sep_free(#[trigger] c[k]) by {
        lemma_named_pair_sep_free(chain_token_prefix(), cookie_value(tt_chain_token->0));
    }
    assert forall|k: int| 0 <= k < cp.len() implies sep_free(#[trigger] cp[k]) by {
        if k < a.len() {
            assert(cp[k] == a[k]);
        } else if k < a.len() + b.len() {
            assert(cp[k] == b[k - a.len()]);
        } else {
            assert(cp[k] == c[k - a.len() - b.len()]);
        }
    }
    if cp.len() >= 1 {
        lemma_split_join(cp);
        if device_id is Some {
            assert(cp[a.len() as int] == b[0]);
            assert(cp[a.len() + 1int] == b[1]);
        }
        if tt_chain_token is Some {
            assert(cp.last() == c[0]);
        }
    } else {
        assert(join_pairs(cp) == Seq::<char>::empty());
    }
}

} // verus!
