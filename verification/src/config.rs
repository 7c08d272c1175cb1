//! Settings of the server, as read from its environment.
use vstd::prelude::*;
use crate::text::to_chars;
use crate::cookie::{nonempty_cookie_value, opt_str_view, opt_string_view, trim_cookie_value};

verus! {

/// Server settings.
#[derive(Debug, Clone)]
pub struct Config {
    pub port: u16,
    /// Captcha bypass cookie (`s_v_web_id`), same as ProxiTok `API_VERIFYFP`
    pub api_verify_fp: Option<String>,
    /// Device id for TikTok requests, same as ProxiTok `API_DEVICE_ID`
    pub api_device_id: Option<String>,
    /// Session cookie required for webapp-prime video CDN (`tk=tt_chain_token`)
    pub api_tt_chain_token: Option<String>,
}

/// The port used when `PORT` is unset.
pub const DEFAULT_PORT: u16 = 3000;

pub open spec fn is_ascii_digit(c: char) -> bool {
    '0' <= c && c <= '9'
}

/// Every character is an ASCII digit.
pub open spec fn all_ascii_digits(d: Seq<char>) -> bool {
    forall|i: int| 0 <= i < d.len() ==> is_ascii_digit(#[trigger] d[i])
}

/// The number that a string of decimal digits spells.
pub open spec fn decimal_value(d: Seq<char>) -> int
    decreases d.len(),
{
    if d.len() == 0 {
        0
    } else {
        decimal_value(d.drop_last()) * 10 + (d.last() as int - '0' as int)
    }
}

/// `str::parse::<u16>`: an optional `+`, then one or more ASCII digits whose
/// value fits in 16 bits.
pub open spec fn parsed_u16(s: Seq<char>) -> Option<u16> {
    let d = if s.len() > 0 && s[0] == '+' {
        s.drop_first()
    } else {
        s
    };
    if d.len() > 0 && all_ascii_digits(d) && decimal_value(d) <= u16::MAX {
        Some(decimal_value(d) as u16)
    } else {
        None
    }
}

/// The port that a `PORT` value (or its absence) sets; `None` when it is no
/// number.
pub open spec fn port_setting(var: Option<Seq<char>>) -> Option<u16> {
    match var {
        None => Some(DEFAULT_PORT),
        Some(s) => parsed_u16(s),
    }
}

proof fn lemma_decimal_prefix_monotone(d: Seq<char>, k: int)
    requires
        0 <= k <= d.len(),
        forall|i: int| 0 <= i < d.len() ==> is_ascii_digit(#[trigger] d[i]),
    ensures
        decimal_value(d.take(k)) <= decimal_value(d),
        0 <= decimal_value(d.take(k)),
    decreases d.len() - k,
{
    if k < d.len() {
        let t = d.take(k + 1);
        assert(t.drop_last() == d.take(k));
        assert(is_ascii_digit(d[k]));
        lemma_decimal_prefix_monotone(d, k + 1);
    } else {
        assert(d.take(k) == d);
        lemma_decimal_nonneg(d);
    }
}

proof fn lemma_decimal_nonneg(d: Seq<char>)
    requires
        forall|i: int| 0 <= i < d.len() ==> is_ascii_digit(#[trigger] d[i]),
    ensures
        0 <= decimal_value(d),
    decreases d.len(),
{
    if d.len() > 0 {
        let init = d.drop_last();
        assert forall|i: int| 0 <= i < init.len() implies is_ascii_digit(#[trigger] init[i]) by {
            assert(init[i] == d[i]);
        }
        lemma_decimal_nonneg(init);
        assert(is_ascii_digit(d[d.len() - 1]));
    }
}

/// `str::parse::<u16>`.
pub fn parse_u16(s: &str) -> (res: Option<u16>)
    ensures
        res == parsed_u16(s@),
{
    let v = to_chars(s);
    let n = v.len();
    let start: usize = if n > 0 && v[0] == '+' {
        1
    } else {
        0
    };
    let ghost d = v@.subrange(start as int, n as int);
    proof {
        if start == 1 {
            assert(d == s@.drop_first());
        } else {
            assert(d == s@);
        }
    }
    if start == n {
        return None;
    }
    let mut acc: u32 = 0;
    let mut i = start;
    while i < n
        invariant
            start < n == v.len(),
            start <= i <= n,
            d == v@.subrange(start as int, n as int),
            d == (if s@.len() > 0 && s@[0] == '+' {
                s@.drop_first()
            } else {
                s@
            }),
            acc as int == decimal_value(d.take(i - start)),
            acc <= u16::MAX,
            forall|j: int| 0 <= j < i - start ==> is_ascii_digit(#[trigger] d[j]),
        decreases n - i,
    {
        let c = v[i];
        if c < '0' || c > '9' {
            assert(!is_ascii_digit(d[i - start]));
            return None;
        }
        let digit = (c as u32) - ('0' as u32);
        proof {
            let t = d.take(i - start + 1);
            assert(t.drop_last() == d.take(i - start));
            assert(t.last() == c);
        }
        acc = acc * 10 + digit;
        i = i + 1;
        if acc > 65535 {
            proof {
                if all_ascii_digits(d) {
                    lemma_decimal_prefix_monotone(d, i - start);
                }
            }
            return None;
        }
    }
    assert(d.take(n - start) == d);
    Some(acc as u16)
}

/// A setting from the environment: trimmed of whitespace and quotes, absent
/// when that leaves nothing.
fn nonempty_setting(var: Option<&str>) -> (res: Option<String>)
    ensures
        opt_string_view(res) == nonempty_cookie_value(opt_str_view(var)),
{
    match var {
        Some(raw) => {
            let v = trim_cookie_value(raw);
            if v.as_str().is_empty() {
                None
            } else {
                Some(v)
            }
        },
        None => None,
    }
}

impl Config {
    /// The settings from the values of `PORT`, `API_VERIFYFP`, `API_DEVICE_ID`
    /// and `API_TT_CHAIN_TOKEN` (`None` where a variable is unset): `None`
    /// exactly when `PORT` is set and is no 16-bit number.
    pub fn from_vars(
        port: Option<&str>,
        verify_fp: Option<&str>,
        device_id: Option<&str>,
        tt_chain_token: Option<&str>,
    ) -> (res: Option<Config>)
        ensures
            match port_setting(opt_str_view(port)) {
                None => res is None,
                Some(p) => res matches Some(c) && c.port == p && opt_string_view(c.api_verify_fp)
                    == nonempty_cookie_value(opt_str_view(verify_fp)) && opt_string_view(
                    c.api_device_id,
                ) == nonempty_cookie_value(opt_str_view(device_id)) && opt_string_view(
                    c.api_tt_chain_token,
                ) == nonempty_cookie_value(opt_str_view(tt_chain_token)),
            },
    {
        let port = match port {
            Some(p) => match parse_u16(p) {
                Some(n) => n,
                None => {
                    return None;
                },
            },
            None => DEFAULT_PORT,
        };
        Some(
            Config {
                port,
                api_verify_fp: nonempty_setting(verify_fp),
                api_device_id: nonempty_setting(device_id),
                api_tt_chain_token: nonempty_setting(tt_chain_token),
            },
        )
    }
}

} // verus!
