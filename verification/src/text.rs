//! Character-level helpers over the `Seq<char>` view of strings.
use vstd::prelude::*;

verus! {

/// Unicode `White_Space` code points: the set that `char::is_whitespace`
/// and `str::trim` use.
pub open spec fn is_unicode_whitespace(c: char) -> bool {
    let u = c as u32;
    ||| 0x09 <= u <= 0x0d
    ||| u == 0x20
    ||| u == 0x85
    ||| u == 0xa0
    ||| u == 0x1680
    ||| 0x2000 <= u <= 0x200a
    ||| u == 0x2028
    ||| u == 0x2029
    ||| u == 0x202f
    ||| u == 0x205f
    ||| u == 0x3000
}

/// Which characters a trim removes from both ends.
#[derive(Clone, Copy)]
pub enum TrimSet {
    Whitespace,
    Char(char),
}

impl TrimSet {
    pub open spec fn holds(self, c: char) -> bool {
        match self {
            TrimSet::Whitespace => is_unicode_whitespace(c),
            TrimSet::Char(d) => c == d,
        }
    }

    pub fn contains(self, c: char) -> (res: bool)
        ensures
            res == self.holds(c),
    {
        match self {
            TrimSet::Whitespace => {
                let u = c as u32;
                (0x09 <= u && u <= 0x0d) || u == 0x20 || u == 0x85 || u == 0xa0 || u == 0x1680
                    || (0x2000 <= u && u <= 0x200a) || u == 0x2028 || u == 0x2029 || u == 0x202f
                    || u == 0x205f || u == 0x3000
            },
            TrimSet::Char(d) => c == d,
        }
    }
}

/// `s` without its leading characters from `set`.
pub open spec fn trim_start(s: Seq<char>, set: TrimSet) -> Seq<char>
    decreases s.len(),
{
    if s.len() > 0 && set.holds(s[0]) {
        trim_start(s.drop_first(), set)
    } else {
        s
    }
}

/// `s` without its trailing characters from `set`.
pub open spec fn trim_end(s: Seq<char>, set: TrimSet) -> Seq<char>
    decreases s.len(),
{
    if s.len() > 0 && set.holds(s.last()) {
        trim_end(s.drop_last(), set)
    } else {
        s
    }
}

/// `s` with the characters of `set` removed from both ends (`str::trim_matches`).
pub open spec fn trim_both(s: Seq<char>, set: TrimSet) -> Seq<char> {
    trim_end(trim_start(s, set), set)
}

/// `str::trim`: both ends stripped of Unicode whitespace.
pub open spec fn trim_whitespace(s: Seq<char>) -> Seq<char> {
    trim_both(s, TrimSet::Whitespace)
}

/// `p` is a prefix of `s`.
pub open spec fn has_prefix(s: Seq<char>, p: Seq<char>) -> bool {
    p.len() <= s.len() && s.subrange(0, p.len() as int) == p
}

/// `p` is a suffix of `s`.
pub open spec fn has_suffix(s: Seq<char>, p: Seq<char>) -> bool {
    p.len() <= s.len() && s.subrange(s.len() - p.len(), s.len() as int) == p
}

/// `p` occurs in `s` starting at index `i`.
pub open spec fn occurs_at(s: Seq<char>, p: Seq<char>, i: int) -> bool {
    0 <= i && i + p.len() <= s.len() && s.subrange(i, i + p.len()) == p
}

/// `p` occurs somewhere in `s` (`str::contains`).
pub open spec fn has_infix(s: Seq<char>, p: Seq<char>) -> bool {
    exists|i: int| occurs_at(s, p, i)
}

/// ASCII upper-case letters mapped to lower case, all else unchanged.
pub open spec fn ascii_lower_char(c: char) -> char {
    if 'A' <= c && c <= 'Z' {
        ((c as u32) + 32) as char
    } else {
        c
    }
}

/// `str::to_ascii_lowercase`.
pub open spec fn ascii_lower(s: Seq<char>) -> Seq<char> {
    s.map_values(|c: char| ascii_lower_char(c))
}

/// Appends one character to a `String` (`String::push`).
#[verifier::external_body]
pub(crate) fn push_char(s: &mut String, c: char)
    ensures
        final(s)@ == old(s)@.push(c),
{
    s.push(c);
}

/// The characters of a string slice, in order.
pub fn to_chars(s: &str) -> (v: Vec<char>)
    ensures
        v@ == s@,
{
    let mut v: Vec<char> = Vec::new();
    for c in it: s.chars()
        invariant
            v@ == it.seq().take(it.index()),
    {
        v.push(c);
        assert(v@ == it.seq().take(it.index() + 1));
    }
    v
}

/// Appends `v[lo..hi]` to `out`.
pub fn append_range(out: &mut String, v: &Vec<char>, lo: usize, hi: usize)
    requires
        lo <= hi <= v.len(),
    ensures
        final(out)@ == old(out)@ + v@.subrange(lo as int, hi as int),
{
    let mut i = lo;
    while i < hi
        invariant
            lo <= i <= hi <= v.len(),
            out@ == old(out)@ + v@.subrange(lo as int, i as int),
        decreases hi - i,
    {
        push_char(out, v[i]);
        i = i + 1;
        assert(out@ == old(out)@ + v@.subrange(lo as int, i as int));
    }
}

/// A new vector holding `v[lo..hi]`.
pub fn sub_chars(v: &Vec<char>, lo: usize, hi: usize) -> (r: Vec<char>)
    requires
        lo <= hi <= v.len(),
    ensures
        r@ == v@.subrange(lo as int, hi as int),
{
    let mut r: Vec<char> = Vec::new();
    let mut i = lo;
    while i < hi
        invariant
            lo <= i <= hi <= v.len(),
            r@ == v@.subrange(lo as int, i as int),
        decreases hi - i,
    {
        r.push(v[i]);
        i = i + 1;
        assert(r@ == v@.subrange(lo as int, i as int));
    }
    r
}

/// A new `String` holding `v[lo..hi]`.
pub fn string_of_range(v: &Vec<char>, lo: usize, hi: usize) -> (s: String)
    requires
        lo <= hi <= v.len(),
    ensures
        s@ == v@.subrange(lo as int, hi as int),
{
    let mut s = String::new();
    append_range(&mut s, v, lo, hi);
    s
}

proof fn lemma_trim_start_skip(s: Seq<char>, set: TrimSet, k: int)
    requires
        0 <= k <= s.len(),
        forall|j: int| 0 <= j < k ==> set.holds(#[trigger] s[j]),
    ensures
        trim_start(s, set) == trim_start(s.skip(k), set),
    decreases k,
{
    if k > 0 {
        assert(s.skip(1) == s.drop_first());
        assert(s.drop_first().skip(k - 1) == s.skip(k));
        lemma_trim_start_skip(s.drop_first(), set, k - 1);
    } else {
        assert(s.skip(0) == s);
    }
}

proof fn lemma_trim_end_take(s: Seq<char>, set: TrimSet, k: int)
    requires
        0 <= k <= s.len(),
        forall|j: int| k <= j < s.len() ==> set.holds(#[trigger] s[j]),
    ensures
        trim_end(s, set) == trim_end(s.take(k), set),
    decreases s.len() - k,
{
    if k < s.len() {
        assert(s.drop_last().take(k) == s.take(k));
        lemma_trim_end_take(s.drop_last(), set, k);
    } else {
        assert(s.take(k) == s);
    }
}

/// The bounds `(lo, hi)` of `trim_both(v, set)` inside `v`.
pub fn trim_bounds(v: &Vec<char>, set: TrimSet) -> (r: (usize, usize))
    ensures
        r.0 <= r.1 <= v.len(),
        v@.subrange(r.0 as int, r.1 as int) == trim_both(v@, set),
{
    let n = v.len();
    let lo = trim_start_index(v, set);
    let ghost t = v@.skip(lo as int);
    let mut hi: usize = n;
    while hi > lo && set.contains(v[hi - 1])
        invariant
            lo <= hi <= n == v.len(),
            t == v@.skip(lo as int),
            forall|j: int| hi <= j < n ==> set.holds(#[trigger] v@[j]),
        decreases hi - lo,
    {
        hi = hi - 1;
    }
    proof {
        let k = hi - lo;
        assert forall|j: int| k <= j < t.len() implies set.holds(#[trigger] t[j]) by {
            assert(t[j] == v@[j + lo]);
        }
        lemma_trim_end_take(t, set, k);
        assert(t.take(k) == v@.subrange(lo as int, hi as int));
        assert(trim_end(t.take(k), set) == t.take(k));
    }
    (lo, hi)
}

/// The index where `trim_start(v, set)` begins inside `v`.
pub fn trim_start_index(v: &Vec<char>, set: TrimSet) -> (lo: usize)
    ensures
        lo <= v.len(),
        v@.skip(lo as int) == trim_start(v@, set),
{
    let n = v.len();
    let mut lo: usize = 0;
    while lo < n && set.contains(v[lo])
        invariant
            lo <= n == v.len(),
            forall|j: int| 0 <= j < lo ==> set.holds(#[trigger] v@[j]),
        decreases n - lo,
    {
        lo = lo + 1;
    }
    proof {
        lemma_trim_start_skip(v@, set, lo as int);
        assert(trim_start(v@.skip(lo as int), set) == v@.skip(lo as int));
    }
    lo
}

/// Whether `p` occurs in `s` at index `i`.
pub fn occurs_at_exec(s: &Vec<char>, p: &Vec<char>, i: usize) -> (res: bool)
    ensures
        res == occurs_at(s@, p@, i as int),
{
    if i > s.len() || p.len() > s.len() - i {
        return false;
    }
    let mut k: usize = 0;
    while k < p.len()
        invariant
            i + p.len() <= s.len(),
            k <= p.len(),
            forall|j: int| 0 <= j < k ==> s@[i + j] == p@[j],
        decreases p.len() - k,
    {
        if s[i + k] != p[k] {
            assert(s@.subrange(i as int, i + p.len())[k as int] != p@[k as int]);
            return false;
        }
        k = k + 1;
    }
    assert(s@.subrange(i as int, i + p.len()) == p@);
    true
}

/// `str::starts_with`.
pub fn starts_with(s: &Vec<char>, p: &Vec<char>) -> (res: bool)
    ensures
        res == has_prefix(s@, p@),
{
    occurs_at_exec(s, p, 0)
}

/// `str::ends_with`.
pub fn ends_with(s: &Vec<char>, p: &Vec<char>) -> (res: bool)
    ensures
        res == has_suffix(s@, p@),
{
    if p.len() > s.len() {
        return false;
    }
    occurs_at_exec(s, p, s.len() - p.len())
}

/// `str::contains` for a string pattern.
pub fn contains(s: &Vec<char>, p: &Vec<char>) -> (res: bool)
    ensures
        res == has_infix(s@, p@),
{
    if p.len() > s.len() {
        assert forall|i: int| !occurs_at(s@, p@, i) by {}
        return false;
    }
    let last = s.len() - p.len();
    let mut i: usize = 0;
    loop
        invariant
            last == s.len() - p.len(),
            i <= last,
            forall|j: int| 0 <= j < i ==> !occurs_at(s@, p@, j),
        ensures
            forall|j: int| 0 <= j <= last ==> !occurs_at(s@, p@, j),
        decreases last - i,
    {
        if occurs_at_exec(s, p, i) {
            return true;
        }
        if i == last {
            break;
        }
        i = i + 1;
    }
    assert forall|j: int| !occurs_at(s@, p@, j) by {
        if 0 <= j <= last {
        }
    }
    false
}

/// `str::to_ascii_lowercase`.
pub fn to_ascii_lower(v: &Vec<char>) -> (r: Vec<char>)
    ensures
        r@ == ascii_lower(v@),
{
    let mut r: Vec<char> = Vec::new();
    let mut i: usize = 0;
    while i < v.len()
        invariant
            i <= v.len(),
            r@ == ascii_lower(v@.take(i as int)),
        decreases v.len() - i,
    {
        let c = v[i];
        let l = if 'A' <= c && c <= 'Z' {
            (((c as u32) + 32) as u8) as char
        } else {
            c
        };
        r.push(l);
        i = i + 1;
        assert(ascii_lower(v@.take(i as int)) == ascii_lower(v@.take(i - 1)).push(ascii_lower_char(c)));
    }
    assert(v@.take(v.len() as int) == v@);
    r
}

} // verus!
