//! Character-level text utilities: trimming, substring search, prefix tests
//! and lexicographic ordering, each verified against a specification over
//! `Seq<char>`. Build-backend output is free text, so everything downstream
//! (label parsing, progress classification, transcript ordering) rests on
//! these primitives.

use vstd::prelude::*;
use vstd::string::StrSliceExecFns;

verus! {

/// ASCII whitespace, the only whitespace the build backends emit.
pub open spec fn is_space(c: char) -> bool {
    c == ' ' || c == '\t' || c == '\n' || c == '\r'
}

/// `s` with leading whitespace removed.
pub open spec fn trim_front(s: Seq<char>) -> Seq<char>
    decreases s.len(),
{
    if s.len() > 0 && is_space(s[0]) {
        trim_front(s.drop_first())
    } else {
        s
    }
}

/// `s` with trailing whitespace removed.
pub open spec fn trim_back(s: Seq<char>) -> Seq<char>
    decreases s.len(),
{
    if s.len() > 0 && is_space(s[s.len() - 1]) {
        trim_back(s.drop_last())
    } else {
        s
    }
}

/// `s` with leading and trailing whitespace removed.
pub open spec fn trimmed(s: Seq<char>) -> Seq<char> {
    trim_back(trim_front(s))
}

/// Index of the first occurrence of `c` in `s`, or -1 if absent.
pub open spec fn first_char_at(s: Seq<char>, c: char) -> int
    decreases s.len(),
{
    if s.len() == 0 {
        -1
    } else if s[0] == c {
        0
    } else {
        let r = first_char_at(s.drop_first(), c);
        if r < 0 {
            -1
        } else {
            r + 1
        }
    }
}

/// `pat` occurs in `s` starting at index `i`.
pub open spec fn sub_at(s: Seq<char>, pat: Seq<char>, i: int) -> bool {
    0 <= i && i + pat.len() <= s.len() && s.subrange(i, i + pat.len()) == pat
}

/// Index of the first occurrence of `pat` in `s`, or -1 if absent.
pub open spec fn first_sub_at(s: Seq<char>, pat: Seq<char>) -> int
    decreases s.len(),
{
    if pat.len() == 0 {
        0
    } else if s.len() < pat.len() {
        -1
    } else if s.subrange(0, pat.len() as int) == pat {
        0
    } else {
        let r = first_sub_at(s.drop_first(), pat);
        if r < 0 {
            -1
        } else {
            r + 1
        }
    }
}

/// `pat` occurs somewhere in `s`.
pub open spec fn contains_seq(s: Seq<char>, pat: Seq<char>) -> bool {
    first_sub_at(s, pat) >= 0
}

/// `s` starts with `pat`.
pub open spec fn starts_with_seq(s: Seq<char>, pat: Seq<char>) -> bool {
    pat.len() <= s.len() && s.subrange(0, pat.len() as int) == pat
}

proof fn lemma_first_char_found(s: Seq<char>, c: char)
    ensures
        first_char_at(s, c) >= 0 ==> {
            let r = first_char_at(s, c);
            r < s.len() && s[r] == c && forall|k: int| 0 <= k < r ==> s[k] != c
        },
        first_char_at(s, c) < 0 ==> forall|k: int| 0 <= k < s.len() ==> s[k] != c,
    decreases s.len(),
{
    if s.len() == 0 {
    } else if s[0] == c {
    } else {
        let t = s.drop_first();
        lemma_first_char_found(t, c);
        let rt = first_char_at(t, c);
        if rt >= 0 {
            let r = first_char_at(s, c);
            assert(r == rt + 1);
            assert(s[r] == t[rt]);
            assert forall|k: int| 0 <= k < r implies s[k] != c by {
                if k > 0 {
                    assert(s[k] == t[k - 1]);
                }
            }
        } else {
            assert forall|k: int| 0 <= k < s.len() implies s[k] != c by {
                if k > 0 {
                    assert(s[k] == t[k - 1]);
                }
            }
        }
    }
}

proof fn lemma_first_sub_found(s: Seq<char>, pat: Seq<char>)
    ensures
        first_sub_at(s, pat) >= 0 ==> {
            let r = first_sub_at(s, pat);
            sub_at(s, pat, r) && forall|k: int| 0 <= k < r ==> !sub_at(s, pat, k)
        },
        first_sub_at(s, pat) < 0 ==> forall|k: int| !sub_at(s, pat, k),
    decreases s.len(),
{
    let plen = pat.len() as int;
    if pat.len() == 0 {
        assert(s.subrange(0, 0) =~= pat);
        assert(sub_at(s, pat, 0));
    } else if s.len() < pat.len() {
    } else if s.subrange(0, plen) == pat {
        assert(sub_at(s, pat, 0));
    } else {
        let t = s.drop_first();
        lemma_first_sub_found(t, pat);
        let rt = first_sub_at(t, pat);
        if rt >= 0 {
            let r = first_sub_at(s, pat);
            assert(r == rt + 1);
            assert(sub_at(t, pat, rt));
            assert(t.subrange(rt, rt + plen) =~= s.subrange(rt + 1, rt + 1 + plen));
            assert(sub_at(s, pat, r));
            assert forall|k: int| 0 <= k < r implies !sub_at(s, pat, k) by {
                if k == 0 {
                    assert(s.subrange(0, plen) != pat);
                } else {
                    assert(!sub_at(t, pat, k - 1));
                    if k + plen <= s.len() {
                        assert(t.subrange(k - 1, k - 1 + plen) =~= s.subrange(k, k + plen));
                    }
                }
            }
        } else {
            assert forall|k: int| !sub_at(s, pat, k) by {
                if 0 <= k {
                    if k == 0 {
                        assert(s.subrange(0, plen) != pat);
                    } else {
                        assert(!sub_at(t, pat, k - 1));
                        if k + plen <= s.len() {
                            assert(t.subrange(k - 1, k - 1 + plen) =~= s.subrange(k, k + plen));
                        }
                    }
                }
            }
        }
    }
}

/// The characters of `s` as a vector, for random access while scanning.
pub fn chars_of(s: &str) -> (v: Vec<char>)
    ensures
        v@ == s@,
{
    let n = s.unicode_len();
    let mut v: Vec<char> = Vec::new();
    let mut i: usize = 0;
    while i < n
        invariant
            n == s@.len(),
            i <= n,
            v@ == s@.subrange(0, i as int),
        decreases n - i,
    {
        v.push(s.get_char(i));
        assert(v@ =~= s@.subrange(0, i + 1));
        i += 1;
    }
    assert(v@ =~= s@);
    v
}

/// Whether `c` is ASCII whitespace.
pub fn is_space_exec(c: char) -> (r: bool)
    ensures
        r == is_space(c),
{
    c == ' ' || c == '\t' || c == '\n' || c == '\r'
}

proof fn lemma_trim_front_skip(s: Seq<char>, i: int)
    requires
        0 <= i <= s.len(),
        forall|k: int| 0 <= k < i ==> is_space(s[k]),
    ensures
        trim_front(s) == trim_front(s.subrange(i, s.len() as int)),
    decreases i,
{
    if i > 0 {
        assert(is_space(s[0]));
        let t = s.drop_first();
        assert(forall|k: int| 0 <= k < i - 1 ==> is_space(t[k]));
        lemma_trim_front_skip(t, i - 1);
        assert(t.subrange(i - 1, t.len() as int) =~= s.subrange(i, s.len() as int));
    } else {
        assert(s.subrange(0, s.len() as int) =~= s);
    }
}

proof fn lemma_trim_front_clean(s: Seq<char>)
    requires
        s.len() == 0 || !is_space(s[0]),
    ensures
        trim_front(s) == s,
{
}

proof fn lemma_trim_back_skip(s: Seq<char>, j: int)
    requires
        0 <= j <= s.len(),
        forall|k: int| j <= k < s.len() ==> is_space(s[k]),
    ensures
        trim_back(s) == trim_back(s.subrange(0, j)),
    decreases s.len() - j,
{
    if j < s.len() {
        assert(is_space(s[s.len() - 1]));
        let t = s.drop_last();
        assert(forall|k: int| j <= k < t.len() ==> t[k] == s[k]);
        lemma_trim_back_skip(t, j);
        assert(t.subrange(0, j) =~= s.subrange(0, j));
    } else {
        assert(s.subrange(0, s.len() as int) =~= s);
    }
}

proof fn lemma_trim_back_clean(s: Seq<char>)
    requires
        s.len() == 0 || !is_space(s[s.len() - 1]),
    ensures
        trim_back(s) == s,
{
}

/// The trimmed contents of `cs` as the index range `[lo, hi)`.
///
/// Returns the bounds of the trimmed region, so callers can slice or copy it.
pub fn trim_bounds(cs: &Vec<char>) -> (r: (usize, usize))
    ensures
        r.0 <= r.1 <= cs@.len(),
        cs@.subrange(r.0 as int, r.1 as int) == trimmed(cs@),
{
    let n = cs.len();
    let mut lo: usize = 0;
    while lo < n && is_space_exec(cs[lo])
        invariant
            lo <= n,
            n == cs@.len(),
            forall|k: int| 0 <= k < lo ==> is_space(cs@[k]),
        decreases n - lo,
    {
        lo += 1;
    }
    let mut hi: usize = n;
    while hi > lo && is_space_exec(cs[hi - 1])
        invariant
            lo <= hi <= n,
            n == cs@.len(),
            forall|k: int| 0 <= k < lo ==> is_space(cs@[k]),
            forall|k: int| hi <= k < n ==> is_space(cs@[k]),
        decreases hi,
    {
        hi -= 1;
    }
    proof {
        let s = cs@;
        lemma_trim_front_skip(s, lo as int);
        let f = s.subrange(lo as int, n as int);
        lemma_trim_front_clean(f);
        assert(trim_front(s) == f);
        if hi == lo {
            assert(forall|k: int| lo <= k < n ==> is_space(s[k]));
            lemma_trim_back_skip(f, 0);
            assert(f.subrange(0, 0) =~= s.subrange(lo as int, hi as int));
            assert(trim_back(f.subrange(0, 0)) =~= s.subrange(lo as int, hi as int));
        } else {
            assert(forall|k: int| 0 <= k < f.len() ==> f[k] == s[lo + k]);
            lemma_trim_back_skip(f, hi - lo);
            let g = f.subrange(0, hi - lo);
            assert(g[g.len() - 1] == s[hi - 1]);
            lemma_trim_back_clean(g);
            assert(g =~= s.subrange(lo as int, hi as int));
        }
    }
    (lo, hi)
}

/// Copies the range `[lo, hi)` out of `cs`.
pub fn slice_chars(cs: &Vec<char>, lo: usize, hi: usize) -> (r: Vec<char>)
    requires
        lo <= hi <= cs@.len(),
    ensures
        r@ == cs@.subrange(lo as int, hi as int),
{
    let mut r: Vec<char> = Vec::new();
    let mut i = lo;
    while i < hi
        invariant
            lo <= i <= hi <= cs@.len(),
            r@ == cs@.subrange(lo as int, i as int),
        decreases hi - i,
    {
        r.push(cs[i]);
        assert(r@ =~= cs@.subrange(lo as int, i + 1));
        i += 1;
    }
    r
}

/// Index of the first occurrence of `c` in `cs` at or after `from`,
/// reported against the specification over the whole suffix.
pub fn find_char_from(cs: &Vec<char>, c: char, from: usize) -> (r: Option<usize>)
    requires
        from <= cs@.len(),
    ensures
        match r {
            Some(i) => from <= i < cs@.len() && cs@[i as int] == c && forall|k: int|
                from <= k < i ==> cs@[k] != c,
            None => forall|k: int| from <= k < cs@.len() ==> cs@[k] != c,
        },
{
    let n = cs.len();
    let mut i = from;
    while i < n
        invariant
            from <= i <= n,
            n == cs@.len(),
            forall|k: int| from <= k < i ==> cs@[k] != c,
        decreases n - i,
    {
        if cs[i] == c {
            return Some(i);
        }
        i += 1;
    }
    None
}

/// Index of the first occurrence of `c` in `cs`, reported against the
/// specification `first_char_at`.
pub fn find_char(cs: &Vec<char>, c: char) -> (r: Option<usize>)
    ensures
        match r {
            Some(i) => i == first_char_at(cs@, c) && i < cs@.len() && cs@[i as int] == c
                && forall|k: int| 0 <= k < i ==> cs@[k] != c,
            None => first_char_at(cs@, c) < 0 && forall|k: int|
                0 <= k < cs@.len() ==> cs@[k] != c,
        },
{
    proof {
        lemma_first_char_found(cs@, c);
    }
    let r = find_char_from(cs, c, 0);
    proof {
        let f = first_char_at(cs@, c);
        match r {
            Some(i) => {
                if f < 0 {
                    assert(false);
                } else {
                    if f < i {
                        assert(cs@[f] != c);
                        assert(false);
                    }
                    if i < f {
                        assert(cs@[i as int] != c);
                        assert(false);
                    }
                }
            },
            None => {
                if f >= 0 {
                    assert(cs@[f] != c);
                    assert(false);
                }
            },
        }
    }
    r
}

/// Whether `pat` occurs in `cs` starting exactly at `i`.
fn match_at(cs: &Vec<char>, pat: &Vec<char>, i: usize) -> (r: bool)
    requires
        i + pat@.len() <= cs@.len(),
    ensures
        r == sub_at(cs@, pat@, i as int),
{
    let n = cs.len();
    let m = pat.len();
    let mut j: usize = 0;
    while j < m
        invariant
            j <= m,
            m == pat@.len(),
            n == cs@.len(),
            i + m <= n,
            forall|k: int| 0 <= k < j ==> cs@[i + k] == pat@[k],
        decreases m - j,
    {
        if cs[i + j] != pat[j] {
            assert(cs@.subrange(i as int, i + m) != pat@) by {
                assert(cs@.subrange(i as int, i + m)[j as int] != pat@[j as int]);
            }
            return false;
        }
        j += 1;
    }
    assert(cs@.subrange(i as int, i + m) =~= pat@);
    true
}

/// Index of the first occurrence of `pat` in `cs`, or `None` if absent.
pub fn find_sub(cs: &Vec<char>, pat: &Vec<char>) -> (r: Option<usize>)
    ensures
        match r {
            Some(i) => i == first_sub_at(cs@, pat@) && sub_at(cs@, pat@, i as int) && forall|
                k: int,
            | 0 <= k < i ==> !sub_at(cs@, pat@, k),
            None => first_sub_at(cs@, pat@) < 0 && forall|k: int| !sub_at(cs@, pat@, k),
        },
{
    proof {
        lemma_first_sub_found(cs@, pat@);
    }
    let n = cs.len();
    let m = pat.len();
    if m == 0 {
        proof {
            assert(cs@.subrange(0, 0) =~= pat@);
        }
        return Some(0);
    }
    if m > n {
        return None;
    }
    let mut i: usize = 0;
    while i <= n - m
        invariant
            1 <= m <= n,
            n == cs@.len(),
            m == pat@.len(),
            i <= n - m + 1,
            forall|k: int| 0 <= k < i ==> !sub_at(cs@, pat@, k),
            first_sub_at(cs@, pat@) >= 0 ==> sub_at(cs@, pat@, first_sub_at(cs@, pat@))
                && forall|k: int| 0 <= k < first_sub_at(cs@, pat@) ==> !sub_at(cs@, pat@, k),
            first_sub_at(cs@, pat@) < 0 ==> forall|k: int| !sub_at(cs@, pat@, k),
        decreases n - m - i + 1,
    {
        if match_at(cs, pat, i) {
            proof {
                let f = first_sub_at(cs@, pat@);
                if f < 0 {
                    assert(!sub_at(cs@, pat@, i as int));
                } else if f < i {
                    assert(!sub_at(cs@, pat@, f));
                } else if i < f {
                    assert(!sub_at(cs@, pat@, i as int));
                }
            }
            return Some(i);
        }
        i += 1;
    }
    assert(forall|k: int| !sub_at(cs@, pat@, k));
    None
}

/// Whether `pat` occurs anywhere in `cs`.
pub fn contains_sub(cs: &Vec<char>, pat: &Vec<char>) -> (r: bool)
    ensures
        r == contains_seq(cs@, pat@),
{
    find_sub(cs, pat).is_some()
}

/// Whether `cs` starts with `pat`.
pub fn starts_with(cs: &Vec<char>, pat: &Vec<char>) -> (r: bool)
    ensures
        r == starts_with_seq(cs@, pat@),
{
    if pat.len() > cs.len() {
        return false;
    }
    match_at(cs, pat, 0)
}

/// Whether two character sequences are equal.
pub fn chars_eq(a: &Vec<char>, b: &Vec<char>) -> (r: bool)
    ensures
        r == (a@ == b@),
{
    if a.len() != b.len() {
        return false;
    }
    let n = a.len();
    let mut i: usize = 0;
    while i < n
        invariant
            i <= n,
            n == a@.len() == b@.len(),
            forall|k: int| 0 <= k < i ==> a@[k] == b@[k],
        decreases n - i,
    {
        if a[i] != b[i] {
            return false;
        }
        i += 1;
    }
    assert(a@ =~= b@);
    true
}

/// Whether two string slices hold the same characters.
pub fn str_eq(a: &str, b: &str) -> (r: bool)
    ensures
        r == (a@ == b@),
{
    let ca = chars_of(a);
    let cb = chars_of(b);
    chars_eq(&ca, &cb)
}

/// Lexicographic order on character sequences, by code point.
pub open spec fn lex_le(a: Seq<char>, b: Seq<char>) -> bool
    decreases a.len(),
{
    if a.len() == 0 {
        true
    } else if b.len() == 0 {
        false
    } else if (a[0] as u32) < (b[0] as u32) {
        true
    } else if (a[0] as u32) > (b[0] as u32) {
        false
    } else {
        lex_le(a.drop_first(), b.drop_first())
    }
}

/// The lexicographic order is total.
pub proof fn lemma_lex_le_total(a: Seq<char>, b: Seq<char>)
    ensures
        lex_le(a, b) || lex_le(b, a),
    decreases a.len(),
{
    if a.len() > 0 && b.len() > 0 && (a[0] as u32) == (b[0] as u32) {
        lemma_lex_le_total(a.drop_first(), b.drop_first());
    }
}

/// The lexicographic order is transitive.
pub proof fn lemma_lex_le_trans(a: Seq<char>, b: Seq<char>, c: Seq<char>)
    requires
        lex_le(a, b),
        lex_le(b, c),
    ensures
        lex_le(a, c),
    decreases a.len(),
{
    if a.len() > 0 && b.len() > 0 && c.len() > 0 && (a[0] as u32) == (b[0] as u32) && (b[0] as u32)
        == (c[0] as u32) {
        lemma_lex_le_trans(a.drop_first(), b.drop_first(), c.drop_first());
    }
}

/// Decides the lexicographic order on two character vectors.
pub fn lex_le_exec(a: &Vec<char>, b: &Vec<char>) -> (r: bool)
    ensures
        r == lex_le(a@, b@),
{
    let na = a.len();
    let nb = b.len();
    proof {
        assert(a@.subrange(0, na as int) =~= a@);
        assert(b@.subrange(0, nb as int) =~= b@);
    }
    let mut i: usize = 0;
    loop
        invariant
            i <= na,
            i <= nb,
            na == a@.len(),
            nb == b@.len(),
            lex_le(a@, b@) == lex_le(a@.subrange(i as int, na as int), b@.subrange(
                i as int,
                nb as int,
            )),
        decreases na - i,
    {
        proof {
            let sa = a@.subrange(i as int, na as int);
            let sb = b@.subrange(i as int, nb as int);
            if i < na && i < nb && (a@[i as int] as u32) == (b@[i as int] as u32) {
                assert(sa.drop_first() =~= a@.subrange(i + 1, na as int));
                assert(sb.drop_first() =~= b@.subrange(i + 1, nb as int));
            }
        }
        if i >= na {
            return true;
        }
        if i >= nb {
            return false;
        }
        let ca = a[i] as u32;
        let cb = b[i] as u32;
        if ca < cb {
            return true;
        }
        if ca > cb {
            return false;
        }
        i += 1;
    }
}

} // verus!
