//! Character-sequence utilities: splitting, joining, filtering and integer
//! rendering, with specification-level models and the lemmas that connect
//! splitting and joining. Every parser in the crate is built on these.
use vstd::prelude::*;

verus! {

/// ASCII letters and digits; the characters kept by hash normalization.
pub open spec fn is_alnum(c: char) -> bool {
    ('0' <= c && c <= '9') || ('a' <= c && c <= 'z') || ('A' <= c && c <= 'Z')
}

pub open spec fn is_digit(c: char) -> bool {
    '0' <= c && c <= '9'
}

/// Split `s` at every occurrence of `sep`. The result always has exactly one
/// more part than there are separators; an empty input gives one empty part.
pub open spec fn spec_split(s: Seq<char>, sep: char) -> Seq<Seq<char>>
    decreases s.len(),
{
    if s.len() == 0 {
        seq![Seq::<char>::empty()]
    } else if s[0] == sep {
        seq![Seq::<char>::empty()] + spec_split(s.subrange(1, s.len() as int), sep)
    } else {
        let rest = spec_split(s.subrange(1, s.len() as int), sep);
        seq![seq![s[0]] + rest[0]] + rest.subrange(1, rest.len() as int)
    }
}

/// Joining the parts back with `sep` in between.
pub open spec fn spec_join(parts: Seq<Seq<char>>, sep: char) -> Seq<char>
    decreases parts.len(),
{
    if parts.len() == 0 {
        Seq::<char>::empty()
    } else if parts.len() == 1 {
        parts[0]
    } else {
        parts[0] + seq![sep] + spec_join(parts.subrange(1, parts.len() as int), sep)
    }
}

pub proof fn lemma_split_len(s: Seq<char>, sep: char)
    ensures
        spec_split(s, sep).len() >= 1,
    decreases s.len(),
{
    if s.len() != 0 {
        lemma_split_len(s.subrange(1, s.len() as int), sep);
    }
}

/// Appending one character extends the last part, or opens a new empty part
/// when the character is the separator.
pub proof fn lemma_split_push(s: Seq<char>, sep: char, c: char)
    ensures
        spec_split(s.push(c), sep) == if c == sep {
            spec_split(s, sep).push(Seq::<char>::empty())
        } else {
            spec_split(s, sep).update(
                spec_split(s, sep).len() - 1,
                spec_split(s, sep).last().push(c),
            )
        },
    decreases s.len(),
{
    lemma_split_len(s, sep);
    if s.len() == 0 {
        assert(s.push(c) =~= seq![c]);
        assert(spec_split(Seq::<char>::empty(), sep) == seq![Seq::<char>::empty()]);
        if c == sep {
            assert(s.push(c).subrange(1, 1) =~= Seq::<char>::empty());
            assert(spec_split(s.push(c), sep) == seq![Seq::<char>::empty()] + spec_split(
                s.push(c).subrange(1, 1),
                sep,
            ));
            assert(spec_split(s.push(c), sep) =~~= spec_split(s, sep).push(
                Seq::<char>::empty(),
            ));
        } else {
            assert(s.push(c).subrange(1, 1) =~= Seq::<char>::empty());
            let rest = spec_split(s.push(c).subrange(1, 1), sep);
            assert(rest == seq![Seq::<char>::empty()]);
            assert(spec_split(s.push(c), sep) == seq![seq![c] + rest[0]] + rest.subrange(
                1,
                rest.len() as int,
            ));
            assert(spec_split(s.push(c), sep) =~~= spec_split(s, sep).update(
                0,
                spec_split(s, sep).last().push(c),
            ));
        }
    } else {
        let t = s.subrange(1, s.len() as int);
        lemma_split_len(t, sep);
        lemma_split_push(t, sep, c);
        assert(s.push(c).subrange(1, s.len() as int + 1) =~= t.push(c));
        assert(s.push(c)[0] == s[0]);
        let r = spec_split(t, sep);
        let rs = spec_split(s, sep);
        if s[0] == sep {
            assert(rs =~= seq![Seq::<char>::empty()] + r);
            if c == sep {
                assert(spec_split(s.push(c), sep) =~~= rs.push(Seq::<char>::empty()));
            } else {
                assert(rs.last() == r.last());
                assert(spec_split(s.push(c), sep) =~~= rs.update(
                    rs.len() - 1,
                    rs.last().push(c),
                ));
            }
        } else {
            assert(rs =~= seq![seq![s[0]] + r[0]] + r.subrange(1, r.len() as int));
            if c == sep {
                let rc = spec_split(t.push(c), sep);
                assert(rc == r.push(Seq::<char>::empty()));
                assert(rc[0] == r[0]);
                assert(spec_split(s.push(c), sep) =~~= rs.push(Seq::<char>::empty()));
            } else {
                let rc = spec_split(t.push(c), sep);
                assert(rc == r.update(r.len() - 1, r.last().push(c)));
                if r.len() == 1 {
                    assert(rc[0] == r[0].push(c));
                    assert(rs.last() == seq![s[0]] + r[0]);
                    assert((seq![s[0]] + r[0]).push(c) =~= seq![s[0]] + r[0].push(c));
                    assert(spec_split(s.push(c), sep) =~~= rs.update(
                        rs.len() - 1,
                        rs.last().push(c),
                    ));
                } else {
                    assert(rc[0] == r[0]);
                    assert(rs.last() == r.last());
                    assert(spec_split(s.push(c), sep) =~~= rs.update(
                        rs.len() - 1,
                        rs.last().push(c),
                    ));
                }
            }
        }
    }
}

/// Joining undoes splitting.
pub proof fn lemma_join_split(s: Seq<char>, sep: char)
    ensures
        spec_join(spec_split(s, sep), sep) == s,
    decreases s.len(),
{
    if s.len() == 0 {
    } else {
        let t = s.subrange(1, s.len() as int);
        lemma_split_len(t, sep);
        lemma_join_split(t, sep);
        let r = spec_split(t, sep);
        if s[0] == sep {
            let parts = spec_split(s, sep);
            assert(parts == seq![Seq::<char>::empty()] + r);
            assert(parts.len() >= 2);
            assert(parts[0] == Seq::<char>::empty());
            assert(parts.subrange(1, parts.len() as int) =~= r);
            assert(spec_join(parts, sep) == parts[0] + seq![sep] + spec_join(r, sep));
            assert(parts[0] + seq![sep] + t =~= seq![s[0]] + t);
            assert(seq![s[0]] + t =~= s);
        } else {
            if r.len() == 1 {
                assert(spec_join(spec_split(s, sep), sep) =~= seq![s[0]] + r[0]);
                assert(seq![s[0]] + r[0] =~= s);
            } else {
                let parts = spec_split(s, sep);
                assert(parts.subrange(1, parts.len() as int) =~= r.subrange(
                    1,
                    r.len() as int,
                ));
                assert(r.subrange(1, r.len() as int) =~= r.subrange(1, r.len() as int));
                assert(spec_join(parts, sep) =~= (seq![s[0]] + r[0]) + seq![sep] + spec_join(
                    r.subrange(1, r.len() as int),
                    sep,
                ));
                assert(spec_join(r, sep) == r[0] + seq![sep] + spec_join(
                    r.subrange(1, r.len() as int),
                    sep,
                ));
                assert((seq![s[0]] + r[0]) + seq![sep] + spec_join(
                    r.subrange(1, r.len() as int),
                    sep,
                ) =~= seq![s[0]] + spec_join(r, sep));
                assert(seq![s[0]] + t =~= s);
            }
        }
    }
}

/// Joining one more part appends a separator and the part.
pub proof fn lemma_join_push(parts: Seq<Seq<char>>, x: Seq<char>, sep: char)
    ensures
        spec_join(parts.push(x), sep) == if parts.len() == 0 {
            x
        } else {
            spec_join(parts, sep) + seq![sep] + x
        },
    decreases parts.len(),
{
    if parts.len() == 0 {
        assert(parts.push(x) =~= seq![x]);
    } else if parts.len() == 1 {
        assert(parts.push(x).subrange(1, 2) =~= seq![x]);
        assert(spec_join(parts.push(x), sep) == parts[0] + seq![sep] + spec_join(
            parts.push(x).subrange(1, 2),
            sep,
        ));
    } else {
        let t = parts.subrange(1, parts.len() as int);
        lemma_join_push(t, x, sep);
        assert(parts.push(x).subrange(1, parts.len() as int + 1) =~= t.push(x));
        assert(spec_join(parts.push(x), sep) == parts[0] + seq![sep] + spec_join(t.push(x), sep));
        assert(parts[0] + seq![sep] + (spec_join(t, sep) + seq![sep] + x) =~= (parts[0] + seq![sep]
            + spec_join(t, sep)) + seq![sep] + x);
    }
}

/// Splitting a string with no separator yields that string as the only part.
pub proof fn lemma_split_no_sep(s: Seq<char>, sep: char)
    requires
        !s.contains(sep),
    ensures
        spec_split(s, sep) == seq![s],
    decreases s.len(),
{
    if s.len() == 0 {
        assert(spec_split(s, sep) =~~= seq![s]);
    } else {
        let t = s.subrange(1, s.len() as int);
        assert(s[0] != sep);
        assert(forall|i: int| 0 <= i < t.len() ==> t[i] == s[i + 1]);
        assert(!t.contains(sep)) by {
            if t.contains(sep) {
                let i = choose|i: int| 0 <= i < t.len() && t[i] == sep;
                assert(s[i + 1] == sep);
            }
        }
        lemma_split_no_sep(t, sep);
        assert(spec_split(s, sep) =~~= seq![seq![s[0]] + t]);
        assert(seq![s[0]] + t =~= s);
    }
}

/// Splitting distributes over a separator between two strings.
pub proof fn lemma_split_concat(a: Seq<char>, b: Seq<char>, sep: char)
    ensures
        spec_split(a + seq![sep] + b, sep) == spec_split(a, sep) + spec_split(b, sep),
    decreases a.len(),
{
    lemma_split_len(b, sep);
    if a.len() == 0 {
        let s = a + seq![sep] + b;
        assert(s[0] == sep);
        assert(s.subrange(1, s.len() as int) =~= b);
        assert(spec_split(s, sep) =~~= spec_split(a, sep) + spec_split(b, sep));
    } else {
        let a1 = a.subrange(1, a.len() as int);
        lemma_split_concat(a1, b, sep);
        lemma_split_len(a1, sep);
        let s = a + seq![sep] + b;
        assert(s[0] == a[0]);
        assert(s.subrange(1, s.len() as int) =~= a1 + seq![sep] + b);
        let r = spec_split(a1 + seq![sep] + b, sep);
        let ra = spec_split(a1, sep);
        let rb = spec_split(b, sep);
        assert(r == ra + rb);
        if a[0] == sep {
            assert(spec_split(s, sep) =~~= spec_split(a, sep) + rb);
        } else {
            assert(r[0] == ra[0]);
            assert(r.subrange(1, r.len() as int) =~= ra.subrange(1, ra.len() as int) + rb);
            assert(spec_split(a, sep) =~= seq![seq![a[0]] + ra[0]] + ra.subrange(
                1,
                ra.len() as int,
            ));
            assert(spec_split(s, sep) =~~= spec_split(a, sep) + rb);
        }
    }
}

/// Relies on std's `String::push`: appends the given character to the end
/// of the string.
pub assume_specification[ String::push ](s: &mut String, c: char)
    ensures
        final(s)@ == old(s)@.push(c),
;

/// Split an entire string at every occurrence of `sep`.
pub fn split_str(s: &str, sep: char) -> (r: Vec<String>)
    ensures
        r@.len() == spec_split(s@, sep).len(),
        forall|i: int| 0 <= i < r@.len() ==> (#[trigger] r@[i])@ == spec_split(s@, sep)[i],
{
    let n = s.unicode_len();
    let mut parts: Vec<String> = Vec::new();
    let mut start: usize = 0;
    let mut i: usize = 0;
    proof {
        assert(s@.subrange(0, 0) =~= Seq::<char>::empty());
    }
    while i < n
        invariant
            n == s@.len(),
            0 <= start <= i <= n,
            parts@.len() + 1 == spec_split(s@.subrange(0, i as int), sep).len(),
            forall|k: int|
                0 <= k < parts@.len() ==> (#[trigger] parts@[k])@ == spec_split(
                    s@.subrange(0, i as int),
                    sep,
                )[k],
            spec_split(s@.subrange(0, i as int), sep).last() == s@.subrange(
                start as int,
                i as int,
            ),
        decreases n - i,
    {
        let c = s.get_char(i);
        proof {
            lemma_split_len(s@.subrange(0, i as int), sep);
            lemma_split_push(s@.subrange(0, i as int), sep, c);
            assert(s@.subrange(0, i as int).push(c) =~= s@.subrange(0, i as int + 1));
        }
        if c == sep {
            let part = s.substring_char(start, i).to_owned();
            parts.push(part);
            start = i + 1;
            proof {
                assert(s@.subrange(start as int, i as int + 1) =~= Seq::<char>::empty());
            }
        } else {
            proof {
                assert(s@.subrange(start as int, i as int).push(c) =~= s@.subrange(
                    start as int,
                    i as int + 1,
                ));
            }
        }
        i += 1;
    }
    proof {
        assert(s@.subrange(0, n as int) =~= s@);
        lemma_split_len(s@, sep);
    }
    let last = s.substring_char(start, n).to_owned();
    parts.push(last);
    parts
}

/// Character-wise string equality.
pub fn str_eq(a: &str, b: &str) -> (r: bool)
    ensures
        r == (a@ == b@),
{
    let na = a.unicode_len();
    let nb = b.unicode_len();
    if na != nb {
        proof {
            assert(a@ != b@) by {
                if a@ == b@ {
                    assert(a@.len() == b@.len());
                }
            }
        }
        return false;
    }
    let mut i: usize = 0;
    while i < na
        invariant
            na == a@.len(),
            na == b@.len(),
            0 <= i <= na,
            forall|k: int| 0 <= k < i ==> a@[k] == b@[k],
        decreases na - i,
    {
        if a.get_char(i) != b.get_char(i) {
            proof {
                assert(a@ != b@) by {
                    if a@ == b@ {
                        assert(a@[i as int] == b@[i as int]);
                    }
                }
            }
            return false;
        }
        i += 1;
    }
    proof {
        assert(a@ =~= b@);
    }
    true
}

/// Every occurrence of `from` replaced by `to`.
pub open spec fn spec_replace(s: Seq<char>, from: char, to: char) -> Seq<char> {
    s.map_values(|c: char| if c == from { to } else { c })
}

/// Replace every occurrence of one character by another.
pub fn replace_char(s: &str, from: char, to: char) -> (r: String)
    ensures
        r@ == spec_replace(s@, from, to),
{
    let n = s.unicode_len();
    let mut out = String::new();
    let mut i: usize = 0;
    proof {
        assert(out@ =~= spec_replace(s@.subrange(0, 0), from, to));
    }
    while i < n
        invariant
            n == s@.len(),
            0 <= i <= n,
            out@ == spec_replace(s@.subrange(0, i as int), from, to),
        decreases n - i,
    {
        let c = s.get_char(i);
        if c == from {
            out.push(to);
        } else {
            out.push(c);
        }
        proof {
            assert(out@ =~= spec_replace(s@.subrange(0, i as int + 1), from, to)) by {
                assert(s@.subrange(0, i as int + 1) =~= s@.subrange(0, i as int).push(s@[i as int]));
            }
        }
        i += 1;
    }
    proof {
        assert(s@.subrange(0, n as int) =~= s@);
    }
    out
}

/// The first position where `pat` occurs in `s`. The empty pattern matches
/// at the front.
pub open spec fn spec_find_sub(s: Seq<char>, pat: Seq<char>) -> Option<int>
    decreases s.len(),
{
    if pat.len() == 0 {
        Some(0)
    } else if s.len() < pat.len() {
        None
    } else if s.subrange(0, pat.len() as int) == pat {
        Some(0)
    } else {
        match spec_find_sub(s.subrange(1, s.len() as int), pat) {
            Some(i) => Some(i + 1),
            None => None,
        }
    }
}

/// `s` with the first occurrence of `pat` (if any) replaced by `rep`.
pub open spec fn spec_replace_first(s: Seq<char>, pat: Seq<char>, rep: Seq<char>) -> Seq<char> {
    match spec_find_sub(s, pat) {
        Some(i) => s.subrange(0, i) + rep + s.subrange(i + pat.len(), s.len() as int),
        None => s,
    }
}

proof fn lemma_find_sub_props(s: Seq<char>, pat: Seq<char>)
    ensures
        match spec_find_sub(s, pat) {
            Some(i) => 0 <= i && i + pat.len() <= s.len() && s.subrange(i, i + pat.len()) == pat
                && forall|k: int|
                0 <= k < i ==> #[trigger] s.subrange(k, k + pat.len()) != pat,
            None => forall|k: int|
                0 <= k <= s.len() - pat.len() ==> #[trigger] s.subrange(k, k + pat.len()) != pat,
        },
    decreases s.len(),
{
    if pat.len() == 0 {
        assert(s.subrange(0, 0) =~= pat);
    } else if s.len() < pat.len() {
    } else if s.subrange(0, pat.len() as int) == pat {
    } else {
        let t = s.subrange(1, s.len() as int);
        lemma_find_sub_props(t, pat);
        assert(forall|k: int|
            1 <= k && k + pat.len() <= s.len() ==> #[trigger] s.subrange(k, k + pat.len())
                =~= t.subrange(k - 1, k - 1 + pat.len()));
        match spec_find_sub(s, pat) {
            Some(i) => {
                assert(spec_find_sub(t, pat) == Some(i - 1));
                assert(s.subrange(i, i + pat.len()) == t.subrange(i - 1, i - 1 + pat.len()));
                assert(forall|k: int|
                    1 <= k < i ==> #[trigger] s.subrange(k, k + pat.len()) != pat) by {
                    assert(forall|k: int|
                        0 <= k < i - 1 ==> #[trigger] t.subrange(k, k + pat.len()) != pat);
                }
            },
            None => {
                assert(forall|k: int|
                    1 <= k <= s.len() - pat.len() ==> #[trigger] s.subrange(k, k + pat.len())
                        != pat) by {
                    assert(forall|k: int|
                        0 <= k <= t.len() - pat.len() ==> #[trigger] t.subrange(k, k + pat.len())
                            != pat);
                }
            },
        }
    }
}

/// Whether `pat` occurs at position `i` of `s`, by character comparison.
fn matches_at(s: &str, n: usize, pat: &str, m: usize, i: usize) -> (r: bool)
    requires
        n == s@.len(),
        m == pat@.len(),
        0 <= i,
        i + m <= n,
    ensures
        r == (s@.subrange(i as int, i as int + m as int) == pat@),
{
    let mut j: usize = 0;
    while j < m
        invariant
            n == s@.len(),
            m == pat@.len(),
            i + m <= n,
            0 <= j <= m,
            forall|k: int| 0 <= k < j ==> s@[i + k] == pat@[k],
        decreases m - j,
    {
        if s.get_char(i + j) != pat.get_char(j) {
            proof {
                assert(s@.subrange(i as int, i as int + m as int)[j as int] != pat@[j as int]);
            }
            return false;
        }
        j += 1;
    }
    proof {
        assert(s@.subrange(i as int, i as int + m as int) =~= pat@);
    }
    true
}

/// Replace the first occurrence of `pat` in `s` by `rep`; `s` unchanged
/// when `pat` does not occur. The empty pattern matches at the front.
pub fn replace_first(s: &str, pat: &str, rep: &str) -> (r: String)
    ensures
        r@ == spec_replace_first(s@, pat@, rep@),
{
    let n = s.unicode_len();
    let m = pat.unicode_len();
    proof {
        lemma_find_sub_props(s@, pat@);
    }
    if m == 0 {
        let out = rep.to_owned();
        let r = out.concat(s);
        proof {
            assert(r@ =~= spec_replace_first(s@, pat@, rep@));
        }
        return r;
    }
    if m > n {
        return s.to_owned();
    }
    let mut i: usize = 0;
    while i <= n - m
        invariant
            n == s@.len(),
            m == pat@.len(),
            1 <= m <= n,
            0 <= i <= n - m + 1,
            forall|k: int| 0 <= k < i ==> #[trigger] s@.subrange(k, k + m as int) != pat@,
        decreases n - m - i + 1,
    {
        if matches_at(s, n, pat, m, i) {
            proof {
                lemma_find_sub_props(s@, pat@);
                match spec_find_sub(s@, pat@) {
                    Some(j) => {
                        assert(j == i as int) by {
                            if j < i as int {
                                assert(s@.subrange(j, j + m as int) != pat@);
                            }
                            if j > i as int {
                                assert(s@.subrange(i as int, i as int + m as int) != pat@);
                            }
                        }
                    },
                    None => {
                        assert(s@.subrange(i as int, i as int + m as int) != pat@);
                    },
                }
            }
            let mut out = s.substring_char(0, i).to_owned();
            out.append(rep);
            let tail = s.substring_char(i + m, n);
            let r = out.concat(tail);
            proof {
                assert(r@ =~= spec_replace_first(s@, pat@, rep@));
            }
            return r;
        }
        i += 1;
    }
    proof {
        lemma_find_sub_props(s@, pat@);
        match spec_find_sub(s@, pat@) {
            Some(j) => {
                assert(s@.subrange(j, j + m as int) != pat@);
                assert(false);
            },
            None => {},
        }
    }
    s.to_owned()
}

/// The subsequence of ASCII alphanumeric characters, in order.
pub open spec fn spec_strip_non_alnum(s: Seq<char>) -> Seq<char>
    decreases s.len(),
{
    if s.len() == 0 {
        Seq::<char>::empty()
    } else if is_alnum(s[0]) {
        seq![s[0]] + spec_strip_non_alnum(s.subrange(1, s.len() as int))
    } else {
        spec_strip_non_alnum(s.subrange(1, s.len() as int))
    }
}

pub proof fn lemma_strip_push(s: Seq<char>, c: char)
    ensures
        spec_strip_non_alnum(s.push(c)) == if is_alnum(c) {
            spec_strip_non_alnum(s).push(c)
        } else {
            spec_strip_non_alnum(s)
        },
    decreases s.len(),
{
    if s.len() == 0 {
        assert(s.push(c).subrange(1, 1) =~= Seq::<char>::empty());
        assert(spec_strip_non_alnum(Seq::<char>::empty()) == Seq::<char>::empty());
        if is_alnum(c) {
            assert(spec_strip_non_alnum(s.push(c)) == seq![c] + spec_strip_non_alnum(
                s.push(c).subrange(1, 1),
            ));
            assert(spec_strip_non_alnum(s.push(c)) =~= spec_strip_non_alnum(s).push(c));
        }
    } else {
        let t = s.subrange(1, s.len() as int);
        lemma_strip_push(t, c);
        assert(s.push(c).subrange(1, s.len() as int + 1) =~= t.push(c));
        assert(s.push(c)[0] == s[0]);
        if is_alnum(s[0]) {
            if is_alnum(c) {
                assert(seq![s[0]] + spec_strip_non_alnum(t).push(c) =~= (seq![s[0]]
                    + spec_strip_non_alnum(t)).push(c));
            }
        }
    }
}

/// Keep only the ASCII alphanumeric characters of `s`.
pub fn strip_non_alnum(s: &str) -> (r: String)
    ensures
        r@ == spec_strip_non_alnum(s@),
{
    let n = s.unicode_len();
    let mut out = String::new();
    let mut i: usize = 0;
    proof {
        assert(s@.subrange(0, 0) =~= Seq::<char>::empty());
    }
    while i < n
        invariant
            n == s@.len(),
            0 <= i <= n,
            out@ == spec_strip_non_alnum(s@.subrange(0, i as int)),
        decreases n - i,
    {
        let c = s.get_char(i);
        proof {
            lemma_strip_push(s@.subrange(0, i as int), c);
            assert(s@.subrange(0, i as int).push(c) =~= s@.subrange(0, i as int + 1));
        }
        if ('0' <= c && c <= '9') || ('a' <= c && c <= 'z') || ('A' <= c && c <= 'Z') {
            out.push(c);
        }
        i += 1;
    }
    proof {
        assert(s@.subrange(0, n as int) =~= s@);
    }
    out
}

/// The numeric value of a sequence of decimal digits.
pub open spec fn spec_digits_value(s: Seq<char>) -> int
    decreases s.len(),
{
    if s.len() == 0 {
        0
    } else {
        spec_digits_value(s.subrange(0, s.len() - 1)) * 10 + (s.last() as int - '0' as int)
    }
}

/// A non-empty, all-digit sequence.
pub open spec fn spec_all_digits(s: Seq<char>) -> bool {
    s.len() > 0 && forall|i: int| 0 <= i < s.len() ==> is_digit(#[trigger] s[i])
}

/// Parse a non-empty sequence of decimal digits as an `i32`.
/// `None` when the text is empty, holds a non-digit, or overflows.
pub fn parse_digits_i32(s: &str) -> (r: Option<i32>)
    ensures
        match r {
            Some(v) => spec_all_digits(s@) && v == spec_digits_value(s@) && v >= 0,
            None => !spec_all_digits(s@) || spec_digits_value(s@) > i32::MAX,
        },
{
    let n = s.unicode_len();
    if n == 0 {
        return None;
    }
    let mut value: i32 = 0;
    let mut i: usize = 0;
    while i < n
        invariant
            n == s@.len(),
            0 <= i <= n,
            forall|k: int| 0 <= k < i ==> is_digit(#[trigger] s@[k]),
            0 <= value,
            value == spec_digits_value(s@.subrange(0, i as int)),
        decreases n - i,
    {
        let c = s.get_char(i);
        if !('0' <= c && c <= '9') {
            return None;
        }
        let d = (c as u32 - '0' as u32) as i32;
        if value > (i32::MAX - d) / 10 {
            proof {
                assert(spec_digits_value(s@.subrange(0, i as int + 1)) == value * 10 + d) by {
                    assert(s@.subrange(0, i as int + 1).subrange(0, i as int) =~= s@.subrange(
                        0,
                        i as int,
                    ));
                }
                if spec_all_digits(s@) {
                    lemma_digits_value_monotonic(s@, i as int + 1);
                }
            }
            return None;
        }
        proof {
            assert(s@.subrange(0, i as int + 1).subrange(0, i as int) =~= s@.subrange(0, i as int));
        }
        value = value * 10 + d;
        i += 1;
    }
    proof {
        assert(s@.subrange(0, n as int) =~= s@);
    }
    Some(value)
}

/// The value of a digit prefix never exceeds the value of the whole digit
/// string: growing the prefix multiplies by ten and adds a non-negative digit.
proof fn lemma_digits_value_monotonic(s: Seq<char>, i: int)
    requires
        0 < i <= s.len(),
        forall|k: int| 0 <= k < i ==> is_digit(#[trigger] s[k]),
        spec_all_digits(s),
    ensures
        spec_digits_value(s.subrange(0, i)) <= spec_digits_value(s),
    decreases s.len() - i,
{
    lemma_digits_value_nonneg(s.subrange(0, i));
    if i < s.len() {
        lemma_digits_value_monotonic(s, i + 1);
        assert(s.subrange(0, i + 1).subrange(0, i) =~= s.subrange(0, i));
        assert(spec_digits_value(s.subrange(0, i + 1)) == spec_digits_value(s.subrange(0, i)) * 10
            + (s[i] as int - '0' as int));
        lemma_digits_value_nonneg(s.subrange(0, i));
    } else {
        assert(s.subrange(0, i) =~= s);
    }
}

pub proof fn lemma_digits_value_nonneg(s: Seq<char>)
    requires
        forall|i: int| 0 <= i < s.len() ==> is_digit(#[trigger] s[i]),
    ensures
        spec_digits_value(s) >= 0,
    decreases s.len(),
{
    if s.len() > 0 {
        lemma_digits_value_nonneg(s.subrange(0, s.len() - 1));
    }
}

/// Decimal rendering of a non-negative integer, without leading zeros.
pub open spec fn spec_nat_to_digits(n: int) -> Seq<char>
    decreases n,
{
    if n <= 0 {
        seq!['0']
    } else if n < 10 {
        seq![(('0' as int + n) as char)]
    } else {
        spec_nat_to_digits(n / 10).push((('0' as int + n % 10) as char))
    }
}

/// Decimal rendering of an `i32`, with a leading minus sign when negative.
pub open spec fn spec_i32_to_string(v: int) -> Seq<char> {
    if v < 0 {
        seq!['-'] + spec_nat_to_digits(-v)
    } else {
        spec_nat_to_digits(v)
    }
}

/// Render a `u64` in decimal.
fn u64_to_string(x: u64) -> (r: String)
    ensures
        r@ == spec_nat_to_digits(x as int),
{
    let mut digits: Vec<char> = Vec::new();
    let mut v: u64 = x;
    proof {
        assert(spec_nat_to_digits(x as int) =~= spec_nat_to_digits(v as int) + digits@);
    }
    loop
        invariant_except_break
            spec_nat_to_digits(x as int) == spec_nat_to_digits(v as int) + digits@,
        ensures
            spec_nat_to_digits(x as int) == digits@,
        decreases v,
    {
        let ghost v0: int = v as int;
        let d: u8 = (v % 10) as u8;
        let c: char = (('0' as u8) + d) as char;
        proof {
            assert(c as int == '0' as int + v0 % 10);
            if v0 >= 10 {
                assert(spec_nat_to_digits(v0) == spec_nat_to_digits(v0 / 10).push(c));
                assert(spec_nat_to_digits(v0 / 10) + (seq![c] + digits@) =~= spec_nat_to_digits(
                    v0,
                ) + digits@);
            } else {
                assert(spec_nat_to_digits(v0) =~= seq![c]);
                assert(seq![c] + digits@ =~= spec_nat_to_digits(v0) + digits@);
            }
        }
        let ghost pre: Seq<char> = digits@;
        digits.insert(0, c);
        proof {
            assert(digits@ =~= seq![c] + pre);
        }
        v = v / 10;
        if v == 0 {
            proof {
                assert(v0 < 10);
                assert(spec_nat_to_digits(x as int) == digits@);
            }
            break;
        }
        proof {
            assert(v0 >= 10);
            assert((v0 / 10) + (seq![c] + pre).len() >= 0);
        }
    }
    let mut out = String::new();
    let mut i: usize = 0;
    let n = digits.len();
    while i < n
        invariant
            n == digits@.len(),
            0 <= i <= n,
            out@ == digits@.subrange(0, i as int),
        decreases n - i,
    {
        out.push(digits[i]);
        proof {
            assert(digits@.subrange(0, i as int).push(digits@[i as int]) =~= digits@.subrange(
                0,
                i as int + 1,
            ));
        }
        i += 1;
    }
    proof {
        assert(digits@.subrange(0, n as int) =~= digits@);
    }
    out
}

/// Render an `i32` in decimal.
pub fn i32_to_string(x: i32) -> (r: String)
    ensures
        r@ == spec_i32_to_string(x as int),
{
    if x >= 0 {
        u64_to_string(x as u64)
    } else {
        let magnitude: u64 = (-(x as i64)) as u64;
        let mut out = String::new();
        out.push('-');
        let digits = u64_to_string(magnitude);
        let out2 = out.concat(digits.as_str());
        proof {
            assert(out2@ =~= spec_i32_to_string(x as int));
        }
        out2
    }
}

} // verus!
