//! Verified helpers for working with strings as sequences of characters.
//!
//! Whitespace and the character classes here are the ASCII ones: type
//! signatures and the source text this library inspects are treated as
//! ASCII-classified text, and the specs say exactly that.

use vstd::prelude::*;
use vstd::string::StrSliceExecFns;
use vstd::string::StringExecFns;

verus! {

/// ASCII whitespace, the classification every trimming function here uses.
pub open spec fn is_space_char(c: char) -> bool {
    c == ' ' || c == '\t' || c == '\n' || c == '\r' || c as u32 == 11 || c as u32 == 12
}

/// Number of leading whitespace characters of `s`.
pub open spec fn spec_trim_start(s: Seq<char>) -> int
    decreases s.len(),
{
    if s.len() == 0 || !is_space_char(s[0]) {
        0
    } else {
        1 + spec_trim_start(s.subrange(1, s.len() as int))
    }
}

/// Index one past the last non-whitespace character of `s`.
pub open spec fn spec_trim_end(s: Seq<char>) -> int
    decreases s.len(),
{
    if s.len() == 0 || !is_space_char(s[s.len() - 1]) {
        s.len() as int
    } else {
        spec_trim_end(s.subrange(0, s.len() - 1))
    }
}

/// `s` with leading and trailing whitespace removed.
pub open spec fn spec_trim(s: Seq<char>) -> Seq<char> {
    if spec_trim_start(s) >= spec_trim_end(s) {
        Seq::empty()
    } else {
        s.subrange(spec_trim_start(s), spec_trim_end(s))
    }
}

pub proof fn lemma_trim_start_char(s: Seq<char>)
    ensures
        0 <= spec_trim_start(s) <= s.len(),
        forall|j: int| 0 <= j < spec_trim_start(s) ==> is_space_char(s[j]),
        spec_trim_start(s) < s.len() ==> !is_space_char(s[spec_trim_start(s)]),
    decreases s.len(),
{
    if s.len() == 0 || !is_space_char(s[0]) {
    } else {
        lemma_trim_start_char(s.subrange(1, s.len() as int));
        assert forall|j: int| 0 <= j < spec_trim_start(s) implies is_space_char(s[j]) by {
            if j > 0 {
                assert(s.subrange(1, s.len() as int)[j - 1] == s[j]);
            }
        }
    }
}

pub proof fn lemma_trim_end_char(s: Seq<char>)
    ensures
        0 <= spec_trim_end(s) <= s.len(),
        forall|j: int| spec_trim_end(s) <= j < s.len() ==> is_space_char(s[j]),
        spec_trim_end(s) > 0 ==> !is_space_char(s[spec_trim_end(s) - 1]),
    decreases s.len(),
{
    if s.len() == 0 || !is_space_char(s[s.len() - 1]) {
    } else {
        lemma_trim_end_char(s.subrange(0, s.len() - 1));
        assert forall|j: int| spec_trim_end(s) <= j < s.len() implies is_space_char(s[j]) by {
            if j < s.len() - 1 {
                assert(s.subrange(0, s.len() - 1)[j] == s[j]);
            }
        }
    }
}

/// Trimming never lengthens a string.
pub proof fn lemma_trim_len(s: Seq<char>)
    ensures
        spec_trim(s).len() <= s.len(),
        spec_trim(s).len() >= 0,
{
    lemma_trim_start_char(s);
    lemma_trim_end_char(s);
}

/// Character-by-character equality of two string slices.
pub fn str_eq(a: &str, b: &str) -> (r: bool)
    ensures
        r == (a@ == b@),
{
    let na = a.unicode_len();
    let nb = b.unicode_len();
    if na != nb {
        proof {
            assert(a@ != b@) by {
                if a@ == b@ {
                    assert(a@.len() == b@.len());
                }
            }
        }
        return false;
    }
    let mut i: usize = 0;
    while i < na
        invariant
            na == a@.len(),
            nb == b@.len(),
            na == nb,
            i <= na,
            forall|j: int| 0 <= j < i ==> a@[j] == b@[j],
        decreases na - i,
    {
        if a.get_char(i) != b.get_char(i) {
            return false;
        }
        i += 1;
    }
    proof {
        assert(a@ =~= b@);
    }
    true
}

/// `s` with leading and trailing ASCII whitespace removed.
pub fn trim(s: &str) -> (r: &str)
    ensures
        r@ == spec_trim(s@),
{
    let n = s.unicode_len();
    let mut start: usize = 0;
    while start < n && is_space(s.get_char(start))
        invariant
            n == s@.len(),
            start <= n,
            forall|j: int| 0 <= j < start ==> is_space_char(s@[j]),
        decreases n - start,
    {
        start += 1;
    }
    let mut end: usize = n;
    while end > start && is_space(s.get_char(end - 1))
        invariant
            n == s@.len(),
            start <= end <= n,
            forall|j: int| end <= j < n ==> is_space_char(s@[j]),
            forall|j: int| 0 <= j < start ==> is_space_char(s@[j]),
            start < n ==> !is_space_char(s@[start as int]),
        decreases end,
    {
        end -= 1;
    }
    proof {
        lemma_trim_start_char(s@);
        lemma_trim_end_char(s@);
        let ts = spec_trim_start(s@);
        let te = spec_trim_end(s@);
        assert(start == ts) by {
            if start < ts {
                assert(is_space_char(s@[start as int]));
                assert(start < n);
            } else if ts < start {
                assert(is_space_char(s@[ts]));
                assert(!is_space_char(s@[ts]));
            }
        }
        if end == start {
            assert(te <= start) by {
                if te > start {
                    assert(is_space_char(s@[te - 1]));
                    assert(!is_space_char(s@[te - 1]));
                }
            }
            assert(spec_trim(s@) =~= s@.subrange(start as int, end as int));
        } else {
            assert(!is_space_char(s@[end - 1]));
            assert(end == te) by {
                if end < te {
                    assert(is_space_char(s@[end - 1]));
                } else if te < end {
                    assert(is_space_char(s@[te]));
                    if te < start {
                        assert(is_space_char(s@[te]));
                    }
                    assert(te >= start);
                    assert(te > 0 ==> !is_space_char(s@[te - 1]));
                    if te == start {
                        assert(start < n);
                        assert(!is_space_char(s@[start as int]));
                        assert(is_space_char(s@[te]));
                    } else {
                        assert(is_space_char(s@[te]));
                    }
                }
            }
            assert(spec_trim(s@) == s@.subrange(start as int, end as int));
        }
    }
    s.substring_char(start, end)
}

/// Executable test for ASCII whitespace.
pub fn is_space(c: char) -> (r: bool)
    ensures
        r == is_space_char(c),
{
    c == ' ' || c == '\t' || c == '\n' || c == '\r' || c as u32 == 11 || c as u32 == 12
}

/// `p` is a prefix of `s`.
pub open spec fn spec_starts_with(s: Seq<char>, p: Seq<char>) -> bool {
    p.len() <= s.len() && s.subrange(0, p.len() as int) == p
}

/// `p` is a suffix of `s`.
pub open spec fn spec_ends_with(s: Seq<char>, p: Seq<char>) -> bool {
    p.len() <= s.len() && s.subrange(s.len() - p.len(), s.len() as int) == p
}

pub fn starts_with(s: &str, p: &str) -> (r: bool)
    ensures
        r == spec_starts_with(s@, p@),
{
    let n = s.unicode_len();
    let m = p.unicode_len();
    if m > n {
        return false;
    }
    let mut i: usize = 0;
    while i < m
        invariant
            n == s@.len(),
            m == p@.len(),
            m <= n,
            i <= m,
            forall|j: int| 0 <= j < i ==> s@[j] == p@[j],
        decreases m - i,
    {
        if s.get_char(i) != p.get_char(i) {
            proof {
                assert(s@.subrange(0, m as int)[i as int] == s@[i as int]);
            }
            return false;
        }
        i += 1;
    }
    proof {
        assert(s@.subrange(0, m as int) =~= p@);
    }
    true
}

pub fn ends_with(s: &str, p: &str) -> (r: bool)
    ensures
        r == spec_ends_with(s@, p@),
{
    let n = s.unicode_len();
    let m = p.unicode_len();
    if m > n {
        return false;
    }
    let off = n - m;
    let mut i: usize = 0;
    while i < m
        invariant
            n == s@.len(),
            m == p@.len(),
            m <= n,
            off == n - m,
            i <= m,
            forall|j: int| 0 <= j < i ==> s@[off + j] == p@[j],
        decreases m - i,
    {
        if s.get_char(off + i) != p.get_char(i) {
            proof {
                assert(s@.subrange(off as int, n as int)[i as int] == s@[off + i]);
            }
            return false;
        }
        i += 1;
    }
    proof {
        assert(s@.subrange(off as int, n as int) =~= p@);
    }
    true
}

/// `sub` occurs (contiguously) somewhere in `s`.
pub open spec fn spec_contains(s: Seq<char>, sub: Seq<char>) -> bool {
    exists|i: int| #[trigger] spec_match_at(s, sub, i)
}

/// `sub` occurs in `s` starting exactly at `i`.
pub open spec fn spec_match_at(s: Seq<char>, sub: Seq<char>, i: int) -> bool {
    0 <= i && i + sub.len() <= s.len() && s.subrange(i, i + sub.len()) == sub
}

pub fn matches_at(s: &str, sub: &str, i: usize) -> (r: bool)
    requires
        i + sub@.len() <= s@.len(),
    ensures
        r == spec_match_at(s@, sub@, i as int),
{
    let n = s.unicode_len();
    let m = sub.unicode_len();
    let mut j: usize = 0;
    while j < m
        invariant
            n == s@.len(),
            m == sub@.len(),
            i + m <= s@.len(),
            j <= m,
            forall|k: int| 0 <= k < j ==> s@[i + k] == sub@[k],
        decreases m - j,
    {
        if s.get_char(i + j) != sub.get_char(j) {
            proof {
                assert(s@.subrange(i as int, i + m)[j as int] == s@[i + j]);
            }
            return false;
        }
        j += 1;
    }
    proof {
        assert(s@.subrange(i as int, i + m) =~= sub@);
    }
    true
}

pub fn contains(s: &str, sub: &str) -> (r: bool)
    ensures
        r == spec_contains(s@, sub@),
{
    let n = s.unicode_len();
    let m = sub.unicode_len();
    if m > n {
        proof {
            assert(!spec_contains(s@, sub@)) by {
                if spec_contains(s@, sub@) {
                    let i = choose|i: int| spec_match_at(s@, sub@, i);
                    assert(i + m <= n);
                }
            }
        }
        return false;
    }
    if m == 0 {
        proof {
            assert(s@.subrange(0, 0) =~= sub@);
            assert(spec_match_at(s@, sub@, 0));
        }
        return true;
    }
    let mut i: usize = 0;
    while i <= n - m
        invariant
            n == s@.len(),
            m == sub@.len(),
            1 <= m <= n,
            i <= n - m + 1,
            forall|k: int| 0 <= k < i ==> !spec_match_at(s@, sub@, k),
        decreases n - i,
    {
        if matches_at(s, sub, i) {
            return true;
        }
        i += 1;
    }
    proof {
        assert(!spec_contains(s@, sub@)) by {
            if spec_contains(s@, sub@) {
                let k = choose|k: int| spec_match_at(s@, sub@, k);
                assert(0 <= k < i);
            }
        }
    }
    false
}

/// Concatenation of two string slices into an owned string.
pub fn concat2(a: &str, b: &str) -> (r: String)
    ensures
        r@ == a@ + b@,
{
    String::from_str(a).concat(b)
}

/// Concatenation of three string slices into an owned string.
pub fn concat3(a: &str, b: &str, c: &str) -> (r: String)
    ensures
        r@ == a@ + b@ + c@,
{
    String::from_str(a).concat(b).concat(c)
}

/// Index of the first occurrence of `sep` in `s`, or -1 when absent.
pub open spec fn spec_find_char(s: Seq<char>, sep: char) -> int
    decreases s.len(),
{
    if s.len() == 0 {
        -1
    } else if s[0] == sep {
        0
    } else {
        let r = spec_find_char(s.subrange(1, s.len() as int), sep);
        if r < 0 {
            -1
        } else {
            r + 1
        }
    }
}

pub proof fn lemma_find_char(s: Seq<char>, sep: char)
    ensures
        spec_find_char(s, sep) >= 0 ==> {
            &&& spec_find_char(s, sep) < s.len()
            &&& s[spec_find_char(s, sep)] == sep
            &&& forall|j: int| 0 <= j < spec_find_char(s, sep) ==> s[j] != sep
        },
        spec_find_char(s, sep) < 0 ==> forall|j: int| 0 <= j < s.len() ==> s[j] != sep,
    decreases s.len(),
{
    if s.len() == 0 {
    } else if s[0] == sep {
    } else {
        let tail = s.subrange(1, s.len() as int);
        lemma_find_char(tail, sep);
        let r = spec_find_char(tail, sep);
        if r >= 0 {
            assert forall|j: int| 0 <= j < spec_find_char(s, sep) implies s[j] != sep by {
                if j > 0 {
                    assert(tail[j - 1] == s[j]);
                }
            }
        } else {
            assert forall|j: int| 0 <= j < s.len() implies s[j] != sep by {
                if j > 0 {
                    assert(tail[j - 1] == s[j]);
                }
            }
        }
    }
}

/// The segments of `s` between occurrences of `sep`; always non-empty as a list.
pub open spec fn spec_split(s: Seq<char>, sep: char) -> Seq<Seq<char>>
    decreases s.len(),
{
    let f = spec_find_char(s, sep);
    if 0 <= f < s.len() {
        seq![s.subrange(0, f)] + spec_split(s.subrange(f + 1, s.len() as int), sep)
    } else {
        seq![s]
    }
}

proof fn lemma_split_decomposition(s: Seq<char>, sep: char, f: int)
    requires
        0 <= f < s.len(),
        s[f] == sep,
        forall|j: int| 0 <= j < f ==> s[j] != sep,
    ensures
        spec_split(s, sep) == seq![s.subrange(0, f)] + spec_split(
            s.subrange(f + 1, s.len() as int),
            sep,
        ),
{
    lemma_find_char(s, sep);
    let f0 = spec_find_char(s, sep);
    if f0 < 0 {
        assert(s[f] != sep);
    }
    if f0 < f {
        assert(s[f0] != sep);
    }
    if f < f0 {
        assert(s[f] != sep);
    }
    assert(f0 == f);
}

/// Finds the first occurrence of `sep` at or after `from`.
fn find_char_from(s: &str, sep: char, from: usize) -> (r: Option<usize>)
    requires
        from <= s@.len(),
    ensures
        match r {
            Some(i) => {
                &&& from <= i < s@.len()
                &&& s@[i as int] == sep
                &&& forall|j: int| from <= j < i ==> s@[j] != sep
            },
            None => forall|j: int| from <= j < s@.len() ==> s@[j] != sep,
        },
{
    let n = s.unicode_len();
    let mut i: usize = from;
    while i < n
        invariant
            n == s@.len(),
            from <= i <= n,
            forall|j: int| from <= j < i ==> s@[j] != sep,
        decreases n - i,
    {
        if s.get_char(i) == sep {
            return Some(i);
        }
        i += 1;
    }
    None
}

/// Splits `s` on `sep` into owned segments (the way `str::split` does:
/// one segment more than there are separators).
pub fn split_char(s: &str, sep: char) -> (r: Vec<String>)
    ensures
        r.deep_view() == spec_split(s@, sep),
{
    let n = s.unicode_len();
    let mut out: Vec<String> = Vec::new();
    let mut t: usize = 0;
    proof {
        assert(s@.subrange(0, n as int) =~= s@);
        assert(out.deep_view() =~= Seq::<Seq<char>>::empty());
        assert(out.deep_view() + spec_split(s@, sep) =~= spec_split(s@, sep));
    }
    loop
        invariant
            n == s@.len(),
            t <= n,
            out.deep_view() + spec_split(s@.subrange(t as int, n as int), sep) == spec_split(
                s@,
                sep,
            ),
        decreases n - t,
    {
        let ghost rest = s@.subrange(t as int, n as int);
        match find_char_from(s, sep, t) {
            Some(i) => {
                let seg = String::from_str(s.substring_char(t, i));
                proof {
                    assert forall|j: int| 0 <= j < i - t implies rest[j] != sep by {
                        assert(rest[j] == s@[t + j]);
                    }
                    assert(rest[i - t] == s@[i as int]);
                    lemma_split_decomposition(rest, sep, i - t);
                    assert(rest.subrange(0, i - t) =~= s@.subrange(t as int, i as int));
                    assert(rest.subrange(i - t + 1, rest.len() as int) =~= s@.subrange(
                        i + 1,
                        n as int,
                    ));
                }
                out.push(seg);
                proof {
                    assert(out.deep_view() =~= out.deep_view().subrange(
                        0,
                        out.deep_view().len() - 1,
                    ).push(seg@));
                    assert(out.deep_view() + spec_split(s@.subrange(i + 1, n as int), sep)
                        =~= spec_split(s@, sep));
                }
                t = i + 1;
            },
            None => {
                let seg = String::from_str(s.substring_char(t, n));
                proof {
                    lemma_find_char(rest, sep);
                    if spec_find_char(rest, sep) >= 0 {
                        let f = spec_find_char(rest, sep);
                        assert(rest[f] == sep);
                        assert(rest[f] == s@[t + f]);
                    }
                    assert(spec_split(rest, sep) == seq![rest]);
                    assert(rest =~= seg@);
                }
                out.push(seg);
                proof {
                    assert(out.deep_view() =~= spec_split(s@, sep));
                }
                return out;
            },
        }
    }
}

/// The elements of `parts` that are non-empty, in order.
pub open spec fn spec_filter_nonempty(parts: Seq<Seq<char>>) -> Seq<Seq<char>>
    decreases parts.len(),
{
    if parts.len() == 0 {
        Seq::empty()
    } else if parts[0].len() > 0 {
        seq![parts[0]] + spec_filter_nonempty(parts.subrange(1, parts.len() as int))
    } else {
        spec_filter_nonempty(parts.subrange(1, parts.len() as int))
    }
}

pub proof fn lemma_filter_nonempty_push(parts: Seq<Seq<char>>, p: Seq<char>)
    ensures
        spec_filter_nonempty(parts.push(p)) == if p.len() > 0 {
            spec_filter_nonempty(parts).push(p)
        } else {
            spec_filter_nonempty(parts)
        },
    decreases parts.len(),
{
    let empty = Seq::<Seq<char>>::empty();
    assert(spec_filter_nonempty(empty) == empty);
    if parts.len() == 0 {
        assert(parts.push(p)[0] == p);
        assert(parts.push(p).subrange(1, 1) =~= empty);
        assert(parts.push(p).subrange(1, parts.push(p).len() as int) =~= empty);
        if p.len() > 0 {
            assert(spec_filter_nonempty(parts.push(p)) =~= spec_filter_nonempty(parts).push(p));
        } else {
            assert(spec_filter_nonempty(parts.push(p)) =~= spec_filter_nonempty(parts));
        }
    } else {
        let tail = parts.subrange(1, parts.len() as int);
        lemma_filter_nonempty_push(tail, p);
        assert(parts.push(p).subrange(1, parts.push(p).len() as int) =~= tail.push(p));
        assert(parts.push(p)[0] == parts[0]);
        if p.len() > 0 {
            assert(spec_filter_nonempty(parts.push(p)) =~= spec_filter_nonempty(parts).push(p));
        } else {
            assert(spec_filter_nonempty(parts.push(p)) =~= spec_filter_nonempty(parts));
        }
    }
}

/// `parts` interleaved with `sep`.
pub open spec fn spec_join(parts: Seq<Seq<char>>, sep: Seq<char>) -> Seq<char>
    decreases parts.len(),
{
    if parts.len() == 0 {
        Seq::empty()
    } else if parts.len() == 1 {
        parts[0]
    } else {
        parts[0] + sep + spec_join(parts.subrange(1, parts.len() as int), sep)
    }
}

pub proof fn lemma_join_push(parts: Seq<Seq<char>>, p: Seq<char>, sep: Seq<char>)
    ensures
        spec_join(parts.push(p), sep) == if parts.len() == 0 {
            p
        } else {
            spec_join(parts, sep) + sep + p
        },
    decreases parts.len(),
{
    if parts.len() == 0 {
        assert(parts.push(p)[0] == p);
    } else {
        let tail = parts.subrange(1, parts.len() as int);
        lemma_join_push(tail, p, sep);
        assert(parts.push(p).subrange(1, parts.push(p).len() as int) =~= tail.push(p));
        assert(parts.push(p)[0] == parts[0]);
        if parts.len() == 1 {
            assert(tail.len() == 0);
            assert(spec_join(parts.push(p), sep) =~= parts[0] + sep + p);
            assert(spec_join(parts, sep) == parts[0]);
        } else {
            assert(spec_join(parts.push(p), sep) =~= spec_join(parts, sep) + sep + p);
        }
    }
}

/// Joins owned segments with a separator string.
pub fn join_strings(parts: &Vec<String>, sep: &str) -> (r: String)
    ensures
        r@ == spec_join(parts.deep_view(), sep@),
{
    let mut out = String::new();
    let mut i: usize = 0;
    while i < parts.len()
        invariant
            i <= parts.len(),
            out@ == spec_join(parts.deep_view().subrange(0, i as int), sep@),
        decreases parts.len() - i,
    {
        if i > 0 {
            out.append(sep);
        }
        out.append(parts[i].as_str());
        proof {
            let pv = parts.deep_view();
            lemma_join_push(pv.subrange(0, i as int), pv[i as int], sep@);
            assert(pv.subrange(0, i + 1) =~= pv.subrange(0, i as int).push(pv[i as int]));
        }
        i += 1;
    }
    proof {
        assert(parts.deep_view().subrange(0, parts.deep_view().len() as int) =~= parts.deep_view());
    }
    out
}

/// Keeps the non-empty segments, each trimmed first when `trim_first` is set.
pub fn trim_filter_nonempty(parts: &Vec<String>, trim_first: bool) -> (r: Vec<String>)
    ensures
        trim_first ==> r.deep_view() == spec_filter_nonempty(
            parts.deep_view().map_values(|p: Seq<char>| spec_trim(p)),
        ),
        !trim_first ==> r.deep_view() == spec_filter_nonempty(parts.deep_view()),
{
    let mut out: Vec<String> = Vec::new();
    let mut i: usize = 0;
    let ghost mapped = if trim_first {
        parts.deep_view().map_values(|p: Seq<char>| spec_trim(p))
    } else {
        parts.deep_view()
    };
    while i < parts.len()
        invariant
            i <= parts.len(),
            mapped == if trim_first {
                parts.deep_view().map_values(|p: Seq<char>| spec_trim(p))
            } else {
                parts.deep_view()
            },
            out.deep_view() == spec_filter_nonempty(mapped.subrange(0, i as int)),
        decreases parts.len() - i,
    {
        let piece: String = if trim_first {
            String::from_str(trim(parts[i].as_str()))
        } else {
            parts[i].clone()
        };
        proof {
            assert(mapped[i as int] == piece@);
        }
        if piece.unicode_len() > 0 {
            out.push(piece);
        }
        proof {
            lemma_filter_nonempty_push(mapped.subrange(0, i as int), mapped[i as int]);
            assert(mapped.subrange(0, i + 1) =~= mapped.subrange(0, i as int).push(
                mapped[i as int],
            ));
            if mapped[i as int].len() > 0 {
                assert(out.deep_view() =~= spec_filter_nonempty(mapped.subrange(0, i as int)).push(
                    mapped[i as int],
                ));
            }
        }
        i += 1;
    }
    proof {
        assert(mapped.subrange(0, mapped.len() as int) =~= mapped);
    }
    out
}

/// Relies on std's `String::push`: appends exactly one character.
#[verifier::external_body]
pub fn push_char(s: &mut String, c: char)
    ensures
        final(s)@ == old(s)@.push(c),
{
    s.push(c);
}

/// `s` with every occurrence of `from` replaced by `to`.
pub open spec fn spec_replace_char(s: Seq<char>, from: char, to: char) -> Seq<char> {
    s.map_values(|c: char| if c == from { to } else { c })
}

pub fn replace_char(s: &str, from: char, to: char) -> (r: String)
    ensures
        r@ == spec_replace_char(s@, from, to),
{
    let n = s.unicode_len();
    let mut out = String::new();
    let mut i: usize = 0;
    while i < n
        invariant
            n == s@.len(),
            i <= n,
            out@ == spec_replace_char(s@.subrange(0, i as int), from, to),
        decreases n - i,
    {
        let c = s.get_char(i);
        if c == from {
            push_char(&mut out, to);
        } else {
            push_char(&mut out, c);
        }
        proof {
            let pre = s@.subrange(0, i as int);
            let post = s@.subrange(0, i + 1);
            assert(post =~= pre.push(s@[i as int]));
            assert(spec_replace_char(post, from, to) =~= spec_replace_char(pre, from, to).push(
                if s@[i as int] == from { to } else { s@[i as int] },
            ));
        }
        i += 1;
    }
    proof {
        assert(s@.subrange(0, n as int) =~= s@);
    }
    out
}

/// ASCII lowercasing of one character; anything outside `A`..`Z` is unchanged.
pub open spec fn spec_lower_char(c: char) -> char {
    if 65 <= c as u32 <= 90 {
        (((c as u32) + 32) as u8) as char
    } else {
        c
    }
}

pub fn lower_char(c: char) -> (r: char)
    ensures
        r == spec_lower_char(c),
{
    let code = c as u32;
    if 65 <= code && code <= 90 {
        ((code + 32) as u8) as char
    } else {
        c
    }
}

/// ASCII lowercasing of a whole string.
pub open spec fn spec_to_lower(s: Seq<char>) -> Seq<char> {
    s.map_values(|c: char| spec_lower_char(c))
}

pub fn to_ascii_lower(s: &str) -> (r: String)
    ensures
        r@ == spec_to_lower(s@),
{
    let n = s.unicode_len();
    let mut out = String::new();
    let mut i: usize = 0;
    while i < n
        invariant
            n == s@.len(),
            i <= n,
            out@ == spec_to_lower(s@.subrange(0, i as int)),
        decreases n - i,
    {
        let c = s.get_char(i);
        push_char(&mut out, lower_char(c));
        proof {
            let pre = s@.subrange(0, i as int);
            let post = s@.subrange(0, i + 1);
            assert(post =~= pre.push(s@[i as int]));
            assert(spec_to_lower(post) =~= spec_to_lower(pre).push(spec_lower_char(s@[i as int])));
        }
        i += 1;
    }
    proof {
        assert(s@.subrange(0, n as int) =~= s@);
    }
    out
}

/// `s` with every occurrence of `pat` replaced by `to`, scanning left to right.
pub open spec fn spec_replace_seq(s: Seq<char>, pat: Seq<char>, to: Seq<char>) -> Seq<char>
    decreases s.len(),
{
    if pat.len() == 0 || s.len() < pat.len() {
        s
    } else if s.subrange(0, pat.len() as int) == pat {
        to + spec_replace_seq(s.subrange(pat.len() as int, s.len() as int), pat, to)
    } else {
        seq![s[0]] + spec_replace_seq(s.subrange(1, s.len() as int), pat, to)
    }
}

pub fn replace_str(s: &str, pat: &str, to: &str) -> (r: String)
    requires
        pat@.len() > 0,
    ensures
        r@ == spec_replace_seq(s@, pat@, to@),
{
    let n = s.unicode_len();
    let m = pat.unicode_len();
    let mut out = String::new();
    let mut i: usize = 0;
    proof {
        assert(s@.subrange(0, n as int) =~= s@);
    }
    while i < n
        invariant
            n == s@.len(),
            m == pat@.len(),
            m > 0,
            i <= n,
            out@ + spec_replace_seq(s@.subrange(i as int, n as int), pat@, to@) == spec_replace_seq(
                s@,
                pat@,
                to@,
            ),
        decreases n - i,
    {
        let ghost rest = s@.subrange(i as int, n as int);
        if m <= n - i && matches_at(s, pat, i) {
            proof {
                assert(rest.subrange(0, m as int) =~= s@.subrange(i as int, i + m));
                assert(rest.subrange(m as int, rest.len() as int) =~= s@.subrange(i + m, n as int));
            }
            out.append(to);
            i += m;
        } else {
            proof {
                if rest.len() >= m {
                    assert(rest.subrange(0, m as int) =~= s@.subrange(i as int, i + m));
                }
                assert(rest.subrange(1, rest.len() as int) =~= s@.subrange(i + 1, n as int));
                assert(rest[0] == s@[i as int]);
            }
            let c = s.get_char(i);
            push_char(&mut out, c);
            proof {
                assert(out@ + spec_replace_seq(s@.subrange(i + 1, n as int), pat@, to@)
                    =~= spec_replace_seq(s@, pat@, to@));
            }
            i += 1;
        }
    }
    proof {
        assert(s@.subrange(n as int, n as int) =~= Seq::<char>::empty());
        assert(spec_replace_seq(Seq::<char>::empty(), pat@, to@) =~= Seq::<char>::empty());
        assert(out@ =~= spec_replace_seq(s@, pat@, to@));
    }
    out
}

/// The decimal digit character for `d` in 0..10.
pub open spec fn spec_digit_char(d: int) -> char {
    ((48 + d) as u8) as char
}

/// Decimal notation of a natural number, most significant digit first.
pub open spec fn spec_decimal(n: int) -> Seq<char>
    decreases n,
{
    if n < 10 {
        seq![spec_digit_char(if n < 0 { 0 } else { n })]
    } else {
        spec_decimal(n / 10).push(spec_digit_char(n % 10))
    }
}

pub fn usize_to_string(n: usize) -> (r: String)
    ensures
        r@ == spec_decimal(n as int),
    decreases n,
{
    if n < 10 {
        let mut s = String::new();
        push_char(&mut s, ((n as u8) + 48) as char);
        proof {
            assert(s@ =~= seq![spec_digit_char(n as int)]);
        }
        s
    } else {
        let mut s = usize_to_string(n / 10);
        push_char(&mut s, (((n % 10) as u8) + 48) as char);
        s
    }
}

/// The first character exists and is an ASCII capital letter.
pub open spec fn spec_first_uppercase(s: Seq<char>) -> bool {
    s.len() > 0 && 65 <= s[0] as u32 <= 90
}

pub fn first_char_uppercase(s: &str) -> (r: bool)
    ensures
        r == spec_first_uppercase(s@),
{
    if s.unicode_len() == 0 {
        return false;
    }
    let c = s.get_char(0);
    let code = c as u32;
    65 <= code && code <= 90
}

/// ASCII word character: letter, digit or underscore.
pub open spec fn is_word_char(c: char) -> bool {
    (97 <= c as u32 <= 122) || (65 <= c as u32 <= 90) || (48 <= c as u32 <= 57) || c == '_'
}

pub fn is_word(c: char) -> (r: bool)
    ensures
        r == is_word_char(c),
{
    let code = c as u32;
    (97 <= code && code <= 122) || (65 <= code && code <= 90) || (48 <= code && code <= 57) || c
        == '_'
}

/// End of the maximal run of word characters starting at `i`.
pub open spec fn spec_word_run_end(s: Seq<char>, i: int) -> int
    decreases s.len() - i,
{
    if 0 <= i < s.len() && is_word_char(s[i]) {
        spec_word_run_end(s, i + 1)
    } else {
        i
    }
}

pub proof fn lemma_word_run_end(s: Seq<char>, i: int)
    requires
        0 <= i <= s.len(),
    ensures
        i <= spec_word_run_end(s, i) <= s.len(),
        forall|j: int| i <= j < spec_word_run_end(s, i) ==> is_word_char(s[j]),
        spec_word_run_end(s, i) < s.len() ==> !is_word_char(s[spec_word_run_end(s, i)]),
    decreases s.len() - i,
{
    if 0 <= i < s.len() && is_word_char(s[i]) {
        lemma_word_run_end(s, i + 1);
    }
}

/// End of the maximal run of whitespace characters starting at `i`.
pub open spec fn spec_space_run_end(s: Seq<char>, i: int) -> int
    decreases s.len() - i,
{
    if 0 <= i < s.len() && is_space_char(s[i]) {
        spec_space_run_end(s, i + 1)
    } else {
        i
    }
}

pub proof fn lemma_space_run_end(s: Seq<char>, i: int)
    requires
        0 <= i <= s.len(),
    ensures
        i <= spec_space_run_end(s, i) <= s.len(),
        forall|j: int| i <= j < spec_space_run_end(s, i) ==> is_space_char(s[j]),
        spec_space_run_end(s, i) < s.len() ==> !is_space_char(s[spec_space_run_end(s, i)]),
    decreases s.len() - i,
{
    if 0 <= i < s.len() && is_space_char(s[i]) {
        lemma_space_run_end(s, i + 1);
    }
}

pub fn word_run_end(s: &str, i: usize) -> (r: usize)
    requires
        i <= s@.len(),
    ensures
        r == spec_word_run_end(s@, i as int),
{
    let n = s.unicode_len();
    let mut j: usize = i;
    while j < n && is_word(s.get_char(j))
        invariant
            n == s@.len(),
            i <= j <= n,
            spec_word_run_end(s@, i as int) == spec_word_run_end(s@, j as int),
        decreases n - j,
    {
        j += 1;
    }
    j
}

pub fn space_run_end(s: &str, i: usize) -> (r: usize)
    requires
        i <= s@.len(),
    ensures
        r == spec_space_run_end(s@, i as int),
{
    let n = s.unicode_len();
    let mut j: usize = i;
    while j < n && is_space(s.get_char(j))
        invariant
            n == s@.len(),
            i <= j <= n,
            spec_space_run_end(s@, i as int) == spec_space_run_end(s@, j as int),
        decreases n - j,
    {
        j += 1;
    }
    j
}

/// Index of the first `)` at or after `i` on the same line, or -1 when a
/// newline or the end of the text comes first.
pub open spec fn spec_find_close(s: Seq<char>, i: int) -> int
    decreases s.len() - i,
{
    if !(0 <= i < s.len()) {
        -1
    } else if s[i] == ')' {
        i
    } else if s[i] == '\n' {
        -1
    } else {
        spec_find_close(s, i + 1)
    }
}

pub proof fn lemma_find_close(s: Seq<char>, i: int)
    requires
        0 <= i <= s.len(),
    ensures
        spec_find_close(s, i) >= 0 ==> {
            &&& i <= spec_find_close(s, i) < s.len()
            &&& s[spec_find_close(s, i)] == ')'
            &&& forall|j: int| i <= j < spec_find_close(s, i) ==> s[j] != ')' && s[j] != '\n'
        },
    decreases s.len() - i,
{
    if 0 <= i < s.len() && s[i] != ')' && s[i] != '\n' {
        lemma_find_close(s, i + 1);
    }
}

pub fn find_close(s: &str, i: usize) -> (r: Option<usize>)
    requires
        i <= s@.len(),
    ensures
        match r {
            Some(k) => spec_find_close(s@, i as int) == k as int,
            None => spec_find_close(s@, i as int) == -1,
        },
{
    let n = s.unicode_len();
    let mut j: usize = i;
    while j < n
        invariant
            n == s@.len(),
            i <= j <= n,
            spec_find_close(s@, i as int) == spec_find_close(s@, j as int),
        decreases n - j,
    {
        let c = s.get_char(j);
        if c == ')' {
            return Some(j);
        }
        if c == '\n' {
            return None;
        }
        j += 1;
    }
    None
}

} // verus!
