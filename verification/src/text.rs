//! Character-sequence searching and replacement.
//!
//! The rewriting pipeline is built on replacing every occurrence of a
//! fixed pattern in a text, scanning left to right without rescanning
//! replaced output -- the semantics of `str::replace`.  This module
//! states that operation as a spec function, implements it, and proves
//! the facts about it that the rest of the library needs.

use vstd::prelude::*;

verus! {

/// `pat` occurs in `s` starting at index `i`.
pub open spec fn match_at(s: Seq<char>, pat: Seq<char>, i: int) -> bool {
    &&& 0 <= i
    &&& i + pat.len() <= s.len()
    &&& s.subrange(i, i + pat.len() as int) == pat
}

/// `pat` occurs somewhere in `s`.
pub open spec fn contains_seq(s: Seq<char>, pat: Seq<char>) -> bool {
    exists|i: int| match_at(s, pat, i)
}

/// `pre` is a prefix of `s`.
pub open spec fn starts_with(s: Seq<char>, pre: Seq<char>) -> bool {
    pre.len() <= s.len() && s.subrange(0, pre.len() as int) == pre
}

/// Every occurrence of `pat` in `s` replaced by `to`: the scan moves
/// left to right, and a replacement is never itself rescanned.  An
/// empty pattern leaves the text unchanged.
pub open spec fn spec_replace(s: Seq<char>, pat: Seq<char>, to: Seq<char>) -> Seq<char>
    decreases s.len(),
{
    if pat.len() == 0 || s.len() < pat.len() {
        s
    } else if s.subrange(0, pat.len() as int) == pat {
        to + spec_replace(s.skip(pat.len() as int), pat, to)
    } else {
        seq![s[0]] + spec_replace(s.skip(1), pat, to)
    }
}

/// Whether `pat` occurs in `s` at position `i`, decided executably.
pub fn matches_at(s: &str, pat: &str, i: usize) -> (r: bool)
    requires
        i + pat@.len() <= s@.len(),
    ensures
        r == match_at(s@, pat@, i as int),
{
    let n = s.unicode_len();
    let p = pat.unicode_len();
    let mut j: usize = 0;
    while j < p
        invariant
            j <= p,
            p == pat@.len(),
            n == s@.len(),
            i + p <= n,
            forall|k: int| 0 <= k < j ==> s@[i + k] == pat@[k],
        decreases p - j,
    {
        if s.get_char(i + j) != pat.get_char(j) {
            assert(s@.subrange(i as int, i + p) != pat@) by {
                assert(s@.subrange(i as int, i + p)[j as int] == s@[i + j]);
            }
            return false;
        }
        j = j + 1;
    }
    assert(s@.subrange(i as int, i + p) =~= pat@);
    true
}

/// Whether `pat` occurs anywhere in `s`, decided executably.
pub fn contains_str(s: &str, pat: &str) -> (r: bool)
    ensures
        r == contains_seq(s@, pat@),
{
    let n = s.unicode_len();
    let p = pat.unicode_len();
    if p == 0 {
        assert(s@.subrange(0, 0) =~= pat@);
        assert(match_at(s@, pat@, 0));
        return true;
    }
    if p > n {
        assert(forall|i: int| !match_at(s@, pat@, i));
        return false;
    }
    let mut i: usize = 0;
    while i <= n - p
        invariant
            n == s@.len(),
            p == pat@.len(),
            0 < p <= n,
            i <= n - p + 1,
            forall|k: int| 0 <= k < i ==> !match_at(s@, pat@, k),
        decreases n + 1 - p - i,
    {
        if matches_at(s, pat, i) {
            return true;
        }
        i = i + 1;
    }
    assert(forall|k: int| !match_at(s@, pat@, k));
    false
}

proof fn lemma_replace_unfold_match(s: Seq<char>, pat: Seq<char>, to: Seq<char>, i: int)
    requires
        pat.len() >= 1,
        match_at(s, pat, i),
    ensures
        spec_replace(s.skip(i), pat, to) == to + spec_replace(s.skip(i + pat.len()), pat, to),
{
    let s2 = s.skip(i);
    assert(s2.subrange(0, pat.len() as int) =~= s.subrange(i, i + pat.len() as int));
    assert(s2.skip(pat.len() as int) =~= s.skip(i + pat.len()));
}

proof fn lemma_replace_unfold_miss(s: Seq<char>, pat: Seq<char>, to: Seq<char>, i: int)
    requires
        pat.len() >= 1,
        0 <= i < s.len(),
        !match_at(s, pat, i),
    ensures
        spec_replace(s.skip(i), pat, to) == seq![s[i]] + spec_replace(s.skip(i + 1), pat, to),
{
    let s2 = s.skip(i);
    assert(s2.skip(1) =~= s.skip(i + 1));
    if s2.len() < pat.len() {
        assert(spec_replace(s2, pat, to) == s2);
        assert(spec_replace(s.skip(i + 1), pat, to) == s.skip(i + 1));
        assert(s2 =~= seq![s[i]] + s.skip(i + 1));
    } else {
        assert(s2.subrange(0, pat.len() as int) =~= s.subrange(i, i + pat.len() as int));
        assert(s2.subrange(0, pat.len() as int) != pat);
        assert(s2[0] == s[i]);
    }
}

/// An occurrence inside a suffix of `s` is an occurrence in `s`.
pub proof fn lemma_contains_skip(s: Seq<char>, pat: Seq<char>, k: int)
    requires
        0 <= k <= s.len(),
        contains_seq(s.skip(k), pat),
    ensures
        contains_seq(s, pat),
{
    let i = choose|i: int| match_at(s.skip(k), pat, i);
    assert(s.subrange(k + i, k + i + pat.len()) =~= s.skip(k).subrange(i, i + pat.len() as int));
    assert(match_at(s, pat, k + i));
}

/// Replacing a pattern that does not occur leaves the text unchanged.
pub proof fn lemma_replace_absent(s: Seq<char>, pat: Seq<char>, to: Seq<char>)
    requires
        pat.len() >= 1,
        !contains_seq(s, pat),
    ensures
        spec_replace(s, pat, to) == s,
    decreases s.len(),
{
    if s.len() < pat.len() {
    } else {
        assert(!match_at(s, pat, 0));
        assert(s.subrange(0, pat.len() as int) != pat);
        if contains_seq(s.skip(1), pat) {
            lemma_contains_skip(s, pat, 1);
        }
        lemma_replace_absent(s.skip(1), pat, to);
        assert(seq![s[0]] + s.skip(1) =~= s);
    }
}

/// An occurrence of `q` in `a + b` lying wholly left of the seam is an
/// occurrence in `a`.
proof fn lemma_concat_match_left(a: Seq<char>, b: Seq<char>, q: Seq<char>, i: int)
    requires
        match_at(a + b, q, i),
        i + q.len() <= a.len(),
    ensures
        match_at(a, q, i),
{
    assert(a.subrange(i, i + q.len()) =~= (a + b).subrange(i, i + q.len() as int));
}

/// An occurrence of `q` in `a + b` lying wholly right of the seam is an
/// occurrence in `b`.
proof fn lemma_concat_match_right(a: Seq<char>, b: Seq<char>, q: Seq<char>, i: int)
    requires
        match_at(a + b, q, i),
        a.len() <= i,
    ensures
        match_at(b, q, i - a.len()),
{
    assert(b.subrange(i - a.len(), i - a.len() + q.len()) =~= (a + b).subrange(
        i,
        i + q.len() as int,
    ));
}

/// An occurrence of `q` in `a + b` crossing the seam splits `q` into a
/// suffix of `a` followed by a prefix of `b`.
proof fn lemma_concat_match_straddle(a: Seq<char>, b: Seq<char>, q: Seq<char>, i: int)
    requires
        match_at(a + b, q, i),
        0 <= i < a.len(),
        a.len() < i + q.len(),
    ensures
        a.skip(i) == q.take(a.len() - i),
        starts_with(b, q.skip(a.len() - i)),
{
    let k = a.len() - i;
    assert(a.skip(i) =~= (a + b).subrange(i, a.len() as int));
    assert((a + b).subrange(i, a.len() as int) =~= q.take(k));
    assert(b.subrange(0, q.len() - k) =~= (a + b).subrange(a.len() as int, i + q.len() as int));
    assert((a + b).subrange(a.len() as int, i + q.len() as int) =~= q.skip(k));
}

/// A prefix of `a + b` is a prefix of `a` when it is short enough, and
/// otherwise extends `a` into `b`.
proof fn lemma_concat_starts(a: Seq<char>, b: Seq<char>, x: Seq<char>)
    requires
        starts_with(a + b, x),
    ensures
        x.len() <= a.len() ==> starts_with(a, x),
        x.len() > a.len() ==> starts_with(x, a) && starts_with(b, x.skip(a.len() as int)),
{
    if x.len() <= a.len() {
        assert(a.subrange(0, x.len() as int) =~= (a + b).subrange(0, x.len() as int));
    } else {
        assert((a + b).subrange(0, x.len() as int) == x);
        assert(x.subrange(0, a.len() as int) =~= a) by {
            assert(forall|m: int|
                0 <= m < a.len() ==> (a + b).subrange(0, x.len() as int)[m] == a[m]);
        }
        assert(b.subrange(0, x.len() - a.len()) =~= x.skip(a.len() as int)) by {
            assert(forall|m: int|
                a.len() <= m < x.len() ==> (a + b).subrange(0, x.len() as int)[m] == b[m
                    - a.len()]);
        }
    }
}

/// The replacement text `to` gives `q` no way to appear around a seam:
/// `q` does not occur in `to`, no nonempty suffix of `to` is a proper
/// prefix of `q`, and no proper suffix of `q` lines up with the start
/// of `to`.
pub open spec fn clear_of(to: Seq<char>, q: Seq<char>) -> bool {
    &&& !contains_seq(to, q)
    &&& forall|k: int| 1 <= k < q.len() && k <= to.len() ==> to.skip(to.len() - k) != q.take(k)
    &&& forall|j: int|
        1 <= j < q.len() ==> !starts_with(to, q.skip(j)) && !starts_with(q.skip(j), to)
}

/// The central guarantee of the rewriting pipeline.  Replacing `pat` by
/// `to` leaves no occurrence of `q` behind, provided that `q` does not
/// occur in `to`, that `q` cannot recombine across the seams that a
/// replacement creates, and that `q` either is the pattern itself or
/// was absent from the text to begin with.
///
/// The second conclusion is the strengthening that carries the
/// induction: a proper suffix of `q` at the head of the result was
/// already at the head of the input.
pub proof fn lemma_replace_preserves_absence(
    s: Seq<char>,
    pat: Seq<char>,
    to: Seq<char>,
    q: Seq<char>,
)
    requires
        pat.len() >= 1,
        to.len() >= 1,
        q.len() >= 1,
        clear_of(to, q),
        q == pat || !contains_seq(s, q),
    ensures
        !contains_seq(spec_replace(s, pat, to), q),
        forall|j: int|
            1 <= j < q.len() && starts_with(spec_replace(s, pat, to), q.skip(j)) ==> starts_with(
                s,
                q.skip(j),
            ),
    decreases s.len(),
{
    let r = spec_replace(s, pat, to);
    if s.len() < pat.len() {
        assert(r == s);
        if q == pat {
            assert(forall|i: int| !match_at(s, q, i));
        }
    } else if s.subrange(0, pat.len() as int) == pat {
        let p = pat.len() as int;
        let r2 = spec_replace(s.skip(p), pat, to);
        assert(r == to + r2);
        if !(q == pat) && contains_seq(s.skip(p), q) {
            lemma_contains_skip(s, q, p);
        }
        lemma_replace_preserves_absence(s.skip(p), pat, to, q);
        // no occurrence of q anywhere in to + r2
        assert(!contains_seq(r, q)) by {
            if contains_seq(r, q) {
                let i = choose|i: int| match_at(r, q, i);
                if i + q.len() <= to.len() {
                    lemma_concat_match_left(to, r2, q, i);
                    assert(contains_seq(to, q));
                } else if i < to.len() {
                    lemma_concat_match_straddle(to, r2, q, i);
                    let k = to.len() - i;
                    assert(1 <= k < q.len() && k <= to.len());
                    assert(to.skip(to.len() - k) == q.take(k));
                } else {
                    lemma_concat_match_right(to, r2, q, i);
                    assert(contains_seq(r2, q));
                }
            }
        }
        assert forall|j: int|
            1 <= j < q.len() && starts_with(r, q.skip(j)) implies starts_with(s, q.skip(j)) by {
            lemma_concat_starts(to, r2, q.skip(j));
            if q.len() - j <= to.len() {
                assert(starts_with(to, q.skip(j)));
            } else {
                assert(starts_with(q.skip(j), to));
            }
        }
    } else {
        let r2 = spec_replace(s.skip(1), pat, to);
        assert(r == seq![s[0]] + r2);
        if !(q == pat) && contains_seq(s.skip(1), q) {
            lemma_contains_skip(s, q, 1);
        }
        lemma_replace_preserves_absence(s.skip(1), pat, to, q);
        assert(!contains_seq(r, q)) by {
            if contains_seq(r, q) {
                let i = choose|i: int| match_at(r, q, i);
                if i == 0 {
                    // an occurrence at the head would already have been
                    // at the head of s, where it would have matched
                    assert(q[0] == r[0]) by {
                        assert(r.subrange(0, q.len() as int)[0] == r[0]);
                    }
                    assert(starts_with(s, q)) by {
                        if q.len() == 1 {
                            assert(s.subrange(0, 1) =~= q);
                        } else {
                            assert(starts_with(r2, q.skip(1))) by {
                                lemma_concat_match_straddle(seq![s[0]], r2, q, 0);
                            }
                            assert(starts_with(s.skip(1), q.skip(1)));
                            assert forall|m: int| 0 <= m < q.len() implies s[m] == q[m] by {
                                if m == 0 {
                                    assert(r[0] == s[0]);
                                } else {
                                    assert(s.skip(1).subrange(0, q.skip(1).len() as int)[m - 1]
                                        == q.skip(1)[m - 1]);
                                    assert(s.skip(1).subrange(0, q.skip(1).len() as int)[m - 1]
                                        == s.skip(1)[m - 1]);
                                    assert(s.skip(1)[m - 1] == s[m]);
                                }
                            }
                            assert(s.subrange(0, q.len() as int) =~= q);
                        }
                    }
                    assert(match_at(s, q, 0));
                    if q == pat {
                        assert(s.subrange(0, pat.len() as int) == pat);
                    } else {
                        assert(contains_seq(s, q));
                    }
                } else {
                    lemma_concat_match_right(seq![s[0]], r2, q, i);
                    assert(contains_seq(r2, q));
                }
            }
        }
        assert forall|j: int|
            1 <= j < q.len() && starts_with(r, q.skip(j)) implies starts_with(s, q.skip(j)) by {
            let x = q.skip(j);
            assert(x[0] == r[0]) by {
                assert(r.subrange(0, x.len() as int)[0] == r[0]);
            }
            if j + 1 == q.len() {
                assert(s.subrange(0, 1) =~= seq![s[0]]);
                assert(x =~= seq![x[0]]);
            } else {
                lemma_concat_starts(seq![s[0]], r2, x);
                assert(starts_with(r2, x.skip(1)));
                assert(x.skip(1) =~= q.skip(j + 1));
                assert(starts_with(s.skip(1), q.skip(j + 1)));
                let y = q.skip(j + 1);
                assert forall|m: int| 0 <= m < x.len() implies s[m] == x[m] by {
                    if m == 0 {
                        assert(r[0] == s[0]);
                    } else {
                        assert(s.skip(1).subrange(0, y.len() as int)[m - 1] == y[m - 1]);
                        assert(s.skip(1).subrange(0, y.len() as int)[m - 1] == s.skip(1)[m - 1]);
                        assert(s.skip(1)[m - 1] == s[m]);
                        assert(y[m - 1] == x[m]);
                    }
                }
                assert(s.subrange(0, x.len() as int) =~= x);
            }
        }
    }
}

/// Every occurrence of `pat` in `s` replaced by `to`, executably.
pub fn replace_all(s: &str, pat: &str, to: &str) -> (r: String)
    requires
        pat@.len() >= 1,
    ensures
        r@ == spec_replace(s@, pat@, to@),
{
    let n = s.unicode_len();
    let p = pat.unicode_len();
    let mut out = String::new();
    let mut i: usize = 0;
    proof {
        assert(s@.skip(0) =~= s@);
        assert(Seq::<char>::empty() + spec_replace(s@, pat@, to@) =~= spec_replace(
            s@,
            pat@,
            to@,
        ));
    }
    while i < n
        invariant
            i <= n,
            n == s@.len(),
            p == pat@.len(),
            1 <= p,
            out@ + spec_replace(s@.skip(i as int), pat@, to@) == spec_replace(s@, pat@, to@),
        decreases n - i,
    {
        if p <= n - i && matches_at(s, pat, i) {
            proof {
                lemma_replace_unfold_match(s@, pat@, to@, i as int);
                assert((out@ + to@) + spec_replace(s@.skip(i + p), pat@, to@) =~= out@ + (to@
                    + spec_replace(s@.skip(i + p), pat@, to@)));
            }
            out.append(to);
            i = i + p;
        } else {
            assert(!match_at(s@, pat@, i as int));
            let c = s.substring_char(i, i + 1);
            proof {
                lemma_replace_unfold_miss(s@, pat@, to@, i as int);
                assert(c@ =~= seq![s@[i as int]]);
                assert((out@ + c@) + spec_replace(s@.skip(i + 1), pat@, to@) =~= out@ + (c@
                    + spec_replace(s@.skip(i + 1), pat@, to@)));
            }
            out.append(c);
            i = i + 1;
        }
    }
    proof {
        assert(s@.skip(n as int) =~= Seq::<char>::empty());
        assert(out@ + Seq::<char>::empty() =~= out@);
    }
    out
}

/// The two characters are equal up to ASCII case.
pub open spec fn chars_eq_ci(a: char, b: char) -> bool {
    ||| a == b
    ||| ('A' <= a && a <= 'Z' && a as u32 + 32 == b as u32)
    ||| ('A' <= b && b <= 'Z' && b as u32 + 32 == a as u32)
}

/// The two texts are equal up to ASCII case, character by character.
pub open spec fn seq_eq_ci(a: Seq<char>, b: Seq<char>) -> bool {
    a.len() == b.len() && forall|i: int| 0 <= i < a.len() ==> chars_eq_ci(a[i], b[i])
}

/// ASCII-case-insensitive equality of two string slices, decided
/// executably.  This is how HTTP header names are compared.
pub fn eq_ignore_case(a: &str, b: &str) -> (r: bool)
    ensures
        r == seq_eq_ci(a@, b@),
{
    let n = a.unicode_len();
    if n != b.unicode_len() {
        return false;
    }
    let mut i: usize = 0;
    while i < n
        invariant
            i <= n,
            n == a@.len(),
            n == b@.len(),
            forall|k: int| 0 <= k < i ==> chars_eq_ci(a@[k], b@[k]),
        decreases n - i,
    {
        let ca = a.get_char(i);
        let cb = b.get_char(i);
        let same = if ca == cb {
            true
        } else if 'A' <= ca && ca <= 'Z' {
            ca as u32 + 32 == cb as u32
        } else if 'A' <= cb && cb <= 'Z' {
            cb as u32 + 32 == ca as u32
        } else {
            false
        };
        if !same {
            return false;
        }
        i = i + 1;
    }
    true
}

/// Equality of two string slices, decided executably.
pub fn str_eq(a: &str, b: &str) -> (r: bool)
    ensures
        r == (a@ == b@),
{
    let n = a.unicode_len();
    if n != b.unicode_len() {
        return false;
    }
    let mut i: usize = 0;
    while i < n
        invariant
            i <= n,
            n == a@.len(),
            n == b@.len(),
            forall|k: int| 0 <= k < i ==> a@[k] == b@[k],
        decreases n - i,
    {
        if a.get_char(i) != b.get_char(i) {
            return false;
        }
        i = i + 1;
    }
    assert(a@ =~= b@);
    true
}

} // verus!
