//! Remote path segments: how one is normalised and how two are joined.
//!
//! Both operations are total. A malformed input degrades to a literal,
//! possibly empty, text; nothing is rejected.

use vstd::prelude::*;
use crate::text::{
    chars_of, leading_run, push_char, push_range, string_of, strip_end, strip_start, trailing_cut,
    trim, CharClass,
};

verus! {

/// `s` with every backslash turned into a forward slash.
pub open spec fn forward_slashes(s: Seq<char>) -> Seq<char> {
    Seq::new(s.len(), |i: int| if s[i] == '\\' { '/' } else { s[i] })
}

/// The normal form of a remote path segment: trimmed, with forward slashes
/// only, and relative to the remote home directory, so that a bare `~` is the
/// empty path and a leading `~/` is dropped.
pub open spec fn normalize(s: Seq<char>) -> Seq<char> {
    let t = forward_slashes(trim(s));
    if t.len() == 1 && t[0] == '~' {
        Seq::empty()
    } else if t.len() >= 2 && t[0] == '~' && t[1] == '/' {
        t.skip(2)
    } else {
        t
    }
}

/// `a` without the separators at its end.
pub open spec fn without_trailing_separators(a: Seq<char>) -> Seq<char> {
    strip_end(a, CharClass::Exactly('/'))
}

/// `b` without the separators at its start.
pub open spec fn without_leading_separators(b: Seq<char>) -> Seq<char> {
    strip_start(b, CharClass::Exactly('/'))
}

/// Two segments joined: where one normalises to nothing the other's normal
/// form; else both normal forms with exactly one separator between them.
pub open spec fn join(a: Seq<char>, b: Seq<char>) -> Seq<char> {
    let na = normalize(a);
    let nb = normalize(b);
    if na.len() == 0 {
        nb
    } else if nb.len() == 0 {
        na
    } else {
        without_trailing_separators(na) + seq!['/'] + without_leading_separators(nb)
    }
}

/// Whether two separators stand side by side somewhere in `s`.
pub open spec fn has_doubled_separator(s: Seq<char>) -> bool {
    exists|i: int| 0 <= i && i + 1 < s.len() && #[trigger] s[i] == '/' && s[i + 1] == '/'
}

/// Whether an operand of `join(a, b)` brings a doubled separator with it, at
/// a place that joining does not touch.
pub open spec fn carries_doubled_separator(a: Seq<char>, b: Seq<char>) -> bool {
    let na = normalize(a);
    let nb = normalize(b);
    if na.len() == 0 {
        has_doubled_separator(nb)
    } else if nb.len() == 0 {
        has_doubled_separator(na)
    } else {
        has_doubled_separator(without_trailing_separators(na)) || has_doubled_separator(
            without_leading_separators(nb),
        )
    }
}

/// The normal form of `input`, as characters.
pub fn normalize_chars(input: &str) -> (r: Vec<char>)
    ensures
        r@ == normalize(input@),
{
    let v = chars_of(input);
    let lo = leading_run(&v, 0, v.len(), CharClass::Whitespace);
    let hi = trailing_cut(&v, lo, v.len(), CharClass::Whitespace);
    proof {
        assert(v@.subrange(0, v@.len() as int) =~= v@);
    }
    let ghost t = forward_slashes(trim(input@));
    let mut w: Vec<char> = Vec::new();
    let mut i: usize = lo;
    while i < hi
        invariant
            lo <= i <= hi <= v.len(),
            w@.len() == i - lo,
            forall|j: int| 0 <= j < w@.len() ==> #[trigger] w@[j] == (if v@[lo + j] == '\\' {
                '/'
            } else {
                v@[lo + j]
            }),
        decreases hi - i,
    {
        let c = v[i];
        if c == '\\' {
            w.push('/');
        } else {
            w.push(c);
        }
        i += 1;
    }
    assert(w@ =~= t);
    if w.len() == 1 && w[0] == '~' {
        Vec::new()
    } else if w.len() >= 2 && w[0] == '~' && w[1] == '/' {
        let mut r: Vec<char> = Vec::new();
        let mut k: usize = 2;
        while k < w.len()
            invariant
                2 <= k <= w.len(),
                r@ == w@.subrange(2, k as int),
            decreases w.len() - k,
        {
            r.push(w[k]);
            k += 1;
        }
        assert(r@ =~= w@.skip(2));
        r
    } else {
        w
    }
}

/// Normalises a remote path segment.
pub fn normalize_remote_path(input: &str) -> (r: String)
    ensures
        r@ == normalize(input@),
{
    let v = normalize_chars(input);
    string_of(&v)
}

/// Joins two remote path segments.
pub fn join_remote(a: &str, b: &str) -> (r: String)
    ensures
        r@ == join(a@, b@),
{
    let na = normalize_chars(a);
    let nb = normalize_chars(b);
    if na.len() == 0 {
        return string_of(&nb);
    }
    if nb.len() == 0 {
        return string_of(&na);
    }
    let end = trailing_cut(&na, 0, na.len(), CharClass::Exactly('/'));
    let start = leading_run(&nb, 0, nb.len(), CharClass::Exactly('/'));
    let mut out = String::new();
    push_range(&mut out, &na, 0, end);
    push_char(&mut out, '/');
    push_range(&mut out, &nb, start, nb.len());
    proof {
        assert(na@.subrange(0, na@.len() as int) =~= na@);
        assert(nb@.subrange(0, nb@.len() as int) =~= nb@);
        assert(out@ =~= without_trailing_separators(na@) + seq!['/'] + without_leading_separators(
            nb@,
        ));
    }
    out
}

/// Joining with an empty second segment only normalises the first.
pub proof fn lemma_join_empty_right(a: Seq<char>)
    ensures
        join(a, Seq::empty()) == normalize(a),
{
    lemma_normalize_empty();
    assert(normalize(a).len() == 0 ==> normalize(a) =~= Seq::<char>::empty());
}

/// Joining with an empty first segment only normalises the second.
pub proof fn lemma_join_empty_left(b: Seq<char>)
    ensures
        join(Seq::empty(), b) == normalize(b),
{
    lemma_normalize_empty();
}

/// The empty segment normalises to itself.
proof fn lemma_normalize_empty()
    ensures
        normalize(Seq::empty()) == Seq::<char>::empty(),
{
    let e = Seq::<char>::empty();
    assert(trim(e) =~= e);
    assert(forward_slashes(e) =~= e);
}

/// What is left after stripping separators at the end does not end in one.
pub proof fn lemma_stripped_end(s: Seq<char>)
    ensures
        without_trailing_separators(s).len() <= s.len(),
        without_trailing_separators(s) == s.take(without_trailing_separators(s).len() as int),
        without_trailing_separators(s).len() > 0 ==> without_trailing_separators(s).last() != '/',
    decreases s.len(),
{
    if s.len() > 0 && s.last() == '/' {
        let t = s.drop_last();
        lemma_stripped_end(t);
        let k = without_trailing_separators(t).len() as int;
        assert(t.take(k) =~= s.take(k));
    } else {
        assert(s.take(s.len() as int) =~= s);
    }
}

/// What is left after stripping separators at the start does not begin with one.
pub proof fn lemma_stripped_start(s: Seq<char>)
    ensures
        without_leading_separators(s).len() <= s.len(),
        without_leading_separators(s) == s.skip(s.len() - without_leading_separators(s).len()),
        without_leading_separators(s).len() > 0 ==> without_leading_separators(s)[0] != '/',
    decreases s.len(),
{
    if s.len() > 0 && s[0] == '/' {
        let t = s.drop_first();
        lemma_stripped_start(t);
        let k = t.len() - without_leading_separators(t).len();
        assert(t.skip(k) =~= s.skip(k + 1));
    } else {
        assert(s.skip(0) =~= s);
    }
}

/// Joining never puts two separators side by side: the result holds a doubled
/// separator exactly where an operand carried one in.
pub proof fn lemma_join_doubled_separator(a: Seq<char>, b: Seq<char>)
    ensures
        has_doubled_separator(join(a, b)) <==> carries_doubled_separator(a, b),
{
    let na = normalize(a);
    let nb = normalize(b);
    if na.len() > 0 && nb.len() > 0 {
        let x = without_trailing_separators(na);
        let y = without_leading_separators(nb);
        let j = x + seq!['/'] + y;
        lemma_stripped_end(na);
        lemma_stripped_start(nb);
        assert(j == join(a, b));
        if has_doubled_separator(x) {
            let i = choose|i: int| 0 <= i && i + 1 < x.len() && #[trigger] x[i] == '/' && x[i + 1] == '/';
            assert(j[i] == '/' && j[i + 1] == '/');
        }
        if has_doubled_separator(y) {
            let i = choose|i: int| 0 <= i && i + 1 < y.len() && #[trigger] y[i] == '/' && y[i + 1] == '/';
            let m = x.len() + 1 + i;
            assert(j[m] == y[i] && j[m + 1] == y[i + 1]);
            assert(j[m] == '/' && j[m + 1] == '/');
        }
        if has_doubled_separator(j) {
            let i = choose|i: int| 0 <= i && i + 1 < j.len() && #[trigger] j[i] == '/' && j[i + 1] == '/';
            if i + 1 < x.len() {
                assert(x[i] == j[i] && x[i + 1] == j[i + 1]);
                assert(x[i] == '/' && x[i + 1] == '/');
            } else if i + 1 == x.len() {
                assert(j[i] == x.last());
            } else if i == x.len() {
                assert(j[i + 1] == y[0]);
            } else {
                let m = i - x.len() - 1;
                assert(y[m] == j[i] && y[m + 1] == j[i + 1]);
                assert(y[m] == '/' && y[m + 1] == '/');
            }
        }
    }
}

/// Where neither operand carries a doubled separator in, the joined path
/// holds none.
pub proof fn lemma_join_has_no_doubled_separator(a: Seq<char>, b: Seq<char>)
    requires
        !carries_doubled_separator(a, b),
    ensures
        !has_doubled_separator(join(a, b)),
{
    lemma_join_doubled_separator(a, b);
}

} // verus!
