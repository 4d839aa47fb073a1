//! Character-level helpers shared by the rest of the crate.
//!
//! Every text in the crate is modelled by its sequence of characters. The
//! executable functions here turn a `&str` into a `Vec<char>`, work on that,
//! and build a `String` again at the end.

use vstd::prelude::*;

verus! {

/// The code points that carry the Unicode `White_Space` property.
pub open spec fn is_whitespace(c: char) -> bool {
    let n = c as u32;
    ||| 0x09 <= n <= 0x0D
    ||| n == 0x20
    ||| n == 0x85
    ||| n == 0xA0
    ||| n == 0x1680
    ||| 0x2000 <= n <= 0x200A
    ||| n == 0x2028
    ||| n == 0x2029
    ||| n == 0x202F
    ||| n == 0x205F
    ||| n == 0x3000
}

/// Tells whether `c` is a whitespace character.
pub fn char_is_whitespace(c: char) -> (r: bool)
    ensures
        r == is_whitespace(c),
{
    let n: u32 = c as u32;
    (0x09 <= n && n <= 0x0D) || n == 0x20 || n == 0x85 || n == 0xA0 || n == 0x1680 || (0x2000 <= n
        && n <= 0x200A) || n == 0x2028 || n == 0x2029 || n == 0x202F || n == 0x205F || n == 0x3000
}

/// A set of characters that can be stripped from the ends of a text.
#[derive(Clone, Copy)]
pub enum CharClass {
    /// Every whitespace character.
    Whitespace,
    /// One given character.
    Exactly(char),
}

impl CharClass {
    /// Whether `c` belongs to the class.
    pub open spec fn holds(self, c: char) -> bool {
        match self {
            CharClass::Whitespace => is_whitespace(c),
            CharClass::Exactly(d) => c == d,
        }
    }

    /// Whether `c` belongs to the class.
    pub fn test(&self, c: char) -> (r: bool)
        ensures
            r == self.holds(c),
    {
        match self {
            CharClass::Whitespace => char_is_whitespace(c),
            CharClass::Exactly(d) => c == *d,
        }
    }
}

/// `s` without its longest prefix of characters in `class`.
pub open spec fn strip_start(s: Seq<char>, class: CharClass) -> Seq<char>
    decreases s.len(),
{
    if s.len() > 0 && class.holds(s[0]) {
        strip_start(s.drop_first(), class)
    } else {
        s
    }
}

/// `s` without its longest suffix of characters in `class`.
pub open spec fn strip_end(s: Seq<char>, class: CharClass) -> Seq<char>
    decreases s.len(),
{
    if s.len() > 0 && class.holds(s.last()) {
        strip_end(s.drop_last(), class)
    } else {
        s
    }
}

/// `s` without leading and trailing whitespace.
pub open spec fn trim(s: Seq<char>) -> Seq<char> {
    strip_end(strip_start(s, CharClass::Whitespace), CharClass::Whitespace)
}

/// `s` without trailing whitespace.
pub open spec fn trim_end(s: Seq<char>) -> Seq<char> {
    strip_end(s, CharClass::Whitespace)
}

/// A text is blank when nothing but whitespace is in it.
pub open spec fn is_blank(s: Seq<char>) -> bool {
    forall|i: int| 0 <= i < s.len() ==> is_whitespace(#[trigger] s[i])
}

/// Stripping at the start cuts exactly at the first character outside the class.
pub proof fn lemma_strip_start_cut(s: Seq<char>, class: CharClass, k: int)
    requires
        0 <= k <= s.len(),
        forall|i: int| 0 <= i < k ==> class.holds(#[trigger] s[i]),
        k < s.len() ==> !class.holds(s[k]),
    ensures
        strip_start(s, class) == s.skip(k),
    decreases k,
{
    if k == 0 {
        assert(s.skip(0) =~= s);
    } else {
        let t = s.drop_first();
        assert forall|i: int| 0 <= i < k - 1 implies class.holds(#[trigger] t[i]) by {
            assert(t[i] == s[i + 1]);
        }
        lemma_strip_start_cut(t, class, k - 1);
        assert(t.skip(k - 1) =~= s.skip(k));
    }
}

/// Stripping at the end cuts exactly behind the last character outside the class.
pub proof fn lemma_strip_end_cut(s: Seq<char>, class: CharClass, k: int)
    requires
        0 <= k <= s.len(),
        forall|i: int| k <= i < s.len() ==> class.holds(#[trigger] s[i]),
        k > 0 ==> !class.holds(s[k - 1]),
    ensures
        strip_end(s, class) == s.take(k),
    decreases s.len() - k,
{
    if k == s.len() {
        assert(s.take(k) =~= s);
    } else {
        let t = s.drop_last();
        assert forall|i: int| k <= i < t.len() implies class.holds(#[trigger] t[i]) by {
            assert(t[i] == s[i]);
        }
        lemma_strip_end_cut(t, class, k);
        assert(t.take(k) =~= s.take(k));
    }
}

/// A text is blank exactly when trimming leaves nothing of it.
pub proof fn lemma_blank_iff_trim_empty(s: Seq<char>)
    ensures
        is_blank(s) <==> trim(s).len() == 0,
    decreases s.len(),
{
    let ws = CharClass::Whitespace;
    if s.len() > 0 && is_whitespace(s[0]) {
        let t = s.drop_first();
        lemma_blank_iff_trim_empty(t);
        if is_blank(s) {
            assert forall|i: int| 0 <= i < t.len() implies is_whitespace(#[trigger] t[i]) by {
                assert(t[i] == s[i + 1]);
            }
        }
        if is_blank(t) {
            assert forall|i: int| 0 <= i < s.len() implies is_whitespace(#[trigger] s[i]) by {
                if i > 0 {
                    assert(s[i] == t[i - 1]);
                }
            }
        }
    } else if s.len() > 0 {
        lemma_strip_end_keeps_head(s, ws);
    }
}

/// Stripping at the end never removes a first character outside the class.
proof fn lemma_strip_end_keeps_head(s: Seq<char>, class: CharClass)
    requires
        s.len() > 0,
        !class.holds(s[0]),
    ensures
        strip_end(s, class).len() > 0,
        strip_end(s, class)[0] == s[0],
    decreases s.len(),
{
    if class.holds(s.last()) {
        let t = s.drop_last();
        assert(s.len() > 1);
        assert(t[0] == s[0]);
        lemma_strip_end_keeps_head(t, class);
    }
}

/// The number of leading characters of `v[lo..hi]` that are in `class`.
pub fn leading_run(v: &Vec<char>, lo: usize, hi: usize, class: CharClass) -> (k: usize)
    requires
        lo <= hi <= v.len(),
    ensures
        lo <= k <= hi,
        strip_start(v@.subrange(lo as int, hi as int), class) == v@.subrange(k as int, hi as int),
        k < hi ==> !class.holds(v@[k as int]),
        forall|i: int| lo <= i < k ==> class.holds(#[trigger] v@[i]),
{
    let mut k: usize = lo;
    while k < hi && class.test(v[k])
        invariant
            lo <= k <= hi <= v.len(),
            forall|i: int| lo <= i < k ==> class.holds(#[trigger] v@[i]),
        decreases hi - k,
    {
        k += 1;
    }
    proof {
        let s = v@.subrange(lo as int, hi as int);
        assert forall|i: int| 0 <= i < k - lo implies class.holds(#[trigger] s[i]) by {
            assert(s[i] == v@[lo + i]);
        }
        lemma_strip_start_cut(s, class, k - lo);
        assert(s.skip(k - lo) =~= v@.subrange(k as int, hi as int));
    }
    k
}

/// The end of `v[lo..hi]` once its trailing characters in `class` are gone.
pub fn trailing_cut(v: &Vec<char>, lo: usize, hi: usize, class: CharClass) -> (k: usize)
    requires
        lo <= hi <= v.len(),
    ensures
        lo <= k <= hi,
        strip_end(v@.subrange(lo as int, hi as int), class) == v@.subrange(lo as int, k as int),
        k > lo ==> !class.holds(v@[k - 1]),
        forall|i: int| k <= i < hi ==> class.holds(#[trigger] v@[i]),
{
    let mut k: usize = hi;
    while k > lo && class.test(v[k - 1])
        invariant
            lo <= k <= hi <= v.len(),
            forall|i: int| k <= i < hi ==> class.holds(#[trigger] v@[i]),
        decreases k - lo,
    {
        k -= 1;
    }
    proof {
        let s = v@.subrange(lo as int, hi as int);
        assert forall|i: int| k - lo <= i < s.len() implies class.holds(#[trigger] s[i]) by {
            assert(s[i] == v@[lo + i]);
        }
        lemma_strip_end_cut(s, class, k - lo);
        assert(s.take(k - lo) =~= v@.subrange(lo as int, k as int));
    }
    k
}

/// The characters of `s`, in order.
pub fn chars_of(s: &str) -> (v: Vec<char>)
    ensures
        v@ == s@,
{
    let mut v: Vec<char> = Vec::new();
    for c in it: s.chars()
        invariant
            v@ == it.seq().take(it.index() as int),
            it.seq() == s@,
    {
        v.push(c);
    }
    v
}

/// Appends one character to a string.
///
/// This is `String::push` of the standard library, for which vstd has no
/// specification: the claim taken on trust is that the string afterwards
/// holds the characters it held before, followed by `c`.
#[verifier::external_body]
pub(crate) fn push_char(s: &mut String, c: char)
    ensures
        final(s)@ == old(s)@.push(c),
{
    s.push(c);
}

/// Appends the characters `v[lo..hi]` to `out`.
pub fn push_range(out: &mut String, v: &Vec<char>, lo: usize, hi: usize)
    requires
        lo <= hi <= v.len(),
    ensures
        final(out)@ == old(out)@ + v@.subrange(lo as int, hi as int),
{
    let mut i: usize = lo;
    while i < hi
        invariant
            lo <= i <= hi <= v.len(),
            out@ == old(out)@ + v@.subrange(lo as int, i as int),
        decreases hi - i,
    {
        push_char(out, v[i]);
        proof {
            assert(v@.subrange(lo as int, i as int).push(v@[i as int]) =~= v@.subrange(
                lo as int,
                i + 1,
            ));
        }
        i += 1;
    }
}

/// The string that holds the characters `v[lo..hi]`.
pub fn string_of_range(v: &Vec<char>, lo: usize, hi: usize) -> (s: String)
    requires
        lo <= hi <= v.len(),
    ensures
        s@ == v@.subrange(lo as int, hi as int),
{
    let mut s = String::new();
    push_range(&mut s, v, lo, hi);
    s
}

/// The string that holds the characters of `v`.
pub fn string_of(v: &Vec<char>) -> (s: String)
    ensures
        s@ == v@,
{
    proof {
        assert(v@.subrange(0, v@.len() as int) =~= v@);
    }
    string_of_range(v, 0, v.len())
}

/// `s` without leading and trailing whitespace.
pub fn trimmed(s: &str) -> (r: String)
    ensures
        r@ == trim(s@),
{
    let v = chars_of(s);
    let lo = leading_run(&v, 0, v.len(), CharClass::Whitespace);
    let hi = trailing_cut(&v, lo, v.len(), CharClass::Whitespace);
    proof {
        assert(v@.subrange(0, v@.len() as int) =~= v@);
    }
    string_of_range(&v, lo, hi)
}

/// `s` without trailing whitespace.
pub fn trimmed_end(s: &str) -> (r: String)
    ensures
        r@ == trim_end(s@),
{
    let v = chars_of(s);
    let hi = trailing_cut(&v, 0, v.len(), CharClass::Whitespace);
    proof {
        assert(v@.subrange(0, v@.len() as int) =~= v@);
    }
    string_of_range(&v, 0, hi)
}

/// Whether `s` holds nothing but whitespace.
pub fn blank(s: &str) -> (r: bool)
    ensures
        r == is_blank(s@),
{
    let v = chars_of(s);
    let lo = leading_run(&v, 0, v.len(), CharClass::Whitespace);
    proof {
        assert(v@.subrange(0, v@.len() as int) =~= v@);
        if lo < v.len() {
            assert(!is_whitespace(v@[lo as int]));
        }
    }
    lo == v.len()
}

/// The texts that a sequence of strings holds.
pub open spec fn texts(v: Seq<String>) -> Seq<Seq<char>> {
    Seq::new(v.len(), |i: int| v[i]@)
}

/// The text that an optional string holds, if any.
pub open spec fn opt_text(o: Option<String>) -> Option<Seq<char>> {
    match o {
        Some(s) => Some(s@),
        None => None,
    }
}

/// What a result of texts holds.
pub open spec fn text_result(r: Result<String, String>) -> Result<Seq<char>, Seq<char>> {
    match r {
        Ok(s) => Ok(s@),
        Err(e) => Err(e@),
    }
}

/// Whether two strings hold the same text.
pub fn same_text(a: &str, b: &str) -> (r: bool)
    ensures
        r == (a@ == b@),
{
    let x = chars_of(a);
    let y = chars_of(b);
    if x.len() != y.len() {
        return false;
    }
    let mut i: usize = 0;
    while i < x.len()
        invariant
            i <= x.len(),
            x.len() == y.len(),
            x@ == a@,
            y@ == b@,
            forall|j: int| 0 <= j < i ==> x@[j] == y@[j],
        decreases x.len() - i,
    {
        if x[i] != y[i] {
            return false;
        }
        i += 1;
    }
    assert(x@ =~= y@);
    true
}

/// A copy of each string of `v`, in order.
pub fn clone_texts(v: &Vec<String>) -> (r: Vec<String>)
    ensures
        texts(r@) == texts(v@),
{
    let mut r: Vec<String> = Vec::new();
    let mut i: usize = 0;
    while i < v.len()
        invariant
            i <= v.len(),
            r@.len() == i,
            forall|j: int| 0 <= j < i ==> r@[j]@ == v@[j]@,
        decreases v.len() - i,
    {
        r.push(v[i].clone());
        i += 1;
    }
    assert(texts(r@) =~= texts(v@));
    r
}

/// A copy of an optional string.
pub fn clone_opt_text(o: &Option<String>) -> (r: Option<String>)
    ensures
        opt_text(r) == opt_text(*o),
{
    match o {
        Some(s) => Some(s.clone()),
        None => None,
    }
}

/// The two texts one after the other.
pub fn concat2(a: &str, b: &str) -> (r: String)
    ensures
        r@ == a@ + b@,
{
    let mut r = a.to_owned();
    r.append(b);
    r
}

/// The three texts one after the other.
pub fn concat3(a: &str, b: &str, c: &str) -> (r: String)
    ensures
        r@ == a@ + b@ + c@,
{
    let mut r = a.to_owned();
    r.append(b);
    r.append(c);
    r
}

/// The character that stands for a digit.
pub open spec fn digit(d: int) -> char {
    if d == 0 {
        '0'
    } else if d == 1 {
        '1'
    } else if d == 2 {
        '2'
    } else if d == 3 {
        '3'
    } else if d == 4 {
        '4'
    } else if d == 5 {
        '5'
    } else if d == 6 {
        '6'
    } else if d == 7 {
        '7'
    } else if d == 8 {
        '8'
    } else {
        '9'
    }
}

/// A natural number written in decimal, without leading zeros.
pub open spec fn decimal(n: nat) -> Seq<char>
    decreases n,
{
    if n < 10 {
        seq![digit(n as int)]
    } else {
        decimal(n / 10).push(digit((n % 10) as int))
    }
}

/// An integer written in decimal, with a minus sign where it is negative.
pub open spec fn signed_decimal(n: int) -> Seq<char> {
    if n < 0 {
        seq!['-'] + decimal((-n) as nat)
    } else {
        decimal(n as nat)
    }
}

/// The character that stands for the digit `d`.
pub fn digit_char(d: u64) -> (c: char)
    requires
        d < 10,
    ensures
        c == digit(d as int),
{
    if d == 0 {
        '0'
    } else if d == 1 {
        '1'
    } else if d == 2 {
        '2'
    } else if d == 3 {
        '3'
    } else if d == 4 {
        '4'
    } else if d == 5 {
        '5'
    } else if d == 6 {
        '6'
    } else if d == 7 {
        '7'
    } else if d == 8 {
        '8'
    } else {
        '9'
    }
}

/// Appends `n`, written in decimal, to `out`.
pub fn push_decimal(out: &mut String, n: u64)
    ensures
        final(out)@ == old(out)@ + decimal(n as nat),
    decreases n,
{
    if n >= 10 {
        push_decimal(out, n / 10);
    }
    push_char(out, digit_char(n % 10));
    proof {
        if n >= 10 {
            assert(final(out)@ =~= old(out)@ + decimal(n as nat));
        } else {
            assert(final(out)@ =~= old(out)@ + decimal(n as nat));
        }
    }
}

/// `n` written in decimal.
pub fn decimal_text(n: u64) -> (r: String)
    ensures
        r@ == decimal(n as nat),
{
    let mut r = String::new();
    push_decimal(&mut r, n);
    assert(r@ =~= decimal(n as nat));
    r
}

/// Appends `n`, written in decimal with its sign, to `out`.
pub fn push_signed_decimal(out: &mut String, n: i32)
    ensures
        final(out)@ == old(out)@ + signed_decimal(n as int),
{
    if n < 0 {
        push_char(out, '-');
        let m: u64 = (-(n as i64)) as u64;
        push_decimal(out, m);
        assert(final(out)@ =~= old(out)@ + signed_decimal(n as int));
    } else {
        push_decimal(out, n as u64);
    }
}

/// The texts of `parts` with `sep` between each two neighbours.
pub open spec fn joined(parts: Seq<Seq<char>>, sep: Seq<char>) -> Seq<char>
    decreases parts.len(),
{
    if parts.len() == 0 {
        Seq::empty()
    } else if parts.len() == 1 {
        parts[0]
    } else {
        joined(parts.drop_last(), sep) + sep + parts.last()
    }
}

/// Joins the strings of `parts`, with `sep` between each two neighbours.
pub fn join_with(parts: &Vec<String>, sep: &str) -> (r: String)
    ensures
        r@ == joined(texts(parts@), sep@),
{
    let mut r = String::new();
    let mut i: usize = 0;
    let ghost all = texts(parts@);
    while i < parts.len()
        invariant
            i <= parts.len(),
            all == texts(parts@),
            r@ == joined(all.take(i as int), sep@),
        decreases parts.len() - i,
    {
        if i > 0 {
            r.append(sep);
        }
        r.append(parts[i].as_str());
        proof {
            let before = all.take(i as int);
            let after = all.take(i + 1);
            assert(after.drop_last() =~= before);
            assert(after.last() == parts@[i as int]@);
            if i == 0 {
                assert(r@ =~= after[0]);
            }
        }
        i += 1;
    }
    assert(all.take(parts.len() as int) =~= all);
    r
}

/// The place of the first `c` in `s`, or the length of `s` where there is none.
pub open spec fn first_index(s: Seq<char>, c: char) -> int
    decreases s.len(),
{
    if s.len() == 0 || s[0] == c {
        0
    } else {
        1 + first_index(s.drop_first(), c)
    }
}

/// What cutting `s` at every `sep` leaves: the piece before the first `sep`,
/// then the pieces of what follows it. There is always at least one piece.
pub open spec fn split(s: Seq<char>, sep: char) -> Seq<Seq<char>>
    decreases s.len(),
{
    let k = first_index(s, sep);
    if 0 <= k < s.len() {
        seq![s.take(k)] + split(s.skip(k + 1), sep)
    } else {
        seq![s]
    }
}

/// The first place of `c` is `k` where `c` stands at `k` and not before, or
/// where `k` is the length and `c` stands nowhere.
pub proof fn lemma_first_index(s: Seq<char>, c: char, k: int)
    requires
        0 <= k <= s.len(),
        forall|i: int| 0 <= i < k ==> s[i] != c,
        k < s.len() ==> s[k] == c,
    ensures
        first_index(s, c) == k,
    decreases k,
{
    if k > 0 {
        let t = s.drop_first();
        assert forall|i: int| 0 <= i < k - 1 implies t[i] != c by {
            assert(t[i] == s[i + 1]);
        }
        lemma_first_index(t, c, k - 1);
    }
}

/// The place of the first `c` in `s` lies within `s`, or is its length; no
/// `c` stands before it, and `c` stands at it if it lies within.
pub proof fn lemma_first_index_is_first(s: Seq<char>, c: char)
    ensures
        0 <= first_index(s, c) <= s.len(),
        forall|i: int| 0 <= i < first_index(s, c) ==> s[i] != c,
        first_index(s, c) < s.len() ==> s[first_index(s, c)] == c,
    decreases s.len(),
{
    if s.len() > 0 && s[0] != c {
        let t = s.drop_first();
        lemma_first_index_is_first(t, c);
        assert forall|i: int| 0 <= i < first_index(s, c) implies s[i] != c by {
            if i > 0 {
                assert(s[i] == t[i - 1]);
            }
        }
    }
}

/// Cutting two texts with a separator between them leaves the pieces of the
/// first, then the pieces of the second.
pub proof fn lemma_split_concat(a: Seq<char>, b: Seq<char>, sep: char)
    ensures
        split(a + seq![sep] + b, sep) == split(a, sep) + split(b, sep),
    decreases a.len(),
{
    let whole = a + seq![sep] + b;
    let k = first_index(a, sep);
    lemma_first_index_is_first(a, sep);
    assert forall|i: int| 0 <= i < k implies whole[i] != sep by {
        assert(whole[i] == a[i]);
    }
    if k < a.len() {
        assert(whole[k] == a[k]);
    } else {
        assert(whole[k] == sep);
    }
    lemma_first_index(whole, sep, k);
    assert(whole.take(k) =~= a.take(k));
    if k < a.len() {
        let rest = a.skip(k + 1);
        assert(whole.skip(k + 1) =~= rest + seq![sep] + b);
        lemma_split_concat(rest, b, sep);
        assert(split(whole, sep) =~= seq![a.take(k)] + (split(rest, sep) + split(b, sep)));
        assert(split(a, sep) =~= seq![a.take(k)] + split(rest, sep));
        assert(split(whole, sep) =~= split(a, sep) + split(b, sep));
    } else {
        assert(whole.skip(k + 1) =~= b);
        assert(a.take(k) =~= a);
        assert(split(a, sep) =~= seq![a]);
    }
}

/// A text without the separator is one piece.
pub proof fn lemma_split_one_piece(s: Seq<char>, sep: char)
    requires
        forall|i: int| 0 <= i < s.len() ==> s[i] != sep,
    ensures
        split(s, sep) == seq![s],
{
    lemma_first_index(s, sep, s.len() as int);
}

/// Cuts `s` at every `sep`.
pub fn split_at_char(s: &str, sep: char) -> (r: Vec<String>)
    ensures
        texts(r@) == split(s@, sep),
{
    let v = chars_of(s);
    let mut r: Vec<String> = Vec::new();
    let mut start: usize = 0;
    let mut i: usize = 0;
    proof {
        assert(v@.skip(0) =~= v@);
        assert(texts(r@) + split(v@.skip(0), sep) =~= split(v@, sep));
    }
    while i < v.len()
        invariant
            start <= i <= v.len(),
            v@ == s@,
            forall|j: int| start <= j < i ==> v@[j] != sep,
            split(v@, sep) == texts(r@) + split(v@.skip(start as int), sep),
        decreases v.len() - i,
    {
        if v[i] == sep {
            let piece = string_of_range(&v, start, i);
            let ghost before = texts(r@);
            r.push(piece);
            proof {
                let rest = v@.skip(start as int);
                assert forall|j: int| 0 <= j < i - start implies rest[j] != sep by {
                    assert(rest[j] == v@[start + j]);
                }
                lemma_first_index(rest, sep, i - start);
                assert(rest.take(i - start) =~= v@.subrange(start as int, i as int));
                assert(rest.skip(i - start + 1) =~= v@.skip(i + 1));
                assert(texts(r@) =~= before + seq![v@.subrange(start as int, i as int)]);
                assert(texts(r@) + split(v@.skip(i + 1), sep) =~= before + split(rest, sep));
            }
            start = i + 1;
        }
        i += 1;
    }
    let piece = string_of_range(&v, start, v.len());
    let ghost before = texts(r@);
    r.push(piece);
    proof {
        let rest = v@.skip(start as int);
        assert forall|j: int| 0 <= j < rest.len() implies rest[j] != sep by {
            assert(rest[j] == v@[start + j]);
        }
        lemma_first_index(rest, sep, rest.len() as int);
        assert(rest =~= v@.subrange(start as int, v@.len() as int));
        assert(texts(r@) =~= before + seq![rest]);
    }
    r
}

/// The number of bytes that the UTF-8 encoding of `c` takes.
pub open spec fn utf8_width(c: char) -> nat {
    let n = c as u32;
    if n < 0x80 {
        1
    } else if n < 0x800 {
        2
    } else if n < 0x10000 {
        3
    } else {
        4
    }
}

/// The number of bytes that the UTF-8 encoding of `s` takes.
pub open spec fn utf8_size(s: Seq<char>) -> nat
    decreases s.len(),
{
    if s.len() == 0 {
        0
    } else {
        utf8_size(s.drop_last()) + utf8_width(s.last())
    }
}

/// The longest prefix of `s` whose UTF-8 encoding takes at most `limit` bytes.
pub open spec fn bounded_prefix(s: Seq<char>, limit: nat) -> Seq<char>
    decreases s.len(),
{
    if s.len() == 0 || utf8_width(s[0]) > limit {
        Seq::empty()
    } else {
        seq![s[0]] + bounded_prefix(s.drop_first(), (limit - utf8_width(s[0])) as nat)
    }
}

/// The size of a text grows by the width of a character put in front of it.
proof fn lemma_utf8_size_cons(c: char, s: Seq<char>)
    ensures
        utf8_size(seq![c] + s) == utf8_width(c) + utf8_size(s),
    decreases s.len(),
{
    let t = seq![c] + s;
    if s.len() == 0 {
        assert(t.drop_last() =~= Seq::<char>::empty());
        assert(t.last() == c);
        assert(utf8_size(t.drop_last()) == 0);
    } else {
        assert(t.drop_last() =~= seq![c] + s.drop_last());
        assert(t.last() == s.last());
        lemma_utf8_size_cons(c, s.drop_last());
    }
}

/// A bounded prefix is a prefix, fits the limit, and cannot take one more
/// character without exceeding it.
pub proof fn lemma_bounded_prefix(s: Seq<char>, limit: nat)
    ensures
        bounded_prefix(s, limit).len() <= s.len(),
        bounded_prefix(s, limit) == s.take(bounded_prefix(s, limit).len() as int),
        utf8_size(bounded_prefix(s, limit)) <= limit,
        bounded_prefix(s, limit).len() < s.len() ==> utf8_size(bounded_prefix(s, limit))
            + utf8_width(s[bounded_prefix(s, limit).len() as int]) > limit,
        utf8_size(s) <= limit ==> bounded_prefix(s, limit) == s,
    decreases s.len(),
{
    if s.len() == 0 || utf8_width(s[0]) > limit {
        assert(s.take(0) =~= Seq::<char>::empty());
        if s.len() > 0 {
            assert(s =~= seq![s[0]] + s.drop_first());
            lemma_utf8_size_cons(s[0], s.drop_first());
        } else {
            assert(bounded_prefix(s, limit) =~= s);
        }
    } else {
        let rest = s.drop_first();
        let left = (limit - utf8_width(s[0])) as nat;
        lemma_bounded_prefix(rest, left);
        let p = bounded_prefix(rest, left);
        lemma_utf8_size_cons(s[0], p);
        assert(seq![s[0]] + rest.take(p.len() as int) =~= s.take(p.len() as int + 1));
        assert(s =~= seq![s[0]] + rest);
        lemma_utf8_size_cons(s[0], rest);
        if p.len() < rest.len() {
            assert(rest[p.len() as int] == s[p.len() as int + 1]);
        }
    }
}

/// The number of bytes that the UTF-8 encoding of `c` takes.
pub fn char_width(c: char) -> (w: usize)
    ensures
        w == utf8_width(c),
{
    let n: u32 = c as u32;
    if n < 0x80 {
        1
    } else if n < 0x800 {
        2
    } else if n < 0x10000 {
        3
    } else {
        4
    }
}

/// The end of the longest prefix of `v[lo..hi]` that takes at most `limit`
/// bytes in UTF-8.
pub fn bounded_cut(v: &Vec<char>, lo: usize, hi: usize, limit: usize) -> (k: usize)
    requires
        lo <= hi <= v.len(),
    ensures
        lo <= k <= hi,
        v@.subrange(lo as int, k as int) == bounded_prefix(
            v@.subrange(lo as int, hi as int),
            limit as nat,
        ),
{
    let ghost s = v@.subrange(lo as int, hi as int);
    let mut k: usize = lo;
    let mut budget: usize = limit;
    proof {
        assert(s.take(0) + bounded_prefix(s.skip(0), budget as nat) =~= bounded_prefix(
            s,
            limit as nat,
        )) by {
            assert(s.skip(0) =~= s);
        }
    }
    while k < hi && char_width(v[k]) <= budget
        invariant
            lo <= k <= hi <= v.len(),
            s == v@.subrange(lo as int, hi as int),
            bounded_prefix(s, limit as nat) == s.take(k - lo) + bounded_prefix(
                s.skip(k - lo),
                budget as nat,
            ),
        decreases hi - k,
    {
        proof {
            let j = k - lo;
            let rest = s.skip(j);
            assert(rest[0] == v@[k as int]);
            assert(rest.drop_first() =~= s.skip(j + 1));
            assert(s.take(j) + (seq![rest[0]] + bounded_prefix(
                s.skip(j + 1),
                (budget - utf8_width(rest[0])) as nat,
            )) =~= s.take(j + 1) + bounded_prefix(
                s.skip(j + 1),
                (budget - utf8_width(rest[0])) as nat,
            ));
        }
        budget -= char_width(v[k]);
        k += 1;
    }
    proof {
        let j = k - lo;
        let rest = s.skip(j);
        if k < hi {
            assert(rest[0] == v@[k as int]);
        }
        assert(bounded_prefix(rest, budget as nat) =~= Seq::<char>::empty());
        assert(s.take(j) =~= v@.subrange(lo as int, k as int));
    }
    k
}


} // verus!
