//! Character-level text helpers shared by the rest of the library.
//!
//! Text is handled as `Seq<char>` in specifications and as `Vec<char>` while
//! it is being taken apart; `String` is used at the edges.
use vstd::prelude::*;

verus! {

/// The characters that Rust's `char::is_whitespace` accepts (Unicode White_Space).
pub open spec fn is_ws(c: char) -> bool {
    ('\u{9}' <= c && c <= '\u{d}') || c == ' ' || c == '\u{85}' || c == '\u{a0}' || c
        == '\u{1680}' || ('\u{2000}' <= c && c <= '\u{200a}') || c == '\u{2028}' || c
        == '\u{2029}' || c == '\u{202f}' || c == '\u{205f}' || c == '\u{3000}'
}

pub fn is_whitespace(c: char) -> (r: bool)
    ensures
        r == is_ws(c),
{
    ('\u{9}' <= c && c <= '\u{d}') || c == ' ' || c == '\u{85}' || c == '\u{a0}' || c
        == '\u{1680}' || ('\u{2000}' <= c && c <= '\u{200a}') || c == '\u{2028}' || c
        == '\u{2029}' || c == '\u{202f}' || c == '\u{205f}' || c == '\u{3000}'
}

/// `s` with leading whitespace removed.
pub open spec fn trim_start(s: Seq<char>) -> Seq<char>
    decreases s.len(),
{
    if s.len() > 0 && is_ws(s[0]) {
        trim_start(s.drop_first())
    } else {
        s
    }
}

/// `s` with trailing whitespace removed.
pub open spec fn trim_end(s: Seq<char>) -> Seq<char>
    decreases s.len(),
{
    if s.len() > 0 && is_ws(s.last()) {
        trim_end(s.drop_last())
    } else {
        s
    }
}

/// `s` with whitespace removed at both ends, as `str::trim` does.
pub open spec fn trim(s: Seq<char>) -> Seq<char> {
    trim_end(trim_start(s))
}

/// `s` contains `p` as a contiguous run.
pub open spec fn contains_seq(s: Seq<char>, p: Seq<char>) -> bool {
    exists|i: int| 0 <= i && i + p.len() <= s.len() && #[trigger] s.subrange(i, i + p.len()) == p
}

/// Index of the first `c` in `s`, if any.
pub open spec fn find_char(s: Seq<char>, c: char) -> Option<int>
    decreases s.len(),
{
    if s.len() == 0 {
        None
    } else if s[0] == c {
        Some(0)
    } else {
        match find_char(s.drop_first(), c) {
            Some(i) => Some(i + 1),
            None => None,
        }
    }
}

/// Drops one `'\r'` at the end of a line, as `str::lines` does before a `'\n'`.
pub open spec fn strip_cr(s: Seq<char>) -> Seq<char> {
    if s.len() > 0 && s.last() == '\r' {
        s.drop_last()
    } else {
        s
    }
}

/// The lines of `s`, as `str::lines` yields them.
pub open spec fn lines(s: Seq<char>) -> Seq<Seq<char>>
    decreases s.len(),
{
    if s.len() == 0 {
        seq![]
    } else {
        match find_char(s, '\n') {
            Some(k) => if 0 <= k < s.len() {
                seq![strip_cr(s.take(k))] + lines(s.skip(k + 1))
            } else {
                seq![s]
            },
            None => seq![s],
        }
    }
}

/// `s` cut to `max` characters, with `"..."` appended when something was cut.
pub open spec fn truncated(s: Seq<char>, max: nat) -> Seq<char> {
    if s.len() <= max {
        s
    } else {
        s.take(max as int) + "..."@
    }
}

/// Decimal digits of `n`, as `to_string` writes an unsigned integer.
pub open spec fn decimal(n: nat) -> Seq<char>
    decreases n,
{
    if n < 10 {
        seq![digit_char(n)]
    } else {
        decimal(n / 10).push(digit_char(n % 10))
    }
}

pub open spec fn digit_char(d: nat) -> char {
    if d == 0 {
        '0'
    } else if d == 1 {
        '1'
    } else if d == 2 {
        '2'
    } else if d == 3 {
        '3'
    } else if d == 4 {
        '4'
    } else if d == 5 {
        '5'
    } else if d == 6 {
        '6'
    } else if d == 7 {
        '7'
    } else if d == 8 {
        '8'
    } else {
        '9'
    }
}

/// Lower-case form of a text, as `str::to_lowercase` computes it.
pub uninterp spec fn lower_of(s: Seq<char>) -> Seq<char>;

/// Whether `char::is_alphanumeric` holds of a character.
pub uninterp spec fn alnum(c: char) -> bool;

/// Relies on `str::chars`: the characters of the text, in order.
#[verifier::external_body]
pub(crate) fn chars_of(s: &str) -> (r: Vec<char>)
    ensures
        r@ == s@,
{
    s.chars().collect()
}

/// Relies on `String: FromIterator<&char>`: the text made of these characters.
#[verifier::external_body]
pub(crate) fn string_of(v: &[char]) -> (r: String)
    ensures
        r@ == v@,
{
    v.iter().collect()
}

/// Relies on `usize::to_string`: decimal digits without sign or padding.
#[verifier::external_body]
pub(crate) fn decimal_string(n: usize) -> (r: String)
    ensures
        r@ == decimal(n as nat),
{
    n.to_string()
}

/// Relies on `str::to_lowercase`: the result depends on the characters alone.
#[verifier::external_body]
pub(crate) fn lowercase(s: &str) -> (r: String)
    ensures
        r@ == lower_of(s@),
{
    s.to_lowercase()
}

/// Relies on `char::is_alphanumeric`.
#[verifier::external_body]
pub(crate) fn is_alphanumeric(c: char) -> (r: bool)
    ensures
        r == alnum(c),
{
    c.is_alphanumeric()
}

/// Character count of a text.
pub fn char_count(s: &str) -> (r: usize)
    ensures
        r == s@.len(),
{
    s.unicode_len()
}

proof fn lemma_trim_start_at(s: Seq<char>, i: int)
    requires
        0 <= i <= s.len(),
        forall|j: int| 0 <= j < i ==> is_ws(#[trigger] s[j]),
        i == s.len() || !is_ws(s[i]),
    ensures
        trim_start(s) == s.skip(i),
    decreases i,
{
    if i == 0 {
        assert(s.skip(0) =~= s);
    } else {
        let t = s.drop_first();
        assert forall|j: int| 0 <= j < i - 1 implies is_ws(#[trigger] t[j]) by {
            assert(t[j] == s[j + 1]);
        }
        lemma_trim_start_at(t, i - 1);
        assert(t.skip(i - 1) =~= s.skip(i));
    }
}

pub proof fn lemma_trim_end_at(s: Seq<char>, e: int)
    requires
        0 <= e <= s.len(),
        forall|j: int| e <= j < s.len() ==> is_ws(#[trigger] s[j]),
        e == 0 || !is_ws(s[e - 1]),
    ensures
        trim_end(s) == s.take(e),
    decreases s.len() - e,
{
    if e == s.len() {
        assert(s.take(e) =~= s);
    } else {
        let t = s.drop_last();
        assert forall|j: int| e <= j < t.len() implies is_ws(#[trigger] t[j]) by {
            assert(t[j] == s[j]);
        }
        lemma_trim_end_at(t, e);
        assert(t.take(e) =~= s.take(e));
    }
}

/// The characters of `s` between `from` and `to`.
pub fn slice_chars(s: &Vec<char>, from: usize, to: usize) -> (r: Vec<char>)
    requires
        from <= to <= s@.len(),
    ensures
        r@ == s@.subrange(from as int, to as int),
{
    let mut r: Vec<char> = Vec::new();
    let mut i: usize = from;
    while i < to
        invariant
            from <= i <= to <= s@.len(),
            r@ == s@.subrange(from as int, i as int),
        decreases to - i,
    {
        r.push(s[i]);
        i = i + 1;
        assert(r@ =~= s@.subrange(from as int, i as int));
    }
    r
}

/// `s` with whitespace removed at both ends.
pub fn trim_chars(s: &Vec<char>) -> (r: Vec<char>)
    ensures
        r@ == trim(s@),
{
    let n = s.len();
    let mut i: usize = 0;
    while i < n && is_whitespace(s[i])
        invariant
            i <= n == s@.len(),
            forall|j: int| 0 <= j < i ==> is_ws(#[trigger] s@[j]),
        decreases n - i,
    {
        i = i + 1;
    }
    proof {
        lemma_trim_start_at(s@, i as int);
    }
    let t = slice_chars(s, i, n);
    let m = t.len();
    let mut e: usize = m;
    while e > 0 && is_whitespace(t[e - 1])
        invariant
            e <= m == t@.len(),
            forall|j: int| e <= j < m ==> is_ws(#[trigger] t@[j]),
        decreases e,
    {
        e = e - 1;
    }
    proof {
        lemma_trim_end_at(t@, e as int);
    }
    slice_chars(&t, 0, e)
}

/// Whether `s` begins with `p`.
pub fn starts_with_chars(s: &Vec<char>, p: &Vec<char>) -> (r: bool)
    ensures
        r == p@.is_prefix_of(s@),
{
    if p.len() > s.len() {
        return false;
    }
    let mut i: usize = 0;
    while i < p.len()
        invariant
            i <= p@.len() <= s@.len(),
            forall|j: int| 0 <= j < i ==> s@[j] == p@[j],
        decreases p@.len() - i,
    {
        if s[i] != p[i] {
            return false;
        }
        i = i + 1;
    }
    assert(s@.take(p@.len() as int) =~= p@);
    true
}

/// Whether `s` and `p` hold the same characters.
pub fn equal_chars(s: &Vec<char>, p: &Vec<char>) -> (r: bool)
    ensures
        r == (s@ == p@),
{
    if s.len() != p.len() {
        return false;
    }
    let b = starts_with_chars(s, p);
    proof {
        assert(s@.subrange(0, p@.len() as int) =~= s@);
        if b {
            assert(s@ =~= p@.take(p@.len() as int));
        }
    }
    b
}

/// Whether `s` contains `p` at position `at`.
fn matches_at(s: &Vec<char>, p: &Vec<char>, at: usize) -> (r: bool)
    requires
        at + p@.len() <= s@.len(),
    ensures
        r == (s@.subrange(at as int, at + p@.len()) == p@),
{
    let n = s.len();
    let mut i: usize = 0;
    while i < p.len()
        invariant
            i <= p@.len(),
            n == s@.len(),
            at + p@.len() <= s@.len(),
            forall|j: int| 0 <= j < i ==> s@[at + j] == p@[j],
        decreases p@.len() - i,
    {
        if s[at + i] != p[i] {
            assert(s@.subrange(at as int, at + p@.len())[i as int] != p@[i as int]);
            return false;
        }
        i = i + 1;
    }
    assert(s@.subrange(at as int, at + p@.len()) =~= p@);
    true
}

/// Whether `p` occurs in `s`.
pub fn contains_chars(s: &Vec<char>, p: &Vec<char>) -> (r: bool)
    ensures
        r == contains_seq(s@, p@),
{
    if p.len() > s.len() {
        return false;
    }
    let last = s.len() - p.len();
    let mut at: usize = 0;
    while at <= last
        invariant
            last + p@.len() == s@.len(),
            forall|i: int|
                0 <= i < at && i <= last ==> #[trigger] s@.subrange(i, i + p@.len()) != p@,
        decreases last + 1 - at,
    {
        if matches_at(s, p, at) {
            return true;
        }
        if at == last {
            return false;
        }
        at = at + 1;
    }
    false
}

/// Whether the text `s` contains the text `p`.
pub fn contains_str(s: &str, p: &str) -> (r: bool)
    ensures
        r == contains_seq(s@, p@),
{
    let sv = chars_of(s);
    let pv = chars_of(p);
    contains_chars(&sv, &pv)
}

/// Position of the first `c` in `s`, if any.
pub fn find_char_in(s: &Vec<char>, c: char) -> (r: Option<usize>)
    ensures
        match find_char(s@, c) {
            Some(k) => r == Some(k as usize),
            None => r.is_none(),
        },
{
    let mut i: usize = 0;
    assert(s@.skip(0) =~= s@);
    while i < s.len()
        invariant
            i <= s@.len(),
            find_char(s@, c) == (match find_char(s@.skip(i as int), c) {
                Some(k) => Some(k + i),
                None => None::<int>,
            }),
        decreases s@.len() - i,
    {
        let ghost t = s@.skip(i as int);
        assert(t.drop_first() =~= s@.skip(i + 1));
        if s[i] == c {
            return Some(i);
        }
        i = i + 1;
    }
    None
}

pub proof fn lemma_find_char_bounds(s: Seq<char>, c: char)
    ensures
        match find_char(s, c) {
            Some(k) => 0 <= k < s.len() && s[k] == c && forall|j: int|
                0 <= j < k ==> #[trigger] s[j] != c,
            None => forall|j: int| 0 <= j < s.len() ==> #[trigger] s[j] != c,
        },
    decreases s.len(),
{
    if s.len() > 0 {
        lemma_find_char_bounds(s.drop_first(), c);
        assert forall|j: int| 1 <= j < s.len() implies s[j] == s.drop_first()[j - 1] by {}
    }
}

/// The lines of `s`, as `str::lines` yields them.
pub fn split_lines(s: &Vec<char>) -> (r: Vec<Vec<char>>)
    ensures
        r@.len() == lines(s@).len(),
        forall|i: int| 0 <= i < r@.len() ==> #[trigger] r@[i]@ == lines(s@)[i],
{
    let mut out: Vec<Vec<char>> = Vec::new();
    let mut start: usize = 0;
    let n = s.len();
    assert(s@.skip(0) =~= s@);
    assert(Seq::new(out@.len(), |i: int| out@[i]@) + lines(s@) =~= lines(s@));
    while start < n
        invariant
            start <= n == s@.len(),
            lines(s@) == Seq::new(out@.len(), |i: int| out@[i]@) + lines(s@.skip(start as int)),
        decreases n - start,
    {
        let ghost t = s@.skip(start as int);
        let rest = slice_chars(s, start, n);
        assert(rest@ == t);
        proof {
            lemma_find_char_bounds(t, '\n');
        }
        let ghost before = Seq::new(out@.len(), |i: int| out@[i]@);
        match find_char_in(&rest, '\n') {
            Some(k) => {
                let mut line = slice_chars(&rest, 0, k);
                if k > 0 && line[k - 1] == '\r' {
                    line = slice_chars(&rest, 0, k - 1);
                    assert(line@ =~= strip_cr(t.take(k as int)));
                } else {
                    assert(line@ =~= strip_cr(t.take(k as int)));
                }
                out.push(line);
                assert(t.skip(k + 1) =~= s@.skip(start + k + 1));
                assert(Seq::new(out@.len(), |i: int| out@[i]@) =~= before.push(line@));
                assert(lines(t) == seq![strip_cr(t.take(k as int))] + lines(t.skip(k + 1)));
                assert(before + lines(t) =~= before.push(line@) + lines(t.skip(k + 1)));
                start = start + k + 1;
            },
            None => {
                out.push(rest);
                assert(Seq::new(out@.len(), |i: int| out@[i]@) =~= before.push(t));
                assert(lines(t) == seq![t]);
                assert(s@.skip(n as int) =~= Seq::<char>::empty());
                assert(before + lines(t) =~= before.push(t) + lines(s@.skip(n as int)));
                start = n;
            },
        }
    }
    assert(s@.skip(start as int) =~= Seq::<char>::empty());
    assert(lines(s@) =~= Seq::new(out@.len(), |i: int| out@[i]@));
    out
}

/// `s` cut to `max` characters, with `"..."` appended when something was cut.
pub fn truncate_chars(s: &Vec<char>, max: usize) -> (r: String)
    ensures
        r@ == truncated(s@, max as nat),
{
    if s.len() <= max {
        string_of(s.as_slice())
    } else {
        let head = slice_chars(s, 0, max);
        let r = string_of(head.as_slice());
        r.concat("...")
    }
}

} // verus!
