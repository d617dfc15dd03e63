//! Text wrapping for display.
use vstd::prelude::*;
use crate::context::append_chars;
use crate::text::{chars_of, is_ws, is_whitespace, slice_chars, string_of};

verus! {

/// Words of `s` found so far, and the word being read, scanning left to right.
pub open spec fn word_scan(s: Seq<char>) -> (Seq<Seq<char>>, Seq<char>)
    decreases s.len(),
{
    if s.len() == 0 {
        (seq![], seq![])
    } else {
        let (ws, cur) = word_scan(s.drop_last());
        if is_ws(s.last()) {
            if cur.len() > 0 {
                (ws.push(cur), seq![])
            } else {
                (ws, seq![])
            }
        } else {
            (ws, cur.push(s.last()))
        }
    }
}

/// The whitespace-separated words of `s`, as `str::split_whitespace` yields them.
pub open spec fn words(s: Seq<char>) -> Seq<Seq<char>> {
    let (ws, cur) = word_scan(s);
    if cur.len() > 0 {
        ws.push(cur)
    } else {
        ws
    }
}

/// Lines filled so far and the line being filled, word by word.
pub open spec fn fill(ws: Seq<Seq<char>>, width: nat) -> (Seq<Seq<char>>, Seq<char>)
    decreases ws.len(),
{
    if ws.len() == 0 {
        (seq![], seq![])
    } else {
        let (ls, cur) = fill(ws.drop_last(), width);
        let w = ws.last();
        if cur.len() + w.len() + 1 > width {
            (ls.push(cur), w)
        } else if cur.len() > 0 {
            (ls, cur + seq![' '] + w)
        } else {
            (ls, cur + w)
        }
    }
}

/// Greedy word wrap: a word goes on the current line while the line, a space
/// and the word fit in `width`; otherwise the line is closed.
pub open spec fn wrapped(text: Seq<char>, width: nat) -> Seq<Seq<char>> {
    if text.len() == 0 {
        seq![]
    } else {
        let (ls, cur) = fill(words(text), width);
        if cur.len() > 0 {
            ls.push(cur)
        } else {
            ls
        }
    }
}

fn split_words(s: &Vec<char>) -> (r: Vec<Vec<char>>)
    ensures
        r@.len() == words(s@).len(),
        forall|i: int| 0 <= i < r@.len() ==> #[trigger] r@[i]@ == words(s@)[i],
{
    let mut out: Vec<Vec<char>> = Vec::new();
    let mut cur: Vec<char> = Vec::new();
    let mut i: usize = 0;
    while i < s.len()
        invariant
            i <= s@.len(),
            word_scan(s@.take(i as int)) == (Seq::new(out@.len(), |j: int| out@[j]@), cur@),
        decreases s@.len() - i,
    {
        let ghost before = Seq::new(out@.len(), |j: int| out@[j]@);
        assert(s@.take(i + 1).drop_last() =~= s@.take(i as int));
        let c = s[i];
        if is_whitespace(c) {
            if cur.len() > 0 {
                out.push(cur);
                cur = Vec::new();
                assert(Seq::new(out@.len(), |j: int| out@[j]@) =~= before.push(out@[out@.len() - 1]@));
            }
        } else {
            cur.push(c);
        }
        i = i + 1;
    }
    assert(s@.take(i as int) =~= s@);
    let ghost before = Seq::new(out@.len(), |j: int| out@[j]@);
    if cur.len() > 0 {
        out.push(cur);
        assert(Seq::new(out@.len(), |j: int| out@[j]@) =~= before.push(out@[out@.len() - 1]@));
    }
    assert(Seq::new(out@.len(), |j: int| out@[j]@) =~= words(s@));
    out
}

/// Wraps text at word boundaries to lines of at most `width` characters (a
/// single longer word stands on its own line).
pub fn wrap_text(text: &str, width: usize) -> (r: Vec<String>)
    ensures
        r@.len() == wrapped(text@, width as nat).len(),
        forall|i: int| 0 <= i < r@.len() ==> #[trigger] r@[i]@ == wrapped(text@, width as nat)[i],
{
    let mut lines: Vec<String> = Vec::new();
    let t = chars_of(text);
    if t.len() == 0 {
        return lines;
    }
    let ws = split_words(&t);
    let ghost wv = words(text@);
    let mut cur: Vec<char> = Vec::new();
    let mut i: usize = 0;
    while i < ws.len()
        invariant
            i <= ws@.len() == wv.len(),
            wv == words(text@),
            forall|j: int| 0 <= j < ws@.len() ==> #[trigger] ws@[j]@ == wv[j],
            fill(wv.take(i as int), width as nat) == (Seq::new(lines@.len(), |j: int| lines@[j]@), cur@),
        decreases ws@.len() - i,
    {
        let ghost before = Seq::new(lines@.len(), |j: int| lines@[j]@);
        assert(wv.take(i + 1).drop_last() =~= wv.take(i as int));
        assert(wv.take(i + 1).last() == ws@[i as int]@);
        let w = &ws[i];
        if (cur.len() as u128) + (w.len() as u128) + 1 > width as u128 {
            lines.push(string_of(cur.as_slice()));
            assert(Seq::new(lines@.len(), |j: int| lines@[j]@) =~= before.push(cur@));
            cur = slice_chars(w, 0, w.len());
        } else {
            if cur.len() > 0 {
                cur.push(' ');
            }
            append_chars(&mut cur, w);
        }
        i = i + 1;
    }
    assert(wv.take(i as int) =~= wv);
    let ghost before = Seq::new(lines@.len(), |j: int| lines@[j]@);
    if cur.len() > 0 {
        lines.push(string_of(cur.as_slice()));
        assert(Seq::new(lines@.len(), |j: int| lines@[j]@) =~= before.push(cur@));
    }
    assert(Seq::new(lines@.len(), |j: int| lines@[j]@) =~= wrapped(text@, width as nat));
    lines
}

/// Cuts code into lines of exactly `width` characters (the last may be
/// shorter); empty code gives one empty line.
pub fn wrap_code(text: &str, width: usize) -> (r: Vec<String>)
    requires
        width > 0,
    ensures
        text@.len() == 0 ==> r@.len() == 1 && r@[0]@.len() == 0,
        text@.len() > 0 ==> r@.len() == (text@.len() + width - 1) / (width as int),
        forall|i: int| 0 <= i < r@.len() && text@.len() > 0 ==> #[trigger] r@[i]@ == text@.subrange(
            i * width,
            if (i + 1) * width < text@.len() { (i + 1) * width } else { text@.len() as int },
        ),
{
    let t = chars_of(text);
    let mut lines: Vec<String> = Vec::new();
    if t.len() == 0 {
        lines.push(String::new());
        return lines;
    }
    let n = t.len();
    let mut start: usize = 0;
    assert(0 * width == 0) by (nonlinear_arith);
    while start < n
        invariant
            n == t@.len() == text@.len(),
            t@ == text@,
            width > 0,
            start <= n,
            start == lines@.len() * width || start == n,
            start < n ==> start == lines@.len() * width,
            start == n ==> lines@.len() == (n + width - 1) / (width as int),
            forall|i: int| 0 <= i < lines@.len() ==> #[trigger] lines@[i]@ == text@.subrange(
                i * width,
                if (i + 1) * width < n { (i + 1) * width } else { n as int },
            ),
        decreases n - start,
    {
        let end = if n - start > width {
            start + width
        } else {
            n
        };
        let ghost k = lines@.len();
        assert((k + 1) * width == k * width + width) by (nonlinear_arith);
        let piece = slice_chars(&t, start, end);
        assert(piece@ == text@.subrange(
            k * width,
            if (k + 1) * width < n { (k + 1) * width } else { n as int },
        ));
        lines.push(string_of(piece.as_slice()));
        if end == n {
            assert(k * width < n);
            assert(n <= k * width + width);
            assert((n + width - 1) / (width as int) == k + 1) by (nonlinear_arith)
                requires
                    k * width < n,
                    n <= k * width + width,
                    width > 0,
            ;
        }
        start = end;
    }
    lines
}

} // verus!
