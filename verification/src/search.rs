//! Finding, cutting and joining pieces of text.

use vstd::prelude::*;
use vstd::string::*;

use crate::text::{chars_of, is_white, slice_text, text_of, white};
#[allow(unused_imports)]
use crate::text::texts;

verus! {

/// Whether `p` stands in `s` at position `i`.
pub open spec fn stands_at(s: Seq<char>, p: Seq<char>, i: int) -> bool {
    0 <= i && i + p.len() <= s.len() && s.subrange(i, i + p.len()) == p
}

/// Whether `s` starts with `p`.
pub open spec fn has_prefix(s: Seq<char>, p: Seq<char>) -> bool {
    stands_at(s, p, 0)
}

/// Whether `s` ends with `p`.
pub open spec fn has_suffix(s: Seq<char>, p: Seq<char>) -> bool {
    stands_at(s, p, s.len() - p.len())
}

/// Whether `p` stands somewhere in `s`.
pub open spec fn has_text(s: Seq<char>, p: Seq<char>) -> bool {
    exists|i: int| stands_at(s, p, i)
}

/// The first position at or after `from` at which `c` stands; the length of `s` if there is none.
pub open spec fn next_char(s: Seq<char>, c: char, from: int) -> int
    decreases s.len() - from,
{
    if from >= s.len() {
        s.len() as int
    } else if s[from] == c {
        from
    } else {
        next_char(s, c, from + 1)
    }
}

/// The first position at or after `from` at which `p` stands.
pub open spec fn next_text(s: Seq<char>, p: Seq<char>, from: int) -> Option<int>
    decreases s.len() - from + 1,
{
    if from + p.len() > s.len() {
        None
    } else if s.subrange(from, from + p.len()) == p {
        Some(from)
    } else {
        next_text(s, p, from + 1)
    }
}

/// The last position at or before `from` at which `p` stands.
pub open spec fn last_text(s: Seq<char>, p: Seq<char>, from: int) -> Option<int>
    decreases from + 1,
{
    if from < 0 {
        None
    } else if stands_at(s, p, from) {
        Some(from)
    } else {
        last_text(s, p, from - 1)
    }
}

/// `next_char` is the first place of the character, and everything before it is different.
pub proof fn lemma_next_char(s: Seq<char>, c: char, from: int)
    requires
        0 <= from <= s.len(),
    ensures
        from <= next_char(s, c, from) <= s.len(),
        next_char(s, c, from) < s.len() ==> s[next_char(s, c, from)] == c,
        forall|j: int| from <= j < next_char(s, c, from) ==> s[j] != c,
    decreases s.len() - from,
{
    if from < s.len() && s[from] != c {
        lemma_next_char(s, c, from + 1);
    }
}

/// `next_text` is the first place of the text, and there is none before it.
pub proof fn lemma_next_text(s: Seq<char>, p: Seq<char>, from: int)
    requires
        0 <= from,
    ensures
        match next_text(s, p, from) {
            Some(i) => from <= i && stands_at(s, p, i) && forall|j: int|
                from <= j < i ==> !stands_at(s, p, j),
            None => forall|j: int| from <= j ==> !stands_at(s, p, j),
        },
    decreases s.len() - from + 1,
{
    if from + p.len() > s.len() {
    } else if s.subrange(from, from + p.len()) == p {
        assert(stands_at(s, p, from));
    } else {
        lemma_next_text(s, p, from + 1);
        assert(!stands_at(s, p, from));
    }
}

/// Whether `p` stands in the characters `v` at `i`.
fn at(v: &Vec<char>, p: &Vec<char>, i: usize) -> (r: bool)
    requires
        i <= v@.len(),
    ensures
        r == stands_at(v@, p@, i as int),
{
    let n: usize = v.len();
    if p.len() > n - i {
        return false;
    }
    let mut k: usize = 0;
    while k < p.len()
        invariant
            k <= p@.len(),
            n == v@.len(),
            i + p@.len() <= n,
            forall|j: int| 0 <= j < k ==> v@[i + j] == p@[j],
        decreases p@.len() - k,
    {
        if v[i + k] != p[k] {
            assert(v@.subrange(i as int, i + p@.len())[k as int] != p@[k as int]);
            return false;
        }
        k = k + 1;
    }
    assert(v@.subrange(i as int, i + p@.len()) =~= p@);
    true
}

/// Whether `s` starts with `p`.
pub fn starts_with(s: &str, p: &str) -> (r: bool)
    ensures
        r == has_prefix(s@, p@),
{
    let v = chars_of(s);
    let w = chars_of(p);
    at(&v, &w, 0)
}

/// Whether `s` ends with `p`.
pub fn ends_with(s: &str, p: &str) -> (r: bool)
    ensures
        r == has_suffix(s@, p@),
{
    let v = chars_of(s);
    let w = chars_of(p);
    if w.len() > v.len() {
        return false;
    }
    at(&v, &w, v.len() - w.len())
}

/// What follows `p` in `s`, if `s` starts with `p`.
pub fn strip_prefix(s: &str, p: &str) -> (r: Option<String>)
    ensures
        match r {
            Some(t) => has_prefix(s@, p@) && t@ == s@.skip(p@.len() as int),
            None => !has_prefix(s@, p@),
        },
{
    let v = chars_of(s);
    let w = chars_of(p);
    if at(&v, &w, 0) {
        assert(v@.subrange(w@.len() as int, v@.len() as int) =~= s@.skip(p@.len() as int));
        Some(slice_text(&v, w.len(), v.len()))
    } else {
        None
    }
}

/// What precedes `p` in `s`, if `s` ends with `p`.
pub fn strip_suffix(s: &str, p: &str) -> (r: Option<String>)
    ensures
        match r {
            Some(t) => has_suffix(s@, p@) && t@ == s@.take(s@.len() - p@.len()),
            None => !has_suffix(s@, p@),
        },
{
    let v = chars_of(s);
    let w = chars_of(p);
    if w.len() <= v.len() && at(&v, &w, v.len() - w.len()) {
        assert(v@.subrange(0, v@.len() - w@.len()) =~= s@.take(s@.len() - p@.len()));
        Some(slice_text(&v, 0, v.len() - w.len()))
    } else {
        None
    }
}

/// The first position of `c` in `v` at or after `from`; the length of `v` if there is none.
pub fn find_char(v: &Vec<char>, c: char, from: usize) -> (r: usize)
    requires
        from <= v@.len(),
    ensures
        r == next_char(v@, c, from as int),
        from <= r <= v@.len(),
{
    let mut i: usize = from;
    while i < v.len() && v[i] != c
        invariant
            from <= i <= v@.len(),
            next_char(v@, c, i as int) == next_char(v@, c, from as int),
        decreases v@.len() - i,
    {
        i = i + 1;
    }
    i
}

/// The first position of `p` in `v` at or after `from`.
pub fn find_text(v: &Vec<char>, p: &Vec<char>, from: usize) -> (r: Option<usize>)
    requires
        from <= v@.len(),
    ensures
        match r {
            Some(i) => next_text(v@, p@, from as int) == Some(i as int) && from <= i && i + p@.len()
                <= v@.len(),
            None => next_text(v@, p@, from as int) is None,
        },
{
    let mut i: usize = from;
    while i <= v.len() && p.len() <= v.len() - i
        invariant
            from <= i <= v@.len() + 1,
            from <= v@.len(),
            next_text(v@, p@, i as int) == next_text(v@, p@, from as int),
        decreases v@.len() + 1 - i,
    {
        if at(v, p, i) {
            return Some(i);
        }
        if i == v.len() {
            assert(next_text(v@, p@, i + 1) is None);
            return None;
        }
        i = i + 1;
    }
    None
}

/// The last position of `p` in `v`.
pub fn rfind_text(v: &Vec<char>, p: &Vec<char>) -> (r: Option<usize>)
    ensures
        match r {
            Some(i) => last_text(v@, p@, v@.len() as int) == Some(i as int) && i + p@.len()
                <= v@.len(),
            None => last_text(v@, p@, v@.len() as int) is None,
        },
{
    let mut i: usize = v.len();
    loop
        invariant
            i <= v@.len(),
            last_text(v@, p@, i as int) == last_text(v@, p@, v@.len() as int),
        decreases i,
    {
        if at(v, p, i) {
            return Some(i);
        }
        if i == 0 {
            assert(last_text(v@, p@, -1) is None);
            return None;
        }
        i = i - 1;
    }
}

/// Whether `p` stands somewhere in `s`.
pub fn contains(s: &str, p: &str) -> (r: bool)
    ensures
        r == has_text(s@, p@),
{
    let v = chars_of(s);
    let w = chars_of(p);
    proof {
        lemma_next_text(s@, p@, 0);
    }
    match find_text(&v, &w, 0) {
        Some(i) => {
            assert(stands_at(s@, p@, i as int));
            true
        },
        None => false,
    }
}

/// Whether the character `c` stands somewhere in `s`.
pub fn contains_char(s: &str, c: char) -> (r: bool)
    ensures
        r == s@.contains(c),
{
    let v = chars_of(s);
    proof {
        lemma_next_char(v@, c, 0);
    }
    let i = find_char(&v, c, 0);
    if i < v.len() {
        assert(s@[i as int] == c);
        true
    } else {
        false
    }
}

// ---------------------------------------------------------------- replacing

/// `s` with each occurrence of `from`, taken from the left, replaced by `to`.
pub open spec fn replaced(s: Seq<char>, from: Seq<char>, to: Seq<char>) -> Seq<char>
    decreases s.len(),
{
    if from.len() == 0 {
        s
    } else {
        match next_text(s, from, 0) {
            Some(i) => if 0 <= i && i + from.len() <= s.len() {
                s.take(i) + to + replaced(s.skip(i + from.len()), from, to)
            } else {
                s
            },
            None => s,
        }
    }
}

proof fn lemma_next_text_skip(s: Seq<char>, p: Seq<char>, k: int, from: int)
    requires
        0 <= from,
        0 <= k <= s.len(),
    ensures
        next_text(s, p, k + from) == (match next_text(s.skip(k), p, from) {
            Some(i) => Some(i + k),
            None => None::<int>,
        }),
    decreases s.len() - k - from + 1,
{
    if k + from + p.len() > s.len() {
    } else {
        assert(s.skip(k).subrange(from, from + p.len()) =~= s.subrange(k + from, k + from + p.len()));
        if s.subrange(k + from, k + from + p.len()) != p {
            lemma_next_text_skip(s, p, k, from + 1);
        }
    }
}

/// `s` with each occurrence of `from` replaced by `to`.
pub fn replace(s: &str, from: &str, to: &str) -> (r: String)
    requires
        from@.len() > 0,
    ensures
        r@ == replaced(s@, from@, to@),
{
    let v = chars_of(s);
    let p = chars_of(from);
    let n: usize = v.len();
    let mut out: String = String::new();
    let mut pos: usize = 0;
    assert(s@.skip(0) =~= s@);
    assert(out@ + replaced(s@.skip(0), from@, to@) =~= replaced(s@, from@, to@));
    loop
        invariant
            pos <= v@.len(),
            n == v@.len(),
            v@ == s@,
            p@ == from@,
            p@.len() > 0,
            out@ + replaced(s@.skip(pos as int), from@, to@) == replaced(s@, from@, to@),
        decreases v@.len() - pos,
    {
        proof {
            lemma_next_text_skip(s@, from@, pos as int, 0);
            lemma_next_text(s@.skip(pos as int), from@, 0);
        }
        match find_text(&v, &p, pos) {
            Some(i) => {
                let ghost rest = s@.skip(pos as int);
                assert(v@.subrange(pos as int, i as int) =~= rest.take(i - pos));
                assert(rest.skip(i - pos + from@.len()) =~= s@.skip(i + p@.len()));
                let piece = slice_text(&v, pos, i);
                let ghost before = out@;
                out.append(piece.as_str());
                out.append(to);
                pos = i + p.len();
                assert(replaced(rest, from@, to@) == piece@ + to@ + replaced(
                    s@.skip(pos as int),
                    from@,
                    to@,
                ));
                assert(before + (piece@ + to@ + replaced(s@.skip(pos as int), from@, to@)) =~= out@
                    + replaced(s@.skip(pos as int), from@, to@));
            },
            None => {
                let piece = slice_text(&v, pos, v.len());
                assert(piece@ =~= s@.skip(pos as int));
                out.append(piece.as_str());
                return out;
            },
        }
    }
}

// ---------------------------------------------------------------- lines

/// `s` without a carriage return at its end.
pub open spec fn chomped(s: Seq<char>) -> Seq<char> {
    if s.len() > 0 && s.last() == '\r' {
        s.drop_last()
    } else {
        s
    }
}

/// The lines of `s`: what stands before each line feed, without a carriage return before it, and
/// what follows the last line feed, if anything does.
pub open spec fn lines(s: Seq<char>) -> Seq<Seq<char>>
    decreases s.len(),
{
    if s.len() == 0 {
        Seq::empty()
    } else {
        let i = next_char(s, '\n', 0);
        if 0 <= i < s.len() {
            seq![chomped(s.take(i))] + lines(s.skip(i + 1))
        } else {
            seq![s]
        }
    }
}

/// `last_text` is the last place of the text, and there is none behind it.
pub proof fn lemma_last_text(s: Seq<char>, p: Seq<char>, from: int)
    ensures
        match last_text(s, p, from) {
            Some(i) => i <= from && stands_at(s, p, i) && forall|j: int|
                i < j <= from ==> !stands_at(s, p, j),
            None => forall|j: int| j <= from ==> !stands_at(s, p, j),
        },
    decreases from + 1,
{
    if from >= 0 && !stands_at(s, p, from) {
        lemma_last_text(s, p, from - 1);
    }
}

/// Where a text without line feeds stands once a line is put in behind a line: where it stood before,
/// as far as it does not stand in the line itself.
pub proof fn lemma_stands_beside_line(
    front: Seq<char>,
    line: Seq<char>,
    back: Seq<char>,
    p: Seq<char>,
    k: int,
)
    requires
        front.len() > 0,
        front.last() == '\n',
        !p.contains('\n'),
        p.len() > 0,
        !has_text(line, p),
    ensures
        stands_at(front + back, p, k) ==> k + p.len() <= front.len() || k >= front.len(),
        stands_at(front + line.push('\n') + back, p, k) == (if k + p.len() <= front.len() {
            stands_at(front + back, p, k)
        } else {
            k > front.len() + line.len() && stands_at(front + back, p, k - line.len() - 1)
        }),
{
    let t = front + back;
    let u = front + line.push('\n') + back;
    let d = line.len() + 1;
    let n = front.len() as int;
    if stands_at(t, p, k) && k < n && k + p.len() > n {
        assert(t.subrange(k, k + p.len())[n - 1 - k] == t[n - 1]);
        assert(p[n - 1 - k] == '\n');
    }
    if k >= 0 && k + p.len() <= n {
        assert(t.subrange(k, k + p.len()) =~= u.subrange(k, k + p.len()));
    } else if k > n + line.len() {
        if k + p.len() <= u.len() {
            assert(t.subrange(k - d, k - d + p.len()) =~= u.subrange(k, k + p.len()));
        }
    } else if stands_at(u, p, k) {
        let part = u.subrange(k, k + p.len());
        if k < n {
            assert(part[n - 1 - k] == u[n - 1]);
            assert(u[n - 1] == front[n - 1]);
            assert(p[n - 1 - k] == '\n');
        } else if k + p.len() <= n + line.len() {
            assert(line.subrange(k - n, k - n + p.len()) =~= part);
            assert(stands_at(line, p, k - n));
        } else {
            assert(part[n + line.len() - k] == u[n + line.len()]);
            assert(u[n + line.len()] == '\n');
            assert(p[n + line.len() - k] == '\n');
        }
    }
}

/// Looking for a character in what follows `k` finds the same place, counted from `k`.
pub proof fn lemma_next_char_skip(s: Seq<char>, c: char, k: int, from: int)
    requires
        0 <= from,
        0 <= k <= s.len(),
        k + from <= s.len(),
    ensures
        next_char(s, c, k + from) == next_char(s.skip(k), c, from) + k,
    decreases s.len() - k - from,
{
    if k + from < s.len() && s[k + from] != c {
        lemma_next_char_skip(s, c, k, from + 1);
    }
}

/// The lines of two texts are those of the first and those of the second, if the first ends with a
/// line.
pub proof fn lemma_lines_append(x: Seq<char>, y: Seq<char>)
    requires
        x.len() == 0 || x.last() == '\n',
    ensures
        lines(x + y) == lines(x) + lines(y),
    decreases x.len(),
{
    if x.len() == 0 {
        assert(x + y =~= y);
        assert(lines(x) + lines(y) =~= lines(y));
    } else {
        let i = next_char(x, '\n', 0);
        lemma_next_char(x, '\n', 0);
        lemma_next_char(x + y, '\n', 0);
        assert(i < x.len()) by {
            if i >= x.len() {
                assert(x[x.len() - 1] != '\n');
            }
        }
        let k = next_char(x + y, '\n', 0);
        assert(k == i) by {
            assert((x + y)[i] == '\n');
            if k < i {
                assert((x + y)[k] == x[k]);
            }
        }
        let rest = x.skip(i + 1);
        assert((x + y).skip(i + 1) =~= rest + y);
        assert((x + y).take(i) =~= x.take(i));
        if rest.len() > 0 {
            assert(rest.last() == x.last());
        }
        lemma_lines_append(rest, y);
        assert(lines(x) == seq![chomped(x.take(i))] + lines(rest));
        assert(lines(x + y) =~= lines(x) + lines(y));
    }
}

/// A text without line feeds, ended by one, is one line.
pub proof fn lemma_one_line(line: Seq<char>)
    requires
        !line.contains('\n'),
    ensures
        lines(line.push('\n')) == seq![chomped(line)],
{
    let s = line.push('\n');
    lemma_next_char(s, '\n', 0);
    let i = next_char(s, '\n', 0);
    assert(i == line.len()) by {
        assert(s[line.len() as int] == '\n');
        if i < line.len() {
            assert(line[i] == '\n');
        }
    }
    assert(s.take(i) =~= line);
    let rest = s.skip(i + 1);
    assert(rest.len() == 0);
    assert(lines(rest).len() == 0);
    assert(lines(s) =~= seq![chomped(line)]);
}

/// The lines of `s`.
pub fn lines_of(s: &str) -> (r: Vec<String>)
    ensures
        texts(r@) == lines(s@),
{
    let v = chars_of(s);
    let mut out: Vec<String> = Vec::new();
    let mut pos: usize = 0;
    assert(s@.skip(0) =~= s@);
    assert(texts(out@) + lines(s@) =~= lines(s@));
    while pos < v.len()
        invariant
            pos <= v@.len(),
            v@ == s@,
            texts(out@) + lines(s@.skip(pos as int)) == lines(s@),
        decreases v@.len() - pos,
    {
        let i = find_char(&v, '\n', pos);
        let ghost rest = s@.skip(pos as int);
        proof {
            lemma_next_char_skip(s@, '\n', pos as int, 0);
        }
        let ghost before = texts(out@);
        if i < v.len() {
            let end: usize = if i > pos && v[i - 1] == '\r' {
                i - 1
            } else {
                i
            };
            let line = slice_text(&v, pos, end);
            assert(rest.take(i - pos) =~= s@.subrange(pos as int, i as int));
            assert(line@ =~= chomped(rest.take(i - pos)));
            assert(rest.skip(i - pos + 1) =~= s@.skip(i + 1));
            let ghost line_text = line@;
            out.push(line);
            pos = i + 1;
            assert(texts(out@) =~= before.push(line_text));
            assert(before.push(line_text) + lines(s@.skip(pos as int)) =~= before + (seq![line_text]
                + lines(s@.skip(pos as int))));
        } else {
            let line = slice_text(&v, pos, v.len());
            assert(line@ =~= rest);
            let ghost line_text = line@;
            out.push(line);
            pos = v.len();
            assert(texts(out@) =~= before.push(line_text));
            assert(s@.skip(pos as int) =~= Seq::empty());
            assert(before.push(line_text) + lines(s@.skip(pos as int)) =~= before + seq![line_text]);
        }
    }
    assert(s@.skip(pos as int) =~= Seq::empty());
    assert(texts(out@) + lines(s@.skip(pos as int)) =~= texts(out@));
    out
}

// ---------------------------------------------------------------- splitting

/// What stands between the places of `c` in `s`.
pub open spec fn pieces(s: Seq<char>, c: char) -> Seq<Seq<char>>
    decreases s.len(),
{
    let i = next_char(s, c, 0);
    if 0 <= i < s.len() {
        seq![s.take(i)] + pieces(s.skip(i + 1), c)
    } else {
        seq![s]
    }
}

/// What stands between the places of `c` in `s`.
pub fn split_at_char(s: &str, c: char) -> (r: Vec<String>)
    ensures
        texts(r@) == pieces(s@, c),
{
    let v = chars_of(s);
    let n: usize = v.len();
    let mut out: Vec<String> = Vec::new();
    let mut pos: usize = 0;
    assert(s@.skip(0) =~= s@);
    assert(texts(out@) + pieces(s@, c) =~= pieces(s@, c));
    loop
        invariant
            n == v@.len(),
            pos <= n,
            v@ == s@,
            texts(out@) + pieces(s@.skip(pos as int), c) == pieces(s@, c),
        decreases n - pos,
    {
        let i = find_char(&v, c, pos);
        let ghost rest = s@.skip(pos as int);
        let ghost before = texts(out@);
        proof {
            lemma_next_char_skip(s@, c, pos as int, 0);
        }
        let piece = slice_text(&v, pos, i);
        let ghost text = piece@;
        out.push(piece);
        assert(texts(out@) =~= before.push(text));
        if i < n {
            assert(text =~= rest.take(i - pos));
            assert(rest.skip(i - pos + 1) =~= s@.skip(i + 1));
            assert(before.push(text) + pieces(s@.skip(i + 1), c) =~= before + (seq![text]
                + pieces(s@.skip(i + 1), c)));
            pos = i + 1;
        } else {
            assert(text =~= rest);
            assert(before.push(text) =~= before + seq![text]);
            return out;
        }
    }
}

// ---------------------------------------------------------------- joining

/// The pieces one after the other, with `sep` between each two.
pub open spec fn joined(parts: Seq<Seq<char>>, sep: Seq<char>) -> Seq<char>
    decreases parts.len(),
{
    if parts.len() == 0 {
        Seq::empty()
    } else if parts.len() == 1 {
        parts[0]
    } else {
        joined(parts.drop_last(), sep) + sep + parts.last()
    }
}

/// The pieces one after the other, with `sep` between each two.
pub fn join(parts: &Vec<String>, sep: &str) -> (r: String)
    ensures
        r@ == joined(texts(parts@), sep@),
{
    let mut out: String = String::new();
    let mut i: usize = 0;
    let ghost all = texts(parts@);
    assert(all.take(0) =~= Seq::empty());
    while i < parts.len()
        invariant
            i <= parts@.len(),
            all == texts(parts@),
            out@ == joined(all.take(i as int), sep@),
        decreases parts@.len() - i,
    {
        assert(all.take(i + 1).drop_last() =~= all.take(i as int));
        if i > 0 {
            out.append(sep);
        } else {
            assert(out@ + all[0] =~= all[0]);
            assert(all.take(1)[0] == all[0]);
        }
        out.append(parts[i].as_str());
        i = i + 1;
    }
    assert(all.take(all.len() as int) =~= all);
    out
}

// ---------------------------------------------------------------- words

/// The length of the run of characters at the start of `s` that are not white space.
pub open spec fn word_len(s: Seq<char>) -> nat
    decreases s.len(),
{
    if s.len() == 0 || white(s[0]) {
        0
    } else {
        1 + word_len(s.drop_first())
    }
}

/// The run of characters at the start of `s` that are not white space.
pub open spec fn first_word(s: Seq<char>) -> Seq<char> {
    s.take(word_len(s) as int)
}

/// `word_len` counts the characters before the first white space.
pub proof fn lemma_word_len(s: Seq<char>)
    ensures
        word_len(s) <= s.len(),
        word_len(s) < s.len() ==> white(s[word_len(s) as int]),
        forall|j: int| 0 <= j < word_len(s) ==> !white(#[trigger] s[j]),
    decreases s.len(),
{
    if s.len() > 0 && !white(s[0]) {
        lemma_word_len(s.drop_first());
        assert forall|j: int| 0 <= j < word_len(s) implies !white(#[trigger] s[j]) by {
            if j > 0 {
                assert(s[j] == s.drop_first()[j - 1]);
            }
        }
    }
}

/// The run of characters at the start of `s` that are not white space.
pub fn leading_word(s: &str) -> (r: String)
    ensures
        r@ == first_word(s@),
{
    let v = chars_of(s);
    let mut i: usize = 0;
    assert(s@.skip(0) =~= s@);
    while i < v.len() && !is_white(v[i])
        invariant
            i <= v@.len(),
            v@ == s@,
            i + word_len(s@.skip(i as int)) == word_len(s@),
        decreases v@.len() - i,
    {
        assert(s@.skip(i as int).drop_first() =~= s@.skip(i + 1));
        i = i + 1;
    }
    assert(v@.subrange(0, i as int) =~= s@.take(i as int));
    slice_text(&v, 0, i)
}

/// The first `n` characters of `s`, or all of them if there are fewer.
pub fn take_chars(s: &str, n: usize) -> (r: String)
    ensures
        r@ == (if s@.len() <= n {
            s@
        } else {
            s@.take(n as int)
        }),
{
    let v = chars_of(s);
    if v.len() <= n {
        text_of(&v)
    } else {
        assert(v@.subrange(0, n as int) =~= s@.take(n as int));
        slice_text(&v, 0, n)
    }
}

// ---------------------------------------------------------------- laws

/// What is joined begins with the first text.
pub proof fn lemma_joined_first(x: Seq<char>, rest: Seq<Seq<char>>, sep: Seq<char>)
    requires
        rest.len() > 0,
    ensures
        joined(seq![x] + rest, sep) == x + sep + joined(rest, sep),
    decreases rest.len(),
{
    let all = seq![x] + rest;
    assert(all.drop_last() =~= seq![x] + rest.drop_last());
    assert(all.last() == rest.last());
    if rest.len() == 1 {
        assert(all.drop_last() =~= seq![x]);
        assert(joined(all.drop_last(), sep) == x);
        assert(joined(rest, sep) == rest[0]);
        assert(joined(all, sep) == joined(all.drop_last(), sep) + sep + all.last());
    } else {
        lemma_joined_first(x, rest.drop_last(), sep);
        assert(joined(all, sep) =~= x + sep + (joined(rest.drop_last(), sep) + sep + rest.last()));
    }
}

/// Cutting a text loses nothing: the pieces, with the character put back between them, are the text,
/// and none of them holds the character.
pub proof fn law_pieces_are_joined_again(s: Seq<char>, c: char)
    ensures
        joined(pieces(s, c), seq![c]) == s,
        pieces(s, c).len() > 0,
        forall|i: int| 0 <= i < pieces(s, c).len() ==> !(#[trigger] pieces(s, c)[i]).contains(c),
    decreases s.len(),
{
    lemma_next_char(s, c, 0);
    let i = next_char(s, c, 0);
    if i < s.len() {
        let rest = s.skip(i + 1);
        law_pieces_are_joined_again(rest, c);
        lemma_joined_first(s.take(i), pieces(rest, c), seq![c]);
        assert(s.take(i) + seq![c] + rest =~= s);
        let all = pieces(s, c);
        assert forall|k: int| 0 <= k < all.len() implies !(#[trigger] all[k]).contains(c) by {
            if k > 0 {
                assert(all[k] == pieces(rest, c)[k - 1]);
            }
        }
    } else {
        assert(pieces(s, c) =~= seq![s]);
    }
}

/// Texts that do not hold a character, joined with it, are cut into the same texts again.
pub proof fn law_joined_texts_are_cut_again(parts: Seq<Seq<char>>, c: char)
    requires
        parts.len() > 0,
        forall|i: int| 0 <= i < parts.len() ==> !(#[trigger] parts[i]).contains(c),
    ensures
        pieces(joined(parts, seq![c]), c) == parts,
    decreases parts.len(),
{
    let x = parts[0];
    let s = joined(parts, seq![c]);
    lemma_next_char(s, c, 0);
    let i = next_char(s, c, 0);
    if parts.len() == 1 {
        assert(s == x);
        if i < s.len() {
            assert(x.contains(s[i]));
        }
        assert(pieces(s, c) =~= parts);
    } else {
        let rest = parts.drop_first();
        assert(parts =~= seq![x] + rest);
        lemma_joined_first(x, rest, seq![c]);
        assert forall|k: int| 0 <= k < rest.len() implies !(#[trigger] rest[k]).contains(c) by {
            assert(rest[k] == parts[k + 1]);
        }
        law_joined_texts_are_cut_again(rest, c);
        assert(s[x.len() as int] == c);
        if i < x.len() {
            assert(s[i] == x[i]);
            assert(x.contains(x[i]));
        }
        assert(i == x.len());
        assert(s.take(i) =~= x);
        assert(s.skip(i + 1) =~= joined(rest, seq![c]));
        assert(pieces(s, c) =~= parts);
    }
}

proof fn lemma_lines_have_no_feed(s: Seq<char>)
    ensures
        s.len() > 0 ==> lines(s).len() > 0,
        forall|i: int| 0 <= i < lines(s).len() ==> !(#[trigger] lines(s)[i]).contains('\n'),
    decreases s.len(),
{
    if s.len() > 0 {
        lemma_next_char(s, '\n', 0);
        let i = next_char(s, '\n', 0);
        let all = lines(s);
        if i < s.len() {
            let rest = s.skip(i + 1);
            lemma_lines_have_no_feed(rest);
            let first = chomped(s.take(i));
            assert(all == seq![first] + lines(rest));
            assert forall|k: int| 0 <= k < all.len() implies !(#[trigger] all[k]).contains('\n') by {
                if k > 0 {
                    assert(all[k] == lines(rest)[k - 1]);
                } else if first.contains('\n') {
                    let j = choose|j: int| 0 <= j < first.len() && first[j] == '\n';
                    assert(s[j] == '\n');
                }
            }
        } else {
            assert(all == seq![s]);
        }
    }
}

proof fn lemma_lines_first(s: Seq<char>, i: int)
    requires
        s.len() > 0,
        i == next_char(s, '\n', 0),
        i < s.len(),
        !s.contains('\r'),
    ensures
        lines(s) == seq![s.take(i)] + lines(s.skip(i + 1)),
        s.take(i) + seq!['\n'] + s.skip(i + 1) == s,
        !s.skip(i + 1).contains('\r'),
{
    lemma_next_char(s, '\n', 0);
    let rest = s.skip(i + 1);
    assert forall|k: int| 0 <= k < rest.len() implies rest[k] != '\r' by {
        assert(s.contains(s[k + i + 1]));
    }
    if i > 0 {
        assert(s.contains(s[i - 1]));
        assert(s.take(i).last() == s[i - 1]);
    }
    assert(s.take(i) + seq!['\n'] + rest =~= s);
}

proof fn lemma_lines_joined(s: Seq<char>)
    requires
        !s.contains('\r'),
    ensures
        joined(lines(s), seq!['\n']) == s || joined(lines(s), seq!['\n']) + seq!['\n'] == s,
    decreases s.len(),
{
    let feed = seq!['\n'];
    if s.len() == 0 {
        assert(joined(lines(s), feed) =~= s);
    } else {
        lemma_next_char(s, '\n', 0);
        let i = next_char(s, '\n', 0);
        if i < s.len() {
            let first = s.take(i);
            let rest = s.skip(i + 1);
            lemma_lines_first(s, i);
            if rest.len() == 0 {
                assert(lines(rest) =~= Seq::<Seq<char>>::empty());
                assert(lines(s) =~= seq![first]);
                assert(joined(lines(s), feed) == first);
                assert(first + feed =~= s);
            } else {
                lemma_lines_joined(rest);
                lemma_lines_have_no_feed(rest);
                lemma_joined_first(first, lines(rest), feed);
                let j = joined(lines(rest), feed);
                assert(first + feed + j + feed =~= first + feed + (j + feed));
            }
        } else {
            assert(lines(s) =~= seq![s]);
        }
    }
}

/// Reading a text line by line loses nothing but a line feed at its end: the lines, with line feeds
/// between them, are the text, as long as it holds no carriage return; and no line holds a line feed.
pub proof fn law_lines_are_joined_again(s: Seq<char>)
    ensures
        !s.contains('\r') ==> joined(lines(s), seq!['\n']) == s || joined(lines(s), seq!['\n'])
            + seq!['\n'] == s,
        s.len() > 0 ==> lines(s).len() > 0,
        forall|i: int| 0 <= i < lines(s).len() ==> !(#[trigger] lines(s)[i]).contains('\n'),
{
    lemma_lines_have_no_feed(s);
    if !s.contains('\r') {
        lemma_lines_joined(s);
    }
}

/// Each of the texts that are joined stands in what they make.
pub proof fn law_joined_holds_every_part(parts: Seq<Seq<char>>, sep: Seq<char>, k: int)
    requires
        0 <= k < parts.len(),
    ensures
        has_text(joined(parts, sep), parts[k]),
    decreases parts.len(),
{
    let all = joined(parts, sep);
    if parts.len() == 1 {
        assert(all.subrange(0, parts[0].len() as int) =~= parts[0]);
        assert(stands_at(all, parts[k], 0));
    } else {
        let front = joined(parts.drop_last(), sep);
        if k == parts.len() - 1 {
            let at = (front + sep).len() as int;
            assert(all.subrange(at, at + parts[k].len()) =~= parts[k]);
            assert(stands_at(all, parts[k], at));
        } else {
            law_joined_holds_every_part(parts.drop_last(), sep, k);
            assert(parts.drop_last()[k] == parts[k]);
            let at = choose|i: int| stands_at(front, parts[k], i);
            assert(all.subrange(at, at + parts[k].len()) =~= front.subrange(at, at + parts[k].len()));
            assert(stands_at(all, parts[k], at));
        }
    }
}

/// What stands in a part of a text stands in the text.
pub proof fn lemma_text_within(a: Seq<char>, s: Seq<char>, b: Seq<char>, p: Seq<char>)
    requires
        has_text(s, p),
    ensures
        has_text(a + s + b, p),
{
    let at = choose|i: int| stands_at(s, p, i);
    let all = a + s + b;
    let k = at + a.len();
    assert(all.subrange(k, k + p.len()) =~= s.subrange(at, at + p.len()));
    assert(stands_at(all, p, k));
}

/// A text stands in itself.
pub proof fn lemma_text_in_itself(p: Seq<char>)
    ensures
        has_text(p, p),
{
    assert(p.subrange(0, p.len() as int) =~= p);
    assert(stands_at(p, p, 0));
}

/// The first word of a text is its start, up to the first white space and no further.
pub proof fn law_first_word_ends_at_white_space(s: Seq<char>)
    ensures
        first_word(s).len() <= s.len(),
        first_word(s) == s.take(first_word(s).len() as int),
        forall|j: int| 0 <= j < first_word(s).len() ==> !white(#[trigger] first_word(s)[j]),
        first_word(s).len() < s.len() ==> white(s[first_word(s).len() as int]),
{
    lemma_word_len(s);
    assert forall|j: int| 0 <= j < first_word(s).len() implies !white(#[trigger] first_word(s)[j]) by {
        assert(first_word(s)[j] == s[j]);
    }
}

/// Replacing a text leaves what stands before its first place, puts the new text there, and goes on
/// behind it; a text in which it does not stand stays as it is.
pub proof fn law_replacing_leaves_the_rest(
    front: Seq<char>,
    from: Seq<char>,
    back: Seq<char>,
    to: Seq<char>,
)
    requires
        from.len() > 0,
        forall|i: int| 0 <= i < front.len() ==> !stands_at(front + from + back, from, i),
    ensures
        replaced(front + from + back, from, to) == front + to + replaced(back, from, to),
        !has_text(back, from) ==> replaced(back, from, to) == back,
{
    let s = front + from + back;
    lemma_next_text(s, from, 0);
    let at = front.len() as int;
    assert(s.subrange(at, at + from.len()) =~= from);
    assert(stands_at(s, from, at));
    assert(next_text(s, from, 0) == Some(at));
    assert(s.take(at) =~= front);
    assert(s.skip(at + from.len()) =~= back);
    lemma_next_text(back, from, 0);
}

} // verus!
