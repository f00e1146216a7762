//! Text as sequences of characters: the operations every other module states its
//! contracts over, each with an executable function proved to compute it.

use vstd::prelude::*;
use vstd::string::*;
use vstd::utf8::*;

verus! {

/// `String::push` appends the character to the end of the string.
pub assume_specification[ String::push ](s: &mut String, c: char)
    ensures
        final(s)@ == old(s)@.push(c),
;

/// The texts of a list of strings.
pub open spec fn texts(v: Seq<String>) -> Seq<Seq<char>> {
    v.map_values(|s: String| s@)
}

/// The text of an optional string.
pub open spec fn opt_text(o: Option<String>) -> Option<Seq<char>> {
    match o {
        Some(s) => Some(s@),
        None => None,
    }
}

/// The text of an optional string slice.
pub open spec fn opt_str(o: Option<&str>) -> Option<Seq<char>> {
    match o {
        Some(s) => Some(s@),
        None => None,
    }
}

/// The characters of `s`.
pub fn chars_of(s: &str) -> (r: Vec<char>)
    ensures
        r@ == s@,
{
    let mut v: Vec<char> = Vec::new();
    for c in it: s.chars()
        invariant
            v@ == s@.take(it.index() as int),
            it.seq() == s@,
    {
        v.push(c);
    }
    v
}

/// The string made of the characters of `v` from `from` up to `to`.
pub fn slice_text(v: &Vec<char>, from: usize, to: usize) -> (r: String)
    requires
        from <= to <= v@.len(),
    ensures
        r@ == v@.subrange(from as int, to as int),
{
    let mut s: String = String::new();
    let mut i: usize = from;
    while i < to
        invariant
            from <= i <= to <= v@.len(),
            s@ == v@.subrange(from as int, i as int),
        decreases to - i,
    {
        s.push(v[i]);
        i = i + 1;
    }
    s
}

/// The string with exactly the characters of `v`.
pub fn text_of(v: &Vec<char>) -> (r: String)
    ensures
        r@ == v@,
{
    let r = slice_text(v, 0, v.len());
    assert(v@.subrange(0, v@.len() as int) =~= v@);
    r
}

/// Whether two strings hold the same text.
pub fn same(a: &str, b: &str) -> (r: bool)
    ensures
        r == (a@ == b@),
{
    let x = chars_of(a);
    let y = chars_of(b);
    if x.len() != y.len() {
        return false;
    }
    let mut i: usize = 0;
    while i < x.len()
        invariant
            i <= x@.len(),
            x@.len() == y@.len(),
            x@ == a@,
            y@ == b@,
            forall|j: int| 0 <= j < i ==> x@[j] == y@[j],
        decreases x@.len() - i,
    {
        if x[i] != y[i] {
            assert(a@[i as int] != b@[i as int]);
            return false;
        }
        i = i + 1;
    }
    assert(a@ =~= b@);
    true
}

/// The number of bytes that the text takes in UTF-8.
pub open spec fn byte_len(s: Seq<char>) -> nat {
    encode_utf8(s).len()
}

/// The number of bytes of `s`.
pub fn bytes_in(s: &str) -> (r: usize)
    ensures
        r == byte_len(s@),
{
    s.as_bytes().len()
}

/// `a` followed by `b`.
pub fn cat(a: &str, b: &str) -> (r: String)
    ensures
        r@ == a@ + b@,
{
    let mut s = a.to_owned();
    s.append(b);
    s
}

/// `a`, `b` and `c` in a row.
pub fn cat3(a: &str, b: &str, c: &str) -> (r: String)
    ensures
        r@ == a@ + b@ + c@,
{
    let mut s = a.to_owned();
    s.append(b);
    s.append(c);
    s
}

/// `a`, `b`, `c` and `d` in a row.
pub fn cat4(a: &str, b: &str, c: &str, d: &str) -> (r: String)
    ensures
        r@ == a@ + b@ + c@ + d@,
{
    let mut s = a.to_owned();
    s.append(b);
    s.append(c);
    s.append(d);
    s
}

/// `a`, `b`, `c`, `d` and `e` in a row.
pub fn cat5(a: &str, b: &str, c: &str, d: &str, e: &str) -> (r: String)
    ensures
        r@ == a@ + b@ + c@ + d@ + e@,
{
    let mut s = a.to_owned();
    s.append(b);
    s.append(c);
    s.append(d);
    s.append(e);
    s
}

/// Adds a string to the end of a list.
pub fn push_text(v: &mut Vec<String>, s: String)
    ensures
        texts(final(v)@) == texts(old(v)@).push(s@),
{
    let ghost before = v@;
    v.push(s);
    assert(texts(v@) =~= texts(before).push(s@));
}

/// The list of one string.
pub fn one_text(s: String) -> (r: Vec<String>)
    ensures
        texts(r@) == seq![s@],
{
    let mut v: Vec<String> = Vec::new();
    push_text(&mut v, s);
    assert(texts(v@) =~= seq![s@]);
    v
}

/// A list of strings with the same texts.
pub fn copy_texts(v: &Vec<String>) -> (r: Vec<String>)
    ensures
        texts(r@) == texts(v@),
{
    let mut out: Vec<String> = Vec::new();
    let mut i: usize = 0;
    while i < v.len()
        invariant
            i <= v@.len(),
            texts(out@) == texts(v@).take(i as int),
        decreases v@.len() - i,
    {
        push_text(&mut out, v[i].clone());
        assert(texts(v@).take(i + 1) =~= texts(v@).take(i as int).push(v@[i as int]@));
        i = i + 1;
    }
    assert(texts(v@).take(v@.len() as int) =~= texts(v@));
    out
}

/// The same text, if there is one.
pub fn copy_opt(o: &Option<String>) -> (r: Option<String>)
    ensures
        r == *o,
{
    match o {
        Some(s) => Some(s.clone()),
        None => None,
    }
}

/// `n` spaces.
pub open spec fn spaces(n: nat) -> Seq<char> {
    Seq::new(n, |i: int| ' ')
}

/// `s` with spaces behind it up to the width `w`.
pub open spec fn padded(s: Seq<char>, w: nat) -> Seq<char> {
    if s.len() < w {
        s + spaces((w - s.len()) as nat)
    } else {
        s
    }
}

/// `s` with spaces behind it up to the width `w`.
pub fn pad(s: &str, w: usize) -> (r: String)
    ensures
        r@ == padded(s@, w as nat),
{
    let mut out = s.to_owned();
    let mut n: usize = s.unicode_len();
    let ghost start = s@.len();
    while n < w
        invariant
            start == s@.len(),
            start <= n,
            start < w ==> n <= w,
            start >= w ==> n == start,
            out@ == s@ + spaces((n - start) as nat),
        decreases w - n,
    {
        out.push(' ');
        assert(spaces((n + 1 - start) as nat) =~= spaces((n - start) as nat).push(' '));
        n = n + 1;
    }
    assert(s@ + spaces(0) =~= s@);
    out
}

// ---------------------------------------------------------------- white space

/// The characters with the Unicode property `White_Space`.
pub open spec fn white(c: char) -> bool {
    let n = c as u32;
    ||| 0x9 <= n <= 0xd
    ||| n == 0x20
    ||| n == 0x85
    ||| n == 0xa0
    ||| n == 0x1680
    ||| 0x2000 <= n <= 0x200a
    ||| n == 0x2028
    ||| n == 0x2029
    ||| n == 0x202f
    ||| n == 0x205f
    ||| n == 0x3000
}

/// Whether `c` is white space.
pub fn is_white(c: char) -> (r: bool)
    ensures
        r == white(c),
{
    let n: u32 = c as u32;
    (0x9 <= n && n <= 0xd) || n == 0x20 || n == 0x85 || n == 0xa0 || n == 0x1680 || (0x2000 <= n
        && n <= 0x200a) || n == 0x2028 || n == 0x2029 || n == 0x202f || n == 0x205f || n == 0x3000
}

/// `s` without the white space at its start.
pub open spec fn trimmed_start(s: Seq<char>) -> Seq<char>
    decreases s.len(),
{
    if s.len() > 0 && white(s[0]) {
        trimmed_start(s.drop_first())
    } else {
        s
    }
}

/// `s` without the white space at its end.
pub open spec fn trimmed_end(s: Seq<char>) -> Seq<char>
    decreases s.len(),
{
    if s.len() > 0 && white(s.last()) {
        trimmed_end(s.drop_last())
    } else {
        s
    }
}

/// `s` without the white space at either end.
pub open spec fn trimmed(s: Seq<char>) -> Seq<char> {
    trimmed_end(trimmed_start(s))
}

/// What is left has no white space at its end.
pub proof fn lemma_trimmed_end(s: Seq<char>)
    ensures
        trimmed_end(s).len() > 0 ==> !white(trimmed_end(s).last()),
    decreases s.len(),
{
    if s.len() > 0 && white(s.last()) {
        lemma_trimmed_end(s.drop_last());
    }
}

/// `s` without the white space at its end.
pub fn trim_end(s: &str) -> (r: String)
    ensures
        r@ == trimmed_end(s@),
{
    let v = chars_of(s);
    let mut n: usize = v.len();
    assert(v@.take(n as int) =~= v@);
    while n > 0 && is_white(v[n - 1])
        invariant
            n <= v@.len(),
            v@ == s@,
            trimmed_end(v@.take(n as int)) == trimmed_end(s@),
        decreases n,
    {
        assert(v@.take(n as int).drop_last() =~= v@.take(n - 1));
        n = n - 1;
    }
    assert(v@.subrange(0, n as int) =~= v@.take(n as int));
    slice_text(&v, 0, n)
}

/// `s` without the white space at its start.
pub fn trim_start(s: &str) -> (r: String)
    ensures
        r@ == trimmed_start(s@),
{
    let v = chars_of(s);
    let mut i: usize = 0;
    assert(v@.skip(0) =~= v@);
    while i < v.len() && is_white(v[i])
        invariant
            i <= v@.len(),
            v@ == s@,
            trimmed_start(v@.skip(i as int)) == trimmed_start(s@),
        decreases v@.len() - i,
    {
        assert(v@.skip(i as int).drop_first() =~= v@.skip(i + 1));
        i = i + 1;
    }
    assert(v@.subrange(i as int, v@.len() as int) =~= v@.skip(i as int));
    slice_text(&v, i, v.len())
}

/// `s` without the white space at either end.
pub fn trim(s: &str) -> (r: String)
    ensures
        r@ == trimmed(s@),
{
    let t = trim_start(s);
    trim_end(t.as_str())
}

/// `s` without the characters `a` and `b` at its start.
pub open spec fn bared_start(s: Seq<char>, a: char, b: char) -> Seq<char>
    decreases s.len(),
{
    if s.len() > 0 && (s[0] == a || s[0] == b) {
        bared_start(s.drop_first(), a, b)
    } else {
        s
    }
}

/// `s` without the characters `a` and `b` at its end.
pub open spec fn bared_end(s: Seq<char>, a: char, b: char) -> Seq<char>
    decreases s.len(),
{
    if s.len() > 0 && (s.last() == a || s.last() == b) {
        bared_end(s.drop_last(), a, b)
    } else {
        s
    }
}

/// `s` without the characters `a` and `b` at either end.
pub open spec fn bared(s: Seq<char>, a: char, b: char) -> Seq<char> {
    bared_end(bared_start(s, a, b), a, b)
}

/// `s` without the characters `a` and `b` at its start.
pub fn bare_start(s: &str, a: char, b: char) -> (r: String)
    ensures
        r@ == bared_start(s@, a, b),
{
    let v = chars_of(s);
    let mut i: usize = 0;
    assert(v@.skip(0) =~= v@);
    while i < v.len() && (v[i] == a || v[i] == b)
        invariant
            i <= v@.len(),
            v@ == s@,
            bared_start(v@.skip(i as int), a, b) == bared_start(s@, a, b),
        decreases v@.len() - i,
    {
        assert(v@.skip(i as int).drop_first() =~= v@.skip(i + 1));
        i = i + 1;
    }
    assert(v@.subrange(i as int, v@.len() as int) =~= v@.skip(i as int));
    slice_text(&v, i, v.len())
}

/// `s` without the characters `a` and `b` at either end.
pub fn bare(s: &str, a: char, b: char) -> (r: String)
    ensures
        r@ == bared(s@, a, b),
{
    let t = bare_start(s, a, b);
    let v = chars_of(t.as_str());
    let mut n: usize = v.len();
    assert(v@.take(n as int) =~= v@);
    while n > 0 && (v[n - 1] == a || v[n - 1] == b)
        invariant
            n <= v@.len(),
            bared_end(v@.take(n as int), a, b) == bared(s@, a, b),
        decreases n,
    {
        assert(v@.take(n as int).drop_last() =~= v@.take(n - 1));
        n = n - 1;
    }
    assert(v@.subrange(0, n as int) =~= v@.take(n as int));
    slice_text(&v, 0, n)
}

// ---------------------------------------------------------------- letter case

/// `c` in lower case if it is an ASCII letter, else `c`.
pub open spec fn ascii_lower(c: char) -> char {
    if 'A' <= c <= 'Z' {
        ((c as u32 + 32) as u32) as char
    } else {
        c
    }
}

/// `s` with every ASCII letter in lower case.
pub open spec fn ascii_lowered(s: Seq<char>) -> Seq<char> {
    s.map_values(|c: char| ascii_lower(c))
}

/// `c` in lower case if it is an ASCII letter, else `c`.
pub fn lower_char(c: char) -> (r: char)
    ensures
        r == ascii_lower(c),
{
    if 'A' <= c && c <= 'Z' {
        let n: u8 = (c as u8) + 32;
        n as char
    } else {
        c
    }
}

/// `s` with every ASCII letter in lower case.
pub fn to_ascii_lower(s: &str) -> (r: String)
    ensures
        r@ == ascii_lowered(s@),
{
    let mut r: String = String::new();
    for c in it: s.chars()
        invariant
            r@ == ascii_lowered(s@.take(it.index() as int)),
            it.seq() == s@,
    {
        r.push(lower_char(c));
        assert(ascii_lowered(s@.take(it.index() + 1)) =~= ascii_lowered(s@.take(it.index() as int)).push(ascii_lower(c)));
    }
    assert(s@.take(s@.len() as int) =~= s@);
    r
}

/// The text in lower case by the rules of Unicode.
pub uninterp spec fn unicode_lowered(s: Seq<char>) -> Seq<char>;

/// `str::to_lowercase`: the lower case equivalent of the text, by Unicode's tables.
#[verifier::external_body]
pub(crate) fn to_unicode_lower(s: &str) -> (r: String)
    ensures
        r@ == unicode_lowered(s@),
{
    s.to_lowercase()
}

// ---------------------------------------------------------------- laws

proof fn lemma_trimmed_start(s: Seq<char>)
    ensures
        trimmed_start(s).len() <= s.len(),
        trimmed_start(s) == s.skip(s.len() - trimmed_start(s).len()),
        forall|j: int|
            0 <= j < s.len() - trimmed_start(s).len() ==> white(#[trigger] s[j]),
        trimmed_start(s).len() > 0 ==> !white(trimmed_start(s)[0]),
    decreases s.len(),
{
    if s.len() > 0 && white(s[0]) {
        let rest = s.drop_first();
        lemma_trimmed_start(rest);
        let n = trimmed_start(rest).len();
        assert(rest.skip(rest.len() - n) =~= s.skip(s.len() - n));
        assert forall|j: int| 0 <= j < s.len() - n implies white(#[trigger] s[j]) by {
            if j > 0 {
                assert(s[j] == rest[j - 1]);
            }
        }
    } else {
        assert(s.skip(0) =~= s);
    }
}

proof fn lemma_trimmed_end_is_front(s: Seq<char>)
    ensures
        trimmed_end(s).len() <= s.len(),
        trimmed_end(s) == s.take(trimmed_end(s).len() as int),
        forall|j: int| trimmed_end(s).len() <= j < s.len() ==> white(#[trigger] s[j]),
        trimmed_end(s).len() > 0 ==> !white(trimmed_end(s).last()),
    decreases s.len(),
{
    if s.len() > 0 && white(s.last()) {
        let rest = s.drop_last();
        lemma_trimmed_end_is_front(rest);
        let n = trimmed_end(rest).len();
        assert(rest.take(n as int) =~= s.take(n as int));
        assert forall|j: int| n <= j < s.len() implies white(#[trigger] s[j]) by {
            if j < rest.len() {
                assert(s[j] == rest[j]);
            }
        }
    } else {
        assert(s.take(s.len() as int) =~= s);
    }
}

/// Trimming takes away white space at both ends, all of it and nothing else: `i` characters at the
/// start.
pub proof fn law_trimming_takes_white_space_only(s: Seq<char>) -> (i: int)
    ensures
        0 <= i,
        i + trimmed(s).len() <= s.len(),
        trimmed(s) == s.subrange(i, i + trimmed(s).len()),
        forall|j: int| 0 <= j < i ==> white(#[trigger] s[j]),
        forall|j: int| i + trimmed(s).len() <= j < s.len() ==> white(#[trigger] s[j]),
        trimmed(s).len() > 0 ==> !white(trimmed(s)[0]) && !white(trimmed(s).last()),
{
    lemma_trimmed_start(s);
    let a = trimmed_start(s);
    lemma_trimmed_end_is_front(a);
    let i = s.len() - a.len();
    let t = trimmed(s);
    assert(t =~= s.subrange(i, i + t.len()));
    assert forall|j: int| i + t.len() <= j < s.len() implies white(#[trigger] s[j]) by {
        assert(s[j] == a[j - i]);
    }
    i
}

/// A text that neither begins nor ends with white space is left as it is.
pub proof fn law_tidy_text_is_not_trimmed(s: Seq<char>)
    requires
        s.len() > 0 ==> !white(s[0]) && !white(s.last()),
    ensures
        trimmed(s) == s,
{
}

/// Of the printable ASCII characters only the space is white space; tabs and line ends are too.
pub proof fn law_white_space_of_ascii(c: char)
    requires
        c as u32 <= 0x7f,
    ensures
        0x21 <= c as u32 ==> !white(c),
        c == ' ' || c == '\t' || c == '\n' || c == '\r' ==> white(c),
{
}

/// Lower case changes the 26 capital letters, one for one, and no other character.
pub proof fn law_lower_case_keeps_the_rest(s: Seq<char>, i: int)
    requires
        0 <= i < s.len(),
    ensures
        ascii_lowered(s).len() == s.len(),
        !('A' <= s[i] <= 'Z') ==> ascii_lowered(s)[i] == s[i],
        'A' <= s[i] <= 'Z' ==> 'a' <= ascii_lowered(s)[i] <= 'z' && ascii_lowered(s)[i] as u32
            - 'a' as u32 == s[i] as u32 - 'A' as u32,
{
}

/// Padding puts nothing but spaces behind a text, up to the width and no further.
pub proof fn law_padding_adds_spaces_behind(s: Seq<char>, w: nat)
    ensures
        padded(s, w).len() == (if s.len() < w {
            w
        } else {
            s.len()
        }),
        padded(s, w).take(s.len() as int) == s,
        forall|j: int| s.len() <= j < padded(s, w).len() ==> #[trigger] padded(s, w)[j] == ' ',
{
    assert(padded(s, w).take(s.len() as int) =~= s);
}

proof fn lemma_trimmed_start_push(s: Seq<char>, c: char)
    requires
        white(c),
    ensures
        trimmed_end(trimmed_start(s.push(c))) == trimmed_end(trimmed_start(s)),
    decreases s.len(),
{
    let t = s.push(c);
    if s.len() == 0 {
        assert(t.drop_first() =~= s);
        assert(t[0] == c);
    } else if white(s[0]) {
        assert(t.drop_first() =~= s.drop_first().push(c));
        lemma_trimmed_start_push(s.drop_first(), c);
    } else {
        assert(t.drop_last() =~= s);
        assert(t.last() == c);
    }
}

/// White space behind a text is trimmed away with the rest.
pub proof fn law_white_space_behind_does_not_count(s: Seq<char>, c: char)
    requires
        white(c),
    ensures
        trimmed(s + seq![c]) == trimmed(s),
{
    assert(s + seq![c] =~= s.push(c));
    lemma_trimmed_start_push(s, c);
}

/// The texts of a list are its strings, one for one and in order, and a text that may be missing is there
/// exactly if its string is.
pub proof fn law_texts_are_the_strings(v: Seq<String>, i: int, o: Option<String>)
    ensures
        texts(v).len() == v.len(),
        0 <= i < v.len() ==> texts(v)[i] == v[i]@,
        o matches Some(s) ==> opt_text(o) == Some(s@),
        o is None ==> opt_text(o) is None,
{
}

/// What is bared loses the two characters at its ends, all of them and nothing else.
pub proof fn law_baring_takes_two_characters_only(front: Seq<char>, s: Seq<char>, back: Seq<char>, a: char, b: char)
    requires
        s.len() > 0,
        s[0] != a && s[0] != b,
        s.last() != a && s.last() != b,
        forall|i: int| 0 <= i < front.len() ==> #[trigger] front[i] == a || front[i] == b,
        forall|i: int| 0 <= i < back.len() ==> #[trigger] back[i] == a || back[i] == b,
    ensures
        bared(front + s + back, a, b) == s,
{
    lemma_bared_start(front, s + back, a, b);
    assert(front + s + back =~= front + (s + back));
    lemma_bared_end(s, back, a, b);
}

proof fn lemma_bared_start(front: Seq<char>, s: Seq<char>, a: char, b: char)
    requires
        s.len() > 0,
        s[0] != a && s[0] != b,
        forall|i: int| 0 <= i < front.len() ==> #[trigger] front[i] == a || front[i] == b,
    ensures
        bared_start(front + s, a, b) == s,
    decreases front.len(),
{
    let all = front + s;
    if front.len() == 0 {
        assert(all =~= s);
    } else {
        let rest = front.drop_first();
        assert forall|i: int| 0 <= i < rest.len() implies #[trigger] rest[i] == a || rest[i] == b by {
            assert(rest[i] == front[i + 1]);
        }
        assert(front[0] == a || front[0] == b);
        assert(all.drop_first() =~= rest + s);
        lemma_bared_start(rest, s, a, b);
    }
}

proof fn lemma_bared_end(s: Seq<char>, back: Seq<char>, a: char, b: char)
    requires
        s.len() > 0,
        s.last() != a && s.last() != b,
        forall|i: int| 0 <= i < back.len() ==> #[trigger] back[i] == a || back[i] == b,
    ensures
        bared_end(s + back, a, b) == s,
    decreases back.len(),
{
    let all = s + back;
    if back.len() == 0 {
        assert(all =~= s);
    } else {
        let n = back.len() - 1;
        let rest = back.drop_last();
        assert forall|i: int| 0 <= i < rest.len() implies #[trigger] rest[i] == a || rest[i] == b by {
            assert(rest[i] == back[i]);
        }
        assert(back[n] == a || back[n] == b);
        assert(all.last() == back[n]);
        assert(all.drop_last() =~= s + rest);
        lemma_bared_end(s, rest, a, b);
    }
}

} // verus!
