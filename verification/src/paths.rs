//! Paths as text, with `/` between their components.

use vstd::prelude::*;
use vstd::string::*;

use crate::order::{le, Ranked};
#[allow(unused_imports)]
use crate::order::{
    lemma_text_le_antisymmetric, lemma_text_le_reflexive, lemma_text_le_total,
    lemma_text_le_transitive, text_le,
};
use crate::search::{ends_with, find_char, starts_with};
#[allow(unused_imports)]
use crate::search::{has_prefix, has_suffix, lemma_next_char_skip, next_char};
use crate::text::{chars_of, same, slice_text};

verus! {

/// `rest` below `base`; an absolute `rest` stands alone.
pub open spec fn path_joined(base: Seq<char>, rest: Seq<char>) -> Seq<char> {
    if has_prefix(rest, "/"@) {
        rest
    } else if base.len() == 0 || has_suffix(base, "/"@) {
        base + rest
    } else {
        base + "/"@ + rest
    }
}

/// `rest` below `base`; an absolute `rest` stands alone.
pub fn join_path(base: &str, rest: &str) -> (r: String)
    ensures
        r@ == path_joined(base@, rest@),
{
    if starts_with(rest, "/") {
        return rest.to_owned();
    }
    let mut out = base.to_owned();
    if !base.is_empty() && !ends_with(base, "/") {
        out.append("/");
    }
    out.append(rest);
    out
}

/// One component of a path: what kind it is, in the order of the kinds, and its name.
pub ghost struct Part {
    /// 0 for the root, 1 for `.` at the start, 2 for `..`, 3 for a name.
    pub kind: nat,
    pub name: Seq<char>,
}

/// The component that a piece between two slashes is; `first` says whether it opens a path that
/// is not absolute. Empty pieces are none, nor is `.` unless it opens the path.
pub open spec fn part_of(piece: Seq<char>, first: bool) -> Option<Part> {
    if piece.len() == 0 {
        None
    } else if piece == "."@ {
        if first {
            Some(Part { kind: 1, name: Seq::empty() })
        } else {
            None
        }
    } else if piece == ".."@ {
        Some(Part { kind: 2, name: Seq::empty() })
    } else {
        Some(Part { kind: 3, name: piece })
    }
}

/// The components of what follows in a path; `first` says whether this opens a path that is not
/// absolute.
pub open spec fn parts_from(s: Seq<char>, first: bool) -> Seq<Part>
    decreases s.len(),
{
    let i = next_char(s, '/', 0);
    let (piece, rest) = if 0 <= i < s.len() {
        (s.take(i), parts_from(s.skip(i + 1), false))
    } else {
        (s, Seq::empty())
    };
    match part_of(piece, first) {
        Some(p) => seq![p] + rest,
        None => rest,
    }
}

/// The components of a path.
pub open spec fn parts(s: Seq<char>) -> Seq<Part> {
    if s.len() > 0 && s[0] == '/' {
        seq![Part { kind: 0, name: Seq::empty() }] + parts_from(s.skip(1), false)
    } else {
        parts_from(s, true)
    }
}

/// One component of a path.
#[derive(Clone, Debug, PartialEq, Eq)]
pub enum Component {
    Root,
    Here,
    Parent,
    Name(String),
}

impl View for Component {
    type V = Part;

    open spec fn view(&self) -> Part {
        match *self {
            Component::Root => Part { kind: 0, name: Seq::empty() },
            Component::Here => Part { kind: 1, name: Seq::empty() },
            Component::Parent => Part { kind: 2, name: Seq::empty() },
            Component::Name(s) => Part { kind: 3, name: s@ },
        }
    }
}

/// The components of a list.
pub open spec fn parts_view(v: Seq<Component>) -> Seq<Part> {
    v.map_values(|c: Component| c@)
}

fn component_of(piece: String, first: bool) -> (r: Option<Component>)
    ensures
        match r {
            Some(c) => part_of(piece@, first) == Some(c@),
            None => part_of(piece@, first) is None,
        },
{
    proof {
        reveal_strlit(".");
        reveal_strlit("..");
    }
    if piece.as_str().is_empty() {
        None
    } else if same(piece.as_str(), ".") {
        if first {
            Some(Component::Here)
        } else {
            None
        }
    } else if same(piece.as_str(), "..") {
        Some(Component::Parent)
    } else {
        Some(Component::Name(piece))
    }
}

/// The components of a path.
pub fn components(s: &str) -> (r: Vec<Component>)
    ensures
        parts_view(r@) == parts(s@),
{
    let v = chars_of(s);
    let mut out: Vec<Component> = Vec::new();
    let mut pos: usize = 0;
    let mut first: bool = true;
    if v.len() > 0 && v[0] == '/' {
        out.push(Component::Root);
        pos = 1;
        first = false;
    }
    let mut more: bool = true;
    proof {
        assert(s@.skip(0) =~= s@);
        let rest = parts_from(s@.skip(pos as int), first);
        assert(parts_view(out@) + rest =~= parts(s@));
    }
    while more
        invariant
            pos <= v@.len(),
            v@ == s@,
            more ==> parts_view(out@) + parts_from(s@.skip(pos as int), first) == parts(s@),
            !more ==> parts_view(out@) == parts(s@),
        decreases v@.len() - pos + (if more { 1int } else { 0int }),
    {
        let i = find_char(&v, '/', pos);
        let ghost rest = s@.skip(pos as int);
        proof {
            lemma_next_char_skip(s@, '/', pos as int, 0);
        }
        let piece = slice_text(&v, pos, i);
        let ghost before = parts_view(out@);
        proof {
            if i < v@.len() {
                assert(piece@ =~= rest.take(i - pos));
                assert(rest.skip(i - pos + 1) =~= s@.skip(i + 1));
            } else {
                assert(piece@ =~= rest);
            }
        }
        let ghost piece_text = piece@;
        let ghost was_first = first;
        match component_of(piece, first) {
            Some(c) => {
                let ghost part = c@;
                out.push(c);
                assert(parts_view(out@) =~= before.push(part));
            },
            None => {},
        }
        let ghost tail = if i < v@.len() {
            parts_from(s@.skip(i + 1), false)
        } else {
            Seq::empty()
        };
        proof {
            assert(parts_from(rest, was_first) == (match part_of(piece_text, was_first) {
                Some(p) => seq![p] + tail,
                None => tail,
            }));
            assert(parts_view(out@) + tail =~= before + parts_from(rest, was_first));
        }
        first = false;
        if i < v.len() {
            pos = i + 1;
        } else {
            pos = v.len();
            more = false;
            assert(parts_view(out@) + tail =~= parts_view(out@));
        }
    }
    out
}

/// Whether two components are the same.
pub fn same_component(a: &Component, b: &Component) -> (r: bool)
    ensures
        r == (a@ == b@),
{
    match (a, b) {
        (Component::Root, Component::Root) => true,
        (Component::Here, Component::Here) => true,
        (Component::Parent, Component::Parent) => true,
        (Component::Name(x), Component::Name(y)) => same(x.as_str(), y.as_str()),
        _ => false,
    }
}

/// Whether the path `p` is `base` or lies below it, by their components.
pub open spec fn lies_in(p: Seq<char>, base: Seq<char>) -> bool {
    parts(base).len() <= parts(p).len() && parts(p).take(parts(base).len() as int) == parts(base)
}

/// Whether the path `p` is `base` or lies below it.
pub fn path_starts_with(p: &str, base: &str) -> (r: bool)
    ensures
        r == lies_in(p@, base@),
{
    let x = components(p);
    let y = components(base);
    proof {
        assert(parts(p@).len() == x@.len());
        assert(parts(base@).len() == y@.len());
    }
    if y.len() > x.len() {
        return false;
    }
    let mut i: usize = 0;
    while i < y.len()
        invariant
            i <= y@.len() <= x@.len(),
            parts_view(x@) == parts(p@),
            parts_view(y@) == parts(base@),
            forall|j: int| 0 <= j < i ==> parts(p@)[j] == parts(base@)[j],
        decreases y@.len() - i,
    {
        assert(parts_view(x@)[i as int] == x@[i as int]@);
        assert(parts_view(y@)[i as int] == y@[i as int]@);
        if !same_component(&x[i], &y[i]) {
            assert(parts(p@).take(y@.len() as int)[i as int] != parts(base@)[i as int]);
            return false;
        }
        i = i + 1;
    }
    assert(parts(p@).take(y@.len() as int) =~= parts(base@));
    true
}

/// Whether two texts write the same path.
pub open spec fn same_path(a: Seq<char>, b: Seq<char>) -> bool {
    parts(a) == parts(b)
}

/// Whether two texts write the same path.
pub fn paths_equal(a: &str, b: &str) -> (r: bool)
    ensures
        r == same_path(a@, b@),
{
    if path_starts_with(a, b) && path_starts_with(b, a) {
        assert(parts(a@) =~= parts(b@)) by {
            assert(parts(a@).take(parts(b@).len() as int) =~= parts(a@));
        }
        true
    } else {
        proof {
            if parts(a@) == parts(b@) {
                assert(parts(a@).take(parts(a@).len() as int) =~= parts(a@));
            }
        }
        false
    }
}

/// Whether one component stands before another, or is the same.
pub open spec fn part_le(a: Part, b: Part) -> bool {
    a.kind < b.kind || (a.kind == b.kind && text_le(a.name, b.name))
}

/// Whether one path stands before another, or is the same, by their components.
pub open spec fn parts_le(a: Seq<Part>, b: Seq<Part>) -> bool
    decreases a.len(),
{
    if a.len() == 0 {
        true
    } else if b.len() == 0 {
        false
    } else if a[0] != b[0] {
        part_le(a[0], b[0])
    } else {
        parts_le(a.drop_first(), b.drop_first())
    }
}

proof fn lemma_part_le_antisymmetric(a: Part, b: Part)
    requires
        part_le(a, b),
        part_le(b, a),
    ensures
        a == b,
{
    lemma_text_le_antisymmetric(a.name, b.name);
}

proof fn lemma_parts_le_total(a: Seq<Part>, b: Seq<Part>)
    ensures
        parts_le(a, b) || parts_le(b, a),
    decreases a.len(),
{
    if a.len() > 0 && b.len() > 0 {
        if a[0] == b[0] {
            lemma_parts_le_total(a.drop_first(), b.drop_first());
        } else {
            lemma_text_le_total(a[0].name, b[0].name);
        }
    }
}

/// The order of paths carries on.
pub proof fn lemma_parts_le_transitive(a: Seq<Part>, b: Seq<Part>, c: Seq<Part>)
    requires
        parts_le(a, b),
        parts_le(b, c),
    ensures
        parts_le(a, c),
    decreases a.len(),
{
    if a.len() > 0 && b.len() > 0 && c.len() > 0 {
        if a[0] == b[0] && b[0] == c[0] {
            lemma_parts_le_transitive(a.drop_first(), b.drop_first(), c.drop_first());
        } else if a[0] == b[0] || b[0] == c[0] {
        } else {
            if a[0] == c[0] {
                lemma_part_le_antisymmetric(a[0], b[0]);
            }
            if a[0].kind == b[0].kind && b[0].kind == c[0].kind {
                lemma_text_le_transitive(a[0].name, b[0].name, c[0].name);
            }
        }
    }
}

/// Two paths that each stand before or with the other have the same components.
pub proof fn lemma_parts_le_antisymmetric(a: Seq<Part>, b: Seq<Part>)
    requires
        parts_le(a, b),
        parts_le(b, a),
    ensures
        a == b,
    decreases a.len(),
{
    if a.len() > 0 && b.len() > 0 {
        if a[0] == b[0] {
            lemma_parts_le_antisymmetric(a.drop_first(), b.drop_first());
            assert(a =~= seq![a[0]] + a.drop_first());
            assert(b =~= seq![b[0]] + b.drop_first());
        } else {
            lemma_part_le_antisymmetric(a[0], b[0]);
        }
    } else {
        assert(a =~= b);
    }
}

/// A path taken apart, to be sorted by its components.
#[derive(Clone, Debug, PartialEq, Eq)]
pub struct PathKey {
    pub components: Vec<Component>,
}

fn component_le(a: &Component, b: &Component) -> (r: bool)
    ensures
        r == part_le(a@, b@),
{
    proof {
        lemma_text_le_reflexive(Seq::empty());
    }
    match (a, b) {
        (Component::Root, _) => true,
        (_, Component::Root) => false,
        (Component::Here, _) => true,
        (_, Component::Here) => false,
        (Component::Parent, _) => true,
        (_, Component::Parent) => false,
        (Component::Name(x), Component::Name(y)) => le(x.as_str(), y.as_str()),
    }
}

impl Ranked for PathKey {
    open spec fn before_or_with(a: PathKey, b: PathKey) -> bool {
        parts_le(parts_view(a.components@), parts_view(b.components@))
    }

    proof fn total(a: PathKey, b: PathKey) {
        lemma_parts_le_total(parts_view(a.components@), parts_view(b.components@));
    }

    proof fn transitive(a: PathKey, b: PathKey, c: PathKey) {
        lemma_parts_le_transitive(
            parts_view(a.components@),
            parts_view(b.components@),
            parts_view(c.components@),
        );
    }

    fn is_before_or_with(&self, other: &PathKey) -> (r: bool) {
        let x = &self.components;
        let y = &other.components;
        let ghost a = parts_view(x@);
        let ghost b = parts_view(y@);
        let mut i: usize = 0;
        assert(a.skip(0) =~= a);
        assert(b.skip(0) =~= b);
        while i < x.len()
            invariant
                i <= x@.len(),
                i <= y@.len(),
                x@ == self.components@,
                y@ == other.components@,
                a == parts_view(x@),
                b == parts_view(y@),
                parts_le(a.skip(i as int), b.skip(i as int)) == parts_le(a, b),
            decreases x@.len() - i,
        {
            if i >= y.len() {
                return false;
            }
            assert(a.skip(i as int).drop_first() =~= a.skip(i + 1));
            assert(b.skip(i as int).drop_first() =~= b.skip(i + 1));
            assert(a[i as int] == x@[i as int]@);
            assert(b[i as int] == y@[i as int]@);
            if !same_component(&x[i], &y[i]) {
                return component_le(&x[i], &y[i]);
            }
            i = i + 1;
        }
        true
    }
}

/// Whether a text names one component of a path.
pub open spec fn is_name(s: Seq<char>) -> bool {
    s.len() > 0 && !s.contains('/') && s != "."@ && s != ".."@
}

/// The components with these names.
pub open spec fn named_parts(names: Seq<Seq<char>>) -> Seq<Part> {
    names.map_values(|n: Seq<char>| Part { kind: 3, name: n })
}

proof fn lemma_parts_of_names(names: Seq<Seq<char>>, first: bool)
    requires
        names.len() > 0,
        forall|i: int| 0 <= i < names.len() ==> is_name(#[trigger] names[i]),
    ensures
        parts_from(crate::search::joined(names, seq!['/']), first) == named_parts(names),
    decreases names.len(),
{
    let s = crate::search::joined(names, seq!['/']);
    let x = names[0];
    assert(is_name(x));
    crate::search::lemma_next_char(s, '/', 0);
    let i = next_char(s, '/', 0);
    if names.len() == 1 {
        assert(s == x);
        if i < s.len() {
            assert(x.contains(s[i]));
        }
        assert(parts_from(s, first) =~= named_parts(names));
    } else {
        let rest = names.drop_first();
        assert(names =~= seq![x] + rest);
        crate::search::lemma_joined_first(x, rest, seq!['/']);
        assert forall|k: int| 0 <= k < rest.len() implies is_name(#[trigger] rest[k]) by {
            assert(rest[k] == names[k + 1]);
        }
        lemma_parts_of_names(rest, false);
        assert(s[x.len() as int] == '/');
        if i < x.len() {
            assert(s[i] == x[i]);
            assert(x.contains(x[i]));
        }
        assert(s.take(i) =~= x);
        assert(s.skip(i + 1) =~= crate::search::joined(rest, seq!['/']));
        assert(parts_from(s, first) =~= named_parts(names));
    }
}

/// Names with slashes between them write the path with these components, and behind a slash the same
/// path from the root.
pub proof fn law_paths_are_read_by_their_names(names: Seq<Seq<char>>)
    requires
        names.len() > 0,
        forall|i: int| 0 <= i < names.len() ==> is_name(#[trigger] names[i]),
    ensures
        parts(crate::search::joined(names, seq!['/'])) == named_parts(names),
        parts(seq!['/'] + crate::search::joined(names, seq!['/'])) == seq![
            Part { kind: 0, name: Seq::empty() },
        ] + named_parts(names),
{
    let s = crate::search::joined(names, seq!['/']);
    lemma_parts_of_names(names, true);
    lemma_parts_of_names(names, false);
    assert((seq!['/'] + s).skip(1) =~= s);
    assert(is_name(names[0]));
    if s.len() > 0 && s[0] == '/' {
        let x = names[0];
        if names.len() == 1 {
            assert(x.contains(x[0]));
        } else {
            assert(names =~= seq![x] + names.drop_first());
            crate::search::lemma_joined_first(x, names.drop_first(), seq!['/']);
            assert(s[0] == x[0]);
            assert(x.contains(x[0]));
        }
    }
}

/// A path lies in another exactly if its names begin with the other's names: whole names count, not
/// their letters.
pub proof fn law_paths_lie_below_by_whole_names(names: Seq<Seq<char>>, base: Seq<Seq<char>>)
    requires
        names.len() > 0,
        base.len() > 0,
        forall|i: int| 0 <= i < names.len() ==> is_name(#[trigger] names[i]),
        forall|i: int| 0 <= i < base.len() ==> is_name(#[trigger] base[i]),
    ensures
        lies_in(
            seq!['/'] + crate::search::joined(names, seq!['/']),
            seq!['/'] + crate::search::joined(base, seq!['/']),
        ) <==> base.len() <= names.len() && names.take(base.len() as int) == base,
        same_path(
            seq!['/'] + crate::search::joined(names, seq!['/']),
            seq!['/'] + crate::search::joined(base, seq!['/']),
        ) <==> names == base,
{
    law_paths_are_read_by_their_names(names);
    law_paths_are_read_by_their_names(base);
    let root = Part { kind: 0, name: Seq::empty() };
    let p = seq![root] + named_parts(names);
    let b = seq![root] + named_parts(base);
    let n = base.len() as int;
    if base.len() <= names.len() {
        if p.take(n + 1) == b {
            assert forall|i: int| 0 <= i < n implies names.take(n)[i] == base[i] by {
                assert(p.take(n + 1)[i + 1] == b[i + 1]);
                assert(p[i + 1] == named_parts(names)[i]);
                assert(b[i + 1] == named_parts(base)[i]);
            }
            assert(names.take(n) =~= base);
        }
        if names.take(n) == base {
            assert forall|i: int| 0 <= i < n + 1 implies p.take(n + 1)[i] == b[i] by {
                if i > 0 {
                    assert(names[i - 1] == names.take(n)[i - 1]);
                }
            }
            assert(p.take(n + 1) =~= b);
        }
    }
    if p == b {
        assert(p.len() == b.len());
        assert(p.take(n + 1) =~= p);
        assert forall|i: int| 0 <= i < n implies names[i] == base[i] by {
            assert(p[i + 1] == b[i + 1]);
            assert(p[i + 1] == named_parts(names)[i]);
            assert(b[i + 1] == named_parts(base)[i]);
        }
        assert(names =~= base);
    }
}

/// A path that is joined to a directory stands behind it, with one slash between them; an absolute one
/// stands alone.
pub proof fn law_joined_paths_stand_below(base: Seq<char>, rest: Seq<char>)
    requires
        base.len() > 0,
        rest.len() > 0,
    ensures
        rest[0] == '/' ==> path_joined(base, rest) == rest,
        rest[0] != '/' && base.last() != '/' ==> path_joined(base, rest) == base + seq!['/'] + rest,
        rest[0] != '/' && base.last() == '/' ==> path_joined(base, rest) == base + rest,
{
    reveal_strlit("/");
    assert("/"@ =~= seq!['/']);
    assert(rest.subrange(0, 1) =~= seq![rest[0]]);
    assert(base.subrange(base.len() - 1, base.len() as int) =~= seq![base.last()]);
    assert(seq![rest[0]][0] == rest[0] && seq![base.last()][0] == base.last() && seq!['/'][0] == '/');
}

/// Paths stand in the order of their names, one after the other: behind common names the name that stands
/// first decides, and a directory stands before what lies in it.
pub proof fn law_paths_stand_by_their_names(
    start: Seq<Seq<char>>,
    x: Seq<char>,
    a: Seq<Seq<char>>,
    y: Seq<char>,
    b: Seq<Seq<char>>,
)
    ensures
        x != y ==> (parts_le(named_parts(start + seq![x] + a), named_parts(start + seq![y] + b))
            <==> text_le(x, y)),
        parts_le(named_parts(start), named_parts(start + a)),
        a.len() > 0 ==> !parts_le(named_parts(start + a), named_parts(start)),
    decreases start.len(),
{
    let p = named_parts(start + seq![x] + a);
    let q = named_parts(start + seq![y] + b);
    let s = named_parts(start);
    let l = named_parts(start + a);
    if start.len() == 0 {
        assert((start + seq![x] + a)[0] == x);
        assert((start + seq![y] + b)[0] == y);
        assert(p[0] == (Part { kind: 3, name: x }));
        assert(q[0] == (Part { kind: 3, name: y }));
    } else {
        let rest = start.drop_first();
        law_paths_stand_by_their_names(rest, x, a, y, b);
        assert(p.drop_first() =~= named_parts(rest + seq![x] + a));
        assert(q.drop_first() =~= named_parts(rest + seq![y] + b));
        assert(s.drop_first() =~= named_parts(rest));
        assert(l.drop_first() =~= named_parts(rest + a));
        assert((start + seq![x] + a)[0] == start[0]);
        assert((start + seq![y] + b)[0] == start[0]);
        assert((start + a)[0] == start[0]);
        assert(p[0] == q[0] && s[0] == l[0]);
    }
}

/// Slashes that follow one another count as one, and so does a slash at the end; a step to where one is does
/// not count inside a path, and a step up does.
pub proof fn law_extra_slashes_do_not_count(rest: Seq<char>, first: bool)
    ensures
        parts_from(seq!['/'] + rest, first) == parts_from(rest, false),
        parts_from(Seq::<char>::empty(), first).len() == 0,
        parts_from(seq!['.', '/'] + rest, false) == parts_from(rest, false),
        parts_from(seq!['.', '.', '/'] + rest, first) == seq![Part { kind: 2, name: Seq::empty() }]
            + parts_from(rest, false),
{
    reveal_strlit(".");
    reveal_strlit("..");
    let s = seq!['/'] + rest;
    crate::search::lemma_next_char(s, '/', 0);
    assert(s[0] == '/');
    assert(next_char(s, '/', 0) == 0);
    assert(s.skip(1) =~= rest);
    assert(s.take(0) =~= Seq::<char>::empty());
    let d = seq!['.', '/'] + rest;
    crate::search::lemma_next_char(d, '/', 0);
    assert(d[0] == '.' && d[1] == '/');
    assert(next_char(d, '/', 0) == 1);
    assert(d.skip(2) =~= rest);
    assert(d.take(1) =~= "."@);
    let u = seq!['.', '.', '/'] + rest;
    crate::search::lemma_next_char(u, '/', 0);
    assert(u[0] == '.' && u[1] == '.' && u[2] == '/');
    assert(next_char(u, '/', 0) == 2);
    assert(u.skip(3) =~= rest);
    assert(u.take(2) =~= ".."@);
    assert("."@.len() == 1 && ".."@.len() == 2);
    let none = Seq::<char>::empty();
    crate::search::lemma_next_char(none, '/', 0);
}

} // verus!
