//! The order of texts, and sorting by it.

use vstd::prelude::*;

use crate::text::chars_of;

verus! {

/// Whether `a` stands before `b`, or is the same: the order of their characters, one by one, with
/// a text before those that go on longer.
pub open spec fn text_le(a: Seq<char>, b: Seq<char>) -> bool
    decreases a.len(),
{
    if a.len() == 0 {
        true
    } else if b.len() == 0 {
        false
    } else if a[0] != b[0] {
        a[0] < b[0]
    } else {
        text_le(a.drop_first(), b.drop_first())
    }
}

/// Every text stands before or with itself.
pub proof fn lemma_text_le_reflexive(a: Seq<char>)
    ensures
        text_le(a, a),
    decreases a.len(),
{
    if a.len() > 0 {
        lemma_text_le_reflexive(a.drop_first());
    }
}

/// Of two texts one stands before or with the other.
pub proof fn lemma_text_le_total(a: Seq<char>, b: Seq<char>)
    ensures
        text_le(a, b) || text_le(b, a),
    decreases a.len(),
{
    if a.len() > 0 && b.len() > 0 && a[0] == b[0] {
        lemma_text_le_total(a.drop_first(), b.drop_first());
    }
}

/// Two texts that each stand before or with the other are the same.
pub proof fn lemma_text_le_antisymmetric(a: Seq<char>, b: Seq<char>)
    requires
        text_le(a, b),
        text_le(b, a),
    ensures
        a == b,
    decreases a.len(),
{
    if a.len() > 0 && b.len() > 0 && a[0] == b[0] {
        lemma_text_le_antisymmetric(a.drop_first(), b.drop_first());
        assert(a =~= seq![a[0]] + a.drop_first());
        assert(b =~= seq![b[0]] + b.drop_first());
    } else {
        assert(a =~= b);
    }
}

/// The order of texts carries on.
pub proof fn lemma_text_le_transitive(a: Seq<char>, b: Seq<char>, c: Seq<char>)
    requires
        text_le(a, b),
        text_le(b, c),
    ensures
        text_le(a, c),
    decreases a.len(),
{
    if a.len() > 0 && b.len() > 0 && c.len() > 0 && a[0] == b[0] && b[0] == c[0] {
        lemma_text_le_transitive(a.drop_first(), b.drop_first(), c.drop_first());
    }
}

/// Whether `a` stands before `b`, or is the same.
pub fn le(a: &str, b: &str) -> (r: bool)
    ensures
        r == text_le(a@, b@),
{
    let x = chars_of(a);
    let y = chars_of(b);
    let mut i: usize = 0;
    assert(x@.skip(0) =~= x@);
    assert(y@.skip(0) =~= y@);
    while i < x.len()
        invariant
            i <= x@.len(),
            i <= y@.len(),
            x@ == a@,
            y@ == b@,
            text_le(x@.skip(i as int), y@.skip(i as int)) == text_le(a@, b@),
        decreases x@.len() - i,
    {
        if i >= y.len() {
            return false;
        }
        assert(x@.skip(i as int).drop_first() =~= x@.skip(i + 1));
        assert(y@.skip(i as int).drop_first() =~= y@.skip(i + 1));
        if x[i] != y[i] {
            return x[i] < y[i];
        }
        i = i + 1;
    }
    true
}

/// Values with an order in which any two can be compared.
pub trait Ranked: Sized {
    /// Whether `a` stands before `b`, or with it.
    spec fn before_or_with(a: Self, b: Self) -> bool;

    /// Of two values one stands before or with the other.
    proof fn total(a: Self, b: Self)
        ensures
            Self::before_or_with(a, b) || Self::before_or_with(b, a),
    ;

    /// The order carries on.
    proof fn transitive(a: Self, b: Self, c: Self)
        requires
            Self::before_or_with(a, b),
            Self::before_or_with(b, c),
        ensures
            Self::before_or_with(a, c),
    ;

    /// Whether `self` stands before `other`, or with it.
    fn is_before_or_with(&self, other: &Self) -> (r: bool)
        ensures
            r == Self::before_or_with(*self, *other),
    ;
}

impl Ranked for String {
    open spec fn before_or_with(a: String, b: String) -> bool {
        text_le(a@, b@)
    }

    proof fn total(a: String, b: String) {
        lemma_text_le_total(a@, b@);
    }

    proof fn transitive(a: String, b: String, c: String) {
        lemma_text_le_transitive(a@, b@, c@);
    }

    fn is_before_or_with(&self, other: &String) -> (r: bool) {
        le(self.as_str(), other.as_str())
    }
}

impl Ranked for u8 {
    open spec fn before_or_with(a: u8, b: u8) -> bool {
        a <= b
    }

    proof fn total(a: u8, b: u8) {
    }

    proof fn transitive(a: u8, b: u8, c: u8) {
    }

    fn is_before_or_with(&self, other: &u8) -> (r: bool) {
        *self <= *other
    }
}

/// Whether `p` names each of the places below `n` once.
pub open spec fn is_arrangement(p: Seq<usize>, n: nat) -> bool {
    &&& p.len() == n
    &&& forall|i: int| 0 <= i < n ==> 0 <= #[trigger] p[i] < n
    &&& forall|i: int, j: int| 0 <= i < j < n ==> #[trigger] p[i] != #[trigger] p[j]
}

/// Whether the place `a` comes before the place `b` when `keys` are sorted and keys that stand
/// together keep their order.
pub open spec fn goes_before<K: Ranked>(keys: Seq<K>, a: int, b: int) -> bool {
    K::before_or_with(keys[a], keys[b]) && (K::before_or_with(keys[b], keys[a]) ==> a < b)
}

/// Whether taking the places in the order of `p` sorts `keys`, with keys that stand together in
/// the order they have.
pub open spec fn sorts<K: Ranked>(keys: Seq<K>, p: Seq<usize>) -> bool {
    &&& is_arrangement(p, keys.len())
    &&& forall|i: int, j: int|
        0 <= i < j < p.len() ==> goes_before(keys, #[trigger] p[i] as int, #[trigger] p[j] as int)
}

/// The places of `keys` in the order that sorts them, keys that stand together in the order they
/// have.
pub fn sorting_order<K: Ranked>(keys: &Vec<K>) -> (p: Vec<usize>)
    ensures
        sorts(keys@, p@),
{
    let mut p: Vec<usize> = Vec::new();
    let mut n: usize = 0;
    while n < keys.len()
        invariant
            n <= keys@.len(),
            is_arrangement(p@, n as nat),
            forall|i: int, j: int|
                0 <= i < j < n ==> goes_before(
                    keys@,
                    #[trigger] p@[i] as int,
                    #[trigger] p@[j] as int,
                ),
        decreases keys@.len() - n,
    {
        let mut k: usize = n;
        while k > 0 && !keys[p[k - 1]].is_before_or_with(&keys[n])
            invariant
                k <= n < keys@.len(),
                is_arrangement(p@, n as nat),
                forall|i: int|
                    k <= i < n ==> !K::before_or_with(
                        keys@[#[trigger] p@[i] as int],
                        keys@[n as int],
                    ),
            decreases k,
        {
            k = k - 1;
        }
        let ghost before = p@;
        p.insert(k, n);
        proof {
            lemma_inserted(keys@, before, p@, n, k as int);
        }
        n = n + 1;
    }
    p
}

proof fn lemma_inserted<K: Ranked>(
    keys: Seq<K>,
    before: Seq<usize>,
    p: Seq<usize>,
    n: usize,
    k: int,
)
    requires
        0 <= k <= n < keys.len(),
        p == before.insert(k, n),
        is_arrangement(before, n as nat),
        forall|i: int, j: int|
            0 <= i < j < n ==> goes_before(
                keys,
                #[trigger] before[i] as int,
                #[trigger] before[j] as int,
            ),
        k > 0 ==> K::before_or_with(keys[before[k - 1] as int], keys[n as int]),
        forall|i: int|
            k <= i < n ==> !K::before_or_with(keys[#[trigger] before[i] as int], keys[n as int]),
    ensures
        is_arrangement(p, (n + 1) as nat),
        forall|i: int, j: int|
            0 <= i < j < n + 1 ==> goes_before(
                keys,
                #[trigger] p[i] as int,
                #[trigger] p[j] as int,
            ),
{
    assert forall|i: int| 0 <= i < n + 1 implies 0 <= #[trigger] p[i] < n + 1 by {
        if i < k {
            assert(p[i] == before[i]);
        } else if i > k {
            assert(p[i] == before[i - 1]);
        }
    }
    assert forall|i: int, j: int| 0 <= i < j < n + 1 implies #[trigger] p[i] != #[trigger] p[j] by {
        if i < k {
            assert(p[i] == before[i]);
        } else if i > k {
            assert(p[i] == before[i - 1]);
        }
        if j < k {
            assert(p[j] == before[j]);
        } else if j > k {
            assert(p[j] == before[j - 1]);
        }
    }
    assert forall|i: int, j: int| 0 <= i < j < n + 1 implies goes_before(
        keys,
        #[trigger] p[i] as int,
        #[trigger] p[j] as int,
    ) by {
        if j == k {
            // Everything up to the gap stands before or with the new key.
            assert(p[i] == before[i]);
            assert(before[i] < n);
            if i < k - 1 {
                assert(goes_before(keys, before[i] as int, before[k - 1] as int));
                K::transitive(
                    keys[before[i] as int],
                    keys[before[k - 1] as int],
                    keys[n as int],
                );
            }
        } else if i == k {
            assert(p[j] == before[j - 1]);
            K::total(keys[before[j - 1] as int], keys[n as int]);
        } else {
            let a = if i < k {
                i
            } else {
                i - 1
            };
            let b = if j < k {
                j
            } else {
                j - 1
            };
            assert(p[i] == before[a]);
            assert(p[j] == before[b]);
            assert(goes_before(keys, before[a] as int, before[b] as int));
        }
    }
}

/// An arrangement of the places below `n` names every one of them.
pub proof fn lemma_arrangement_covers(p: Seq<usize>, n: nat, f: int)
    requires
        is_arrangement(p, n),
        0 <= f < n,
    ensures
        exists|m: int| 0 <= m < p.len() && #[trigger] p[m] == f,
{
    if forall|m: int| 0 <= m < p.len() ==> #[trigger] p[m] != f {
        // All `n` places would then be among the `n - 1` others.
        let named = p.map_values(|x: usize| x as int);
        assert(named.no_duplicates()) by {
            assert forall|i: int, j: int| 0 <= i < named.len() && 0 <= j < named.len() && i
                != j implies named[i] != named[j] by {
                if i < j {
                    assert(p[i] != p[j]);
                } else {
                    assert(p[j] != p[i]);
                }
            }
        }
        named.unique_seq_to_set();
        let below = vstd::set_lib::set_int_range(0, n as int);
        vstd::set_lib::lemma_int_range(0, n as int);
        let others = below.remove(f);
        assert(named.to_set().subset_of(others)) by {
            assert forall|x: int| named.to_set().contains(x) implies others.contains(x) by {
                let i = choose|i: int| 0 <= i < named.len() && named[i] == x;
                assert(p[i] != f);
            }
        }
        vstd::set_lib::lemma_len_subset(named.to_set(), others);
        assert(false);
    }
}

/// Texts stand in the order of their characters: behind a common start the smaller character decides, and
/// a text stands before those that go on longer.
pub proof fn law_texts_stand_by_their_characters(
    start: Seq<char>,
    x: char,
    a: Seq<char>,
    y: char,
    b: Seq<char>,
)
    ensures
        x != y ==> (text_le(start + seq![x] + a, start + seq![y] + b) <==> x < y),
        text_le(start, start + a),
        a.len() > 0 ==> !text_le(start + a, start),
    decreases start.len(),
{
    let s = start + seq![x] + a;
    let t = start + seq![y] + b;
    if start.len() == 0 {
        assert(s[0] == x && t[0] == y);
    } else {
        let rest = start.drop_first();
        law_texts_stand_by_their_characters(rest, x, a, y, b);
        assert(s.drop_first() =~= rest + seq![x] + a);
        assert(t.drop_first() =~= rest + seq![y] + b);
        assert((start + a).drop_first() =~= rest + a);
        assert(s[0] == start[0] && t[0] == start[0] && (start + a)[0] == start[0]);
    }
}

/// Sorted texts ascend: each stands before or with those that follow, and no place is left out or taken
/// twice.
pub proof fn law_sorted_texts_ascend(keys: Seq<String>, p: Seq<usize>, i: int, j: int)
    requires
        sorts(keys, p),
        0 <= i < j < p.len(),
    ensures
        p.len() == keys.len(),
        p[i] < keys.len() && p[j] < keys.len(),
        p[i] != p[j],
        text_le(keys[p[i] as int]@, keys[p[j] as int]@),
        keys[p[i] as int]@ == keys[p[j] as int]@ ==> p[i] < p[j],
{
    assert(goes_before(keys, p[i] as int, p[j] as int));
    lemma_text_le_reflexive(keys[p[i] as int]@);
}

/// Sorted numbers ascend, and equal ones keep their order.
pub proof fn law_sorted_numbers_ascend(keys: Seq<u8>, p: Seq<usize>, i: int, j: int)
    requires
        sorts(keys, p),
        0 <= i < j < p.len(),
    ensures
        p.len() == keys.len(),
        p[i] < keys.len() && p[j] < keys.len(),
        keys[p[i] as int] <= keys[p[j] as int],
        keys[p[i] as int] == keys[p[j] as int] ==> p[i] < p[j],
{
    assert(goes_before(keys, p[i] as int, p[j] as int));
}

} // verus!
