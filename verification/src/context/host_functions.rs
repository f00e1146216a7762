//! Which plugin serves which function of the host.
//!
//! Several plugins may offer to serve the same point. A plugin of the project goes before one of the
//! agent, and that before a managed one; among equals, the one that was found first.

use vstd::prelude::*;
use vstd::string::*;

use crate::order::sorting_order;
#[allow(unused_imports)]
use crate::order::{
    goes_before, is_arrangement, lemma_arrangement_covers, sorts,
    text_le,
};
use crate::text::{cat, push_text, same};
#[allow(unused_imports)]
use crate::text::texts;

verus! {

/// Where a plugin comes from.
#[derive(Clone, Copy, Debug, PartialEq, Eq, Structural)]
pub enum PluginSource {
    Project,
    Agent,
    Managed,
}

/// The word for where a plugin comes from.
pub open spec fn source_word(s: PluginSource) -> Seq<char> {
    match s {
        PluginSource::Project => "project"@,
        PluginSource::Agent => "agent"@,
        PluginSource::Managed => "managed"@,
    }
}

/// The place of a source among the others; the smallest goes first.
pub open spec fn source_rank(s: PluginSource) -> u8 {
    match s {
        PluginSource::Project => 0,
        PluginSource::Agent => 1,
        PluginSource::Managed => 2,
    }
}

impl PluginSource {
    /// The word for where a plugin comes from.
    pub fn as_str(self) -> (r: &'static str)
        ensures
            r@ == source_word(self),
    {
        match self {
            PluginSource::Project => "project",
            PluginSource::Agent => "agent",
            PluginSource::Managed => "managed",
        }
    }
}

/// The place of a source among the others.
pub fn host_function_source_rank(source: PluginSource) -> (r: u8)
    ensures
        r == source_rank(source),
{
    match source {
        PluginSource::Project => 0,
        PluginSource::Agent => 1,
        PluginSource::Managed => 2,
    }
}

/// A function that a plugin offers.
#[derive(Clone, Debug, PartialEq, Eq)]
pub struct ManifestFunction {
    pub point: String,
    pub function: String,
}

/// A plugin of the catalog.
#[derive(Clone, Debug, PartialEq, Eq)]
pub struct CatalogPlugin {
    pub plugin_id: String,
    pub source: PluginSource,
    pub plugin_root: String,
    pub functions: Vec<ManifestFunction>,
}

/// A function that serves a point.
#[derive(Clone, Debug, PartialEq, Eq)]
pub struct RegisteredFunction {
    pub plugin_id: String,
    pub plugin_root: String,
    pub point: String,
    pub function: String,
}

/// An offer to serve a point, as mathematics.
pub ghost struct Offer {
    pub source: PluginSource,
    pub plugin_id: Seq<char>,
    pub plugin_root: Seq<char>,
    pub point: Seq<char>,
    pub function: Seq<char>,
}

/// Whether `f` is what is registered for an offer.
pub open spec fn serves(f: RegisteredFunction, o: Offer) -> bool {
    f.plugin_id@ == o.plugin_id && f.plugin_root@ == o.plugin_root && f.point@ == o.point
        && f.function@ == o.function
}

/// The offers of a plugin.
pub open spec fn offers_of(p: CatalogPlugin) -> Seq<Offer> {
    p.functions@.map_values(
        |f: ManifestFunction|
            Offer {
                source: p.source,
                plugin_id: p.plugin_id@,
                plugin_root: p.plugin_root@,
                point: f.point@,
                function: f.function@,
            },
    )
}

/// The offers of all plugins, in the order in which they are found.
pub open spec fn offers(catalog: Seq<CatalogPlugin>) -> Seq<Offer>
    decreases catalog.len(),
{
    if catalog.len() == 0 {
        Seq::empty()
    } else {
        offers(catalog.drop_last()) + offers_of(catalog.last())
    }
}

/// The ranks of offers.
pub open spec fn ranks(os: Seq<Offer>) -> Seq<u8> {
    os.map_values(|o: Offer| source_rank(o.source))
}

/// The offers in the order `p`.
pub open spec fn ranked(os: Seq<Offer>, p: Seq<usize>) -> Seq<Offer> {
    p.map_values(|i: usize| os[i as int])
}

/// The place of the first offer for a point; the number of offers if there is none.
pub open spec fn first_for(os: Seq<Offer>, point: Seq<char>, from: int) -> int
    decreases os.len() - from,
{
    if from >= os.len() {
        os.len() as int
    } else if os[from].point == point {
        from
    } else {
        first_for(os, point, from + 1)
    }
}

/// Whether the offer at `k` wins its point: no earlier one is for it.
pub open spec fn wins(os: Seq<Offer>, k: int) -> bool {
    0 <= k < os.len() && first_for(os, os[k].point, 0) == k
}

/// What is said about the offer at `k`, which loses its point.
pub open spec fn loss(os: Seq<Offer>, k: int) -> Seq<char> {
    let o = os[k];
    let w = os[first_for(os, o.point, 0)];
    if w.source == o.source {
        "function_point_conflict:"@ + o.point + ":"@ + o.plugin_id + " shadowed_by "@ + w.plugin_id
            + " (source="@ + source_word(o.source) + ", policy=first_wins)"@
    } else {
        "function_point_shadowed:"@ + o.point + ":"@ + source_word(o.source) + ":"@ + o.plugin_id
            + " shadowed_by "@ + source_word(w.source) + ":"@ + w.plugin_id
    }
}

/// What is said about the first `n` offers.
pub open spec fn losses(os: Seq<Offer>, n: int) -> Seq<Seq<char>>
    decreases n,
{
    if n <= 0 {
        Seq::empty()
    } else if wins(os, n - 1) {
        losses(os, n - 1)
    } else {
        losses(os, n - 1).push(loss(os, n - 1))
    }
}

/// Whether `f` is what is registered for an offer that wins.
pub open spec fn is_winner(f: RegisteredFunction, os: Seq<Offer>) -> bool {
    exists|k: int| #[trigger] wins(os, k) && serves(f, os[k])
}

/// Whether `t` is what is registered: the offers that win, each once, in the order of their points.
pub open spec fn is_table(t: Seq<RegisteredFunction>, os: Seq<Offer>) -> bool {
    &&& forall|i: int, j: int|
        0 <= i < j < t.len() ==> text_le((#[trigger] t[i]).point@, (#[trigger] t[j]).point@)
            && t[i].point@ != t[j].point@
    &&& forall|i: int| 0 <= i < t.len() ==> is_winner(#[trigger] t[i], os)
    &&& forall|k: int|
        #[trigger] wins(os, k) ==> exists|i: int| 0 <= i < t.len() && serves(t[i], os[k])
}

/// What is registered, and what is said about the offers that lost.
#[derive(Clone, Debug, PartialEq, Eq)]
pub struct HostFunctions {
    pub functions: Vec<RegisteredFunction>,
    pub warnings: Vec<String>,
}

struct Candidate {
    source: PluginSource,
    registered: RegisteredFunction,
}

impl Candidate {
    spec fn offer(self) -> Offer {
        Offer {
            source: self.source,
            plugin_id: self.registered.plugin_id@,
            plugin_root: self.registered.plugin_root@,
            point: self.registered.point@,
            function: self.registered.function@,
        }
    }
}

spec fn offers_view(v: Seq<Candidate>) -> Seq<Offer> {
    v.map_values(|c: Candidate| c.offer())
}

fn collect_candidates(catalog: &Vec<CatalogPlugin>) -> (r: Vec<Candidate>)
    ensures
        offers_view(r@) == offers(catalog@),
{
    let mut out: Vec<Candidate> = Vec::new();
    let mut i: usize = 0;
    assert(offers_view(out@) =~= offers(catalog@.take(0)));
    while i < catalog.len()
        invariant
            i <= catalog@.len(),
            offers_view(out@) == offers(catalog@.take(i as int)),
        decreases catalog@.len() - i,
    {
        let p = &catalog[i];
        let ghost before = offers_view(out@);
        let ghost own = offers_of(*p);
        let mut k: usize = 0;
        assert(before + own.take(0) =~= before);
        while k < p.functions.len()
            invariant
                k <= p.functions@.len(),
                own == offers_of(*p),
                offers_view(out@) == before + own.take(k as int),
            decreases p.functions@.len() - k,
        {
            let ghost so_far = offers_view(out@);
            let f = &p.functions[k];
            let c = Candidate {
                source: p.source,
                registered: RegisteredFunction {
                    plugin_id: p.plugin_id.clone(),
                    plugin_root: p.plugin_root.clone(),
                    point: f.point.clone(),
                    function: f.function.clone(),
                },
            };
            out.push(c);
            assert(c.offer() == own[k as int]);
            assert(offers_view(out@) =~= so_far.push(c.offer()));
            assert(before + own.take(k + 1) =~= so_far.push(own[k as int]));
            k = k + 1;
        }
        assert(own.take(own.len() as int) =~= own);
        assert(catalog@.take(i + 1).drop_last() =~= catalog@.take(i as int));
        i = i + 1;
    }
    assert(catalog@.take(catalog@.len() as int) =~= catalog@);
    out
}

fn copy_registered(f: &RegisteredFunction) -> (r: RegisteredFunction)
    ensures
        r == *f,
{
    RegisteredFunction {
        plugin_id: f.plugin_id.clone(),
        plugin_root: f.plugin_root.clone(),
        point: f.point.clone(),
        function: f.function.clone(),
    }
}

fn loss_line(o: &Candidate, w: &Candidate) -> (r: String)
    ensures
        r@ == (if w.source == o.source {
            "function_point_conflict:"@ + o.offer().point + ":"@ + o.offer().plugin_id
                + " shadowed_by "@ + w.offer().plugin_id + " (source="@ + source_word(o.source)
                + ", policy=first_wins)"@
        } else {
            "function_point_shadowed:"@ + o.offer().point + ":"@ + source_word(o.source) + ":"@
                + o.offer().plugin_id + " shadowed_by "@ + source_word(w.source) + ":"@
                + w.offer().plugin_id
        }),
{
    if w.source == o.source {
        let mut s = cat("function_point_conflict:", o.registered.point.as_str());
        s.append(":");
        s.append(o.registered.plugin_id.as_str());
        s.append(" shadowed_by ");
        s.append(w.registered.plugin_id.as_str());
        s.append(" (source=");
        s.append(o.source.as_str());
        s.append(", policy=first_wins)");
        s
    } else {
        let mut s = cat("function_point_shadowed:", o.registered.point.as_str());
        s.append(":");
        s.append(o.source.as_str());
        s.append(":");
        s.append(o.registered.plugin_id.as_str());
        s.append(" shadowed_by ");
        s.append(w.source.as_str());
        s.append(":");
        s.append(w.registered.plugin_id.as_str());
        s
    }
}

/// Decides which offer serves which point.
pub fn materialize_host_functions_from_catalog(catalog: &Vec<CatalogPlugin>) -> (r: HostFunctions)
    ensures
        exists|p: Seq<usize>| #[trigger]
            sorts(ranks(offers(catalog@)), p) && is_table(
                r.functions@,
                ranked(offers(catalog@), p),
            ) && texts(r.warnings@) == losses(
                ranked(offers(catalog@), p),
                offers(catalog@).len() as int,
            ),
{
    let cands = collect_candidates(catalog);
    let ghost os = offers(catalog@);
    let n: usize = cands.len();
    assert(os.len() == n);
    let mut keys: Vec<u8> = Vec::new();
    let mut i: usize = 0;
    while i < n
        invariant
            i <= n,
            n == cands@.len(),
            os == offers_view(cands@),
            keys@ == ranks(os).take(i as int),
        decreases n - i,
    {
        assert(os[i as int] == cands@[i as int].offer());
        keys.push(host_function_source_rank(cands[i].source));
        assert(ranks(os).take(i + 1) =~= ranks(os).take(i as int).push(ranks(os)[i as int]));
        i = i + 1;
    }
    assert(ranks(os).take(n as int) =~= ranks(os));
    let p = sorting_order(&keys);
    let ghost rk = ranked(os, p@);
    let mut win: Vec<usize> = Vec::new();
    let mut points: Vec<String> = Vec::new();
    let mut warnings: Vec<String> = Vec::new();
    let mut k: usize = 0;
    assert(texts(warnings@) =~= losses(rk, 0));
    while k < n
        invariant
            k <= n,
            n == cands@.len(),
            n == p@.len(),
            os == offers_view(cands@),
            os.len() == n,
            rk == ranked(os, p@),
            is_arrangement(p@, n as nat),
            texts(warnings@) == losses(rk, k as int),
            points@.len() == win@.len(),
            forall|a: int|
                0 <= a < win@.len() ==> wins(rk, (#[trigger] win@[a]) as int) && win@[a] < k
                    && points@[a]@ == rk[win@[a] as int].point,
            forall|a: int, b: int|
                0 <= a < b < win@.len() ==> (#[trigger] win@[a]) < (#[trigger] win@[b]),
            forall|j: int|
                0 <= j < k && #[trigger] wins(rk, j) ==> exists|a: int|
                    0 <= a < win@.len() && win@[a] == j,
        decreases n - k,
    {
        assert(p@[k as int] < n);
        let c = &cands[p[k]];
        assert(rk[k as int] == c.offer());
        let mut j: usize = 0;
        while j < k && !same(cands[p[j]].registered.point.as_str(), c.registered.point.as_str())
            invariant
                j <= k < n,
                n == cands@.len(),
                n == p@.len(),
                os == offers_view(cands@),
                rk == ranked(os, p@),
                is_arrangement(p@, n as nat),
                rk[k as int] == c.offer(),
                first_for(rk, c.registered.point@, j as int) == first_for(
                    rk,
                    c.registered.point@,
                    0,
                ),
            decreases k - j,
        {
            assert(p@[j as int] < n);
            assert(rk[j as int] == cands@[p@[j as int] as int].offer());
            j = j + 1;
        }
        let ghost before = win@;
        if j < k {
            assert(p@[j as int] < n);
            assert(rk[j as int] == cands@[p@[j as int] as int].offer());
            assert(first_for(rk, c.registered.point@, 0) == j);
            let w = &cands[p[j]];
            push_text(&mut warnings, loss_line(c, w));
        } else {
            assert(first_for(rk, c.registered.point@, k as int) == k);
            assert(wins(rk, k as int));
            win.push(k);
            points.push(c.registered.point.clone());
        }
        assert forall|q: int| 0 <= q < k + 1 && #[trigger] wins(rk, q) implies exists|a: int|
            0 <= a < win@.len() && win@[a] == q by {
            if q < k {
                let a = choose|a: int| 0 <= a < before.len() && before[a] == q;
                assert(win@[a] == q);
            } else {
                assert(win@[win@.len() - 1] == q);
            }
        }
        k = k + 1;
    }
    let q = sorting_order(&points);
    let mut functions: Vec<RegisteredFunction> = Vec::new();
    let mut m: usize = 0;
    while m < q.len()
        invariant
            m <= q@.len(),
            n == cands@.len(),
            n == p@.len(),
            os == offers_view(cands@),
            os.len() == n,
            rk == ranked(os, p@),
            is_arrangement(p@, n as nat),
            is_arrangement(q@, win@.len()),
            points@.len() == win@.len(),
            forall|a: int|
                0 <= a < win@.len() ==> wins(rk, (#[trigger] win@[a]) as int) && points@[a]@
                    == rk[win@[a] as int].point,
            functions@.len() == m,
            forall|a: int|
                0 <= a < m ==> serves(#[trigger] functions@[a], rk[win@[q@[a] as int] as int]),
        decreases q@.len() - m,
    {
        assert(q@[m as int] < win@.len());
        let place = win[q[m]];
        assert(wins(rk, win@[q@[m as int] as int] as int));
        assert(p@[place as int] < n);
        let c = &cands[p[place]];
        assert(rk[place as int] == c.offer());
        functions.push(copy_registered(&c.registered));
        m = m + 1;
    }
    proof {
        assert forall|a: int, b: int| 0 <= a < b < functions@.len() implies text_le(
            (#[trigger] functions@[a]).point@,
            (#[trigger] functions@[b]).point@,
        ) && functions@[a].point@ != functions@[b].point@ by {
            assert(goes_before(points@, q@[a] as int, q@[b] as int));
            assert(q@[a] != q@[b]);
            let x = q@[a] as int;
            let y = q@[b] as int;
            assert(wins(rk, win@[x] as int) && wins(rk, win@[y] as int));
            if functions@[a].point@ == functions@[b].point@ {
                assert(win@[x] == win@[y]);
                if x < y {
                    assert(win@[x] < win@[y]);
                } else {
                    assert(win@[y] < win@[x]);
                }
            }
        }
        assert forall|a: int| 0 <= a < functions@.len() implies is_winner(
            #[trigger] functions@[a],
            rk,
        ) by {
            let j = win@[q@[a] as int] as int;
            assert(wins(rk, j));
            assert(serves(functions@[a], rk[j]));
        }
        assert forall|j: int| #[trigger] wins(rk, j) implies exists|a: int|
            0 <= a < functions@.len() && serves(functions@[a], rk[j]) by {
            let a = choose|a: int| 0 <= a < win@.len() && win@[a] == j;
            lemma_arrangement_covers(q@, win@.len(), a);
            let b = choose|b: int| 0 <= b < q@.len() && #[trigger] q@[b] == a;
            assert(serves(functions@[b], rk[win@[q@[b] as int] as int]));
        }
        assert(is_table(functions@, rk));
        assert(sorts(ranks(os), p@));
    }
    HostFunctions { functions, warnings }
}

// ---------------------------------------------------------------- laws

proof fn lemma_first_for(os: Seq<Offer>, point: Seq<char>, from: int)
    requires
        0 <= from <= os.len(),
    ensures
        from <= first_for(os, point, from) <= os.len(),
        first_for(os, point, from) < os.len() ==> os[first_for(os, point, from)].point == point,
        forall|j: int| from <= j < first_for(os, point, from) ==> (#[trigger] os[j]).point != point,
    decreases os.len() - from,
{
    if from < os.len() && os[from].point != point {
        lemma_first_for(os, point, from + 1);
    }
}

/// Every point that is offered is served, and by an offer that no other offer for it goes before: a
/// plugin of the project is never shadowed by one of the agent or a managed one.
pub proof fn law_nearest_source_wins(os: Seq<Offer>, p: Seq<usize>, k: int)
    requires
        sorts(ranks(os), p),
        0 <= k < ranked(os, p).len(),
    ensures
        ({
            let rk = ranked(os, p);
            let w = first_for(rk, rk[k].point, 0);
            &&& wins(rk, w)
            &&& rk[w].point == rk[k].point
            &&& source_rank(rk[w].source) <= source_rank(rk[k].source)
        }),
{
    let rk = ranked(os, p);
    let point = rk[k].point;
    lemma_first_for(rk, point, 0);
    let w = first_for(rk, point, 0);
    assert(w <= k);
    assert(p[w] < os.len() && p[k] < os.len());
    if w < k {
        assert(goes_before(ranks(os), p[w] as int, p[k] as int));
        assert(ranks(os)[p[w] as int] == source_rank(rk[w].source));
        assert(ranks(os)[p[k] as int] == source_rank(rk[k].source));
    }
}

/// Every function of every plugin is offered, in the order of the catalog and of the manifest, with the
/// plugin that brings it.
pub proof fn law_every_function_is_offered(a: Seq<CatalogPlugin>, p: CatalogPlugin, b: Seq<CatalogPlugin>)
    ensures
        offers(a + seq![p] + b) == offers(a) + offers_of(p) + offers(b),
        offers_of(p).len() == p.functions@.len(),
        forall|i: int| 0 <= i < p.functions@.len() ==> {
            let o = #[trigger] offers_of(p)[i];
            &&& o.point == p.functions@[i].point@
            &&& o.function == p.functions@[i].function@
            &&& o.plugin_id == p.plugin_id@
            &&& o.plugin_root == p.plugin_root@
            &&& o.source == p.source
        },
    decreases b.len(),
{
    let all = a + seq![p] + b;
    if b.len() == 0 {
        assert(all.drop_last() =~= a);
        assert(offers(all) =~= offers(a) + offers_of(p) + offers(b));
    } else {
        law_every_function_is_offered(a, p, b.drop_last());
        assert(all.drop_last() =~= a + seq![p] + b.drop_last());
        assert(all.last() == b.last());
        assert(offers(all) =~= offers(a) + offers_of(p) + offers(b));
    }
}

/// An offer serves its point exactly if no offer before it is for the same point.
pub proof fn law_first_offer_serves(os: Seq<Offer>, k: int)
    ensures
        wins(os, k) <==> 0 <= k < os.len() && forall|j: int|
            0 <= j < k ==> (#[trigger] os[j]).point != os[k].point,
{
    if 0 <= k < os.len() {
        lemma_first_for(os, os[k].point, 0);
    }
}

/// There is a warning for every offer that does not serve, and for no other, in their order.
#[verifier::rlimit(40)]
#[verifier::spinoff_prover]
pub proof fn law_every_lost_offer_is_told(os: Seq<Offer>, n: int)
    requires
        0 <= n < os.len(),
    ensures
        losses(os, 0).len() == 0,
        wins(os, n) ==> losses(os, n + 1) == losses(os, n),
        !wins(os, n) ==> losses(os, n + 1) == losses(os, n).push(loss(os, n)),
        crate::search::has_text(loss(os, n), os[n].point),
        crate::search::has_text(loss(os, n), os[n].plugin_id),
{
    let o = os[n];
    let w = os[first_for(os, o.point, 0)];
    let l = loss(os, n);
    crate::search::lemma_text_in_itself(o.point);
    crate::search::lemma_text_in_itself(o.plugin_id);
    if w.source == o.source {
        let tail = " shadowed_by "@ + w.plugin_id + " (source="@ + source_word(o.source)
            + ", policy=first_wins)"@;
        let mid = ":"@ + o.plugin_id + tail;
        crate::search::lemma_text_within("function_point_conflict:"@, o.point, mid, o.point);
        assert(l =~= "function_point_conflict:"@ + o.point + mid);
        let front = "function_point_conflict:"@ + o.point + ":"@;
        crate::search::lemma_text_within(front, o.plugin_id, tail, o.plugin_id);
        assert(l =~= front + o.plugin_id + tail);
    } else {
        let tail = " shadowed_by "@ + source_word(w.source) + ":"@ + w.plugin_id;
        let mid = ":"@ + source_word(o.source) + ":"@ + o.plugin_id + tail;
        crate::search::lemma_text_within("function_point_shadowed:"@, o.point, mid, o.point);
        assert(l =~= "function_point_shadowed:"@ + o.point + mid);
        let front = "function_point_shadowed:"@ + o.point + ":"@ + source_word(o.source) + ":"@;
        crate::search::lemma_text_within(front, o.plugin_id, tail, o.plugin_id);
        assert(l =~= front + o.plugin_id + tail);
    }
}

/// The nearer source goes first: the project before the agent, and the agent before what is managed.
pub proof fn law_nearer_sources_go_first()
    ensures
        source_rank(PluginSource::Project) < source_rank(PluginSource::Agent),
        source_rank(PluginSource::Agent) < source_rank(PluginSource::Managed),
{
}

/// The table names every point that is offered exactly once, in order, with the offer that serves it.
pub proof fn law_table_serves_every_point(t: Seq<RegisteredFunction>, os: Seq<Offer>, k: int)
    requires
        is_table(t, os),
        0 <= k < os.len(),
        forall|j: int| 0 <= j < k ==> (#[trigger] os[j]).point != os[k].point,
    ensures
        exists|i: int|
            0 <= i < t.len() && (#[trigger] t[i]).point@ == os[k].point && t[i].plugin_id@ == os[k].plugin_id
                && t[i].function@ == os[k].function && t[i].plugin_root@ == os[k].plugin_root,
        forall|i: int, j: int|
            0 <= i < j < t.len() ==> (#[trigger] t[i]).point@ != (#[trigger] t[j]).point@,
{
    law_first_offer_serves(os, k);
    assert(wins(os, k));
    let i = choose|i: int| 0 <= i < t.len() && serves(t[i], os[k]);
    assert(t[i].point@ == os[k].point);
}

} // verus!
