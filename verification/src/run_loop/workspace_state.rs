//! What the model is told of the directories it may use.

use vstd::prelude::*;
use vstd::string::*;

use crate::text::{copy_opt, same, trim};
#[allow(unused_imports)]
use crate::text::{opt_text, texts, trimmed};

verus! {

/// How a rule restricts a path.
#[derive(Clone, Copy, Debug, PartialEq, Eq, Structural)]
pub enum PathRuleMode {
    Deny,
    Readonly,
}

/// A rule for a path.
#[derive(Clone, Debug, PartialEq, Eq)]
pub struct PathRule {
    pub path: String,
    pub mode: PathRuleMode,
}

/// What the configuration says of a directory.
#[derive(Clone, Debug, PartialEq, Eq)]
pub struct WorkspaceEntry {
    pub path: String,
    /// The path in its normal form, if it has one.
    pub normalized: Option<String>,
    pub alias: Option<String>,
    pub description: Option<String>,
}

/// What is known of the directories.
#[derive(Clone, Debug, PartialEq, Eq)]
pub struct WorkspaceFacts {
    pub agent_definition_dir: String,
    pub workspace_roots: Vec<String>,
    pub agent_plans_dir: Option<String>,
    /// The directories of the agent that are read only; some may be unknown.
    pub trail_dirs: Vec<Option<String>>,
    pub entries: Vec<WorkspaceEntry>,
    /// What was allowed for the session.
    pub session_grants: Vec<String>,
    /// What may be read and written.
    pub read_write: Vec<String>,
    /// What may be read.
    pub read_only: Vec<String>,
    /// The paths that the user has rules for.
    pub user_rule_paths: Vec<String>,
    /// All rules that hold.
    pub rules: Vec<PathRule>,
}

/// A directory that may be used.
#[derive(Clone, Debug, PartialEq, Eq)]
pub struct WorkspaceRootDescriptor {
    pub path: String,
    pub label: String,
    pub alias: Option<String>,
    pub description: Option<String>,
}

/// A directory that may be used, as mathematics.
pub ghost struct Root {
    pub path: Seq<char>,
    pub label: Seq<char>,
    pub alias: Option<Seq<char>>,
    pub description: Option<Seq<char>>,
}

impl View for WorkspaceRootDescriptor {
    type V = Root;

    open spec fn view(&self) -> Root {
        Root {
            path: self.path@,
            label: self.label@,
            alias: opt_text(self.alias),
            description: opt_text(self.description),
        }
    }
}

/// The directories of a list.
pub open spec fn roots(v: Seq<WorkspaceRootDescriptor>) -> Seq<Root> {
    v.map_values(|d: WorkspaceRootDescriptor| d@)
}

/// A rule, in words.
#[derive(Clone, Debug, PartialEq, Eq)]
pub struct PathRuleSummary {
    pub path: String,
    pub mode: String,
    /// Whether the rule is not the user's.
    pub builtin: bool,
}

/// What the model is told.
#[derive(Clone, Debug, PartialEq, Eq)]
pub struct WorkspaceState {
    pub read_write: Vec<WorkspaceRootDescriptor>,
    pub read_only: Vec<WorkspaceRootDescriptor>,
    pub path_rules: Vec<PathRuleSummary>,
}

/// The texts of a list, each where it stands first.
pub open spec fn firsts(s: Seq<Seq<char>>) -> Seq<Seq<char>>
    decreases s.len(),
{
    if s.len() == 0 {
        Seq::empty()
    } else if s.drop_last().contains(s.last()) {
        firsts(s.drop_last())
    } else {
        firsts(s.drop_last()).push(s.last())
    }
}

/// The path that an entry is about.
pub open spec fn entry_key(e: WorkspaceEntry) -> Seq<char> {
    match e.normalized {
        Some(n) => n@,
        None => e.path@,
    }
}

/// The last entry about a path; an entry without a path is about nothing.
pub open spec fn entry_for(entries: Seq<WorkspaceEntry>, path: Seq<char>) -> Option<WorkspaceEntry>
    decreases entries.len(),
{
    if entries.len() == 0 {
        None
    } else {
        let e = entries.last();
        if trimmed(e.path@).len() > 0 && entry_key(e) == path {
            Some(e)
        } else {
            entry_for(entries.drop_last(), path)
        }
    }
}

/// What a directory that may be written is called.
pub open spec fn writable_label(f: WorkspaceFacts, path: Seq<char>) -> Seq<char> {
    if path == f.agent_definition_dir@ {
        "agent_definition_dir"@
    } else if texts(f.workspace_roots@).contains(path) {
        "agent_workspace_root"@
    } else if texts(f.session_grants@).contains(path) {
        "session_grant"@
    } else {
        "workspace_root"@
    }
}

/// Whether a path is one of the agent's own directories.
pub open spec fn is_trail(f: WorkspaceFacts, path: Seq<char>) -> bool {
    exists|i: int| 0 <= i < f.trail_dirs@.len() && opt_text(#[trigger] f.trail_dirs@[i]) == Some(path)
}

/// What a directory that may only be read is called.
pub open spec fn readable_label(f: WorkspaceFacts, path: Seq<char>) -> Seq<char> {
    if is_trail(f, path) {
        "agent_trail_dir"@
    } else if opt_text(f.agent_plans_dir) == Some(path) {
        "agent_plans_dir"@
    } else {
        "path_rule_readonly"@
    }
}

/// A directory that may be written, with what the configuration says of it.
pub open spec fn writable_root(f: WorkspaceFacts, path: Seq<char>) -> Root {
    match entry_for(f.entries@, path) {
        Some(e) => Root {
            path,
            label: writable_label(f, path),
            alias: opt_text(e.alias),
            description: opt_text(e.description),
        },
        None => Root { path, label: writable_label(f, path), alias: None, description: None },
    }
}

/// A directory that may only be read.
pub open spec fn readable_root(f: WorkspaceFacts, path: Seq<char>) -> Root {
    Root { path, label: readable_label(f, path), alias: None, description: None }
}

/// The word for how a rule restricts.
pub open spec fn rule_word(m: PathRuleMode) -> Seq<char> {
    match m {
        PathRuleMode::Deny => "deny"@,
        PathRuleMode::Readonly => "readonly"@,
    }
}

/// Whether `s` is the rule `r` in words.
pub open spec fn is_summary(s: PathRuleSummary, r: PathRule, f: WorkspaceFacts) -> bool {
    &&& s.path@ == r.path@
    &&& s.mode@ == rule_word(r.mode)
    &&& s.builtin == !texts(f.user_rule_paths@).contains(r.path@)
}

/// Whether `w` is what the model is told of what is known.
pub open spec fn is_state_of(w: WorkspaceState, f: WorkspaceFacts) -> bool {
    &&& roots(w.read_write@) == firsts(texts(f.read_write@)).map_values(
        |p: Seq<char>| writable_root(f, p),
    )
    &&& roots(w.read_only@) == firsts(texts(f.read_only@)).map_values(
        |p: Seq<char>| readable_root(f, p),
    )
    &&& w.path_rules@.len() == f.rules@.len()
    &&& forall|i: int|
        0 <= i < w.path_rules@.len() ==> is_summary(#[trigger] w.path_rules@[i], f.rules@[i], f)
}

fn holds(list: &Vec<String>, n: usize, path: &str) -> (r: bool)
    requires
        n <= list@.len(),
    ensures
        r == texts(list@).take(n as int).contains(path@),
{
    let ghost all = texts(list@).take(n as int);
    let mut i: usize = 0;
    while i < n
        invariant
            i <= n <= list@.len(),
            all == texts(list@).take(n as int),
            forall|j: int| 0 <= j < i ==> (#[trigger] all[j]) != path@,
        decreases n - i,
    {
        assert(all[i as int] == list@[i as int]@);
        if same(list[i].as_str(), path) {
            return true;
        }
        i = i + 1;
    }
    false
}

fn is_in(list: &Vec<String>, path: &str) -> (r: bool)
    ensures
        r == texts(list@).contains(path@),
{
    assert(texts(list@).take(list@.len() as int) =~= texts(list@));
    holds(list, list.len(), path)
}

fn find_entry(entries: &Vec<WorkspaceEntry>, path: &str) -> (r: Option<usize>)
    ensures
        match r {
            Some(i) => i < entries@.len() && entry_for(entries@, path@) == Some(entries@[i as int]),
            None => entry_for(entries@, path@) is None,
        },
{
    let mut n: usize = entries.len();
    assert(entries@.take(n as int) =~= entries@);
    while n > 0
        invariant
            n <= entries@.len(),
            entry_for(entries@.take(n as int), path@) == entry_for(entries@, path@),
        decreases n,
    {
        assert(entries@.take(n as int).drop_last() =~= entries@.take(n - 1));
        assert(entries@.take(n as int).last() == entries@[n - 1]);
        let e = &entries[n - 1];
        let words = trim(e.path.as_str());
        if !words.as_str().is_empty() {
            let about: &str = match &e.normalized {
                Some(k) => k.as_str(),
                None => e.path.as_str(),
            };
            if same(about, path) {
                return Some(n - 1);
            }
        }
        n = n - 1;
    }
    None
}

fn describe_writable(f: &WorkspaceFacts, path: &str) -> (r: WorkspaceRootDescriptor)
    ensures
        r@ == writable_root(*f, path@),
{
    let label: &str = if same(path, f.agent_definition_dir.as_str()) {
        "agent_definition_dir"
    } else if is_in(&f.workspace_roots, path) {
        "agent_workspace_root"
    } else if is_in(&f.session_grants, path) {
        "session_grant"
    } else {
        "workspace_root"
    };
    match find_entry(&f.entries, path) {
        Some(i) => WorkspaceRootDescriptor {
            path: path.to_owned(),
            label: label.to_owned(),
            alias: copy_opt(&f.entries[i].alias),
            description: copy_opt(&f.entries[i].description),
        },
        None => WorkspaceRootDescriptor {
            path: path.to_owned(),
            label: label.to_owned(),
            alias: None,
            description: None,
        },
    }
}

fn is_own(f: &WorkspaceFacts, path: &str) -> (r: bool)
    ensures
        r == is_trail(*f, path@),
{
    let mut i: usize = 0;
    while i < f.trail_dirs.len()
        invariant
            i <= f.trail_dirs@.len(),
            forall|j: int|
                0 <= j < i ==> opt_text(#[trigger] f.trail_dirs@[j]) != Some(path@),
        decreases f.trail_dirs@.len() - i,
    {
        if let Some(d) = &f.trail_dirs[i] {
            if same(d.as_str(), path) {
                assert(opt_text(f.trail_dirs@[i as int]) == Some(path@));
                return true;
            }
        }
        i = i + 1;
    }
    false
}

fn describe_readable(f: &WorkspaceFacts, path: &str) -> (r: WorkspaceRootDescriptor)
    ensures
        r@ == readable_root(*f, path@),
{
    let is_plans = match &f.agent_plans_dir {
        Some(d) => same(d.as_str(), path),
        None => false,
    };
    let label: &str = if is_own(f, path) {
        "agent_trail_dir"
    } else if is_plans {
        "agent_plans_dir"
    } else {
        "path_rule_readonly"
    };
    WorkspaceRootDescriptor {
        path: path.to_owned(),
        label: label.to_owned(),
        alias: None,
        description: None,
    }
}

/// What the model is told of the directories: each once, with what it is; and the rules.
pub fn compute_workspace_state(f: &WorkspaceFacts) -> (r: WorkspaceState)
    ensures
        is_state_of(r, *f),
{
    let mut read_write: Vec<WorkspaceRootDescriptor> = Vec::new();
    let ghost rw = texts(f.read_write@);
    let ghost told_rw = |p: Seq<char>| writable_root(*f, p);
    let mut i: usize = 0;
    assert(roots(read_write@) =~= firsts(rw.take(0)).map_values(told_rw));
    while i < f.read_write.len()
        invariant
            i <= f.read_write@.len(),
            rw == texts(f.read_write@),
            told_rw == (|p: Seq<char>| writable_root(*f, p)),
            roots(read_write@) == firsts(rw.take(i as int)).map_values(told_rw),
        decreases f.read_write@.len() - i,
    {
        let p = f.read_write[i].as_str();
        assert(rw.take(i + 1).drop_last() =~= rw.take(i as int));
        assert(rw.take(i + 1).last() == p@);
        if !holds(&f.read_write, i, p) {
            let ghost before = roots(read_write@);
            let d = describe_writable(f, p);
            read_write.push(d);
            assert(roots(read_write@) =~= before.push(d@));
            assert(firsts(rw.take(i + 1)).map_values(told_rw) =~= firsts(
                rw.take(i as int),
            ).map_values(told_rw).push(told_rw(p@)));
        }
        i = i + 1;
    }
    assert(rw.take(rw.len() as int) =~= rw);
    let mut read_only: Vec<WorkspaceRootDescriptor> = Vec::new();
    let ghost ro = texts(f.read_only@);
    let ghost told_ro = |p: Seq<char>| readable_root(*f, p);
    let mut k: usize = 0;
    assert(roots(read_only@) =~= firsts(ro.take(0)).map_values(told_ro));
    while k < f.read_only.len()
        invariant
            k <= f.read_only@.len(),
            ro == texts(f.read_only@),
            told_ro == (|p: Seq<char>| readable_root(*f, p)),
            roots(read_only@) == firsts(ro.take(k as int)).map_values(told_ro),
        decreases f.read_only@.len() - k,
    {
        let p = f.read_only[k].as_str();
        assert(ro.take(k + 1).drop_last() =~= ro.take(k as int));
        assert(ro.take(k + 1).last() == p@);
        if !holds(&f.read_only, k, p) {
            let ghost before = roots(read_only@);
            let d = describe_readable(f, p);
            read_only.push(d);
            assert(roots(read_only@) =~= before.push(d@));
            assert(firsts(ro.take(k + 1)).map_values(told_ro) =~= firsts(
                ro.take(k as int),
            ).map_values(told_ro).push(told_ro(p@)));
        }
        k = k + 1;
    }
    assert(ro.take(ro.len() as int) =~= ro);
    let mut path_rules: Vec<PathRuleSummary> = Vec::new();
    let mut j: usize = 0;
    while j < f.rules.len()
        invariant
            j <= f.rules@.len(),
            path_rules@.len() == j,
            forall|i: int|
                0 <= i < j ==> is_summary(#[trigger] path_rules@[i], f.rules@[i], *f),
        decreases f.rules@.len() - j,
    {
        let r = &f.rules[j];
        let word: &str = match r.mode {
            PathRuleMode::Deny => "deny",
            PathRuleMode::Readonly => "readonly",
        };
        path_rules.push(
            PathRuleSummary {
                path: r.path.clone(),
                mode: word.to_owned(),
                builtin: !is_in(&f.user_rule_paths, r.path.as_str()),
            },
        );
        j = j + 1;
    }
    WorkspaceState { read_write, read_only, path_rules }
}

// ---------------------------------------------------------------- laws

/// No text stands twice among the first ones, and none is lost.
pub proof fn law_firsts_are_all_once(s: Seq<Seq<char>>)
    ensures
        firsts(s).no_duplicates(),
        forall|p: Seq<char>| #[trigger] firsts(s).contains(p) <==> s.contains(p),
    decreases s.len(),
{
    if s.len() > 0 {
        let front = s.drop_last();
        law_firsts_are_all_once(front);
        let f = firsts(front);
        assert forall|p: Seq<char>| #[trigger] firsts(s).contains(p) <==> s.contains(p) by {
            if s.contains(p) {
                let i = choose|i: int| 0 <= i < s.len() && s[i] == p;
                if i < front.len() {
                    assert(front[i] == p);
                    assert(front.contains(p));
                    assert(f.contains(p));
                    let k = choose|k: int| 0 <= k < f.len() && f[k] == p;
                    assert(firsts(s)[k] == p);
                } else if front.contains(p) {
                    assert(f.contains(p));
                } else {
                    assert(firsts(s).last() == p);
                    assert(firsts(s)[firsts(s).len() - 1] == p);
                }
            }
            if firsts(s).contains(p) {
                let k = choose|k: int| 0 <= k < firsts(s).len() && firsts(s)[k] == p;
                if k < f.len() {
                    assert(f[k] == p);
                    assert(f.contains(p));
                    assert(front.contains(p));
                    let i = choose|i: int| 0 <= i < front.len() && front[i] == p;
                    assert(s[i] == p);
                } else {
                    assert(s[s.len() - 1] == p);
                }
            }
        }
        if !front.contains(s.last()) {
            assert(!f.contains(s.last()));
            let all = firsts(s);
            assert forall|i: int, j: int| 0 <= i < all.len() && 0 <= j < all.len() && i
                != j implies all[i] != all[j] by {
                if i < f.len() {
                    assert(f[i] == all[i]);
                    assert(f.contains(all[i]));
                }
                if j < f.len() {
                    assert(f[j] == all[j]);
                    assert(f.contains(all[j]));
                }
            }
        }
    }
}

proof fn lemma_entry_for(entries: Seq<WorkspaceEntry>, path: Seq<char>)
    ensures
        match entry_for(entries, path) {
            Some(e) => exists|i: int|
                0 <= i < entries.len() && #[trigger] entries[i] == e && trimmed(e.path@).len() > 0
                    && entry_key(e) == path && forall|j: int|
                    i < j < entries.len() ==> !(trimmed((#[trigger] entries[j]).path@).len() > 0 && entry_key(
                        entries[j],
                    ) == path),
            None => forall|i: int|
                0 <= i < entries.len() ==> !(trimmed((#[trigger] entries[i]).path@).len() > 0 && entry_key(
                    entries[i],
                ) == path),
        },
    decreases entries.len(),
{
    if entries.len() > 0 {
        let n = entries.len() - 1;
        let e = entries[n];
        if trimmed(e.path@).len() > 0 && entry_key(e) == path {
            assert(entries[n] == e);
        } else {
            let front = entries.drop_last();
            lemma_entry_for(front, path);
            if let Some(f) = entry_for(front, path) {
                let i = choose|i: int|
                    0 <= i < front.len() && #[trigger] front[i] == f && trimmed(f.path@).len() > 0
                        && entry_key(f) == path && forall|j: int|
                        i < j < front.len() ==> !(trimmed((#[trigger] front[j]).path@).len() > 0
                            && entry_key(front[j]) == path);
                assert(entries[i] == f);
                assert forall|j: int| i < j < entries.len() implies !(trimmed(
                    (#[trigger] entries[j]).path@,
                ).len() > 0 && entry_key(entries[j]) == path) by {
                    if j < n {
                        assert(front[j] == entries[j]);
                    }
                }
            } else {
                assert forall|i: int| 0 <= i < entries.len() implies !(trimmed(
                    (#[trigger] entries[i]).path@,
                ).len() > 0 && entry_key(entries[i]) == path) by {
                    if i < n {
                        assert(front[i] == entries[i]);
                    }
                }
            }
        }
    }
}

/// What the configuration says of a directory is found by its path, and the last entry for it counts; where
/// nothing is said of it, it has neither alias nor description.
pub proof fn law_directories_are_described_by_their_entry(f: WorkspaceFacts, path: Seq<char>)
    ensures
        writable_root(f, path).path == path,
        readable_root(f, path).path == path,
        match entry_for(f.entries@, path) {
            Some(e) => f.entries@.contains(e) && entry_key(e) == path && writable_root(f, path).alias
                == opt_text(e.alias) && writable_root(f, path).description == opt_text(e.description),
            None => writable_root(f, path).alias is None && writable_root(f, path).description is None
                && forall|i: int|
                0 <= i < f.entries@.len() && trimmed((#[trigger] f.entries@[i]).path@).len() > 0
                    ==> entry_key(f.entries@[i]) != path,
        },
{
    lemma_entry_for(f.entries@, path);
}

/// Every directory that may be used is told, each once; every rule is told, in its place, as it is.
pub proof fn law_every_directory_is_told(w: WorkspaceState, f: WorkspaceFacts, i: int, k: int, r: int)
    requires
        is_state_of(w, f),
    ensures
        0 <= i < f.read_write@.len() ==> exists|n: int|
            0 <= n < w.read_write@.len() && (#[trigger] w.read_write@[n]).path@ == f.read_write@[i]@,
        0 <= k < f.read_only@.len() ==> exists|n: int|
            0 <= n < w.read_only@.len() && (#[trigger] w.read_only@[n]).path@ == f.read_only@[k]@,
        w.path_rules@.len() == f.rules@.len(),
        0 <= r < f.rules@.len() ==> w.path_rules@[r].path@ == f.rules@[r].path@ && w.path_rules@[r].mode@
            == (if f.rules@[r].mode is Deny {
            "deny"@
        } else {
            "readonly"@
        }) && (w.path_rules@[r].builtin <==> !texts(f.user_rule_paths@).contains(f.rules@[r].path@)),
{
    let rw = texts(f.read_write@);
    let ro = texts(f.read_only@);
    law_firsts_are_all_once(rw);
    law_firsts_are_all_once(ro);
    if 0 <= i < f.read_write@.len() {
        assert(rw[i] == f.read_write@[i]@);
        assert(rw.contains(rw[i]));
        assert(firsts(rw).contains(rw[i]));
        let n = choose|n: int| 0 <= n < firsts(rw).len() && firsts(rw)[n] == rw[i];
        let all = roots(w.read_write@);
        assert(all.len() == w.read_write@.len());
        assert(all[n] == writable_root(f, rw[i]));
        assert(all[n] == w.read_write@[n]@);
        assert(w.read_write@[n].path@ == f.read_write@[i]@);
    }
    if 0 <= k < f.read_only@.len() {
        assert(ro[k] == f.read_only@[k]@);
        assert(ro.contains(ro[k]));
        assert(firsts(ro).contains(ro[k]));
        let n = choose|n: int| 0 <= n < firsts(ro).len() && firsts(ro)[n] == ro[k];
        let all = roots(w.read_only@);
        assert(all.len() == w.read_only@.len());
        assert(all[n] == readable_root(f, ro[k]));
        assert(all[n] == w.read_only@[n]@);
        assert(w.read_only@[n].path@ == f.read_only@[k]@);
    }
    if 0 <= r < f.rules@.len() {
        assert(is_summary(w.path_rules@[r], f.rules@[r], f));
    }
}

/// What a directory is for is told by the first that applies: the agent's own directory, a root of the
/// workspace, a grant for the session, and else the configuration; what may only be read is told as a trail
/// of the agent, its plans, or a rule.
pub proof fn law_labels_tell_what_a_directory_is_for(f: WorkspaceFacts, path: Seq<char>)
    ensures
        path == f.agent_definition_dir@ ==> writable_label(f, path) == "agent_definition_dir"@,
        path != f.agent_definition_dir@ && texts(f.workspace_roots@).contains(path) ==> writable_label(
            f,
            path,
        ) == "agent_workspace_root"@,
        path != f.agent_definition_dir@ && !texts(f.workspace_roots@).contains(path) && texts(
            f.session_grants@,
        ).contains(path) ==> writable_label(f, path) == "session_grant"@,
        path != f.agent_definition_dir@ && !texts(f.workspace_roots@).contains(path) && !texts(
            f.session_grants@,
        ).contains(path) ==> writable_label(f, path) == "workspace_root"@,
        is_trail(f, path) ==> readable_label(f, path) == "agent_trail_dir"@,
        !is_trail(f, path) && opt_text(f.agent_plans_dir) == Some(path) ==> readable_label(f, path)
            == "agent_plans_dir"@,
        !is_trail(f, path) && opt_text(f.agent_plans_dir) != Some(path) ==> readable_label(f, path)
            == "path_rule_readonly"@,
{
}

/// Each directory keeps the place at which it stood first: directories that follow never move those before
/// them.
pub proof fn law_firsts_keep_their_place(a: Seq<Seq<char>>, b: Seq<Seq<char>>)
    ensures
        firsts(a).len() <= firsts(a + b).len(),
        firsts(a + b).take(firsts(a).len() as int) == firsts(a),
    decreases b.len(),
{
    if b.len() == 0 {
        assert(a + b =~= a);
        assert(firsts(a).take(firsts(a).len() as int) =~= firsts(a));
    } else {
        law_firsts_keep_their_place(a, b.drop_last());
        let all = a + b;
        assert(all.drop_last() =~= a + b.drop_last());
        let before = firsts(a + b.drop_last());
        let n = firsts(a).len() as int;
        if !all.drop_last().contains(all.last()) {
            assert(before.push(all.last()).take(n) =~= before.take(n));
        }
    }
}

} // verus!
