//! Which plugins are loaded, started, kept and dropped.

use vstd::prelude::*;
use vstd::string::*;

use crate::paths::join_path;
#[allow(unused_imports)]
use crate::paths::path_joined;
use crate::search::starts_with;
#[allow(unused_imports)]
use crate::search::has_prefix;
use crate::text::{cat, cat4, push_text, same, to_ascii_lower, trim};
#[allow(unused_imports)]
use crate::text::{ascii_lowered, opt_str, texts, trimmed};

verus! {

/// Whether a word switches something on.
pub open spec fn is_yes(word: Seq<char>) -> bool {
    word == "1"@ || word == "true"@ || word == "yes"@ || word == "on"@
}

/// Whether plugins are switched off by the environment.
pub fn plugin_runtime_disabled_via_env(env: Option<&str>) -> (r: bool)
    ensures
        r == (env is Some && is_yes(ascii_lowered(trimmed(env->0@)))),
{
    match env {
        Some(raw) => {
            let w = to_ascii_lower(trim(raw).as_str());
            same(w.as_str(), "1") || same(w.as_str(), "true") || same(w.as_str(), "yes") || same(
                w.as_str(),
                "on",
            )
        },
        None => false,
    }
}

/// What a tool of a plugin is answered while plugins are switched off.
pub fn no_plugin_tools_message(tool_name: &str) -> (r: String)
    ensures
        r@ == "对话模式下不支持插件工具执行: "@ + tool_name@,
{
    cat("对话模式下不支持插件工具执行: ", tool_name)
}

/// Which proxy plugins fetch through.
#[derive(Clone, Copy, Debug, PartialEq, Eq, Structural)]
pub struct FetchProxy {
    /// One from the configuration.
    pub explicit: bool,
    /// One from the environment.
    pub ambient: bool,
}

/// Which proxy plugins fetch through: the configured one goes before one from the environment.
pub fn fetch_proxy(configured: Option<&str>, has_proxy_env: bool) -> (r: FetchProxy)
    ensures
        r.explicit == (configured is Some && trimmed(configured->0@).len() > 0),
        r.ambient == (!r.explicit && has_proxy_env),
{
    let explicit = match configured {
        Some(p) => {
            let t = trim(p);
            !t.as_str().is_empty()
        },
        None => false,
    };
    FetchProxy { explicit, ambient: !explicit && has_proxy_env }
}

/// Where a plugin that is to be loaded at the start lies.
pub open spec fn load_place(
    entry: Seq<char>,
    catalog_root: Option<Seq<char>>,
    exists_here: bool,
    plugins_dir: Seq<char>,
) -> Seq<char> {
    match catalog_root {
        Some(root) => root,
        None => if has_prefix(entry, "/"@) || exists_here {
            entry
        } else {
            path_joined(plugins_dir, entry)
        },
    }
}

/// Where a plugin that is to be loaded at the start lies: where the catalog says, else at its path,
/// if that leads somewhere by itself, else in the directory of the plugins.
pub fn auto_load_path(
    entry: &str,
    catalog_root: Option<&str>,
    exists_here: bool,
    plugins_dir: &str,
) -> (r: String)
    ensures
        r@ == load_place(entry@, opt_str(catalog_root), exists_here, plugins_dir@),
{
    match catalog_root {
        Some(root) => root.to_owned(),
        None => if starts_with(entry, "/") || exists_here {
            entry.to_owned()
        } else {
            join_path(plugins_dir, entry)
        },
    }
}

/// A tool that a plugin's manifest lists; `P` describes its parameters.
#[derive(Clone, Debug, PartialEq, Eq)]
pub struct ManifestTool<P> {
    pub name: String,
    pub description: String,
    pub parameters: P,
}

/// A tool of a plugin as it is registered.
#[derive(Clone, Debug, PartialEq, Eq)]
pub struct RegisteredTool<P> {
    pub name: String,
    pub label: String,
    pub description: String,
    pub parameters: P,
    pub plugin_id: String,
    pub is_enabled: bool,
    pub created_at: u64,
}

/// Whether `t` is the tool `m` of a plugin as it is registered.
pub open spec fn is_registered<P>(
    t: RegisteredTool<P>,
    m: ManifestTool<P>,
    plugin_id: Seq<char>,
) -> bool {
    &&& t.name@ == m.name@
    &&& t.label@ == m.name@
    &&& t.description@ == m.description@
    &&& t.parameters == m.parameters
    &&& t.plugin_id@ == plugin_id
    &&& t.is_enabled
    &&& t.created_at == 0
}

/// The tools of a plugin as they are registered: none if the plugin could not be registered.
pub fn manifest_tools<P>(plugin_id: &str, registered: bool, tools: Vec<ManifestTool<P>>) -> (r: Vec<
    RegisteredTool<P>,
>)
    ensures
        r@.len() == (if registered {
            tools@.len()
        } else {
            0
        }),
        forall|i: int|
            0 <= i < r@.len() ==> is_registered(#[trigger] r@[i], tools@[i], plugin_id@),
{
    let mut out: Vec<RegisteredTool<P>> = Vec::new();
    if !registered {
        return out;
    }
    let ghost all = tools@;
    let mut left = tools;
    let n: usize = left.len();
    let mut i: usize = 0;
    assert(left@ =~= all.skip(0));
    while i < n
        invariant
            i <= n == all.len(),
            left@ == all.skip(i as int),
            out@.len() == i,
            forall|j: int| 0 <= j < i ==> is_registered(#[trigger] out@[j], all[j], plugin_id@),
        decreases n - i,
    {
        let tool = left.remove(0);
        assert(tool == all[i as int]);
        assert(left@ =~= all.skip(i + 1));
        out.push(
            RegisteredTool {
                label: tool.name.clone(),
                name: tool.name,
                description: tool.description,
                parameters: tool.parameters,
                plugin_id: plugin_id.to_owned(),
                is_enabled: true,
                created_at: 0,
            },
        );
        i = i + 1;
    }
    out
}

/// When a plugin is started.
#[derive(Clone, Copy, Debug, PartialEq, Eq, Structural)]
pub enum PluginActivation {
    /// When it is first needed.
    Lazy,
    /// With each session.
    Session,
}

/// What is known of a plugin when a session starts.
#[derive(Clone, Copy, Debug, PartialEq, Eq, Structural)]
pub struct PluginFacts {
    /// Whether its manifest lists no tools.
    pub lists_no_tools: bool,
    /// When it was loaded; zero if it was not.
    pub loaded_at: u64,
    pub activation: PluginActivation,
    /// Whether it runs for the session already.
    pub has_session_vm: bool,
}

/// What is done with a plugin when a session starts.
#[derive(Clone, Copy, Debug, PartialEq, Eq, Structural)]
pub struct SessionStart {
    /// It is loaded, so that it can tell its tools.
    pub load_first: bool,
    /// It is started for the session and told that the session starts.
    pub start: bool,
}

/// What is done with a plugin when a session starts: one that lists no tools and was not loaded is
/// loaded, and one that belongs to sessions is started, unless it runs already.
pub fn session_start(p: &PluginFacts) -> (r: SessionStart)
    ensures
        r.load_first == (p.lists_no_tools && p.loaded_at == 0),
        r.start == (p.activation is Session && !p.has_session_vm),
{
    SessionStart {
        load_first: p.lists_no_tools && p.loaded_at == 0,
        start: matches!(p.activation, PluginActivation::Session) && !p.has_session_vm,
    }
}

/// A plugin that the session knows.
#[derive(Clone, Debug, PartialEq, Eq)]
pub struct KnownPlugin {
    pub plugin_id: String,
    /// When it was loaded; zero if it was not.
    pub loaded_at: u64,
    pub has_session_vm: bool,
}

/// Whether a plugin is at work, and left alone.
pub open spec fn is_live(p: KnownPlugin) -> bool {
    p.loaded_at != 0 || p.has_session_vm
}

/// The plugins that are dropped: those that are not at work and were not found again.
pub open spec fn dropped(known: Seq<KnownPlugin>, found: Seq<Seq<char>>) -> Seq<Seq<char>>
    decreases known.len(),
{
    if known.len() == 0 {
        Seq::empty()
    } else {
        let rest = dropped(known.drop_last(), found);
        let p = known.last();
        if !is_live(p) && !found.contains(p.plugin_id@) {
            rest.push(p.plugin_id@)
        } else {
            rest
        }
    }
}

fn is_found(found: &Vec<String>, id: &str) -> (r: bool)
    ensures
        r == texts(found@).contains(id@),
{
    let ghost all = texts(found@);
    let mut i: usize = 0;
    while i < found.len()
        invariant
            i <= found@.len(),
            all == texts(found@),
            forall|j: int| 0 <= j < i ==> (#[trigger] all[j]) != id@,
        decreases found@.len() - i,
    {
        assert(all[i as int] == found@[i as int]@);
        if same(found[i].as_str(), id) {
            return true;
        }
        i = i + 1;
    }
    false
}

/// The plugins that are dropped when the plugins are looked for again.
pub fn plugins_to_drop(known: &Vec<KnownPlugin>, found: &Vec<String>) -> (r: Vec<String>)
    ensures
        texts(r@) == dropped(known@, texts(found@)),
{
    let mut out: Vec<String> = Vec::new();
    let mut i: usize = 0;
    assert(texts(out@) =~= dropped(known@.take(0), texts(found@)));
    while i < known.len()
        invariant
            i <= known@.len(),
            texts(out@) == dropped(known@.take(i as int), texts(found@)),
        decreases known@.len() - i,
    {
        assert(known@.take(i + 1).drop_last() =~= known@.take(i as int));
        let p = &known[i];
        if p.loaded_at == 0 && !p.has_session_vm && !is_found(found, p.plugin_id.as_str()) {
            push_text(&mut out, p.plugin_id.clone());
        }
        i = i + 1;
    }
    assert(known@.take(known@.len() as int) =~= known@);
    out
}

/// Whether a plugin of the session is at work.
pub open spec fn is_live_among(known: Seq<KnownPlugin>, id: Seq<char>) -> bool {
    exists|i: int| 0 <= i < known.len() && (#[trigger] known[i]).plugin_id@ == id && is_live(known[i])
}

/// The plugins that are registered anew: those that were found and are not at work.
pub open spec fn renewed(found: Seq<Seq<char>>, known: Seq<KnownPlugin>) -> Seq<Seq<char>>
    decreases found.len(),
{
    if found.len() == 0 {
        Seq::empty()
    } else {
        let rest = renewed(found.drop_last(), known);
        if is_live_among(known, found.last()) {
            rest
        } else {
            rest.push(found.last())
        }
    }
}

fn works(known: &Vec<KnownPlugin>, id: &str) -> (r: bool)
    ensures
        r == is_live_among(known@, id@),
{
    let mut i: usize = 0;
    while i < known.len()
        invariant
            i <= known@.len(),
            forall|j: int|
                0 <= j < i ==> !((#[trigger] known@[j]).plugin_id@ == id@ && is_live(known@[j])),
        decreases known@.len() - i,
    {
        if same(known[i].plugin_id.as_str(), id) && (known[i].loaded_at != 0
            || known[i].has_session_vm) {
            assert(is_live(known@[i as int]));
            return true;
        }
        i = i + 1;
    }
    false
}

/// The plugins that are registered anew when the plugins are looked for again.
pub fn plugins_to_renew(found: &Vec<String>, known: &Vec<KnownPlugin>) -> (r: Vec<String>)
    ensures
        texts(r@) == renewed(texts(found@), known@),
{
    let ghost all = texts(found@);
    let mut out: Vec<String> = Vec::new();
    let mut i: usize = 0;
    assert(texts(out@) =~= renewed(all.take(0), known@));
    while i < found.len()
        invariant
            i <= found@.len(),
            all == texts(found@),
            texts(out@) == renewed(all.take(i as int), known@),
        decreases found@.len() - i,
    {
        assert(all.take(i + 1).drop_last() =~= all.take(i as int));
        assert(all.take(i + 1).last() == found@[i as int]@);
        if !works(known, found[i].as_str()) {
            push_text(&mut out, found[i].clone());
        }
        i = i + 1;
    }
    assert(all.take(all.len() as int) =~= all);
    out
}

/// Something in the catalog that could not be read.
#[derive(Clone, Debug, PartialEq, Eq)]
pub struct CatalogDiagnostic {
    pub path: String,
    pub reason: String,
}

/// What is said about what could not be read.
pub open spec fn ignored(what: Seq<char>, ds: Seq<CatalogDiagnostic>) -> Seq<Seq<char>> {
    ds.map_values(|d: CatalogDiagnostic| what + " ignored "@ + d.path@ + ": "@ + d.reason@)
}

fn push_all(out: &mut Vec<String>, more: &Vec<String>)
    ensures
        texts(final(out)@) == texts(old(out)@) + texts(more@),
{
    let ghost start = texts(out@);
    let ghost all = texts(more@);
    let mut i: usize = 0;
    assert(start + all.take(0) =~= start);
    while i < more.len()
        invariant
            i <= more@.len(),
            all == texts(more@),
            texts(out@) == start + all.take(i as int),
        decreases more@.len() - i,
    {
        push_text(out, more[i].clone());
        assert(texts(out@) =~= start + all.take(i + 1));
        i = i + 1;
    }
    assert(all.take(all.len() as int) =~= all);
}

fn push_ignored(out: &mut Vec<String>, what: &str, ds: &Vec<CatalogDiagnostic>)
    ensures
        texts(final(out)@) == texts(old(out)@) + ignored(what@, ds@),
{
    let ghost start = texts(out@);
    let ghost all = ignored(what@, ds@);
    let mut i: usize = 0;
    assert(start + all.take(0) =~= start);
    while i < ds.len()
        invariant
            i <= ds@.len(),
            all == ignored(what@, ds@),
            texts(out@) == start + all.take(i as int),
        decreases ds@.len() - i,
    {
        let mut line = cat4(what, " ignored ", ds[i].path.as_str(), ": ");
        line.append(ds[i].reason.as_str());
        push_text(out, line);
        assert(texts(out@) =~= start + all.take(i + 1));
        i = i + 1;
    }
    assert(all.take(all.len() as int) =~= all);
}

/// All that is said when the plugins were looked for again: the warnings of both catalogs, then what
/// could not be read in each.
pub fn inventory_warnings(
    plugin_warnings: &Vec<String>,
    function_warnings: &Vec<String>,
    plugin_diagnostics: &Vec<CatalogDiagnostic>,
    function_diagnostics: &Vec<CatalogDiagnostic>,
) -> (r: Vec<String>)
    ensures
        texts(r@) == texts(plugin_warnings@) + texts(function_warnings@) + ignored(
            "plugin catalog"@,
            plugin_diagnostics@,
        ) + ignored("host function catalog"@, function_diagnostics@),
{
    let mut out: Vec<String> = Vec::new();
    assert(texts(out@) + texts(plugin_warnings@) =~= texts(plugin_warnings@));
    push_all(&mut out, plugin_warnings);
    push_all(&mut out, function_warnings);
    push_ignored(&mut out, "plugin catalog", plugin_diagnostics);
    push_ignored(&mut out, "host function catalog", function_diagnostics);
    out
}

// ---------------------------------------------------------------- laws

/// A plugin that is at work is never dropped, found again or not.
pub proof fn law_live_plugins_stay(known: Seq<KnownPlugin>, found: Seq<Seq<char>>, id: Seq<char>)
    requires
        forall|i: int| 0 <= i < known.len() && (#[trigger] known[i]).plugin_id@ == id ==> is_live(
            known[i],
        ),
    ensures
        !dropped(known, found).contains(id),
    decreases known.len(),
{
    if known.len() > 0 {
        let front = known.drop_last();
        assert forall|i: int| 0 <= i < front.len() && (#[trigger] front[i]).plugin_id@
            == id implies is_live(front[i]) by {
            assert(front[i] == known[i]);
        }
        law_live_plugins_stay(front, found, id);
        let rest = dropped(front, found);
        let all = dropped(known, found);
        if all.contains(id) {
            let k = choose|k: int| 0 <= k < all.len() && all[k] == id;
            if k < rest.len() {
                assert(rest[k] == id);
                assert(rest.contains(id));
            } else {
                assert(known[known.len() - 1].plugin_id@ == id);
                assert(is_live(known[known.len() - 1]));
            }
        }
    }
}

/// A plugin that is at work is never registered anew.
pub proof fn law_live_plugins_are_not_renewed(
    found: Seq<Seq<char>>,
    known: Seq<KnownPlugin>,
    id: Seq<char>,
)
    requires
        is_live_among(known, id),
    ensures
        !renewed(found, known).contains(id),
    decreases found.len(),
{
    if found.len() > 0 {
        law_live_plugins_are_not_renewed(found.drop_last(), known, id);
        let rest = renewed(found.drop_last(), known);
        let all = renewed(found, known);
        if all.contains(id) {
            let k = choose|k: int| 0 <= k < all.len() && all[k] == id;
            if k < rest.len() {
                assert(rest[k] == id);
                assert(rest.contains(id));
            }
        }
    }
}

/// Exactly the plugins that are not at work and were not found again are dropped, and exactly those that are
/// found and not at work are registered anew, both in order.
pub proof fn law_which_plugins_change(known: Seq<KnownPlugin>, found: Seq<Seq<char>>)
    ensures
        dropped(known, found) == known.filter(
            |p: KnownPlugin|
                p.loaded_at == 0 && !p.has_session_vm && !found.contains(p.plugin_id@),
        ).map_values(|p: KnownPlugin| p.plugin_id@),
    decreases known.len(),
{
    reveal(Seq::filter);
    let goes = |p: KnownPlugin|
        p.loaded_at == 0 && !p.has_session_vm && !found.contains(p.plugin_id@);
    let id = |p: KnownPlugin| p.plugin_id@;
    if known.len() > 0 {
        let front = known.drop_last();
        law_which_plugins_change(front, found);
        if goes(known.last()) {
            assert(known.filter(goes).map_values(id) =~= front.filter(goes).map_values(id).push(
                known.last().plugin_id@,
            ));
        }
    } else {
        assert(dropped(known, found) =~= known.filter(goes).map_values(id));
    }
}

/// Exactly the plugins that are found and not at work are registered anew, in the order in which they are
/// found.
pub proof fn law_which_plugins_are_renewed(found: Seq<Seq<char>>, known: Seq<KnownPlugin>)
    ensures
        renewed(found, known) == found.filter(
            |f: Seq<char>|
                !(exists|i: int|
                    0 <= i < known.len() && (#[trigger] known[i]).plugin_id@ == f && (known[i].loaded_at
                        != 0 || known[i].has_session_vm)),
        ),
    decreases found.len(),
{
    reveal(Seq::filter);
    let idle = |f: Seq<char>|
        !(exists|i: int|
            0 <= i < known.len() && (#[trigger] known[i]).plugin_id@ == f && (known[i].loaded_at != 0
                || known[i].has_session_vm));
    if found.len() > 0 {
        law_which_plugins_are_renewed(found.drop_last(), known);
        let f = found.last();
        assert(idle(f) <==> !is_live_among(known, f));
    } else {
        assert(renewed(found, known) =~= found.filter(idle));
    }
}

/// A plugin is loaded from where the catalog knows it; else a path that is absolute or exists is taken as it
/// is, and any other name is looked for among the plugins.
pub proof fn law_where_plugins_are_loaded_from(
    entry: Seq<char>,
    root: Option<Seq<char>>,
    here: bool,
    dir: Seq<char>,
)
    requires
        entry.len() > 0,
    ensures
        root matches Some(r) ==> load_place(entry, root, here, dir) == r,
        root is None && (entry[0] == '/' || here) ==> load_place(entry, root, here, dir) == entry,
        root is None && entry[0] != '/' && !here ==> load_place(entry, root, here, dir) == path_joined(
            dir,
            entry,
        ),
{
    reveal_strlit("/");
    assert(entry.subrange(0, 1) =~= seq![entry[0]]);
    assert("/"@ =~= seq!['/']);
    assert(seq![entry[0]][0] == entry[0] && seq!['/'][0] == '/');
}

/// Everything that was passed over is told, with its path and the reason, in order.
pub proof fn law_ignored_entries_are_told(what: Seq<char>, ds: Seq<CatalogDiagnostic>, i: int)
    requires
        0 <= i < ds.len(),
    ensures
        ignored(what, ds).len() == ds.len(),
        ignored(what, ds)[i] == what + " ignored "@ + ds[i].path@ + ": "@ + ds[i].reason@,
{
}

/// A tool of a plugin is registered as its manifest describes it, under its plugin, and is ready for use.
pub proof fn law_tools_are_registered_as_described<P>(
    t: RegisteredTool<P>,
    m: ManifestTool<P>,
    plugin_id: Seq<char>,
)
    requires
        is_registered(t, m, plugin_id),
    ensures
        t.name@ == m.name@,
        t.label@ == m.name@,
        t.description@ == m.description@,
        t.parameters == m.parameters,
        t.plugin_id@ == plugin_id,
        t.is_enabled,
{
}

/// Four words switch plugins off, and no other.
pub proof fn law_words_that_switch_off(word: Seq<char>)
    ensures
        is_yes(word) <==> seq!["1"@, "true"@, "yes"@, "on"@].contains(word),
{
    let all = seq!["1"@, "true"@, "yes"@, "on"@];
    assert(all[0] == "1"@ && all[1] == "true"@ && all[2] == "yes"@ && all[3] == "on"@);
}

} // verus!
