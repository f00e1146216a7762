//! What a chat is put together from.

use vstd::prelude::*;
use vstd::string::*;

use crate::numerals::parse_u32;
#[allow(unused_imports)]
use crate::numerals::parsed;
use crate::paths::join_path;
#[allow(unused_imports)]
use crate::paths::path_joined;
use crate::search::starts_with;
#[allow(unused_imports)]
use crate::search::has_prefix;
use crate::settings::ThinkingDisplay;
use crate::text::{cat, copy_opt, same, to_ascii_lower, trim};
#[allow(unused_imports)]
use crate::text::{ascii_lowered, opt_str, opt_text, trimmed};

pub mod announce;
pub mod confirmation;
pub mod host_functions;
pub mod plugins;

verus! {

// ---------------------------------------------------------------- what is given instead

/// What a caller gives in place of what a chat would take by itself: a panel for questions `P`, a
/// way to ask for permission `C`, a client for fetching `H`, a registry of agents `R`, preferences
/// for models `S`.
pub struct ChatContextOverrides<P, C, H, R, S> {
    pub ask_question_panel: Option<P>,
    pub confirmation: Option<C>,
    pub fetch_http_client: Option<H>,
    pub shared_agent_registry: Option<R>,
    pub shared_model_prefs: Option<S>,
    pub skip_session_plugin_activation: bool,
    pub suppress_cli_output: bool,
    pub session_cwd_override: Option<String>,
}

impl<P, C, H, R, S> ChatContextOverrides<P, C, H, R, S> {
    /// Nothing is given.
    pub fn none() -> (r: ChatContextOverrides<P, C, H, R, S>)
        ensures
            r.ask_question_panel is None,
            r.confirmation is None,
            r.fetch_http_client is None,
            r.shared_agent_registry is None,
            r.shared_model_prefs is None,
            !r.skip_session_plugin_activation,
            !r.suppress_cli_output,
            r.session_cwd_override is None,
    {
        ChatContextOverrides {
            ask_question_panel: None,
            confirmation: None,
            fetch_http_client: None,
            shared_agent_registry: None,
            shared_model_prefs: None,
            skip_session_plugin_activation: false,
            suppress_cli_output: false,
            session_cwd_override: None,
        }
    }

    /// With a panel for questions.
    pub fn with_ask_question_panel(self, panel: P) -> (r: ChatContextOverrides<P, C, H, R, S>)
        ensures
            r == (ChatContextOverrides { ask_question_panel: Some(panel), ..self }),
    {
        ChatContextOverrides { ask_question_panel: Some(panel), ..self }
    }

    /// With a way to ask for permission.
    pub fn with_confirmation(self, confirmation: C) -> (r: ChatContextOverrides<P, C, H, R, S>)
        ensures
            r == (ChatContextOverrides { confirmation: Some(confirmation), ..self }),
    {
        ChatContextOverrides { confirmation: Some(confirmation), ..self }
    }

    /// With a client for fetching.
    pub fn with_fetch_http_client(self, client: H) -> (r: ChatContextOverrides<P, C, H, R, S>)
        ensures
            r == (ChatContextOverrides { fetch_http_client: Some(client), ..self }),
    {
        ChatContextOverrides { fetch_http_client: Some(client), ..self }
    }

    /// With a registry of agents.
    pub fn with_shared_agent_registry(self, registry: R) -> (r: ChatContextOverrides<P, C, H, R, S>)
        ensures
            r == (ChatContextOverrides { shared_agent_registry: Some(registry), ..self }),
    {
        ChatContextOverrides { shared_agent_registry: Some(registry), ..self }
    }

    /// With preferences for models.
    pub fn with_shared_model_prefs(self, store: S) -> (r: ChatContextOverrides<P, C, H, R, S>)
        ensures
            r == (ChatContextOverrides { shared_model_prefs: Some(store), ..self }),
    {
        ChatContextOverrides { shared_model_prefs: Some(store), ..self }
    }

    /// Without starting plugins for the session.
    pub fn skip_session_plugin_activation(self) -> (r: ChatContextOverrides<P, C, H, R, S>)
        ensures
            r == (ChatContextOverrides { skip_session_plugin_activation: true, ..self }),
    {
        ChatContextOverrides { skip_session_plugin_activation: true, ..self }
    }

    /// Without output on the terminal.
    pub fn suppress_cli_output(self) -> (r: ChatContextOverrides<P, C, H, R, S>)
        ensures
            r == (ChatContextOverrides { suppress_cli_output: true, ..self }),
    {
        ChatContextOverrides { suppress_cli_output: true, ..self }
    }

    /// With another working directory for the session.
    pub fn with_session_cwd_override(self, cwd: String) -> (r: ChatContextOverrides<P, C, H, R, S>)
        ensures
            r == (ChatContextOverrides { session_cwd_override: Some(cwd), ..self }),
    {
        ChatContextOverrides { session_cwd_override: Some(cwd), ..self }
    }
}

// ---------------------------------------------------------------- directories

/// What the configuration says of commands.
#[derive(Clone, Copy, Debug, PartialEq, Eq, Structural)]
pub struct BashConfig {
    pub foreground_wait_ms: u64,
    pub max_output_chars: usize,
}

/// How commands are run.
#[derive(Clone, Debug, PartialEq, Eq)]
pub struct BashProductionPolicy {
    pub foreground_wait_ms: u64,
    pub max_output_chars: usize,
    /// Where their output is kept.
    pub persist_dir: String,
}

/// The directory in which results of tools are kept.
pub open spec fn results_dir(agent_trail_dir: Seq<char>) -> Seq<char> {
    path_joined(agent_trail_dir, "tool-results"@)
}

/// How commands are run.
pub fn resolve_bash_production_policy(config: &BashConfig, agent_trail_dir: &str) -> (r:
    BashProductionPolicy)
    ensures
        r.foreground_wait_ms == config.foreground_wait_ms,
        r.max_output_chars == config.max_output_chars,
        r.persist_dir@ == results_dir(agent_trail_dir@),
{
    BashProductionPolicy {
        foreground_wait_ms: config.foreground_wait_ms,
        max_output_chars: config.max_output_chars,
        persist_dir: join_path(agent_trail_dir, "tool-results"),
    }
}

/// The directory of a session: the one that is given, else the current one, else `.`.
pub open spec fn session_dir(given: Option<Seq<char>>, current: Option<Seq<char>>) -> Seq<char> {
    match given {
        Some(d) => d,
        None => match current {
            Some(d) => d,
            None => "."@,
        },
    }
}

/// The directory of a session.
pub fn resolve_session_dir(given: Option<&str>, current: Option<&str>) -> (r: String)
    ensures
        r@ == session_dir(opt_str(given), opt_str(current)),
{
    match given {
        Some(d) => d.to_owned(),
        None => match current {
            Some(d) => d.to_owned(),
            None => ".".to_owned(),
        },
    }
}

/// The directory that the agent works in: that of the session, if it still exists, else the current
/// one, else the one that the agent is defined in.
pub open spec fn workspace_dir(
    session_cwd: Option<Seq<char>>,
    cwd_exists: bool,
    current: Option<Seq<char>>,
    definition_dir: Seq<char>,
) -> Seq<char> {
    if session_cwd is Some && cwd_exists {
        session_cwd->0
    } else {
        match current {
            Some(d) => d,
            None => definition_dir,
        }
    }
}

/// The directory that the agent works in.
pub fn resolve_agent_workspace_dir(
    session_cwd: Option<&str>,
    cwd_exists: bool,
    current: Option<&str>,
    agent_definition_dir: &str,
) -> (r: String)
    ensures
        r@ == workspace_dir(
            opt_str(session_cwd),
            cwd_exists,
            opt_str(current),
            agent_definition_dir@,
        ),
{
    if let Some(d) = session_cwd {
        if cwd_exists {
            return d.to_owned();
        }
    }
    match current {
        Some(d) => d.to_owned(),
        None => agent_definition_dir.to_owned(),
    }
}

/// What is moved when results of tools are still where they used to be: from the first path to the
/// second. What is there already stays.
pub fn legacy_move(
    agent_definition_dir: &str,
    agent_trail_dir: &str,
    name: &str,
    target_exists: bool,
) -> (r: Option<(String, String)>)
    ensures
        match r {
            Some(m) => !target_exists && m.0@ == path_joined(
                path_joined(agent_definition_dir@, "workspace"@),
                name@,
            ) && m.1@ == path_joined(results_dir(agent_trail_dir@), name@),
            None => target_exists,
        },
{
    if target_exists {
        return None;
    }
    let from = join_path(agent_definition_dir, "workspace");
    let to = join_path(agent_trail_dir, "tool-results");
    Some((join_path(from.as_str(), name), join_path(to.as_str(), name)))
}

// ---------------------------------------------------------------- models

/// The model of a session: its own, if it has one, else the default.
pub fn effective_model(model_override: Option<&str>, default_model: &str) -> (r: String)
    ensures
        r@ == (if model_override is Some && model_override->0@.len() > 0 {
            model_override->0@
        } else {
            default_model@
        }),
{
    match model_override {
        Some(m) => if m.is_empty() {
            default_model.to_owned()
        } else {
            m.to_owned()
        },
        None => default_model.to_owned(),
    }
}

/// The model of a session that goes before the others when a model is looked for: one that is more
/// than white space.
pub fn session_model(model_override: Option<&str>) -> (r: Option<String>)
    ensures
        opt_text(r) == (if model_override is Some && trimmed(model_override->0@).len() > 0 {
            Some(model_override->0@)
        } else {
            None
        }),
{
    match model_override {
        Some(m) => {
            let t = trim(m);
            if t.as_str().is_empty() {
                None
            } else {
                Some(m.to_owned())
            }
        },
        None => None,
    }
}

/// The character between the parts of a key.
pub const KEY_MARK: char = '\u{1f}';

/// What files that were sent to a provider are kept under.
pub open spec fn files_key(
    provider: Seq<char>,
    api: Seq<char>,
    base_url: Option<Seq<char>>,
    key_source: Seq<char>,
) -> Seq<char> {
    provider + seq![KEY_MARK] + api + seq![KEY_MARK] + (match base_url {
        Some(u) => u,
        None => Seq::empty(),
    }) + seq![KEY_MARK] + key_source
}

/// What files that were sent to a provider are kept under.
pub fn files_runtime_key(provider: &str, api: &str, base_url: Option<&str>, key_source: &str) -> (r:
    String)
    ensures
        r@ == files_key(provider@, api@, opt_str(base_url), key_source@),
{
    let url: &str = match base_url {
        Some(u) => u,
        None => "",
    };
    proof {
        reveal_strlit("");
        assert(""@ =~= Seq::<char>::empty());
    }
    let mut s = provider.to_owned();
    s.push(KEY_MARK);
    s.append(api);
    s.push(KEY_MARK);
    s.append(url);
    s.push(KEY_MARK);
    s.append(key_source);
    assert(s@ =~= files_key(provider@, api@, opt_str(base_url), key_source@));
    s
}

/// Whether what is kept is still good: it was kept under the same key.
pub fn keeps_files_runtime(kept_key: Option<&str>, key: &str) -> (r: bool)
    ensures
        r == (opt_str(kept_key) == Some(key@)),
{
    match kept_key {
        Some(k) => same(k, key),
        None => false,
    }
}

/// How many turns a review has: as the environment says, if that is a number, else as configured.
pub fn resolve_reviewer_max_turns(env: Option<&str>, configured: u32) -> (r: u32)
    ensures
        r == (match opt_str(env) {
            Some(v) => match parsed(v, u32::MAX as nat) {
                Some(n) => n as u32,
                None => configured,
            },
            None => configured,
        }),
{
    match env {
        Some(v) => match parse_u32(v) {
            Some(n) => n,
            None => configured,
        },
        None => configured,
    }
}

// ---------------------------------------------------------------- thinking

/// How much thinking is shown, as a word says; some words are from the time when it was a switch.
pub open spec fn display_word(w: Seq<char>) -> Option<ThinkingDisplay> {
    if w == "minimal"@ {
        Some(ThinkingDisplay::Minimal)
    } else if w == "summary"@ || w == "0"@ || w == "false"@ || w == "no"@ || w == "off"@ || w == ""@ {
        Some(ThinkingDisplay::Summary)
    } else if w == "full"@ || w == "1"@ || w == "true"@ || w == "yes"@ || w == "on"@ {
        Some(ThinkingDisplay::Full)
    } else {
        None
    }
}

/// How much thinking is shown, as a text says.
pub fn parse_thinking_display_override(raw: &str) -> (r: Option<ThinkingDisplay>)
    ensures
        r == display_word(ascii_lowered(trimmed(raw@))),
{
    let w = to_ascii_lower(trim(raw).as_str());
    if same(w.as_str(), "minimal") {
        Some(ThinkingDisplay::Minimal)
    } else if same(w.as_str(), "summary") || same(w.as_str(), "0") || same(w.as_str(), "false")
        || same(w.as_str(), "no") || same(w.as_str(), "off") || same(w.as_str(), "") {
        Some(ThinkingDisplay::Summary)
    } else if same(w.as_str(), "full") || same(w.as_str(), "1") || same(w.as_str(), "true") || same(
        w.as_str(),
        "yes",
    ) || same(w.as_str(), "on") {
        Some(ThinkingDisplay::Full)
    } else {
        None
    }
}

/// How much thinking is shown at first: as the environment says, if it says anything that is
/// understood, else as configured.
pub fn resolve_initial_thinking_display(env: Option<&str>, configured: ThinkingDisplay) -> (r:
    ThinkingDisplay)
    ensures
        r == (match opt_str(env) {
            Some(v) => match display_word(ascii_lowered(trimmed(v))) {
                Some(d) => d,
                None => configured,
            },
            None => configured,
        }),
{
    match env {
        Some(v) => match parse_thinking_display_override(v) {
            Some(d) => d,
            None => configured,
        },
        None => configured,
    }
}

// ---------------------------------------------------------------- skills and inventories

/// Whether the skills are looked for: they are wanted, none is known, and nobody is looking.
pub fn starts_skill_discovery(enabled: bool, none_known: bool, is_looking: bool) -> (r: bool)
    ensures
        r == (enabled && none_known && !is_looking),
{
    enabled && none_known && !is_looking
}

/// What is said when the look for skills went down.
pub fn skill_discovery_failure(error: &str) -> (r: String)
    ensures
        r@ == "skills_discovery_join_failed:"@ + error@,
{
    cat("skills_discovery_join_failed:", error)
}

/// Whether a warning says that the skills could not be looked for.
pub open spec fn is_grave(w: Seq<char>) -> bool {
    w == "skills_discovery_roots_failed"@ || has_prefix(w, "skills_root_unreadable:"@)
}

/// Whether the skills that are known stay: the new ones could not be looked for.
pub fn keeps_known_skills(warnings: &Vec<String>) -> (r: bool)
    ensures
        r == (exists|i: int| 0 <= i < warnings@.len() && is_grave((#[trigger] warnings@[i])@)),
{
    let mut i: usize = 0;
    while i < warnings.len()
        invariant
            i <= warnings@.len(),
            forall|j: int| 0 <= j < i ==> !is_grave((#[trigger] warnings@[j])@),
        decreases warnings@.len() - i,
    {
        let w = warnings[i].as_str();
        if same(w, "skills_discovery_roots_failed") || starts_with(w, "skills_root_unreadable:") {
            assert(is_grave(warnings@[i as int]@));
            return true;
        }
        i = i + 1;
    }
    false
}

/// Whether skills and plugins are looked for again before a turn: something was installed since.
pub fn inventory_is_stale(current_epoch: u64, seen_epoch: u64) -> (r: bool)
    ensures
        r == (current_epoch > seen_epoch),
{
    current_epoch > seen_epoch
}

/// Whether what was set up for a directory before is used again: it may be, it is there, and it can
/// do what is asked of it now.
pub fn reuses_scope(caller_brings_client: bool, is_there: bool, in_runtime: bool, had_runtime: bool) -> (r:
    bool)
    ensures
        r == (!caller_brings_client && is_there && (!in_runtime || had_runtime)),
{
    !caller_brings_client && is_there && (!in_runtime || had_runtime)
}

// ---------------------------------------------------------------- the whole

/// What is known when a chat is put together.
#[derive(Clone, Debug, PartialEq, Eq)]
pub struct ContextFacts {
    /// The directory that the caller gave.
    pub session_cwd_override: Option<String>,
    pub current_dir: Option<String>,
    /// The directory that the session remembers, and whether it still exists.
    pub session_cwd: Option<String>,
    pub session_cwd_exists: bool,
    pub agent_definition_dir: String,
    pub agent_trail_dir: String,
    /// The root of the project, as the file system knows it, if it is a directory.
    pub project_root: Option<String>,
    pub bash: BashConfig,
    pub show_thinking_env: Option<String>,
    pub show_thinking: ThinkingDisplay,
    pub reviewer_turns_env: Option<String>,
    pub reviewer_max_turns: u32,
    pub reviewer_model_override: Option<String>,
}

/// How a chat is put together.
#[derive(Clone, Debug, PartialEq, Eq)]
pub struct ContextPlan {
    /// The directory that names the session, and its project.
    pub session_dir: String,
    pub agent_workspace_dir: String,
    /// Where skills and plugins are looked for.
    pub resource_root: String,
    /// Where pages that were fetched are kept.
    pub web_fetch_dir: String,
    pub bash: BashProductionPolicy,
    pub thinking_display: ThinkingDisplay,
    pub reviewer_max_turns: u32,
    /// The model of those who review plans and code; the others follow the session.
    pub reviewer_model: Option<String>,
    pub explorer_model: Option<String>,
    pub verifier_model: Option<String>,
}

fn view_of(o: &Option<String>) -> (r: Option<&str>)
    ensures
        opt_str(r) == opt_text(*o),
{
    match o {
        Some(s) => Some(s.as_str()),
        None => None,
    }
}

/// How a chat is put together.
pub fn plan_context(f: &ContextFacts) -> (r: ContextPlan)
    ensures
        r.session_dir@ == session_dir(opt_text(f.session_cwd_override), opt_text(f.current_dir)),
        r.agent_workspace_dir@ == workspace_dir(
            opt_text(f.session_cwd),
            f.session_cwd_exists,
            opt_text(f.current_dir),
            f.agent_definition_dir@,
        ),
        r.resource_root@ == (match opt_text(f.project_root) {
            Some(p) => p,
            None => r.agent_workspace_dir@,
        }),
        r.web_fetch_dir@ == results_dir(f.agent_trail_dir@),
        r.bash.persist_dir@ == results_dir(f.agent_trail_dir@),
        r.bash.foreground_wait_ms == f.bash.foreground_wait_ms,
        r.bash.max_output_chars == f.bash.max_output_chars,
        r.thinking_display == (match opt_text(f.show_thinking_env) {
            Some(v) => match display_word(ascii_lowered(trimmed(v))) {
                Some(d) => d,
                None => f.show_thinking,
            },
            None => f.show_thinking,
        }),
        r.reviewer_max_turns == (match opt_text(f.reviewer_turns_env) {
            Some(v) => match parsed(v, u32::MAX as nat) {
                Some(n) => n as u32,
                None => f.reviewer_max_turns,
            },
            None => f.reviewer_max_turns,
        }),
        opt_text(r.reviewer_model) == opt_text(f.reviewer_model_override),
        r.explorer_model is None,
        r.verifier_model is None,
{
    let agent_workspace_dir = resolve_agent_workspace_dir(
        view_of(&f.session_cwd),
        f.session_cwd_exists,
        view_of(&f.current_dir),
        f.agent_definition_dir.as_str(),
    );
    let resource_root = match &f.project_root {
        Some(p) => p.clone(),
        None => agent_workspace_dir.clone(),
    };
    ContextPlan {
        session_dir: resolve_session_dir(
            view_of(&f.session_cwd_override),
            view_of(&f.current_dir),
        ),
        agent_workspace_dir,
        resource_root,
        web_fetch_dir: join_path(f.agent_trail_dir.as_str(), "tool-results"),
        bash: resolve_bash_production_policy(&f.bash, f.agent_trail_dir.as_str()),
        thinking_display: resolve_initial_thinking_display(
            view_of(&f.show_thinking_env),
            f.show_thinking,
        ),
        reviewer_max_turns: resolve_reviewer_max_turns(
            view_of(&f.reviewer_turns_env),
            f.reviewer_max_turns,
        ),
        reviewer_model: copy_opt(&f.reviewer_model_override),
        explorer_model: None,
        verifier_model: None,
    }
}

/// What is said when the agent of a chat cannot be registered.
pub fn root_register_failure(error: &str) -> (r: String)
    ensures
        r@ == "agent_registry root register 失败: "@ + error@,
{
    cat("agent_registry root register 失败: ", error)
}

// ---------------------------------------------------------------- laws

proof fn lemma_marked(a: Seq<char>, x: Seq<char>, b: Seq<char>, y: Seq<char>)
    requires
        !a.contains(KEY_MARK),
        !b.contains(KEY_MARK),
        a + seq![KEY_MARK] + x == b + seq![KEY_MARK] + y,
    ensures
        a == b,
        x == y,
{
    let s = a + seq![KEY_MARK] + x;
    let t = b + seq![KEY_MARK] + y;
    assert(s[a.len() as int] == KEY_MARK);
    assert(t[b.len() as int] == KEY_MARK);
    if a.len() < b.len() {
        assert(b[a.len() as int] == t[a.len() as int]);
        assert(b.contains(KEY_MARK));
    }
    if b.len() < a.len() {
        assert(a[b.len() as int] == s[b.len() as int]);
        assert(a.contains(KEY_MARK));
    }
    assert(a =~= s.take(a.len() as int));
    assert(b =~= t.take(b.len() as int));
    assert(x =~= s.skip((a.len() + 1) as int));
    assert(y =~= t.skip((b.len() + 1) as int));
}

/// Files for different providers, interfaces, addresses or keys are never taken for each other, as
/// long as none of these holds the mark between the parts.
pub proof fn law_files_keys_differ(
    p1: Seq<char>,
    a1: Seq<char>,
    u1: Seq<char>,
    k1: Seq<char>,
    p2: Seq<char>,
    a2: Seq<char>,
    u2: Seq<char>,
    k2: Seq<char>,
)
    requires
        !p1.contains(KEY_MARK),
        !p2.contains(KEY_MARK),
        !a1.contains(KEY_MARK),
        !a2.contains(KEY_MARK),
        !u1.contains(KEY_MARK),
        !u2.contains(KEY_MARK),
        files_key(p1, a1, Some(u1), k1) == files_key(p2, a2, Some(u2), k2),
    ensures
        p1 == p2,
        a1 == a2,
        u1 == u2,
        k1 == k2,
{
    let m = seq![KEY_MARK];
    let r1 = u1 + m + k1;
    let r2 = u2 + m + k2;
    let q1 = a1 + m + r1;
    let q2 = a2 + m + r2;
    assert(files_key(p1, a1, Some(u1), k1) =~= p1 + m + q1);
    assert(files_key(p2, a2, Some(u2), k2) =~= p2 + m + q2);
    lemma_marked(p1, q1, p2, q2);
    lemma_marked(a1, r1, a2, r2);
    lemma_marked(u1, k1, u2, k2);
}

/// The session's directory is the one that is given, else the current one, else this one; the agent works in
/// the session's directory while it exists, else in the current one, else in its own.
pub proof fn law_directories_in_their_order(
    given: Option<Seq<char>>,
    exists_now: bool,
    current: Option<Seq<char>>,
    own: Seq<char>,
)
    ensures
        given matches Some(d) ==> session_dir(given, current) == d,
        given is None ==> (current matches Some(d) ==> session_dir(given, current) == d),
        given is None && current is None ==> session_dir(given, current) == seq!['.'],
        given matches Some(d) ==> (exists_now ==> workspace_dir(given, exists_now, current, own) == d),
        given is None || !exists_now ==> (current matches Some(d) ==> workspace_dir(
            given,
            exists_now,
            current,
            own,
        ) == d),
        (given is None || !exists_now) && current is None ==> workspace_dir(given, exists_now, current, own)
            == own,
{
    reveal_strlit(".");
    assert("."@ =~= seq!['.']);
}

/// The words for a display, the older ones too: each means one display, and no other word means any.
pub proof fn law_displays_by_their_words(w: Seq<char>)
    ensures
        display_word(w) == Some(ThinkingDisplay::Minimal) <==> w == "minimal"@,
        display_word(w) == Some(ThinkingDisplay::Summary) <==> seq![
            "summary"@,
            "0"@,
            "false"@,
            "no"@,
            "off"@,
            ""@,
        ].contains(w),
        display_word(w) == Some(ThinkingDisplay::Full) <==> seq![
            "full"@,
            "1"@,
            "true"@,
            "yes"@,
            "on"@,
        ].contains(w),
{
    reveal_strlit("minimal");
    reveal_strlit("summary");
    reveal_strlit("0");
    reveal_strlit("false");
    reveal_strlit("no");
    reveal_strlit("off");
    reveal_strlit("");
    reveal_strlit("full");
    reveal_strlit("1");
    reveal_strlit("true");
    reveal_strlit("yes");
    reveal_strlit("on");
    let s = seq!["summary"@, "0"@, "false"@, "no"@, "off"@, ""@];
    assert(s[0] == "summary"@ && s[1] == "0"@ && s[2] == "false"@ && s[3] == "no"@ && s[4] == "off"@ && s[5]
        == ""@);
    let f = seq!["full"@, "1"@, "true"@, "yes"@, "on"@];
    assert(f[0] == "full"@ && f[1] == "1"@ && f[2] == "true"@ && f[3] == "yes"@ && f[4] == "on"@);
    assert("minimal"@[0] == 'm' && "summary"@[0] == 's' && "0"@[0] == '0' && "false"@[1] == 'a' && "no"@[0]
        == 'n' && "off"@[1] == 'f' && "full"@[1] == 'u' && "1"@[0] == '1' && "true"@[0] == 't' && "yes"@[0]
        == 'y' && "on"@[1] == 'n');
    assert("false"@[0] == 'f' && "full"@[0] == 'f' && "off"@[0] == 'o' && "on"@[0] == 'o');
    assert(""@.len() == 0 && "minimal"@.len() == 7);
    if s.contains(w) {
        let i = choose|i: int| 0 <= i < s.len() && s[i] == w;
        assert(i == 0 || i == 1 || i == 2 || i == 3 || i == 4 || i == 5);
    }
    if f.contains(w) {
        let i = choose|i: int| 0 <= i < f.len() && f[i] == w;
        assert(i == 0 || i == 1 || i == 2 || i == 3 || i == 4);
    }
}

/// The results of tools are kept below the trail of the agent.
pub proof fn law_results_are_kept_below_the_trail(dir: Seq<char>)
    requires
        dir.len() > 0,
        dir.last() != '/',
    ensures
        results_dir(dir) == dir + seq!['/'] + "tool-results"@,
{
    reveal_strlit("tool-results");
    crate::paths::law_joined_paths_stand_below(dir, "tool-results"@);
}

} // verus!
