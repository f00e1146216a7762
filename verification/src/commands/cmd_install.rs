//! `/install`: installing a package.

use vstd::prelude::*;
use vstd::string::*;

use crate::commands::parse::{usage, ChatCommand};
#[allow(unused_imports)]
use crate::commands::parse::is_usage;
use crate::plan_runtime::ask_question_panel::{Answer, AskQuestionResult, Question, QuestionOption};
use crate::search::join;
#[allow(unused_imports)]
use crate::search::joined;
use crate::text::{cat, cat4, push_text, same};
#[allow(unused_imports)]
use crate::text::texts;

verus! {

/// The layer that a package is installed into.
#[derive(Clone, Copy, Debug, PartialEq, Eq, Structural)]
pub enum InstallTarget {
    CurrentProject,
    Agent,
    Global,
}

/// Who sees an installed package.
#[derive(Clone, Copy, Debug, PartialEq, Eq, Structural)]
pub enum PackageVisibility {
    Scope,
    Agent,
    Global,
}

/// The label of a target.
pub open spec fn target_label(t: InstallTarget) -> Seq<char> {
    match t {
        InstallTarget::CurrentProject => "current-project"@,
        InstallTarget::Agent => "agent"@,
        InstallTarget::Global => "global"@,
    }
}

impl InstallTarget {
    /// Who sees a package that is installed here.
    pub open spec fn visibility(self) -> PackageVisibility {
        match self {
            InstallTarget::CurrentProject => PackageVisibility::Scope,
            InstallTarget::Agent => PackageVisibility::Agent,
            InstallTarget::Global => PackageVisibility::Global,
        }
    }

    /// Who sees a package that is installed here.
    pub fn into_visibility(self) -> (r: PackageVisibility)
        ensures
            r == self.visibility(),
    {
        match self {
            InstallTarget::CurrentProject => PackageVisibility::Scope,
            InstallTarget::Agent => PackageVisibility::Agent,
            InstallTarget::Global => PackageVisibility::Global,
        }
    }

    /// The label of the target.
    pub fn label(self) -> (r: &'static str)
        ensures
            r@ == target_label(self),
    {
        match self {
            InstallTarget::CurrentProject => "current-project",
            InstallTarget::Agent => "agent",
            InstallTarget::Global => "global",
        }
    }
}

/// What to install, and where to.
#[derive(Clone, Debug, PartialEq, Eq)]
pub struct InstallCommand {
    pub source: String,
    pub target: Option<InstallTarget>,
}

/// The target that a word names on the command line.
pub open spec fn target_named(word: Seq<char>) -> Option<InstallTarget> {
    if word == "current-project"@ || word == "scope"@ {
        Some(InstallTarget::CurrentProject)
    } else if word == "agent"@ {
        Some(InstallTarget::Agent)
    } else if word == "global"@ {
        Some(InstallTarget::Global)
    } else {
        None
    }
}

/// The usage message.
pub open spec fn usage_message() -> Seq<char> {
    "用法错误：/install <source> [current-project|agent|global]"@
}

/// `/install` with a source and at most one target.
pub open spec fn means(tokens: Seq<Seq<char>>, r: ChatCommand) -> bool {
    if tokens.len() == 2 {
        r matches ChatCommand::Install(c) && c.source@ == tokens[1] && c.target is None
    } else if tokens.len() == 3 && target_named(tokens[2]) is Some {
        r matches ChatCommand::Install(c) && c.source@ == tokens[1] && c.target == target_named(
            tokens[2],
        )
    } else {
        is_usage(r, usage_message())
    }
}

/// The target that a word names.
pub fn parse_target(raw: &str) -> (r: Option<InstallTarget>)
    ensures
        r == target_named(raw@),
{
    if same(raw, "current-project") || same(raw, "scope") {
        Some(InstallTarget::CurrentProject)
    } else if same(raw, "agent") {
        Some(InstallTarget::Agent)
    } else if same(raw, "global") {
        Some(InstallTarget::Global)
    } else {
        None
    }
}

/// Reads the words of an `/install` line.
pub fn parse_args(tokens: Vec<String>) -> (r: ChatCommand)
    ensures
        means(texts(tokens@), r),
{
    if tokens.len() == 2 {
        return ChatCommand::Install(InstallCommand { source: tokens[1].clone(), target: None });
    }
    if tokens.len() == 3 {
        if let Some(target) = parse_target(tokens[2].as_str()) {
            return ChatCommand::Install(
                InstallCommand { source: tokens[1].clone(), target: Some(target) },
            );
        }
    }
    usage("用法错误：/install <source> [current-project|agent|global]")
}

// ---------------------------------------------------------------- choosing a target

/// Whether `o` is an option with these words.
pub open spec fn is_option(o: QuestionOption, id: Seq<char>, label: Seq<char>, recommended: bool) -> bool {
    o.id@ == id && o.label@ == label && o.recommended == recommended
}

fn option(id: &str, label: &str, recommended: bool) -> (r: QuestionOption)
    ensures
        is_option(r, id@, label@, recommended),
{
    QuestionOption { id: id.to_owned(), label: label.to_owned(), recommended }
}

/// The question that `/install` asks if no target is given.
pub fn target_question() -> (r: Question)
    ensures
        r.id@ == "install-target"@,
        r.prompt@ == "请选择 `/install` 的目标层。"@,
        !r.allow_multiple,
        r.options@.len() == 3,
        is_option(r.options@[0], "scope"@, "current-project"@, true),
        is_option(r.options@[1], "agent"@, "agent"@, false),
        is_option(r.options@[2], "global"@, "global"@, false),
{
    let mut options: Vec<QuestionOption> = Vec::new();
    options.push(option("scope", "current-project", true));
    options.push(option("agent", "agent", false));
    options.push(option("global", "global", false));
    Question {
        id: "install-target".to_owned(),
        prompt: "请选择 `/install` 的目标层。".to_owned(),
        allow_multiple: false,
        options,
    }
}

/// The first answer that was not skipped.
pub open spec fn first_given(answers: Seq<Answer>) -> Option<Answer>
    decreases answers.len(),
{
    if answers.len() == 0 {
        None
    } else if !answers[0].skipped {
        Some(answers[0])
    } else {
        first_given(answers.drop_first())
    }
}

/// The target that the answer picks: none if the user broke off, gave no answer, or picked
/// something else.
pub open spec fn target_chosen(result: AskQuestionResult) -> Option<InstallTarget> {
    if result.cancelled {
        None
    } else {
        match first_given(result.answers@) {
            None => None,
            Some(a) => if a.option_ids@.len() == 0 {
                None
            } else {
                let id = a.option_ids@[0]@;
                if id == "scope"@ {
                    Some(InstallTarget::CurrentProject)
                } else if id == "agent"@ {
                    Some(InstallTarget::Agent)
                } else if id == "global"@ {
                    Some(InstallTarget::Global)
                } else {
                    None
                }
            },
        }
    }
}

/// The target that the answer picks.
pub fn choose_target(result: &AskQuestionResult) -> (r: Option<InstallTarget>)
    ensures
        r == target_chosen(*result),
{
    if result.cancelled {
        return None;
    }
    let mut i: usize = 0;
    assert(result.answers@.skip(0) =~= result.answers@);
    while i < result.answers.len()
        invariant
            i <= result.answers@.len(),
            !result.cancelled,
            first_given(result.answers@.skip(i as int)) == first_given(result.answers@),
        decreases result.answers@.len() - i,
    {
        let a = &result.answers[i];
        assert(result.answers@.skip(i as int).drop_first() =~= result.answers@.skip(i + 1));
        if !a.skipped {
            if a.option_ids.len() == 0 {
                return None;
            }
            let id = a.option_ids[0].as_str();
            return if same(id, "scope") {
                Some(InstallTarget::CurrentProject)
            } else if same(id, "agent") {
                Some(InstallTarget::Agent)
            } else if same(id, "global") {
                Some(InstallTarget::Global)
            } else {
                None
            };
        }
        i = i + 1;
    }
    None
}

// ---------------------------------------------------------------- after the installation

/// The kinds of resources in a package.
#[derive(Clone, Copy, Debug, PartialEq, Eq, Structural)]
pub enum PackageResourceKind {
    Plugin,
    Skill,
}

/// One resource of a package.
#[derive(Clone, Debug, PartialEq, Eq)]
pub struct PackageResource {
    pub kind: PackageResourceKind,
    pub id: String,
}

/// The word for a kind.
pub open spec fn kind_word(k: PackageResourceKind) -> Seq<char> {
    match k {
        PackageResourceKind::Plugin => "plugin"@,
        PackageResourceKind::Skill => "skill"@,
    }
}

/// The ids of the plugins among the resources.
pub open spec fn plugins_among(resources: Seq<PackageResource>) -> Seq<Seq<char>>
    decreases resources.len(),
{
    if resources.len() == 0 {
        Seq::empty()
    } else {
        let rest = plugins_among(resources.drop_last());
        if resources.last().kind is Plugin {
            rest.push(resources.last().id@)
        } else {
            rest
        }
    }
}

/// Whether there is a skill among the resources.
pub open spec fn has_skill(resources: Seq<PackageResource>) -> bool {
    exists|i: int| 0 <= i < resources.len() && (#[trigger] resources[i]).kind is Skill
}

/// What an installation changes in the running session: the plugins it brings, and whether it
/// brings a skill.
pub fn refresh_needs(resources: &Vec<PackageResource>) -> (r: (Vec<String>, bool))
    ensures
        texts(r.0@) == plugins_among(resources@),
        r.1 == has_skill(resources@),
{
    let mut ids: Vec<String> = Vec::new();
    let mut skill: bool = false;
    let mut i: usize = 0;
    assert(texts(ids@) =~= plugins_among(resources@.take(0)));
    while i < resources.len()
        invariant
            i <= resources@.len(),
            texts(ids@) == plugins_among(resources@.take(i as int)),
            skill == exists|j: int| 0 <= j < i && (#[trigger] resources@[j]).kind is Skill,
        decreases resources@.len() - i,
    {
        assert(resources@.take(i + 1).drop_last() =~= resources@.take(i as int));
        match resources[i].kind {
            PackageResourceKind::Plugin => {
                push_text(&mut ids, resources[i].id.clone());
            },
            PackageResourceKind::Skill => {
                skill = true;
                assert(resources@[i as int].kind is Skill);
            },
        }
        i = i + 1;
    }
    assert(resources@.take(resources@.len() as int) =~= resources@);
    (ids, skill)
}

/// What is known of a plugin in the running session.
#[derive(Clone, Debug, PartialEq, Eq)]
pub struct PluginActivity {
    pub plugin_id: String,
    /// Whether it was loaded before.
    pub loaded: bool,
    /// Whether the session runs it in a machine of its own.
    pub has_session_vm: bool,
}

/// The plugins that stay as they were loaded.
pub open spec fn retained(plugins: Seq<PluginActivity>) -> Seq<Seq<char>>
    decreases plugins.len(),
{
    if plugins.len() == 0 {
        Seq::empty()
    } else {
        let rest = retained(plugins.drop_last());
        if plugins.last().loaded || plugins.last().has_session_vm {
            rest.push(plugins.last().plugin_id@)
        } else {
            rest
        }
    }
}

/// The plugins that stay as they were loaded.
pub fn retained_loaded_plugins(plugins: &Vec<PluginActivity>) -> (r: Vec<String>)
    ensures
        texts(r@) == retained(plugins@),
{
    let mut out: Vec<String> = Vec::new();
    let mut i: usize = 0;
    assert(texts(out@) =~= retained(plugins@.take(0)));
    while i < plugins.len()
        invariant
            i <= plugins@.len(),
            texts(out@) == retained(plugins@.take(i as int)),
        decreases plugins@.len() - i,
    {
        assert(plugins@.take(i + 1).drop_last() =~= plugins@.take(i as int));
        if plugins[i].loaded || plugins[i].has_session_vm {
            push_text(&mut out, plugins[i].plugin_id.clone());
        }
        i = i + 1;
    }
    assert(plugins@.take(plugins@.len() as int) =~= plugins@);
    out
}

/// How bringing the running session up to date went.
#[derive(Clone, Debug, PartialEq, Eq)]
pub enum CatalogRefresh {
    /// There was no plugin to bring in.
    NotNeeded,
    /// The plugins were brought in, with these warnings.
    Refreshed { warnings: Vec<String> },
    /// They were not.
    Failed { error: String },
}

/// An installation that went through.
#[derive(Clone, Debug, PartialEq, Eq)]
pub struct InstallOutcome {
    pub name: String,
    pub version: String,
    pub resources: Vec<PackageResource>,
    pub warnings: Vec<String>,
}

/// All warnings of an installation, in the order in which they arise.
pub open spec fn all_warnings(
    outcome: InstallOutcome,
    refresh: CatalogRefresh,
    kept: Seq<Seq<char>>,
) -> Seq<Seq<char>> {
    texts(outcome.warnings@) + (match refresh {
        CatalogRefresh::NotNeeded => Seq::empty(),
        CatalogRefresh::Refreshed { warnings } => texts(warnings@),
        CatalogRefresh::Failed { error } => seq!["当前会话 plugin 清单刷新失败: "@ + error@],
    }) + (if kept.len() == 0 {
        Seq::empty()
    } else {
        seq!["已加载 plugin 不会热更新: "@ + joined(kept, ", "@)]
    })
}

/// What `/install` prints after an installation.
pub open spec fn report(
    outcome: InstallOutcome,
    target: InstallTarget,
    skills_refreshed: bool,
    refresh: CatalogRefresh,
    kept: Seq<Seq<char>>,
) -> Seq<Seq<char>> {
    (if skills_refreshed {
        seq!["[install] 当前会话 SkillSet 已刷新。"@]
    } else {
        Seq::empty()
    }) + (if refresh is Refreshed {
        seq!["[install] 当前会话 plugin catalog/static tools 已刷新。"@]
    } else {
        Seq::empty()
    }) + seq![
        "[install] 已安装 package "@ + outcome.name@ + "@"@ + outcome.version@ + " -> "@
            + target_label(target),
    ] + outcome.resources@.map_values(
        |r: PackageResource| "  - "@ + kind_word(r.kind) + ": "@ + r.id@,
    ) + (if all_warnings(outcome, refresh, kept).len() == 0 {
        Seq::empty()
    } else {
        seq!["[install] warnings:"@] + all_warnings(outcome, refresh, kept).map_values(
            |w: Seq<char>| "  - "@ + w,
        )
    })
}

fn append_texts(out: &mut Vec<String>, more: &Vec<String>)
    ensures
        texts(final(out)@) == texts(old(out)@) + texts(more@),
{
    let ghost before = texts(out@);
    let mut i: usize = 0;
    assert(before + texts(more@).take(0) =~= before);
    while i < more.len()
        invariant
            i <= more@.len(),
            texts(out@) == before + texts(more@).take(i as int),
        decreases more@.len() - i,
    {
        push_text(out, more[i].clone());
        assert(texts(out@) =~= before + texts(more@).take(i + 1));
        i = i + 1;
    }
    assert(texts(more@).take(more@.len() as int) =~= texts(more@));
}

fn warnings_of(outcome: &InstallOutcome, refresh: &CatalogRefresh, kept: &Vec<String>) -> (r: Vec<
    String,
>)
    ensures
        texts(r@) == all_warnings(*outcome, *refresh, texts(kept@)),
{
    let mut out: Vec<String> = Vec::new();
    append_texts(&mut out, &outcome.warnings);
    match refresh {
        CatalogRefresh::NotNeeded => {},
        CatalogRefresh::Refreshed { warnings } => {
            append_texts(&mut out, warnings);
        },
        CatalogRefresh::Failed { error } => {
            push_text(&mut out, cat("当前会话 plugin 清单刷新失败: ", error.as_str()));
        },
    }
    assert(texts(kept@).len() == kept@.len());
    if kept.len() > 0 {
        push_text(&mut out, cat("已加载 plugin 不会热更新: ", join(kept, ", ").as_str()));
    }
    assert(texts(out@) =~= all_warnings(*outcome, *refresh, texts(kept@)));
    out
}

/// What `/install` prints after an installation: what was refreshed, what was installed, and what
/// to be warned of. `skills_refreshed` says whether the skills were looked for again, as they are if
/// the package brought one; `kept` are the plugins that stay as they were loaded.
pub fn report_lines(
    outcome: &InstallOutcome,
    target: InstallTarget,
    skills_refreshed: bool,
    refresh: &CatalogRefresh,
    kept: &Vec<String>,
) -> (r: Vec<String>)
    ensures
        texts(r@) == report(*outcome, target, skills_refreshed, *refresh, texts(kept@)),
{
    let mut out: Vec<String> = Vec::new();
    if skills_refreshed {
        push_text(&mut out, "[install] 当前会话 SkillSet 已刷新。".to_owned());
    }
    if let CatalogRefresh::Refreshed { .. } = refresh {
        push_text(
            &mut out,
            "[install] 当前会话 plugin catalog/static tools 已刷新。".to_owned(),
        );
    }
    let mut head = cat4(
        "[install] 已安装 package ",
        outcome.name.as_str(),
        "@",
        outcome.version.as_str(),
    );
    head.append(" -> ");
    head.append(target.label());
    push_text(&mut out, head);
    let ghost start = texts(out@);
    let ghost rows = outcome.resources@.map_values(
        |r: PackageResource| "  - "@ + kind_word(r.kind) + ": "@ + r.id@,
    );
    let mut i: usize = 0;
    assert(start + rows.take(0) =~= start);
    while i < outcome.resources.len()
        invariant
            i <= outcome.resources@.len(),
            rows == outcome.resources@.map_values(
                |r: PackageResource| "  - "@ + kind_word(r.kind) + ": "@ + r.id@,
            ),
            texts(out@) == start + rows.take(i as int),
        decreases outcome.resources@.len() - i,
    {
        let word: &str = match outcome.resources[i].kind {
            PackageResourceKind::Plugin => "plugin",
            PackageResourceKind::Skill => "skill",
        };
        push_text(&mut out, cat4("  - ", word, ": ", outcome.resources[i].id.as_str()));
        assert(texts(out@) =~= start + rows.take(i + 1));
        i = i + 1;
    }
    assert(rows.take(rows.len() as int) =~= rows);
    let warnings = warnings_of(outcome, refresh, kept);
    assert(texts(warnings@).len() == warnings@.len());
    if warnings.len() > 0 {
        push_text(&mut out, "[install] warnings:".to_owned());
        let ghost mid = texts(out@);
        let ghost wrows = texts(warnings@).map_values(|w: Seq<char>| "  - "@ + w);
        let mut k: usize = 0;
        assert(mid + wrows.take(0) =~= mid);
        while k < warnings.len()
            invariant
                k <= warnings@.len(),
                wrows == texts(warnings@).map_values(|w: Seq<char>| "  - "@ + w),
                texts(out@) == mid + wrows.take(k as int),
            decreases warnings@.len() - k,
        {
            push_text(&mut out, cat("  - ", warnings[k].as_str()));
            assert(texts(out@) =~= mid + wrows.take(k + 1));
            k = k + 1;
        }
        assert(wrows.take(wrows.len() as int) =~= wrows);
    }
    assert(texts(out@) =~= report(*outcome, target, skills_refreshed, *refresh, texts(kept@)));
    out
}

/// Where an installation stands.
#[derive(Clone, Debug, PartialEq, Eq)]
pub enum InstallStep {
    /// Ask the user for the target.
    AskTarget,
    /// Prepare and install the source for those who shall see it.
    Install { target: InstallTarget, visibility: PackageVisibility },
    /// Print the line; nothing was installed.
    Stop { line: String },
}

/// How `/install` begins: a given target is taken, a missing one is asked for.
pub fn first_step(command: &InstallCommand) -> (r: InstallStep)
    ensures
        match command.target {
            Some(t) => r == (InstallStep::Install { target: t, visibility: t.visibility() }),
            None => r is AskTarget,
        },
{
    match command.target {
        Some(target) => InstallStep::Install { target, visibility: target.into_visibility() },
        None => InstallStep::AskTarget,
    }
}

/// How `/install` goes on once the user was asked; without a way to ask there is no answer.
pub fn step_after_question(result: Option<&AskQuestionResult>) -> (r: InstallStep)
    ensures
        ({
            let chosen = match result {
                Some(a) => target_chosen(*a),
                None => None,
            };
            match chosen {
                Some(t) => r == (InstallStep::Install { target: t, visibility: t.visibility() }),
                None => r matches InstallStep::Stop { line } && line@
                    == "[install] 已取消，未写入任何文件。"@,
            }
        }),
{
    let chosen = match result {
        Some(a) => choose_target(a),
        None => None,
    };
    match chosen {
        Some(target) => InstallStep::Install { target, visibility: target.into_visibility() },
        None => InstallStep::Stop { line: "[install] 已取消，未写入任何文件。".to_owned() },
    }
}

/// What `/install` prints if preparing or installing failed.
pub fn failure_line(while_preparing: bool, error: &str) -> (r: String)
    ensures
        r@ == (if while_preparing {
            "[install] 安装准备失败: "@
        } else {
            "[install] 安装失败: "@
        }) + error@,
{
    cat(
        if while_preparing {
            "[install] 安装准备失败: "
        } else {
            "[install] 安装失败: "
        },
        error,
    )
}

// ---------------------------------------------------------------- laws

/// The name of a place to install to names that place, and `/install` with it asks for it; another word is
/// refused, and without a word the place is open. The source is taken as it is.
pub proof fn law_targets_are_named(t: InstallTarget, source: Seq<char>, word: Seq<char>, r: ChatCommand)
    ensures
        target_named(target_label(t)) == Some(t),
        means(seq!["/install"@, source, target_label(t)], r) ==> (r matches ChatCommand::Install(c)
            && c.source@ == source && c.target == Some(t)),
        means(seq!["/install"@, source], r) ==> (r matches ChatCommand::Install(c) && c.source@ == source
            && c.target is None),
        target_named(word) is None && means(seq!["/install"@, source, word], r) ==> r is UsageError,
        t is CurrentProject <==> t.visibility() is Scope,
        t is Agent <==> t.visibility() is Agent,
        t is Global <==> t.visibility() is Global,
{
    reveal_strlit("current-project");
    reveal_strlit("scope");
    reveal_strlit("agent");
    reveal_strlit("global");
    assert("current-project"@[0] == 'c' && "scope"@[0] == 's' && "agent"@[0] == 'a' && "global"@[0]
        == 'g');
    assert(seq!["/install"@, source, target_label(t)][2] == target_label(t));
    assert(seq!["/install"@, source, word][2] == word);
}

proof fn lemma_first_given(answers: Seq<Answer>, i: int)
    requires
        0 <= i < answers.len(),
        !answers[i].skipped,
        forall|j: int| 0 <= j < i ==> (#[trigger] answers[j]).skipped,
    ensures
        first_given(answers) == Some(answers[i]),
    decreases i,
{
    if i > 0 {
        let rest = answers.drop_first();
        assert(answers[0].skipped);
        assert forall|j: int| 0 <= j < i - 1 implies (#[trigger] rest[j]).skipped by {
            assert(rest[j] == answers[j + 1]);
        }
        lemma_first_given(rest, i - 1);
    }
}

/// The place that the user picks is the place that is taken: the pick of the first answer that was not
/// skipped. Whoever breaks off picks none.
pub proof fn law_picked_targets_are_taken(result: AskQuestionResult, i: int)
    ensures
        result.cancelled ==> target_chosen(result) is None,
        !result.cancelled && 0 <= i < result.answers@.len() && !result.answers@[i].skipped && (forall|
            j: int,
        | 0 <= j < i ==> (#[trigger] result.answers@[j]).skipped) && result.answers@[i].option_ids@.len()
            > 0 ==> {
            let id = result.answers@[i].option_ids@[0]@;
            &&& target_chosen(result) == Some(InstallTarget::CurrentProject) <==> id == "scope"@
            &&& target_chosen(result) == Some(InstallTarget::Agent) <==> id == "agent"@
            &&& target_chosen(result) == Some(InstallTarget::Global) <==> id == "global"@
        },
{
    reveal_strlit("scope");
    reveal_strlit("agent");
    reveal_strlit("global");
    assert("scope"@[0] == 's' && "agent"@[0] == 'a' && "global"@[0] == 'g');
    if !result.cancelled && 0 <= i < result.answers@.len() && !result.answers@[i].skipped && (forall|j: int|
        0 <= j < i ==> (#[trigger] result.answers@[j]).skipped) {
        lemma_first_given(result.answers@, i);
    }
}

/// The plugins of a package are all its resources of that kind, in order; the plugins that stay as they are
/// are all that are loaded or run, in order.
pub proof fn law_plugins_are_picked_out(resources: Seq<PackageResource>, plugins: Seq<PluginActivity>)
    ensures
        plugins_among(resources) == resources.filter(|r: PackageResource| r.kind is Plugin).map_values(
            |r: PackageResource| r.id@,
        ),
        retained(plugins) == plugins.filter(
            |p: PluginActivity| p.loaded || p.has_session_vm,
        ).map_values(|p: PluginActivity| p.plugin_id@),
    decreases resources.len() + plugins.len(),
{
    reveal(Seq::filter);
    let is_plugin = |r: PackageResource| r.kind is Plugin;
    let id = |r: PackageResource| r.id@;
    let stays = |p: PluginActivity| p.loaded || p.has_session_vm;
    let name = |p: PluginActivity| p.plugin_id@;
    if resources.len() > 0 {
        let front = resources.drop_last();
        law_plugins_are_picked_out(front, plugins);
        if resources.last().kind is Plugin {
            assert(resources.filter(is_plugin).map_values(id) =~= front.filter(is_plugin).map_values(
                id,
            ).push(resources.last().id@));
        }
    } else {
        assert(plugins_among(resources) =~= resources.filter(is_plugin).map_values(id));
    }
    if plugins.len() > 0 {
        let front = plugins.drop_last();
        law_plugins_are_picked_out(resources, front);
        if plugins.last().loaded || plugins.last().has_session_vm {
            assert(plugins.filter(stays).map_values(name) =~= front.filter(stays).map_values(name).push(
                plugins.last().plugin_id@,
            ));
        }
    } else {
        assert(retained(plugins) =~= plugins.filter(stays).map_values(name));
    }
}

/// The report names the package, its version and the place, lists every resource and every warning, and
/// speaks of warnings only if there are any.
pub proof fn law_reports_list_everything(
    outcome: InstallOutcome,
    target: InstallTarget,
    skills_refreshed: bool,
    refresh: CatalogRefresh,
    kept: Seq<Seq<char>>,
    i: int,
    k: int,
)
    ensures
        report(outcome, target, skills_refreshed, refresh, kept).contains(
            "[install] 已安装 package "@ + outcome.name@ + "@"@ + outcome.version@ + " -> "@
                + target_label(target),
        ),
        0 <= i < outcome.resources@.len() ==> report(
            outcome,
            target,
            skills_refreshed,
            refresh,
            kept,
        ).contains(
            "  - "@ + kind_word(outcome.resources@[i].kind) + ": "@ + outcome.resources@[i].id@,
        ),
        0 <= k < all_warnings(outcome, refresh, kept).len() ==> report(
            outcome,
            target,
            skills_refreshed,
            refresh,
            kept,
        ).contains("  - "@ + all_warnings(outcome, refresh, kept)[k]),
        all_warnings(outcome, refresh, kept).len() == 0 ==> report(
            outcome,
            target,
            skills_refreshed,
            refresh,
            kept,
        ).len() == 1 + outcome.resources@.len() + (if skills_refreshed {
            1int
        } else {
            0
        }) + (if refresh is Refreshed {
            1int
        } else {
            0
        }),
{
    let all = report(outcome, target, skills_refreshed, refresh, kept);
    let warnings = all_warnings(outcome, refresh, kept);
    let n = (if skills_refreshed {
        1int
    } else {
        0
    }) + (if refresh is Refreshed {
        1int
    } else {
        0
    });
    let m = n + 1 + outcome.resources@.len();
    let head = "[install] 已安装 package "@ + outcome.name@ + "@"@ + outcome.version@ + " -> "@
        + target_label(target);
    assert(all[n] == head);
    if 0 <= i < outcome.resources@.len() {
        assert(all[n + 1 + i] == "  - "@ + kind_word(outcome.resources@[i].kind) + ": "@
            + outcome.resources@[i].id@);
    }
    if 0 <= k < warnings.len() {
        assert(all[m + 1 + k] == "  - "@ + warnings[k]);
    }
}

/// Every warning is told: those of the installation, those of looking at the plugins again or that it failed,
/// and that loaded plugins stay as they are, by name.
#[verifier::rlimit(40)]
#[verifier::spinoff_prover]
pub proof fn law_every_install_warning_is_told(
    outcome: InstallOutcome,
    refresh: CatalogRefresh,
    kept: Seq<Seq<char>>,
    i: int,
)
    ensures
        0 <= i < outcome.warnings@.len() ==> all_warnings(outcome, refresh, kept)[i]
            == outcome.warnings@[i]@,
        refresh matches CatalogRefresh::Refreshed { warnings } ==> (0 <= i < warnings@.len()
            ==> all_warnings(outcome, refresh, kept)[outcome.warnings@.len() + i] == warnings@[i]@),
        refresh matches CatalogRefresh::Failed { error } ==> crate::search::has_text(
            all_warnings(outcome, refresh, kept)[outcome.warnings@.len() as int],
            error@,
        ),
        0 <= i < kept.len() ==> all_warnings(outcome, refresh, kept).len() > 0
            && crate::search::has_text(all_warnings(outcome, refresh, kept).last(), kept[i]),
{
    let all = all_warnings(outcome, refresh, kept);
    let a = texts(outcome.warnings@);
    assert(a.len() == outcome.warnings@.len());
    if 0 <= i < outcome.warnings@.len() {
        assert(all[i] == a[i]);
    }
    match refresh {
        CatalogRefresh::Refreshed { warnings } => {
            let b = texts(warnings@);
            assert(b.len() == warnings@.len());
            if 0 <= i < warnings@.len() {
                assert(all[a.len() + i] == b[i]);
            }
        },
        CatalogRefresh::Failed { error } => {
            crate::search::lemma_text_in_itself(error@);
            crate::search::lemma_text_within(
                "当前会话 plugin 清单刷新失败: "@,
                error@,
                Seq::empty(),
                error@,
            );
            let line = "当前会话 plugin 清单刷新失败: "@ + error@;
            assert(line + Seq::<char>::empty() =~= line);
            assert(all[a.len() as int] == line);
        },
        _ => {},
    }
    if 0 <= i < kept.len() {
        let list = joined(kept, ", "@);
        crate::search::law_joined_holds_every_part(kept, ", "@, i);
        crate::search::lemma_text_within("已加载 plugin 不会热更新: "@, list, Seq::empty(), kept[i]);
        let line = "已加载 plugin 不会热更新: "@ + list;
        assert(line + Seq::<char>::empty() =~= line);
        assert(all.last() == line);
    }
}

} // verus!
