//! `/skill`: listing, reloading and using skills.

use vstd::prelude::*;
use vstd::string::*;

use crate::commands::parse::{usage, ChatCommand, ChatCommandOutcome};
#[allow(unused_imports)]
use crate::commands::parse::is_usage;
#[allow(unused_imports)]
use crate::search::joined;
use crate::search::join;
use crate::text::{cat3, cat5, one_text, push_text, same, trim};
#[allow(unused_imports)]
use crate::text::{texts, trimmed};

verus! {

/// What `/skill` is told to do.
#[derive(Clone, Debug, PartialEq, Eq)]
pub enum SkillCommand {
    List,
    Reload,
    Use { name: String, intent: String },
}

/// The usage message.
pub open spec fn usage_message() -> Seq<char> {
    "用法错误：/skill list | /skill reload | /skill use <name> \"intent...\""@
}

/// `/skill list`, `/skill reload`, or `/skill use` with a name and the words of an intent that is
/// not blank.
pub open spec fn means(tokens: Seq<Seq<char>>, r: ChatCommand) -> bool {
    if tokens.len() == 2 && tokens[1] == "list"@ {
        r == ChatCommand::Skill(SkillCommand::List)
    } else if tokens.len() == 2 && tokens[1] == "reload"@ {
        r == ChatCommand::Skill(SkillCommand::Reload)
    } else if tokens.len() >= 4 && tokens[1] == "use"@ && trimmed(
        joined(tokens.skip(3), " "@),
    ).len() > 0 {
        r matches ChatCommand::Skill(SkillCommand::Use { name, intent }) && name@ == tokens[2]
            && intent@ == trimmed(joined(tokens.skip(3), " "@))
    } else {
        is_usage(r, usage_message())
    }
}

fn usage_error() -> (r: ChatCommand)
    ensures
        is_usage(r, usage_message()),
{
    usage("用法错误：/skill list | /skill reload | /skill use <name> \"intent...\"")
}

/// Reads the words of a `/skill` line.
pub fn parse_args(tokens: Vec<String>) -> (r: ChatCommand)
    ensures
        means(texts(tokens@), r),
{
    proof {
        reveal_strlit("list");
        reveal_strlit("reload");
    }
    if tokens.len() == 2 && same(tokens[1].as_str(), "list") {
        ChatCommand::Skill(SkillCommand::List)
    } else if tokens.len() == 2 && same(tokens[1].as_str(), "reload") {
        ChatCommand::Skill(SkillCommand::Reload)
    } else if tokens.len() >= 4 && same(tokens[1].as_str(), "use") {
        let mut words: Vec<String> = Vec::new();
        let mut i: usize = 3;
        while i < tokens.len()
            invariant
                3 <= i <= tokens@.len(),
                texts(words@) == texts(tokens@).subrange(3, i as int),
            decreases tokens@.len() - i,
        {
            push_text(&mut words, tokens[i].clone());
            assert(texts(tokens@).subrange(3, i + 1) =~= texts(tokens@).subrange(3, i as int).push(
                tokens@[i as int]@,
            ));
            i = i + 1;
        }
        assert(texts(tokens@).subrange(3, tokens@.len() as int) =~= texts(tokens@).skip(3));
        let intent = trim(join(&words, " ").as_str());
        if intent.as_str().is_empty() {
            usage_error()
        } else {
            ChatCommand::Skill(SkillCommand::Use { name: tokens[2].clone(), intent })
        }
    } else {
        usage_error()
    }
}

/// What `/skill list` prints.
pub fn list_lines(enabled: bool, inventory: &str) -> (r: Vec<String>)
    ensures
        texts(r@) == (if enabled {
            seq![inventory@]
        } else {
            seq!["[skill] 技能系统当前已禁用（[skills].enabled=false）。"@, inventory@]
        }),
{
    let mut out: Vec<String> = Vec::new();
    if !enabled {
        push_text(&mut out, "[skill] 技能系统当前已禁用（[skills].enabled=false）。".to_owned());
    }
    push_text(&mut out, inventory.to_owned());
    assert(texts(out@) =~= (if enabled {
        seq![inventory@]
    } else {
        seq!["[skill] 技能系统当前已禁用（[skills].enabled=false）。"@, inventory@]
    }));
    out
}

/// What `/skill reload` prints once the skills are read again.
pub fn reload_lines(enabled: bool, inventory: &str) -> (r: Vec<String>)
    ensures
        texts(r@) == seq![
            if enabled {
                "[skill] 已重载技能目录。"@
            } else {
                "[skill] 技能系统已禁用；当前运行时 SkillSet 已清空。"@
            },
            inventory@,
        ],
{
    let mut out: Vec<String> = Vec::new();
    push_text(
        &mut out,
        (if enabled {
            "[skill] 已重载技能目录。"
        } else {
            "[skill] 技能系统已禁用；当前运行时 SkillSet 已清空。"
        }).to_owned(),
    );
    push_text(&mut out, inventory.to_owned());
    assert(texts(out@) =~= seq![
        if enabled {
            "[skill] 已重载技能目录。"@
        } else {
            "[skill] 技能系统已禁用；当前运行时 SkillSet 已清空。"@
        },
        inventory@,
    ]);
    out
}

/// What was found of the skill that `/skill use` names.
#[derive(Clone, Debug, PartialEq, Eq)]
pub enum SkillLookup {
    /// Skills are switched off.
    Disabled,
    /// There is no such skill; `available` lists those there are.
    Unknown { available: String },
    /// The skill's body.
    Loaded { payload: String },
    /// The skill is there but could not be read.
    Failed { error: String },
}

/// What `/skill use` hands to the model.
pub open spec fn skill_turn(name: Seq<char>, intent: Seq<char>, payload: Seq<char>) -> Seq<char> {
    "User explicitly requested skill `"@ + name
        + "` for this turn. Treat the skill body below as required context for the current task.\n\n"@
        + payload + "\n\nCurrent user intent:\n"@ + intent
}

/// Runs `/skill use` on what was found: the lines to print and what is left to do.
pub fn run_use(name: &str, intent: &str, found: &SkillLookup) -> (r: (
    Vec<String>,
    ChatCommandOutcome,
))
    ensures
        match *found {
            SkillLookup::Disabled => texts(r.0@) == seq![
                "[skill] 技能系统已禁用，无法执行 /skill use。"@,
            ] && r.1 is Handled,
            SkillLookup::Unknown { available } => texts(r.0@) == seq![
                "[skill] 未知 skill `"@ + name@ + "`。当前可用技能: "@ + (if available@.len()
                    == 0 {
                    "<none>"@
                } else {
                    available@
                }) + "。如已修改磁盘，请先执行 /skill reload。"@,
            ] && r.1 is Handled,
            SkillLookup::Loaded { payload } => r.0@.len() == 0 && (r.1 matches ChatCommandOutcome::Continue {
                line,
                echo_user,
                history_line,
            } && line@ == skill_turn(name@, intent@, payload@) && !echo_user && (
            history_line matches Some(h) && h@ == "/skill use "@ + name@ + " "@ + intent@)),
            SkillLookup::Failed { error } => texts(r.0@) == seq![
                "[skill] 加载 `"@ + name@ + "` 失败: "@ + error@,
            ] && r.1 is Handled,
        },
{
    match found {
        SkillLookup::Disabled => (
            one_text("[skill] 技能系统已禁用，无法执行 /skill use。".to_owned()),
            ChatCommandOutcome::Handled,
        ),
        SkillLookup::Unknown { available } => {
            let list: &str = if available.as_str().is_empty() {
                "<none>"
            } else {
                available.as_str()
            };
            let line = cat5(
                "[skill] 未知 skill `",
                name,
                "`。当前可用技能: ",
                list,
                "。如已修改磁盘，请先执行 /skill reload。",
            );
            (one_text(line), ChatCommandOutcome::Handled)
        },
        SkillLookup::Loaded { payload } => {
            let mut line = cat3(
                "User explicitly requested skill `",
                name,
                "` for this turn. Treat the skill body below as required context for the current task.\n\n",
            );
            line.append(payload.as_str());
            line.append("\n\nCurrent user intent:\n");
            line.append(intent);
            let mut kept = cat3("/skill use ", name, " ");
            kept.append(intent);
            (
                Vec::new(),
                ChatCommandOutcome::Continue { line, echo_user: false, history_line: Some(kept) },
            )
        },
        SkillLookup::Failed { error } => {
            let mut line = cat3("[skill] 加载 `", name, "` 失败: ");
            line.append(error.as_str());
            (one_text(line), ChatCommandOutcome::Handled)
        },
    }
}

// ---------------------------------------------------------------- laws

/// `/skill use` takes the name as it is and all words behind it as the wish; without a wish it is refused.
pub proof fn law_skills_are_used_for_a_wish(tokens: Seq<Seq<char>>, r: ChatCommand)
    requires
        tokens.len() >= 4,
        tokens[1] == "use"@,
        means(tokens, r),
    ensures
        trimmed(joined(tokens.skip(3), " "@)).len() > 0 ==> (r matches ChatCommand::Skill(
            SkillCommand::Use { name, intent },
        ) && name@ == tokens[2] && intent@ == trimmed(joined(tokens.skip(3), " "@))),
        trimmed(joined(tokens.skip(3), " "@)).len() == 0 ==> r is UsageError,
{
}

/// A turn with a skill holds the skill's text and the user's wish, both in full, and names the skill.
#[verifier::rlimit(40)]
#[verifier::spinoff_prover]
pub proof fn law_skill_turns_hold_skill_and_wish(name: Seq<char>, intent: Seq<char>, payload: Seq<char>)
    ensures
        crate::search::has_text(skill_turn(name, intent, payload), payload),
        crate::search::has_suffix(skill_turn(name, intent, payload), intent),
        crate::search::has_text(skill_turn(name, intent, payload), name),
{
    let all = skill_turn(name, intent, payload);
    let a = "User explicitly requested skill `"@;
    let b = "` for this turn. Treat the skill body below as required context for the current task.\n\n"@;
    let c = "\n\nCurrent user intent:\n"@;
    crate::search::lemma_text_in_itself(payload);
    crate::search::lemma_text_within(a + name + b, payload, c + intent, payload);
    assert(all =~= (a + name + b) + payload + (c + intent));
    assert(all.subrange(all.len() - intent.len(), all.len() as int) =~= intent);
    crate::search::lemma_text_in_itself(name);
    crate::search::lemma_text_within(a, name, b + payload + c + intent, name);
    assert(all =~= a + name + (b + payload + c + intent));
}

} // verus!
