//! `/thinking`: how much thinking the terminal shows.

use vstd::prelude::*;

use crate::commands::parse::{usage, ChatCommand};
#[allow(unused_imports)]
use crate::commands::parse::is_usage;
use crate::settings::ThinkingDisplay;
use crate::text::{cat3, same};
#[allow(unused_imports)]
use crate::text::texts;

verus! {

/// What `/thinking` is told to do.
#[derive(Clone, Copy, Debug, PartialEq, Eq, Structural)]
pub enum ThinkingAction {
    Minimal,
    Summary,
    Full,
    Toggle,
}

/// The action that a word names.
pub open spec fn action_named(word: Seq<char>) -> Option<ThinkingAction> {
    if word == "minimal"@ {
        Some(ThinkingAction::Minimal)
    } else if word == "summary"@ || word == "off"@ {
        Some(ThinkingAction::Summary)
    } else if word == "full"@ || word == "on"@ {
        Some(ThinkingAction::Full)
    } else if word == "toggle"@ {
        Some(ThinkingAction::Toggle)
    } else {
        None
    }
}

/// `/thinking` takes one action, or none to toggle.
pub open spec fn means(tokens: Seq<Seq<char>>, r: ChatCommand) -> bool {
    if tokens.len() == 1 {
        r == (ChatCommand::Thinking { action: ThinkingAction::Toggle })
    } else if tokens.len() == 2 {
        match action_named(tokens[1]) {
            Some(action) => r == (ChatCommand::Thinking { action }),
            None => is_usage(
                r,
                "用法错误：/thinking 仅支持 minimal/summary/full/toggle（兼容 on/off），收到 `"@
                    + tokens[1] + "`。"@,
            ),
        }
    } else {
        is_usage(
            r,
            "用法错误：/thinking 仅接受 0 或 1 个参数（minimal/summary/full/toggle）。"@,
        )
    }
}

/// The action that a word names.
pub fn parse_action(word: &str) -> (r: Option<ThinkingAction>)
    ensures
        r == action_named(word@),
{
    if same(word, "minimal") {
        Some(ThinkingAction::Minimal)
    } else if same(word, "summary") || same(word, "off") {
        Some(ThinkingAction::Summary)
    } else if same(word, "full") || same(word, "on") {
        Some(ThinkingAction::Full)
    } else if same(word, "toggle") {
        Some(ThinkingAction::Toggle)
    } else {
        None
    }
}

/// Reads the words of a `/thinking` line.
pub fn parse_args(tokens: Vec<String>) -> (r: ChatCommand)
    ensures
        means(texts(tokens@), r),
{
    if tokens.len() == 1 {
        ChatCommand::Thinking { action: ThinkingAction::Toggle }
    } else if tokens.len() == 2 {
        match parse_action(tokens[1].as_str()) {
            Some(action) => ChatCommand::Thinking { action },
            None => ChatCommand::UsageError {
                message: cat3(
                    "用法错误：/thinking 仅支持 minimal/summary/full/toggle（兼容 on/off），收到 `",
                    tokens[1].as_str(),
                    "`。",
                ),
            },
        }
    } else {
        usage("用法错误：/thinking 仅接受 0 或 1 个参数（minimal/summary/full/toggle）。")
    }
}

/// The display that follows in the cycle of toggling.
pub open spec fn next_display(d: ThinkingDisplay) -> ThinkingDisplay {
    match d {
        ThinkingDisplay::Summary => ThinkingDisplay::Full,
        ThinkingDisplay::Full => ThinkingDisplay::Minimal,
        ThinkingDisplay::Minimal => ThinkingDisplay::Summary,
    }
}

/// The display after an action.
pub open spec fn after_action(d: ThinkingDisplay, action: ThinkingAction) -> ThinkingDisplay {
    match action {
        ThinkingAction::Minimal => ThinkingDisplay::Minimal,
        ThinkingAction::Summary => ThinkingDisplay::Summary,
        ThinkingAction::Full => ThinkingDisplay::Full,
        ThinkingAction::Toggle => next_display(d),
    }
}

/// Applies an action to the display, and returns the new display.
pub fn apply_action(flag: &mut ThinkingDisplay, action: ThinkingAction) -> (r: ThinkingDisplay)
    ensures
        r == after_action(*old(flag), action),
        *final(flag) == r,
{
    let next = match action {
        ThinkingAction::Minimal => ThinkingDisplay::Minimal,
        ThinkingAction::Summary => ThinkingDisplay::Summary,
        ThinkingAction::Full => ThinkingDisplay::Full,
        ThinkingAction::Toggle => match *flag {
            ThinkingDisplay::Summary => ThinkingDisplay::Full,
            ThinkingDisplay::Full => ThinkingDisplay::Minimal,
            ThinkingDisplay::Minimal => ThinkingDisplay::Summary,
        },
    };
    *flag = next;
    next
}

/// The name of a display.
pub open spec fn name_of(mode: ThinkingDisplay) -> Seq<char> {
    match mode {
        ThinkingDisplay::Minimal => "minimal"@,
        ThinkingDisplay::Summary => "summary"@,
        ThinkingDisplay::Full => "full"@,
    }
}

/// The name of a display.
pub fn display_name(mode: ThinkingDisplay) -> (r: &'static str)
    ensures
        r@ == name_of(mode),
{
    match mode {
        ThinkingDisplay::Minimal => "minimal",
        ThinkingDisplay::Summary => "summary",
        ThinkingDisplay::Full => "full",
    }
}

/// Runs `/thinking`: applies the action and returns the line to print.
pub fn run(flag: &mut ThinkingDisplay, action: ThinkingAction) -> (r: String)
    ensures
        *final(flag) == after_action(*old(flag), action),
        r@ == "[thinking] 已切换到 "@ + name_of(*final(flag)) + " 模式"@,
{
    let new_value = apply_action(flag, action);
    cat3("[thinking] 已切换到 ", display_name(new_value), " 模式")
}

/// Toggling goes through all three displays: three times in a row leads back, fewer do not.
pub proof fn law_toggle_cycles(d: ThinkingDisplay)
    ensures
        next_display(d) != d,
        next_display(next_display(d)) != d,
        next_display(next_display(next_display(d))) == d,
{
}

/// The name of a display, given to `/thinking`, leads to that display from any other.
pub proof fn law_names_lead_back(d: ThinkingDisplay, from: ThinkingDisplay)
    ensures
        action_named(name_of(d)) matches Some(a) && after_action(from, a) == d,
{
    reveal_strlit("minimal");
    reveal_strlit("summary");
    reveal_strlit("full");
    reveal_strlit("on");
    reveal_strlit("off");
    reveal_strlit("toggle");
    assert("full"@[0] == 'f');
    assert("summary"@[0] == 's');
    assert("minimal"@[0] == 'm');
    assert("off"@[0] == 'o');
}

/// Every action but toggling leads to the display of its name, whatever was shown before; the older words on
/// and off mean full and summary; any other word is refused.
pub proof fn law_actions_lead_to_their_display(d: ThinkingDisplay, word: Seq<char>)
    ensures
        after_action(d, ThinkingAction::Minimal) is Minimal,
        after_action(d, ThinkingAction::Summary) is Summary,
        after_action(d, ThinkingAction::Full) is Full,
        after_action(d, ThinkingAction::Toggle) != d,
        action_named("on"@) == action_named("full"@),
        action_named("off"@) == action_named("summary"@),
        action_named(word) is Some ==> word == "minimal"@ || word == "summary"@ || word == "full"@ || word
            == "on"@ || word == "off"@ || word == "toggle"@,
{
    reveal_strlit("minimal");
    reveal_strlit("summary");
    reveal_strlit("full");
    reveal_strlit("on");
    reveal_strlit("off");
    reveal_strlit("toggle");
    assert("minimal"@[0] == 'm' && "summary"@[0] == 's' && "full"@[0] == 'f' && "on"@[1] == 'n'
        && "off"@[1] == 'f' && "toggle"@[0] == 't');
    assert("on"@[0] == 'o' && "off"@[0] == 'o');
}

} // verus!
