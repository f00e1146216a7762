//! `/effort`: how hard the current model is asked to think.

use vstd::prelude::*;
use vstd::string::*;

use crate::commands::parse::{usage, ChatCommand};
#[allow(unused_imports)]
use crate::commands::parse::is_usage;
use crate::settings::ThinkingLevel;
use crate::text::{cat, cat3, cat4, same, to_ascii_lower, trim};
#[allow(unused_imports)]
use crate::text::{ascii_lowered, texts, trimmed};

verus! {

/// The level that a word names, in any case and with any space around it.
pub open spec fn level_named(word: Seq<char>) -> Option<ThinkingLevel> {
    let w = ascii_lowered(trimmed(word));
    if w == "low"@ {
        Some(ThinkingLevel::Low)
    } else if w == "medium"@ {
        Some(ThinkingLevel::Medium)
    } else if w == "high"@ {
        Some(ThinkingLevel::High)
    } else if w == "xhigh"@ {
        Some(ThinkingLevel::Xhigh)
    } else {
        None
    }
}

/// The word for a level.
pub open spec fn level_word(level: ThinkingLevel) -> Seq<char> {
    match level {
        ThinkingLevel::Low => "low"@,
        ThinkingLevel::Medium => "medium"@,
        ThinkingLevel::High => "high"@,
        ThinkingLevel::Xhigh => "xhigh"@,
    }
}

/// `/effort` takes one level.
pub open spec fn means(tokens: Seq<Seq<char>>, r: ChatCommand) -> bool {
    if tokens.len() == 2 {
        match level_named(tokens[1]) {
            Some(level) => r == (ChatCommand::Effort { level }),
            None => is_usage(
                r,
                "用法错误：/effort 仅支持 low|medium|high|xhigh，收到 `"@ + tokens[1] + "`。"@,
            ),
        }
    } else if tokens.len() == 1 {
        is_usage(r, "用法错误：/effort 需要一个参数：low|medium|high|xhigh。"@)
    } else {
        is_usage(r, "用法错误：/effort 仅支持 low|medium|high|xhigh。"@)
    }
}

/// Reads the words of an `/effort` line.
pub fn parse_args(tokens: Vec<String>) -> (r: ChatCommand)
    ensures
        means(texts(tokens@), r),
{
    if tokens.len() == 2 {
        match parse_effort_level(tokens[1].as_str()) {
            Some(level) => ChatCommand::Effort { level },
            None => usage_error(tokens[1].as_str()),
        }
    } else if tokens.len() == 1 {
        usage("用法错误：/effort 需要一个参数：low|medium|high|xhigh。")
    } else {
        usage("用法错误：/effort 仅支持 low|medium|high|xhigh。")
    }
}

/// The level that a word names.
pub fn parse_effort_level(level: &str) -> (r: Option<ThinkingLevel>)
    ensures
        r == level_named(level@),
{
    let t = trim(level);
    let w = to_ascii_lower(t.as_str());
    if same(w.as_str(), "low") {
        Some(ThinkingLevel::Low)
    } else if same(w.as_str(), "medium") {
        Some(ThinkingLevel::Medium)
    } else if same(w.as_str(), "high") {
        Some(ThinkingLevel::High)
    } else if same(w.as_str(), "xhigh") {
        Some(ThinkingLevel::Xhigh)
    } else {
        None
    }
}

fn usage_error(level: &str) -> (r: ChatCommand)
    ensures
        is_usage(
            r,
            "用法错误：/effort 仅支持 low|medium|high|xhigh，收到 `"@ + level@ + "`。"@,
        ),
{
    ChatCommand::UsageError {
        message: cat3("用法错误：/effort 仅支持 low|medium|high|xhigh，收到 `", level, "`。"),
    }
}

impl ThinkingLevel {
    /// The word for the level.
    pub fn as_str(self) -> (r: &'static str)
        ensures
            r@ == level_word(self),
    {
        match self {
            ThinkingLevel::Low => "low",
            ThinkingLevel::Medium => "medium",
            ThinkingLevel::High => "high",
            ThinkingLevel::Xhigh => "xhigh",
        }
    }
}

/// The levels that were set for single models, and the level of all others.
#[derive(Clone, Debug, PartialEq, Eq)]
pub struct ModelThinkingStore {
    pub default_level: ThinkingLevel,
    pub levels: Vec<(String, ThinkingLevel)>,
}

/// The level that a list sets for a model: the last entry counts.
pub open spec fn level_set(levels: Seq<(String, ThinkingLevel)>, model: Seq<char>) -> Option<
    ThinkingLevel,
>
    decreases levels.len(),
{
    if levels.len() == 0 {
        None
    } else if levels.last().0@ == model {
        Some(levels.last().1)
    } else {
        level_set(levels.drop_last(), model)
    }
}

impl ModelThinkingStore {
    /// The level of a model.
    pub open spec fn level(self, model: Seq<char>) -> ThinkingLevel {
        match level_set(self.levels@, model) {
            Some(level) => level,
            None => self.default_level,
        }
    }

    /// A store in which every model has the same level.
    pub fn new(default_level: ThinkingLevel) -> (r: ModelThinkingStore)
        ensures
            forall|m: Seq<char>| #[trigger] r.level(m) == default_level,
    {
        ModelThinkingStore { default_level, levels: Vec::new() }
    }

    /// The level of a model.
    pub fn get(&self, model: &str) -> (r: ThinkingLevel)
        ensures
            r == self.level(model@),
    {
        let mut i: usize = self.levels.len();
        assert(self.levels@.take(i as int) =~= self.levels@);
        while i > 0
            invariant
                i <= self.levels@.len(),
                level_set(self.levels@, model@) == level_set(self.levels@.take(i as int), model@),
            decreases i,
        {
            assert(self.levels@.take(i as int).drop_last() =~= self.levels@.take(i - 1));
            i = i - 1;
            if same(self.levels[i].0.as_str(), model) {
                return self.levels[i].1;
            }
        }
        self.default_level
    }

    /// Sets the level of one model and of no other.
    pub fn set(&mut self, model: &str, level: ThinkingLevel)
        ensures
            forall|m: Seq<char>| #[trigger]
                final(self).level(m) == (if m == model@ {
                    level
                } else {
                    old(self).level(m)
                }),
    {
        let ghost before = self.levels@;
        let item = (model.to_owned(), level);
        self.levels.push(item);
        proof {
            assert forall|m: Seq<char>| #[trigger]
                self.level(m) == (if m == model@ {
                    level
                } else {
                    old(self).level(m)
                }) by {
                assert(self.levels@.drop_last() =~= before);
            }
        }
    }
}

/// Sets the level of one model and of no other.
pub fn apply_level(store: &mut ModelThinkingStore, model: &str, level: ThinkingLevel)
    ensures
        forall|m: Seq<char>| #[trigger]
            final(store).level(m) == (if m == model@ {
                level
            } else {
                old(store).level(m)
            }),
{
    store.set(model, level);
}

/// What `/effort` prints: `session` tells how reading the session went, `stored` how storing the
/// level for its model went.
pub fn run_message(
    session: Result<(), String>,
    model: &str,
    level: ThinkingLevel,
    stored: Result<(), String>,
) -> (r: String)
    ensures
        r@ == (match session {
            Err(e) => "[effort] 读取当前会话失败: "@ + e@,
            Ok(_) => match stored {
                Ok(_) => "[effort] 模型 "@ + model@ + " 的思考深度已设为 "@ + level_word(level),
                Err(e) => "[effort] 设置失败: "@ + e@,
            },
        }),
{
    match session {
        Err(e) => cat("[effort] 读取当前会话失败: ", e.as_str()),
        Ok(_) => match stored {
            Ok(_) => cat4("[effort] 模型 ", model, " 的思考深度已设为 ", level.as_str()),
            Err(e) => cat("[effort] 设置失败: ", e.as_str()),
        },
    }
}

// ---------------------------------------------------------------- laws

/// The word for a level, in any case, names that level, and `/effort` with it asks for it; any other word is
/// refused, and so is more than one.
pub proof fn law_levels_are_named_by_their_words(level: ThinkingLevel, word: Seq<char>, r: ChatCommand)
    ensures
        ascii_lowered(trimmed(word)) == level_word(level) ==> level_named(word) == Some(level),
        level_named(word) matches Some(l) ==> ascii_lowered(trimmed(word)) == level_word(l),
        ascii_lowered(trimmed(word)) == level_word(level) && means(seq!["/effort"@, word], r) ==> r == (
        ChatCommand::Effort { level }),
        level_named(word) is None && means(seq!["/effort"@, word], r) ==> r is UsageError,
{
    reveal_strlit("low");
    reveal_strlit("medium");
    reveal_strlit("high");
    reveal_strlit("xhigh");
    assert("low"@.len() == 3 && "medium"@.len() == 6 && "high"@.len() == 4 && "xhigh"@.len() == 5);
    assert(seq!["/effort"@, word][1] == word);
}

/// The level that was set last for a model counts, one that was set for another model does not, and without
/// any the default counts.
pub proof fn law_last_level_counts(
    levels: Seq<(String, ThinkingLevel)>,
    item: (String, ThinkingLevel),
    model: Seq<char>,
)
    ensures
        level_set(Seq::<(String, ThinkingLevel)>::empty(), model) is None,
        item.0@ == model ==> level_set(levels.push(item), model) == Some(item.1),
        item.0@ != model ==> level_set(levels.push(item), model) == level_set(levels, model),
{
    assert(levels.push(item).drop_last() =~= levels);
}

} // verus!
