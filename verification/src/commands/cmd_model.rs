//! `/model`: looking at the models and switching between them.

use vstd::prelude::*;
use vstd::string::*;

use crate::commands::parse::{usage, ChatCommand};
#[allow(unused_imports)]
use crate::commands::parse::is_usage;
use crate::search::join;
#[allow(unused_imports)]
use crate::search::joined;
use crate::text::{cat, one_text, push_text, same, trim};
#[allow(unused_imports)]
use crate::text::{opt_text, texts, trimmed};

verus! {

/// What `/model` is told to do.
#[derive(Clone, Debug, PartialEq, Eq)]
pub enum ModelCommand {
    Current,
    List,
    Use { model_id: String },
}

/// `/model` alone or with `current`, `/model list`, or `/model use` with one id.
pub open spec fn means(tokens: Seq<Seq<char>>, r: ChatCommand) -> bool {
    if tokens.len() == 1 || (tokens.len() == 2 && tokens[1] == "current"@) {
        r == ChatCommand::Model(ModelCommand::Current)
    } else if tokens.len() == 2 && tokens[1] == "list"@ {
        r == ChatCommand::Model(ModelCommand::List)
    } else if tokens.len() == 3 && tokens[1] == "use"@ {
        r matches ChatCommand::Model(ModelCommand::Use { model_id }) && model_id@ == tokens[2]
    } else {
        is_usage(r, "用法错误：/model [current|list|use <model_id>]"@)
    }
}

/// Reads the words of a `/model` line.
pub fn parse_args(tokens: Vec<String>) -> (r: ChatCommand)
    ensures
        means(texts(tokens@), r),
{
    if tokens.len() == 1 || (tokens.len() == 2 && same(tokens[1].as_str(), "current")) {
        ChatCommand::Model(ModelCommand::Current)
    } else if tokens.len() == 2 && same(tokens[1].as_str(), "list") {
        ChatCommand::Model(ModelCommand::List)
    } else if tokens.len() == 3 && same(tokens[1].as_str(), "use") {
        ChatCommand::Model(ModelCommand::Use { model_id: tokens[2].clone() })
    } else {
        usage("用法错误：/model [current|list|use <model_id>]")
    }
}

/// What a model can do.
#[derive(Clone, Copy, Debug, PartialEq, Eq, Structural)]
pub struct Capabilities {
    pub vision: bool,
    pub files: bool,
    pub tools: bool,
    pub reasoning: bool,
    pub web_search: bool,
}

/// A model of the catalog.
#[derive(Clone, Debug, PartialEq, Eq)]
pub struct ModelEntry {
    /// The name under which this installation knows the model.
    pub id: String,
    /// The name that the provider has for it.
    pub model_name: Option<String>,
    pub api: String,
    pub provider: String,
    pub api_key_env: Option<String>,
    pub base_url: Option<String>,
    pub capabilities: Capabilities,
    pub context_window: Option<u64>,
    pub thinking_format: Option<String>,
}

/// The labels of what a model can do, in a fixed order.
pub open spec fn capability_labels(c: Capabilities) -> Seq<Seq<char>> {
    (if c.vision {
        seq!["vision"@]
    } else {
        Seq::empty()
    }) + (if c.files {
        seq!["files"@]
    } else {
        Seq::empty()
    }) + (if c.tools {
        seq!["tools"@]
    } else {
        Seq::empty()
    }) + (if c.reasoning {
        seq!["reasoning"@]
    } else {
        Seq::empty()
    })
}

/// What a model can do, in text.
pub open spec fn capability_text(c: Capabilities) -> Seq<char> {
    if capability_labels(c).len() == 0 {
        "none"@
    } else {
        joined(capability_labels(c), "+"@)
    }
}

/// What a model can do, in text.
pub fn format_capabilities(capabilities: &Capabilities) -> (r: String)
    ensures
        r@ == capability_text(*capabilities),
{
    let mut labels: Vec<String> = Vec::new();
    if capabilities.vision {
        push_text(&mut labels, "vision".to_owned());
    }
    if capabilities.files {
        push_text(&mut labels, "files".to_owned());
    }
    if capabilities.tools {
        push_text(&mut labels, "tools".to_owned());
    }
    if capabilities.reasoning {
        push_text(&mut labels, "reasoning".to_owned());
    }
    assert(texts(labels@) =~= capability_labels(*capabilities));
    assert(texts(labels@).len() == labels@.len());
    if labels.len() == 0 {
        "none".to_owned()
    } else {
        join(&labels, "+")
    }
}

/// What marks a model in the list.
pub open spec fn tag_text(is_current: bool, is_default: bool) -> Seq<char> {
    if is_current && is_default {
        " [current, default]"@
    } else if is_current {
        " [current]"@
    } else if is_default {
        " [default]"@
    } else {
        ""@
    }
}

/// The line of one model in the list: it goes by its local id.
pub open spec fn model_line(entry: ModelEntry, is_current: bool, is_default: bool) -> Seq<char> {
    "  - "@ + entry.id@ + tag_text(is_current, is_default) + "  api="@ + entry.api@ + " provider="@
        + entry.provider@ + " caps="@ + capability_text(entry.capabilities)
}

/// The line of one model in the list.
pub fn format_model_list_line(entry: &ModelEntry, is_current: bool, is_default: bool) -> (r: String)
    ensures
        r@ == model_line(*entry, is_current, is_default),
{
    let mut line = cat("  - ", entry.id.as_str());
    line.append(
        if is_current && is_default {
            " [current, default]"
        } else if is_current {
            " [current]"
        } else if is_default {
            " [default]"
        } else {
            ""
        },
    );
    line.append("  api=");
    line.append(entry.api.as_str());
    line.append(" provider=");
    line.append(entry.provider.as_str());
    line.append(" caps=");
    line.append(format_capabilities(&entry.capabilities).as_str());
    line
}

/// What `/model list` prints, once the session is read.
pub fn list_lines(entries: &Vec<ModelEntry>, current_model: &str, default_model: &str) -> (r: Vec<
    String,
>)
    ensures
        texts(r@) == seq!["可用模型:"@] + entries@.map_values(
            |e: ModelEntry| model_line(e, e.id@ == current_model@, e.id@ == default_model@),
        ),
{
    let ghost rows = entries@.map_values(
        |e: ModelEntry| model_line(e, e.id@ == current_model@, e.id@ == default_model@),
    );
    let mut out = one_text("可用模型:".to_owned());
    let mut i: usize = 0;
    assert(texts(out@) =~= seq!["可用模型:"@] + rows.take(0));
    while i < entries.len()
        invariant
            i <= entries@.len(),
            rows == entries@.map_values(
                |e: ModelEntry| model_line(e, e.id@ == current_model@, e.id@ == default_model@),
            ),
            texts(out@) == seq!["可用模型:"@] + rows.take(i as int),
        decreases entries@.len() - i,
    {
        let e = &entries[i];
        let is_current = same(e.id.as_str(), current_model);
        let is_default = same(e.id.as_str(), default_model);
        push_text(&mut out, format_model_list_line(e, is_current, is_default));
        assert(texts(out@) =~= seq!["可用模型:"@] + rows.take(i + 1));
        i = i + 1;
    }
    assert(rows.take(rows.len() as int) =~= rows);
    out
}

/// A model as it is called: which interface, where, and whose key.
#[derive(Clone, Debug, PartialEq, Eq)]
pub struct ResolvedModel {
    pub api: String,
    pub provider: String,
    pub base_url: Option<String>,
    pub key_source: String,
}

/// How a resolved model is told.
pub open spec fn resolved_line(resolved: Result<ResolvedModel, String>) -> Seq<char> {
    match resolved {
        Ok(m) => "解析结果: api="@ + m.api@ + " provider="@ + m.provider@ + " base_url="@ + (
        match m.base_url {
            Some(u) => u@,
            None => "(provider default)"@,
        }) + " key_source="@ + m.key_source@,
        Err(e) => "解析结果: "@ + e@,
    }
}

/// What `/model current` prints, once the session is read.
pub fn current_lines(
    current_model: &str,
    default_model: &str,
    resolved: &Result<ResolvedModel, String>,
) -> (r: Vec<String>)
    ensures
        texts(r@) == seq![
            "当前会话模型: "@ + current_model@,
            "全局默认模型: "@ + default_model@,
            resolved_line(*resolved),
        ],
{
    let mut out = one_text(cat("当前会话模型: ", current_model));
    push_text(&mut out, cat("全局默认模型: ", default_model));
    let line = match resolved {
        Ok(m) => {
            let mut line = cat("解析结果: api=", m.api.as_str());
            line.append(" provider=");
            line.append(m.provider.as_str());
            line.append(" base_url=");
            line.append(
                match &m.base_url {
                    Some(u) => u.as_str(),
                    None => "(provider default)",
                },
            );
            line.append(" key_source=");
            line.append(m.key_source.as_str());
            line
        },
        Err(e) => cat("解析结果: ", e.as_str()),
    };
    push_text(&mut out, line);
    assert(texts(out@) =~= seq![
        "当前会话模型: "@ + current_model@,
        "全局默认模型: "@ + default_model@,
        resolved_line(*resolved),
    ]);
    out
}

/// What `/model current` and `/model list` print if the session cannot be read.
pub fn session_error_line(error: &str) -> (r: String)
    ensures
        r@ == "[model] 读取当前会话失败: "@ + error@,
{
    cat("[model] 读取当前会话失败: ", error)
}

/// What `/model use` does next.
#[derive(Clone, Debug, PartialEq, Eq)]
pub enum ModelSwitch {
    /// Print the line and stop.
    Refused { line: String },
    /// Switch the session to this model.
    Switch { provider: String, model_id: String },
}

/// The id that `/model use` looks up, if it is not blank.
pub fn requested_model(model_id: &str) -> (r: Option<String>)
    ensures
        opt_text(r) == (if trimmed(model_id@).len() == 0 {
            None
        } else {
            Some(trimmed(model_id@))
        }),
{
    let id = trim(model_id);
    if id.as_str().is_empty() {
        None
    } else {
        Some(id)
    }
}

/// What `/model use` does with what the catalog holds under the requested id.
pub fn plan_switch(requested: Option<&Result<ModelEntry, String>>) -> (r: ModelSwitch)
    ensures
        match requested {
            None => r matches ModelSwitch::Refused { line } && line@
                == "[model] 用法错误：/model use <model_id>"@,
            Some(Err(e)) => r matches ModelSwitch::Refused { line } && line@ == "[model] "@ + e@,
            Some(Ok(m)) => r matches ModelSwitch::Switch { provider, model_id } && provider@
                == m.provider@ && model_id@ == m.id@,
        },
{
    match requested {
        None => ModelSwitch::Refused { line: "[model] 用法错误：/model use <model_id>".to_owned() },
        Some(found) => match found {
            Err(e) => ModelSwitch::Refused { line: cat("[model] ", e.as_str()) },
            Ok(m) => ModelSwitch::Switch { provider: m.provider.clone(), model_id: m.id.clone() },
        },
    }
}

/// What `/model use` prints of how the switch went.
pub fn switch_line(entry: &ModelEntry, switched: &Result<(), String>) -> (r: String)
    ensures
        r@ == (match *switched {
            Ok(_) => "[model] 当前会话已切换到 "@ + entry.id@ + "（api="@ + entry.api@
                + " provider="@ + entry.provider@ + "）"@,
            Err(e) => "[model] 切换失败: "@ + e@,
        }),
{
    match switched {
        Ok(_) => {
            let mut line = cat("[model] 当前会话已切换到 ", entry.id.as_str());
            line.append("（api=");
            line.append(entry.api.as_str());
            line.append(" provider=");
            line.append(entry.provider.as_str());
            line.append("）");
            line
        },
        Err(e) => cat("[model] 切换失败: ", e.as_str()),
    }
}

// ---------------------------------------------------------------- laws

/// `/model use` asks for the model that it names, whatever its name is.
pub proof fn law_named_models_are_asked_for(id: Seq<char>, r: ChatCommand)
    ensures
        means(seq!["/model"@, "use"@, id], r) ==> (r matches ChatCommand::Model(
            ModelCommand::Use { model_id },
        ) && model_id@ == id),
        means(seq!["/model"@], r) ==> r == ChatCommand::Model(ModelCommand::Current),
        means(seq!["/model"@, "list"@], r) ==> r == ChatCommand::Model(ModelCommand::List),
        id != "current"@ && id != "list"@ && means(seq!["/model"@, id], r) ==> r is UsageError,
{
    reveal_strlit("list");
    reveal_strlit("current");
    assert("list"@.len() != "current"@.len());
    let two = seq!["/model"@, "list"@];
    assert(two[1] == "list"@);
    assert(seq!["/model"@, id][1] == id);
}

/// The list tells what a model can do: each of its abilities and no other.
pub proof fn law_abilities_are_told(c: Capabilities)
    ensures
        capability_labels(c).contains("vision"@) <==> c.vision,
        capability_labels(c).contains("files"@) <==> c.files,
        capability_labels(c).contains("tools"@) <==> c.tools,
        capability_labels(c).contains("reasoning"@) <==> c.reasoning,
        capability_labels(c).len() == 0 <==> !c.vision && !c.files && !c.tools && !c.reasoning,
        capability_labels(c).len() == 0 ==> capability_text(c) == "none"@,
        capability_labels(c).len() > 0 ==> capability_text(c) == joined(capability_labels(c), "+"@),
{
    reveal_strlit("vision");
    reveal_strlit("files");
    reveal_strlit("tools");
    reveal_strlit("reasoning");
    assert("vision"@[0] == 'v' && "files"@[0] == 'f' && "tools"@[0] == 't' && "reasoning"@[0] == 'r');
    let all = capability_labels(c);
    let a = if c.vision {
        1int
    } else {
        0
    };
    let b = a + if c.files {
        1int
    } else {
        0
    };
    let d = b + if c.tools {
        1int
    } else {
        0
    };
    if c.vision {
        assert(all[0] == "vision"@);
    }
    if c.files {
        assert(all[a] == "files"@);
    }
    if c.tools {
        assert(all[b] == "tools"@);
    }
    if c.reasoning {
        assert(all[d] == "reasoning"@);
    }
}

/// A line of the list names the model, marks it exactly as the current one or the default, and tells where it
/// is had.
pub proof fn law_model_lines_mark_the_model(entry: ModelEntry, is_current: bool, is_default: bool)
    ensures
        crate::search::has_prefix(model_line(entry, is_current, is_default), "  - "@ + entry.id@),
        is_current <==> crate::search::has_text(tag_text(is_current, is_default), "current"@),
        is_default <==> crate::search::has_text(tag_text(is_current, is_default), "default"@),
        crate::search::has_suffix(
            model_line(entry, is_current, is_default),
            "  api="@ + entry.api@ + " provider="@ + entry.provider@ + " caps="@ + capability_text(
                entry.capabilities,
            ),
        ),
{
    let head = "  - "@ + entry.id@;
    let tail = "  api="@ + entry.api@ + " provider="@ + entry.provider@ + " caps="@ + capability_text(
        entry.capabilities,
    );
    let all = model_line(entry, is_current, is_default);
    let tag = tag_text(is_current, is_default);
    assert(all =~= head + tag + tail);
    assert(all.subrange(0, head.len() as int) =~= head);
    assert(all.subrange(all.len() - tail.len(), all.len() as int) =~= tail);
    lemma_tags();
}

proof fn lemma_tags()
    ensures
        crate::search::has_text(" [current, default]"@, "current"@),
        crate::search::has_text(" [current, default]"@, "default"@),
        crate::search::has_text(" [current]"@, "current"@),
        !crate::search::has_text(" [current]"@, "default"@),
        crate::search::has_text(" [default]"@, "default"@),
        !crate::search::has_text(" [default]"@, "current"@),
        !crate::search::has_text(""@, "current"@),
        !crate::search::has_text(""@, "default"@),
{
    reveal_strlit(" [current, default]");
    reveal_strlit(" [current]");
    reveal_strlit(" [default]");
    reveal_strlit("current");
    reveal_strlit("default");
    reveal_strlit("");
    let both = " [current, default]"@;
    let one = " [current]"@;
    let other = " [default]"@;
    assert(both.subrange(2, 9) =~= "current"@);
    assert(crate::search::stands_at(both, "current"@, 2));
    assert(both.subrange(11, 18) =~= "default"@);
    assert(crate::search::stands_at(both, "default"@, 11));
    assert(one.subrange(2, 9) =~= "current"@);
    assert(crate::search::stands_at(one, "current"@, 2));
    assert(other.subrange(2, 9) =~= "default"@);
    assert(crate::search::stands_at(other, "default"@, 2));
    assert forall|i: int| !crate::search::stands_at(one, "default"@, i) by {
        if crate::search::stands_at(one, "default"@, i) {
            assert(one.subrange(i, i + 7)[0] == one[i]);
        }
    }
    assert forall|i: int| !crate::search::stands_at(other, "current"@, i) by {
        if crate::search::stands_at(other, "current"@, i) {
            assert(other.subrange(i, i + 7)[0] == other[i]);
        }
    }
}

} // verus!
