//! `/ckpt`: listing and looking at checkpoints.

use vstd::prelude::*;
use vstd::string::*;

use crate::commands::parse::{usage, ChatCommand};
#[allow(unused_imports)]
use crate::commands::parse::is_usage;
use crate::numerals::parse_usize;
#[allow(unused_imports)]
use crate::numerals::parsed;
use crate::text::{cat, cat3, one_text, pad, push_text, same, trim};
#[allow(unused_imports)]
use crate::text::{padded, texts, trimmed};

verus! {

/// The usage message.
pub open spec fn usage_message() -> Seq<char> {
    "用法错误：/ckpt list [--limit N] | /ckpt show <id> | /ckpt diff <id>"@
}

/// `/ckpt list` with or without a limit, `/ckpt show` and `/ckpt diff` with one checkpoint.
pub open spec fn means(tokens: Seq<Seq<char>>, r: ChatCommand) -> bool {
    if tokens.len() == 2 && tokens[0] == "/ckpt"@ && tokens[1] == "list"@ {
        r == (ChatCommand::CkptList { limit: None })
    } else if tokens.len() == 4 && tokens[0] == "/ckpt"@ && tokens[1] == "list"@ && tokens[2]
        == "--limit"@ {
        match parsed(tokens[3], usize::MAX as nat) {
            Some(n) => if n > 0 {
                r == (ChatCommand::CkptList { limit: Some(n as usize) })
            } else {
                is_usage(r, "用法错误：/ckpt list [--limit N]，其中 N 必须是正整数。"@)
            },
            None => is_usage(r, "用法错误：/ckpt list [--limit N]，其中 N 必须是正整数。"@),
        }
    } else if tokens.len() == 3 && tokens[0] == "/ckpt"@ && tokens[1] == "show"@ {
        r matches ChatCommand::CkptShow { checkpoint_id } && checkpoint_id@ == tokens[2]
    } else if tokens.len() == 3 && tokens[0] == "/ckpt"@ && tokens[1] == "diff"@ {
        r matches ChatCommand::CkptDiff { checkpoint_id } && checkpoint_id@ == tokens[2]
    } else {
        is_usage(r, usage_message())
    }
}

/// Reads the words of a `/ckpt` line.
pub fn parse_ckpt_args(tokens: Vec<String>) -> (r: ChatCommand)
    ensures
        means(texts(tokens@), r),
{
    if tokens.len() >= 2 && same(tokens[0].as_str(), "/ckpt") {
        let sub = tokens[1].as_str();
        if tokens.len() == 2 && same(sub, "list") {
            return ChatCommand::CkptList { limit: None };
        }
        if tokens.len() == 4 && same(sub, "list") && same(tokens[2].as_str(), "--limit") {
            return match parse_usize(tokens[3].as_str()) {
                Some(limit) => if limit > 0 {
                    ChatCommand::CkptList { limit: Some(limit) }
                } else {
                    usage("用法错误：/ckpt list [--limit N]，其中 N 必须是正整数。")
                },
                None => usage("用法错误：/ckpt list [--limit N]，其中 N 必须是正整数。"),
            };
        }
        if tokens.len() == 3 && same(sub, "show") {
            return ChatCommand::CkptShow { checkpoint_id: tokens[2].clone() };
        }
        if tokens.len() == 3 && same(sub, "diff") {
            return ChatCommand::CkptDiff { checkpoint_id: tokens[2].clone() };
        }
    }
    usage("用法错误：/ckpt list [--limit N] | /ckpt show <id> | /ckpt diff <id>")
}

/// What a checkpoint was taken for.
#[derive(Clone, Debug, PartialEq, Eq)]
pub enum CheckpointKind {
    TurnEnd,
    Interrupt,
    Manual { label: String },
}

/// A checkpoint as the store describes it.
#[derive(Clone, Debug, PartialEq, Eq)]
pub struct CheckpointMeta {
    pub id: String,
    pub session_id: String,
    pub turn_id: String,
    pub kind: CheckpointKind,
    pub git_commit: Option<String>,
    pub message_anchor: Option<String>,
    pub created_at: String,
    /// The strings that the checkpoint's notes list as changed paths.
    pub noted_paths: Vec<String>,
}

/// The label of a kind.
pub open spec fn kind_label(kind: CheckpointKind) -> Seq<char> {
    match kind {
        CheckpointKind::TurnEnd => "turn_end"@,
        CheckpointKind::Interrupt => "interrupt"@,
        CheckpointKind::Manual { .. } => "manual"@,
    }
}

/// The label of a kind.
pub fn checkpoint_kind_label(kind: &CheckpointKind) -> (r: &'static str)
    ensures
        r@ == kind_label(*kind),
{
    match kind {
        CheckpointKind::TurnEnd => "turn_end",
        CheckpointKind::Interrupt => "interrupt",
        CheckpointKind::Manual { .. } => "manual",
    }
}

/// One row of the list of checkpoints.
pub open spec fn list_row(m: CheckpointMeta) -> Seq<char> {
    m.id@ + "  "@ + padded(kind_label(m.kind), 10) + "  "@ + m.created_at@ + "  "@ + m.turn_id@
}

fn format_list_row(m: &CheckpointMeta) -> (r: String)
    ensures
        r@ == list_row(*m),
{
    let mut line = cat(m.id.as_str(), "  ");
    line.append(pad(checkpoint_kind_label(&m.kind), 10).as_str());
    line.append("  ");
    line.append(m.created_at.as_str());
    line.append("  ");
    line.append(m.turn_id.as_str());
    line
}

/// What `/ckpt list` prints of what the store answered.
pub fn list_lines(entries: &Result<Vec<CheckpointMeta>, String>) -> (r: Vec<String>)
    ensures
        texts(r@) == (match *entries {
            Ok(metas) => if metas@.len() == 0 {
                seq!["暂无 checkpoint。"@]
            } else {
                metas@.map_values(|m: CheckpointMeta| list_row(m))
            },
            Err(e) => seq!["checkpoint 列表读取失败："@ + e@],
        }),
{
    match entries {
        Err(e) => one_text(cat("checkpoint 列表读取失败：", e.as_str())),
        Ok(metas) => {
            if metas.len() == 0 {
                return one_text("暂无 checkpoint。".to_owned());
            }
            let mut out: Vec<String> = Vec::new();
            let mut i: usize = 0;
            let ghost rows = metas@.map_values(|m: CheckpointMeta| list_row(m));
            while i < metas.len()
                invariant
                    i <= metas@.len(),
                    rows == metas@.map_values(|m: CheckpointMeta| list_row(m)),
                    texts(out@) == rows.take(i as int),
                decreases metas@.len() - i,
            {
                push_text(&mut out, format_list_row(&metas[i]));
                assert(rows.take(i + 1) =~= rows.take(i as int).push(rows[i as int]));
                i = i + 1;
            }
            assert(rows.take(rows.len() as int) =~= rows);
            out
        },
    }
}

/// A line with a name, if there is a value to it.
pub open spec fn optional_line(name: Seq<char>, value: Option<String>) -> Seq<Seq<char>> {
    match value {
        Some(v) => seq![name + v@],
        None => Seq::empty(),
    }
}

/// The lines that describe a checkpoint.
pub open spec fn meta_lines(m: CheckpointMeta) -> Seq<Seq<char>> {
    seq![
        "id: "@ + m.id@,
        "kind: "@ + kind_label(m.kind),
        "created_at: "@ + m.created_at@,
        "session_id: "@ + m.session_id@,
        "turn_id: "@ + m.turn_id@,
    ] + optional_line("message_anchor: "@, m.message_anchor) + optional_line(
        "git_commit: "@,
        m.git_commit,
    ) + (match m.kind {
        CheckpointKind::Manual { label } => seq!["label: "@ + label@],
        _ => Seq::empty(),
    })
}

/// The lines that describe a checkpoint.
pub fn checkpoint_meta_lines(m: &CheckpointMeta) -> (r: Vec<String>)
    ensures
        texts(r@) == meta_lines(*m),
{
    let mut out: Vec<String> = Vec::new();
    push_text(&mut out, cat("id: ", m.id.as_str()));
    push_text(&mut out, cat("kind: ", checkpoint_kind_label(&m.kind)));
    push_text(&mut out, cat("created_at: ", m.created_at.as_str()));
    push_text(&mut out, cat("session_id: ", m.session_id.as_str()));
    push_text(&mut out, cat("turn_id: ", m.turn_id.as_str()));
    if let Some(anchor) = &m.message_anchor {
        push_text(&mut out, cat("message_anchor: ", anchor.as_str()));
    }
    if let Some(commit) = &m.git_commit {
        push_text(&mut out, cat("git_commit: ", commit.as_str()));
    }
    if let CheckpointKind::Manual { label } = &m.kind {
        push_text(&mut out, cat("label: ", label.as_str()));
    }
    assert(texts(out@) =~= meta_lines(*m));
    out
}

/// What `/ckpt show` prints of what the store answered.
pub fn show_lines(checkpoint_id: &str, found: &Result<Option<CheckpointMeta>, String>) -> (r: Vec<
    String,
>)
    ensures
        texts(r@) == (match *found {
            Ok(Some(m)) => meta_lines(m),
            Ok(None) => seq!["未找到 checkpoint: "@ + checkpoint_id@],
            Err(e) => seq!["checkpoint 元数据读取失败："@ + e@],
        }),
{
    match found {
        Ok(Some(m)) => checkpoint_meta_lines(m),
        Ok(None) => one_text(cat("未找到 checkpoint: ", checkpoint_id)),
        Err(e) => one_text(cat("checkpoint 元数据读取失败：", e.as_str())),
    }
}

/// What `/ckpt diff` prints of the text of the difference.
pub fn diff_text(checkpoint_id: &str, diff: &Result<String, String>) -> (r: String)
    ensures
        r@ == (match *diff {
            Ok(t) => if trimmed(t@).len() == 0 {
                "当前工作区与 checkpoint "@ + checkpoint_id@ + " 无差异。\n"@
            } else {
                t@
            },
            Err(e) => "checkpoint diff 失败："@ + e@ + "\n"@,
        }),
{
    match diff {
        Ok(t) => if trim(t.as_str()).as_str().is_empty() {
            cat3("当前工作区与 checkpoint ", checkpoint_id, " 无差异。\n")
        } else {
            t.clone()
        },
        Err(e) => cat3("checkpoint diff 失败：", e.as_str(), "\n"),
    }
}

// ---------------------------------------------------------------- laws

/// A number behind `--limit` is the limit that is asked for, zero is refused, and so is what is no number;
/// without it there is no limit. The checkpoint that is named is the one that is shown or compared.
pub proof fn law_checkpoint_words_are_taken(n: nat, id: Seq<char>, r: ChatCommand)
    requires
        n <= usize::MAX,
    ensures
        means(seq!["/ckpt"@, "list"@], r) ==> r == (ChatCommand::CkptList { limit: None }),
        n > 0 && means(seq!["/ckpt"@, "list"@, "--limit"@, crate::numerals::decimal(n)], r) ==> (
        r matches ChatCommand::CkptList { limit: Some(m) } && m == n),
        means(seq!["/ckpt"@, "list"@, "--limit"@, crate::numerals::decimal(0)], r) ==> r is UsageError,
        parsed(id, usize::MAX as nat) is None && means(seq!["/ckpt"@, "list"@, "--limit"@, id], r)
            ==> r is UsageError,
        means(seq!["/ckpt"@, "show"@, id], r) ==> (r matches ChatCommand::CkptShow { checkpoint_id }
            && checkpoint_id@ == id),
        means(seq!["/ckpt"@, "diff"@, id], r) ==> (r matches ChatCommand::CkptDiff { checkpoint_id }
            && checkpoint_id@ == id),
{
    reveal_strlit("list");
    reveal_strlit("show");
    reveal_strlit("diff");
    assert("show"@[0] == 's' && "diff"@[0] == 'd');
    crate::numerals::law_written_numbers_are_parsed(n, usize::MAX as nat);
    crate::numerals::law_written_numbers_are_parsed(0, usize::MAX as nat);
}

/// A row of the list tells the checkpoint first and its turn last, with its kind and its time between.
pub proof fn law_rows_tell_the_checkpoint(m: CheckpointMeta)
    ensures
        crate::search::has_prefix(list_row(m), m.id@ + "  "@ + kind_label(m.kind)),
        crate::search::has_suffix(list_row(m), "  "@ + m.created_at@ + "  "@ + m.turn_id@),
{
    let kind = kind_label(m.kind);
    crate::text::law_padding_adds_spaces_behind(kind, 10);
    let front = m.id@ + "  "@ + kind;
    let tail = "  "@ + m.created_at@ + "  "@ + m.turn_id@;
    let all = list_row(m);
    assert(all =~= m.id@ + "  "@ + padded(kind, 10) + tail);
    assert(all.subrange(0, front.len() as int) =~= m.id@ + "  "@ + padded(kind, 10).take(kind.len() as int));
    assert(all.subrange(all.len() - tail.len(), all.len() as int) =~= tail);
}

/// What is shown of a checkpoint tells everything that is known of it, and nothing that is not.
pub proof fn law_everything_known_is_shown(m: CheckpointMeta)
    ensures
        meta_lines(m).contains("id: "@ + m.id@),
        meta_lines(m).contains("session_id: "@ + m.session_id@),
        meta_lines(m).contains("turn_id: "@ + m.turn_id@),
        meta_lines(m).contains("created_at: "@ + m.created_at@),
        meta_lines(m).contains("kind: "@ + kind_label(m.kind)),
        m.message_anchor matches Some(a) ==> meta_lines(m).contains("message_anchor: "@ + a@),
        m.git_commit matches Some(c) ==> meta_lines(m).contains("git_commit: "@ + c@),
        m.kind matches CheckpointKind::Manual { label } ==> meta_lines(m).contains("label: "@ + label@),
        meta_lines(m).len() == 5 + (if m.message_anchor is Some {
            1int
        } else {
            0
        }) + (if m.git_commit is Some {
            1int
        } else {
            0
        }) + (if m.kind is Manual {
            1int
        } else {
            0
        }),
{
    let all = meta_lines(m);
    assert(all[0] == "id: "@ + m.id@);
    assert(all[1] == "kind: "@ + kind_label(m.kind));
    assert(all[2] == "created_at: "@ + m.created_at@);
    assert(all[3] == "session_id: "@ + m.session_id@);
    assert(all[4] == "turn_id: "@ + m.turn_id@);
    let n = if m.message_anchor is Some {
        6int
    } else {
        5
    };
    if let Some(a) = m.message_anchor {
        assert(all[5] == "message_anchor: "@ + a@);
    }
    if let Some(c) = m.git_commit {
        assert(all[n] == "git_commit: "@ + c@);
    }
    if let CheckpointKind::Manual { label } = m.kind {
        assert(all.last() == "label: "@ + label@);
        assert(all[all.len() - 1] == "label: "@ + label@);
    }
}

/// The three kinds of checkpoints are told apart.
pub proof fn law_kinds_are_told_apart(kind: CheckpointKind)
    ensures
        kind_label(kind) == "turn_end"@ <==> kind is TurnEnd,
        kind_label(kind) == "interrupt"@ <==> kind is Interrupt,
        kind_label(kind) == "manual"@ <==> kind is Manual,
{
    reveal_strlit("turn_end");
    reveal_strlit("interrupt");
    reveal_strlit("manual");
    assert("turn_end"@[0] == 't' && "interrupt"@[0] == 'i' && "manual"@[0] == 'm');
}

} // verus!
