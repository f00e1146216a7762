//! `/compact`: making the conversation shorter.

use vstd::prelude::*;
use vstd::string::*;

use crate::numerals::decimal_usize;
#[allow(unused_imports)]
use crate::numerals::decimal;
use crate::text::{cat, cat5, copy_opt};
#[allow(unused_imports)]
use crate::text::opt_text;

verus! {

/// What was made shorter: how full the conversation was before and after, in percent with one digit
/// behind the point, and how many messages were covered.
#[derive(Clone, Debug, PartialEq, Eq)]
pub struct CompactReport {
    pub before_percent: String,
    pub after_percent: String,
    pub covered_count: usize,
}

/// What came of making the conversation shorter.
#[derive(Clone, Debug, PartialEq, Eq)]
pub enum CompactEnd {
    Done(CompactReport),
    Failed(String),
}

/// What of a conversation is covered: from which message to which, and how many.
#[derive(Clone, Debug, PartialEq, Eq)]
pub struct Covered {
    pub start_id: Option<String>,
    pub end_id: Option<String>,
    pub count: usize,
}

/// What of a conversation is covered: all of it, if it holds anything. The ids are those of its
/// messages; some have none.
pub fn covered_messages(ids: &Vec<Option<String>>) -> (r: Option<Covered>)
    ensures
        match r {
            Some(c) => ids@.len() > 0 && c.count == ids@.len() && opt_text(c.start_id) == opt_text(
                ids@[0],
            ) && opt_text(c.end_id) == opt_text(ids@.last()),
            None => ids@.len() == 0,
        },
{
    if ids.len() == 0 {
        return None;
    }
    let n: usize = ids.len();
    let start_id = copy_opt(&ids[0]);
    let end_id = copy_opt(&ids[n - 1]);
    Some(Covered { start_id, end_id, count: n })
}

/// Whether the conversation is to be loaded again: something of it was covered.
pub fn needs_reload(end: &CompactEnd) -> (r: bool)
    ensures
        r == (end matches CompactEnd::Done(c) && c.covered_count != 0),
{
    match end {
        CompactEnd::Done(c) => c.covered_count != 0,
        CompactEnd::Failed(_) => false,
    }
}

/// What the command says. `reload_error` is why the conversation could not be loaded again, where it
/// was to be and could not.
pub fn report_line(end: &CompactEnd, reload_error: Option<&str>) -> (r: String)
    ensures
        r@ == (match *end {
            CompactEnd::Done(c) => if c.covered_count == 0 {
                "当前会话没有可压缩的上下文。"@
            } else {
                match reload_error {
                    Some(e) => "压缩结果已保存，但内存上下文重载失败："@ + e@,
                    None => "上下文已压缩："@ + c.before_percent@ + "% → "@ + c.after_percent@
                        + "%（覆盖 "@ + decimal(c.covered_count as nat) + " 条消息）。"@,
                }
            },
            CompactEnd::Failed(e) => "上下文压缩失败："@ + e@,
        }),
{
    match end {
        CompactEnd::Done(c) => {
            if c.covered_count == 0 {
                return "当前会话没有可压缩的上下文。".to_owned();
            }
            match reload_error {
                Some(e) => cat("压缩结果已保存，但内存上下文重载失败：", e),
                None => {
                    let mut s = cat5(
                        "上下文已压缩：",
                        c.before_percent.as_str(),
                        "% → ",
                        c.after_percent.as_str(),
                        "%（覆盖 ",
                    );
                    s.append(decimal_usize(c.covered_count).as_str());
                    s.append(" 条消息）。");
                    s
                },
            }
        },
        CompactEnd::Failed(e) => cat("上下文压缩失败：", e.as_str()),
    }
}

} // verus!
