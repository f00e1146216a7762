//! `/path`: asking for access to one path.

use vstd::prelude::*;

use crate::commands::parse::{usage, ChatCommand};
#[allow(unused_imports)]
use crate::commands::parse::is_usage;
#[allow(unused_imports)]
use crate::text::texts;

verus! {

/// `/path` takes one path; `line` is the whole command line.
pub open spec fn means(tokens: Seq<Seq<char>>, line: Seq<char>, r: ChatCommand) -> bool {
    if tokens.len() == 2 {
        r matches ChatCommand::Path { path, original_line } && path@ == tokens[1]
            && original_line@ == line
    } else {
        is_usage(r, "用法错误：/path <绝对路径>"@)
    }
}

/// Reads the words of a `/path` line.
pub fn parse_args(tokens: Vec<String>, line: &str) -> (r: ChatCommand)
    ensures
        means(texts(tokens@), line@, r),
{
    if tokens.len() == 2 {
        ChatCommand::Path { path: tokens[1].clone(), original_line: line.to_owned() }
    } else {
        usage("用法错误：/path <绝对路径>")
    }
}

} // verus!
