//! The arguments of `/restore`.

use vstd::prelude::*;

use crate::commands::parse::{usage, ChatCommand};
#[allow(unused_imports)]
use crate::commands::parse::{is_chat, is_usage};
use crate::search::join;
#[allow(unused_imports)]
use crate::search::joined;
use crate::text::{push_text, same};
#[allow(unused_imports)]
use crate::text::texts;

verus! {

/// The usage message.
pub open spec fn usage_message() -> Seq<char> {
    "用法错误：/restore <ck_id> [--path <rel>]... [--dry-run]"@
}

/// The paths and the dry run that the words from `at` on ask for, if they are all flags that
/// `/restore` knows.
pub open spec fn flags(tokens: Seq<Seq<char>>, at: int) -> Option<(Seq<Seq<char>>, bool)>
    decreases tokens.len() - at,
{
    if at >= tokens.len() {
        Some((Seq::empty(), false))
    } else if tokens[at] == "--dry-run"@ {
        match flags(tokens, at + 1) {
            Some(rest) => Some((rest.0, true)),
            None => None,
        }
    } else if tokens[at] == "--path"@ && at + 1 < tokens.len() {
        match flags(tokens, at + 2) {
            Some(rest) => Some((seq![tokens[at + 1]] + rest.0, rest.1)),
            None => None,
        }
    } else {
        None
    }
}

/// `/restore` takes a checkpoint, any number of paths, and the wish to only look.
pub open spec fn means(tokens: Seq<Seq<char>>, r: ChatCommand) -> bool {
    if tokens.len() < 2 {
        is_usage(r, usage_message())
    } else if tokens[0] != "/restore"@ {
        is_chat(r, joined(tokens, " "@))
    } else {
        match flags(tokens, 2) {
            Some(f) => r matches ChatCommand::Restore { checkpoint_id, paths, dry_run }
                && checkpoint_id@ == tokens[1] && texts(paths@) == f.0 && dry_run == f.1,
            None => is_usage(r, usage_message()),
        }
    }
}

/// Reads the words of a `/restore` line.
pub fn parse_restore_args(tokens: Vec<String>) -> (r: ChatCommand)
    ensures
        means(texts(tokens@), r),
{
    if tokens.len() < 2 {
        return usage("用法错误：/restore <ck_id> [--path <rel>]... [--dry-run]");
    }
    if !same(tokens[0].as_str(), "/restore") {
        return ChatCommand::NotACommand(join(&tokens, " "));
    }
    proof {
        reveal_strlit("--dry-run");
        reveal_strlit("--path");
        assert("--dry-run"@.len() != "--path"@.len());
    }
    let ghost all = texts(tokens@);
    let mut idx: usize = 2;
    let mut paths: Vec<String> = Vec::new();
    let mut dry_run: bool = false;
    assert(texts(paths@) =~= Seq::empty());
    assert(flags(all, 2) matches Some(f) ==> f.0 =~= Seq::<Seq<char>>::empty() + f.0);
    while idx < tokens.len()
        invariant
            2 <= idx <= tokens@.len(),
            tokens@.len() >= 2,
            all == texts(tokens@),
            all[0] == "/restore"@,
            "--dry-run"@ != "--path"@,
            flags(all, 2) == (match flags(all, idx as int) {
                Some(rest) => Some((texts(paths@) + rest.0, dry_run || rest.1)),
                None => None::<(Seq<Seq<char>>, bool)>,
            }),
        decreases tokens@.len() - idx,
    {
        if same(tokens[idx].as_str(), "--dry-run") {
            dry_run = true;
            idx = idx + 1;
        } else if same(tokens[idx].as_str(), "--path") {
            if idx + 1 >= tokens.len() {
                return usage("用法错误：/restore <ck_id> [--path <rel>]... [--dry-run]");
            }
            let ghost before = texts(paths@);
            push_text(&mut paths, tokens[idx + 1].clone());
            proof {
                if let Some(rest) = flags(all, idx + 2) {
                    assert(before + (seq![all[idx + 1]] + rest.0) =~= texts(paths@) + rest.0);
                }
            }
            idx = idx + 2;
        } else {
            return usage("用法错误：/restore <ck_id> [--path <rel>]... [--dry-run]");
        }
    }
    assert(texts(paths@) + Seq::<Seq<char>>::empty() =~= texts(paths@));
    ChatCommand::Restore { checkpoint_id: tokens[1].clone(), paths, dry_run }
}

/// The words that ask for paths.
pub open spec fn path_flags(paths: Seq<Seq<char>>) -> Seq<Seq<char>>
    decreases paths.len(),
{
    if paths.len() == 0 {
        Seq::empty()
    } else {
        seq!["--path"@, paths[0]] + path_flags(paths.drop_first())
    }
}

/// Every path on the command line is asked for, whatever it looks like, in the order given; with the wish
/// to only look behind them it is a dry run, and without it is not.
pub proof fn law_every_path_is_asked_for(head: Seq<Seq<char>>, paths: Seq<Seq<char>>, dry: bool)
    ensures
        flags(
            head + path_flags(paths) + (if dry {
                seq!["--dry-run"@]
            } else {
                Seq::empty()
            }),
            head.len() as int,
        ) == Some((paths, dry)),
    decreases paths.len(),
{
    reveal_strlit("--dry-run");
    reveal_strlit("--path");
    assert("--dry-run"@.len() != "--path"@.len());
    let tail = if dry {
        seq!["--dry-run"@]
    } else {
        Seq::<Seq<char>>::empty()
    };
    let n = head.len() as int;
    let all = head + path_flags(paths) + tail;
    if paths.len() == 0 {
        assert(paths =~= Seq::<Seq<char>>::empty());
        if dry {
            assert(all[n] == "--dry-run"@);
            assert(all.len() == n + 1);
            assert(flags(all, n + 1) == Some((Seq::<Seq<char>>::empty(), false)));
        }
    } else {
        let rest = paths.drop_first();
        let more = head + seq!["--path"@, paths[0]];
        law_every_path_is_asked_for(more, rest, dry);
        assert(all =~= more + path_flags(rest) + tail);
        assert(all[n] == "--path"@);
        assert(all[n + 1] == paths[0]);
        assert(seq![paths[0]] + rest =~= paths);
    }
}

/// A word that is no flag, where a flag is due, is refused, and so is a path flag without a path.
pub proof fn law_unknown_flags_are_refused(tokens: Seq<Seq<char>>, at: int)
    requires
        0 <= at < tokens.len(),
        tokens[at] != "--dry-run"@,
        tokens[at] != "--path"@ || at + 1 == tokens.len(),
    ensures
        flags(tokens, at) is None,
{
}

} // verus!
