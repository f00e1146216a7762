//! Making sure, without holding the chat up, that the tools it likes to have are there.
//!
//! What is missing is installed in the background where a package manager is at hand; the chat
//! works without.

use vstd::prelude::*;
use vstd::string::*;

use crate::numerals::decimal_i32;
#[allow(unused_imports)]
use crate::numerals::signed_decimal;
use crate::paths::join_path;
#[allow(unused_imports)]
use crate::paths::path_joined;
use crate::plan_runtime::safety::quote_text;
#[allow(unused_imports)]
use crate::plan_runtime::safety::quoted_text;
use crate::search::{join, lines_of, take_chars};
#[allow(unused_imports)]
use crate::search::{joined, lines};
use crate::text::{cat, cat3, cat4, cat5, chars_of, copy_texts, one_text, push_text, same, trim};
#[allow(unused_imports)]
use crate::text::{opt_text, texts, lemma_trimmed_end, trimmed, trimmed_start};

verus! {

/// The variable of the environment that switches the look for search tools off.
pub const SKIP_ENV: &'static str = "PI_SKIP_SEARCH_TOOLS_PREFLIGHT";

/// The file that remembers where the last installation of search tools is logged.
pub const DETACHED_LOG_MARKER_NAME: &'static str = "preflight-detached-log.marker";

/// The file that remembers where the last installation of git is logged.
pub const GIT_DETACHED_LOG_MARKER_NAME: &'static str = "preflight-detached-git-log.marker";

/// The name under which all this is traced.
pub const TRACE_TARGET: &'static str = "tomcat_preflight";

// ---------------------------------------------------------------- what to install

/// Whether search tools are not looked for.
pub fn should_skip_preflight(skip_env_set: bool, auto_install_search_tools: bool) -> (r: bool)
    ensures
        r == (skip_env_set || !auto_install_search_tools),
{
    skip_env_set || !auto_install_search_tools
}

/// Whether git is not looked for.
pub fn should_skip_git_preflight(auto_install_git: bool) -> (r: bool)
    ensures
        r == !auto_install_git,
{
    !auto_install_git
}

/// Whether this is Termux.
pub fn is_termux(version_env_set: bool, termux_pkg_exists: bool) -> (r: bool)
    ensures
        r == (version_env_set || termux_pkg_exists),
{
    version_env_set || termux_pkg_exists
}

/// The search tools that are missing.
pub open spec fn missing_tools(has_ripgrep: bool, has_fd: bool) -> Seq<Seq<char>> {
    (if has_ripgrep {
        Seq::empty()
    } else {
        seq!["ripgrep"@]
    }) + (if has_fd {
        Seq::empty()
    } else {
        seq!["fd"@]
    })
}

/// The search tools that are missing.
pub fn missing_search_tools(has_ripgrep: bool, has_fd: bool) -> (r: Vec<String>)
    ensures
        texts(r@) == missing_tools(has_ripgrep, has_fd),
{
    let mut v: Vec<String> = Vec::new();
    if !has_ripgrep {
        push_text(&mut v, "ripgrep".to_owned());
    }
    if !has_fd {
        push_text(&mut v, "fd".to_owned());
    }
    assert(texts(v@) =~= missing_tools(has_ripgrep, has_fd));
    v
}

/// The places where a program is looked for: in each directory, under each of its names.
pub open spec fn places(dirs: Seq<Seq<char>>, names: Seq<Seq<char>>, windows: bool) -> Seq<Seq<char>>
    decreases dirs.len(),
{
    if dirs.len() == 0 {
        Seq::empty()
    } else {
        places(dirs.drop_last(), names, windows) + places_in(dirs.last(), names, windows)
    }
}

/// The places in one directory.
pub open spec fn places_in(dir: Seq<char>, names: Seq<Seq<char>>, windows: bool) -> Seq<Seq<char>>
    decreases names.len(),
{
    if names.len() == 0 {
        Seq::empty()
    } else {
        let n = names.last();
        let rest = places_in(dir, names.drop_last(), windows).push(path_joined(dir, n));
        if windows {
            rest.push(path_joined(dir, n + ".exe"@))
        } else {
            rest
        }
    }
}

fn push_places_in(out: &mut Vec<String>, dir: &str, names: &Vec<String>, windows: bool)
    ensures
        texts(final(out)@) == texts(old(out)@) + places_in(dir@, texts(names@), windows),
{
    let ghost start = texts(out@);
    let ghost all = texts(names@);
    let mut i: usize = 0;
    assert(start + places_in(dir@, all.take(0), windows) =~= start);
    while i < names.len()
        invariant
            i <= names@.len(),
            all == texts(names@),
            texts(out@) == start + places_in(dir@, all.take(i as int), windows),
        decreases names@.len() - i,
    {
        assert(all.take(i + 1).drop_last() =~= all.take(i as int));
        assert(all.take(i + 1).last() == names@[i as int]@);
        push_text(out, join_path(dir, names[i].as_str()));
        if windows {
            push_text(out, join_path(dir, cat(names[i].as_str(), ".exe").as_str()));
        }
        assert(texts(out@) =~= start + places_in(dir@, all.take(i + 1), windows));
        i = i + 1;
    }
    assert(all.take(all.len() as int) =~= all);
}

/// The places where a program is looked for, in the order in which they are: the first that is a
/// file is the program.
pub fn binary_candidates(dirs: &Vec<String>, names: &Vec<String>, windows: bool) -> (r: Vec<String>)
    ensures
        texts(r@) == places(texts(dirs@), texts(names@), windows),
{
    let ghost all = texts(dirs@);
    let mut out: Vec<String> = Vec::new();
    let mut i: usize = 0;
    assert(texts(out@) =~= places(all.take(0), texts(names@), windows));
    while i < dirs.len()
        invariant
            i <= dirs@.len(),
            all == texts(dirs@),
            texts(out@) == places(all.take(i as int), texts(names@), windows),
        decreases dirs@.len() - i,
    {
        assert(all.take(i + 1).drop_last() =~= all.take(i as int));
        assert(all.take(i + 1).last() == dirs@[i as int]@);
        push_places_in(&mut out, dirs[i].as_str(), names, windows);
        i = i + 1;
    }
    assert(all.take(all.len() as int) =~= all);
    out
}

/// The machine that something is to be installed on.
#[derive(Clone, Copy, Debug, PartialEq, Eq, Structural)]
pub struct Machine {
    pub termux: bool,
    pub android: bool,
    pub macos: bool,
    pub windows: bool,
    /// Which package managers are there.
    pub pkg: bool,
    pub brew: bool,
    pub winget: bool,
    pub apt_get: bool,
    pub dnf: bool,
    pub pacman: bool,
}

/// The package manager that is used.
#[derive(Clone, Copy, Debug, PartialEq, Eq, Structural)]
pub enum Manager {
    Pkg,
    Brew,
    Winget,
    AptGet,
    Dnf,
    Pacman,
}

/// The package manager that is used, if any can be.
pub open spec fn manager(m: Machine) -> Option<Manager> {
    if m.termux && m.pkg {
        Some(Manager::Pkg)
    } else if m.android {
        None
    } else if m.macos && m.brew {
        Some(Manager::Brew)
    } else if m.windows && m.winget {
        Some(Manager::Winget)
    } else if m.apt_get {
        Some(Manager::AptGet)
    } else if m.dnf {
        Some(Manager::Dnf)
    } else if m.pacman {
        Some(Manager::Pacman)
    } else {
        None
    }
}

/// The package manager that is used, if any can be.
pub fn choose_manager(m: &Machine) -> (r: Option<Manager>)
    ensures
        r == manager(*m),
{
    if m.termux && m.pkg {
        Some(Manager::Pkg)
    } else if m.android {
        None
    } else if m.macos && m.brew {
        Some(Manager::Brew)
    } else if m.windows && m.winget {
        Some(Manager::Winget)
    } else if m.apt_get {
        Some(Manager::AptGet)
    } else if m.dnf {
        Some(Manager::Dnf)
    } else if m.pacman {
        Some(Manager::Pacman)
    } else {
        None
    }
}

/// A command that installs something.
#[derive(Clone, Debug, PartialEq, Eq)]
pub struct InstallPlan {
    pub program: String,
    pub args: Vec<String>,
}

/// A command that installs something, as mathematics.
pub ghost struct Command {
    pub program: Seq<char>,
    pub args: Seq<Seq<char>>,
}

impl View for InstallPlan {
    type V = Command;

    open spec fn view(&self) -> Command {
        Command { program: self.program@, args: texts(self.args@) }
    }
}

/// The command that installs search tools.
pub open spec fn search_command(m: Manager) -> Command {
    match m {
        Manager::Pkg => Command {
            program: "pkg"@,
            args: seq!["install"@, "-y"@, "ripgrep"@, "fd"@],
        },
        Manager::Brew => Command {
            program: "brew"@,
            args: seq!["install"@, "--force-bottle"@, "ripgrep"@, "fd"@],
        },
        Manager::Winget => Command {
            program: "cmd"@,
            args: seq![
                "/C"@,
                "winget install --id BurntSushi.ripgrep.MSVC --silent --accept-source-agreements --accept-package-agreements && winget install --id sharkdp.fd --silent --accept-source-agreements --accept-package-agreements"@,
            ],
        },
        Manager::AptGet => Command {
            program: "apt-get"@,
            args: seq!["install"@, "-y"@, "ripgrep"@, "fd-find"@],
        },
        Manager::Dnf => Command {
            program: "dnf"@,
            args: seq!["install"@, "-y"@, "ripgrep"@, "fd-find"@],
        },
        Manager::Pacman => Command {
            program: "pacman"@,
            args: seq!["-S"@, "--noconfirm"@, "ripgrep"@, "fd"@],
        },
    }
}

/// The command that installs git.
pub open spec fn git_command(m: Manager) -> Command {
    match m {
        Manager::Pkg => Command { program: "pkg"@, args: seq!["install"@, "-y"@, "git"@] },
        Manager::Brew => Command {
            program: "brew"@,
            args: seq!["install"@, "--force-bottle"@, "git"@],
        },
        Manager::Winget => Command {
            program: "cmd"@,
            args: seq![
                "/C"@,
                "winget install --id Git.Git --silent --accept-source-agreements --accept-package-agreements"@,
            ],
        },
        Manager::AptGet => Command { program: "apt-get"@, args: seq!["install"@, "-y"@, "git"@] },
        Manager::Dnf => Command { program: "dnf"@, args: seq!["install"@, "-y"@, "git"@] },
        Manager::Pacman => Command {
            program: "pacman"@,
            args: seq!["-S"@, "--noconfirm"@, "git"@],
        },
    }
}

fn plan2(program: &str, a: &str, b: &str) -> (r: InstallPlan)
    ensures
        r@ == (Command { program: program@, args: seq![a@, b@] }),
{
    let mut args = one_text(a.to_owned());
    push_text(&mut args, b.to_owned());
    assert(texts(args@) =~= seq![a@, b@]);
    InstallPlan { program: program.to_owned(), args }
}

fn plan3(program: &str, a: &str, b: &str, c: &str) -> (r: InstallPlan)
    ensures
        r@ == (Command { program: program@, args: seq![a@, b@, c@] }),
{
    let mut args = one_text(a.to_owned());
    push_text(&mut args, b.to_owned());
    push_text(&mut args, c.to_owned());
    assert(texts(args@) =~= seq![a@, b@, c@]);
    InstallPlan { program: program.to_owned(), args }
}

fn plan4(program: &str, a: &str, b: &str, c: &str, d: &str) -> (r: InstallPlan)
    ensures
        r@ == (Command { program: program@, args: seq![a@, b@, c@, d@] }),
{
    let mut args = one_text(a.to_owned());
    push_text(&mut args, b.to_owned());
    push_text(&mut args, c.to_owned());
    push_text(&mut args, d.to_owned());
    assert(texts(args@) =~= seq![a@, b@, c@, d@]);
    InstallPlan { program: program.to_owned(), args }
}

/// The command that installs search tools on a machine, if there is one.
pub fn install_plan(m: &Machine) -> (r: Option<InstallPlan>)
    ensures
        match r {
            Some(p) => manager(*m) is Some && p@ == search_command(manager(*m)->0),
            None => manager(*m) is None,
        },
{
    match choose_manager(m) {
        None => None,
        Some(Manager::Pkg) => Some(plan4("pkg", "install", "-y", "ripgrep", "fd")),
        Some(Manager::Brew) => Some(plan4("brew", "install", "--force-bottle", "ripgrep", "fd")),
        Some(Manager::Winget) => Some(
            plan2(
                "cmd",
                "/C",
                "winget install --id BurntSushi.ripgrep.MSVC --silent --accept-source-agreements --accept-package-agreements && winget install --id sharkdp.fd --silent --accept-source-agreements --accept-package-agreements",
            ),
        ),
        Some(Manager::AptGet) => Some(plan4("apt-get", "install", "-y", "ripgrep", "fd-find")),
        Some(Manager::Dnf) => Some(plan4("dnf", "install", "-y", "ripgrep", "fd-find")),
        Some(Manager::Pacman) => Some(plan4("pacman", "-S", "--noconfirm", "ripgrep", "fd")),
    }
}

/// The command that installs git on a machine, if there is one.
pub fn git_install_plan(m: &Machine) -> (r: Option<InstallPlan>)
    ensures
        match r {
            Some(p) => manager(*m) is Some && p@ == git_command(manager(*m)->0),
            None => manager(*m) is None,
        },
{
    match choose_manager(m) {
        None => None,
        Some(Manager::Pkg) => Some(plan3("pkg", "install", "-y", "git")),
        Some(Manager::Brew) => Some(plan3("brew", "install", "--force-bottle", "git")),
        Some(Manager::Winget) => Some(
            plan2(
                "cmd",
                "/C",
                "winget install --id Git.Git --silent --accept-source-agreements --accept-package-agreements",
            ),
        ),
        Some(Manager::AptGet) => Some(plan3("apt-get", "install", "-y", "git")),
        Some(Manager::Dnf) => Some(plan3("dnf", "install", "-y", "git")),
        Some(Manager::Pacman) => Some(plan3("pacman", "-S", "--noconfirm", "git")),
    }
}

// ---------------------------------------------------------------- the background command

/// A word as it is written on a command line, so that the shell takes it as it is.
pub uninterp spec fn shell_quoted(s: Seq<char>) -> Seq<char>;

/// `shell_words::quote`: how a word is written is a function of the word alone.
#[verifier::external_body]
pub(crate) fn quote_for_shell(s: &str) -> (r: String)
    ensures
        r@ == shell_quoted(s@),
{
    shell_words::quote(s).into_owned()
}

/// `shell_words::join`: each word as `shell_words::quote` writes it, with one space between each
/// two.
#[verifier::external_body]
pub(crate) fn join_for_shell(words: &Vec<String>) -> (r: String)
    ensures
        r@ == joined(texts(words@).map_values(|w: Seq<char>| shell_quoted(w)), " "@),
{
    shell_words::join(words)
}

/// The words of a command.
pub open spec fn command_words(c: Command) -> Seq<Seq<char>> {
    seq![c.program] + c.args
}

/// The shell command that runs `c` in the background and logs what it says. Homebrew is told not to
/// build anything from its source.
pub open spec fn nohup_command(c: Command, log: Seq<char>) -> Seq<char> {
    let line = joined(command_words(c).map_values(|w: Seq<char>| shell_quoted(w)), " "@);
    nohup_line(c.program == "brew"@, line, shell_quoted(log))
}

/// The shell command that runs a line in the background, with the file for its log written so that
/// the shell takes it as it is.
pub open spec fn nohup_line(brew: bool, line: Seq<char>, quoted_log: Seq<char>) -> Seq<char> {
    let body = "nohup "@ + line + " >> "@ + quoted_log + " 2>&1 &"@;
    if brew {
        "HOMEBREW_NO_BUILD_FROM_SOURCE=1 "@ + body
    } else {
        body
    }
}

/// The shell command that runs a line in the background.
pub fn build_nohup_line(brew: bool, line: &str, quoted_log: &str) -> (r: String)
    ensures
        r@ == nohup_line(brew, line@, quoted_log@),
{
    let body = cat5("nohup ", line, " >> ", quoted_log, " 2>&1 &");
    if brew {
        cat("HOMEBREW_NO_BUILD_FROM_SOURCE=1 ", body.as_str())
    } else {
        body
    }
}

/// The shell command that installs in the background and logs to a file.
pub fn build_nohup_shell_command(plan: &InstallPlan, log_path: &str) -> (r: String)
    ensures
        r@ == nohup_command(plan@, log_path@),
{
    let mut words = one_text(plan.program.clone());
    let ghost all = texts(plan.args@);
    let mut i: usize = 0;
    assert(texts(words@) =~= seq![plan.program@] + all.take(0));
    while i < plan.args.len()
        invariant
            i <= plan.args@.len(),
            all == texts(plan.args@),
            texts(words@) == seq![plan.program@] + all.take(i as int),
        decreases plan.args@.len() - i,
    {
        push_text(&mut words, plan.args[i].clone());
        assert(texts(words@) =~= seq![plan.program@] + all.take(i + 1));
        i = i + 1;
    }
    assert(all.take(all.len() as int) =~= all);
    let line = join_for_shell(&words);
    let log = quote_for_shell(log_path);
    build_nohup_line(same(plan.program.as_str(), "brew"), line.as_str(), log.as_str())
}

// ---------------------------------------------------------------- the log

/// The directory of the logs, below the home directory.
pub open spec fn log_dir(home: Seq<char>) -> Seq<char> {
    path_joined(
        path_joined(path_joined(path_joined(home, ".tomcat"@), "agents"@), "main"@),
        "logs"@,
    )
}

/// The directory of the logs, below the home directory.
pub fn preflight_log_dir(home: &str) -> (r: String)
    ensures
        r@ == log_dir(home@),
{
    let a = join_path(home, ".tomcat");
    let b = join_path(a.as_str(), "agents");
    let c = join_path(b.as_str(), "main");
    join_path(c.as_str(), "logs")
}

/// The file that remembers where an installation is logged.
pub fn detached_log_marker_path(home: &str, marker_name: &str) -> (r: String)
    ensures
        r@ == path_joined(log_dir(home@), marker_name@),
{
    join_path(preflight_log_dir(home).as_str(), marker_name)
}

/// The file for a new log, made at a time.
pub fn new_preflight_log_file_path(home: &str, stamp: &str) -> (r: String)
    ensures
        r@ == path_joined(log_dir(home@), "preflight-file-log-"@ + stamp@ + ".log"@),
{
    join_path(
        preflight_log_dir(home).as_str(),
        cat3("preflight-file-log-", stamp, ".log").as_str(),
    )
}

/// What the file that remembers holds for a log.
pub fn marker_text(log_path: &str) -> (r: String)
    ensures
        r@ == log_path@ + "\n"@,
{
    cat(log_path, "\n")
}

/// The log that a remembering file names.
pub open spec fn marked_log(raw: Seq<char>) -> Option<Seq<char>> {
    let ls = lines(raw);
    if ls.len() == 0 || trimmed(ls[0]).len() == 0 {
        None
    } else {
        Some(trimmed(ls[0]))
    }
}

/// The log that a remembering file names, if it names one.
pub fn marker_log_path(raw: &str) -> (r: Option<String>)
    ensures
        opt_text(r) == marked_log(raw@),
{
    let ls = lines_of(raw);
    let ghost all = texts(ls@);
    if ls.len() == 0 {
        return None;
    }
    assert(all[0] == ls@[0]@);
    let first = trim(ls[0].as_str());
    if first.as_str().is_empty() {
        None
    } else {
        Some(first)
    }
}

/// What something said, short enough for an event.
pub open spec fn for_event(s: Seq<char>) -> Seq<char> {
    let t = trimmed(s);
    if t.len() > 500 {
        t.take(500) + "..."@
    } else {
        t
    }
}

/// What something said, short enough for an event.
pub fn trim_for_event(value: &str) -> (r: String)
    ensures
        r@ == for_event(value@),
{
    let t = trim(value);
    let v = chars_of(t.as_str());
    if v.len() > 500 {
        cat(take_chars(t.as_str(), 500).as_str(), "...")
    } else {
        t
    }
}

// ---------------------------------------------------------------- what is announced

/// The details of an announcement; those that are not there do not belong to it.
#[derive(Clone, Debug, PartialEq, Eq)]
pub struct PreflightExtra {
    pub missing: Option<Vec<String>>,
    pub missing_after: Option<Vec<String>>,
    pub program: Option<String>,
    pub args: Option<Vec<String>>,
    pub elapsed_ms: Option<u128>,
    pub log_path: Option<String>,
    /// The code that a program ended with; one that was killed has none.
    pub exit_code: Option<Option<i32>>,
    pub stderr: Option<String>,
    pub error: Option<String>,
}

/// The details of an announcement, as mathematics.
pub ghost struct Details {
    pub missing: Option<Seq<Seq<char>>>,
    pub missing_after: Option<Seq<Seq<char>>>,
    pub program: Option<Seq<char>>,
    pub args: Option<Seq<Seq<char>>>,
    pub elapsed_ms: Option<u128>,
    pub log_path: Option<Seq<char>>,
    pub exit_code: Option<Option<i32>>,
    pub stderr: Option<Seq<char>>,
    pub error: Option<Seq<char>>,
}

/// The texts of a list, if there is one.
pub open spec fn opt_texts(v: Option<Vec<String>>) -> Option<Seq<Seq<char>>> {
    match v {
        Some(l) => Some(texts(l@)),
        None => None,
    }
}

impl View for PreflightExtra {
    type V = Details;

    open spec fn view(&self) -> Details {
        Details {
            missing: opt_texts(self.missing),
            missing_after: opt_texts(self.missing_after),
            program: opt_text(self.program),
            args: opt_texts(self.args),
            elapsed_ms: self.elapsed_ms,
            log_path: opt_text(self.log_path),
            exit_code: self.exit_code,
            stderr: opt_text(self.stderr),
            error: opt_text(self.error),
        }
    }
}

/// No details.
pub open spec fn no_details() -> Details {
    Details {
        missing: None,
        missing_after: None,
        program: None,
        args: None,
        elapsed_ms: None,
        log_path: None,
        exit_code: None,
        stderr: None,
        error: None,
    }
}

fn no_extra() -> (r: PreflightExtra)
    ensures
        r@ == no_details(),
{
    PreflightExtra {
        missing: None,
        missing_after: None,
        program: None,
        args: None,
        elapsed_ms: None,
        log_path: None,
        exit_code: None,
        stderr: None,
        error: None,
    }
}

/// An announcement.
#[derive(Clone, Debug, PartialEq, Eq)]
pub struct PreflightEvent {
    pub status: String,
    pub message: String,
    pub extra: PreflightExtra,
}

/// An announcement, as mathematics.
pub ghost struct Notice {
    pub status: Seq<char>,
    pub message: Seq<char>,
    pub extra: Details,
}

impl View for PreflightEvent {
    type V = Notice;

    open spec fn view(&self) -> Notice {
        Notice { status: self.status@, message: self.message@, extra: self.extra@ }
    }
}

fn event(status: &str, message: &str, extra: PreflightExtra) -> (r: PreflightEvent)
    ensures
        r@ == (Notice { status: status@, message: message@, extra: extra@ }),
{
    PreflightEvent { status: status.to_owned(), message: message.to_owned(), extra }
}

/// What is being looked for.
#[derive(Clone, Copy, Debug, PartialEq, Eq, Structural)]
pub enum Subject {
    SearchTools,
    Git,
}

/// How the look for search tools goes on.
#[derive(Clone, Debug, PartialEq, Eq)]
pub enum PreflightStep {
    /// It is over: what is announced, and whether the remembering file goes.
    Done { event: PreflightEvent, remove_marker: bool },
    /// Something is to be installed: what is announced first.
    Install { event: PreflightEvent },
}

/// What is announced when nothing is missing.
pub open spec fn ready_notice(subject: Subject) -> Notice {
    match subject {
        Subject::SearchTools => Notice {
            status: "ready"@,
            message: "search_files Tier1 tools are already available"@,
            extra: Details { missing: Some(Seq::empty()), ..no_details() },
        },
        Subject::Git => Notice {
            status: "ready"@,
            message: "git 已可用，checkpoint 将使用影子仓库"@,
            extra: no_details(),
        },
    }
}

/// What is announced when something is missing.
pub open spec fn start_notice(subject: Subject, missing: Seq<Seq<char>>) -> Notice {
    match subject {
        Subject::SearchTools => Notice {
            status: "start"@,
            message: "search_files Tier1 tools missing; attempting background install"@,
            extra: Details { missing: Some(missing), ..no_details() },
        },
        Subject::Git => Notice {
            status: "start"@,
            message: "git 缺失，正在尝试后台安装以启用 checkpoint"@,
            extra: no_details(),
        },
    }
}

/// Begins the look for search tools: over if none is missing. On Unix the remembering file goes
/// then.
pub fn begin_search_tools(missing: Vec<String>, unix: bool) -> (r: PreflightStep)
    ensures
        match r {
            PreflightStep::Done { event, remove_marker } => missing@.len() == 0 && event@
                == ready_notice(Subject::SearchTools) && remove_marker == unix,
            PreflightStep::Install { event } => missing@.len() > 0 && event@ == start_notice(
                Subject::SearchTools,
                texts(missing@),
            ),
        },
{
    let mut extra = no_extra();
    if missing.len() == 0 {
        let none: Vec<String> = Vec::new();
        assert(texts(none@) =~= Seq::<Seq<char>>::empty());
        extra.missing = Some(none);
        return PreflightStep::Done {
            event: event("ready", "search_files Tier1 tools are already available", extra),
            remove_marker: unix,
        };
    }
    extra.missing = Some(missing);
    PreflightStep::Install {
        event: event(
            "start",
            "search_files Tier1 tools missing; attempting background install",
            extra,
        ),
    }
}

/// Begins the look for git: over if it is there. On Unix the remembering file goes then.
pub fn begin_git(has_git: bool, unix: bool) -> (r: PreflightStep)
    ensures
        match r {
            PreflightStep::Done { event, remove_marker } => has_git && event@ == ready_notice(
                Subject::Git,
            ) && remove_marker == unix,
            PreflightStep::Install { event } => !has_git && event@ == start_notice(
                Subject::Git,
                Seq::empty(),
            ),
        },
{
    if has_git {
        return PreflightStep::Done {
            event: event("ready", "git 已可用，checkpoint 将使用影子仓库", no_extra()),
            remove_marker: unix,
        };
    }
    PreflightStep::Install {
        event: event(
            "start",
            "git 缺失，正在尝试后台安装以启用 checkpoint",
            no_extra(),
        ),
    }
}

/// What is announced when there is nothing to install with.
pub open spec fn no_manager_notice(subject: Subject, missing: Seq<Seq<char>>) -> Notice {
    match subject {
        Subject::SearchTools => Notice {
            status: "failed"@,
            message:
                "No supported package manager found for automatic search tool installation"@,
            extra: Details { missing: Some(missing), ..no_details() },
        },
        Subject::Git => Notice {
            status: "failed"@,
            message: "未找到可用于自动安装 git 的包管理器"@,
            extra: no_details(),
        },
    }
}

/// What is announced when there is nothing to install with.
pub fn no_manager_event(subject: Subject, missing: Vec<String>) -> (r: PreflightEvent)
    ensures
        r@ == no_manager_notice(subject, texts(missing@)),
{
    let mut extra = no_extra();
    match subject {
        Subject::SearchTools => {
            extra.missing = Some(missing);
            event(
                "failed",
                "No supported package manager found for automatic search tool installation",
                extra,
            )
        },
        Subject::Git => event("failed", "未找到可用于自动安装 git 的包管理器", extra),
    }
}

/// How the installation goes on once it is known what it can be done with.
#[derive(Clone, Debug, PartialEq, Eq)]
pub enum MachineStep {
    /// It cannot be done: what is announced.
    Stop { event: PreflightEvent },
    /// It is done in the background; first it is looked whether Homebrew is at work.
    Background { plan: InstallPlan },
    /// It is waited for: what is announced first.
    Wait { plan: InstallPlan, event: Option<PreflightEvent> },
}

/// The command that installs a subject.
pub open spec fn command_for(subject: Subject, m: Manager) -> Command {
    match subject {
        Subject::SearchTools => search_command(m),
        Subject::Git => git_command(m),
    }
}

/// What is announced before a command is waited for.
pub open spec fn progress_notice(c: Command) -> Notice {
    Notice {
        status: "progress"@,
        message: "running: "@ + c.program + " "@ + joined(c.args, " "@),
        extra: Details { program: Some(c.program), args: Some(c.args), ..no_details() },
    }
}

/// Goes on once the machine is known: with a package manager the installation is run, in the
/// background on Unix and waited for elsewhere. `missing` is what is missing now.
pub fn after_machine(subject: Subject, m: &Machine, unix: bool, missing: Vec<String>) -> (r:
    MachineStep)
    ensures
        match r {
            MachineStep::Stop { event } => manager(*m) is None && event@ == no_manager_notice(
                subject,
                texts(missing@),
            ),
            MachineStep::Background { plan } => unix && manager(*m) is Some && plan@ == command_for(
                subject,
                manager(*m)->0,
            ),
            MachineStep::Wait { plan, event } => {
                &&& !unix
                &&& manager(*m) is Some
                &&& plan@ == command_for(subject, manager(*m)->0)
                &&& match subject {
                    Subject::SearchTools => event is Some && event->0@ == progress_notice(plan@),
                    Subject::Git => event is None,
                }
            },
        },
{
    let found = match subject {
        Subject::SearchTools => install_plan(m),
        Subject::Git => git_install_plan(m),
    };
    match found {
        None => MachineStep::Stop { event: no_manager_event(subject, missing) },
        Some(plan) => {
            if unix {
                return MachineStep::Background { plan };
            }
            let event = match subject {
                Subject::SearchTools => Some(progress_event(&plan)),
                Subject::Git => None,
            };
            MachineStep::Wait { plan, event }
        },
    }
}

// ---------------------------------------------------------------- installing on Unix

/// The patterns of command lines by which Homebrew is seen at work.
pub fn homebrew_patterns() -> (r: Vec<String>)
    ensures
        texts(r@) == seq![
            "[Hh]omebrew/.*brew\\.rb"@,
            "[Hh]omebrew/.*build\\.rb"@,
            "brew\\.rb.*install"@,
        ],
{
    let mut v = one_text("[Hh]omebrew/.*brew\\.rb".to_owned());
    push_text(&mut v, "[Hh]omebrew/.*build\\.rb".to_owned());
    push_text(&mut v, "brew\\.rb.*install".to_owned());
    assert(texts(v@) =~= seq![
        "[Hh]omebrew/.*brew\\.rb"@,
        "[Hh]omebrew/.*build\\.rb"@,
        "brew\\.rb.*install"@,
    ]);
    v
}

/// What is announced when an installation is running already.
pub open spec fn already_notice(subject: Subject, log: Option<Seq<char>>, elapsed: u128) -> Notice {
    match subject {
        Subject::SearchTools => Notice {
            status: "already_installing"@,
            message: "search_files Tier1 安装已在后台进行中"@,
            extra: Details { log_path: log, ..no_details() },
        },
        Subject::Git => Notice {
            status: "already_installing"@,
            message:
                "git 安装已在后台进行中；安装完成后下次 checkpoint 操作会自动启用影子仓库"@,
            extra: Details { log_path: log, elapsed_ms: Some(elapsed), ..no_details() },
        },
    }
}

/// What is announced when an installation is running already.
pub fn already_installing_event(subject: Subject, log_path: Option<String>, elapsed_ms: u128) -> (r:
    PreflightEvent)
    ensures
        r@ == already_notice(subject, opt_text(log_path), elapsed_ms),
{
    let mut extra = no_extra();
    extra.log_path = log_path;
    match subject {
        Subject::SearchTools => event(
            "already_installing",
            "search_files Tier1 安装已在后台进行中",
            extra,
        ),
        Subject::Git => {
            extra.elapsed_ms = Some(elapsed_ms);
            event(
                "already_installing",
                "git 安装已在后台进行中；安装完成后下次 checkpoint 操作会自动启用影子仓库",
                extra,
            )
        },
    }
}

/// How an installation in the background begins.
#[derive(Clone, Debug, PartialEq, Eq)]
pub struct BackgroundStart {
    /// Whether the remembering file goes first.
    pub remove_marker: bool,
    /// What is announced if an installation is running already, and then all there is to do.
    pub stop: Option<PreflightEvent>,
}

/// Begins an installation in the background. `busy_first` and `busy_again` say whether Homebrew was
/// at work when it was looked at the first and the second time: the remembering file goes if it was
/// not, and nothing is installed with Homebrew while it is. `marked_log` is the log that the
/// remembering file names; it is not told once that file is gone.
pub fn after_homebrew(
    subject: Subject,
    plan: &InstallPlan,
    busy_first: bool,
    busy_again: bool,
    marked_log: Option<String>,
    elapsed_ms: u128,
) -> (r: BackgroundStart)
    ensures
        r.remove_marker == !busy_first,
        match r.stop {
            Some(e) => plan@.program == "brew"@ && busy_again && e@ == already_notice(
                subject,
                if busy_first {
                    opt_text(marked_log)
                } else {
                    None
                },
                elapsed_ms,
            ),
            None => !(plan@.program == "brew"@ && busy_again),
        },
{
    let stop = if same(plan.program.as_str(), "brew") && busy_again {
        let log = if busy_first {
            marked_log
        } else {
            None
        };
        Some(already_installing_event(subject, log, elapsed_ms))
    } else {
        None
    };
    BackgroundStart { remove_marker: !busy_first, stop }
}

/// What is announced when there is no file to log to.
pub open spec fn no_log_notice(subject: Subject, elapsed_ms: u128) -> Notice {
    Notice {
        status: "failed"@,
        message: match subject {
            Subject::SearchTools =>
                "search_files Tier1 tools installation could not prepare log file; Tier2 fallback remains available"@,
            Subject::Git => "git 安装无法创建日志文件，checkpoint 将继续退化为 Noop"@,
        },
        extra: Details { elapsed_ms: Some(elapsed_ms), ..no_details() },
    }
}

/// How an installation goes on once there is a file to log to, or none.
#[derive(Clone, Debug, PartialEq, Eq)]
pub enum LogStep {
    /// It cannot be done: what is announced.
    Stop { event: PreflightEvent },
    /// A shell is to run a command, which goes on by itself.
    Spawn { shell_command: String, log_path: String },
}

/// Goes on once there is a file to log to, or none: the installation is run in the background.
pub fn after_log(subject: Subject, plan: &InstallPlan, log_path: Option<String>, elapsed_ms: u128) -> (r:
    LogStep)
    ensures
        match r {
            LogStep::Stop { event } => log_path is None && event@ == no_log_notice(
                subject,
                elapsed_ms,
            ),
            LogStep::Spawn { shell_command, log_path: log } => log_path == Some(log)
                && shell_command@ == nohup_command(plan@, log@),
        },
{
    match log_path {
        None => LogStep::Stop { event: no_log_event(subject, elapsed_ms) },
        Some(log_path) => LogStep::Spawn {
            shell_command: build_nohup_shell_command(plan, log_path.as_str()),
            log_path,
        },
    }
}

/// What is announced when there is no file to log to.
pub fn no_log_event(subject: Subject, elapsed_ms: u128) -> (r: PreflightEvent)
    ensures
        r@ == no_log_notice(subject, elapsed_ms),
{
    let mut extra = no_extra();
    extra.elapsed_ms = Some(elapsed_ms);
    match subject {
        Subject::SearchTools => event(
            "failed",
            "search_files Tier1 tools installation could not prepare log file; Tier2 fallback remains available",
            extra,
        ),
        Subject::Git => event(
            "failed",
            "git 安装无法创建日志文件，checkpoint 将继续退化为 Noop",
            extra,
        ),
    }
}

/// What is said when the installation goes on in the background.
pub open spec fn detached_message(subject: Subject, brew: bool) -> Seq<char> {
    match subject {
        Subject::SearchTools => if brew {
            "search_files Tier1 安装已在后台继续（Homebrew 仅 bottle、禁止源码编译）；退出 chat 不影响"@
        } else {
            "search_files Tier1 安装已在后台继续，退出 chat 不影响"@
        },
        Subject::Git =>
            "git 安装已在后台继续；安装完成后下次 checkpoint 操作会自动启用影子仓库"@,
    }
}

/// What is said when the installation could not be started.
pub open spec fn not_started_message(subject: Subject) -> Seq<char> {
    match subject {
        Subject::SearchTools =>
            "search_files Tier1 tools installation could not be started; Tier2 fallback remains available"@,
        Subject::Git => "git 安装无法启动，checkpoint 将继续退化为 Noop"@,
    }
}

/// What is announced once the installation was started or could not be; the second part says
/// whether the log is remembered.
pub fn spawned_event(
    subject: Subject,
    plan: &InstallPlan,
    log_path: &str,
    elapsed_ms: u128,
    failure: Option<String>,
) -> (r: (PreflightEvent, bool))
    ensures
        r.1 == (failure is None),
        r.0@ == (match failure {
            None => Notice {
                status: "detached"@,
                message: detached_message(subject, plan@.program == "brew"@),
                extra: Details {
                    log_path: Some(log_path@),
                    elapsed_ms: Some(elapsed_ms),
                    ..no_details()
                },
            },
            Some(e) => Notice {
                status: "failed"@,
                message: not_started_message(subject),
                extra: Details { error: Some(e@), elapsed_ms: Some(elapsed_ms), ..no_details() },
            },
        }),
{
    let mut extra = no_extra();
    extra.elapsed_ms = Some(elapsed_ms);
    match failure {
        None => {
            extra.log_path = Some(log_path.to_owned());
            let message: &str = match subject {
                Subject::SearchTools => if same(plan.program.as_str(), "brew") {
                    "search_files Tier1 安装已在后台继续（Homebrew 仅 bottle、禁止源码编译）；退出 chat 不影响"
                } else {
                    "search_files Tier1 安装已在后台继续，退出 chat 不影响"
                },
                Subject::Git =>
                    "git 安装已在后台继续；安装完成后下次 checkpoint 操作会自动启用影子仓库",
            };
            (event("detached", message, extra), true)
        },
        Some(e) => {
            extra.error = Some(e);
            let message: &str = match subject {
                Subject::SearchTools =>
                    "search_files Tier1 tools installation could not be started; Tier2 fallback remains available",
                Subject::Git => "git 安装无法启动，checkpoint 将继续退化为 Noop",
            };
            (event("failed", message, extra), false)
        },
    }
}

// ---------------------------------------------------------------- installing on Windows

/// What came of a command that was waited for.
#[derive(Clone, Debug, PartialEq, Eq)]
pub enum Waited {
    Ended { success: bool, exit_code: Option<i32>, stderr: String },
    NotStarted { error: String },
}

/// What is announced before the command for search tools is run.
pub fn progress_event(plan: &InstallPlan) -> (r: PreflightEvent)
    ensures
        r@ == progress_notice(plan@),
{
    let line = join(&plan.args, " ");
    let args = copy_texts(&plan.args);
    let mut message = cat3("running: ", plan.program.as_str(), " ");
    message.append(line.as_str());
    let mut extra = no_extra();
    extra.program = Some(plan.program.clone());
    extra.args = Some(args);
    event("progress", message.as_str(), extra)
}

/// What is announced once the command for search tools ended, or could not be started.
pub fn search_waited_event(
    waited: Waited,
    elapsed_ms: u128,
    missing_after: Vec<String>,
    log_path: Option<String>,
) -> (r: PreflightEvent)
    ensures
        r@ == (match waited {
            Waited::Ended { success: true, .. } => Notice {
                status: "success"@,
                message: "search_files Tier1 tools installation finished"@,
                extra: Details {
                    elapsed_ms: Some(elapsed_ms),
                    missing_after: Some(texts(missing_after@)),
                    log_path: opt_text(log_path),
                    ..no_details()
                },
            },
            Waited::Ended { success: false, exit_code, stderr } => Notice {
                status: "failed"@,
                message:
                    "search_files Tier1 tools installation failed; Tier2 fallback remains available"@,
                extra: Details {
                    exit_code: Some(exit_code),
                    stderr: Some(for_event(stderr@)),
                    elapsed_ms: Some(elapsed_ms),
                    log_path: opt_text(log_path),
                    ..no_details()
                },
            },
            Waited::NotStarted { error } => Notice {
                status: "failed"@,
                message: not_started_message(Subject::SearchTools),
                extra: Details {
                    error: Some(error@),
                    elapsed_ms: Some(elapsed_ms),
                    ..no_details()
                },
            },
        }),
{
    let mut extra = no_extra();
    extra.elapsed_ms = Some(elapsed_ms);
    match waited {
        Waited::Ended { success, exit_code, stderr } => {
            extra.log_path = log_path;
            if success {
                extra.missing_after = Some(missing_after);
                event("success", "search_files Tier1 tools installation finished", extra)
            } else {
                extra.exit_code = Some(exit_code);
                extra.stderr = Some(trim_for_event(stderr.as_str()));
                event(
                    "failed",
                    "search_files Tier1 tools installation failed; Tier2 fallback remains available",
                    extra,
                )
            }
        },
        Waited::NotStarted { error } => {
            extra.error = Some(error);
            event(
                "failed",
                "search_files Tier1 tools installation could not be started; Tier2 fallback remains available",
                extra,
            )
        },
    }
}

/// What is announced once the command for git ended, or could not be started. It succeeded if git is
/// there afterwards; the second part says so.
pub fn git_waited_event(waited: Waited, elapsed_ms: u128, has_git_after: bool) -> (r: (
    PreflightEvent,
    bool,
))
    ensures
        r.1 == (has_git_after && (waited matches Waited::Ended { success, .. } && success)),
        r.0@ == (match waited {
            Waited::Ended { success, exit_code, stderr } => if success && has_git_after {
                Notice {
                    status: "success"@,
                    message: "git 安装完成，后续 checkpoint 将自动启用"@,
                    extra: Details { elapsed_ms: Some(elapsed_ms), ..no_details() },
                }
            } else {
                Notice {
                    status: "failed"@,
                    message: "git 安装未成功完成，checkpoint 仍将退化为 Noop"@,
                    extra: Details {
                        elapsed_ms: Some(elapsed_ms),
                        stderr: Some(for_event(stderr@)),
                        exit_code: Some(exit_code),
                        ..no_details()
                    },
                }
            },
            Waited::NotStarted { error } => Notice {
                status: "failed"@,
                message: "git 安装命令无法启动，checkpoint 仍将退化为 Noop"@,
                extra: Details {
                    elapsed_ms: Some(elapsed_ms),
                    error: Some(error@),
                    ..no_details()
                },
            },
        }),
{
    let mut extra = no_extra();
    extra.elapsed_ms = Some(elapsed_ms);
    match waited {
        Waited::Ended { success, exit_code, stderr } => {
            if success && has_git_after {
                (event("success", "git 安装完成，后续 checkpoint 将自动启用", extra), true)
            } else {
                extra.stderr = Some(trim_for_event(stderr.as_str()));
                extra.exit_code = Some(exit_code);
                (
                    event(
                        "failed",
                        "git 安装未成功完成，checkpoint 仍将退化为 Noop",
                        extra,
                    ),
                    false,
                )
            }
        },
        Waited::NotStarted { error } => {
            extra.error = Some(error);
            (
                event(
                    "failed",
                    "git 安装命令无法启动，checkpoint 仍将退化为 Noop",
                    extra,
                ),
                false,
            )
        },
    }
}

/// A list of texts as it is written for a programmer.
pub open spec fn written_list(v: Seq<Seq<char>>) -> Seq<char> {
    "["@ + joined(v.map_values(|t: Seq<char>| quoted_text(t)), ", "@) + "]"@
}

/// A code as it is written for a programmer.
pub open spec fn written_code(code: Option<i32>) -> Seq<char> {
    match code {
        Some(c) => "Some("@ + signed_decimal(c as int) + ")"@,
        None => "None"@,
    }
}

/// What is logged of a command that was waited for.
pub open spec fn log_text(
    timestamp: Seq<char>,
    os: Seq<char>,
    c: Command,
    code: Option<i32>,
    stdout: Seq<char>,
    stderr: Seq<char>,
) -> Seq<char> {
    "timestamp="@ + timestamp + "\nos="@ + os + "\nprogram="@ + c.program + "\nargs="@
        + written_list(c.args) + "\nexit_code="@ + written_code(code) + "\n"@
        + "\n--- stdout ---\n"@ + stdout + "\n--- stderr ---\n"@ + stderr + "\n"@
}

fn write_list(v: &Vec<String>) -> (r: String)
    ensures
        r@ == written_list(texts(v@)),
{
    let ghost all = texts(v@).map_values(|t: Seq<char>| quoted_text(t));
    let mut parts: Vec<String> = Vec::new();
    let mut i: usize = 0;
    assert(texts(parts@) =~= all.take(0));
    while i < v.len()
        invariant
            i <= v@.len(),
            all == texts(v@).map_values(|t: Seq<char>| quoted_text(t)),
            texts(parts@) == all.take(i as int),
        decreases v@.len() - i,
    {
        push_text(&mut parts, quote_text(v[i].as_str()));
        assert(all.take(i + 1) =~= all.take(i as int).push(all[i as int]));
        i = i + 1;
    }
    assert(all.take(all.len() as int) =~= all);
    cat3("[", join(&parts, ", ").as_str(), "]")
}

/// What is logged of a command that was waited for.
pub fn install_log_text(
    timestamp: &str,
    os: &str,
    plan: &InstallPlan,
    exit_code: Option<i32>,
    stdout: &str,
    stderr: &str,
) -> (r: String)
    ensures
        r@ == log_text(timestamp@, os@, plan@, exit_code, stdout@, stderr@),
{
    let code = match exit_code {
        Some(c) => cat3("Some(", decimal_i32(c).as_str(), ")"),
        None => "None".to_owned(),
    };
    let mut s = cat4("timestamp=", timestamp, "\nos=", os);
    s.append("\nprogram=");
    s.append(plan.program.as_str());
    s.append("\nargs=");
    s.append(write_list(&plan.args).as_str());
    s.append("\nexit_code=");
    s.append(code.as_str());
    s.append("\n");
    s.append("\n--- stdout ---\n");
    s.append(stdout);
    s.append("\n--- stderr ---\n");
    s.append(stderr);
    s.append("\n");
    s
}

// ---------------------------------------------------------------- laws

/// Search tools and git are installed by the same package manager, if by any.
pub proof fn law_one_manager_for_all(m: Manager)
    ensures
        search_command(m).program == git_command(m).program,
{
}

/// What is announced of an output is never longer than 503 characters.
pub proof fn law_outputs_are_short(s: Seq<char>)
    ensures
        for_event(s).len() <= 503,
{
    reveal_strlit("...");
    assert("..."@.len() == 3);
}

/// What a remembering file holds for a log names that log, if the name of the log is one line that
/// neither begins nor ends with white space.
pub proof fn law_marker_remembers(log: Seq<char>)
    requires
        log.len() > 0,
        trimmed(log) == log,
        !log.contains('\n'),
    ensures
        marked_log(log + "\n"@) == Some(log),
{
    reveal_strlit("\n");
    lemma_trimmed_end(trimmed_start(log));
    let raw = log + "\n"@;
    assert(raw[log.len() as int] == '\n');
    crate::search::lemma_next_char(raw, '\n', 0);
    let i = crate::search::next_char(raw, '\n', 0);
    assert(i == log.len()) by {
        if i < log.len() {
            assert(log[i] == raw[i]);
        }
    }
    assert(raw.take(i) =~= log);
    assert(raw.skip(i + 1) =~= Seq::empty());
}

/// What is missing is told, and nothing that is there.
pub proof fn law_missing_tools_are_told(has_ripgrep: bool, has_fd: bool)
    ensures
        missing_tools(has_ripgrep, has_fd).contains("ripgrep"@) <==> !has_ripgrep,
        missing_tools(has_ripgrep, has_fd).contains("fd"@) <==> !has_fd,
        missing_tools(has_ripgrep, has_fd).len() == 0 <==> has_ripgrep && has_fd,
{
    reveal_strlit("ripgrep");
    reveal_strlit("fd");
    assert("ripgrep"@.len() != "fd"@.len());
    let all = missing_tools(has_ripgrep, has_fd);
    if !has_ripgrep {
        assert(all[0] == "ripgrep"@);
    }
    if !has_fd {
        assert(all[if has_ripgrep {
            0
        } else {
            1
        }] == "fd"@);
    }
}

/// A program is looked for in every directory, in their order, under every name; on Windows under the name
/// with its ending too.
pub proof fn law_programs_are_looked_for_everywhere(
    a: Seq<Seq<char>>,
    dir: Seq<char>,
    b: Seq<Seq<char>>,
    names: Seq<Seq<char>>,
    windows: bool,
    i: int,
)
    ensures
        places(a + seq![dir] + b, names, windows) == places(a, names, windows) + places_in(
            dir,
            names,
            windows,
        ) + places(b, names, windows),
        places_in(dir, names, windows).len() == (if windows {
            2 * names.len()
        } else {
            names.len()
        }),
        0 <= i < names.len() && !windows ==> places_in(dir, names, windows)[i] == path_joined(dir, names[i]),
        0 <= i < names.len() && windows ==> places_in(dir, names, windows)[2 * i] == path_joined(
            dir,
            names[i],
        ) && places_in(dir, names, windows)[2 * i + 1] == path_joined(dir, names[i] + ".exe"@),
    decreases b.len(),
{
    lemma_places_in(dir, names, windows, i);
    let all = a + seq![dir] + b;
    if b.len() == 0 {
        assert(all.drop_last() =~= a);
        assert(places(all, names, windows) =~= places(a, names, windows) + places_in(dir, names, windows)
            + places(b, names, windows));
    } else {
        law_programs_are_looked_for_everywhere(a, dir, b.drop_last(), names, windows, i);
        assert(all.drop_last() =~= a + seq![dir] + b.drop_last());
        assert(all.last() == b.last());
        assert(places(all, names, windows) =~= places(a, names, windows) + places_in(dir, names, windows)
            + places(b, names, windows));
    }
}

proof fn lemma_places_in(dir: Seq<char>, names: Seq<Seq<char>>, windows: bool, i: int)
    ensures
        places_in(dir, names, windows).len() == (if windows {
            2 * names.len()
        } else {
            names.len()
        }),
        0 <= i < names.len() && !windows ==> places_in(dir, names, windows)[i] == path_joined(dir, names[i]),
        0 <= i < names.len() && windows ==> places_in(dir, names, windows)[2 * i] == path_joined(
            dir,
            names[i],
        ) && places_in(dir, names, windows)[2 * i + 1] == path_joined(dir, names[i] + ".exe"@),
    decreases names.len(),
{
    if names.len() > 0 {
        let front = names.drop_last();
        lemma_places_in(dir, front, windows, i);
        if 0 <= i < front.len() {
            assert(front[i] == names[i]);
        }
    }
}

/// A package manager is used only where it is there, and by the order of the systems: the one of Termux
/// first, none else on Android, Homebrew on macOS, winget on Windows, and else the first of three.
pub proof fn law_managers_are_used_where_they_are(m: Machine)
    ensures
        manager(m) matches Some(p) ==> match p {
            Manager::Pkg => m.pkg && m.termux,
            Manager::Brew => m.brew && m.macos,
            Manager::Winget => m.winget && m.windows,
            Manager::AptGet => m.apt_get,
            Manager::Dnf => m.dnf && !m.apt_get,
            Manager::Pacman => m.pacman && !m.apt_get && !m.dnf,
        },
        m.termux && m.pkg ==> manager(m) == Some(Manager::Pkg),
        m.android && !(m.termux && m.pkg) ==> manager(m) is None,
        !m.android && !m.termux && m.macos && m.brew ==> manager(m) == Some(Manager::Brew),
        !m.android && !m.termux && !m.macos && m.windows && m.winget ==> manager(m) == Some(
            Manager::Winget,
        ),
        !m.android && !m.termux && !m.macos && !m.windows && (m.apt_get || m.dnf || m.pacman)
            ==> manager(m) is Some,
{
}

/// A command in the background runs what it should and writes to its log, with nothing built from source by
/// Homebrew.
pub proof fn law_background_commands_write_to_their_log(brew: bool, line: Seq<char>, log: Seq<char>)
    ensures
        crate::search::has_suffix(
            nohup_line(brew, line, log),
            "nohup "@ + line + " >> "@ + log + " 2>&1 &"@,
        ),
        brew ==> crate::search::has_prefix(
            nohup_line(brew, line, log),
            "HOMEBREW_NO_BUILD_FROM_SOURCE=1 "@,
        ),
        !brew ==> nohup_line(brew, line, log) == "nohup "@ + line + " >> "@ + log + " 2>&1 &"@,
{
    let body = "nohup "@ + line + " >> "@ + log + " 2>&1 &"@;
    let all = nohup_line(brew, line, log);
    assert(all.subrange(all.len() - body.len(), all.len() as int) =~= body);
    let env = "HOMEBREW_NO_BUILD_FROM_SOURCE=1 "@;
    if brew {
        assert(all.subrange(0, env.len() as int) =~= env);
    }
}

/// What is announced of an output is its start without white space around it, all of it if it is short.
pub proof fn law_outputs_keep_their_start(s: Seq<char>)
    ensures
        trimmed(s).len() <= 500 ==> for_event(s) == trimmed(s),
        trimmed(s).len() > 500 ==> for_event(s).take(500) == trimmed(s).take(500) && for_event(s).len() == 503,
{
    reveal_strlit("...");
    if trimmed(s).len() > 500 {
        assert(for_event(s).take(500) =~= trimmed(s).take(500));
    }
}

/// The words of a command are its program and then its arguments, all of them in order.
pub proof fn law_command_words_in_order(c: Command, i: int)
    requires
        0 <= i < c.args.len(),
    ensures
        command_words(c).len() == c.args.len() + 1,
        command_words(c)[0] == c.program,
        command_words(c)[i + 1] == c.args[i],
{
}

/// The log of an installation holds all that the command wrote, under headings that tell the two channels
/// apart, and how it ended.
pub proof fn law_logs_hold_all_output(
    timestamp: Seq<char>,
    os: Seq<char>,
    c: Command,
    code: Option<i32>,
    stdout: Seq<char>,
    stderr: Seq<char>,
)
    ensures
        crate::search::has_suffix(
            log_text(timestamp, os, c, code, stdout, stderr),
            "\n--- stdout ---\n"@ + stdout + "\n--- stderr ---\n"@ + stderr + "\n"@,
        ),
        crate::search::has_prefix(
            log_text(timestamp, os, c, code, stdout, stderr),
            "timestamp="@ + timestamp + "\nos="@ + os + "\nprogram="@ + c.program + "\nargs="@
                + written_list(c.args) + "\nexit_code="@ + written_code(code),
        ),
{
    let head = "timestamp="@ + timestamp + "\nos="@ + os + "\nprogram="@ + c.program + "\nargs="@
        + written_list(c.args) + "\nexit_code="@ + written_code(code);
    let tail = "\n--- stdout ---\n"@ + stdout + "\n--- stderr ---\n"@ + stderr + "\n"@;
    let all = log_text(timestamp, os, c, code, stdout, stderr);
    assert(all =~= head + "\n"@ + tail);
    assert(all.subrange(0, head.len() as int) =~= head);
    assert(all.subrange(all.len() - tail.len(), all.len() as int) =~= tail);
}

/// What is announced tells what is missing and what is run: the tools, the program with all its arguments,
/// and the log.
pub proof fn law_announcements_tell_what_is_done(
    missing: Seq<Seq<char>>,
    c: Command,
    log: Option<Seq<char>>,
    elapsed: u128,
    subject: Subject,
)
    ensures
        start_notice(Subject::SearchTools, missing).extra.missing == Some(missing),
        no_manager_notice(Subject::SearchTools, missing).extra.missing == Some(missing),
        start_notice(subject, missing).status == "start"@,
        no_manager_notice(subject, missing).status == "failed"@,
        ready_notice(subject).status == "ready"@,
        progress_notice(c).extra.program == Some(c.program),
        progress_notice(c).extra.args == Some(c.args),
        progress_notice(c).message == "running: "@ + c.program + " "@ + joined(c.args, " "@),
        already_notice(subject, log, elapsed).extra.log_path == log,
        already_notice(subject, log, elapsed).status == "already_installing"@,
        no_log_notice(subject, elapsed).status == "failed"@,
        no_log_notice(subject, elapsed).extra.elapsed_ms == Some(elapsed),
{
}

/// The package manager is asked for what is missing: for git its command names git, and for the search tools
/// it names ripgrep, but for the one that takes a line of its own.
pub proof fn law_commands_install_what_is_missing(m: Manager)
    ensures
        command_for(Subject::Git, m) == git_command(m),
        command_for(Subject::SearchTools, m) == search_command(m),
        !(m is Winget) ==> git_command(m).args.contains("git"@),
        !(m is Winget) ==> search_command(m).args.contains("ripgrep"@),
        !(m is Winget) ==> search_command(m).args.contains("fd"@) || search_command(m).args.contains(
            "fd-find"@,
        ),
        m is Brew <==> git_command(m).program == "brew"@,
{
    reveal_strlit("pkg");
    reveal_strlit("brew");
    reveal_strlit("cmd");
    reveal_strlit("apt-get");
    reveal_strlit("dnf");
    reveal_strlit("pacman");
    assert("pkg"@[0] == 'p' && "brew"@[0] == 'b' && "cmd"@[0] == 'c' && "apt-get"@[0] == 'a' && "dnf"@[0]
        == 'd' && "pacman"@[0] == 'p');
    if !(m is Winget) {
        let g = git_command(m).args;
        let s = search_command(m).args;
        assert(g[g.len() - 1] == "git"@);
        assert(s[2] == "ripgrep"@);
        assert(s[3] == "fd"@ || s[3] == "fd-find"@);
    }
}

/// A command in the background runs every word of the command, each quoted, in order.
#[verifier::rlimit(40)]
#[verifier::spinoff_prover]
pub proof fn law_background_commands_run_every_word(c: Command, log: Seq<char>, i: int)
    requires
        0 <= i < c.args.len(),
    ensures
        crate::search::has_text(nohup_command(c, log), shell_quoted(c.program)),
        crate::search::has_text(nohup_command(c, log), shell_quoted(c.args[i])),
        crate::search::has_text(nohup_command(c, log), shell_quoted(log)),
{
    let words = command_words(c).map_values(|w: Seq<char>| shell_quoted(w));
    let line = joined(words, " "@);
    let q = shell_quoted(log);
    assert(words[0] == shell_quoted(c.program));
    assert(words[i + 1] == shell_quoted(c.args[i]));
    crate::search::law_joined_holds_every_part(words, " "@, 0);
    crate::search::law_joined_holds_every_part(words, " "@, i + 1);
    crate::search::lemma_text_in_itself(q);
    let all = nohup_command(c, log);
    let env = if c.program == "brew"@ {
        "HOMEBREW_NO_BUILD_FROM_SOURCE=1 "@
    } else {
        Seq::<char>::empty()
    };
    let back = " >> "@ + q + " 2>&1 &"@;
    assert(all =~= (env + "nohup "@) + line + back);
    crate::search::lemma_text_within(env + "nohup "@, line, back, words[0]);
    crate::search::lemma_text_within(env + "nohup "@, line, back, words[i + 1]);
    crate::search::lemma_text_within(env + "nohup "@ + line + " >> "@, q, " 2>&1 &"@, q);
    assert(all =~= (env + "nohup "@ + line + " >> "@) + q + " 2>&1 &"@);
}

} // verus!
