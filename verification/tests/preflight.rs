//! Looking for tools at the start, and installing them.

use tomcat_chat::preflight::{
    after_homebrew, after_log, after_machine, begin_git, begin_search_tools, binary_candidates,
    build_nohup_line, build_nohup_shell_command, choose_manager, detached_log_marker_path,
    git_install_plan, git_waited_event, homebrew_patterns, install_log_text, install_plan,
    is_termux, marker_log_path, marker_text, missing_search_tools, new_preflight_log_file_path,
    preflight_log_dir, search_waited_event, should_skip_git_preflight, should_skip_preflight,
    spawned_event, trim_for_event, InstallPlan, LogStep, Machine, MachineStep, Manager,
    PreflightStep, Subject, Waited, DETACHED_LOG_MARKER_NAME,
};

fn texts(list: &[&str]) -> Vec<String> {
    list.iter().map(|s| s.to_string()).collect()
}

fn bare() -> Machine {
    Machine {
        termux: false,
        android: false,
        macos: false,
        windows: false,
        pkg: false,
        brew: false,
        winget: false,
        apt_get: false,
        dnf: false,
        pacman: false,
    }
}

fn plan(program: &str, args: &[&str]) -> InstallPlan {
    InstallPlan { program: program.into(), args: texts(args) }
}

#[test]
fn preflight_is_skipped_on_request() {
    assert!(should_skip_preflight(true, true));
    assert!(should_skip_preflight(false, false));
    assert!(!should_skip_preflight(false, true));
    assert!(should_skip_git_preflight(false) && !should_skip_git_preflight(true));
    assert!(is_termux(false, true) && is_termux(true, false) && !is_termux(false, false));
    assert_eq!(missing_search_tools(false, false), texts(&["ripgrep", "fd"]));
    assert_eq!(missing_search_tools(true, false), texts(&["fd"]));
}

#[test]
fn programs_are_looked_for_in_order() {
    assert_eq!(
        binary_candidates(&texts(&["/a", "/b/"]), &texts(&["rg", "ripgrep"]), false),
        texts(&["/a/rg", "/a/ripgrep", "/b/rg", "/b/ripgrep"])
    );
    assert_eq!(
        binary_candidates(&texts(&["/a"]), &texts(&["rg"]), true),
        texts(&["/a/rg", "/a/rg.exe"])
    );
}

#[test]
fn one_manager_installs_everything() {
    let mut m = bare();
    m.apt_get = true;
    m.dnf = true;
    m.brew = true;
    assert_eq!(choose_manager(&m), Some(Manager::AptGet));
    assert_eq!(
        install_plan(&m),
        Some(plan("apt-get", &["install", "-y", "ripgrep", "fd-find"]))
    );
    m.macos = true;
    assert_eq!(
        install_plan(&m),
        Some(plan("brew", &["install", "--force-bottle", "ripgrep", "fd"]))
    );
    assert_eq!(git_install_plan(&m), Some(plan("brew", &["install", "--force-bottle", "git"])));
    m.termux = true;
    m.pkg = true;
    assert_eq!(install_plan(&m), Some(plan("pkg", &["install", "-y", "ripgrep", "fd"])));
    m.pkg = false;
    m.android = true;
    assert_eq!(install_plan(&m), None);
    assert_eq!(git_install_plan(&m), None);
    let mut w = bare();
    w.windows = true;
    w.winget = true;
    assert_eq!(
        git_install_plan(&w),
        Some(plan(
            "cmd",
            &["/C", "winget install --id Git.Git --silent --accept-source-agreements --accept-package-agreements"],
        ))
    );
    let mut p = bare();
    p.pacman = true;
    assert_eq!(git_install_plan(&p), Some(plan("pacman", &["-S", "--noconfirm", "git"])));
    assert_eq!(install_plan(&bare()), None);
}

#[test]
fn background_commands_are_quoted_for_the_shell() {
    assert_eq!(
        build_nohup_shell_command(&plan("apt-get", &["install", "-y", "git"]), "/logs/a b.log"),
        "nohup apt-get install -y git >> '/logs/a b.log' 2>&1 &"
    );
    assert_eq!(
        build_nohup_shell_command(&plan("brew", &["install", "it's"]), "/l"),
        "HOMEBREW_NO_BUILD_FROM_SOURCE=1 nohup brew install 'it'\\''s' >> /l 2>&1 &"
    );
    assert_eq!(build_nohup_line(false, "x y", "'l'"), "nohup x y >> 'l' 2>&1 &");
}

#[test]
fn logs_lie_below_home_and_are_remembered() {
    assert_eq!(preflight_log_dir("/home/u"), "/home/u/.tomcat/agents/main/logs");
    assert_eq!(
        new_preflight_log_file_path("/home/u", "S"),
        "/home/u/.tomcat/agents/main/logs/preflight-file-log-S.log"
    );
    assert_eq!(
        detached_log_marker_path("/home/u", DETACHED_LOG_MARKER_NAME),
        "/home/u/.tomcat/agents/main/logs/preflight-detached-log.marker"
    );
    assert_eq!(marker_log_path(&marker_text("/l/a.log")), Some("/l/a.log".to_string()));
    assert_eq!(marker_log_path(" /l \nmore"), Some("/l".to_string()));
    assert_eq!(marker_log_path(" \n/l"), None);
    assert_eq!(marker_log_path(""), None);
}

#[test]
fn outputs_are_cut_for_events() {
    assert_eq!(trim_for_event("  x "), "x");
    let long = "é".repeat(501);
    let cut = trim_for_event(&long);
    assert_eq!(cut.chars().count(), 503);
    assert!(cut.ends_with("..."));
    assert_eq!(trim_for_event(&"é".repeat(500)), "é".repeat(500));
}

#[test]
fn nothing_is_installed_that_is_there() {
    match begin_search_tools(vec![], true) {
        PreflightStep::Done { event, remove_marker } => {
            assert_eq!(event.status, "ready");
            assert_eq!(event.message, "search_files Tier1 tools are already available");
            assert_eq!(event.extra.missing, Some(vec![]));
            assert!(remove_marker);
        }
        other => panic!("unexpected {other:?}"),
    }
    match begin_search_tools(texts(&["fd"]), true) {
        PreflightStep::Install { event } => {
            assert_eq!(event.status, "start");
            assert_eq!(event.extra.missing, Some(texts(&["fd"])));
        }
        other => panic!("unexpected {other:?}"),
    }
    match begin_git(true, false) {
        PreflightStep::Done { event, remove_marker } => {
            assert_eq!(event.message, "git 已可用，checkpoint 将使用影子仓库");
            assert_eq!(event.extra.missing, None);
            assert!(!remove_marker);
        }
        other => panic!("unexpected {other:?}"),
    }
}

#[test]
fn the_machine_decides_how_it_goes_on() {
    match after_machine(Subject::SearchTools, &bare(), true, texts(&["fd"])) {
        MachineStep::Stop { event } => {
            assert_eq!(event.status, "failed");
            assert_eq!(
                event.message,
                "No supported package manager found for automatic search tool installation"
            );
            assert_eq!(event.extra.missing, Some(texts(&["fd"])));
        }
        other => panic!("unexpected {other:?}"),
    }
    match after_machine(Subject::Git, &bare(), true, vec![]) {
        MachineStep::Stop { event } => {
            assert_eq!(event.message, "未找到可用于自动安装 git 的包管理器");
            assert_eq!(event.extra.missing, None);
        }
        other => panic!("unexpected {other:?}"),
    }
    let mut m = bare();
    m.dnf = true;
    assert_eq!(
        after_machine(Subject::Git, &m, true, vec![]),
        MachineStep::Background { plan: plan("dnf", &["install", "-y", "git"]) }
    );
    match after_machine(Subject::SearchTools, &m, false, vec![]) {
        MachineStep::Wait { plan: p, event } => {
            assert_eq!(p, plan("dnf", &["install", "-y", "ripgrep", "fd-find"]));
            let e = event.expect("an announcement");
            assert_eq!(e.status, "progress");
            assert_eq!(e.message, "running: dnf install -y ripgrep fd-find");
        }
        other => panic!("unexpected {other:?}"),
    }
    match after_machine(Subject::Git, &m, false, vec![]) {
        MachineStep::Wait { event, .. } => assert_eq!(event, None),
        other => panic!("unexpected {other:?}"),
    }
}

#[test]
fn homebrew_is_not_run_twice() {
    let brew = plan("brew", &["install", "git"]);
    let apt = plan("apt-get", &["install"]);
    let s = after_homebrew(Subject::SearchTools, &brew, true, true, Some("/l".into()), 5);
    assert!(!s.remove_marker);
    let e = s.stop.expect("an event");
    assert_eq!(e.status, "already_installing");
    assert_eq!(e.message, "search_files Tier1 安装已在后台进行中");
    assert_eq!(e.extra.log_path, Some("/l".to_string()));
    assert_eq!(e.extra.elapsed_ms, None);
    let s = after_homebrew(Subject::Git, &brew, false, true, Some("/l".into()), 5);
    assert!(s.remove_marker);
    let e = s.stop.expect("an event");
    assert_eq!(e.extra.elapsed_ms, Some(5));
    assert_eq!(e.extra.log_path, None);
    assert_eq!(after_homebrew(Subject::Git, &brew, false, false, None, 5).stop, None);
    assert_eq!(after_homebrew(Subject::Git, &apt, true, true, None, 5).stop, None);
    assert_eq!(
        homebrew_patterns(),
        texts(&["[Hh]omebrew/.*brew\\.rb", "[Hh]omebrew/.*build\\.rb", "brew\\.rb.*install"])
    );
}

#[test]
fn background_installs_need_a_log() {
    let apt = plan("apt-get", &["install", "-y", "git"]);
    match after_log(Subject::Git, &apt, None, 7) {
        LogStep::Stop { event } => {
            assert_eq!(event.message, "git 安装无法创建日志文件，checkpoint 将继续退化为 Noop");
            assert_eq!(event.extra.elapsed_ms, Some(7));
        }
        other => panic!("unexpected {other:?}"),
    }
    match after_log(Subject::SearchTools, &apt, Some("/l".into()), 7) {
        LogStep::Spawn { shell_command, log_path } => {
            assert_eq!(shell_command, "nohup apt-get install -y git >> /l 2>&1 &");
            assert_eq!(log_path, "/l");
        }
        other => panic!("unexpected {other:?}"),
    }
    let (e, keep) = spawned_event(Subject::Git, &apt, "/l", 7, None);
    assert_eq!(e.status, "detached");
    assert_eq!(e.extra.log_path, Some("/l".to_string()));
    assert!(keep);
    let (e, keep) = spawned_event(Subject::Git, &apt, "/l", 7, Some("no sh".into()));
    assert_eq!(e.message, "git 安装无法启动，checkpoint 将继续退化为 Noop");
    assert_eq!(e.extra.error, Some("no sh".to_string()));
    assert!(!keep);
    let (e, _) = spawned_event(Subject::SearchTools, &plan("brew", &[]), "/l", 7, None);
    assert_eq!(
        e.message,
        "search_files Tier1 安装已在后台继续（Homebrew 仅 bottle、禁止源码编译）；退出 chat 不影响"
    );
}

#[test]
fn what_was_waited_for_is_announced() {
    let ok = Waited::Ended { success: true, exit_code: Some(0), stderr: "".into() };
    let bad = Waited::Ended { success: false, exit_code: None, stderr: " why ".into() };
    let e = search_waited_event(ok.clone(), 9, texts(&["fd"]), Some("/l".into()));
    assert_eq!(e.status, "success");
    assert_eq!(e.extra.missing_after, Some(texts(&["fd"])));
    assert_eq!(e.extra.log_path, Some("/l".to_string()));
    let e = search_waited_event(bad.clone(), 9, vec![], None);
    assert_eq!(e.status, "failed");
    assert_eq!(e.extra.exit_code, Some(None));
    assert_eq!(e.extra.stderr, Some("why".to_string()));
    let e = search_waited_event(Waited::NotStarted { error: "x".into() }, 9, vec![], None);
    assert_eq!(
        e.message,
        "search_files Tier1 tools installation could not be started; Tier2 fallback remains available"
    );
    let (e, activate) = git_waited_event(ok.clone(), 9, true);
    assert_eq!(e.message, "git 安装完成，后续 checkpoint 将自动启用");
    assert!(activate);
    let (e, activate) = git_waited_event(ok, 9, false);
    assert_eq!(e.message, "git 安装未成功完成，checkpoint 仍将退化为 Noop");
    assert!(!activate);
    let (e, _) = git_waited_event(bad, 9, true);
    assert_eq!(e.status, "failed");
}

#[test]
fn the_log_of_an_install_holds_everything() {
    assert_eq!(
        install_log_text("T", "windows", &plan("cmd", &["/C", "a\"b"]), Some(-1), "out", "err"),
        "timestamp=T\nos=windows\nprogram=cmd\nargs=[\"/C\", \"a\\\"b\"]\nexit_code=Some(-1)\n\n--- stdout ---\nout\n--- stderr ---\nerr\n"
    );
}
