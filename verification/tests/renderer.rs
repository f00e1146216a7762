//! What the terminal shows of a turn.

use tomcat_chat::cli_turn_renderer::{
    elapsed_label, error_extra_lines, expand_path_for_terminal, format_countdown_ms,
    parse_thinking_source, result_summary, result_summary_for_tool, truncate_chars,
    AssistantMessageEvent, CliTurnRenderer, CliTurnRendererListenerIds, Elapsed, Output, ToolDisplay,
    ToolEnd, ToolResult, ToolStart, ToolUpdate,
};
use tomcat_chat::settings::{ThinkingDisplay, ThinkingSource, ToolCliVerbosity};

/// A terminal whose Markdown comes out as it went in, once it is flushed.
struct Terminal {
    stdout: String,
    stderr: String,
    held: String,
}

impl Terminal {
    fn new() -> Terminal {
        Terminal { stdout: String::new(), stderr: String::new(), held: String::new() }
    }

    fn show(&mut self, steps: Vec<Output>) {
        for step in steps {
            match step {
                Output::Stdout(s) => self.stdout.push_str(&s),
                Output::Stderr(s) => self.stderr.push_str(&s),
                Output::FlushMarkdown => {
                    self.stdout.push_str(&self.held);
                    self.held.clear();
                }
                Output::PushMarkdown(s) => self.held.push_str(&s),
            }
        }
    }
}

fn make_renderer(show_thinking: bool) -> (CliTurnRenderer, Terminal) {
    make_renderer_with_tool_verbosity(show_thinking, ToolCliVerbosity::Full)
}

fn make_renderer_with_tool_verbosity(
    show_thinking: bool,
    verbosity: ToolCliVerbosity,
) -> (CliTurnRenderer, Terminal) {
    let display = if show_thinking { ThinkingDisplay::Full } else { ThinkingDisplay::Minimal };
    (CliTurnRenderer::new(display, None, false, verbosity), Terminal::new())
}

fn piece(kind: Option<&str>, delta: &str, source: Option<&str>) -> AssistantMessageEvent {
    AssistantMessageEvent {
        kind: kind.map(|s| s.to_string()),
        delta: Some(delta.into()),
        source: source.map(|s| s.to_string()),
    }
}

fn thinking(delta: &str) -> AssistantMessageEvent {
    piece(Some("thinking_delta"), delta, None)
}

fn content(delta: &str) -> AssistantMessageEvent {
    piece(Some("content_delta"), delta, None)
}

fn nothing() -> ToolResult {
    ToolResult {
        text: None,
        error: None,
        message: None,
        summary: None,
        stderr: None,
        lines: None,
        bytes: None,
    }
}

fn text_result(s: &str) -> ToolResult {
    let mut r = nothing();
    r.text = Some(s.into());
    r
}

fn start(id: &str, name: &str, summary: &str) -> ToolStart {
    ToolStart {
        tool_call_id: Some(id.into()),
        tool_name: Some(name.into()),
        summary: summary.into(),
    }
}

fn end(id: &str, name: &str, result: ToolResult, display: Option<ToolDisplay>, is_error: bool) -> ToolEnd {
    ToolEnd {
        tool_call_id: Some(id.into()),
        tool_name: Some(name.into()),
        is_error,
        result,
        display,
    }
}

fn after(millis: u64, seconds: &str) -> Elapsed {
    Elapsed { millis, seconds: seconds.into() }
}

// ---------------------------------------------------------------- thinking and text

#[test]
fn folded_thinking_only_emits_one_line() {
    let (mut r, mut w) = make_renderer(false);
    for delta in ["step a", "step b", "step c"] {
        w.show(r.on_message_update(Some(&thinking(delta))));
    }
    let s = &w.stdout;
    let count = s.matches("[thinking]").count();
    assert_eq!(count, 1, "折叠模式下整回合只应打一次 [thinking]: {:?}", s);
    assert!(
        s.contains("[thinking] …"),
        "折叠模式应使用单行 …省略文案: {:?}",
        s
    );
    assert!(
        !s.contains("step a"),
        "折叠模式不应输出 thinking delta 文本: {:?}",
        s
    );
}

#[test]
fn expanded_thinking_streams_each_delta_with_dim_color() {
    let (mut r, mut w) = make_renderer(true);
    w.show(r.on_message_update(Some(&thinking("step a"))));
    w.show(r.on_message_update(Some(&thinking(" step b"))));
    let s = &w.stdout;
    assert_eq!(
        s.matches("[thinking]").count(),
        1,
        "前缀 [thinking] 只应出现一次，后续 delta 直接续写: {:?}",
        s
    );
    assert!(
        s.contains("step a") && s.contains("step b"),
        "展开模式应保留 delta 文本: {:?}",
        s
    );
    assert!(s.contains("\x1b[2m"), "应使用 dim ANSI: {:?}", s);
    assert!(s.contains("\x1b[90m"), "应使用 gray ANSI: {:?}", s);
}

#[test]
fn content_delta_after_thinking_inserts_newline() {
    let (mut r, mut w) = make_renderer(true);
    w.show(r.on_message_update(Some(&thinking("plan"))));
    w.show(r.on_message_update(Some(&content("answer"))));
    w.show(r.flush_markdown());
    let s = &w.stdout;
    let thinking_idx = s.find("[thinking]").expect("thinking 必现");
    let answer_idx = s.find("answer").expect("answer 必现");
    assert!(thinking_idx < answer_idx, "thinking 应早于正文: {:?}", s);
    let between = &s[thinking_idx..answer_idx];
    assert!(
        between.contains('\n'),
        "thinking 与正文之间必须有换行: {:?}",
        between
    );
}

#[test]
fn missing_kind_defaults_to_content_for_back_compat() {
    let (mut r, mut w) = make_renderer(false);
    w.show(r.on_message_update(Some(&piece(None, "legacy", None))));
    w.show(r.flush_markdown());
    assert!(
        w.stdout.contains("legacy"),
        "缺 kind 应当走 content_delta 老路径: {:?}",
        w.stdout
    );
}

#[test]
fn empty_thinking_delta_is_skipped() {
    let (mut r, mut w) = make_renderer(true);
    w.show(r.on_message_update(Some(&thinking(""))));
    assert!(
        w.stdout.is_empty() && w.stderr.is_empty(),
        "空 delta 不应触发任何输出"
    );
}

#[test]
fn unknown_pieces_show_nothing() {
    let (mut r, mut w) = make_renderer(true);
    w.show(r.on_message_update(None));
    w.show(r.on_message_update(Some(&piece(Some("image_delta"), "x", None))));
    w.show(r.on_message_update(Some(&piece(Some("thinking_delta"), "x", Some("dream")))));
    w.show(r.flush_markdown());
    assert!(w.stdout.is_empty() && w.stderr.is_empty());
    assert_eq!(parse_thinking_source(&Some("summary".into())), Some(ThinkingSource::Summary));
    assert_eq!(parse_thinking_source(&Some("dream".into())), None);
    assert_eq!(parse_thinking_source(&None), Some(ThinkingSource::Raw));
}

#[test]
fn summaries_show_without_raw_thoughts() {
    let mut r = CliTurnRenderer::new(ThinkingDisplay::Summary, None, true, ToolCliVerbosity::Full);
    let mut w = Terminal::new();
    w.show(r.on_message_update(Some(&piece(Some("thinking_delta"), "raw", Some("raw")))));
    w.show(r.on_message_update(Some(&piece(Some("thinking_delta"), "sum", Some("summary")))));
    assert_eq!(w.stdout, "");
    assert_eq!(
        w.stderr,
        "\x1b[2m\x1b[90m[thinking]\x1b[0m \x1b[2m\x1b[90msum\x1b[0m"
    );
    w.show(r.on_message_start());
    w.show(r.on_message_update(Some(&piece(Some("thinking_delta"), "two", Some("summary")))));
    assert!(w.stderr.ends_with("sum\x1b[0m\n\x1b[2m\x1b[90m[thinking]\x1b[0m \x1b[2m\x1b[90mtwo\x1b[0m"));
}

#[test]
fn show_thinking_flag_can_flip_at_runtime() {
    let (mut r, mut w) = make_renderer(false);
    w.show(r.on_message_update(Some(&thinking("secret"))));
    assert_eq!(r.thinking_display(), ThinkingDisplay::Minimal);
    r.thinking_display = ThinkingDisplay::Full;
    assert_eq!(r.thinking_display(), ThinkingDisplay::Full);
    w.show(r.on_message_update(Some(&thinking("after"))));
    assert!(
        w.stdout.contains("after"),
        "切换到展开后应输出 delta: {:?}",
        w.stdout
    );
}

#[test]
fn provider_messages_are_set_apart() {
    let (mut r, mut w) = make_renderer(false);
    w.show(r.on_llm_error(None, Some("  ")));
    assert_eq!(w.stderr, "");
    w.show(r.on_llm_error(Some(" quota "), Some("other")));
    assert_eq!(w.stderr, "\x1b[31m[llm] quota\x1b[0m\n");
    w.show(r.on_llm_notice(Some("retry")));
    assert_eq!(
        w.stderr,
        "\x1b[31m[llm] quota\x1b[0m\n\n\x1b[2m\x1b[90m[llm] retry\x1b[0m\n"
    );
}

#[test]
fn events_of_other_sessions_are_not_shown() {
    let bound =
        CliTurnRenderer::new(ThinkingDisplay::Full, Some("s1".into()), false, ToolCliVerbosity::Full);
    assert!(bound.accepts(Some("s1")));
    assert!(bound.accepts(None));
    assert!(!bound.accepts(Some("s2")));
    let (open, _) = make_renderer(true);
    assert!(open.accepts(Some("s2")));
}

// ---------------------------------------------------------------- tools

#[test]
fn tool_start_emits_gray_summary_on_stderr() {
    let (mut r, mut w) = make_renderer(false);
    w.show(r.on_message_update(Some(&content("hi"))));
    w.show(r.on_tool_start(&start("c1", "read", "path=src/main.rs limit=200"), 0));
    let err = &w.stderr;
    assert!(err.contains("[tool] read"), "应有 [tool] read 装饰: {:?}", err);
    assert!(err.contains("path=src/main.rs"), "应有 path 摘要: {:?}", err);
    assert!(err.contains("limit=200"), "应有 limit 摘要: {:?}", err);
    assert!(err.contains("\x1b[90m"), "应使用 gray ANSI: {:?}", err);
    assert_eq!(w.stdout, "hi");
}

#[test]
fn tool_end_success_uses_green_check_and_elapsed() {
    let (mut r, mut w) = make_renderer(false);
    w.show(r.on_tool_start(&start("c2", "read", "path=a.rs"), 5));
    assert_eq!(r.take_tool_start(Some("c2")), Some(5));
    let mut result = nothing();
    result.lines = Some(42);
    w.show(r.on_tool_end(&end("c2", "read", result, None, false), Some(&after(7, "0.0")), None));
    let err = &w.stderr;
    assert!(err.contains("✓"), "成功应有 ✓: {:?}", err);
    assert!(err.contains("\x1b[32m"), "成功应使用绿色: {:?}", err);
    assert!(err.contains("42 lines"), "应展示行数摘要: {:?}", err);
    assert!(
        err.contains("ms") || err.contains("s)"),
        "应展示 elapsed: {:?}",
        err
    );
    assert!(err.ends_with("\x1b[32m[tool] read  ✓ 42 lines (7ms)\x1b[0m\n"));
}

#[test]
fn tool_end_failure_uses_red_cross_and_extra_lines() {
    let (mut r, mut w) = make_renderer(false);
    w.show(r.on_tool_start(&start("c3", "bash", "command=cargo build"), 0));
    let mut result = nothing();
    result.error = Some("build failed".into());
    result.stderr = Some("error[E0308]: mismatched\nhelp: try this\nnote: ignored".into());
    w.show(r.on_tool_end(&end("c3", "bash", result, None, true), None, None));
    let err = &w.stderr;
    assert!(err.contains("✗"), "失败应有 ✗: {:?}", err);
    assert!(err.contains("\x1b[31m"), "失败应使用红色: {:?}", err);
    assert!(err.contains("build failed"), "失败应展示 error 摘要: {:?}", err);
    assert!(err.contains("E0308"), "失败应展开 stderr 前 3 行: {:?}", err);
    assert!(err.contains("(?)"));
}

#[test]
fn tool_end_failure_with_string_result_shows_real_error_message() {
    let (mut r, mut w) = make_renderer(false);
    w.show(r.on_tool_start(&start("c4", "read", "path=missing.txt"), 0));
    let result = text_result("No such file or directory (os error 2)");
    w.show(r.on_tool_end(&end("c4", "read", result, None, true), Some(&after(1, "0.0")), None));
    let err = &w.stderr;
    assert!(err.contains("✗"), "失败应有 ✗: {:?}", err);
    assert!(
        err.contains("No such file or directory"),
        "字符串错误结果应直接可见，不应退化为 failed: {:?}",
        err
    );
    assert!(
        !err.contains("✗ failed"),
        "有真实字符串错误时不应显示 failed 占位: {:?}",
        err
    );
}

#[test]
fn result_summary_picks_best_field_for_success_and_error() {
    let mut lines = nothing();
    lines.lines = Some(12);
    assert_eq!(result_summary(&lines, false), "12 lines");
    let mut summary = nothing();
    summary.summary = Some("all good".into());
    assert_eq!(result_summary(&summary, false), "all good");
    assert_eq!(result_summary(&nothing(), false), "ok");
    let mut error = nothing();
    error.error = Some("boom".into());
    assert_eq!(result_summary(&error, true), "boom");
    assert_eq!(
        result_summary(&text_result("No such file or directory"), true),
        "No such file or directory"
    );
    assert_eq!(result_summary(&nothing(), true), "failed");
    let mut bytes = nothing();
    bytes.bytes = Some(3);
    assert_eq!(result_summary(&bytes, false), "3 bytes");
}

#[test]
fn results_written_as_json_are_read_through() {
    assert_eq!(result_summary(&text_result("{\"lines\": 7, \"summary\": \"s\"}"), false), "7 lines");
    assert_eq!(result_summary(&text_result("{\"bytes\": -1, \"message\": \"m\"}"), false), "m");
    assert_eq!(result_summary(&text_result("{\"lines\": 7"), false), "ok");
    assert_eq!(result_summary(&text_result(" "), true), "failed");
}

const HOME: &str = "/home/u";

fn plan_display(path: &str) -> ToolDisplay {
    ToolDisplay::Plan { plan: path.into() }
}

#[test]
fn create_plan_success_shows_absolute_plan_path() {
    let payload = "{\"plan_id\":\"plan_demo_abcd1234\",\"path\":\"~/.tomcat/plans/plan_demo_abcd1234.plan.md\",\"mode\":\"planning\"}";
    let summary = result_summary_for_tool(
        &text_result(payload),
        Some(&plan_display("~/.tomcat/plans/plan_demo_abcd1234.plan.md")),
        false,
        Some(HOME),
    );
    assert_eq!(summary, "/home/u/.tomcat/plans/plan_demo_abcd1234.plan.md");
}

#[test]
fn tool_end_create_plan_prints_clickable_path() {
    let (mut r, mut w) = make_renderer(false);
    w.show(r.on_tool_start(&start("cp1", "create_plan", "goal=demo"), 0));
    let payload = "{\"plan_id\":\"plan_cli_e2e__demo\",\"mode\":\"planning\"}";
    w.show(r.on_tool_end(
        &end(
            "cp1",
            "create_plan",
            text_result(payload),
            Some(plan_display("~/.tomcat/plans/plan_cli_e2e__demo.plan.md")),
            false,
        ),
        Some(&after(1, "0.0")),
        Some(HOME),
    ));
    let err = &w.stderr;
    assert!(
        err.contains("/home/u/.tomcat/plans/plan_cli_e2e__demo.plan.md"),
        "create_plan 成功行应包含绝对 plan 路径: {:?}",
        err
    );
    assert!(err.contains("✓"), "应有成功标记: {:?}", err);
}

#[test]
fn path_display_shows_absolute_path() {
    let summary = result_summary_for_tool(
        &text_result("已写入: ~/workspace/demo.rs (2 bytes)"),
        Some(&ToolDisplay::File { file: "~/workspace/demo.rs".into() }),
        false,
        Some(HOME),
    );
    assert_eq!(summary, "/home/u/workspace/demo.rs");
}

#[test]
fn update_plan_success_shows_absolute_plan_path() {
    let payload = "{\"plan_id\":\"plan_demo_update\",\"applied\":1}";
    let summary = result_summary_for_tool(
        &text_result(payload),
        Some(&plan_display("~/.tomcat/plans/plan_demo_update.plan.md")),
        false,
        Some(HOME),
    );
    assert_eq!(summary, "/home/u/.tomcat/plans/plan_demo_update.plan.md");
}

#[test]
fn config_set_display_prefers_text_message() {
    let payload = "{\"applied\":true,\"message\":\"已设置 llm.default_model = gpt-5.2\"}";
    let summary = result_summary_for_tool(
        &text_result(payload),
        Some(&ToolDisplay::Text { text: "已设置 llm.default_model = gpt-5.2".into() }),
        false,
        None,
    );
    assert_eq!(summary, "已设置 llm.default_model = gpt-5.2");
}

#[test]
fn config_set_falls_back_to_message_without_display() {
    let payload = "{\"applied\":false,\"message\":\"user_denied\"}";
    let summary = result_summary_for_tool(&text_result(payload), None, false, None);
    assert_eq!(summary, "user_denied");
}

#[test]
fn write_plaintext_without_display_falls_back_to_ok() {
    let payload = "已写入: ~/workspace/demo.txt (12 bytes)";
    let summary = result_summary_for_tool(&text_result(payload), None, false, None);
    assert_eq!(summary, "ok");
}

#[test]
fn tool_end_write_prints_clickable_path() {
    let (mut r, mut w) = make_renderer(false);
    w.show(r.on_tool_start(&start("w1", "write", "path=demo.txt (overwrite)"), 0));
    w.show(r.on_tool_end(
        &end(
            "w1",
            "write",
            text_result("已写入: ~/workspace/demo.txt (2 bytes)"),
            Some(ToolDisplay::File { file: "~/workspace/demo.txt".into() }),
            false,
        ),
        Some(&after(1, "0.0")),
        Some(HOME),
    ));
    let err = &w.stderr;
    assert!(
        err.contains("/home/u/workspace/demo.txt"),
        "write 成功行应包含绝对目标路径: {:?}",
        err
    );
    assert!(err.contains("✓"), "应有成功标记: {:?}", err);
}

#[test]
fn error_extra_lines_caps_at_n_and_skips_blank() {
    let mut res = nothing();
    res.stderr = Some("line1\n\nline2\nline3\nline4\n".into());
    let lines = error_extra_lines(&res, 2);
    assert_eq!(lines, vec!["line1".to_string(), "line2".to_string()]);
}

#[test]
fn tool_cli_verbosity_off_hides_start_and_end_lines() {
    let (mut r, mut w) = make_renderer_with_tool_verbosity(false, ToolCliVerbosity::Off);
    w.show(r.on_tool_start(&start("c-off", "read", "path=a.rs"), 0));
    let mut result = nothing();
    result.lines = Some(1);
    w.show(r.on_tool_end(&end("c-off", "read", result, None, false), None, None));
    assert!(
        w.stderr.is_empty(),
        "off 档位不应打印任何 [tool] 行: {:?}",
        w.stderr
    );
}

#[test]
fn tool_cli_verbosity_brief_prints_end_without_start_and_extra_lines() {
    let (mut r, mut w) = make_renderer_with_tool_verbosity(false, ToolCliVerbosity::Brief);
    w.show(r.on_tool_start(&start("c-brief", "bash", "command=echo hi"), 0));
    let mut result = nothing();
    result.error = Some("failed".into());
    result.stderr = Some("line1\nline2".into());
    w.show(r.on_tool_end(&end("c-brief", "bash", result, None, true), None, None));
    let err = &w.stderr;
    assert!(
        !err.contains("command=echo hi"),
        "brief 档位不应打印 start 摘要: {:?}",
        err
    );
    assert!(err.contains("[tool] bash"), "brief 应打印 end 行: {:?}", err);
    assert!(
        !err.contains("line1"),
        "brief 档位不应展开失败 stderr 额外行: {:?}",
        err
    );
}

#[test]
fn a_countdown_is_wiped_before_what_follows() {
    let (mut r, mut w) = make_renderer(true);
    let update = ToolUpdate {
        tool_name: Some("task_output".into()),
        phase: Some("waiting".into()),
        task_id: Some("t1".into()),
        remaining_ms: Some(61_001),
        wait_ms: Some(90_000),
        timeout_ms: Some(5),
    };
    w.show(r.on_tool_update(&update, false));
    assert_eq!(w.stderr, "");
    w.show(r.on_tool_update(&update, true));
    assert_eq!(
        w.stderr,
        "\r\x1b[2K\x1b[90m[tool] task_output … waiting  task=t1 remaining=1m02s/1m30s\x1b[0m"
    );
    w.stderr.clear();
    w.show(r.on_message_update(Some(&content("x"))));
    assert_eq!(w.stderr, "\r\x1b[2K");
    assert_eq!(w.stdout, "\n");
}

#[test]
fn arguments_under_way_are_announced() {
    let (mut r, mut w) = make_renderer(false);
    w.show(r.on_tool_call_streaming(Some("write"), Some("~/a.rs"), Some(HOME)));
    assert_eq!(w.stderr, "\x1b[90m[tool] write  path=/home/u/a.rs  receiving args...\x1b[0m\n");
    w.show(r.on_tool_start(&start("c", "write", "s"), 0));
    assert!(w.stderr.ends_with("args...\x1b[0m\n\x1b[90m[tool] write  s\x1b[0m\n"));
    let (mut r, mut w) = make_renderer(false);
    w.show(r.on_tool_call_streaming(None, None, None));
    assert_eq!(w.stderr, "\x1b[90m[tool] ?  receiving args...\x1b[0m\n");
}

#[test]
fn small_formats() {
    assert_eq!(format_countdown_ms(0), "0s");
    assert_eq!(format_countdown_ms(1), "1s");
    assert_eq!(format_countdown_ms(59_001), "1m00s");
    assert_eq!(format_countdown_ms(u64::MAX), "307445734561825m51s");
    assert_eq!(truncate_chars("日本語", 2), "日本…");
    assert_eq!(truncate_chars("日本語", 3), "日本語");
    assert_eq!(expand_path_for_terminal("~", Some(HOME)), "/home/u");
    assert_eq!(expand_path_for_terminal("~/x", None), "~/x");
    assert_eq!(expand_path_for_terminal("/~/x", Some(HOME)), "/~/x");
    assert_eq!(elapsed_label(None), "?");
    assert_eq!(elapsed_label(Some(&after(999, "1.0"))), "999ms");
    assert_eq!(elapsed_label(Some(&after(1_000, "1.0"))), "1.0s");
    let ids = CliTurnRendererListenerIds {
        msg_start: 1,
        msg: 2,
        tool_call_streaming: 3,
        tool_start: 4,
        tool_update: 5,
        tool_end: 6,
        llm_error: 7,
        llm_notice: 8,
    };
    assert_eq!(ids.all(), vec![1, 2, 3, 4, 5, 6, 7, 8]);
}

#[test]
fn a_call_is_timed_from_its_last_start() {
    let (mut r, _) = make_renderer(false);
    r.on_tool_start(&start("a", "read", ""), 1);
    r.on_tool_start(&start("b", "read", ""), 2);
    r.on_tool_start(&start("a", "read", ""), 3);
    assert_eq!(r.take_tool_start(Some("a")), Some(3));
    assert_eq!(r.take_tool_start(Some("a")), None);
    assert_eq!(r.take_tool_start(Some("b")), Some(2));
    assert_eq!(r.take_tool_start(None), None);
}
