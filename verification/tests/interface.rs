use ri_agent::events::{AgentEvent, Stored, StreamEvent, Usage};
use ri_agent::includes::{
    expand_includes, include_targets, starts_with_path, FileTree, Link, PathKey, SourceFile,
};
use ri_agent::log::{
    level_of, make_entry, make_entry_now, record_field, LogBuffer, LogEntry, LogLevel,
};
use ri_agent::schemas::{
    append_message_parameters, create_context_parameters, read_context_graph_parameters,
    read_message_parameters, run_agent_description, run_agent_parameters, run_turn_parameters,
    RUN_AGENT_DESCRIPTION,
};
use ri_agent::screen::{
    clamp_rows, frame_rows, framed_text_height, is_shallow, is_wrappable, preview_scroll, rows_of,
    scroll_rows, set_text, wrapped_height, ScreenLine, Setting, SHORT, WIDEST,
};
use ri_agent::sse::{agent_event_to_sse, event_stream, stream_event_to_sse, Received};
use ri_agent::tui::{
    block_chrome, block_height, block_render_height, cancels, help_text, input_key, input_text,
    read_command, render_block_content, render_preview, render_preview_block, render_status_bar,
    render_style, session_name_from_prompt, spinner_frame, viewport_height, BlockKind, BodyStyle,
    Command, ContentBlock, Effect, InputKey, Key, Listed, Phase, Preview, Tint, TuiState,
};
use ri_agent::watch::{
    any_relevant, binary_changed, build_args, cargo_output_path, collect_child_args, is_relevant,
    is_relevant_path, judge_build, prev_extension, read_metadata, should_restore, start, supervise,
    watch_paths, BuildVerdict, CargoOutcome, Happening, MetadataError, Order, PackageFiles, Stage, Supervisor,
};

fn json(text: &str) -> serde_json::Value {
    serde_json::from_str(text).unwrap()
}

fn strings(items: &[&str]) -> Vec<String> {
    items.iter().map(|s| s.to_string()).collect()
}

fn usage(n: u64) -> Usage {
    Usage {
        input_tokens: n,
        output_tokens: 2,
        cache_read_tokens: 3,
        cache_write_tokens: 4,
        json: "{\"in\":1}".to_string(),
    }
}

// -- events for clients --

#[test]
fn stream_events_become_sse() {
    let sse = |e: StreamEvent| {
        let s = stream_event_to_sse(&e).unwrap();
        (s.event, s.data)
    };
    let pair = |a: &str, b: &str| (a.to_string(), b.to_string());
    let t = |s: &str| s.to_string();
    assert_eq!(sse(StreamEvent::TextStart), pair("text_start", "{}"));
    assert_eq!(sse(StreamEvent::TextDelta(t("a\"b"))), pair("text_delta", "{\"delta\":\"a\\\"b\"}"));
    assert_eq!(sse(StreamEvent::TextEnd), pair("text_end", "{}"));
    assert_eq!(sse(StreamEvent::ThinkingStart), pair("thinking_start", "{}"));
    assert_eq!(
        sse(StreamEvent::ThinkingDelta(t("x"))),
        pair("thinking_delta", "{\"delta\":\"x\"}")
    );
    assert_eq!(sse(StreamEvent::ThinkingEnd), pair("thinking_end", "{}"));
    assert_eq!(
        sse(StreamEvent::ToolCallStart { id: t("1"), name: t("n") }),
        pair("tool_call_start", "{\"id\":\"1\",\"name\":\"n\"}")
    );
    assert_eq!(
        sse(StreamEvent::ToolCallDelta { id: t("1"), json_fragment: t("{") }),
        pair("tool_call_delta", "{\"delta\":\"{\",\"id\":\"1\"}")
    );
    assert_eq!(sse(StreamEvent::ToolCallEnd), pair("tool_call_end", "{}"));
    assert_eq!(sse(StreamEvent::Usage(usage(1))), pair("usage", "{\"in\":1}"));
    assert_eq!(sse(StreamEvent::Error(t("e"))), pair("agent_error", "{\"message\":\"e\"}"));
    assert!(stream_event_to_sse(&StreamEvent::Done).is_none());
}

#[test]
fn agent_events_become_sse() {
    let t = |s: &str| s.to_string();
    let end = AgentEvent::ToolEnd { id: t("1"), output: t("o"), is_error: true, details: None };
    let s = agent_event_to_sse(&end).unwrap();
    assert_eq!(s.event, "tool_end");
    assert_eq!(
        json(&s.data),
        json("{\"id\":\"1\",\"output\":\"o\",\"is_error\":true,\"details\":null}")
    );
    let end = AgentEvent::ToolEnd {
        id: t("1"),
        output: t("o"),
        is_error: false,
        details: Some(json("[1]")),
    };
    let s = agent_event_to_sse(&end).unwrap();
    assert_eq!(json(&s.data).get("details").unwrap(), &json("[1]"));
    let complete = AgentEvent::MessageComplete(Stored { id: t("m"), json: t("{\"msg\":\"m\"}") });
    let s = agent_event_to_sse(&complete).unwrap();
    assert_eq!((s.event.as_str(), s.data.as_str()), ("message_complete", "{\"msg\":\"m\"}"));
    let s = agent_event_to_sse(&AgentEvent::TitleUpdate(t("T"))).unwrap();
    assert_eq!((s.event.as_str(), s.data.as_str()), ("title_update", "{\"title\":\"T\"}"));
    let s = agent_event_to_sse(&AgentEvent::ToolStart { id: t("1"), name: t("n") }).unwrap();
    assert_eq!(s.event, "tool_start");
    let s = agent_event_to_sse(&AgentEvent::Error(t("e"))).unwrap();
    assert_eq!((s.event.as_str(), s.data.as_str()), ("agent_error", "{\"message\":\"e\"}"));
}

#[test]
fn stream_ends_with_the_run() {
    let s = event_stream(&Received::Event(AgentEvent::Done));
    assert!(s.ended);
    assert_eq!(s.out.unwrap().event, "done");
    let s = event_stream(&Received::Lagged);
    assert!(!s.ended);
    assert_eq!(s.out.unwrap().event, "resync");
    let s = event_stream(&Received::Closed);
    assert!(s.ended && s.out.is_none());
    let s = event_stream(&Received::Event(AgentEvent::Stream(StreamEvent::Done)));
    assert!(!s.ended && s.out.is_none());
}

// -- logs --

fn entry(message: &str) -> LogEntry {
    LogEntry {
        ts: "t".to_string(),
        level: LogLevel::Info,
        target: "x".to_string(),
        message: message.to_string(),
    }
}

fn messages(buffer: &LogBuffer) -> Vec<String> {
    buffer.snapshot().iter().map(|e| e.message.clone()).collect()
}

#[test]
fn log_buffer_keeps_the_latest() {
    let mut buffer = LogBuffer::new(2);
    assert!(buffer.snapshot().is_empty());
    for m in ["a", "b", "c"] {
        buffer.push(entry(m));
    }
    assert_eq!(messages(&buffer), ["b", "c"]);
    let mut tiny = LogBuffer::new(0);
    tiny.push(entry("a"));
    tiny.push(entry("b"));
    assert!(messages(&tiny).is_empty());
    let mut one = LogBuffer::new(1);
    one.push(entry("a"));
    one.push(entry("b"));
    assert_eq!(messages(&one), ["b"]);
}

#[test]
fn log_levels_follow_tracing() {
    assert_eq!(level_of(&tracing::Level::TRACE), LogLevel::Trace);
    assert_eq!(level_of(&tracing::Level::DEBUG), LogLevel::Debug);
    assert_eq!(level_of(&tracing::Level::INFO), LogLevel::Info);
    assert_eq!(LogLevel::from(&tracing::Level::WARN), LogLevel::Warn);
    assert_eq!(LogLevel::from(&tracing::Level::ERROR), LogLevel::Error);
}

#[test]
fn log_entries_hold_their_fields() {
    let mut text = String::new();
    record_field(&mut text, "message", "hello");
    record_field(&mut text, "n", "3");
    assert_eq!(text, "hello n=3");
    let e = make_entry("12:00".to_string(), &tracing::Level::WARN, "web", text);
    assert_eq!((e.ts.as_str(), e.level, e.target.as_str()), ("12:00", LogLevel::Warn, "web"));
    let e = make_entry_now(&tracing::Level::INFO, "web", "m".to_string());
    assert_eq!(e.ts.len(), 12);
    assert_eq!(e.message, "m");
}

// -- includes --

fn path(parts: &[&str]) -> PathKey {
    PathKey { parts: strings(parts) }
}

/// Files in `/r`, each `(name, content)`; every name leads to the file from `/r`.
fn tree(files: &[(&str, &str)]) -> FileTree {
    FileTree {
        links: files
            .iter()
            .map(|(n, _)| Link { dir: path(&["r"]), target: n.to_string(), path: path(&["r", n]) })
            .collect(),
        files: files
            .iter()
            .map(|(n, c)| SourceFile {
                path: path(&["r", n]),
                dir: path(&["r"]),
                content: c.to_string(),
            })
            .collect(),
    }
}

fn expand(tree: &FileTree, content: &str) -> String {
    let mut visited = Vec::new();
    let out = expand_includes(tree, content, &path(&["r"]), &path(&["r"]), &mut visited);
    assert!(visited.is_empty());
    out
}

#[test]
fn includes_need_the_exact_mark() {
    let t = tree(&[("other.txt", "World")]);
    assert_eq!(
        expand(&t, "Start {{ include: other.txt }} End"),
        "Start {{ include: other.txt }} End"
    );
    assert_eq!(expand(&t, "Start {{include:other.txt}} End"), "Start World End");
    assert_eq!(expand(&t, "{{include: other.txt }}"), "World");
    assert_eq!(expand(&t, "a {{include:other.txt"), "a {{include:other.txt");
    assert_eq!(
        include_targets("{{include:a}} {{include: b }} {{include:"),
        ["a", "b"]
    );
}

#[test]
fn includes_may_share_a_file() {
    let t = tree(&[
        ("D.txt", "Leaf"),
        ("B.txt", "B->{{include:D.txt}}"),
        ("C.txt", "C->{{include:D.txt}}"),
    ]);
    assert_eq!(
        expand(&t, "Root: {{include:B.txt}} | {{include:C.txt}}"),
        "Root: B->Leaf | C->Leaf"
    );
}

#[test]
fn includes_cut_cycles() {
    let t = tree(&[("X.txt", "X calls {{include:Y.txt}}"), ("Y.txt", "Y calls {{include:X.txt}}")]);
    assert_eq!(
        expand(&t, "X calls {{include:Y.txt}}"),
        "X calls Y calls X calls <!-- include error: cycle Y.txt -->"
    );
}

#[test]
fn includes_report_errors() {
    let mut t = tree(&[("a", "A")]);
    t.links.push(Link {
        dir: path(&["r"]),
        target: "../secret".to_string(),
        path: path(&["secret"]),
    });
    t.links.push(Link { dir: path(&["r"]), target: "dir".to_string(), path: path(&["r", "dir"]) });
    t.files.push(SourceFile {
        path: path(&["secret"]),
        dir: path(&[]),
        content: "hidden".to_string(),
    });
    assert_eq!(expand(&t, "{{include: }}"), "<!-- include error: empty target -->");
    assert_eq!(expand(&t, "{{include:zz}}"), "<!-- include error: not found zz -->");
    assert_eq!(expand(&t, "{{include:../secret}}"), "<!-- include error: boundary -->");
    assert_eq!(expand(&t, "{{include:dir}}"), "<!-- include error: read -->");
    assert!(starts_with_path(&path(&["r", "x"]), &path(&["r"])));
    assert!(!starts_with_path(&path(&["rr"]), &path(&["r"])));
}

// -- the supervisor --

fn at(stage: Stage) -> Supervisor {
    Supervisor {
        stage,
        rebuild_pending: false,
        update_signaled: false,
        exited: None,
        interrupted: false,
    }
}

/// A build that made a new binary.
fn built() -> BuildVerdict {
    judge_build(CargoOutcome::Succeeded, true, true)
}

/// A build that failed.
fn failed() -> BuildVerdict {
    judge_build(CargoOutcome::Failed, true, true)
}

/// A build that left the binary as it was.
fn unchanged() -> BuildVerdict {
    judge_build(CargoOutcome::Succeeded, true, false)
}

#[test]
fn unchanged_binary_starts_a_server_but_is_no_update() {
    assert!(unchanged().usable && !unchanged().ready && !unchanged().roll_back);
    let (s, order) = supervise(start().0, Happening::BuildDone(unchanged()));
    assert_eq!(order, Order::Spawn);
    let (s, _) = supervise(s, Happening::SourceChanged);
    let (s, order) = supervise(s, Happening::BuildDone(unchanged()));
    assert_eq!((s.stage, order), (Stage::Watching, Order::Nothing));
    assert!(!s.update_signaled);
}

#[test]
fn binaries_are_told_apart_by_time() {
    assert!(binary_changed(Some(1), Some(2)));
    assert!(!binary_changed(Some(2), Some(2)));
    assert!(binary_changed(None, Some(2)) && binary_changed(Some(2), None));
    assert!(!binary_changed(None, None));
}

#[test]
fn supervisor_signals_once_and_restarts() {
    let (s, order) = start();
    assert_eq!(order, Order::Build);
    let (s, order) = supervise(s, Happening::BuildDone(built()));
    assert_eq!(order, Order::Spawn);
    let (s, order) = supervise(s, Happening::SourceChanged);
    assert_eq!(order, Order::Build);
    let (s, order) = supervise(s, Happening::BuildDone(built()));
    assert_eq!(order, Order::SignalUpdate);
    let (s, _) = supervise(s, Happening::SourceChanged);
    let (s, order) = supervise(s, Happening::BuildDone(built()));
    assert_eq!(order, Order::Nothing);
    assert!(!s.rebuild_pending && s.update_signaled);
    let (s, order) = supervise(s, Happening::ChildExited(Some(42)));
    assert_eq!(order, Order::Spawn);
    assert!(!s.rebuild_pending && !s.update_signaled);
    let (s, _) = supervise(s, Happening::SourceChanged);
    let (s, order) = supervise(s, Happening::BuildDone(failed()));
    assert_eq!((s.stage, order), (Stage::Watching, Order::Nothing));
    let (_, order) = supervise(s, Happening::ChildExited(Some(3)));
    assert_eq!(order, Order::Exit(3));
}

#[test]
fn changes_during_a_build_are_built_once() {
    let building = at(Stage::Building);
    let (s, order) = supervise(building, Happening::SourceChanged);
    assert_eq!(order, Order::Nothing);
    let (s, order) = supervise(s, Happening::SourceChanged);
    assert_eq!(order, Order::Nothing);
    let (done, order) = supervise(s, Happening::BuildDone(built()));
    assert_eq!((done.stage, order), (Stage::Building, Order::SignalUpdateAndBuild));
    let (done, order) = supervise(done, Happening::BuildDone(built()));
    assert_eq!((done.stage, order), (Stage::Watching, Order::Nothing));
    let (after, order) = supervise(s, Happening::BuildDone(failed()));
    assert_eq!((after.stage, order), (Stage::Building, Order::Build));
    assert!(!after.update_signaled);
    assert_eq!(supervise(building, Happening::ChildLost).1, Order::Exit(1));
}

#[test]
fn supervisor_exits_with_the_server() {
    let watching = at(Stage::Watching);
    assert_eq!(supervise(watching, Happening::ChildExited(None)).1, Order::Exit(1));
    assert_eq!(supervise(watching, Happening::ChildLost).1, Order::Exit(1));
    let (s, order) = supervise(watching, Happening::Interrupted);
    assert_eq!(order, Order::ClosePipe);
    assert_eq!(supervise(s, Happening::SourceChanged).1, Order::Nothing);
    assert_eq!(supervise(s, Happening::ChildExited(Some(42))).1, Order::Exit(42));
    assert_eq!(supervise(s, Happening::ChildLost).1, Order::Exit(1));
    assert_eq!(supervise(start().0, Happening::BuildDone(failed())).1, Order::Exit(1));
}

#[test]
fn exits_and_interrupts_wait_for_the_build() {
    let building = at(Stage::Building);
    let (s, order) = supervise(building, Happening::ChildExited(Some(3)));
    assert_eq!((s.stage, order), (Stage::Building, Order::Nothing));
    let (s, _) = supervise(s, Happening::SourceChanged);
    let (s, order) = supervise(s, Happening::BuildDone(built()));
    assert_eq!((s.stage, order), (Stage::Over, Order::Exit(3)));

    let (gone, _) = supervise(building, Happening::ChildExited(Some(42)));
    let (s, order) = supervise(gone, Happening::BuildDone(built()));
    assert_eq!((s, order), (at(Stage::Watching), Order::Spawn));
    let (s, _) = supervise(gone, Happening::SourceChanged);
    let (s, order) = supervise(s, Happening::BuildDone(failed()));
    assert_eq!((s, order), (at(Stage::Building), Order::SpawnAndBuild));

    let (s, order) = supervise(building, Happening::Interrupted);
    assert_eq!((s.stage, order), (Stage::Building, Order::Nothing));
    let (s, order) = supervise(s, Happening::BuildDone(built()));
    assert_eq!((s.stage, order), (Stage::Stopping, Order::ClosePipe));
    let (_, order) = supervise(s, Happening::ChildExited(Some(0)));
    assert_eq!(order, Order::Exit(0));
    let (s, _) = supervise(gone, Happening::Interrupted);
    assert_eq!(supervise(s, Happening::BuildDone(built())).1, Order::Exit(42));
}

#[test]
fn builds_are_judged() {
    assert!(built().usable && built().ready && !built().roll_back);
    for (outcome, exists) in [
        (CargoOutcome::Succeeded, false),
        (CargoOutcome::Failed, true),
        (CargoOutcome::NotRun, false),
    ] {
        for changed in [false, true] {
            let v = judge_build(outcome, exists, changed);
            assert!(!v.usable && !v.ready && v.roll_back);
        }
    }
    assert!(should_restore(true, false));
    assert!(!should_restore(true, true) && !should_restore(false, false));
    assert_eq!(prev_extension(""), "prev");
    assert_eq!(prev_extension(".exe"), "prev.exe");
    assert_eq!(cargo_output_path(true, ".exe"), ["target", "release", "ri-web.exe"]);
    assert_eq!(cargo_output_path(false, ""), ["target", "debug", "ri-web"]);
    assert_eq!(build_args(true), ["build", "-p", "ri-web", "--release"]);
    assert_eq!(build_args(false), ["build", "-p", "ri-web"]);
}

#[test]
fn server_does_not_get_the_watch_flag() {
    let args = strings(&["ri-web", "--port", "1", "--watch", "--dev"]);
    assert_eq!(collect_child_args(&args), ["--port", "1", "--dev"]);
    assert!(collect_child_args(&Vec::new()).is_empty());
}

#[test]
fn only_rust_files_are_relevant() {
    for name in ["main.rs", "Cargo.toml", "Cargo.lock"] {
        assert!(is_relevant(name));
    }
    for name in ["notes.md", "rs", ".rs", ".#main.rs", "main.rs.bak", "x.RS"] {
        assert!(!is_relevant(name));
    }
    assert!(any_relevant(&vec![strings(&["a.md"]), strings(&["crates", "x", "b.rs"])]));
    assert!(!any_relevant(&vec![strings(&["a.md"])]));
    assert!(!any_relevant(&Vec::new()));
}

#[test]
fn build_output_and_version_control_are_not_relevant() {
    for parts in [
        &["target", "debug", "build.rs"][..],
        &["crates", "target", "Cargo.toml"],
        &[".git", "hooks", "x.rs"],
        &["notes.md"],
        &[],
    ] {
        assert!(!is_relevant_path(&strings(parts)));
    }
    for parts in [&["src", "main.rs"][..], &["Cargo.lock"], &["targets", "a.rs"], &["git", "a.rs"]] {
        assert!(is_relevant_path(&strings(parts)));
    }
    assert!(!any_relevant(&vec![strings(&["target", "a.rs"]), strings(&[".git", "b.rs"])]));
}

#[test]
fn workspaces_are_read_from_metadata() {
    let w = read_metadata(
        "{\"workspace_root\":\"/w\",\"packages\":[\
         {\"source\":null,\"manifest_path\":\"/w/a/Cargo.toml\"},\
         {\"source\":\"registry\",\"manifest_path\":\"/r/Cargo.toml\"},\
         {\"manifest_path\":\"/w/b/Cargo.toml\"},{\"source\":null},5]}",
    )
    .ok()
    .unwrap();
    assert_eq!(w.root, "/w");
    assert_eq!(w.manifests, ["/w/a/Cargo.toml", "/w/b/Cargo.toml"]);
    assert_eq!(read_metadata("{").err(), Some(MetadataError::NoJson));
    assert_eq!(read_metadata("{\"packages\":[]}").err(), Some(MetadataError::NoRoot));
    assert!(read_metadata("{\"workspace_root\":\"/w\"}").ok().unwrap().manifests.is_empty());
    let files = |src: Option<&str>, manifest: &str| PackageFiles {
        src: src.map(|s| s.to_string()),
        manifest: manifest.to_string(),
    };
    let packages = vec![files(Some("/a/src"), "/a/C"), files(None, "/b/C")];
    assert_eq!(watch_paths(&packages, Some("/L".to_string())), ["/a/src", "/a/C", "/b/C", "/L"]);
    assert_eq!(watch_paths(&packages, None).len(), 3);
}

// -- the terminal --

#[test]
fn phases_have_labels_and_details() {
    assert_eq!((Phase::Input.label(), Phase::Input.detail().as_str()), ("input", ""));
    assert_eq!(Phase::Waiting.label(), "waiting");
    assert_eq!(Phase::Waiting.detail(), "sending request...");
    assert_eq!(Phase::Thinking.detail(), "reasoning...");
    assert_eq!(Phase::Responding.label(), "responding");
    assert_eq!(Phase::Responding.detail(), "writing...");
    let tool = Phase::Tool("bash".to_string());
    assert_eq!((tool.label(), tool.detail().as_str()), ("tool", "executing: bash"));
}

fn bodies(state: &TuiState) -> Vec<String> {
    state.blocks.iter().map(|b| b.body.clone()).collect()
}

#[test]
fn responses_are_shown_whole() {
    let mut s = TuiState::new("model".to_string());
    s.begin_prompt("hi");
    assert!(matches!(s.phase, Phase::Waiting));
    let stream = |s: &mut TuiState, e: StreamEvent| {
        s.handle_agent_event(&AgentEvent::Stream(e))
    };
    assert_eq!(stream(&mut s, StreamEvent::ThinkingStart), Effect::Draw);
    stream(&mut s, StreamEvent::ThinkingDelta("hm".to_string()));
    assert!(matches!(render_preview(&s), Preview::Thinking(t) if t == "hm"));
    assert_eq!(stream(&mut s, StreamEvent::ThinkingEnd), Effect::Emit);
    stream(&mut s, StreamEvent::TextStart);
    assert!(matches!(render_preview(&s), Preview::Line(t) if t == "writing..."));
    stream(&mut s, StreamEvent::TextDelta("a".to_string()));
    stream(&mut s, StreamEvent::TextDelta("b".to_string()));
    assert!(matches!(render_preview(&s), Preview::Response(t) if t == "ab"));
    assert_eq!(stream(&mut s, StreamEvent::TextEnd), Effect::Emit);
    assert_eq!(stream(&mut s, StreamEvent::TextEnd), Effect::Draw);
    assert_eq!(stream(&mut s, StreamEvent::Usage(usage(10))), Effect::Emit);
    assert_eq!(stream(&mut s, StreamEvent::Error("e".to_string())), Effect::Emit);
    assert_eq!(stream(&mut s, StreamEvent::Done), Effect::Draw);
    assert_eq!(
        bodies(&s),
        ["hi", "hm", "ab", "tokens: 10 in / 2 out / 3 cached", "e"]
    );
    assert_eq!(s.totals.input_tokens, 10);
    assert!(!s.can_count(&StreamEvent::Usage(usage(u64::MAX))));
    assert!(s.can_count(&StreamEvent::Usage(usage(5))));
}

#[test]
fn tools_are_shown_by_name() {
    let mut s = TuiState::new("model".to_string());
    let t = |x: &str| x.to_string();
    let end = || AgentEvent::ToolEnd { id: t("1"), output: t("out"), is_error: true, details: None };
    s.handle_agent_event(&AgentEvent::ToolStart { id: t("1"), name: t("bash") });
    assert!(matches!(render_preview(&s), Preview::Tool { name, line } if name == "bash" && line
        == "executing: bash"));
    assert_eq!(s.handle_agent_event(&end()), Effect::Emit);
    s.handle_agent_event(&end());
    assert!(matches!(&s.blocks[0].kind, BlockKind::Tool { name, is_error: true } if name
        == "bash"));
    assert!(matches!(&s.blocks[1].kind, BlockKind::Tool { name, .. } if name == "tool"));
    let complete = AgentEvent::MessageComplete(Stored { id: t("m"), json: t("{}") });
    assert_eq!(s.handle_agent_event(&complete), Effect::Nothing);
    let long = AgentEvent::ToolEnd {
        id: t("1"),
        output: "x".repeat(50_001),
        is_error: false,
        details: None,
    };
    s.handle_agent_event(&long);
    assert_eq!(s.blocks[2].body.len(), 50_003);
}

#[test]
fn partial_output_is_kept_when_a_run_breaks_off() {
    let mut s = TuiState::new("model".to_string());
    s.handle_stream_event(&StreamEvent::ThinkingDelta("th".to_string()));
    s.handle_stream_event(&StreamEvent::TextDelta("tx".to_string()));
    s.finish_prompt();
    assert_eq!(bodies(&s), ["tx", "th"]);
    assert!(matches!(s.phase, Phase::Input));
    assert!(matches!(render_preview(&s), Preview::Input));
    s.finish_prompt();
    assert_eq!(s.blocks.len(), 2);
}

#[test]
fn blocks_have_chrome() {
    let c = block_chrome(&BlockKind::User);
    assert_eq!((c.title.as_str(), c.tint), ("you", Tint::Cyan));
    assert_eq!(block_chrome(&BlockKind::Assistant).tint, Tint::Blue);
    assert_eq!(block_chrome(&BlockKind::Thinking).tint, Tint::DarkGray);
    let tool = |is_error: bool| BlockKind::Tool { name: "t".to_string(), is_error };
    assert_eq!(block_chrome(&tool(true)).tint, Tint::Red);
    assert_eq!(block_chrome(&tool(false)).tint, Tint::Yellow);
    assert_eq!(block_chrome(&BlockKind::Info).title, "");
    assert_eq!(block_chrome(&BlockKind::Error).title, "error");
    assert_eq!(render_style(&BlockKind::User), BodyStyle::Markdown);
    assert_eq!(render_style(&tool(true)), BodyStyle::RedLines);
    assert_eq!(render_style(&tool(false)), BodyStyle::DimLines);
    assert_eq!(render_style(&BlockKind::Info), BodyStyle::DimWhole);
}

fn lines(texts: &[&str]) -> Vec<ScreenLine> {
    texts.iter().map(|t| ScreenLine { spans: strings(&[t]) }).collect()
}

#[test]
fn heights_follow_the_wrapping() {
    let text = lines(&["Hello World"]);
    assert_eq!(wrapped_height(&text, 20), 1);
    assert_eq!(wrapped_height(&text, 10), 2);
    assert_eq!(wrapped_height(&text, 0), 0);
    assert_eq!(wrapped_height(&lines(&["a", "b", "c"]), 20), 3);
    assert_eq!(block_render_height(&BlockKind::Info, 10, &text), 2);
    assert_eq!(block_render_height(&BlockKind::User, 12, &text), 4);
    assert_eq!(block_render_height(&BlockKind::User, 13, &text), 3);
    assert_eq!(framed_text_height(true, 0, &lines(&["ab"])), 4);
    assert_eq!(preview_scroll(&lines(&["a", "b", "c"]), 9, 2), 1);
    assert_eq!(preview_scroll(&text, 20, 2), 0);
    assert_eq!(clamp_rows(70_000), u16::MAX);
    assert_eq!(clamp_rows(7), 7);
    assert_eq!(frame_rows(true, 5), 7);
    assert_eq!(frame_rows(true, 65_534), u16::MAX);
    assert_eq!(frame_rows(false, 65_537), u16::MAX);
    assert_eq!(frame_rows(false, 65_534), 65_534);
    assert_eq!(scroll_rows(9, 4), 5);
    assert_eq!(scroll_rows(4, 9), 0);
    assert_eq!(scroll_rows(100_000, 1), u16::MAX);
    assert_eq!(rows_of(&text, u16::MAX), 1);
    let long = lines(&[&"a".repeat(20_000)]);
    assert_eq!((rows_of(&long, 20_000), rows_of(&long, 19_999)), (1, 2));
    assert_eq!(rows_of(&long, WIDEST), 2);
    let longer = lines(&[&"a".repeat(30_000)]);
    assert!(is_wrappable(&long, 20_000) && is_wrappable(&longer, WIDEST));
    assert!(!is_wrappable(&longer, 30_000));
    assert_eq!(rows_of(&longer, 30_000), rows_of(&longer, WIDEST));
    let parts = ["a".repeat(SHORT), "b".to_string()];
    let parted = vec![ScreenLine { spans: parts.to_vec() }];
    assert!(!is_wrappable(&parted, u16::MAX));
    assert!(is_wrappable(&lines(&[&parts[0], &parts[1]]), u16::MAX));
    assert_eq!(rows_of(&text, 6), 2);
    assert_eq!(viewport_height(5), 5);
    assert_eq!(viewport_height(50), 8);
}

fn spans(lines: &[ScreenLine]) -> Vec<Vec<String>> {
    lines.iter().map(|l| l.spans.clone()).collect()
}

#[test]
fn lists_nested_too_deep_are_told() {
    for text in ["", "1.", "- 1. x", "plain 1. text", "1) a\n\t2) b"] {
        assert!(is_shallow(text));
    }
    assert!(is_shallow(&("\t".repeat(8_188) + "1. x")));
    let bullets = |n: usize| "- ".repeat(n);
    assert!(is_shallow(&(bullets(16_383) + "1. x")));
    assert!(!is_shallow(&(bullets(16_384) + "1. x")));
    assert!(!is_shallow(&(bullets(16_384) + "1)")));
    assert!(!is_shallow(&("\t".repeat(8_192) + "1.\tx")));
    assert!(!is_shallow(&("1. ".repeat(16_385) + "x")));
    // Only numbers are padded, and only where they stand for an item.
    assert!(is_shallow(&bullets(40_000)));
    assert!(is_shallow(&(bullets(40_000) + "1.x")));
    assert!(is_shallow(&(bullets(40_000) + "x 1. y")));
    assert!(is_shallow(&(bullets(40_000) + "\n1. y")));
    assert!(is_shallow(&("word ".repeat(40_000) + "2. And")));
}

#[test]
fn nested_numbers_are_padded() {
    let set = set_text(Setting::Markdown, "- - 1. x");
    assert_eq!(spans(&set), [vec!["- "], vec!["    - "], vec!["        1. ", "x"]]);
    let deep = "- ".repeat(300) + "1. x";
    let set = set_text(Setting::Markdown, &deep);
    assert_eq!(set.len(), 301);
    assert_eq!(set[300].spans[0].len(), 4 * 301 - 3 + 2);
}

#[test]
fn text_is_set_by_kind() {
    assert_eq!(spans(&set_text(Setting::Lines, "a\n\nb")), [vec!["a"], vec![], vec!["b"]]);
    assert_eq!(spans(&set_text(Setting::Whole, "a\nb")), [vec!["a", "b"]]);
    assert_eq!(spans(&set_text(Setting::Markdown, "**bold** text")), [vec!["bold", " text"]]);
    assert_eq!(spans(&set_text(Setting::Markdown, "# T")), [vec!["# ", "T"]]);

    let block = |kind: BlockKind, body: &str| ContentBlock { kind, body: body.to_string() };
    let error = block(BlockKind::Error, "one\ntwo");
    assert_eq!(spans(&render_block_content(&error)), [vec!["one"], vec!["two"]]);
    assert_eq!(block_height(&error, 20), 4);
    let answer = block(BlockKind::Assistant, "*hello* world");
    assert_eq!(block_height(&answer, 13), 3);
    assert_eq!(block_height(&answer, 12), 4);
    let note = block(BlockKind::Info, "tokens: 1 in");
    assert_eq!(block_height(&note, 40), 1);

    let thinking = Preview::Thinking("a\nb\nc".to_string());
    assert_eq!(render_preview_block(&thinking, 10, 2), 1);
    assert_eq!(render_preview_block(&Preview::Line("a".to_string()), 10, 2), 0);
    assert_eq!(render_preview_block(&Preview::Response("a\n\nb".to_string()), 10, 1), 2);
}

#[test]
fn status_bar_fills_the_width() {
    let s = TuiState::new("m".to_string());
    let bar = render_status_bar(&s, 1, 50);
    assert_eq!(bar.left, " o input | m ");
    assert_eq!(bar.right, " 0in/0out/0cache ");
    assert_eq!(bar.left.len() + bar.padding.len() + bar.right.len(), 50);
    assert_eq!(render_status_bar(&s, 0, 10).padding, "");
    let frames: Vec<&str> = (0..5).map(spinner_frame).collect();
    assert_eq!(frames, ["*", "o", "O", "o", "*"]);
}

#[test]
fn keys_have_meanings() {
    assert_eq!(input_key(Key::Char('d'), true, false), InputKey::Quit);
    assert_eq!(input_key(Key::Char('c'), true, false), InputKey::Quit);
    assert_eq!(input_key(Key::Char('c'), false, false), InputKey::Edit);
    assert_eq!(input_key(Key::Enter, false, false), InputKey::Submit);
    assert_eq!(input_key(Key::Enter, false, true), InputKey::Edit);
    assert!(cancels(Key::Escape, false) && cancels(Key::Char('c'), true));
    assert!(!cancels(Key::Char('c'), false) && !cancels(Key::Enter, true));
    assert_eq!(input_text(&strings(&["a", "b"])), "a\nb");
}

#[test]
fn commands_are_read() {
    assert!(matches!(read_command("  \n"), Command::Nothing));
    assert!(matches!(read_command(" /quit "), Command::Quit));
    assert!(matches!(read_command("/exit"), Command::Quit));
    assert!(matches!(read_command("/help"), Command::Help));
    assert!(matches!(read_command(" /login x "), Command::Login(t) if t == "/login x"));
    assert!(matches!(read_command("/helpme"), Command::Prompt(_)));
    assert!(matches!(read_command(" do it "), Command::Prompt(t) if t == "do it"));
}

#[test]
fn help_lists_providers_and_templates() {
    let item = |n: &str, d: &str| Listed { name: n.to_string(), description: d.to_string() };
    assert_eq!(
        help_text(&vec![item("a", "Acme")], &Vec::new()),
        "**Commands:**\n- `/login a` - Acme\n- `/quit`, `/exit` - Exit ri\n\
         - `Ctrl+C` - Cancel running agent\n"
    );
    assert!(help_text(&Vec::new(), &vec![item("t", ""), item("u", "does")])
        .ends_with("\n**Prompt Templates:**\n- `/t`\n- `/u` - does\n"));
}

#[test]
fn sessions_are_named_after_the_prompt() {
    assert_eq!(session_name_from_prompt(None), "interactive");
    assert_eq!(session_name_from_prompt(Some(" \n")), "session");
    assert_eq!(session_name_from_prompt(Some("a  b c d e f g")), "a-b-c-d-e");
    assert_eq!(session_name_from_prompt(Some("one two")), "one-two");
}

// -- schemas --

#[test]
fn tools_have_schemas() {
    let v = run_agent_parameters(&strings(&["m1", "m2"]));
    assert_eq!(v.get("required").unwrap(), &json("[\"model_id\"]"));
    let p = v.get("properties").unwrap();
    assert_eq!(
        p.get("model_id").unwrap().get("description").unwrap(),
        "The model identifier to use for the turn. Available models: m1, m2"
    );
    assert_eq!(
        p.get("model_params").unwrap().get("properties").unwrap().get("max_tokens").unwrap(),
        &json("{\"type\":\"integer\",\"description\":\"Maximum output tokens.\"}")
    );
    assert_eq!(
        p.get("message_ids").unwrap().get("items").unwrap(),
        &json("{\"type\":\"string\"}")
    );
    let v = run_turn_parameters(&strings(&["m1"]));
    assert_eq!(
        v.get("properties").unwrap().get("model_id").unwrap().get("description").unwrap(),
        "The model to call. Available: m1"
    );
    assert!(read_context_graph_parameters().get("required").is_none());
    assert_eq!(
        read_message_parameters(),
        json(
            "{\"type\":\"object\",\"properties\":{\"message_id\":{\"type\":\"string\",\
             \"description\":\"The message ID to read.\"}},\"required\":[\"message_id\"]}"
        )
    );
    let v = append_message_parameters();
    assert_eq!(
        v.get("properties").unwrap().get("role").unwrap().get("enum").unwrap(),
        &json("[\"user\",\"assistant\",\"system\"]")
    );
    assert_eq!(v.get("required").unwrap(), &json("[\"role\",\"content\"]"));
    assert_eq!(
        create_context_parameters().get("required").unwrap(),
        &json("[\"message_ids\"]")
    );
    assert_eq!(run_agent_description(false), RUN_AGENT_DESCRIPTION);
    assert!(run_agent_description(true).contains("*Always* use `readContextGraph`"));
}
