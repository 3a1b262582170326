use ri_agent::agent::{
    collect_shown_files, contains_text_block, extract_calls, extract_system_prompt, make_request,
    path_of_call, Action, AgentRun, ContextFile, Event, Host, Setup, Step,
};
use ri_agent::events::{AgentEvent, Stored, StreamEvent};
use ri_agent::model::{ContentBlock, Message, Role, ThinkingLevel, ToolOutput};
use ri_agent::run::{self, advance, advance_now, submit};

fn json(text: &str) -> serde_json::Value {
    serde_json::from_str(text).unwrap()
}

fn setup(host: Host) -> Setup {
    Setup {
        host,
        model: "m1".to_string(),
        thinking: ThinkingLevel::High,
        tools: vec!["read".to_string(), "bash".to_string()],
        fallback: "base".to_string(),
        max_tokens: None,
    }
}

fn message(role: Role, content: Vec<ContentBlock>, meta: Option<serde_json::Value>) -> Message {
    Message { id: "m".to_string(), role, content, meta, summary: String::new() }
}

fn text(s: &str) -> ContentBlock {
    ContentBlock::Text { text: s.to_string() }
}

fn call(id: &str, name: &str, input: &str) -> ContentBlock {
    ContentBlock::ToolUse { id: id.to_string(), name: name.to_string(), input: json(input) }
}

fn saved(id: &str) -> Event {
    Event::Saved(Stored { id: id.to_string(), json: format!("<{}>", id) })
}

fn output(s: &str) -> ToolOutput {
    ToolOutput { text: s.to_string(), is_error: false, details: None }
}

/// A short name for each action.
fn names(actions: &[Action]) -> Vec<String> {
    actions
        .iter()
        .map(|a| match a {
            Action::Emit(e) => match e {
                AgentEvent::Stream(_) => "stream".to_string(),
                AgentEvent::ToolStart { id, .. } => format!("start {}", id),
                AgentEvent::ToolEnd { id, .. } => format!("end {}", id),
                AgentEvent::MessageComplete(m) => format!("complete {}", m.json),
                AgentEvent::TitleUpdate(_) => "title update".to_string(),
                AgentEvent::Error(e) => format!("error {}", e),
                AgentEvent::Done => "done".to_string(),
            },
            Action::Push(id) => format!("push {}", id),
            Action::Title => "title".to_string(),
            Action::Load => "load".to_string(),
            Action::Start { request } => {
                format!("turn {} {}", request.prompt, request.native_tools)
            }
            Action::Next => "next".to_string(),
            Action::Finish => "finish".to_string(),
            Action::Save { role, content, .. } => format!("save {:?} {}", role, content.len()),
            Action::RunTool { id, name, .. } => format!("run {} {}", id, name),
            Action::Discover { paths } => format!("discover {}", paths.join(",")),
            Action::Checkpoint => "checkpoint".to_string(),
            Action::End { error } => format!("over {:?}", error),
        })
        .collect()
}

fn step(run: AgentRun, event: Event, cancelled: bool, expected: &[&str]) -> AgentRun {
    let (run, actions) = advance(run, event, cancelled, "T");
    assert_eq!(names(&actions), expected);
    run
}

/// A run up to the point where a response with `content` is being stored.
fn replied(host: Host, content: Vec<ContentBlock>) -> AgentRun {
    let (run, _) = run::run(setup(host), Vec::new());
    let (run, _) = advance(run, Event::Loaded(Vec::new()), false, "T");
    let (run, _) = advance(run, Event::Started, false, "T");
    let (run, _) = advance(run, Event::ItemsEnded, false, "T");
    advance(run, Event::Finished { content, usage: json("{\"n\":1}") }, false, "T").0
}

#[test]
fn server_run_from_prompt_to_end() {
    let (run, actions) = submit(setup(Host::Server), Vec::new(), "hello");
    assert_eq!(names(&actions), ["save User 1"]);
    let run = step(run, saved("u1"), false, &["push u1", "complete <u1>", "title", "load"]);
    let messages = vec![message(Role::System, vec![text("be good")], None)];
    let run = step(run, Event::Loaded(messages), false, &["turn be good false"]);
    let run = step(run, Event::Started, false, &["next"]);
    let run = step(run, Event::Item(StreamEvent::TextStart), false, &["stream", "next"]);
    let run = step(run, Event::ItemsEnded, false, &["finish"]);
    let finished = Event::Finished {
        content: vec![text("ok"), call("c1", "bash", "{}")],
        usage: json("{\"n\":1}"),
    };
    let run = step(run, finished, false, &["save Assistant 2"]);
    let run = step(
        run,
        saved("a1"),
        false,
        &["push a1", "complete <a1>", "title", "start c1", "run c1 bash"],
    );
    let run = step(run, Event::ToolDone(output("out")), false, &["end c1", "save User 1"]);
    let run = step(run, saved("t1"), false, &["push t1", "complete <t1>", "checkpoint"]);
    let run = step(run, Event::Checkpointed, false, &["load"]);
    let run = step(run, Event::Loaded(Vec::new()), false, &["turn be good false"]);
    let run = step(run, Event::Started, false, &["next"]);
    let run = step(run, Event::ItemsEnded, false, &["finish"]);
    let finished = Event::Finished { content: vec![text("bye")], usage: json("null") };
    let run = step(run, finished, false, &["save Assistant 1"]);
    let run =
        step(run, saved("a2"), false, &["push a2", "complete <a2>", "title", "checkpoint"]);
    let run = step(run, Event::Checkpointed, false, &["done", "over None"]);
    assert!(matches!(run.step, Step::Ended));
    step(run, Event::Checkpointed, false, &[]);
}

#[test]
fn terminal_run_shows_but_makes_no_titles() {
    let (run, _) = submit(setup(Host::Terminal), Vec::new(), "hello");
    let run = step(run, saved("u1"), false, &["push u1", "load"]);
    let run = step(run, Event::Loaded(Vec::new()), false, &["turn base false"]);
    let run = step(run, Event::Started, false, &["next"]);
    let run = step(run, Event::ItemsEnded, false, &["finish"]);
    let finished = Event::Finished { content: vec![text("hi")], usage: json("null") };
    let run = step(run, finished, false, &["save Assistant 1"]);
    let run = step(run, saved("a1"), false, &["push a1", "complete <a1>", "checkpoint"]);
    step(run, Event::Checkpointed, false, &["over None"]);
}

#[test]
fn background_run_is_silent() {
    let run = replied(Host::Background, vec![call("c1", "nope", "{}"), call("c2", "bash", "{}")]);
    let run = step(run, saved("a1"), true, &["push a1", "run c2 bash"]);
    let run = step(run, Event::ToolDone(output("x")), true, &["save User 2"]);
    let run = step(run, saved("t1"), true, &["push t1", "load"]);
    step(run, Event::Loaded(Vec::new()), true, &["turn base false"]);
}

#[test]
fn single_turn_runs_no_tools() {
    let (run, _) = run::run(setup(Host::Single), Vec::new());
    let run = step(run, Event::Loaded(Vec::new()), false, &["turn  true"]);
    let run = step(run, Event::Started, false, &["next"]);
    let run = step(run, Event::ItemFailed("broken".to_string()), false, &["finish"]);
    let finished = Event::Finished {
        content: vec![call("c1", "bash", "{}")],
        usage: json("{\"n\":2}"),
    };
    let (run, actions) = advance(run, finished, false, "T");
    match &actions[0] {
        Action::Save { role, content, meta } => {
            assert_eq!(*role, Role::Assistant);
            assert_eq!(content.len(), 1);
            assert_eq!(
                meta.as_ref().unwrap(),
                &json("{\"model\":\"m1\",\"ts\":\"T\",\"usage\":{\"n\":2},\"turn\":true}")
            );
        }
        _ => panic!("expected a save"),
    }
    step(run, saved("a1"), false, &["push a1", "checkpoint"]);
}

#[test]
fn server_meta_names_the_thinking_level() {
    let (run, _) = run::run(setup(Host::Server), Vec::new());
    let (run, _) = advance(run, Event::Loaded(Vec::new()), false, "T");
    let (_, actions) = advance(run, Event::StartFailed("no net".to_string()), false, "T");
    assert_eq!(names(&actions), ["error no net", "save Assistant 1"]);
    match &actions[1] {
        Action::Save { content, meta, .. } => {
            assert!(matches!(&content[0], ContentBlock::Error { text } if text == "no net"));
            assert_eq!(
                meta.as_ref().unwrap(),
                &json("{\"model\":\"m1\",\"ts\":\"T\",\"thinking\":\"high\"}")
            );
        }
        _ => panic!("expected a save"),
    }
}

#[test]
fn broken_stream_leaves_its_error_in_the_reply() {
    let (run, _) = run::run(setup(Host::Terminal), Vec::new());
    let (run, _) = advance(run, Event::Loaded(Vec::new()), false, "T");
    let (run, _) = advance(run, Event::Started, false, "T");
    let run = step(run, Event::ItemFailed("eof".to_string()), false, &["error eof", "finish"]);
    let finished = Event::Finished { content: vec![text("half")], usage: json("null") };
    let (_, actions) = advance(run, finished, false, "T");
    match &actions[0] {
        Action::Save { content, .. } => {
            assert_eq!(content.len(), 2);
            assert!(matches!(&content[1], ContentBlock::Error { text } if text == "eof"));
        }
        _ => panic!("expected a save"),
    }
}

#[test]
fn every_call_is_answered_when_cancelled() {
    let run = replied(Host::Server, vec![call("c1", "bash", "{}"), call("c2", "bash", "{}")]);
    let run = step(
        run,
        saved("a1"),
        false,
        &["push a1", "complete <a1>", "start c1", "run c1 bash"],
    );
    let (_, actions) = advance(run, Event::ToolDone(output("one")), true, "T");
    assert_eq!(names(&actions), ["end c1", "save User 2"]);
    match &actions[1] {
        Action::Save { content, .. } => match (&content[0], &content[1]) {
            (
                ContentBlock::ToolResult { id: a, text: x, is_error: p, .. },
                ContentBlock::ToolResult { id: b, text: y, is_error: q, .. },
            ) => {
                assert_eq!((a.as_str(), x.as_str(), *p), ("c1", "one", false));
                assert_eq!((b.as_str(), y.as_str(), *q), ("c2", "Cancelled", true));
            }
            _ => panic!("expected two results"),
        },
        _ => panic!("expected a save"),
    }
}

#[test]
fn unknown_tool_is_answered_at_once() {
    let run = replied(Host::Server, vec![call("c1", "nope", "{}")]);
    let (_, actions) = advance(run, saved("a1"), false, "T");
    assert_eq!(
        names(&actions),
        ["push a1", "complete <a1>", "start c1", "end c1", "save User 1"]
    );
    match &actions[3] {
        Action::Emit(AgentEvent::ToolEnd { output, is_error, .. }) => {
            assert_eq!(output, "Tool 'nope' not found");
            assert!(*is_error);
        }
        _ => panic!("expected the end of a tool"),
    }
}

#[test]
fn cancel_before_a_turn_closes_the_run() {
    let (run, _) = run::run(setup(Host::Server), Vec::new());
    let run = step(run, Event::Loaded(Vec::new()), true, &["checkpoint"]);
    step(run, Event::Checkpointed, true, &["done", "over None"]);
}

#[test]
fn cancel_drops_the_event_and_closes_the_turn() {
    let (run, _) = run::run(setup(Host::Terminal), Vec::new());
    let (run, _) = advance(run, Event::Loaded(Vec::new()), false, "T");
    let (run, _) = advance(run, Event::Started, false, "T");
    step(run, Event::Item(StreamEvent::TextEnd), true, &["finish"]);
}

#[test]
fn server_store_failure_is_recorded_and_shown() {
    let run = replied(Host::Server, vec![text("x")]);
    let run = step(run, Event::SaveFailed("disk".to_string()), false, &["save Assistant 1"]);
    let run = step(run, saved("e1"), false, &["push e1", "checkpoint"]);
    step(
        run,
        Event::CheckpointFailed("again".to_string()),
        false,
        &["error disk", "over Some(\"disk\")"],
    );
}

#[test]
fn terminal_store_failure_is_shown_and_saved() {
    let run = replied(Host::Terminal, vec![text("x")]);
    let run =
        step(run, Event::SaveFailed("disk".to_string()), false, &["error disk", "checkpoint"]);
    step(
        run,
        Event::CheckpointFailed("full".to_string()),
        false,
        &["error failed to checkpoint session: full", "over None"],
    );
}

#[test]
fn background_store_failure_ends_the_run() {
    let run = replied(Host::Background, vec![text("x")]);
    let run = step(run, Event::SaveFailed("disk".to_string()), false, &["checkpoint"]);
    step(run, Event::Checkpointed, false, &["over Some(\"disk\")"]);
}

#[test]
fn single_store_failure_ends_the_run() {
    let run = replied(Host::Single, vec![text("x")]);
    step(run, Event::SaveFailed("disk".to_string()), false, &["over Some(\"disk\")"]);
}

#[test]
fn background_run_keeps_the_error_of_a_broken_stream() {
    let (run, _) = run::run(setup(Host::Background), Vec::new());
    let (run, _) = advance(run, Event::Loaded(Vec::new()), false, "T");
    let (run, _) = advance(run, Event::Started, false, "T");
    let run = step(run, Event::ItemFailed("eof".to_string()), true, &["finish"]);
    let finished = Event::Finished { content: vec![text("half")], usage: json("null") };
    let (_, actions) = advance(run, finished, true, "T");
    match &actions[0] {
        Action::Save { content, .. } => {
            assert_eq!(content.len(), 2);
            assert!(matches!(&content[1], ContentBlock::Error { text } if text == "eof"));
        }
        _ => panic!("expected a save"),
    }
}

#[test]
fn background_run_shows_context_files_to_the_model() {
    let run = replied(Host::Background, vec![call("c1", "read", "{\"path\":\"a\"}")]);
    let run = step(run, saved("a1"), false, &["push a1", "discover a"]);
    let found = Event::Found { files: vec![file("k1", None)], known: Vec::new() };
    let run = step(run, found, false, &["run c1 read"]);
    step(run, Event::ToolDone(output("x")), false, &["save User 2"]);
}

#[test]
fn failed_prompt_ends_a_terminal_run_before_it_starts() {
    let (run, _) = submit(setup(Host::Terminal), Vec::new(), "hello");
    step(run, Event::SaveFailed("disk".to_string()), false, &["over Some(\"disk\")"]);
}

fn file(key: &str, canonical: Option<&str>) -> ContextFile {
    ContextFile {
        path: format!("p/{}", key),
        content: format!("c-{}", key),
        key: key.to_string(),
        canonical: canonical.map(|c| c.to_string()),
    }
}

#[test]
fn server_shows_discovered_files_once() {
    let run = replied(Host::Server, vec![call("c1", "read", "{\"path\":\"a/b.rs\"}")]);
    let (run, _) = advance(run, saved("a1"), false, "T");
    let (run, _) = advance(run, Event::ToolDone(output("x")), false, "T");
    let run = step(run, saved("t1"), false, &["push t1", "complete <t1>", "discover a/b.rs"]);
    let found = Event::Found {
        files: vec![file("k1", Some("/k1")), file("k1", Some("/k1")), file("k2", None)],
        known: vec!["k0".to_string()],
    };
    let (run, actions) = advance(run, found, false, "T");
    match &actions[0] {
        Action::Save { role, content, meta } => {
            assert_eq!(*role, Role::User);
            assert!(matches!(&content[0], ContentBlock::Text { text } if text
                == "# Context Files (discovered)\n\n## p/k1\n\nc-k1\n\n## p/k2\n\nc-k2\n"));
            assert_eq!(meta.as_ref().unwrap(), &json("{\"agents_context\":[\"/k1\"]}"));
        }
        _ => panic!("expected a save"),
    }
    let run = step(run, saved("x1"), false, &["push x1", "complete <x1>", "checkpoint"]);
    let run = step(run, Event::Checkpointed, false, &["load"]);
    step(run, Event::Loaded(Vec::new()), false, &["turn base false"]);
}

#[test]
fn server_skips_files_that_are_known() {
    let run = replied(Host::Server, vec![call("c1", "read", "{\"path\":\"a\"}")]);
    let (run, _) = advance(run, saved("a1"), false, "T");
    let (run, _) = advance(run, Event::ToolDone(output("x")), false, "T");
    let (run, _) = advance(run, saved("t1"), false, "T");
    let found =
        Event::Found { files: vec![file("k1", None)], known: vec!["k1".to_string()] };
    step(run, found, false, &["checkpoint"]);
}

#[test]
fn terminal_looks_before_the_tool_runs_and_remembers() {
    let run = replied(Host::Terminal, vec![call("c1", "read", "{\"path\":\"a\"}")]);
    let run = step(run, saved("a1"), false, &["push a1", "complete <a1>", "discover a"]);
    let found = Event::Found { files: vec![file("k1", None)], known: Vec::new() };
    let run = step(run, found, false, &["start c1", "run c1 read"]);
    assert_eq!(run.seen, vec!["k1".to_string()]);
    let (_, actions) = advance(run, Event::ToolDone(output("x")), false, "T");
    match &actions[1] {
        Action::Save { content, .. } => {
            assert_eq!(content.len(), 2);
            assert!(matches!(&content[0], ContentBlock::Text { text } if text
                == "# Context Files (discovered)\n\n## p/k1\n\nc-k1\n"));
        }
        _ => panic!("expected a save"),
    }
}

#[test]
fn system_prompt_is_the_first_text_of_the_first_system_message() {
    let messages = vec![
        message(Role::User, vec![text("u")], None),
        message(Role::System, vec![call("c", "n", "{}"), text("s1"), text("s2")], None),
        message(Role::System, vec![text("s3")], None),
    ];
    assert_eq!(extract_system_prompt(&messages, "base"), "s1");
    let empty = vec![message(Role::System, Vec::new(), None), message(Role::System, vec![text("s")], None)];
    assert_eq!(extract_system_prompt(&empty, "base"), "base");
    assert_eq!(extract_system_prompt(&Vec::new(), "base"), "base");
}

#[test]
fn calls_are_taken_in_order() {
    let content = vec![call("a", "x", "{}"), text("t"), call("b", "y", "[1]")];
    let calls = extract_calls(&content);
    assert_eq!(calls.len(), 2);
    assert_eq!((calls[0].id.as_str(), calls[1].name.as_str()), ("a", "y"));
    assert_eq!(calls[1].input, json("[1]"));
    assert!(contains_text_block(&content));
    assert!(!contains_text_block(&vec![call("a", "x", "{}")]));
}

#[test]
fn only_file_tools_have_a_path() {
    assert_eq!(path_of_call("Edit", &json("{\"path\":\"f\"}")), Some("f".to_string()));
    assert_eq!(path_of_call("write", &json("{\"path\":3}")), None);
    assert_eq!(path_of_call("bash", &json("{\"path\":\"f\"}")), None);
}

#[test]
fn shown_files_are_read_from_the_marks() {
    let messages = vec![
        message(Role::User, Vec::new(), Some(json("{\"agents_context\":[\"a\",1,\"b\"]}"))),
        message(Role::User, Vec::new(), None),
        message(Role::User, Vec::new(), Some(json("{\"agents_context\":\"c\"}"))),
        message(Role::User, Vec::new(), Some(json("{\"agents_context\":[\"a\"]}"))),
    ];
    assert_eq!(collect_shown_files(&messages), ["a", "b", "a"]);
}

#[test]
fn time_goes_into_the_meta_of_a_reply() {
    let (run, _) = run::run(setup(Host::Background), Vec::new());
    let (run, _) = advance_now(run, Event::Loaded(Vec::new()), false);
    let (_, actions) = advance_now(run, Event::StartFailed("x".to_string()), false);
    match &actions[0] {
        Action::Save { meta, .. } => {
            let ts = meta.as_ref().unwrap().get("ts").unwrap().as_str().unwrap();
            assert!(chrono::DateTime::parse_from_rfc3339(ts).is_ok());
        }
        _ => panic!("expected a save"),
    }
}

/// What a request holds, as the ids of its messages and the rest.
fn sent(actions: &[Action]) -> Option<(String, Vec<String>)> {
    match actions.last() {
        Some(Action::Start { request }) => Some((
            request.prompt.clone(),
            request.messages.iter().map(|m| m.id.clone()).collect(),
        )),
        _ => None,
    }
}

#[test]
fn whole_run_sends_the_conversation_so_far() {
    let mut store = vec![Message {
        id: "s".to_string(),
        role: Role::System,
        content: vec![text("be good")],
        meta: None,
        summary: String::new(),
    }];
    let replies: Vec<Vec<ContentBlock>> = vec![
        vec![call("c1", "bash", "{}")],
        vec![text("more"), call("c2", "bash", "{}"), call("c3", "nope", "{}")],
        vec![text("done")],
    ];
    let mut replies = replies.into_iter();
    let mut requests: Vec<(String, Vec<String>)> = Vec::new();
    let mut pending: Option<Message> = None;
    let (mut run, mut actions) = run::run(setup(Host::Terminal), Vec::new());
    loop {
        for action in &actions {
            if let Action::Push(id) = action {
                let m = pending.take().unwrap();
                assert_eq!(&m.id, id);
                store.push(m);
            }
        }
        requests.extend(sent(&actions));
        let event = match actions.pop().unwrap() {
            Action::Load => Event::Loaded(
                store
                    .iter()
                    .map(|m| Message {
                        id: m.id.clone(),
                        role: m.role,
                        content: if m.id == "s" { vec![text("be good")] } else { Vec::new() },
                        meta: None,
                        summary: String::new(),
                    })
                    .collect(),
            ),
            Action::Start { .. } => Event::Started,
            Action::Next => Event::ItemsEnded,
            Action::Finish => {
                Event::Finished { content: replies.next().unwrap(), usage: json("null") }
            }
            Action::Save { role, content, meta } => {
                let id = format!("m{}", store.len());
                pending = Some(Message {
                    id: id.clone(),
                    role,
                    content,
                    meta,
                    summary: String::new(),
                });
                saved(&id)
            }
            Action::RunTool { .. } => Event::ToolDone(output("x")),
            Action::Checkpoint => Event::Checkpointed,
            Action::End { error } => {
                assert_eq!(error, None);
                break;
            }
            _ => panic!("unexpected action"),
        };
        let (next, more) = advance(run, event, false, "T");
        run = next;
        actions = more;
    }
    let ids = |n: usize| -> Vec<String> {
        ["s", "m1", "m2", "m3", "m4"][..n].iter().map(|s| s.to_string()).collect()
    };
    assert_eq!(
        requests,
        [
            ("be good".to_string(), ids(1)),
            ("be good".to_string(), ids(3)),
            ("be good".to_string(), ids(5)),
        ]
    );
    let roles: Vec<Role> = store.iter().map(|m| m.role).collect();
    assert_eq!(
        roles,
        [Role::System, Role::Assistant, Role::User, Role::Assistant, Role::User, Role::Assistant]
    );
    assert_eq!(store[4].content.len(), 2);
}

#[test]
fn single_turn_is_sent_without_tools() {
    let mut single = setup(Host::Single);
    single.max_tokens = Some(64);
    let r = make_request(&single, "p", vec![message(Role::User, vec![text("u")], None)]);
    assert_eq!((r.model.as_str(), r.prompt.as_str()), ("m1", "p"));
    assert!(r.tools.is_empty());
    assert!(r.native_tools);
    assert_eq!(r.max_tokens, Some(64));
    assert_eq!(r.messages.len(), 1);
    assert_eq!(r.thinking, ThinkingLevel::High);
    let r = make_request(&setup(Host::Background), "p", Vec::new());
    assert_eq!(r.tools, ["read", "bash"]);
    assert!(!r.native_tools);
    assert_eq!(r.max_tokens, None);
}
