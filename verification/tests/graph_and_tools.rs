use ri_agent::agent::Host;
use ri_agent::graph::{describe_graph, diff_message_lists, reachable_contexts, GRAPH_DEPTH};
use ri_agent::model::{
    parse_role, parse_thinking, resolve_thinking, thinking_to_str, ContentBlock, Context, Message,
    Pool, Role, ThinkingLevel,
};
use ri_agent::survey::{Found, Survey};
use ri_agent::tool_calls::{
    advance_append_call, advance_create_call, advance_run_call, begin_append_call,
    begin_create_call, begin_run_call, run_host, AppendCall, CreateCall, Reply, Request, RunCall,
    RunKind,
};
use ri_agent::tools::{
    agent_started, append_draft, append_output, create_output, default_thinking, failure_output, graph_entry,
    graph_request, history_of, merge_session, message_output, message_request, read_context_graph,
    resolve_context_messages, resolve_session_head, run_request, shutting_down, turn_started,
    GraphEntry, History, StoredJson, ToolFailure,
};

fn json(text: &str) -> serde_json::Value {
    serde_json::from_str(text).unwrap()
}

fn strings(items: &[&str]) -> Vec<String> {
    items.iter().map(|s| s.to_string()).collect()
}

fn msg(id: &str, summary: &str) -> Message {
    Message {
        id: id.to_string(),
        role: Role::User,
        content: vec![ContentBlock::Text { text: id.to_string() }],
        meta: None,
        summary: summary.to_string(),
    }
}

fn ctx(id: &str, messages: &[&str], parents: &[&str]) -> Context {
    Context { id: id.to_string(), messages: strings(messages), parents: strings(parents) }
}

/// `c1 <- c2 <- c3`, and `c4` beside `c3`.
fn pool() -> Pool {
    let mut pool = Pool::new();
    pool.put_message(msg("m1", "[user] one"));
    pool.put_message(msg("m2", "[user] two"));
    assert!(pool.put_context(ctx("c1", &["m1"], &[])));
    assert!(pool.put_context(ctx("c2", &["m1", "m2"], &["c1"])));
    assert!(pool.put_context(ctx("c3", &["m2", "m3"], &["c2", "gone"])));
    assert!(pool.put_context(ctx("c4", &[], &["c2"])));
    pool
}

#[test]
fn walk_lists_ancestors_then_descendants() {
    let pool = pool();
    let entry = pool.get_context("c2").unwrap();
    assert_eq!(reachable_contexts(&pool, entry, GRAPH_DEPTH), ["c1", "c3", "c4"]);
    let entry = pool.get_context("c3").unwrap();
    assert_eq!(reachable_contexts(&pool, entry, GRAPH_DEPTH), ["c2", "gone", "c1"]);
    assert_eq!(reachable_contexts(&pool, entry, 1), ["c2", "gone"]);
    assert!(reachable_contexts(&pool, entry, 0).is_empty());
}

#[test]
fn walk_visits_a_cycle_once() {
    let mut pool = Pool::new();
    pool.put_context(ctx("a", &[], &["b"]));
    pool.put_context(ctx("b", &[], &["a"]));
    let entry = pool.get_context("a").unwrap();
    assert_eq!(reachable_contexts(&pool, entry, GRAPH_DEPTH), ["b"]);
}

#[test]
fn graph_is_described_as_text() {
    let pool = pool();
    let entry = pool.get_context("c3").unwrap();
    assert_eq!(
        describe_graph(&pool, entry, 1),
        "CONTEXT GRAPH entry=c3 count=3\n\nc3 (entry) <- c2, gone\n  m2 [user] two\n  m3\n\n\
         c2 <- c1\n  diff vs c1\n  + m2 [user] two\n\ngone\n  (not loaded)\n"
    );
    let entry = pool.get_context("c4").unwrap();
    assert_eq!(
        describe_graph(&pool, entry, 1),
        "CONTEXT GRAPH entry=c4 count=2\n\nc4 (entry) <- c2\n  (no messages)\n\n\
         c2 <- c1\n  diff vs c1\n  + m2 [user] two\n"
    );
}

#[test]
fn diff_tells_added_from_removed() {
    let d = diff_message_lists(&strings(&["a", "b"]), &strings(&["b", "c", "c"]));
    assert_eq!(d.added, ["c", "c"]);
    assert_eq!(d.removed, ["a"]);
    let d = diff_message_lists(&strings(&["a"]), &strings(&["a", "n"]));
    assert_eq!((d.added, d.removed), (strings(&["n"]), Vec::new()));
}

#[test]
fn unchanged_context_is_noted() {
    let mut pool = Pool::new();
    pool.put_context(ctx("p", &["x"], &[]));
    pool.put_context(ctx("q", &["x"], &["p"]));
    let entry = pool.get_context("p").unwrap();
    assert!(describe_graph(&pool, entry, 5).ends_with("\nq <- p\n  (no changes)\n"));
}

#[test]
fn pool_refuses_a_second_context_with_an_id() {
    let mut pool = pool();
    assert!(!pool.put_context(ctx("c1", &["other"], &[])));
    assert_eq!(pool.get_context("c1").unwrap().messages, ["m1"]);
    assert!(pool.get_context("none").is_none());
    assert_eq!(pool.children("c2"), ["c3", "c4"]);
}

#[test]
fn graph_tool_reads_its_input() {
    let r = graph_request(&json("{\"context_id\":\"c\",\"session_id\":\"s\",\"depth\":\"3\"}"));
    let r = r.ok().unwrap();
    assert!(matches!(&r.entry, GraphEntry::Context { id } if id == "c"));
    assert_eq!(r.depth, 3);
    let r = graph_request(&json("{\"session_id\":\"s\",\"depth\":-1}")).ok().unwrap();
    assert!(matches!(&r.entry, GraphEntry::Session { id } if id == "s"));
    assert_eq!(r.depth, 10);
    let e = graph_request(&json("{\"depth\":7}")).err().unwrap();
    assert_eq!(e.text, "either 'session_id' or 'context_id' is required");
    assert!(e.is_error);
}

#[test]
fn graph_tool_finds_its_entry() {
    let session = || GraphEntry::Session { id: "s".to_string() };
    assert_eq!(graph_entry(session(), Some("h".to_string()), true).ok().unwrap(), "h");
    assert_eq!(
        graph_entry(session(), None, true).err().unwrap().text,
        "session 's' not found or has no head"
    );
    assert_eq!(graph_entry(session(), None, false).err().unwrap().text, "session 's' not found");
    let context = GraphEntry::Context { id: "c".to_string() };
    assert_eq!(graph_entry(context, None, true).ok().unwrap(), "c");
    assert_eq!(resolve_session_head(Some(None), Some("d".to_string())), None);
    assert_eq!(resolve_session_head(None, Some("d".to_string())), Some("d".to_string()));
}

#[test]
fn graph_tool_answers() {
    let pool = pool();
    assert_eq!(read_context_graph(&pool, "zz", 3).text, "context 'zz' not found");
    let out = read_context_graph(&pool, "c1", 0);
    assert_eq!(out.text, "CONTEXT GRAPH entry=c1 count=1\n\nc1 (entry)\n  m1 [user] one\n");
    assert!(!out.is_error && out.details.is_none());
}

#[test]
fn merge_adds_what_is_missing_and_overwrites_nothing() {
    let mut disk = Pool::new();
    disk.put_message(msg("m1", "disk"));
    let mut own = Pool::new();
    own.put_message(msg("m1", "memory"));
    own.put_message(msg("m2", "memory"));
    own.put_message(msg("m3", "memory"));
    own.put_context(ctx("h", &["m1"], &[]));
    own.put_context(ctx("other", &[], &[]));
    merge_session(&mut disk, &strings(&["m1", "m2", "nope"]), &Some("h".to_string()), &own);
    assert_eq!(disk.get_message("m1").unwrap().summary, "disk");
    assert_eq!(disk.get_message("m2").unwrap().summary, "memory");
    assert!(disk.get_message("m3").is_none());
    assert!(disk.get_context("h").is_some());
    assert!(disk.get_context("other").is_none());
}

#[test]
fn context_is_found_in_memory_first() {
    let mut a = Pool::new();
    a.put_context(ctx("c", &["mem"], &[]));
    let mut b = Pool::new();
    b.put_context(ctx("c", &["disk"], &[]));
    b.put_context(ctx("d", &["disk"], &[]));
    assert_eq!(resolve_context_messages(Some(&a), Some(&b), "c").unwrap(), ["mem"]);
    assert_eq!(resolve_context_messages(Some(&a), Some(&b), "d").unwrap(), ["disk"]);
    assert!(resolve_context_messages(Some(&a), None, "d").is_none());
    assert!(resolve_context_messages(None, None, "d").is_none());
}

#[test]
fn history_prefers_the_context() {
    let h = history_of(&json("{\"context_id\":\"c\",\"message_ids\":[\"m\"]}")).ok().unwrap();
    assert!(matches!(h, History::Context { id } if id == "c"));
    let h = history_of(&json("{\"message_ids\":[\"m\",2,\"n\"]}")).ok().unwrap();
    assert!(matches!(h, History::Messages { ids } if ids == ["m", "n"]));
    let e = history_of(&json("{}")).err().unwrap();
    assert_eq!(e.text, "either 'context_id' or 'message_ids' is required");
}

#[test]
fn run_request_reads_its_parameters() {
    let input = json(
        "{\"model_id\":\"m\",\"user_prompt\":\"hi\",\"session_id\":\"s\",\
         \"model_params\":{\"thinking\":\"xhigh\",\"max_tokens\":\"+42\"}}",
    );
    let r = run_request(&input, ThinkingLevel::Low).ok().unwrap();
    assert_eq!(r.model_id, "m");
    assert_eq!(r.user_prompt.as_deref(), Some("hi"));
    assert_eq!(r.session_id.as_deref(), Some("s"));
    assert_eq!(r.thinking, ThinkingLevel::XHigh);
    assert_eq!(r.max_tokens, Some(42));
    let input = json("{\"model_id\":\"m\",\"model_params\":{\"thinking\":\"lots\",\"max_tokens\":1.5}}");
    let r = run_request(&input, ThinkingLevel::Low).ok().unwrap();
    assert_eq!(r.thinking, ThinkingLevel::Low);
    assert_eq!(r.max_tokens, None);
    assert_eq!(
        run_request(&json("{\"model_id\":5}"), ThinkingLevel::Low).err().unwrap().text,
        "missing 'model_id' parameter"
    );
    assert_eq!(default_thinking(Some("high")), ThinkingLevel::High);
    assert_eq!(default_thinking(Some("?")), ThinkingLevel::Medium);
    assert_eq!(default_thinking(None), ThinkingLevel::Medium);
}

#[test]
fn outputs_of_run_tools() {
    let out = agent_started("s1");
    assert_eq!(out.text, "Agent loop started on session 's1'");
    assert_eq!(out.details.unwrap(), json("{\"session_id\":\"s1\"}"));
    assert_eq!(turn_started("s1").text, "Single turn started on session 's1'");
    assert_eq!(shutting_down().text, "ri server is shutting down");
}

#[test]
fn failures_name_what_failed() {
    let e = || "e".to_string();
    let text = |f: ToolFailure| failure_output(f).text;
    assert_eq!(text(ToolFailure::LoadStore(e())), "failed to load store: e");
    assert_eq!(text(ToolFailure::LoadSessions(e())), "failed to load sessions: e");
    assert_eq!(text(ToolFailure::ResolveModel(e())), "model resolution failed: e");
    assert_eq!(text(ToolFailure::CreateSession(e())), "failed to create session: e");
    assert_eq!(text(ToolFailure::SetUpSession(e())), "session setup failed: e");
    assert_eq!(text(ToolFailure::WriteUserMessage(e())), "failed to write user message: e");
    assert_eq!(text(ToolFailure::WriteMessage(e())), "failed to write message: e");
    assert_eq!(text(ToolFailure::WriteContext(e())), "failed to write context: e");
}

#[test]
fn run_call_goes_through_its_steps() {
    let input = json("{\"context_id\":\"c\",\"model_id\":\"m\",\"user_prompt\":\"go\"}");
    let (call, request) = begin_run_call(input, ThinkingLevel::Medium);
    assert!(matches!(&request, Request::FindContext { id } if id == "c"));
    let next = |call: RunCall, reply: Reply| {
        advance_run_call(RunKind::Agent, ThinkingLevel::Medium, call, reply)
    };
    let (call, rs) = next(call, Reply::Context(Some(strings(&["m1"]))));
    assert!(matches!(&rs[0], Request::ResolveModel { id } if id == "m"));
    let (call, rs) = next(call, Reply::ModelResolved);
    assert!(
        matches!(&rs[0], Request::CreateSession { name: None, messages } if messages == &["m1"])
    );
    let (call, rs) = next(call, Reply::SessionCreated("s".to_string()));
    assert!(matches!(&rs[0], Request::WriteMessage { session, text, role } if session == "s"
        && text == "go" && *role == Role::User));
    let (call, rs) = next(call, Reply::MessageWritten("m2".to_string()));
    assert!(matches!(&rs[0], Request::Launch { messages, session, kind: RunKind::Agent, .. }
        if messages == &["m1", "m2"] && session == "s"));
    assert!(matches!(&rs[1], Request::Answer { output } if output.text
        == "Agent loop started on session 's'"));
    assert!(matches!(call, RunCall::Over));
}

#[test]
fn run_call_without_prompt_launches_at_once() {
    let input = json("{\"message_ids\":[],\"model_id\":\"m\"}");
    let (call, request) = begin_run_call(input, ThinkingLevel::Medium);
    assert!(matches!(request, Request::ResolveModel { .. }));
    let step = |call, reply| advance_run_call(RunKind::Turn, ThinkingLevel::Medium, call, reply);
    let (call, _) = step(call, Reply::ModelResolved);
    let (_, rs) = step(call, Reply::SessionCreated("s".to_string()));
    assert_eq!(rs.len(), 2);
    assert!(matches!(&rs[0], Request::Launch { kind: RunKind::Turn, .. }));
    assert!(matches!(&rs[1], Request::Answer { output } if output.text
        == "Single turn started on session 's'"));
}

#[test]
fn run_call_ends_with_its_first_failure() {
    let step = |call, reply| advance_run_call(RunKind::Agent, ThinkingLevel::Medium, call, reply);
    let (call, _) =
        begin_run_call(json("{\"context_id\":\"c\",\"model_id\":\"m\"}"), ThinkingLevel::Medium);
    let (call, rs) = step(call, Reply::Context(None));
    assert!(matches!(call, RunCall::Over));
    assert!(matches!(&rs[0], Request::Answer { output } if output.text == "context 'c' not found"));
    let (call, _) = begin_run_call(
        json("{\"message_ids\":[],\"model_id\":\"m\"}"),
        ThinkingLevel::Medium,
    );
    let (call, rs) = step(call, Reply::Failed(ToolFailure::ResolveModel("x".to_string())));
    assert!(matches!(&rs[0], Request::Answer { output } if output.text
        == "model resolution failed: x"));
    let (_, rs) = step(call, Reply::ModelResolved);
    assert!(rs.is_empty());
}

/// A call that names a session, once the model is known.
fn named_call() -> RunCall {
    let input = json("{\"message_ids\":[\"m1\"],\"model_id\":\"m\",\"session_id\":\"old\"}");
    let (call, _) = begin_run_call(input, ThinkingLevel::Medium);
    let (call, rs) =
        advance_run_call(RunKind::Agent, ThinkingLevel::Medium, call, Reply::ModelResolved);
    assert!(matches!(&rs[0], Request::FindSession { id } if id == "old"));
    assert_eq!(rs.len(), 1);
    call
}

#[test]
fn run_call_extends_a_session_that_there_is() {
    let step = |call, reply| advance_run_call(RunKind::Agent, ThinkingLevel::Medium, call, reply);
    for (running, on_disk) in [(Some(false), true), (Some(false), false), (None, true)] {
        let (call, rs) = step(named_call(), Reply::Session { running, on_disk });
        assert!(matches!(&rs[0], Request::ExtendSession { id, messages } if id == "old"
            && messages == &["m1"]));
        let (call, rs) = step(call, Reply::SessionExtended);
        assert!(matches!(&rs[0], Request::Launch { session, .. } if session == "old"));
        assert!(matches!(call, RunCall::Over));
    }
}

#[test]
fn run_call_makes_the_named_session_where_there_is_none() {
    let step = |call, reply| advance_run_call(RunKind::Agent, ThinkingLevel::Medium, call, reply);
    let (call, rs) = step(named_call(), Reply::Session { running: None, on_disk: false });
    assert!(matches!(&rs[0], Request::CreateSession { name: Some(name), .. } if name == "old"));
    let (_, rs) = step(call, Reply::SessionCreated("new".to_string()));
    assert!(matches!(&rs[0], Request::Launch { session, .. } if session == "new"));
}

#[test]
fn run_call_leaves_a_busy_session_alone() {
    let step = |call, reply| advance_run_call(RunKind::Agent, ThinkingLevel::Medium, call, reply);
    let (call, rs) = step(named_call(), Reply::Session { running: Some(true), on_disk: true });
    assert!(matches!(call, RunCall::Over));
    assert_eq!(rs.len(), 1);
    assert!(matches!(&rs[0], Request::Answer { output } if output.is_error && output.text
        == "session setup failed: session 'old' already has a running agent"));
}

#[test]
fn runs_of_tools_have_their_hosts() {
    assert_eq!(run_host(RunKind::Turn, true), Host::Single);
    assert_eq!(run_host(RunKind::Turn, false), Host::Single);
    assert_eq!(run_host(RunKind::Agent, true), Host::Server);
    assert_eq!(run_host(RunKind::Agent, false), Host::Background);
}

#[test]
fn append_call_links_the_message() {
    let input = json("{\"role\":\"assistant\",\"content\":\"hey\",\"context_id\":\"c\"}");
    let (call, request) = begin_append_call(&input, &Some("s".to_string()));
    assert!(matches!(&request, Request::FindCaller { session, context } if session == "s"
        && context.as_deref() == Some("c")));
    let (call, r) = advance_append_call(call, Reply::Caller(Some(strings(&["a", "b"]))));
    assert!(matches!(r, Some(Request::Append { session, role: Role::Assistant, text, base, parent })
        if session == "s" && text == "hey" && base == ["a", "b"]
        && parent.as_deref() == Some("c")));
    let written = Reply::Appended {
        message_id: "n".to_string(),
        context_id: "c2".to_string(),
        count: 3,
    };
    let (call, r) = advance_append_call(call, written);
    assert!(matches!(call, AppendCall::Over));
    match r {
        Some(Request::Answer { output }) => {
            assert_eq!(output.text, "Appended message [n], new context [c2] (3 messages)");
            assert_eq!(
                output.details.unwrap(),
                json("{\"context_id\":\"c2\",\"message_id\":\"n\"}")
            );
        }
        _ => panic!("expected an answer"),
    }
}

#[test]
fn append_call_checks_its_input_in_order() {
    let caller = Some("s".to_string());
    let text = |input: &str, caller: &Option<String>| {
        match begin_append_call(&json(input), caller).1 {
            Request::Answer { output } => output.text,
            _ => panic!("expected an answer"),
        }
    };
    assert_eq!(
        text("{\"role\":\"root\"}", &caller),
        "missing or invalid 'role' parameter (user, assistant, system)"
    );
    assert_eq!(text("{\"role\":\"user\"}", &None), "missing 'content' parameter");
    assert_eq!(
        text("{\"role\":\"user\",\"content\":\"x\"}", &None),
        "no calling session -- appendMessage requires a session context"
    );
    let ok = json("{\"role\":\"user\",\"content\":\"x\",\"context_id\":\"c\"}");
    let (call, _) = begin_append_call(&ok, &caller);
    let (_, r) = advance_append_call(call, Reply::Caller(None));
    assert!(matches!(r, Some(Request::Answer { output }) if output.text
        == "context 'c' not found"));
    let (call, _) = begin_append_call(&ok, &caller);
    let (_, r) = advance_append_call(call, Reply::NoCaller);
    assert!(matches!(r, Some(Request::Answer { output }) if output.text
        == "calling session 's' not found in memory"));
}

#[test]
fn append_without_a_context_starts_afresh() {
    let input = json("{\"role\":\"user\",\"content\":\"x\"}");
    let (call, _) = begin_append_call(&input, &Some("s".to_string()));
    let (_, r) = advance_append_call(call, Reply::Caller(Some(strings(&["ignored"]))));
    assert!(matches!(r, Some(Request::Append { base, parent: None, .. }) if base.is_empty()));
    let draft = append_draft(Vec::new(), &None, "n");
    assert_eq!(draft.messages, ["n"]);
    assert!(draft.parents.is_empty());
    let draft = append_draft(strings(&["a", "b"]), &Some("c".to_string()), "n");
    assert_eq!(draft.messages, ["a", "b", "n"]);
    assert_eq!(draft.parents, ["c"]);
}

#[test]
fn append_that_fails_is_answered_and_over() {
    let input = json("{\"role\":\"user\",\"content\":\"x\"}");
    for failed in [
        ToolFailure::WriteMessage("full".to_string()),
        ToolFailure::WriteContext("full".to_string()),
    ] {
        let expected = match &failed {
            ToolFailure::WriteMessage(_) => "failed to write message: full",
            _ => "failed to write context: full",
        };
        let (call, _) = begin_append_call(&input, &Some("s".to_string()));
        let (call, _) = advance_append_call(call, Reply::Caller(None));
        let (call, r) = advance_append_call(call, Reply::Failed(failed));
        assert!(matches!(call, AppendCall::Over));
        assert!(matches!(r, Some(Request::Answer { output }) if output.is_error
            && output.text == expected));
    }
}

#[test]
fn create_call_writes_the_context() {
    let input = json("{\"message_ids\":[\"a\",\"b\"],\"parents\":[\"p\"]}");
    let (call, _) = begin_create_call(&input, &Some("s".to_string()));
    let (call, r) = advance_create_call(call, Reply::Caller(None));
    assert!(matches!(r, Some(Request::WriteContext { session, draft }) if session == "s"
        && draft.messages == ["a", "b"] && draft.parents == ["p"]));
    let written = Reply::ContextWritten { id: "c".to_string(), count: 2 };
    let (call, r) = advance_create_call(call, written);
    assert!(matches!(call, CreateCall::Over));
    assert!(matches!(r, Some(Request::Answer { output }) if output.text
        == "Created context [c] (2 messages)"));
    let text = |input: &str, caller: &Option<String>| {
        match begin_create_call(&json(input), caller).1 {
            Request::Answer { output } => output.text,
            _ => panic!("expected an answer"),
        }
    };
    assert_eq!(text("{}", &None), "missing 'message_ids' parameter");
    assert_eq!(
        text("{\"message_ids\":[]}", &None),
        "no calling session -- createContext requires a session context"
    );
    let (call, _) = begin_create_call(&input, &Some("s".to_string()));
    let failed = Reply::Failed(ToolFailure::WriteContext("x".to_string()));
    let (_, r) = advance_create_call(call, failed);
    assert!(matches!(r, Some(Request::Answer { output }) if output.text
        == "failed to write context: x"));
}

#[test]
fn message_tool_answers() {
    assert_eq!(message_request(&json("{\"message_id\":\"m\"}")).ok().unwrap(), "m");
    assert_eq!(
        message_request(&json("{}")).err().unwrap().text,
        "missing 'message_id' parameter"
    );
    let stored = |t: &str| StoredJson { text: t.to_string(), value: json("{\"msg\":\"m\"}") };
    assert_eq!(message_output("m", Some(stored("mem")), Some(stored("disk"))).text, "mem");
    let out = message_output("m", None, Some(stored("disk")));
    assert_eq!(out.text, "disk");
    assert_eq!(out.details.unwrap(), json("{\"msg\":\"m\"}"));
    let out = message_output("m", None, None);
    assert_eq!(out.text, "message 'm' not found");
    assert!(out.is_error);
}

#[test]
fn outputs_of_write_tools() {
    assert_eq!(
        append_output("m", "c", 12).text,
        "Appended message [m], new context [c] (12 messages)"
    );
    let out = create_output("c", 0);
    assert_eq!(out.text, "Created context [c] (0 messages)");
    assert_eq!(out.details.unwrap(), json("{\"context_id\":\"c\"}"));
}

#[test]
fn roles_and_levels_have_names() {
    assert_eq!(parse_role("system"), Some(Role::System));
    assert_eq!(parse_role("System"), None);
    for level in [
        ThinkingLevel::Off,
        ThinkingLevel::Low,
        ThinkingLevel::Medium,
        ThinkingLevel::High,
        ThinkingLevel::XHigh,
    ] {
        assert_eq!(parse_thinking(thinking_to_str(level)), Some(level));
    }
    assert_eq!(parse_thinking("max"), None);
    let choice = resolve_thinking(None, Some("low"));
    assert_eq!((choice.level, choice.unknown), (ThinkingLevel::Low, None));
    let choice = resolve_thinking(Some("max"), Some("low"));
    assert_eq!((choice.level, choice.unknown), (ThinkingLevel::Medium, Some("max".to_string())));
    assert_eq!(resolve_thinking(None, None).level, ThinkingLevel::Medium);
}

/// What a pool keeps under an id.
fn kept(pool: &Pool, messages: &[&str], id: &str) -> Found {
    let copy = |c: &Context| Context {
        id: c.id.clone(),
        messages: c.messages.clone(),
        parents: c.parents.clone(),
    };
    let context = pool.get_context(id);
    Found {
        context: context.map(copy),
        messages: messages
            .iter()
            .filter(|m| context.is_some_and(|c| c.messages.iter().any(|x| x == *m)))
            .map(|m| msg(m, "summary"))
            .collect(),
        children: pool.children(id),
    }
}

#[test]
fn survey_gathers_what_leads_to_and_from() {
    let mut world = Pool::new();
    let ctx = |id: &str, messages: &[&str], parents: &[&str]| Context {
        id: id.to_string(),
        messages: strings(messages),
        parents: strings(parents),
    };
    world.put_context(ctx("a", &["m1"], &[]));
    world.put_context(ctx("b", &["m1", "m2"], &["a", "gone"]));
    world.put_context(ctx("c", &["m3", "lost"], &["a"]));
    world.put_context(ctx("d", &[], &["b", "c"]));
    world.put_context(ctx("far", &[], &["farther"]));
    let mut survey = Survey::new(strings(&["b", "b"]));
    let mut asked = Vec::new();
    while let Some(id) = survey.next_wanted() {
        survey.take_in(kept(&world, &["m1", "m2", "m3"], &id));
        asked.push(id);
    }
    assert_eq!(asked, ["b", "a", "gone", "d", "c"]);
    let pool = survey.gathered();
    for id in ["a", "b", "c", "d"] {
        let (x, y) = (pool.get_context(id).unwrap(), world.get_context(id).unwrap());
        assert_eq!((&x.messages, &x.parents), (&y.messages, &y.parents));
        let (mut x, mut y) = (pool.children(id), world.children(id));
        x.sort();
        y.sort();
        assert_eq!(x, y);
    }
    assert!(pool.get_context("far").is_none() && pool.get_context("gone").is_none());
    assert!(pool.get_message("m3").is_some() && pool.get_message("lost").is_none());
    let entry = world.get_context("d").unwrap();
    assert_eq!(reachable_contexts(&pool, entry, 9), reachable_contexts(&world, entry, 9));
}

#[test]
fn survey_of_nothing_is_empty() {
    let mut survey = Survey::new(Vec::new());
    assert_eq!(survey.next_wanted(), None);
    assert!(survey.gathered().get_context("a").is_none());
}
