use ri_agent::auth::{
    auth_complete, auth_login, auth_login_status, auth_logout, begin_terminal_login,
    callback_finished, callback_outcome, callback_reply, choose_login, end_terminal_login,
    find_provider, login_disappeared, unknown_provider, AuthMethod, CallbackEnd, LoginEnd,
    LoginStatus, Tone,
};
use ri_agent::cli::{choose_mode, Mode};
use ri_agent::model::{ContentBlock, Message, Role, ThinkingLevel};
use ri_agent::requests::{
    assemble_prompt, begin_run, check_directory, choose_model, choose_thinking,
    count_template_dirs, create_session, created_summary, empty_session_file, environment_lines,
    finish_run, get_settings, list_models, load_session, make_session, make_session_now,
    model_refused, note_supervisor_line, plan_message, plan_setup, prompt_meta, request_update,
    reseed, session_detail, session_from_header, session_not_found, Ancestor, GlobalEvent,
    ModelEntry, Provider, SetupPlan,
};
use ri_agent::rpc::{prompt_done, rpc_failure, rpc_step, RpcCommand, RpcFailure, RpcStep};
use ri_agent::sessions::{
    count_lines, id_of_line, into_response, list_sessions, read_session_message_ids,
    stands_before, AppError, SessionFile, SessionHeader, SessionState, DEFAULT_SESSION_NAME,
};
use ri_agent::shutdown::{react, Reaction, Shutdown, Signal};
use ri_agent::title::{
    begin_title, build_title_context, finish_title, last_assistant_preview, title_from_response,
    wants_title,
};

fn json(text: &str) -> serde_json::Value {
    serde_json::from_str(text).unwrap()
}

fn strings(items: &[&str]) -> Vec<String> {
    items.iter().map(|s| s.to_string()).collect()
}

fn header(name: &str, cwd: Option<&str>) -> SessionHeader {
    SessionHeader {
        session: name.to_string(),
        ts: "t".to_string(),
        cwd: cwd.map(|c| c.to_string()),
        parent: None,
    }
}

fn session() -> SessionState {
    make_session("id", DEFAULT_SESSION_NAME, "/w", "t", None, strings(&["m"]))
}

fn text_of(e: AppError) -> (u16, String) {
    let answer = into_response(e);
    (answer.status, answer.body.get("error").unwrap().as_str().unwrap().to_string())
}

fn text(s: &str) -> ContentBlock {
    ContentBlock::Text { text: s.to_string() }
}

fn message(role: Role, content: Vec<ContentBlock>) -> Message {
    Message { id: "m".to_string(), role, content, meta: None, summary: String::new() }
}

#[test]
fn sessions_are_listed_last_name_first() {
    let file = |name: &str, header: Option<SessionHeader>, lines: &[&str]| SessionFile {
        name: name.to_string(),
        header,
        lines: strings(lines),
    };
    let list = list_sessions(vec![
        file("a.jsonl", Some(header("A", None)), &["h", "m", " ", "m"]),
        file("notes.txt", Some(header("N", None)), &[]),
        file("c.jsonl", None, &["x"]),
        file("b.x.jsonl", Some(header("B", Some("/b"))), &[]),
    ]);
    assert_eq!(list.len(), 2);
    assert_eq!((list[0].id.as_str(), list[0].cwd.as_str()), ("b.x", "/b"));
    assert_eq!(list[0].message_count, 0);
    assert_eq!((list[1].id.as_str(), list[1].name.as_str()), ("a", "A"));
    assert_eq!((list[1].message_count, list[1].cwd.as_str()), (2, ""));
    assert!(stands_before("a", "b") && stands_before("a", "ab") && !stands_before("b", "a"));
    assert!(!stands_before("a", "a"));
}

#[test]
fn session_files_are_scanned_for_messages() {
    let lines = strings(&[
        "{\"session\":\"s\"}",
        "  {\"msg\":\"m1\"} ",
        "",
        "not json",
        "{\"msg\":7}",
        "{\"msg\":\"m2\"}",
    ]);
    assert_eq!(read_session_message_ids(&lines), ["m1", "m2"]);
    assert_eq!(count_lines(&lines), 5);
    assert_eq!(id_of_line(&json("{\"msg\":\"m\"}")).as_deref(), Some("m"));
    assert_eq!(id_of_line(&json("[]")), None);
}

#[test]
fn sessions_are_loaded_from_disk() {
    let s = load_session("id", header("N", None), Some(strings(&["a"])), &Vec::new());
    assert_eq!((s.cwd.as_str(), s.name.as_str(), s.file_id.as_str()), (".", "N", "id"));
    assert_eq!(s.message_ids, ["a"]);
    assert!(!s.is_running());
    let lines = strings(&["{\"msg\":\"x\"}"]);
    let s = load_session("id", header("N", Some("/c")), None, &lines);
    assert_eq!((s.cwd.as_str(), s.message_ids[0].as_str()), ("/c", "x"));
    let s = session_from_header("id", header("N", None), "/fallback", Vec::new());
    assert_eq!(s.cwd, "/fallback");
}

#[test]
fn errors_have_status_codes() {
    assert_eq!(text_of(session_not_found("x")), (404, "Session 'x' not found".to_string()));
    assert_eq!(text_of(empty_session_file()), (404, "Empty session file".to_string()));
    assert_eq!(text_of(model_refused("no")), (400, "no".to_string()));
    assert_eq!(text_of(AppError::Internal("io".to_string())), (500, "io".to_string()));
    let e = check_directory("/nope", false).err().unwrap();
    assert_eq!(text_of(e), (400, "'/nope' is not a directory".to_string()));
    assert!(check_directory("/", true).is_ok());
}

#[test]
fn setup_plans() {
    let id = Some("s".to_string());
    let idle = session();
    let mut busy = session();
    assert!(begin_run(&mut busy).is_ok());
    assert!(matches!(plan_setup(&None, Some(&busy), true), SetupPlan::Create { name: None }));
    assert!(matches!(plan_setup(&id, Some(&busy), false), SetupPlan::Busy { error } if error
        == "session 's' already has a running agent"));
    assert!(matches!(plan_setup(&id, Some(&idle), true), SetupPlan::Reuse));
    assert!(matches!(plan_setup(&id, None, true), SetupPlan::Load));
    assert!(matches!(plan_setup(&id, None, false), SetupPlan::Create { name: Some(n) } if n
        == "s"));
    let mut idle = idle;
    reseed(&mut idle, strings(&["p", "q"]));
    assert_eq!(idle.message_ids, ["p", "q"]);
    assert_eq!(idle.name, DEFAULT_SESSION_NAME);
}

#[test]
fn one_run_at_a_time() {
    let mut s = session();
    assert_eq!(s.status(), "idle");
    assert!(begin_run(&mut s).is_ok());
    assert_eq!(s.status(), "running");
    let e = begin_run(&mut s).err().unwrap();
    assert_eq!(text_of(e), (409, "Agent loop is already running".to_string()));
    let e = plan_message(&s, None, None, "d", ThinkingLevel::Low).err().unwrap();
    assert_eq!(text_of(e).0, 409);
    let done = finish_run(&mut s, &vec![message(Role::Assistant, vec![text(" hi ")])]);
    match done {
        GlobalEvent::SessionDone { session_id, name, preview, parent } => {
            assert_eq!((session_id.as_str(), name.as_str()), ("id", "New session"));
            assert_eq!((preview.as_deref(), parent), (Some("hi"), None));
        }
        _ => panic!("expected the end of a session"),
    }
    assert!(begin_run(&mut s).is_ok());
}

#[test]
fn message_plans_take_defaults() {
    let s = session();
    let p = plan_message(&s, None, None, "d", ThinkingLevel::Low).ok().unwrap();
    assert_eq!((p.model.as_str(), p.thinking), ("d", ThinkingLevel::Low));
    let p = plan_message(&s, Some("m".to_string()), Some("off"), "d", ThinkingLevel::Low);
    let p = p.ok().unwrap();
    assert_eq!((p.model.as_str(), p.thinking), ("m", ThinkingLevel::Off));
    assert_eq!(choose_thinking(Some("?"), ThinkingLevel::High), ThinkingLevel::High);
    assert_eq!(choose_model(None, None, "r"), "r");
    assert_eq!(choose_model(None, Some("s".to_string()), "r"), "s");
    assert_eq!(choose_model(Some("f".to_string()), Some("s".to_string()), "r"), "f");
}

#[test]
fn created_sessions() {
    let s = create_session("id", "/w", "sys".to_string());
    assert_eq!((s.name.as_str(), s.cwd.as_str()), ("New session", "/w"));
    assert_eq!(s.message_ids, ["sys"]);
    assert!(chrono::DateTime::parse_from_rfc3339(&s.ts).is_ok());
    let summary = created_summary(&s);
    assert_eq!((summary.id.as_str(), summary.message_count), ("id", 1));
    let made = make_session_now("i", "n", "/c", Some("p".to_string()), Vec::new());
    assert_eq!((made.name.as_str(), made.parent.as_deref()), ("n", Some("p")));
    let detail = session_detail("shown", &s);
    assert_eq!((detail.id.as_str(), detail.status.as_str()), ("shown", "idle"));
    assert_eq!(
        environment_lines("i", "/w"),
        ["Session id for this Ri session: i", "Working directory: /w"]
    );
    assert_eq!(assemble_prompt(&strings(&["a", "", "b"])), "a\n\nb");
    assert!(prompt_meta(&Vec::new()).is_none());
    assert_eq!(
        prompt_meta(&strings(&["/x"])).unwrap(),
        json("{\"agents_context\":[\"/x\"]}")
    );
}

#[test]
fn templates_come_from_up_to_the_repository() {
    let dir = |has_git: bool| Ancestor { path: String::new(), has_git };
    assert_eq!(count_template_dirs(&vec![dir(false), dir(true), dir(false)]), 2);
    assert_eq!(count_template_dirs(&vec![dir(false), dir(false)]), 2);
    assert_eq!(count_template_dirs(&Vec::new()), 0);
}

#[test]
fn models_of_usable_providers_are_listed() {
    let entry = |id: &str| ModelEntry {
        id: id.to_string(),
        name: id.to_uppercase(),
        context_window: 7,
    };
    let provider = |id: &str, authenticated: bool, models: Vec<ModelEntry>| Provider {
        id: id.to_string(),
        authenticated,
        models,
    };
    let list = list_models(&vec![
        provider("p", true, vec![entry("a"), entry("b")]),
        provider("q", false, vec![entry("c")]),
        provider("r", true, vec![entry("d")]),
    ]);
    let ids: Vec<&str> = list.iter().map(|m| m.id.as_str()).collect();
    assert_eq!(ids, ["a", "b", "d"]);
    assert_eq!((list[2].provider.as_str(), list[2].name.as_str()), ("r", "D"));
    assert_eq!(get_settings("m", ThinkingLevel::XHigh).default_thinking, "xhigh");
}

#[test]
fn updates_are_announced_once() {
    let mut available = false;
    assert_eq!(text_of(request_update(available).err().unwrap()).0, 409);
    assert!(note_supervisor_line(&mut available, "hello").is_none());
    assert!(!available);
    let event = note_supervisor_line(&mut available, " update\r");
    assert!(matches!(event, Some(GlobalEvent::UpdateAvailable)));
    assert!(available);
    assert!(note_supervisor_line(&mut available, "update").is_none());
    assert!(request_update(available).is_ok());
}

#[test]
fn shutdown_waits_for_agents() {
    let (s, r) = react(Shutdown::Serving, Signal::Interrupt);
    assert_eq!(r, Reaction::Drain);
    assert_eq!(react(s, Signal::Update).1, Reaction::Nothing);
    assert_eq!(react(s, Signal::Drained), (Shutdown::Done, Reaction::EndStreamsAndStop));
    assert_eq!(react(s, Signal::Interrupt), (Shutdown::Done, Reaction::Exit(1)));
    let (s, _) = react(Shutdown::Serving, Signal::Update);
    assert_eq!(react(s, Signal::Drained).1, Reaction::EndStreamsAndExit(42));
    let (s, _) = react(Shutdown::Serving, Signal::SupervisorGone);
    assert_eq!(react(s, Signal::Drained).1, Reaction::EndStreamsAndStop);
    assert_eq!(react(Shutdown::Serving, Signal::Drained).1, Reaction::Nothing);
}

#[test]
fn title_context_is_a_transcript() {
    let messages = vec![
        message(Role::System, vec![text("sys")]),
        message(Role::User, vec![text("  fix it "), text("  ")]),
        message(Role::Assistant, vec![text("done")]),
    ];
    let r = build_title_context(&messages);
    assert_eq!(r.len(), 1);
    assert_eq!((r[0].id.as_str(), r[0].role), ("title_ctx", Role::User));
    assert!(matches!(&r[0].content[0], ContentBlock::Text { text } if text
        == "Generate a title for this conversation:\n\n[user]: fix it\n\n[assistant]: done"));
    assert!(build_title_context(&messages[..1].to_vec()).is_empty());
}

#[test]
fn title_context_keeps_the_first_and_the_last() {
    let long = |c: char| c.to_string().repeat(700);
    let mut messages = Vec::new();
    for c in ['a', 'b', 'c', 'd', 'e', 'f', 'g', 'h'] {
        messages.push(message(Role::User, vec![text(&long(c))]));
    }
    let r = build_title_context(&messages);
    let body = match &r[0].content[0] {
        ContentBlock::Text { text } => text.clone(),
        _ => panic!("expected text"),
    };
    let clipped = |c: char| format!("[user]: {}...", c.to_string().repeat(600));
    assert!(body.contains(&clipped('a')));
    assert!(!body.contains(&clipped('b')) && !body.contains(&clipped('c')));
    for c in ['d', 'e', 'f', 'g', 'h'] {
        assert!(body.contains(&clipped(c)));
    }
}

#[test]
fn titles_are_collapsed_to_one_line() {
    let content = vec![text(" Fix\nlogin "), text("  loop\t now ")];
    assert_eq!(title_from_response(&content), "Fix login loop now");
    assert_eq!(title_from_response(&Vec::new()), "");
}

#[test]
fn only_the_latest_title_is_set() {
    let mut s = session();
    assert!(wants_title(&s));
    let messages = vec![message(Role::User, vec![text("q")])];
    let first = begin_title(&mut s, &messages).unwrap();
    let second = begin_title(&mut s, &messages).unwrap();
    assert_eq!((first.seq, second.seq), (1, 2));
    assert!(begin_title(&mut s, &Vec::new()).is_none());
    assert_eq!(s.title_gen_seq, 2);
    assert_eq!(finish_title(&mut s, first.seq, &vec![text("Old")]), None);
    assert_eq!(finish_title(&mut s, second.seq, &vec![text("defer")]), None);
    assert!(wants_title(&s));
    assert_eq!(finish_title(&mut s, second.seq, &vec![text("New one")]).as_deref(), Some("New one"));
    assert_eq!(s.name, "New one");
    assert!(!wants_title(&s));
}

#[test]
fn previews_end_at_a_word() {
    let p = |content: Vec<ContentBlock>| {
        last_assistant_preview(&vec![
            message(Role::Assistant, vec![text("old")]),
            message(Role::Assistant, content),
            message(Role::User, vec![text("later")]),
        ])
    };
    assert_eq!(p(vec![text("a"), text("b")]).as_deref(), Some("a b"));
    assert_eq!(p(Vec::new()), None);
    let words = "word ".repeat(30);
    let expected = format!("{}...", "word ".repeat(20).trim_end());
    assert_eq!(p(vec![text(&words)]), Some(expected));
    let solid = "x".repeat(120);
    assert_eq!(p(vec![text(&solid)]), Some(format!("{}...", "x".repeat(100))));
    assert_eq!(last_assistant_preview(&Vec::new()), None);
}

#[test]
fn providers_are_found_by_id() {
    let ids = strings(&["a", "b", "b"]);
    assert_eq!(find_provider(&ids, "b"), Some(1));
    assert_eq!(find_provider(&ids, "z"), None);
    assert_eq!(text_of(unknown_provider("z")), (400, "Unknown provider: z".to_string()));
}

#[test]
fn logins_begin_by_their_method() {
    let s = auth_login(Ok(Some(AuthMethod::PasteCode { url: "u".to_string() }))).ok().unwrap();
    assert_eq!((s.response.method.as_str(), s.response.url.as_str()), ("paste_code", "u"));
    assert!(matches!(s.status, LoginStatus::AwaitingCode) && s.callback.is_none());
    let method = AuthMethod::TextInput { prompt: "p".to_string(), placeholder: "k".to_string() };
    let s = auth_login(Ok(Some(method))).ok().unwrap();
    assert_eq!(s.response.method, "text_input");
    assert_eq!(s.response.placeholder.as_deref(), Some("k"));
    let method = AuthMethod::LocalCallback {
        url: "u".to_string(),
        port: 99,
        path: "/cb".to_string(),
    };
    let s = auth_login(Ok(Some(method))).ok().unwrap();
    assert!(matches!(s.status, LoginStatus::AwaitingCallback));
    let callback = s.callback.unwrap();
    assert_eq!((callback.port, callback.path.as_str()), (99, "/cb"));
    let e = auth_login(Ok(None)).err().unwrap();
    assert_eq!(text_of(e), (400, "Provider does not support login".to_string()));
    let e = auth_login(Err("x".to_string())).err().unwrap();
    assert_eq!(text_of(e), (500, "begin_login failed: x".to_string()));
}

#[test]
fn login_status_is_reported_and_forgotten() {
    let r = auth_login_status(Some(&LoginStatus::AwaitingCode)).ok().unwrap();
    assert_eq!((r.status.as_str(), r.finished), ("awaiting_code", false));
    let r = auth_login_status(Some(&LoginStatus::AwaitingCallback)).ok().unwrap();
    assert_eq!((r.status.as_str(), r.finished), ("awaiting_callback", false));
    let r = auth_login_status(Some(&callback_finished(Ok(())))).ok().unwrap();
    assert_eq!((r.status.as_str(), r.finished), ("complete", true));
    let r = auth_login_status(Some(&callback_finished(Err("x".to_string())))).ok().unwrap();
    assert_eq!((r.status.as_str(), r.error.as_deref(), r.finished), ("failed", Some("x"), true));
    let e = auth_login_status(None).err().unwrap();
    assert_eq!(text_of(e), (404, "No login in progress".to_string()));
}

#[test]
fn logins_are_completed_and_ended() {
    let e = auth_complete(None).err().unwrap();
    assert_eq!(text_of(e), (400, "No login in progress for this provider".to_string()));
    assert!(auth_complete(Some(Ok(()))).is_ok());
    let e = auth_complete(Some(Err("x".to_string()))).err().unwrap();
    assert_eq!(text_of(e), (500, "complete_login failed: x".to_string()));
    assert!(auth_logout("p", Some(Ok(()))).is_ok());
    assert_eq!(text_of(auth_logout("p", None).err().unwrap()).1, "Unknown provider: p");
    let e = auth_logout("p", Some(Err("x".to_string()))).err().unwrap();
    assert_eq!(text_of(e), (400, "x".to_string()));
}

#[test]
fn browser_is_answered_once() {
    let r = callback_reply(true, true, Some("denied"), Some("c"));
    assert_eq!(r.learnt, Some(Err("denied".to_string())));
    assert_eq!(r.html, "<h1>Authorization failed</h1><p>You can close this window.</p>");
    assert_eq!(
        callback_reply(false, true, Some("d"), None).html,
        "<h1>Authorization failed</h1>"
    );
    let r = callback_reply(true, true, None, Some("c"));
    assert_eq!(r.learnt, Some(Ok("c".to_string())));
    assert!(r.html.starts_with("<h1>Login successful</h1>"));
    assert!(callback_reply(false, true, None, Some("c")).html.starts_with("<h1>Success</h1>"));
    let r = callback_reply(true, true, None, None);
    assert_eq!(r.learnt, Some(Err("No authorization code in callback".to_string())));
    let r = callback_reply(true, false, None, Some("c"));
    assert_eq!((r.learnt, r.html.as_str()), (None, "<h1>Unexpected request</h1>"));
}

#[test]
fn callback_errors_are_worded() {
    let err = |served: bool, end: CallbackEnd| callback_outcome(served, end).err().unwrap();
    let bound = || CallbackEnd::NotBound { port: 8080, error: "busy".to_string() };
    assert_eq!(err(true, bound()), "Failed to bind callback on port 8080: busy");
    assert_eq!(err(false, bound()), "Failed to bind OAuth callback on port 8080: busy");
    let broken = || CallbackEnd::ServerError("x".to_string());
    assert_eq!(err(true, broken()), "Callback server error: x");
    assert_eq!(err(false, broken()), "OAuth callback server error: x");
    assert_eq!(err(true, CallbackEnd::ServerStopped), "Callback server stopped unexpectedly");
    assert_eq!(err(false, CallbackEnd::ChannelClosed), "OAuth callback channel closed");
    assert_eq!(err(true, CallbackEnd::Learnt(Err("no".to_string()))), "OAuth error: no");
    assert_eq!(err(true, CallbackEnd::TimedOut), "OAuth callback timed out after 5 minutes");
    let ok = callback_outcome(true, CallbackEnd::Learnt(Ok("c".to_string())));
    assert_eq!(ok, Ok("c".to_string()));
    assert_eq!(login_disappeared(), "Login state disappeared");
}

#[test]
fn terminal_logins() {
    let ids = strings(&["a", "b"]);
    assert_eq!(choose_login("/login", &ids).ok(), Some(0));
    assert_eq!(choose_login("/login  b ", &ids).ok(), Some(1));
    let n = choose_login("/login zz", &ids).err().unwrap();
    assert_eq!((n.text.as_str(), n.tone), ("Unknown provider: zz", Tone::Bad));
    assert!(choose_login("/login", &Vec::new()).is_err());
    let l = begin_terminal_login(Ok(Some(AuthMethod::PasteCode { url: "u".to_string() })));
    assert_eq!(
        l.notice.text,
        "Visit this URL to authorize:\nu\n\nPaste-code login not yet supported in TUI. Use --mode print."
    );
    let method = AuthMethod::LocalCallback { url: "u".to_string(), port: 1, path: "/".to_string() };
    let l = begin_terminal_login(Ok(Some(method)));
    assert_eq!(l.notice.text, "Starting OAuth login...\nVisit: u");
    assert!(l.callback.is_some());
    let l = begin_terminal_login(Ok(None));
    assert_eq!((l.notice.text.as_str(), l.notice.tone),
        ("No login needed for this provider.", Tone::Plain));
    assert_eq!(begin_terminal_login(Err("x".to_string())).notice.text, "login error: x");
    assert_eq!(end_terminal_login(LoginEnd::Done).tone, Tone::Good);
    assert_eq!(end_terminal_login(LoginEnd::Failed("x".to_string())).text, "login failed: x");
    assert_eq!(
        end_terminal_login(LoginEnd::NotResolved("x".to_string())).text,
        "resolve error: x"
    );
}

#[test]
fn rpc_commands_are_dispatched() {
    let command = |kind: &str, data: &str| {
        rpc_step(Ok(RpcCommand { command_type: kind.to_string(), data: json(data) }))
    };
    let reply = |step: RpcStep| match step {
        RpcStep::Reply(v) => v,
        _ => panic!("expected a reply"),
    };
    assert!(matches!(command("prompt", "{\"message\":\"hi\"}"), RpcStep::Submit(m) if m == "hi"));
    assert!(matches!(command("follow_up", "{\"message\":\"x\"}"), RpcStep::Submit(_)));
    assert_eq!(
        reply(command("prompt", "{\"message\":\"\"}")),
        json("{\"type\":\"error\",\"message\":\"Missing 'message'\"}")
    );
    assert_eq!(
        reply(command("prompt", "{\"message\":3}")).get("message").unwrap(),
        "Missing 'message'"
    );
    assert!(matches!(command("abort", "{}"), RpcStep::Stop(v) if v
        == json("{\"type\":\"response\",\"command\":\"abort\",\"success\":true}")));
    assert_eq!(
        reply(command("jump", "{}")).get("message").unwrap(),
        "Unknown command: jump"
    );
    assert_eq!(
        reply(rpc_step(Err("bad".to_string()))).get("message").unwrap(),
        "Invalid JSON: bad"
    );
    assert_eq!(
        prompt_done(),
        json("{\"type\":\"response\",\"command\":\"prompt\",\"success\":true}")
    );
    let text = |f: RpcFailure| rpc_failure(f).get("message").unwrap().as_str().unwrap().to_string();
    let e = || "e".to_string();
    assert_eq!(text(RpcFailure::SessionsDir(e())), "Failed to find sessions dir: e");
    assert_eq!(text(RpcFailure::LoadSessions(e())), "Failed to load sessions: e");
    assert_eq!(text(RpcFailure::CreateSession(e())), "Failed to create session: e");
    assert_eq!(text(RpcFailure::WriteSystemMessage(e())), "Failed to write system message: e");
    assert_eq!(text(RpcFailure::Submit(e())), "Failed to submit: e");
}

#[test]
fn modes_are_chosen_by_name() {
    let p = || Some("p".to_string());
    assert!(matches!(choose_mode("print", "text", p()), Ok(Mode::Print { json: false, .. })));
    assert!(matches!(choose_mode("print", "json", p()), Ok(Mode::Print { json: true, .. })));
    assert!(matches!(choose_mode("json", "text", p()), Ok(Mode::Print { json: true, .. })));
    assert_eq!(
        choose_mode("print", "text", None).err().unwrap(),
        "Print mode requires --prompt (-p)"
    );
    assert!(matches!(choose_mode("rpc", "text", None), Ok(Mode::Rpc)));
    assert!(matches!(choose_mode("interactive", "text", None), Ok(Mode::Interactive)));
    assert_eq!(
        choose_mode("web", "text", None).err().unwrap(),
        "Unknown mode 'web'. Expected: interactive, print, json, rpc"
    );
}
