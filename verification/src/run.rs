//! The steps of an agent run: what each event leads to.
use crate::agent::{
    call_path, call_paths, calls_in, default_prompt, discovery_meta, discovery_text, extract_calls,
    extract_system_prompt, file_keys, has_text, make_request, system_prompt, turn_request, unseen,
    Action, ActionView, AgentRun, CallView, ContextFile, Event, EventView, Host, RunView, Setup,
    SetupView, Step, StepView, ToolCall,
};
use crate::events::{AgentEvent, AgentEventView, Stored, StoredView};
use crate::json::{boolean, group_members, json_of, object, string, Json};
use crate::model::{
    clone_opt_value, failure, thinking_name, thinking_to_str, BlockView, ContentBlock, Message,
    MessageView, Role, ToolOutput, ToolOutputView,
};
use crate::text::{contains_text, group_views, opt_view, views};
use vstd::prelude::*;

verus! {

// ---------------------------------------------------------------------------
// What is shown and stored
// ---------------------------------------------------------------------------

/// Whether somebody watches the run. Only such a run can be cancelled.
pub open spec fn watched(host: Host) -> bool {
    host == Host::Server || host == Host::Terminal
}

/// Showing an event, where somebody watches.
pub open spec fn shown(host: Host, event: AgentEventView) -> Seq<ActionView> {
    if watched(host) {
        seq![ActionView::Emit(event)]
    } else {
        Seq::empty()
    }
}

/// Taking a stored message into the conversation.
pub open spec fn taken(host: Host, message: StoredView) -> Seq<ActionView> {
    seq![ActionView::Push(message.id)] + shown(host, AgentEventView::MessageComplete(message))
}

/// What is noted with a response: the model and the time, the usage of a turn
/// that ran, the thinking level of a run in the server, and that it was a single
/// turn.
pub open spec fn reply_meta(setup: SetupView, ts: Seq<char>, usage: Option<Json>) -> Json {
    let base = map!["model"@ => Json::Text(setup.model), "ts"@ => Json::Text(ts)];
    let used = match usage {
        Some(u) => base.insert("usage"@, u),
        None => base,
    };
    let thought = if setup.host == Host::Server {
        used.insert("thinking"@, Json::Text(thinking_name(setup.thinking)))
    } else {
        used
    };
    Json::Object(
        if setup.host == Host::Single && usage is Some {
            thought.insert("turn"@, Json::Bool(true))
        } else {
            thought
        },
    )
}

/// The result of a call that was not made because the run was cancelled.
pub open spec fn cancelled_result(call: CallView) -> BlockView {
    BlockView::ToolResult { id: call.id, text: "Cancelled"@, is_error: true, details: None }
}

/// The result of a call.
pub open spec fn call_result(call: CallView, output: ToolOutputView) -> BlockView {
    BlockView::ToolResult {
        id: call.id,
        text: output.text,
        is_error: output.is_error,
        details: output.details,
    }
}

/// The output of a call of a tool that there is not.
pub open spec fn missing_tool(name: Seq<char>) -> ToolOutputView {
    failure("Tool '"@ + name + "' not found"@)
}

pub open spec fn tool_start(call: CallView) -> AgentEventView {
    AgentEventView::ToolStart { id: call.id, name: call.name }
}

pub open spec fn tool_end(call: CallView, output: ToolOutputView) -> AgentEventView {
    AgentEventView::ToolEnd {
        id: call.id,
        output: output.text,
        is_error: output.is_error,
        details: output.details,
    }
}

pub open spec fn save(
    role: Role,
    content: Seq<BlockView>,
    meta: Option<Json>,
) -> ActionView {
    ActionView::Save { role, content, meta }
}

// ---------------------------------------------------------------------------
// What each event leads to
// ---------------------------------------------------------------------------

/// A turn over the conversation as it is, unless the run has been cancelled.
pub open spec fn turn_over(
    setup: SetupView,
    prompt: Seq<char>,
    messages: Seq<MessageView>,
    cancelled: bool,
) -> (StepView, Seq<ActionView>) {
    if watched(setup.host) && cancelled {
        (StepView::Closing, seq![ActionView::Checkpoint])
    } else {
        (
            StepView::Starting,
            seq![ActionView::Start { request: turn_request(setup, prompt, messages) }],
        )
    }
}

/// The top of the loop: the conversation is loaded for another turn.
pub open spec fn another_turn() -> (StepView, Seq<ActionView>) {
    (StepView::Reloading, seq![ActionView::Load])
}

/// Whether context files are looked for before a tool runs.
pub open spec fn looks_first(host: Host) -> bool {
    host == Host::Terminal || host == Host::Background
}

/// The store failed in the middle of the run.
pub open spec fn store_failure(host: Host, error: Seq<char>) -> (StepView, Seq<ActionView>) {
    match host {
        Host::Server => (
            StepView::Failing { error },
            seq![save(Role::Assistant, seq![BlockView::Error { text: error }], None)],
        ),
        Host::Terminal => (
            StepView::Closing,
            seq![ActionView::Emit(AgentEventView::Error(error)), ActionView::Checkpoint],
        ),
        Host::Background => (StepView::FailClosing { error }, seq![ActionView::Checkpoint]),
        Host::Single => (StepView::Ended, seq![ActionView::End { error: Some(error) }]),
    }
}

/// The calls from `next` on: each is answered, in order. `looked` says that
/// context files have been looked for before call `next`.
pub open spec fn calls_from(
    setup: SetupView,
    calls: Seq<CallView>,
    next: nat,
    looked: bool,
    results: Seq<BlockView>,
    cancelled: bool,
) -> (StepView, Seq<ActionView>)
    decreases calls.len() - next,
{
    if next >= calls.len() {
        (StepView::SavingResults { calls }, seq![save(Role::User, results, None)])
    } else {
        let call = calls[next as int];
        if !looked && watched(setup.host) && cancelled {
            calls_from(
                setup,
                calls,
                next + 1,
                false,
                results.push(cancelled_result(call)),
                cancelled,
            )
        } else if !looked && looks_first(setup.host) && call_path(call) is Some {
            (
                StepView::Looking { calls, next, results },
                seq![ActionView::Discover { paths: seq![call_path(call)->0] }],
            )
        } else if setup.tools.contains(call.name) {
            (
                StepView::Running { calls, next, results },
                shown(setup.host, tool_start(call)).push(
                    ActionView::RunTool { id: call.id, name: call.name, input: call.input },
                ),
            )
        } else {
            let output = missing_tool(call.name);
            let rest = calls_from(
                setup,
                calls,
                next + 1,
                false,
                results.push(call_result(call, output)),
                cancelled,
            );
            (
                rest.0,
                shown(setup.host, tool_start(call)) + shown(setup.host, tool_end(call, output))
                    + rest.1,
            )
        }
    }
}

/// A turn that has been closed: its content with the error that broke its stream,
/// if any, is stored.
pub open spec fn reply(
    setup: SetupView,
    error: Option<Seq<char>>,
    content: Seq<BlockView>,
    usage: Json,
    ts: Seq<char>,
) -> (StepView, Seq<ActionView>) {
    let full = match error {
        Some(e) => content.push(BlockView::Error { text: e }),
        None => content,
    };
    (
        StepView::SavingReply {
            calls: if setup.host == Host::Single {
                Seq::empty()
            } else {
                calls_in(full)
            },
            has_text: has_text(full),
        },
        seq![save(Role::Assistant, full, Some(reply_meta(setup, ts, Some(usage))))],
    )
}

/// A response that has been stored: the run closes, or runs the tools it asks for.
pub open spec fn replied(
    setup: SetupView,
    calls: Seq<CallView>,
    has_text: bool,
    message: StoredView,
    cancelled: bool,
) -> (StepView, Seq<ActionView>) {
    let head = taken(setup.host, message) + if setup.host == Host::Server && has_text {
        seq![ActionView::Title]
    } else {
        Seq::empty()
    };
    let rest = if calls.len() == 0 {
        (StepView::Closing, seq![ActionView::Checkpoint])
    } else {
        calls_from(setup, calls, 0, false, Seq::empty(), cancelled)
    };
    (rest.0, head + rest.1)
}

/// Tool results that have been stored.
pub open spec fn answered(
    setup: SetupView,
    calls: Seq<CallView>,
    message: StoredView,
) -> (StepView, Seq<ActionView>) {
    let rest = if setup.host != Host::Server {
        another_turn()
    } else if call_paths(calls).len() == 0 {
        (StepView::Checkpointing, seq![ActionView::Checkpoint])
    } else {
        (StepView::Discovering, seq![ActionView::Discover { paths: call_paths(calls) }])
    };
    (rest.0, taken(setup.host, message) + rest.1)
}

/// Context files that were looked for after the tools ran.
pub open spec fn discovered(
    files: Seq<crate::agent::ContextFileView>,
    known: Seq<Seq<char>>,
) -> (StepView, Seq<ActionView>) {
    let fresh = unseen(files, known);
    if fresh.len() == 0 {
        (StepView::Checkpointing, seq![ActionView::Checkpoint])
    } else {
        (
            StepView::SavingContext,
            seq![
                save(
                    Role::User,
                    seq![BlockView::Text { text: discovery_text(fresh) }],
                    Some(discovery_meta(fresh)),
                ),
            ],
        )
    }
}

/// The final context could not be saved.
pub open spec fn close_failure(host: Host, error: Seq<char>) -> (StepView, Seq<ActionView>) {
    match host {
        Host::Terminal => (
            StepView::Ended,
            seq![
                ActionView::Emit(
                    AgentEventView::Error("failed to checkpoint session: "@ + error),
                ),
                ActionView::End { error: None },
            ],
        ),
        Host::Server => store_failure(host, error),
        _ => (StepView::Ended, seq![ActionView::End { error: Some(error) }]),
    }
}

/// The step that follows and what to do for it. An event that the run does not
/// wait for changes nothing.
pub open spec fn stepped(run: RunView, event: EventView, cancelled: bool, ts: Seq<char>) -> (
    StepView,
    Seq<ActionView>,
) {
    let setup = run.setup;
    let host = setup.host;
    match (run.step, event) {
        (StepView::Prompting, EventView::Saved(m)) => (
            StepView::Loading,
            if host == Host::Server {
                taken(host, m) + seq![ActionView::Title, ActionView::Load]
            } else {
                seq![ActionView::Push(m.id), ActionView::Load]
            },
        ),
        (StepView::Prompting, EventView::SaveFailed(e)) => if host == Host::Server {
            store_failure(host, e)
        } else {
            (StepView::Ended, seq![ActionView::End { error: Some(e) }])
        },
        (StepView::Loading, EventView::Loaded(messages)) => turn_over(
            setup,
            system_prompt(messages, default_prompt(setup)),
            messages,
            cancelled,
        ),
        (StepView::Reloading, EventView::Loaded(messages)) => turn_over(
            setup,
            run.prompt,
            messages,
            cancelled,
        ),
        (StepView::Starting, EventView::Started) => (StepView::Streaming, seq![ActionView::Next]),
        (StepView::Starting, EventView::StartFailed(e)) => (
            StepView::SavingFailure,
            shown(host, AgentEventView::Error(e)).push(
                save(
                    Role::Assistant,
                    seq![BlockView::Error { text: e }],
                    Some(reply_meta(setup, ts, None)),
                ),
            ),
        ),
        (StepView::SavingFailure, EventView::Saved(m)) => (
            StepView::Closing,
            taken(host, m).push(ActionView::Checkpoint),
        ),
        (StepView::SavingFailure, EventView::SaveFailed(e)) => store_failure(host, e),
        (StepView::Streaming, EventView::Item(e)) => if watched(host) && cancelled {
            (StepView::Finishing { broken: None }, seq![ActionView::Finish])
        } else {
            (
                StepView::Streaming,
                shown(host, AgentEventView::Stream(e)).push(ActionView::Next),
            )
        },
        (StepView::Streaming, EventView::ItemFailed(e)) => if host == Host::Single || (watched(
            host,
        ) && cancelled) {
            (StepView::Finishing { broken: None }, seq![ActionView::Finish])
        } else {
            (
                StepView::Finishing { broken: Some(e) },
                shown(host, AgentEventView::Error(e)).push(ActionView::Finish),
            )
        },
        (StepView::Streaming, EventView::ItemsEnded) => (
            StepView::Finishing { broken: None },
            seq![ActionView::Finish],
        ),
        (StepView::Finishing { broken }, EventView::Finished { content, usage }) => reply(
            setup,
            broken,
            content,
            usage,
            ts,
        ),
        (StepView::SavingReply { calls, has_text }, EventView::Saved(m)) => replied(
            setup,
            calls,
            has_text,
            m,
            cancelled,
        ),
        (StepView::SavingReply { .. }, EventView::SaveFailed(e)) => store_failure(host, e),
        (StepView::Looking { calls, next, results }, EventView::Found { files, .. }) => {
            let fresh = unseen(files, run.seen);
            calls_from(
                setup,
                calls,
                next,
                true,
                if fresh.len() == 0 {
                    results
                } else {
                    results.push(BlockView::Text { text: discovery_text(fresh) })
                },
                cancelled,
            )
        },
        (StepView::Running { calls, next, results }, EventView::ToolDone(out)) => if next
            < calls.len() {
            let rest = calls_from(
                setup,
                calls,
                next + 1,
                false,
                results.push(call_result(calls[next as int], out)),
                cancelled,
            );
            (rest.0, shown(host, tool_end(calls[next as int], out)) + rest.1)
        } else {
            (run.step, Seq::empty())
        },
        (StepView::SavingResults { calls }, EventView::Saved(m)) => answered(setup, calls, m),
        (StepView::SavingResults { .. }, EventView::SaveFailed(e)) => store_failure(host, e),
        (StepView::Discovering, EventView::Found { files, known }) => discovered(files, known),
        (StepView::SavingContext, EventView::Saved(m)) => (
            StepView::Checkpointing,
            taken(host, m).push(ActionView::Checkpoint),
        ),
        (StepView::SavingContext, EventView::SaveFailed(e)) => store_failure(host, e),
        (StepView::Checkpointing, EventView::Checkpointed) => another_turn(),
        (StepView::Checkpointing, EventView::CheckpointFailed(e)) => store_failure(host, e),
        (StepView::Closing, EventView::Checkpointed) => (
            StepView::Ended,
            if host == Host::Server {
                seq![
                    ActionView::Emit(AgentEventView::Done),
                    ActionView::End { error: None },
                ]
            } else {
                seq![ActionView::End { error: None }]
            },
        ),
        (StepView::Closing, EventView::CheckpointFailed(e)) => close_failure(host, e),
        (StepView::Failing { error }, EventView::Saved(m)) => (
            StepView::FailClosing { error },
            seq![ActionView::Push(m.id), ActionView::Checkpoint],
        ),
        (StepView::Failing { error }, EventView::SaveFailed(_)) => (
            StepView::FailClosing { error },
            seq![ActionView::Checkpoint],
        ),
        (StepView::FailClosing { error }, EventView::Checkpointed) => (
            StepView::Ended,
            shown(host, AgentEventView::Error(error)).push(ActionView::End { error: Some(error) }),
        ),
        (StepView::FailClosing { error }, EventView::CheckpointFailed(_)) => (
            StepView::Ended,
            shown(host, AgentEventView::Error(error)).push(ActionView::End { error: Some(error) }),
        ),
        _ => (run.step, Seq::empty()),
    }
}

/// The run after an event.
pub open spec fn advanced(run: RunView, event: EventView, cancelled: bool, ts: Seq<char>) -> (
    RunView,
    Seq<ActionView>,
) {
    let next = stepped(run, event, cancelled, ts);
    (
        RunView {
            prompt: match (run.step, event) {
                (StepView::Loading, EventView::Loaded(messages)) => system_prompt(
                    messages,
                    default_prompt(run.setup),
                ),
                _ => run.prompt,
            },
            seen: match (run.step, event) {
                (StepView::Looking { .. }, EventView::Found { files, .. }) => run.seen + file_keys(
                    unseen(files, run.seen),
                ),
                _ => run.seen,
            },
            step: next.0,
            ..run
        },
        next.1,
    )
}

// ---------------------------------------------------------------------------
// Starting
// ---------------------------------------------------------------------------

/// Start a run with a message of the user: the message is stored first.
pub fn submit(setup: Setup, seen: Vec<String>, text: &str) -> (r: (AgentRun, Vec<Action>))
    ensures
        r.0@ == (RunView {
            setup: setup@,
            seen: views(seen@),
            prompt: Seq::empty(),
            step: StepView::Prompting,
        }),
        views(r.1@) == seq![save(Role::User, seq![BlockView::Text { text: text@ }], None)],
{
    broadcast use group_views;

    let mut content: Vec<ContentBlock> = Vec::new();
    content.push(ContentBlock::Text { text: text.to_string() });
    let mut out: Vec<Action> = Vec::new();
    out.push(Action::Save { role: Role::User, content, meta: None });
    let prompt = String::new();
    proof {
        assert(views(content@) =~= seq![BlockView::Text { text: text@ }]);
        assert(views(out@) =~= seq![
            save(Role::User, seq![BlockView::Text { text: text@ }], None),
        ]);
    }
    (AgentRun { setup, seen, prompt, step: Step::Prompting }, out)
}

/// Start a run on the conversation as it is.
pub fn run(setup: Setup, seen: Vec<String>) -> (r: (AgentRun, Vec<Action>))
    ensures
        r.0@ == (RunView {
            setup: setup@,
            seen: views(seen@),
            prompt: Seq::empty(),
            step: StepView::Loading,
        }),
        views(r.1@) == seq![ActionView::Load],
{
    broadcast use group_views;

    let mut out: Vec<Action> = Vec::new();
    out.push(Action::Load);
    let prompt = String::new();
    assert(views(out@) =~= seq![ActionView::Load]);
    (AgentRun { setup, seen, prompt, step: Step::Loading }, out)
}

// ---------------------------------------------------------------------------
// Performing a step
// ---------------------------------------------------------------------------

fn is_watched(host: Host) -> (r: bool)
    ensures
        r == watched(host),
{
    host == Host::Server || host == Host::Terminal
}

fn show(out: &mut Vec<Action>, host: Host, event: AgentEvent)
    ensures
        views(final(out)@) == views(old(out)@) + shown(host, event@),
{
    broadcast use group_views;

    if is_watched(host) {
        out.push(Action::Emit(event));
    }
    assert(views(out@) =~= views(old(out)@) + shown(host, event@));
}

fn take_in(out: &mut Vec<Action>, host: Host, message: Stored)
    ensures
        views(final(out)@) == views(old(out)@) + taken(host, message@),
{
    broadcast use group_views;

    out.push(Action::Push(message.id.clone()));
    show(out, host, AgentEvent::MessageComplete(message));
    assert(views(out@) =~= views(old(out)@) + taken(host, message@));
}

fn save_message(
    out: &mut Vec<Action>,
    role: Role,
    content: Vec<ContentBlock>,
    meta: Option<serde_json::Value>,
)
    ensures
        views(final(out)@) == views(old(out)@).push(
            save(role, views(content@), crate::json::opt_json(meta)),
        ),
{
    broadcast use group_views;

    out.push(Action::Save { role, content, meta });
}

fn one_block(block: ContentBlock) -> (r: Vec<ContentBlock>)
    ensures
        views(r@) == seq![block@],
{
    broadcast use group_views;

    let mut r: Vec<ContentBlock> = Vec::new();
    r.push(block);
    assert(views(r@) =~= seq![block@]);
    r
}

fn make_meta(setup: &Setup, ts: &str, usage: Option<serde_json::Value>) -> (r: serde_json::Value)
    ensures
        json_of(r) == reply_meta(setup@, ts@, crate::json::opt_json(usage)),
{
    broadcast use group_members;

    let mut fields: Vec<(String, serde_json::Value)> = Vec::new();
    fields.push(("model".to_string(), string(setup.model.clone())));
    fields.push(("ts".to_string(), string(ts.to_string())));
    assert(crate::json::members(fields@) =~= map![
        "model"@ => Json::Text(setup@.model),
        "ts"@ => Json::Text(ts@),
    ]);
    let ran = usage.is_some();
    if let Some(u) = usage {
        fields.push(("usage".to_string(), u));
    }
    if setup.host == Host::Server {
        fields.push(("thinking".to_string(), string(thinking_to_str(setup.thinking).to_string())));
    }
    if setup.host == Host::Single && ran {
        fields.push(("turn".to_string(), boolean(true)));
    }
    object(fields)
}

fn start_turn(
    setup: &Setup,
    prompt: &String,
    messages: Vec<Message>,
    cancelled: bool,
    out: &mut Vec<Action>,
) -> (r: Step)
    ensures
        r@ == turn_over(setup@, prompt@, views(messages@), cancelled).0,
        views(final(out)@) == views(old(out)@) + turn_over(
            setup@,
            prompt@,
            views(messages@),
            cancelled,
        ).1,
{
    broadcast use group_views;

    let r = if is_watched(setup.host) && cancelled {
        out.push(Action::Checkpoint);
        Step::Closing
    } else {
        let request = make_request(setup, prompt.as_str(), messages);
        out.push(Action::Start { request });
        Step::Starting
    };
    assert(views(out@) =~= views(old(out)@) + turn_over(
        setup@,
        prompt@,
        views(messages@),
        cancelled,
    ).1);
    r
}

fn fail_store(host: Host, error: String, out: &mut Vec<Action>) -> (r: Step)
    ensures
        r@ == store_failure(host, error@).0,
        views(final(out)@) == views(old(out)@) + store_failure(host, error@).1,
{
    broadcast use group_views;

    let r = match host {
        Host::Server => {
            let content = one_block(ContentBlock::Error { text: error.clone() });
            save_message(out, Role::Assistant, content, None);
            Step::Failing { error }
        },
        Host::Terminal => {
            out.push(Action::Emit(AgentEvent::Error(error)));
            out.push(Action::Checkpoint);
            Step::Closing
        },
        Host::Background => {
            out.push(Action::Checkpoint);
            Step::FailClosing { error }
        },
        Host::Single => {
            out.push(Action::End { error: Some(error) });
            Step::Ended
        },
    };
    assert(views(out@) =~= views(old(out)@) + store_failure(host, error@).1);
    r
}

fn missing_tool_output(name: &str) -> (r: ToolOutput)
    ensures
        r@ == missing_tool(name@),
{
    let mut text = "Tool '".to_string();
    text.append(name);
    text.append("' not found");
    ToolOutput { text, is_error: true, details: None }
}

fn result_block(call: &ToolCall, output: ToolOutput) -> (r: ContentBlock)
    ensures
        r@ == call_result(call@, output@),
{
    ContentBlock::ToolResult {
        id: call.id.clone(),
        text: output.text,
        is_error: output.is_error,
        details: output.details,
    }
}

fn end_event(call: &ToolCall, output: &ToolOutput) -> (r: AgentEvent)
    ensures
        r@ == tool_end(call@, output@),
{
    AgentEvent::ToolEnd {
        id: call.id.clone(),
        output: output.text.clone(),
        is_error: output.is_error,
        details: clone_opt_value(&output.details),
    }
}

/// Answer the calls from `next` on, up to the first that has to be waited for.
#[verifier::loop_isolation(false)]
fn run_calls(
    setup: &Setup,
    calls: Vec<ToolCall>,
    next: usize,
    looked: bool,
    results: Vec<ContentBlock>,
    cancelled: bool,
    out: &mut Vec<Action>,
) -> (r: Step)
    ensures
        r@ == calls_from(
            setup@,
            views(calls@),
            next as nat,
            looked,
            views(results@),
            cancelled,
        ).0,
        views(final(out)@) == views(old(out)@) + calls_from(
            setup@,
            views(calls@),
            next as nat,
            looked,
            views(results@),
            cancelled,
        ).1,
{
    broadcast use group_views;

    let mut k: usize = next;
    let mut looked = looked;
    let mut results = results;
    let ghost all = views(calls@);
    let ghost whole = calls_from(setup@, all, k as nat, looked, views(results@), cancelled);
    let ghost start = views(out@);
    while k < calls.len()
        invariant
            whole.0 == calls_from(setup@, all, k as nat, looked, views(results@), cancelled).0,
            start + whole.1 == views(out@) + calls_from(
                setup@,
                all,
                k as nat,
                looked,
                views(results@),
                cancelled,
            ).1,
        decreases calls.len() - k,
    {
        let ghost before = views(out@);
        assert(all[k as int] == calls@[k as int]@);
        if !looked && is_watched(setup.host) && cancelled {
            results.push(
                ContentBlock::ToolResult {
                    id: calls[k].id.clone(),
                    text: "Cancelled".to_string(),
                    is_error: true,
                    details: None,
                },
            );
            k += 1;
            continue;
        }
        if !looked && (setup.host == Host::Terminal || setup.host == Host::Background) {
            if let Some(path) = crate::agent::path_of_call(
                calls[k].name.as_str(),
                &calls[k].input,
            ) {
                let mut paths: Vec<String> = Vec::new();
                paths.push(path);
                assert(views(paths@) =~= seq![call_path(all[k as int])->0]);
                out.push(Action::Discover { paths });
                assert(views(out@) =~= start + whole.1);
                return Step::Looking { calls, next: k, results };
            }
        }
        show(
            out,
            setup.host,
            AgentEvent::ToolStart { id: calls[k].id.clone(), name: calls[k].name.clone() },
        );
        let ghost started = views(out@);
        if contains_text(&setup.tools, calls[k].name.as_str()) {
            out.push(
                Action::RunTool {
                    id: calls[k].id.clone(),
                    name: calls[k].name.clone(),
                    input: calls[k].input.clone(),
                },
            );
            assert(views(out@) =~= start + whole.1);
            return Step::Running { calls, next: k, results };
        }
        let output = missing_tool_output(calls[k].name.as_str());
        show(out, setup.host, end_event(&calls[k], &output));
        let block = result_block(&calls[k], output);
        results.push(block);
        proof {
            let rest = calls_from(setup@, all, (k + 1) as nat, false, views(results@), cancelled);
            let call = all[k as int];
            let a = shown(setup@.host, tool_start(call));
            let b = shown(setup@.host, tool_end(call, missing_tool(call.name)));
            assert(before + (a + b + rest.1) =~= before + a + b + rest.1);
        }
        k += 1;
        looked = false;
    }
    let ghost before = views(out@);
    save_message(out, Role::User, results, None);
    assert(views(out@) =~= start + whole.1);
    Step::SavingResults { calls }
}

/// Close a turn that gave `content`: store it, with the error that broke the
/// stream.
fn store_reply(
    setup: &Setup,
    error: Option<String>,
    content: Vec<ContentBlock>,
    usage: serde_json::Value,
    ts: &str,
    out: &mut Vec<Action>,
) -> (r: Step)
    ensures
        r@ == reply(setup@, opt_view(error), views(content@), json_of(usage), ts@).0,
        views(final(out)@) == views(old(out)@) + reply(
            setup@,
            opt_view(error),
            views(content@),
            json_of(usage),
            ts@,
        ).1,
{
    broadcast use group_views;

    let mut full = content;
    if let Some(e) = error {
        full.push(ContentBlock::Error { text: e });
    }
    let calls: Vec<ToolCall> = if setup.host == Host::Single {
        Vec::new()
    } else {
        extract_calls(&full)
    };
    let text = crate::agent::contains_text_block(&full);
    let meta = make_meta(setup, ts, Some(usage));
    save_message(out, Role::Assistant, full, Some(meta));
    assert(views(out@) =~= views(old(out)@) + reply(
        setup@,
        opt_view(error),
        views(content@),
        json_of(usage),
        ts@,
    ).1);
    Step::SavingReply { calls, has_text: text }
}

/// Go on after a response has been stored.
fn after_reply(
    setup: &Setup,
    calls: Vec<ToolCall>,
    has_text: bool,
    message: Stored,
    cancelled: bool,
    out: &mut Vec<Action>,
) -> (r: Step)
    ensures
        r@ == replied(setup@, views(calls@), has_text, message@, cancelled).0,
        views(final(out)@) == views(old(out)@) + replied(
            setup@,
            views(calls@),
            has_text,
            message@,
            cancelled,
        ).1,
{
    broadcast use group_views;

    take_in(out, setup.host, message);
    if setup.host == Host::Server && has_text {
        out.push(Action::Title);
    }
    let results: Vec<ContentBlock> = Vec::new();
    let ghost all = views(calls@);
    let r = if calls.len() == 0 {
        out.push(Action::Checkpoint);
        Step::Closing
    } else {
        run_calls(setup, calls, 0, false, results, cancelled, out)
    };
    assert(views(out@) =~= views(old(out)@) + replied(
        setup@,
        all,
        has_text,
        message@,
        cancelled,
    ).1);
    r
}

/// Go on after the results of the tools have been stored.
fn after_results(
    setup: &Setup,
    calls: &Vec<ToolCall>,
    message: Stored,
    out: &mut Vec<Action>,
) -> (r: Step)
    ensures
        r@ == answered(setup@, views(calls@), message@).0,
        views(final(out)@) == views(old(out)@) + answered(setup@, views(calls@), message@).1,
{
    broadcast use group_views;

    take_in(out, setup.host, message);
    let r = if setup.host != Host::Server {
        out.push(Action::Load);
        Step::Reloading
    } else {
        let paths = crate::agent::paths_of_calls(calls);
        if paths.len() == 0 {
            out.push(Action::Checkpoint);
            Step::Checkpointing
        } else {
            out.push(Action::Discover { paths });
            Step::Discovering
        }
    };
    assert(views(out@) =~= views(old(out)@) + answered(setup@, views(calls@), message@).1);
    r
}

/// Go on after context files have been looked for.
fn after_discovery(
    files: &Vec<ContextFile>,
    known: Vec<String>,
    out: &mut Vec<Action>,
) -> (r: Step)
    ensures
        r@ == discovered(views(files@), views(known@)).0,
        views(final(out)@) == views(old(out)@) + discovered(views(files@), views(known@)).1,
{
    broadcast use group_views;

    let mut seen = known;
    let fresh = crate::agent::take_unseen(files, &mut seen);
    let r = if fresh.len() == 0 {
        out.push(Action::Checkpoint);
        Step::Checkpointing
    } else {
        let content = one_block(
            ContentBlock::Text { text: crate::agent::describe_files(&fresh) },
        );
        let paths = crate::agent::paths_to_remember(&fresh);
        let meta = crate::json::object_of_one(
            "agents_context",
            crate::json::array_of_texts(&paths),
        );
        save_message(out, Role::User, content, Some(meta));
        Step::SavingContext
    };
    assert(views(out@) =~= views(old(out)@) + discovered(views(files@), views(known@)).1);
    r
}

/// What an event leads to. `cancelled` says whether the run has been cancelled by
/// now, and `ts` is the time.
#[verifier::rlimit(60)]
pub fn advance(run: AgentRun, event: Event, cancelled: bool, ts: &str) -> (r: (
    AgentRun,
    Vec<Action>,
))
    ensures
        r.0@ == advanced(run@, event@, cancelled, ts@).0,
        views(r.1@) == advanced(run@, event@, cancelled, ts@).1,
{
    broadcast use group_views;

    let ghost expected = advanced(run@, event@, cancelled, ts@);
    let AgentRun { setup, seen, prompt, step } = run;
    let host = setup.host;
    let mut seen = seen;
    let mut prompt = prompt;
    let mut out: Vec<Action> = Vec::new();
    let step = match (step, event) {
        (Step::Prompting, Event::Saved(m)) => {
            if host == Host::Server {
                take_in(&mut out, host, m);
                out.push(Action::Title);
            } else {
                out.push(Action::Push(m.id));
            }
            out.push(Action::Load);
            Step::Loading
        },
        (Step::Prompting, Event::SaveFailed(e)) => {
            if host == Host::Server {
                fail_store(host, e, &mut out)
            } else {
                out.push(Action::End { error: Some(e) });
                Step::Ended
            }
        },
        (Step::Loading, Event::Loaded(messages)) => {
            prompt = if host == Host::Single {
                proof {
                    reveal_strlit("");
                }
                let r = extract_system_prompt(&messages, "");
                assert(""@ =~= Seq::<char>::empty());
                r
            } else {
                extract_system_prompt(&messages, setup.fallback.as_str())
            };
            start_turn(&setup, &prompt, messages, cancelled, &mut out)
        },
        (Step::Reloading, Event::Loaded(messages)) => {
            start_turn(&setup, &prompt, messages, cancelled, &mut out)
        },
        (Step::Starting, Event::Started) => {
            out.push(Action::Next);
            Step::Streaming
        },
        (Step::Starting, Event::StartFailed(e)) => {
            show(&mut out, host, AgentEvent::Error(e.clone()));
            let content = one_block(ContentBlock::Error { text: e });
            let meta = make_meta(&setup, ts, None);
            save_message(&mut out, Role::Assistant, content, Some(meta));
            Step::SavingFailure
        },
        (Step::SavingFailure, Event::Saved(m)) => {
            take_in(&mut out, host, m);
            out.push(Action::Checkpoint);
            Step::Closing
        },
        (Step::SavingFailure, Event::SaveFailed(e)) => fail_store(host, e, &mut out),
        (Step::Streaming, Event::Item(e)) => {
            if is_watched(host) && cancelled {
                out.push(Action::Finish);
                Step::Finishing { broken: None }
            } else {
                show(&mut out, host, AgentEvent::Stream(e));
                out.push(Action::Next);
                Step::Streaming
            }
        },
        (Step::Streaming, Event::ItemFailed(e)) => {
            if host == Host::Single || (is_watched(host) && cancelled) {
                out.push(Action::Finish);
                Step::Finishing { broken: None }
            } else {
                show(&mut out, host, AgentEvent::Error(e.clone()));
                out.push(Action::Finish);
                Step::Finishing { broken: Some(e) }
            }
        },
        (Step::Streaming, Event::ItemsEnded) => {
            out.push(Action::Finish);
            Step::Finishing { broken: None }
        },
        (Step::Finishing { broken }, Event::Finished { content, usage }) => {
            store_reply(&setup, broken, content, usage, ts, &mut out)
        },
        (Step::SavingReply { calls, has_text }, Event::Saved(m)) => {
            after_reply(&setup, calls, has_text, m, cancelled, &mut out)
        },
        (Step::SavingReply { .. }, Event::SaveFailed(e)) => fail_store(host, e, &mut out),
        (Step::Looking { calls, next, results }, Event::Found { files, .. }) => {
            let mut results = results;
            let fresh = crate::agent::take_unseen(&files, &mut seen);
            if fresh.len() > 0 {
                results.push(ContentBlock::Text { text: crate::agent::describe_files(&fresh) });
            }
            run_calls(&setup, calls, next, true, results, cancelled, &mut out)
        },
        (Step::Running { calls, next, results }, Event::ToolDone(output)) => {
            if next < calls.len() {
                let mut results = results;
                assert(views(calls@)[next as int] == calls@[next as int]@);
                show(&mut out, host, end_event(&calls[next], &output));
                let block = result_block(&calls[next], output);
                results.push(block);
                run_calls(&setup, calls, next + 1, false, results, cancelled, &mut out)
            } else {
                Step::Running { calls, next, results }
            }
        },
        (Step::SavingResults { calls }, Event::Saved(m)) => {
            after_results(&setup, &calls, m, &mut out)
        },
        (Step::SavingResults { .. }, Event::SaveFailed(e)) => fail_store(host, e, &mut out),
        (Step::Discovering, Event::Found { files, known }) => {
            after_discovery(&files, known, &mut out)
        },
        (Step::SavingContext, Event::Saved(m)) => {
            take_in(&mut out, host, m);
            out.push(Action::Checkpoint);
            Step::Checkpointing
        },
        (Step::SavingContext, Event::SaveFailed(e)) => fail_store(host, e, &mut out),
        (Step::Checkpointing, Event::Checkpointed) => {
            out.push(Action::Load);
            Step::Reloading
        },
        (Step::Checkpointing, Event::CheckpointFailed(e)) => fail_store(host, e, &mut out),
        (Step::Closing, Event::Checkpointed) => {
            if host == Host::Server {
                out.push(Action::Emit(AgentEvent::Done));
            }
            out.push(Action::End { error: None });
            Step::Ended
        },
        (Step::Closing, Event::CheckpointFailed(e)) => {
            if host == Host::Terminal {
                let text = "failed to checkpoint session: ".to_string().concat(e.as_str());
                out.push(Action::Emit(AgentEvent::Error(text)));
                out.push(Action::End { error: None });
                Step::Ended
            } else if host == Host::Server {
                fail_store(host, e, &mut out)
            } else {
                out.push(Action::End { error: Some(e) });
                Step::Ended
            }
        },
        (Step::Failing { error }, Event::Saved(m)) => {
            out.push(Action::Push(m.id));
            out.push(Action::Checkpoint);
            Step::FailClosing { error }
        },
        (Step::Failing { error }, Event::SaveFailed(_)) => {
            out.push(Action::Checkpoint);
            Step::FailClosing { error }
        },
        (Step::FailClosing { error }, Event::Checkpointed) => {
            show(&mut out, host, AgentEvent::Error(error.clone()));
            out.push(Action::End { error: Some(error) });
            Step::Ended
        },
        (Step::FailClosing { error }, Event::CheckpointFailed(_)) => {
            show(&mut out, host, AgentEvent::Error(error.clone()));
            out.push(Action::End { error: Some(error) });
            Step::Ended
        },
        (step, _) => step,
    };
    assert(views(out@) =~= expected.1);
    let next = AgentRun { setup, seen, prompt, step };
    assert(next@ =~= expected.0);
    (next, out)
}

/// What an event leads to now.
pub fn advance_now(run: AgentRun, event: Event, cancelled: bool) -> (r: (AgentRun, Vec<Action>))
    ensures
        exists|ts: Seq<char>|
            r.0@ == #[trigger] advanced(run@, event@, cancelled, ts).0 && views(r.1@) == advanced(
                run@,
                event@,
                cancelled,
                ts,
            ).1,
{
    let ts = crate::clock::timestamp();
    advance(run, event, cancelled, ts.as_str())
}

} // verus!
