//! Calls of the tools that write: what is done in which order, and what each call
//! is answered.
//!
//! A call is a machine. Its first step reads the call's input; every further step
//! takes what came of the last request and gives the next one. The last request of
//! a call is always [`Request::Answer`].
use crate::agent::Host;
use crate::json::json_of;
use crate::model::{failure, Role, ThinkingLevel, ToolOutput, ToolOutputView};
use crate::requests::{plan_session, setup_plan, SetupPlan, SetupPlanView};
use crate::text::{clone_opt_text, clone_texts, group_views, opt_view, views};
use crate::tools::{
    agent_started, append_output, append_request, appended_output, caller_not_found,
    context_missing, context_not_found, create_output, create_request, created_output,
    failure_output, failure_text, history_messages, history_of, run_request, started_output,
    turn_started, AppendRequest, ContextDraft, CreateRequest, History, RunRequest, ToolFailure,
};
use vstd::prelude::*;

verus! {

/// What a call asks for.
pub enum Request {
    /// Find the messages of a context.
    FindContext { id: String },
    /// Find the calling session, and the messages of a context where one is named.
    FindCaller { session: String, context: Option<String> },
    /// Resolve a model.
    ResolveModel { id: String },
    /// Find out whether there is a session.
    FindSession { id: String },
    /// Take up a session that there is, with a conversation.
    ExtendSession { id: String, messages: Vec<String> },
    /// Create a session for a conversation, under a name if there is one.
    CreateSession { name: Option<String>, messages: Vec<String> },
    /// Store a message.
    WriteMessage { session: String, role: Role, text: String },
    /// Store a message, and a context of `base` and that message whose parent is
    /// `parent`: both, or neither where one of them fails.
    Append { session: String, role: Role, text: String, base: Vec<String>, parent: Option<String> },
    /// Store a context.
    WriteContext { session: String, draft: ContextDraft },
    /// Start an agent, or a single turn, on a session.
    Launch {
        kind: RunKind,
        session: String,
        messages: Vec<String>,
        thinking: ThinkingLevel,
        max_tokens: Option<usize>,
    },
    /// Answer the call.
    Answer { output: ToolOutput },
}

/// What came of a request.
pub enum Reply {
    /// The messages of the context, where there is one.
    Context(Option<Vec<String>>),
    /// The calling session is there; these are the messages of the context.
    Caller(Option<Vec<String>>),
    /// The calling session is not there.
    NoCaller,
    ModelResolved,
    /// Whether the session is in memory, and then whether it has a run; and whether it
    /// is on disk.
    Session { running: Option<bool>, on_disk: bool },
    SessionExtended,
    /// A session was created under this id.
    SessionCreated(String),
    /// A message was stored under this id.
    MessageWritten(String),
    /// A message and a context were stored under these ids, the context with so many
    /// messages.
    Appended { message_id: String, context_id: String, count: usize },
    /// A context was stored under this id, with so many messages.
    ContextWritten { id: String, count: usize },
    Failed(ToolFailure),
}

/// Whether `request` answers with `output`.
pub open spec fn answers(request: Request, output: ToolOutputView) -> bool {
    request matches Request::Answer { output: out } && out@ == output
}

// ---------------------------------------------------------------------------
// runAgent and runTurn
// ---------------------------------------------------------------------------

/// Which of the two tools is called.
#[derive(Debug, Clone, Copy, PartialEq, Eq, Structural)]
pub enum RunKind {
    Agent,
    Turn,
}

/// Where a run of a tool takes place. In the server an agent runs as any other; in the
/// terminal it runs in a task of its own, and a single turn is no loop.
pub open spec fn host_of(kind: RunKind, served: bool) -> Host {
    match kind {
        RunKind::Turn => Host::Single,
        RunKind::Agent => if served {
            Host::Server
        } else {
            Host::Background
        },
    }
}

pub fn run_host(kind: RunKind, served: bool) -> (r: Host)
    ensures
        r == host_of(kind, served),
{
    match kind {
        RunKind::Turn => Host::Single,
        RunKind::Agent => {
            if served {
                Host::Server
            } else {
                Host::Background
            }
        },
    }
}

/// A call of `runAgent` or `runTurn`.
pub enum RunCall {
    /// The context to start from is being looked for.
    Finding { input: serde_json::Value, history: History },
    /// The model is being resolved.
    Resolving { request: RunRequest, messages: Vec<String> },
    /// The session is being looked for.
    Seeking { request: RunRequest, messages: Vec<String>, id: String },
    /// The session is being taken up, or created where it has no id yet.
    Opening { request: RunRequest, messages: Vec<String>, known: Option<String> },
    /// The user's prompt is being stored.
    Prompting { request: RunRequest, messages: Vec<String>, session: String },
    Over,
}

/// Whether `request` is the first of a call that starts from `messages`: the input
/// is read, and the model resolved.
pub open spec fn run_reads(
    call: RunCall,
    request: Request,
    input: crate::json::Json,
    messages: Seq<Seq<char>>,
    default_thinking: ThinkingLevel,
) -> bool {
    match input.text_member("model_id"@) {
        None => call is Over && answers(request, failure("missing 'model_id' parameter"@)),
        Some(model) => {
            &&& call matches RunCall::Resolving { request: req, messages: m }
            &&& views(m@) == messages
            &&& req.model_id@ == model
            &&& opt_view(req.user_prompt) == input.text_member("user_prompt"@)
            &&& opt_view(req.session_id) == input.text_member("session_id"@)
            &&& req.thinking == crate::requests::requested_thinking(
                crate::tools::thinking_param(input),
                default_thinking,
            )
            &&& req.max_tokens == crate::tools::max_tokens_param(input)
            &&& request matches Request::ResolveModel { id } && id@ == model
        },
    }
}

fn read_run(
    input: &serde_json::Value,
    messages: Vec<String>,
    default_thinking: ThinkingLevel,
) -> (r: (RunCall, Request))
    ensures
        run_reads(r.0, r.1, json_of(*input), views(messages@), default_thinking),
{
    match run_request(input, default_thinking) {
        Ok(request) => {
            let id = request.model_id.clone();
            (RunCall::Resolving { request, messages }, Request::ResolveModel { id })
        },
        Err(output) => (RunCall::Over, Request::Answer { output }),
    }
}

/// Begin a call. A context wins over a list of messages, and one of them has to be
/// there.
pub fn begin_run_call(input: serde_json::Value, default_thinking: ThinkingLevel) -> (r: (
    RunCall,
    Request,
))
    ensures
        match json_of(input).text_member("context_id"@) {
            Some(id) => {
                &&& r.0 matches RunCall::Finding { input: kept, history: History::Context {
                    id: wanted,
                } } && kept == input && wanted@ == id
                &&& r.1 matches Request::FindContext { id: asked } && asked@ == id
            },
            None => match json_of(input).array_member("message_ids"@) {
                Some(items) => run_reads(
                    r.0,
                    r.1,
                    json_of(input),
                    crate::json::texts_in(items),
                    default_thinking,
                ),
                None => r.0 is Over && answers(
                    r.1,
                    failure("either 'context_id' or 'message_ids' is required"@),
                ),
            },
        },
{
    match history_of(&input) {
        Ok(History::Context { id }) => {
            let asked = id.clone();
            (
                RunCall::Finding { input, history: History::Context { id } },
                Request::FindContext { id: asked },
            )
        },
        Ok(History::Messages { ids }) => read_run(&input, ids, default_thinking),
        Err(output) => (RunCall::Over, Request::Answer { output }),
    }
}

/// What a call is answered once its run has started.
pub open spec fn launch_output(kind: RunKind, session: Seq<char>) -> ToolOutputView {
    match kind {
        RunKind::Agent => started_output("Agent loop"@, session),
        RunKind::Turn => started_output("Single turn"@, session),
    }
}

/// Whether the requests start the run and answer the call.
pub open spec fn launches(
    call: RunCall,
    requests: Seq<Request>,
    kind: RunKind,
    session: Seq<char>,
    messages: Seq<Seq<char>>,
    request: RunRequest,
) -> bool {
    &&& call is Over
    &&& requests.len() == 2
    &&& requests[0] matches Request::Launch {
        kind: k,
        session: s,
        messages: m,
        thinking,
        max_tokens,
    } && k == kind && s@ == session && views(m@) == messages && thinking == request.thinking
        && max_tokens == request.max_tokens
    &&& answers(requests[1], launch_output(kind, session))
}

/// Whether the call ends with a failure.
pub open spec fn run_fails(call: RunCall, requests: Seq<Request>, failed: ToolFailure) -> bool {
    &&& call is Over
    &&& requests.len() == 1
    &&& answers(requests[0], failure(failure_text(failed)))
}

fn launch(kind: RunKind, session: String, messages: Vec<String>, request: &RunRequest) -> (r: (
    RunCall,
    Vec<Request>,
))
    ensures
        launches(r.0, r.1@, kind, session@, views(messages@), *request),
{
    let output = match kind {
        RunKind::Agent => agent_started(session.as_str()),
        RunKind::Turn => turn_started(session.as_str()),
    };
    let mut requests: Vec<Request> = Vec::new();
    requests.push(
        Request::Launch {
            kind,
            session,
            messages,
            thinking: request.thinking,
            max_tokens: request.max_tokens,
        },
    );
    requests.push(Request::Answer { output });
    (RunCall::Over, requests)
}

fn one_request(request: Request) -> (r: Vec<Request>)
    ensures
        r@ == seq![request],
{
    let mut r: Vec<Request> = Vec::new();
    r.push(request);
    r
}

/// Whether the requests create a session.
pub open spec fn creates(
    call: RunCall,
    requests: Seq<Request>,
    request: RunRequest,
    messages: Seq<Seq<char>>,
    name: Option<Seq<char>>,
) -> bool {
    &&& call matches RunCall::Opening { request: req, messages: m, known } && req == request && views(
        m@,
    ) == messages && known is None
    &&& requests.len() == 1
    &&& requests[0] matches Request::CreateSession { name: n, messages: m } && opt_view(n) == name
        && views(m@) == messages
}

/// Whether the requests take up the session with an id.
pub open spec fn extends(
    call: RunCall,
    requests: Seq<Request>,
    request: RunRequest,
    messages: Seq<Seq<char>>,
    id: Seq<char>,
) -> bool {
    &&& call matches RunCall::Opening { request: req, messages: m, known } && req == request
        && views(m@) == messages && opt_view(known) == Some(id)
    &&& requests.len() == 1
    &&& requests[0] matches Request::ExtendSession { id: asked, messages: m } && asked@ == id
        && views(m@) == messages
}

/// Whether the call goes on with its session: the user's prompt is stored, if there is
/// one, and the run starts.
pub open spec fn goes_on(
    call: RunCall,
    requests: Seq<Request>,
    kind: RunKind,
    request: RunRequest,
    messages: Seq<Seq<char>>,
    session: Seq<char>,
) -> bool {
    match request.user_prompt {
        Some(text) => {
            &&& call matches RunCall::Prompting { request: req, messages: m, session: s } && req
                == request && views(m@) == messages && s@ == session
            &&& requests.len() == 1
            &&& requests[0] matches Request::WriteMessage { session: s, role, text: t } && s@
                == session && role == Role::User && t@ == text@
        },
        None => launches(call, requests, kind, session, messages, request),
    }
}

/// Whether a step of a call is right: a reply to the request at hand leads on, a
/// failure ends the call with an error, and any other reply changes nothing.
pub open spec fn run_call_step(
    kind: RunKind,
    default_thinking: ThinkingLevel,
    call: RunCall,
    reply: Reply,
    next: RunCall,
    requests: Seq<Request>,
) -> bool {
    match (call, reply) {
        (RunCall::Finding { input, history }, Reply::Context(found)) => match history {
            History::Messages { ids } => requests.len() == 1 && run_reads(
                next,
                requests[0],
                json_of(input),
                views(ids@),
                default_thinking,
            ),
            History::Context { id } => match found {
                Some(ids) => requests.len() == 1 && run_reads(
                    next,
                    requests[0],
                    json_of(input),
                    views(ids@),
                    default_thinking,
                ),
                None => next is Over && requests.len() == 1 && answers(
                    requests[0],
                    context_missing(id@),
                ),
            },
        },
        (RunCall::Resolving { request, messages }, Reply::ModelResolved) => match request.session_id {
            Some(wanted) => {
                &&& next matches RunCall::Seeking { request: req, messages: m, id } && req
                    == request && views(m@) == views(messages@) && id@ == wanted@
                &&& requests.len() == 1
                &&& requests[0] matches Request::FindSession { id } && id@ == wanted@
            },
            None => creates(next, requests, request, views(messages@), None),
        },
        (RunCall::Seeking { request, messages, id }, Reply::Session { running, on_disk }) => {
            match setup_plan(Some(id@), running, on_disk) {
                SetupPlanView::Busy { error } => next is Over && requests.len() == 1 && answers(
                    requests[0],
                    failure("session setup failed: "@ + error),
                ),
                SetupPlanView::Create { name } => creates(
                    next,
                    requests,
                    request,
                    views(messages@),
                    name,
                ),
                _ => extends(next, requests, request, views(messages@), id@),
            }
        },
        (RunCall::Opening { request, messages, known }, Reply::SessionCreated(session)) => match known {
            None => goes_on(next, requests, kind, request, views(messages@), session@),
            Some(_) => next == call && requests.len() == 0,
        },
        (RunCall::Opening { request, messages, known }, Reply::SessionExtended) => match known {
            Some(session) => goes_on(next, requests, kind, request, views(messages@), session@),
            None => next == call && requests.len() == 0,
        },
        (RunCall::Prompting { request, messages, session }, Reply::MessageWritten(id)) => launches(
            next,
            requests,
            kind,
            session@,
            views(messages@).push(id@),
            request,
        ),
        (RunCall::Over, _) => next is Over && requests.len() == 0,
        (_, Reply::Failed(failed)) => run_fails(next, requests, failed),
        _ => next == call && requests.len() == 0,
    }
}

fn create(request: RunRequest, messages: Vec<String>, name: Option<String>) -> (r: (
    RunCall,
    Vec<Request>,
))
    ensures
        creates(r.0, r.1@, request, views(messages@), opt_view(name)),
{
    let copy = clone_texts(&messages);
    (
        RunCall::Opening { request, messages, known: None },
        one_request(Request::CreateSession { name, messages: copy }),
    )
}

fn go_on(kind: RunKind, request: RunRequest, messages: Vec<String>, session: String) -> (r: (
    RunCall,
    Vec<Request>,
))
    ensures
        goes_on(r.0, r.1@, kind, request, views(messages@), session@),
{
    match clone_opt_text(&request.user_prompt) {
        Some(text) => {
            let target = session.clone();
            (
                RunCall::Prompting { request, messages, session },
                one_request(Request::WriteMessage { session: target, role: Role::User, text }),
            )
        },
        None => launch(kind, session, messages, &request),
    }
}

/// Take a call one step further.
pub fn advance_run_call(
    kind: RunKind,
    default_thinking: ThinkingLevel,
    call: RunCall,
    reply: Reply,
) -> (r: (RunCall, Vec<Request>))
    ensures
        run_call_step(kind, default_thinking, call, reply, r.0, r.1@),
{
    broadcast use group_views;

    match (call, reply) {
        (RunCall::Finding { input, history }, Reply::Context(found)) => {
            match history_messages(history, found) {
                Ok(ids) => {
                    let (next, request) = read_run(&input, ids, default_thinking);
                    (next, one_request(request))
                },
                Err(output) => (RunCall::Over, one_request(Request::Answer { output })),
            }
        },
        (RunCall::Resolving { request, messages }, Reply::ModelResolved) => {
            match clone_opt_text(&request.session_id) {
                Some(id) => {
                    let asked = id.clone();
                    (
                        RunCall::Seeking { request, messages, id },
                        one_request(Request::FindSession { id: asked }),
                    )
                },
                None => create(request, messages, None),
            }
        },
        (RunCall::Seeking { request, messages, id }, Reply::Session { running, on_disk }) => {
            let wanted = Some(id.clone());
            match plan_session(&wanted, running, on_disk) {
                SetupPlan::Busy { error } => {
                    let output = failure_output(ToolFailure::SetUpSession(error));
                    (RunCall::Over, one_request(Request::Answer { output }))
                },
                SetupPlan::Create { name } => create(request, messages, name),
                _ => {
                    let asked = id.clone();
                    let copy = clone_texts(&messages);
                    (
                        RunCall::Opening { request, messages, known: Some(id) },
                        one_request(Request::ExtendSession { id: asked, messages: copy }),
                    )
                },
            }
        },
        (RunCall::Opening { request, messages, known }, Reply::SessionCreated(session)) => {
            match known {
                None => go_on(kind, request, messages, session),
                Some(_) => (RunCall::Opening { request, messages, known }, Vec::new()),
            }
        },
        (RunCall::Opening { request, messages, known }, Reply::SessionExtended) => {
            match known {
                Some(session) => go_on(kind, request, messages, session),
                None => (RunCall::Opening { request, messages, known }, Vec::new()),
            }
        },
        (RunCall::Prompting { request, messages, session }, Reply::MessageWritten(id)) => {
            let mut messages = messages;
            messages.push(id);
            launch(kind, session, messages, &request)
        },
        (RunCall::Over, _) => (RunCall::Over, Vec::new()),
        (_, Reply::Failed(failed)) => {
            (RunCall::Over, one_request(Request::Answer { output: failure_output(failed) }))
        },
        (call, _) => (call, Vec::new()),
    }
}

// ---------------------------------------------------------------------------
// appendMessage
// ---------------------------------------------------------------------------

/// A call of `appendMessage`.
pub enum AppendCall {
    /// The caller, and the context to append to, are being looked for.
    Finding { request: AppendRequest },
    /// The message and the context are being stored.
    Writing,
    Over,
}

/// Begin a call.
pub fn begin_append_call(input: &serde_json::Value, caller: &Option<String>) -> (r: (
    AppendCall,
    Request,
))
    ensures
        match crate::tools::append_error(json_of(*input), opt_view(*caller)) {
            Some(error) => r.0 is Over && answers(r.1, failure(error)),
            None => {
                &&& r.0 matches AppendCall::Finding { request } && Some(request.role)
                    == crate::tools::role_param(json_of(*input)) && Some(request.content@)
                    == json_of(*input).text_member("content"@) && opt_view(request.context_id)
                    == json_of(*input).text_member("context_id"@) && Some(request.session_id@)
                    == opt_view(*caller)
                &&& r.1 matches Request::FindCaller { session, context } && Some(session@)
                    == opt_view(*caller) && opt_view(context) == json_of(*input).text_member(
                    "context_id"@,
                )
            },
        },
{
    match append_request(input, caller) {
        Ok(request) => {
            let session = request.session_id.clone();
            let context = clone_opt_text(&request.context_id);
            (AppendCall::Finding { request }, Request::FindCaller { session, context })
        },
        Err(output) => (AppendCall::Over, Request::Answer { output }),
    }
}

/// Whether a step of a call is right: once what the message is appended to is known, the
/// message and the context that holds both are stored as one.
pub open spec fn append_call_step(
    call: AppendCall,
    reply: Reply,
    next: AppendCall,
    request: Option<Request>,
) -> bool {
    match (call, reply) {
        (AppendCall::Finding { request: req }, Reply::Caller(found)) => match (
            req.context_id,
            found,
        ) {
            (Some(id), None) => next is Over && request is Some && answers(
                request->0,
                context_missing(id@),
            ),
            _ => {
                &&& next is Writing
                &&& request is Some
                &&& request->0 matches Request::Append { session, role, text, base, parent }
                    && session@ == req.session_id@ && role == req.role && text@ == req.content@
                    && opt_view(parent) == opt_view(req.context_id) && views(base@) == (match (
                    req.context_id,
                    found,
                ) {
                    (Some(_), Some(ids)) => views(ids@),
                    _ => Seq::empty(),
                })
            },
        },
        (AppendCall::Finding { request: req }, Reply::NoCaller) => next is Over && request is Some
            && answers(
            request->0,
            failure("calling session "@ + "'"@ + req.session_id@ + "'"@ + " not found in memory"@),
        ),
        (AppendCall::Writing, Reply::Appended { message_id, context_id, count }) => next is Over
            && request is Some && answers(
            request->0,
            appended_output(message_id@, context_id@, count as nat),
        ),
        (AppendCall::Over, _) => next is Over && request is None,
        (_, Reply::Failed(failed)) => next is Over && request is Some && answers(
            request->0,
            failure(failure_text(failed)),
        ),
        _ => next == call && request is None,
    }
}

/// Take a call one step further.
pub fn advance_append_call(call: AppendCall, reply: Reply) -> (r: (AppendCall, Option<Request>))
    ensures
        append_call_step(call, reply, r.0, r.1),
{
    broadcast use group_views;

    match (call, reply) {
        (AppendCall::Finding { request }, Reply::Caller(found)) => {
            let base: Vec<String> = match (&request.context_id, found) {
                (Some(id), None) => {
                    return (
                        AppendCall::Over,
                        Some(Request::Answer { output: context_not_found(id.as_str()) }),
                    );
                },
                (Some(_), Some(ids)) => ids,
                (None, _) => Vec::new(),
            };
            let AppendRequest { role, content, context_id, session_id } = request;
            (
                AppendCall::Writing,
                Some(
                    Request::Append {
                        session: session_id,
                        role,
                        text: content,
                        base,
                        parent: context_id,
                    },
                ),
            )
        },
        (AppendCall::Finding { request }, Reply::NoCaller) => (
            AppendCall::Over,
            Some(Request::Answer { output: caller_not_found(request.session_id.as_str()) }),
        ),
        (AppendCall::Writing, Reply::Appended { message_id, context_id, count }) => (
            AppendCall::Over,
            Some(
                Request::Answer {
                    output: append_output(message_id.as_str(), context_id.as_str(), count),
                },
            ),
        ),
        (AppendCall::Over, _) => (AppendCall::Over, None),
        (_, Reply::Failed(failed)) => (
            AppendCall::Over,
            Some(Request::Answer { output: failure_output(failed) }),
        ),
        (call, _) => (call, None),
    }
}

// ---------------------------------------------------------------------------
// createContext
// ---------------------------------------------------------------------------

/// A call of `createContext`.
pub enum CreateCall {
    /// The caller is being looked for.
    Finding { request: CreateRequest },
    /// The context is being stored.
    Writing,
    Over,
}

/// The first thing that is wrong with a call of `createContext`.
pub open spec fn create_error(input: crate::json::Json, caller: Option<Seq<char>>) -> Option<
    Seq<char>,
> {
    if input.array_member("message_ids"@) is None {
        Some("missing 'message_ids' parameter"@)
    } else if caller is None {
        Some("no calling session -- createContext requires a session context"@)
    } else {
        None
    }
}

/// Begin a call.
pub fn begin_create_call(input: &serde_json::Value, caller: &Option<String>) -> (r: (
    CreateCall,
    Request,
))
    ensures
        match create_error(json_of(*input), opt_view(*caller)) {
            Some(error) => r.0 is Over && answers(r.1, failure(error)),
            None => {
                &&& r.0 matches CreateCall::Finding { request } && views(request.draft.messages@)
                    == crate::json::texts_in(json_of(*input).array_member("message_ids"@)->0)
                    && views(request.draft.parents@) == crate::tools::parents_param(json_of(*input))
                    && Some(request.session_id@) == opt_view(*caller)
                &&& r.1 matches Request::FindCaller { session, context } && Some(session@)
                    == opt_view(*caller) && context is None
            },
        },
{
    match create_request(input, caller) {
        Ok(request) => {
            let session = request.session_id.clone();
            (CreateCall::Finding { request }, Request::FindCaller { session, context: None })
        },
        Err(output) => (CreateCall::Over, Request::Answer { output }),
    }
}

/// Whether a step of a call is right.
pub open spec fn create_call_step(
    call: CreateCall,
    reply: Reply,
    next: CreateCall,
    request: Option<Request>,
) -> bool {
    match (call, reply) {
        (CreateCall::Finding { request: req }, Reply::Caller(_)) => {
            &&& next is Writing
            &&& request == Some(
                Request::WriteContext { session: req.session_id, draft: req.draft },
            )
        },
        (CreateCall::Finding { request: req }, Reply::NoCaller) => next is Over && request is Some
            && answers(
            request->0,
            failure("calling session "@ + "'"@ + req.session_id@ + "'"@ + " not found in memory"@),
        ),
        (CreateCall::Writing, Reply::ContextWritten { id, count }) => next is Over
            && request is Some && answers(request->0, created_output(id@, count as nat)),
        (CreateCall::Over, _) => next is Over && request is None,
        (_, Reply::Failed(failed)) => next is Over && request is Some && answers(
            request->0,
            failure(failure_text(failed)),
        ),
        _ => next == call && request is None,
    }
}

/// Take a call one step further.
pub fn advance_create_call(call: CreateCall, reply: Reply) -> (r: (CreateCall, Option<Request>))
    ensures
        create_call_step(call, reply, r.0, r.1),
{
    match (call, reply) {
        (CreateCall::Finding { request }, Reply::Caller(_)) => {
            let CreateRequest { draft, session_id } = request;
            (CreateCall::Writing, Some(Request::WriteContext { session: session_id, draft }))
        },
        (CreateCall::Finding { request }, Reply::NoCaller) => (
            CreateCall::Over,
            Some(Request::Answer { output: caller_not_found(request.session_id.as_str()) }),
        ),
        (CreateCall::Writing, Reply::ContextWritten { id, count }) => (
            CreateCall::Over,
            Some(Request::Answer { output: create_output(id.as_str(), count) }),
        ),
        (CreateCall::Over, _) => (CreateCall::Over, None),
        (_, Reply::Failed(failed)) => (
            CreateCall::Over,
            Some(Request::Answer { output: failure_output(failed) }),
        ),
        (call, _) => (call, None),
    }
}

// ---------------------------------------------------------------------------
// Laws
// ---------------------------------------------------------------------------

/// Whether a request writes to the store or starts a run.
pub open spec fn has_effect(request: Request) -> bool {
    match request {
        Request::ExtendSession { .. } => true,
        Request::CreateSession { .. } => true,
        Request::WriteMessage { .. } => true,
        Request::Append { .. } => true,
        Request::WriteContext { .. } => true,
        Request::Launch { .. } => true,
        _ => false,
    }
}

/// A call of a run tool is answered exactly when it is over, and a failure that it
/// meets sets nothing more to work.
pub proof fn law_run_calls_are_answered(
    kind: RunKind,
    default_thinking: ThinkingLevel,
    call: RunCall,
    reply: Reply,
    next: RunCall,
    requests: Seq<Request>,
)
    requires
        run_call_step(kind, default_thinking, call, reply, next, requests),
        !(call is Over),
    ensures
        next is Over <==> (requests.len() > 0 && requests.last() is Answer),
        reply is Failed ==> forall|i: int|
            0 <= i < requests.len() ==> !has_effect(#[trigger] requests[i]),
{
}

/// A run that names a session that there is extends it: no session is created, and the
/// run starts on that session and is answered with its id.
pub proof fn law_existing_sessions_are_extended(
    kind: RunKind,
    default_thinking: ThinkingLevel,
    request: RunRequest,
    messages: Vec<String>,
    id: String,
    running: Option<bool>,
    on_disk: bool,
    next: RunCall,
    requests: Seq<Request>,
)
    requires
        running == Some(false) || (running is None && on_disk),
        run_call_step(
            kind,
            default_thinking,
            RunCall::Seeking { request, messages, id },
            Reply::Session { running, on_disk },
            next,
            requests,
        ),
    ensures
        extends(next, requests, request, views(messages@), id@),
        forall|i: int| 0 <= i < requests.len() ==> !(#[trigger] requests[i] is CreateSession),
        forall|last: RunCall, more: Seq<Request>| #[trigger]
            run_call_step(kind, default_thinking, next, Reply::SessionExtended, last, more)
                ==> goes_on(last, more, kind, request, views(messages@), id@),
{
}

/// Whether a request answers the call, with an error or without.
pub open spec fn answered_with(request: Option<Request>, is_error: bool) -> bool {
    request matches Some(Request::Answer { output }) && output.is_error == is_error
}

/// Appending is one step: in a call at most one request writes, a call that fails has
/// written nothing more, and a call is answered without an error only when both the
/// message and the context are there.
pub proof fn law_append_is_one_step(
    call: AppendCall,
    reply: Reply,
    next: AppendCall,
    request: Option<Request>,
)
    requires
        append_call_step(call, reply, next, request),
    ensures
        request is Some && has_effect(request->0) ==> call is Finding && next is Writing
            && request->0 is Append,
        call is Writing && !(next is Writing) ==> next is Over && answered_with(
            request,
            !(reply is Appended),
        ),
        reply is Failed && !(call is Over) ==> next is Over && answered_with(request, true),
{
}

/// A message is appended behind everything it is appended to, and the context it
/// came from stays reachable as the parent.
pub proof fn law_append_keeps_history(
    request: AppendRequest,
    found: Option<Vec<String>>,
    next: AppendCall,
    made: Option<Request>,
    message_id: Seq<char>,
    draft: ContextDraft,
)
    requires
        append_call_step(AppendCall::Finding { request }, Reply::Caller(found), next, made),
        next is Writing,
        made matches Some(Request::Append { base, parent, .. }) && views(draft.messages@) == views(
            base@,
        ).push(message_id) && views(draft.parents@) == (match parent {
            Some(id) => seq![id@],
            None => Seq::empty(),
        }),
    ensures
        views(draft.messages@).last() == message_id,
        request.context_id matches Some(parent) ==> {
            &&& found is Some
            &&& views(found->0@).is_prefix_of(views(draft.messages@))
            &&& views(draft.parents@).contains(parent@)
        },
{
    if let Some(parent) = request.context_id {
        assert(views(draft.parents@)[0] == parent@);
    }
}

} // verus!
