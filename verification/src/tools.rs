//! The tools by which an agent works on the context graph and starts other agents.
//!
//! Each tool goes through phases. A phase takes what the one before it gave and
//! either goes on or ends the call with an output.
use crate::graph::{describe_graph, graph_text, GRAPH_DEPTH};
use crate::json::{
    json_of, lenient_unsigned, member, object_of_one, object_of_two, owned_text_member, string,
    text_array_member, text_member, texts_in, unsigned_of, Json,
};
use crate::model::{
    err, failure, parse_role, role_named, Context, ContextView, Pool, PoolView, Role, ThinkingLevel,
    ToolOutput, ToolOutputView,
};
use crate::requests::{choose_thinking, requested_thinking};
use crate::text::{clone_texts, decimal, group_views, number_text, opt_text, opt_view, views};
use vstd::prelude::*;

verus! {

// ---------------------------------------------------------------------------
// Failures
// ---------------------------------------------------------------------------

/// Something that a tool could not do. Each carries the error that it met.
pub enum ToolFailure {
    LoadStore(String),
    LoadSessions(String),
    ResolveModel(String),
    CreateSession(String),
    SetUpSession(String),
    WriteUserMessage(String),
    WriteMessage(String),
    WriteContext(String),
}

pub open spec fn failure_text(failed: ToolFailure) -> Seq<char> {
    match failed {
        ToolFailure::LoadStore(e) => "failed to load store: "@ + e@,
        ToolFailure::LoadSessions(e) => "failed to load sessions: "@ + e@,
        ToolFailure::ResolveModel(e) => "model resolution failed: "@ + e@,
        ToolFailure::CreateSession(e) => "failed to create session: "@ + e@,
        ToolFailure::SetUpSession(e) => "session setup failed: "@ + e@,
        ToolFailure::WriteUserMessage(e) => "failed to write user message: "@ + e@,
        ToolFailure::WriteMessage(e) => "failed to write message: "@ + e@,
        ToolFailure::WriteContext(e) => "failed to write context: "@ + e@,
    }
}

fn prefixed(prefix: &str, text: &str) -> (r: ToolOutput)
    ensures
        r@ == failure(prefix@ + text@),
{
    let text = prefix.to_string().concat(text);
    err(text.as_str())
}

pub fn failure_output(failed: ToolFailure) -> (r: ToolOutput)
    ensures
        r@ == failure(failure_text(failed)),
{
    match failed {
        ToolFailure::LoadStore(e) => prefixed("failed to load store: ", e.as_str()),
        ToolFailure::LoadSessions(e) => prefixed("failed to load sessions: ", e.as_str()),
        ToolFailure::ResolveModel(e) => prefixed("model resolution failed: ", e.as_str()),
        ToolFailure::CreateSession(e) => prefixed("failed to create session: ", e.as_str()),
        ToolFailure::SetUpSession(e) => prefixed("session setup failed: ", e.as_str()),
        ToolFailure::WriteUserMessage(e) => prefixed("failed to write user message: ", e.as_str()),
        ToolFailure::WriteMessage(e) => prefixed("failed to write message: ", e.as_str()),
        ToolFailure::WriteContext(e) => prefixed("failed to write context: ", e.as_str()),
    }
}

/// `prefix`, an id in quotes, and `suffix`.
fn quoted(prefix: &str, id: &str, suffix: &str) -> (r: ToolOutput)
    ensures
        r@ == failure(prefix@ + "'"@ + id@ + "'"@ + suffix@),
{
    let mut text = prefix.to_string();
    text.append("'");
    text.append(id);
    text.append("'");
    text.append(suffix);
    err(text.as_str())
}

pub open spec fn context_missing(id: Seq<char>) -> ToolOutputView {
    failure("context "@ + "'"@ + id + "'"@ + " not found"@)
}

pub fn context_not_found(id: &str) -> (r: ToolOutput)
    ensures
        r@ == context_missing(id@),
{
    quoted("context ", id, " not found")
}

/// The output of a tool that the server can no longer run.
pub fn shutting_down() -> (r: ToolOutput)
    ensures
        r@ == failure("ri server is shutting down"@),
{
    err("ri server is shutting down")
}

// ---------------------------------------------------------------------------
// runAgent and runTurn
// ---------------------------------------------------------------------------

/// What a run starts from.
pub enum History {
    /// The messages of a context.
    Context { id: String },
    /// The given messages.
    Messages { ids: Vec<String> },
}

/// Read what a run is to start from. A context wins over a list of messages; one
/// of them has to be there.
pub fn history_of(input: &serde_json::Value) -> (r: Result<History, ToolOutput>)
    ensures
        match r {
            Ok(History::Context { id }) => json_of(*input).text_member("context_id"@) == Some(id@),
            Ok(History::Messages { ids }) => json_of(*input).text_member("context_id"@) is None
                && json_of(*input).array_member("message_ids"@) is Some && views(ids@) == texts_in(
                json_of(*input).array_member("message_ids"@)->0,
            ),
            Err(out) => json_of(*input).text_member("context_id"@) is None && json_of(
                *input,
            ).array_member("message_ids"@) is None && out@ == failure(
                "either 'context_id' or 'message_ids' is required"@,
            ),
        },
{
    if let Some(id) = owned_text_member(input, "context_id") {
        Ok(History::Context { id })
    } else if let Some(ids) = text_array_member(input, "message_ids") {
        Ok(History::Messages { ids })
    } else {
        Err(err("either 'context_id' or 'message_ids' is required"))
    }
}

/// The messages of a context: those in the caller's own pool, else those on disk.
pub open spec fn known_context(
    memory: Option<PoolView>,
    disk: Option<PoolView>,
    id: Seq<char>,
) -> Option<ContextView> {
    match memory {
        Some(pool) => match pool.context(id) {
            Some(c) => Some(c),
            None => match disk {
                Some(pool) => pool.context(id),
                None => None,
            },
        },
        None => match disk {
            Some(pool) => pool.context(id),
            None => None,
        },
    }
}

pub open spec fn pool_view(pool: Option<&Pool>) -> Option<PoolView> {
    match pool {
        Some(p) => Some(p@),
        None => None,
    }
}

fn messages_in(pool: Option<&Pool>, id: &str) -> (r: Option<Vec<String>>)
    requires
        match pool {
            Some(p) => p.wf(),
            None => true,
        },
    ensures
        match known_context(None, pool_view(pool), id@) {
            Some(c) => r is Some && views(r->0@) == c.messages,
            None => r is None,
        },
{
    match pool {
        Some(p) => match p.get_context(id) {
            Some(c) => Some(clone_texts(&c.messages)),
            None => None,
        },
        None => None,
    }
}

/// The messages of a context. `memory` is the pool of the calling session and
/// `disk` what the store holds, where each can be had.
pub fn resolve_context_messages(memory: Option<&Pool>, disk: Option<&Pool>, id: &str) -> (r: Option<
    Vec<String>,
>)
    requires
        match memory {
            Some(p) => p.wf(),
            None => true,
        },
        match disk {
            Some(p) => p.wf(),
            None => true,
        },
    ensures
        match known_context(pool_view(memory), pool_view(disk), id@) {
            Some(c) => r is Some && views(r->0@) == c.messages,
            None => r is None,
        },
{
    match messages_in(memory, id) {
        Some(ids) => Some(ids),
        None => messages_in(disk, id),
    }
}

/// The messages that a run starts from, given what was found of its context.
pub fn history_messages(history: History, found: Option<Vec<String>>) -> (r: Result<
    Vec<String>,
    ToolOutput,
>)
    ensures
        match history {
            History::Messages { ids } => r == Ok::<Vec<String>, ToolOutput>(ids),
            History::Context { id } => match found {
                Some(ids) => r == Ok::<Vec<String>, ToolOutput>(ids),
                None => r is Err && r->Err_0@ == context_missing(id@),
            },
        },
{
    match history {
        History::Messages { ids } => Ok(ids),
        History::Context { id } => match found {
            Some(ids) => Ok(ids),
            None => Err(context_not_found(id.as_str())),
        },
    }
}

/// What a run is asked to do.
pub struct RunRequest {
    pub model_id: String,
    pub user_prompt: Option<String>,
    pub session_id: Option<String>,
    pub thinking: ThinkingLevel,
    pub max_tokens: Option<usize>,
}

/// A member of the parameters for the model.
pub open spec fn model_param(input: Json, key: Seq<char>) -> Option<Json> {
    match input.member("model_params"@) {
        Some(p) => p.member(key),
        None => None,
    }
}

pub open spec fn thinking_param(input: Json) -> Option<Seq<char>> {
    match model_param(input, "thinking"@) {
        Some(t) => t.text(),
        None => None,
    }
}

pub open spec fn max_tokens_param(input: Json) -> Option<usize> {
    match model_param(input, "max_tokens"@) {
        Some(n) => match unsigned_of(n) {
            Some(n) => Some(n as usize),
            None => None,
        },
        None => None,
    }
}

/// Read what a run is asked to do. The level of thinking is the one asked for,
/// where its name is known, else the default.
pub fn run_request(input: &serde_json::Value, default_thinking: ThinkingLevel) -> (r: Result<
    RunRequest,
    ToolOutput,
>)
    ensures
        match r {
            Ok(req) => {
                &&& json_of(*input).text_member("model_id"@) == Some(req.model_id@)
                &&& opt_view(req.user_prompt) == json_of(*input).text_member("user_prompt"@)
                &&& opt_view(req.session_id) == json_of(*input).text_member("session_id"@)
                &&& req.thinking == requested_thinking(
                    thinking_param(json_of(*input)),
                    default_thinking,
                )
                &&& req.max_tokens == max_tokens_param(json_of(*input))
            },
            Err(out) => json_of(*input).text_member("model_id"@) is None && out@ == failure(
                "missing 'model_id' parameter"@,
            ),
        },
{
    let model_id = match owned_text_member(input, "model_id") {
        Some(id) => id,
        None => {
            return Err(err("missing 'model_id' parameter"));
        },
    };
    let user_prompt = owned_text_member(input, "user_prompt");
    let session_id = owned_text_member(input, "session_id");
    let params = member(input, "model_params");
    let thinking = match params {
        Some(p) => text_member(p, "thinking"),
        None => None,
    };
    let max_tokens: Option<usize> = match params {
        Some(p) => match member(p, "max_tokens") {
            Some(n) => match lenient_unsigned(n) {
                Some(n) => Some(n as usize),
                None => None,
            },
            None => None,
        },
        None => None,
    };
    Ok(
        RunRequest {
            model_id,
            user_prompt,
            session_id,
            thinking: choose_thinking(thinking, default_thinking),
            max_tokens,
        },
    )
}

/// The level of thinking where a tool call names none: the one in the settings,
/// where its name is known, else medium.
pub fn default_thinking(setting: Option<&str>) -> (r: ThinkingLevel)
    ensures
        r == requested_thinking(opt_text(setting), ThinkingLevel::Medium),
{
    choose_thinking(setting, ThinkingLevel::Medium)
}

/// The output of a tool that went well, with one detail.
pub open spec fn started_output(what: Seq<char>, session: Seq<char>) -> ToolOutputView {
    ToolOutputView {
        text: what + " started on session '"@ + session + "'"@,
        is_error: false,
        details: Some(Json::Object(map!["session_id"@ => Json::Text(session)])),
    }
}

fn run_started(what: &str, session: &str) -> (r: ToolOutput)
    ensures
        r@ == started_output(what@, session@),
{
    let mut text = what.to_string();
    text.append(" started on session '");
    text.append(session);
    text.append("'");
    ToolOutput {
        text,
        is_error: false,
        details: Some(object_of_one("session_id", string(session.to_string()))),
    }
}

/// The output of `runAgent` once the agent is running.
pub fn agent_started(session: &str) -> (r: ToolOutput)
    ensures
        r@ == started_output("Agent loop"@, session@),
{
    run_started("Agent loop", session)
}

/// The output of `runTurn` once the turn is running.
pub fn turn_started(session: &str) -> (r: ToolOutput)
    ensures
        r@ == started_output("Single turn"@, session@),
{
    run_started("Single turn", session)
}

// ---------------------------------------------------------------------------
// readContextGraph
// ---------------------------------------------------------------------------

/// Where an exploration of the graph enters.
pub enum GraphEntry {
    Context { id: String },
    /// The head of a session.
    Session { id: String },
}

pub struct GraphRequest {
    pub entry: GraphEntry,
    pub depth: usize,
}

/// The depth that is asked for, else the default.
pub open spec fn graph_depth(input: Json) -> usize {
    match input.member("depth"@) {
        Some(d) => match unsigned_of(d) {
            Some(n) => n as usize,
            None => GRAPH_DEPTH,
        },
        None => GRAPH_DEPTH,
    }
}

/// Read what to explore. A context wins over a session; one of them has to be
/// there.
pub fn graph_request(input: &serde_json::Value) -> (r: Result<GraphRequest, ToolOutput>)
    ensures
        match r {
            Ok(req) => req.depth == graph_depth(json_of(*input)) && match req.entry {
                GraphEntry::Context { id } => json_of(*input).text_member("context_id"@) == Some(
                    id@,
                ),
                GraphEntry::Session { id } => json_of(*input).text_member("context_id"@) is None
                    && json_of(*input).text_member("session_id"@) == Some(id@),
            },
            Err(out) => json_of(*input).text_member("context_id"@) is None && json_of(
                *input,
            ).text_member("session_id"@) is None && out@ == failure(
                "either 'session_id' or 'context_id' is required"@,
            ),
        },
{
    let depth: usize = match member(input, "depth") {
        Some(d) => match lenient_unsigned(d) {
            Some(n) => n as usize,
            None => GRAPH_DEPTH,
        },
        None => GRAPH_DEPTH,
    };
    if let Some(id) = owned_text_member(input, "context_id") {
        Ok(GraphRequest { entry: GraphEntry::Context { id }, depth })
    } else if let Some(id) = owned_text_member(input, "session_id") {
        Ok(GraphRequest { entry: GraphEntry::Session { id }, depth })
    } else {
        Err(err("either 'session_id' or 'context_id' is required"))
    }
}

/// The head of a session. `in_memory` is the head of the session in memory, where
/// the session is there; it is the most current one, so the disk does not count then.
pub fn resolve_session_head(in_memory: Option<Option<String>>, on_disk: Option<String>) -> (r:
    Option<String>)
    ensures
        r == match in_memory {
            Some(head) => head,
            None => on_disk,
        },
{
    match in_memory {
        Some(head) => head,
        None => on_disk,
    }
}

/// The context to enter at. `head` is the head of the session that was asked for,
/// and `served` says that the server answers.
pub fn graph_entry(entry: GraphEntry, head: Option<String>, served: bool) -> (r: Result<
    String,
    ToolOutput,
>)
    ensures
        match entry {
            GraphEntry::Context { id } => r == Ok::<String, ToolOutput>(id),
            GraphEntry::Session { id } => match head {
                Some(h) => r == Ok::<String, ToolOutput>(h),
                None => r is Err && r->Err_0@ == failure(
                    "session "@ + "'"@ + id@ + "'"@ + if served {
                        " not found or has no head"@
                    } else {
                        " not found"@
                    },
                ),
            },
        },
{
    match entry {
        GraphEntry::Context { id } => Ok(id),
        GraphEntry::Session { id } => match head {
            Some(h) => Ok(h),
            None => Err(
                quoted(
                    "session ",
                    id.as_str(),
                    if served {
                        " not found or has no head"
                    } else {
                        " not found"
                    },
                ),
            ),
        },
    }
}

/// What the tool says of the graph around a context.
pub open spec fn graph_output(pool: PoolView, id: Seq<char>, depth: nat) -> ToolOutputView {
    match pool.context(id) {
        Some(entry) => ToolOutputView {
            text: graph_text(pool, entry, depth),
            is_error: false,
            details: None,
        },
        None => context_missing(id),
    }
}

/// Describe the graph around a context.
pub fn read_context_graph(pool: &Pool, id: &str, depth: usize) -> (r: ToolOutput)
    requires
        pool.wf(),
    ensures
        r@ == graph_output(pool@, id@, depth as nat),
{
    match pool.get_context(id) {
        Some(entry) => ToolOutput {
            text: describe_graph(pool, entry, depth),
            is_error: false,
            details: None,
        },
        None => context_not_found(id),
    }
}

// ---------------------------------------------------------------------------
// Merging what is in memory
// ---------------------------------------------------------------------------

/// The messages of `pool` and those called `ids` that only `own` has.
pub open spec fn merged_messages(pool: PoolView, ids: Seq<Seq<char>>, own: PoolView) -> PoolView
    decreases ids.len(),
{
    if ids.len() == 0 {
        pool
    } else {
        let rest = merged_messages(pool, ids.drop_last(), own);
        match (rest.message(ids.last()), own.message(ids.last())) {
            (None, Some(m)) => PoolView {
                messages: rest.messages.insert(m.id, m),
                contexts: rest.contexts,
            },
            _ => rest,
        }
    }
}

/// The contexts of `pool` and the one called `head` where only `own` has it.
pub open spec fn merged_head(pool: PoolView, head: Option<Seq<char>>, own: PoolView) -> PoolView {
    match head {
        Some(id) => match (pool.context(id), own.context(id)) {
            (None, Some(c)) => PoolView {
                messages: pool.messages,
                contexts: pool.contexts.push(c),
            },
            _ => pool,
        },
        None => pool,
    }
}

/// Take in what a session in memory has and the store does not: the messages of its
/// conversation and its head context.
#[verifier::loop_isolation(false)]
pub fn merge_session(pool: &mut Pool, ids: &Vec<String>, head: &Option<String>, own: &Pool)
    requires
        old(pool).wf(),
        own.wf(),
    ensures
        final(pool).wf(),
        final(pool)@ == merged_head(
            merged_messages(old(pool)@, views(ids@), own@),
            opt_view(*head),
            own@,
        ),
{
    let ghost all = views(ids@);
    let ghost start = pool@;
    let mut i: usize = 0;
    while i < ids.len()
        invariant
            i <= ids.len(),
            pool.wf(),
            pool@ == merged_messages(start, all.take(i as int), own@),
        decreases ids.len() - i,
    {
        assert(all.take(i + 1).drop_last() =~= all.take(i as int));
        assert(all.take(i + 1).last() == ids@[i as int]@);
        if pool.get_message(ids[i].as_str()).is_none() {
            if let Some(m) = own.get_message(ids[i].as_str()) {
                let copy = m.clone();
                pool.put_message(copy);
            }
        }
        assert(pool@ =~= merged_messages(start, all.take(i + 1), own@));
        i += 1;
    }
    assert(all.take(i as int) =~= all);
    let ghost before = pool@;
    if let Some(id) = head {
        if pool.get_context(id.as_str()).is_none() {
            if let Some(c) = own.get_context(id.as_str()) {
                let copy = c.clone();
                let added = pool.put_context(copy);
                assert(added);
            }
        }
    }
    assert(pool@ =~= merged_head(before, opt_view(*head), own@));
}

// ---------------------------------------------------------------------------
// readMessage
// ---------------------------------------------------------------------------

/// Read which message is asked for.
pub fn message_request(input: &serde_json::Value) -> (r: Result<String, ToolOutput>)
    ensures
        match r {
            Ok(id) => json_of(*input).text_member("message_id"@) == Some(id@),
            Err(out) => json_of(*input).text_member("message_id"@) is None && out@ == failure(
                "missing 'message_id' parameter"@,
            ),
        },
{
    match owned_text_member(input, "message_id") {
        Some(id) => Ok(id),
        None => Err(err("missing 'message_id' parameter")),
    }
}

/// A message as it is stored: its JSON as text and as a value.
pub struct StoredJson {
    pub text: String,
    pub value: serde_json::Value,
}

/// What the tool says of a message: found in memory, else on disk, else not found.
pub fn message_output(
    id: &str,
    in_memory: Option<StoredJson>,
    on_disk: Option<StoredJson>,
) -> (r: ToolOutput)
    ensures
        r@ == match (in_memory, on_disk) {
            (Some(m), _) => ToolOutputView {
                text: m.text@,
                is_error: false,
                details: Some(json_of(m.value)),
            },
            (None, Some(m)) => ToolOutputView {
                text: m.text@,
                is_error: false,
                details: Some(json_of(m.value)),
            },
            (None, None) => failure("message "@ + "'"@ + id@ + "'"@ + " not found"@),
        },
{
    let found = match in_memory {
        Some(m) => Some(m),
        None => on_disk,
    };
    match found {
        Some(m) => ToolOutput { text: m.text, is_error: false, details: Some(m.value) },
        None => quoted("message ", id, " not found"),
    }
}

// ---------------------------------------------------------------------------
// appendMessage
// ---------------------------------------------------------------------------

/// A message to append.
pub struct AppendRequest {
    pub role: Role,
    pub content: String,
    pub context_id: Option<String>,
    /// The session of the caller, which the message is written to.
    pub session_id: String,
}

/// The role that a call gives by name.
pub open spec fn role_param(input: Json) -> Option<Role> {
    match input.text_member("role"@) {
        Some(name) => role_named(name),
        None => None,
    }
}

/// The first thing that is wrong with a call of `appendMessage`.
pub open spec fn append_error(input: Json, caller: Option<Seq<char>>) -> Option<Seq<char>> {
    if role_param(input) is None {
        Some("missing or invalid 'role' parameter (user, assistant, system)"@)
    } else if input.text_member("content"@) is None {
        Some("missing 'content' parameter"@)
    } else if caller is None {
        Some("no calling session -- appendMessage requires a session context"@)
    } else {
        None
    }
}

/// Read what to append.
pub fn append_request(input: &serde_json::Value, caller: &Option<String>) -> (r: Result<
    AppendRequest,
    ToolOutput,
>)
    ensures
        match r {
            Ok(req) => {
                &&& append_error(json_of(*input), opt_view(*caller)) is None
                &&& role_param(json_of(*input)) == Some(req.role)
                &&& json_of(*input).text_member("content"@) == Some(req.content@)
                &&& json_of(*input).text_member("context_id"@) == opt_view(req.context_id)
                &&& opt_view(*caller) == Some(req.session_id@)
            },
            Err(out) => append_error(json_of(*input), opt_view(*caller)) is Some && out@ == failure(
                append_error(json_of(*input), opt_view(*caller))->0,
            ),
        },
{
    let role = match text_member(input, "role") {
        Some(name) => parse_role(name),
        None => None,
    };
    let role = match role {
        Some(role) => role,
        None => {
            return Err(err("missing or invalid 'role' parameter (user, assistant, system)"));
        },
    };
    let content = match owned_text_member(input, "content") {
        Some(s) => s,
        None => {
            return Err(err("missing 'content' parameter"));
        },
    };
    let context_id = owned_text_member(input, "context_id");
    let session_id = match caller {
        Some(id) => id.clone(),
        None => {
            return Err(
                err("no calling session -- appendMessage requires a session context"),
            );
        },
    };
    Ok(AppendRequest { role, content, context_id, session_id })
}

/// The output for a calling session that is not in memory.
pub fn caller_not_found(session: &str) -> (r: ToolOutput)
    ensures
        r@ == failure("calling session "@ + "'"@ + session@ + "'"@ + " not found in memory"@),
{
    quoted("calling session ", session, " not found in memory")
}

/// A context to write.
pub struct ContextDraft {
    pub messages: Vec<String>,
    pub parents: Vec<String>,
}

/// The context that an appended message makes: the messages it was appended to, and
/// the message. The context they came from is its parent.
pub fn append_draft(base: Vec<String>, parent: &Option<String>, message_id: &str) -> (r:
    ContextDraft)
    ensures
        views(r.messages@) == views(base@).push(message_id@),
        views(r.parents@) == match *parent {
            Some(id) => seq![id@],
            None => Seq::empty(),
        },
{
    broadcast use group_views;

    let mut messages = base;
    messages.push(message_id.to_string());
    let mut parents: Vec<String> = Vec::new();
    if let Some(id) = parent {
        parents.push(id.clone());
    }
    assert(views(parents@) =~= match *parent {
        Some(id) => seq![id@],
        None => Seq::empty(),
    });
    ContextDraft { messages, parents }
}

pub open spec fn appended_output(
    message_id: Seq<char>,
    context_id: Seq<char>,
    count: nat,
) -> ToolOutputView {
    ToolOutputView {
        text: "Appended message ["@ + message_id + "], new context ["@ + context_id + "] ("@
            + decimal(count) + " messages)"@,
        is_error: false,
        details: Some(
            Json::Object(
                map![
                    "context_id"@ => Json::Text(context_id),
                    "message_id"@ => Json::Text(message_id),
                ],
            ),
        ),
    }
}

/// The output of `appendMessage` once all is written.
pub fn append_output(message_id: &str, context_id: &str, count: usize) -> (r: ToolOutput)
    ensures
        r@ == appended_output(message_id@, context_id@, count as nat),
{
    let mut text = "Appended message [".to_string();
    text.append(message_id);
    text.append("], new context [");
    text.append(context_id);
    text.append("] (");
    let n = number_text(count as u128);
    text.append(n.as_str());
    text.append(" messages)");
    ToolOutput {
        text,
        is_error: false,
        details: Some(
            object_of_two(
                "context_id",
                string(context_id.to_string()),
                "message_id",
                string(message_id.to_string()),
            ),
        ),
    }
}

// ---------------------------------------------------------------------------
// createContext
// ---------------------------------------------------------------------------

/// A context to create, and the session of the caller, which it is written to.
pub struct CreateRequest {
    pub draft: ContextDraft,
    pub session_id: String,
}

/// The parents that a call names; none where it names none.
pub open spec fn parents_param(input: Json) -> Seq<Seq<char>> {
    match input.array_member("parents"@) {
        Some(items) => texts_in(items),
        None => Seq::empty(),
    }
}

/// Read which context to create.
pub fn create_request(input: &serde_json::Value, caller: &Option<String>) -> (r: Result<
    CreateRequest,
    ToolOutput,
>)
    ensures
        match r {
            Ok(req) => {
                &&& json_of(*input).array_member("message_ids"@) is Some
                &&& views(req.draft.messages@) == texts_in(
                    json_of(*input).array_member("message_ids"@)->0,
                )
                &&& views(req.draft.parents@) == parents_param(json_of(*input))
                &&& opt_view(*caller) == Some(req.session_id@)
            },
            Err(out) => if json_of(*input).array_member("message_ids"@) is None {
                out@ == failure("missing 'message_ids' parameter"@)
            } else {
                caller is None && out@ == failure(
                    "no calling session -- createContext requires a session context"@,
                )
            },
        },
{
    broadcast use group_views;

    let messages = match text_array_member(input, "message_ids") {
        Some(ids) => ids,
        None => {
            return Err(err("missing 'message_ids' parameter"));
        },
    };
    let parents = match text_array_member(input, "parents") {
        Some(ids) => ids,
        None => Vec::new(),
    };
    let session_id = match caller {
        Some(id) => id.clone(),
        None => {
            return Err(
                err("no calling session -- createContext requires a session context"),
            );
        },
    };
    Ok(CreateRequest { draft: ContextDraft { messages, parents }, session_id })
}

pub open spec fn created_output(context_id: Seq<char>, count: nat) -> ToolOutputView {
    ToolOutputView {
        text: "Created context ["@ + context_id + "] ("@ + decimal(count) + " messages)"@,
        is_error: false,
        details: Some(Json::Object(map!["context_id"@ => Json::Text(context_id)])),
    }
}

/// The output of `createContext` once the context is written.
pub fn create_output(context_id: &str, count: usize) -> (r: ToolOutput)
    ensures
        r@ == created_output(context_id@, count as nat),
{
    let mut text = "Created context [".to_string();
    text.append(context_id);
    text.append("] (");
    let n = number_text(count as u128);
    text.append(n.as_str());
    text.append(" messages)");
    ToolOutput {
        text,
        is_error: false,
        details: Some(object_of_one("context_id", string(context_id.to_string()))),
    }
}

// ---------------------------------------------------------------------------
// Laws
// ---------------------------------------------------------------------------

proof fn lemma_merged_messages(pool: PoolView, ids: Seq<Seq<char>>, own: PoolView)
    requires
        own.keyed(),
    ensures
        ({
            let r = merged_messages(pool, ids, own);
            &&& r.contexts == pool.contexts
            &&& forall|id: Seq<char>|
                #![trigger r.message(id)]
                r.message(id) == match pool.message(id) {
                    Some(m) => Some(m),
                    None => if ids.contains(id) {
                        own.message(id)
                    } else {
                        None
                    },
                }
        }),
    decreases ids.len(),
{
    if ids.len() > 0 {
        let rest = ids.drop_last();
        let last = ids.last();
        lemma_merged_messages(pool, rest, own);
        let before = merged_messages(pool, rest, own);
        let r = merged_messages(pool, ids, own);
        assert(ids[ids.len() - 1] == last);
        assert forall|id: Seq<char>|
            #![trigger r.message(id)]
            r.message(id) == match pool.message(id) {
                Some(m) => Some(m),
                None => if ids.contains(id) {
                    own.message(id)
                } else {
                    None
                },
            } by {
            assert(before.message(id) == match pool.message(id) {
                Some(m) => Some(m),
                None => if rest.contains(id) {
                    own.message(id)
                } else {
                    None
                },
            });
            assert(before.message(last) == before.message(last));
            if ids.contains(id) && id != last {
                let k = choose|k: int| 0 <= k < ids.len() && ids[k] == id;
                assert(rest[k] == id);
            }
            if rest.contains(id) {
                let k = choose|k: int| 0 <= k < rest.len() && rest[k] == id;
                assert(ids[k] == id);
            }
        }
    }
}

/// Merging takes in what the store lacks and overwrites nothing: a message that the
/// store has stays as it is, one of the session's conversation that it lacks is
/// found as the session has it, and no other is.
pub proof fn law_merge_adds_only(
    pool: PoolView,
    ids: Seq<Seq<char>>,
    head: Option<Seq<char>>,
    own: PoolView,
    id: Seq<char>,
)
    requires
        own.keyed(),
    ensures
        ({
            let r = merged_head(merged_messages(pool, ids, own), head, own);
            &&& r.message(id) == match pool.message(id) {
                Some(m) => Some(m),
                None => if ids.contains(id) {
                    own.message(id)
                } else {
                    None
                },
            }
            &&& r.context(id) == match pool.context(id) {
                Some(c) => Some(c),
                None => if head == Some(id) {
                    own.context(id)
                } else {
                    None
                },
            }
        }),
{
    lemma_merged_messages(pool, ids, own);
    let p = merged_messages(pool, ids, own);
    let r = merged_head(p, head, own);
    assert(r.messages == p.messages);
    assert(p.message(id) == r.message(id));
    match head {
        Some(h) => {
            lemma_context_id(own.contexts, h);
            match (p.context(h), own.context(h)) {
                (None, Some(c)) => {
                    assert(p.contexts.push(c).drop_last() =~= p.contexts);
                },
                _ => {},
            }
        },
        None => {},
    }
}

proof fn lemma_context_id(contexts: Seq<ContextView>, id: Seq<char>)
    ensures
        match crate::model::context_in(contexts, id) {
            Some(c) => c.id == id,
            None => true,
        },
    decreases contexts.len(),
{
    if contexts.len() > 0 && contexts.last().id != id {
        lemma_context_id(contexts.drop_last(), id);
    }
}

} // verus!
