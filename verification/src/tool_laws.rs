//! What holds of the tools over the input of a call and what it is answered.
use crate::agent::Host;
use crate::json::{all_digits, is_digit, json_of, text_array, texts_in, unsigned_of, Json};
use crate::model::{
    failure, law_role_names, law_thinking_names, thinking_name, thinking_named, ContextView,
    PoolView, Role, ThinkingLevel,
};
use crate::text::{decimal, lemma_occurs, occurs, opt_view, views};
use crate::text_laws::law_decimal_digits;
use crate::tool_calls::{
    append_call_step, create_call_step, create_error, host_of, launch_output, run_call_step,
    run_reads, AppendCall, CreateCall, Reply, Request, RunCall, RunKind,
};
use crate::tools::{
    append_error, context_missing, failure_text, graph_depth, graph_output, known_context,
    parents_param, role_param, AppendRequest, History, RunRequest, ToolFailure,
};
use vstd::prelude::*;

verus! {

// ---------------------------------------------------------------------------
// Values in the input
// ---------------------------------------------------------------------------

/// Texts are read from an array in their order, what stands between them is left out, and
/// an array that was made of texts gives them back.
pub proof fn law_texts_are_read_in_order(a: Seq<Json>, b: Seq<Json>, texts: Seq<Seq<char>>)
    ensures
        texts_in(a + b) == texts_in(a) + texts_in(b),
        a.len() == 1 && a[0].text() is None ==> texts_in(a).len() == 0,
        a.len() == 1 && a[0].text() is Some ==> texts_in(a) == seq![a[0].text()->0],
        text_array(texts).array() is Some,
        texts_in(text_array(texts).array()->0) == texts,
    decreases b.len(), texts.len(),
{
    if b.len() == 0 {
        assert(a + b =~= a);
        assert(texts_in(a) + texts_in(b) =~= texts_in(a));
    } else {
        assert((a + b).drop_last() =~= a + b.drop_last());
        assert((a + b).last() == b.last());
        law_texts_are_read_in_order(a, b.drop_last(), Seq::empty());
        assert(texts_in(a + b) =~= texts_in(a) + texts_in(b));
    }
    if a.len() == 1 {
        assert(a.drop_last() =~= Seq::<Json>::empty());
        assert(texts_in(a.drop_last()) =~= Seq::<Seq<char>>::empty());
        if a[0].text() is Some {
            assert(texts_in(a) =~= seq![a[0].text()->0]);
        }
    }
    let items = text_array(texts).array()->0;
    if texts.len() == 0 {
        assert(texts_in(items) =~= texts);
    } else {
        let fewer = text_array(texts.drop_last()).array()->0;
        assert(items.drop_last() =~= fewer);
        assert(items.last().text() == Some(texts.last()));
        law_texts_are_read_in_order(Seq::empty(), Seq::empty(), texts.drop_last());
        assert(texts_in(items) =~= texts);
    }
}

/// A number may be given as one or written out in digits, with a plus in front or without;
/// either way it is read as the number it is. Anything else in a text is no number.
pub proof fn law_numbers_may_be_text(n: u64, literal: Seq<char>, s: Seq<char>, i: int)
    ensures
        unsigned_of(Json::Number { unsigned: Some(n), literal }) == Some(n),
        unsigned_of(Json::Text(decimal(n as nat))) == Some(n),
        unsigned_of(Json::Text(seq!['+'] + decimal(n as nat))) == Some(n),
        s.len() == 0 ==> unsigned_of(Json::Text(s)) is None,
        0 < i < s.len() && !('0' <= s[i] <= '9') ==> unsigned_of(Json::Text(s)) is None,
{
    let d = decimal(n as nat);
    law_decimal_digits(n as nat);
    assert(all_digits(d)) by {
        assert forall|k: int| 0 <= k < d.len() implies is_digit(#[trigger] d[k]) by {}
    }
    assert(d[0] != '+') by {
        assert('0' <= d[0]);
    }
    let plus = seq!['+'] + d;
    assert(plus.drop_first() =~= d);
    if 0 < i < s.len() && !('0' <= s[i] <= '9') {
        if s[0] == '+' {
            assert(s.drop_first()[i - 1] == s[i]);
            assert(!is_digit(s.drop_first()[i - 1]));
        } else {
            assert(!is_digit(s[i]));
        }
    }
}

// ---------------------------------------------------------------------------
// Running an agent or a turn
// ---------------------------------------------------------------------------

/// Whether a request says what the input of its call asks for.
pub open spec fn asked(request: RunRequest, input: Json, default: ThinkingLevel) -> bool {
    &&& input.text_member("model_id"@) == Some(request.model_id@)
    &&& opt_view(request.user_prompt) == input.text_member("user_prompt"@)
    &&& opt_view(request.session_id) == input.text_member("session_id"@)
    &&& match input.member("model_params"@) {
        None => request.thinking == default && request.max_tokens is None,
        Some(params) => {
            &&& match params.member("max_tokens"@) {
                None => request.max_tokens is None,
                Some(n) => match unsigned_of(n) {
                    None => request.max_tokens is None,
                    Some(n) => request.max_tokens == Some(n as usize),
                },
            }
            &&& match params.text_member("thinking"@) {
                None => request.thinking == default,
                Some(name) => {
                    &&& name == thinking_name(request.thinking) || request.thinking == default
                    &&& forall|level: ThinkingLevel|
                        name == #[trigger] thinking_name(level) ==> request.thinking == level
                },
            }
        },
    }
}

/// Whether a call that is under way still holds what its input asks for, the messages it
/// starts from, and the session that was asked for.
pub open spec fn holds(
    call: RunCall,
    input: Json,
    base: Seq<Seq<char>>,
    default: ThinkingLevel,
) -> bool {
    match call {
        RunCall::Resolving { request, messages } => asked(request, input, default) && views(
            messages@,
        ) == base,
        RunCall::Seeking { request, messages, id } => asked(request, input, default) && views(
            messages@,
        ) == base && input.text_member("session_id"@) == Some(id@),
        RunCall::Opening { request, messages, known } => {
            &&& asked(request, input, default)
            &&& views(messages@) == base
            &&& known is Some ==> opt_view(known) == input.text_member("session_id"@)
        },
        RunCall::Prompting { request, messages, .. } => asked(request, input, default) && views(
            messages@,
        ) == base,
        _ => false,
    }
}

/// The session that a reply tells a call of.
pub open spec fn session_told(call: RunCall, reply: Reply) -> Option<Seq<char>> {
    match (call, reply) {
        (RunCall::Opening { known, .. }, Reply::SessionExtended) => opt_view(known),
        (RunCall::Opening { .. }, Reply::SessionCreated(id)) => Some(id@),
        (RunCall::Prompting { session, .. }, _) => Some(session@),
        _ => None,
    }
}

/// Whether a run has the thinking and the tokens that the input of its call asks for.
pub open spec fn runs_with(
    input: Json,
    default: ThinkingLevel,
    thinking: ThinkingLevel,
    max_tokens: Option<usize>,
) -> bool {
    exists|request: RunRequest| #[trigger]
        asked(request, input, default) && request.thinking == thinking && request.max_tokens
            == max_tokens
}

/// A call takes from its input which model, which prompt, which session, how much thinking
/// and how many tokens are asked for, and has its model resolved first.
pub proof fn law_calls_read_their_input(
    call: RunCall,
    request: Request,
    input: Json,
    messages: Seq<Seq<char>>,
    default: ThinkingLevel,
)
    requires
        run_reads(call, request, input, messages, default),
    ensures
        input.text_member("model_id"@) matches Some(model) ==> {
            &&& call is Resolving
            &&& holds(call, input, messages, default)
            &&& request matches Request::ResolveModel { id } && id@ == model
        },
        input.text_member("model_id"@) is None ==> call is Over && (request matches Request::Answer {
            output,
        } && output@.is_error && output@.text == "missing 'model_id' parameter"@),
{
    if let Some(params) = input.member("model_params"@) {
        if let Some(name) = params.text_member("thinking"@) {
            assert forall|level: ThinkingLevel| name == #[trigger] thinking_name(level) implies
                thinking_named(name) == Some(level) by {
                law_thinking_names(level, name);
            }
            if let Some(level) = thinking_named(name) {
                law_thinking_names(level, name);
            }
        }
    }
}

/// A call that starts from a context starts from the messages that were found of it, and
/// ends with an error that names the context where there is none.
pub proof fn law_runs_start_from_their_context(
    kind: RunKind,
    default: ThinkingLevel,
    input: serde_json::Value,
    id: String,
    found: Option<Vec<String>>,
    next: RunCall,
    requests: Seq<Request>,
)
    requires
        run_call_step(
            kind,
            default,
            RunCall::Finding { input, history: History::Context { id } },
            Reply::Context(found),
            next,
            requests,
        ),
    ensures
        requests.len() == 1,
        found matches Some(ids) ==> json_of(input).text_member("model_id"@) is Some ==> holds(
            next,
            json_of(input),
            views(ids@),
            default,
        ),
        found is None ==> next is Over && (requests[0] matches Request::Answer { output }
            && output@.is_error && occurs(id@, output@.text)),
{
    if let Some(ids) = found {
        law_calls_read_their_input(next, requests[0], json_of(input), views(ids@), default);
    } else {
        lemma_occurs("context "@ + "'"@, id@, "'"@ + " not found"@);
        assert("context "@ + "'"@ + id@ + "'"@ + " not found"@ =~= "context "@ + "'"@ + id@ + ("'"@
            + " not found"@));
    }
}

/// From its first step to its last a call does what its input asks for. It looks for the
/// session that was asked for and takes up or makes none but that. It stores the prompt
/// that was given, as one of the user, on the session of the run. It starts one run of
/// its kind, on that session and with the thinking and the tokens that were asked for,
/// from the messages it began with and, behind them, the prompt that it has stored.
pub proof fn law_runs_do_what_was_asked(
    kind: RunKind,
    default: ThinkingLevel,
    input: Json,
    base: Seq<Seq<char>>,
    call: RunCall,
    reply: Reply,
    next: RunCall,
    requests: Seq<Request>,
)
    requires
        run_call_step(kind, default, call, reply, next, requests),
        holds(call, input, base, default),
    ensures
        next is Over || holds(next, input, base, default),
        forall|i: int|
            0 <= i < requests.len() ==> match #[trigger] requests[i] {
                Request::FindSession { id } => call is Resolving && input.text_member(
                    "session_id"@,
                ) == Some(id@),
                Request::ExtendSession { id, messages } => call is Seeking && input.text_member(
                    "session_id"@,
                ) == Some(id@) && views(messages@) == base,
                Request::CreateSession { name, messages } => {
                    &&& opt_view(name) == input.text_member("session_id"@)
                    &&& views(messages@) == base
                },
                Request::WriteMessage { session, role, text } => {
                    &&& role == Role::User
                    &&& input.text_member("user_prompt"@) == Some(text@)
                    &&& session_told(call, reply) == Some(session@)
                    &&& next matches RunCall::Prompting { session: s, .. } && s@ == session@
                },
                Request::Launch { kind: k, session, messages, thinking, max_tokens } => {
                    &&& k == kind
                    &&& session_told(call, reply) == Some(session@)
                    &&& call is Prompting ==> reply is MessageWritten && views(messages@)
                        == base.push((reply->MessageWritten_0)@)
                    &&& !(call is Prompting) ==> views(messages@) == base && input.text_member(
                        "user_prompt"@,
                    ) is None
                    &&& runs_with(input, default, thinking, max_tokens)
                },
                Request::Answer { output } => output@.is_error || (i == 1
                    && requests[0] is Launch),
                _ => false,
            },
        call is Resolving && reply is ModelResolved ==> requests.len() == 1 && (input.text_member(
            "session_id"@,
        ) is Some <==> requests[0] is FindSession),
        call is Opening && session_told(call, reply) is Some && !(call->Opening_known is Some
            && reply is SessionCreated) ==> (input.text_member("user_prompt"@) is Some
            <==> requests.len() > 0 && requests[0] is WriteMessage) && (input.text_member(
            "user_prompt"@,
        ) is None <==> requests.len() > 0 && requests[0] is Launch),
        call is Prompting && reply is MessageWritten ==> requests.len() == 2
            && requests[0] is Launch,
{
    match call {
        RunCall::Resolving { request, .. } => {
            assert(asked(request, input, default));
        },
        RunCall::Seeking { request, .. } => {
            assert(asked(request, input, default));
        },
        RunCall::Opening { request, .. } => {
            assert(asked(request, input, default));
        },
        RunCall::Prompting { request, .. } => {
            assert(asked(request, input, default));
        },
        _ => {},
    }
}

/// The answer to a call whose run has started tells which of the two has started and on
/// which session.
pub proof fn law_started_runs_are_told(session: Seq<char>)
    ensures
        launch_output(RunKind::Agent, session).text == "Agent loop"@ + " started on session '"@
            + session + "'"@,
        launch_output(RunKind::Turn, session).text == "Single turn"@ + " started on session '"@
            + session + "'"@,
        forall|kind: RunKind|
            {
                let out = #[trigger] launch_output(kind, session);
                &&& !out.is_error
                &&& out.details is Some
                &&& out.details->0.text_member("session_id"@) == Some(session)
            },
{
}

/// A single turn is no loop wherever it runs; an agent runs as any other in the server.
pub proof fn law_turns_are_single(served: bool)
    ensures
        host_of(RunKind::Turn, served) == Host::Single,
        host_of(RunKind::Agent, true) == Host::Server,
        host_of(RunKind::Agent, false) == Host::Background,
{
}

// ---------------------------------------------------------------------------
// Failures
// ---------------------------------------------------------------------------

/// A call that fails is answered with what could not be done and the error that was met.
pub proof fn law_failures_are_told(error: String)
    ensures
        failure_text(ToolFailure::LoadStore(error)) == "failed to load store: "@ + error@,
        failure_text(ToolFailure::LoadSessions(error)) == "failed to load sessions: "@ + error@,
        failure_text(ToolFailure::ResolveModel(error)) == "model resolution failed: "@ + error@,
        failure_text(ToolFailure::CreateSession(error)) == "failed to create session: "@ + error@,
        failure_text(ToolFailure::SetUpSession(error)) == "session setup failed: "@ + error@,
        failure_text(ToolFailure::WriteUserMessage(error)) == "failed to write user message: "@
            + error@,
        failure_text(ToolFailure::WriteMessage(error)) == "failed to write message: "@ + error@,
        failure_text(ToolFailure::WriteContext(error)) == "failed to write context: "@ + error@,
        failure(error@).is_error && failure(error@).text == error@,
        failure(error@).details is None,
{
}

/// Whatever step of a call fails, the answer tells the failure it met.
pub proof fn law_failed_steps_are_told(
    kind: RunKind,
    default: ThinkingLevel,
    call: RunCall,
    failed: ToolFailure,
    next: RunCall,
    requests: Seq<Request>,
)
    requires
        run_call_step(kind, default, call, Reply::Failed(failed), next, requests),
        !(call is Over),
    ensures
        next is Over,
        requests.len() == 1,
        requests[0] matches Request::Answer { output } && output@.is_error && output@.text
            == failure_text(failed),
{
}

// ---------------------------------------------------------------------------
// Finding and describing contexts
// ---------------------------------------------------------------------------

/// A context is looked for in the caller's own pool first and then on disk.
pub proof fn law_own_contexts_come_first(memory: PoolView, disk: PoolView, id: Seq<char>)
    ensures
        memory.context(id) is Some ==> known_context(Some(memory), Some(disk), id)
            == memory.context(id),
        memory.context(id) is None ==> known_context(Some(memory), Some(disk), id) == disk.context(
            id,
        ),
        known_context(Some(memory), None, id) == memory.context(id),
        known_context(None, Some(disk), id) == disk.context(id),
        known_context(None, None, id) is None,
{
}

/// A context that is found is one that the pool holds, and it has the id that was asked for;
/// none is found only where the pool holds none of that id.
pub proof fn law_contexts_are_found(pool: PoolView, id: Seq<char>)
    ensures
        match pool.context(id) {
            Some(c) => c.id == id && pool.contexts.contains(c),
            None => forall|i: int|
                0 <= i < pool.contexts.len() ==> (#[trigger] pool.contexts[i]).id != id,
        },
{
    lemma_context_found(pool.contexts, id);
}

proof fn lemma_context_found(contexts: Seq<ContextView>, id: Seq<char>)
    ensures
        match crate::model::context_in(contexts, id) {
            Some(c) => c.id == id && contexts.contains(c),
            None => forall|i: int| 0 <= i < contexts.len() ==> (#[trigger] contexts[i]).id != id,
        },
    decreases contexts.len(),
{
    if contexts.len() > 0 {
        let fewer = contexts.drop_last();
        assert(contexts.last() == contexts[contexts.len() - 1]);
        if contexts.last().id != id {
            lemma_context_found(fewer, id);
            match crate::model::context_in(fewer, id) {
                Some(c) => {
                    let k = choose|k: int| 0 <= k < fewer.len() && fewer[k] == c;
                    assert(contexts[k] == c);
                },
                None => {
                    assert forall|i: int| 0 <= i < contexts.len() implies (
                    #[trigger] contexts[i]).id != id by {
                        if i < fewer.len() {
                            assert(fewer[i] == contexts[i]);
                        }
                    }
                },
            }
        }
    }
}

/// The graph is explored as deep as is asked for, and ten steps where nothing usable is
/// said of it.
pub proof fn law_depth_is_as_asked(input: Json)
    ensures
        match input.member("depth"@) {
            Some(d) => match unsigned_of(d) {
                Some(n) => graph_depth(input) == n as usize,
                None => graph_depth(input) == 10,
            },
            None => graph_depth(input) == 10,
        },
{
}

/// Exploring from a context that is not there is an error that names it.
pub proof fn law_missing_contexts_are_named(pool: PoolView, id: Seq<char>, depth: nat)
    ensures
        graph_output(pool, id, depth).is_error <==> pool.context(id) is None,
        pool.context(id) is None ==> graph_output(pool, id, depth).text == "context "@ + "'"@ + id
            + "'"@ + " not found"@,
        context_missing(id).is_error,
{
}

// ---------------------------------------------------------------------------
// Appending a message
// ---------------------------------------------------------------------------

/// A call says which role its message has by the role's name.
pub proof fn law_roles_are_read(input: Json, role: Role)
    ensures
        input.text_member("role"@) == Some("user"@) ==> role_param(input) == Some(Role::User),
        input.text_member("role"@) == Some("assistant"@) ==> role_param(input) == Some(
            Role::Assistant,
        ),
        input.text_member("role"@) == Some("system"@) ==> role_param(input) == Some(Role::System),
        role_param(input) is Some <==> (input.text_member("role"@) == Some("user"@)
            || input.text_member("role"@) == Some("assistant"@) || input.text_member("role"@)
            == Some("system"@)),
{
    law_role_names(Role::User, "user"@);
    law_role_names(Role::Assistant, "assistant"@);
    law_role_names(Role::System, "system"@);
}

/// What is missing from a call is told by name, the role before the text and that before
/// the session; a call that lacks nothing is not refused.
pub proof fn law_refused_appends_say_why(input: Json, caller: Option<Seq<char>>)
    ensures
        role_param(input) is None ==> append_error(input, caller) == Some(
            "missing or invalid 'role' parameter (user, assistant, system)"@,
        ),
        role_param(input) is Some && input.text_member("content"@) is None ==> append_error(
            input,
            caller,
        ) == Some("missing 'content' parameter"@),
        role_param(input) is Some && input.text_member("content"@) is Some && caller is None
            ==> append_error(input, caller) == Some(
            "no calling session -- appendMessage requires a session context"@,
        ),
        role_param(input) is Some && input.text_member("content"@) is Some && caller is Some
            ==> append_error(input, caller) is None,
{
}

/// What a call appends is the text it was given, under the role and on the session that it
/// was given, to the messages of the context it names, which becomes the parent; where it
/// names none it begins a context of its own.
pub proof fn law_appends_are_as_asked(
    request: AppendRequest,
    found: Option<Vec<String>>,
    next: AppendCall,
    made: Option<Request>,
)
    requires
        append_call_step(AppendCall::Finding { request }, Reply::Caller(found), next, made),
        request.context_id is None || found is Some,
    ensures
        next is Writing,
        made matches Some(Request::Append { session, role, text, base, parent }) && {
            &&& session@ == request.session_id@
            &&& role == request.role
            &&& text@ == request.content@
            &&& opt_view(parent) == opt_view(request.context_id)
            &&& request.context_id is Some ==> views(base@) == views(found->0@)
            &&& request.context_id is None ==> views(base@).len() == 0
        },
{
}

/// An append to a context that is not there, or by a session that is not, is an error that
/// names what is missing.
pub proof fn law_refused_appends_name_what_is_missing(
    request: AppendRequest,
    reply: Reply,
    next: AppendCall,
    made: Option<Request>,
)
    requires
        append_call_step(AppendCall::Finding { request }, reply, next, made),
        reply is NoCaller || (reply == Reply::Caller(None) && request.context_id is Some),
    ensures
        next is Over,
        made matches Some(Request::Answer { output }) && output@.is_error && output@.text == (
        if reply is NoCaller {
            "calling session "@ + "'"@ + request.session_id@ + "'"@ + " not found in memory"@
        } else {
            "context "@ + "'"@ + request.context_id->0@ + "'"@ + " not found"@
        }),
{
}

/// An append is answered with the ids of the message and of the context and with the number
/// of its messages, each as it was stored.
pub proof fn law_appends_are_told(
    message_id: String,
    context_id: String,
    count: usize,
    next: AppendCall,
    made: Option<Request>,
)
    requires
        append_call_step(
            AppendCall::Writing,
            Reply::Appended { message_id, context_id, count },
            next,
            made,
        ),
    ensures
        next is Over,
        made matches Some(Request::Answer { output }) && {
            &&& !output@.is_error
            &&& output@.text == "Appended message ["@ + message_id@ + "], new context ["@
                + context_id@ + "] ("@ + decimal(count as nat) + " messages)"@
            &&& output@.details is Some
            &&& output@.details->0.text_member("message_id"@) == Some(message_id@)
            &&& output@.details->0.text_member("context_id"@) == Some(context_id@)
        },
{
    reveal_strlit("message_id");
    reveal_strlit("context_id");
    assert("message_id"@[0] == 'm' && "context_id"@[0] == 'c');
}

// ---------------------------------------------------------------------------
// Creating a context
// ---------------------------------------------------------------------------

/// A context is refused where the messages are missing, or else where no session calls.
pub proof fn law_refused_contexts_say_why(input: Json, caller: Option<Seq<char>>)
    ensures
        input.array_member("message_ids"@) is None ==> create_error(input, caller) == Some(
            "missing 'message_ids' parameter"@,
        ),
        input.array_member("message_ids"@) is Some && caller is None ==> create_error(input, caller)
            == Some("no calling session -- createContext requires a session context"@),
        input.array_member("message_ids"@) is Some && caller is Some ==> create_error(input, caller)
            is None,
        input.array_member("parents"@) is None ==> parents_param(input).len() == 0,
        input.array_member("parents"@) matches Some(items) ==> parents_param(input) == texts_in(
            items,
        ),
{
}

/// The context that is written is the one that was asked for, on the session that called,
/// and the call is answered with the id and the number of messages that were stored.
pub proof fn law_contexts_are_created_as_asked(
    call: CreateCall,
    reply: Reply,
    next: CreateCall,
    made: Option<Request>,
)
    requires
        create_call_step(call, reply, next, made),
    ensures
        call matches CreateCall::Finding { request } ==> reply is Caller ==> {
            &&& next is Writing
            &&& made matches Some(Request::WriteContext { session, draft })
            &&& session@ == request.session_id@
            &&& views(draft.messages@) == views(request.draft.messages@)
            &&& views(draft.parents@) == views(request.draft.parents@)
        },
        call matches CreateCall::Finding { request } ==> reply is NoCaller ==> {
            &&& next is Over
            &&& made matches Some(Request::Answer { output })
            &&& output@.is_error
            &&& output@.text == "calling session "@ + "'"@ + request.session_id@ + "'"@
                + " not found in memory"@
        },
        reply matches Reply::ContextWritten { id, count } ==> call is Writing ==> {
            &&& next is Over
            &&& made matches Some(Request::Answer { output })
            &&& !output@.is_error
            &&& output@.text == "Created context ["@ + id@ + "] ("@ + decimal(count as nat)
                + " messages)"@
            &&& output@.details is Some
            &&& output@.details->0.text_member("context_id"@) == Some(id@)
        },
        reply matches Reply::Failed(failed) ==> !(call is Over) ==> {
            &&& next is Over
            &&& made matches Some(Request::Answer { output })
            &&& output@.is_error
            &&& output@.text == failure_text(failed)
        },
{
}

} // verus!
