//! What holds of the event stream and of the commands over what is sent and received.
use crate::events::{AgentEventView, StreamEventView};
use crate::json::{rendered, Json};
use crate::rpc::{
    command_message, done_json, error_json, follows, rpc_failure_text, RpcFailure, RpcStep,
};
use crate::sse::{agent_sse, stream_sse, SseView};
use vstd::prelude::*;

verus! {

// ---------------------------------------------------------------------------
// The event stream
// ---------------------------------------------------------------------------

/// Whether an event is sent under a name with an object of some members for its data.
pub open spec fn sent(
    event: Option<SseView>,
    name: Seq<char>,
    members: Map<Seq<char>, Json>,
) -> bool {
    event matches Some(e) && e.event == name && e.data == rendered(Json::Object(members))
}

/// Whether an event is sent under a name with nothing more to say.
pub open spec fn sent_bare(event: Option<SseView>, name: Seq<char>) -> bool {
    event matches Some(e) && e.event == name && e.data == "{}"@
}

/// The parts of a response and of the thinking are sent as they come, each under a name of
/// its own, and so are their starts and ends.
pub proof fn law_responses_are_sent(part: Seq<char>)
    ensures
        sent(
            stream_sse(StreamEventView::TextDelta(part)),
            "text_delta"@,
            map!["delta"@ => Json::Text(part)],
        ),
        sent(
            stream_sse(StreamEventView::ThinkingDelta(part)),
            "thinking_delta"@,
            map!["delta"@ => Json::Text(part)],
        ),
        sent_bare(stream_sse(StreamEventView::TextStart), "text_start"@),
        sent_bare(stream_sse(StreamEventView::TextEnd), "text_end"@),
        sent_bare(stream_sse(StreamEventView::ThinkingStart), "thinking_start"@),
        sent_bare(stream_sse(StreamEventView::ThinkingEnd), "thinking_end"@),
        sent_bare(stream_sse(StreamEventView::ToolCallEnd), "tool_call_end"@),
        stream_sse(StreamEventView::Done) is None,
{
}

/// A tool call is sent with its id: its name when it starts, and the parts of its input as
/// they come.
pub proof fn law_tool_calls_are_sent(id: Seq<char>, text: Seq<char>)
    ensures
        sent(
            stream_sse(StreamEventView::ToolCallStart { id, name: text }),
            "tool_call_start"@,
            map!["id"@ => Json::Text(id), "name"@ => Json::Text(text)],
        ),
        sent(
            stream_sse(StreamEventView::ToolCallDelta { id, json_fragment: text }),
            "tool_call_delta"@,
            map!["id"@ => Json::Text(id), "delta"@ => Json::Text(text)],
        ),
{
}

/// A tool is sent with the id of its call: its name when it starts, and its output when it
/// is done, whether it failed, and what else it gave, or null.
pub proof fn law_tools_are_sent(
    id: Seq<char>,
    text: Seq<char>,
    is_error: bool,
    details: Option<Json>,
)
    ensures
        sent(
            agent_sse(AgentEventView::ToolStart { id, name: text }),
            "tool_start"@,
            map!["id"@ => Json::Text(id), "name"@ => Json::Text(text)],
        ),
        sent(
            agent_sse(AgentEventView::ToolEnd { id, output: text, is_error, details }),
            "tool_end"@,
            map![
                "id"@ => Json::Text(id),
                "output"@ => Json::Text(text),
                "is_error"@ => Json::Bool(is_error),
                "details"@ => if details is Some {
                    details->0
                } else {
                    Json::Null
                },
            ],
        ),
{
}

/// Messages and usage are sent as they are stored, a new title and an error as they are
/// told, wherever the error comes from.
pub proof fn law_news_is_sent(event: AgentEventView, text: Seq<char>)
    ensures
        event matches AgentEventView::MessageComplete(m) ==> agent_sse(event) == Some(
            SseView { event: "message_complete"@, data: m.json },
        ),
        event matches AgentEventView::Stream(StreamEventView::Usage(u)) ==> agent_sse(event) == Some(
            SseView { event: "usage"@, data: u.json },
        ),
        event matches AgentEventView::Stream(e) ==> agent_sse(event) == stream_sse(e),
        sent(
            agent_sse(AgentEventView::TitleUpdate(text)),
            "title_update"@,
            map!["title"@ => Json::Text(text)],
        ),
        sent(
            agent_sse(AgentEventView::Error(text)),
            "agent_error"@,
            map!["message"@ => Json::Text(text)],
        ),
        sent(
            stream_sse(StreamEventView::Error(text)),
            "agent_error"@,
            map!["message"@ => Json::Text(text)],
        ),
        sent_bare(agent_sse(AgentEventView::Done), "done"@),
{
}

// ---------------------------------------------------------------------------
// Commands
// ---------------------------------------------------------------------------

/// A command that brings a message has it sent as it stands; one that should bring one and
/// does not is told so; and one that is not known is named.
pub proof fn law_commands_are_followed(step: RpcStep, command: Seq<char>, data: Json)
    requires
        follows(step, command, data),
    ensures
        command == "prompt"@ || command == "follow_up"@ ==> match data.text_member("message"@) {
            Some(m) => m.len() > 0 ==> (step matches RpcStep::Submit(s) && s@ == m),
            None => step matches RpcStep::Reply(v) && crate::json::json_of(v).text_member(
                "message"@,
            ) == Some("Missing 'message'"@),
        },
        command != "prompt"@ && command != "follow_up"@ && command != "abort"@ ==> (
        step matches RpcStep::Reply(v) && crate::json::json_of(v).text_member("message"@) == Some(
            "Unknown command: "@ + command,
        )),
        step is Submit ==> command == "prompt"@ || command == "follow_up"@,
{
    lemma_replies("Missing 'message'"@);
    lemma_replies("Unknown command: "@ + command);
    reveal_strlit("abort");
    reveal_strlit("prompt");
    reveal_strlit("follow_up");
    assert("abort"@.len() == 5);
    assert("prompt"@.len() == 6);
    assert("follow_up"@.len() == 9);
}

proof fn lemma_replies(message: Seq<char>)
    ensures
        error_json(message).text_member("message"@) == Some(message),
        error_json(message).text_member("type"@) == Some("error"@),
{
    reveal_strlit("type");
    reveal_strlit("message");
    assert("type"@.len() == 4 && "message"@.len() == 7);
}

/// A reply says what it is: an error with its message, or that a command was carried out.
pub proof fn law_replies_say_what_they_are(text: Seq<char>)
    ensures
        error_json(text).text_member("type"@) == Some("error"@),
        error_json(text).text_member("message"@) == Some(text),
        done_json(text).text_member("type"@) == Some("response"@),
        done_json(text).text_member("command"@) == Some(text),
        done_json(text).member("success"@) == Some(Json::Bool(true)),
        command_message(Json::Object(map!["message"@ => Json::Text(text)])) == text,
        command_message(Json::Null).len() == 0,
{
    lemma_replies(text);
    reveal_strlit("type");
    reveal_strlit("command");
    reveal_strlit("success");
    assert("type"@.len() == 4 && "command"@.len() == 7 && "success"@.len() == 7);
    assert("command"@[0] == 'c' && "success"@[0] == 's');
}

/// A failure outside the commands is told with what could not be done and the error.
pub proof fn law_rpc_failures_are_told(error: String)
    ensures
        rpc_failure_text(RpcFailure::SessionsDir(error)) == "Failed to find sessions dir: "@
            + error@,
        rpc_failure_text(RpcFailure::LoadSessions(error)) == "Failed to load sessions: "@ + error@,
        rpc_failure_text(RpcFailure::CreateSession(error)) == "Failed to create session: "@
            + error@,
        rpc_failure_text(RpcFailure::WriteSystemMessage(error))
            == "Failed to write system message: "@ + error@,
        rpc_failure_text(RpcFailure::Submit(error)) == "Failed to submit: "@ + error@,
{
}

} // verus!
