//! The event stream that clients of the server read.
use crate::events::{AgentEvent, AgentEventView, StreamEvent, StreamEventView};
use crate::json::{
    boolean, group_members, json_of, null, object, object_of_one, object_of_two, opt_json, render,
    rendered, string, Json,
};
use crate::text::opt_view;
use vstd::prelude::*;

verus! {

/// An event of the stream: its name and its data.
pub struct SseEvent {
    pub event: String,
    pub data: String,
}

#[verifier::ext_equal]
pub struct SseView {
    pub event: Seq<char>,
    pub data: Seq<char>,
}

impl View for SseEvent {
    type V = SseView;

    open spec fn view(&self) -> SseView {
        SseView { event: self.event@, data: self.data@ }
    }
}

/// An event without data.
pub open spec fn bare(event: Seq<char>) -> SseView {
    SseView { event, data: "{}"@ }
}

/// An event whose data is a JSON object.
pub open spec fn with_json(event: Seq<char>, members: Map<Seq<char>, Json>) -> SseView {
    SseView { event, data: rendered(Json::Object(members)) }
}

/// What clients get of an event in a model's response. Its end is shown by the run
/// it belongs to.
pub open spec fn stream_sse(event: StreamEventView) -> Option<SseView> {
    match event {
        StreamEventView::TextStart => Some(bare("text_start"@)),
        StreamEventView::TextDelta(d) => Some(
            with_json("text_delta"@, map!["delta"@ => Json::Text(d)]),
        ),
        StreamEventView::TextEnd => Some(bare("text_end"@)),
        StreamEventView::ThinkingStart => Some(bare("thinking_start"@)),
        StreamEventView::ThinkingDelta(d) => Some(
            with_json("thinking_delta"@, map!["delta"@ => Json::Text(d)]),
        ),
        StreamEventView::ThinkingEnd => Some(bare("thinking_end"@)),
        StreamEventView::ToolCallStart { id, name } => Some(
            with_json(
                "tool_call_start"@,
                map!["id"@ => Json::Text(id), "name"@ => Json::Text(name)],
            ),
        ),
        StreamEventView::ToolCallDelta { id, json_fragment } => Some(
            with_json(
                "tool_call_delta"@,
                map!["id"@ => Json::Text(id), "delta"@ => Json::Text(json_fragment)],
            ),
        ),
        StreamEventView::ToolCallEnd => Some(bare("tool_call_end"@)),
        StreamEventView::Usage(u) => Some(SseView { event: "usage"@, data: u.json }),
        StreamEventView::Done => None,
        StreamEventView::Error(m) => Some(
            with_json("agent_error"@, map!["message"@ => Json::Text(m)]),
        ),
    }
}

/// What clients get of an event of a run.
pub open spec fn agent_sse(event: AgentEventView) -> Option<SseView> {
    match event {
        AgentEventView::Stream(e) => stream_sse(e),
        AgentEventView::ToolStart { id, name } => Some(
            with_json(
                "tool_start"@,
                map!["id"@ => Json::Text(id), "name"@ => Json::Text(name)],
            ),
        ),
        AgentEventView::ToolEnd { id, output, is_error, details } => Some(
            with_json(
                "tool_end"@,
                map![
                    "id"@ => Json::Text(id),
                    "output"@ => Json::Text(output),
                    "is_error"@ => Json::Bool(is_error),
                    "details"@ => match details {
                        Some(d) => d,
                        None => Json::Null,
                    },
                ],
            ),
        ),
        AgentEventView::MessageComplete(m) => Some(
            SseView { event: "message_complete"@, data: m.json },
        ),
        AgentEventView::TitleUpdate(t) => Some(
            with_json("title_update"@, map!["title"@ => Json::Text(t)]),
        ),
        AgentEventView::Error(m) => Some(
            with_json("agent_error"@, map!["message"@ => Json::Text(m)]),
        ),
        AgentEventView::Done => Some(bare("done"@)),
    }
}

fn plain(event: &str) -> (r: SseEvent)
    ensures
        r@ == bare(event@),
{
    SseEvent { event: event.to_string(), data: "{}".to_string() }
}

fn one_member(event: &str, key: &str, text: &String) -> (r: SseEvent)
    ensures
        r@ == with_json(event@, map![key@ => Json::Text(text@)]),
{
    let json = object_of_one(key, string(text.clone()));
    SseEvent { event: event.to_string(), data: render(&json) }
}

fn two_members(event: &str, key_a: &str, a: &String, key_b: &str, b: &String) -> (r: SseEvent)
    ensures
        r@ == with_json(event@, map![key_a@ => Json::Text(a@), key_b@ => Json::Text(b@)]),
{
    let json = object_of_two(key_a, string(a.clone()), key_b, string(b.clone()));
    SseEvent { event: event.to_string(), data: render(&json) }
}

pub fn stream_event_to_sse(event: &StreamEvent) -> (r: Option<SseEvent>)
    ensures
        opt_view(r) == stream_sse(event@),
{
    match event {
        StreamEvent::TextStart => Some(plain("text_start")),
        StreamEvent::TextDelta(d) => Some(one_member("text_delta", "delta", d)),
        StreamEvent::TextEnd => Some(plain("text_end")),
        StreamEvent::ThinkingStart => Some(plain("thinking_start")),
        StreamEvent::ThinkingDelta(d) => Some(one_member("thinking_delta", "delta", d)),
        StreamEvent::ThinkingEnd => Some(plain("thinking_end")),
        StreamEvent::ToolCallStart { id, name } => Some(
            two_members("tool_call_start", "id", id, "name", name),
        ),
        StreamEvent::ToolCallDelta { id, json_fragment } => Some(
            two_members("tool_call_delta", "id", id, "delta", json_fragment),
        ),
        StreamEvent::ToolCallEnd => Some(plain("tool_call_end")),
        StreamEvent::Usage(u) => Some(
            SseEvent { event: "usage".to_string(), data: u.json.clone() },
        ),
        StreamEvent::Done => None,
        StreamEvent::Error(m) => Some(one_member("agent_error", "message", m)),
    }
}

fn tool_end_json(
    id: &String,
    output: &String,
    is_error: bool,
    details: &Option<serde_json::Value>,
) -> (r: serde_json::Value)
    ensures
        json_of(r) == Json::Object(
            map![
                "id"@ => Json::Text(id@),
                "output"@ => Json::Text(output@),
                "is_error"@ => Json::Bool(is_error),
                "details"@ => match opt_json(*details) {
                    Some(d) => d,
                    None => Json::Null,
                },
            ],
        ),
{
    broadcast use group_members;

    let mut fields: Vec<(String, serde_json::Value)> = Vec::new();
    fields.push(("id".to_string(), string(id.clone())));
    fields.push(("output".to_string(), string(output.clone())));
    fields.push(("is_error".to_string(), boolean(is_error)));
    let value = match details {
        Some(d) => d.clone(),
        None => null(),
    };
    fields.push(("details".to_string(), value));
    assert(crate::json::members(fields@) =~= map![
        "id"@ => Json::Text(id@),
        "output"@ => Json::Text(output@),
        "is_error"@ => Json::Bool(is_error),
        "details"@ => match opt_json(*details) {
            Some(d) => d,
            None => Json::Null,
        },
    ]);
    object(fields)
}

pub fn agent_event_to_sse(event: &AgentEvent) -> (r: Option<SseEvent>)
    ensures
        opt_view(r) == agent_sse(event@),
{
    match event {
        AgentEvent::Stream(e) => stream_event_to_sse(e),
        AgentEvent::ToolStart { id, name } => Some(
            two_members("tool_start", "id", id, "name", name),
        ),
        AgentEvent::ToolEnd { id, output, is_error, details } => {
            let json = tool_end_json(id, output, *is_error, details);
            Some(SseEvent { event: "tool_end".to_string(), data: render(&json) })
        },
        AgentEvent::MessageComplete(m) => Some(
            SseEvent { event: "message_complete".to_string(), data: m.json.clone() },
        ),
        AgentEvent::TitleUpdate(t) => Some(one_member("title_update", "title", t)),
        AgentEvent::Error(m) => Some(one_member("agent_error", "message", m)),
        AgentEvent::Done => Some(plain("done")),
    }
}

/// What a subscription gives.
pub enum Received {
    Event(AgentEvent),
    /// The client was too slow and missed events.
    Lagged,
    Closed,
}

/// What to send to a client, and whether the stream ends then.
pub struct StreamStep {
    pub out: Option<SseEvent>,
    pub ended: bool,
}

/// Pass one thing on to a client. A client that missed events is told to load the
/// session anew; the stream ends with the run.
pub fn event_stream(received: &Received) -> (r: StreamStep)
    ensures
        match received {
            Received::Event(e) => opt_view(r.out) == agent_sse(e@) && r.ended == (e is Done),
            Received::Lagged => opt_view(r.out) == Some(bare("resync"@)) && !r.ended,
            Received::Closed => r.out is None && r.ended,
        },
{
    match received {
        Received::Event(e) => {
            let ended = match e {
                AgentEvent::Done => true,
                _ => false,
            };
            StreamStep { out: agent_event_to_sse(e), ended }
        },
        Received::Lagged => StreamStep { out: Some(plain("resync")), ended: false },
        Received::Closed => StreamStep { out: None, ended: true },
    }
}

/// Clients see every event of a run but the end of a model's response.
pub proof fn law_nothing_is_hidden(event: AgentEventView)
    ensures
        agent_sse(event) is None <==> event == AgentEventView::Stream(StreamEventView::Done),
{
}

} // verus!
