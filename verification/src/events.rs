//! What an agent run reports while it works.
use crate::json::{opt_json, Json};
use vstd::prelude::*;

verus! {

/// Token counts of one turn, and the JSON text that reports them.
#[derive(Debug, Clone)]
pub struct Usage {
    pub input_tokens: u64,
    pub output_tokens: u64,
    pub cache_read_tokens: u64,
    pub cache_write_tokens: u64,
    pub json: String,
}

#[verifier::ext_equal]
pub struct UsageView {
    pub input_tokens: u64,
    pub output_tokens: u64,
    pub cache_read_tokens: u64,
    pub cache_write_tokens: u64,
    pub json: Seq<char>,
}

impl View for Usage {
    type V = UsageView;

    open spec fn view(&self) -> UsageView {
        UsageView {
            input_tokens: self.input_tokens,
            output_tokens: self.output_tokens,
            cache_read_tokens: self.cache_read_tokens,
            cache_write_tokens: self.cache_write_tokens,
            json: self.json@,
        }
    }
}

/// An event in the stream of a model's response.
#[derive(Debug, Clone)]
pub enum StreamEvent {
    TextStart,
    TextDelta(String),
    TextEnd,
    ThinkingStart,
    ThinkingDelta(String),
    ThinkingEnd,
    ToolCallStart { id: String, name: String },
    ToolCallDelta { id: String, json_fragment: String },
    ToolCallEnd,
    Usage(Usage),
    Done,
    Error(String),
}

pub enum StreamEventView {
    TextStart,
    TextDelta(Seq<char>),
    TextEnd,
    ThinkingStart,
    ThinkingDelta(Seq<char>),
    ThinkingEnd,
    ToolCallStart { id: Seq<char>, name: Seq<char> },
    ToolCallDelta { id: Seq<char>, json_fragment: Seq<char> },
    ToolCallEnd,
    Usage(UsageView),
    Done,
    Error(Seq<char>),
}

impl View for StreamEvent {
    type V = StreamEventView;

    open spec fn view(&self) -> StreamEventView {
        match self {
            StreamEvent::TextStart => StreamEventView::TextStart,
            StreamEvent::TextDelta(d) => StreamEventView::TextDelta(d@),
            StreamEvent::TextEnd => StreamEventView::TextEnd,
            StreamEvent::ThinkingStart => StreamEventView::ThinkingStart,
            StreamEvent::ThinkingDelta(d) => StreamEventView::ThinkingDelta(d@),
            StreamEvent::ThinkingEnd => StreamEventView::ThinkingEnd,
            StreamEvent::ToolCallStart { id, name } => StreamEventView::ToolCallStart {
                id: id@,
                name: name@,
            },
            StreamEvent::ToolCallDelta { id, json_fragment } => StreamEventView::ToolCallDelta {
                id: id@,
                json_fragment: json_fragment@,
            },
            StreamEvent::ToolCallEnd => StreamEventView::ToolCallEnd,
            StreamEvent::Usage(u) => StreamEventView::Usage(u@),
            StreamEvent::Done => StreamEventView::Done,
            StreamEvent::Error(e) => StreamEventView::Error(e@),
        }
    }
}

/// A message that has been stored: its id, and the JSON text clients get of it.
#[derive(Debug, Clone)]
pub struct Stored {
    pub id: String,
    pub json: String,
}

#[verifier::ext_equal]
pub struct StoredView {
    pub id: Seq<char>,
    pub json: Seq<char>,
}

impl View for Stored {
    type V = StoredView;

    open spec fn view(&self) -> StoredView {
        StoredView { id: self.id@, json: self.json@ }
    }
}

/// An event that an agent run shows to whoever watches it.
#[derive(Debug, Clone)]
pub enum AgentEvent {
    /// A raw event of the model's response.
    Stream(StreamEvent),
    /// A tool is about to run.
    ToolStart { id: String, name: String },
    /// A tool has finished.
    ToolEnd { id: String, output: String, is_error: bool, details: Option<serde_json::Value> },
    /// A message is complete and stored.
    MessageComplete(Stored),
    /// The session has a new title.
    TitleUpdate(String),
    Error(String),
    Done,
}

pub enum AgentEventView {
    Stream(StreamEventView),
    ToolStart { id: Seq<char>, name: Seq<char> },
    ToolEnd { id: Seq<char>, output: Seq<char>, is_error: bool, details: Option<Json> },
    MessageComplete(StoredView),
    TitleUpdate(Seq<char>),
    Error(Seq<char>),
    Done,
}

impl View for AgentEvent {
    type V = AgentEventView;

    open spec fn view(&self) -> AgentEventView {
        match self {
            AgentEvent::Stream(e) => AgentEventView::Stream(e@),
            AgentEvent::ToolStart { id, name } => AgentEventView::ToolStart {
                id: id@,
                name: name@,
            },
            AgentEvent::ToolEnd { id, output, is_error, details } => AgentEventView::ToolEnd {
                id: id@,
                output: output@,
                is_error: *is_error,
                details: opt_json(*details),
            },
            AgentEvent::MessageComplete(m) => AgentEventView::MessageComplete(m@),
            AgentEvent::TitleUpdate(t) => AgentEventView::TitleUpdate(t@),
            AgentEvent::Error(e) => AgentEventView::Error(e@),
            AgentEvent::Done => AgentEventView::Done,
        }
    }
}

} // verus!
