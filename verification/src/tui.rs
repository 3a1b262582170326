//! The terminal interface: what it shows of a run and what the user's input means.
use crate::events::{AgentEvent, AgentEventView, StreamEvent, StreamEventView, Usage, UsageView};
use crate::screen::{
    can_set, framed_height, framed_text_height, inside, preview_scroll, rows_at, scroll_to_end,
    set_lines, set_text, shallow, ScreenLine, Setting,
};
use crate::text::{
    byte_len, bytes_up_to, clip, decimal, group_views, join, joined, number_text, opt_text, same,
    split_words, starts_with, trim, trimmed, truncate, views, words,
};
use vstd::prelude::*;

verus! {

/// Height of the part of the terminal that is drawn anew.
pub const VIEWPORT_HEIGHT: u16 = 8;

/// How many bytes of a tool's output are shown.
pub const OUTPUT_BYTES: usize = 50_000;

// ---------------------------------------------------------------------------
// Phases
// ---------------------------------------------------------------------------

/// What the interface is busy with.
pub enum Phase {
    Input,
    Waiting,
    Thinking,
    Responding,
    Tool(String),
}

pub enum PhaseView {
    Input,
    Waiting,
    Thinking,
    Responding,
    Tool(Seq<char>),
}

impl View for Phase {
    type V = PhaseView;

    open spec fn view(&self) -> PhaseView {
        match self {
            Phase::Input => PhaseView::Input,
            Phase::Waiting => PhaseView::Waiting,
            Phase::Thinking => PhaseView::Thinking,
            Phase::Responding => PhaseView::Responding,
            Phase::Tool(name) => PhaseView::Tool(name@),
        }
    }
}

pub open spec fn phase_label(phase: PhaseView) -> Seq<char> {
    match phase {
        PhaseView::Input => "input"@,
        PhaseView::Waiting => "waiting"@,
        PhaseView::Thinking => "thinking"@,
        PhaseView::Responding => "responding"@,
        PhaseView::Tool(_) => "tool"@,
    }
}

pub open spec fn phase_detail(phase: PhaseView) -> Seq<char> {
    match phase {
        PhaseView::Input => Seq::empty(),
        PhaseView::Waiting => "sending request..."@,
        PhaseView::Thinking => "reasoning..."@,
        PhaseView::Responding => "writing..."@,
        PhaseView::Tool(name) => "executing: "@ + name,
    }
}

impl Phase {
    pub fn label(&self) -> (r: &str)
        ensures
            r@ == phase_label(self@),
    {
        match self {
            Phase::Input => "input",
            Phase::Waiting => "waiting",
            Phase::Thinking => "thinking",
            Phase::Responding => "responding",
            Phase::Tool(_) => "tool",
        }
    }

    pub fn detail(&self) -> (r: String)
        ensures
            r@ == phase_detail(self@),
    {
        match self {
            Phase::Input => String::new(),
            Phase::Waiting => "sending request...".to_string(),
            Phase::Thinking => "reasoning...".to_string(),
            Phase::Responding => "writing...".to_string(),
            Phase::Tool(name) => "executing: ".to_string().concat(name.as_str()),
        }
    }
}

// ---------------------------------------------------------------------------
// Blocks
// ---------------------------------------------------------------------------

/// What a block of the conversation is.
pub enum BlockKind {
    User,
    Assistant,
    Thinking,
    Tool { name: String, is_error: bool },
    Info,
    Error,
}

pub enum BlockKindView {
    User,
    Assistant,
    Thinking,
    Tool { name: Seq<char>, is_error: bool },
    Info,
    Error,
}

impl View for BlockKind {
    type V = BlockKindView;

    open spec fn view(&self) -> BlockKindView {
        match self {
            BlockKind::User => BlockKindView::User,
            BlockKind::Assistant => BlockKindView::Assistant,
            BlockKind::Thinking => BlockKindView::Thinking,
            BlockKind::Tool { name, is_error } => BlockKindView::Tool {
                name: name@,
                is_error: *is_error,
            },
            BlockKind::Info => BlockKindView::Info,
            BlockKind::Error => BlockKindView::Error,
        }
    }
}

/// A block of the conversation that has scrolled away.
pub struct ContentBlock {
    pub kind: BlockKind,
    pub body: String,
}

#[verifier::ext_equal]
pub struct BlockView {
    pub kind: BlockKindView,
    pub body: Seq<char>,
}

impl View for ContentBlock {
    type V = BlockView;

    open spec fn view(&self) -> BlockView {
        BlockView { kind: self.kind@, body: self.body@ }
    }
}

/// A colour.
#[derive(Debug, Clone, Copy, PartialEq, Eq, Structural)]
pub enum Tint {
    Cyan,
    Blue,
    DarkGray,
    Red,
    Yellow,
    Default,
}

/// The title of a block's frame and its colour.
pub struct Chrome {
    pub title: String,
    pub tint: Tint,
}

pub open spec fn chrome_title(kind: BlockKindView) -> Seq<char> {
    match kind {
        BlockKindView::User => "you"@,
        BlockKindView::Assistant => "assistant"@,
        BlockKindView::Thinking => "thinking"@,
        BlockKindView::Tool { name, .. } => name,
        BlockKindView::Info => Seq::empty(),
        BlockKindView::Error => "error"@,
    }
}

pub open spec fn chrome_tint(kind: BlockKindView) -> Tint {
    match kind {
        BlockKindView::User => Tint::Cyan,
        BlockKindView::Assistant => Tint::Blue,
        BlockKindView::Thinking => Tint::DarkGray,
        BlockKindView::Tool { is_error, .. } => if is_error {
            Tint::Red
        } else {
            Tint::Yellow
        },
        BlockKindView::Info => Tint::Default,
        BlockKindView::Error => Tint::Red,
    }
}

pub fn block_chrome(kind: &BlockKind) -> (r: Chrome)
    ensures
        r.title@ == chrome_title(kind@),
        r.tint == chrome_tint(kind@),
{
    match kind {
        BlockKind::User => Chrome { title: "you".to_string(), tint: Tint::Cyan },
        BlockKind::Assistant => Chrome { title: "assistant".to_string(), tint: Tint::Blue },
        BlockKind::Thinking => Chrome { title: "thinking".to_string(), tint: Tint::DarkGray },
        BlockKind::Tool { name, is_error } => {
            let tint = if *is_error {
                Tint::Red
            } else {
                Tint::Yellow
            };
            Chrome { title: name.clone(), tint }
        },
        BlockKind::Info => Chrome { title: String::new(), tint: Tint::Default },
        BlockKind::Error => Chrome { title: "error".to_string(), tint: Tint::Red },
    }
}

/// How the body of a block is set.
#[derive(Debug, Clone, Copy, PartialEq, Eq, Structural)]
pub enum BodyStyle {
    Markdown,
    /// Its lines, dimmed.
    DimLines,
    /// Its lines, in red.
    RedLines,
    /// All of it as one line, dimmed.
    DimWhole,
}

pub open spec fn body_style(kind: BlockKindView) -> BodyStyle {
    match kind {
        BlockKindView::User => BodyStyle::Markdown,
        BlockKindView::Assistant => BodyStyle::Markdown,
        BlockKindView::Thinking => BodyStyle::DimLines,
        BlockKindView::Tool { is_error, .. } => if is_error {
            BodyStyle::RedLines
        } else {
            BodyStyle::DimLines
        },
        BlockKindView::Info => BodyStyle::DimWhole,
        BlockKindView::Error => BodyStyle::RedLines,
    }
}

pub fn render_style(kind: &BlockKind) -> (r: BodyStyle)
    ensures
        r == body_style(kind@),
{
    match kind {
        BlockKind::User => BodyStyle::Markdown,
        BlockKind::Assistant => BodyStyle::Markdown,
        BlockKind::Thinking => BodyStyle::DimLines,
        BlockKind::Tool { is_error, .. } => {
            if *is_error {
                BodyStyle::RedLines
            } else {
                BodyStyle::DimLines
            }
        },
        BlockKind::Info => BodyStyle::DimWhole,
        BlockKind::Error => BodyStyle::RedLines,
    }
}

/// How the body of a block is laid out.
pub open spec fn body_setting(kind: BlockKindView) -> Setting {
    match body_style(kind) {
        BodyStyle::Markdown => Setting::Markdown,
        BodyStyle::DimLines => Setting::Lines,
        BodyStyle::RedLines => Setting::Lines,
        BodyStyle::DimWhole => Setting::Whole,
    }
}

/// The lines of a block's body.
pub fn render_block_content(block: &ContentBlock) -> (r: Vec<ScreenLine>)
    requires
        can_set(body_setting(block@.kind), block@.body),
    ensures
        views(r@) == set_lines(body_setting(block@.kind), block@.body),
{
    let setting = match render_style(&block.kind) {
        BodyStyle::Markdown => Setting::Markdown,
        BodyStyle::DimLines => Setting::Lines,
        BodyStyle::RedLines => Setting::Lines,
        BodyStyle::DimWhole => Setting::Whole,
    };
    set_text(setting, block.body.as_str())
}

/// The height of a block at a width. All blocks but notes have a frame.
pub fn block_render_height(kind: &BlockKind, width: u16, lines: &Vec<ScreenLine>) -> (r: u16)
    ensures
        r == framed_height(
            !(kind@ is Info),
            rows_at(views(lines@), inside(!(kind@ is Info), width)),
        ),
{
    let framed = match kind {
        BlockKind::Info => false,
        _ => true,
    };
    framed_text_height(framed, width, lines)
}

/// The height that a block takes when it is shown.
pub fn block_height(block: &ContentBlock, width: u16) -> (r: u16)
    requires
        can_set(body_setting(block@.kind), block@.body),
    ensures
        r == framed_height(
            !(block@.kind is Info),
            rows_at(
                set_lines(body_setting(block@.kind), block@.body),
                inside(!(block@.kind is Info), width),
            ),
        ),
{
    let lines = render_block_content(block);
    block_render_height(&block.kind, width, &lines)
}

// ---------------------------------------------------------------------------
// State
// ---------------------------------------------------------------------------

/// Tokens used so far.
#[derive(Debug, Clone, Copy, PartialEq, Eq, Structural)]
pub struct Totals {
    pub input_tokens: u64,
    pub output_tokens: u64,
    pub cache_read_tokens: u64,
    pub cache_write_tokens: u64,
}

/// Whether the totals can take in the counts of a turn.
pub open spec fn totals_fit(totals: Totals, usage: UsageView) -> bool {
    &&& totals.input_tokens + usage.input_tokens <= u64::MAX
    &&& totals.output_tokens + usage.output_tokens <= u64::MAX
    &&& totals.cache_read_tokens + usage.cache_read_tokens <= u64::MAX
    &&& totals.cache_write_tokens + usage.cache_write_tokens <= u64::MAX
}

pub open spec fn totals_with(totals: Totals, usage: UsageView) -> Totals {
    Totals {
        input_tokens: (totals.input_tokens + usage.input_tokens) as u64,
        output_tokens: (totals.output_tokens + usage.output_tokens) as u64,
        cache_read_tokens: (totals.cache_read_tokens + usage.cache_read_tokens) as u64,
        cache_write_tokens: (totals.cache_write_tokens + usage.cache_write_tokens) as u64,
    }
}

pub struct TuiState {
    pub phase: Phase,
    /// The blocks shown so far.
    pub blocks: Vec<ContentBlock>,
    /// The response that is coming in.
    pub text_buf: String,
    /// The thinking that is coming in.
    pub thinking_buf: String,
    pub totals: Totals,
    pub model_name: String,
}

#[verifier::ext_equal]
pub struct TuiView {
    pub phase: PhaseView,
    pub blocks: Seq<BlockView>,
    pub text_buf: Seq<char>,
    pub thinking_buf: Seq<char>,
    pub totals: Totals,
    pub model_name: Seq<char>,
}

impl View for TuiState {
    type V = TuiView;

    open spec fn view(&self) -> TuiView {
        TuiView {
            phase: self.phase@,
            blocks: views(self.blocks@),
            text_buf: self.text_buf@,
            thinking_buf: self.thinking_buf@,
            totals: self.totals,
            model_name: self.model_name@,
        }
    }
}

/// What has changed on the screen.
#[derive(Debug, Clone, Copy, PartialEq, Eq, Structural)]
pub enum Effect {
    Nothing,
    /// The viewport is to be drawn anew.
    Draw,
    /// The last block is new.
    Emit,
}

pub open spec fn emitted(state: TuiView, kind: BlockKindView, body: Seq<char>) -> TuiView {
    TuiView { blocks: state.blocks.push(BlockView { kind, body }), ..state }
}

pub open spec fn usage_note(usage: UsageView) -> Seq<char> {
    "tokens: "@ + decimal(usage.input_tokens as nat) + " in / "@ + decimal(
        usage.output_tokens as nat,
    ) + " out / "@ + decimal(usage.cache_read_tokens as nat) + " cached"@
}

/// What an event of the model's response changes.
pub open spec fn streamed(state: TuiView, event: StreamEventView) -> (TuiView, Effect) {
    match event {
        StreamEventView::ThinkingStart => (
            TuiView { thinking_buf: Seq::empty(), phase: PhaseView::Thinking, ..state },
            Effect::Draw,
        ),
        StreamEventView::ThinkingDelta(d) => (
            TuiView { thinking_buf: state.thinking_buf + d, ..state },
            Effect::Draw,
        ),
        StreamEventView::ThinkingEnd => {
            let next = TuiView {
                thinking_buf: Seq::empty(),
                phase: PhaseView::Waiting,
                ..state
            };
            if state.thinking_buf.len() > 0 {
                (emitted(next, BlockKindView::Thinking, state.thinking_buf), Effect::Emit)
            } else {
                (next, Effect::Draw)
            }
        },
        StreamEventView::TextStart => (
            TuiView { text_buf: Seq::empty(), phase: PhaseView::Responding, ..state },
            Effect::Draw,
        ),
        StreamEventView::TextDelta(d) => (
            TuiView { text_buf: state.text_buf + d, ..state },
            Effect::Draw,
        ),
        StreamEventView::TextEnd => {
            let next = TuiView { text_buf: Seq::empty(), phase: PhaseView::Waiting, ..state };
            if state.text_buf.len() > 0 {
                (emitted(next, BlockKindView::Assistant, state.text_buf), Effect::Emit)
            } else {
                (next, Effect::Draw)
            }
        },
        StreamEventView::ToolCallStart { name, .. } => (
            TuiView { phase: PhaseView::Tool(name), ..state },
            Effect::Draw,
        ),
        StreamEventView::Usage(u) => (
            emitted(
                TuiView { totals: totals_with(state.totals, u), ..state },
                BlockKindView::Info,
                usage_note(u),
            ),
            Effect::Emit,
        ),
        StreamEventView::Error(m) => (emitted(state, BlockKindView::Error, m), Effect::Emit),
        _ => (state, Effect::Draw),
    }
}

/// What an event of a run changes.
pub open spec fn shown(state: TuiView, event: AgentEventView) -> (TuiView, Effect) {
    match event {
        AgentEventView::Stream(e) => streamed(state, e),
        AgentEventView::ToolStart { name, .. } => (
            TuiView { phase: PhaseView::Tool(name), ..state },
            Effect::Draw,
        ),
        AgentEventView::ToolEnd { output, is_error, .. } => (
            emitted(
                TuiView { phase: PhaseView::Waiting, ..state },
                BlockKindView::Tool {
                    name: match state.phase {
                        PhaseView::Tool(n) => n,
                        _ => "tool"@,
                    },
                    is_error,
                },
                clip(output, OUTPUT_BYTES as nat),
            ),
            Effect::Emit,
        ),
        AgentEventView::Error(m) => (emitted(state, BlockKindView::Error, m), Effect::Emit),
        _ => (state, Effect::Nothing),
    }
}

/// Whether the totals can take in what an event reports.
pub open spec fn countable(state: TuiView, event: StreamEventView) -> bool {
    match event {
        StreamEventView::Usage(u) => totals_fit(state.totals, u),
        _ => true,
    }
}

impl TuiState {
    /// The interface as it starts.
    pub fn new(model_name: String) -> (r: Self)
        ensures
            r@ == (TuiView {
                phase: PhaseView::Input,
                blocks: Seq::empty(),
                text_buf: Seq::empty(),
                thinking_buf: Seq::empty(),
                totals: Totals {
                    input_tokens: 0,
                    output_tokens: 0,
                    cache_read_tokens: 0,
                    cache_write_tokens: 0,
                },
                model_name: model_name@,
            }),
    {
        broadcast use group_views;

        TuiState {
            phase: Phase::Input,
            blocks: Vec::new(),
            text_buf: String::new(),
            thinking_buf: String::new(),
            totals: Totals {
                input_tokens: 0,
                output_tokens: 0,
                cache_read_tokens: 0,
                cache_write_tokens: 0,
            },
            model_name,
        }
    }

    fn emit_block(&mut self, kind: BlockKind, body: String)
        ensures
            final(self)@ == emitted(old(self)@, kind@, body@),
    {
        broadcast use group_views;

        self.blocks.push(ContentBlock { kind, body });
        assert(self@ =~= emitted(old(self)@, kind@, body@));
    }

    /// Whether the totals can take in the usage that an event reports.
    pub fn can_count(&self, event: &StreamEvent) -> (r: bool)
        ensures
            r == countable(self@, event@),
    {
        match event {
            StreamEvent::Usage(u) => {
                self.totals.input_tokens <= u64::MAX - u.input_tokens && self.totals.output_tokens
                    <= u64::MAX - u.output_tokens && self.totals.cache_read_tokens <= u64::MAX
                    - u.cache_read_tokens && self.totals.cache_write_tokens <= u64::MAX
                    - u.cache_write_tokens
            },
            _ => true,
        }
    }

    fn count_usage(&mut self, u: &Usage)
        requires
            totals_fit(old(self)@.totals, u@),
        ensures
            final(self)@ == emitted(
                TuiView { totals: totals_with(old(self)@.totals, u@), ..old(self)@ },
                BlockKindView::Info,
                usage_note(u@),
            ),
    {
        self.totals = Totals {
            input_tokens: self.totals.input_tokens + u.input_tokens,
            output_tokens: self.totals.output_tokens + u.output_tokens,
            cache_read_tokens: self.totals.cache_read_tokens + u.cache_read_tokens,
            cache_write_tokens: self.totals.cache_write_tokens + u.cache_write_tokens,
        };
        let mut note = "tokens: ".to_string();
        let a = number_text(u.input_tokens as u128);
        note.append(a.as_str());
        note.append(" in / ");
        let b = number_text(u.output_tokens as u128);
        note.append(b.as_str());
        note.append(" out / ");
        let c = number_text(u.cache_read_tokens as u128);
        note.append(c.as_str());
        note.append(" cached");
        self.emit_block(BlockKind::Info, note);
    }

    /// Show an event of the model's response.
    pub fn handle_stream_event(&mut self, event: &StreamEvent) -> (r: Effect)
        requires
            countable(old(self)@, event@),
        ensures
            final(self)@ == streamed(old(self)@, event@).0,
            r == streamed(old(self)@, event@).1,
    {
        match event {
            StreamEvent::ThinkingStart => {
                self.thinking_buf = String::new();
                self.phase = Phase::Thinking;
                Effect::Draw
            },
            StreamEvent::ThinkingDelta(d) => {
                self.thinking_buf.append(d.as_str());
                Effect::Draw
            },
            StreamEvent::ThinkingEnd => {
                let body = self.thinking_buf.clone();
                self.thinking_buf = String::new();
                self.phase = Phase::Waiting;
                if body.as_str().is_empty() {
                    Effect::Draw
                } else {
                    self.emit_block(BlockKind::Thinking, body);
                    Effect::Emit
                }
            },
            StreamEvent::TextStart => {
                self.text_buf = String::new();
                self.phase = Phase::Responding;
                Effect::Draw
            },
            StreamEvent::TextDelta(d) => {
                self.text_buf.append(d.as_str());
                Effect::Draw
            },
            StreamEvent::TextEnd => {
                let body = self.text_buf.clone();
                self.text_buf = String::new();
                self.phase = Phase::Waiting;
                if body.as_str().is_empty() {
                    Effect::Draw
                } else {
                    self.emit_block(BlockKind::Assistant, body);
                    Effect::Emit
                }
            },
            StreamEvent::ToolCallStart { name, .. } => {
                self.phase = Phase::Tool(name.clone());
                Effect::Draw
            },
            StreamEvent::Usage(u) => {
                self.count_usage(u);
                Effect::Emit
            },
            StreamEvent::Error(m) => {
                self.emit_block(BlockKind::Error, m.clone());
                Effect::Emit
            },
            _ => Effect::Draw,
        }
    }

    /// Show an event of a run.
    pub fn handle_agent_event(&mut self, event: &AgentEvent) -> (r: Effect)
        requires
            event@ matches AgentEventView::Stream(e) ==> countable(old(self)@, e),
        ensures
            final(self)@ == shown(old(self)@, event@).0,
            r == shown(old(self)@, event@).1,
    {
        match event {
            AgentEvent::Stream(e) => self.handle_stream_event(e),
            AgentEvent::ToolStart { name, .. } => {
                self.phase = Phase::Tool(name.clone());
                Effect::Draw
            },
            AgentEvent::ToolEnd { output, is_error, .. } => {
                let name = match &self.phase {
                    Phase::Tool(n) => n.clone(),
                    _ => "tool".to_string(),
                };
                self.phase = Phase::Waiting;
                let body = truncate(output.as_str(), OUTPUT_BYTES);
                self.emit_block(BlockKind::Tool { name, is_error: *is_error }, body);
                Effect::Emit
            },
            AgentEvent::Error(m) => {
                self.emit_block(BlockKind::Error, m.clone());
                Effect::Emit
            },
            _ => Effect::Nothing,
        }
    }

    /// Show a prompt of the user and wait for the response.
    pub fn begin_prompt(&mut self, text: &str)
        ensures
            final(self)@ == (TuiView {
                phase: PhaseView::Waiting,
                ..emitted(old(self)@, BlockKindView::User, text@)
            }),
    {
        self.emit_block(BlockKind::User, text.to_string());
        self.phase = Phase::Waiting;
    }

    /// Show what has come in of a response that broke off, and wait for input.
    pub fn finish_prompt(&mut self)
        ensures
            final(self)@ == finished(old(self)@),
    {
        if !self.text_buf.as_str().is_empty() {
            let body = self.text_buf.clone();
            self.text_buf = String::new();
            self.emit_block(BlockKind::Assistant, body);
        }
        assert(self@.text_buf =~= Seq::<char>::empty());
        if !self.thinking_buf.as_str().is_empty() {
            let body = self.thinking_buf.clone();
            self.thinking_buf = String::new();
            self.emit_block(BlockKind::Thinking, body);
        }
        assert(self@.thinking_buf =~= Seq::<char>::empty());
        self.phase = Phase::Input;
        assert(self@ =~= finished(old(self)@));
    }
}

/// The blocks that unfinished texts make.
pub open spec fn leftovers(state: TuiView) -> Seq<BlockView> {
    (if state.text_buf.len() > 0 {
        seq![BlockView { kind: BlockKindView::Assistant, body: state.text_buf }]
    } else {
        Seq::empty()
    }) + (if state.thinking_buf.len() > 0 {
        seq![BlockView { kind: BlockKindView::Thinking, body: state.thinking_buf }]
    } else {
        Seq::empty()
    })
}

/// The interface once a prompt has been dealt with.
pub open spec fn finished(state: TuiView) -> TuiView {
    TuiView {
        phase: PhaseView::Input,
        blocks: state.blocks + leftovers(state),
        text_buf: Seq::empty(),
        thinking_buf: Seq::empty(),
        ..state
    }
}

// ---------------------------------------------------------------------------
// The viewport
// ---------------------------------------------------------------------------

/// The height of the viewport in a terminal.
pub fn viewport_height(terminal_height: u16) -> (r: u16)
    ensures
        r == if terminal_height < VIEWPORT_HEIGHT {
            terminal_height
        } else {
            VIEWPORT_HEIGHT
        },
{
    if terminal_height < VIEWPORT_HEIGHT {
        terminal_height
    } else {
        VIEWPORT_HEIGHT
    }
}

/// What the viewport shows above the status bar.
pub enum Preview {
    /// The field for input.
    Input,
    /// Thinking as it comes in.
    Thinking(String),
    /// A response as it comes in, as markdown.
    Response(String),
    /// A tool that runs.
    Tool { name: String, line: String },
    /// A line that says what is going on.
    Line(String),
}

pub enum PreviewView {
    Input,
    Thinking(Seq<char>),
    Response(Seq<char>),
    Tool { name: Seq<char>, line: Seq<char> },
    Line(Seq<char>),
}

impl View for Preview {
    type V = PreviewView;

    open spec fn view(&self) -> PreviewView {
        match self {
            Preview::Input => PreviewView::Input,
            Preview::Thinking(t) => PreviewView::Thinking(t@),
            Preview::Response(t) => PreviewView::Response(t@),
            Preview::Tool { name, line } => PreviewView::Tool { name: name@, line: line@ },
            Preview::Line(t) => PreviewView::Line(t@),
        }
    }
}

pub open spec fn preview_of(state: TuiView) -> PreviewView {
    match state.phase {
        PhaseView::Input => PreviewView::Input,
        PhaseView::Thinking => if state.thinking_buf.len() > 0 {
            PreviewView::Thinking(state.thinking_buf)
        } else {
            PreviewView::Line(phase_detail(state.phase))
        },
        PhaseView::Responding => if state.text_buf.len() > 0 {
            PreviewView::Response(state.text_buf)
        } else {
            PreviewView::Line(phase_detail(state.phase))
        },
        PhaseView::Tool(name) => PreviewView::Tool { name, line: "executing: "@ + name },
        PhaseView::Waiting => PreviewView::Line(phase_detail(state.phase)),
    }
}

/// Decide what the viewport shows.
pub fn render_preview(state: &TuiState) -> (r: Preview)
    ensures
        r@ == preview_of(state@),
{
    match &state.phase {
        Phase::Input => Preview::Input,
        Phase::Thinking => {
            if state.thinking_buf.as_str().is_empty() {
                Preview::Line(state.phase.detail())
            } else {
                Preview::Thinking(state.thinking_buf.clone())
            }
        },
        Phase::Responding => {
            if state.text_buf.as_str().is_empty() {
                Preview::Line(state.phase.detail())
            } else {
                Preview::Response(state.text_buf.clone())
            }
        },
        Phase::Tool(name) => {
            let line = "executing: ".to_string().concat(name.as_str());
            Preview::Tool { name: name.clone(), line }
        },
        Phase::Waiting => Preview::Line(state.phase.detail()),
    }
}

/// The lines of what the viewport shows.
pub open spec fn preview_lines(preview: PreviewView) -> Seq<Seq<Seq<char>>> {
    match preview {
        PreviewView::Input => Seq::empty(),
        PreviewView::Thinking(text) => set_lines(Setting::Lines, text),
        PreviewView::Response(text) => set_lines(Setting::Markdown, text),
        PreviewView::Tool { line, .. } => set_lines(Setting::Whole, line),
        PreviewView::Line(text) => set_lines(Setting::Whole, text),
    }
}

/// How far to scroll what the viewport shows, so that its end is seen in an area.
pub fn render_preview_block(preview: &Preview, width: u16, height: u16) -> (r: u16)
    requires
        match preview@ {
            PreviewView::Response(text) => shallow(text),
            _ => true,
        },
    ensures
        r == scroll_to_end(rows_at(preview_lines(preview@), width), height),
{
    let lines: Vec<ScreenLine> = match preview {
        Preview::Input => Vec::new(),
        Preview::Thinking(text) => set_text(Setting::Lines, text.as_str()),
        Preview::Response(text) => set_text(Setting::Markdown, text.as_str()),
        Preview::Tool { line, .. } => set_text(Setting::Whole, line.as_str()),
        Preview::Line(text) => set_text(Setting::Whole, text.as_str()),
    };
    assert(views(lines@) =~= preview_lines(preview@));
    preview_scroll(&lines, width, height)
}

pub open spec fn spinner(tick: nat) -> Seq<char> {
    if tick % 4 == 0 {
        "*"@
    } else if tick % 4 == 2 {
        "O"@
    } else {
        "o"@
    }
}

pub fn spinner_frame(tick: usize) -> (r: &'static str)
    ensures
        r@ == spinner(tick as nat),
{
    let k: usize = tick % 4;
    if k == 0 {
        "*"
    } else if k == 2 {
        "O"
    } else {
        "o"
    }
}

/// The status bar: a text at either end, and spaces between them.
pub struct StatusBar {
    pub left: String,
    pub padding: String,
    pub right: String,
}

pub open spec fn status_left(state: TuiView, tick: nat) -> Seq<char> {
    " "@ + spinner(tick) + " "@ + phase_label(state.phase) + " | "@ + state.model_name + " "@
}

pub open spec fn status_right(totals: Totals) -> Seq<char> {
    " "@ + decimal(totals.input_tokens as nat) + "in/"@ + decimal(totals.output_tokens as nat)
        + "out/"@ + decimal(totals.cache_read_tokens as nat) + "cache "@
}

/// The spaces that fill a bar, where its texts leave room.
pub open spec fn fill(left: Seq<char>, right: Seq<char>, width: u16) -> Seq<char> {
    let used = byte_len(left) + byte_len(right);
    if width > used {
        Seq::new((width - used) as nat, |i: int| ' ')
    } else {
        Seq::empty()
    }
}

fn spaces(n: usize) -> (r: String)
    ensures
        r@ == Seq::new(n as nat, |i: int| ' '),
{
    let mut r = String::new();
    let mut i: usize = 0;
    while i < n
        invariant
            i <= n,
            r@ == Seq::new(i as nat, |j: int| ' '),
        decreases n - i,
    {
        r.push(' ');
        assert(r@ =~= Seq::new((i + 1) as nat, |j: int| ' '));
        i += 1;
    }
    r
}

fn padding(left: &str, right: &str, width: u16) -> (r: String)
    ensures
        r@ == fill(left@, right@, width),
{
    let bar: usize = width as usize;
    let a: usize = bytes_up_to(left, bar);
    let b: usize = bytes_up_to(right, bar);
    if a + b < bar {
        spaces(bar - (a + b))
    } else {
        let r = String::new();
        assert(r@ =~= fill(left@, right@, width));
        r
    }
}

pub fn render_status_bar(state: &TuiState, tick: usize, width: u16) -> (r: StatusBar)
    ensures
        r.left@ == status_left(state@, tick as nat),
        r.right@ == status_right(state@.totals),
        r.padding@ == fill(r.left@, r.right@, width),
{
    let mut left = " ".to_string();
    left.append(spinner_frame(tick));
    left.append(" ");
    left.append(state.phase.label());
    left.append(" | ");
    left.append(state.model_name.as_str());
    left.append(" ");
    let mut right = " ".to_string();
    let a = number_text(state.totals.input_tokens as u128);
    right.append(a.as_str());
    right.append("in/");
    let b = number_text(state.totals.output_tokens as u128);
    right.append(b.as_str());
    right.append("out/");
    let c = number_text(state.totals.cache_read_tokens as u128);
    right.append(c.as_str());
    right.append("cache ");
    let padding = padding(left.as_str(), right.as_str(), width);
    StatusBar { left, padding, right }
}

// ---------------------------------------------------------------------------
// Input
// ---------------------------------------------------------------------------

/// A key.
#[derive(Debug, Clone, Copy, PartialEq, Eq, Structural)]
pub enum Key {
    Char(char),
    Enter,
    Escape,
    Other,
}

/// What a key means while the user writes.
#[derive(Debug, Clone, Copy, PartialEq, Eq, Structural)]
pub enum InputKey {
    Quit,
    Submit,
    Edit,
}

/// Control with `c` or `d` quits; enter submits, but with shift it breaks the line;
/// any other key edits.
pub fn input_key(key: Key, control: bool, shift: bool) -> (r: InputKey)
    ensures
        r == if control && (key == Key::Char('d') || key == Key::Char('c')) {
            InputKey::Quit
        } else if key == Key::Enter && !shift {
            InputKey::Submit
        } else {
            InputKey::Edit
        },
{
    if control && (key == Key::Char('d') || key == Key::Char('c')) {
        InputKey::Quit
    } else if key == Key::Enter && !shift {
        InputKey::Submit
    } else {
        InputKey::Edit
    }
}

/// Whether a key cancels a run: control with `c`, or escape.
pub fn cancels(key: Key, control: bool) -> (r: bool)
    ensures
        r == ((key == Key::Char('c') && control) || key == Key::Escape),
{
    (key == Key::Char('c') && control) || key == Key::Escape
}

/// The text in the field for input.
pub fn input_text(lines: &Vec<String>) -> (r: String)
    ensures
        r@ == joined(views(lines@), "\n"@),
{
    join(lines, "\n")
}

/// What a submitted text asks for.
pub enum Command {
    Nothing,
    Quit,
    Help,
    /// Log in, by the whole command.
    Login(String),
    Prompt(String),
}

pub enum CommandView {
    Nothing,
    Quit,
    Help,
    Login(Seq<char>),
    Prompt(Seq<char>),
}

impl View for Command {
    type V = CommandView;

    open spec fn view(&self) -> CommandView {
        match self {
            Command::Nothing => CommandView::Nothing,
            Command::Quit => CommandView::Quit,
            Command::Help => CommandView::Help,
            Command::Login(t) => CommandView::Login(t@),
            Command::Prompt(t) => CommandView::Prompt(t@),
        }
    }
}

pub open spec fn command_of(text: Seq<char>) -> CommandView {
    let t = trimmed(text);
    if t.len() == 0 {
        CommandView::Nothing
    } else if t == "/quit"@ || t == "/exit"@ {
        CommandView::Quit
    } else if t == "/help"@ {
        CommandView::Help
    } else if "/login"@.is_prefix_of(t) {
        CommandView::Login(t)
    } else {
        CommandView::Prompt(t)
    }
}

pub fn read_command(text: &str) -> (r: Command)
    ensures
        r@ == command_of(text@),
{
    let t = trim(text);
    if t.as_str().is_empty() {
        Command::Nothing
    } else if same(t.as_str(), "/quit") || same(t.as_str(), "/exit") {
        Command::Quit
    } else if same(t.as_str(), "/help") {
        Command::Help
    } else if starts_with(t.as_str(), "/login") {
        Command::Login(t)
    } else {
        Command::Prompt(t)
    }
}

/// Something that can be called by name, and what it is.
pub struct Listed {
    pub name: String,
    pub description: String,
}

pub open spec fn login_line(provider: Listed) -> Seq<char> {
    "- `/login "@ + provider.name@ + "` - "@ + provider.description@ + "\n"@
}

pub open spec fn login_lines(providers: Seq<Listed>) -> Seq<char>
    decreases providers.len(),
{
    if providers.len() == 0 {
        Seq::empty()
    } else {
        login_lines(providers.drop_last()) + login_line(providers.last())
    }
}

pub open spec fn template_line(template: Listed) -> Seq<char> {
    "- `/"@ + template.name@ + if template.description@.len() == 0 {
        "`\n"@
    } else {
        "` - "@ + template.description@ + "\n"@
    }
}

pub open spec fn template_lines(templates: Seq<Listed>) -> Seq<char>
    decreases templates.len(),
{
    if templates.len() == 0 {
        Seq::empty()
    } else {
        template_lines(templates.drop_last()) + template_line(templates.last())
    }
}

pub open spec fn help(providers: Seq<Listed>, templates: Seq<Listed>) -> Seq<char> {
    "**Commands:**\n"@ + login_lines(providers) + "- `/quit`, `/exit` - Exit ri\n"@
        + "- `Ctrl+C` - Cancel running agent\n"@ + if templates.len() == 0 {
        Seq::empty()
    } else {
        "\n**Prompt Templates:**\n"@ + template_lines(templates)
    }
}

/// The help text, as markdown.
#[verifier::loop_isolation(false)]
pub fn help_text(providers: &Vec<Listed>, templates: &Vec<Listed>) -> (r: String)
    ensures
        r@ == help(providers@, templates@),
{
    let mut text = "**Commands:**\n".to_string();
    let ghost head = text@;
    let mut i: usize = 0;
    assert(head + login_lines(providers@.take(0)) =~= head);
    while i < providers.len()
        invariant
            i <= providers.len(),
            text@ == head + login_lines(providers@.take(i as int)),
        decreases providers.len() - i,
    {
        assert(providers@.take(i + 1).drop_last() =~= providers@.take(i as int));
        text.append("- `/login ");
        text.append(providers[i].name.as_str());
        text.append("` - ");
        text.append(providers[i].description.as_str());
        text.append("\n");
        assert(text@ =~= head + login_lines(providers@.take(i + 1)));
        i += 1;
    }
    assert(providers@.take(i as int) =~= providers@);
    text.append("- `/quit`, `/exit` - Exit ri\n");
    text.append("- `Ctrl+C` - Cancel running agent\n");
    if templates.len() > 0 {
        text.append("\n**Prompt Templates:**\n");
        let ghost head = text@;
        let mut k: usize = 0;
        assert(head + template_lines(templates@.take(0)) =~= head);
        while k < templates.len()
            invariant
                k <= templates.len(),
                text@ == head + template_lines(templates@.take(k as int)),
            decreases templates.len() - k,
        {
            assert(templates@.take(k + 1).drop_last() =~= templates@.take(k as int));
            text.append("- `/");
            text.append(templates[k].name.as_str());
            if templates[k].description.as_str().is_empty() {
                text.append("`\n");
            } else {
                text.append("` - ");
                text.append(templates[k].description.as_str());
                text.append("\n");
            }
            assert(text@ =~= head + template_lines(templates@.take(k + 1)));
            k += 1;
        }
        assert(templates@.take(k as int) =~= templates@);
    }
    assert(text@ =~= help(providers@, templates@));
    text
}

/// The name of a session: the first five words of its prompt.
pub open spec fn session_name(prompt: Option<Seq<char>>) -> Seq<char> {
    match prompt {
        Some(p) => {
            let all = words(p);
            let first = if all.len() > 5 {
                all.take(5)
            } else {
                all
            };
            if joined(first, "-"@).len() == 0 {
                "session"@
            } else {
                joined(first, "-"@)
            }
        },
        None => "interactive"@,
    }
}

#[verifier::loop_isolation(false)]
pub fn session_name_from_prompt(prompt: Option<&str>) -> (r: String)
    ensures
        r@ == session_name(opt_text(prompt)),
{
    match prompt {
        Some(p) => {
            let mut all = split_words(p);
            if all.len() > 5 {
                let ghost before = all@;
                all.truncate(5);
                assert(views(all@) =~= views(before).take(5));
            }
            let name = join(&all, "-");
            if name.as_str().is_empty() {
                "session".to_string()
            } else {
                name
            }
        },
        None => "interactive".to_string(),
    }
}

// ---------------------------------------------------------------------------
// Laws
// ---------------------------------------------------------------------------

/// The interface never takes back what it has shown: events only add blocks, and at
/// most one at a time, exactly when it is to be emitted.
pub proof fn law_blocks_only_grow(state: TuiView, event: AgentEventView)
    ensures
        state.blocks.is_prefix_of(shown(state, event).0.blocks),
        shown(state, event).0.blocks.len() == state.blocks.len() + if shown(state, event).1
            == Effect::Emit {
            1nat
        } else {
            0nat
        },
{
}

/// The deltas of a response, put together.
pub open spec fn concatenated(deltas: Seq<Seq<char>>) -> Seq<char>
    decreases deltas.len(),
{
    if deltas.len() == 0 {
        Seq::empty()
    } else {
        concatenated(deltas.drop_last()) + deltas.last()
    }
}

/// The interface after the deltas of a response.
pub open spec fn after_deltas(state: TuiView, deltas: Seq<Seq<char>>) -> TuiView
    decreases deltas.len(),
{
    if deltas.len() == 0 {
        state
    } else {
        streamed(
            after_deltas(state, deltas.drop_last()),
            StreamEventView::TextDelta(deltas.last()),
        ).0
    }
}

proof fn lemma_after_deltas(state: TuiView, deltas: Seq<Seq<char>>)
    ensures
        after_deltas(state, deltas) == (TuiView {
            text_buf: state.text_buf + concatenated(deltas),
            ..state
        }),
    decreases deltas.len(),
{
    if deltas.len() == 0 {
        assert(state.text_buf + concatenated(deltas) =~= state.text_buf);
    } else {
        lemma_after_deltas(state, deltas.drop_last());
        assert(state.text_buf + concatenated(deltas.drop_last()) + deltas.last()
            =~= state.text_buf + concatenated(deltas));
    }
}

/// A response is shown whole and once: after its start, its deltas and its end, one
/// block is new, and it holds the deltas put together.
pub proof fn law_response_is_shown_whole(state: TuiView, deltas: Seq<Seq<char>>)
    requires
        concatenated(deltas).len() > 0,
    ensures
        ({
            let begun = streamed(state, StreamEventView::TextStart).0;
            let ended = streamed(after_deltas(begun, deltas), StreamEventView::TextEnd).0;
            ended == TuiView {
                phase: PhaseView::Waiting,
                text_buf: Seq::empty(),
                blocks: state.blocks.push(
                    BlockView { kind: BlockKindView::Assistant, body: concatenated(deltas) },
                ),
                ..state
            }
        }),
{
    let begun = streamed(state, StreamEventView::TextStart).0;
    lemma_after_deltas(begun, deltas);
    assert(Seq::<char>::empty() + concatenated(deltas) =~= concatenated(deltas));
}

/// Nothing that has come in is lost when a run is cancelled, and it is shown once.
pub proof fn law_partial_output_is_kept(state: TuiView)
    ensures
        finished(state).blocks == state.blocks + leftovers(state),
        finished(finished(state)) == finished(state),
        state.text_buf.len() > 0 ==> leftovers(state).contains(
            BlockView { kind: BlockKindView::Assistant, body: state.text_buf },
        ),
        state.thinking_buf.len() > 0 ==> leftovers(state).contains(
            BlockView { kind: BlockKindView::Thinking, body: state.thinking_buf },
        ),
{
    let done = finished(state);
    assert(leftovers(done) =~= Seq::<BlockView>::empty());
    assert(done.blocks + leftovers(done) =~= done.blocks);
    if state.text_buf.len() > 0 {
        assert(leftovers(state)[0] == (BlockView {
            kind: BlockKindView::Assistant,
            body: state.text_buf,
        }));
    }
    if state.thinking_buf.len() > 0 {
        assert(leftovers(state).last() == (BlockView {
            kind: BlockKindView::Thinking,
            body: state.thinking_buf,
        }));
    }
}

/// A session always has a name.
pub proof fn law_sessions_are_named(prompt: Option<Seq<char>>)
    ensures
        session_name(prompt).len() > 0,
{
    reveal_strlit("session");
    reveal_strlit("interactive");
    assert("session"@.len() == 7);
    assert("interactive"@.len() == 11);
}

/// The spinner turns through four frames.
pub proof fn law_spinner_repeats(tick: nat)
    ensures
        spinner(tick + 4) == spinner(tick),
{
}

/// A status bar that fits is exactly as wide as the terminal.
pub proof fn law_status_bar_fills_the_width(left: Seq<char>, right: Seq<char>, width: u16)
    requires
        byte_len(left) + byte_len(right) <= width,
    ensures
        byte_len(left) + fill(left, right, width).len() + byte_len(right) == width,
{
}

} // verus!
