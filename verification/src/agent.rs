//! The agent loop: call the model, run the tools it asks for, store everything,
//! repeat until it asks for no more.
//!
//! The loop is a machine. [`crate::run::advance`] takes a run, what just happened and whether
//! the run has been cancelled, and says what to do next. Whoever drives the run
//! performs the actions in order; the last one of each batch is answered by the
//! next event.
use crate::events::{AgentEvent, AgentEventView, Stored, StoredView, StreamEvent, StreamEventView};
use crate::json::{json_of, owned_text_member, text_array, Json};
use crate::model::{
    BlockView, ContentBlock, Message, MessageView, Role, ThinkingLevel, ToolOutput, ToolOutputView,
};
use crate::text::{clone_texts, contains_text, group_views, opt_view, same, views};
use vstd::prelude::*;

verus! {

// ---------------------------------------------------------------------------
// The parts of a run
// ---------------------------------------------------------------------------

/// Where a run takes place, which decides what it shows and what it does about
/// failures.
#[derive(Debug, Clone, Copy, PartialEq, Eq, Structural)]
pub enum Host {
    /// In the server: clients watch the session, progress is saved after every
    /// round of tools, and a failure of the store fails the run.
    Server,
    /// In the terminal: the caller watches, and a failure of the store is shown.
    Terminal,
    /// In a task of its own that nobody watches.
    Background,
    /// A task of its own that makes one turn, without tools.
    Single,
}

/// A tool call in a model's response.
pub struct ToolCall {
    pub id: String,
    pub name: String,
    pub input: serde_json::Value,
}

#[verifier::ext_equal]
pub struct CallView {
    pub id: Seq<char>,
    pub name: Seq<char>,
    pub input: Json,
}

impl View for ToolCall {
    type V = CallView;

    open spec fn view(&self) -> CallView {
        CallView { id: self.id@, name: self.name@, input: json_of(self.input) }
    }
}

/// A context file found near a file that a tool was given. `key` tells files
/// apart; `canonical` is the path to remember it by, where it has one.
pub struct ContextFile {
    pub path: String,
    pub content: String,
    pub key: String,
    pub canonical: Option<String>,
}

#[verifier::ext_equal]
pub struct ContextFileView {
    pub path: Seq<char>,
    pub content: Seq<char>,
    pub key: Seq<char>,
    pub canonical: Option<Seq<char>>,
}

impl View for ContextFile {
    type V = ContextFileView;

    open spec fn view(&self) -> ContextFileView {
        ContextFileView {
            path: self.path@,
            content: self.content@,
            key: self.key@,
            canonical: opt_view(self.canonical),
        }
    }
}

/// What a run waits for.
pub enum Step {
    /// The user's message is being stored.
    Prompting,
    /// The conversation is being loaded for the first turn.
    Loading,
    /// The conversation is being loaded for another turn.
    Reloading,
    /// A turn is being started.
    Starting,
    /// The turn's events are being read.
    Streaming,
    /// The turn is being closed; `broken` is what broke its stream.
    Finishing { broken: Option<String> },
    /// A turn did not start, and a message that says so is being stored.
    SavingFailure,
    /// The model's response is being stored.
    SavingReply { calls: Vec<ToolCall>, has_text: bool },
    /// Context files are being looked for before call `next` runs.
    Looking { calls: Vec<ToolCall>, next: usize, results: Vec<ContentBlock> },
    /// Call `next` is running.
    Running { calls: Vec<ToolCall>, next: usize, results: Vec<ContentBlock> },
    /// The results of the tools are being stored.
    SavingResults { calls: Vec<ToolCall> },
    /// Context files are being looked for after the tools have run.
    Discovering,
    /// The context files found are being stored.
    SavingContext,
    /// Progress is being saved.
    Checkpointing,
    /// The final context is being saved.
    Closing,
    /// The run failed with `error`, and a message that says so is being stored.
    Failing { error: String },
    /// The run failed with `error`, and what there is is being saved.
    FailClosing { error: String },
    Ended,
}

pub enum StepView {
    Prompting,
    Loading,
    Reloading,
    Starting,
    Streaming,
    Finishing { broken: Option<Seq<char>> },
    SavingFailure,
    SavingReply { calls: Seq<CallView>, has_text: bool },
    Looking { calls: Seq<CallView>, next: nat, results: Seq<BlockView> },
    Running { calls: Seq<CallView>, next: nat, results: Seq<BlockView> },
    SavingResults { calls: Seq<CallView> },
    Discovering,
    SavingContext,
    Checkpointing,
    Closing,
    Failing { error: Seq<char> },
    FailClosing { error: Seq<char> },
    Ended,
}

impl View for Step {
    type V = StepView;

    open spec fn view(&self) -> StepView {
        match self {
            Step::Prompting => StepView::Prompting,
            Step::Loading => StepView::Loading,
            Step::Reloading => StepView::Reloading,
            Step::Starting => StepView::Starting,
            Step::Streaming => StepView::Streaming,
            Step::Finishing { broken } => StepView::Finishing { broken: opt_view(*broken) },
            Step::SavingFailure => StepView::SavingFailure,
            Step::SavingReply { calls, has_text } => StepView::SavingReply {
                calls: views(calls@),
                has_text: *has_text,
            },
            Step::Looking { calls, next, results } => StepView::Looking {
                calls: views(calls@),
                next: *next as nat,
                results: views(results@),
            },
            Step::Running { calls, next, results } => StepView::Running {
                calls: views(calls@),
                next: *next as nat,
                results: views(results@),
            },
            Step::SavingResults { calls } => StepView::SavingResults { calls: views(calls@) },
            Step::Discovering => StepView::Discovering,
            Step::SavingContext => StepView::SavingContext,
            Step::Checkpointing => StepView::Checkpointing,
            Step::Closing => StepView::Closing,
            Step::Failing { error } => StepView::Failing { error: error@ },
            Step::FailClosing { error } => StepView::FailClosing { error: error@ },
            Step::Ended => StepView::Ended,
        }
    }
}

/// What does not change during a run.
pub struct Setup {
    pub host: Host,
    /// Id of the model.
    pub model: String,
    pub thinking: ThinkingLevel,
    /// Names of the tools that can be run.
    pub tools: Vec<String>,
    /// The system prompt of a conversation that has none. A single turn goes without.
    pub fallback: String,
    /// The most tokens that a turn may give.
    pub max_tokens: Option<usize>,
}

#[verifier::ext_equal]
pub struct SetupView {
    pub host: Host,
    pub model: Seq<char>,
    pub thinking: ThinkingLevel,
    pub tools: Seq<Seq<char>>,
    pub fallback: Seq<char>,
    pub max_tokens: Option<usize>,
}

impl View for Setup {
    type V = SetupView;

    open spec fn view(&self) -> SetupView {
        SetupView {
            host: self.host,
            model: self.model@,
            thinking: self.thinking,
            tools: views(self.tools@),
            fallback: self.fallback@,
            max_tokens: self.max_tokens,
        }
    }
}

/// What a turn sends to the model.
pub struct TurnRequest {
    /// Id of the model.
    pub model: String,
    pub prompt: String,
    pub messages: Vec<Message>,
    /// Names of the tools that the model may ask for.
    pub tools: Vec<String>,
    pub thinking: ThinkingLevel,
    pub max_tokens: Option<usize>,
    /// Whether the model may use what its provider offers by itself.
    pub native_tools: bool,
}

#[verifier::ext_equal]
pub struct TurnRequestView {
    pub model: Seq<char>,
    pub prompt: Seq<char>,
    pub messages: Seq<MessageView>,
    pub tools: Seq<Seq<char>>,
    pub thinking: ThinkingLevel,
    pub max_tokens: Option<usize>,
    pub native_tools: bool,
}

impl View for TurnRequest {
    type V = TurnRequestView;

    open spec fn view(&self) -> TurnRequestView {
        TurnRequestView {
            model: self.model@,
            prompt: self.prompt@,
            messages: views(self.messages@),
            tools: views(self.tools@),
            thinking: self.thinking,
            max_tokens: self.max_tokens,
            native_tools: self.native_tools,
        }
    }
}

/// The request of a turn over a conversation: all of its messages, under the system
/// prompt. A single turn is given no tools, and may use those of the provider.
pub open spec fn turn_request(
    setup: SetupView,
    prompt: Seq<char>,
    messages: Seq<MessageView>,
) -> TurnRequestView {
    TurnRequestView {
        model: setup.model,
        prompt,
        messages,
        tools: if setup.host == Host::Single {
            Seq::empty()
        } else {
            setup.tools
        },
        thinking: setup.thinking,
        max_tokens: setup.max_tokens,
        native_tools: setup.host == Host::Single,
    }
}

/// Make the request of a turn.
pub fn make_request(setup: &Setup, prompt: &str, messages: Vec<Message>) -> (r: TurnRequest)
    ensures
        r@ == turn_request(setup@, prompt@, views(messages@)),
{
    let single = setup.host == Host::Single;
    let tools: Vec<String> = if single {
        Vec::new()
    } else {
        clone_texts(&setup.tools)
    };
    let r = TurnRequest {
        model: setup.model.clone(),
        prompt: prompt.to_string(),
        messages,
        tools,
        thinking: setup.thinking,
        max_tokens: setup.max_tokens,
        native_tools: single,
    };
    assert(r@ =~= turn_request(setup@, prompt@, views(messages@)));
    r
}

/// The system prompt of a conversation that has none.
pub open spec fn default_prompt(setup: SetupView) -> Seq<char> {
    if setup.host == Host::Single {
        Seq::empty()
    } else {
        setup.fallback
    }
}

/// An agent run. `seen` holds the keys of the context files that a terminal run
/// has shown the model; `prompt` is the system prompt.
pub struct AgentRun {
    pub setup: Setup,
    pub seen: Vec<String>,
    pub prompt: String,
    pub step: Step,
}

#[verifier::ext_equal]
pub struct RunView {
    pub setup: SetupView,
    pub seen: Seq<Seq<char>>,
    pub prompt: Seq<char>,
    pub step: StepView,
}

impl View for AgentRun {
    type V = RunView;

    open spec fn view(&self) -> RunView {
        RunView {
            setup: self.setup@,
            seen: views(self.seen@),
            prompt: self.prompt@,
            step: self.step@,
        }
    }
}

/// What happened.
pub enum Event {
    /// The conversation's messages were loaded.
    Loaded(Vec<Message>),
    /// The turn was started.
    Started,
    StartFailed(String),
    /// The turn's stream gave an event.
    Item(StreamEvent),
    ItemFailed(String),
    /// The turn's stream ended.
    ItemsEnded,
    /// The turn was closed and gave its content and usage.
    Finished { content: Vec<ContentBlock>, usage: serde_json::Value },
    /// A message was stored.
    Saved(Stored),
    SaveFailed(String),
    /// A tool has run.
    ToolDone(ToolOutput),
    /// Context files were looked for. `known` holds the files that the
    /// conversation has been shown.
    Found { files: Vec<ContextFile>, known: Vec<String> },
    /// The context was saved.
    Checkpointed,
    CheckpointFailed(String),
}

pub enum EventView {
    Loaded(Seq<MessageView>),
    Started,
    StartFailed(Seq<char>),
    Item(StreamEventView),
    ItemFailed(Seq<char>),
    ItemsEnded,
    Finished { content: Seq<BlockView>, usage: Json },
    Saved(StoredView),
    SaveFailed(Seq<char>),
    ToolDone(ToolOutputView),
    Found { files: Seq<ContextFileView>, known: Seq<Seq<char>> },
    Checkpointed,
    CheckpointFailed(Seq<char>),
}

impl View for Event {
    type V = EventView;

    open spec fn view(&self) -> EventView {
        match self {
            Event::Loaded(messages) => EventView::Loaded(views(messages@)),
            Event::Started => EventView::Started,
            Event::StartFailed(e) => EventView::StartFailed(e@),
            Event::Item(e) => EventView::Item(e@),
            Event::ItemFailed(e) => EventView::ItemFailed(e@),
            Event::ItemsEnded => EventView::ItemsEnded,
            Event::Finished { content, usage } => EventView::Finished {
                content: views(content@),
                usage: json_of(*usage),
            },
            Event::Saved(m) => EventView::Saved(m@),
            Event::SaveFailed(e) => EventView::SaveFailed(e@),
            Event::ToolDone(out) => EventView::ToolDone(out@),
            Event::Found { files, known } => EventView::Found {
                files: views(files@),
                known: views(known@),
            },
            Event::Checkpointed => EventView::Checkpointed,
            Event::CheckpointFailed(e) => EventView::CheckpointFailed(e@),
        }
    }
}

/// What to do.
pub enum Action {
    /// Show an event to whoever watches.
    Emit(AgentEvent),
    /// Append a message id to the conversation.
    Push(String),
    /// Try to give the session a title, in the background.
    Title,
    /// Load the conversation's messages.
    Load,
    /// Start a turn.
    Start { request: TurnRequest },
    /// Read the next event of the turn.
    Next,
    /// Close the turn.
    Finish,
    /// Store a message.
    Save { role: Role, content: Vec<ContentBlock>, meta: Option<serde_json::Value> },
    /// Run a tool.
    RunTool { id: String, name: String, input: serde_json::Value },
    /// Look for context files above each of the given files.
    Discover { paths: Vec<String> },
    /// Save the conversation as a context.
    Checkpoint,
    /// The run is over; `error` is what it failed with.
    End { error: Option<String> },
}

pub enum ActionView {
    Emit(AgentEventView),
    Push(Seq<char>),
    Title,
    Load,
    Start { request: TurnRequestView },
    Next,
    Finish,
    Save { role: Role, content: Seq<BlockView>, meta: Option<Json> },
    RunTool { id: Seq<char>, name: Seq<char>, input: Json },
    Discover { paths: Seq<Seq<char>> },
    Checkpoint,
    End { error: Option<Seq<char>> },
}

impl View for Action {
    type V = ActionView;

    open spec fn view(&self) -> ActionView {
        match self {
            Action::Emit(e) => ActionView::Emit(e@),
            Action::Push(id) => ActionView::Push(id@),
            Action::Title => ActionView::Title,
            Action::Load => ActionView::Load,
            Action::Start { request } => ActionView::Start { request: request@ },
            Action::Next => ActionView::Next,
            Action::Finish => ActionView::Finish,
            Action::Save { role, content, meta } => ActionView::Save {
                role: *role,
                content: views(content@),
                meta: crate::json::opt_json(*meta),
            },
            Action::RunTool { id, name, input } => ActionView::RunTool {
                id: id@,
                name: name@,
                input: json_of(*input),
            },
            Action::Discover { paths } => ActionView::Discover { paths: views(paths@) },
            Action::Checkpoint => ActionView::Checkpoint,
            Action::End { error } => ActionView::End { error: opt_view(*error) },
        }
    }
}

// ---------------------------------------------------------------------------
// Reading messages
// ---------------------------------------------------------------------------

/// The text of the first text block.
pub open spec fn first_text(content: Seq<BlockView>) -> Option<Seq<char>>
    decreases content.len(),
{
    if content.len() == 0 {
        None
    } else {
        match content[0] {
            BlockView::Text { text } => Some(text),
            _ => first_text(content.drop_first()),
        }
    }
}

/// The first message of a role.
pub open spec fn first_of_role(messages: Seq<MessageView>, role: Role) -> Option<MessageView>
    decreases messages.len(),
{
    if messages.len() == 0 {
        None
    } else if messages[0].role == role {
        Some(messages[0])
    } else {
        first_of_role(messages.drop_first(), role)
    }
}

/// The system prompt: the first text of the first system message, else the
/// fallback.
pub open spec fn system_prompt(messages: Seq<MessageView>, fallback: Seq<char>) -> Seq<char> {
    match first_of_role(messages, Role::System) {
        Some(m) => match first_text(m.content) {
            Some(t) => t,
            None => fallback,
        },
        None => fallback,
    }
}

#[verifier::loop_isolation(false)]
fn find_first_text(content: &Vec<ContentBlock>) -> (r: Option<String>)
    ensures
        opt_view(r) == first_text(views(content@)),
{
    let ghost all = views(content@);
    let mut i: usize = 0;
    assert(all.skip(0) =~= all);
    while i < content.len()
        invariant
            i <= content.len(),
            first_text(all) == first_text(all.skip(i as int)),
        decreases content.len() - i,
    {
        assert(all.skip(i as int)[0] == content@[i as int]@);
        assert(all.skip(i as int).drop_first() =~= all.skip(i + 1));
        if let ContentBlock::Text { text } = &content[i] {
            return Some(text.clone());
        }
        i += 1;
    }
    None
}

/// Extract the system prompt from the first system message.
#[verifier::loop_isolation(false)]
pub fn extract_system_prompt(messages: &Vec<Message>, fallback: &str) -> (r: String)
    ensures
        r@ == system_prompt(views(messages@), fallback@),
{
    let ghost all = views(messages@);
    let mut i: usize = 0;
    assert(all.skip(0) =~= all);
    while i < messages.len()
        invariant
            i <= messages.len(),
            first_of_role(all, Role::System) == first_of_role(all.skip(i as int), Role::System),
        decreases messages.len() - i,
    {
        assert(all.skip(i as int)[0] == messages@[i as int]@);
        assert(all.skip(i as int).drop_first() =~= all.skip(i + 1));
        if messages[i].role == Role::System {
            return match find_first_text(&messages[i].content) {
                Some(t) => t,
                None => fallback.to_string(),
            };
        }
        i += 1;
    }
    fallback.to_string()
}

/// The tool calls in a response, in order.
pub open spec fn calls_in(content: Seq<BlockView>) -> Seq<CallView>
    decreases content.len(),
{
    if content.len() == 0 {
        Seq::empty()
    } else {
        match content.last() {
            BlockView::ToolUse { id, name, input } => calls_in(content.drop_last()).push(
                CallView { id, name, input },
            ),
            _ => calls_in(content.drop_last()),
        }
    }
}

pub open spec fn has_text(content: Seq<BlockView>) -> bool {
    exists|i: int| 0 <= i < content.len() && (#[trigger] content[i]) is Text
}

#[verifier::loop_isolation(false)]
pub fn extract_calls(content: &Vec<ContentBlock>) -> (r: Vec<ToolCall>)
    ensures
        views(r@) == calls_in(views(content@)),
{
    broadcast use group_views;

    let ghost all = views(content@);
    let mut r: Vec<ToolCall> = Vec::new();
    let mut i: usize = 0;
    while i < content.len()
        invariant
            i <= content.len(),
            views(r@) == calls_in(all.take(i as int)),
        decreases content.len() - i,
    {
        assert(all.take(i + 1).drop_last() =~= all.take(i as int));
        assert(all.take(i + 1).last() == content@[i as int]@);
        if let ContentBlock::ToolUse { id, name, input } = &content[i] {
            r.push(ToolCall { id: id.clone(), name: name.clone(), input: input.clone() });
        }
        i += 1;
    }
    assert(all.take(i as int) =~= all);
    r
}

pub fn contains_text_block(content: &Vec<ContentBlock>) -> (r: bool)
    ensures
        r == has_text(views(content@)),
{
    let ghost all = views(content@);
    let mut i: usize = 0;
    while i < content.len()
        invariant
            i <= content.len(),
            all == views(content@),
            forall|j: int| 0 <= j < i ==> !((#[trigger] all[j]) is Text),
        decreases content.len() - i,
    {
        assert(all[i as int] == content@[i as int]@);
        if let ContentBlock::Text { .. } = &content[i] {
            return true;
        }
        i += 1;
    }
    false
}

// ---------------------------------------------------------------------------
// Context files
// ---------------------------------------------------------------------------

/// Whether a tool takes the path of a file.
pub open spec fn is_file_tool(name: Seq<char>) -> bool {
    ||| name == "read"@
    ||| name == "write"@
    ||| name == "edit"@
    ||| name == "Read"@
    ||| name == "Write"@
    ||| name == "Edit"@
}

/// The file that a call is about.
pub open spec fn call_path(call: CallView) -> Option<Seq<char>> {
    if is_file_tool(call.name) {
        call.input.text_member("path"@)
    } else {
        None
    }
}

/// The files that calls are about, in order.
pub open spec fn call_paths(calls: Seq<CallView>) -> Seq<Seq<char>>
    decreases calls.len(),
{
    if calls.len() == 0 {
        Seq::empty()
    } else {
        match call_path(calls.last()) {
            Some(p) => call_paths(calls.drop_last()).push(p),
            None => call_paths(calls.drop_last()),
        }
    }
}

pub fn path_of_call(name: &str, input: &serde_json::Value) -> (r: Option<String>)
    ensures
        opt_view(r) == call_path(CallView { id: Seq::empty(), name: name@, input: json_of(*input) }),
{
    if same(name, "read") || same(name, "write") || same(name, "edit") || same(name, "Read")
        || same(name, "Write") || same(name, "Edit") {
        owned_text_member(input, "path")
    } else {
        None
    }
}

#[verifier::loop_isolation(false)]
pub(crate) fn paths_of_calls(calls: &Vec<ToolCall>) -> (r: Vec<String>)
    ensures
        views(r@) == call_paths(views(calls@)),
{
    broadcast use group_views;

    let ghost all = views(calls@);
    let mut r: Vec<String> = Vec::new();
    let mut i: usize = 0;
    while i < calls.len()
        invariant
            i <= calls.len(),
            views(r@) == call_paths(all.take(i as int)),
        decreases calls.len() - i,
    {
        assert(all.take(i + 1).drop_last() =~= all.take(i as int));
        assert(all.take(i + 1).last() == calls@[i as int]@);
        match path_of_call(calls[i].name.as_str(), &calls[i].input) {
            Some(p) => {
                r.push(p);
            },
            None => {},
        }
        i += 1;
    }
    assert(all.take(i as int) =~= all);
    r
}

pub open spec fn file_keys(files: Seq<ContextFileView>) -> Seq<Seq<char>> {
    Seq::new(files.len(), |i: int| files[i].key)
}

/// The files that are not among `seen`, each once, in order.
pub open spec fn unseen(files: Seq<ContextFileView>, seen: Seq<Seq<char>>) -> Seq<ContextFileView>
    decreases files.len(),
{
    if files.len() == 0 {
        Seq::empty()
    } else {
        let rest = unseen(files.drop_last(), seen);
        let file = files.last();
        if seen.contains(file.key) || file_keys(rest).contains(file.key) {
            rest
        } else {
            rest.push(file)
        }
    }
}

pub open spec fn file_text(file: ContextFileView) -> Seq<char> {
    "\n## "@ + file.path + "\n\n"@ + file.content + "\n"@
}

pub open spec fn file_texts(files: Seq<ContextFileView>) -> Seq<char>
    decreases files.len(),
{
    if files.len() == 0 {
        Seq::empty()
    } else {
        file_texts(files.drop_last()) + file_text(files.last())
    }
}

/// What the model is shown of context files.
pub open spec fn discovery_text(files: Seq<ContextFileView>) -> Seq<char> {
    "# Context Files (discovered)\n"@ + file_texts(files)
}

/// The paths to remember files by.
pub open spec fn canonical_paths(files: Seq<ContextFileView>) -> Seq<Seq<char>>
    decreases files.len(),
{
    if files.len() == 0 {
        Seq::empty()
    } else {
        match files.last().canonical {
            Some(p) => canonical_paths(files.drop_last()).push(p),
            None => canonical_paths(files.drop_last()),
        }
    }
}

/// The mark on a message that shows context files.
pub open spec fn discovery_meta(files: Seq<ContextFileView>) -> Json {
    Json::Object(map!["agents_context"@ => text_array(canonical_paths(files))])
}

/// The context files that some messages say they show.
pub open spec fn shown_files(messages: Seq<MessageView>) -> Seq<Seq<char>>
    decreases messages.len(),
{
    if messages.len() == 0 {
        Seq::empty()
    } else {
        let rest = shown_files(messages.drop_last());
        match messages.last().meta {
            Some(meta) => match meta.array_member("agents_context"@) {
                Some(items) => rest + crate::json::texts_in(items),
                None => rest,
            },
            None => rest,
        }
    }
}

/// The context files that a conversation has been shown.
#[verifier::loop_isolation(false)]
pub fn collect_shown_files(messages: &Vec<Message>) -> (r: Vec<String>)
    ensures
        views(r@) == shown_files(views(messages@)),
{
    broadcast use group_views;

    let ghost all = views(messages@);
    let mut r: Vec<String> = Vec::new();
    let mut i: usize = 0;
    while i < messages.len()
        invariant
            i <= messages.len(),
            views(r@) == shown_files(all.take(i as int)),
        decreases messages.len() - i,
    {
        assert(all.take(i + 1).drop_last() =~= all.take(i as int));
        assert(all.take(i + 1).last() == messages@[i as int]@);
        if let Some(meta) = &messages[i].meta {
            if let Some(items) = crate::json::text_array_member(meta, "agents_context") {
                let ghost before = r@;
                let mut more = items;
                let ghost added = more@;
                r.append(&mut more);
                assert(views(r@) =~= views(before) + views(added));
            }
        }
        i += 1;
    }
    assert(all.take(i as int) =~= all);
    r
}

impl Clone for ContextFile {
    fn clone(&self) -> (r: Self)
        ensures
            r@ == self@,
    {
        ContextFile {
            path: self.path.clone(),
            content: self.content.clone(),
            key: self.key.clone(),
            canonical: crate::text::clone_opt_text(&self.canonical),
        }
    }
}

/// Pick the files that are not among `seen` and add them to it.
#[verifier::loop_isolation(false)]
pub(crate) fn take_unseen(files: &Vec<ContextFile>, seen: &mut Vec<String>) -> (r: Vec<ContextFile>)
    ensures
        views(r@) == unseen(views(files@), views(old(seen)@)),
        views(final(seen)@) == views(old(seen)@) + file_keys(views(r@)),
{
    broadcast use group_views;

    let ghost all = views(files@);
    let ghost start = views(seen@);
    let mut r: Vec<ContextFile> = Vec::new();
    let mut i: usize = 0;
    assert(start + file_keys(views(r@)) =~= start);
    while i < files.len()
        invariant
            i <= files.len(),
            views(r@) == unseen(all.take(i as int), start),
            views(seen@) == start + file_keys(views(r@)),
        decreases files.len() - i,
    {
        assert(all.take(i + 1).drop_last() =~= all.take(i as int));
        assert(all.take(i + 1).last() == files@[i as int]@);
        let ghost keys = file_keys(views(r@));
        let ghost key = files@[i as int].key@;
        proof {
            if start.contains(key) {
                let k = choose|k: int| 0 <= k < start.len() && start[k] == key;
                assert((start + keys)[k] == key);
            }
            if keys.contains(key) {
                let k = choose|k: int| 0 <= k < keys.len() && keys[k] == key;
                assert((start + keys)[start.len() + k] == key);
            }
            if (start + keys).contains(key) {
                let k = choose|k: int| 0 <= k < (start + keys).len() && (start + keys)[k] == key;
                if k >= start.len() {
                    assert(keys[k - start.len()] == key);
                } else {
                    assert(start[k] == key);
                }
            }
        }
        if !contains_text(seen, files[i].key.as_str()) {
            seen.push(files[i].key.clone());
            r.push(files[i].clone());
            assert(file_keys(views(r@)) =~= keys.push(key));
            assert(views(seen@) =~= start + file_keys(views(r@)));
        }
        i += 1;
    }
    assert(all.take(i as int) =~= all);
    r
}

#[verifier::loop_isolation(false)]
pub(crate) fn describe_files(files: &Vec<ContextFile>) -> (r: String)
    ensures
        r@ == discovery_text(views(files@)),
{
    let ghost all = views(files@);
    let mut out = "# Context Files (discovered)\n".to_string();
    let ghost head = out@;
    let mut i: usize = 0;
    assert(head + file_texts(all.take(0)) =~= head);
    while i < files.len()
        invariant
            i <= files.len(),
            out@ == head + file_texts(all.take(i as int)),
        decreases files.len() - i,
    {
        assert(all.take(i + 1).drop_last() =~= all.take(i as int));
        assert(all.take(i + 1).last() == files@[i as int]@);
        out.append("\n## ");
        out.append(files[i].path.as_str());
        out.append("\n\n");
        out.append(files[i].content.as_str());
        out.append("\n");
        assert(out@ =~= head + file_texts(all.take(i + 1)));
        i += 1;
    }
    assert(all.take(i as int) =~= all);
    out
}

#[verifier::loop_isolation(false)]
pub(crate) fn paths_to_remember(files: &Vec<ContextFile>) -> (r: Vec<String>)
    ensures
        views(r@) == canonical_paths(views(files@)),
{
    broadcast use group_views;

    let ghost all = views(files@);
    let mut r: Vec<String> = Vec::new();
    let mut i: usize = 0;
    while i < files.len()
        invariant
            i <= files.len(),
            views(r@) == canonical_paths(all.take(i as int)),
        decreases files.len() - i,
    {
        assert(all.take(i + 1).drop_last() =~= all.take(i as int));
        assert(all.take(i + 1).last() == files@[i as int]@);
        if let Some(p) = &files[i].canonical {
            r.push(p.clone());
        }
        i += 1;
    }
    assert(all.take(i as int) =~= all);
    r
}

} // verus!
