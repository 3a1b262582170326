//! The conversation model: messages, contexts and the pool that holds them.
//!
//! A *message* is an immutable piece of conversation. A *context* is an ordered
//! list of message ids with parent contexts, so contexts form a DAG. The *pool*
//! finds both by id.
use crate::json::{json_of, opt_json, Json};
use crate::text::{clone_texts, contains_text, opt_view, same, views};
use vstd::hash_map::StringHashMap;
use vstd::prelude::*;

verus! {

// ---------------------------------------------------------------------------
// Roles
// ---------------------------------------------------------------------------

#[derive(Debug, Clone, Copy, PartialEq, Eq, Structural)]
pub enum Role {
    User,
    Assistant,
    System,
}

/// The name a tool call gives a role by.
pub open spec fn role_name(role: Role) -> Seq<char> {
    match role {
        Role::User => "user"@,
        Role::Assistant => "assistant"@,
        Role::System => "system"@,
    }
}

/// The role with the given name.
pub open spec fn role_named(s: Seq<char>) -> Option<Role> {
    if s == "user"@ {
        Some(Role::User)
    } else if s == "assistant"@ {
        Some(Role::Assistant)
    } else if s == "system"@ {
        Some(Role::System)
    } else {
        None
    }
}

pub fn parse_role(s: &str) -> (r: Option<Role>)
    ensures
        r == role_named(s@),
{
    if same(s, "user") {
        Some(Role::User)
    } else if same(s, "assistant") {
        Some(Role::Assistant)
    } else if same(s, "system") {
        Some(Role::System)
    } else {
        None
    }
}

/// A role is found again under its name, and under no other.
pub proof fn law_role_names(role: Role, s: Seq<char>)
    ensures
        role_named(s) == Some(role) <==> s == role_name(role),
{
    reveal_strlit("user");
    reveal_strlit("assistant");
    reveal_strlit("system");
    assert("user"@.len() != "assistant"@.len());
    assert("user"@.len() != "system"@.len());
    assert("assistant"@.len() != "system"@.len());
}

// ---------------------------------------------------------------------------
// Thinking levels
// ---------------------------------------------------------------------------

#[derive(Debug, Clone, Copy, PartialEq, Eq, Structural)]
pub enum ThinkingLevel {
    Off,
    Low,
    Medium,
    High,
    XHigh,
}

pub open spec fn thinking_name(level: ThinkingLevel) -> Seq<char> {
    match level {
        ThinkingLevel::Off => "off"@,
        ThinkingLevel::Low => "low"@,
        ThinkingLevel::Medium => "medium"@,
        ThinkingLevel::High => "high"@,
        ThinkingLevel::XHigh => "xhigh"@,
    }
}

/// The level with the given name.
pub open spec fn thinking_named(s: Seq<char>) -> Option<ThinkingLevel> {
    if s == "off"@ {
        Some(ThinkingLevel::Off)
    } else if s == "low"@ {
        Some(ThinkingLevel::Low)
    } else if s == "medium"@ {
        Some(ThinkingLevel::Medium)
    } else if s == "high"@ {
        Some(ThinkingLevel::High)
    } else if s == "xhigh"@ {
        Some(ThinkingLevel::XHigh)
    } else {
        None
    }
}

pub fn thinking_to_str(level: ThinkingLevel) -> (r: &'static str)
    ensures
        r@ == thinking_name(level),
{
    match level {
        ThinkingLevel::Off => "off",
        ThinkingLevel::Low => "low",
        ThinkingLevel::Medium => "medium",
        ThinkingLevel::High => "high",
        ThinkingLevel::XHigh => "xhigh",
    }
}

pub fn parse_thinking(raw: &str) -> (r: Option<ThinkingLevel>)
    ensures
        r == thinking_named(raw@),
{
    if same(raw, "off") {
        Some(ThinkingLevel::Off)
    } else if same(raw, "low") {
        Some(ThinkingLevel::Low)
    } else if same(raw, "medium") {
        Some(ThinkingLevel::Medium)
    } else if same(raw, "high") {
        Some(ThinkingLevel::High)
    } else if same(raw, "xhigh") {
        Some(ThinkingLevel::XHigh)
    } else {
        None
    }
}

/// A thinking level is found again under its name, and under no other.
pub proof fn law_thinking_names(level: ThinkingLevel, s: Seq<char>)
    ensures
        thinking_named(s) == Some(level) <==> s == thinking_name(level),
{
    reveal_strlit("off");
    reveal_strlit("low");
    reveal_strlit("medium");
    reveal_strlit("high");
    reveal_strlit("xhigh");
    assert("off"@[0] == 'o');
    assert("low"@[0] == 'l');
    assert("medium"@[0] == 'm');
    assert("high"@[0] == 'h');
    assert("xhigh"@[0] == 'x');
}

/// The level that a command-line flag, else a setting, asks for. A name that is
/// not known counts as medium; `unknown` is that name.
pub struct ThinkingChoice {
    pub level: ThinkingLevel,
    pub unknown: Option<String>,
}

/// The name to go by: the flag, else the setting, else `medium`.
pub open spec fn thinking_request(flag: Option<Seq<char>>, setting: Option<Seq<char>>) -> Seq<
    char,
> {
    match flag {
        Some(s) => s,
        None => match setting {
            Some(s) => s,
            None => "medium"@,
        },
    }
}

pub fn resolve_thinking(cli_flag: Option<&str>, settings: Option<&str>) -> (r: ThinkingChoice)
    ensures
        ({
            let raw = thinking_request(
                crate::text::opt_text(cli_flag),
                crate::text::opt_text(settings),
            );
            match thinking_named(raw) {
                Some(level) => r.level == level && r.unknown is None,
                None => r.level == ThinkingLevel::Medium && opt_view(r.unknown) == Some(raw),
            }
        }),
{
    let raw = match cli_flag {
        Some(s) => s,
        None => match settings {
            Some(s) => s,
            None => "medium",
        },
    };
    match parse_thinking(raw) {
        Some(level) => ThinkingChoice { level, unknown: None },
        None => ThinkingChoice { level: ThinkingLevel::Medium, unknown: Some(raw.to_string()) },
    }
}

// ---------------------------------------------------------------------------
// Content blocks
// ---------------------------------------------------------------------------

/// One block of a message's content. `Other` carries a block that the agent
/// stores and hands on without looking inside.
pub enum ContentBlock {
    Text { text: String },
    ToolUse { id: String, name: String, input: serde_json::Value },
    ToolResult { id: String, text: String, is_error: bool, details: Option<serde_json::Value> },
    Error { text: String },
    Other { block: serde_json::Value },
}

pub enum BlockView {
    Text { text: Seq<char> },
    ToolUse { id: Seq<char>, name: Seq<char>, input: Json },
    ToolResult { id: Seq<char>, text: Seq<char>, is_error: bool, details: Option<Json> },
    Error { text: Seq<char> },
    Other { block: Json },
}

impl View for ContentBlock {
    type V = BlockView;

    open spec fn view(&self) -> BlockView {
        match self {
            ContentBlock::Text { text } => BlockView::Text { text: text@ },
            ContentBlock::ToolUse { id, name, input } => BlockView::ToolUse {
                id: id@,
                name: name@,
                input: json_of(*input),
            },
            ContentBlock::ToolResult { id, text, is_error, details } => BlockView::ToolResult {
                id: id@,
                text: text@,
                is_error: *is_error,
                details: opt_json(*details),
            },
            ContentBlock::Error { text } => BlockView::Error { text: text@ },
            ContentBlock::Other { block } => BlockView::Other { block: json_of(*block) },
        }
    }
}

pub fn clone_opt_value(value: &Option<serde_json::Value>) -> (r: Option<serde_json::Value>)
    ensures
        opt_json(r) == opt_json(*value),
{
    match value {
        Some(v) => Some(v.clone()),
        None => None,
    }
}

impl Clone for ContentBlock {
    fn clone(&self) -> (r: Self)
        ensures
            r@ == self@,
    {
        match self {
            ContentBlock::Text { text } => ContentBlock::Text { text: text.clone() },
            ContentBlock::ToolUse { id, name, input } => ContentBlock::ToolUse {
                id: id.clone(),
                name: name.clone(),
                input: input.clone(),
            },
            ContentBlock::ToolResult { id, text, is_error, details } => ContentBlock::ToolResult {
                id: id.clone(),
                text: text.clone(),
                is_error: *is_error,
                details: clone_opt_value(details),
            },
            ContentBlock::Error { text } => ContentBlock::Error { text: text.clone() },
            ContentBlock::Other { block } => ContentBlock::Other { block: block.clone() },
        }
    }
}

pub fn clone_blocks(blocks: &Vec<ContentBlock>) -> (r: Vec<ContentBlock>)
    ensures
        views(r@) == views(blocks@),
{
    let mut r: Vec<ContentBlock> = Vec::new();
    let mut i: usize = 0;
    while i < blocks.len()
        invariant
            i <= blocks.len(),
            r.len() == i,
            forall|j: int| 0 <= j < i ==> (#[trigger] r@[j])@ == blocks@[j]@,
        decreases blocks.len() - i,
    {
        r.push(blocks[i].clone());
        i += 1;
    }
    assert(views(r@) =~= views(blocks@));
    r
}

// ---------------------------------------------------------------------------
// Messages
// ---------------------------------------------------------------------------

/// A stored message. `summary` is the one-line summary that the store gives of it.
pub struct Message {
    pub id: String,
    pub role: Role,
    pub content: Vec<ContentBlock>,
    pub meta: Option<serde_json::Value>,
    pub summary: String,
}

#[verifier::ext_equal]
pub struct MessageView {
    pub id: Seq<char>,
    pub role: Role,
    pub content: Seq<BlockView>,
    pub meta: Option<Json>,
    pub summary: Seq<char>,
}

impl View for Message {
    type V = MessageView;

    open spec fn view(&self) -> MessageView {
        MessageView {
            id: self.id@,
            role: self.role,
            content: views(self.content@),
            meta: opt_json(self.meta),
            summary: self.summary@,
        }
    }
}

impl Clone for Message {
    fn clone(&self) -> (r: Self)
        ensures
            r@ == self@,
    {
        Message {
            id: self.id.clone(),
            role: self.role,
            content: clone_blocks(&self.content),
            meta: clone_opt_value(&self.meta),
            summary: self.summary.clone(),
        }
    }
}

// ---------------------------------------------------------------------------
// Contexts
// ---------------------------------------------------------------------------

pub struct Context {
    pub id: String,
    pub messages: Vec<String>,
    pub parents: Vec<String>,
}

#[verifier::ext_equal]
pub struct ContextView {
    pub id: Seq<char>,
    pub messages: Seq<Seq<char>>,
    pub parents: Seq<Seq<char>>,
}

impl View for Context {
    type V = ContextView;

    open spec fn view(&self) -> ContextView {
        ContextView {
            id: self.id@,
            messages: views(self.messages@),
            parents: views(self.parents@),
        }
    }
}

impl Clone for Context {
    fn clone(&self) -> (r: Self)
        ensures
            r@ == self@,
    {
        Context {
            id: self.id.clone(),
            messages: clone_texts(&self.messages),
            parents: clone_texts(&self.parents),
        }
    }
}

// ---------------------------------------------------------------------------
// Pool
// ---------------------------------------------------------------------------

/// Messages and contexts by id. The contexts keep the order they were put in.
pub struct Pool {
    messages: StringHashMap<Message>,
    contexts: Vec<Context>,
    positions: StringHashMap<usize>,
}

#[verifier::ext_equal]
pub struct PoolView {
    pub messages: Map<Seq<char>, MessageView>,
    pub contexts: Seq<ContextView>,
}

/// The context called `id` among `contexts`.
pub open spec fn context_in(contexts: Seq<ContextView>, id: Seq<char>) -> Option<ContextView>
    decreases contexts.len(),
{
    if contexts.len() == 0 {
        None
    } else if contexts.last().id == id {
        Some(contexts.last())
    } else {
        context_in(contexts.drop_last(), id)
    }
}

/// The ids of the contexts that have `id` as a parent, in order.
pub open spec fn children_in(contexts: Seq<ContextView>, id: Seq<char>) -> Seq<Seq<char>>
    decreases contexts.len(),
{
    if contexts.len() == 0 {
        Seq::empty()
    } else {
        let rest = children_in(contexts.drop_last(), id);
        if contexts.last().parents.contains(id) {
            rest.push(contexts.last().id)
        } else {
            rest
        }
    }
}

impl PoolView {
    pub open spec fn message(self, id: Seq<char>) -> Option<MessageView> {
        if self.messages.contains_key(id) {
            Some(self.messages[id])
        } else {
            None
        }
    }

    pub open spec fn context(self, id: Seq<char>) -> Option<ContextView> {
        context_in(self.contexts, id)
    }

    pub open spec fn children(self, id: Seq<char>) -> Seq<Seq<char>> {
        children_in(self.contexts, id)
    }

    /// Every message is found under its own id.
    pub open spec fn keyed(self) -> bool {
        forall|id: Seq<char>| #[trigger]
            self.messages.contains_key(id) ==> self.messages[id].id == id
    }

    /// No two contexts share an id.
    pub open spec fn distinct(self) -> bool {
        forall|i: int, j: int|
            #![trigger self.contexts[i], self.contexts[j]]
            0 <= i < j < self.contexts.len() ==> self.contexts[i].id != self.contexts[j].id
    }
}

pub proof fn lemma_context_in(contexts: Seq<ContextView>, i: int)
    requires
        0 <= i < contexts.len(),
        forall|j: int|
            #![trigger contexts[j]]
            i < j < contexts.len() ==> contexts[j].id != contexts[i].id,
    ensures
        context_in(contexts, contexts[i].id) == Some(contexts[i]),
    decreases contexts.len(),
{
    if i < contexts.len() - 1 {
        assert(contexts.last().id != contexts[i].id);
        lemma_context_in(contexts.drop_last(), i);
    }
}

pub proof fn lemma_context_absent(contexts: Seq<ContextView>, id: Seq<char>)
    requires
        forall|j: int| #![trigger contexts[j]] 0 <= j < contexts.len() ==> contexts[j].id != id,
    ensures
        context_in(contexts, id) is None,
    decreases contexts.len(),
{
    if contexts.len() > 0 {
        lemma_context_absent(contexts.drop_last(), id);
    }
}

impl View for Pool {
    type V = PoolView;

    closed spec fn view(&self) -> PoolView {
        PoolView {
            messages: self.messages@.map_values(|m: Message| m@),
            contexts: views(self.contexts@),
        }
    }
}

impl Pool {
    /// The index of contexts agrees with the list, and messages are found under
    /// their ids.
    pub closed spec fn wf(&self) -> bool {
        &&& forall|id: Seq<char>| #[trigger]
            self.messages@.contains_key(id) ==> self.messages@[id].id@ == id
        &&& forall|i: int|
            #![trigger self.contexts@[i]]
            0 <= i < self.contexts.len() ==> self.positions@.contains_key(self.contexts@[i].id@)
                && self.positions@[self.contexts@[i].id@] == i
        &&& forall|id: Seq<char>| #[trigger]
            self.positions@.contains_key(id) ==> self.positions@[id] < self.contexts.len()
                && self.contexts@[self.positions@[id] as int].id@ == id
    }

    pub fn new() -> (r: Self)
        ensures
            r.wf(),
            r@.messages == Map::<Seq<char>, MessageView>::empty(),
            r@.contexts == Seq::<ContextView>::empty(),
    {
        let r = Pool {
            messages: StringHashMap::new(),
            contexts: Vec::new(),
            positions: StringHashMap::new(),
        };
        assert(r@.messages =~= Map::<Seq<char>, MessageView>::empty());
        assert(r@.contexts =~= Seq::<ContextView>::empty());
        r
    }

    /// In a pool every message is found under its own id, and no two contexts share
    /// one.
    pub proof fn law_ids_are_keys(&self)
        requires
            self.wf(),
        ensures
            self@.keyed(),
            self@.distinct(),
    {
        assert forall|id: Seq<char>| #[trigger]
            self@.messages.contains_key(id) implies self@.messages[id].id == id by {
            assert(self.messages@.contains_key(id));
        }
        self.lemma_distinct();
    }

    proof fn lemma_distinct(&self)
        requires
            self.wf(),
        ensures
            self@.distinct(),
    {
        assert forall|i: int, j: int|
            #![trigger self@.contexts[i], self@.contexts[j]]
            0 <= i < j < self@.contexts.len() implies self@.contexts[i].id
            != self@.contexts[j].id by {
            assert(self@.contexts[i].id == self.contexts@[i].id@);
            assert(self@.contexts[j].id == self.contexts@[j].id@);
        }
    }

    pub fn get_message(&self, id: &str) -> (r: Option<&Message>)
        ensures
            match r {
                Some(m) => self@.message(id@) == Some(m@),
                None => self@.message(id@) is None,
            },
    {
        self.messages.get(id)
    }

    pub fn get_context(&self, id: &str) -> (r: Option<&Context>)
        requires
            self.wf(),
        ensures
            match r {
                Some(c) => self@.context(id@) == Some(c@) && c@.id == id@,
                None => self@.context(id@) is None,
            },
    {
        match self.positions.get(id) {
            Some(i) => {
                proof {
                    self.lemma_distinct();
                    assert(self@.contexts[*i as int] == self.contexts@[*i as int]@);
                    lemma_context_in(self@.contexts, *i as int);
                }
                Some(&self.contexts[*i])
            },
            None => {
                proof {
                    assert forall|j: int|
                        #![trigger self@.contexts[j]]
                        0 <= j < self@.contexts.len() implies self@.contexts[j].id != id@ by {
                        assert(self@.contexts[j].id == self.contexts@[j].id@);
                    }
                    lemma_context_absent(self@.contexts, id@);
                }
                None
            },
        }
    }

    /// Add a message, or replace the one with its id.
    pub fn put_message(&mut self, message: Message)
        requires
            old(self).wf(),
        ensures
            final(self).wf(),
            final(self)@.messages == old(self)@.messages.insert(message@.id, message@),
            final(self)@.contexts == old(self)@.contexts,
    {
        let id = message.id.clone();
        self.messages.insert(id, message);
        assert(self@.messages =~= old(self)@.messages.insert(message@.id, message@));
    }

    /// Add a context whose id is not taken. Returns whether it was added.
    pub fn put_context(&mut self, context: Context) -> (added: bool)
        requires
            old(self).wf(),
        ensures
            final(self).wf(),
            final(self)@.messages == old(self)@.messages,
            added == (old(self)@.context(context@.id) is None),
            final(self)@.contexts == if added {
                old(self)@.contexts.push(context@)
            } else {
                old(self)@.contexts
            },
    {
        if self.get_context(context.id.as_str()).is_some() {
            return false;
        }
        let n = self.contexts.len();
        let id = context.id.clone();
        proof {
            if self.positions@.contains_key(id@) {
                let k = self.positions@[id@] as int;
                self.lemma_distinct();
                assert(self@.contexts[k] == self.contexts@[k]@);
                lemma_context_in(self@.contexts, k);
                assert(false);
            }
        }
        self.positions.insert(id, n);
        self.contexts.push(context);
        assert(self@.contexts =~= old(self)@.contexts.push(context@));
        true
    }

    /// Ids of the contexts that have `id` as a parent, in the pool's order.
    pub fn children(&self, id: &str) -> (r: Vec<String>)
        ensures
            views(r@) == self@.children(id@),
    {
        broadcast use crate::text::group_views;

        let mut r: Vec<String> = Vec::new();
        let mut i: usize = 0;
        let ghost all = self@.contexts;
        while i < self.contexts.len()
            invariant
                i <= self.contexts.len(),
                all == self@.contexts,
                views(r@) == children_in(all.take(i as int), id@),
            decreases self.contexts.len() - i,
        {
            assert(all.take(i + 1).drop_last() =~= all.take(i as int));
            assert(all.take(i + 1).last() == self.contexts@[i as int]@);
            if contains_text(&self.contexts[i].parents, id) {
                r.push(self.contexts[i].id.clone());
            }
            i += 1;
        }
        assert(all.take(i as int) =~= all);
        r
    }
}

// ---------------------------------------------------------------------------
// Tool output
// ---------------------------------------------------------------------------

pub struct ToolOutput {
    pub text: String,
    pub is_error: bool,
    pub details: Option<serde_json::Value>,
}

#[verifier::ext_equal]
pub struct ToolOutputView {
    pub text: Seq<char>,
    pub is_error: bool,
    pub details: Option<Json>,
}

impl View for ToolOutput {
    type V = ToolOutputView;

    open spec fn view(&self) -> ToolOutputView {
        ToolOutputView {
            text: self.text@,
            is_error: self.is_error,
            details: opt_json(self.details),
        }
    }
}

/// The output of a tool that failed with the given message.
pub open spec fn failure(text: Seq<char>) -> ToolOutputView {
    ToolOutputView { text, is_error: true, details: None }
}

pub fn err(msg: &str) -> (r: ToolOutput)
    ensures
        r@ == failure(msg@),
{
    ToolOutput { text: msg.to_string(), is_error: true, details: None }
}

} // verus!
