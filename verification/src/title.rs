//! Titles and previews: what a conversation is about, in a few words.
use crate::model::{BlockView, ContentBlock, Message, MessageView, Role};
use crate::sessions::{SessionState, SessionView, DEFAULT_SESSION_NAME};
use crate::text::{
    byte_len, bytes_up_to, chars_of, clip, eq_ignore_case, fit, fit_prefix, group_views, is_white,
    join, joined, last_index, lemma_fit, opt_view, rfind, same, same_ignoring_case, slice,
    split_words, trim, trimmed, truncate, views, word_len, words,
};
use vstd::prelude::*;

verus! {

/// How many bytes of a text the title generator is shown.
pub const ENTRY_BYTES: usize = 600;

/// How many bytes of conversation the title generator is shown.
pub const TRANSCRIPT_BYTES: usize = 4000;

/// How many bytes of a response a preview shows.
pub const PREVIEW_BYTES: usize = 100;

/// The most tokens that a title may take.
pub const TITLE_TOKENS: usize = 80;

/// What the generator is told to do.
pub const TITLE_SYSTEM_PROMPT: &'static str =
    "You generate short titles for coding agent sessions. You are part of a tool called 'ri' -- a terminal-based coding agent that helps engineers with software tasks: fixing bugs, adding features, refactoring, exploring codebases.\n\nGiven a conversation between a user and the coding agent, produce a short title (3-7 words) that captures the specific topic or task. Titles should read like short descriptions of what is being worked on, in sentence form (e.g. 'Fix login redirect loop', 'Add dark mode toggle', 'Refactor auth middleware').\n\nRules:\n- Output ONLY the title text, nothing else.\n- If there is not yet enough information to generate a meaningful title (e.g. the conversation just started, or the user's intent is unclear), output exactly the word DEFER.\n- Focus on the specific technical task, not generic descriptions.\n- Do not use quotes, colons, or prefixes like 'Title:'.\n- Use sentence case.";

// ---------------------------------------------------------------------------
// What the title generator is shown
// ---------------------------------------------------------------------------

/// A text of the conversation and whose it is.
pub struct Entry {
    pub label: String,
    pub text: String,
}

#[verifier::ext_equal]
pub struct EntryView {
    pub label: Seq<char>,
    pub text: Seq<char>,
}

impl View for Entry {
    type V = EntryView;

    open spec fn view(&self) -> EntryView {
        EntryView { label: self.label@, text: self.text@ }
    }
}

/// The texts among blocks that are not blank, trimmed and clipped.
pub open spec fn block_entries(label: Seq<char>, content: Seq<BlockView>) -> Seq<EntryView>
    decreases content.len(),
{
    if content.len() == 0 {
        Seq::empty()
    } else {
        let rest = block_entries(label, content.drop_last());
        match content.last() {
            BlockView::Text { text } => if trimmed(text).len() == 0 {
                rest
            } else {
                rest.push(EntryView { label, text: clip(trimmed(text), ENTRY_BYTES as nat) })
            },
            _ => rest,
        }
    }
}

/// The texts of a conversation; those of the system are left out.
pub open spec fn entries(messages: Seq<MessageView>) -> Seq<EntryView>
    decreases messages.len(),
{
    if messages.len() == 0 {
        Seq::empty()
    } else {
        let rest = entries(messages.drop_last());
        match messages.last().role {
            Role::System => rest,
            Role::User => rest + block_entries("user"@, messages.last().content),
            Role::Assistant => rest + block_entries("assistant"@, messages.last().content),
        }
    }
}

/// Where the tail begins that is shown with the first entry: entries before `i`
/// are taken in from the back while the total stays within the limit.
pub open spec fn tail_start(list: Seq<EntryView>, i: nat, total: nat) -> nat
    decreases i,
{
    if i <= 1 {
        1
    } else if total + byte_len(list[i - 1].text) > TRANSCRIPT_BYTES {
        i
    } else {
        tail_start(list, (i - 1) as nat, total + byte_len(list[i - 1].text))
    }
}

/// The first entry and as many of the last ones as fit.
pub open spec fn selected(list: Seq<EntryView>) -> Seq<EntryView> {
    seq![list[0]] + list.skip(tail_start(list, list.len(), byte_len(list[0].text)) as int)
}

pub open spec fn entry_line(entry: EntryView) -> Seq<char> {
    "["@ + entry.label + "]: "@ + entry.text
}

pub open spec fn entry_lines(list: Seq<EntryView>) -> Seq<Seq<char>> {
    Seq::new(list.len(), |i: int| entry_line(list[i]))
}

/// What the title generator is asked, if there is anything to go by.
pub open spec fn title_request(messages: Seq<MessageView>) -> Option<Seq<char>> {
    let list = entries(messages);
    if list.len() == 0 {
        None
    } else {
        Some(
            "Generate a title for this conversation:\n\n"@ + joined(
                entry_lines(selected(list)),
                "\n\n"@,
            ),
        )
    }
}

/// The message that asks for a title.
pub open spec fn title_message(text: Seq<char>) -> MessageView {
    MessageView {
        id: "title_ctx"@,
        role: Role::User,
        content: seq![BlockView::Text { text }],
        meta: None,
        summary: Seq::empty(),
    }
}

#[verifier::loop_isolation(false)]
fn collect_block_entries(label: &str, content: &Vec<ContentBlock>, list: &mut Vec<Entry>)
    ensures
        views(final(list)@) == views(old(list)@) + block_entries(label@, views(content@)),
{
    broadcast use group_views;

    let ghost all = views(content@);
    let ghost head = views(list@);
    let mut i: usize = 0;
    assert(head + block_entries(label@, all.take(0)) =~= head);
    while i < content.len()
        invariant
            i <= content.len(),
            views(list@) == head + block_entries(label@, all.take(i as int)),
        decreases content.len() - i,
    {
        assert(all.take(i + 1).drop_last() =~= all.take(i as int));
        assert(all.take(i + 1).last() == content@[i as int]@);
        if let ContentBlock::Text { text } = &content[i] {
            let body = trim(text.as_str());
            if !body.as_str().is_empty() {
                let text = truncate(body.as_str(), ENTRY_BYTES);
                list.push(Entry { label: label.to_string(), text });
            }
        }
        assert(views(list@) =~= head + block_entries(label@, all.take(i + 1)));
        i += 1;
    }
    assert(all.take(i as int) =~= all);
}

#[verifier::loop_isolation(false)]
fn collect_entries(messages: &Vec<Message>) -> (r: Vec<Entry>)
    ensures
        views(r@) == entries(views(messages@)),
{
    broadcast use group_views;

    let ghost all = views(messages@);
    let mut list: Vec<Entry> = Vec::new();
    let mut i: usize = 0;
    while i < messages.len()
        invariant
            i <= messages.len(),
            views(list@) == entries(all.take(i as int)),
        decreases messages.len() - i,
    {
        assert(all.take(i + 1).drop_last() =~= all.take(i as int));
        assert(all.take(i + 1).last() == messages@[i as int]@);
        match messages[i].role {
            Role::System => {},
            Role::User => {
                collect_block_entries("user", &messages[i].content, &mut list);
            },
            Role::Assistant => {
                collect_block_entries("assistant", &messages[i].content, &mut list);
            },
        }
        i += 1;
    }
    assert(all.take(i as int) =~= all);
    list
}

/// The number of bytes in a text, or some number over the transcript's limit.
fn counted(text: &str) -> (r: usize)
    ensures
        r <= TRANSCRIPT_BYTES + 1,
        byte_len(text@) <= TRANSCRIPT_BYTES ==> r == byte_len(text@),
        byte_len(text@) > TRANSCRIPT_BYTES ==> r > TRANSCRIPT_BYTES,
{
    bytes_up_to(text, TRANSCRIPT_BYTES + 1)
}

#[verifier::loop_isolation(false)]
fn find_tail(list: &Vec<Entry>) -> (r: usize)
    requires
        list.len() > 0,
    ensures
        r == tail_start(views(list@), list@.len(), byte_len(list@[0].text@)),
        1 <= r <= list.len(),
{
    let ghost all = views(list@);
    let mut total: usize = counted(list[0].text.as_str());
    let ghost mut sum: nat = byte_len(list@[0].text@);
    let mut i: usize = list.len();
    assert(all[0].text == list@[0].text@);
    while i > 1
        invariant
            1 <= i <= list.len(),
            total <= TRANSCRIPT_BYTES + 1,
            sum <= TRANSCRIPT_BYTES ==> total == sum,
            sum > TRANSCRIPT_BYTES ==> total > TRANSCRIPT_BYTES,
            tail_start(all, all.len(), byte_len(all[0].text)) == tail_start(all, i as nat, sum),
        decreases i,
    {
        assert(all[i - 1].text == list@[i - 1].text@);
        let n = counted(list[i - 1].text.as_str());
        if total + n > TRANSCRIPT_BYTES {
            return i;
        }
        total = total + n;
        proof {
            sum = sum + byte_len(all[i - 1].text);
        }
        i -= 1;
    }
    i
}

fn format_entry(entry: &Entry) -> (r: String)
    ensures
        r@ == entry_line(entry@),
{
    let mut out = "[".to_string();
    out.append(entry.label.as_str());
    out.append("]: ");
    out.append(entry.text.as_str());
    out
}

/// Put what the title generator needs to see into one message; none if the
/// conversation has no text.
#[verifier::loop_isolation(false)]
pub fn build_title_context(messages: &Vec<Message>) -> (r: Vec<Message>)
    ensures
        match title_request(views(messages@)) {
            Some(text) => views(r@) == seq![title_message(text)],
            None => r@.len() == 0,
        },
{
    broadcast use group_views;

    let list = collect_entries(messages);
    if list.len() == 0 {
        return Vec::new();
    }
    let ghost all = views(list@);
    let start = find_tail(&list);
    assert(all[0] == list@[0]@);
    let mut lines: Vec<String> = Vec::new();
    lines.push(format_entry(&list[0]));
    let ghost picked = selected(all);
    let mut i: usize = start;
    assert(picked.take(1) =~= seq![all[0]]);
    assert(views(lines@) =~= entry_lines(picked.take(1)));
    while i < list.len()
        invariant
            start <= i <= list.len(),
            views(lines@) == entry_lines(picked.take(1 + i - start)),
        decreases list.len() - i,
    {
        assert(picked[1 + i - start] == all[i as int]);
        assert(all[i as int] == list@[i as int]@);
        assert(picked.take(2 + i - start) =~= picked.take(1 + i - start).push(all[i as int]));
        lines.push(format_entry(&list[i]));
        assert(views(lines@) =~= entry_lines(picked.take(2 + i - start)));
        i += 1;
    }
    assert(picked.take(1 + i - start) =~= picked);
    let transcript = join(&lines, "\n\n");
    let text = "Generate a title for this conversation:\n\n".to_string().concat(
        transcript.as_str(),
    );
    let mut content: Vec<ContentBlock> = Vec::new();
    content.push(ContentBlock::Text { text });
    assert(views(content@) =~= seq![BlockView::Text { text: text@ }]);
    let mut r: Vec<Message> = Vec::new();
    r.push(
        Message {
            id: "title_ctx".to_string(),
            role: Role::User,
            content,
            meta: None,
            summary: String::new(),
        },
    );
    assert(views(r@) =~= seq![title_message(text@)]);
    r
}

// ---------------------------------------------------------------------------
// What it answers
// ---------------------------------------------------------------------------

/// The texts among blocks, in order.
pub open spec fn texts_of(content: Seq<BlockView>) -> Seq<Seq<char>>
    decreases content.len(),
{
    if content.len() == 0 {
        Seq::empty()
    } else {
        match content.last() {
            BlockView::Text { text } => texts_of(content.drop_last()).push(text),
            _ => texts_of(content.drop_last()),
        }
    }
}

pub open spec fn trimmed_all(texts: Seq<Seq<char>>) -> Seq<Seq<char>> {
    Seq::new(texts.len(), |i: int| trimmed(texts[i]))
}

/// The title in a response: its text on one line, with single spaces.
pub open spec fn title_in(content: Seq<BlockView>) -> Seq<char> {
    joined(words(joined(trimmed_all(texts_of(content)), " "@)), " "@)
}

/// Whether a response puts the title off.
pub open spec fn deferred(title: Seq<char>) -> bool {
    title.len() == 0 || same_ignoring_case(title, "DEFER"@)
}

#[verifier::loop_isolation(false)]
fn collect_texts(content: &Vec<ContentBlock>) -> (r: Vec<String>)
    ensures
        views(r@) == texts_of(views(content@)),
{
    broadcast use group_views;

    let ghost all = views(content@);
    let mut r: Vec<String> = Vec::new();
    let mut i: usize = 0;
    while i < content.len()
        invariant
            i <= content.len(),
            views(r@) == texts_of(all.take(i as int)),
        decreases content.len() - i,
    {
        assert(all.take(i + 1).drop_last() =~= all.take(i as int));
        assert(all.take(i + 1).last() == content@[i as int]@);
        if let ContentBlock::Text { text } = &content[i] {
            r.push(text.clone());
        }
        i += 1;
    }
    assert(all.take(i as int) =~= all);
    r
}

#[verifier::loop_isolation(false)]
pub fn title_from_response(content: &Vec<ContentBlock>) -> (r: String)
    ensures
        r@ == title_in(views(content@)),
{
    broadcast use group_views;

    let texts = collect_texts(content);
    let ghost all = views(texts@);
    let mut parts: Vec<String> = Vec::new();
    let mut i: usize = 0;
    assert(trimmed_all(all).take(0) =~= Seq::<Seq<char>>::empty());
    while i < texts.len()
        invariant
            i <= texts.len(),
            views(parts@) == trimmed_all(all).take(i as int),
        decreases texts.len() - i,
    {
        parts.push(trim(texts[i].as_str()));
        assert(trimmed_all(all).take(i + 1) =~= trimmed_all(all).take(i as int).push(
            trimmed(all[i as int]),
        ));
        i += 1;
    }
    assert(trimmed_all(all).take(i as int) =~= trimmed_all(all));
    let response = join(&parts, " ");
    let pieces = split_words(response.as_str());
    join(&pieces, " ")
}

// ---------------------------------------------------------------------------
// Setting a title
// ---------------------------------------------------------------------------

/// Whether a session has no title yet.
pub fn wants_title(session: &SessionState) -> (r: bool)
    ensures
        r == (session@.name == DEFAULT_SESSION_NAME@),
{
    same(session.name.as_str(), DEFAULT_SESSION_NAME)
}

/// A title generation that was started: its number and what to ask.
pub struct TitleTask {
    pub seq: u64,
    pub messages: Vec<Message>,
}

/// Start to generate a title. Only a conversation with text gets a number, so that
/// one without cannot supersede a generation that is under way.
pub fn begin_title(session: &mut SessionState, messages: &Vec<Message>) -> (r: Option<TitleTask>)
    requires
        old(session)@.title_gen_seq < u64::MAX,
    ensures
        match title_request(views(messages@)) {
            Some(text) => r is Some && r->0.seq == old(session)@.title_gen_seq + 1 && views(
                r->0.messages@,
            ) == seq![title_message(text)] && final(session)@ == (SessionView {
                title_gen_seq: (old(session)@.title_gen_seq + 1) as u64,
                ..old(session)@
            }),
            None => r is None && final(session)@ == old(session)@,
        },
{
    let context = build_title_context(messages);
    assert(views(context@).len() == context@.len());
    if context.len() == 0 {
        return None;
    }
    session.title_gen_seq = session.title_gen_seq + 1;
    Some(TitleTask { seq: session.title_gen_seq, messages: context })
}

/// The title that a response sets: none where it is put off, or where a later
/// generation has been started.
pub open spec fn settled_title(session: SessionView, seq: u64, content: Seq<BlockView>) -> Option<
    Seq<char>,
> {
    let title = title_in(content);
    if deferred(title) || session.title_gen_seq != seq {
        None
    } else {
        Some(title)
    }
}

/// Take the response to a title generation. Returns the title it sets.
pub fn finish_title(session: &mut SessionState, seq: u64, content: &Vec<ContentBlock>) -> (r:
    Option<String>)
    ensures
        opt_view(r) == settled_title(old(session)@, seq, views(content@)),
        final(session)@ == match settled_title(old(session)@, seq, views(content@)) {
            Some(title) => SessionView { name: title, ..old(session)@ },
            None => old(session)@,
        },
{
    let title = title_from_response(content);
    if title.as_str().is_empty() || eq_ignore_case(title.as_str(), "DEFER") {
        return None;
    }
    if session.title_gen_seq != seq {
        return None;
    }
    session.name = title.clone();
    Some(title)
}

// ---------------------------------------------------------------------------
// Previews
// ---------------------------------------------------------------------------

/// The last message of a role.
pub open spec fn last_of_role(messages: Seq<MessageView>, role: Role) -> Option<MessageView>
    decreases messages.len(),
{
    if messages.len() == 0 {
        None
    } else if messages.last().role == role {
        Some(messages.last())
    } else {
        last_of_role(messages.drop_last(), role)
    }
}

/// `text` when it is short, else its beginning up to a space, with an ellipsis.
pub open spec fn shortened(text: Seq<char>) -> Seq<char> {
    if byte_len(text) <= PREVIEW_BYTES {
        text
    } else {
        let cut = text.take(fit(text, PREVIEW_BYTES as nat) as int);
        let end = match last_index(cut, ' ') {
            Some(k) => k,
            None => cut.len() as int,
        };
        text.take(end) + "..."@
    }
}

/// A preview of the last response; none if it has no text.
pub open spec fn preview(messages: Seq<MessageView>) -> Option<Seq<char>> {
    match last_of_role(messages, Role::Assistant) {
        Some(m) => {
            let text = trimmed(joined(texts_of(m.content), " "@));
            if text.len() == 0 {
                None
            } else {
                Some(shortened(text))
            }
        },
        None => None,
    }
}

fn shorten(text: &str) -> (r: String)
    ensures
        r@ == shortened(text@),
{
    let chars = chars_of(text);
    let boundary = fit_prefix(&chars, PREVIEW_BYTES);
    if boundary == chars.len() {
        return text.to_string();
    }
    let end = match rfind(&chars, ' ', boundary) {
        Some(k) => k,
        None => boundary,
    };
    assert(chars@.subrange(0, end as int) =~= chars@.take(end as int));
    slice(&chars, 0, end).concat("...")
}

/// A short preview of the last response in a conversation.
#[verifier::loop_isolation(false)]
pub fn last_assistant_preview(messages: &Vec<Message>) -> (r: Option<String>)
    ensures
        opt_view(r) == preview(views(messages@)),
{
    let ghost all = views(messages@);
    let mut i: usize = messages.len();
    assert(all.take(all.len() as int) =~= all);
    while i > 0
        invariant
            i <= messages.len(),
            last_of_role(all, Role::Assistant) == last_of_role(
                all.take(i as int),
                Role::Assistant,
            ),
        decreases i,
    {
        assert(all.take(i as int).last() == messages@[i - 1]@);
        assert(all.take(i as int).drop_last() =~= all.take(i - 1));
        if messages[i - 1].role == Role::Assistant {
            let texts = collect_texts(&messages[i - 1].content);
            let whole = join(&texts, " ");
            let text = trim(whole.as_str());
            return if text.as_str().is_empty() {
                None
            } else {
                Some(shorten(text.as_str()))
            };
        }
        i -= 1;
    }
    None
}

// ---------------------------------------------------------------------------
// Laws
// ---------------------------------------------------------------------------

/// Whether a text holds no white space but single characters of space.
pub open spec fn one_line(s: Seq<char>) -> bool {
    forall|i: int| 0 <= i < s.len() && is_white(#[trigger] s[i]) ==> s[i] == ' '
}

pub open spec fn solid(s: Seq<char>) -> bool {
    s.len() > 0 && forall|i: int| 0 <= i < s.len() ==> !is_white(#[trigger] s[i])
}

proof fn lemma_word(s: Seq<char>)
    ensures
        word_len(s) <= s.len(),
        forall|i: int| 0 <= i < word_len(s) ==> !is_white(#[trigger] s[i]),
    decreases s.len(),
{
    if s.len() > 0 && !is_white(s[0]) {
        lemma_word(s.drop_first());
        assert forall|i: int| 0 <= i < word_len(s) implies !is_white(#[trigger] s[i]) by {
            if i > 0 {
                assert(s[i] == s.drop_first()[i - 1]);
            }
        }
    }
}

proof fn lemma_words_solid(s: Seq<char>)
    ensures
        forall|i: int| 0 <= i < words(s).len() ==> solid(#[trigger] words(s)[i]),
    decreases s.len(),
{
    if s.len() > 0 {
        if is_white(s[0]) {
            lemma_words_solid(s.drop_first());
            assert(words(s) == words(s.drop_first()));
        } else {
            lemma_word(s);
            let n = word_len(s) as int;
            lemma_words_solid(s.skip(n));
            assert(n >= 1);
            assert forall|i: int| 0 <= i < n implies !is_white(#[trigger] s.take(n)[i]) by {
                assert(s.take(n)[i] == s[i]);
            }
            let rest = words(s.skip(n));
            let all = seq![s.take(n)] + rest;
            assert(words(s) == all);
            assert forall|i: int| 0 <= i < all.len() implies solid(#[trigger] all[i]) by {
                if i > 0 {
                    assert(all[i] == rest[i - 1]);
                } else {
                    assert(all[i] == s.take(n));
                    assert(solid(s.take(n)));
                }
            }
        }
    }
}

/// Whether no two spaces stand together and none stands at either end.
pub open spec fn tight(s: Seq<char>) -> bool {
    &&& s.len() > 0 ==> s[0] != ' ' && s.last() != ' '
    &&& forall|i: int|
        #![trigger s[i]]
        0 < i < s.len() && s[i] == ' ' ==> s[i - 1] != ' '
}

proof fn lemma_joined_words(parts: Seq<Seq<char>>)
    requires
        forall|i: int| 0 <= i < parts.len() ==> solid(#[trigger] parts[i]),
    ensures
        one_line(joined(parts, " "@)),
        tight(joined(parts, " "@)),
        parts.len() > 0 ==> joined(parts, " "@).len() > 0,
    decreases parts.len(),
{
    reveal_strlit(" ");
    if parts.len() == 1 {
        assert(solid(parts[0]));
        assert(!is_white(parts[0][0]));
        assert(!is_white(parts[0].last()));
    } else if parts.len() > 1 {
        let init = parts.drop_last();
        assert forall|i: int| 0 <= i < init.len() implies solid(#[trigger] init[i]) by {
            assert(init[i] == parts[i]);
        }
        lemma_joined_words(init);
        let a = joined(init, " "@);
        let b = parts.last();
        assert(solid(parts[parts.len() - 1]));
        assert(!is_white(b[0]));
        assert(!is_white(b.last()));
        let all = a + " "@ + b;
        assert forall|i: int| 0 <= i < all.len() && is_white(#[trigger] all[i]) implies all[i]
            == ' ' by {
            if i > a.len() {
                assert(all[i] == b[i - a.len() - 1]);
            } else if i < a.len() {
                assert(all[i] == a[i]);
            }
        }
        assert forall|i: int|
            #![trigger all[i]]
            0 < i < all.len() && all[i] == ' ' implies all[i - 1] != ' ' by {
            if i > a.len() {
                assert(all[i] == b[i - a.len() - 1]);
                assert(!is_white(b[i - a.len() - 1]));
            } else if i == a.len() {
                assert(all[i - 1] == a.last());
            } else {
                assert(all[i] == a[i]);
                assert(all[i - 1] == a[i - 1]);
            }
        }
        assert(all[0] == a[0]);
        assert(all.last() == b.last());
    }
}

/// A title stands on one line, with single spaces between its words and none at
/// its ends.
pub proof fn law_title_is_one_line(content: Seq<BlockView>)
    ensures
        one_line(title_in(content)),
        tight(title_in(content)),
{
    let text = joined(trimmed_all(texts_of(content)), " "@);
    lemma_words_solid(text);
    lemma_joined_words(words(text));
}

/// A title that is set is never empty and never the word that puts it off.
pub proof fn law_settled_titles_say_something(
    session: SessionView,
    seq: u64,
    content: Seq<BlockView>,
)
    requires
        settled_title(session, seq, content) is Some,
    ensures
        settled_title(session, seq, content)->0.len() > 0,
        !same_ignoring_case(settled_title(session, seq, content)->0, "DEFER"@),
{
}

/// Only the latest generation sets the title: the response to one that was started
/// earlier sets none.
pub proof fn law_latest_title_wins(
    session: SessionView,
    seq: u64,
    later: u64,
    content: Seq<BlockView>,
)
    requires
        session.title_gen_seq == later,
        seq < later,
    ensures
        settled_title(session, seq, content) is None,
{
}

pub open spec fn total_bytes(list: Seq<EntryView>) -> nat
    decreases list.len(),
{
    if list.len() == 0 {
        0
    } else {
        byte_len(list[0].text) + total_bytes(list.drop_first())
    }
}

proof fn lemma_tail(list: Seq<EntryView>, i: nat, total: nat)
    requires
        1 <= i <= list.len(),
        total <= TRANSCRIPT_BYTES,
    ensures
        1 <= tail_start(list, i, total) <= i,
        total + total_bytes(list.subrange(tail_start(list, i, total) as int, i as int))
            <= TRANSCRIPT_BYTES,
    decreases i,
{
    if i > 1 && total + byte_len(list[i - 1].text) <= TRANSCRIPT_BYTES {
        let t = tail_start(list, i, total);
        lemma_tail(list, (i - 1) as nat, total + byte_len(list[i - 1].text));
        lemma_total_push(list.subrange(t as int, i - 1), list[i - 1]);
        assert(list.subrange(t as int, i as int) =~= list.subrange(t as int, i - 1).push(
            list[i - 1],
        ));
    } else {
        let t = tail_start(list, i, total);
        assert(list.subrange(t as int, i as int) =~= Seq::<EntryView>::empty());
    }
}

proof fn lemma_total_push(list: Seq<EntryView>, x: EntryView)
    ensures
        total_bytes(list.push(x)) == total_bytes(list) + byte_len(x.text),
    decreases list.len(),
{
    if list.len() == 0 {
        reveal_with_fuel(total_bytes, 2);
        assert(list.push(x).drop_first() =~= Seq::<EntryView>::empty());
        assert(list.push(x)[0] == x);
    } else {
        assert(list.push(x)[0] == list[0]);
        lemma_total_push(list.drop_first(), x);
        assert(list.push(x).drop_first() =~= list.drop_first().push(x));
    }
}

proof fn lemma_block_entries_short(label: Seq<char>, content: Seq<BlockView>)
    ensures
        forall|i: int|
            0 <= i < block_entries(label, content).len() ==> byte_len(
                (#[trigger] block_entries(label, content)[i]).text,
            ) <= ENTRY_BYTES + 3,
    decreases content.len(),
{
    if content.len() > 0 {
        lemma_block_entries_short(label, content.drop_last());
        match content.last() {
            BlockView::Text { text } => {
                lemma_clip_short(trimmed(text), ENTRY_BYTES as nat);
            },
            _ => {},
        }
        let rest = block_entries(label, content.drop_last());
        let all = block_entries(label, content);
        assert forall|i: int| 0 <= i < all.len() implies byte_len((#[trigger] all[i]).text)
            <= ENTRY_BYTES + 3 by {
            if i < rest.len() {
                assert(all[i] == rest[i]);
            }
        }
    }
}

proof fn lemma_byte_len_concat(a: Seq<char>, b: Seq<char>)
    ensures
        byte_len(a + b) == byte_len(a) + byte_len(b),
    decreases b.len(),
{
    if b.len() == 0 {
        assert(a + b =~= a);
    } else {
        lemma_byte_len_concat(a, b.drop_last());
        assert((a + b).drop_last() =~= a + b.drop_last());
    }
}

proof fn lemma_ellipsis()
    ensures
        byte_len("..."@) == 3,
{
    reveal_strlit("...");
    reveal_with_fuel(byte_len, 4);
    assert("..."@.drop_last().drop_last().drop_last() =~= Seq::<char>::empty());
    assert("..."@.len() == 3);
}

proof fn lemma_clip_short(s: Seq<char>, max: nat)
    ensures
        byte_len(clip(s, max)) <= max + 3,
{
    lemma_fit(s, max);
    lemma_ellipsis();
    lemma_byte_len_concat(s.take(fit(s, max) as int), "..."@);
}

proof fn lemma_entries_short(messages: Seq<MessageView>)
    ensures
        forall|i: int|
            0 <= i < entries(messages).len() ==> byte_len((#[trigger] entries(messages)[i]).text)
                <= ENTRY_BYTES + 3,
    decreases messages.len(),
{
    if messages.len() > 0 {
        lemma_entries_short(messages.drop_last());
        let m = messages.last();
        lemma_block_entries_short("user"@, m.content);
        lemma_block_entries_short("assistant"@, m.content);
        let rest = entries(messages.drop_last());
        let all = entries(messages);
        assert forall|i: int| 0 <= i < all.len() implies byte_len((#[trigger] all[i]).text)
            <= ENTRY_BYTES + 3 by {
            if i < rest.len() {
                assert(all[i] == rest[i]);
            } else if m.role == Role::User {
                assert(all[i] == block_entries("user"@, m.content)[i - rest.len()]);
            } else {
                assert(all[i] == block_entries("assistant"@, m.content)[i - rest.len()]);
            }
        }
    }
}

/// The texts that the title generator is shown stay within the limit, and the
/// first text of the conversation is always among them.
pub proof fn law_title_context_is_bounded(messages: Seq<MessageView>)
    requires
        entries(messages).len() > 0,
    ensures
        total_bytes(selected(entries(messages))) <= TRANSCRIPT_BYTES,
        selected(entries(messages))[0] == entries(messages)[0],
{
    let list = entries(messages);
    lemma_entries_short(messages);
    assert(byte_len(list[0].text) <= ENTRY_BYTES + 3);
    lemma_tail(list, list.len(), byte_len(list[0].text));
    let t = tail_start(list, list.len(), byte_len(list[0].text)) as int;
    assert(list.subrange(t, list.len() as int) =~= list.skip(t));
    assert(selected(list).drop_first() =~= list.skip(t));
}

/// A preview is short, whatever the response.
pub proof fn law_preview_is_short(messages: Seq<MessageView>)
    requires
        preview(messages) is Some,
    ensures
        byte_len(preview(messages)->0) <= PREVIEW_BYTES + 3,
{
    let m = last_of_role(messages, Role::Assistant)->0;
    let text = trimmed(joined(texts_of(m.content), " "@));
    if byte_len(text) > PREVIEW_BYTES {
        lemma_fit(text, PREVIEW_BYTES as nat);
        lemma_ellipsis();
        let n = fit(text, PREVIEW_BYTES as nat) as int;
        let cut = text.take(n);
        lemma_last_index(cut, ' ');
        let end = match last_index(cut, ' ') {
            Some(k) => k,
            None => cut.len() as int,
        };
        crate::text::lemma_byte_len_take(text, end, n);
        lemma_byte_len_concat(text.take(end), "..."@);
    }
}

proof fn lemma_last_index(s: Seq<char>, c: char)
    ensures
        match last_index(s, c) {
            Some(k) => 0 <= k < s.len(),
            None => true,
        },
    decreases s.len(),
{
    if s.len() > 0 && s.last() != c {
        lemma_last_index(s.drop_last(), c);
    }
}

} // verus!
