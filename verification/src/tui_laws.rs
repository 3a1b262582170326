//! What holds of the terminal interface over the events of a run and the user's input.
use crate::events::{AgentEventView, StreamEventView, UsageView};
use crate::screen::{framed_height, inside, set_lines, Setting};
use crate::text::{
    byte_len, decimal, is_white, joined, lemma_occurs, lemma_occurs_within, lines_in, occurs, words,
};
use crate::text_laws::{blank, law_clip_keeps_what_fits, law_trimmed_text};
use crate::tui::{
    body_setting, body_style, chrome_tint, chrome_title, command_of, concatenated, countable,
    finished, help, login_lines, phase_label, preview_of, session_name, shown, spinner, status_left,
    status_right, streamed, template_lines, BlockKindView, BlockView, BodyStyle, CommandView, Effect,
    Listed, PhaseView, PreviewView, Tint, TuiView, OUTPUT_BYTES,
};
use vstd::prelude::*;

verus! {

// ---------------------------------------------------------------------------
// Thinking and responses
// ---------------------------------------------------------------------------

/// The interface after the parts of a model's thinking.
pub open spec fn after_thoughts(state: TuiView, deltas: Seq<Seq<char>>) -> TuiView
    decreases deltas.len(),
{
    if deltas.len() == 0 {
        state
    } else {
        streamed(
            after_thoughts(state, deltas.drop_last()),
            StreamEventView::ThinkingDelta(deltas.last()),
        ).0
    }
}

proof fn lemma_after_thoughts(state: TuiView, deltas: Seq<Seq<char>>)
    ensures
        after_thoughts(state, deltas) == (TuiView {
            thinking_buf: state.thinking_buf + concatenated(deltas),
            ..state
        }),
    decreases deltas.len(),
{
    if deltas.len() == 0 {
        assert(state.thinking_buf + concatenated(deltas) =~= state.thinking_buf);
    } else {
        lemma_after_thoughts(state, deltas.drop_last());
        assert(state.thinking_buf + concatenated(deltas.drop_last()) + deltas.last()
            =~= state.thinking_buf + concatenated(deltas));
    }
}

/// Thinking is shown whole and once: after its start, its parts and its end, one block is
/// new, which is one of thinking and holds all the parts in their order. Nothing else of
/// what is shown has changed.
pub proof fn law_thinking_is_shown_whole(state: TuiView, deltas: Seq<Seq<char>>)
    requires
        concatenated(deltas).len() > 0,
    ensures
        ({
            let begun = streamed(state, StreamEventView::ThinkingStart).0;
            let ended = streamed(after_thoughts(begun, deltas), StreamEventView::ThinkingEnd);
            &&& ended.1 == Effect::Emit
            &&& ended.0.blocks.len() == state.blocks.len() + 1
            &&& ended.0.blocks.drop_last() == state.blocks
            &&& ended.0.blocks.last().kind is Thinking
            &&& ended.0.blocks.last().body == concatenated(deltas)
            &&& ended.0.thinking_buf.len() == 0
            &&& ended.0.text_buf == state.text_buf
            &&& ended.0.totals == state.totals
            &&& ended.0.model_name == state.model_name
            &&& ended.0.phase is Waiting
        }),
{
    let begun = streamed(state, StreamEventView::ThinkingStart).0;
    lemma_after_thoughts(begun, deltas);
    assert(Seq::<char>::empty() + concatenated(deltas) =~= concatenated(deltas));
    let ended = streamed(after_thoughts(begun, deltas), StreamEventView::ThinkingEnd).0;
    assert(ended.blocks.drop_last() =~= state.blocks);
}

/// While thinking comes in, the viewport shows all that has come in so far.
pub proof fn law_thinking_is_previewed(state: TuiView, deltas: Seq<Seq<char>>)
    ensures
        ({
            let begun = streamed(state, StreamEventView::ThinkingStart).0;
            let now = after_thoughts(begun, deltas);
            &&& concatenated(deltas).len() > 0 ==> preview_of(now) == PreviewView::Thinking(
                concatenated(deltas),
            )
            &&& concatenated(deltas).len() == 0 ==> preview_of(now) == PreviewView::Line(
                "reasoning..."@,
            )
            &&& now.blocks == state.blocks
        }),
{
    let begun = streamed(state, StreamEventView::ThinkingStart).0;
    lemma_after_thoughts(begun, deltas);
    assert(Seq::<char>::empty() + concatenated(deltas) =~= concatenated(deltas));
}

/// A part of a response goes behind what has come in of it and leaves the thinking alone;
/// a part of the thinking goes behind the thinking and leaves the response alone. While a
/// response comes in, the viewport shows it.
pub proof fn law_parts_go_behind(state: TuiView, part: Seq<char>)
    ensures
        ({
            let (text, drawn) = streamed(state, StreamEventView::TextDelta(part));
            &&& drawn == Effect::Draw
            &&& text.text_buf == state.text_buf + part
            &&& text.thinking_buf == state.thinking_buf
            &&& text.blocks == state.blocks
            &&& text.phase == state.phase
            &&& state.phase is Responding && part.len() > 0 ==> preview_of(text)
                == PreviewView::Response(state.text_buf + part)
        }),
        ({
            let (thinking, drawn) = streamed(state, StreamEventView::ThinkingDelta(part));
            &&& drawn == Effect::Draw
            &&& thinking.thinking_buf == state.thinking_buf + part
            &&& thinking.text_buf == state.text_buf
            &&& thinking.blocks == state.blocks
            &&& thinking.phase == state.phase
        }),
{
}

/// A response or thinking of which nothing has come in leaves no block.
pub proof fn law_nothing_is_shown_of_nothing(state: TuiView)
    ensures
        ({
            let begun = streamed(state, StreamEventView::TextStart).0;
            &&& begun.phase is Responding
            &&& preview_of(begun) == PreviewView::Line("writing..."@)
            &&& streamed(begun, StreamEventView::TextEnd).0.blocks == state.blocks
            &&& streamed(begun, StreamEventView::TextEnd).0.phase is Waiting
            &&& preview_of(streamed(begun, StreamEventView::TextEnd).0) == PreviewView::Line(
                "sending request..."@,
            )
        }),
        ({
            let begun = streamed(state, StreamEventView::ThinkingStart).0;
            &&& begun.phase is Thinking
            &&& streamed(begun, StreamEventView::ThinkingEnd).0.blocks == state.blocks
            &&& streamed(begun, StreamEventView::ThinkingEnd).0.phase is Waiting
        }),
{
}

/// What was cut off is shown when the run is over: the response first and then the
/// thinking, each whole, and neither where nothing of it has come in.
pub proof fn law_cut_off_texts_are_shown(state: TuiView)
    ensures
        ({
            let done = finished(state);
            let text = BlockView { kind: BlockKindView::Assistant, body: state.text_buf };
            let thinking = BlockView { kind: BlockKindView::Thinking, body: state.thinking_buf };
            let (some, more) = (state.text_buf.len() > 0, state.thinking_buf.len() > 0);
            &&& some && more ==> done.blocks == state.blocks.push(text).push(thinking)
            &&& some && !more ==> done.blocks == state.blocks.push(text)
            &&& !some && more ==> done.blocks == state.blocks.push(thinking)
            &&& !some && !more ==> done.blocks == state.blocks
            &&& done.phase is Input
            &&& preview_of(done) is Input
            &&& done.text_buf.len() == 0 && done.thinking_buf.len() == 0
            &&& done.totals == state.totals
            &&& done.model_name == state.model_name
        }),
{
    let done = finished(state);
    let text = BlockView { kind: BlockKindView::Assistant, body: state.text_buf };
    let thinking = BlockView { kind: BlockKindView::Thinking, body: state.thinking_buf };
    let (some, more) = (state.text_buf.len() > 0, state.thinking_buf.len() > 0);
    if some && more {
        assert(done.blocks =~= state.blocks.push(text).push(thinking));
    } else if some {
        assert(done.blocks =~= state.blocks.push(text));
    } else if more {
        assert(done.blocks =~= state.blocks.push(thinking));
    } else {
        assert(done.blocks =~= state.blocks);
    }
}

// ---------------------------------------------------------------------------
// Tools, usage and errors
// ---------------------------------------------------------------------------

/// A tool is named while it runs. When it is done, one block is new: it bears the name of
/// the tool, says whether it failed, and holds its output, whole where that is not too
/// long and else as much of its beginning as there is room for and an ellipsis.
pub proof fn law_tools_are_shown(
    state: TuiView,
    start: AgentEventView,
    end: AgentEventView,
    id: Seq<char>,
    name: Seq<char>,
)
    requires
        start == (AgentEventView::ToolStart { id, name }) || start == AgentEventView::Stream(
            StreamEventView::ToolCallStart { id, name },
        ),
        end is ToolEnd,
    ensures
        ({
            let running = shown(state, start).0;
            let (done, effect) = shown(running, end);
            let output = end->ToolEnd_output;
            let block = done.blocks.last();
            &&& running.phase == PhaseView::Tool(name)
            &&& preview_of(running) == (PreviewView::Tool { name, line: "executing: "@ + name })
            &&& running.blocks == state.blocks
            &&& effect == Effect::Emit
            &&& done.phase is Waiting
            &&& done.blocks == state.blocks.push(block)
            &&& block.kind == (BlockKindView::Tool { name, is_error: end->ToolEnd_is_error })
            &&& chrome_title(block.kind) == name
            &&& byte_len(output) <= 50000 ==> block.body == output
            &&& byte_len(output) > 50000 ==> exists|n: int|
                {
                    &&& 0 <= n < output.len()
                    &&& block.body == #[trigger] output.take(n) + "..."@
                    &&& byte_len(output.take(n)) <= 50000
                    &&& byte_len(output.take(n + 1)) > 50000
                }
            &&& done.text_buf == state.text_buf
            &&& done.thinking_buf == state.thinking_buf
            &&& done.totals == state.totals
        }),
{
    law_clip_keeps_what_fits(end->ToolEnd_output, OUTPUT_BYTES as nat);
}

/// The output of a tool of which no start was told is shown all the same.
pub proof fn law_unannounced_tools_are_shown(state: TuiView, end: AgentEventView)
    requires
        !(state.phase is Tool),
        end is ToolEnd,
        byte_len(end->ToolEnd_output) <= 50000,
    ensures
        shown(state, end).0.blocks == state.blocks.push(
            BlockView {
                kind: BlockKindView::Tool { name: "tool"@, is_error: end->ToolEnd_is_error },
                body: end->ToolEnd_output,
            },
        ),
{
    law_clip_keeps_what_fits(end->ToolEnd_output, OUTPUT_BYTES as nat);
}

/// Each count of a turn's usage is added to its own total, and a note tells what went in,
/// what came out and what was read from the cache.
pub proof fn law_usage_is_counted(state: TuiView, usage: UsageView)
    requires
        state.totals.input_tokens + usage.input_tokens <= u64::MAX,
        state.totals.output_tokens + usage.output_tokens <= u64::MAX,
        state.totals.cache_read_tokens + usage.cache_read_tokens <= u64::MAX,
        state.totals.cache_write_tokens + usage.cache_write_tokens <= u64::MAX,
    ensures
        ({
            let (next, effect) = streamed(state, StreamEventView::Usage(usage));
            let note = next.blocks.last();
            &&& effect == Effect::Emit
            &&& next.totals.input_tokens == state.totals.input_tokens + usage.input_tokens
            &&& next.totals.output_tokens == state.totals.output_tokens + usage.output_tokens
            &&& next.totals.cache_read_tokens == state.totals.cache_read_tokens
                + usage.cache_read_tokens
            &&& next.totals.cache_write_tokens == state.totals.cache_write_tokens
                + usage.cache_write_tokens
            &&& next.blocks == state.blocks.push(note)
            &&& note.kind is Info
            &&& note.body == "tokens: "@ + decimal(usage.input_tokens as nat) + " in / "@ + decimal(
                usage.output_tokens as nat,
            ) + " out / "@ + decimal(usage.cache_read_tokens as nat) + " cached"@
            &&& next.phase == state.phase
            &&& next.text_buf == state.text_buf
            &&& next.thinking_buf == state.thinking_buf
        }),
{
}

/// An error is shown as it is told, whether the model's response or the run told it, and
/// what has come in stays.
pub proof fn law_errors_are_shown(state: TuiView, message: Seq<char>)
    ensures
        ({
            let streamed = shown(
                state,
                AgentEventView::Stream(StreamEventView::Error(message)),
            );
            let told = shown(state, AgentEventView::Error(message));
            &&& streamed == told
            &&& told.1 == Effect::Emit
            &&& told.0.blocks == state.blocks.push(
                BlockView { kind: BlockKindView::Error, body: message },
            )
            &&& told.0.text_buf == state.text_buf
            &&& told.0.thinking_buf == state.thinking_buf
            &&& told.0.phase == state.phase
            &&& told.0.totals == state.totals
        }),
{
}

/// What says nothing new to the user changes nothing that is shown.
pub proof fn law_other_events_change_nothing(state: TuiView, event: AgentEventView)
    requires
        ({
            ||| event is MessageComplete
            ||| event is TitleUpdate
            ||| event is Done
            ||| event matches AgentEventView::Stream(e) && (e is ToolCallDelta || e is ToolCallEnd
                || e is Done)
        }),
    ensures
        shown(state, event).0 == state,
{
}

/// The frame of a block tells what it is: who speaks, which tool ran, or that something
/// failed, which is always red, and only that is.
pub proof fn law_frames_tell_what_they_hold(name: Seq<char>)
    ensures
        chrome_title(BlockKindView::User) == "you"@,
        chrome_title(BlockKindView::Assistant) == "assistant"@,
        chrome_title(BlockKindView::Thinking) == "thinking"@,
        chrome_title(BlockKindView::Error) == "error"@,
        chrome_title(BlockKindView::Info).len() == 0,
        forall|failed: bool| #[trigger]
            chrome_title(BlockKindView::Tool { name, is_error: failed }) == name,
        forall|kind: BlockKindView| #[trigger]
            chrome_tint(kind) == Tint::Red <==> (kind is Error || kind == (BlockKindView::Tool {
                name: kind->Tool_name,
                is_error: true,
            })),
        chrome_tint(BlockKindView::User) == Tint::Cyan,
        chrome_tint(BlockKindView::Assistant) == Tint::Blue,
        chrome_tint(BlockKindView::Thinking) == Tint::DarkGray,
        chrome_tint(BlockKindView::Info) == Tint::Default,
        chrome_tint(BlockKindView::Tool { name, is_error: false }) == Tint::Yellow,
{
}

/// What failed is set in red; other text that is no speech is dimmed.
pub proof fn law_failures_are_set_in_red(kind: BlockKindView)
    ensures
        body_style(kind) == BodyStyle::RedLines <==> (kind is Error || kind == (
        BlockKindView::Tool { name: kind->Tool_name, is_error: true })),
        body_style(kind) == BodyStyle::DimLines <==> (kind is Thinking || kind == (
        BlockKindView::Tool { name: kind->Tool_name, is_error: false })),
        body_style(kind) == BodyStyle::DimWhole <==> kind is Info,
        body_style(kind) == BodyStyle::Markdown <==> (kind is User || kind is Assistant),
{
}

/// Usage can be counted where each of the totals can take in its own count; any other event
/// always can be shown.
pub proof fn law_usage_is_counted_where_it_fits(state: TuiView, event: StreamEventView)
    ensures
        !(event is Usage) ==> countable(state, event),
        event matches StreamEventView::Usage(u) ==> (countable(state, event) <==> {
            &&& state.totals.input_tokens + u.input_tokens <= u64::MAX
            &&& state.totals.output_tokens + u.output_tokens <= u64::MAX
            &&& state.totals.cache_read_tokens + u.cache_read_tokens <= u64::MAX
            &&& state.totals.cache_write_tokens + u.cache_write_tokens <= u64::MAX
        }),
{
}

/// Only what the user and the model say is read as markdown; a note is one line, and any
/// other body is set line by line.
pub proof fn law_speech_is_markdown(kind: BlockKindView)
    ensures
        body_setting(kind) == Setting::Markdown <==> (kind is User || kind is Assistant),
        body_setting(kind) == Setting::Whole <==> kind is Info,
{
}

/// Text that is set line by line takes a line of the screen for each of its lines; set
/// whole it takes one.
pub proof fn law_lines_are_set_in_order(text: Seq<char>, i: int)
    requires
        0 <= i < lines_in(text).len(),
    ensures
        set_lines(Setting::Lines, text).len() == lines_in(text).len(),
        set_lines(Setting::Lines, text)[i] == lines_in(lines_in(text)[i]),
        set_lines(Setting::Whole, text).len() == 1,
        set_lines(Setting::Whole, text)[0] == lines_in(text),
{
}

/// A frame takes a row above and one below its text, and a column on either side.
pub proof fn law_frames_take_room(rows: usize, width: u16)
    requires
        rows < 65533,
        width > 3,
    ensures
        framed_height(true, rows) == rows + 2,
        framed_height(false, rows) == rows,
        inside(true, width) == width - 2,
        inside(false, width) == width,
{
}

// ---------------------------------------------------------------------------
// The status bar
// ---------------------------------------------------------------------------

/// The status bar tells the phase and the model on its left.
pub proof fn law_status_bar_tells_the_phase(state: TuiView, tick: nat)
    ensures
        occurs(state.model_name, status_left(state, tick)),
        status_left(state, tick) == " "@ + spinner(tick) + " "@ + (match state.phase {
            PhaseView::Input => "input"@,
            PhaseView::Waiting => "waiting"@,
            PhaseView::Thinking => "thinking"@,
            PhaseView::Responding => "responding"@,
            PhaseView::Tool(_) => "tool"@,
        }) + " | "@ + state.model_name + " "@,
{
    let head = " "@ + spinner(tick) + " "@ + phase_label(state.phase) + " | "@;
    lemma_occurs(head, state.model_name, " "@);
}

/// The status bar tells on its right what all turns have taken in, put out and read from
/// the cache: after a turn, what it told before and the usage of the turn together.
pub proof fn law_status_bar_tells_the_usage(state: TuiView, usage: UsageView)
    requires
        state.totals.input_tokens + usage.input_tokens <= u64::MAX,
        state.totals.output_tokens + usage.output_tokens <= u64::MAX,
        state.totals.cache_read_tokens + usage.cache_read_tokens <= u64::MAX,
        state.totals.cache_write_tokens + usage.cache_write_tokens <= u64::MAX,
    ensures
        status_right(streamed(state, StreamEventView::Usage(usage)).0.totals) == " "@ + decimal(
            (state.totals.input_tokens + usage.input_tokens) as nat,
        ) + "in/"@ + decimal((state.totals.output_tokens + usage.output_tokens) as nat) + "out/"@
            + decimal((state.totals.cache_read_tokens + usage.cache_read_tokens) as nat)
            + "cache "@,
{
}

/// The spinner grows and shrinks: it begins as a star, is a small ring, a large one, a
/// small one, and then a star again.
pub proof fn law_spinner_turns(n: nat)
    ensures
        spinner(4 * n) == "*"@,
        spinner(4 * n + 1) == "o"@,
        spinner(4 * n + 2) == "O"@,
        spinner(4 * n + 3) == "o"@,
{
}

// ---------------------------------------------------------------------------
// Input
// ---------------------------------------------------------------------------

/// What the user submits is read without the white space around it: a command by its
/// name, and anything else as a prompt, which is passed on as it stands.
pub proof fn law_input_is_read(before: Seq<char>, text: Seq<char>, after: Seq<char>)
    requires
        blank(before),
        blank(after),
        text.len() > 0,
        !is_white(text[0]),
        !is_white(text.last()),
    ensures
        ({
            let command = command_of(before + text + after);
            &&& text == "/quit"@ || text == "/exit"@ <==> command is Quit
            &&& text == "/help"@ <==> command is Help
            &&& text.len() >= 6 && text.take(6) == "/login"@ <==> command is Login
            &&& command is Login ==> command == CommandView::Login(text)
            &&& !(command is Quit || command is Help || command is Login) ==> command
                == CommandView::Prompt(text)
        }),
        command_of(before) is Nothing,
{
    law_trimmed_text(before, text, after);
    law_trimmed_text(before, Seq::empty(), Seq::empty());
    assert(before + Seq::<char>::empty() + Seq::<char>::empty() =~= before);
    reveal_strlit("/quit");
    reveal_strlit("/exit");
    reveal_strlit("/help");
    reveal_strlit("/login");
    assert("/quit"@ != "/help"@) by {
        assert("/quit"@[1] == 'q' && "/help"@[1] == 'h');
    }
    assert("/exit"@ != "/help"@) by {
        assert("/exit"@[1] == 'e' && "/help"@[1] == 'h');
    }
    assert("/login"@.len() == 6);
    assert("/login"@.is_prefix_of(text) <==> text.len() >= 6 && text.take(6) == "/login"@) by {
        if text.len() >= 6 {
            assert(text.take(6) =~= text.subrange(0, 6));
        }
    }
}

proof fn lemma_login_lines(providers: Seq<Listed>, i: int)
    requires
        0 <= i < providers.len(),
    ensures
        occurs(
            "- `/login "@ + providers[i].name@ + "` - "@ + providers[i].description@ + "\n"@,
            login_lines(providers),
        ),
    decreases providers.len(),
{
    let line = "- `/login "@ + providers[i].name@ + "` - "@ + providers[i].description@ + "\n"@;
    let rest = login_lines(providers.drop_last());
    if i == providers.len() - 1 {
        lemma_occurs(rest, line, Seq::empty());
    } else {
        lemma_login_lines(providers.drop_last(), i);
        lemma_occurs(
            Seq::empty(),
            rest,
            "- `/login "@ + providers.last().name@ + "` - "@ + providers.last().description@
                + "\n"@,
        );
        lemma_occurs_within(line, rest, login_lines(providers));
    }
}

proof fn lemma_template_lines(templates: Seq<Listed>, i: int)
    requires
        0 <= i < templates.len(),
    ensures
        occurs("- `/"@ + templates[i].name@ + "`"@, template_lines(templates)),
        occurs(templates[i].description@, template_lines(templates)),
    decreases templates.len(),
{
    let name = "- `/"@ + templates[i].name@ + "`"@;
    let description = templates[i].description@;
    let rest = template_lines(templates.drop_last());
    if i == templates.len() - 1 {
        reveal_strlit("`\n");
        reveal_strlit("` - ");
        reveal_strlit("`");
        assert("`\n"@ =~= "`"@ + seq!['\n']);
        assert("` - "@ =~= "`"@ + seq![' ', '-', ' ']);
        if description.len() == 0 {
            assert(template_lines(templates) =~= rest + name + seq!['\n']);
            lemma_occurs(rest, name, seq!['\n']);
            assert(template_lines(templates) =~= template_lines(templates) + description);
            lemma_occurs(template_lines(templates), description, Seq::empty());
        } else {
            let tail = seq![' ', '-', ' '] + description + "\n"@;
            assert(template_lines(templates) =~= rest + name + tail);
            lemma_occurs(rest, name, tail);
            let head = rest + name + seq![' ', '-', ' '];
            assert(template_lines(templates) =~= head + description + "\n"@);
            lemma_occurs(head, description, "\n"@);
        }
    } else {
        lemma_template_lines(templates.drop_last(), i);
        let last = template_lines(templates).skip(rest.len() as int);
        assert(template_lines(templates) =~= rest + last);
        lemma_occurs(Seq::empty(), rest, last);
        lemma_occurs_within(name, rest, template_lines(templates));
        lemma_occurs_within(description, rest, template_lines(templates));
    }
}

/// The help names every provider that one can log in to and every template of a prompt,
/// each with what it is, and says how to leave and how to cancel.
pub proof fn law_help_names_everything(providers: Seq<Listed>, templates: Seq<Listed>)
    ensures
        forall|i: int|
            0 <= i < providers.len() ==> occurs(
                "- `/login "@ + (#[trigger] providers[i]).name@ + "` - "@
                    + providers[i].description@ + "\n"@,
                help(providers, templates),
            ),
        forall|i: int|
            0 <= i < templates.len() ==> occurs(
                "- `/"@ + (#[trigger] templates[i]).name@ + "`"@,
                help(providers, templates),
            ) && occurs(templates[i].description@, help(providers, templates)),
        occurs("- `/quit`, `/exit` - Exit ri\n"@, help(providers, templates)),
        occurs("- `Ctrl+C` - Cancel running agent\n"@, help(providers, templates)),
{
    let text = help(providers, templates);
    let head = "**Commands:**\n"@;
    let logins = login_lines(providers);
    let quit = "- `/quit`, `/exit` - Exit ri\n"@;
    let cancel = "- `Ctrl+C` - Cancel running agent\n"@;
    let tail = if templates.len() == 0 {
        Seq::empty()
    } else {
        "\n**Prompt Templates:**\n"@ + template_lines(templates)
    };
    assert(text =~= head + logins + (quit + cancel + tail));
    lemma_occurs(head, logins, quit + cancel + tail);
    assert(text =~= (head + logins) + quit + (cancel + tail));
    lemma_occurs(head + logins, quit, cancel + tail);
    assert(text =~= (head + logins + quit) + cancel + tail);
    lemma_occurs(head + logins + quit, cancel, tail);
    assert forall|i: int| 0 <= i < providers.len() implies occurs(
        "- `/login "@ + (#[trigger] providers[i]).name@ + "` - "@ + providers[i].description@
            + "\n"@,
        text,
    ) by {
        lemma_login_lines(providers, i);
        lemma_occurs_within(
            "- `/login "@ + providers[i].name@ + "` - "@ + providers[i].description@ + "\n"@,
            logins,
            text,
        );
    }
    assert forall|i: int| 0 <= i < templates.len() implies occurs(
        "- `/"@ + (#[trigger] templates[i]).name@ + "`"@,
        text,
    ) && occurs(templates[i].description@, text) by {
        let lines = template_lines(templates);
        lemma_template_lines(templates, i);
        let front = head + logins + quit + cancel + "\n**Prompt Templates:**\n"@;
        assert(text =~= front + lines + Seq::<char>::empty());
        lemma_occurs(front, lines, Seq::empty());
        lemma_occurs_within("- `/"@ + templates[i].name@ + "`"@, lines, text);
        lemma_occurs_within(templates[i].description@, lines, text);
    }
}

/// A session that begins with a prompt is named by its first five words, or by all where
/// there are fewer; words that come later do not matter.
pub proof fn law_sessions_are_named_by_their_first_words(prompt: Seq<char>, other: Seq<char>)
    ensures
        0 < words(prompt).len() <= 5 && joined(words(prompt), "-"@).len() > 0 ==> session_name(
            Some(prompt),
        ) == joined(words(prompt), "-"@),
        words(prompt).len() == 0 ==> session_name(Some(prompt)) == "session"@,
        words(prompt).len() >= 5 && words(other).len() >= 5 && words(prompt).take(5) == words(
            other,
        ).take(5) ==> session_name(Some(prompt)) == session_name(Some(other)),
        session_name(None) == "interactive"@,
{
    assert(words(prompt).len() == 5 ==> words(prompt).take(5) =~= words(prompt));
    assert(words(other).len() == 5 ==> words(other).take(5) =~= words(other));
    if words(prompt).len() == 0 {
        assert(joined(words(prompt), "-"@).len() == 0);
    }
}

} // verus!
