//! What a run does with what it is given: the calls, their results, the requests and the
//! failures all come through as they are.
use crate::agent::{
    calls_in, has_text, ActionView, CallView, EventView, Host, RunView, SetupView, StepView,
};
use crate::events::{AgentEventView, StoredView, StreamEventView};
use crate::json::Json;
use crate::model::{BlockView, MessageView, Role, ToolOutputView};
use crate::run::{
    advanced, call_result, calls_from, cancelled_result, looks_first, missing_tool, reply_meta, shown,
    tool_end, tool_start, watched,
};
use crate::text::{lemma_occurs, lemma_occurs_within, occurs};
use vstd::prelude::*;

verus! {

// ---------------------------------------------------------------------------
// Calls and their results
// ---------------------------------------------------------------------------

/// The calls that a step is about.
pub open spec fn calls_at(step: StepView) -> Option<Seq<CallView>> {
    match step {
        StepView::SavingReply { calls, .. } => Some(calls),
        StepView::Looking { calls, .. } => Some(calls),
        StepView::Running { calls, .. } => Some(calls),
        StepView::SavingResults { calls } => Some(calls),
        _ => None,
    }
}

/// The call that a step has come to: all before it are answered.
pub open spec fn reached(step: StepView) -> nat {
    match step {
        StepView::Looking { next, .. } => next,
        StepView::Running { next, .. } => next,
        StepView::SavingResults { calls } => calls.len(),
        _ => 0,
    }
}

/// The results that a step has, or that are stored for it.
pub open spec fn results_at(step: StepView, actions: Seq<ActionView>) -> Seq<BlockView> {
    match step {
        StepView::Looking { results, .. } => results,
        StepView::Running { results, .. } => results,
        StepView::SavingResults { .. } => match actions.last() {
            ActionView::Save { content, .. } => content,
            _ => Seq::empty(),
        },
        _ => Seq::empty(),
    }
}

/// Whether a block says that a call was not made because there is no such tool, or
/// because the run was cancelled.
pub open spec fn says_not_made(
    block: BlockView,
    call: CallView,
    setup: SetupView,
    cancelled: bool,
) -> bool {
    match block {
        BlockView::ToolResult { id, text, is_error, details } => {
            &&& id == call.id
            &&& is_error
            &&& details is None
            &&& cancelled && (setup.host == Host::Server || setup.host == Host::Terminal) && text
                == "Cancelled"@ || !setup.tools.contains(call.name) && text == "Tool '"@ + call.name
                + "' not found"@
        },
        _ => false,
    }
}

/// Whether some calls were passed over, each answered with why, and the run stands at the
/// first that can be made.
pub open spec fn comes_to(
    setup: SetupView,
    calls: Seq<CallView>,
    from: nat,
    results: Seq<BlockView>,
    cancelled: bool,
    step: StepView,
    actions: Seq<ActionView>,
) -> bool {
    let after = results_at(step, actions);
    let to = reached(step);
    &&& calls_at(step) == Some(calls)
    &&& step is Looking || step is Running || step is SavingResults
    &&& from <= to <= calls.len()
    &&& !(step is SavingResults) ==> to < calls.len()
    &&& results.is_prefix_of(after)
    &&& after.len() == results.len() + (to - from)
    &&& forall|k: int|
        from <= k < to ==> says_not_made(
            #[trigger] after[results.len() + (k - from)],
            calls[k],
            setup,
            cancelled,
        )
    &&& forall|i: int|
        0 <= i < actions.len() ==> (#[trigger] actions[i] matches ActionView::RunTool {
            id,
            name,
            input,
        } ==> step is Running && i == actions.len() - 1 && CallView { id, name, input }
            == calls[to as int] && setup.tools.contains(name))
    &&& step is Running ==> actions.last() is RunTool
    &&& step is Looking ==> setup.host != Host::Server && actions.last() is Discover
}

proof fn lemma_comes_to(
    setup: SetupView,
    calls: Seq<CallView>,
    next: nat,
    looked: bool,
    results: Seq<BlockView>,
    cancelled: bool,
)
    requires
        next <= calls.len(),
    ensures
        ({
            let r = calls_from(setup, calls, next, looked, results, cancelled);
            r.1.len() > 0 && comes_to(setup, calls, next, results, cancelled, r.0, r.1)
        }),
    decreases calls.len() - next,
{
    let r = calls_from(setup, calls, next, looked, results, cancelled);
    if next < calls.len() {
        let call = calls[next as int];
        if !looked && watched(setup.host) && cancelled {
            let more = results.push(cancelled_result(call));
            lemma_comes_to(setup, calls, next + 1, false, more, cancelled);
            lemma_passed_over(setup, calls, next, results, more.last(), cancelled, r.0, r.1);
        } else if !looked && looks_first(setup.host) && crate::agent::call_path(call) is Some {
        } else if setup.tools.contains(call.name) {
            let head = shown(setup.host, tool_start(call));
            assert forall|i: int| 0 <= i < r.1.len() implies (#[trigger] r.1[i]
                matches ActionView::RunTool { id, name, input } ==> i == r.1.len() - 1) by {
                if i < head.len() {
                    assert(r.1[i] == head[i]);
                }
            }
        } else {
            let more = results.push(call_result(call, missing_tool(call.name)));
            let rest = calls_from(setup, calls, next + 1, false, more, cancelled);
            lemma_comes_to(setup, calls, next + 1, false, more, cancelled);
            let head = shown(setup.host, tool_start(call)) + shown(
                setup.host,
                tool_end(call, missing_tool(call.name)),
            );
            assert((head + rest.1).last() == rest.1.last());
            assert forall|i: int| 0 <= i < r.1.len() implies (#[trigger] r.1[i]
                matches ActionView::RunTool { id, name, input } ==> r.0 is Running && i
                == r.1.len() - 1 && CallView { id, name, input } == calls[reached(r.0) as int]
                && setup.tools.contains(name)) by {
                if i >= head.len() {
                    assert(r.1[i] == rest.1[i - head.len()]);
                } else {
                    assert(r.1[i] == head[i]);
                }
            }
            assert(comes_to(setup, calls, next + 1, more, cancelled, r.0, r.1));
            lemma_passed_over(setup, calls, next, results, more.last(), cancelled, r.0, r.1);
        }
    }
}

/// A call that is passed over counts to those before.
proof fn lemma_passed_over(
    setup: SetupView,
    calls: Seq<CallView>,
    next: nat,
    results: Seq<BlockView>,
    block: BlockView,
    cancelled: bool,
    step: StepView,
    actions: Seq<ActionView>,
)
    requires
        next < calls.len(),
        comes_to(setup, calls, next + 1, results.push(block), cancelled, step, actions),
        says_not_made(block, calls[next as int], setup, cancelled),
    ensures
        comes_to(setup, calls, next, results, cancelled, step, actions),
{
    let after = results_at(step, actions);
    let more = results.push(block);
    assert(after[results.len() as int] == more[results.len() as int]);
    assert forall|i: int| 0 <= i < results.len() implies results[i] == after[i] by {
        assert(more[i] == after[i]);
    }
    assert(results.is_prefix_of(after));
    assert forall|k: int| next <= k < reached(step) implies says_not_made(
        #[trigger] after[results.len() + (k - next)],
        calls[k],
        setup,
        cancelled,
    ) by {
        if k > next {
            assert(says_not_made(
                after[more.len() + (k - (next + 1))],
                calls[k],
                setup,
                cancelled,
            ));
        }
    }
}

/// The actions from position `n` on.
proof fn lemma_comes_to_behind(
    setup: SetupView,
    calls: Seq<CallView>,
    from: nat,
    results: Seq<BlockView>,
    cancelled: bool,
    step: StepView,
    head: Seq<ActionView>,
    tail: Seq<ActionView>,
)
    requires
        tail.len() > 0,
        comes_to(setup, calls, from, results, cancelled, step, tail),
        forall|i: int| 0 <= i < head.len() ==> !(#[trigger] head[i] is RunTool),
    ensures
        comes_to(setup, calls, from, results, cancelled, step, head + tail),
{
    let all = head + tail;
    assert(all.last() == tail.last());
    assert forall|i: int| 0 <= i < all.len() implies (#[trigger] all[i]
        matches ActionView::RunTool { id, name, input } ==> step is Running && i == all.len() - 1
        && CallView { id, name, input } == calls[reached(step) as int] && setup.tools.contains(
        name,
    )) by {
        if i < head.len() {
            assert(all[i] == head[i]);
        } else {
            assert(all[i] == tail[i - head.len()]);
        }
    }
}

/// When a response with calls has been stored, its calls are gone through from the first.
pub proof fn law_calls_begin_with_the_first(
    run: RunView,
    calls: Seq<CallView>,
    has_text: bool,
    message: StoredView,
    cancelled: bool,
    ts: Seq<char>,
)
    requires
        run.step == (StepView::SavingReply { calls, has_text }),
        calls.len() > 0,
    ensures
        ({
            let r = advanced(run, EventView::Saved(message), cancelled, ts);
            comes_to(run.setup, calls, 0, Seq::empty(), cancelled, r.0.step, r.1)
        }),
{
    let r = advanced(run, EventView::Saved(message), cancelled, ts);
    let rest = calls_from(run.setup, calls, 0, false, Seq::empty(), cancelled);
    lemma_comes_to(run.setup, calls, 0, false, Seq::empty(), cancelled);
    let head = r.1.take(r.1.len() - rest.1.len());
    assert(r.1 =~= head + rest.1);
    lemma_comes_to_behind(
        run.setup,
        calls,
        0,
        Seq::empty(),
        cancelled,
        r.0.step,
        head,
        rest.1,
    );
}

/// When a tool is done, its own output answers the call that it ran for, behind the results
/// so far, and the calls are gone through from the next one on.
pub proof fn law_output_answers_its_call(
    run: RunView,
    calls: Seq<CallView>,
    next: nat,
    results: Seq<BlockView>,
    output: ToolOutputView,
    cancelled: bool,
    ts: Seq<char>,
)
    requires
        run.step == (StepView::Running { calls, next, results }),
        next < calls.len(),
    ensures
        ({
            let r = advanced(run, EventView::ToolDone(output), cancelled, ts);
            let answer = BlockView::ToolResult {
                id: calls[next as int].id,
                text: output.text,
                is_error: output.is_error,
                details: output.details,
            };
            comes_to(
                run.setup,
                calls,
                next + 1,
                results.push(answer),
                cancelled,
                r.0.step,
                r.1,
            )
        }),
{
    let r = advanced(run, EventView::ToolDone(output), cancelled, ts);
    let more = results.push(call_result(calls[next as int], output));
    let rest = calls_from(run.setup, calls, next + 1, false, more, cancelled);
    lemma_comes_to(run.setup, calls, next + 1, false, more, cancelled);
    let head = r.1.take(r.1.len() - rest.1.len());
    assert(r.1 =~= head + rest.1);
    lemma_comes_to_behind(
        run.setup,
        calls,
        next + 1,
        more,
        cancelled,
        r.0.step,
        head,
        rest.1,
    );
}

/// When context files have been looked for, the call at hand is gone on with. All results
/// so far stay, and at most one text is added to them.
pub proof fn law_looking_keeps_the_call(
    run: RunView,
    calls: Seq<CallView>,
    next: nat,
    results: Seq<BlockView>,
    files: Seq<crate::agent::ContextFileView>,
    known: Seq<Seq<char>>,
    cancelled: bool,
    ts: Seq<char>,
)
    requires
        run.step == (StepView::Looking { calls, next, results }),
        next < calls.len(),
    ensures
        ({
            let r = advanced(run, EventView::Found { files, known }, cancelled, ts);
            &&& exists|text: Seq<char>|
                comes_to(
                    run.setup,
                    calls,
                    next,
                    #[trigger] results.push(BlockView::Text { text }),
                    cancelled,
                    r.0.step,
                    r.1,
                ) || comes_to(run.setup, calls, next, results, cancelled, r.0.step, r.1)
            &&& run.setup.tools.contains(calls[next as int].name) ==> r.0.step is Running
                && reached(r.0.step) == next
        }),
{
    let fresh = crate::agent::unseen(files, run.seen);
    let text = crate::agent::discovery_text(fresh);
    let more = results.push(BlockView::Text { text });
    lemma_comes_to(run.setup, calls, next, true, results, cancelled);
    lemma_comes_to(run.setup, calls, next, true, more, cancelled);
}

/// Whenever a tool is run, it is run with the id, the name and the input of the very call
/// that its output will answer, and it is one of the tools that there are.
pub proof fn law_tools_run_with_their_own_input(
    run: RunView,
    event: EventView,
    cancelled: bool,
    ts: Seq<char>,
    i: int,
)
    requires
        crate::run_laws::answers_kept(run.step),
        0 <= i < advanced(run, event, cancelled, ts).1.len(),
        advanced(run, event, cancelled, ts).1[i] is RunTool,
    ensures
        ({
            let r = advanced(run, event, cancelled, ts);
            match (r.1[i], r.0.step) {
                (
                    ActionView::RunTool { id, name, input },
                    StepView::Running { calls, next, .. },
                ) => {
                    &&& next < calls.len()
                    &&& id == calls[next as int].id
                    &&& name == calls[next as int].name
                    &&& input == calls[next as int].input
                    &&& run.setup.tools.contains(name)
                    &&& calls_at(run.step) == Some(calls)
                },
                _ => false,
            }
        }),
{
    match (run.step, event) {
        (StepView::SavingReply { calls, has_text }, EventView::Saved(m)) => {
            if calls.len() > 0 {
                law_calls_begin_with_the_first(run, calls, has_text, m, cancelled, ts);
            }
        },
        (StepView::Looking { calls, next, results }, EventView::Found { files, known }) => {
            let fresh = crate::agent::unseen(files, run.seen);
            let text = crate::agent::discovery_text(fresh);
            lemma_comes_to(run.setup, calls, next, true, results, cancelled);
            lemma_comes_to(
                run.setup,
                calls,
                next,
                true,
                results.push(BlockView::Text { text }),
                cancelled,
            );
        },
        (StepView::Running { calls, next, results }, EventView::ToolDone(out)) => {
            law_output_answers_its_call(run, calls, next, results, out, cancelled, ts);
        },
        _ => {},
    }
}

/// The tool calls of a response are its tool-use blocks, in order and each with its own
/// name and input.
pub proof fn law_calls_are_the_tool_uses(content: Seq<BlockView>, block: BlockView)
    ensures
        calls_in(Seq::empty()).len() == 0,
        match block {
            BlockView::ToolUse { id, name, input } => calls_in(content.push(block)) == calls_in(
                content,
            ).push(CallView { id, name, input }),
            _ => calls_in(content.push(block)) == calls_in(content),
        },
{
    assert(content.push(block).drop_last() =~= content);
}

// ---------------------------------------------------------------------------
// What is shown
// ---------------------------------------------------------------------------

/// A watched run shows the output of a tool as it is, under the id of its call.
pub proof fn law_output_is_shown(
    run: RunView,
    calls: Seq<CallView>,
    next: nat,
    results: Seq<BlockView>,
    output: ToolOutputView,
    cancelled: bool,
    ts: Seq<char>,
)
    requires
        run.step == (StepView::Running { calls, next, results }),
        next < calls.len(),
        run.setup.host == Host::Server || run.setup.host == Host::Terminal,
    ensures
        ({
            let shown = advanced(run, EventView::ToolDone(output), cancelled, ts).1;
            shown.len() > 0 && shown[0] == ActionView::Emit(
                AgentEventView::ToolEnd {
                    id: calls[next as int].id,
                    output: output.text,
                    is_error: output.is_error,
                    details: output.details,
                },
            )
        }),
{
}

/// In a watched run a tool is announced, under its name and the id of its call, right
/// before it is run.
pub proof fn law_tools_are_announced(
    run: RunView,
    event: EventView,
    cancelled: bool,
    ts: Seq<char>,
    i: int,
)
    requires
        run.setup.host == Host::Server || run.setup.host == Host::Terminal,
        0 <= i < advanced(run, event, cancelled, ts).1.len(),
    ensures
        ({
            let actions = advanced(run, event, cancelled, ts).1;
            actions[i] matches ActionView::RunTool { id, name, .. } ==> i > 0 && actions[i - 1]
                == ActionView::Emit(AgentEventView::ToolStart { id, name })
        }),
{
    let r = advanced(run, event, cancelled, ts);
    match (run.step, event) {
        (StepView::SavingReply { calls, has_text }, EventView::Saved(m)) => {
            if calls.len() > 0 {
                let rest = calls_from(run.setup, calls, 0, false, Seq::empty(), cancelled);
                lemma_announced(run.setup, calls, 0, false, Seq::empty(), cancelled);
                lemma_comes_to(run.setup, calls, 0, false, Seq::empty(), cancelled);
                let n = r.1.len() - rest.1.len();
                assert(r.1 =~= r.1.take(n) + rest.1);
                if i >= n {
                    assert(r.1[i] == rest.1[i - n]);
                    if i > n {
                        assert(r.1[i - 1] == rest.1[i - n - 1]);
                    }
                }
            }
        },
        (StepView::Looking { calls, next, results }, EventView::Found { files, .. }) => {
            let fresh = crate::agent::unseen(files, run.seen);
            let text = crate::agent::discovery_text(fresh);
            let more = results.push(BlockView::Text { text });
            lemma_announced(run.setup, calls, next, true, results, cancelled);
            lemma_announced(run.setup, calls, next, true, more, cancelled);
        },
        (StepView::Running { calls, next, results }, EventView::ToolDone(out)) => {
            if next < calls.len() {
                let more = results.push(call_result(calls[next as int], out));
                let rest = calls_from(run.setup, calls, next + 1, false, more, cancelled);
                lemma_announced(run.setup, calls, next + 1, false, more, cancelled);
                let n = r.1.len() - rest.1.len();
                if i >= n {
                    assert(r.1[i] == rest.1[i - n]);
                    if i > n {
                        assert(r.1[i - 1] == rest.1[i - n - 1]);
                    }
                }
            }
        },
        _ => {},
    }
}

proof fn lemma_announced(
    setup: SetupView,
    calls: Seq<CallView>,
    next: nat,
    looked: bool,
    results: Seq<BlockView>,
    cancelled: bool,
)
    requires
        watched(setup.host),
    ensures
        ({
            let actions = calls_from(setup, calls, next, looked, results, cancelled).1;
            forall|i: int|
                0 <= i < actions.len() ==> (#[trigger] actions[i] matches ActionView::RunTool {
                    id,
                    name,
                    ..
                } ==> i > 0 && actions[i - 1] == ActionView::Emit(
                    AgentEventView::ToolStart { id, name },
                ))
        }),
    decreases calls.len() - next,
{
    if next < calls.len() {
        let call = calls[next as int];
        let a = results.push(cancelled_result(call));
        let b = results.push(call_result(call, missing_tool(call.name)));
        lemma_announced(setup, calls, next + 1, false, a, cancelled);
        lemma_announced(setup, calls, next + 1, false, b, cancelled);
        let actions = calls_from(setup, calls, next, looked, results, cancelled).1;
        let rest = calls_from(setup, calls, next + 1, false, b, cancelled).1;
        let head = shown(setup.host, tool_start(call)) + shown(
            setup.host,
            tool_end(call, missing_tool(call.name)),
        );
        if actions == head + rest {
            assert forall|i: int| 0 <= i < actions.len() implies (#[trigger] actions[i]
                matches ActionView::RunTool { id, name, .. } ==> i > 0 && actions[i - 1]
                == ActionView::Emit(AgentEventView::ToolStart { id, name })) by {
                if i >= head.len() {
                    assert(actions[i] == rest[i - head.len()]);
                    if i > head.len() {
                        assert(actions[i - 1] == rest[i - head.len() - 1]);
                    }
                }
            }
        }
    }
}

/// Every event of a response is shown as it comes, and the next one is read, unless the
/// run has been cancelled. A run that nobody watches reads on all the same.
pub proof fn law_stream_is_shown(
    run: RunView,
    item: StreamEventView,
    cancelled: bool,
    ts: Seq<char>,
)
    requires
        run.step is Streaming,
    ensures
        ({
            let r = advanced(run, EventView::Item(item), cancelled, ts);
            let seen = run.setup.host == Host::Server || run.setup.host == Host::Terminal;
            &&& seen && !cancelled ==> r.0.step is Streaming && r.1 == seq![
                ActionView::Emit(AgentEventView::Stream(item)),
                ActionView::Next,
            ]
            &&& !seen ==> r.0.step is Streaming && r.1 == seq![ActionView::Next]
            &&& seen && cancelled ==> !(r.0.step is Streaming) && r.1 == seq![ActionView::Finish]
        }),
{
}

/// A run that nobody watches shows nothing.
pub proof fn law_unwatched_runs_are_silent(
    run: RunView,
    event: EventView,
    cancelled: bool,
    ts: Seq<char>,
    i: int,
)
    requires
        run.setup.host == Host::Background || run.setup.host == Host::Single,
        0 <= i < advanced(run, event, cancelled, ts).1.len(),
    ensures
        !(advanced(run, event, cancelled, ts).1[i] is Emit),
        !(advanced(run, event, cancelled, ts).1[i] is Title),
{
    let r = advanced(run, event, cancelled, ts);
    match (run.step, event) {
        (StepView::SavingReply { calls, has_text }, EventView::Saved(m)) => {
            lemma_silent(run.setup, calls, 0, false, Seq::empty(), cancelled);
            let rest = calls_from(run.setup, calls, 0, false, Seq::empty(), cancelled);
            if calls.len() > 0 {
                let n = r.1.len() - rest.1.len();
                if i >= n {
                    assert(r.1[i] == rest.1[i - n]);
                }
            }
        },
        (StepView::Looking { calls, next, results }, EventView::Found { files, .. }) => {
            let fresh = crate::agent::unseen(files, run.seen);
            let text = crate::agent::discovery_text(fresh);
            let more = results.push(BlockView::Text { text });
            lemma_silent(run.setup, calls, next, true, results, cancelled);
            lemma_silent(run.setup, calls, next, true, more, cancelled);
        },
        (StepView::Running { calls, next, results }, EventView::ToolDone(out)) => {
            if next < calls.len() {
                let more = results.push(call_result(calls[next as int], out));
                let rest = calls_from(run.setup, calls, next + 1, false, more, cancelled);
                lemma_silent(run.setup, calls, next + 1, false, more, cancelled);
                assert(r.1 =~= rest.1);
            }
        },
        _ => {},
    }
}

proof fn lemma_silent(
    setup: SetupView,
    calls: Seq<CallView>,
    next: nat,
    looked: bool,
    results: Seq<BlockView>,
    cancelled: bool,
)
    requires
        !watched(setup.host),
    ensures
        ({
            let actions = calls_from(setup, calls, next, looked, results, cancelled).1;
            forall|i: int|
                0 <= i < actions.len() ==> !(#[trigger] actions[i] is Emit) && !(actions[i]
                    is Title)
        }),
    decreases calls.len() - next,
{
    if next < calls.len() {
        let call = calls[next as int];
        let a = results.push(cancelled_result(call));
        let b = results.push(call_result(call, missing_tool(call.name)));
        lemma_silent(setup, calls, next + 1, false, a, cancelled);
        lemma_silent(setup, calls, next + 1, false, b, cancelled);
    }
}

/// In the server and the terminal a response or a round of results that has been stored is
/// shown as it was stored. In the server a response with text may give the session a title.
pub proof fn law_stored_messages_are_shown(
    run: RunView,
    message: StoredView,
    cancelled: bool,
    ts: Seq<char>,
)
    requires
        run.step is SavingReply || run.step is SavingResults || run.step is SavingContext
            || run.step is SavingFailure,
        run.setup.host == Host::Server || run.setup.host == Host::Terminal,
    ensures
        ({
            let actions = advanced(run, EventView::Saved(message), cancelled, ts).1;
            &&& actions.len() > 2
            &&& actions[0] == ActionView::Push(message.id)
            &&& actions[1] == ActionView::Emit(AgentEventView::MessageComplete(message))
            &&& (actions[2] is Title) == (run.setup.host == Host::Server && (run.step
                matches StepView::SavingReply { has_text, .. } && has_text))
        }),
{
    match run.step {
        StepView::SavingReply { calls, has_text } => {
            let rest = calls_from(run.setup, calls, 0, false, Seq::empty(), cancelled);
            if calls.len() > 0 {
                lemma_comes_to(run.setup, calls, 0, false, Seq::empty(), cancelled);
                lemma_no_title(run.setup, calls, 0, false, Seq::empty(), cancelled);
                let actions = advanced(run, EventView::Saved(message), cancelled, ts).1;
                let n = actions.len() - rest.1.len();
                assert(actions[n] == rest.1[0]);
            }
        },
        _ => {},
    }
}

proof fn lemma_no_title(
    setup: SetupView,
    calls: Seq<CallView>,
    next: nat,
    looked: bool,
    results: Seq<BlockView>,
    cancelled: bool,
)
    ensures
        ({
            let actions = calls_from(setup, calls, next, looked, results, cancelled).1;
            forall|i: int| 0 <= i < actions.len() ==> !(#[trigger] actions[i] is Title)
        }),
    decreases calls.len() - next,
{
    if next < calls.len() {
        let call = calls[next as int];
        let a = results.push(cancelled_result(call));
        let b = results.push(call_result(call, missing_tool(call.name)));
        lemma_no_title(setup, calls, next + 1, false, a, cancelled);
        lemma_no_title(setup, calls, next + 1, false, b, cancelled);
    }
}

// ---------------------------------------------------------------------------
// What is sent and stored
// ---------------------------------------------------------------------------

/// A turn sends the conversation that was loaded, whole, to the model that the run was set
/// up with. A single turn is given no tools, and the others all tools that can be run.
pub proof fn law_turns_send_the_conversation(
    run: RunView,
    messages: Seq<MessageView>,
    cancelled: bool,
    ts: Seq<char>,
)
    requires
        run.step is Loading || run.step is Reloading,
        !cancelled || run.setup.host == Host::Background || run.setup.host == Host::Single,
    ensures
        ({
            let r = advanced(run, EventView::Loaded(messages), cancelled, ts);
            &&& r.1.len() == 1
            &&& r.1[0] matches ActionView::Start { request } && {
                &&& request.messages == messages
                &&& request.model == run.setup.model
                &&& request.thinking == run.setup.thinking
                &&& request.max_tokens == run.setup.max_tokens
                &&& request.prompt == r.0.prompt
                &&& run.setup.host == Host::Single ==> request.tools.len() == 0
                    && request.native_tools
                &&& run.setup.host != Host::Single ==> request.tools == run.setup.tools
                    && !request.native_tools
            }
        }),
{
}

/// The system prompt of a run is the first text of the first system message of the
/// conversation that its first turn is given.
pub proof fn law_prompt_is_the_first_system_text(
    run: RunView,
    messages: Seq<MessageView>,
    m: int,
    b: int,
    cancelled: bool,
    ts: Seq<char>,
)
    requires
        run.step is Loading,
        0 <= m < messages.len(),
        messages[m].role == Role::System,
        forall|i: int| 0 <= i < m ==> (#[trigger] messages[i]).role != Role::System,
        0 <= b < messages[m].content.len(),
        messages[m].content[b] is Text,
        forall|i: int| 0 <= i < b ==> !(#[trigger] messages[m].content[i] is Text),
    ensures
        messages[m].content[b] == (BlockView::Text {
            text: advanced(run, EventView::Loaded(messages), cancelled, ts).0.prompt,
        }),
{
    lemma_first_of_role(messages, m);
    lemma_first_text(messages[m].content, b);
}

proof fn lemma_first_of_role(messages: Seq<MessageView>, m: int)
    requires
        0 <= m < messages.len(),
        messages[m].role == Role::System,
        forall|i: int| 0 <= i < m ==> (#[trigger] messages[i]).role != Role::System,
    ensures
        crate::agent::first_of_role(messages, Role::System) == Some(messages[m]),
    decreases m,
{
    if m > 0 {
        assert(messages[0].role != Role::System);
        let rest = messages.drop_first();
        assert forall|i: int| 0 <= i < m - 1 implies (#[trigger] rest[i]).role != Role::System by {
            assert(rest[i] == messages[i + 1]);
        }
        lemma_first_of_role(rest, m - 1);
    }
}

proof fn lemma_first_text(content: Seq<BlockView>, b: int)
    requires
        0 <= b < content.len(),
        content[b] is Text,
        forall|i: int| 0 <= i < b ==> !(#[trigger] content[i] is Text),
    ensures
        crate::agent::first_text(content) is Some,
        content[b] == (BlockView::Text { text: crate::agent::first_text(content)->0 }),
    decreases b,
{
    if b > 0 {
        assert(!(content[0] is Text));
        let rest = content.drop_first();
        assert forall|i: int| 0 <= i < b - 1 implies !(#[trigger] rest[i] is Text) by {
            assert(rest[i] == content[i + 1]);
        }
        lemma_first_text(rest, b - 1);
    }
}

/// A conversation without a system message goes under the prompt that the run was set up
/// with; a single turn goes without.
pub proof fn law_prompt_falls_back(
    run: RunView,
    messages: Seq<MessageView>,
    cancelled: bool,
    ts: Seq<char>,
)
    requires
        run.step is Loading,
        forall|i: int| 0 <= i < messages.len() ==> (#[trigger] messages[i]).role != Role::System,
    ensures
        ({
            let prompt = advanced(run, EventView::Loaded(messages), cancelled, ts).0.prompt;
            &&& run.setup.host != Host::Single ==> prompt == run.setup.fallback
            &&& run.setup.host == Host::Single ==> prompt.len() == 0
        }),
{
    lemma_no_role(messages);
}

proof fn lemma_no_role(messages: Seq<MessageView>)
    requires
        forall|i: int| 0 <= i < messages.len() ==> (#[trigger] messages[i]).role != Role::System,
    ensures
        crate::agent::first_of_role(messages, Role::System) is None,
    decreases messages.len(),
{
    if messages.len() > 0 {
        assert(messages[0].role != Role::System);
        let rest = messages.drop_first();
        assert forall|i: int| 0 <= i < rest.len() implies (#[trigger] rest[i]).role
            != Role::System by {
            assert(rest[i] == messages[i + 1]);
        }
        lemma_no_role(rest);
    }
}

/// A response is stored as it came, and behind it the error that broke its stream, if one
/// did. It is noted which model gave it, when, and what it used.
pub proof fn law_responses_are_stored_whole(
    run: RunView,
    broken: Option<Seq<char>>,
    content: Seq<BlockView>,
    usage: Json,
    cancelled: bool,
    ts: Seq<char>,
)
    requires
        run.step == (StepView::Finishing { broken }),
    ensures
        ({
            let r = advanced(run, EventView::Finished { content, usage }, cancelled, ts);
            &&& r.1.len() == 1
            &&& r.1[0] matches ActionView::Save { role, content: stored, meta } && {
                &&& role == Role::Assistant
                &&& broken is None ==> stored == content
                &&& broken matches Some(e) ==> stored == content.push(BlockView::Error { text: e })
                &&& meta matches Some(note) && note.member("model"@) == Some(
                    Json::Text(run.setup.model),
                ) && note.member("ts"@) == Some(Json::Text(ts)) && note.member("usage"@) == Some(
                    usage,
                )
            }
            &&& r.0.step matches StepView::SavingReply { has_text: text, .. } && text == has_text(
                content,
            )
            &&& run.setup.host == Host::Single ==> calls_at(r.0.step) == Some(
                Seq::<CallView>::empty(),
            )
        }),
{
    lemma_member_names();
    if let Some(e) = broken {
        let stored = content.push(BlockView::Error { text: e });
        if has_text(content) {
            let k = choose|k: int| 0 <= k < content.len() && (#[trigger] content[k]) is Text;
            assert(stored[k] is Text);
        }
        if has_text(stored) {
            let k = choose|k: int| 0 <= k < stored.len() && (#[trigger] stored[k]) is Text;
            assert(content[k] is Text);
        }
    }
}

/// In the server it is noted too how much the model was to think.
pub proof fn law_server_notes_the_thinking(
    run: RunView,
    broken: Option<Seq<char>>,
    content: Seq<BlockView>,
    usage: Json,
    cancelled: bool,
    ts: Seq<char>,
)
    requires
        run.step == (StepView::Finishing { broken }),
    ensures
        advanced(run, EventView::Finished { content, usage }, cancelled, ts).1[0]
            matches ActionView::Save { meta: Some(note), .. } && {
            &&& run.setup.host == Host::Server ==> (note.text_member("thinking"@) matches Some(
                name,
            ) && crate::model::thinking_named(name) == Some(run.setup.thinking))
            &&& run.setup.host != Host::Server ==> note.member("thinking"@) is None
            &&& (note.member("turn"@) == Some(Json::Bool(true))) == (run.setup.host
                == Host::Single)
        },
{
    lemma_member_names();
    crate::model::law_thinking_names(
        run.setup.thinking,
        crate::model::thinking_name(run.setup.thinking),
    );
}

proof fn lemma_member_names()
    ensures
        "model"@ != "ts"@,
        "model"@ != "usage"@,
        "model"@ != "thinking"@,
        "model"@ != "turn"@,
        "ts"@ != "usage"@,
        "ts"@ != "thinking"@,
        "ts"@ != "turn"@,
        "usage"@ != "thinking"@,
        "usage"@ != "turn"@,
        "thinking"@ != "turn"@,
{
    reveal_strlit("model");
    reveal_strlit("ts");
    reveal_strlit("usage");
    reveal_strlit("thinking");
    reveal_strlit("turn");
    assert("model"@.len() == 5 && "ts"@.len() == 2 && "usage"@.len() == 5);
    assert("thinking"@.len() == 8 && "turn"@.len() == 4);
    assert("model"@[0] == 'm' && "usage"@[0] == 'u');
}

/// A turn that does not start leaves a message with the error, and a watched run shows it.
pub proof fn law_failed_starts_are_recorded(
    run: RunView,
    error: Seq<char>,
    cancelled: bool,
    ts: Seq<char>,
)
    requires
        run.step is Starting,
    ensures
        ({
            let r = advanced(run, EventView::StartFailed(error), cancelled, ts);
            &&& r.0.step is SavingFailure
            &&& r.1.len() > 0
            &&& r.1.last() matches ActionView::Save { role, content, meta } && role
                == Role::Assistant && content == seq![BlockView::Error { text: error }] && (
            meta matches Some(note) && note.member("model"@) == Some(Json::Text(run.setup.model))
                && note.member("ts"@) == Some(Json::Text(ts)) && note.member("usage"@) is None)
            &&& run.setup.host == Host::Server || run.setup.host == Host::Terminal ==> r.1[0]
                == ActionView::Emit(AgentEventView::Error(error))
        }),
{
    lemma_member_names();
}

/// A stream that breaks keeps what broke it, to be stored with the response, and a watched
/// run shows it at once. A single turn, or one that has been cancelled, keeps only what came.
pub proof fn law_broken_streams_are_recorded(
    run: RunView,
    error: Seq<char>,
    cancelled: bool,
    ts: Seq<char>,
)
    requires
        run.step is Streaming,
    ensures
        ({
            let r = advanced(run, EventView::ItemFailed(error), cancelled, ts);
            let seen = run.setup.host == Host::Server || run.setup.host == Host::Terminal;
            &&& r.1.len() > 0 && r.1.last() is Finish
            &&& r.0.step == StepView::Finishing {
                broken: if run.setup.host == Host::Single || seen && cancelled {
                    None
                } else {
                    Some(error)
                },
            }
            &&& seen && !cancelled ==> r.1[0] == ActionView::Emit(AgentEventView::Error(error))
        }),
{
}

/// Whether a step has to do with the store.
pub open spec fn stores(step: StepView) -> bool {
    step is SavingFailure || step is SavingReply || step is SavingResults || step is SavingContext
}

/// What the store failed with is what the run tells of: in the server it is stored as a
/// message, and then ends the run; in the terminal it is shown; a background run ends with
/// it once what there is has been saved.
pub proof fn law_store_failures_are_told(
    run: RunView,
    error: Seq<char>,
    cancelled: bool,
    ts: Seq<char>,
)
    requires
        stores(run.step),
    ensures
        ({
            let r = advanced(run, EventView::SaveFailed(error), cancelled, ts);
            match run.setup.host {
                Host::Server => r.0.step == (StepView::Failing { error }) && r.1.len() == 1
                    && r.1[0] == (ActionView::Save {
                    role: Role::Assistant,
                    content: seq![BlockView::Error { text: error }],
                    meta: None,
                }),
                Host::Terminal => r.1.len() == 2 && r.1[0] == ActionView::Emit(
                    AgentEventView::Error(error),
                ) && r.1[1] is Checkpoint && r.0.step is Closing,
                Host::Background => r.0.step == (StepView::FailClosing { error }) && r.1.len() == 1
                    && r.1[0] is Checkpoint,
                Host::Single => r.0.step is Ended && r.1.len() == 1 && r.1[0] == (ActionView::End {
                    error: Some(error),
                }),
            }
        }),
{
}

/// Where the final context cannot be saved, the server stores that as a message, the terminal
/// shows it and ends well, and any other run ends with it.
pub proof fn law_lost_contexts_are_told(
    run: RunView,
    error: Seq<char>,
    cancelled: bool,
    ts: Seq<char>,
)
    requires
        run.step is Closing,
    ensures
        ({
            let r = advanced(run, EventView::CheckpointFailed(error), cancelled, ts);
            match run.setup.host {
                Host::Server => r.0.step == (StepView::Failing { error }) && r.1.len() == 1
                    && r.1[0] == (ActionView::Save {
                    role: Role::Assistant,
                    content: seq![BlockView::Error { text: error }],
                    meta: None,
                }),
                Host::Terminal => r.0.step is Ended && r.1.len() == 2 && r.1[0] == ActionView::Emit(
                    AgentEventView::Error("failed to checkpoint session: "@ + error),
                ) && r.1[1] == (ActionView::End { error: None }),
                _ => r.0.step is Ended && r.1.len() == 1 && r.1[0] == (ActionView::End {
                    error: Some(error),
                }),
            }
        }),
{
}

/// The response of a single turn is marked as one, and no other is.
pub proof fn law_single_turns_are_marked(setup: SetupView, ts: Seq<char>, usage: Json)
    ensures
        setup.host == Host::Single ==> reply_meta(setup, ts, Some(usage)).member("turn"@) == Some(
            Json::Bool(true),
        ),
        setup.host != Host::Single ==> reply_meta(setup, ts, Some(usage)).member("turn"@) is None,
        reply_meta(setup, ts, None).member("turn"@) is None,
        reply_meta(setup, ts, None).member("usage"@) is None,
        setup.host != Host::Server ==> reply_meta(setup, ts, Some(usage)).member("thinking"@)
            is None,
{
    lemma_member_names();
}

/// A run that has failed ends with what it failed with, whatever becomes of the last save,
/// and a watched run shows it.
pub proof fn law_failed_runs_end_with_their_error(
    run: RunView,
    error: Seq<char>,
    event: EventView,
    cancelled: bool,
    ts: Seq<char>,
)
    requires
        run.step == (StepView::FailClosing { error }),
        event is Checkpointed || event is CheckpointFailed,
    ensures
        ({
            let r = advanced(run, event, cancelled, ts);
            &&& r.0.step is Ended
            &&& r.1.len() > 0 && r.1.last() == (ActionView::End { error: Some(error) })
            &&& run.setup.host == Host::Server || run.setup.host == Host::Terminal ==> r.1[0]
                == ActionView::Emit(AgentEventView::Error(error))
        }),
{
}

// ---------------------------------------------------------------------------
// Context files
// ---------------------------------------------------------------------------

/// Whether a call reads or writes the file at a path.
pub open spec fn is_about(call: CallView, path: Seq<char>) -> bool {
    &&& call.name == "read"@ || call.name == "write"@ || call.name == "edit"@ || call.name
        == "Read"@ || call.name == "Write"@ || call.name == "Edit"@
    &&& call.input.member("path"@) == Some(Json::Text(path))
}

proof fn lemma_call_path(call: CallView, path: Seq<char>)
    ensures
        is_about(call, path) <==> crate::agent::call_path(call) == Some(path),
{
}

proof fn lemma_call_paths(calls: Seq<CallView>, path: Seq<char>)
    ensures
        crate::agent::call_paths(calls).contains(path) <==> exists|k: int|
            0 <= k < calls.len() && is_about(#[trigger] calls[k], path),
    decreases calls.len(),
{
    if calls.len() > 0 {
        let front = calls.drop_last();
        lemma_call_paths(front, path);
        lemma_call_path(calls.last(), path);
        let rest = crate::agent::call_paths(front);
        let all = crate::agent::call_paths(calls);
        if all.contains(path) {
            let k = choose|k: int| 0 <= k < all.len() && all[k] == path;
            if k < rest.len() {
                assert(rest[k] == path);
                let j = choose|j: int| 0 <= j < front.len() && is_about(#[trigger] front[j], path);
                assert(is_about(calls[j], path));
            } else {
                assert(is_about(calls[calls.len() - 1], path));
            }
        }
        if exists|k: int| 0 <= k < calls.len() && is_about(#[trigger] calls[k], path) {
            let k = choose|k: int| 0 <= k < calls.len() && is_about(#[trigger] calls[k], path);
            if k < front.len() {
                assert(is_about(front[k], path));
                let j = choose|j: int| 0 <= j < rest.len() && rest[j] == path;
                assert(all[j] == path);
            } else {
                assert(all[rest.len() as int] == path);
            }
        }
    }
}

/// When the results of a round have been stored in the server, context files are looked
/// for near the very files that its calls were about.
pub proof fn law_server_looks_near_the_files(
    run: RunView,
    calls: Seq<CallView>,
    message: StoredView,
    path: Seq<char>,
    cancelled: bool,
    ts: Seq<char>,
)
    requires
        run.step == (StepView::SavingResults { calls }),
        run.setup.host == Host::Server,
    ensures
        ({
            let r = advanced(run, EventView::Saved(message), cancelled, ts);
            let about = exists|k: int| 0 <= k < calls.len() && is_about(#[trigger] calls[k], path);
            match r.1.last() {
                ActionView::Discover { paths } => r.0.step is Discovering && paths.len() > 0
                    && paths.contains(path) == about,
                ActionView::Checkpoint => r.0.step is Checkpointing && !about,
                _ => false,
            }
        }),
{
    lemma_call_paths(calls, path);
}

proof fn lemma_looks(
    setup: SetupView,
    calls: Seq<CallView>,
    next: nat,
    looked: bool,
    results: Seq<BlockView>,
    cancelled: bool,
)
    requires
        next <= calls.len(),
    ensures
        ({
            let r = calls_from(setup, calls, next, looked, results, cancelled);
            &&& r.1.len() > 0
            &&& r.0 matches StepView::Looking { next: at, .. } ==> at < calls.len() && (
            r.1.last() matches ActionView::Discover { paths } && paths.len() == 1 && is_about(
                calls[at as int],
                paths[0],
            ))
            &&& r.0 matches StepView::Running { next: at, .. } ==> at < calls.len() && (at > next
                || !looked) && (setup.host == Host::Terminal || setup.host == Host::Background)
                ==> forall|p: Seq<char>| !(#[trigger] is_about(calls[at as int], p))
        }),
    decreases calls.len() - next,
{
    if next < calls.len() {
        let call = calls[next as int];
        assert forall|p: Seq<char>| #[trigger] is_about(call, p) implies crate::agent::call_path(
            call,
        ) == Some(p) by {
            lemma_call_path(call, p);
        }
        if crate::agent::call_path(call) is Some {
            lemma_call_path(call, crate::agent::call_path(call)->0);
        }
        let a = results.push(cancelled_result(call));
        let b = results.push(call_result(call, missing_tool(call.name)));
        lemma_looks(setup, calls, next + 1, false, a, cancelled);
        lemma_looks(setup, calls, next + 1, false, b, cancelled);
        let rest = calls_from(setup, calls, next + 1, false, b, cancelled).1;
        let head = shown(setup.host, tool_start(call)) + shown(
            setup.host,
            tool_end(call, missing_tool(call.name)),
        );
        assert((head + rest).last() == rest.last());
    }
}

/// In the terminal and in the background context files are looked for near the file that a
/// call is about, before the call is made; a call about no file is made at once.
pub proof fn law_others_look_before_the_call(
    run: RunView,
    event: EventView,
    cancelled: bool,
    ts: Seq<char>,
)
    requires
        crate::run_laws::answers_kept(run.step),
        !(run.step is Looking),
        run.setup.host == Host::Terminal || run.setup.host == Host::Background,
        event is Saved || event is ToolDone,
    ensures
        ({
            let r = advanced(run, event, cancelled, ts);
            match r.0.step {
                StepView::Looking { calls, next, .. } => next < calls.len() && (r.1.last()
                    matches ActionView::Discover { paths } && paths.len() == 1 && is_about(
                    calls[next as int],
                    paths[0],
                )),
                StepView::Running { calls, next, .. } => run.step == r.0.step || forall|
                    p: Seq<char>,
                | !(#[trigger] is_about(calls[next as int], p)),
                _ => true,
            }
        }),
{
    let r = advanced(run, event, cancelled, ts);
    match (run.step, event) {
        (StepView::SavingReply { calls, has_text }, EventView::Saved(m)) => {
            if calls.len() > 0 {
                lemma_looks(run.setup, calls, 0, false, Seq::empty(), cancelled);
                lemma_comes_to(run.setup, calls, 0, false, Seq::empty(), cancelled);
                let rest = calls_from(run.setup, calls, 0, false, Seq::empty(), cancelled);
                assert(r.1.last() == rest.1.last());
            }
        },
        (StepView::Running { calls, next, results }, EventView::ToolDone(out)) => {
            let more = results.push(call_result(calls[next as int], out));
            lemma_looks(run.setup, calls, next + 1, false, more, cancelled);
            lemma_comes_to(run.setup, calls, next + 1, false, more, cancelled);
            let rest = calls_from(run.setup, calls, next + 1, false, more, cancelled);
            assert(r.1.last() == rest.1.last());
        },
        _ => {},
    }
}

proof fn lemma_file_texts(files: Seq<crate::agent::ContextFileView>, k: int)
    requires
        0 <= k < files.len(),
    ensures
        occurs(files[k].path, crate::agent::file_texts(files)),
        occurs(files[k].content, crate::agent::file_texts(files)),
    decreases files.len(),
{
    let front = crate::agent::file_texts(files.drop_last());
    let f = files.last();
    let own = crate::agent::file_text(f);
    let all = crate::agent::file_texts(files);
    if k == files.len() - 1 {
        lemma_occurs("\n## "@, f.path, "\n\n"@ + f.content + "\n"@);
        assert(own =~= "\n## "@ + f.path + ("\n\n"@ + f.content + "\n"@));
        lemma_occurs("\n## "@ + f.path + "\n\n"@, f.content, "\n"@);
        lemma_occurs(front, own, Seq::empty());
        lemma_occurs_within(f.path, own, all);
        lemma_occurs_within(f.content, own, all);
    } else {
        lemma_file_texts(files.drop_last(), k);
        lemma_occurs(Seq::empty(), front, own);
        lemma_occurs_within(files[k].path, front, all);
        lemma_occurs_within(files[k].content, front, all);
    }
}

proof fn lemma_unseen_has(
    files: Seq<crate::agent::ContextFileView>,
    seen: Seq<Seq<char>>,
    k: int,
)
    requires
        0 <= k < files.len(),
        !seen.contains(files[k].key),
        forall|j: int| 0 <= j < k ==> (#[trigger] files[j]).key != files[k].key,
    ensures
        crate::agent::unseen(files, seen).contains(files[k]),
    decreases files.len(),
{
    let front = files.drop_last();
    let rest = crate::agent::unseen(front, seen);
    if k < files.len() - 1 {
        assert forall|j: int| 0 <= j < k implies (#[trigger] front[j]).key != front[k].key by {
            assert(front[j] == files[j]);
        }
        lemma_unseen_has(front, seen, k);
        let i = choose|i: int| 0 <= i < rest.len() && rest[i] == files[k];
        assert(crate::agent::unseen(files, seen)[i] == files[k]);
    } else {
        lemma_unseen_from(front, seen);
        let keys = crate::agent::file_keys(rest);
        if keys.contains(files[k].key) {
            let i = choose|i: int| 0 <= i < keys.len() && keys[i] == files[k].key;
            let j = choose|j: int| 0 <= j < front.len() && front[j] == rest[i];
            assert(files[j].key == files[k].key);
        }
        assert(crate::agent::unseen(files, seen)[rest.len() as int] == files[k]);
    }
}

proof fn lemma_unseen_from(files: Seq<crate::agent::ContextFileView>, seen: Seq<Seq<char>>)
    ensures
        forall|i: int|
            0 <= i < crate::agent::unseen(files, seen).len() ==> files.contains(
                #[trigger] crate::agent::unseen(files, seen)[i],
            ) && !seen.contains(crate::agent::unseen(files, seen)[i].key),
    decreases files.len(),
{
    if files.len() > 0 {
        let front = files.drop_last();
        let rest = crate::agent::unseen(front, seen);
        let all = crate::agent::unseen(files, seen);
        lemma_unseen_from(front, seen);
        assert forall|i: int| 0 <= i < all.len() implies files.contains(#[trigger] all[i])
            && !seen.contains(all[i].key) by {
            if i < rest.len() {
                assert(all[i] == rest[i]);
                let j = choose|j: int| 0 <= j < front.len() && front[j] == rest[i];
                assert(files[j] == all[i]);
            } else {
                assert(files[files.len() - 1] == all[i]);
            }
        }
    }
}

/// A context file that the conversation has not been shown is shown to the model, with its
/// path and its content: in the server in a message of its own, which is marked with the
/// path to know it by, and else with the results of the tools. Where all have been shown,
/// nothing is added.
pub proof fn law_new_context_files_are_shown(
    run: RunView,
    files: Seq<crate::agent::ContextFileView>,
    known: Seq<Seq<char>>,
    k: int,
    cancelled: bool,
    ts: Seq<char>,
)
    requires
        run.step is Discovering,
        0 <= k < files.len(),
        !known.contains(files[k].key),
        forall|j: int| 0 <= j < k ==> (#[trigger] files[j]).key != files[k].key,
    ensures
        ({
            let r = advanced(run, EventView::Found { files, known }, cancelled, ts);
            &&& r.0.step is SavingContext
            &&& r.1.len() == 1
            &&& r.1[0] matches ActionView::Save { role, content, meta: Some(note) } && {
                &&& role == Role::User
                &&& content.len() == 1
                &&& content[0] matches BlockView::Text { text } && occurs(files[k].path, text)
                    && occurs(files[k].content, text)
                &&& note.member("agents_context"@) matches Some(Json::Array(paths)) && (
                files[k].canonical matches Some(p) ==> paths.contains(Json::Text(p)))
            }
        }),
{
    let fresh = crate::agent::unseen(files, known);
    lemma_unseen_has(files, known, k);
    let i = choose|i: int| 0 <= i < fresh.len() && fresh[i] == files[k];
    lemma_file_texts(fresh, i);
    let texts = crate::agent::file_texts(fresh);
    let head = "# Context Files (discovered)\n"@;
    lemma_occurs(head, texts, Seq::empty());
    lemma_occurs_within(files[k].path, texts, head + texts);
    lemma_occurs_within(files[k].content, texts, head + texts);
    if let Some(p) = files[k].canonical {
        lemma_canonical(fresh, i);
        let paths = crate::agent::canonical_paths(fresh);
        let j = choose|j: int| 0 <= j < paths.len() && paths[j] == p;
        let texts = paths.map_values(|s: Seq<char>| crate::json::text_json(s));
        assert(texts[j] == Json::Text(p));
    }
}

proof fn lemma_canonical(files: Seq<crate::agent::ContextFileView>, k: int)
    requires
        0 <= k < files.len(),
        files[k].canonical is Some,
    ensures
        crate::agent::canonical_paths(files).contains(files[k].canonical->0),
    decreases files.len(),
{
    let front = files.drop_last();
    let rest = crate::agent::canonical_paths(front);
    let all = crate::agent::canonical_paths(files);
    if k < files.len() - 1 {
        lemma_canonical(front, k);
        let i = choose|i: int| 0 <= i < rest.len() && rest[i] == files[k].canonical->0;
        assert(all[i] == rest[i]);
    } else {
        assert(all[rest.len() as int] == files[k].canonical->0);
    }
}

/// The same in the terminal and in the background: the file is shown with the results, and
/// is known from then on.
pub proof fn law_new_context_files_join_the_results(
    run: RunView,
    calls: Seq<CallView>,
    next: nat,
    results: Seq<BlockView>,
    files: Seq<crate::agent::ContextFileView>,
    known: Seq<Seq<char>>,
    k: int,
    cancelled: bool,
    ts: Seq<char>,
)
    requires
        run.step == (StepView::Looking { calls, next, results }),
        next < calls.len(),
        0 <= k < files.len(),
        !run.seen.contains(files[k].key),
        forall|j: int| 0 <= j < k ==> (#[trigger] files[j]).key != files[k].key,
    ensures
        ({
            let r = advanced(run, EventView::Found { files, known }, cancelled, ts);
            let after = results_at(r.0.step, r.1);
            &&& r.0.seen.contains(files[k].key)
            &&& results.len() < after.len()
            &&& results.is_prefix_of(after)
            &&& after[results.len() as int] matches BlockView::Text { text } && occurs(
                files[k].path,
                text,
            ) && occurs(files[k].content, text)
        }),
{
    let fresh = crate::agent::unseen(files, run.seen);
    lemma_unseen_has(files, run.seen, k);
    let i = choose|i: int| 0 <= i < fresh.len() && fresh[i] == files[k];
    lemma_file_texts(fresh, i);
    let texts = crate::agent::file_texts(fresh);
    let head = "# Context Files (discovered)\n"@;
    lemma_occurs(head, texts, Seq::empty());
    lemma_occurs_within(files[k].path, texts, head + texts);
    lemma_occurs_within(files[k].content, texts, head + texts);
    let block = BlockView::Text { text: crate::agent::discovery_text(fresh) };
    let more = results.push(block);
    lemma_comes_to(run.setup, calls, next, true, more, cancelled);
    let r = advanced(run, EventView::Found { files, known }, cancelled, ts);
    let after = results_at(r.0.step, r.1);
    assert(after[results.len() as int] == more[results.len() as int]);
    assert forall|j: int| 0 <= j < results.len() implies results[j] == after[j] by {
        assert(more[j] == after[j]);
    }
    let keys = crate::agent::file_keys(fresh);
    assert(r.0.seen[run.seen.len() + i] == keys[i]);
}

/// What a message says it shows is read back from it.
pub proof fn law_shown_files_are_read_back(
    messages: Seq<MessageView>,
    message: MessageView,
    files: Seq<crate::agent::ContextFileView>,
    k: int,
)
    requires
        message.meta == Some(crate::agent::discovery_meta(files)),
        0 <= k < files.len(),
        files[k].canonical is Some,
    ensures
        crate::agent::shown_files(messages.push(message)).contains(files[k].canonical->0),
        crate::agent::shown_files(messages).is_prefix_of(
            crate::agent::shown_files(messages.push(message)),
        ),
{
    let all = messages.push(message);
    assert(all.drop_last() =~= messages);
    let paths = crate::agent::canonical_paths(files);
    let rest = crate::agent::shown_files(messages);
    let texts = paths.map_values(|s: Seq<char>| crate::json::text_json(s));
    lemma_texts_back(paths);
    lemma_canonical(files, k);
    let i = choose|i: int| 0 <= i < paths.len() && paths[i] == files[k].canonical->0;
    assert((rest + paths)[rest.len() + i] == paths[i]);
}

proof fn lemma_texts_back(paths: Seq<Seq<char>>)
    ensures
        crate::json::texts_in(paths.map_values(|s: Seq<char>| crate::json::text_json(s))) == paths,
    decreases paths.len(),
{
    let texts = paths.map_values(|s: Seq<char>| crate::json::text_json(s));
    if paths.len() > 0 {
        lemma_texts_back(paths.drop_last());
        assert(texts.drop_last() =~= paths.drop_last().map_values(
            |s: Seq<char>| crate::json::text_json(s),
        ));
        assert(paths.drop_last().push(paths.last()) =~= paths);
    }
}

} // verus!
