//! What holds of every agent run, whatever happens in it.
use crate::agent::{calls_in, ActionView, CallView, EventView, Host, RunView, SetupView, StepView};
use crate::model::{BlockView, Role};
use crate::run::{
    advanced, call_result, calls_from, cancelled_result, looks_first, missing_tool, shown, tool_end,
    tool_start, watched,
};
use vstd::prelude::*;

verus! {

// ---------------------------------------------------------------------------
// Every call is answered
// ---------------------------------------------------------------------------

/// The ids of the calls that the blocks of a message answer, in order.
pub open spec fn answered_ids(content: Seq<BlockView>) -> Seq<Seq<char>>
    decreases content.len(),
{
    if content.len() == 0 {
        Seq::empty()
    } else {
        match content.last() {
            BlockView::ToolResult { id, .. } => answered_ids(content.drop_last()).push(id),
            _ => answered_ids(content.drop_last()),
        }
    }
}

pub open spec fn call_ids(calls: Seq<CallView>) -> Seq<Seq<char>> {
    Seq::new(calls.len(), |i: int| calls[i].id)
}

/// While tools run, the calls before the one at hand have been answered.
pub open spec fn answers_kept(step: StepView) -> bool {
    match step {
        StepView::Looking { calls, next, results } => next < calls.len() && answered_ids(results)
            == call_ids(calls.take(next as int)),
        StepView::Running { calls, next, results } => next < calls.len() && answered_ids(results)
            == call_ids(calls.take(next as int)),
        _ => true,
    }
}

/// Whether the last action stores answers to all of `calls`.
pub open spec fn stores_answers(actions: Seq<ActionView>, calls: Seq<CallView>) -> bool {
    actions.len() > 0 && match actions.last() {
        ActionView::Save { role, content, meta } => role == Role::User && meta is None
            && answered_ids(content) == call_ids(calls),
        _ => false,
    }
}

proof fn lemma_answer(
    results: Seq<BlockView>,
    calls: Seq<CallView>,
    next: nat,
    block: BlockView,
)
    requires
        next < calls.len(),
        answered_ids(results) == call_ids(calls.take(next as int)),
        block matches BlockView::ToolResult { id, .. } && id == calls[next as int].id,
    ensures
        answered_ids(results.push(block)) == call_ids(calls.take((next + 1) as int)),
{
    assert(results.push(block).drop_last() =~= results);
    assert(call_ids(calls.take((next + 1) as int)) =~= call_ids(calls.take(next as int)).push(
        calls[next as int].id,
    ));
}

pub proof fn lemma_calls_from(
    setup: SetupView,
    calls: Seq<CallView>,
    next: nat,
    looked: bool,
    results: Seq<BlockView>,
    cancelled: bool,
)
    requires
        next <= calls.len(),
        answered_ids(results) == call_ids(calls.take(next as int)),
    ensures
        ({
            let r = calls_from(setup, calls, next, looked, results, cancelled);
            &&& answers_kept(r.0)
            &&& r.1.len() > 0
            &&& match r.0 {
                StepView::SavingResults { calls: c } => c == calls && stores_answers(r.1, calls),
                StepView::Looking { calls: c, .. } => c == calls,
                StepView::Running { calls: c, .. } => c == calls,
                _ => false,
            }
        }),
    decreases calls.len() - next,
{
    if next == calls.len() {
        assert(calls.take(next as int) =~= calls);
    } else {
        let call = calls[next as int];
        if !looked && watched(setup.host) && cancelled {
            lemma_answer(results, calls, next, cancelled_result(call));
            lemma_calls_from(
                setup,
                calls,
                next + 1,
                false,
                results.push(cancelled_result(call)),
                cancelled,
            );
        } else if !looked && looks_first(setup.host) && crate::agent::call_path(call) is Some {
        } else if setup.tools.contains(call.name) {
        } else {
            let block = call_result(call, missing_tool(call.name));
            lemma_answer(results, calls, next, block);
            lemma_calls_from(setup, calls, next + 1, false, results.push(block), cancelled);
            let rest = calls_from(setup, calls, next + 1, false, results.push(block), cancelled);
            let head = shown(setup.host, tool_start(call)) + shown(
                setup.host,
                tool_end(call, missing_tool(call.name)),
            );
            assert((head + rest.1).last() == rest.1.last());
        }
    }
}

/// Every tool call is answered exactly once and in order, however the tools end
/// and whether or not the run is cancelled: at every step the answers so far are
/// those of the calls so far, and what is stored in the end answers all of them.
pub proof fn law_every_call_answered(
    run: RunView,
    event: EventView,
    cancelled: bool,
    ts: Seq<char>,
)
    requires
        answers_kept(run.step),
    ensures
        ({
            let r = advanced(run, event, cancelled, ts);
            &&& answers_kept(r.0.step)
            &&& match r.0.step {
                StepView::SavingResults { calls } => run.step == r.0.step || stores_answers(
                    r.1,
                    calls,
                ),
                _ => true,
            }
        }),
{
    match (run.step, event) {
        (StepView::SavingReply { calls, has_text }, EventView::Saved(m)) => {
            if calls.len() > 0 {
                assert(calls.take(0) =~= Seq::<CallView>::empty());
                assert(call_ids(calls.take(0)) =~= Seq::<Seq<char>>::empty());
                lemma_calls_from(run.setup, calls, 0, false, Seq::empty(), cancelled);
                let rest = calls_from(run.setup, calls, 0, false, Seq::empty(), cancelled);
                let r = advanced(run, event, cancelled, ts);
                assert(r.1.last() == rest.1.last());
            }
        },
        (StepView::Looking { calls, next, results }, EventView::Found { files, .. }) => {
            let fresh = crate::agent::unseen(files, run.seen);
            let block = BlockView::Text { text: crate::agent::discovery_text(fresh) };
            assert(results.push(block).drop_last() =~= results);
            let more = if fresh.len() == 0 {
                results
            } else {
                results.push(block)
            };
            lemma_calls_from(run.setup, calls, next, true, more, cancelled);
        },
        (StepView::Running { calls, next, results }, EventView::ToolDone(out)) => {
            let block = call_result(calls[next as int], out);
            lemma_answer(results, calls, next, block);
            lemma_calls_from(run.setup, calls, next + 1, false, results.push(block), cancelled);
            let rest = calls_from(
                run.setup,
                calls,
                next + 1,
                false,
                results.push(block),
                cancelled,
            );
            let r = advanced(run, event, cancelled, ts);
            assert(r.1.last() == rest.1.last());
        },
        _ => {},
    }
}

/// The calls that a run answers are those of the response it has just stored.
pub proof fn law_calls_are_those_of_the_reply(
    run: RunView,
    content: Seq<BlockView>,
    usage: crate::json::Json,
    cancelled: bool,
    ts: Seq<char>,
    broken: Option<Seq<char>>,
)
    requires
        run.step == (StepView::Finishing { broken }),
        run.setup.host != Host::Single,
    ensures
        ({
            let r = advanced(run, EventView::Finished { content, usage }, cancelled, ts);
            &&& r.1.len() == 1
            &&& match (r.0.step, r.1[0]) {
                (
                    StepView::SavingReply { calls, .. },
                    ActionView::Save { role, content: stored, .. },
                ) => role == Role::Assistant && calls == calls_in(stored) && calls == calls_in(
                    content,
                ) && content.is_prefix_of(stored),
                _ => false,
            }
        }),
{
    match broken {
        Some(e) => {
            assert(content.push(BlockView::Error { text: e }).drop_last() =~= content);
        },
        None => {},
    }
}

// ---------------------------------------------------------------------------
// Cancelling
// ---------------------------------------------------------------------------

/// Whether an action sets the model or a tool to work.
pub open spec fn sets_to_work(action: ActionView) -> bool {
    action is Start || action is RunTool
}

proof fn lemma_calls_cancelled(
    setup: SetupView,
    calls: Seq<CallView>,
    next: nat,
    results: Seq<BlockView>,
)
    requires
        watched(setup.host),
    ensures
        ({
            let r = calls_from(setup, calls, next, false, results, true);
            r.1.len() == 1 && r.1[0] is Save && r.0 is SavingResults
        }),
    decreases calls.len() - next,
{
    if next < calls.len() {
        lemma_calls_cancelled(
            setup,
            calls,
            next + 1,
            results.push(cancelled_result(calls[next as int])),
        );
    }
}

/// Once a watched run is cancelled, neither the model nor a tool is set to work
/// again. A tool whose context files were being looked for still runs.
pub proof fn law_cancel_stops_work(run: RunView, event: EventView, ts: Seq<char>)
    requires
        watched(run.setup.host),
        !(run.step is Looking),
    ensures
        forall|i: int|
            0 <= i < advanced(run, event, true, ts).1.len() ==> !sets_to_work(
                #[trigger] advanced(run, event, true, ts).1[i],
            ),
{
    match (run.step, event) {
        (StepView::SavingReply { calls, has_text }, EventView::Saved(m)) => {
            lemma_calls_cancelled(run.setup, calls, 0, Seq::empty());
        },
        (StepView::Running { calls, next, results }, EventView::ToolDone(out)) => {
            if next < calls.len() {
                lemma_calls_cancelled(
                    run.setup,
                    calls,
                    next + 1,
                    results.push(call_result(calls[next as int], out)),
                );
            }
        },
        _ => {},
    }
}

// ---------------------------------------------------------------------------
// Storing and ending
// ---------------------------------------------------------------------------

/// Whether a step waits for a message to be stored.
pub open spec fn saving(step: StepView) -> bool {
    match step {
        StepView::Prompting => true,
        StepView::SavingFailure => true,
        StepView::SavingReply { .. } => true,
        StepView::SavingResults { .. } => true,
        StepView::SavingContext => true,
        StepView::Failing { .. } => true,
        _ => false,
    }
}

proof fn lemma_calls_push_nothing(
    setup: SetupView,
    calls: Seq<CallView>,
    next: nat,
    looked: bool,
    results: Seq<BlockView>,
    cancelled: bool,
)
    ensures
        forall|i: int|
            #![trigger calls_from(setup, calls, next, looked, results, cancelled).1[i]]
            0 <= i < calls_from(setup, calls, next, looked, results, cancelled).1.len() ==> !(
            calls_from(setup, calls, next, looked, results, cancelled).1[i] is Push)
                && !(calls_from(setup, calls, next, looked, results, cancelled).1[i] is End),
    decreases calls.len() - next,
{
    if next < calls.len() {
        let call = calls[next as int];
        lemma_calls_push_nothing(
            setup,
            calls,
            next + 1,
            false,
            results.push(cancelled_result(call)),
            cancelled,
        );
        lemma_calls_push_nothing(
            setup,
            calls,
            next + 1,
            false,
            results.push(call_result(call, missing_tool(call.name))),
            cancelled,
        );
    }
}

proof fn lemma_step_calls_push_nothing(
    run: RunView,
    event: EventView,
    cancelled: bool,
)
    ensures
        match (run.step, event) {
            (StepView::SavingReply { calls, .. }, EventView::Saved(_)) => forall|i: int|
                #![trigger calls_from(run.setup, calls, 0, false, Seq::empty(), cancelled).1[i]]
                0 <= i < calls_from(run.setup, calls, 0, false, Seq::empty(), cancelled).1.len()
                    ==> !(calls_from(run.setup, calls, 0, false, Seq::empty(), cancelled).1[i]
                    is Push) && !(calls_from(
                    run.setup,
                    calls,
                    0,
                    false,
                    Seq::empty(),
                    cancelled,
                ).1[i] is End),
            _ => true,
        },
{
    match (run.step, event) {
        (StepView::SavingReply { calls, .. }, EventView::Saved(_)) => {
            lemma_calls_push_nothing(run.setup, calls, 0, false, Seq::empty(), cancelled);
        },
        _ => {},
    }
}

/// Every message that is stored is taken into the conversation, at once and once;
/// and nothing else ever is.
pub proof fn law_stored_messages_are_kept(
    run: RunView,
    event: EventView,
    cancelled: bool,
    ts: Seq<char>,
)
    ensures
        ({
            let actions = advanced(run, event, cancelled, ts).1;
            match event {
                EventView::Saved(m) => if saving(run.step) {
                    actions.len() > 0 && actions[0] == ActionView::Push(m.id) && forall|i: int|
                        1 <= i < actions.len() ==> !(#[trigger] actions[i] is Push)
                } else {
                    actions.len() == 0
                },
                _ => forall|i: int| 0 <= i < actions.len() ==> !(#[trigger] actions[i] is Push),
            }
        }),
{
    lemma_step_calls_push_nothing(run, event, cancelled);
    match (run.step, event) {
        (StepView::Looking { calls, next, results }, EventView::Found { files, .. }) => {
            let fresh = crate::agent::unseen(files, run.seen);
            let block = BlockView::Text { text: crate::agent::discovery_text(fresh) };
            let more = if fresh.len() == 0 {
                results
            } else {
                results.push(block)
            };
            lemma_calls_push_nothing(run.setup, calls, next, true, more, cancelled);
        },
        (StepView::Running { calls, next, results }, EventView::ToolDone(out)) => {
            if next < calls.len() {
                lemma_calls_push_nothing(
                    run.setup,
                    calls,
                    next + 1,
                    false,
                    results.push(call_result(calls[next as int], out)),
                    cancelled,
                );
            }
        },
        _ => {},
    }
}

/// A run that has ended does nothing more.
pub proof fn law_ended_is_final(run: RunView, event: EventView, cancelled: bool, ts: Seq<char>)
    requires
        run.step is Ended,
    ensures
        advanced(run, event, cancelled, ts) == (run, Seq::<ActionView>::empty()),
{
}

/// A run ends at most once, as the last thing it does, and it ends well only when
/// its final context has been saved (in the terminal: has been tried to be saved).
pub proof fn law_success_is_saved(run: RunView, event: EventView, cancelled: bool, ts: Seq<char>)
    ensures
        ({
            let r = advanced(run, event, cancelled, ts);
            &&& (r.0.step is Ended && !(run.step is Ended)) <==> (r.1.len() > 0 && r.1.last()
                is End)
            &&& forall|i: int| 0 <= i < r.1.len() - 1 ==> !(#[trigger] r.1[i] is End)
            &&& r.1.len() > 0 && r.1.last() == (ActionView::End { error: None }) ==> run.step
                is Closing && (event is Checkpointed || (run.setup.host == Host::Terminal
                && event is CheckpointFailed))
        }),
{
    lemma_step_calls_push_nothing(run, event, cancelled);
    let r = advanced(run, event, cancelled, ts);
    match (run.step, event) {
        (StepView::SavingReply { calls, has_text }, EventView::Saved(m)) => {
            lemma_calls_step(run.setup, calls, 0, false, Seq::empty(), cancelled);
        },
        (StepView::Looking { calls, next, results }, EventView::Found { files, .. }) => {
            let fresh = crate::agent::unseen(files, run.seen);
            let block = BlockView::Text { text: crate::agent::discovery_text(fresh) };
            let more = if fresh.len() == 0 {
                results
            } else {
                results.push(block)
            };
            lemma_calls_push_nothing(run.setup, calls, next, true, more, cancelled);
            lemma_calls_step(run.setup, calls, next, true, more, cancelled);
        },
        (StepView::Running { calls, next, results }, EventView::ToolDone(out)) => {
            if next < calls.len() {
                let more = results.push(call_result(calls[next as int], out));
                lemma_calls_push_nothing(run.setup, calls, next + 1, false, more, cancelled);
                lemma_calls_step(run.setup, calls, next + 1, false, more, cancelled);
            }
        },
        _ => {},
    }
}

pub proof fn lemma_calls_step(
    setup: SetupView,
    calls: Seq<CallView>,
    next: nat,
    looked: bool,
    results: Seq<BlockView>,
    cancelled: bool,
)
    ensures
        ({
            let r = calls_from(setup, calls, next, looked, results, cancelled);
            &&& r.0 is SavingResults || r.0 is Looking || r.0 is Running
            &&& r.1.len() > 0
            &&& awaited(r.0, r.1.last())
            &&& forall|i: int| 0 <= i < r.1.len() - 1 ==> !is_request(#[trigger] r.1[i])
        }),
    decreases calls.len() - next,
{
    if next < calls.len() {
        let call = calls[next as int];
        let a = results.push(cancelled_result(call));
        let b = results.push(call_result(call, missing_tool(call.name)));
        lemma_calls_step(setup, calls, next + 1, false, a, cancelled);
        lemma_calls_step(setup, calls, next + 1, false, b, cancelled);
        let rest = calls_from(setup, calls, next + 1, false, b, cancelled);
        let head = shown(setup.host, tool_start(call)) + shown(
            setup.host,
            tool_end(call, missing_tool(call.name)),
        );
        assert((head + rest.1).last() == rest.1.last());
        assert forall|i: int| 0 <= i < (head + rest.1).len() - 1 implies !is_request(
            #[trigger] (head + rest.1)[i],
        ) by {
            if i >= head.len() {
                assert((head + rest.1)[i] == rest.1[i - head.len()]);
            }
        }
    }
}

// ---------------------------------------------------------------------------
// Keeping the run going
// ---------------------------------------------------------------------------

/// Whether an action is answered by an event.
pub open spec fn is_request(action: ActionView) -> bool {
    match action {
        ActionView::Emit(_) => false,
        ActionView::Push(_) => false,
        ActionView::Title => false,
        ActionView::End { .. } => false,
        _ => true,
    }
}

/// Whether `action` asks for what `step` waits for.
pub open spec fn awaited(step: StepView, action: ActionView) -> bool {
    match step {
        StepView::Loading => action is Load,
        StepView::Reloading => action is Load,
        StepView::Starting => action is Start,
        StepView::Streaming => action is Next,
        StepView::Finishing { .. } => action is Finish,
        StepView::Looking { .. } => action is Discover,
        StepView::Running { .. } => action is RunTool,
        StepView::Discovering => action is Discover,
        StepView::Checkpointing => action is Checkpoint,
        StepView::Closing => action is Checkpoint,
        StepView::FailClosing { .. } => action is Checkpoint,
        StepView::Ended => action is End,
        _ => action is Save,
    }
}

/// Whether `event` is an answer that `step` waits for.
pub open spec fn expected(step: StepView, event: EventView) -> bool {
    match step {
        StepView::Loading => event is Loaded,
        StepView::Reloading => event is Loaded,
        StepView::Starting => event is Started || event is StartFailed,
        StepView::Streaming => event is Item || event is ItemFailed || event is ItemsEnded,
        StepView::Finishing { .. } => event is Finished,
        StepView::Looking { .. } => event is Found,
        StepView::Running { .. } => event is ToolDone,
        StepView::Discovering => event is Found,
        StepView::Checkpointing => event is Checkpointed || event is CheckpointFailed,
        StepView::Closing => event is Checkpointed || event is CheckpointFailed,
        StepView::FailClosing { .. } => event is Checkpointed || event is CheckpointFailed,
        StepView::Ended => false,
        _ => event is Saved || event is SaveFailed,
    }
}

/// A run never gets stuck: an answer that it waits for leads to a batch of actions
/// whose last one, and no other, asks for what the run waits for next.
pub proof fn law_never_stuck(run: RunView, event: EventView, cancelled: bool, ts: Seq<char>)
    requires
        answers_kept(run.step),
        expected(run.step, event),
    ensures
        ({
            let r = advanced(run, event, cancelled, ts);
            &&& r.1.len() > 0
            &&& awaited(r.0.step, r.1.last())
            &&& forall|i: int| 0 <= i < r.1.len() - 1 ==> !is_request(#[trigger] r.1[i])
        }),
{
    match (run.step, event) {
        (StepView::SavingReply { calls, has_text }, EventView::Saved(m)) => {
            lemma_calls_step(run.setup, calls, 0, false, Seq::empty(), cancelled);
        },
        (StepView::Looking { calls, next, results }, EventView::Found { files, .. }) => {
            let fresh = crate::agent::unseen(files, run.seen);
            let block = BlockView::Text { text: crate::agent::discovery_text(fresh) };
            let more = if fresh.len() == 0 {
                results
            } else {
                results.push(block)
            };
            lemma_calls_step(run.setup, calls, next, true, more, cancelled);
        },
        (StepView::Running { calls, next, results }, EventView::ToolDone(out)) => {
            let more = results.push(call_result(calls[next as int], out));
            lemma_calls_step(run.setup, calls, next + 1, false, more, cancelled);
        },
        _ => {},
    }
}

/// What a run was set up with never changes, and its system prompt is fixed when
/// the conversation is loaded.
pub proof fn law_setup_is_fixed(run: RunView, event: EventView, cancelled: bool, ts: Seq<char>)
    ensures
        ({
            let r = advanced(run, event, cancelled, ts).0;
            &&& r.setup == run.setup
            &&& !(run.step is Loading) ==> r.prompt == run.prompt
            &&& run.seen.is_prefix_of(r.seen)
        }),
{
}

proof fn lemma_calls_start_no_turn(
    setup: SetupView,
    calls: Seq<CallView>,
    next: nat,
    looked: bool,
    results: Seq<BlockView>,
    cancelled: bool,
)
    ensures
        ({
            let r = calls_from(setup, calls, next, looked, results, cancelled);
            forall|i: int| 0 <= i < r.1.len() ==> !(#[trigger] r.1[i] is Start)
        }),
    decreases calls.len() - next,
{
    if next < calls.len() {
        let call = calls[next as int];
        let a = results.push(cancelled_result(call));
        let b = results.push(call_result(call, missing_tool(call.name)));
        lemma_calls_start_no_turn(setup, calls, next + 1, false, a, cancelled);
        lemma_calls_start_no_turn(setup, calls, next + 1, false, b, cancelled);
    }
}

/// A turn starts only over a conversation that has just been loaded.
pub proof fn lemma_starts_when_loaded(
    run: RunView,
    event: EventView,
    cancelled: bool,
    ts: Seq<char>,
)
    ensures
        ({
            let r = advanced(run, event, cancelled, ts);
            &&& (exists|i: int| 0 <= i < r.1.len() && #[trigger] r.1[i] is Start) ==> (run.step
                is Loading || run.step is Reloading) && event is Loaded
            &&& r.0.step is Reloading && !(run.step is Reloading) ==> (run.step is Checkpointing
                && event is Checkpointed) || (run.setup.host != Host::Server && run.step
                is SavingResults)
        }),
{
    match (run.step, event) {
        (StepView::SavingReply { calls, has_text }, EventView::Saved(m)) => {
            lemma_calls_start_no_turn(run.setup, calls, 0, false, Seq::empty(), cancelled);
            lemma_calls_step(run.setup, calls, 0, false, Seq::empty(), cancelled);
        },
        (StepView::Looking { calls, next, results }, EventView::Found { files, .. }) => {
            let fresh = crate::agent::unseen(files, run.seen);
            let block = BlockView::Text { text: crate::agent::discovery_text(fresh) };
            let more = if fresh.len() == 0 {
                results
            } else {
                results.push(block)
            };
            lemma_calls_start_no_turn(run.setup, calls, next, true, more, cancelled);
            lemma_calls_step(run.setup, calls, next, true, more, cancelled);
        },
        (StepView::Running { calls, next, results }, EventView::ToolDone(out)) => {
            if next < calls.len() {
                let more = results.push(call_result(calls[next as int], out));
                lemma_calls_start_no_turn(run.setup, calls, next + 1, false, more, cancelled);
                lemma_calls_step(run.setup, calls, next + 1, false, more, cancelled);
            }
        },
        _ => {},
    }
}

/// In the server a turn starts only over a conversation that has just been loaded, and
/// it is loaded again only when the round of tools before has been saved, so a crash
/// loses no finished round.
pub proof fn law_server_saves_every_round(
    run: RunView,
    event: EventView,
    cancelled: bool,
    ts: Seq<char>,
)
    requires
        run.setup.host == Host::Server,
    ensures
        ({
            let r = advanced(run, event, cancelled, ts);
            &&& (exists|i: int| 0 <= i < r.1.len() && #[trigger] r.1[i] is Start) ==> (run.step
                is Loading || run.step is Reloading) && event is Loaded
            &&& r.0.step is Reloading && !(run.step is Reloading) ==> run.step is Checkpointing
                && event is Checkpointed
        }),
{
    lemma_starts_when_loaded(run, event, cancelled, ts);
}

/// The loop repeats until the model stops asking for tools: a stored response
/// without calls leads to the final save, and one with calls does not.
pub proof fn law_loop_ends_without_calls(
    run: RunView,
    calls: Seq<CallView>,
    has_text: bool,
    message: crate::events::StoredView,
    cancelled: bool,
    ts: Seq<char>,
)
    requires
        run.step == (StepView::SavingReply { calls, has_text }),
    ensures
        advanced(run, EventView::Saved(message), cancelled, ts).0.step is Closing <==> calls.len()
            == 0,
{
    lemma_calls_step(run.setup, calls, 0, false, Seq::empty(), cancelled);
}

/// A context file is shown to the model once: what is picked has not been seen,
/// is picked once, and counts as seen from then on.
pub proof fn law_context_files_shown_once(
    files: Seq<crate::agent::ContextFileView>,
    seen: Seq<Seq<char>>,
)
    ensures
        ({
            let fresh = crate::agent::unseen(files, seen);
            let keys = crate::agent::file_keys(fresh);
            &&& keys.no_duplicates()
            &&& forall|i: int| 0 <= i < keys.len() ==> !seen.contains(#[trigger] keys[i])
            &&& crate::agent::unseen(files, seen + keys).len() == 0
        }),
{
    lemma_unseen(files, seen);
    let keys = crate::agent::file_keys(crate::agent::unseen(files, seen));
    let now = seen + keys;
    assert forall|i: int| 0 <= i < keys.len() implies now.contains(#[trigger] keys[i]) by {
        assert(now[seen.len() + i] == keys[i]);
    }
    lemma_all_seen(files, now, seen);
}

proof fn lemma_unseen(files: Seq<crate::agent::ContextFileView>, seen: Seq<Seq<char>>)
    ensures
        ({
            let keys = crate::agent::file_keys(crate::agent::unseen(files, seen));
            &&& keys.no_duplicates()
            &&& forall|i: int| 0 <= i < keys.len() ==> !seen.contains(#[trigger] keys[i])
            &&& forall|i: int|
                0 <= i < files.len() ==> seen.contains((#[trigger] files[i]).key) || keys.contains(
                    files[i].key,
                )
        }),
    decreases files.len(),
{
    if files.len() > 0 {
        lemma_unseen(files.drop_last(), seen);
        let rest = crate::agent::unseen(files.drop_last(), seen);
        let before = crate::agent::file_keys(rest);
        let fresh = crate::agent::unseen(files, seen);
        let keys = crate::agent::file_keys(fresh);
        let file = files.last();
        if !(seen.contains(file.key) || before.contains(file.key)) {
            assert(keys =~= before.push(file.key));
            assert(keys[before.len() as int] == file.key);
        }
        assert forall|i: int| 0 <= i < files.len() implies seen.contains((#[trigger] files[i]).key)
            || keys.contains(files[i].key) by {
            if i < files.len() - 1 {
                assert(files.drop_last()[i] == files[i]);
                if before.contains(files[i].key) {
                    let k = choose|k: int| 0 <= k < before.len() && before[k] == files[i].key;
                    assert(keys[k] == files[i].key);
                }
            }
        }
    }
}

proof fn lemma_all_seen(
    files: Seq<crate::agent::ContextFileView>,
    now: Seq<Seq<char>>,
    seen: Seq<Seq<char>>,
)
    requires
        ({
            let keys = crate::agent::file_keys(crate::agent::unseen(files, seen));
            &&& seen.is_prefix_of(now)
            &&& forall|i: int| 0 <= i < keys.len() ==> now.contains(#[trigger] keys[i])
        }),
    ensures
        crate::agent::unseen(files, now).len() == 0,
    decreases files.len(),
{
    if files.len() > 0 {
        let rest = files.drop_last();
        let a = crate::agent::file_keys(crate::agent::unseen(rest, seen));
        let b = crate::agent::file_keys(crate::agent::unseen(files, seen));
        assert forall|i: int| 0 <= i < a.len() implies now.contains(#[trigger] a[i]) by {
            assert(b[i] == a[i]);
        }
        lemma_all_seen(rest, now, seen);
        lemma_unseen(files, seen);
        let key = files.last().key;
        assert(files[files.len() - 1].key == key);
        if seen.contains(key) {
            let k = choose|k: int| 0 <= k < seen.len() && seen[k] == key;
            assert(now[k] == key);
        } else {
            let k = choose|k: int| 0 <= k < b.len() && b[k] == key;
            assert(now.contains(b[k]));
        }
    }
}

} // verus!
