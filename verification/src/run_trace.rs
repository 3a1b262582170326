//! Whole runs: what a run sends to the model, from its first turn to its last.
use crate::agent::{
    calls_in, default_prompt, discovery_text, system_prompt, turn_request, unseen, ActionView,
    CallView, EventView, Host, RunView, StepView, TurnRequestView,
};
use crate::model::{BlockView, MessageView, Role};
use crate::run::{advanced, call_result};
use crate::run_laws::{
    answered_ids, answers_kept, awaited, call_ids, law_every_call_answered,
    law_stored_messages_are_kept, lemma_calls_from, lemma_calls_step, lemma_starts_when_loaded,
    stores_answers,
};
use vstd::prelude::*;

verus! {

// ---------------------------------------------------------------------------
// The history of a run
// ---------------------------------------------------------------------------

/// What happens at a step of a run: the event, the message that was stored, if one was,
/// and the time.
pub struct Beat {
    pub event: EventView,
    pub stored: MessageView,
    pub ts: Seq<char>,
}

/// A run and what has come of it.
#[verifier::ext_equal]
pub struct History {
    pub run: RunView,
    /// What the run has asked for last.
    pub asked: ActionView,
    /// The conversation before the first turn.
    pub before: Seq<MessageView>,
    /// What was taken into the conversation from the start of each turn on.
    pub rounds: Seq<Seq<MessageView>>,
    /// What the model was sent.
    pub requests: Seq<TurnRequestView>,
    /// What the model responded.
    pub replies: Seq<Seq<BlockView>>,
}

/// The messages of some rounds, in order.
pub open spec fn messages_of(rounds: Seq<Seq<MessageView>>) -> Seq<MessageView>
    decreases rounds.len(),
{
    if rounds.len() == 0 {
        Seq::empty()
    } else {
        messages_of(rounds.drop_last()) + rounds.last()
    }
}

impl History {
    /// The conversation as it is.
    pub open spec fn conversation(self) -> Seq<MessageView> {
        self.before + messages_of(self.rounds)
    }
}

/// The messages that actions take into the conversation.
pub open spec fn taken_in(actions: Seq<ActionView>, stored: MessageView) -> Seq<MessageView>
    decreases actions.len(),
{
    if actions.len() == 0 {
        Seq::empty()
    } else if actions.last() is Push {
        taken_in(actions.drop_last(), stored).push(stored)
    } else {
        taken_in(actions.drop_last(), stored)
    }
}

/// The requests that actions send to the model.
pub open spec fn requests_in(actions: Seq<ActionView>) -> Seq<TurnRequestView>
    decreases actions.len(),
{
    if actions.len() == 0 {
        Seq::empty()
    } else {
        match actions.last() {
            ActionView::Start { request } => requests_in(actions.drop_last()).push(request),
            _ => requests_in(actions.drop_last()),
        }
    }
}

/// Whether what the run has asked for succeeds: the conversation is loaded as it is, the
/// turn starts, and what is stored is stored. A turn may still break off, and a tool
/// fail.
pub open spec fn succeeds(h: History, beat: Beat) -> bool {
    match h.asked {
        ActionView::Load => beat.event == EventView::Loaded(h.conversation()),
        ActionView::Start { .. } => beat.event is Started,
        ActionView::Next => beat.event is Item || beat.event is ItemFailed || beat.event
            is ItemsEnded,
        ActionView::Finish => beat.event is Finished,
        ActionView::Save { role, content, meta } => beat.event matches EventView::Saved(m)
            && beat.stored.id == m.id && beat.stored.role == role && beat.stored.content == content
            && beat.stored.meta == meta,
        ActionView::RunTool { .. } => beat.event is ToolDone,
        ActionView::Discover { .. } => beat.event is Found,
        ActionView::Checkpoint => beat.event is Checkpointed,
        _ => false,
    }
}

/// The history after another step of a run that is not cancelled.
pub open spec fn told(h: History, beat: Beat) -> History {
    let r = advanced(h.run, beat.event, false, beat.ts);
    let taken = taken_in(r.1, beat.stored);
    let sent = requests_in(r.1);
    History {
        run: r.0,
        asked: if r.1.len() > 0 {
            r.1.last()
        } else {
            h.asked
        },
        before: if h.rounds.len() == 0 {
            h.before + taken
        } else {
            h.before
        },
        rounds: (if h.rounds.len() == 0 {
            h.rounds
        } else {
            h.rounds.drop_last().push(h.rounds.last() + taken)
        }) + Seq::new(sent.len(), |i: int| Seq::<MessageView>::empty()),
        requests: h.requests + sent,
        replies: match beat.event {
            EventView::Finished { content, .. } => h.replies.push(content),
            _ => h.replies,
        },
    }
}

/// The history after several steps.
pub open spec fn told_all(h: History, beats: Seq<Beat>) -> History
    decreases beats.len(),
{
    if beats.len() == 0 {
        h
    } else {
        told(told_all(h, beats.drop_last()), beats.last())
    }
}

/// Whether all that the run asks for succeeds.
pub open spec fn all_succeed(h: History, beats: Seq<Beat>) -> bool
    decreases beats.len(),
{
    beats.len() > 0 ==> all_succeed(h, beats.drop_last()) && succeeds(
        told_all(h, beats.drop_last()),
        beats.last(),
    )
}

/// Whether a run has just been started, on a conversation or with a message for it.
pub open spec fn just_started(h: History) -> bool {
    &&& h.rounds.len() == 0
    &&& h.requests.len() == 0
    &&& h.replies.len() == 0
    &&& h.run.step is Loading && h.asked is Load || h.run.step is Prompting && h.asked is Save
}

/// Whether a round begins with the response to its turn.
pub open spec fn holds_reply(round: Seq<MessageView>, reply: Seq<BlockView>) -> bool {
    &&& round.len() > 0
    &&& round[0].role == Role::Assistant
    &&& reply.is_prefix_of(round[0].content)
    &&& calls_in(round[0].content) == calls_in(reply)
}

/// Whether a round is complete: the response asks for tools, and is followed by the
/// results of all its calls. In the server context files may follow.
pub open spec fn complete(round: Seq<MessageView>, reply: Seq<BlockView>, host: Host) -> bool {
    &&& holds_reply(round, reply)
    &&& calls_in(reply).len() > 0
    &&& round.len() >= 2
    &&& host != Host::Server ==> round.len() == 2
    &&& round[1].role == Role::User
    &&& answered_ids(round[1].content) == call_ids(calls_in(reply))
}

/// What every request holds: the same system prompt, and the conversation up to its turn.
pub open spec fn requests_right(h: History) -> bool {
    forall|i: int|
        0 <= i < h.requests.len() ==> #[trigger] h.requests[i] == turn_request(
            h.run.setup,
            system_prompt(h.before, default_prompt(h.run.setup)),
            h.before + messages_of(h.rounds.take(i)),
        )
}

/// Whether all rounds but the last are complete.
pub open spec fn rounds_right(h: History) -> bool {
    forall|i: int|
        0 <= i < h.rounds.len() - 1 ==> complete(
            #[trigger] h.rounds[i],
            h.replies[i],
            h.run.setup.host,
        )
}

/// How far the last round is, by what the run waits for.
pub open spec fn last_round_right(h: History) -> bool {
    let n = h.requests.len();
    match h.run.step {
        StepView::Prompting => n == 0 && h.replies.len() == 0,
        StepView::Loading => n == 0 && h.replies.len() == 0,
        StepView::Starting => n > 0 && h.replies.len() == n - 1 && h.rounds.last().len() == 0,
        StepView::Streaming => n > 0 && h.replies.len() == n - 1 && h.rounds.last().len() == 0,
        StepView::Finishing { .. } => n > 0 && h.replies.len() == n - 1 && h.rounds.last().len()
            == 0,
        StepView::SavingReply { calls, .. } => {
            &&& n > 0
            &&& h.replies.len() == n
            &&& h.rounds.last().len() == 0
            &&& calls == calls_in(h.replies.last())
            &&& h.asked matches ActionView::Save { role, content, .. } && role == Role::Assistant
                && h.replies.last().is_prefix_of(content) && calls_in(content) == calls
        },
        StepView::Looking { calls, .. } => tools_run(h, calls),
        StepView::Running { calls, .. } => tools_run(h, calls),
        StepView::SavingResults { calls } => tools_run(h, calls) && stores_answers(
            seq![h.asked],
            calls,
        ),
        StepView::Discovering => round_over(h) && h.run.setup.host == Host::Server,
        StepView::SavingContext => round_over(h) && h.run.setup.host == Host::Server,
        StepView::Checkpointing => round_over(h) && h.run.setup.host == Host::Server,
        StepView::Reloading => round_over(h),
        StepView::Closing => run_over(h),
        StepView::Ended => run_over(h),
        _ => false,
    }
}

/// While tools run, the last round holds the response that asks for them.
pub open spec fn tools_run(h: History, calls: Seq<CallView>) -> bool {
    &&& h.requests.len() > 0
    &&& h.replies.len() == h.requests.len()
    &&& h.rounds.last().len() == 1
    &&& holds_reply(h.rounds.last(), h.replies.last())
    &&& calls == calls_in(h.replies.last())
    &&& calls.len() > 0
}

/// Between turns the last round is complete.
pub open spec fn round_over(h: History) -> bool {
    &&& h.requests.len() > 0
    &&& h.replies.len() == h.requests.len()
    &&& complete(h.rounds.last(), h.replies.last(), h.run.setup.host)
}

/// When the run is over, the last response asks for nothing.
pub open spec fn run_over(h: History) -> bool {
    &&& h.requests.len() > 0
    &&& h.replies.len() == h.requests.len()
    &&& h.rounds.last().len() == 1
    &&& holds_reply(h.rounds.last(), h.replies.last())
    &&& calls_in(h.replies.last()).len() == 0
}

/// What holds all through a run.
pub open spec fn history_right(h: History) -> bool {
    &&& answers_kept(h.run.step)
    &&& awaited(h.run.step, h.asked)
    &&& h.rounds.len() == h.requests.len()
    &&& h.requests.len() > 0 ==> h.run.prompt == system_prompt(
        h.before,
        default_prompt(h.run.setup),
    )
    &&& requests_right(h)
    &&& rounds_right(h)
    &&& last_round_right(h)
}

// ---------------------------------------------------------------------------
// Proof
// ---------------------------------------------------------------------------

proof fn lemma_nothing_taken(actions: Seq<ActionView>, stored: MessageView)
    requires
        forall|i: int| 0 <= i < actions.len() ==> !(#[trigger] actions[i] is Push),
    ensures
        taken_in(actions, stored).len() == 0,
    decreases actions.len(),
{
    if actions.len() > 0 {
        assert(!(actions[actions.len() - 1] is Push));
        lemma_nothing_taken(actions.drop_last(), stored);
    }
}

proof fn lemma_one_taken(actions: Seq<ActionView>, stored: MessageView)
    requires
        actions.len() > 0,
        actions[0] is Push,
        forall|i: int| 1 <= i < actions.len() ==> !(#[trigger] actions[i] is Push),
    ensures
        taken_in(actions, stored) == seq![stored],
    decreases actions.len(),
{
    if actions.len() == 1 {
        assert(taken_in(actions.drop_last(), stored) =~= Seq::empty());
        assert(taken_in(actions, stored) =~= seq![stored]);
    } else {
        assert(!(actions[actions.len() - 1] is Push));
        lemma_one_taken(actions.drop_last(), stored);
    }
}

proof fn lemma_nothing_sent(actions: Seq<ActionView>)
    requires
        forall|i: int| 0 <= i < actions.len() ==> !(#[trigger] actions[i] is Start),
    ensures
        requests_in(actions).len() == 0,
    decreases actions.len(),
{
    if actions.len() > 0 {
        assert(!(actions[actions.len() - 1] is Start));
        lemma_nothing_sent(actions.drop_last());
    }
}

/// Where nothing is sent, the rounds before the last and all requests stay.
proof fn lemma_unsent(h: History, beat: Beat)
    requires
        history_right(h),
        requests_in(advanced(h.run, beat.event, false, beat.ts).1).len() == 0,
        h.rounds.len() == 0 ==> h.requests.len() == 0,
    ensures
        ({
            let next = told(h, beat);
            let taken = taken_in(advanced(h.run, beat.event, false, beat.ts).1, beat.stored);
            &&& next.requests == h.requests
            &&& next.rounds.len() == h.rounds.len()
            &&& h.rounds.len() > 0 ==> next.before == h.before && next.rounds.last()
                == h.rounds.last() + taken
            &&& forall|i: int|
                0 <= i < h.rounds.len() - 1 ==> #[trigger] next.rounds[i] == h.rounds[i]
            &&& requests_right(next)
            &&& next.run.setup == h.run.setup
        }),
{
    let next = told(h, beat);
    assert(next.requests =~= h.requests);
    assert forall|i: int| 0 <= i < next.requests.len() implies #[trigger] next.requests[i]
        == turn_request(
        next.run.setup,
        system_prompt(next.before, default_prompt(next.run.setup)),
        next.before + messages_of(next.rounds.take(i)),
    ) by {
        assert(h.requests[i] == next.requests[i]);
        assert(next.rounds.take(i) =~= h.rounds.take(i));
    }
}

#[verifier::rlimit(60)]
proof fn lemma_told(h: History, beat: Beat)
    requires
        history_right(h),
        succeeds(h, beat),
        h.run.setup.host != Host::Single,
    ensures
        history_right(told(h, beat)),
        told(h, beat).run.setup == h.run.setup,
{
    let r = advanced(h.run, beat.event, false, beat.ts);
    let next = told(h, beat);
    law_every_call_answered(h.run, beat.event, false, beat.ts);
    law_stored_messages_are_kept(h.run, beat.event, false, beat.ts);
    lemma_starts_when_loaded(h.run, beat.event, false, beat.ts);
    match (h.run.step, beat.event) {
        (StepView::Loading, EventView::Loaded(messages)) => {
            lemma_loaded(h, beat, messages);
        },
        (StepView::Reloading, EventView::Loaded(messages)) => {
            lemma_loaded(h, beat, messages);
        },
        _ => {
            lemma_nothing_sent(r.1);
            lemma_unsent(h, beat);
            if beat.event is Saved {
                lemma_one_taken(r.1, beat.stored);
            } else {
                lemma_nothing_taken(r.1, beat.stored);
            }
            let taken = taken_in(r.1, beat.stored);
            match (h.run.step, beat.event) {
                (StepView::Finishing { broken }, EventView::Finished { content, usage }) => {
                    let error = BlockView::Error { text: broken->0 };
                    assert(content.push(error).drop_last() =~= content);
                    assert(next.rounds.last() =~= h.rounds.last());
                    assert(rounds_right(next)) by {
                        assert forall|i: int| 0 <= i < next.rounds.len() - 1 implies complete(
                            #[trigger] next.rounds[i],
                            next.replies[i],
                            next.run.setup.host,
                        ) by {
                            assert(complete(h.rounds[i], h.replies[i], h.run.setup.host));
                        }
                    }
                },
                (StepView::SavingReply { calls, has_text }, EventView::Saved(m)) => {
                    assert(next.rounds.last() =~= seq![beat.stored]);
                    lemma_calls_step(h.run.setup, calls, 0, false, Seq::empty(), false);
                    assert(calls.take(0) =~= Seq::empty());
                    assert(call_ids(calls.take(0)) =~= Seq::empty());
                    lemma_calls_from(h.run.setup, calls, 0, false, Seq::empty(), false);
                    lemma_rounds_stay(h, beat);
                },
                (StepView::Looking { calls, next: k, results }, EventView::Found { files, .. }) => {
                    let fresh = unseen(files, h.run.seen);
                    let block = BlockView::Text { text: discovery_text(fresh) };
                    assert(results.push(block).drop_last() =~= results);
                    let more = if fresh.len() == 0 {
                        results
                    } else {
                        results.push(block)
                    };
                    lemma_calls_step(h.run.setup, calls, k, true, more, false);
                    lemma_calls_from(h.run.setup, calls, k, true, more, false);
                    assert(next.rounds.last() =~= h.rounds.last());
                    lemma_rounds_stay(h, beat);
                },
                (StepView::Running { calls, next: k, results }, EventView::ToolDone(out)) => {
                    let block = call_result(calls[k as int], out);
                    let more = results.push(block);
                    lemma_calls_step(h.run.setup, calls, k + 1, false, more, false);
                    assert(more.drop_last() =~= results);
                    assert(call_ids(calls.take((k + 1) as int)) =~= call_ids(
                        calls.take(k as int),
                    ).push(calls[k as int].id));
                    lemma_calls_from(h.run.setup, calls, k + 1, false, more, false);
                    assert(next.rounds.last() =~= h.rounds.last());
                    lemma_rounds_stay(h, beat);
                },
                (StepView::SavingResults { calls }, EventView::Saved(m)) => {
                    assert(next.rounds.last() =~= h.rounds.last().push(beat.stored));
                    lemma_rounds_stay(h, beat);
                },
                (StepView::SavingContext, EventView::Saved(m)) => {
                    assert(next.rounds.last() =~= h.rounds.last().push(beat.stored));
                    lemma_rounds_stay(h, beat);
                },
                _ => {
                    if h.rounds.len() > 0 {
                        assert(next.rounds.last() =~= h.rounds.last());
                    }
                    lemma_rounds_stay(h, beat);
                },
            }
        },
    }
}

/// Where no response comes, the rounds before the last stay complete.
proof fn lemma_rounds_stay(h: History, beat: Beat)
    requires
        history_right(h),
        requests_in(advanced(h.run, beat.event, false, beat.ts).1).len() == 0,
        !(beat.event is Finished),
    ensures
        rounds_right(told(h, beat)),
{
    lemma_unsent(h, beat);
    let next = told(h, beat);
    assert forall|i: int| 0 <= i < next.rounds.len() - 1 implies complete(
        #[trigger] next.rounds[i],
        next.replies[i],
        next.run.setup.host,
    ) by {
        assert(complete(h.rounds[i], h.replies[i], h.run.setup.host));
    }
}

/// A conversation that is loaded is sent to the model.
proof fn lemma_loaded(h: History, beat: Beat, messages: Seq<MessageView>)
    requires
        history_right(h),
        succeeds(h, beat),
        h.run.setup.host != Host::Single,
        h.run.step is Loading || h.run.step is Reloading,
        beat.event == EventView::Loaded(messages),
    ensures
        history_right(told(h, beat)),
        told(h, beat).run.setup == h.run.setup,
{
    let r = advanced(h.run, beat.event, false, beat.ts);
    let next = told(h, beat);
    let n = h.requests.len();
    assert(messages == h.conversation());
    lemma_nothing_taken(r.1, beat.stored);
    let taken = taken_in(r.1, beat.stored);
    let request = turn_request(h.run.setup, r.0.prompt, messages);
    assert(r.1 =~= seq![ActionView::Start { request }]);
    reveal_with_fuel(requests_in, 2);
    assert(requests_in(r.1) =~= seq![request]);
    assert(next.before =~= h.before);
    assert(next.requests =~= h.requests.push(request));
    if n > 0 {
        assert(h.rounds.last() + taken =~= h.rounds.last());
        assert(h.rounds.drop_last().push(h.rounds.last()) =~= h.rounds);
    }
    assert(next.rounds =~= h.rounds.push(Seq::empty()));
    assert(next.rounds.take(n as int) =~= h.rounds);
    if n == 0 {
        assert(messages_of(h.rounds) =~= Seq::empty());
        assert(h.conversation() =~= h.before);
    }
    assert forall|i: int| 0 <= i < next.requests.len() implies #[trigger] next.requests[i]
        == turn_request(
        next.run.setup,
        system_prompt(next.before, default_prompt(next.run.setup)),
        next.before + messages_of(next.rounds.take(i)),
    ) by {
        if i < n {
            assert(h.requests[i] == next.requests[i]);
            assert(next.rounds.take(i) =~= h.rounds.take(i));
        }
    }
    assert forall|i: int| 0 <= i < next.rounds.len() - 1 implies complete(
        #[trigger] next.rounds[i],
        next.replies[i],
        next.run.setup.host,
    ) by {
        if i < n - 1 {
            assert(complete(h.rounds[i], h.replies[i], h.run.setup.host));
        } else {
            assert(next.rounds[i] == h.rounds.last());
        }
    }
}

proof fn lemma_told_all(h: History, beats: Seq<Beat>)
    requires
        just_started(h),
        all_succeed(h, beats),
        h.run.setup.host != Host::Single,
    ensures
        history_right(told_all(h, beats)),
        told_all(h, beats).run.setup == h.run.setup,
    decreases beats.len(),
{
    if beats.len() > 0 {
        lemma_told_all(h, beats.drop_last());
        lemma_told(told_all(h, beats.drop_last()), beats.last());
    }
}

// ---------------------------------------------------------------------------
// The law
// ---------------------------------------------------------------------------

/// Of a run that loops, is not cancelled, and in which all that it asks for succeeds,
/// once it has ended: the model was sent as many requests as there are responses up to
/// the first that asks for no tool. Every request has the same system prompt, that of the
/// conversation before the first turn, and holds that conversation and all rounds so far,
/// each a response followed by the results of its calls.
pub proof fn law_whole_run(start: History, beats: Seq<Beat>)
    requires
        just_started(start),
        start.run.setup.host != Host::Single,
        all_succeed(start, beats),
        told_all(start, beats).run.step is Ended,
    ensures
        ({
            let h = told_all(start, beats);
            let n = h.requests.len();
            &&& n > 0
            &&& h.replies.len() == n
            &&& h.rounds.len() == n
            &&& calls_in(h.replies[n - 1]).len() == 0
            &&& forall|i: int| 0 <= i < n - 1 ==> calls_in(#[trigger] h.replies[i]).len() > 0
            &&& forall|i: int|
                0 <= i < n ==> #[trigger] h.requests[i] == turn_request(
                    start.run.setup,
                    system_prompt(h.before, default_prompt(start.run.setup)),
                    h.before + messages_of(h.rounds.take(i)),
                )
            &&& forall|i: int|
                0 <= i < n - 1 ==> complete(
                    #[trigger] h.rounds[i],
                    h.replies[i],
                    start.run.setup.host,
                )
            &&& holds_reply(h.rounds[n - 1], h.replies[n - 1])
        }),
{
    lemma_told_all(start, beats);
    let h = told_all(start, beats);
    let n = h.requests.len();
    assert forall|i: int| 0 <= i < n - 1 implies calls_in(#[trigger] h.replies[i]).len() > 0 by {
        assert(complete(h.rounds[i], h.replies[i], h.run.setup.host));
    }
}

/// All through such a run, every request so far holds the conversation as it was when
/// the turn started, under one system prompt.
pub proof fn law_requests_hold_the_conversation(start: History, beats: Seq<Beat>)
    requires
        just_started(start),
        start.run.setup.host != Host::Single,
        all_succeed(start, beats),
    ensures
        requests_right(told_all(start, beats)),
        rounds_right(told_all(start, beats)),
        told_all(start, beats).rounds.len() == told_all(start, beats).requests.len(),
{
    lemma_told_all(start, beats);
}

} // verus!
