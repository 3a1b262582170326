//! Shutting the server down without losing the work of running agents.
use vstd::prelude::*;

verus! {

/// The exit code of an ordinary shutdown.
pub const NORMAL_CODE: i32 = 0;

/// The exit code that asks the supervisor for a restart.
pub const UPDATE_CODE: i32 = 42;

/// The exit code of a shutdown that was forced.
pub const FORCED_CODE: i32 = 1;

/// How far a shutdown has come.
#[derive(Debug, Clone, Copy, PartialEq, Eq, Structural)]
pub enum Shutdown {
    /// None has been asked for.
    Serving,
    /// Running agents are waited for; the server will exit with `code`.
    Draining { code: i32 },
    Done,
}

#[derive(Debug, Clone, Copy, PartialEq, Eq, Structural)]
pub enum Signal {
    /// The user interrupted the server.
    Interrupt,
    /// A restart into a new build was requested.
    Update,
    /// The supervisor is gone.
    SupervisorGone,
    /// No agent is running any more.
    Drained,
}

#[derive(Debug, Clone, Copy, PartialEq, Eq, Structural)]
pub enum Reaction {
    Nothing,
    /// Take note of no more than the agents that run, and wait for them.
    Drain,
    /// Exit at once.
    Exit(i32),
    /// End the event streams, and exit at once.
    EndStreamsAndExit(i32),
    /// End the event streams, and let open connections finish.
    EndStreamsAndStop,
}

/// What a signal leads to. The server keeps working until it is drained; a second
/// interrupt forces it to exit.
pub open spec fn reacted(state: Shutdown, signal: Signal) -> (Shutdown, Reaction) {
    match (state, signal) {
        (Shutdown::Serving, Signal::Interrupt) => (
            Shutdown::Draining { code: NORMAL_CODE },
            Reaction::Drain,
        ),
        (Shutdown::Serving, Signal::Update) => (
            Shutdown::Draining { code: UPDATE_CODE },
            Reaction::Drain,
        ),
        (Shutdown::Serving, Signal::SupervisorGone) => (
            Shutdown::Draining { code: NORMAL_CODE },
            Reaction::Drain,
        ),
        (Shutdown::Draining { .. }, Signal::Interrupt) => (
            Shutdown::Done,
            Reaction::Exit(FORCED_CODE),
        ),
        (Shutdown::Draining { code }, Signal::Drained) => (
            Shutdown::Done,
            if code == UPDATE_CODE {
                Reaction::EndStreamsAndExit(UPDATE_CODE)
            } else {
                Reaction::EndStreamsAndStop
            },
        ),
        _ => (state, Reaction::Nothing),
    }
}

pub fn react(state: Shutdown, signal: Signal) -> (r: (Shutdown, Reaction))
    ensures
        r == reacted(state, signal),
{
    match (state, signal) {
        (Shutdown::Serving, Signal::Interrupt) => {
            (Shutdown::Draining { code: NORMAL_CODE }, Reaction::Drain)
        },
        (Shutdown::Serving, Signal::Update) => {
            (Shutdown::Draining { code: UPDATE_CODE }, Reaction::Drain)
        },
        (Shutdown::Serving, Signal::SupervisorGone) => {
            (Shutdown::Draining { code: NORMAL_CODE }, Reaction::Drain)
        },
        (Shutdown::Draining { .. }, Signal::Interrupt) => {
            (Shutdown::Done, Reaction::Exit(FORCED_CODE))
        },
        (Shutdown::Draining { code }, Signal::Drained) => {
            if code == UPDATE_CODE {
                (Shutdown::Done, Reaction::EndStreamsAndExit(UPDATE_CODE))
            } else {
                (Shutdown::Done, Reaction::EndStreamsAndStop)
            }
        },
        _ => (state, Reaction::Nothing),
    }
}

/// A state that a server gets into.
pub open spec fn valid(state: Shutdown) -> bool {
    match state {
        Shutdown::Draining { code } => code == NORMAL_CODE || code == UPDATE_CODE,
        _ => true,
    }
}

/// Running agents are never cut off, but for a second interrupt: any other way to
/// stop comes after they have finished.
pub proof fn law_agents_finish_first(state: Shutdown, signal: Signal)
    requires
        valid(state),
    ensures
        valid(reacted(state, signal).0),
        match reacted(state, signal).1 {
            Reaction::Exit(code) => state is Draining && signal == Signal::Interrupt && code
                == FORCED_CODE,
            Reaction::EndStreamsAndExit(code) => signal == Signal::Drained && state == (
            Shutdown::Draining { code: UPDATE_CODE }) && code == UPDATE_CODE,
            Reaction::EndStreamsAndStop => signal == Signal::Drained && state == (
            Shutdown::Draining { code: NORMAL_CODE }),
            _ => true,
        },
{
}

/// The server asks for a restart only if one was requested first: what the first
/// signal was decides how it exits.
pub proof fn law_first_signal_decides(signal: Signal)
    requires
        signal != Signal::Drained,
    ensures
        reacted(reacted(Shutdown::Serving, signal).0, Signal::Drained).1 == if signal
            == Signal::Update {
            Reaction::EndStreamsAndExit(UPDATE_CODE)
        } else {
            Reaction::EndStreamsAndStop
        },
{
}

/// A server that is told to stop waits for its agents, and further signals but an interrupt
/// change nothing until they have finished; then it stops, or exits with the code that asks
/// for a restart. A server that is not told to stop goes on.
pub proof fn law_server_waits_until_drained(state: Shutdown, signal: Signal)
    ensures
        state is Serving && signal != Signal::Drained ==> reacted(state, signal).0 is Draining
            && reacted(state, signal).1 == Reaction::Drain,
        reacted(Shutdown::Serving, Signal::Drained) == (Shutdown::Serving, Reaction::Nothing),
        reacted(Shutdown::Serving, Signal::Update).0 == (Shutdown::Draining { code: 42 }),
        reacted(Shutdown::Serving, Signal::Interrupt).0 == (Shutdown::Draining { code: 0 }),
        reacted(Shutdown::Serving, Signal::SupervisorGone).0 == (Shutdown::Draining { code: 0 }),
        state is Draining && (signal == Signal::Update || signal == Signal::SupervisorGone)
            ==> reacted(state, signal) == (state, Reaction::Nothing),
        state is Draining && signal == Signal::Interrupt ==> reacted(state, signal) == (
            Shutdown::Done,
            Reaction::Exit(1),
        ),
        state is Draining && signal == Signal::Drained ==> reacted(state, signal).0 is Done,
        reacted(Shutdown::Draining { code: 42 }, Signal::Drained).1
            == Reaction::EndStreamsAndExit(42),
        reacted(Shutdown::Draining { code: 0 }, Signal::Drained).1 == Reaction::EndStreamsAndStop,
        state is Done ==> reacted(state, signal) == (state, Reaction::Nothing),
{
}

} // verus!
