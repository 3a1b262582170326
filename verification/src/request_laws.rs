//! What holds of requests about sessions over the values that they are made with.
use crate::model::{
    law_role_names, law_thinking_names, role_name, role_named, thinking_name, thinking_named,
    thinking_request, Role, ThinkingLevel,
};
use crate::requests::{
    announces_update, begun, conversation, filled, made_session, no_such_session, provider_models,
    requested_thinking, session_of_header, setup_plan, template_depth, usable_models, Ancestor,
    ModelInfoView, Provider, SetupPlanView,
};
use crate::sessions::{line_ids, AppErrorView, HeaderView, SessionView};
use crate::text_laws::{blank, law_trim_takes_white_space, law_trimmed_text};
use vstd::prelude::*;

verus! {

// ---------------------------------------------------------------------------
// Sessions
// ---------------------------------------------------------------------------

/// A session that is read from its file is what its header says, under the id of the file;
/// only where the header names no directory does the other one count. It is idle.
pub proof fn law_headers_give_their_sessions(
    id: Seq<char>,
    header: HeaderView,
    fallback: Seq<char>,
    messages: Seq<Seq<char>>,
)
    ensures
        ({
            let session = session_of_header(id, header, fallback, messages);
            &&& session.file_id == id
            &&& session.name == header.session
            &&& session.ts == header.ts
            &&& session.parent == header.parent
            &&& header.cwd is Some ==> session.cwd == header.cwd->0
            &&& header.cwd is None ==> session.cwd == fallback
            &&& session.message_ids == messages
            &&& !session.running
            &&& session.title_gen_seq == 0
        }),
{
}

/// A session that is made and one that is read from a header which says the same are the
/// same.
pub proof fn law_made_sessions_are_read_back(
    id: Seq<char>,
    name: Seq<char>,
    cwd: Seq<char>,
    ts: Seq<char>,
    parent: Option<Seq<char>>,
    messages: Seq<Seq<char>>,
    header: HeaderView,
    fallback: Seq<char>,
)
    requires
        header.session == name,
        header.ts == ts,
        header.cwd == Some(cwd),
        header.parent == parent,
    ensures
        session_of_header(id, header, fallback, messages) == made_session(
            id,
            name,
            cwd,
            ts,
            parent,
            messages,
        ),
{
}

/// The conversation of a session is that of its head, and that of its file only where it
/// has none.
pub proof fn law_heads_give_the_conversation(messages: Seq<Seq<char>>, lines: Seq<Seq<char>>)
    ensures
        conversation(Some(messages), lines) == messages,
        conversation(None, lines) == line_ids(lines),
{
}

/// A session that there is, in memory or on disk, is never made anew; one that there is not
/// is made under the id that was asked for.
pub proof fn law_sessions_are_not_made_twice(
    id: Seq<char>,
    running: Option<bool>,
    on_disk: bool,
)
    ensures
        setup_plan(Some(id), Some(false), on_disk) is Reuse,
        setup_plan(Some(id), Some(true), on_disk) == (SetupPlanView::Busy {
            error: "session '"@ + id + "' already has a running agent"@,
        }),
        setup_plan(Some(id), None, true) is Load,
        setup_plan(Some(id), None, false) == (SetupPlanView::Create { name: Some(id) }),
        setup_plan(None, running, on_disk) == (SetupPlanView::Create { name: None }),
{
}

/// A run that begins marks its session as running and changes nothing else; one that is
/// refused is told that another runs.
pub proof fn law_runs_keep_their_session(session: SessionView)
    ensures
        match begun(session) {
            Ok(next) => {
                &&& !session.running
                &&& next.running
                &&& next.message_ids == session.message_ids
                &&& next.cwd == session.cwd
                &&& next.name == session.name
                &&& next.ts == session.ts
                &&& next.file_id == session.file_id
                &&& next.parent == session.parent
                &&& next.title_gen_seq == session.title_gen_seq
            },
            Err(e) => session.running && e == AppErrorView::Conflict(
                "Agent loop is already running"@,
            ),
        },
{
}

/// A session that there is not is named in the error.
pub proof fn law_missing_sessions_are_named(id: Seq<char>)
    ensures
        no_such_session(id) == AppErrorView::NotFound("Session '"@ + id + "' not found"@),
{
}

// ---------------------------------------------------------------------------
// Names
// ---------------------------------------------------------------------------

/// The levels of thinking and the roles are called by these names, in both directions.
pub proof fn law_names_are_these()
    ensures
        thinking_name(ThinkingLevel::Off) == "off"@,
        thinking_name(ThinkingLevel::Low) == "low"@,
        thinking_name(ThinkingLevel::Medium) == "medium"@,
        thinking_name(ThinkingLevel::High) == "high"@,
        thinking_name(ThinkingLevel::XHigh) == "xhigh"@,
        role_name(Role::User) == "user"@,
        role_name(Role::Assistant) == "assistant"@,
        role_name(Role::System) == "system"@,
        forall|level: ThinkingLevel| thinking_named(#[trigger] thinking_name(level)) == Some(level),
        forall|role: Role| role_named(#[trigger] role_name(role)) == Some(role),
{
    assert forall|level: ThinkingLevel| thinking_named(#[trigger] thinking_name(level)) == Some(
        level,
    ) by {
        law_thinking_names(level, thinking_name(level));
    }
    assert forall|role: Role| role_named(#[trigger] role_name(role)) == Some(role) by {
        law_role_names(role, role_name(role));
    }
}

/// A flag on the command line counts before the settings, and without either thinking is
/// medium.
pub proof fn law_flags_win(flag: Seq<char>, setting: Option<Seq<char>>)
    ensures
        thinking_request(Some(flag), setting) == flag,
        setting is Some ==> thinking_request(None, setting) == setting->0,
        thinking_request(None, None) == thinking_name(ThinkingLevel::Medium),
{
}

/// A request that names a level gets that level; one that names none, or none that there
/// is, gets the default.
pub proof fn law_requested_levels_are_used(
    level: ThinkingLevel,
    default: ThinkingLevel,
    name: Seq<char>,
)
    ensures
        requested_thinking(Some(thinking_name(level)), default) == level,
        requested_thinking(None, default) == default,
        (forall|l: ThinkingLevel| name != #[trigger] thinking_name(l)) ==> requested_thinking(
            Some(name),
            default,
        ) == default,
{
    law_thinking_names(level, thinking_name(level));
    if forall|l: ThinkingLevel| name != #[trigger] thinking_name(l) {
        if let Some(l) = thinking_named(name) {
            law_thinking_names(l, name);
        }
    }
}

// ---------------------------------------------------------------------------
// Prompts and templates
// ---------------------------------------------------------------------------

/// A system prompt is put together of exactly its parts that say something, in their order.
pub proof fn law_prompts_keep_their_parts(parts: Seq<Seq<char>>)
    ensures
        filled(parts) == parts.filter(|p: Seq<char>| p.len() > 0),
    decreases parts.len(),
{
    reveal(Seq::filter);
    if parts.len() > 0 {
        law_prompts_keep_their_parts(parts.drop_last());
    }
}

/// Templates are looked for on the way up as far as the first directory that holds a
/// repository, and that one included; where there is none, all the way.
pub proof fn law_templates_stop_at_the_repository(dirs: Seq<Ancestor>, n: int)
    ensures
        0 <= n < dirs.len() && dirs[n].has_git && (forall|i: int|
            0 <= i < n ==> !(#[trigger] dirs[i]).has_git) ==> template_depth(dirs) == n + 1,
        (forall|i: int| 0 <= i < dirs.len() ==> !(#[trigger] dirs[i]).has_git) ==> template_depth(
            dirs,
        ) == dirs.len(),
    decreases dirs.len(),
{
    if dirs.len() > 0 {
        let rest = dirs.drop_first();
        assert(forall|i: int| 0 <= i < rest.len() ==> #[trigger] rest[i] == dirs[i + 1]);
        assert(dirs[0] == dirs.first());
        law_templates_stop_at_the_repository(rest, n - 1);
        if forall|i: int| 0 <= i < dirs.len() ==> !(#[trigger] dirs[i]).has_git {
            assert forall|i: int| 0 <= i < rest.len() implies !(#[trigger] rest[i]).has_git by {
                assert(rest[i] == dirs[i + 1]);
            }
        }
        if 0 < n < dirs.len() && dirs[n].has_git && (forall|i: int|
            0 <= i < n ==> !(#[trigger] dirs[i]).has_git) {
            assert(rest[n - 1] == dirs[n]);
            assert forall|i: int| 0 <= i < n - 1 implies !(#[trigger] rest[i]).has_git by {
                assert(rest[i] == dirs[i + 1]);
            }
        }
    }
}

// ---------------------------------------------------------------------------
// Models
// ---------------------------------------------------------------------------

/// Models are listed provider by provider, in order: those of a provider that can be used
/// all, each with that provider's id, and those of another not at all.
pub proof fn law_models_are_listed_by_provider(a: Seq<Provider>, b: Seq<Provider>, one: Provider)
    ensures
        usable_models(a + b) == usable_models(a) + usable_models(b),
        !one.authenticated ==> usable_models(seq![one]).len() == 0,
        one.authenticated ==> usable_models(seq![one]).len() == one.models@.len(),
        one.authenticated ==> forall|i: int|
            0 <= i < one.models@.len() ==> {
                let info = #[trigger] usable_models(seq![one])[i];
                &&& info.id == one.models@[i].id@
                &&& info.name == one.models@[i].name@
                &&& info.context_window == one.models@[i].context_window
                &&& info.provider == one.id@
            },
    decreases b.len(),
{
    if b.len() == 0 {
        assert(a + b =~= a);
        assert(usable_models(a) + usable_models(b) =~= usable_models(a));
    } else {
        assert((a + b).drop_last() =~= a + b.drop_last());
        assert((a + b).last() == b.last());
        law_models_are_listed_by_provider(a, b.drop_last(), one);
        assert(usable_models(a + b) =~= usable_models(a) + usable_models(b));
    }
    assert(seq![one].drop_last() =~= Seq::<Provider>::empty());
    assert(usable_models(seq![one].drop_last()) =~= Seq::<ModelInfoView>::empty());
    if one.authenticated {
        assert(usable_models(seq![one]) =~= provider_models(one));
    }
}

// ---------------------------------------------------------------------------
// Updates
// ---------------------------------------------------------------------------

/// A line announces an update where it is that word, with white space around it or without,
/// and no other line does.
pub proof fn law_updates_are_announced(before: Seq<char>, after: Seq<char>, line: Seq<char>)
    requires
        blank(before),
        blank(after),
    ensures
        announces_update(before + "update"@ + after),
        announces_update(line) ==> exists|a: Seq<char>, b: Seq<char>|
            #![trigger blank(a), blank(b)]
            blank(a) && blank(b) && line == a + "update"@ + b,
{
    reveal_strlit("update");
    law_trimmed_text(before, "update"@, after);
    law_trim_takes_white_space(line);
}

} // verus!
