//! Requests about sessions: opening, creating and running them.
use crate::json::{array_of_texts, object_of_one, opt_json, text_array, Json};
use crate::model::{
    parse_thinking, thinking_name, thinking_named, thinking_to_str, Message, ThinkingLevel,
};
use crate::sessions::{
    line_ids, read_session_message_ids, AppError, AppErrorView, HeaderView, SessionHeader,
    SessionState, SessionSummary, SessionView, SummaryView, DEFAULT_SESSION_NAME,
};
use crate::text::{
    clone_opt_text, group_views, join, joined, opt_text, opt_view, same, trim, trimmed, views,
};
use vstd::prelude::*;

verus! {

// ---------------------------------------------------------------------------
// Events for all clients
// ---------------------------------------------------------------------------

/// An event for every client, whatever session it looks at.
#[derive(Debug, Clone)]
pub enum GlobalEvent {
    /// A run has finished and the session awaits input.
    SessionDone {
        session_id: String,
        name: String,
        /// A short preview of the final response.
        preview: Option<String>,
        /// The session that started this one.
        parent: Option<String>,
    },
    /// A new build of the server is ready.
    UpdateAvailable,
}

pub enum GlobalEventView {
    SessionDone {
        session_id: Seq<char>,
        name: Seq<char>,
        preview: Option<Seq<char>>,
        parent: Option<Seq<char>>,
    },
    UpdateAvailable,
}

impl View for GlobalEvent {
    type V = GlobalEventView;

    open spec fn view(&self) -> GlobalEventView {
        match self {
            GlobalEvent::SessionDone { session_id, name, preview, parent } => {
                GlobalEventView::SessionDone {
                    session_id: session_id@,
                    name: name@,
                    preview: opt_view(*preview),
                    parent: opt_view(*parent),
                }
            },
            GlobalEvent::UpdateAvailable => GlobalEventView::UpdateAvailable,
        }
    }
}

// ---------------------------------------------------------------------------
// Opening
// ---------------------------------------------------------------------------

/// The error for a session that is neither in memory nor on disk.
pub open spec fn no_such_session(id: Seq<char>) -> AppErrorView {
    AppErrorView::NotFound("Session '"@ + id + "' not found"@)
}

pub fn session_not_found(id: &str) -> (r: AppError)
    ensures
        r@ == no_such_session(id@),
{
    let mut text = "Session '".to_string();
    text.append(id);
    text.append("' not found");
    AppError::NotFound(text)
}

/// The error for a session file without a first line.
pub fn empty_session_file() -> (r: AppError)
    ensures
        r@ == AppErrorView::NotFound("Empty session file"@),
{
    AppError::NotFound("Empty session file".to_string())
}

/// A session that is read from its file: what the header says, with a directory
/// to fall back on, and the given conversation. It is idle.
pub open spec fn session_of_header(
    id: Seq<char>,
    header: HeaderView,
    fallback_cwd: Seq<char>,
    message_ids: Seq<Seq<char>>,
) -> SessionView {
    SessionView {
        message_ids,
        cwd: match header.cwd {
            Some(c) => c,
            None => fallback_cwd,
        },
        name: header.session,
        ts: header.ts,
        file_id: id,
        parent: header.parent,
        running: false,
        title_gen_seq: 0,
    }
}

/// Take up a session of which the header is on disk.
pub fn session_from_header(
    id: &str,
    header: SessionHeader,
    fallback_cwd: &str,
    message_ids: Vec<String>,
) -> (r: SessionState)
    ensures
        r@ == session_of_header(id@, header@, fallback_cwd@, views(message_ids@)),
{
    SessionState {
        message_ids,
        cwd: match header.cwd {
            Some(c) => c,
            None => fallback_cwd.to_string(),
        },
        name: header.session,
        ts: header.ts,
        file_id: id.to_string(),
        parent: header.parent,
        running: false,
        title_gen_seq: 0,
    }
}

/// The conversation of a session on disk: that of its head context, else the
/// messages in its file.
pub open spec fn conversation(head: Option<Seq<Seq<char>>>, lines: Seq<Seq<char>>) -> Seq<
    Seq<char>,
> {
    match head {
        Some(ids) => ids,
        None => line_ids(lines),
    }
}

/// Load a session from disk. `head` holds the messages of its head context.
pub fn load_session(
    id: &str,
    header: SessionHeader,
    head: Option<Vec<String>>,
    lines: &Vec<String>,
) -> (r: SessionState)
    ensures
        r@ == session_of_header(
            id@,
            header@,
            "."@,
            conversation(
                match head {
                    Some(ids) => Some(views(ids@)),
                    None => None,
                },
                views(lines@),
            ),
        ),
{
    let ids = match head {
        Some(ids) => ids,
        None => read_session_message_ids(lines),
    };
    session_from_header(id, header, ".", ids)
}

// ---------------------------------------------------------------------------
// Setting up a session for a run
// ---------------------------------------------------------------------------

/// How to come by the session that a run is started on.
pub enum SetupPlan {
    /// The session has a run already.
    Busy { error: String },
    /// The session is in memory.
    Reuse,
    /// The session is on disk.
    Load,
    /// There is no such session; make one, under the given name if there is one.
    Create { name: Option<String> },
}

pub enum SetupPlanView {
    Busy { error: Seq<char> },
    Reuse,
    Load,
    Create { name: Option<Seq<char>> },
}

impl View for SetupPlan {
    type V = SetupPlanView;

    open spec fn view(&self) -> SetupPlanView {
        match self {
            SetupPlan::Busy { error } => SetupPlanView::Busy { error: error@ },
            SetupPlan::Reuse => SetupPlanView::Reuse,
            SetupPlan::Load => SetupPlanView::Load,
            SetupPlan::Create { name } => SetupPlanView::Create { name: opt_view(*name) },
        }
    }
}

/// A session that was asked for by id is looked for in memory, then on disk, and
/// made under that name where it is in neither; without an id a session is made.
pub open spec fn setup_plan(
    session_id: Option<Seq<char>>,
    running_in_memory: Option<bool>,
    on_disk: bool,
) -> SetupPlanView {
    match session_id {
        None => SetupPlanView::Create { name: None },
        Some(id) => match running_in_memory {
            Some(running) => if running {
                SetupPlanView::Busy {
                    error: "session '"@ + id + "' already has a running agent"@,
                }
            } else {
                SetupPlanView::Reuse
            },
            None => if on_disk {
                SetupPlanView::Load
            } else {
                SetupPlanView::Create { name: Some(id) }
            },
        },
    }
}

/// Decide how to come by the session for a run. `running` says whether the session with
/// the given id is in memory, and then whether it has a run.
pub fn plan_session(session_id: &Option<String>, running: Option<bool>, on_disk: bool) -> (r:
    SetupPlan)
    ensures
        r@ == setup_plan(opt_view(*session_id), running, on_disk),
{
    match session_id {
        None => SetupPlan::Create { name: None },
        Some(id) => match running {
            Some(true) => {
                let mut error = "session '".to_string();
                error.append(id.as_str());
                error.append("' already has a running agent");
                SetupPlan::Busy { error }
            },
            Some(false) => SetupPlan::Reuse,
            None => {
                if on_disk {
                    SetupPlan::Load
                } else {
                    SetupPlan::Create { name: Some(id.clone()) }
                }
            },
        },
    }
}

/// Decide how to come by the session for a run. `in_memory` is the session with
/// the given id in memory.
pub fn plan_setup(
    session_id: &Option<String>,
    in_memory: Option<&SessionState>,
    on_disk: bool,
) -> (r: SetupPlan)
    ensures
        r@ == setup_plan(
            opt_view(*session_id),
            match in_memory {
                Some(s) => Some(s@.running),
                None => None,
            },
            on_disk,
        ),
{
    let running = match in_memory {
        Some(session) => Some(session.is_running()),
        None => None,
    };
    plan_session(session_id, running, on_disk)
}

/// Give a session another conversation.
pub fn reseed(session: &mut SessionState, message_ids: Vec<String>)
    ensures
        final(session)@ == (SessionView { message_ids: views(message_ids@), ..old(session)@ }),
{
    session.message_ids = message_ids;
}

/// A session as it is made.
pub open spec fn made_session(
    id: Seq<char>,
    name: Seq<char>,
    cwd: Seq<char>,
    ts: Seq<char>,
    parent: Option<Seq<char>>,
    message_ids: Seq<Seq<char>>,
) -> SessionView {
    SessionView {
        message_ids,
        cwd,
        name,
        ts,
        file_id: id,
        parent,
        running: false,
        title_gen_seq: 0,
    }
}

/// Make the state of a session.
pub fn make_session(
    id: &str,
    name: &str,
    cwd: &str,
    ts: &str,
    parent: Option<String>,
    message_ids: Vec<String>,
) -> (r: SessionState)
    ensures
        r@ == made_session(id@, name@, cwd@, ts@, opt_view(parent), views(message_ids@)),
{
    SessionState {
        message_ids,
        cwd: cwd.to_string(),
        name: name.to_string(),
        ts: ts.to_string(),
        file_id: id.to_string(),
        parent,
        running: false,
        title_gen_seq: 0,
    }
}

/// Make the state of a session that begins now.
pub fn make_session_now(
    id: &str,
    name: &str,
    cwd: &str,
    parent: Option<String>,
    message_ids: Vec<String>,
) -> (r: SessionState)
    ensures
        exists|ts: Seq<char>|
            r@ == #[trigger] made_session(
                id@,
                name@,
                cwd@,
                ts,
                opt_view(parent),
                views(message_ids@),
            ),
{
    let ts = crate::clock::timestamp();
    make_session(id, name, cwd, ts.as_str(), parent, message_ids)
}

// ---------------------------------------------------------------------------
// Creating a session for a user
// ---------------------------------------------------------------------------

/// Refuse a working directory that is none.
pub fn check_directory(cwd: &str, is_dir: bool) -> (r: Result<(), AppError>)
    ensures
        match r {
            Ok(_) => is_dir,
            Err(e) => !is_dir && e@ == AppErrorView::BadRequest(
                "'"@ + cwd@ + "' is not a directory"@,
            ),
        },
{
    if is_dir {
        Ok(())
    } else {
        let mut text = "'".to_string();
        text.append(cwd);
        text.append("' is not a directory");
        Err(AppError::BadRequest(text))
    }
}

/// What the system prompt says of the session's surroundings.
pub fn environment_lines(id: &str, cwd: &str) -> (r: Vec<String>)
    ensures
        views(r@) == seq![
            "Session id for this Ri session: "@ + id@,
            "Working directory: "@ + cwd@,
        ],
{
    broadcast use group_views;

    let mut r: Vec<String> = Vec::new();
    r.push("Session id for this Ri session: ".to_string().concat(id));
    r.push("Working directory: ".to_string().concat(cwd));
    assert(views(r@) =~= seq![
        "Session id for this Ri session: "@ + id@,
        "Working directory: "@ + cwd@,
    ]);
    r
}

/// The parts that are not empty, in order.
pub open spec fn filled(parts: Seq<Seq<char>>) -> Seq<Seq<char>>
    decreases parts.len(),
{
    if parts.len() == 0 {
        Seq::empty()
    } else if parts.last().len() == 0 {
        filled(parts.drop_last())
    } else {
        filled(parts.drop_last()).push(parts.last())
    }
}

/// Put a system prompt together: its parts with an empty line between them,
/// without those that are empty.
#[verifier::loop_isolation(false)]
pub fn assemble_prompt(parts: &Vec<String>) -> (r: String)
    ensures
        r@ == joined(filled(views(parts@)), "\n\n"@),
{
    broadcast use group_views;

    let ghost all = views(parts@);
    let mut kept: Vec<String> = Vec::new();
    let mut i: usize = 0;
    while i < parts.len()
        invariant
            i <= parts.len(),
            views(kept@) == filled(all.take(i as int)),
        decreases parts.len() - i,
    {
        assert(all.take(i + 1).drop_last() =~= all.take(i as int));
        assert(all.take(i + 1).last() == parts@[i as int]@);
        if !parts[i].as_str().is_empty() {
            kept.push(parts[i].clone());
        }
        i += 1;
    }
    assert(all.take(i as int) =~= all);
    join(&kept, "\n\n")
}

/// The mark on a system message that shows context files.
pub fn prompt_meta(context_paths: &Vec<String>) -> (r: Option<serde_json::Value>)
    ensures
        opt_json(r) == if context_paths.len() == 0 {
            None
        } else {
            Some(Json::Object(map!["agents_context"@ => text_array(views(context_paths@))]))
        },
{
    if context_paths.len() == 0 {
        None
    } else {
        Some(object_of_one("agents_context", array_of_texts(context_paths)))
    }
}

/// What a client is told of a session that it has created: it holds one message.
pub fn created_summary(session: &SessionState) -> (r: SessionSummary)
    ensures
        r@ == (SummaryView {
            id: session@.file_id,
            name: session@.name,
            ts: session@.ts,
            cwd: session@.cwd,
            parent: session@.parent,
            message_count: 1,
        }),
{
    SessionSummary {
        id: session.file_id.clone(),
        name: session.name.clone(),
        ts: session.ts.clone(),
        cwd: session.cwd.clone(),
        parent: clone_opt_text(&session.parent),
        message_count: 1,
    }
}

/// What a client is told of a session, beside its messages.
pub struct SessionDetail {
    pub id: String,
    pub name: String,
    pub ts: String,
    pub cwd: String,
    pub parent: Option<String>,
    pub status: String,
}

pub fn session_detail(id: &str, session: &SessionState) -> (r: SessionDetail)
    ensures
        r.id@ == id@,
        r.name@ == session@.name,
        r.ts@ == session@.ts,
        r.cwd@ == session@.cwd,
        opt_view(r.parent) == session@.parent,
        r.status@ == if session@.running {
            "running"@
        } else {
            "idle"@
        },
{
    SessionDetail {
        id: id.to_string(),
        name: session.name.clone(),
        ts: session.ts.clone(),
        cwd: session.cwd.clone(),
        parent: clone_opt_text(&session.parent),
        status: session.status().to_string(),
    }
}

/// The session that a request creates: under the default name, with the system
/// message alone.
pub fn create_session(id: &str, cwd: &str, system_message: String) -> (r: SessionState)
    ensures
        exists|ts: Seq<char>|
            r@ == #[trigger] made_session(
                id@,
                DEFAULT_SESSION_NAME@,
                cwd@,
                ts,
                None,
                seq![system_message@],
            ),
{
    broadcast use group_views;

    let mut ids: Vec<String> = Vec::new();
    ids.push(system_message);
    assert(views(ids@) =~= seq![system_message@]);
    make_session_now(id, DEFAULT_SESSION_NAME, cwd, None, ids)
}

// ---------------------------------------------------------------------------
// Sending a message
// ---------------------------------------------------------------------------

/// The model and the thinking level for a run.
pub struct RunPlan {
    pub model: String,
    pub thinking: ThinkingLevel,
}

/// The level that a request names, else the default. A name that is not known
/// counts as none.
pub open spec fn requested_thinking(
    thinking: Option<Seq<char>>,
    default_thinking: ThinkingLevel,
) -> ThinkingLevel {
    match thinking {
        Some(t) => match thinking_named(t) {
            Some(level) => level,
            None => default_thinking,
        },
        None => default_thinking,
    }
}

pub fn choose_thinking(thinking: Option<&str>, default_thinking: ThinkingLevel) -> (r:
    ThinkingLevel)
    ensures
        r == requested_thinking(opt_text(thinking), default_thinking),
{
    match thinking {
        Some(t) => match parse_thinking(t) {
            Some(level) => level,
            None => default_thinking,
        },
        None => default_thinking,
    }
}

pub open spec fn run_conflict() -> AppErrorView {
    AppErrorView::Conflict("Agent loop is already running"@)
}

/// Plan the run that a message starts. A session runs one at a time.
pub fn plan_message(
    session: &SessionState,
    model: Option<String>,
    thinking: Option<&str>,
    default_model: &str,
    default_thinking: ThinkingLevel,
) -> (r: Result<RunPlan, AppError>)
    ensures
        match r {
            Ok(plan) => !session@.running && plan.model@ == (match model {
                Some(m) => m@,
                None => default_model@,
            }) && plan.thinking == requested_thinking(opt_text(thinking), default_thinking),
            Err(e) => session@.running && e@ == run_conflict(),
        },
{
    if session.is_running() {
        return Err(AppError::Conflict("Agent loop is already running".to_string()));
    }
    let model = match model {
        Some(m) => m,
        None => default_model.to_string(),
    };
    Ok(RunPlan { model, thinking: choose_thinking(thinking, default_thinking) })
}

/// The error for a model that could not be resolved.
pub fn model_refused(error: &str) -> (r: AppError)
    ensures
        r@ == AppErrorView::BadRequest(error@),
{
    AppError::BadRequest(error.to_string())
}

/// A session on which a run begins; refused where one is active.
pub open spec fn begun(session: SessionView) -> Result<SessionView, AppErrorView> {
    if session.running {
        Err(run_conflict())
    } else {
        Ok(SessionView { running: true, ..session })
    }
}

/// Mark a session as running, unless it is.
pub fn begin_run(session: &mut SessionState) -> (r: Result<(), AppError>)
    ensures
        match r {
            Ok(_) => begun(old(session)@) == Ok::<SessionView, AppErrorView>(final(session)@),
            Err(e) => begun(old(session)@) == Err::<SessionView, AppErrorView>(e@)
                && final(session)@ == old(session)@,
        },
{
    if session.is_running() {
        Err(AppError::Conflict("Agent loop is already running".to_string()))
    } else {
        session.running = true;
        Ok(())
    }
}

/// A session runs one agent at a time: while one runs no other begins, whoever asks,
/// and once it has finished another can.
pub proof fn law_one_run_at_a_time(session: SessionView, id: Seq<char>, on_disk: bool)
    ensures
        session.running ==> begun(session) is Err && setup_plan(
            Some(id),
            Some(session.running),
            on_disk,
        ) is Busy,
        begun(session) matches Ok(next) ==> begun(next) is Err,
        begun(SessionView { running: false, ..session }) is Ok,
{
}

/// Mark a session as idle and tell all clients that its run has finished.
pub fn finish_run(session: &mut SessionState, messages: &Vec<Message>) -> (r: GlobalEvent)
    ensures
        final(session)@ == (SessionView { running: false, ..old(session)@ }),
        r@ == (GlobalEventView::SessionDone {
            session_id: old(session)@.file_id,
            name: old(session)@.name,
            preview: crate::title::preview(views(messages@)),
            parent: old(session)@.parent,
        }),
{
    session.running = false;
    GlobalEvent::SessionDone {
        session_id: session.file_id.clone(),
        name: session.name.clone(),
        preview: crate::title::last_assistant_preview(messages),
        parent: clone_opt_text(&session.parent),
    }
}

/// A directory on the way up from a session's working directory.
pub struct Ancestor {
    pub path: String,
    pub has_git: bool,
}

/// How many of the directories on the way up hold prompt templates for a session:
/// all up to the first that holds a repository.
pub open spec fn template_depth(dirs: Seq<Ancestor>) -> nat
    decreases dirs.len(),
{
    if dirs.len() == 0 {
        0
    } else if dirs[0].has_git {
        1
    } else {
        1 + template_depth(dirs.drop_first())
    }
}

#[verifier::loop_isolation(false)]
pub fn count_template_dirs(dirs: &Vec<Ancestor>) -> (r: usize)
    ensures
        r == template_depth(dirs@),
        r <= dirs.len(),
{
    let mut i: usize = 0;
    assert(dirs@.skip(0) =~= dirs@);
    while i < dirs.len()
        invariant
            i <= dirs.len(),
            template_depth(dirs@) == i + template_depth(dirs@.skip(i as int)),
        decreases dirs.len() - i,
    {
        assert(dirs@.skip(i as int).drop_first() =~= dirs@.skip(i + 1));
        if dirs[i].has_git {
            return i + 1;
        }
        i += 1;
    }
    i
}

// ---------------------------------------------------------------------------
// Models and settings
// ---------------------------------------------------------------------------

pub struct ModelEntry {
    pub id: String,
    pub name: String,
    pub context_window: usize,
}

/// A provider and the models it offers.
pub struct Provider {
    pub id: String,
    pub authenticated: bool,
    pub models: Vec<ModelEntry>,
}

/// What a list of models says of one.
pub struct ModelInfo {
    pub id: String,
    pub name: String,
    pub provider: String,
    pub context_window: usize,
}

pub struct ModelInfoView {
    pub id: Seq<char>,
    pub name: Seq<char>,
    pub provider: Seq<char>,
    pub context_window: usize,
}

impl View for ModelInfo {
    type V = ModelInfoView;

    open spec fn view(&self) -> ModelInfoView {
        ModelInfoView {
            id: self.id@,
            name: self.name@,
            provider: self.provider@,
            context_window: self.context_window,
        }
    }
}

pub open spec fn provider_models(provider: Provider) -> Seq<ModelInfoView> {
    Seq::new(
        provider.models@.len(),
        |i: int|
            ModelInfoView {
                id: provider.models@[i].id@,
                name: provider.models@[i].name@,
                provider: provider.id@,
                context_window: provider.models@[i].context_window,
            },
    )
}

/// The models of the providers that can be used, in order.
pub open spec fn usable_models(providers: Seq<Provider>) -> Seq<ModelInfoView>
    decreases providers.len(),
{
    if providers.len() == 0 {
        Seq::empty()
    } else {
        let rest = usable_models(providers.drop_last());
        if providers.last().authenticated {
            rest + provider_models(providers.last())
        } else {
            rest
        }
    }
}

#[verifier::loop_isolation(false)]
pub fn list_models(providers: &Vec<Provider>) -> (r: Vec<ModelInfo>)
    ensures
        views(r@) == usable_models(providers@),
{
    broadcast use group_views;

    let mut r: Vec<ModelInfo> = Vec::new();
    let mut i: usize = 0;
    while i < providers.len()
        invariant
            i <= providers.len(),
            views(r@) == usable_models(providers@.take(i as int)),
        decreases providers.len() - i,
    {
        assert(providers@.take(i + 1).drop_last() =~= providers@.take(i as int));
        let provider = &providers[i];
        if provider.authenticated {
            let ghost head = views(r@);
            let ghost all = provider_models(*provider);
            let mut k: usize = 0;
            assert(head + all.take(0) =~= head);
            while k < provider.models.len()
                invariant
                    k <= provider.models.len(),
                    views(r@) == head + all.take(k as int),
                decreases provider.models.len() - k,
            {
                r.push(
                    ModelInfo {
                        id: provider.models[k].id.clone(),
                        name: provider.models[k].name.clone(),
                        provider: provider.id.clone(),
                        context_window: provider.models[k].context_window,
                    },
                );
                assert(head + all.take(k + 1) =~= (head + all.take(k as int)).push(all[k as int]));
                k += 1;
            }
            assert(all.take(k as int) =~= all);
        }
        i += 1;
    }
    assert(providers@.take(i as int) =~= providers@);
    r
}

/// The defaults that a client is told.
pub struct SettingsResponse {
    pub default_model: String,
    pub default_thinking: String,
}

pub fn get_settings(default_model: &str, default_thinking: ThinkingLevel) -> (r: SettingsResponse)
    ensures
        r.default_model@ == default_model@,
        r.default_thinking@ == thinking_name(default_thinking),
{
    SettingsResponse {
        default_model: default_model.to_string(),
        default_thinking: thinking_to_str(default_thinking).to_string(),
    }
}

/// The model to use by default: the one given on the command line, else the one in
/// the settings, else the registry's.
pub fn choose_model(flag: Option<String>, setting: Option<String>, registry: &str) -> (r: String)
    ensures
        r@ == match flag {
            Some(m) => m@,
            None => match setting {
                Some(m) => m@,
                None => registry@,
            },
        },
{
    match flag {
        Some(m) => m,
        None => match setting {
            Some(m) => m,
            None => registry.to_string(),
        },
    }
}

// ---------------------------------------------------------------------------
// Updates of the server
// ---------------------------------------------------------------------------

/// Whether a line from the supervisor says that a new build is ready.
pub open spec fn announces_update(line: Seq<char>) -> bool {
    trimmed(line) == "update"@
}

/// Take note of a line from the supervisor. Clients are told when an update first
/// becomes available.
pub fn note_supervisor_line(update_available: &mut bool, line: &str) -> (r: Option<GlobalEvent>)
    ensures
        *final(update_available) == (*old(update_available) || announces_update(line@)),
        opt_view(r) == if announces_update(line@) && !*old(update_available) {
            Some(GlobalEventView::UpdateAvailable)
        } else {
            None
        },
{
    let text = trim(line);
    if same(text.as_str(), "update") && !*update_available {
        *update_available = true;
        Some(GlobalEvent::UpdateAvailable)
    } else {
        None
    }
}

/// A request to restart into the new build is refused while there is none.
pub fn request_update(update_available: bool) -> (r: Result<(), AppError>)
    ensures
        match r {
            Ok(_) => update_available,
            Err(e) => !update_available && e@ == AppErrorView::Conflict("No update available"@),
        },
{
    if update_available {
        Ok(())
    } else {
        Err(AppError::Conflict("No update available".to_string()))
    }
}

} // verus!
