//! Logging in to providers of models.
use crate::sessions::{AppError, AppErrorView};
use crate::text::{decimal, number_text, opt_view, same, slice, trim, trimmed, views, chars_of};
use vstd::prelude::*;

verus! {

// ---------------------------------------------------------------------------
// Methods and status
// ---------------------------------------------------------------------------

/// How a provider wants the user to log in.
pub enum AuthMethod {
    /// Visit a page and paste the code it shows.
    PasteCode { url: String },
    /// Enter a text, such as a key.
    TextInput { prompt: String, placeholder: String },
    /// Visit a page that leads back to a port of this machine.
    LocalCallback { url: String, port: u16, path: String },
}

/// How far a login has come.
#[derive(Debug)]
pub enum LoginStatus {
    /// The user has yet to paste a code.
    AwaitingCode,
    /// The browser has yet to come back.
    AwaitingCallback,
    Complete,
    Failed(String),
}

pub enum LoginStatusView {
    AwaitingCode,
    AwaitingCallback,
    Complete,
    Failed(Seq<char>),
}

impl View for LoginStatus {
    type V = LoginStatusView;

    open spec fn view(&self) -> LoginStatusView {
        match self {
            LoginStatus::AwaitingCode => LoginStatusView::AwaitingCode,
            LoginStatus::AwaitingCallback => LoginStatusView::AwaitingCallback,
            LoginStatus::Complete => LoginStatusView::Complete,
            LoginStatus::Failed(e) => LoginStatusView::Failed(e@),
        }
    }
}

impl Clone for LoginStatus {
    fn clone(&self) -> (r: Self)
        ensures
            r@ == self@,
    {
        match self {
            LoginStatus::AwaitingCode => LoginStatus::AwaitingCode,
            LoginStatus::AwaitingCallback => LoginStatus::AwaitingCallback,
            LoginStatus::Complete => LoginStatus::Complete,
            LoginStatus::Failed(e) => LoginStatus::Failed(e.clone()),
        }
    }
}

// ---------------------------------------------------------------------------
// Providers
// ---------------------------------------------------------------------------

/// The place of the first provider with an id.
pub open spec fn provider_index(ids: Seq<Seq<char>>, id: Seq<char>) -> Option<int>
    decreases ids.len(),
{
    if ids.len() == 0 {
        None
    } else if ids[0] == id {
        Some(0)
    } else {
        match provider_index(ids.drop_first(), id) {
            Some(k) => Some(k + 1),
            None => None,
        }
    }
}

#[verifier::loop_isolation(false)]
pub fn find_provider(ids: &Vec<String>, id: &str) -> (r: Option<usize>)
    ensures
        match r {
            Some(k) => provider_index(views(ids@), id@) == Some(k as int) && k < ids.len(),
            None => provider_index(views(ids@), id@) is None,
        },
{
    let ghost all = views(ids@);
    let mut i: usize = 0;
    assert(all.skip(0) =~= all);
    while i < ids.len()
        invariant
            i <= ids.len(),
            provider_index(all, id@) == match provider_index(all.skip(i as int), id@) {
                Some(k) => Some(k + i),
                None => None,
            },
        decreases ids.len() - i,
    {
        assert(all.skip(i as int)[0] == ids@[i as int]@);
        assert(all.skip(i as int).drop_first() =~= all.skip(i + 1));
        if same(ids[i].as_str(), id) {
            return Some(i);
        }
        i += 1;
    }
    None
}

pub open spec fn provider_unknown(id: Seq<char>) -> AppErrorView {
    AppErrorView::BadRequest("Unknown provider: "@ + id)
}

/// The error for a provider that there is not.
pub fn unknown_provider(id: &str) -> (r: AppError)
    ensures
        r@ == provider_unknown(id@),
{
    AppError::BadRequest("Unknown provider: ".to_string().concat(id))
}

// ---------------------------------------------------------------------------
// Logging in through the server
// ---------------------------------------------------------------------------

/// What a client is told when a login begins: the method, and the page to visit or
/// the text to prompt with.
pub struct AuthLoginResponse {
    pub method: String,
    pub url: String,
    pub placeholder: Option<String>,
}

/// Where to wait for the browser.
pub struct Callback {
    pub port: u16,
    pub path: String,
}

/// A login that has begun.
pub struct LoginStart {
    pub response: AuthLoginResponse,
    pub status: LoginStatus,
    pub callback: Option<Callback>,
}

/// Whether a login begins as the method says.
pub open spec fn begins(start: LoginStart, method: AuthMethod) -> bool {
    match method {
        AuthMethod::PasteCode { url } => {
            &&& start.response.method@ == "paste_code"@
            &&& start.response.url@ == url@
            &&& start.response.placeholder is None
            &&& start.status@ == LoginStatusView::AwaitingCode
            &&& start.callback is None
        },
        AuthMethod::TextInput { prompt, placeholder } => {
            &&& start.response.method@ == "text_input"@
            &&& start.response.url@ == prompt@
            &&& opt_view(start.response.placeholder) == Some(placeholder@)
            &&& start.status@ == LoginStatusView::AwaitingCode
            &&& start.callback is None
        },
        AuthMethod::LocalCallback { url, port, path } => {
            &&& start.response.method@ == "local_callback"@
            &&& start.response.url@ == url@
            &&& start.response.placeholder is None
            &&& start.status@ == LoginStatusView::AwaitingCallback
            &&& start.callback is Some
            &&& start.callback->0.port == port
            &&& start.callback->0.path@ == path@
        },
    }
}

/// Begin a login with what the provider asks for.
pub fn auth_login(begun: Result<Option<AuthMethod>, String>) -> (r: Result<LoginStart, AppError>)
    ensures
        match begun {
            Ok(Some(method)) => r is Ok && begins(r->Ok_0, method),
            Ok(None) => r is Err && r->Err_0@ == AppErrorView::BadRequest(
                "Provider does not support login"@,
            ),
            Err(e) => r is Err && r->Err_0@ == AppErrorView::Internal(
                "begin_login failed: "@ + e@,
            ),
        },
{
    match begun {
        Ok(Some(AuthMethod::PasteCode { url })) => Ok(
            LoginStart {
                response: AuthLoginResponse {
                    method: "paste_code".to_string(),
                    url,
                    placeholder: None,
                },
                status: LoginStatus::AwaitingCode,
                callback: None,
            },
        ),
        Ok(Some(AuthMethod::TextInput { prompt, placeholder })) => Ok(
            LoginStart {
                response: AuthLoginResponse {
                    method: "text_input".to_string(),
                    url: prompt,
                    placeholder: Some(placeholder),
                },
                status: LoginStatus::AwaitingCode,
                callback: None,
            },
        ),
        Ok(Some(AuthMethod::LocalCallback { url, port, path })) => Ok(
            LoginStart {
                response: AuthLoginResponse {
                    method: "local_callback".to_string(),
                    url,
                    placeholder: None,
                },
                status: LoginStatus::AwaitingCallback,
                callback: Some(Callback { port, path }),
            },
        ),
        Ok(None) => Err(AppError::BadRequest("Provider does not support login".to_string())),
        Err(e) => Err(
            AppError::Internal("begin_login failed: ".to_string().concat(e.as_str())),
        ),
    }
}

/// The status of a login when the wait for the browser is over.
pub fn callback_finished(result: Result<(), String>) -> (r: LoginStatus)
    ensures
        r@ == match result {
            Ok(_) => LoginStatusView::Complete,
            Err(e) => LoginStatusView::Failed(e@),
        },
{
    match result {
        Ok(_) => LoginStatus::Complete,
        Err(e) => LoginStatus::Failed(e),
    }
}

/// Complete a login with a code. `outcome` is what the provider said, where a login
/// was in progress; a login that is complete is forgotten.
pub fn auth_complete(outcome: Option<Result<(), String>>) -> (r: Result<(), AppError>)
    ensures
        match outcome {
            None => r is Err && r->Err_0@ == AppErrorView::BadRequest(
                "No login in progress for this provider"@,
            ),
            Some(Ok(_)) => r is Ok,
            Some(Err(e)) => r is Err && r->Err_0@ == AppErrorView::Internal(
                "complete_login failed: "@ + e@,
            ),
        },
{
    match outcome {
        None => Err(AppError::BadRequest("No login in progress for this provider".to_string())),
        Some(Ok(_)) => Ok(()),
        Some(Err(e)) => Err(
            AppError::Internal("complete_login failed: ".to_string().concat(e.as_str())),
        ),
    }
}

/// Log out. `outcome` is what the provider said, where there is such a provider.
pub fn auth_logout(provider_id: &str, outcome: Option<Result<(), String>>) -> (r: Result<
    (),
    AppError,
>)
    ensures
        match outcome {
            None => r is Err && r->Err_0@ == provider_unknown(provider_id@),
            Some(Ok(_)) => r is Ok,
            Some(Err(e)) => r is Err && r->Err_0@ == AppErrorView::BadRequest(e@),
        },
{
    match outcome {
        None => Err(unknown_provider(provider_id)),
        Some(Ok(_)) => Ok(()),
        Some(Err(e)) => Err(AppError::BadRequest(e)),
    }
}

/// What a client that polls a login is told, and whether the login is to be
/// forgotten then.
pub struct StatusReply {
    pub status: String,
    pub error: Option<String>,
    pub finished: bool,
}

pub open spec fn status_name(status: LoginStatusView) -> Seq<char> {
    match status {
        LoginStatusView::AwaitingCode => "awaiting_code"@,
        LoginStatusView::AwaitingCallback => "awaiting_callback"@,
        LoginStatusView::Complete => "complete"@,
        LoginStatusView::Failed(_) => "failed"@,
    }
}

/// Whether a login is over.
pub open spec fn is_over(status: LoginStatusView) -> bool {
    status is Complete || status is Failed
}

/// Answer a client that polls a login.
pub fn auth_login_status(status: Option<&LoginStatus>) -> (r: Result<StatusReply, AppError>)
    ensures
        match status {
            None => r is Err && r->Err_0@ == AppErrorView::NotFound("No login in progress"@),
            Some(s) => {
                &&& r is Ok
                &&& r->Ok_0.status@ == status_name(s@)
                &&& opt_view(r->Ok_0.error) == match s@ {
                    LoginStatusView::Failed(e) => Some(e),
                    _ => None,
                }
                &&& r->Ok_0.finished == is_over(s@)
            },
        },
{
    match status {
        None => Err(AppError::NotFound("No login in progress".to_string())),
        Some(s) => Ok(
            match s {
                LoginStatus::AwaitingCode => StatusReply {
                    status: "awaiting_code".to_string(),
                    error: None,
                    finished: false,
                },
                LoginStatus::AwaitingCallback => StatusReply {
                    status: "awaiting_callback".to_string(),
                    error: None,
                    finished: false,
                },
                LoginStatus::Complete => StatusReply {
                    status: "complete".to_string(),
                    error: None,
                    finished: true,
                },
                LoginStatus::Failed(e) => StatusReply {
                    status: "failed".to_string(),
                    error: Some(e.clone()),
                    finished: true,
                },
            },
        ),
    }
}

// ---------------------------------------------------------------------------
// The browser's way back
// ---------------------------------------------------------------------------

/// What the browser is shown, and what is learnt from its request: a code, or why
/// there is none. Only the first request counts.
pub struct CallbackReply {
    pub learnt: Option<Result<String, String>>,
    pub html: String,
}

pub open spec fn success_page(served: bool) -> Seq<char> {
    if served {
        "<h1>Login successful</h1><p>You can close this window and return to ri.</p>"@
    } else {
        "<h1>Success</h1><p>You can close this window.</p>"@
    }
}

pub open spec fn failure_page(served: bool) -> Seq<char> {
    if served {
        "<h1>Authorization failed</h1><p>You can close this window.</p>"@
    } else {
        "<h1>Authorization failed</h1>"@
    }
}

/// Answer the browser. `served` says that the server is logging in, not the
/// terminal; `pending` that no request has come before; `error` and `code` are the
/// parameters of the request.
pub fn callback_reply(served: bool, pending: bool, error: Option<&str>, code: Option<&str>) -> (r:
    CallbackReply)
    ensures
        if !pending {
            r.learnt is None && r.html@ == "<h1>Unexpected request</h1>"@
        } else {
            match (error, code) {
                (Some(e), _) => r.learnt is Some && r.learnt->0 is Err && r.learnt->0->Err_0@ == e@
                    && r.html@ == failure_page(served),
                (None, Some(c)) => r.learnt is Some && r.learnt->0 is Ok && r.learnt->0->Ok_0@ == c@
                    && r.html@ == success_page(served),
                (None, None) => r.learnt is Some && r.learnt->0 is Err && r.learnt->0->Err_0@
                    == "No authorization code in callback"@ && r.html@
                    == "<h1>Unexpected request</h1>"@,
            }
        },
{
    if pending {
        if let Some(e) = error {
            let html = if served {
                "<h1>Authorization failed</h1><p>You can close this window.</p>"
            } else {
                "<h1>Authorization failed</h1>"
            };
            return CallbackReply { learnt: Some(Err(e.to_string())), html: html.to_string() };
        }
        if let Some(c) = code {
            let html = if served {
                "<h1>Login successful</h1><p>You can close this window and return to ri.</p>"
            } else {
                "<h1>Success</h1><p>You can close this window.</p>"
            };
            return CallbackReply { learnt: Some(Ok(c.to_string())), html: html.to_string() };
        }
        return CallbackReply {
            learnt: Some(Err("No authorization code in callback".to_string())),
            html: "<h1>Unexpected request</h1>".to_string(),
        };
    }
    CallbackReply { learnt: None, html: "<h1>Unexpected request</h1>".to_string() }
}

/// How the wait for the browser ended.
pub enum CallbackEnd {
    /// The port could not be had.
    NotBound { port: u16, error: String },
    ServerError(String),
    ServerStopped,
    ChannelClosed,
    /// A request came.
    Learnt(Result<String, String>),
    TimedOut,
}

/// Why a wait for the browser gave no code.
pub open spec fn callback_error(served: bool, end: CallbackEnd) -> Option<Seq<char>> {
    match end {
        CallbackEnd::NotBound { port, error } => Some(
            (if served {
                "Failed to bind callback on port "@
            } else {
                "Failed to bind OAuth callback on port "@
            }) + decimal(port as nat) + ": "@ + error@,
        ),
        CallbackEnd::ServerError(error) => Some(
            (if served {
                "Callback server error: "@
            } else {
                "OAuth callback server error: "@
            }) + error@,
        ),
        CallbackEnd::ServerStopped => Some(
            if served {
                "Callback server stopped unexpectedly"@
            } else {
                "OAuth callback server stopped unexpectedly"@
            },
        ),
        CallbackEnd::ChannelClosed => Some(
            if served {
                "Callback channel closed"@
            } else {
                "OAuth callback channel closed"@
            },
        ),
        CallbackEnd::Learnt(Ok(_)) => None,
        CallbackEnd::Learnt(Err(e)) => Some("OAuth error: "@ + e@),
        CallbackEnd::TimedOut => Some("OAuth callback timed out after 5 minutes"@),
    }
}

/// The code that the browser brought, or why there is none.
pub fn callback_outcome(served: bool, end: CallbackEnd) -> (r: Result<String, String>)
    ensures
        match callback_error(served, end) {
            Some(e) => r is Err && r->Err_0@ == e,
            None => r is Ok && end == CallbackEnd::Learnt(Ok(r->Ok_0)),
        },
{
    match end {
        CallbackEnd::NotBound { port, error } => {
            let mut text = if served {
                "Failed to bind callback on port ".to_string()
            } else {
                "Failed to bind OAuth callback on port ".to_string()
            };
            let n = number_text(port as u128);
            text.append(n.as_str());
            text.append(": ");
            text.append(error.as_str());
            Err(text)
        },
        CallbackEnd::ServerError(error) => {
            let mut text = if served {
                "Callback server error: ".to_string()
            } else {
                "OAuth callback server error: ".to_string()
            };
            text.append(error.as_str());
            Err(text)
        },
        CallbackEnd::ServerStopped => {
            if served {
                Err("Callback server stopped unexpectedly".to_string())
            } else {
                Err("OAuth callback server stopped unexpectedly".to_string())
            }
        },
        CallbackEnd::ChannelClosed => {
            if served {
                Err("Callback channel closed".to_string())
            } else {
                Err("OAuth callback channel closed".to_string())
            }
        },
        CallbackEnd::Learnt(Ok(code)) => Ok(code),
        CallbackEnd::Learnt(Err(e)) => Err("OAuth error: ".to_string().concat(e.as_str())),
        CallbackEnd::TimedOut => Err("OAuth callback timed out after 5 minutes".to_string()),
    }
}

/// The error for a login that was dropped while the browser was away.
pub fn login_disappeared() -> (r: String)
    ensures
        r@ == "Login state disappeared"@,
{
    "Login state disappeared".to_string()
}

// ---------------------------------------------------------------------------
// Logging in from the terminal
// ---------------------------------------------------------------------------

/// How a notice is shown.
#[derive(Debug, Clone, Copy, PartialEq, Eq, Structural)]
pub enum Tone {
    Plain,
    Markdown,
    Good,
    Bad,
}

/// Something to tell the user.
pub struct Notice {
    pub text: String,
    pub tone: Tone,
}

/// The provider that a `/login` command names.
pub open spec fn login_name(command: Seq<char>) -> Seq<char> {
    trimmed(command.skip("/login"@.len() as int))
}

/// The provider to log in to: the one that is named, or the first where none is.
pub open spec fn login_provider(ids: Seq<Seq<char>>, name: Seq<char>) -> Option<int> {
    if name.len() == 0 {
        if ids.len() > 0 {
            Some(0)
        } else {
            None
        }
    } else {
        provider_index(ids, name)
    }
}

/// Choose the provider that a `/login` command asks for.
pub fn choose_login(command: &str, ids: &Vec<String>) -> (r: Result<usize, Notice>)
    requires
        "/login"@.is_prefix_of(command@),
    ensures
        match r {
            Ok(k) => login_provider(views(ids@), login_name(command@)) == Some(k as int) && k
                < ids.len(),
            Err(n) => login_provider(views(ids@), login_name(command@)) is None && n.tone
                == Tone::Bad && n.text@ == "Unknown provider: "@ + login_name(command@),
        },
{
    let chars = chars_of(command);
    let prefix = chars_of("/login");
    assert(chars@.subrange(prefix@.len() as int, chars@.len() as int) =~= chars@.skip(
        prefix@.len() as int,
    ));
    let rest = slice(&chars, prefix.len(), chars.len());
    let name = trim(rest.as_str());
    let found: Option<usize> = if name.as_str().is_empty() {
        if ids.len() > 0 {
            Some(0)
        } else {
            None
        }
    } else {
        find_provider(ids, name.as_str())
    };
    match found {
        Some(k) => Ok(k),
        None => Err(
            Notice {
                text: "Unknown provider: ".to_string().concat(name.as_str()),
                tone: Tone::Bad,
            },
        ),
    }
}

/// What the user is told when a login begins in the terminal, and whether to wait
/// for the browser.
pub struct TerminalLogin {
    pub notice: Notice,
    pub callback: Option<Callback>,
}

pub open spec fn login_notice(begun: Result<Option<AuthMethod>, String>) -> (Tone, Seq<char>) {
    match begun {
        Ok(Some(AuthMethod::PasteCode { url })) => (
            Tone::Markdown,
            "Visit this URL to authorize:\n"@ + url@
                + "\n\nPaste-code login not yet supported in TUI. Use --mode print."@,
        ),
        Ok(Some(AuthMethod::LocalCallback { url, .. })) => (
            Tone::Markdown,
            "Starting OAuth login...\nVisit: "@ + url@,
        ),
        Ok(Some(AuthMethod::TextInput { prompt, .. })) => (
            Tone::Markdown,
            prompt@
                + "\n\nText-input login not yet supported in TUI. Use the web UI or set the GEMINI_API_KEY env var."@,
        ),
        Ok(None) => (Tone::Plain, "No login needed for this provider."@),
        Err(e) => (Tone::Bad, "login error: "@ + e@),
    }
}

/// Begin a login in the terminal.
pub fn begin_terminal_login(begun: Result<Option<AuthMethod>, String>) -> (r: TerminalLogin)
    ensures
        r.notice.tone == login_notice(begun).0,
        r.notice.text@ == login_notice(begun).1,
        match begun {
            Ok(Some(AuthMethod::LocalCallback { port, path, .. })) => r.callback is Some
                && r.callback->0.port == port && r.callback->0.path@ == path@,
            _ => r.callback is None,
        },
{
    match begun {
        Ok(Some(AuthMethod::PasteCode { url })) => {
            let mut text = "Visit this URL to authorize:\n".to_string();
            text.append(url.as_str());
            text.append("\n\nPaste-code login not yet supported in TUI. Use --mode print.");
            TerminalLogin { notice: Notice { text, tone: Tone::Markdown }, callback: None }
        },
        Ok(Some(AuthMethod::LocalCallback { url, port, path })) => {
            let text = "Starting OAuth login...\nVisit: ".to_string().concat(url.as_str());
            TerminalLogin {
                notice: Notice { text, tone: Tone::Markdown },
                callback: Some(Callback { port, path }),
            }
        },
        Ok(Some(AuthMethod::TextInput { prompt, .. })) => {
            let mut text = prompt;
            text.append(
                "\n\nText-input login not yet supported in TUI. Use the web UI or set the GEMINI_API_KEY env var.",
            );
            TerminalLogin { notice: Notice { text, tone: Tone::Markdown }, callback: None }
        },
        Ok(None) => TerminalLogin {
            notice: Notice {
                text: "No login needed for this provider.".to_string(),
                tone: Tone::Plain,
            },
            callback: None,
        },
        Err(e) => TerminalLogin {
            notice: Notice {
                text: "login error: ".to_string().concat(e.as_str()),
                tone: Tone::Bad,
            },
            callback: None,
        },
    }
}

/// How a login in the terminal ended.
pub enum LoginEnd {
    /// The login failed.
    Failed(String),
    /// The login went well, but the model could not be resolved anew.
    NotResolved(String),
    Done,
}

/// What the user is told when a login in the terminal has ended.
pub fn end_terminal_login(end: LoginEnd) -> (r: Notice)
    ensures
        match end {
            LoginEnd::Failed(e) => r.tone == Tone::Bad && r.text@ == "login failed: "@ + e@,
            LoginEnd::NotResolved(e) => r.tone == Tone::Bad && r.text@ == "resolve error: "@ + e@,
            LoginEnd::Done => r.tone == Tone::Good && r.text@ == "Logged in successfully."@,
        },
{
    match end {
        LoginEnd::Failed(e) => Notice {
            text: "login failed: ".to_string().concat(e.as_str()),
            tone: Tone::Bad,
        },
        LoginEnd::NotResolved(e) => Notice {
            text: "resolve error: ".to_string().concat(e.as_str()),
            tone: Tone::Bad,
        },
        LoginEnd::Done => Notice {
            text: "Logged in successfully.".to_string(),
            tone: Tone::Good,
        },
    }
}

// ---------------------------------------------------------------------------
// Laws
// ---------------------------------------------------------------------------

/// A provider that is found is the first with the id, and one that is there is found.
pub proof fn law_provider_found(ids: Seq<Seq<char>>, id: Seq<char>)
    ensures
        match provider_index(ids, id) {
            Some(k) => 0 <= k < ids.len() && ids[k] == id && forall|j: int|
                0 <= j < k ==> #[trigger] ids[j] != id,
            None => !ids.contains(id),
        },
    decreases ids.len(),
{
    if ids.len() > 0 && ids[0] != id {
        let rest = ids.drop_first();
        law_provider_found(rest, id);
        match provider_index(rest, id) {
            Some(k) => {
                assert(ids[k + 1] == rest[k]);
                assert forall|j: int| 0 <= j < k + 1 implies #[trigger] ids[j] != id by {
                    if j > 0 {
                        assert(ids[j] == rest[j - 1]);
                    }
                }
            },
            None => {
                if ids.contains(id) {
                    let k = choose|k: int| 0 <= k < ids.len() && ids[k] == id;
                    assert(rest[k - 1] == id);
                }
            },
        }
    }
}

/// The names by which clients tell how far a login is are different, and a login
/// is forgotten exactly when it can change no more.
pub proof fn law_status_names(a: LoginStatusView, b: LoginStatusView)
    requires
        status_name(a) == status_name(b),
    ensures
        is_over(a) == is_over(b),
        a is Complete == b is Complete,
        a is AwaitingCode == b is AwaitingCode,
{
    reveal_strlit("awaiting_code");
    reveal_strlit("awaiting_callback");
    reveal_strlit("complete");
    reveal_strlit("failed");
    assert("awaiting_code"@.len() == 13);
    assert("awaiting_callback"@.len() == 17);
    assert("complete"@.len() == 8);
    assert("failed"@.len() == 6);
}

} // verus!
