//! What holds of logins over what providers, browsers and users say.
use crate::auth::{
    begins, callback_error, failure_page, is_over, law_provider_found, login_name, login_notice,
    login_provider, provider_unknown, status_name, success_page, AuthMethod, CallbackEnd,
    LoginStart, LoginStatusView, Tone,
};
use crate::sessions::AppErrorView;
use crate::text::{decimal, is_white, lemma_occurs, occurs, opt_view};
use crate::text_laws::{blank, law_trimmed_text};
use vstd::prelude::*;

verus! {

/// A client is shown the page or the prompt of the method that its provider asks for, and
/// the browser is waited for exactly where the method leads back to this machine, on the
/// port and the path that it names.
pub proof fn law_logins_begin_as_the_provider_asks(start: LoginStart, method: AuthMethod)
    requires
        begins(start, method),
    ensures
        start.callback is Some <==> method is LocalCallback,
        start.status@ is AwaitingCallback <==> method is LocalCallback,
        start.status@ is AwaitingCode <==> !(method is LocalCallback),
        start.response.placeholder is Some <==> method is TextInput,
        match method {
            AuthMethod::PasteCode { url } => start.response.url@ == url@
                && start.response.method@ == "paste_code"@,
            AuthMethod::TextInput { prompt, placeholder } => {
                &&& start.response.url@ == prompt@
                &&& opt_view(start.response.placeholder) == Some(placeholder@)
                &&& start.response.method@ == "text_input"@
            },
            AuthMethod::LocalCallback { url, port, path } => {
                &&& start.response.url@ == url@
                &&& start.callback->0.port == port
                &&& start.callback->0.path@ == path@
                &&& start.response.method@ == "local_callback"@
            },
        },
{
}

/// The names under which a client is told how far a login is.
pub proof fn law_logins_are_told_by_name(status: LoginStatusView)
    ensures
        status is AwaitingCode ==> status_name(status) == "awaiting_code"@,
        status is AwaitingCallback ==> status_name(status) == "awaiting_callback"@,
        status is Complete ==> status_name(status) == "complete"@,
        status is Failed ==> status_name(status) == "failed"@,
        is_over(status) <==> !(status is AwaitingCode || status is AwaitingCallback),
{
}

/// A wait for the browser gives a code exactly where one came; any other end gives an error,
/// which tells the error that was met.
pub proof fn law_only_codes_log_in(served: bool, end: CallbackEnd)
    ensures
        callback_error(served, end) is None <==> (end matches CallbackEnd::Learnt(Ok(_))),
        match end {
            CallbackEnd::NotBound { port, error } => occurs(
                decimal(port as nat) + ": "@ + error@,
                callback_error(served, end)->0,
            ),
            CallbackEnd::ServerError(error) => occurs(error@, callback_error(served, end)->0),
            CallbackEnd::Learnt(Err(error)) => callback_error(served, end) == Some(
                "OAuth error: "@ + error@,
            ),
            CallbackEnd::TimedOut => callback_error(served, end) == Some(
                "OAuth callback timed out after 5 minutes"@,
            ),
            _ => true,
        },
        callback_error(true, CallbackEnd::ServerStopped) == Some(
            "Callback server stopped unexpectedly"@,
        ),
        callback_error(false, CallbackEnd::ServerStopped) == Some(
            "OAuth callback server stopped unexpectedly"@,
        ),
        callback_error(true, CallbackEnd::ChannelClosed) == Some("Callback channel closed"@),
        callback_error(false, CallbackEnd::ChannelClosed) == Some("OAuth callback channel closed"@),
{
    match end {
        CallbackEnd::NotBound { port, error } => {
            let head = if served {
                "Failed to bind callback on port "@
            } else {
                "Failed to bind OAuth callback on port "@
            };
            let told = decimal(port as nat) + ": "@ + error@;
            assert(callback_error(served, end)->0 =~= head + told);
            lemma_occurs(head, told, Seq::empty());
        },
        CallbackEnd::ServerError(error) => {
            let head = if served {
                "Callback server error: "@
            } else {
                "OAuth callback server error: "@
            };
            lemma_occurs(head, error@, Seq::empty());
        },
        _ => {},
    }
}

/// The browser is shown that the login went well or that it failed, in the words of the
/// server or of the terminal.
pub proof fn law_pages_say_how_it_went()
    ensures
        success_page(true)
            == "<h1>Login successful</h1><p>You can close this window and return to ri.</p>"@,
        success_page(false) == "<h1>Success</h1><p>You can close this window.</p>"@,
        failure_page(true) == "<h1>Authorization failed</h1><p>You can close this window.</p>"@,
        failure_page(false) == "<h1>Authorization failed</h1>"@,
{
}

/// The provider that a command names is what stands behind the command, without the white
/// space around it. Where nothing does, the first provider is meant; and one that is named
/// is the one of that name.
pub proof fn law_login_names_its_provider(
    before: Seq<char>,
    name: Seq<char>,
    after: Seq<char>,
    ids: Seq<Seq<char>>,
)
    requires
        blank(before),
        blank(after),
        name.len() > 0 ==> !is_white(name[0]) && !is_white(name.last()),
    ensures
        login_name("/login"@ + before + name + after) == name,
        name.len() == 0 && ids.len() > 0 ==> login_provider(ids, name) == Some(0int),
        name.len() == 0 && ids.len() == 0 ==> login_provider(ids, name) is None,
        name.len() > 0 ==> match login_provider(ids, name) {
            Some(k) => 0 <= k < ids.len() && ids[k] == name,
            None => !ids.contains(name),
        },
        provider_unknown(name) == AppErrorView::BadRequest("Unknown provider: "@ + name),
{
    let command = "/login"@ + before + name + after;
    assert(command.skip("/login"@.len() as int) =~= before + name + after);
    law_trimmed_text(before, name, after);
    law_provider_found(ids, name);
}

/// The user is shown the page to visit or what to enter, or why there is no login; only an
/// error is shown as one.
pub proof fn law_terminal_logins_are_told(begun: Result<Option<AuthMethod>, String>)
    ensures
        login_notice(begun).0 == Tone::Bad <==> begun is Err,
        login_notice(begun).0 == Tone::Plain <==> begun == Ok::<Option<AuthMethod>, String>(None),
        match begun {
            Ok(Some(AuthMethod::PasteCode { url })) => login_notice(begun).1
                == "Visit this URL to authorize:\n"@ + url@
                + "\n\nPaste-code login not yet supported in TUI. Use --mode print."@,
            Ok(Some(AuthMethod::LocalCallback { url, .. })) => login_notice(begun).1
                == "Starting OAuth login...\nVisit: "@ + url@,
            Ok(Some(AuthMethod::TextInput { prompt, .. })) => login_notice(begun).1 == prompt@
                + "\n\nText-input login not yet supported in TUI. Use the web UI or set the GEMINI_API_KEY env var."@,
            Ok(None) => login_notice(begun).1 == "No login needed for this provider."@,
            Err(e) => login_notice(begun).1 == "login error: "@ + e@,
        },
{
}

} // verus!
