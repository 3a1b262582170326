//! What the command line asks for.
use crate::text::same;
use vstd::prelude::*;

verus! {

/// How the agent is to be run.
pub enum Mode {
    /// Deal with one prompt and print what happens, as text or as JSON.
    Print { json: bool, prompt: String },
    /// Read commands.
    Rpc,
    /// Talk with the user.
    Interactive,
}

/// Whether a mode is one that prints.
pub open spec fn prints(mode: Seq<char>) -> bool {
    mode == "print"@ || mode == "json"@
}

pub open spec fn unknown_mode(mode: Seq<char>) -> Seq<char> {
    "Unknown mode '"@ + mode + "'. Expected: interactive, print, json, rpc"@
}

/// Choose the mode by its name. A mode that prints needs a prompt; it prints JSON if
/// it is called so or the output is to be.
pub fn choose_mode(mode: &str, output: &str, prompt: Option<String>) -> (r: Result<Mode, String>)
    ensures
        match r {
            Ok(Mode::Print { json, prompt: p }) => prints(mode@) && prompt == Some(p) && json == (
            mode@ == "json"@ || output@ == "json"@),
            Ok(Mode::Rpc) => mode@ == "rpc"@ && !prints(mode@),
            Ok(Mode::Interactive) => mode@ == "interactive"@ && !prints(mode@) && mode@ != "rpc"@,
            Err(e) => if prints(mode@) {
                prompt is None && e@ == "Print mode requires --prompt (-p)"@
            } else {
                mode@ != "rpc"@ && mode@ != "interactive"@ && e@ == unknown_mode(mode@)
            },
        },
{
    if same(mode, "print") || same(mode, "json") {
        match prompt {
            Some(prompt) => {
                let json = same(mode, "json") || same(output, "json");
                Ok(Mode::Print { json, prompt })
            },
            None => Err("Print mode requires --prompt (-p)".to_string()),
        }
    } else if same(mode, "rpc") {
        Ok(Mode::Rpc)
    } else if same(mode, "interactive") {
        Ok(Mode::Interactive)
    } else {
        let mut text = "Unknown mode '".to_string();
        text.append(mode);
        text.append("'. Expected: interactive, print, json, rpc");
        Err(text)
    }
}

/// Two modes print, and a mode that there is not is named together with those that there
/// are.
pub proof fn law_modes_are_named(mode: Seq<char>)
    ensures
        prints("print"@),
        prints("json"@),
        prints(mode) ==> mode == "print"@ || mode == "json"@,
        !prints("rpc"@),
        !prints("interactive"@),
        unknown_mode(mode) == "Unknown mode '"@ + mode
            + "'. Expected: interactive, print, json, rpc"@,
{
    reveal_strlit("print");
    reveal_strlit("json");
    reveal_strlit("rpc");
    reveal_strlit("interactive");
    assert("print"@.len() == 5 && "json"@.len() == 4);
    assert("rpc"@.len() == 3 && "interactive"@.len() == 11);
}

} // verus!
