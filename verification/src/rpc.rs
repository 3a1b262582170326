//! Driving an agent by commands, one JSON object to a line.
use crate::json::{
    boolean, group_members, json_of, object, object_of_two, string, text_member, Json,
};
use vstd::prelude::*;

verus! {

/// A command: its type and the rest of its members.
pub struct RpcCommand {
    pub command_type: String,
    pub data: serde_json::Value,
}

/// What to do about a line.
pub enum RpcStep {
    /// Print an object and read on.
    Reply(serde_json::Value),
    /// Send a message to the agent.
    Submit(String),
    /// Print an object and stop.
    Stop(serde_json::Value),
}

/// `{"type": "error", "message": ..}`
pub open spec fn error_json(message: Seq<char>) -> Json {
    Json::Object(map!["type"@ => Json::Text("error"@), "message"@ => Json::Text(message)])
}

/// `{"type": "response", "command": .., "success": true}`
pub open spec fn done_json(command: Seq<char>) -> Json {
    Json::Object(
        map![
            "type"@ => Json::Text("response"@),
            "command"@ => Json::Text(command),
            "success"@ => Json::Bool(true),
        ],
    )
}

fn error_object(message: String) -> (r: serde_json::Value)
    ensures
        json_of(r) == error_json(message@),
{
    object_of_two("type", string("error".to_string()), "message", string(message))
}

fn done_object(command: &str) -> (r: serde_json::Value)
    ensures
        json_of(r) == done_json(command@),
{
    broadcast use group_members;

    let mut fields: Vec<(String, serde_json::Value)> = Vec::new();
    fields.push(("type".to_string(), string("response".to_string())));
    fields.push(("command".to_string(), string(command.to_string())));
    fields.push(("success".to_string(), boolean(true)));
    assert(crate::json::members(fields@) =~= map![
        "type"@ => Json::Text("response"@),
        "command"@ => Json::Text(command@),
        "success"@ => Json::Bool(true),
    ]);
    object(fields)
}

/// The message that a command brings; empty where it brings none.
pub open spec fn command_message(data: Json) -> Seq<char> {
    match data.text_member("message"@) {
        Some(m) => m,
        None => Seq::empty(),
    }
}

/// Whether a step is what a command asks for.
pub open spec fn follows(step: RpcStep, command_type: Seq<char>, data: Json) -> bool {
    if command_type == "prompt"@ || command_type == "follow_up"@ {
        if command_message(data).len() == 0 {
            step matches RpcStep::Reply(v) && json_of(v) == error_json("Missing 'message'"@)
        } else {
            step matches RpcStep::Submit(m) && m@ == command_message(data)
        }
    } else if command_type == "abort"@ {
        step matches RpcStep::Stop(v) && json_of(v) == done_json("abort"@)
    } else {
        step matches RpcStep::Reply(v) && json_of(v) == error_json(
            "Unknown command: "@ + command_type,
        )
    }
}

/// Decide what to do about a line, given what it was read as.
pub fn rpc_step(command: Result<RpcCommand, String>) -> (r: RpcStep)
    ensures
        match command {
            Ok(c) => follows(r, c.command_type@, json_of(c.data)),
            Err(e) => r matches RpcStep::Reply(v) && json_of(v) == error_json(
                "Invalid JSON: "@ + e@,
            ),
        },
{
    let command = match command {
        Ok(c) => c,
        Err(e) => {
            return RpcStep::Reply(
                error_object("Invalid JSON: ".to_string().concat(e.as_str())),
            );
        },
    };
    let kind = command.command_type.as_str();
    if crate::text::same(kind, "prompt") || crate::text::same(kind, "follow_up") {
        match text_member(&command.data, "message") {
            Some(m) => {
                if m.is_empty() {
                    RpcStep::Reply(error_object("Missing 'message'".to_string()))
                } else {
                    RpcStep::Submit(m.to_string())
                }
            },
            None => RpcStep::Reply(error_object("Missing 'message'".to_string())),
        }
    } else if crate::text::same(kind, "abort") {
        RpcStep::Stop(done_object("abort"))
    } else {
        RpcStep::Reply(error_object("Unknown command: ".to_string().concat(kind)))
    }
}

/// What is printed when a message has been dealt with.
pub fn prompt_done() -> (r: serde_json::Value)
    ensures
        json_of(r) == done_json("prompt"@),
{
    done_object("prompt")
}

/// Something that went wrong outside the commands. Each carries the error that it
/// met.
pub enum RpcFailure {
    SessionsDir(String),
    LoadSessions(String),
    CreateSession(String),
    WriteSystemMessage(String),
    Submit(String),
}

pub open spec fn rpc_failure_text(failed: RpcFailure) -> Seq<char> {
    match failed {
        RpcFailure::SessionsDir(e) => "Failed to find sessions dir: "@ + e@,
        RpcFailure::LoadSessions(e) => "Failed to load sessions: "@ + e@,
        RpcFailure::CreateSession(e) => "Failed to create session: "@ + e@,
        RpcFailure::WriteSystemMessage(e) => "Failed to write system message: "@ + e@,
        RpcFailure::Submit(e) => "Failed to submit: "@ + e@,
    }
}

pub fn rpc_failure(failed: RpcFailure) -> (r: serde_json::Value)
    ensures
        json_of(r) == error_json(rpc_failure_text(failed)),
{
    let text = match failed {
        RpcFailure::SessionsDir(e) => "Failed to find sessions dir: ".to_string().concat(
            e.as_str(),
        ),
        RpcFailure::LoadSessions(e) => "Failed to load sessions: ".to_string().concat(e.as_str()),
        RpcFailure::CreateSession(e) => "Failed to create session: ".to_string().concat(
            e.as_str(),
        ),
        RpcFailure::WriteSystemMessage(e) => "Failed to write system message: ".to_string().concat(
            e.as_str(),
        ),
        RpcFailure::Submit(e) => "Failed to submit: ".to_string().concat(e.as_str()),
    };
    error_object(text)
}

/// Only `abort` ends a session of commands.
pub proof fn law_only_abort_stops(step: RpcStep, command_type: Seq<char>, data: Json)
    requires
        follows(step, command_type, data),
    ensures
        step is Stop <==> command_type == "abort"@,
{
    reveal_strlit("abort");
    reveal_strlit("prompt");
    reveal_strlit("follow_up");
    assert("abort"@.len() == 5);
    assert("prompt"@.len() == 6);
    assert("follow_up"@.len() == 9);
}

} // verus!
