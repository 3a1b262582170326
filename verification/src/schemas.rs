//! The names, descriptions and parameters by which a model knows the tools.
use crate::json::{
    array_of_texts, group_members, json_of, object, object_of_one, object_of_two, string,
    text_array, Json,
};
use crate::text::{group_views, join, joined, views};
use vstd::prelude::*;

verus! {

// ---------------------------------------------------------------------------
// Texts
// ---------------------------------------------------------------------------

pub const RUN_AGENT_NAME: &'static str = "runAgent";

pub const RUN_TURN_NAME: &'static str = "runTurn";

pub const READ_CONTEXT_GRAPH_NAME: &'static str = "readContextGraph";

pub const READ_MESSAGE_NAME: &'static str = "readMessage";

pub const APPEND_MESSAGE_NAME: &'static str = "appendMessage";

pub const CREATE_CONTEXT_NAME: &'static str = "createContext";

pub const RUN_AGENT_DESCRIPTION: &'static str =
    "Starts a full agent loop (LLM turn, tool calls, repeat until done), async. Writes resulting messages back to the store and updates the session head. Requires either context_id or message_ids for conversation history. Session can be a new name and the corresponding session will be created. If not provided a random one will be created and returned.";

pub const RUN_AGENT_HINT: &'static str =
    " *Always* use `readContextGraph` on the current session before using runAgent to pass context from this session.";

pub const RUN_TURN_DESCRIPTION: &'static str =
    "Invoke an LLM for a single response (no tool calls, no agent loop). The model's native capabilities are enabled automatically -- Gemini models get search grounding and code execution. Writes the response to a session asynchronously. Use this for research queries, getting a second opinion, or any case where you want a direct model response without agentic tool use.";

pub const READ_CONTEXT_GRAPH_DESCRIPTION: &'static str =
    "Explore the context DAG reachable from a session or context. Requires either session_id or context_id as an entry point. Returns a flat list of context nodes with parent references and diffs showing which messages were added/removed at each step. The entry context shows its full message list. Message IDs include inline summaries so you can understand the conversation without follow-up readMessage calls.";

pub const READ_MESSAGE_DESCRIPTION: &'static str =
    "Returns the full text of a single message, and the provenance & metadata associated with its creation. Useful for precise reading of message data when you want to inspect a message id.";

pub const APPEND_MESSAGE_DESCRIPTION: &'static str =
    "Create a message and advance a context in one step. Returns both the new context_id (primary -- pass to appendMessage, createContext, or runAgent) and the message_id (secondary -- useful for cherry-picking in createContext). If context_id is omitted, creates a fresh context containing only the new message.";

pub const CREATE_CONTEXT_DESCRIPTION: &'static str =
    "Create a new context from an ordered list of message IDs. Optionally specify parent context IDs for DAG lineage. Returns the new context_id. Use this to compose, merge, filter, or fork contexts.";

/// What `runAgent` is described as. In the server it comes with a hint.
pub fn run_agent_description(served: bool) -> (r: String)
    ensures
        r@ == RUN_AGENT_DESCRIPTION@ + if served {
            RUN_AGENT_HINT@
        } else {
            Seq::empty()
        },
{
    let mut r = RUN_AGENT_DESCRIPTION.to_string();
    if served {
        r.append(RUN_AGENT_HINT);
    }
    assert(r@ =~= RUN_AGENT_DESCRIPTION@ + if served {
        RUN_AGENT_HINT@
    } else {
        Seq::empty()
    });
    r
}

// ---------------------------------------------------------------------------
// Schemas
// ---------------------------------------------------------------------------

/// A parameter of a simple type.
pub open spec fn param(kind: Seq<char>, description: Seq<char>) -> Json {
    Json::Object(map!["type"@ => Json::Text(kind), "description"@ => Json::Text(description)])
}

/// A parameter that is a list of texts.
pub open spec fn texts_param(description: Seq<char>) -> Json {
    Json::Object(
        map![
            "type"@ => Json::Text("array"@),
            "items"@ => Json::Object(map!["type"@ => Json::Text("string"@)]),
            "description"@ => Json::Text(description),
        ],
    )
}

/// A parameter that is one of some texts.
pub open spec fn choice_param(choices: Seq<Seq<char>>, description: Seq<char>) -> Json {
    Json::Object(
        map![
            "type"@ => Json::Text("string"@),
            "enum"@ => text_array(choices),
            "description"@ => Json::Text(description),
        ],
    )
}

/// A parameter that is an object.
pub open spec fn object_param(description: Seq<char>, properties: Map<Seq<char>, Json>) -> Json {
    Json::Object(
        map![
            "type"@ => Json::Text("object"@),
            "description"@ => Json::Text(description),
            "properties"@ => Json::Object(properties),
        ],
    )
}

/// The parameters of a tool of which some are required.
pub open spec fn schema(properties: Map<Seq<char>, Json>, required: Seq<Seq<char>>) -> Json {
    Json::Object(
        map![
            "type"@ => Json::Text("object"@),
            "properties"@ => Json::Object(properties),
            "required"@ => text_array(required),
        ],
    )
}

/// The parameters of a tool of which none is required by itself.
pub open spec fn free_schema(properties: Map<Seq<char>, Json>) -> Json {
    Json::Object(
        map!["type"@ => Json::Text("object"@), "properties"@ => Json::Object(properties)],
    )
}

fn make_param(kind: &str, description: &str) -> (r: serde_json::Value)
    ensures
        json_of(r) == param(kind@, description@),
{
    object_of_two(
        "type",
        string(kind.to_string()),
        "description",
        string(description.to_string()),
    )
}

fn make_texts_param(description: &str) -> (r: serde_json::Value)
    ensures
        json_of(r) == texts_param(description@),
{
    broadcast use group_members;

    let mut fields: Vec<(String, serde_json::Value)> = Vec::new();
    fields.push(("type".to_string(), string("array".to_string())));
    fields.push(("items".to_string(), object_of_one("type", string("string".to_string()))));
    fields.push(("description".to_string(), string(description.to_string())));
    object(fields)
}

fn make_choice_param(choices: &Vec<String>, description: &str) -> (r: serde_json::Value)
    ensures
        json_of(r) == choice_param(views(choices@), description@),
{
    broadcast use group_members;

    let mut fields: Vec<(String, serde_json::Value)> = Vec::new();
    fields.push(("type".to_string(), string("string".to_string())));
    fields.push(("enum".to_string(), array_of_texts(choices)));
    fields.push(("description".to_string(), string(description.to_string())));
    object(fields)
}

fn make_object_param(description: &str, properties: serde_json::Value) -> (r: serde_json::Value)
    requires
        json_of(properties) is Object,
    ensures
        json_of(r) == object_param(description@, json_of(properties)->Object_0),
{
    broadcast use group_members;

    let mut fields: Vec<(String, serde_json::Value)> = Vec::new();
    fields.push(("type".to_string(), string("object".to_string())));
    fields.push(("description".to_string(), string(description.to_string())));
    fields.push(("properties".to_string(), properties));
    object(fields)
}

fn make_schema(properties: serde_json::Value, required: &Vec<String>) -> (r: serde_json::Value)
    requires
        json_of(properties) is Object,
    ensures
        json_of(r) == schema(json_of(properties)->Object_0, views(required@)),
{
    broadcast use group_members;

    let mut fields: Vec<(String, serde_json::Value)> = Vec::new();
    fields.push(("type".to_string(), string("object".to_string())));
    fields.push(("properties".to_string(), properties));
    fields.push(("required".to_string(), array_of_texts(required)));
    object(fields)
}

fn one_text(a: &str) -> (r: Vec<String>)
    ensures
        views(r@) == seq![a@],
{
    broadcast use group_views;

    let mut r: Vec<String> = Vec::new();
    r.push(a.to_string());
    assert(views(r@) =~= seq![a@]);
    r
}

fn two_texts(a: &str, b: &str) -> (r: Vec<String>)
    ensures
        views(r@) == seq![a@, b@],
{
    broadcast use group_views;

    let mut r: Vec<String> = Vec::new();
    r.push(a.to_string());
    r.push(b.to_string());
    assert(views(r@) =~= seq![a@, b@]);
    r
}

// ---------------------------------------------------------------------------
// runAgent and runTurn
// ---------------------------------------------------------------------------

/// The parameters for the model.
pub open spec fn model_properties() -> Map<Seq<char>, Json> {
    map![
        "thinking"@ => param("string"@, "Thinking level: off, low, medium, high, xhigh"@),
        "max_tokens"@ => param("integer"@, "Maximum output tokens."@),
    ]
}

fn make_model_params(description: &str) -> (r: serde_json::Value)
    ensures
        json_of(r) == object_param(description@, model_properties()),
{
    let properties = object_of_two(
        "thinking",
        make_param("string", "Thinking level: off, low, medium, high, xhigh"),
        "max_tokens",
        make_param("integer", "Maximum output tokens."),
    );
    make_object_param(description, properties)
}

/// The parameters of `runAgent`. `models` are the models that can be had.
pub open spec fn run_agent_schema(models: Seq<char>) -> Json {
    schema(
        map![
            "context_id"@ => param(
                "string"@,
                "A context ID to use as the prompt history. Resolves to its message list. Preferred over message_ids."@,
            ),
            "message_ids"@ => texts_param(
                "A list of message ids making up the prompt history for this turn to start from. Used when context_id is not provided."@,
            ),
            "user_prompt"@ => param(
                "string"@,
                "Text to append as a user message just before initiating the new turn."@,
            ),
            "session_id"@ => param(
                "string"@,
                "The session to update with the turn. Use an existing session to extend it, or skip and a random id will be created."@,
            ),
            "model_id"@ => param("string"@, "The model identifier to use for the turn. Available models: "@ + models),
            "model_params"@ => object_param("Parameters to pass to the model."@, model_properties()),
        ],
        seq!["model_id"@],
    )
}

pub fn run_agent_parameters(models: &Vec<String>) -> (r: serde_json::Value)
    ensures
        json_of(r) == run_agent_schema(joined(views(models@), ", "@)),
{
    broadcast use group_members;

    let list = join(models, ", ");
    let model_text = "The model identifier to use for the turn. Available models: ".to_string().concat(list.as_str());
    let mut fields: Vec<(String, serde_json::Value)> = Vec::new();
    fields.push(
        (
            "context_id".to_string(),
            make_param(
                "string",
                "A context ID to use as the prompt history. Resolves to its message list. Preferred over message_ids.",
            ),
        ),
    );
    fields.push(
        (
            "message_ids".to_string(),
            make_texts_param(
                "A list of message ids making up the prompt history for this turn to start from. Used when context_id is not provided.",
            ),
        ),
    );
    fields.push(
        (
            "user_prompt".to_string(),
            make_param(
                "string",
                "Text to append as a user message just before initiating the new turn.",
            ),
        ),
    );
    fields.push(
        (
            "session_id".to_string(),
            make_param(
                "string",
                "The session to update with the turn. Use an existing session to extend it, or skip and a random id will be created.",
            ),
        ),
    );
    fields.push(("model_id".to_string(), make_param("string", model_text.as_str())));
    fields.push(
        ("model_params".to_string(), make_model_params("Parameters to pass to the model.")),
    );
    make_schema(object(fields), &one_text("model_id"))
}

/// The parameters of `runTurn`. `models` are the models that can be had.
pub open spec fn run_turn_schema(models: Seq<char>) -> Json {
    schema(
        map![
            "context_id"@ => param(
                "string"@,
                "A context ID to use as the prompt history. Resolves to its message list. Preferred over message_ids."@,
            ),
            "message_ids"@ => texts_param(
                "A list of message ids making up the prompt history. Used when context_id is not provided."@,
            ),
            "user_prompt"@ => param(
                "string"@,
                "Text to append as a user message before the LLM call."@,
            ),
            "session_id"@ => param(
                "string"@,
                "The session to write the response to. Created if it doesn't exist."@,
            ),
            "model_id"@ => param("string"@, "The model to call. Available: "@ + models),
            "model_params"@ => object_param("Parameters for the model call."@, model_properties()),
        ],
        seq!["model_id"@],
    )
}

pub fn run_turn_parameters(models: &Vec<String>) -> (r: serde_json::Value)
    ensures
        json_of(r) == run_turn_schema(joined(views(models@), ", "@)),
{
    broadcast use group_members;

    let list = join(models, ", ");
    let model_text = "The model to call. Available: ".to_string().concat(list.as_str());
    let mut fields: Vec<(String, serde_json::Value)> = Vec::new();
    fields.push(
        (
            "context_id".to_string(),
            make_param(
                "string",
                "A context ID to use as the prompt history. Resolves to its message list. Preferred over message_ids.",
            ),
        ),
    );
    fields.push(
        (
            "message_ids".to_string(),
            make_texts_param(
                "A list of message ids making up the prompt history. Used when context_id is not provided.",
            ),
        ),
    );
    fields.push(
        (
            "user_prompt".to_string(),
            make_param(
                "string",
                "Text to append as a user message before the LLM call.",
            ),
        ),
    );
    fields.push(
        (
            "session_id".to_string(),
            make_param(
                "string",
                "The session to write the response to. Created if it doesn't exist.",
            ),
        ),
    );
    fields.push(("model_id".to_string(), make_param("string", model_text.as_str())));
    fields.push(
        ("model_params".to_string(), make_model_params("Parameters for the model call.")),
    );
    make_schema(object(fields), &one_text("model_id"))
}

// ---------------------------------------------------------------------------
// readContextGraph
// ---------------------------------------------------------------------------

/// The parameters of `readContextGraph`.
pub open spec fn read_context_graph_schema() -> Json {
    free_schema(
        map![
            "session_id"@ => param(
                "string"@,
                "Session to explore (resolves to its head context)."@,
            ),
            "context_id"@ => param(
                "string"@,
                "Context to explore directly. Takes precedence over session_id."@,
            ),
            "depth"@ => param(
                "integer"@,
                "Max traversal depth in each direction. Default 10."@,
            ),
        ],
    )
}

pub fn read_context_graph_parameters() -> (r: serde_json::Value)
    ensures
        json_of(r) == read_context_graph_schema(),
{
    broadcast use {group_members, group_views};

    let mut fields: Vec<(String, serde_json::Value)> = Vec::new();
    fields.push(
        (
            "session_id".to_string(),
            make_param("string", "Session to explore (resolves to its head context)."),
        ),
    );
    fields.push(
        (
            "context_id".to_string(),
            make_param("string", "Context to explore directly. Takes precedence over session_id."),
        ),
    );
    fields.push(
        (
            "depth".to_string(),
            make_param("integer", "Max traversal depth in each direction. Default 10."),
        ),
    );
    object_of_two("type", string("object".to_string()), "properties", object(fields))
}

// ---------------------------------------------------------------------------
// readMessage
// ---------------------------------------------------------------------------

/// The parameters of `readMessage`.
pub open spec fn read_message_schema() -> Json {
    schema(
        map![
            "message_id"@ => param(
                "string"@,
                "The message ID to read."@,
            ),
        ],
        seq!["message_id"@],
    )
}

pub fn read_message_parameters() -> (r: serde_json::Value)
    ensures
        json_of(r) == read_message_schema(),
{
    broadcast use {group_members, group_views};

    let mut fields: Vec<(String, serde_json::Value)> = Vec::new();
    fields.push(
        (
            "message_id".to_string(),
            make_param("string", "The message ID to read."),
        ),
    );
    make_schema(object(fields), &one_text("message_id"))
}

// ---------------------------------------------------------------------------
// appendMessage
// ---------------------------------------------------------------------------

/// The parameters of `appendMessage`.
pub open spec fn append_message_schema() -> Json {
    schema(
        map![
            "context_id"@ => param(
                "string"@,
                "Context to append to. If omitted, creates a fresh context."@,
            ),
            "role"@ => choice_param(
                seq!["user"@, "assistant"@, "system"@],
                "The role of the message."@,
            ),
            "content"@ => param(
                "string"@,
                "Text content of the message."@,
            ),
        ],
        seq!["role"@, "content"@],
    )
}

pub fn append_message_parameters() -> (r: serde_json::Value)
    ensures
        json_of(r) == append_message_schema(),
{
    broadcast use {group_members, group_views};

    let mut roles = two_texts("user", "assistant");
    roles.push("system".to_string());
    assert(views(roles@) =~= seq!["user"@, "assistant"@, "system"@]);
    let mut fields: Vec<(String, serde_json::Value)> = Vec::new();
    fields.push(
        (
            "context_id".to_string(),
            make_param("string", "Context to append to. If omitted, creates a fresh context."),
        ),
    );
    fields.push(
        (
            "role".to_string(),
            make_choice_param(&roles, "The role of the message."),
        ),
    );
    fields.push(
        (
            "content".to_string(),
            make_param("string", "Text content of the message."),
        ),
    );
    make_schema(object(fields), &two_texts("role", "content"))
}

// ---------------------------------------------------------------------------
// createContext
// ---------------------------------------------------------------------------

/// The parameters of `createContext`.
pub open spec fn create_context_schema() -> Json {
    schema(
        map![
            "message_ids"@ => texts_param(
                "Ordered list of message IDs that make up this context."@,
            ),
            "parents"@ => texts_param(
                "Parent context IDs for DAG lineage tracking. Optional."@,
            ),
        ],
        seq!["message_ids"@],
    )
}

pub fn create_context_parameters() -> (r: serde_json::Value)
    ensures
        json_of(r) == create_context_schema(),
{
    broadcast use {group_members, group_views};

    let mut fields: Vec<(String, serde_json::Value)> = Vec::new();
    fields.push(
        (
            "message_ids".to_string(),
            make_texts_param("Ordered list of message IDs that make up this context."),
        ),
    );
    fields.push(
        (
            "parents".to_string(),
            make_texts_param("Parent context IDs for DAG lineage tracking. Optional."),
        ),
    );
    make_schema(object(fields), &one_text("message_ids"))
}

} // verus!
