//! What holds of the parameters that a model is told of, over what the tools read.
use crate::json::{texts_in, Json};
use crate::model::{role_name, Role};
use crate::schemas::{
    append_message_schema, create_context_schema, model_properties, read_context_graph_schema,
    read_message_schema, run_agent_schema, run_turn_schema, APPEND_MESSAGE_NAME,
    CREATE_CONTEXT_NAME, READ_CONTEXT_GRAPH_NAME, READ_MESSAGE_NAME, RUN_AGENT_NAME, RUN_TURN_NAME,
};
use crate::text::{lemma_occurs, occurs};
use crate::tool_calls::create_error;
use crate::tool_laws::law_texts_are_read_in_order;
use crate::tools::append_error;
use vstd::prelude::*;

verus! {

/// What a schema says of a parameter.
pub open spec fn told_of(schema: Json, name: Seq<char>) -> Option<Json> {
    match schema.member("properties"@) {
        Some(properties) => properties.member(name),
        None => None,
    }
}

/// Whether a schema is one of an object and tells of a parameter of a type and describes it.
pub open spec fn tells(schema: Json, name: Seq<char>, kind: Seq<char>) -> bool {
    &&& schema.text_member("type"@) == Some("object"@)
    &&& told_of(schema, name) is Some
    &&& told_of(schema, name)->0.text_member("type"@) == Some(kind)
    &&& told_of(schema, name)->0.text_member("description"@) is Some
}

/// Whether a parameter is a list of texts.
pub open spec fn lists_texts(schema: Json, name: Seq<char>) -> bool {
    &&& tells(schema, name, "array"@)
    &&& told_of(schema, name)->0.member("items"@) is Some
    &&& told_of(schema, name)->0.member("items"@)->0.text_member("type"@) == Some("string"@)
}

/// Whether exactly these parameters have to be given.
pub open spec fn requires_just(schema: Json, names: Seq<Seq<char>>) -> bool {
    schema.array_member("required"@) matches Some(items) && texts_in(items) == names
}

proof fn lemma_keys()
    ensures
        "type"@ != "description"@,
        "type"@ != "properties"@,
        "type"@ != "required"@,
        "type"@ != "items"@,
        "type"@ != "enum"@,
        "description"@ != "properties"@,
        "description"@ != "items"@,
        "description"@ != "enum"@,
        "properties"@ != "required"@,
        "items"@ != "enum"@,
{
    reveal_strlit("type");
    reveal_strlit("description");
    reveal_strlit("properties");
    reveal_strlit("required");
    reveal_strlit("items");
    reveal_strlit("enum");
    assert("type"@.len() == 4 && "description"@.len() == 11 && "properties"@.len() == 10);
    assert("required"@.len() == 8 && "items"@.len() == 5 && "enum"@.len() == 4);
    assert("type"@[0] == 't' && "enum"@[0] == 'e');
}

proof fn lemma_names()
    ensures
        "context_id"@ != "message_ids"@,
        "context_id"@ != "user_prompt"@,
        "context_id"@ != "session_id"@,
        "context_id"@ != "model_id"@,
        "context_id"@ != "model_params"@,
        "context_id"@ != "role"@,
        "context_id"@ != "content"@,
        "context_id"@ != "depth"@,
        "message_ids"@ != "user_prompt"@,
        "message_ids"@ != "session_id"@,
        "message_ids"@ != "model_id"@,
        "message_ids"@ != "model_params"@,
        "message_ids"@ != "parents"@,
        "user_prompt"@ != "session_id"@,
        "user_prompt"@ != "model_id"@,
        "user_prompt"@ != "model_params"@,
        "session_id"@ != "model_id"@,
        "session_id"@ != "model_params"@,
        "session_id"@ != "depth"@,
        "model_id"@ != "model_params"@,
        "role"@ != "content"@,
        "thinking"@ != "max_tokens"@,
{
    reveal_strlit("context_id");
    reveal_strlit("message_ids");
    reveal_strlit("user_prompt");
    reveal_strlit("session_id");
    reveal_strlit("model_id");
    reveal_strlit("model_params");
    reveal_strlit("role");
    reveal_strlit("content");
    reveal_strlit("depth");
    reveal_strlit("parents");
    reveal_strlit("thinking");
    reveal_strlit("max_tokens");
    assert("context_id"@.len() == 10 && "message_ids"@.len() == 11 && "user_prompt"@.len() == 11);
    assert("session_id"@.len() == 10 && "model_id"@.len() == 8 && "model_params"@.len() == 12);
    assert("role"@.len() == 4 && "content"@.len() == 7 && "depth"@.len() == 5);
    assert("parents"@.len() == 7 && "thinking"@.len() == 8 && "max_tokens"@.len() == 10);
    assert("context_id"@[0] == 'c' && "session_id"@[0] == 's');
    assert("message_ids"@[0] == 'm' && "user_prompt"@[0] == 'u');
}

proof fn lemma_texts(texts: Seq<Seq<char>>)
    ensures
        texts_in(crate::json::text_array(texts).array()->0) == texts,
{
    law_texts_are_read_in_order(Seq::empty(), Seq::empty(), texts);
}

/// A model is told of all that a run can be asked for: what to start from, a prompt, a
/// session, which model, and how that is to think and how much it may write. Only the model
/// has to be given, and those that can be had are told.
pub proof fn law_runs_are_described(models: Seq<char>)
    ensures
        forall|schema: Json|
            #![trigger told_of(schema, "model_id"@)]
            schema == run_agent_schema(models) || schema == run_turn_schema(models) ==> {
                &&& tells(schema, "context_id"@, "string"@)
                &&& lists_texts(schema, "message_ids"@)
                &&& tells(schema, "user_prompt"@, "string"@)
                &&& tells(schema, "session_id"@, "string"@)
                &&& tells(schema, "model_id"@, "string"@)
                &&& tells(schema, "model_params"@, "object"@)
                &&& requires_just(schema, seq!["model_id"@])
                &&& occurs(
                    models,
                    told_of(schema, "model_id"@)->0.text_member("description"@)->0,
                )
                &&& tells(told_of(schema, "model_params"@)->0, "thinking"@, "string"@)
                &&& tells(told_of(schema, "model_params"@)->0, "max_tokens"@, "integer"@)
            },
{
    lemma_keys();
    lemma_names();
    lemma_texts(seq!["model_id"@]);
    lemma_occurs(
        "The model identifier to use for the turn. Available models: "@,
        models,
        Seq::empty(),
    );
    lemma_occurs("The model to call. Available: "@, models, Seq::empty());
    assert(model_properties().contains_key("thinking"@));
    assert(model_properties().contains_key("max_tokens"@));
}

/// A model is told how to enter the graph and how deep to go, none of which has to be given
/// by itself.
pub proof fn law_exploring_is_described()
    ensures
        tells(read_context_graph_schema(), "session_id"@, "string"@),
        tells(read_context_graph_schema(), "context_id"@, "string"@),
        tells(read_context_graph_schema(), "depth"@, "integer"@),
        read_context_graph_schema().member("required"@) is None,
        tells(read_message_schema(), "message_id"@, "string"@),
        requires_just(read_message_schema(), seq!["message_id"@]),
{
    lemma_keys();
    lemma_names();
    lemma_texts(seq!["message_id"@]);
}

/// What a model is told to give when it appends a message is what the tool refuses to do
/// without, and the roles it is told of are those that the tool knows.
pub proof fn law_appending_is_described(input: Json, caller: Seq<char>, role: Role)
    ensures
        tells(append_message_schema(), "context_id"@, "string"@),
        tells(append_message_schema(), "role"@, "string"@),
        tells(append_message_schema(), "content"@, "string"@),
        requires_just(append_message_schema(), seq!["role"@, "content"@]),
        input.member("role"@) is None ==> append_error(input, Some(caller)) is Some,
        input.member("content"@) is None ==> append_error(input, Some(caller)) is Some,
        ({
            let choices = told_of(append_message_schema(), "role"@)->0.array_member("enum"@);
            &&& choices is Some
            &&& texts_in(choices->0) == seq!["user"@, "assistant"@, "system"@]
            &&& texts_in(choices->0).contains(role_name(role))
        }),
{
    lemma_keys();
    lemma_names();
    lemma_texts(seq!["role"@, "content"@]);
    let roles = seq!["user"@, "assistant"@, "system"@];
    lemma_texts(roles);
    assert(roles[0] == "user"@ && roles[1] == "assistant"@ && roles[2] == "system"@);
    match role {
        Role::User => {
            assert(roles.contains(roles[0]));
        },
        Role::Assistant => {
            assert(roles.contains(roles[1]));
        },
        Role::System => {
            assert(roles.contains(roles[2]));
        },
    }
}

/// What a model is told to give when it creates a context is what the tool refuses to do
/// without.
pub proof fn law_creating_is_described(input: Json, caller: Seq<char>)
    ensures
        lists_texts(create_context_schema(), "message_ids"@),
        lists_texts(create_context_schema(), "parents"@),
        requires_just(create_context_schema(), seq!["message_ids"@]),
        input.member("message_ids"@) is None ==> create_error(input, Some(caller)) is Some,
{
    lemma_keys();
    lemma_names();
    lemma_texts(seq!["message_ids"@]);
}

/// The tools go by these names.
pub proof fn law_tools_are_named()
    ensures
        RUN_AGENT_NAME@ == "runAgent"@,
        RUN_TURN_NAME@ == "runTurn"@,
        READ_CONTEXT_GRAPH_NAME@ == "readContextGraph"@,
        READ_MESSAGE_NAME@ == "readMessage"@,
        APPEND_MESSAGE_NAME@ == "appendMessage"@,
        CREATE_CONTEXT_NAME@ == "createContext"@,
{
}

} // verus!
