//! The JSON schema of the input of the tool.

use crate::chat::read_input;
use crate::json::{
    array_value, bool_value, empty_object, json, member, set_member, text_in, text_value, JsonView,
};
use vstd::prelude::*;

verus! {

/// The schema of one property: its type and what it is for.
pub open spec fn property_json(kind: Seq<char>, description: Seq<char>) -> JsonView {
    JsonView::Object(
        map![
            "type"@ => JsonView::Text(kind),
            "description"@ => JsonView::Text(description),
        ],
    )
}

/// The schemas of the properties.
pub open spec fn properties_json() -> Map<Seq<char>, JsonView> {
    map![
        "alias"@ => property_json(
            "string"@,
            "Name of the model alias declared in config.toml [models.aliases]."@,
        ),
        "prompt"@ => property_json(
            "string"@,
            "The user/task message to send to the secondary model."@,
        ),
        "context"@ => property_json(
            "string"@,
            "Optional extra context prepended as a system message."@,
        ),
        "thread_id"@ => property_json(
            "string"@,
            "Optional thread ID for multi-turn conversation. Pass the ID returned by a previous llm_call to continue the same thread."@,
        ),
        "temperature"@ => property_json(
            "number"@,
            "Sampling temperature (0.0–2.0). Defaults to 0.3."@,
        ),
        "max_tokens"@ => property_json(
            "integer"@,
            "Maximum tokens in the response. Defaults to 4096."@,
        ),
    ]
}

/// The schema: an object with these properties and no others, of which an alias and a prompt must
/// be there.
pub open spec fn schema_json() -> JsonView {
    JsonView::Object(
        map![
            "type"@ => JsonView::Text("object"@),
            "properties"@ => JsonView::Object(properties_json()),
            "required"@ => JsonView::Array(
                seq![JsonView::Text("alias"@), JsonView::Text("prompt"@)],
            ),
            "additionalProperties"@ => JsonView::Bool(false),
        ],
    )
}

fn property_value(kind: &str, description: &str) -> (value: serde_json::Value)
    ensures
        json(value) == property_json(kind@, description@),
{
    let mut value = empty_object();
    set_member(&mut value, "type", text_value(kind));
    set_member(&mut value, "description", text_value(description));
    value
}

fn properties_value() -> (value: serde_json::Value)
    ensures
        json(value) == JsonView::Object(properties_json()),
{
    let mut value = empty_object();
    set_member(
        &mut value,
        "alias",
        property_value(
            "string",
            "Name of the model alias declared in config.toml [models.aliases].",
        ),
    );
    set_member(
        &mut value,
        "prompt",
        property_value("string", "The user/task message to send to the secondary model."),
    );
    set_member(
        &mut value,
        "context",
        property_value("string", "Optional extra context prepended as a system message."),
    );
    set_member(
        &mut value,
        "thread_id",
        property_value(
            "string",
            "Optional thread ID for multi-turn conversation. Pass the ID returned by a previous llm_call to continue the same thread.",
        ),
    );
    set_member(
        &mut value,
        "temperature",
        property_value("number", "Sampling temperature (0.0–2.0). Defaults to 0.3."),
    );
    set_member(
        &mut value,
        "max_tokens",
        property_value("integer", "Maximum tokens in the response. Defaults to 4096."),
    );
    value
}

/// The schema of the input.
pub fn schema_value() -> (schema: serde_json::Value)
    ensures
        json(schema) == schema_json(),
{
    let mut required: Vec<serde_json::Value> = Vec::new();
    required.push(text_value("alias"));
    required.push(text_value("prompt"));
    assert(required@.map_values(|item: serde_json::Value| json(item)) =~= seq![
        JsonView::Text("alias"@),
        JsonView::Text("prompt"@),
    ]);
    let mut schema = empty_object();
    set_member(&mut schema, "type", text_value("object"));
    set_member(&mut schema, "properties", properties_value());
    set_member(&mut schema, "required", array_value(required));
    set_member(&mut schema, "additionalProperties", bool_value(false));
    schema
}

// ---- laws ----

/// The schema promises what the tool does: an input is read exactly where the two properties that
/// it requires are there and are text.
pub proof fn required_properties_are_what_it_takes(input: JsonView)
    ensures
        read_input(input) is Ok <==> text_in(member(input, "alias"@)) is Some && text_in(
            member(input, "prompt"@),
        ) is Some,
        member(schema_json(), "required"@) == Some(
            JsonView::Array(seq![JsonView::Text("alias"@), JsonView::Text("prompt"@)]),
        ),
        member(JsonView::Object(properties_json()), "alias"@) is Some,
        member(JsonView::Object(properties_json()), "prompt"@) is Some,
{
    reveal_strlit("required");
    reveal_strlit("additionalProperties");
    assert("required"@.len() == 8 && "additionalProperties"@.len() == 20);
}

/// The schema describes an object of six properties, four texts, a number and an integer, each with
/// its type and what it is for, and allows no others.
pub proof fn schema_describes_six_properties(name: Seq<char>)
    ensures
        ({
            let schema = schema_json();
            let properties = schema->Object_0["properties"@];
            let text = JsonView::Text("string"@);
            &&& schema is Object
            &&& schema->Object_0.dom() == set![
                "type"@, "properties"@, "required"@, "additionalProperties"@,
            ]
            &&& schema->Object_0["type"@] == JsonView::Text("object"@)
            &&& schema->Object_0["additionalProperties"@] == JsonView::Bool(false)
            &&& properties is Object
            &&& properties->Object_0.dom() == set![
                "alias"@, "prompt"@, "context"@, "thread_id"@, "temperature"@, "max_tokens"@,
            ]
            &&& properties->Object_0.dom().contains(name) ==> {
                let property = properties->Object_0[name];
                &&& property is Object
                &&& property->Object_0.dom() == set!["type"@, "description"@]
                &&& property->Object_0["type"@] == (if name == "temperature"@ {
                    JsonView::Text("number"@)
                } else if name == "max_tokens"@ {
                    JsonView::Text("integer"@)
                } else {
                    text
                })
            }
            &&& properties->Object_0["alias"@]->Object_0["description"@] == JsonView::Text(
                "Name of the model alias declared in config.toml [models.aliases]."@,
            )
            &&& properties->Object_0["prompt"@]->Object_0["description"@] == JsonView::Text(
                "The user/task message to send to the secondary model."@,
            )
            &&& properties->Object_0["context"@]->Object_0["description"@] == JsonView::Text(
                "Optional extra context prepended as a system message."@,
            )
            &&& properties->Object_0["thread_id"@]->Object_0["description"@] == JsonView::Text(
                "Optional thread ID for multi-turn conversation. Pass the ID returned by a previous llm_call to continue the same thread."@,
            )
            &&& properties->Object_0["temperature"@]->Object_0["description"@] == JsonView::Text(
                "Sampling temperature (0.0–2.0). Defaults to 0.3."@,
            )
            &&& properties->Object_0["max_tokens"@]->Object_0["description"@] == JsonView::Text(
                "Maximum tokens in the response. Defaults to 4096."@,
            )
        }),
{
    reveal_strlit("type");
    reveal_strlit("description");
    reveal_strlit("properties");
    reveal_strlit("required");
    reveal_strlit("additionalProperties");
    reveal_strlit("alias");
    reveal_strlit("prompt");
    reveal_strlit("context");
    reveal_strlit("thread_id");
    reveal_strlit("temperature");
    reveal_strlit("max_tokens");
    assert("type"@.len() == 4 && "description"@.len() == 11 && "properties"@.len() == 10);
    assert("required"@.len() == 8 && "additionalProperties"@.len() == 20);
    assert("alias"@.len() == 5 && "prompt"@.len() == 6 && "context"@.len() == 7);
    assert("thread_id"@.len() == 9 && "temperature"@.len() == 11 && "max_tokens"@.len() == 10);
    let schema = schema_json();
    assert(schema->Object_0.dom() =~= set![
        "type"@, "properties"@, "required"@, "additionalProperties"@,
    ]);
    assert(properties_json().dom() =~= set![
        "alias"@, "prompt"@, "context"@, "thread_id"@, "temperature"@, "max_tokens"@,
    ]);
    if properties_json().dom().contains(name) {
        assert(properties_json()[name]->Object_0.dom() =~= set!["type"@, "description"@]);
    }
}

} // verus!
