//! OpenAI chat `tools[]` entries, written as JSON text.
use vstd::prelude::*;
use vstd::string::*;
use crate::text::{json_quoted, json_string, seq_join, texts, join};

verus! {

/// JSON text of a `tools[]` entry of type `function`.
pub open spec fn function_def_text(
    name: Seq<char>,
    description: Seq<char>,
    parameters: Seq<char>,
) -> Seq<char> {
    "{\"type\":\"function\",\"function\":{\"name\":"@ + json_quoted(name) + ",\"description\":"@
        + json_quoted(description) + ",\"parameters\":"@ + parameters + "}}"@
}

/// JSON text of a string-typed property of an object schema: `"name":{...}`.
pub open spec fn string_property_text(name: Seq<char>, description: Seq<char>) -> Seq<char> {
    json_quoted(name) + ":{\"type\":\"string\",\"description\":"@ + json_quoted(description)
        + "}"@
}

/// JSON text of an object schema with the given (already written) properties and required
/// property names.
pub open spec fn object_schema_text(properties: Seq<Seq<char>>, required: Seq<Seq<char>>) -> Seq<
    char,
> {
    "{\"type\":\"object\",\"properties\":{"@ + seq_join(properties, ","@) + "},\"required\":["@
        + seq_join(required.map_values(|r: Seq<char>| json_quoted(r)), ","@) + "]}"@
}

/// Parameters used for an MCP tool whose input schema could not be written as JSON.
pub open spec fn empty_object_schema() -> Seq<char> {
    "{\"type\":\"object\",\"properties\":{}}"@
}

/// The text of an optional string, or `default` when absent.
pub open spec fn text_or(o: Option<String>, default: Seq<char>) -> Seq<char> {
    match o {
        Some(s) => s@,
        None => default,
    }
}

/// JSON text of a `tools[]` entry of type `function`.
pub fn function_definition(name: &str, description: &str, parameters: &str) -> (res: String)
    ensures
        res@ == function_def_text(name@, description@, parameters@),
{
    let mut r = String::new();
    r.append("{\"type\":\"function\",\"function\":{\"name\":");
    r.append(json_string(name).as_str());
    r.append(",\"description\":");
    r.append(json_string(description).as_str());
    r.append(",\"parameters\":");
    r.append(parameters);
    r.append("}}");
    assert(r@ =~= function_def_text(name@, description@, parameters@));
    r
}

/// JSON text `"name":{"type":"string","description":...}`.
pub fn string_property(name: &str, description: &str) -> (res: String)
    ensures
        res@ == string_property_text(name@, description@),
{
    let mut r = json_string(name);
    r.append(":{\"type\":\"string\",\"description\":");
    r.append(json_string(description).as_str());
    r.append("}");
    assert(r@ =~= string_property_text(name@, description@));
    r
}

/// JSON text of an object schema with the given properties and required property names.
pub fn object_schema(properties: &Vec<String>, required: &Vec<String>) -> (res: String)
    ensures
        res@ == object_schema_text(texts(properties@), texts(required@)),
{
    let mut quoted: Vec<String> = Vec::new();
    let n = required.len();
    let mut i: usize = 0;
    while i < n
        invariant
            n == required@.len(),
            i <= n,
            quoted@.len() == i,
            forall|j: int| 0 <= j < i ==> #[trigger] quoted@[j]@ == json_quoted(required@[j]@),
        decreases n - i,
    {
        quoted.push(json_string(required[i].as_str()));
        i += 1;
    }
    assert(texts(quoted@) =~= texts(required@).map_values(|r: Seq<char>| json_quoted(r)));
    let mut r = String::new();
    r.append("{\"type\":\"object\",\"properties\":{");
    r.append(join(properties, ",").as_str());
    r.append("},\"required\":[");
    r.append(join(&quoted, ",").as_str());
    r.append("]}");
    assert(r@ =~= object_schema_text(texts(properties@), texts(required@)));
    r
}

/// The `tools[]` entry for an MCP tool under its exposed name. A missing description becomes
/// empty; a schema that could not be written as JSON (`None`) becomes an empty object schema.
pub fn mcp_tool_to_openai_function(
    exposed_name: &str,
    description: Option<String>,
    input_schema: Option<String>,
) -> (res: String)
    ensures
        res@ == function_def_text(
            exposed_name@,
            text_or(description, Seq::empty()),
            text_or(input_schema, empty_object_schema()),
        ),
{
    let description = match description {
        Some(d) => d,
        None => String::new(),
    };
    let parameters = match input_schema {
        Some(p) => p,
        None => "{\"type\":\"object\",\"properties\":{}}".to_owned(),
    };
    function_definition(exposed_name, description.as_str(), parameters.as_str())
}

} // verus!
