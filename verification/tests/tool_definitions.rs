use agentlite::local::LocalToolkit;
use agentlite::openai::{function_definition, mcp_tool_to_openai_function, object_schema, string_property};
use agentlite::tools::get_tool_definitions;
use serde_json::Value;

fn parse(s: &str) -> Value {
    serde_json::from_str(s).expect("valid JSON")
}

const READ: &str = r#"{"type":"function","function":{"name":"Read","description":"Read and return the contents of a file","parameters":{"type":"object","properties":{"file_path":{"type":"string","description":"The path to the file to read"}},"required":["file_path"]}}}"#;
const WRITE: &str = r#"{"type":"function","function":{"name":"Write","description":"Write content to a file","parameters":{"type":"object","properties":{"file_path":{"type":"string","description":"The path of the file to write to"},"content":{"type":"string","description":"The content to write to the file"}},"required":["file_path","content"]}}}"#;
const BASH: &str = r#"{"type":"function","function":{"name":"Bash","description":"Execute a shell command","parameters":{"type":"object","properties":{"command":{"type":"string","description":"The command to execute"}},"required":["command"]}}}"#;

#[test]
fn local_toolkit_definitions_match_the_three_tools() {
    let defs = LocalToolkit.openai_functions();
    assert_eq!(defs.len(), 3);
    assert_eq!(parse(&defs[0]), parse(READ));
    assert_eq!(parse(&defs[1]), parse(WRITE));
    assert_eq!(parse(&defs[2]), parse(BASH));
}

#[test]
fn tool_table_definitions_equal_toolkit_definitions() {
    assert_eq!(get_tool_definitions(), LocalToolkit.openai_functions());
}

fn name_text(name: &str) -> String {
    let d = function_definition(name, "", "{}");
    let start = "{\"type\":\"function\",\"function\":{\"name\":".len();
    let end = d.find(",\"description\":").unwrap();
    d[start..end].to_string()
}

#[test]
fn names_are_written_as_json_strings() {
    assert_eq!(name_text("plain"), "\"plain\"");
    assert_eq!(name_text("a\"b\\c"), "\"a\\\"b\\\\c\"");
    assert_eq!(name_text("\n\t\r\u{8}\u{c}"), "\"\\n\\t\\r\\b\\f\"");
    assert_eq!(name_text("\u{1}\u{1f}"), "\"\\u0001\\u001f\"");
    assert_eq!(name_text("h\u{e9}\u{7f}/"), "\"h\u{e9}\u{7f}/\"");
}

#[test]
fn function_definition_text() {
    let params = object_schema(&vec![string_property("q", "query \"text\"")], &vec!["q".to_string()]);
    assert_eq!(
        params,
        r#"{"type":"object","properties":{"q":{"type":"string","description":"query \"text\""}},"required":["q"]}"#
    );
    let d = function_definition("find", "Find things", &params);
    assert_eq!(
        parse(&d),
        parse(r#"{"type":"function","function":{"name":"find","description":"Find things","parameters":{"type":"object","properties":{"q":{"type":"string","description":"query \"text\""}},"required":["q"]}}}"#)
    );
}

#[test]
fn object_schema_without_properties() {
    assert_eq!(object_schema(&vec![], &vec![]), r#"{"type":"object","properties":{},"required":[]}"#);
}

#[test]
fn mcp_tool_definition_defaults() {
    let d = mcp_tool_to_openai_function("fs__read_file", None, None);
    assert_eq!(
        parse(&d),
        parse(r#"{"type":"function","function":{"name":"fs__read_file","description":"","parameters":{"type":"object","properties":{}}}}"#)
    );
    let d = mcp_tool_to_openai_function(
        "fs__list",
        Some("List a directory".to_string()),
        Some(r#"{"type":"object","properties":{"path":{"type":"string"}}}"#.to_string()),
    );
    assert_eq!(
        parse(&d),
        parse(r#"{"type":"function","function":{"name":"fs__list","description":"List a directory","parameters":{"type":"object","properties":{"path":{"type":"string"}}}}}"#)
    );
}
