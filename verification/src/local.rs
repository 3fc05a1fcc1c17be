//! Built-in file and shell tools: their definitions, how a call is turned into an action, and
//! how an action's outcome is reported back to the model.
use vstd::prelude::*;
use vstd::string::*;
use crate::openai::{function_def_text, object_schema_text, string_property_text, function_definition, object_schema, string_property};
use crate::text::{concat2, json_quoted, owned, str_equal, texts, utf8_lossy, utf8_lossy_text};

verus! {

/// Definition of the `Read` tool.
pub open spec fn read_tool_def() -> Seq<char> {
    function_def_text(
        "Read"@,
        "Read and return the contents of a file"@,
        object_schema_text(
            seq![string_property_text("file_path"@, "The path to the file to read"@)],
            seq!["file_path"@],
        ),
    )
}

/// Definition of the `Write` tool.
pub open spec fn write_tool_def() -> Seq<char> {
    function_def_text(
        "Write"@,
        "Write content to a file"@,
        object_schema_text(
            seq![
                string_property_text("file_path"@, "The path of the file to write to"@),
                string_property_text("content"@, "The content to write to the file"@),
            ],
            seq!["file_path"@, "content"@],
        ),
    )
}

/// Definition of the `Bash` tool.
pub open spec fn bash_tool_def() -> Seq<char> {
    function_def_text(
        "Bash"@,
        "Execute a shell command"@,
        object_schema_text(
            seq![string_property_text("command"@, "The command to execute"@)],
            seq!["command"@],
        ),
    )
}

/// The built-in tool definitions, in order.
pub open spec fn local_tool_definitions() -> Seq<Seq<char>> {
    seq![read_tool_def(), write_tool_def(), bash_tool_def()]
}

fn single(s: String) -> (v: Vec<String>)
    ensures
        v@ == seq![s],
{
    let mut v = Vec::new();
    v.push(s);
    v
}

fn pair(a: String, b: String) -> (v: Vec<String>)
    ensures
        v@ == seq![a, b],
{
    let mut v = Vec::new();
    v.push(a);
    v.push(b);
    v
}

fn read_definition() -> (res: String)
    ensures
        res@ == read_tool_def(),
{
    let props = single(string_property("file_path", "The path to the file to read"));
    let req = single(owned("file_path"));
    let params = object_schema(&props, &req);
    assert(texts(props@) =~= seq![string_property_text("file_path"@, "The path to the file to read"@)]);
    assert(texts(req@) =~= seq!["file_path"@]);
    function_definition("Read", "Read and return the contents of a file", params.as_str())
}

fn write_definition() -> (res: String)
    ensures
        res@ == write_tool_def(),
{
    let props = pair(
        string_property("file_path", "The path of the file to write to"),
        string_property("content", "The content to write to the file"),
    );
    let req = pair(owned("file_path"), owned("content"));
    let params = object_schema(&props, &req);
    assert(texts(props@) =~= seq![
        string_property_text("file_path"@, "The path of the file to write to"@),
        string_property_text("content"@, "The content to write to the file"@),
    ]);
    assert(texts(req@) =~= seq!["file_path"@, "content"@]);
    function_definition("Write", "Write content to a file", params.as_str())
}

fn bash_definition() -> (res: String)
    ensures
        res@ == bash_tool_def(),
{
    let props = single(string_property("command", "The command to execute"));
    let req = single(owned("command"));
    let params = object_schema(&props, &req);
    assert(texts(props@) =~= seq![string_property_text("command"@, "The command to execute"@)]);
    assert(texts(req@) =~= seq!["command"@]);
    function_definition("Bash", "Execute a shell command", params.as_str())
}

/// The built-in definitions as JSON texts: `Read`, `Write`, `Bash`.
pub fn local_definitions() -> (res: Vec<String>)
    ensures
        texts(res@) == local_tool_definitions(),
{
    let mut v = Vec::new();
    v.push(read_definition());
    v.push(write_definition());
    v.push(bash_definition());
    assert(texts(v@) =~= local_tool_definitions());
    v
}

/// The string-valued arguments that the built-in tools read.
pub struct LocalToolArgs {
    /// `file_path`, when it is a string.
    pub file_path: Option<String>,
    /// `content`, when it is a string.
    pub content: Option<String>,
    /// `command`, when it is a string.
    pub command: Option<String>,
}

/// What a built-in tool call asks to be done.
pub enum LocalAction {
    /// Read the file and answer its contents.
    ReadFile { path: String },
    /// Write `content` to the file.
    WriteFile { path: String, content: String },
    /// Run the command in the platform shell.
    RunCommand { command: String },
    /// Answer with this text without doing anything.
    Respond { text: String },
}

/// The action for a call of built-in tool `name`, or `None` when `name` is not built in.
pub open spec fn local_action_spec(name: Seq<char>, args: LocalToolArgs) -> Option<LocalAction> {
    if name == "Read"@ {
        Some(
            match args.file_path {
                Some(path) => LocalAction::ReadFile { path },
                None => LocalAction::Respond { text: arbitrary() },
            },
        )
    } else if name == "Write"@ {
        Some(
            match (args.file_path, args.content) {
                (Some(path), Some(content)) => LocalAction::WriteFile { path, content },
                _ => LocalAction::Respond { text: arbitrary() },
            },
        )
    } else if name == "Bash"@ {
        Some(
            match args.command {
                Some(command) => LocalAction::RunCommand { command },
                None => LocalAction::Respond { text: arbitrary() },
            },
        )
    } else {
        None
    }
}

/// The reply when a built-in tool lacks an argument.
pub open spec fn missing_argument_reply(name: Seq<char>) -> Seq<char> {
    if name == "Read"@ {
        "Error: file_path not provided"@
    } else if name == "Write"@ {
        "Error: file_path and content are required"@
    } else {
        "Error: command not provided"@
    }
}

/// Whether `res` is the action for a call of `name` with `args`.
pub open spec fn is_local_action(name: Seq<char>, args: LocalToolArgs, res: Option<LocalAction>) -> bool {
    match local_action_spec(name, args) {
        None => res is None,
        Some(LocalAction::Respond { .. }) => res matches Some(LocalAction::Respond { text })
            && text@ == missing_argument_reply(name),
        Some(a) => res == Some(a),
    }
}

/// The file and shell tools built into the agent.
pub struct LocalToolkit;

impl LocalToolkit {
    /// The tool definitions offered to the model.
    pub fn openai_functions(&self) -> (res: Vec<String>)
        ensures
            texts(res@) == local_tool_definitions(),
    {
        local_definitions()
    }

    /// What a call of `name` asks for; `None` when `name` is not one of these tools.
    pub fn plan(&self, name: &str, args: LocalToolArgs) -> (res: Option<LocalAction>)
        ensures
            is_local_action(name@, args, res),
    {
        if str_equal(name, "Read") {
            match args.file_path {
                Some(path) => Some(LocalAction::ReadFile { path }),
                None => Some(LocalAction::Respond { text: owned("Error: file_path not provided") }),
            }
        } else if str_equal(name, "Write") {
            match (args.file_path, args.content) {
                (Some(path), Some(content)) => Some(LocalAction::WriteFile { path, content }),
                _ => Some(
                    LocalAction::Respond { text: owned("Error: file_path and content are required") },
                ),
            }
        } else if str_equal(name, "Bash") {
            match args.command {
                Some(command) => Some(LocalAction::RunCommand { command }),
                None => Some(LocalAction::Respond { text: owned("Error: command not provided") }),
            }
        } else {
            None
        }
    }
}

/// Reply to a read: the file's text, or `Error: ` and the failure.
pub fn read_outcome(result: Result<String, String>) -> (res: String)
    ensures
        res@ == match result {
            Ok(text) => text@,
            Err(e) => "Error: "@ + e@,
        },
{
    match result {
        Ok(text) => text,
        Err(e) => concat2("Error: ", e.as_str()),
    }
}

/// Reply to a write of `path`.
pub fn write_outcome(path: &str, result: Result<(), String>) -> (res: String)
    ensures
        res@ == match result {
            Ok(()) => "Successfully wrote to "@ + path@,
            Err(e) => "Error writing file: "@ + e@,
        },
{
    match result {
        Ok(()) => concat2("Successfully wrote to ", path),
        Err(e) => concat2("Error writing file: ", e.as_str()),
    }
}

/// Reply to a shell command: its standard output, followed by its standard error when that is
/// not empty (both decoded leniently as UTF-8), or `Error executing command: ` and the failure
/// to start it.
pub fn command_outcome(result: Result<(Vec<u8>, Vec<u8>), String>) -> (res: String)
    ensures
        res@ == match result {
            Ok((out, err)) => utf8_lossy_text(out@) + utf8_lossy_text(err@),
            Err(e) => "Error executing command: "@ + e@,
        },
{
    match result {
        Ok((out, err)) => {
            let stdout = utf8_lossy(out.as_slice());
            let stderr = utf8_lossy(err.as_slice());
            if stderr.unicode_len() != 0 {
                concat2(stdout.as_str(), stderr.as_str())
            } else {
                assert(stdout@ + stderr@ =~= stdout@);
                stdout
            }
        },
        Err(e) => concat2("Error executing command: ", e.as_str()),
    }
}

} // verus!
