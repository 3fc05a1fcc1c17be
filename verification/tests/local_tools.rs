use agentlite::local::{command_outcome, read_outcome, write_outcome, LocalAction, LocalToolArgs, LocalToolkit};
use agentlite::tools::{tool_action, unknown_function_reply};

fn args(file_path: Option<&str>, content: Option<&str>, command: Option<&str>) -> LocalToolArgs {
    LocalToolArgs {
        file_path: file_path.map(String::from),
        content: content.map(String::from),
        command: command.map(String::from),
    }
}

fn reply_of(a: Option<LocalAction>) -> String {
    match a {
        Some(LocalAction::Respond { text }) => text,
        _ => panic!("expected a reply"),
    }
}

#[test]
fn plan_read() {
    match LocalToolkit.plan("Read", args(Some("a.txt"), None, None)) {
        Some(LocalAction::ReadFile { path }) => assert_eq!(path, "a.txt"),
        _ => panic!("expected a read"),
    }
    assert_eq!(reply_of(LocalToolkit.plan("Read", args(None, Some("x"), Some("y")))), "Error: file_path not provided");
}

#[test]
fn plan_write() {
    match LocalToolkit.plan("Write", args(Some("b.txt"), Some("hello"), None)) {
        Some(LocalAction::WriteFile { path, content }) => {
            assert_eq!(path, "b.txt");
            assert_eq!(content, "hello");
        }
        _ => panic!("expected a write"),
    }
    assert_eq!(
        reply_of(LocalToolkit.plan("Write", args(Some("b.txt"), None, None))),
        "Error: file_path and content are required"
    );
    assert_eq!(
        reply_of(LocalToolkit.plan("Write", args(None, Some("x"), None))),
        "Error: file_path and content are required"
    );
}

#[test]
fn plan_bash() {
    match LocalToolkit.plan("Bash", args(None, None, Some("ls -l"))) {
        Some(LocalAction::RunCommand { command }) => assert_eq!(command, "ls -l"),
        _ => panic!("expected a command"),
    }
    assert_eq!(reply_of(LocalToolkit.plan("Bash", args(Some("x"), None, None))), "Error: command not provided");
}

#[test]
fn plan_declines_other_names() {
    assert!(LocalToolkit.plan("read", args(Some("a"), None, None)).is_none());
    assert!(LocalToolkit.plan("Grep", args(None, None, None)).is_none());
    assert!(LocalToolkit.plan("", args(None, None, None)).is_none());
}

#[test]
fn tool_action_unknown_function() {
    match tool_action("Delete", args(None, None, None)) {
        LocalAction::Respond { text } => assert_eq!(text, "Error: Unknown function Delete"),
        _ => panic!("expected the unknown-function reply"),
    }
    match tool_action("Read", args(Some("c"), None, None)) {
        LocalAction::ReadFile { path } => assert_eq!(path, "c"),
        _ => panic!("expected a read"),
    }
    assert_eq!(unknown_function_reply(""), "Error: Unknown function ");
}

#[test]
fn outcomes() {
    assert_eq!(read_outcome(Ok("text".to_string())), "text");
    assert_eq!(read_outcome(Err("No such file or directory (os error 2)".to_string())), "Error: No such file or directory (os error 2)");
    assert_eq!(write_outcome("a.txt", Ok(())), "Successfully wrote to a.txt");
    assert_eq!(write_outcome("a.txt", Err("denied".to_string())), "Error writing file: denied");
    assert_eq!(command_outcome(Ok((b"out\n".to_vec(), Vec::new()))), "out\n");
    assert_eq!(command_outcome(Ok((b"out\n".to_vec(), b"warn\n".to_vec()))), "out\nwarn\n");
    assert_eq!(command_outcome(Ok((Vec::new(), b"only err".to_vec()))), "only err");
    assert_eq!(command_outcome(Ok((vec![0x66, 0xff, 0x6f], Vec::new()))), "f\u{fffd}o");
    assert_eq!(command_outcome(Err("not found".to_string())), "Error executing command: not found");
}
