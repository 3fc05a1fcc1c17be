use agentlite::audit::AuditCall;
use agentlite::catalog::{
    format_call_tool_result, mcp_error_reply, sanitize_label, unknown_route_reply, CallToolOutcome,
    ConnectError, ContentPart, DispatchStep, McpToolInfo, NativeDefinition, NativeTools, ToolBackend,
    ToolCatalog, ToolCatalogBuilder,
};
use agentlite::config::McpServerEntry;
use agentlite::local::LocalToolkit;
use std::collections::HashMap;

type Builder = ToolCatalogBuilder<&'static str, ()>;

fn native(name: Option<&str>) -> NativeDefinition {
    NativeDefinition {
        name: name.map(String::from),
        definition: format!("{{\"type\":\"function\",\"function\":{{\"name\":\"{}\"}}}}", name.unwrap_or("")),
    }
}

fn local_defs() -> Vec<NativeDefinition> {
    vec![native(Some("Read")), native(Some("Write")), native(Some("Bash"))]
}

fn tool(name: &str) -> McpToolInfo {
    McpToolInfo { name: name.to_string(), description: Some(format!("does {}", name)), input_schema: None }
}

fn server(label: &str) -> McpServerEntry {
    McpServerEntry {
        label: label.to_string(),
        command: "mcp-server".to_string(),
        args: vec!["--stdio".to_string()],
        env: HashMap::new(),
        url: None,
        headers: HashMap::new(),
        bearer_token: None,
    }
}

fn catalog_with_fs() -> ToolCatalog<&'static str, u32, ()> {
    let b = Builder::with_default_natives().mcp_servers(vec![server("my-fs")]);
    let (assembly, servers) = b.start_connect::<u32>(local_defs()).ok().unwrap();
    assert_eq!(servers.len(), 1);
    assert_eq!(servers[0].label, "my-fs");
    assembly.add_mcp_server(&servers[0].label, vec![tool("read_file"), tool("list")], 7).ok().unwrap().finish()
}

#[test]
fn sanitize_label_replaces_non_alphanumerics() {
    assert_eq!(sanitize_label("my-fs.server"), "my_fs_server");
    assert_eq!(sanitize_label("Git Hub2"), "Git_Hub2");
    assert_eq!(sanitize_label("caf\u{e9}"), "caf_");
    assert_eq!(sanitize_label(""), "");
}

#[test]
fn builder_defaults() {
    let b = Builder::with_default_natives().register_native("extra").audit_log(Some(()));
    let (assembly, servers) = b.start_connect::<u32>(local_defs()).ok().unwrap();
    assert!(servers.is_empty());
    let cat = assembly.finish();
    assert_eq!(cat.backends().len(), 2);
    assert!(matches!(&cat.backends()[0], ToolBackend::InProcess(NativeTools::Local(LocalToolkit))));
    assert!(matches!(&cat.backends()[1], ToolBackend::InProcess(NativeTools::Custom("extra"))));
    assert!(cat.audit().is_some());
    assert_eq!(cat.openai_definitions().len(), 3);
}

#[test]
fn empty_builder_has_nothing() {
    let (assembly, servers) = Builder::empty().start_connect::<u32>(vec![]).ok().unwrap();
    assert!(servers.is_empty());
    let cat = assembly.finish();
    assert!(cat.backends().is_empty());
    assert!(cat.openai_definitions().is_empty());
    assert!(cat.audit().is_none());
    assert_eq!(cat.next_candidate(0, "Read"), None);
}

#[test]
fn native_definition_without_name_is_refused() {
    let mut defs = local_defs();
    defs.push(native(None));
    match Builder::with_default_natives().start_connect::<u32>(defs) {
        Err(e) => {
            assert!(matches!(e, ConnectError::MissingNativeName));
            assert_eq!(e.message(), "native tool missing function.name");
        }
        Ok(_) => panic!("must fail"),
    }
}

#[test]
fn duplicate_native_name_is_refused() {
    let mut defs = local_defs();
    defs.push(native(Some("Write")));
    defs.push(native(None));
    match Builder::with_default_natives().start_connect::<u32>(defs) {
        Err(e) => assert_eq!(e.message(), "duplicate tool name: Write"),
        Ok(_) => panic!("must fail"),
    }
}

#[test]
fn mcp_tools_are_prefixed_and_routed() {
    let cat = catalog_with_fs();
    let defs = cat.openai_definitions();
    assert_eq!(defs.len(), 5);
    let v: serde_json::Value = serde_json::from_str(&defs[3]).unwrap();
    assert_eq!(v["function"]["name"], "my_fs__read_file");
    assert_eq!(v["function"]["description"], "does read_file");
    assert_eq!(v["function"]["parameters"]["type"], "object");
    let bs = cat.backends();
    assert_eq!(bs.len(), 2);
    assert_eq!(bs[0].backend_kind(), "in_process");
    assert_eq!(bs[1].backend_kind(), "mcp");
    assert_eq!(bs[1].mcp_resolved_tool_name("my_fs__list"), Some("list".to_string()));
    assert_eq!(bs[1].mcp_resolved_tool_name("list"), None);
    assert_eq!(bs[0].mcp_resolved_tool_name("Read"), None);
    match &bs[1] {
        ToolBackend::Mcp(b) => {
            assert_eq!(*b.service(), 7);
            assert!(b.has_route("my_fs__read_file"));
            assert!(!b.has_route("Read"));
        }
        _ => panic!("expected MCP"),
    }
}

#[test]
fn duplicate_mcp_name_is_refused() {
    let (assembly, _) = Builder::with_default_natives().start_connect::<u32>(local_defs()).ok().unwrap();
    let assembly = assembly.add_mcp_server("a", vec![tool("x")], 1).ok().unwrap();
    match assembly.add_mcp_server("a", vec![tool("y"), tool("x")], 2) {
        Err(e) => {
            assert!(matches!(&e, ConnectError::DuplicateMcpToolName { name } if name == "a__x"));
            assert_eq!(e.message(), "duplicate tool name after MCP prefix: a__x");
        }
        Ok(_) => panic!("must fail"),
    }
    let (assembly, _) = Builder::empty().start_connect::<u32>(vec![]).ok().unwrap();
    match assembly.add_mcp_server("s", vec![tool("t"), tool("t")], 3) {
        Err(e) => assert_eq!(e.message(), "duplicate tool name after MCP prefix: s__t"),
        Ok(_) => panic!("must fail"),
    }
    let (assembly, _) = Builder::empty().start_connect::<u32>(vec![native(Some("b__c"))]).ok().unwrap();
    assert!(assembly.add_mcp_server("b", vec![tool("c")], 4).is_err());
}

#[test]
fn next_candidate_scans_in_order() {
    let cat = catalog_with_fs();
    assert_eq!(cat.next_candidate(0, "my_fs__list"), Some(0));
    assert_eq!(cat.next_candidate(1, "my_fs__list"), Some(1));
    assert_eq!(cat.next_candidate(1, "Read"), None);
    assert_eq!(cat.next_candidate(2, "my_fs__list"), None);
    assert_eq!(cat.next_candidate(9, "Read"), None);
}

#[test]
fn completed_record_names_the_backend() {
    let cat = catalog_with_fs();
    let call = AuditCall {
        session_id: "s".to_string(),
        trace_id: "t".to_string(),
        tool_call_id: None,
        timestamp: "ts".to_string(),
        invoked_at_ms: 5,
        tool: "my_fs__read_file".to_string(),
        arguments: "{}".to_string(),
    };
    let rec = cat.completed_record(1, call, 10, "contents");
    assert_eq!(rec.backend, "mcp");
    assert_eq!(rec.mcp_server_tool.as_deref(), Some("read_file"));
    assert_eq!(rec.status, "success");
    assert_eq!(rec.result_length, 8);
}

#[test]
fn shutdown_keeps_in_process_backends() {
    let mut cat = catalog_with_fs();
    let bridges = cat.take_mcp_bridges();
    assert_eq!(bridges.len(), 1);
    assert_eq!(bridges.into_iter().next().unwrap().into_service(), 7);
    assert_eq!(cat.backends().len(), 1);
    assert_eq!(cat.backends()[0].backend_kind(), "in_process");
    assert_eq!(cat.openai_definitions().len(), 5);
    assert!(cat.take_mcp_bridges().is_empty());
}

#[test]
fn call_results_are_formatted() {
    let r = CallToolOutcome {
        content: vec![
            ContentPart::Text("line one".to_string()),
            ContentPart::Other(None),
            ContentPart::Other(Some("{\"type\":\"image\"}".to_string())),
        ],
        structured_content: Some("{\"n\":1}".to_string()),
        is_error: None,
    };
    assert_eq!(format_call_tool_result(&r), "line one\n{\"type\":\"image\"}\n{\"n\":1}");
    let r = CallToolOutcome { content: vec![ContentPart::Text("boom".to_string())], structured_content: None, is_error: Some(true) };
    assert_eq!(format_call_tool_result(&r), "Error: boom");
    let r = CallToolOutcome { content: vec![], structured_content: None, is_error: Some(false) };
    assert_eq!(format_call_tool_result(&r), "");
    let r = CallToolOutcome { content: vec![], structured_content: None, is_error: Some(true) };
    assert_eq!(format_call_tool_result(&r), "Error: ");
}

#[test]
fn mcp_replies() {
    assert_eq!(unknown_route_reply("x__y"), "Error: unknown MCP route x__y");
    assert_eq!(mcp_error_reply("connection closed"), "MCP error: connection closed");
}

fn audit_call(tool: &str) -> AuditCall {
    AuditCall {
        session_id: "s".to_string(),
        trace_id: "t".to_string(),
        tool_call_id: Some("id".to_string()),
        timestamp: "ts".to_string(),
        invoked_at_ms: 1,
        tool: tool.to_string(),
        arguments: "{}".to_string(),
    }
}

#[test]
fn conclude_call_answered_and_unknown() {
    let cat = catalog_with_fs();
    let answered = DispatchStep::Answered { index: 0, out: "file body".to_string() };
    let (text, rec) = cat.conclude_call(audit_call("Read"), answered, 99, 250);
    assert_eq!(text, "file body");
    assert_eq!(rec.backend, "in_process");
    assert_eq!(rec.status, "success");
    assert_eq!(rec.duration_ns, 99);
    assert_eq!(rec.result_length, 9);
    assert_eq!(rec.tool_call_id.as_deref(), Some("id"));
    let (text, rec) = cat.conclude_call(audit_call("Nope"), DispatchStep::Unanswered, 5, 40);
    assert_eq!(text, "Error: Unknown function Nope");
    assert_eq!(rec.backend, "in_process");
    assert_eq!(rec.duration_ns, 40);
    assert_eq!(rec.status, "unknown_tool");
    assert_eq!(rec.result_length, 0);
    assert_eq!(rec.result_preview, "");
}

#[test]
fn dispatch_steps_follow_the_backends() {
    let cat = catalog_with_fs();
    assert!(matches!(cat.first_step("my_fs__list"), DispatchStep::Try(0)));
    assert!(matches!(cat.step_after("my_fs__list", 0, None), DispatchStep::Try(1)));
    assert!(matches!(cat.step_after("my_fs__list", 1, None), DispatchStep::Unanswered));
    assert!(matches!(cat.step_after("Read", 0, None), DispatchStep::Unanswered));
    match cat.step_after("my_fs__list", 1, Some("a, b".to_string())) {
        DispatchStep::Answered { index, out } => {
            assert_eq!(index, 1);
            assert_eq!(out, "a, b");
        }
        _ => panic!("an answer ends the dispatch"),
    }
    let (assembly, _) = Builder::empty().start_connect::<u32>(vec![]).ok().unwrap();
    let empty = assembly.finish();
    assert!(matches!(empty.first_step("Read"), DispatchStep::Unanswered));
}

#[test]
fn finished_catalog_keeps_distinct_names() {
    let cat = catalog_with_fs();
    assert_eq!(cat.names(), vec!["Read", "Write", "Bash", "my_fs__read_file", "my_fs__list"]);
    let mut cat = cat;
    let _ = cat.take_mcp_bridges();
    assert_eq!(cat.names().len(), 5);
    let (assembly, _) = Builder::empty().start_connect::<u32>(vec![]).ok().unwrap();
    assert!(assembly.finish().names().is_empty());
}
