use agentlite::agent::{tool_invocation, Agent, AssistantReply, ChatMessage, ToolCallRequest, TurnOutcome};
use agentlite::catalog::{ToolCatalog, ToolCatalogBuilder};

type Cat = ToolCatalog<(), (), ()>;

fn catalog() -> Cat {
    let (assembly, _) = ToolCatalogBuilder::<(), ()>::empty().start_connect::<()>(vec![]).ok().unwrap();
    assembly.finish()
}

fn agent() -> Agent<&'static str, (), (), ()> {
    Agent::with_session_and_trace("client", "deepseek-chat", catalog(), "sess".to_string(), "trace".to_string())
}

fn call(id: Option<&str>, name: Option<&str>, arguments: Option<&str>) -> ToolCallRequest {
    ToolCallRequest { id: id.map(String::from), name: name.map(String::from), arguments: arguments.map(String::from) }
}

#[test]
fn new_agent_state() {
    let a = agent();
    assert_eq!(a.model(), "deepseek-chat");
    assert_eq!(a.session_id(), "sess");
    assert_eq!(a.trace_id(), "trace");
    assert!(a.messages().is_empty());
    assert!(a.tools().is_empty());
    assert_eq!(*a.client(), "client");
    let b = Agent::new("c", "m", catalog(), "s".to_string());
    assert_eq!(b.trace_id().len(), 36);
    assert_ne!(b.trace_id(), Agent::new("c", "m", catalog(), "s".to_string()).trace_id());
}

#[test]
fn final_reply_finishes_with_content() {
    let mut a = agent();
    a.add_user_message("hi");
    let out = a.accept_reply(AssistantReply { raw: "{\"role\":\"assistant\",\"content\":\"hello\"}".to_string(), content: Some("hello".to_string()), tool_calls: None });
    assert!(matches!(out, TurnOutcome::Finished(ref s) if s == "hello"));
    assert_eq!(a.messages().len(), 2);
    assert!(matches!(&a.messages()[0], ChatMessage::User { content } if content == "hi"));
    assert!(matches!(&a.messages()[1], ChatMessage::Assistant { raw } if raw.contains("hello")));
}

#[test]
fn empty_tool_calls_finish_and_missing_content_is_empty() {
    let mut a = agent();
    let out = a.accept_reply(AssistantReply { raw: "null".to_string(), content: None, tool_calls: Some(vec![]) });
    assert!(matches!(out, TurnOutcome::Finished(ref s) if s.is_empty()));
    assert_eq!(a.messages().len(), 1);
}

#[test]
fn tool_calls_become_invocations_in_order() {
    let mut a = agent();
    a.add_user_message("list files");
    let out = a.accept_reply(AssistantReply {
        raw: "{}".to_string(),
        content: Some("ignored".to_string()),
        tool_calls: Some(vec![
            call(Some("c1"), Some("Bash"), Some("{\"command\":\"ls\"}")),
            call(None, Some("Read"), Some("not json")),
        ]),
    });
    let invs = match out {
        TurnOutcome::CallTools(v) => v,
        _ => panic!("expected tool calls"),
    };
    assert_eq!(invs.len(), 2);
    assert_eq!(invs[0].tool_call_id, "c1");
    assert_eq!(invs[0].audit_call_id.as_deref(), Some("c1"));
    assert_eq!(invs[0].function_name, "Bash");
    assert_eq!(invs[0].arguments, "{\"command\":\"ls\"}");
    assert_eq!(invs[1].tool_call_id, "");
    assert_eq!(invs[1].audit_call_id, None);
    assert_eq!(invs[1].arguments, "{}");
    a.record_tool_result(&invs[0], "a\nb\n".to_string());
    a.record_tool_result(&invs[1], "Error: x".to_string());
    let m = a.messages();
    assert_eq!(m.len(), 4);
    assert!(matches!(&m[2], ChatMessage::Tool { tool_call_id, content } if tool_call_id == "c1" && content == "a\nb\n"));
    assert!(matches!(&m[3], ChatMessage::Tool { tool_call_id, content } if tool_call_id.is_empty() && content == "Error: x"));
    assert_eq!(a.trace_id(), "trace");
}

#[test]
fn invocation_defaults() {
    let inv = tool_invocation(&call(None, None, None));
    assert_eq!(inv.tool_call_id, "");
    assert_eq!(inv.audit_call_id, None);
    assert_eq!(inv.function_name, "");
    assert_eq!(inv.arguments, "{}");
    let inv = tool_invocation(&call(Some(""), Some("Write"), Some(" [1, 2] ")));
    assert_eq!(inv.audit_call_id, None);
    assert_eq!(inv.arguments, " [1, 2] ");
    let inv = tool_invocation(&call(Some("x"), Some("Write"), Some("{\"a\":")));
    assert_eq!(inv.arguments, "{}");
}

#[test]
fn catalog_mut_reaches_the_catalog() {
    let mut a = agent();
    assert!(a.catalog_mut().take_mcp_bridges().is_empty());
    assert!(a.catalog().backends().is_empty());
}

#[test]
fn audit_call_carries_the_agent_ids() {
    let a = agent();
    let inv = tool_invocation(&call(Some("c9"), Some("Bash"), Some("{\"command\":\"pwd\"}")));
    let c = a.audit_call(&inv, 1704067200000);
    assert_eq!(c.session_id, "sess");
    assert_eq!(c.trace_id, "trace");
    assert_eq!(c.tool_call_id.as_deref(), Some("c9"));
    assert_eq!(c.timestamp, "2024-01-01T00:00:00.000Z");
    assert_eq!(c.invoked_at_ms, 1704067200000);
    assert_eq!(c.tool, "Bash");
    assert_eq!(c.arguments, "{\"command\":\"pwd\"}");
}

#[test]
fn request_body_is_the_chat_request() {
    let mut a = agent();
    a.add_user_message("say \"hi\"");
    let out = a.accept_reply(AssistantReply {
        raw: "{\"role\":\"assistant\",\"content\":null,\"tool_calls\":[]}".to_string(),
        content: None,
        tool_calls: Some(vec![call(Some("c1"), Some("Read"), Some("{}"))]),
    });
    if let TurnOutcome::CallTools(invs) = out {
        a.record_tool_result(&invs[0], "line\n".to_string());
    }
    let body: serde_json::Value = serde_json::from_str(&a.request_body()).unwrap();
    let expected: serde_json::Value = serde_json::from_str(
        r#"{"messages":[{"role":"user","content":"say \"hi\""},{"role":"assistant","content":null,"tool_calls":[]},{"role":"tool","tool_call_id":"c1","content":"line\n"}],"model":"deepseek-chat","tools":[]}"#,
    )
    .unwrap();
    assert_eq!(body, expected);
}

#[test]
fn one_run_keeps_one_trace_id_on_every_audit_call() {
    let mut a = agent();
    a.add_user_message("two steps");
    let mut calls = Vec::new();
    for round in 0..2 {
        let out = a.accept_reply(AssistantReply {
            raw: "{}".to_string(),
            content: None,
            tool_calls: Some(vec![call(Some("c"), Some("Bash"), Some("{}"))]),
        });
        let invs = match out {
            TurnOutcome::CallTools(v) => v,
            _ => panic!("expected tool calls"),
        };
        calls.push(a.audit_call(&invs[0], round * 1000));
        a.record_tool_result(&invs[0], "ok".to_string());
    }
    assert_eq!(calls.len(), 2);
    assert!(calls.iter().all(|c| c.trace_id == "trace" && c.session_id == "sess"));
    assert_eq!(calls[1].timestamp, "1970-01-01T00:00:01.000Z");
    assert_eq!(calls[1].invoked_at_ms, 1000);
    assert_eq!(a.trace_id(), "trace");
    assert_eq!(a.session_id(), "sess");
    assert_eq!(a.model(), "deepseek-chat");
}
