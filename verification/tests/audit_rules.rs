use agentlite::audit::{
    audit_mode_for_path, audit_setting, classify_status, daily_filename, extension_is_log,
    invocation_timestamp, needs_rotation, new_trace_id, parse_env_path, preview_result, truncate_preview, AuditCall,
    AuditMode, AuditPathError, AuditSetting, PathFacts, ToolAuditRecord, UtcDate,
    AUDIT_MILLIS_LIMIT, PREVIEW_MAX_CHARS,
};

fn nothing_there() -> PathFacts {
    PathFacts { exists: false, is_dir: false, is_file: false }
}

fn is_uuid_v4(s: &str) -> bool {
    let chars: Vec<char> = s.chars().collect();
    if chars.len() != 36 {
        return false;
    }
    for (i, c) in chars.iter().enumerate() {
        if [8, 13, 18, 23].contains(&i) {
            if *c != '-' {
                return false;
            }
        } else if !(c.is_ascii_digit() || ('a'..='f').contains(c)) {
            return false;
        }
    }
    chars[14] == '4' && "89ab".contains(chars[19])
}

#[test]
fn classify_status_errors_and_success() {
    assert_eq!(classify_status("Error: no such file"), "tool_returned_error");
    assert_eq!(classify_status("MCP error: transport closed"), "tool_returned_error");
    assert_eq!(classify_status("Error:"), "tool_returned_error");
    assert_eq!(classify_status("error: lower case"), "success");
    assert_eq!(classify_status(" Error: leading space"), "success");
    assert_eq!(classify_status("all good"), "success");
    assert_eq!(classify_status(""), "success");
    assert_eq!(classify_status("Successfully wrote to a.txt"), "success");
}

#[test]
fn truncate_preview_cuts_by_characters() {
    assert_eq!(truncate_preview("hello", 10), "hello");
    assert_eq!(truncate_preview("hello", 5), "hello");
    assert_eq!(truncate_preview("hello", 4), "hell\u{2026}");
    assert_eq!(truncate_preview("hello", 0), "\u{2026}");
    assert_eq!(truncate_preview("", 0), "");
    assert_eq!(truncate_preview("h\u{e9}llo w\u{f6}rld", 3), "h\u{e9}l\u{2026}");
    assert_eq!(truncate_preview("\u{1f600}\u{1f601}", 1), "\u{1f600}\u{2026}");
}

#[test]
fn preview_result_keeps_512_characters() {
    let exact: String = "x".repeat(PREVIEW_MAX_CHARS);
    assert_eq!(preview_result(&exact), exact);
    let longer: String = "y".repeat(PREVIEW_MAX_CHARS + 1);
    let p = preview_result(&longer);
    assert_eq!(p.chars().count(), PREVIEW_MAX_CHARS + 1);
    assert!(p.ends_with('\u{2026}'));
    assert_eq!(&p[..PREVIEW_MAX_CHARS], &longer[..PREVIEW_MAX_CHARS]);
}

fn call(tool: &str) -> AuditCall {
    AuditCall {
        session_id: "s-1".to_string(),
        trace_id: "t-1".to_string(),
        tool_call_id: Some("call_1".to_string()),
        timestamp: "2024-05-06T07:08:09.010Z".to_string(),
        invoked_at_ms: 1714979289010,
        tool: tool.to_string(),
        arguments: "{\"file_path\":\"a.txt\"}".to_string(),
    }
}

#[test]
fn completed_record_fields() {
    let rec = ToolAuditRecord::completed(call("Read"), "in_process", None, 1500, "Error: h\u{e9}");
    assert_eq!(rec.session_id, "s-1");
    assert_eq!(rec.trace_id, "t-1");
    assert_eq!(rec.tool_call_id.as_deref(), Some("call_1"));
    assert_eq!(rec.timestamp, "2024-05-06T07:08:09.010Z");
    assert_eq!(rec.invoked_at_ms, 1714979289010);
    assert_eq!(rec.tool, "Read");
    assert_eq!(rec.arguments, "{\"file_path\":\"a.txt\"}");
    assert_eq!(rec.backend, "in_process");
    assert_eq!(rec.mcp_server_tool, None);
    assert_eq!(rec.duration_ns, 1500);
    assert_eq!(rec.status, "tool_returned_error");
    // "Error: hé" is 9 characters and 10 UTF-8 bytes.
    assert_eq!(rec.result_length, 10);
    assert_eq!(rec.result_preview, "Error: h\u{e9}");
}

#[test]
fn unknown_tool_record_fields() {
    let rec = ToolAuditRecord::unknown_tool(call("Nope"), 42);
    assert_eq!(rec.tool, "Nope");
    assert_eq!(rec.backend, "in_process");
    assert_eq!(rec.mcp_server_tool, None);
    assert_eq!(rec.duration_ns, 42);
    assert_eq!(rec.status, "unknown_tool");
    assert_eq!(rec.result_length, 0);
    assert_eq!(rec.result_preview, "");
}

#[test]
fn extension_is_log_any_case() {
    assert!(extension_is_log("logs/audit.log"));
    assert!(extension_is_log("audit.LOG"));
    assert!(extension_is_log("a.b.Log"));
    assert!(!extension_is_log("audit.txt"));
    assert!(!extension_is_log("logs"));
    assert!(!extension_is_log(".log"));
    assert!(!extension_is_log("audit.logs"));
}

#[test]
fn parse_env_path_modes() {
    let dir = PathFacts { exists: true, is_dir: true, is_file: false };
    let file = PathFacts { exists: true, is_dir: false, is_file: true };
    match parse_env_path("/var/log/agent", &dir) {
        Ok(AuditMode::Daily { dir }) => assert_eq!(dir, "/var/log/agent"),
        _ => panic!("existing directory must give daily files"),
    }
    match parse_env_path("/var/log/agent.log", &dir) {
        Ok(AuditMode::Daily { dir }) => assert_eq!(dir, "/var/log/agent.log"),
        _ => panic!("an existing directory wins over the extension"),
    }
    match parse_env_path("/tmp/audit", &file) {
        Ok(AuditMode::Fixed { path }) => assert_eq!(path, "/tmp/audit"),
        _ => panic!("existing file must be fixed"),
    }
    match parse_env_path("new/audit.log", &nothing_there()) {
        Ok(AuditMode::Fixed { path }) => assert_eq!(path, "new/audit.log"),
        _ => panic!(".log path must be fixed"),
    }
    match parse_env_path("new/dir", &nothing_there()) {
        Ok(AuditMode::Daily { dir }) => assert_eq!(dir, "new/dir"),
        _ => panic!("other paths are directories"),
    }
    match parse_env_path("", &nothing_there()) {
        Err(e) => {
            assert!(matches!(e, AuditPathError::EmptyPath));
            assert_eq!(e.message(), "empty AGENTLITE_TOOL_LOG path");
        }
        Ok(_) => panic!("empty path must be refused"),
    }
}

#[test]
fn audit_mode_for_path_accepts_empty() {
    match audit_mode_for_path("", &nothing_there()) {
        AuditMode::Daily { dir } => assert_eq!(dir, ""),
        AuditMode::Fixed { .. } => panic!("empty path is a directory"),
    }
}

#[test]
fn audit_setting_values() {
    assert!(matches!(audit_setting(None), AuditSetting::Default));
    assert!(matches!(audit_setting(Some("")), AuditSetting::Disabled));
    assert!(matches!(audit_setting(Some("   ")), AuditSetting::Disabled));
    assert!(matches!(audit_setting(Some("disabled")), AuditSetting::Disabled));
    assert!(matches!(audit_setting(Some(" DISABLED \n")), AuditSetting::Disabled));
    assert!(matches!(audit_setting(Some("0")), AuditSetting::Disabled));
    match audit_setting(Some("  /tmp/audit.log\t")) {
        AuditSetting::Path(p) => assert_eq!(p, "/tmp/audit.log"),
        _ => panic!("a path is a path"),
    }
    match audit_setting(Some("00")) {
        AuditSetting::Path(p) => assert_eq!(p, "00"),
        _ => panic!("only a lone 0 switches off"),
    }
}

#[test]
fn utc_date_validity() {
    assert!(UtcDate::from_ymd(2024, 2, 29).is_some());
    assert!(UtcDate::from_ymd(2023, 2, 29).is_none());
    assert!(UtcDate::from_ymd(1900, 2, 29).is_none());
    assert!(UtcDate::from_ymd(2000, 2, 29).is_some());
    assert!(UtcDate::from_ymd(-4, 2, 29).is_some());
    assert!(UtcDate::from_ymd(2023, 4, 31).is_none());
    assert!(UtcDate::from_ymd(2023, 0, 1).is_none());
    assert!(UtcDate::from_ymd(2023, 13, 1).is_none());
    assert!(UtcDate::from_ymd(2023, 1, 0).is_none());
    assert!(UtcDate::from_ymd(400000, 1, 1).is_none());
    let d = UtcDate::from_ymd(2025, 12, 31).unwrap();
    assert_eq!((d.year(), d.month(), d.day()), (2025, 12, 31));
}

#[test]
fn daily_filename_format() {
    assert_eq!(daily_filename(UtcDate::from_ymd(2024, 3, 7).unwrap()), "tool-audit-2024-03-07.log");
    assert_eq!(daily_filename(UtcDate::from_ymd(999, 12, 31).unwrap()), "tool-audit-0999-12-31.log");
    assert_eq!(daily_filename(UtcDate::from_ymd(12345, 6, 7).unwrap()), "tool-audit-+12345-06-07.log");
    assert_eq!(daily_filename(UtcDate::from_ymd(-1, 1, 1).unwrap()), "tool-audit--0001-01-01.log");
}

#[test]
fn rotation_only_for_daily_files_on_a_new_day() {
    let d1 = UtcDate::from_ymd(2024, 1, 1).unwrap();
    let d2 = UtcDate::from_ymd(2024, 1, 2).unwrap();
    let daily = AuditMode::Daily { dir: "logs".to_string() };
    let fixed = AuditMode::Fixed { path: "a.log".to_string() };
    assert!(needs_rotation(&daily, d1, d2));
    assert!(!needs_rotation(&daily, d1, d1));
    assert!(!needs_rotation(&fixed, d1, d2));
}

#[test]
fn trace_ids_are_fresh_uuids() {
    let a = new_trace_id();
    let b = new_trace_id();
    assert!(is_uuid_v4(&a));
    assert!(is_uuid_v4(&b));
    assert_ne!(a, b);
}

#[test]
fn different_days_get_different_files() {
    let dates = [(2024, 1, 1), (2024, 1, 2), (2024, 2, 1), (2025, 1, 1), (-1, 1, 1), (1, 1, 1), (10000, 1, 1), (1000, 1, 1)];
    let names: Vec<String> = dates.iter().map(|&(y, m, d)| daily_filename(UtcDate::from_ymd(y, m, d).unwrap())).collect();
    for i in 0..names.len() {
        for j in 0..names.len() {
            assert_eq!(i == j, names[i] == names[j]);
        }
    }
}

#[test]
fn unknown_function_reply_counts_as_tool_error() {
    let reply = agentlite::tools::unknown_function_reply("Search");
    assert_eq!(classify_status(&reply), "tool_returned_error");
}

#[test]
fn invocation_timestamp_is_the_same_instant() {
    assert_eq!(invocation_timestamp(0), "1970-01-01T00:00:00.000Z");
    assert_eq!(invocation_timestamp(-1), "1969-12-31T23:59:59.999Z");
    assert_eq!(invocation_timestamp(1704067200123), "2024-01-01T00:00:00.123Z");
    assert_eq!(invocation_timestamp(951782400000), "2000-02-29T00:00:00.000Z");
    assert!(invocation_timestamp(AUDIT_MILLIS_LIMIT).starts_with('+'));
    assert!(invocation_timestamp(-AUDIT_MILLIS_LIMIT).starts_with('-'));
}
