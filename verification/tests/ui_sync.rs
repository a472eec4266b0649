use helmor::paths::Platform;
use helmor::ui_sync::{
    endpoint_filename, listener_reply, parse_listen_port, socket_path, sync_acknowledged,
    sync_response_for_line, RequestRead, SyncReply, UiMutationEnvelope,
    UI_MUTATION_ENVELOPE_VERSION,
};

#[derive(Debug, PartialEq)]
enum TestEvent {
    WorkspaceListChanged,
}

#[test]
fn sync_response_for_line_accepts_workspace_list_changed() {
    let line = r#"{"version":1,"event":{"type":"workspaceListChanged"}}"#;
    let envelope = UiMutationEnvelope {
        version: UI_MUTATION_ENVELOPE_VERSION,
        event: TestEvent::WorkspaceListChanged,
    };
    let mut published = false;
    let (reply, event) = sync_response_for_line(Some(envelope), line);
    if let Some(_) = event {
        published = true;
    }
    assert!(published);
    assert_eq!(reply.json().as_bytes(), br#"{"ok":true}"#.as_slice());
}

#[test]
fn sync_response_refuses_other_versions() {
    let line = r#"{"version":99,"event":{"type":"workspaceListChanged"}}"#;
    let envelope = UiMutationEnvelope { version: 99, event: TestEvent::WorkspaceListChanged };
    let (reply, event) = sync_response_for_line(Some(envelope), line);
    assert!(reply == SyncReply::UnsupportedVersion);
    assert_eq!(event, None);
    assert_eq!(reply.json(), r#"{"ok":false,"error":"unsupported version"}"#);
}

#[test]
fn sync_response_tells_blank_from_invalid_lines() {
    let (reply, event) = sync_response_for_line::<TestEvent>(None, "  \r\n");
    assert!(reply == SyncReply::EmptyRequest);
    assert_eq!(event, None);
    assert_eq!(reply.json(), r#"{"ok":false,"error":"empty request"}"#);
    let (reply, _) = sync_response_for_line::<TestEvent>(None, "not json\n");
    assert!(reply == SyncReply::InvalidPayload);
    assert_eq!(reply.json(), r#"{"ok":false,"error":"invalid payload"}"#);
}

#[test]
fn listener_reply_covers_closed_and_failed_reads() {
    let (reply, event) = listener_reply::<TestEvent>(RequestRead::Closed);
    assert!(reply == SyncReply::EmptyRequest);
    assert_eq!(event, None);
    let (reply, _) = listener_reply::<TestEvent>(RequestRead::Failed);
    assert!(reply == SyncReply::ReadFailed);
    assert_eq!(reply.json(), r#"{"ok":false,"error":"read failed"}"#);
    let (reply, event) = listener_reply(RequestRead::Line {
        line: "{}\n".to_string(),
        parsed: Some(UiMutationEnvelope { version: 1, event: TestEvent::WorkspaceListChanged }),
    });
    assert!(reply == SyncReply::Accepted);
    assert_eq!(event, Some(TestEvent::WorkspaceListChanged));
}

#[test]
fn sync_acknowledged_reads_ok_flag() {
    assert!(sync_acknowledged("{\"ok\":true}\n"));
    assert!(sync_acknowledged("{\"error\":\"x\",\"ok\":true}"));
    assert!(!sync_acknowledged("{\"ok\":false,\"error\":\"unsupported version\"}\n"));
    assert!(!sync_acknowledged("{\"ok\":\"true\"}"));
    assert!(!sync_acknowledged("[true]"));
    assert!(!sync_acknowledged("not json"));
    assert!(!sync_acknowledged(""));
}

#[test]
fn socket_path_uses_run_dir() {
    assert_eq!(endpoint_filename(Platform::Unix), "ui-sync.sock");
    assert_eq!(endpoint_filename(Platform::Windows), "ui-sync.port");
    assert_eq!(endpoint_filename(Platform::Other), "ui-sync.sock");
    let p = socket_path("/data/run", Platform::Unix);
    assert!(p.ends_with("run/ui-sync.sock"));
    assert_eq!(p, "/data/run/ui-sync.sock");
    assert_eq!(socket_path("/data/run/", Platform::Unix), "/data/run/ui-sync.sock");
    assert_eq!(socket_path("C:\\data\\run", Platform::Windows), "C:\\data\\run\\ui-sync.port");
    assert_eq!(socket_path("C:", Platform::Windows), "C:ui-sync.port");
}

#[test]
fn parse_listen_port_accepts_trimmed_numbers() {
    assert_eq!(parse_listen_port("8080"), Some(8080));
    assert_eq!(parse_listen_port("  53123\r\n"), Some(53123));
    assert_eq!(parse_listen_port("+17"), Some(17));
    assert_eq!(parse_listen_port("0"), Some(0));
    assert_eq!(parse_listen_port("65535"), Some(65535));
    assert_eq!(parse_listen_port("007"), Some(7));
}

#[test]
fn parse_listen_port_rejects_bad_text() {
    assert_eq!(parse_listen_port(""), None);
    assert_eq!(parse_listen_port("   "), None);
    assert_eq!(parse_listen_port("+"), None);
    assert_eq!(parse_listen_port("-1"), None);
    assert_eq!(parse_listen_port("65536"), None);
    assert_eq!(parse_listen_port("99999999999"), None);
    assert_eq!(parse_listen_port("80 80"), None);
    assert_eq!(parse_listen_port("port"), None);
    for raw in ["1", "+2", " 300 ", "65535", "x", "70000", "-3"] {
        assert_eq!(parse_listen_port(raw), raw.trim().parse::<u16>().ok(), "{raw}");
    }
}

#[test]
fn port_file_text_round_trips() {
    for port in [0u16, 1, 80, 8080, 49152, 65535] {
        let text = helmor::text::decimal_string(port as u32);
        assert_eq!(parse_listen_port(&text), Some(port));
    }
}

#[test]
fn verbatim_run_dirs_are_rebuilt() {
    assert_eq!(socket_path("\\\\?\\C:\\a\\\\", Platform::Windows), "\\\\?\\C:\\a\\ui-sync.port");
    assert_eq!(socket_path("\\\\?\\C:\\a/", Platform::Windows), "\\\\?\\C:\\a/\\ui-sync.port");
    assert_eq!(socket_path("\\\\?\\C:", Platform::Windows), "\\\\?\\C:\\ui-sync.port");
    assert_eq!(socket_path("\\\\?\\C:\\", Platform::Windows), "\\\\?\\C:\\ui-sync.port");
    assert_eq!(socket_path("\\\\?\\C:\\x\\.\\y", Platform::Windows), "\\\\?\\C:\\x\\.\\y\\ui-sync.port");
    assert_eq!(socket_path("\\\\srv\\share", Platform::Windows), "\\\\srv\\share\\ui-sync.port");
    assert_eq!(socket_path("\\\\?\\C:\\a\\", Platform::Unix), "\\\\?\\C:\\a\\/ui-sync.sock");
}
