use incode::error::IncodeError;
use incode::json::Json;
use incode::lldb_manager::{LldbManager, SessionState};
use incode::mcp_server::{McpRequest, McpServer};
use incode::tools::registry::ToolRegistry;
use incode::tools::{text_answer, ToolResponse};

fn s(t: &str) -> Json {
    Json::Str(t.to_string())
}

fn obj(entries: Vec<(&str, Json)>) -> Json {
    Json::Object(entries.into_iter().map(|(k, v)| (k.to_string(), v)).collect())
}

fn field<'a>(v: &'a Json, key: &str) -> Option<&'a Json> {
    match v {
        Json::Object(es) => es.iter().find(|(k, _)| k == key).map(|(_, x)| x),
        _ => None,
    }
}

fn manager() -> LldbManager {
    LldbManager::new(None, true, true).unwrap()
}

fn uuid_text(id: u128) -> String {
    uuid::Uuid::from_u128(id).to_string()
}

#[test]
fn manager_creation_failures() {
    let e = LldbManager::new(Some("/opt/lldb".to_string()), false, true).unwrap_err();
    assert_eq!(e.message(), "LLDB initialization failed: LLDB executable not found at: /opt/lldb");
    let e = LldbManager::new(None, false, false).unwrap_err();
    assert_eq!(e.message(), "LLDB initialization failed: Failed to create LLDB debugger instance");
    let m = manager();
    assert_eq!(m.current_session_id(), None);
}

#[test]
fn created_session_is_current_and_readable() {
    let mut m = manager();
    let id = m.create_session().unwrap();
    assert_eq!(m.current_session_id(), Some(id));
    let session = m.get_session(id).unwrap();
    assert_eq!(session.id, id);
    assert_eq!(session.state, SessionState::Created);
    assert_eq!(session.target_path, None);
    assert_eq!(session.process_id, None);
    let other = m.create_session().unwrap();
    assert_ne!(id, other);
    assert_eq!(m.current_session_id(), Some(other));
    assert!(m.get_session(id).is_ok());
}

#[test]
fn session_ids_are_version_four_uuids() {
    let mut m = manager();
    let id = m.create_session().unwrap();
    let u = uuid::Uuid::from_u128(id);
    assert_eq!(u.get_version_num(), 4);
}

#[test]
fn state_update_reads_back() {
    let mut m = manager();
    let id = m.create_session().unwrap();
    m.update_session_state(id, SessionState::Stopped).unwrap();
    assert_eq!(m.get_session(id).unwrap().state, SessionState::Stopped);
    let e = m.update_session_state(7, SessionState::Running).unwrap_err();
    assert_eq!(
        e.message(),
        format!("Session management error: Session not found: {}", uuid_text(7))
    );
}

#[test]
fn cleanup_undoes_create() {
    let mut m = manager();
    let id = m.create_session().unwrap();
    let msg = m.cleanup_session(id).unwrap();
    assert_eq!(msg, format!("Session {} resources cleaned up", uuid_text(id)));
    assert_eq!(m.current_session_id(), None);
    assert!(m.get_session(id).is_err());
    assert!(m.cleanup_session(id).is_err());
}

#[test]
fn save_then_load_restores_the_session() {
    let mut m = manager();
    let id = m.create_session().unwrap();
    m.update_session_state(id, SessionState::Running).unwrap();
    let created = m.get_session(id).unwrap().created_at;
    let saved = m.save_session(id).unwrap();
    assert_eq!(field(&saved, "session_id"), Some(&s(&uuid_text(id))));
    assert_eq!(field(&saved, "state"), Some(&s("Running")));
    assert_eq!(field(&saved, "created_at"), Some(&Json::UInt(created)));
    assert_eq!(field(&saved, "target_path"), Some(&Json::Null));
    assert_eq!(field(&saved, "current_frame_index"), Some(&Json::UInt(0)));
    m.cleanup_session(id).unwrap();
    let mut fresh = manager();
    for target in [&mut m, &mut fresh] {
        let loaded = target.load_session(&saved).unwrap();
        assert_eq!(loaded, id);
        assert_eq!(target.current_session_id(), Some(id));
        let back = target.get_session(id).unwrap();
        assert_eq!(back.state, SessionState::Running);
        assert_eq!(back.created_at, created);
        assert_eq!(back.created_at_nanos, 0);
    }
    let s2 = fresh.create_session().unwrap();
    assert!(fresh.get_session(s2).unwrap().created_at_nanos < 1_000_000_000);
}

#[test]
fn loading_a_bad_record() {
    let mut m = manager();
    let e = m.load_session(&obj(vec![("state", s("Created"))])).unwrap_err();
    assert_eq!(e.message(), "LLDB operation failed: Missing session_id in session data");
    let e = m.load_session(&obj(vec![("session_id", s("not-a-uuid"))])).unwrap_err();
    assert!(e.message().starts_with("LLDB operation failed: Invalid session ID: "));
    let good = uuid_text(0x1234);
    let e = m.load_session(&obj(vec![("session_id", s(&good))])).unwrap_err();
    assert_eq!(e.message(), "LLDB operation failed: Missing state in session data");
    let id = m
        .load_session(&obj(vec![
            ("session_id", s(&good)),
            ("state", s("Sleeping")),
            ("process_id", Json::UInt(42)),
            ("target_path", s("/bin/true")),
        ]))
        .unwrap();
    assert_eq!(id, 0x1234);
    let back = m.get_session(id).unwrap();
    assert_eq!(back.state, SessionState::Created);
    assert_eq!(back.process_id, Some(42));
    assert_eq!(back.target_path, Some("/bin/true".to_string()));
}

#[test]
fn registry_holds_each_tool_once() {
    let r = ToolRegistry::new();
    assert_eq!(r.tool_count(), 65);
    assert!(r.find_tool("launch_process").is_ok());
    assert!(r.find_tool("analyze_crash").is_ok());
    assert!(r.find_tool("set_lldb_settings").is_ok());
    assert!(r.find_tool("placeholder").is_err());
    assert_eq!(r.find_tool("nope").unwrap_err().message(), "MCP protocol error: Unknown tool: nope");
    let list = r.get_tool_list((0..65).map(|_| obj(vec![])).collect());
    assert_eq!(list.len(), 65);
    let mut names: Vec<String> = list
        .iter()
        .map(|t| match field(t, "name") {
            Some(Json::Str(n)) => n.clone(),
            _ => panic!("tool without a name"),
        })
        .collect();
    names.sort();
    names.dedup();
    assert_eq!(names.len(), 65);
    assert_eq!(
        field(&list[0], "inputSchema"),
        Some(&obj(vec![
            ("type", s("object")),
            ("properties", obj(vec![])),
            ("required", Json::Array(vec![])),
        ]))
    );
}

#[test]
fn registering_a_name_again_replaces_it() {
    let mut r = ToolRegistry::empty();
    r.register_tool("a", "first");
    r.register_tool("b", "second");
    r.register_tool("a", "third");
    assert_eq!(r.tool_count(), 2);
    assert_eq!(r.find_tool("a").unwrap(), 0);
    let list = r.get_tool_list(vec![Json::Null, Json::Null]);
    assert_eq!(field(&list[0], "description"), Some(&s("third")));
}

#[test]
fn routing_messages() {
    let call = obj(vec![
        ("jsonrpc", s("2.0")),
        ("id", Json::UInt(5)),
        ("method", s("tools/call")),
        ("params", obj(vec![("name", s("step_over")), ("arguments", obj(vec![("count", Json::UInt(2))]))])),
    ]);
    let (req, id) = McpServer::route(call);
    assert_eq!(id, Json::UInt(5));
    match req {
        Ok(McpRequest::CallTool { name, arguments }) => {
            assert_eq!(name, "step_over");
            assert_eq!(arguments, vec![("count".to_string(), Json::UInt(2))]);
        }
        _ => panic!("not a tool call"),
    }
    let (req, id) = McpServer::route(obj(vec![("method", s("tools/list"))]));
    assert!(matches!(req, Ok(McpRequest::ListTools)));
    assert_eq!(id, Json::Null);
    let (req, _) = McpServer::route(obj(vec![("method", s("initialize")), ("id", s("x"))]));
    assert!(matches!(req, Ok(McpRequest::Initialize)));
    let (req, _) = McpServer::route(obj(vec![("id", Json::UInt(1))]));
    assert_eq!(req.err().unwrap().message(), "MCP protocol error: Missing method in request");
    let (req, _) = McpServer::route(obj(vec![("method", s("tools/call"))]));
    assert_eq!(req.err().unwrap().message(), "MCP protocol error: Missing tool name");
    let (req, _) = McpServer::route(obj(vec![("method", s("ping"))]));
    assert_eq!(req.err().unwrap().message(), "MCP protocol error: Unknown method: ping");
    let (req, _) =
        McpServer::route(obj(vec![("method", s("tools/call")), ("params", obj(vec![("name", s("x"))]))]));
    match req {
        Ok(McpRequest::CallTool { arguments, .. }) => assert!(arguments.is_empty()),
        _ => panic!("not a tool call"),
    }
}

#[test]
fn server_messages() {
    let init = McpServer::initialize_result("0.1.0", false);
    assert_eq!(
        init,
        obj(vec![
            ("protocolVersion", s("2024-11-05")),
            ("capabilities", obj(vec![("tools", obj(vec![("listChanged", Json::Bool(true))]))])),
            ("serverInfo", obj(vec![("name", s("incode")), ("version", s("0.1.0"))])),
        ])
    );
    let opening = McpServer::initialize_message("0.1.0");
    assert_eq!(field(&opening, "jsonrpc"), Some(&s("2.0")));
    assert_eq!(field(&opening, "id"), None);
    let result = field(&opening, "result").unwrap();
    assert!(matches!(field(result, "instructions"), Some(Json::Str(_))));
    let msg = McpServer::result_message(Json::UInt(3), Json::Bool(true));
    assert_eq!(
        msg,
        obj(vec![("jsonrpc", s("2.0")), ("id", Json::UInt(3)), ("result", Json::Bool(true))])
    );
    let err = McpServer::error_message(&IncodeError::mcp("bad"));
    assert_eq!(
        err,
        obj(vec![
            ("jsonrpc", s("2.0")),
            ("error", obj(vec![("code", Json::NegInt(-1)), ("message", s("MCP protocol error: bad"))])),
        ])
    );
    let server = McpServer::new(None, true, true).unwrap();
    let listed = server.tools_list_result((0..65).map(|_| Json::Null).collect());
    match field(&listed, "tools") {
        Some(Json::Array(ts)) => assert_eq!(ts.len(), 65),
        _ => panic!("no tool list"),
    }
}

fn call_text(v: &Json) -> String {
    match field(v, "content") {
        Some(Json::Array(parts)) => match field(&parts[0], "text") {
            Some(Json::Str(t)) => t.clone(),
            _ => panic!("no text"),
        },
        _ => panic!("no content"),
    }
}

#[test]
fn tool_answers_as_text() {
    let ok = McpServer::tool_call_result(ToolResponse::Success("done".to_string()));
    assert_eq!(call_text(&ok), "done");
    let bad = McpServer::tool_call_result(ToolResponse::Error("no".to_string()));
    assert_eq!(call_text(&bad), "Error: no");
    let data = McpServer::tool_call_result(ToolResponse::Json(obj(vec![("k", Json::UInt(1))])));
    assert_eq!(call_text(&data), "{\n  \"k\": 1\n}");
}

#[test]
fn results_become_compact_json_text() {
    let v = obj(vec![
        ("b", Json::Bool(true)),
        ("a", Json::Array(vec![Json::UInt(1), Json::NegInt(-2), Json::Null])),
        ("t", s("q\"\n")),
        ("f", Json::Float { text: "1.5".to_string(), trunc: 1 }),
    ]);
    assert_eq!(
        text_answer(Ok(v)),
        ToolResponse::Success(r#"{"a":[1,-2,null],"b":true,"f":1.5,"t":"q\"\n"}"#.to_string())
    );
    assert_eq!(text_answer(Ok(Json::Array(vec![]))), ToolResponse::Success("[]".to_string()));
    assert_eq!(
        text_answer(Err(IncodeError::thread("gone"))),
        ToolResponse::Error("Thread operation failed: gone".to_string())
    );
}

#[test]
fn sessions_record_the_time_they_were_made() {
    let now = std::time::SystemTime::now()
        .duration_since(std::time::UNIX_EPOCH)
        .unwrap()
        .as_secs();
    let mut m = manager();
    let id = m.create_session().unwrap();
    let created = m.get_session(id).unwrap().created_at;
    assert!(created + 5 >= now && created <= now + 5);
    let secs = incode::lldb_manager::unix_time_secs();
    assert!(secs + 5 >= now && secs <= now + 5);
}
