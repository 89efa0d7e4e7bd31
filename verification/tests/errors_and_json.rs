use incode::error::IncodeError;
use incode::json::{arg_bool_or, arg_str, arg_strings, arg_u64, take_field, take_two_fields, Json};

fn s(t: &str) -> Json {
    Json::Str(t.to_string())
}

fn obj(entries: Vec<(&str, Json)>) -> Json {
    Json::Object(entries.into_iter().map(|(k, v)| (k.to_string(), v)).collect())
}

#[test]
fn error_messages() {
    let cases: Vec<(IncodeError, &str)> = vec![
        (IncodeError::lldb_init("no lldb"), "LLDB initialization failed: no lldb"),
        (IncodeError::lldb_op("boom"), "LLDB operation failed: boom"),
        (IncodeError::process_not_found("42"), "Process not found or not debuggable: 42"),
        (IncodeError::invalid_address(0x1f), "Invalid memory address: 0x1f"),
        (IncodeError::breakpoint("bp"), "Breakpoint operation failed: bp"),
        (IncodeError::thread("t"), "Thread operation failed: t"),
        (IncodeError::frame("f"), "Frame operation failed: f"),
        (IncodeError::expression("e"), "Expression evaluation failed: e"),
        (IncodeError::mcp("m"), "MCP protocol error: m"),
        (IncodeError::session("s"), "Session management error: s"),
        (IncodeError::config("c"), "Invalid configuration: c"),
        (IncodeError::invalid_parameter("p"), "Invalid configuration: p"),
        (IncodeError::Timeout, "Timeout error: operation took too long"),
        (IncodeError::not_implemented("x"), "Not implemented: x"),
        (IncodeError::no_process(), "Process not found or not debuggable: No active process"),
    ];
    for (e, text) in cases {
        assert_eq!(e.message(), text);
    }
}

#[test]
fn outside_error_texts() {
    let io = IncodeError::Io(std::io::Error::new(std::io::ErrorKind::Other, "disk gone"));
    assert_eq!(io.message(), "I/O error: disk gone");
    let bad = serde_json::from_str::<serde_json::Value>("{").unwrap_err();
    let expected = format!("JSON serialization error: {}", bad);
    let je = IncodeError::Json(bad);
    assert_eq!(je.message(), expected);
}

#[test]
fn argument_readers() {
    let args = vec![
        ("name".to_string(), s("main")),
        ("count".to_string(), Json::UInt(3)),
        ("flag".to_string(), Json::Bool(false)),
        ("list".to_string(), Json::Array(vec![s("a"), Json::UInt(1), s("b")])),
        ("name".to_string(), s("second")),
    ];
    assert_eq!(arg_str(&args, "name"), Some("main".to_string()));
    assert_eq!(arg_str(&args, "count"), None);
    assert_eq!(arg_u64(&args, "count"), Some(3));
    assert_eq!(arg_u64(&args, "flag"), None);
    assert!(!arg_bool_or(&args, "flag", true));
    assert!(arg_bool_or(&args, "missing", true));
    assert_eq!(arg_strings(&args, "list"), Some(vec!["a".to_string(), "b".to_string()]));
}

#[test]
fn taking_fields_out() {
    let m = obj(vec![("id", Json::UInt(7)), ("params", obj(vec![("name", s("x"))])), ("id", Json::UInt(8))]);
    let (id, params) = take_two_fields(m, "id", "params");
    assert_eq!(id, Some(Json::UInt(7)));
    assert_eq!(params, Some(obj(vec![("name", s("x"))])));
    assert_eq!(take_field(s("not an object"), "id"), None);
    assert_eq!(take_field(obj(vec![("a", Json::Null)]), "a"), Some(Json::Null));
}
