use incode::error::IncodeError;
use incode::json::Json;
use incode::lldb_manager::{LldbManager, RawStackFrame, RawThread};
use incode::tools::advanced_analysis::{AnalyzeCrashTool, GenerateCoreDumpTool};
use incode::tools::lldb_control::{single_setting_answer, ExecuteCommandTool};
use incode::tools::session_management::{
    CreateSessionTool, LoadSessionTool, LoadedData, SaveOutcome, SaveSessionTool, SessionSource,
};
use incode::tools::thread_management::{list_threads, read_thread_id, select_thread};
use incode::tools::variables::EvaluateExpressionTool;
use incode::tools::ToolResponse;
use serde_json::Value;

fn s(t: &str) -> Json {
    Json::Str(t.to_string())
}

fn args(entries: Vec<(&str, Json)>) -> Vec<(String, Json)> {
    entries.into_iter().map(|(k, v)| (k.to_string(), v)).collect()
}

fn field<'a>(v: &'a Json, key: &str) -> Option<&'a Json> {
    match v {
        Json::Object(es) => es.iter().find(|(k, _)| k == key).map(|(_, x)| x),
        _ => None,
    }
}

fn success_value(r: &ToolResponse) -> Value {
    match r {
        ToolResponse::Success(t) => serde_json::from_str(t).unwrap(),
        other => panic!("not a success: {:?}", other),
    }
}

fn vs(t: &str) -> Value {
    Value::String(t.to_string())
}

fn manager() -> LldbManager {
    LldbManager::new(None, true, true).unwrap()
}

fn attached() -> LldbManager {
    let mut m = manager();
    m.launch_process("/bin/true", &vec![], &vec![], true, true, Some(4242)).unwrap();
    m
}

fn raw(id: u32, index: u32, frames: u32) -> Option<RawThread> {
    Some(RawThread {
        thread_id: id,
        index,
        frame_count: frames,
        name: None,
        state: "stopped".to_string(),
        stop_reason: Some("breakpoint".to_string()),
        queue_name: None,
        first_frame: Some(RawStackFrame {
            function_name: Some("main".to_string()),
            file_path: Some("main.c".to_string()),
            line: Some(3),
            address: 0x100000000,
            is_inlined: false,
        }),
    })
}

#[test]
fn thread_id_is_required() {
    let e = read_thread_id(&args(vec![])).unwrap_err();
    assert_eq!(e.message(), "Invalid configuration: thread_id is required and must be a number");
    assert_eq!(read_thread_id(&args(vec![("thread_id", Json::UInt(9))])).unwrap(), 9);
}

#[test]
fn listing_threads() {
    let m = manager();
    let j = list_threads(&m, &args(vec![]), &vec![]).unwrap();
    assert_eq!(field(&j, "success"), Some(&Json::Bool(false)));
    assert_eq!(
        field(&j, "error"),
        Some(&s("Process not found or not debuggable: No active process"))
    );
    let m = attached();
    let threads = vec![raw(11, 1, 3), None, raw(12, 2, 0)];
    let j = list_threads(&m, &args(vec![]), &threads).unwrap();
    assert_eq!(field(&j, "total_count"), Some(&Json::UInt(2)));
    assert_eq!(field(&j, "filter_applied"), Some(&Json::Null));
    match field(&j, "threads") {
        Some(Json::Array(items)) => {
            assert_eq!(field(&items[0], "thread_id"), Some(&Json::UInt(11)));
            assert_eq!(field(&items[1], "index"), Some(&Json::UInt(2)));
            assert_eq!(field(&items[0], "state"), Some(&s("stopped")));
            assert_eq!(field(&items[0], "current_frame"), None);
        }
        _ => panic!("no threads"),
    }
    let j = list_threads(&m, &args(vec![("filter_state", s("running"))]), &threads).unwrap();
    assert_eq!(field(&j, "total_count"), Some(&Json::UInt(0)));
    assert_eq!(field(&j, "filter_applied"), Some(&s("running")));
    let j = list_threads(&m, &args(vec![("include_details", Json::Bool(true))]), &threads).unwrap();
    match field(&j, "threads") {
        Some(Json::Array(items)) => {
            let frame = field(&items[0], "current_frame").unwrap();
            assert_eq!(field(frame, "function_name"), Some(&s("main")));
            assert_eq!(field(frame, "address"), Some(&s("0x100000000")));
            assert_eq!(field(&items[1], "current_frame"), Some(&Json::Null));
        }
        _ => panic!("no threads"),
    }
}

#[test]
fn selecting_a_thread() {
    let mut m = attached();
    let threads = vec![raw(11, 1, 3), raw(12, 2, 1)];
    let j = select_thread(&mut m, &args(vec![("thread_id", Json::UInt(12))]), &threads).unwrap();
    assert_eq!(field(&j, "success"), Some(&Json::Bool(true)));
    let t = field(&j, "selected_thread").unwrap();
    assert_eq!(field(t, "thread_id"), Some(&Json::UInt(12)));
    let j = select_thread(&mut m, &args(vec![("thread_id", Json::UInt(99))]), &threads).unwrap();
    assert_eq!(field(&j, "success"), Some(&Json::Bool(false)));
    assert_eq!(field(&j, "thread_id"), Some(&Json::UInt(99)));
}

#[test]
fn dangerous_commands_are_refused() {
    assert!(ExecuteCommandTool::is_dangerous_command("  QUIT now"));
    assert!(ExecuteCommandTool::is_dangerous_command("attach -p 1"));
    assert!(!ExecuteCommandTool::is_dangerous_command("process attach --pid 1"));
    assert!(!ExecuteCommandTool::is_dangerous_command("bt"));
    let tool = ExecuteCommandTool;
    let mut m = manager();
    let failed: Result<String, String> = Err("error: unknown command".to_string());
    let e = tool.execute(&mut m, &args(vec![]), failed.clone()).unwrap_err();
    assert_eq!(e.message(), "Invalid configuration: command required");
    let e = tool.execute(&mut m, &args(vec![("command", s("   "))]), failed.clone()).unwrap_err();
    assert_eq!(e.message(), "Invalid configuration: command cannot be empty");
    let e = tool.execute(&mut m, &args(vec![("command", s("Detach"))]), failed.clone()).unwrap_err();
    assert_eq!(
        e.message(),
        "Invalid configuration: dangerous command blocked - use specific tools instead"
    );
    let r = tool.execute(&mut m, &args(vec![("command", s("bt"))]), failed.clone()).unwrap();
    let v = success_value(&r);
    assert_eq!(v["success"], Value::Bool(false));
    assert_eq!(v["command"], vs("bt"));
    assert_eq!(v["error"], vs("LLDB operation failed: error: unknown command"));
    assert_eq!(v["status"], vs("failed"));
    assert_eq!(v["timeout"], Value::from(30u64));
    let r = tool
        .execute(&mut m, &args(vec![("command", s("bt")), ("timeout", Json::UInt(5))]), Ok("frame #0".to_string()))
        .unwrap();
    let v = success_value(&r);
    assert_eq!(v["timeout"], Value::from(5u64));
    assert_eq!(v["success"], Value::Bool(true));
    assert_eq!(v["output"], vs("frame #0"));
    assert_eq!(v["status"], vs("executed"));
    assert_eq!(tool.command_to_run(&args(vec![("command", s("bt"))])).unwrap(), "bt");
}

#[test]
fn setting_answers() {
    let r = single_setting_answer("target.x", "1", Ok("{\"ok\":true}".to_string()));
    assert_eq!(r, ToolResponse::Success("{\"ok\":true}".to_string()));
    let r = single_setting_answer("target.x", "1", Ok("done".to_string()));
    let v = success_value(&r);
    assert_eq!(v["status"], vs("updated"));
    assert_eq!(v["result"], vs("done"));
    assert_eq!(v["previous_value"], vs("unknown"));
    let r = single_setting_answer("target.x", "1", Err(IncodeError::config("no")));
    let v = success_value(&r);
    assert_eq!(v["success"], Value::Bool(false));
    assert_eq!(v["error"], vs("Invalid configuration: no"));
    assert_eq!(v["status"], vs("failed"));
}

#[test]
fn expressions() {
    assert!(EvaluateExpressionTool::is_unsafe_expression("x = system(\"rm\")"));
    assert!(EvaluateExpressionTool::is_unsafe_expression("delete p"));
    assert!(!EvaluateExpressionTool::is_unsafe_expression("a + b"));
    assert_eq!(EvaluateExpressionTool::format_expression_result("TRUE", "boolean"), Json::Bool(true));
    assert_eq!(EvaluateExpressionTool::format_expression_result("No", "boolean"), Json::Bool(false));
    assert_eq!(EvaluateExpressionTool::format_expression_result("-3", "boolean"), Json::Bool(true));
    assert_eq!(EvaluateExpressionTool::format_expression_result("x", "boolean"), Json::Bool(false));
    let tool = EvaluateExpressionTool;
    let e = tool.request(&args(vec![])).unwrap_err();
    assert_eq!(e.message(), "MCP protocol error: Missing expression parameter");
    match tool.request(&args(vec![("expression", s("exit(1)"))])).unwrap() {
        Err(r) => assert_eq!(r, ToolResponse::Error("Unsafe expression detected: exit(1)".to_string())),
        Ok(_) => panic!("unsafe expression accepted"),
    }
    let q = tool.request(&args(vec![("expression", s("1+1"))])).unwrap().unwrap();
    assert_eq!(q.format, "auto");
    assert_eq!(q.timeout_ms, 5000);
}

#[test]
fn session_tools() {
    let mut m = manager();
    let r = CreateSessionTool
        .execute(
            &mut m,
            &args(vec![("session_name", s("demo")), ("include_environment_info", Json::Bool(true))]),
            "linux",
            "x86_64",
        )
        .unwrap();
    let v = success_value(&r);
    let id = m.current_session_id().unwrap();
    assert_eq!(v["session_id"], Value::String(uuid::Uuid::from_u128(id).to_string()));
    assert_eq!(v["session_name"], vs("demo"));
    assert_eq!(v["session_state"], vs("initialized"));
    assert_eq!(v["environment_info"]["platform"], vs("linux"));

    let save = SaveSessionTool;
    let e = save.plan(&m, &args(vec![])).unwrap_err();
    assert_eq!(e.message(), "Invalid configuration: session_name required");
    let plan = save.plan(&m, &args(vec![("session_name", s("demo"))])).unwrap();
    assert_eq!(plan.file_name, "demo.json");
    assert_eq!(plan.session_id, id);
    assert_eq!(plan.directory, None);
    let record: Value = serde_json::from_str(&plan.data).unwrap();
    assert_eq!(record["state"], vs("Created"));
    let r = save.respond(&plan, SaveOutcome::Written("/tmp/demo.json".to_string()));
    let v = success_value(&r);
    assert_eq!(v["file_path"], vs("/tmp/demo.json"));
    assert_eq!(v["size"], Value::from(plan.data.len() as u64));
    let r = save.respond(&plan, SaveOutcome::WriteFailed("denied".to_string()));
    let v = success_value(&r);
    assert_eq!(v["success"], Value::Bool(false));
    assert_eq!(v["error"], vs("Failed to save session file: denied"));

    let load = LoadSessionTool;
    match load.source(&args(vec![])) {
        Err(r) => assert_eq!(
            success_value(&r)["error"],
            vs("Either file_path, session_name, or session_data is required")
        ),
        Ok(_) => panic!("a source without arguments"),
    }
    let src = load.source(&args(vec![("session_name", s("demo")), ("session_data", s("{}"))])).unwrap();
    assert!(matches!(src, SessionSource::Named(ref n) if n == "demo"));
    assert_eq!(
        LoadSessionTool::read_failure(&src, "/x/demo.json", "gone"),
        "Failed to read session file /x/demo.json: gone"
    );
    let saved = m.save_session(id).unwrap();
    let mut fresh = manager();
    let r = load.load(&mut fresh, &args(vec![]), LoadedData::Parsed(saved));
    let v = success_value(&r);
    assert_eq!(v["session_state"], vs("loaded"));
    assert_eq!(v["restored_components"], Value::Array(vec![vs("breakpoints")]));
    assert_eq!(fresh.current_session_id(), Some(id));
    let r = load.load(&mut fresh, &args(vec![]), LoadedData::ParseFailed("eof".to_string()));
    assert_eq!(
        success_value(&r)["error"],
        vs("Failed to load session: LLDB operation failed: Failed to parse session data: eof")
    );
}

#[test]
fn core_dump_answers() {
    let tool = GenerateCoreDumpTool;
    let e = tool.request(&args(vec![])).unwrap_err();
    assert_eq!(e.message(), "Invalid configuration: output_path required");
    let q = tool.request(&args(vec![("output_path", s("/tmp/core"))])).unwrap();
    assert_eq!(q.format, "auto");
    assert!(q.include_memory);
    let r = tool.respond(&q, Err(IncodeError::no_process()), false, 0).unwrap();
    let v = success_value(&r);
    assert_eq!(v["status"], vs("no_process"));
    assert_eq!(v["error"], vs("No process attached"));
    let r = tool.respond(&q, Ok("saved".to_string()), true, 2048).unwrap();
    let v = success_value(&r);
    assert_eq!(v["status"], vs("generated"));
    assert_eq!(v["file_size"], Value::from(2048u64));
    let r = tool.respond(&q, Ok("saved".to_string()), false, 2048).unwrap();
    assert_eq!(success_value(&r)["file_size"], Value::from(0u64));
    assert!(tool.respond(&q, Err(IncodeError::Timeout), false, 0).is_err());
    let crash = AnalyzeCrashTool.request(&args(vec![]));
    assert_eq!(crash.max_backtrace_depth, 10);
    assert!(crash.include_recommendations);
    assert!(crash.core_file_path.is_none());
}

#[test]
fn suspending_and_resuming_threads() {
    let mut m = attached();
    let j = incode::tools::thread_management::suspend_thread(&mut m, &args(vec![("thread_id", Json::UInt(7))]), Some(true)).unwrap();
    assert_eq!(field(&j, "status"), Some(&s("suspended")));
    assert_eq!(field(&j, "message"), Some(&s("Thread 7 suspended")));
    let j = incode::tools::thread_management::resume_thread(&mut m, &args(vec![("thread_id", Json::UInt(7))]), Some(true)).unwrap();
    assert_eq!(field(&j, "status"), Some(&s("running")));
    let j = incode::tools::thread_management::resume_thread(&mut m, &args(vec![("thread_id", Json::UInt(7))]), Some(false)).unwrap();
    assert_eq!(field(&j, "success"), Some(&Json::Bool(false)));
    assert_eq!(field(&j, "error"), Some(&s("Failed to resume thread 7")));
    let j = incode::tools::thread_management::suspend_thread(&mut m, &args(vec![("thread_id", Json::UInt(8))]), None).unwrap();
    assert_eq!(field(&j, "error"), Some(&s("Thread 8 not found")));
    let e = incode::tools::thread_management::suspend_thread(&mut m, &args(vec![]), None).unwrap_err();
    assert_eq!(e.message(), "Invalid configuration: thread_id is required and must be a number");
}
