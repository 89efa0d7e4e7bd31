use incode::json::Json;
use incode::lldb_manager::commands::{
    lookup_command, save_core_command, settings_set_command, settings_show_command,
};
use incode::lldb_manager::symbols::{RawFileSpec, RawLineEntry, RawLineInfo};
use incode::lldb_manager::target::byte_order_of;
use incode::lldb_manager::{environment_block, parse_breakpoint_location, BreakpointLocation, LldbManager, RawThread};
use incode::tools::lldb_control::SetLldbSettingsTool;
use incode::tools::process_control::LaunchProcessTool;
use incode::tools::registry::ToolRegistry;
use incode::tools::ToolResponse;
use serde_json::Value;

fn s(t: &str) -> Json {
    Json::Str(t.to_string())
}

fn args(entries: Vec<(&str, Json)>) -> Vec<(String, Json)> {
    entries.into_iter().map(|(k, v)| (k.to_string(), v)).collect()
}

fn obj(entries: Vec<(&str, Json)>) -> Json {
    Json::Object(args(entries))
}

fn success_value(r: &ToolResponse) -> Value {
    match r {
        ToolResponse::Success(t) => serde_json::from_str(t).unwrap(),
        other => panic!("not a success: {:?}", other),
    }
}

fn ok(t: &str) -> Result<String, String> {
    Ok(t.to_string())
}

fn failed(t: &str) -> Result<String, String> {
    Err(t.to_string())
}

fn attached() -> LldbManager {
    let mut m = LldbManager::new(None, true, true).unwrap();
    m.launch_process("/bin/true", &vec![], &vec![], true, true, Some(4242)).unwrap();
    m
}

#[test]
fn command_replies_are_passed_on() {
    let m = attached();
    assert_eq!(m.execute_command("bt", ok("frame #0")).unwrap(), "frame #0");
    let e = m.execute_command("bt", failed("no thread")).unwrap_err();
    assert_eq!(e.message(), "LLDB operation failed: no thread");
}

#[test]
fn symbols_are_read_from_the_lookup_reply() {
    let m = attached();
    assert_eq!(lookup_command("main"), "image lookup -n main");
    let output = "1 match found in /bin/app:\n        Address: app[0x0000000100003f20 (app.__TEXT.__text + 0)]\n        Summary: app`main at main.c:3\n        Function: id = {0x1}, name = \"main\"\n";
    let info = m.lookup_symbol("main", ok(output), None).unwrap();
    assert_eq!(info.name, "main");
    assert_eq!(info.address, 0x100003f20);
    // The module is read between two backticks; this summary has one.
    assert_eq!(info.module, None);
    assert_eq!(info.symbol_type, "Function");
    let info = m.lookup_symbol("g_count", ok("Summary: `libdata.so`g_count\nVariable: id = {0x2}\n"), None).unwrap();
    assert_eq!(info.module, Some("libdata.so".to_string()));
    assert_eq!(info.symbol_type, "Data");
    let e = m.lookup_symbol("nothing", ok("warning: no symbols match"), None).unwrap_err();
    assert_eq!(e.message(), "LLDB operation failed: Symbol 'nothing' not found");
    let e = m.lookup_symbol("main", failed("interpreter busy"), None).unwrap_err();
    assert_eq!(e.message(), "LLDB operation failed: interpreter busy");
    let e = m.lookup_symbol("", ok(output), None).unwrap_err();
    assert_eq!(e.message(), "Invalid configuration: symbol name cannot be empty");
}

#[test]
fn settings_are_set_and_read_back() {
    let mut m = attached();
    assert_eq!(settings_set_command("auto-confirm", "true"), "settings set auto-confirm true");
    assert_eq!(settings_show_command("auto-confirm"), "settings show auto-confirm");
    let r = m
        .set_lldb_settings("auto-confirm", "true", ok(""), ok("auto-confirm (boolean) = true\n"))
        .unwrap();
    assert_eq!(r, "Setting 'auto-confirm' changed to 'true'. Current: auto-confirm (boolean) = true");
    let e = m.set_lldb_settings("auto-confirm", "true", failed("bad value"), ok("")).unwrap_err();
    assert_eq!(e.message(), "LLDB operation failed: bad value");
    let e = m.set_lldb_settings("auto-confirm", "true", ok(""), failed("cannot show")).unwrap_err();
    assert_eq!(e.message(), "LLDB operation failed: cannot show");
    let e = m.set_lldb_settings("bogus", "1", ok(""), ok("")).unwrap_err();
    assert_eq!(e.message(), "Invalid configuration: invalid setting name: bogus");
}

#[test]
fn settings_report_lists_each_outcome() {
    let mut m = attached();
    let tool = SetLldbSettingsTool;
    let a = args(vec![(
        "settings",
        obj(vec![("auto-confirm", Json::Bool(true)), ("bogus", s("x")), ("target.max-children-count", Json::UInt(7))]),
    )]);
    let requests = tool.setting_requests(&a);
    assert_eq!(
        requests,
        vec![
            ("auto-confirm".to_string(), "true".to_string()),
            ("bogus".to_string(), "x".to_string()),
            ("target.max-children-count".to_string(), "7".to_string()),
        ]
    );
    let replies = vec![(ok(""), ok("on")), (ok(""), ok("")), (failed("out of range"), ok(""))];
    let v = success_value(&tool.execute(&mut m, &a, &replies).unwrap());
    assert_eq!(v["success"], Value::Bool(false));
    assert_eq!(v["settings_applied"][0]["status"], Value::String("success".to_string()));
    assert_eq!(v["settings_applied"][1]["status"], Value::String("failed".to_string()));
    assert_eq!(
        v["errors"],
        Value::Array(vec![
            Value::String("bogus: Invalid configuration: invalid setting name: bogus".to_string()),
            Value::String("target.max-children-count: LLDB operation failed: out of range".to_string()),
        ])
    );
    let all_ok = vec![(ok(""), ok("on")), (ok(""), ok("")), (ok(""), ok("7"))];
    let a = args(vec![(
        "settings",
        obj(vec![("auto-confirm", Json::Bool(true)), ("target.max-children-count", Json::UInt(7))]),
    )]);
    let v = success_value(&tool.execute(&mut m, &a, &all_ok[..2].to_vec()).unwrap());
    assert_eq!(v["success"], Value::Bool(true));
    assert_eq!(v["errors"], Value::Null);
    let single = args(vec![("setting_name", s("auto-confirm")), ("value", Json::Bool(false))]);
    let v = success_value(&tool.execute(&mut m, &single, &vec![(ok(""), ok("false"))]).unwrap());
    assert_eq!(v["status"], Value::String("updated".to_string()));
    assert_eq!(
        v["result"],
        Value::String("Setting 'auto-confirm' changed to 'false'. Current: false".to_string())
    );
}

#[test]
fn core_dumps_follow_the_save_reply() {
    let m = attached();
    assert_eq!(save_core_command("/tmp/core"), "process save-core /tmp/core");
    let r = m.generate_core_dump("/tmp/core", ok("saved\n"), Some(4096)).unwrap();
    assert_eq!(r, "Core dump generated successfully\nOutput: /tmp/core\nSize: 4096 bytes\nLLDB Output: saved");
    let e = m.generate_core_dump("/tmp/core", ok(""), None).unwrap_err();
    assert_eq!(e.message(), "LLDB operation failed: Core dump file not created: /tmp/core");
    let e = m.generate_core_dump("/tmp/core", failed("no permission"), None).unwrap_err();
    assert_eq!(
        e.message(),
        "LLDB operation failed: Core dump generation failed: LLDB operation failed: no permission"
    );
    let fresh = LldbManager::new(None, true, true).unwrap();
    let e = fresh.generate_core_dump("/tmp/core", ok(""), Some(1)).unwrap_err();
    assert_eq!(e.message(), "Process not found or not debuggable: No active process");
}

#[test]
fn breakpoints_by_function_name_carry_the_engine_id() {
    let m = attached();
    assert!(matches!(
        parse_breakpoint_location("main").unwrap(),
        BreakpointLocation::Function(f) if f == "main"
    ));
    assert_eq!(m.set_breakpoint("main", Some(7)).unwrap(), 7);
    assert_eq!(m.set_breakpoint("0x1000", Some(8)).unwrap(), 8);
    assert_eq!(m.set_breakpoint("main.c:12", Some(9)).unwrap(), 9);
    let e = m.set_breakpoint("main", None).unwrap_err();
    assert_eq!(e.message(), "LLDB operation failed: Failed to create breakpoint at function main");
    assert_eq!(m.set_conditional_breakpoint("main", "x > 1", Some(3), true).unwrap(), 3);
    let e = m.set_conditional_breakpoint("main", "x > 1", Some(3), false).unwrap_err();
    assert_eq!(e.message(), "LLDB operation failed: Failed to find newly created breakpoint 3");
}

#[test]
fn memory_search_finds_matches_across_reads() {
    let m = attached();
    let mut first = vec![0u8; 65536];
    first[65535] = 0xAA;
    first[10] = 0xAA;
    first[11] = 0xBB;
    let second = vec![0xBB, 0x00, 0xAA, 0xBB];
    let found = m
        .search_memory(&vec![0xAA, 0xBB], Some(0x1000), Some(65540), &vec![first, second])
        .unwrap();
    assert_eq!(found, vec![0x1000 + 10, 0x1000 + 65535, 0x1000 + 65538]);
}

#[test]
fn source_view_is_the_window_around_the_line() {
    let mut m = attached();
    m.select_thread(12, &vec![thread12()])
        .unwrap();
    let file: Vec<String> = (1..=10).map(|n| format!("line {}", n)).collect();
    let entry = RawLineEntry {
        file: Some(RawFileSpec { filename: Some("main.c".to_string()), directory: Some("/src".to_string()) }),
        line: 5,
    };
    let code = m.get_source_code(None, 2, true, Some(entry), Some(file)).unwrap();
    assert_eq!(code.file_path, "/src/main.c");
    assert_eq!(code.start_line, 3);
    assert_eq!(code.end_line, 7);
    assert_eq!(code.total_lines, Some(10));
    let numbers: Vec<u32> = code.lines.iter().map(|l| l.line_number).collect();
    assert_eq!(numbers, vec![3, 4, 5, 6, 7]);
    assert_eq!(code.lines[2].content, "line 5");
    let current: Vec<bool> = code.lines.iter().map(|l| l.is_current).collect();
    assert_eq!(current, vec![false, false, true, false, false]);
    let entry = RawLineEntry { file: Some(RawFileSpec { filename: Some("a.c".to_string()), directory: None }), line: 1 };
    let code = m.get_source_code(None, 3, true, Some(entry), Some(vec!["only".to_string()])).unwrap();
    assert_eq!(code.start_line, 1);
    assert_eq!(code.end_line, 1);
    assert_eq!(code.lines.len(), 1);
}

#[test]
fn byte_order_follows_the_architecture() {
    assert_eq!(byte_order_of("x86_64"), "little");
    assert_eq!(byte_order_of("arm64"), "little");
    assert_eq!(byte_order_of("aarch64"), "little");
    assert_eq!(byte_order_of("armv7"), "little");
    assert_eq!(byte_order_of("powerpc64"), "big");
    assert_eq!(byte_order_of("powerpc64le"), "little");
    assert_eq!(byte_order_of("mips"), "big");
    assert_eq!(byte_order_of("mipsel"), "little");
    assert_eq!(byte_order_of("aarch64_be"), "big");
    assert_eq!(byte_order_of("s390x"), "big");
}

#[test]
fn launches_carry_the_environment() {
    let tool = LaunchProcessTool;
    let a = args(vec![
        ("executable", s("/bin/app")),
        ("args", Json::Array(vec![s("-v")])),
        ("env", obj(vec![("DEBUG", s("1")), ("COUNT", Json::UInt(3)), ("HOME", s("/root"))])),
    ]);
    let (exe, list, env) = tool.launch_arguments(&a).unwrap();
    assert_eq!(exe, "/bin/app");
    assert_eq!(list, vec!["-v".to_string()]);
    assert_eq!(
        env,
        vec![("DEBUG".to_string(), "1".to_string()), ("HOME".to_string(), "/root".to_string())]
    );
    assert_eq!(environment_block(&env), vec!["DEBUG=1".to_string(), "HOME=/root".to_string()]);
    let mut m = LldbManager::new(None, true, true).unwrap();
    let bad = vec![("A".to_string(), "x\0y".to_string())];
    let e = m.launch_process("/bin/app", &list, &bad, true, true, Some(5)).unwrap_err();
    assert_eq!(e.message(), "LLDB operation failed: Invalid environment variable");
    assert_eq!(m.launch_process("/bin/app", &list, &env, true, true, Some(5)).unwrap(), 5);
}

#[test]
fn every_tool_is_registered_under_its_name() {
    let r = ToolRegistry::new();
    assert_eq!(r.tool_count(), 65);
    for name in [
        "analyze_crash",
        "generate_core_dump",
        "execute_command",
        "get_lldb_version",
        "set_lldb_settings",
        "create_session",
        "save_session",
        "load_session",
        "cleanup_session",
    ] {
        assert!(r.find_tool(name).is_ok(), "{} is not registered", name);
    }
}

#[test]
fn expressions_take_the_engine_value() {
    let mut m = attached();
    assert_eq!(m.evaluate_expression("argc", ok("2")).unwrap(), "2");
    let e = m.evaluate_expression("nope", failed("use of undeclared identifier 'nope'")).unwrap_err();
    assert_eq!(e.message(), "Expression evaluation failed: use of undeclared identifier 'nope'");
    let e = m.evaluate_in_frame(Some(0), "argc", true, ok("2")).unwrap_err();
    assert_eq!(e.message(), "LLDB operation failed: No active thread for expression evaluation");
    m.select_thread(12, &vec![thread12()])
        .unwrap();
    assert_eq!(m.evaluate_in_frame(Some(0), "argc", true, ok("2")).unwrap(), "2");
    let e = m.evaluate_in_frame(Some(9), "argc", false, ok("2")).unwrap_err();
    assert_eq!(e.message(), "LLDB operation failed: Invalid frame for expression evaluation");
    assert_eq!(incode::lldb_manager::commands::assignment_expression("x", "5"), "x = 5");
    assert_eq!(m.set_variable("x", "5", ok("5"), ok("5")).unwrap(), "Variable 'x' modified. New value: 5");
    let e = m.set_variable("x", "5", failed("x is const"), ok("5")).unwrap_err();
    assert_eq!(e.message(), "Expression evaluation failed: x is const");
    let e = m.set_variable("", "5", ok("5"), ok("5")).unwrap_err();
    assert_eq!(e.message(), "Invalid configuration: variable name cannot be empty");
}

fn placed(line: u32) -> Option<RawLineInfo> {
    Some(RawLineInfo {
        file: RawFileSpec { filename: Some("main.c".to_string()), directory: Some("/src".to_string()) },
        line,
        column: 0,
        function_name: Some("main".to_string()),
    })
}

#[test]
fn addresses_map_to_the_engine_line() {
    let m = attached();
    let loc = m.get_line_info(0x1000, placed(12)).unwrap();
    assert_eq!(loc.file_path, "/src/main.c");
    assert_eq!(loc.line_number, 12);
    assert_eq!(loc.column, None);
    assert_eq!(loc.function_name, Some("main".to_string()));
    assert_eq!(loc.address, 0x1000);
    assert!(loc.is_valid);
    let e = m.get_line_info(0x1000, None).unwrap_err();
    assert_eq!(e.message(), "LLDB operation failed: No line information for address 0x1000");
    let output = "Address: app[0x0000000100003f20 (app.__TEXT.__text + 0)]\nFunction: id = {0x1}\n";
    let info = m.lookup_symbol("main", ok(output), placed(3)).unwrap();
    assert_eq!(info.file, Some("/src/main.c".to_string()));
    assert_eq!(info.line, Some(3));
    let info = m.lookup_symbol("main", ok(output), None).unwrap();
    assert_eq!(info.line, None);
}

#[test]
fn disassembly_lists_the_decoded_instructions() {
    let m = attached();
    let listed = vec![(0x1000u64, "push rbp".to_string()), (0x1001u64, "mov rbp, rsp".to_string())];
    let lines = m.disassemble(0x1000, 2, Some(listed)).unwrap();
    assert_eq!(lines, vec!["0x0000000000001000: push rbp".to_string(), "0x0000000000001001: mov rbp, rsp".to_string()]);
    let e = m.disassemble(0x1000, 2, None).unwrap_err();
    assert_eq!(e.message(), "LLDB operation failed: Failed to disassemble at address 0x1000");
    let e = m.disassemble(0x1000, 1001, Some(vec![])).unwrap_err();
    assert_eq!(e.message(), "LLDB operation failed: Disassembly instruction count too large (max 1000)");
}

fn region(base: u64, end: u64, r: bool, w: bool, x: bool, name: Option<&str>) -> incode::lldb_manager::RawRegion {
    incode::lldb_manager::RawRegion { base, end, readable: r, writable: w, executable: x, name: name.map(String::from) }
}

#[test]
fn memory_regions_are_the_engine_regions() {
    let m = attached();
    let raw = vec![region(0x1000, 0x3000, true, false, true, Some("__TEXT")), region(0x8000, 0x9000, true, true, false, None)];
    let regions = m.get_memory_regions(&raw).unwrap();
    assert_eq!(regions.len(), 2);
    assert_eq!(regions[0].start_address, 0x1000);
    assert_eq!(regions[0].size, 0x2000);
    assert_eq!(regions[0].permissions, "r-x");
    assert_eq!(regions[0].name, Some("__TEXT".to_string()));
    assert_eq!(regions[1].permissions, "rw-");
    let map = m.get_memory_map(&raw).unwrap();
    assert_eq!(map.total_segments, 2);
    assert_eq!(map.total_vm_size, 0x3000);
    assert_eq!(map.segments[1].name, "UNKNOWN");
    assert_eq!(map.segments[0].max_protection, "r-x");
    let fresh = LldbManager::new(None, true, true).unwrap();
    let e = fresh.get_memory_regions(&raw).unwrap_err();
    assert_eq!(e.message(), "LLDB operation failed: No active process for memory regions");
}

fn var(name: &str, value: &str, is_argument: bool) -> incode::lldb_manager::RawVariable {
    incode::lldb_manager::RawVariable {
        name: name.to_string(),
        value: value.to_string(),
        value_type: "int".to_string(),
        is_argument,
    }
}

#[test]
fn frame_variables_are_the_engine_variables() {
    let mut m = attached();
    let found = vec![var("argc", "2", true), var("result", "42", false), var("count", "7", false)];
    let e = m.get_frame_variables(None, true, true, &found).unwrap_err();
    assert_eq!(e.message(), "LLDB operation failed: No active thread for frame variables");
    m.select_thread(12, &vec![thread12()])
        .unwrap();
    let all = m.get_frame_variables(None, true, true, &found).unwrap();
    let names: Vec<&str> = all.iter().map(|v| v.name.as_str()).collect();
    assert_eq!(names, vec!["argc", "result", "count"]);
    assert_eq!(all[0].scope, "parameter");
    assert_eq!(all[1].scope, "local");
    let locals = m.get_frame_variables(None, false, true, &found).unwrap();
    assert_eq!(locals.len(), 2);
    let args = m.get_frame_arguments(None, true, &found).unwrap();
    assert_eq!(args.len(), 1);
    assert_eq!(args[0].value, "2");
    let e = m.get_frame_arguments(Some(3), false, &found).unwrap_err();
    assert_eq!(e.message(), "LLDB operation failed: Invalid frame for variables");
    let kept = m.get_variables(Some("local"), Some("res"), true, &found).unwrap();
    assert_eq!(kept.len(), 1);
    assert_eq!(kept[0].name, "result");
    assert!(m.get_variables(None, None, false, &found).unwrap().is_empty());
    let globals = m.get_global_variables(None, &vec![var("g_count", "3", false)]).unwrap();
    assert_eq!(globals[0].scope, "global");
    assert_eq!(globals[0].name, "g_count");
}

#[test]
fn frame_info_carries_the_engine_place() {
    let mut m = attached();
    let place = incode::lldb_manager::FramePlace { module: Some("app".to_string()), file: Some("main.c".to_string()), line: Some(7) };
    let info = m.select_frame(1, true, 3, Some((Some("work".to_string()), 0x2000, 0x7000)), place, true).unwrap();
    assert_eq!(info.index, 1);
    assert_eq!(info.function_name, "work");
    assert_eq!(info.module, Some("app".to_string()));
    assert_eq!(info.file, Some("main.c".to_string()));
    assert_eq!(info.line, Some(7));
    let bare = incode::lldb_manager::FramePlace { module: None, file: None, line: None };
    let info = m.get_frame_info(None, true, Some((None, 1, 2)), bare).unwrap();
    assert_eq!(info.index, 1);
    assert_eq!(info.function_name, "unknown");
    assert_eq!(info.line, None);
}

#[test]
fn watchpoints_and_breakpoint_commands_follow_the_engine() {
    let m = attached();
    assert_eq!(m.set_watchpoint(0x5000, 8, false, true, Some(4)).unwrap(), 4);
    let e = m.set_watchpoint(0x5000, 8, false, true, None).unwrap_err();
    assert_eq!(e.message(), "LLDB operation failed: Failed to create watchpoint at address 0x5000");
    let commands = vec!["bt".to_string(), "continue".to_string()];
    assert_eq!(m.set_breakpoint_commands(3, &commands, true, true).unwrap(), true);
    assert_eq!(m.set_breakpoint_commands(3, &commands, true, false).unwrap(), false);
    let e = m.set_breakpoint_commands(3, &commands, false, false).unwrap_err();
    assert_eq!(e.message(), "LLDB operation failed: Breakpoint 3 not found");
}

#[test]
fn variable_info_is_what_the_engine_found() {
    let m = attached();
    let raw = incode::lldb_manager::RawVariableInfo {
        full_name: "count".to_string(),
        value_type: "int".to_string(),
        type_class: "builtin".to_string(),
        value: "7".to_string(),
        address: 0x7000,
        size: 4,
        in_scope: true,
        location: "memory".to_string(),
        declaration_file: Some("main.c".to_string()),
        declaration_line: Some(9),
    };
    let info = m.get_variable_info("count", Some(raw)).unwrap();
    assert!(info.is_valid);
    assert_eq!(info.value, "7");
    assert_eq!(info.address, 0x7000);
    assert_eq!(info.declaration_line, Some(9));
    let info = m.get_variable_info("gone", None).unwrap();
    assert!(!info.is_valid);
    assert_eq!(info.full_name, "::main::gone");
    assert_eq!(info.value, "?");
}

fn thread12() -> Option<RawThread> {
    Some(RawThread {
        thread_id: 12,
        index: 0,
        frame_count: 1,
        name: Some("worker".to_string()),
        state: "stopped".to_string(),
        stop_reason: None,
        queue_name: None,
        first_frame: None,
    })
}

#[test]
fn breakpoint_listing_carries_conditions() {
    let m = attached();
    let found = vec![
        Some(incode::lldb_manager::RawBreakpoint { id: 2, enabled: true, hit_count: 1, condition: Some("x > 1".to_string()) }),
        None,
        Some(incode::lldb_manager::RawBreakpoint { id: 5, enabled: false, hit_count: 0, condition: None }),
    ];
    let bps = m.list_breakpoints(&found).unwrap();
    assert_eq!(bps.len(), 2);
    assert_eq!(bps[0].condition, Some("x > 1".to_string()));
    assert_eq!(bps[0].location, "breakpoint_2");
    assert_eq!(bps[1].id, 5);
    assert!(!bps[1].enabled);
    assert_eq!(bps[1].condition, None);
}

#[test]
fn process_info_names_the_executable() {
    let m = attached();
    let info = m.get_process_info(4242, 5, Some("/bin/true".to_string())).unwrap();
    assert_eq!(info.pid, 4242);
    assert_eq!(info.executable_path, Some("/bin/true".to_string()));
    assert_eq!(info.memory_usage, None);
    let fresh = LldbManager::new(None, true, true).unwrap();
    let e = fresh.get_process_info(1, 5, None).unwrap_err();
    assert_eq!(e.message(), "LLDB operation failed: No active process");
}
