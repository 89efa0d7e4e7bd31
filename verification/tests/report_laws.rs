use incode::json::Json;
use incode::lldb_manager::{CompilationUnit, DebugInfo, FunctionInfo, ModuleInfo, PlatformInfo, TargetInfo};
use incode::tools::debug_information::{debug_report, function_list};
use incode::tools::target_information::{module_report, platform_report, target_report};

fn field<'a>(v: &'a Json, key: &str) -> Option<&'a Json> {
    match v {
        Json::Object(es) => es.iter().find(|(k, _)| k == key).map(|(_, x)| x),
        _ => None,
    }
}

fn has(v: &Json, key: &str) -> bool {
    field(v, key).is_some()
}

fn text(t: &str) -> Json {
    Json::Str(t.to_string())
}

fn target() -> TargetInfo {
    TargetInfo {
        executable_path: "/bin/app".to_string(),
        architecture: "arm64".to_string(),
        platform: "host".to_string(),
        executable_format: "Mach-O".to_string(),
        has_debug_symbols: true,
        entry_point: Some(0x1000),
        base_address: None,
        file_size: 2048,
        creation_time: None,
        is_pie: true,
        is_stripped: false,
        endianness: "little".to_string(),
    }
}

#[test]
fn target_report_fields_follow_the_flags() {
    let t = target();
    let j = target_report(&t, Some(1700000000), true, true, false);
    assert_eq!(field(&j, "executable_path"), Some(&text("/bin/app")));
    assert_eq!(field(&j, "architecture"), Some(&text("arm64")));
    assert_eq!(field(&j, "endianness"), Some(&text("little")));
    assert!(has(&j, "has_debug_symbols"));
    assert!(has(&j, "file_size"));
    assert_eq!(field(&j, "entry_point"), Some(&text("0x1000")));
    assert_eq!(field(&j, "creation_time"), Some(&text("1700000000")));
    assert!(!has(&j, "symbol_analysis_enabled"));
    let j = target_report(&t, None, false, false, true);
    assert!(!has(&j, "has_debug_symbols"));
    assert!(!has(&j, "file_size"));
    assert!(!has(&j, "entry_point"));
    assert_eq!(field(&j, "symbol_analysis_enabled"), Some(&Json::Bool(true)));
}

#[test]
fn platform_report_fields_follow_the_flags() {
    let p = PlatformInfo {
        name: "host".to_string(),
        version: "14.1".to_string(),
        architecture: "arm64".to_string(),
        vendor: "apple".to_string(),
        environment: "macosx".to_string(),
        sdk_version: Some("14.0".to_string()),
        deployment_target: None,
        is_simulator: false,
        is_remote: false,
        supports_jit: true,
        working_directory: "/".to_string(),
        supported_architectures: vec!["arm64".to_string()],
        hostname: None,
    };
    let j = platform_report(&p, true, true);
    assert_eq!(field(&j, "name"), field(&j, "platform_name"));
    assert_eq!(field(&j, "version"), Some(&text("14.1")));
    assert_eq!(field(&j, "os_version"), Some(&text("14.1")));
    assert_eq!(field(&j, "byte_order"), Some(&text("little")));
    assert_eq!(field(&j, "sdk_version"), Some(&text("14.0")));
    assert_eq!(field(&j, "supports_jit"), Some(&Json::Bool(true)));
    let j = platform_report(&p, false, false);
    assert!(!has(&j, "sdk_version"));
    assert!(!has(&j, "is_simulator"));
    assert!(!has(&j, "supports_jit"));
}

fn module(name: &str) -> ModuleInfo {
    ModuleInfo {
        name: name.to_string(),
        file_path: format!("/lib/{}", name),
        uuid: "u".to_string(),
        architecture: "x86_64".to_string(),
        load_address: 0x4000,
        file_size: 10,
        is_main_executable: false,
        has_debug_symbols: false,
        symbol_vendor: None,
        compile_units: vec!["a.c".to_string()],
        num_symbols: 3,
        slide: None,
        version: None,
    }
}

#[test]
fn module_report_counts_names_and_keys() {
    let mods = vec![module("a"), module("b"), module("c")];
    let j = module_report(&mods, true, true, false, Some(2), &Some("lib".to_string()));
    assert_eq!(field(&j, "count"), Some(&Json::UInt(2)));
    assert_eq!(field(&j, "total_count"), Some(&Json::UInt(3)));
    assert_eq!(field(&j, "filter_applied"), Some(&text("lib")));
    match field(&j, "modules") {
        Some(Json::Array(items)) => {
            assert_eq!(items.len(), 2);
            assert_eq!(field(&items[0], "name"), Some(&text("a")));
            assert_eq!(field(&items[1], "name"), Some(&text("b")));
            assert_eq!(field(&items[0], "load_address"), Some(&text("0x4000")));
            assert!(!has(&items[0], "num_symbols"));
            assert!(has(&items[0], "compile_units"));
        }
        other => panic!("no module list: {:?}", other),
    }
    let j = module_report(&mods, false, false, true, None, &None);
    assert_eq!(field(&j, "count"), Some(&Json::UInt(3)));
    assert!(!has(&j, "filter_applied"));
}

fn unit(language: Option<&str>, low: u64, high: u64) -> CompilationUnit {
    CompilationUnit {
        file_path: "x.c".to_string(),
        producer: None,
        language: language.map(String::from),
        low_pc: low,
        high_pc: high,
        line_count: 1,
    }
}

#[test]
fn debug_statistics_sum_spans_and_list_languages_once() {
    let info = DebugInfo {
        has_debug_symbols: true,
        debug_format: "DWARF".to_string(),
        compilation_units: vec![
            unit(Some("c"), 0x1000, 0x1100),
            unit(Some("c++"), 0x2000, 0x2010),
            unit(Some("c"), 0x3000, 0x3001),
            unit(None, 0, 0),
        ],
        symbol_count: 8,
        line_table_count: 0,
        function_count: 2,
    };
    let j = debug_report(&info, false, true);
    let di = field(&j, "debug_info").unwrap();
    let stats = field(di, "detailed_stats").unwrap();
    assert_eq!(field(stats, "total_address_space"), Some(&Json::UInt(0x100 + 0x10 + 1)));
    assert_eq!(field(stats, "languages_detected"), Some(&Json::Array(vec![text("c"), text("c++")])));
}

fn function(name: &str) -> FunctionInfo {
    FunctionInfo {
        name: name.to_string(),
        mangled_name: None,
        start_address: 0x10,
        end_address: None,
        file_path: None,
        line_number: None,
        size: None,
        is_inline: false,
        return_type: None,
    }
}

#[test]
fn function_filter_keeps_exactly_the_matching_names() {
    let fns = vec![function("main"), function("Parse_Args"), function("parse"), function("exit")];
    let j = function_list(&fns, &None, &Some("PARSE".to_string()), false, false);
    assert_eq!(field(&j, "total_count"), Some(&Json::UInt(2)));
    match field(&j, "functions") {
        Some(Json::Array(items)) => {
            assert_eq!(field(&items[0], "name"), Some(&text("Parse_Args")));
            assert_eq!(field(&items[1], "name"), Some(&text("parse")));
        }
        other => panic!("no function list: {:?}", other),
    }
    let j = function_list(&fns, &None, &None, false, false);
    assert_eq!(field(&j, "total_count"), Some(&Json::UInt(4)));
}

#[test]
fn hexdump_lines_keep_their_columns() {
    let dump = incode::bytes::hexdump_text(&vec![0x41; 17], 0x10);
    let lines: Vec<&str> = dump.split_inclusive('\n').collect();
    assert_eq!(lines.len(), 2);
    assert!(lines[0].starts_with("00000010: "));
    assert!(lines[1].starts_with("00000020: "));
    for line in &lines {
        assert_eq!(&line[58..60], " |");
        assert!(line.ends_with("|\n"));
    }
    assert_eq!(lines[0].len(), 10 + 48 + 2 + 16 + 2);
    assert_eq!(lines[1].len(), 10 + 48 + 2 + 1 + 2);
}

#[test]
fn process_rows_keep_the_table_order() {
    let table = "  PID  PPID S COMMAND RSS\n    1     0 S init 100\n  200     1 R editor 2048\n  bad     1 R junk 1\n  300   200 S shell\n  400   200 S shell2 x\n";
    let all = incode::lldb_manager::processes::processes_from_table(table, None, true);
    let pids: Vec<u32> = all.iter().map(|p| p.pid).collect();
    assert_eq!(pids, vec![1, 200, 400]);
    assert_eq!(all[1].executable_path, Some("editor".to_string()));
    assert_eq!(all[1].memory_usage, Some(2048 * 1024));
    assert_eq!(all[2].memory_usage, Some(0));
    let user = incode::lldb_manager::processes::processes_from_table(table, Some("sh"), false);
    let pids: Vec<u32> = user.iter().map(|p| p.pid).collect();
    assert_eq!(pids, vec![400]);
    let m = incode::lldb_manager::LldbManager::new(None, true, true).unwrap();
    let e = m.list_processes(None, true, Ok((false, String::new()))).unwrap_err();
    assert_eq!(e.message(), "LLDB operation failed: ps command failed");
}

#[test]
fn ascii_commands_are_checked_in_lowercase() {
    use_dangerous("KILL 5", true);
    use_dangerous("  Detach", true);
    use_dangerous("Process Kill", false);
}

fn use_dangerous(command: &str, expected: bool) {
    assert_eq!(incode::tools::lldb_control::ExecuteCommandTool::is_dangerous_command(command), expected);
}
