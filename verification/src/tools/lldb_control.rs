//! Tools that drive the debugger itself: run a raw command, report its
//! version, change its settings.
//!
//! Their answers are the compact JSON text of a report, sent as a success;
//! a missing or malformed argument is an error.

use vstd::prelude::*;
use crate::error::{error_text, has_known_text, IncodeError};
use crate::json::{
    arg_bool_or, arg_get, arg_str, as_text, entry, is_opt_text_value, is_text_array, jopt_str,
    json_text, json_text_of, jstr, lookup, opt_view, parses_as_json, is_json_text, text_array,
    Arguments, Json,
};
use crate::lldb_manager::commands::is_valid_setting;
use crate::lldb_manager::target::is_version_info;
use crate::lldb_manager::{LldbManager, LldbVersionInfo};
use crate::text::{
    ascii_lowercase, is_ascii_chars, lemma_trim_keeps_ascii, dec_str, has_prefix, int_str, push_dec, push_int, push_str, str_starts_with, trim, trim_str,
};
use crate::tools::{flag_arg, has_text, has_value, lowercase_of, to_lowercase, ToolResponse};

verus! {

broadcast use vstd::string::group_string_axioms;

/// `r` is a success whose text is the compact JSON text of `j`.
pub open spec fn is_json_success(r: ToolResponse, j: Json) -> bool {
    r matches ToolResponse::Success(t) && t@ == json_text_of(j)
}

fn json_success(j: &Json) -> (r: ToolResponse)
    ensures
        is_json_success(r, *j),
{
    ToolResponse::Success(json_text(j))
}

// ---------------------------------------------------------------------------
// execute_command
// ---------------------------------------------------------------------------

/// The time limit asked for, in whole seconds: the `timeout` number
/// truncated toward zero and held within the 32-bit range, 30 where there
/// is none.
pub open spec fn timeout_arg(args: Seq<(String, Json)>) -> u32 {
    match lookup(args, "timeout"@) {
        Some(Json::UInt(n)) => if n > u32::MAX {
            u32::MAX
        } else {
            n as u32
        },
        Some(Json::NegInt(_)) => 0,
        Some(Json::Float { trunc, .. }) => if trunc < 0 {
            0
        } else if trunc > u32::MAX {
            u32::MAX
        } else {
            trunc as u32
        },
        _ => 30,
    }
}

/// The commands that other tools stand for and that are refused here.
pub open spec fn dangerous_commands() -> Seq<Seq<char>> {
    seq!["quit"@, "exit"@, "kill"@, "detach"@, "attach"@]
}

/// The command, trimmed and in lowercase, starts with a refused command.
pub open spec fn is_dangerous(command: Seq<char>) -> bool {
    exists|i: int|
        0 <= i < dangerous_commands().len() && has_prefix(
            lowercase_of(trim(command)),
            #[trigger] dangerous_commands()[i],
        )
}

/// `j` reports the run of `command`, with its output or the error it
/// failed with.
pub open spec fn is_command_report(j: Json, command: Seq<char>, outcome: Result<String, IncodeError>, timeout: u32) -> bool {
    j matches Json::Object(es) && {
        let es = es@;
        &&& es.len() == 5
        &&& has_text(es, 1, "command"@, command)
        &&& has_value(es, 3, "timeout"@, Json::UInt(timeout as u64))
        &&& match outcome {
            Ok(out) => {
                &&& has_value(es, 0, "success"@, Json::Bool(true))
                &&& has_text(es, 2, "output"@, out@)
                &&& has_text(es, 4, "status"@, "executed"@)
            },
            Err(e) => {
                &&& has_value(es, 0, "success"@, Json::Bool(false))
                &&& es[2].0@ == "error"@ && (has_known_text(e) ==> has_text(
                    es,
                    2,
                    "error"@,
                    error_text(e),
                ))
                &&& has_text(es, 4, "status"@, "failed"@)
            },
        }
    }
}

/// `j` reports that `command` ran and printed `out`.
pub open spec fn is_command_output(j: Json, command: Seq<char>, out: Seq<char>, timeout: u32) -> bool {
    j matches Json::Object(es) && {
        let es = es@;
        &&& es.len() == 5
        &&& has_value(es, 0, "success"@, Json::Bool(true))
        &&& has_text(es, 1, "command"@, command)
        &&& has_text(es, 2, "output"@, out)
        &&& has_value(es, 3, "timeout"@, Json::UInt(timeout as u64))
        &&& has_text(es, 4, "status"@, "executed"@)
    }
}

/// `j` reports that running `command` failed with the message `msg`.
pub open spec fn is_command_failure(j: Json, command: Seq<char>, msg: Seq<char>, timeout: u32) -> bool {
    j matches Json::Object(es) && {
        let es = es@;
        &&& es.len() == 5
        &&& has_value(es, 0, "success"@, Json::Bool(false))
        &&& has_text(es, 1, "command"@, command)
        &&& has_text(es, 2, "error"@, msg)
        &&& has_value(es, 3, "timeout"@, Json::UInt(timeout as u64))
        &&& has_text(es, 4, "status"@, "failed"@)
    }
}

fn read_timeout(args: &Arguments) -> (r: u32)
    ensures
        r == timeout_arg(args@),
{
    match arg_get(args, "timeout") {
        Some(Json::UInt(n)) => if *n > 0xffff_ffff {
            0xffff_ffff
        } else {
            *n as u32
        },
        Some(Json::NegInt(_)) => 0,
        Some(Json::Float { trunc, .. }) => if *trunc < 0 {
            0
        } else if *trunc > 0xffff_ffff {
            0xffff_ffff
        } else {
            *trunc as u32
        },
        _ => 30,
    }
}

/// Reports the run of `command`.
pub fn command_report(command: &str, outcome: Result<String, IncodeError>, timeout: u32) -> (j: Json)
    ensures
        is_command_report(j, command@, outcome, timeout),
{
    let mut es: Vec<(String, Json)> = Vec::new();
    match outcome {
        Ok(out) => {
            es.push(entry("success", Json::Bool(true)));
            es.push(entry("command", jstr(command)));
            es.push(entry("output", Json::Str(out)));
            es.push(entry("timeout", Json::UInt(timeout as u64)));
            es.push(entry("status", jstr("executed")));
        },
        Err(e) => {
            es.push(entry("success", Json::Bool(false)));
            es.push(entry("command", jstr(command)));
            es.push(entry("error", Json::Str(e.message())));
            es.push(entry("timeout", Json::UInt(timeout as u64)));
            es.push(entry("status", jstr("failed")));
        },
    }
    Json::Object(es)
}

/// Runs a raw debugger command.
#[derive(Debug)]
pub struct ExecuteCommandTool;

impl ExecuteCommandTool {
    pub fn name(&self) -> (r: &'static str)
        ensures
            r@ == "execute_command"@,
    {
        "execute_command"
    }

    pub fn description(&self) -> (r: &'static str)
        ensures
            r@ == "Execute raw LLDB command and return output"@,
    {
        "Execute raw LLDB command and return output"
    }

    /// Whether the trimmed, lowercase command starts with a command that
    /// other tools stand for.
    pub fn is_dangerous_command(command: &str) -> (r: bool)
        ensures
            r == is_dangerous(command@),
            is_ascii_chars(command@) ==> (r <==> exists|i: int|
                0 <= i < dangerous_commands().len() && has_prefix(
                    ascii_lowercase(trim(command@)),
                    #[trigger] dangerous_commands()[i],
                )),
    {
        let trimmed = trim_str(command);
        proof {
            if is_ascii_chars(command@) {
                lemma_trim_keeps_ascii(command@);
            }
        }
        let lowered = to_lowercase(trimmed.as_str());
        let patterns: Vec<&str> = vec!["quit", "exit", "kill", "detach", "attach"];
        assert(patterns@.map_values(|p: &str| p@) =~= dangerous_commands());
        let mut i: usize = 0;
        while i < patterns.len()
            invariant
                i <= patterns@.len(),
                patterns@.map_values(|p: &str| p@) == dangerous_commands(),
                lowered@ == lowercase_of(trim(command@)),
                is_ascii_chars(command@) ==> lowered@ == ascii_lowercase(trim(command@)),
                forall|k: int|
                    0 <= k < i ==> !has_prefix(lowered@, #[trigger] dangerous_commands()[k]),
            decreases patterns@.len() - i,
        {
            assert(dangerous_commands()[i as int] == patterns@[i as int]@);
            if str_starts_with(lowered.as_str(), patterns[i]) {
                return true;
            }
            i = i + 1;
        }
        false
    }

    /// The command to run for `arguments`: `command`, which is required,
    /// not blank and not one that other tools stand for.
    pub fn command_to_run(&self, arguments: &Arguments) -> (r: Result<String, IncodeError>)
        ensures
            match as_text(lookup(arguments@, "command"@)) {
                None => r matches Err(IncodeError::Configuration(m)) && m@ == "command required"@,
                Some(c) => if trim(c).len() == 0 {
                    r matches Err(IncodeError::Configuration(m)) && m@
                        == "command cannot be empty"@
                } else if is_dangerous(c) {
                    r matches Err(IncodeError::Configuration(m)) && m@
                        == "dangerous command blocked - use specific tools instead"@
                } else {
                    r matches Ok(cmd) && cmd@ == c
                },
            },
    {
        let command = match arg_str(arguments, "command") {
            Some(c) => c,
            None => {
                return Err(IncodeError::invalid_parameter("command required"));
            },
        };
        let trimmed = trim_str(command.as_str());
        if trimmed.as_str().unicode_len() == 0 {
            return Err(IncodeError::invalid_parameter("command cannot be empty"));
        }
        if Self::is_dangerous_command(command.as_str()) {
            return Err(
                IncodeError::invalid_parameter(
                    "dangerous command blocked - use specific tools instead",
                ),
            );
        }
        Ok(command)
    }

    /// Runs the command `command` (required, not blank, not one that other
    /// tools stand for) with the time limit `timeout` (30 seconds by
    /// default), and reports it. `reply` is what the command interpreter
    /// replied to `command_to_run(arguments)`: the command's output, or the
    /// message it failed with.
    pub fn execute(
        &self,
        lldb_manager: &mut LldbManager,
        arguments: &Arguments,
        reply: Result<String, String>,
    ) -> (r: Result<ToolResponse, IncodeError>)
        ensures
            *final(lldb_manager) == *old(lldb_manager),
            match as_text(lookup(arguments@, "command"@)) {
                None => r matches Err(IncodeError::Configuration(m)) && m@ == "command required"@,
                Some(c) => if trim(c).len() == 0 {
                    r matches Err(IncodeError::Configuration(m)) && m@
                        == "command cannot be empty"@
                } else if is_dangerous(c) {
                    r matches Err(IncodeError::Configuration(m)) && m@
                        == "dangerous command blocked - use specific tools instead"@
                } else {
                    r matches Ok(resp) && exists|j: Json|
                        #[trigger] is_json_success(resp, j) && match reply {
                            Ok(out) => is_command_output(j, c, out@, timeout_arg(arguments@)),
                            Err(msg) => is_command_failure(
                                j,
                                c,
                                "LLDB operation failed: "@ + msg@,
                                timeout_arg(arguments@),
                            ),
                        }
                },
            },
    {
        let command = self.command_to_run(arguments)?;
        let timeout = read_timeout(arguments);
        let outcome = lldb_manager.execute_command(command.as_str(), reply);
        let j = command_report(command.as_str(), outcome, timeout);
        let resp = json_success(&j);
        assert(is_json_success(resp, j));
        Ok(resp)
    }
}

// ---------------------------------------------------------------------------
// get_lldb_version
// ---------------------------------------------------------------------------

/// The abilities the version report lists.
pub open spec fn capability_names() -> Seq<Seq<char>> {
    seq![
        "breakpoints"@,
        "watchpoints"@,
        "process_control"@,
        "memory_inspection"@,
        "register_inspection"@,
        "stack_analysis"@,
        "thread_management"@,
    ]
}

/// The output formats the version report lists.
pub open spec fn format_names() -> Seq<Seq<char>> {
    seq!["json"@, "text"@, "raw"@]
}

/// `j` reports the debugger version `v`, with the abilities and formats
/// where `caps` asks for them.
pub open spec fn is_version_report(j: Json, v: LldbVersionInfo, build: bool, caps: bool) -> bool {
    j matches Json::Object(es) && {
        let es = es@;
        &&& es.len() == if caps {
            11int
        } else {
            9int
        }
        &&& has_value(es, 0, "success"@, Json::Bool(true))
        &&& has_text(es, 1, "version"@, v.version@)
        &&& es[2].0@ == "build_number"@ && is_opt_text_value(es[2].1, opt_view(v.build_number))
        &&& has_text(es, 3, "api_version"@, v.api_version@)
        &&& es[4].0@ == "build_date"@ && is_opt_text_value(es[4].1, opt_view(v.build_date))
        &&& es[5].0@ == "build_configuration"@ && is_opt_text_value(
            es[5].1,
            opt_view(v.build_configuration),
        )
        &&& es[6].0@ == "compiler"@ && is_opt_text_value(es[6].1, opt_view(v.compiler))
        &&& has_text(es, 7, "platform"@, v.platform@)
        &&& has_value(es, 8, "include_build_info"@, Json::Bool(build))
        &&& caps ==> es[9].0@ == "capabilities"@ && is_text_array(es[9].1, capability_names())
            && es[10].0@ == "supported_formats"@ && is_text_array(es[10].1, format_names())
    }
}

fn names_json(names: &Vec<&str>) -> (j: Json)
    ensures
        is_text_array(j, names@.map_values(|n: &str| n@)),
{
    let mut owned_names: Vec<String> = Vec::new();
    let mut i: usize = 0;
    while i < names.len()
        invariant
            i <= names@.len(),
            owned_names@.len() == i,
            forall|k: int| 0 <= k < i ==> (#[trigger] owned_names@[k])@ == names@[k]@,
        decreases names@.len() - i,
    {
        owned_names.push(names[i].to_owned());
        i = i + 1;
    }
    assert(owned_names@.map_values(|s: String| s@) =~= names@.map_values(|n: &str| n@));
    text_array(&owned_names)
}

/// Reports the debugger version `v`.
pub fn version_report(v: &LldbVersionInfo, build: bool, caps: bool) -> (j: Json)
    ensures
        is_version_report(j, *v, build, caps),
{
    let mut es: Vec<(String, Json)> = Vec::new();
    es.push(entry("success", Json::Bool(true)));
    es.push(entry("version", Json::Str(v.version.clone())));
    es.push(entry("build_number", jopt_str(&v.build_number)));
    es.push(entry("api_version", Json::Str(v.api_version.clone())));
    es.push(entry("build_date", jopt_str(&v.build_date)));
    es.push(entry("build_configuration", jopt_str(&v.build_configuration)));
    es.push(entry("compiler", jopt_str(&v.compiler)));
    es.push(entry("platform", Json::Str(v.platform.clone())));
    es.push(entry("include_build_info", Json::Bool(build)));
    if caps {
        let capabilities: Vec<&str> = vec![
            "breakpoints",
            "watchpoints",
            "process_control",
            "memory_inspection",
            "register_inspection",
            "stack_analysis",
            "thread_management",
        ];
        assert(capabilities@.map_values(|n: &str| n@) =~= capability_names());
        let formats: Vec<&str> = vec!["json", "text", "raw"];
        assert(formats@.map_values(|n: &str| n@) =~= format_names());
        es.push(entry("capabilities", names_json(&capabilities)));
        es.push(entry("supported_formats", names_json(&formats)));
    }
    Json::Object(es)
}

/// Reports the debugger's version.
#[derive(Debug)]
pub struct GetLldbVersionTool;

impl GetLldbVersionTool {
    pub fn name(&self) -> (r: &'static str)
        ensures
            r@ == "get_lldb_version"@,
    {
        "get_lldb_version"
    }

    pub fn description(&self) -> (r: &'static str)
        ensures
            r@ == "Get LLDB version and build information"@,
    {
        "Get LLDB version and build information"
    }

    /// Reports the debugger's version, from the version text and build
    /// configuration the debugger gave (each missing where it gave none)
    /// and the operating system this program was built for, with build
    /// details (`include_build_info`) and abilities
    /// (`include_capabilities`) where asked.
    pub fn execute(
        &self,
        lldb_manager: &mut LldbManager,
        arguments: &Arguments,
        version: Option<String>,
        build_configuration: Option<String>,
        os: &str,
    ) -> (r: Result<ToolResponse, IncodeError>)
        ensures
            *final(lldb_manager) == *old(lldb_manager),
            r matches Ok(resp) && exists|v: LldbVersionInfo, j: Json|
                #[trigger] is_version_info(
                    v,
                    flag_arg(arguments@, "include_build_info"@, false),
                    version,
                    build_configuration,
                    os@,
                ) && #[trigger] is_json_success(resp, j) && is_version_report(
                    j,
                    v,
                    flag_arg(arguments@, "include_build_info"@, false),
                    flag_arg(arguments@, "include_capabilities"@, false),
                ),
    {
        let build = arg_bool_or(arguments, "include_build_info", false);
        let caps = arg_bool_or(arguments, "include_capabilities", false);
        let ghost (ver, conf) = (version, build_configuration);
        match lldb_manager.get_lldb_version(build, version, build_configuration, os) {
            Ok(v) => {
                let j = version_report(&v, build, caps);
                let resp = json_success(&j);
                assert(is_version_info(v, build, ver, conf, os@));
                assert(is_json_success(resp, j));
                assert(is_version_report(
                    j,
                    v,
                    flag_arg(arguments@, "include_build_info"@, false),
                    flag_arg(arguments@, "include_capabilities"@, false),
                ));
                assert(is_version_info(
                    v,
                    flag_arg(arguments@, "include_build_info"@, false),
                    ver,
                    conf,
                    os@,
                ));
                Ok(resp)
            },
            Err(e) => Err(e),
        }
    }
}

// ---------------------------------------------------------------------------
// set_lldb_settings
// ---------------------------------------------------------------------------

/// The text a setting value is given as: a string as it is, any other
/// value as its JSON text (numbers in decimal, a number with a fraction as
/// written).
pub open spec fn setting_text_of(v: Json) -> Seq<char> {
    match v {
        Json::Str(s) => s@,
        Json::Bool(b) => if b {
            "true"@
        } else {
            "false"@
        },
        Json::UInt(n) => dec_str(n as nat),
        Json::NegInt(n) => int_str(n as int),
        Json::Float { text, .. } => text@,
        _ => json_text_of(v),
    }
}

/// The text of a setting value.
pub fn setting_text(v: &Json) -> (r: String)
    ensures
        r@ == setting_text_of(*v),
{
    match v {
        Json::Str(s) => s.clone(),
        Json::Bool(b) => if *b {
            "true".to_owned()
        } else {
            "false".to_owned()
        },
        Json::UInt(n) => {
            let mut t = String::new();
            push_dec(&mut t, *n);
            t
        },
        Json::NegInt(n) => {
            let mut t = String::new();
            push_int(&mut t, *n);
            t
        },
        Json::Float { text, .. } => text.clone(),
        _ => json_text(v),
    }
}

/// What setting `name` to `value` gives, given the interpreter's replies
/// to the set command and to the show command: the text of the answer, or
/// the text of the error. An empty name and a name that is neither known
/// nor dotted are refused before anything runs.
pub open spec fn setting_result(
    name: Seq<char>,
    value: Seq<char>,
    set_reply: Result<String, String>,
    show_reply: Result<String, String>,
) -> Result<Seq<char>, Seq<char>> {
    if name.len() == 0 {
        Err("Invalid configuration: "@ + "setting name cannot be empty"@)
    } else if !is_valid_setting(name) {
        Err("Invalid configuration: "@ + ("invalid setting name: "@ + name))
    } else {
        match set_reply {
            Err(m) => Err("LLDB operation failed: "@ + m@),
            Ok(_) => match show_reply {
                Err(m) => Err("LLDB operation failed: "@ + m@),
                Ok(current) => Ok(
                    "Setting '"@ + name + "' changed to '"@ + value + "'. Current: "@ + trim(
                        current@,
                    ),
                ),
            },
        }
    }
}

/// `outcome` is what `res` describes: the answer with that text, or an
/// error that reads as that text.
pub open spec fn outcome_is(outcome: Result<String, IncodeError>, res: Result<Seq<char>, Seq<char>>) -> bool {
    match res {
        Ok(t) => outcome matches Ok(s) && s@ == t,
        Err(m) => outcome matches Err(e) && has_known_text(e) && error_text(e) == m,
    }
}

/// The replies handed over for the settings of a request: a pair of the
/// reply to the set command and the reply to the show command, per
/// setting.
pub type SettingReplies = Vec<(Result<String, String>, Result<String, String>)>;

/// The outcome of each of the settings `entries`, given the replies.
pub open spec fn setting_outcomes(
    entries: Seq<(String, Json)>,
    replies: Seq<(Result<String, String>, Result<String, String>)>,
) -> Seq<Result<Seq<char>, Seq<char>>> {
    Seq::new(
        entries.len(),
        |i: int|
            setting_result(entries[i].0@, setting_text_of(entries[i].1), replies[i].0, replies[i].1),
    )
}

/// The failures among the first `n` outcomes, in order, each as the
/// setting's name, `: ` and the error.
pub open spec fn failure_lines(
    entries: Seq<(String, Json)>,
    outcomes: Seq<Result<Seq<char>, Seq<char>>>,
    n: nat,
) -> Seq<Seq<char>>
    decreases n,
{
    if n == 0 {
        Seq::empty()
    } else {
        let before = failure_lines(entries, outcomes, (n - 1) as nat);
        match outcomes[n - 1] {
            Err(m) => before.push(entries[n - 1].0@ + ": "@ + m),
            Ok(_) => before,
        }
    }
}

/// `a` and `b` are the same reply: both outputs or both failures, with the
/// same text.
pub open spec fn same_reply(a: Result<String, String>, b: Result<String, String>) -> bool {
    match (a, b) {
        (Ok(x), Ok(y)) => x@ == y@,
        (Err(x), Err(y)) => x@ == y@,
        _ => false,
    }
}

fn copy_reply(r: &Result<String, String>) -> (c: Result<String, String>)
    ensures
        same_reply(*r, c),
{
    match r {
        Ok(s) => Ok(s.clone()),
        Err(s) => Err(s.clone()),
    }
}

/// The settings a request asks for, in order, each as its name and the
/// text of its value: the entries of the `settings` object where there is
/// one, else `setting_name` with `value` where both are given.
pub open spec fn setting_requests_of(args: Seq<(String, Json)>) -> Seq<(Seq<char>, Seq<char>)> {
    match lookup(args, "settings"@) {
        Some(Json::Object(entries)) => Seq::new(
            entries@.len(),
            |i: int| (entries@[i].0@, setting_text_of(entries@[i].1)),
        ),
        _ => match as_text(lookup(args, "setting_name"@)) {
            Some(name) => match lookup(args, "value"@) {
                Some(v) => seq![(name, setting_text_of(v))],
                None => Seq::empty(),
            },
            None => Seq::empty(),
        },
    }
}

/// `v` reports the setting of `name` to `value`, applied or refused.
pub open spec fn is_applied_entry(v: Json, name: Seq<char>, value: Seq<char>, outcome: Result<String, IncodeError>) -> bool {
    v matches Json::Object(es) && {
        let es = es@;
        &&& has_text(es, 0, "setting_name"@, name)
        &&& has_text(es, 1, "new_value"@, value)
        &&& match outcome {
            Ok(_) => es.len() == 3 && has_text(es, 2, "status"@, "success"@),
            Err(e) => {
                &&& es.len() == 4
                &&& has_text(es, 2, "status"@, "failed"@)
                &&& es[3].0@ == "error"@
                &&& (has_known_text(e) ==> has_text(es, 3, "error"@, error_text(e)))
            },
        }
    }
}

/// `v` reports the setting of `name` to `value` with the outcome `res`:
/// applied, or failed with the error's text.
pub open spec fn is_setting_entry(v: Json, name: Seq<char>, value: Seq<char>, res: Result<Seq<char>, Seq<char>>) -> bool {
    v matches Json::Object(es) && {
        let es = es@;
        &&& has_text(es, 0, "setting_name"@, name)
        &&& has_text(es, 1, "new_value"@, value)
        &&& match res {
            Ok(_) => es.len() == 3 && has_text(es, 2, "status"@, "success"@),
            Err(m) => {
                &&& es.len() == 4
                &&& has_text(es, 2, "status"@, "failed"@)
                &&& has_text(es, 3, "error"@, m)
            },
        }
    }
}

/// Reports the setting of `name` to `value`, applied or refused.
pub fn applied_entry(name: &str, value: &str, outcome: &Result<String, IncodeError>) -> (v: Json)
    ensures
        is_applied_entry(v, name@, value@, *outcome),
{
    let mut es: Vec<(String, Json)> = Vec::new();
    es.push(entry("setting_name", jstr(name)));
    es.push(entry("new_value", jstr(value)));
    match outcome {
        Ok(_) => {
            es.push(entry("status", jstr("success")));
        },
        Err(e) => {
            es.push(entry("status", jstr("failed")));
            es.push(entry("error", Json::Str(e.message())));
        },
    }
    Json::Object(es)
}

/// `r` answers the setting of `name` to `value`: the debugger's own
/// answer where it is JSON text, else a report of the change; or a report
/// of the failure.
pub open spec fn is_single_setting_answer(
    r: ToolResponse,
    name: Seq<char>,
    value: Seq<char>,
    outcome: Result<String, IncodeError>,
) -> bool {
    match outcome {
        Ok(result) => if is_json_text(result@) {
            r matches ToolResponse::Success(t) && t@ == result@
        } else {
            exists|j: Json| #[trigger] is_json_success(r, j) && is_setting_update(j, name, value, result@)
        },
        Err(e) => exists|j: Json|
            #[trigger] is_json_success(r, j) && (has_known_text(e) ==> is_setting_failure(
                j,
                name,
                value,
                error_text(e),
            )),
    }
}

/// `j` reports that `name` was set to `value`, the debugger answering
/// `result`.
pub open spec fn is_setting_update(j: Json, name: Seq<char>, value: Seq<char>, result: Seq<char>) -> bool {
    j matches Json::Object(es) && {
        let es = es@;
        &&& es.len() == 6
        &&& has_value(es, 0, "success"@, Json::Bool(true))
        &&& has_text(es, 1, "setting_name"@, name)
        &&& has_text(es, 2, "previous_value"@, "unknown"@)
        &&& has_text(es, 3, "new_value"@, value)
        &&& has_text(es, 4, "result"@, result)
        &&& has_text(es, 5, "status"@, "updated"@)
    }
}

/// Answers the setting of `name` to `value`, given what the debugger did.
pub fn single_setting_answer(name: &str, value: &str, outcome: Result<String, IncodeError>) -> (r:
    ToolResponse)
    ensures
        is_single_setting_answer(r, name@, value@, outcome),
{
    match outcome {
        Ok(result) => {
            if parses_as_json(result.as_str()) {
                ToolResponse::Success(result)
            } else {
                let mut es: Vec<(String, Json)> = Vec::new();
                es.push(entry("success", Json::Bool(true)));
                es.push(entry("setting_name", jstr(name)));
                es.push(entry("previous_value", jstr("unknown")));
                es.push(entry("new_value", jstr(value)));
                es.push(entry("result", Json::Str(result)));
                es.push(entry("status", jstr("updated")));
                let j = Json::Object(es);
                let r = json_success(&j);
                assert(is_json_success(r, j));
                r
            }
        },
        Err(e) => {
            let mut es: Vec<(String, Json)> = Vec::new();
            es.push(entry("success", Json::Bool(false)));
            es.push(entry("setting_name", jstr(name)));
            es.push(entry("value", jstr(value)));
            es.push(entry("error", Json::Str(e.message())));
            es.push(entry("status", jstr("failed")));
            let j = Json::Object(es);
            let r = json_success(&j);
            assert(is_json_success(r, j));
            r
        },
    }
}

/// `j` reports the settings `entries` applied one after the other, with
/// the outcomes `outcomes`: each one's report, whether none failed, and the
/// failures (`null` when there are none).
pub open spec fn is_settings_report(
    j: Json,
    entries: Seq<(String, Json)>,
    outcomes: Seq<Result<Seq<char>, Seq<char>>>,
) -> bool {
    let failures = failure_lines(entries, outcomes, entries.len());
    j matches Json::Object(es) && {
        let es = es@;
        &&& es.len() == 3
        &&& has_value(es, 0, "success"@, Json::Bool(failures.len() == 0))
        &&& es[1].0@ == "settings_applied"@
        &&& (es[1].1 matches Json::Array(items) && items@.len() == entries.len() && forall|i: int|
            0 <= i < entries.len() ==> is_setting_entry(
                #[trigger] items@[i],
                entries[i].0@,
                setting_text_of(entries[i].1),
                outcomes[i],
            ))
        &&& es[2].0@ == "errors"@
        &&& if failures.len() == 0 {
            es[2].1 == Json::Null
        } else {
            es[2].1 matches Json::Array(errs) && errs@.len() == failures.len() && forall|i: int|
                0 <= i < failures.len() ==> crate::json::is_text(#[trigger] errs@[i], failures[i])
        }
    }
}

/// `r` answers the setting of `name` to `value` with the outcome `res`:
/// the answer itself where it is JSON text, else a report of the change;
/// or a report of the failure.
pub open spec fn is_setting_reply(r: ToolResponse, name: Seq<char>, value: Seq<char>, res: Result<Seq<char>, Seq<char>>) -> bool {
    match res {
        Ok(result) => if is_json_text(result) {
            r matches ToolResponse::Success(t) && t@ == result
        } else {
            exists|j: Json| #[trigger] is_json_success(r, j) && is_setting_update(j, name, value, result)
        },
        Err(msg) => exists|j: Json|
            #[trigger] is_json_success(r, j) && is_setting_failure(j, name, value, msg),
    }
}

/// `j` reports that setting `name` to `value` failed with the message
/// `msg`.
pub open spec fn is_setting_failure(j: Json, name: Seq<char>, value: Seq<char>, msg: Seq<char>) -> bool {
    j matches Json::Object(es) && {
        let es = es@;
        &&& es.len() == 5
        &&& has_value(es, 0, "success"@, Json::Bool(false))
        &&& has_text(es, 1, "setting_name"@, name)
        &&& has_text(es, 2, "value"@, value)
        &&& has_text(es, 3, "error"@, msg)
        &&& has_text(es, 4, "status"@, "failed"@)
    }
}

/// `j` reports the current value of `name`, which is not read: a fixed
/// stand-in.
pub open spec fn is_current_value_report(j: Json, name: Seq<char>) -> bool {
    j matches Json::Object(es) && {
        let es = es@;
        &&& es.len() == 4
        &&& has_value(es, 0, "success"@, Json::Bool(true))
        &&& has_text(es, 1, "setting_name"@, name)
        &&& has_text(es, 2, "current_value"@, "mock_current_value"@)
        &&& has_text(es, 3, "status"@, "retrieved"@)
    }
}

/// Changes debugger settings.
#[derive(Debug)]
pub struct SetLldbSettingsTool;

impl SetLldbSettingsTool {
    pub fn name(&self) -> (r: &'static str)
        ensures
            r@ == "set_lldb_settings"@,
    {
        "set_lldb_settings"
    }

    pub fn description(&self) -> (r: &'static str)
        ensures
            r@ == "Configure LLDB settings"@,
    {
        "Configure LLDB settings"
    }

    /// The settings `arguments` asks for, in order, each as its name and
    /// the text of its value; the command interpreter's replies are handed
    /// back in the same order.
    pub fn setting_requests(&self, arguments: &Arguments) -> (r: Vec<(String, String)>)
        ensures
            r@.len() == setting_requests_of(arguments@).len(),
            forall|i: int|
                0 <= i < r@.len() ==> (#[trigger] r@[i]).0@ == setting_requests_of(arguments@)[i].0
                    && r@[i].1@ == setting_requests_of(arguments@)[i].1,
    {
        let mut out: Vec<(String, String)> = Vec::new();
        match arg_get(arguments, "settings") {
            Some(Json::Object(entries)) => {
                let mut i: usize = 0;
                while i < entries.len()
                    invariant
                        i <= entries@.len(),
                        lookup(arguments@, "settings"@) == Some(Json::Object(*entries)),
                        out@.len() == i,
                        forall|k: int|
                            0 <= k < i ==> (#[trigger] out@[k]).0@ == entries@[k].0@ && out@[k].1@
                                == setting_text_of(entries@[k].1),
                    decreases entries@.len() - i,
                {
                    let name = entries[i].0.clone();
                    let value = setting_text(&entries[i].1);
                    out.push((name, value));
                    i = i + 1;
                }
                return out;
            },
            _ => {},
        }
        match arg_str(arguments, "setting_name") {
            Some(name) => match arg_get(arguments, "value") {
                Some(v) => {
                    let value = setting_text(v);
                    out.push((name, value));
                },
                None => {},
            },
            None => {},
        }
        out
    }

    /// Applies the settings `entries` one after the other, `replies[i]`
    /// being the interpreter's replies for `entries[i]`, and reports each,
    /// with whether none failed and the failures.
    pub fn apply_settings(
        lldb_manager: &mut LldbManager,
        entries: &Vec<(String, Json)>,
        replies: &SettingReplies,
    ) -> (j: Json)
        requires
            replies@.len() == entries@.len(),
        ensures
            *final(lldb_manager) == *old(lldb_manager),
            is_settings_report(j, entries@, setting_outcomes(entries@, replies@)),
    {
        let ghost outcomes = setting_outcomes(entries@, replies@);
        let mut applied: Vec<Json> = Vec::new();
        let mut errors: Vec<String> = Vec::new();
        let mut all_succeeded = true;
        let mut i: usize = 0;
        proof {
            reveal_strlit("setting name cannot be empty");
        }
        while i < entries.len()
            invariant
                i <= entries@.len(),
                replies@.len() == entries@.len(),
                outcomes == setting_outcomes(entries@, replies@),
                *lldb_manager == *old(lldb_manager),
                applied@.len() == i,
                errors@.len() == failure_lines(entries@, outcomes, i as nat).len(),
                all_succeeded == (failure_lines(entries@, outcomes, i as nat).len() == 0),
                forall|k: int|
                    0 <= k < i ==> is_setting_entry(
                        #[trigger] applied@[k],
                        entries@[k].0@,
                        setting_text_of(entries@[k].1),
                        outcomes[k],
                    ),
                forall|k: int|
                    0 <= k < errors@.len() ==> (#[trigger] errors@[k])@ == failure_lines(
                        entries@,
                        outcomes,
                        i as nat,
                    )[k],
            decreases entries@.len() - i,
        {
            let name = &entries[i].0;
            let value_text = setting_text(&entries[i].1);
            let outcome = lldb_manager.set_lldb_settings(
                name.as_str(),
                value_text.as_str(),
                copy_reply(&replies[i].0),
                copy_reply(&replies[i].1),
            );
            proof {
                assert(outcomes[i as int] == setting_result(
                    name@,
                    value_text@,
                    replies@[i as int].0,
                    replies@[i as int].1,
                ));
                assert(outcome_is(outcome, outcomes[i as int]));
            }
            let ghost applied_before = applied@;
            let ghost errors_before = errors@;
            match &outcome {
                Ok(_) => {},
                Err(e) => {
                    all_succeeded = false;
                    let mut line = name.clone();
                    push_str(&mut line, ": ");
                    let m = e.message();
                    push_str(&mut line, m.as_str());
                    errors.push(line);
                },
            }
            applied.push(applied_entry(name.as_str(), value_text.as_str(), &outcome));
            assert(is_applied_entry(applied@[i as int], name@, value_text@, outcome));
            assert(name@ == entries@[i as int].0@);
            assert(forall|k: int| 0 <= k < i ==> applied@[k] == applied_before[k]);
            assert(forall|k: int| 0 <= k < errors_before.len() ==> errors@[k] == errors_before[k]);
            i = i + 1;
        }
        let errors_json = if errors.len() == 0 {
            Json::Null
        } else {
            text_array(&errors)
        };

        let mut es: Vec<(String, Json)> = Vec::new();
        es.push(entry("success", Json::Bool(all_succeeded)));
        es.push(entry("settings_applied", Json::Array(applied)));
        es.push(entry("errors", errors_json));
        Json::Object(es)
    }

    /// Changes settings: every entry of the `settings` object where there
    /// is one, else the setting `setting_name` to `value`, or, without a
    /// value, its current value where `get_current_value` asks for it.
    /// `replies` holds the interpreter's replies for the settings of
    /// `setting_requests(arguments)`, in the same order.
    pub fn execute(&self, lldb_manager: &mut LldbManager, arguments: &Arguments, replies: &SettingReplies) -> (r: Result<
        ToolResponse,
        IncodeError,
    >)
        requires
            replies@.len() == setting_requests_of(arguments@).len(),
        ensures
            *final(lldb_manager) == *old(lldb_manager),
            match lookup(arguments@, "settings"@) {
                Some(Json::Object(entries)) => r matches Ok(resp) && exists|j: Json|
                    #[trigger] is_json_success(resp, j) && is_settings_report(
                        j,
                        entries@,
                        setting_outcomes(entries@, replies@),
                    ),
                _ => match as_text(lookup(arguments@, "setting_name"@)) {
                    None => r matches Err(IncodeError::Configuration(m)) && m@
                        == "Either setting_name/value or settings parameter required"@,
                    Some(name) => match lookup(arguments@, "value"@) {
                        Some(v) => r matches Ok(resp) && is_setting_reply(
                            resp,
                            name,
                            setting_text_of(v),
                            setting_result(name, setting_text_of(v), replies@[0].0, replies@[0].1),
                        ),
                        None => if flag_arg(arguments@, "get_current_value"@, false) {
                            r matches Ok(resp) && exists|j: Json|
                                #[trigger] is_json_success(resp, j) && is_current_value_report(
                                    j,
                                    name,
                                )
                        } else {
                            r matches Err(IncodeError::Configuration(m)) && m@
                                == "value required when setting_name is provided"@
                        },
                    },
                },
            },
    {
        match arg_get(arguments, "settings") {
            Some(Json::Object(entries)) => {
                let j = Self::apply_settings(lldb_manager, entries, replies);
                let resp = json_success(&j);
                assert(is_json_success(resp, j));
                return Ok(resp);
            },
            _ => {},
        }
        let name = match arg_str(arguments, "setting_name") {
            Some(n) => n,
            None => {
                return Err(
                    IncodeError::invalid_parameter(
                        "Either setting_name/value or settings parameter required",
                    ),
                );
            },
        };
        match arg_get(arguments, "value") {
            Some(v) => {
                let value_text = setting_text(v);
                proof {
                    reveal_strlit("setting name cannot be empty");
                }
                let outcome = lldb_manager.set_lldb_settings(
                    name.as_str(),
                    value_text.as_str(),
                    copy_reply(&replies[0].0),
                    copy_reply(&replies[0].1),
                );
                let ghost res = setting_result(
                    name@,
                    value_text@,
                    replies@[0].0,
                    replies@[0].1,
                );
                assert(outcome_is(outcome, res));
                let resp = single_setting_answer(name.as_str(), value_text.as_str(), outcome);
                assert(is_setting_reply(resp, name@, value_text@, res));
                Ok(resp)
            },
            None => {
                if arg_bool_or(arguments, "get_current_value", false) {
                    let mut es: Vec<(String, Json)> = Vec::new();
                    es.push(entry("success", Json::Bool(true)));
                    es.push(entry("setting_name", Json::Str(name)));
                    es.push(entry("current_value", jstr("mock_current_value")));
                    es.push(entry("status", jstr("retrieved")));
                    let j = Json::Object(es);
                    let resp = json_success(&j);
                    assert(is_json_success(resp, j));
                    Ok(resp)
                } else {
                    Err(
                        IncodeError::invalid_parameter(
                            "value required when setting_name is provided",
                        ),
                    )
                }
            },
        }
    }
}

// ---------------------------------------------------------------------------
// Laws
// ---------------------------------------------------------------------------

proof fn lemma_failure_lines(
    entries: Seq<(String, Json)>,
    outcomes: Seq<Result<Seq<char>, Seq<char>>>,
    n: nat,
)
    requires
        n <= entries.len(),
        n <= outcomes.len(),
    ensures
        failure_lines(entries, outcomes, n).len() == 0 <==> forall|i: int|
            0 <= i < n ==> #[trigger] outcomes[i] is Ok,
        forall|i: int|
            0 <= i < n && #[trigger] outcomes[i] is Err ==> failure_lines(entries, outcomes, n).contains(
                entries[i].0@ + ": "@ + outcomes[i]->Err_0,
            ),
    decreases n,
{
    if n > 0 {
        lemma_failure_lines(entries, outcomes, (n - 1) as nat);
        let before = failure_lines(entries, outcomes, (n - 1) as nat);
        assert forall|i: int|
            0 <= i < n && #[trigger] outcomes[i] is Err implies failure_lines(
            entries,
            outcomes,
            n,
        ).contains(entries[i].0@ + ": "@ + outcomes[i]->Err_0) by {
            if i < n - 1 {
                let w = choose|w: int|
                    0 <= w < before.len() && before[w] == entries[i].0@ + ": "@ + outcomes[i]->Err_0;
                match outcomes[n - 1] {
                    Err(m) => {
                        assert(failure_lines(entries, outcomes, n)[w] == before[w]);
                    },
                    Ok(_) => {},
                }
            } else {
                assert(failure_lines(entries, outcomes, n).last() == entries[i].0@ + ": "@
                    + outcomes[i]->Err_0);
            }
        }
    }
}

/// A settings report says it succeeded, and has no list of errors, exactly
/// when every setting was applied; each setting that failed is listed
/// among the errors as its name, `: ` and its error.
pub proof fn law_settings_report_success(
    j: Json,
    entries: Seq<(String, Json)>,
    outcomes: Seq<Result<Seq<char>, Seq<char>>>,
)
    requires
        is_settings_report(j, entries, outcomes),
        outcomes.len() == entries.len(),
    ensures
        j matches Json::Object(es) && {
            let es = es@;
            &&& (es[0].1 == Json::Bool(true)) <==> forall|i: int|
                0 <= i < entries.len() ==> #[trigger] outcomes[i] is Ok
            &&& (es[2].1 == Json::Null) <==> forall|i: int|
                0 <= i < entries.len() ==> #[trigger] outcomes[i] is Ok
            &&& forall|i: int|
                0 <= i < entries.len() && #[trigger] outcomes[i] is Err ==> (es[2].1 matches Json::Array(
                    errs,
                ) && exists|k: int|
                    0 <= k < errs@.len() && crate::json::is_text(
                        #[trigger] errs@[k],
                        entries[i].0@ + ": "@ + outcomes[i]->Err_0,
                    ))
        },
{
    lemma_failure_lines(entries, outcomes, entries.len());
    let failures = failure_lines(entries, outcomes, entries.len());
    if let Json::Object(es) = j {
        let es = es@;
        assert forall|i: int|
            0 <= i < entries.len() && #[trigger] outcomes[i] is Err implies (es[2].1 matches Json::Array(
            errs,
        ) && exists|k: int|
            0 <= k < errs@.len() && crate::json::is_text(
                #[trigger] errs@[k],
                entries[i].0@ + ": "@ + outcomes[i]->Err_0,
            )) by {
            let w = choose|w: int|
                0 <= w < failures.len() && failures[w] == entries[i].0@ + ": "@ + outcomes[i]->Err_0;
            if let Json::Array(errs) = es[2].1 {
                assert(crate::json::is_text(errs@[w], failures[w]));
            }
        }
    }
}

} // verus!
