//! Tools that start, attach to, detach from, stop and describe the
//! debugged process.

use vstd::prelude::*;
use crate::error::IncodeError;
use crate::json::{
    arg_get, arg_str, arg_string_entries, arg_strings, as_items, as_text, entry, jopt_str,
    jopt_u64, lookup, opt_view, pair_views, string_entries_at, strings_in, Arguments, Json,
};
use crate::lldb_manager::ProcessInfo;
use crate::text::{dec_str, push_dec, push_str, views};
use crate::tools::{
    error_response, failure, has_text, has_value, is_failure, is_json_object, is_success,
    json_entries, reports_error, ToolResponse,
};

verus! {

broadcast use vstd::string::group_string_axioms;

/// Launches an executable.
#[derive(Debug)]
pub struct LaunchProcessTool;

impl LaunchProcessTool {
    pub fn name(&self) -> (r: &'static str)
        ensures
            r@ == "launch_process"@,
    {
        "launch_process"
    }

    pub fn description(&self) -> (r: &'static str)
        ensures
            r@ == "Launch executable with arguments, environment variables, and working directory"@,
    {
        "Launch executable with arguments, environment variables, and working directory"
    }

    /// The executable to launch (required), its command line arguments
    /// (the string items of `args`) and its environment (the string
    /// entries of the `env` object, each as a name and a value). The
    /// working directory is not passed on.
    pub fn launch_arguments(&self, args: &Arguments) -> (r: Result<
        (String, Vec<String>, Vec<(String, String)>),
        IncodeError,
    >)
        ensures
            match as_text(lookup(args@, "executable"@)) {
                None => r matches Err(IncodeError::McpProtocol(m)) && m@
                    == "Missing executable parameter"@,
                Some(exe) => r matches Ok((e, list, env)) && e@ == exe && views(list@) == match as_items(
                    lookup(args@, "args"@),
                ) {
                    Some(items) => strings_in(items),
                    None => Seq::empty(),
                } && pair_views(env@) == string_entries_at(args@, "env"@),
            },
    {
        let executable = match arg_str(args, "executable") {
            Some(e) => e,
            None => {
                return Err(IncodeError::mcp("Missing executable parameter"));
            },
        };
        let list = match arg_strings(args, "args") {
            Some(v) => v,
            None => {
                let v: Vec<String> = Vec::new();
                assert(views(v@) =~= Seq::<Seq<char>>::empty());
                v
            },
        };
        let env = arg_string_entries(args, "env");
        Ok((executable, list, env))
    }

    /// The answer to launching `executable`: the process id, or the error.
    pub fn respond(&self, executable: &str, outcome: Result<u32, IncodeError>) -> (r: ToolResponse)
        ensures
            match outcome {
                Ok(pid) => {
                    let es = json_entries(r);
                    &&& is_json_object(r, 4)
                    &&& has_value(es, 0, "success"@, Json::Bool(true))
                    &&& has_value(es, 1, "pid"@, Json::UInt(pid as u64))
                    &&& has_text(es, 2, "executable"@, executable@)
                    &&& has_text(
                        es,
                        3,
                        "message"@,
                        "Successfully launched process "@ + executable@ + " with PID "@ + dec_str(
                            pid as nat,
                        ),
                    )
                },
                Err(e) => reports_error(r, e),
            },
    {
        match outcome {
            Ok(pid) => {
                let mut msg = String::new();
                push_str(&mut msg, "Successfully launched process ");
                push_str(&mut msg, executable);
                push_str(&mut msg, " with PID ");
                push_dec(&mut msg, pid as u64);
                let mut es: Vec<(String, Json)> = Vec::new();
                es.push(entry("success", Json::Bool(true)));
                es.push(entry("pid", Json::UInt(pid as u64)));
                es.push(entry("executable", Json::Str(executable.to_owned())));
                es.push(entry("message", Json::Str(msg)));
                ToolResponse::Json(Json::Object(es))
            },
            Err(e) => error_response(&e),
        }
    }
}

/// Attaches to a running process.
#[derive(Debug)]
pub struct AttachToProcessTool;

impl AttachToProcessTool {
    pub fn name(&self) -> (r: &'static str)
        ensures
            r@ == "attach_to_process"@,
    {
        "attach_to_process"
    }

    pub fn description(&self) -> (r: &'static str)
        ensures
            r@ == "Attach to running process by PID or name"@,
    {
        "Attach to running process by PID or name"
    }

    /// The process id to attach to: none without a `pid` argument, an
    /// error where it is not a non-negative integer, else its low 32 bits.
    pub fn attach_pid(&self, args: &Arguments) -> (r: Result<Option<u32>, IncodeError>)
        ensures
            match lookup(args@, "pid"@) {
                None => r == Ok::<Option<u32>, IncodeError>(None),
                Some(v) => match v {
                    Json::UInt(n) => r == Ok::<Option<u32>, IncodeError>(Some(n as u32)),
                    _ => r matches Err(IncodeError::McpProtocol(m)) && m@ == "Invalid PID value"@,
                },
            },
    {
        match arg_get(args, "pid") {
            None => Ok(None),
            Some(Json::UInt(n)) => Ok(Some(*n as u32)),
            Some(_) => Err(IncodeError::mcp("Invalid PID value")),
        }
    }

    /// The answer: without a process id, that one is needed; else the
    /// outcome of attaching to it.
    pub fn respond(&self, attempt: Option<(u32, Result<(), IncodeError>)>) -> (r: ToolResponse)
        ensures
            match attempt {
                None => is_failure(r, "Either pid or name parameter required"@),
                Some((pid, Ok(_))) => {
                    let es = json_entries(r);
                    &&& is_json_object(r, 3)
                    &&& has_value(es, 0, "success"@, Json::Bool(true))
                    &&& has_value(es, 1, "pid"@, Json::UInt(pid as u64))
                    &&& has_text(
                        es,
                        2,
                        "message"@,
                        "Successfully attached to process "@ + dec_str(pid as nat),
                    )
                },
                Some((_, Err(e))) => reports_error(r, e),
            },
    {
        match attempt {
            None => failure("Either pid or name parameter required"),
            Some((pid, Ok(_))) => {
                let mut msg = String::new();
                push_str(&mut msg, "Successfully attached to process ");
                push_dec(&mut msg, pid as u64);
                let mut es: Vec<(String, Json)> = Vec::new();
                es.push(entry("success", Json::Bool(true)));
                es.push(entry("pid", Json::UInt(pid as u64)));
                es.push(entry("message", Json::Str(msg)));
                ToolResponse::Json(Json::Object(es))
            },
            Some((_, Err(e))) => error_response(&e),
        }
    }
}

/// Detaches from the debugged process.
#[derive(Debug)]
pub struct DetachProcessTool;

impl DetachProcessTool {
    pub fn name(&self) -> (r: &'static str)
        ensures
            r@ == "detach_process"@,
    {
        "detach_process"
    }

    pub fn description(&self) -> (r: &'static str)
        ensures
            r@ == "Safely detach from current debugging target"@,
    {
        "Safely detach from current debugging target"
    }

    /// The answer to detaching.
    pub fn respond(&self, outcome: Result<(), IncodeError>) -> (r: ToolResponse)
        ensures
            match outcome {
                Ok(_) => is_success(r, "Successfully detached from process"@),
                Err(e) => reports_error(r, e),
            },
    {
        match outcome {
            Ok(_) => ToolResponse::Success("Successfully detached from process".to_owned()),
            Err(e) => error_response(&e),
        }
    }
}

/// Terminates the debugged process.
#[derive(Debug)]
pub struct KillProcessTool;

impl KillProcessTool {
    pub fn name(&self) -> (r: &'static str)
        ensures
            r@ == "kill_process"@,
    {
        "kill_process"
    }

    pub fn description(&self) -> (r: &'static str)
        ensures
            r@ == "Terminate debugging target process"@,
    {
        "Terminate debugging target process"
    }

    /// The answer to killing the process.
    pub fn respond(&self, outcome: Result<(), IncodeError>) -> (r: ToolResponse)
        ensures
            match outcome {
                Ok(_) => is_success(r, "Successfully killed process"@),
                Err(e) => reports_error(r, e),
            },
    {
        match outcome {
            Ok(_) => ToolResponse::Success("Successfully killed process".to_owned()),
            Err(e) => error_response(&e),
        }
    }
}

/// Describes the debugged process.
#[derive(Debug)]
pub struct GetProcessInfoTool;

impl GetProcessInfoTool {
    pub fn name(&self) -> (r: &'static str)
        ensures
            r@ == "get_process_info"@,
    {
        "get_process_info"
    }

    pub fn description(&self) -> (r: &'static str)
        ensures
            r@ == "Get process PID, executable path, state, memory usage"@,
    {
        "Get process PID, executable path, state, memory usage"
    }

    /// The answer: the process's id, state, path and memory use.
    pub fn respond(&self, outcome: Result<ProcessInfo, IncodeError>) -> (r: ToolResponse)
        ensures
            match outcome {
                Ok(info) => {
                    let es = json_entries(r);
                    &&& is_json_object(r, 4)
                    &&& has_value(es, 0, "pid"@, Json::UInt(info.pid as u64))
                    &&& has_text(es, 1, "state"@, info.state@)
                    &&& es[2].0@ == "executable_path"@ && crate::json::is_opt_text_value(
                        es[2].1,
                        opt_view(info.executable_path),
                    )
                    &&& has_value(es, 3, "memory_usage"@, match info.memory_usage {
                        Some(m) => Json::UInt(m),
                        None => Json::Null,
                    })
                },
                Err(e) => reports_error(r, e),
            },
    {
        match outcome {
            Ok(info) => {
                let mut es: Vec<(String, Json)> = Vec::new();
                es.push(entry("pid", Json::UInt(info.pid as u64)));
                es.push(entry("state", Json::Str(info.state.clone())));
                es.push(entry("executable_path", jopt_str(&info.executable_path)));
                es.push(entry("memory_usage", jopt_u64(info.memory_usage)));
                ToolResponse::Json(Json::Object(es))
            },
            Err(e) => error_response(&e),
        }
    }
}

/// Lists the processes of the system; not available as a tool.
#[derive(Debug)]
pub struct ListProcessesTool;

impl ListProcessesTool {
    pub fn name(&self) -> (r: &'static str)
        ensures
            r@ == "list_processes"@,
    {
        "list_processes"
    }

    pub fn description(&self) -> (r: &'static str)
        ensures
            r@ == "List all debuggable processes on system"@,
    {
        "List all debuggable processes on system"
    }

    /// The answer, whatever the arguments: the tool is not available.
    pub fn execute(&self, args: &Arguments) -> (r: ToolResponse)
        ensures
            is_failure(r, "Not yet implemented"@),
    {
        failure("Not yet implemented")
    }
}

} // verus!
