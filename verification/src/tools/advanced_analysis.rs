//! Tools that analyze a crash and save a core file of the process.
//!
//! Both answer with the compact JSON text of a report. The debugger's
//! work (reading the crashed state, saving the core file) and what the
//! file system shows afterwards are given to them by the caller.

use vstd::prelude::*;
use crate::error::IncodeError;
use crate::json::{
    arg_bool_or, arg_str, arg_str_or, arg_u64_or, as_text, as_uint, entry, is_opt_text_value,
    is_text_array, jopt_str, jstr, lookup, opt_view, text_array, Arguments, Json,
};
use crate::lldb_manager::{unix_time_secs, CrashAnalysis};
use crate::text::{dec_string, views};
use crate::tools::debug_information::is_opt_hex;
use crate::tools::lldb_control::is_json_success;
use crate::tools::stack_analysis::int_json;
use crate::tools::{failure, flag_arg, has_text, has_value, is_failure, ToolResponse};

verus! {

broadcast use vstd::string::group_string_axioms;

fn json_success(j: &Json) -> (r: ToolResponse)
    ensures
        is_json_success(r, *j),
{
    ToolResponse::Success(crate::json::json_text(j))
}

fn opt_hex(a: Option<u64>) -> (v: Json)
    ensures
        is_opt_hex(v, a),
{
    match a {
        Some(x) => Json::Str(crate::text::hex_address(x)),
        None => Json::Null,
    }
}

fn int_value(n: i32) -> (v: Json)
    ensures
        v == int_json(n as int),
{
    if n >= 0 {
        Json::UInt(n as u64)
    } else {
        Json::NegInt(n as i64)
    }
}

// ---------------------------------------------------------------------------
// analyze_crash
// ---------------------------------------------------------------------------

/// `v` is an array of the numbers `ns`.
pub open spec fn is_number_array(v: Json, ns: Seq<u64>) -> bool {
    v matches Json::Array(a) && a@.len() == ns.len() && forall|i: int|
        0 <= i < ns.len() ==> #[trigger] a@[i] == Json::UInt(ns[i])
}

fn number_array(ns: &Vec<u64>) -> (v: Json)
    ensures
        is_number_array(v, ns@),
{
    let mut a: Vec<Json> = Vec::new();
    let mut i: usize = 0;
    while i < ns.len()
        invariant
            i <= ns@.len(),
            a@.len() == i,
            forall|k: int| 0 <= k < i ==> #[trigger] a@[k] == Json::UInt(ns@[k]),
        decreases ns@.len() - i,
    {
        a.push(Json::UInt(ns[i]));
        i = i + 1;
    }
    Json::Array(a)
}

/// The crash analysis found a crash.
pub open spec fn has_crash(a: CrashAnalysis) -> bool {
    a.crash_type@ != "No crash"@
}

/// The first `depth` lines of a backtrace, or all of them where there are
/// fewer.
pub open spec fn first_frames(lines: Seq<Seq<char>>, depth: usize) -> Seq<Seq<char>> {
    if depth < lines.len() {
        lines.take(depth as int)
    } else {
        lines
    }
}

/// `j` reports the crash analysis `a` of the core file `core_file` (or of
/// the process), made `secs` seconds after the Unix epoch: where the crash
/// was, the signal and exception, the first `depth` backtrace lines, the
/// registers, memory regions and modules, the summary, and the
/// recommendations where `recommend` asks for them.
pub open spec fn is_crash_report(
    j: Json,
    a: CrashAnalysis,
    core_file: Option<Seq<char>>,
    recommend: bool,
    depth: usize,
    secs: u64,
) -> bool {
    let crashed = has_crash(a);
    let e: int = if crashed {
        18
    } else {
        19
    };
    j matches Json::Object(es) && {
        let es = es@;
        &&& es.len() == e + if recommend {
            1int
        } else {
            0int
        }
        &&& has_value(es, 0, "success"@, Json::Bool(crashed))
        &&& es[1].0@ == "crash_info"@
        &&& (es[1].1 matches Json::Object(ci) && {
            let ci = ci@;
            &&& ci.len() == 6
            &&& has_text(ci, 0, "signal"@, a.signal_name@)
            &&& has_value(ci, 1, "signal_number"@, int_json(a.signal_number as int))
            &&& ci[2].0@ == "address"@ && is_opt_hex(ci[2].1, a.crash_address)
            &&& has_value(ci, 3, "thread_id"@, Json::UInt(a.faulting_thread as u64))
            &&& ci[4].0@ == "exception_type"@ && is_opt_text_value(
                ci[4].1,
                opt_view(a.exception_type),
            )
            &&& ci[5].0@ == "exception_codes"@ && is_number_array(ci[5].1, a.exception_codes@)
        })
        &&& has_text(es, 2, "crash_type"@, a.crash_type@)
        &&& es[3].0@ == "crash_address"@ && is_opt_hex(es[3].1, a.crash_address)
        &&& has_value(es, 4, "faulting_thread"@, Json::UInt(a.faulting_thread as u64))
        &&& has_value(es, 5, "signal_number"@, int_json(a.signal_number as int))
        &&& has_text(es, 6, "signal_name"@, a.signal_name@)
        &&& es[7].0@ == "exception_type"@ && is_opt_text_value(es[7].1, opt_view(a.exception_type))
        &&& es[8].0@ == "exception_codes"@ && is_number_array(es[8].1, a.exception_codes@)
        &&& es[9].0@ == "crashed_thread_backtrace"@ && is_text_array(
            es[9].1,
            first_frames(views(a.crashed_thread_backtrace@), depth),
        )
        &&& has_text(es, 10, "register_state"@, a.register_state@)
        &&& es[11].0@ == "memory_regions"@ && is_text_array(es[11].1, views(a.memory_regions@))
        &&& es[12].0@ == "loaded_modules"@ && is_text_array(es[12].1, views(a.loaded_modules@))
        &&& has_text(es, 13, "crash_summary"@, a.crash_summary@)
        &&& has_text(es, 14, "analysis_summary"@, a.crash_summary@)
        &&& es[15].0@ == "core_file"@ && is_opt_text_value(es[15].1, core_file)
        &&& has_value(es, 16, "analyzed_at"@, Json::UInt(secs))
        &&& has_text(
            es,
            17,
            "status"@,
            if crashed {
                "analyzed"@
            } else {
                "no_crash"@
            },
        )
        &&& !crashed ==> has_text(
            es,
            18,
            "error"@,
            "No crash to analyze - no active process or core file provided"@,
        )
        &&& recommend ==> es[e].0@ == "recommendations"@ && is_text_array(
            es[e].1,
            views(a.recommendations@),
        )
    }
}

fn texts(v: &Vec<String>) -> (j: Json)
    ensures
        is_text_array(j, views(v@)),
{
    let j = text_array(v);
    assert(v@.map_values(|s: String| s@) =~= views(v@));
    j
}

/// Reports the crash analysis `a`.
pub fn crash_report(a: &CrashAnalysis, core_file: &Option<String>, recommend: bool, depth: usize, secs: u64) -> (j:
    Json)
    ensures
        is_crash_report(j, *a, opt_view(*core_file), recommend, depth, secs),
{
    proof {
        reveal_strlit("No crash");
    }
    let crashed = !crate::text::str_eq(a.crash_type.as_str(), "No crash");
    let mut ci: Vec<(String, Json)> = Vec::new();
    ci.push(entry("signal", Json::Str(a.signal_name.clone())));
    ci.push(entry("signal_number", int_value(a.signal_number)));
    ci.push(entry("address", opt_hex(a.crash_address)));
    ci.push(entry("thread_id", Json::UInt(a.faulting_thread as u64)));
    ci.push(entry("exception_type", jopt_str(&a.exception_type)));
    ci.push(entry("exception_codes", number_array(&a.exception_codes)));
    let n = a.crashed_thread_backtrace.len();
    let k = if depth < n {
        depth
    } else {
        n
    };
    let mut frames: Vec<String> = Vec::new();
    let mut i: usize = 0;
    while i < k
        invariant
            i <= k <= a.crashed_thread_backtrace@.len(),
            frames@.len() == i,
            forall|m: int|
                0 <= m < i ==> (#[trigger] frames@[m])@ == a.crashed_thread_backtrace@[m]@,
        decreases k - i,
    {
        frames.push(a.crashed_thread_backtrace[i].clone());
        i = i + 1;
    }
    assert(views(frames@) =~= first_frames(views(a.crashed_thread_backtrace@), depth));
    let mut es: Vec<(String, Json)> = Vec::new();
    es.push(entry("success", Json::Bool(crashed)));
    es.push(entry("crash_info", Json::Object(ci)));
    es.push(entry("crash_type", Json::Str(a.crash_type.clone())));
    es.push(entry("crash_address", opt_hex(a.crash_address)));
    es.push(entry("faulting_thread", Json::UInt(a.faulting_thread as u64)));
    es.push(entry("signal_number", int_value(a.signal_number)));
    es.push(entry("signal_name", Json::Str(a.signal_name.clone())));
    es.push(entry("exception_type", jopt_str(&a.exception_type)));
    es.push(entry("exception_codes", number_array(&a.exception_codes)));
    es.push(entry("crashed_thread_backtrace", texts(&frames)));
    es.push(entry("register_state", Json::Str(a.register_state.clone())));
    es.push(entry("memory_regions", texts(&a.memory_regions)));
    es.push(entry("loaded_modules", texts(&a.loaded_modules)));
    es.push(entry("crash_summary", Json::Str(a.crash_summary.clone())));
    es.push(entry("analysis_summary", Json::Str(a.crash_summary.clone())));
    es.push(entry("core_file", jopt_str(core_file)));
    es.push(entry("analyzed_at", Json::UInt(secs)));
    es.push(
        entry(
            "status",
            if crashed {
                jstr("analyzed")
            } else {
                jstr("no_crash")
            },
        ),
    );
    if !crashed {
        es.push(
            entry("error", jstr("No crash to analyze - no active process or core file provided")),
        );
    }
    if recommend {
        es.push(entry("recommendations", texts(&a.recommendations)));
    }
    Json::Object(es)
}

/// What to analyze.
#[derive(Debug)]
pub struct CrashRequest {
    pub core_file_path: Option<String>,
    pub include_recommendations: bool,
    pub max_backtrace_depth: usize,
}

/// The number of backtrace lines asked for: `max_backtrace_depth`, 10 by
/// default.
pub open spec fn depth_arg(args: Seq<(String, Json)>) -> usize {
    match as_uint(lookup(args, "max_backtrace_depth"@)) {
        Some(n) => n as usize,
        None => 10,
    }
}

/// Analyzes a crash.
#[derive(Debug)]
pub struct AnalyzeCrashTool;

impl AnalyzeCrashTool {
    pub fn name(&self) -> (r: &'static str)
        ensures
            r@ == "analyze_crash"@,
    {
        "analyze_crash"
    }

    pub fn description(&self) -> (r: &'static str)
        ensures
            r@ == "Analyze crash dumps and provide detailed crash information"@,
    {
        "Analyze crash dumps and provide detailed crash information"
    }

    /// Reads the core file to analyze (`core_file_path`, the process by
    /// default), whether to recommend (`include_recommendations`, true by
    /// default) and how many backtrace lines to report
    /// (`max_backtrace_depth`, 10 by default).
    pub fn request(&self, arguments: &Arguments) -> (q: CrashRequest)
        ensures
            opt_view(q.core_file_path) == as_text(lookup(arguments@, "core_file_path"@)),
            q.include_recommendations == flag_arg(arguments@, "include_recommendations"@, true),
            q.max_backtrace_depth == depth_arg(arguments@),
    {
        CrashRequest {
            core_file_path: arg_str(arguments, "core_file_path"),
            include_recommendations: arg_bool_or(arguments, "include_recommendations", true),
            max_backtrace_depth: #[verifier::truncate] (arg_u64_or(
                arguments,
                "max_backtrace_depth",
                10,
            ) as usize),
        }
    }

    /// The answer: the report of the analysis, made now, or the error the
    /// analysis failed with.
    pub fn respond(&self, q: &CrashRequest, outcome: Result<CrashAnalysis, IncodeError>) -> (r: Result<
        ToolResponse,
        IncodeError,
    >)
        ensures
            match outcome {
                Err(e) => r == Err::<ToolResponse, IncodeError>(e),
                Ok(a) => r matches Ok(resp) && exists|j: Json, secs: u64|
                    #[trigger] is_json_success(resp, j) && #[trigger] is_crash_report(
                        j,
                        a,
                        opt_view(q.core_file_path),
                        q.include_recommendations,
                        q.max_backtrace_depth,
                        secs,
                    ),
            },
    {
        match outcome {
            Err(e) => Err(e),
            Ok(a) => {
                let secs = unix_time_secs();
                let j = crash_report(
                    &a,
                    &q.core_file_path,
                    q.include_recommendations,
                    q.max_backtrace_depth,
                    secs,
                );
                let resp = json_success(&j);
                assert(is_json_success(resp, j));
                Ok(resp)
            },
        }
    }
}

// ---------------------------------------------------------------------------
// generate_core_dump
// ---------------------------------------------------------------------------

/// Where and how to save a core file.
#[derive(Debug)]
pub struct CoreDumpRequest {
    pub output_path: String,
    pub format: String,
    pub include_memory: bool,
}

/// Saves a core file of the process.
#[derive(Debug)]
pub struct GenerateCoreDumpTool;

impl GenerateCoreDumpTool {
    pub fn name(&self) -> (r: &'static str)
        ensures
            r@ == "generate_core_dump"@,
    {
        "generate_core_dump"
    }

    pub fn description(&self) -> (r: &'static str)
        ensures
            r@ == "Generate core dump files for current process state"@,
    {
        "Generate core dump files for current process state"
    }

    /// Reads where to save (`output_path`, required), the format
    /// (`format`, `auto` by default) and whether memory is included
    /// (`include_memory`, true by default).
    pub fn request(&self, arguments: &Arguments) -> (r: Result<CoreDumpRequest, IncodeError>)
        ensures
            match as_text(lookup(arguments@, "output_path"@)) {
                None => r matches Err(IncodeError::Configuration(m)) && m@
                    == "output_path required"@,
                Some(p) => r matches Ok(q) && q.output_path@ == p && q.format@ == match as_text(
                    lookup(arguments@, "format"@),
                ) {
                    Some(f) => f,
                    None => "auto"@,
                } && q.include_memory == flag_arg(arguments@, "include_memory"@, true),
            },
    {
        let output_path = match arg_str(arguments, "output_path") {
            Some(p) => p,
            None => {
                return Err(IncodeError::invalid_parameter("output_path required"));
            },
        };
        Ok(
            CoreDumpRequest {
                output_path,
                format: arg_str_or(arguments, "format", "auto"),
                include_memory: arg_bool_or(arguments, "include_memory", true),
            },
        )
    }

    /// The answer once the debugger has tried to save the core file
    /// (`outcome`) and the caller has looked at the output path
    /// (`file_exists`, and the file's size `file_size`, zero where it could
    /// not be read). A missing process is answered as such; another error
    /// is passed on.
    pub fn respond(
        &self,
        q: &CoreDumpRequest,
        outcome: Result<String, IncodeError>,
        file_exists: bool,
        file_size: u64,
    ) -> (r: Result<ToolResponse, IncodeError>)
        ensures
            match outcome {
                Err(IncodeError::ProcessNotFound(_)) => r matches Ok(resp) && exists|j: Json|
                    #[trigger] is_json_success(resp, j) && is_no_process_dump(j, *q),
                Err(e) => r == Err::<ToolResponse, IncodeError>(e),
                Ok(result) => r matches Ok(resp) && exists|j: Json|
                    #[trigger] is_json_success(resp, j) && is_dump_report(
                        j,
                        *q,
                        result@,
                        file_exists,
                        if file_exists {
                            file_size
                        } else {
                            0
                        },
                    ),
            },
    {
        match outcome {
            Err(IncodeError::ProcessNotFound(_)) => {
                let mut es: Vec<(String, Json)> = Vec::new();
                es.push(entry("success", Json::Bool(false)));
                es.push(entry("error", jstr("No process attached")));
                es.push(entry("output_path", Json::Str(q.output_path.clone())));
                es.push(entry("core_dump_path", Json::Str(q.output_path.clone())));
                es.push(entry("format", Json::Str(q.format.clone())));
                es.push(entry("include_memory", Json::Bool(q.include_memory)));
                es.push(entry("file_size", Json::UInt(0)));
                es.push(entry("file_exists", Json::Bool(false)));
                es.push(entry("status", jstr("no_process")));
                let j = Json::Object(es);
                let resp = json_success(&j);
                assert(is_json_success(resp, j));
                Ok(resp)
            },
            Err(e) => Err(e),
            Ok(result) => {
                let size = if file_exists {
                    file_size
                } else {
                    0
                };
                let mut es: Vec<(String, Json)> = Vec::new();
                es.push(entry("success", Json::Bool(true)));
                es.push(entry("output_path", Json::Str(q.output_path.clone())));
                es.push(entry("core_dump_path", Json::Str(q.output_path.clone())));
                es.push(entry("format", Json::Str(q.format.clone())));
                es.push(entry("include_memory", Json::Bool(q.include_memory)));
                es.push(entry("file_exists", Json::Bool(file_exists)));
                es.push(entry("file_size", Json::UInt(size)));
                es.push(entry("result", Json::Str(result)));
                es.push(entry("generated_at", Json::Str(dec_string(unix_time_secs()))));
                es.push(
                    entry(
                        "status",
                        if file_exists {
                            jstr("generated")
                        } else {
                            jstr("completed")
                        },
                    ),
                );
                let j = Json::Object(es);
                let resp = json_success(&j);
                assert(is_json_success(resp, j));
                Ok(resp)
            },
        }
    }
}

/// `j` reports that no core file could be saved for want of a process.
pub open spec fn is_no_process_dump(j: Json, q: CoreDumpRequest) -> bool {
    j matches Json::Object(es) && {
        let es = es@;
        &&& es.len() == 9
        &&& has_value(es, 0, "success"@, Json::Bool(false))
        &&& has_text(es, 1, "error"@, "No process attached"@)
        &&& has_text(es, 2, "output_path"@, q.output_path@)
        &&& has_text(es, 3, "core_dump_path"@, q.output_path@)
        &&& has_text(es, 4, "format"@, q.format@)
        &&& has_value(es, 5, "include_memory"@, Json::Bool(q.include_memory))
        &&& has_value(es, 6, "file_size"@, Json::UInt(0))
        &&& has_value(es, 7, "file_exists"@, Json::Bool(false))
        &&& has_text(es, 8, "status"@, "no_process"@)
    }
}

/// `j` reports the core file saved at the output path of `q`, whether it
/// is there and its size, and what the debugger said.
pub open spec fn is_dump_report(j: Json, q: CoreDumpRequest, result: Seq<char>, exists: bool, size: u64) -> bool {
    j matches Json::Object(es) && {
        let es = es@;
        &&& es.len() == 10
        &&& has_value(es, 0, "success"@, Json::Bool(true))
        &&& has_text(es, 1, "output_path"@, q.output_path@)
        &&& has_text(es, 2, "core_dump_path"@, q.output_path@)
        &&& has_text(es, 3, "format"@, q.format@)
        &&& has_value(es, 4, "include_memory"@, Json::Bool(q.include_memory))
        &&& has_value(es, 5, "file_exists"@, Json::Bool(exists))
        &&& has_value(es, 6, "file_size"@, Json::UInt(size))
        &&& has_text(es, 7, "result"@, result)
        &&& es[8].0@ == "generated_at"@ && es[8].1 is Str
        &&& has_text(
            es,
            9,
            "status"@,
            if exists {
                "generated"@
            } else {
                "completed"@
            },
        )
    }
}

/// A stand-in for the analysis tools.
#[derive(Debug)]
pub struct PlaceholderTool;

impl PlaceholderTool {
    pub fn name(&self) -> (r: &'static str)
        ensures
            r@ == "placeholder"@,
    {
        "placeholder"
    }

    pub fn description(&self) -> (r: &'static str)
        ensures
            r@ == "Placeholder tool - needs implementation"@,
    {
        "Placeholder tool - needs implementation"
    }

    /// The answer, whatever the arguments.
    pub fn execute(&self, args: &Arguments) -> (r: ToolResponse)
        ensures
            is_failure(r, "Not implemented"@),
    {
        failure("Not implemented")
    }
}

} // verus!
