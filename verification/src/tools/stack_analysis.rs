//! Tools that look at the call stack: the backtrace, the frames, their
//! variables and arguments, and expressions evaluated in a frame.

use vstd::prelude::*;
use crate::error::IncodeError;
use crate::json::{
    arg_bool_or, arg_str, arg_str_or, arg_u64, arg_u64_or, as_boolean, as_text, as_uint, entry,
    jopt_str, jstr, lookup, opt_view, text_array, Arguments, Json,
};
use crate::lldb_manager::{kept_variables, retain_variables, FrameInfo, Variable};
use crate::text::{
    bin_str, chars_of, dec_str, find_substr, first_occurrence, has_prefix, has_suffix, hex_addr,
    parse_bounded, parse_i64, parse_signed, parse_unsigned_str, push_bin, push_dec,
    push_hex_address, push_str, replace_all, replace_text, str_ends_with, str_eq, str_starts_with,
    string_of_range, trim_char, trim_char_str, views,
};
use crate::tools::{
    contains_any, error_response, failure, has_text, has_value, is_failure, is_json_object,
    json_entries, reports_error, str_contains_any, ToolResponse,
};

verus! {

broadcast use vstd::string::group_string_axioms;

/// The optional `frame_index` argument, its low 32 bits.
pub open spec fn frame_index_arg(args: Seq<(String, Json)>) -> Option<u32> {
    match as_uint(lookup(args, "frame_index"@)) {
        Some(n) => Some(n as u32),
        None => None,
    }
}

/// Reads the optional `frame_index` argument.
pub fn read_frame_index(args: &Arguments) -> (r: Option<u32>)
    ensures
        r == frame_index_arg(args@),
{
    match arg_u64(args, "frame_index") {
        Some(n) => Some(#[verifier::truncate] (n as u32)),
        None => None,
    }
}

/// The JSON form of an optional line number.
pub open spec fn opt_line_json(line: Option<u32>) -> Json {
    match line {
        Some(l) => Json::UInt(l as u64),
        None => Json::Null,
    }
}

fn line_json(line: Option<u32>) -> (r: Json)
    ensures
        r == opt_line_json(line),
{
    match line {
        Some(l) => Json::UInt(l as u64),
        None => Json::Null,
    }
}

fn address_text(a: u64) -> (r: String)
    ensures
        r@ == hex_addr(a as nat),
{
    let mut s = String::new();
    push_hex_address(&mut s, a);
    s
}

// ---------------------------------------------------------------------------
// get_backtrace
// ---------------------------------------------------------------------------

/// The backtrace cut to `max` frames, where `max` is not zero and there
/// are more, with a line that marks the cut. The line counts the frames
/// left out after the cut has been made, so it always reads zero.
pub open spec fn truncated_frames(lines: Seq<Seq<char>>, max: u64) -> Seq<Seq<char>> {
    if max > 0 && lines.len() > max {
        lines.take(max as int).push("... (0 more frames truncated)"@)
    } else {
        lines
    }
}

/// A backtrace line reduced to its frame number and function: what comes
/// before the text ` (` that follows the first `: `.
pub open spec fn compact_frame(f: Seq<char>) -> Seq<char> {
    match first_occurrence(f, ": "@) {
        Some(s) => {
            let rest = f.subrange(s + 2int, f.len() as int);
            match first_occurrence(rest, " ("@) {
                Some(e) => f.subrange(0, s + 2int + e),
                None => f,
            }
        },
        None => f,
    }
}

/// A backtrace line in the format `format`: `compact`, `gdb_style` (with
/// `PC:` written as `at`) or, for any other format, as it is.
pub open spec fn styled_frame(f: Seq<char>, format: Seq<char>) -> Seq<char> {
    if format == "compact"@ {
        compact_frame(f)
    } else if format == "gdb_style"@ {
        replace_all(replace_all(f, "#"@, "#"@), "PC:"@, "at"@)
    } else {
        f
    }
}

/// The lines of a backtrace as the backtrace tool reports them.
pub open spec fn reported_frames(lines: Seq<Seq<char>>, max: u64, format: Seq<char>) -> Seq<Seq<char>> {
    truncated_frames(lines, max).map_values(|f: Seq<char>| styled_frame(f, format))
}

fn compact_frame_of(f: &str) -> (r: String)
    ensures
        r@ == compact_frame(f@),
{
    let v = chars_of(f);
    let sep = chars_of(": ");
    let open = chars_of(" (");
    proof {
        reveal_strlit(": ");
        reveal_strlit(" (");
    }
    let n = v.len();
    match find_substr(&v, &sep) {
        Some(s) => {
            let rest = crate::text::sub_chars(&v, s + 2, n);
            match find_substr(&rest, &open) {
                Some(e) => string_of_range(&v, 0, s + 2 + e),
                None => f.to_owned(),
            }
        },
        None => f.to_owned(),
    }
}

fn styled_frame_of(f: &str, format: &str) -> (r: String)
    ensures
        r@ == styled_frame(f@, format@),
{
    if str_eq(format, "compact") {
        compact_frame_of(f)
    } else if str_eq(format, "gdb_style") {
        proof {
            reveal_strlit("#");
            reveal_strlit("PC:");
        }
        let same = replace_text(f, "#", "#");
        replace_text(same.as_str(), "PC:", "at")
    } else {
        f.to_owned()
    }
}

/// Reports the call stack.
#[derive(Debug)]
pub struct GetBacktraceTool;

impl GetBacktraceTool {
    pub fn name(&self) -> (r: &'static str)
        ensures
            r@ == "get_backtrace"@,
    {
        "get_backtrace"
    }

    pub fn description(&self) -> (r: &'static str)
        ensures
            r@ == "Get call stack with function names, addresses, and frame information"@,
    {
        "Get call stack with function names, addresses, and frame information"
    }

    /// The most frames to report (`max_frames`, 0 for all) and the format
    /// (`format`, `detailed` by default).
    pub fn options(&self, args: &Arguments) -> (r: (u64, String))
        ensures
            r.0 == match as_uint(lookup(args@, "max_frames"@)) {
                Some(n) => n,
                None => 0,
            },
            r.1@ == match as_text(lookup(args@, "format"@)) {
                Some(t) => t,
                None => "detailed"@,
            },
    {
        (arg_u64_or(args, "max_frames", 0), arg_str_or(args, "format", "detailed"))
    }

    /// The answer: the backtrace, cut and formatted, how many lines it has,
    /// and whether it reached the cut.
    pub fn respond(&self, max_frames: u64, format: &str, outcome: Result<Vec<String>, IncodeError>) -> (r:
        ToolResponse)
        ensures
            match outcome {
                Ok(lines) => {
                    let shown = reported_frames(views(lines@), max_frames, format@);
                    let es = json_entries(r);
                    &&& is_json_object(r, 5)
                    &&& es[0].0@ == "backtrace"@ && crate::json::is_text_array(es[0].1, shown)
                    &&& has_value(es, 1, "frame_count"@, Json::UInt(shown.len() as u64))
                    &&& has_text(es, 2, "format"@, format@)
                    &&& has_value(
                        es,
                        3,
                        "truncated"@,
                        Json::Bool(max_frames > 0 && shown.len() >= max_frames),
                    )
                    &&& has_text(
                        es,
                        4,
                        "message"@,
                        "Retrieved "@ + dec_str(shown.len()) + " stack frames"@,
                    )
                },
                Err(e) => reports_error(r, e),
            },
    {
        match outcome {
            Ok(lines) => {
                let ghost lv = views(lines@);
                let n = lines.len();
                let cut = max_frames > 0 && (n as u64) > max_frames;
                let keep: usize = if cut {
                    max_frames as usize
                } else {
                    n
                };
                let mut shown: Vec<String> = Vec::new();
                let mut i: usize = 0;
                while i < keep
                    invariant
                        keep <= n == lines@.len(),
                        lv == views(lines@),
                        i <= keep,
                        views(shown@) =~= lv.take(i as int).map_values(
                            |f: Seq<char>| styled_frame(f, format@),
                        ),
                    decreases keep - i,
                {
                    let line = styled_frame_of(lines[i].as_str(), format);
                    let ghost before = shown@;
                    assert(lv[i as int] == lines@[i as int]@);
                    shown.push(line);
                    assert(lv.take(i + 1) =~= lv.take(i as int).push(lv[i as int]));
                    assert(views(shown@) =~= views(before).push(styled_frame(lv[i as int], format@)));
                    i = i + 1;
                }
                if cut {
                    let marker = styled_frame_of("... (0 more frames truncated)", format);
                    let ghost before = shown@;
                    shown.push(marker);
                    assert(views(shown@) =~= views(before).push(
                        styled_frame("... (0 more frames truncated)"@, format@),
                    ));
                    assert(truncated_frames(lv, max_frames) =~= lv.take(keep as int).push(
                        "... (0 more frames truncated)"@,
                    ));
                } else {
                    assert(lv.take(n as int) =~= lv);
                }
                assert(views(shown@) =~= reported_frames(lv, max_frames, format@));
                let count = shown.len();
                let mut msg = String::new();
                push_str(&mut msg, "Retrieved ");
                push_dec(&mut msg, count as u64);
                push_str(&mut msg, " stack frames");
                let truncated = max_frames > 0 && (count as u64) >= max_frames;
                let mut es: Vec<(String, Json)> = Vec::new();
                es.push(entry("backtrace", text_array(&shown)));
                es.push(entry("frame_count", Json::UInt(count as u64)));
                es.push(entry("format", jstr(format)));
                es.push(entry("truncated", Json::Bool(truncated)));
                es.push(entry("message", Json::Str(msg)));
                ToolResponse::Json(Json::Object(es))
            },
            Err(e) => error_response(&e),
        }
    }
}

/// The backtrace tool keeps the innermost frames: where the backtrace has
/// more than `max` lines (and `max` is not zero), the reported lines are
/// backtrace lines `0 .. max` in the chosen format, `#0` first, followed by
/// the line that marks the cut; otherwise every backtrace line is reported,
/// in order.
pub proof fn law_backtrace_keeps_innermost(lines: Seq<Seq<char>>, max: u64, format: Seq<char>)
    ensures
        ({
            let shown = reported_frames(lines, max, format);
            if max > 0 && lines.len() > max {
                &&& shown.len() == max + 1
                &&& forall|k: int| 0 <= k < max ==> shown[k] == styled_frame(lines[k], format)
                &&& shown[max as int] == styled_frame("... (0 more frames truncated)"@, format)
            } else {
                &&& shown.len() == lines.len()
                &&& forall|k: int| 0 <= k < lines.len() ==> shown[k] == styled_frame(lines[k], format)
            }
        }),
{
}

// ---------------------------------------------------------------------------
// select_frame, get_frame_info
// ---------------------------------------------------------------------------

/// `v` describes the frame `f` as the frame-selection answer does.
pub open spec fn is_selected_frame_json(v: Json, f: FrameInfo) -> bool {
    v matches Json::Object(es) && {
        let es = es@;
        &&& es.len() == 7
        &&& has_value(es, 0, "index"@, Json::UInt(f.index as u64))
        &&& has_text(es, 1, "function_name"@, f.function_name@)
        &&& has_text(es, 2, "pc"@, hex_addr(f.pc as nat))
        &&& has_text(es, 3, "sp"@, hex_addr(f.sp as nat))
        &&& es[4].0@ == "module"@ && crate::json::is_opt_text_value(es[4].1, opt_view(f.module))
        &&& es[5].0@ == "file"@ && crate::json::is_opt_text_value(es[5].1, opt_view(f.file))
        &&& has_value(es, 6, "line"@, opt_line_json(f.line))
    }
}

/// Selects a frame of the current thread.
#[derive(Debug)]
pub struct SelectFrameTool;

impl SelectFrameTool {
    pub fn name(&self) -> (r: &'static str)
        ensures
            r@ == "select_frame"@,
    {
        "select_frame"
    }

    pub fn description(&self) -> (r: &'static str)
        ensures
            r@ == "Switch to specific stack frame by index for debugging context"@,
    {
        "Switch to specific stack frame by index for debugging context"
    }

    /// The frame to select: `frame_index`, required, its low 32 bits.
    pub fn frame_index(&self, args: &Arguments) -> (r: Result<u32, IncodeError>)
        ensures
            match frame_index_arg(args@) {
                Some(i) => r == Ok::<u32, IncodeError>(i),
                None => r matches Err(IncodeError::McpProtocol(m)) && m@
                    == "Missing frame_index parameter"@,
            },
    {
        match read_frame_index(args) {
            Some(i) => Ok(i),
            None => Err(IncodeError::mcp("Missing frame_index parameter")),
        }
    }

    /// The answer: the selected frame.
    pub fn respond(&self, outcome: Result<FrameInfo, IncodeError>) -> (r: ToolResponse)
        ensures
            match outcome {
                Ok(f) => {
                    let es = json_entries(r);
                    &&& is_json_object(r, 3)
                    &&& has_value(es, 0, "success"@, Json::Bool(true))
                    &&& es[1].0@ == "selected_frame"@ && is_selected_frame_json(es[1].1, f)
                    &&& has_text(
                        es,
                        2,
                        "message"@,
                        "Selected frame "@ + dec_str(f.index as nat) + " in function "@
                            + f.function_name@,
                    )
                },
                Err(e) => reports_error(r, e),
            },
    {
        match outcome {
            Ok(f) => {
                let mut frame: Vec<(String, Json)> = Vec::new();
                frame.push(entry("index", Json::UInt(f.index as u64)));
                frame.push(entry("function_name", Json::Str(f.function_name.clone())));
                frame.push(entry("pc", Json::Str(address_text(f.pc))));
                frame.push(entry("sp", Json::Str(address_text(f.sp))));
                frame.push(entry("module", jopt_str(&f.module)));
                frame.push(entry("file", jopt_str(&f.file)));
                frame.push(entry("line", line_json(f.line)));
                let mut msg = String::new();
                push_str(&mut msg, "Selected frame ");
                push_dec(&mut msg, f.index as u64);
                push_str(&mut msg, " in function ");
                push_str(&mut msg, f.function_name.as_str());
                let mut es: Vec<(String, Json)> = Vec::new();
                es.push(entry("success", Json::Bool(true)));
                es.push(entry("selected_frame", Json::Object(frame)));
                es.push(entry("message", Json::Str(msg)));
                ToolResponse::Json(Json::Object(es))
            },
            Err(e) => error_response(&e),
        }
    }
}

/// `v` describes the frame `f`: its index and function, then its
/// addresses and its source place where they are asked for.
pub open spec fn is_frame_info_json(v: Json, f: FrameInfo, addresses: bool, source: bool) -> bool {
    v matches Json::Object(es) && {
        let es = es@;
        let a: int = if addresses {
            2
        } else {
            0
        };
        &&& es.len() == 2 + a + if source {
            3int
        } else {
            0
        }
        &&& has_value(es, 0, "frame_index"@, Json::UInt(f.index as u64))
        &&& has_text(es, 1, "function_name"@, f.function_name@)
        &&& addresses ==> has_text(es, 2, "pc"@, hex_addr(f.pc as nat)) && has_text(
            es,
            3,
            "sp"@,
            hex_addr(f.sp as nat),
        )
        &&& source ==> (es[2 + a].0@ == "module"@ && crate::json::is_opt_text_value(
            es[2 + a].1,
            opt_view(f.module),
        ) && es[3 + a].0@ == "file"@ && crate::json::is_opt_text_value(
            es[3 + a].1,
            opt_view(f.file),
        ) && has_value(es, 4 + a, "line"@, opt_line_json(f.line)))
    }
}

/// Describes a frame of the current thread.
#[derive(Debug)]
pub struct GetFrameInfoTool;

impl GetFrameInfoTool {
    pub fn name(&self) -> (r: &'static str)
        ensures
            r@ == "get_frame_info"@,
    {
        "get_frame_info"
    }

    pub fn description(&self) -> (r: &'static str)
        ensures
            r@ == "Get current frame details including function, addresses, module, and source location"@,
    {
        "Get current frame details including function, addresses, module, and source location"
    }

    /// Whether addresses (`include_addresses`) and the source place
    /// (`include_source`) are reported; both by default.
    pub fn options(&self, args: &Arguments) -> (r: (bool, bool))
        ensures
            r.0 == match as_boolean(lookup(args@, "include_addresses"@)) {
                Some(b) => b,
                None => true,
            },
            r.1 == match as_boolean(lookup(args@, "include_source"@)) {
                Some(b) => b,
                None => true,
            },
    {
        (arg_bool_or(args, "include_addresses", true), arg_bool_or(args, "include_source", true))
    }

    /// The answer: the frame's description.
    pub fn respond(&self, include_addresses: bool, include_source: bool, outcome: Result<
        FrameInfo,
        IncodeError,
    >) -> (r: ToolResponse)
        ensures
            match outcome {
                Ok(f) => {
                    let es = json_entries(r);
                    &&& is_json_object(r, 2)
                    &&& es[0].0@ == "frame_info"@ && is_frame_info_json(
                        es[0].1,
                        f,
                        include_addresses,
                        include_source,
                    )
                    &&& has_text(
                        es,
                        1,
                        "message"@,
                        "Frame "@ + dec_str(f.index as nat) + " info: "@ + f.function_name@,
                    )
                },
                Err(e) => reports_error(r, e),
            },
    {
        match outcome {
            Ok(f) => {
                let mut info: Vec<(String, Json)> = Vec::new();
                info.push(entry("frame_index", Json::UInt(f.index as u64)));
                info.push(entry("function_name", Json::Str(f.function_name.clone())));
                if include_addresses {
                    info.push(entry("pc", Json::Str(address_text(f.pc))));
                    info.push(entry("sp", Json::Str(address_text(f.sp))));
                }
                if include_source {
                    info.push(entry("module", jopt_str(&f.module)));
                    info.push(entry("file", jopt_str(&f.file)));
                    info.push(entry("line", line_json(f.line)));
                }
                let mut msg = String::new();
                push_str(&mut msg, "Frame ");
                push_dec(&mut msg, f.index as u64);
                push_str(&mut msg, " info: ");
                push_str(&mut msg, f.function_name.as_str());
                let mut es: Vec<(String, Json)> = Vec::new();
                es.push(entry("frame_info", Json::Object(info)));
                es.push(entry("message", Json::Str(msg)));
                ToolResponse::Json(Json::Object(es))
            },
            Err(e) => error_response(&e),
        }
    }
}

// ---------------------------------------------------------------------------
// Variables and arguments of a frame
// ---------------------------------------------------------------------------

/// `v` describes the variable `var` in full: name, value, type, whether it
/// is an argument, scope, and its category (`parameter` or `local`).
pub open spec fn is_detailed_variable(v: Json, var: Variable) -> bool {
    v matches Json::Object(es) && {
        let es = es@;
        &&& es.len() == 6
        &&& has_text(es, 0, "name"@, var.name@)
        &&& has_text(es, 1, "value"@, var.value@)
        &&& has_text(es, 2, "type"@, var.var_type@)
        &&& has_value(es, 3, "is_argument"@, Json::Bool(var.is_argument))
        &&& has_text(es, 4, "scope"@, var.scope@)
        &&& has_text(
            es,
            5,
            "category"@,
            if var.is_argument {
                "parameter"@
            } else {
                "local"@
            },
        )
    }
}

/// The line that describes `var` in the formats given as lines:
/// `compact` (`name: type = value`), `names_only` and `types_only`
/// (`name: type`).
pub open spec fn variable_line(var: Variable, format: Seq<char>) -> Seq<char> {
    if format == "compact"@ {
        var.name@ + ": "@ + var.var_type@ + " = "@ + var.value@
    } else if format == "names_only"@ {
        var.name@
    } else {
        var.name@ + ": "@ + var.var_type@
    }
}

/// The formats that describe a variable in one line.
pub open spec fn is_line_format(format: Seq<char>) -> bool {
    format == "compact"@ || format == "names_only"@ || format == "types_only"@
}

/// `j` describes `vars` in the format `format`: one line each in a line
/// format, one object each (`detailed`) otherwise.
pub open spec fn is_formatted_variables(j: Json, vars: Seq<Variable>, format: Seq<char>) -> bool {
    j matches Json::Array(items) && items@.len() == vars.len() && forall|i: int|
        0 <= i < vars.len() ==> if is_line_format(format) {
            crate::json::is_text(#[trigger] items@[i], variable_line(vars[i], format))
        } else {
            is_detailed_variable(items@[i], vars[i])
        }
}

fn variable_line_of(var: &Variable, format: &str) -> (r: String)
    ensures
        r@ == variable_line(*var, format@),
{
    let mut s = var.name.clone();
    if str_eq(format, "compact") {
        push_str(&mut s, ": ");
        push_str(&mut s, var.var_type.as_str());
        push_str(&mut s, " = ");
        push_str(&mut s, var.value.as_str());
    } else if str_eq(format, "names_only") {
    } else {
        push_str(&mut s, ": ");
        push_str(&mut s, var.var_type.as_str());
    }
    s
}

fn detailed_variable(var: &Variable) -> (v: Json)
    ensures
        is_detailed_variable(v, *var),
{
    let mut es: Vec<(String, Json)> = Vec::new();
    es.push(entry("name", Json::Str(var.name.clone())));
    es.push(entry("value", Json::Str(var.value.clone())));
    es.push(entry("type", Json::Str(var.var_type.clone())));
    es.push(entry("is_argument", Json::Bool(var.is_argument)));
    es.push(entry("scope", Json::Str(var.scope.clone())));
    es.push(entry("category", jstr(if var.is_argument { "parameter" } else { "local" })));
    Json::Object(es)
}

/// How many of `vars` are arguments.
pub open spec fn argument_count(vars: Seq<Variable>) -> nat {
    vars.filter(|v: Variable| v.is_argument).len()
}

/// How many of `vars` are not arguments.
pub open spec fn local_count(vars: Seq<Variable>) -> nat {
    vars.filter(|v: Variable| !v.is_argument).len()
}

fn count_kinds(vars: &Vec<Variable>) -> (r: (usize, usize))
    ensures
        r.0 == argument_count(vars@),
        r.1 == local_count(vars@),
{
    let ghost arg = |v: Variable| v.is_argument;
    let ghost loc = |v: Variable| !v.is_argument;
    let mut args: usize = 0;
    let mut locals: usize = 0;
    let mut i: usize = 0;
    assert(vars@.take(0) =~= Seq::<Variable>::empty());
    proof {
        reveal(Seq::filter);
    }
    while i < vars.len()
        invariant
            i <= vars@.len(),
            arg == (|v: Variable| v.is_argument),
            loc == (|v: Variable| !v.is_argument),
            args == vars@.take(i as int).filter(arg).len(),
            locals == vars@.take(i as int).filter(loc).len(),
            args + locals == i,
        decreases vars@.len() - i,
    {
        proof {
            reveal(Seq::filter);
        }
        assert(vars@.take(i + 1).drop_last() =~= vars@.take(i as int));
        assert(vars@.take(i + 1).last() == vars@[i as int]);
        if vars[i].is_argument {
            args = args + 1;
        } else {
            locals = locals + 1;
        }
        i = i + 1;
    }
    assert(vars@.take(i as int) =~= vars@);
    (args, locals)
}

/// The variables that pass the name filter: all of them for an empty
/// filter, else those whose name contains it.
pub open spec fn name_filtered(vars: Seq<Variable>, filter: Seq<char>) -> Seq<Variable> {
    if filter.len() == 0 {
        vars
    } else {
        kept_variables(vars, None, Some(filter))
    }
}

/// Reports the variables of a frame.
#[derive(Debug)]
pub struct GetFrameVariablesTool;

impl GetFrameVariablesTool {
    pub fn name(&self) -> (r: &'static str)
        ensures
            r@ == "get_frame_variables"@,
    {
        "get_frame_variables"
    }

    pub fn description(&self) -> (r: &'static str)
        ensures
            r@ == "Get all local variables in current or specified frame"@,
    {
        "Get all local variables in current or specified frame"
    }

    /// Describes `variables` in the format `format`.
    pub fn format_variables(variables: &Vec<Variable>, format: &str) -> (r: Json)
        ensures
            is_formatted_variables(r, variables@, format@),
    {
        let line_format = str_eq(format, "compact") || str_eq(format, "names_only") || str_eq(
            format,
            "types_only",
        );
        let mut items: Vec<Json> = Vec::new();
        let mut i: usize = 0;
        while i < variables.len()
            invariant
                i <= variables@.len(),
                line_format == is_line_format(format@),
                items@.len() == i,
                forall|k: int|
                    0 <= k < i ==> if is_line_format(format@) {
                        crate::json::is_text(
                            #[trigger] items@[k],
                            variable_line(variables@[k], format@),
                        )
                    } else {
                        is_detailed_variable(items@[k], variables@[k])
                    },
            decreases variables@.len() - i,
        {
            if line_format {
                items.push(Json::Str(variable_line_of(&variables[i], format)));
            } else {
                items.push(detailed_variable(&variables[i]));
            }
            i = i + 1;
        }
        Json::Array(items)
    }

    /// The frame (`frame_index`, the current one by default), whether
    /// arguments are included (`include_arguments`, false by default), the
    /// name filter (`filter`, empty by default) and the format (`format`,
    /// `detailed` by default).
    pub fn options(&self, args: &Arguments) -> (r: (Option<u32>, bool, String, String))
        ensures
            r.0 == frame_index_arg(args@),
            r.1 == match as_boolean(lookup(args@, "include_arguments"@)) {
                Some(b) => b,
                None => false,
            },
            r.2@ == match as_text(lookup(args@, "filter"@)) {
                Some(t) => t,
                None => Seq::empty(),
            },
            r.3@ == match as_text(lookup(args@, "format"@)) {
                Some(t) => t,
                None => "detailed"@,
            },
    {
        proof {
            reveal_strlit("");
        }
        (
            read_frame_index(args),
            arg_bool_or(args, "include_arguments", false),
            arg_str_or(args, "filter", ""),
            arg_str_or(args, "format", "detailed"),
        )
    }

    /// The answer: the variables that pass the filter, described in the
    /// format, with how many there are of each kind.
    pub fn respond(
        &self,
        frame_index: Option<u32>,
        include_arguments: bool,
        filter: &str,
        format: &str,
        outcome: Result<Vec<Variable>, IncodeError>,
    ) -> (r: ToolResponse)
        ensures
            match outcome {
                Ok(vars) => {
                    let shown = name_filtered(vars@, filter@);
                    let index: u32 = match frame_index {
                        Some(i) => i,
                        None => 0,
                    };
                    let es = json_entries(r);
                    &&& is_json_object(r, 10)
                    &&& has_value(es, 0, "frame_index"@, Json::UInt(index as u64))
                    &&& has_value(es, 1, "include_arguments"@, Json::Bool(include_arguments))
                    &&& has_value(es, 2, "total_variables"@, Json::UInt(shown.len() as u64))
                    &&& has_value(es, 3, "local_variables"@, Json::UInt(local_count(shown) as u64))
                    &&& has_value(es, 4, "arguments"@, Json::UInt(argument_count(shown) as u64))
                    &&& has_value(es, 5, "filter_applied"@, Json::Bool(filter@.len() > 0))
                    &&& has_text(es, 6, "filter"@, filter@)
                    &&& has_text(es, 7, "format"@, format@)
                    &&& es[8].0@ == "variables"@ && is_formatted_variables(es[8].1, shown, format@)
                    &&& has_text(
                        es,
                        9,
                        "message"@,
                        "Found "@ + dec_str(shown.len()) + " variables in frame "@ + dec_str(
                            index as nat,
                        ),
                    )
                },
                Err(e) => reports_error(r, e),
            },
    {
        match outcome {
            Ok(vars) => {
                let shown = if filter.unicode_len() == 0 {
                    vars
                } else {
                    retain_variables(vars, None, Some(filter))
                };
                let (arguments, locals) = count_kinds(&shown);
                let index: u32 = match frame_index {
                    Some(i) => i,
                    None => 0,
                };
                let total = shown.len();
                let mut msg = String::new();
                push_str(&mut msg, "Found ");
                push_dec(&mut msg, total as u64);
                push_str(&mut msg, " variables in frame ");
                push_dec(&mut msg, index as u64);
                let mut es: Vec<(String, Json)> = Vec::new();
                es.push(entry("frame_index", Json::UInt(index as u64)));
                es.push(entry("include_arguments", Json::Bool(include_arguments)));
                es.push(entry("total_variables", Json::UInt(total as u64)));
                es.push(entry("local_variables", Json::UInt(locals as u64)));
                es.push(entry("arguments", Json::UInt(arguments as u64)));
                es.push(entry("filter_applied", Json::Bool(filter.unicode_len() > 0)));
                es.push(entry("filter", jstr(filter)));
                es.push(entry("format", jstr(format)));
                es.push(entry("variables", Self::format_variables(&shown, format)));
                es.push(entry("message", Json::Str(msg)));
                ToolResponse::Json(Json::Object(es))
            },
            Err(e) => error_response(&e),
        }
    }
}

/// `v` describes the argument `arg` in full: name, value, scope and, where
/// asked for, type.
pub open spec fn is_detailed_argument(v: Json, arg: Variable, include_types: bool) -> bool {
    v matches Json::Object(es) && {
        let es = es@;
        &&& es.len() == if include_types {
            4int
        } else {
            3int
        }
        &&& has_text(es, 0, "name"@, arg.name@)
        &&& has_text(es, 1, "value"@, arg.value@)
        &&& has_text(es, 2, "scope"@, arg.scope@)
        &&& include_types ==> has_text(es, 3, "type"@, arg.var_type@)
    }
}

/// The line that describes the argument `arg` in a line format: as a
/// variable, except that `compact` leaves the type out where types are not
/// asked for.
pub open spec fn argument_line(arg: Variable, format: Seq<char>, include_types: bool) -> Seq<char> {
    if format == "compact"@ && !include_types {
        arg.name@ + " = "@ + arg.value@
    } else {
        variable_line(arg, format)
    }
}

/// `j` describes the arguments `args` in the format `format`.
pub open spec fn is_formatted_arguments(
    j: Json,
    args: Seq<Variable>,
    format: Seq<char>,
    include_types: bool,
) -> bool {
    j matches Json::Array(items) && items@.len() == args.len() && forall|i: int|
        0 <= i < args.len() ==> if is_line_format(format) {
            crate::json::is_text(#[trigger] items@[i], argument_line(args[i], format, include_types))
        } else {
            is_detailed_argument(items@[i], args[i], include_types)
        }
}

fn argument_line_of(arg: &Variable, format: &str, include_types: bool) -> (r: String)
    ensures
        r@ == argument_line(*arg, format@, include_types),
{
    if str_eq(format, "compact") && !include_types {
        let mut s = arg.name.clone();
        push_str(&mut s, " = ");
        push_str(&mut s, arg.value.as_str());
        s
    } else {
        variable_line_of(arg, format)
    }
}

fn detailed_argument(arg: &Variable, include_types: bool) -> (v: Json)
    ensures
        is_detailed_argument(v, *arg, include_types),
{
    let mut es: Vec<(String, Json)> = Vec::new();
    es.push(entry("name", Json::Str(arg.name.clone())));
    es.push(entry("value", Json::Str(arg.value.clone())));
    es.push(entry("scope", Json::Str(arg.scope.clone())));
    if include_types {
        es.push(entry("type", Json::Str(arg.var_type.clone())));
    }
    Json::Object(es)
}

/// Reports the arguments of a frame.
#[derive(Debug)]
pub struct GetFrameArgumentsTool;

impl GetFrameArgumentsTool {
    pub fn name(&self) -> (r: &'static str)
        ensures
            r@ == "get_frame_arguments"@,
    {
        "get_frame_arguments"
    }

    pub fn description(&self) -> (r: &'static str)
        ensures
            r@ == "Get function arguments (parameters) for current or specified frame"@,
    {
        "Get function arguments (parameters) for current or specified frame"
    }

    /// Describes `arguments` in the format `format`, with or without their
    /// types.
    pub fn format_arguments(arguments: &Vec<Variable>, format: &str, include_types: bool) -> (r:
        Json)
        ensures
            is_formatted_arguments(r, arguments@, format@, include_types),
    {
        let line_format = str_eq(format, "compact") || str_eq(format, "names_only") || str_eq(
            format,
            "types_only",
        );
        let mut items: Vec<Json> = Vec::new();
        let mut i: usize = 0;
        while i < arguments.len()
            invariant
                i <= arguments@.len(),
                line_format == is_line_format(format@),
                items@.len() == i,
                forall|k: int|
                    0 <= k < i ==> if is_line_format(format@) {
                        crate::json::is_text(
                            #[trigger] items@[k],
                            argument_line(arguments@[k], format@, include_types),
                        )
                    } else {
                        is_detailed_argument(items@[k], arguments@[k], include_types)
                    },
            decreases arguments@.len() - i,
        {
            if line_format {
                items.push(Json::Str(argument_line_of(&arguments[i], format, include_types)));
            } else {
                items.push(detailed_argument(&arguments[i], include_types));
            }
            i = i + 1;
        }
        Json::Array(items)
    }

    /// The frame (`frame_index`, the current one by default), the format
    /// (`format`, `detailed` by default) and whether types are included
    /// (`include_types`, true by default).
    pub fn options(&self, args: &Arguments) -> (r: (Option<u32>, String, bool))
        ensures
            r.0 == frame_index_arg(args@),
            r.1@ == match as_text(lookup(args@, "format"@)) {
                Some(t) => t,
                None => "detailed"@,
            },
            r.2 == match as_boolean(lookup(args@, "include_types"@)) {
                Some(b) => b,
                None => true,
            },
    {
        (
            read_frame_index(args),
            arg_str_or(args, "format", "detailed"),
            arg_bool_or(args, "include_types", true),
        )
    }

    /// The answer: the frame's arguments, described in the format.
    pub fn respond(
        &self,
        frame_index: Option<u32>,
        format: &str,
        include_types: bool,
        outcome: Result<Vec<Variable>, IncodeError>,
    ) -> (r: ToolResponse)
        ensures
            match outcome {
                Ok(list) => {
                    let index: u32 = match frame_index {
                        Some(i) => i,
                        None => 0,
                    };
                    let es = json_entries(r);
                    &&& is_json_object(r, 6)
                    &&& has_value(es, 0, "frame_index"@, Json::UInt(index as u64))
                    &&& has_value(es, 1, "argument_count"@, Json::UInt(list@.len() as u64))
                    &&& has_text(es, 2, "format"@, format@)
                    &&& has_value(es, 3, "include_types"@, Json::Bool(include_types))
                    &&& es[4].0@ == "arguments"@ && is_formatted_arguments(
                        es[4].1,
                        list@,
                        format@,
                        include_types,
                    )
                    &&& has_text(
                        es,
                        5,
                        "message"@,
                        "Found "@ + dec_str(list@.len()) + " arguments in frame "@ + dec_str(
                            index as nat,
                        ),
                    )
                },
                Err(e) => reports_error(r, e),
            },
    {
        match outcome {
            Ok(list) => {
                let index: u32 = match frame_index {
                    Some(i) => i,
                    None => 0,
                };
                let n = list.len();
                let mut msg = String::new();
                push_str(&mut msg, "Found ");
                push_dec(&mut msg, n as u64);
                push_str(&mut msg, " arguments in frame ");
                push_dec(&mut msg, index as u64);
                let mut es: Vec<(String, Json)> = Vec::new();
                es.push(entry("frame_index", Json::UInt(index as u64)));
                es.push(entry("argument_count", Json::UInt(n as u64)));
                es.push(entry("format", jstr(format)));
                es.push(entry("include_types", Json::Bool(include_types)));
                es.push(entry("arguments", Self::format_arguments(&list, format, include_types)));
                es.push(entry("message", Json::Str(msg)));
                ToolResponse::Json(Json::Object(es))
            },
            Err(e) => error_response(&e),
        }
    }
}

// ---------------------------------------------------------------------------
// evaluate_in_frame
// ---------------------------------------------------------------------------

/// The calls an expression evaluated in a frame may not make.
pub open spec fn unsafe_expression_patterns() -> Seq<Seq<char>> {
    seq![
        "system("@,
        "exec("@,
        "fork("@,
        "kill("@,
        "delete "@,
        "free("@,
        "malloc("@,
        "realloc("@,
        "memcpy("@,
        "memset("@,
        "strcpy("@,
        "exit("@,
        "abort("@,
        "_exit("@,
    ]
}

/// The JSON number for the integer `n`.
pub open spec fn int_json(n: int) -> Json {
    if n >= 0 {
        Json::UInt(n as u64)
    } else {
        Json::NegInt(n as i64)
    }
}

/// `v` is an object with a `type` and a `value`, the value a string.
pub open spec fn is_typed_text(v: Json, kind: Seq<char>, value: Seq<char>) -> bool {
    v matches Json::Object(es) && es@.len() == 2 && has_text(es@, 0, "type"@, kind) && has_text(
        es@,
        1,
        "value"@,
        value,
    )
}

/// `j` is the result text `result` in the format `format`.
///
/// `decimal` gives the number where the text reads as an `i64`; `hex` and
/// `binary` give the number where it reads as a `u64`, in that base; `hex`
/// and `pointer` otherwise put `0x` before a text that lacks it; `string`
/// drops the quotes around the text. Any other format tells pointers,
/// strings, integers and other expressions apart.
pub open spec fn is_formatted_result(j: Json, result: Seq<char>, format: Seq<char>) -> bool {
    let unsigned = parse_bounded(result, 10, u64::MAX as nat);
    let hexed = if has_prefix(result, "0x"@) {
        result
    } else {
        "0x"@ + result
    };
    if format == "decimal"@ {
        match parse_signed(result) {
            Some(n) => j == int_json(n),
            None => crate::json::is_text(j, result),
        }
    } else if format == "hex"@ {
        match unsigned {
            Some(n) => crate::json::is_text(j, hex_addr(n)),
            None => crate::json::is_text(j, hexed),
        }
    } else if format == "binary"@ {
        match unsigned {
            Some(n) => crate::json::is_text(j, "0b"@ + bin_str(n)),
            None => crate::json::is_text(j, result),
        }
    } else if format == "string"@ {
        crate::json::is_text(j, trim_char(result, '"'))
    } else if format == "pointer"@ {
        crate::json::is_text(j, hexed)
    } else if has_prefix(result, "0x"@) {
        is_typed_text(j, "pointer"@, result)
    } else if has_prefix(result, "\""@) && has_suffix(result, "\""@) {
        is_typed_text(j, "string"@, trim_char(result, '"'))
    } else {
        match parse_signed(result) {
            Some(n) => j matches Json::Object(es) && es@.len() == 3 && has_text(
                es@,
                0,
                "type"@,
                "integer"@,
            ) && has_value(es@, 1, "value"@, int_json(n)) && has_text(
                es@,
                2,
                "hex"@,
                hex_addr((n as u64) as nat),
            ),
            None => is_typed_text(j, "expression"@, result),
        }
    }
}

fn number_json(n: i64) -> (r: Json)
    ensures
        r == int_json(n as int),
{
    if n >= 0 {
        Json::UInt(n as u64)
    } else {
        Json::NegInt(n)
    }
}

fn typed_text(kind: &str, value: String) -> (r: Json)
    ensures
        is_typed_text(r, kind@, value@),
{
    let mut es: Vec<(String, Json)> = Vec::new();
    es.push(entry("type", jstr(kind)));
    es.push(entry("value", Json::Str(value)));
    Json::Object(es)
}

fn with_hex_prefix(result: &str) -> (r: String)
    ensures
        r@ == if has_prefix(result@, "0x"@) {
            result@
        } else {
            "0x"@ + result@
        },
{
    if str_starts_with(result, "0x") {
        result.to_owned()
    } else {
        let mut s = String::new();
        push_str(&mut s, "0x");
        push_str(&mut s, result);
        s
    }
}

/// A question asked of a frame.
#[derive(Debug)]
pub struct FrameExpression {
    pub expression: String,
    pub frame_index: Option<u32>,
    pub format: String,
    pub timeout_ms: u64,
}

/// Evaluates an expression in a frame.
#[derive(Debug)]
pub struct EvaluateInFrameTool;

impl EvaluateInFrameTool {
    pub fn name(&self) -> (r: &'static str)
        ensures
            r@ == "evaluate_in_frame"@,
    {
        "evaluate_in_frame"
    }

    pub fn description(&self) -> (r: &'static str)
        ensures
            r@ == "Evaluate C/C++ expressions in specific frame context with access to local variables"@,
    {
        "Evaluate C/C++ expressions in specific frame context with access to local variables"
    }

    /// Whether `expr` calls something that could harm the process or the
    /// system.
    pub fn is_unsafe_expression(expr: &str) -> (r: bool)
        ensures
            r == contains_any(expr@, unsafe_expression_patterns()),
    {
        let patterns: Vec<&str> = vec![
            "system(",
            "exec(",
            "fork(",
            "kill(",
            "delete ",
            "free(",
            "malloc(",
            "realloc(",
            "memcpy(",
            "memset(",
            "strcpy(",
            "exit(",
            "abort(",
            "_exit(",
        ];
        assert(patterns@.map_values(|p: &str| p@) =~= unsafe_expression_patterns());
        str_contains_any(expr, &patterns)
    }

    /// The result text `result` in the format `format`.
    pub fn format_result(result: &str, format: &str) -> (r: Json)
        ensures
            is_formatted_result(r, result@, format@),
    {
        proof {
            reveal_strlit("0x");
            reveal_strlit("\"");
        }
        if str_eq(format, "decimal") {
            match parse_i64(result) {
                Some(n) => number_json(n),
                None => jstr(result),
            }
        } else if str_eq(format, "hex") {
            match parse_unsigned_str(result, 10, u64::MAX) {
                Some(n) => Json::Str(address_text(n)),
                None => Json::Str(with_hex_prefix(result)),
            }
        } else if str_eq(format, "binary") {
            match parse_unsigned_str(result, 10, u64::MAX) {
                Some(n) => {
                    let mut s = String::new();
                    push_str(&mut s, "0b");
                    push_bin(&mut s, n);
                    Json::Str(s)
                },
                None => jstr(result),
            }
        } else if str_eq(format, "string") {
            Json::Str(trim_char_str(result, '"'))
        } else if str_eq(format, "pointer") {
            Json::Str(with_hex_prefix(result))
        } else if str_starts_with(result, "0x") {
            typed_text("pointer", result.to_owned())
        } else if str_starts_with(result, "\"") && str_ends_with(result, "\"") {
            typed_text("string", trim_char_str(result, '"'))
        } else {
            match parse_i64(result) {
                Some(n) => {
                    let mut es: Vec<(String, Json)> = Vec::new();
                    es.push(entry("type", jstr("integer")));
                    es.push(entry("value", number_json(n)));
                    es.push(entry("hex", Json::Str(address_text(n as u64))));
                    Json::Object(es)
                },
                None => typed_text("expression", result.to_owned()),
            }
        }
    }

    /// Reads the question: the expression (required), the frame
    /// (`frame_index`), the format (`format`, `auto` by default) and the
    /// time limit (`timeout_ms`, 5000 by default). An unsafe expression is
    /// answered at once.
    pub fn request(&self, args: &Arguments) -> (r: Result<Result<FrameExpression, ToolResponse>, IncodeError>)
        ensures
            match as_text(lookup(args@, "expression"@)) {
                None => r matches Err(IncodeError::McpProtocol(m)) && m@
                    == "Missing expression parameter"@,
                Some(e) => if contains_any(e, unsafe_expression_patterns()) {
                    r matches Ok(Err(resp)) && is_failure(resp, "Unsafe expression detected: "@ + e)
                } else {
                    r matches Ok(Ok(q)) && q.expression@ == e && q.frame_index == frame_index_arg(
                        args@,
                    ) && q.format@ == match as_text(lookup(args@, "format"@)) {
                        Some(t) => t,
                        None => "auto"@,
                    } && q.timeout_ms == match as_uint(lookup(args@, "timeout_ms"@)) {
                        Some(n) => n,
                        None => 5000,
                    }
                },
            },
    {
        let expression = match arg_str(args, "expression") {
            Some(e) => e,
            None => {
                return Err(IncodeError::mcp("Missing expression parameter"));
            },
        };
        let frame_index = read_frame_index(args);
        let format = arg_str_or(args, "format", "auto");
        let timeout_ms = arg_u64_or(args, "timeout_ms", 5000);
        if Self::is_unsafe_expression(expression.as_str()) {
            let mut msg = String::new();
            push_str(&mut msg, "Unsafe expression detected: ");
            push_str(&mut msg, expression.as_str());
            return Ok(Err(ToolResponse::Error(msg)));
        }
        Ok(Ok(FrameExpression { expression, frame_index, format, timeout_ms }))
    }

    /// The answer: the raw and formatted result of evaluating `q`.
    pub fn respond(&self, q: &FrameExpression, outcome: Result<String, IncodeError>) -> (r:
        ToolResponse)
        ensures
            match outcome {
                Ok(raw) => {
                    let index: u32 = match q.frame_index {
                        Some(i) => i,
                        None => 0,
                    };
                    let es = json_entries(r);
                    &&& is_json_object(r, 8)
                    &&& has_text(es, 0, "expression"@, q.expression@)
                    &&& has_value(es, 1, "frame_index"@, Json::UInt(index as u64))
                    &&& has_text(es, 2, "raw_result"@, raw@)
                    &&& es[3].0@ == "formatted_result"@ && is_formatted_result(
                        es[3].1,
                        raw@,
                        q.format@,
                    )
                    &&& has_text(es, 4, "format"@, q.format@)
                    &&& has_value(es, 5, "timeout_ms"@, Json::UInt(q.timeout_ms))
                    &&& has_value(es, 6, "success"@, Json::Bool(true))
                    &&& has_text(
                        es,
                        7,
                        "message"@,
                        "Expression '"@ + q.expression@ + "' evaluated in frame "@ + dec_str(
                            index as nat,
                        ),
                    )
                },
                Err(e) => reports_error(r, e),
            },
    {
        match outcome {
            Ok(raw) => {
                let index: u32 = match q.frame_index {
                    Some(i) => i,
                    None => 0,
                };
                let formatted = Self::format_result(raw.as_str(), q.format.as_str());
                let mut msg = String::new();
                push_str(&mut msg, "Expression '");
                push_str(&mut msg, q.expression.as_str());
                push_str(&mut msg, "' evaluated in frame ");
                push_dec(&mut msg, index as u64);
                let mut es: Vec<(String, Json)> = Vec::new();
                es.push(entry("expression", Json::Str(q.expression.clone())));
                es.push(entry("frame_index", Json::UInt(index as u64)));
                es.push(entry("raw_result", Json::Str(raw)));
                es.push(entry("formatted_result", formatted));
                es.push(entry("format", Json::Str(q.format.clone())));
                es.push(entry("timeout_ms", Json::UInt(q.timeout_ms)));
                es.push(entry("success", Json::Bool(true)));
                es.push(entry("message", Json::Str(msg)));
                ToolResponse::Json(Json::Object(es))
            },
            Err(e) => error_response(&e),
        }
    }
}

/// A stand-in for the stack tools.
#[derive(Debug)]
pub struct PlaceholderTool;

impl PlaceholderTool {
    pub fn name(&self) -> (r: &'static str)
        ensures
            r@ == "stack_placeholder"@,
    {
        "stack_placeholder"
    }

    pub fn description(&self) -> (r: &'static str)
        ensures
            r@ == "Stack analysis placeholder - use specific stack tools instead"@,
    {
        "Stack analysis placeholder - use specific stack tools instead"
    }

    /// The answer, whatever the arguments: use the stack tools.
    pub fn execute(&self, args: &Arguments) -> (r: ToolResponse)
        ensures
            is_failure(r, "Use specific stack analysis tools like get_backtrace instead"@),
    {
        failure("Use specific stack analysis tools like get_backtrace instead")
    }
}

} // verus!
