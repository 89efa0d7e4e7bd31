//! Tools that show source code, list functions, map addresses to lines
//! and summarize the target's debug information.
//!
//! Each operation reads its arguments, asks the debugger and answers with
//! a JSON value that reports success or failure in its `success` field.

use vstd::prelude::*;
use crate::error::IncodeError;
use crate::json::{
    arg_bool_or, arg_str, arg_u64_or, as_text, as_uint, entry, is_opt_text_value, is_opt_uint_value,
    field, jopt_str, jopt_u64, lemma_lookup_at, lookup, opt_view, text_field, Arguments, Json,
};
use crate::lldb_manager::symbols::{
    functions_of, is_resolved_location, is_source_listing, lines_text, listed_symbols, source_path, symbol_total, RawLineEntry, RawLineInfo,
    RawSymbol,
};
use crate::lldb_manager::{
    CompilationUnit, DebugInfo, FunctionInfo, LldbManager, SourceCode, SourceLine, SourceLocation,
};
use crate::text::{
    chars_of, dec_str, has_substr, hex_addr, hex_address, push_dec, push_str, str_contains, str_eq,
    string_of_range,
};
use crate::tools::register_inspection::{is_keyed_failure, is_opt_u32_value};

use crate::tools::{
    flag_arg, flexible_u64, has_text, has_value, lowercase_of, read_flexible_u64, to_lowercase,
};

verus! {

broadcast use vstd::string::group_string_axioms;

/// `v` is the optional address `a` in hexadecimal, `null` when absent.
pub open spec fn is_opt_hex(v: Json, a: Option<u64>) -> bool {
    match a {
        Some(x) => crate::json::is_text(v, hex_addr(x as nat)),
        None => v == Json::Null,
    }
}

fn opt_hex(a: Option<u64>) -> (v: Json)
    ensures
        is_opt_hex(v, a),
{
    match a {
        Some(x) => Json::Str(hex_address(x)),
        None => Json::Null,
    }
}

fn jopt_u32(n: Option<u32>) -> (v: Json)
    ensures
        is_opt_u32_value(v, n),
{
    match n {
        Some(x) => Json::UInt(x as u64),
        None => Json::Null,
    }
}

// ---------------------------------------------------------------------------
// get_source_code
// ---------------------------------------------------------------------------

/// `v` describes the source line `l`, with its address where asked.
pub open spec fn is_source_line_json(v: Json, l: SourceLine, include_addresses: bool) -> bool {
    v matches Json::Object(es) && {
        let es = es@;
        &&& es.len() == if include_addresses {
            5int
        } else {
            4int
        }
        &&& has_value(es, 0, "line_number"@, Json::UInt(l.line_number as u64))
        &&& has_text(es, 1, "content"@, l.content@)
        &&& has_value(es, 2, "is_current"@, Json::Bool(l.is_current))
        &&& has_value(es, 3, "has_breakpoint"@, Json::Bool(l.has_breakpoint))
        &&& include_addresses ==> es[4].0@ == "address"@ && is_opt_hex(es[4].1, l.address)
    }
}

/// `j` reports the source listing `code`, read with `context_lines` lines
/// of context for the address `address` where one was asked for.
pub open spec fn is_source_report(
    j: Json,
    code: SourceCode,
    include_addresses: bool,
    context_lines: u32,
    address: Option<u64>,
) -> bool {
    j matches Json::Object(es) && {
        let es = es@;
        &&& es.len() == 3
        &&& has_value(es, 0, "success"@, Json::Bool(true))
        &&& es[1].0@ == "source_code"@
        &&& (es[1].1 matches Json::Object(sc) && {
            let sc = sc@;
            &&& sc.len() == 7
            &&& has_text(sc, 0, "file_path"@, code.file_path@)
            &&& sc[1].0@ == "lines"@
            &&& (sc[1].1 matches Json::Array(ls) && ls@.len() == code.lines@.len() && forall|i: int|
                0 <= i < ls@.len() ==> is_source_line_json(
                    #[trigger] ls@[i],
                    code.lines@[i],
                    include_addresses,
                ))
            &&& has_value(sc, 2, "start_line"@, Json::UInt(code.start_line as u64))
            &&& has_value(sc, 3, "end_line"@, Json::UInt(code.end_line as u64))
            &&& sc[4].0@ == "current_line"@ && is_opt_u32_value(sc[4].1, code.current_line)
            &&& sc[5].0@ == "total_lines"@ && is_opt_u32_value(sc[5].1, code.total_lines)
            &&& has_value(sc, 6, "context_lines"@, Json::UInt(context_lines as u64))
        })
        &&& es[2].0@ == "metadata"@
        &&& (es[2].1 matches Json::Object(md) && {
            let md = md@;
            &&& md.len() == 3
            &&& md[0].0@ == "address_requested"@ && is_opt_hex(md[0].1, address)
            &&& has_value(md, 1, "lines_returned"@, Json::UInt(code.lines@.len() as u64))
            &&& has_value(md, 2, "has_current_location"@, Json::Bool(code.current_line is Some))
        })
    }
}

/// `j` reports a failure with the message `msg`, naming `v` under `key`.
pub open spec fn is_failure_naming(j: Json, msg: Seq<char>, key: Seq<char>, v: Json) -> bool {
    j matches Json::Object(es) && {
        let es = es@;
        &&& es.len() == 3
        &&& has_value(es, 0, "success"@, Json::Bool(false))
        &&& has_text(es, 1, "error"@, msg)
        &&& has_value(es, 2, key, v)
    }
}

fn failure_naming(msg: String, key: &str, v: Json) -> (j: Json)
    ensures
        is_failure_naming(j, msg@, key@, v),
{
    let mut es: Vec<(String, Json)> = Vec::new();
    es.push(entry("success", Json::Bool(false)));
    es.push(entry("error", Json::Str(msg)));
    es.push(entry(key, v));
    Json::Object(es)
}

fn source_line_json(l: &SourceLine, include_addresses: bool) -> (v: Json)
    ensures
        is_source_line_json(v, *l, include_addresses),
{
    let mut es: Vec<(String, Json)> = Vec::new();
    es.push(entry("line_number", Json::UInt(l.line_number as u64)));
    es.push(entry("content", Json::Str(l.content.clone())));
    es.push(entry("is_current", Json::Bool(l.is_current)));
    es.push(entry("has_breakpoint", Json::Bool(l.has_breakpoint)));
    if include_addresses {
        es.push(entry("address", opt_hex(l.address)));
    }
    Json::Object(es)
}

/// Reports the source listing `code`.
pub fn source_report(code: &SourceCode, include_addresses: bool, context_lines: u32, address: Option<
    u64,
>) -> (j: Json)
    ensures
        is_source_report(j, *code, include_addresses, context_lines, address),
{
    let mut ls: Vec<Json> = Vec::new();
    let mut i: usize = 0;
    while i < code.lines.len()
        invariant
            i <= code.lines@.len(),
            ls@.len() == i,
            forall|k: int|
                0 <= k < i ==> is_source_line_json(
                    #[trigger] ls@[k],
                    code.lines@[k],
                    include_addresses,
                ),
        decreases code.lines@.len() - i,
    {
        ls.push(source_line_json(&code.lines[i], include_addresses));
        i = i + 1;
    }
    let mut sc: Vec<(String, Json)> = Vec::new();
    sc.push(entry("file_path", Json::Str(code.file_path.clone())));
    sc.push(entry("lines", Json::Array(ls)));
    sc.push(entry("start_line", Json::UInt(code.start_line as u64)));
    sc.push(entry("end_line", Json::UInt(code.end_line as u64)));
    sc.push(entry("current_line", jopt_u32(code.current_line)));
    sc.push(entry("total_lines", jopt_u32(code.total_lines)));
    sc.push(entry("context_lines", Json::UInt(context_lines as u64)));
    let mut md: Vec<(String, Json)> = Vec::new();
    md.push(entry("address_requested", opt_hex(address)));
    md.push(entry("lines_returned", Json::UInt(code.lines.len() as u64)));
    md.push(entry("has_current_location", Json::Bool(code.current_line.is_some())));
    let mut es: Vec<(String, Json)> = Vec::new();
    es.push(entry("success", Json::Bool(true)));
    es.push(entry("source_code", Json::Object(sc)));
    es.push(entry("metadata", Json::Object(md)));
    Json::Object(es)
}

/// The number of context lines asked for: `context_lines` cut to 32 bits,
/// 5 by default.
pub open spec fn context_lines_arg(args: Seq<(String, Json)>) -> u32 {
    match as_uint(lookup(args, "context_lines"@)) {
        Some(n) => n as u32,
        None => 5,
    }
}

/// The message of the error that reading the source fails with, where it
/// fails: no thread selected, no frame, no line entry or no file.
pub open spec fn source_failure(
    m: LldbManager,
    frame_valid: bool,
    line_entry: Option<RawLineEntry>,
) -> Option<Seq<char>> {
    if !m.thread_selected() {
        Some("Thread operation failed: "@ + "No current thread selected"@)
    } else if !frame_valid {
        Some("Frame operation failed: "@ + "No current frame available"@)
    } else if line_entry is None {
        Some("Frame operation failed: "@ + "No line information available"@)
    } else if line_entry->0.file is None {
        Some("Frame operation failed: "@ + "No file information available"@)
    } else {
        None
    }
}

/// Shows the source around the selected frame, once the host has looked
/// the frame up (`frame_valid`) and read its line entry (`line_entry`),
/// with line addresses where `include_addresses` asks for them.
pub fn get_source_code(
    lldb_manager: &LldbManager,
    arguments: &Arguments,
    frame_valid: bool,
    line_entry: Option<RawLineEntry>,
    file_lines: Option<Vec<String>>,
) -> (r: Result<Json, IncodeError>)
    requires
        file_lines matches Some(ls) ==> ls@.len() <= u32::MAX,
    ensures
        r matches Ok(j) && {
            let address = flexible_u64(lookup(arguments@, "address"@));
            match source_failure(*lldb_manager, frame_valid, line_entry) {
                Some(msg) => j matches Json::Object(es) && es@.len() == 3 && has_value(
                    es@,
                    0,
                    "success"@,
                    Json::Bool(false),
                ) && has_text(es@, 1, "error"@, msg) && es@[2].0@ == "address"@ && is_opt_hex(
                    es@[2].1,
                    address,
                ),
                None => exists|code: SourceCode|
                    #[trigger] is_source_listing(
                        code,
                        source_path(line_entry->0.file->0),
                        line_entry->0.line,
                        context_lines_arg(arguments@),
                        lines_text(file_lines),
                    ) && is_source_report(
                        j,
                        code,
                        flag_arg(arguments@, "include_addresses"@, false),
                        context_lines_arg(arguments@),
                        address,
                    ),
            }
        },
{
    let address = read_flexible_u64(arguments, "address");
    let context_lines = #[verifier::truncate] (arg_u64_or(arguments, "context_lines", 5) as u32);
    let include_addresses = arg_bool_or(arguments, "include_addresses", false);
    let ghost entry_view = line_entry;
    proof {
        reveal_strlit("No current thread selected");
        reveal_strlit("No current frame available");
        reveal_strlit("No line information available");
        reveal_strlit("No file information available");
    }
    let ghost text = lines_text(file_lines);
    assert(context_lines == context_lines_arg(arguments@));
    match lldb_manager.get_source_code(address, context_lines, frame_valid, line_entry, file_lines) {
        Ok(code) => {
            let j = source_report(&code, include_addresses, context_lines, address);
            assert(is_source_listing(
                code,
                source_path(entry_view->0.file->0),
                entry_view->0.line,
                context_lines,
                text,
            ));
            Ok(j)
        },
        Err(e) => {
            let mut es: Vec<(String, Json)> = Vec::new();
            es.push(entry("success", Json::Bool(false)));
            es.push(entry("error", Json::Str(e.message())));
            es.push(entry("address", opt_hex(address)));
            Ok(Json::Object(es))
        },
    }
}

// ---------------------------------------------------------------------------
// list_functions
// ---------------------------------------------------------------------------

/// `v` describes function `f`, with its addresses and its source position
/// where asked.
pub open spec fn is_function_json(v: Json, f: FunctionInfo, addresses: bool, source: bool) -> bool {
    v matches Json::Object(es) && {
        let es = es@;
        let at: int = if addresses {
            7
        } else {
            4
        };
        &&& es.len() == at + if source {
            2int
        } else {
            0int
        }
        &&& has_text(es, 0, "name"@, f.name@)
        &&& es[1].0@ == "mangled_name"@ && is_opt_text_value(es[1].1, opt_view(f.mangled_name))
        &&& has_value(es, 2, "is_inline"@, Json::Bool(f.is_inline))
        &&& es[3].0@ == "return_type"@ && is_opt_text_value(es[3].1, opt_view(f.return_type))
        &&& addresses ==> {
            &&& has_text(es, 4, "start_address"@, hex_addr(f.start_address as nat))
            &&& es[5].0@ == "end_address"@ && is_opt_hex(es[5].1, f.end_address)
            &&& es[6].0@ == "size"@ && is_opt_uint_value(es[6].1, f.size)
        }
        &&& source ==> {
            &&& es[at].0@ == "file_path"@ && is_opt_text_value(es[at].1, opt_view(f.file_path))
            &&& es[at + 1].0@ == "line_number"@ && is_opt_u32_value(es[at + 1].1, f.line_number)
        }
    }
}

/// A function passes the name filter: its lowercase name contains the
/// lowercase filter, where one is given.
pub open spec fn function_passes(f: FunctionInfo, filter: Option<Seq<char>>) -> bool {
    match filter {
        Some(n) => has_substr(lowercase_of(f.name@), lowercase_of(n)),
        None => true,
    }
}

/// The functions of `fns` that pass the name filter, in their order.
pub open spec fn filtered_functions(fns: Seq<FunctionInfo>, filter: Option<Seq<char>>) -> Seq<
    FunctionInfo,
> {
    fns.filter(|f: FunctionInfo| function_passes(f, filter))
}

/// `j` lists the functions of `fns` that pass the name filter.
pub open spec fn is_function_list(
    j: Json,
    fns: Seq<FunctionInfo>,
    module_filter: Option<Seq<char>>,
    name_filter: Option<Seq<char>>,
    addresses: bool,
    source: bool,
) -> bool {
    let sel = filtered_functions(fns, name_filter);
    j matches Json::Object(es) && {
        let es = es@;
        &&& es.len() == 5
        &&& has_value(es, 0, "success"@, Json::Bool(true))
        &&& es[1].0@ == "functions"@
        &&& (es[1].1 matches Json::Array(items) && items@.len() == sel.len() && forall|i: int|
            0 <= i < sel.len() ==> is_function_json(#[trigger] items@[i], sel[i], addresses, source))
        &&& has_value(es, 2, "total_count"@, Json::UInt(sel.len() as u64))
        &&& es[3].0@ == "filters_applied"@ && (es[3].1 matches Json::Object(fs) && fs@.len() == 2
            && fs@[0].0@ == "module_filter"@ && is_opt_text_value(fs@[0].1, module_filter)
            && fs@[1].0@ == "name_filter"@ && is_opt_text_value(fs@[1].1, name_filter))
        &&& es[4].0@ == "metadata"@ && (es[4].1 matches Json::Object(md) && md@.len() == 2
            && has_value(md@, 0, "include_addresses"@, Json::Bool(addresses)) && has_value(
            md@,
            1,
            "include_source_info"@,
            Json::Bool(source),
        ))
    }
}

fn function_json(f: &FunctionInfo, addresses: bool, source: bool) -> (v: Json)
    ensures
        is_function_json(v, *f, addresses, source),
{
    let mut es: Vec<(String, Json)> = Vec::new();
    es.push(entry("name", Json::Str(f.name.clone())));
    es.push(entry("mangled_name", jopt_str(&f.mangled_name)));
    es.push(entry("is_inline", Json::Bool(f.is_inline)));
    es.push(entry("return_type", jopt_str(&f.return_type)));
    if addresses {
        es.push(entry("start_address", Json::Str(hex_address(f.start_address))));
        es.push(entry("end_address", opt_hex(f.end_address)));
        es.push(entry("size", jopt_u64(f.size)));
    }
    if source {
        es.push(entry("file_path", jopt_str(&f.file_path)));
        es.push(entry("line_number", jopt_u32(f.line_number)));
    }
    Json::Object(es)
}

/// Lists the functions of `fns` whose name contains `name_filter` (letter
/// case aside), where one is given.
pub fn function_list(
    fns: &Vec<FunctionInfo>,
    module_filter: &Option<String>,
    name_filter: &Option<String>,
    addresses: bool,
    source: bool,
) -> (j: Json)
    ensures
        is_function_list(
            j,
            fns@,
            opt_view(*module_filter),
            opt_view(*name_filter),
            addresses,
            source,
        ),
{
    let ghost nf = opt_view(*name_filter);
    let ghost p = |f: FunctionInfo| function_passes(f, nf);
    let lowered_filter = match name_filter {
        Some(s) => Some(to_lowercase(s.as_str())),
        None => None,
    };
    let mut items: Vec<Json> = Vec::new();
    let mut i: usize = 0;
    assert(fns@.take(0) =~= Seq::<FunctionInfo>::empty());
    proof {
        reveal(Seq::filter);
    }
    while i < fns.len()
        invariant
            i <= fns@.len(),
            nf == opt_view(*name_filter),
            p == (|f: FunctionInfo| function_passes(f, nf)),
            match name_filter {
                Some(s) => lowered_filter matches Some(l) && l@ == lowercase_of(s@),
                None => lowered_filter is None,
            },
            items@.len() == fns@.take(i as int).filter(p).len(),
            forall|k: int|
                0 <= k < items@.len() ==> is_function_json(
                    #[trigger] items@[k],
                    fns@.take(i as int).filter(p)[k],
                    addresses,
                    source,
                ),
        decreases fns@.len() - i,
    {
        proof {
            reveal(Seq::filter);
        }
        assert(fns@.take(i + 1).drop_last() =~= fns@.take(i as int));
        assert(fns@.take(i + 1).last() == fns@[i as int]);
        let passes = match &lowered_filter {
            Some(l) => {
                let name = to_lowercase(fns[i].name.as_str());
                str_contains(name.as_str(), l.as_str())
            },
            None => true,
        };
        if passes {
            items.push(function_json(&fns[i], addresses, source));
        }
        i = i + 1;
    }
    assert(fns@.take(i as int) =~= fns@);
    let n = items.len();
    let mut fs: Vec<(String, Json)> = Vec::new();
    fs.push(entry("module_filter", jopt_str(module_filter)));
    fs.push(entry("name_filter", jopt_str(name_filter)));
    let mut md: Vec<(String, Json)> = Vec::new();
    md.push(entry("include_addresses", Json::Bool(addresses)));
    md.push(entry("include_source_info", Json::Bool(source)));
    let mut es: Vec<(String, Json)> = Vec::new();
    es.push(entry("success", Json::Bool(true)));
    es.push(entry("functions", Json::Array(items)));
    es.push(entry("total_count", Json::UInt(n as u64)));
    es.push(entry("filters_applied", Json::Object(fs)));
    es.push(entry("metadata", Json::Object(md)));
    Json::Object(es)
}

/// Lists the functions of the target's modules, as the debugger reports
/// their symbols in `modules`, whose name contains `name_filter` (letter
/// case aside), with their addresses unless `include_addresses` is false
/// and their source position where `include_source_info` asks for it.
pub fn list_functions(
    lldb_manager: &LldbManager,
    arguments: &Arguments,
    modules: &Vec<Option<Vec<RawSymbol>>>,
) -> (r: Result<Json, IncodeError>)
    ensures
        r matches Ok(j) && if lldb_manager.target_selected() {
            is_function_list(
                j,
                functions_of(listed_symbols(modules@)),
                as_text(lookup(arguments@, "module_filter"@)),
                as_text(lookup(arguments@, "name_filter"@)),
                flag_arg(arguments@, "include_addresses"@, true),
                flag_arg(arguments@, "include_source_info"@, false),
            )
        } else {
            j matches Json::Object(es) && es@.len() == 3 && has_value(
                es@,
                0,
                "success"@,
                Json::Bool(false),
            ) && has_text(
                es@,
                1,
                "error"@,
                "Process not found or not debuggable: "@ + "No target available"@,
            ) && es@[2].0@ == "functions"@ && (es@[2].1 matches Json::Array(a) && a@.len() == 0)
        },
{
    let module_filter = arg_str(arguments, "module_filter");
    let name_filter = arg_str(arguments, "name_filter");
    let include_addresses = arg_bool_or(arguments, "include_addresses", true);
    let include_source_info = arg_bool_or(arguments, "include_source_info", false);
    let filter_text: Option<&str> = match &module_filter {
        Some(m) => Some(m.as_str()),
        None => None,
    };
    proof {
        reveal_strlit("No target available");
    }
    match lldb_manager.list_functions(filter_text, modules) {
        Ok(fns) => Ok(
            function_list(&fns, &module_filter, &name_filter, include_addresses, include_source_info),
        ),
        Err(e) => {
            let mut es: Vec<(String, Json)> = Vec::new();
            es.push(entry("success", Json::Bool(false)));
            es.push(entry("error", Json::Str(e.message())));
            es.push(entry("functions", Json::Array(Vec::new())));
            Ok(Json::Object(es))
        },
    }
}

// ---------------------------------------------------------------------------
// get_line_info
// ---------------------------------------------------------------------------

/// `k` is the position of the last `/` of `s`.
pub open spec fn is_last_slash(s: Seq<char>, k: int) -> bool {
    &&& 0 <= k < s.len()
    &&& s[k] == '/'
    &&& forall|j: int| k < j < s.len() ==> s[j] != '/'
}

/// `basename` and `directory` are the parts of the path `path` after and
/// before its last `/`; a path without one is all name, with an empty
/// directory.
pub open spec fn splits_path(path: Seq<char>, basename: Seq<char>, directory: Seq<char>) -> bool {
    &&& (forall|j: int| 0 <= j < path.len() ==> path[j] != '/') ==> basename == path
        && directory.len() == 0
    &&& forall|k: int|
        is_last_slash(path, k) ==> basename == path.subrange(k + 1, path.len() as int)
            && directory == path.subrange(0, k)
}

/// `j` reports the source location `loc`.
pub open spec fn is_line_report(j: Json, loc: SourceLocation) -> bool {
    j matches Json::Object(es) && {
        let es = es@;
        &&& es.len() == 3
        &&& has_value(es, 0, "success"@, Json::Bool(true))
        &&& es[1].0@ == "line_info"@
        &&& (es[1].1 matches Json::Object(li) && {
            let li = li@;
            &&& li.len() == 6
            &&& has_text(li, 0, "address"@, hex_addr(loc.address as nat))
            &&& has_text(li, 1, "file_path"@, loc.file_path@)
            &&& has_value(li, 2, "line_number"@, Json::UInt(loc.line_number as u64))
            &&& li[3].0@ == "column"@ && is_opt_u32_value(li[3].1, loc.column)
            &&& li[4].0@ == "function_name"@ && is_opt_text_value(
                li[4].1,
                opt_view(loc.function_name),
            )
            &&& has_value(li, 5, "is_valid"@, Json::Bool(loc.is_valid))
        })
        &&& es[2].0@ == "source_location"@
        &&& (es[2].1 matches Json::Object(sl) && {
            let sl = sl@;
            &&& sl.len() == 3
            &&& sl[0].0@ == "basename"@ && sl[1].0@ == "directory"@
            &&& (sl[0].1 matches Json::Str(b) && sl[1].1 matches Json::Str(d) && splits_path(
                loc.file_path@,
                b@,
                d@,
            ))
            &&& has_text(
                sl,
                2,
                "location_string"@,
                loc.file_path@ + ":"@ + dec_str(loc.line_number as nat),
            )
        })
    }
}

fn last_slash(v: &Vec<char>) -> (r: Option<usize>)
    ensures
        match r {
            Some(k) => is_last_slash(v@, k as int),
            None => forall|j: int| 0 <= j < v@.len() ==> v@[j] != '/',
        },
{
    let mut i: usize = v.len();
    while i > 0
        invariant
            i <= v@.len(),
            forall|j: int| i <= j < v@.len() ==> v@[j] != '/',
        decreases i,
    {
        if v[i - 1] == '/' {
            return Some(i - 1);
        }
        i = i - 1;
    }
    None
}

/// Reports the source location `loc`: where it is, and its path split into
/// directory and name.
pub fn line_report(loc: &SourceLocation) -> (j: Json)
    ensures
        is_line_report(j, *loc),
{
    let v = chars_of(loc.file_path.as_str());
    let slash = last_slash(&v);
    let (basename, directory) = match slash {
        Some(k) => (string_of_range(&v, k + 1, v.len()), string_of_range(&v, 0, k)),
        None => (loc.file_path.clone(), String::new()),
    };
    proof {
        assert forall|k: int| is_last_slash(v@, k) implies basename@ == v@.subrange(
            k + 1,
            v@.len() as int,
        ) && directory@ == v@.subrange(0, k) by {
            let m = slash->0 as int;
            if k < m {
                assert(v@[m] == '/');
            } else if k > m {
                assert(v@[k] == '/');
            }
        }
    }
    let mut loc_text = loc.file_path.clone();
    push_str(&mut loc_text, ":");
    push_dec(&mut loc_text, loc.line_number as u64);
    let mut li: Vec<(String, Json)> = Vec::new();
    li.push(entry("address", Json::Str(hex_address(loc.address))));
    li.push(entry("file_path", Json::Str(loc.file_path.clone())));
    li.push(entry("line_number", Json::UInt(loc.line_number as u64)));
    li.push(entry("column", jopt_u32(loc.column)));
    li.push(entry("function_name", jopt_str(&loc.function_name)));
    li.push(entry("is_valid", Json::Bool(loc.is_valid)));
    let mut sl: Vec<(String, Json)> = Vec::new();
    sl.push(entry("basename", Json::Str(basename)));
    sl.push(entry("directory", Json::Str(directory)));
    sl.push(entry("location_string", Json::Str(loc_text)));
    let mut es: Vec<(String, Json)> = Vec::new();
    es.push(entry("success", Json::Bool(true)));
    es.push(entry("line_info", Json::Object(li)));
    es.push(entry("source_location", Json::Object(sl)));
    Json::Object(es)
}

/// Maps the address `address` (required, a number or a hexadecimal or
/// decimal text) to its source line, given where the engine placed that
/// address (`resolved`); where it found no line, the answer reports that
/// failure.
pub fn get_line_info(lldb_manager: &LldbManager, arguments: &Arguments, resolved: Option<RawLineInfo>) -> (r: Result<
    Json,
    IncodeError,
>)
    ensures
        match flexible_u64(lookup(arguments@, "address"@)) {
            None => r matches Err(IncodeError::Configuration(m)) && m@
                == "address is required and must be a number or hex string"@,
            Some(a) => r matches Ok(j) && match resolved {
                None => is_keyed_failure(
                    j,
                    "LLDB operation failed: "@ + ("No line information for address "@ + hex_addr(
                        a as nat,
                    )),
                    "address"@,
                    hex_addr(a as nat),
                ),
                Some(l) => exists|loc: SourceLocation|
                    #[trigger] is_resolved_location(loc, a, l) && is_line_report(j, loc),
            },
        },
{
    let address = match read_flexible_u64(arguments, "address") {
        Some(a) => a,
        None => {
            return Err(
                IncodeError::invalid_parameter(
                    "address is required and must be a number or hex string",
                ),
            );
        },
    };
    let ghost given = resolved;
    match lldb_manager.get_line_info(address, resolved) {
        Ok(loc) => {
            let j = line_report(&loc);
            proof {
                if let Some(l) = given {
                    assert(is_resolved_location(loc, address, l));
                }
            }
            Ok(j)
        },
        Err(e) => Ok(failure_naming(e.message(), "address", Json::Str(hex_address(address)))),
    }
}

// ---------------------------------------------------------------------------
// get_debug_info
// ---------------------------------------------------------------------------

/// The size of the address range of a compilation unit, its high address
/// less its low one, wrapping around below zero.
pub open spec fn unit_span(cu: CompilationUnit) -> u64 {
    vstd::wrapping::u64_specs::wrapping_sub(cu.high_pc, cu.low_pc)
}

/// The total size of the address ranges of `cus`, added as 64-bit sizes
/// that wrap around.
pub open spec fn address_space(cus: Seq<CompilationUnit>) -> u64
    decreases cus.len(),
{
    if cus.len() == 0 {
        0
    } else {
        vstd::wrapping::u64_specs::wrapping_add(address_space(cus.drop_last()), unit_span(cus.last()))
    }
}

/// The languages of `cus`, each once, in the order they first occur.
pub open spec fn languages(cus: Seq<CompilationUnit>) -> Seq<Seq<char>>
    decreases cus.len(),
{
    if cus.len() == 0 {
        Seq::empty()
    } else {
        let before = languages(cus.drop_last());
        match cus.last().language {
            Some(l) => if before.contains(l@) {
                before
            } else {
                before.push(l@)
            },
            None => before,
        }
    }
}

/// `v` describes the compilation unit `cu`.
pub open spec fn is_unit_json(v: Json, cu: CompilationUnit) -> bool {
    v matches Json::Object(es) && {
        let es = es@;
        &&& es.len() == 7
        &&& has_text(es, 0, "file_path"@, cu.file_path@)
        &&& es[1].0@ == "producer"@ && is_opt_text_value(es[1].1, opt_view(cu.producer))
        &&& es[2].0@ == "language"@ && is_opt_text_value(es[2].1, opt_view(cu.language))
        &&& has_text(es, 3, "low_pc"@, hex_addr(cu.low_pc as nat))
        &&& has_text(es, 4, "high_pc"@, hex_addr(cu.high_pc as nat))
        &&& has_value(es, 5, "line_count"@, Json::UInt(cu.line_count as u64))
        &&& has_value(es, 6, "address_range_size"@, Json::UInt(unit_span(cu)))
    }
}

/// The average number of symbols per compilation unit: the symbol count
/// divided by the number of units taken as a 32-bit number, zero without
/// units.
pub open spec fn symbols_per_unit(info: DebugInfo) -> u32 {
    let n = info.compilation_units@.len();
    if n > 0 {
        (info.symbol_count / ((n % 0x1_0000_0000) as u32)) as u32
    } else {
        0
    }
}

/// The number of compilation units of `info`, taken as a 32-bit number,
/// is not zero unless there are none (the average is taken by it).
pub open spec fn unit_count_divides(info: DebugInfo) -> bool {
    info.compilation_units@.len() == 0 || info.compilation_units@.len() % 0x1_0000_0000 != 0
}

/// `v` holds the statistics of `info`: the total size of the address
/// ranges, the average number of symbols per unit, the languages found and
/// whether there are line tables.
pub open spec fn is_debug_stats(v: Json, info: DebugInfo) -> bool {
    let cus = info.compilation_units@;
    v matches Json::Object(es) && {
        let es = es@;
        &&& es.len() == 4
        &&& has_value(es, 0, "total_address_space"@, Json::UInt(address_space(cus)))
        &&& has_value(es, 1, "average_symbols_per_unit"@, Json::UInt(symbols_per_unit(info) as u64))
        &&& es[2].0@ == "languages_detected"@ && crate::json::is_text_array(es[2].1, languages(cus))
        &&& has_value(es, 3, "has_line_tables"@, Json::Bool(info.line_table_count > 0))
    }
}

/// `j` reports the debug information `info`, with its compilation units
/// and its statistics where asked.
pub open spec fn is_debug_report(j: Json, info: DebugInfo, units: bool, stats: bool) -> bool {
    let cus = info.compilation_units@;
    j matches Json::Object(es) && {
        let es = es@;
        &&& es.len() == 2
        &&& has_value(es, 0, "success"@, Json::Bool(true))
        &&& es[1].0@ == "debug_info"@
        &&& es[1].1 matches Json::Object(di) && {
            let di = di@;
            let at: int = if units {
                7
            } else {
                6
            };
            &&& di.len() == at + if stats {
                1int
            } else {
                0int
            }
            &&& has_value(di, 0, "has_debug_symbols"@, Json::Bool(info.has_debug_symbols))
            &&& has_text(di, 1, "debug_format"@, info.debug_format@)
            &&& has_value(di, 2, "symbol_count"@, Json::UInt(info.symbol_count as u64))
            &&& has_value(di, 3, "line_table_count"@, Json::UInt(info.line_table_count as u64))
            &&& has_value(di, 4, "function_count"@, Json::UInt(info.function_count as u64))
            &&& has_value(di, 5, "compilation_unit_count"@, Json::UInt(cus.len() as u64))
            &&& units ==> di[6].0@ == "compilation_units"@ && (di[6].1 matches Json::Array(a)
                && a@.len() == cus.len() && forall|i: int|
                0 <= i < cus.len() ==> is_unit_json(#[trigger] a@[i], cus[i]))
            &&& stats ==> di[at].0@ == "detailed_stats"@ && is_debug_stats(di[at].1, info)
        }
    }
}

fn unit_json(cu: &CompilationUnit) -> (v: Json)
    ensures
        is_unit_json(v, *cu),
{
    let mut es: Vec<(String, Json)> = Vec::new();
    es.push(entry("file_path", Json::Str(cu.file_path.clone())));
    es.push(entry("producer", jopt_str(&cu.producer)));
    es.push(entry("language", jopt_str(&cu.language)));
    es.push(entry("low_pc", Json::Str(hex_address(cu.low_pc))));
    es.push(entry("high_pc", Json::Str(hex_address(cu.high_pc))));
    es.push(entry("line_count", Json::UInt(cu.line_count as u64)));
    es.push(entry("address_range_size", Json::UInt(cu.high_pc.wrapping_sub(cu.low_pc))));
    Json::Object(es)
}

fn has_language(found: &Vec<String>, l: &String) -> (r: bool)
    ensures
        r == found@.map_values(|s: String| s@).contains(l@),
{
    let ghost vs = found@.map_values(|s: String| s@);
    let mut i: usize = 0;
    while i < found.len()
        invariant
            i <= found@.len(),
            vs == found@.map_values(|s: String| s@),
            forall|k: int| 0 <= k < i ==> vs[k] != l@,
        decreases found@.len() - i,
    {
        if str_eq(found[i].as_str(), l.as_str()) {
            assert(vs[i as int] == l@);
            return true;
        }
        i = i + 1;
    }
    false
}

fn debug_stats(info: &DebugInfo) -> (v: Json)
    requires
        unit_count_divides(*info),
    ensures
        is_debug_stats(v, *info),
{
    let cus = &info.compilation_units;
    let mut total: u64 = 0;
    let mut found: Vec<String> = Vec::new();
    let mut i: usize = 0;
    assert(cus@.take(0) =~= Seq::<CompilationUnit>::empty());
    while i < cus.len()
        invariant
            i <= cus@.len(),
            total == address_space(cus@.take(i as int)),
            found@.map_values(|s: String| s@) == languages(cus@.take(i as int)),
        decreases cus@.len() - i,
    {
        assert(cus@.take(i + 1).drop_last() =~= cus@.take(i as int));
        assert(cus@.take(i + 1).last() == cus@[i as int]);
        total = total.wrapping_add(cus[i].high_pc.wrapping_sub(cus[i].low_pc));
        match &cus[i].language {
            Some(l) => {
                if !has_language(&found, l) {
                    let ghost before = found@;
                    found.push(l.clone());
                    assert(found@.map_values(|s: String| s@) =~= before.map_values(
                        |s: String| s@,
                    ).push(l@));
                }
            },
            None => {},
        }
        i = i + 1;
    }
    assert(cus@.take(i as int) =~= cus@);
    let n = cus.len();
    let average: u32 = if n > 0 {
        let d: u32 = ((n as u64) % 0x1_0000_0000) as u32;
        info.symbol_count / d
    } else {
        0
    };
    let mut es: Vec<(String, Json)> = Vec::new();
    es.push(entry("total_address_space", Json::UInt(total)));
    es.push(entry("average_symbols_per_unit", Json::UInt(average as u64)));
    es.push(entry("languages_detected", crate::json::text_array(&found)));
    es.push(entry("has_line_tables", Json::Bool(info.line_table_count > 0)));
    Json::Object(es)
}

/// Reports the debug information `info`, with its compilation units and
/// its statistics where asked. The statistics leave out the density of
/// symbols in the address space, a ratio of floating-point numbers.
pub fn debug_report(info: &DebugInfo, units: bool, stats: bool) -> (j: Json)
    requires
        unit_count_divides(*info),
    ensures
        is_debug_report(j, *info, units, stats),
{
    let cus = &info.compilation_units;
    let mut di: Vec<(String, Json)> = Vec::new();
    di.push(entry("has_debug_symbols", Json::Bool(info.has_debug_symbols)));
    di.push(entry("debug_format", Json::Str(info.debug_format.clone())));
    di.push(entry("symbol_count", Json::UInt(info.symbol_count as u64)));
    di.push(entry("line_table_count", Json::UInt(info.line_table_count as u64)));
    di.push(entry("function_count", Json::UInt(info.function_count as u64)));
    di.push(entry("compilation_unit_count", Json::UInt(cus.len() as u64)));
    if units {
        let mut a: Vec<Json> = Vec::new();
        let mut i: usize = 0;
        while i < cus.len()
            invariant
                i <= cus@.len(),
                a@.len() == i,
                forall|k: int| 0 <= k < i ==> is_unit_json(#[trigger] a@[k], cus@[k]),
            decreases cus@.len() - i,
        {
            a.push(unit_json(&cus[i]));
            i = i + 1;
        }
        di.push(entry("compilation_units", Json::Array(a)));
    }
    if stats {
        di.push(entry("detailed_stats", debug_stats(info)));
    }
    let mut es: Vec<(String, Json)> = Vec::new();
    es.push(entry("success", Json::Bool(true)));
    es.push(entry("debug_info", Json::Object(di)));
    Json::Object(es)
}

/// `info` summarizes the symbol counts `symbol_counts` of the target's
/// modules, as the debugger reads the target: nothing else is counted.
pub open spec fn is_debug_summary(info: DebugInfo, symbol_counts: Seq<Option<u32>>) -> bool {
    &&& info.symbol_count == symbol_total(symbol_counts)
    &&& info.has_debug_symbols == (info.symbol_count > 0)
    &&& info.debug_format@ == "DWARF"@
    &&& info.compilation_units@.len() == 0
    &&& info.line_table_count == 0
    &&& info.function_count == 0
}

/// Summarizes the target's debug information from the symbol counts of
/// its modules (`symbol_counts`), with its compilation units
/// (`include_compilation_units`) and statistics (`include_detailed_stats`)
/// where asked.
pub fn get_debug_info(
    lldb_manager: &LldbManager,
    arguments: &Arguments,
    symbol_counts: &Vec<Option<u32>>,
) -> (r: Result<Json, IncodeError>)
    ensures
        r matches Ok(j) && if lldb_manager.target_selected() {
            exists|info: DebugInfo|
                #[trigger] is_debug_summary(info, symbol_counts@) && is_debug_report(
                    j,
                    info,
                    flag_arg(arguments@, "include_compilation_units"@, false),
                    flag_arg(arguments@, "include_detailed_stats"@, false),
                )
        } else {
            j matches Json::Object(es) && es@.len() == 2 && has_value(
                es@,
                0,
                "success"@,
                Json::Bool(false),
            ) && has_text(
                es@,
                1,
                "error"@,
                "Process not found or not debuggable: "@ + "No target available"@,
            )
        },
{
    let units = arg_bool_or(arguments, "include_compilation_units", false);
    let stats = arg_bool_or(arguments, "include_detailed_stats", false);
    proof {
        reveal_strlit("No target available");
    }
    match lldb_manager.get_debug_info(symbol_counts) {
        Ok(info) => {
            let j = debug_report(&info, units, stats);
            assert(is_debug_summary(info, symbol_counts@));
            Ok(j)
        },
        Err(e) => {
            let mut es: Vec<(String, Json)> = Vec::new();
            es.push(entry("success", Json::Bool(false)));
            es.push(entry("error", Json::Str(e.message())));
            Ok(Json::Object(es))
        },
    }
}

/// Shows source code.
#[derive(Debug)]
pub struct GetSourceCodeTool;

impl GetSourceCodeTool {
    pub fn name(&self) -> (r: &'static str)
        ensures
            r@ == "get_source_code"@,
    {
        "get_source_code"
    }

    pub fn description(&self) -> (r: &'static str)
        ensures
            r@ == "Get source code around current location"@,
    {
        "Get source code around current location"
    }
}

/// Lists functions.
#[derive(Debug)]
pub struct ListFunctionsTool;

impl ListFunctionsTool {
    pub fn name(&self) -> (r: &'static str)
        ensures
            r@ == "list_functions"@,
    {
        "list_functions"
    }

    pub fn description(&self) -> (r: &'static str)
        ensures
            r@ == "List all functions in target with addresses"@,
    {
        "List all functions in target with addresses"
    }
}

/// Maps an address to its source line.
#[derive(Debug)]
pub struct GetLineInfoTool;

impl GetLineInfoTool {
    pub fn name(&self) -> (r: &'static str)
        ensures
            r@ == "get_line_info"@,
    {
        "get_line_info"
    }

    pub fn description(&self) -> (r: &'static str)
        ensures
            r@ == "Get source line information for address"@,
    {
        "Get source line information for address"
    }
}

/// Summarizes the debug information.
#[derive(Debug)]
pub struct GetDebugInfoTool;

impl GetDebugInfoTool {
    pub fn name(&self) -> (r: &'static str)
        ensures
            r@ == "get_debug_info"@,
    {
        "get_debug_info"
    }

    pub fn description(&self) -> (r: &'static str)
        ensures
            r@ == "Get debug information summary"@,
    {
        "Get debug information summary"
    }
}

// ---------------------------------------------------------------------------
// Laws
// ---------------------------------------------------------------------------

/// The function list keeps exactly the functions that pass the name
/// filter: each listed function passes it and is one of the functions
/// found, each function found that passes it is listed, and without a
/// filter every function is listed.
pub proof fn law_function_filter(fns: Seq<FunctionInfo>, filter: Option<Seq<char>>)
    ensures
        forall|i: int|
            0 <= i < filtered_functions(fns, filter).len() ==> function_passes(
                #[trigger] filtered_functions(fns, filter)[i],
                filter,
            ) && fns.contains(filtered_functions(fns, filter)[i]),
        forall|i: int|
            0 <= i < fns.len() && function_passes(#[trigger] fns[i], filter)
                ==> filtered_functions(fns, filter).contains(fns[i]),
        filter is None ==> filtered_functions(fns, filter) == fns,
{
    let pred = |f: FunctionInfo| function_passes(f, filter);
    let sel = fns.filter(pred);
    assert forall|i: int| 0 <= i < sel.len() implies function_passes(#[trigger] sel[i], filter)
        && fns.contains(sel[i]) by {
        fns.lemma_filter_pred(pred, i);
        assert(sel.contains(sel[i]));
        fns.lemma_filter_contains_rev(pred, sel[i]);
    }
    assert forall|i: int| 0 <= i < fns.len() && function_passes(#[trigger] fns[i], filter) implies sel.contains(
        fns[i],
    ) by {
        fns.lemma_filter_contains(pred, i);
    }
    if filter is None {
        lemma_filter_all(fns, pred);
    }
}

proof fn lemma_filter_all(s: Seq<FunctionInfo>, pred: spec_fn(FunctionInfo) -> bool)
    requires
        forall|f: FunctionInfo| #[trigger] pred(f),
    ensures
        s.filter(pred) == s,
    decreases s.len(),
{
    reveal(Seq::filter);
    if s.len() > 0 {
        lemma_filter_all(s.drop_last(), pred);
        assert(s.drop_last().push(s.last()) =~= s);
    } else {
        assert(s.filter(pred) =~= s);
    }
}

/// The plain sum of the sizes of the address ranges of `cus`.
pub open spec fn span_sum(cus: Seq<CompilationUnit>) -> nat
    decreases cus.len(),
{
    if cus.len() == 0 {
        0
    } else {
        span_sum(cus.drop_last()) + unit_span(cus.last()) as nat
    }
}

/// The total address space is the sum of the units' address range sizes,
/// taken modulo 2^64.
pub proof fn law_address_space_sum(cus: Seq<CompilationUnit>)
    ensures
        address_space(cus) as nat == span_sum(cus) % 0x1_0000_0000_0000_0000,
    decreases cus.len(),
{
    if cus.len() > 0 {
        law_address_space_sum(cus.drop_last());
        let a = address_space(cus.drop_last()) as int;
        let t = span_sum(cus.drop_last()) as int;
        let x = unit_span(cus.last()) as int;
        let m: int = 0x1_0000_0000_0000_0000;
        assert(a == t % m);
        assert(((t % m) + x) % m == (t + x) % m) by {
            vstd::arithmetic::div_mod::lemma_add_mod_noop(t, x, m);
            vstd::arithmetic::div_mod::lemma_mod_twice(x, m);
            assert(x % m == x);
        }
        assert(0 <= a + x < 2 * m);
        if a + x > u64::MAX {
            assert((a + x) % m == a + x - m) by {
                vstd::arithmetic::div_mod::lemma_fundamental_div_mod_converse(a + x, m, 1, a + x - m);
            }
        } else {
            assert((a + x) % m == a + x) by {
                vstd::arithmetic::div_mod::lemma_small_mod((a + x) as nat, m as nat);
            }
        }
    }
}

/// The languages detected are each listed once, each is the language of
/// some compilation unit, and the language of every unit that has one is
/// listed.
pub proof fn law_languages_once(cus: Seq<CompilationUnit>)
    ensures
        forall|i: int, k: int|
            0 <= i < k < languages(cus).len() ==> #[trigger] languages(cus)[i]
                != #[trigger] languages(cus)[k],
        forall|i: int|
            #![trigger languages(cus)[i]]
            0 <= i < languages(cus).len() ==> exists|u: int|
                0 <= u < cus.len() && (#[trigger] cus[u]).language is Some && cus[u].language->0@
                    == languages(cus)[i],
        forall|u: int|
            0 <= u < cus.len() && (#[trigger] cus[u]).language is Some ==> languages(cus).contains(
                cus[u].language->0@,
            ),
    decreases cus.len(),
{
    if cus.len() > 0 {
        let init = cus.drop_last();
        law_languages_once(init);
        let before = languages(init);
        let ls = languages(cus);
        assert forall|u: int| 0 <= u < init.len() implies #[trigger] init[u] == cus[u] by {}
        assert forall|i: int| #![trigger ls[i]] 0 <= i < ls.len() implies exists|u: int|
            0 <= u < cus.len() && (#[trigger] cus[u]).language is Some && cus[u].language->0@ == ls[i] by {
            if i < before.len() {
                assert(ls[i] == before[i]);
                let u = choose|u: int|
                    0 <= u < init.len() && (#[trigger] init[u]).language is Some && init[u].language->0@
                        == before[i];
                assert(cus[u] == init[u]);
            } else {
                assert(cus[cus.len() - 1] == cus.last());
            }
        }
        assert forall|u: int|
            0 <= u < cus.len() && (#[trigger] cus[u]).language is Some implies ls.contains(
            cus[u].language->0@,
        ) by {
            if u < init.len() {
                assert(cus[u] == init[u]);
                assert(before.contains(init[u].language->0@));
                let w = choose|w: int| 0 <= w < before.len() && before[w] == init[u].language->0@;
                assert(ls[w] == before[w]);
            } else {
                assert(cus[u] == cus.last());
                if !before.contains(cus.last().language->0@) {
                    assert(ls[ls.len() - 1] == cus.last().language->0@);
                }
            }
        }
    }
}

/// The plain sum of each unit's high address less its low one.
pub open spec fn range_sum(cus: Seq<CompilationUnit>) -> int
    decreases cus.len(),
{
    if cus.len() == 0 {
        0
    } else {
        range_sum(cus.drop_last()) + (cus.last().high_pc - cus.last().low_pc)
    }
}

/// Where no unit's high address lies below its low one and the sizes add
/// up within 64 bits, the total address space is exactly the sum of the
/// units' high addresses less their low ones.
pub proof fn law_address_space_exact(cus: Seq<CompilationUnit>)
    requires
        forall|i: int| 0 <= i < cus.len() ==> (#[trigger] cus[i]).low_pc <= cus[i].high_pc,
        range_sum(cus) <= u64::MAX,
    ensures
        address_space(cus) == range_sum(cus),
    decreases cus.len(),
{
    if cus.len() > 0 {
        let init = cus.drop_last();
        assert forall|i: int| 0 <= i < init.len() implies (#[trigger] init[i]).low_pc <= init[i].high_pc by {
            assert(init[i] == cus[i]);
        }
        assert(cus.last() == cus[cus.len() - 1]);
        lemma_range_sum_nonneg(init);
        law_address_space_exact(init);
    }
}

proof fn lemma_range_sum_nonneg(cus: Seq<CompilationUnit>)
    requires
        forall|i: int| 0 <= i < cus.len() ==> (#[trigger] cus[i]).low_pc <= cus[i].high_pc,
    ensures
        range_sum(cus) >= 0,
    decreases cus.len(),
{
    if cus.len() > 0 {
        let init = cus.drop_last();
        assert forall|i: int| 0 <= i < init.len() implies (#[trigger] init[i]).low_pc <= init[i].high_pc by {
            assert(init[i] == cus[i]);
        }
        assert(cus.last() == cus[cus.len() - 1]);
        lemma_range_sum_nonneg(init);
    }
}

/// A function list names, in order, exactly the functions that pass the
/// name filter (their lowercase name contains the lowercase filter), and
/// gives their number as the total count.
pub proof fn law_function_list_report(
    j: Json,
    fns: Seq<FunctionInfo>,
    module_filter: Option<Seq<char>>,
    name_filter: Option<Seq<char>>,
    addresses: bool,
    source: bool,
)
    requires
        is_function_list(j, fns, module_filter, name_filter, addresses, source),
    ensures
        field(j, "functions"@) matches Some(Json::Array(items)) && items@.len() == filtered_functions(
            fns,
            name_filter,
        ).len() && forall|i: int|
            0 <= i < items@.len() ==> text_field(#[trigger] items@[i], "name"@) == Some(
                filtered_functions(fns, name_filter)[i].name@,
            ),
        field(j, "total_count"@) == Some(Json::UInt(filtered_functions(fns, name_filter).len() as u64)),
{
    reveal_strlit("success");
    reveal_strlit("functions");
    reveal_strlit("total_count");
    reveal_strlit("name");
    let sel = filtered_functions(fns, name_filter);
    if let Json::Object(es) = j {
        let es = es@;
        assert("success"@.len() == 7 && "functions"@.len() == 9 && "total_count"@.len() == 11);
        assert(es[0].0@ == "success"@ && es[1].0@ == "functions"@ && es[2].0@ == "total_count"@);
        lemma_lookup_at(es, "functions"@, 1);
        assert forall|m: int| 0 <= m < 2 implies (#[trigger] es[m]).0@ != "total_count"@ by {
            if m == 0 {
            } else {
            }
        }
        lemma_lookup_at(es, "total_count"@, 2);
        if let Json::Array(items) = es[1].1 {
            assert forall|i: int| 0 <= i < items@.len() implies text_field(#[trigger] items@[i], "name"@)
                == Some(sel[i].name@) by {
                assert(is_function_json(items@[i], sel[i], addresses, source));
                if let Json::Object(fs) = items@[i] {
                    lemma_lookup_at(fs@, "name"@, 0);
                }
            }
        }
    }
}

} // verus!
