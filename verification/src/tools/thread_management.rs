//! Tools that list, select, describe, suspend and resume threads.
//!
//! Each operation reads its arguments, asks the debugger and answers with
//! a JSON value that reports success or failure in its `success` field.

use vstd::prelude::*;
use crate::error::{IncodeError};
use crate::json::{
    arg_bool_or, arg_str, arg_u64, as_boolean, as_text, as_uint, entry, is_opt_text_value,
    is_opt_uint_value, jopt_str, jopt_u64, jstr, lookup, opt_view, Arguments, Json,
};
use crate::lldb_manager::{
    is_thread_info, present, thread_position, LldbManager, RawThread, StackFrame, ThreadInfo,
};
use crate::text::{dec_str, has_substr, hex_addr, hex_address, push_dec, push_str, str_contains};
use crate::tools::{has_text, has_value};

verus! {

broadcast use vstd::string::group_string_axioms;

/// The thread asked for: the number under `thread_id`, cut to 32 bits.
pub open spec fn thread_id_arg(args: Seq<(String, Json)>) -> Option<u32> {
    match as_uint(lookup(args, "thread_id"@)) {
        Some(n) => Some(n as u32),
        None => None,
    }
}

/// Reads the thread asked for.
pub fn read_thread_id(args: &Arguments) -> (r: Result<u32, IncodeError>)
    ensures
        match thread_id_arg(args@) {
            Some(id) => r == Ok::<u32, IncodeError>(id),
            None => r matches Err(IncodeError::Configuration(m)) && m@
                == "thread_id is required and must be a number"@,
        },
{
    match arg_u64(args, "thread_id") {
        Some(n) => Ok(#[verifier::truncate] (n as u32)),
        None => Err(IncodeError::invalid_parameter("thread_id is required and must be a number")),
    }
}

/// An optional 32-bit number, widened.
pub open spec fn wide(o: Option<u32>) -> Option<u64> {
    match o {
        Some(x) => Some(x as u64),
        None => None,
    }
}

/// `v` describes the frame `f`, with whether it is inlined where asked.
pub open spec fn is_frame_json(v: Json, f: StackFrame, with_inlined: bool) -> bool {
    v matches Json::Object(es) && {
        let es = es@;
        &&& es.len() == if with_inlined {
            6int
        } else {
            5int
        }
        &&& has_value(es, 0, "index"@, Json::UInt(f.index as u64))
        &&& has_text(es, 1, "function_name"@, f.function_name@)
        &&& es[2].0@ == "file_path"@ && is_opt_text_value(es[2].1, opt_view(f.file_path))
        &&& es[3].0@ == "line_number"@ && is_opt_uint_value(es[3].1, wide(f.line_number))
        &&& has_text(es, 4, "address"@, hex_addr(f.address as nat))
        &&& with_inlined ==> has_value(es, 5, "is_inlined"@, Json::Bool(f.is_inlined))
    }
}

/// `v` describes the optional frame `f`: `null` when there is none.
pub open spec fn is_opt_frame_json(v: Json, f: Option<StackFrame>, with_inlined: bool) -> bool {
    match f {
        Some(f) => is_frame_json(v, f, with_inlined),
        None => v == Json::Null,
    }
}

/// The first entries of `es` give the identity of thread `t`: its
/// identifier, index, name and state.
pub open spec fn has_thread_head(es: Seq<(String, Json)>, t: ThreadInfo) -> bool {
    &&& has_value(es, 0, "thread_id"@, Json::UInt(t.thread_id as u64))
    &&& has_value(es, 1, "index"@, Json::UInt(t.index as u64))
    &&& es[2].0@ == "name"@ && is_opt_text_value(es[2].1, opt_view(t.name))
    &&& has_text(es, 3, "state"@, t.state@)
}

/// The first entries of `es` describe thread `t`: its identity, then its
/// stop reason, queue and number of frames.
pub open spec fn has_thread_body(es: Seq<(String, Json)>, t: ThreadInfo) -> bool {
    &&& has_thread_head(es, t)
    &&& es[4].0@ == "stop_reason"@ && is_opt_text_value(es[4].1, opt_view(t.stop_reason))
    &&& es[5].0@ == "queue_name"@ && is_opt_text_value(es[5].1, opt_view(t.queue_name))
    &&& has_value(es, 6, "frame_count"@, Json::UInt(t.frame_count as u64))
}

/// `v` describes thread `t` in a listing: its identity, or, with
/// details, all of it and its current frame.
pub open spec fn is_thread_entry(v: Json, t: ThreadInfo, details: bool) -> bool {
    v matches Json::Object(es) && if details {
        &&& es@.len() == 8
        &&& has_thread_body(es@, t)
        &&& es@[7].0@ == "current_frame"@
        &&& is_opt_frame_json(es@[7].1, t.current_frame, false)
    } else {
        es@.len() == 4 && has_thread_head(es@, t)
    }
}

/// A thread passes the state filter: its state contains the filter, where
/// one is given.
pub open spec fn state_passes(t: ThreadInfo, filter: Option<Seq<char>>) -> bool {
    match filter {
        Some(f) => has_substr(t.state@, f),
        None => true,
    }
}

/// The threads of `infos` that pass the state filter, in their order.
pub open spec fn state_filtered(infos: Seq<ThreadInfo>, filter: Option<Seq<char>>) -> Seq<ThreadInfo> {
    infos.filter(|t: ThreadInfo| state_passes(t, filter))
}

/// `infos` describe the threads `raws`, one for one.
pub open spec fn describes_threads(infos: Seq<ThreadInfo>, raws: Seq<RawThread>) -> bool {
    infos.len() == raws.len() && forall|i: int|
        0 <= i < infos.len() ==> is_thread_info(#[trigger] infos[i], raws[i])
}

/// `j` lists the threads of `infos` that pass the state filter.
pub open spec fn is_thread_list(
    j: Json,
    infos: Seq<ThreadInfo>,
    details: bool,
    filter: Option<Seq<char>>,
) -> bool {
    let sel = state_filtered(infos, filter);
    j matches Json::Object(es) && {
        let es = es@;
        &&& es.len() == 4
        &&& has_value(es, 0, "success"@, Json::Bool(true))
        &&& es[1].0@ == "threads"@
        &&& (es[1].1 matches Json::Array(items) && items@.len() == sel.len() && forall|i: int|
            0 <= i < sel.len() ==> is_thread_entry(#[trigger] items@[i], sel[i], details))
        &&& has_value(es, 2, "total_count"@, Json::UInt(sel.len() as u64))
        &&& es[3].0@ == "filter_applied"@ && is_opt_text_value(es[3].1, filter)
    }
}

/// `j` reports that no thread could be listed, with the message `msg`.
pub open spec fn is_failed_listing(j: Json, msg: Seq<char>) -> bool {
    j matches Json::Object(es) && {
        let es = es@;
        &&& es.len() == 3
        &&& has_value(es, 0, "success"@, Json::Bool(false))
        &&& has_text(es, 1, "error"@, msg)
        &&& es[2].0@ == "threads"@ && (es[2].1 matches Json::Array(a) && a@.len() == 0)
    }
}

/// `j` reports that nothing could be done with thread `id`, with the
/// message `msg`.
pub open spec fn is_thread_failure(j: Json, msg: Seq<char>, id: u32) -> bool {
    j matches Json::Object(es) && {
        let es = es@;
        &&& es.len() == 3
        &&& has_value(es, 0, "success"@, Json::Bool(false))
        &&& has_text(es, 1, "error"@, msg)
        &&& has_value(es, 2, "thread_id"@, Json::UInt(id as u64))
    }
}

/// The text of the error for a missing process.
pub open spec fn no_process_text() -> Seq<char> {
    "Process not found or not debuggable: "@ + "No active process"@
}

fn frame_json(f: &StackFrame, with_inlined: bool) -> (v: Json)
    ensures
        is_frame_json(v, *f, with_inlined),
{
    let line = match f.line_number {
        Some(l) => Some(l as u64),
        None => None,
    };
    let mut es: Vec<(String, Json)> = Vec::new();
    es.push(entry("index", Json::UInt(f.index as u64)));
    es.push(entry("function_name", Json::Str(f.function_name.clone())));
    es.push(entry("file_path", jopt_str(&f.file_path)));
    es.push(entry("line_number", jopt_u64(line)));
    es.push(entry("address", Json::Str(hex_address(f.address))));
    if with_inlined {
        es.push(entry("is_inlined", Json::Bool(f.is_inlined)));
    }
    Json::Object(es)
}

fn opt_frame_json(f: &Option<StackFrame>, with_inlined: bool) -> (v: Json)
    ensures
        is_opt_frame_json(v, *f, with_inlined),
{
    match f {
        Some(f) => frame_json(f, with_inlined),
        None => Json::Null,
    }
}

fn thread_head(t: &ThreadInfo) -> (es: Vec<(String, Json)>)
    ensures
        es@.len() == 4,
        has_thread_head(es@, *t),
{
    let mut es: Vec<(String, Json)> = Vec::new();
    es.push(entry("thread_id", Json::UInt(t.thread_id as u64)));
    es.push(entry("index", Json::UInt(t.index as u64)));
    es.push(entry("name", jopt_str(&t.name)));
    es.push(entry("state", Json::Str(t.state.clone())));
    es
}

fn thread_body(t: &ThreadInfo) -> (es: Vec<(String, Json)>)
    ensures
        es@.len() == 7,
        has_thread_body(es@, *t),
{
    let mut es = thread_head(t);
    es.push(entry("stop_reason", jopt_str(&t.stop_reason)));
    es.push(entry("queue_name", jopt_str(&t.queue_name)));
    es.push(entry("frame_count", Json::UInt(t.frame_count as u64)));
    es
}

fn thread_entry(t: &ThreadInfo, details: bool) -> (v: Json)
    ensures
        is_thread_entry(v, *t, details),
{
    if details {
        let mut es = thread_body(t);
        es.push(entry("current_frame", opt_frame_json(&t.current_frame, false)));
        Json::Object(es)
    } else {
        Json::Object(thread_head(t))
    }
}

fn failed_listing(msg: String) -> (j: Json)
    ensures
        is_failed_listing(j, msg@),
{
    let mut es: Vec<(String, Json)> = Vec::new();
    es.push(entry("success", Json::Bool(false)));
    es.push(entry("error", Json::Str(msg)));
    es.push(entry("threads", Json::Array(Vec::new())));
    Json::Object(es)
}

fn thread_failure(msg: String, id: u32) -> (j: Json)
    ensures
        is_thread_failure(j, msg@, id),
{
    let mut es: Vec<(String, Json)> = Vec::new();
    es.push(entry("success", Json::Bool(false)));
    es.push(entry("error", Json::Str(msg)));
    es.push(entry("thread_id", Json::UInt(id as u64)));
    Json::Object(es)
}

/// Lists the threads of `infos` that pass the state filter.
pub fn thread_list(infos: &Vec<ThreadInfo>, details: bool, filter: &Option<String>) -> (j: Json)
    ensures
        is_thread_list(j, infos@, details, opt_view(*filter)),
{
    let ghost f = opt_view(*filter);
    let ghost p = |t: ThreadInfo| state_passes(t, f);
    let mut items: Vec<Json> = Vec::new();
    let mut i: usize = 0;
    assert(infos@.take(0) =~= Seq::<ThreadInfo>::empty());
    proof {
        reveal(Seq::filter);
    }
    while i < infos.len()
        invariant
            i <= infos@.len(),
            f == opt_view(*filter),
            p == (|t: ThreadInfo| state_passes(t, f)),
            items@.len() == infos@.take(i as int).filter(p).len(),
            forall|k: int|
                0 <= k < items@.len() ==> is_thread_entry(
                    #[trigger] items@[k],
                    infos@.take(i as int).filter(p)[k],
                    details,
                ),
        decreases infos@.len() - i,
    {
        proof {
            reveal(Seq::filter);
        }
        assert(infos@.take(i + 1).drop_last() =~= infos@.take(i as int));
        assert(infos@.take(i + 1).last() == infos@[i as int]);
        let passes = match filter {
            Some(s) => str_contains(infos[i].state.as_str(), s.as_str()),
            None => true,
        };
        if passes {
            items.push(thread_entry(&infos[i], details));
        }
        i = i + 1;
    }
    assert(infos@.take(i as int) =~= infos@);
    let n = items.len();
    let mut es: Vec<(String, Json)> = Vec::new();
    es.push(entry("success", Json::Bool(true)));
    es.push(entry("threads", Json::Array(items)));
    es.push(entry("total_count", Json::UInt(n as u64)));
    es.push(entry("filter_applied", jopt_str(filter)));
    Json::Object(es)
}

/// Lists the threads of the process, as the debugger reports them in
/// `threads` (a `None` for a thread it could not read), with their details
/// where `include_details` asks for them and only those whose state
/// contains `filter_state` where one is given.
pub fn list_threads(
    lldb_manager: &LldbManager,
    arguments: &Arguments,
    threads: &Vec<Option<RawThread>>,
) -> (r: Result<Json, IncodeError>)
    ensures
        r matches Ok(j) && if lldb_manager.process_attached() {
            exists|infos: Seq<ThreadInfo>|
                #[trigger] describes_threads(infos, present(threads@)) && is_thread_list(
                    j,
                    infos,
                    match as_boolean(lookup(arguments@, "include_details"@)) {
                        Some(b) => b,
                        None => false,
                    },
                    as_text(lookup(arguments@, "filter_state"@)),
                )
        } else {
            is_failed_listing(j, no_process_text())
        },
{
    let include_details = arg_bool_or(arguments, "include_details", false);
    let filter_state = arg_str(arguments, "filter_state");
    match lldb_manager.list_threads(threads) {
        Ok(infos) => {
            let j = thread_list(&infos, include_details, &filter_state);
            assert(describes_threads(infos@, present(threads@)));
            Ok(j)
        },
        Err(e) => {
            proof {
                reveal_strlit("No active process");
            }
            Ok(failed_listing(e.message()))
        },
    }
}

/// `j` reports the selection of thread `t`, with its current frame where
/// `include_frames` asks for it and it has one.
pub open spec fn is_selected_thread(j: Json, t: ThreadInfo, include_frames: bool) -> bool {
    j matches Json::Object(es) && {
        let es = es@;
        &&& es.len() == 2
        &&& has_value(es, 0, "success"@, Json::Bool(true))
        &&& es[1].0@ == "selected_thread"@
        &&& es[1].1 matches Json::Object(ts) && {
            let ts = ts@;
            &&& has_thread_body(ts, t)
            &&& if include_frames && t.current_frame is Some {
                ts.len() == 8 && ts[7].0@ == "current_frame"@ && is_frame_json(
                    ts[7].1,
                    t.current_frame->0,
                    false,
                )
            } else {
                ts.len() == 7
            }
        }
    }
}

/// Selects thread `thread_id` among the threads the debugger reports in
/// `threads`, and reports it, with its current frame where
/// `include_frames` asks for it.
pub fn select_thread(
    lldb_manager: &mut LldbManager,
    arguments: &Arguments,
    threads: &Vec<Option<RawThread>>,
) -> (r: Result<Json, IncodeError>)
    ensures
        match thread_id_arg(arguments@) {
            None => r matches Err(IncodeError::Configuration(m)) && m@
                == "thread_id is required and must be a number"@,
            Some(id) => r matches Ok(j) && if !old(lldb_manager).process_attached() {
                is_thread_failure(j, no_process_text(), id)
            } else {
                match thread_position(threads@, id) {
                    None => is_thread_failure(
                        j,
                        "Process not found or not debuggable: "@ + ("Thread "@ + dec_str(
                            id as nat,
                        ) + " not found"@),
                        id,
                    ),
                    Some(i) => {
                        &&& exists|t: ThreadInfo|
                            #[trigger] is_thread_info(t, threads@[i as int]->0)
                                && is_selected_thread(
                                j,
                                t,
                                match as_boolean(lookup(arguments@, "include_frames"@)) {
                                    Some(b) => b,
                                    None => false,
                                },
                            )
                        &&& final(lldb_manager).thread_id() == Some(id)
                        &&& final(lldb_manager).thread_selected()
                    },
                }
            },
        },
        !(match thread_id_arg(arguments@) {
            Some(id) => old(lldb_manager).process_attached() && thread_position(threads@, id) is Some,
            None => false,
        }) ==> *final(lldb_manager) == *old(lldb_manager),
        forall|id: u128| final(lldb_manager).session(id) == old(lldb_manager).session(id),
        final(lldb_manager).current() == old(lldb_manager).current(),
        final(lldb_manager).process_attached() == old(lldb_manager).process_attached(),
        final(lldb_manager).target_selected() == old(lldb_manager).target_selected(),
{
    let thread_id = match read_thread_id(arguments) {
        Ok(id) => id,
        Err(e) => {
            return Err(e);
        },
    };
    let include_frames = arg_bool_or(arguments, "include_frames", false);
    match lldb_manager.select_thread(thread_id, threads) {
        Ok(t) => {
            let mut ts = thread_body(&t);
            if include_frames {
                match &t.current_frame {
                    Some(f) => {
                        ts.push(entry("current_frame", frame_json(f, false)));
                    },
                    None => {},
                }
            }
            let mut es: Vec<(String, Json)> = Vec::new();
            es.push(entry("success", Json::Bool(true)));
            es.push(entry("selected_thread", Json::Object(ts)));
            let j = Json::Object(es);
            assert(is_selected_thread(j, t, include_frames));
            Ok(j)
        },
        Err(e) => {
            proof {
                reveal_strlit("No active process");
                reveal_strlit(" not found");
            }
            Ok(thread_failure(e.message(), thread_id))
        },
    }
}

/// `i` is the first position of `infos` that holds thread `id`.
pub open spec fn is_first_thread(infos: Seq<ThreadInfo>, id: u32, i: int) -> bool {
    &&& 0 <= i < infos.len()
    &&& infos[i].thread_id == id
    &&& forall|k: int| 0 <= k < i ==> (#[trigger] infos[k]).thread_id != id
}

/// `j` reports thread `t` in full, with an empty stack and an empty
/// register set where they are asked for.
pub open spec fn is_thread_report(j: Json, t: ThreadInfo, include_stack: bool, include_registers: bool) -> bool {
    j matches Json::Object(es) && {
        let es = es@;
        &&& es.len() == 2
        &&& has_value(es, 0, "success"@, Json::Bool(true))
        &&& es[1].0@ == "thread_info"@
        &&& es[1].1 matches Json::Object(ts) && {
            let ts = ts@;
            let at: int = if include_stack {
                9
            } else {
                8
            };
            &&& ts.len() == at + if include_registers {
                1int
            } else {
                0int
            }
            &&& has_thread_body(ts, t)
            &&& ts[7].0@ == "current_frame"@ && is_opt_frame_json(ts[7].1, t.current_frame, true)
            &&& include_stack ==> ts[8].0@ == "stack_frames"@ && (ts[8].1 matches Json::Array(a)
                && a@.len() == 0)
            &&& include_registers ==> ts[at].0@ == "registers"@ && (ts[at].1 matches Json::Object(
                o,
            ) && o@.len() == 0)
        }
    }
}

fn find_info(infos: &Vec<ThreadInfo>, id: u32) -> (r: Option<usize>)
    ensures
        match r {
            Some(i) => is_first_thread(infos@, id, i as int),
            None => forall|k: int| 0 <= k < infos@.len() ==> (#[trigger] infos@[k]).thread_id != id,
        },
{
    let mut i: usize = 0;
    while i < infos.len()
        invariant
            i <= infos@.len(),
            forall|k: int| 0 <= k < i ==> (#[trigger] infos@[k]).thread_id != id,
        decreases infos@.len() - i,
    {
        if infos[i].thread_id == id {
            return Some(i);
        }
        i = i + 1;
    }
    None
}

/// Describes thread `thread_id` among the threads the debugger reports in
/// `threads`, with an empty stack (`include_stack`) and an empty register
/// set (`include_registers`) where they are asked for.
pub fn get_thread_info(
    lldb_manager: &LldbManager,
    arguments: &Arguments,
    threads: &Vec<Option<RawThread>>,
) -> (r: Result<Json, IncodeError>)
    ensures
        match thread_id_arg(arguments@) {
            None => r matches Err(IncodeError::Configuration(m)) && m@
                == "thread_id is required and must be a number"@,
            Some(id) => r matches Ok(j) && if !lldb_manager.process_attached() {
                is_thread_failure(j, no_process_text(), id)
            } else {
                exists|infos: Seq<ThreadInfo>|
                    #[trigger] describes_threads(infos, present(threads@)) && {
                        &&& (forall|k: int| 0 <= k < infos.len() ==> infos[k].thread_id != id)
                            ==> is_thread_failure(
                            j,
                            "Thread "@ + dec_str(id as nat) + " not found"@,
                            id,
                        )
                        &&& forall|i: int|
                            is_first_thread(infos, id, i) ==> is_thread_report(
                                j,
                                infos[i],
                                match as_boolean(lookup(arguments@, "include_stack"@)) {
                                    Some(b) => b,
                                    None => false,
                                },
                                match as_boolean(lookup(arguments@, "include_registers"@)) {
                                    Some(b) => b,
                                    None => false,
                                },
                            )
                    }
            },
        },
{
    let thread_id = match read_thread_id(arguments) {
        Ok(id) => id,
        Err(e) => {
            return Err(e);
        },
    };
    let include_stack = arg_bool_or(arguments, "include_stack", false);
    let include_registers = arg_bool_or(arguments, "include_registers", false);
    match lldb_manager.list_threads(threads) {
        Ok(infos) => {
            assert(describes_threads(infos@, present(threads@)));
            match find_info(&infos, thread_id) {
                Some(i) => {
                    let t = &infos[i];
                    let mut ts = thread_body(t);
                    ts.push(entry("current_frame", opt_frame_json(&t.current_frame, true)));
                    if include_stack {
                        ts.push(entry("stack_frames", Json::Array(Vec::new())));
                    }
                    if include_registers {
                        ts.push(entry("registers", Json::Object(Vec::new())));
                    }
                    let mut es: Vec<(String, Json)> = Vec::new();
                    es.push(entry("success", Json::Bool(true)));
                    es.push(entry("thread_info", Json::Object(ts)));
                    let j = Json::Object(es);
                    assert forall|k: int| is_first_thread(infos@, thread_id, k) implies k
                        == i as int by {
                        if k < i as int {
                            assert(infos@[k].thread_id != thread_id);
                        } else if k > i as int {
                            assert(infos@[i as int].thread_id != thread_id);
                        }
                    }
                    Ok(j)
                },
                None => {
                    let mut msg = String::new();
                    push_str(&mut msg, "Thread ");
                    push_dec(&mut msg, thread_id as u64);
                    push_str(&mut msg, " not found");
                    Ok(thread_failure(msg, thread_id))
                },
            }
        },
        Err(e) => {
            proof {
                reveal_strlit("No active process");
            }
            Ok(thread_failure(e.message(), thread_id))
        },
    }
}

/// `j` reports that thread `id` now has the status `status`.
pub open spec fn is_thread_status(j: Json, id: u32, status: Seq<char>, msg: Seq<char>) -> bool {
    j matches Json::Object(es) && {
        let es = es@;
        &&& es.len() == 4
        &&& has_value(es, 0, "success"@, Json::Bool(true))
        &&& has_value(es, 1, "thread_id"@, Json::UInt(id as u64))
        &&& has_text(es, 2, "status"@, status)
        &&& has_text(es, 3, "message"@, msg)
    }
}

/// `j` answers a request to suspend or resume thread `id` (`verb`:
/// `suspend` or `resume`), given what the engine did (`done`: `None` where
/// it found no such thread, else whether it managed): the thread's new
/// status `status` and the message `Thread N <past>`, or the failure.
pub open spec fn is_thread_change(
    j: Json,
    id: u32,
    done: Option<bool>,
    verb: Seq<char>,
    past: Seq<char>,
    status: Seq<char>,
) -> bool {
    match done {
        None => is_thread_failure(j, "Thread "@ + dec_str(id as nat) + " not found"@, id),
        Some(false) => is_thread_failure(j, "Failed to "@ + verb + " thread "@ + dec_str(id as nat), id),
        Some(true) => is_thread_status(j, id, status, "Thread "@ + dec_str(id as nat) + " "@ + past),
    }
}

fn thread_change(id: u32, done: Option<bool>, verb: &str, past: &str, status: &str) -> (j: Json)
    ensures
        is_thread_change(j, id, done, verb@, past@, status@),
{
    match done {
        None => {
            let mut msg = String::new();
            push_str(&mut msg, "Thread ");
            push_dec(&mut msg, id as u64);
            push_str(&mut msg, " not found");
            thread_failure(msg, id)
        },
        Some(false) => {
            let mut msg = String::new();
            push_str(&mut msg, "Failed to ");
            push_str(&mut msg, verb);
            push_str(&mut msg, " thread ");
            push_dec(&mut msg, id as u64);
            thread_failure(msg, id)
        },
        Some(true) => {
            let mut msg = String::new();
            push_str(&mut msg, "Thread ");
            push_dec(&mut msg, id as u64);
            push_str(&mut msg, " ");
            push_str(&mut msg, past);
            let mut es: Vec<(String, Json)> = Vec::new();
            es.push(entry("success", Json::Bool(true)));
            es.push(entry("thread_id", Json::UInt(id as u64)));
            es.push(entry("status", jstr(status)));
            es.push(entry("message", Json::Str(msg)));
            Json::Object(es)
        },
    }
}

/// Suspends thread `thread_id` (required): `done` is what the engine did
/// when asked to suspend the thread with that identifier, `None` where it
/// found no such thread.
pub fn suspend_thread(_lldb_manager: &mut LldbManager, arguments: &Arguments, done: Option<bool>) -> (r: Result<
    Json,
    IncodeError,
>)
    ensures
        match thread_id_arg(arguments@) {
            None => r matches Err(IncodeError::Configuration(m)) && m@
                == "thread_id is required and must be a number"@,
            Some(id) => r matches Ok(j) && is_thread_change(
                j,
                id,
                done,
                "suspend"@,
                "suspended"@,
                "suspended"@,
            ),
        },
        *final(_lldb_manager) == *old(_lldb_manager),
{
    match read_thread_id(arguments) {
        Ok(id) => Ok(thread_change(id, done, "suspend", "suspended", "suspended")),
        Err(e) => Err(e),
    }
}

/// Resumes thread `thread_id` (required): `done` is what the engine did
/// when asked to resume the thread with that identifier, `None` where it
/// found no such thread.
pub fn resume_thread(_lldb_manager: &mut LldbManager, arguments: &Arguments, done: Option<bool>) -> (r: Result<
    Json,
    IncodeError,
>)
    ensures
        match thread_id_arg(arguments@) {
            None => r matches Err(IncodeError::Configuration(m)) && m@
                == "thread_id is required and must be a number"@,
            Some(id) => r matches Ok(j) && is_thread_change(j, id, done, "resume"@, "resumed"@, "running"@),
        },
        *final(_lldb_manager) == *old(_lldb_manager),
{
    match read_thread_id(arguments) {
        Ok(id) => Ok(thread_change(id, done, "resume", "resumed", "running")),
        Err(e) => Err(e),
    }
}

/// Lists the threads.
#[derive(Debug)]
pub struct ListThreadsTool;

impl ListThreadsTool {
    pub fn name(&self) -> (r: &'static str)
        ensures
            r@ == "list_threads"@,
    {
        "list_threads"
    }

    pub fn description(&self) -> (r: &'static str)
        ensures
            r@ == "List all threads with IDs and states"@,
    {
        "List all threads with IDs and states"
    }
}

/// Selects a thread.
#[derive(Debug)]
pub struct SelectThreadTool;

impl SelectThreadTool {
    pub fn name(&self) -> (r: &'static str)
        ensures
            r@ == "select_thread"@,
    {
        "select_thread"
    }

    pub fn description(&self) -> (r: &'static str)
        ensures
            r@ == "Switch to specific thread for debugging"@,
    {
        "Switch to specific thread for debugging"
    }
}

/// Describes a thread.
#[derive(Debug)]
pub struct GetThreadInfoTool;

impl GetThreadInfoTool {
    pub fn name(&self) -> (r: &'static str)
        ensures
            r@ == "get_thread_info"@,
    {
        "get_thread_info"
    }

    pub fn description(&self) -> (r: &'static str)
        ensures
            r@ == "Get thread details (state, stack, registers)"@,
    {
        "Get thread details (state, stack, registers)"
    }
}

/// Suspends a thread.
#[derive(Debug)]
pub struct SuspendThreadTool;

impl SuspendThreadTool {
    pub fn name(&self) -> (r: &'static str)
        ensures
            r@ == "suspend_thread"@,
    {
        "suspend_thread"
    }

    pub fn description(&self) -> (r: &'static str)
        ensures
            r@ == "Suspend specific thread execution"@,
    {
        "Suspend specific thread execution"
    }
}

/// Resumes a thread.
#[derive(Debug)]
pub struct ResumeThreadTool;

impl ResumeThreadTool {
    pub fn name(&self) -> (r: &'static str)
        ensures
            r@ == "resume_thread"@,
    {
        "resume_thread"
    }

    pub fn description(&self) -> (r: &'static str)
        ensures
            r@ == "Resume suspended thread"@,
    {
        "Resume suspended thread"
    }
}

} // verus!
