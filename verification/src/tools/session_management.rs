//! Tools that create, save, load and clean up debugging sessions.
//!
//! The files a session is saved to and loaded from are written and read
//! by the caller: these tools say what to write, read what was loaded,
//! and answer with the compact JSON text of a report.

use vstd::prelude::*;
use crate::error::{error_text, has_known_text, IncodeError};
use crate::json::{
    arg_bool_or, arg_str, arg_str_or, as_text, entry, jstr, lookup, opt_view, pretty_json_text,
    pretty_json_text_of, text_array, Arguments, Json,
};
use crate::lldb_manager::{
    is_saved_record, parse_session_id, session_id_text, unix_time_secs, uuid_parse_result,
    uuid_text, LldbManager,
};
use crate::text::{dec_str, dec_string, push_str};
use crate::tools::lldb_control::is_json_success;
use crate::tools::{failure, flag_arg, has_text, has_value, is_failure, ToolResponse};

verus! {

broadcast use vstd::string::group_string_axioms;

fn json_success(j: &Json) -> (r: ToolResponse)
    ensures
        is_json_success(r, *j),
{
    ToolResponse::Success(crate::json::json_text(j))
}

/// `j` is the failure `{success: false, error: msg}`.
pub open spec fn is_plain_failure(j: Json, msg: Seq<char>) -> bool {
    j matches Json::Object(es) && es@.len() == 2 && has_value(
        es@,
        0,
        "success"@,
        Json::Bool(false),
    ) && has_text(es@, 1, "error"@, msg)
}

fn plain_failure(msg: String) -> (j: Json)
    ensures
        is_plain_failure(j, msg@),
{
    let mut es: Vec<(String, Json)> = Vec::new();
    es.push(entry("success", Json::Bool(false)));
    es.push(entry("error", Json::Str(msg)));
    Json::Object(es)
}

/// The session asked for: the one whose identifier `session_id` gives,
/// else the current one; `missing` is the message for no current session.
pub open spec fn chosen_session(m: LldbManager, args: Seq<(String, Json)>, missing: Seq<char>) -> Result<
    u128,
    Seq<char>,
> {
    match as_text(lookup(args, "session_id"@)) {
        Some(t) => match uuid_parse_result(t) {
            Ok(id) => Ok(id),
            Err(e) => Err("Invalid session ID: "@ + e),
        },
        None => match m.current() {
            Some(id) => Ok(id),
            None => Err(missing),
        },
    }
}

/// The error for a session that cannot be chosen: a malformed identifier
/// is a bad parameter, a missing current session a failed operation.
pub open spec fn is_choice_error(e: IncodeError, args: Seq<(String, Json)>, msg: Seq<char>) -> bool {
    if as_text(lookup(args, "session_id"@)) is Some {
        e matches IncodeError::Configuration(m) && m@ == msg
    } else {
        e matches IncodeError::LldbOperation(m) && m@ == msg
    }
}

fn choose_session(lldb_manager: &LldbManager, args: &Arguments, missing: &str) -> (r: Result<
    u128,
    IncodeError,
>)
    ensures
        match chosen_session(*lldb_manager, args@, missing@) {
            Ok(id) => r == Ok::<u128, IncodeError>(id),
            Err(msg) => r matches Err(e) && is_choice_error(e, args@, msg),
        },
{
    match arg_str(args, "session_id") {
        Some(t) => match parse_session_id(t.as_str()) {
            Ok(id) => Ok(id),
            Err(e) => {
                let mut msg = String::new();
                push_str(&mut msg, "Invalid session ID: ");
                push_str(&mut msg, e.as_str());
                Err(IncodeError::Configuration(msg))
            },
        },
        None => match lldb_manager.current_session_id() {
            Some(id) => Ok(id),
            None => Err(IncodeError::lldb_op(missing)),
        },
    }
}

// ---------------------------------------------------------------------------
// create_session
// ---------------------------------------------------------------------------

/// `j` reports the creation of session `id` named `name` at `secs`
/// seconds after the Unix epoch, with the environment (`os`, `arch`) where
/// asked.
pub open spec fn is_creation_report(
    j: Json,
    id: u128,
    name: Seq<char>,
    secs: u64,
    env: Option<(Seq<char>, Seq<char>)>,
) -> bool {
    j matches Json::Object(es) && {
        let es = es@;
        &&& es.len() == if env is Some {
            6int
        } else {
            5int
        }
        &&& has_value(es, 0, "success"@, Json::Bool(true))
        &&& has_text(es, 1, "session_id"@, uuid_text(id))
        &&& has_text(es, 2, "session_name"@, name)
        &&& has_text(es, 3, "created_at"@, dec_str(secs as nat))
        &&& has_text(es, 4, "session_state"@, "initialized"@)
        &&& env matches Some(e) ==> es[5].0@ == "environment_info"@ && (es[5].1 matches Json::Object(
            ev,
        ) && ev@.len() == 3 && has_text(ev@, 0, "platform"@, e.0) && has_text(
            ev@,
            1,
            "arch"@,
            e.1,
        ) && has_text(ev@, 2, "lldb_version"@, "LLDB integrated"@))
    }
}

/// The name of the session to create: `session_name`, `default` where
/// there is none.
pub open spec fn session_name_arg(args: Seq<(String, Json)>) -> Seq<char> {
    match as_text(lookup(args, "session_name"@)) {
        Some(n) => n,
        None => "default"@,
    }
}

/// The environment to report (`os`, `arch`) where
/// `include_environment_info` asks for it.
pub open spec fn environment_arg(args: Seq<(String, Json)>, os: Seq<char>, arch: Seq<char>) -> Option<
    (Seq<char>, Seq<char>),
> {
    if flag_arg(args, "include_environment_info"@, false) {
        Some((os, arch))
    } else {
        None
    }
}

/// Creates a debugging session.
#[derive(Debug)]
pub struct CreateSessionTool;

impl CreateSessionTool {
    pub fn name(&self) -> (r: &'static str)
        ensures
            r@ == "create_session"@,
    {
        "create_session"
    }

    pub fn description(&self) -> (r: &'static str)
        ensures
            r@ == "Create new debugging session"@,
    {
        "Create new debugging session"
    }

    /// Creates a session named `session_name` (`default` by default) and
    /// reports it, with the operating system `os` and processor `arch`
    /// this program was built for where `include_environment_info` asks.
    pub fn execute(&self, lldb_manager: &mut LldbManager, arguments: &Arguments, os: &str, arch: &str) -> (r:
        Result<ToolResponse, IncodeError>)
        ensures
            r matches Ok(resp) && exists|id: u128, secs: u64, j: Json|
                #![trigger is_json_success(resp, j), is_creation_report(j, id, session_name_arg(arguments@), secs, environment_arg(arguments@, os@, arch@))]
                final(lldb_manager).current() == Some(id) && final(lldb_manager).session(id) is Some
                    && is_json_success(resp, j) && is_creation_report(
                    j,
                    id,
                    session_name_arg(arguments@),
                    secs,
                    environment_arg(arguments@, os@, arch@),
                ),
    {
        let name = arg_str_or(arguments, "session_name", "default");
        let env = arg_bool_or(arguments, "include_environment_info", false);
        let id = match lldb_manager.create_session() {
            Ok(id) => id,
            Err(e) => {
                return Err(e);
            },
        };
        let secs = unix_time_secs();
        let mut es: Vec<(String, Json)> = Vec::new();
        es.push(entry("success", Json::Bool(true)));
        es.push(entry("session_id", Json::Str(session_id_text(id))));
        es.push(entry("session_name", Json::Str(name)));
        es.push(entry("created_at", Json::Str(dec_string(secs))));
        es.push(entry("session_state", jstr("initialized")));
        if env {
            let mut ev: Vec<(String, Json)> = Vec::new();
            ev.push(entry("platform", jstr(os)));
            ev.push(entry("arch", jstr(arch)));
            ev.push(entry("lldb_version", jstr("LLDB integrated")));
            es.push(entry("environment_info", Json::Object(ev)));
        }
        let j = Json::Object(es);
        let resp = json_success(&j);
        let ghost envs: Option<(Seq<char>, Seq<char>)> = if env {
            Some((os@, arch@))
        } else {
            None
        };
        assert(is_creation_report(j, id, name@, secs, envs));
        assert(is_creation_report(
            j,
            id,
            session_name_arg(arguments@),
            secs,
            environment_arg(arguments@, os@, arch@),
        ));
        assert(lldb_manager.session(id) is Some);
        Ok(resp)
    }
}

// ---------------------------------------------------------------------------
// save_session
// ---------------------------------------------------------------------------

/// The number of bytes of the UTF-8 encoding of `c`.
pub open spec fn utf8_width(c: char) -> nat {
    if (c as u32) < 0x80 {
        1
    } else if (c as u32) < 0x800 {
        2
    } else if (c as u32) < 0x10000 {
        3
    } else {
        4
    }
}

/// The number of bytes of the UTF-8 encoding of `s`.
pub open spec fn utf8_len(s: Seq<char>) -> nat
    decreases s.len(),
{
    if s.len() == 0 {
        0
    } else {
        utf8_len(s.drop_last()) + utf8_width(s.last())
    }
}

/// The number of bytes of the UTF-8 encoding of `s` (`str::len`).
pub fn byte_len(s: &str) -> (r: u64)
    requires
        utf8_len(s@) <= u64::MAX,
    ensures
        r == utf8_len(s@),
{
    let v = crate::text::chars_of(s);
    let mut n: u128 = 0;
    let mut i: usize = 0;
    assert(v@.take(0) =~= Seq::<char>::empty());
    while i < v.len()
        invariant
            i <= v@.len(),
            v@ == s@,
            n == utf8_len(v@.take(i as int)),
            n <= 4 * i,
        decreases v@.len() - i,
    {
        assert(v@.take(i + 1).drop_last() =~= v@.take(i as int));
        let c = v[i] as u32;
        let w: u128 = if c < 0x80 {
            1
        } else if c < 0x800 {
            2
        } else if c < 0x10000 {
            3
        } else {
            4
        };
        n = n + w;
        i = i + 1;
    }
    assert(v@.take(i as int) =~= v@);
    n as u64
}

/// Where and what to save of a session.
#[derive(Debug)]
pub struct SavePlan {
    pub session_id: u128,
    /// The session's record, as indented JSON text.
    pub data: String,
    /// The name of the file: the session's name and `.json`.
    pub file_name: String,
    /// The directory to save into, where one was given; the caller's
    /// directory for sessions otherwise.
    pub directory: Option<String>,
}

/// How writing a session file went: written at the path shown, or failed
/// to make its directory or to write it, with the error's text.
#[derive(Debug)]
pub enum SaveOutcome {
    Written(String),
    DirectoryFailed(String),
    WriteFailed(String),
}

/// Saves a debugging session to a file.
#[derive(Debug)]
pub struct SaveSessionTool;

impl SaveSessionTool {
    pub fn name(&self) -> (r: &'static str)
        ensures
            r@ == "save_session"@,
    {
        "save_session"
    }

    pub fn description(&self) -> (r: &'static str)
        ensures
            r@ == "Save debugging session state"@,
    {
        "Save debugging session state"
    }

    /// What to save: the session chosen by `session_id` (the current one
    /// by default), as a file named after `session_name` (required) in the
    /// directory `save_path` where it is given.
    pub fn plan(&self, lldb_manager: &LldbManager, arguments: &Arguments) -> (r: Result<
        SavePlan,
        IncodeError,
    >)
        ensures
            match as_text(lookup(arguments@, "session_name"@)) {
                None => r matches Err(IncodeError::Configuration(m)) && m@
                    == "session_name required"@,
                Some(name) => match chosen_session(
                    *lldb_manager,
                    arguments@,
                    "No current session to save"@,
                ) {
                    Err(msg) => r matches Err(e) && is_choice_error(e, arguments@, msg),
                    Ok(id) => match lldb_manager.session(id) {
                        None => r matches Err(IncodeError::SessionError(m)) && m@
                            == "Session not found: "@ + uuid_text(id),
                        Some(s) => r matches Ok(p) && {
                            &&& p.session_id == id
                            &&& p.file_name@ == name + ".json"@
                            &&& opt_view(p.directory) == as_text(lookup(arguments@, "save_path"@))
                            &&& exists|j: Json|
                                #[trigger] is_saved_record(
                                    j,
                                    s,
                                    lldb_manager.thread_id(),
                                    lldb_manager.frame_index(),
                                    lldb_manager.target_selected(),
                                    lldb_manager.process_attached(),
                                    lldb_manager.thread_selected(),
                                ) && p.data@ == pretty_json_text_of(j)
                        },
                    },
                },
            },
    {
        let session_name = match arg_str(arguments, "session_name") {
            Some(n) => n,
            None => {
                return Err(IncodeError::invalid_parameter("session_name required"));
            },
        };
        let directory = arg_str(arguments, "save_path");
        let id = match choose_session(lldb_manager, arguments, "No current session to save") {
            Ok(id) => id,
            Err(e) => {
                return Err(e);
            },
        };
        let record = match lldb_manager.save_session(id) {
            Ok(j) => j,
            Err(e) => {
                return Err(e);
            },
        };
        let data = pretty_json_text(&record);
        let mut file_name = session_name;
        push_str(&mut file_name, ".json");
        Ok(SavePlan { session_id: id, data, file_name, directory })
    }

    /// The answer once the caller has tried to write `plan`.
    pub fn respond(&self, plan: &SavePlan, outcome: SaveOutcome) -> (r: ToolResponse)
        requires
            utf8_len(plan.data@) <= u64::MAX,
        ensures
            exists|j: Json|
                #[trigger] is_json_success(r, j) && match outcome {
                    SaveOutcome::DirectoryFailed(e) => is_plain_failure(
                        j,
                        "Failed to create directory: "@ + e@,
                    ),
                    SaveOutcome::WriteFailed(e) => is_plain_failure(
                        j,
                        "Failed to save session file: "@ + e@,
                    ),
                    SaveOutcome::Written(path) => j matches Json::Object(es) && es@.len() == 5
                        && has_value(es@, 0, "success"@, Json::Bool(true)) && has_text(
                        es@,
                        1,
                        "session_id"@,
                        uuid_text(plan.session_id),
                    ) && has_text(es@, 2, "file_path"@, path@) && es@[3].0@ == "saved_at"@
                        && es@[3].1 is Str && has_value(
                        es@,
                        4,
                        "size"@,
                        Json::UInt(utf8_len(plan.data@) as u64),
                    ),
                },
    {
        let j = match outcome {
            SaveOutcome::DirectoryFailed(e) => {
                let mut msg = String::new();
                push_str(&mut msg, "Failed to create directory: ");
                push_str(&mut msg, e.as_str());
                plain_failure(msg)
            },
            SaveOutcome::WriteFailed(e) => {
                let mut msg = String::new();
                push_str(&mut msg, "Failed to save session file: ");
                push_str(&mut msg, e.as_str());
                plain_failure(msg)
            },
            SaveOutcome::Written(path) => {
                let mut es: Vec<(String, Json)> = Vec::new();
                es.push(entry("success", Json::Bool(true)));
                es.push(entry("session_id", Json::Str(session_id_text(plan.session_id))));
                es.push(entry("file_path", Json::Str(path)));
                es.push(entry("saved_at", Json::Str(dec_string(unix_time_secs()))));
                es.push(entry("size", Json::UInt(byte_len(plan.data.as_str()))));
                Json::Object(es)
            },
        };
        let r = json_success(&j);
        assert(is_json_success(r, j));
        r
    }
}

// ---------------------------------------------------------------------------
// load_session
// ---------------------------------------------------------------------------

/// Where the session to load comes from: a file at a path, the file of a
/// session name in the caller's directory for sessions, or the data
/// itself.
#[derive(Debug)]
pub enum SessionSource {
    File(String),
    Named(String),
    Data(String),
}

/// The source of the session to load that the arguments give: `file_path`
/// first, then `session_name`, then `session_data`.
pub open spec fn source_arg(args: Seq<(String, Json)>) -> Option<(nat, Seq<char>)> {
    match as_text(lookup(args, "file_path"@)) {
        Some(p) => Some((0nat, p)),
        None => match as_text(lookup(args, "session_name"@)) {
            Some(n) => Some((1nat, n)),
            None => match as_text(lookup(args, "session_data"@)) {
                Some(d) => Some((2nat, d)),
                None => None,
            },
        },
    }
}

/// `s` is the source numbered `k` (0 a file, 1 a name, 2 the data) with
/// text `t`.
pub open spec fn is_source(s: SessionSource, k: nat, t: Seq<char>) -> bool {
    match s {
        SessionSource::File(p) => k == 0 && p@ == t,
        SessionSource::Named(n) => k == 1 && n@ == t,
        SessionSource::Data(d) => k == 2 && d@ == t,
    }
}

/// What reading a session gave: the parsed session data, or the text of
/// the error in reading the file or in reading its JSON.
#[derive(Debug)]
pub enum LoadedData {
    Parsed(Json),
    ReadFailed(String),
    ParseFailed(String),
}

/// Loads a debugging session.
#[derive(Debug)]
pub struct LoadSessionTool;

impl LoadSessionTool {
    pub fn name(&self) -> (r: &'static str)
        ensures
            r@ == "load_session"@,
    {
        "load_session"
    }

    pub fn description(&self) -> (r: &'static str)
        ensures
            r@ == "Load debugging session state"@,
    {
        "Load debugging session state"
    }

    /// Where to load the session from, or the answer where the arguments
    /// name no source.
    pub fn source(&self, arguments: &Arguments) -> (r: Result<SessionSource, ToolResponse>)
        ensures
            match source_arg(arguments@) {
                Some((k, t)) => r matches Ok(s) && is_source(s, k, t),
                None => r matches Err(resp) && exists|j: Json|
                    #[trigger] is_json_success(resp, j) && is_plain_failure(
                        j,
                        "Either file_path, session_name, or session_data is required"@,
                    ),
            },
    {
        if let Some(p) = arg_str(arguments, "file_path") {
            return Ok(SessionSource::File(p));
        }
        if let Some(n) = arg_str(arguments, "session_name") {
            return Ok(SessionSource::Named(n));
        }
        if let Some(d) = arg_str(arguments, "session_data") {
            return Ok(SessionSource::Data(d));
        }
        let j = plain_failure("Either file_path, session_name, or session_data is required".to_owned());
        let resp = json_success(&j);
        assert(is_json_success(resp, j));
        Err(resp)
    }

    /// The message for a session file that could not be read: for a named
    /// session it shows the path tried (`path`).
    pub fn read_failure(source: &SessionSource, path: &str, error: &str) -> (r: String)
        ensures
            r@ == match source {
                SessionSource::Named(_) => "Failed to read session file "@ + path@ + ": "@
                    + error@,
                _ => "Failed to read session file: "@ + error@,
            },
    {
        let mut msg = String::new();
        match source {
            SessionSource::Named(_) => {
                push_str(&mut msg, "Failed to read session file ");
                push_str(&mut msg, path);
                push_str(&mut msg, ": ");
            },
            _ => {
                push_str(&mut msg, "Failed to read session file: ");
            },
        }
        push_str(&mut msg, error);
        msg
    }

    /// Loads the session the caller read (`data`) and reports it, with the
    /// components restored (the breakpoints unless `restore_breakpoints`
    /// is false).
    pub fn load(&self, lldb_manager: &mut LldbManager, arguments: &Arguments, data: LoadedData) -> (r:
        ToolResponse)
        ensures
            exists|j: Json|
                #[trigger] is_json_success(r, j) && match data {
                    LoadedData::ReadFailed(msg) => is_plain_failure(j, msg@) && *final(lldb_manager) == *old(lldb_manager),
                    LoadedData::ParseFailed(e) => is_plain_failure(
                        j,
                        "Failed to load session: "@ + ("LLDB operation failed: "@
                            + ("Failed to parse session data: "@ + e@)),
                    ) && *final(lldb_manager) == *old(lldb_manager),
                    LoadedData::Parsed(d) => exists|out: Result<u128, IncodeError>|
                        #[trigger] crate::lldb_manager::is_load_outcome(
                            *old(lldb_manager),
                            d,
                            *final(lldb_manager),
                            out,
                        ) && match out {
                            Err(e) => has_known_text(e) ==> is_plain_failure(
                                j,
                                "Failed to load session: "@ + error_text(e),
                            ),
                            Ok(id) => j matches Json::Object(es) && {
                                let restore = flag_arg(arguments@, "restore_breakpoints"@, true);
                                &&& es@.len() == if restore {
                                    5int
                                } else {
                                    4int
                                }
                                &&& has_value(es@, 0, "success"@, Json::Bool(true))
                                &&& has_text(es@, 1, "session_id"@, uuid_text(id))
                                &&& es@[2].0@ == "loaded_at"@ && es@[2].1 is Str
                                &&& has_text(es@, 3, "session_state"@, "loaded"@)
                                &&& restore ==> es@[4].0@ == "restored_components"@
                                    && crate::json::is_text_array(es@[4].1, seq!["breakpoints"@])
                            },
                        },
                },
    {
        let restore = arg_bool_or(arguments, "restore_breakpoints", true);
        let j = match data {
            LoadedData::ReadFailed(msg) => plain_failure(msg),
            LoadedData::ParseFailed(e) => {
                let mut inner = String::new();
                push_str(&mut inner, "Failed to parse session data: ");
                push_str(&mut inner, e.as_str());
                let err = IncodeError::LldbOperation(inner);
                let mut msg = String::new();
                push_str(&mut msg, "Failed to load session: ");
                let m = err.message();
                push_str(&mut msg, m.as_str());
                plain_failure(msg)
            },
            LoadedData::Parsed(d) => {
                let ghost before = *lldb_manager;
                let out = lldb_manager.load_session(&d);
                let j = match &out {
                    Err(e) => {
                        let mut msg = String::new();
                        push_str(&mut msg, "Failed to load session: ");
                        let m = e.message();
                        push_str(&mut msg, m.as_str());
                        plain_failure(msg)
                    },
                    Ok(id) => {
                        let mut es: Vec<(String, Json)> = Vec::new();
                        es.push(entry("success", Json::Bool(true)));
                        es.push(entry("session_id", Json::Str(session_id_text(*id))));
                        es.push(entry("loaded_at", Json::Str(dec_string(unix_time_secs()))));
                        es.push(entry("session_state", jstr("loaded")));
                        if restore {
                            let mut parts: Vec<String> = Vec::new();
                            parts.push("breakpoints".to_owned());
                            let a = text_array(&parts);
                            assert(parts@.map_values(|s: String| s@) =~= seq!["breakpoints"@]);
                            es.push(entry("restored_components", a));
                        }
                        Json::Object(es)
                    },
                };
                assert(crate::lldb_manager::is_load_outcome(before, d, *lldb_manager, out));
                j
            },
        };
        let r = json_success(&j);
        assert(is_json_success(r, j));
        r
    }
}

// ---------------------------------------------------------------------------
// cleanup_session
// ---------------------------------------------------------------------------

/// The resources a cleanup reports: those the arguments ask for
/// (breakpoints, processes and temporary files, each by default), then the
/// session's state.
pub open spec fn cleaned_resources(args: Seq<(String, Json)>) -> Seq<Seq<char>> {
    (if flag_arg(args, "cleanup_breakpoints"@, true) {
        seq!["breakpoints"@]
    } else {
        Seq::empty()
    }) + (if flag_arg(args, "cleanup_processes"@, true) {
        seq!["processes"@]
    } else {
        Seq::empty()
    }) + (if flag_arg(args, "cleanup_files"@, true) {
        seq!["temporary_files"@]
    } else {
        Seq::empty()
    }) + seq!["session_state"@]
}

/// Cleans up a debugging session.
#[derive(Debug)]
pub struct CleanupSessionTool;

impl CleanupSessionTool {
    pub fn name(&self) -> (r: &'static str)
        ensures
            r@ == "cleanup_session"@,
    {
        "cleanup_session"
    }

    pub fn description(&self) -> (r: &'static str)
        ensures
            r@ == "Clean up debugging session resources"@,
    {
        "Clean up debugging session resources"
    }

    /// Removes the session chosen by `session_id` (the current one by
    /// default) and reports the resources cleaned.
    pub fn execute(&self, lldb_manager: &mut LldbManager, arguments: &Arguments) -> (r: Result<
        ToolResponse,
        IncodeError,
    >)
        ensures
            match chosen_session(*old(lldb_manager), arguments@, "No current session to cleanup"@) {
                Err(msg) => r matches Err(e) && is_choice_error(e, arguments@, msg) && *final(lldb_manager) == *old(lldb_manager),
                Ok(id) => match old(lldb_manager).session(id) {
                    None => r matches Err(IncodeError::SessionError(m)) && m@
                        == "Session not found: "@ + uuid_text(id),
                    Some(_) => r matches Ok(resp) && final(lldb_manager).session(id) is None
                        && exists|j: Json|
                        #[trigger] is_json_success(resp, j) && (j matches Json::Object(es)
                            && es@.len() == 6 && has_value(es@, 0, "success"@, Json::Bool(true))
                            && has_text(es@, 1, "session_id"@, uuid_text(id)) && has_text(
                            es@,
                            2,
                            "result"@,
                            "Session "@ + uuid_text(id) + " resources cleaned up"@,
                        ) && has_value(
                            es@,
                            3,
                            "force_cleanup"@,
                            Json::Bool(flag_arg(arguments@, "force_cleanup"@, false)),
                        ) && es@[4].0@ == "resources_cleaned"@ && crate::json::is_text_array(
                            es@[4].1,
                            cleaned_resources(arguments@),
                        ) && es@[5].0@ == "cleaned_up_at"@ && es@[5].1 is Str),
                },
            },
    {
        let id = match choose_session(lldb_manager, arguments, "No current session to cleanup") {
            Ok(id) => id,
            Err(e) => {
                return Err(e);
            },
        };
        let force = arg_bool_or(arguments, "force_cleanup", false);
        let breakpoints = arg_bool_or(arguments, "cleanup_breakpoints", true);
        let processes = arg_bool_or(arguments, "cleanup_processes", true);
        let files = arg_bool_or(arguments, "cleanup_files", true);
        let result = match lldb_manager.cleanup_session(id) {
            Ok(t) => t,
            Err(e) => {
                return Err(e);
            },
        };
        let mut resources: Vec<String> = Vec::new();
        if breakpoints {
            resources.push("breakpoints".to_owned());
        }
        if processes {
            resources.push("processes".to_owned());
        }
        if files {
            resources.push("temporary_files".to_owned());
        }
        resources.push("session_state".to_owned());
        assert(resources@.map_values(|s: String| s@) =~= cleaned_resources(arguments@));
        let mut es: Vec<(String, Json)> = Vec::new();
        es.push(entry("success", Json::Bool(true)));
        es.push(entry("session_id", Json::Str(session_id_text(id))));
        es.push(entry("result", Json::Str(result)));
        es.push(entry("force_cleanup", Json::Bool(force)));
        es.push(entry("resources_cleaned", text_array(&resources)));
        es.push(entry("cleaned_up_at", Json::Str(dec_string(unix_time_secs()))));
        let j = Json::Object(es);
        let resp = json_success(&j);
        assert(is_json_success(resp, j));
        Ok(resp)
    }
}

/// A stand-in for the session tools.
#[derive(Debug)]
pub struct PlaceholderTool;

impl PlaceholderTool {
    pub fn name(&self) -> (r: &'static str)
        ensures
            r@ == "placeholder"@,
    {
        "placeholder"
    }

    pub fn description(&self) -> (r: &'static str)
        ensures
            r@ == "Placeholder tool - needs implementation"@,
    {
        "Placeholder tool - needs implementation"
    }

    /// The answer, whatever the arguments.
    pub fn execute(&self, args: &Arguments) -> (r: ToolResponse)
        ensures
            is_failure(r, "Not implemented"@),
    {
        failure("Not implemented")
    }
}

} // verus!
