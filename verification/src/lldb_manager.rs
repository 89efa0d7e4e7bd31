//! The debugger state that the tools act on: the records that debugging
//! operations report, the debugging sessions, and the bookkeeping of the
//! current target, process, thread and frame.
//!
//! The debugger engine itself is driven by the program that hosts this
//! library; each operation here takes what the engine reported and decides
//! the outcome and the next state.

use vstd::prelude::*;

pub mod registers;
pub mod symbols;
pub mod target;
pub mod commands;
pub mod crash;
pub mod processes;
use crate::error::{fails_init, fails_not_found, fails_not_impl, fails_op, IncodeError};
use crate::lldb_manager::symbols::{is_resolved_location, RawLineInfo};
use crate::json::{
    lookup, entry, field, is_opt_text_value, is_opt_uint_value, is_text, jopt_str, keys, obj_str,
    obj_u64, opt_view, pair_views, text_field, value_at, Json,
};
use crate::text::{
    chars_of, find_char, has_prefix, index_of, parse_bounded, parse_unsigned_chars,
    push_hex_address, string_of, string_of_range, sub_chars, str_starts_with, dec_str, hex_addr,
    hex_pad, push_char, push_hex_pad, push_dec, push_str, str_contains, str_eq, views,
};

verus! {

broadcast use vstd::string::group_string_axioms;

#[verifier::external_type_specification]
#[verifier::external_body]
pub struct ExSystemTime(std::time::SystemTime);

/// A mapped region of the target's address space.
#[derive(Debug)]
pub struct MemoryRegion {
    pub start_address: u64,
    pub end_address: u64,
    pub size: u64,
    pub permissions: String,
    pub name: Option<String>,
}

/// A mapped region of the process as the engine reported it.
#[derive(Debug)]
pub struct RawRegion {
    pub base: u64,
    pub end: u64,
    pub readable: bool,
    pub writable: bool,
    pub executable: bool,
    /// The region's name, where the engine gave one.
    pub name: Option<String>,
}

/// A segment of the target's memory map.
#[derive(Debug)]
pub struct MemorySegment {
    pub name: String,
    pub vm_address: u64,
    pub vm_size: u64,
    pub file_offset: u64,
    pub file_size: u64,
    pub max_protection: String,
    pub initial_protection: String,
    pub segment_type: String,
}

/// The target's memory map.
#[derive(Debug)]
pub struct MemoryMap {
    pub total_segments: usize,
    pub total_vm_size: u64,
    pub segments: Vec<MemorySegment>,
    pub load_address: u64,
    pub slide: u64,
}

/// A variable visible in a frame.
#[derive(Debug)]
pub struct Variable {
    pub name: String,
    pub value: String,
    pub var_type: String,
    pub is_argument: bool,
    pub scope: String,
}

/// Detailed information about one variable.
#[derive(Debug)]
pub struct VariableInfo {
    pub name: String,
    pub full_name: String,
    pub var_type: String,
    pub type_class: String,
    pub value: String,
    pub address: u64,
    pub size: usize,
    pub is_valid: bool,
    pub is_in_scope: bool,
    pub location: String,
    pub declaration_file: Option<String>,
    pub declaration_line: Option<u32>,
}

/// One frame of a thread's stack.
#[derive(Debug)]
pub struct StackFrame {
    pub index: u32,
    pub function_name: String,
    pub file_path: Option<String>,
    pub line_number: Option<u32>,
    pub address: u64,
    pub is_inlined: bool,
}

/// A thread of the process.
#[derive(Debug)]
pub struct ThreadInfo {
    pub thread_id: u32,
    pub index: u32,
    pub name: Option<String>,
    pub state: String,
    pub stop_reason: Option<String>,
    pub queue_name: Option<String>,
    pub frame_count: u32,
    pub current_frame: Option<StackFrame>,
}

/// One register and its value.
#[derive(Debug)]
pub struct RegisterInfo {
    pub name: String,
    pub value: u64,
    pub size: u32,
    pub register_type: String,
    pub format: String,
    pub is_valid: bool,
}

/// The registers of a thread at one moment; each name occurs once.
#[derive(Debug)]
pub struct RegisterState {
    pub registers: Vec<RegisterInfo>,
    pub timestamp: std::time::SystemTime,
    pub thread_id: Option<u32>,
    pub frame_index: Option<u32>,
}

/// A place in the source code.
#[derive(Debug)]
pub struct SourceLocation {
    pub file_path: String,
    pub line_number: u32,
    pub column: Option<u32>,
    pub function_name: Option<String>,
    pub address: u64,
    pub is_valid: bool,
}

/// A listing of source lines.
#[derive(Debug)]
pub struct SourceCode {
    pub file_path: String,
    pub lines: Vec<SourceLine>,
    pub start_line: u32,
    pub end_line: u32,
    pub current_line: Option<u32>,
    pub total_lines: Option<u32>,
}

/// One line of a source listing.
#[derive(Debug)]
pub struct SourceLine {
    pub line_number: u32,
    pub content: String,
    pub is_current: bool,
    pub has_breakpoint: bool,
    pub address: Option<u64>,
}

/// A function of the target.
#[derive(Debug)]
pub struct FunctionInfo {
    pub name: String,
    pub mangled_name: Option<String>,
    pub start_address: u64,
    pub end_address: Option<u64>,
    pub file_path: Option<String>,
    pub line_number: Option<u32>,
    pub size: Option<u64>,
    pub is_inline: bool,
    pub return_type: Option<String>,
}

/// A summary of the target's debug information.
#[derive(Debug)]
pub struct DebugInfo {
    pub has_debug_symbols: bool,
    pub debug_format: String,
    pub compilation_units: Vec<CompilationUnit>,
    pub symbol_count: u32,
    pub line_table_count: u32,
    pub function_count: u32,
}

/// One compilation unit of the debug information.
#[derive(Debug)]
pub struct CompilationUnit {
    pub file_path: String,
    pub producer: Option<String>,
    pub language: Option<String>,
    pub low_pc: u64,
    pub high_pc: u64,
    pub line_count: u32,
}

/// What is known of the debugging target's executable.
#[derive(Debug)]
pub struct TargetInfo {
    pub executable_path: String,
    pub architecture: String,
    pub platform: String,
    pub executable_format: String,
    pub has_debug_symbols: bool,
    pub entry_point: Option<u64>,
    pub base_address: Option<u64>,
    pub file_size: u64,
    pub creation_time: Option<std::time::SystemTime>,
    pub is_pie: bool,
    pub is_stripped: bool,
    pub endianness: String,
}

/// What is known of the platform the target runs on.
#[derive(Debug)]
pub struct PlatformInfo {
    pub name: String,
    pub version: String,
    pub architecture: String,
    pub vendor: String,
    pub environment: String,
    pub sdk_version: Option<String>,
    pub deployment_target: Option<String>,
    pub is_simulator: bool,
    pub is_remote: bool,
    pub supports_jit: bool,
    pub working_directory: String,
    pub supported_architectures: Vec<String>,
    pub hostname: Option<String>,
}

/// A module (executable or library) loaded in the target.
#[derive(Debug)]
pub struct ModuleInfo {
    pub name: String,
    pub file_path: String,
    pub uuid: String,
    pub architecture: String,
    pub load_address: u64,
    pub file_size: u64,
    pub is_main_executable: bool,
    pub has_debug_symbols: bool,
    pub symbol_vendor: Option<String>,
    pub compile_units: Vec<String>,
    pub num_symbols: u32,
    pub slide: Option<u64>,
    pub version: Option<String>,
}

/// What is known of one symbol.
#[derive(Debug)]
pub struct SymbolInfo {
    pub name: String,
    pub demangled_name: Option<String>,
    pub symbol_type: String,
    pub address: u64,
    pub size: u64,
    pub module: Option<String>,
    pub file: Option<String>,
    pub line: Option<u32>,
    pub is_exported: bool,
    pub is_debug: bool,
    pub visibility: String,
}

/// The analysis of a crash.
#[derive(Debug)]
pub struct CrashAnalysis {
    pub crash_type: String,
    pub crash_address: Option<u64>,
    pub faulting_thread: u32,
    pub signal_number: i32,
    pub signal_name: String,
    pub exception_type: Option<String>,
    pub exception_codes: Vec<u64>,
    pub crashed_thread_backtrace: Vec<String>,
    pub register_state: String,
    pub memory_regions: Vec<String>,
    pub loaded_modules: Vec<String>,
    pub crash_summary: String,
    pub recommendations: Vec<String>,
}

/// A process of the system.
#[derive(Debug)]
pub struct ProcessInfo {
    pub pid: u32,
    pub state: String,
    pub executable_path: Option<String>,
    pub memory_usage: Option<u64>,
}

/// A breakpoint of the target.
#[derive(Debug)]
pub struct BreakpointInfo {
    pub id: u32,
    pub enabled: bool,
    pub hit_count: u32,
    pub location: String,
    pub condition: Option<String>,
}

/// A stack frame as the frame tools report it.
#[derive(Debug)]
pub struct FrameInfo {
    pub index: u32,
    pub function_name: String,
    pub pc: u64,
    pub sp: u64,
    pub module: Option<String>,
    pub file: Option<String>,
    pub line: Option<u32>,
}

/// The debugger's version and build.
#[derive(Debug)]
pub struct LldbVersionInfo {
    pub version: String,
    pub build_number: Option<String>,
    pub api_version: String,
    pub build_date: Option<String>,
    pub build_configuration: Option<String>,
    pub compiler: Option<String>,
    pub platform: String,
}

/// Where a debugging session stands.
#[derive(Debug, Clone, Copy, PartialEq, Eq, Structural)]
pub enum SessionState {
    Created,
    Attached,
    Running,
    Stopped,
    Terminated,
}

/// A debugging session.
#[derive(Debug)]
pub struct DebuggingSession {
    /// The session's identifier (the value of a version-4 UUID).
    pub id: u128,
    pub target_path: Option<String>,
    pub process_id: Option<u32>,
    pub state: SessionState,
    /// When the session was created: whole seconds since the Unix epoch,
    pub created_at: u64,
    /// and the nanoseconds past that second.
    pub created_at_nanos: u32,
}

impl DebuggingSession {
    /// A copy of the session.
    pub fn duplicate(&self) -> (r: Self)
        ensures
            r == *self,
    {
        DebuggingSession {
            id: self.id,
            target_path: match &self.target_path {
                Some(t) => Some(t.clone()),
                None => None,
            },
            process_id: self.process_id,
            state: self.state,
            created_at: self.created_at,
            created_at_nanos: self.created_at_nanos,
        }
    }
}

// ---------------------------------------------------------------------------
// Session identifiers
// ---------------------------------------------------------------------------

/// The hyphenated lowercase text of a UUID with value `id`: 32 hexadecimal
/// digits in groups of 8, 4, 4, 4 and 12.
pub open spec fn uuid_text(id: u128) -> Seq<char> {
    let h = hex_pad(id as nat, 32);
    h.subrange(0, 8) + seq!['-'] + h.subrange(8, 12) + seq!['-'] + h.subrange(12, 16) + seq![
        '-',
    ] + h.subrange(16, 20) + seq!['-'] + h.subrange(20, 32)
}

/// What `Uuid::parse_str` gives for a text: the UUID's value, or the text
/// of the error.
pub uninterp spec fn uuid_parse_result(s: Seq<char>) -> Result<u128, Seq<char>>;

/// A fresh random version-4 UUID (`Uuid::new_v4`), as its value. The value
/// is random; nothing is promised of it.
#[verifier::external_body]
fn fresh_session_id() -> u128 {
    uuid::Uuid::new_v4().as_u128()
}

/// The time from the Unix epoch to `t` (`SystemTime::duration_since`),
/// none for a time before the epoch. It depends on the clock that gave
/// `t`; nothing is promised of it.
#[verifier::external_body]
pub(crate) fn since_epoch(t: &std::time::SystemTime) -> Option<std::time::Duration> {
    t.duration_since(std::time::UNIX_EPOCH).ok()
}

/// The whole number of nanoseconds in `d` (`Duration::as_nanos`). A
/// duration holds at most `u64::MAX` whole seconds and fewer than a
/// billion nanoseconds more.
#[verifier::external_body]
pub(crate) fn duration_nanos(d: &std::time::Duration) -> (r: u128)
    ensures
        r < (u64::MAX as int + 1) * 1_000_000_000,
{
    d.as_nanos()
}

/// The whole seconds from the Unix epoch to `t`, zero for a time before
/// the epoch.
pub fn epoch_secs(t: &std::time::SystemTime) -> u64 {
    (epoch_nanos(t) / 1_000_000_000) as u64
}

/// The whole nanoseconds from the Unix epoch to `t`, zero for a time
/// before the epoch.
pub fn epoch_nanos(t: &std::time::SystemTime) -> (r: u128)
    ensures
        r < (u64::MAX as int + 1) * 1_000_000_000,
{
    match since_epoch(t) {
        Some(d) => duration_nanos(&d),
        None => 0,
    }
}

/// The current time in whole seconds since the Unix epoch, zero for a
/// clock set before the epoch.
pub fn unix_time_secs() -> u64 {
    epoch_secs(&current_time())
}

/// The current time since the Unix epoch as whole seconds and the
/// nanoseconds past them (both zero for a clock set before the epoch).
pub fn unix_time_precise() -> (r: (u64, u32))
    ensures
        r.1 < 1_000_000_000,
{
    let n = epoch_nanos(&current_time());
    let secs = n / 1_000_000_000;
    let nanos = n % 1_000_000_000;
    assert(secs <= u64::MAX) by (nonlinear_arith)
        requires
            n < (u64::MAX as int + 1) * 1_000_000_000,
            secs == n / 1_000_000_000,
    ;
    (secs as u64, nanos as u32)
}

/// The current time (`SystemTime::now`). Nothing is promised of it.
#[verifier::external_body]
pub(crate) fn current_time() -> std::time::SystemTime {
    std::time::SystemTime::now()
}

/// The display text of the UUID with value `id` (`Uuid::to_string`), which
/// the `uuid` crate writes as 32 lowercase hexadecimal digits, most
/// significant first, hyphenated after the 8th, 12th, 16th and 20th.
#[verifier::external_body]
pub(crate) fn session_id_text(id: u128) -> (r: String)
    ensures
        r@ == uuid_text(id),
{
    uuid::Uuid::from_u128(id).to_string()
}

/// Reads a UUID (`Uuid::parse_str`) and gives its value, or the text of the
/// error. The reader accepts the hyphenated form that `session_id_text`
/// writes, so the text of a UUID reads back as that UUID.
#[verifier::external_body]
pub(crate) fn parse_session_id(s: &str) -> (r: Result<u128, String>)
    ensures
        r is Ok ==> uuid_parse_result(s@) is Ok && uuid_parse_result(s@)->Ok_0 == r->Ok_0,
        r is Err ==> uuid_parse_result(s@) is Err && uuid_parse_result(s@)->Err_0 == r->Err_0@,
        forall|id: u128| #[trigger] uuid_text(id) == s@ ==> r is Ok && r->Ok_0 == id,
{
    match uuid::Uuid::parse_str(s) {
        Ok(u) => Ok(u.as_u128()),
        Err(e) => Err(e.to_string()),
    }
}

// ---------------------------------------------------------------------------
// The session table
// ---------------------------------------------------------------------------

/// The first session with identifier `id`.
pub open spec fn find_session(s: Seq<DebuggingSession>, id: u128) -> Option<DebuggingSession>
    decreases s.len(),
{
    if s.len() == 0 {
        None
    } else if s[0].id == id {
        Some(s[0])
    } else {
        find_session(s.drop_first(), id)
    }
}

/// The session found under an identifier carries that identifier.
proof fn lemma_find_session_id(s: Seq<DebuggingSession>, id: u128)
    ensures
        find_session(s, id) matches Some(x) ==> x.id == id,
    decreases s.len(),
{
    if s.len() > 0 && s[0].id != id {
        lemma_find_session_id(s.drop_first(), id);
    }
}

/// `s` without the sessions whose identifier is `id`.
pub open spec fn without_session(s: Seq<DebuggingSession>, id: u128) -> Seq<DebuggingSession>
    decreases s.len(),
{
    if s.len() == 0 {
        s
    } else if s.last().id == id {
        without_session(s.drop_last(), id)
    } else {
        without_session(s.drop_last(), id).push(s.last())
    }
}

proof fn lemma_find_push(s: Seq<DebuggingSession>, x: DebuggingSession, id: u128)
    ensures
        find_session(s.push(x), id) == match find_session(s, id) {
            Some(y) => Some(y),
            None => if x.id == id { Some(x) } else { None },
        },
    decreases s.len(),
{
    if s.len() > 0 {
        assert(s.push(x).drop_first() =~= s.drop_first().push(x));
        lemma_find_push(s.drop_first(), x, id);
    } else {
        assert(s.push(x).drop_first() =~= s);
    }
}

proof fn lemma_find_without(s: Seq<DebuggingSession>, id: u128, other: u128)
    ensures
        find_session(without_session(s, id), other) == if other == id {
            None
        } else {
            find_session(s, other)
        },
    decreases s.len(),
{
    if s.len() > 0 {
        lemma_find_without(s.drop_last(), id, other);
        assert(s =~= s.drop_last().push(s.last()));
        lemma_find_push(s.drop_last(), s.last(), other);
        if s.last().id != id {
            lemma_find_push(without_session(s.drop_last(), id), s.last(), other);
        }
    }
}

/// The state of the debugger: its sessions and what is currently selected.
#[derive(Debug)]
pub struct LldbManager {
    lldb_path: Option<String>,
    sessions: Vec<DebuggingSession>,
    current_session: Option<u128>,
    has_debugger: bool,
    has_target: bool,
    has_process: bool,
    has_thread: bool,
    current_thread_id: Option<u32>,
    current_frame_index: u32,
}

/// `r` is what reading session `id` of `m` gives: the session, or the
/// error for one that is not there.
pub open spec fn is_session_read(m: LldbManager, id: u128, r: Result<DebuggingSession, IncodeError>) -> bool {
    match m.session(id) {
        Some(s) => r == Ok::<DebuggingSession, IncodeError>(s),
        None => r matches Err(IncodeError::SessionError(e)) && e@ == "Session not found: "@
            + uuid_text(id),
    }
}

/// `m1` and `r` are what setting the state of session `id` of `m0` to
/// `state` gives: that session with the new state, the others as they
/// were; the error for a session that is not there.
pub open spec fn is_state_updated(
    m0: LldbManager,
    id: u128,
    state: SessionState,
    m1: LldbManager,
    r: Result<(), IncodeError>,
) -> bool {
    &&& match m0.session(id) {
        Some(s) => {
            &&& r is Ok
            &&& m1.session(id) == Some(DebuggingSession { state, ..s })
        },
        None => {
            &&& r matches Err(IncodeError::SessionError(e)) && e@ == "Session not found: "@
                + uuid_text(id)
            &&& m1.session(id) is None
        },
    }
    &&& forall|other: u128| other != id ==> m1.session(other) == m0.session(other)
}

/// Reading a session whose state was just set gives that state, the rest
/// of the session unchanged; the other sessions read as before.
pub proof fn law_state_update_reads_back(
    m0: LldbManager,
    id: u128,
    state: SessionState,
    m1: LldbManager,
    r: Result<(), IncodeError>,
    read: Result<DebuggingSession, IncodeError>,
)
    requires
        m0.session(id) is Some,
        is_state_updated(m0, id, state, m1, r),
        is_session_read(m1, id, read),
    ensures
        r is Ok,
        read matches Ok(s) && s.state == state && s.id == m0.session(id)->0.id
            && s.target_path == m0.session(id)->0.target_path && s.process_id == m0.session(
            id,
        )->0.process_id && s.created_at == m0.session(id)->0.created_at
            && s.created_at_nanos == m0.session(id)->0.created_at_nanos,
{
}

/// `m1` is `m0` with a new session `id` added and made current: created,
/// with no target or process, every other session as it was.
pub open spec fn is_session_created(m0: LldbManager, m1: LldbManager, id: u128) -> bool {
    &&& m1.session(id) matches Some(s) && s.id == id && s.target_path is None
        && s.process_id is None && s.state == SessionState::Created
    &&& forall|other: u128| other != id ==> m1.session(other) == m0.session(other)
    &&& m1.current() == Some(id)
    &&& m1.thread_id() == m0.thread_id()
    &&& m1.frame_index() == m0.frame_index()
}

/// `m1` and `r` are what cleaning up session `id` of `m0` gives: the
/// session removed, and the debugger's state reset where it was the
/// current one; the error for a session that is not there.
pub open spec fn is_session_cleaned(
    m0: LldbManager,
    id: u128,
    m1: LldbManager,
    r: Result<String, IncodeError>,
) -> bool {
    match m0.session(id) {
        Some(_) => {
            &&& r matches Ok(t) && t@ == "Session "@ + uuid_text(id) + " resources cleaned up"@
            &&& m1.session(id) is None
            &&& forall|other: u128| other != id ==> m1.session(other) == m0.session(other)
            &&& if m0.current() == Some(id) {
                &&& m1.current() is None
                &&& !m1.target_selected()
                &&& !m1.process_attached()
                &&& !m1.thread_selected()
                &&& m1.thread_id() is None
                &&& m1.frame_index() == 0
            } else {
                &&& m1.current() == m0.current()
                &&& m1.target_selected() == m0.target_selected()
                &&& m1.process_attached() == m0.process_attached()
                &&& m1.thread_selected() == m0.thread_selected()
                &&& m1.thread_id() == m0.thread_id()
                &&& m1.frame_index() == m0.frame_index()
            }
        },
        None => {
            &&& r matches Err(IncodeError::SessionError(m)) && m@ == "Session not found: "@
                + uuid_text(id)
            &&& m1 == m0
        },
    }
}

/// Cleaning up a session just created succeeds, removes it, leaves the
/// current session unset, and leaves every other session as it was before
/// the session was created.
pub proof fn law_cleanup_undoes_create(
    m0: LldbManager,
    m1: LldbManager,
    id: u128,
    m2: LldbManager,
    r: Result<String, IncodeError>,
)
    requires
        is_session_created(m0, m1, id),
        is_session_cleaned(m1, id, m2, r),
    ensures
        r is Ok,
        m2.session(id) is None,
        m2.current() is None,
        forall|other: u128| other != id ==> m2.session(other) == m0.session(other),
{
}

impl LldbManager {
    /// The session with identifier `id`.
    pub closed spec fn session(&self, id: u128) -> Option<DebuggingSession> {
        find_session(self.sessions@, id)
    }

    /// The identifier of the current session.
    pub closed spec fn current(&self) -> Option<u128> {
        self.current_session
    }

    /// The debugger path that the manager was made with.
    pub closed spec fn path(&self) -> Option<String> {
        self.lldb_path
    }

    /// A debugger instance exists.
    pub closed spec fn debugger_ready(&self) -> bool {
        self.has_debugger
    }

    /// A target is selected.
    pub closed spec fn target_selected(&self) -> bool {
        self.has_target
    }

    /// A process is under the debugger.
    pub closed spec fn process_attached(&self) -> bool {
        self.has_process
    }

    /// A thread is selected.
    pub closed spec fn thread_selected(&self) -> bool {
        self.has_thread
    }

    /// The identifier of the selected thread.
    pub closed spec fn thread_id(&self) -> Option<u32> {
        self.current_thread_id
    }

    /// The index of the selected frame.
    pub closed spec fn frame_index(&self) -> u32 {
        self.current_frame_index
    }

    /// Makes the manager once the host has looked for the debugger at
    /// `lldb_path` (`path_found`) and tried to create a debugger instance
    /// (`debugger_created`).
    pub fn new(lldb_path: Option<String>, path_found: bool, debugger_created: bool) -> (r:
        Result<Self, IncodeError>)
        ensures
            match r {
                Ok(m) => {
                    &&& lldb_path is None || path_found
                    &&& debugger_created
                    &&& m.path() == lldb_path
                    &&& m.debugger_ready()
                    &&& !m.target_selected() && !m.process_attached() && !m.thread_selected()
                    &&& m.current() is None
                    &&& m.thread_id() is None
                    &&& m.frame_index() == 0
                    &&& forall|id: u128| m.session(id) is None
                },
                Err(e) => if lldb_path is Some && !path_found {
                    e matches IncodeError::LldbInitialization(msg) && msg@
                        == "LLDB executable not found at: "@ + lldb_path->0@
                } else {
                    &&& !debugger_created
                    &&& e matches IncodeError::LldbInitialization(msg) && msg@
                        == "Failed to create LLDB debugger instance"@
                },
            },
    {
        if let Some(path) = &lldb_path {
            if !path_found {
                let mut msg = String::new();
                push_str(&mut msg, "LLDB executable not found at: ");
                push_str(&mut msg, path.as_str());
                return Err(IncodeError::LldbInitialization(msg));
            }
        }
        if !debugger_created {
            return Err(IncodeError::lldb_init("Failed to create LLDB debugger instance"));
        }
        Ok(LldbManager {
            lldb_path,
            sessions: Vec::new(),
            current_session: None,
            has_debugger: true,
            has_target: false,
            has_process: false,
            has_thread: false,
            current_thread_id: None,
            current_frame_index: 0,
        })
    }

    fn remove_sessions(&mut self, id: u128)
        ensures
            final(self).sessions@ == without_session(old(self).sessions@, id),
            final(self).current_session == old(self).current_session,
            final(self).lldb_path == old(self).lldb_path,
            final(self).has_debugger == old(self).has_debugger,
            final(self).has_target == old(self).has_target,
            final(self).has_process == old(self).has_process,
            final(self).has_thread == old(self).has_thread,
            final(self).current_thread_id == old(self).current_thread_id,
            final(self).current_frame_index == old(self).current_frame_index,
    {
        let mut old_sessions: Vec<DebuggingSession> = Vec::new();
        std::mem::swap(&mut old_sessions, &mut self.sessions);
        let ghost all = old_sessions@;
        let mut kept: Vec<DebuggingSession> = Vec::new();
        let mut i: usize = 0;
        let n = old_sessions.len();
        assert(all.take(0) =~= Seq::<DebuggingSession>::empty());
        while old_sessions.len() > 0
            invariant
                n == all.len(),
                i + old_sessions.len() == n,
                old_sessions@ =~= all.subrange(i as int, n as int),
                kept@ == without_session(all.take(i as int), id),
            decreases old_sessions.len(),
        {
            let x = old_sessions.remove(0);
            assert(all.take(i + 1).drop_last() =~= all.take(i as int));
            assert(all.take(i + 1).last() == x);
            if x.id != id {
                kept.push(x);
            }
            i = i + 1;
        }
        assert(all.take(n as int) =~= all);
        self.sessions = kept;
    }

    /// Starts a new debugging session and makes it the current one.
    pub fn create_session(&mut self) -> (r: Result<u128, IncodeError>)
        ensures
            r matches Ok(id) && is_session_created(*old(self), *final(self), id),
    {
        let id = fresh_session_id();
        let (created_at, created_at_nanos) = unix_time_precise();
        self.remove_sessions(id);
        let ghost before = self.sessions@;
        let session = DebuggingSession {
            id,
            target_path: None,
            process_id: None,
            state: SessionState::Created,
            created_at,
            created_at_nanos,
        };
        let ghost x = session;
        self.sessions.push(session);
        self.current_session = Some(id);
        proof {
            assert forall|other: u128| #[trigger] find_session(self.sessions@, other) == if other
                == id {
                Some(x)
            } else {
                find_session(old(self).sessions@, other)
            } by {
                lemma_find_push(before, x, other);
                lemma_find_without(old(self).sessions@, id, other);
            }
        }
        Ok(id)
    }

    /// The identifier of the current session.
    pub fn current_session_id(&self) -> (r: Option<u128>)
        ensures
            r == self.current(),
    {
        self.current_session
    }

    fn find_index(&self, id: u128) -> (r: Option<usize>)
        ensures
            match r {
                Some(i) => i < self.sessions@.len() && self.sessions@[i as int].id == id
                    && find_session(self.sessions@, id) == Some(self.sessions@[i as int])
                    && forall|k: int| 0 <= k < i ==> self.sessions@[k].id != id,
                None => find_session(self.sessions@, id) is None,
            },
    {
        let mut i: usize = 0;
        assert(self.sessions@.subrange(0, self.sessions@.len() as int) =~= self.sessions@);
        while i < self.sessions.len()
            invariant
                i <= self.sessions@.len(),
                find_session(self.sessions@, id) == find_session(
                    self.sessions@.subrange(i as int, self.sessions@.len() as int),
                    id,
                ),
                forall|k: int| 0 <= k < i ==> self.sessions@[k].id != id,
            decreases self.sessions@.len() - i,
        {
            let ghost rest = self.sessions@.subrange(i as int, self.sessions@.len() as int);
            assert(rest.drop_first() =~= self.sessions@.subrange(
                i + 1,
                self.sessions@.len() as int,
            ));
            if self.sessions[i].id == id {
                return Some(i);
            }
            i = i + 1;
        }
        None
    }

    /// A copy of the session with identifier `id`.
    pub fn get_session(&self, id: u128) -> (r: Result<DebuggingSession, IncodeError>)
        ensures
            is_session_read(*self, id, r),
    {
        match self.find_index(id) {
            Some(i) => Ok(self.sessions[i].duplicate()),
            None => Err(session_not_found(id)),
        }
    }

    /// Sets the state of the session with identifier `id`.
    pub fn update_session_state(&mut self, id: u128, state: SessionState) -> (r: Result<
        (),
        IncodeError,
    >)
        ensures
            is_state_updated(*old(self), id, state, *final(self), r),
            final(self).current() == old(self).current(),
            final(self).thread_id() == old(self).thread_id(),
            final(self).frame_index() == old(self).frame_index(),
            final(self).target_selected() == old(self).target_selected(),
            final(self).process_attached() == old(self).process_attached(),
            final(self).thread_selected() == old(self).thread_selected(),
            final(self).debugger_ready() == old(self).debugger_ready(),
            final(self).path() == old(self).path(),
    {
        match self.find_index(id) {
            Some(i) => {
                let ghost before = self.sessions@;
                let mut s = self.sessions.remove(i);
                s.state = state;
                self.sessions.insert(i, s);
                proof {
                    assert(self.sessions@ =~= before.update(i as int, s));
                    lemma_find_update(before, i as int, s);
                }
                Ok(())
            },
            None => Err(session_not_found(id)),
        }
    }
}

proof fn lemma_find_update(s: Seq<DebuggingSession>, i: int, x: DebuggingSession)
    requires
        0 <= i < s.len(),
        x.id == s[i].id,
        forall|k: int| 0 <= k < i ==> s[k].id != x.id,
    ensures
        find_session(s.update(i, x), x.id) == Some(x),
        forall|other: u128| other != x.id ==> find_session(s.update(i, x), other) == find_session(
            s,
            other,
        ),
    decreases s.len(),
{
    if i > 0 {
        assert(s.update(i, x).drop_first() =~= s.drop_first().update(i - 1, x));
        lemma_find_update(s.drop_first(), i - 1, x);
    } else {
        assert(s.update(i, x).drop_first() =~= s.drop_first());
    }
    assert forall|other: u128| other != x.id implies find_session(s.update(i, x), other)
        == find_session(s, other) by {
        if i > 0 {
            assert(s.update(i, x)[0] == s[0]);
            assert(find_session(s.drop_first().update(i - 1, x), other) == find_session(
                s.drop_first(),
                other,
            ));
            assert(find_session(s.update(i, x).drop_first(), other) == find_session(
                s.drop_first(),
                other,
            ));
        } else {
            assert(s.update(i, x)[0] == x);
        }
    }
}

/// The error for a session that does not exist.
fn session_not_found(id: u128) -> (r: IncodeError)
    ensures
        r matches IncodeError::SessionError(m) && m@ == "Session not found: "@ + uuid_text(id),
{
    let mut msg = String::new();
    push_str(&mut msg, "Session not found: ");
    let t = session_id_text(id);
    push_str(&mut msg, t.as_str());
    IncodeError::SessionError(msg)
}

// ---------------------------------------------------------------------------
// Saving and loading sessions
// ---------------------------------------------------------------------------

/// The name of a session state (its `Debug` text).
pub open spec fn state_name(s: SessionState) -> Seq<char> {
    match s {
        SessionState::Created => "Created"@,
        SessionState::Attached => "Attached"@,
        SessionState::Running => "Running"@,
        SessionState::Stopped => "Stopped"@,
        SessionState::Terminated => "Terminated"@,
    }
}

/// The session state that a saved name stands for; an unknown name stands
/// for `Created`.
pub open spec fn state_from_name(t: Seq<char>) -> SessionState {
    if t == "Attached"@ {
        SessionState::Attached
    } else if t == "Running"@ {
        SessionState::Running
    } else if t == "Stopped"@ {
        SessionState::Stopped
    } else if t == "Terminated"@ {
        SessionState::Terminated
    } else {
        SessionState::Created
    }
}

/// The name of a session state.
pub fn state_text(s: SessionState) -> (r: String)
    ensures
        r@ == state_name(s),
{
    match s {
        SessionState::Created => "Created".to_owned(),
        SessionState::Attached => "Attached".to_owned(),
        SessionState::Running => "Running".to_owned(),
        SessionState::Stopped => "Stopped".to_owned(),
        SessionState::Terminated => "Terminated".to_owned(),
    }
}

/// The session state that a saved name stands for.
pub fn state_from_text(t: &str) -> (r: SessionState)
    ensures
        r == state_from_name(t@),
{
    if str_eq(t, "Attached") {
        SessionState::Attached
    } else if str_eq(t, "Running") {
        SessionState::Running
    } else if str_eq(t, "Stopped") {
        SessionState::Stopped
    } else if str_eq(t, "Terminated") {
        SessionState::Terminated
    } else {
        SessionState::Created
    }
}

/// The field names of a saved session record, in order.
pub open spec fn saved_record_keys() -> Seq<Seq<char>> {
    seq![
        "session_id"@,
        "state"@,
        "created_at"@,
        "target_path"@,
        "process_id"@,
        "current_thread_id"@,
        "current_frame_index"@,
        "has_target"@,
        "has_process"@,
        "has_thread"@,
        "saved_at"@,
    ]
}

/// `j` is the saved record of session `s` taken while thread `thread` and
/// frame `frame` were selected and a target, process and thread were
/// present as the flags say.
pub open spec fn is_saved_record(
    j: Json,
    s: DebuggingSession,
    thread: Option<u32>,
    frame: u32,
    has_target: bool,
    has_process: bool,
    has_thread: bool,
) -> bool {
    &&& keys(j) == saved_record_keys()
    &&& is_text(value_at(j, 0), uuid_text(s.id))
    &&& is_text(value_at(j, 1), state_name(s.state))
    &&& value_at(j, 2) == Json::UInt(s.created_at)
    &&& is_opt_text_value(value_at(j, 3), opt_view(s.target_path))
    &&& is_opt_uint_value(
        value_at(j, 4),
        match s.process_id {
            Some(p) => Some(p as u64),
            None => None,
        },
    )
    &&& is_opt_uint_value(
        value_at(j, 5),
        match thread {
            Some(t) => Some(t as u64),
            None => None,
        },
    )
    &&& value_at(j, 6) == Json::UInt(frame as u64)
    &&& value_at(j, 7) == Json::Bool(has_target)
    &&& value_at(j, 8) == Json::Bool(has_process)
    &&& value_at(j, 9) == Json::Bool(has_thread)
    &&& value_at(j, 10) is UInt
}

/// What a session record restores: its identifier, target path, process,
/// state and creation time, to the second.
pub open spec fn session_view(s: DebuggingSession) -> (
    u128,
    Option<Seq<char>>,
    Option<u32>,
    SessionState,
    u64,
) {
    (s.id, opt_view(s.target_path), s.process_id, s.state, s.created_at)
}

/// The outcome of loading the record `data` into the manager `m`, which
/// becomes `m2` and answers `r`.
pub open spec fn is_load_outcome(
    m: LldbManager,
    data: Json,
    m2: LldbManager,
    r: Result<u128, IncodeError>,
) -> bool {
    match text_field(data, "session_id"@) {
        None => {
            &&& r matches Err(IncodeError::LldbOperation(e)) && e@
                == "Missing session_id in session data"@
            &&& m2 == m
        },
        Some(t) => (forall|id: u128| #[trigger] uuid_text(id) == t ==> uuid_parse_result(t) == Ok::<
            u128,
            Seq<char>,
        >(id)) && match uuid_parse_result(t) {
            Err(msg) => {
                &&& r matches Err(IncodeError::LldbOperation(e)) && e@ == "Invalid session ID: "@
                    + msg
                &&& m2 == m
            },
            Ok(id) => match text_field(data, "state"@) {
                None => {
                    &&& r matches Err(IncodeError::LldbOperation(e)) && e@
                        == "Missing state in session data"@
                    &&& m2 == m
                },
                Some(st) => {
                    &&& r == Ok::<u128, IncodeError>(id)
                    &&& m2.session(id) matches Some(s) && {
                        &&& s.id == id
                        &&& s.state == state_from_name(st)
                        &&& opt_view(s.target_path) == text_field(data, "target_path"@)
                        &&& s.process_id == match field(data, "process_id"@) {
                            Some(Json::UInt(p)) => Some(p as u32),
                            _ => None,
                        }
                        &&& (field(data, "created_at"@) matches Some(Json::UInt(c))
                            ==> s.created_at == c && s.created_at_nanos == 0)
                    }
                    &&& forall|other: u128| other != id ==> m2.session(other) == m.session(other)
                    &&& m2.current() == Some(id)
                    &&& m2.thread_id() == match field(data, "current_thread_id"@) {
                        Some(Json::UInt(t)) => Some(t as u32),
                        _ => m.thread_id(),
                    }
                    &&& m2.frame_index() == match field(data, "current_frame_index"@) {
                        Some(Json::UInt(f)) => f as u32,
                        _ => m.frame_index(),
                    }
                    &&& m2.target_selected() == m.target_selected()
                    &&& m2.process_attached() == m.process_attached()
                    &&& m2.thread_selected() == m.thread_selected()
                    &&& m2.debugger_ready() == m.debugger_ready()
                },
            },
        },
    }
}

impl LldbManager {
    /// The saved record of session `id` together with the current debugging
    /// context, ready to be written out as JSON.
    pub fn save_session(&self, id: u128) -> (r: Result<Json, IncodeError>)
        ensures
            match self.session(id) {
                Some(s) => r matches Ok(j) && is_saved_record(
                    j,
                    s,
                    self.thread_id(),
                    self.frame_index(),
                    self.target_selected(),
                    self.process_attached(),
                    self.thread_selected(),
                ),
                None => r matches Err(IncodeError::SessionError(m)) && m@ == "Session not found: "@
                    + uuid_text(id),
            },
    {
        let i = match self.find_index(id) {
            Some(i) => i,
            None => return Err(session_not_found(id)),
        };
        let s = &self.sessions[i];
        let mut es: Vec<(String, Json)> = Vec::new();
        es.push(entry("session_id", Json::Str(session_id_text(id))));
        es.push(entry("state", Json::Str(state_text(s.state))));
        es.push(entry("created_at", Json::UInt(s.created_at)));
        es.push(entry("target_path", jopt_str(&s.target_path)));
        es.push(
            entry(
                "process_id",
                match s.process_id {
                    Some(p) => Json::UInt(p as u64),
                    None => Json::Null,
                },
            ),
        );
        es.push(
            entry(
                "current_thread_id",
                match self.current_thread_id {
                    Some(t) => Json::UInt(t as u64),
                    None => Json::Null,
                },
            ),
        );
        es.push(entry("current_frame_index", Json::UInt(self.current_frame_index as u64)));
        es.push(entry("has_target", Json::Bool(self.has_target)));
        es.push(entry("has_process", Json::Bool(self.has_process)));
        es.push(entry("has_thread", Json::Bool(self.has_thread)));
        es.push(entry("saved_at", Json::UInt(unix_time_secs())));
        let j = Json::Object(es);
        assert(keys(j) =~= saved_record_keys());
        Ok(j)
    }

    /// Restores a session from its saved record and makes it the current
    /// session, together with the saved thread and frame selection.
    pub fn load_session(&mut self, data: &Json) -> (r: Result<u128, IncodeError>)
        ensures
            is_load_outcome(*old(self), *data, *final(self), r),
    {
        let id_text = match obj_str(data, "session_id") {
            Some(t) => t,
            None => return Err(IncodeError::lldb_op("Missing session_id in session data")),
        };
        let id = match parse_session_id(id_text.as_str()) {
            Ok(id) => id,
            Err(e) => {
                let mut msg = String::new();
                push_str(&mut msg, "Invalid session ID: ");
                push_str(&mut msg, e.as_str());
                return Err(IncodeError::LldbOperation(msg));
            },
        };
        let state_name_text = match obj_str(data, "state") {
            Some(t) => t,
            None => return Err(IncodeError::lldb_op("Missing state in session data")),
        };
        let state = state_from_text(state_name_text.as_str());
        let (created_at, created_at_nanos) = match obj_u64(data, "created_at") {
            Some(t) => (t, 0),
            None => unix_time_precise(),
        };
        let session = DebuggingSession {
            id,
            target_path: obj_str(data, "target_path"),
            process_id: match obj_u64(data, "process_id") {
                Some(p) => Some(p as u32),
                None => None,
            },
            state,
            created_at,
            created_at_nanos,
        };
        self.remove_sessions(id);
        let ghost before = self.sessions@;
        let ghost x = session;
        self.sessions.push(session);
        proof {
            assert forall|other: u128| #[trigger] find_session(self.sessions@, other) == if other
                == id {
                Some(x)
            } else {
                find_session(old(self).sessions@, other)
            } by {
                lemma_find_push(before, x, other);
                lemma_find_without(old(self).sessions@, id, other);
            }
        }
        if let Some(t) = obj_u64(data, "current_thread_id") {
            self.current_thread_id = Some(t as u32);
        }
        if let Some(f) = obj_u64(data, "current_frame_index") {
            self.current_frame_index = f as u32;
        }
        self.current_session = Some(id);
        Ok(id)
    }

    /// Removes session `id`; when it is the current session, the current
    /// debugging context is cleared as well.
    pub fn cleanup_session(&mut self, id: u128) -> (r: Result<String, IncodeError>)
        ensures
            is_session_cleaned(*old(self), id, *final(self), r),
    {
        if self.find_index(id).is_none() {
            return Err(session_not_found(id));
        }
        self.remove_sessions(id);
        proof {
            assert forall|other: u128| #[trigger] find_session(self.sessions@, other) == if other
                == id {
                None
            } else {
                find_session(old(self).sessions@, other)
            } by {
                lemma_find_without(old(self).sessions@, id, other);
            }
        }
        if self.current_session == Some(id) {
            self.current_session = None;
            self.has_target = false;
            self.has_process = false;
            self.has_thread = false;
            self.current_thread_id = None;
            self.current_frame_index = 0;
        }
        let mut msg = String::new();
        push_str(&mut msg, "Session ");
        let t = session_id_text(id);
        push_str(&mut msg, t.as_str());
        push_str(&mut msg, " resources cleaned up");
        Ok(msg)
    }

    /// Releases all sessions.
    pub fn cleanup(&mut self) -> (r: Result<(), IncodeError>)
        ensures
            r is Ok,
            forall|id: u128| final(self).session(id) is None,
            final(self).current() is None,
            final(self).debugger_ready() == old(self).debugger_ready(),
    {
        self.sessions = Vec::new();
        self.current_session = None;
        Ok(())
    }
}

proof fn lemma_lookup_at(es: Seq<(String, Json)>, i: int, k: Seq<char>)
    requires
        0 <= i < es.len(),
        es[i].0@ == k,
        forall|j: int| 0 <= j < i ==> es[j].0@ != k,
    ensures
        lookup(es, k) == Some(es[i].1),
    decreases i,
{
    if i > 0 {
        lemma_lookup_at(es.drop_first(), i - 1, k);
    }
}

/// The session found under an identifier carries that identifier; so the
/// record `save_session(id)` writes names `id`, and loading it gives `id`
/// back.
pub proof fn law_session_carries_its_id(m: LldbManager, id: u128)
    ensures
        m.session(id) matches Some(s) ==> s.id == id,
{
    lemma_find_session_id(m.sessions@, id);
}

/// Loading the saved record of a session restores that session (its
/// identifier, target path, process, state and creation time), makes it the
/// current session, restores the frame selection, and restores the thread
/// selection when one was saved.
pub proof fn law_load_restores_saved_session(
    m: LldbManager,
    j: Json,
    s: DebuggingSession,
    thread: Option<u32>,
    frame: u32,
    has_target: bool,
    has_process: bool,
    has_thread: bool,
    m2: LldbManager,
    r: Result<u128, IncodeError>,
)
    requires
        is_saved_record(j, s, thread, frame, has_target, has_process, has_thread),
        is_load_outcome(m, j, m2, r),
    ensures
        r == Ok::<u128, IncodeError>(s.id),
        m2.session(s.id) matches Some(t) && session_view(t) == session_view(s),
        m2.current() == Some(s.id),
        m2.frame_index() == frame,
        m2.thread_id() == match thread {
            Some(t) => Some(t),
            None => m.thread_id(),
        },
{
    reveal_strlit("session_id");
    assert("session_id"@.len() == 10 && "session_id"@[0] == 's');
    reveal_strlit("state");
    assert("state"@.len() == 5 && "state"@[0] == 's');
    reveal_strlit("created_at");
    assert("created_at"@.len() == 10 && "created_at"@[0] == 'c');
    reveal_strlit("target_path");
    assert("target_path"@.len() == 11 && "target_path"@[0] == 't');
    reveal_strlit("process_id");
    assert("process_id"@.len() == 10 && "process_id"@[0] == 'p');
    reveal_strlit("current_thread_id");
    assert("current_thread_id"@.len() == 17 && "current_thread_id"@[0] == 'c');
    reveal_strlit("current_frame_index");
    assert("current_frame_index"@.len() == 19 && "current_frame_index"@[0] == 'c');
    reveal_strlit("Created");
    assert("Created"@.len() == 7 && "Created"@[0] == 'C');
    reveal_strlit("Attached");
    assert("Attached"@.len() == 8 && "Attached"@[0] == 'A');
    reveal_strlit("Running");
    assert("Running"@.len() == 7 && "Running"@[0] == 'R');
    reveal_strlit("Stopped");
    assert("Stopped"@.len() == 7 && "Stopped"@[0] == 'S');
    reveal_strlit("Terminated");
    assert("Terminated"@.len() == 10 && "Terminated"@[0] == 'T');
    let es = match j {
        Json::Object(es) => es@,
        _ => Seq::empty(),
    };
    assert(j is Object) by {
        if !(j is Object) {
            assert(keys(j).len() == 0);
            assert(saved_record_keys().len() == 11);
        }
    }
    assert(es.len() == 11) by {
        assert(keys(j).len() == es.len());
    }
    assert forall|i: int| 0 <= i < 11 implies #[trigger] es[i].0@ == saved_record_keys()[i] by {
        assert(keys(j)[i] == es[i].0@);
    }
    lemma_lookup_at(es, 0, "session_id"@);
    lemma_lookup_at(es, 1, "state"@);
    lemma_lookup_at(es, 2, "created_at"@);
    lemma_lookup_at(es, 3, "target_path"@);
    lemma_lookup_at(es, 4, "process_id"@);
    lemma_lookup_at(es, 5, "current_thread_id"@);
    lemma_lookup_at(es, 6, "current_frame_index"@);
    assert(state_from_name(state_name(s.state)) == s.state);
    assert(uuid_parse_result(uuid_text(s.id)) == Ok::<u128, Seq<char>>(s.id));
}

// ---------------------------------------------------------------------------
// Process control
// ---------------------------------------------------------------------------

/// `r` is what the engine's reply to an evaluation gives: the value's text,
/// or an expression error with the engine's message.
pub open spec fn is_evaluation(reply: Result<String, String>, r: Result<String, IncodeError>) -> bool {
    match reply {
        Ok(value) => r matches Ok(v) && v@ == value@,
        Err(msg) => r matches Err(IncodeError::ExpressionError(m)) && m@ == msg@,
    }
}

/// Every name and value of the environment `env` can be handed to a
/// launch: none holds a NUL character.
pub open spec fn env_passable(env: Seq<(Seq<char>, Seq<char>)>) -> bool {
    forall|i: int| 0 <= i < env.len() ==> !has_nul((#[trigger] env[i]).0) && !has_nul(env[i].1)
}

/// The variables of the environment `env` as a launch takes them: each
/// name, `=` and its value, in order.
pub open spec fn env_block(env: Seq<(Seq<char>, Seq<char>)>) -> Seq<Seq<char>> {
    env.map_values(|p: (Seq<char>, Seq<char>)| p.0 + "="@ + p.1)
}

/// The variables of the environment `env` as a launch takes them.
pub fn environment_block(env: &Vec<(String, String)>) -> (r: Vec<String>)
    ensures
        views(r@) == env_block(pair_views(env@)),
{
    let mut out: Vec<String> = Vec::new();
    let mut i: usize = 0;
    while i < env.len()
        invariant
            i <= env.len(),
            views(out@) == env_block(pair_views(env@)).take(i as int),
        decreases env.len() - i,
    {
        let mut line = env[i].0.clone();
        push_str(&mut line, "=");
        push_str(&mut line, env[i].1.as_str());
        let ghost before = out@;
        out.push(line);
        proof {
            assert(pair_views(env@)[i as int] == (env@[i as int].0@, env@[i as int].1@));
            assert(views(out@) =~= views(before).push(line@));
            assert(env_block(pair_views(env@)).take(i + 1) =~= env_block(pair_views(env@)).take(
                i as int,
            ).push(line@));
        }
        i = i + 1;
    }
    assert(env_block(pair_views(env@)).take(env@.len() as int) =~= env_block(pair_views(env@)));
    out
}

/// `s` holds a NUL character, which a C string cannot carry.
pub open spec fn has_nul(s: Seq<char>) -> bool {
    s.contains('\0')
}

/// Whether `s` holds a NUL character.
pub fn contains_nul(s: &str) -> (r: bool)
    ensures
        r == has_nul(s@),
{
    let v = crate::text::chars_of(s);
    match crate::text::find_char(&v, '\0') {
        Some(_) => true,
        None => false,
    }
}

/// `m2` is `m` with the current session, if any, moved to state `st`; the
/// step fails when the current session is no longer in the table.
pub open spec fn session_moved_to(m: LldbManager, m2: LldbManager, st: SessionState, ok: bool) -> bool {
    match m.current() {
        None => ok && forall|id: u128| m2.session(id) == m.session(id),
        Some(cur) => match m.session(cur) {
            Some(s) => ok && m2.session(cur) == Some(DebuggingSession { state: st, ..s })
                && forall|id: u128| id != cur ==> m2.session(id) == m.session(id),
            None => !ok && forall|id: u128| m2.session(id) == m.session(id),
        },
    }
}

/// `e` is the error for a session that is no longer in the table.
pub open spec fn is_session_error(e: IncodeError) -> bool {
    e is SessionError
}

impl LldbManager {
    fn move_current_session(&mut self, st: SessionState) -> (r: Result<(), IncodeError>)
        ensures
            session_moved_to(*old(self), *final(self), st, r is Ok),
            r matches Err(e) ==> is_session_error(e),
            final(self).current() == old(self).current(),
            final(self).thread_id() == old(self).thread_id(),
            final(self).frame_index() == old(self).frame_index(),
            final(self).target_selected() == old(self).target_selected(),
            final(self).process_attached() == old(self).process_attached(),
            final(self).thread_selected() == old(self).thread_selected(),
            final(self).debugger_ready() == old(self).debugger_ready(),
    {
        match self.current_session {
            Some(id) => self.update_session_state(id, st),
            None => Ok(()),
        }
    }

    /// Launches `executable` with the command line arguments `args` and the
    /// environment `env` once the host has checked that the file exists
    /// (`exists`), asked the debugger for a target (`target_created`) and
    /// launched it with `args` and the variables `environment_block(env)`
    /// (`launched`: the process identifier, or `None` when the launch
    /// failed). Steps after a failed one are not looked at.
    #[verifier::loop_isolation(false)]
    pub fn launch_process(
        &mut self,
        executable: &str,
        args: &Vec<String>,
        env: &Vec<(String, String)>,
        exists: bool,
        target_created: bool,
        launched: Option<u64>,
    ) -> (r: Result<u32, IncodeError>)
        ensures
            !old(self).debugger_ready() ==> fails_init(r, "No debugger instance"@),
            old(self).debugger_ready() && !exists ==> fails_not_found(r, "Executable not found: "@ + executable@),
            old(self).debugger_ready() && exists && has_nul(executable@) ==> fails_op(r, "Invalid executable path"@),
            old(self).debugger_ready() && exists && !has_nul(executable@) && !target_created ==> fails_op(r, "Failed to create target for: "@ + executable@),
            old(self).debugger_ready() && exists && !has_nul(executable@) && target_created && (exists|i: int|
                0 <= i < args@.len() && has_nul(#[trigger] args@[i]@)) ==> fails_op(r, "Invalid argument"@),
            old(self).debugger_ready() && exists && !has_nul(executable@) && target_created && (forall|i: int|
                0 <= i < args@.len() ==> !has_nul(#[trigger] args@[i]@)) && !env_passable(pair_views(env@))
                ==> fails_op(r, "Invalid environment variable"@),
            old(self).debugger_ready() && exists && !has_nul(executable@) && target_created && (forall|i: int|
                0 <= i < args@.len() ==> !has_nul(#[trigger] args@[i]@)) && env_passable(pair_views(env@))
                ==> match launched {
                None => fails_op(r, "Failed to launch process"@),
                Some(pid) => {
                    &&& final(self).target_selected() && final(self).process_attached()
                    &&& session_moved_to(*old(self), *final(self), SessionState::Running, r is Ok)
                    &&& r is Ok ==> r->Ok_0 == pid as u32
                    &&& r matches Err(e) ==> is_session_error(e)
                },
            },
            r is Err && !(r->Err_0 is SessionError) ==> *final(self) == *old(self),
            final(self).current() == old(self).current(),
    {
        if !self.has_debugger {
            return Err(IncodeError::lldb_init("No debugger instance"));
        }
        if !exists {
            let mut msg = String::new();
            push_str(&mut msg, "Executable not found: ");
            push_str(&mut msg, executable);
            return Err(IncodeError::ProcessNotFound(msg));
        }
        if contains_nul(executable) {
            return Err(IncodeError::lldb_op("Invalid executable path"));
        }
        if !target_created {
            let mut msg = String::new();
            push_str(&mut msg, "Failed to create target for: ");
            push_str(&mut msg, executable);
            return Err(IncodeError::LldbOperation(msg));
        }
        let mut i: usize = 0;
        while i < args.len()
            invariant
                i <= args.len(),
                forall|k: int| 0 <= k < i ==> !has_nul(#[trigger] args@[k]@),
            decreases args.len() - i,
        {
            if contains_nul(args[i].as_str()) {
                return Err(IncodeError::lldb_op("Invalid argument"));
            }
            i = i + 1;
        }
        let mut k: usize = 0;
        while k < env.len()
            invariant
                k <= env.len(),
                forall|m: int|
                    0 <= m < k ==> !has_nul((#[trigger] env@[m]).0@) && !has_nul(env@[m].1@),
            decreases env.len() - k,
        {
            if contains_nul(env[k].0.as_str()) || contains_nul(env[k].1.as_str()) {
                proof {
                    assert(pair_views(env@)[k as int] == (env@[k as int].0@, env@[k as int].1@));
                }
                return Err(IncodeError::lldb_op("Invalid environment variable"));
            }
            k = k + 1;
        }
        proof {
            assert forall|m: int| 0 <= m < pair_views(env@).len() implies !has_nul(
                (#[trigger] pair_views(env@)[m]).0,
            ) && !has_nul(pair_views(env@)[m].1) by {
                assert(pair_views(env@)[m] == (env@[m].0@, env@[m].1@));
            }
        }
        let pid = match launched {
            Some(p) => p as u32,
            None => return Err(IncodeError::lldb_op("Failed to launch process")),
        };
        self.has_target = true;
        self.has_process = true;
        self.move_current_session(SessionState::Running)?;
        Ok(pid)
    }

    /// Attaches to process `pid` once the host has asked the debugger for an
    /// empty target (`target_created`), attached (`attached`) and read the
    /// process state (`process_state`, zero for an invalid process).
    pub fn attach_to_process(
        &mut self,
        pid: u32,
        target_created: bool,
        attached: bool,
        process_state: u32,
    ) -> (r: Result<(), IncodeError>)
        ensures
            !old(self).debugger_ready() ==> fails_init(r, "No debugger instance"@),
            old(self).debugger_ready() && !target_created ==> fails_op(r, "Failed to create target for attachment"@),
            old(self).debugger_ready() && target_created && !attached ==> fails_not_found(r, "Failed to attach to process "@ + dec_str(pid as nat)),
            old(self).debugger_ready() && target_created && attached && process_state == 0 ==> fails_op(r, "Process "@ + dec_str(pid as nat) + " is not in a valid state for debugging"@),
            old(self).debugger_ready() && target_created && attached && process_state != 0 ==> {
                &&& final(self).target_selected() && final(self).process_attached()
                &&& session_moved_to(*old(self), *final(self), SessionState::Attached, r is Ok)
                &&& r matches Err(e) ==> is_session_error(e)
            },
            r is Err && !(r->Err_0 is SessionError) ==> *final(self) == *old(self),
            final(self).current() == old(self).current(),
    {
        if !self.has_debugger {
            return Err(IncodeError::lldb_init("No debugger instance"));
        }
        if !target_created {
            return Err(IncodeError::lldb_op("Failed to create target for attachment"));
        }
        if !attached {
            let mut msg = String::new();
            push_str(&mut msg, "Failed to attach to process ");
            push_dec(&mut msg, pid as u64);
            return Err(IncodeError::ProcessNotFound(msg));
        }
        if process_state == 0 {
            let mut msg = String::new();
            push_str(&mut msg, "Process ");
            push_dec(&mut msg, pid as u64);
            push_str(&mut msg, " is not in a valid state for debugging");
            return Err(IncodeError::LldbOperation(msg));
        }
        self.has_target = true;
        self.has_process = true;
        self.move_current_session(SessionState::Attached)
    }

    /// Detaches from the process once the host has asked the debugger to
    /// (`detached`: whether it did).
    pub fn detach_process(&mut self, detached: bool) -> (r: Result<(), IncodeError>)
        ensures
            !old(self).process_attached() ==> fails_op(r, "No process to detach from"@),
            old(self).process_attached() && !detached ==> fails_op(r, "Failed to detach from process"@),
            old(self).process_attached() && detached ==> {
                &&& !final(self).process_attached() && !final(self).target_selected()
                &&& session_moved_to(*old(self), *final(self), SessionState::Created, r is Ok)
                &&& r matches Err(e) ==> is_session_error(e)
            },
            r is Err && !(r->Err_0 is SessionError) ==> *final(self) == *old(self),
            final(self).current() == old(self).current(),
    {
        if !self.has_process {
            return Err(IncodeError::lldb_op("No process to detach from"));
        }
        if !detached {
            return Err(IncodeError::lldb_op("Failed to detach from process"));
        }
        self.has_process = false;
        self.has_target = false;
        self.move_current_session(SessionState::Created)
    }

    /// Terminates the process once the host has asked the debugger to
    /// (`killed`: whether it did).
    pub fn kill_process(&mut self, killed: bool) -> (r: Result<(), IncodeError>)
        ensures
            !old(self).process_attached() ==> fails_op(r, "No process to kill"@),
            old(self).process_attached() && !killed ==> fails_op(r, "Failed to kill process"@),
            old(self).process_attached() && killed ==> {
                &&& !final(self).process_attached() && !final(self).target_selected()
                &&& session_moved_to(*old(self), *final(self), SessionState::Terminated, r is Ok)
                &&& r matches Err(e) ==> is_session_error(e)
            },
            r is Err && !(r->Err_0 is SessionError) ==> *final(self) == *old(self),
            final(self).current() == old(self).current(),
    {
        if !self.has_process {
            return Err(IncodeError::lldb_op("No process to kill"));
        }
        if !killed {
            return Err(IncodeError::lldb_op("Failed to kill process"));
        }
        self.has_process = false;
        self.has_target = false;
        self.move_current_session(SessionState::Terminated)
    }

    /// Checks that an operation on the process can go ahead and that the
    /// engine reported success for it.
    fn process_step(&self, no_process: &str, succeeded: bool, failed: &str) -> (r: Result<
        (),
        IncodeError,
    >)
        ensures
            !self.process_attached() ==> fails_op(r, no_process@),
            self.process_attached() && !succeeded ==> fails_op(r, failed@),
            self.process_attached() && succeeded ==> r is Ok,
    {
        if !self.has_process {
            return Err(IncodeError::lldb_op(no_process));
        }
        if !succeeded {
            return Err(IncodeError::lldb_op(failed));
        }
        Ok(())
    }

    /// Resumes the process (`continued`: whether the engine did).
    pub fn continue_execution(&self, continued: bool) -> (r: Result<(), IncodeError>)
        ensures
            !self.process_attached() ==> fails_op(r, "No process to continue"@),
            self.process_attached() && !continued ==> fails_op(r, "Failed to continue process execution"@),
            self.process_attached() && continued ==> r is Ok,
    {
        self.process_step("No process to continue", continued, "Failed to continue process execution")
    }

    /// Pauses the process (`interrupted`: whether the engine did).
    pub fn interrupt_execution(&self, interrupted: bool) -> (r: Result<(), IncodeError>)
        ensures
            !self.process_attached() ==> fails_op(r, "No active process to interrupt"@),
            self.process_attached() && !interrupted ==> fails_op(r, "Failed to interrupt process execution"@),
            self.process_attached() && interrupted ==> r is Ok,
    {
        self.process_step(
            "No active process to interrupt",
            interrupted,
            "Failed to interrupt process execution",
        )
    }

    /// Steps the selected thread once the host has looked for it
    /// (`thread_found`) and stepped it (`stepped`).
    fn thread_step(
        &self,
        no_process: &str,
        thread_found: bool,
        no_thread: &str,
        stepped: bool,
        failed: &str,
    ) -> (r: Result<(), IncodeError>)
        ensures
            !self.process_attached() ==> fails_op(r, no_process@),
            self.process_attached() && !thread_found ==> fails_op(r, no_thread@),
            self.process_attached() && thread_found && !stepped ==> fails_op(r, failed@),
            self.process_attached() && thread_found && stepped ==> r is Ok,
    {
        if !self.has_process {
            return Err(IncodeError::lldb_op(no_process));
        }
        if !thread_found {
            return Err(IncodeError::lldb_op(no_thread));
        }
        if !stepped {
            return Err(IncodeError::lldb_op(failed));
        }
        Ok(())
    }

    /// Steps over the current line of the selected thread.
    pub fn step_over(&self, thread_found: bool, stepped: bool) -> (r: Result<(), IncodeError>)
        ensures
            !self.process_attached() ==> fails_op(r, "No active process for step over"@),
            self.process_attached() && !thread_found ==> fails_op(r, "No selected thread for step over"@),
            self.process_attached() && thread_found && !stepped ==> fails_op(r, "Failed to step over"@),
            self.process_attached() && thread_found && stepped ==> r is Ok,
    {
        self.thread_step(
            "No active process for step over",
            thread_found,
            "No selected thread for step over",
            stepped,
            "Failed to step over",
        )
    }

    /// Steps into the call on the current line of the selected thread.
    pub fn step_into(&self, thread_found: bool, stepped: bool) -> (r: Result<(), IncodeError>)
        ensures
            !self.process_attached() ==> fails_op(r, "No active process for step into"@),
            self.process_attached() && !thread_found ==> fails_op(r, "No selected thread for step into"@),
            self.process_attached() && thread_found && !stepped ==> fails_op(r, "Failed to step into"@),
            self.process_attached() && thread_found && stepped ==> r is Ok,
    {
        self.thread_step(
            "No active process for step into",
            thread_found,
            "No selected thread for step into",
            stepped,
            "Failed to step into",
        )
    }

    /// Steps out of the current function of the selected thread.
    pub fn step_out(&self, thread_found: bool, stepped: bool) -> (r: Result<(), IncodeError>)
        ensures
            !self.process_attached() ==> fails_op(r, "No active process for step out"@),
            self.process_attached() && !thread_found ==> fails_op(r, "No selected thread for step out"@),
            self.process_attached() && thread_found && !stepped ==> fails_op(r, "Failed to step out"@),
            self.process_attached() && thread_found && stepped ==> r is Ok,
    {
        self.thread_step(
            "No active process for step out",
            thread_found,
            "No selected thread for step out",
            stepped,
            "Failed to step out",
        )
    }

    /// Steps one instruction of the selected thread.
    pub fn step_instruction(&self, step_over: bool, thread_found: bool, stepped: bool) -> (r: Result<
        (),
        IncodeError,
    >)
        ensures
            !self.process_attached() ==> fails_op(r, "No active process for instruction step"@),
            self.process_attached() && !thread_found ==> fails_op(r, "No selected thread for instruction step"@),
            self.process_attached() && thread_found && !stepped ==> fails_op(r, "Failed to step instruction"@),
            self.process_attached() && thread_found && stepped ==> r is Ok,
    {
        self.thread_step(
            "No active process for instruction step",
            thread_found,
            "No selected thread for instruction step",
            stepped,
            "Failed to step instruction",
        )
    }
}

// ---------------------------------------------------------------------------
// Process information and running to a location
// ---------------------------------------------------------------------------

/// The name of a process state code of the debugger.
pub open spec fn process_state_name(code: u32) -> Seq<char> {
    if code == 1 {
        "Invalid"@
    } else if code == 2 {
        "Unloaded"@
    } else if code == 3 {
        "Connected"@
    } else if code == 4 {
        "Attaching"@
    } else if code == 5 {
        "Launching"@
    } else if code == 6 {
        "Stopped"@
    } else if code == 7 {
        "Running"@
    } else if code == 8 {
        "Stepping"@
    } else if code == 9 {
        "Crashed"@
    } else if code == 10 {
        "Detached"@
    } else if code == 11 {
        "Exited"@
    } else if code == 12 {
        "Suspended"@
    } else {
        "Unknown"@
    }
}

/// The name of a process state code.
pub fn process_state_text(code: u32) -> (r: String)
    ensures
        r@ == process_state_name(code),
{
    let t = if code == 1 {
        "Invalid"
    } else if code == 2 {
        "Unloaded"
    } else if code == 3 {
        "Connected"
    } else if code == 4 {
        "Attaching"
    } else if code == 5 {
        "Launching"
    } else if code == 6 {
        "Stopped"
    } else if code == 7 {
        "Running"
    } else if code == 8 {
        "Stepping"
    } else if code == 9 {
        "Crashed"
    } else if code == 10 {
        "Detached"
    } else if code == 11 {
        "Exited"
    } else if code == 12 {
        "Suspended"
    } else {
        "Unknown"
    };
    t.to_owned()
}

impl LldbManager {
    /// The process's identifier, state and executable, as the engine
    /// reported them (the executable missing where it gave none). Its
    /// memory usage is not reported.
    pub fn get_process_info(&self, pid: u64, state: u32, executable_path: Option<String>) -> (r: Result<
        ProcessInfo,
        IncodeError,
    >)
        ensures
            !self.process_attached() ==> fails_op(r, "No active process"@),
            self.process_attached() ==> (r matches Ok(info) && info.pid == pid as u32 && info.state@
                == process_state_name(state) && opt_view(info.executable_path) == opt_view(
                executable_path,
            ) && info.memory_usage is None),
    {
        if !self.has_process {
            return Err(IncodeError::lldb_op("No active process"));
        }
        Ok(ProcessInfo { pid: pid as u32, state: process_state_text(state), executable_path, memory_usage: None })
    }

    /// Runs to an address, or to a file and line by way of a temporary
    /// breakpoint. For an address the host reports whether it found the
    /// selected thread and whether the thread ran there; for a file and line,
    /// whether the breakpoint was made and the process continued.
    pub fn run_until(
        &self,
        address: Option<u64>,
        file: Option<&str>,
        line: Option<u32>,
        thread_found: bool,
        address_reached: bool,
        breakpoint_created: bool,
        continued: bool,
    ) -> (r: Result<(), IncodeError>)
        ensures
            !self.process_attached() ==> fails_op(r, "No active process for run until"@),
            self.process_attached() && !self.target_selected() ==> fails_op(
                r,
                "No active target for run until"@,
            ),
            self.process_attached() && self.target_selected() ==> match address {
                Some(a) => if !thread_found {
                    fails_op(r, "No selected thread for run until address"@)
                } else if !address_reached {
                    fails_op(r, "Failed to run until address "@ + hex_addr(a as nat))
                } else {
                    r is Ok
                },
                None => match (file, line) {
                    (Some(f), Some(l)) => if has_nul(f@) {
                        fails_op(r, "Invalid file path"@)
                    } else if !breakpoint_created {
                        fails_op(
                            r,
                            "Failed to create temporary breakpoint at "@ + f@ + ":"@ + dec_str(
                                l as nat,
                            ),
                        )
                    } else if !continued {
                        fails_op(r, "Failed to continue to breakpoint"@)
                    } else {
                        r is Ok
                    },
                    _ => fails_op(r, "Either address or file:line must be specified"@),
                },
            },
    {
        if !self.has_process {
            return Err(IncodeError::lldb_op("No active process for run until"));
        }
        if !self.has_target {
            return Err(IncodeError::lldb_op("No active target for run until"));
        }
        if let Some(a) = address {
            if !thread_found {
                return Err(IncodeError::lldb_op("No selected thread for run until address"));
            }
            if !address_reached {
                let mut msg = String::new();
                push_str(&mut msg, "Failed to run until address ");
                push_hex_address(&mut msg, a);
                return Err(IncodeError::LldbOperation(msg));
            }
            Ok(())
        } else if let (Some(f), Some(l)) = (file, line) {
            if contains_nul(f) {
                return Err(IncodeError::lldb_op("Invalid file path"));
            }
            if !breakpoint_created {
                let mut msg = String::new();
                push_str(&mut msg, "Failed to create temporary breakpoint at ");
                push_str(&mut msg, f);
                push_str(&mut msg, ":");
                push_dec(&mut msg, l as u64);
                return Err(IncodeError::LldbOperation(msg));
            }
            if !continued {
                return Err(IncodeError::lldb_op("Failed to continue to breakpoint"));
            }
            Ok(())
        } else {
            Err(IncodeError::lldb_op("Either address or file:line must be specified"))
        }
    }
}

// ---------------------------------------------------------------------------
// Breakpoints
// ---------------------------------------------------------------------------

/// Where a breakpoint goes.
#[derive(Debug)]
pub enum BreakpointLocation {
    /// A code address.
    Address(u64),
    /// A source file and line.
    FileLine(String, u32),
    /// A function, by name.
    Function(String),
}

/// The part of `s` before its first `:` and the part after it.
pub open spec fn split_at_colon(s: Seq<char>) -> (Seq<char>, Seq<char>) {
    match index_of(s, ':') {
        Some(i) => (s.take(i as int), s.skip(i as int + 1)),
        None => (s, Seq::empty()),
    }
}

/// How a breakpoint location reads.
pub ghost enum LocationReading {
    Address(u64),
    FileLine(Seq<char>, u32),
    BadAddress,
    BadLine(Seq<char>),
    NulInFile,
    FunctionName(Seq<char>),
    NulInFunction,
}

/// How `location` reads: `0x` and a hexadecimal address, or a file and line
/// number separated by the first `:`; any other text names a function.
pub open spec fn read_location(location: Seq<char>) -> LocationReading {
    if has_prefix(location, "0x"@) {
        match parse_bounded(location.skip(2), 16, 0xffff_ffff_ffff_ffff) {
            Some(a) => LocationReading::Address(a as u64),
            None => LocationReading::BadAddress,
        }
    } else if location.contains(':') {
        let (file, rest) = split_at_colon(location);
        match parse_bounded(rest, 10, 0xffff_ffff) {
            None => LocationReading::BadLine(rest),
            Some(l) => if has_nul(file) {
                LocationReading::NulInFile
            } else {
                LocationReading::FileLine(file, l as u32)
            },
        }
    } else if has_nul(location) {
        LocationReading::NulInFunction
    } else {
        LocationReading::FunctionName(location)
    }
}

/// `r` is what reading `location` gives.
pub open spec fn is_location_result(location: Seq<char>, r: Result<BreakpointLocation, IncodeError>) -> bool {
    match read_location(location) {
        LocationReading::Address(a) => r matches Ok(BreakpointLocation::Address(b)) && b == a,
        LocationReading::FileLine(f, l) => r matches Ok(BreakpointLocation::FileLine(g, n)) && g@ == f
            && n == l,
        LocationReading::BadAddress => fails_op(r, "Invalid address: "@ + location),
        LocationReading::BadLine(rest) => fails_op(r, "Invalid line number: "@ + rest),
        LocationReading::NulInFile => fails_op(r, "Invalid file path"@),
        LocationReading::FunctionName(n) => r matches Ok(BreakpointLocation::Function(g)) && g@ == n,
        LocationReading::NulInFunction => fails_op(r, "Invalid function name"@),
    }
}

/// Reads a breakpoint location the way `set_breakpoint` does: `0x` and a
/// hexadecimal address, or a file and line number separated by the first
/// `:`. Any other text names a function.
pub fn parse_breakpoint_location(location: &str) -> (r: Result<BreakpointLocation, IncodeError>)
    ensures
        is_location_result(location@, r),
{
    proof {
        reveal_strlit("0x");
    }
    let v = chars_of(location);
    if str_starts_with(location, "0x") {
        let digits = sub_chars(&v, 2, v.len());
        assert(digits@ =~= location@.skip(2));
        match parse_unsigned_chars(&digits, 16, 0xffff_ffff_ffff_ffff) {
            Some(a) => return Ok(BreakpointLocation::Address(a)),
            None => {
                let mut msg = String::new();
                push_str(&mut msg, "Invalid address: ");
                push_str(&mut msg, location);
                return Err(IncodeError::LldbOperation(msg));
            },
        }
    }
    match find_char(&v, ':') {
        Some(i) => {
            let file = string_of_range(&v, 0, i);
            let rest = sub_chars(&v, i + 1, v.len());
            assert(file@ =~= location@.take(i as int));
            assert(rest@ =~= location@.skip(i + 1));
            match parse_unsigned_chars(&rest, 10, 0xffff_ffff) {
                None => {
                    let mut msg = String::new();
                    push_str(&mut msg, "Invalid line number: ");
                    let t = string_of(&rest);
                    push_str(&mut msg, t.as_str());
                    Err(IncodeError::LldbOperation(msg))
                },
                Some(l) => {
                    if contains_nul(file.as_str()) {
                        return Err(IncodeError::lldb_op("Invalid file path"));
                    }
                    Ok(BreakpointLocation::FileLine(file, l as u32))
                },
            }
        },
        None => {
            if contains_nul(location) {
                return Err(IncodeError::lldb_op("Invalid function name"));
            }
            Ok(BreakpointLocation::Function(location.to_owned()))
        },
    }
}

/// A location splits at its first colon: a file part that holds no colon
/// and, after the colon, the rest, whatever colons the rest holds.
pub proof fn law_location_splits_at_first_colon(file: Seq<char>, rest: Seq<char>)
    requires
        !file.contains(':'),
    ensures
        split_at_colon(file + ":"@ + rest) == (file, rest),
{
    reveal_strlit(":");
    let loc = file + ":"@ + rest;
    let at = file.len() as int;
    assert(loc[at] == ':');
    assert(loc.contains(':'));
    crate::text::lemma_index_of(loc, ':');
    assert(index_of(loc, ':') == Some(file.len())) by {
        let i = index_of(loc, ':')->0;
        if (i as int) < at {
            assert(file[i as int] == loc[i as int]);
            assert(file.contains(':'));
        }
    }
    assert(loc.take(at) =~= file);
    assert(loc.skip(at + 1) =~= rest);
}

/// A location written as a file, a colon and a line number in decimal (as
/// the breakpoint tools report one) reads back as that file and that line:
/// the digits after the first colon are read in base ten.
pub proof fn law_file_line_location_reads_decimal(file: Seq<char>, line: u32)
    requires
        !file.contains(':'),
        !has_nul(file),
        !has_prefix(file, "0x"@),
    ensures
        read_location(file + ":"@ + dec_str(line as nat)) == LocationReading::FileLine(file, line),
        forall|r: Result<BreakpointLocation, IncodeError>|
            is_location_result(file + ":"@ + dec_str(line as nat), r) ==> (r matches Ok(
                BreakpointLocation::FileLine(g, n),
            ) && g@ == file && n == line),
{
    reveal_strlit(":");
    reveal_strlit("0x");
    let digits = dec_str(line as nat);
    let loc = file + ":"@ + digits;
    let at = file.len() as int;
    assert(loc[at] == ':');
    assert(!has_prefix(loc, "0x"@)) by {
        if has_prefix(loc, "0x"@) {
            assert(loc.subrange(0, 2)[0] == '0' && loc.subrange(0, 2)[1] == 'x');
            if file.len() >= 2 {
                assert(file.subrange(0, 2) =~= loc.subrange(0, 2));
                assert(has_prefix(file, "0x"@));
            } else {
                assert(loc[0] == '0' && loc[1] == 'x');
            }
        }
    }
    assert(loc.contains(':'));
    law_location_splits_at_first_colon(file, digits);
    crate::text::lemma_dec_str_value(line as nat);
    assert(crate::text::unsigned_digits(digits) == digits);
    assert(parse_bounded(digits, 10, 0xffff_ffff) == Some(line as nat));
}

/// An address as the tools report it, `0x` and hexadecimal digits, reads
/// back as a breakpoint at that address.
pub proof fn law_address_location_reads_back(a: u64)
    ensures
        read_location(hex_addr(a as nat)) == LocationReading::Address(a),
{
    reveal_strlit("0x");
    let loc = hex_addr(a as nat);
    crate::text::lemma_hex_str_value(a as nat);
    assert(loc.subrange(0, 2) =~= "0x"@);
    assert(loc.skip(2) =~= crate::text::hex_str(a as nat));
    assert(crate::text::unsigned_digits(loc.skip(2)) == loc.skip(2));
}

/// A location with no colon, not starting with `0x` and free of NUL names a
/// function, itself.
pub proof fn law_plain_location_names_function(name: Seq<char>)
    requires
        !name.contains(':'),
        !has_nul(name),
        !has_prefix(name, "0x"@),
    ensures
        read_location(name) == LocationReading::FunctionName(name),
{
}

/// `r` is the outcome of setting a breakpoint at `location`, with a target
/// selected (`target`) and the identifier the debugger gave the new
/// breakpoint (`created`, none where it made none).
pub open spec fn is_breakpoint_set(
    target: bool,
    location: Seq<char>,
    created: Option<u32>,
    r: Result<u32, IncodeError>,
) -> bool {
    if !target {
        fails_op(r, "No active target for breakpoint"@)
    } else {
        match read_location(location) {
            LocationReading::Address(_) => match created {
                Some(id) => r == Ok::<u32, IncodeError>(id),
                None => fails_op(r, "Failed to create breakpoint at address "@ + location),
            },
            LocationReading::FileLine(f, l) => match created {
                Some(id) => r == Ok::<u32, IncodeError>(id),
                None => fails_op(r, "Failed to create breakpoint at "@ + f + ":"@ + dec_str(l as nat)),
            },
            LocationReading::FunctionName(n) => match created {
                Some(id) => r == Ok::<u32, IncodeError>(id),
                None => fails_op(r, "Failed to create breakpoint at function "@ + n),
            },
            LocationReading::BadAddress => fails_op(r, "Invalid address: "@ + location),
            LocationReading::BadLine(rest) => fails_op(r, "Invalid line number: "@ + rest),
            LocationReading::NulInFile => fails_op(r, "Invalid file path"@),
            LocationReading::NulInFunction => fails_op(r, "Invalid function name"@),
        }
    }
}

/// The identifier of the breakpoint that setting one at `location` makes:
/// the debugger's, where a target is selected, the location reads and the
/// debugger made the breakpoint.
pub open spec fn created_breakpoint(target: bool, location: Seq<char>, created: Option<u32>) -> Option<u32> {
    if target && (read_location(location) is Address || read_location(location) is FileLine
        || read_location(location) is FunctionName) {
        created
    } else {
        None
    }
}

/// `s` with its absent entries left out.
pub open spec fn present<T>(s: Seq<Option<T>>) -> Seq<T>
    decreases s.len(),
{
    if s.len() == 0 {
        Seq::empty()
    } else {
        match s.last() {
            Some(x) => present(s.drop_last()).push(x),
            None => present(s.drop_last()),
        }
    }
}

/// What the engine reports of a breakpoint: its identifier, whether it is
/// enabled, its hit count and its condition, where it has one.
#[derive(Debug)]
pub struct RawBreakpoint {
    pub id: u32,
    pub enabled: bool,
    pub hit_count: u32,
    pub condition: Option<String>,
}

/// `b` lists the breakpoint the engine reported as `raw`.
pub open spec fn is_breakpoint_info_of(b: BreakpointInfo, raw: RawBreakpoint) -> bool {
    &&& b.id == raw.id
    &&& b.enabled == raw.enabled
    &&& b.hit_count == raw.hit_count
    &&& b.location@ == "breakpoint_"@ + dec_str(raw.id as nat)
    &&& opt_view(b.condition) == opt_view(raw.condition)
}

/// The message that a breakpoint was not found.
pub open spec fn breakpoint_not_found(id: u32) -> Seq<char> {
    "Breakpoint "@ + dec_str(id as nat) + " not found"@
}

fn breakpoint_not_found_error(id: u32) -> (r: IncodeError)
    ensures
        r matches IncodeError::LldbOperation(m) && m@ == breakpoint_not_found(id),
{
    let mut msg = String::new();
    push_str(&mut msg, "Breakpoint ");
    push_dec(&mut msg, id as u64);
    push_str(&mut msg, " not found");
    IncodeError::LldbOperation(msg)
}

impl LldbManager {
    /// Sets a breakpoint at `location` (see `parse_breakpoint_location`) once
    /// the host has asked the debugger for it (`created`: the identifier the
    /// debugger gave the new breakpoint, none where it made none), and gives
    /// that identifier.
    pub fn set_breakpoint(&self, location: &str, created: Option<u32>) -> (r: Result<u32, IncodeError>)
        ensures
            is_breakpoint_set(self.target_selected(), location@, created, r),
    {
        if !self.has_target {
            return Err(IncodeError::lldb_op("No active target for breakpoint"));
        }
        match parse_breakpoint_location(location) {
            Err(e) => Err(e),
            Ok(BreakpointLocation::Address(_)) => match created {
                Some(id) => Ok(id),
                None => {
                    let mut msg = String::new();
                    push_str(&mut msg, "Failed to create breakpoint at address ");
                    push_str(&mut msg, location);
                    Err(IncodeError::LldbOperation(msg))
                },
            },
            Ok(BreakpointLocation::FileLine(file, line)) => match created {
                Some(id) => Ok(id),
                None => {
                    let mut msg = String::new();
                    push_str(&mut msg, "Failed to create breakpoint at ");
                    push_str(&mut msg, file.as_str());
                    push_str(&mut msg, ":");
                    push_dec(&mut msg, line as u64);
                    Err(IncodeError::LldbOperation(msg))
                },
            },
            Ok(BreakpointLocation::Function(name)) => match created {
                Some(id) => Ok(id),
                None => {
                    let mut msg = String::new();
                    push_str(&mut msg, "Failed to create breakpoint at function ");
                    push_str(&mut msg, name.as_str());
                    Err(IncodeError::LldbOperation(msg))
                },
            },
        }
    }
}

impl LldbManager {
    /// Sets a watchpoint once the host has asked the debugger for it
    /// (`created`: the identifier of the watchpoint it made, `None` where
    /// it made none); the answer is that identifier.
    pub fn set_watchpoint(&self, address: u64, size: u32, read: bool, write: bool, created: Option<u32>) -> (r:
        Result<u32, IncodeError>)
        ensures
            !self.target_selected() ==> fails_op(r, "No active target for watchpoint"@),
            self.target_selected() && created is None ==> fails_op(
                r,
                "Failed to create watchpoint at address "@ + hex_addr(address as nat),
            ),
            self.target_selected() && created is Some ==> r == Ok::<u32, IncodeError>(created->0),
    {
        if !self.has_target {
            return Err(IncodeError::lldb_op("No active target for watchpoint"));
        }
        match created {
            Some(id) => Ok(id),
            None => {
                let mut msg = String::new();
                push_str(&mut msg, "Failed to create watchpoint at address ");
                push_hex_address(&mut msg, address);
                Err(IncodeError::LldbOperation(msg))
            },
        }
    }

    /// The breakpoints of the target, from what the engine reported of each
    /// (`None` for an invalid one): identifier, whether it is enabled, hit
    /// count and condition. Each is located as `breakpoint_` and its
    /// identifier.
    pub fn list_breakpoints(&self, found: &Vec<Option<RawBreakpoint>>) -> (r: Result<
        Vec<BreakpointInfo>,
        IncodeError,
    >)
        ensures
            !self.target_selected() ==> fails_op(r, "No active target for breakpoint listing"@),
            self.target_selected() ==> (r matches Ok(bps) && bps@.len() == present(found@).len()
                && forall|i: int|
                0 <= i < bps@.len() ==> is_breakpoint_info_of(#[trigger] bps@[i], present(found@)[i])),
    {
        if !self.has_target {
            return Err(IncodeError::lldb_op("No active target for breakpoint listing"));
        }
        let mut bps: Vec<BreakpointInfo> = Vec::new();
        let mut k: usize = 0;
        while k < found.len()
            invariant
                k <= found.len(),
                bps@.len() == present(found@.take(k as int)).len(),
                forall|i: int|
                    0 <= i < bps@.len() ==> is_breakpoint_info_of(
                        #[trigger] bps@[i],
                        present(found@.take(k as int))[i],
                    ),
            decreases found.len() - k,
        {
            assert(found@.take(k + 1).drop_last() =~= found@.take(k as int));
            match &found[k] {
                Some(b) => {
                    let mut location = String::new();
                    push_str(&mut location, "breakpoint_");
                    push_dec(&mut location, b.id as u64);
                    let condition = match &b.condition {
                        Some(c) => Some(c.clone()),
                        None => None,
                    };
                    bps.push(
                        BreakpointInfo {
                            id: b.id,
                            enabled: b.enabled,
                            hit_count: b.hit_count,
                            location,
                            condition,
                        },
                    );
                },
                None => {},
            }
            k = k + 1;
        }
        assert(found@.take(found@.len() as int) =~= found@);
        Ok(bps)
    }

    /// Enables breakpoint `id` once the host has looked for it (`found`) and
    /// enabled it; gives whether it is enabled afterwards (`enabled_after`).
    pub fn enable_breakpoint(&self, id: u32, found: bool, enabled_after: bool) -> (r: Result<
        bool,
        IncodeError,
    >)
        ensures
            !self.target_selected() ==> fails_op(r, "No active target for breakpoint enable"@),
            self.target_selected() && !found ==> fails_op(r, breakpoint_not_found(id)),
            self.target_selected() && found ==> r == Ok::<bool, IncodeError>(enabled_after),
    {
        if !self.has_target {
            return Err(IncodeError::lldb_op("No active target for breakpoint enable"));
        }
        if !found {
            return Err(breakpoint_not_found_error(id));
        }
        Ok(enabled_after)
    }

    /// Disables breakpoint `id` once the host has looked for it (`found`) and
    /// disabled it; gives whether it is disabled afterwards.
    pub fn disable_breakpoint(&self, id: u32, found: bool, enabled_after: bool) -> (r: Result<
        bool,
        IncodeError,
    >)
        ensures
            !self.target_selected() ==> fails_op(r, "No active target for breakpoint disable"@),
            self.target_selected() && !found ==> fails_op(r, breakpoint_not_found(id)),
            self.target_selected() && found ==> r == Ok::<bool, IncodeError>(!enabled_after),
    {
        if !self.has_target {
            return Err(IncodeError::lldb_op("No active target for breakpoint disable"));
        }
        if !found {
            return Err(breakpoint_not_found_error(id));
        }
        Ok(!enabled_after)
    }

    /// Sets a breakpoint at `location` that stops only when `condition`
    /// holds: the breakpoint is made as `set_breakpoint` makes it (`created`),
    /// then looked up by its identifier (`found`) to attach the condition.
    pub fn set_conditional_breakpoint(
        &self,
        location: &str,
        condition: &str,
        created: Option<u32>,
        found: bool,
    ) -> (r: Result<u32, IncodeError>)
        ensures
            match created_breakpoint(self.target_selected(), location@, created) {
                None => is_breakpoint_set(self.target_selected(), location@, created, r),
                Some(id) => if !found {
                    fails_op(r, "Failed to find newly created breakpoint "@ + dec_str(id as nat))
                } else if has_nul(condition@) {
                    fails_op(r, "Invalid condition string"@)
                } else {
                    r == Ok::<u32, IncodeError>(id)
                },
            },
    {
        let id = self.set_breakpoint(location, created)?;
        if !found {
            let mut msg = String::new();
            push_str(&mut msg, "Failed to find newly created breakpoint ");
            push_dec(&mut msg, id as u64);
            return Err(IncodeError::LldbOperation(msg));
        }
        if contains_nul(condition) {
            return Err(IncodeError::lldb_op("Invalid condition string"));
        }
        Ok(id)
    }

    /// Attaches commands to breakpoint `id` once the host has looked for it
    /// (`found`) and handed the commands to the engine (`applied`: whether
    /// the engine took them); the answer is whether it did.
    #[verifier::loop_isolation(false)]
    pub fn set_breakpoint_commands(&self, id: u32, commands: &Vec<String>, found: bool, applied: bool) -> (r:
        Result<bool, IncodeError>)
        ensures
            !self.target_selected() ==> fails_op(r, "No active target for breakpoint commands"@),
            self.target_selected() && !found ==> fails_op(r, breakpoint_not_found(id)),
            self.target_selected() && found && (exists|i: int|
                0 <= i < commands@.len() && has_nul(#[trigger] commands@[i]@)) ==> fails_op(
                r,
                "Invalid command script"@,
            ),
            self.target_selected() && found && (forall|i: int|
                0 <= i < commands@.len() ==> !has_nul(#[trigger] commands@[i]@)) ==> r == Ok::<
                bool,
                IncodeError,
            >(applied),
    {
        if !self.has_target {
            return Err(IncodeError::lldb_op("No active target for breakpoint commands"));
        }
        if !found {
            return Err(breakpoint_not_found_error(id));
        }
        let mut i: usize = 0;
        while i < commands.len()
            invariant
                i <= commands.len(),
                forall|k: int| 0 <= k < i ==> !has_nul(#[trigger] commands@[k]@),
            decreases commands.len() - i,
        {
            if contains_nul(commands[i].as_str()) {
                return Err(IncodeError::lldb_op("Invalid command script"));
            }
            i = i + 1;
        }
        Ok(applied)
    }
}

/// The position of the first breakpoint with identifier `id` among the
/// identifiers the engine reported (`None` for an invalid breakpoint).
pub open spec fn breakpoint_position(ids: Seq<Option<u32>>, id: u32) -> Option<nat>
    decreases ids.len(),
{
    if ids.len() == 0 {
        None
    } else if ids[0] == Some(id) {
        Some(0)
    } else {
        match breakpoint_position(ids.drop_first(), id) {
            Some(i) => Some(i + 1),
            None => None,
        }
    }
}

/// The position of the first breakpoint with identifier `id`.
pub fn find_breakpoint(ids: &Vec<Option<u32>>, id: u32) -> (r: Option<usize>)
    ensures
        match r {
            Some(i) => breakpoint_position(ids@, id) == Some(i as nat),
            None => breakpoint_position(ids@, id) is None,
        },
{
    let mut i: usize = 0;
    assert(ids@.subrange(0, ids@.len() as int) =~= ids@);
    while i < ids.len()
        invariant
            i <= ids@.len(),
            breakpoint_position(ids@, id) == match breakpoint_position(
                ids@.subrange(i as int, ids@.len() as int),
                id,
            ) {
                Some(j) => Some((j + i) as nat),
                None => None,
            },
        decreases ids@.len() - i,
    {
        let ghost rest = ids@.subrange(i as int, ids@.len() as int);
        assert(rest.drop_first() =~= ids@.subrange(i + 1, ids@.len() as int));
        if ids[i] == Some(id) {
            return Some(i);
        }
        i = i + 1;
    }
    None
}

impl LldbManager {
    /// Deletes breakpoint `id`: the first breakpoint with that identifier
    /// among those the engine listed (`ids`) is deleted (`deleted`: whether
    /// the engine did).
    pub fn delete_breakpoint(&self, id: u32, ids: &Vec<Option<u32>>, deleted: bool) -> (r: Result<
        (),
        IncodeError,
    >)
        ensures
            !self.target_selected() ==> fails_op(r, "No active target for breakpoint deletion"@),
            self.target_selected() ==> match breakpoint_position(ids@, id) {
                None => fails_op(r, breakpoint_not_found(id)),
                Some(_) => if deleted {
                    r is Ok
                } else {
                    fails_op(r, "Failed to delete breakpoint "@ + dec_str(id as nat))
                },
            },
    {
        if !self.has_target {
            return Err(IncodeError::lldb_op("No active target for breakpoint deletion"));
        }
        match find_breakpoint(ids, id) {
            None => Err(breakpoint_not_found_error(id)),
            Some(_) => {
                if !deleted {
                    let mut msg = String::new();
                    push_str(&mut msg, "Failed to delete breakpoint ");
                    push_dec(&mut msg, id as u64);
                    return Err(IncodeError::LldbOperation(msg));
                }
                Ok(())
            },
        }
    }
}

// ---------------------------------------------------------------------------
// Stack frames
// ---------------------------------------------------------------------------

/// What the engine reports of a frame: its function's display name (if
/// any), program counter and stack pointer.
pub type RawFrame = (Option<String>, u64, u64);

/// The function name of a frame, `unknown` when the engine gave none.
pub open spec fn frame_function(name: Option<String>) -> Seq<char> {
    match name {
        Some(n) => n@,
        None => "unknown"@,
    }
}

/// The backtrace line for frame `i`.
pub open spec fn backtrace_line(i: nat, f: Option<RawFrame>) -> Seq<char> {
    match f {
        Some((name, pc, sp)) => "#"@ + dec_str(i) + ": "@ + frame_function(name) + " (PC: "@
            + hex_addr(pc as nat) + ", SP: "@ + hex_addr(sp as nat) + ")"@,
        None => "#"@ + dec_str(i) + ": <invalid frame>"@,
    }
}

/// Where a frame stands as the engine reported it: the name of its module
/// and the file and line of its line entry, each missing where the engine
/// gave none.
#[derive(Debug)]
pub struct FramePlace {
    pub module: Option<String>,
    pub file: Option<String>,
    pub line: Option<u32>,
}

/// `info` describes frame `index` as the engine reported it (`f`), standing
/// at `place`.
pub open spec fn is_frame_info(info: FrameInfo, index: u32, f: RawFrame, place: FramePlace) -> bool {
    &&& info.index == index
    &&& info.function_name@ == frame_function(f.0)
    &&& info.pc == f.1
    &&& info.sp == f.2
    &&& opt_view(info.module) == opt_view(place.module)
    &&& opt_view(info.file) == opt_view(place.file)
    &&& info.line == place.line
}

fn function_name_of(name: &Option<String>) -> (r: String)
    ensures
        r@ == frame_function(*name),
{
    match name {
        Some(n) => n.clone(),
        None => "unknown".to_owned(),
    }
}

fn frame_info_of(f: &RawFrame, index: u32, place: FramePlace) -> (r: FrameInfo)
    ensures
        is_frame_info(r, index, *f, place),
{
    FrameInfo {
        index,
        function_name: function_name_of(&f.0),
        pc: f.1,
        sp: f.2,
        module: place.module,
        file: place.file,
        line: place.line,
    }
}

impl LldbManager {
    /// The backtrace of the selected thread, one line per frame the engine
    /// reported (`None` for an invalid frame).
    pub fn get_backtrace(&self, thread_found: bool, frames: &Vec<Option<RawFrame>>) -> (r: Result<
        Vec<String>,
        IncodeError,
    >)
        ensures
            !self.process_attached() ==> fails_op(r, "No active process for backtrace"@),
            self.process_attached() && !thread_found ==> fails_op(
                r,
                "No selected thread for backtrace"@,
            ),
            self.process_attached() && thread_found && frames@.len() == 0 ==> (r matches Ok(lines)
                && lines@.len() == 1 && lines@[0]@ == "No stack frames available"@),
            self.process_attached() && thread_found && frames@.len() > 0 ==> (r matches Ok(lines)
                && lines@.len() == frames@.len() && forall|i: int|
                0 <= i < lines@.len() ==> (#[trigger] lines@[i])@ == backtrace_line(
                    i as nat,
                    frames@[i],
                )),
    {
        if !self.has_process {
            return Err(IncodeError::lldb_op("No active process for backtrace"));
        }
        if !thread_found {
            return Err(IncodeError::lldb_op("No selected thread for backtrace"));
        }
        let mut lines: Vec<String> = Vec::new();
        let mut i: usize = 0;
        while i < frames.len()
            invariant
                i <= frames.len(),
                lines@.len() == i,
                forall|k: int|
                    0 <= k < i ==> (#[trigger] lines@[k])@ == backtrace_line(k as nat, frames@[k]),
            decreases frames.len() - i,
        {
            let mut line = String::new();
            push_str(&mut line, "#");
            push_dec(&mut line, i as u64);
            match &frames[i] {
                Some(f) => {
                    push_str(&mut line, ": ");
                    let name = function_name_of(&f.0);
                    push_str(&mut line, name.as_str());
                    push_str(&mut line, " (PC: ");
                    push_hex_address(&mut line, f.1);
                    push_str(&mut line, ", SP: ");
                    push_hex_address(&mut line, f.2);
                    push_str(&mut line, ")");
                },
                None => {
                    push_str(&mut line, ": <invalid frame>");
                },
            }
            lines.push(line);
            i = i + 1;
        }
        if lines.len() == 0 {
            lines.push("No stack frames available".to_owned());
        }
        Ok(lines)
    }

    /// Selects frame `index` of the selected thread once the host has found
    /// the thread (`thread_found`), counted its frames (`num_frames`), looked
    /// up the frame (`frame`: what the engine reported, `None` when invalid)
    /// and selected it (`selected`).
    pub fn select_frame(
        &mut self,
        index: u32,
        thread_found: bool,
        num_frames: u32,
        frame: Option<RawFrame>,
        place: FramePlace,
        selected: bool,
    ) -> (r: Result<FrameInfo, IncodeError>)
        ensures
            !old(self).process_attached() ==> fails_op(
                r,
                "No active process for frame selection"@,
            ),
            old(self).process_attached() && !thread_found ==> fails_op(
                r,
                "No selected thread for frame selection"@,
            ),
            old(self).process_attached() && thread_found && index >= num_frames ==> fails_op(
                r,
                "Frame index "@ + dec_str(index as nat) + " out of range (0-"@ + dec_str(
                    ((num_frames + 0xffff_ffff) % 0x1_0000_0000) as nat,
                ) + ")"@,
            ),
            old(self).process_attached() && thread_found && index < num_frames && frame is None
                ==> fails_op(r, "Invalid frame at index "@ + dec_str(index as nat)),
            old(self).process_attached() && thread_found && index < num_frames && frame is Some
                && !selected ==> fails_op(r, "Failed to select frame "@ + dec_str(index as nat)),
            old(self).process_attached() && thread_found && index < num_frames && selected
                && frame is Some ==> {
                &&& r matches Ok(info) && is_frame_info(info, index, frame->0, place)
                &&& final(self).frame_index() == index
            },
            r is Err ==> *final(self) == *old(self),
            forall|id: u128| final(self).session(id) == old(self).session(id),
            final(self).current() == old(self).current(),
            final(self).thread_id() == old(self).thread_id(),
            final(self).process_attached() == old(self).process_attached(),
            final(self).target_selected() == old(self).target_selected(),
            final(self).thread_selected() == old(self).thread_selected(),
    {
        if !self.has_process {
            return Err(IncodeError::lldb_op("No active process for frame selection"));
        }
        if !thread_found {
            return Err(IncodeError::lldb_op("No selected thread for frame selection"));
        }
        if index >= num_frames {
            let mut msg = String::new();
            push_str(&mut msg, "Frame index ");
            push_dec(&mut msg, index as u64);
            push_str(&mut msg, " out of range (0-");
            push_dec(&mut msg, num_frames.wrapping_sub(1) as u64);
            push_str(&mut msg, ")");
            return Err(IncodeError::LldbOperation(msg));
        }
        let f = match frame {
            Some(f) => f,
            None => {
                let mut msg = String::new();
                push_str(&mut msg, "Invalid frame at index ");
                push_dec(&mut msg, index as u64);
                return Err(IncodeError::LldbOperation(msg));
            },
        };
        if !selected {
            let mut msg = String::new();
            push_str(&mut msg, "Failed to select frame ");
            push_dec(&mut msg, index as u64);
            return Err(IncodeError::LldbOperation(msg));
        }
        self.current_frame_index = index;
        Ok(frame_info_of(&f, index, place))
    }

    /// The frame that `get_frame_info` looks at: `index`, or else the
    /// selected frame.
    pub fn frame_to_inspect(&self, index: Option<u32>) -> (r: u32)
        ensures
            r == match index {
                Some(i) => i,
                None => self.frame_index(),
            },
    {
        match index {
            Some(i) => i,
            None => self.current_frame_index,
        }
    }

    /// Information about a frame (`index`, or else the selected one) once
    /// the host has found the selected thread and looked up the frame.
    pub fn get_frame_info(
        &self,
        index: Option<u32>,
        thread_found: bool,
        frame: Option<RawFrame>,
        place: FramePlace,
    ) -> (r: Result<FrameInfo, IncodeError>)
        ensures
            !self.process_attached() ==> fails_op(r, "No active process for frame info"@),
            self.process_attached() && !thread_found ==> fails_op(
                r,
                "No selected thread for frame info"@,
            ),
            self.process_attached() && thread_found && frame is None ==> fails_op(
                r,
                "Invalid frame at index "@ + dec_str(
                    match index {
                        Some(i) => i,
                        None => self.frame_index(),
                    } as nat,
                ),
            ),
            self.process_attached() && thread_found && frame is Some ==> (r matches Ok(info)
                && is_frame_info(
                info,
                match index {
                    Some(i) => i,
                    None => self.frame_index(),
                },
                frame->0,
                place,
            )),
    {
        if !self.has_process {
            return Err(IncodeError::lldb_op("No active process for frame info"));
        }
        if !thread_found {
            return Err(IncodeError::lldb_op("No selected thread for frame info"));
        }
        let target_index = self.frame_to_inspect(index);
        match &frame {
            Some(f) => Ok(frame_info_of(f, target_index, place)),
            None => {
                let mut msg = String::new();
                push_str(&mut msg, "Invalid frame at index ");
                push_dec(&mut msg, target_index as u64);
                Err(IncodeError::LldbOperation(msg))
            },
        }
    }
}

// ---------------------------------------------------------------------------
// Memory
// ---------------------------------------------------------------------------

/// The largest read or write of memory, one mebibyte.
pub open spec fn max_transfer() -> nat {
    1024 * 1024
}

/// The largest region that a memory search covers, 100 mebibytes.
pub open spec fn max_search() -> nat {
    100 * 1024 * 1024
}

/// The size of the chunks in which memory is searched, 64 kibibytes.
pub open spec fn search_chunk_size() -> nat {
    64 * 1024
}

/// The address where a memory search starts when none is given.
pub open spec fn default_search_start() -> u64 {
    0x1_0000_0000
}

/// A line of a disassembly listing: the instruction's address, in sixteen
/// hexadecimal digits, and its text.
pub open spec fn instruction_line(address: u64, text: Seq<char>) -> Seq<char> {
    "0x"@ + hex_pad(address as nat, 16) + ": "@ + text
}

/// `pattern` occurs in `buf` at offset `i`.
pub open spec fn bytes_at(buf: Seq<u8>, pattern: Seq<u8>, i: int) -> bool {
    0 <= i && i + pattern.len() <= buf.len() && buf.subrange(i, i + pattern.len()) == pattern
}

/// The offsets in `buf[..n]` (that is, windows starting before `n`) where
/// `pattern` occurs, in increasing order.
pub open spec fn match_offsets(buf: Seq<u8>, pattern: Seq<u8>, n: nat) -> Seq<nat>
    decreases n,
{
    if n == 0 {
        Seq::empty()
    } else {
        let rest = match_offsets(buf, pattern, (n - 1) as nat);
        if bytes_at(buf, pattern, n - 1) {
            rest.push((n - 1) as nat)
        } else {
            rest
        }
    }
}

/// The addresses in `buf`, read from `base`, where `pattern` begins, in
/// increasing order.
pub open spec fn match_addresses(buf: Seq<u8>, pattern: Seq<u8>, base: u64) -> Seq<u64> {
    match_offsets(buf, pattern, buf.len()).map_values(|i: nat| (base + i) as u64)
}

/// Whether `pattern` occurs in `buf` at offset `i`.
pub fn bytes_match_at(buf: &Vec<u8>, pattern: &Vec<u8>, i: usize) -> (r: bool)
    ensures
        r == bytes_at(buf@, pattern@, i as int),
{
    if i > buf.len() || pattern.len() > buf.len() - i {
        return false;
    }
    let mut j: usize = 0;
    while j < pattern.len()
        invariant
            i + pattern.len() <= buf.len(),
            j <= pattern.len(),
            forall|k: int| 0 <= k < j ==> buf@[i + k] == pattern@[k],
        decreases pattern.len() - j,
    {
        if buf[i + j] != pattern[j] {
            assert(buf@.subrange(i as int, i + pattern@.len())[j as int] != pattern@[j as int]);
            return false;
        }
        j = j + 1;
    }
    assert(buf@.subrange(i as int, i + pattern@.len()) =~= pattern@);
    true
}

/// The addresses in the chunk `buf`, read from `base`, where `pattern`
/// begins (the windows of the chunk that equal the pattern).
pub fn search_chunk(buf: &Vec<u8>, pattern: &Vec<u8>, base: u64) -> (r: Vec<u64>)
    requires
        pattern@.len() > 0,
        base + buf@.len() <= u64::MAX,
    ensures
        r@ == match_addresses(buf@, pattern@, base),
{
    let mut r: Vec<u64> = Vec::new();
    let mut i: usize = 0;
    while i < buf.len()
        invariant
            i <= buf.len(),
            pattern@.len() > 0,
            base + buf@.len() <= u64::MAX,
            r@ == match_offsets(buf@, pattern@, i as nat).map_values(|k: nat| (base + k) as u64),
        decreases buf.len() - i,
    {
        let hit = bytes_match_at(buf, pattern, i);
        assert(hit == bytes_at(buf@, pattern@, i as int));
        let ghost before = match_offsets(buf@, pattern@, i as nat);
        if hit {
            r.push(base + i as u64);
        }
        i = i + 1;
        assert(r@ =~= match_offsets(buf@, pattern@, i as nat).map_values(|k: nat| (base + k) as u64));
    }
    r
}

impl LldbManager {
    /// The bytes at `address` once the host has read `size` bytes into
    /// `data` and the engine reported `bytes_read`; a short read keeps only
    /// the bytes read. No more than a megabyte is read, so `data` is only
    /// looked at for a size within that limit.
    pub fn read_memory(&self, address: u64, size: usize, data: Vec<u8>, bytes_read: u32) -> (r:
        Result<Vec<u8>, IncodeError>)
        requires
            size <= max_transfer() ==> data@.len() == size,
        ensures
            !self.process_attached() ==> fails_op(r, "No active process for memory read"@),
            self.process_attached() && size > max_transfer() ==> fails_op(
                r,
                "Memory read size too large (max 1MB)"@,
            ),
            self.process_attached() && size <= max_transfer() && bytes_read == 0 ==> fails_op(
                r,
                "Failed to read memory at address "@ + hex_addr(address as nat),
            ),
            self.process_attached() && size <= max_transfer() && bytes_read > 0 ==> (r matches Ok(
                bytes,
            ) && bytes@ == if bytes_read < size {
                data@.take(bytes_read as int)
            } else {
                data@
            }),
    {
        if !self.has_process {
            return Err(IncodeError::lldb_op("No active process for memory read"));
        }
        if size > 1024 * 1024 {
            return Err(IncodeError::lldb_op("Memory read size too large (max 1MB)"));
        }
        if bytes_read == 0 {
            let mut msg = String::new();
            push_str(&mut msg, "Failed to read memory at address ");
            push_hex_address(&mut msg, address);
            return Err(IncodeError::LldbOperation(msg));
        }
        let mut buffer = data;
        if (bytes_read as usize) < size {
            buffer.truncate(bytes_read as usize);
        }
        Ok(buffer)
    }

    /// A listing of `count` instructions at `address` once the host has
    /// asked the debugger to read them: `listed` holds the instructions it
    /// decoded, each as its address and its text (mnemonic and operands),
    /// or is `None` where it read none. Each line gives the address, in
    /// sixteen hexadecimal digits, and the text.
    pub fn disassemble(&self, address: u64, count: u32, listed: Option<Vec<(u64, String)>>) -> (r: Result<
        Vec<String>,
        IncodeError,
    >)
        ensures
            !self.target_selected() ==> fails_op(r, "No active target for disassembly"@),
            self.target_selected() && count > 1000 ==> fails_op(
                r,
                "Disassembly instruction count too large (max 1000)"@,
            ),
            self.target_selected() && count <= 1000 && listed is None ==> fails_op(
                r,
                "Failed to disassemble at address "@ + hex_addr(address as nat),
            ),
            self.target_selected() && count <= 1000 && listed is Some ==> (r matches Ok(lines)
                && lines@.len() == listed->0@.len() && forall|i: int|
                0 <= i < lines@.len() ==> (#[trigger] lines@[i])@ == instruction_line(
                    listed->0@[i].0,
                    listed->0@[i].1@,
                )),
    {
        if !self.has_target {
            return Err(IncodeError::lldb_op("No active target for disassembly"));
        }
        if count > 1000 {
            return Err(IncodeError::lldb_op("Disassembly instruction count too large (max 1000)"));
        }
        let instructions = match listed {
            Some(v) => v,
            None => {
                let mut msg = String::new();
                push_str(&mut msg, "Failed to disassemble at address ");
                push_hex_address(&mut msg, address);
                return Err(IncodeError::LldbOperation(msg));
            },
        };
        let mut lines: Vec<String> = Vec::new();
        let mut i: usize = 0;
        while i < instructions.len()
            invariant
                i <= instructions@.len(),
                lines@.len() == i,
                forall|k: int|
                    0 <= k < i ==> (#[trigger] lines@[k])@ == instruction_line(
                        instructions@[k].0,
                        instructions@[k].1@,
                    ),
            decreases instructions@.len() - i,
        {
            let mut line = String::new();
            push_str(&mut line, "0x");
            push_hex_pad(&mut line, instructions[i].0, 16);
            push_str(&mut line, ": ");
            push_str(&mut line, instructions[i].1.as_str());
            lines.push(line);
            i = i + 1;
        }
        Ok(lines)
    }

    /// Writes `data` at `address` once the host has asked the engine to
    /// (`bytes_written`: how many bytes it wrote).
    pub fn write_memory(&self, address: u64, data: &Vec<u8>, bytes_written: u32) -> (r: Result<
        usize,
        IncodeError,
    >)
        ensures
            !self.process_attached() ==> fails_op(r, "No active process for memory write"@),
            self.process_attached() && data@.len() > max_transfer() ==> fails_op(
                r,
                "Memory write size too large (max 1MB)"@,
            ),
            self.process_attached() && data@.len() <= max_transfer() && bytes_written == 0
                ==> fails_op(r, "Failed to write memory at address "@ + hex_addr(address as nat)),
            self.process_attached() && data@.len() <= max_transfer() && bytes_written > 0 ==> r
                == Ok::<usize, IncodeError>(bytes_written as usize),
    {
        if !self.has_process {
            return Err(IncodeError::lldb_op("No active process for memory write"));
        }
        if data.len() > 1024 * 1024 {
            return Err(IncodeError::lldb_op("Memory write size too large (max 1MB)"));
        }
        if bytes_written == 0 {
            let mut msg = String::new();
            push_str(&mut msg, "Failed to write memory at address ");
            push_hex_address(&mut msg, address);
            return Err(IncodeError::LldbOperation(msg));
        }
        Ok(bytes_written as usize)
    }

    /// Where a search for `pattern` runs: the first address and the address
    /// after the last. The end wraps around past the top of the address
    /// space, as unsigned arithmetic does in a release build; the search then
    /// covers nothing.
    pub fn search_memory_range(
        &self,
        pattern: &Vec<u8>,
        start_address: Option<u64>,
        search_size: Option<usize>,
    ) -> (r: Result<(u64, u64), IncodeError>)
        ensures
            pattern@.len() == 0 ==> fails_op(r, "Search pattern cannot be empty"@),
            pattern@.len() > 0 && !self.process_attached() ==> fails_op(
                r,
                "No active process for memory search"@,
            ),
            pattern@.len() > 0 && self.process_attached() ==> {
                let start = match start_address {
                    Some(a) => a,
                    None => default_search_start(),
                };
                let size = match search_size {
                    Some(n) => n as nat,
                    None => max_transfer(),
                };
                if size > max_search() {
                    fails_op(r, "Memory search size too large (max 100MB)"@)
                } else {
                    r == Ok::<(u64, u64), IncodeError>(
                        (start, ((start + size) % 0x1_0000_0000_0000_0000) as u64),
                    )
                }
            },
    {
        if pattern.len() == 0 {
            return Err(IncodeError::lldb_op("Search pattern cannot be empty"));
        }
        if !self.has_process {
            return Err(IncodeError::lldb_op("No active process for memory search"));
        }
        let start = match start_address {
            Some(a) => a,
            None => 0x1_0000_0000,
        };
        let size: usize = match search_size {
            Some(n) => n,
            None => 1024 * 1024,
        };
        if size > 100 * 1024 * 1024 {
            return Err(IncodeError::lldb_op("Memory search size too large (max 100MB)"));
        }
        Ok((start, start.wrapping_add(size as u64)))
    }
}

/// How many bytes the next read of a memory search asks for: a chunk, or
/// what is left before `end`.
pub fn search_read_size(current: u64, end: u64) -> (r: usize)
    requires
        current < end,
    ensures
        r as nat == if end - current < search_chunk_size() {
            (end - current) as nat
        } else {
            search_chunk_size()
        },
{
    let left = end - current;
    if left < 64 * 1024 {
        left as usize
    } else {
        64 * 1024
    }
}

/// How many bytes a read of a memory search at `current` asks for.
pub open spec fn search_read_len(current: u64, end: u64) -> nat {
    if end - current < search_chunk_size() {
        (end - current) as nat
    } else {
        search_chunk_size()
    }
}

/// The bytes a read gave, no more than were asked for.
pub open spec fn bytes_given(read: Seq<u8>, asked: nat) -> Seq<u8> {
    if read.len() <= asked {
        read
    } else {
        read.take(asked as int)
    }
}

/// The bytes a memory search from `current` up to `end` reads, joined in
/// order, from the chunks `reads` that the engine gave, one read after the
/// other. Each read asks for `search_read_len` bytes; the search ends at
/// `end`, after a read that gave fewer bytes than asked for, or when the
/// reads run out.
pub open spec fn search_bytes(current: u64, end: u64, reads: Seq<Seq<u8>>) -> Seq<u8>
    decreases reads.len(),
{
    if reads.len() == 0 || current >= end {
        Seq::empty()
    } else {
        let asked = search_read_len(current, end);
        let got = bytes_given(reads[0], asked);
        if got.len() < asked {
            got
        } else {
            got + search_bytes((current + got.len()) as u64, end, reads.drop_first())
        }
    }
}

/// A search reads no more than the bytes from `current` up to `end`.
proof fn lemma_search_bytes_len(current: u64, end: u64, reads: Seq<Seq<u8>>)
    ensures
        current < end ==> search_bytes(current, end, reads).len() <= end - current,
        current >= end ==> search_bytes(current, end, reads).len() == 0,
    decreases reads.len(),
{
    if reads.len() > 0 && current < end {
        let asked = search_read_len(current, end);
        let got = bytes_given(reads[0], asked);
        if got.len() >= asked {
            lemma_search_bytes_len((current + got.len()) as u64, end, reads.drop_first());
        }
    }
}

/// Every offset below `n` at which `pattern` begins in `buf` is listed,
/// and only those.
pub proof fn lemma_match_offsets_complete(buf: Seq<u8>, pattern: Seq<u8>, n: nat)
    requires
        n <= buf.len(),
    ensures
        forall|i: nat| i < n ==> (bytes_at(buf, pattern, i as int) <==> match_offsets(buf, pattern, n).contains(i)),
        forall|k: int| 0 <= k < match_offsets(buf, pattern, n).len() ==> #[trigger] match_offsets(buf, pattern, n)[k] < n,
    decreases n,
{
    if n > 0 {
        lemma_match_offsets_complete(buf, pattern, (n - 1) as nat);
        let rest = match_offsets(buf, pattern, (n - 1) as nat);
        assert forall|i: nat| i < n implies (bytes_at(buf, pattern, i as int) <==> match_offsets(buf, pattern, n).contains(i)) by {
            if bytes_at(buf, pattern, (n - 1) as int) {
                assert(match_offsets(buf, pattern, n) == rest.push((n - 1) as nat));
                if i < n - 1 && rest.contains(i) {
                    let k = choose|k: int| 0 <= k < rest.len() && #[trigger] rest[k] == i;
                    assert(rest.push((n - 1) as nat)[k] == i);
                }
                if i == n - 1 {
                    assert(rest.push((n - 1) as nat)[rest.len() as int] == i);
                }
                if match_offsets(buf, pattern, n).contains(i) && i < n - 1 {
                    let k = choose|k: int| 0 <= k < rest.len() + 1 && #[trigger] rest.push((n - 1) as nat)[k] == i;
                    assert(k < rest.len());
                    assert(rest[k] == i);
                }
            }
        }
    }
}

proof fn lemma_match_offsets_increasing(buf: Seq<u8>, pattern: Seq<u8>, n: nat)
    requires
        n <= buf.len(),
    ensures
        forall|i: int, j: int|
            0 <= i < j < match_offsets(buf, pattern, n).len() ==> #[trigger] match_offsets(
                buf,
                pattern,
                n,
            )[i] < #[trigger] match_offsets(buf, pattern, n)[j],
    decreases n,
{
    if n > 0 {
        lemma_match_offsets_increasing(buf, pattern, (n - 1) as nat);
        lemma_match_offsets_complete(buf, pattern, (n - 1) as nat);
        let rest = match_offsets(buf, pattern, (n - 1) as nat);
        let all = match_offsets(buf, pattern, n);
        if bytes_at(buf, pattern, n - 1) {
            assert(all == rest.push((n - 1) as nat));
            assert forall|i: int, j: int| 0 <= i < j < all.len() implies #[trigger] all[i] < #[trigger] all[j] by {
                assert(all[i] == rest[i]);
                if j < rest.len() {
                    assert(all[j] == rest[j]);
                } else {
                    assert(rest[i] < n - 1);
                }
            }
        }
    }
}

/// A memory search finds every occurrence: over the bytes `buf` read from
/// `base`, the addresses listed for a non-empty pattern are strictly
/// increasing, and an address is
/// listed exactly when the pattern begins there within the bytes read.
pub proof fn law_search_finds_every_occurrence(buf: Seq<u8>, pattern: Seq<u8>, base: u64)
    requires
        pattern.len() > 0,
        base + buf.len() <= u64::MAX,
    ensures
        forall|i: int, j: int|
            0 <= i < j < match_addresses(buf, pattern, base).len() ==> #[trigger] match_addresses(
                buf,
                pattern,
                base,
            )[i] < #[trigger] match_addresses(buf, pattern, base)[j],
        forall|a: u64|
            #[trigger] match_addresses(buf, pattern, base).contains(a) <==> base <= a && bytes_at(
                buf,
                pattern,
                a - base,
            ),
{
    let offs = match_offsets(buf, pattern, buf.len());
    let addrs = match_addresses(buf, pattern, base);
    lemma_match_offsets_increasing(buf, pattern, buf.len());
    lemma_match_offsets_complete(buf, pattern, buf.len());
    assert forall|k: int| 0 <= k < addrs.len() implies #[trigger] addrs[k] == base + offs[k] by {
        assert(offs[k] < buf.len());
    }
    assert forall|a: u64| #[trigger] addrs.contains(a) <==> base <= a && bytes_at(buf, pattern, a - base) by {
        if addrs.contains(a) {
            let k = choose|k: int| 0 <= k < addrs.len() && addrs[k] == a;
            assert(offs.contains(offs[k]));
            assert(bytes_at(buf, pattern, offs[k] as int));
        }
        if base <= a && bytes_at(buf, pattern, a - base) {
            let i: nat = (a - base) as nat;
            assert(i < buf.len());
            assert(offs.contains(i));
            let k = choose|k: int| 0 <= k < offs.len() && offs[k] == i;
            assert(addrs[k] == a);
        }
    }
}

/// The views of a sequence of byte vectors.
pub open spec fn byte_views(v: Seq<Vec<u8>>) -> Seq<Seq<u8>> {
    v.map_values(|b: Vec<u8>| b@)
}

fn bytes_prefix(v: &Vec<u8>, n: usize) -> (r: Vec<u8>)
    ensures
        r@ == bytes_given(v@, n as nat),
{
    let m = if v.len() <= n {
        v.len()
    } else {
        n
    };
    let mut r: Vec<u8> = Vec::new();
    let mut i: usize = 0;
    while i < m
        invariant
            i <= m <= v@.len(),
            r@ == v@.take(i as int),
        decreases m - i,
    {
        r.push(v[i]);
        i = i + 1;
        assert(r@ =~= v@.take(i as int));
    }
    assert(v@.take(v@.len() as int) =~= v@);
    r
}

impl LldbManager {
    /// Searches memory for `pattern`, from `start_address` (by default the
    /// usual load address) over `search_size` bytes (by default a
    /// megabyte), in the chunks `reads` the engine gave for the reads the
    /// search asks for (`search_read_size` bytes at a time, each from where
    /// the previous one ended).
    pub fn search_memory(
        &self,
        pattern: &Vec<u8>,
        start_address: Option<u64>,
        search_size: Option<usize>,
        reads: &Vec<Vec<u8>>,
    ) -> (r: Result<Vec<u64>, IncodeError>)
        ensures
            pattern@.len() == 0 ==> fails_op(r, "Search pattern cannot be empty"@),
            pattern@.len() > 0 && !self.process_attached() ==> fails_op(
                r,
                "No active process for memory search"@,
            ),
            pattern@.len() > 0 && self.process_attached() ==> {
                let start = match start_address {
                    Some(a) => a,
                    None => default_search_start(),
                };
                let size = match search_size {
                    Some(n) => n as nat,
                    None => max_transfer(),
                };
                if size > max_search() {
                    fails_op(r, "Memory search size too large (max 100MB)"@)
                } else {
                    r matches Ok(found) && found@ == match_addresses(
                        search_bytes(
                            start,
                            ((start + size) % 0x1_0000_0000_0000_0000) as u64,
                            byte_views(reads@),
                        ),
                        pattern@,
                        start,
                    )
                }
            },
    {
        let (start, end) = self.search_memory_range(pattern, start_address, search_size)?;
        let ghost rv = byte_views(reads@);
        let ghost total = search_bytes(start, end, rv);
        let mut joined: Vec<u8> = Vec::new();
        let mut current = start;
        let mut k: usize = 0;
        assert(rv.subrange(0, rv.len() as int) =~= rv);
        proof {
            lemma_search_bytes_len(start, end, rv);
        }
        while k < reads.len() && current < end
            invariant_except_break
                joined@ + search_bytes(current, end, rv.subrange(k as int, rv.len() as int)) == total,
                current == start + joined@.len(),
            invariant
                k <= reads@.len(),
                rv == byte_views(reads@),
                rv.len() == reads@.len(),
            ensures
                joined@ == total,
            decreases reads@.len() - k,
        {
            let ghost rest = rv.subrange(k as int, rv.len() as int);
            let asked = search_read_size(current, end);
            let got = bytes_prefix(&reads[k], asked);
            assert(rest[0] == reads@[k as int]@);
            assert(rest.drop_first() =~= rv.subrange(k + 1, rv.len() as int));
            let ghost before = joined@;
            let mut j: usize = 0;
            while j < got.len()
                invariant
                    j <= got@.len(),
                    joined@ == before + got@.take(j as int),
                decreases got@.len() - j,
            {
                joined.push(got[j]);
                j = j + 1;
                assert(joined@ =~= before + got@.take(j as int));
            }
            assert(got@.take(got@.len() as int) =~= got@);
            if got.len() < asked {
                assert(joined@ =~= total);
                break;
            }
            assert(joined@ + search_bytes(
                (current + got@.len()) as u64,
                end,
                rv.subrange(k + 1, rv.len() as int),
            ) =~= total);
            current = current + got.len() as u64;
            k = k + 1;
        }
        proof {
            if !(k < reads.len() && current < end) {
                assert(search_bytes(current, end, rv.subrange(k as int, rv.len() as int)) =~= Seq::<u8>::empty());
            }
        }
        assert(start + total.len() <= u64::MAX);
        let found = search_chunk(&joined, pattern, start);
        Ok(found)
    }

    /// Writes the bytes at `address` to the file `file_path`: the bytes are
    /// read as `read_memory` reads them (from `data` and `bytes_read`), and
    /// the host, having written them, reports the text of the error where
    /// the file could not be written.
    pub fn dump_memory_to_file(
        &self,
        address: u64,
        size: usize,
        file_path: &str,
        data: Vec<u8>,
        bytes_read: u32,
        write_error: Option<String>,
    ) -> (r: Result<usize, IncodeError>)
        requires
            size <= max_transfer() ==> data@.len() == size,
        ensures
            !self.process_attached() ==> fails_op(r, "No active process for memory read"@),
            self.process_attached() && size > max_transfer() ==> fails_op(
                r,
                "Memory read size too large (max 1MB)"@,
            ),
            self.process_attached() && size <= max_transfer() && bytes_read == 0 ==> fails_op(
                r,
                "Failed to read memory at address "@ + hex_addr(address as nat),
            ),
            self.process_attached() && size <= max_transfer() && bytes_read > 0 ==> match write_error {
                Some(e) => fails_op(r, "Failed to write dump file: "@ + e@),
                None => r == Ok::<usize, IncodeError>(
                    if (bytes_read as nat) < size {
                        bytes_read as usize
                    } else {
                        size
                    },
                ),
            },
    {
        let memory_data = self.read_memory(address, size, data, bytes_read)?;
        match write_error {
            Some(e) => {
                let mut msg = String::new();
                push_str(&mut msg, "Failed to write dump file: ");
                push_str(&mut msg, e.as_str());
                Err(IncodeError::LldbOperation(msg))
            },
            None => Ok(memory_data.len()),
        }
    }
}

/// The permissions of a region: `r`, `w` and `x`, each `-` where missing.
pub open spec fn permissions_of(raw: RawRegion) -> Seq<char> {
    seq![
        if raw.readable {
            'r'
        } else {
            '-'
        },
        if raw.writable {
            'w'
        } else {
            '-'
        },
        if raw.executable {
            'x'
        } else {
            '-'
        },
    ]
}

/// The size of a region: its end less its base, wrapping around below
/// zero.
pub open spec fn raw_region_size(raw: RawRegion) -> u64 {
    vstd::wrapping::u64_specs::wrapping_sub(raw.end, raw.base)
}

/// `m` describes the region the engine reported as `raw`.
pub open spec fn is_region_of(m: MemoryRegion, raw: RawRegion) -> bool {
    &&& m.start_address == raw.base
    &&& m.end_address == raw.end
    &&& m.size == raw_region_size(raw)
    &&& m.permissions@ == permissions_of(raw)
    &&& opt_view(m.name) == opt_view(raw.name)
}

fn region_of(raw: &RawRegion) -> (m: MemoryRegion)
    ensures
        is_region_of(m, *raw),
{
    let mut permissions = String::new();
    push_char(&mut permissions, if raw.readable { 'r' } else { '-' });
    push_char(&mut permissions, if raw.writable { 'w' } else { '-' });
    push_char(&mut permissions, if raw.executable { 'x' } else { '-' });
    assert(permissions@ =~= permissions_of(*raw));
    MemoryRegion {
        start_address: raw.base,
        end_address: raw.end,
        size: raw.end.wrapping_sub(raw.base),
        permissions,
        name: match &raw.name {
            Some(n) => Some(n.clone()),
            None => None,
        },
    }
}

impl LldbManager {
    /// The mapped regions of the process, from the regions the engine
    /// reported (`raw`), in its order.
    pub fn get_memory_regions(&self, raw: &Vec<RawRegion>) -> (r: Result<Vec<MemoryRegion>, IncodeError>)
        ensures
            !self.process_attached() ==> fails_op(r, "No active process for memory regions"@),
            self.process_attached() ==> (r matches Ok(regions) && regions@.len() == raw@.len()
                && forall|i: int| 0 <= i < raw@.len() ==> is_region_of(#[trigger] regions@[i], raw@[i])),
    {
        if !self.has_process {
            return Err(IncodeError::lldb_op("No active process for memory regions"));
        }
        let mut regions: Vec<MemoryRegion> = Vec::new();
        let mut i: usize = 0;
        while i < raw.len()
            invariant
                i <= raw@.len(),
                regions@.len() == i,
                forall|k: int| 0 <= k < i ==> is_region_of(#[trigger] regions@[k], raw@[k]),
            decreases raw@.len() - i,
        {
            regions.push(region_of(&raw[i]));
            i = i + 1;
        }
        Ok(regions)
    }
}

/// `seg` is the segment made from `region`.
pub open spec fn is_segment_of(seg: MemorySegment, region: MemoryRegion) -> bool {
    &&& seg.name@ == match region.name {
        Some(n) => n@,
        None => "UNKNOWN"@,
    }
    &&& seg.vm_address == region.start_address
    &&& seg.vm_size == region.size
    &&& seg.file_offset == 0
    &&& seg.file_size == region.size
    &&& seg.max_protection@ == region.permissions@
    &&& seg.initial_protection@ == region.permissions@
    &&& seg.segment_type@ == "SEGMENT"@
}

/// The total size of the regions `regions`.
pub open spec fn total_region_size(regions: Seq<MemoryRegion>) -> nat
    decreases regions.len(),
{
    if regions.len() == 0 {
        0
    } else {
        total_region_size(regions.drop_last()) + regions.last().size as nat
    }
}

fn segment_of(region: MemoryRegion) -> (seg: MemorySegment)
    ensures
        is_segment_of(seg, region),
{
    let name = match &region.name {
        Some(nm) => nm.clone(),
        None => "UNKNOWN".to_owned(),
    };
    MemorySegment {
        name,
        vm_address: region.start_address,
        vm_size: region.size,
        file_offset: 0,
        file_size: region.size,
        max_protection: region.permissions.clone(),
        initial_protection: region.permissions.clone(),
        segment_type: "SEGMENT".to_owned(),
    }
}

/// The memory map made from the regions of the process: one segment per
/// region, the load address `0x100000000` and no slide.
pub fn memory_map_of(regions: Vec<MemoryRegion>) -> (r: MemoryMap)
    requires
        total_region_size(regions@) <= u64::MAX,
    ensures
        r.segments@.len() == regions@.len(),
        forall|i: int| 0 <= i < regions@.len() ==> is_segment_of(#[trigger] r.segments@[i], regions@[i]),
        r.total_segments == regions@.len(),
        r.total_vm_size == total_region_size(regions@),
        r.load_address == 0x1_0000_0000,
        r.slide == 0,
{
    let mut segments: Vec<MemorySegment> = Vec::new();
    let mut rest = regions;
    let ghost all = rest@;
    let mut total: u64 = 0;
    let n = rest.len();
    let mut i: usize = 0;
    proof { lemma_total_region_prefix(all, 0); }
    while i < n
        invariant
            n == all.len(),
            rest@ == all.subrange(i as int, n as int),
            i <= n,
            segments@.len() == i,
            forall|k: int| 0 <= k < i ==> is_segment_of(#[trigger] segments@[k], all[k]),
            total == total_region_size(all.take(i as int)),
            total_region_size(all) <= u64::MAX,
        decreases n - i,
    {
        let region = rest.remove(0);
        assert(region == all[i as int]);
        proof {
            lemma_total_region_prefix(all, i as int + 1);
            assert(all.take(i + 1).drop_last() =~= all.take(i as int));
        }
        let seg = segment_of(region);
        total = total + seg.vm_size;
        segments.push(seg);
        i = i + 1;
    }
    assert(all.take(n as int) =~= all);
    let count = segments.len();
    MemoryMap {
        total_segments: count,
        total_vm_size: total,
        segments,
        load_address: 0x1_0000_0000,
        slide: 0,
    }
}

proof fn lemma_total_region_prefix(all: Seq<MemoryRegion>, j: int)
    requires
        0 <= j <= all.len(),
    ensures
        total_region_size(all.take(j)) <= total_region_size(all),
    decreases all.len() - j,
{
    if j < all.len() {
        lemma_total_region_prefix(all, j + 1);
        assert(all.take(j + 1).drop_last() =~= all.take(j));
    } else {
        assert(all.take(j) =~= all);
    }
}

/// The total size of the regions the engine reported.
pub open spec fn raw_total_size(raw: Seq<RawRegion>) -> nat
    decreases raw.len(),
{
    if raw.len() == 0 {
        0
    } else {
        raw_total_size(raw.drop_last()) + raw_region_size(raw.last()) as nat
    }
}

proof fn lemma_region_totals(regions: Seq<MemoryRegion>, raw: Seq<RawRegion>)
    requires
        regions.len() == raw.len(),
        forall|i: int| 0 <= i < raw.len() ==> is_region_of(#[trigger] regions[i], raw[i]),
    ensures
        total_region_size(regions) == raw_total_size(raw),
    decreases raw.len(),
{
    if raw.len() > 0 {
        assert forall|i: int| 0 <= i < raw.len() - 1 implies is_region_of(
            #[trigger] regions.drop_last()[i],
            raw.drop_last()[i],
        ) by {
            assert(regions.drop_last()[i] == regions[i]);
            assert(raw.drop_last()[i] == raw[i]);
        }
        lemma_region_totals(regions.drop_last(), raw.drop_last());
        assert(is_region_of(regions[raw.len() - 1], raw[raw.len() - 1]));
    }
}

/// `seg` is the segment of the memory map made from the region the engine
/// reported as `raw`.
pub open spec fn is_segment_of_raw(seg: MemorySegment, raw: RawRegion) -> bool {
    &&& seg.name@ == match raw.name {
        Some(n) => n@,
        None => "UNKNOWN"@,
    }
    &&& seg.vm_address == raw.base
    &&& seg.vm_size == raw_region_size(raw)
    &&& seg.file_offset == 0
    &&& seg.file_size == raw_region_size(raw)
    &&& seg.max_protection@ == permissions_of(raw)
    &&& seg.initial_protection@ == permissions_of(raw)
    &&& seg.segment_type@ == "SEGMENT"@
}

impl LldbManager {
    /// The memory map of the process, made from the regions the engine
    /// reported (`raw`): one segment per region, the load address
    /// `0x100000000` and no slide. The regions' sizes must add up within
    /// 64 bits.
    pub fn get_memory_map(&self, raw: &Vec<RawRegion>) -> (r: Result<MemoryMap, IncodeError>)
        requires
            raw_total_size(raw@) <= u64::MAX,
        ensures
            !self.process_attached() ==> fails_op(r, "No active process for memory regions"@),
            self.process_attached() ==> (r matches Ok(map) && map.segments@.len() == raw@.len()
                && map.total_segments == raw@.len() && map.total_vm_size == raw_total_size(raw@)
                && forall|i: int|
                0 <= i < raw@.len() ==> is_segment_of_raw(#[trigger] map.segments@[i], raw@[i])
                    && map.load_address == 0x1_0000_0000 && map.slide == 0),
    {
        let regions = self.get_memory_regions(raw)?;
        proof {
            lemma_region_totals(regions@, raw@);
        }
        let map = memory_map_of(regions);
        proof {
            assert forall|i: int| 0 <= i < raw@.len() implies is_segment_of_raw(
                #[trigger] map.segments@[i],
                raw@[i],
            ) by {
                assert(is_segment_of(map.segments@[i], regions@[i]));
                assert(is_region_of(regions@[i], raw@[i]));
            }
        }
        Ok(map)
    }
}

// ---------------------------------------------------------------------------
// Variables
// ---------------------------------------------------------------------------

/// A variable of a frame as the engine reported it: its name, value and
/// type as text, and whether it is an argument of the function.
#[derive(Debug)]
pub struct RawVariable {
    pub name: String,
    pub value: String,
    pub value_type: String,
    pub is_argument: bool,
}

/// `v` is the variable the engine reported as `raw`: an argument is in
/// scope `parameter`, any other variable in scope `local`.
pub open spec fn is_variable_of(v: Variable, raw: RawVariable) -> bool {
    &&& v.name@ == raw.name@
    &&& v.value@ == raw.value@
    &&& v.var_type@ == raw.value_type@
    &&& v.is_argument == raw.is_argument
    &&& v.scope@ == if raw.is_argument {
        "parameter"@
    } else {
        "local"@
    }
}

/// What the engine found of a variable looked up by name: its path, type,
/// type class, value, address, size, whether it is in scope, where it
/// lives (`stack`, `register`, `memory`, ...) and where it is declared.
#[derive(Debug)]
pub struct RawVariableInfo {
    pub full_name: String,
    pub value_type: String,
    pub type_class: String,
    pub value: String,
    pub address: u64,
    pub size: usize,
    pub in_scope: bool,
    pub location: String,
    pub declaration_file: Option<String>,
    pub declaration_line: Option<u32>,
}

/// `info` describes the variable `name` as the engine found it (`raw`).
pub open spec fn is_variable_info_of(info: VariableInfo, name: Seq<char>, raw: RawVariableInfo) -> bool {
    &&& info.name@ == name
    &&& info.full_name@ == raw.full_name@
    &&& info.var_type@ == raw.value_type@
    &&& info.type_class@ == raw.type_class@
    &&& info.value@ == raw.value@
    &&& info.address == raw.address
    &&& info.size == raw.size
    &&& info.is_valid
    &&& info.is_in_scope == raw.in_scope
    &&& info.location@ == raw.location@
    &&& opt_view(info.declaration_file) == opt_view(raw.declaration_file)
    &&& info.declaration_line == raw.declaration_line
}

/// `v` is the global variable the engine reported as `raw`.
pub open spec fn is_global_of(v: Variable, raw: RawVariable) -> bool {
    &&& v.name@ == raw.name@
    &&& v.value@ == raw.value@
    &&& v.var_type@ == raw.value_type@
    &&& !v.is_argument
    &&& v.scope@ == "global"@
}

/// Whether a variable of a frame is listed: only arguments where
/// `only_arguments` asks for them, else every variable, arguments only
/// where `include_arguments` asks for them.
pub open spec fn frame_variable_listed(raw: RawVariable, include_arguments: bool, only_arguments: bool) -> bool {
    if only_arguments {
        raw.is_argument
    } else {
        include_arguments || !raw.is_argument
    }
}

/// The variables of a frame that are listed, in their order.
pub open spec fn listed_frame_variables(
    found: Seq<RawVariable>,
    include_arguments: bool,
    only_arguments: bool,
) -> Seq<RawVariable> {
    found.filter(|raw: RawVariable| frame_variable_listed(raw, include_arguments, only_arguments))
}

/// `vars` describes the variables `raws`, one for one.
pub open spec fn describes_variables(vars: Seq<Variable>, raws: Seq<RawVariable>) -> bool {
    vars.len() == raws.len() && forall|i: int| 0 <= i < raws.len() ==> is_variable_of(#[trigger] vars[i], raws[i])
}

fn variable_of(raw: &RawVariable) -> (v: Variable)
    ensures
        is_variable_of(v, *raw),
{
    Variable {
        name: raw.name.clone(),
        value: raw.value.clone(),
        var_type: raw.value_type.clone(),
        is_argument: raw.is_argument,
        scope: if raw.is_argument {
            "parameter".to_owned()
        } else {
            "local".to_owned()
        },
    }
}

fn frame_listing(found: &Vec<RawVariable>, include_arguments: bool, only_arguments: bool) -> (r: Vec<Variable>)
    ensures
        describes_variables(r@, listed_frame_variables(found@, include_arguments, only_arguments)),
{
    let ghost pred = |raw: RawVariable| frame_variable_listed(raw, include_arguments, only_arguments);
    let mut out: Vec<Variable> = Vec::new();
    let mut i: usize = 0;
    assert(found@.take(0) =~= Seq::<RawVariable>::empty());
    proof {
        reveal(Seq::filter);
    }
    while i < found.len()
        invariant
            i <= found@.len(),
            pred == (|raw: RawVariable| frame_variable_listed(raw, include_arguments, only_arguments)),
            describes_variables(out@, found@.take(i as int).filter(pred)),
        decreases found@.len() - i,
    {
        proof {
            assert(found@.take(i + 1).drop_last() =~= found@.take(i as int));
            assert(found@.take(i + 1).last() == found@[i as int]);
            reveal(Seq::filter);
        }
        let raw = &found[i];
        let listed = if only_arguments {
            raw.is_argument
        } else {
            include_arguments || !raw.is_argument
        };
        if listed {
            let ghost before = out@;
            out.push(variable_of(raw));
            proof {
                let f = found@.take(i + 1).filter(pred);
                assert(f == found@.take(i as int).filter(pred).push(found@[i as int]));
                assert forall|k: int| 0 <= k < f.len() implies is_variable_of(#[trigger] out@[k], f[k]) by {
                    if k < before.len() {
                        assert(out@[k] == before[k]);
                    }
                }
            }
        }
        i = i + 1;
    }
    assert(found@.take(found@.len() as int) =~= found@);
    out
}

/// `o` as an optional sequence of characters.
pub open spec fn str_opt(o: Option<&str>) -> Option<Seq<char>> {
    match o {
        Some(s) => Some(s@),
        None => None,
    }
}

/// A variable passes the scope and name filters: its scope is `scope`
/// and its name contains `filter`, each where it is given.
pub open spec fn variable_kept(v: Variable, scope: Option<Seq<char>>, filter: Option<Seq<char>>) -> bool {
    &&& match scope {
        Some(sc) => v.scope@ == sc,
        None => true,
    }
    &&& match filter {
        Some(f) => crate::text::has_substr(v.name@, f),
        None => true,
    }
}

/// The variables of `vars` that pass the filters, in their order.
pub open spec fn kept_variables(
    vars: Seq<Variable>,
    scope: Option<Seq<char>>,
    filter: Option<Seq<char>>,
) -> Seq<Variable> {
    vars.filter(|v: Variable| variable_kept(v, scope, filter))
}

/// Keeps the variables whose scope is `scope` and whose name contains
/// `filter`.
pub fn retain_variables(vars: Vec<Variable>, scope: Option<&str>, filter: Option<&str>) -> (kept: Vec<
    Variable,
>)
    ensures
        kept@ == kept_variables(vars@, str_opt(scope), str_opt(filter)),
{
    let ghost orig = vars@;
    let ghost pred = |v: Variable| variable_kept(v, str_opt(scope), str_opt(filter));
    let mut rest = vars;
    let mut kept: Vec<Variable> = Vec::new();
    let ghost mut k: int = 0;
    assert(orig.take(0) =~= Seq::<Variable>::empty());
    proof {
        reveal(Seq::filter);
    }
    while rest.len() > 0
        invariant
            0 <= k <= orig.len(),
            rest@ =~= orig.subrange(k, orig.len() as int),
            kept@ == orig.take(k).filter(pred),
            pred == (|v: Variable| variable_kept(v, str_opt(scope), str_opt(filter))),
        decreases rest.len(),
    {
        let v = rest.remove(0);
        proof {
            assert(orig.take(k + 1).drop_last() =~= orig.take(k));
            assert(orig.take(k + 1).last() == v);
            reveal(Seq::filter);
        }
        let scope_ok = match scope {
            Some(sc) => str_eq(v.scope.as_str(), sc),
            None => true,
        };
        let name_ok = match filter {
            Some(f) => str_contains(v.name.as_str(), f),
            None => true,
        };
        if scope_ok && name_ok {
            kept.push(v);
        }
        proof {
            k = k + 1;
        }
    }
    assert(orig.take(k) =~= orig);
    kept
}

impl LldbManager {
    /// The variables of a frame of the selected thread once the host has
    /// looked the frame up (`frame_valid`) and read its variables
    /// (`found`), in the engine's order; arguments only where
    /// `include_arguments` asks for them.
    pub fn get_frame_variables(
        &self,
        frame_index: Option<u32>,
        include_arguments: bool,
        frame_valid: bool,
        found: &Vec<RawVariable>,
    ) -> (r: Result<Vec<Variable>, IncodeError>)
        ensures
            !self.thread_selected() ==> fails_op(r, "No active thread for frame variables"@),
            self.thread_selected() && !frame_valid ==> fails_op(r, "Invalid frame for variables"@),
            self.thread_selected() && frame_valid ==> (r matches Ok(vars) && describes_variables(
                vars@,
                listed_frame_variables(found@, include_arguments, false),
            )),
    {
        if !self.has_thread {
            return Err(IncodeError::lldb_op("No active thread for frame variables"));
        }
        if !frame_valid {
            return Err(IncodeError::lldb_op("Invalid frame for variables"));
        }
        Ok(frame_listing(found, include_arguments, false))
    }

    /// The arguments of a frame: its variables that are arguments, in the
    /// engine's order.
    pub fn get_frame_arguments(&self, frame_index: Option<u32>, frame_valid: bool, found: &Vec<RawVariable>) -> (r:
        Result<Vec<Variable>, IncodeError>)
        ensures
            !self.thread_selected() ==> fails_op(r, "No active thread for frame variables"@),
            self.thread_selected() && !frame_valid ==> fails_op(r, "Invalid frame for variables"@),
            self.thread_selected() && frame_valid ==> (r matches Ok(vars) && describes_variables(
                vars@,
                listed_frame_variables(found@, true, true),
            )),
    {
        if !self.has_thread {
            return Err(IncodeError::lldb_op("No active thread for frame variables"));
        }
        if !frame_valid {
            return Err(IncodeError::lldb_op("Invalid frame for variables"));
        }
        Ok(frame_listing(found, true, true))
    }

    /// Evaluates `expression` in frame `frame_index` (the selected frame by
    /// default) once the host has looked the frame up (`frame_valid`) and
    /// had the engine evaluate the expression there (`reply`: the value's
    /// text, or the message the evaluation failed with).
    pub fn evaluate_in_frame(
        &self,
        frame_index: Option<u32>,
        expression: &str,
        frame_valid: bool,
        reply: Result<String, String>,
    ) -> (r: Result<String, IncodeError>)
        ensures
            !self.thread_selected() ==> fails_op(r, "No active thread for expression evaluation"@),
            self.thread_selected() && !frame_valid ==> fails_op(
                r,
                "Invalid frame for expression evaluation"@,
            ),
            self.thread_selected() && frame_valid ==> is_evaluation(reply, r),
    {
        if !self.has_thread {
            return Err(IncodeError::lldb_op("No active thread for expression evaluation"));
        }
        if !frame_valid {
            return Err(IncodeError::lldb_op("Invalid frame for expression evaluation"));
        }
        self.evaluate_expression(expression, reply)
    }

    /// The variables in scope (the selected frame's, read by the engine as
    /// `found`; none when they cannot be had), kept when their scope is
    /// `scope` and their name contains `filter`.
    pub fn get_variables(
        &self,
        scope: Option<&str>,
        filter: Option<&str>,
        frame_valid: bool,
        found: &Vec<RawVariable>,
    ) -> (r: Result<Vec<Variable>, IncodeError>)
        ensures
            r matches Ok(vars) && if self.thread_selected() && frame_valid {
                exists|all: Seq<Variable>|
                    #[trigger] describes_variables(all, listed_frame_variables(found@, true, false))
                        && vars@ == kept_variables(all, str_opt(scope), str_opt(filter))
            } else {
                vars@.len() == 0
            },
    {
        let vars = match self.get_frame_variables(None, true, frame_valid, found) {
            Ok(v) => v,
            Err(_) => Vec::new(),
        };
        let ghost all = vars@;
        let kept = retain_variables(vars, scope, filter);
        proof {
            reveal(Seq::filter);
            if !(self.thread_selected() && frame_valid) {
                assert(all.len() == 0);
                assert(kept_variables(all, str_opt(scope), str_opt(filter)) =~= Seq::<Variable>::empty());
            }
        }
        Ok(kept)
    }

    /// The global variables of the target, as the engine found them
    /// (`found`), in its order; each is in scope `global`.
    pub fn get_global_variables(&self, module_filter: Option<&str>, found: &Vec<RawVariable>) -> (r: Result<
        Vec<Variable>,
        IncodeError,
    >)
        ensures
            !self.target_selected() ==> fails_op(r, "No active target for global variables"@),
            self.target_selected() ==> (r matches Ok(vars) && vars@.len() == found@.len() && forall|i: int|
                0 <= i < found@.len() ==> is_global_of(#[trigger] vars@[i], found@[i])),
    {
        if !self.has_target {
            return Err(IncodeError::lldb_op("No active target for global variables"));
        }
        let mut vars: Vec<Variable> = Vec::new();
        let mut i: usize = 0;
        while i < found.len()
            invariant
                i <= found@.len(),
                vars@.len() == i,
                forall|k: int| 0 <= k < i ==> is_global_of(#[trigger] vars@[k], found@[k]),
            decreases found@.len() - i,
        {
            vars.push(
                Variable {
                    name: found[i].name.clone(),
                    value: found[i].value.clone(),
                    var_type: found[i].value_type.clone(),
                    is_argument: false,
                    scope: "global".to_owned(),
                },
            );
            i = i + 1;
        }
        Ok(vars)
    }

    /// Information about variable `name`, given what the engine found under
    /// that name in the selected frame (`found`). Where it found nothing,
    /// the variable is reported as unknown and invalid, its full name
    /// `::main::` and the name.
    pub fn get_variable_info(&self, name: &str, found: Option<RawVariableInfo>) -> (r: Result<
        VariableInfo,
        IncodeError,
    >)
        ensures
            r matches Ok(info) && match found {
                Some(raw) => is_variable_info_of(info, name@, raw),
                None => {
                    &&& info.name@ == name@
                    &&& info.full_name@ == "::main::"@ + name@
                    &&& info.var_type@ == "unknown"@
                    &&& info.type_class@ == "unknown"@
                    &&& info.value@ == "?"@
                    &&& info.address == 0
                    &&& info.size == 0
                    &&& !info.is_valid
                    &&& !info.is_in_scope
                    &&& info.location@ == "unknown"@
                    &&& info.declaration_file is None
                    &&& info.declaration_line is None
                },
            },
    {
        match found {
            Some(raw) => Ok(
                VariableInfo {
                    name: name.to_owned(),
                    full_name: raw.full_name,
                    var_type: raw.value_type,
                    type_class: raw.type_class,
                    value: raw.value,
                    address: raw.address,
                    size: raw.size,
                    is_valid: true,
                    is_in_scope: raw.in_scope,
                    location: raw.location,
                    declaration_file: raw.declaration_file,
                    declaration_line: raw.declaration_line,
                },
            ),
            None => {
                let mut full = String::new();
                push_str(&mut full, "::main::");
                push_str(&mut full, name);
                Ok(
                    VariableInfo {
                        name: name.to_owned(),
                        full_name: full,
                        var_type: "unknown".to_owned(),
                        type_class: "unknown".to_owned(),
                        value: "?".to_owned(),
                        address: 0,
                        size: 0,
                        is_valid: false,
                        is_in_scope: false,
                        location: "unknown".to_owned(),
                        declaration_file: None,
                        declaration_line: None,
                    },
                )
            },
        }
    }

    /// The value of `expression`, given what the engine replied when it
    /// evaluated it in the selected frame: the value's text, or the message
    /// the evaluation failed with, which becomes an expression error.
    pub fn evaluate_expression(&self, expression: &str, reply: Result<String, String>) -> (r: Result<
        String,
        IncodeError,
    >)
        ensures
            is_evaluation(reply, r),
    {
        match reply {
            Ok(value) => Ok(value),
            Err(msg) => Err(IncodeError::ExpressionError(msg)),
        }
    }

    /// This entry point for raw debugger commands is not implemented;
    /// `execute_command` is the one that runs them.
    pub fn execute_lldb_command(&self, command: &str) -> (r: Result<String, IncodeError>)
        ensures
            fails_not_impl(r, "execute_lldb_command"@),
    {
        Err(IncodeError::not_implemented("execute_lldb_command"))
    }

    /// The answer to the raw debugger command `command`, given what the
    /// command interpreter replied when it ran it: its output, or the
    /// message it failed with, which becomes a failed debugger operation.
    pub fn execute_command(&self, command: &str, reply: Result<String, String>) -> (r: Result<
        String,
        IncodeError,
    >)
        ensures
            match reply {
                Ok(out) => r matches Ok(o) && o@ == out@,
                Err(msg) => fails_op(r, msg@),
            },
    {
        match reply {
            Ok(out) => Ok(out),
            Err(msg) => Err(IncodeError::LldbOperation(msg)),
        }
    }

    /// The source location of `address`, given where the engine placed it
    /// (`resolved`: the file, line, column and function, or `None` where it
    /// found no line for the address).
    pub fn get_line_info(&self, address: u64, resolved: Option<RawLineInfo>) -> (r: Result<
        SourceLocation,
        IncodeError,
    >)
        ensures
            match resolved {
                None => fails_op(r, "No line information for address "@ + hex_addr(address as nat)),
                Some(l) => r matches Ok(loc) && is_resolved_location(loc, address, l),
            },
    {
        match resolved {
            None => {
                let mut msg = String::new();
                push_str(&mut msg, "No line information for address ");
                push_hex_address(&mut msg, address);
                Err(IncodeError::LldbOperation(msg))
            },
            Some(l) => {
                let file_path = symbols::source_path_of(&l.file);
                let column = if l.column == 0 {
                    None
                } else {
                    Some(l.column)
                };
                Ok(
                    SourceLocation {
                        file_path,
                        line_number: l.line,
                        column,
                        function_name: l.function_name,
                        address,
                        is_valid: true,
                    },
                )
            },
        }
    }
}

// ---------------------------------------------------------------------------
// Threads
// ---------------------------------------------------------------------------

/// The first frame of a thread as the engine reported it: its function,
/// the file and line of its line entry (each missing where the engine gave
/// none), its address and whether it is inlined.
#[derive(Debug)]
pub struct RawStackFrame {
    pub function_name: Option<String>,
    pub file_path: Option<String>,
    pub line: Option<u32>,
    pub address: u64,
    pub is_inlined: bool,
}

/// What the engine reports of a thread: its identifiers, its name, state,
/// stop reason and queue as text (each missing where it gave none), its
/// number of frames and its first frame, where it gave a valid one.
#[derive(Debug)]
pub struct RawThread {
    pub thread_id: u32,
    pub index: u32,
    pub frame_count: u32,
    pub name: Option<String>,
    pub state: String,
    pub stop_reason: Option<String>,
    pub queue_name: Option<String>,
    pub first_frame: Option<RawStackFrame>,
}

/// `f` is frame 0 as the engine reported it (`raw`); a function without a
/// name reads `unknown`.
pub open spec fn is_stack_frame_of(f: StackFrame, raw: RawStackFrame) -> bool {
    &&& f.index == 0
    &&& f.function_name@ == frame_function(raw.function_name)
    &&& opt_view(f.file_path) == opt_view(raw.file_path)
    &&& f.line_number == raw.line
    &&& f.address == raw.address
    &&& f.is_inlined == raw.is_inlined
}

/// `t` describes the thread the engine reported as `raw`: its current
/// frame is its first frame, where it has frames and the engine gave a
/// valid first one.
pub open spec fn is_thread_info(t: ThreadInfo, raw: RawThread) -> bool {
    &&& t.thread_id == raw.thread_id
    &&& t.index == raw.index
    &&& opt_view(t.name) == opt_view(raw.name)
    &&& t.state@ == raw.state@
    &&& opt_view(t.stop_reason) == opt_view(raw.stop_reason)
    &&& opt_view(t.queue_name) == opt_view(raw.queue_name)
    &&& t.frame_count == raw.frame_count
    &&& if raw.frame_count > 0 && raw.first_frame is Some {
        t.current_frame matches Some(f) && is_stack_frame_of(f, raw.first_frame->0)
    } else {
        t.current_frame is None
    }
}

fn copy_text(o: &Option<String>) -> (r: Option<String>)
    ensures
        opt_view(r) == opt_view(*o),
{
    match o {
        Some(t) => Some(t.clone()),
        None => None,
    }
}

fn thread_info_of(raw: &RawThread) -> (t: ThreadInfo)
    ensures
        is_thread_info(t, *raw),
{
    let current_frame = if raw.frame_count > 0 {
        match &raw.first_frame {
            Some(f) => Some(
                StackFrame {
                    index: 0,
                    function_name: function_name_of(&f.function_name),
                    file_path: copy_text(&f.file_path),
                    line_number: f.line,
                    address: f.address,
                    is_inlined: f.is_inlined,
                },
            ),
            None => None,
        }
    } else {
        None
    };
    ThreadInfo {
        thread_id: raw.thread_id,
        index: raw.index,
        name: copy_text(&raw.name),
        state: raw.state.clone(),
        stop_reason: copy_text(&raw.stop_reason),
        queue_name: copy_text(&raw.queue_name),
        frame_count: raw.frame_count,
        current_frame,
    }
}

/// The position of the first valid thread with identifier `tid`.
pub open spec fn thread_position(threads: Seq<Option<RawThread>>, tid: u32) -> Option<nat>
    decreases threads.len(),
{
    if threads.len() == 0 {
        None
    } else if threads[0] matches Some(t) && t.thread_id == tid {
        Some(0)
    } else {
        match thread_position(threads.drop_first(), tid) {
            Some(i) => Some(i + 1),
            None => None,
        }
    }
}

/// The position of the first valid thread with identifier `tid`.
pub fn find_thread(threads: &Vec<Option<RawThread>>, tid: u32) -> (r: Option<usize>)
    ensures
        match r {
            Some(i) => thread_position(threads@, tid) == Some(i as nat) && i < threads@.len()
                && (threads@[i as int] matches Some(t) && t.thread_id == tid),
            None => thread_position(threads@, tid) is None,
        },
{
    let mut i: usize = 0;
    assert(threads@.subrange(0, threads@.len() as int) =~= threads@);
    while i < threads.len()
        invariant
            i <= threads@.len(),
            thread_position(threads@, tid) == match thread_position(
                threads@.subrange(i as int, threads@.len() as int),
                tid,
            ) {
                Some(j) => Some((j + i) as nat),
                None => None,
            },
        decreases threads@.len() - i,
    {
        let ghost rest = threads@.subrange(i as int, threads@.len() as int);
        assert(rest.drop_first() =~= threads@.subrange(i + 1, threads@.len() as int));
        match &threads[i] {
            Some(t) => {
                if t.thread_id == tid {
                    return Some(i);
                }
            },
            None => {},
        }
        i = i + 1;
    }
    None
}

impl LldbManager {
    /// The threads of the process as the engine reported them (`None` for
    /// an invalid thread, which is left out).
    pub fn list_threads(&self, threads: &Vec<Option<RawThread>>) -> (r: Result<
        Vec<ThreadInfo>,
        IncodeError,
    >)
        ensures
            !self.process_attached() ==> fails_not_found(r, "No active process"@),
            self.process_attached() ==> (r matches Ok(infos) && infos@.len() == present(
                threads@,
            ).len() && forall|i: int|
                0 <= i < infos@.len() ==> is_thread_info(#[trigger] infos@[i], present(threads@)[i])),
    {
        if !self.has_process {
            return Err(IncodeError::no_process());
        }
        let mut infos: Vec<ThreadInfo> = Vec::new();
        let mut k: usize = 0;
        while k < threads.len()
            invariant
                k <= threads.len(),
                infos@.len() == present(threads@.take(k as int)).len(),
                forall|i: int|
                    0 <= i < infos@.len() ==> is_thread_info(
                        #[trigger] infos@[i],
                        present(threads@.take(k as int))[i],
                    ),
            decreases threads.len() - k,
        {
            assert(threads@.take(k + 1).drop_last() =~= threads@.take(k as int));
            match &threads[k] {
                Some(t) => {
                    infos.push(thread_info_of(t));
                },
                None => {},
            }
            k = k + 1;
        }
        assert(threads@.take(threads@.len() as int) =~= threads@);
        Ok(infos)
    }

    /// Selects thread `thread_id`, the first valid thread with that
    /// identifier among those the engine reported.
    pub fn select_thread(&mut self, thread_id: u32, threads: &Vec<Option<RawThread>>) -> (r: Result<
        ThreadInfo,
        IncodeError,
    >)
        ensures
            !old(self).process_attached() ==> fails_not_found(r, "No active process"@),
            old(self).process_attached() ==> match thread_position(threads@, thread_id) {
                None => fails_not_found(r, "Thread "@ + dec_str(thread_id as nat) + " not found"@),
                Some(i) => {
                    &&& r matches Ok(t) && is_thread_info(t, threads@[i as int]->0)
                    &&& final(self).thread_id() == Some(thread_id)
                    &&& final(self).thread_selected()
                },
            },
            r is Err ==> *final(self) == *old(self),
            forall|id: u128| final(self).session(id) == old(self).session(id),
            final(self).current() == old(self).current(),
            final(self).frame_index() == old(self).frame_index(),
            final(self).process_attached() == old(self).process_attached(),
            final(self).target_selected() == old(self).target_selected(),
    {
        if !self.has_process {
            return Err(IncodeError::no_process());
        }
        match find_thread(threads, thread_id) {
            Some(i) => {
                match &threads[i] {
                    Some(t) => {
                        self.current_thread_id = Some(thread_id);
                        self.has_thread = true;
                        Ok(thread_info_of(t))
                    },
                    None => Err(IncodeError::no_process()),
                }
            },
            None => {
                let mut msg = String::new();
                push_str(&mut msg, "Thread ");
                push_dec(&mut msg, thread_id as u64);
                push_str(&mut msg, " not found");
                Err(IncodeError::ProcessNotFound(msg))
            },
        }
    }
}

} // verus!
