//! The catalog of tools: each tool's name and description, found by name.

use vstd::prelude::*;
use crate::error::IncodeError;
use crate::json::{entry, jstr, Json};
use crate::text::push_str;
use crate::tools::{
    advanced_analysis, breakpoints, debug_information, execution_control, lldb_control, memory_inspection,
    process_control, register_inspection, session_management, stack_analysis, target_info,
    thread_management, variables,
};

verus! {

broadcast use vstd::string::group_string_axioms;

/// The position of the entry named `name` in `es`, where there is one.
pub open spec fn name_position(es: Seq<(Seq<char>, Seq<char>)>, name: Seq<char>) -> Option<int>
    decreases es.len(),
{
    if es.len() == 0 {
        None
    } else if es.last().0 == name {
        Some(es.len() - 1)
    } else {
        name_position(es.drop_last(), name)
    }
}

/// A position found for `name` holds an entry of that name, and none
/// after it does.
pub proof fn lemma_name_position(es: Seq<(Seq<char>, Seq<char>)>, name: Seq<char>)
    ensures
        match name_position(es, name) {
            Some(i) => 0 <= i < es.len() && es[i].0 == name && forall|k: int|
                i < k < es.len() ==> (#[trigger] es[k]).0 != name,
            None => forall|k: int| 0 <= k < es.len() ==> (#[trigger] es[k]).0 != name,
        },
    decreases es.len(),
{
    if es.len() > 0 {
        lemma_name_position(es.drop_last(), name);
        assert forall|k: int| 0 <= k < es.len() - 1 implies (#[trigger] es[k]) == es.drop_last()[k] by {}
    }
}

/// The catalog `es` after registering `name` with `description`: a tool
/// of that name is replaced where it stands, a new one is added at the
/// end.
pub open spec fn registered(
    es: Seq<(Seq<char>, Seq<char>)>,
    name: Seq<char>,
    description: Seq<char>,
) -> Seq<(Seq<char>, Seq<char>)> {
    match name_position(es, name) {
        Some(i) => es.update(i, (name, description)),
        None => es.push((name, description)),
    }
}

/// The catalog built by registering `regs` in order into an empty one.
pub open spec fn registered_all(regs: Seq<(Seq<char>, Seq<char>)>) -> Seq<(Seq<char>, Seq<char>)>
    decreases regs.len(),
{
    if regs.len() == 0 {
        Seq::empty()
    } else {
        registered(registered_all(regs.drop_last()), regs.last().0, regs.last().1)
    }
}

/// No two entries of `es` have the same name.
pub open spec fn distinct_names(es: Seq<(Seq<char>, Seq<char>)>) -> bool {
    forall|i: int, j: int| 0 <= i < j < es.len() ==> (#[trigger] es[i]).0 != (#[trigger] es[j]).0
}

/// The names of the entries of `es`, in order.
pub open spec fn names_of(es: Seq<(Seq<char>, Seq<char>)>) -> Seq<Seq<char>> {
    es.map_values(|e: (Seq<char>, Seq<char>)| e.0)
}

/// Registering keeps names distinct and the set of names the registered
/// ones.
pub proof fn lemma_registered(es: Seq<(Seq<char>, Seq<char>)>, name: Seq<char>, description: Seq<char>)
    requires
        distinct_names(es),
    ensures
        distinct_names(registered(es, name, description)),
        names_of(registered(es, name, description)).to_set() == names_of(es).to_set().insert(
            name,
        ),
        name_position(registered(es, name, description), name) is Some,
        registered(es, name, description)[name_position(
            registered(es, name, description),
            name,
        )->0].1 == description,
{
    lemma_name_position(es, name);
    let r = registered(es, name, description);
    lemma_name_position(r, name);
    match name_position(es, name) {
        Some(i) => {
            assert(names_of(r) =~= names_of(es));
            assert(names_of(es).to_set().contains(name)) by {
                assert(names_of(es)[i] == name);
            }
            assert(names_of(es).to_set().insert(name) =~= names_of(es).to_set());
            assert forall|a: int, b: int| 0 <= a < b < r.len() implies (#[trigger] r[a]).0 != (
            #[trigger] r[b]).0 by {
                assert(r[a].0 == es[a].0);
                assert(r[b].0 == es[b].0);
            }
        },
        None => {
            assert(names_of(r) =~= names_of(es).push(name));
            assert(names_of(r).to_set() =~= names_of(es).to_set().insert(name)) by {
                assert forall|x: Seq<char>| names_of(r).to_set().contains(x) <==> names_of(
                    es,
                ).to_set().insert(name).contains(x) by {
                    if names_of(r).contains(x) {
                        let k = choose|k: int| 0 <= k < names_of(r).len() && names_of(r)[k] == x;
                        if k < es.len() {
                            assert(names_of(es)[k] == x);
                        }
                    }
                    if names_of(es).contains(x) {
                        let k = choose|k: int| 0 <= k < names_of(es).len() && names_of(es)[k] == x;
                        assert(names_of(r)[k] == x);
                    }
                    if x == name {
                        assert(names_of(r)[es.len() as int] == x);
                    }
                }
            }
            assert forall|a: int, b: int| 0 <= a < b < r.len() implies (#[trigger] r[a]).0 != (
            #[trigger] r[b]).0 by {
                if b == es.len() {
                    assert(r[a] == es[a]);
                } else {
                    assert(r[a] == es[a]);
                    assert(r[b] == es[b]);
                }
            }
        },
    }
}

/// A catalog holds each registered name once, and no other: as many tools
/// as there are different names among those registered.
pub proof fn law_registry_holds_each_name_once(regs: Seq<(Seq<char>, Seq<char>)>)
    ensures
        distinct_names(registered_all(regs)),
        names_of(registered_all(regs)).to_set() == names_of(regs).to_set(),
        registered_all(regs).len() == names_of(regs).to_set().len(),
    decreases regs.len(),
{
    let es = registered_all(regs);
    if regs.len() == 0 {
        assert(names_of(regs) =~= Seq::<Seq<char>>::empty());
        assert(names_of(es) =~= Seq::<Seq<char>>::empty());
        assert(names_of(regs).to_set() =~= Set::<Seq<char>>::empty());
    } else {
        let prev = regs.drop_last();
        law_registry_holds_each_name_once(prev);
        lemma_registered(registered_all(prev), regs.last().0, regs.last().1);
        assert(names_of(regs) =~= names_of(prev).push(regs.last().0));
        assert(names_of(regs).to_set() =~= names_of(prev).to_set().insert(regs.last().0)) by {
            assert forall|x: Seq<char>| names_of(regs).to_set().contains(x) <==> names_of(
                prev,
            ).to_set().insert(regs.last().0).contains(x) by {
                if names_of(regs).contains(x) {
                    let k = choose|k: int| 0 <= k < names_of(regs).len() && names_of(regs)[k] == x;
                    if k < prev.len() {
                        assert(names_of(prev)[k] == x);
                    }
                }
                if names_of(prev).contains(x) {
                    let k = choose|k: int| 0 <= k < names_of(prev).len() && names_of(prev)[k] == x;
                    assert(names_of(regs)[k] == x);
                }
                if x == regs.last().0 {
                    assert(names_of(regs)[prev.len() as int] == x);
                }
            }
        }
    }
    let ns = names_of(es);
    assert(ns.no_duplicates()) by {
        assert forall|a: int, b: int| 0 <= a < ns.len() && 0 <= b < ns.len() && a != b implies ns[a]
            != ns[b] by {
            if a < b {
                assert(es[a].0 != es[b].0);
            } else {
                assert(es[b].0 != es[a].0);
            }
        }
    }
    ns.unique_seq_to_set();
}

/// The tools registered at start, in order: every tool of the library
/// under its own name, sixty-five in all.
pub open spec fn standard_registrations() -> Seq<(Seq<char>, Seq<char>)> {
    seq![
        ("launch_process"@, "Launch executable with arguments, environment variables, and working directory"@),
        ("attach_to_process"@, "Attach to running process by PID or name"@),
        ("detach_process"@, "Safely detach from current debugging target"@),
        ("kill_process"@, "Terminate debugging target process"@),
        ("get_process_info"@, "Get process PID, executable path, state, memory usage"@),
        ("list_processes"@, "List all debuggable processes on system"@),
        ("continue_execution"@, "Continue process execution from current state"@),
        ("step_over"@, "Step over current instruction (next line in same function)"@),
        ("step_into"@, "Step into function calls"@),
        ("step_out"@, "Step out of current function (finish current function and return to caller)"@),
        ("step_instruction"@, "Single instruction step (assembly-level stepping)"@),
        ("run_until"@, "Run until specific address or line number"@),
        ("interrupt_execution"@, "Pause/interrupt running process execution"@),
        ("set_breakpoint"@, "Set breakpoint by address, function name, or file:line"@),
        ("set_watchpoint"@, "Set memory watchpoint to monitor memory access (read/write/access)"@),
        ("list_breakpoints"@, "List all active breakpoints with details including IDs, locations, and hit counts"@),
        ("delete_breakpoint"@, "Remove specific breakpoint by ID"@),
        ("enable_breakpoint"@, "Enable a previously disabled breakpoint by ID"@),
        ("disable_breakpoint"@, "Disable a breakpoint without removing it (can be re-enabled later)"@),
        ("set_conditional_breakpoint"@, "Set a breakpoint that only triggers when a specified condition is true"@),
        ("breakpoint_commands"@, "Set commands to execute automatically when a breakpoint is hit"@),
        ("get_backtrace"@, "Get call stack with function names, addresses, and frame information"@),
        ("select_frame"@, "Switch to specific stack frame by index for debugging context"@),
        ("get_frame_info"@, "Get current frame details including function, addresses, module, and source location"@),
        ("get_frame_variables"@, "Get all local variables in current or specified frame"@),
        ("get_frame_arguments"@, "Get function arguments (parameters) for current or specified frame"@),
        ("evaluate_in_frame"@, "Evaluate C/C++ expressions in specific frame context with access to local variables"@),
        ("read_memory"@, "Read raw memory at address with size and format options"@),
        ("write_memory"@, "Write data to memory address"@),
        ("disassemble"@, "Disassemble instructions at address or function name"@),
        ("search_memory"@, "Search for byte patterns in process memory"@),
        ("get_memory_regions"@, "List memory mappings and permissions for the target process"@),
        ("dump_memory"@, "Dump memory region to file for offline analysis"@),
        ("memory_map"@, "Get detailed memory map with segments, load addresses, and ASLR information"@),
        ("get_variables"@, "Get variables in current scope with types and values (local, global, static)"@),
        ("get_global_variables"@, "Get global and static variables with their current values"@),
        ("evaluate_expression"@, "Evaluate C/C++ expressions in the current debugging context"@),
        ("get_variable_info"@, "Get detailed information about a specific variable including type, location, and metadata"@),
        ("set_variable"@, "Modify variable value during debugging"@),
        ("lookup_symbol"@, "Find symbol information by name"@),
        ("list_threads"@, "List all threads with IDs and states"@),
        ("select_thread"@, "Switch to specific thread for debugging"@),
        ("get_thread_info"@, "Get thread details (state, stack, registers)"@),
        ("suspend_thread"@, "Suspend specific thread execution"@),
        ("resume_thread"@, "Resume suspended thread"@),
        ("get_registers"@, "Get all CPU registers for current thread"@),
        ("set_register"@, "Modify register value"@),
        ("get_register_info"@, "Get detailed register information"@),
        ("save_register_state"@, "Save current register state"@),
        ("get_source_code"@, "Get source code around current location"@),
        ("list_functions"@, "List all functions in target with addresses"@),
        ("get_line_info"@, "Get source line information for address"@),
        ("get_debug_info"@, "Get debug information summary"@),
        ("get_target_info"@, "Get comprehensive target information including architecture, platform, and executable details"@),
        ("get_platform_info"@, "Get comprehensive platform information including OS version, architecture, and development environment details"@),
        ("list_modules"@, "List all loaded modules/libraries with their addresses and debug information"@),
        ("execute_command"@, "Execute raw LLDB command and return output"@),
        ("get_lldb_version"@, "Get LLDB version and build information"@),
        ("set_lldb_settings"@, "Configure LLDB settings"@),
        ("create_session"@, "Create new debugging session"@),
        ("save_session"@, "Save debugging session state"@),
        ("load_session"@, "Load debugging session state"@),
        ("cleanup_session"@, "Clean up debugging session resources"@),
        ("analyze_crash"@, "Analyze crash dumps and provide detailed crash information"@),
        ("generate_core_dump"@, "Generate core dump files for current process state"@),
    ]
}

/// `v` lists the tool `e` (its name and description) with the schema of
/// its arguments, `parameters`.
pub open spec fn is_tool_listing(v: Json, e: (Seq<char>, Seq<char>), parameters: Json) -> bool {
    v matches Json::Object(fs) && {
        let fs = fs@;
        &&& fs.len() == 3
        &&& crate::tools::has_text(fs, 0, "name"@, e.0)
        &&& crate::tools::has_text(fs, 1, "description"@, e.1)
        &&& fs[2].0@ == "inputSchema"@
        &&& (fs[2].1 matches Json::Object(sc) && sc@.len() == 3 && crate::tools::has_text(
            sc@,
            0,
            "type"@,
            "object"@,
        ) && crate::tools::has_value(sc@, 1, "properties"@, parameters) && sc@[2].0@
            == "required"@ && (sc@[2].1 matches Json::Array(a) && a@.len() == 0))
    }
}

/// The tools by name.
#[derive(Debug)]
pub struct ToolRegistry {
    tools: Vec<(String, String)>,
}

impl ToolRegistry {
    /// The catalog: each tool's name and description, in the order the
    /// names were first registered.
    pub closed spec fn entries(&self) -> Seq<(Seq<char>, Seq<char>)> {
        self.tools@.map_values(|e: (String, String)| (e.0@, e.1@))
    }

    /// An empty catalog.
    pub fn empty() -> (r: Self)
        ensures
            r.entries() == Seq::<(Seq<char>, Seq<char>)>::empty(),
    {
        let r = ToolRegistry { tools: Vec::new() };
        assert(r.entries() =~= Seq::<(Seq<char>, Seq<char>)>::empty());
        r
    }

    fn position(&self, name: &str) -> (r: Option<usize>)
        ensures
            match r {
                Some(i) => name_position(self.entries(), name@) == Some(i as int),
                None => name_position(self.entries(), name@) is None,
            },
    {
        let ghost es = self.entries();
        let mut i: usize = self.tools.len();
        assert(es.take(i as int) =~= es);
        while i > 0
            invariant
                i <= self.tools@.len(),
                es == self.entries(),
                name_position(es, name@) == name_position(es.take(i as int), name@),
            decreases i,
        {
            let ghost t = es.take(i as int);
            assert(t.drop_last() =~= es.take(i - 1));
            assert(t.last() == es[i - 1]);
            if crate::text::str_eq(self.tools[i - 1].0.as_str(), name) {
                return Some(i - 1);
            }
            i = i - 1;
        }
        assert(es.take(0) =~= Seq::<(Seq<char>, Seq<char>)>::empty());
        None
    }

    /// Registers the tool `name` with `description`, replacing a tool of
    /// the same name.
    pub fn register_tool(&mut self, name: &str, description: &str)
        ensures
            final(self).entries() == registered(old(self).entries(), name@, description@),
    {
        let entry = (name.to_owned(), description.to_owned());
        proof {
            lemma_name_position(self.entries(), name@);
        }
        match self.position(name) {
            Some(i) => {
                self.tools.set(i, entry);
                assert(self.entries() =~= old(self).entries().update(
                    i as int,
                    (name@, description@),
                ));
            },
            None => {
                self.tools.push(entry);
                assert(self.entries() =~= old(self).entries().push((name@, description@)));
            },
        }
    }

    /// Registers the tools `regs` in order.
    pub fn register_all(&mut self, regs: &Vec<(&str, &str)>)
        requires
            old(self).entries() == Seq::<(Seq<char>, Seq<char>)>::empty(),
        ensures
            final(self).entries() == registered_all(regs@.map_values(|r: (&str, &str)| (r.0@, r.1@))),
    {
        let ghost views = regs@.map_values(|r: (&str, &str)| (r.0@, r.1@));
        let mut i: usize = 0;
        assert(views.take(0) =~= Seq::<(Seq<char>, Seq<char>)>::empty());
        while i < regs.len()
            invariant
                i <= regs@.len(),
                views == regs@.map_values(|r: (&str, &str)| (r.0@, r.1@)),
                self.entries() == registered_all(views.take(i as int)),
            decreases regs@.len() - i,
        {
            assert(views.take(i + 1).drop_last() =~= views.take(i as int));
            assert(views.take(i + 1).last() == (regs@[i as int].0@, regs@[i as int].1@));
            self.register_tool(regs[i].0, regs[i].1);
            i = i + 1;
        }
        assert(views.take(i as int) =~= views);
    }

    /// The catalog of all tools.
    pub fn new() -> (r: Self)
        ensures
            r.entries() == registered_all(standard_registrations()),
    {
        let mut regs: Vec<(&str, &str)> = Vec::new();
        regs.push((process_control::LaunchProcessTool.name(), process_control::LaunchProcessTool.description()));
        regs.push((process_control::AttachToProcessTool.name(), process_control::AttachToProcessTool.description()));
        regs.push((process_control::DetachProcessTool.name(), process_control::DetachProcessTool.description()));
        regs.push((process_control::KillProcessTool.name(), process_control::KillProcessTool.description()));
        regs.push((process_control::GetProcessInfoTool.name(), process_control::GetProcessInfoTool.description()));
        regs.push((process_control::ListProcessesTool.name(), process_control::ListProcessesTool.description()));
        regs.push((execution_control::ContinueExecutionTool.name(), execution_control::ContinueExecutionTool.description()));
        regs.push((execution_control::StepOverTool.name(), execution_control::StepOverTool.description()));
        regs.push((execution_control::StepIntoTool.name(), execution_control::StepIntoTool.description()));
        regs.push((execution_control::StepOutTool.name(), execution_control::StepOutTool.description()));
        regs.push((execution_control::StepInstructionTool.name(), execution_control::StepInstructionTool.description()));
        regs.push((execution_control::RunUntilTool.name(), execution_control::RunUntilTool.description()));
        regs.push((execution_control::InterruptExecutionTool.name(), execution_control::InterruptExecutionTool.description()));
        regs.push((breakpoints::SetBreakpointTool.name(), breakpoints::SetBreakpointTool.description()));
        regs.push((breakpoints::SetWatchpointTool.name(), breakpoints::SetWatchpointTool.description()));
        regs.push((breakpoints::ListBreakpointsTool.name(), breakpoints::ListBreakpointsTool.description()));
        regs.push((breakpoints::DeleteBreakpointTool.name(), breakpoints::DeleteBreakpointTool.description()));
        regs.push((breakpoints::EnableBreakpointTool.name(), breakpoints::EnableBreakpointTool.description()));
        regs.push((breakpoints::DisableBreakpointTool.name(), breakpoints::DisableBreakpointTool.description()));
        regs.push((breakpoints::SetConditionalBreakpointTool.name(), breakpoints::SetConditionalBreakpointTool.description()));
        regs.push((breakpoints::BreakpointCommandsTool.name(), breakpoints::BreakpointCommandsTool.description()));
        regs.push((stack_analysis::GetBacktraceTool.name(), stack_analysis::GetBacktraceTool.description()));
        regs.push((stack_analysis::SelectFrameTool.name(), stack_analysis::SelectFrameTool.description()));
        regs.push((stack_analysis::GetFrameInfoTool.name(), stack_analysis::GetFrameInfoTool.description()));
        regs.push((stack_analysis::GetFrameVariablesTool.name(), stack_analysis::GetFrameVariablesTool.description()));
        regs.push((stack_analysis::GetFrameArgumentsTool.name(), stack_analysis::GetFrameArgumentsTool.description()));
        regs.push((stack_analysis::EvaluateInFrameTool.name(), stack_analysis::EvaluateInFrameTool.description()));
        regs.push((memory_inspection::ReadMemoryTool.name(), memory_inspection::ReadMemoryTool.description()));
        regs.push((memory_inspection::WriteMemoryTool.name(), memory_inspection::WriteMemoryTool.description()));
        regs.push((memory_inspection::DisassembleTool.name(), memory_inspection::DisassembleTool.description()));
        regs.push((memory_inspection::SearchMemoryTool.name(), memory_inspection::SearchMemoryTool.description()));
        regs.push((memory_inspection::GetMemoryRegionsTool.name(), memory_inspection::GetMemoryRegionsTool.description()));
        regs.push((memory_inspection::DumpMemoryTool.name(), memory_inspection::DumpMemoryTool.description()));
        regs.push((memory_inspection::MemoryMapTool.name(), memory_inspection::MemoryMapTool.description()));
        regs.push((variables::GetVariablesTool.name(), variables::GetVariablesTool.description()));
        regs.push((variables::GetGlobalVariablesTool.name(), variables::GetGlobalVariablesTool.description()));
        regs.push((variables::EvaluateExpressionTool.name(), variables::EvaluateExpressionTool.description()));
        regs.push((variables::GetVariableInfoTool.name(), variables::GetVariableInfoTool.description()));
        regs.push((variables::SetVariableTool.name(), variables::SetVariableTool.description()));
        regs.push((variables::LookupSymbolTool.name(), variables::LookupSymbolTool.description()));
        regs.push((thread_management::ListThreadsTool.name(), thread_management::ListThreadsTool.description()));
        regs.push((thread_management::SelectThreadTool.name(), thread_management::SelectThreadTool.description()));
        regs.push((thread_management::GetThreadInfoTool.name(), thread_management::GetThreadInfoTool.description()));
        regs.push((thread_management::SuspendThreadTool.name(), thread_management::SuspendThreadTool.description()));
        regs.push((thread_management::ResumeThreadTool.name(), thread_management::ResumeThreadTool.description()));
        regs.push((register_inspection::GetRegistersTool.name(), register_inspection::GetRegistersTool.description()));
        regs.push((register_inspection::SetRegisterTool.name(), register_inspection::SetRegisterTool.description()));
        regs.push((register_inspection::GetRegisterInfoTool.name(), register_inspection::GetRegisterInfoTool.description()));
        regs.push((register_inspection::SaveRegisterStateTool.name(), register_inspection::SaveRegisterStateTool.description()));
        regs.push((debug_information::GetSourceCodeTool.name(), debug_information::GetSourceCodeTool.description()));
        regs.push((debug_information::ListFunctionsTool.name(), debug_information::ListFunctionsTool.description()));
        regs.push((debug_information::GetLineInfoTool.name(), debug_information::GetLineInfoTool.description()));
        regs.push((debug_information::GetDebugInfoTool.name(), debug_information::GetDebugInfoTool.description()));
        regs.push((target_info::GetTargetInfoTool.name(), target_info::GetTargetInfoTool.description()));
        regs.push((target_info::GetPlatformInfoTool.name(), target_info::GetPlatformInfoTool.description()));
        regs.push((target_info::ListModulesTool.name(), target_info::ListModulesTool.description()));
        regs.push((lldb_control::ExecuteCommandTool.name(), lldb_control::ExecuteCommandTool.description()));
        regs.push((lldb_control::GetLldbVersionTool.name(), lldb_control::GetLldbVersionTool.description()));
        regs.push((lldb_control::SetLldbSettingsTool.name(), lldb_control::SetLldbSettingsTool.description()));
        regs.push((session_management::CreateSessionTool.name(), session_management::CreateSessionTool.description()));
        regs.push((session_management::SaveSessionTool.name(), session_management::SaveSessionTool.description()));
        regs.push((session_management::LoadSessionTool.name(), session_management::LoadSessionTool.description()));
        regs.push((session_management::CleanupSessionTool.name(), session_management::CleanupSessionTool.description()));
        regs.push((advanced_analysis::AnalyzeCrashTool.name(), advanced_analysis::AnalyzeCrashTool.description()));
        regs.push((advanced_analysis::GenerateCoreDumpTool.name(), advanced_analysis::GenerateCoreDumpTool.description()));
        assert(regs@.map_values(|r: (&str, &str)| (r.0@, r.1@)) =~= standard_registrations());
        let mut r = Self::empty();
        r.register_all(&regs);
        r
    }

    /// The number of tools.
    pub fn tool_count(&self) -> (r: usize)
        ensures
            r == self.entries().len(),
    {
        self.tools.len()
    }

    /// The names of the tools, in the catalog's order.
    pub fn tool_names(&self) -> (r: Vec<String>)
        ensures
            r@.len() == self.entries().len(),
            forall|i: int| 0 <= i < r@.len() ==> (#[trigger] r@[i])@ == self.entries()[i].0,
    {
        let mut r: Vec<String> = Vec::new();
        let mut i: usize = 0;
        while i < self.tools.len()
            invariant
                i <= self.tools@.len(),
                r@.len() == i,
                forall|k: int| 0 <= k < i ==> (#[trigger] r@[k])@ == self.entries()[k].0,
            decreases self.tools@.len() - i,
        {
            r.push(self.tools[i].0.clone());
            i = i + 1;
        }
        r
    }

    /// The list of tools, each with the schema of its arguments
    /// (`parameters`, one for each tool in order).
    pub fn get_tool_list(&self, parameters: Vec<Json>) -> (r: Vec<Json>)
        requires
            parameters@.len() == self.entries().len(),
        ensures
            r@.len() == self.entries().len(),
            forall|i: int|
                0 <= i < r@.len() ==> is_tool_listing(
                    #[trigger] r@[i],
                    self.entries()[i],
                    parameters@[i],
                ),
    {
        let ghost ps = parameters@;
        let mut rest = parameters;
        let mut r: Vec<Json> = Vec::new();
        let mut i: usize = 0;
        while i < self.tools.len()
            invariant
                i <= self.tools@.len(),
                ps.len() == self.tools@.len(),
                rest@ == ps.subrange(i as int, ps.len() as int),
                r@.len() == i,
                forall|k: int|
                    0 <= k < i ==> is_tool_listing(#[trigger] r@[k], self.entries()[k], ps[k]),
            decreases self.tools@.len() - i,
        {
            let p = rest.remove(0);
            let mut sc: Vec<(String, Json)> = Vec::new();
            sc.push(entry("type", jstr("object")));
            sc.push(entry("properties", p));
            sc.push(entry("required", Json::Array(Vec::new())));
            let mut fs: Vec<(String, Json)> = Vec::new();
            fs.push(entry("name", Json::Str(self.tools[i].0.clone())));
            fs.push(entry("description", Json::Str(self.tools[i].1.clone())));
            fs.push(entry("inputSchema", Json::Object(sc)));
            r.push(Json::Object(fs));
            assert(rest@ =~= ps.subrange(i + 1, ps.len() as int));
            i = i + 1;
        }
        r
    }

    /// The position of the tool `name`, or the error for an unknown tool.
    pub fn find_tool(&self, name: &str) -> (r: Result<usize, IncodeError>)
        ensures
            match name_position(self.entries(), name@) {
                Some(i) => r == Ok::<usize, IncodeError>(i as usize),
                None => r matches Err(IncodeError::McpProtocol(m)) && m@ == "Unknown tool: "@
                    + name@,
            },
    {
        match self.position(name) {
            Some(i) => Ok(i),
            None => {
                let mut msg = String::new();
                push_str(&mut msg, "Unknown tool: ");
                push_str(&mut msg, name);
                Err(IncodeError::McpProtocol(msg))
            },
        }
    }
}

} // verus!
