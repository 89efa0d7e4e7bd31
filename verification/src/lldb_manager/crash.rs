//! The analysis of a crash: what the backtrace, registers, memory regions
//! and modules of the crashed process show, gathered in one report.

use vstd::prelude::*;
use crate::error::{fails_op, IncodeError};
use crate::lldb_manager::registers::{
    lemma_register_table_len, listed_registers, register_values, RawRegister,
};
use crate::lldb_manager::target::{listed_module_indices, module_name, RawModule};
use crate::lldb_manager::{
    backtrace_line, is_region_of, permissions_of, str_opt, CrashAnalysis, LldbManager, MemoryRegion,
    ModuleInfo, RawFrame, RawRegion,
};
use crate::json::opt_view;
use crate::text::{dec_str, hex_addr, push_dec, push_hex_address, push_str, views};

verus! {

broadcast use vstd::string::group_string_axioms;

/// The lines of a backtrace of `frames`: one per frame, or a line that
/// says there are none.
pub open spec fn backtrace_text(frames: Seq<Option<RawFrame>>) -> Seq<Seq<char>> {
    if frames.len() == 0 {
        seq!["No stack frames available"@]
    } else {
        Seq::new(frames.len(), |i: int| backtrace_line(i as nat, frames[i]))
    }
}

/// The line that describes a memory region: its bounds, permissions and
/// name (`[unknown]` without one).
pub open spec fn region_line(start: u64, end: u64, permissions: Seq<char>, name: Option<Seq<char>>) -> Seq<
    char,
> {
    hex_addr(start as nat) + "-"@ + hex_addr(end as nat) + " "@ + permissions + " "@ + match name {
        Some(n) => n,
        None => "[unknown]"@,
    }
}

/// The lines that describe the first five regions the engine reported.
pub open spec fn raw_region_lines(raw: Seq<RawRegion>) -> Seq<Seq<char>> {
    let n = if raw.len() < 5 {
        raw.len() as int
    } else {
        5
    };
    Seq::new(
        n as nat,
        |i: int|
            region_line(
                raw[i].base,
                raw[i].end,
                permissions_of(raw[i]),
                crate::json::opt_view(raw[i].name),
            ),
    )
}

/// The line that describes a loaded module: its name and load address.
pub open spec fn module_line(name: Seq<char>, load_address: u64) -> Seq<char> {
    name + " ("@ + hex_addr(load_address as nat) + ")"@
}

/// The lines that describe the first five regions of `regions`.
pub open spec fn region_lines(regions: Seq<MemoryRegion>) -> Seq<Seq<char>> {
    let n = if regions.len() < 5 {
        regions.len() as int
    } else {
        5
    };
    Seq::new(
        n as nat,
        |i: int|
            region_line(
                regions[i].start_address,
                regions[i].end_address,
                regions[i].permissions@,
                opt_view(regions[i].name),
            ),
    )
}

/// The lines that describe the first ten modules of `modules`.
pub open spec fn module_lines(modules: Seq<ModuleInfo>) -> Seq<Seq<char>> {
    let n = if modules.len() < 10 {
        modules.len() as int
    } else {
        10
    };
    Seq::new(n as nat, |i: int| module_line(modules[i].name@, modules[i].load_address))
}

fn describe_regions(regions: &Vec<MemoryRegion>) -> (r: Vec<String>)
    ensures
        views(r@) == region_lines(regions@),
{
    let n: usize = if regions.len() < 5 {
        regions.len()
    } else {
        5
    };
    let mut out: Vec<String> = Vec::new();
    let mut i: usize = 0;
    while i < n
        invariant
            n <= regions@.len(),
            n == if regions@.len() < 5 {
                regions@.len() as int
            } else {
                5
            },
            i <= n,
            views(out@) =~= region_lines(regions@).take(i as int),
        decreases n - i,
    {
        let region = &regions[i];
        let mut line = String::new();
        push_hex_address(&mut line, region.start_address);
        push_str(&mut line, "-");
        push_hex_address(&mut line, region.end_address);
        push_str(&mut line, " ");
        push_str(&mut line, region.permissions.as_str());
        push_str(&mut line, " ");
        match &region.name {
            Some(name) => push_str(&mut line, name.as_str()),
            None => push_str(&mut line, "[unknown]"),
        }
        let ghost old_out = out@;
        out.push(line);
        assert(views(out@) =~= views(old_out).push(region_lines(regions@)[i as int]));
        i = i + 1;
    }
    assert(region_lines(regions@).take(n as int) =~= region_lines(regions@));
    out
}

fn describe_modules(modules: &Vec<ModuleInfo>) -> (r: Vec<String>)
    ensures
        views(r@) == module_lines(modules@),
{
    let n: usize = if modules.len() < 10 {
        modules.len()
    } else {
        10
    };
    let mut out: Vec<String> = Vec::new();
    let mut i: usize = 0;
    while i < n
        invariant
            n <= modules@.len(),
            n == if modules@.len() < 10 {
                modules@.len() as int
            } else {
                10
            },
            i <= n,
            views(out@) =~= module_lines(modules@).take(i as int),
        decreases n - i,
    {
        let module = &modules[i];
        let mut line = module.name.clone();
        push_str(&mut line, " (");
        push_hex_address(&mut line, module.load_address);
        push_str(&mut line, ")");
        let ghost old_out = out@;
        out.push(line);
        assert(views(out@) =~= views(old_out).push(module_lines(modules@)[i as int]));
        i = i + 1;
    }
    assert(module_lines(modules@).take(n as int) =~= module_lines(modules@));
    out
}

fn one_line(text: &str) -> (r: Vec<String>)
    ensures
        views(r@) == seq![text@],
{
    let mut r: Vec<String> = Vec::new();
    r.push(text.to_owned());
    assert(views(r@) =~= seq![text@]);
    r
}

/// The advice a crash report gives.
pub open spec fn crash_recommendations() -> Seq<Seq<char>> {
    seq![
        "Review the crashed thread's stack trace"@,
        "Check for memory access violations"@,
        "Verify proper error handling in the code path"@,
        "Consider using memory debugging tools"@,
    ]
}

fn recommendations() -> (r: Vec<String>)
    ensures
        views(r@) == crash_recommendations(),
{
    let mut r: Vec<String> = Vec::new();
    r.push("Review the crashed thread's stack trace".to_owned());
    r.push("Check for memory access violations".to_owned());
    r.push("Verify proper error handling in the code path".to_owned());
    r.push("Consider using memory debugging tools".to_owned());
    assert(views(r@) =~= crash_recommendations());
    r
}

impl LldbManager {
    /// Reports on a crash of the process under the debugger, or of the one
    /// a core file records. The crash is taken for a segmentation fault in
    /// thread 0; the report gathers the backtrace (from `thread_found` and
    /// `frames`), the registers of thread 0 (from `frame_valid` and
    /// `register_sets`), the first five memory regions and the first ten
    /// modules (from `modules`), each replaced by a line that says it could
    /// not be had where it could not.
    pub fn analyze_crash(
        &self,
        core_file_path: Option<&str>,
        thread_found: bool,
        frames: &Vec<Option<RawFrame>>,
        frame_valid: bool,
        register_sets: Option<&Vec<Option<Vec<RawRegister>>>>,
        regions: &Vec<RawRegion>,
        modules: &Vec<Option<RawModule>>,
    ) -> (r: Result<CrashAnalysis, IncodeError>)
        requires
            modules@.len() <= u32::MAX,
        ensures
            core_file_path is None && !self.process_attached() ==> fails_op(
                r,
                "No core file path provided and no active process"@,
            ),
            core_file_path is Some || self.process_attached() ==> (r matches Ok(c) && {
                &&& c.crash_type@ == "SIGSEGV"@
                &&& c.crash_address == Some(0u64)
                &&& c.faulting_thread == 0
                &&& c.signal_number == 11
                &&& c.signal_name@ == "SIGSEGV"@
                &&& opt_view(c.exception_type) == Some("EXC_BAD_ACCESS"@)
                &&& c.exception_codes@ == seq![1u64, 0u64]
                &&& views(c.crashed_thread_backtrace@) == if self.process_attached()
                    && thread_found {
                    backtrace_text(frames@)
                } else {
                    seq!["Unable to get backtrace"@]
                }
                &&& c.register_state@ == if self.thread_selected() && frame_valid
                    && register_sets is Some {
                    "Registers captured: "@ + dec_str(
                        register_values(listed_registers(register_sets->0@)).dom().len(),
                    ) + " entries"@
                } else {
                    "Unable to get register state"@
                }
                &&& views(c.memory_regions@) == if self.process_attached() {
                    raw_region_lines(regions@)
                } else {
                    seq!["Unable to get memory regions"@]
                }
                &&& views(c.loaded_modules@) == if self.target_selected() {
                    let idx = listed_module_indices(modules@, None);
                    let n = if idx.len() < 10 {
                        idx.len() as int
                    } else {
                        10
                    };
                    Seq::new(
                        n as nat,
                        |k: int|
                            module_line(
                                module_name(modules@[idx[k] as int]->0, idx[k]),
                                (0x1_0000_0000 + idx[k] * 0x1000_0000) as u64,
                            ),
                    )
                } else {
                    seq!["Unable to get loaded modules"@]
                }
                &&& c.crash_summary@ == "SIGSEGV: Process crashed in thread 0"@
                &&& views(c.recommendations@) == crash_recommendations()
            }),
    {
        if core_file_path.is_none() && !self.has_process {
            return Err(IncodeError::lldb_op("No core file path provided and no active process"));
        }
        let faulting_thread: u32 = 0;
        let backtrace = match self.get_backtrace(thread_found, frames) {
            Ok(bt) => {
                assert(views(bt@) =~= backtrace_text(frames@));
                bt
            },
            Err(_) => one_line("Unable to get backtrace"),
        };
        let register_state = match self.get_registers(
            Some(faulting_thread),
            true,
            frame_valid,
            register_sets,
        ) {
            Ok(regs) => {
                proof {
                    lemma_register_table_len(
                        regs.registers@,
                        register_values(listed_registers(register_sets->0@)),
                    );
                }
                let mut text = String::new();
                push_str(&mut text, "Registers captured: ");
                push_dec(&mut text, regs.registers.len() as u64);
                push_str(&mut text, " entries");
                text
            },
            Err(_) => "Unable to get register state".to_owned(),
        };
        let memory_regions = match self.get_memory_regions(regions) {
            Ok(mapped) => {
                let lines = describe_regions(&mapped);
                proof {
                    assert forall|i: int| 0 <= i < region_lines(mapped@).len() implies #[trigger] region_lines(
                        mapped@,
                    )[i] == raw_region_lines(regions@)[i] by {
                        assert(is_region_of(mapped@[i], regions@[i]));
                    }
                    assert(region_lines(mapped@) =~= raw_region_lines(regions@));
                }
                lines
            },
            Err(_) => one_line("Unable to get memory regions"),
        };
        let loaded_modules = match self.list_modules(None, true, modules) {
            Ok(list) => {
                let lines = describe_modules(&list);
                proof {
                    let idx = listed_module_indices(modules@, str_opt(None));
                    assert(str_opt(None) == None::<Seq<char>>);
                    let n = if idx.len() < 10 {
                        idx.len() as int
                    } else {
                        10
                    };
                    assert(module_lines(list@) =~= Seq::new(
                        n as nat,
                        |k: int|
                            module_line(
                                module_name(modules@[idx[k] as int]->0, idx[k]),
                                (0x1_0000_0000 + idx[k] * 0x1000_0000) as u64,
                            ),
                    ));
                }
                lines
            },
            Err(_) => one_line("Unable to get loaded modules"),
        };
        let mut exception_codes: Vec<u64> = Vec::new();
        exception_codes.push(1);
        exception_codes.push(0);
        assert(exception_codes@ =~= seq![1u64, 0u64]);
        let mut summary = String::new();
        push_str(&mut summary, "SIGSEGV");
        push_str(&mut summary, ": Process crashed in thread ");
        push_dec(&mut summary, faulting_thread as u64);
        proof {
            reveal_strlit("SIGSEGV");
            reveal_strlit(": Process crashed in thread ");
            reveal_strlit("SIGSEGV: Process crashed in thread 0");
            assert(dec_str(0) =~= seq!['0']);
            assert(summary@ =~= "SIGSEGV: Process crashed in thread 0"@);
        }
        Ok(
            CrashAnalysis {
                crash_type: "SIGSEGV".to_owned(),
                crash_address: Some(0),
                faulting_thread,
                signal_number: 11,
                signal_name: "SIGSEGV".to_owned(),
                exception_type: Some("EXC_BAD_ACCESS".to_owned()),
                exception_codes,
                crashed_thread_backtrace: backtrace,
                register_state,
                memory_regions,
                loaded_modules,
                crash_summary: summary,
                recommendations: recommendations(),
            },
        )
    }
}

} // verus!
