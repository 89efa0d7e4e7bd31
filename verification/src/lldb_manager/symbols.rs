//! What the target's debug information says: the source around the
//! selected frame, the functions of its modules and a summary of its
//! symbols.

use vstd::prelude::*;
use crate::error::{fails_frame, fails_not_found, fails_thread, IncodeError};
use crate::lldb_manager::{
    CompilationUnit, DebugInfo, FunctionInfo, LldbManager, SourceCode, SourceLine, SourceLocation,
};
use crate::text::push_str;

verus! {

broadcast use vstd::string::group_string_axioms;

/// The file of a line entry as the engine reported it; a part the engine
/// could not give is missing.
#[derive(Debug)]
pub struct RawFileSpec {
    pub filename: Option<String>,
    pub directory: Option<String>,
}

/// Where the engine placed an address in the source: the file, the line,
/// the column (zero where it gave none) and the enclosing function, where
/// it named one.
#[derive(Debug)]
pub struct RawLineInfo {
    pub file: RawFileSpec,
    pub line: u32,
    pub column: u32,
    pub function_name: Option<String>,
}

/// `loc` is the source location of `address` that the engine gave as `l`.
pub open spec fn is_resolved_location(loc: SourceLocation, address: u64, l: RawLineInfo) -> bool {
    &&& loc.file_path@ == source_path(l.file)
    &&& loc.line_number == l.line
    &&& loc.column == if l.column == 0 {
        None::<u32>
    } else {
        Some(l.column)
    }
    &&& crate::json::opt_view(loc.function_name) == crate::json::opt_view(l.function_name)
    &&& loc.address == address
    &&& loc.is_valid
}

/// The line entry of a frame as the engine reported it.
#[derive(Debug)]
pub struct RawLineEntry {
    /// The file, missing where the engine gave none.
    pub file: Option<RawFileSpec>,
    pub line: u32,
}

/// The path of a file: its directory, a slash and its name, or the name
/// alone without a directory; a missing name reads `unknown`.
pub open spec fn source_path(f: RawFileSpec) -> Seq<char> {
    let name = match f.filename {
        Some(n) => n@,
        None => "unknown"@,
    };
    let dir = match f.directory {
        Some(d) => d@,
        None => Seq::empty(),
    };
    if dir.len() == 0 {
        name
    } else {
        dir + "/"@ + name
    }
}

/// The first line of the window of `ctx` lines around line `line`.
pub open spec fn window_first(line: u32, ctx: u32) -> int {
    if line - ctx >= 1 {
        line - ctx
    } else {
        1
    }
}

/// The last line of the window of `ctx` lines around line `line`, in a
/// file of `total` lines.
pub open spec fn window_last(line: u32, ctx: u32, total: nat) -> int {
    if line + ctx <= total {
        line + ctx
    } else {
        total as int
    }
}

/// The views of some lines of text.
pub open spec fn line_views(v: Seq<String>) -> Seq<Seq<char>> {
    v.map_values(|l: String| l@)
}

/// The lines of a file as the host read them, none where it could not.
pub open spec fn lines_text(file_lines: Option<Vec<String>>) -> Option<Seq<Seq<char>>> {
    match file_lines {
        Some(ls) => Some(line_views(ls@)),
        None => None,
    }
}

/// `code` lists the source around line `line` of the file at `path`: where
/// its text `text` (its lines, in order) could be read, the lines from
/// `ctx` before to `ctx` after line `line` that the file has, each with its
/// number and text and only line `line` marked current; where it could not
/// be read, one current line that says so.
pub open spec fn is_source_listing(
    code: SourceCode,
    path: Seq<char>,
    line: u32,
    ctx: u32,
    text: Option<Seq<Seq<char>>>,
) -> bool {
    &&& code.file_path@ == path
    &&& code.current_line == Some(line)
    &&& match text {
        None => {
            &&& code.start_line == line
            &&& code.end_line == line
            &&& code.total_lines is None
            &&& code.lines@.len() == 1
            &&& code.lines@[0].line_number == line
            &&& code.lines@[0].content@ == "// Source code not available"@
            &&& code.lines@[0].is_current
            &&& !code.lines@[0].has_breakpoint
            &&& code.lines@[0].address is None
        },
        Some(ls) => {
            let first = window_first(line, ctx);
            let last = window_last(line, ctx, ls.len());
            &&& code.start_line == first
            &&& code.end_line == last
            &&& code.total_lines == Some(ls.len() as u32)
            &&& code.lines@.len() == if last >= first {
                last - first + 1
            } else {
                0
            }
            &&& forall|k: int|
                0 <= k < code.lines@.len() ==> {
                    let sl = #[trigger] code.lines@[k];
                    &&& sl.line_number == first + k
                    &&& sl.content@ == ls[first + k - 1]
                    &&& sl.is_current == (first + k == line)
                    &&& !sl.has_breakpoint
                    &&& sl.address is None
                }
        },
    }
}

pub(crate) fn source_path_of(f: &RawFileSpec) -> (r: String)
    ensures
        r@ == source_path(*f),
{
    let mut r = String::new();
    match &f.directory {
        Some(d) => {
            if d.as_str().unicode_len() > 0 {
                push_str(&mut r, d.as_str());
                push_str(&mut r, "/");
            }
        },
        None => {},
    }
    match &f.filename {
        Some(n) => push_str(&mut r, n.as_str()),
        None => push_str(&mut r, "unknown"),
    }
    r
}

/// A symbol as the engine reported it. A symbol the engine could not give,
/// or whose name it could not give, has no name; an address is missing
/// where the engine gave no address object, and is the load address
/// otherwise.
#[derive(Debug)]
pub struct RawSymbol {
    pub name: Option<String>,
    pub start_address: Option<u64>,
    pub end_address: Option<u64>,
}

/// The symbols of all modules, module after module; a module the engine
/// could not give contributes none.
pub open spec fn listed_symbols(modules: Seq<Option<Vec<RawSymbol>>>) -> Seq<RawSymbol>
    decreases modules.len(),
{
    if modules.len() == 0 {
        Seq::empty()
    } else {
        listed_symbols(modules.drop_last()) + match modules.last() {
            Some(m) => m@,
            None => Seq::empty(),
        }
    }
}

/// The function that a named symbol stands for: it starts at the symbol's
/// start address (zero without one) and ends at its end address (none
/// without one, or where that address is zero); its size is the distance
/// between the two, zero where the end does not lie above the start.
pub open spec fn function_of(s: RawSymbol) -> FunctionInfo
    recommends
        s.name is Some,
{
    let start: u64 = match s.start_address {
        Some(a) => a,
        None => 0,
    };
    let end: Option<u64> = match s.end_address {
        Some(a) => if a != 0 {
            Some(a)
        } else {
            None
        },
        None => None,
    };
    FunctionInfo {
        name: s.name->0,
        mangled_name: None,
        start_address: start,
        end_address: end,
        file_path: None,
        line_number: None,
        size: match end {
            Some(e) => Some(
                if e > start {
                    (e - start) as u64
                } else {
                    0u64
                },
            ),
            None => None,
        },
        is_inline: false,
        return_type: None,
    }
}

/// The functions of the named symbols of `syms`, in their order.
pub open spec fn functions_of(syms: Seq<RawSymbol>) -> Seq<FunctionInfo>
    decreases syms.len(),
{
    if syms.len() == 0 {
        Seq::empty()
    } else if syms.last().name is Some {
        functions_of(syms.drop_last()).push(function_of(syms.last()))
    } else {
        functions_of(syms.drop_last())
    }
}

fn function_from(s: &RawSymbol, name: &String) -> (f: FunctionInfo)
    requires
        s.name == Some(*name),
    ensures
        f == function_of(*s),
{
    let start: u64 = match s.start_address {
        Some(a) => a,
        None => 0,
    };
    let end: Option<u64> = match s.end_address {
        Some(a) => if a != 0 {
            Some(a)
        } else {
            None
        },
        None => None,
    };
    let size: Option<u64> = match end {
        Some(e) => Some(
            if e > start {
                e - start
            } else {
                0
            },
        ),
        None => None,
    };
    FunctionInfo {
        name: name.clone(),
        mangled_name: None,
        start_address: start,
        end_address: end,
        file_path: None,
        line_number: None,
        size,
        is_inline: false,
        return_type: None,
    }
}

/// The total of the symbol counts of the modules the engine could give,
/// added as 32-bit counts that wrap around.
pub open spec fn symbol_total(counts: Seq<Option<u32>>) -> u32
    decreases counts.len(),
{
    if counts.len() == 0 {
        0
    } else {
        vstd::wrapping::u32_specs::wrapping_add(
            symbol_total(counts.drop_last()),
            match counts.last() {
                Some(n) => n,
                None => 0u32,
            },
        )
    }
}

impl LldbManager {
    /// The source around the selected frame, once the host has looked the
    /// frame up (`frame_valid`), read its line entry (`line_entry`,
    /// missing where the engine gave none) and read the lines of its file
    /// (`file_lines`, none where the file could not be read): the lines
    /// from `context_lines` before the current line to `context_lines`
    /// after it.
    pub fn get_source_code(
        &self,
        address: Option<u64>,
        context_lines: u32,
        frame_valid: bool,
        line_entry: Option<RawLineEntry>,
        file_lines: Option<Vec<String>>,
    ) -> (r: Result<SourceCode, IncodeError>)
        requires
            file_lines matches Some(ls) ==> ls@.len() <= u32::MAX,
        ensures
            !self.thread_selected() ==> fails_thread(r, "No current thread selected"@),
            self.thread_selected() && !frame_valid ==> fails_frame(r, "No current frame available"@),
            self.thread_selected() && frame_valid && line_entry is None ==> fails_frame(
                r,
                "No line information available"@,
            ),
            self.thread_selected() && frame_valid && (line_entry matches Some(e) && e.file is None)
                ==> fails_frame(r, "No file information available"@),
            self.thread_selected() && frame_valid && (line_entry matches Some(e) && e.file is Some)
                ==> (r matches Ok(code) && is_source_listing(
                code,
                source_path(line_entry->0.file->0),
                line_entry->0.line,
                context_lines,
                lines_text(file_lines),
            )),
    {
        if !self.has_thread {
            return Err(IncodeError::thread("No current thread selected"));
        }
        if !frame_valid {
            return Err(IncodeError::frame("No current frame available"));
        }
        let entry = match line_entry {
            Some(e) => e,
            None => {
                return Err(IncodeError::frame("No line information available"));
            },
        };
        let file = match &entry.file {
            Some(f) => f,
            None => {
                return Err(IncodeError::frame("No file information available"));
            },
        };
        let file_path = source_path_of(file);
        let current_line = entry.line;
        let ls = match file_lines {
            Some(ls) => ls,
            None => {
                let mut lines: Vec<SourceLine> = Vec::new();
                lines.push(
                    SourceLine {
                        line_number: current_line,
                        content: "// Source code not available".to_owned(),
                        is_current: true,
                        has_breakpoint: false,
                        address: None,
                    },
                );
                return Ok(
                    SourceCode {
                        file_path,
                        lines,
                        start_line: current_line,
                        end_line: current_line,
                        current_line: Some(current_line),
                        total_lines: None,
                    },
                );
            },
        };
        let total = ls.len() as u64;
        let first: u64 = if current_line > context_lines && current_line - context_lines >= 1 {
            (current_line - context_lines) as u64
        } else {
            1
        };
        let last: u64 = if current_line as u64 + context_lines as u64 <= total {
            current_line as u64 + context_lines as u64
        } else {
            total
        };
        let ghost lv = line_views(ls@);
        let mut lines: Vec<SourceLine> = Vec::new();
        let mut n: u64 = first;
        while n <= last
            invariant
                1 <= first <= n,
                last <= total == ls@.len() <= u32::MAX,
                n <= last + 1 || n == first,
                lv == line_views(ls@),
                lines@.len() == n - first,
                forall|k: int|
                    0 <= k < lines@.len() ==> {
                        let sl = #[trigger] lines@[k];
                        &&& sl.line_number == first + k
                        &&& sl.content@ == lv[first + k - 1]
                        &&& sl.is_current == (first + k == current_line)
                        &&& !sl.has_breakpoint
                        &&& sl.address is None
                    },
            decreases last + 1 - n,
        {
            let content = ls[(n - 1) as usize].clone();
            lines.push(
                SourceLine {
                    line_number: n as u32,
                    content,
                    is_current: n == current_line as u64,
                    has_breakpoint: false,
                    address: None,
                },
            );
            n = n + 1;
        }
        Ok(
            SourceCode {
                file_path,
                lines,
                start_line: first as u32,
                end_line: last as u32,
                current_line: Some(current_line),
                total_lines: Some(total as u32),
            },
        )
    }

    /// The functions of the target: one for each named symbol of each
    /// module the engine could give (`modules`), in order. The module
    /// filter is not applied.
    pub fn list_functions(
        &self,
        module_filter: Option<&str>,
        modules: &Vec<Option<Vec<RawSymbol>>>,
    ) -> (r: Result<Vec<FunctionInfo>, IncodeError>)
        ensures
            !self.target_selected() ==> fails_not_found(r, "No target available"@),
            self.target_selected() ==> (r matches Ok(fns) && fns@ == functions_of(
                listed_symbols(modules@),
            )),
    {
        if !self.has_target {
            return Err(IncodeError::process("No target available"));
        }
        let mut functions: Vec<FunctionInfo> = Vec::new();
        let mut i: usize = 0;
        assert(modules@.take(0) =~= Seq::<Option<Vec<RawSymbol>>>::empty());
        while i < modules.len()
            invariant
                i <= modules@.len(),
                functions@ == functions_of(listed_symbols(modules@.take(i as int))),
            decreases modules@.len() - i,
        {
            let ghost done = listed_symbols(modules@.take(i as int));
            assert(modules@.take(i + 1).drop_last() =~= modules@.take(i as int));
            match &modules[i] {
                Some(syms) => {
                    let mut j: usize = 0;
                    assert(done + syms@.take(0) =~= done);
                    while j < syms.len()
                        invariant
                            j <= syms@.len(),
                            functions@ == functions_of(done + syms@.take(j as int)),
                        decreases syms@.len() - j,
                    {
                        assert((done + syms@.take(j + 1)).drop_last() =~= done + syms@.take(
                            j as int,
                        ));
                        assert((done + syms@.take(j + 1)).last() == syms@[j as int]);
                        match &syms[j].name {
                            Some(n) => {
                                functions.push(function_from(&syms[j], n));
                            },
                            None => {},
                        }
                        j = j + 1;
                    }
                    assert(done + syms@.take(syms@.len() as int) =~= listed_symbols(
                        modules@.take(i + 1),
                    ));
                },
                None => {
                    assert(done =~= listed_symbols(modules@.take(i + 1)));
                },
            }
            i = i + 1;
        }
        assert(modules@.take(modules@.len() as int) =~= modules@);
        Ok(functions)
    }

    /// A summary of the target's debug information from the symbol count of
    /// each module (`symbol_counts`, missing for a module the engine could
    /// not give). Compilation units, line tables and functions are not
    /// counted.
    pub fn get_debug_info(&self, symbol_counts: &Vec<Option<u32>>) -> (r: Result<
        DebugInfo,
        IncodeError,
    >)
        ensures
            !self.target_selected() ==> fails_not_found(r, "No target available"@),
            self.target_selected() ==> (r matches Ok(info) && info.symbol_count == symbol_total(
                symbol_counts@,
            ) && info.has_debug_symbols == (info.symbol_count > 0) && info.debug_format@
                == "DWARF"@ && info.compilation_units@.len() == 0 && info.line_table_count == 0
                && info.function_count == 0),
    {
        if !self.has_target {
            return Err(IncodeError::process("No target available"));
        }
        let mut total: u32 = 0;
        let mut i: usize = 0;
        while i < symbol_counts.len()
            invariant
                i <= symbol_counts@.len(),
                total == symbol_total(symbol_counts@.take(i as int)),
            decreases symbol_counts@.len() - i,
        {
            assert(symbol_counts@.take(i + 1).drop_last() =~= symbol_counts@.take(i as int));
            match symbol_counts[i] {
                Some(n) => {
                    total = total.wrapping_add(n);
                },
                None => {
                    total = total.wrapping_add(0);
                },
            }
            i = i + 1;
        }
        assert(symbol_counts@.take(symbol_counts@.len() as int) =~= symbol_counts@);
        let compilation_units: Vec<CompilationUnit> = Vec::new();
        Ok(
            DebugInfo {
                has_debug_symbols: total > 0,
                debug_format: "DWARF".to_owned(),
                compilation_units,
                symbol_count: total,
                line_table_count: 0,
                function_count: 0,
            },
        )
    }
}

} // verus!
