//! Operations that go through the debugger's command interpreter: changing
//! settings and variables, looking symbols up and saving core files. Each
//! names the commands it needs run; the caller runs them and hands the
//! interpreter's replies back, and the operation reads them.

use vstd::prelude::*;
use crate::error::{fails_config, fails_not_found, fails_op, IncodeError};
use crate::lldb_manager::symbols::{source_path, RawLineInfo};
use crate::lldb_manager::{LldbManager, SymbolInfo};
use crate::text::{
    chars_of, dec_str, find_char, has_prefix, has_substr, has_suffix, index_of, parse_bounded,
    parse_unsigned_chars, push_dec, push_str, second_piece, second_piece_of, split_lines,
    split_words, str_contains, str_ends_with, str_eq, str_starts_with, string_of_range, sub_chars,
    text_lines, trim, trim_str, views, words,
};

verus! {

broadcast use vstd::string::group_string_axioms;

// ---------------------------------------------------------------------------
// Settings
// ---------------------------------------------------------------------------

/// The settings the debugger is known to have.
pub open spec fn is_known_setting(name: Seq<char>) -> bool {
    ||| name == "target.prefer-dynamic-value"@
    ||| name == "target.display-expression-variables"@
    ||| name == "target.max-children-count"@
    ||| name == "target.max-string-summary-length"@
    ||| name == "target.process.thread.step-avoid-libraries"@
    ||| name == "target.process.thread.step-avoid-regexp"@
    ||| name == "plugin.symbol-file.dwarf.comp-dir-symlink-paths"@
    ||| name == "interpreter.prompt"@
    ||| name == "stop-disassembly-display"@
    ||| name == "stop-line-count-before"@
    ||| name == "stop-line-count-after"@
    ||| name == "thread-format"@
    ||| name == "frame-format"@
    ||| name == "use-external-editor"@
    ||| name == "auto-confirm"@
    ||| name == "print-object-description"@
    ||| name == "display-recognised-arguments"@
    ||| name == "display-runtime-support-values"@
}

/// A setting name is accepted when it is known, or when it is dotted: it
/// contains a dot but neither begins nor ends with one.
pub open spec fn is_valid_setting(name: Seq<char>) -> bool {
    is_known_setting(name) || (name.contains('.') && !has_prefix(name, "."@) && !has_suffix(
        name,
        "."@,
    ))
}

fn known_setting(name: &str) -> (r: bool)
    ensures
        r == is_known_setting(name@),
{
    str_eq(name, "target.prefer-dynamic-value") || str_eq(name, "target.display-expression-variables")
        || str_eq(name, "target.max-children-count") || str_eq(
        name,
        "target.max-string-summary-length",
    ) || str_eq(name, "target.process.thread.step-avoid-libraries") || str_eq(
        name,
        "target.process.thread.step-avoid-regexp",
    ) || str_eq(name, "plugin.symbol-file.dwarf.comp-dir-symlink-paths") || str_eq(
        name,
        "interpreter.prompt",
    ) || str_eq(name, "stop-disassembly-display") || str_eq(name, "stop-line-count-before")
        || str_eq(name, "stop-line-count-after") || str_eq(name, "thread-format") || str_eq(
        name,
        "frame-format",
    ) || str_eq(name, "use-external-editor") || str_eq(name, "auto-confirm") || str_eq(
        name,
        "print-object-description",
    ) || str_eq(name, "display-recognised-arguments") || str_eq(
        name,
        "display-runtime-support-values",
    )
}

/// Whether the debugger would accept `name` as a setting name.
pub fn valid_setting(name: &str) -> (r: bool)
    ensures
        r == is_valid_setting(name@),
{
    let v = chars_of(name);
    let dotted = find_char(&v, '.').is_some();
    known_setting(name) || (dotted && !str_starts_with(name, ".") && !str_ends_with(name, "."))
}

/// The command that sets `setting_name` to `value`.
pub open spec fn settings_set_text(setting_name: Seq<char>, value: Seq<char>) -> Seq<char> {
    "settings set "@ + setting_name + " "@ + value
}

/// The command that shows the value of `setting_name`.
pub open spec fn settings_show_text(setting_name: Seq<char>) -> Seq<char> {
    "settings show "@ + setting_name
}

/// The command that sets `setting_name` to `value`.
pub fn settings_set_command(setting_name: &str, value: &str) -> (r: String)
    ensures
        r@ == settings_set_text(setting_name@, value@),
{
    let mut command = String::new();
    push_str(&mut command, "settings set ");
    push_str(&mut command, setting_name);
    push_str(&mut command, " ");
    push_str(&mut command, value);
    command
}

/// The command that shows the value of `setting_name`.
pub fn settings_show_command(setting_name: &str) -> (r: String)
    ensures
        r@ == settings_show_text(setting_name@),
{
    let mut command = String::new();
    push_str(&mut command, "settings show ");
    push_str(&mut command, setting_name);
    command
}

/// What setting `setting_name` to `value` answers, given the replies of
/// the interpreter to the set command and to the show command that reads
/// the setting back: the first failure of the two, or the report of the
/// change with the value shown, trimmed.
pub open spec fn settings_outcome(
    setting_name: Seq<char>,
    value: Seq<char>,
    set_reply: Result<String, String>,
    show_reply: Result<String, String>,
    r: Result<String, IncodeError>,
) -> bool {
    match set_reply {
        Err(msg) => fails_op(r, msg@),
        Ok(_) => match show_reply {
            Err(msg) => fails_op(r, msg@),
            Ok(current) => r matches Ok(out) && out@ == "Setting '"@ + setting_name
                + "' changed to '"@ + value + "'. Current: "@ + trim(current@),
        },
    }
}

impl LldbManager {
    /// Sets the debugger setting `setting_name` to `value` through the
    /// command interpreter, once the name passes: it must be given, and be
    /// known or dotted. `set_reply` and `show_reply` are the interpreter's
    /// replies to `settings_set_command(setting_name, value)` and to
    /// `settings_show_command(setting_name)`.
    pub fn set_lldb_settings(
        &mut self,
        setting_name: &str,
        value: &str,
        set_reply: Result<String, String>,
        show_reply: Result<String, String>,
    ) -> (r: Result<String, IncodeError>)
        ensures
            *final(self) == *old(self),
            setting_name@.len() == 0 ==> fails_config(r, "setting name cannot be empty"@),
            setting_name@.len() > 0 && !is_valid_setting(setting_name@) ==> fails_config(
                r,
                "invalid setting name: "@ + setting_name@,
            ),
            setting_name@.len() > 0 && is_valid_setting(setting_name@) ==> settings_outcome(
                setting_name@,
                value@,
                set_reply,
                show_reply,
                r,
            ),
    {
        if setting_name.unicode_len() == 0 {
            return Err(IncodeError::invalid_parameter("setting name cannot be empty"));
        }
        if !valid_setting(setting_name) {
            let mut msg = String::new();
            push_str(&mut msg, "invalid setting name: ");
            push_str(&mut msg, setting_name);
            return Err(IncodeError::Configuration(msg));
        }
        let command = settings_set_command(setting_name, value);
        let _applied = self.execute_command(command.as_str(), set_reply)?;
        let verify = settings_show_command(setting_name);
        let current = self.execute_command(verify.as_str(), show_reply)?;
        let mut out = String::new();
        push_str(&mut out, "Setting '");
        push_str(&mut out, setting_name);
        push_str(&mut out, "' changed to '");
        push_str(&mut out, value);
        push_str(&mut out, "'. Current: ");
        let shown = trim_str(current.as_str());
        push_str(&mut out, shown.as_str());
        Ok(out)
    }

    /// Assigns `value` to the variable `variable_name` by evaluating
    /// `assignment_expression(variable_name, value)` in the selected frame
    /// and then reads the variable back by evaluating its name, once a name
    /// is given and a process is under the debugger. `assign_reply` and
    /// `read_reply` are the engine's replies to the two evaluations.
    pub fn set_variable(
        &mut self,
        variable_name: &str,
        value: &str,
        assign_reply: Result<String, String>,
        read_reply: Result<String, String>,
    ) -> (r: Result<String, IncodeError>)
        ensures
            *final(self) == *old(self),
            variable_name@.len() == 0 ==> fails_config(r, "variable name cannot be empty"@),
            variable_name@.len() > 0 && !old(self).process_attached() ==> fails_not_found(
                r,
                "No active process"@,
            ),
            variable_name@.len() > 0 && old(self).process_attached() ==> match assign_reply {
                Err(msg) => r matches Err(IncodeError::ExpressionError(m)) && m@ == msg@,
                Ok(_) => match read_reply {
                    Err(msg) => r matches Err(IncodeError::ExpressionError(m)) && m@ == msg@,
                    Ok(current) => r matches Ok(out) && out@ == "Variable '"@ + variable_name@
                        + "' modified. New value: "@ + current@,
                },
            },
    {
        if variable_name.unicode_len() == 0 {
            return Err(IncodeError::invalid_parameter("variable name cannot be empty"));
        }
        if !self.has_process {
            return Err(IncodeError::no_process());
        }
        // Strings, numbers, booleans, null pointers and expressions are all
        // assigned with the same `name = value` form.
        let expression = assignment_expression(variable_name, value);
        let _assigned = self.evaluate_expression(expression.as_str(), assign_reply)?;
        let read_back = self.evaluate_expression(variable_name, read_reply)?;
        let mut out = String::new();
        push_str(&mut out, "Variable '");
        push_str(&mut out, variable_name);
        push_str(&mut out, "' modified. New value: ");
        push_str(&mut out, read_back.as_str());
        Ok(out)
    }
}

/// The expression that assigns `value` to the variable `variable_name`.
pub open spec fn assignment_text(variable_name: Seq<char>, value: Seq<char>) -> Seq<char> {
    variable_name + " = "@ + value
}

/// The expression that assigns `value` to the variable `variable_name`.
pub fn assignment_expression(variable_name: &str, value: &str) -> (r: String)
    ensures
        r@ == assignment_text(variable_name@, value@),
{
    let mut expression = String::new();
    push_str(&mut expression, variable_name);
    push_str(&mut expression, " = ");
    push_str(&mut expression, value);
    expression
}

// ---------------------------------------------------------------------------
// Symbol lookup
// ---------------------------------------------------------------------------

/// What a symbol lookup has read so far: the address, the module, the
/// source file and the kind of symbol.
pub type LookupFacts = (u64, Option<Seq<char>>, Option<Seq<char>>, Seq<char>);

/// The hexadecimal number `s`, zero where it does not read as one.
pub open spec fn hex_or_zero(s: Seq<char>) -> u64 {
    match parse_bounded(s, 16, u64::MAX as nat) {
        Some(v) => v as u64,
        None => 0,
    }
}

/// What one line of `image lookup` output adds to the facts: an
/// `Address:` line gives the hexadecimal number after its first `0x`, up
/// to the following space; a `Summary:` line the module between its first
/// two backticks; a `CompileUnit:` line its last word, as the file, where
/// it has more than one; a `Function:` line makes the symbol a function,
/// and a `Variable:` or `Data:` line makes it data.
pub open spec fn lookup_step(facts: LookupFacts, line: Seq<char>) -> LookupFacts {
    let (address, module, file, kind) = facts;
    if has_substr(line, "Address:"@) {
        match second_piece(line, "0x"@) {
            Some(a) => match index_of(a, ' ') {
                Some(e) => (hex_or_zero(a.subrange(0, e as int)), module, file, kind),
                None => facts,
            },
            None => facts,
        }
    } else if has_substr(line, "Summary:"@) {
        match index_of(line, '`') {
            Some(ms) => {
                let rest = line.subrange(ms + 1int, line.len() as int);
                match index_of(rest, '`') {
                    Some(me) => (address, Some(rest.subrange(0, me as int)), file, kind),
                    None => facts,
                }
            },
            None => facts,
        }
    } else if has_substr(line, "CompileUnit:"@) {
        let parts = words(line);
        if parts.len() > 1 {
            (address, module, Some(parts.last()), kind)
        } else {
            facts
        }
    } else if has_substr(line, "Function:"@) {
        (address, module, file, "Function"@)
    } else if has_substr(line, "Variable:"@) || has_substr(line, "Data:"@) {
        (address, module, file, "Data"@)
    } else {
        facts
    }
}

/// The facts read from `lines`, one after the other, starting from an
/// unknown symbol at address zero.
pub open spec fn lookup_facts(lines: Seq<Seq<char>>) -> LookupFacts
    decreases lines.len(),
{
    if lines.len() == 0 {
        (0, None, None, "Unknown"@)
    } else {
        lookup_step(lookup_facts(lines.drop_last()), lines.last())
    }
}

/// `info` is the symbol `name` with the facts `facts` (its line aside).
pub open spec fn is_looked_up_symbol(info: SymbolInfo, name: Seq<char>, facts: LookupFacts) -> bool {
    let (address, module, file, kind) = facts;
    &&& info.name@ == name
    &&& info.demangled_name is None
    &&& info.symbol_type@ == kind
    &&& info.address == address
    &&& info.size == 0
    &&& crate::json::opt_view(info.module) == module
    &&& crate::json::opt_view(info.file) == file
    &&& info.is_exported
    &&& info.is_debug
    &&& info.visibility@ == "unknown"@
}

fn hex_prefix_before_space(a: &Vec<char>) -> (r: Option<u64>)
    ensures
        match index_of(a@, ' ') {
            Some(e) => r == Some(hex_or_zero(a@.subrange(0, e as int))),
            None => r is None,
        },
{
    match find_char(a, ' ') {
        Some(e) => {
            let digits = sub_chars(a, 0, e);
            match parse_unsigned_chars(&digits, 16, u64::MAX) {
                Some(v) => Some(v),
                None => Some(0),
            }
        },
        None => None,
    }
}

fn module_between_backticks(line: &Vec<char>) -> (r: Option<String>)
    ensures
        match index_of(line@, '`') {
            Some(ms) => {
                let rest = line@.subrange(ms + 1int, line@.len() as int);
                match index_of(rest, '`') {
                    Some(me) => r matches Some(m) && m@ == rest.subrange(0, me as int),
                    None => r is None,
                }
            },
            None => r is None,
        },
{
    let n = line.len();
    match find_char(line, '`') {
        Some(ms) => {
            let rest = sub_chars(line, ms + 1, n);
            match find_char(&rest, '`') {
                Some(me) => Some(string_of_range(&rest, 0, me)),
                None => None,
            }
        },
        None => None,
    }
}

/// Reads the output of `image lookup -n symbol_name`: the symbol is not
/// found where the output has no lines or says that no symbols match;
/// otherwise its facts are read line by line.
pub fn symbol_from_lookup_output(symbol_name: &str, output: &str) -> (r: Result<SymbolInfo, IncodeError>)
    ensures
        text_lines(output@).len() == 0 || has_substr(output@, "no symbols match"@) ==> fails_op(
            r,
            "Symbol '"@ + symbol_name@ + "' not found"@,
        ),
        !(text_lines(output@).len() == 0 || has_substr(output@, "no symbols match"@)) ==> (r matches Ok(
            info,
        ) && is_looked_up_symbol(info, symbol_name@, lookup_facts(text_lines(output@))) && info.line is None),
{
    let lines = split_lines(output);
    if lines.len() == 0 || str_contains(output, "no symbols match") {
        let mut msg = String::new();
        push_str(&mut msg, "Symbol '");
        push_str(&mut msg, symbol_name);
        push_str(&mut msg, "' not found");
        return Err(IncodeError::LldbOperation(msg));
    }
    let ghost lv = views(lines@);
    let mut address: u64 = 0;
    let mut module: Option<String> = None;
    let mut file: Option<String> = None;
    let mut symbol_type = "Unknown".to_owned();
    let mut i: usize = 0;
    assert(lv.take(0) =~= Seq::<Seq<char>>::empty());
    while i < lines.len()
        invariant
            i <= lines@.len(),
            lv == views(lines@),
            (address, crate::json::opt_view(module), crate::json::opt_view(file), symbol_type@)
                == lookup_facts(lv.take(i as int)),
        decreases lines@.len() - i,
    {
        let line = &lines[i];
        assert(lv[i as int] == line@);
        assert(lv.take(i + 1).drop_last() =~= lv.take(i as int));
        assert(lv.take(i + 1).last() == line@);
        if str_contains(line.as_str(), "Address:") {
            let lc = chars_of(line.as_str());
            let zx = chars_of("0x");
            match second_piece_of(&lc, &zx) {
                Some(a) => match hex_prefix_before_space(&a) {
                    Some(v) => {
                        address = v;
                    },
                    None => {},
                },
                None => {},
            }
        } else if str_contains(line.as_str(), "Summary:") {
            let lc = chars_of(line.as_str());
            match module_between_backticks(&lc) {
                Some(m) => {
                    module = Some(m);
                },
                None => {},
            }
        } else if str_contains(line.as_str(), "CompileUnit:") {
            let parts = split_words(line.as_str());
            if parts.len() > 1 {
                file = Some(parts[parts.len() - 1].clone());
            }
        } else if str_contains(line.as_str(), "Function:") {
            symbol_type = "Function".to_owned();
        } else if str_contains(line.as_str(), "Variable:") || str_contains(line.as_str(), "Data:") {
            symbol_type = "Data".to_owned();
        }
        i = i + 1;
    }
    assert(lv.take(lines@.len() as int) =~= lv);
    Ok(
        SymbolInfo {
            name: symbol_name.to_owned(),
            demangled_name: None,
            symbol_type,
            address,
            size: 0,
            module,
            file,
            line: None,
            is_exported: true,
            is_debug: true,
            visibility: "unknown".to_owned(),
        },
    )
}

/// The command that looks the symbol `symbol_name` up.
pub open spec fn lookup_text(symbol_name: Seq<char>) -> Seq<char> {
    "image lookup -n "@ + symbol_name
}

/// The command that looks the symbol `symbol_name` up.
pub fn lookup_command(symbol_name: &str) -> (r: String)
    ensures
        r@ == lookup_text(symbol_name@),
{
    let mut command = String::new();
    push_str(&mut command, "image lookup -n ");
    push_str(&mut command, symbol_name);
    command
}

/// The command that saves a core file of the process at `output_path`.
pub open spec fn save_core_text(output_path: Seq<char>) -> Seq<char> {
    "process save-core "@ + output_path
}

/// The command that saves a core file of the process at `output_path`.
pub fn save_core_command(output_path: &str) -> (r: String)
    ensures
        r@ == save_core_text(output_path@),
{
    let mut command = String::new();
    push_str(&mut command, "process save-core ");
    push_str(&mut command, output_path);
    command
}

/// What reading the lookup output `output` of the symbol `name` answers:
/// not found where the output has no lines or says that no symbols match,
/// and otherwise the symbol with the facts read from its lines; where its
/// address is not zero and the engine placed that address in the source
/// (`line_info`), the file and line are the engine's.
pub open spec fn lookup_outcome(
    name: Seq<char>,
    output: Seq<char>,
    line_info: Option<RawLineInfo>,
    r: Result<SymbolInfo, IncodeError>,
) -> bool {
    if text_lines(output).len() == 0 || has_substr(output, "no symbols match"@) {
        fails_op(r, "Symbol '"@ + name + "' not found"@)
    } else {
        let facts = lookup_facts(text_lines(output));
        r matches Ok(info) && if facts.0 != 0 && line_info is Some {
            &&& is_looked_up_symbol(
                info,
                name,
                (facts.0, facts.1, Some(source_path(line_info->0.file)), facts.3),
            )
            &&& info.line == Some(line_info->0.line)
        } else {
            is_looked_up_symbol(info, name, facts) && info.line is None
        }
    }
}

/// What saving a core file at `path` answers, given the interpreter's
/// reply to the save command and the size of the file found at `path`
/// afterwards, if one is there.
pub open spec fn core_dump_outcome(
    path: Seq<char>,
    reply: Result<String, String>,
    core_file_size: Option<u64>,
    r: Result<String, IncodeError>,
) -> bool {
    match reply {
        Err(msg) => fails_op(r, "Core dump generation failed: LLDB operation failed: "@ + msg@),
        Ok(output) => match core_file_size {
            Some(size) => r matches Ok(out) && out@ == "Core dump generated successfully\nOutput: "@
                + path + "\nSize: "@ + dec_str(size as nat) + " bytes\nLLDB Output: "@
                + trim(output@),
            None => fails_op(r, "Core dump file not created: "@ + path),
        },
    }
}

impl LldbManager {
    /// Looks the symbol `symbol_name` up with the command interpreter and
    /// reads its answer, once a name is given. `reply` is the interpreter's
    /// reply to `lookup_command(symbol_name)`; `line_info` is where the
    /// engine placed the address that reply gives, where it placed it.
    pub fn lookup_symbol(
        &self,
        symbol_name: &str,
        reply: Result<String, String>,
        line_info: Option<RawLineInfo>,
    ) -> (r: Result<SymbolInfo, IncodeError>)
        ensures
            symbol_name@.len() == 0 ==> fails_config(r, "symbol name cannot be empty"@),
            symbol_name@.len() > 0 ==> match reply {
                Err(msg) => fails_op(r, msg@),
                Ok(output) => lookup_outcome(symbol_name@, output@, line_info, r),
            },
    {
        if symbol_name.unicode_len() == 0 {
            return Err(IncodeError::invalid_parameter("symbol name cannot be empty"));
        }
        let command = lookup_command(symbol_name);
        let output = self.execute_command(command.as_str(), reply)?;
        let mut info = symbol_from_lookup_output(symbol_name, output.as_str())?;
        if info.address != 0 {
            match self.get_line_info(info.address, line_info) {
                Ok(location) => {
                    info.file = Some(location.file_path);
                    info.line = Some(location.line_number);
                },
                Err(_) => {},
            }
        }
        Ok(info)
    }

    /// Saves a core file of the process at `output_path` with the command
    /// interpreter, once a process is under the debugger and a path is
    /// given. `reply` is the interpreter's reply to
    /// `save_core_command(output_path)`; `core_file_size` is what the file
    /// system shows at that path after the save: the file's size, or
    /// nothing where no file is there.
    pub fn generate_core_dump(
        &self,
        output_path: &str,
        reply: Result<String, String>,
        core_file_size: Option<u64>,
    ) -> (r: Result<String, IncodeError>)
        ensures
            !self.process_attached() ==> fails_not_found(r, "No active process"@),
            self.process_attached() && output_path@.len() == 0 ==> fails_config(
                r,
                "output path cannot be empty"@,
            ),
            self.process_attached() && output_path@.len() > 0 ==> core_dump_outcome(
                output_path@,
                reply,
                core_file_size,
                r,
            ),
    {
        if !self.has_process {
            return Err(IncodeError::no_process());
        }
        if output_path.unicode_len() == 0 {
            return Err(IncodeError::invalid_parameter("output path cannot be empty"));
        }
        let command = save_core_command(output_path);
        let ghost given = reply;
        match self.execute_command(command.as_str(), reply) {
            Ok(output) => match core_file_size {
                Some(size) => {
                    let mut out = String::new();
                    push_str(&mut out, "Core dump generated successfully\nOutput: ");
                    push_str(&mut out, output_path);
                    push_str(&mut out, "\nSize: ");
                    push_dec(&mut out, size);
                    push_str(&mut out, " bytes\nLLDB Output: ");
                    let shown = trim_str(output.as_str());
                    push_str(&mut out, shown.as_str());
                    Ok(out)
                },
                None => {
                    let mut msg = String::new();
                    push_str(&mut msg, "Core dump file not created: ");
                    push_str(&mut msg, output_path);
                    Err(IncodeError::LldbOperation(msg))
                },
            },
            Err(e) => {
                let mut msg = String::new();
                push_str(&mut msg, "Core dump generation failed: ");
                let text = e.message();
                push_str(&mut msg, text.as_str());
                proof {
                    reveal_strlit("Core dump generation failed: ");
                    reveal_strlit("LLDB operation failed: ");
                    reveal_strlit("Core dump generation failed: LLDB operation failed: ");
                    match given {
                        Err(m) => {
                            assert(msg@ =~= "Core dump generation failed: LLDB operation failed: "@
                                + m@);
                        },
                        Ok(_) => {},
                    }
                }
                Err(IncodeError::LldbOperation(msg))
            },
        }
    }
}

} // verus!
