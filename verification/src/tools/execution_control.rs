//! Tools that continue, step, run to a place and interrupt the debugged
//! process.

use vstd::prelude::*;
use crate::error::IncodeError;
use crate::json::{arg_bool_or, arg_str, arg_u64, as_boolean, as_text, as_uint, lookup, Arguments};
use crate::text::{
    chars_of, dec_str, find_char, has_prefix, hex_addr, index_of, push_dec, push_hex_address,
    push_str, str_starts_with, string_of_range,
};
use crate::tools::{
    address_value, decimal_u32, error_response, error_response_after, failure, hex_number,
    hex_number_from, is_failure, is_success, parse_address, parse_u32, reports_error,
    reports_error_after, ToolResponse,
};

verus! {

broadcast use vstd::string::group_string_axioms;

/// The answer to a run of `count` steps whose outcome is `outcome` (the
/// index and error of the step that failed): on failure, `failed` and, for
/// more than one step, the step that failed; on success, `many` with the
/// count for more than one step, else `one`.
pub open spec fn is_steps_answer(
    r: ToolResponse,
    count: u64,
    outcome: Result<(), (u64, IncodeError)>,
    failed: Seq<char>,
    many_before: Seq<char>,
    many_after: Seq<char>,
    one: Seq<char>,
) -> bool {
    match outcome {
        Ok(_) => if count > 1 {
            is_success(r, many_before + dec_str(count as nat) + many_after)
        } else {
            is_success(r, one)
        },
        Err((i, e)) => if count > 1 {
            reports_error_after(
                r,
                failed + " at step "@ + dec_str((i + 1) as nat) + " of "@ + dec_str(count as nat)
                    + ": "@,
                e,
            )
        } else {
            reports_error_after(r, failed + ": "@, e)
        },
    }
}

fn steps_answer(
    count: u64,
    outcome: Result<(), (u64, IncodeError)>,
    failed: &str,
    many_before: &str,
    many_after: &str,
    one: &str,
) -> (r: ToolResponse)
    requires
        outcome matches Err((i, _)) ==> i < count,
    ensures
        is_steps_answer(r, count, outcome, failed@, many_before@, many_after@, one@),
{
    match outcome {
        Ok(_) => {
            if count > 1 {
                let mut msg = String::new();
                push_str(&mut msg, many_before);
                push_dec(&mut msg, count);
                push_str(&mut msg, many_after);
                ToolResponse::Success(msg)
            } else {
                ToolResponse::Success(one.to_owned())
            }
        },
        Err((i, e)) => {
            let mut prefix = String::new();
            push_str(&mut prefix, failed);
            if count > 1 {
                push_str(&mut prefix, " at step ");
                push_dec(&mut prefix, i + 1);
                push_str(&mut prefix, " of ");
                push_dec(&mut prefix, count);
            }
            push_str(&mut prefix, ": ");
            error_response_after(&prefix, &e)
        },
    }
}

/// Continues the process.
#[derive(Debug)]
pub struct ContinueExecutionTool;

impl ContinueExecutionTool {
    pub fn name(&self) -> (r: &'static str)
        ensures
            r@ == "continue_execution"@,
    {
        "continue_execution"
    }

    pub fn description(&self) -> (r: &'static str)
        ensures
            r@ == "Continue process execution from current state"@,
    {
        "Continue process execution from current state"
    }

    /// The answer to continuing.
    pub fn respond(&self, outcome: Result<(), IncodeError>) -> (r: ToolResponse)
        ensures
            match outcome {
                Ok(_) => is_success(r, "Process execution continued successfully"@),
                Err(e) => reports_error(r, e),
            },
    {
        match outcome {
            Ok(_) => ToolResponse::Success("Process execution continued successfully".to_owned()),
            Err(e) => error_response(&e),
        }
    }
}

/// Steps over the current line, `count` times.
#[derive(Debug)]
pub struct StepOverTool;

impl StepOverTool {
    pub fn name(&self) -> (r: &'static str)
        ensures
            r@ == "step_over"@,
    {
        "step_over"
    }

    pub fn description(&self) -> (r: &'static str)
        ensures
            r@ == "Step over current instruction (next line in same function)"@,
    {
        "Step over current instruction (next line in same function)"
    }

    /// The answer to `count` steps over; they stop at the first that fails.
    pub fn respond(&self, count: u64, outcome: Result<(), (u64, IncodeError)>) -> (r: ToolResponse)
        requires
            outcome matches Err((i, _)) ==> i < count,
        ensures
            is_steps_answer(
                r,
                count,
                outcome,
                "Step over failed"@,
                "Successfully completed "@,
                " step over operations"@,
                "Successfully stepped over current instruction"@,
            ),
    {
        steps_answer(
            count,
            outcome,
            "Step over failed",
            "Successfully completed ",
            " step over operations",
            "Successfully stepped over current instruction",
        )
    }
}

/// Steps into the call on the current line, `count` times.
#[derive(Debug)]
pub struct StepIntoTool;

impl StepIntoTool {
    pub fn name(&self) -> (r: &'static str)
        ensures
            r@ == "step_into"@,
    {
        "step_into"
    }

    pub fn description(&self) -> (r: &'static str)
        ensures
            r@ == "Step into function calls"@,
    {
        "Step into function calls"
    }

    /// The answer to `count` steps into calls.
    pub fn respond(&self, count: u64, outcome: Result<(), (u64, IncodeError)>) -> (r: ToolResponse)
        requires
            outcome matches Err((i, _)) ==> i < count,
        ensures
            is_steps_answer(
                r,
                count,
                outcome,
                "Step into failed"@,
                "Successfully completed "@,
                " step into operations"@,
                "Successfully stepped into function call"@,
            ),
    {
        steps_answer(
            count,
            outcome,
            "Step into failed",
            "Successfully completed ",
            " step into operations",
            "Successfully stepped into function call",
        )
    }
}

/// Steps out of the current function, `count` times.
#[derive(Debug)]
pub struct StepOutTool;

impl StepOutTool {
    pub fn name(&self) -> (r: &'static str)
        ensures
            r@ == "step_out"@,
    {
        "step_out"
    }

    pub fn description(&self) -> (r: &'static str)
        ensures
            r@ == "Step out of current function (finish current function and return to caller)"@,
    {
        "Step out of current function (finish current function and return to caller)"
    }

    /// The answer to `count` steps out.
    pub fn respond(&self, count: u64, outcome: Result<(), (u64, IncodeError)>) -> (r: ToolResponse)
        requires
            outcome matches Err((i, _)) ==> i < count,
        ensures
            is_steps_answer(
                r,
                count,
                outcome,
                "Step out failed"@,
                "Successfully stepped out of "@,
                " functions"@,
                "Successfully stepped out of current function"@,
            ),
    {
        steps_answer(
            count,
            outcome,
            "Step out failed",
            "Successfully stepped out of ",
            " functions",
            "Successfully stepped out of current function",
        )
    }
}

/// Steps one machine instruction, `count` times.
#[derive(Debug)]
pub struct StepInstructionTool;

impl StepInstructionTool {
    pub fn name(&self) -> (r: &'static str)
        ensures
            r@ == "step_instruction"@,
    {
        "step_instruction"
    }

    pub fn description(&self) -> (r: &'static str)
        ensures
            r@ == "Single instruction step (assembly-level stepping)"@,
    {
        "Single instruction step (assembly-level stepping)"
    }

    /// Whether to step over calls: the `step_over` argument, false by
    /// default.
    pub fn steps_over(&self, args: &Arguments) -> (r: bool)
        ensures
            r == match as_boolean(lookup(args@, "step_over"@)) {
                Some(b) => b,
                None => false,
            },
    {
        arg_bool_or(args, "step_over", false)
    }

    /// The answer to `count` instruction steps, over or into calls.
    pub fn respond(&self, count: u64, step_over: bool, outcome: Result<(), (u64, IncodeError)>) -> (r:
        ToolResponse)
        requires
            outcome matches Err((i, _)) ==> i < count,
        ensures
            ({
                let kind = if step_over {
                    "over"@
                } else {
                    "into"@
                };
                is_steps_answer(
                    r,
                    count,
                    outcome,
                    "Instruction step failed"@,
                    "Successfully stepped "@ + kind + " "@,
                    " instructions"@,
                    "Successfully stepped "@ + kind + " single instruction"@,
                )
            }),
    {
        let mut many = String::new();
        push_str(&mut many, "Successfully stepped ");
        push_str(&mut many, if step_over { "over" } else { "into" });
        push_str(&mut many, " ");
        let mut one = String::new();
        push_str(&mut one, "Successfully stepped ");
        push_str(&mut one, if step_over { "over" } else { "into" });
        push_str(&mut one, " single instruction");
        steps_answer(
            count,
            outcome,
            "Instruction step failed",
            many.as_str(),
            " instructions",
            one.as_str(),
        )
    }
}

/// Where to run to: an address, or a file and line.
#[derive(Debug)]
pub struct RunTarget {
    pub address: Option<u64>,
    pub file: Option<String>,
    pub line: Option<u32>,
}

/// What the arguments of `run_until` ask for: a target, an answer given at
/// once (`Err`), or, outermost, an error for a malformed argument.
///
/// A `location` string is read first: `0x` and a hexadecimal address, or
/// `file:line`; otherwise the `address` (hexadecimal, `0x` optional),
/// `file` and `line` arguments are read.
pub open spec fn is_run_request(
    args: Seq<(String, crate::json::Json)>,
    r: Result<Result<RunTarget, ToolResponse>, IncodeError>,
) -> bool {
    match as_text(lookup(args, "location"@)) {
        Some(loc) => if has_prefix(loc, "0x"@) {
            match hex_number(loc.subrange(2, loc.len() as int)) {
                Some(a) => r matches Ok(Ok(t)) && t.address == Some(a) && t.file is None
                    && t.line is None,
                None => r matches Err(IncodeError::McpProtocol(m)) && m@ == "Invalid address format: "@
                    + loc,
            }
        } else {
            match index_of(loc, ':') {
                Some(c) => {
                    let file = loc.subrange(0, c as int);
                    let line = loc.subrange(c + 1int, loc.len() as int);
                    match decimal_u32(line) {
                        Some(l) => r matches Ok(Ok(t)) && t.address is None && (t.file matches Some(
                            f,
                        ) && f@ == file) && t.line == Some(l),
                        None => r matches Err(IncodeError::McpProtocol(m)) && m@
                            == "Invalid line number: "@ + line,
                    }
                },
                None => r matches Ok(Err(resp)) && is_failure(
                    resp,
                    "Invalid location format: "@ + loc,
                ),
            }
        },
        None => {
            let address = match as_text(lookup(args, "address"@)) {
                Some(a) => Some(address_value(a)),
                None => None,
            };
            if address == Some(None::<u64>) {
                r matches Err(IncodeError::McpProtocol(m)) && m@ == "Invalid address format"@
            } else {
                r matches Ok(Ok(t)) && t.address == match address {
                    Some(Some(a)) => Some(a),
                    _ => None,
                } && crate::json::opt_view(t.file) == as_text(lookup(args, "file"@)) && t.line
                    == match as_uint(lookup(args, "line"@)) {
                    Some(n) => Some(#[verifier::truncate] (n as u32)),
                    None => None,
                }
            }
        },
    }
}

/// Runs until an address or a source line is reached.
#[derive(Debug)]
pub struct RunUntilTool;

impl RunUntilTool {
    pub fn name(&self) -> (r: &'static str)
        ensures
            r@ == "run_until"@,
    {
        "run_until"
    }

    pub fn description(&self) -> (r: &'static str)
        ensures
            r@ == "Run until specific address or line number"@,
    {
        "Run until specific address or line number"
    }

    /// Reads where to run to.
    pub fn run_target(&self, args: &Arguments) -> (r: Result<Result<RunTarget, ToolResponse>, IncodeError>)
        ensures
            is_run_request(args@, r),
    {
        match arg_str(args, "location") {
            Some(loc) => {
                let v = chars_of(loc.as_str());
                if str_starts_with(loc.as_str(), "0x") {
                    proof {
                        reveal_strlit("0x");
                    }
                    match hex_number_from(&v, 2) {
                        Some(a) => Ok(Ok(RunTarget { address: Some(a), file: None, line: None })),
                        None => {
                            let mut msg = String::new();
                            push_str(&mut msg, "Invalid address format: ");
                            push_str(&mut msg, loc.as_str());
                            Err(IncodeError::McpProtocol(msg))
                        },
                    }
                } else {
                    let n = v.len();
                    match find_char(&v, ':') {
                        Some(c) => {
                            let file = string_of_range(&v, 0, c);
                            let line_text = string_of_range(&v, c + 1, n);
                            match parse_u32(line_text.as_str()) {
                                Some(l) => Ok(
                                    Ok(RunTarget { address: None, file: Some(file), line: Some(l) }),
                                ),
                                None => {
                                    let mut msg = String::new();
                                    push_str(&mut msg, "Invalid line number: ");
                                    push_str(&mut msg, line_text.as_str());
                                    Err(IncodeError::McpProtocol(msg))
                                },
                            }
                        },
                        None => {
                            let mut msg = String::new();
                            push_str(&mut msg, "Invalid location format: ");
                            push_str(&mut msg, loc.as_str());
                            Ok(Err(ToolResponse::Error(msg)))
                        },
                    }
                }
            },
            None => {
                let address = match arg_str(args, "address") {
                    Some(a) => match parse_address(a.as_str()) {
                        Some(x) => Some(x),
                        None => {
                            return Err(IncodeError::mcp("Invalid address format"));
                        },
                    },
                    None => None,
                };
                let file = arg_str(args, "file");
                let line = match arg_u64(args, "line") {
                    Some(n) => Some(#[verifier::truncate] (n as u32)),
                    None => None,
                };
                Ok(Ok(RunTarget { address, file, line }))
            },
        }
    }

    /// The answer to running to `target`.
    pub fn respond(&self, target: &RunTarget, outcome: Result<(), IncodeError>) -> (r: ToolResponse)
        ensures
            match outcome {
                Ok(_) => match target.address {
                    Some(a) => is_success(
                        r,
                        "Successfully running until address "@ + hex_addr(a as nat),
                    ),
                    None => match (target.file, target.line) {
                        (Some(f), Some(l)) => is_success(
                            r,
                            "Successfully running until "@ + f@ + ":"@ + dec_str(l as nat),
                        ),
                        _ => is_success(r, "Successfully initiated run until operation"@),
                    },
                },
                Err(e) => reports_error(r, e),
            },
    {
        match outcome {
            Ok(_) => {
                let mut msg = String::new();
                match target.address {
                    Some(a) => {
                        push_str(&mut msg, "Successfully running until address ");
                        push_hex_address(&mut msg, a);
                    },
                    None => match (&target.file, target.line) {
                        (Some(f), Some(l)) => {
                            push_str(&mut msg, "Successfully running until ");
                            push_str(&mut msg, f.as_str());
                            push_str(&mut msg, ":");
                            push_dec(&mut msg, l as u64);
                        },
                        _ => {
                            push_str(&mut msg, "Successfully initiated run until operation");
                        },
                    },
                }
                ToolResponse::Success(msg)
            },
            Err(e) => error_response(&e),
        }
    }
}

/// Pauses the process.
#[derive(Debug)]
pub struct InterruptExecutionTool;

impl InterruptExecutionTool {
    pub fn name(&self) -> (r: &'static str)
        ensures
            r@ == "interrupt_execution"@,
    {
        "interrupt_execution"
    }

    pub fn description(&self) -> (r: &'static str)
        ensures
            r@ == "Pause/interrupt running process execution"@,
    {
        "Pause/interrupt running process execution"
    }

    /// The answer to interrupting.
    pub fn respond(&self, outcome: Result<(), IncodeError>) -> (r: ToolResponse)
        ensures
            match outcome {
                Ok(_) => is_success(
                    r,
                    "Successfully interrupted process execution - process is now paused"@,
                ),
                Err(e) => reports_error(r, e),
            },
    {
        match outcome {
            Ok(_) => ToolResponse::Success(
                "Successfully interrupted process execution - process is now paused".to_owned(),
            ),
            Err(e) => error_response(&e),
        }
    }
}

} // verus!
