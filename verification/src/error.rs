//! The library's error type and the text that each error reads as.

use vstd::prelude::*;
use crate::text::{hex_addr, push_hex, push_str};

verus! {

broadcast use vstd::string::group_string_axioms;

#[verifier::external_type_specification]
#[verifier::external_body]
pub struct ExIoError(std::io::Error);

#[verifier::external_type_specification]
#[verifier::external_body]
pub struct ExJsonError(serde_json::Error);

/// Everything that can go wrong in a debugging operation.
#[derive(Debug)]
pub enum IncodeError {
    LldbInitialization(String),
    LldbOperation(String),
    ProcessNotFound(String),
    InvalidMemoryAddress { address: u64 },
    BreakpointError(String),
    ThreadError(String),
    FrameError(String),
    ExpressionError(String),
    McpProtocol(String),
    SessionError(String),
    Io(std::io::Error),
    Json(serde_json::Error),
    Configuration(String),
    Timeout,
    NotImplemented(String),
}

/// The result of a debugging operation.
pub type IncodeResult<T> = Result<T, IncodeError>;

/// The text of an I/O error (its `Display`), which depends on the
/// operating system that reported it; nothing is promised of it.
#[verifier::external_body]
fn io_error_text(e: &std::io::Error) -> String {
    e.to_string()
}

/// The text of a JSON error (its `Display`); nothing is promised of it.
#[verifier::external_body]
fn json_error_text(e: &serde_json::Error) -> String {
    e.to_string()
}

/// `prefix` followed by `msg`.
pub open spec fn prefixed(prefix: Seq<char>, msg: Seq<char>) -> Seq<char> {
    prefix + msg
}

/// The text of an error that carries a message, as it reads to a user.
pub open spec fn error_text(e: IncodeError) -> Seq<char> {
    match e {
        IncodeError::LldbInitialization(m) => "LLDB initialization failed: "@ + m@,
        IncodeError::LldbOperation(m) => "LLDB operation failed: "@ + m@,
        IncodeError::ProcessNotFound(m) => "Process not found or not debuggable: "@ + m@,
        IncodeError::InvalidMemoryAddress { address } => "Invalid memory address: "@ + hex_addr(
            address as nat,
        ),
        IncodeError::BreakpointError(m) => "Breakpoint operation failed: "@ + m@,
        IncodeError::ThreadError(m) => "Thread operation failed: "@ + m@,
        IncodeError::FrameError(m) => "Frame operation failed: "@ + m@,
        IncodeError::ExpressionError(m) => "Expression evaluation failed: "@ + m@,
        IncodeError::McpProtocol(m) => "MCP protocol error: "@ + m@,
        IncodeError::SessionError(m) => "Session management error: "@ + m@,
        IncodeError::Configuration(m) => "Invalid configuration: "@ + m@,
        IncodeError::Timeout => "Timeout error: operation took too long"@,
        IncodeError::NotImplemented(m) => "Not implemented: "@ + m@,
        // The text of an outside error is not modelled.
        IncodeError::Io(_) => Seq::empty(),
        IncodeError::Json(_) => Seq::empty(),
    }
}

/// The error does not wrap an error of the operating system or of the JSON
/// reader, so its text is known.
pub open spec fn has_known_text(e: IncodeError) -> bool {
    !(e is Io) && !(e is Json)
}

impl IncodeError {
    pub fn lldb_init(msg: &str) -> (r: Self)
        ensures
            r matches IncodeError::LldbInitialization(m) && m@ == msg@,
    {
        IncodeError::LldbInitialization(msg.to_owned())
    }

    pub fn lldb_op(msg: &str) -> (r: Self)
        ensures
            r matches IncodeError::LldbOperation(m) && m@ == msg@,
    {
        IncodeError::LldbOperation(msg.to_owned())
    }

    pub fn process_not_found(msg: &str) -> (r: Self)
        ensures
            r matches IncodeError::ProcessNotFound(m) && m@ == msg@,
    {
        IncodeError::ProcessNotFound(msg.to_owned())
    }

    pub fn invalid_address(address: u64) -> (r: Self)
        ensures
            r == (IncodeError::InvalidMemoryAddress { address }),
    {
        IncodeError::InvalidMemoryAddress { address }
    }

    pub fn breakpoint(msg: &str) -> (r: Self)
        ensures
            r matches IncodeError::BreakpointError(m) && m@ == msg@,
    {
        IncodeError::BreakpointError(msg.to_owned())
    }

    pub fn thread(msg: &str) -> (r: Self)
        ensures
            r matches IncodeError::ThreadError(m) && m@ == msg@,
    {
        IncodeError::ThreadError(msg.to_owned())
    }

    pub fn frame(msg: &str) -> (r: Self)
        ensures
            r matches IncodeError::FrameError(m) && m@ == msg@,
    {
        IncodeError::FrameError(msg.to_owned())
    }

    pub fn expression(msg: &str) -> (r: Self)
        ensures
            r matches IncodeError::ExpressionError(m) && m@ == msg@,
    {
        IncodeError::ExpressionError(msg.to_owned())
    }

    pub fn mcp(msg: &str) -> (r: Self)
        ensures
            r matches IncodeError::McpProtocol(m) && m@ == msg@,
    {
        IncodeError::McpProtocol(msg.to_owned())
    }

    pub fn session(msg: &str) -> (r: Self)
        ensures
            r matches IncodeError::SessionError(m) && m@ == msg@,
    {
        IncodeError::SessionError(msg.to_owned())
    }

    pub fn config(msg: &str) -> (r: Self)
        ensures
            r matches IncodeError::Configuration(m) && m@ == msg@,
    {
        IncodeError::Configuration(msg.to_owned())
    }

    pub fn not_implemented(feature: &str) -> (r: Self)
        ensures
            r matches IncodeError::NotImplemented(m) && m@ == feature@,
    {
        IncodeError::NotImplemented(feature.to_owned())
    }

    /// A rejected argument of an operation.
    pub fn invalid_parameter(msg: &str) -> (r: Self)
        ensures
            r matches IncodeError::Configuration(m) && m@ == msg@,
    {
        IncodeError::Configuration(msg.to_owned())
    }

    /// A process or target that the operation needs is missing.
    pub fn process(msg: &str) -> (r: Self)
        ensures
            r matches IncodeError::ProcessNotFound(m) && m@ == msg@,
    {
        IncodeError::ProcessNotFound(msg.to_owned())
    }

    /// There is no process under the debugger.
    pub fn no_process() -> (r: Self)
        ensures
            r matches IncodeError::ProcessNotFound(m) && m@ == "No active process"@,
    {
        IncodeError::ProcessNotFound("No active process".to_owned())
    }

    /// The error as it reads to a user (its display text).
    pub fn message(&self) -> (r: String)
        ensures
            has_known_text(*self) ==> r@ == error_text(*self),
    {
        let mut s = String::new();
        match self {
            IncodeError::LldbInitialization(m) => {
                push_str(&mut s, "LLDB initialization failed: ");
                push_str(&mut s, m.as_str());
            },
            IncodeError::LldbOperation(m) => {
                push_str(&mut s, "LLDB operation failed: ");
                push_str(&mut s, m.as_str());
            },
            IncodeError::ProcessNotFound(m) => {
                push_str(&mut s, "Process not found or not debuggable: ");
                push_str(&mut s, m.as_str());
            },
            IncodeError::InvalidMemoryAddress { address } => {
                push_str(&mut s, "Invalid memory address: 0x");
                push_hex(&mut s, *address);
                proof {
                    reveal_strlit("Invalid memory address: 0x");
                    reveal_strlit("Invalid memory address: ");
                }
                assert(s@ =~= "Invalid memory address: "@ + hex_addr(*address as nat));
            },
            IncodeError::BreakpointError(m) => {
                push_str(&mut s, "Breakpoint operation failed: ");
                push_str(&mut s, m.as_str());
            },
            IncodeError::ThreadError(m) => {
                push_str(&mut s, "Thread operation failed: ");
                push_str(&mut s, m.as_str());
            },
            IncodeError::FrameError(m) => {
                push_str(&mut s, "Frame operation failed: ");
                push_str(&mut s, m.as_str());
            },
            IncodeError::ExpressionError(m) => {
                push_str(&mut s, "Expression evaluation failed: ");
                push_str(&mut s, m.as_str());
            },
            IncodeError::McpProtocol(m) => {
                push_str(&mut s, "MCP protocol error: ");
                push_str(&mut s, m.as_str());
            },
            IncodeError::SessionError(m) => {
                push_str(&mut s, "Session management error: ");
                push_str(&mut s, m.as_str());
            },
            IncodeError::Io(e) => {
                push_str(&mut s, "I/O error: ");
                let t = io_error_text(e);
                push_str(&mut s, t.as_str());
            },
            IncodeError::Json(e) => {
                push_str(&mut s, "JSON serialization error: ");
                let t = json_error_text(e);
                push_str(&mut s, t.as_str());
            },
            IncodeError::Configuration(m) => {
                push_str(&mut s, "Invalid configuration: ");
                push_str(&mut s, m.as_str());
            },
            IncodeError::Timeout => {
                push_str(&mut s, "Timeout error: operation took too long");
            },
            IncodeError::NotImplemented(m) => {
                push_str(&mut s, "Not implemented: ");
                push_str(&mut s, m.as_str());
            },
        }
        s
    }
}


/// `r` is an error of kind `LldbOperation` with message `msg`.
pub open spec fn fails_op<T>(r: Result<T, IncodeError>, msg: Seq<char>) -> bool {
    r matches Err(IncodeError::LldbOperation(m)) && m@ == msg
}

/// `r` is an error of kind `LldbInitialization` with message `msg`.
pub open spec fn fails_init<T>(r: Result<T, IncodeError>, msg: Seq<char>) -> bool {
    r matches Err(IncodeError::LldbInitialization(m)) && m@ == msg
}

/// `r` is an error of kind `ProcessNotFound` with message `msg`.
pub open spec fn fails_not_found<T>(r: Result<T, IncodeError>, msg: Seq<char>) -> bool {
    r matches Err(IncodeError::ProcessNotFound(m)) && m@ == msg
}

/// `r` is an error of kind `Configuration` with message `msg`.
pub open spec fn fails_config<T>(r: Result<T, IncodeError>, msg: Seq<char>) -> bool {
    r matches Err(IncodeError::Configuration(m)) && m@ == msg
}

/// `r` is an error of kind `NotImplemented` with message `msg`.
pub open spec fn fails_not_impl<T>(r: Result<T, IncodeError>, msg: Seq<char>) -> bool {
    r matches Err(IncodeError::NotImplemented(m)) && m@ == msg
}

/// `r` is an error of kind `FrameError` with message `msg`.
pub open spec fn fails_frame<T>(r: Result<T, IncodeError>, msg: Seq<char>) -> bool {
    r matches Err(IncodeError::FrameError(m)) && m@ == msg
}

/// `r` is an error of kind `ThreadError` with message `msg`.
pub open spec fn fails_thread<T>(r: Result<T, IncodeError>, msg: Seq<char>) -> bool {
    r matches Err(IncodeError::ThreadError(m)) && m@ == msg
}

} // verus!
