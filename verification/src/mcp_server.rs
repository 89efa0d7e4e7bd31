//! The Model Context Protocol side of the server: which request a message
//! makes, and the messages that answer it.
//!
//! Messages are JSON-RPC 2.0 objects, one per line. The caller reads each
//! line, runs the tool a request names, and writes the answers built
//! here.

use vstd::prelude::*;
use crate::error::{error_text, has_known_text, IncodeError};
use crate::json::{
    as_text, entry, field, jstr, obj_str, pretty_json_text, pretty_json_text_of, take_field,
    take_two_fields, Arguments, Json,
};
use crate::lldb_manager::LldbManager;
use crate::text::push_str;
use crate::tools::registry::{is_tool_listing, ToolRegistry};
use crate::tools::{has_text, has_value, ToolResponse};

verus! {

broadcast use vstd::string::group_string_axioms;

/// A request of the protocol.
#[derive(Debug)]
pub enum McpRequest {
    /// List the tools.
    ListTools,
    /// Run the tool `name` with `arguments`.
    CallTool { name: String, arguments: Arguments },
    /// Start the conversation.
    Initialize,
}

/// The tool arguments a call gives: the entries of its `arguments` object,
/// none where it has no such object.
pub open spec fn call_arguments(params: Option<Json>) -> Seq<(String, Json)> {
    match field_of(params, "arguments"@) {
        Some(Json::Object(es)) => es@,
        _ => Seq::empty(),
    }
}

/// The field `key` of an optional value.
pub open spec fn field_of(v: Option<Json>, key: Seq<char>) -> Option<Json> {
    match v {
        Some(j) => field(j, key),
        None => None,
    }
}

/// `r` is the request that the message `m` makes, or the error for a
/// message that makes none.
pub open spec fn is_routed(m: Json, r: Result<McpRequest, IncodeError>) -> bool {
    match as_text(field(m, "method"@)) {
        None => r matches Err(IncodeError::McpProtocol(e)) && e@ == "Missing method in request"@,
        Some(method) => if method == "tools/list"@ {
            r matches Ok(McpRequest::ListTools)
        } else if method == "tools/call"@ {
            match as_text(field_of(field(m, "params"@), "name"@)) {
                None => r matches Err(IncodeError::McpProtocol(e)) && e@ == "Missing tool name"@,
                Some(n) => r matches Ok(McpRequest::CallTool { name, arguments }) && name@ == n
                    && arguments@ == call_arguments(field(m, "params"@)),
            }
        } else if method == "initialize"@ {
            r matches Ok(McpRequest::Initialize)
        } else {
            r matches Err(IncodeError::McpProtocol(e)) && e@ == "Unknown method: "@ + method
        },
    }
}

/// The identifier of the message `m`: its `id`, `null` where it has none.
pub open spec fn message_id(m: Json) -> Json {
    match field(m, "id"@) {
        Some(v) => v,
        None => Json::Null,
    }
}

/// `v` describes the server: its name and version `version`.
pub open spec fn is_server_info(v: Json, version: Seq<char>) -> bool {
    v matches Json::Object(es) && es@.len() == 2 && has_text(es@, 0, "name"@, "incode"@) && has_text(
        es@,
        1,
        "version"@,
        version,
    )
}

/// `v` is the answer to `initialize`: the protocol version, the tool
/// capability (whose list may change) and the server, with the
/// instructions for the agent where `instructions` asks for them.
pub open spec fn is_initialize_result(v: Json, version: Seq<char>, instructions: bool) -> bool {
    v matches Json::Object(es) && {
        let es = es@;
        &&& es.len() == if instructions {
            4int
        } else {
            3int
        }
        &&& has_text(es, 0, "protocolVersion"@, "2024-11-05"@)
        &&& es[1].0@ == "capabilities"@
        &&& (es[1].1 matches Json::Object(cs) && cs@.len() == 1 && cs@[0].0@ == "tools"@ && (
        cs@[0].1 matches Json::Object(ts) && ts@.len() == 1 && has_value(
            ts@,
            0,
            "listChanged"@,
            Json::Bool(true),
        )))
        &&& es[2].0@ == "serverInfo"@ && is_server_info(es[2].1, version)
        &&& instructions ==> has_text(
            es,
            3,
            "instructions"@,
            "InCode provides comprehensive LLDB debugging automation with 65+ tools across 13 categories for AI agents."@,
        )
    }
}

/// `v` is the message that carries `result` in answer to the message
/// with identifier `id`, or without one.
pub open spec fn is_result_message(v: Json, id: Option<Json>, result: Json) -> bool {
    v matches Json::Object(es) && {
        let es = es@;
        &&& has_text(es, 0, "jsonrpc"@, "2.0"@)
        &&& match id {
            Some(i) => es.len() == 3 && has_value(es, 1, "id"@, i) && has_value(
                es,
                2,
                "result"@,
                result,
            ),
            None => es.len() == 2 && has_value(es, 1, "result"@, result),
        }
    }
}

/// The text a tool's answer is sent as: a success's text, an error's
/// text after `Error: `, a JSON answer as indented JSON text.
pub open spec fn response_text(r: ToolResponse) -> Seq<char> {
    match r {
        ToolResponse::Success(t) => t@,
        ToolResponse::Error(e) => "Error: "@ + e@,
        ToolResponse::Json(d) => pretty_json_text_of(d),
    }
}

/// `v` is the answer to a tool call: one text part holding `text`.
pub open spec fn is_call_result(v: Json, text: Seq<char>) -> bool {
    v matches Json::Object(es) && es@.len() == 1 && es@[0].0@ == "content"@ && (
    es@[0].1 matches Json::Array(parts) && parts@.len() == 1 && (parts@[0] matches Json::Object(
        p,
    ) && p@.len() == 2 && has_text(p@, 0, "type"@, "text"@) && has_text(p@, 1, "text"@, text)))
}

fn server_info(version: &str) -> (v: Json)
    ensures
        is_server_info(v, version@),
{
    let mut es: Vec<(String, Json)> = Vec::new();
    es.push(entry("name", jstr("incode")));
    es.push(entry("version", jstr(version)));
    Json::Object(es)
}

/// The server: the debugger it drives and its tools.
#[derive(Debug)]
pub struct McpServer {
    pub lldb_manager: LldbManager,
    pub tool_registry: ToolRegistry,
}

impl McpServer {
    /// A server over a new debugger (see `LldbManager::new`) with all its
    /// tools.
    pub fn new(lldb_path: Option<String>, path_found: bool, debugger_created: bool) -> (r: Result<
        Self,
        IncodeError,
    >)
        ensures
            match r {
                Ok(s) => s.tool_registry.entries() == crate::tools::registry::registered_all(
                    crate::tools::registry::standard_registrations(),
                ) && s.lldb_manager.debugger_ready() && s.lldb_manager.current() is None,
                Err(e) => e is LldbInitialization,
            },
    {
        let lldb_manager = match LldbManager::new(lldb_path, path_found, debugger_created) {
            Ok(m) => m,
            Err(e) => {
                return Err(e);
            },
        };
        let tool_registry = ToolRegistry::new();
        Ok(McpServer { lldb_manager, tool_registry })
    }

    /// The answer to `initialize`, for a server of version `version`, with
    /// the instructions for the agent where asked.
    pub fn initialize_result(version: &str, instructions: bool) -> (v: Json)
        ensures
            is_initialize_result(v, version@, instructions),
    {
        let mut ts: Vec<(String, Json)> = Vec::new();
        ts.push(entry("listChanged", Json::Bool(true)));
        let mut cs: Vec<(String, Json)> = Vec::new();
        cs.push(entry("tools", Json::Object(ts)));
        let mut es: Vec<(String, Json)> = Vec::new();
        es.push(entry("protocolVersion", jstr("2024-11-05")));
        es.push(entry("capabilities", Json::Object(cs)));
        es.push(entry("serverInfo", server_info(version)));
        if instructions {
            es.push(
                entry(
                    "instructions",
                    jstr(
                        "InCode provides comprehensive LLDB debugging automation with 65+ tools across 13 categories for AI agents.",
                    ),
                ),
            );
        }
        Json::Object(es)
    }

    /// The message the server opens with: the answer to `initialize`, with
    /// the instructions, carrying no identifier.
    pub fn initialize_message(version: &str) -> (v: Json)
        ensures
            exists|res: Json|
                #[trigger] is_initialize_result(res, version@, true) && is_result_message(
                    v,
                    None,
                    res,
                ),
    {
        let res = Self::initialize_result(version, true);
        let mut es: Vec<(String, Json)> = Vec::new();
        es.push(entry("jsonrpc", jstr("2.0")));
        es.push(entry("result", res));
        let v = Json::Object(es);
        assert(is_result_message(v, None, res));
        v
    }

    /// The request the message `message` makes, and its identifier.
    pub fn route(message: Json) -> (r: (Result<McpRequest, IncodeError>, Json))
        ensures
            is_routed(message, r.0),
            r.1 == message_id(message),
    {
        let method = obj_str(&message, "method");
        proof {
            reveal_strlit("id");
            reveal_strlit("params");
            assert("id"@.len() != "params"@.len());
        }
        let (id, params) = take_two_fields(message, "id", "params");
        let id = match id {
            Some(v) => v,
            None => Json::Null,
        };
        let method = match method {
            Some(m) => m,
            None => {
                return (Err(IncodeError::mcp("Missing method in request")), id);
            },
        };
        let m = method.as_str();
        if crate::text::str_eq(m, "tools/list") {
            (Ok(McpRequest::ListTools), id)
        } else if crate::text::str_eq(m, "tools/call") {
            let name = match &params {
                Some(p) => obj_str(p, "name"),
                None => None,
            };
            match name {
                None => (Err(IncodeError::mcp("Missing tool name")), id),
                Some(name) => {
                    let arguments = match params {
                        Some(p) => match take_field(p, "arguments") {
                            Some(Json::Object(es)) => es,
                            _ => Vec::new(),
                        },
                        None => Vec::new(),
                    };
                    (Ok(McpRequest::CallTool { name, arguments }), id)
                },
            }
        } else if crate::text::str_eq(m, "initialize") {
            (Ok(McpRequest::Initialize), id)
        } else {
            let mut msg = String::new();
            push_str(&mut msg, "Unknown method: ");
            push_str(&mut msg, m);
            (Err(IncodeError::McpProtocol(msg)), id)
        }
    }

    /// The answer to `tools/list`: every tool with the schema of its
    /// arguments (`parameters`, one for each tool in order).
    pub fn tools_list_result(&self, parameters: Vec<Json>) -> (v: Json)
        requires
            parameters@.len() == self.tool_registry.entries().len(),
        ensures
            v matches Json::Object(es) && es@.len() == 1 && es@[0].0@ == "tools"@ && (
            es@[0].1 matches Json::Array(ts) && ts@.len() == self.tool_registry.entries().len()
                && forall|i: int|
                0 <= i < ts@.len() ==> is_tool_listing(
                    #[trigger] ts@[i],
                    self.tool_registry.entries()[i],
                    parameters@[i],
                )),
    {
        let list = self.tool_registry.get_tool_list(parameters);
        let mut es: Vec<(String, Json)> = Vec::new();
        es.push(entry("tools", Json::Array(list)));
        Json::Object(es)
    }

    /// The answer to a tool call that the tool answered with `response`.
    pub fn tool_call_result(response: ToolResponse) -> (v: Json)
        ensures
            is_call_result(v, response_text(response)),
    {
        let text = match response {
            ToolResponse::Success(t) => t,
            ToolResponse::Error(e) => {
                let mut t = String::new();
                push_str(&mut t, "Error: ");
                push_str(&mut t, e.as_str());
                t
            },
            ToolResponse::Json(d) => pretty_json_text(&d),
        };
        let mut p: Vec<(String, Json)> = Vec::new();
        p.push(entry("type", jstr("text")));
        p.push(entry("text", Json::Str(text)));
        let mut parts: Vec<Json> = Vec::new();
        parts.push(Json::Object(p));
        let mut es: Vec<(String, Json)> = Vec::new();
        es.push(entry("content", Json::Array(parts)));
        Json::Object(es)
    }

    /// The message that carries `result` in answer to the message with
    /// identifier `id`.
    pub fn result_message(id: Json, result: Json) -> (v: Json)
        ensures
            is_result_message(v, Some(id), result),
    {
        let mut es: Vec<(String, Json)> = Vec::new();
        es.push(entry("jsonrpc", jstr("2.0")));
        es.push(entry("id", id));
        es.push(entry("result", result));
        Json::Object(es)
    }

    /// The message that reports the error `e`, with code -1 and the
    /// error's text.
    pub fn error_message(e: &IncodeError) -> (v: Json)
        ensures
            v matches Json::Object(es) && es@.len() == 2 && has_text(
                es@,
                0,
                "jsonrpc"@,
                "2.0"@,
            ) && es@[1].0@ == "error"@ && (es@[1].1 matches Json::Object(d) && d@.len() == 2
                && has_value(d@, 0, "code"@, Json::NegInt(-1i64)) && d@[1].0@ == "message"@ && (
            has_known_text(*e) ==> has_text(d@, 1, "message"@, error_text(*e)))),
    {
        let mut d: Vec<(String, Json)> = Vec::new();
        d.push(entry("code", Json::NegInt(-1)));
        d.push(entry("message", Json::Str(e.message())));
        let mut es: Vec<(String, Json)> = Vec::new();
        es.push(entry("jsonrpc", jstr("2.0")));
        es.push(entry("error", Json::Object(d)));
        Json::Object(es)
    }
}

} // verus!
