//! Tools that set, list, enable, disable and delete breakpoints and
//! watchpoints, and attach conditions and commands to breakpoints.

use vstd::prelude::*;
use crate::error::IncodeError;
use crate::json::{
    arg_bool_or, arg_str, arg_str_or, arg_strings, arg_u64, arg_u64_or, as_boolean, as_items,
    as_text, as_uint, entry, jstr, lookup, strings_in, text_array, Arguments, Json,
};
use crate::lldb_manager::BreakpointInfo;
use crate::text::{dec_str, hex_addr, push_dec, push_hex_address, push_str, views};
use crate::tools::{
    address_value, contains_any, error_response, failure, has_text, has_value, is_failure,
    is_json_object, json_entries, lowercase_of, parse_address, reports_error, str_contains_any,
    to_lowercase, ToolResponse,
};

verus! {

broadcast use vstd::string::group_string_axioms;

/// The `breakpoint_id` argument, its low 32 bits, where it is a
/// non-negative integer.
pub open spec fn breakpoint_id_arg(args: Seq<(String, Json)>) -> Option<u32> {
    match as_uint(lookup(args, "breakpoint_id"@)) {
        Some(n) => Some(n as u32),
        None => None,
    }
}

/// Reads the `breakpoint_id` argument, which is required.
pub fn read_breakpoint_id(args: &Arguments) -> (r: Result<u32, IncodeError>)
    ensures
        match breakpoint_id_arg(args@) {
            Some(id) => r == Ok::<u32, IncodeError>(id),
            None => r matches Err(IncodeError::McpProtocol(m)) && m@
                == "Missing breakpoint_id parameter"@,
        },
{
    match arg_u64(args, "breakpoint_id") {
        Some(n) => Ok(#[verifier::truncate] (n as u32)),
        None => Err(IncodeError::mcp("Missing breakpoint_id parameter")),
    }
}

// ---------------------------------------------------------------------------
// set_breakpoint
// ---------------------------------------------------------------------------

/// Where a breakpoint is asked for: `location`, else `address`, else
/// `function`, else `file` and `line` as `file:line`.
pub open spec fn breakpoint_location_arg(args: Seq<(String, Json)>) -> Option<Seq<char>> {
    match as_text(lookup(args, "location"@)) {
        Some(l) => Some(l),
        None => match as_text(lookup(args, "address"@)) {
            Some(a) => Some(a),
            None => match as_text(lookup(args, "function"@)) {
                Some(f) => Some(f),
                None => match (as_text(lookup(args, "file"@)), as_uint(lookup(args, "line"@))) {
                    (Some(f), Some(l)) => Some(f + ":"@ + dec_str(l as nat)),
                    _ => None,
                },
            },
        },
    }
}

/// Sets a breakpoint.
#[derive(Debug)]
pub struct SetBreakpointTool;

impl SetBreakpointTool {
    pub fn name(&self) -> (r: &'static str)
        ensures
            r@ == "set_breakpoint"@,
    {
        "set_breakpoint"
    }

    pub fn description(&self) -> (r: &'static str)
        ensures
            r@ == "Set breakpoint by address, function name, or file:line"@,
    {
        "Set breakpoint by address, function name, or file:line"
    }

    /// Where to set the breakpoint, or the answer that none was given.
    pub fn location(&self, args: &Arguments) -> (r: Result<String, ToolResponse>)
        ensures
            match breakpoint_location_arg(args@) {
                Some(l) => r matches Ok(s) && s@ == l,
                None => r matches Err(resp) && is_failure(
                    resp,
                    "Must specify location, address, function, or file:line parameters"@,
                ),
            },
    {
        if let Some(l) = arg_str(args, "location") {
            return Ok(l);
        }
        if let Some(a) = arg_str(args, "address") {
            return Ok(a);
        }
        if let Some(f) = arg_str(args, "function") {
            return Ok(f);
        }
        match (arg_str(args, "file"), arg_u64(args, "line")) {
            (Some(f), Some(l)) => {
                let mut s = f;
                push_str(&mut s, ":");
                push_dec(&mut s, l);
                Ok(s)
            },
            _ => Err(failure("Must specify location, address, function, or file:line parameters")),
        }
    }

    /// Whether the breakpoint is to be enabled: `enabled`, true by default.
    pub fn enabled(&self, args: &Arguments) -> (r: bool)
        ensures
            r == match as_boolean(lookup(args@, "enabled"@)) {
                Some(b) => b,
                None => true,
            },
    {
        arg_bool_or(args, "enabled", true)
    }

    /// The answer to setting a breakpoint at `location`.
    pub fn respond(&self, location: &str, enabled: bool, outcome: Result<u32, IncodeError>) -> (r:
        ToolResponse)
        ensures
            match outcome {
                Ok(id) => {
                    let es = json_entries(r);
                    &&& is_json_object(r, 5)
                    &&& has_value(es, 0, "success"@, Json::Bool(true))
                    &&& has_value(es, 1, "breakpoint_id"@, Json::UInt(id as u64))
                    &&& has_text(es, 2, "location"@, location@)
                    &&& has_value(es, 3, "enabled"@, Json::Bool(enabled))
                    &&& has_text(
                        es,
                        4,
                        "message"@,
                        "Successfully created breakpoint "@ + dec_str(id as nat) + " at "@ + location@,
                    )
                },
                Err(e) => reports_error(r, e),
            },
    {
        match outcome {
            Ok(id) => {
                let mut msg = String::new();
                push_str(&mut msg, "Successfully created breakpoint ");
                push_dec(&mut msg, id as u64);
                push_str(&mut msg, " at ");
                push_str(&mut msg, location);
                let mut es: Vec<(String, Json)> = Vec::new();
                es.push(entry("success", Json::Bool(true)));
                es.push(entry("breakpoint_id", Json::UInt(id as u64)));
                es.push(entry("location", jstr(location)));
                es.push(entry("enabled", Json::Bool(enabled)));
                es.push(entry("message", Json::Str(msg)));
                ToolResponse::Json(Json::Object(es))
            },
            Err(e) => error_response(&e),
        }
    }
}

// ---------------------------------------------------------------------------
// set_watchpoint
// ---------------------------------------------------------------------------

/// A watchpoint to set.
#[derive(Debug)]
pub struct WatchRequest {
    pub address: u64,
    pub size: u32,
    pub access_type: String,
    pub read: bool,
    pub write: bool,
}

/// What the arguments of `set_watchpoint` ask for: the address (required,
/// hexadecimal, `0x` optional), the size (8 by default, its low 32 bits)
/// and the kind of access (`write` by default; `read`, `write` or
/// `read_write`), or an answer given at once for another kind.
pub open spec fn is_watch_request(
    args: Seq<(String, Json)>,
    r: Result<Result<WatchRequest, ToolResponse>, IncodeError>,
) -> bool {
    match as_text(lookup(args, "address"@)) {
        None => r matches Err(IncodeError::McpProtocol(m)) && m@ == "Missing address parameter"@,
        Some(text) => match address_value(text) {
            None => r matches Err(IncodeError::McpProtocol(m)) && m@ == "Invalid address format: "@
                + text,
            Some(address) => {
                let size = match as_uint(lookup(args, "size"@)) {
                    Some(n) => n as u32,
                    None => 8u32,
                };
                let access = match as_text(lookup(args, "access_type"@)) {
                    Some(t) => t,
                    None => "write"@,
                };
                if access == "read"@ || access == "write"@ || access == "read_write"@ {
                    r matches Ok(Ok(w)) && w.address == address && w.size == size
                        && w.access_type@ == access && w.read == (access != "write"@) && w.write
                        == (access != "read"@)
                } else {
                    r matches Ok(Err(resp)) && is_failure(resp, "Invalid access_type: "@ + access)
                }
            },
        },
    }
}

/// Sets a watchpoint.
#[derive(Debug)]
pub struct SetWatchpointTool;

impl SetWatchpointTool {
    pub fn name(&self) -> (r: &'static str)
        ensures
            r@ == "set_watchpoint"@,
    {
        "set_watchpoint"
    }

    pub fn description(&self) -> (r: &'static str)
        ensures
            r@ == "Set memory watchpoint to monitor memory access (read/write/access)"@,
    {
        "Set memory watchpoint to monitor memory access (read/write/access)"
    }

    /// Reads the watchpoint asked for.
    pub fn watch_request(&self, args: &Arguments) -> (r: Result<Result<WatchRequest, ToolResponse>, IncodeError>)
        ensures
            is_watch_request(args@, r),
    {
        proof {
            reveal_strlit("read");
            reveal_strlit("write");
            reveal_strlit("read_write");
            assert("read"@.len() == 4 && "write"@.len() == 5 && "read_write"@.len() == 10);
        }
        let text = match arg_str(args, "address") {
            Some(t) => t,
            None => {
                return Err(IncodeError::mcp("Missing address parameter"));
            },
        };
        let address = match parse_address(text.as_str()) {
            Some(a) => a,
            None => {
                let mut msg = String::new();
                push_str(&mut msg, "Invalid address format: ");
                push_str(&mut msg, text.as_str());
                return Err(IncodeError::McpProtocol(msg));
            },
        };
        let size = #[verifier::truncate] (arg_u64_or(args, "size", 8) as u32);
        let access_type = arg_str_or(args, "access_type", "write");
        let (read, write) = if crate::text::str_eq(access_type.as_str(), "read") {
            (true, false)
        } else if crate::text::str_eq(access_type.as_str(), "write") {
            (false, true)
        } else if crate::text::str_eq(access_type.as_str(), "read_write") {
            (true, true)
        } else {
            let mut msg = String::new();
            push_str(&mut msg, "Invalid access_type: ");
            push_str(&mut msg, access_type.as_str());
            return Ok(Err(ToolResponse::Error(msg)));
        };
        Ok(Ok(WatchRequest { address, size, access_type, read, write }))
    }

    /// The answer to setting the watchpoint `req`.
    pub fn respond(&self, req: &WatchRequest, outcome: Result<u32, IncodeError>) -> (r: ToolResponse)
        ensures
            match outcome {
                Ok(id) => {
                    let es = json_entries(r);
                    &&& is_json_object(r, 6)
                    &&& has_value(es, 0, "success"@, Json::Bool(true))
                    &&& has_value(es, 1, "watchpoint_id"@, Json::UInt(id as u64))
                    &&& has_text(es, 2, "address"@, hex_addr(req.address as nat))
                    &&& has_value(es, 3, "size"@, Json::UInt(req.size as u64))
                    &&& has_text(es, 4, "access_type"@, req.access_type@)
                    &&& has_text(
                        es,
                        5,
                        "message"@,
                        "Successfully created watchpoint "@ + dec_str(id as nat) + " at "@ + hex_addr(
                            req.address as nat,
                        ) + " ("@ + req.access_type@ + " access, "@ + dec_str(req.size as nat)
                            + " bytes)"@,
                    )
                },
                Err(e) => reports_error(r, e),
            },
    {
        match outcome {
            Ok(id) => {
                let mut address = String::new();
                push_hex_address(&mut address, req.address);
                let mut msg = String::new();
                push_str(&mut msg, "Successfully created watchpoint ");
                push_dec(&mut msg, id as u64);
                push_str(&mut msg, " at ");
                push_hex_address(&mut msg, req.address);
                push_str(&mut msg, " (");
                push_str(&mut msg, req.access_type.as_str());
                push_str(&mut msg, " access, ");
                push_dec(&mut msg, req.size as u64);
                push_str(&mut msg, " bytes)");
                let mut es: Vec<(String, Json)> = Vec::new();
                es.push(entry("success", Json::Bool(true)));
                es.push(entry("watchpoint_id", Json::UInt(id as u64)));
                es.push(entry("address", Json::Str(address)));
                es.push(entry("size", Json::UInt(req.size as u64)));
                es.push(entry("access_type", Json::Str(req.access_type.clone())));
                es.push(entry("message", Json::Str(msg)));
                ToolResponse::Json(Json::Object(es))
            },
            Err(e) => error_response(&e),
        }
    }
}

// ---------------------------------------------------------------------------
// list_breakpoints
// ---------------------------------------------------------------------------

/// `v` describes the breakpoint `bp`: its id, state, location, hit count
/// and condition (`null` without one).
pub open spec fn is_breakpoint_json(v: Json, bp: BreakpointInfo) -> bool {
    v matches Json::Object(es) && {
        let es = es@;
        &&& es.len() == 5
        &&& has_value(es, 0, "id"@, Json::UInt(bp.id as u64))
        &&& has_value(es, 1, "enabled"@, Json::Bool(bp.enabled))
        &&& has_text(es, 2, "location"@, bp.location@)
        &&& has_value(es, 3, "hit_count"@, Json::UInt(bp.hit_count as u64))
        &&& es[4].0@ == "condition"@ && crate::json::is_opt_text_value(
            es[4].1,
            crate::json::opt_view(bp.condition),
        )
    }
}

/// The breakpoints listed: the enabled ones, or all.
pub open spec fn listed_breakpoints(bps: Seq<BreakpointInfo>, enabled_only: bool) -> Seq<
    BreakpointInfo,
> {
    if enabled_only {
        bps.filter(|b: BreakpointInfo| b.enabled)
    } else {
        bps
    }
}

/// How many of `bps` are enabled.
pub open spec fn enabled_count(bps: Seq<BreakpointInfo>) -> nat {
    bps.filter(|b: BreakpointInfo| b.enabled).len()
}

fn breakpoint_json(bp: &BreakpointInfo) -> (v: Json)
    ensures
        is_breakpoint_json(v, *bp),
{
    let mut es: Vec<(String, Json)> = Vec::new();
    es.push(entry("id", Json::UInt(bp.id as u64)));
    es.push(entry("enabled", Json::Bool(bp.enabled)));
    es.push(entry("location", Json::Str(bp.location.clone())));
    es.push(entry("hit_count", Json::UInt(bp.hit_count as u64)));
    es.push(entry("condition", crate::json::jopt_str(&bp.condition)));
    Json::Object(es)
}

/// Lists the breakpoints.
#[derive(Debug)]
pub struct ListBreakpointsTool;

impl ListBreakpointsTool {
    pub fn name(&self) -> (r: &'static str)
        ensures
            r@ == "list_breakpoints"@,
    {
        "list_breakpoints"
    }

    pub fn description(&self) -> (r: &'static str)
        ensures
            r@ == "List all active breakpoints with details including IDs, locations, and hit counts"@,
    {
        "List all active breakpoints with details including IDs, locations, and hit counts"
    }

    /// Whether only enabled breakpoints are listed: `enabled_only`, false
    /// by default.
    pub fn enabled_only(&self, args: &Arguments) -> (r: bool)
        ensures
            r == match as_boolean(lookup(args@, "enabled_only"@)) {
                Some(b) => b,
                None => false,
            },
    {
        arg_bool_or(args, "enabled_only", false)
    }

    /// The answer: the listed breakpoints, how many there are and how many
    /// of them are enabled.
    pub fn respond(&self, enabled_only: bool, outcome: Result<Vec<BreakpointInfo>, IncodeError>) -> (r:
        ToolResponse)
        ensures
            match outcome {
                Ok(bps) => {
                    let listed = listed_breakpoints(bps@, enabled_only);
                    let es = json_entries(r);
                    &&& is_json_object(r, 4)
                    &&& es[0].0@ == "breakpoints"@
                    &&& es[0].1 matches Json::Array(items) && items@.len() == listed.len() && forall|
                        i: int,
                    | 0 <= i < listed.len() ==> is_breakpoint_json(#[trigger] items@[i], listed[i])
                    &&& has_value(es, 1, "total_count"@, Json::UInt(listed.len() as u64))
                    &&& has_value(es, 2, "enabled_count"@, Json::UInt(enabled_count(listed) as u64))
                    &&& has_text(
                        es,
                        3,
                        "message"@,
                        "Found "@ + dec_str(listed.len()) + " breakpoints"@,
                    )
                },
                Err(e) => reports_error(r, e),
            },
    {
        match outcome {
            Ok(bps) => {
                let ghost all = bps@;
                let ghost on = |b: BreakpointInfo| b.enabled;
                let mut items: Vec<Json> = Vec::new();
                let mut listed: usize = 0;
                let mut enabled: usize = 0;
                let mut i: usize = 0;
                assert(all.take(0) =~= Seq::<BreakpointInfo>::empty());
                proof {
                    reveal(Seq::filter);
                }
                while i < bps.len()
                    invariant
                        i <= all.len(),
                        all == bps@,
                        on == (|b: BreakpointInfo| b.enabled),
                        items@.len() == listed,
                        listed == listed_breakpoints(all.take(i as int), enabled_only).len(),
                        listed <= i,
                        enabled <= listed,
                        enabled == enabled_count(listed_breakpoints(all.take(i as int), enabled_only)),
                        forall|k: int|
                            0 <= k < listed ==> is_breakpoint_json(
                                #[trigger] items@[k],
                                listed_breakpoints(all.take(i as int), enabled_only)[k],
                            ),
                    decreases all.len() - i,
                {
                    let ghost before = listed_breakpoints(all.take(i as int), enabled_only);
                    let bp = &bps[i];
                    assert(all.take(i + 1).drop_last() =~= all.take(i as int));
                    assert(all.take(i + 1).last() == *bp);
                    proof {
                        reveal(Seq::filter);
                        assert(before.push(*bp).drop_last() =~= before);
                    }
                    if !enabled_only || bp.enabled {
                        assert(listed_breakpoints(all.take(i + 1), enabled_only) =~= before.push(
                            *bp,
                        ));
                        let v = breakpoint_json(bp);
                        items.push(v);
                        listed = listed + 1;
                        if bp.enabled {
                            enabled = enabled + 1;
                        }
                    } else {
                        assert(listed_breakpoints(all.take(i + 1), enabled_only) =~= before);
                    }
                    i = i + 1;
                }
                assert(all.take(i as int) =~= all);
                let mut msg = String::new();
                push_str(&mut msg, "Found ");
                push_dec(&mut msg, listed as u64);
                push_str(&mut msg, " breakpoints");
                let mut es: Vec<(String, Json)> = Vec::new();
                es.push(entry("breakpoints", Json::Array(items)));
                es.push(entry("total_count", Json::UInt(listed as u64)));
                es.push(entry("enabled_count", Json::UInt(enabled as u64)));
                es.push(entry("message", Json::Str(msg)));
                ToolResponse::Json(Json::Object(es))
            },
            Err(e) => error_response(&e),
        }
    }
}

// ---------------------------------------------------------------------------
// delete, enable, disable
// ---------------------------------------------------------------------------

/// Deletes a breakpoint, once the deletion is confirmed.
#[derive(Debug)]
pub struct DeleteBreakpointTool;

impl DeleteBreakpointTool {
    pub fn name(&self) -> (r: &'static str)
        ensures
            r@ == "delete_breakpoint"@,
    {
        "delete_breakpoint"
    }

    pub fn description(&self) -> (r: &'static str)
        ensures
            r@ == "Remove specific breakpoint by ID"@,
    {
        "Remove specific breakpoint by ID"
    }

    /// Whether the deletion is confirmed: `confirm`, false by default.
    pub fn confirmed(&self, args: &Arguments) -> (r: bool)
        ensures
            r == match as_boolean(lookup(args@, "confirm"@)) {
                Some(b) => b,
                None => false,
            },
    {
        arg_bool_or(args, "confirm", false)
    }

    /// The answer: without confirmation (`attempt` is `None`), that one is
    /// needed; else the outcome of deleting breakpoint `id`.
    pub fn respond(&self, id: u32, attempt: Option<Result<(), IncodeError>>) -> (r: ToolResponse)
        ensures
            match attempt {
                None => is_failure(
                    r,
                    "Deletion requires confirmation. Set confirm=true to delete breakpoint "@
                        + dec_str(id as nat),
                ),
                Some(Ok(_)) => {
                    let es = json_entries(r);
                    &&& is_json_object(r, 3)
                    &&& has_value(es, 0, "success"@, Json::Bool(true))
                    &&& has_value(es, 1, "breakpoint_id"@, Json::UInt(id as u64))
                    &&& has_text(
                        es,
                        2,
                        "message"@,
                        "Successfully deleted breakpoint "@ + dec_str(id as nat),
                    )
                },
                Some(Err(e)) => reports_error(r, e),
            },
    {
        match attempt {
            None => {
                let mut msg = String::new();
                push_str(
                    &mut msg,
                    "Deletion requires confirmation. Set confirm=true to delete breakpoint ",
                );
                push_dec(&mut msg, id as u64);
                ToolResponse::Error(msg)
            },
            Some(Ok(_)) => {
                let mut msg = String::new();
                push_str(&mut msg, "Successfully deleted breakpoint ");
                push_dec(&mut msg, id as u64);
                let mut es: Vec<(String, Json)> = Vec::new();
                es.push(entry("success", Json::Bool(true)));
                es.push(entry("breakpoint_id", Json::UInt(id as u64)));
                es.push(entry("message", Json::Str(msg)));
                ToolResponse::Json(Json::Object(es))
            },
            Some(Err(e)) => error_response(&e),
        }
    }
}

/// Enables a breakpoint.
#[derive(Debug)]
pub struct EnableBreakpointTool;

impl EnableBreakpointTool {
    pub fn name(&self) -> (r: &'static str)
        ensures
            r@ == "enable_breakpoint"@,
    {
        "enable_breakpoint"
    }

    pub fn description(&self) -> (r: &'static str)
        ensures
            r@ == "Enable a previously disabled breakpoint by ID"@,
    {
        "Enable a previously disabled breakpoint by ID"
    }

    /// The answer to enabling breakpoint `id` (`Ok` holds whether it is
    /// enabled afterwards).
    pub fn respond(&self, id: u32, outcome: Result<bool, IncodeError>) -> (r: ToolResponse)
        ensures
            match outcome {
                Ok(true) => {
                    let es = json_entries(r);
                    &&& is_json_object(r, 4)
                    &&& has_value(es, 0, "breakpoint_id"@, Json::UInt(id as u64))
                    &&& has_value(es, 1, "enabled"@, Json::Bool(true))
                    &&& has_value(es, 2, "success"@, Json::Bool(true))
                    &&& has_text(
                        es,
                        3,
                        "message"@,
                        "Breakpoint "@ + dec_str(id as nat) + " enabled successfully"@,
                    )
                },
                Ok(false) => is_failure(r, "Failed to enable breakpoint "@ + dec_str(id as nat)),
                Err(e) => reports_error(r, e),
            },
    {
        match outcome {
            Ok(true) => {
                let mut msg = String::new();
                push_str(&mut msg, "Breakpoint ");
                push_dec(&mut msg, id as u64);
                push_str(&mut msg, " enabled successfully");
                let mut es: Vec<(String, Json)> = Vec::new();
                es.push(entry("breakpoint_id", Json::UInt(id as u64)));
                es.push(entry("enabled", Json::Bool(true)));
                es.push(entry("success", Json::Bool(true)));
                es.push(entry("message", Json::Str(msg)));
                ToolResponse::Json(Json::Object(es))
            },
            Ok(false) => {
                let mut msg = String::new();
                push_str(&mut msg, "Failed to enable breakpoint ");
                push_dec(&mut msg, id as u64);
                ToolResponse::Error(msg)
            },
            Err(e) => error_response(&e),
        }
    }
}

/// Disables a breakpoint.
#[derive(Debug)]
pub struct DisableBreakpointTool;

impl DisableBreakpointTool {
    pub fn name(&self) -> (r: &'static str)
        ensures
            r@ == "disable_breakpoint"@,
    {
        "disable_breakpoint"
    }

    pub fn description(&self) -> (r: &'static str)
        ensures
            r@ == "Disable a breakpoint without removing it (can be re-enabled later)"@,
    {
        "Disable a breakpoint without removing it (can be re-enabled later)"
    }

    /// The answer to disabling breakpoint `id` (`Ok` holds whether it is
    /// disabled afterwards).
    pub fn respond(&self, id: u32, outcome: Result<bool, IncodeError>) -> (r: ToolResponse)
        ensures
            match outcome {
                Ok(true) => {
                    let es = json_entries(r);
                    &&& is_json_object(r, 5)
                    &&& has_value(es, 0, "breakpoint_id"@, Json::UInt(id as u64))
                    &&& has_value(es, 1, "enabled"@, Json::Bool(false))
                    &&& has_value(es, 2, "disabled"@, Json::Bool(true))
                    &&& has_value(es, 3, "success"@, Json::Bool(true))
                    &&& has_text(
                        es,
                        4,
                        "message"@,
                        "Breakpoint "@ + dec_str(id as nat) + " disabled successfully"@,
                    )
                },
                Ok(false) => is_failure(r, "Failed to disable breakpoint "@ + dec_str(id as nat)),
                Err(e) => reports_error(r, e),
            },
    {
        match outcome {
            Ok(true) => {
                let mut msg = String::new();
                push_str(&mut msg, "Breakpoint ");
                push_dec(&mut msg, id as u64);
                push_str(&mut msg, " disabled successfully");
                let mut es: Vec<(String, Json)> = Vec::new();
                es.push(entry("breakpoint_id", Json::UInt(id as u64)));
                es.push(entry("enabled", Json::Bool(false)));
                es.push(entry("disabled", Json::Bool(true)));
                es.push(entry("success", Json::Bool(true)));
                es.push(entry("message", Json::Str(msg)));
                ToolResponse::Json(Json::Object(es))
            },
            Ok(false) => {
                let mut msg = String::new();
                push_str(&mut msg, "Failed to disable breakpoint ");
                push_dec(&mut msg, id as u64);
                ToolResponse::Error(msg)
            },
            Err(e) => error_response(&e),
        }
    }
}

// ---------------------------------------------------------------------------
// set_conditional_breakpoint
// ---------------------------------------------------------------------------

/// The calls a breakpoint condition may not make.
pub open spec fn unsafe_condition_patterns() -> Seq<Seq<char>> {
    seq![
        "system("@,
        "exec("@,
        "fork("@,
        "kill("@,
        "delete "@,
        "free("@,
        "malloc("@,
        "realloc("@,
        "exit("@,
        "abort("@,
        "_exit("@,
        "remove("@,
        "unlink("@,
        "rmdir("@,
    ]
}

/// A conditional breakpoint to set.
#[derive(Debug)]
pub struct ConditionalRequest {
    pub location: String,
    pub condition: String,
    pub ignore_count: u32,
    pub description: String,
}

/// Sets a breakpoint that stops only when a condition holds.
#[derive(Debug)]
pub struct SetConditionalBreakpointTool;

impl SetConditionalBreakpointTool {
    pub fn name(&self) -> (r: &'static str)
        ensures
            r@ == "set_conditional_breakpoint"@,
    {
        "set_conditional_breakpoint"
    }

    pub fn description(&self) -> (r: &'static str)
        ensures
            r@ == "Set a breakpoint that only triggers when a specified condition is true"@,
    {
        "Set a breakpoint that only triggers when a specified condition is true"
    }

    /// Whether `condition` calls something that could harm the process or
    /// the system.
    pub fn is_unsafe_condition(condition: &str) -> (r: bool)
        ensures
            r == contains_any(condition@, unsafe_condition_patterns()),
    {
        let patterns: Vec<&str> = vec![
            "system(",
            "exec(",
            "fork(",
            "kill(",
            "delete ",
            "free(",
            "malloc(",
            "realloc(",
            "exit(",
            "abort(",
            "_exit(",
            "remove(",
            "unlink(",
            "rmdir(",
        ];
        assert(patterns@.map_values(|p: &str| p@) =~= unsafe_condition_patterns());
        str_contains_any(condition, &patterns)
    }

    /// Reads the breakpoint asked for: the location and condition are
    /// required; the ignore count (0 by default, its low 32 bits) and the
    /// description (empty by default) are optional. A condition that calls
    /// something unsafe is answered at once.
    pub fn request(&self, args: &Arguments) -> (r: Result<Result<ConditionalRequest, ToolResponse>, IncodeError>)
        ensures
            match (as_text(lookup(args@, "location"@)), as_text(lookup(args@, "condition"@))) {
                (None, _) => r matches Err(IncodeError::McpProtocol(m)) && m@
                    == "Missing location parameter"@,
                (Some(_), None) => r matches Err(IncodeError::McpProtocol(m)) && m@
                    == "Missing condition parameter"@,
                (Some(l), Some(c)) => if contains_any(c, unsafe_condition_patterns()) {
                    r matches Ok(Err(resp)) && is_failure(resp, "Unsafe condition detected: "@ + c)
                } else {
                    r matches Ok(Ok(q)) && q.location@ == l && q.condition@ == c && q.ignore_count
                        == match as_uint(lookup(args@, "ignore_count"@)) {
                        Some(n) => n as u32,
                        None => 0u32,
                    } && q.description@ == match as_text(lookup(args@, "description"@)) {
                        Some(d) => d,
                        None => Seq::empty(),
                    }
                },
            },
    {
        let location = match arg_str(args, "location") {
            Some(l) => l,
            None => {
                return Err(IncodeError::mcp("Missing location parameter"));
            },
        };
        let condition = match arg_str(args, "condition") {
            Some(c) => c,
            None => {
                return Err(IncodeError::mcp("Missing condition parameter"));
            },
        };
        let ignore_count = #[verifier::truncate] (arg_u64_or(args, "ignore_count", 0) as u32);
        let description = arg_str_or(args, "description", "");
        proof {
            reveal_strlit("");
        }
        if Self::is_unsafe_condition(condition.as_str()) {
            let mut msg = String::new();
            push_str(&mut msg, "Unsafe condition detected: ");
            push_str(&mut msg, condition.as_str());
            return Ok(Err(ToolResponse::Error(msg)));
        }
        Ok(Ok(ConditionalRequest { location, condition, ignore_count, description }))
    }

    /// The answer to setting the breakpoint `req`.
    pub fn respond(&self, req: &ConditionalRequest, outcome: Result<u32, IncodeError>) -> (r:
        ToolResponse)
        ensures
            match outcome {
                Ok(id) => {
                    let es = json_entries(r);
                    &&& is_json_object(r, 9)
                    &&& has_value(es, 0, "breakpoint_id"@, Json::UInt(id as u64))
                    &&& has_text(es, 1, "location"@, req.location@)
                    &&& has_text(es, 2, "condition"@, req.condition@)
                    &&& has_value(es, 3, "ignore_count"@, Json::UInt(req.ignore_count as u64))
                    &&& has_text(es, 4, "description"@, req.description@)
                    &&& has_value(es, 5, "enabled"@, Json::Bool(true))
                    &&& has_text(es, 6, "type"@, "conditional"@)
                    &&& has_value(es, 7, "success"@, Json::Bool(true))
                    &&& has_text(
                        es,
                        8,
                        "message"@,
                        "Conditional breakpoint "@ + dec_str(id as nat) + " set at "@
                            + req.location@ + " with condition: "@ + req.condition@,
                    )
                },
                Err(e) => reports_error(r, e),
            },
    {
        match outcome {
            Ok(id) => {
                let mut msg = String::new();
                push_str(&mut msg, "Conditional breakpoint ");
                push_dec(&mut msg, id as u64);
                push_str(&mut msg, " set at ");
                push_str(&mut msg, req.location.as_str());
                push_str(&mut msg, " with condition: ");
                push_str(&mut msg, req.condition.as_str());
                let mut es: Vec<(String, Json)> = Vec::new();
                es.push(entry("breakpoint_id", Json::UInt(id as u64)));
                es.push(entry("location", Json::Str(req.location.clone())));
                es.push(entry("condition", Json::Str(req.condition.clone())));
                es.push(entry("ignore_count", Json::UInt(req.ignore_count as u64)));
                es.push(entry("description", Json::Str(req.description.clone())));
                es.push(entry("enabled", Json::Bool(true)));
                es.push(entry("type", jstr("conditional")));
                es.push(entry("success", Json::Bool(true)));
                es.push(entry("message", Json::Str(msg)));
                ToolResponse::Json(Json::Object(es))
            },
            Err(e) => error_response(&e),
        }
    }
}

// ---------------------------------------------------------------------------
// breakpoint_commands
// ---------------------------------------------------------------------------

/// The commands a breakpoint may not run, in lowercase.
pub open spec fn unsafe_command_patterns() -> Seq<Seq<char>> {
    seq![
        "process kill"@,
        "process detach"@,
        "quit"@,
        "exit"@,
        "target delete"@,
        "settings clear"@,
        "platform disconnect"@,
        "script import"@,
        "command script"@,
        "process connect"@,
        "gdb-remote"@,
        "kdp-remote"@,
        "platform connect"@,
    ]
}

/// A command is unsafe: compared without regard to case, it contains one
/// of the unsafe commands.
pub open spec fn is_unsafe_cmd(c: Seq<char>) -> bool {
    contains_any(lowercase_of(c), unsafe_command_patterns())
}

/// The first of `commands` that is unsafe, if any.
pub open spec fn first_unsafe_command(commands: Seq<Seq<char>>) -> Option<int>
    decreases commands.len(),
{
    if commands.len() == 0 {
        None
    } else if is_unsafe_cmd(commands[0]) {
        Some(0)
    } else {
        match first_unsafe_command(commands.drop_first()) {
            Some(i) => Some(i + 1),
            None => None,
        }
    }
}

/// Commands to attach to a breakpoint.
#[derive(Debug)]
pub struct CommandsRequest {
    pub breakpoint_id: u32,
    pub commands: Vec<String>,
    pub stop_on_command_failure: bool,
    pub continue_after_commands: bool,
}

/// Attaches commands to a breakpoint.
#[derive(Debug)]
pub struct BreakpointCommandsTool;

impl BreakpointCommandsTool {
    pub fn name(&self) -> (r: &'static str)
        ensures
            r@ == "breakpoint_commands"@,
    {
        "breakpoint_commands"
    }

    pub fn description(&self) -> (r: &'static str)
        ensures
            r@ == "Set commands to execute automatically when a breakpoint is hit"@,
    {
        "Set commands to execute automatically when a breakpoint is hit"
    }

    /// Whether the lowercase form of a command contains one of the unsafe
    /// commands.
    pub fn is_unsafe_lowercase_command(lowered: &str) -> (r: bool)
        ensures
            r == contains_any(lowered@, unsafe_command_patterns()),
    {
        let patterns: Vec<&str> = vec![
            "process kill",
            "process detach",
            "quit",
            "exit",
            "target delete",
            "settings clear",
            "platform disconnect",
            "script import",
            "command script",
            "process connect",
            "gdb-remote",
            "kdp-remote",
            "platform connect",
        ];
        assert(patterns@.map_values(|p: &str| p@) =~= unsafe_command_patterns());
        str_contains_any(lowered, &patterns)
    }

    /// Whether `command`, compared without regard to case, runs something
    /// that could end or disturb the debugging session.
    pub fn is_unsafe_command(command: &str) -> (r: bool)
        ensures
            r == contains_any(lowercase_of(command@), unsafe_command_patterns()),
    {
        let lowered = to_lowercase(command);
        Self::is_unsafe_lowercase_command(lowered.as_str())
    }

    /// Reads the commands asked for: the breakpoint id and the commands (an
    /// array; its string items are taken) are required; the two flags are
    /// false by default. No commands, or an unsafe one (the first such is
    /// named), are answered at once.
    pub fn request(&self, args: &Arguments) -> (r: Result<Result<CommandsRequest, ToolResponse>, IncodeError>)
        ensures
            match (crate::tools::breakpoints::breakpoint_id_arg(args@), as_items(
                lookup(args@, "commands"@),
            )) {
                (None, _) => r matches Err(IncodeError::McpProtocol(m)) && m@
                    == "Missing breakpoint_id parameter"@,
                (Some(_), None) => r matches Err(IncodeError::McpProtocol(m)) && m@
                    == "Missing commands parameter"@,
                (Some(id), Some(items)) => {
                    let cmds = strings_in(items);
                    if cmds.len() == 0 {
                        r matches Ok(Err(resp)) && is_failure(resp, "No valid commands provided"@)
                    } else {
                        match first_unsafe_command(cmds) {
                            Some(i) => r matches Ok(Err(resp)) && is_failure(
                                resp,
                                "Unsafe command detected: "@ + cmds[i],
                            ),
                            None => r matches Ok(Ok(q)) && q.breakpoint_id == id && views(
                                q.commands@,
                            ) == cmds && q.stop_on_command_failure == match as_boolean(
                                lookup(args@, "stop_on_command_failure"@),
                            ) {
                                Some(b) => b,
                                None => false,
                            } && q.continue_after_commands == match as_boolean(
                                lookup(args@, "continue_after_commands"@),
                            ) {
                                Some(b) => b,
                                None => false,
                            },
                        }
                    }
                },
            },
    {
        let breakpoint_id = match read_breakpoint_id(args) {
            Ok(id) => id,
            Err(e) => {
                return Err(e);
            },
        };
        let commands = match arg_strings(args, "commands") {
            Some(c) => c,
            None => {
                return Err(IncodeError::mcp("Missing commands parameter"));
            },
        };
        if commands.len() == 0 {
            return Ok(Err(failure("No valid commands provided")));
        }
        let stop_on_command_failure = arg_bool_or(args, "stop_on_command_failure", false);
        let continue_after_commands = arg_bool_or(args, "continue_after_commands", false);
        let ghost cmds = views(commands@);
        let mut i: usize = 0;
        assert(cmds.subrange(0, cmds.len() as int) =~= cmds);
        while i < commands.len()
            invariant
                i <= commands@.len(),
                cmds == views(commands@),
                cmds.len() != 0,
                as_items(lookup(args@, "commands"@)) matches Some(items) && cmds == strings_in(items),
                breakpoint_id_arg(args@) == Some(breakpoint_id),
                first_unsafe_command(cmds) == match first_unsafe_command(
                    cmds.subrange(i as int, cmds.len() as int),
                ) {
                    Some(j) => Some(j + i),
                    None => None::<int>,
                },
            decreases commands@.len() - i,
        {
            let ghost rest = cmds.subrange(i as int, cmds.len() as int);
            assert(rest[0] == commands@[i as int]@);
            assert(cmds[i as int] == commands@[i as int]@);
            assert(rest.drop_first() =~= cmds.subrange(i + 1, cmds.len() as int));
            if Self::is_unsafe_command(commands[i].as_str()) {
                let mut msg = String::new();
                push_str(&mut msg, "Unsafe command detected: ");
                push_str(&mut msg, commands[i].as_str());
                proof {
                    assert(is_unsafe_cmd(rest[0]));
                    assert(first_unsafe_command(rest) == Some(0int));
                    assert(first_unsafe_command(cmds) == Some(i as int));
                }
                return Ok(Err(ToolResponse::Error(msg)));
            }
            i = i + 1;
        }
        Ok(
            Ok(
                CommandsRequest {
                    breakpoint_id,
                    commands,
                    stop_on_command_failure,
                    continue_after_commands,
                },
            ),
        )
    }

    /// The answer to attaching the commands of `req` (`Ok` holds whether
    /// the engine took them).
    pub fn respond(&self, req: &CommandsRequest, outcome: Result<bool, IncodeError>) -> (r:
        ToolResponse)
        ensures
            match outcome {
                Ok(true) => {
                    let es = json_entries(r);
                    &&& is_json_object(r, 7)
                    &&& has_value(es, 0, "breakpoint_id"@, Json::UInt(req.breakpoint_id as u64))
                    &&& es[1].0@ == "commands"@ && crate::json::is_text_array(
                        es[1].1,
                        views(req.commands@),
                    )
                    &&& has_value(es, 2, "command_count"@, Json::UInt(req.commands@.len() as u64))
                    &&& has_value(
                        es,
                        3,
                        "stop_on_command_failure"@,
                        Json::Bool(req.stop_on_command_failure),
                    )
                    &&& has_value(
                        es,
                        4,
                        "continue_after_commands"@,
                        Json::Bool(req.continue_after_commands),
                    )
                    &&& has_value(es, 5, "success"@, Json::Bool(true))
                    &&& has_text(
                        es,
                        6,
                        "message"@,
                        "Set "@ + dec_str(req.commands@.len()) + " commands for breakpoint "@
                            + dec_str(req.breakpoint_id as nat),
                    )
                },
                Ok(false) => is_failure(
                    r,
                    "Failed to set commands for breakpoint "@ + dec_str(req.breakpoint_id as nat),
                ),
                Err(e) => reports_error(r, e),
            },
    {
        match outcome {
            Ok(true) => {
                let n = req.commands.len();
                let mut msg = String::new();
                push_str(&mut msg, "Set ");
                push_dec(&mut msg, n as u64);
                push_str(&mut msg, " commands for breakpoint ");
                push_dec(&mut msg, req.breakpoint_id as u64);
                let mut es: Vec<(String, Json)> = Vec::new();
                es.push(entry("breakpoint_id", Json::UInt(req.breakpoint_id as u64)));
                es.push(entry("commands", text_array(&req.commands)));
                es.push(entry("command_count", Json::UInt(n as u64)));
                es.push(entry("stop_on_command_failure", Json::Bool(req.stop_on_command_failure)));
                es.push(entry("continue_after_commands", Json::Bool(req.continue_after_commands)));
                es.push(entry("success", Json::Bool(true)));
                es.push(entry("message", Json::Str(msg)));
                ToolResponse::Json(Json::Object(es))
            },
            Ok(false) => {
                let mut msg = String::new();
                push_str(&mut msg, "Failed to set commands for breakpoint ");
                push_dec(&mut msg, req.breakpoint_id as u64);
                ToolResponse::Error(msg)
            },
            Err(e) => error_response(&e),
        }
    }
}

} // verus!
