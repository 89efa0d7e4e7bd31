//! The tools that report on the target, its platform and its modules:
//! each answers with its report marked as a success, or with the error
//! that stopped it.

use vstd::prelude::*;
use crate::error::{error_text, has_known_text, IncodeError};
use crate::json::{entry, Arguments, Json};
use crate::tools::{failure, has_text, has_value, is_failure};

verus! {

broadcast use vstd::string::group_string_axioms;

/// `r` is the report `outcome` marked as a success (its fields after a
/// `success` field), or the failure `{success: false, error}` whose error
/// reads `what` followed by the error's text.
pub open spec fn is_marked_report(r: Json, outcome: Result<Json, IncodeError>, what: Seq<char>) -> bool {
    r matches Json::Object(es) && match outcome {
        Ok(report) => {
            &&& es@.len() >= 1
            &&& has_value(es@, 0, "success"@, Json::Bool(true))
            &&& match report {
                Json::Object(fields) => es@.subrange(1, es@.len() as int) == fields@,
                _ => es@.len() == 1,
            }
        },
        Err(e) => {
            &&& es@.len() == 2
            &&& has_value(es@, 0, "success"@, Json::Bool(false))
            &&& es@[1].0@ == "error"@
            &&& (has_known_text(e) ==> has_text(es@, 1, "error"@, what + error_text(e)))
        },
    }
}

fn mark_report(outcome: Result<Json, IncodeError>, what: &str) -> (r: Json)
    ensures
        is_marked_report(r, outcome, what@),
{
    let mut es: Vec<(String, Json)> = Vec::new();
    match outcome {
        Ok(report) => {
            es.push(entry("success", Json::Bool(true)));
            match report {
                Json::Object(fields) => {
                    let mut rest = fields;
                    rest.insert(0, es.pop().unwrap());
                    es = rest;
                    assert(es@.subrange(1, es@.len() as int) =~= fields@);
                },
                _ => {},
            }
        },
        Err(e) => {
            let mut msg = String::new();
            crate::text::push_str(&mut msg, what);
            let m = e.message();
            crate::text::push_str(&mut msg, m.as_str());
            es.push(entry("success", Json::Bool(false)));
            es.push(entry("error", Json::Str(msg)));
        },
    }
    Json::Object(es)
}

/// Reports on the target.
#[derive(Debug)]
pub struct GetTargetInfoTool;

impl GetTargetInfoTool {
    pub fn name(&self) -> (r: &'static str)
        ensures
            r@ == "get_target_info"@,
    {
        "get_target_info"
    }

    pub fn description(&self) -> (r: &'static str)
        ensures
            r@
                == "Get comprehensive target information including architecture, platform, and executable details"@,
    {
        "Get comprehensive target information including architecture, platform, and executable details"
    }

    /// The answer: the target report marked as a success, or the error.
    pub fn respond(&self, outcome: Result<Json, IncodeError>) -> (r: Json)
        ensures
            is_marked_report(r, outcome, "Failed to get target info: "@),
    {
        mark_report(outcome, "Failed to get target info: ")
    }
}

/// Reports on the target's platform.
#[derive(Debug)]
pub struct GetPlatformInfoTool;

impl GetPlatformInfoTool {
    pub fn name(&self) -> (r: &'static str)
        ensures
            r@ == "get_platform_info"@,
    {
        "get_platform_info"
    }

    pub fn description(&self) -> (r: &'static str)
        ensures
            r@
                == "Get comprehensive platform information including OS version, architecture, and development environment details"@,
    {
        "Get comprehensive platform information including OS version, architecture, and development environment details"
    }

    /// The answer: the platform report marked as a success, or the error.
    pub fn respond(&self, outcome: Result<Json, IncodeError>) -> (r: Json)
        ensures
            is_marked_report(r, outcome, "Failed to get platform info: "@),
    {
        mark_report(outcome, "Failed to get platform info: ")
    }
}

/// Lists the target's modules.
#[derive(Debug)]
pub struct ListModulesTool;

impl ListModulesTool {
    pub fn name(&self) -> (r: &'static str)
        ensures
            r@ == "list_modules"@,
    {
        "list_modules"
    }

    pub fn description(&self) -> (r: &'static str)
        ensures
            r@ == "List all loaded modules/libraries with their addresses and debug information"@,
    {
        "List all loaded modules/libraries with their addresses and debug information"
    }

    /// The answer: the module report marked as a success, or the error.
    pub fn respond(&self, outcome: Result<Json, IncodeError>) -> (r: Json)
        ensures
            is_marked_report(r, outcome, "Failed to list modules: "@),
    {
        mark_report(outcome, "Failed to list modules: ")
    }
}

/// A stand-in for a tool not written yet.
#[derive(Debug)]
pub struct PlaceholderTool;

impl PlaceholderTool {
    pub fn name(&self) -> (r: &'static str)
        ensures
            r@ == "placeholder"@,
    {
        "placeholder"
    }

    pub fn description(&self) -> (r: &'static str)
        ensures
            r@ == "Placeholder tool - needs implementation"@,
    {
        "Placeholder tool - needs implementation"
    }

    /// The answer, whatever the arguments.
    pub fn execute(&self, args: &Arguments) -> (r: crate::tools::ToolResponse)
        ensures
            is_failure(r, "Not implemented"@),
    {
        failure("Not implemented")
    }
}

} // verus!
