//! The debugging tools: for each, its name and description, how it reads
//! its arguments, the checks it makes on them, and how it answers from the
//! outcome of the debugger operation it runs.
//!
//! A tool's answer is a `ToolResponse`. A tool fails outright (with an
//! error) only where a required argument is missing or malformed; a failed
//! debugger operation is answered with an error response that carries the
//! error's text.

use vstd::prelude::*;
use crate::error::{error_text, has_known_text, IncodeError};
use crate::json::{as_uint, lookup, Arguments, Json};
use crate::text::{
    chars_of, has_prefix, parse_bounded, parse_unsigned_chars, parse_unsigned_str, push_str,
    str_starts_with, sub_chars,
};

pub mod process_control;
pub mod execution_control;
pub mod breakpoints;
pub mod stack_analysis;
pub mod memory_inspection;
pub mod variables;
pub mod thread_management;
pub mod register_inspection;
pub mod debug_information;
pub mod target_information;
pub mod target_info;
pub mod lldb_control;
pub mod session_management;
pub mod advanced_analysis;
pub mod registry;

verus! {

broadcast use vstd::string::group_string_axioms;

/// What a tool answers.
#[derive(Debug, PartialEq)]
pub enum ToolResponse {
    /// A success, described in text.
    Success(String),
    /// A failure, described in text.
    Error(String),
    /// A success, described as a JSON value.
    Json(Json),
}

/// `r` is the success response with text `t`.
pub open spec fn is_success(r: ToolResponse, t: Seq<char>) -> bool {
    r matches ToolResponse::Success(s) && s@ == t
}

/// `r` is the error response with text `t`.
pub open spec fn is_failure(r: ToolResponse, t: Seq<char>) -> bool {
    r matches ToolResponse::Error(s) && s@ == t
}

/// `r` reports the error `e`: an error response with the error's text.
pub open spec fn reports_error(r: ToolResponse, e: IncodeError) -> bool {
    r matches ToolResponse::Error(t) && (has_known_text(e) ==> t@ == error_text(e))
}

/// The JSON response whose object has the entries `es`.
pub open spec fn json_entries(r: ToolResponse) -> Seq<(String, Json)> {
    match r {
        ToolResponse::Json(Json::Object(es)) => es@,
        _ => Seq::empty(),
    }
}

/// `r` is a JSON response holding an object of `n` entries.
pub open spec fn is_json_object(r: ToolResponse, n: nat) -> bool {
    r matches ToolResponse::Json(Json::Object(es)) && es@.len() == n
}

/// Entry `i` of `es` is named `key` and holds `v`.
pub open spec fn has_value(es: Seq<(String, Json)>, i: int, key: Seq<char>, v: Json) -> bool {
    es[i].0@ == key && es[i].1 == v
}

/// Entry `i` of `es` is named `key` and holds the string `t`.
pub open spec fn has_text(es: Seq<(String, Json)>, i: int, key: Seq<char>, t: Seq<char>) -> bool {
    es[i].0@ == key && (es[i].1 matches Json::Str(s) && s@ == t)
}

/// The error response for `e`.
pub fn error_response(e: &IncodeError) -> (r: ToolResponse)
    ensures
        reports_error(r, *e),
{
    ToolResponse::Error(e.message())
}

/// The answer of a tool that reports in JSON text: the compact JSON text
/// of its report as a success, or the text of its error.
pub fn text_answer(result: Result<Json, IncodeError>) -> (r: ToolResponse)
    ensures
        match result {
            Ok(j) => r matches ToolResponse::Success(t) && t@ == crate::json::json_text_of(j),
            Err(e) => reports_error(r, e),
        },
{
    match result {
        Ok(j) => ToolResponse::Success(crate::json::json_text(&j)),
        Err(e) => error_response(&e),
    }
}

/// The error response with text `msg`.
pub fn failure(msg: &str) -> (r: ToolResponse)
    ensures
        is_failure(r, msg@),
{
    ToolResponse::Error(msg.to_owned())
}

/// How many times a stepping tool steps: the `count` argument, 1 by
/// default.
pub open spec fn step_count(args: Seq<(String, Json)>) -> u64 {
    match as_uint(lookup(args, "count"@)) {
        Some(n) => n,
        None => 1,
    }
}

/// The `count` argument of a stepping tool.
pub fn read_step_count(args: &Arguments) -> (r: u64)
    ensures
        r == step_count(args@),
{
    crate::json::arg_u64_or(args, "count", 1)
}

/// `r` reports the error `e` after the text `prefix`.
pub open spec fn reports_error_after(r: ToolResponse, prefix: Seq<char>, e: IncodeError) -> bool {
    r matches ToolResponse::Error(t) && (has_known_text(e) ==> t@ == prefix + error_text(e))
}

/// The error response for `e`, its text after `prefix`.
pub fn error_response_after(prefix: &String, e: &IncodeError) -> (r: ToolResponse)
    ensures
        reports_error_after(r, prefix@, *e),
{
    let mut t = prefix.clone();
    let m = e.message();
    push_str(&mut t, m.as_str());
    ToolResponse::Error(t)
}

/// The hexadecimal number `s` (`u64::from_str_radix(s, 16)`).
pub open spec fn hex_number(s: Seq<char>) -> Option<u64> {
    match parse_bounded(s, 16, u64::MAX as nat) {
        Some(v) => Some(v as u64),
        None => None,
    }
}

/// The address written as `s`: hexadecimal, with or without `0x`.
pub open spec fn address_value(s: Seq<char>) -> Option<u64> {
    if has_prefix(s, "0x"@) {
        hex_number(s.subrange(2, s.len() as int))
    } else {
        hex_number(s)
    }
}

/// An address as the tools report it (`0x` and lowercase hexadecimal
/// digits) reads back, as an address argument, as the same address.
pub proof fn law_reported_address_reads_back(n: u64)
    ensures
        address_value(crate::text::hex_addr(n as nat)) == Some(n),
{
    crate::text::lemma_hex_str_value(n as nat);
    let s = crate::text::hex_addr(n as nat);
    assert(has_prefix(s, "0x"@)) by {
        reveal_strlit("0x");
        assert(s.subrange(0, 2) =~= "0x"@);
    }
    assert(s.subrange(2, s.len() as int) =~= crate::text::hex_str(n as nat));
}

/// A number as the tools report it in decimal reads back, as a decimal
/// argument, as the same number.
pub proof fn law_reported_number_reads_back(n: u64)
    ensures
        parse_bounded(crate::text::dec_str(n as nat), 10, u64::MAX as nat) == Some(n as nat),
{
    crate::text::lemma_dec_str_value(n as nat);
}

/// The decimal number `s` as a 32-bit value (`str::parse::<u32>`).
pub open spec fn decimal_u32(s: Seq<char>) -> Option<u32> {
    match parse_bounded(s, 10, u32::MAX as nat) {
        Some(v) => Some(v as u32),
        None => None,
    }
}

/// Reads the hexadecimal number in `v[from..]`.
pub fn hex_number_from(v: &Vec<char>, from: usize) -> (r: Option<u64>)
    requires
        from <= v@.len(),
    ensures
        r == hex_number(v@.subrange(from as int, v@.len() as int)),
{
    let digits = sub_chars(v, from, v.len());
    match parse_unsigned_chars(&digits, 16, u64::MAX) {
        Some(n) => Some(n),
        None => None,
    }
}

/// Reads an address written in hexadecimal, with or without `0x`.
pub fn parse_address(s: &str) -> (r: Option<u64>)
    ensures
        r == address_value(s@),
{
    let v = chars_of(s);
    if str_starts_with(s, "0x") {
        proof {
            reveal_strlit("0x");
        }
        hex_number_from(&v, 2)
    } else {
        assert(v@.subrange(0, v@.len() as int) =~= v@);
        hex_number_from(&v, 0)
    }
}

/// Reads a decimal 32-bit number.
pub fn parse_u32(s: &str) -> (r: Option<u32>)
    ensures
        r == decimal_u32(s@),
{
    let v = chars_of(s);
    match parse_unsigned_chars(&v, 10, 0xffff_ffff) {
        Some(n) => Some(n as u32),
        None => None,
    }
}

/// What `str::to_lowercase` gives for a text: each character replaced by
/// its Unicode lowercase mapping.
pub uninterp spec fn lowercase_of(s: Seq<char>) -> Seq<char>;

/// `str::to_lowercase`. On an ASCII text the Unicode lowercase mapping
/// is the ASCII one: an uppercase letter becomes its lowercase letter and
/// every other character stays.
#[verifier::external_body]
pub(crate) fn to_lowercase(s: &str) -> (r: String)
    ensures
        r@ == lowercase_of(s@),
        crate::text::is_ascii_chars(s@) ==> r@ == crate::text::ascii_lowercase(s@),
{
    s.to_lowercase()
}

/// Some pattern of `patterns` occurs in `s`.
#[verifier::opaque]
pub open spec fn contains_any(s: Seq<char>, patterns: Seq<Seq<char>>) -> bool {
    exists|i: int| 0 <= i < patterns.len() && crate::text::has_substr(s, #[trigger] patterns[i])
}

/// Whether some pattern of `patterns` occurs in `s`.
pub fn str_contains_any(s: &str, patterns: &Vec<&str>) -> (r: bool)
    ensures
        r == contains_any(s@, patterns@.map_values(|p: &str| p@)),
{
    reveal(contains_any);
    let ghost ps = patterns@.map_values(|p: &str| p@);
    let mut i: usize = 0;
    while i < patterns.len()
        invariant
            i <= patterns@.len(),
            ps == patterns@.map_values(|p: &str| p@),
            forall|k: int| 0 <= k < i ==> !crate::text::has_substr(s@, #[trigger] ps[k]),
        decreases patterns@.len() - i,
    {
        assert(ps[i as int] == patterns@[i as int]@);
        if crate::text::str_contains(s, patterns[i]) {
            reveal(contains_any);
            return true;
        }
        i = i + 1;
    }
    reveal(contains_any);
    false
}

/// The number that `v` gives: a number, or a text holding a hexadecimal
/// number after `0x` or `0X`, or else a decimal number.
pub open spec fn flexible_u64(v: Option<Json>) -> Option<u64> {
    match v {
        Some(Json::Str(s)) => if has_prefix(s@, "0x"@) || has_prefix(s@, "0X"@) {
            hex_number(s@.subrange(2, s@.len() as int))
        } else {
            match parse_bounded(s@, 10, u64::MAX as nat) {
                Some(n) => Some(n as u64),
                None => None,
            }
        },
        _ => crate::json::as_uint(v),
    }
}

/// Reads the number stored under `key`, written as a number or as a text.
pub fn read_flexible_u64(args: &Arguments, key: &str) -> (r: Option<u64>)
    ensures
        r == flexible_u64(lookup(args@, key@)),
{
    match crate::json::arg_get(args, key) {
        Some(Json::Str(s)) => {
            let t = s.as_str();
            if str_starts_with(t, "0x") || str_starts_with(t, "0X") {
                proof {
                    reveal_strlit("0x");
                    reveal_strlit("0X");
                }
                let v = chars_of(t);
                hex_number_from(&v, 2)
            } else {
                match parse_unsigned_str(t, 10, u64::MAX) {
                    Some(n) => Some(n),
                    None => None,
                }
            }
        },
        Some(Json::UInt(n)) => Some(*n),
        _ => None,
    }
}

/// The truth value stored under `key`, `default` where there is none.
pub open spec fn flag_arg(args: Seq<(String, Json)>, key: Seq<char>, default: bool) -> bool {
    match crate::json::as_boolean(lookup(args, key)) {
        Some(b) => b,
        None => default,
    }
}

/// The text stored under `key`, where it is a string that is not empty.
pub open spec fn nonempty_text(args: Seq<(String, Json)>, key: Seq<char>) -> Option<Seq<char>> {
    match crate::json::as_text(lookup(args, key)) {
        Some(t) => if t.len() > 0 {
            Some(t)
        } else {
            None
        },
        None => None,
    }
}

/// Reads the text stored under `key`, where it is a string that is not
/// empty.
pub fn read_nonempty(args: &Arguments, key: &str) -> (r: Option<String>)
    ensures
        crate::json::opt_view(r) == nonempty_text(args@, key@),
{
    match crate::json::arg_str(args, key) {
        Some(t) => if t.as_str().unicode_len() > 0 {
            Some(t)
        } else {
            None
        },
        None => None,
    }
}

} // verus!
