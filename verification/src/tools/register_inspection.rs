//! Tools that read, describe, save and write the registers of a thread.
//!
//! Each operation reads its arguments, asks the debugger and answers with
//! a JSON value that reports success or failure in its `success` field.

use vstd::prelude::*;
use crate::error::IncodeError;
use crate::json::{
    arg_bool_or, arg_str, arg_u64, as_boolean, as_text, entry, is_opt_text_value, is_opt_uint_value,
    jopt_str, jstr, lookup, opt_view, Arguments, Json,
};
use crate::lldb_manager::registers::{
    is_register_entry, is_register_table, listed_registers, register_values, sets_view, RawRegister,
};
use crate::lldb_manager::{epoch_nanos, epoch_secs, LldbManager, RegisterInfo};
use crate::text::{
    dec_str, has_substr, hex_addr, hex_address, hex_str, push_char, push_dec, push_hex, push_str,
    str_contains,
};
use crate::tools::thread_management::{thread_id_arg, wide};
use crate::tools::{
    flag_arg, flexible_u64, has_text, has_value, read_flexible_u64, lowercase_of, to_lowercase,
};

verus! {

broadcast use vstd::string::group_string_axioms;

/// Reads the thread asked for, where one is.
pub fn optional_thread_id(args: &Arguments) -> (r: Option<u32>)
    ensures
        r == thread_id_arg(args@),
{
    match arg_u64(args, "thread_id") {
        Some(n) => Some(#[verifier::truncate] (n as u32)),
        None => None,
    }
}

/// `v` is the JSON form of an optional 32-bit number.
pub open spec fn is_opt_u32_value(v: Json, n: Option<u32>) -> bool {
    is_opt_uint_value(v, wide(n))
}

/// `v` describes register `reg`: its name, its value in hexadecimal and in
/// decimal and, with metadata, its size, format and validity.
pub open spec fn is_register_json(v: Json, reg: RegisterInfo, metadata: bool) -> bool {
    v matches Json::Object(es) && {
        let es = es@;
        &&& es.len() == if metadata {
            6int
        } else {
            3int
        }
        &&& has_text(es, 0, "name"@, reg.name@)
        &&& has_text(es, 1, "value"@, hex_addr(reg.value as nat))
        &&& has_value(es, 2, "decimal_value"@, Json::UInt(reg.value))
        &&& metadata ==> {
            &&& has_value(es, 3, "size"@, Json::UInt(reg.size as u64))
            &&& has_text(es, 4, "format"@, reg.format@)
            &&& has_value(es, 5, "is_valid"@, Json::Bool(reg.is_valid))
        }
    }
}

/// A register passes the name filter: its lowercase name contains the
/// lowercase filter, where one is given.
pub open spec fn register_passes(reg: RegisterInfo, filter: Option<Seq<char>>) -> bool {
    match filter {
        Some(f) => has_substr(lowercase_of(reg.name@), lowercase_of(f)),
        None => true,
    }
}

/// The registers of `regs` that pass the name filter, in their order.
pub open spec fn filtered_registers(regs: Seq<RegisterInfo>, filter: Option<Seq<char>>) -> Seq<
    RegisterInfo,
> {
    regs.filter(|r: RegisterInfo| register_passes(r, filter))
}

/// `j` lists the registers of `regs` that pass the name filter, read for
/// thread `thread_id` in frame `frame_index`.
pub open spec fn is_register_listing(
    j: Json,
    regs: Seq<RegisterInfo>,
    metadata: bool,
    filter: Option<Seq<char>>,
    thread_id: Option<u32>,
    frame_index: Option<u32>,
) -> bool {
    let sel = filtered_registers(regs, filter);
    j matches Json::Object(es) && {
        let es = es@;
        &&& es.len() == 7
        &&& has_value(es, 0, "success"@, Json::Bool(true))
        &&& es[1].0@ == "registers"@
        &&& (es[1].1 matches Json::Array(items) && items@.len() == sel.len() && forall|i: int|
            0 <= i < sel.len() ==> is_register_json(#[trigger] items@[i], sel[i], metadata))
        &&& has_value(es, 2, "total_count"@, Json::UInt(sel.len() as u64))
        &&& es[3].0@ == "thread_id"@ && is_opt_u32_value(es[3].1, thread_id)
        &&& es[4].0@ == "frame_index"@ && is_opt_u32_value(es[4].1, frame_index)
        &&& es[5].0@ == "timestamp"@ && es[5].1 is UInt
        &&& es[6].0@ == "filter_applied"@ && is_opt_text_value(es[6].1, filter)
    }
}

/// `j` reports that the registers could not be read, with the message
/// `msg`.
pub open spec fn is_failed_register_read(j: Json, msg: Seq<char>) -> bool {
    j matches Json::Object(es) && {
        let es = es@;
        &&& es.len() == 3
        &&& has_value(es, 0, "success"@, Json::Bool(false))
        &&& has_text(es, 1, "error"@, msg)
        &&& es[2].0@ == "registers"@ && (es[2].1 matches Json::Array(a) && a@.len() == 0)
    }
}

/// The message of the error a register read fails with, where it fails:
/// no thread selected, no frame, or no register list from the debugger.
pub open spec fn register_read_failure(
    m: LldbManager,
    frame_valid: bool,
    register_sets: Option<Seq<Option<Vec<RawRegister>>>>,
) -> Option<Seq<char>> {
    if !m.thread_selected() {
        Some("Thread operation failed: "@ + "No current thread selected"@)
    } else if !frame_valid {
        Some("Frame operation failed: "@ + "No current frame available"@)
    } else if register_sets is None {
        Some("Frame operation failed: "@ + "Cannot access registers"@)
    } else {
        None
    }
}

fn register_json(reg: &RegisterInfo, metadata: bool) -> (v: Json)
    ensures
        is_register_json(v, *reg, metadata),
{
    let mut es: Vec<(String, Json)> = Vec::new();
    es.push(entry("name", Json::Str(reg.name.clone())));
    es.push(entry("value", Json::Str(hex_address(reg.value))));
    es.push(entry("decimal_value", Json::UInt(reg.value)));
    if metadata {
        es.push(entry("size", Json::UInt(reg.size as u64)));
        es.push(entry("format", Json::Str(reg.format.clone())));
        es.push(entry("is_valid", Json::Bool(reg.is_valid)));
    }
    Json::Object(es)
}

/// Lists the registers of `regs` that pass the name filter.
pub fn register_list(
    regs: &Vec<RegisterInfo>,
    metadata: bool,
    filter: &Option<String>,
    thread_id: Option<u32>,
    frame_index: Option<u32>,
    timestamp: u64,
) -> (j: Json)
    ensures
        is_register_listing(j, regs@, metadata, opt_view(*filter), thread_id, frame_index),
{
    let ghost f = opt_view(*filter);
    let ghost p = |r: RegisterInfo| register_passes(r, f);
    let lowered_filter = match filter {
        Some(s) => Some(to_lowercase(s.as_str())),
        None => None,
    };
    let mut items: Vec<Json> = Vec::new();
    let mut i: usize = 0;
    assert(regs@.take(0) =~= Seq::<RegisterInfo>::empty());
    proof {
        reveal(Seq::filter);
    }
    while i < regs.len()
        invariant
            i <= regs@.len(),
            f == opt_view(*filter),
            p == (|r: RegisterInfo| register_passes(r, f)),
            match filter {
                Some(s) => lowered_filter matches Some(l) && l@ == lowercase_of(s@),
                None => lowered_filter is None,
            },
            items@.len() == regs@.take(i as int).filter(p).len(),
            forall|k: int|
                0 <= k < items@.len() ==> is_register_json(
                    #[trigger] items@[k],
                    regs@.take(i as int).filter(p)[k],
                    metadata,
                ),
        decreases regs@.len() - i,
    {
        proof {
            reveal(Seq::filter);
        }
        assert(regs@.take(i + 1).drop_last() =~= regs@.take(i as int));
        assert(regs@.take(i + 1).last() == regs@[i as int]);
        let passes = match &lowered_filter {
            Some(l) => {
                let name = to_lowercase(regs[i].name.as_str());
                str_contains(name.as_str(), l.as_str())
            },
            None => true,
        };
        if passes {
            items.push(register_json(&regs[i], metadata));
        }
        i = i + 1;
    }
    assert(regs@.take(i as int) =~= regs@);
    let n = items.len();
    let mut es: Vec<(String, Json)> = Vec::new();
    es.push(entry("success", Json::Bool(true)));
    es.push(entry("registers", Json::Array(items)));
    es.push(entry("total_count", Json::UInt(n as u64)));
    es.push(entry("thread_id", jopt_u32(thread_id)));
    es.push(entry("frame_index", jopt_u32(frame_index)));
    es.push(entry("timestamp", Json::UInt(timestamp)));
    es.push(entry("filter_applied", jopt_str(filter)));
    Json::Object(es)
}

fn jopt_u32(n: Option<u32>) -> (v: Json)
    ensures
        is_opt_u32_value(v, n),
{
    match n {
        Some(x) => Json::UInt(x as u64),
        None => Json::Null,
    }
}

/// Reads the registers of a thread (`thread_id`, the selected one by
/// default), once the host has looked the frame up (`frame_valid`) and
/// read its register sets (`register_sets`), and lists those whose name
/// contains `register_filter` (letter case aside), with their metadata
/// where `include_metadata` asks for it.
pub fn get_registers(
    lldb_manager: &LldbManager,
    arguments: &Arguments,
    frame_valid: bool,
    register_sets: Option<&Vec<Option<Vec<RawRegister>>>>,
) -> (r: Result<Json, IncodeError>)
    ensures
        r matches Ok(j) && match register_read_failure(
            *lldb_manager,
            frame_valid,
            sets_view(register_sets),
        ) {
            Some(msg) => is_failed_register_read(j, msg),
            None => exists|regs: Seq<RegisterInfo>|
                #[trigger] is_register_table(
                    regs,
                    register_values(listed_registers(register_sets->0@)),
                ) && is_register_listing(
                    j,
                    regs,
                    match as_boolean(lookup(arguments@, "include_metadata"@)) {
                        Some(b) => b,
                        None => false,
                    },
                    as_text(lookup(arguments@, "register_filter"@)),
                    thread_id_arg(arguments@),
                    Some(0u32),
                ),
        },
{
    let thread_id = optional_thread_id(arguments);
    let include_metadata = arg_bool_or(arguments, "include_metadata", false);
    let register_filter = arg_str(arguments, "register_filter");
    proof {
        reveal_strlit("No current thread selected");
        reveal_strlit("No current frame available");
        reveal_strlit("Cannot access registers");
    }
    match lldb_manager.get_registers(thread_id, include_metadata, frame_valid, register_sets) {
        Ok(state) => {
            let secs = epoch_secs(&state.timestamp);
            let j = register_list(
                &state.registers,
                include_metadata,
                &register_filter,
                state.thread_id,
                state.frame_index,
                secs,
            );
            assert(is_register_table(
                state.registers@,
                register_values(listed_registers(register_sets->0@)),
            ));
            Ok(j)
        },
        Err(e) => {
            let mut es: Vec<(String, Json)> = Vec::new();
            es.push(entry("success", Json::Bool(false)));
            es.push(entry("error", Json::Str(e.message())));
            es.push(entry("registers", Json::Array(Vec::new())));
            Ok(Json::Object(es))
        },
    }
}

// ---------------------------------------------------------------------------
// set_register
// ---------------------------------------------------------------------------

/// A register write to make.
#[derive(Debug)]
pub struct RegisterWriteRequest {
    pub register_name: String,
    pub value: u64,
    pub thread_id: Option<u32>,
}

/// Reads the register to write (`register_name`, required), the value to
/// write (`value`, required) and the thread (`thread_id`).
pub fn register_write_request(arguments: &Arguments) -> (r: Result<RegisterWriteRequest, IncodeError>)
    ensures
        match as_text(lookup(arguments@, "register_name"@)) {
            None => r matches Err(IncodeError::Configuration(m)) && m@
                == "register_name is required"@,
            Some(name) => match flexible_u64(lookup(arguments@, "value"@)) {
                None => r matches Err(IncodeError::Configuration(m)) && m@
                    == "value is required and must be a number or hex string"@,
                Some(v) => r matches Ok(q) && q.register_name@ == name && q.value == v
                    && q.thread_id == thread_id_arg(arguments@),
            },
        },
{
    let register_name = match arg_str(arguments, "register_name") {
        Some(n) => n,
        None => {
            return Err(IncodeError::invalid_parameter("register_name is required"));
        },
    };
    let value = read_flexible_u64(arguments, "value");
    match value {
        Some(value) => Ok(
            RegisterWriteRequest {
                register_name,
                value,
                thread_id: optional_thread_id(arguments),
            },
        ),
        None => Err(
            IncodeError::invalid_parameter("value is required and must be a number or hex string"),
        ),
    }
}

/// The answer to the register write `q`, given whether the debugger took
/// the value (`outcome`), or the error it failed with.
pub fn set_register(q: &RegisterWriteRequest, outcome: Result<bool, IncodeError>) -> (j: Json)
    ensures
        j matches Json::Object(es) && match outcome {
            Ok(success) => {
                let es = es@;
                &&& es.len() == 6
                &&& has_value(es, 0, "success"@, Json::Bool(success))
                &&& has_text(es, 1, "register_name"@, q.register_name@)
                &&& has_text(es, 2, "new_value"@, hex_addr(q.value as nat))
                &&& has_value(es, 3, "decimal_value"@, Json::UInt(q.value))
                &&& es[4].0@ == "thread_id"@ && is_opt_u32_value(es[4].1, q.thread_id)
                &&& has_text(
                    es,
                    5,
                    "message"@,
                    if success {
                        "Register "@ + q.register_name@ + " successfully set to "@ + hex_addr(
                            q.value as nat,
                        )
                    } else {
                        "Failed to set register "@ + q.register_name@ + " to "@ + hex_addr(
                            q.value as nat,
                        )
                    },
                )
            },
            Err(e) => {
                let es = es@;
                &&& es.len() == 4
                &&& has_value(es, 0, "success"@, Json::Bool(false))
                &&& crate::error::has_known_text(e) ==> has_text(
                    es,
                    1,
                    "error"@,
                    crate::error::error_text(e),
                )
                &&& has_text(es, 2, "register_name"@, q.register_name@)
                &&& has_text(es, 3, "attempted_value"@, hex_addr(q.value as nat))
            },
        },
{
    match outcome {
        Ok(success) => {
            let mut msg = String::new();
            if success {
                push_str(&mut msg, "Register ");
                push_str(&mut msg, q.register_name.as_str());
                push_str(&mut msg, " successfully set to ");
            } else {
                push_str(&mut msg, "Failed to set register ");
                push_str(&mut msg, q.register_name.as_str());
                push_str(&mut msg, " to ");
            }
            let hex = hex_address(q.value);
            push_str(&mut msg, hex.as_str());
            let mut es: Vec<(String, Json)> = Vec::new();
            es.push(entry("success", Json::Bool(success)));
            es.push(entry("register_name", Json::Str(q.register_name.clone())));
            es.push(entry("new_value", Json::Str(hex)));
            es.push(entry("decimal_value", Json::UInt(q.value)));
            es.push(entry("thread_id", jopt_u32(q.thread_id)));
            es.push(entry("message", Json::Str(msg)));
            Json::Object(es)
        },
        Err(e) => {
            let mut es: Vec<(String, Json)> = Vec::new();
            es.push(entry("success", Json::Bool(false)));
            es.push(entry("error", Json::Str(e.message())));
            es.push(entry("register_name", Json::Str(q.register_name.clone())));
            es.push(entry("attempted_value", Json::Str(hex_address(q.value))));
            Json::Object(es)
        },
    }
}

// ---------------------------------------------------------------------------
// get_register_info
// ---------------------------------------------------------------------------

/// The `k` lowest binary digits of `n`, most significant first.
pub open spec fn binary_digits(n: nat, k: nat) -> Seq<char>
    decreases k,
{
    if k == 0 {
        Seq::empty()
    } else {
        binary_digits(n / 2, (k - 1) as nat).push(
            if n % 2 == 1 {
                '1'
            } else {
                '0'
            },
        )
    }
}

/// How many of the `k` lowest binary digits of `n` are ones.
pub open spec fn ones(n: nat, k: nat) -> nat
    decreases k,
{
    if k == 0 {
        0
    } else {
        ones(n / 2, (k - 1) as nat) + n % 2
    }
}

/// The width that a register size in bytes stands for.
pub open spec fn size_description(size: u32) -> Seq<char> {
    if size == 1 {
        "8-bit"@
    } else if size == 2 {
        "16-bit"@
    } else if size == 4 {
        "32-bit"@
    } else if size == 8 {
        "64-bit"@
    } else if size == 16 {
        "128-bit"@
    } else {
        "unknown"@
    }
}

/// `v` describes register `reg` in full: its value in hexadecimal, in
/// decimal and in 64 binary digits, with how many bits are set and clear.
pub open spec fn is_register_detail(v: Json, reg: RegisterInfo) -> bool {
    v matches Json::Object(es) && {
        let es = es@;
        &&& es.len() == 10
        &&& has_text(es, 0, "name"@, reg.name@)
        &&& has_text(es, 1, "value"@, hex_addr(reg.value as nat))
        &&& has_value(es, 2, "decimal_value"@, Json::UInt(reg.value))
        &&& has_value(es, 3, "size"@, Json::UInt(reg.size as u64))
        &&& has_text(es, 4, "size_description"@, size_description(reg.size))
        &&& has_text(es, 5, "format"@, reg.format@)
        &&& has_value(es, 6, "is_valid"@, Json::Bool(reg.is_valid))
        &&& has_text(es, 7, "binary_representation"@, binary_digits(reg.value as nat, 64))
        &&& has_value(es, 8, "bits_set"@, Json::UInt(ones(reg.value as nat, 64) as u64))
        &&& has_value(es, 9, "bits_clear"@, Json::UInt((64 - ones(reg.value as nat, 64)) as u64))
    }
}

fn push_binary_digits(s: &mut String, n: u64, k: u32)
    ensures
        final(s)@ == old(s)@ + binary_digits(n as nat, k as nat),
    decreases k,
{
    if k > 0 {
        push_binary_digits(s, n / 2, k - 1);
        push_char(
            s,
            if n % 2 == 1 {
                '1'
            } else {
                '0'
            },
        );
        assert(final(s)@ =~= old(s)@ + binary_digits(n as nat, k as nat));
    } else {
        assert(final(s)@ =~= old(s)@ + binary_digits(n as nat, k as nat));
    }
}

fn count_ones(n: u64, k: u32) -> (r: u32)
    requires
        k <= 64,
    ensures
        r == ones(n as nat, k as nat),
        r <= k,
    decreases k,
{
    if k == 0 {
        0
    } else {
        count_ones(n / 2, k - 1) + (n % 2) as u32
    }
}

/// How many times `c` occurs in `s`.
pub open spec fn occurrences(s: Seq<char>, c: char) -> nat
    decreases s.len(),
{
    if s.len() == 0 {
        0
    } else {
        occurrences(s.drop_last(), c) + if s.last() == c {
            1nat
        } else {
            0nat
        }
    }
}

/// The count of set bits is the number of `1` digits among the `k` binary
/// digits shown, and the count of clear bits the number of `0` digits; the
/// two make `k`.
pub proof fn law_bit_counts_match_digits(n: nat, k: nat)
    ensures
        binary_digits(n, k).len() == k,
        ones(n, k) == occurrences(binary_digits(n, k), '1'),
        k - ones(n, k) == occurrences(binary_digits(n, k), '0'),
        ones(n, k) <= k,
    decreases k,
{
    if k > 0 {
        law_bit_counts_match_digits(n / 2, (k - 1) as nat);
        let s = binary_digits(n, k);
        assert(s.drop_last() =~= binary_digits(n / 2, (k - 1) as nat));
    }
}

/// The count of set bits is the population count: no bit of zero is set,
/// and appending a bit `b` to `m` (the number `2m + b`) adds `b` to the
/// count.
pub proof fn law_ones_is_popcount(m: nat, b: nat, k: nat)
    requires
        b < 2,
    ensures
        ones(0, k) == 0,
        ones(2 * m + b, k + 1) == ones(m, k) + b,
    decreases k,
{
    if k > 0 {
        law_ones_is_popcount(0, 0, (k - 1) as nat);
    }
    assert((2 * m + b) / 2 == m && (2 * m + b) % 2 == b) by (nonlinear_arith)
        requires
            b < 2,
    ;
}

/// The binary form shows bit `i` of the value (its value divided by 2^i,
/// taken mod 2) in place `i` counted from the right: the last digit is the
/// lowest bit.
pub proof fn law_binary_digit_places(n: nat, k: nat, i: nat)
    requires
        i < k,
    ensures
        binary_digits(n, k).len() == k,
        binary_digits(n, k)[k - 1 - i] == if (n / vstd::arithmetic::power2::pow2(i)) % 2 == 1 {
            '1'
        } else {
            '0'
        },
    decreases k,
{
    law_bit_counts_match_digits(n, k);
    law_bit_counts_match_digits(n / 2, (k - 1) as nat);
    if i == 0 {
        vstd::arithmetic::power::lemma_pow0(2);
        assert(vstd::arithmetic::power2::pow2(0) == 1);
        assert(n / 1 == n);
    } else {
        law_binary_digit_places(n / 2, (k - 1) as nat, (i - 1) as nat);
        vstd::arithmetic::power2::lemma_pow2_unfold(i);
        vstd::arithmetic::power2::lemma_pow2_pos((i - 1) as nat);
        vstd::arithmetic::div_mod::lemma_div_denominator(
            n as int,
            2,
            vstd::arithmetic::power2::pow2((i - 1) as nat) as int,
        );
        assert(binary_digits(n, k)[k - 1 - i] == binary_digits(n / 2, (k - 1) as nat)[(k - 1)
            - 1 - (i - 1)]);
    }
}

/// A register description shows as many set bits as its 64-digit binary
/// form has `1` digits, and as many clear bits as it has `0` digits, which
/// make 64 together.
pub proof fn law_register_bit_counts(v: Json, reg: RegisterInfo)
    requires
        is_register_detail(v, reg),
    ensures
        v matches Json::Object(es) && {
            let es = es@;
            let digits = binary_digits(reg.value as nat, 64);
            &&& has_text(es, 7, "binary_representation"@, digits)
            &&& has_value(es, 8, "bits_set"@, Json::UInt(occurrences(digits, '1') as u64))
            &&& has_value(es, 9, "bits_clear"@, Json::UInt(occurrences(digits, '0') as u64))
            &&& occurrences(digits, '1') + occurrences(digits, '0') == 64
        },
{
    law_bit_counts_match_digits(reg.value as nat, 64);
}

fn size_text(size: u32) -> (r: &'static str)
    ensures
        r@ == size_description(size),
{
    if size == 1 {
        "8-bit"
    } else if size == 2 {
        "16-bit"
    } else if size == 4 {
        "32-bit"
    } else if size == 8 {
        "64-bit"
    } else if size == 16 {
        "128-bit"
    } else {
        "unknown"
    }
}

/// Describes register `register_name` of a thread (`thread_id`, the
/// selected one by default), once the host has looked the frame up
/// (`frame_valid`) and read its register sets (`register_sets`).
pub fn get_register_info(
    lldb_manager: &LldbManager,
    arguments: &Arguments,
    frame_valid: bool,
    register_sets: Option<&Vec<Option<Vec<RawRegister>>>>,
) -> (r: Result<Json, IncodeError>)
    ensures
        match as_text(lookup(arguments@, "register_name"@)) {
            None => r matches Err(IncodeError::Configuration(m)) && m@
                == "register_name is required"@,
            Some(name) => r matches Ok(j) && match register_read_failure(
                *lldb_manager,
                frame_valid,
                sets_view(register_sets),
            ) {
                Some(msg) => is_keyed_failure(j, msg, "register_name"@, name),
                None => {
                    let values = register_values(listed_registers(register_sets->0@));
                    if values.contains_key(name) {
                        j matches Json::Object(es) && es@.len() == 3 && has_value(
                            es@,
                            0,
                            "success"@,
                            Json::Bool(true),
                        ) && es@[1].0@ == "register_info"@ && (exists|reg: RegisterInfo|
                            #[trigger] is_register_entry(reg, name, values[name])
                                && is_register_detail(es@[1].1, reg)) && es@[2].0@ == "thread_id"@
                            && is_opt_u32_value(es@[2].1, thread_id_arg(arguments@))
                    } else {
                        is_keyed_failure(
                            j,
                            "Invalid configuration: "@ + ("Register '"@ + name + "' not found"@),
                            "register_name"@,
                            name,
                        )
                    }
                },
            },
        },
{
    let register_name = match arg_str(arguments, "register_name") {
        Some(n) => n,
        None => {
            return Err(IncodeError::invalid_parameter("register_name is required"));
        },
    };
    let thread_id = optional_thread_id(arguments);
    proof {
        reveal_strlit("No current thread selected");
        reveal_strlit("No current frame available");
        reveal_strlit("Cannot access registers");
    }
    match lldb_manager.get_register_info(
        register_name.as_str(),
        thread_id,
        frame_valid,
        register_sets,
    ) {
        Ok(reg) => {
            let mut bits = String::new();
            push_binary_digits(&mut bits, reg.value, 64);
            let set = count_ones(reg.value, 64);
            let mut ds: Vec<(String, Json)> = Vec::new();
            ds.push(entry("name", Json::Str(reg.name.clone())));
            ds.push(entry("value", Json::Str(hex_address(reg.value))));
            ds.push(entry("decimal_value", Json::UInt(reg.value)));
            ds.push(entry("size", Json::UInt(reg.size as u64)));
            ds.push(entry("size_description", jstr(size_text(reg.size))));
            ds.push(entry("format", Json::Str(reg.format.clone())));
            ds.push(entry("is_valid", Json::Bool(reg.is_valid)));
            ds.push(entry("binary_representation", Json::Str(bits)));
            ds.push(entry("bits_set", Json::UInt(set as u64)));
            ds.push(entry("bits_clear", Json::UInt((64 - set) as u64)));
            let detail = Json::Object(ds);
            assert(is_register_detail(detail, reg));
            let mut es: Vec<(String, Json)> = Vec::new();
            es.push(entry("success", Json::Bool(true)));
            es.push(entry("register_info", detail));
            es.push(entry("thread_id", jopt_u32(thread_id)));
            Ok(Json::Object(es))
        },
        Err(e) => Ok(failure_json_of(e.message(), "register_name", register_name)),
    }
}

/// `j` reports a failure with the message `msg`, naming `text` under
/// `key`.
pub open spec fn is_keyed_failure(j: Json, msg: Seq<char>, key: Seq<char>, text: Seq<char>) -> bool {
    j matches Json::Object(es) && {
        let es = es@;
        &&& es.len() == 3
        &&& has_value(es, 0, "success"@, Json::Bool(false))
        &&& has_text(es, 1, "error"@, msg)
        &&& has_text(es, 2, key, text)
    }
}

fn failure_json_of(msg: String, key: &str, text: String) -> (j: Json)
    ensures
        is_keyed_failure(j, msg@, key@, text@),
{
    let mut es: Vec<(String, Json)> = Vec::new();
    es.push(entry("success", Json::Bool(false)));
    es.push(entry("error", Json::Str(msg)));
    es.push(entry(key, Json::Str(text)));
    Json::Object(es)
}

// ---------------------------------------------------------------------------
// save_register_state
// ---------------------------------------------------------------------------

/// `v` describes the saved value of register `reg`: in hexadecimal and in
/// decimal and, with metadata, its size, format and validity.
pub open spec fn is_saved_register(v: Json, reg: RegisterInfo, metadata: bool) -> bool {
    v matches Json::Object(es) && {
        let es = es@;
        &&& es.len() == if metadata {
            5int
        } else {
            2int
        }
        &&& has_text(es, 0, "value"@, hex_addr(reg.value as nat))
        &&& has_value(es, 1, "decimal_value"@, Json::UInt(reg.value))
        &&& metadata ==> {
            &&& has_value(es, 2, "size"@, Json::UInt(reg.size as u64))
            &&& has_text(es, 3, "format"@, reg.format@)
            &&& has_value(es, 4, "is_valid"@, Json::Bool(reg.is_valid))
        }
    }
}

/// `j` holds the saved registers `regs`, each under its name, with the
/// time they were read, `nanos` nanoseconds after the Unix epoch, in whole
/// seconds and as an identifier for the state (the hexadecimal form of the
/// nanoseconds modulo `u64::MAX`).
pub open spec fn is_saved_state(
    j: Json,
    regs: Seq<RegisterInfo>,
    metadata: bool,
    thread_id: Option<u32>,
    nanos: nat,
) -> bool {
    j matches Json::Object(es) && {
        let es = es@;
        &&& es.len() == 3
        &&& has_value(es, 0, "success"@, Json::Bool(true))
        &&& es[1].0@ == "register_state"@
        &&& es[1].1 matches Json::Object(st) && {
            let st = st@;
            &&& st.len() == 6
            &&& st[0].0@ == "registers"@
            &&& (st[0].1 matches Json::Object(rs) && rs@.len() == regs.len() && forall|i: int|
                0 <= i < regs.len() ==> (#[trigger] rs@[i]).0@ == regs[i].name@ && is_saved_register(
                    rs@[i].1,
                    regs[i],
                    metadata,
                ))
            &&& has_value(st, 1, "register_count"@, Json::UInt(regs.len() as u64))
            &&& st[2].0@ == "thread_id"@ && is_opt_u32_value(st[2].1, thread_id)
            &&& st[3].0@ == "frame_index"@ && is_opt_u32_value(st[3].1, Some(0u32))
            &&& has_value(st, 4, "timestamp"@, Json::UInt((nanos / 1_000_000_000) as u64))
            &&& has_text(st, 5, "state_id"@, hex_str(nanos % (u64::MAX as nat)))
        }
        &&& has_text(
            es,
            2,
            "message"@,
            "Register state saved with "@ + dec_str(regs.len()) + " registers"@,
        )
    }
}

fn saved_register(reg: &RegisterInfo, metadata: bool) -> (v: Json)
    ensures
        is_saved_register(v, *reg, metadata),
{
    let mut es: Vec<(String, Json)> = Vec::new();
    es.push(entry("value", Json::Str(hex_address(reg.value))));
    es.push(entry("decimal_value", Json::UInt(reg.value)));
    if metadata {
        es.push(entry("size", Json::UInt(reg.size as u64)));
        es.push(entry("format", Json::Str(reg.format.clone())));
        es.push(entry("is_valid", Json::Bool(reg.is_valid)));
    }
    Json::Object(es)
}

/// Describes the saved registers `regs`, read for thread `thread_id` in
/// the first frame `nanos` nanoseconds after the Unix epoch.
pub fn saved_state(regs: &Vec<RegisterInfo>, metadata: bool, thread_id: Option<u32>, nanos: u128) -> (j:
    Json)
    requires
        nanos < (u64::MAX as int + 1) * 1_000_000_000,
    ensures
        is_saved_state(j, regs@, metadata, thread_id, nanos as nat),
{
    let mut rs: Vec<(String, Json)> = Vec::new();
    let mut i: usize = 0;
    while i < regs.len()
        invariant
            i <= regs@.len(),
            rs@.len() == i,
            forall|k: int|
                0 <= k < i ==> (#[trigger] rs@[k]).0@ == regs@[k].name@ && is_saved_register(
                    rs@[k].1,
                    regs@[k],
                    metadata,
                ),
        decreases regs@.len() - i,
    {
        rs.push((regs[i].name.clone(), saved_register(&regs[i], metadata)));
        i = i + 1;
    }
    let secs = (nanos / 1_000_000_000) as u64;
    let id = (nanos % 0xffff_ffff_ffff_ffff) as u64;
    let mut id_text = String::new();
    push_hex(&mut id_text, id);
    let mut st: Vec<(String, Json)> = Vec::new();
    st.push(entry("registers", Json::Object(rs)));
    st.push(entry("register_count", Json::UInt(regs.len() as u64)));
    st.push(entry("thread_id", jopt_u32(thread_id)));
    st.push(entry("frame_index", jopt_u32(Some(0))));
    st.push(entry("timestamp", Json::UInt(secs)));
    st.push(entry("state_id", Json::Str(id_text)));
    let mut msg = String::new();
    push_str(&mut msg, "Register state saved with ");
    push_dec(&mut msg, regs.len() as u64);
    push_str(&mut msg, " registers");
    let mut es: Vec<(String, Json)> = Vec::new();
    es.push(entry("success", Json::Bool(true)));
    es.push(entry("register_state", Json::Object(st)));
    es.push(entry("message", Json::Str(msg)));
    Json::Object(es)
}

/// Saves the registers of a thread (`thread_id`, the selected one by
/// default), once the host has looked the frame up (`frame_valid`) and
/// read its register sets (`register_sets`), with their metadata unless
/// `include_metadata` is false.
pub fn save_register_state(
    lldb_manager: &LldbManager,
    arguments: &Arguments,
    frame_valid: bool,
    register_sets: Option<&Vec<Option<Vec<RawRegister>>>>,
) -> (r: Result<Json, IncodeError>)
    ensures
        r matches Ok(j) && match register_read_failure(
            *lldb_manager,
            frame_valid,
            sets_view(register_sets),
        ) {
            Some(msg) => j matches Json::Object(es) && es@.len() == 2 && has_value(
                es@,
                0,
                "success"@,
                Json::Bool(false),
            ) && has_text(es@, 1, "error"@, msg),
            None => exists|regs: Seq<RegisterInfo>, nanos: nat|
                #[trigger] is_register_table(
                    regs,
                    register_values(listed_registers(register_sets->0@)),
                ) && #[trigger] is_saved_state(
                    j,
                    regs,
                    flag_arg(arguments@, "include_metadata"@, true),
                    thread_id_arg(arguments@),
                    nanos,
                ),
        },
{
    let thread_id = optional_thread_id(arguments);
    let include_metadata = arg_bool_or(arguments, "include_metadata", true);
    proof {
        reveal_strlit("No current thread selected");
        reveal_strlit("No current frame available");
        reveal_strlit("Cannot access registers");
    }
    match lldb_manager.save_register_state(thread_id, frame_valid, register_sets) {
        Ok(state) => {
            let nanos = epoch_nanos(&state.timestamp);
            let j = saved_state(&state.registers, include_metadata, state.thread_id, nanos);
            assert(is_register_table(
                state.registers@,
                register_values(listed_registers(register_sets->0@)),
            ));
            assert(is_saved_state(
                j,
                state.registers@,
                flag_arg(arguments@, "include_metadata"@, true),
                thread_id_arg(arguments@),
                nanos as nat,
            ));
            Ok(j)
        },
        Err(e) => {
            let mut es: Vec<(String, Json)> = Vec::new();
            es.push(entry("success", Json::Bool(false)));
            es.push(entry("error", Json::Str(e.message())));
            Ok(Json::Object(es))
        },
    }
}

/// Reads all registers.
#[derive(Debug)]
pub struct GetRegistersTool;

impl GetRegistersTool {
    pub fn name(&self) -> (r: &'static str)
        ensures
            r@ == "get_registers"@,
    {
        "get_registers"
    }

    pub fn description(&self) -> (r: &'static str)
        ensures
            r@ == "Get all CPU registers for current thread"@,
    {
        "Get all CPU registers for current thread"
    }
}

/// Writes a register.
#[derive(Debug)]
pub struct SetRegisterTool;

impl SetRegisterTool {
    pub fn name(&self) -> (r: &'static str)
        ensures
            r@ == "set_register"@,
    {
        "set_register"
    }

    pub fn description(&self) -> (r: &'static str)
        ensures
            r@ == "Modify register value"@,
    {
        "Modify register value"
    }
}

/// Describes one register.
#[derive(Debug)]
pub struct GetRegisterInfoTool;

impl GetRegisterInfoTool {
    pub fn name(&self) -> (r: &'static str)
        ensures
            r@ == "get_register_info"@,
    {
        "get_register_info"
    }

    pub fn description(&self) -> (r: &'static str)
        ensures
            r@ == "Get detailed register information"@,
    {
        "Get detailed register information"
    }
}

/// Saves all registers.
#[derive(Debug)]
pub struct SaveRegisterStateTool;

impl SaveRegisterStateTool {
    pub fn name(&self) -> (r: &'static str)
        ensures
            r@ == "save_register_state"@,
    {
        "save_register_state"
    }

    pub fn description(&self) -> (r: &'static str)
        ensures
            r@ == "Save current register state"@,
    {
        "Save current register state"
    }
}

} // verus!
