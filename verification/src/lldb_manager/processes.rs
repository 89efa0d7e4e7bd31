//! The processes of the system, read from the table that
//! `ps -eo pid,ppid,state,comm,rss` prints.

use vstd::prelude::*;
use crate::error::{fails_op, IncodeError};
use crate::json::opt_view;
use crate::lldb_manager::{LldbManager, ProcessInfo};
use crate::text::{
    has_substr, parse_bounded, parse_unsigned_str, push_str, split_lines, split_words,
    str_contains, text_lines, views, words,
};

verus! {

broadcast use vstd::string::group_string_axioms;

/// One row of the process table: process id, parent id, state, command
/// and resident size in kilobytes.
pub type PsRow = (u32, u32, Seq<char>, Seq<char>, u64);

/// The decimal number `s` of at most `max`, or `default` where `s` does
/// not read as one.
pub open spec fn decimal_or(s: Seq<char>, max: nat, default: nat) -> nat {
    match parse_bounded(s, 10, max) {
        Some(v) => v,
        None => default,
    }
}

/// The row a line of the table gives: one with at least five words whose
/// first reads as a process id. A parent id or size that does not read as
/// a number counts as zero.
pub open spec fn ps_row(line: Seq<char>) -> Option<PsRow> {
    let f = words(line);
    if f.len() >= 5 {
        match parse_bounded(f[0], 10, u32::MAX as nat) {
            Some(pid) => Some(
                (
                    pid as u32,
                    decimal_or(f[1], u32::MAX as nat, 0) as u32,
                    f[2],
                    f[3],
                    decimal_or(f[4], u64::MAX as nat, 0) as u64,
                ),
            ),
            None => None,
        }
    } else {
        None
    }
}

/// A row is listed: system processes (process 1, and those whose parent
/// is 0) only where they are asked for, and only commands that contain the
/// filter where one is given.
pub open spec fn ps_row_listed(row: PsRow, filter: Option<Seq<char>>, include_system: bool) -> bool {
    let (pid, ppid, _state, comm, _rss) = row;
    &&& include_system || !(pid == 1 || ppid == 0)
    &&& match filter {
        Some(f) => has_substr(comm, f),
        None => true,
    }
}

/// The listed rows of `lines`, in order.
pub open spec fn ps_rows(lines: Seq<Seq<char>>, filter: Option<Seq<char>>, include_system: bool) -> Seq<
    PsRow,
>
    decreases lines.len(),
{
    if lines.len() == 0 {
        Seq::empty()
    } else {
        let before = ps_rows(lines.drop_last(), filter, include_system);
        match ps_row(lines.last()) {
            Some(row) => if ps_row_listed(row, filter, include_system) {
                before.push(row)
            } else {
                before
            },
            None => before,
        }
    }
}

/// The lines of a table after its header.
pub open spec fn table_body(lines: Seq<Seq<char>>) -> Seq<Seq<char>> {
    if lines.len() == 0 {
        lines
    } else {
        lines.drop_first()
    }
}

/// `p` describes the row `row`: its command is taken for the executable
/// path, and its size is given in bytes (kilobytes times 1024, wrapping
/// around at 2^64).
pub open spec fn is_process_of_row(p: ProcessInfo, row: PsRow) -> bool {
    let (pid, _ppid, state, comm, rss) = row;
    &&& p.pid == pid
    &&& p.state@ == state
    &&& opt_view(p.executable_path) == Some(comm)
    &&& p.memory_usage == Some(vstd::wrapping::u64_specs::wrapping_mul(rss, 1024))
}

/// The processes that the table `table` lists.
pub fn processes_from_table(table: &str, filter: Option<&str>, include_system: bool) -> (r: Vec<
    ProcessInfo,
>)
    ensures
        r@.len() == ps_rows(
            table_body(text_lines(table@)),
            crate::lldb_manager::str_opt(filter),
            include_system,
        ).len(),
        forall|k: int|
            0 <= k < r@.len() ==> is_process_of_row(
                #[trigger] r@[k],
                ps_rows(
                    table_body(text_lines(table@)),
                    crate::lldb_manager::str_opt(filter),
                    include_system,
                )[k],
            ),
{
    let lines = split_lines(table);
    let ghost all = views(lines@);
    let ghost body = table_body(all);
    let ghost fv = crate::lldb_manager::str_opt(filter);
    let mut out: Vec<ProcessInfo> = Vec::new();
    if lines.len() == 0 {
        return out;
    }
    let mut i: usize = 1;
    assert(body.take(0) =~= Seq::<Seq<char>>::empty());
    while i < lines.len()
        invariant
            1 <= i <= lines@.len(),
            all == views(lines@),
            body == all.drop_first(),
            fv == crate::lldb_manager::str_opt(filter),
            out@.len() == ps_rows(body.take(i - 1), fv, include_system).len(),
            forall|k: int|
                0 <= k < out@.len() ==> is_process_of_row(
                    #[trigger] out@[k],
                    ps_rows(body.take(i - 1), fv, include_system)[k],
                ),
        decreases lines@.len() - i,
    {
        let line = &lines[i];
        let ghost before = ps_rows(body.take(i - 1), fv, include_system);
        assert(body[i - 1] == line@);
        assert(body.take(i as int).drop_last() =~= body.take(i - 1));
        assert(body.take(i as int).last() == line@);
        let fields = split_words(line.as_str());
        let ghost f = views(fields@);
        if fields.len() >= 5 {
            assert(f[0] == fields@[0]@ && f[1] == fields@[1]@ && f[2] == fields@[2]@ && f[3]
                == fields@[3]@ && f[4] == fields@[4]@);
            match parse_unsigned_str(fields[0].as_str(), 10, 0xffff_ffff) {
                Some(pid) => {
                    let ppid: u64 = match parse_unsigned_str(fields[1].as_str(), 10, 0xffff_ffff) {
                        Some(v) => v,
                        None => 0,
                    };
                    let rss_kb: u64 = match parse_unsigned_str(
                        fields[4].as_str(),
                        10,
                        0xffff_ffff_ffff_ffff,
                    ) {
                        Some(v) => v,
                        None => 0,
                    };
                    let pid = pid as u32;
                    let ppid = ppid as u32;
                    let system_ok = include_system || !(pid == 1 || ppid == 0);
                    let filter_ok = match filter {
                        Some(flt) => str_contains(fields[3].as_str(), flt),
                        None => true,
                    };
                    if system_ok && filter_ok {
                        let info = ProcessInfo {
                            pid,
                            state: fields[2].clone(),
                            executable_path: Some(fields[3].clone()),
                            memory_usage: Some(rss_kb.wrapping_mul(1024)),
                        };
                        let ghost old_out = out@;
                        out.push(info);
                        assert forall|k: int| 0 <= k < out@.len() implies is_process_of_row(
                            #[trigger] out@[k],
                            ps_rows(body.take(i + 1 - 1), fv, include_system)[k],
                        ) by {
                            if k < old_out.len() {
                                assert(out@[k] == old_out[k]);
                            }
                        }
                    }
                },
                None => {},
            }
        }
        i = i + 1;
    }
    assert(body.take(lines@.len() - 1) =~= body);
    out
}

impl LldbManager {
    /// The processes of the system, from what running `ps -eo
    /// pid,ppid,state,comm,rss` gave: the text of the error where it could
    /// not be started, else whether it succeeded and what it printed.
    pub fn list_processes(
        &self,
        filter: Option<&str>,
        include_system: bool,
        ps_run: Result<(bool, String), String>,
    ) -> (r: Result<Vec<ProcessInfo>, IncodeError>)
        ensures
            match ps_run {
                Err(e) => fails_op(r, "Failed to execute ps command: "@ + e@),
                Ok((false, _)) => fails_op(r, "ps command failed"@),
                Ok((true, table)) => r matches Ok(ps) && {
                    let rows = ps_rows(
                        table_body(text_lines(table@)),
                        crate::lldb_manager::str_opt(filter),
                        include_system,
                    );
                    &&& ps@.len() == rows.len()
                    &&& forall|k: int|
                        0 <= k < ps@.len() ==> is_process_of_row(#[trigger] ps@[k], rows[k])
                },
            },
    {
        match ps_run {
            Err(e) => {
                let mut msg = String::new();
                push_str(&mut msg, "Failed to execute ps command: ");
                push_str(&mut msg, e.as_str());
                Err(IncodeError::LldbOperation(msg))
            },
            Ok((success, table)) => {
                if !success {
                    return Err(IncodeError::lldb_op("ps command failed"));
                }
                Ok(processes_from_table(table.as_str(), filter, include_system))
            },
        }
    }
}

/// The row a table line gives where it is listed, none otherwise.
pub open spec fn listed_row(line: Seq<char>, filter: Option<Seq<char>>, include_system: bool) -> Option<PsRow> {
    match ps_row(line) {
        Some(row) => if ps_row_listed(row, filter, include_system) {
            Some(row)
        } else {
            None
        },
        None => None,
    }
}

/// The processes listed are the table's rows, in the table's order, that
/// have at least five fields and a numeric process id and that pass the
/// system and command filters: each listed row comes from a line of the
/// table, and each line whose row passes is listed.
pub proof fn law_process_rows_in_order(lines: Seq<Seq<char>>, filter: Option<Seq<char>>, include_system: bool)
    ensures
        ps_rows(lines, filter, include_system) == lines.filter_map(
            |l: Seq<char>| listed_row(l, filter, include_system),
        ),
        forall|i: int|
            0 <= i < lines.len() && #[trigger] listed_row(lines[i], filter, include_system) is Some
                ==> ps_rows(lines, filter, include_system).contains(
                listed_row(lines[i], filter, include_system)->0,
            ),
    decreases lines.len(),
{
    let f = |l: Seq<char>| listed_row(l, filter, include_system);
    if lines.len() > 0 {
        law_process_rows_in_order(lines.drop_last(), filter, include_system);
        let before = ps_rows(lines.drop_last(), filter, include_system);
        assert(ps_rows(lines, filter, include_system) =~= lines.filter_map(f));
        assert forall|i: int|
            0 <= i < lines.len() && #[trigger] listed_row(lines[i], filter, include_system) is Some
                implies ps_rows(lines, filter, include_system).contains(
            listed_row(lines[i], filter, include_system)->0,
        ) by {
            let row = listed_row(lines[i], filter, include_system)->0;
            if i < lines.len() - 1 {
                assert(lines.drop_last()[i] == lines[i]);
                assert(before.contains(row));
                let k = choose|k: int| 0 <= k < before.len() && before[k] == row;
                if f(lines.last()) is Some {
                    assert(ps_rows(lines, filter, include_system)[k] == row);
                } else {
                    assert(ps_rows(lines, filter, include_system) == before);
                }
            } else {
                assert(lines[i] == lines.last());
                let all = ps_rows(lines, filter, include_system);
                assert(all[all.len() - 1] == row);
            }
        }
    } else {
        assert(lines.filter_map(f) =~= Seq::<PsRow>::empty());
    }
}

} // verus!
