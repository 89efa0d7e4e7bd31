//! The registers of the selected thread: reading them into a table with
//! one entry per name, looking one up, and choosing the one to write.

use vstd::prelude::*;
use crate::error::{fails_config, fails_frame, fails_thread, IncodeError};
use crate::lldb_manager::{current_time, LldbManager, RegisterInfo, RegisterState};
use crate::text::{hex_str, push_hex, push_str, str_eq};

verus! {

broadcast use vstd::string::group_string_axioms;

/// A register as the engine reported it. A register whose value object or
/// name the engine could not give has no name.
#[derive(Debug)]
pub struct RawRegister {
    pub name: Option<String>,
    pub value: u64,
}

/// The registers of all register sets, set after set, each set in its
/// order; a set the engine could not give contributes none.
pub open spec fn listed_registers(sets: Seq<Option<Vec<RawRegister>>>) -> Seq<RawRegister>
    decreases sets.len(),
{
    if sets.len() == 0 {
        Seq::empty()
    } else {
        listed_registers(sets.drop_last()) + match sets.last() {
            Some(set) => set@,
            None => Seq::empty(),
        }
    }
}

/// The value of each register name, read in order: a later register of the
/// same name replaces an earlier one, and a register without a name is
/// skipped.
pub open spec fn register_values(regs: Seq<RawRegister>) -> Map<Seq<char>, u64>
    decreases regs.len(),
{
    if regs.len() == 0 {
        Map::empty()
    } else {
        let before = register_values(regs.drop_last());
        match regs.last().name {
            Some(n) => before.insert(n@, regs.last().value),
            None => before,
        }
    }
}

/// `r` is the entry that a register table holds for a register of name
/// `name` and value `value`: eight bytes, general, shown in hexadecimal.
pub open spec fn is_register_entry(r: RegisterInfo, name: Seq<char>, value: u64) -> bool {
    &&& r.name@ == name
    &&& r.value == value
    &&& r.size == 8
    &&& r.register_type@ == "general"@
    &&& r.format@ == "hex"@
    &&& r.is_valid
}

/// `regs` holds one entry for each name of `values`, with its value, and
/// nothing else.
pub open spec fn is_register_table(regs: Seq<RegisterInfo>, values: Map<Seq<char>, u64>) -> bool {
    &&& forall|i: int, j: int|
        0 <= i < j < regs.len() ==> (#[trigger] regs[i]).name@ != (#[trigger] regs[j]).name@
    &&& forall|i: int|
        0 <= i < regs.len() ==> values.contains_key((#[trigger] regs[i]).name@) && is_register_entry(
            regs[i],
            regs[i].name@,
            values[regs[i].name@],
        )
    &&& forall|k: Seq<char>|
        #[trigger] values.contains_key(k) ==> exists|i: int|
            0 <= i < regs.len() && (#[trigger] regs[i]).name@ == k
}

/// The position of the entry named `name`, if there is one.
fn table_position(table: &Vec<RegisterInfo>, name: &str) -> (r: Option<usize>)
    ensures
        match r {
            Some(i) => i < table@.len() && table@[i as int].name@ == name@,
            None => forall|i: int| 0 <= i < table@.len() ==> (#[trigger] table@[i]).name@ != name@,
        },
{
    let mut i: usize = 0;
    while i < table.len()
        invariant
            i <= table@.len(),
            forall|k: int| 0 <= k < i ==> (#[trigger] table@[k]).name@ != name@,
        decreases table@.len() - i,
    {
        if str_eq(table[i].name.as_str(), name) {
            return Some(i);
        }
        i = i + 1;
    }
    None
}

/// Records that the register `name` holds `value`, replacing the entry of
/// that name if there is one.
fn record_register(table: &mut Vec<RegisterInfo>, name: &str, value: u64, Ghost(values): Ghost<
    Map<Seq<char>, u64>,
>)
    requires
        is_register_table(old(table)@, values),
    ensures
        is_register_table(final(table)@, values.insert(name@, value)),
{
    let entry = RegisterInfo {
        name: name.to_owned(),
        value,
        size: 8,
        register_type: "general".to_owned(),
        format: "hex".to_owned(),
        is_valid: true,
    };
    let ghost before = table@;
    let ghost after_values = values.insert(name@, value);
    match table_position(table, name) {
        Some(i) => {
            table.set(i, entry);
            assert forall|k: Seq<char>| #[trigger] after_values.contains_key(k) implies exists|j: int|
                0 <= j < table@.len() && (#[trigger] table@[j]).name@ == k by {
                if k == name@ {
                    assert(table@[i as int].name@ == k);
                } else {
                    let j = choose|j: int| 0 <= j < before.len() && (#[trigger] before[j]).name@ == k;
                    assert(table@[j].name@ == k);
                }
            }
        },
        None => {
            table.push(entry);
            assert forall|k: Seq<char>| #[trigger] after_values.contains_key(k) implies exists|j: int|
                0 <= j < table@.len() && (#[trigger] table@[j]).name@ == k by {
                if k == name@ {
                    assert(table@[before.len() as int].name@ == k);
                } else {
                    let j = choose|j: int| 0 <= j < before.len() && (#[trigger] before[j]).name@ == k;
                    assert(table@[j].name@ == k);
                }
            }
        },
    }
}

/// The table of the registers of `sets`: one entry per name, holding the
/// value of the last register of that name.
pub fn register_table(sets: &Vec<Option<Vec<RawRegister>>>) -> (table: Vec<RegisterInfo>)
    ensures
        is_register_table(table@, register_values(listed_registers(sets@))),
{
    let mut table: Vec<RegisterInfo> = Vec::new();
    let mut i: usize = 0;
    assert(sets@.take(0) =~= Seq::<Option<Vec<RawRegister>>>::empty());
    while i < sets.len()
        invariant
            i <= sets@.len(),
            is_register_table(table@, register_values(listed_registers(sets@.take(i as int)))),
        decreases sets@.len() - i,
    {
        let ghost done = listed_registers(sets@.take(i as int));
        assert(sets@.take(i + 1).drop_last() =~= sets@.take(i as int));
        match &sets[i] {
            Some(set) => {
                let mut j: usize = 0;
                assert(done + set@.take(0) =~= done);
                while j < set.len()
                    invariant
                        j <= set@.len(),
                        is_register_table(table@, register_values(done + set@.take(j as int))),
                    decreases set@.len() - j,
                {
                    let ghost before = register_values(done + set@.take(j as int));
                    assert((done + set@.take(j + 1)).drop_last() =~= done + set@.take(j as int));
                    assert((done + set@.take(j + 1)).last() == set@[j as int]);
                    match &set[j].name {
                        Some(n) => {
                            record_register(&mut table, n.as_str(), set[j].value, Ghost(before));
                        },
                        None => {},
                    }
                    j = j + 1;
                }
                assert(done + set@.take(set@.len() as int) =~= listed_registers(
                    sets@.take(i + 1),
                ));
            },
            None => {
                assert(done =~= listed_registers(sets@.take(i + 1)));
            },
        }
        i = i + 1;
    }
    assert(sets@.take(sets@.len() as int) =~= sets@);
    table
}

/// `r` is what reading the registers gives when the thread and frame
/// checks fail or pass: an error of kind `ThreadError` without a selected
/// thread, of kind `FrameError` without a frame or register list, else the
/// table of the reported registers.
pub open spec fn is_register_read(
    m: LldbManager,
    r: Result<RegisterState, IncodeError>,
    thread_id: Option<u32>,
    frame_valid: bool,
    register_sets: Option<Seq<Option<Vec<RawRegister>>>>,
) -> bool {
    if !m.thread_selected() {
        fails_thread(r, "No current thread selected"@)
    } else if !frame_valid {
        fails_frame(r, "No current frame available"@)
    } else if register_sets is None {
        fails_frame(r, "Cannot access registers"@)
    } else {
        r matches Ok(st) && is_register_table(
            st.registers@,
            register_values(listed_registers(register_sets->0)),
        ) && st.thread_id == thread_id && st.frame_index == Some(0u32)
    }
}

/// The view of an optional list of register sets.
pub open spec fn sets_view(o: Option<&Vec<Option<Vec<RawRegister>>>>) -> Option<
    Seq<Option<Vec<RawRegister>>>,
> {
    match o {
        Some(v) => Some(v@),
        None => None,
    }
}

/// Where the register to write stands: the set and the position in it.
#[derive(Debug)]
pub struct RegisterWrite {
    pub set_index: usize,
    pub register_index: usize,
    /// The text the register is written with: `0x` and the value in
    /// lowercase hexadecimal.
    pub value_text: String,
}

/// The register at position `j` of set `i` is named `name`.
pub open spec fn names_register(
    sets: Seq<Option<Vec<RawRegister>>>,
    i: int,
    j: int,
    name: Seq<char>,
) -> bool {
    &&& 0 <= i < sets.len()
    &&& sets[i] is Some
    &&& 0 <= j < sets[i]->0@.len()
    &&& sets[i]->0@[j].name matches Some(n) && n@ == name
}

/// The first register named `name`, sets in order and each set in order.
fn locate_register(sets: &Vec<Option<Vec<RawRegister>>>, name: &str) -> (r: Option<(usize, usize)>)
    ensures
        match r {
            Some((i, j)) => names_register(sets@, i as int, j as int, name@) && forall|a: int, b: int|
                (a < i || (a == i && b < j)) ==> !#[trigger] names_register(sets@, a, b, name@),
            None => forall|a: int, b: int| !#[trigger] names_register(sets@, a, b, name@),
        },
{
    let mut i: usize = 0;
    while i < sets.len()
        invariant
            i <= sets@.len(),
            forall|a: int, b: int| a < i ==> !#[trigger] names_register(sets@, a, b, name@),
        decreases sets@.len() - i,
    {
        match &sets[i] {
            Some(set) => {
                let mut j: usize = 0;
                while j < set.len()
                    invariant
                        j <= set@.len(),
                        i < sets@.len(),
                        sets@[i as int] == Some(*set),
                        forall|a: int, b: int| a < i ==> !#[trigger] names_register(sets@, a, b, name@),
                        forall|b: int| b < j ==> !#[trigger] names_register(sets@, i as int, b, name@),
                    decreases set@.len() - j,
                {
                    match &set[j].name {
                        Some(n) => {
                            if str_eq(n.as_str(), name) {
                                return Some((i, j));
                            }
                        },
                        None => {},
                    }
                    j = j + 1;
                }
            },
            None => {},
        }
        i = i + 1;
    }
    None
}

/// A register table holds one entry for each register name, no more.
pub proof fn lemma_register_table_len(regs: Seq<RegisterInfo>, values: Map<Seq<char>, u64>)
    requires
        is_register_table(regs, values),
    ensures
        values.dom().finite(),
        regs.len() == values.dom().len(),
{
    let names = regs.map_values(|r: RegisterInfo| r.name@);
    assert forall|i: int, j: int|
        0 <= i < names.len() && 0 <= j < names.len() && i != j implies names[i] != names[j] by {
        assert(names[i] == regs[i].name@);
        assert(names[j] == regs[j].name@);
        if i < j {
            assert(regs[i].name@ != regs[j].name@);
        } else {
            assert(regs[j].name@ != regs[i].name@);
        }
    }
    assert(names.no_duplicates());
    assert forall|k: Seq<char>| names.to_set().contains(k) <==> values.dom().contains(k) by {
        if names.contains(k) {
            let i = choose|i: int| 0 <= i < names.len() && names[i] == k;
            assert(names[i] == regs[i].name@);
        }
        if values.contains_key(k) {
            let i = choose|i: int| 0 <= i < regs.len() && (#[trigger] regs[i]).name@ == k;
            assert(names[i] == k);
        }
    }
    assert(names.to_set() =~= values.dom());
    names.unique_seq_to_set();
    vstd::seq_lib::seq_to_set_is_finite(names);
}

impl LldbManager {
    /// The registers of the selected thread's frame, once the host has
    /// looked the frame up (`frame_valid`) and read its register sets
    /// (`register_sets`, none when the engine gave no register list).
    pub fn get_registers(
        &self,
        thread_id: Option<u32>,
        include_metadata: bool,
        frame_valid: bool,
        register_sets: Option<&Vec<Option<Vec<RawRegister>>>>,
    ) -> (r: Result<RegisterState, IncodeError>)
        ensures
            is_register_read(*self, r, thread_id, frame_valid, sets_view(register_sets)),
    {
        if !self.has_thread {
            return Err(IncodeError::thread("No current thread selected"));
        }
        if !frame_valid {
            return Err(IncodeError::frame("No current frame available"));
        }
        match register_sets {
            None => Err(IncodeError::frame("Cannot access registers")),
            Some(sets) => {
                let registers = register_table(sets);
                Ok(RegisterState {
                    registers,
                    timestamp: current_time(),
                    thread_id,
                    frame_index: Some(0),
                })
            },
        }
    }

    /// The registers as `get_registers` reads them, kept to be restored.
    pub fn save_register_state(
        &self,
        thread_id: Option<u32>,
        frame_valid: bool,
        register_sets: Option<&Vec<Option<Vec<RawRegister>>>>,
    ) -> (r: Result<RegisterState, IncodeError>)
        ensures
            is_register_read(*self, r, thread_id, frame_valid, sets_view(register_sets)),
    {
        self.get_registers(thread_id, true, frame_valid, register_sets)
    }

    /// The register named `register_name` as `get_registers` reads it.
    pub fn get_register_info(
        &self,
        register_name: &str,
        thread_id: Option<u32>,
        frame_valid: bool,
        register_sets: Option<&Vec<Option<Vec<RawRegister>>>>,
    ) -> (r: Result<RegisterInfo, IncodeError>)
        ensures
            !self.thread_selected() ==> fails_thread(r, "No current thread selected"@),
            self.thread_selected() && !frame_valid ==> fails_frame(r, "No current frame available"@),
            self.thread_selected() && frame_valid && register_sets is None ==> fails_frame(
                r,
                "Cannot access registers"@,
            ),
            self.thread_selected() && frame_valid && register_sets is Some ==> {
                let values = register_values(listed_registers(register_sets->0@));
                if values.contains_key(register_name@) {
                    r matches Ok(info) && is_register_entry(
                        info,
                        register_name@,
                        values[register_name@],
                    )
                } else {
                    fails_config(r, "Register '"@ + register_name@ + "' not found"@)
                }
            },
    {
        let state = self.get_registers(thread_id, true, frame_valid, register_sets)?;
        let mut registers = state.registers;
        match table_position(&registers, register_name) {
            Some(i) => Ok(registers.remove(i)),
            None => {
                let mut msg = String::new();
                push_str(&mut msg, "Register '");
                push_str(&mut msg, register_name);
                push_str(&mut msg, "' not found");
                Err(IncodeError::Configuration(msg))
            },
        }
    }

    /// Chooses the register to write `value` into: the first one named
    /// `register_name`. The host writes `value_text` into it and reports
    /// whether the engine took the value.
    pub fn set_register(
        &mut self,
        register_name: &str,
        value: u64,
        thread_id: Option<u32>,
        frame_valid: bool,
        register_sets: Option<&Vec<Option<Vec<RawRegister>>>>,
    ) -> (r: Result<RegisterWrite, IncodeError>)
        ensures
            *final(self) == *old(self),
            !old(self).thread_selected() ==> fails_thread(r, "No current thread selected"@),
            old(self).thread_selected() && !frame_valid ==> fails_frame(
                r,
                "No current frame available"@,
            ),
            old(self).thread_selected() && frame_valid && register_sets is None ==> fails_frame(
                r,
                "Cannot access registers"@,
            ),
            old(self).thread_selected() && frame_valid && register_sets is Some ==> match r {
                Ok(w) => {
                    &&& names_register(
                        register_sets->0@,
                        w.set_index as int,
                        w.register_index as int,
                        register_name@,
                    )
                    &&& forall|a: int, b: int|
                        (a < w.set_index || (a == w.set_index && b < w.register_index))
                            ==> !#[trigger] names_register(register_sets->0@, a, b, register_name@)
                    &&& w.value_text@ == "0x"@ + hex_str(value as nat)
                },
                Err(_) => {
                    &&& forall|a: int, b: int|
                        !#[trigger] names_register(register_sets->0@, a, b, register_name@)
                    &&& fails_config(r, "Register '"@ + register_name@ + "' not found"@)
                },
            },
    {
        if !self.has_thread {
            return Err(IncodeError::thread("No current thread selected"));
        }
        if !frame_valid {
            return Err(IncodeError::frame("No current frame available"));
        }
        let sets = match register_sets {
            None => {
                return Err(IncodeError::frame("Cannot access registers"));
            },
            Some(sets) => sets,
        };
        match locate_register(sets, register_name) {
            Some((i, j)) => {
                let mut value_text = String::new();
                push_str(&mut value_text, "0x");
                push_hex(&mut value_text, value);
                Ok(RegisterWrite { set_index: i, register_index: j, value_text })
            },
            None => {
                let mut msg = String::new();
                push_str(&mut msg, "Register '");
                push_str(&mut msg, register_name);
                push_str(&mut msg, "' not found");
                Err(IncodeError::Configuration(msg))
            },
        }
    }
}

} // verus!
