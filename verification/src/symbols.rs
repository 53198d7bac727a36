//! The symbol table: a binding of symbol names to 16-bit addresses, populated
//! in layers (predefined architectural names, then labels, then variables)
//! where no layer ever overwrites an earlier binding for the same name.
use vstd::prelude::*;

use crate::text::chars_eq;

verus! {

/// The fixed architectural bindings: the stack pointer and segment base
/// registers, the sixteen general registers aliased to addresses 0 through
/// 15, and the screen and keyboard base addresses.
pub open spec fn predefined() -> Map<Seq<char>, u16> {
    Map::empty().insert("SP"@, 0).insert("LCL"@, 1).insert("ARG"@, 2).insert("THIS"@, 3).insert(
        "THAT"@,
        4,
    ).insert("R0"@, 0).insert("R1"@, 1).insert("R2"@, 2).insert("R3"@, 3).insert("R4"@, 4).insert(
        "R5"@,
        5,
    ).insert("R6"@, 6).insert("R7"@, 7).insert("R8"@, 8).insert("R9"@, 9).insert(
        "R10"@,
        10,
    ).insert("R11"@, 11).insert("R12"@, 12).insert("R13"@, 13).insert("R14"@, 14).insert(
        "R15"@,
        15,
    ).insert("SCREEN"@, 16384).insert("KBD"@, 24576)
}

/// The mapping denoted by an association list: a later entry for the same
/// name would win, exactly as chained `Map::insert` does.
pub open spec fn map_of(es: Seq<(Vec<char>, u16)>) -> Map<Seq<char>, u16>
    decreases es.len(),
{
    if es.len() == 0 {
        Map::empty()
    } else {
        map_of(es.drop_last()).insert(es.last().0@, es.last().1)
    }
}

proof fn lemma_map_of_prefix(es: Seq<(Vec<char>, u16)>, i: int, name: Seq<char>)
    requires
        0 <= i <= es.len(),
        forall|k: int| i <= k < es.len() ==> es[k].0@ != name,
    ensures
        map_of(es).contains_key(name) <==> map_of(es.subrange(0, i)).contains_key(name),
        map_of(es).contains_key(name) ==> map_of(es)[name] == map_of(es.subrange(0, i))[name],
    decreases es.len() - i,
{
    if i < es.len() {
        let shorter = es.drop_last();
        assert(forall|k: int| i <= k < shorter.len() ==> shorter[k] == es[k]);
        lemma_map_of_prefix(shorter, i, name);
        assert(shorter.subrange(0, i) =~= es.subrange(0, i));
    } else {
        assert(es.subrange(0, i) =~= es);
    }
}

/// A symbol table, mapping symbol names to 16-bit addresses. Its model is
/// the `Map` of its bindings.
pub struct SymbolTable {
    entries: Vec<(Vec<char>, u16)>,
}

impl View for SymbolTable {
    type V = Map<Seq<char>, u16>;

    closed spec fn view(&self) -> Map<Seq<char>, u16> {
        map_of(self.entries@)
    }
}

impl SymbolTable {
    /// The empty table.
    pub fn new() -> (r: SymbolTable)
        ensures
            r@ == Map::<Seq<char>, u16>::empty(),
    {
        SymbolTable { entries: Vec::new() }
    }

    /// The address bound to `name`, if any.
    pub fn get(&self, name: &Vec<char>) -> (r: Option<u16>)
        ensures
            r == (if self@.contains_key(name@) {
                Some(self@[name@])
            } else {
                None::<u16>
            }),
    {
        let n = self.entries.len();
        let mut i: usize = n;
        while i > 0
            invariant
                i <= n,
                n == self.entries@.len(),
                forall|k: int| i <= k < n ==> self.entries@[k].0@ != name@,
            decreases i,
        {
            i = i - 1;
            if chars_eq(&self.entries[i].0, name) {
                proof {
                    lemma_map_of_prefix(self.entries@, i + 1, name@);
                    let pre = self.entries@.subrange(0, i + 1);
                    assert(pre.drop_last() =~= self.entries@.subrange(0, i as int));
                    assert(pre.last() == self.entries@[i as int]);
                }
                return Some(self.entries[i].1);
            }
        }
        proof {
            lemma_map_of_prefix(self.entries@, 0, name@);
            assert(self.entries@.subrange(0, 0).len() == 0);
        }
        None
    }

    /// Whether `name` is bound.
    pub fn contains(&self, name: &Vec<char>) -> (r: bool)
        ensures
            r == self@.contains_key(name@),
    {
        self.get(name).is_some()
    }

    /// Binds `name` to `addr` unless a binding for `name` already exists;
    /// an existing binding is never overwritten.
    pub fn insert_if_absent(&mut self, name: Vec<char>, addr: u16)
        ensures
            final(self)@ == (if old(self)@.contains_key(name@) {
                old(self)@
            } else {
                old(self)@.insert(name@, addr)
            }),
    {
        if !self.contains(&name) {
            let ghost before = self.entries@;
            let ghost key = name@;
            self.entries.push((name, addr));
            proof {
                assert(self.entries@.drop_last() =~= before);
                assert(self.entries@.last().0@ == key);
            }
        }
    }

    /// The table holding exactly the predefined architectural bindings.
    pub fn with_predefined() -> (r: SymbolTable)
        ensures
            r@ == predefined(),
    {
        let mut st = SymbolTable::new();
        st.add_predefined("SP", 0);
        st.add_predefined("LCL", 1);
        st.add_predefined("ARG", 2);
        st.add_predefined("THIS", 3);
        st.add_predefined("THAT", 4);
        st.add_predefined("R0", 0);
        st.add_predefined("R1", 1);
        st.add_predefined("R2", 2);
        st.add_predefined("R3", 3);
        st.add_predefined("R4", 4);
        st.add_predefined("R5", 5);
        st.add_predefined("R6", 6);
        st.add_predefined("R7", 7);
        st.add_predefined("R8", 8);
        st.add_predefined("R9", 9);
        st.add_predefined("R10", 10);
        st.add_predefined("R11", 11);
        st.add_predefined("R12", 12);
        st.add_predefined("R13", 13);
        st.add_predefined("R14", 14);
        st.add_predefined("R15", 15);
        st.add_predefined("SCREEN", 16384);
        st.add_predefined("KBD", 24576);
        st
    }

    fn add_predefined(&mut self, name: &str, addr: u16)
        ensures
            final(self)@ == old(self)@.insert(name@, addr),
    {
        let key = crate::text::str_to_chars(name);
        let ghost before = self.entries@;
        self.entries.push((key, addr));
        proof {
            assert(self.entries@.drop_last() =~= before);
        }
    }
}

/// Every predefined symbol name is bound to its fixed architectural address.
pub proof fn lemma_predefined_addresses()
    ensures
        predefined().contains_key("SP"@) && predefined()["SP"@] == 0,
        predefined().contains_key("LCL"@) && predefined()["LCL"@] == 1,
        predefined().contains_key("ARG"@) && predefined()["ARG"@] == 2,
        predefined().contains_key("THIS"@) && predefined()["THIS"@] == 3,
        predefined().contains_key("THAT"@) && predefined()["THAT"@] == 4,
        predefined().contains_key("R0"@) && predefined()["R0"@] == 0,
        predefined().contains_key("R1"@) && predefined()["R1"@] == 1,
        predefined().contains_key("R2"@) && predefined()["R2"@] == 2,
        predefined().contains_key("R3"@) && predefined()["R3"@] == 3,
        predefined().contains_key("R4"@) && predefined()["R4"@] == 4,
        predefined().contains_key("R5"@) && predefined()["R5"@] == 5,
        predefined().contains_key("R6"@) && predefined()["R6"@] == 6,
        predefined().contains_key("R7"@) && predefined()["R7"@] == 7,
        predefined().contains_key("R8"@) && predefined()["R8"@] == 8,
        predefined().contains_key("R9"@) && predefined()["R9"@] == 9,
        predefined().contains_key("R10"@) && predefined()["R10"@] == 10,
        predefined().contains_key("R11"@) && predefined()["R11"@] == 11,
        predefined().contains_key("R12"@) && predefined()["R12"@] == 12,
        predefined().contains_key("R13"@) && predefined()["R13"@] == 13,
        predefined().contains_key("R14"@) && predefined()["R14"@] == 14,
        predefined().contains_key("R15"@) && predefined()["R15"@] == 15,
        predefined().contains_key("SCREEN"@) && predefined()["SCREEN"@] == 16384,
        predefined().contains_key("KBD"@) && predefined()["KBD"@] == 24576,
{
    reveal_strlit("SP");
    reveal_strlit("LCL");
    reveal_strlit("ARG");
    reveal_strlit("THIS");
    reveal_strlit("THAT");
    reveal_strlit("R0");
    reveal_strlit("R1");
    reveal_strlit("R2");
    reveal_strlit("R3");
    reveal_strlit("R4");
    reveal_strlit("R5");
    reveal_strlit("R6");
    reveal_strlit("R7");
    reveal_strlit("R8");
    reveal_strlit("R9");
    reveal_strlit("R10");
    reveal_strlit("R11");
    reveal_strlit("R12");
    reveal_strlit("R13");
    reveal_strlit("R14");
    reveal_strlit("R15");
    reveal_strlit("SCREEN");
    reveal_strlit("KBD");
    assert("SP"@ =~= seq!['S', 'P']);
    assert("LCL"@ =~= seq!['L', 'C', 'L']);
    assert("ARG"@ =~= seq!['A', 'R', 'G']);
    assert("THIS"@ =~= seq!['T', 'H', 'I', 'S']);
    assert("THAT"@ =~= seq!['T', 'H', 'A', 'T']);
    assert("R0"@ =~= seq!['R', '0']);
    assert("R1"@ =~= seq!['R', '1']);
    assert("R2"@ =~= seq!['R', '2']);
    assert("R3"@ =~= seq!['R', '3']);
    assert("R4"@ =~= seq!['R', '4']);
    assert("R5"@ =~= seq!['R', '5']);
    assert("R6"@ =~= seq!['R', '6']);
    assert("R7"@ =~= seq!['R', '7']);
    assert("R8"@ =~= seq!['R', '8']);
    assert("R9"@ =~= seq!['R', '9']);
    assert("R10"@ =~= seq!['R', '1', '0']);
    assert("R11"@ =~= seq!['R', '1', '1']);
    assert("R12"@ =~= seq!['R', '1', '2']);
    assert("R13"@ =~= seq!['R', '1', '3']);
    assert("R14"@ =~= seq!['R', '1', '4']);
    assert("R15"@ =~= seq!['R', '1', '5']);
    assert("SCREEN"@ =~= seq!['S', 'C', 'R', 'E', 'E', 'N']);
    assert("KBD"@ =~= seq!['K', 'B', 'D']);
}

} // verus!
