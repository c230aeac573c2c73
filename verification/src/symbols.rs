//! The symbol table of the assembler: a finite map from names to 16-bit
//! addresses, kept as a list of bindings of which the latest for a name
//! counts.

use vstd::prelude::*;
use crate::text::{same_chars, to_chars};

verus! {

/// A binding of a name to an address.
pub struct Binding {
    name: Vec<char>,
    address: u16,
}

/// A table of symbols.
pub struct SymbolTable {
    bindings: Vec<Binding>,
}

/// The map that a list of bindings stands for.
pub closed spec fn bound(bindings: Seq<Binding>) -> Map<Seq<char>, u16>
    decreases bindings.len(),
{
    if bindings.len() == 0 {
        Map::empty()
    } else {
        bound(bindings.drop_last()).insert(bindings.last().name@, bindings.last().address)
    }
}

/// The addresses that the machine gives to names of its own: the five
/// pointer registers, the sixteen general registers and the two regions of
/// memory-mapped devices.
pub open spec fn predefined() -> Map<Seq<char>, u16> {
    Map::<Seq<char>, u16>::empty().insert("SP"@, 0).insert("LCL"@, 1).insert("ARG"@, 2).insert(
        "THIS"@,
        3,
    ).insert("THAT"@, 4).insert("SCREEN"@, 16384).insert("KBD"@, 24576).insert("R0"@, 0).insert(
        "R1"@,
        1,
    ).insert("R2"@, 2).insert("R3"@, 3).insert("R4"@, 4).insert("R5"@, 5).insert("R6"@, 6).insert(
        "R7"@,
        7,
    ).insert("R8"@, 8).insert("R9"@, 9).insert("R10"@, 10).insert("R11"@, 11).insert(
        "R12"@,
        12,
    ).insert("R13"@, 13).insert("R14"@, 14).insert("R15"@, 15)
}

impl View for SymbolTable {
    type V = Map<Seq<char>, u16>;

    closed spec fn view(&self) -> Map<Seq<char>, u16> {
        bound(self.bindings@)
    }
}

impl SymbolTable {
    /// A table without bindings.
    pub fn new() -> (r: Self)
        ensures
            r@ == Map::<Seq<char>, u16>::empty(),
    {
        SymbolTable { bindings: Vec::new() }
    }

    /// The table of the names that the machine defines.
    pub fn with_predefined() -> (r: Self)
        ensures
            r@ == predefined(),
    {
        let mut t = SymbolTable::new();
        t.insert(to_chars("SP"), 0);
        t.insert(to_chars("LCL"), 1);
        t.insert(to_chars("ARG"), 2);
        t.insert(to_chars("THIS"), 3);
        t.insert(to_chars("THAT"), 4);
        t.insert(to_chars("SCREEN"), 16384);
        t.insert(to_chars("KBD"), 24576);
        t.insert(to_chars("R0"), 0);
        t.insert(to_chars("R1"), 1);
        t.insert(to_chars("R2"), 2);
        t.insert(to_chars("R3"), 3);
        t.insert(to_chars("R4"), 4);
        t.insert(to_chars("R5"), 5);
        t.insert(to_chars("R6"), 6);
        t.insert(to_chars("R7"), 7);
        t.insert(to_chars("R8"), 8);
        t.insert(to_chars("R9"), 9);
        t.insert(to_chars("R10"), 10);
        t.insert(to_chars("R11"), 11);
        t.insert(to_chars("R12"), 12);
        t.insert(to_chars("R13"), 13);
        t.insert(to_chars("R14"), 14);
        t.insert(to_chars("R15"), 15);
        t
    }

    /// Binds a name to an address, in place of any earlier binding.
    pub fn insert(&mut self, name: Vec<char>, address: u16)
        ensures
            final(self)@ == old(self)@.insert(name@, address),
    {
        let ghost before = self.bindings@;
        self.bindings.push(Binding { name, address });
        assert(self.bindings@.drop_last() =~= before);
    }

    /// The address that a name is bound to, if it is bound.
    pub fn get(&self, name: &Vec<char>) -> (r: Option<u16>)
        ensures
            r == if self@.contains_key(name@) {
                Some(self@[name@])
            } else {
                None
            },
    {
        let mut i: usize = self.bindings.len();
        assert(self.bindings@.take(i as int) =~= self.bindings@);
        while i > 0
            invariant
                i <= self.bindings.len(),
                self@.contains_key(name@) == bound(self.bindings@.take(i as int)).contains_key(
                    name@,
                ),
                self@.contains_key(name@) ==> self@[name@] == bound(
                    self.bindings@.take(i as int),
                )[name@],
            decreases i,
        {
            let b = &self.bindings[i - 1];
            proof {
                let t = self.bindings@.take(i as int);
                assert(t.drop_last() =~= self.bindings@.take(i - 1));
                assert(t.last() == *b);
            }
            if same_chars(&b.name, name) {
                return Some(b.address);
            }
            i -= 1;
        }
        None
    }

    /// Binds a name to an address unless it is bound already.
    pub fn bind(&mut self, name: Vec<char>, address: u16)
        ensures
            final(self)@ == if old(self)@.contains_key(name@) {
                old(self)@
            } else {
                old(self)@.insert(name@, address)
            },
    {
        if self.get(&name).is_none() {
            self.insert(name, address);
        }
    }
}

/// A number that tells the predefined names apart: it is made of the
/// length and the first three characters.
spec fn fingerprint(s: Seq<char>) -> int {
    let at = |i: int| if i < s.len() { s[i] as int } else { 0 };
    ((s.len() * 256 + at(0)) * 256 + at(1)) * 256 + at(2)
}

/// The predefined names are bound as the machine lays out its memory: the
/// pointer registers at the addresses 0 to 4, the general registers `R0`
/// to `R15` at the addresses 0 to 15, the screen at 16384 and the
/// keyboard at 24576.
pub proof fn lemma_predefined()
    ensures
        predefined().contains_key("SP"@) && predefined()["SP"@] == 0,
        predefined().contains_key("LCL"@) && predefined()["LCL"@] == 1,
        predefined().contains_key("ARG"@) && predefined()["ARG"@] == 2,
        predefined().contains_key("THIS"@) && predefined()["THIS"@] == 3,
        predefined().contains_key("THAT"@) && predefined()["THAT"@] == 4,
        predefined().contains_key("SCREEN"@) && predefined()["SCREEN"@] == 16384,
        predefined().contains_key("KBD"@) && predefined()["KBD"@] == 24576,
        predefined().contains_key("R0"@) && predefined()["R0"@] == 0,
        predefined().contains_key("R1"@) && predefined()["R1"@] == 1,
        predefined().contains_key("R2"@) && predefined()["R2"@] == 2,
        predefined().contains_key("R3"@) && predefined()["R3"@] == 3,
        predefined().contains_key("R4"@) && predefined()["R4"@] == 4,
        predefined().contains_key("R5"@) && predefined()["R5"@] == 5,
        predefined().contains_key("R6"@) && predefined()["R6"@] == 6,
        predefined().contains_key("R7"@) && predefined()["R7"@] == 7,
        predefined().contains_key("R8"@) && predefined()["R8"@] == 8,
        predefined().contains_key("R9"@) && predefined()["R9"@] == 9,
        predefined().contains_key("R10"@) && predefined()["R10"@] == 10,
        predefined().contains_key("R11"@) && predefined()["R11"@] == 11,
        predefined().contains_key("R12"@) && predefined()["R12"@] == 12,
        predefined().contains_key("R13"@) && predefined()["R13"@] == 13,
        predefined().contains_key("R14"@) && predefined()["R14"@] == 14,
        predefined().contains_key("R15"@) && predefined()["R15"@] == 15,
{
    reveal_strlit("SP");
    reveal_strlit("LCL");
    reveal_strlit("ARG");
    reveal_strlit("THIS");
    reveal_strlit("THAT");
    reveal_strlit("SCREEN");
    reveal_strlit("KBD");
    reveal_strlit("R0");
    reveal_strlit("R1");
    reveal_strlit("R2");
    reveal_strlit("R3");
    reveal_strlit("R4");
    reveal_strlit("R5");
    reveal_strlit("R6");
    reveal_strlit("R7");
    reveal_strlit("R8");
    reveal_strlit("R9");
    reveal_strlit("R10");
    reveal_strlit("R11");
    reveal_strlit("R12");
    reveal_strlit("R13");
    reveal_strlit("R14");
    reveal_strlit("R15");
    assert(fingerprint("SP"@) == 39014400);
    assert(fingerprint("LCL"@) == 55329612);
    assert(fingerprint("ARG"@) == 54612551);
    assert(fingerprint("THIS"@) == 72632393);
    assert(fingerprint("THAT"@) == 72632385);
    assert(fingerprint("SCREEN"@) == 106120018);
    assert(fingerprint("KBD"@) == 55263812);
    assert(fingerprint("R0"@) == 38940672);
    assert(fingerprint("R1"@) == 38940928);
    assert(fingerprint("R2"@) == 38941184);
    assert(fingerprint("R3"@) == 38941440);
    assert(fingerprint("R4"@) == 38941696);
    assert(fingerprint("R5"@) == 38941952);
    assert(fingerprint("R6"@) == 38942208);
    assert(fingerprint("R7"@) == 38942464);
    assert(fingerprint("R8"@) == 38942720);
    assert(fingerprint("R9"@) == 38942976);
    assert(fingerprint("R10"@) == 55718192);
    assert(fingerprint("R11"@) == 55718193);
    assert(fingerprint("R12"@) == 55718194);
    assert(fingerprint("R13"@) == 55718195);
    assert(fingerprint("R14"@) == 55718196);
    assert(fingerprint("R15"@) == 55718197);
}

} // verus!
