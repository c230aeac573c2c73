//! The comparisons on the machine: the translations of `eq`, `gt` and `lt`
//! replace the two topmost values of the stack by all ones if the lower
//! value stands to the upper one as the operation says, both read as
//! integers in two's complement, and by zero if it does not.

use vstd::prelude::*;
use crate::code::{equality_code, numbered, operation_code, order_code};
use crate::instr::Operation;
use crate::isa::{Comp, Dest, Jump};
use crate::listing::{at, branch, store};
use crate::machine::{
    Machine, Program, is_word, jumps, lemma_run_add, loaded, reaches, run, signed, size,
};

verus! {

/// The word that stands for a truth value: all ones for true, zero for
/// false.
pub open spec fn truth(b: bool) -> int {
    if b {
        0xFFFF
    } else {
        0
    }
}

/// Whether the integer `x` stands to the integer `y` as a comparison says.
pub open spec fn holds(op: Operation, x: int, y: int) -> bool {
    match op {
        Operation::Eq => x == y,
        Operation::Gt => x > y,
        Operation::Lt => x < y,
        _ => false,
    }
}

/// The number of instructions in the translation of `eq`.
pub open spec fn equality_size() -> int {
    22
}

/// The number of instructions in the translation of `gt` and of `lt`.
pub open spec fn order_size() -> int {
    35
}

proof fn lemma_equality_placed(p: Program, base: int, k: nat)
    requires
        loaded(equality_code(k), 0, base, p),
    ensures
        size(equality_code(k), 0) == 22,
        p.env[numbered("EQ"@, k)] == base + 17,
        p.env[numbered("END"@, k)] == base + 20,
        p.rom[base + 0] == at("SP"@),
        p.rom[base + 1] == store(Dest::A, Comp::M),
        p.rom[base + 2] == store(Dest::A, Comp::AMinusOne),
        p.rom[base + 3] == store(Dest::A, Comp::AMinusOne),
        p.rom[base + 4] == store(Dest::D, Comp::M),
        p.rom[base + 5] == store(Dest::A, Comp::APlusOne),
        p.rom[base + 6] == store(Dest::D, Comp::DMinusM),
        p.rom[base + 7] == at("SP"@),
        p.rom[base + 8] == store(Dest::M, Comp::MMinusOne),
        p.rom[base + 9] == store(Dest::M, Comp::MMinusOne),
        p.rom[base + 10] == at(numbered("EQ"@, k)),
        p.rom[base + 11] == branch(Comp::D, Jump::JEQ),
        p.rom[base + 12] == at("SP"@),
        p.rom[base + 13] == store(Dest::A, Comp::M),
        p.rom[base + 14] == store(Dest::M, Comp::Zero),
        p.rom[base + 15] == at(numbered("END"@, k)),
        p.rom[base + 16] == branch(Comp::Zero, Jump::JMP),
        p.rom[base + 17] == at("SP"@),
        p.rom[base + 18] == store(Dest::A, Comp::M),
        p.rom[base + 19] == store(Dest::M, Comp::MinusOne),
        p.rom[base + 20] == at("SP"@),
        p.rom[base + 21] == store(Dest::M, Comp::MPlusOne),
{
    reveal_with_fuel(loaded, 27);
    reveal_with_fuel(size, 27);
}

/// Whether the state `s` stands before a comparison whose translation lies
/// at the address `base`: the two operands lie on the stack, which begins
/// at the address 256, and are words.
pub open spec fn can_compare(s: Machine, base: int) -> bool {
    &&& s.pc == base
    &&& 258 <= s.ram[0] <= 0xFFFF
    &&& is_word(s.ram[s.ram[0] - 1])
    &&& is_word(s.ram[s.ram[0] - 2])
}

/// The state after a comparison: the program goes on behind the
/// translation, `SP` addresses the cell above the result, and the result
/// stands where the lower operand stood.
pub open spec fn compared(s: Machine, t: Machine, end: int, result: int) -> bool {
    &&& t.pc == end
    &&& t.ram == s.ram.insert(s.ram[0] - 2, result).insert(0, s.ram[0] - 1)
}

/// What `eq` does: it replaces the two topmost values by all ones if they
/// are equal and by zero if they are not.
pub proof fn lemma_equality(p: Program, s: Machine, base: int, k: nat) -> (t: Machine)
    requires
        loaded(equality_code(k), 0, base, p),
        p.env["SP"@] == 0,
        0 <= base,
        base + equality_size() < 0x8000,
        can_compare(s, base),
    ensures
        reaches(p, s, t),
        compared(
            s,
            t,
            base + equality_size(),
            truth(s.ram[s.ram[0] - 2] == s.ram[s.ram[0] - 1]),
        ),
{
    lemma_equality_placed(p, base, k);
    let sp = s.ram[0];
    let x = s.ram[sp - 2];
    let y = s.ram[sp - 1];
    let s1 = run(p, s, 10);
    assert(s1 == Machine {
        a: 0,
        d: crate::machine::wrap(x - y),
        pc: base + 10,
        ram: s.ram.insert(0, sp - 1).insert(0, sp - 2),
    }) by {
        reveal_with_fuel(run, 11);
    }
    if x == y {
        let t = run(p, s1, 7);
        assert(t.pc == base + 22 && t.ram == s1.ram.insert(sp - 2, 0xFFFF).insert(0, sp - 1)) by {
            reveal_with_fuel(run, 8);
        }
        lemma_run_add(p, s, 10, 7);
        assert(t.ram =~= s.ram.insert(sp - 2, 0xFFFF).insert(0, sp - 1));
        t
    } else {
        let t = run(p, s1, 9);
        assert(t.pc == base + 22 && t.ram == s1.ram.insert(sp - 2, 0).insert(0, sp - 1)) by {
            reveal_with_fuel(run, 10);
        }
        lemma_run_add(p, s, 10, 9);
        assert(t.ram =~= s.ram.insert(sp - 2, 0).insert(0, sp - 1));
        t
    }
}

proof fn lemma_order_placed(p: Program, base: int, name: Seq<char>, jump: Jump, k: nat)
    requires
        loaded(order_code(name, jump, k), 0, base, p),
    ensures
        size(order_code(name, jump, k), 0) == 35,
        p.env[numbered(name + "_NEG"@, k)] == base + 12,
        p.env[numbered(name + "_SAME"@, k)] == base + 20,
        p.env[numbered(name + "_TEST"@, k)] == base + 25,
        p.env[numbered(name, k)] == base + 32,
        p.env[numbered("END"@, k)] == base + 35,
        p.rom[base + 0] == at("SP"@),
        p.rom[base + 1] == store(Dest::AM, Comp::MMinusOne),
        p.rom[base + 2] == store(Dest::D, Comp::M),
        p.rom[base + 3] == at(numbered(name + "_NEG"@, k)),
        p.rom[base + 4] == branch(Comp::D, Jump::JLT),
        p.rom[base + 5] == at("SP"@),
        p.rom[base + 6] == store(Dest::A, Comp::MMinusOne),
        p.rom[base + 7] == store(Dest::D, Comp::M),
        p.rom[base + 8] == at(numbered(name + "_SAME"@, k)),
        p.rom[base + 9] == branch(Comp::D, Jump::JGE),
        p.rom[base + 10] == at(numbered(name + "_TEST"@, k)),
        p.rom[base + 11] == branch(Comp::Zero, Jump::JMP),
        p.rom[base + 12] == at("SP"@),
        p.rom[base + 13] == store(Dest::A, Comp::MMinusOne),
        p.rom[base + 14] == store(Dest::D, Comp::M),
        p.rom[base + 15] == at(numbered(name + "_SAME"@, k)),
        p.rom[base + 16] == branch(Comp::D, Jump::JLT),
        p.rom[base + 17] == store(Dest::D, Comp::One),
        p.rom[base + 18] == at(numbered(name + "_TEST"@, k)),
        p.rom[base + 19] == branch(Comp::Zero, Jump::JMP),
        p.rom[base + 20] == at("SP"@),
        p.rom[base + 21] == store(Dest::A, Comp::M),
        p.rom[base + 22] == store(Dest::D, Comp::M),
        p.rom[base + 23] == store(Dest::A, Comp::AMinusOne),
        p.rom[base + 24] == store(Dest::D, Comp::MMinusD),
        p.rom[base + 25] == at(numbered(name, k)),
        p.rom[base + 26] == branch(Comp::D, jump),
        p.rom[base + 27] == at("SP"@),
        p.rom[base + 28] == store(Dest::A, Comp::MMinusOne),
        p.rom[base + 29] == store(Dest::M, Comp::Zero),
        p.rom[base + 30] == at(numbered("END"@, k)),
        p.rom[base + 31] == branch(Comp::Zero, Jump::JMP),
        p.rom[base + 32] == at("SP"@),
        p.rom[base + 33] == store(Dest::A, Comp::MMinusOne),
        p.rom[base + 34] == store(Dest::M, Comp::MinusOne),
{
    reveal_with_fuel(loaded, 41);
    reveal_with_fuel(size, 41);
}

/// The first part of `gt` and `lt`: it pops the upper operand and arrives
/// at the test with a word in `D` that has the sign of the difference of
/// the operands, whether or not that difference fits in a word.
proof fn lemma_order_sign(p: Program, s: Machine, base: int, name: Seq<char>, jump: Jump, k: nat)
    -> (t: Machine)
    requires
        loaded(order_code(name, jump, k), 0, base, p),
        p.env["SP"@] == 0,
        0 <= base,
        base + order_size() < 0x8000,
        can_compare(s, base),
    ensures
        reaches(p, s, t),
        t.pc == base + 25,
        t.ram == s.ram.insert(0, s.ram[0] - 1),
        is_word(t.d),
        ({
            let x = signed(s.ram[s.ram[0] - 2]);
            let y = signed(s.ram[s.ram[0] - 1]);
            &&& signed(t.d) < 0 <==> x < y
            &&& signed(t.d) > 0 <==> x > y
        }),
{
    lemma_order_placed(p, base, name, jump, k);
    let sp = s.ram[0];
    let x = s.ram[sp - 2];
    let y = s.ram[sp - 1];
    let ram = s.ram.insert(0, sp - 1);
    let s1 = run(p, s, 5);
    assert(s1.ram == ram && s1.d == y && s1.pc == (if signed(y) < 0 {
        base + 12
    } else {
        base + 5
    })) by {
        reveal_with_fuel(run, 6);
    }
    let s2 = run(p, s1, 5);
    assert(s2.ram == ram && s2.d == x && s2.pc == (if signed(y) < 0 {
        if signed(x) < 0 {
            base + 20
        } else {
            base + 17
        }
    } else {
        if signed(x) >= 0 {
            base + 20
        } else {
            base + 10
        }
    })) by {
        reveal_with_fuel(run, 6);
    }
    lemma_run_add(p, s, 5, 5);
    if (signed(y) < 0) == (signed(x) < 0) {
        let t = run(p, s2, 5);
        assert(t.ram == ram && t.pc == base + 25 && t.d == crate::machine::wrap(x - y)) by {
            reveal_with_fuel(run, 6);
        }
        lemma_run_add(p, s, 10, 5);
        t
    } else if signed(y) < 0 {
        let t = run(p, s2, 3);
        assert(t.ram == ram && t.pc == base + 25 && t.d == 1) by {
            reveal_with_fuel(run, 4);
        }
        lemma_run_add(p, s, 10, 3);
        t
    } else {
        let t = run(p, s2, 2);
        assert(t.ram == ram && t.pc == base + 25 && t.d == x) by {
            reveal_with_fuel(run, 3);
        }
        lemma_run_add(p, s, 10, 2);
        t
    }
}

/// The second part of `gt` and `lt`: it stores all ones in place of the
/// lower operand if the word in `D` meets the jump condition, and zero if
/// it does not.
proof fn lemma_order_store(
    p: Program,
    s: Machine,
    base: int,
    name: Seq<char>,
    jump: Jump,
    k: nat,
) -> (t: Machine)
    requires
        loaded(order_code(name, jump, k), 0, base, p),
        p.env["SP"@] == 0,
        0 <= base,
        base + order_size() < 0x8000,
        s.pc == base + 25,
        257 <= s.ram[0] <= 0xFFFF,
    ensures
        reaches(p, s, t),
        t.pc == base + 35,
        t.ram == s.ram.insert(s.ram[0] - 1, truth(jumps(jump, s.d))),
{
    lemma_order_placed(p, base, name, jump, k);
    if jumps(jump, s.d) {
        let t = run(p, s, 5);
        assert(t.pc == base + 35 && t.ram == s.ram.insert(s.ram[0] - 1, 0xFFFF)) by {
            reveal_with_fuel(run, 6);
        }
        t
    } else {
        let t = run(p, s, 7);
        assert(t.pc == base + 35 && t.ram == s.ram.insert(s.ram[0] - 1, 0)) by {
            reveal_with_fuel(run, 8);
        }
        t
    }
}

/// Reaching goes on: what is reached from a state that is reached is
/// reached.
pub proof fn lemma_reaches_on(p: Program, s: Machine, t: Machine, u: Machine)
    requires
        reaches(p, s, t),
        reaches(p, t, u),
    ensures
        reaches(p, s, u),
{
    let m = choose|m: nat| run(p, s, m) == t;
    let n = choose|n: nat| run(p, t, n) == u;
    lemma_run_add(p, s, m, n);
}

/// Comparisons are right on all words. From a state with two operands on
/// the stack, `x` below `y`, the translation of `eq`, `gt` or `lt` reaches
/// the instruction behind it with the two operands replaced by all ones if
/// `x` equals, is greater than or is less than `y`, and by zero if not.
/// The operands are read as integers in two's complement, and the result
/// is right for every pair of them, those whose difference does not fit in
/// a word included. No other cell changes but `SP`.
pub proof fn lemma_comparison(p: Program, s: Machine, base: int, op: Operation, k: nat) -> (t:
    Machine)
    requires
        op is Eq || op is Gt || op is Lt,
        loaded(operation_code(op, k), 0, base, p),
        p.env["SP"@] == 0,
        0 <= base,
        base + size(operation_code(op, k), 0) < 0x8000,
        can_compare(s, base),
    ensures
        reaches(p, s, t),
        compared(
            s,
            t,
            base + size(operation_code(op, k), 0),
            truth(holds(op, signed(s.ram[s.ram[0] - 2]), signed(s.ram[s.ram[0] - 1]))),
        ),
{
    let sp = s.ram[0];
    match op {
        Operation::Eq => {
            lemma_equality_placed(p, base, k);
            lemma_equality(p, s, base, k)
        },
        _ => {
            let name = if op is Gt {
                "GT"@
            } else {
                "LT"@
            };
            let jump = if op is Gt {
                Jump::JGT
            } else {
                Jump::JLT
            };
            lemma_order_placed(p, base, name, jump, k);
            let m = lemma_order_sign(p, s, base, name, jump, k);
            let t = lemma_order_store(p, m, base, name, jump, k);
            lemma_reaches_on(p, s, m, t);
            assert(t.ram =~= s.ram.insert(sp - 2, truth(jumps(jump, m.d))).insert(0, sp - 1));
            t
        },
    }
}

} // verus!
