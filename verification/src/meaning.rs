//! What the translations of the arithmetic, memory and branching commands
//! do on the machine.

use vstd::prelude::*;
use crate::code::{
    base_register, fixed_base, function_code, goto_code, if_code, is_indirect, label_code,
    operation_code, pop_code, push_code, push_d, static_symbol,
};
use crate::frames::{lemma_push_d, registers_bound};
use crate::instr::{Operation, Segment};
use crate::isa::{Comp, Dest};
use crate::listing::{Line, at, store};
use crate::machine::{
    Machine, Program, bits_and, bits_or, is_word, lemma_loaded_parts, lemma_run_add,
    lemma_size_parts, loaded, run, size, wrap,
};

verus! {

// ---------------------------------------------------------------------------
// Arithmetic

/// The word that an operation other than a comparison computes from the
/// lower operand `x` and the upper operand `y`; a unary operation computes
/// it from `y` alone.
pub open spec fn result_of(op: Operation, x: int, y: int) -> int {
    match op {
        Operation::Add => wrap(y + x),
        Operation::Sub => wrap(x - y),
        Operation::And => bits_and(y, x),
        Operation::Or => bits_or(y, x),
        Operation::Neg => wrap(-y),
        _ => 0xFFFF - y,
    }
}

/// Whether an operation takes two operands and is no comparison.
pub open spec fn is_binary(op: Operation) -> bool {
    op is Add || op is Sub || op is And || op is Or
}

/// Whether an operation takes one operand.
pub open spec fn is_unary(op: Operation) -> bool {
    op is Neg || op is Not
}

/// What `add`, `sub`, `and` and `or` do: in six steps they pop the upper
/// operand and put the result in the place of the lower one, which is the
/// new top of the stack. No other cell changes but `SP`.
pub proof fn lemma_binary(p: Program, s: Machine, base: int, op: Operation, k: nat)
    requires
        is_binary(op),
        loaded(operation_code(op, k), 0, base, p),
        p.env["SP"@] == 0,
        s.pc == base,
        258 <= s.ram[0] <= 0xFFFF,
    ensures
        size(operation_code(op, k), 0) == 6,
        run(p, s, 6).pc == base + 6,
        run(p, s, 6).ram == s.ram.insert(0, s.ram[0] - 1).insert(
            s.ram[0] - 2,
            result_of(op, s.ram[s.ram[0] - 2], s.ram[s.ram[0] - 1]),
        ),
{
    reveal_with_fuel(loaded, 7);
    reveal_with_fuel(run, 7);
    reveal_with_fuel(size, 7);
}

/// What `neg` and `not` do: in three steps they replace the top of the
/// stack by the result. No other cell changes.
pub proof fn lemma_unary(p: Program, s: Machine, base: int, op: Operation, k: nat)
    requires
        is_unary(op),
        loaded(operation_code(op, k), 0, base, p),
        p.env["SP"@] == 0,
        s.pc == base,
        257 <= s.ram[0] <= 0xFFFF,
    ensures
        size(operation_code(op, k), 0) == 3,
        run(p, s, 3).pc == base + 3,
        run(p, s, 3).ram == s.ram.insert(s.ram[0] - 1, result_of(op, 0, s.ram[s.ram[0] - 1])),
{
    reveal_with_fuel(loaded, 4);
    reveal_with_fuel(run, 4);
    reveal_with_fuel(size, 4);
}

// ---------------------------------------------------------------------------
// Memory access

/// The address of the cell `index` of a segment in the state `s`: the
/// index itself counts from the address that the segment's base pointer
/// holds, from the fixed place of the segment, or, for a static variable,
/// is part of the symbol whose address it is.
pub open spec fn cell_address(
    seg: Segment,
    index: int,
    scope: Seq<char>,
    s: Machine,
    env: Map<Seq<char>, int>,
) -> int {
    match seg {
        Segment::Local | Segment::Argument | Segment::This | Segment::That => wrap(
            index + s.ram[env[base_register(seg)]],
        ),
        Segment::Pointer | Segment::Temp => wrap(index + fixed_base(seg)),
        _ => env[static_symbol(index, scope)] % 0x8000,
    }
}

/// The value that a push reads: the index itself for the constant segment,
/// else what the cell holds.
pub open spec fn pushed_value(
    seg: Segment,
    index: int,
    scope: Seq<char>,
    s: Machine,
    env: Map<Seq<char>, int>,
) -> int {
    if seg is Constant {
        index
    } else {
        s.ram[cell_address(seg, index, scope, s, env)]
    }
}

/// The number of instructions in the translation of a push.
pub open spec fn push_size(seg: Segment) -> int {
    match seg {
        Segment::Constant | Segment::Static => 7,
        Segment::Pointer | Segment::Temp => 11,
        _ => 12,
    }
}

/// The lines of a push that load the value into `D`.
spec fn push_head(seg: Segment, index: int, scope: Seq<char>) -> Seq<Line> {
    match seg {
        Segment::Constant => seq![Line::AtValue(index), store(Dest::D, Comp::A)],
        Segment::Static => seq![at(static_symbol(index, scope)), store(Dest::D, Comp::M)],
        Segment::Pointer | Segment::Temp => seq![
            Line::AtValue(index),
            store(Dest::D, Comp::A),
            Line::AtValue(fixed_base(seg)),
            store(Dest::D, Comp::DPlusA),
            store(Dest::A, Comp::D),
            store(Dest::D, Comp::M),
        ],
        _ => seq![
            Line::AtValue(index),
            store(Dest::D, Comp::A),
            at(base_register(seg)),
            store(Dest::A, Comp::M),
            store(Dest::D, Comp::DPlusA),
            store(Dest::A, Comp::D),
            store(Dest::D, Comp::M),
        ],
    }
}

proof fn lemma_push_head(
    p: Program,
    s: Machine,
    base: int,
    seg: Segment,
    index: int,
    scope: Seq<char>,
)
    requires
        loaded(push_head(seg, index, scope), 0, base, p),
        registers_bound(p.env),
        s.pc == base,
        0 <= index < 0x8000,
    ensures
        size(push_head(seg, index, scope), 0) == push_size(seg) - 5,
        run(p, s, (push_size(seg) - 5) as nat).pc == base + push_size(seg) - 5,
        run(p, s, (push_size(seg) - 5) as nat).d == pushed_value(seg, index, scope, s, p.env),
        run(p, s, (push_size(seg) - 5) as nat).ram == s.ram,
{
    reveal_with_fuel(loaded, 8);
    reveal_with_fuel(run, 8);
    reveal_with_fuel(size, 8);
}

/// What a push does: it puts the value on top of the stack. For the
/// constant segment the value is the index itself; for `local`,
/// `argument`, `this` and `that` it is read through the base pointer; for
/// `pointer` and `temp` it is read at a fixed place, through no pointer;
/// for `static` it is read from the variable of the unit. No other cell
/// changes but `SP`.
pub proof fn lemma_push(
    p: Program,
    s: Machine,
    base: int,
    seg: Segment,
    index: int,
    scope: Seq<char>,
)
    requires
        loaded(push_code(seg, index, scope), 0, base, p),
        registers_bound(p.env),
        s.pc == base,
        0 <= index < 0x8000,
        0 < s.ram[0] < 0xFFFF,
    ensures
        size(push_code(seg, index, scope), 0) == push_size(seg),
        run(p, s, push_size(seg) as nat).pc == base + push_size(seg),
        run(p, s, push_size(seg) as nat).ram == s.ram.insert(
            s.ram[0],
            pushed_value(seg, index, scope, s, p.env),
        ).insert(0, s.ram[0] + 1),
{
    let head = push_head(seg, index, scope);
    assert(push_code(seg, index, scope) == head + push_d());
    lemma_loaded_parts(head, push_d(), base, p);
    lemma_size_parts(head, push_d(), 0);
    lemma_push_head(p, s, base, seg, index, scope);
    let n = (push_size(seg) - 5) as nat;
    let s1 = run(p, s, n);
    lemma_push_d(p, s1, base + n);
    lemma_run_add(p, s, n, 5);
}

/// What a pop into `local`, `argument`, `this` or `that` does: it takes
/// the value off the stack and stores it in the cell that lies `index`
/// above the address in the base pointer. The base pointer holds after the
/// pop what it held before, and no other cell changes but `SP`: every cell
/// but these two holds what it held.
pub proof fn lemma_pop_indirect(
    p: Program,
    s: Machine,
    base: int,
    seg: Segment,
    index: int,
    scope: Seq<char>,
)
    requires
        is_indirect(seg),
        loaded(pop_code(seg, index, scope), 0, base, p),
        registers_bound(p.env),
        s.pc == base,
        0 <= index < 0x8000,
        257 <= s.ram[0] <= 0xFFFF,
        is_word(s.ram[p.env[base_register(seg)]]),
        16 <= cell_address(seg, index, scope, s, p.env),
    ensures
        size(pop_code(seg, index, scope), 0) == 21,
        run(p, s, 21).pc == base + 21,
        forall|a: int| #[trigger]
            run(p, s, 21).ram[a] == if a == cell_address(seg, index, scope, s, p.env) {
                s.ram[s.ram[0] - 1]
            } else if a == 0 {
                s.ram[0] - 1
            } else {
                s.ram[a]
            },
{
    let reg = p.env[base_register(seg)];
    let target = cell_address(seg, index, scope, s, p.env);
    let top = s.ram[s.ram[0] - 1];
    assert(size(pop_code(seg, index, scope), 0) == 21) by {
        reveal_with_fuel(size, 22);
    }
    assert(forall|i: int| 0 <= i < 21 ==> p.rom[base + i] == #[trigger] pop_code(
        seg,
        index,
        scope,
    )[i]) by {
        reveal_with_fuel(loaded, 22);
    }
    let code = pop_code(seg, index, scope);
    // The base pointer moves to the target cell.
    assert(p.rom[base + 0] == code[0]);
    assert(p.rom[base + 1] == code[1]);
    assert(p.rom[base + 2] == code[2]);
    assert(p.rom[base + 3] == code[3]);
    assert(p.rom[base + 4] == code[4]);
    assert(p.rom[base + 5] == code[5]);
    assert(p.rom[base + 6] == code[6]);
    let s1 = run(p, s, 7);
    assert(s1.pc == base + 7 && s1.ram == s.ram.insert(reg, target)) by {
        reveal_with_fuel(run, 8);
    }
    // The value goes from the stack to the target cell.
    assert(p.rom[base + 7] == code[7]);
    assert(p.rom[base + 8] == code[8]);
    assert(p.rom[base + 9] == code[9]);
    assert(p.rom[base + 10] == code[10]);
    assert(p.rom[base + 11] == code[11]);
    assert(p.rom[base + 12] == code[12]);
    assert(p.rom[base + 13] == code[13]);
    let s2 = run(p, s1, 7);
    assert(s2.pc == base + 14 && s2.ram == s1.ram.insert(0, s.ram[0] - 1).insert(target, top))
        by {
        reveal_with_fuel(run, 8);
    }
    lemma_run_add(p, s, 7, 7);
    // The base pointer moves back.
    assert(p.rom[base + 14] == code[14]);
    assert(p.rom[base + 15] == code[15]);
    assert(p.rom[base + 16] == code[16]);
    assert(p.rom[base + 17] == code[17]);
    assert(p.rom[base + 18] == code[18]);
    assert(p.rom[base + 19] == code[19]);
    assert(p.rom[base + 20] == code[20]);
    let s3 = run(p, s2, 7);
    assert(s3.pc == base + 21 && s3.ram == s2.ram.insert(reg, s.ram[reg])) by {
        reveal_with_fuel(run, 8);
    }
    lemma_run_add(p, s, 14, 7);
}

/// What a pop into `pointer` or `temp` does: it takes the value off the
/// stack and stores it in the cell that lies `index` above the fixed place
/// of the segment, through no pointer. The register `R13` holds the
/// address of that cell afterwards; no other cell changes but `SP`.
pub proof fn lemma_pop_fixed(
    p: Program,
    s: Machine,
    base: int,
    seg: Segment,
    index: int,
    scope: Seq<char>,
)
    requires
        seg is Pointer || seg is Temp,
        loaded(pop_code(seg, index, scope), 0, base, p),
        registers_bound(p.env),
        p.env["R13"@] == 13,
        s.pc == base,
        0 <= index < 0x8000,
        257 <= s.ram[0] <= 0xFFFF,
    ensures
        size(pop_code(seg, index, scope), 0) == 13,
        run(p, s, 13).pc == base + 13,
        run(p, s, 13).ram == s.ram.insert(13, index + fixed_base(seg)).insert(
            0,
            s.ram[0] - 1,
        ).insert(index + fixed_base(seg), s.ram[s.ram[0] - 1]),
{
    reveal_with_fuel(loaded, 14);
    reveal_with_fuel(run, 14);
    reveal_with_fuel(size, 14);
}

/// What a pop into `static` does: it takes the value off the stack and
/// stores it in the variable of the unit. No other cell changes but `SP`.
pub proof fn lemma_pop_static(p: Program, s: Machine, base: int, index: int, scope: Seq<char>)
    requires
        loaded(pop_code(Segment::Static, index, scope), 0, base, p),
        registers_bound(p.env),
        s.pc == base,
        257 <= s.ram[0] <= 0xFFFF,
    ensures
        size(pop_code(Segment::Static, index, scope), 0) == 5,
        run(p, s, 5).pc == base + 5,
        run(p, s, 5).ram == s.ram.insert(0, s.ram[0] - 1).insert(
            p.env[static_symbol(index, scope)] % 0x8000,
            s.ram[s.ram[0] - 1],
        ),
{
    reveal_with_fuel(loaded, 6);
    reveal_with_fuel(run, 6);
    reveal_with_fuel(size, 6);
}

// ---------------------------------------------------------------------------
// Branching

/// What `label` does: it takes no place in the program, and binds the name
/// to the address of the instruction that follows.
pub proof fn lemma_label(p: Program, base: int, name: Seq<char>)
    requires
        loaded(label_code(name), 0, base, p),
    ensures
        size(label_code(name), 0) == 0,
        p.env[name] == base,
{
    reveal_with_fuel(loaded, 2);
    reveal_with_fuel(size, 2);
}

/// What `function` does: like a label, it takes no place in the program
/// and binds the name of the procedure to the address of the instruction
/// that follows.
pub proof fn lemma_function(p: Program, base: int, name: Seq<char>)
    requires
        loaded(function_code(name), 0, base, p),
    ensures
        size(function_code(name), 0) == 0,
        p.env[name] == base,
{
    reveal_with_fuel(loaded, 3);
    reveal_with_fuel(size, 3);
}

/// What `goto` does: in two steps the program goes on at the address of
/// the label. The memory stays as it is.
pub proof fn lemma_goto(p: Program, s: Machine, base: int, name: Seq<char>)
    requires
        loaded(goto_code(name), 0, base, p),
        s.pc == base,
    ensures
        size(goto_code(name), 0) == 2,
        run(p, s, 2).pc == p.env[name] % 0x8000,
        run(p, s, 2).ram == s.ram,
{
    reveal_with_fuel(loaded, 3);
    reveal_with_fuel(run, 3);
    reveal_with_fuel(size, 3);
}

/// What `if-goto` does: in six steps it takes the value off the stack, and
/// the program goes on at the address of the label if the value is not
/// zero, and behind the translation if it is zero. No cell changes but
/// `SP`.
pub proof fn lemma_if(p: Program, s: Machine, base: int, name: Seq<char>)
    requires
        loaded(if_code(name), 0, base, p),
        p.env["SP"@] == 0,
        s.pc == base,
        257 <= s.ram[0] <= 0xFFFF,
        is_word(s.ram[s.ram[0] - 1]),
    ensures
        size(if_code(name), 0) == 6,
        run(p, s, 6).pc == if s.ram[s.ram[0] - 1] != 0 {
            p.env[name] % 0x8000
        } else {
            base + 6
        },
        run(p, s, 6).ram == s.ram.insert(0, s.ram[0] - 1),
{
    reveal_with_fuel(loaded, 7);
    reveal_with_fuel(run, 7);
    reveal_with_fuel(size, 7);
}

} // verus!
