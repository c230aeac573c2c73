//! The calling convention on the machine: what the translations of a call
//! and of a return do to the stack and to the segment pointers, and that a
//! call followed by the callee's return leaves the caller as it was, with
//! the arguments replaced by the value returned.

use vstd::prelude::*;
use crate::code::{
    bootstrap_code, call_code, push_d, restore_code, return_code, return_label, save_code,
    unwind_code,
};
use crate::isa::{Comp, Dest, Jump};
use crate::listing::{Line, at, branch, store};
use crate::machine::{
    Machine, Program, lemma_loaded_parts, lemma_run_add, lemma_size_parts, loaded, run, size,
};

verus! {

/// The addresses of the five pointer registers.
pub open spec fn registers_bound(env: Map<Seq<char>, int>) -> bool {
    &&& env["SP"@] == 0
    &&& env["LCL"@] == 1
    &&& env["ARG"@] == 2
    &&& env["THIS"@] == 3
    &&& env["THAT"@] == 4
}

// ---------------------------------------------------------------------------
// Pushing

/// Pushing `D` stores it in the cell that `SP` addresses and moves `SP` to
/// the next cell.
pub proof fn lemma_push_d(p: Program, s: Machine, base: int)
    requires
        loaded(push_d(), 0, base, p),
        p.env["SP"@] == 0,
        s.pc == base,
        0 < s.ram[0] < 0xFFFF,
    ensures
        run(p, s, 5) == (Machine {
            a: 0,
            d: s.d,
            pc: base + 5,
            ram: s.ram.insert(s.ram[0], s.d).insert(0, s.ram[0] + 1),
        }),
        size(push_d(), 0) == 5,
{
    reveal_with_fuel(loaded, 6);
    reveal_with_fuel(run, 6);
    reveal_with_fuel(size, 6);
}

/// Saving a register pushes its value.
pub proof fn lemma_save(p: Program, s: Machine, base: int, name: Seq<char>)
    requires
        loaded(save_code(name), 0, base, p),
        p.env["SP"@] == 0,
        0 <= p.env[name] < 5,
        s.pc == base,
        5 <= s.ram[0] < 0xFFFF,
    ensures
        run(p, s, 7) == (Machine {
            a: 0,
            d: s.ram[p.env[name]],
            pc: base + 7,
            ram: s.ram.insert(s.ram[0], s.ram[p.env[name]]).insert(0, s.ram[0] + 1),
        }),
        size(save_code(name), 0) == 7,
{
    let head = seq![at(name), store(Dest::D, Comp::M)];
    lemma_loaded_parts(head, push_d(), base, p);
    assert(size(head, 0) == 2) by {
        reveal_with_fuel(size, 3);
    }
    let s1 = run(p, s, 2);
    assert(s1 == Machine { a: p.env[name], d: s.ram[p.env[name]], pc: base + 2, ram: s.ram }) by {
        reveal_with_fuel(loaded, 3);
        reveal_with_fuel(run, 3);
    }
    lemma_push_d(p, s1, base + 2);
    lemma_run_add(p, s, 2, 5);
    lemma_size_parts(head, push_d(), 0);
}

// ---------------------------------------------------------------------------
// Calls

/// The number of instructions in the translation of a call.
pub open spec fn call_size() -> int {
    48
}

/// The memory after a call from the state `s`: above the caller's stack
/// stand the return address `back` and the caller's `LCL`, `ARG`, `THIS`
/// and `THAT`; `SP` and `LCL` address the cell above them, and `ARG` the
/// first of the `n` arguments.
pub open spec fn call_memory(s: Machine, back: int, n: int) -> Map<int, int> {
    let sp = s.ram[0];
    s.ram.insert(sp, back).insert(0, sp + 1).insert(sp + 1, s.ram[1]).insert(0, sp + 2).insert(
        sp + 2,
        s.ram[2],
    ).insert(0, sp + 3).insert(sp + 3, s.ram[3]).insert(0, sp + 4).insert(sp + 4, s.ram[4]).insert(
        0,
        sp + 5,
    ).insert(2, sp - n).insert(1, sp + 5)
}

/// The first lines of the translation of a call, which load the return
/// address.
spec fn call_head(back: Seq<char>) -> Seq<Line> {
    seq![at(back), store(Dest::D, Comp::A)]
}

/// The last lines of the translation of a call, which set `ARG` and `LCL`
/// and jump to the callee.
spec fn call_tail(name: Seq<char>, n: nat, back: Seq<char>) -> Seq<Line> {
    seq![
        store(Dest::D, Comp::M),
        Line::AtValue(n as int),
        store(Dest::D, Comp::DMinusA),
        Line::AtValue(5),
        store(Dest::D, Comp::DMinusA),
        at("ARG"@),
        store(Dest::M, Comp::D),
        at("SP"@),
        store(Dest::D, Comp::M),
        at("LCL"@),
        store(Dest::M, Comp::D),
        at(name),
        branch(Comp::Zero, Jump::JMP),
        Line::Label(back),
    ]
}

proof fn lemma_call_head(p: Program, s: Machine, base: int, back: Seq<char>)
    requires
        loaded(call_head(back), 0, base, p),
        s.pc == base,
        0 <= p.env[back] < 0x8000,
    ensures
        run(p, s, 2) == (Machine { a: p.env[back], d: p.env[back], pc: base + 2, ram: s.ram }),
        size(call_head(back), 0) == 2,
{
    reveal_with_fuel(loaded, 3);
    reveal_with_fuel(run, 3);
    reveal_with_fuel(size, 3);
}

proof fn lemma_call_tail_placed(p: Program, base: int, name: Seq<char>, n: nat, back: Seq<char>)
    requires
        loaded(call_tail(name, n, back), 0, base, p),
    ensures
        p.env[back] == base + 13,
        size(call_tail(name, n, back), 0) == 13,
        p.rom[base] == store(Dest::D, Comp::M),
        p.rom[base + 1] == Line::AtValue(n as int),
        p.rom[base + 2] == store(Dest::D, Comp::DMinusA),
        p.rom[base + 3] == Line::AtValue(5),
        p.rom[base + 4] == store(Dest::D, Comp::DMinusA),
        p.rom[base + 5] == at("ARG"@),
        p.rom[base + 6] == store(Dest::M, Comp::D),
        p.rom[base + 7] == at("SP"@),
        p.rom[base + 8] == store(Dest::D, Comp::M),
        p.rom[base + 9] == at("LCL"@),
        p.rom[base + 10] == store(Dest::M, Comp::D),
        p.rom[base + 11] == at(name),
        p.rom[base + 12] == branch(Comp::Zero, Jump::JMP),
{
    reveal_with_fuel(loaded, 15);
    reveal_with_fuel(size, 15);
}

proof fn lemma_call_tail(p: Program, s: Machine, base: int, name: Seq<char>, n: nat, back: Seq<char>)
    requires
        loaded(call_tail(name, n, back), 0, base, p),
        registers_bound(p.env),
        s.pc == base,
        s.a == 0,
        n < 0x8000,
        n + 5 <= s.ram[0] <= 0xFFFF,
    ensures
        run(p, s, 13) == (Machine {
            a: p.env[name] % 0x8000,
            d: s.ram[0],
            pc: p.env[name] % 0x8000,
            ram: s.ram.insert(2, s.ram[0] - 5 - n).insert(1, s.ram[0]),
        }),
{
    lemma_call_tail_placed(p, base, name, n, back);
    reveal_with_fuel(run, 14);
}

/// What a call does. From a state whose stack holds at least the `n`
/// arguments and has room for five more cells, the translation of
/// `call name n`, in 48 steps,
/// - pushes the address of the instruction behind the call, to which the
///   return label is bound, and then the caller's `LCL`, `ARG`, `THIS` and
///   `THAT`, in this order;
/// - sets `ARG` to the address of the first argument, which is the old
///   `SP` less `n`, and `LCL` to the new `SP`;
/// - goes on at the address of the callee;
/// and changes no other cell.
pub proof fn lemma_call(p: Program, s: Machine, base: int, name: Seq<char>, n: nat, k: nat)
    requires
        loaded(call_code(name, n, k), 0, base, p),
        registers_bound(p.env),
        s.pc == base,
        0 <= base,
        base + call_size() < 0x8000,
        n < 0x8000,
        5 <= s.ram[0],
        n <= s.ram[0],
        s.ram[0] + 5 <= 0xFFFF,
    ensures
        p.env[return_label(name, n, k)] == base + call_size(),
        size(call_code(name, n, k), 0) == call_size(),
        run(p, s, 48) == (Machine {
            a: p.env[name] % 0x8000,
            d: s.ram[0] + 5,
            pc: p.env[name] % 0x8000,
            ram: call_memory(s, base + call_size(), n as int),
        }),
{
    let back = return_label(name, n, k);
    let head = call_head(back);
    let tail = call_tail(name, n, back);
    let c1 = head + push_d();
    let c2 = c1 + save_code("LCL"@);
    let c3 = c2 + save_code("ARG"@);
    let c4 = c3 + save_code("THIS"@);
    let c5 = c4 + save_code("THAT"@);
    assert(call_code(name, n, k) == c5 + tail);
    let sp = s.ram[0];

    // Where the parts stand.
    lemma_loaded_parts(c5, tail, base, p);
    lemma_loaded_parts(c4, save_code("THAT"@), base, p);
    lemma_loaded_parts(c3, save_code("THIS"@), base, p);
    lemma_loaded_parts(c2, save_code("ARG"@), base, p);
    lemma_loaded_parts(c1, save_code("LCL"@), base, p);
    lemma_loaded_parts(head, push_d(), base, p);
    lemma_size_parts(head, push_d(), 0);
    lemma_size_parts(c1, save_code("LCL"@), 0);
    lemma_size_parts(c2, save_code("ARG"@), 0);
    lemma_size_parts(c3, save_code("THIS"@), 0);
    lemma_size_parts(c4, save_code("THAT"@), 0);
    lemma_size_parts(c5, tail, 0);
    lemma_sizes(head, name, n, back);
    lemma_call_tail_placed(p, base + 35, name, n, back);

    // The return address.
    lemma_call_head(p, s, base, back);
    let s1 = run(p, s, 2);
    lemma_push_d(p, s1, base + 2);
    let s2 = run(p, s1, 5);
    lemma_run_add(p, s, 2, 5);

    // The four pointers.
    lemma_save(p, s2, base + 7, "LCL"@);
    let s3 = run(p, s2, 7);
    lemma_run_add(p, s, 7, 7);
    lemma_save(p, s3, base + 14, "ARG"@);
    let s4 = run(p, s3, 7);
    lemma_run_add(p, s, 14, 7);
    lemma_save(p, s4, base + 21, "THIS"@);
    let s5 = run(p, s4, 7);
    lemma_run_add(p, s, 21, 7);
    lemma_save(p, s5, base + 28, "THAT"@);
    let s6 = run(p, s5, 7);
    lemma_run_add(p, s, 28, 7);

    // The new pointers and the jump.
    lemma_call_tail(p, s6, base + 35, name, n, back);
    lemma_run_add(p, s, 35, 13);
}

proof fn lemma_sizes(head: Seq<Line>, name: Seq<char>, n: nat, back: Seq<char>)
    requires
        head == call_head(back),
    ensures
        size(head, 0) == 2,
        size(push_d(), 0) == 5,
        size(save_code("LCL"@), 0) == 7,
        size(save_code("ARG"@), 0) == 7,
        size(save_code("THIS"@), 0) == 7,
        size(save_code("THAT"@), 0) == 7,
        size(call_tail(name, n, back), 0) == 13,
{
    reveal_with_fuel(size, 15);
    lemma_save_size("LCL"@);
    lemma_save_size("ARG"@);
    lemma_save_size("THIS"@);
    lemma_save_size("THAT"@);
}

proof fn lemma_save_size(name: Seq<char>)
    ensures
        size(save_code(name), 0) == 7,
{
    let head = seq![at(name), store(Dest::D, Comp::M)];
    lemma_size_parts(head, push_d(), 0);
    reveal_with_fuel(size, 6);
}

// ---------------------------------------------------------------------------
// Returns

/// The number of instructions in the translation of a return.
pub open spec fn return_size() -> int {
    56
}

/// Where the two variables of a return stand: apart, above the registers
/// and below the stack, which begins at the address 256.
pub open spec fn variables_bound(env: Map<Seq<char>, int>) -> bool {
    &&& 16 <= env["STACK_FRAME"@] < 256
    &&& 16 <= env["RETURN"@] < 256
    &&& env["STACK_FRAME"@] != env["RETURN"@]
}

/// Whether the state `s` can return: the stack holds a value to return,
/// and the frame of five cells below the address in `LCL` lies above the
/// address in `ARG`, which lies on the stack.
pub open spec fn can_return(s: Machine) -> bool {
    &&& 256 < s.ram[0] <= 0xFFFF
    &&& 256 <= s.ram[2]
    &&& s.ram[2] + 5 <= s.ram[1] <= 0xFFFF
}

/// The memory after the first part of a return from the state `s`.
spec fn unwind_memory(s: Machine, env: Map<Seq<char>, int>) -> Map<int, int> {
    let lcl = s.ram[1];
    s.ram.insert(env["STACK_FRAME"@], lcl).insert(env["RETURN"@], s.ram[lcl - 5]).insert(
        0,
        s.ram[0] - 1,
    ).insert(s.ram[2], s.ram[s.ram[0] - 1]).insert(0, s.ram[2] + 1)
}

/// The memory after a return from the state `s`: the value on top of the
/// stack stands where `ARG` pointed, `SP` addresses the cell above it, and
/// `THAT`, `THIS`, `ARG` and `LCL` hold what the four cells below the
/// address in `LCL` held.
pub open spec fn return_memory(s: Machine, env: Map<Seq<char>, int>) -> Map<int, int> {
    let lcl = s.ram[1];
    s.ram.insert(env["STACK_FRAME"@], lcl).insert(env["RETURN"@], s.ram[lcl - 5]).insert(
        0,
        s.ram[0] - 1,
    ).insert(s.ram[2], s.ram[s.ram[0] - 1]).insert(0, s.ram[2] + 1).insert(4, s.ram[lcl - 1]).insert(
        3,
        s.ram[lcl - 2],
    ).insert(2, s.ram[lcl - 3]).insert(1, s.ram[lcl - 4])
}

proof fn lemma_unwind_placed(p: Program, base: int)
    requires
        loaded(unwind_code(), 0, base, p),
    ensures
        size(unwind_code(), 0) == 27,
        forall|i: int| 0 <= i < 27 ==> p.rom[base + i] == #[trigger] unwind_code()[i],
{
    reveal_with_fuel(loaded, 28);
    reveal_with_fuel(size, 28);
}

proof fn lemma_unwind(p: Program, s: Machine, base: int)
    requires
        loaded(unwind_code(), 0, base, p),
        registers_bound(p.env),
        variables_bound(p.env),
        can_return(s),
        s.pc == base,
    ensures
        run(p, s, 27) == (Machine {
            a: s.ram[1] - 1,
            d: s.ram[s.ram[1] - 1],
            pc: base + 27,
            ram: unwind_memory(s, p.env),
        }),
{
    lemma_unwind_placed(p, base);
    let code = unwind_code();
    // The frame base and the return address.
    assert(p.rom[base + 0] == code[0]);
    assert(p.rom[base + 1] == code[1]);
    assert(p.rom[base + 2] == code[2]);
    assert(p.rom[base + 3] == code[3]);
    assert(p.rom[base + 4] == code[4]);
    assert(p.rom[base + 5] == code[5]);
    assert(p.rom[base + 6] == code[6]);
    assert(p.rom[base + 7] == code[7]);
    assert(p.rom[base + 8] == code[8]);
    assert(p.rom[base + 9] == code[9]);
    let s1 = run(p, s, 10);
    let f = p.env["STACK_FRAME"@];
    let r = p.env["RETURN"@];
    let lcl = s.ram[1];
    assert(s1 == Machine {
        a: r,
        d: s.ram[lcl - 5],
        pc: base + 10,
        ram: s.ram.insert(f, lcl).insert(r, s.ram[lcl - 5]),
    }) by {
        reveal_with_fuel(run, 11);
    }
    // The value returned.
    assert(p.rom[base + 10] == code[10]);
    assert(p.rom[base + 11] == code[11]);
    assert(p.rom[base + 12] == code[12]);
    assert(p.rom[base + 13] == code[13]);
    assert(p.rom[base + 14] == code[14]);
    assert(p.rom[base + 15] == code[15]);
    assert(p.rom[base + 16] == code[16]);
    let s2 = run(p, s1, 7);
    assert(s2 == Machine {
        a: s.ram[2],
        d: s.ram[s.ram[0] - 1],
        pc: base + 17,
        ram: s1.ram.insert(0, s.ram[0] - 1).insert(s.ram[2], s.ram[s.ram[0] - 1]),
    }) by {
        reveal_with_fuel(run, 8);
    }
    lemma_run_add(p, s, 10, 7);
    // The stack pointer, and the saved `THAT`.
    assert(p.rom[base + 17] == code[17]);
    assert(p.rom[base + 18] == code[18]);
    assert(p.rom[base + 19] == code[19]);
    assert(p.rom[base + 20] == code[20]);
    assert(p.rom[base + 21] == code[21]);
    assert(p.rom[base + 22] == code[22]);
    assert(p.rom[base + 23] == code[23]);
    assert(p.rom[base + 24] == code[24]);
    assert(p.rom[base + 25] == code[25]);
    assert(p.rom[base + 26] == code[26]);
    let s3 = run(p, s2, 10);
    assert(s3 == Machine {
        a: lcl - 1,
        d: s.ram[lcl - 1],
        pc: base + 27,
        ram: s2.ram.insert(0, s.ram[2] + 1),
    }) by {
        reveal_with_fuel(run, 11);
    }
    lemma_run_add(p, s, 17, 10);
}

/// Restoring a register stores `D` in it and loads the cell that lies
/// `offset` below the frame base.
proof fn lemma_restore(p: Program, s: Machine, base: int, dest: Seq<char>, offset: nat)
    requires
        loaded(restore_code("STACK_FRAME"@, dest, offset), 0, base, p),
        variables_bound(p.env),
        1 <= p.env[dest] <= 4,
        s.pc == base,
        1 <= offset <= 4,
        256 + offset <= s.ram[p.env["STACK_FRAME"@]] <= 0xFFFF,
    ensures
        run(p, s, 8) == (Machine {
            a: s.ram[p.env["STACK_FRAME"@]] - offset,
            d: s.ram[s.ram[p.env["STACK_FRAME"@]] - offset],
            pc: base + 8,
            ram: s.ram.insert(p.env[dest], s.d),
        }),
        size(restore_code("STACK_FRAME"@, dest, offset), 0) == 8,
{
    reveal_with_fuel(loaded, 9);
    reveal_with_fuel(run, 9);
    reveal_with_fuel(size, 9);
}

/// The last lines of the translation of a return, which restore `LCL` and
/// jump to the return address.
spec fn return_tail() -> Seq<Line> {
    seq![
        at("LCL"@),
        store(Dest::M, Comp::D),
        at("RETURN"@),
        store(Dest::A, Comp::M),
        branch(Comp::Zero, Jump::JMP),
    ]
}

proof fn lemma_return_tail(p: Program, s: Machine, base: int)
    requires
        loaded(return_tail(), 0, base, p),
        registers_bound(p.env),
        variables_bound(p.env),
        s.pc == base,
    ensures
        run(p, s, 5) == (Machine {
            a: s.ram[p.env["RETURN"@]],
            d: s.d,
            pc: s.ram[p.env["RETURN"@]],
            ram: s.ram.insert(1, s.d),
        }),
        size(return_tail(), 0) == 5,
{
    reveal_with_fuel(loaded, 6);
    reveal_with_fuel(run, 6);
    reveal_with_fuel(size, 6);
}

/// What a return does. From a state that can return, the translation of
/// `return`, in 56 steps,
/// - stores the value on top of the stack in the cell that `ARG` addresses
///   and sets `SP` to the address of the cell above it;
/// - restores `THAT`, `THIS`, `ARG` and `LCL` from the cells that lie 1, 2,
///   3 and 4 below the address that `LCL` held;
/// - goes on at the address that the cell 5 below that address held;
/// and changes no other cell but its two variables.
pub proof fn lemma_return(p: Program, s: Machine, base: int)
    requires
        loaded(return_code(), 0, base, p),
        registers_bound(p.env),
        variables_bound(p.env),
        can_return(s),
        s.pc == base,
    ensures
        size(return_code(), 0) == return_size(),
        run(p, s, 56) == (Machine {
            a: s.ram[s.ram[1] - 5],
            d: s.ram[s.ram[1] - 4],
            pc: s.ram[s.ram[1] - 5],
            ram: return_memory(s, p.env),
        }),
{
    let r1 = restore_code("STACK_FRAME"@, "THAT"@, 2);
    let r2 = restore_code("STACK_FRAME"@, "THIS"@, 3);
    let r3 = restore_code("STACK_FRAME"@, "ARG"@, 4);
    let c1 = unwind_code() + r1;
    let c2 = c1 + r2;
    let c3 = c2 + r3;
    assert(return_code() == c3 + return_tail());
    lemma_loaded_parts(c3, return_tail(), base, p);
    lemma_loaded_parts(c2, r3, base, p);
    lemma_loaded_parts(c1, r2, base, p);
    lemma_loaded_parts(unwind_code(), r1, base, p);
    lemma_size_parts(unwind_code(), r1, 0);
    lemma_size_parts(c1, r2, 0);
    lemma_size_parts(c2, r3, 0);
    lemma_size_parts(c3, return_tail(), 0);
    lemma_unwind_placed(p, base);

    lemma_unwind(p, s, base);
    let s1 = run(p, s, 27);
    lemma_restore(p, s1, base + 27, "THAT"@, 2);
    let s2 = run(p, s1, 8);
    lemma_run_add(p, s, 27, 8);
    lemma_restore(p, s2, base + 35, "THIS"@, 3);
    let s3 = run(p, s2, 8);
    lemma_run_add(p, s, 35, 8);
    lemma_restore(p, s3, base + 43, "ARG"@, 4);
    let s4 = run(p, s3, 8);
    lemma_run_add(p, s, 43, 8);
    lemma_return_tail(p, s4, base + 51);
    lemma_run_add(p, s, 51, 5);
}

// ---------------------------------------------------------------------------
// A call and its return

/// Whether the callee, on its way from the state `entry` in which it began
/// to the state `s`, has kept its frame: `LCL` and `ARG` are what they
/// were, and so are the five cells below the address in `LCL`, which hold
/// the return address and the caller's pointers.
pub open spec fn frame_kept(entry: Machine, s: Machine) -> bool {
    let lcl = entry.ram[1];
    &&& s.ram[1] == lcl
    &&& s.ram[2] == entry.ram[2]
    &&& s.ram[lcl - 1] == entry.ram[lcl - 1]
    &&& s.ram[lcl - 2] == entry.ram[lcl - 2]
    &&& s.ram[lcl - 3] == entry.ram[lcl - 3]
    &&& s.ram[lcl - 4] == entry.ram[lcl - 4]
    &&& s.ram[lcl - 5] == entry.ram[lcl - 5]
}

/// A call and the callee's return leave the caller as it was, with the
/// arguments replaced by the value returned.
///
/// Let the state `s` stand before the translation of `call name n`, with
/// the `n` arguments on its stack, and let the callee, once called, reach
/// the state `u` before the translation of a `return`, with its frame kept
/// and a value on its stack. Then, after the return,
/// - the machine goes on at the instruction behind the call;
/// - `LCL`, `ARG`, `THIS` and `THAT` hold what they held in `s`;
/// - `SP` is what it was in `s`, less `n`, plus one;
/// - the top of the stack, where the first argument stood, holds the value
///   that was on top of the callee's stack.
pub proof fn lemma_call_return(
    p: Program,
    s: Machine,
    u: Machine,
    base: int,
    exit: int,
    name: Seq<char>,
    n: nat,
    k: nat,
)
    requires
        loaded(call_code(name, n, k), 0, base, p),
        loaded(return_code(), 0, exit, p),
        registers_bound(p.env),
        variables_bound(p.env),
        s.pc == base,
        0 <= base,
        base + call_size() < 0x8000,
        n < 0x8000,
        256 <= s.ram[0] - n,
        s.ram[0] + 5 <= 0xFFFF,
        crate::machine::reaches(p, run(p, s, 48), u),
        frame_kept(run(p, s, 48), u),
        u.pc == exit,
        256 < u.ram[0] <= 0xFFFF,
    ensures
        crate::machine::reaches(p, s, run(p, u, 56)),
        run(p, u, 56).pc == base + call_size(),
        run(p, u, 56).pc == p.env[return_label(name, n, k)],
        run(p, u, 56).ram[1] == s.ram[1],
        run(p, u, 56).ram[2] == s.ram[2],
        run(p, u, 56).ram[3] == s.ram[3],
        run(p, u, 56).ram[4] == s.ram[4],
        run(p, u, 56).ram[0] == s.ram[0] - n + 1,
        run(p, u, 56).ram[s.ram[0] - n] == u.ram[u.ram[0] - 1],
{
    lemma_call(p, s, base, name, n, k);
    let entry = run(p, s, 48);
    let sp = s.ram[0];
    assert(entry.ram[1] == sp + 5);
    assert(entry.ram[2] == sp - n);
    assert(entry.ram[sp] == base + 48);
    assert(entry.ram[sp + 1] == s.ram[1]);
    assert(entry.ram[sp + 2] == s.ram[2]);
    assert(entry.ram[sp + 3] == s.ram[3]);
    assert(entry.ram[sp + 4] == s.ram[4]);
    lemma_return(p, u, exit);
    let t = run(p, u, 56);
    let m = choose|m: nat| run(p, entry, m) == u;
    lemma_run_add(p, s, 48, m);
    lemma_run_add(p, s, 48 + m, 56);
    assert(run(p, s, 48 + m + 56) == t);
}

// ---------------------------------------------------------------------------
// The start of a program

/// The lines of the bootstrap code that set up the stack.
spec fn bootstrap_head() -> Seq<Line> {
    seq![
        Line::Comment(
            "Boilerplate bootstrap for Sys.init. Call Sys.init, initalize stack point to 256"@,
        ),
        Line::AtValue(256),
        store(Dest::D, Comp::A),
        at("SP"@),
        store(Dest::M, Comp::D),
        Line::Blank,
        Line::Comment("Calling Sys.init 0"@),
    ]
}

proof fn lemma_bootstrap_head(p: Program, s: Machine, base: int)
    requires
        loaded(bootstrap_head(), 0, base, p),
        p.env["SP"@] == 0,
        s.pc == base,
    ensures
        size(bootstrap_head(), 0) == 4,
        run(p, s, 4) == (Machine { a: 0, d: 256, pc: base + 4, ram: s.ram.insert(0, 256) }),
{
    reveal_with_fuel(loaded, 8);
    reveal_with_fuel(run, 5);
    reveal_with_fuel(size, 8);
}

/// What the bootstrap code does. From any state, in 52 steps, it sets `SP`
/// to 256 and calls `Sys.init` without arguments: the return address and
/// the four pointers are pushed from the address 256 on, `ARG` is 256,
/// `LCL` and `SP` are 261, and the program goes on at `Sys.init`.
pub proof fn lemma_bootstrap(p: Program, s: Machine, base: int, k: nat)
    requires
        loaded(bootstrap_code(k), 0, base, p),
        registers_bound(p.env),
        s.pc == base,
        0 <= base,
        base + 4 + call_size() < 0x8000,
    ensures
        size(bootstrap_code(k), 0) == 4 + call_size(),
        run(p, s, 52).pc == p.env["Sys.init"@] % 0x8000,
        run(p, s, 52).ram == call_memory(
            (Machine { ram: s.ram.insert(0, 256), ..s }),
            base + 4 + call_size(),
            0,
        ),
        run(p, s, 52).ram[0] == 261,
        run(p, s, 52).ram[1] == 261,
        run(p, s, 52).ram[2] == 256,
{
    let call = call_code("Sys.init"@, 0, k);
    assert(bootstrap_code(k) == bootstrap_head() + call);
    lemma_loaded_parts(bootstrap_head(), call, base, p);
    lemma_size_parts(bootstrap_head(), call, 0);
    lemma_bootstrap_head(p, s, base);
    let s1 = run(p, s, 4);
    lemma_call(p, s1, base + 4, "Sys.init"@, 0, k);
    lemma_run_add(p, s, 4, 48);
}

} // verus!
