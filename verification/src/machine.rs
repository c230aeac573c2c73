//! A model of the target machine, on which the meaning of a listing is
//! stated: two registers, a program counter and a memory of 16-bit words,
//! a program memory that holds one instruction at each address, and the
//! addresses of the symbols.

use vstd::prelude::*;
use crate::isa::{Comp, Dest, Jump, comp_number, dest_number, jump_number};
use crate::listing::Line;

verus! {

/// Whether `x` is the value of a word.
pub open spec fn is_word(x: int) -> bool {
    0 <= x < 0x10000
}

/// The word that an integer is cut down to.
pub open spec fn wrap(x: int) -> int {
    x % 0x10000
}

/// The integer that a word stands for in two's complement.
pub open spec fn signed(w: int) -> int {
    if w >= 0x8000 {
        w - 0x10000
    } else {
        w
    }
}

/// A state of the machine.
pub struct Machine {
    /// The address register.
    pub a: int,
    /// The data register.
    pub d: int,
    /// The address of the next instruction.
    pub pc: int,
    /// The memory, by address.
    pub ram: Map<int, int>,
}

/// A program in place: the instruction at each address of the program
/// memory, and the address of each symbol.
pub struct Program {
    pub rom: Map<int, Line>,
    pub env: Map<Seq<char>, int>,
}

/// The bits that two words have in common.
pub open spec fn bits_and(x: int, y: int) -> int {
    ((x as u16) & (y as u16)) as int
}

/// The bits that either of two words has.
pub open spec fn bits_or(x: int, y: int) -> int {
    ((x as u16) | (y as u16)) as int
}

/// The value of a computation, where `a` and `d` are the registers and `m`
/// is the memory cell that `a` addresses.
pub open spec fn compute(c: Comp, a: int, d: int, m: int) -> int {
    match c {
        Comp::Zero => 0,
        Comp::One => 1,
        Comp::MinusOne => 0xFFFF,
        Comp::D => d,
        Comp::A => a,
        Comp::M => m,
        Comp::NotD => 0xFFFF - d,
        Comp::NotA => 0xFFFF - a,
        Comp::NotM => 0xFFFF - m,
        Comp::NegD => wrap(-d),
        Comp::NegA => wrap(-a),
        Comp::NegM => wrap(-m),
        Comp::DPlusOne => wrap(d + 1),
        Comp::APlusOne => wrap(a + 1),
        Comp::MPlusOne => wrap(m + 1),
        Comp::DMinusOne => wrap(d - 1),
        Comp::AMinusOne => wrap(a - 1),
        Comp::MMinusOne => wrap(m - 1),
        Comp::DPlusA => wrap(d + a),
        Comp::DPlusM => wrap(d + m),
        Comp::DMinusA => wrap(d - a),
        Comp::DMinusM => wrap(d - m),
        Comp::AMinusD => wrap(a - d),
        Comp::MMinusD => wrap(m - d),
        Comp::DAndA => bits_and(d, a),
        Comp::DAndM => bits_and(d, m),
        Comp::DOrA => bits_or(d, a),
        Comp::DOrM => bits_or(d, m),
    }
}

/// The arithmetic unit of the machine. Of its two inputs, each is first
/// set to zero if its `z` control is on and then inverted if its `n`
/// control is on; the two are added if `f` is on and combined bit by bit
/// with "and" if it is off; and the outcome is inverted if `no` is on.
pub open spec fn unit(
    x: int,
    y: int,
    zx: bool,
    nx: bool,
    zy: bool,
    ny: bool,
    f: bool,
    no: bool,
) -> int {
    let x1 = if zx {
        0
    } else {
        x
    };
    let x2 = if nx {
        0xFFFF - x1
    } else {
        x1
    };
    let y1 = if zy {
        0
    } else {
        y
    };
    let y2 = if ny {
        0xFFFF - y1
    } else {
        y1
    };
    let out = if f {
        wrap(x2 + y2)
    } else {
        bits_and(x2, y2)
    };
    if no {
        0xFFFF - out
    } else {
        out
    }
}

/// Whether the bit of weight `weight`, a power of two, is set in `n`.
pub open spec fn has_bit(n: int, weight: int) -> bool {
    (n / weight) % 2 == 1
}

/// The controls of the arithmetic unit as the number `n` of seven bits
/// holds them: the first bit selects the memory cell `m` in place of `a` as
/// the second input, beside `d` as the first, and the six bits after it
/// are the controls `zx`, `nx`, `zy`, `ny`, `f` and `no`.
pub open spec fn controlled(n: int, a: int, d: int, m: int) -> int {
    unit(
        d,
        if has_bit(n, 64) {
            m
        } else {
            a
        },
        has_bit(n, 32),
        has_bit(n, 16),
        has_bit(n, 8),
        has_bit(n, 4),
        has_bit(n, 2),
        has_bit(n, 1),
    )
}

/// What the unit needs of "and" and "or" on words.
proof fn lemma_bits(x: int, y: int)
    requires
        is_word(x),
        is_word(y),
    ensures
        bits_and(x, 0xFFFF) == x,
        bits_and(0xFFFF, y) == y,
        0xFFFF - bits_and(0xFFFF - x, 0xFFFF - y) == bits_or(x, y),
{
    let a = x as u16;
    let b = y as u16;
    assert(a & 0xFFFF == a) by (bit_vector);
    assert(0xFFFF & b == b) by (bit_vector);
    assert(!a == 0xFFFF - a) by (bit_vector);
    assert(!b == 0xFFFF - b) by (bit_vector);
    assert(!(!a & !b) == a | b) by (bit_vector);
    assert(!(!a & !b) == 0xFFFF - (!a & !b)) by (bit_vector);
    assert((0xFFFF - x) as u16 == !a);
    assert((0xFFFF - y) as u16 == !b);
}

/// The bits of a computation are the controls under which the arithmetic
/// unit computes it.
pub proof fn lemma_bits_compute(c: Comp, a: int, d: int, m: int)
    requires
        is_word(a),
        is_word(d),
        is_word(m),
    ensures
        compute(c, a, d, m) == controlled(comp_number(c), a, d, m),
{
    lemma_bits(d, a);
    lemma_bits(d, m);
    // One case for each computation keeps every step small.
    match c {
        Comp::Zero => {
            assert(compute(c, a, d, m) == controlled(comp_number(Comp::Zero), a, d, m));
        },
        Comp::One => {
            assert(compute(c, a, d, m) == controlled(comp_number(Comp::One), a, d, m));
        },
        Comp::MinusOne => {
            assert(compute(c, a, d, m) == controlled(comp_number(Comp::MinusOne), a, d, m));
        },
        Comp::D => {
            assert(compute(c, a, d, m) == controlled(comp_number(Comp::D), a, d, m));
        },
        Comp::A => {
            assert(compute(c, a, d, m) == controlled(comp_number(Comp::A), a, d, m));
        },
        Comp::NotD => {
            assert(compute(c, a, d, m) == controlled(comp_number(Comp::NotD), a, d, m));
        },
        Comp::NotA => {
            assert(compute(c, a, d, m) == controlled(comp_number(Comp::NotA), a, d, m));
        },
        Comp::NegD => {
            assert(compute(c, a, d, m) == controlled(comp_number(Comp::NegD), a, d, m));
        },
        Comp::NegA => {
            assert(compute(c, a, d, m) == controlled(comp_number(Comp::NegA), a, d, m));
        },
        Comp::DPlusOne => {
            assert(compute(c, a, d, m) == controlled(comp_number(Comp::DPlusOne), a, d, m));
        },
        Comp::APlusOne => {
            assert(compute(c, a, d, m) == controlled(comp_number(Comp::APlusOne), a, d, m));
        },
        Comp::DMinusOne => {
            assert(compute(c, a, d, m) == controlled(comp_number(Comp::DMinusOne), a, d, m));
        },
        Comp::AMinusOne => {
            assert(compute(c, a, d, m) == controlled(comp_number(Comp::AMinusOne), a, d, m));
        },
        Comp::DPlusA => {
            assert(compute(c, a, d, m) == controlled(comp_number(Comp::DPlusA), a, d, m));
        },
        Comp::DMinusA => {
            assert(compute(c, a, d, m) == controlled(comp_number(Comp::DMinusA), a, d, m));
        },
        Comp::AMinusD => {
            assert(compute(c, a, d, m) == controlled(comp_number(Comp::AMinusD), a, d, m));
        },
        Comp::DAndA => {
            assert(compute(c, a, d, m) == controlled(comp_number(Comp::DAndA), a, d, m));
        },
        Comp::DOrA => {
            assert(compute(c, a, d, m) == controlled(comp_number(Comp::DOrA), a, d, m));
        },
        Comp::M => {
            assert(compute(c, a, d, m) == controlled(comp_number(Comp::M), a, d, m));
        },
        Comp::NotM => {
            assert(compute(c, a, d, m) == controlled(comp_number(Comp::NotM), a, d, m));
        },
        Comp::NegM => {
            assert(compute(c, a, d, m) == controlled(comp_number(Comp::NegM), a, d, m));
        },
        Comp::MPlusOne => {
            assert(compute(c, a, d, m) == controlled(comp_number(Comp::MPlusOne), a, d, m));
        },
        Comp::MMinusOne => {
            assert(compute(c, a, d, m) == controlled(comp_number(Comp::MMinusOne), a, d, m));
        },
        Comp::DPlusM => {
            assert(compute(c, a, d, m) == controlled(comp_number(Comp::DPlusM), a, d, m));
        },
        Comp::DMinusM => {
            assert(compute(c, a, d, m) == controlled(comp_number(Comp::DMinusM), a, d, m));
        },
        Comp::MMinusD => {
            assert(compute(c, a, d, m) == controlled(comp_number(Comp::MMinusD), a, d, m));
        },
        Comp::DAndM => {
            assert(compute(c, a, d, m) == controlled(comp_number(Comp::DAndM), a, d, m));
        },
        Comp::DOrM => {
            assert(compute(c, a, d, m) == controlled(comp_number(Comp::DOrM), a, d, m));
        },
    }
}

/// Whether a destination holds the address register.
pub open spec fn stores_a(d: Dest) -> bool {
    d is A || d is AM || d is AD || d is AMD
}

/// Whether a destination holds the data register.
pub open spec fn stores_d(d: Dest) -> bool {
    d is D || d is MD || d is AD || d is AMD
}

/// Whether a destination holds the addressed memory cell.
pub open spec fn stores_m(d: Dest) -> bool {
    d is M || d is MD || d is AM || d is AMD
}

/// Whether a jump is taken on the computed word `v`.
pub open spec fn jumps(j: Jump, v: int) -> bool {
    match j {
        Jump::Null => false,
        Jump::JGT => signed(v) > 0,
        Jump::JEQ => signed(v) == 0,
        Jump::JGE => signed(v) >= 0,
        Jump::JLT => signed(v) < 0,
        Jump::JNE => signed(v) != 0,
        Jump::JLE => signed(v) <= 0,
        Jump::JMP => true,
    }
}

/// The bits of a destination name the places that it holds: the first
/// bit the address register, the second the data register and the third
/// the addressed memory cell.
pub proof fn lemma_bits_store(d: Dest)
    ensures
        stores_a(d) == has_bit(dest_number(d), 4),
        stores_d(d) == has_bit(dest_number(d), 2),
        stores_m(d) == has_bit(dest_number(d), 1),
{
}

/// The bits of a jump condition name the signs on which the jump is
/// taken: the first bit a negative word, the second zero and the third a
/// positive word.
pub proof fn lemma_bits_jump(j: Jump, v: int)
    ensures
        jumps(j, v) == ((has_bit(jump_number(j), 4) && signed(v) < 0) || (has_bit(
            jump_number(j),
            2,
        ) && signed(v) == 0) || (has_bit(jump_number(j), 1) && signed(v) > 0)),
{
}

/// Whether a line is an instruction, which takes a place in the program
/// memory.
pub open spec fn is_instruction(l: Line) -> bool {
    l is AtValue || l is AtName || l is Compute
}

/// The state after the instruction `l` in the state `s`.
///
/// An address instruction loads the last fifteen bits of its number, or of
/// the address of its symbol. A compute instruction computes a word from
/// the registers and the cell that `A` addresses, stores it in each of its
/// destinations, the cell being the one that `A` addressed before, and then
/// goes on at the address that `A` held before if the word meets the jump
/// condition, and at the next address if not.
pub open spec fn execute(l: Line, env: Map<Seq<char>, int>, s: Machine) -> Machine {
    match l {
        Line::AtValue(v) => Machine { a: v % 0x8000, pc: s.pc + 1, ..s },
        Line::AtName(name) => Machine { a: env[name] % 0x8000, pc: s.pc + 1, ..s },
        Line::Compute(d, c, j) => {
            let v = compute(c, s.a, s.d, s.ram[s.a]);
            Machine {
                a: if stores_a(d) {
                    v
                } else {
                    s.a
                },
                d: if stores_d(d) {
                    v
                } else {
                    s.d
                },
                pc: if jumps(j, v) {
                    s.a
                } else {
                    s.pc + 1
                },
                ram: if stores_m(d) {
                    s.ram.insert(s.a, v)
                } else {
                    s.ram
                },
            }
        },
        _ => s,
    }
}

/// The state after one step of the program.
pub open spec fn step(p: Program, s: Machine) -> Machine {
    execute(p.rom[s.pc], p.env, s)
}

/// The state after `n` steps of the program.
pub open spec fn run(p: Program, s: Machine, n: nat) -> Machine
    decreases n,
{
    if n == 0 {
        s
    } else {
        run(p, step(p, s), (n - 1) as nat)
    }
}

/// Whether the program reaches the state `t` from the state `s` in some
/// number of steps.
pub open spec fn reaches(p: Program, s: Machine, t: Machine) -> bool {
    exists|n: nat| run(p, s, n) == t
}

/// Whether the lines of `code` from line `from` on stand in the program
/// from the address `at` on: each instruction at the address after that of
/// the instruction before it, and each label bound to the address of the
/// instruction that follows its declaration.
pub open spec fn loaded(code: Seq<Line>, from: int, at: int, p: Program) -> bool
    decreases code.len() - from,
{
    if from < 0 || from >= code.len() {
        true
    } else {
        match code[from] {
            Line::Label(name) => p.env.contains_key(name) && p.env[name] == at && loaded(
                code,
                from + 1,
                at,
                p,
            ),
            Line::Blank | Line::Comment(_) => loaded(code, from + 1, at, p),
            _ => p.rom.contains_key(at) && p.rom[at] == code[from] && loaded(
                code,
                from + 1,
                at + 1,
                p,
            ),
        }
    }
}

/// The number of instructions among the lines of `code` from line `from`
/// on.
pub open spec fn size(code: Seq<Line>, from: int) -> int
    decreases code.len() - from,
{
    if from < 0 || from >= code.len() {
        0
    } else if is_instruction(code[from]) {
        1 + size(code, from + 1)
    } else {
        size(code, from + 1)
    }
}

/// Running `m` steps and then `n` steps is running `m + n` steps.
pub proof fn lemma_run_add(p: Program, s: Machine, m: nat, n: nat)
    ensures
        run(p, s, m + n) == run(p, run(p, s, m), n),
    decreases m,
{
    if m > 0 {
        lemma_run_add(p, step(p, s), (m - 1) as nat, n);
    }
}

// ---------------------------------------------------------------------------
// Listings in parts

/// A listing in two parts is loaded from a line of the first part on
/// exactly if the first part is loaded from that line on and the second
/// part is loaded behind it, at the address after the instructions of the
/// first part.
pub proof fn lemma_loaded_first(a: Seq<Line>, b: Seq<Line>, from: int, at: int, p: Program)
    requires
        0 <= from <= a.len(),
    ensures
        loaded(a + b, from, at, p) == (loaded(a, from, at, p) && loaded(
            b,
            0,
            at + size(a, from),
            p,
        )),
    decreases a.len() - from,
{
    if from < a.len() {
        assert((a + b)[from] == a[from]);
        match a[from] {
            Line::Label(_) | Line::Blank | Line::Comment(_) => {
                lemma_loaded_first(a, b, from + 1, at, p);
            },
            _ => {
                lemma_loaded_first(a, b, from + 1, at + 1, p);
            },
        }
    } else {
        lemma_loaded_second(a, b, 0, at, p);
    }
}

/// A listing in two parts is loaded from a line of the second part on
/// exactly if the second part is loaded from that line on.
pub proof fn lemma_loaded_second(a: Seq<Line>, b: Seq<Line>, from: int, at: int, p: Program)
    requires
        0 <= from,
    ensures
        loaded(a + b, a.len() + from, at, p) == loaded(b, from, at, p),
    decreases b.len() - from,
{
    if from < b.len() {
        assert((a + b)[a.len() + from] == b[from]);
        match b[from] {
            Line::Label(_) | Line::Blank | Line::Comment(_) => {
                lemma_loaded_second(a, b, from + 1, at, p);
            },
            _ => {
                lemma_loaded_second(a, b, from + 1, at + 1, p);
            },
        }
    }
}

/// A listing in two parts is loaded exactly if the first part is loaded at
/// the same address and the second part behind the instructions of the
/// first.
pub proof fn lemma_loaded_parts(a: Seq<Line>, b: Seq<Line>, at: int, p: Program)
    ensures
        loaded(a + b, 0, at, p) == (loaded(a, 0, at, p) && loaded(b, 0, at + size(a, 0), p)),
{
    lemma_loaded_first(a, b, 0, at, p);
}

/// The instructions of a listing in two parts are those of the parts.
pub proof fn lemma_size_parts(a: Seq<Line>, b: Seq<Line>, from: int)
    requires
        0 <= from <= a.len(),
    ensures
        size(a + b, from) == size(a, from) + size(b, 0),
    decreases a.len() - from,
{
    if from < a.len() {
        assert((a + b)[from] == a[from]);
        lemma_size_parts(a, b, from + 1);
    } else {
        lemma_size_second(a, b, 0);
    }
}

/// The instructions of the second part of a listing.
pub proof fn lemma_size_second(a: Seq<Line>, b: Seq<Line>, from: int)
    requires
        0 <= from,
    ensures
        size(a + b, a.len() + from) == size(b, from),
    decreases b.len() - from,
{
    if from < b.len() {
        assert((a + b)[a.len() + from] == b[from]);
        lemma_size_second(a, b, from + 1);
    }
}

} // verus!
