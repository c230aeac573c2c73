//! The assembly that each stack-machine command is translated to, as
//! listings. The stack grows upward: `SP` addresses the first free cell, and
//! the top of the stack is the cell below it.

use vstd::prelude::*;
use crate::instr::{Operation, Segment};
use crate::isa::{Comp, Dest, Jump};
use crate::listing::{Line, at, branch, store};
use crate::text::{decimal, signed_decimal};

verus! {

/// A symbol made of a prefix, an underscore and a number.
pub open spec fn numbered(prefix: Seq<char>, k: nat) -> Seq<char> {
    prefix + "_"@ + decimal(k)
}

/// Pushes the value of `D`.
pub open spec fn push_d() -> Seq<Line> {
    seq![
        at("SP"@),
        store(Dest::A, Comp::M),
        store(Dest::M, Comp::D),
        at("SP"@),
        store(Dest::M, Comp::MPlusOne),
    ]
}

/// Pops the right operand into `D` and stores the computation `c` of it and
/// the left operand in the left operand's place, the new top of the stack.
pub open spec fn binary_code(c: Comp) -> Seq<Line> {
    seq![
        at("SP"@),
        store(Dest::AM, Comp::MMinusOne),
        store(Dest::D, Comp::M),
        at("SP"@),
        store(Dest::A, Comp::MMinusOne),
        store(Dest::M, c),
    ]
}

/// Replaces the top of the stack by the computation `c` of it.
pub open spec fn unary_code(c: Comp) -> Seq<Line> {
    seq![at("SP"@), store(Dest::A, Comp::MMinusOne), store(Dest::M, c)]
}

/// Replaces the two topmost values by all ones if they are equal and by
/// zero if they are not. The branch labels carry the number `k`.
pub open spec fn equality_code(k: nat) -> Seq<Line> {
    seq![
        at("SP"@),
        store(Dest::A, Comp::M),
        store(Dest::A, Comp::AMinusOne),
        store(Dest::A, Comp::AMinusOne),
        store(Dest::D, Comp::M),
        store(Dest::A, Comp::APlusOne),
        store(Dest::D, Comp::DMinusM),
        at("SP"@),
        store(Dest::M, Comp::MMinusOne),
        store(Dest::M, Comp::MMinusOne),
        at(numbered("EQ"@, k)),
        branch(Comp::D, Jump::JEQ),
        at("SP"@),
        store(Dest::A, Comp::M),
        store(Dest::M, Comp::Zero),
        at(numbered("END"@, k)),
        branch(Comp::Zero, Jump::JMP),
        Line::Blank,
        Line::Label(numbered("EQ"@, k)),
        at("SP"@),
        store(Dest::A, Comp::M),
        store(Dest::M, Comp::MinusOne),
        Line::Blank,
        Line::Label(numbered("END"@, k)),
        at("SP"@),
        store(Dest::M, Comp::MPlusOne),
    ]
}

/// Replaces the two topmost values `x` (below) and `y` (above) by all ones
/// if `x` stands to `y` as `jump` tests a difference against zero, and by
/// zero if it does not. Where the signs of `x` and `y` differ, the sign of
/// `x` decides, so that no difference is formed that would overflow. The
/// branch labels begin with `name` and carry the number `k`.
pub open spec fn order_code(name: Seq<char>, jump: Jump, k: nat) -> Seq<Line> {
    seq![
        at("SP"@),
        store(Dest::AM, Comp::MMinusOne),
        store(Dest::D, Comp::M),
        at(numbered(name + "_NEG"@, k)),
        branch(Comp::D, Jump::JLT),
        at("SP"@),
        store(Dest::A, Comp::MMinusOne),
        store(Dest::D, Comp::M),
        at(numbered(name + "_SAME"@, k)),
        branch(Comp::D, Jump::JGE),
        at(numbered(name + "_TEST"@, k)),
        branch(Comp::Zero, Jump::JMP),
        Line::Label(numbered(name + "_NEG"@, k)),
        at("SP"@),
        store(Dest::A, Comp::MMinusOne),
        store(Dest::D, Comp::M),
        at(numbered(name + "_SAME"@, k)),
        branch(Comp::D, Jump::JLT),
        store(Dest::D, Comp::One),
        at(numbered(name + "_TEST"@, k)),
        branch(Comp::Zero, Jump::JMP),
        Line::Label(numbered(name + "_SAME"@, k)),
        at("SP"@),
        store(Dest::A, Comp::M),
        store(Dest::D, Comp::M),
        store(Dest::A, Comp::AMinusOne),
        store(Dest::D, Comp::MMinusD),
        Line::Label(numbered(name + "_TEST"@, k)),
        at(numbered(name, k)),
        branch(Comp::D, jump),
        at("SP"@),
        store(Dest::A, Comp::MMinusOne),
        store(Dest::M, Comp::Zero),
        at(numbered("END"@, k)),
        branch(Comp::Zero, Jump::JMP),
        Line::Label(numbered(name, k)),
        at("SP"@),
        store(Dest::A, Comp::MMinusOne),
        store(Dest::M, Comp::MinusOne),
        Line::Label(numbered("END"@, k)),
    ]
}

/// Whether an operation is a comparison, which takes a label number.
pub open spec fn is_comparison(op: Operation) -> bool {
    op is Eq || op is Gt || op is Lt
}

/// The translation of an arithmetic command with label number `k`.
pub open spec fn operation_code(op: Operation, k: nat) -> Seq<Line> {
    match op {
        Operation::Add => binary_code(Comp::DPlusM),
        Operation::Sub => binary_code(Comp::MMinusD),
        Operation::And => binary_code(Comp::DAndM),
        Operation::Or => binary_code(Comp::DOrM),
        Operation::Neg => unary_code(Comp::NegM),
        Operation::Not => unary_code(Comp::NotM),
        Operation::Eq => equality_code(k),
        Operation::Gt => order_code("GT"@, Jump::JGT, k),
        Operation::Lt => order_code("LT"@, Jump::JLT, k),
    }
}

/// The name under which static variables are kept apart: that of the
/// current procedure's unit, or a placeholder where there is none.
pub open spec fn scope_name(current: Option<Seq<char>>) -> Seq<char> {
    match current {
        Some(name) => name,
        None => "none"@,
    }
}

/// The symbol of the static variable `index` within `scope`.
pub open spec fn static_symbol(index: int, scope: Seq<char>) -> Seq<char> {
    "STATIC_"@ + signed_decimal(index) + "_"@ + scope
}

/// The register that holds the base address of a segment that is reached
/// through a pointer.
pub open spec fn base_register(seg: Segment) -> Seq<char> {
    match seg {
        Segment::Local => "LCL"@,
        Segment::Argument => "ARG"@,
        Segment::This => "THIS"@,
        _ => "THAT"@,
    }
}

/// The first address of a segment that lies at a fixed place.
pub open spec fn fixed_base(seg: Segment) -> int {
    match seg {
        Segment::Pointer => 3,
        _ => 5,
    }
}

/// Whether a segment is reached through a base pointer.
pub open spec fn is_indirect(seg: Segment) -> bool {
    seg is Local || seg is Argument || seg is This || seg is That
}

/// The translation of `push seg index`, with static variables in `scope`.
pub open spec fn push_code(seg: Segment, index: int, scope: Seq<char>) -> Seq<Line> {
    match seg {
        Segment::Constant => seq![Line::AtValue(index), store(Dest::D, Comp::A)] + push_d(),
        Segment::Static => seq![at(static_symbol(index, scope)), store(Dest::D, Comp::M)]
            + push_d(),
        Segment::Pointer | Segment::Temp => seq![
            Line::AtValue(index),
            store(Dest::D, Comp::A),
            Line::AtValue(fixed_base(seg)),
            store(Dest::D, Comp::DPlusA),
            store(Dest::A, Comp::D),
            store(Dest::D, Comp::M),
        ] + push_d(),
        _ => seq![
            Line::AtValue(index),
            store(Dest::D, Comp::A),
            at(base_register(seg)),
            store(Dest::A, Comp::M),
            store(Dest::D, Comp::DPlusA),
            store(Dest::A, Comp::D),
            store(Dest::D, Comp::M),
        ] + push_d(),
    }
}

/// The translation of `pop seg index`, with static variables in `scope`.
/// The constant segment cannot be popped and has no translation.
///
/// For a segment behind a base pointer, the pointer is moved to the target
/// cell for the store and moved back afterwards. For a segment at a fixed
/// place, the target address waits in `R13`.
pub open spec fn pop_code(seg: Segment, index: int, scope: Seq<char>) -> Seq<Line> {
    match seg {
        Segment::Constant => Seq::empty(),
        Segment::Static => seq![
            at("SP"@),
            store(Dest::AM, Comp::MMinusOne),
            store(Dest::D, Comp::M),
            at(static_symbol(index, scope)),
            store(Dest::M, Comp::D),
        ],
        Segment::Pointer | Segment::Temp => seq![
            Line::AtValue(index),
            store(Dest::D, Comp::A),
            Line::AtValue(fixed_base(seg)),
            store(Dest::D, Comp::DPlusA),
            at("R13"@),
            store(Dest::M, Comp::D),
            at("SP"@),
            store(Dest::M, Comp::MMinusOne),
            store(Dest::A, Comp::M),
            store(Dest::D, Comp::M),
            at("R13"@),
            store(Dest::A, Comp::M),
            store(Dest::M, Comp::D),
        ],
        _ => seq![
            Line::AtValue(index),
            store(Dest::D, Comp::A),
            at(base_register(seg)),
            store(Dest::A, Comp::M),
            store(Dest::D, Comp::DPlusA),
            at(base_register(seg)),
            store(Dest::M, Comp::D),
            at("SP"@),
            store(Dest::M, Comp::MMinusOne),
            store(Dest::A, Comp::M),
            store(Dest::D, Comp::M),
            at(base_register(seg)),
            store(Dest::A, Comp::M),
            store(Dest::M, Comp::D),
            Line::AtValue(index),
            store(Dest::D, Comp::A),
            at(base_register(seg)),
            store(Dest::A, Comp::M),
            store(Dest::D, Comp::AMinusD),
            at(base_register(seg)),
            store(Dest::M, Comp::D),
        ],
    }
}

/// The translation of `label name`.
pub open spec fn label_code(name: Seq<char>) -> Seq<Line> {
    seq![Line::Label(name)]
}

/// The translation of `goto name`.
pub open spec fn goto_code(name: Seq<char>) -> Seq<Line> {
    seq![at(name), branch(Comp::Zero, Jump::JMP)]
}

/// The translation of `if-goto name`: pops the top of the stack and jumps
/// if it is not zero.
pub open spec fn if_code(name: Seq<char>) -> Seq<Line> {
    seq![
        at("SP"@),
        store(Dest::M, Comp::MMinusOne),
        store(Dest::A, Comp::M),
        store(Dest::D, Comp::M),
        at(name),
        branch(Comp::D, Jump::JNE),
    ]
}

/// The translation of `function name n`: a comment and the entry label.
pub open spec fn function_code(name: Seq<char>) -> Seq<Line> {
    seq![Line::Comment("Defining function "@ + name), Line::Label(name)]
}

/// The unit that a procedure belongs to: its name up to the first period,
/// the whole name where it holds none.
pub open spec fn unit_name(name: Seq<char>) -> Seq<char> {
    name.subrange(0, crate::text::first_index(name, '.'))
}

/// The label to which the call number `k`, of `name` with `n` arguments,
/// returns.
pub open spec fn return_label(name: Seq<char>, n: nat, k: nat) -> Seq<char> {
    "FUNC_"@ + name + "_"@ + decimal(n) + "_"@ + decimal(k)
}

/// Pushes the value of the register `name`.
pub open spec fn save_code(name: Seq<char>) -> Seq<Line> {
    seq![at(name), store(Dest::D, Comp::M)] + push_d()
}

/// The translation of `call name n` with label number `k`: pushes the
/// return address and the caller's `LCL`, `ARG`, `THIS` and `THAT`, sets
/// `ARG` to `SP - n - 5` and `LCL` to `SP`, jumps to the callee and
/// declares the return label.
pub open spec fn call_code(name: Seq<char>, n: nat, k: nat) -> Seq<Line> {
    seq![at(return_label(name, n, k)), store(Dest::D, Comp::A)] + push_d() + save_code("LCL"@)
        + save_code("ARG"@) + save_code("THIS"@) + save_code("THAT"@) + seq![
        store(Dest::D, Comp::M),
        Line::AtValue(n as int),
        store(Dest::D, Comp::DMinusA),
        Line::AtValue(5),
        store(Dest::D, Comp::DMinusA),
        at("ARG"@),
        store(Dest::M, Comp::D),
        at("SP"@),
        store(Dest::D, Comp::M),
        at("LCL"@),
        store(Dest::M, Comp::D),
        at(name),
        branch(Comp::Zero, Jump::JMP),
        Line::Label(return_label(name, n, k)),
    ]
}

/// Stores `D` in the register `dest` and loads into `D` the cell that lies
/// `offset` below the address held in `src`.
pub open spec fn restore_code(src: Seq<char>, dest: Seq<char>, offset: nat) -> Seq<Line> {
    seq![
        at(dest),
        store(Dest::M, Comp::D),
        at(src),
        store(Dest::D, Comp::M),
        Line::AtValue(offset as int),
        store(Dest::D, Comp::DMinusA),
        store(Dest::A, Comp::D),
        store(Dest::D, Comp::M),
    ]
}

/// The first part of the translation of `return`: keeps the frame base
/// and the return address, moves the return value to the caller's first
/// argument, sets `SP` behind it and loads the saved `THAT` into `D`.
pub open spec fn unwind_code() -> Seq<Line> {
    seq![
        at("LCL"@),
        store(Dest::D, Comp::M),
        at("STACK_FRAME"@),
        store(Dest::M, Comp::D),
        Line::AtValue(5),
        store(Dest::D, Comp::DMinusA),
        store(Dest::A, Comp::D),
        store(Dest::D, Comp::M),
        at("RETURN"@),
        store(Dest::M, Comp::D),
        at("SP"@),
        store(Dest::M, Comp::MMinusOne),
        store(Dest::A, Comp::M),
        store(Dest::D, Comp::M),
        at("ARG"@),
        store(Dest::A, Comp::M),
        store(Dest::M, Comp::D),
        at("ARG"@),
        store(Dest::D, Comp::MPlusOne),
        at("SP"@),
        store(Dest::M, Comp::D),
        at("STACK_FRAME"@),
        store(Dest::D, Comp::M),
        Line::AtValue(1),
        store(Dest::D, Comp::DMinusA),
        store(Dest::A, Comp::D),
        store(Dest::D, Comp::M),
    ]
}

/// The translation of `return`: after the first part, restores `THAT`,
/// `THIS`, `ARG` and `LCL` from the cells 1, 2, 3 and 4 below the frame
/// base, and jumps to the return address.
pub open spec fn return_code() -> Seq<Line> {
    unwind_code() + restore_code("STACK_FRAME"@, "THAT"@, 2) + restore_code(
        "STACK_FRAME"@,
        "THIS"@,
        3,
    ) + restore_code("STACK_FRAME"@, "ARG"@, 4) + seq![
        at("LCL"@),
        store(Dest::M, Comp::D),
        at("RETURN"@),
        store(Dest::A, Comp::M),
        branch(Comp::Zero, Jump::JMP),
    ]
}

/// The code that starts a program of several units: sets `SP` to 256 and
/// calls `Sys.init` without arguments, with label number `k`.
pub open spec fn bootstrap_code(k: nat) -> Seq<Line> {
    seq![
        Line::Comment(
            "Boilerplate bootstrap for Sys.init. Call Sys.init, initalize stack point to 256"@,
        ),
        Line::AtValue(256),
        store(Dest::D, Comp::A),
        at("SP"@),
        store(Dest::M, Comp::D),
        Line::Blank,
        Line::Comment("Calling Sys.init 0"@),
    ] + call_code("Sys.init"@, 0, k)
}

// ---------------------------------------------------------------------------
// Labels are unique

/// Numbered symbols tell their numbers apart: two of them are the same
/// text only if they carry the same number behind the same prefix. A label
/// made up with one number is therefore never made up again with another.
pub proof fn lemma_numbered_apart(left: Seq<char>, ka: nat, right: Seq<char>, kb: nat)
    requires
        numbered(left, ka) == numbered(right, kb),
    ensures
        ka == kb,
        left == right,
{
    reveal_strlit("_");
    let da = decimal(ka);
    let db = decimal(kb);
    let sa = numbered(left, ka);
    let sb = numbered(right, kb);
    crate::text::lemma_decimal(ka);
    crate::text::lemma_decimal(kb);
    assert(sa =~= left + seq!['_'] + da);
    assert(sb =~= right + seq!['_'] + db);
    assert(sa.len() == left.len() + 1 + da.len());
    assert(sb.len() == right.len() + 1 + db.len());
    if da.len() < db.len() {
        let i = left.len() as int;
        assert(sa[i] == '_');
        assert(sb[i] == db[i - right.len() - 1]);
    } else if db.len() < da.len() {
        let i = right.len() as int;
        assert(sb[i] == '_');
        assert(sa[i] == da[i - left.len() - 1]);
    } else {
        assert(da =~= db) by {
            assert forall|i: int| 0 <= i < da.len() implies da[i] == db[i] by {
                assert(sa[left.len() + 1 + i] == da[i]);
                assert(sb[right.len() + 1 + i] == db[i]);
            }
        }
        assert(left =~= right) by {
            assert forall|i: int| 0 <= i < left.len() implies left[i] == right[i] by {
                assert(sa[i] == left[i]);
                assert(sb[i] == right[i]);
            }
        }
    }
}

/// Return labels tell the numbers of their calls apart: the return labels
/// of two calls are the same text only if the calls carry the same number.
pub proof fn lemma_return_labels_apart(
    name_a: Seq<char>,
    na: nat,
    ka: nat,
    name_b: Seq<char>,
    nb: nat,
    kb: nat,
)
    requires
        return_label(name_a, na, ka) == return_label(name_b, nb, kb),
    ensures
        ka == kb,
{
    let left = "FUNC_"@ + name_a + "_"@ + decimal(na);
    let right = "FUNC_"@ + name_b + "_"@ + decimal(nb);
    assert(return_label(name_a, na, ka) =~= numbered(left, ka));
    assert(return_label(name_b, nb, kb) =~= numbered(right, kb));
    lemma_numbered_apart(left, ka, right, kb);
}

/// Static variables of different units are different symbols: the symbols
/// of one index in two scopes are the same text only if the scopes are the
/// same.
pub proof fn lemma_static_symbols_apart(index: int, scope_a: Seq<char>, scope_b: Seq<char>)
    requires
        static_symbol(index, scope_a) == static_symbol(index, scope_b),
    ensures
        scope_a == scope_b,
{
    let head = "STATIC_"@ + signed_decimal(index) + "_"@;
    let sa = static_symbol(index, scope_a);
    let sb = static_symbol(index, scope_b);
    assert(sa =~= head + scope_a);
    assert(sb =~= head + scope_b);
    assert(scope_a =~= scope_b) by {
        assert(sa.len() == head.len() + scope_a.len());
        assert(sb.len() == head.len() + scope_b.len());
        assert forall|i: int| 0 <= i < scope_a.len() implies scope_a[i] == scope_b[i] by {
            assert(sa[head.len() + i] == scope_a[i]);
            assert(sb[head.len() + i] == scope_b[i]);
        }
    }
}

} // verus!
