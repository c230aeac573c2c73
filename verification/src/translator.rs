//! The translator: turns stack-machine commands, one at a time, into
//! assembly. It numbers the labels it makes up and remembers the unit of
//! the procedure it is in, by which static variables are kept apart.

use vstd::prelude::*;
use crate::code::{
    binary_code, bootstrap_code, call_code, equality_code, function_code, goto_code, if_code,
    is_comparison, label_code, numbered, operation_code, order_code, pop_code, push_code, push_d,
    restore_code, return_code, return_label, save_code, scope_name, static_symbol, unary_code,
    unit_name, unwind_code,
};
use crate::instr::{
    CommandType, Operation, Segment, operation_named, parse_operation, parse_segment,
    segment_named,
};
use crate::isa::{Comp, Dest, Jump};
use crate::listing::{Listing, render_all};
use crate::text::{
    find_char, push_chars, push_decimal, push_signed_decimal, push_str, slice_of, string_texts,
    to_chars, to_text,
};

verus! {

/// Why a command could not be translated.
#[derive(Clone, Copy, Debug, PartialEq, Eq)]
pub enum TranslateError {
    /// The arithmetic mnemonic names no operation.
    UnknownOperation,
    /// The segment name names no segment.
    UnknownSegment,
    /// The command pops the constant segment.
    PopConstant,
    /// The command is neither a push nor a pop.
    NotMemoryAccess,
    /// The label numbers have run out.
    LabelsExhausted,
    /// There is no command to translate.
    NoCommand,
    /// The first word of the command names no kind of command.
    UnknownCommand,
    /// The command lacks an operand, or the operand that should be a
    /// number is none.
    MissingOperand,
    /// The number of arguments or of local variables is negative.
    NegativeCount,
}

/// The state of a translation run.
pub struct Translator {
    lbl_num: u32,
    current_function: Option<String>,
}

/// The symbol `prefix_k`.
fn numbered_name(prefix: &str, k: u32) -> (r: Vec<char>)
    ensures
        r@ == numbered(prefix@, k as nat),
{
    let mut r: Vec<char> = Vec::new();
    push_str(&mut r, prefix);
    push_str(&mut r, "_");
    push_decimal(&mut r, k as u64);
    assert(r@ =~= numbered(prefix@, k as nat));
    r
}

/// The symbol `prefix` `suffix` `_k`.
fn numbered_part(prefix: &str, suffix: &str, k: u32) -> (r: Vec<char>)
    ensures
        r@ == numbered(prefix@ + suffix@, k as nat),
{
    let mut r: Vec<char> = Vec::new();
    push_str(&mut r, prefix);
    push_str(&mut r, suffix);
    push_str(&mut r, "_");
    push_decimal(&mut r, k as u64);
    assert(r@ =~= numbered(prefix@ + suffix@, k as nat));
    r
}

/// Writes the code that pushes the value of `D`.
fn write_push_d(out: &mut Listing)
    requires
        old(out).wf(),
    ensures
        final(out).wf(),
        final(out).code() == old(out).code() + push_d(),
{
    out.at("SP");
    out.store(Dest::A, Comp::M);
    out.store(Dest::M, Comp::D);
    out.at("SP");
    out.store(Dest::M, Comp::MPlusOne);
    assert(out.code() =~= old(out).code() + push_d());
}

/// Writes the code that pushes the value of the register `name`.
fn write_save(out: &mut Listing, name: &str)
    requires
        old(out).wf(),
    ensures
        final(out).wf(),
        final(out).code() == old(out).code() + save_code(name@),
{
    out.at(name);
    out.store(Dest::D, Comp::M);
    write_push_d(out);
    assert(out.code() =~= old(out).code() + save_code(name@));
}

/// Writes the code of an operation on the two topmost values.
fn write_binary(out: &mut Listing, c: Comp)
    requires
        old(out).wf(),
    ensures
        final(out).wf(),
        final(out).code() == old(out).code() + binary_code(c),
{
    out.at("SP");
    out.store(Dest::AM, Comp::MMinusOne);
    out.store(Dest::D, Comp::M);
    out.at("SP");
    out.store(Dest::A, Comp::MMinusOne);
    out.store(Dest::M, c);
    assert(out.code() =~= old(out).code() + binary_code(c));
}

/// Writes the code of an operation on the topmost value.
fn write_unary(out: &mut Listing, c: Comp)
    requires
        old(out).wf(),
    ensures
        final(out).wf(),
        final(out).code() == old(out).code() + unary_code(c),
{
    out.at("SP");
    out.store(Dest::A, Comp::MMinusOne);
    out.store(Dest::M, c);
    assert(out.code() =~= old(out).code() + unary_code(c));
}

/// Writes the test of the two topmost values for equality.
fn write_equality(out: &mut Listing, k: u32)
    requires
        old(out).wf(),
    ensures
        final(out).wf(),
        final(out).code() == old(out).code() + equality_code(k as nat),
{
    let hit = numbered_name("EQ", k);
    let end = numbered_name("END", k);
    out.at("SP");
    out.store(Dest::A, Comp::M);
    out.store(Dest::A, Comp::AMinusOne);
    out.store(Dest::A, Comp::AMinusOne);
    out.store(Dest::D, Comp::M);
    out.store(Dest::A, Comp::APlusOne);
    out.store(Dest::D, Comp::DMinusM);
    out.at("SP");
    out.store(Dest::M, Comp::MMinusOne);
    out.store(Dest::M, Comp::MMinusOne);
    out.at_name(&hit);
    out.branch(Comp::D, Jump::JEQ);
    out.at("SP");
    out.store(Dest::A, Comp::M);
    out.store(Dest::M, Comp::Zero);
    out.at_name(&end);
    out.branch(Comp::Zero, Jump::JMP);
    out.blank();
    out.label(&hit);
    out.at("SP");
    out.store(Dest::A, Comp::M);
    out.store(Dest::M, Comp::MinusOne);
    out.blank();
    out.label(&end);
    out.at("SP");
    out.store(Dest::M, Comp::MPlusOne);
    assert(out.code() =~= old(out).code() + equality_code(k as nat));
}

/// Writes the test of the two topmost values for their order.
fn write_order(out: &mut Listing, name: &str, jump: Jump, k: u32)
    requires
        old(out).wf(),
    ensures
        final(out).wf(),
        final(out).code() == old(out).code() + order_code(name@, jump, k as nat),
{
    let negative = numbered_part(name, "_NEG", k);
    let same = numbered_part(name, "_SAME", k);
    let test = numbered_part(name, "_TEST", k);
    let hit = numbered_name(name, k);
    let end = numbered_name("END", k);
    out.at("SP");
    out.store(Dest::AM, Comp::MMinusOne);
    out.store(Dest::D, Comp::M);
    out.at_name(&negative);
    out.branch(Comp::D, Jump::JLT);
    out.at("SP");
    out.store(Dest::A, Comp::MMinusOne);
    out.store(Dest::D, Comp::M);
    out.at_name(&same);
    out.branch(Comp::D, Jump::JGE);
    out.at_name(&test);
    out.branch(Comp::Zero, Jump::JMP);
    out.label(&negative);
    out.at("SP");
    out.store(Dest::A, Comp::MMinusOne);
    out.store(Dest::D, Comp::M);
    out.at_name(&same);
    out.branch(Comp::D, Jump::JLT);
    out.store(Dest::D, Comp::One);
    out.at_name(&test);
    out.branch(Comp::Zero, Jump::JMP);
    out.label(&same);
    out.at("SP");
    out.store(Dest::A, Comp::M);
    out.store(Dest::D, Comp::M);
    out.store(Dest::A, Comp::AMinusOne);
    out.store(Dest::D, Comp::MMinusD);
    out.label(&test);
    out.at_name(&hit);
    out.branch(Comp::D, jump);
    out.at("SP");
    out.store(Dest::A, Comp::MMinusOne);
    out.store(Dest::M, Comp::Zero);
    out.at_name(&end);
    out.branch(Comp::Zero, Jump::JMP);
    out.label(&hit);
    out.at("SP");
    out.store(Dest::A, Comp::MMinusOne);
    out.store(Dest::M, Comp::MinusOne);
    out.label(&end);
    assert(out.code() =~= old(out).code() + order_code(name@, jump, k as nat));
}

/// The symbol of a static variable.
fn static_name(index: i32, scope: &Vec<char>) -> (r: Vec<char>)
    ensures
        r@ == static_symbol(index as int, scope@),
{
    let mut r: Vec<char> = Vec::new();
    push_str(&mut r, "STATIC_");
    push_signed_decimal(&mut r, index as i64);
    push_str(&mut r, "_");
    push_chars(&mut r, scope);
    assert(r@ =~= static_symbol(index as int, scope@));
    r
}

/// The name of the register that holds the base of a segment.
fn base_name(seg: Segment) -> (r: &'static str)
    ensures
        r@ == crate::code::base_register(seg),
{
    match seg {
        Segment::Local => "LCL",
        Segment::Argument => "ARG",
        Segment::This => "THIS",
        _ => "THAT",
    }
}

/// The first address of a segment at a fixed place.
fn fixed_address(seg: Segment) -> (r: i64)
    ensures
        r == crate::code::fixed_base(seg),
{
    match seg {
        Segment::Pointer => 3,
        _ => 5,
    }
}

/// Writes the translation of a push.
fn write_push(out: &mut Listing, seg: Segment, index: i32, scope: &Vec<char>)
    requires
        old(out).wf(),
    ensures
        final(out).wf(),
        final(out).code() == old(out).code() + push_code(seg, index as int, scope@),
{
    match seg {
        Segment::Constant => {
            out.at_value(index as i64);
            out.store(Dest::D, Comp::A);
        },
        Segment::Static => {
            let name = static_name(index, scope);
            out.at_name(&name);
            out.store(Dest::D, Comp::M);
        },
        Segment::Pointer | Segment::Temp => {
            out.at_value(index as i64);
            out.store(Dest::D, Comp::A);
            out.at_value(fixed_address(seg));
            out.store(Dest::D, Comp::DPlusA);
            out.store(Dest::A, Comp::D);
            out.store(Dest::D, Comp::M);
        },
        _ => {
            out.at_value(index as i64);
            out.store(Dest::D, Comp::A);
            out.at(base_name(seg));
            out.store(Dest::A, Comp::M);
            out.store(Dest::D, Comp::DPlusA);
            out.store(Dest::A, Comp::D);
            out.store(Dest::D, Comp::M);
        },
    }
    write_push_d(out);
    assert(out.code() =~= old(out).code() + push_code(seg, index as int, scope@));
}

/// Writes the translation of a pop.
fn write_pop(out: &mut Listing, seg: Segment, index: i32, scope: &Vec<char>)
    requires
        old(out).wf(),
    ensures
        final(out).wf(),
        final(out).code() == old(out).code() + pop_code(seg, index as int, scope@),
{
    match seg {
        Segment::Constant => {},
        Segment::Static => {
            let name = static_name(index, scope);
            out.at("SP");
            out.store(Dest::AM, Comp::MMinusOne);
            out.store(Dest::D, Comp::M);
            out.at_name(&name);
            out.store(Dest::M, Comp::D);
        },
        Segment::Pointer | Segment::Temp => {
            out.at_value(index as i64);
            out.store(Dest::D, Comp::A);
            out.at_value(fixed_address(seg));
            out.store(Dest::D, Comp::DPlusA);
            out.at("R13");
            out.store(Dest::M, Comp::D);
            out.at("SP");
            out.store(Dest::M, Comp::MMinusOne);
            out.store(Dest::A, Comp::M);
            out.store(Dest::D, Comp::M);
            out.at("R13");
            out.store(Dest::A, Comp::M);
            out.store(Dest::M, Comp::D);
        },
        _ => {
            let base = base_name(seg);
            out.at_value(index as i64);
            out.store(Dest::D, Comp::A);
            out.at(base);
            out.store(Dest::A, Comp::M);
            out.store(Dest::D, Comp::DPlusA);
            out.at(base);
            out.store(Dest::M, Comp::D);
            out.at("SP");
            out.store(Dest::M, Comp::MMinusOne);
            out.store(Dest::A, Comp::M);
            out.store(Dest::D, Comp::M);
            out.at(base);
            out.store(Dest::A, Comp::M);
            out.store(Dest::M, Comp::D);
            out.at_value(index as i64);
            out.store(Dest::D, Comp::A);
            out.at(base);
            out.store(Dest::A, Comp::M);
            out.store(Dest::D, Comp::AMinusD);
            out.at(base);
            out.store(Dest::M, Comp::D);
        },
    }
    assert(out.code() =~= old(out).code() + pop_code(seg, index as int, scope@));
}

/// Writes the code that stores `D` in `dest` and loads the cell `offset`
/// below the address held in `src`.
fn write_restore(out: &mut Listing, src: &str, dest: &str, offset: u32)
    requires
        old(out).wf(),
    ensures
        final(out).wf(),
        final(out).code() == old(out).code() + restore_code(src@, dest@, offset as nat),
{
    out.at(dest);
    out.store(Dest::M, Comp::D);
    out.at(src);
    out.store(Dest::D, Comp::M);
    out.at_value(offset as i64);
    out.store(Dest::D, Comp::DMinusA);
    out.store(Dest::A, Comp::D);
    out.store(Dest::D, Comp::M);
    assert(out.code() =~= old(out).code() + restore_code(src@, dest@, offset as nat));
}

/// Writes the first part of a return.
fn write_unwind(out: &mut Listing)
    requires
        old(out).wf(),
    ensures
        final(out).wf(),
        final(out).code() == old(out).code() + unwind_code(),
{
    out.at("LCL");
    out.store(Dest::D, Comp::M);
    out.at("STACK_FRAME");
    out.store(Dest::M, Comp::D);
    out.at_value(5);
    out.store(Dest::D, Comp::DMinusA);
    out.store(Dest::A, Comp::D);
    out.store(Dest::D, Comp::M);
    out.at("RETURN");
    out.store(Dest::M, Comp::D);
    out.at("SP");
    out.store(Dest::M, Comp::MMinusOne);
    out.store(Dest::A, Comp::M);
    out.store(Dest::D, Comp::M);
    out.at("ARG");
    out.store(Dest::A, Comp::M);
    out.store(Dest::M, Comp::D);
    out.at("ARG");
    out.store(Dest::D, Comp::MPlusOne);
    out.at("SP");
    out.store(Dest::M, Comp::D);
    out.at("STACK_FRAME");
    out.store(Dest::D, Comp::M);
    out.at_value(1);
    out.store(Dest::D, Comp::DMinusA);
    out.store(Dest::A, Comp::D);
    out.store(Dest::D, Comp::M);
    assert(out.code() =~= old(out).code() + unwind_code());
}

/// Writes the translation of a call.
fn write_call(out: &mut Listing, name: &Vec<char>, n: u32, k: u32)
    requires
        old(out).wf(),
    ensures
        final(out).wf(),
        final(out).code() == old(out).code() + call_code(name@, n as nat, k as nat),
{
    let mut back: Vec<char> = Vec::new();
    push_str(&mut back, "FUNC_");
    push_chars(&mut back, name);
    push_str(&mut back, "_");
    push_decimal(&mut back, n as u64);
    push_str(&mut back, "_");
    push_decimal(&mut back, k as u64);
    assert(back@ =~= return_label(name@, n as nat, k as nat));
    out.at_name(&back);
    out.store(Dest::D, Comp::A);
    write_push_d(out);
    write_save(out, "LCL");
    write_save(out, "ARG");
    write_save(out, "THIS");
    write_save(out, "THAT");
    out.store(Dest::D, Comp::M);
    out.at_value(n as i64);
    out.store(Dest::D, Comp::DMinusA);
    out.at_value(5);
    out.store(Dest::D, Comp::DMinusA);
    out.at("ARG");
    out.store(Dest::M, Comp::D);
    out.at("SP");
    out.store(Dest::D, Comp::M);
    out.at("LCL");
    out.store(Dest::M, Comp::D);
    out.at_name(name);
    out.branch(Comp::Zero, Jump::JMP);
    out.label(&back);
    assert(out.code() =~= old(out).code() + call_code(name@, n as nat, k as nat));
}

impl Translator {
    /// The number that the next label will carry.
    pub closed spec fn label_number(&self) -> nat {
        self.lbl_num as nat
    }

    /// The unit of the procedure that is being translated, if any.
    pub closed spec fn procedure(&self) -> Option<Seq<char>> {
        match self.current_function {
            Some(name) => Some(name@),
            None => None,
        }
    }

    /// The state at the start of a run: labels are numbered from zero and
    /// no procedure has begun.
    pub fn init() -> (r: Self)
        ensures
            r.label_number() == 0,
            r.procedure() is None,
    {
        Self { lbl_num: 0, current_function: None }
    }

    /// A state in which no procedure has begun and labels are numbered
    /// from `first` on, for a run that goes on where another has stopped.
    pub fn starting_at(first: u32) -> (r: Self)
        ensures
            r.label_number() == first,
            r.procedure() is None,
    {
        Self { lbl_num: first, current_function: None }
    }

    /// The name that keeps the static variables of the current unit apart.
    fn scope(&self) -> (r: Vec<char>)
        ensures
            r@ == scope_name(self.procedure()),
    {
        match &self.current_function {
            Some(name) => to_chars(name.as_str()),
            None => to_chars("none"),
        }
    }

    /// Translates an arithmetic command. A comparison takes the next label
    /// number; no other operation changes the state.
    pub fn translate_arithmetic(&mut self, arg: &String) -> (r: Result<
        Vec<String>,
        TranslateError,
    >)
        ensures
            final(self).procedure() == old(self).procedure(),
            match operation_named(arg@) {
                None => r == Err::<Vec<String>, TranslateError>(TranslateError::UnknownOperation)
                    && final(self).label_number() == old(self).label_number(),
                Some(op) => if is_comparison(op) && old(self).label_number() == u32::MAX {
                    r == Err::<Vec<String>, TranslateError>(TranslateError::LabelsExhausted)
                        && final(self).label_number() == old(self).label_number()
                } else {
                    &&& r matches Ok(lines)
                    &&& string_texts(lines@) == render_all(
                        operation_code(op, old(self).label_number()),
                    )
                    &&& final(self).label_number() == old(self).label_number() + if is_comparison(
                        op,
                    ) {
                        1nat
                    } else {
                        0nat
                    }
                },
            },
    {
        let name = to_chars(arg.as_str());
        let op = match parse_operation(&name) {
            Some(op) => op,
            None => {
                return Err(TranslateError::UnknownOperation);
            },
        };
        let k = self.lbl_num;
        let mut out = Listing::new();
        match op {
            Operation::Add => write_binary(&mut out, Comp::DPlusM),
            Operation::Sub => write_binary(&mut out, Comp::MMinusD),
            Operation::And => write_binary(&mut out, Comp::DAndM),
            Operation::Or => write_binary(&mut out, Comp::DOrM),
            Operation::Neg => write_unary(&mut out, Comp::NegM),
            Operation::Not => write_unary(&mut out, Comp::NotM),
            Operation::Eq | Operation::Gt | Operation::Lt => {
                if k == u32::MAX {
                    return Err(TranslateError::LabelsExhausted);
                }
                match op {
                    Operation::Eq => write_equality(&mut out, k),
                    Operation::Gt => write_order(&mut out, "GT", Jump::JGT, k),
                    _ => write_order(&mut out, "LT", Jump::JLT, k),
                }
                self.lbl_num = k + 1;
            },
        }
        assert(out.code() =~= operation_code(op, k as nat));
        Ok(out.finish())
    }

    /// Translates a push or a pop. The state stays as it is.
    pub fn translate_push_pop_code(&self, cmd_type: &CommandType, seg: &String, index: &i32) -> (r:
        Result<Vec<String>, TranslateError>)
        ensures
            match *cmd_type {
                CommandType::PUSH => match segment_named(seg@) {
                    None => r == Err::<Vec<String>, TranslateError>(
                        TranslateError::UnknownSegment,
                    ),
                    Some(s) => r matches Ok(lines) && string_texts(lines@) == render_all(
                        push_code(s, *index as int, scope_name(self.procedure())),
                    ),
                },
                CommandType::POP => match segment_named(seg@) {
                    None => r == Err::<Vec<String>, TranslateError>(
                        TranslateError::UnknownSegment,
                    ),
                    Some(Segment::Constant) => r == Err::<Vec<String>, TranslateError>(
                        TranslateError::PopConstant,
                    ),
                    Some(s) => r matches Ok(lines) && string_texts(lines@) == render_all(
                        pop_code(s, *index as int, scope_name(self.procedure())),
                    ),
                },
                _ => r == Err::<Vec<String>, TranslateError>(TranslateError::NotMemoryAccess),
            },
    {
        let push = match cmd_type {
            CommandType::PUSH => true,
            CommandType::POP => false,
            _ => {
                return Err(TranslateError::NotMemoryAccess);
            },
        };
        let name = to_chars(seg.as_str());
        let s = match parse_segment(&name) {
            Some(s) => s,
            None => {
                return Err(TranslateError::UnknownSegment);
            },
        };
        let scope = self.scope();
        let mut out = Listing::new();
        if push {
            write_push(&mut out, s, *index, &scope);
            assert(out.code() =~= push_code(s, *index as int, scope@));
        } else {
            match s {
                Segment::Constant => {
                    return Err(TranslateError::PopConstant);
                },
                _ => {},
            }
            write_pop(&mut out, s, *index, &scope);
            assert(out.code() =~= pop_code(s, *index as int, scope@));
        }
        Ok(out.finish())
    }

    /// Translates a label command: the name is declared as it stands.
    pub fn translate_label(&self, label: &String) -> (r: Vec<String>)
        ensures
            string_texts(r@) == render_all(label_code(label@)),
    {
        let name = to_chars(label.as_str());
        let mut out = Listing::new();
        out.label(&name);
        assert(out.code() =~= label_code(label@));
        out.finish()
    }

    /// Translates a goto command.
    pub fn translate_goto(&self, label: &String) -> (r: Vec<String>)
        ensures
            string_texts(r@) == render_all(goto_code(label@)),
    {
        let name = to_chars(label.as_str());
        let mut out = Listing::new();
        out.at_name(&name);
        out.branch(Comp::Zero, Jump::JMP);
        assert(out.code() =~= goto_code(label@));
        out.finish()
    }

    /// Translates an if-goto command.
    pub fn translate_if(&self, label: &String) -> (r: Vec<String>)
        ensures
            string_texts(r@) == render_all(if_code(label@)),
    {
        let name = to_chars(label.as_str());
        let mut out = Listing::new();
        out.at("SP");
        out.store(Dest::M, Comp::MMinusOne);
        out.store(Dest::A, Comp::M);
        out.store(Dest::D, Comp::M);
        out.at_name(&name);
        out.branch(Comp::D, Jump::JNE);
        assert(out.code() =~= if_code(label@));
        out.finish()
    }

    /// Translates a function command: declares the entry label and makes
    /// the unit of the procedure the current one. The number of local
    /// variables plays no part.
    pub fn translate_function(&mut self, fn_name: &String, _arg_c: u32) -> (r: Vec<String>)
        ensures
            string_texts(r@) == render_all(function_code(fn_name@)),
            final(self).procedure() == Some(unit_name(fn_name@)),
            final(self).label_number() == old(self).label_number(),
    {
        let name = to_chars(fn_name.as_str());
        let dot = find_char(&name, '.');
        let unit = slice_of(&name, 0, dot);
        self.current_function = Some(to_text(&unit));
        let mut note: Vec<char> = Vec::new();
        push_str(&mut note, "Defining function ");
        push_chars(&mut note, &name);
        let mut out = Listing::new();
        out.comment(&note);
        out.label(&name);
        assert(out.code() =~= function_code(fn_name@));
        out.finish()
    }

    /// Writes the code that starts a program of several units, and makes
    /// `Sys.init` the current procedure. It takes the next label number.
    pub fn sys_init(&mut self) -> (r: Result<Vec<String>, TranslateError>)
        ensures
            if old(self).label_number() == u32::MAX {
                &&& r == Err::<Vec<String>, TranslateError>(TranslateError::LabelsExhausted)
                &&& final(self).label_number() == old(self).label_number()
                &&& final(self).procedure() == old(self).procedure()
            } else {
                &&& r matches Ok(lines)
                &&& string_texts(lines@) == render_all(bootstrap_code(old(self).label_number()))
                &&& final(self).label_number() == old(self).label_number() + 1
                &&& final(self).procedure() == Some("Sys.init"@)
            },
    {
        let k = self.lbl_num;
        if k == u32::MAX {
            return Err(TranslateError::LabelsExhausted);
        }
        let name = to_chars("Sys.init");
        self.current_function = Some(to_text(&name));
        let mut out = Listing::new();
        out.comment(
            &to_chars(
                "Boilerplate bootstrap for Sys.init. Call Sys.init, initalize stack point to 256",
            ),
        );
        out.at_value(256);
        out.store(Dest::D, Comp::A);
        out.at("SP");
        out.store(Dest::M, Comp::D);
        out.blank();
        out.comment(&to_chars("Calling Sys.init 0"));
        write_call(&mut out, &name, 0, k);
        self.lbl_num = k + 1;
        assert(out.code() =~= bootstrap_code(k as nat));
        Ok(out.finish())
    }

    /// Translates a call command. It takes the next label number.
    pub fn translate_call(&mut self, fn_name: &String, arg_c: u32) -> (r: Result<
        Vec<String>,
        TranslateError,
    >)
        ensures
            final(self).procedure() == old(self).procedure(),
            if old(self).label_number() == u32::MAX {
                &&& r == Err::<Vec<String>, TranslateError>(TranslateError::LabelsExhausted)
                &&& final(self).label_number() == old(self).label_number()
            } else {
                &&& r matches Ok(lines)
                &&& string_texts(lines@) == render_all(
                    call_code(fn_name@, arg_c as nat, old(self).label_number()),
                )
                &&& final(self).label_number() == old(self).label_number() + 1
            },
    {
        let k = self.lbl_num;
        if k == u32::MAX {
            return Err(TranslateError::LabelsExhausted);
        }
        let name = to_chars(fn_name.as_str());
        let mut out = Listing::new();
        write_call(&mut out, &name, arg_c, k);
        self.lbl_num = k + 1;
        assert(out.code() =~= call_code(fn_name@, arg_c as nat, k as nat));
        Ok(out.finish())
    }

    /// Translates a return command.
    pub fn translate_return(&self) -> (r: Vec<String>)
        ensures
            string_texts(r@) == render_all(return_code()),
    {
        let mut out = Listing::new();
        write_unwind(&mut out);
        write_restore(&mut out, "STACK_FRAME", "THAT", 2);
        write_restore(&mut out, "STACK_FRAME", "THIS", 3);
        write_restore(&mut out, "STACK_FRAME", "ARG", 4);
        out.at("LCL");
        out.store(Dest::M, Comp::D);
        out.at("RETURN");
        out.store(Dest::A, Comp::M);
        out.branch(Comp::Zero, Jump::JMP);
        assert(out.code() =~= return_code());
        out.finish()
    }

    /// The code that stores `D` in the register `dest` and loads into `D`
    /// the cell that lies `offset` below the address held in `src`.
    pub fn pop_variable_stack(&self, src: &str, dest: &str, offset: u32) -> (r: Vec<String>)
        ensures
            string_texts(r@) == render_all(restore_code(src@, dest@, offset as nat)),
    {
        let mut out = Listing::new();
        write_restore(&mut out, src, dest, offset);
        assert(out.code() =~= restore_code(src@, dest@, offset as nat));
        out.finish()
    }
}

} // verus!
