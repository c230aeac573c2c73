//! The commands of the stack machine: their kinds, the arithmetic
//! operations and the memory segments.

use vstd::prelude::*;
use crate::text::same_text;

verus! {

/// The kinds of stack-machine command.
#[allow(non_camel_case_types)]
#[derive(Clone, Copy, Debug, PartialEq, Eq)]
pub enum CommandType {
    PUSH,
    POP,
    ARITHMETIC,
    LABEL,
    GOTO,
    IF,
    FUNCTION,
    RETURN,
    CALL,
}

/// The arithmetic and logical operations of the stack machine.
#[derive(Clone, Copy, Debug, PartialEq, Eq)]
pub enum Operation {
    Add,
    Sub,
    And,
    Or,
    Neg,
    Not,
    Eq,
    Gt,
    Lt,
}

/// The memory segments of the stack machine.
#[derive(Clone, Copy, Debug, PartialEq, Eq)]
pub enum Segment {
    Constant,
    Local,
    Argument,
    This,
    That,
    Pointer,
    Temp,
    Static,
}

/// The operation that a mnemonic names, if it names one.
pub open spec fn operation_named(m: Seq<char>) -> Option<Operation> {
    if m == "add"@ {
        Some(Operation::Add)
    } else if m == "sub"@ {
        Some(Operation::Sub)
    } else if m == "and"@ {
        Some(Operation::And)
    } else if m == "or"@ {
        Some(Operation::Or)
    } else if m == "neg"@ {
        Some(Operation::Neg)
    } else if m == "not"@ {
        Some(Operation::Not)
    } else if m == "eq"@ {
        Some(Operation::Eq)
    } else if m == "gt"@ {
        Some(Operation::Gt)
    } else if m == "lt"@ {
        Some(Operation::Lt)
    } else {
        None
    }
}

/// The segment that a name names, if it names one.
pub open spec fn segment_named(m: Seq<char>) -> Option<Segment> {
    if m == "constant"@ {
        Some(Segment::Constant)
    } else if m == "local"@ {
        Some(Segment::Local)
    } else if m == "argument"@ {
        Some(Segment::Argument)
    } else if m == "this"@ {
        Some(Segment::This)
    } else if m == "that"@ {
        Some(Segment::That)
    } else if m == "pointer"@ {
        Some(Segment::Pointer)
    } else if m == "temp"@ {
        Some(Segment::Temp)
    } else if m == "static"@ {
        Some(Segment::Static)
    } else {
        None
    }
}

/// The kind of the command that begins with the given word, if any does.
pub open spec fn command_named(m: Seq<char>) -> Option<CommandType> {
    if m == "push"@ {
        Some(CommandType::PUSH)
    } else if m == "pop"@ {
        Some(CommandType::POP)
    } else if operation_named(m) is Some {
        Some(CommandType::ARITHMETIC)
    } else if m == "label"@ {
        Some(CommandType::LABEL)
    } else if m == "goto"@ {
        Some(CommandType::GOTO)
    } else if m == "if-goto"@ {
        Some(CommandType::IF)
    } else if m == "function"@ {
        Some(CommandType::FUNCTION)
    } else if m == "call"@ {
        Some(CommandType::CALL)
    } else if m == "return"@ {
        Some(CommandType::RETURN)
    } else {
        None
    }
}

/// Looks a mnemonic up among the operations.
pub fn parse_operation(m: &Vec<char>) -> (r: Option<Operation>)
    ensures
        r == operation_named(m@),
{
    if same_text(m, "add") {
        Some(Operation::Add)
    } else if same_text(m, "sub") {
        Some(Operation::Sub)
    } else if same_text(m, "and") {
        Some(Operation::And)
    } else if same_text(m, "or") {
        Some(Operation::Or)
    } else if same_text(m, "neg") {
        Some(Operation::Neg)
    } else if same_text(m, "not") {
        Some(Operation::Not)
    } else if same_text(m, "eq") {
        Some(Operation::Eq)
    } else if same_text(m, "gt") {
        Some(Operation::Gt)
    } else if same_text(m, "lt") {
        Some(Operation::Lt)
    } else {
        None
    }
}

/// Looks a name up among the segments.
pub fn parse_segment(m: &Vec<char>) -> (r: Option<Segment>)
    ensures
        r == segment_named(m@),
{
    if same_text(m, "constant") {
        Some(Segment::Constant)
    } else if same_text(m, "local") {
        Some(Segment::Local)
    } else if same_text(m, "argument") {
        Some(Segment::Argument)
    } else if same_text(m, "this") {
        Some(Segment::This)
    } else if same_text(m, "that") {
        Some(Segment::That)
    } else if same_text(m, "pointer") {
        Some(Segment::Pointer)
    } else if same_text(m, "temp") {
        Some(Segment::Temp)
    } else if same_text(m, "static") {
        Some(Segment::Static)
    } else {
        None
    }
}

/// Looks the first word of a command up among the kinds of command.
pub fn parse_command(m: &Vec<char>) -> (r: Option<CommandType>)
    ensures
        r == command_named(m@),
{
    if same_text(m, "push") {
        Some(CommandType::PUSH)
    } else if same_text(m, "pop") {
        Some(CommandType::POP)
    } else if parse_operation(m).is_some() {
        Some(CommandType::ARITHMETIC)
    } else if same_text(m, "label") {
        Some(CommandType::LABEL)
    } else if same_text(m, "goto") {
        Some(CommandType::GOTO)
    } else if same_text(m, "if-goto") {
        Some(CommandType::IF)
    } else if same_text(m, "function") {
        Some(CommandType::FUNCTION)
    } else if same_text(m, "call") {
        Some(CommandType::CALL)
    } else if same_text(m, "return") {
        Some(CommandType::RETURN)
    } else {
        None
    }
}

} // verus!
