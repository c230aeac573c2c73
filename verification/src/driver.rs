//! The translation of a command as the reader hands it out: the kind of
//! the command selects the operands and the part of the translator that
//! translates it.

use vstd::prelude::*;
use crate::code::{
    call_code, function_code, goto_code, if_code, is_comparison, label_code, operation_code,
    pop_code, push_code, return_code, scope_name, unit_name,
};
use crate::instr::{CommandType, Segment, operation_named, segment_named};
use crate::listing::{Line, render_all};
use crate::parser::{Parser, first_operand, kind_of, second_operand};
use crate::text::{join_words, string_texts, to_chars};
use crate::translator::{TranslateError, Translator};

verus! {

/// What the translation of a command gives: the listing, the label number
/// after it and the unit of the procedure after it.
pub struct Translation {
    pub code: Seq<Line>,
    pub label_number: nat,
    pub procedure: Option<Seq<char>>,
}

/// The number operand of a command as a count, which must not be negative.
pub open spec fn count_operand(command: Seq<Seq<char>>) -> Result<nat, TranslateError> {
    match second_operand(command) {
        None => Err(TranslateError::MissingOperand),
        Some(n) => if n < 0 {
            Err(TranslateError::NegativeCount)
        } else {
            Ok(n as nat)
        },
    }
}

/// The translation of the body of a command, without the comment that
/// precedes it, from the label number `k` and the procedure `current`.
pub open spec fn translate_body(command: Seq<Seq<char>>, k: nat, current: Option<Seq<char>>)
    -> Result<Translation, TranslateError> {
    match kind_of(command) {
        None => Err(TranslateError::UnknownCommand),
        Some(CommandType::ARITHMETIC) => {
            let op = operation_named(command[0])->0;
            if is_comparison(op) {
                if k == u32::MAX {
                    Err(TranslateError::LabelsExhausted)
                } else {
                    Ok(
                        Translation {
                            code: operation_code(op, k),
                            label_number: k + 1,
                            procedure: current,
                        },
                    )
                }
            } else {
                Ok(Translation { code: operation_code(op, k), label_number: k, procedure: current })
            }
        },
        Some(CommandType::PUSH) => match (first_operand(command), second_operand(command)) {
            (Some(name), Some(index)) => match segment_named(name) {
                None => Err(TranslateError::UnknownSegment),
                Some(seg) => Ok(
                    Translation {
                        code: push_code(seg, index as int, scope_name(current)),
                        label_number: k,
                        procedure: current,
                    },
                ),
            },
            _ => Err(TranslateError::MissingOperand),
        },
        Some(CommandType::POP) => match (first_operand(command), second_operand(command)) {
            (Some(name), Some(index)) => match segment_named(name) {
                None => Err(TranslateError::UnknownSegment),
                Some(Segment::Constant) => Err(TranslateError::PopConstant),
                Some(seg) => Ok(
                    Translation {
                        code: pop_code(seg, index as int, scope_name(current)),
                        label_number: k,
                        procedure: current,
                    },
                ),
            },
            _ => Err(TranslateError::MissingOperand),
        },
        Some(CommandType::LABEL) => match first_operand(command) {
            Some(name) => Ok(
                Translation { code: label_code(name), label_number: k, procedure: current },
            ),
            None => Err(TranslateError::MissingOperand),
        },
        Some(CommandType::GOTO) => match first_operand(command) {
            Some(name) => Ok(
                Translation { code: goto_code(name), label_number: k, procedure: current },
            ),
            None => Err(TranslateError::MissingOperand),
        },
        Some(CommandType::IF) => match first_operand(command) {
            Some(name) => Ok(
                Translation { code: if_code(name), label_number: k, procedure: current },
            ),
            None => Err(TranslateError::MissingOperand),
        },
        Some(CommandType::FUNCTION) => match first_operand(command) {
            None => Err(TranslateError::MissingOperand),
            Some(name) => match count_operand(command) {
                Err(e) => Err(e),
                Ok(_) => Ok(
                    Translation {
                        code: function_code(name),
                        label_number: k,
                        procedure: Some(unit_name(name)),
                    },
                ),
            },
        },
        Some(CommandType::CALL) => match first_operand(command) {
            None => Err(TranslateError::MissingOperand),
            Some(name) => match count_operand(command) {
                Err(e) => Err(e),
                Ok(n) => if k == u32::MAX {
                    Err(TranslateError::LabelsExhausted)
                } else {
                    Ok(
                        Translation {
                            code: call_code(name, n, k),
                            label_number: k + 1,
                            procedure: current,
                        },
                    )
                },
            },
        },
        Some(CommandType::RETURN) => Ok(
            Translation { code: return_code(), label_number: k, procedure: current },
        ),
    }
}

/// The translation of a command: a comment that holds the command, and
/// the translation of its body.
pub open spec fn translate_one(command: Seq<Seq<char>>, k: nat, current: Option<Seq<char>>)
    -> Result<Translation, TranslateError> {
    match translate_body(command, k, current) {
        Err(e) => Err(e),
        Ok(t) => Ok(
            Translation { code: seq![Line::Comment(join_words(command))] + t.code, ..t },
        ),
    }
}

/// Puts the comment that holds the command before its translation.
fn with_comment(
    note: String,
    body: Vec<String>,
    Ghost(command): Ghost<Seq<Seq<char>>>,
    Ghost(code): Ghost<Seq<Line>>,
) -> (r: Vec<String>)
    requires
        note@ == join_words(command),
        string_texts(body@) == render_all(code),
    ensures
        string_texts(r@) == render_all(seq![Line::Comment(join_words(command))] + code),
{
    let mut out = crate::listing::Listing::new();
    out.comment(&to_chars(note.as_str()));
    let mut r = out.finish();
    let ghost head = string_texts(r@);
    let mut body = body;
    let ghost tail = string_texts(body@);
    r.append(&mut body);
    assert(string_texts(r@) =~= head + tail);
    assert(head + tail =~= render_all(seq![Line::Comment(join_words(command))] + code));
    r
}

impl Translator {
    /// Translates the current command of the reader: a comment that holds
    /// the command, and then the code that the kind of the command asks
    /// for. Where the command is rejected, the state stays as it is.
    pub fn translate_command(&mut self, parser: &Parser) -> (r: Result<Vec<String>, TranslateError>)
        ensures
            parser.commands().len() == 0 ==> {
                &&& r == Err::<Vec<String>, TranslateError>(TranslateError::NoCommand)
                &&& final(self).label_number() == old(self).label_number()
                &&& final(self).procedure() == old(self).procedure()
            },
            parser.commands().len() > 0 ==> match translate_one(
                parser.commands()[0],
                old(self).label_number(),
                old(self).procedure(),
            ) {
                Ok(t) => {
                    &&& r matches Ok(lines)
                    &&& string_texts(lines@) == render_all(t.code)
                    &&& final(self).label_number() == t.label_number
                    &&& final(self).procedure() == t.procedure
                },
                Err(e) => {
                    &&& r == Err::<Vec<String>, TranslateError>(e)
                    &&& final(self).label_number() == old(self).label_number()
                    &&& final(self).procedure() == old(self).procedure()
                },
            },
    {
        let note = match parser.get_command() {
            Some(note) => note,
            None => {
                return Err(TranslateError::NoCommand);
            },
        };
        let ghost command = parser.commands()[0];
        let kind = match parser.get_command_type() {
            Some(kind) => kind,
            None => {
                return Err(TranslateError::UnknownCommand);
            },
        };
        let ghost k = self.label_number();
        let ghost current = self.procedure();
        let body = match kind {
            CommandType::ARITHMETIC => {
                let name = match parser.get_arg_1() {
                    Some(name) => name,
                    None => {
                        return Err(TranslateError::MissingOperand);
                    },
                };
                self.translate_arithmetic(&name)?
            },
            CommandType::PUSH | CommandType::POP => {
                let name = parser.get_arg_1();
                let index = parser.get_arg_2();
                match (name, index) {
                    (Some(name), Some(index)) => self.translate_push_pop_code(
                        &kind,
                        &name,
                        &index,
                    )?,
                    _ => {
                        return Err(TranslateError::MissingOperand);
                    },
                }
            },
            CommandType::LABEL => match parser.get_arg_1() {
                Some(name) => self.translate_label(&name),
                None => {
                    return Err(TranslateError::MissingOperand);
                },
            },
            CommandType::GOTO => match parser.get_arg_1() {
                Some(name) => self.translate_goto(&name),
                None => {
                    return Err(TranslateError::MissingOperand);
                },
            },
            CommandType::IF => match parser.get_arg_1() {
                Some(name) => self.translate_if(&name),
                None => {
                    return Err(TranslateError::MissingOperand);
                },
            },
            CommandType::FUNCTION | CommandType::CALL => {
                let name = match parser.get_arg_1() {
                    Some(name) => name,
                    None => {
                        return Err(TranslateError::MissingOperand);
                    },
                };
                let count: u32 = match parser.get_arg_2() {
                    None => {
                        return Err(TranslateError::MissingOperand);
                    },
                    Some(n) => if n < 0 {
                        return Err(TranslateError::NegativeCount);
                    } else {
                        n as u32
                    },
                };
                match kind {
                    CommandType::FUNCTION => self.translate_function(&name, count),
                    _ => self.translate_call(&name, count)?,
                }
            },
            CommandType::RETURN => self.translate_return(),
        };
        let ghost t = translate_body(command, k, current)->Ok_0;
        Ok(with_comment(note, body, Ghost(command), Ghost(t.code)))
    }
}

} // verus!
