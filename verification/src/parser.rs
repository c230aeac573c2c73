//! The reader of stack-machine programs: splits a program text into
//! commands, each a list of words, and hands them out one at a time.

use std::collections::VecDeque;
use vstd::prelude::*;
use crate::instr::{CommandType, command_named, parse_command};
use crate::text::{
    find_comment, i32_value, join_words, joined, lines_of, parse_i32, slice_of, split_lines,
    strip_comment, texts, to_chars, to_text, words, words_of,
};

verus! {

/// The commands among the given lines: the words of each line before its
/// comment, for the lines that hold any word.
pub open spec fn command_lines(raw: Seq<Seq<char>>) -> Seq<Seq<Seq<char>>>
    decreases raw.len(),
{
    if raw.len() == 0 {
        Seq::empty()
    } else {
        let before = command_lines(raw.drop_last());
        let command = words(strip_comment(raw.last()));
        if command.len() == 0 {
            before
        } else {
            before.push(command)
        }
    }
}

/// The commands of a program text.
pub open spec fn parse_source(source: Seq<char>) -> Seq<Seq<Seq<char>>> {
    command_lines(split_lines(source))
}

/// The kind of a command: the kind that its first word names.
pub open spec fn kind_of(command: Seq<Seq<char>>) -> Option<CommandType> {
    if command.len() == 0 {
        None
    } else {
        command_named(command[0])
    }
}

/// The first operand of a command: the operation itself for an arithmetic
/// command, the second word for any other.
pub open spec fn first_operand(command: Seq<Seq<char>>) -> Option<Seq<char>> {
    if command.len() == 0 {
        None
    } else {
        match command_named(command[0]) {
            None => None,
            Some(CommandType::ARITHMETIC) => Some(command[0]),
            Some(_) => if command.len() > 1 {
                Some(command[1])
            } else {
                None
            },
        }
    }
}

/// The second operand of a command: the number that its third word
/// denotes.
pub open spec fn second_operand(command: Seq<Seq<char>>) -> Option<i32> {
    if command.len() > 2 {
        i32_value(command[2])
    } else {
        None
    }
}

/// The commands of a program that are still to be translated.
pub struct Parser {
    _parsed_code: VecDeque<Vec<Vec<char>>>,
}

impl Parser {
    /// The commands that are left, the current one first.
    pub closed spec fn commands(&self) -> Seq<Seq<Seq<char>>> {
        Seq::new(self._parsed_code@.len(), |i: int| texts(self._parsed_code@[i]@))
    }

    /// Reads the commands of a program text.
    pub fn new(source: &String) -> (r: Self)
        ensures
            r.commands() == parse_source(source@),
    {
        let text = to_chars(source.as_str());
        let raw = lines_of(&text);
        let mut queue: VecDeque<Vec<Vec<char>>> = VecDeque::new();
        let mut i: usize = 0;
        let ghost mut done: Seq<Seq<Seq<char>>> = Seq::empty();
        assert(texts(raw@).take(0) =~= Seq::<Seq<char>>::empty());
        while i < raw.len()
            invariant
                i <= raw.len(),
                done == command_lines(texts(raw@).take(i as int)),
                done.len() == queue@.len(),
                forall|j: int| 0 <= j < done.len() ==> done[j] == texts(#[trigger] queue@[j]@),
            decreases raw.len() - i,
        {
            let cut = find_comment(&raw[i]);
            let head = slice_of(&raw[i], 0, cut);
            let command = words_of(&head);
            proof {
                let t = texts(raw@).take(i + 1);
                assert(t.drop_last() =~= texts(raw@).take(i as int));
                assert(t.last() == raw[i as int]@);
            }
            if command.len() > 0 {
                proof {
                    done = done.push(texts(command@));
                }
                queue.push_back(command);
            }
            i += 1;
        }
        assert(texts(raw@).take(i as int) =~= texts(raw@));
        let r = Parser { _parsed_code: queue };
        assert(r.commands() =~= done);
        r
    }

    /// Check if there are more commands in the input
    pub fn has_more_commands(&self) -> (r: bool)
        ensures
            r == (self.commands().len() > 0),
    {
        self._parsed_code.len() > 0
    }

    /// Pops the queue and goes to the next command. Without a current
    /// command nothing changes.
    pub fn advance(&mut self)
        ensures
            final(self).commands() == if old(self).commands().len() > 0 {
                old(self).commands().drop_first()
            } else {
                old(self).commands()
            },
    {
        let ghost before = self.commands();
        let _ = self._parsed_code.pop_front();
        proof {
            if before.len() > 0 {
                assert(self.commands() =~= before.drop_first());
            } else {
                assert(self.commands() =~= before);
            }
        }
    }

    /// Gets the current command: its words with one blank between
    /// neighbours. There is none when no command is left.
    pub fn get_command(&self) -> (r: Option<String>)
        ensures
            match r {
                Some(text) => self.commands().len() > 0 && text@ == join_words(
                    self.commands()[0],
                ),
                None => self.commands().len() == 0,
            },
    {
        if self._parsed_code.len() == 0 {
            return None;
        }
        let line = joined(&self._parsed_code[0]);
        Some(to_text(&line))
    }

    /// Retrieves the current command's type: the kind that its first word
    /// names. There is none when no command is left or the word names no
    /// kind of command.
    pub fn get_command_type(&self) -> (r: Option<CommandType>)
        ensures
            r == if self.commands().len() > 0 {
                kind_of(self.commands()[0])
            } else {
                None
            },
    {
        if self._parsed_code.len() == 0 {
            return None;
        }
        let command = &self._parsed_code[0];
        if command.len() == 0 {
            return None;
        }
        parse_command(&command[0])
    }

    /// Retrieves the first argument of the current command.
    pub fn get_arg_1(&self) -> (r: Option<String>)
        ensures
            self.commands().len() == 0 ==> r is None,
            self.commands().len() > 0 ==> match first_operand(self.commands()[0]) {
                Some(text) => r matches Some(s) && s@ == text,
                None => r is None,
            },
    {
        if self._parsed_code.len() == 0 {
            return None;
        }
        let command = &self._parsed_code[0];
        if command.len() == 0 {
            return None;
        }
        match parse_command(&command[0]) {
            None => None,
            Some(CommandType::ARITHMETIC) => Some(to_text(&command[0])),
            Some(_) => {
                if command.len() > 1 {
                    Some(to_text(&command[1]))
                } else {
                    None
                }
            },
        }
    }

    /// Retrieves the second argument of the current command, which a push,
    /// a pop, a function and a call have.
    pub fn get_arg_2(&self) -> (r: Option<i32>)
        ensures
            r == if self.commands().len() > 0 {
                second_operand(self.commands()[0])
            } else {
                None
            },
    {
        if self._parsed_code.len() == 0 {
            return None;
        }
        let command = &self._parsed_code[0];
        if command.len() > 2 {
            parse_i32(&command[2])
        } else {
            None
        }
    }
}

} // verus!
