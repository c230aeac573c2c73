//! Assembly listings: the kinds of line that a listing holds, the text that
//! each is written as, and a writer that builds a listing line by line.

use vstd::prelude::*;
use crate::isa::{
    Comp, Dest, Jump, comp_name, comp_text, dest_name, dest_text, jump_name, jump_text,
};
use crate::text::{
    push_chars, push_signed_decimal, push_str, signed_decimal, string_texts, texts, to_strings,
};

verus! {

/// One line of an assembly listing.
pub enum Line {
    /// An empty line.
    Blank,
    /// A comment with the given text.
    Comment(Seq<char>),
    /// The declaration of a label.
    Label(Seq<char>),
    /// An address instruction that loads a number.
    AtValue(int),
    /// An address instruction that loads the address of a symbol.
    AtName(Seq<char>),
    /// A compute instruction.
    Compute(Dest, Comp, Jump),
}

/// The destination of a compute instruction as it is written: nothing for
/// no destination, else the mnemonic and an equals sign.
pub open spec fn dest_part(d: Dest) -> Seq<char> {
    if d is Null {
        Seq::empty()
    } else {
        dest_text(d) + "="@
    }
}

/// The jump of a compute instruction as it is written: nothing for no
/// jump, else a semicolon and the mnemonic.
pub open spec fn jump_part(j: Jump) -> Seq<char> {
    if j is Null {
        Seq::empty()
    } else {
        ";"@ + jump_text(j)
    }
}

/// The text of a line.
pub open spec fn render(l: Line) -> Seq<char> {
    match l {
        Line::Blank => Seq::empty(),
        Line::Comment(t) => "// "@ + t,
        Line::Label(n) => "("@ + n + ")"@,
        Line::AtValue(v) => "@"@ + signed_decimal(v),
        Line::AtName(n) => "@"@ + n,
        Line::Compute(d, c, j) => dest_part(d) + comp_text(c) + jump_part(j),
    }
}

/// The address instruction that loads the address of a symbol.
pub open spec fn at(name: Seq<char>) -> Line {
    Line::AtName(name)
}

/// The compute instruction that stores a computation and does not jump.
pub open spec fn store(d: Dest, c: Comp) -> Line {
    Line::Compute(d, c, Jump::Null)
}

/// The compute instruction that stores nothing and jumps on a computation.
pub open spec fn branch(c: Comp, j: Jump) -> Line {
    Line::Compute(Dest::Null, c, j)
}

/// The texts of the lines of a listing.
pub open spec fn render_all(code: Seq<Line>) -> Seq<Seq<char>> {
    Seq::new(code.len(), |i: int| render(code[i]))
}

/// A listing under construction. Beside the text of each line it keeps, for
/// proofs, the line that the text was written from.
pub struct Listing {
    lines: Vec<Vec<char>>,
    code: Ghost<Seq<Line>>,
}

impl Listing {
    /// The lines written so far.
    pub closed spec fn code(&self) -> Seq<Line> {
        self.code@
    }

    /// The texts held are those of the lines written.
    pub closed spec fn wf(&self) -> bool {
        texts(self.lines@) == render_all(self.code@)
    }

    /// An empty listing.
    pub fn new() -> (r: Listing)
        ensures
            r.wf(),
            r.code() == Seq::<Line>::empty(),
    {
        let r = Listing { lines: Vec::new(), code: Ghost(Seq::empty()) };
        assert(texts(r.lines@) =~= render_all(r.code@));
        r
    }

    fn push_line(&mut self, text: Vec<char>, Ghost(line): Ghost<Line>)
        requires
            old(self).wf(),
            text@ == render(line),
        ensures
            final(self).wf(),
            final(self).code() == old(self).code().push(line),
    {
        let ghost before = texts(self.lines@);
        let ghost code = self.code@;
        self.lines.push(text);
        self.code = Ghost(code.push(line));
        assert forall|i: int| 0 <= i < self.lines@.len() implies texts(self.lines@)[i] == render(
            self.code@[i],
        ) by {
            if i < before.len() {
                assert(texts(self.lines@)[i] == before[i]);
                assert(render_all(code)[i] == render(code[i]));
            }
        }
        assert(texts(self.lines@) =~= render_all(self.code@));
    }

    /// Writes an empty line.
    pub fn blank(&mut self)
        requires
            old(self).wf(),
        ensures
            final(self).wf(),
            final(self).code() == old(self).code().push(Line::Blank),
    {
        self.push_line(Vec::new(), Ghost(Line::Blank));
    }

    /// Writes a comment.
    pub fn comment(&mut self, note: &Vec<char>)
        requires
            old(self).wf(),
        ensures
            final(self).wf(),
            final(self).code() == old(self).code().push(Line::Comment(note@)),
    {
        let mut text: Vec<char> = Vec::new();
        push_str(&mut text, "// ");
        push_chars(&mut text, note);
        assert(text@ =~= "// "@ + note@);
        self.push_line(text, Ghost(Line::Comment(note@)));
    }

    /// Writes the declaration of a label.
    pub fn label(&mut self, name: &Vec<char>)
        requires
            old(self).wf(),
        ensures
            final(self).wf(),
            final(self).code() == old(self).code().push(Line::Label(name@)),
    {
        let mut text: Vec<char> = Vec::new();
        push_str(&mut text, "(");
        push_chars(&mut text, name);
        push_str(&mut text, ")");
        assert(text@ =~= "("@ + name@ + ")"@);
        self.push_line(text, Ghost(Line::Label(name@)));
    }

    /// Writes an address instruction that loads a number.
    pub fn at_value(&mut self, value: i64)
        requires
            old(self).wf(),
        ensures
            final(self).wf(),
            final(self).code() == old(self).code().push(Line::AtValue(value as int)),
    {
        let mut text: Vec<char> = Vec::new();
        push_str(&mut text, "@");
        push_signed_decimal(&mut text, value);
        assert(text@ =~= "@"@ + signed_decimal(value as int));
        self.push_line(text, Ghost(Line::AtValue(value as int)));
    }

    /// Writes an address instruction that loads the address of a symbol.
    pub fn at_name(&mut self, name: &Vec<char>)
        requires
            old(self).wf(),
        ensures
            final(self).wf(),
            final(self).code() == old(self).code().push(Line::AtName(name@)),
    {
        let mut text: Vec<char> = Vec::new();
        push_str(&mut text, "@");
        push_chars(&mut text, name);
        assert(text@ =~= "@"@ + name@);
        self.push_line(text, Ghost(Line::AtName(name@)));
    }

    /// Writes an address instruction that loads the address of a symbol
    /// given as a string.
    pub fn at(&mut self, name: &str)
        requires
            old(self).wf(),
        ensures
            final(self).wf(),
            final(self).code() == old(self).code().push(Line::AtName(name@)),
    {
        let mut text: Vec<char> = Vec::new();
        push_str(&mut text, "@");
        push_str(&mut text, name);
        assert(text@ =~= "@"@ + name@);
        self.push_line(text, Ghost(Line::AtName(name@)));
    }

    /// Writes a compute instruction.
    pub fn compute(&mut self, d: Dest, c: Comp, j: Jump)
        requires
            old(self).wf(),
        ensures
            final(self).wf(),
            final(self).code() == old(self).code().push(Line::Compute(d, c, j)),
    {
        let mut text: Vec<char> = Vec::new();
        match d {
            Dest::Null => {},
            _ => {
                push_str(&mut text, dest_name(d));
                push_str(&mut text, "=");
            },
        }
        assert(text@ =~= dest_part(d));
        push_str(&mut text, comp_name(c));
        match j {
            Jump::Null => {},
            _ => {
                push_str(&mut text, ";");
                push_str(&mut text, jump_name(j));
            },
        }
        assert(text@ =~= dest_part(d) + comp_text(c) + jump_part(j));
        self.push_line(text, Ghost(Line::Compute(d, c, j)));
    }

    /// Writes a compute instruction that stores and does not jump.
    pub fn store(&mut self, d: Dest, c: Comp)
        requires
            old(self).wf(),
        ensures
            final(self).wf(),
            final(self).code() == old(self).code().push(store(d, c)),
    {
        self.compute(d, c, Jump::Null);
    }

    /// Writes a compute instruction that jumps and does not store.
    pub fn branch(&mut self, c: Comp, j: Jump)
        requires
            old(self).wf(),
        ensures
            final(self).wf(),
            final(self).code() == old(self).code().push(branch(c, j)),
    {
        self.compute(Dest::Null, c, j);
    }

    /// The texts of the lines written, as strings.
    pub fn finish(self) -> (r: Vec<String>)
        requires
            self.wf(),
        ensures
            string_texts(r@) == render_all(self.code()),
    {
        to_strings(&self.lines)
    }
}

} // verus!
