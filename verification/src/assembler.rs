//! The assembler: resolves the symbols of an assembly program and encodes
//! each of its instructions in a word of sixteen binary digits.
//!
//! The program is cleaned of comments, white space and empty lines. A first
//! pass over the cleaned lines binds each label to the address of the
//! instruction that follows its declaration. A second pass encodes the
//! instructions in order and binds each name that is still unbound, where it
//! is first used, to the next free variable address.

use vstd::prelude::*;
use crate::isa::{
    comp_bits, comp_code, comp_named, dest_bits, dest_code, dest_named, jump_bits, jump_code,
    jump_named, parse_comp, parse_dest, parse_jump,
};
use crate::symbols::SymbolTable;
use crate::text::{
    all_digits, all_digits_in, digits_value, find_char, find_comment, first_index, is_letter,
    is_letter_char, lemma_first_index, lines_of, parse_digits, push_str, slice_of, split_lines,
    string_texts, strip_comment, texts, to_chars, to_strings, trim, trimmed,
};

verus! {

// ---------------------------------------------------------------------------
// Cleaning

/// A line without its comment and without white space at its ends.
pub open spec fn clean_line(raw: Seq<char>) -> Seq<char> {
    trim(strip_comment(raw))
}

/// The cleaned lines that are not empty, in order.
pub open spec fn clean_lines(raw: Seq<Seq<char>>) -> Seq<Seq<char>>
    decreases raw.len(),
{
    if raw.len() == 0 {
        Seq::empty()
    } else {
        let before = clean_lines(raw.drop_last());
        let line = clean_line(raw.last());
        if line.len() == 0 {
            before
        } else {
            before.push(line)
        }
    }
}

/// The lines of a program text that the assembler works on.
pub open spec fn format_text(code: Seq<char>) -> Seq<Seq<char>> {
    clean_lines(split_lines(code))
}

/// Cleans a program text.
pub fn formatted(code: &Vec<char>) -> (r: Vec<Vec<char>>)
    ensures
        texts(r@) == format_text(code@),
{
    let raw = lines_of(code);
    let mut r: Vec<Vec<char>> = Vec::new();
    let mut i: usize = 0;
    assert(texts(raw@).take(0) =~= Seq::<Seq<char>>::empty());
    assert(texts(r@) =~= Seq::<Seq<char>>::empty());
    while i < raw.len()
        invariant
            i <= raw.len(),
            texts(r@) == clean_lines(texts(raw@).take(i as int)),
        decreases raw.len() - i,
    {
        let cut = find_comment(&raw[i]);
        let head = slice_of(&raw[i], 0, cut);
        let line = trimmed(&head);
        let ghost before = texts(r@);
        proof {
            let t = texts(raw@).take(i + 1);
            assert(t.drop_last() =~= texts(raw@).take(i as int));
            assert(t.last() == raw[i as int]@);
        }
        if line.len() > 0 {
            let ghost text = line@;
            r.push(line);
            assert(texts(r@) =~= before.push(text));
        }
        i += 1;
    }
    assert(texts(raw@).take(i as int) =~= texts(raw@));
    r
}

// ---------------------------------------------------------------------------
// Lines

/// Whether a line declares a label.
pub open spec fn is_label_line(l: Seq<char>) -> bool {
    l.len() > 0 && l[0] == '('
}

/// Whether a line is an address instruction.
pub open spec fn is_address_line(l: Seq<char>) -> bool {
    l.len() > 0 && l[0] == '@'
}

/// Whether the declaration of a label is closed by a bracket.
pub open spec fn is_closed(l: Seq<char>) -> bool {
    first_index(l, ')') < l.len()
}

/// The name that a label line declares: what stands between the opening
/// bracket and the first closing one.
pub open spec fn label_of(l: Seq<char>) -> Seq<char> {
    l.subrange(1, first_index(l, ')'))
}

/// What follows the `@` of an address instruction.
pub open spec fn operand_of(l: Seq<char>) -> Seq<char> {
    l.subrange(1, l.len() as int)
}

/// Whether an address instruction names a symbol: its operand begins with
/// a letter. Any other operand has to be a number.
pub open spec fn is_symbol_line(l: Seq<char>) -> bool {
    is_address_line(l) && l.len() > 1 && is_letter(l[1])
}

/// The destination field of a compute instruction: what stands before the
/// first equals sign, and `null` where there is none.
pub open spec fn dest_field(l: Seq<char>) -> Seq<char> {
    if first_index(l, '=') < l.len() {
        l.subrange(0, first_index(l, '='))
    } else {
        "null"@
    }
}

/// A compute instruction without its destination field.
pub open spec fn after_dest(l: Seq<char>) -> Seq<char> {
    if first_index(l, '=') < l.len() {
        l.subrange(first_index(l, '=') + 1, l.len() as int)
    } else {
        l
    }
}

/// The computation field of a compute instruction: what stands between the
/// destination field and the first semicolon after it.
pub open spec fn comp_field(l: Seq<char>) -> Seq<char> {
    after_dest(l).subrange(0, first_index(after_dest(l), ';'))
}

/// The jump field of a compute instruction: what follows the first
/// semicolon after the destination field, and `null` where there is none.
pub open spec fn jump_field(l: Seq<char>) -> Seq<char> {
    let rest = after_dest(l);
    if first_index(rest, ';') < rest.len() {
        rest.subrange(first_index(rest, ';') + 1, rest.len() as int)
    } else {
        "null"@
    }
}

/// The number of instructions among the first `n` lines, which is the
/// address of the instruction that follows them.
pub open spec fn instruction_count(lines: Seq<Seq<char>>, n: int) -> nat
    decreases n,
{
    if n <= 0 {
        0
    } else {
        instruction_count(lines, n - 1) + if is_label_line(lines[n - 1]) {
            0nat
        } else {
            1nat
        }
    }
}

// ---------------------------------------------------------------------------
// Words

/// The last `width` binary digits of `v`, most significant first.
pub open spec fn binary(v: nat, width: nat) -> Seq<char>
    decreases width,
{
    if width == 0 {
        Seq::empty()
    } else {
        binary(v / 2, (width - 1) as nat).push(
            if v % 2 == 1 {
                '1'
            } else {
                '0'
            },
        )
    }
}

/// The word of an address instruction: a zero and the last fifteen binary
/// digits of the address.
pub open spec fn address_word(v: nat) -> Seq<char> {
    seq!['0'] + binary(v, 15)
}

/// The word of a compute instruction whose fields are all known: three
/// ones and the bits of the computation, the destination and the jump.
pub open spec fn compute_word(l: Seq<char>) -> Seq<char> {
    "111"@ + comp_bits(comp_named(comp_field(l))->0) + dest_bits(dest_named(dest_field(l))->0)
        + jump_bits(jump_named(jump_field(l))->0)
}

/// Appends the last `width` binary digits of `v`.
fn push_binary(out: &mut Vec<char>, v: u32, width: u32)
    ensures
        final(out)@ == old(out)@ + binary(v as nat, width as nat),
    decreases width,
{
    if width > 0 {
        push_binary(out, v / 2, width - 1);
        out.push(
            if v % 2 == 1 {
                '1'
            } else {
                '0'
            },
        );
    }
}

/// The word of an address instruction.
fn address_bits(v: u16) -> (r: Vec<char>)
    ensures
        r@ == address_word(v as nat),
{
    let mut r: Vec<char> = Vec::new();
    r.push('0');
    push_binary(&mut r, v as u32, 15);
    r
}

// ---------------------------------------------------------------------------
// Errors

/// The ways in which a program can be wrong.
#[derive(Clone, Copy, Debug, PartialEq, Eq)]
pub enum AsmErrorKind {
    /// A label declaration without a closing bracket.
    MalformedLabel,
    /// An address instruction whose operand is neither a symbol, which
    /// begins with a letter, nor a number, which is made of digits.
    InvalidAddress,
    /// A number, the address of a label or the address of a variable that
    /// does not fit in sixteen bits.
    AddressOverflow,
    /// A destination field that is no destination mnemonic.
    UnknownDest,
    /// A computation field that is no computation mnemonic.
    UnknownComp,
    /// A jump field that is no jump mnemonic.
    UnknownJump,
}

/// An error of the assembler: what is wrong, and on which of the cleaned
/// lines, counted from zero.
#[derive(Clone, Copy, Debug, PartialEq, Eq)]
pub struct AsmError {
    pub kind: AsmErrorKind,
    pub line: usize,
}

/// What the first pass finds wrong with line `i`, if anything.
pub open spec fn label_fault(lines: Seq<Seq<char>>, i: int) -> Option<AsmErrorKind> {
    if !is_label_line(lines[i]) {
        None
    } else if !is_closed(lines[i]) {
        Some(AsmErrorKind::MalformedLabel)
    } else if instruction_count(lines, i) > 0xFFFF {
        Some(AsmErrorKind::AddressOverflow)
    } else {
        None
    }
}

/// What the second pass finds wrong with the line `l`, if anything, where
/// `table` holds the symbols bound before the line and `next` is the next
/// free variable address.
pub open spec fn encode_fault(l: Seq<char>, table: Map<Seq<char>, u16>, next: nat) -> Option<
    AsmErrorKind,
> {
    if is_label_line(l) {
        None
    } else if is_address_line(l) {
        let operand = operand_of(l);
        if is_symbol_line(l) {
            if !table.contains_key(operand) && next > 0xFFFF {
                Some(AsmErrorKind::AddressOverflow)
            } else {
                None
            }
        } else if operand.len() == 0 || !all_digits(operand) {
            Some(AsmErrorKind::InvalidAddress)
        } else if digits_value(operand) > 0xFFFF {
            Some(AsmErrorKind::AddressOverflow)
        } else {
            None
        }
    } else if dest_named(dest_field(l)) is None {
        Some(AsmErrorKind::UnknownDest)
    } else if comp_named(comp_field(l)) is None {
        Some(AsmErrorKind::UnknownComp)
    } else if jump_named(jump_field(l)) is None {
        Some(AsmErrorKind::UnknownJump)
    } else {
        None
    }
}

// ---------------------------------------------------------------------------
// The two passes

/// The symbols after the first pass over the first `n` lines: each label
/// that was not bound before is bound to the address of the instruction
/// that follows its declaration.
pub open spec fn with_labels(lines: Seq<Seq<char>>, n: int, table: Map<Seq<char>, u16>) -> Map<
    Seq<char>,
    u16,
>
    decreases n,
{
    if n <= 0 {
        table
    } else {
        let before = with_labels(lines, n - 1, table);
        let l = lines[n - 1];
        if is_label_line(l) && !before.contains_key(label_of(l)) {
            before.insert(label_of(l), instruction_count(lines, n - 1) as u16)
        } else {
            before
        }
    }
}

/// The first error of the first pass among the first `n` lines.
pub open spec fn label_error(lines: Seq<Seq<char>>, n: int) -> Option<AsmError>
    decreases n,
{
    if n <= 0 {
        None
    } else if label_error(lines, n - 1) is Some {
        label_error(lines, n - 1)
    } else {
        match label_fault(lines, n - 1) {
            Some(kind) => Some(AsmError { kind, line: (n - 1) as usize }),
            None => None,
        }
    }
}

/// The symbols and the next free variable address after the second pass
/// has read the line `l`: a symbol that is used and not bound is bound to
/// the free address, and the address after it becomes the free one.
pub open spec fn after_line(l: Seq<char>, table: Map<Seq<char>, u16>, next: nat) -> (
    Map<Seq<char>, u16>,
    nat,
) {
    if is_symbol_line(l) && !table.contains_key(operand_of(l)) {
        (table.insert(operand_of(l), next as u16), next + 1)
    } else {
        (table, next)
    }
}

/// The symbols and the next free variable address after the second pass
/// over the first `n` lines: each symbol that was not bound when it was
/// first used is bound to the variable address that was free then.
pub open spec fn with_variables(
    lines: Seq<Seq<char>>,
    n: int,
    table: Map<Seq<char>, u16>,
    next: nat,
) -> (Map<Seq<char>, u16>, nat)
    decreases n,
{
    if n <= 0 {
        (table, next)
    } else {
        let (before, free) = with_variables(lines, n - 1, table, next);
        after_line(lines[n - 1], before, free)
    }
}

/// The first error of the second pass among the first `n` lines.
pub open spec fn encode_error(
    lines: Seq<Seq<char>>,
    n: int,
    table: Map<Seq<char>, u16>,
    next: nat,
) -> Option<AsmError>
    decreases n,
{
    if n <= 0 {
        None
    } else if encode_error(lines, n - 1, table, next) is Some {
        encode_error(lines, n - 1, table, next)
    } else {
        let (before, free) = with_variables(lines, n - 1, table, next);
        match encode_fault(lines[n - 1], before, free) {
            Some(kind) => Some(AsmError { kind, line: (n - 1) as usize }),
            None => None,
        }
    }
}

/// The word of the instruction `l`, where `table` holds the symbols bound
/// before the line and `next` is the next free variable address.
pub open spec fn encode(l: Seq<char>, table: Map<Seq<char>, u16>, next: nat) -> Seq<char> {
    if is_address_line(l) {
        let operand = operand_of(l);
        if is_symbol_line(l) {
            if table.contains_key(operand) {
                address_word(table[operand] as nat)
            } else {
                address_word(next)
            }
        } else {
            address_word(digits_value(operand))
        }
    } else {
        compute_word(l)
    }
}

/// The words of the instructions among the first `n` lines.
pub open spec fn words(lines: Seq<Seq<char>>, n: int, table: Map<Seq<char>, u16>, next: nat) -> Seq<
    Seq<char>,
>
    decreases n,
{
    if n <= 0 {
        Seq::empty()
    } else {
        let done = words(lines, n - 1, table, next);
        let (before, free) = with_variables(lines, n - 1, table, next);
        if is_label_line(lines[n - 1]) {
            done
        } else {
            done.push(encode(lines[n - 1], before, free))
        }
    }
}

/// The result of assembling the cleaned lines of a program, starting from
/// the symbols in `table` and the free variable address `next`: the first
/// error of the first pass, else the first error of the second pass, else
/// the words of all instructions.
pub open spec fn assemble(lines: Seq<Seq<char>>, table: Map<Seq<char>, u16>, next: nat) -> Result<
    Seq<Seq<char>>,
    AsmError,
> {
    let n = lines.len() as int;
    let labelled = with_labels(lines, n, table);
    if label_error(lines, n) is Some {
        Err(label_error(lines, n)->0)
    } else if encode_error(lines, n, labelled, next) is Some {
        Err(encode_error(lines, n, labelled, next)->0)
    } else {
        Ok(words(lines, n, labelled, next))
    }
}

/// The symbols after both passes.
pub open spec fn resolved(lines: Seq<Seq<char>>, table: Map<Seq<char>, u16>, next: nat) -> Map<
    Seq<char>,
    u16,
> {
    let n = lines.len() as int;
    with_variables(lines, n, with_labels(lines, n, table), next).0
}

/// The next free variable address after both passes.
pub open spec fn next_free(lines: Seq<Seq<char>>, table: Map<Seq<char>, u16>, next: nat) -> nat {
    let n = lines.len() as int;
    with_variables(lines, n, with_labels(lines, n, table), next).1
}

/// An error of the first pass stays the first error when more lines are
/// read.
pub proof fn lemma_label_error_stays(lines: Seq<Seq<char>>, i: int, n: int)
    requires
        0 <= i <= n,
        label_error(lines, i) is Some,
    ensures
        label_error(lines, n) == label_error(lines, i),
    decreases n - i,
{
    if i < n {
        lemma_label_error_stays(lines, i, n - 1);
    }
}

/// An error of the second pass stays the first error when more lines are
/// read.
pub proof fn lemma_encode_error_stays(
    lines: Seq<Seq<char>>,
    i: int,
    n: int,
    table: Map<Seq<char>, u16>,
    next: nat,
)
    requires
        0 <= i <= n,
        encode_error(lines, i, table, next) is Some,
    ensures
        encode_error(lines, n, table, next) == encode_error(lines, i, table, next),
    decreases n - i,
{
    if i < n {
        lemma_encode_error_stays(lines, i, n - 1, table, next);
    }
}

// ---------------------------------------------------------------------------
// The assembler

/// Encodes a compute instruction.
fn encode_compute(l: &Vec<char>) -> (r: Result<Vec<char>, AsmErrorKind>)
    requires
        !is_label_line(l@),
        !is_address_line(l@),
    ensures
        match encode_fault(l@, Map::empty(), 0) {
            Some(kind) => r == Err::<Vec<char>, AsmErrorKind>(kind),
            None => r matches Ok(w) && w@ == compute_word(l@),
        },
{
    let n = l.len();
    let eq = find_char(l, '=');
    let dest_text = if eq < n {
        slice_of(l, 0, eq)
    } else {
        to_chars("null")
    };
    let rest = if eq < n {
        slice_of(l, eq + 1, n)
    } else {
        slice_of(l, 0, n)
    };
    assert(l@.subrange(0, n as int) =~= l@);
    assert(dest_text@ == dest_field(l@));
    assert(rest@ == after_dest(l@));
    let m = rest.len();
    let semi = find_char(&rest, ';');
    let comp_text = slice_of(&rest, 0, semi);
    let jump_text = if semi < m {
        slice_of(&rest, semi + 1, m)
    } else {
        to_chars("null")
    };
    assert(comp_text@ == comp_field(l@));
    assert(jump_text@ == jump_field(l@));
    let d = match parse_dest(&dest_text) {
        Some(d) => d,
        None => {
            return Err(AsmErrorKind::UnknownDest);
        },
    };
    let c = match parse_comp(&comp_text) {
        Some(c) => c,
        None => {
            return Err(AsmErrorKind::UnknownComp);
        },
    };
    let j = match parse_jump(&jump_text) {
        Some(j) => j,
        None => {
            return Err(AsmErrorKind::UnknownJump);
        },
    };
    let mut w: Vec<char> = Vec::new();
    push_str(&mut w, "111");
    push_str(&mut w, comp_code(c));
    push_str(&mut w, dest_code(d));
    push_str(&mut w, jump_code(j));
    assert(w@ =~= compute_word(l@));
    Ok(w)
}

/// Encodes one instruction in the second pass, binding its symbol where it
/// is new.
fn encode_line(l: &Vec<char>, table: &mut SymbolTable, next: &mut u32) -> (r: Result<
    Vec<char>,
    AsmErrorKind,
>)
    requires
        !is_label_line(l@),
    ensures
        match encode_fault(l@, old(table)@, *old(next) as nat) {
            Some(kind) => r == Err::<Vec<char>, AsmErrorKind>(kind),
            None => {
                &&& r matches Ok(w)
                &&& w@ == encode(l@, old(table)@, *old(next) as nat)
                &&& (final(table)@, *final(next) as nat) == after_line(
                    l@,
                    old(table)@,
                    *old(next) as nat,
                )
            },
        },
{
    let n = l.len();
    if n > 0 && l[0] == '@' {
        let operand = slice_of(l, 1, n);
        if operand.len() == 0 {
            return Err(AsmErrorKind::InvalidAddress);
        }
        if !is_letter_char(operand[0]) {
            if !all_digits_in(&operand) {
                return Err(AsmErrorKind::InvalidAddress);
            }
            match parse_digits(&operand, 0xFFFF) {
                Some(v) => Ok(address_bits(v as u16)),
                None => Err(AsmErrorKind::AddressOverflow),
            }
        } else {
            match table.get(&operand) {
                Some(v) => Ok(address_bits(v)),
                None => {
                    if *next > 0xFFFF {
                        return Err(AsmErrorKind::AddressOverflow);
                    }
                    let v: u16 = *next as u16;
                    table.insert(operand, v);
                    *next = *next + 1;
                    Ok(address_bits(v))
                },
            }
        }
    } else {
        encode_compute(l)
    }
}

/// An assembler for one program: the program text, the symbols bound so
/// far and the next free variable address.
pub struct Assembler {
    raw_code: String,
    variable_stack_ptr: u32,
    label_table: SymbolTable,
}

impl Assembler {
    /// The program text.
    pub closed spec fn source(&self) -> Seq<char> {
        self.raw_code@
    }

    /// The symbols bound so far.
    pub closed spec fn symbols(&self) -> Map<Seq<char>, u16> {
        self.label_table@
    }

    /// The next free variable address.
    pub closed spec fn next_variable(&self) -> nat {
        self.variable_stack_ptr as nat
    }

    /// An assembler for the given program text, with the symbols that the
    /// machine defines and with variables from address 16 on.
    pub fn new(code: &String) -> (r: Self)
        ensures
            r.source() == code@,
            r.symbols() == crate::symbols::predefined(),
            r.next_variable() == 16,
    {
        Self {
            raw_code: code.clone(),
            variable_stack_ptr: 16,
            label_table: SymbolTable::with_predefined(),
        }
    }

    /// The lines of `code` that the assembler works on: split at the
    /// newline characters, without comments, without white space at their
    /// ends, and without the lines that are empty then.
    pub fn format_code(&self, code: &String) -> (r: Vec<String>)
        ensures
            string_texts(r@) == format_text(code@),
    {
        let text = to_chars(code.as_str());
        let lines = formatted(&text);
        to_strings(&lines)
    }

    /// Assembles the program: one word of sixteen binary digits for each
    /// instruction, in program order, or the first error.
    pub fn translate(&mut self) -> (r: Result<Vec<String>, AsmError>)
        ensures
            final(self).source() == old(self).source(),
            match assemble(
                format_text(old(self).source()),
                old(self).symbols(),
                old(self).next_variable(),
            ) {
                Ok(ws) => {
                    &&& r matches Ok(v)
                    &&& string_texts(v@) == ws
                    &&& final(self).symbols() == resolved(
                        format_text(old(self).source()),
                        old(self).symbols(),
                        old(self).next_variable(),
                    )
                    &&& final(self).next_variable() == next_free(
                        format_text(old(self).source()),
                        old(self).symbols(),
                        old(self).next_variable(),
                    )
                },
                Err(e) => r == Err::<Vec<String>, AsmError>(e),
            },
    {
        let text = to_chars(self.raw_code.as_str());
        let lines = formatted(&text);
        let ghost ls = texts(lines@);
        let ghost table = self.label_table@;
        let ghost first = self.variable_stack_ptr as nat;
        let n = lines.len();

        let mut count: usize = 0;
        let mut i: usize = 0;
        while i < n
            invariant
                i <= n == lines.len(),
                ls == texts(lines@),
                count == instruction_count(ls, i as int),
                count <= i,
                label_error(ls, i as int) is None,
                self.label_table@ == with_labels(ls, i as int, table),
                self.raw_code == old(self).raw_code,
                self.variable_stack_ptr == old(self).variable_stack_ptr,
                ls == format_text(old(self).source()),
                table == old(self).symbols(),
                first == old(self).next_variable(),
            decreases n - i,
        {
            let l = &lines[i];
            assert(ls[i as int] == l@);
            if l.len() > 0 && l[0] == '(' {
                let close = find_char(l, ')');
                proof {
                    lemma_first_index(l@, ')');
                }
                if close >= l.len() {
                    proof {
                        lemma_label_error_stays(ls, i + 1, n as int);
                    }
                    return Err(AsmError { kind: AsmErrorKind::MalformedLabel, line: i });
                }
                if count > 0xFFFF {
                    proof {
                        lemma_label_error_stays(ls, i + 1, n as int);
                    }
                    return Err(AsmError { kind: AsmErrorKind::AddressOverflow, line: i });
                }
                let name = slice_of(l, 1, close);
                self.label_table.bind(name, count as u16);
            } else {
                count += 1;
            }
            i += 1;
        }

        let ghost labelled = self.label_table@;
        let mut out: Vec<Vec<char>> = Vec::new();
        let mut i: usize = 0;
        assert(texts(out@) =~= words(ls, 0, labelled, first));
        while i < n
            invariant
                i <= n == lines.len(),
                ls == texts(lines@),
                encode_error(ls, i as int, labelled, first) is None,
                (self.label_table@, self.variable_stack_ptr as nat) == with_variables(
                    ls,
                    i as int,
                    labelled,
                    first,
                ),
                texts(out@) == words(ls, i as int, labelled, first),
                self.raw_code == old(self).raw_code,
                ls == format_text(old(self).source()),
                table == old(self).symbols(),
                first == old(self).next_variable(),
                labelled == with_labels(ls, n as int, table),
                label_error(ls, n as int) is None,
            decreases n - i,
        {
            let l = &lines[i];
            assert(ls[i as int] == l@);
            if !(l.len() > 0 && l[0] == '(') {
                let ghost done = texts(out@);
                match encode_line(l, &mut self.label_table, &mut self.variable_stack_ptr) {
                    Ok(w) => {
                        let ghost word = w@;
                        out.push(w);
                        assert(texts(out@) =~= done.push(word));
                    },
                    Err(kind) => {
                        proof {
                            lemma_encode_error_stays(ls, i + 1, n as int, labelled, first);
                        }
                        return Err(AsmError { kind, line: i });
                    },
                }
            }
            i += 1;
        }
        Ok(to_strings(&out))
    }
}

} // verus!
