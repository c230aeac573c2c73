//! The program that the assembler makes of a listing: the words are the
//! encodings of the instructions with each symbol replaced by its address,
//! the listing is loaded in the program that holds its instructions in
//! order and binds its symbols as the assembler does, and a word decides
//! what its instruction does.

use vstd::prelude::*;
use crate::assembler::{
    address_word, assemble, binary, clean_line, clean_lines, encode, encode_error, encode_fault,
    format_text, instruction_count, is_closed, is_label_line, is_symbol_line, label_error,
    label_fault, label_of, lemma_encode_error_stays, lemma_label_error_stays, operand_of,
    resolved, with_labels, with_variables,
};
use crate::isa::{comp_bits, dest_bits, jump_bits};
use crate::listing::{Line, render, render_all};
use crate::machine::{
    Program, is_instruction, lemma_loaded_parts, lemma_size_parts, loaded, size,
};
use crate::resolution::{
    lemma_comment_vanishes, lemma_compute_assembles, lemma_label_assembles, lemma_labels_last,
    lemma_name_assembles, lemma_number_assembles, lemma_undeclared, lemma_variables_last,
    lemma_word_place, lemma_words_len,
};
use crate::symbols::predefined;
use crate::text::{
    comment_at, comment_start, is_letter, is_space, join_lines, lemma_comment_start,
    lemma_decimal, lemma_split_join, strip_comment, trim_end, trim_start,
};

verus! {

/// Whether a name holds neither white space nor a slash, so that cleaning
/// leaves it as it is.
pub open spec fn is_tidy(name: Seq<char>) -> bool {
    forall|i: int| 0 <= i < name.len() ==> !is_space(#[trigger] name[i]) && name[i] != '/'
}

/// Whether a line is written so that the assembler reads it as what it
/// is: names are tidy, the name of a label holds no closing bracket, a
/// number fits in sixteen bits, and a symbol begins with a letter.
/// Comments and empty lines do not count, for they are cleaned away.
pub open spec fn is_written(l: Line) -> bool {
    match l {
        Line::Label(name) => is_tidy(name) && !name.contains(')'),
        Line::AtValue(v) => 0 <= v <= 0xFFFF,
        Line::AtName(name) => name.len() > 0 && is_letter(name[0]) && is_tidy(name),
        Line::Compute(_, _, _) => true,
        _ => false,
    }
}

/// Whether every line of a listing is written so.
pub open spec fn all_written(code: Seq<Line>) -> bool {
    forall|i: int| 0 <= i < code.len() ==> is_written(#[trigger] code[i])
}

/// The word of an instruction, with the addresses of symbols from `table`.
pub open spec fn word_of(l: Line, table: Map<Seq<char>, u16>) -> Seq<char> {
    match l {
        Line::AtValue(v) => address_word(v as nat),
        Line::AtName(name) => address_word(table[name] as nat),
        Line::Compute(d, c, j) => "111"@ + comp_bits(c) + dest_bits(d) + jump_bits(j),
        _ => Seq::empty(),
    }
}

/// The assembler reads a written line as what it is: a label declaration
/// as the declaration of its name, an address instruction with a symbol as
/// naming the symbol, and any other instruction as an instruction that it
/// encodes, without error, in the word of the instruction.
pub proof fn lemma_line_read(l: Line, table: Map<Seq<char>, u16>, next: nat)
    requires
        is_written(l),
    ensures
        is_instruction(l) <==> !(l is Label),
        is_label_line(render(l)) <==> l is Label,
        is_symbol_line(render(l)) <==> l is AtName,
        l matches Line::Label(name) ==> label_of(render(l)) == name && is_closed(render(l)),
        l matches Line::AtName(name) ==> operand_of(render(l)) == name,
        l is AtValue || l is Compute ==> encode_fault(render(l), table, next) is None && encode(
            render(l),
            table,
            next,
        ) == word_of(l, table),
{
    match l {
        Line::Label(name) => {
            lemma_label_assembles(name);
            reveal_strlit("(");
            assert(render(l)[0] == '(');
        },
        Line::AtValue(v) => {
            lemma_number_assembles(v as nat, table, next);
        },
        Line::AtName(name) => {
            lemma_name_assembles(name);
        },
        Line::Compute(d, c, j) => {
            lemma_compute_assembles(d, c, j, table, next);
            reveal_strlit("=");
            reveal_strlit(";");
            crate::isa::lemma_mnemonics_plain(d, c, j);
            let t = render(l);
            if d is Null {
                assert(t[0] == crate::isa::comp_text(c)[0]);
            } else {
                assert(t[0] == crate::isa::dest_text(d)[0]);
            }
        },
        _ => {},
    }
}

/// The words of a listing are the words of its instructions, in order,
/// with each symbol replaced by the address that the assembler has bound
/// it to: the instruction on line `i` stands among the words at the place
/// that is the number of instructions before it, as its own word.
pub proof fn lemma_listing_words(
    code: Seq<Line>,
    table: Map<Seq<char>, u16>,
    next: nat,
    i: int,
)
    requires
        all_written(code),
        0 <= i < code.len(),
        is_instruction(code[i]),
        assemble(render_all(code), table, next) is Ok,
    ensures
        ({
            let lines = render_all(code);
            let place = instruction_count(lines, i) as int;
            let made = assemble(lines, table, next)->Ok_0;
            &&& 0 <= place < made.len()
            &&& made[place] == word_of(code[i], resolved(lines, table, next))
        }),
{
    let lines = render_all(code);
    let n = lines.len() as int;
    let labelled = with_labels(lines, n, table);
    let last = resolved(lines, table, next);
    let (before, free) = with_variables(lines, i, labelled, next);
    assert(lines[i] == render(code[i]));
    lemma_line_read(code[i], before, free);
    lemma_word_place(lines, n, labelled, next, i);
    if encode_error(lines, i + 1, labelled, next) is Some {
        lemma_encode_error_stays(lines, i + 1, n, labelled, next);
    }
    assert(encode_fault(lines[i], before, free) is None);
    match code[i] {
        Line::AtName(name) => {
            assert(with_variables(lines, i + 1, labelled, next).0.contains_key(name));
            lemma_variables_last(lines, i + 1, n, labelled, next, name);
        },
        _ => {},
    }
}

// ---------------------------------------------------------------------------
// The program in place

/// The number of instructions among the first `n` lines of a listing,
/// which is the address of the instruction that follows them.
pub open spec fn placed_before(code: Seq<Line>, n: int) -> int
    decreases n,
{
    if n <= 0 {
        0
    } else {
        placed_before(code, n - 1) + if is_instruction(code[n - 1]) {
            1int
        } else {
            0int
        }
    }
}

/// Whether line `i` of a listing is the instruction that stands at the
/// address `a`.
pub open spec fn stands_at(code: Seq<Line>, i: int, a: int) -> bool {
    0 <= i < code.len() && is_instruction(code[i]) && placed_before(code, i) == a
}

/// The addresses of the symbols of a table, as integers.
pub open spec fn addresses(table: Map<Seq<char>, u16>) -> Map<Seq<char>, int> {
    Map::new(|name: Seq<char>| table.contains_key(name), |name: Seq<char>| table[name] as int)
}

/// The program that a listing makes with the symbols of `table`: its
/// instructions stand in order from the address zero on, and its symbols
/// have the addresses that the table binds them to.
pub open spec fn image(code: Seq<Line>, table: Map<Seq<char>, u16>) -> Program {
    Program {
        rom: Map::new(
            |a: int| exists|i: int| stands_at(code, i, a),
            |a: int| code[choose|i: int| stands_at(code, i, a)],
        ),
        env: addresses(table),
    }
}

/// Whether each label of a listing is declared once and is not bound in
/// `table`.
pub open spec fn labels_fresh(code: Seq<Line>, table: Map<Seq<char>, u16>) -> bool {
    forall|i: int|
        0 <= i < code.len() ==> (#[trigger] code[i] matches Line::Label(name) ==> {
            &&& !table.contains_key(name)
            &&& forall|j: int| 0 <= j < i ==> #[trigger] code[j] != code[i]
        })
}

/// The assembler counts the instructions of a written listing as they
/// are.
pub proof fn lemma_counted(code: Seq<Line>, n: int)
    requires
        all_written(code),
        0 <= n <= code.len(),
    ensures
        instruction_count(render_all(code), n) == placed_before(code, n),
    decreases n,
{
    if n > 0 {
        lemma_counted(code, n - 1);
        lemma_line_read(code[n - 1], Map::empty(), 0);
        assert(render_all(code)[n - 1] == render(code[n - 1]));
    }
}

/// Later lines stand at later addresses, and the line behind an
/// instruction stands at a greater address than the instruction.
pub proof fn lemma_placed_in_order(code: Seq<Line>, i: int, j: int)
    requires
        0 <= i <= j,
    ensures
        placed_before(code, i) <= placed_before(code, j),
        i < j && is_instruction(code[i]) ==> placed_before(code, i) < placed_before(code, j),
    decreases j - i,
{
    if i < j {
        lemma_placed_in_order(code, i, j - 1);
    }
}

/// In the program of a listing, each instruction stands at its address.
pub proof fn lemma_image_holds(code: Seq<Line>, table: Map<Seq<char>, u16>, i: int)
    requires
        0 <= i < code.len(),
        is_instruction(code[i]),
    ensures
        image(code, table).rom.contains_key(placed_before(code, i)),
        image(code, table).rom[placed_before(code, i)] == code[i],
{
    let a = placed_before(code, i);
    assert(stands_at(code, i, a));
    let k = choose|k: int| stands_at(code, k, a);
    if k < i {
        lemma_placed_in_order(code, k, i);
    } else if i < k {
        lemma_placed_in_order(code, i, k);
    }
}

/// The assembler binds a label that is declared once, and was not bound
/// before, to the address of the instruction that follows the
/// declaration.
pub proof fn lemma_label_address(
    code: Seq<Line>,
    table: Map<Seq<char>, u16>,
    next: nat,
    j: int,
)
    requires
        all_written(code),
        labels_fresh(code, table),
        0 <= j < code.len(),
        code[j] is Label,
        label_error(render_all(code), code.len() as int) is None,
    ensures
        resolved(render_all(code), table, next).contains_key(code[j]->Label_0),
        resolved(render_all(code), table, next)[code[j]->Label_0] as int == placed_before(code, j),
{
    let lines = render_all(code);
    let n = lines.len() as int;
    let name = code[j]->Label_0;
    assert(lines[j] == render(code[j]));
    lemma_line_read(code[j], Map::empty(), 0);
    assert forall|k: int| 0 <= k < j && is_label_line(#[trigger] lines[k]) implies label_of(
        lines[k],
    ) != name by {
        assert(lines[k] == render(code[k]));
        lemma_line_read(code[k], Map::empty(), 0);
        assert(code[k] != code[j]);
    }
    lemma_undeclared(lines, j, table, name);
    if label_error(lines, j + 1) is Some {
        lemma_label_error_stays(lines, j + 1, n);
    }
    assert(label_fault(lines, j) is None);
    lemma_counted(code, j);
    assert(with_labels(lines, j + 1, table)[name] == instruction_count(lines, j) as u16);
    lemma_labels_last(lines, j + 1, n, table, name);
    lemma_variables_last(lines, 0, n, with_labels(lines, n, table), next, name);
}

/// The listing is loaded in its program: in the program that holds the
/// instructions of a written listing in order and binds the symbols as
/// the assembler has bound them, every instruction stands at the address
/// after that of the instruction before it, and every label is bound to
/// the address of the instruction that follows its declaration. What is
/// proved of loaded listings therefore holds of assembled programs.
pub proof fn lemma_image_loaded(code: Seq<Line>, table: Map<Seq<char>, u16>, next: nat, from: int)
    requires
        all_written(code),
        labels_fresh(code, table),
        assemble(render_all(code), table, next) is Ok,
        0 <= from <= code.len(),
    ensures
        loaded(
            code,
            from,
            placed_before(code, from),
            image(code, resolved(render_all(code), table, next)),
        ),
    decreases code.len() - from,
{
    if from < code.len() {
        let last = resolved(render_all(code), table, next);
        lemma_image_loaded(code, table, next, from + 1);
        match code[from] {
            Line::Label(name) => {
                lemma_label_address(code, table, next, from);
            },
            _ => {
                lemma_image_holds(code, last, from);
            },
        }
    }
}

// ---------------------------------------------------------------------------
// What a word says

/// The number that the last `width` binary digits of `v` denote.
pub open spec fn low_bits(v: nat, width: nat) -> nat
    decreases width,
{
    if width == 0 {
        0
    } else {
        2 * low_bits(v / 2, (width - 1) as nat) + v % 2
    }
}

/// Numbers with the same binary digits have the same low bits.
proof fn lemma_same_digits(v: nat, w: nat, width: nat)
    requires
        binary(v, width) == binary(w, width),
    ensures
        low_bits(v, width) == low_bits(w, width),
    decreases width,
{
    if width > 0 {
        let a = binary(v / 2, (width - 1) as nat);
        let b = binary(w / 2, (width - 1) as nat);
        crate::resolution::lemma_binary_digits(v / 2, (width - 1) as nat);
        crate::resolution::lemma_binary_digits(w / 2, (width - 1) as nat);
        let bit = |x: nat| if x % 2 == 1 { '1' } else { '0' };
        assert(binary(v, width) == a.push(bit(v)));
        assert(binary(w, width) == b.push(bit(w)));
        assert(a.push(bit(v)).last() == bit(v));
        assert(b.push(bit(w)).last() == bit(w));
        assert(v % 2 == w % 2);
        assert(a =~= a.push(bit(v)).drop_last());
        assert(b =~= b.push(bit(w)).drop_last());
        lemma_same_digits(v / 2, w / 2, (width - 1) as nat);
    }
}

/// The last fifteen binary digits of a number denote what is left of the
/// number when it is divided by two to the fifteenth.
proof fn lemma_low_fifteen(v: nat)
    ensures
        low_bits(v, 15) == v % 0x8000,
{
    reveal_with_fuel(low_bits, 16);
}

/// A word decides what its instruction does: two instructions with the
/// same word take every state of the machine to the same state.
pub proof fn lemma_word_decides(
    a: Line,
    b: Line,
    table: Map<Seq<char>, u16>,
    s: crate::machine::Machine,
)
    requires
        is_instruction(a),
        is_instruction(b),
        is_written(a),
        is_written(b),
        a matches Line::AtName(name) ==> table.contains_key(name),
        b matches Line::AtName(name) ==> table.contains_key(name),
        word_of(a, table) == word_of(b, table),
    ensures
        crate::machine::execute(a, addresses(table), s) == crate::machine::execute(
            b,
            addresses(table),
            s,
        ),
{
    reveal_strlit("111");
    let wa = word_of(a, table);
    let wb = word_of(b, table);
    assert(wa[0] == wb[0]);
    match (a, b) {
        (Line::Compute(d1, c1, j1), Line::Compute(d2, c2, j2)) => {
            crate::isa::lemma_field_bits(d1, c1, j1);
            crate::isa::lemma_field_bits(d2, c2, j2);
            assert(comp_bits(c1) =~= wa.subrange(3, 10));
            assert(comp_bits(c2) =~= wb.subrange(3, 10));
            assert(dest_bits(d1) =~= wa.subrange(10, 13));
            assert(dest_bits(d2) =~= wb.subrange(10, 13));
            assert(jump_bits(j1) =~= wa.subrange(13, 16));
            assert(jump_bits(j2) =~= wb.subrange(13, 16));
            crate::isa::lemma_bits_apart(d1, c1, j1, d2, c2, j2);
        },
        (Line::Compute(d, c, j), _) => {
            crate::isa::lemma_field_bits(d, c, j);
            assert(wa[0] == "111"@[0]);
        },
        (_, Line::Compute(d, c, j)) => {
            crate::isa::lemma_field_bits(d, c, j);
            assert(wb[0] == "111"@[0]);
        },
        _ => {
            let v: nat = match a {
                Line::AtValue(v) => v as nat,
                Line::AtName(name) => table[name] as nat,
                _ => 0,
            };
            let w: nat = match b {
                Line::AtValue(w) => w as nat,
                Line::AtName(name) => table[name] as nat,
                _ => 0,
            };
            assert(binary(v, 15) =~= wa.subrange(1, 16)) by {
                crate::resolution::lemma_binary_digits(v, 15);
            }
            assert(binary(w, 15) =~= wb.subrange(1, 16)) by {
                crate::resolution::lemma_binary_digits(w, 15);
            }
            lemma_same_digits(v, w, 15);
            lemma_low_fifteen(v);
            lemma_low_fifteen(w);
        },
    }
}

// ---------------------------------------------------------------------------
// From the text of a listing to its program

/// Whether a line is a remark, which the assembler cleans away.
pub open spec fn is_remark(l: Line) -> bool {
    l is Blank || l is Comment
}

/// Whether a line can stand in a listing that is handed to the assembler
/// as a text: it is written, or it is a remark without a newline.
pub open spec fn is_listed(l: Line) -> bool {
    match l {
        Line::Blank => true,
        Line::Comment(note) => !note.contains('\n'),
        _ => is_written(l),
    }
}

/// Whether every line of a listing can stand in such a listing.
pub open spec fn all_listed(code: Seq<Line>) -> bool {
    forall|i: int| 0 <= i < code.len() ==> is_listed(#[trigger] code[i])
}

/// A listing without its remarks.
pub open spec fn stripped(code: Seq<Line>) -> Seq<Line>
    decreases code.len(),
{
    if code.len() == 0 {
        Seq::empty()
    } else if is_remark(code.last()) {
        stripped(code.drop_last())
    } else {
        stripped(code.drop_last()).push(code.last())
    }
}

/// The text of a written line is tidy and not empty.
proof fn lemma_render_tidy(l: Line)
    requires
        is_written(l),
    ensures
        is_tidy(render(l)),
        render(l).len() > 0,
{
    let t = render(l);
    reveal_strlit("(");
    reveal_strlit(")");
    reveal_strlit("@");
    reveal_strlit("=");
    reveal_strlit(";");
    match l {
        Line::Label(name) => {
            assert(t =~= seq!['('] + name + seq![')']);
            assert forall|i: int| 0 <= i < t.len() implies !is_space(#[trigger] t[i]) && t[i]
                != '/' by {
                if 0 < i < t.len() - 1 {
                    assert(t[i] == name[i - 1]);
                }
            }
        },
        Line::AtName(name) => {
            assert(t =~= seq!['@'] + name);
            assert forall|i: int| 0 <= i < t.len() implies !is_space(#[trigger] t[i]) && t[i]
                != '/' by {
                if 0 < i {
                    assert(t[i] == name[i - 1]);
                }
            }
        },
        Line::AtValue(v) => {
            let digits = crate::text::decimal(v as nat);
            lemma_decimal(v as nat);
            assert(t =~= seq!['@'] + digits);
            assert forall|i: int| 0 <= i < t.len() implies !is_space(#[trigger] t[i]) && t[i]
                != '/' by {
                if 0 < i {
                    assert(t[i] == digits[i - 1]);
                    assert(crate::text::is_digit(digits[i - 1]));
                }
            }
        },
        Line::Compute(d, c, j) => {
            crate::isa::lemma_mnemonics_plain(d, c, j);
            let dt = crate::isa::dest_text(d);
            let ct = crate::isa::comp_text(c);
            let jt = crate::isa::jump_text(j);
            let head = if d is Null {
                Seq::<char>::empty()
            } else {
                dt + seq!['=']
            };
            let tail = if j is Null {
                Seq::<char>::empty()
            } else {
                seq![';'] + jt
            };
            assert(t =~= head + ct + tail);
            assert forall|i: int| 0 <= i < t.len() implies !is_space(#[trigger] t[i]) && t[i]
                != '/' by {
                if i < head.len() {
                    if i < dt.len() {
                        assert(t[i] == dt[i]);
                    }
                } else if i < head.len() + ct.len() {
                    assert(t[i] == ct[i - head.len()]);
                } else if i > head.len() + ct.len() {
                    assert(t[i] == jt[i - head.len() - ct.len() - 1]);
                }
            }
        },
        _ => {},
    }
}

/// Cleaning leaves a tidy text that is not empty as it is, and such a text
/// holds no newline.
proof fn lemma_tidy_clean(t: Seq<char>)
    requires
        is_tidy(t),
        t.len() > 0,
    ensures
        clean_line(t) == t,
        !t.contains('\n'),
{
    lemma_comment_start(t);
    if comment_start(t) < t.len() {
        assert(comment_at(t, comment_start(t)));
        assert(t[comment_start(t)] == '/');
    }
    assert(strip_comment(t) =~= t);
    assert(!is_space(t[0]));
    assert(!is_space(t.last()));
    assert(trim_start(t) == t);
    assert(trim_end(t) == t);
    if t.contains('\n') {
        let k = choose|k: int| 0 <= k < t.len() && t[k] == '\n';
        assert(is_space(t[k]));
    }
}

/// Cleaning leaves the written lines of a listing and takes its remarks
/// away: the cleaned lines of the texts of a listing are the texts of the
/// listing without its remarks.
pub proof fn lemma_clean_listing(code: Seq<Line>)
    requires
        all_listed(code),
    ensures
        clean_lines(render_all(code)) == render_all(stripped(code)),
        forall|i: int|
            0 <= i < code.len() ==> !(#[trigger] render_all(code)[i]).contains('\n'),
    decreases code.len(),
{
    let lines = render_all(code);
    if code.len() == 0 {
        assert(clean_lines(lines) =~= render_all(stripped(code)));
    } else {
        let front = code.drop_last();
        let last = code.last();
        lemma_clean_listing(front);
        assert(lines.drop_last() =~= render_all(front));
        assert(lines.last() == render(last));
        assert(is_listed(code[code.len() - 1]));
        if is_remark(last) {
            lemma_comment_vanishes(
                match last {
                    Line::Comment(note) => note,
                    _ => Seq::empty(),
                },
            );
            reveal_strlit("// ");
            if render(last).contains('\n') {
                let k = choose|k: int| 0 <= k < render(last).len() && render(last)[k] == '\n';
                let note = last->Comment_0;
                assert(render(last)[k] == note[k - 3]);
                assert(note.contains(note[k - 3]));
            }
        } else {
            lemma_render_tidy(last);
            lemma_tidy_clean(render(last));
            assert(render_all(stripped(front)).push(render(last)) =~= render_all(
                stripped(front).push(last),
            ));
        }
        assert forall|i: int| 0 <= i < code.len() implies !(#[trigger] lines[i]).contains(
            '\n',
        ) by {
            if i < front.len() {
                assert(lines[i] == render_all(front)[i]);
            }
        }
    }
}

/// The lines that the assembler works on, when it is handed the text of a
/// listing, are the texts of the listing without its remarks.
pub proof fn lemma_format_listing(code: Seq<Line>)
    requires
        all_listed(code),
    ensures
        format_text(join_lines(render_all(code))) == render_all(stripped(code)),
{
    let lines = render_all(code);
    lemma_clean_listing(code);
    lemma_split_join(lines);
    if lines.len() == 0 {
        let empty = Seq::<char>::empty();
        let one = seq![empty];
        assert(one.drop_last() =~= Seq::<Seq<char>>::empty());
        assert(one.last() == empty);
        assert(strip_comment(empty) =~= empty);
        assert(trim_start(empty) == empty);
        assert(trim_end(empty) == empty);
        assert(clean_line(empty) == empty);
        assert(clean_lines(one.drop_last()) == Seq::<Seq<char>>::empty());
        assert(clean_lines(one) == clean_lines(one.drop_last()));
    }
}

/// Remarks take no place: a listing is loaded exactly if it is loaded
/// without its remarks, and has the same instructions.
pub proof fn lemma_loaded_stripped(code: Seq<Line>, at: int, p: Program)
    ensures
        loaded(code, 0, at, p) == loaded(stripped(code), 0, at, p),
        size(code, 0) == size(stripped(code), 0),
    decreases code.len(),
{
    if code.len() > 0 {
        let front = code.drop_last();
        let last = seq![code.last()];
        lemma_loaded_stripped(front, at, p);
        assert(code =~= front + last);
        lemma_loaded_parts(front, last, at, p);
        lemma_size_parts(front, last, 0);
        reveal_with_fuel(loaded, 2);
        reveal_with_fuel(size, 2);
        if !is_remark(code.last()) {
            assert(stripped(code) =~= stripped(front) + last);
            lemma_loaded_parts(stripped(front), last, at, p);
            lemma_size_parts(stripped(front), last, 0);
        }
    }
}

/// What is left of a listing without its remarks was in the listing.
proof fn lemma_stripped_from(code: Seq<Line>, l: Line)
    requires
        stripped(code).contains(l),
    ensures
        code.contains(l),
        !is_remark(l),
    decreases code.len(),
{
    if code.len() > 0 {
        let front = code.drop_last();
        let k = choose|k: int| 0 <= k < stripped(code).len() && stripped(code)[k] == l;
        if !is_remark(code.last()) && k == stripped(front).len() {
            assert(code[code.len() - 1] == l);
        } else {
            assert(stripped(front)[k] == l);
            lemma_stripped_from(front, l);
            let i = choose|i: int| 0 <= i < front.len() && front[i] == l;
            assert(code[i] == l);
        }
    }
}

/// A listing without its remarks is written where the listing can stand,
/// and declares its labels once where the listing does.
pub proof fn lemma_stripped_written(code: Seq<Line>, table: Map<Seq<char>, u16>)
    requires
        all_listed(code),
    ensures
        all_written(stripped(code)),
        labels_fresh(code, table) ==> labels_fresh(stripped(code), table),
    decreases code.len(),
{
    if code.len() > 0 {
        let front = code.drop_last();
        let last = code.last();
        lemma_stripped_written(front, table);
        assert(is_listed(code[code.len() - 1]));
        assert forall|i: int| 0 <= i < stripped(code).len() implies is_written(
            #[trigger] stripped(code)[i],
        ) by {
            if i < stripped(front).len() {
                assert(stripped(code)[i] == stripped(front)[i]);
            }
        }
        if labels_fresh(code, table) {
            assert(labels_fresh(front, table)) by {
                assert forall|i: int| 0 <= i < front.len() implies (#[trigger] front[i] matches Line::Label(
                    name,
                ) ==> {
                    &&& !table.contains_key(name)
                    &&& forall|j: int| 0 <= j < i ==> #[trigger] front[j] != front[i]
                }) by {
                    assert(front[i] == code[i]);
                    if front[i] is Label {
                        assert forall|j: int| 0 <= j < i implies #[trigger] front[j] != front[i] by {
                            assert(front[j] == code[j]);
                        }
                    }
                }
            }
            let short = stripped(code);
            assert forall|i: int| 0 <= i < short.len() implies (#[trigger] short[i] matches Line::Label(
                name,
            ) ==> {
                &&& !table.contains_key(name)
                &&& forall|j: int| 0 <= j < i ==> #[trigger] short[j] != short[i]
            }) by {
                if i < stripped(front).len() {
                    assert(short[i] == stripped(front)[i]);
                    if short[i] is Label {
                        assert forall|j: int| 0 <= j < i implies #[trigger] short[j] != short[i] by {
                            assert(short[j] == stripped(front)[j]);
                        }
                    }
                } else if short[i] is Label {
                    assert(short[i] == last);
                    assert(code[code.len() - 1] == last);
                    assert forall|j: int| 0 <= j < i implies #[trigger] short[j] != short[i] by {
                        assert(short[j] == stripped(front)[j]);
                        if short[j] == last {
                            assert(stripped(front).contains(last));
                            lemma_stripped_from(front, last);
                            let w = choose|w: int| 0 <= w < front.len() && front[w] == last;
                            assert(code[w] == last);
                        }
                    }
                }
            }
        }
    }
}

/// A name that is bound before a run is bound to the same address after
/// it.
pub proof fn lemma_bound_stays(
    lines: Seq<Seq<char>>,
    table: Map<Seq<char>, u16>,
    next: nat,
    name: Seq<char>,
)
    requires
        table.contains_key(name),
    ensures
        resolved(lines, table, next).contains_key(name),
        resolved(lines, table, next)[name] == table[name],
        addresses(resolved(lines, table, next))[name] == table[name],
{
    let n = lines.len() as int;
    lemma_labels_last(lines, 0, n, table, name);
    lemma_variables_last(lines, 0, n, with_labels(lines, n, table), next, name);
}

/// After a run from the predefined symbols, the registers have the
/// addresses that the calling convention takes them to have.
pub proof fn lemma_registers_resolved(lines: Seq<Seq<char>>, next: nat)
    ensures
        crate::frames::registers_bound(addresses(resolved(lines, predefined(), next))),
        addresses(resolved(lines, predefined(), next))["R13"@] == 13,
{
    crate::symbols::lemma_predefined();
    lemma_bound_stays(lines, predefined(), next, "SP"@);
    lemma_bound_stays(lines, predefined(), next, "LCL"@);
    lemma_bound_stays(lines, predefined(), next, "ARG"@);
    lemma_bound_stays(lines, predefined(), next, "THIS"@);
    lemma_bound_stays(lines, predefined(), next, "THAT"@);
    lemma_bound_stays(lines, predefined(), next, "R13"@);
}

/// From the text of a listing to its program. Let the text be made of the
/// lines of a listing, remarks included, with a newline between them, and
/// let the assembler make words of it without error. Then the listing is
/// loaded, from the address zero on, in the program that holds its
/// instructions in order and binds its symbols as the assembler has bound
/// them, there is one word for each instruction, and what is proved of
/// loaded listings holds of this program.
pub proof fn lemma_program(code: Seq<Line>, table: Map<Seq<char>, u16>, next: nat)
    requires
        all_listed(code),
        labels_fresh(code, table),
        assemble(format_text(join_lines(render_all(code))), table, next) is Ok,
    ensures
        format_text(join_lines(render_all(code))) == render_all(stripped(code)),
        all_written(stripped(code)),
        loaded(
            code,
            0,
            0,
            image(stripped(code), resolved(render_all(stripped(code)), table, next)),
        ),
        assemble(render_all(stripped(code)), table, next)->Ok_0.len() == size(code, 0),
{
    let short = stripped(code);
    let lines = render_all(short);
    lemma_format_listing(code);
    lemma_stripped_written(code, table);
    lemma_image_loaded(short, table, next, 0);
    let p = image(short, resolved(lines, table, next));
    lemma_loaded_stripped(code, 0, p);
    lemma_words_len(lines, lines.len() as int, with_labels(lines, lines.len() as int, table), next);
    lemma_counted(short, short.len() as int);
    lemma_placed_size(short, short.len() as int);
}

/// The instructions before a line and those from it on are all the
/// instructions of a listing.
pub proof fn lemma_placed_size(code: Seq<Line>, n: int)
    requires
        0 <= n <= code.len(),
    ensures
        placed_before(code, n) + size(code, n) == size(code, 0),
    decreases n,
{
    if n > 0 {
        lemma_placed_size(code, n - 1);
    }
}

} // verus!
