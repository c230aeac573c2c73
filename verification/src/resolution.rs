//! Laws of the assembler: what the two passes bind, where the words of the
//! instructions stand and what they look like, and what a second run over
//! the same program gives.

use vstd::prelude::*;
use crate::assembler::{
    address_word, after_dest, assemble, binary, clean_lines, comp_field, dest_field, encode,
    encode_error,
    encode_fault, instruction_count, is_address_line, is_label_line, is_symbol_line, jump_field,
    label_of, next_free, operand_of, resolved, with_labels, with_variables, words,
};
use crate::isa::{
    Comp, Dest, Jump, all_bits, comp_bits, comp_named, comp_text, dest_bits, dest_named,
    dest_text, jump_bits, jump_named, jump_text, lemma_field_bits, lemma_mnemonics_plain,
};
use crate::listing::{Line, jump_part, render};
use crate::text::{first_index, is_space, lemma_first_index_is, lemma_trim, strip_comment};

verus! {

// ---------------------------------------------------------------------------
// Cleaned lines

/// No cleaned line is empty, and none begins or ends with white space: an
/// empty line never reaches the two passes.
pub proof fn lemma_clean_lines(raw: Seq<Seq<char>>)
    ensures
        forall|i: int|
            0 <= i < clean_lines(raw).len() ==> {
                let l = #[trigger] clean_lines(raw)[i];
                l.len() > 0 && !is_space(l[0]) && !is_space(l.last())
            },
    decreases raw.len(),
{
    if raw.len() > 0 {
        lemma_clean_lines(raw.drop_last());
        lemma_trim(strip_comment(raw.last()));
        let before = clean_lines(raw.drop_last());
        assert forall|i: int| 0 <= i < clean_lines(raw).len() implies {
            let l = #[trigger] clean_lines(raw)[i];
            l.len() > 0 && !is_space(l[0]) && !is_space(l.last())
        } by {
            if i < before.len() {
                assert(clean_lines(raw)[i] == before[i]);
            }
        }
    }
}

// ---------------------------------------------------------------------------
// Bindings last

/// The first pass never changes a binding: what is bound after `m` lines is
/// bound to the same address after `n` lines.
pub proof fn lemma_labels_last(
    lines: Seq<Seq<char>>,
    m: int,
    n: int,
    table: Map<Seq<char>, u16>,
    name: Seq<char>,
)
    requires
        0 <= m <= n,
        with_labels(lines, m, table).contains_key(name),
    ensures
        with_labels(lines, n, table).contains_key(name),
        with_labels(lines, n, table)[name] == with_labels(lines, m, table)[name],
    decreases n - m,
{
    if m < n {
        lemma_labels_last(lines, m, n - 1, table, name);
    }
}

/// The second pass never changes a binding: what is bound after `m` lines
/// is bound to the same address after `n` lines.
pub proof fn lemma_variables_last(
    lines: Seq<Seq<char>>,
    m: int,
    n: int,
    table: Map<Seq<char>, u16>,
    next: nat,
    name: Seq<char>,
)
    requires
        0 <= m <= n,
        with_variables(lines, m, table, next).0.contains_key(name),
    ensures
        with_variables(lines, n, table, next).0.contains_key(name),
        with_variables(lines, n, table, next).0[name] == with_variables(
            lines,
            m,
            table,
            next,
        ).0[name],
    decreases n - m,
{
    if m < n {
        lemma_variables_last(lines, m, n - 1, table, next, name);
    }
}

/// After the first pass has read a label declaration, the label is bound.
pub proof fn lemma_label_bound(lines: Seq<Seq<char>>, j: int, n: int, table: Map<Seq<char>, u16>)
    requires
        0 <= j < n,
        is_label_line(lines[j]),
    ensures
        with_labels(lines, n, table).contains_key(label_of(lines[j])),
{
    assert(with_labels(lines, j + 1, table).contains_key(label_of(lines[j])));
    lemma_labels_last(lines, j + 1, n, table, label_of(lines[j]));
}

/// After the second pass has read an address instruction with a symbol,
/// the symbol is bound.
pub proof fn lemma_symbol_bound(
    lines: Seq<Seq<char>>,
    i: int,
    n: int,
    table: Map<Seq<char>, u16>,
    next: nat,
)
    requires
        0 <= i < n,
        is_symbol_line(lines[i]),
    ensures
        with_variables(lines, n, table, next).0.contains_key(operand_of(lines[i])),
{
    assert(with_variables(lines, i + 1, table, next).0.contains_key(operand_of(lines[i])));
    lemma_variables_last(lines, i + 1, n, table, next, operand_of(lines[i]));
}

/// A name that no label declaration among the first `n` lines declares is
/// bound after the first pass only if it was bound before.
pub proof fn lemma_undeclared(
    lines: Seq<Seq<char>>,
    n: int,
    table: Map<Seq<char>, u16>,
    name: Seq<char>,
)
    requires
        0 <= n,
        forall|k: int| 0 <= k < n && is_label_line(#[trigger] lines[k]) ==> label_of(lines[k]) != name,
    ensures
        with_labels(lines, n, table).contains_key(name) == table.contains_key(name),
    decreases n,
{
    if n > 0 {
        lemma_undeclared(lines, n - 1, table, name);
    }
}

// ---------------------------------------------------------------------------
// Labels

/// A label is bound to the address of the instruction that follows its
/// declaration, wherever it is used: before the declaration or after it.
///
/// Let line `j` be the first declaration of a label that was not bound
/// before the run. Then every address instruction that names the label,
/// on whatever line `i`, is encoded as the number of instructions that
/// stand before line `j`, which is the place among the words of the first
/// instruction after line `j`.
pub proof fn lemma_label_resolved(
    lines: Seq<Seq<char>>,
    table: Map<Seq<char>, u16>,
    next: nat,
    j: int,
    i: int,
)
    requires
        0 <= j < lines.len(),
        0 <= i < lines.len(),
        is_label_line(lines[j]),
        !table.contains_key(label_of(lines[j])),
        forall|k: int|
            0 <= k < j && is_label_line(#[trigger] lines[k]) ==> label_of(lines[k]) != label_of(
                lines[j],
            ),
        instruction_count(lines, j) <= 0xFFFF,
        is_symbol_line(lines[i]),
        operand_of(lines[i]) == label_of(lines[j]),
    ensures
        ({
            let n = lines.len() as int;
            let (before, free) = with_variables(lines, i, with_labels(lines, n, table), next);
            encode(lines[i], before, free) == address_word(instruction_count(lines, j))
        }),
{
    let n = lines.len() as int;
    let name = label_of(lines[j]);
    let labelled = with_labels(lines, n, table);
    lemma_undeclared(lines, j, table, name);
    assert(with_labels(lines, j + 1, table)[name] == instruction_count(lines, j) as u16);
    lemma_labels_last(lines, j + 1, n, table, name);
    lemma_variables_last(lines, 0, i, labelled, next, name);
}

/// The instruction that follows a label declaration, with nothing but
/// label declarations between the two, stands among the words at the
/// address that the label is bound to.
pub proof fn lemma_label_target(lines: Seq<Seq<char>>, j: int, k: int)
    requires
        0 <= j < k < lines.len(),
        forall|m: int| j <= m < k ==> is_label_line(#[trigger] lines[m]),
    ensures
        instruction_count(lines, k) == instruction_count(lines, j),
    decreases k - j,
{
    if j + 1 < k {
        lemma_label_target(lines, j, k - 1);
    }
    assert(is_label_line(lines[k - 1]));
}

// ---------------------------------------------------------------------------
// Variables

/// The variables among the first `n` lines: the symbols that address
/// instructions name and `table` does not bind, each once, in the order
/// in which they are first used.
pub open spec fn variables(lines: Seq<Seq<char>>, n: int, table: Map<Seq<char>, u16>) -> Seq<
    Seq<char>,
>
    decreases n,
{
    if n <= 0 {
        Seq::empty()
    } else {
        let before = variables(lines, n - 1, table);
        let l = lines[n - 1];
        if is_symbol_line(l) && !table.contains_key(operand_of(l)) && !before.contains(
            operand_of(l),
        ) {
            before.push(operand_of(l))
        } else {
            before
        }
    }
}

/// The variables of fewer lines are the first of the variables of more
/// lines.
pub proof fn lemma_variables_grow(
    lines: Seq<Seq<char>>,
    m: int,
    n: int,
    table: Map<Seq<char>, u16>,
)
    requires
        0 <= m <= n,
    ensures
        variables(lines, m, table).len() <= variables(lines, n, table).len(),
        variables(lines, m, table) == variables(lines, n, table).take(
            variables(lines, m, table).len() as int,
        ),
    decreases n - m,
{
    if m < n {
        lemma_variables_grow(lines, m, n - 1, table);
        let a = variables(lines, m, table);
        let b = variables(lines, n - 1, table);
        let c = variables(lines, n, table);
        assert(a =~= c.take(a.len() as int)) by {
            assert(a == b.take(a.len() as int));
            assert forall|x: int| 0 <= x < a.len() implies a[x] == c[x] by {
                assert(a[x] == b.take(a.len() as int)[x]);
            }
        }
    } else {
        assert(variables(lines, m, table) =~= variables(lines, n, table).take(
            variables(lines, m, table).len() as int,
        ));
    }
}

/// What the second pass binds: after `n` lines the symbols are those of
/// `table` and the variables of these lines, the variable number `k` at
/// the address `next + k`, and the next free address is `next` plus the
/// number of variables.
pub proof fn lemma_second_pass(
    lines: Seq<Seq<char>>,
    n: int,
    table: Map<Seq<char>, u16>,
    next: nat,
)
    requires
        0 <= n,
    ensures
        ({
            let vars = variables(lines, n, table);
            let (bound, free) = with_variables(lines, n, table, next);
            &&& free == next + vars.len()
            &&& vars.no_duplicates()
            &&& forall|name: Seq<char>| #[trigger]
                bound.contains_key(name) ==> table.contains_key(name) || vars.contains(name)
            &&& forall|name: Seq<char>| #[trigger]
                table.contains_key(name) ==> bound.contains_key(name) && bound[name]
                    == table[name]
            &&& forall|k: int|
                0 <= k < vars.len() ==> bound.contains_key(#[trigger] vars[k])
                    && !table.contains_key(vars[k]) && bound[vars[k]] == #[verifier::truncate]
                ((next + k) as u16)
        }),
    decreases n,
{
    if n > 0 {
        lemma_second_pass(lines, n - 1, table, next);
        let before = variables(lines, n - 1, table);
        let vars = variables(lines, n, table);
        let (bound0, free0) = with_variables(lines, n - 1, table, next);
        let (bound, free) = with_variables(lines, n, table, next);
        let l = lines[n - 1];
        let name = operand_of(l);
        if is_symbol_line(l) && !bound0.contains_key(name) {
            assert(!table.contains_key(name));
            if before.contains(name) {
                let w = choose|w: int| 0 <= w < before.len() && before[w] == name;
                assert(bound0.contains_key(before[w]));
            }
            assert(vars == before.push(name));
            assert forall|x: Seq<char>| #[trigger] bound.contains_key(x) implies table.contains_key(
                x,
            ) || vars.contains(x) by {
                if x == name {
                    assert(vars[before.len() as int] == name);
                } else {
                    assert(bound0.contains_key(x));
                    if before.contains(x) {
                        let w = choose|w: int| 0 <= w < before.len() && before[w] == x;
                        assert(vars[w] == x);
                    }
                }
            }
            assert forall|x: Seq<char>| #[trigger] table.contains_key(x) implies bound.contains_key(
                x,
            ) && bound[x] == table[x] by {
                assert(bound0.contains_key(x));
            }
            assert forall|k: int| 0 <= k < vars.len() implies bound.contains_key(
                #[trigger] vars[k],
            ) && !table.contains_key(vars[k]) && bound[vars[k]] == #[verifier::truncate]
            ((next + k) as u16) by {
                if k < before.len() {
                    assert(vars[k] == before[k]);
                    assert(bound0.contains_key(before[k]));
                }
            }
        } else {
            if is_symbol_line(l) && !table.contains_key(name) {
                assert(before.contains(name));
            }
            assert(vars == before);
        }
    } else {
        assert(variables(lines, n, table) =~= Seq::<Seq<char>>::empty());
    }
}

/// Variables get their addresses in the order of their first use: the
/// first symbol that an address instruction names and that is neither
/// defined by the machine nor declared as a label gets the address `next`,
/// the second such symbol `next + 1`, and so on. Every address instruction
/// that names the variable number `k` is encoded as `next + k`, however
/// often and wherever the variable is used.
pub proof fn lemma_variable_addresses(
    lines: Seq<Seq<char>>,
    labelled: Map<Seq<char>, u16>,
    next: nat,
    i: int,
    k: int,
)
    requires
        0 <= i < lines.len(),
        is_symbol_line(lines[i]),
        0 <= k < variables(lines, lines.len() as int, labelled).len(),
        operand_of(lines[i]) == variables(lines, lines.len() as int, labelled)[k],
        encode_error(lines, lines.len() as int, labelled, next) is None,
    ensures
        ({
            let (before, free) = with_variables(lines, i, labelled, next);
            encode(lines[i], before, free) == address_word((next + k) as nat)
        }),
        next + k <= 0xFFFF,
{
    let n = lines.len() as int;
    let name = operand_of(lines[i]);
    let all = variables(lines, n, labelled);
    let (before, free) = with_variables(lines, i, labelled, next);
    lemma_second_pass(lines, i, labelled, next);
    lemma_second_pass(lines, i + 1, labelled, next);
    lemma_second_pass(lines, n, labelled, next);
    lemma_variables_grow(lines, i, n, labelled);
    lemma_variables_grow(lines, i + 1, n, labelled);
    let seen = variables(lines, i, labelled);
    let seen1 = variables(lines, i + 1, labelled);
    if encode_error(lines, i + 1, labelled, next) is Some {
        crate::assembler::lemma_encode_error_stays(lines, i + 1, n, labelled, next);
    }
    assert(encode_fault(lines[i], before, free) is None);
    assert(all.contains(all[k]));
    assert(!labelled.contains_key(all[k]));
    if before.contains_key(name) {
        // The variable was first used on an earlier line.
        assert(seen.contains(name));
        let v = choose|v: int| 0 <= v < seen.len() && seen[v] == name;
        assert(seen[v] == all.take(seen.len() as int)[v]);
        assert(all[v] == all[k]);
        assert(v == k);
        assert(before[name] == #[verifier::truncate] ((next + k) as u16));
        assert(free > k);
    } else {
        // The variable is first used on this line.
        assert(!seen.contains(name)) by {
            if seen.contains(name) {
                let v = choose|v: int| 0 <= v < seen.len() && seen[v] == name;
                assert(before.contains_key(seen[v]));
            }
        }
        assert(seen1 == seen.push(name));
        assert(seen1[seen.len() as int] == all.take(seen1.len() as int)[seen.len() as int]);
        assert(all[seen.len() as int] == all[k]);
        assert(k == seen.len());
    }
    // No address beyond sixteen bits was given out up to this line.
    lemma_free_in_range(lines, i + 1, labelled, next);
}

/// As long as the second pass meets no error, the addresses it has given
/// out fit in sixteen bits.
pub proof fn lemma_free_in_range(
    lines: Seq<Seq<char>>,
    n: int,
    table: Map<Seq<char>, u16>,
    next: nat,
)
    requires
        0 <= n,
        encode_error(lines, n, table, next) is None,
    ensures
        with_variables(lines, n, table, next).1 == next || with_variables(lines, n, table, next).1
            <= 0x10000,
    decreases n,
{
    if n > 0 {
        lemma_free_in_range(lines, n - 1, table, next);
    }
}

// ---------------------------------------------------------------------------
// Words

/// The words stand in program order: there is one for each instruction,
/// and the word of the instruction on line `i` stands at the place that is
/// the number of instructions before line `i`.
pub proof fn lemma_word_place(
    lines: Seq<Seq<char>>,
    n: int,
    table: Map<Seq<char>, u16>,
    next: nat,
    i: int,
)
    requires
        0 <= i < n,
        !is_label_line(lines[i]),
    ensures
        words(lines, n, table, next).len() == instruction_count(lines, n),
        instruction_count(lines, i) < instruction_count(lines, n),
        ({
            let (before, free) = with_variables(lines, i, table, next);
            words(lines, n, table, next)[instruction_count(lines, i) as int] == encode(
                lines[i],
                before,
                free,
            )
        }),
    decreases n,
{
    lemma_words_len(lines, n - 1, table, next);
    if i < n - 1 {
        lemma_word_place(lines, n - 1, table, next, i);
    }
}

/// There is one word for each instruction.
pub proof fn lemma_words_len(lines: Seq<Seq<char>>, n: int, table: Map<Seq<char>, u16>, next: nat)
    ensures
        words(lines, n, table, next).len() == instruction_count(lines, n),
    decreases n,
{
    if n > 0 {
        lemma_words_len(lines, n - 1, table, next);
    }
}

/// A binary number of a given width has that many binary digits.
pub proof fn lemma_binary_digits(v: nat, width: nat)
    ensures
        binary(v, width).len() == width,
        all_bits(binary(v, width)),
    decreases width,
{
    if width > 0 {
        lemma_binary_digits(v / 2, (width - 1) as nat);
        let head = binary(v / 2, (width - 1) as nat);
        assert forall|i: int| 0 <= i < binary(v, width).len() implies #[trigger] binary(
            v,
            width,
        )[i] == '0' || binary(v, width)[i] == '1' by {
            if i < head.len() {
                assert(binary(v, width)[i] == head[i]);
            }
        }
    }
}

/// Every word has sixteen binary digits. The word of an address
/// instruction begins with a zero, that of a compute instruction with
/// three ones.
pub proof fn lemma_word_shape(l: Seq<char>, table: Map<Seq<char>, u16>, next: nat)
    requires
        !is_label_line(l),
        encode_fault(l, table, next) is None,
    ensures
        encode(l, table, next).len() == 16,
        all_bits(encode(l, table, next)),
        is_address_line(l) ==> encode(l, table, next)[0] == '0',
        !is_address_line(l) ==> encode(l, table, next)[0] == '1' && encode(l, table, next)[1]
            == '1' && encode(l, table, next)[2] == '1',
{
    let w = encode(l, table, next);
    if is_address_line(l) {
        let v = choose|v: nat| w == address_word(v);
        lemma_binary_digits(v, 15);
        assert forall|i: int| 0 <= i < w.len() implies #[trigger] w[i] == '0' || w[i] == '1' by {
            if i > 0 {
                assert(w[i] == binary(v, 15)[i - 1]);
            }
        }
    } else {
        let d = dest_named(crate::assembler::dest_field(l))->0;
        let c = comp_named(crate::assembler::comp_field(l))->0;
        let j = jump_named(crate::assembler::jump_field(l))->0;
        lemma_field_bits(d, c, j);
        reveal_strlit("111");
        let cb = crate::isa::comp_bits(c);
        let db = crate::isa::dest_bits(d);
        let jb = crate::isa::jump_bits(j);
        assert(w == "111"@ + cb + db + jb);
        assert forall|i: int| 0 <= i < w.len() implies #[trigger] w[i] == '0' || w[i] == '1' by {
            if i < 3 {
                assert(w[i] == "111"@[i]);
            } else if i < 10 {
                assert(w[i] == cb[i - 3]);
            } else if i < 13 {
                assert(w[i] == db[i - 10]);
            } else {
                assert(w[i] == jb[i - 13]);
            }
        }
        assert(w[0] == "111"@[0]);
        assert(w[1] == "111"@[1]);
        assert(w[2] == "111"@[2]);
    }
}

// ---------------------------------------------------------------------------
// A second run

/// Where every label among the first `n` lines is bound already, the first
/// pass binds nothing.
proof fn lemma_labels_known(lines: Seq<Seq<char>>, n: int, table: Map<Seq<char>, u16>)
    requires
        0 <= n,
        forall|k: int|
            0 <= k < n && is_label_line(#[trigger] lines[k]) ==> table.contains_key(
                label_of(lines[k]),
            ),
    ensures
        with_labels(lines, n, table) == table,
    decreases n,
{
    if n > 0 {
        lemma_labels_known(lines, n - 1, table);
        assert(is_label_line(lines[n - 1]) ==> table.contains_key(label_of(lines[n - 1])));
    }
}

/// Where every symbol among the first `n` lines is bound already, the
/// second pass binds nothing.
proof fn lemma_symbols_known(
    lines: Seq<Seq<char>>,
    n: int,
    table: Map<Seq<char>, u16>,
    next: nat,
)
    requires
        0 <= n,
        forall|k: int|
            0 <= k < n && is_symbol_line(#[trigger] lines[k]) ==> table.contains_key(
                operand_of(lines[k]),
            ),
    ensures
        with_variables(lines, n, table, next) == (table, next),
    decreases n,
{
    if n > 0 {
        lemma_symbols_known(lines, n - 1, table, next);
        assert(is_symbol_line(lines[n - 1]) ==> table.contains_key(operand_of(lines[n - 1])));
    }
}

/// A run over the first `n` lines from the symbols that a whole run has
/// left gives the words of the whole run.
proof fn lemma_same_words(
    lines: Seq<Seq<char>>,
    n: int,
    labelled: Map<Seq<char>, u16>,
    next: nat,
    last: Map<Seq<char>, u16>,
    free: nat,
)
    requires
        0 <= n <= lines.len(),
        encode_error(lines, lines.len() as int, labelled, next) is None,
        last == with_variables(lines, lines.len() as int, labelled, next).0,
    ensures
        encode_error(lines, n, last, free) is None,
        words(lines, n, last, free) == words(lines, n, labelled, next),
    decreases n,
{
    let len = lines.len() as int;
    assert forall|k: int| 0 <= k < len && is_symbol_line(#[trigger] lines[k]) implies last.contains_key(
        operand_of(lines[k]),
    ) by {
        lemma_symbol_bound(lines, k, len, labelled, next);
    }
    if n > 0 {
        lemma_same_words(lines, n - 1, labelled, next, last, free);
        lemma_symbols_known(lines, n - 1, last, free);
        let l = lines[n - 1];
        let (before, open) = with_variables(lines, n - 1, labelled, next);
        if encode_error(lines, n, labelled, next) is Some {
            crate::assembler::lemma_encode_error_stays(lines, n, len, labelled, next);
        }
        assert(encode_fault(l, before, open) is None);
        if is_symbol_line(l) {
            let name = operand_of(l);
            assert(with_variables(lines, n, labelled, next).0.contains_key(name));
            lemma_variables_last(lines, n, len, labelled, next, name);
            if before.contains_key(name) {
                lemma_variables_last(lines, n - 1, n, labelled, next, name);
            }
        }
        assert(encode_fault(l, last, free) is None);
        if !is_label_line(l) {
            assert(encode(l, last, free) == encode(l, before, open));
        }
    }
}

/// A second run gives the words of the first: assembling the same lines
/// from the symbols and the free address that a run without error has left
/// gives the same words, and leaves the same symbols and free address.
pub proof fn lemma_rerun(lines: Seq<Seq<char>>, table: Map<Seq<char>, u16>, next: nat)
    requires
        assemble(lines, table, next) is Ok,
    ensures
        assemble(lines, resolved(lines, table, next), next_free(lines, table, next)) == assemble(
            lines,
            table,
            next,
        ),
        resolved(lines, resolved(lines, table, next), next_free(lines, table, next)) == resolved(
            lines,
            table,
            next,
        ),
        next_free(lines, resolved(lines, table, next), next_free(lines, table, next))
            == next_free(lines, table, next),
{
    let n = lines.len() as int;
    let labelled = with_labels(lines, n, table);
    let last = resolved(lines, table, next);
    let free = next_free(lines, table, next);
    assert forall|k: int| 0 <= k < n && is_label_line(#[trigger] lines[k]) implies last.contains_key(
        label_of(lines[k]),
    ) by {
        lemma_label_bound(lines, k, n, table);
        lemma_variables_last(lines, 0, n, labelled, next, label_of(lines[k]));
    }
    lemma_labels_known(lines, n, last);
    assert forall|k: int| 0 <= k < n && is_symbol_line(#[trigger] lines[k]) implies last.contains_key(
        operand_of(lines[k]),
    ) by {
        lemma_symbol_bound(lines, k, n, labelled, next);
    }
    lemma_symbols_known(lines, n, last, free);
    lemma_same_words(lines, n, labelled, next, last, free);
}

// ---------------------------------------------------------------------------
// Compute instructions

/// A sign that does not occur in `a` occurs first in `a`, the sign and `b`
/// right behind `a`.
proof fn lemma_first_behind(a: Seq<char>, c: char, b: Seq<char>)
    requires
        forall|i: int| 0 <= i < a.len() ==> a[i] != c,
    ensures
        first_index(a + seq![c] + b, c) == a.len(),
{
    let s = a + seq![c] + b;
    assert forall|i: int| 0 <= i < a.len() implies s[i] != c by {
        assert(s[i] == a[i]);
    }
    assert(s[a.len() as int] == c);
    lemma_first_index_is(s, c, a.len() as int);
}

/// A sign that occurs in neither `a` nor `b` does not occur in `a` and `b`.
proof fn lemma_first_absent(a: Seq<char>, c: char, b: Seq<char>)
    requires
        forall|i: int| 0 <= i < a.len() ==> a[i] != c,
        forall|i: int| 0 <= i < b.len() ==> b[i] != c,
    ensures
        first_index(a + b, c) == (a + b).len(),
{
    let s = a + b;
    assert forall|i: int| 0 <= i < s.len() implies s[i] != c by {
        if i < a.len() {
            assert(s[i] == a[i]);
        } else {
            assert(s[i] == b[i - a.len()]);
        }
    }
    lemma_first_index_is(s, c, s.len() as int);
}

/// The assembler is total on the compute instructions: whatever the
/// destination, the computation and the jump, the instruction as it is
/// written is encoded without error, as three ones and the bits of the
/// computation, the destination and the jump.
pub proof fn lemma_compute_assembles(
    d: Dest,
    c: Comp,
    j: Jump,
    table: Map<Seq<char>, u16>,
    next: nat,
)
    ensures
        ({
            let l = render(Line::Compute(d, c, j));
            &&& !is_label_line(l)
            &&& encode_fault(l, table, next) is None
            &&& encode(l, table, next) == "111"@ + comp_bits(c) + dest_bits(d) + jump_bits(j)
        }),
{
    let l = render(Line::Compute(d, c, j));
    let dt = dest_text(d);
    let ct = comp_text(c);
    let jt = jump_text(j);
    lemma_mnemonics_plain(d, c, j);
    crate::isa::lemma_dest_named(d);
    crate::isa::lemma_comp_named(c);
    crate::isa::lemma_jump_named(j);
    reveal_strlit("=");
    reveal_strlit(";");
    assert("="@ =~= seq!['=']);
    assert(";"@ =~= seq![';']);
    let tail = if j is Null {
        ct
    } else {
        ct + seq![';'] + jt
    };
    assert(tail =~= ct + jump_part(j));
    assert forall|i: int| 0 <= i < tail.len() implies tail[i] != '=' by {
        if i < ct.len() {
            assert(tail[i] == ct[i]);
        } else if i > ct.len() {
            assert(tail[i] == jt[i - ct.len() - 1]);
        }
    }
    if d is Null {
        assert(l =~= tail);
        assert(l[0] == ct[0]);
        lemma_first_absent(tail, '=', Seq::empty());
        assert(tail + Seq::<char>::empty() =~= tail);
        assert(after_dest(l) == tail);
        assert(dest_field(l) == "null"@);
    } else {
        assert(l =~= dt + seq!['='] + tail);
        assert(l[0] == dt[0]);
        lemma_first_behind(dt, '=', tail);
        assert(after_dest(l) =~= tail);
        assert(dest_field(l) =~= dt);
    }
    if j is Null {
        lemma_first_absent(ct, ';', Seq::empty());
        assert(ct + Seq::<char>::empty() =~= ct);
        assert(comp_field(l) =~= ct);
        assert(jump_field(l) == "null"@);
    } else {
        lemma_first_behind(ct, ';', jt);
        assert(comp_field(l) =~= ct);
        assert(jump_field(l) =~= jt);
    }
}

// ---------------------------------------------------------------------------
// The other lines of a listing

/// An address instruction that is written with a number of at most
/// sixteen bits is encoded without error, as that number.
pub proof fn lemma_number_assembles(v: nat, table: Map<Seq<char>, u16>, next: nat)
    requires
        v <= 0xFFFF,
    ensures
        ({
            let l = render(Line::AtValue(v as int));
            &&& !is_label_line(l)
            &&& is_address_line(l)
            &&& !is_symbol_line(l)
            &&& encode_fault(l, table, next) is None
            &&& encode(l, table, next) == address_word(v)
        }),
{
    let l = render(Line::AtValue(v as int));
    reveal_strlit("@");
    crate::text::lemma_decimal(v);
    assert(l =~= seq!['@'] + crate::text::decimal(v));
    assert(l[0] == '@');
    assert(operand_of(l) =~= crate::text::decimal(v));
    assert(l[1] == crate::text::decimal(v)[0]);
}

/// An address instruction that is written with a name is read as naming
/// that name, as long as the name begins with a letter.
pub proof fn lemma_name_assembles(name: Seq<char>)
    requires
        name.len() > 0,
        crate::text::is_letter(name[0]),
    ensures
        ({
            let l = render(Line::AtName(name));
            &&& !is_label_line(l)
            &&& is_symbol_line(l)
            &&& operand_of(l) == name
        }),
{
    let l = render(Line::AtName(name));
    reveal_strlit("@");
    assert(l =~= seq!['@'] + name);
    assert(l[0] == '@');
    assert(l[1] == name[0]);
    assert(operand_of(l) =~= name);
}

/// A label declaration that is written with a name is read as declaring
/// that name, as long as the name holds no closing bracket.
pub proof fn lemma_label_assembles(name: Seq<char>)
    requires
        !name.contains(')'),
    ensures
        ({
            let l = render(Line::Label(name));
            &&& is_label_line(l)
            &&& crate::assembler::is_closed(l)
            &&& label_of(l) == name
        }),
{
    let l = render(Line::Label(name));
    reveal_strlit("(");
    reveal_strlit(")");
    assert("("@ =~= seq!['(']);
    assert(")"@ =~= seq![')']);
    let head = seq!['('] + name;
    assert(l =~= head + seq![')'] + Seq::<char>::empty());
    assert forall|i: int| 0 <= i < head.len() implies head[i] != ')' by {
        if i > 0 {
            assert(head[i] == name[i - 1]);
            assert(name.contains(name[i - 1]));
        }
    }
    lemma_first_behind(head, ')', Seq::empty());
    assert(label_of(l) =~= name);
}

/// Comments and empty lines leave nothing behind when they are cleaned.
pub proof fn lemma_comment_vanishes(note: Seq<char>)
    ensures
        crate::assembler::clean_line(render(Line::Comment(note))).len() == 0,
        crate::assembler::clean_line(render(Line::Blank)).len() == 0,
{
    reveal_strlit("// ");
    let l = render(Line::Comment(note));
    assert(l[0] == '/' && l[1] == '/');
    assert(crate::text::strip_comment(l) =~= Seq::<char>::empty());
    assert(crate::text::strip_comment(Seq::<char>::empty()) =~= Seq::<char>::empty());
}

} // verus!
