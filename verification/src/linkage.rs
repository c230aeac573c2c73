//! The translator writes what the assembler reads: the translation of
//! every command can stand in a listing that is handed to the assembler as
//! a text, as long as the names in the command are symbols and its numbers
//! fit in sixteen bits.

use vstd::prelude::*;
use crate::code::{
    bootstrap_code, call_code, equality_code, function_code, goto_code, if_code, label_code,
    numbered, operation_code, order_code, pop_code, push_code, push_d, restore_code, return_code,
    return_label, save_code, static_symbol, unwind_code,
};
use crate::image::{all_listed, is_listed, is_tidy};
use crate::instr::{Operation, Segment};
use crate::isa::Jump;
use crate::listing::Line;
use crate::text::{decimal, is_digit, is_letter, lemma_decimal, signed_decimal};

verus! {

/// Whether a name can stand as a symbol and as a label: it begins with a
/// letter, is tidy and holds no closing bracket.
pub open spec fn is_symbol(name: Seq<char>) -> bool {
    &&& name.len() > 0
    &&& is_letter(name[0])
    &&& is_tidy(name)
    &&& !name.contains(')')
}

/// Whether a text can follow the first letter of a symbol.
pub open spec fn is_symbol_part(part: Seq<char>) -> bool {
    is_tidy(part) && !part.contains(')')
}

/// A symbol followed by symbol parts is a symbol.
pub proof fn lemma_symbol_add(name: Seq<char>, part: Seq<char>)
    requires
        is_symbol(name),
        is_symbol_part(part),
    ensures
        is_symbol(name + part),
{
    let t = name + part;
    assert(t[0] == name[0]);
    assert forall|i: int| 0 <= i < t.len() implies !crate::text::is_space(#[trigger] t[i]) && t[i]
        != '/' && t[i] != ')' by {
        if i < name.len() {
            assert(t[i] == name[i]);
            assert(name.contains(name[i]));
        } else {
            assert(t[i] == part[i - name.len()]);
            assert(part.contains(part[i - name.len()]));
        }
    }
    if t.contains(')') {
        let k = choose|k: int| 0 <= k < t.len() && t[k] == ')';
        assert(t[k] != ')');
    }
}

/// Symbol parts in a row are a symbol part.
pub proof fn lemma_part_add(a: Seq<char>, b: Seq<char>)
    requires
        is_symbol_part(a),
        is_symbol_part(b),
    ensures
        is_symbol_part(a + b),
{
    let t = a + b;
    assert forall|i: int| 0 <= i < t.len() implies !crate::text::is_space(#[trigger] t[i]) && t[i]
        != '/' && t[i] != ')' by {
        if i < a.len() {
            assert(t[i] == a[i]);
            assert(a.contains(a[i]));
        } else {
            assert(t[i] == b[i - a.len()]);
            assert(b.contains(b[i - a.len()]));
        }
    }
    if t.contains(')') {
        let k = choose|k: int| 0 <= k < t.len() && t[k] == ')';
        assert(t[k] != ')');
    }
}

/// The decimal text of a number, with or without a sign, is a symbol
/// part.
pub proof fn lemma_decimal_part(i: int)
    ensures
        is_symbol_part(signed_decimal(i)),
        i >= 0 ==> is_symbol_part(decimal(i as nat)),
{
    let n: nat = if i < 0 {
        (-i) as nat
    } else {
        i as nat
    };
    let d = decimal(n);
    lemma_decimal(n);
    assert(is_symbol_part(d)) by {
        assert forall|k: int| 0 <= k < d.len() implies !crate::text::is_space(#[trigger] d[k])
            && d[k] != '/' && d[k] != ')' by {
            assert(is_digit(d[k]));
        }
        if d.contains(')') {
            let k = choose|k: int| 0 <= k < d.len() && d[k] == ')';
            assert(d[k] != ')');
        }
    }
    if i < 0 {
        let sign = seq!['-'];
        assert(is_symbol_part(sign)) by {
            if sign.contains(')') {
                let k = choose|k: int| 0 <= k < sign.len() && sign[k] == ')';
            }
        }
        lemma_part_add(sign, d);
    }
}

/// The names that the translator makes up itself are symbols.
pub proof fn lemma_own_names()
    ensures
        is_symbol("SP"@),
        is_symbol("LCL"@),
        is_symbol("ARG"@),
        is_symbol("THIS"@),
        is_symbol("THAT"@),
        is_symbol("R13"@),
        is_symbol("STACK_FRAME"@),
        is_symbol("RETURN"@),
        is_symbol("EQ"@),
        is_symbol("GT"@),
        is_symbol("LT"@),
        is_symbol("END"@),
        is_symbol("FUNC_"@),
        is_symbol("STATIC_"@),
        is_symbol("Sys.init"@),
        is_symbol("none"@),
        is_symbol_part("_"@),
        is_symbol_part("_NEG"@),
        is_symbol_part("_SAME"@),
        is_symbol_part("_TEST"@),
{
    reveal_strlit("SP");
    reveal_strlit("LCL");
    reveal_strlit("ARG");
    reveal_strlit("THIS");
    reveal_strlit("THAT");
    reveal_strlit("R13");
    reveal_strlit("STACK_FRAME");
    reveal_strlit("RETURN");
    reveal_strlit("EQ");
    reveal_strlit("GT");
    reveal_strlit("LT");
    reveal_strlit("END");
    reveal_strlit("FUNC_");
    reveal_strlit("STATIC_");
    reveal_strlit("Sys.init");
    reveal_strlit("none");
    reveal_strlit("_");
    reveal_strlit("_NEG");
    reveal_strlit("_SAME");
    reveal_strlit("_TEST");
}

/// A numbered symbol is a symbol.
pub proof fn lemma_numbered_symbol(prefix: Seq<char>, k: nat)
    requires
        is_symbol(prefix),
    ensures
        is_symbol(numbered(prefix, k)),
{
    lemma_own_names();
    lemma_decimal_part(k as int);
    lemma_symbol_add(prefix, "_"@);
    lemma_symbol_add(prefix + "_"@, decimal(k));
}

/// A return label is a symbol.
pub proof fn lemma_return_label_symbol(name: Seq<char>, n: nat, k: nat)
    requires
        is_symbol_part(name),
    ensures
        is_symbol(return_label(name, n, k)),
{
    lemma_own_names();
    lemma_decimal_part(n as int);
    lemma_decimal_part(k as int);
    lemma_symbol_add("FUNC_"@, name);
    lemma_symbol_add("FUNC_"@ + name, "_"@);
    lemma_symbol_add("FUNC_"@ + name + "_"@, decimal(n));
    lemma_symbol_add("FUNC_"@ + name + "_"@ + decimal(n), "_"@);
    lemma_symbol_add("FUNC_"@ + name + "_"@ + decimal(n) + "_"@, decimal(k));
}

/// The symbol of a static variable is a symbol.
pub proof fn lemma_static_symbol(index: int, scope: Seq<char>)
    requires
        is_symbol_part(scope),
    ensures
        is_symbol(static_symbol(index, scope)),
{
    lemma_own_names();
    lemma_decimal_part(index);
    lemma_symbol_add("STATIC_"@, signed_decimal(index));
    lemma_symbol_add("STATIC_"@ + signed_decimal(index), "_"@);
    lemma_symbol_add("STATIC_"@ + signed_decimal(index) + "_"@, scope);
}

/// Listings that can stand in a text, put in a row, can stand in a text.
pub proof fn lemma_listed_add(a: Seq<Line>, b: Seq<Line>)
    requires
        all_listed(a),
        all_listed(b),
    ensures
        all_listed(a + b),
{
    assert forall|i: int| 0 <= i < (a + b).len() implies is_listed(#[trigger] (a + b)[i]) by {
        if i < a.len() {
            assert((a + b)[i] == a[i]);
        } else {
            assert((a + b)[i] == b[i - a.len()]);
        }
    }
}

proof fn lemma_push_d_listed()
    ensures
        all_listed(push_d()),
{
    lemma_own_names();
}

proof fn lemma_order_listed(name: Seq<char>, jump: Jump, k: nat)
    requires
        is_symbol(name),
    ensures
        all_listed(order_code(name, jump, k)),
{
    lemma_own_names();
    lemma_symbol_add(name, "_NEG"@);
    lemma_symbol_add(name, "_SAME"@);
    lemma_symbol_add(name, "_TEST"@);
    lemma_numbered_symbol(name + "_NEG"@, k);
    lemma_numbered_symbol(name + "_SAME"@, k);
    lemma_numbered_symbol(name + "_TEST"@, k);
    lemma_numbered_symbol(name, k);
    lemma_numbered_symbol("END"@, k);
}

/// The translation of an arithmetic command can stand in a text.
pub proof fn lemma_operation_listed(op: Operation, k: nat)
    ensures
        all_listed(operation_code(op, k)),
{
    lemma_own_names();
    match op {
        Operation::Eq => {
            lemma_numbered_symbol("EQ"@, k);
            lemma_numbered_symbol("END"@, k);
            assert(all_listed(equality_code(k)));
        },
        Operation::Gt => {
            lemma_order_listed("GT"@, Jump::JGT, k);
        },
        Operation::Lt => {
            lemma_order_listed("LT"@, Jump::JLT, k);
        },
        _ => {},
    }
}

/// The translation of a push can stand in a text, as long as the index
/// fits in sixteen bits and the scope of static variables is tidy.
pub proof fn lemma_push_listed(seg: Segment, index: int, scope: Seq<char>)
    requires
        0 <= index <= 0xFFFF,
        is_symbol_part(scope),
    ensures
        all_listed(push_code(seg, index, scope)),
{
    lemma_own_names();
    lemma_static_symbol(index, scope);
}

/// The translation of a pop can stand in a text, as long as the index
/// fits in sixteen bits and the scope of static variables is tidy.
pub proof fn lemma_pop_listed(seg: Segment, index: int, scope: Seq<char>)
    requires
        0 <= index <= 0xFFFF,
        is_symbol_part(scope),
    ensures
        all_listed(pop_code(seg, index, scope)),
{
    lemma_own_names();
    lemma_static_symbol(index, scope);
}

/// The translations of the branching commands and of a function command
/// can stand in a text, as long as the name is a symbol.
pub proof fn lemma_branching_listed(name: Seq<char>)
    requires
        is_symbol(name),
    ensures
        all_listed(label_code(name)),
        all_listed(goto_code(name)),
        all_listed(if_code(name)),
        all_listed(function_code(name)),
{
    lemma_own_names();
    reveal_strlit("Defining function ");
    let note = "Defining function "@ + name;
    if note.contains('\n') {
        let k = choose|k: int| 0 <= k < note.len() && note[k] == '\n';
        if k >= 18 {
            assert(note[k] == name[k - 18]);
            assert(crate::text::is_space(name[k - 18]));
        }
    }
}

/// The translation of a call can stand in a text, as long as the name of
/// the callee is a symbol and the number of arguments fits in sixteen
/// bits.
pub proof fn lemma_call_listed(name: Seq<char>, n: nat, k: nat)
    requires
        is_symbol(name),
        n <= 0xFFFF,
    ensures
        all_listed(call_code(name, n, k)),
{
    lemma_own_names();
    lemma_return_label_symbol(name, n, k);
    lemma_push_d_listed();
    assert(all_listed(save_code("LCL"@)));
    assert(all_listed(save_code("ARG"@)));
    assert(all_listed(save_code("THIS"@)));
    assert(all_listed(save_code("THAT"@)));
}

/// The translation of a return can stand in a text.
pub proof fn lemma_return_listed()
    ensures
        all_listed(return_code()),
{
    lemma_own_names();
    assert(all_listed(unwind_code()));
    assert(all_listed(restore_code("STACK_FRAME"@, "THAT"@, 2)));
    assert(all_listed(restore_code("STACK_FRAME"@, "THIS"@, 3)));
    assert(all_listed(restore_code("STACK_FRAME"@, "ARG"@, 4)));
}

/// The bootstrap code can stand in a text.
pub proof fn lemma_bootstrap_listed(k: nat)
    ensures
        all_listed(bootstrap_code(k)),
{
    lemma_own_names();
    lemma_call_listed("Sys.init"@, 0, k);
    reveal_strlit(
        "Boilerplate bootstrap for Sys.init. Call Sys.init, initalize stack point to 256",
    );
    reveal_strlit("Calling Sys.init 0");
    let head = seq![
        Line::Comment(
            "Boilerplate bootstrap for Sys.init. Call Sys.init, initalize stack point to 256"@,
        ),
        Line::AtValue(256),
        crate::listing::store(crate::isa::Dest::D, crate::isa::Comp::A),
        crate::listing::at("SP"@),
        crate::listing::store(crate::isa::Dest::M, crate::isa::Comp::D),
        Line::Blank,
        Line::Comment("Calling Sys.init 0"@),
    ];
    assert(all_listed(head));
    lemma_listed_add(head, call_code("Sys.init"@, 0, k));
}

} // verus!
