//! The instruction set of the target machine: the mnemonics of compute
//! instructions with their bit patterns, and the lines of an assembly
//! listing with the text that each is written as.

use vstd::prelude::*;
use crate::text::{is_space, same_text};

verus! {

/// The destinations of a compute instruction: any set of the registers `A`
/// and `D` and the memory cell `M` that `A` addresses.
#[derive(Clone, Copy, Debug, PartialEq, Eq)]
pub enum Dest {
    Null,
    M,
    D,
    MD,
    A,
    AM,
    AD,
    AMD,
}

/// The mnemonic of a destination.
pub open spec fn dest_text(x: Dest) -> Seq<char> {
    match x {
        Dest::Null => "null"@,
        Dest::M => "M"@,
        Dest::D => "D"@,
        Dest::MD => "MD"@,
        Dest::A => "A"@,
        Dest::AM => "AM"@,
        Dest::AD => "AD"@,
        Dest::AMD => "AMD"@,
    }
}

/// The bits that encode a destination, most significant first.
pub open spec fn dest_bits(x: Dest) -> Seq<char> {
    match x {
        Dest::Null => "000"@,
        Dest::M => "001"@,
        Dest::D => "010"@,
        Dest::MD => "011"@,
        Dest::A => "100"@,
        Dest::AM => "101"@,
        Dest::AD => "110"@,
        Dest::AMD => "111"@,
    }
}

/// The destination that a mnemonic names, if it names one.
pub open spec fn dest_named(m: Seq<char>) -> Option<Dest> {
    if m == "null"@ {
        Some(Dest::Null)
    } else if m == "M"@ {
        Some(Dest::M)
    } else if m == "D"@ {
        Some(Dest::D)
    } else if m == "MD"@ {
        Some(Dest::MD)
    } else if m == "A"@ {
        Some(Dest::A)
    } else if m == "AM"@ {
        Some(Dest::AM)
    } else if m == "AD"@ {
        Some(Dest::AD)
    } else if m == "AMD"@ {
        Some(Dest::AMD)
    } else {
        None
    }
}

/// The mnemonic of a destination.
pub fn dest_name(x: Dest) -> (r: &'static str)
    ensures
        r@ == dest_text(x),
{
    match x {
        Dest::Null => "null",
        Dest::M => "M",
        Dest::D => "D",
        Dest::MD => "MD",
        Dest::A => "A",
        Dest::AM => "AM",
        Dest::AD => "AD",
        Dest::AMD => "AMD",
    }
}

/// The bits that encode a destination.
pub fn dest_code(x: Dest) -> (r: &'static str)
    ensures
        r@ == dest_bits(x),
{
    match x {
        Dest::Null => "000",
        Dest::M => "001",
        Dest::D => "010",
        Dest::MD => "011",
        Dest::A => "100",
        Dest::AM => "101",
        Dest::AD => "110",
        Dest::AMD => "111",
    }
}

/// Looks a mnemonic up among the destinations.
pub fn parse_dest(m: &Vec<char>) -> (r: Option<Dest>)
    ensures
        r == dest_named(m@),
{
    if same_text(m, "null") {
        Some(Dest::Null)
    } else if same_text(m, "M") {
        Some(Dest::M)
    } else if same_text(m, "D") {
        Some(Dest::D)
    } else if same_text(m, "MD") {
        Some(Dest::MD)
    } else if same_text(m, "A") {
        Some(Dest::A)
    } else if same_text(m, "AM") {
        Some(Dest::AM)
    } else if same_text(m, "AD") {
        Some(Dest::AD)
    } else if same_text(m, "AMD") {
        Some(Dest::AMD)
    } else {
        None
    }
}

/// The computations of a compute instruction. Those that read memory take
/// the cell that `A` addresses where the others take `A` itself.
#[derive(Clone, Copy, Debug, PartialEq, Eq)]
pub enum Comp {
    Zero,
    One,
    MinusOne,
    D,
    A,
    NotD,
    NotA,
    NegD,
    NegA,
    DPlusOne,
    APlusOne,
    DMinusOne,
    AMinusOne,
    DPlusA,
    DMinusA,
    AMinusD,
    DAndA,
    DOrA,
    M,
    NotM,
    NegM,
    MPlusOne,
    MMinusOne,
    DPlusM,
    DMinusM,
    MMinusD,
    DAndM,
    DOrM,
}

/// The mnemonic of a computation.
pub open spec fn comp_text(x: Comp) -> Seq<char> {
    match x {
        Comp::Zero => "0"@,
        Comp::One => "1"@,
        Comp::MinusOne => "-1"@,
        Comp::D => "D"@,
        Comp::A => "A"@,
        Comp::NotD => "!D"@,
        Comp::NotA => "!A"@,
        Comp::NegD => "-D"@,
        Comp::NegA => "-A"@,
        Comp::DPlusOne => "D+1"@,
        Comp::APlusOne => "A+1"@,
        Comp::DMinusOne => "D-1"@,
        Comp::AMinusOne => "A-1"@,
        Comp::DPlusA => "D+A"@,
        Comp::DMinusA => "D-A"@,
        Comp::AMinusD => "A-D"@,
        Comp::DAndA => "D&A"@,
        Comp::DOrA => "D|A"@,
        Comp::M => "M"@,
        Comp::NotM => "!M"@,
        Comp::NegM => "-M"@,
        Comp::MPlusOne => "M+1"@,
        Comp::MMinusOne => "M-1"@,
        Comp::DPlusM => "D+M"@,
        Comp::DMinusM => "D-M"@,
        Comp::MMinusD => "M-D"@,
        Comp::DAndM => "D&M"@,
        Comp::DOrM => "D|M"@,
    }
}

/// The bits that encode a computation, most significant first.
pub open spec fn comp_bits(x: Comp) -> Seq<char> {
    match x {
        Comp::Zero => "0101010"@,
        Comp::One => "0111111"@,
        Comp::MinusOne => "0111010"@,
        Comp::D => "0001100"@,
        Comp::A => "0110000"@,
        Comp::NotD => "0001101"@,
        Comp::NotA => "0110001"@,
        Comp::NegD => "0001111"@,
        Comp::NegA => "0110011"@,
        Comp::DPlusOne => "0011111"@,
        Comp::APlusOne => "0110111"@,
        Comp::DMinusOne => "0001110"@,
        Comp::AMinusOne => "0110010"@,
        Comp::DPlusA => "0000010"@,
        Comp::DMinusA => "0010011"@,
        Comp::AMinusD => "0000111"@,
        Comp::DAndA => "0000000"@,
        Comp::DOrA => "0010101"@,
        Comp::M => "1110000"@,
        Comp::NotM => "1110001"@,
        Comp::NegM => "1110011"@,
        Comp::MPlusOne => "1110111"@,
        Comp::MMinusOne => "1110010"@,
        Comp::DPlusM => "1000010"@,
        Comp::DMinusM => "1010011"@,
        Comp::MMinusD => "1000111"@,
        Comp::DAndM => "1000000"@,
        Comp::DOrM => "1010101"@,
    }
}

/// The computation that a mnemonic names, if it names one.
pub open spec fn comp_named(m: Seq<char>) -> Option<Comp> {
    if m == "0"@ {
        Some(Comp::Zero)
    } else if m == "1"@ {
        Some(Comp::One)
    } else if m == "-1"@ {
        Some(Comp::MinusOne)
    } else if m == "D"@ {
        Some(Comp::D)
    } else if m == "A"@ {
        Some(Comp::A)
    } else if m == "!D"@ {
        Some(Comp::NotD)
    } else if m == "!A"@ {
        Some(Comp::NotA)
    } else if m == "-D"@ {
        Some(Comp::NegD)
    } else if m == "-A"@ {
        Some(Comp::NegA)
    } else if m == "D+1"@ {
        Some(Comp::DPlusOne)
    } else if m == "A+1"@ {
        Some(Comp::APlusOne)
    } else if m == "D-1"@ {
        Some(Comp::DMinusOne)
    } else if m == "A-1"@ {
        Some(Comp::AMinusOne)
    } else if m == "D+A"@ {
        Some(Comp::DPlusA)
    } else if m == "D-A"@ {
        Some(Comp::DMinusA)
    } else if m == "A-D"@ {
        Some(Comp::AMinusD)
    } else if m == "D&A"@ {
        Some(Comp::DAndA)
    } else if m == "D|A"@ {
        Some(Comp::DOrA)
    } else if m == "M"@ {
        Some(Comp::M)
    } else if m == "!M"@ {
        Some(Comp::NotM)
    } else if m == "-M"@ {
        Some(Comp::NegM)
    } else if m == "M+1"@ {
        Some(Comp::MPlusOne)
    } else if m == "M-1"@ {
        Some(Comp::MMinusOne)
    } else if m == "D+M"@ {
        Some(Comp::DPlusM)
    } else if m == "D-M"@ {
        Some(Comp::DMinusM)
    } else if m == "M-D"@ {
        Some(Comp::MMinusD)
    } else if m == "D&M"@ {
        Some(Comp::DAndM)
    } else if m == "D|M"@ {
        Some(Comp::DOrM)
    } else {
        None
    }
}

/// The mnemonic of a computation.
pub fn comp_name(x: Comp) -> (r: &'static str)
    ensures
        r@ == comp_text(x),
{
    match x {
        Comp::Zero => "0",
        Comp::One => "1",
        Comp::MinusOne => "-1",
        Comp::D => "D",
        Comp::A => "A",
        Comp::NotD => "!D",
        Comp::NotA => "!A",
        Comp::NegD => "-D",
        Comp::NegA => "-A",
        Comp::DPlusOne => "D+1",
        Comp::APlusOne => "A+1",
        Comp::DMinusOne => "D-1",
        Comp::AMinusOne => "A-1",
        Comp::DPlusA => "D+A",
        Comp::DMinusA => "D-A",
        Comp::AMinusD => "A-D",
        Comp::DAndA => "D&A",
        Comp::DOrA => "D|A",
        Comp::M => "M",
        Comp::NotM => "!M",
        Comp::NegM => "-M",
        Comp::MPlusOne => "M+1",
        Comp::MMinusOne => "M-1",
        Comp::DPlusM => "D+M",
        Comp::DMinusM => "D-M",
        Comp::MMinusD => "M-D",
        Comp::DAndM => "D&M",
        Comp::DOrM => "D|M",
    }
}

/// The bits that encode a computation.
pub fn comp_code(x: Comp) -> (r: &'static str)
    ensures
        r@ == comp_bits(x),
{
    match x {
        Comp::Zero => "0101010",
        Comp::One => "0111111",
        Comp::MinusOne => "0111010",
        Comp::D => "0001100",
        Comp::A => "0110000",
        Comp::NotD => "0001101",
        Comp::NotA => "0110001",
        Comp::NegD => "0001111",
        Comp::NegA => "0110011",
        Comp::DPlusOne => "0011111",
        Comp::APlusOne => "0110111",
        Comp::DMinusOne => "0001110",
        Comp::AMinusOne => "0110010",
        Comp::DPlusA => "0000010",
        Comp::DMinusA => "0010011",
        Comp::AMinusD => "0000111",
        Comp::DAndA => "0000000",
        Comp::DOrA => "0010101",
        Comp::M => "1110000",
        Comp::NotM => "1110001",
        Comp::NegM => "1110011",
        Comp::MPlusOne => "1110111",
        Comp::MMinusOne => "1110010",
        Comp::DPlusM => "1000010",
        Comp::DMinusM => "1010011",
        Comp::MMinusD => "1000111",
        Comp::DAndM => "1000000",
        Comp::DOrM => "1010101",
    }
}

/// Looks a mnemonic up among the computations.
pub fn parse_comp(m: &Vec<char>) -> (r: Option<Comp>)
    ensures
        r == comp_named(m@),
{
    if same_text(m, "0") {
        Some(Comp::Zero)
    } else if same_text(m, "1") {
        Some(Comp::One)
    } else if same_text(m, "-1") {
        Some(Comp::MinusOne)
    } else if same_text(m, "D") {
        Some(Comp::D)
    } else if same_text(m, "A") {
        Some(Comp::A)
    } else if same_text(m, "!D") {
        Some(Comp::NotD)
    } else if same_text(m, "!A") {
        Some(Comp::NotA)
    } else if same_text(m, "-D") {
        Some(Comp::NegD)
    } else if same_text(m, "-A") {
        Some(Comp::NegA)
    } else if same_text(m, "D+1") {
        Some(Comp::DPlusOne)
    } else if same_text(m, "A+1") {
        Some(Comp::APlusOne)
    } else if same_text(m, "D-1") {
        Some(Comp::DMinusOne)
    } else if same_text(m, "A-1") {
        Some(Comp::AMinusOne)
    } else if same_text(m, "D+A") {
        Some(Comp::DPlusA)
    } else if same_text(m, "D-A") {
        Some(Comp::DMinusA)
    } else if same_text(m, "A-D") {
        Some(Comp::AMinusD)
    } else if same_text(m, "D&A") {
        Some(Comp::DAndA)
    } else if same_text(m, "D|A") {
        Some(Comp::DOrA)
    } else if same_text(m, "M") {
        Some(Comp::M)
    } else if same_text(m, "!M") {
        Some(Comp::NotM)
    } else if same_text(m, "-M") {
        Some(Comp::NegM)
    } else if same_text(m, "M+1") {
        Some(Comp::MPlusOne)
    } else if same_text(m, "M-1") {
        Some(Comp::MMinusOne)
    } else if same_text(m, "D+M") {
        Some(Comp::DPlusM)
    } else if same_text(m, "D-M") {
        Some(Comp::DMinusM)
    } else if same_text(m, "M-D") {
        Some(Comp::MMinusD)
    } else if same_text(m, "D&M") {
        Some(Comp::DAndM)
    } else if same_text(m, "D|M") {
        Some(Comp::DOrM)
    } else {
        None
    }
}

/// The jump conditions of a compute instruction, each a test of the
/// computed value against zero.
#[derive(Clone, Copy, Debug, PartialEq, Eq)]
pub enum Jump {
    Null,
    JGT,
    JEQ,
    JGE,
    JLT,
    JNE,
    JLE,
    JMP,
}

/// The mnemonic of a jump condition.
pub open spec fn jump_text(x: Jump) -> Seq<char> {
    match x {
        Jump::Null => "null"@,
        Jump::JGT => "JGT"@,
        Jump::JEQ => "JEQ"@,
        Jump::JGE => "JGE"@,
        Jump::JLT => "JLT"@,
        Jump::JNE => "JNE"@,
        Jump::JLE => "JLE"@,
        Jump::JMP => "JMP"@,
    }
}

/// The bits that encode a jump condition, most significant first.
pub open spec fn jump_bits(x: Jump) -> Seq<char> {
    match x {
        Jump::Null => "000"@,
        Jump::JGT => "001"@,
        Jump::JEQ => "010"@,
        Jump::JGE => "011"@,
        Jump::JLT => "100"@,
        Jump::JNE => "101"@,
        Jump::JLE => "110"@,
        Jump::JMP => "111"@,
    }
}

/// The jump condition that a mnemonic names, if it names one.
pub open spec fn jump_named(m: Seq<char>) -> Option<Jump> {
    if m == "null"@ {
        Some(Jump::Null)
    } else if m == "JGT"@ {
        Some(Jump::JGT)
    } else if m == "JEQ"@ {
        Some(Jump::JEQ)
    } else if m == "JGE"@ {
        Some(Jump::JGE)
    } else if m == "JLT"@ {
        Some(Jump::JLT)
    } else if m == "JNE"@ {
        Some(Jump::JNE)
    } else if m == "JLE"@ {
        Some(Jump::JLE)
    } else if m == "JMP"@ {
        Some(Jump::JMP)
    } else {
        None
    }
}

/// The mnemonic of a jump condition.
pub fn jump_name(x: Jump) -> (r: &'static str)
    ensures
        r@ == jump_text(x),
{
    match x {
        Jump::Null => "null",
        Jump::JGT => "JGT",
        Jump::JEQ => "JEQ",
        Jump::JGE => "JGE",
        Jump::JLT => "JLT",
        Jump::JNE => "JNE",
        Jump::JLE => "JLE",
        Jump::JMP => "JMP",
    }
}

/// The bits that encode a jump condition.
pub fn jump_code(x: Jump) -> (r: &'static str)
    ensures
        r@ == jump_bits(x),
{
    match x {
        Jump::Null => "000",
        Jump::JGT => "001",
        Jump::JEQ => "010",
        Jump::JGE => "011",
        Jump::JLT => "100",
        Jump::JNE => "101",
        Jump::JLE => "110",
        Jump::JMP => "111",
    }
}

/// Looks a mnemonic up among the jump conditions.
pub fn parse_jump(m: &Vec<char>) -> (r: Option<Jump>)
    ensures
        r == jump_named(m@),
{
    if same_text(m, "null") {
        Some(Jump::Null)
    } else if same_text(m, "JGT") {
        Some(Jump::JGT)
    } else if same_text(m, "JEQ") {
        Some(Jump::JEQ)
    } else if same_text(m, "JGE") {
        Some(Jump::JGE)
    } else if same_text(m, "JLT") {
        Some(Jump::JLT)
    } else if same_text(m, "JNE") {
        Some(Jump::JNE)
    } else if same_text(m, "JLE") {
        Some(Jump::JLE)
    } else if same_text(m, "JMP") {
        Some(Jump::JMP)
    } else {
        None
    }
}

/// Whether every character of `s` is a binary digit.
pub open spec fn all_bits(s: Seq<char>) -> bool {
    forall|i: int| 0 <= i < s.len() ==> #[trigger] s[i] == '0' || s[i] == '1'
}

/// A number that tells the mnemonics of one table apart: it is made of the
/// length and the first three characters.
spec fn fingerprint(s: Seq<char>) -> int {
    let at = |i: int| if i < s.len() { s[i] as int } else { 0 };
    ((s.len() * 256 + at(0)) * 256 + at(1)) * 256 + at(2)
}

/// Every destination is found again under its own mnemonic.
pub proof fn lemma_dest_named(d: Dest)
    ensures
        dest_named(dest_text(d)) == Some(d),
{
    reveal_strlit("null");
    reveal_strlit("M");
    reveal_strlit("D");
    reveal_strlit("MD");
    reveal_strlit("A");
    reveal_strlit("AM");
    reveal_strlit("AD");
    reveal_strlit("AMD");
    assert(fingerprint("null"@) == 74347884);
    assert(fingerprint("M"@) == 21823488);
    assert(fingerprint("D"@) == 21233664);
    assert(fingerprint("MD"@) == 38618112);
    assert(fingerprint("A"@) == 21037056);
    assert(fingerprint("AM"@) == 37833984);
    assert(fingerprint("AD"@) == 37831680);
    assert(fingerprint("AMD"@) == 54611268);
}

/// Every computation is found again under its own mnemonic.
pub proof fn lemma_comp_named(c: Comp)
    ensures
        comp_named(comp_text(c)) == Some(c),
{
    reveal_strlit("0");
    reveal_strlit("1");
    reveal_strlit("-1");
    reveal_strlit("D");
    reveal_strlit("A");
    reveal_strlit("!D");
    reveal_strlit("!A");
    reveal_strlit("-D");
    reveal_strlit("-A");
    reveal_strlit("D+1");
    reveal_strlit("A+1");
    reveal_strlit("D-1");
    reveal_strlit("A-1");
    reveal_strlit("D+A");
    reveal_strlit("D-A");
    reveal_strlit("A-D");
    reveal_strlit("D&A");
    reveal_strlit("D|A");
    reveal_strlit("M");
    reveal_strlit("!M");
    reveal_strlit("-M");
    reveal_strlit("M+1");
    reveal_strlit("M-1");
    reveal_strlit("D+M");
    reveal_strlit("D-M");
    reveal_strlit("M-D");
    reveal_strlit("D&M");
    reveal_strlit("D|M");
    assert(fingerprint("0"@) == 19922944);
    assert(fingerprint("1"@) == 19988480);
    assert(fingerprint("-1"@) == 36516096);
    assert(fingerprint("D"@) == 21233664);
    assert(fingerprint("A"@) == 21037056);
    assert(fingerprint("!D"@) == 35734528);
    assert(fingerprint("!A"@) == 35733760);
    assert(fingerprint("-D"@) == 36520960);
    assert(fingerprint("-A"@) == 36520192);
    assert(fingerprint("D+1"@) == 54799153);
    assert(fingerprint("A+1"@) == 54602545);
    assert(fingerprint("D-1"@) == 54799665);
    assert(fingerprint("A-1"@) == 54603057);
    assert(fingerprint("D+A"@) == 54799169);
    assert(fingerprint("D-A"@) == 54799681);
    assert(fingerprint("A-D"@) == 54603076);
    assert(fingerprint("D&A"@) == 54797889);
    assert(fingerprint("D|A"@) == 54819905);
    assert(fingerprint("M"@) == 21823488);
    assert(fingerprint("!M"@) == 35736832);
    assert(fingerprint("-M"@) == 36523264);
    assert(fingerprint("M+1"@) == 55388977);
    assert(fingerprint("M-1"@) == 55389489);
    assert(fingerprint("D+M"@) == 54799181);
    assert(fingerprint("D-M"@) == 54799693);
    assert(fingerprint("M-D"@) == 55389508);
    assert(fingerprint("D&M"@) == 54797901);
    assert(fingerprint("D|M"@) == 54819917);
}

/// Every jump condition is found again under its own mnemonic.
pub proof fn lemma_jump_named(j: Jump)
    ensures
        jump_named(jump_text(j)) == Some(j),
{
    reveal_strlit("null");
    reveal_strlit("JGT");
    reveal_strlit("JEQ");
    reveal_strlit("JGE");
    reveal_strlit("JLT");
    reveal_strlit("JNE");
    reveal_strlit("JLE");
    reveal_strlit("JMP");
    assert(fingerprint("null"@) == 74347884);
    assert(fingerprint("JGT"@) == 55199572);
    assert(fingerprint("JEQ"@) == 55199057);
    assert(fingerprint("JGE"@) == 55199557);
    assert(fingerprint("JLT"@) == 55200852);
    assert(fingerprint("JNE"@) == 55201349);
    assert(fingerprint("JLE"@) == 55200837);
    assert(fingerprint("JMP"@) == 55201104);
}

/// A mnemonic that names a destination is the mnemonic of that destination.
pub proof fn lemma_dest_text(m: Seq<char>)
    ensures
        dest_named(m) matches Some(d) ==> dest_text(d) == m,
{
}

/// A mnemonic that names a computation is the mnemonic of that computation.
pub proof fn lemma_comp_text(m: Seq<char>)
    ensures
        comp_named(m) matches Some(c) ==> comp_text(c) == m,
{
}

/// A mnemonic that names a jump condition is the mnemonic of that condition.
pub proof fn lemma_jump_text(m: Seq<char>)
    ensures
        jump_named(m) matches Some(j) ==> jump_text(j) == m,
{
}

/// The fields of a compute instruction are encoded in seven, three and
/// three binary digits.
pub proof fn lemma_field_bits(d: Dest, c: Comp, j: Jump)
    ensures
        comp_bits(c).len() == 7,
        dest_bits(d).len() == 3,
        jump_bits(j).len() == 3,
        all_bits(comp_bits(c)),
        all_bits(dest_bits(d)),
        all_bits(jump_bits(j)),
{
    reveal_strlit("0101010");
    reveal_strlit("0111111");
    reveal_strlit("0111010");
    reveal_strlit("0001100");
    reveal_strlit("0110000");
    reveal_strlit("0001101");
    reveal_strlit("0110001");
    reveal_strlit("0001111");
    reveal_strlit("0110011");
    reveal_strlit("0011111");
    reveal_strlit("0110111");
    reveal_strlit("0001110");
    reveal_strlit("0110010");
    reveal_strlit("0000010");
    reveal_strlit("0010011");
    reveal_strlit("0000111");
    reveal_strlit("0000000");
    reveal_strlit("0010101");
    reveal_strlit("1110000");
    reveal_strlit("1110001");
    reveal_strlit("1110011");
    reveal_strlit("1110111");
    reveal_strlit("1110010");
    reveal_strlit("1000010");
    reveal_strlit("1010011");
    reveal_strlit("1000111");
    reveal_strlit("1000000");
    reveal_strlit("1010101");
    reveal_strlit("000");
    reveal_strlit("001");
    reveal_strlit("010");
    reveal_strlit("011");
    reveal_strlit("100");
    reveal_strlit("101");
    reveal_strlit("110");
    reveal_strlit("111");
}

/// Whether a text is not empty, holds neither of the signs that part the
/// fields of a compute instruction, neither white space nor a slash, and
/// does not begin like a label declaration or an address instruction.
pub open spec fn is_plain(s: Seq<char>) -> bool {
    &&& s.len() > 0
    &&& s[0] != '(' && s[0] != '@'
    &&& forall|i: int|
        0 <= i < s.len() ==> #[trigger] s[i] != '=' && s[i] != ';' && s[i] != '/' && !is_space(
            s[i],
        )
}

/// Every mnemonic is plain.
pub proof fn lemma_mnemonics_plain(d: Dest, c: Comp, j: Jump)
    ensures
        is_plain(dest_text(d)),
        is_plain(comp_text(c)),
        is_plain(jump_text(j)),
{
    reveal_strlit("null");
    reveal_strlit("M");
    reveal_strlit("D");
    reveal_strlit("MD");
    reveal_strlit("A");
    reveal_strlit("AM");
    reveal_strlit("AD");
    reveal_strlit("AMD");
    reveal_strlit("0");
    reveal_strlit("1");
    reveal_strlit("-1");
    reveal_strlit("D");
    reveal_strlit("A");
    reveal_strlit("!D");
    reveal_strlit("!A");
    reveal_strlit("-D");
    reveal_strlit("-A");
    reveal_strlit("D+1");
    reveal_strlit("A+1");
    reveal_strlit("D-1");
    reveal_strlit("A-1");
    reveal_strlit("D+A");
    reveal_strlit("D-A");
    reveal_strlit("A-D");
    reveal_strlit("D&A");
    reveal_strlit("D|A");
    reveal_strlit("M");
    reveal_strlit("!M");
    reveal_strlit("-M");
    reveal_strlit("M+1");
    reveal_strlit("M-1");
    reveal_strlit("D+M");
    reveal_strlit("D-M");
    reveal_strlit("M-D");
    reveal_strlit("D&M");
    reveal_strlit("D|M");
    reveal_strlit("JGT");
    reveal_strlit("JEQ");
    reveal_strlit("JGE");
    reveal_strlit("JLT");
    reveal_strlit("JNE");
    reveal_strlit("JLE");
    reveal_strlit("JMP");
}

/// The number that the first `n` characters of a text of binary digits
/// denote.
pub open spec fn bits_number(s: Seq<char>, n: int) -> int
    decreases n,
{
    if n <= 0 {
        0
    } else {
        2 * bits_number(s, n - 1) + if s[n - 1] == '1' {
            1int
        } else {
            0int
        }
    }
}

/// The number that the bits of a computation denote.
pub open spec fn comp_number(c: Comp) -> int {
    match c {
        Comp::Zero => 42,
        Comp::One => 63,
        Comp::MinusOne => 58,
        Comp::D => 12,
        Comp::A => 48,
        Comp::NotD => 13,
        Comp::NotA => 49,
        Comp::NegD => 15,
        Comp::NegA => 51,
        Comp::DPlusOne => 31,
        Comp::APlusOne => 55,
        Comp::DMinusOne => 14,
        Comp::AMinusOne => 50,
        Comp::DPlusA => 2,
        Comp::DMinusA => 19,
        Comp::AMinusD => 7,
        Comp::DAndA => 0,
        Comp::DOrA => 21,
        Comp::M => 112,
        Comp::NotM => 113,
        Comp::NegM => 115,
        Comp::MPlusOne => 119,
        Comp::MMinusOne => 114,
        Comp::DPlusM => 66,
        Comp::DMinusM => 83,
        Comp::MMinusD => 71,
        Comp::DAndM => 64,
        Comp::DOrM => 85,
    }
}

/// The bits of a computation denote its number.
pub proof fn lemma_comp_number(c: Comp)
    ensures
        bits_number(comp_bits(c), 7) == comp_number(c),
{
    reveal_with_fuel(bits_number, 8);
    reveal_strlit("0101010");
    reveal_strlit("0111111");
    reveal_strlit("0111010");
    reveal_strlit("0001100");
    reveal_strlit("0110000");
    reveal_strlit("0001101");
    reveal_strlit("0110001");
    reveal_strlit("0001111");
    reveal_strlit("0110011");
    reveal_strlit("0011111");
    reveal_strlit("0110111");
    reveal_strlit("0001110");
    reveal_strlit("0110010");
    reveal_strlit("0000010");
    reveal_strlit("0010011");
    reveal_strlit("0000111");
    reveal_strlit("0000000");
    reveal_strlit("0010101");
    reveal_strlit("1110000");
    reveal_strlit("1110001");
    reveal_strlit("1110011");
    reveal_strlit("1110111");
    reveal_strlit("1110010");
    reveal_strlit("1000010");
    reveal_strlit("1010011");
    reveal_strlit("1000111");
    reveal_strlit("1000000");
    reveal_strlit("1010101");
}

/// The number that the bits of a destination denote.
pub open spec fn dest_number(d: Dest) -> int {
    match d {
        Dest::Null => 0,
        Dest::M => 1,
        Dest::D => 2,
        Dest::MD => 3,
        Dest::A => 4,
        Dest::AM => 5,
        Dest::AD => 6,
        Dest::AMD => 7,
    }
}

/// The number that the bits of a jump condition denote.
pub open spec fn jump_number(j: Jump) -> int {
    match j {
        Jump::Null => 0,
        Jump::JGT => 1,
        Jump::JEQ => 2,
        Jump::JGE => 3,
        Jump::JLT => 4,
        Jump::JNE => 5,
        Jump::JLE => 6,
        Jump::JMP => 7,
    }
}

/// The bits of a destination and of a jump condition denote their
/// numbers.
pub proof fn lemma_field_numbers(d: Dest, j: Jump)
    ensures
        bits_number(dest_bits(d), 3) == dest_number(d),
        bits_number(jump_bits(j), 3) == jump_number(j),
{
    reveal_with_fuel(bits_number, 4);
    reveal_strlit("000");
    reveal_strlit("001");
    reveal_strlit("010");
    reveal_strlit("011");
    reveal_strlit("100");
    reveal_strlit("101");
    reveal_strlit("110");
    reveal_strlit("111");
}

/// Different fields have different bits: the bits tell the computation,
/// the destination and the jump condition.
pub proof fn lemma_bits_apart(d1: Dest, c1: Comp, j1: Jump, d2: Dest, c2: Comp, j2: Jump)
    ensures
        comp_bits(c1) == comp_bits(c2) ==> c1 == c2,
        dest_bits(d1) == dest_bits(d2) ==> d1 == d2,
        jump_bits(j1) == jump_bits(j2) ==> j1 == j2,
{
    lemma_comp_number(c1);
    lemma_comp_number(c2);
    lemma_field_numbers(d1, j1);
    lemma_field_numbers(d2, j2);
}

} // verus!
