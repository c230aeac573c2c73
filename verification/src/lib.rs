//! A back end in two stages for a stack machine on a 16-bit computer.
//!
//! The translator turns the commands of the stack machine into assembly:
//! arithmetic, access to the memory segments, branching, and the calling
//! of procedures. The assembler resolves the labels and variables of an
//! assembly program and encodes each instruction in a 16-bit word.
//!
//! [`translator`] and [`driver`] hold the translator, [`code`] the assembly
//! that it writes, and [`parser`] the reader of commands. [`assembler`]
//! holds the assembler and [`symbols`] its symbol table. [`isa`] and
//! [`listing`] describe instructions and assembly lines, and [`text`] the
//! handling of characters. The remaining modules hold what is proved of the
//! two stages: [`resolution`] about the assembler, [`machine`] the model of
//! the computer, [`meaning`], [`truth`] and [`frames`] what the written
//! assembly does on it, and [`image`] and [`linkage`] that the assembler
//! reads what the translator writes.

pub mod text;
pub mod isa;
pub mod listing;
pub mod instr;
pub mod code;
pub mod translator;
pub mod parser;
pub mod driver;
pub mod symbols;
pub mod assembler;
pub mod resolution;
pub mod machine;
pub mod meaning;
pub mod truth;
pub mod frames;
pub mod image;
pub mod linkage;
