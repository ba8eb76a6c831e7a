//! A verified assembler for a small, fixed instruction set.
//!
//! The library compiles textual assembly source into a binary instruction
//! stream together with a textual symbol table, optionally restricted by a
//! whitelist of permitted mnemonics. The pipeline is: lexer, parser,
//! whitelist enforcement, two-pass symbol resolution, range checking, and
//! encoding. Every stage is specified by a mathematical function of its
//! input, and the executable code is proved to return exactly that
//! function's value.
//!
//! # Grammar
//!
//! The source is line-oriented; `;` starts a comment that runs to the end of
//! the line. Each line holds at most one statement:
//!
//! * a label definition `NAME:`,
//! * an instruction `MNEMONIC` with zero, one, or two comma-separated
//!   operands, or
//! * a directive `.byte N`, `.word N`, or `.string "..."`.
//!
//! An operand is an integer literal (decimal or `0x` hexadecimal), a
//! register `R0` ... `R9`, a label name, or (for `.string`) a quoted string
//! with the escapes `\\`, `\"`, `\n`, `\t`, `\0`.
//!
//! # Instruction set and encoding
//!
//! | mnemonic | opcode | operands              |
//! |----------|--------|-----------------------|
//! | `NOP`    | 0      | none                  |
//! | `HALT`   | 1      | none                  |
//! | `MOV`    | 2      | register, source      |
//! | `ADD`    | 3      | register, source      |
//! | `SUB`    | 4      | register, source      |
//! | `JMP`    | 5      | target                |
//! | `JZ`     | 6      | register, target      |
//!
//! A source operand is a register, an immediate, or a label; a target is an
//! immediate or a label. An instruction encodes as its opcode byte followed
//! by three bytes per operand: a mode tag (0 immediate, 1 register, 2
//! address) and the 16-bit value, little endian. `.byte` emits one byte,
//! `.word` two (little endian), `.string` the unescaped bytes of its
//! literal. Addresses start at 0; the address space is 16 bits wide.

pub mod ast;
pub mod input;
pub mod lexer;
pub mod parser;
pub mod resolver;
pub mod encoder;
pub mod emitter;
pub mod compiler;
