//! Data model of the assembler: tokens, statements, symbol table entries,
//! resolved statements, and the error taxonomy.
//!
//! Identifier-like data (label names, string-literal contents) is kept as a
//! span `[lo, hi)` of byte indices into the source text, so that every node
//! is plain data that both executable and specification code can build.

use vstd::prelude::*;

verus! {

/// A source position: 1-based line and column.
///
/// Columns and lines are counted with saturating arithmetic; they pin at
/// `u64::MAX` on inputs too large for that to matter in practice.
#[derive(Clone, Copy, PartialEq, Eq, Structural, Debug)]
pub struct Pos {
    pub line: u64,
    pub col: u64,
}

/// What kind of lexical error occurred.
#[derive(Clone, Copy, PartialEq, Eq, Structural, Debug)]
pub enum LexErrorKind {
    /// A byte that can start no token, or an invalid escape in a string.
    InvalidChar,
    /// A string literal not closed before the end of its line or of the input.
    UnterminatedString,
    /// A numeric literal with no digits after `0x`, or one exceeding `u64`.
    MalformedNumber,
}

/// What kind of grammar error occurred.
#[derive(Clone, Copy, PartialEq, Eq, Structural, Debug)]
pub enum ParseErrorKind {
    /// A token that cannot appear at this point of a statement.
    UnexpectedToken,
    /// Operand count or operand shapes do not fit the mnemonic or directive.
    WrongArity,
    /// A directive name that the grammar does not know.
    UnknownDirective,
    /// An identifier in mnemonic position that names no instruction.
    UnknownMnemonic,
}

/// The failure value of a compilation: the first error of the pipeline.
#[derive(Clone, Copy, PartialEq, Eq, Structural, Debug)]
#[allow(inconsistent_fields)]
pub enum CompileError {
    /// Lexical error at the given position.
    LexError { kind: LexErrorKind, pos: Pos },
    /// Grammar error at the given position.
    ParseError { kind: ParseErrorKind, pos: Pos },
    /// A label name defined twice; the span names the second definition.
    DuplicateSymbol { lo: usize, hi: usize, pos: Pos },
    /// A label reference whose name is never defined; the span names it.
    UndefinedSymbol { lo: usize, hi: usize, pos: Pos },
    /// A value that does not fit the width its encoding gives it, or a
    /// statement that would push the address cursor past the address space.
    EncodingRange { value: u64, pos: Pos },
    /// An instruction whose mnemonic a supplied whitelist does not permit.
    DisallowedInstruction { m: Mnemonic, pos: Pos },
    /// Emitted bytes disagree with the size the resolver computed; this
    /// signals a bug of the compiler, not of the input. Verification proves
    /// the encoder never produces it.
    InternalFault,
}

/// A lexical token. Text-carrying kinds hold a span into the source.
#[derive(Clone, Copy, PartialEq, Eq, Structural, Debug)]
pub struct Token {
    pub kind: TokenKind,
    pub pos: Pos,
}

#[derive(Clone, Copy, PartialEq, Eq, Structural, Debug)]
pub enum TokenKind {
    /// An identifier; the span covers its bytes.
    Ident { lo: usize, hi: usize },
    /// An integer literal, already evaluated.
    Int { v: u64 },
    /// A string literal; the span covers the raw bytes between the quotes,
    /// escapes still in place.
    Str { lo: usize, hi: usize },
    /// A directive keyword; the span covers the name after the dot.
    Directive { lo: usize, hi: usize },
    Colon,
    Comma,
    Newline,
}

/// The instruction set. Every instruction has a fixed operand arity.
#[derive(Clone, Copy, PartialEq, Eq, Structural, Debug)]
pub enum Mnemonic {
    Nop,
    Halt,
    Mov,
    Add,
    Sub,
    Jmp,
    Jz,
}

/// An operand as the parser classifies it.
#[derive(Clone, Copy, PartialEq, Eq, Structural, Debug)]
pub struct Operand {
    pub kind: OperandKind,
    pub pos: Pos,
}

#[derive(Clone, Copy, PartialEq, Eq, Structural, Debug)]
pub enum OperandKind {
    /// An immediate value.
    Imm { v: u64 },
    /// A register `R0` ... `R9`.
    Reg { r: u64 },
    /// A reference to a label, unresolved; the span names the label.
    LabelRef { lo: usize, hi: usize },
    /// A string literal (directive payload); raw span between the quotes.
    StrLit { lo: usize, hi: usize },
}

/// The directives of the grammar.
#[derive(Clone, Copy, PartialEq, Eq, Structural, Debug)]
pub enum DirKind {
    /// `.byte n` - one raw byte.
    Byte,
    /// `.word n` - one little-endian 16-bit word; the payload may be a label.
    Word,
    /// `.string "..."` - the bytes of the string.
    Str,
}

/// One statement of a program; a program is their ordered sequence.
#[derive(Clone, Copy, PartialEq, Eq, Structural, Debug)]
pub struct Stmt {
    pub kind: StmtKind,
    pub pos: Pos,
}

#[derive(Clone, Copy, PartialEq, Eq, Structural, Debug)]
pub enum StmtKind {
    /// A label definition; the span names the label.
    Label { lo: usize, hi: usize },
    /// An instruction with at most two operands; `op2` is `Some` only if
    /// `op1` is.
    Instr { m: Mnemonic, op1: Option<Operand>, op2: Option<Operand> },
    /// A directive with its single payload operand.
    Dir { d: DirKind, op: Operand },
}

/// One entry of the symbol table: a label name (as a span into the source)
/// and its resolved address.
#[derive(Clone, Copy, PartialEq, Eq, Structural, Debug)]
pub struct SymEntry {
    pub lo: usize,
    pub hi: usize,
    pub addr: u64,
}

/// An operand after reference resolution: every value is concrete.
#[derive(Clone, Copy, PartialEq, Eq, Structural, Debug)]
pub struct ResOperand {
    pub kind: ResOpKind,
    pub pos: Pos,
}

#[derive(Clone, Copy, PartialEq, Eq, Structural, Debug)]
pub enum ResOpKind {
    Imm { v: u64 },
    Reg { r: u64 },
    /// A resolved label reference.
    Addr { a: u64 },
}

/// A statement after resolution, ready for encoding. Label definitions are
/// gone; every reference is bound.
#[derive(Clone, Copy, PartialEq, Eq, Structural, Debug)]
pub enum ResStmt {
    RInstr { m: Mnemonic, op1: Option<ResOperand>, op2: Option<ResOperand> },
    RByte { op: ResOperand },
    RWord { op: ResOperand },
    /// The raw span of the string literal; its unescaped bytes are emitted.
    RString { lo: usize, hi: usize },
}

/// Operand arity of a mnemonic.
pub open spec fn arity(m: Mnemonic) -> nat {
    match m {
        Mnemonic::Nop => 0,
        Mnemonic::Halt => 0,
        Mnemonic::Mov => 2,
        Mnemonic::Add => 2,
        Mnemonic::Sub => 2,
        Mnemonic::Jmp => 1,
        Mnemonic::Jz => 2,
    }
}

/// Opcode byte of a mnemonic.
pub open spec fn opcode(m: Mnemonic) -> u8 {
    match m {
        Mnemonic::Nop => 0,
        Mnemonic::Halt => 1,
        Mnemonic::Mov => 2,
        Mnemonic::Add => 3,
        Mnemonic::Sub => 4,
        Mnemonic::Jmp => 5,
        Mnemonic::Jz => 6,
    }
}

/// The textual name of a mnemonic, as bytes.
pub open spec fn mn_name(m: Mnemonic) -> Seq<u8> {
    match m {
        Mnemonic::Nop => seq![78u8, 79u8, 80u8],
        Mnemonic::Halt => seq![72u8, 65u8, 76u8, 84u8],
        Mnemonic::Mov => seq![77u8, 79u8, 86u8],
        Mnemonic::Add => seq![65u8, 68u8, 68u8],
        Mnemonic::Sub => seq![83u8, 85u8, 66u8],
        Mnemonic::Jmp => seq![74u8, 77u8, 80u8],
        Mnemonic::Jz => seq![74u8, 90u8],
    }
}

/// The mnemonic a name denotes, if any.
pub open spec fn mn_of(name: Seq<u8>) -> Option<Mnemonic> {
    if name == mn_name(Mnemonic::Nop) {
        Some(Mnemonic::Nop)
    } else if name == mn_name(Mnemonic::Halt) {
        Some(Mnemonic::Halt)
    } else if name == mn_name(Mnemonic::Mov) {
        Some(Mnemonic::Mov)
    } else if name == mn_name(Mnemonic::Add) {
        Some(Mnemonic::Add)
    } else if name == mn_name(Mnemonic::Sub) {
        Some(Mnemonic::Sub)
    } else if name == mn_name(Mnemonic::Jmp) {
        Some(Mnemonic::Jmp)
    } else if name == mn_name(Mnemonic::Jz) {
        Some(Mnemonic::Jz)
    } else {
        None
    }
}

/// The textual name of a directive, as bytes (without the leading dot).
pub open spec fn dir_name(d: DirKind) -> Seq<u8> {
    match d {
        DirKind::Byte => seq![98u8, 121u8, 116u8, 101u8],
        DirKind::Word => seq![119u8, 111u8, 114u8, 100u8],
        DirKind::Str => seq![115u8, 116u8, 114u8, 105u8, 110u8, 103u8],
    }
}

/// The directive a name denotes, if any.
pub open spec fn dir_of(name: Seq<u8>) -> Option<DirKind> {
    if name == dir_name(DirKind::Byte) {
        Some(DirKind::Byte)
    } else if name == dir_name(DirKind::Word) {
        Some(DirKind::Word)
    } else if name == dir_name(DirKind::Str) {
        Some(DirKind::Str)
    } else {
        None
    }
}

/// A token's spans lie within a source of length `n`.
pub open spec fn wf_token(t: Token, n: nat) -> bool {
    match t.kind {
        TokenKind::Ident { lo, hi } => lo <= hi <= n,
        TokenKind::Str { lo, hi } => lo <= hi <= n,
        TokenKind::Directive { lo, hi } => lo <= hi <= n,
        _ => true,
    }
}

/// An operand's data is well formed over a source of length `n`.
pub open spec fn wf_operand(op: Operand, n: nat) -> bool {
    match op.kind {
        OperandKind::Imm { v } => true,
        OperandKind::Reg { r } => r <= 9,
        OperandKind::LabelRef { lo, hi } => lo <= hi <= n,
        OperandKind::StrLit { lo, hi } => lo <= hi <= n,
    }
}

/// A destination operand: a register.
pub open spec fn is_dst(op: Operand) -> bool {
    op.kind is Reg
}

/// A source operand: an immediate, a register, or a label reference.
pub open spec fn is_src(op: Operand) -> bool {
    op.kind is Imm || op.kind is Reg || op.kind is LabelRef
}

/// A jump target: an immediate or a label reference.
pub open spec fn is_target(op: Operand) -> bool {
    op.kind is Imm || op.kind is LabelRef
}

/// Operand count and operand shapes fit the mnemonic.
pub open spec fn shape_ok(m: Mnemonic, op1: Option<Operand>, op2: Option<Operand>) -> bool {
    match m {
        Mnemonic::Nop => op1 is None && op2 is None,
        Mnemonic::Halt => op1 is None && op2 is None,
        Mnemonic::Jmp => {
            &&& op2 is None
            &&& (op1 matches Some(a) && is_target(a))
        },
        Mnemonic::Mov => {
            &&& (op1 matches Some(a) && is_dst(a))
            &&& (op2 matches Some(b) && is_src(b))
        },
        Mnemonic::Add => {
            &&& (op1 matches Some(a) && is_dst(a))
            &&& (op2 matches Some(b) && is_src(b))
        },
        Mnemonic::Sub => {
            &&& (op1 matches Some(a) && is_dst(a))
            &&& (op2 matches Some(b) && is_src(b))
        },
        Mnemonic::Jz => {
            &&& (op1 matches Some(a) && is_dst(a))
            &&& (op2 matches Some(b) && is_target(b))
        },
    }
}

/// The payload shape a directive asks for.
pub open spec fn dir_shape_ok(d: DirKind, op: Operand) -> bool {
    match d {
        DirKind::Byte => op.kind is Imm,
        DirKind::Word => op.kind is Imm || op.kind is LabelRef,
        DirKind::Str => op.kind is StrLit,
    }
}

/// A statement is well formed over a source of length `n`: spans in bounds,
/// operand shapes fitting their mnemonic or directive.
pub open spec fn wf_stmt(st: Stmt, n: nat) -> bool {
    match st.kind {
        StmtKind::Label { lo, hi } => lo <= hi <= n,
        StmtKind::Instr { m, op1, op2 } => {
            &&& shape_ok(m, op1, op2)
            &&& (op1 matches Some(a) ==> wf_operand(a, n))
            &&& (op2 matches Some(b) ==> wf_operand(b, n))
        },
        StmtKind::Dir { d, op } => dir_shape_ok(d, op) && wf_operand(op, n),
    }
}

/// Every statement of a program is well formed.
pub open spec fn wf_prog(prog: Seq<Stmt>, n: nat) -> bool {
    forall|k: int| 0 <= k < prog.len() ==> wf_stmt(#[trigger] prog[k], n)
}

/// Every symbol-table span lies within a source of length `n`.
pub open spec fn wf_table(tab: Seq<SymEntry>, n: nat) -> bool {
    forall|k: int| 0 <= k < tab.len() ==> (#[trigger] tab[k]).lo <= tab[k].hi <= n
}

/// A resolved statement is well formed over a source of length `n`.
pub open spec fn wf_res_stmt(rst: ResStmt, n: nat) -> bool {
    match rst {
        ResStmt::RString { lo, hi } => lo <= hi <= n,
        _ => true,
    }
}

/// Every resolved statement of a program is well formed.
pub open spec fn wf_res_prog(rprog: Seq<ResStmt>, n: nat) -> bool {
    forall|k: int| 0 <= k < rprog.len() ==> wf_res_stmt(#[trigger] rprog[k], n)
}

} // verus!
