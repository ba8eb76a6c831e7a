//! The parser: turns the token sequence into a program, an ordered sequence
//! of statements.
//!
//! The grammar is line-oriented: each line holds at most one statement (a
//! label definition, an instruction, or a directive), terminated by a
//! `Newline` token or by the end of the input. `spec_parse` is the
//! mathematical statement of parsing; the executable `parse` is proved to
//! return exactly its value. Parsing stops at the first error.

use vstd::prelude::*;
use crate::ast::{
    CompileError, DirKind, Mnemonic, Operand, OperandKind, ParseErrorKind, Stmt, StmtKind, Token,
    TokenKind, dir_name, dir_of, dir_shape_ok, mn_name, mn_of, shape_ok, wf_operand, wf_prog,
    wf_stmt, wf_token,
};
use crate::lexer::is_digit_b;

verus! {

/// A register name: `R` followed by one digit.
pub open spec fn is_reg_name(name: Seq<u8>) -> bool {
    name.len() == 2 && name[0] == 82 && is_digit_b(name[1])
}

/// The register index a register name denotes.
pub open spec fn reg_val(name: Seq<u8>) -> u64 {
    (name[1] - 48) as u64
}

/// The operand a single token denotes, if any: an integer literal is an
/// immediate, an identifier a register or a label reference, a string
/// literal a string operand.
pub open spec fn operand_of(src: Seq<u8>, t: Token) -> Option<Operand> {
    match t.kind {
        TokenKind::Int { v } => Some(Operand { kind: OperandKind::Imm { v }, pos: t.pos }),
        TokenKind::Ident { lo, hi } => {
            let name = src.subrange(lo as int, hi as int);
            if is_reg_name(name) {
                Some(Operand { kind: OperandKind::Reg { r: reg_val(name) }, pos: t.pos })
            } else {
                Some(Operand { kind: OperandKind::LabelRef { lo, hi }, pos: t.pos })
            }
        },
        TokenKind::Str { lo, hi } => Some(
            Operand { kind: OperandKind::StrLit { lo, hi }, pos: t.pos },
        ),
        _ => None,
    }
}

/// The operand list beginning at token `j`: up to two comma-separated
/// operands, then the end of the line. Returns the operands and the number
/// of tokens consumed (the terminating newline included).
pub open spec fn parse_ops(src: Seq<u8>, toks: Seq<Token>, j: int) -> Result<
    (Option<Operand>, Option<Operand>, nat),
    CompileError,
> {
    if j >= toks.len() {
        Ok((None, None, 0))
    } else if toks[j].kind is Newline {
        Ok((None, None, 1))
    } else {
        match operand_of(src, toks[j]) {
            None => Err(
                CompileError::ParseError { kind: ParseErrorKind::UnexpectedToken, pos: toks[j].pos },
            ),
            Some(a) => {
                if j + 1 >= toks.len() {
                    Ok((Some(a), None, 1))
                } else if toks[j + 1].kind is Newline {
                    Ok((Some(a), None, 2))
                } else if toks[j + 1].kind is Comma {
                    if j + 2 >= toks.len() {
                        Err(
                            CompileError::ParseError {
                                kind: ParseErrorKind::UnexpectedToken,
                                pos: toks[j + 1].pos,
                            },
                        )
                    } else {
                        match operand_of(src, toks[j + 2]) {
                            None => Err(
                                CompileError::ParseError {
                                    kind: ParseErrorKind::UnexpectedToken,
                                    pos: toks[j + 2].pos,
                                },
                            ),
                            Some(b) => {
                                if j + 3 >= toks.len() {
                                    Ok((Some(a), Some(b), 3))
                                } else if toks[j + 3].kind is Newline {
                                    Ok((Some(a), Some(b), 4))
                                } else if toks[j + 3].kind is Comma {
                                    Err(
                                        CompileError::ParseError {
                                            kind: ParseErrorKind::WrongArity,
                                            pos: toks[j + 3].pos,
                                        },
                                    )
                                } else {
                                    Err(
                                        CompileError::ParseError {
                                            kind: ParseErrorKind::UnexpectedToken,
                                            pos: toks[j + 3].pos,
                                        },
                                    )
                                }
                            },
                        }
                    }
                } else {
                    Err(
                        CompileError::ParseError {
                            kind: ParseErrorKind::UnexpectedToken,
                            pos: toks[j + 1].pos,
                        },
                    )
                }
            },
        }
    }
}

/// The statement of the line beginning at token `k` (`None` for an empty
/// line), and how many tokens beyond the first it consumed.
pub open spec fn parse_line(src: Seq<u8>, toks: Seq<Token>, k: int) -> Result<
    (Option<Stmt>, nat),
    CompileError,
> {
    let t = toks[k];
    match t.kind {
        TokenKind::Newline => Ok((None, 0)),
        TokenKind::Ident { lo, hi } => {
            if k + 1 < toks.len() && toks[k + 1].kind is Colon {
                let st = Stmt { kind: StmtKind::Label { lo, hi }, pos: t.pos };
                if k + 2 >= toks.len() {
                    Ok((Some(st), 1))
                } else if toks[k + 2].kind is Newline {
                    Ok((Some(st), 2))
                } else {
                    Err(
                        CompileError::ParseError {
                            kind: ParseErrorKind::UnexpectedToken,
                            pos: toks[k + 2].pos,
                        },
                    )
                }
            } else {
                match mn_of(src.subrange(lo as int, hi as int)) {
                    None => Err(
                        CompileError::ParseError { kind: ParseErrorKind::UnknownMnemonic, pos: t.pos },
                    ),
                    Some(m) => match parse_ops(src, toks, k + 1) {
                        Err(e) => Err(e),
                        Ok((op1, op2, c)) => {
                            if shape_ok(m, op1, op2) {
                                Ok((Some(Stmt { kind: StmtKind::Instr { m, op1, op2 }, pos: t.pos }), c))
                            } else {
                                Err(
                                    CompileError::ParseError {
                                        kind: ParseErrorKind::WrongArity,
                                        pos: t.pos,
                                    },
                                )
                            }
                        },
                    },
                }
            }
        },
        TokenKind::Directive { lo, hi } => {
            match dir_of(src.subrange(lo as int, hi as int)) {
                None => Err(
                    CompileError::ParseError { kind: ParseErrorKind::UnknownDirective, pos: t.pos },
                ),
                Some(d) => match parse_ops(src, toks, k + 1) {
                    Err(e) => Err(e),
                    Ok((op1, op2, c)) => match op1 {
                        Some(op) => {
                            if op2 is None && dir_shape_ok(d, op) {
                                Ok((Some(Stmt { kind: StmtKind::Dir { d, op }, pos: t.pos }), c))
                            } else {
                                Err(
                                    CompileError::ParseError {
                                        kind: ParseErrorKind::WrongArity,
                                        pos: t.pos,
                                    },
                                )
                            }
                        },
                        None => Err(
                            CompileError::ParseError { kind: ParseErrorKind::WrongArity, pos: t.pos },
                        ),
                    },
                },
            }
        },
        _ => Err(CompileError::ParseError { kind: ParseErrorKind::UnexpectedToken, pos: t.pos }),
    }
}

/// A successful operand-list parse never consumes past the end of the
/// tokens.
pub proof fn lemma_parse_ops_le(src: Seq<u8>, toks: Seq<Token>, j: int)
    requires
        0 <= j <= toks.len(),
    ensures
        parse_ops(src, toks, j) matches Ok((a, b, c)) ==> j + c <= toks.len(),
{
}

/// A successful line parse never consumes past the end of the tokens.
pub proof fn lemma_parse_line_le(src: Seq<u8>, toks: Seq<Token>, k: int)
    requires
        0 <= k < toks.len(),
    ensures
        parse_line(src, toks, k) matches Ok((st, extra)) ==> k + 1 + extra <= toks.len(),
{
    lemma_parse_ops_le(src, toks, k + 1);
}

/// The program of the token sequence from token `k` on, appended to `acc`.
pub open spec fn spec_parse_at(src: Seq<u8>, toks: Seq<Token>, k: int, acc: Seq<Stmt>) -> Result<
    Seq<Stmt>,
    CompileError,
>
    decreases toks.len() - k,
    via spec_parse_at_dec
{
    if k < 0 || k >= toks.len() {
        Ok(acc)
    } else {
        match parse_line(src, toks, k) {
            Err(e) => Err(e),
            Ok((sopt, extra)) => spec_parse_at(
                src,
                toks,
                k + 1 + extra,
                match sopt {
                    None => acc,
                    Some(st) => acc.push(st),
                },
            ),
        }
    }
}

#[via_fn]
proof fn spec_parse_at_dec(src: Seq<u8>, toks: Seq<Token>, k: int, acc: Seq<Stmt>) {
    if 0 <= k && k < toks.len() {
        lemma_parse_line_le(src, toks, k);
    }
}

/// The program a token sequence denotes, or its first grammar error.
pub open spec fn spec_parse(src: Seq<u8>, toks: Seq<Token>) -> Result<Seq<Stmt>, CompileError> {
    spec_parse_at(src, toks, 0, Seq::empty())
}

/// The bytes of a mnemonic's name.
pub(crate) fn mn_name_vec(m: Mnemonic) -> (v: Vec<u8>)
    ensures
        v@ == mn_name(m),
{
    let mut v: Vec<u8> = Vec::new();
    match m {
        Mnemonic::Nop => {
            v.push(78);
            v.push(79);
            v.push(80);
        },
        Mnemonic::Halt => {
            v.push(72);
            v.push(65);
            v.push(76);
            v.push(84);
        },
        Mnemonic::Mov => {
            v.push(77);
            v.push(79);
            v.push(86);
        },
        Mnemonic::Add => {
            v.push(65);
            v.push(68);
            v.push(68);
        },
        Mnemonic::Sub => {
            v.push(83);
            v.push(85);
            v.push(66);
        },
        Mnemonic::Jmp => {
            v.push(74);
            v.push(77);
            v.push(80);
        },
        Mnemonic::Jz => {
            v.push(74);
            v.push(90);
        },
    }
    proof {
        assert(v@ =~= mn_name(m));
    }
    v
}

/// The bytes of a directive's name.
fn dir_name_vec(d: DirKind) -> (v: Vec<u8>)
    ensures
        v@ == dir_name(d),
{
    let mut v: Vec<u8> = Vec::new();
    match d {
        DirKind::Byte => {
            v.push(98);
            v.push(121);
            v.push(116);
            v.push(101);
        },
        DirKind::Word => {
            v.push(119);
            v.push(111);
            v.push(114);
            v.push(100);
        },
        DirKind::Str => {
            v.push(115);
            v.push(116);
            v.push(114);
            v.push(105);
            v.push(110);
            v.push(103);
        },
    }
    proof {
        assert(v@ =~= dir_name(d));
    }
    v
}

/// Whether the bytes `[lo, hi)` of the source equal the pattern.
fn range_eq(src: &Vec<u8>, lo: usize, hi: usize, pat: &Vec<u8>) -> (r: bool)
    requires
        lo <= hi <= src@.len(),
    ensures
        r == (src@.subrange(lo as int, hi as int) == pat@),
{
    let ghost name = src@.subrange(lo as int, hi as int);
    if hi - lo != pat.len() {
        proof {
            assert(name.len() == hi - lo);
        }
        return false;
    }
    let mut i: usize = 0;
    while i < pat.len()
        invariant
            lo <= hi <= src@.len(),
            hi - lo == pat@.len(),
            0 <= i <= pat@.len(),
            forall|q: int| 0 <= q < i ==> src@.subrange(lo as int, hi as int)[q] == pat@[q],
        decreases pat@.len() - i,
    {
        if src[lo + i] != pat[i] {
            proof {
                assert(src@.subrange(lo as int, hi as int)[i as int] == src@[lo + i]);
            }
            return false;
        }
        i = i + 1;
    }
    proof {
        assert(name =~= pat@);
    }
    true
}

/// The mnemonic named by the bytes `[lo, hi)` of the source, if any.
fn mn_lookup(src: &Vec<u8>, lo: usize, hi: usize) -> (r: Option<Mnemonic>)
    requires
        lo <= hi <= src@.len(),
    ensures
        r == mn_of(src@.subrange(lo as int, hi as int)),
{
    if range_eq(src, lo, hi, &mn_name_vec(Mnemonic::Nop)) {
        Some(Mnemonic::Nop)
    } else if range_eq(src, lo, hi, &mn_name_vec(Mnemonic::Halt)) {
        Some(Mnemonic::Halt)
    } else if range_eq(src, lo, hi, &mn_name_vec(Mnemonic::Mov)) {
        Some(Mnemonic::Mov)
    } else if range_eq(src, lo, hi, &mn_name_vec(Mnemonic::Add)) {
        Some(Mnemonic::Add)
    } else if range_eq(src, lo, hi, &mn_name_vec(Mnemonic::Sub)) {
        Some(Mnemonic::Sub)
    } else if range_eq(src, lo, hi, &mn_name_vec(Mnemonic::Jmp)) {
        Some(Mnemonic::Jmp)
    } else if range_eq(src, lo, hi, &mn_name_vec(Mnemonic::Jz)) {
        Some(Mnemonic::Jz)
    } else {
        None
    }
}

/// The directive named by the bytes `[lo, hi)` of the source, if any.
fn dir_lookup(src: &Vec<u8>, lo: usize, hi: usize) -> (r: Option<DirKind>)
    requires
        lo <= hi <= src@.len(),
    ensures
        r == dir_of(src@.subrange(lo as int, hi as int)),
{
    if range_eq(src, lo, hi, &dir_name_vec(DirKind::Byte)) {
        Some(DirKind::Byte)
    } else if range_eq(src, lo, hi, &dir_name_vec(DirKind::Word)) {
        Some(DirKind::Word)
    } else if range_eq(src, lo, hi, &dir_name_vec(DirKind::Str)) {
        Some(DirKind::Str)
    } else {
        None
    }
}

/// The operand a token denotes, if any.
fn operand_x(src: &Vec<u8>, t: Token) -> (r: Option<Operand>)
    requires
        wf_token(t, src@.len()),
    ensures
        r == operand_of(src@, t),
        r matches Some(op) ==> wf_operand(op, src@.len()),
{
    match t.kind {
        TokenKind::Int { v } => Some(Operand { kind: OperandKind::Imm { v }, pos: t.pos }),
        TokenKind::Ident { lo, hi } => {
            let ghost name = src@.subrange(lo as int, hi as int);
            if hi - lo == 2 && src[lo] == 82 && 48 <= src[lo + 1] && src[lo + 1] <= 57 {
                proof {
                    assert(name.len() == 2);
                    assert(name[0] == src@[lo as int]);
                    assert(name[1] == src@[lo + 1 as int]);
                    assert(is_reg_name(name));
                }
                Some(
                    Operand {
                        kind: OperandKind::Reg { r: (src[lo + 1] - 48) as u64 },
                        pos: t.pos,
                    },
                )
            } else {
                proof {
                    assert(name.len() == hi - lo);
                    if is_reg_name(name) {
                        assert(name[0] == src@[lo as int]);
                        assert(name[1] == src@[lo + 1 as int]);
                        assert(false);
                    }
                }
                Some(Operand { kind: OperandKind::LabelRef { lo, hi }, pos: t.pos })
            }
        },
        TokenKind::Str { lo, hi } => Some(
            Operand { kind: OperandKind::StrLit { lo, hi }, pos: t.pos },
        ),
        _ => None,
    }
}

/// Whether operand count and shapes fit the mnemonic.
fn shape_ok_x(m: Mnemonic, op1: &Option<Operand>, op2: &Option<Operand>) -> (r: bool)
    ensures
        r == shape_ok(m, *op1, *op2),
{
    match m {
        Mnemonic::Nop => op1.is_none() && op2.is_none(),
        Mnemonic::Halt => op1.is_none() && op2.is_none(),
        Mnemonic::Jmp => match (op1, op2) {
            (Some(a), None) => is_target_x(a),
            _ => false,
        },
        Mnemonic::Mov => match (op1, op2) {
            (Some(a), Some(b)) => is_dst_x(a) && is_src_x(b),
            _ => false,
        },
        Mnemonic::Add => match (op1, op2) {
            (Some(a), Some(b)) => is_dst_x(a) && is_src_x(b),
            _ => false,
        },
        Mnemonic::Sub => match (op1, op2) {
            (Some(a), Some(b)) => is_dst_x(a) && is_src_x(b),
            _ => false,
        },
        Mnemonic::Jz => match (op1, op2) {
            (Some(a), Some(b)) => is_dst_x(a) && is_target_x(b),
            _ => false,
        },
    }
}

fn is_dst_x(op: &Operand) -> (r: bool)
    ensures
        r == crate::ast::is_dst(*op),
{
    match op.kind {
        OperandKind::Reg { r } => true,
        _ => false,
    }
}

fn is_src_x(op: &Operand) -> (r: bool)
    ensures
        r == crate::ast::is_src(*op),
{
    match op.kind {
        OperandKind::Imm { v } => true,
        OperandKind::Reg { r } => true,
        OperandKind::LabelRef { lo, hi } => true,
        _ => false,
    }
}

fn is_target_x(op: &Operand) -> (r: bool)
    ensures
        r == crate::ast::is_target(*op),
{
    match op.kind {
        OperandKind::Imm { v } => true,
        OperandKind::LabelRef { lo, hi } => true,
        _ => false,
    }
}

fn dir_shape_ok_x(d: DirKind, op: &Operand) -> (r: bool)
    ensures
        r == dir_shape_ok(d, *op),
{
    match d {
        DirKind::Byte => matches!(op.kind, OperandKind::Imm { .. }),
        DirKind::Word => matches!(op.kind, OperandKind::Imm { .. })
            || matches!(op.kind, OperandKind::LabelRef { .. }),
        DirKind::Str => matches!(op.kind, OperandKind::StrLit { .. }),
    }
}

/// Parse the operand list beginning at token `j`.
fn parse_ops_x(src: &Vec<u8>, toks: &Vec<Token>, j: usize) -> (r: Result<
    (Option<Operand>, Option<Operand>, usize),
    CompileError,
>)
    requires
        j <= toks@.len(),
        forall|q: int| 0 <= q < toks@.len() ==> wf_token(#[trigger] toks@[q], src@.len()),
    ensures
        match r {
            Ok((a, b, c)) => {
                &&& parse_ops(src@, toks@, j as int) == Ok::<_, CompileError>((a, b, c as nat))
                &&& j + c <= toks@.len()
                &&& (a matches Some(op) ==> wf_operand(op, src@.len()))
                &&& (b matches Some(op) ==> wf_operand(op, src@.len()))
            },
            Err(e) => parse_ops(src@, toks@, j as int) == Err::<
                (Option<Operand>, Option<Operand>, nat),
                CompileError,
            >(e),
        },
{
    if j >= toks.len() {
        return Ok((None, None, 0));
    }
    let t0 = toks[j];
    if matches!(t0.kind, TokenKind::Newline) {
        return Ok((None, None, 1));
    }
    let a = match operand_x(src, t0) {
        None => {
            return Err(
                CompileError::ParseError { kind: ParseErrorKind::UnexpectedToken, pos: t0.pos },
            );
        },
        Some(a) => a,
    };
    if j + 1 >= toks.len() {
        return Ok((Some(a), None, 1));
    }
    let t1 = toks[j + 1];
    if matches!(t1.kind, TokenKind::Newline) {
        return Ok((Some(a), None, 2));
    }
    if !matches!(t1.kind, TokenKind::Comma) {
        return Err(CompileError::ParseError { kind: ParseErrorKind::UnexpectedToken, pos: t1.pos });
    }
    if j + 2 >= toks.len() {
        return Err(CompileError::ParseError { kind: ParseErrorKind::UnexpectedToken, pos: t1.pos });
    }
    let t2 = toks[j + 2];
    let b = match operand_x(src, t2) {
        None => {
            return Err(
                CompileError::ParseError { kind: ParseErrorKind::UnexpectedToken, pos: t2.pos },
            );
        },
        Some(b) => b,
    };
    if j + 3 >= toks.len() {
        return Ok((Some(a), Some(b), 3));
    }
    let t3 = toks[j + 3];
    if matches!(t3.kind, TokenKind::Newline) {
        return Ok((Some(a), Some(b), 4));
    }
    if matches!(t3.kind, TokenKind::Comma) {
        return Err(CompileError::ParseError { kind: ParseErrorKind::WrongArity, pos: t3.pos });
    }
    Err(CompileError::ParseError { kind: ParseErrorKind::UnexpectedToken, pos: t3.pos })
}

/// Parse a whole token sequence into a program. Returns the statement
/// sequence `spec_parse` gives, or the first grammar error; every returned
/// statement is well formed over the source.
pub fn parse(src: &Vec<u8>, toks: &Vec<Token>) -> (r: Result<Vec<Stmt>, CompileError>)
    requires
        forall|q: int| 0 <= q < toks@.len() ==> wf_token(#[trigger] toks@[q], src@.len()),
    ensures
        match r {
            Ok(prog) => Ok::<Seq<Stmt>, CompileError>(prog@) == spec_parse(src@, toks@) && wf_prog(
                prog@,
                src@.len(),
            ),
            Err(e) => Err::<Seq<Stmt>, CompileError>(e) == spec_parse(src@, toks@),
        },
{
    let mut prog: Vec<Stmt> = Vec::new();
    let mut k: usize = 0;
    while k < toks.len()
        invariant
            k <= toks@.len(),
            forall|q: int| 0 <= q < toks@.len() ==> wf_token(#[trigger] toks@[q], src@.len()),
            spec_parse(src@, toks@) == spec_parse_at(src@, toks@, k as int, prog@),
            forall|q: int| 0 <= q < prog@.len() ==> wf_stmt(#[trigger] prog@[q], src@.len()),
        decreases toks@.len() - k,
    {
        let t = toks[k];
        match t.kind {
            TokenKind::Newline => {
                k = k + 1;
            },
            TokenKind::Ident { lo, hi } => {
                if k + 1 < toks.len() && matches!(toks[k + 1].kind, TokenKind::Colon) {
                    let st = Stmt { kind: StmtKind::Label { lo, hi }, pos: t.pos };
                    if k + 2 >= toks.len() {
                        prog.push(st);
                        k = k + 2;
                    } else if matches!(toks[k + 2].kind, TokenKind::Newline) {
                        prog.push(st);
                        k = k + 3;
                    } else {
                        return Err(
                            CompileError::ParseError {
                                kind: ParseErrorKind::UnexpectedToken,
                                pos: toks[k + 2].pos,
                            },
                        );
                    }
                } else {
                    match mn_lookup(src, lo, hi) {
                        None => {
                            return Err(
                                CompileError::ParseError {
                                    kind: ParseErrorKind::UnknownMnemonic,
                                    pos: t.pos,
                                },
                            );
                        },
                        Some(m) => {
                            match parse_ops_x(src, toks, k + 1) {
                                Err(e) => {
                                    return Err(e);
                                },
                                Ok((op1, op2, c)) => {
                                    if shape_ok_x(m, &op1, &op2) {
                                        prog.push(
                                            Stmt { kind: StmtKind::Instr { m, op1, op2 }, pos: t.pos },
                                        );
                                        k = k + 1 + c;
                                    } else {
                                        return Err(
                                            CompileError::ParseError {
                                                kind: ParseErrorKind::WrongArity,
                                                pos: t.pos,
                                            },
                                        );
                                    }
                                },
                            }
                        },
                    }
                }
            },
            TokenKind::Directive { lo, hi } => {
                match dir_lookup(src, lo, hi) {
                    None => {
                        return Err(
                            CompileError::ParseError {
                                kind: ParseErrorKind::UnknownDirective,
                                pos: t.pos,
                            },
                        );
                    },
                    Some(d) => {
                        match parse_ops_x(src, toks, k + 1) {
                            Err(e) => {
                                return Err(e);
                            },
                            Ok((op1, op2, c)) => {
                                match op1 {
                                    Some(op) => {
                                        if op2.is_none() && dir_shape_ok_x(d, &op) {
                                            prog.push(
                                                Stmt { kind: StmtKind::Dir { d, op }, pos: t.pos },
                                            );
                                            k = k + 1 + c;
                                        } else {
                                            return Err(
                                                CompileError::ParseError {
                                                    kind: ParseErrorKind::WrongArity,
                                                    pos: t.pos,
                                                },
                                            );
                                        }
                                    },
                                    None => {
                                        return Err(
                                            CompileError::ParseError {
                                                kind: ParseErrorKind::WrongArity,
                                                pos: t.pos,
                                            },
                                        );
                                    },
                                }
                            },
                        }
                    },
                }
            },
            _ => {
                return Err(
                    CompileError::ParseError { kind: ParseErrorKind::UnexpectedToken, pos: t.pos },
                );
            },
        }
    }
    Ok(prog)
}

} // verus!
