//! The encoder: serializes a resolved program into the binary byte stream.
//!
//! Every operand encodes as a mode tag (0 immediate, 1 register, 2
//! address) followed by its 16-bit value, little endian. The encoder
//! checks each statement's emitted size against the size the resolver
//! computed and fails loudly on a mismatch; verification proves that this
//! fault cannot occur, so `encode` always succeeds.

use vstd::prelude::*;
use crate::ast::{
    CompileError, Mnemonic, ResOpKind, ResOperand, ResStmt, Stmt, SymEntry, opcode, wf_prog,
    wf_res_prog, wf_res_stmt, wf_stmt,
};
use crate::lexer::{string_content, unescape};
use crate::resolver::{
    prog_size, res_val, resolve_stmt, spec_resolve, spec_resolve_at, stmt_size,
};

verus! {

/// The mode tag of a resolved operand.
pub open spec fn mode_tag(r: ResOperand) -> u8 {
    match r.kind {
        ResOpKind::Imm { v } => 0,
        ResOpKind::Reg { r } => 1,
        ResOpKind::Addr { a } => 2,
    }
}

/// The three bytes of a resolved operand: mode tag, then the value little
/// endian.
pub open spec fn enc_op(r: ResOperand) -> Seq<u8> {
    seq![mode_tag(r), (res_val(r) % 256) as u8, ((res_val(r) / 256) % 256) as u8]
}

/// The bytes of one resolved statement.
pub open spec fn enc_stmt(src: Seq<u8>, rs: ResStmt) -> Seq<u8> {
    match rs {
        ResStmt::RInstr { m, op1, op2 } => seq![opcode(m)] + (match op1 {
            None => Seq::<u8>::empty(),
            Some(a) => enc_op(a),
        }) + (match op2 {
            None => Seq::<u8>::empty(),
            Some(b) => enc_op(b),
        }),
        ResStmt::RByte { op } => seq![(res_val(op) % 256) as u8],
        ResStmt::RWord { op } => seq![(res_val(op) % 256) as u8, ((res_val(op) / 256) % 256) as u8],
        ResStmt::RString { lo, hi } => unescape(src.subrange(lo as int, hi as int)),
    }
}

/// The byte size a resolved statement must emit; `encode` holds each
/// statement to it.
pub open spec fn res_size(src: Seq<u8>, rs: ResStmt) -> nat {
    match rs {
        ResStmt::RInstr { m, op1, op2 } => (1int + (match op1 {
            None => 0int,
            Some(a) => 3int,
        }) + (match op2 {
            None => 0int,
            Some(b) => 3int,
        })) as nat,
        ResStmt::RByte { op } => 1,
        ResStmt::RWord { op } => 2,
        ResStmt::RString { lo, hi } => unescape(src.subrange(lo as int, hi as int)).len(),
    }
}

/// The encoder emits for each statement exactly the size the resolver
/// accounted for it.
pub proof fn lemma_enc_stmt_len(src: Seq<u8>, rs: ResStmt)
    ensures
        enc_stmt(src, rs).len() == res_size(src, rs),
{
}

/// The binary of the resolved program from statement `k` on, appended to
/// `acc`.
pub open spec fn spec_encode_at(src: Seq<u8>, rprog: Seq<ResStmt>, k: int, acc: Seq<u8>) -> Seq<u8>
    decreases rprog.len() - k,
{
    if k < 0 || k >= rprog.len() {
        acc
    } else {
        spec_encode_at(src, rprog, k + 1, acc + enc_stmt(src, rprog[k]))
    }
}

/// The binary byte sequence of a resolved program.
pub open spec fn spec_encode(src: Seq<u8>, rprog: Seq<ResStmt>) -> Seq<u8> {
    spec_encode_at(src, rprog, 0, Seq::empty())
}

/// Sum of the sizes owed to the resolved statements from `k` on.
pub open spec fn res_prog_size(src: Seq<u8>, rprog: Seq<ResStmt>, k: int) -> nat
    decreases rprog.len() - k,
{
    if k < 0 || k >= rprog.len() {
        0
    } else {
        res_size(src, rprog[k]) + res_prog_size(src, rprog, k + 1)
    }
}

proof fn lemma_res_prog_size_push(src: Seq<u8>, s: Seq<ResStmt>, rs: ResStmt, k: int)
    requires
        0 <= k <= s.len(),
    ensures
        res_prog_size(src, s.push(rs), k) == res_prog_size(src, s, k) + res_size(src, rs),
    decreases s.len() - k,
{
    if k == s.len() {
        assert(s.push(rs)[k] == rs);
        assert(res_prog_size(src, s.push(rs), k + 1) == 0);
        assert(res_prog_size(src, s, k) == 0);
    } else {
        assert(s.push(rs)[k] == s[k]);
        lemma_res_prog_size_push(src, s, rs, k + 1);
    }
}

proof fn lemma_encode_len_at(src: Seq<u8>, rprog: Seq<ResStmt>, k: int, acc: Seq<u8>)
    requires
        0 <= k <= rprog.len(),
    ensures
        spec_encode_at(src, rprog, k, acc).len() == acc.len() + res_prog_size(src, rprog, k),
    decreases rprog.len() - k,
{
    if k < rprog.len() {
        lemma_enc_stmt_len(src, rprog[k]);
        lemma_encode_len_at(src, rprog, k + 1, acc + enc_stmt(src, rprog[k]));
    }
}

/// The binary is exactly as long as the sizes owed to its statements.
pub proof fn lemma_encode_len(src: Seq<u8>, rprog: Seq<ResStmt>)
    ensures
        spec_encode(src, rprog).len() == res_prog_size(src, rprog, 0),
{
    lemma_encode_len_at(src, rprog, 0, Seq::empty());
}

/// Resolution keeps each statement's size: what a well-formed statement
/// resolves to is owed exactly the bytes pass 1 accounted for it.
proof fn lemma_resolve_stmt_size(src: Seq<u8>, tab: Seq<SymEntry>, st: Stmt)
    requires
        wf_stmt(st, src.len()),
        resolve_stmt(src, tab, st) is Ok,
    ensures
        match resolve_stmt(src, tab, st)->Ok_0 {
            None => stmt_size(src, st) == 0,
            Some(rs) => res_size(src, rs) == stmt_size(src, st),
        },
{
}

proof fn lemma_resolve_sizes_at(
    src: Seq<u8>,
    prog: Seq<Stmt>,
    tab: Seq<SymEntry>,
    k: int,
    acc: Seq<ResStmt>,
)
    requires
        wf_prog(prog, src.len()),
        0 <= k <= prog.len(),
        spec_resolve_at(src, prog, tab, k, acc) is Ok,
    ensures
        res_prog_size(src, spec_resolve_at(src, prog, tab, k, acc)->Ok_0, 0) == res_prog_size(
            src,
            acc,
            0,
        ) + prog_size(src, prog, k),
    decreases prog.len() - k,
{
    if k < prog.len() {
        lemma_resolve_stmt_size(src, tab, prog[k]);
        match resolve_stmt(src, tab, prog[k]) {
            Err(e) => {},
            Ok(None) => {
                lemma_resolve_sizes_at(src, prog, tab, k + 1, acc);
            },
            Ok(Some(rs)) => {
                lemma_res_prog_size_push(src, acc, rs, 0);
                lemma_resolve_sizes_at(src, prog, tab, k + 1, acc.push(rs));
            },
        }
    }
}

/// Internal consistency of the two size computations: the encoded binary
/// of a resolved program is exactly as long as the sum of the statement
/// sizes pass 1 assigned - the encoder and the resolver can never
/// disagree on a statement's size.
pub proof fn lemma_sizes_consistent(src: Seq<u8>, prog: Seq<Stmt>, tab: Seq<SymEntry>)
    requires
        wf_prog(prog, src.len()),
        spec_resolve(src, prog, tab) is Ok,
    ensures
        spec_encode(src, spec_resolve(src, prog, tab)->Ok_0).len() == prog_size(src, prog, 0),
{
    lemma_encode_len(src, spec_resolve(src, prog, tab)->Ok_0);
    lemma_resolve_sizes_at(src, prog, tab, 0, Seq::empty());
}

/// The opcode byte of a mnemonic.
fn opcode_x(m: Mnemonic) -> (b: u8)
    ensures
        b == opcode(m),
{
    match m {
        Mnemonic::Nop => 0,
        Mnemonic::Halt => 1,
        Mnemonic::Mov => 2,
        Mnemonic::Add => 3,
        Mnemonic::Sub => 4,
        Mnemonic::Jmp => 5,
        Mnemonic::Jz => 6,
    }
}

/// Append the three bytes of a resolved operand.
fn push_op(out: &mut Vec<u8>, r: &ResOperand)
    ensures
        final(out)@ == old(out)@ + enc_op(*r),
{
    let tag: u8 = match r.kind {
        ResOpKind::Imm { v } => 0,
        ResOpKind::Reg { r } => 1,
        ResOpKind::Addr { a } => 2,
    };
    let v = match r.kind {
        ResOpKind::Imm { v } => v,
        ResOpKind::Reg { r } => r,
        ResOpKind::Addr { a } => a,
    };
    out.push(tag);
    out.push((v % 256) as u8);
    out.push(((v / 256) % 256) as u8);
    proof {
        assert(out@ =~= old(out)@ + enc_op(*r));
    }
}

/// The bytes of one resolved statement.
fn enc_stmt_x(src: &Vec<u8>, rs: &ResStmt) -> (out: Vec<u8>)
    requires
        wf_res_stmt(*rs, src@.len()),
    ensures
        out@ == enc_stmt(src@, *rs),
{
    match rs {
        ResStmt::RInstr { m, op1, op2 } => {
            let mut out: Vec<u8> = Vec::new();
            out.push(opcode_x(*m));
            match op1 {
                None => {},
                Some(a) => push_op(&mut out, a),
            }
            match op2 {
                None => {},
                Some(b) => push_op(&mut out, b),
            }
            proof {
                assert(out@ =~= enc_stmt(src@, *rs));
            }
            out
        },
        ResStmt::RByte { op } => {
            let mut out: Vec<u8> = Vec::new();
            let v = res_val_local(op);
            out.push((v % 256) as u8);
            proof {
                assert(out@ =~= enc_stmt(src@, *rs));
            }
            out
        },
        ResStmt::RWord { op } => {
            let mut out: Vec<u8> = Vec::new();
            let v = res_val_local(op);
            out.push((v % 256) as u8);
            out.push(((v / 256) % 256) as u8);
            proof {
                assert(out@ =~= enc_stmt(src@, *rs));
            }
            out
        },
        ResStmt::RString { lo, hi } => string_content(src, *lo, *hi),
    }
}

fn res_val_local(r: &ResOperand) -> (v: u64)
    ensures
        v == res_val(*r),
{
    match r.kind {
        ResOpKind::Imm { v } => v,
        ResOpKind::Reg { r } => r,
        ResOpKind::Addr { a } => a,
    }
}

/// The size the resolver accounts for a resolved statement.
fn res_size_x(src: &Vec<u8>, rs: &ResStmt) -> (sz: u64)
    requires
        wf_res_stmt(*rs, src@.len()),
    ensures
        sz == res_size(src@, *rs),
{
    match rs {
        ResStmt::RInstr { m, op1, op2 } => {
            let a: u64 = match op1 {
                None => 0,
                Some(x) => 3,
            };
            let b: u64 = match op2 {
                None => 0,
                Some(x) => 3,
            };
            1 + a + b
        },
        ResStmt::RByte { op } => 1,
        ResStmt::RWord { op } => 2,
        ResStmt::RString { lo, hi } => {
            let content = string_content(src, *lo, *hi);
            content.len() as u64
        },
    }
}

/// Encode a resolved program. Each statement's emitted bytes are checked
/// against the size the resolver computed; a mismatch would return
/// `InternalFault`, and verification proves it never happens, so the
/// result is always the binary `spec_encode` gives.
pub fn encode(src: &Vec<u8>, rprog: &Vec<ResStmt>) -> (r: Result<Vec<u8>, CompileError>)
    requires
        wf_res_prog(rprog@, src@.len()),
    ensures
        r matches Ok(bytes) && bytes@ == spec_encode(src@, rprog@),
{
    let mut out: Vec<u8> = Vec::new();
    let mut k: usize = 0;
    while k < rprog.len()
        invariant
            wf_res_prog(rprog@, src@.len()),
            0 <= k <= rprog@.len(),
            spec_encode(src@, rprog@) == spec_encode_at(src@, rprog@, k as int, out@),
        decreases rprog@.len() - k,
    {
        let rs = rprog[k];
        let mut chunk = enc_stmt_x(src, &rs);
        let expected = res_size_x(src, &rs);
        proof {
            lemma_enc_stmt_len(src@, rs);
        }
        if chunk.len() as u64 != expected {
            return Err(CompileError::InternalFault);
        }
        out.append(&mut chunk);
        k = k + 1;
    }
    Ok(out)
}

} // verus!
