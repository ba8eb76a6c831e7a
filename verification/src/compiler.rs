//! The compiler: the single public entry point, and the whitelist
//! enforcer.
//!
//! `Compiler::compile` runs the whole pipeline - lexer, parser, whitelist
//! enforcement, two-pass resolution, range checking, encoding, symbol
//! emission - and is proved to return exactly the value of the
//! mathematical function `spec_compile` of the source bytes and the
//! whitelist. The pipeline is fail-fast: the first error of any stage is
//! the result.

use vstd::prelude::*;
use crate::ast::{CompileError, Stmt, StmtKind, mn_name};
use crate::lexer::{lex, spec_lex};
use crate::parser::{mn_name_vec, parse, spec_parse};
use crate::resolver::{
    pass1, range_check, resolve, spec_pass1, spec_range_check, spec_resolve,
};
use crate::encoder::{encode, spec_encode};
use crate::emitter::{emit_symbols, spec_symtext};

verus! {

/// The view of a whitelist: each entry as its byte sequence.
pub open spec fn wl_view(wl: Seq<Vec<u8>>) -> Seq<Seq<u8>> {
    wl.map_values(|v: Vec<u8>| v@)
}

/// The view of an optional whitelist.
pub open spec fn wl_model(wlo: Option<Vec<Vec<u8>>>) -> Option<Seq<Seq<u8>>> {
    match wlo {
        None => None,
        Some(w) => Some(wl_view(w@)),
    }
}

/// Whether a whitelist permits a mnemonic name.
pub open spec fn wl_allows(wl: Seq<Seq<u8>>, name: Seq<u8>) -> bool {
    exists|j: int| 0 <= j < wl.len() && wl[j] == name
}

/// An instruction statement whose mnemonic the whitelist does not permit.
pub open spec fn stmt_disallowed(st: Stmt, wl: Seq<Seq<u8>>) -> bool {
    st.kind matches StmtKind::Instr { m, op1, op2 } && !wl_allows(wl, mn_name(m))
}

/// Whitelist enforcement from statement `k` on: fail at the first
/// instruction in program order whose mnemonic is outside the whitelist.
pub open spec fn spec_wl_check_at(prog: Seq<Stmt>, wl: Seq<Seq<u8>>, k: int) -> Result<
    (),
    CompileError,
>
    decreases prog.len() - k,
{
    if k < 0 || k >= prog.len() {
        Ok(())
    } else {
        match prog[k].kind {
            StmtKind::Instr { m, op1, op2 } => {
                if !wl_allows(wl, mn_name(m)) {
                    Err(CompileError::DisallowedInstruction { m, pos: prog[k].pos })
                } else {
                    spec_wl_check_at(prog, wl, k + 1)
                }
            },
            _ => spec_wl_check_at(prog, wl, k + 1),
        }
    }
}

/// Whitelist enforcement: with no whitelist every mnemonic is permitted;
/// with one, the first instruction outside it fails the compilation.
pub open spec fn spec_wl_check(prog: Seq<Stmt>, wlo: Option<Seq<Seq<u8>>>) -> Result<
    (),
    CompileError,
> {
    match wlo {
        None => Ok(()),
        Some(wl) => spec_wl_check_at(prog, wl, 0),
    }
}

/// The compilation function: the binary bytes and the symbol text of the
/// source, or its first error, under an optional whitelist.
pub open spec fn spec_compile(src: Seq<u8>, wlo: Option<Seq<Seq<u8>>>) -> Result<
    (Seq<u8>, Seq<u8>),
    CompileError,
> {
    match spec_lex(src) {
        Err(e) => Err(e),
        Ok(toks) => match spec_parse(src, toks) {
            Err(e) => Err(e),
            Ok(prog) => match spec_wl_check(prog, wlo) {
                Err(e) => Err(e),
                Ok(u0) => match spec_pass1(src, prog) {
                    Err(e) => Err(e),
                    Ok(tab) => match spec_resolve(src, prog, tab) {
                        Err(e) => Err(e),
                        Ok(rp) => match spec_range_check(rp) {
                            Err(e) => Err(e),
                            Ok(u1) => Ok((spec_encode(src, rp), spec_symtext(src, tab))),
                        },
                    },
                },
            },
        },
    }
}

/// Whether two byte vectors hold the same bytes.
fn bytes_eq(a: &Vec<u8>, b: &Vec<u8>) -> (r: bool)
    ensures
        r == (a@ == b@),
{
    if a.len() != b.len() {
        proof {
            assert(a@ != b@);
        }
        return false;
    }
    let mut i: usize = 0;
    while i < a.len()
        invariant
            a@.len() == b@.len(),
            0 <= i <= a@.len(),
            forall|q: int| 0 <= q < i ==> a@[q] == b@[q],
        decreases a@.len() - i,
    {
        if a[i] != b[i] {
            return false;
        }
        i = i + 1;
    }
    proof {
        assert(a@ =~= b@);
    }
    true
}

/// Whether the whitelist permits the name.
fn wl_member(wl: &Vec<Vec<u8>>, name: &Vec<u8>) -> (r: bool)
    ensures
        r == wl_allows(wl_view(wl@), name@),
{
    let mut j: usize = 0;
    while j < wl.len()
        invariant
            0 <= j <= wl@.len(),
            forall|q: int| 0 <= q < j ==> wl_view(wl@)[q] != name@,
        decreases wl@.len() - j,
    {
        if bytes_eq(&wl[j], name) {
            proof {
                assert(wl_view(wl@)[j as int] == wl@[j as int]@);
            }
            return true;
        }
        proof {
            assert(wl_view(wl@)[j as int] == wl@[j as int]@);
        }
        j = j + 1;
    }
    false
}

/// Enforce an optional whitelist over a program.
fn wl_check_x(prog: &Vec<Stmt>, wlo: &Option<Vec<Vec<u8>>>) -> (r: Result<(), CompileError>)
    ensures
        match r {
            Ok(u) => Ok::<(), CompileError>(()) == spec_wl_check(prog@, wl_model(*wlo)),
            Err(e) => Err::<(), CompileError>(e) == spec_wl_check(prog@, wl_model(*wlo)),
        },
{
    match wlo {
        None => Ok(()),
        Some(wl) => {
            let mut k: usize = 0;
            while k < prog.len()
                invariant
                    0 <= k <= prog@.len(),
                    wl_model(*wlo) == Some(wl_view(wl@)),
                    spec_wl_check_at(prog@, wl_view(wl@), 0) == spec_wl_check_at(
                        prog@,
                        wl_view(wl@),
                        k as int,
                    ),
                decreases prog@.len() - k,
            {
                let st = prog[k];
                match st.kind {
                    StmtKind::Instr { m, op1, op2 } => {
                        let name = mn_name_vec(m);
                        if !wl_member(wl, &name) {
                            return Err(
                                CompileError::DisallowedInstruction { m, pos: st.pos },
                            );
                        }
                    },
                    _ => {},
                }
                k = k + 1;
            }
            Ok(())
        },
    }
}

/// The compiler. It holds no state: each compilation is a single call.
pub struct Compiler;

impl Compiler {
    /// Compile a source program under an optional whitelist of permitted
    /// mnemonics. On success the result holds the binary byte stream and
    /// the symbol text; on failure, the first error of the pipeline. The
    /// result is exactly `spec_compile` of the inputs.
    pub fn compile(source: &Vec<u8>, whitelist: Option<Vec<Vec<u8>>>) -> (r: Result<
        (Vec<u8>, Vec<u8>),
        CompileError,
    >)
        ensures
            match r {
                Ok(out) => Ok::<(Seq<u8>, Seq<u8>), CompileError>((out.0@, out.1@)) == spec_compile(
                    source@,
                    wl_model(whitelist),
                ),
                Err(e) => Err::<(Seq<u8>, Seq<u8>), CompileError>(e) == spec_compile(
                    source@,
                    wl_model(whitelist),
                ),
            },
    {
        let toks = match lex(source) {
            Err(e) => {
                return Err(e);
            },
            Ok(t) => t,
        };
        let prog = match parse(source, &toks) {
            Err(e) => {
                return Err(e);
            },
            Ok(p) => p,
        };
        match wl_check_x(&prog, &whitelist) {
            Err(e) => {
                return Err(e);
            },
            Ok(u) => {},
        }
        let tab = match pass1(source, &prog) {
            Err(e) => {
                return Err(e);
            },
            Ok(t) => t,
        };
        let rp = match resolve(source, &prog, &tab) {
            Err(e) => {
                return Err(e);
            },
            Ok(rp) => rp,
        };
        match range_check(&rp) {
            Err(e) => {
                return Err(e);
            },
            Ok(u) => {},
        }
        let bytes = match encode(source, &rp) {
            Err(e) => {
                return Err(CompileError::InternalFault);
            },
            Ok(b) => b,
        };
        let symtext = emit_symbols(source, &tab);
        Ok((bytes, symtext))
    }
}

/// With no whitelist supplied, enforcement is skipped: it permits every
/// program.
pub proof fn lemma_no_whitelist_permits(prog: Seq<Stmt>)
    ensures
        spec_wl_check(prog, None) == Ok::<(), CompileError>(()),
{
}

/// With a whitelist supplied, a program holding an instruction outside it
/// always fails enforcement with a disallowed-instruction error.
pub proof fn lemma_whitelist_rejects(prog: Seq<Stmt>, wl: Seq<Seq<u8>>)
    requires
        exists|k: int| 0 <= k < prog.len() && stmt_disallowed(#[trigger] prog[k], wl),
    ensures
        spec_wl_check(prog, Some(wl)) matches Err(CompileError::DisallowedInstruction { m, pos }),
{
    lemma_whitelist_rejects_at(prog, wl, 0);
}

proof fn lemma_whitelist_rejects_at(prog: Seq<Stmt>, wl: Seq<Seq<u8>>, k: int)
    requires
        0 <= k <= prog.len(),
        exists|j: int| k <= j < prog.len() && stmt_disallowed(#[trigger] prog[j], wl),
    ensures
        spec_wl_check_at(prog, wl, k) matches Err(CompileError::DisallowedInstruction { m, pos }),
    decreases prog.len() - k,
{
    let j = choose|j: int| k <= j < prog.len() && stmt_disallowed(#[trigger] prog[j], wl);
    if j == k {
    } else {
        match prog[k].kind {
            StmtKind::Instr { m, op1, op2 } => {
                if wl_allows(wl, mn_name(m)) {
                    lemma_whitelist_rejects_at(prog, wl, k + 1);
                }
            },
            _ => {
                lemma_whitelist_rejects_at(prog, wl, k + 1);
            },
        }
    }
}

/// With a whitelist supplied, a program whose every instruction is inside
/// it passes enforcement.
pub proof fn lemma_whitelist_permits(prog: Seq<Stmt>, wl: Seq<Seq<u8>>)
    requires
        forall|k: int| 0 <= k < prog.len() ==> !stmt_disallowed(#[trigger] prog[k], wl),
    ensures
        spec_wl_check(prog, Some(wl)) == Ok::<(), CompileError>(()),
{
    lemma_whitelist_permits_at(prog, wl, 0);
}

proof fn lemma_whitelist_permits_at(prog: Seq<Stmt>, wl: Seq<Seq<u8>>, k: int)
    requires
        0 <= k <= prog.len(),
        forall|q: int| 0 <= q < prog.len() ==> !stmt_disallowed(#[trigger] prog[q], wl),
    ensures
        spec_wl_check_at(prog, wl, k) == Ok::<(), CompileError>(()),
    decreases prog.len() - k,
{
    if k < prog.len() {
        lemma_whitelist_permits_at(prog, wl, k + 1);
    }
}

/// Round-trip determinism: compiling the same source text under the same
/// whitelist twice gives byte-identical binary output and identical
/// symbol text, since both results equal one mathematical function of the
/// inputs.
pub proof fn lemma_compile_deterministic(
    src: Seq<u8>,
    wlo: Option<Seq<Seq<u8>>>,
    r1: Result<(Seq<u8>, Seq<u8>), CompileError>,
    r2: Result<(Seq<u8>, Seq<u8>), CompileError>,
)
    requires
        r1 == spec_compile(src, wlo),
        r2 == spec_compile(src, wlo),
    ensures
        r1 == r2,
{
}

/// Symbol emission is deterministic: two renderings of the same symbol
/// table over the same source are identical.
pub proof fn lemma_symtext_deterministic(
    src: Seq<u8>,
    tab: Seq<crate::ast::SymEntry>,
    t1: Seq<u8>,
    t2: Seq<u8>,
)
    requires
        t1 == spec_symtext(src, tab),
        t2 == spec_symtext(src, tab),
    ensures
        t1 == t2,
{
}

} // verus!
