//! The symbol resolver: two-pass address assignment and reference
//! resolution, followed by range checking.
//!
//! Pass 1 (`pass1`) walks the program in order, keeping a running address
//! cursor from base address 0; it records each label definition and fails
//! on a duplicate name or when a statement would push the cursor past the
//! 16-bit address space. Pass 2 first binds every label reference to its
//! address (`resolve`, failing on an undefined name), then validates that
//! every concrete value fits the width its encoding gives it
//! (`range_check`).

use vstd::prelude::*;
use crate::ast::{
    CompileError, DirKind, Mnemonic, Operand, OperandKind, ResOpKind, ResOperand, ResStmt, Stmt,
    StmtKind, SymEntry, arity, wf_prog, wf_res_prog, wf_stmt, wf_table,
};
use crate::lexer::unescape;
use crate::lexer::string_content;

verus! {

/// The size of the address space: addresses are 16 bits wide, and a
/// program's statements must fit below this bound.
pub const ADDR_SPACE: u64 = 65536;

/// The byte size of a statement: nothing for a label, opcode plus three
/// bytes per operand for an instruction, and the emitted data for a
/// directive.
pub open spec fn stmt_size(src: Seq<u8>, st: Stmt) -> nat {
    match st.kind {
        StmtKind::Label { lo, hi } => 0,
        StmtKind::Instr { m, op1, op2 } => 1 + 3 * arity(m),
        StmtKind::Dir { d, op } => match d {
            DirKind::Byte => 1,
            DirKind::Word => 2,
            DirKind::Str => match op.kind {
                OperandKind::StrLit { lo, hi } => unescape(
                    src.subrange(lo as int, hi as int),
                ).len(),
                _ => 0,
            },
        },
    }
}

/// The name a label-definition statement defines, if any.
pub open spec fn label_of(src: Seq<u8>, st: Stmt) -> Option<Seq<u8>> {
    match st.kind {
        StmtKind::Label { lo, hi } => Some(src.subrange(lo as int, hi as int)),
        _ => None,
    }
}

/// The address of the first entry of the table carrying the given name.
pub open spec fn tab_lookup(src: Seq<u8>, tab: Seq<SymEntry>, name: Seq<u8>) -> Option<u64>
    decreases tab.len(),
{
    if tab.len() == 0 {
        None
    } else if src.subrange(tab[0].lo as int, tab[0].hi as int) == name {
        Some(tab[0].addr)
    } else {
        tab_lookup(src, tab.drop_first(), name)
    }
}

/// Pass 1 from statement `k` on: assign addresses, record label
/// definitions, fail on a duplicate name or when the cursor would leave
/// the address space.
pub open spec fn spec_pass1_at(
    src: Seq<u8>,
    prog: Seq<Stmt>,
    k: int,
    cursor: u64,
    tab: Seq<SymEntry>,
) -> Result<Seq<SymEntry>, CompileError>
    decreases prog.len() - k,
{
    if k < 0 || k >= prog.len() {
        Ok(tab)
    } else {
        let st = prog[k];
        match st.kind {
            StmtKind::Label { lo, hi } => {
                if tab_lookup(src, tab, src.subrange(lo as int, hi as int)) is Some {
                    Err(CompileError::DuplicateSymbol { lo, hi, pos: st.pos })
                } else {
                    spec_pass1_at(
                        src,
                        prog,
                        k + 1,
                        cursor,
                        tab.push(SymEntry { lo, hi, addr: cursor }),
                    )
                }
            },
            _ => {
                let sz = stmt_size(src, st);
                if cursor + sz > ADDR_SPACE {
                    Err(CompileError::EncodingRange { value: sz as u64, pos: st.pos })
                } else {
                    spec_pass1_at(src, prog, k + 1, (cursor + sz) as u64, tab)
                }
            },
        }
    }
}

/// The symbol table of a program, or its first pass-1 error.
pub open spec fn spec_pass1(src: Seq<u8>, prog: Seq<Stmt>) -> Result<Seq<SymEntry>, CompileError> {
    spec_pass1_at(src, prog, 0, 0, Seq::empty())
}

/// A resolved operand: an immediate or register value stands, a label
/// reference becomes the address its name is bound to.
pub open spec fn resolve_op(src: Seq<u8>, tab: Seq<SymEntry>, op: Operand) -> Result<
    ResOperand,
    CompileError,
> {
    match op.kind {
        OperandKind::Imm { v } => Ok(ResOperand { kind: ResOpKind::Imm { v }, pos: op.pos }),
        OperandKind::Reg { r } => Ok(ResOperand { kind: ResOpKind::Reg { r }, pos: op.pos }),
        OperandKind::LabelRef { lo, hi } => match tab_lookup(
            src,
            tab,
            src.subrange(lo as int, hi as int),
        ) {
            None => Err(CompileError::UndefinedSymbol { lo, hi, pos: op.pos }),
            Some(a) => Ok(ResOperand { kind: ResOpKind::Addr { a }, pos: op.pos }),
        },
        OperandKind::StrLit { lo, hi } => Err(CompileError::InternalFault),
    }
}

/// A resolved statement; a label definition resolves to nothing.
pub open spec fn resolve_stmt(src: Seq<u8>, tab: Seq<SymEntry>, st: Stmt) -> Result<
    Option<ResStmt>,
    CompileError,
> {
    match st.kind {
        StmtKind::Label { lo, hi } => Ok(None),
        StmtKind::Instr { m, op1, op2 } => match op1 {
            None => Ok(Some(ResStmt::RInstr { m, op1: None, op2: None })),
            Some(a) => match resolve_op(src, tab, a) {
                Err(e) => Err(e),
                Ok(ra) => match op2 {
                    None => Ok(Some(ResStmt::RInstr { m, op1: Some(ra), op2: None })),
                    Some(b) => match resolve_op(src, tab, b) {
                        Err(e) => Err(e),
                        Ok(rb) => Ok(Some(ResStmt::RInstr { m, op1: Some(ra), op2: Some(rb) })),
                    },
                },
            },
        },
        StmtKind::Dir { d, op } => match d {
            DirKind::Byte => match resolve_op(src, tab, op) {
                Err(e) => Err(e),
                Ok(r) => Ok(Some(ResStmt::RByte { op: r })),
            },
            DirKind::Word => match resolve_op(src, tab, op) {
                Err(e) => Err(e),
                Ok(r) => Ok(Some(ResStmt::RWord { op: r })),
            },
            DirKind::Str => match op.kind {
                OperandKind::StrLit { lo, hi } => Ok(Some(ResStmt::RString { lo, hi })),
                _ => Err(CompileError::InternalFault),
            },
        },
    }
}

/// Reference resolution from statement `k` on, appended to `acc`.
pub open spec fn spec_resolve_at(
    src: Seq<u8>,
    prog: Seq<Stmt>,
    tab: Seq<SymEntry>,
    k: int,
    acc: Seq<ResStmt>,
) -> Result<Seq<ResStmt>, CompileError>
    decreases prog.len() - k,
{
    if k < 0 || k >= prog.len() {
        Ok(acc)
    } else {
        match resolve_stmt(src, tab, prog[k]) {
            Err(e) => Err(e),
            Ok(None) => spec_resolve_at(src, prog, tab, k + 1, acc),
            Ok(Some(rs)) => spec_resolve_at(src, prog, tab, k + 1, acc.push(rs)),
        }
    }
}

/// The resolved program, or its first undefined-symbol error.
pub open spec fn spec_resolve(src: Seq<u8>, prog: Seq<Stmt>, tab: Seq<SymEntry>) -> Result<
    Seq<ResStmt>,
    CompileError,
> {
    spec_resolve_at(src, prog, tab, 0, Seq::empty())
}

/// The concrete value a resolved operand carries.
pub open spec fn res_val(r: ResOperand) -> u64 {
    match r.kind {
        ResOpKind::Imm { v } => v,
        ResOpKind::Reg { r } => r,
        ResOpKind::Addr { a } => a,
    }
}

/// A resolved operand fits its two-byte encoding.
pub open spec fn check_op(r: ResOperand) -> Result<(), CompileError> {
    if res_val(r) > 65535 {
        Err(CompileError::EncodingRange { value: res_val(r), pos: r.pos })
    } else {
        Ok(())
    }
}

/// Every value of a resolved statement fits the width its encoding gives
/// it.
pub open spec fn check_stmt(rs: ResStmt) -> Result<(), CompileError> {
    match rs {
        ResStmt::RInstr { m, op1, op2 } => match op1 {
            None => Ok(()),
            Some(a) => match check_op(a) {
                Err(e) => Err(e),
                Ok(u) => match op2 {
                    None => Ok(()),
                    Some(b) => check_op(b),
                },
            },
        },
        ResStmt::RByte { op } => if res_val(op) > 255 {
            Err(CompileError::EncodingRange { value: res_val(op), pos: op.pos })
        } else {
            Ok(())
        },
        ResStmt::RWord { op } => check_op(op),
        ResStmt::RString { lo, hi } => Ok(()),
    }
}

/// Range checking from statement `k` on.
pub open spec fn spec_range_check_at(rprog: Seq<ResStmt>, k: int) -> Result<(), CompileError>
    decreases rprog.len() - k,
{
    if k < 0 || k >= rprog.len() {
        Ok(())
    } else {
        match check_stmt(rprog[k]) {
            Err(e) => Err(e),
            Ok(u) => spec_range_check_at(rprog, k + 1),
        }
    }
}

/// The first range error of a resolved program, if any.
pub open spec fn spec_range_check(rprog: Seq<ResStmt>) -> Result<(), CompileError> {
    spec_range_check_at(rprog, 0)
}

/// Every value of the resolved program fits its encoding width.
pub open spec fn encodable(rprog: Seq<ResStmt>) -> bool {
    spec_range_check(rprog) is Ok
}

/// Sum of the sizes of the statements from `k` on.
pub open spec fn prog_size(src: Seq<u8>, prog: Seq<Stmt>, k: int) -> nat
    decreases prog.len() - k,
{
    if k < 0 || k >= prog.len() {
        0
    } else {
        stmt_size(src, prog[k]) + prog_size(src, prog, k + 1)
    }
}

/// Looking a name up in a table extended by one entry: existing bindings
/// win; the new entry answers only for a name not yet bound.
pub proof fn lemma_lookup_push(src: Seq<u8>, tab: Seq<SymEntry>, e: SymEntry, name: Seq<u8>)
    ensures
        tab_lookup(src, tab.push(e), name) == (if tab_lookup(src, tab, name) is Some {
            tab_lookup(src, tab, name)
        } else if src.subrange(e.lo as int, e.hi as int) == name {
            Some(e.addr)
        } else {
            None
        }),
    decreases tab.len(),
{
    if tab.len() == 0 {
        assert(tab.push(e)[0] == e);
        assert(tab.push(e).drop_first() =~= Seq::<SymEntry>::empty());
        assert(tab_lookup(src, tab.push(e).drop_first(), name) is None);
    } else {
        assert(tab.push(e)[0] == tab[0]);
        assert(tab.push(e).drop_first() =~= tab.drop_first().push(e));
        lemma_lookup_push(src, tab.drop_first(), e, name);
        assert(tab_lookup(src, tab.push(e), name) == (if src.subrange(
            tab[0].lo as int,
            tab[0].hi as int,
        ) == name {
            Some(tab[0].addr)
        } else {
            tab_lookup(src, tab.drop_first().push(e), name)
        }));
    }
}

/// Statements `i` and `j` define the same label name twice.
pub open spec fn dup_pair(src: Seq<u8>, prog: Seq<Stmt>, i: int, j: int) -> bool {
    &&& 0 <= i < j < prog.len()
    &&& label_of(src, prog[i]) is Some
    &&& label_of(src, prog[i]) == label_of(src, prog[j])
}

/// Statement `i` defines a label name the table already binds.
pub open spec fn label_in_tab(src: Seq<u8>, prog: Seq<Stmt>, tab: Seq<SymEntry>, i: int) -> bool {
    &&& 0 <= i < prog.len()
    &&& (label_of(src, prog[i]) matches Some(n) && tab_lookup(src, tab, n) is Some)
}

proof fn lemma_dup_fails_at(src: Seq<u8>, prog: Seq<Stmt>, k: int, cursor: u64, tab: Seq<SymEntry>)
    requires
        0 <= k <= prog.len(),
        cursor + prog_size(src, prog, k) <= ADDR_SPACE,
        (exists|i: int, j: int| k <= i && #[trigger] dup_pair(src, prog, i, j)) || (exists|i: int|
            k <= i && #[trigger] label_in_tab(src, prog, tab, i)),
    ensures
        spec_pass1_at(src, prog, k, cursor, tab) matches Err(
            CompileError::DuplicateSymbol { lo, hi, pos },
        ),
    decreases prog.len() - k,
{
    let st = prog[k];
    match st.kind {
        StmtKind::Label { lo, hi } => {
            let name = src.subrange(lo as int, hi as int);
            if tab_lookup(src, tab, name) is Some {
                // pass 1 reports the duplicate here
            } else {
                let e = SymEntry { lo, hi, addr: cursor };
                let tab2 = tab.push(e);
                // carry the pending duplicate across the insertion
                if exists|i: int, j: int| k <= i && #[trigger] dup_pair(src, prog, i, j) {
                    let (i, j) = choose|i: int, j: int|
                        k <= i && #[trigger] dup_pair(src, prog, i, j);
                    if i == k {
                        lemma_lookup_push(src, tab, e, name);
                        assert(label_in_tab(src, prog, tab2, j));
                    } else {
                        assert(dup_pair(src, prog, i, j));
                    }
                } else {
                    let i = choose|i: int| k <= i && #[trigger] label_in_tab(src, prog, tab, i);
                    let n = label_of(src, prog[i])->Some_0;
                    lemma_lookup_push(src, tab, e, n);
                    assert(label_in_tab(src, prog, tab2, i));
                }
                lemma_dup_fails_at(src, prog, k + 1, cursor, tab2);
            }
        },
        _ => {
            // a non-label statement defines nothing, so every pending
            // duplicate lies beyond it; its size fits by the size bound
            if exists|i: int, j: int| k <= i && #[trigger] dup_pair(src, prog, i, j) {
                let (i, j) = choose|i: int, j: int| k <= i && #[trigger] dup_pair(src, prog, i, j);
                assert(i != k);
            } else {
                let i = choose|i: int| k <= i && #[trigger] label_in_tab(src, prog, tab, i);
                assert(i != k);
            }
            lemma_dup_fails_at(src, prog, k + 1, (cursor + stmt_size(src, st)) as u64, tab);
        },
    }
}

/// Defining the same label name twice anywhere in the program makes pass 1
/// fail with a duplicate-symbol error, whether or not the label is ever
/// referenced. The size bound keeps the program inside the address space,
/// where no other pass-1 error can preempt the report.
pub proof fn lemma_duplicate_label_fails(src: Seq<u8>, prog: Seq<Stmt>)
    requires
        prog_size(src, prog, 0) <= ADDR_SPACE,
        exists|i: int, j: int| #[trigger] dup_pair(src, prog, i, j),
    ensures
        spec_pass1(src, prog) matches Err(CompileError::DuplicateSymbol { lo, hi, pos }),
{
    let (i, j) = choose|i: int, j: int| #[trigger] dup_pair(src, prog, i, j);
    assert(0 <= i && dup_pair(src, prog, i, j));
    lemma_dup_fails_at(src, prog, 0, 0, Seq::empty());
}

/// An operand that is a reference to a name the table does not bind.
pub open spec fn op_undef(src: Seq<u8>, tab: Seq<SymEntry>, opo: Option<Operand>) -> bool {
    opo matches Some(op) && (op.kind matches OperandKind::LabelRef { lo, hi } && tab_lookup(
        src,
        tab,
        src.subrange(lo as int, hi as int),
    ) is None)
}

/// A statement holding a reference to a name the table does not bind.
pub open spec fn stmt_has_undef(src: Seq<u8>, tab: Seq<SymEntry>, st: Stmt) -> bool {
    match st.kind {
        StmtKind::Label { lo, hi } => false,
        StmtKind::Instr { m, op1, op2 } => op_undef(src, tab, op1) || op_undef(src, tab, op2),
        StmtKind::Dir { d, op } => op_undef(src, tab, Some(op)),
    }
}

/// A well-formed statement with an undefined reference fails to resolve,
/// with an undefined-symbol error.
proof fn lemma_resolve_stmt_undef(src: Seq<u8>, tab: Seq<SymEntry>, st: Stmt)
    requires
        wf_stmt(st, src.len()),
        stmt_has_undef(src, tab, st),
    ensures
        resolve_stmt(src, tab, st) matches Err(CompileError::UndefinedSymbol { lo, hi, pos }),
{
}

/// Any error of resolving a well-formed statement is an undefined-symbol
/// error.
proof fn lemma_resolve_stmt_err_is_undef(src: Seq<u8>, tab: Seq<SymEntry>, st: Stmt)
    requires
        wf_stmt(st, src.len()),
        resolve_stmt(src, tab, st) is Err,
    ensures
        resolve_stmt(src, tab, st) matches Err(CompileError::UndefinedSymbol { lo, hi, pos }),
{
}

proof fn lemma_undef_fails_at(
    src: Seq<u8>,
    prog: Seq<Stmt>,
    tab: Seq<SymEntry>,
    k: int,
    acc: Seq<ResStmt>,
)
    requires
        wf_prog(prog, src.len()),
        0 <= k <= prog.len(),
        exists|j: int|
            k <= j < prog.len() && stmt_has_undef(src, tab, #[trigger] prog[j]),
    ensures
        spec_resolve_at(src, prog, tab, k, acc) matches Err(
            CompileError::UndefinedSymbol { lo, hi, pos },
        ),
    decreases prog.len() - k,
{
    let j = choose|j: int| k <= j < prog.len() && stmt_has_undef(src, tab, #[trigger] prog[j]);
    match resolve_stmt(src, tab, prog[k]) {
        Err(e) => {
            lemma_resolve_stmt_err_is_undef(src, tab, prog[k]);
        },
        Ok(ro) => {
            if j == k {
                lemma_resolve_stmt_undef(src, tab, prog[k]);
            } else {
                match ro {
                    None => {
                        lemma_undef_fails_at(src, prog, tab, k + 1, acc);
                    },
                    Some(rs) => {
                        lemma_undef_fails_at(src, prog, tab, k + 1, acc.push(rs));
                    },
                }
            }
        },
    }
}

/// Referencing a name the symbol table never binds makes resolution fail
/// with an undefined-symbol error, wherever in the program the reference
/// stands - a reference is never silently resolved.
pub proof fn lemma_undefined_reference_fails(src: Seq<u8>, prog: Seq<Stmt>, tab: Seq<SymEntry>)
    requires
        wf_prog(prog, src.len()),
        exists|j: int| 0 <= j < prog.len() && stmt_has_undef(src, tab, #[trigger] prog[j]),
    ensures
        spec_resolve(src, prog, tab) matches Err(CompileError::UndefinedSymbol { lo, hi, pos }),
{
    lemma_undef_fails_at(src, prog, tab, 0, Seq::empty());
}

/// A well-formed statement with no undefined reference resolves.
proof fn lemma_resolve_stmt_ok(src: Seq<u8>, tab: Seq<SymEntry>, st: Stmt)
    requires
        wf_stmt(st, src.len()),
        !stmt_has_undef(src, tab, st),
    ensures
        resolve_stmt(src, tab, st) is Ok,
{
}

proof fn lemma_resolve_ok_at(
    src: Seq<u8>,
    prog: Seq<Stmt>,
    tab: Seq<SymEntry>,
    k: int,
    acc: Seq<ResStmt>,
)
    requires
        wf_prog(prog, src.len()),
        0 <= k <= prog.len(),
        forall|j: int| 0 <= j < prog.len() ==> !stmt_has_undef(src, tab, #[trigger] prog[j]),
    ensures
        spec_resolve_at(src, prog, tab, k, acc) is Ok,
    decreases prog.len() - k,
{
    if k < prog.len() {
        lemma_resolve_stmt_ok(src, tab, prog[k]);
        match resolve_stmt(src, tab, prog[k]) {
            Err(e) => {},
            Ok(None) => {
                lemma_resolve_ok_at(src, prog, tab, k + 1, acc);
            },
            Ok(Some(rs)) => {
                lemma_resolve_ok_at(src, prog, tab, k + 1, acc.push(rs));
            },
        }
    }
}

/// A program whose references all have definitions resolves successfully.
pub proof fn lemma_all_refs_defined_resolves(src: Seq<u8>, prog: Seq<Stmt>, tab: Seq<SymEntry>)
    requires
        wf_prog(prog, src.len()),
        forall|j: int| 0 <= j < prog.len() ==> !stmt_has_undef(src, tab, #[trigger] prog[j]),
    ensures
        spec_resolve(src, prog, tab) is Ok,
{
    lemma_resolve_ok_at(src, prog, tab, 0, Seq::empty());
}

/// Forward/backward symmetry: a reference resolves to the address the
/// table binds its name to, and to nothing else. Where the defining label
/// stands relative to the reference - earlier or later in the program
/// text - does not appear in this statement at all: a forward reference
/// and a backward reference to the same name receive the same address.
pub proof fn lemma_forward_backward_symmetry(
    src: Seq<u8>,
    tab: Seq<SymEntry>,
    op: Operand,
    name: Seq<u8>,
    a: u64,
)
    requires
        op.kind matches OperandKind::LabelRef { lo, hi } && src.subrange(lo as int, hi as int)
            == name,
        tab_lookup(src, tab, name) == Some(a),
    ensures
        resolve_op(src, tab, op) == Ok::<ResOperand, CompileError>(
            ResOperand { kind: ResOpKind::Addr { a }, pos: op.pos },
        ),
{
}

/// One-pass resolution: a single traversal assigns addresses, records
/// label definitions, and resolves each reference against the table built
/// so far. It exists to state the law below; the compiler itself always
/// runs the two passes.
pub open spec fn spec_onepass_at(
    src: Seq<u8>,
    prog: Seq<Stmt>,
    k: int,
    cursor: u64,
    tab: Seq<SymEntry>,
    acc: Seq<ResStmt>,
) -> Result<(Seq<SymEntry>, Seq<ResStmt>), CompileError>
    decreases prog.len() - k,
{
    if k < 0 || k >= prog.len() {
        Ok((tab, acc))
    } else {
        let st = prog[k];
        match st.kind {
            StmtKind::Label { lo, hi } => {
                if tab_lookup(src, tab, src.subrange(lo as int, hi as int)) is Some {
                    Err(CompileError::DuplicateSymbol { lo, hi, pos: st.pos })
                } else {
                    spec_onepass_at(
                        src,
                        prog,
                        k + 1,
                        cursor,
                        tab.push(SymEntry { lo, hi, addr: cursor }),
                        acc,
                    )
                }
            },
            _ => {
                let sz = stmt_size(src, st);
                if cursor + sz > ADDR_SPACE {
                    Err(CompileError::EncodingRange { value: sz as u64, pos: st.pos })
                } else {
                    match resolve_stmt(src, tab, st) {
                        Err(e) => Err(e),
                        Ok(None) => spec_onepass_at(src, prog, k + 1, (cursor + sz) as u64, tab, acc),
                        Ok(Some(rs)) => spec_onepass_at(
                            src,
                            prog,
                            k + 1,
                            (cursor + sz) as u64,
                            tab,
                            acc.push(rs),
                        ),
                    }
                }
            },
        }
    }
}

/// One-pass resolution of a whole program.
pub open spec fn spec_onepass(src: Seq<u8>, prog: Seq<Stmt>) -> Result<
    (Seq<SymEntry>, Seq<ResStmt>),
    CompileError,
> {
    spec_onepass_at(src, prog, 0, 0, Seq::empty(), Seq::empty())
}

/// The label name an operand references, if any.
pub open spec fn ref_name_of(src: Seq<u8>, opo: Option<Operand>) -> Option<Seq<u8>> {
    match opo {
        Some(op) => match op.kind {
            OperandKind::LabelRef { lo, hi } => Some(src.subrange(lo as int, hi as int)),
            _ => None,
        },
        None => None,
    }
}

/// Some statement before `k` defines the name.
pub open spec fn defined_before(src: Seq<u8>, prog: Seq<Stmt>, k: int, name: Seq<u8>) -> bool {
    exists|i: int| 0 <= i < k && #[trigger] label_of(src, prog[i]) == Some(name)
}

/// The operand references no name, or one defined before statement `k`.
pub open spec fn op_ref_defined_before(
    src: Seq<u8>,
    prog: Seq<Stmt>,
    k: int,
    opo: Option<Operand>,
) -> bool {
    match ref_name_of(src, opo) {
        Some(n) => defined_before(src, prog, k, n),
        None => true,
    }
}

/// Statement `k` references only names defined before it.
pub open spec fn stmt_refs_defined_before(src: Seq<u8>, prog: Seq<Stmt>, k: int) -> bool {
    match prog[k].kind {
        StmtKind::Label { lo, hi } => true,
        StmtKind::Instr { m, op1, op2 } => op_ref_defined_before(src, prog, k, op1)
            && op_ref_defined_before(src, prog, k, op2),
        StmtKind::Dir { d, op } => op_ref_defined_before(src, prog, k, Some(op)),
    }
}

/// No forward references: every reference names a label defined earlier
/// in the program text.
pub open spec fn no_forward_refs(src: Seq<u8>, prog: Seq<Stmt>) -> bool {
    forall|k: int| 0 <= k < prog.len() ==> #[trigger] stmt_refs_defined_before(src, prog, k)
}

/// Pass 1 only appends to the table: a binding it finds present stays,
/// with its address.
proof fn lemma_pass1_preserves_bindings(
    src: Seq<u8>,
    prog: Seq<Stmt>,
    k: int,
    cursor: u64,
    tab: Seq<SymEntry>,
    name: Seq<u8>,
)
    requires
        spec_pass1_at(src, prog, k, cursor, tab) is Ok,
        tab_lookup(src, tab, name) is Some,
    ensures
        tab_lookup(src, spec_pass1_at(src, prog, k, cursor, tab)->Ok_0, name) == tab_lookup(
            src,
            tab,
            name,
        ),
    decreases prog.len() - k,
{
    if 0 <= k && k < prog.len() {
        match prog[k].kind {
            StmtKind::Label { lo, hi } => {
                let e = SymEntry { lo, hi, addr: cursor };
                lemma_lookup_push(src, tab, e, name);
                lemma_pass1_preserves_bindings(src, prog, k + 1, cursor, tab.push(e), name);
            },
            _ => {
                let sz = stmt_size(src, prog[k]);
                lemma_pass1_preserves_bindings(src, prog, k + 1, (cursor + sz) as u64, tab, name);
            },
        }
    }
}

/// An operand whose reference, if any, the partial table already binds
/// resolves against the partial table exactly as against the final one.
proof fn lemma_op_agrees(
    src: Seq<u8>,
    prog: Seq<Stmt>,
    k: int,
    cursor: u64,
    tab: Seq<SymEntry>,
    opo: Option<Operand>,
)
    requires
        spec_pass1_at(src, prog, k, cursor, tab) is Ok,
        op_ref_defined_before(src, prog, k, opo),
        forall|n: Seq<u8>|
            defined_before(src, prog, k, n) ==> #[trigger] tab_lookup(src, tab, n) is Some,
    ensures
        ({
            let t_full = spec_pass1_at(src, prog, k, cursor, tab)->Ok_0;
            match opo {
                Some(op) => resolve_op(src, tab, op) == resolve_op(src, t_full, op) && (!(op.kind
                    is StrLit) ==> resolve_op(src, tab, op) is Ok),
                None => true,
            }
        }),
{
    match opo {
        Some(op) => match op.kind {
            OperandKind::LabelRef { lo, hi } => {
                let n = src.subrange(lo as int, hi as int);
                assert(defined_before(src, prog, k, n));
                lemma_pass1_preserves_bindings(src, prog, k, cursor, tab, n);
            },
            _ => {},
        },
        None => {},
    }
}

proof fn lemma_onepass_at_equals(
    src: Seq<u8>,
    prog: Seq<Stmt>,
    k: int,
    cursor: u64,
    tab: Seq<SymEntry>,
    acc: Seq<ResStmt>,
)
    requires
        wf_prog(prog, src.len()),
        0 <= k <= prog.len(),
        no_forward_refs(src, prog),
        spec_pass1_at(src, prog, k, cursor, tab) is Ok,
        forall|n: Seq<u8>|
            defined_before(src, prog, k, n) ==> #[trigger] tab_lookup(src, tab, n) is Some,
    ensures
        ({
            let t_full = spec_pass1_at(src, prog, k, cursor, tab)->Ok_0;
            &&& spec_resolve_at(src, prog, t_full, k, acc) is Ok
            &&& spec_onepass_at(src, prog, k, cursor, tab, acc) == Ok::<
                (Seq<SymEntry>, Seq<ResStmt>),
                CompileError,
            >((t_full, spec_resolve_at(src, prog, t_full, k, acc)->Ok_0))
        }),
    decreases prog.len() - k,
{
    let t_full = spec_pass1_at(src, prog, k, cursor, tab)->Ok_0;
    if k < prog.len() {
        let st = prog[k];
        assert(stmt_refs_defined_before(src, prog, k));
        assert(wf_stmt(st, src.len()));
        match st.kind {
            StmtKind::Label { lo, hi } => {
                let name = src.subrange(lo as int, hi as int);
                let e = SymEntry { lo, hi, addr: cursor };
                let tab2 = tab.push(e);
                assert(tab_lookup(src, tab, name) is None);
                assert forall|n: Seq<u8>| defined_before(src, prog, k + 1, n) implies #[trigger]
                tab_lookup(src, tab2, n) is Some by {
                    let i = choose|i: int| 0 <= i < k + 1 && #[trigger] label_of(src, prog[i])
                        == Some(n);
                    lemma_lookup_push(src, tab, e, n);
                    if i == k {
                        assert(n == name);
                    } else {
                        assert(defined_before(src, prog, k, n));
                    }
                }
                lemma_onepass_at_equals(src, prog, k + 1, cursor, tab2, acc);
            },
            StmtKind::Instr { m, op1, op2 } => {
                let sz = stmt_size(src, st);
                lemma_op_agrees(src, prog, k, cursor, tab, op1);
                lemma_op_agrees(src, prog, k, cursor, tab, op2);
                assert(resolve_stmt(src, tab, st) == resolve_stmt(src, t_full, st));
                assert(resolve_stmt(src, tab, st) is Ok);
                let rso = resolve_stmt(src, tab, st)->Ok_0;
                assert forall|n: Seq<u8>| defined_before(src, prog, k + 1, n) implies #[trigger]
                tab_lookup(src, tab, n) is Some by {
                    let i = choose|i: int| 0 <= i < k + 1 && #[trigger] label_of(src, prog[i])
                        == Some(n);
                    assert(i != k);
                    assert(defined_before(src, prog, k, n));
                }
                match rso {
                    None => {
                        lemma_onepass_at_equals(src, prog, k + 1, (cursor + sz) as u64, tab, acc);
                    },
                    Some(rs) => {
                        lemma_onepass_at_equals(
                            src,
                            prog,
                            k + 1,
                            (cursor + sz) as u64,
                            tab,
                            acc.push(rs),
                        );
                    },
                }
            },
            StmtKind::Dir { d, op } => {
                let sz = stmt_size(src, st);
                match d {
                    DirKind::Str => {},
                    _ => {
                        lemma_op_agrees(src, prog, k, cursor, tab, Some(op));
                    },
                }
                assert(resolve_stmt(src, tab, st) == resolve_stmt(src, t_full, st));
                assert(resolve_stmt(src, tab, st) is Ok);
                let rso = resolve_stmt(src, tab, st)->Ok_0;
                assert forall|n: Seq<u8>| defined_before(src, prog, k + 1, n) implies #[trigger]
                tab_lookup(src, tab, n) is Some by {
                    let i = choose|i: int| 0 <= i < k + 1 && #[trigger] label_of(src, prog[i])
                        == Some(n);
                    assert(i != k);
                    assert(defined_before(src, prog, k, n));
                }
                match rso {
                    None => {
                        lemma_onepass_at_equals(src, prog, k + 1, (cursor + sz) as u64, tab, acc);
                    },
                    Some(rs) => {
                        lemma_onepass_at_equals(
                            src,
                            prog,
                            k + 1,
                            (cursor + sz) as u64,
                            tab,
                            acc.push(rs),
                        );
                    },
                }
            },
        }
    }
}

/// Path independence of resolution order: on a program with no forward
/// references, resolving in one pass - looking each reference up in the
/// table built so far - yields exactly the symbol table of pass 1 and the
/// resolved program of pass 2, so the compiled output is identical under
/// either strategy.
pub proof fn lemma_onepass_equals_twopass(src: Seq<u8>, prog: Seq<Stmt>)
    requires
        wf_prog(prog, src.len()),
        no_forward_refs(src, prog),
        spec_pass1(src, prog) is Ok,
    ensures
        spec_resolve(src, prog, spec_pass1(src, prog)->Ok_0) is Ok,
        spec_onepass(src, prog) == Ok::<(Seq<SymEntry>, Seq<ResStmt>), CompileError>(
            (
                spec_pass1(src, prog)->Ok_0,
                spec_resolve(src, prog, spec_pass1(src, prog)->Ok_0)->Ok_0,
            ),
        ),
{
    lemma_onepass_at_equals(src, prog, 0, 0, Seq::empty(), Seq::empty());
}

/// Whether the source spans `[alo, ahi)` and `[blo, bhi)` hold the same
/// bytes.
fn span_eq(src: &Vec<u8>, alo: usize, ahi: usize, blo: usize, bhi: usize) -> (r: bool)
    requires
        alo <= ahi <= src@.len(),
        blo <= bhi <= src@.len(),
    ensures
        r == (src@.subrange(alo as int, ahi as int) == src@.subrange(blo as int, bhi as int)),
{
    if ahi - alo != bhi - blo {
        proof {
            assert(src@.subrange(alo as int, ahi as int).len() == ahi - alo);
        }
        return false;
    }
    let n = ahi - alo;
    let mut i: usize = 0;
    while i < n
        invariant
            alo <= ahi <= src@.len(),
            blo <= bhi <= src@.len(),
            n == ahi - alo == bhi - blo,
            0 <= i <= n,
            forall|q: int|
                0 <= q < i ==> src@.subrange(alo as int, ahi as int)[q] == src@.subrange(
                    blo as int,
                    bhi as int,
                )[q],
        decreases n - i,
    {
        if src[alo + i] != src[blo + i] {
            proof {
                assert(src@.subrange(alo as int, ahi as int)[i as int] == src@[alo + i]);
                assert(src@.subrange(blo as int, bhi as int)[i as int] == src@[blo + i]);
            }
            return false;
        }
        i = i + 1;
    }
    proof {
        assert(src@.subrange(alo as int, ahi as int) =~= src@.subrange(blo as int, bhi as int));
    }
    true
}

/// Look the span `[lo, hi)` up in the table.
fn tab_lookup_x(src: &Vec<u8>, tab: &Vec<SymEntry>, lo: usize, hi: usize) -> (r: Option<u64>)
    requires
        lo <= hi <= src@.len(),
        wf_table(tab@, src@.len()),
    ensures
        r == tab_lookup(src@, tab@, src@.subrange(lo as int, hi as int)),
{
    let mut j: usize = 0;
    proof {
        assert(tab@.subrange(0, tab@.len() as int) =~= tab@);
    }
    while j < tab.len()
        invariant
            lo <= hi <= src@.len(),
            wf_table(tab@, src@.len()),
            0 <= j <= tab@.len(),
            tab_lookup(src@, tab@, src@.subrange(lo as int, hi as int)) == tab_lookup(
                src@,
                tab@.subrange(j as int, tab@.len() as int),
                src@.subrange(lo as int, hi as int),
            ),
        decreases tab@.len() - j,
    {
        let ghost suffix = tab@.subrange(j as int, tab@.len() as int);
        let e = tab[j];
        proof {
            assert(suffix[0] == tab@[j as int]);
        }
        if span_eq(src, e.lo, e.hi, lo, hi) {
            return Some(e.addr);
        }
        proof {
            assert(suffix.drop_first() =~= tab@.subrange(j + 1 as int, tab@.len() as int));
        }
        j = j + 1;
    }
    proof {
        assert(tab@.subrange(tab@.len() as int, tab@.len() as int).len() == 0);
    }
    None
}

/// Operand arity of a mnemonic.
fn arity_x(m: Mnemonic) -> (a: u64)
    ensures
        a == arity(m),
        a <= 2,
{
    match m {
        Mnemonic::Nop => 0,
        Mnemonic::Halt => 0,
        Mnemonic::Mov => 2,
        Mnemonic::Add => 2,
        Mnemonic::Sub => 2,
        Mnemonic::Jmp => 1,
        Mnemonic::Jz => 2,
    }
}

/// The byte size of a statement.
fn stmt_size_x(src: &Vec<u8>, st: &Stmt) -> (sz: u64)
    requires
        wf_stmt(*st, src@.len()),
    ensures
        sz == stmt_size(src@, *st),
{
    match st.kind {
        StmtKind::Label { lo, hi } => 0,
        StmtKind::Instr { m, op1, op2 } => 1 + 3 * arity_x(m),
        StmtKind::Dir { d, op } => match d {
            DirKind::Byte => 1,
            DirKind::Word => 2,
            DirKind::Str => match op.kind {
                OperandKind::StrLit { lo, hi } => {
                    let content = string_content(src, lo, hi);
                    content.len() as u64
                },
                _ => 0,
            },
        },
    }
}

/// Pass 1: assign addresses and build the symbol table. Returns the table
/// `spec_pass1` gives, or its first error.
pub fn pass1(src: &Vec<u8>, prog: &Vec<Stmt>) -> (r: Result<Vec<SymEntry>, CompileError>)
    requires
        wf_prog(prog@, src@.len()),
    ensures
        match r {
            Ok(tab) => Ok::<Seq<SymEntry>, CompileError>(tab@) == spec_pass1(src@, prog@)
                && wf_table(tab@, src@.len()),
            Err(e) => Err::<Seq<SymEntry>, CompileError>(e) == spec_pass1(src@, prog@),
        },
{
    let mut tab: Vec<SymEntry> = Vec::new();
    let mut cursor: u64 = 0;
    let mut k: usize = 0;
    while k < prog.len()
        invariant
            wf_prog(prog@, src@.len()),
            0 <= k <= prog@.len(),
            cursor <= ADDR_SPACE,
            spec_pass1(src@, prog@) == spec_pass1_at(src@, prog@, k as int, cursor, tab@),
            wf_table(tab@, src@.len()),
        decreases prog@.len() - k,
    {
        let st = prog[k];
        match st.kind {
            StmtKind::Label { lo, hi } => {
                match tab_lookup_x(src, &tab, lo, hi) {
                    Some(a) => {
                        return Err(CompileError::DuplicateSymbol { lo, hi, pos: st.pos });
                    },
                    None => {
                        tab.push(SymEntry { lo, hi, addr: cursor });
                        k = k + 1;
                    },
                }
            },
            _ => {
                let sz = stmt_size_x(src, &st);
                if sz > ADDR_SPACE - cursor {
                    return Err(CompileError::EncodingRange { value: sz, pos: st.pos });
                }
                cursor = cursor + sz;
                k = k + 1;
            },
        }
    }
    Ok(tab)
}

/// A resolved operand.
fn resolve_op_x(src: &Vec<u8>, tab: &Vec<SymEntry>, op: &Operand) -> (r: Result<
    ResOperand,
    CompileError,
>)
    requires
        wf_operand_req(*op, src@.len()),
        wf_table(tab@, src@.len()),
    ensures
        match r {
            Ok(ro) => Ok::<ResOperand, CompileError>(ro) == resolve_op(src@, tab@, *op),
            Err(e) => Err::<ResOperand, CompileError>(e) == resolve_op(src@, tab@, *op),
        },
{
    match op.kind {
        OperandKind::Imm { v } => Ok(ResOperand { kind: ResOpKind::Imm { v }, pos: op.pos }),
        OperandKind::Reg { r } => Ok(ResOperand { kind: ResOpKind::Reg { r }, pos: op.pos }),
        OperandKind::LabelRef { lo, hi } => match tab_lookup_x(src, tab, lo, hi) {
            None => Err(CompileError::UndefinedSymbol { lo, hi, pos: op.pos }),
            Some(a) => Ok(ResOperand { kind: ResOpKind::Addr { a }, pos: op.pos }),
        },
        OperandKind::StrLit { lo, hi } => Err(CompileError::InternalFault),
    }
}

/// Spans of an operand lie within the source.
pub open spec fn wf_operand_req(op: Operand, n: nat) -> bool {
    match op.kind {
        OperandKind::LabelRef { lo, hi } => lo <= hi <= n,
        OperandKind::StrLit { lo, hi } => lo <= hi <= n,
        _ => true,
    }
}

/// Pass 2, first half: bind every label reference to its address. Returns
/// the resolved program `spec_resolve` gives, or its first error.
pub fn resolve(src: &Vec<u8>, prog: &Vec<Stmt>, tab: &Vec<SymEntry>) -> (r: Result<
    Vec<ResStmt>,
    CompileError,
>)
    requires
        wf_prog(prog@, src@.len()),
        wf_table(tab@, src@.len()),
    ensures
        match r {
            Ok(rp) => Ok::<Seq<ResStmt>, CompileError>(rp@) == spec_resolve(src@, prog@, tab@)
                && wf_res_prog(rp@, src@.len()),
            Err(e) => Err::<Seq<ResStmt>, CompileError>(e) == spec_resolve(src@, prog@, tab@),
        },
{
    let mut rp: Vec<ResStmt> = Vec::new();
    let mut k: usize = 0;
    while k < prog.len()
        invariant
            wf_prog(prog@, src@.len()),
            wf_table(tab@, src@.len()),
            0 <= k <= prog@.len(),
            spec_resolve(src@, prog@, tab@) == spec_resolve_at(src@, prog@, tab@, k as int, rp@),
            wf_res_prog(rp@, src@.len()),
        decreases prog@.len() - k,
    {
        let st = prog[k];
        assert(wf_stmt(st, src@.len()));
        match st.kind {
            StmtKind::Label { lo, hi } => {
                k = k + 1;
            },
            StmtKind::Instr { m, op1, op2 } => {
                match op1 {
                    None => {
                        rp.push(ResStmt::RInstr { m, op1: None, op2: None });
                        k = k + 1;
                    },
                    Some(a) => {
                        let ra = match resolve_op_x(src, tab, &a) {
                            Err(e) => {
                                return Err(e);
                            },
                            Ok(ra) => ra,
                        };
                        match op2 {
                            None => {
                                rp.push(ResStmt::RInstr { m, op1: Some(ra), op2: None });
                                k = k + 1;
                            },
                            Some(b) => {
                                let rb = match resolve_op_x(src, tab, &b) {
                                    Err(e) => {
                                        return Err(e);
                                    },
                                    Ok(rb) => rb,
                                };
                                rp.push(ResStmt::RInstr { m, op1: Some(ra), op2: Some(rb) });
                                k = k + 1;
                            },
                        }
                    },
                }
            },
            StmtKind::Dir { d, op } => {
                match d {
                    DirKind::Byte => {
                        match resolve_op_x(src, tab, &op) {
                            Err(e) => {
                                return Err(e);
                            },
                            Ok(ro) => {
                                rp.push(ResStmt::RByte { op: ro });
                                k = k + 1;
                            },
                        }
                    },
                    DirKind::Word => {
                        match resolve_op_x(src, tab, &op) {
                            Err(e) => {
                                return Err(e);
                            },
                            Ok(ro) => {
                                rp.push(ResStmt::RWord { op: ro });
                                k = k + 1;
                            },
                        }
                    },
                    DirKind::Str => {
                        match op.kind {
                            OperandKind::StrLit { lo, hi } => {
                                rp.push(ResStmt::RString { lo, hi });
                                k = k + 1;
                            },
                            _ => {
                                return Err(CompileError::InternalFault);
                            },
                        }
                    },
                }
            },
        }
    }
    Ok(rp)
}

/// Pass 2, second half: every concrete value must fit the width its
/// encoding gives it. Returns what `spec_range_check` gives.
pub fn range_check(rprog: &Vec<ResStmt>) -> (r: Result<(), CompileError>)
    ensures
        match r {
            Ok(u) => Ok::<(), CompileError>(()) == spec_range_check(rprog@),
            Err(e) => Err::<(), CompileError>(e) == spec_range_check(rprog@),
        },
        r is Ok ==> encodable(rprog@),
{
    let mut k: usize = 0;
    while k < rprog.len()
        invariant
            0 <= k <= rprog@.len(),
            spec_range_check(rprog@) == spec_range_check_at(rprog@, k as int),
        decreases rprog@.len() - k,
    {
        let rs = rprog[k];
        match rs {
            ResStmt::RInstr { m, op1, op2 } => {
                match op1 {
                    None => {},
                    Some(a) => {
                        if check_op_x(&a) {
                        } else {
                            return Err(
                                CompileError::EncodingRange { value: res_val_x(&a), pos: a.pos },
                            );
                        }
                        match op2 {
                            None => {},
                            Some(b) => {
                                if !check_op_x(&b) {
                                    return Err(
                                        CompileError::EncodingRange {
                                            value: res_val_x(&b),
                                            pos: b.pos,
                                        },
                                    );
                                }
                            },
                        }
                    },
                }
            },
            ResStmt::RByte { op } => {
                if res_val_x(&op) > 255 {
                    return Err(CompileError::EncodingRange { value: res_val_x(&op), pos: op.pos });
                }
            },
            ResStmt::RWord { op } => {
                if !check_op_x(&op) {
                    return Err(CompileError::EncodingRange { value: res_val_x(&op), pos: op.pos });
                }
            },
            ResStmt::RString { lo, hi } => {},
        }
        k = k + 1;
    }
    Ok(())
}

/// The concrete value a resolved operand carries.
fn res_val_x(r: &ResOperand) -> (v: u64)
    ensures
        v == res_val(*r),
{
    match r.kind {
        ResOpKind::Imm { v } => v,
        ResOpKind::Reg { r } => r,
        ResOpKind::Addr { a } => a,
    }
}

/// Whether a resolved operand fits two bytes.
fn check_op_x(r: &ResOperand) -> (ok: bool)
    ensures
        ok == (check_op(*r) is Ok),
        ok == (res_val(*r) <= 65535),
{
    res_val_x(r) <= 65535
}

} // verus!
