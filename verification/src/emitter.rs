//! The symbol emitter: renders the symbol table as text.
//!
//! One line per symbol, `NAME -> ADDRESS` with the address in decimal, in
//! table order - which is program order, so addresses come out
//! nondecreasing. The output is a mathematical function of the table, so
//! re-running the emitter on an unchanged table yields identical text.

use vstd::prelude::*;
use crate::ast::SymEntry;
use crate::ast::wf_table;

verus! {

/// The decimal digits of `n`, most significant first.
pub open spec fn dec_repr(n: u64) -> Seq<u8>
    decreases n,
{
    if n < 10 {
        seq![(48 + n) as u8]
    } else {
        dec_repr(n / 10) + seq![(48 + (n % 10)) as u8]
    }
}

/// One line of the symbol text: the name, ` -> `, the address, a newline.
pub open spec fn sym_line(src: Seq<u8>, e: SymEntry) -> Seq<u8> {
    src.subrange(e.lo as int, e.hi as int) + seq![32u8, 45u8, 62u8, 32u8] + dec_repr(e.addr)
        + seq![10u8]
}

/// The symbol text from entry `k` on, appended to `acc`.
pub open spec fn spec_symtext_at(src: Seq<u8>, tab: Seq<SymEntry>, k: int, acc: Seq<u8>) -> Seq<u8>
    decreases tab.len() - k,
{
    if k < 0 || k >= tab.len() {
        acc
    } else {
        spec_symtext_at(src, tab, k + 1, acc + sym_line(src, tab[k]))
    }
}

/// The symbol text of a table.
pub open spec fn spec_symtext(src: Seq<u8>, tab: Seq<SymEntry>) -> Seq<u8> {
    spec_symtext_at(src, tab, 0, Seq::empty())
}

/// The decimal digits of `n`.
fn dec_repr_x(n: u64) -> (v: Vec<u8>)
    ensures
        v@ == dec_repr(n),
    decreases n,
{
    if n < 10 {
        let mut v: Vec<u8> = Vec::new();
        v.push((48 + n) as u8);
        proof {
            assert(v@ =~= dec_repr(n));
        }
        v
    } else {
        let mut v = dec_repr_x(n / 10);
        v.push((48 + (n % 10)) as u8);
        proof {
            assert(v@ =~= dec_repr(n));
        }
        v
    }
}

/// The bytes of the source span `[lo, hi)`.
fn span_vec(src: &Vec<u8>, lo: usize, hi: usize) -> (v: Vec<u8>)
    requires
        lo <= hi <= src@.len(),
    ensures
        v@ == src@.subrange(lo as int, hi as int),
{
    let mut v: Vec<u8> = Vec::new();
    let mut i: usize = lo;
    while i < hi
        invariant
            lo <= i <= hi <= src@.len(),
            v@ == src@.subrange(lo as int, i as int),
        decreases hi - i,
    {
        v.push(src[i]);
        proof {
            assert(v@ =~= src@.subrange(lo as int, i + 1 as int));
        }
        i = i + 1;
    }
    v
}

/// Render the symbol table as text: one `NAME -> ADDRESS` line per entry,
/// in table order. The result is exactly `spec_symtext` of the table.
pub fn emit_symbols(src: &Vec<u8>, tab: &Vec<SymEntry>) -> (out: Vec<u8>)
    requires
        wf_table(tab@, src@.len()),
    ensures
        out@ == spec_symtext(src@, tab@),
{
    let mut out: Vec<u8> = Vec::new();
    let mut k: usize = 0;
    while k < tab.len()
        invariant
            wf_table(tab@, src@.len()),
            0 <= k <= tab@.len(),
            spec_symtext(src@, tab@) == spec_symtext_at(src@, tab@, k as int, out@),
        decreases tab@.len() - k,
    {
        let e = tab[k];
        let mut line = span_vec(src, e.lo, e.hi);
        line.push(32);
        line.push(45);
        line.push(62);
        line.push(32);
        let mut digits = dec_repr_x(e.addr);
        line.append(&mut digits);
        line.push(10);
        proof {
            assert(line@ =~= sym_line(src@, tab@[k as int]));
        }
        out.append(&mut line);
        k = k + 1;
    }
    out
}

} // verus!
