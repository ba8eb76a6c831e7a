//! The lexer: turns source bytes into a token sequence.
//!
//! `spec_lex` is the mathematical statement of lexing; the executable `lex`
//! is proved to return exactly its value. Whitespace and `;` comments are
//! discarded but advance the position counters; `\n` becomes a `Newline`
//! token, since the grammar is line-oriented.

use vstd::prelude::*;
use crate::ast::{CompileError, LexErrorKind, Pos, Token, TokenKind, wf_token};

verus! {

/// Blank bytes inside a line: space, tab, carriage return.
pub open spec fn is_ws(b: u8) -> bool {
    b == 32 || b == 9 || b == 13
}

/// Decimal digit.
pub open spec fn is_digit_b(b: u8) -> bool {
    48 <= b <= 57
}

/// Hexadecimal digit.
pub open spec fn is_hex_b(b: u8) -> bool {
    is_digit_b(b) || (65 <= b <= 70) || (97 <= b <= 102)
}

/// A byte that can start an identifier: a letter or `_`.
pub open spec fn is_ident_start(b: u8) -> bool {
    (65 <= b <= 90) || (97 <= b <= 122) || b == 95
}

/// A byte that can continue an identifier.
pub open spec fn is_ident_cont(b: u8) -> bool {
    is_ident_start(b) || is_digit_b(b)
}

/// A byte valid after a backslash in a string literal.
pub open spec fn is_esc(b: u8) -> bool {
    b == 110 || b == 116 || b == 48 || b == 92 || b == 34
}

/// The byte an escape pair denotes: `\n`, `\t`, `\0`, `\\`, `\"`.
pub open spec fn esc_byte(b: u8) -> u8 {
    if b == 110 {
        10
    } else if b == 116 {
        9
    } else if b == 48 {
        0
    } else {
        b
    }
}

/// The bytes a raw string-literal body denotes, escapes applied. A
/// trailing lone backslash stands for itself; the lexer never lets one
/// through.
pub open spec fn unescape(s: Seq<u8>) -> Seq<u8>
    decreases s.len(),
{
    if s.len() == 0 {
        Seq::empty()
    } else if s[0] == 92 && s.len() >= 2 {
        seq![esc_byte(s[1])] + unescape(s.skip(2))
    } else {
        seq![s[0]] + unescape(s.skip(1))
    }
}

/// The unescaped bytes of the source span `[lo, hi)`.
pub fn string_content(src: &Vec<u8>, lo: usize, hi: usize) -> (out: Vec<u8>)
    requires
        lo <= hi <= src@.len(),
    ensures
        out@ == unescape(src@.subrange(lo as int, hi as int)),
{
    let mut out: Vec<u8> = Vec::new();
    let mut i: usize = lo;
    while i < hi
        invariant
            lo <= i <= hi <= src@.len(),
            unescape(src@.subrange(lo as int, hi as int)) == out@ + unescape(
                src@.subrange(i as int, hi as int),
            ),
        decreases hi - i,
    {
        let ghost rest = src@.subrange(i as int, hi as int);
        if src[i] == 92 && i + 1 < hi {
            proof {
                assert(rest[0] == src@[i as int]);
                assert(rest[1] == src@[i + 1 as int]);
                assert(rest.skip(2) =~= src@.subrange(i + 2 as int, hi as int));
            }
            let e = src[i + 1];
            let b: u8 = if e == 110 {
                10
            } else if e == 116 {
                9
            } else if e == 48 {
                0
            } else {
                e
            };
            out.push(b);
            i = i + 2;
        } else {
            proof {
                assert(rest[0] == src@[i as int]);
                assert(rest.skip(1) =~= src@.subrange(i + 1 as int, hi as int));
            }
            let b = src[i];
            out.push(b);
            i = i + 1;
        }
    }
    proof {
        assert(src@.subrange(i as int, hi as int).len() == 0);
    }
    out
}

/// Number of identifier bytes starting at `i`.
pub open spec fn ident_len(s: Seq<u8>, i: int) -> nat
    decreases s.len() - i,
{
    if i < 0 || i >= s.len() || !is_ident_cont(s[i]) {
        0
    } else {
        1 + ident_len(s, i + 1)
    }
}

/// Number of decimal-digit bytes starting at `i`.
pub open spec fn dec_len(s: Seq<u8>, i: int) -> nat
    decreases s.len() - i,
{
    if i < 0 || i >= s.len() || !is_digit_b(s[i]) {
        0
    } else {
        1 + dec_len(s, i + 1)
    }
}

/// Number of hexadecimal-digit bytes starting at `i`.
pub open spec fn hex_len(s: Seq<u8>, i: int) -> nat
    decreases s.len() - i,
{
    if i < 0 || i >= s.len() || !is_hex_b(s[i]) {
        0
    } else {
        1 + hex_len(s, i + 1)
    }
}

/// Number of bytes from `i` up to (not including) the next newline.
pub open spec fn cmt_len(s: Seq<u8>, i: int) -> nat
    decreases s.len() - i,
{
    if i < 0 || i >= s.len() || s[i] == 10 {
        0
    } else {
        1 + cmt_len(s, i + 1)
    }
}

/// Value of a digit byte.
pub open spec fn digit_val(b: u8) -> u64 {
    if 48 <= b <= 57 {
        (b - 48) as u64
    } else if 65 <= b <= 70 {
        (b - 55) as u64
    } else if 97 <= b <= 102 {
        (b - 87) as u64
    } else {
        0
    }
}

/// Value of the `n` digit bytes at `i` in the given radix, folded onto
/// `acc`; `None` when the value exceeds `u64`.
pub open spec fn num_val(s: Seq<u8>, i: int, n: nat, radix: u64, acc: u64) -> Option<u64>
    decreases n,
{
    if n == 0 {
        Some(acc)
    } else if acc as int * radix as int + digit_val(s[i]) as int > u64::MAX as int {
        None
    } else {
        num_val(s, i + 1, (n - 1) as nat, radix, (acc as int * radix as int + digit_val(s[i]) as int) as u64)
    }
}

/// How a string-literal scan ended.
#[derive(Clone, Copy, PartialEq, Eq, Structural, Debug)]
pub enum StrStatus {
    /// The closing quote was found.
    Closed,
    /// The input or the line ended first.
    Unterminated,
    /// A backslash was followed by a byte that is no escape.
    BadEscape,
}

/// Result of scanning a string literal from the byte after its opening
/// quote: how it ended, and how many bytes were consumed (on `Closed`,
/// including the closing quote; on `BadEscape`, the offset of the
/// backslash).
pub struct StrScan {
    pub consumed: nat,
    pub status: StrStatus,
}

/// Scan a string literal body starting at `i` (just after the opening
/// quote).
pub open spec fn str_scan(s: Seq<u8>, i: int) -> StrScan
    decreases s.len() - i,
{
    if i < 0 || i >= s.len() || s[i] == 10 {
        StrScan { consumed: 0, status: StrStatus::Unterminated }
    } else if s[i] == 34 {
        StrScan { consumed: 1, status: StrStatus::Closed }
    } else if s[i] == 92 {
        if i + 1 >= s.len() {
            StrScan { consumed: 0, status: StrStatus::Unterminated }
        } else if is_esc(s[i + 1]) {
            let r = str_scan(s, i + 2);
            StrScan { consumed: 2 + r.consumed, status: r.status }
        } else {
            StrScan { consumed: 0, status: StrStatus::BadEscape }
        }
    } else {
        let r = str_scan(s, i + 1);
        StrScan { consumed: 1 + r.consumed, status: r.status }
    }
}

/// A comment runs at most to the end of the source.
pub proof fn lemma_cmt_len_le(s: Seq<u8>, i: int)
    requires
        0 <= i <= s.len(),
    ensures
        i + cmt_len(s, i) <= s.len(),
    decreases s.len() - i,
{
    if i < s.len() && s[i] != 10 {
        lemma_cmt_len_le(s, i + 1);
    }
}

/// An identifier runs at most to the end of the source.
pub proof fn lemma_ident_len_le(s: Seq<u8>, i: int)
    requires
        0 <= i <= s.len(),
    ensures
        i + ident_len(s, i) <= s.len(),
    decreases s.len() - i,
{
    if i < s.len() && is_ident_cont(s[i]) {
        lemma_ident_len_le(s, i + 1);
    }
}

/// A digit run ends at most at the end of the source.
pub proof fn lemma_dec_len_le(s: Seq<u8>, i: int)
    requires
        0 <= i <= s.len(),
    ensures
        i + dec_len(s, i) <= s.len(),
    decreases s.len() - i,
{
    if i < s.len() && is_digit_b(s[i]) {
        lemma_dec_len_le(s, i + 1);
    }
}

/// A hexadecimal digit run ends at most at the end of the source.
pub proof fn lemma_hex_len_le(s: Seq<u8>, i: int)
    requires
        0 <= i <= s.len(),
    ensures
        i + hex_len(s, i) <= s.len(),
    decreases s.len() - i,
{
    if i < s.len() && is_hex_b(s[i]) {
        lemma_hex_len_le(s, i + 1);
    }
}

/// A string-literal scan consumes at most the rest of the source.
pub proof fn lemma_str_scan_le(s: Seq<u8>, i: int)
    requires
        0 <= i <= s.len(),
    ensures
        i + str_scan(s, i).consumed <= s.len(),
    decreases s.len() - i,
{
    if i < s.len() && s[i] != 10 && s[i] != 34 {
        if s[i] == 92 {
            if i + 1 < s.len() && is_esc(s[i + 1]) {
                lemma_str_scan_le(s, i + 2);
            }
        } else {
            lemma_str_scan_le(s, i + 1);
        }
    }
}

/// The token sequence of the source from position `i` on, appended to
/// `acc`; positions `line`/`col` describe `i`.
pub open spec fn spec_lex_at(s: Seq<u8>, i: int, line: u64, col: u64, acc: Seq<Token>) -> Result<
    Seq<Token>,
    CompileError,
>
    decreases s.len() - i,
    via spec_lex_at_dec
{
    if i < 0 || i >= s.len() {
        Ok(acc)
    } else {
        let b = s[i];
        let pos = Pos { line, col };
        if is_ws(b) {
            spec_lex_at(s, i + 1, line, col.saturating_add(1), acc)
        } else if b == 10 {
            spec_lex_at(
                s,
                i + 1,
                line.saturating_add(1),
                1,
                acc.push(Token { kind: TokenKind::Newline, pos }),
            )
        } else if b == 59 {
            let n = 1 + cmt_len(s, i + 1);
            spec_lex_at(s, i + n, line, col.saturating_add(n as u64), acc)
        } else if b == 58 {
            spec_lex_at(
                s,
                i + 1,
                line,
                col.saturating_add(1),
                acc.push(Token { kind: TokenKind::Colon, pos }),
            )
        } else if b == 44 {
            spec_lex_at(
                s,
                i + 1,
                line,
                col.saturating_add(1),
                acc.push(Token { kind: TokenKind::Comma, pos }),
            )
        } else if b == 46 {
            if i + 1 < s.len() && is_ident_start(s[i + 1]) {
                let n = ident_len(s, i + 1);
                spec_lex_at(
                    s,
                    i + 1 + n,
                    line,
                    col.saturating_add((1 + n) as u64),
                    acc.push(
                        Token {
                            kind: TokenKind::Directive { lo: (i + 1) as usize, hi: (i + 1 + n) as usize },
                            pos,
                        },
                    ),
                )
            } else {
                Err(CompileError::LexError { kind: LexErrorKind::InvalidChar, pos })
            }
        } else if is_ident_start(b) {
            let n = 1 + ident_len(s, i + 1);
            spec_lex_at(
                s,
                i + n,
                line,
                col.saturating_add(n as u64),
                acc.push(
                    Token { kind: TokenKind::Ident { lo: i as usize, hi: (i + n) as usize }, pos },
                ),
            )
        } else if is_digit_b(b) {
            if b == 48 && i + 1 < s.len() && (s[i + 1] == 120 || s[i + 1] == 88) {
                let n = hex_len(s, i + 2);
                if n == 0 {
                    Err(CompileError::LexError { kind: LexErrorKind::MalformedNumber, pos })
                } else {
                    match num_val(s, i + 2, n, 16, 0) {
                        Option::None => Err(
                            CompileError::LexError { kind: LexErrorKind::MalformedNumber, pos },
                        ),
                        Option::Some(v) => spec_lex_at(
                            s,
                            i + 2 + n,
                            line,
                            col.saturating_add((2 + n) as u64),
                            acc.push(Token { kind: TokenKind::Int { v }, pos }),
                        ),
                    }
                }
            } else {
                let n = 1 + dec_len(s, i + 1);
                match num_val(s, i, n as nat, 10, 0) {
                    Option::None => Err(
                        CompileError::LexError { kind: LexErrorKind::MalformedNumber, pos },
                    ),
                    Option::Some(v) => spec_lex_at(
                        s,
                        i + n,
                        line,
                        col.saturating_add(n as u64),
                        acc.push(Token { kind: TokenKind::Int { v }, pos }),
                    ),
                }
            }
        } else if b == 34 {
            let r = str_scan(s, i + 1);
            match r.status {
                StrStatus::Closed => spec_lex_at(
                    s,
                    i + 1 + r.consumed,
                    line,
                    col.saturating_add((1 + r.consumed) as u64),
                    acc.push(
                        Token {
                            kind: TokenKind::Str { lo: (i + 1) as usize, hi: (i + r.consumed) as usize },
                            pos,
                        },
                    ),
                ),
                StrStatus::Unterminated => Err(
                    CompileError::LexError { kind: LexErrorKind::UnterminatedString, pos },
                ),
                StrStatus::BadEscape => Err(
                    CompileError::LexError {
                        kind: LexErrorKind::InvalidChar,
                        pos: Pos { line, col: col.saturating_add((1 + r.consumed) as u64) },
                    },
                ),
            }
        } else {
            Err(CompileError::LexError { kind: LexErrorKind::InvalidChar, pos })
        }
    }
}

#[via_fn]
proof fn spec_lex_at_dec(s: Seq<u8>, i: int, line: u64, col: u64, acc: Seq<Token>) {
    if 0 <= i && i < s.len() {
        lemma_cmt_len_le(s, i + 1);
        lemma_ident_len_le(s, i + 1);
        lemma_dec_len_le(s, i + 1);
        lemma_str_scan_le(s, i + 1);
        if i + 2 <= s.len() {
            lemma_hex_len_le(s, i + 2);
        }
    }
}

/// The token sequence of a whole source, or its first lexical error.
pub open spec fn spec_lex(s: Seq<u8>) -> Result<Seq<Token>, CompileError> {
    spec_lex_at(s, 0, 1, 1, Seq::empty())
}

/// End of the identifier run starting at `i`.
fn scan_ident_end(s: &Vec<u8>, i: usize) -> (j: usize)
    requires
        i <= s@.len(),
    ensures
        j == i + ident_len(s@, i as int),
        i <= j <= s@.len(),
{
    let mut j = i;
    while j < s.len() && is_ident_cont_x(s[j])
        invariant
            i <= j <= s@.len(),
            ident_len(s@, i as int) == (j - i) + ident_len(s@, j as int),
        decreases s@.len() - j,
    {
        j = j + 1;
    }
    j
}

/// End of the decimal-digit run starting at `i`.
fn scan_dec_end(s: &Vec<u8>, i: usize) -> (j: usize)
    requires
        i <= s@.len(),
    ensures
        j == i + dec_len(s@, i as int),
        i <= j <= s@.len(),
{
    let mut j = i;
    while j < s.len() && 48 <= s[j] && s[j] <= 57
        invariant
            i <= j <= s@.len(),
            dec_len(s@, i as int) == (j - i) + dec_len(s@, j as int),
        decreases s@.len() - j,
    {
        j = j + 1;
    }
    j
}

/// End of the hexadecimal-digit run starting at `i`.
fn scan_hex_end(s: &Vec<u8>, i: usize) -> (j: usize)
    requires
        i <= s@.len(),
    ensures
        j == i + hex_len(s@, i as int),
        i <= j <= s@.len(),
{
    let mut j = i;
    while j < s.len() && is_hex_x(s[j])
        invariant
            i <= j <= s@.len(),
            hex_len(s@, i as int) == (j - i) + hex_len(s@, j as int),
        decreases s@.len() - j,
    {
        j = j + 1;
    }
    j
}

/// Index of the next newline at or after `i`, or the end of the source.
fn scan_cmt_end(s: &Vec<u8>, i: usize) -> (j: usize)
    requires
        i <= s@.len(),
    ensures
        j == i + cmt_len(s@, i as int),
        i <= j <= s@.len(),
{
    let mut j = i;
    while j < s.len() && s[j] != 10
        invariant
            i <= j <= s@.len(),
            cmt_len(s@, i as int) == (j - i) + cmt_len(s@, j as int),
        decreases s@.len() - j,
    {
        j = j + 1;
    }
    j
}

fn is_ident_start_x(b: u8) -> (r: bool)
    ensures
        r == is_ident_start(b),
{
    (65 <= b && b <= 90) || (97 <= b && b <= 122) || b == 95
}

fn is_ident_cont_x(b: u8) -> (r: bool)
    ensures
        r == is_ident_cont(b),
{
    is_ident_start_x(b) || (48 <= b && b <= 57)
}

fn is_hex_x(b: u8) -> (r: bool)
    ensures
        r == is_hex_b(b),
{
    (48 <= b && b <= 57) || (65 <= b && b <= 70) || (97 <= b && b <= 102)
}

/// Scan a string literal body starting at `j` (just after the opening
/// quote); returns bytes consumed and how the scan ended.
fn scan_str(s: &Vec<u8>, j: usize) -> (r: (usize, StrStatus))
    requires
        j <= s@.len(),
    ensures
        r.0 == str_scan(s@, j as int).consumed,
        r.1 == str_scan(s@, j as int).status,
        j + r.0 <= s@.len(),
        r.1 == StrStatus::Closed ==> r.0 >= 1,
    decreases s@.len() - j,
{
    if j >= s.len() {
        (0, StrStatus::Unterminated)
    } else {
        let b = s[j];
        if b == 10 {
            (0, StrStatus::Unterminated)
        } else if b == 34 {
            (1, StrStatus::Closed)
        } else if b == 92 {
            if j + 1 >= s.len() {
                (0, StrStatus::Unterminated)
            } else {
                let e = s[j + 1];
                if e == 110 || e == 116 || e == 48 || e == 92 || e == 34 {
                    let (c, st) = scan_str(s, j + 2);
                    (2 + c, st)
                } else {
                    (0, StrStatus::BadEscape)
                }
            }
        } else {
            let (c, st) = scan_str(s, j + 1);
            (1 + c, st)
        }
    }
}

/// Value of the `n` digit bytes at `i` in the given radix; `None` when it
/// exceeds `u64`.
fn parse_num(s: &Vec<u8>, i: usize, n: usize, radix: u64) -> (r: Option<u64>)
    requires
        i + n <= s@.len(),
        1 <= radix <= 16,
    ensures
        r == num_val(s@, i as int, n as nat, radix, 0),
{
    let mut acc: u64 = 0;
    let mut k: usize = 0;
    while k < n
        invariant
            0 <= k <= n,
            i + n <= s@.len(),
            1 <= radix <= 16,
            num_val(s@, i as int, n as nat, radix, 0) == num_val(
                s@,
                (i + k) as int,
                (n - k) as nat,
                radix,
                acc,
            ),
        decreases n - k,
    {
        let slen = s.len();
        assert(i + k < slen);
        let b = s[i + k];
        let d: u64 = if 48 <= b && b <= 57 {
            (b - 48) as u64
        } else if 65 <= b && b <= 70 {
            (b - 55) as u64
        } else if 97 <= b && b <= 102 {
            (b - 87) as u64
        } else {
            0
        };
        assert(d == digit_val(s@[(i + k) as int]));
        assert(acc as int * radix as int <= u64::MAX as int * 16) by (nonlinear_arith)
            requires
                acc <= u64::MAX,
                radix <= 16,
        ;
        let t: u128 = acc as u128 * radix as u128 + d as u128;
        if t > u64::MAX as u128 {
            return Option::None;
        }
        acc = t as u64;
        k = k + 1;
    }
    Option::Some(acc)
}

/// Lex a whole source. Returns the token sequence `spec_lex` gives, or the
/// first lexical error; every returned token's spans lie within the source.
pub fn lex(src: &Vec<u8>) -> (r: Result<Vec<Token>, CompileError>)
    ensures
        match r {
            Ok(toks) => Ok::<Seq<Token>, CompileError>(toks@) == spec_lex(src@) && forall|k: int|
                0 <= k < toks@.len() ==> wf_token(#[trigger] toks@[k], src@.len()),
            Err(e) => Err::<Seq<Token>, CompileError>(e) == spec_lex(src@),
        },
{
    let mut toks: Vec<Token> = Vec::new();
    let mut i: usize = 0;
    let mut line: u64 = 1;
    let mut col: u64 = 1;
    while i < src.len()
        invariant
            i <= src@.len(),
            spec_lex(src@) == spec_lex_at(src@, i as int, line, col, toks@),
            forall|k: int| 0 <= k < toks@.len() ==> wf_token(#[trigger] toks@[k], src@.len()),
        decreases src@.len() - i,
    {
        let b = src[i];
        let pos = Pos { line, col };
        if b == 32 || b == 9 || b == 13 {
            i = i + 1;
            col = col.saturating_add(1);
        } else if b == 10 {
            toks.push(Token { kind: TokenKind::Newline, pos });
            i = i + 1;
            line = line.saturating_add(1);
            col = 1;
        } else if b == 59 {
            let j = scan_cmt_end(src, i);
            col = col.saturating_add((j - i) as u64);
            i = j;
        } else if b == 58 {
            toks.push(Token { kind: TokenKind::Colon, pos });
            i = i + 1;
            col = col.saturating_add(1);
        } else if b == 44 {
            toks.push(Token { kind: TokenKind::Comma, pos });
            i = i + 1;
            col = col.saturating_add(1);
        } else if b == 46 {
            if i + 1 < src.len() && is_ident_start_x(src[i + 1]) {
                let j = scan_ident_end(src, i + 1);
                toks.push(Token { kind: TokenKind::Directive { lo: i + 1, hi: j }, pos });
                col = col.saturating_add((j - i) as u64);
                i = j;
            } else {
                return Err(CompileError::LexError { kind: LexErrorKind::InvalidChar, pos });
            }
        } else if is_ident_start_x(b) {
            let j = scan_ident_end(src, i);
            toks.push(Token { kind: TokenKind::Ident { lo: i, hi: j }, pos });
            col = col.saturating_add((j - i) as u64);
            i = j;
        } else if 48 <= b && b <= 57 {
            if b == 48 && i + 1 < src.len() && (src[i + 1] == 120 || src[i + 1] == 88) {
                let j = scan_hex_end(src, i + 2);
                if j == i + 2 {
                    return Err(
                        CompileError::LexError { kind: LexErrorKind::MalformedNumber, pos },
                    );
                }
                match parse_num(src, i + 2, j - (i + 2), 16) {
                    Option::None => {
                        return Err(
                            CompileError::LexError { kind: LexErrorKind::MalformedNumber, pos },
                        );
                    },
                    Option::Some(v) => {
                        toks.push(Token { kind: TokenKind::Int { v }, pos });
                        col = col.saturating_add((j - i) as u64);
                        i = j;
                    },
                }
            } else {
                let j = scan_dec_end(src, i);
                match parse_num(src, i, j - i, 10) {
                    Option::None => {
                        return Err(
                            CompileError::LexError { kind: LexErrorKind::MalformedNumber, pos },
                        );
                    },
                    Option::Some(v) => {
                        toks.push(Token { kind: TokenKind::Int { v }, pos });
                        col = col.saturating_add((j - i) as u64);
                        i = j;
                    },
                }
            }
        } else if b == 34 {
            let (c, st) = scan_str(src, i + 1);
            match st {
                StrStatus::Closed => {
                    toks.push(Token { kind: TokenKind::Str { lo: i + 1, hi: i + c }, pos });
                    col = col.saturating_add((1 + c) as u64);
                    i = i + 1 + c;
                },
                StrStatus::Unterminated => {
                    return Err(
                        CompileError::LexError { kind: LexErrorKind::UnterminatedString, pos },
                    );
                },
                StrStatus::BadEscape => {
                    return Err(
                        CompileError::LexError {
                            kind: LexErrorKind::InvalidChar,
                            pos: Pos { line, col: col.saturating_add((1 + c) as u64) },
                        },
                    );
                },
            }
        } else {
            return Err(CompileError::LexError { kind: LexErrorKind::InvalidChar, pos });
        }
    }
    Ok(toks)
}

} // verus!
