//! Tests of the error taxonomy: each failure kind, with its position.

use asmc::ast::{CompileError, LexErrorKind, Mnemonic, ParseErrorKind};
use asmc::compiler::Compiler;

fn compile_err(s: &str, wl: Option<Vec<&str>>) -> CompileError {
    let src: Vec<u8> = s.as_bytes().to_vec();
    let wl: Option<Vec<Vec<u8>>> =
        wl.map(|v| v.into_iter().map(|m| m.as_bytes().to_vec()).collect());
    Compiler::compile(&src, wl).unwrap_err()
}

#[test]
fn whitelist_rejects_disallowed_instruction() {
    // a whitelist of MOV and ADD rejects the JMP, citing it
    let src = "START:\n MOV R1, 5\n JMP START\n";
    match compile_err(src, Some(vec!["MOV", "ADD"])) {
        CompileError::DisallowedInstruction { m, pos } => {
            assert_eq!(m, Mnemonic::Jmp);
            assert_eq!(pos.line, 3);
        }
        other => panic!("expected DisallowedInstruction, got {:?}", other),
    }
    // the same program with no whitelist compiles
    let src_vec = src.as_bytes().to_vec();
    assert!(Compiler::compile(&src_vec, None).is_ok());
}

#[test]
fn whitelist_cites_first_offender_in_program_order() {
    match compile_err("SUB R1, 1\nJMP 0\n", Some(vec!["MOV"])) {
        CompileError::DisallowedInstruction { m, .. } => assert_eq!(m, Mnemonic::Sub),
        other => panic!("expected DisallowedInstruction, got {:?}", other),
    }
}

#[test]
fn duplicate_label_fails() {
    match compile_err("A:\nNOP\nA:\n", None) {
        CompileError::DuplicateSymbol { pos, .. } => assert_eq!(pos.line, 3),
        other => panic!("expected DuplicateSymbol, got {:?}", other),
    }
}

#[test]
fn duplicate_label_fails_even_unreferenced() {
    match compile_err("X:\nX:\n", None) {
        CompileError::DuplicateSymbol { .. } => {}
        other => panic!("expected DuplicateSymbol, got {:?}", other),
    }
}

#[test]
fn undefined_symbol_fails() {
    let src = "JMP NOWHERE\n";
    match compile_err(src, None) {
        CompileError::UndefinedSymbol { lo, hi, pos } => {
            assert_eq!(&src.as_bytes()[lo..hi], b"NOWHERE");
            assert_eq!(pos.line, 1);
        }
        other => panic!("expected UndefinedSymbol, got {:?}", other),
    }
}

#[test]
fn undefined_symbol_fails_even_if_others_resolve() {
    match compile_err("OK:\nJMP OK\nJMP MISSING\n", None) {
        CompileError::UndefinedSymbol { pos, .. } => assert_eq!(pos.line, 3),
        other => panic!("expected UndefinedSymbol, got {:?}", other),
    }
}

#[test]
fn invalid_character() {
    match compile_err("NOP\n@\n", None) {
        CompileError::LexError { kind, pos } => {
            assert_eq!(kind, LexErrorKind::InvalidChar);
            assert_eq!(pos.line, 2);
            assert_eq!(pos.col, 1);
        }
        other => panic!("expected LexError, got {:?}", other),
    }
}

#[test]
fn unterminated_string() {
    match compile_err(".string \"abc\n", None) {
        CompileError::LexError { kind, pos } => {
            assert_eq!(kind, LexErrorKind::UnterminatedString);
            assert_eq!(pos.line, 1);
            assert_eq!(pos.col, 9);
        }
        other => panic!("expected LexError, got {:?}", other),
    }
}

#[test]
fn invalid_escape() {
    match compile_err(".string \"a\\qb\"\n", None) {
        CompileError::LexError { kind, .. } => assert_eq!(kind, LexErrorKind::InvalidChar),
        other => panic!("expected LexError, got {:?}", other),
    }
}

#[test]
fn malformed_number_empty_hex() {
    match compile_err("MOV R0, 0x\n", None) {
        CompileError::LexError { kind, .. } => assert_eq!(kind, LexErrorKind::MalformedNumber),
        other => panic!("expected LexError, got {:?}", other),
    }
}

#[test]
fn malformed_number_overflow() {
    match compile_err("MOV R0, 99999999999999999999999\n", None) {
        CompileError::LexError { kind, .. } => assert_eq!(kind, LexErrorKind::MalformedNumber),
        other => panic!("expected LexError, got {:?}", other),
    }
}

#[test]
fn unknown_mnemonic() {
    match compile_err("FROB R1, 2\n", None) {
        CompileError::ParseError { kind, .. } => {
            assert_eq!(kind, ParseErrorKind::UnknownMnemonic)
        }
        other => panic!("expected ParseError, got {:?}", other),
    }
}

#[test]
fn unknown_directive() {
    match compile_err(".frob 1\n", None) {
        CompileError::ParseError { kind, .. } => {
            assert_eq!(kind, ParseErrorKind::UnknownDirective)
        }
        other => panic!("expected ParseError, got {:?}", other),
    }
}

#[test]
fn wrong_arity_missing_operand() {
    match compile_err("MOV R1\n", None) {
        CompileError::ParseError { kind, .. } => assert_eq!(kind, ParseErrorKind::WrongArity),
        other => panic!("expected ParseError, got {:?}", other),
    }
}

#[test]
fn wrong_arity_three_operands() {
    match compile_err("MOV R1, 2, 3\n", None) {
        CompileError::ParseError { kind, .. } => assert_eq!(kind, ParseErrorKind::WrongArity),
        other => panic!("expected ParseError, got {:?}", other),
    }
}

#[test]
fn wrong_shape_jump_to_register() {
    match compile_err("JMP R1\n", None) {
        CompileError::ParseError { kind, .. } => assert_eq!(kind, ParseErrorKind::WrongArity),
        other => panic!("expected ParseError, got {:?}", other),
    }
}

#[test]
fn missing_comma_between_operands() {
    match compile_err("MOV R1 5\n", None) {
        CompileError::ParseError { kind, .. } => {
            assert_eq!(kind, ParseErrorKind::UnexpectedToken)
        }
        other => panic!("expected ParseError, got {:?}", other),
    }
}

#[test]
fn statement_after_label_on_same_line() {
    match compile_err("A: NOP\n", None) {
        CompileError::ParseError { kind, .. } => {
            assert_eq!(kind, ParseErrorKind::UnexpectedToken)
        }
        other => panic!("expected ParseError, got {:?}", other),
    }
}

#[test]
fn immediate_too_wide() {
    match compile_err("MOV R0, 65536\n", None) {
        CompileError::EncodingRange { value, .. } => assert_eq!(value, 65536),
        other => panic!("expected EncodingRange, got {:?}", other),
    }
}

#[test]
fn byte_directive_range() {
    match compile_err(".byte 256\n", None) {
        CompileError::EncodingRange { value, .. } => assert_eq!(value, 256),
        other => panic!("expected EncodingRange, got {:?}", other),
    }
}

#[test]
fn program_exceeding_address_space() {
    let big = "A".repeat(70000);
    let src = format!(".string \"{}\"\n", big);
    match compile_err(&src, None) {
        CompileError::EncodingRange { value, .. } => assert_eq!(value, 70000),
        other => panic!("expected EncodingRange, got {:?}", other),
    }
}
