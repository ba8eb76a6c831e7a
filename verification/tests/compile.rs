//! End-to-end tests of successful compilations.

use asmc::ast::CompileError;
use asmc::compiler::Compiler;

fn compile_src(
    s: &str,
    wl: Option<Vec<&str>>,
) -> Result<(Vec<u8>, Vec<u8>), CompileError> {
    let src: Vec<u8> = s.as_bytes().to_vec();
    let wl: Option<Vec<Vec<u8>>> =
        wl.map(|v| v.into_iter().map(|m| m.as_bytes().to_vec()).collect());
    Compiler::compile(&src, wl)
}

#[test]
fn empty_program() {
    let (bin, sym) = compile_src("", None).unwrap();
    assert_eq!(bin, Vec::<u8>::new());
    assert_eq!(sym, Vec::<u8>::new());
}

#[test]
fn example_scenario_start_mov_jmp() {
    let (bin, sym) = compile_src("START:\n MOV R1, 5\n JMP START\n", None).unwrap();
    // MOV R1, 5  ->  opcode 2, reg operand (1, 1), imm operand (0, 5)
    // JMP START  ->  opcode 5, addr operand (2, 0): START is at address 0
    assert_eq!(bin, vec![2, 1, 1, 0, 0, 5, 0, 5, 2, 0, 0]);
    assert_eq!(sym, b"START -> 0\n".to_vec());
    assert_eq!(String::from_utf8(sym).unwrap(), "START -> 0\n");
}

#[test]
fn forward_reference_resolves() {
    // JMP END is 4 bytes, NOP is 1: END lands at address 5.
    let (bin, sym) = compile_src("JMP END\nNOP\nEND:\n", None).unwrap();
    assert_eq!(bin, vec![5, 2, 5, 0, 0]);
    assert_eq!(String::from_utf8(sym).unwrap(), "END -> 5\n");
}

#[test]
fn forward_and_backward_reference_same_address() {
    // The label sits at address 4 in both programs; the reference bytes
    // agree whether the definition comes before or after the reference.
    let (bin_fwd, _) = compile_src("JMP L\nL:\nNOP\n", None).unwrap();
    let (bin_back, _) = compile_src("NOP\nNOP\nNOP\nNOP\nL:\nJMP L\n", None).unwrap();
    assert_eq!(bin_fwd, vec![5, 2, 4, 0, 0]);
    assert_eq!(bin_back, vec![0, 0, 0, 0, 5, 2, 4, 0]);
    assert_eq!(bin_fwd[0..4], bin_back[4..8]);
}

#[test]
fn compilation_is_deterministic() {
    let src = "LOOP:\n ADD R2, 1\n JZ R2, DONE\n JMP LOOP\nDONE:\n HALT\n";
    let wl = Some(vec!["ADD", "JZ", "JMP", "HALT"]);
    let first = compile_src(src, wl.clone()).unwrap();
    let second = compile_src(src, wl).unwrap();
    assert_eq!(first.0, second.0);
    assert_eq!(first.1, second.1);
}

#[test]
fn symbol_text_deterministic_and_ordered() {
    let src = "A:\nNOP\nB:\nNOP\nC:\n";
    let (_, sym1) = compile_src(src, None).unwrap();
    let (_, sym2) = compile_src(src, None).unwrap();
    assert_eq!(sym1, sym2);
    assert_eq!(String::from_utf8(sym1).unwrap(), "A -> 0\nB -> 1\nC -> 2\n");
}

#[test]
fn hex_and_decimal_literals() {
    let (bin, _) = compile_src("MOV R0, 0x10\nMOV R1, 16\n", None).unwrap();
    assert_eq!(bin, vec![2, 1, 0, 0, 0, 16, 0, 2, 1, 1, 0, 0, 16, 0]);
}

#[test]
fn comments_and_blank_lines_ignored() {
    let (bin, sym) = compile_src("; a comment\n\n  NOP ; trailing\n\nHALT\n", None).unwrap();
    assert_eq!(bin, vec![0, 1]);
    assert!(sym.is_empty());
}

#[test]
fn no_trailing_newline() {
    let (bin, _) = compile_src("NOP", None).unwrap();
    assert_eq!(bin, vec![0]);
}

#[test]
fn byte_word_and_string_directives() {
    let (bin, _) = compile_src(".byte 255\n.word 0x1234\n.string \"AB\"\n", None).unwrap();
    assert_eq!(bin, vec![255, 0x34, 0x12, 65, 66]);
}

#[test]
fn word_directive_takes_a_label() {
    // the word sits at address 0..2, HERE at address 2
    let (bin, sym) = compile_src(".word HERE\nHERE:\n.byte 7\n", None).unwrap();
    assert_eq!(bin, vec![2, 0, 7]);
    assert_eq!(String::from_utf8(sym).unwrap(), "HERE -> 2\n");
}

#[test]
fn string_escapes() {
    let (bin, _) =
        compile_src(".string \"A\\n\\t\\0\\\\\\\"B\"\n", None).unwrap();
    assert_eq!(bin, vec![65, 10, 9, 0, 92, 34, 66]);
}

#[test]
fn register_operands_encode_with_register_mode() {
    let (bin, _) = compile_src("MOV R3, R9\nSUB R0, R1\n", None).unwrap();
    assert_eq!(bin, vec![2, 1, 3, 0, 1, 9, 0, 4, 1, 0, 0, 1, 1, 0]);
}

#[test]
fn nullary_and_unary_instructions() {
    let (bin, _) = compile_src("NOP\nHALT\nJMP 9\n", None).unwrap();
    assert_eq!(bin, vec![0, 1, 5, 0, 9, 0]);
}

#[test]
fn read_to_string_reads_a_full_stream() {
    let data: &[u8] = b"MOV R1, 5\n";
    assert_eq!(asmc::input::read_to_string(data), Some(String::from("MOV R1, 5\n")));
}

#[test]
fn large_immediate_at_width_limit() {
    let (bin, _) = compile_src("MOV R0, 65535\n", None).unwrap();
    assert_eq!(bin, vec![2, 1, 0, 0, 0, 255, 255]);
}
