use bfrun::codegen::{code_image, code_region_len, compile_to_assembly, emit_assembly};
use bfrun::error::BfError;

const HEAD: &str = "[BITS 64]\nstart:\npush rdi\npush rsi\npush rdx\nmov rsi, rdi\n";
const TAIL: &str = "xor eax, eax\npop rdx\npop rsi\npop rdi\nret\n";

#[test]
fn empty_program_is_entry_and_exit_only() {
    let text = compile_to_assembly(&Vec::new()).unwrap();
    let expected = format!("{}label_0:\n{}", HEAD, TAIL);
    assert_eq!(String::from_utf8(text).unwrap(), expected);
}

#[test]
fn simple_instructions_become_code() {
    let text = compile_to_assembly(&b"><+-x".to_vec()).unwrap();
    let expected = format!(
        "{}label_0:\ninc rsi\nlabel_1:\ndec rsi\nlabel_2:\ninc BYTE [rsi]\nlabel_3:\ndec BYTE [rsi]\nlabel_4:\nlabel_5:\n{}",
        HEAD, TAIL
    );
    assert_eq!(String::from_utf8(text).unwrap(), expected);
}

#[test]
fn loop_jumps_land_after_partner() {
    let text = compile_to_assembly(&b"[]".to_vec()).unwrap();
    let expected = format!(
        "{}label_0:\n\nmov dl, BYTE [rsi]\ntest dl, dl\nje label_2\nlabel_1:\n\nmov dl, BYTE [rsi]\ntest dl, dl\njne label_1\nlabel_2:\n{}",
        HEAD, TAIL
    );
    assert_eq!(String::from_utf8(text).unwrap(), expected);
}

#[test]
fn io_instructions_use_system_calls() {
    let text = String::from_utf8(compile_to_assembly(&b".,".to_vec()).unwrap()).unwrap();
    assert!(text.contains(
        "label_0:\n\nxor eax, eax\ninc eax\nxor edi, edi\ninc edi\nxor edx, edx\ninc edx\nsyscall\n"
    ));
    assert!(text.contains("label_1:\n\nxor eax, eax\nxor edi, edi\nxor edx, edx\ninc edx\nsyscall\n"));
}

#[test]
fn labels_are_hexadecimal() {
    let mut p = vec![b' '; 26];
    p.push(b'[');
    p.push(b']');
    let text = String::from_utf8(compile_to_assembly(&p).unwrap()).unwrap();
    assert!(text.contains("label_1a:\n\nmov dl, BYTE [rsi]\ntest dl, dl\nje label_1c\n"));
    assert!(text.contains("label_1b:\n\nmov dl, BYTE [rsi]\ntest dl, dl\njne label_1b\n"));
    assert!(text.ends_with(&format!("label_1c:\n{}", TAIL)));
}

#[test]
fn emit_uses_given_table() {
    let p = b"+[-]".to_vec();
    let t = vec![0, 3, 0, 1];
    let text = String::from_utf8(emit_assembly(&p, &t)).unwrap();
    assert!(text.contains("je label_4\n"));
    assert!(text.contains("jne label_2\n"));
}

#[test]
fn compile_fails_on_unbalanced_brackets() {
    assert_eq!(
        compile_to_assembly(&b"+]".to_vec()),
        Err(BfError::MismatchedClose { position: 1 })
    );
    assert_eq!(compile_to_assembly(&b"[".to_vec()), Err(BfError::UnmatchedOpen));
}

#[test]
fn region_is_32_bytes_per_instruction() {
    assert_eq!(code_region_len(10), Some(320));
    assert_eq!(code_region_len(0), Some(0));
    assert_eq!(code_region_len(usize::MAX / 32), Some(usize::MAX / 32 * 32));
    assert_eq!(code_region_len(usize::MAX / 32 + 1), None);
}

#[test]
fn image_pads_with_returns() {
    let bin = vec![0x90, 0x90, 0x31];
    assert_eq!(code_image(&bin, 6), vec![0x90, 0x90, 0x31, 0xc3, 0xc3, 0xc3]);
    assert_eq!(code_image(&bin, 3), bin);
}
