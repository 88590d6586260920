use decoder_8086::decoder::{
    decode_buffer, decode_first_register, decode_instruction, decode_second_register, get_d_value,
    get_mod, get_w_value, DecodeError,
};
use decoder_8086::registers::byte_to_register;

#[test]
fn test_decode_mov() {
    assert_eq!(
        decode_buffer(&vec![0x89, 0xd9]).unwrap(),
        "bits 16\n\nmov cx, bx"
    )
}

#[test]
fn test_decode_mov_byte_width() {
    assert_eq!(
        decode_buffer(&vec![0x88, 0xd9]).unwrap(),
        "bits 16\n\nmov cl, bl"
    )
}

#[test]
fn test_decode_empty_buffer_rejected() {
    assert_eq!(decode_buffer(&[]), Err(DecodeError::EmptyBuffer));
}

#[test]
fn test_decode_odd_length_rejected() {
    assert_eq!(decode_buffer(&[0x89, 0xd9, 0x89]), Err(DecodeError::OddLength));
}

#[test]
fn test_decode_newline_count_matches_unit_count() {
    let buffer = vec![0x89, 0xd9, 0x88, 0xc1, 0x00, 0x00];
    let text = decode_buffer(&buffer).unwrap();
    let newlines = text.chars().filter(|c| *c == '\n').count();
    assert_eq!(newlines, 1 + buffer.len() / 2);
}

#[test]
fn test_unknown_opcode_is_isolated() {
    let text = decode_buffer(&[0x00, 0xd9, 0x89, 0xd9]).unwrap();
    assert_eq!(text, "bits 16\n\nUNKNOWN cl, bl\nmov cx, bx");
}

#[test]
fn test_decode_is_idempotent() {
    let buffer = vec![0x89, 0xd9, 0x12, 0x34];
    let first = decode_buffer(&buffer);
    let second = decode_buffer(&buffer);
    assert_eq!(first, second);
}

#[test]
fn test_decode_instruction_mnemonics() {
    assert_eq!(decode_instruction(0x89), "mov");
    assert_eq!(decode_instruction(0x88), "mov");
    assert_eq!(decode_instruction(0x8b), "mov");
    assert_eq!(decode_instruction(0x00), "UNKNOWN");
    assert_eq!(decode_instruction(0xff), "UNKNOWN");
}

#[test]
fn test_field_extraction() {
    assert!(get_w_value(0x89));
    assert!(!get_w_value(0x88));
    assert!(get_d_value(0x02));
    assert!(!get_d_value(0x01));
    assert_eq!(get_mod(0xd9), 0b11);
    assert_eq!(get_mod(0x3f), 0b00);
}

#[test]
fn test_operand_register_resolution() {
    assert_eq!(decode_first_register(0xd9, true), "cx");
    assert_eq!(decode_second_register(0xd9, true), "bx");
    assert_eq!(decode_first_register(0xd9, false), "cl");
    assert_eq!(decode_second_register(0xd9, false), "bl");
}

#[test]
fn test_register_table_word_width() {
    let expected = ["ax", "cx", "dx", "bx", "sp", "bp", "si", "di"];
    for sel in 0..8u8 {
        assert_eq!(byte_to_register(sel, true), expected[sel as usize]);
    }
}

#[test]
fn test_register_table_byte_width() {
    let expected = ["al", "cl", "dl", "bl", "ah", "ch", "dh", "bh"];
    for sel in 0..8u8 {
        assert_eq!(byte_to_register(sel, false), expected[sel as usize]);
    }
}

#[test]
fn test_register_table_injective_per_width() {
    for &w in &[false, true] {
        for s1 in 0..8u8 {
            let name = byte_to_register(s1, w);
            assert!(!name.is_empty());
            for s2 in 0..8u8 {
                if s1 != s2 {
                    assert_ne!(name, byte_to_register(s2, w));
                }
            }
        }
    }
}
