use orion_bytecode::container::{encode_chunks, encode_constants, encode_constructors, encode_symbols};
use orion_bytecode::literal::encode_text;
use orion_bytecode::{Chunk, EncodeError, Literal, OpCode};

#[test]
fn symbols_are_counted_and_nul_terminated() {
    let symbols = vec!["x".to_string(), "foo".to_string()];
    assert_eq!(encode_symbols(&symbols), Ok(vec![0, 2, b'x', 0, b'f', b'o', b'o', 0]));
}

#[test]
fn no_symbols_is_a_zero_count() {
    assert_eq!(encode_symbols(&vec![]), Ok(vec![0, 0]));
}

#[test]
fn empty_symbol_is_a_lone_terminator() {
    assert_eq!(encode_symbols(&vec![String::new()]), Ok(vec![0, 1, 0]));
}

#[test]
fn text_keeps_single_byte_characters() {
    assert_eq!(encode_text("a\u{e9}\u{ff}"), Ok(vec![b'a', 0xE9, 0xFF, 0]));
    assert_eq!(encode_text(""), Ok(vec![0]));
}

#[test]
fn text_with_a_wider_character_is_refused() {
    assert_eq!(encode_text("\u{100}"), Err(EncodeError::UnsupportedCharacter));
    assert_eq!(encode_text("ab\u{3bb}c"), Err(EncodeError::UnsupportedCharacter));
}

#[test]
fn symbol_with_a_wider_character_is_refused() {
    let symbols = vec!["ok".to_string(), "\u{3bb}".to_string()];
    assert_eq!(encode_symbols(&symbols), Err(EncodeError::UnsupportedCharacter));
}

#[test]
fn sixty_five_thousand_five_hundred_thirty_five_symbols_are_written() {
    let symbols = vec!["a".to_string(); 65535];
    let bytes = encode_symbols(&symbols).unwrap();
    assert_eq!(bytes.len(), 2 + 2 * 65535);
    assert_eq!(&bytes[..4], &[255, 255, b'a', 0]);
}

#[test]
fn one_symbol_too_many_is_refused() {
    let symbols = vec!["a".to_string(); 65536];
    assert_eq!(encode_symbols(&symbols), Err(EncodeError::CapacityExceeded));
}

#[test]
fn too_many_symbols_is_reported_before_a_bad_character() {
    let symbols = vec!["\u{3bb}".to_string(); 65536];
    assert_eq!(encode_symbols(&symbols), Err(EncodeError::CapacityExceeded));
}

#[test]
fn integer_and_single_constants() {
    let constants = vec![Literal::Integer(42), Literal::Single(1.5f64.to_bits())];
    let mut expected = vec![0, 2];
    expected.push(1);
    expected.extend_from_slice(&[0, 0, 0, 0, 0, 0, 0, 42]);
    expected.push(2);
    expected.extend_from_slice(&[0x3F, 0xF8, 0, 0, 0, 0, 0, 0]);
    assert_eq!(encode_constants(&constants), Ok(expected));
}

#[test]
fn single_constant_matches_the_float_bit_pattern() {
    let value = -1234.5678f64;
    let mut expected = vec![2];
    expected.extend_from_slice(&value.to_bits().to_be_bytes());
    assert_eq!(Literal::Single(value.to_bits()).serialize(), Ok(expected));
}

#[test]
fn integer_constants_are_twos_complement() {
    assert_eq!(Literal::Integer(-1).serialize(), Ok(vec![1, 255, 255, 255, 255, 255, 255, 255, 255]));
    assert_eq!(Literal::Integer(i64::MIN).serialize(), Ok(vec![1, 0x80, 0, 0, 0, 0, 0, 0, 0]));
    assert_eq!(
        Literal::Integer(i64::MAX).serialize(),
        Ok(vec![1, 0x7F, 255, 255, 255, 255, 255, 255, 255])
    );
    assert_eq!(Literal::Integer(0).serialize(), Ok(vec![1, 0, 0, 0, 0, 0, 0, 0, 0]));
    assert_eq!(
        Literal::Integer(0x0102030405060708).serialize(),
        Ok(vec![1, 1, 2, 3, 4, 5, 6, 7, 8])
    );
    let mut expected = vec![1];
    expected.extend_from_slice(&(-300i64).to_be_bytes());
    assert_eq!(Literal::Integer(-300).serialize(), Ok(expected));
}

#[test]
fn string_constant_is_tagged_and_terminated() {
    assert_eq!(Literal::String("hi".to_string()).serialize(), Ok(vec![0, b'h', b'i', 0]));
    assert_eq!(Literal::String(String::new()).serialize(), Ok(vec![0, 0]));
}

#[test]
fn string_constant_with_a_wider_character_is_refused() {
    let constant = Literal::String("\u{20ac}".to_string());
    assert_eq!(constant.serialize(), Err(EncodeError::UnsupportedCharacter));
    let constants = vec![Literal::Integer(1), constant];
    assert_eq!(encode_constants(&constants), Err(EncodeError::UnsupportedCharacter));
}

#[test]
fn one_constant_too_many_is_refused() {
    assert_eq!(encode_constants(&vec![Literal::Integer(0); 65536]), Err(EncodeError::CapacityExceeded));
    assert_eq!(encode_constants(&vec![Literal::Integer(0); 65535]).unwrap().len(), 2 + 9 * 65535);
}

#[test]
fn constructors_are_written_verbatim() {
    assert_eq!(encode_constructors(&vec![2, 0, 255]), Ok(vec![0, 3, 2, 0, 255]));
    assert_eq!(encode_constructors(&vec![]), Ok(vec![0, 0]));
}

#[test]
fn one_constructor_too_many_is_refused() {
    assert_eq!(encode_constructors(&vec![1; 65536]), Err(EncodeError::CapacityExceeded));
    assert_eq!(encode_constructors(&vec![1; 65535]).unwrap().len(), 2 + 65535);
}

#[test]
fn chunk_prefixes_its_instructions_by_byte_length() {
    let chunk = Chunk { instructions: vec![OpCode::Tuple(1), OpCode::Tuple(1)], reference: vec![] };
    assert_eq!(chunk.serialize(), Ok(vec![0, 0, 0, 6, 7, 0, 1, 7, 0, 1]));
}

#[test]
fn chunk_writes_its_captures_in_order() {
    let chunk = Chunk { instructions: vec![OpCode::LoadSym(0)], reference: vec![0x0102, 3, 65535] };
    assert_eq!(chunk.serialize(), Ok(vec![0, 3, 1, 2, 0, 3, 255, 255, 0, 3, 1, 0, 0]));
}

#[test]
fn empty_chunk_is_two_zero_fields() {
    let chunk = Chunk { instructions: vec![], reference: vec![] };
    assert_eq!(chunk.serialize(), Ok(vec![0, 0, 0, 0]));
}

#[test]
fn chunk_with_too_many_captures_is_refused() {
    let chunk = Chunk { instructions: vec![], reference: vec![0; 65536] };
    assert_eq!(chunk.serialize(), Err(EncodeError::CapacityExceeded));
    let chunk = Chunk { instructions: vec![], reference: vec![0; 65535] };
    assert_eq!(chunk.serialize().unwrap().len(), 2 + 2 * 65535 + 2);
}

#[test]
fn chunk_with_too_many_instruction_bytes_is_refused() {
    let chunk = Chunk { instructions: vec![OpCode::Tuple(1); 21846], reference: vec![] };
    assert_eq!(chunk.serialize(), Err(EncodeError::CapacityExceeded));
}

#[test]
fn chunk_table_counts_its_chunks() {
    let a = Chunk { instructions: vec![OpCode::Tuple(1)], reference: vec![9] };
    let b = Chunk { instructions: vec![], reference: vec![] };
    assert_eq!(
        encode_chunks(&vec![a, b]),
        Ok(vec![0, 2, 0, 1, 0, 9, 0, 3, 7, 0, 1, 0, 0, 0, 0])
    );
    assert_eq!(encode_chunks(&vec![]), Ok(vec![0, 0]));
}

#[test]
fn chunk_table_with_a_chunk_that_does_not_fit_is_refused() {
    let good = Chunk { instructions: vec![], reference: vec![] };
    let bad = Chunk { instructions: vec![OpCode::Def(0, 0); 13108], reference: vec![] };
    assert_eq!(encode_chunks(&vec![good, bad]), Err(EncodeError::CapacityExceeded));
}

#[test]
fn one_chunk_too_many_is_refused() {
    let chunk = Chunk { instructions: vec![], reference: vec![] };
    assert_eq!(encode_chunks(&vec![chunk.clone(); 65536]), Err(EncodeError::CapacityExceeded));
    assert_eq!(encode_chunks(&vec![chunk; 65535]).unwrap().len(), 2 + 4 * 65535);
}

#[test]
fn different_texts_that_fit_have_different_bytes() {
    assert_ne!(encode_text("ab"), encode_text("ac"));
    assert_ne!(encode_text("a"), encode_text("a\u{e9}"));
    assert_ne!(encode_text("\u{e9}"), encode_text("\u{e8}"));
    assert_eq!(encode_text("\u{e9}"), Ok(vec![0xE9, 0]));
}
