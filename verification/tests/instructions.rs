use orion_bytecode::opcode::encode_block;
use orion_bytecode::{EncodeError, OpCode};

#[test]
fn builtin_is_tag_then_two_single_bytes() {
    assert_eq!(OpCode::Builtin(3, 2).serialize(), vec![3, 3, 2]);
}

#[test]
fn load_const_is_big_endian() {
    assert_eq!(OpCode::LoadConst(300).serialize(), vec![0, 0x01, 0x2C]);
}

#[test]
fn tuple_of_nothing() {
    assert_eq!(OpCode::Tuple(0).serialize(), vec![7, 0, 0]);
}

#[test]
fn every_variant_at_its_lowest_operands() {
    assert_eq!(OpCode::LoadConst(0).serialize(), vec![0, 0, 0]);
    assert_eq!(OpCode::LoadSym(0).serialize(), vec![1, 0, 0]);
    assert_eq!(OpCode::Call(0).serialize(), vec![2, 0, 0]);
    assert_eq!(OpCode::Builtin(0, 0).serialize(), vec![3, 0, 0]);
    assert_eq!(OpCode::Def(0, 0).serialize(), vec![4, 0, 0, 0, 0]);
    assert_eq!(OpCode::Lambda(0).serialize(), vec![5, 0, 0]);
    assert_eq!(OpCode::Constructor(0, 0).serialize(), vec![6, 0, 0, 0, 0]);
    assert_eq!(OpCode::Tuple(0).serialize(), vec![7, 0, 0]);
}

#[test]
fn every_variant_at_its_highest_operands() {
    assert_eq!(OpCode::LoadConst(65535).serialize(), vec![0, 255, 255]);
    assert_eq!(OpCode::LoadSym(65535).serialize(), vec![1, 255, 255]);
    assert_eq!(OpCode::Call(65535).serialize(), vec![2, 255, 255]);
    assert_eq!(OpCode::Builtin(255, 255).serialize(), vec![3, 255, 255]);
    assert_eq!(OpCode::Def(65535, 65535).serialize(), vec![4, 255, 255, 255, 255]);
    assert_eq!(OpCode::Lambda(65535).serialize(), vec![5, 255, 255]);
    assert_eq!(OpCode::Constructor(65535, 65535).serialize(), vec![6, 255, 255, 255, 255]);
    assert_eq!(OpCode::Tuple(65535).serialize(), vec![7, 255, 255]);
}

#[test]
fn operands_keep_their_declaration_order() {
    assert_eq!(OpCode::Def(0x0102, 0x0304).serialize(), vec![4, 1, 2, 3, 4]);
    assert_eq!(OpCode::Constructor(0xA0B0, 0x0001).serialize(), vec![6, 0xA0, 0xB0, 0, 1]);
    assert_eq!(OpCode::Builtin(1, 200).serialize(), vec![3, 1, 200]);
    assert_eq!(OpCode::LoadSym(256).serialize(), vec![1, 1, 0]);
    assert_eq!(OpCode::Call(255).serialize(), vec![2, 0, 255]);
}

#[test]
fn different_instructions_have_different_encodings() {
    let all = vec![
        OpCode::LoadConst(1),
        OpCode::LoadConst(256),
        OpCode::LoadSym(1),
        OpCode::Call(1),
        OpCode::Builtin(0, 1),
        OpCode::Builtin(1, 0),
        OpCode::Def(0, 1),
        OpCode::Def(1, 0),
        OpCode::Lambda(1),
        OpCode::Constructor(0, 1),
        OpCode::Constructor(1, 0),
        OpCode::Tuple(1),
    ];
    for (i, a) in all.iter().enumerate() {
        for (j, b) in all.iter().enumerate() {
            assert_eq!(a.serialize() == b.serialize(), i == j);
            assert_eq!(a == b, i == j);
        }
    }
}

#[test]
fn empty_block_is_a_zero_length() {
    assert_eq!(encode_block(&vec![]), Ok(vec![0, 0]));
}

#[test]
fn block_is_prefixed_by_its_byte_length() {
    let block = encode_block(&vec![OpCode::LoadConst(300), OpCode::Def(1, 2), OpCode::Builtin(3, 2)]);
    assert_eq!(block, Ok(vec![0, 11, 0, 1, 0x2C, 4, 0, 1, 0, 2, 3, 3, 2]));
}

#[test]
fn block_of_exactly_65535_bytes_is_written() {
    let instrs = vec![OpCode::Tuple(1); 21845];
    let block = encode_block(&instrs).unwrap();
    assert_eq!(block.len(), 2 + 65535);
    assert_eq!(&block[..5], &[255, 255, 7, 0, 1]);
}

#[test]
fn block_of_more_than_65535_bytes_is_refused() {
    let instrs = vec![OpCode::Tuple(1); 21846];
    assert_eq!(encode_block(&instrs), Err(EncodeError::CapacityExceeded));
    let mut mixed = vec![OpCode::Def(0, 0); 13107];
    assert_eq!(encode_block(&mixed).unwrap().len(), 2 + 65535);
    mixed.push(OpCode::Call(0));
    assert_eq!(encode_block(&mixed), Err(EncodeError::CapacityExceeded));
}

#[test]
fn different_sequences_have_different_blocks() {
    let a = vec![OpCode::Def(7, 0), OpCode::Tuple(1)];
    let b = vec![OpCode::Tuple(4), OpCode::Builtin(7, 0), OpCode::Call(1)];
    let c = vec![OpCode::Tuple(1), OpCode::Def(7, 0)];
    assert_ne!(encode_block(&a), encode_block(&b));
    assert_ne!(encode_block(&a), encode_block(&c));
    assert_eq!(encode_block(&a), encode_block(&a.clone()));
}
