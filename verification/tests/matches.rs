use orion_bytecode::matching::encode_matches;
use orion_bytecode::{EncodeError, Match, OpCode, Pattern};

#[test]
fn arm_is_its_shape_then_its_block() {
    let arm = Pattern { pat: vec![9, 8], to_exec: vec![OpCode::Tuple(1), OpCode::Builtin(3, 2)] };
    assert_eq!(arm.serialize(), Ok(vec![9, 8, 0, 6, 7, 0, 1, 3, 3, 2]));
    let bare = Pattern { pat: vec![], to_exec: vec![] };
    assert_eq!(bare.serialize(), Ok(vec![0, 0]));
}

#[test]
fn arm_with_too_many_instruction_bytes_is_refused() {
    let arm = Pattern { pat: vec![1], to_exec: vec![OpCode::Tuple(1); 21846] };
    assert_eq!(arm.serialize(), Err(EncodeError::CapacityExceeded));
}

#[test]
fn match_is_scrutinee_then_counted_arms() {
    let m = Match {
        expression: vec![OpCode::LoadSym(2)],
        patterns: vec![
            Pattern { pat: vec![0xAA], to_exec: vec![OpCode::Tuple(0)] },
            Pattern { pat: vec![0xBB, 0xCC], to_exec: vec![] },
        ],
    };
    assert_eq!(
        m.serialize(),
        Ok(vec![0, 3, 1, 0, 2, 0, 2, 0xAA, 0, 3, 7, 0, 0, 0xBB, 0xCC, 0, 0])
    );
}

#[test]
fn match_without_arms() {
    let m = Match { expression: vec![], patterns: vec![] };
    assert_eq!(m.serialize(), Ok(vec![0, 0, 0, 0]));
}

#[test]
fn match_with_too_many_arms_is_refused() {
    let arm = Pattern { pat: vec![], to_exec: vec![] };
    let m = Match { expression: vec![], patterns: vec![arm.clone(); 65536] };
    assert_eq!(m.serialize(), Err(EncodeError::CapacityExceeded));
    let m = Match { expression: vec![], patterns: vec![arm; 65535] };
    assert_eq!(m.serialize().unwrap().len(), 4 + 2 * 65535);
}

#[test]
fn match_with_an_oversized_part_is_refused() {
    let m = Match { expression: vec![OpCode::Call(1); 21846], patterns: vec![] };
    assert_eq!(m.serialize(), Err(EncodeError::CapacityExceeded));
    let arm = Pattern { pat: vec![], to_exec: vec![OpCode::Call(1); 21846] };
    let m = Match { expression: vec![], patterns: vec![arm] };
    assert_eq!(m.serialize(), Err(EncodeError::CapacityExceeded));
}

#[test]
fn match_table_counts_its_matches() {
    let m = Match {
        expression: vec![OpCode::LoadConst(1)],
        patterns: vec![Pattern { pat: vec![5], to_exec: vec![OpCode::Lambda(2)] }],
    };
    let empty = Match { expression: vec![], patterns: vec![] };
    assert_eq!(
        encode_matches(&vec![m, empty]),
        Ok(vec![0, 2, 0, 3, 0, 0, 1, 0, 1, 5, 0, 3, 5, 0, 2, 0, 0, 0, 0])
    );
    assert_eq!(encode_matches(&vec![]), Ok(vec![0, 0]));
}

#[test]
fn match_table_with_too_many_matches_is_refused() {
    let m = Match { expression: vec![], patterns: vec![] };
    assert_eq!(encode_matches(&vec![m.clone(); 65536]), Err(EncodeError::CapacityExceeded));
    assert_eq!(encode_matches(&vec![m; 65535]).unwrap().len(), 2 + 4 * 65535);
}

#[test]
fn match_table_with_a_match_that_does_not_fit_is_refused() {
    let good = Match { expression: vec![], patterns: vec![] };
    let bad = Match { expression: vec![OpCode::Def(1, 1); 13108], patterns: vec![] };
    assert_eq!(encode_matches(&vec![good, bad]), Err(EncodeError::CapacityExceeded));
}
