use classfile::bytecode::{parse_bytecode, BytecodeInstruction, LookupSwitchPair};
use classfile::error::ClassFileError;
use classfile::printer::get_opcode_and_arguments_string;
use classfile::reader::{BinaryReader, Endian};
use std::collections::BTreeMap;

fn decode(code: &[u8]) -> Result<BTreeMap<u32, BytecodeInstruction>, ClassFileError> {
    let mut r = BinaryReader::new(code, Endian::Big);
    parse_bytecode(&mut r)
}

#[test]
fn goto_target_is_relative_to_its_offset() {
    let mut code = vec![0x03u8; 10];
    code.extend_from_slice(&[0xa7, 0x00, 0x05, 0x03, 0x03, 0xb1]);
    let m = decode(&code).unwrap();
    assert_eq!(m[&10], BytecodeInstruction::GoTo { offset: 5 });
    assert_eq!(get_opcode_and_arguments_string(10, &m[&10]), "goto          15");
    let keys: Vec<u32> = m.keys().copied().collect();
    assert_eq!(keys, vec![0, 1, 2, 3, 4, 5, 6, 7, 8, 9, 10, 13, 14, 15]);
}

#[test]
fn lookupswitch_skips_padding_to_a_multiple_of_four() {
    let mut code = vec![0x03u8, 0x03, 0xab, 0x00];
    code.extend_from_slice(&[0, 0, 0, 30]);
    code.extend_from_slice(&[0, 0, 0, 2]);
    code.extend_from_slice(&[0, 0, 0, 1, 0, 0, 0, 26]);
    code.extend_from_slice(&[0xff, 0xff, 0xff, 0xfe, 0, 0, 0, 28]);
    code.extend_from_slice(&[0x03, 0x03, 0x03, 0x03, 0x03, 0x03]);
    let m = decode(&code).unwrap();
    assert_eq!(
        m[&2],
        BytecodeInstruction::LookupSwitch {
            default: 30,
            pairs: vec![
                LookupSwitchPair { match_value: 1, offset: 26 },
                LookupSwitchPair { match_value: -2, offset: 28 },
            ],
        }
    );
    assert!(m.contains_key(&28));
    assert!(!m.contains_key(&3));
    assert_eq!(
        get_opcode_and_arguments_string(2, &m[&2]),
        "lookupswitch  { // 2\n                       1: 28\n                      -2: 30\n                 default: 32\n            }"
    );
}

#[test]
fn lookupswitch_already_aligned_has_no_padding() {
    let mut code = vec![0x03u8, 0x03, 0x03, 0xab];
    code.extend_from_slice(&[0, 0, 0, 9, 0, 0, 0, 0]);
    code.push(0xb1);
    let m = decode(&code).unwrap();
    assert_eq!(m[&3], BytecodeInstruction::LookupSwitch { default: 9, pairs: vec![] });
    assert!(m.contains_key(&12));
}

#[test]
fn tableswitch_rows_are_labelled_by_value() {
    let mut code = vec![0xaau8, 0, 0, 0];
    code.extend_from_slice(&[0, 0, 0, 20]);
    code.extend_from_slice(&[0, 0, 0, 5, 0, 0, 0, 6]);
    code.extend_from_slice(&[0, 0, 0, 24, 0, 0, 0, 24]);
    code.extend_from_slice(&[0xb1, 0xb1, 0xb1, 0xb1, 0xb1]);
    let m = decode(&code).unwrap();
    assert_eq!(m[&0], BytecodeInstruction::TableSwitch { default: 20, low: 5, offsets: vec![24, 24] });
    assert_eq!(
        get_opcode_and_arguments_string(0, &m[&0]),
        "tableswitch   { // 5 to 6\n                       5: 24\n                       6: 24\n                 default: 20\n            }"
    );
}

#[test]
fn branch_outside_the_block_is_rejected() {
    assert_eq!(decode(&[0xa7, 0xff, 0xfe]), Err(ClassFileError::BranchOutOfRange { position: 0 }));
    assert_eq!(decode(&[0x03, 0x99, 0x00, 0x03]), Err(ClassFileError::BranchOutOfRange { position: 1 }));
}

#[test]
fn unknown_opcode_and_truncation() {
    assert_eq!(decode(&[0x03, 0x00]), Err(ClassFileError::UnknownOpcode { opcode: 0x00 }));
    assert_eq!(decode(&[0xb2, 0x00]), Err(ClassFileError::UnexpectedEof));
    assert!(decode(&[]).unwrap().is_empty());
}

#[test]
fn operands_are_decoded_and_printed() {
    let code = [
        0x10, 0xff, 0x84, 0x01, 0xfe, 0xb9, 0x00, 0x07, 0x02, 0x00, 0xba, 0x00, 0x09, 0x00, 0x00,
        0x19, 0x07, 0x2b, 0x12, 0x03, 0x14, 0x00, 0x05, 0x02, 0xb1,
    ];
    let m = decode(&code).unwrap();
    assert_eq!(m[&0], BytecodeInstruction::BiPush { immediate: -1 });
    assert_eq!(m[&2], BytecodeInstruction::IInc { index: 1, constant: -2 });
    assert_eq!(m[&5], BytecodeInstruction::InvokeInterface { constant_pool_index: 7, count: 2 });
    assert_eq!(m[&10], BytecodeInstruction::InvokeDynamic { constant_pool_index: 9 });
    assert_eq!(m[&15], BytecodeInstruction::ALoad { local_variable_index: 7 });
    assert_eq!(m[&17], BytecodeInstruction::ALoad { local_variable_index: 1 });
    let texts: Vec<String> = m.iter().map(|(p, i)| get_opcode_and_arguments_string(*p, i)).collect();
    assert_eq!(
        texts,
        vec![
            "bipush        -1",
            "iinc          1, -2",
            "invokeinterface #7,  2",
            "invokedynamic #9,  0",
            "aload         7",
            "aload_1",
            "ldc           #3",
            "ldc2_w        #5",
            "iconst_m1",
            "return",
        ]
    );
}

#[test]
fn tableswitch_without_rows_still_prints() {
    let ins = BytecodeInstruction::TableSwitch { default: 0, low: 5, offsets: vec![] };
    assert_eq!(
        get_opcode_and_arguments_string(0, &ins),
        "tableswitch   { // 5 to 4\n\n                 default: 0\n            }"
    );
}

#[test]
fn unknown_opcode_after_valid_instructions_is_named() {
    assert_eq!(decode(&[0x03, 0x04, 0xff]), Err(ClassFileError::UnknownOpcode { opcode: 0xff }));
}
