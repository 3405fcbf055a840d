use classfile::access_flags::AccessFlag;
use classfile::attributes::{
    parse_attribute, parse_class_attributes, AttributeContext, AttributeInfo, LineNumberTableEntry,
    StackMapFrame, VerificationTypeInfo,
};
use classfile::constant_pool::{parse_constant_pool, ConstantPool};
use classfile::error::ClassFileError;
use classfile::reader::{BinaryReader, Endian};

fn u2(v: &mut Vec<u8>, x: u16) {
    v.push((x >> 8) as u8);
    v.push(x as u8);
}

fn u4(v: &mut Vec<u8>, x: u32) {
    u2(v, (x >> 16) as u16);
    u2(v, x as u16);
}

/// 1 "Code", 2 "LineNumberTable", 3 "StackMapTable", 4 "SourceFile", 5 "InnerClasses",
/// 6 "Outer", 7 Class #6, 8 "Outer$In", 9 Class #8, 10 "In", 11 "Bogus", 12 bad UTF-8,
/// 13 MethodHandle with kind 9 to #14, 14 "x"
fn pool() -> ConstantPool {
    let mut v = Vec::new();
    for s in ["Code", "LineNumberTable", "StackMapTable", "SourceFile", "InnerClasses", "Outer"] {
        v.push(1);
        u2(&mut v, s.len() as u16);
        v.extend_from_slice(s.as_bytes());
    }
    v.push(7);
    u2(&mut v, 6);
    v.push(1);
    u2(&mut v, 8);
    v.extend_from_slice(b"Outer$In");
    v.push(7);
    u2(&mut v, 8);
    for s in ["In", "Bogus"] {
        v.push(1);
        u2(&mut v, s.len() as u16);
        v.extend_from_slice(s.as_bytes());
    }
    v.push(1);
    u2(&mut v, 2);
    v.extend_from_slice(&[0xc3, 0x28]);
    v.push(15);
    v.push(9);
    u2(&mut v, 14);
    v.push(1);
    u2(&mut v, 1);
    v.push(b'x');
    let mut r = BinaryReader::new(&v, Endian::Big);
    parse_constant_pool(&mut r, 14).unwrap()
}

fn attribute(bytes: &[u8], c: AttributeContext) -> Result<AttributeInfo, ClassFileError> {
    let cp = pool();
    let mut r = BinaryReader::new(bytes, Endian::Big);
    parse_attribute(&mut r, &cp, c)
}

#[test]
fn line_number_table_entries() {
    let mut b = Vec::new();
    u2(&mut b, 2);
    u4(&mut b, 10);
    u2(&mut b, 2);
    u2(&mut b, 0);
    u2(&mut b, 7);
    u2(&mut b, 4);
    u2(&mut b, 8);
    match attribute(&b, AttributeContext::Code).unwrap() {
        AttributeInfo::LineNumberTable { line_number_table } => assert_eq!(
            line_number_table,
            vec![
                LineNumberTableEntry { start_pc: 0, line_number: 7 },
                LineNumberTableEntry { start_pc: 4, line_number: 8 },
            ]
        ),
        other => panic!("unexpected {:?}", other),
    }
}

#[test]
fn stack_map_frames_by_type() {
    let mut b = Vec::new();
    u2(&mut b, 3);
    u4(&mut b, 0);
    u2(&mut b, 4);
    b.push(3);
    b.push(64);
    b.push(3);
    b.extend_from_slice(&[252, 0, 5, 4]);
    b.extend_from_slice(&[255, 0, 1, 0, 1, 7, 0, 7, 0, 0]);
    match attribute(&b, AttributeContext::Code).unwrap() {
        AttributeInfo::StackMapTable { stack_map_table } => assert_eq!(
            stack_map_table,
            vec![
                StackMapFrame::SameFrame { frame_type: 3 },
                StackMapFrame::SameLocals1StackItemFrame { frame_type: 64, stack: VerificationTypeInfo::DoubleVariable },
                StackMapFrame::AppendFrame { frame_type: 252, offset_delta: 5, locals: vec![VerificationTypeInfo::LongVariable] },
                StackMapFrame::FullFrame {
                    offset_delta: 1,
                    locals: vec![VerificationTypeInfo::ObjectVariable { constant_pool_index: 7 }],
                    stack: vec![],
                },
            ]
        ),
        other => panic!("unexpected {:?}", other),
    }
}

#[test]
fn reserved_frame_type_and_unknown_verification_tag() {
    let mut b = Vec::new();
    u2(&mut b, 3);
    u4(&mut b, 0);
    u2(&mut b, 1);
    b.push(200);
    assert_eq!(attribute(&b, AttributeContext::Code).err(), Some(ClassFileError::ReservedFrameType { frame_type: 200 }));
    let mut c = Vec::new();
    u2(&mut c, 3);
    u4(&mut c, 0);
    u2(&mut c, 1);
    c.push(64);
    c.push(9);
    assert_eq!(attribute(&c, AttributeContext::Code).err(), Some(ClassFileError::UnknownVerificationType { tag: 9 }));
}

#[test]
fn attribute_names_are_checked_per_context() {
    let mut b = Vec::new();
    u2(&mut b, 4);
    u4(&mut b, 2);
    u2(&mut b, 6);
    assert!(matches!(attribute(&b, AttributeContext::Class), Ok(AttributeInfo::SourceFile { source_file_index: 6 })));
    assert_eq!(
        attribute(&b, AttributeContext::Method).err(),
        Some(ClassFileError::UnknownAttribute { name: "SourceFile".to_string() })
    );
    let mut bogus = Vec::new();
    u2(&mut bogus, 11);
    u4(&mut bogus, 0);
    assert_eq!(
        attribute(&bogus, AttributeContext::Class).err(),
        Some(ClassFileError::UnknownAttribute { name: "Bogus".to_string() })
    );
    let mut bad = Vec::new();
    u2(&mut bad, 12);
    u4(&mut bad, 0);
    assert_eq!(attribute(&bad, AttributeContext::Class).err(), Some(ClassFileError::InvalidUtf8 { index: 12 }));
}

#[test]
fn inner_classes_carry_their_flags() {
    let cp = pool();
    let mut b = Vec::new();
    u2(&mut b, 5);
    u4(&mut b, 10);
    u2(&mut b, 1);
    u2(&mut b, 9);
    u2(&mut b, 7);
    u2(&mut b, 10);
    u2(&mut b, 0x0009);
    let mut r = BinaryReader::new(&b, Endian::Big);
    let attrs = parse_class_attributes(&mut r, &cp, 1).unwrap();
    match &attrs[0] {
        AttributeInfo::InnerClasses { classes } => {
            assert_eq!(classes[0].inner_class_info_index, 9);
            assert_eq!(classes[0].inner_class_access_flags, vec![AccessFlag::Public, AccessFlag::Static]);
        },
        other => panic!("unexpected {:?}", other),
    }
}

#[test]
fn code_attribute_with_a_bad_switch() {
    let mut b = Vec::new();
    u2(&mut b, 1);
    u4(&mut b, 0);
    u2(&mut b, 1);
    u2(&mut b, 1);
    u4(&mut b, 16);
    b.extend_from_slice(&[0xaa, 0, 0, 0, 0, 0, 0, 0, 0, 0, 0, 5, 0, 0, 0, 4]);
    u2(&mut b, 0);
    u2(&mut b, 0);
    assert_eq!(attribute(&b, AttributeContext::Method).err(), Some(ClassFileError::BadSwitch { position: 0 }));
}

#[test]
fn method_handle_with_a_bad_kind() {
    let mut v = Vec::new();
    v.push(15);
    v.push(10);
    u2(&mut v, 1);
    let mut r = BinaryReader::new(&v, Endian::Big);
    assert_eq!(parse_constant_pool(&mut r, 1).err(), Some(ClassFileError::UnknownReferenceKind { kind: 10 }));
}
