use classfile::constant_pool::{
    convert_utf8, escape_text, parse_constant_pool, ConstantPoolInfo, ConstantPoolTag,
};
use classfile::error::ClassFileError;
use classfile::reader::{BinaryReader, Endian};
use classfile::reference_kind::ReferenceKind;

fn u2(v: &mut Vec<u8>, x: u16) {
    v.push((x >> 8) as u8);
    v.push(x as u8);
}

fn utf8(v: &mut Vec<u8>, s: &str) {
    v.push(1);
    u2(v, s.len() as u16);
    v.extend_from_slice(s.as_bytes());
}

fn two(v: &mut Vec<u8>, tag: u8, a: u16, b: u16) {
    v.push(tag);
    u2(v, a);
    u2(v, b);
}

/// 1 "A", 2 Class #1, 3 "x", 4 "I", 5 Long, (6), 7 NameAndType #3:#4, 8 "<init>",
/// 9 NameAndType #8:#4, 10 Fieldref #2.#7, 11 "[I", 12 Class #11, 13 String #3,
/// 14 InvokeDynamic #0:#7, 15 MethodHandle 6:#16, 16 Methodref #2.#9
fn sample_pool() -> Vec<u8> {
    let mut v = Vec::new();
    utf8(&mut v, "A");
    v.push(7);
    u2(&mut v, 1);
    utf8(&mut v, "x");
    utf8(&mut v, "I");
    v.push(5);
    v.extend_from_slice(&[0, 0, 0, 0, 0, 0, 0, 42]);
    two(&mut v, 12, 3, 4);
    utf8(&mut v, "<init>");
    two(&mut v, 12, 8, 4);
    two(&mut v, 9, 2, 7);
    utf8(&mut v, "[I");
    v.push(7);
    u2(&mut v, 11);
    v.push(8);
    u2(&mut v, 3);
    two(&mut v, 18, 0, 7);
    v.push(15);
    v.push(6);
    u2(&mut v, 16);
    two(&mut v, 10, 2, 9);
    v
}

#[test]
fn long_takes_two_slots() {
    let bytes = sample_pool();
    let mut r = BinaryReader::new(&bytes, Endian::Big);
    let cp = parse_constant_pool(&mut r, 16).unwrap();
    assert_eq!(cp.len(), 16);
    assert_eq!(cp.entries[4], ConstantPoolInfo::Long { high_bytes: 0, low_bytes: 42 });
    assert_eq!(cp.entries[5], ConstantPoolInfo::Null {});
    assert_eq!(r.position(), bytes.len());
    assert_eq!(cp.get_utf8_content(6), Err(ClassFileError::BadConstantIndex { index: 6 }));
}

#[test]
fn resolvers_build_javap_text() {
    let bytes = sample_pool();
    let mut r = BinaryReader::new(&bytes, Endian::Big);
    let cp = parse_constant_pool(&mut r, 16).unwrap();
    assert_eq!(cp.get_class_name(2).unwrap(), "A");
    assert_eq!(cp.get_name_and_type(7).unwrap(), "x:I");
    assert_eq!(cp.get_name_and_type(9).unwrap(), "\"<init>\":I");
    assert_eq!(cp.get_field_ref(10).unwrap(), "A.x:I");
    assert_eq!(cp.get_field_ref_name_and_type(10).unwrap(), "x:I");
    assert_eq!(cp.get_method_ref(16).unwrap(), "A.\"<init>\":I");
    assert_eq!(cp.get_class_name(12).unwrap(), "\"[I\"");
    assert_eq!(cp.get_invoke_dynamic(14).unwrap(), "#0:x:I");
    assert_eq!(
        cp.entries[14],
        ConstantPoolInfo::MethodHandle { reference_kind: ReferenceKind::InvokeStatic, reference_index: 16 }
    );
}

#[test]
fn resolvers_fail_on_the_wrong_variant() {
    let bytes = sample_pool();
    let mut r = BinaryReader::new(&bytes, Endian::Big);
    let cp = parse_constant_pool(&mut r, 16).unwrap();
    assert_eq!(cp.get_class_name(1), Err(ClassFileError::WrongEntryType { index: 1 }));
    assert_eq!(cp.get_method_ref(10), Err(ClassFileError::WrongEntryType { index: 10 }));
    assert_eq!(cp.get_utf8_content(0), Err(ClassFileError::BadConstantIndex { index: 0 }));
    assert_eq!(cp.get_utf8_content(17), Err(ClassFileError::BadConstantIndex { index: 17 }));
}

#[test]
fn reference_to_the_sentinel_slot_is_rejected() {
    let mut v = Vec::new();
    v.push(5);
    v.extend_from_slice(&[0; 8]);
    v.push(7);
    u2(&mut v, 2);
    let mut r = BinaryReader::new(&v, Endian::Big);
    assert_eq!(parse_constant_pool(&mut r, 3).err(), Some(ClassFileError::BadConstantIndex { index: 2 }));
}

#[test]
fn unknown_tag_is_rejected() {
    let v = vec![2u8, 0, 0];
    let mut r = BinaryReader::new(&v, Endian::Big);
    assert_eq!(parse_constant_pool(&mut r, 1).err(), Some(ClassFileError::UnknownConstantPoolTag { tag: 2 }));
    assert_eq!(ConstantPoolTag::from_code(2), None);
    assert_eq!(ConstantPoolTag::from_code(20), Some(ConstantPoolTag::Package));
}

#[test]
fn utf8_escaping() {
    assert_eq!(convert_utf8(b"a\nb'c\x01d").unwrap(), "a\\nb\\'c\\u0001d");
    assert_eq!(convert_utf8(&[0xff, 0xfe]), None);
    assert_eq!(convert_utf8("héllo".as_bytes()).unwrap(), "héllo");
}

#[test]
fn escaping_twice_changes_nothing_without_quotes() {
    let once = escape_text("line\nnext\u{1}end");
    assert_eq!(once, "line\\nnext\\u0001end");
    assert_eq!(escape_text(&once), once);
    let quoted = escape_text("it's");
    assert_eq!(quoted, "it\\'s");
    assert_eq!(escape_text(&quoted), "it\\\\'s");
}
