use classfile::attributes::AttributeInfo;
use classfile::classfile::parse_class_bytes;
use classfile::error::ClassFileError;
use classfile::listing::{
    class_attribute_lines, class_declaration, header_lines, last_modified_line,
    last_modified_text, method_lines,
};
use classfile::printer::{constant_pool_line, get_comment, pool_layout};
use sha2::Digest;

fn u2(v: &mut Vec<u8>, x: u16) {
    v.push((x >> 8) as u8);
    v.push(x as u8);
}

fn u4(v: &mut Vec<u8>, x: u32) {
    u2(v, (x >> 16) as u16);
    u2(v, x as u16);
}

fn utf8(v: &mut Vec<u8>, s: &str) {
    v.push(1);
    u2(v, s.len() as u16);
    v.extend_from_slice(s.as_bytes());
}

fn two(v: &mut Vec<u8>, tag: u8, a: u16, b: u16) {
    v.push(tag);
    u2(v, a);
    u2(v, b);
}

fn method(v: &mut Vec<u8>, flags: u16, name: u16, descriptor: u16, code: &[u8]) {
    u2(v, flags);
    u2(v, name);
    u2(v, descriptor);
    u2(v, 1);
    u2(v, 13);
    u4(v, 12 + code.len() as u32);
    u2(v, 2);
    u2(v, 1);
    u4(v, code.len() as u32);
    v.extend_from_slice(code);
    u2(v, 0);
    u2(v, 0);
}

/// A class `Foo` (or, as an enum, `Color`) with a constructor and a static method `run`
/// that calls `helper` on itself and on class `Bar`.
fn sample_class(as_enum: bool) -> Vec<u8> {
    let mut v = Vec::new();
    u4(&mut v, 0xcafebabe);
    u2(&mut v, 0);
    u2(&mut v, 65);
    u2(&mut v, 24);
    utf8(&mut v, if as_enum { "Color" } else { "Foo" });
    v.push(7);
    u2(&mut v, 1);
    utf8(&mut v, if as_enum { "java/lang/Enum" } else { "java/lang/Object" });
    v.push(7);
    u2(&mut v, 3);
    utf8(&mut v, "<init>");
    utf8(&mut v, "()V");
    two(&mut v, 12, 5, 6);
    two(&mut v, 10, 4, 7);
    utf8(&mut v, "helper");
    utf8(&mut v, "(I)I");
    two(&mut v, 12, 9, 10);
    two(&mut v, 10, 2, 11);
    utf8(&mut v, "Code");
    utf8(&mut v, "SourceFile");
    utf8(&mut v, "Foo.java");
    utf8(&mut v, "Bar");
    v.push(7);
    u2(&mut v, 16);
    two(&mut v, 10, 17, 11);
    utf8(&mut v, "run");
    utf8(&mut v, "(Ljava/lang/String;I)V");
    v.push(8);
    u2(&mut v, 15);
    v.push(5);
    v.extend_from_slice(&[0xff, 0xff, 0xff, 0xff, 0xff, 0xff, 0xff, 0xff]);
    u2(&mut v, if as_enum { 0x4031 } else { 0x0021 });
    u2(&mut v, 2);
    u2(&mut v, 4);
    u2(&mut v, 0);
    u2(&mut v, 0);
    u2(&mut v, 2);
    if as_enum {
        method(&mut v, 0x0002, 5, 20, &[0x2a, 0xb7, 0x00, 0x08, 0xb1]);
    } else {
        method(&mut v, 0x0001, 5, 6, &[0x2a, 0xb7, 0x00, 0x08, 0xb1]);
    }
    method(&mut v, 0x0009, 19, 6, &[0x04, 0xb8, 0x00, 0x0c, 0xb8, 0x00, 0x12, 0x12, 0x15, 0x14, 0x00, 0x16, 0xb1]);
    u2(&mut v, 1);
    u2(&mut v, 14);
    u4(&mut v, 2);
    u2(&mut v, 15);
    v
}

#[test]
fn bad_magic_names_both_numbers() {
    let r = parse_class_bytes(&[0xde, 0xad, 0xbe, 0xef, 0, 0], "/x".to_string(), 0);
    let e = r.err().unwrap();
    assert_eq!(e, ClassFileError::BadMagic { actual: 0xdeadbeef });
    let m = e.message();
    assert!(m.contains("0xcafebabe"));
    assert!(m.contains("0xdeadbeef"));
}

#[test]
fn truncated_input_is_an_end_of_input_error() {
    let r = parse_class_bytes(&[0xca, 0xfe], "/x".to_string(), 0);
    assert_eq!(r.err(), Some(ClassFileError::UnexpectedEof));
    let mut bytes = sample_class(false);
    bytes.truncate(bytes.len() - 1);
    assert_eq!(parse_class_bytes(&bytes, "/x".to_string(), 0).err(), Some(ClassFileError::UnexpectedEof));
}

#[test]
fn sample_class_decodes() {
    let bytes = sample_class(false);
    let cf = parse_class_bytes(&bytes, "/tmp/Foo.class".to_string(), 0).unwrap();
    assert_eq!(cf.major_version, 65);
    assert_eq!(cf.constant_pool.len(), 23);
    assert_eq!(cf.file_size, bytes.len());
    assert_eq!(cf.methods.len(), 2);
    match &cf.methods[1].attributes[0] {
        AttributeInfo::Code { max_stack, code, .. } => {
            assert_eq!(*max_stack, 2);
            let keys: Vec<u32> = code.keys().copied().collect();
            assert_eq!(keys, vec![0, 1, 4, 7, 9, 12]);
        },
        _ => panic!("expected a Code attribute"),
    }
}

#[test]
fn digest_is_the_sha256_of_the_file() {
    let bytes = sample_class(false);
    let cf = parse_class_bytes(&bytes, "/tmp/Foo.class".to_string(), 0).unwrap();
    let expected = sha2::Sha256::digest(&bytes).to_vec();
    assert_eq!(cf.sha256_digest, expected);
    assert_eq!(cf.sha256_digest.len(), 32);
    let header = header_lines(&cf).unwrap();
    assert_eq!(header[0], "Classfile /tmp/Foo.class");
    let hex: String = expected.iter().map(|b| format!("{:02x}", b)).collect();
    assert_eq!(header[2], format!("  SHA-256 checksum {}", hex));
    assert_eq!(header[3], "  Compiled from \"Foo.java\"");
    assert_eq!(header[4], "public class Foo");
    assert_eq!(header[7], "  flags: (0x0021) ACC_PUBLIC, ACC_SUPER");
    assert_eq!(header[8], "  this_class: #2                         // Foo");
    assert_eq!(header[10], "  interfaces: 0, fields: 0, methods: 2, attributes: 1");
}

#[test]
fn members_of_this_class_are_abbreviated() {
    let bytes = sample_class(false);
    let cf = parse_class_bytes(&bytes, "/tmp/Foo.class".to_string(), 0).unwrap();
    let code = match &cf.methods[1].attributes[0] {
        AttributeInfo::Code { code, .. } => code,
        _ => panic!("expected a Code attribute"),
    };
    let own = get_comment(&cf.constant_pool, cf.this_class, &code[&1]).unwrap();
    assert_eq!(own.as_deref(), Some("Method helper:(I)I"));
    let other = get_comment(&cf.constant_pool, cf.this_class, &code[&4]).unwrap();
    assert_eq!(other.as_deref(), Some("Method Bar.helper:(I)I"));
    let string = get_comment(&cf.constant_pool, cf.this_class, &code[&7]).unwrap();
    assert_eq!(string.as_deref(), Some("String Foo.java"));
    let long = get_comment(&cf.constant_pool, cf.this_class, &code[&9]).unwrap();
    assert_eq!(long.as_deref(), Some("long -1l"));
    assert_eq!(get_comment(&cf.constant_pool, cf.this_class, &code[&0]).unwrap(), None);
}

#[test]
fn method_listing() {
    let bytes = sample_class(false);
    let cf = parse_class_bytes(&bytes, "/tmp/Foo.class".to_string(), 0).unwrap();
    let init = method_lines(&cf.constant_pool, cf.this_class, false, &cf.methods[0]).unwrap();
    assert_eq!(init[0], "  public Foo();");
    assert_eq!(init[1], "    descriptor: ()V");
    assert_eq!(init[2], "    flags: (0x0001) ACC_PUBLIC");
    assert_eq!(init[3], "    Code:");
    assert_eq!(init[4], "      stack=2, locals=1, args_size=1");
    assert_eq!(init[5], "         0: aload_0");
    assert_eq!(
        init[6],
        "         1: invokespecial #8                  // Method java/lang/Object.\"<init>\":()V"
    );
    let run = method_lines(&cf.constant_pool, cf.this_class, false, &cf.methods[1]).unwrap();
    assert_eq!(run[0], "  public static void run();");
    assert_eq!(run[4], "      stack=2, locals=1, args_size=0");
    assert_eq!(run[7], "         4: invokestatic  #18                 // Method Bar.helper:(I)I");
    assert_eq!(class_attribute_lines(&cf.constant_pool, &cf.attributes).unwrap(), vec!["SourceFile: \"Foo.java\""]);
}

#[test]
fn enum_extends_enum_of_itself_and_hides_constructor_parameters() {
    let bytes = sample_class(true);
    let cf = parse_class_bytes(&bytes, "/tmp/Color.class".to_string(), 0).unwrap();
    assert_eq!(class_declaration(&cf).unwrap(), "public final class Color extends java.lang.Enum<Color>");
    let init = method_lines(&cf.constant_pool, cf.this_class, true, &cf.methods[0]).unwrap();
    assert_eq!(init[0], "  private Color();");
    assert_eq!(init[4], "      stack=2, locals=1, args_size=3");
}

#[test]
fn constant_pool_listing() {
    let bytes = sample_class(false);
    let cf = parse_class_bytes(&bytes, "/tmp/Foo.class".to_string(), 0).unwrap();
    let cp = &cf.constant_pool;
    let l = pool_layout(cp);
    assert_eq!((l.index_width, l.info_start, l.comment_start), (5, 27, 41));
    let line = |i: u16| constant_pool_line(cp, i, l).unwrap();
    assert_eq!(line(1).unwrap(), "   #1 = Utf8               Foo");
    assert_eq!(line(2).unwrap(), "   #2 = Class              #1            // Foo");
    assert_eq!(line(8).unwrap(), "   #8 = Methodref          #4.#7         // java/lang/Object.\"<init>\":()V");
    assert_eq!(line(7).unwrap(), "   #7 = NameAndType        #5:#6         // \"<init>\":()V");
    assert_eq!(line(21).unwrap(), "  #21 = String             #15           // Foo.java");
    assert_eq!(line(22).unwrap(), "  #22 = Long               -1l");
    assert_eq!(line(23), None);
}

#[test]
fn modification_date_lines() {
    assert_eq!(last_modified_text(2024, 3, 5, 7), "  Last modified Mar 5, 2024; size 7 bytes");
    assert_eq!(last_modified_line(0, 10).unwrap(), "  Last modified Jan 1, 1970; size 10 bytes");
    assert_eq!(last_modified_line(1_546_300_800, 1).unwrap(), "  Last modified Jan 1, 2019; size 1 bytes");
}

#[test]
fn messages_name_the_offending_value() {
    assert_eq!(ClassFileError::UnknownOpcode { opcode: 0xfe }.message(), "Unknown bytecode instruction 0xfe.");
    assert_eq!(
        ClassFileError::InvalidAccessFlags { flags: 0x0002, mask: 0xf631 }.message(),
        "Access flags 0x0002 have bits outside the mask 0xf631."
    );
    assert_eq!(ClassFileError::BadConstantIndex { index: 6 }.message(), "No constant pool entry at index #6.");
}

#[test]
fn out_of_range_dates_have_no_line() {
    assert_eq!(last_modified_line(253402300800, 1), None);
    assert!(last_modified_line(253402300799, 1).is_some());
    assert!(last_modified_line(-377705116800, 1).is_some());
    assert_eq!(last_modified_line(-377705116801, 1), None);
}
