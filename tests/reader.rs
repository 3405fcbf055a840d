use classfile::error::ClassFileError;
use classfile::reader::{BinaryReader, Endian};

#[test]
fn big_endian_integers() {
    let data = [0x12u8, 0x34, 0xca, 0xfe, 0xba, 0xbe, 0xff, 0xfe];
    let mut r = BinaryReader::new(&data, Endian::Big);
    assert_eq!(r.read_u16(), Ok(0x1234));
    assert_eq!(r.read_u32(), Ok(0xcafebabe));
    assert_eq!(r.read_i16(), Ok(-2));
    assert_eq!(r.position(), 8);
    assert_eq!(r.len(), 8);
}

#[test]
fn little_endian_integers() {
    let data = [0x34u8, 0x12, 0x78, 0x56, 0x34, 0x12];
    let mut r = BinaryReader::new(&data, Endian::Little);
    assert_eq!(r.read_u16(), Ok(0x1234));
    assert_eq!(r.read_u32(), Ok(0x12345678));
}

#[test]
fn signed_reads_sign_extend() {
    let data = [0xffu8, 0x80, 0x00, 0xff, 0xff, 0xff, 0xfd];
    let mut r = BinaryReader::new(&data, Endian::Big);
    assert_eq!(r.read_i8(), Ok(-1));
    assert_eq!(r.read_i16(), Ok(-32768));
    assert_eq!(r.read_i32(), Ok(-3));
}

#[test]
fn end_of_input_does_not_move_the_cursor() {
    let data = [1u8, 2, 3];
    let mut r = BinaryReader::new(&data, Endian::Big);
    assert_eq!(r.read_u8(), Ok(1));
    assert_eq!(r.read_u32(), Err(ClassFileError::UnexpectedEof));
    assert_eq!(r.position(), 1);
    assert_eq!(r.read_u8_vec(3), Err(ClassFileError::UnexpectedEof));
    assert_eq!(r.read_u8_vec(2), Ok(vec![2, 3]));
    assert_eq!(r.read_u8(), Err(ClassFileError::UnexpectedEof));
}

#[test]
fn vectors_of_values() {
    let data = [0u8, 1, 0, 2, 0xff, 0xff, 0xff, 0xff];
    let mut r = BinaryReader::new(&data, Endian::Big);
    assert_eq!(r.read_u16_vec(2), Ok(vec![1, 2]));
    assert_eq!(r.read_i32_vec(1), Ok(vec![-1]));
    let mut r2 = BinaryReader::new(&data, Endian::Big);
    assert_eq!(r2.read_u16_vec(5), Err(ClassFileError::UnexpectedEof));
    assert_eq!(r2.position(), 0);
}

#[test]
fn alignment_skips_to_a_multiple_of_four() {
    let data = [0u8; 6];
    let mut r = BinaryReader::new(&data, Endian::Big);
    r.read_u8().unwrap();
    assert_eq!(r.align_to_four(), Ok(()));
    assert_eq!(r.position(), 4);
    assert_eq!(r.align_to_four(), Ok(()));
    assert_eq!(r.position(), 4);
    r.read_bytes(1).unwrap();
    assert_eq!(r.align_to_four(), Err(ClassFileError::UnexpectedEof));
    assert_eq!(r.position(), 5);
}
