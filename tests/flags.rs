use classfile::access_flags::{
    java_repr, java_repr_vec, mask_of, modifier_repr, modifier_repr_vec, parse_access_flags,
    to_u16, AccessFlag, FlagContext,
};
use classfile::error::ClassFileError;

#[test]
fn class_flags_decode_in_bit_order() {
    let f = parse_access_flags(0x0021, FlagContext::Class).unwrap();
    assert_eq!(f, vec![AccessFlag::Public, AccessFlag::Super]);
    assert_eq!(java_repr_vec(&f), "ACC_PUBLIC, ACC_SUPER");
    assert_eq!(modifier_repr_vec(&f), " public class");
    assert_eq!(to_u16(&f), 0x0021);
}

#[test]
fn same_bit_means_different_flags_per_context() {
    assert_eq!(parse_access_flags(0x0020, FlagContext::Class).unwrap(), vec![AccessFlag::Super]);
    assert_eq!(parse_access_flags(0x0020, FlagContext::Method).unwrap(), vec![AccessFlag::Synchronized]);
    assert_eq!(parse_access_flags(0x0040, FlagContext::Field).unwrap(), vec![AccessFlag::Volatile]);
    assert_eq!(parse_access_flags(0x0040, FlagContext::Method).unwrap(), vec![AccessFlag::Bridge]);
}

#[test]
fn bits_outside_the_mask_are_rejected() {
    assert_eq!(
        parse_access_flags(0x0002, FlagContext::Class),
        Err(ClassFileError::InvalidAccessFlags { flags: 0x0002, mask: 0xF631 })
    );
    assert!(parse_access_flags(0x0200, FlagContext::Method).is_err());
}

#[test]
fn every_context_accepts_exactly_its_mask() {
    let masks = [
        (FlagContext::Class, 0xF631u16),
        (FlagContext::InnerClass, 0x761F),
        (FlagContext::Field, 0x50DF),
        (FlagContext::Method, 0x1DFF),
        (FlagContext::MethodParameter, 0x9010),
        (FlagContext::Module, 0x9020),
    ];
    for (c, m) in masks.iter() {
        assert_eq!(mask_of(*c), *m);
        let all = parse_access_flags(*m, *c).unwrap();
        assert_eq!(to_u16(&all), *m);
        for bit in 0..16 {
            let b: u16 = 1 << bit;
            assert_eq!(parse_access_flags(b, *c).is_ok(), b & !*m == 0);
        }
    }
}

#[test]
fn flag_tokens_and_keywords() {
    assert_eq!(java_repr(AccessFlag::Static), "ACC_STATIC");
    assert_eq!(modifier_repr(AccessFlag::Final), "final");
    assert_eq!(modifier_repr(AccessFlag::Synthetic), "");
    let f = parse_access_flags(0x1009, FlagContext::Method).unwrap();
    assert_eq!(modifier_repr_vec(&f), " public static");
    assert_eq!(java_repr_vec(&f), "ACC_PUBLIC, ACC_STATIC, ACC_SYNTHETIC");
    assert_eq!(java_repr_vec(&[]), "");
    assert_eq!(to_u16(&[]), 0);
}
