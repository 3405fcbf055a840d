use classfile::classfile::{convert_descriptor, get_return_type};
use classfile::descriptor::{
    java_string, parse_field_descriptor, parse_method_descriptor, Descriptor, Type,
};
use classfile::error::ClassFileError;

fn field(s: &str) -> String {
    parse_field_descriptor(s).unwrap().java_string()
}

#[test]
fn primitive_descriptor_prints_int() {
    let d = parse_field_descriptor("I").unwrap();
    assert_eq!(d.field_type, Type::Int);
    assert_eq!(d.java_string(), "int");
}

#[test]
fn two_dimensional_long_array() {
    assert_eq!(field("[[J"), "long[][]");
}

#[test]
fn object_descriptor_uses_dots() {
    assert_eq!(field("Ljava/lang/Object;"), "java.lang.Object");
}

#[test]
fn generic_descriptor_lists_arguments() {
    assert_eq!(
        field("Ljava/util/Map<Ljava/lang/String;Ljava/lang/Integer;>;"),
        "java.util.Map<java.lang.String, java.lang.Integer>"
    );
}

#[test]
fn nested_generic_and_array_arguments() {
    assert_eq!(
        field("Ljava/util/List<[Ljava/util/List<Ljava/lang/String;>;>;"),
        "java.util.List<java.util.List<java.lang.String>[]>"
    );
}

#[test]
fn every_primitive_keyword() {
    let pairs = [
        ("B", "byte"),
        ("C", "char"),
        ("D", "double"),
        ("F", "float"),
        ("I", "int"),
        ("J", "long"),
        ("S", "short"),
        ("Z", "boolean"),
        ("V", "void"),
    ];
    for (d, j) in pairs.iter() {
        assert_eq!(field(d), *j);
    }
}

#[test]
fn method_descriptor_parameters_and_return() {
    let d = parse_method_descriptor("(Ljava/lang/String;IJ)V").unwrap();
    assert_eq!(d.return_type, Type::Void);
    let params: Vec<String> = d.parameter_types.iter().map(java_string).collect();
    assert_eq!(params, vec!["java.lang.String", "int", "long"]);
    assert_eq!(d.java_string(), "void(java.lang.String, int, long)");
}

#[test]
fn method_descriptor_without_parameters() {
    let d = parse_method_descriptor("()[Ljava/lang/String;").unwrap();
    assert!(d.parameter_types.is_empty());
    assert_eq!(java_string(&d.return_type), "java.lang.String[]");
}

#[test]
fn malformed_descriptors_are_rejected() {
    for bad in ["", "Q", "Ljava/lang/String", "II", "L;", "Ljava.lang.String;", "Ljava/util/List<>;"] {
        match parse_field_descriptor(bad) {
            Err(ClassFileError::InvalidDescriptor { descriptor }) => assert_eq!(descriptor, bad),
            _ => panic!("accepted {:?}", bad),
        }
    }
    for bad in ["", "I", "(I", "(I)", "(I)VV", "(Q)V"] {
        assert!(matches!(
            parse_method_descriptor(bad),
            Err(ClassFileError::InvalidDescriptor { .. })
        ));
    }
}

#[test]
fn descriptor_conversion_helpers() {
    assert_eq!(convert_descriptor("(Ljava/lang/String;IJ)V").unwrap(), "(java.lang.String, int, long)");
    assert_eq!(convert_descriptor("[I").unwrap(), "int[]");
    assert_eq!(get_return_type("(I)Ljava/lang/String;").unwrap(), "java.lang.String");
    assert!(get_return_type("I").is_err());
}
