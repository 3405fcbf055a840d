use vstd::prelude::*;

use crate::access_flags::{
    context_mask, decoded_flags, flags_word, parse_access_flags, AccessFlag, FlagContext,
};
use crate::attributes::{
    allowed_in, attribute_name, attribute_start, attributes_end, body_decoded, parse_class_attributes,
    u2_at, AttributeContext,
    AttributeInfo,
};
use crate::constant_pool::{
    parse_constant_pool, pool_decoded, pool_end, pool_well_formed, references_live, ConstantPool,
    ConstantPoolInfo,
};
use crate::descriptor::{
    descriptor_of, java_list, java_list_string, java_of, java_string, method_descriptor_of,
    parse_field_descriptor, parse_method_descriptor, valid_type, valid_types, Type,
};
use crate::error::ClassFileError;
use crate::fields::{field_attributes_allowed, field_start, fields_end, parse_fields, FieldInfo};
use crate::methods::{method_attributes_allowed, method_start, methods_end, parse_methods, MethodInfo};
use crate::reader::{u16_at, u32_at, BinaryReader, Endian};
use crate::text::{push_char, push_str};

verus! {

/// The magic number that opens every class file.
pub const MAGIC: u32 = 0xcafebabe;

/// What the SHA-256 digest of a byte sequence is.
pub uninterp spec fn sha256_of(data: Seq<u8>) -> Seq<u8>;

/// Relies on `sha2::Sha256::digest`: the SHA-256 digest of the bytes, 32 bytes long.
#[verifier::external_body]
fn sha256_digest(data: &[u8]) -> (r: Vec<u8>)
    ensures
        r@ == sha256_of(data@),
        r@.len() == 32,
{
    <sha2::Sha256 as sha2::Digest>::digest(data).to_vec()
}

/// What follows the constant pool (ending at `q`) decodes against the pool entries `es`:
/// the class flag word keeps to the class mask, and the interfaces, fields, methods and
/// attributes all decode.
pub open spec fn rest_decodable(es: Seq<ConstantPoolInfo>, d: Seq<u8>, q: int) -> bool {
    let a = q + 8 + 2 * u2_at(d, q + 6);
    &&& q + 8 <= d.len()
    &&& (u2_at(d, q) as u16) & !context_mask(FlagContext::Class) == 0
    &&& a + 2 <= d.len()
    &&& match fields_end(es, d, a + 2, u2_at(d, a)) {
        Some(b) => b + 2 <= d.len() && match methods_end(es, d, b + 2, u2_at(d, b)) {
            Some(m) => m + 2 <= d.len() && attributes_end(es, AttributeContext::Class, d, m + 2, u2_at(d, m)) is Some,
            None => false,
        },
        None => false,
    }
}

/// The bytes form a class file that decodes: the magic number, a constant pool whose
/// entries decode and refer only to live slots, and the rest of the file decoding against
/// that pool.
pub open spec fn class_decodable(d: Seq<u8>) -> bool {
    let n = u2_at(d, 8) - 1;
    &&& d.len() >= 10
    &&& u32_at(Endian::Big, d, 0) == MAGIC
    &&& n >= 0
    &&& pool_end(d, 10, n) is Some
    &&& forall|es: Seq<ConstantPoolInfo>, starts: Seq<int>|
        pool_decoded(d, es, starts) && starts[0] == 10 && es.len() == n ==> references_live(es)
            && rest_decodable(es, d, pool_end(d, 10, n)->Some_0)
}

/// What follows the constant pool is what the bytes hold: the class flags, this and super
/// class indices, the interfaces, each field's and method's flags, name and descriptor, and
/// each class attribute's payload.
pub open spec fn class_body_decoded(cf: ClassFile, d: Seq<u8>) -> bool {
    let cp = cf.constant_pool.entries@;
    let q = pool_end(d, 10, u2_at(d, 8) - 1)->Some_0;
    let a = q + 8 + 2 * u2_at(d, q + 6);
    let b = fields_end(cp, d, a + 2, u2_at(d, a))->Some_0;
    let m = methods_end(cp, d, b + 2, u2_at(d, b))->Some_0;
    &&& cf.access_flags@ == decoded_flags(u2_at(d, q) as u16, FlagContext::Class)
    &&& flags_word(cf.access_flags@) == u2_at(d, q)
    &&& cf.this_class == u2_at(d, q + 2)
    &&& cf.super_class == u2_at(d, q + 4)
    &&& cf.interfaces@.len() == u2_at(d, q + 6)
    &&& forall|k: int| 0 <= k < cf.interfaces@.len() ==> #[trigger] cf.interfaces@[k] == u2_at(d, q + 8 + 2 * k)
    &&& cf.fields@.len() == u2_at(d, a)
    &&& forall|k: int| 0 <= k < cf.fields@.len() ==> {
        let f = field_start(cp, d, a + 2, k);
        &&& (#[trigger] cf.fields@[k]).access_flags@ == decoded_flags(u2_at(d, f) as u16, FlagContext::Field)
        &&& cf.fields@[k].name_index == u2_at(d, f + 2)
        &&& cf.fields@[k].descriptor_index == u2_at(d, f + 4)
    }
    &&& cf.methods@.len() == u2_at(d, b)
    &&& forall|k: int| 0 <= k < cf.methods@.len() ==> {
        let f = method_start(cp, d, b + 2, k);
        &&& (#[trigger] cf.methods@[k]).access_flags@ == decoded_flags(u2_at(d, f) as u16, FlagContext::Method)
        &&& cf.methods@[k].name_index == u2_at(d, f + 2)
        &&& cf.methods@[k].descriptor_index == u2_at(d, f + 4)
    }
    &&& cf.attributes@.len() == u2_at(d, m)
    &&& forall|k: int| 0 <= k < cf.attributes@.len() ==> body_decoded(cp, #[trigger] cf.attributes@[k], d,
        attribute_start(cp, AttributeContext::Class, d, m + 2, k) + 6)
}

/// A decoded class file together with what is known of the file that held it.
#[derive(Debug)]
pub struct ClassFile {
    pub absolute_file_path: String,
    /// Last modification, in seconds since the Unix epoch.
    pub modified_time: i64,
    pub file_size: usize,
    pub sha256_digest: Vec<u8>,
    pub minor_version: u16,
    pub major_version: u16,
    pub constant_pool: ConstantPool,
    pub access_flags: Vec<AccessFlag>,
    pub this_class: u16,
    pub super_class: u16,
    pub interfaces: Vec<u16>,
    pub fields: Vec<FieldInfo>,
    pub methods: Vec<MethodInfo>,
    pub attributes: Vec<AttributeInfo>,
}

/// Decodes the bytes of a class file. The path and modification time are carried into
/// the result as they are given; size and digest are those of `bytes`.
#[verifier::rlimit(80)]
pub fn parse_class_bytes(bytes: &[u8], absolute_file_path: String, modified_time: i64) -> (r: Result<ClassFile, ClassFileError>)
    ensures
        bytes@.len() < 4 ==> r == Err::<ClassFile, ClassFileError>(ClassFileError::UnexpectedEof),
        class_decodable(bytes@) ==> r is Ok,
        bytes@.len() >= 4 && u32_at(Endian::Big, bytes@, 0) != MAGIC ==> r == Err::<ClassFile, ClassFileError>(
            ClassFileError::BadMagic { actual: u32_at(Endian::Big, bytes@, 0) as u32 },
        ),
        r matches Ok(cf) ==> {
            &&& u32_at(Endian::Big, bytes@, 0) == MAGIC
            &&& cf.absolute_file_path == absolute_file_path
            &&& cf.modified_time == modified_time
            &&& cf.file_size == bytes@.len()
            &&& cf.sha256_digest@ == sha256_of(bytes@)
            &&& cf.minor_version == u16_at(Endian::Big, bytes@, 4)
            &&& cf.major_version == u16_at(Endian::Big, bytes@, 6)
            &&& cf.constant_pool.entries@.len() + 1 == u16_at(Endian::Big, bytes@, 8)
            &&& pool_well_formed(cf.constant_pool.entries@)
            &&& exists|starts: Seq<int>| pool_decoded(bytes@, cf.constant_pool.entries@, starts) && starts[0] == 10
            &&& forall|k: int| 0 <= k < cf.fields@.len() ==> field_attributes_allowed(#[trigger] cf.fields@[k])
            &&& forall|k: int| 0 <= k < cf.methods@.len() ==> method_attributes_allowed(#[trigger] cf.methods@[k])
            &&& forall|k: int| 0 <= k < cf.attributes@.len() ==> allowed_in(
                AttributeContext::Class,
                attribute_name(#[trigger] cf.attributes@[k]),
            )
            &&& class_body_decoded(cf, bytes@)
        },
{
    let mut reader = BinaryReader::new(bytes, Endian::Big);
    let magic = reader.read_u32()?;
    if magic != MAGIC {
        return Err(ClassFileError::BadMagic { actual: magic });
    }
    let minor_version = reader.read_u16()?;
    let major_version = reader.read_u16()?;
    let cp_count = reader.read_u16()?;
    if cp_count == 0 {
        return Err(ClassFileError::BadConstantIndex { index: 0 });
    }
    let constant_pool = parse_constant_pool(&mut reader, (cp_count - 1) as usize)?;
    let flags = reader.read_u16()?;
    let access_flags = parse_access_flags(flags, FlagContext::Class)?;
    let this_class = reader.read_u16()?;
    let super_class = reader.read_u16()?;
    let interfaces_count = reader.read_u16()?;
    let interfaces = reader.read_u16_vec(interfaces_count as usize)?;
    let fields_count = reader.read_u16()?;
    let fields = parse_fields(&mut reader, &constant_pool, fields_count as usize)?;
    let methods_count = reader.read_u16()?;
    let methods = parse_methods(&mut reader, &constant_pool, methods_count as usize)?;
    let attributes_count = reader.read_u16()?;
    let attributes = parse_class_attributes(&mut reader, &constant_pool, attributes_count as usize)?;
    Ok(ClassFile {
        absolute_file_path,
        modified_time,
        file_size: bytes.len(),
        sha256_digest: sha256_digest(bytes),
        minor_version,
        major_version,
        constant_pool,
        access_flags,
        this_class,
        super_class,
        interfaces,
        fields,
        methods,
        attributes,
    })
}

/// The Java rendering of the return type of a method descriptor.
pub fn get_return_type(descriptor: &str) -> (r: Result<String, ClassFileError>)
    ensures
        r matches Ok(s) ==> exists|d: crate::descriptor::MethodDescriptor|
            crate::descriptor::method_descriptor_of(d.parameter_types@, d.return_type) == descriptor@
                && valid_type(d.return_type) && s@ == java_of(d.return_type),
        r matches Err(e) ==> e is InvalidDescriptor,
        forall|params: Seq<Type>, ret: Type|
            valid_types(params, params.len()) && valid_type(ret) && #[trigger] method_descriptor_of(params, ret)
                == descriptor@ ==> r is Ok,
{
    let d = parse_method_descriptor(descriptor)?;
    Ok(java_string(&d.return_type))
}

/// `s` is the Java rendering of the descriptor `desc`: the type of a field descriptor, or
/// the parenthesised parameter list of a method descriptor.
pub open spec fn converted(desc: Seq<char>, s: Seq<char>) -> bool {
    (exists|d: crate::descriptor::FieldDescriptor|
        crate::descriptor::descriptor_of(d.field_type) == desc && valid_type(d.field_type)
            && s == java_of(d.field_type))
    || (exists|d: crate::descriptor::MethodDescriptor|
        crate::descriptor::method_descriptor_of(d.parameter_types@, d.return_type) == desc
            && valid_types(d.parameter_types@, d.parameter_types@.len()) && valid_type(d.return_type)
            && s == seq!['('] + java_list(d.parameter_types@, d.parameter_types@.len()) + seq![')'])
}

/// The Java rendering of a descriptor: the type of a field descriptor, or the parenthesised
/// parameter list of a method descriptor.
pub fn convert_descriptor(descriptor: &str) -> (r: Result<String, ClassFileError>)
    ensures
        r matches Err(e) ==> e is InvalidDescriptor,
        r matches Ok(s) ==> converted(descriptor@, s@),
        forall|t: Type| valid_type(t) && #[trigger] descriptor_of(t) == descriptor@ ==> (r matches Ok(s)
            && s@ == java_of(t)),
        forall|params: Seq<Type>, ret: Type|
            valid_types(params, params.len()) && valid_type(ret) && #[trigger] method_descriptor_of(params, ret)
                == descriptor@ ==> r is Ok,
{
    let t = descriptor.unicode_len() > 0 && descriptor.get_char(0) == '(';
    proof {
        assert forall|ty: Type| valid_type(ty) && #[trigger] descriptor_of(ty) == descriptor@ implies !t by {
            crate::descriptor::lemma_descriptor_shape(ty);
        }
        assert forall|params: Seq<Type>, ret: Type|
            valid_types(params, params.len()) && valid_type(ret) && #[trigger] method_descriptor_of(params, ret)
                == descriptor@ implies t by {
            assert(method_descriptor_of(params, ret)[0] == '(');
        }
    }
    if t {
        let d = parse_method_descriptor(descriptor)?;
        let mut s = String::new();
        push_char(&mut s, '(');
        let list = java_list_string(&d.parameter_types);
        push_str(&mut s, list.as_str());
        push_char(&mut s, ')');
        assert(s@ =~= seq!['('] + java_list(d.parameter_types@, d.parameter_types@.len()) + seq![')']);
        Ok(s)
    } else {
        let d = parse_field_descriptor(descriptor)?;
        Ok(java_string(&d.field_type))
    }
}

} // verus!
