use vstd::prelude::*;

use crate::error::ClassFileError;
use crate::reader::{u16_at, u32_at, BinaryReader, Endian};
use crate::reference_kind::{kind_code, ReferenceKind};
use crate::text::{chars_of, decimal, push_char, push_decimal, push_str, string_from_utf8};

verus! {

/// One slot of the constant pool.
#[derive(Debug, Clone, PartialEq, Eq)]
pub enum ConstantPoolInfo {
    /// The slot right after a `Long` or `Double`, which those entries occupy too.
    Null {},
    Utf8 { bytes: Vec<u8> },
    Integer { bytes: u32 },
    Float { bytes: u32 },
    Long { high_bytes: u32, low_bytes: u32 },
    Double { high_bytes: u32, low_bytes: u32 },
    String { string_index: u16 },
    Class { name_index: u16 },
    FieldRef { class_index: u16, name_and_type_index: u16 },
    MethodRef { class_index: u16, name_and_type_index: u16 },
    InterfaceMethodRef { class_index: u16, name_and_type_index: u16 },
    NameAndType { name_index: u16, descriptor_index: u16 },
    MethodType { descriptor_index: u16 },
    MethodHandle { reference_kind: ReferenceKind, reference_index: u16 },
    Dynamic { bootstrap_method_attr_index: u16, name_and_type_index: u16 },
    InvokeDynamic { bootstrap_method_attr_index: u16, name_and_type_index: u16 },
    Module { name_index: u16 },
    Package { name_index: u16 },
}

/// The tag byte that opens each constant-pool entry.
#[derive(Debug, Clone, Copy, PartialEq, Eq, Structural)]
pub enum ConstantPoolTag {
    Utf8,
    Integer,
    Float,
    Long,
    Double,
    String,
    Class,
    Fieldref,
    Methodref,
    InterfaceMethodref,
    NameAndType,
    MethodHandle,
    MethodType,
    Dynamic,
    InvokeDynamic,
    Module,
    Package,
}

pub open spec fn tag_code(t: ConstantPoolTag) -> u8 {
    match t {
        ConstantPoolTag::Utf8 => 1,
        ConstantPoolTag::Integer => 3,
        ConstantPoolTag::Float => 4,
        ConstantPoolTag::Long => 5,
        ConstantPoolTag::Double => 6,
        ConstantPoolTag::Class => 7,
        ConstantPoolTag::String => 8,
        ConstantPoolTag::Fieldref => 9,
        ConstantPoolTag::Methodref => 10,
        ConstantPoolTag::InterfaceMethodref => 11,
        ConstantPoolTag::NameAndType => 12,
        ConstantPoolTag::MethodHandle => 15,
        ConstantPoolTag::MethodType => 16,
        ConstantPoolTag::Dynamic => 17,
        ConstantPoolTag::InvokeDynamic => 18,
        ConstantPoolTag::Module => 19,
        ConstantPoolTag::Package => 20,
    }
}

/// Whether a byte is one of the accepted constant-pool tags.
pub open spec fn is_known_tag(b: u8) -> bool {
    (1 <= b && b <= 12 && b != 2) || (15 <= b && b <= 20)
}

impl ConstantPoolTag {
    /// Decodes a tag byte; `None` for a byte outside the accepted set.
    pub fn from_code(value: u8) -> (r: Option<ConstantPoolTag>)
        ensures
            r is Some <==> is_known_tag(value),
            r matches Some(t) ==> tag_code(t) == value,
    {
        match value {
            1 => Some(ConstantPoolTag::Utf8),
            3 => Some(ConstantPoolTag::Integer),
            4 => Some(ConstantPoolTag::Float),
            5 => Some(ConstantPoolTag::Long),
            6 => Some(ConstantPoolTag::Double),
            7 => Some(ConstantPoolTag::Class),
            8 => Some(ConstantPoolTag::String),
            9 => Some(ConstantPoolTag::Fieldref),
            10 => Some(ConstantPoolTag::Methodref),
            11 => Some(ConstantPoolTag::InterfaceMethodref),
            12 => Some(ConstantPoolTag::NameAndType),
            15 => Some(ConstantPoolTag::MethodHandle),
            16 => Some(ConstantPoolTag::MethodType),
            17 => Some(ConstantPoolTag::Dynamic),
            18 => Some(ConstantPoolTag::InvokeDynamic),
            19 => Some(ConstantPoolTag::Module),
            20 => Some(ConstantPoolTag::Package),
            _ => None,
        }
    }
}

/// Whether an entry takes two slots.
pub open spec fn is_wide(e: ConstantPoolInfo) -> bool {
    e is Long || e is Double
}

/// The pool indices that an entry refers to.
pub open spec fn references(e: ConstantPoolInfo) -> Seq<u16> {
    match e {
        ConstantPoolInfo::String { string_index } => seq![string_index],
        ConstantPoolInfo::Class { name_index } => seq![name_index],
        ConstantPoolInfo::FieldRef { class_index, name_and_type_index } => seq![
            class_index,
            name_and_type_index,
        ],
        ConstantPoolInfo::MethodRef { class_index, name_and_type_index } => seq![
            class_index,
            name_and_type_index,
        ],
        ConstantPoolInfo::InterfaceMethodRef { class_index, name_and_type_index } => seq![
            class_index,
            name_and_type_index,
        ],
        ConstantPoolInfo::NameAndType { name_index, descriptor_index } => seq![
            name_index,
            descriptor_index,
        ],
        ConstantPoolInfo::MethodType { descriptor_index } => seq![descriptor_index],
        ConstantPoolInfo::MethodHandle { reference_kind, reference_index } => seq![
            reference_index,
        ],
        ConstantPoolInfo::Dynamic { bootstrap_method_attr_index, name_and_type_index } => seq![
            name_and_type_index,
        ],
        ConstantPoolInfo::InvokeDynamic { bootstrap_method_attr_index, name_and_type_index } => seq![
            name_and_type_index,
        ],
        ConstantPoolInfo::Module { name_index } => seq![name_index],
        ConstantPoolInfo::Package { name_index } => seq![name_index],
        _ => Seq::empty(),
    }
}

/// Index `j` (1-based) names a slot that holds an entry of its own.
pub open spec fn live_slot(cp: Seq<ConstantPoolInfo>, j: int) -> bool {
    1 <= j <= cp.len() && !(cp[j - 1] is Null)
}

/// Every `Long`/`Double` is followed by the `Null` sentinel, every sentinel follows one,
/// and no entry refers to a sentinel or outside the pool.
pub open spec fn pool_well_formed(cp: Seq<ConstantPoolInfo>) -> bool {
    &&& forall|k: int|
        0 <= k < cp.len() && is_wide(#[trigger] cp[k]) ==> k + 1 < cp.len() && cp[k + 1] is Null
    &&& forall|k: int|
        0 <= k < cp.len() && #[trigger] cp[k] is Null ==> k > 0 && is_wide(cp[k - 1])
    &&& forall|k: int, m: int|
        0 <= k < cp.len() && 0 <= m < references(cp[k]).len() ==> live_slot(
            cp,
            #[trigger] references(cp[k])[m] as int,
        )
}

/// The entry that an entry with tag `t` decodes to from the bytes at `p`, and its size.
pub open spec fn decoded_entry(t: ConstantPoolTag, d: Seq<u8>, p: int, e: ConstantPoolInfo) -> bool {
    match t {
        ConstantPoolTag::Utf8 => e == ConstantPoolInfo::Utf8 {
            bytes: e->Utf8_bytes,
        } && e->Utf8_bytes@ == d.subrange(p + 2, p + 2 + u16_at(Endian::Big, d, p)),
        ConstantPoolTag::Integer => e == ConstantPoolInfo::Integer { bytes: u32_at(Endian::Big, d, p) as u32 },
        ConstantPoolTag::Float => e == ConstantPoolInfo::Float { bytes: u32_at(Endian::Big, d, p) as u32 },
        ConstantPoolTag::Long => e == ConstantPoolInfo::Long {
            high_bytes: u32_at(Endian::Big, d, p) as u32,
            low_bytes: u32_at(Endian::Big, d, p + 4) as u32,
        },
        ConstantPoolTag::Double => e == ConstantPoolInfo::Double {
            high_bytes: u32_at(Endian::Big, d, p) as u32,
            low_bytes: u32_at(Endian::Big, d, p + 4) as u32,
        },
        ConstantPoolTag::String => e == ConstantPoolInfo::String { string_index: u16_at(Endian::Big, d, p) as u16 },
        ConstantPoolTag::Class => e == ConstantPoolInfo::Class { name_index: u16_at(Endian::Big, d, p) as u16 },
        ConstantPoolTag::Fieldref => e == ConstantPoolInfo::FieldRef {
            class_index: u16_at(Endian::Big, d, p) as u16,
            name_and_type_index: u16_at(Endian::Big, d, p + 2) as u16,
        },
        ConstantPoolTag::Methodref => e == ConstantPoolInfo::MethodRef {
            class_index: u16_at(Endian::Big, d, p) as u16,
            name_and_type_index: u16_at(Endian::Big, d, p + 2) as u16,
        },
        ConstantPoolTag::InterfaceMethodref => e == ConstantPoolInfo::InterfaceMethodRef {
            class_index: u16_at(Endian::Big, d, p) as u16,
            name_and_type_index: u16_at(Endian::Big, d, p + 2) as u16,
        },
        ConstantPoolTag::NameAndType => e == ConstantPoolInfo::NameAndType {
            name_index: u16_at(Endian::Big, d, p) as u16,
            descriptor_index: u16_at(Endian::Big, d, p + 2) as u16,
        },
        ConstantPoolTag::MethodHandle => e is MethodHandle && kind_code(e->reference_kind)
            == d[p] && e->reference_index == u16_at(Endian::Big, d, p + 1) as u16,
        ConstantPoolTag::MethodType => e == ConstantPoolInfo::MethodType { descriptor_index: u16_at(Endian::Big, d, p) as u16 },
        ConstantPoolTag::Dynamic => e == ConstantPoolInfo::Dynamic {
            bootstrap_method_attr_index: u16_at(Endian::Big, d, p) as u16,
            name_and_type_index: u16_at(Endian::Big, d, p + 2) as u16,
        },
        ConstantPoolTag::InvokeDynamic => e == ConstantPoolInfo::InvokeDynamic {
            bootstrap_method_attr_index: u16_at(Endian::Big, d, p) as u16,
            name_and_type_index: u16_at(Endian::Big, d, p + 2) as u16,
        },
        ConstantPoolTag::Module => e == ConstantPoolInfo::Module { name_index: u16_at(Endian::Big, d, p) as u16 },
        ConstantPoolTag::Package => e == ConstantPoolInfo::Package { name_index: u16_at(Endian::Big, d, p) as u16 },
    }
}

/// The number of bytes that the payload of an entry with tag `t` at `p` takes.
pub open spec fn payload_size(t: ConstantPoolTag, d: Seq<u8>, p: int) -> int {
    match t {
        ConstantPoolTag::Utf8 => 2 + u16_at(Endian::Big, d, p),
        ConstantPoolTag::Long | ConstantPoolTag::Double => 8,
        ConstantPoolTag::Integer | ConstantPoolTag::Float | ConstantPoolTag::Fieldref
        | ConstantPoolTag::Methodref | ConstantPoolTag::InterfaceMethodref
        | ConstantPoolTag::NameAndType | ConstantPoolTag::Dynamic
        | ConstantPoolTag::InvokeDynamic => 4,
        ConstantPoolTag::MethodHandle => 3,
        _ => 2,
    }
}

/// The tag of an entry's variant (the sentinel has none; `Utf8` stands in).
pub open spec fn entry_tag(e: ConstantPoolInfo) -> ConstantPoolTag {
    match e {
        ConstantPoolInfo::Utf8 { .. } => ConstantPoolTag::Utf8,
        ConstantPoolInfo::Integer { .. } => ConstantPoolTag::Integer,
        ConstantPoolInfo::Float { .. } => ConstantPoolTag::Float,
        ConstantPoolInfo::Long { .. } => ConstantPoolTag::Long,
        ConstantPoolInfo::Double { .. } => ConstantPoolTag::Double,
        ConstantPoolInfo::String { .. } => ConstantPoolTag::String,
        ConstantPoolInfo::Class { .. } => ConstantPoolTag::Class,
        ConstantPoolInfo::FieldRef { .. } => ConstantPoolTag::Fieldref,
        ConstantPoolInfo::MethodRef { .. } => ConstantPoolTag::Methodref,
        ConstantPoolInfo::InterfaceMethodRef { .. } => ConstantPoolTag::InterfaceMethodref,
        ConstantPoolInfo::NameAndType { .. } => ConstantPoolTag::NameAndType,
        ConstantPoolInfo::MethodType { .. } => ConstantPoolTag::MethodType,
        ConstantPoolInfo::MethodHandle { .. } => ConstantPoolTag::MethodHandle,
        ConstantPoolInfo::Dynamic { .. } => ConstantPoolTag::Dynamic,
        ConstantPoolInfo::InvokeDynamic { .. } => ConstantPoolTag::InvokeDynamic,
        ConstantPoolInfo::Module { .. } => ConstantPoolTag::Module,
        ConstantPoolInfo::Package { .. } => ConstantPoolTag::Package,
        ConstantPoolInfo::Null {} => ConstantPoolTag::Utf8,
    }
}

/// The entries decode one after another from the bytes of `d`: entry `k` (its tag byte
/// and payload) stands at `starts[k]` up to `starts[k + 1]`; a sentinel takes no bytes.
pub open spec fn pool_decoded(d: Seq<u8>, entries: Seq<ConstantPoolInfo>, starts: Seq<int>) -> bool {
    &&& starts.len() == entries.len() + 1
    &&& forall|k: int| 0 <= k < entries.len() ==> {
        let e = #[trigger] entries[k];
        if e is Null {
            starts[k + 1] == starts[k]
        } else {
            &&& tag_code(entry_tag(e)) == d[starts[k]]
            &&& decoded_entry(entry_tag(e), d, starts[k] + 1, e)
            &&& starts[k + 1] == starts[k] + 1 + payload_size(entry_tag(e), d, starts[k] + 1)
        }
    }
}

/// The payload of an entry with tag `t` at `q` lies within the data, and a method handle's
/// kind is one of `1..=9`.
pub open spec fn payload_fits(t: ConstantPoolTag, d: Seq<u8>, q: int) -> bool {
    &&& q + payload_size(t, d, q) <= d.len()
    &&& t == ConstantPoolTag::Utf8 ==> q + 2 <= d.len()
    &&& t == ConstantPoolTag::MethodHandle ==> 1 <= d[q] <= 9
}

/// The tag that a known tag byte stands for.
pub open spec fn tag_of(b: u8) -> ConstantPoolTag {
    if b == 1 { ConstantPoolTag::Utf8 }
    else if b == 3 { ConstantPoolTag::Integer }
    else if b == 4 { ConstantPoolTag::Float }
    else if b == 5 { ConstantPoolTag::Long }
    else if b == 6 { ConstantPoolTag::Double }
    else if b == 7 { ConstantPoolTag::Class }
    else if b == 8 { ConstantPoolTag::String }
    else if b == 9 { ConstantPoolTag::Fieldref }
    else if b == 10 { ConstantPoolTag::Methodref }
    else if b == 11 { ConstantPoolTag::InterfaceMethodref }
    else if b == 12 { ConstantPoolTag::NameAndType }
    else if b == 15 { ConstantPoolTag::MethodHandle }
    else if b == 16 { ConstantPoolTag::MethodType }
    else if b == 17 { ConstantPoolTag::Dynamic }
    else if b == 18 { ConstantPoolTag::InvokeDynamic }
    else if b == 19 { ConstantPoolTag::Module }
    else { ConstantPoolTag::Package }
}

/// Where `slots` pool slots that start at `p` end, if they decode: each tag is known, each
/// payload fits, and a `Long` or `Double` does not stand in the last slot.
pub open spec fn pool_end(d: Seq<u8>, p: int, slots: int) -> Option<int>
    decreases slots,
{
    if slots <= 0 {
        Some(p)
    } else {
        let t = tag_of(d[p]);
        let wide = t == ConstantPoolTag::Long || t == ConstantPoolTag::Double;
        if 0 <= p < d.len() && is_known_tag(d[p]) && payload_fits(t, d, p + 1) && (wide ==> slots >= 2) {
            pool_end(d, p + 1 + payload_size(t, d, p + 1), if wide { slots - 2 } else { slots - 1 })
        } else {
            None
        }
    }
}

/// `slots` pool slots decode from the bytes at `p`.
pub open spec fn pool_decodable(d: Seq<u8>, p: int, slots: int) -> bool {
    pool_end(d, p, slots) is Some
}

/// Decodes the payload of one entry whose tag has been read.
fn parse_constant_pool_info(reader: &mut BinaryReader, tag: ConstantPoolTag) -> (r: Result<
    ConstantPoolInfo,
    ClassFileError,
>)
    requires
        old(reader).wf(),
        old(reader).byte_order() == Endian::Big,
    ensures
        final(reader).wf(),
        final(reader).data() == old(reader).data(),
        final(reader).byte_order() == old(reader).byte_order(),
        r matches Ok(e) ==> decoded_entry(tag, old(reader).data(), old(reader).pos(), e)
            && final(reader).advanced(old(reader), payload_size(tag, old(reader).data(), old(reader).pos())),
        r is Err ==> r == Err::<ConstantPoolInfo, ClassFileError>(ClassFileError::UnexpectedEof)
            || exists|k: u8| r == Err::<ConstantPoolInfo, ClassFileError>(ClassFileError::UnknownReferenceKind { kind: k }),
        r is Ok <==> payload_fits(tag, old(reader).data(), old(reader).pos()),
{
    match tag {
        ConstantPoolTag::Utf8 => {
            let length = reader.read_u16()?;
            let bytes = reader.read_u8_vec(length as usize)?;
            Ok(ConstantPoolInfo::Utf8 { bytes })
        },
        ConstantPoolTag::Integer => Ok(ConstantPoolInfo::Integer { bytes: reader.read_u32()? }),
        ConstantPoolTag::Float => Ok(ConstantPoolInfo::Float { bytes: reader.read_u32()? }),
        ConstantPoolTag::Long => {
            let high_bytes = reader.read_u32()?;
            let low_bytes = reader.read_u32()?;
            Ok(ConstantPoolInfo::Long { high_bytes, low_bytes })
        },
        ConstantPoolTag::Double => {
            let high_bytes = reader.read_u32()?;
            let low_bytes = reader.read_u32()?;
            Ok(ConstantPoolInfo::Double { high_bytes, low_bytes })
        },
        ConstantPoolTag::String => Ok(ConstantPoolInfo::String { string_index: reader.read_u16()? }),
        ConstantPoolTag::Class => Ok(ConstantPoolInfo::Class { name_index: reader.read_u16()? }),
        ConstantPoolTag::Fieldref => {
            let class_index = reader.read_u16()?;
            let name_and_type_index = reader.read_u16()?;
            Ok(ConstantPoolInfo::FieldRef { class_index, name_and_type_index })
        },
        ConstantPoolTag::Methodref => {
            let class_index = reader.read_u16()?;
            let name_and_type_index = reader.read_u16()?;
            Ok(ConstantPoolInfo::MethodRef { class_index, name_and_type_index })
        },
        ConstantPoolTag::InterfaceMethodref => {
            let class_index = reader.read_u16()?;
            let name_and_type_index = reader.read_u16()?;
            Ok(ConstantPoolInfo::InterfaceMethodRef { class_index, name_and_type_index })
        },
        ConstantPoolTag::NameAndType => {
            let name_index = reader.read_u16()?;
            let descriptor_index = reader.read_u16()?;
            Ok(ConstantPoolInfo::NameAndType { name_index, descriptor_index })
        },
        ConstantPoolTag::MethodHandle => {
            let kind = reader.read_u8()?;
            let reference_index = reader.read_u16()?;
            match ReferenceKind::from_code(kind) {
                Some(reference_kind) => Ok(ConstantPoolInfo::MethodHandle { reference_kind, reference_index }),
                None => Err(ClassFileError::UnknownReferenceKind { kind }),
            }
        },
        ConstantPoolTag::MethodType => Ok(ConstantPoolInfo::MethodType { descriptor_index: reader.read_u16()? }),
        ConstantPoolTag::Dynamic => {
            let bootstrap_method_attr_index = reader.read_u16()?;
            let name_and_type_index = reader.read_u16()?;
            Ok(ConstantPoolInfo::Dynamic { bootstrap_method_attr_index, name_and_type_index })
        },
        ConstantPoolTag::InvokeDynamic => {
            let bootstrap_method_attr_index = reader.read_u16()?;
            let name_and_type_index = reader.read_u16()?;
            Ok(ConstantPoolInfo::InvokeDynamic { bootstrap_method_attr_index, name_and_type_index })
        },
        ConstantPoolTag::Module => Ok(ConstantPoolInfo::Module { name_index: reader.read_u16()? }),
        ConstantPoolTag::Package => Ok(ConstantPoolInfo::Package { name_index: reader.read_u16()? }),
    }
}

/// The pool indices that an entry refers to, as a vector.
fn entry_references(e: &ConstantPoolInfo) -> (r: Vec<u16>)
    ensures
        r@ == references(*e),
{
    match e {
        ConstantPoolInfo::String { string_index } => vec![*string_index],
        ConstantPoolInfo::Class { name_index } => vec![*name_index],
        ConstantPoolInfo::FieldRef { class_index, name_and_type_index } => vec![*class_index, *name_and_type_index],
        ConstantPoolInfo::MethodRef { class_index, name_and_type_index } => vec![*class_index, *name_and_type_index],
        ConstantPoolInfo::InterfaceMethodRef { class_index, name_and_type_index } => vec![*class_index, *name_and_type_index],
        ConstantPoolInfo::NameAndType { name_index, descriptor_index } => vec![*name_index, *descriptor_index],
        ConstantPoolInfo::MethodType { descriptor_index } => vec![*descriptor_index],
        ConstantPoolInfo::MethodHandle { reference_kind: _, reference_index } => vec![*reference_index],
        ConstantPoolInfo::Dynamic { bootstrap_method_attr_index: _, name_and_type_index } => vec![*name_and_type_index],
        ConstantPoolInfo::InvokeDynamic { bootstrap_method_attr_index: _, name_and_type_index } => vec![*name_and_type_index],
        ConstantPoolInfo::Module { name_index } => vec![*name_index],
        ConstantPoolInfo::Package { name_index } => vec![*name_index],
        _ => Vec::new(),
    }
}

fn is_live_slot(entries: &Vec<ConstantPoolInfo>, j: u16) -> (r: bool)
    ensures
        r == live_slot(entries@, j as int),
{
    j >= 1 && (j as usize) <= entries.len() && !matches!(entries[(j - 1) as usize], ConstantPoolInfo::Null {})
}

/// No entry refers outside the pool or to a sentinel slot.
pub open spec fn references_live(cp: Seq<ConstantPoolInfo>) -> bool {
    forall|k: int, m: int|
        0 <= k < cp.len() && 0 <= m < references(cp[k]).len() ==> live_slot(
            cp,
            #[trigger] references(cp[k])[m] as int,
        )
}

/// Checks that no entry refers outside the pool or to a sentinel slot.
fn check_references(entries: &Vec<ConstantPoolInfo>) -> (r: Result<(), ClassFileError>)
    ensures
        r is Ok <==> forall|k: int, m: int|
            0 <= k < entries@.len() && 0 <= m < references(entries@[k]).len() ==> live_slot(
                entries@,
                #[trigger] references(entries@[k])[m] as int,
            ),
        r matches Err(e) ==> e is BadConstantIndex,
{
    let mut k: usize = 0;
    while k < entries.len()
        invariant
            0 <= k <= entries@.len(),
            forall|k2: int, m: int|
                0 <= k2 < k && 0 <= m < references(entries@[k2]).len() ==> live_slot(
                    entries@,
                    #[trigger] references(entries@[k2])[m] as int,
                ),
        decreases entries@.len() - k,
    {
        let refs = entry_references(&entries[k]);
        let mut m: usize = 0;
        while m < refs.len()
            invariant
                0 <= k < entries@.len(),
                refs@ == references(entries@[k as int]),
                0 <= m <= refs@.len(),
                forall|k2: int, m2: int|
                    0 <= k2 < k && 0 <= m2 < references(entries@[k2]).len() ==> live_slot(
                        entries@,
                        #[trigger] references(entries@[k2])[m2] as int,
                    ),
                forall|m2: int| 0 <= m2 < m ==> live_slot(entries@, #[trigger] refs@[m2] as int),
            decreases refs@.len() - m,
        {
            if !is_live_slot(entries, refs[m]) {
                return Err(ClassFileError::BadConstantIndex { index: refs[m] });
            }
            m = m + 1;
        }
        k = k + 1;
    }
    Ok(())
}

/// The decoded constant pool: slot `i` of the class file is `entries[i - 1]`.
#[derive(Debug)]
pub struct ConstantPool {
    pub entries: Vec<ConstantPoolInfo>,
}

/// Reads a constant pool of `cp_count` slots (the file's `constant_pool_count - 1`).
/// A `Long` or `Double` fills two slots, the second with the `Null` sentinel.
pub fn parse_constant_pool(reader: &mut BinaryReader, cp_count: usize) -> (r: Result<
    ConstantPool,
    ClassFileError,
>)
    requires
        old(reader).wf(),
        old(reader).byte_order() == Endian::Big,
    ensures
        final(reader).wf(),
        final(reader).data() == old(reader).data(),
        final(reader).byte_order() == Endian::Big,
        r matches Ok(cp) ==> cp.entries@.len() == cp_count && pool_well_formed(cp.entries@)
            && exists|starts: Seq<int>|
            pool_decoded(old(reader).data(), cp.entries@, starts) && starts[0] == old(reader).pos()
                && starts.last() == final(reader).pos(),
        r matches Err(ClassFileError::UnknownConstantPoolTag { tag }) ==> !is_known_tag(tag),
        r is Ok ==> pool_decodable(old(reader).data(), old(reader).pos(), cp_count as int)
            && final(reader).pos() == pool_end(old(reader).data(), old(reader).pos(), cp_count as int)->Some_0,
        pool_decodable(old(reader).data(), old(reader).pos(), cp_count as int) ==> (r is Ok || r matches Err(ClassFileError::BadConstantIndex { .. })),
        r matches Err(ClassFileError::BadConstantIndex { .. }) ==> !pool_decodable(old(reader).data(), old(reader).pos(), cp_count as int) || exists|es: Seq<ConstantPoolInfo>, starts: Seq<int>|
            pool_decoded(old(reader).data(), es, starts) && starts[0] == old(reader).pos() && es.len() == cp_count
                && !references_live(es),
{
    let mut entries: Vec<ConstantPoolInfo> = Vec::new();
    let ghost mut starts: Seq<int> = seq![reader.pos()];
    while entries.len() < cp_count
        invariant
            reader.wf(),
            reader.data() == old(reader).data(),
            reader.byte_order() == Endian::Big,
            entries@.len() <= cp_count,
            forall|k: int|
                0 <= k < entries@.len() && is_wide(#[trigger] entries@[k]) ==> k + 1 < entries@.len()
                    && entries@[k + 1] is Null,
            forall|k: int|
                0 <= k < entries@.len() && #[trigger] entries@[k] is Null ==> k > 0 && is_wide(
                    entries@[k - 1],
                ),
            pool_decoded(old(reader).data(), entries@, starts),
            starts[0] == old(reader).pos(),
            starts.last() == reader.pos(),
            pool_end(old(reader).data(), old(reader).pos(), cp_count as int)
                == pool_end(old(reader).data(), reader.pos(), cp_count - entries@.len()),
        decreases cp_count - entries@.len(),
    {
        let code = reader.read_u8()?;
        let tag = match ConstantPoolTag::from_code(code) {
            Some(t) => t,
            None => return Err(ClassFileError::UnknownConstantPoolTag { tag: code }),
        };
        let info = parse_constant_pool_info(reader, tag)?;
        let wide = matches!(tag, ConstantPoolTag::Long) || matches!(tag, ConstantPoolTag::Double);
        if wide {
            if entries.len() + 1 >= cp_count {
                return Err(ClassFileError::BadConstantIndex { index: #[verifier::truncate] ((entries.len() + 1) as u16) });
            }
            let ghost before = entries@;
            entries.push(info);
            entries.push(ConstantPoolInfo::Null {});
            proof {
                starts = starts.push(reader.pos()).push(reader.pos());
                assert forall|k: int| 0 <= k < entries@.len() implies {
                    let e = #[trigger] entries@[k];
                    if e is Null {
                        starts[k + 1] == starts[k]
                    } else {
                        &&& tag_code(entry_tag(e)) == old(reader).data()[starts[k]]
                        &&& decoded_entry(entry_tag(e), old(reader).data(), starts[k] + 1, e)
                        &&& starts[k + 1] == starts[k] + 1 + payload_size(entry_tag(e), old(reader).data(), starts[k] + 1)
                    }
                } by {
                    if k < before.len() {
                        assert(entries@[k] == before[k]);
                    }
                }
            }
        } else {
            let ghost before = entries@;
            entries.push(info);
            proof {
                starts = starts.push(reader.pos());
                assert forall|k: int| 0 <= k < entries@.len() implies {
                    let e = #[trigger] entries@[k];
                    if e is Null {
                        starts[k + 1] == starts[k]
                    } else {
                        &&& tag_code(entry_tag(e)) == old(reader).data()[starts[k]]
                        &&& decoded_entry(entry_tag(e), old(reader).data(), starts[k] + 1, e)
                        &&& starts[k + 1] == starts[k] + 1 + payload_size(entry_tag(e), old(reader).data(), starts[k] + 1)
                    }
                } by {
                    if k < before.len() {
                        assert(entries@[k] == before[k]);
                    }
                }
            }
        }
    }
    match check_references(&entries) {
        Ok(()) => {},
        Err(e) => {
            assert(!references_live(entries@));
            assert(pool_decoded(old(reader).data(), entries@, starts) && starts[0] == old(reader).pos());
            return Err(e);
        },
    }
    Ok(ConstantPool { entries })
}

/// What javap shows for one character of a `Utf8` entry.
pub open spec fn escape_char(c: char) -> Seq<char> {
    if c == '\n' {
        seq!['\\', 'n']
    } else if c == '\'' {
        seq!['\\', '\'']
    } else if c == '\u{1}' {
        seq!['\\', 'u', '0', '0', '0', '1']
    } else {
        seq![c]
    }
}

/// A text with newlines, single quotes and U+0001 escaped.
pub open spec fn escape(s: Seq<char>) -> Seq<char>
    decreases s.len(),
{
    if s.len() == 0 {
        Seq::empty()
    } else {
        escape(s.drop_last()) + escape_char(s.last())
    }
}

/// An array descriptor (text starting with `[`) in double quotes; other text as it is.
pub open spec fn wrap_array(s: Seq<char>) -> Seq<char> {
    if s.len() > 0 && s[0] == '[' {
        seq!['"'] + s + seq!['"']
    } else {
        s
    }
}

/// A special method name (starting with `<`) in double quotes; other names as they are.
pub open spec fn quote_special(s: Seq<char>) -> Seq<char> {
    if s.len() > 0 && s[0] == '<' {
        seq!['"'] + s + seq!['"']
    } else {
        s
    }
}

/// A text result seen through the characters of its string.
pub open spec fn as_text(r: Result<String, ClassFileError>) -> Result<Seq<char>, ClassFileError> {
    match r {
        Ok(s) => Ok(s@),
        Err(e) => Err(e),
    }
}

/// The entry at 1-based index `i`, or why there is none.
pub open spec fn entry_of(cp: Seq<ConstantPoolInfo>, i: u16) -> Result<ConstantPoolInfo, ClassFileError> {
    if live_slot(cp, i as int) {
        Ok(cp[i - 1])
    } else {
        Err(ClassFileError::BadConstantIndex { index: i })
    }
}

/// The escaped text of the `Utf8` entry at `i`.
pub open spec fn utf8_text(cp: Seq<ConstantPoolInfo>, i: u16) -> Result<Seq<char>, ClassFileError> {
    match entry_of(cp, i) {
        Ok(ConstantPoolInfo::Utf8 { bytes }) => if vstd::utf8::valid_utf8(bytes@) {
            Ok(escape(vstd::utf8::decode_utf8(bytes@)))
        } else {
            Err(ClassFileError::InvalidUtf8 { index: i })
        },
        Ok(_) => Err(ClassFileError::WrongEntryType { index: i }),
        Err(e) => Err(e),
    }
}

/// The escaped text of the `Utf8` entry at `i`, quoted when it is an array descriptor.
pub open spec fn utf8_content(cp: Seq<ConstantPoolInfo>, i: u16) -> Result<Seq<char>, ClassFileError> {
    match utf8_text(cp, i) {
        Ok(s) => Ok(wrap_array(s)),
        Err(e) => Err(e),
    }
}

/// The internal name of the `Class` entry at `i`.
pub open spec fn class_name(cp: Seq<ConstantPoolInfo>, i: u16) -> Result<Seq<char>, ClassFileError> {
    match entry_of(cp, i) {
        Ok(ConstantPoolInfo::Class { name_index }) => utf8_content(cp, name_index),
        Ok(_) => Err(ClassFileError::WrongEntryType { index: i }),
        Err(e) => Err(e),
    }
}

/// `name:descriptor` from two `Utf8` indices.
pub open spec fn name_and_type_text(cp: Seq<ConstantPoolInfo>, n: u16, d: u16) -> Result<Seq<char>, ClassFileError> {
    match utf8_content(cp, n) {
        Ok(name) => match utf8_content(cp, d) {
            Ok(desc) => Ok(quote_special(name) + seq![':'] + desc),
            Err(e) => Err(e),
        },
        Err(e) => Err(e),
    }
}

/// `name:descriptor` of the `NameAndType` entry at `i`.
pub open spec fn name_and_type(cp: Seq<ConstantPoolInfo>, i: u16) -> Result<Seq<char>, ClassFileError> {
    match entry_of(cp, i) {
        Ok(ConstantPoolInfo::NameAndType { name_index, descriptor_index }) => name_and_type_text(cp, name_index, descriptor_index),
        Ok(_) => Err(ClassFileError::WrongEntryType { index: i }),
        Err(e) => Err(e),
    }
}

/// `Class.name:descriptor` from a class index and a name-and-type index.
pub open spec fn member_ref_text(cp: Seq<ConstantPoolInfo>, c: u16, nt: u16) -> Result<Seq<char>, ClassFileError> {
    match class_name(cp, c) {
        Ok(cn) => match name_and_type(cp, nt) {
            Ok(x) => Ok(cn + seq!['.'] + x),
            Err(e) => Err(e),
        },
        Err(e) => Err(e),
    }
}

/// `Class.name:descriptor` of the `Methodref` or `InterfaceMethodref` entry at `i`.
pub open spec fn method_ref(cp: Seq<ConstantPoolInfo>, i: u16) -> Result<Seq<char>, ClassFileError> {
    match entry_of(cp, i) {
        Ok(ConstantPoolInfo::MethodRef { class_index, name_and_type_index }) => member_ref_text(cp, class_index, name_and_type_index),
        Ok(ConstantPoolInfo::InterfaceMethodRef { class_index, name_and_type_index }) => member_ref_text(cp, class_index, name_and_type_index),
        Ok(_) => Err(ClassFileError::WrongEntryType { index: i }),
        Err(e) => Err(e),
    }
}

/// `Class.name:descriptor` of the `Fieldref` entry at `i`.
pub open spec fn field_ref(cp: Seq<ConstantPoolInfo>, i: u16) -> Result<Seq<char>, ClassFileError> {
    match entry_of(cp, i) {
        Ok(ConstantPoolInfo::FieldRef { class_index, name_and_type_index }) => member_ref_text(cp, class_index, name_and_type_index),
        Ok(_) => Err(ClassFileError::WrongEntryType { index: i }),
        Err(e) => Err(e),
    }
}

/// `name:descriptor` of the `Fieldref` entry at `i`.
pub open spec fn field_ref_name_and_type(cp: Seq<ConstantPoolInfo>, i: u16) -> Result<Seq<char>, ClassFileError> {
    match entry_of(cp, i) {
        Ok(ConstantPoolInfo::FieldRef { class_index, name_and_type_index }) => name_and_type(cp, name_and_type_index),
        Ok(_) => Err(ClassFileError::WrongEntryType { index: i }),
        Err(e) => Err(e),
    }
}

/// `#bootstrap:name:descriptor` from a bootstrap index and a name-and-type index.
pub open spec fn invoke_dynamic_text(cp: Seq<ConstantPoolInfo>, b: u16, nt: u16) -> Result<Seq<char>, ClassFileError> {
    match name_and_type(cp, nt) {
        Ok(x) => Ok(seq!['#'] + decimal(b as nat) + seq![':'] + x),
        Err(e) => Err(e),
    }
}

/// `#bootstrap:name:descriptor` of the `InvokeDynamic` entry at `i`.
pub open spec fn invoke_dynamic(cp: Seq<ConstantPoolInfo>, i: u16) -> Result<Seq<char>, ClassFileError> {
    match entry_of(cp, i) {
        Ok(ConstantPoolInfo::InvokeDynamic { bootstrap_method_attr_index, name_and_type_index }) => invoke_dynamic_text(cp, bootstrap_method_attr_index, name_and_type_index),
        Ok(_) => Err(ClassFileError::WrongEntryType { index: i }),
        Err(e) => Err(e),
    }
}

/// Escapes newlines, single quotes and U+0001 in `t`.
pub fn escape_text(t: &str) -> (r: String)
    ensures
        r@ == escape(t@),
{
    let cs = chars_of(t);
    let mut out = String::new();
    let mut i: usize = 0;
    while i < cs.len()
        invariant
            cs@ == t@,
            0 <= i <= cs@.len(),
            out@ == escape(cs@.subrange(0, i as int)),
        decreases cs@.len() - i,
    {
        let c = cs[i];
        if c == '\n' {
            push_str(&mut out, "\\n");
        } else if c == '\'' {
            push_str(&mut out, "\\'");
        } else if c == '\u{1}' {
            push_str(&mut out, "\\u0001");
        } else {
            push_char(&mut out, c);
        }
        proof {
            reveal_strlit("\\n");
            reveal_strlit("\\'");
            reveal_strlit("\\u0001");
            let p = cs@.subrange(0, i + 1);
            assert(p.drop_last() =~= cs@.subrange(0, i as int));
            assert(out@ =~= escape(p));
        }
        i = i + 1;
    }
    assert(cs@.subrange(0, cs@.len() as int) =~= cs@);
    out
}

/// Decodes the bytes of a `Utf8` entry and escapes them as javap shows them;
/// `None` when they are not valid UTF-8.
pub fn convert_utf8(utf8_bytes: &[u8]) -> (r: Option<String>)
    ensures
        r is Some <==> vstd::utf8::valid_utf8(utf8_bytes@),
        r matches Some(s) ==> s@ == escape(vstd::utf8::decode_utf8(utf8_bytes@)),
{
    match string_from_utf8(vstd::slice::slice_to_vec(utf8_bytes)) {
        Some(s) => Some(escape_text(s.as_str())),
        None => None,
    }
}

fn quoted(s: &String) -> (r: String)
    ensures
        r@ == seq!['"'] + s@ + seq!['"'],
{
    let mut out = String::new();
    push_char(&mut out, '"');
    push_str(&mut out, s.as_str());
    push_char(&mut out, '"');
    assert(out@ =~= seq!['"'] + s@ + seq!['"']);
    out
}

fn starts_with_char(s: &String, c: char) -> (r: bool)
    ensures
        r == (s@.len() > 0 && s@[0] == c),
{
    let t = s.as_str();
    t.unicode_len() > 0 && t.get_char(0) == c
}

impl ConstantPool {
    /// The entry at 1-based index `cp_index`; fails for index 0, past the end, or a sentinel slot.
    pub fn entry(&self, cp_index: u16) -> (r: Result<&ConstantPoolInfo, ClassFileError>)
        ensures
            match r {
                Ok(e) => entry_of(self.entries@, cp_index) == Ok::<ConstantPoolInfo, ClassFileError>(*e),
                Err(e) => entry_of(self.entries@, cp_index) == Err::<ConstantPoolInfo, ClassFileError>(e),
            },
    {
        if is_live_slot(&self.entries, cp_index) {
            Ok(&self.entries[(cp_index - 1) as usize])
        } else {
            Err(ClassFileError::BadConstantIndex { index: cp_index })
        }
    }

    /// The escaped text of the `Utf8` entry at `cp_index`, quoted when it begins with `[`.
    pub fn get_utf8_content(&self, cp_index: u16) -> (r: Result<String, ClassFileError>)
        ensures
            as_text(r) == utf8_content(self.entries@, cp_index),
    {
        match self.entry(cp_index)? {
            ConstantPoolInfo::Utf8 { bytes } => match convert_utf8(bytes.as_slice()) {
                Some(content) => {
                    if starts_with_char(&content, '[') {
                        Ok(quoted(&content))
                    } else {
                        Ok(content)
                    }
                },
                None => Err(ClassFileError::InvalidUtf8 { index: cp_index }),
            },
            _ => Err(ClassFileError::WrongEntryType { index: cp_index }),
        }
    }

    /// The internal (slash-separated) name of the `Class` entry at `cp_index`.
    pub fn get_class_name(&self, cp_index: u16) -> (r: Result<String, ClassFileError>)
        ensures
            as_text(r) == class_name(self.entries@, cp_index),
    {
        match self.entry(cp_index)? {
            ConstantPoolInfo::Class { name_index } => self.get_utf8_content(*name_index),
            _ => Err(ClassFileError::WrongEntryType { index: cp_index }),
        }
    }

    /// `name:descriptor`, the name quoted when it begins with `<`.
    pub fn get_name_and_type_string(&self, name_index: u16, descriptor_index: u16) -> (r: Result<String, ClassFileError>)
        ensures
            as_text(r) == name_and_type_text(self.entries@, name_index, descriptor_index),
    {
        let name = self.get_utf8_content(name_index)?;
        let descriptor = self.get_utf8_content(descriptor_index)?;
        let mut out = if starts_with_char(&name, '<') {
            quoted(&name)
        } else {
            name
        };
        push_char(&mut out, ':');
        push_str(&mut out, descriptor.as_str());
        proof {
            assert(out@ =~= quote_special(name@) + seq![':'] + descriptor@);
        }
        Ok(out)
    }

    /// `name:descriptor` of the `NameAndType` entry at `cp_index`.
    pub fn get_name_and_type(&self, cp_index: u16) -> (r: Result<String, ClassFileError>)
        ensures
            as_text(r) == name_and_type(self.entries@, cp_index),
    {
        match self.entry(cp_index)? {
            ConstantPoolInfo::NameAndType { name_index, descriptor_index } => self.get_name_and_type_string(*name_index, *descriptor_index),
            _ => Err(ClassFileError::WrongEntryType { index: cp_index }),
        }
    }

    /// `Class.name:descriptor` of a method reference given by its two indices.
    pub fn get_method_ref_string(&self, class_index: u16, name_and_type_index: u16) -> (r: Result<String, ClassFileError>)
        ensures
            as_text(r) == member_ref_text(self.entries@, class_index, name_and_type_index),
    {
        let mut out = self.get_class_name(class_index)?;
        let nt = self.get_name_and_type(name_and_type_index)?;
        let ghost cn = out@;
        push_char(&mut out, '.');
        push_str(&mut out, nt.as_str());
        assert(out@ =~= cn + seq!['.'] + nt@);
        Ok(out)
    }

    /// `Class.name:descriptor` of a field reference given by its two indices.
    pub fn get_field_ref_string(&self, class_index: u16, name_and_type_index: u16) -> (r: Result<String, ClassFileError>)
        ensures
            as_text(r) == member_ref_text(self.entries@, class_index, name_and_type_index),
    {
        self.get_method_ref_string(class_index, name_and_type_index)
    }

    /// `Class.name:descriptor` of the `Methodref` or `InterfaceMethodref` entry at `cp_index`.
    pub fn get_method_ref(&self, cp_index: u16) -> (r: Result<String, ClassFileError>)
        ensures
            as_text(r) == method_ref(self.entries@, cp_index),
    {
        match self.entry(cp_index)? {
            ConstantPoolInfo::MethodRef { class_index, name_and_type_index } => self.get_method_ref_string(*class_index, *name_and_type_index),
            ConstantPoolInfo::InterfaceMethodRef { class_index, name_and_type_index } => self.get_method_ref_string(*class_index, *name_and_type_index),
            _ => Err(ClassFileError::WrongEntryType { index: cp_index }),
        }
    }

    /// `Class.name:descriptor` of the `Fieldref` entry at `cp_index`.
    pub fn get_field_ref(&self, cp_index: u16) -> (r: Result<String, ClassFileError>)
        ensures
            as_text(r) == field_ref(self.entries@, cp_index),
    {
        match self.entry(cp_index)? {
            ConstantPoolInfo::FieldRef { class_index, name_and_type_index } => self.get_field_ref_string(*class_index, *name_and_type_index),
            _ => Err(ClassFileError::WrongEntryType { index: cp_index }),
        }
    }

    /// `name:descriptor` of the `Fieldref` entry at `cp_index`.
    pub fn get_field_ref_name_and_type(&self, cp_index: u16) -> (r: Result<String, ClassFileError>)
        ensures
            as_text(r) == field_ref_name_and_type(self.entries@, cp_index),
    {
        match self.entry(cp_index)? {
            ConstantPoolInfo::FieldRef { class_index: _, name_and_type_index } => self.get_name_and_type(*name_and_type_index),
            _ => Err(ClassFileError::WrongEntryType { index: cp_index }),
        }
    }

    /// `#bootstrap:name:descriptor` from a bootstrap index and a name-and-type index.
    pub fn get_invoke_dynamic_string(&self, bootstrap_method_attr_index: u16, name_and_type_index: u16) -> (r: Result<String, ClassFileError>)
        ensures
            as_text(r) == invoke_dynamic_text(self.entries@, bootstrap_method_attr_index, name_and_type_index),
    {
        let nt = self.get_name_and_type(name_and_type_index)?;
        let mut out = String::new();
        push_char(&mut out, '#');
        push_decimal(&mut out, bootstrap_method_attr_index as u64);
        push_char(&mut out, ':');
        push_str(&mut out, nt.as_str());
        assert(out@ =~= seq!['#'] + decimal(bootstrap_method_attr_index as nat) + seq![':'] + nt@);
        Ok(out)
    }

    /// `#bootstrap:name:descriptor` of the `InvokeDynamic` entry at `cp_index`.
    pub fn get_invoke_dynamic(&self, cp_index: u16) -> (r: Result<String, ClassFileError>)
        ensures
            as_text(r) == invoke_dynamic(self.entries@, cp_index),
    {
        match self.entry(cp_index)? {
            ConstantPoolInfo::InvokeDynamic { bootstrap_method_attr_index, name_and_type_index } => self.get_invoke_dynamic_string(*bootstrap_method_attr_index, *name_and_type_index),
            _ => Err(ClassFileError::WrongEntryType { index: cp_index }),
        }
    }

    /// The number of slots, sentinels included.
    pub fn len(&self) -> (r: usize)
        ensures
            r == self.entries@.len(),
    {
        self.entries.len()
    }

    pub fn is_empty(&self) -> (r: bool)
        ensures
            r == (self.entries@.len() == 0),
    {
        self.entries.len() == 0
    }
}

/// The characters that escaping rewrites.
pub open spec fn is_escaped_char(c: char) -> bool {
    c == '\n' || c == '\'' || c == '\u{1}'
}

proof fn lemma_escape_unchanged(t: Seq<char>)
    requires
        forall|i: int| 0 <= i < t.len() ==> !is_escaped_char(#[trigger] t[i]),
    ensures
        escape(t) == t,
    decreases t.len(),
{
    if t.len() > 0 {
        lemma_escape_unchanged(t.drop_last());
        assert(escape(t) =~= t);
    }
}

proof fn lemma_escape_leaves_no_escaped_char(s: Seq<char>)
    requires
        forall|i: int| 0 <= i < s.len() ==> #[trigger] s[i] != '\'',
    ensures
        forall|i: int| 0 <= i < escape(s).len() ==> !is_escaped_char(#[trigger] escape(s)[i]),
    decreases s.len(),
{
    if s.len() > 0 {
        lemma_escape_leaves_no_escaped_char(s.drop_last());
        let a = escape(s.drop_last());
        let b = escape_char(s.last());
        assert(escape(s) == a + b);
        assert forall|i: int| 0 <= i < escape(s).len() implies !is_escaped_char(#[trigger] escape(s)[i]) by {
            if i >= a.len() {
                assert(escape(s)[i] == b[i - a.len()]);
            } else {
                assert(escape(s)[i] == a[i]);
            }
        }
    }
}

/// Escaping a text that holds no single quote a second time changes nothing:
/// the escaped text holds no newline, quote or U+0001 left to rewrite. (A single quote
/// becomes `\'`, which still holds a quote, so texts with one are left out.)
pub proof fn escape_idempotent(s: Seq<char>)
    requires
        forall|i: int| 0 <= i < s.len() ==> #[trigger] s[i] != '\'',
    ensures
        escape(escape(s)) == escape(s),
{
    lemma_escape_leaves_no_escaped_char(s);
    lemma_escape_unchanged(escape(s));
}

/// In a well-formed pool every index that an entry holds names a live entry, never the
/// sentinel after a `Long` or `Double`: looking it up does not fail.
pub proof fn references_resolve(cp: Seq<ConstantPoolInfo>, k: int, m: int)
    requires
        pool_well_formed(cp),
        0 <= k < cp.len(),
        0 <= m < references(cp[k]).len(),
    ensures
        entry_of(cp, references(cp[k])[m]) is Ok,
        !(cp[references(cp[k])[m] - 1] is Null),
{
    assert(live_slot(cp, references(cp[k])[m] as int));
}

} // verus!
