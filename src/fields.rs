use vstd::prelude::*;

use crate::access_flags::{
    context_mask, decoded_flags, flags_word, parse_access_flags, AccessFlag, FlagContext,
};
use crate::attributes::{
    allowed_in, attributes_end, u2_at, attribute_name, code_well_formed, parse_attributes, AttributeContext, AttributeInfo,
};
use crate::constant_pool::{ConstantPool, ConstantPoolInfo};
use crate::error::ClassFileError;
use crate::reader::{BinaryReader, Endian};

verus! {

/// A field of a class: its flags, name and descriptor (as pool indices), and attributes.
#[derive(Debug)]
pub struct FieldInfo {
    pub access_flags: Vec<AccessFlag>,
    pub name_index: u16,
    pub descriptor_index: u16,
    pub attributes: Vec<AttributeInfo>,
}

/// Whether a field's attributes are all ones that a field may carry, each well formed.
pub open spec fn field_attributes_allowed(f: FieldInfo) -> bool {
    forall|k: int|
        0 <= k < f.attributes@.len() ==> allowed_in(
            AttributeContext::Field,
            attribute_name(#[trigger] f.attributes@[k]),
        ) && code_well_formed(f.attributes@[k])
}

/// Where `n` field_info structures that start at `p` end, if each one's flag word keeps to
/// the field mask and its attributes decode.
pub open spec fn fields_end(cp: Seq<ConstantPoolInfo>, d: Seq<u8>, p: int, n: int) -> Option<int>
    decreases n,
{
    if n <= 0 {
        Some(p)
    } else if p + 8 <= d.len() && (u2_at(d, p) as u16) & !context_mask(FlagContext::Field) == 0 {
        match attributes_end(cp, AttributeContext::Field, d, p + 8, u2_at(d, p + 6)) {
            Some(q) => fields_end(cp, d, q, n - 1),
            None => None,
        }
    } else {
        None
    }
}

/// Where the `k`-th field_info of a run that starts at `p` starts.
pub open spec fn field_start(cp: Seq<ConstantPoolInfo>, d: Seq<u8>, p: int, k: int) -> int
    decreases k,
{
    if k <= 0 {
        p
    } else {
        let q = field_start(cp, d, p, k - 1);
        attributes_end(cp, AttributeContext::Field, d, q + 8, u2_at(d, q + 6))->Some_0
    }
}

/// The flags of a field are those of a flag word that keeps to the field mask, and give
/// that word back.
pub open spec fn field_flags_decoded(f: FieldInfo) -> bool {
    exists|w: u16|
        w & !context_mask(FlagContext::Field) == 0 && f.access_flags@ == decoded_flags(w, FlagContext::Field)
            && flags_word(f.access_flags@) == w
}

/// Decodes `num_fields` consecutive fields.
pub fn parse_fields(reader: &mut BinaryReader, cp: &ConstantPool, num_fields: usize) -> (r: Result<Vec<FieldInfo>, ClassFileError>)
    requires
        old(reader).wf(),
        old(reader).byte_order() == Endian::Big,
    ensures
        final(reader).wf(),
        final(reader).data() == old(reader).data(),
        final(reader).byte_order() == Endian::Big,
        r matches Ok(v) ==> v@.len() == num_fields && forall|k: int|
            0 <= k < v@.len() ==> field_attributes_allowed(#[trigger] v@[k]) && field_flags_decoded(v@[k])
                && v@[k].access_flags@ == decoded_flags(u2_at(old(reader).data(), field_start(cp.entries@, old(reader).data(), old(reader).pos(), k)) as u16, FlagContext::Field)
                && flags_word(v@[k].access_flags@) == u2_at(old(reader).data(), field_start(cp.entries@, old(reader).data(), old(reader).pos(), k))
                && v@[k].name_index == u2_at(old(reader).data(), field_start(cp.entries@, old(reader).data(), old(reader).pos(), k) + 2)
                && v@[k].descriptor_index == u2_at(old(reader).data(), field_start(cp.entries@, old(reader).data(), old(reader).pos(), k) + 4),
        (fields_end(cp.entries@, old(reader).data(), old(reader).pos(), num_fields as int)) is Some <==> r is Ok,
        r is Ok ==> final(reader).pos() == (fields_end(cp.entries@, old(reader).data(), old(reader).pos(), num_fields as int))->Some_0,
{
    let mut fields: Vec<FieldInfo> = Vec::new();
    let mut k: usize = 0;
    while k < num_fields
        invariant
            reader.wf(),
            reader.data() == old(reader).data(),
            reader.byte_order() == Endian::Big,
            0 <= k <= num_fields,
            fields@.len() == k,
            forall|j: int| 0 <= j < k ==> field_attributes_allowed(#[trigger] fields@[j]) && field_flags_decoded(fields@[j])
                && fields@[j].access_flags@ == decoded_flags(u2_at(old(reader).data(), field_start(cp.entries@, old(reader).data(), old(reader).pos(), j)) as u16, FlagContext::Field)
                && flags_word(fields@[j].access_flags@) == u2_at(old(reader).data(), field_start(cp.entries@, old(reader).data(), old(reader).pos(), j))
                && fields@[j].name_index == u2_at(old(reader).data(), field_start(cp.entries@, old(reader).data(), old(reader).pos(), j) + 2)
                && fields@[j].descriptor_index == u2_at(old(reader).data(), field_start(cp.entries@, old(reader).data(), old(reader).pos(), j) + 4),
            reader.pos() == field_start(cp.entries@, old(reader).data(), old(reader).pos(), k as int),
            fields_end(cp.entries@, old(reader).data(), old(reader).pos(), num_fields as int) == fields_end(cp.entries@, old(reader).data(), reader.pos(), num_fields - k),
        decreases num_fields - k,
    {
        let flags = reader.read_u16()?;
        let access_flags = parse_access_flags(flags, FlagContext::Field)?;
        let name_index = reader.read_u16()?;
        let descriptor_index = reader.read_u16()?;
        let count = reader.read_u16()?;
        let attributes = parse_attributes(reader, cp, count as usize, AttributeContext::Field)?;
        let ghost item = FieldInfo { access_flags, name_index, descriptor_index, attributes };
        assert(field_flags_decoded(item));
        let ghost prev = fields@;
        fields.push(FieldInfo { access_flags, name_index, descriptor_index, attributes });
        proof {
            assert forall|j: int| 0 <= j < fields@.len() implies field_attributes_allowed(#[trigger] fields@[j]) && field_flags_decoded(fields@[j])
                && fields@[j].access_flags@ == decoded_flags(u2_at(old(reader).data(), field_start(cp.entries@, old(reader).data(), old(reader).pos(), j)) as u16, FlagContext::Field)
                && flags_word(fields@[j].access_flags@) == u2_at(old(reader).data(), field_start(cp.entries@, old(reader).data(), old(reader).pos(), j))
                && fields@[j].name_index == u2_at(old(reader).data(), field_start(cp.entries@, old(reader).data(), old(reader).pos(), j) + 2)
                && fields@[j].descriptor_index == u2_at(old(reader).data(), field_start(cp.entries@, old(reader).data(), old(reader).pos(), j) + 4) by {
                if j < prev.len() {
                    assert(fields@[j] == prev[j]);
                }
            }
        }
        k = k + 1;
    }
    Ok(fields)
}

} // verus!
