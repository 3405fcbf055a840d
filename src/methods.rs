use vstd::prelude::*;

use crate::access_flags::{
    context_mask, decoded_flags, flags_word, parse_access_flags, AccessFlag, FlagContext,
};
use crate::attributes::{
    allowed_in, attributes_end, u2_at, attribute_name, code_well_formed, parse_attributes, AttributeContext, AttributeInfo,
};
use crate::constant_pool::{ConstantPool, ConstantPoolInfo};
use crate::error::ClassFileError;
use crate::reader::{BinaryReader, Endian};

verus! {

/// A method of a class: its flags, name and descriptor (as pool indices), and attributes.
#[derive(Debug)]
pub struct MethodInfo {
    pub access_flags: Vec<AccessFlag>,
    pub name_index: u16,
    pub descriptor_index: u16,
    pub attributes: Vec<AttributeInfo>,
}

/// Whether a method's attributes are all ones that a method may carry, each well formed.
pub open spec fn method_attributes_allowed(f: MethodInfo) -> bool {
    forall|k: int|
        0 <= k < f.attributes@.len() ==> allowed_in(
            AttributeContext::Method,
            attribute_name(#[trigger] f.attributes@[k]),
        ) && code_well_formed(f.attributes@[k])
}

/// Where `n` method_info structures that start at `p` end, if each one's flag word keeps to
/// the method mask and its attributes decode.
pub open spec fn methods_end(cp: Seq<ConstantPoolInfo>, d: Seq<u8>, p: int, n: int) -> Option<int>
    decreases n,
{
    if n <= 0 {
        Some(p)
    } else if p + 8 <= d.len() && (u2_at(d, p) as u16) & !context_mask(FlagContext::Method) == 0 {
        match attributes_end(cp, AttributeContext::Method, d, p + 8, u2_at(d, p + 6)) {
            Some(q) => methods_end(cp, d, q, n - 1),
            None => None,
        }
    } else {
        None
    }
}

/// Where the `k`-th method_info of a run that starts at `p` starts.
pub open spec fn method_start(cp: Seq<ConstantPoolInfo>, d: Seq<u8>, p: int, k: int) -> int
    decreases k,
{
    if k <= 0 {
        p
    } else {
        let q = method_start(cp, d, p, k - 1);
        attributes_end(cp, AttributeContext::Method, d, q + 8, u2_at(d, q + 6))->Some_0
    }
}

/// The flags of a method are those of a flag word that keeps to the method mask, and give
/// that word back.
pub open spec fn method_flags_decoded(f: MethodInfo) -> bool {
    exists|w: u16|
        w & !context_mask(FlagContext::Method) == 0 && f.access_flags@ == decoded_flags(w, FlagContext::Method)
            && flags_word(f.access_flags@) == w
}

/// Decodes `num_methods` consecutive methods.
pub fn parse_methods(reader: &mut BinaryReader, cp: &ConstantPool, num_methods: usize) -> (r: Result<Vec<MethodInfo>, ClassFileError>)
    requires
        old(reader).wf(),
        old(reader).byte_order() == Endian::Big,
    ensures
        final(reader).wf(),
        final(reader).data() == old(reader).data(),
        final(reader).byte_order() == Endian::Big,
        r matches Ok(v) ==> v@.len() == num_methods && forall|k: int|
            0 <= k < v@.len() ==> method_attributes_allowed(#[trigger] v@[k]) && method_flags_decoded(v@[k])
                && v@[k].access_flags@ == decoded_flags(u2_at(old(reader).data(), method_start(cp.entries@, old(reader).data(), old(reader).pos(), k)) as u16, FlagContext::Method)
                && flags_word(v@[k].access_flags@) == u2_at(old(reader).data(), method_start(cp.entries@, old(reader).data(), old(reader).pos(), k))
                && v@[k].name_index == u2_at(old(reader).data(), method_start(cp.entries@, old(reader).data(), old(reader).pos(), k) + 2)
                && v@[k].descriptor_index == u2_at(old(reader).data(), method_start(cp.entries@, old(reader).data(), old(reader).pos(), k) + 4),
        (methods_end(cp.entries@, old(reader).data(), old(reader).pos(), num_methods as int)) is Some <==> r is Ok,
        r is Ok ==> final(reader).pos() == (methods_end(cp.entries@, old(reader).data(), old(reader).pos(), num_methods as int))->Some_0,
{
    let mut methods: Vec<MethodInfo> = Vec::new();
    let mut k: usize = 0;
    while k < num_methods
        invariant
            reader.wf(),
            reader.data() == old(reader).data(),
            reader.byte_order() == Endian::Big,
            0 <= k <= num_methods,
            methods@.len() == k,
            forall|j: int| 0 <= j < k ==> method_attributes_allowed(#[trigger] methods@[j]) && method_flags_decoded(methods@[j])
                && methods@[j].access_flags@ == decoded_flags(u2_at(old(reader).data(), method_start(cp.entries@, old(reader).data(), old(reader).pos(), j)) as u16, FlagContext::Method)
                && flags_word(methods@[j].access_flags@) == u2_at(old(reader).data(), method_start(cp.entries@, old(reader).data(), old(reader).pos(), j))
                && methods@[j].name_index == u2_at(old(reader).data(), method_start(cp.entries@, old(reader).data(), old(reader).pos(), j) + 2)
                && methods@[j].descriptor_index == u2_at(old(reader).data(), method_start(cp.entries@, old(reader).data(), old(reader).pos(), j) + 4),
            reader.pos() == method_start(cp.entries@, old(reader).data(), old(reader).pos(), k as int),
            methods_end(cp.entries@, old(reader).data(), old(reader).pos(), num_methods as int) == methods_end(cp.entries@, old(reader).data(), reader.pos(), num_methods - k),
        decreases num_methods - k,
    {
        let flags = reader.read_u16()?;
        let access_flags = parse_access_flags(flags, FlagContext::Method)?;
        let name_index = reader.read_u16()?;
        let descriptor_index = reader.read_u16()?;
        let count = reader.read_u16()?;
        let attributes = parse_attributes(reader, cp, count as usize, AttributeContext::Method)?;
        let ghost item = MethodInfo { access_flags, name_index, descriptor_index, attributes };
        assert(method_flags_decoded(item));
        let ghost prev = methods@;
        methods.push(MethodInfo { access_flags, name_index, descriptor_index, attributes });
        proof {
            assert forall|j: int| 0 <= j < methods@.len() implies method_attributes_allowed(#[trigger] methods@[j]) && method_flags_decoded(methods@[j])
                && methods@[j].access_flags@ == decoded_flags(u2_at(old(reader).data(), method_start(cp.entries@, old(reader).data(), old(reader).pos(), j)) as u16, FlagContext::Method)
                && flags_word(methods@[j].access_flags@) == u2_at(old(reader).data(), method_start(cp.entries@, old(reader).data(), old(reader).pos(), j))
                && methods@[j].name_index == u2_at(old(reader).data(), method_start(cp.entries@, old(reader).data(), old(reader).pos(), j) + 2)
                && methods@[j].descriptor_index == u2_at(old(reader).data(), method_start(cp.entries@, old(reader).data(), old(reader).pos(), j) + 4) by {
                if j < prev.len() {
                    assert(methods@[j] == prev[j]);
                }
            }
        }
        k = k + 1;
    }
    Ok(methods)
}

} // verus!
