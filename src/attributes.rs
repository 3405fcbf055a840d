use vstd::prelude::*;

use std::collections::BTreeMap;

use crate::access_flags::{context_mask, decoded_flags, parse_access_flags, AccessFlag, FlagContext};
use crate::bytecode::{
    decodable_from, decodes_as, keys_are_instruction_starts, parse_bytecode, targets_in_range, BytecodeInstruction,
};
use crate::constant_pool::{utf8_content, ConstantPool, ConstantPoolInfo};
use crate::error::ClassFileError;
use crate::reader::{u16_at, u32_at, BinaryReader, Endian};
use crate::text::lit;

verus! {

/// A decoded attribute of a class, field, method, record component or `Code` block.
#[derive(Debug)]
pub enum AttributeInfo {
    Code {
        max_stack: u16,
        max_locals: u16,
        code: BTreeMap<u32, BytecodeInstruction>,
        exception_table: Vec<ExceptionTableEntry>,
        attributes: Vec<AttributeInfo>,
    },
    LineNumberTable { line_number_table: Vec<LineNumberTableEntry> },
    LocalVariableTable { local_variable_table: Vec<LocalVariableTableEntry> },
    StackMapTable { stack_map_table: Vec<StackMapFrame> },
    SourceFile { source_file_index: u16 },
    BootstrapMethods { methods: Vec<BootstrapMethod> },
    InnerClasses { classes: Vec<Class> },
    MethodParameters { parameters: Vec<MethodParameter> },
    Signature { signature_index: u16 },
    Record { components: Vec<RecordComponent> },
}

#[derive(Debug, Clone, Copy, PartialEq, Eq, Structural)]
pub struct ExceptionTableEntry {
    pub start_pc: u16,
    pub end_pc: u16,
    pub handler_pc: u16,
    pub catch_type: u16,
}

#[derive(Debug, Clone, Copy, PartialEq, Eq, Structural)]
pub struct LineNumberTableEntry {
    pub start_pc: u16,
    pub line_number: u16,
}

#[derive(Debug, Clone, Copy, PartialEq, Eq, Structural)]
pub struct LocalVariableTableEntry {
    pub start_pc: u16,
    pub length: u16,
    pub name_index: u16,
    pub descriptor_index: u16,
    pub index: u16,
}

/// One frame of a `StackMapTable`, selected by its `frame_type` byte.
#[derive(Debug, PartialEq, Eq)]
pub enum StackMapFrame {
    SameFrame { frame_type: u8 },
    SameLocals1StackItemFrame { frame_type: u8, stack: VerificationTypeInfo },
    SameLocals1StackItemFrameExtended { offset_delta: u16, stack: VerificationTypeInfo },
    ChopFrame { frame_type: u8, offset_delta: u16 },
    SameFrameExtended { offset_delta: u16 },
    AppendFrame { frame_type: u8, offset_delta: u16, locals: Vec<VerificationTypeInfo> },
    FullFrame {
        offset_delta: u16,
        locals: Vec<VerificationTypeInfo>,
        stack: Vec<VerificationTypeInfo>,
    },
}

/// The type of one local or stack slot in a stack-map frame.
#[derive(Debug, Clone, Copy, PartialEq, Eq, Structural)]
pub enum VerificationTypeInfo {
    TopVariable,
    IntegerVariable,
    FloatVariable,
    LongVariable,
    DoubleVariable,
    NullVariable,
    UninitializedThisVariable,
    ObjectVariable { constant_pool_index: u16 },
    UninitializedVariable { offset: u16 },
}

#[derive(Debug, Clone, PartialEq, Eq)]
pub struct BootstrapMethod {
    pub bootstrap_method_ref: u16,
    pub bootstrap_arguments: Vec<u16>,
}

/// One entry of an `InnerClasses` attribute.
#[derive(Debug, Clone, PartialEq, Eq)]
pub struct Class {
    pub inner_class_info_index: u16,
    pub outer_class_info_index: u16,
    pub inner_name_index: u16,
    pub inner_class_access_flags: Vec<AccessFlag>,
}

/// One entry of a `MethodParameters` attribute.
#[derive(Debug, Clone, PartialEq, Eq)]
pub struct MethodParameter {
    pub name_index: u16,
    pub access_flags: Vec<AccessFlag>,
}

/// One component of a `Record` attribute.
#[derive(Debug)]
pub struct RecordComponent {
    pub name_index: u16,
    pub descriptor_index: u16,
    pub attributes: Vec<AttributeInfo>,
}

/// Where an attribute stands; each place accepts its own set of attributes.
#[derive(Debug, Clone, Copy, PartialEq, Eq, Structural)]
pub enum AttributeContext {
    Class,
    Field,
    Method,
    Code,
}

/// The name under which an attribute is stored.
pub open spec fn attribute_name(a: AttributeInfo) -> Seq<char> {
    match a {
        AttributeInfo::Code { .. } => "Code"@,
        AttributeInfo::LineNumberTable { .. } => "LineNumberTable"@,
        AttributeInfo::LocalVariableTable { .. } => "LocalVariableTable"@,
        AttributeInfo::StackMapTable { .. } => "StackMapTable"@,
        AttributeInfo::SourceFile { .. } => "SourceFile"@,
        AttributeInfo::BootstrapMethods { .. } => "BootstrapMethods"@,
        AttributeInfo::InnerClasses { .. } => "InnerClasses"@,
        AttributeInfo::MethodParameters { .. } => "MethodParameters"@,
        AttributeInfo::Signature { .. } => "Signature"@,
        AttributeInfo::Record { .. } => "Record"@,
    }
}

/// Whether an attribute of this name may stand in context `c`.
pub open spec fn allowed_in(c: AttributeContext, name: Seq<char>) -> bool {
    match c {
        AttributeContext::Class => name == "SourceFile"@ || name == "InnerClasses"@ || name
            == "BootstrapMethods"@ || name == "Record"@ || name == "Signature"@,
        AttributeContext::Method => name == "Code"@ || name == "MethodParameters"@ || name
            == "Signature"@,
        AttributeContext::Field => name == "Signature"@,
        AttributeContext::Code => name == "LineNumberTable"@ || name == "LocalVariableTable"@
            || name == "StackMapTable"@,
    }
}

/// The tag byte of a verification type.
pub open spec fn verification_tag(v: VerificationTypeInfo) -> u8 {
    match v {
        VerificationTypeInfo::TopVariable => 0,
        VerificationTypeInfo::IntegerVariable => 1,
        VerificationTypeInfo::FloatVariable => 2,
        VerificationTypeInfo::DoubleVariable => 3,
        VerificationTypeInfo::LongVariable => 4,
        VerificationTypeInfo::NullVariable => 5,
        VerificationTypeInfo::UninitializedThisVariable => 6,
        VerificationTypeInfo::ObjectVariable { .. } => 7,
        VerificationTypeInfo::UninitializedVariable { .. } => 8,
    }
}

/// Whether `f` is the frame variant that `frame_type` selects, with its count of locals.
pub open spec fn frame_selected(frame_type: u8, f: StackMapFrame) -> bool {
    match f {
        StackMapFrame::SameFrame { frame_type: t } => frame_type <= 63 && t == frame_type,
        StackMapFrame::SameLocals1StackItemFrame { frame_type: t, .. } => 64 <= frame_type <= 127
            && t == frame_type,
        StackMapFrame::SameLocals1StackItemFrameExtended { .. } => frame_type == 247,
        StackMapFrame::ChopFrame { frame_type: t, .. } => 248 <= frame_type <= 250 && t == frame_type,
        StackMapFrame::SameFrameExtended { .. } => frame_type == 251,
        StackMapFrame::AppendFrame { frame_type: t, locals, .. } => 252 <= frame_type <= 254 && t
            == frame_type && locals@.len() == frame_type - 251,
        StackMapFrame::FullFrame { .. } => frame_type == 255,
    }
}

/// The big-endian 16-bit value at `p`.
pub open spec fn u2_at(d: Seq<u8>, p: int) -> int {
    u16_at(Endian::Big, d, p)
}

/// A code map is the decoding of the code block `b`: its keys are the offsets at which the
/// decoder stopped, each instruction is what the bytes there encode, and every branch lands
/// inside the block.
pub open spec fn code_decoded(code: Map<u32, BytecodeInstruction>, b: Seq<u8>) -> bool {
    &&& b.len() <= u32::MAX
    &&& keys_are_instruction_starts(b, code.dom(), b.len() as int)
    &&& forall|k: u32| #[trigger] code.dom().contains(k) ==> decodes_as(b, k as int, code[k])
        && targets_in_range(k as int, code[k], b.len() as int)
}

/// What the payload of an attribute, starting at `p` (after its name and length), holds.
pub open spec fn payload_decoded(a: AttributeInfo, d: Seq<u8>, p: int) -> bool {
    match a {
        AttributeInfo::SourceFile { source_file_index } => source_file_index == u2_at(d, p),
        AttributeInfo::Signature { signature_index } => signature_index == u2_at(d, p),
        AttributeInfo::LineNumberTable { line_number_table: t } => {
            &&& t@.len() == u2_at(d, p)
            &&& forall|k: int| 0 <= k < t@.len() ==> (#[trigger] t@[k]).start_pc == u2_at(d, p + 2 + 4 * k)
                && t@[k].line_number == u2_at(d, p + 4 + 4 * k)
        },
        AttributeInfo::LocalVariableTable { local_variable_table: t } => {
            &&& t@.len() == u2_at(d, p)
            &&& forall|k: int| 0 <= k < t@.len() ==> (#[trigger] t@[k]).start_pc == u2_at(d, p + 2 + 10 * k)
                && t@[k].length == u2_at(d, p + 4 + 10 * k) && t@[k].name_index == u2_at(d, p + 6 + 10 * k)
                && t@[k].descriptor_index == u2_at(d, p + 8 + 10 * k) && t@[k].index == u2_at(d, p + 10 + 10 * k)
        },
        AttributeInfo::InnerClasses { classes: c } => {
            &&& c@.len() == u2_at(d, p)
            &&& forall|k: int| 0 <= k < c@.len() ==> (#[trigger] c@[k]).inner_class_info_index == u2_at(d, p + 2 + 8 * k)
                && c@[k].outer_class_info_index == u2_at(d, p + 4 + 8 * k)
                && c@[k].inner_name_index == u2_at(d, p + 6 + 8 * k)
                && c@[k].inner_class_access_flags@ == decoded_flags(u2_at(d, p + 8 + 8 * k) as u16, FlagContext::InnerClass)
        },
        AttributeInfo::MethodParameters { parameters: m } => {
            &&& m@.len() == d[p]
            &&& forall|k: int| 0 <= k < m@.len() ==> (#[trigger] m@[k]).name_index == u2_at(d, p + 1 + 4 * k)
                && m@[k].access_flags@ == decoded_flags(u2_at(d, p + 3 + 4 * k) as u16, FlagContext::MethodParameter)
        },
        AttributeInfo::StackMapTable { stack_map_table } => stack_map_table@.len() == u2_at(d, p)
            && frames_decoded(stack_map_table@, d, p + 2),
        AttributeInfo::BootstrapMethods { methods } => methods@.len() == u2_at(d, p) && bootstraps_decoded(methods@, d, p + 2),
        AttributeInfo::Record { components } => components@.len() == u2_at(d, p),
        AttributeInfo::Code { max_stack, max_locals, code, exception_table, .. } => {
            let n = u32_at(Endian::Big, d, p + 4);
            let q = p + 8 + n;
            &&& max_stack == u2_at(d, p)
            &&& max_locals == u2_at(d, p + 2)
            &&& code_decoded(code@, d.subrange(p + 8, q))
            &&& exception_table@.len() == u2_at(d, q)
            &&& forall|k: int| 0 <= k < exception_table@.len() ==> (#[trigger] exception_table@[k]).start_pc == u2_at(d, q + 2 + 8 * k)
                && exception_table@[k].end_pc == u2_at(d, q + 4 + 8 * k)
                && exception_table@[k].handler_pc == u2_at(d, q + 6 + 8 * k)
                && exception_table@[k].catch_type == u2_at(d, q + 8 + 8 * k)
        },
    }
}

/// Where the `k`-th verification type of a run that starts at `p` starts.
pub open spec fn vti_start(d: Seq<u8>, p: int, k: int) -> int
    decreases k,
{
    if k <= 0 { p } else { vti_end(d, vti_start(d, p, k - 1))->Some_0 }
}

/// The verification type read from the bytes at `p`.
pub open spec fn vti_decoded(v: VerificationTypeInfo, d: Seq<u8>, p: int) -> bool {
    &&& verification_tag(v) == d[p]
    &&& v matches VerificationTypeInfo::ObjectVariable { constant_pool_index } ==> constant_pool_index == u2_at(d, p + 1)
    &&& v matches VerificationTypeInfo::UninitializedVariable { offset } ==> offset == u2_at(d, p + 1)
}

/// The verification types read, one after another, from the bytes at `p`.
pub open spec fn vtis_decoded(vs: Seq<VerificationTypeInfo>, d: Seq<u8>, p: int) -> bool {
    forall|k: int| 0 <= k < vs.len() ==> vti_decoded(#[trigger] vs[k], d, vti_start(d, p, k))
}

/// The stack-map frame read from the bytes at `p`: its variant, offset delta and types.
pub open spec fn frame_decoded(f: StackMapFrame, d: Seq<u8>, p: int) -> bool {
    &&& frame_selected(d[p], f)
    &&& match f {
        StackMapFrame::SameFrame { .. } => true,
        StackMapFrame::SameLocals1StackItemFrame { stack, .. } => vti_decoded(stack, d, p + 1),
        StackMapFrame::SameLocals1StackItemFrameExtended { offset_delta, stack } => offset_delta == u2_at(d, p + 1)
            && vti_decoded(stack, d, p + 3),
        StackMapFrame::ChopFrame { offset_delta, .. } => offset_delta == u2_at(d, p + 1),
        StackMapFrame::SameFrameExtended { offset_delta } => offset_delta == u2_at(d, p + 1),
        StackMapFrame::AppendFrame { offset_delta, locals, .. } => offset_delta == u2_at(d, p + 1)
            && vtis_decoded(locals@, d, p + 3),
        StackMapFrame::FullFrame { offset_delta, locals, stack } => {
            let r = vtis_end(d, p + 5, u2_at(d, p + 3))->Some_0;
            &&& offset_delta == u2_at(d, p + 1)
            &&& locals@.len() == u2_at(d, p + 3)
            &&& vtis_decoded(locals@, d, p + 5)
            &&& stack@.len() == u2_at(d, r)
            &&& vtis_decoded(stack@, d, r + 2)
        },
    }
}

/// Where the `k`-th stack-map frame of a run that starts at `p` starts.
pub open spec fn frame_start(d: Seq<u8>, p: int, k: int) -> int
    decreases k,
{
    if k <= 0 { p } else { frame_end(d, frame_start(d, p, k - 1))->Some_0 }
}

/// The frames read, one after another, from the bytes at `p`.
pub open spec fn frames_decoded(fs: Seq<StackMapFrame>, d: Seq<u8>, p: int) -> bool {
    forall|k: int| 0 <= k < fs.len() ==> frame_decoded(#[trigger] fs[k], d, frame_start(d, p, k))
}

/// Where the `k`-th record component of a run that starts at `p` starts.
pub open spec fn component_start(cp: Seq<ConstantPoolInfo>, d: Seq<u8>, p: int, k: int) -> int
    decreases k,
{
    if k <= 0 {
        p
    } else {
        let q = component_start(cp, d, p, k - 1);
        attributes_end(cp, AttributeContext::Field, d, q + 6, u2_at(d, q + 4))->Some_0
    }
}

/// What the payload of an attribute at `p` holds, nested attributes included: those of a
/// `Code` attribute (their count, and each one's payload at its place) and the components
/// of a `Record` (name, descriptor, and attributes).
pub open spec fn body_decoded(cp: Seq<ConstantPoolInfo>, a: AttributeInfo, d: Seq<u8>, p: int) -> bool {
    &&& payload_decoded(a, d, p)
    &&& a matches AttributeInfo::Code { attributes, .. } ==> {
        let q = p + 8 + u32_at(Endian::Big, d, p + 4);
        let e = q + 2 + 8 * u2_at(d, q);
        &&& attributes@.len() == u2_at(d, e)
        &&& forall|k: int| 0 <= k < attributes@.len() ==> payload_decoded(#[trigger] attributes@[k], d,
            attribute_start(cp, AttributeContext::Code, d, e + 2, k) + 6)
    }
    &&& a matches AttributeInfo::Record { components } ==> forall|k: int| 0 <= k < components@.len() ==> {
        let q = component_start(cp, d, p + 2, k);
        &&& (#[trigger] components@[k]).name_index == u2_at(d, q)
        &&& components@[k].descriptor_index == u2_at(d, q + 2)
        &&& components@[k].attributes@.len() == u2_at(d, q + 4)
        &&& forall|j: int| 0 <= j < components@[k].attributes@.len() ==> payload_decoded(
            #[trigger] components@[k].attributes@[j], d, attribute_start(cp, AttributeContext::Field, d, q + 6, j) + 6)
    }
}

/// A `Code` attribute holds the decoding of some code block: its keys are the offsets at
/// which the decoder stopped, each instruction is what the bytes there encode, every branch
/// lands inside the block, and its nested attributes are ones a `Code` attribute may carry.
/// Other attributes hold no code.
pub open spec fn code_well_formed(a: AttributeInfo) -> bool {
    match a {
        AttributeInfo::Code { code, attributes, .. } => {
            &&& exists|b: Seq<u8>| {
                &&& b.len() <= u32::MAX
                &&& keys_are_instruction_starts(b, code@.dom(), b.len() as int)
                &&& forall|k: u32| #[trigger] code@.dom().contains(k) ==> decodes_as(b, k as int, code@[k])
                    && targets_in_range(k as int, code@[k], b.len() as int)
            }
            &&& forall|j: int| 0 <= j < attributes@.len() ==> allowed_in(AttributeContext::Code, attribute_name(#[trigger] attributes@[j]))
        },
        _ => true,
    }
}

/// Where a verification type that starts at `p` ends, if it decodes.
pub open spec fn vti_end(d: Seq<u8>, p: int) -> Option<int> {
    if 0 <= p < d.len() && d[p] <= 8 {
        let e = if d[p] == 7 || d[p] == 8 { p + 3 } else { p + 1 };
        if e <= d.len() { Some(e) } else { None }
    } else {
        None
    }
}

/// Where `n` verification types that start at `p` end, if they decode.
pub open spec fn vtis_end(d: Seq<u8>, p: int, n: int) -> Option<int>
    decreases n,
{
    if n <= 0 {
        Some(p)
    } else {
        match vti_end(d, p) {
            Some(q) => vtis_end(d, q, n - 1),
            None => None,
        }
    }
}

/// Where a stack-map frame that starts at `p` ends, if it decodes.
pub open spec fn frame_end(d: Seq<u8>, p: int) -> Option<int> {
    if !(0 <= p < d.len()) {
        None
    } else {
        let t = d[p];
        if t <= 63 {
            Some(p + 1)
        } else if t <= 127 {
            vti_end(d, p + 1)
        } else if t <= 246 {
            None
        } else if p + 3 > d.len() {
            None
        } else if t == 247 {
            vti_end(d, p + 3)
        } else if t <= 251 {
            Some(p + 3)
        } else if t <= 254 {
            vtis_end(d, p + 3, t - 251)
        } else if p + 5 > d.len() {
            None
        } else {
            match vtis_end(d, p + 5, u2_at(d, p + 3)) {
                Some(q) => if q + 2 <= d.len() { vtis_end(d, q + 2, u2_at(d, q)) } else { None },
                None => None,
            }
        }
    }
}

/// Where `n` stack-map frames that start at `p` end, if they decode.
pub open spec fn frames_end(d: Seq<u8>, p: int, n: int) -> Option<int>
    decreases n,
{
    if n <= 0 {
        Some(p)
    } else {
        match frame_end(d, p) {
            Some(q) => frames_end(d, q, n - 1),
            None => None,
        }
    }
}

/// Where the `k`-th bootstrap method of a list that starts at `p` starts.
pub open spec fn bootstrap_start(d: Seq<u8>, p: int, k: int) -> int
    decreases k,
{
    if k <= 0 {
        p
    } else {
        let q = bootstrap_start(d, p, k - 1);
        q + 4 + 2 * u2_at(d, q + 2)
    }
}

/// The bootstrap methods read from the list at `p`: each method's reference, its argument
/// count and its arguments.
pub open spec fn bootstraps_decoded(ms: Seq<BootstrapMethod>, d: Seq<u8>, p: int) -> bool {
    forall|k: int| 0 <= k < ms.len() ==> {
        let q = bootstrap_start(d, p, k);
        &&& (#[trigger] ms[k]).bootstrap_method_ref == u2_at(d, q)
        &&& ms[k].bootstrap_arguments@.len() == u2_at(d, q + 2)
        &&& forall|a: int| 0 <= a < ms[k].bootstrap_arguments@.len() ==> #[trigger] ms[k].bootstrap_arguments@[a] == u2_at(d, q + 4 + 2 * a)
    }
}

/// Where `n` bootstrap methods that start at `p` end, if they fit.
pub open spec fn bootstrap_end(d: Seq<u8>, p: int, n: int) -> Option<int>
    decreases n,
{
    if n <= 0 {
        Some(p)
    } else if p + 4 <= d.len() && p + 4 + 2 * u2_at(d, p + 2) <= d.len() {
        bootstrap_end(d, p + 4 + 2 * u2_at(d, p + 2), n - 1)
    } else {
        None
    }
}

/// Where `n` inner-class entries that start at `p` end, if they fit and every flag word
/// keeps to the inner-class mask.
pub open spec fn inner_classes_end(d: Seq<u8>, p: int, n: int) -> Option<int>
    decreases n,
{
    if n <= 0 {
        Some(p)
    } else if p + 8 <= d.len() && (u2_at(d, p + 6) as u16) & !context_mask(FlagContext::InnerClass) == 0 {
        inner_classes_end(d, p + 8, n - 1)
    } else {
        None
    }
}

/// Where `n` method-parameter entries that start at `p` end, if they fit and every flag
/// word keeps to the method-parameter mask.
pub open spec fn parameters_end(d: Seq<u8>, p: int, n: int) -> Option<int>
    decreases n,
{
    if n <= 0 {
        Some(p)
    } else if p + 4 <= d.len() && (u2_at(d, p + 2) as u16) & !context_mask(FlagContext::MethodParameter) == 0 {
        parameters_end(d, p + 4, n - 1)
    } else {
        None
    }
}

/// Where `n` record components that start at `p` end, if they decode.
pub open spec fn components_end(cp: Seq<ConstantPoolInfo>, d: Seq<u8>, p: int, n: int) -> Option<int>
    decreases 1nat, 0nat, n,
{
    if n <= 0 {
        Some(p)
    } else if p + 6 <= d.len() {
        match attributes_end(cp, AttributeContext::Field, d, p + 6, u2_at(d, p + 4)) {
            Some(q) => components_end(cp, d, q, n - 1),
            None => None,
        }
    } else {
        None
    }
}

/// Where the payload of a `Code` attribute that starts at `p` ends, if it decodes.
pub open spec fn code_end(cp: Seq<ConstantPoolInfo>, d: Seq<u8>, p: int) -> Option<int>
    decreases 1nat, 0nat, 0int,
{
    if p + 8 <= d.len() && p + 8 + u32_at(Endian::Big, d, p + 4) <= d.len() {
        let q = p + 8 + u32_at(Endian::Big, d, p + 4);
        let e = q + 2 + 8 * u2_at(d, q);
        if decodable_from(d.subrange(p + 8, q), 0) && q + 2 <= d.len() && e + 2 <= d.len() {
            attributes_end(cp, AttributeContext::Code, d, e + 2, u2_at(d, e))
        } else {
            None
        }
    } else {
        None
    }
}

/// Where the payload of an attribute named `name` in context `c`, starting at `p`, ends,
/// if the name is accepted there and the payload decodes.
pub open spec fn body_end(cp: Seq<ConstantPoolInfo>, c: AttributeContext, name: Seq<char>, d: Seq<u8>, p: int) -> Option<int>
    decreases context_rank(c), 1nat, 0int,
{
    let two = if p + 2 <= d.len() { Some(p + 2) } else { None };
    let n = u2_at(d, p);
    match c {
        AttributeContext::Class => if name == "SourceFile"@ {
            two
        } else if name == "InnerClasses"@ {
            if p + 2 <= d.len() { inner_classes_end(d, p + 2, n) } else { None }
        } else if name == "BootstrapMethods"@ {
            if p + 2 <= d.len() { bootstrap_end(d, p + 2, n) } else { None }
        } else if name == "Record"@ {
            if p + 2 <= d.len() { components_end(cp, d, p + 2, n) } else { None }
        } else if name == "Signature"@ {
            two
        } else {
            None
        },
        AttributeContext::Method => if name == "Code"@ {
            code_end(cp, d, p)
        } else if name == "MethodParameters"@ {
            if p + 1 <= d.len() { parameters_end(d, p + 1, d[p] as int) } else { None }
        } else if name == "Signature"@ {
            two
        } else {
            None
        },
        AttributeContext::Field => if name == "Signature"@ { two } else { None },
        AttributeContext::Code => if name == "LineNumberTable"@ {
            if p + 2 <= d.len() && p + 2 + 4 * n <= d.len() { Some(p + 2 + 4 * n) } else { None }
        } else if name == "LocalVariableTable"@ {
            if p + 2 <= d.len() && p + 2 + 10 * n <= d.len() { Some(p + 2 + 10 * n) } else { None }
        } else if name == "StackMapTable"@ {
            if p + 2 <= d.len() { frames_end(d, p + 2, n) } else { None }
        } else {
            None
        },
    }
}

/// Where an attribute of context `c` that starts at `p` ends, if its name resolves, is
/// accepted in `c`, and its payload decodes.
pub open spec fn attribute_end(cp: Seq<ConstantPoolInfo>, c: AttributeContext, d: Seq<u8>, p: int) -> Option<int>
    decreases context_rank(c), 2nat, 0int,
{
    if p + 6 <= d.len() {
        match utf8_content(cp, u2_at(d, p) as u16) {
            Ok(name) => body_end(cp, c, name, d, p + 6),
            Err(_) => None,
        }
    } else {
        None
    }
}

/// Where the `k`-th of a run of attributes of context `c` that starts at `p` starts.
pub open spec fn attribute_start(cp: Seq<ConstantPoolInfo>, c: AttributeContext, d: Seq<u8>, p: int, k: int) -> int
    decreases k,
{
    if k <= 0 {
        p
    } else {
        attribute_end(cp, c, d, attribute_start(cp, c, d, p, k - 1))->Some_0
    }
}

/// Where `n` attributes of context `c` that start at `p` end, if they all decode.
pub open spec fn attributes_end(cp: Seq<ConstantPoolInfo>, c: AttributeContext, d: Seq<u8>, p: int, n: int) -> Option<int>
    decreases context_rank(c), 3nat, n,
{
    if n <= 0 {
        Some(p)
    } else {
        match attribute_end(cp, c, d, p) {
            Some(q) => attributes_end(cp, c, d, q, n - 1),
            None => None,
        }
    }
}

/// Ranks the contexts so that nesting (a `Code` block in a method, components in a record)
/// always goes down.
pub open spec fn context_rank(c: AttributeContext) -> nat {
    match c {
        AttributeContext::Class => 1,
        AttributeContext::Method => 1,
        _ => 0,
    }
}

fn parse_verification_type_info(reader: &mut BinaryReader) -> (r: Result<VerificationTypeInfo, ClassFileError>)
    requires
        old(reader).wf(),
        old(reader).byte_order() == Endian::Big,
    ensures
        final(reader).wf(),
        final(reader).data() == old(reader).data(),
        final(reader).byte_order() == old(reader).byte_order(),
        r matches Ok(v) ==> verification_tag(v) == old(reader).data()[old(reader).pos()],
        r matches Ok(VerificationTypeInfo::ObjectVariable { constant_pool_index }) ==> constant_pool_index
            == u16_at(old(reader).byte_order(), old(reader).data(), old(reader).pos() + 1),
        r matches Ok(VerificationTypeInfo::UninitializedVariable { offset }) ==> offset == u16_at(
            old(reader).byte_order(),
            old(reader).data(),
            old(reader).pos() + 1,
        ),
        r matches Err(e) ==> e is UnexpectedEof || (e matches ClassFileError::UnknownVerificationType { tag } && tag > 8),
        (vti_end(old(reader).data(), old(reader).pos())) is Some <==> r is Ok,
        r is Ok ==> final(reader).pos() == (vti_end(old(reader).data(), old(reader).pos()))->Some_0,
        r matches Ok(v) ==> vti_decoded(v, old(reader).data(), old(reader).pos()),
{
    let tag = reader.read_u8()?;
    match tag {
        0 => Ok(VerificationTypeInfo::TopVariable),
        1 => Ok(VerificationTypeInfo::IntegerVariable),
        2 => Ok(VerificationTypeInfo::FloatVariable),
        3 => Ok(VerificationTypeInfo::DoubleVariable),
        4 => Ok(VerificationTypeInfo::LongVariable),
        5 => Ok(VerificationTypeInfo::NullVariable),
        6 => Ok(VerificationTypeInfo::UninitializedThisVariable),
        7 => Ok(VerificationTypeInfo::ObjectVariable { constant_pool_index: reader.read_u16()? }),
        8 => Ok(VerificationTypeInfo::UninitializedVariable { offset: reader.read_u16()? }),
        _ => Err(ClassFileError::UnknownVerificationType { tag }),
    }
}

fn parse_verification_type_info_vec(reader: &mut BinaryReader, num: usize) -> (r: Result<Vec<VerificationTypeInfo>, ClassFileError>)
    requires
        old(reader).wf(),
        old(reader).byte_order() == Endian::Big,
    ensures
        final(reader).wf(),
        final(reader).data() == old(reader).data(),
        final(reader).byte_order() == old(reader).byte_order(),
        r matches Ok(v) ==> v@.len() == num,
        r matches Err(e) ==> e is UnexpectedEof || (e matches ClassFileError::UnknownVerificationType { tag } && tag > 8),
        (vtis_end(old(reader).data(), old(reader).pos(), num as int)) is Some <==> r is Ok,
        r is Ok ==> final(reader).pos() == (vtis_end(old(reader).data(), old(reader).pos(), num as int))->Some_0,
        r matches Ok(v) ==> vtis_decoded(v@, old(reader).data(), old(reader).pos()),
{
    let mut result: Vec<VerificationTypeInfo> = Vec::new();
    let mut k: usize = 0;
    while k < num
        invariant
            reader.wf(),
            reader.data() == old(reader).data(),
            reader.byte_order() == Endian::Big,
            reader.byte_order() == old(reader).byte_order(),
            0 <= k <= num,
            result@.len() == k,
            vtis_end(old(reader).data(), old(reader).pos(), num as int) == vtis_end(old(reader).data(), reader.pos(), num - k),
            reader.pos() == vti_start(old(reader).data(), old(reader).pos(), k as int),
            vtis_decoded(result@, old(reader).data(), old(reader).pos()),
        decreases num - k,
    {
        let ghost prev = result@;
        result.push(parse_verification_type_info(reader)?);
        proof {
            assert forall|j: int| 0 <= j < result@.len() implies vti_decoded(#[trigger] result@[j], old(reader).data(), vti_start(old(reader).data(), old(reader).pos(), j)) by {
                if j < prev.len() {
                    assert(result@[j] == prev[j]);
                }
            }
        }
        k = k + 1;
    }
    Ok(result)
}

/// Decodes one stack-map frame; `frame_type` picks the variant, and the reserved
/// range `128..=246` is malformation.
fn parse_stack_map_entry(reader: &mut BinaryReader) -> (r: Result<StackMapFrame, ClassFileError>)
    requires
        old(reader).wf(),
        old(reader).byte_order() == Endian::Big,
    ensures
        final(reader).wf(),
        final(reader).data() == old(reader).data(),
        final(reader).byte_order() == old(reader).byte_order(),
        r matches Ok(f) ==> frame_selected(old(reader).data()[old(reader).pos()], f),
        r matches Err(ClassFileError::ReservedFrameType { frame_type }) ==> 128 <= frame_type <= 246
            && frame_type == old(reader).data()[old(reader).pos()],
        r matches Err(e) ==> e is UnexpectedEof || e is UnknownVerificationType || e is ReservedFrameType,
        (frame_end(old(reader).data(), old(reader).pos())) is Some <==> r is Ok,
        r is Ok ==> final(reader).pos() == (frame_end(old(reader).data(), old(reader).pos()))->Some_0,
        r matches Ok(StackMapFrame::FullFrame { locals, .. }) ==> locals@.len() == u2_at(old(reader).data(), old(reader).pos() + 3),
        r matches Ok(f) ==> frame_decoded(f, old(reader).data(), old(reader).pos()),
{
    let frame_type = reader.read_u8()?;
    if frame_type <= 63 {
        Ok(StackMapFrame::SameFrame { frame_type })
    } else if frame_type <= 127 {
        let stack = parse_verification_type_info(reader)?;
        Ok(StackMapFrame::SameLocals1StackItemFrame { frame_type, stack })
    } else if frame_type <= 246 {
        Err(ClassFileError::ReservedFrameType { frame_type })
    } else if frame_type == 247 {
        let offset_delta = reader.read_u16()?;
        let stack = parse_verification_type_info(reader)?;
        Ok(StackMapFrame::SameLocals1StackItemFrameExtended { offset_delta, stack })
    } else if frame_type <= 250 {
        let offset_delta = reader.read_u16()?;
        Ok(StackMapFrame::ChopFrame { frame_type, offset_delta })
    } else if frame_type == 251 {
        let offset_delta = reader.read_u16()?;
        Ok(StackMapFrame::SameFrameExtended { offset_delta })
    } else if frame_type <= 254 {
        let offset_delta = reader.read_u16()?;
        let locals = parse_verification_type_info_vec(reader, (frame_type - 251) as usize)?;
        Ok(StackMapFrame::AppendFrame { frame_type, offset_delta, locals })
    } else {
        let offset_delta = reader.read_u16()?;
        let number_of_locals = reader.read_u16()?;
        let locals = parse_verification_type_info_vec(reader, number_of_locals as usize)?;
        let number_of_stack_items = reader.read_u16()?;
        let stack = parse_verification_type_info_vec(reader, number_of_stack_items as usize)?;
        Ok(StackMapFrame::FullFrame { offset_delta, locals, stack })
    }
}

fn same_text(s: &String, t: &str) -> (r: bool)
    ensures
        r == (s@ == t@),
{
    *s == lit(t)
}

fn parse_line_number_table(reader: &mut BinaryReader, cp: &ConstantPool) -> (r: Result<AttributeInfo, ClassFileError>)
    requires
        old(reader).wf(),
        old(reader).byte_order() == Endian::Big,
    ensures
        final(reader).wf(),
        final(reader).data() == old(reader).data(),
        final(reader).byte_order() == Endian::Big,
        r matches Ok(a) ==> payload_decoded(a, old(reader).data(), old(reader).pos()) && a is LineNumberTable,
        (if old(reader).pos() + 2 <= old(reader).data().len() && old(reader).pos() + 2 + 4 * u2_at(old(reader).data(), old(reader).pos()) <= old(reader).data().len() { Some(old(reader).pos() + 2 + 4 * u2_at(old(reader).data(), old(reader).pos())) } else { None::<int> }) is Some <==> r is Ok,
        r is Ok ==> final(reader).pos() == (if old(reader).pos() + 2 <= old(reader).data().len() && old(reader).pos() + 2 + 4 * u2_at(old(reader).data(), old(reader).pos()) <= old(reader).data().len() { Some(old(reader).pos() + 2 + 4 * u2_at(old(reader).data(), old(reader).pos())) } else { None::<int> })->Some_0,
{
    let n = reader.read_u16()?;
    let mut table: Vec<LineNumberTableEntry> = Vec::new();
    let mut k: u16 = 0;
    while k < n
        invariant
            reader.wf(),
            reader.data() == old(reader).data(),
            reader.byte_order() == Endian::Big,
            n == u2_at(old(reader).data(), old(reader).pos()),
            0 <= k <= n,
            reader.pos() == old(reader).pos() + 2 + 4 * k,
            table@.len() == k,
            forall|j: int| 0 <= j < k ==> (#[trigger] table@[j]).start_pc == u2_at(old(reader).data(), old(reader).pos() + 2 + 4 * j)
                && table@[j].line_number == u2_at(old(reader).data(), old(reader).pos() + 4 + 4 * j),
        decreases n - k,
    {
        let start_pc = reader.read_u16()?;
        let line_number = reader.read_u16()?;
        table.push(LineNumberTableEntry { start_pc, line_number });
        k = k + 1;
    }
    Ok(AttributeInfo::LineNumberTable { line_number_table: table })
}

fn parse_local_variable_table(reader: &mut BinaryReader, cp: &ConstantPool) -> (r: Result<AttributeInfo, ClassFileError>)
    requires
        old(reader).wf(),
        old(reader).byte_order() == Endian::Big,
    ensures
        final(reader).wf(),
        final(reader).data() == old(reader).data(),
        final(reader).byte_order() == Endian::Big,
        r matches Ok(a) ==> payload_decoded(a, old(reader).data(), old(reader).pos()) && a is LocalVariableTable,
        (if old(reader).pos() + 2 <= old(reader).data().len() && old(reader).pos() + 2 + 10 * u2_at(old(reader).data(), old(reader).pos()) <= old(reader).data().len() { Some(old(reader).pos() + 2 + 10 * u2_at(old(reader).data(), old(reader).pos())) } else { None::<int> }) is Some <==> r is Ok,
        r is Ok ==> final(reader).pos() == (if old(reader).pos() + 2 <= old(reader).data().len() && old(reader).pos() + 2 + 10 * u2_at(old(reader).data(), old(reader).pos()) <= old(reader).data().len() { Some(old(reader).pos() + 2 + 10 * u2_at(old(reader).data(), old(reader).pos())) } else { None::<int> })->Some_0,
{
    let n = reader.read_u16()?;
    let mut table: Vec<LocalVariableTableEntry> = Vec::new();
    let mut k: u16 = 0;
    while k < n
        invariant
            reader.wf(),
            reader.data() == old(reader).data(),
            reader.byte_order() == Endian::Big,
            n == u2_at(old(reader).data(), old(reader).pos()),
            0 <= k <= n,
            reader.pos() == old(reader).pos() + 2 + 10 * k,
            table@.len() == k,
            forall|j: int| 0 <= j < k ==> (#[trigger] table@[j]).start_pc == u2_at(old(reader).data(), old(reader).pos() + 2 + 10 * j)
                && table@[j].length == u2_at(old(reader).data(), old(reader).pos() + 4 + 10 * j) && table@[j].name_index == u2_at(old(reader).data(), old(reader).pos() + 6 + 10 * j)
                && table@[j].descriptor_index == u2_at(old(reader).data(), old(reader).pos() + 8 + 10 * j) && table@[j].index == u2_at(old(reader).data(), old(reader).pos() + 10 + 10 * j),
        decreases n - k,
    {
        let start_pc = reader.read_u16()?;
        let length = reader.read_u16()?;
        let name_index = reader.read_u16()?;
        let descriptor_index = reader.read_u16()?;
        let index = reader.read_u16()?;
        table.push(LocalVariableTableEntry { start_pc, length, name_index, descriptor_index, index });
        k = k + 1;
    }
    Ok(AttributeInfo::LocalVariableTable { local_variable_table: table })
}

fn parse_stack_map_table(reader: &mut BinaryReader, cp: &ConstantPool) -> (r: Result<AttributeInfo, ClassFileError>)
    requires
        old(reader).wf(),
        old(reader).byte_order() == Endian::Big,
    ensures
        final(reader).wf(),
        final(reader).data() == old(reader).data(),
        final(reader).byte_order() == Endian::Big,
        r matches Ok(a) ==> payload_decoded(a, old(reader).data(), old(reader).pos()) && a is StackMapTable,
        (if old(reader).pos() + 2 <= old(reader).data().len() { frames_end(old(reader).data(), old(reader).pos() + 2, u2_at(old(reader).data(), old(reader).pos())) } else { None::<int> }) is Some <==> r is Ok,
        r is Ok ==> final(reader).pos() == (if old(reader).pos() + 2 <= old(reader).data().len() { frames_end(old(reader).data(), old(reader).pos() + 2, u2_at(old(reader).data(), old(reader).pos())) } else { None::<int> })->Some_0,
{
    let n = reader.read_u16()?;
    let mut table: Vec<StackMapFrame> = Vec::new();
    let mut k: u16 = 0;
    while k < n
        invariant
            reader.wf(),
            reader.data() == old(reader).data(),
            reader.byte_order() == Endian::Big,
            n == u2_at(old(reader).data(), old(reader).pos()),
            0 <= k <= n,
            table@.len() == k,
            frames_end(old(reader).data(), old(reader).pos() + 2, n as int) == frames_end(old(reader).data(), reader.pos(), n - k),
            reader.pos() == frame_start(old(reader).data(), old(reader).pos() + 2, k as int),
            frames_decoded(table@, old(reader).data(), old(reader).pos() + 2),
        decreases n - k,
    {
        let ghost prev = table@;
        table.push(parse_stack_map_entry(reader)?);
        proof {
            assert forall|j: int| 0 <= j < table@.len() implies frame_decoded(#[trigger] table@[j], old(reader).data(), frame_start(old(reader).data(), old(reader).pos() + 2, j)) by {
                if j < prev.len() {
                    assert(table@[j] == prev[j]);
                }
            }
        }
        k = k + 1;
    }
    Ok(AttributeInfo::StackMapTable { stack_map_table: table })
}

fn parse_bootstrap_methods(reader: &mut BinaryReader, cp: &ConstantPool) -> (r: Result<AttributeInfo, ClassFileError>)
    requires
        old(reader).wf(),
        old(reader).byte_order() == Endian::Big,
    ensures
        final(reader).wf(),
        final(reader).data() == old(reader).data(),
        final(reader).byte_order() == Endian::Big,
        r matches Ok(a) ==> payload_decoded(a, old(reader).data(), old(reader).pos()) && a is BootstrapMethods,
        (if old(reader).pos() + 2 <= old(reader).data().len() { bootstrap_end(old(reader).data(), old(reader).pos() + 2, u2_at(old(reader).data(), old(reader).pos())) } else { None::<int> }) is Some <==> r is Ok,
        r is Ok ==> final(reader).pos() == (if old(reader).pos() + 2 <= old(reader).data().len() { bootstrap_end(old(reader).data(), old(reader).pos() + 2, u2_at(old(reader).data(), old(reader).pos())) } else { None::<int> })->Some_0,
{
    let n = reader.read_u16()?;
    let mut methods: Vec<BootstrapMethod> = Vec::new();
    let mut k: u16 = 0;
    while k < n
        invariant
            reader.wf(),
            reader.data() == old(reader).data(),
            reader.byte_order() == Endian::Big,
            n == u2_at(old(reader).data(), old(reader).pos()),
            0 <= k <= n,
            methods@.len() == k,
            reader.pos() == bootstrap_start(old(reader).data(), old(reader).pos() + 2, k as int),
            bootstraps_decoded(methods@, old(reader).data(), old(reader).pos() + 2),
            bootstrap_end(old(reader).data(), old(reader).pos() + 2, n as int) == bootstrap_end(old(reader).data(), reader.pos(), n - k),
        decreases n - k,
    {
        let bootstrap_method_ref = reader.read_u16()?;
        let count = reader.read_u16()?;
        let bootstrap_arguments = reader.read_u16_vec(count as usize)?;
        let ghost prev = methods@;
        methods.push(BootstrapMethod { bootstrap_method_ref, bootstrap_arguments });
        proof {
            assert forall|j: int| 0 <= j < methods@.len() implies {
                let q = bootstrap_start(old(reader).data(), old(reader).pos() + 2, j);
                &&& (#[trigger] methods@[j]).bootstrap_method_ref == u2_at(old(reader).data(), q)
                &&& methods@[j].bootstrap_arguments@.len() == u2_at(old(reader).data(), q + 2)
                &&& forall|a: int| 0 <= a < methods@[j].bootstrap_arguments@.len() ==> #[trigger] methods@[j].bootstrap_arguments@[a] == u2_at(old(reader).data(), q + 4 + 2 * a)
            } by {
                if j < prev.len() {
                    assert(methods@[j] == prev[j]);
                }
            }
        }
        k = k + 1;
    }
    Ok(AttributeInfo::BootstrapMethods { methods })
}

fn parse_inner_classes(reader: &mut BinaryReader, cp: &ConstantPool) -> (r: Result<AttributeInfo, ClassFileError>)
    requires
        old(reader).wf(),
        old(reader).byte_order() == Endian::Big,
    ensures
        final(reader).wf(),
        final(reader).data() == old(reader).data(),
        final(reader).byte_order() == Endian::Big,
        r matches Ok(a) ==> payload_decoded(a, old(reader).data(), old(reader).pos()) && a is InnerClasses,
        (if old(reader).pos() + 2 <= old(reader).data().len() { inner_classes_end(old(reader).data(), old(reader).pos() + 2, u2_at(old(reader).data(), old(reader).pos())) } else { None::<int> }) is Some <==> r is Ok,
        r is Ok ==> final(reader).pos() == (if old(reader).pos() + 2 <= old(reader).data().len() { inner_classes_end(old(reader).data(), old(reader).pos() + 2, u2_at(old(reader).data(), old(reader).pos())) } else { None::<int> })->Some_0,
{
    let n = reader.read_u16()?;
    let mut classes: Vec<Class> = Vec::new();
    let mut k: u16 = 0;
    while k < n
        invariant
            reader.wf(),
            reader.data() == old(reader).data(),
            reader.byte_order() == Endian::Big,
            n == u2_at(old(reader).data(), old(reader).pos()),
            0 <= k <= n,
            reader.pos() == old(reader).pos() + 2 + 8 * k,
            classes@.len() == k,
            forall|j: int| 0 <= j < k ==> (#[trigger] classes@[j]).inner_class_info_index == u2_at(old(reader).data(), old(reader).pos() + 2 + 8 * j)
                && classes@[j].outer_class_info_index == u2_at(old(reader).data(), old(reader).pos() + 4 + 8 * j)
                && classes@[j].inner_name_index == u2_at(old(reader).data(), old(reader).pos() + 6 + 8 * j)
                && classes@[j].inner_class_access_flags@ == decoded_flags(u2_at(old(reader).data(), old(reader).pos() + 8 + 8 * j) as u16, FlagContext::InnerClass),
            inner_classes_end(old(reader).data(), old(reader).pos() + 2, n as int) == inner_classes_end(old(reader).data(), reader.pos(), n - k),
        decreases n - k,
    {
        let inner_class_info_index = reader.read_u16()?;
        let outer_class_info_index = reader.read_u16()?;
        let inner_name_index = reader.read_u16()?;
        let flags = reader.read_u16()?;
        let inner_class_access_flags = parse_access_flags(flags, FlagContext::InnerClass)?;
        classes.push(Class { inner_class_info_index, outer_class_info_index, inner_name_index, inner_class_access_flags });
        k = k + 1;
    }
    Ok(AttributeInfo::InnerClasses { classes })
}

fn parse_method_parameters(reader: &mut BinaryReader, cp: &ConstantPool) -> (r: Result<AttributeInfo, ClassFileError>)
    requires
        old(reader).wf(),
        old(reader).byte_order() == Endian::Big,
    ensures
        final(reader).wf(),
        final(reader).data() == old(reader).data(),
        final(reader).byte_order() == Endian::Big,
        r matches Ok(a) ==> payload_decoded(a, old(reader).data(), old(reader).pos()) && a is MethodParameters,
        (if old(reader).pos() + 1 <= old(reader).data().len() { parameters_end(old(reader).data(), old(reader).pos() + 1, old(reader).data()[old(reader).pos()] as int) } else { None::<int> }) is Some <==> r is Ok,
        r is Ok ==> final(reader).pos() == (if old(reader).pos() + 1 <= old(reader).data().len() { parameters_end(old(reader).data(), old(reader).pos() + 1, old(reader).data()[old(reader).pos()] as int) } else { None::<int> })->Some_0,
{
    let n = reader.read_u8()?;
    let mut parameters: Vec<MethodParameter> = Vec::new();
    let mut k: u8 = 0;
    while k < n
        invariant
            reader.wf(),
            reader.data() == old(reader).data(),
            reader.byte_order() == Endian::Big,
            n == old(reader).data()[old(reader).pos()],
            0 <= k <= n,
            reader.pos() == old(reader).pos() + 1 + 4 * k,
            parameters@.len() == k,
            forall|j: int| 0 <= j < k ==> (#[trigger] parameters@[j]).name_index == u2_at(old(reader).data(), old(reader).pos() + 1 + 4 * j)
                && parameters@[j].access_flags@ == decoded_flags(u2_at(old(reader).data(), old(reader).pos() + 3 + 4 * j) as u16, FlagContext::MethodParameter),
            parameters_end(old(reader).data(), old(reader).pos() + 1, n as int) == parameters_end(old(reader).data(), reader.pos(), n - k),
        decreases n - k,
    {
        let name_index = reader.read_u16()?;
        let flags = reader.read_u16()?;
        let access_flags = parse_access_flags(flags, FlagContext::MethodParameter)?;
        parameters.push(MethodParameter { name_index, access_flags });
        k = k + 1;
    }
    Ok(AttributeInfo::MethodParameters { parameters })
}

fn parse_record(reader: &mut BinaryReader, cp: &ConstantPool) -> (r: Result<AttributeInfo, ClassFileError>)
    requires
        old(reader).wf(),
        old(reader).byte_order() == Endian::Big,
    ensures
        final(reader).wf(),
        final(reader).data() == old(reader).data(),
        final(reader).byte_order() == Endian::Big,
        r matches Ok(a) ==> body_decoded(cp.entries@, a, old(reader).data(), old(reader).pos()) && a is Record,
        (if old(reader).pos() + 2 <= old(reader).data().len() { components_end(cp.entries@, old(reader).data(), old(reader).pos() + 2, u2_at(old(reader).data(), old(reader).pos())) } else { None::<int> }) is Some <==> r is Ok,
        r is Ok ==> final(reader).pos() == (if old(reader).pos() + 2 <= old(reader).data().len() { components_end(cp.entries@, old(reader).data(), old(reader).pos() + 2, u2_at(old(reader).data(), old(reader).pos())) } else { None::<int> })->Some_0,
    decreases 1nat, 0nat,
{
    let n = reader.read_u16()?;
    let mut components: Vec<RecordComponent> = Vec::new();
    let mut k: u16 = 0;
    while k < n
        invariant
            reader.wf(),
            reader.data() == old(reader).data(),
            reader.byte_order() == Endian::Big,
            n == u2_at(old(reader).data(), old(reader).pos()),
            0 <= k <= n,
            components@.len() == k,
            components_end(cp.entries@, old(reader).data(), old(reader).pos() + 2, n as int) == components_end(cp.entries@, old(reader).data(), reader.pos(), n - k),
            reader.pos() == component_start(cp.entries@, old(reader).data(), old(reader).pos() + 2, k as int),
            forall|x: int| 0 <= x < k ==> {
                let q = component_start(cp.entries@, old(reader).data(), old(reader).pos() + 2, x);
                &&& (#[trigger] components@[x]).name_index == u2_at(old(reader).data(), q)
                &&& components@[x].descriptor_index == u2_at(old(reader).data(), q + 2)
                &&& components@[x].attributes@.len() == u2_at(old(reader).data(), q + 4)
                &&& forall|j2: int| 0 <= j2 < components@[x].attributes@.len() ==> payload_decoded(
                    #[trigger] components@[x].attributes@[j2], old(reader).data(), attribute_start(cp.entries@, AttributeContext::Field, old(reader).data(), q + 6, j2) + 6)
            },
        decreases n - k,
    {
        let name_index = reader.read_u16()?;
        let descriptor_index = reader.read_u16()?;
        let count = reader.read_u16()?;
        let attributes = parse_attributes(reader, cp, count as usize, AttributeContext::Field)?;
        let ghost prev = components@;
        components.push(RecordComponent { name_index, descriptor_index, attributes });
        proof {
            assert forall|j: int| 0 <= j < components@.len() implies {
                let q = component_start(cp.entries@, old(reader).data(), old(reader).pos() + 2, j);
                &&& (#[trigger] components@[j]).name_index == u2_at(old(reader).data(), q)
                &&& components@[j].descriptor_index == u2_at(old(reader).data(), q + 2)
                &&& components@[j].attributes@.len() == u2_at(old(reader).data(), q + 4)
                &&& forall|j2: int| 0 <= j2 < components@[j].attributes@.len() ==> payload_decoded(
                    #[trigger] components@[j].attributes@[j2], old(reader).data(), attribute_start(cp.entries@, AttributeContext::Field, old(reader).data(), q + 6, j2) + 6)
            } by {
                if j < prev.len() {
                    assert(components@[j] == prev[j]);
                }
            }
        }
        k = k + 1;
    }
    Ok(AttributeInfo::Record { components })
}

fn parse_code(reader: &mut BinaryReader, cp: &ConstantPool) -> (r: Result<AttributeInfo, ClassFileError>)
    requires
        old(reader).wf(),
        old(reader).byte_order() == Endian::Big,
    ensures
        final(reader).wf(),
        final(reader).data() == old(reader).data(),
        final(reader).byte_order() == Endian::Big,
        r matches Ok(a) ==> body_decoded(cp.entries@, a, old(reader).data(), old(reader).pos()) && a is Code && code_well_formed(a),
        (code_end(cp.entries@, old(reader).data(), old(reader).pos())) is Some <==> r is Ok,
        r is Ok ==> final(reader).pos() == (code_end(cp.entries@, old(reader).data(), old(reader).pos()))->Some_0,
    decreases 1nat, 0nat,
{
    let max_stack = reader.read_u16()?;
    let max_locals = reader.read_u16()?;
    let code_length = reader.read_u32()?;
    if code_length as u64 > (reader.len() - reader.position()) as u64 {
        return Err(ClassFileError::UnexpectedEof);
    }
    let code_bytes = reader.read_u8_vec(code_length as usize)?;
    let mut code_reader = BinaryReader::new(code_bytes.as_slice(), Endian::Big);
    let code = parse_bytecode(&mut code_reader)?;
    let ghost b = code_bytes@;
    let ghost q = old(reader).pos() + 8 + code_length;
    assert(b == old(reader).data().subrange(old(reader).pos() + 8, q));
    assert(code_decoded(code@, b));
    assert(keys_are_instruction_starts(b, code@.dom(), b.len() as int));
    let n = reader.read_u16()?;
    let mut exception_table: Vec<ExceptionTableEntry> = Vec::new();
    let mut k: u16 = 0;
    while k < n
        invariant
            reader.wf(),
            reader.data() == old(reader).data(),
            reader.byte_order() == Endian::Big,
            n == u2_at(old(reader).data(), q),
            0 <= k <= n,
            reader.pos() == q + 2 + 8 * k,
            exception_table@.len() == k,
            code_end(cp.entries@, old(reader).data(), old(reader).pos()) is Some ==> q + 2 + 8 * n + 2 <= old(reader).data().len(),
            forall|j: int| 0 <= j < k ==> (#[trigger] exception_table@[j]).start_pc == u2_at(old(reader).data(), q + 2 + 8 * j)
                && exception_table@[j].end_pc == u2_at(old(reader).data(), q + 4 + 8 * j)
                && exception_table@[j].handler_pc == u2_at(old(reader).data(), q + 6 + 8 * j)
                && exception_table@[j].catch_type == u2_at(old(reader).data(), q + 8 + 8 * j),
        decreases n - k,
    {
        let start_pc = reader.read_u16()?;
        let end_pc = reader.read_u16()?;
        let handler_pc = reader.read_u16()?;
        let catch_type = reader.read_u16()?;
        exception_table.push(ExceptionTableEntry { start_pc, end_pc, handler_pc, catch_type });
        k = k + 1;
    }
    let count = reader.read_u16()?;
    let attributes = parse_attributes(reader, cp, count as usize, AttributeContext::Code)?;
    Ok(AttributeInfo::Code { max_stack, max_locals, code, exception_table, attributes })
}

/// Decodes one attribute of context `c`: its name (through the pool), its length, and the
/// payload that its name selects. A name that `c` does not accept is malformation.
pub fn parse_attribute(reader: &mut BinaryReader, cp: &ConstantPool, c: AttributeContext) -> (r: Result<AttributeInfo, ClassFileError>)
    requires
        old(reader).wf(),
        old(reader).byte_order() == Endian::Big,
    ensures
        final(reader).wf(),
        final(reader).data() == old(reader).data(),
        final(reader).byte_order() == Endian::Big,
        r matches Ok(a) ==> code_well_formed(a) && body_decoded(cp.entries@, a, old(reader).data(), old(reader).pos() + 6)
            && allowed_in(c, attribute_name(a)) && utf8_content(
            cp.entries@,
            u16_at(Endian::Big, old(reader).data(), old(reader).pos()) as u16,
        ) == Ok::<Seq<char>, ClassFileError>(attribute_name(a)),
        ({
            let n = utf8_content(cp.entries@, u16_at(Endian::Big, old(reader).data(), old(reader).pos()) as u16);
            old(reader).has(6) && n is Ok && !allowed_in(c, n->Ok_0) ==> (r matches Err(
                ClassFileError::UnknownAttribute { name },
            ) && name@ == n->Ok_0)
        }),
        (attribute_end(cp.entries@, c, old(reader).data(), old(reader).pos())) is Some <==> r is Ok,
        r is Ok ==> final(reader).pos() == (attribute_end(cp.entries@, c, old(reader).data(), old(reader).pos()))->Some_0,
    decreases context_rank(c), 2nat,
{
    let name_index = reader.read_u16()?;
    let name = cp.get_utf8_content(name_index)?;
    let _length = reader.read_u32()?;
    assert(reader.pos() == old(reader).pos() + 6);
    assert(u2_at(old(reader).data(), old(reader).pos()) as u16 == name_index);
    assert(attribute_end(cp.entries@, c, old(reader).data(), old(reader).pos())
        == body_end(cp.entries@, c, name@, old(reader).data(), old(reader).pos() + 6));
    match c {
        AttributeContext::Class => {
            if same_text(&name, "SourceFile") {
                Ok(AttributeInfo::SourceFile { source_file_index: reader.read_u16()? })
            } else if same_text(&name, "InnerClasses") {
                parse_inner_classes(reader, cp)
            } else if same_text(&name, "BootstrapMethods") {
                parse_bootstrap_methods(reader, cp)
            } else if same_text(&name, "Record") {
                parse_record(reader, cp)
            } else if same_text(&name, "Signature") {
                Ok(AttributeInfo::Signature { signature_index: reader.read_u16()? })
            } else {
                Err(ClassFileError::UnknownAttribute { name })
            }
        },
        AttributeContext::Method => {
            if same_text(&name, "Code") {
                parse_code(reader, cp)
            } else if same_text(&name, "MethodParameters") {
                parse_method_parameters(reader, cp)
            } else if same_text(&name, "Signature") {
                Ok(AttributeInfo::Signature { signature_index: reader.read_u16()? })
            } else {
                Err(ClassFileError::UnknownAttribute { name })
            }
        },
        AttributeContext::Field => {
            if same_text(&name, "Signature") {
                Ok(AttributeInfo::Signature { signature_index: reader.read_u16()? })
            } else {
                Err(ClassFileError::UnknownAttribute { name })
            }
        },
        AttributeContext::Code => {
            if same_text(&name, "LineNumberTable") {
                parse_line_number_table(reader, cp)
            } else if same_text(&name, "LocalVariableTable") {
                parse_local_variable_table(reader, cp)
            } else if same_text(&name, "StackMapTable") {
                parse_stack_map_table(reader, cp)
            } else {
                Err(ClassFileError::UnknownAttribute { name })
            }
        },
    }
}

/// Decodes `num_attributes` consecutive attributes of context `c`.
pub fn parse_attributes(reader: &mut BinaryReader, cp: &ConstantPool, num_attributes: usize, c: AttributeContext) -> (r: Result<Vec<AttributeInfo>, ClassFileError>)
    requires
        old(reader).wf(),
        old(reader).byte_order() == Endian::Big,
    ensures
        final(reader).wf(),
        final(reader).data() == old(reader).data(),
        final(reader).byte_order() == Endian::Big,
        r matches Ok(v) ==> v@.len() == num_attributes && forall|k: int|
            0 <= k < v@.len() ==> allowed_in(c, attribute_name(#[trigger] v@[k])) && code_well_formed(v@[k])
                && body_decoded(cp.entries@, v@[k], old(reader).data(), attribute_start(cp.entries@, c, old(reader).data(), old(reader).pos(), k) + 6),
        (attributes_end(cp.entries@, c, old(reader).data(), old(reader).pos(), num_attributes as int)) is Some <==> r is Ok,
        r is Ok ==> final(reader).pos() == (attributes_end(cp.entries@, c, old(reader).data(), old(reader).pos(), num_attributes as int))->Some_0,
    decreases context_rank(c), 3nat,
{
    let mut attributes: Vec<AttributeInfo> = Vec::new();
    let mut k: usize = 0;
    while k < num_attributes
        invariant
            reader.wf(),
            reader.data() == old(reader).data(),
            reader.byte_order() == Endian::Big,
            0 <= k <= num_attributes,
            attributes@.len() == k,
            forall|j: int| 0 <= j < k ==> allowed_in(c, attribute_name(#[trigger] attributes@[j])) && code_well_formed(attributes@[j])
                && body_decoded(cp.entries@, attributes@[j], old(reader).data(), attribute_start(cp.entries@, c, old(reader).data(), old(reader).pos(), j) + 6),
            reader.pos() == attribute_start(cp.entries@, c, old(reader).data(), old(reader).pos(), k as int),
            attributes_end(cp.entries@, c, old(reader).data(), old(reader).pos(), num_attributes as int) == attributes_end(cp.entries@, c, old(reader).data(), reader.pos(), num_attributes - k),
        decreases num_attributes - k,
    {
        let ghost prev = attributes@;
        let a = parse_attribute(reader, cp, c)?;
        attributes.push(a);
        proof {
            assert forall|j: int| 0 <= j < attributes@.len() implies allowed_in(c, attribute_name(#[trigger] attributes@[j]))
                && code_well_formed(attributes@[j])
                && body_decoded(cp.entries@, attributes@[j], old(reader).data(), attribute_start(cp.entries@, c, old(reader).data(), old(reader).pos(), j) + 6) by {
                if j < prev.len() {
                    assert(attributes@[j] == prev[j]);
                }
            }
        }
        k = k + 1;
    }
    Ok(attributes)
}

/// Decodes the attributes of a class.
pub fn parse_class_attributes(reader: &mut BinaryReader, cp: &ConstantPool, num_attributes: usize) -> (r: Result<Vec<AttributeInfo>, ClassFileError>)
    requires
        old(reader).wf(),
        old(reader).byte_order() == Endian::Big,
    ensures
        final(reader).wf(),
        final(reader).data() == old(reader).data(),
        final(reader).byte_order() == Endian::Big,
        r matches Ok(v) ==> v@.len() == num_attributes && forall|k: int|
            0 <= k < v@.len() ==> allowed_in(AttributeContext::Class, attribute_name(#[trigger] v@[k])) && code_well_formed(v@[k])
                && body_decoded(cp.entries@, v@[k], old(reader).data(), attribute_start(cp.entries@, AttributeContext::Class, old(reader).data(), old(reader).pos(), k) + 6),
        (attributes_end(cp.entries@, AttributeContext::Class, old(reader).data(), old(reader).pos(), num_attributes as int)) is Some <==> r is Ok,
        r is Ok ==> final(reader).pos() == (attributes_end(cp.entries@, AttributeContext::Class, old(reader).data(), old(reader).pos(), num_attributes as int))->Some_0,
{
    parse_attributes(reader, cp, num_attributes, AttributeContext::Class)
}

/// Decodes the attributes of a field.
pub fn parse_field_attributes(reader: &mut BinaryReader, cp: &ConstantPool, num_attributes: usize) -> (r: Result<Vec<AttributeInfo>, ClassFileError>)
    requires
        old(reader).wf(),
        old(reader).byte_order() == Endian::Big,
    ensures
        final(reader).wf(),
        final(reader).data() == old(reader).data(),
        final(reader).byte_order() == Endian::Big,
        r matches Ok(v) ==> v@.len() == num_attributes && forall|k: int|
            0 <= k < v@.len() ==> allowed_in(AttributeContext::Field, attribute_name(#[trigger] v@[k])) && code_well_formed(v@[k])
                && body_decoded(cp.entries@, v@[k], old(reader).data(), attribute_start(cp.entries@, AttributeContext::Field, old(reader).data(), old(reader).pos(), k) + 6),
        (attributes_end(cp.entries@, AttributeContext::Field, old(reader).data(), old(reader).pos(), num_attributes as int)) is Some <==> r is Ok,
        r is Ok ==> final(reader).pos() == (attributes_end(cp.entries@, AttributeContext::Field, old(reader).data(), old(reader).pos(), num_attributes as int))->Some_0,
{
    parse_attributes(reader, cp, num_attributes, AttributeContext::Field)
}

/// Decodes the attributes of a method.
pub fn parse_method_attributes(reader: &mut BinaryReader, cp: &ConstantPool, num_attributes: usize) -> (r: Result<Vec<AttributeInfo>, ClassFileError>)
    requires
        old(reader).wf(),
        old(reader).byte_order() == Endian::Big,
    ensures
        final(reader).wf(),
        final(reader).data() == old(reader).data(),
        final(reader).byte_order() == Endian::Big,
        r matches Ok(v) ==> v@.len() == num_attributes && forall|k: int|
            0 <= k < v@.len() ==> allowed_in(AttributeContext::Method, attribute_name(#[trigger] v@[k])) && code_well_formed(v@[k])
                && body_decoded(cp.entries@, v@[k], old(reader).data(), attribute_start(cp.entries@, AttributeContext::Method, old(reader).data(), old(reader).pos(), k) + 6),
        (attributes_end(cp.entries@, AttributeContext::Method, old(reader).data(), old(reader).pos(), num_attributes as int)) is Some <==> r is Ok,
        r is Ok ==> final(reader).pos() == (attributes_end(cp.entries@, AttributeContext::Method, old(reader).data(), old(reader).pos(), num_attributes as int))->Some_0,
{
    parse_attributes(reader, cp, num_attributes, AttributeContext::Method)
}

} // verus!
